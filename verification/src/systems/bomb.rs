//! Bombs and blasts: fuses, detonations, chain reactions and the fading of
//! the fire.

use vstd::prelude::*;
use crate::blast::{blast_mark, fade_after, first_drops, fuse_after, later_drops, ray_trail,
    Blast, Drops};
use crate::chance::{random_bool, random_ratio};
use crate::components::{BombData, Direction, ExplosionData, ItemType, Position};
use crate::entity::{EntityType, Payload};
use crate::scene::Scene;
use crate::state::GameState;
use crate::world::Tile;

verus! {

/// Out of `DROP_CHANCE_DENOMINATOR` broken tiles, this many leave a pickup.
pub const DROP_CHANCE_NUMERATOR: u32 = 3;

/// The number of broken tiles of which `DROP_CHANCE_NUMERATOR` leave a
/// pickup.
pub const DROP_CHANCE_DENOMINATOR: u32 = 10;

/// The pickup that a coin decides on: `Fire` for heads, `Bomb` for tails.
pub fn item_for(heads: bool) -> (item: ItemType)
    ensures
        item == if heads {
            ItemType::Fire
        } else {
            ItemType::Bomb
        },
{
    if heads {
        ItemType::Fire
    } else {
        ItemType::Bomb
    }
}

/// Rolls for what a broken tile leaves behind: a pickup three times in
/// ten, and then either kind as a coin falls.
fn draw_drop() -> Option<ItemType> {
    if random_ratio(DROP_CHANCE_NUMERATOR, DROP_CHANCE_DENOMINATOR) {
        Some(item_for(random_bool()))
    } else {
        None
    }
}

/// Whether the ray of a detonation in the given direction would break a
/// tile.
fn ray_breaks(game_state: &GameState, direction: Direction, blast: Blast) -> (breaks: bool)
    requires
        game_state.wf(),
    ensures
        breaks == game_state@.grid.ray_breaks(
            direction,
            blast.x as int,
            blast.y as int,
            blast.range as int,
        ),
{
    let ghost grid = game_state@.grid;
    let ghost x = blast.x as int;
    let ghost y = blast.y as int;
    let ghost range = blast.range as int;
    let mut at = Position { x: blast.x, y: blast.y };
    let mut i: usize = 0;
    while i < blast.range
        invariant
            i <= blast.range,
            x == blast.x,
            y == blast.y,
            range == blast.range,
            grid == game_state@.grid,
            game_state.wf(),
            (at.x as int, at.y as int) == direction.offset(x, y, i as int),
            forall|j: int| 1 <= j <= i ==> grid.tile_on(direction, x, y, j) == Some(Tile::Empty),
        decreases blast.range - i,
    {
        proof {
            game_state.world.lemma_wf();
        }
        match at.step(direction) {
            None => {
                proof {
                    assert(grid.tile_on(direction, x, y, i + 1) is None);
                    grid.lemma_run_from(direction, x, y, 1, range, i as int);
                }
                return false;
            },
            Some(next) => {
                assert((next.x as int, next.y as int) == direction.offset(x, y, i + 1));
                match game_state.world.get_tile(next.x, next.y) {
                    Some(Tile::Empty) => {
                        at = next;
                        i += 1;
                    },
                    Some(Tile::Breakable) => {
                        proof {
                            grid.lemma_run_from(direction, x, y, 1, range, i as int);
                        }
                        return true;
                    },
                    _ => {
                        proof {
                            grid.lemma_run_from(direction, x, y, 1, range, i as int);
                        }
                        return false;
                    },
                }
            },
        }
    }
    proof {
        grid.lemma_run_from(direction, x, y, 1, range, i as int);
    }
    false
}

/// Rolls the drops of one detonation: a roll for each ray that breaks a
/// tile, and none for the others.
fn draw_drops(game_state: &GameState, blast: Blast) -> (drops: Drops)
    requires
        game_state.wf(),
    ensures
        forall|d: Direction|
            !game_state@.grid.ray_breaks(d, blast.x as int, blast.y as int, blast.range as int)
                ==> #[trigger] drops.toward(d) is None,
{
    let up = if ray_breaks(game_state, Direction::Up, blast) {
        draw_drop()
    } else {
        None
    };
    let down = if ray_breaks(game_state, Direction::Down, blast) {
        draw_drop()
    } else {
        None
    };
    let left = if ray_breaks(game_state, Direction::Left, blast) {
        draw_drop()
    } else {
        None
    };
    let right = if ray_breaks(game_state, Direction::Right, blast) {
        draw_drop()
    } else {
        None
    };
    Drops { up, down, left, right }
}

/// Lays out one ray of a detonation: marks the tiles it crosses, breaks
/// the breakable tile it ends on, if any, and leaves `drop` there.
fn blast_ray(game_state: &mut GameState, direction: Direction, blast: Blast, drop: Option<ItemType>)
    requires
        old(game_state).wf(),
    ensures
        final(game_state).wf(),
        final(game_state)@ == old(game_state)@.after_ray(
            direction,
            blast.x as int,
            blast.y as int,
            blast.range as int,
            drop,
        ),
{
    let ghost before = game_state@;
    let ghost x = blast.x as int;
    let ghost y = blast.y as int;
    let ghost range = blast.range as int;
    let ghost first_id = before.entities.len() as int;
    let mut at = Position { x: blast.x, y: blast.y };
    let mut i: usize = 0;
    while i < blast.range
        invariant
            i <= blast.range,
            x == blast.x,
            y == blast.y,
            range == blast.range,
            before == old(game_state)@,
            first_id == before.entities.len(),
            game_state.wf(),
            (at.x as int, at.y as int) == direction.offset(x, y, i as int),
            forall|j: int|
                1 <= j <= i ==> before.grid.tile_on(direction, x, y, j) == Some(Tile::Empty),
            game_state@ == (Scene {
                entities: before.entities + ray_trail(direction, x, y, first_id, i as int),
                ..before
            }),
        decreases blast.range - i,
    {
        proof {
            reveal(Scene::after_ray);
            game_state.world.lemma_wf();
        }
        let ghost here = game_state@;
        let ghost trail = ray_trail(direction, x, y, first_id, i as int);
        let ghost longer = ray_trail(direction, x, y, first_id, i + 1);
        match at.step(direction) {
            None => {
                proof {
                    assert(before.grid.tile_on(direction, x, y, i + 1) is None);
                    before.grid.lemma_run_from(direction, x, y, 1, range, i as int);
                }
                return ;
            },
            Some(next) => {
                assert((next.x as int, next.y as int) == direction.offset(x, y, i + 1));
                match game_state.world.get_tile(next.x, next.y) {
                    Some(Tile::Empty) => {
                        game_state.add_explosion(next.x, next.y);
                        proof {
                            assert(before.entities + longer =~= (before.entities + trail).push(
                                blast_mark(first_id + i, next.x as int, next.y as int),
                            ));
                        }
                        at = next;
                        i += 1;
                    },
                    Some(Tile::Breakable) => {
                        proof {
                            before.grid.lemma_run_from(direction, x, y, 1, range, i as int);
                            before.grid.lemma_set(next.x as int, next.y as int, Tile::Empty);
                        }
                        game_state.world.set_tile(next.x, next.y, Tile::Empty);
                        game_state.add_explosion(next.x, next.y);
                        proof {
                            assert(before.entities + longer =~= (before.entities + trail).push(
                                blast_mark(first_id + i, next.x as int, next.y as int),
                            ));
                        }
                        if let Some(item) = drop {
                            game_state.add_item(next.x, next.y, item);
                        }
                        return ;
                    },
                    _ => {
                        proof {
                            before.grid.lemma_run_from(direction, x, y, 1, range, i as int);
                        }
                        return ;
                    },
                }
            },
        }
    }
    proof {
        reveal(Scene::after_ray);
        before.grid.lemma_run_from(direction, x, y, 1, range, i as int);
    }
}

/// Whether one of the given cells is the cell `at`.
fn holds(cells: &Vec<Position>, at: Position) -> (found: bool)
    ensures
        found == cells@.contains(at),
{
    let mut k: usize = 0;
    while k < cells.len()
        invariant
            k <= cells@.len(),
            forall|j: int| 0 <= j < k ==> cells@[j] != at,
        decreases cells@.len() - k,
    {
        if cells[k].x == at.x && cells[k].y == at.y {
            assert(cells@[k as int] == at);
            return true;
        }
        k += 1;
    }
    false
}

/// The cells that carry a live blast mark.
fn burning_cells(game_state: &GameState) -> (cells: Vec<Position>)
    ensures
        forall|at: Position| cells@.contains(at) <==> game_state@.burning(at),
{
    let mut cells: Vec<Position> = Vec::new();
    let mut i: usize = 0;
    while i < game_state.entities.len()
        invariant
            i <= game_state.entities@.len(),
            forall|k: int| 0 <= k < cells@.len() ==> game_state@.burning(#[trigger] cells@[k]),
            forall|j: int|
                0 <= j < i && (#[trigger] game_state.entities@[j]).is_live(EntityType::Explosion)
                    ==> cells@.contains(game_state.entities@[j].position),
        decreases game_state.entities@.len() - i,
    {
        let e = &game_state.entities[i];
        if e.is_alive && e.entity_type() == EntityType::Explosion {
            let ghost earlier = cells@;
            cells.push(e.position);
            proof {
                assert(game_state@.entities[i as int].is_live_at(
                    EntityType::Explosion,
                    e.position.x as int,
                    e.position.y as int,
                ));
                assert(cells@[earlier.len() as int] == e.position);
                assert forall|j: int|
                    0 <= j < i + 1 && (#[trigger] game_state.entities@[j]).is_live(
                        EntityType::Explosion,
                    ) implies cells@.contains(game_state.entities@[j].position) by {
                    if j < i {
                        let k = earlier.index_of(game_state.entities@[j].position);
                        assert(cells@[k] == earlier[k]);
                    }
                }
            }
        }
        i += 1;
    }
    proof {
        assert forall|at: Position| game_state@.burning(at) implies cells@.contains(at) by {
            let j = choose|j: int|
                0 <= j < game_state@.entities.len() && (#[trigger] game_state@.entities[j]).is_live_at(
                    EntityType::Explosion,
                    at.x as int,
                    at.y as int,
                );
            assert(game_state.entities@[j].is_live(EntityType::Explosion));
        }
    }
    cells
}

/// Destroys every live player, enemy and bomb on a cell that carries a
/// live blast mark, and hands back a detonation for each bomb destroyed, in
/// the order of the entities.
pub fn damage_entities_in_explosions(game_state: &mut GameState) -> (chain: Vec<Blast>)
    requires
        old(game_state).wf(),
    ensures
        final(game_state).wf(),
        final(game_state)@ == old(game_state)@.scorched(),
        chain@ == old(game_state)@.chain(),
{
    let cells = burning_cells(game_state);
    let ghost before = game_state@;
    let mut chain: Vec<Blast> = Vec::new();
    let mut i: usize = 0;
    while i < game_state.entities.len()
        invariant
            i <= game_state.entities@.len(),
            before == old(game_state)@,
            game_state.wf(),
            game_state.world == old(game_state).world,
            game_state.player_id == before.player_id,
            game_state.enemy_move_timer == before.enemy_move_timer,
            game_state.entities@.len() == before.entities.len(),
            forall|at: Position| cells@.contains(at) <==> before.burning(at),
            forall|j: int|
                0 <= j < game_state.entities@.len() ==> #[trigger] game_state.entities@[j] == if j
                    < i && before.burns(j) {
                    before.entities[j].dead()
                } else {
                    before.entities[j]
                },
            chain@ == before.chain_upto(i as nat),
        decreases game_state.entities@.len() - i,
    {
        let e = game_state.entities[i];
        if e.is_alive {
            let lit = holds(&cells, e.position);
            if lit {
                match e.payload {
                    Payload::Player(_) | Payload::Enemy => {
                        proof {
                            game_state@.lemma_update_wf(i as int, e.dead());
                        }
                        game_state.entities[i].is_alive = false;
                    },
                    Payload::Bomb(bomb) => {
                        proof {
                            game_state@.lemma_update_wf(i as int, e.dead());
                        }
                        game_state.entities[i].is_alive = false;
                        chain.push(Blast { x: e.position.x, y: e.position.y, range: bomb.range });
                    },
                    _ => {},
                }
            }
        }
        i += 1;
    }
    proof {
        assert(game_state@.entities =~= before.scorched().entities);
    }
    chain
}

/// Carries out one detonation: lays out the blast with the given drops,
/// lets the fire do its damage, and hands back the detonations set off.
pub fn detonate(game_state: &mut GameState, blast: Blast, drops: Drops) -> (chain: Vec<Blast>)
    requires
        old(game_state).wf(),
    ensures
        final(game_state).wf(),
        final(game_state)@ == old(game_state)@.detonated(blast, drops),
        chain@ == old(game_state)@.blasted(blast, drops).chain(),
{
    game_state.add_explosion(blast.x, blast.y);
    blast_ray(game_state, Direction::Up, blast, drops.up);
    blast_ray(game_state, Direction::Down, blast, drops.down);
    blast_ray(game_state, Direction::Left, blast, drops.left);
    blast_ray(game_state, Direction::Right, blast, drops.right);
    damage_entities_in_explosions(game_state)
}

/// Lets a bomb at column `x`, row `y` with the given range explode, and
/// with it every bomb that the fire reaches, until no detonation is due.
/// What the broken tiles leave behind is rolled; whatever the rolls, the
/// state afterwards is the one that the explosion leaves with some drops.
pub fn create_explosion(game_state: &mut GameState, x: usize, y: usize, range: usize)
    requires
        old(game_state).wf(),
    ensures
        final(game_state).wf(),
        exists|drops: Seq<Drops>|
            final(game_state)@ == #[trigger] old(game_state)@.exploded(
                seq![Blast { x, y, range }],
                drops,
            ),
{
    let ghost before = game_state@;
    let ghost start = seq![Blast { x, y, range }];
    let mut pending: Vec<Blast> = Vec::new();
    pending.push(Blast { x, y, range });
    let ghost mut rolled: Seq<Drops> = Seq::empty();
    assert(pending@ =~= start);
    assert forall|rest: Seq<Drops>|
        before.exploded(start, rolled + rest) == #[trigger] game_state@.exploded(
            pending@,
            rest,
        ) by {
        assert(rolled + rest =~= rest);
    }
    while pending.len() > 0
        invariant
            game_state.wf(),
            forall|rest: Seq<Drops>|
                before.exploded(start, rolled + rest) == #[trigger] game_state@.exploded(
                    pending@,
                    rest,
                ),
        decreases game_state@.live_bombs() + pending@.len(),
    {
        let ghost here = game_state@;
        let ghost stack = pending@;
        let blast = pending.pop().unwrap();
        assert(pending@ =~= stack.drop_last());
        let drops = draw_drops(game_state, blast);
        let mut chain = detonate(game_state, blast, drops);
        pending.append(&mut chain);
        proof {
            here.lemma_detonated_bombs(blast, drops);
            assert forall|rest: Seq<Drops>|
                before.exploded(start, rolled.push(drops) + rest)
                    == #[trigger] game_state@.exploded(pending@, rest) by {
                let all = seq![drops] + rest;
                assert(rolled.push(drops) + rest =~= rolled + all);
                assert(first_drops(all) == drops);
                assert(later_drops(all) =~= rest);
                assert(before.exploded(start, rolled + all) == here.exploded(stack, all));
            }
            rolled = rolled.push(drops);
        }
    }
    proof {
        assert(rolled + Seq::<Drops>::empty() =~= rolled);
        assert(before.exploded(start, rolled + Seq::<Drops>::empty()) == game_state@.exploded(
            pending@,
            Seq::<Drops>::empty(),
        ));
    }
}

/// Burns `delta_time` milliseconds off the fuse of every live bomb, and
/// lets each bomb whose fuse has run out explode.
pub fn update_bombs(game_state: &mut GameState, delta_time: u64)
    requires
        old(game_state).wf(),
    ensures
        final(game_state).wf(),
        exists|drops: Seq<Seq<Drops>>|
            final(game_state)@ == #[trigger] old(game_state)@.bombs_updated(delta_time, drops),
{
    let ghost before = game_state@;
    let mut due: Vec<Blast> = Vec::new();
    let mut i: usize = 0;
    while i < game_state.entities.len()
        invariant
            i <= game_state.entities@.len(),
            before == old(game_state)@,
            game_state.wf(),
            game_state.world == old(game_state).world,
            game_state.player_id == before.player_id,
            game_state.enemy_move_timer == before.enemy_move_timer,
            game_state.entities@.len() == before.entities.len(),
            forall|j: int|
                0 <= j < game_state.entities@.len() ==> #[trigger] game_state.entities@[j] == if j
                    < i {
                    fuse_after(before.entities[j], delta_time)
                } else {
                    before.entities[j]
                },
            due@ == before.expired_upto(delta_time, i as nat),
        decreases game_state.entities@.len() - i,
    {
        let e = game_state.entities[i];
        if e.is_alive {
            if let Payload::Bomb(bomb) = e.payload {
                let ghost here = game_state@;
                proof {
                    here.lemma_update_wf(i as int, fuse_after(e, delta_time));
                }
                if bomb.timer <= delta_time {
                    game_state.entities[i].payload = Payload::Bomb(BombData { timer: 0, ..bomb });
                    game_state.entities[i].is_alive = false;
                    due.push(Blast { x: e.position.x, y: e.position.y, range: bomb.range });
                } else {
                    game_state.entities[i].payload = Payload::Bomb(
                        BombData { timer: bomb.timer - delta_time, ..bomb },
                    );
                }
                assert(game_state.entities@ =~= here.entities.update(
                    i as int,
                    fuse_after(e, delta_time),
                ));
            }
        }
        i += 1;
    }
    let ghost lit = game_state@;
    let ghost mut rolled: Seq<Seq<Drops>> = Seq::empty();
    proof {
        assert(lit.entities =~= before.fuses_burnt(delta_time).entities);
    }
    let mut k: usize = 0;
    while k < due.len()
        invariant
            k <= due@.len(),
            game_state.wf(),
            rolled.len() == k,
            game_state@ == lit.set_off_upto(due@, rolled, k as nat),
        decreases due@.len() - k,
    {
        let ghost here = game_state@;
        let blast = due[k];
        create_explosion(game_state, blast.x, blast.y, blast.range);
        proof {
            let drops = choose|drops: Seq<Drops>|
                game_state@ == #[trigger] here.exploded(
                    seq![Blast { x: blast.x, y: blast.y, range: blast.range }],
                    drops,
                );
            lit.lemma_set_off_next(due@, rolled, drops);
            rolled = rolled.push(drops);
        }
        k += 1;
    }
    assert(game_state@ == before.bombs_updated(delta_time, rolled));
}

/// Takes `delta_time` milliseconds off the life of every live blast mark,
/// and destroys each mark whose life has run out.
pub fn update_explosions(game_state: &mut GameState, delta_time: u64)
    requires
        old(game_state).wf(),
    ensures
        final(game_state).wf(),
        final(game_state)@ == old(game_state)@.faded(delta_time),
{
    let ghost before = game_state@;
    let mut i: usize = 0;
    while i < game_state.entities.len()
        invariant
            i <= game_state.entities@.len(),
            before == old(game_state)@,
            game_state.wf(),
            game_state.world == old(game_state).world,
            game_state.player_id == before.player_id,
            game_state.enemy_move_timer == before.enemy_move_timer,
            game_state.entities@.len() == before.entities.len(),
            forall|j: int|
                0 <= j < game_state.entities@.len() ==> #[trigger] game_state.entities@[j] == if j
                    < i {
                    fade_after(before.entities[j], delta_time)
                } else {
                    before.entities[j]
                },
        decreases game_state.entities@.len() - i,
    {
        let e = game_state.entities[i];
        if e.is_alive {
            if let Payload::Explosion(mark) = e.payload {
                let ghost here = game_state@;
                proof {
                    here.lemma_update_wf(i as int, fade_after(e, delta_time));
                }
                if mark.timer <= delta_time {
                    game_state.entities[i].payload = Payload::Explosion(ExplosionData { timer: 0 });
                    game_state.entities[i].is_alive = false;
                } else {
                    game_state.entities[i].payload = Payload::Explosion(
                        ExplosionData { timer: mark.timer - delta_time },
                    );
                }
                assert(game_state.entities@ =~= here.entities.update(
                    i as int,
                    fade_after(e, delta_time),
                ));
            }
        }
        i += 1;
    }
    proof {
        assert(game_state@.entities =~= before.faded(delta_time).entities);
    }
}

} // verus!
