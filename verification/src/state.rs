//! The game state and the moves that the player and the enemies can make.

use vstd::prelude::*;
use crate::blast::Drops;
use crate::components::{BombData, Direction, ItemType, PlayerStats, Position};
use crate::entity::{count_where, lemma_count_spares_two, lemma_count_update, Entity, EntityType,
    Payload};
use crate::scene::{is_live_bomb_of, is_live_kind, is_pickup_at, is_spent, Scene,
    ENEMY_MOVE_PERIOD_MS};
use crate::stage::{default_layout, StageConfig, StageError};
use crate::systems::ai::{check_player_enemy_collision, update_enemy_ai};
use crate::systems::bomb::{update_bombs, update_explosions};
use crate::world::{layout_char, layout_rows, World};
use vstd::string::*;

verus! {

/// A running game: the world, every entity ever created, the id that the
/// next entity gets, the id of the player, and the game time in
/// milliseconds gathered towards the enemies' next move.
pub struct GameState {
    pub world: World,
    pub entities: Vec<Entity>,
    pub next_entity_id: usize,
    pub player_id: usize,
    pub enemy_move_timer: u64,
}

impl View for GameState {
    type V = Scene;

    open spec fn view(&self) -> Scene {
        Scene {
            grid: self.world@,
            entities: self.entities@,
            player_id: self.player_id,
            enemy_move_timer: self.enemy_move_timer,
        }
    }
}

impl Scene {
    /// The scene after `delta` milliseconds have been gathered towards the
    /// enemies' next move: once a full period has been gathered, every live
    /// enemy tries a step and the gathering starts again from zero.
    pub open spec fn enemies_stepped(self, delta: u64, steps: Seq<Direction>) -> Scene {
        if self.enemy_move_timer + delta >= ENEMY_MOVE_PERIOD_MS {
            Scene { enemy_move_timer: 0, ..self.enemies_walked(steps) }
        } else {
            Scene { enemy_move_timer: (self.enemy_move_timer + delta) as u64, ..self }
        }
    }

    /// The scene after a tick of `delta` milliseconds, for the directions
    /// that the enemies try and the drops that the broken tiles leave: the
    /// enemies move if their time has come; the fuses burn and the bombs
    /// whose fuse has run out explode; the blast marks fade; the player
    /// picks up what lies on their cell; and the player is destroyed if an
    /// enemy stands on their cell. In that order.
    pub open spec fn ticked(
        self,
        delta: u64,
        steps: Seq<Direction>,
        drops: Seq<Seq<Drops>>,
    ) -> Scene {
        self.enemies_stepped(delta, steps).bombs_updated(delta, drops).faded(
            delta,
        ).picked_up().caught()
    }
}

impl GameState {
    /// The state is one that the game can be in: its world is consistent,
    /// its model is well-formed, and the next id is the number of entities.
    pub open spec fn wf(&self) -> bool {
        &&& self.world.wf()
        &&& self@.wf()
        &&& self.next_entity_id == self.entities@.len()
    }

    /// The game on the built-in stage, before anything has moved.
    pub fn new() -> (state: Self)
        ensures
            state.wf(),
            state@ == Scene::from_layout(default_layout()),
    {
        let layout = vec![
            "###############",
            "#P   X   X   E#",
            "# # # # # # # #",
            "#   X   X   X #",
            "# # # # # # # #",
            "#   X   X   X #",
            "# # # # # # # #",
            "#   X   X   X #",
            "# # # # # # # #",
            "#E  X   X   E #",
            "###############",
        ];
        assert(layout_rows(layout@) =~= default_layout());
        Self::from_layout(layout.as_slice())
    }

    /// The game on the given layout, before anything has moved: the world
    /// that the layout describes, the player on the first cell marked `P`,
    /// and an enemy on every cell marked `E`.
    pub fn from_layout(layout: &[&str]) -> (state: Self)
        ensures
            state.wf(),
            state@ == Scene::from_layout(layout_rows(layout@)),
    {
        let world = World::from_layout(layout);
        let width = world.width();
        let ghost rows = layout_rows(layout@);
        let mut state = GameState {
            world,
            entities: Vec::new(),
            next_entity_id: 0,
            player_id: 0,
            enemy_move_timer: 0,
        };
        let ghost start = state@;
        proof {
            state.world.lemma_wf();
        }
        let mut has_player = false;
        let mut y: usize = 0;
        while y < layout.len()
            invariant
                y <= layout@.len(),
                rows == layout_rows(layout@),
                width == start.grid.width,
                start.grid == state@.grid,
                state.wf(),
                has_player == (state@.player() is Some),
                state@ == start.populate(rows, y as nat),
            decreases layout@.len() - y,
        {
            let line = layout[y];
            let length = line.unicode_len();
            let ghost row_start = state@;
            let mut x: usize = 0;
            while x < width
                invariant
                    x <= width,
                    y < layout@.len(),
                    rows == layout_rows(layout@),
                    line@ == rows[y as int],
                    length == line@.len(),
                    row_start.grid == state@.grid,
                    state.wf(),
                    has_player == (state@.player() is Some),
                    state@ == row_start.populate_row(rows, y as nat, x as nat),
                decreases width - x,
            {
                let ghost before = state@;
                let ghost c = layout_char(rows, x as int, y as int);
                if x < length {
                    let marker = line.get_char(x);
                    if marker == 'P' {
                        if !has_player {
                            let e = Entity::new_player(state.next_entity_id, x, y);
                            state.player_id = state.next_entity_id;
                            state.entities.push(e);
                            state.next_entity_id = state.entities.len();
                            has_player = true;
                        }
                    } else if marker == 'E' {
                        state.spawn(Position { x, y }, Payload::Enemy);
                    }
                }
                proof {
                    assert(state.entities@.len() == state.entities.len());
                    if before.place_marker(c, x, y) != before {
                        before.lemma_place_marker_wf(c, x, y);
                    }
                    assert(state@ == before.place_marker(c, x, y));
                }
                x += 1;
            }
            y += 1;
        }
        state
    }

    /// The game on the given stage, before anything has moved; the stage's
    /// fault if it is not valid.
    pub fn from_stage(stage: &StageConfig) -> (result: Result<Self, StageError>)
        ensures
            result is Ok <==> stage.valid(),
            match result {
                Ok(state) => state.wf() && state@ == Scene::from_layout(stage.rows()),
                Err(e) => stage.validate_spec(e),
            },
    {
        match stage.validate() {
            Err(e) => Err(e),
            Ok(()) => {
                let mut rows: Vec<&str> = Vec::new();
                let mut y: usize = 0;
                while y < stage.layout.len()
                    invariant
                        y <= stage.layout@.len(),
                        rows@.len() == y,
                        forall|b: int| 0 <= b < y ==> (#[trigger] rows@[b])@ == stage.layout@[b]@,
                    decreases stage.layout@.len() - y,
                {
                    rows.push(stage.layout[y].as_str());
                    y += 1;
                }
                assert(layout_rows(rows@) =~= stage.rows());
                Ok(Self::from_layout(rows.as_slice()))
            },
        }
    }

    /// The player, if the game has one.
    pub fn get_player(&self) -> (player: Option<&Entity>)
        requires
            self.wf(),
        ensures
            match player {
                Some(p) => self@.player() == Some(*p),
                None => self@.player() is None,
            },
    {
        if self.player_id < self.entities.len() {
            let e = &self.entities[self.player_id];
            match e.payload {
                Payload::Player(_) => Some(e),
                _ => None,
            }
        } else {
            None
        }
    }

    /// The player, if the game has one, to be changed in place. The game
    /// afterwards is the game before with the player as the caller leaves
    /// it.
    pub fn get_player_mut(&mut self) -> (player: Option<&mut Entity>)
        requires
            old(self).wf(),
        ensures
            match player {
                Some(p) => {
                    &&& old(self)@.player() == Some(*p)
                    &&& final(self)@ == (Scene {
                        entities: old(self)@.entities.update(
                            old(self).player_id as int,
                            *final(p),
                        ),
                        ..old(self)@
                    })
                    &&& final(self).world == old(self).world
                    &&& final(self).next_entity_id == old(self).next_entity_id
                },
                None => old(self)@.player() is None && *final(self) == *old(self),
            },
    {
        if self.player_id < self.entities.len() {
            let is_player = match self.entities[self.player_id].payload {
                Payload::Player(_) => true,
                _ => false,
            };
            if is_player {
                let id = self.player_id;
                Some(&mut self.entities[id])
            } else {
                None
            }
        } else {
            None
        }
    }

    /// Adds a live entity with the next free id.
    fn spawn(&mut self, position: Position, payload: Payload)
        requires
            old(self).wf(),
            !(payload is Player),
        ensures
            final(self).wf(),
            final(self)@ == old(self)@.spawn(position, payload),
    {
        let e = Entity { id: self.next_entity_id, position, is_alive: true, payload };
        self.entities.push(e);
        self.next_entity_id = self.entities.len();
        proof {
            old(self)@.lemma_spawn_wf(position, payload);
        }
    }

    /// Whether a live entity of the given kind is on the given cell.
    pub fn has_live_at(&self, kind: EntityType, x: usize, y: usize) -> (found: bool)
        ensures
            found == self@.has_live_at(kind, x as int, y as int),
    {
        let mut i: usize = 0;
        while i < self.entities.len()
            invariant
                i <= self.entities@.len(),
                forall|j: int|
                    0 <= j < i ==> !(#[trigger] self.entities@[j]).is_live_at(
                        kind,
                        x as int,
                        y as int,
                    ),
            decreases self.entities@.len() - i,
        {
            let e = &self.entities[i];
            if e.is_alive && e.position.x == x && e.position.y == y && e.entity_type() == kind {
                assert(self@.entities[i as int].is_live_at(kind, x as int, y as int));
                return true;
            }
            i += 1;
        }
        false
    }

    /// Whether an entity may step onto the given cell: the cell is an empty
    /// tile of the grid and carries no live bomb.
    fn can_move_to(&self, x: usize, y: usize) -> (free: bool)
        requires
            self.wf(),
        ensures
            free == (self@.grid.walkable(x as int, y as int) && !self@.has_live_at(
                EntityType::Bomb,
                x as int,
                y as int,
            )),
    {
        if !self.world.is_walkable(x, y) {
            return false;
        }
        !self.has_live_at(EntityType::Bomb, x, y)
    }

    /// Moves the entity with the given id one cell in the given direction,
    /// if the rules allow it, and says whether it moved.
    pub fn move_entity(&mut self, entity_id: usize, direction: Direction) -> (moved: bool)
        requires
            old(self).wf(),
        ensures
            final(self).wf(),
            moved == old(self)@.can_move(entity_id as int, direction),
            final(self)@ == old(self)@.moved(entity_id as int, direction),
    {
        if entity_id >= self.entities.len() {
            return false;
        }
        let entity = self.entities[entity_id];
        if !entity.is_alive {
            return false;
        }
        proof {
            self.world.lemma_wf();
        }
        match entity.position.step(direction) {
            Some(target) => {
                if self.can_move_to(target.x, target.y) {
                    proof {
                        self@.lemma_moved_wf(entity_id as int, direction);
                    }
                    self.entities[entity_id].position = target;
                    assert(self@.entities =~= old(self)@.moved(
                        entity_id as int,
                        direction,
                    ).entities);
                    true
                } else {
                    false
                }
            },
            None => false,
        }
    }

    /// How many of the player's bombs are still burning.
    fn count_active_bombs(&self) -> (n: usize)
        ensures
            n == self@.active_bombs(),
    {
        let ghost pred = is_live_bomb_of(self.player_id);
        let mut n: usize = 0;
        let mut i: usize = 0;
        while i < self.entities.len()
            invariant
                i <= self.entities@.len(),
                pred == is_live_bomb_of(self.player_id),
                n == count_where(self.entities@.take(i as int), pred),
                n <= i,
            decreases self.entities@.len() - i,
        {
            let e = &self.entities[i];
            let owned = match e.payload {
                Payload::Bomb(b) => b.owner_id == self.player_id,
                _ => false,
            };
            proof {
                assert(self.entities@.take(i + 1).drop_last() =~= self.entities@.take(i as int));
            }
            if e.is_alive && owned {
                n += 1;
            }
            i += 1;
        }
        assert(self.entities@.take(i as int) =~= self.entities@);
        n
    }

    /// Places a bomb of the player's on the player's cell, if the rules
    /// allow it, and says whether it did.
    pub fn place_bomb(&mut self) -> (placed: bool)
        requires
            old(self).wf(),
        ensures
            final(self).wf(),
            placed == old(self)@.can_place_bomb(),
            final(self)@ == old(self)@.with_bomb(),
    {
        let (x, y, range, max_bombs) = match self.get_player() {
            Some(player) => {
                if !player.is_alive {
                    return false;
                }
                match player.payload {
                    Payload::Player(stats) => (
                        player.position.x,
                        player.position.y,
                        stats.bomb_range,
                        stats.max_bombs,
                    ),
                    _ => {
                        return false;
                    },
                }
            },
            None => {
                return false;
            },
        };
        let active_bombs = self.count_active_bombs();
        if active_bombs >= max_bombs {
            return false;
        }
        if self.has_live_at(EntityType::Bomb, x, y) {
            return false;
        }
        self.spawn(Position { x, y }, Payload::Bomb(BombData::new(range, self.player_id)));
        true
    }

    /// Lets a live player pick up every pickup on their cell.
    pub fn collect_items(&mut self)
        requires
            old(self).wf(),
        ensures
            final(self).wf(),
            final(self)@ == old(self)@.picked_up(),
    {
        let (at, pid) = match self.get_player() {
            Some(player) => {
                if !player.is_alive {
                    return ;
                }
                (player.position, player.id)
            },
            None => {
                return ;
            },
        };
        let ghost before = self@;
        let ghost stats = before.player_stats();
        let ghost fire = is_pickup_at(ItemType::Fire, at);
        let ghost bomb = is_pickup_at(ItemType::Bomb, at);
        let mut i: usize = 0;
        while i < self.entities.len()
            invariant
                i <= self.entities@.len(),
                before == old(self)@,
                before.wf(),
                before.player() is Some,
                stats == before.player_stats(),
                fire == is_pickup_at(ItemType::Fire, at),
                bomb == is_pickup_at(ItemType::Bomb, at),
                pid == before.player_id,
                at == before.entities[pid as int].position,
                self.world == old(self).world,
                self.next_entity_id == old(self).next_entity_id,
                self.player_id == pid,
                self.enemy_move_timer == before.enemy_move_timer,
                self.entities@.len() == before.entities.len(),
                self@.player() is Some,
                self@.player_stats().max_bombs >= 1,
                self@.player_stats().bomb_range >= 1,
                self@.player_stats().max_bombs + self@.player_stats().bomb_range <= 2
                    + count_where(self.entities@, is_spent()),
                self.entities@[pid as int] == (Entity {
                    payload: Payload::Player(self@.player_stats()),
                    ..before.entities[pid as int]
                }),
                self@.player_stats().speed == stats.speed,
                self@.player_stats().bomb_range == stats.bomb_range + count_where(
                    before.entities.take(i as int),
                    fire,
                ),
                self@.player_stats().max_bombs == stats.max_bombs + count_where(
                    before.entities.take(i as int),
                    bomb,
                ),
                forall|j: int|
                    0 <= j < self.entities@.len() && j != pid ==> #[trigger] self.entities@[j]
                        == if j < i && before.entities[j].is_live(EntityType::Item)
                        && before.entities[j].position == at {
                        before.entities[j].dead()
                    } else {
                        before.entities[j]
                    },
            decreases self.entities@.len() - i,
        {
            let e = self.entities[i];
            proof {
                assert(before.entities.take(i + 1).drop_last() =~= before.entities.take(i as int));
            }
            if e.is_alive && e.position.x == at.x && e.position.y == at.y {
                if let Payload::Item(item_type) = e.payload {
                    let player = self.entities[pid];
                    if let Payload::Player(now) = player.payload {
                        proof {
                            lemma_count_spares_two(self.entities@, is_spent(), i as int, pid as int);
                            lemma_count_update(self.entities@, is_spent(), i as int, e.dead());
                            lemma_count_update(
                                self.entities@.update(i as int, e.dead()),
                                is_spent(),
                                pid as int,
                                player,
                            );
                        }
                        let grown = match item_type {
                            ItemType::Fire => PlayerStats { bomb_range: now.bomb_range + 1, ..now },
                            ItemType::Bomb => PlayerStats { max_bombs: now.max_bombs + 1, ..now },
                        };
                        let ghost mid = self.entities@.update(i as int, e.dead());
                        self.entities[i].is_alive = false;
                        self.entities[pid].payload = Payload::Player(grown);
                        proof {
                            assert(self.entities@ =~= mid.update(
                                pid as int,
                                Entity { payload: Payload::Player(grown), ..player },
                            ));
                            lemma_count_update(
                                mid,
                                is_spent(),
                                pid as int,
                                Entity { payload: Payload::Player(grown), ..player },
                            );
                        }
                    }
                }
            }
            i += 1;
        }
        proof {
            assert(before.entities.take(i as int) =~= before.entities);
            assert(self@.entities =~= before.picked_up().entities);
        }
    }

    /// Whether the player is there and alive.
    pub fn player_alive(&self) -> (alive: bool)
        requires
            self.wf(),
        ensures
            alive == self@.player_alive(),
    {
        match self.get_player() {
            Some(player) => player.is_alive,
            None => false,
        }
    }

    /// How many enemies are alive.
    pub fn alive_enemies(&self) -> (n: usize)
        ensures
            n == self@.live_enemies(),
    {
        let ghost pred = is_live_kind(EntityType::Enemy);
        let mut n: usize = 0;
        let mut i: usize = 0;
        while i < self.entities.len()
            invariant
                i <= self.entities@.len(),
                pred == is_live_kind(EntityType::Enemy),
                n == count_where(self.entities@.take(i as int), pred),
                n <= i,
            decreases self.entities@.len() - i,
        {
            let e = &self.entities[i];
            proof {
                assert(self.entities@.take(i + 1).drop_last() =~= self.entities@.take(i as int));
            }
            if e.is_alive && e.entity_type() == EntityType::Enemy {
                n += 1;
            }
            i += 1;
        }
        assert(self.entities@.take(i as int) =~= self.entities@);
        n
    }

    /// The live entity that shows on the given cell: of those on the cell,
    /// the one created first.
    pub fn entity_at(&self, x: usize, y: usize) -> (found: Option<&Entity>)
        ensures
            match found {
                Some(e) => exists|i: int|
                    {
                        &&& 0 <= i < self@.entities.len()
                        &&& #[trigger] self@.entities[i] == *e
                        &&& e.is_alive
                        &&& e.position.is_at(x as int, y as int)
                        &&& forall|j: int|
                            0 <= j < i ==> !((#[trigger] self@.entities[j]).is_alive
                                && self@.entities[j].position.is_at(x as int, y as int))
                    },
                None => forall|j: int|
                    0 <= j < self@.entities.len() ==> !((#[trigger] self@.entities[j]).is_alive
                        && self@.entities[j].position.is_at(x as int, y as int)),
            },
    {
        let mut i: usize = 0;
        while i < self.entities.len()
            invariant
                i <= self.entities@.len(),
                forall|j: int|
                    0 <= j < i ==> !((#[trigger] self@.entities[j]).is_alive
                        && self@.entities[j].position.is_at(x as int, y as int)),
            decreases self.entities@.len() - i,
        {
            let e = &self.entities[i];
            if e.is_alive && e.position.x == x && e.position.y == y {
                assert(self@.entities[i as int] == *e);
                return Some(e);
            }
            i += 1;
        }
        None
    }

    /// Advances the game by `delta_time` milliseconds: moves the enemies
    /// if their time has come, burns the fuses and lets the bombs explode,
    /// fades the blast marks, lets the player pick up what lies on their
    /// cell, and lets the enemies catch the player. The enemies' directions
    /// and the drops of the broken tiles are rolled; whatever the rolls, the
    /// state afterwards is the one that the tick leaves for some directions
    /// and drops.
    pub fn tick(&mut self, delta_time: u64)
        requires
            old(self).wf(),
        ensures
            final(self).wf(),
            exists|steps: Seq<Direction>, drops: Seq<Seq<Drops>>|
                final(self)@ == #[trigger] old(self)@.ticked(delta_time, steps, drops),
    {
        let ghost before = self@;
        let ghost mut steps: Seq<Direction> = Seq::empty();
        if delta_time >= ENEMY_MOVE_PERIOD_MS - self.enemy_move_timer {
            update_enemy_ai(self);
            proof {
                steps = choose|steps: Seq<Direction>|
                    self@ == #[trigger] before.enemies_walked(steps);
            }
            self.enemy_move_timer = 0;
        } else {
            self.enemy_move_timer += delta_time;
        }
        let ghost stepped = self@;
        assert(stepped == before.enemies_stepped(delta_time, steps));
        update_bombs(self, delta_time);
        let ghost drops = choose|drops: Seq<Seq<Drops>>|
            self@ == #[trigger] stepped.bombs_updated(delta_time, drops);
        update_explosions(self, delta_time);
        self.collect_items();
        check_player_enemy_collision(self);
        assert(self@ == before.ticked(delta_time, steps, drops));
    }

    /// Puts a fresh blast mark on the given cell.
    pub fn add_explosion(&mut self, x: usize, y: usize)
        requires
            old(self).wf(),
        ensures
            final(self).wf(),
            final(self)@ == old(self)@.with_explosion(x, y),
    {
        self.spawn(
            Position { x, y },
            Payload::Explosion(crate::components::ExplosionData::new()),
        );
    }

    /// Puts a fresh pickup on the given cell.
    pub fn add_item(&mut self, x: usize, y: usize, item_type: ItemType)
        requires
            old(self).wf(),
        ensures
            final(self).wf(),
            final(self)@ == old(self)@.with_item(x, y, item_type),
    {
        self.spawn(Position { x, y }, Payload::Item(item_type));
    }
}

} // verus!
