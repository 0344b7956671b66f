//! What a detonation does, as mathematics: how far each ray of the cross
//! reaches, what it marks and breaks, whom the fire destroys, and how one
//! bomb sets off the next.

use vstd::prelude::*;
use crate::components::{BombData, Direction, ExplosionData, ItemType, Position,
    EXPLOSION_LIFESPAN_MS};
use crate::entity::{count_where, lemma_count_add, lemma_count_none, lemma_count_push, Entity,
    EntityType, Payload};
use crate::scene::{is_live_kind, Scene};
use crate::world::{Grid, Tile};

verus! {

/// A detonation that is due: the cell of the bomb and its blast range.
#[derive(Debug, Clone, Copy, PartialEq, Eq)]
pub struct Blast {
    pub x: usize,
    pub y: usize,
    pub range: usize,
}

/// What the four rays of one detonation leave behind where they break a
/// tile: a pickup or nothing. The entry of a ray that breaks no tile is not
/// read.
#[derive(Debug, Clone, Copy, PartialEq, Eq)]
pub struct Drops {
    pub up: Option<ItemType>,
    pub down: Option<ItemType>,
    pub left: Option<ItemType>,
    pub right: Option<ItemType>,
}

impl Drops {
    /// No pickup on any ray.
    pub open spec fn nothing() -> Drops {
        Drops { up: None, down: None, left: None, right: None }
    }

    /// The entry for the ray in the given direction.
    pub open spec fn toward(self, direction: Direction) -> Option<ItemType> {
        match direction {
            Direction::Up => self.up,
            Direction::Down => self.down,
            Direction::Left => self.left,
            Direction::Right => self.right,
        }
    }
}

/// The drops for the next detonation: the first of the sequence, and no
/// pickups once the sequence has run out.
pub open spec fn first_drops(drops: Seq<Drops>) -> Drops {
    if drops.len() > 0 {
        drops[0]
    } else {
        Drops::nothing()
    }
}

/// The drops for the detonations after the next.
pub open spec fn later_drops(drops: Seq<Drops>) -> Seq<Drops> {
    if drops.len() > 0 {
        drops.subrange(1, drops.len() as int)
    } else {
        drops
    }
}

impl Grid {
    /// The tile `n` steps from column `x`, row `y` in the given direction.
    pub open spec fn tile_on(self, d: Direction, x: int, y: int, n: int) -> Option<Tile> {
        self.tile(d.offset(x, y, n).0, d.offset(x, y, n).1)
    }

    /// How many tiles in a row are empty along a ray, counting from step
    /// `from` and no further than step `range`.
    pub open spec fn run_from(self, d: Direction, x: int, y: int, from: int, range: int) -> int
        decreases range + 1 - from,
    {
        if from > range || self.tile_on(d, x, y, from) != Some(Tile::Empty) {
            0
        } else {
            1 + self.run_from(d, x, y, from + 1, range)
        }
    }

    /// How many tiles a ray crosses freely: the empty tiles next to the
    /// origin in the given direction, up to the first tile that is not
    /// empty, the edge of the grid, or the range.
    pub open spec fn clear_run(self, d: Direction, x: int, y: int, range: int) -> int {
        self.run_from(d, x, y, 1, range)
    }

    /// Whether a ray breaks a tile: within its range, the first tile that
    /// is not empty is breakable.
    pub open spec fn ray_breaks(self, d: Direction, x: int, y: int, range: int) -> bool {
        self.clear_run(d, x, y, range) < range && self.tile_on(
            d,
            x,
            y,
            self.clear_run(d, x, y, range) + 1,
        ) == Some(Tile::Breakable)
    }

    /// How many tiles a ray marks: those it crosses freely, and the tile it
    /// breaks.
    pub open spec fn ray_marks(self, d: Direction, x: int, y: int, range: int) -> int {
        self.clear_run(d, x, y, range) + if self.ray_breaks(d, x, y, range) {
            1int
        } else {
            0int
        }
    }

    /// A run is known by its length `k - from + 1`: the steps from `from`
    /// to `k` are empty tiles, and step `k + 1` is beyond the range or not
    /// an empty tile.
    pub proof fn lemma_run_from(self, d: Direction, x: int, y: int, from: int, range: int, k: int)
        requires
            from <= k + 1,
            k <= range,
            forall|j: int| from <= j <= k ==> self.tile_on(d, x, y, j) == Some(Tile::Empty),
            k == range || self.tile_on(d, x, y, k + 1) != Some(Tile::Empty),
        ensures
            self.run_from(d, x, y, from, range) == k + 1 - from,
        decreases k + 1 - from,
    {
        if from <= k {
            self.lemma_run_from(d, x, y, from + 1, range, k);
        }
    }

    /// What a run is: it stays within the range, every tile on it is an
    /// empty tile of the grid, and it ends at the range or before a tile
    /// that is not empty.
    pub proof fn lemma_run_is(self, d: Direction, x: int, y: int, from: int, range: int)
        requires
            from <= range + 1,
        ensures
            self.run_from(d, x, y, from, range) >= 0,
            from + self.run_from(d, x, y, from, range) <= range + 1,
            forall|j: int|
                from <= j < from + self.run_from(d, x, y, from, range) ==> self.tile_on(d, x, y, j)
                    == Some(Tile::Empty),
            from + self.run_from(d, x, y, from, range) == range + 1 || self.tile_on(
                d,
                x,
                y,
                from + self.run_from(d, x, y, from, range),
            ) != Some(Tile::Empty),
        decreases range + 1 - from,
    {
        if !(from > range || self.tile_on(d, x, y, from) != Some(Tile::Empty)) {
            self.lemma_run_is(d, x, y, from + 1, range);
        }
    }
}

/// The drops for the explosion of the bomb at index `i` of those whose fuse
/// ran out: the entry at `i`, and no drops beyond the entries.
pub open spec fn drops_for(drops: Seq<Seq<Drops>>, i: int) -> Seq<Drops> {
    if 0 <= i < drops.len() {
        drops[i]
    } else {
        Seq::empty()
    }
}

/// An entity after `delta` milliseconds have burnt off its fuse: a live
/// bomb with more than `delta` left has that much less; a live bomb with
/// `delta` or less left is destroyed, its fuse at zero; any other entity is
/// as it was.
pub open spec fn fuse_after(e: Entity, delta: u64) -> Entity {
    if e.is_live(EntityType::Bomb) {
        let bomb = e.payload->Bomb_0;
        if bomb.timer <= delta {
            Entity { is_alive: false, payload: Payload::Bomb(BombData { timer: 0, ..bomb }), ..e }
        } else {
            Entity {
                payload: Payload::Bomb(BombData { timer: (bomb.timer - delta) as u64, ..bomb }),
                ..e
            }
        }
    } else {
        e
    }
}

/// An entity after `delta` milliseconds of fading: a live blast mark with
/// more than `delta` left has that much less; a live blast mark with
/// `delta` or less left is destroyed, its timer at zero; any other entity
/// is as it was.
pub open spec fn fade_after(e: Entity, delta: u64) -> Entity {
    if e.is_live(EntityType::Explosion) {
        let mark = e.payload->Explosion_0;
        if mark.timer <= delta {
            Entity { is_alive: false, payload: Payload::Explosion(ExplosionData { timer: 0 }), ..e }
        } else {
            Entity {
                payload: Payload::Explosion(
                    ExplosionData { timer: (mark.timer - delta) as u64 },
                ),
                ..e
            }
        }
    } else {
        e
    }
}

/// The blast mark that a detonation leaves on the cell at column `x`, row
/// `y`, as the entity with the given id.
pub open spec fn blast_mark(id: int, x: int, y: int) -> Entity {
    Entity::fresh(
        id as usize,
        Position { x: x as usize, y: y as usize },
        Payload::Explosion(ExplosionData { timer: EXPLOSION_LIFESPAN_MS }),
    )
}

/// The blast marks that a ray leaves on its first `n` tiles, nearest first,
/// as entities with the ids from `first_id` on.
pub open spec fn ray_trail(d: Direction, x: int, y: int, first_id: int, n: int) -> Seq<Entity> {
    Seq::new(
        n as nat,
        |k: int| blast_mark(first_id + k, d.offset(x, y, k + 1).0, d.offset(x, y, k + 1).1),
    )
}

impl Scene {
    /// How many bombs are burning.
    pub open spec fn live_bombs(self) -> nat {
        count_where(self.entities, is_live_kind(EntityType::Bomb))
    }

    /// The scene after one ray of a detonation at column `x`, row `y`:
    /// a fresh blast mark on every tile that the ray marks, nearest first;
    /// the tile that the ray breaks, if any, made empty; and the pickup
    /// `drop` on that tile, if the ray breaks one and `drop` holds one.
    #[verifier::opaque]
    pub open spec fn after_ray(
        self,
        d: Direction,
        x: int,
        y: int,
        range: int,
        drop: Option<ItemType>,
    ) -> Scene {
        let marks = self.grid.ray_marks(d, x, y, range);
        let marked = Scene {
            entities: self.entities + ray_trail(d, x, y, self.entities.len() as int, marks),
            ..self
        };
        if self.grid.ray_breaks(d, x, y, range) {
            let broken = d.offset(x, y, marks);
            let opened = Scene { grid: self.grid.set(broken.0, broken.1, Tile::Empty), ..marked };
            match drop {
                Some(item) => opened.with_item(broken.0 as usize, broken.1 as usize, item),
                None => opened,
            }
        } else {
            marked
        }
    }

    /// The scene after the blast of one detonation has been laid out: a
    /// blast mark on the bomb's own cell, then the rays up, down, left and
    /// right, in that order.
    pub open spec fn blasted(self, blast: Blast, drops: Drops) -> Scene {
        self.with_explosion(blast.x, blast.y).after_ray(
            Direction::Up,
            blast.x as int,
            blast.y as int,
            blast.range as int,
            drops.up,
        ).after_ray(
            Direction::Down,
            blast.x as int,
            blast.y as int,
            blast.range as int,
            drops.down,
        ).after_ray(
            Direction::Left,
            blast.x as int,
            blast.y as int,
            blast.range as int,
            drops.left,
        ).after_ray(
            Direction::Right,
            blast.x as int,
            blast.y as int,
            blast.range as int,
            drops.right,
        )
    }

    /// Whether the given cell carries a live blast mark.
    pub open spec fn burning(self, at: Position) -> bool {
        self.has_live_at(EntityType::Explosion, at.x as int, at.y as int)
    }

    /// Whether the fire destroys the entity at index `i`: it is a live
    /// player, enemy or bomb on a cell that carries a live blast mark.
    pub open spec fn burns(self, i: int) -> bool {
        &&& self.entities[i].is_alive
        &&& (self.entities[i].payload is Player || self.entities[i].payload is Enemy
            || self.entities[i].payload is Bomb)
        &&& self.burning(self.entities[i].position)
    }

    /// The scene after the fire has done its damage: every entity that
    /// burns is destroyed, and nothing else changes.
    pub open spec fn scorched(self) -> Scene {
        Scene {
            entities: Seq::new(
                self.entities.len(),
                |i: int|
                    if self.burns(i) {
                        self.entities[i].dead()
                    } else {
                        self.entities[i]
                    },
            ),
            ..self
        }
    }

    /// The detonations that the fire sets off among the first `n`
    /// entities: one for each bomb that burns, in the order of the
    /// entities.
    pub open spec fn chain_upto(self, n: nat) -> Seq<Blast>
        decreases n,
    {
        if n == 0 {
            Seq::empty()
        } else if self.burns(n - 1) && self.entities[n - 1].payload is Bomb {
            self.chain_upto((n - 1) as nat).push(
                Blast {
                    x: self.entities[n - 1].position.x,
                    y: self.entities[n - 1].position.y,
                    range: self.entities[n - 1].payload->Bomb_0.range,
                },
            )
        } else {
            self.chain_upto((n - 1) as nat)
        }
    }

    /// The detonations that the fire sets off.
    pub open spec fn chain(self) -> Seq<Blast> {
        self.chain_upto(self.entities.len())
    }

    /// The scene after one detonation: the blast laid out, then the damage
    /// done.
    pub open spec fn detonated(self, blast: Blast, drops: Drops) -> Scene {
        self.blasted(blast, drops).scorched()
    }

    /// The scene after an explosion has run its course. `pending` is the
    /// stack of detonations that are due, the next one last; `drops` holds
    /// the drops for the detonations in the order in which they happen.
    /// Each step takes the next detonation off the stack, carries it out,
    /// and puts the detonations that it sets off on top; the explosion is
    /// over when the stack is empty. Every bomb set off was burning before,
    /// so the explosion ends.
    pub open spec fn exploded(self, pending: Seq<Blast>, drops: Seq<Drops>) -> Scene
        decreases self.live_bombs() + pending.len(),
    {
        if pending.len() == 0 {
            self
        } else {
            proof {
                self.lemma_detonated_bombs(pending.last(), first_drops(drops));
            }
            self.detonated(pending.last(), first_drops(drops)).exploded(
                pending.drop_last() + self.blasted(pending.last(), first_drops(drops)).chain(),
                later_drops(drops),
            )
        }
    }

    /// The scene after `delta` milliseconds have burnt off every fuse.
    pub open spec fn fuses_burnt(self, delta: u64) -> Scene {
        Scene {
            entities: Seq::new(self.entities.len(), |i: int| fuse_after(self.entities[i], delta)),
            ..self
        }
    }

    /// The detonations of the bombs among the first `n` entities whose fuse
    /// runs out within `delta` milliseconds, in the order of the entities.
    pub open spec fn expired_upto(self, delta: u64, n: nat) -> Seq<Blast>
        decreases n,
    {
        if n == 0 {
            Seq::empty()
        } else if self.entities[n - 1].is_live(EntityType::Bomb) && self.entities[n
            - 1].payload->Bomb_0.timer <= delta {
            self.expired_upto(delta, (n - 1) as nat).push(
                Blast {
                    x: self.entities[n - 1].position.x,
                    y: self.entities[n - 1].position.y,
                    range: self.entities[n - 1].payload->Bomb_0.range,
                },
            )
        } else {
            self.expired_upto(delta, (n - 1) as nat)
        }
    }

    /// The detonations of the bombs whose fuse runs out within `delta`
    /// milliseconds.
    pub open spec fn expired(self, delta: u64) -> Seq<Blast> {
        self.expired_upto(delta, self.entities.len())
    }

    /// The scene after the first `n` of the given bombs have exploded, one
    /// explosion after the other, each with its own drops.
    pub open spec fn set_off_upto(self, blasts: Seq<Blast>, drops: Seq<Seq<Drops>>, n: nat) -> Scene
        decreases n,
    {
        if n == 0 {
            self
        } else {
            self.set_off_upto(blasts, drops, (n - 1) as nat).exploded(
                seq![blasts[n - 1]],
                drops_for(drops, n - 1),
            )
        }
    }

    /// The scene after `delta` milliseconds of burning fuses: every fuse is
    /// burnt down by `delta`, and then each bomb whose fuse ran out
    /// explodes, together with the bombs that its explosion sets off.
    pub open spec fn bombs_updated(self, delta: u64, drops: Seq<Seq<Drops>>) -> Scene {
        self.fuses_burnt(delta).set_off_upto(
            self.expired(delta),
            drops,
            self.expired(delta).len(),
        )
    }

    /// The scene after `delta` milliseconds of fading blast marks.
    pub open spec fn faded(self, delta: u64) -> Scene {
        Scene {
            entities: Seq::new(self.entities.len(), |i: int| fade_after(self.entities[i], delta)),
            ..self
        }
    }

    /// What a series of explosions leaves depends only on the drops of the
    /// explosions in it.
    pub proof fn lemma_set_off_drops(
        self,
        blasts: Seq<Blast>,
        a: Seq<Seq<Drops>>,
        b: Seq<Seq<Drops>>,
        n: nat,
    )
        requires
            forall|i: int| 0 <= i < n ==> drops_for(a, i) == drops_for(b, i),
        ensures
            self.set_off_upto(blasts, a, n) == self.set_off_upto(blasts, b, n),
        decreases n,
    {
        if n > 0 {
            self.lemma_set_off_drops(blasts, a, b, (n - 1) as nat);
        }
    }

    /// The next explosion of a series builds on the explosions before it.
    pub proof fn lemma_set_off_next(
        self,
        blasts: Seq<Blast>,
        drops: Seq<Seq<Drops>>,
        next: Seq<Drops>,
    )
        ensures
            self.set_off_upto(blasts, drops.push(next), drops.len() + 1) == self.set_off_upto(
                blasts,
                drops,
                drops.len(),
            ).exploded(seq![blasts[drops.len() as int]], next),
    {
        self.lemma_set_off_drops(blasts, drops, drops.push(next), drops.len());
    }

    /// A ray neither adds nor destroys a bomb.
    pub proof fn lemma_after_ray_bombs(
        self,
        d: Direction,
        x: int,
        y: int,
        range: int,
        drop: Option<ItemType>,
    )
        ensures
            self.after_ray(d, x, y, range, drop).live_bombs() == self.live_bombs(),
    {
        reveal(Scene::after_ray);
        let pred = is_live_kind(EntityType::Bomb);
        let marks = self.grid.ray_marks(d, x, y, range);
        let trail = ray_trail(d, x, y, self.entities.len() as int, marks);
        lemma_count_none(trail, pred);
        lemma_count_add(self.entities, trail, pred);
        if self.grid.ray_breaks(d, x, y, range) {
            if let Some(item) = drop {
                let broken = d.offset(x, y, marks);
                lemma_count_push(
                    self.entities + trail,
                    pred,
                    Entity::fresh(
                        (self.entities + trail).len() as usize,
                        Position { x: broken.0 as usize, y: broken.1 as usize },
                        Payload::Item(item),
                    ),
                );
            }
        }
    }

    /// Laying out a blast neither adds nor destroys a bomb.
    pub proof fn lemma_blasted_bombs(self, blast: Blast, drops: Drops)
        ensures
            self.blasted(blast, drops).live_bombs() == self.live_bombs(),
    {
        let x = blast.x as int;
        let y = blast.y as int;
        let range = blast.range as int;
        let s0 = self.with_explosion(blast.x, blast.y);
        lemma_count_push(
            self.entities,
            is_live_kind(EntityType::Bomb),
            s0.entities[self.entities.len() as int],
        );
        let s1 = s0.after_ray(Direction::Up, x, y, range, drops.up);
        s0.lemma_after_ray_bombs(Direction::Up, x, y, range, drops.up);
        let s2 = s1.after_ray(Direction::Down, x, y, range, drops.down);
        s1.lemma_after_ray_bombs(Direction::Down, x, y, range, drops.down);
        let s3 = s2.after_ray(Direction::Left, x, y, range, drops.left);
        s2.lemma_after_ray_bombs(Direction::Left, x, y, range, drops.left);
        s3.lemma_after_ray_bombs(Direction::Right, x, y, range, drops.right);
    }

    /// Among the first `n` entities, every bomb that was burning is either
    /// still burning after the fire has done its damage, or set off.
    pub proof fn lemma_scorched_bombs_upto(self, n: nat)
        requires
            n <= self.entities.len(),
        ensures
            count_where(self.scorched().entities.take(n as int), is_live_kind(EntityType::Bomb))
                + self.chain_upto(n).len() == count_where(
                self.entities.take(n as int),
                is_live_kind(EntityType::Bomb),
            ),
        decreases n,
    {
        if n > 0 {
            self.lemma_scorched_bombs_upto((n - 1) as nat);
            assert(self.scorched().entities.take(n as int).drop_last()
                =~= self.scorched().entities.take(n - 1));
            assert(self.entities.take(n as int).drop_last() =~= self.entities.take(n - 1));
        }
    }

    /// One detonation sets off as many bombs as it takes from those that
    /// are burning.
    pub proof fn lemma_detonated_bombs(self, blast: Blast, drops: Drops)
        ensures
            self.detonated(blast, drops).live_bombs() + self.blasted(blast, drops).chain().len()
                == self.live_bombs(),
    {
        let lit = self.blasted(blast, drops);
        self.lemma_blasted_bombs(blast, drops);
        lit.lemma_scorched_bombs_upto(lit.entities.len());
        assert(lit.scorched().entities.take(lit.entities.len() as int) =~= lit.scorched().entities);
        assert(lit.entities.take(lit.entities.len() as int) =~= lit.entities);
    }
}

} // verus!
