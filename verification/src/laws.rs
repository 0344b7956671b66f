//! Laws of the game: what holds of every move, every bomb and every blast,
//! proved from the rules.

use vstd::prelude::*;
use crate::blast::{blast_mark, drops_for, first_drops, later_drops, ray_trail, Blast, Drops};
use crate::components::{Direction, ItemType, Position};
use crate::entity::{count_where, lemma_count_none, lemma_count_spares_one, Entity, EntityType,
    Payload};
use crate::scene::{is_pickup_at, is_spent, step_for, Scene};
use crate::world::{Grid, Tile};

verus! {

/// A move that succeeds puts the entity on the cell next to it in the
/// direction of the move; that cell lies on the grid, is an empty tile (so
/// neither a wall nor breakable), and carries no live bomb. A move that
/// fails changes nothing.
pub proof fn law_move_keeps_to_open_ground(scene: Scene, id: int, direction: Direction)
    requires
        scene.wf(),
    ensures
        scene.can_move(id, direction) ==> {
            let at = scene.moved(id, direction).entities[id].position;
            &&& (at.x as int, at.y as int) == scene.destination(id, direction)
            &&& scene.grid.in_bounds(at.x as int, at.y as int)
            &&& scene.grid.tile(at.x as int, at.y as int) == Some(Tile::Empty)
            &&& !scene.has_live_at(EntityType::Bomb, at.x as int, at.y as int)
        },
        !scene.can_move(id, direction) ==> scene.moved(id, direction) == scene,
{
}

/// A bomb cannot be placed while the player has as many bombs burning as
/// their capacity allows, nor on a cell that carries a live bomb. A live
/// player can place one in every other case, and the bomb placed lies on
/// the player's cell, with the player's blast range at that moment, a full
/// fuse, and the player as its owner.
pub proof fn law_bomb_placement(scene: Scene)
    requires
        scene.wf(),
    ensures
        scene.player_alive() && scene.active_bombs() >= scene.player_stats().max_bombs
            ==> !scene.can_place_bomb(),
        scene.player_alive() && scene.has_live_at(
            EntityType::Bomb,
            scene.entities[scene.player_id as int].position.x as int,
            scene.entities[scene.player_id as int].position.y as int,
        ) ==> !scene.can_place_bomb(),
        scene.player_alive() && scene.active_bombs() < scene.player_stats().max_bombs
            && !scene.has_live_at(
            EntityType::Bomb,
            scene.entities[scene.player_id as int].position.x as int,
            scene.entities[scene.player_id as int].position.y as int,
        ) ==> scene.can_place_bomb(),
        !scene.can_place_bomb() ==> scene.with_bomb() == scene,
        scene.can_place_bomb() ==> {
            let bomb = scene.with_bomb().entities.last();
            &&& scene.with_bomb().entities.drop_last() == scene.entities
            &&& bomb.is_alive
            &&& bomb.position == scene.entities[scene.player_id as int].position
            &&& bomb.payload matches Payload::Bomb(data)
            &&& data.range == scene.player_stats().bomb_range
            &&& data.owner_id == scene.player_id
            &&& data.timer == crate::components::BOMB_FUSE_MS
        },
{
    if scene.can_place_bomb() {
        assert(scene.with_bomb().entities.drop_last() =~= scene.entities);
    }
}

/// Picking up. A live player picks up every live pickup on their cell and
/// nothing else: each of these pickups is destroyed, the blast range grows
/// by exactly the number of `Fire` pickups among them, the bomb capacity by
/// exactly the number of `Bomb` pickups, and the speed stays. Every other
/// entity is as it was, and so are the player's cell and life.
pub proof fn law_pickup_adds_one_each(scene: Scene)
    requires
        scene.wf(),
        scene.player_alive(),
    ensures
        ({
            let after = scene.picked_up();
            let player = scene.entities[scene.player_id as int];
            let fires = count_where(scene.entities, is_pickup_at(ItemType::Fire, player.position));
            let bombs = count_where(scene.entities, is_pickup_at(ItemType::Bomb, player.position));
            &&& after.entities.len() == scene.entities.len()
            &&& after.player_alive()
            &&& after.entities[scene.player_id as int].position == player.position
            &&& after.player_stats().bomb_range == scene.player_stats().bomb_range + fires
            &&& after.player_stats().max_bombs == scene.player_stats().max_bombs + bombs
            &&& after.player_stats().speed == scene.player_stats().speed
            &&& forall|i: int|
                0 <= i < scene.entities.len() && i != scene.player_id ==> #[trigger] after.entities[i]
                    == if scene.entities[i].is_live(EntityType::Item) && scene.entities[i].position
                    == player.position {
                    scene.entities[i].dead()
                } else {
                    scene.entities[i]
                }
        }),
{
    let player = scene.entities[scene.player_id as int];
    let fire = is_pickup_at(ItemType::Fire, player.position);
    let bomb = is_pickup_at(ItemType::Bomb, player.position);
    lemma_count_spares_one(scene.entities, is_spent(), fire, scene.player_id as int);
    lemma_count_spares_one(scene.entities, is_spent(), bomb, scene.player_id as int);
}

/// No pickup is picked up twice: once the player has picked up what lies
/// on their cell, picking up again changes nothing.
pub proof fn law_pickup_once(scene: Scene)
    requires
        scene.wf(),
    ensures
        scene.picked_up().picked_up() == scene.picked_up(),
{
    if scene.player_alive() {
        let after = scene.picked_up();
        let player = scene.entities[scene.player_id as int];
        law_pickup_adds_one_each(scene);
        lemma_count_none(after.entities, is_pickup_at(ItemType::Fire, player.position));
        lemma_count_none(after.entities, is_pickup_at(ItemType::Bomb, player.position));
        assert(after.picked_up().entities =~= after.entities);
    }
}

impl Grid {
    /// The grid is a rectangle whose sides fit a `usize`.
    pub open spec fn fits(self) -> bool {
        self.wf() && self.width <= usize::MAX && self.height <= usize::MAX
    }
}

impl Scene {
    /// Whether the entity at index `i` is a pickup on a tile that was
    /// breakable in `earlier` and is empty now.
    pub open spec fn dropped_since(self, earlier: Scene, i: int) -> bool {
        &&& self.entities[i].payload is Item
        &&& earlier.grid.tile(
            self.entities[i].position.x as int,
            self.entities[i].position.y as int,
        ) == Some(Tile::Breakable)
        &&& self.grid.tile(self.entities[i].position.x as int, self.entities[i].position.y as int)
            == Some(Tile::Empty)
    }

    /// Whether this scene can have come out of `earlier` by blasts alone:
    /// the grid has kept its size, and each of its tiles is as it was or
    /// was breakable and is empty now; every entity of `earlier` is still
    /// there, as it was or, if it is a player, an enemy or a bomb, destroyed
    /// since; every pickup added since lies on a tile that was breakable
    /// and is empty now, and no two of them lie on the same tile; and the
    /// player's id and the enemies' timer are as they were.
    pub open spec fn follows(self, earlier: Scene) -> bool {
        &&& self.grid.wf()
        &&& self.grid.width == earlier.grid.width
        &&& self.grid.height == earlier.grid.height
        &&& forall|a: int, b: int| #[trigger]
            self.grid.tile(a, b) == earlier.grid.tile(a, b) || (earlier.grid.tile(a, b) == Some(
                Tile::Breakable,
            ) && self.grid.tile(a, b) == Some(Tile::Empty))
        &&& self.entities.len() >= earlier.entities.len()
        &&& forall|i: int|
            0 <= i < earlier.entities.len() ==> #[trigger] self.entities[i] == earlier.entities[i]
                || (self.entities[i] == earlier.entities[i].dead() && earlier.entities[i].is_alive
                && !(earlier.entities[i].payload is Explosion) && !(earlier.entities[i].payload
                is Item))
        &&& forall|i: int|
            earlier.entities.len() <= i < self.entities.len() && (#[trigger] self.entities[i]).payload
                is Item ==> self.dropped_since(earlier, i)
        &&& forall|i: int, j: int|
            earlier.entities.len() <= i < j < self.entities.len() && (
            #[trigger] self.entities[i]).payload is Item && (#[trigger] self.entities[j]).payload
                is Item ==> self.entities[i].position != self.entities[j].position
        &&& self.player_id == earlier.player_id
        &&& self.enemy_move_timer == earlier.enemy_move_timer
    }

    /// What follows from what follows from a scene, follows from the scene.
    pub proof fn lemma_follows_trans(self, middle: Scene, earlier: Scene)
        requires
            self.follows(middle),
            middle.follows(earlier),
        ensures
            self.follows(earlier),
    {
        assert forall|a: int, b: int| #[trigger]
            self.grid.tile(a, b) == earlier.grid.tile(a, b) || (earlier.grid.tile(a, b) == Some(
                Tile::Breakable,
            ) && self.grid.tile(a, b) == Some(Tile::Empty)) by {
            assert(middle.grid.tile(a, b) == earlier.grid.tile(a, b) || (earlier.grid.tile(a, b)
                == Some(Tile::Breakable) && middle.grid.tile(a, b) == Some(Tile::Empty)));
        }
        assert forall|i: int| 0 <= i < earlier.entities.len() implies #[trigger] self.entities[i]
            == earlier.entities[i] || (self.entities[i] == earlier.entities[i].dead()
            && earlier.entities[i].is_alive && !(earlier.entities[i].payload is Explosion) && !(
        earlier.entities[i].payload is Item)) by {
            assert(middle.entities[i] == earlier.entities[i] || middle.entities[i]
                == earlier.entities[i].dead());
        }
        assert forall|i: int|
            earlier.entities.len() <= i < self.entities.len() && (#[trigger] self.entities[i]).payload
                is Item implies self.dropped_since(earlier, i) by {
            self.lemma_dropped_trans(middle, earlier, i);
        }
        assert forall|i: int, j: int|
            earlier.entities.len() <= i < j < self.entities.len() && (
            #[trigger] self.entities[i]).payload is Item && (#[trigger] self.entities[j]).payload
                is Item implies self.entities[i].position != self.entities[j].position by {
            self.lemma_dropped_trans(middle, earlier, i);
            self.lemma_dropped_trans(middle, earlier, j);
            if i < middle.entities.len() {
                assert(self.entities[i] == middle.entities[i]);
                if j < middle.entities.len() {
                    assert(self.entities[j] == middle.entities[j]);
                } else {
                    assert(self.dropped_since(middle, j));
                    assert(middle.dropped_since(earlier, i));
                }
            }
        }
    }

    /// A pickup added between `earlier` and this scene lies on a tile that
    /// was breakable in `earlier` and is empty now, whether it was added
    /// before `middle` or after.
    proof fn lemma_dropped_trans(self, middle: Scene, earlier: Scene, i: int)
        requires
            self.follows(middle),
            middle.follows(earlier),
            earlier.entities.len() <= i < self.entities.len(),
            self.entities[i].payload is Item,
        ensures
            self.dropped_since(earlier, i),
            i < middle.entities.len() ==> self.entities[i] == middle.entities[i]
                && middle.dropped_since(earlier, i),
            i >= middle.entities.len() ==> self.dropped_since(middle, i),
    {
        let a = self.entities[i].position.x as int;
        let b = self.entities[i].position.y as int;
        assert(self.grid.tile(a, b) == middle.grid.tile(a, b) || (middle.grid.tile(a, b) == Some(
            Tile::Breakable,
        ) && self.grid.tile(a, b) == Some(Tile::Empty)));
        assert(middle.grid.tile(a, b) == earlier.grid.tile(a, b) || (earlier.grid.tile(a, b)
            == Some(Tile::Breakable) && middle.grid.tile(a, b) == Some(Tile::Empty)));
        if i < middle.entities.len() {
            assert(self.entities[i] == middle.entities[i] || self.entities[i]
                == middle.entities[i].dead());
            assert(middle.entities[i].payload is Item);
            assert(middle.dropped_since(earlier, i));
        } else {
            assert(self.dropped_since(middle, i));
        }
    }

    /// What one ray does, spelt out. It marks the tiles it crosses freely
    /// and the tile it breaks, nearest first, and every tile it marks was
    /// empty but the one it breaks; it leaves the drop, if there is one, on
    /// the tile it breaks and nowhere else; it makes that tile empty and
    /// changes no other; and it leaves every earlier entity as it was.
    pub proof fn lemma_after_ray(
        self,
        d: Direction,
        x: int,
        y: int,
        range: int,
        drop: Option<ItemType>,
    )
        requires
            self.grid.fits(),
            0 <= range,
        ensures
            ({
                let after = self.after_ray(d, x, y, range, drop);
                let n = self.entities.len() as int;
                let run = self.grid.clear_run(d, x, y, range);
                let marks = self.grid.ray_marks(d, x, y, range);
                let breaks = self.grid.ray_breaks(d, x, y, range);
                let broken = d.offset(x, y, marks);
                &&& 0 <= run <= marks <= range
                &&& after.follows(self)
                &&& forall|i: int| 0 <= i < n ==> #[trigger] after.entities[i] == self.entities[i]
                &&& forall|j: int| 1 <= j <= run ==> self.grid.tile_on(d, x, y, j) == Some(Tile::Empty)
                &&& breaks ==> marks == run + 1 && self.grid.tile_on(d, x, y, marks) == Some(
                    Tile::Breakable,
                ) && after.grid == self.grid.set(broken.0, broken.1, Tile::Empty)
                &&& !breaks ==> marks == run && after.grid == self.grid && (run == range
                    || self.grid.tile_on(d, x, y, run + 1) is None || self.grid.tile_on(
                    d,
                    x,
                    y,
                    run + 1,
                ) == Some(Tile::Wall))
                &&& after.entities.len() == n + marks + if breaks && drop is Some {
                    1int
                } else {
                    0int
                }
                &&& forall|k: int|
                    0 <= k < marks ==> #[trigger] after.entities[n + k] == blast_mark(
                        n + k,
                        d.offset(x, y, k + 1).0,
                        d.offset(x, y, k + 1).1,
                    )
                &&& breaks && drop is Some ==> after.entities[n + marks] == Entity::fresh(
                    (n + marks) as usize,
                    Position { x: broken.0 as usize, y: broken.1 as usize },
                    Payload::Item(drop->0),
                )
            }),
    {
        reveal(Scene::after_ray);
        let after = self.after_ray(d, x, y, range, drop);
        let marks = self.grid.ray_marks(d, x, y, range);
        let broken = d.offset(x, y, marks);
        self.grid.lemma_run_is(d, x, y, 1, range);
        self.grid.lemma_set(broken.0, broken.1, Tile::Empty);
    }
}

impl Scene {
    /// The scene after the blast of a detonation has been laid out follows
    /// from the scene before, and the first entity added is the blast mark
    /// on the bomb's own cell.
    pub proof fn lemma_blasted(self, blast: Blast, drops: Drops)
        requires
            self.grid.fits(),
        ensures
            self.blasted(blast, drops).follows(self),
            self.blasted(blast, drops).entities.len() > self.entities.len(),
            self.blasted(blast, drops).entities[self.entities.len() as int] == blast_mark(
                self.entities.len() as int,
                blast.x as int,
                blast.y as int,
            ),
            forall|i: int|
                0 <= i < self.entities.len() ==> #[trigger] self.blasted(blast, drops).entities[i]
                    == self.entities[i],
    {
        let x = blast.x as int;
        let y = blast.y as int;
        let r = blast.range as int;
        let s0 = self.with_explosion(blast.x, blast.y);
        let s1 = s0.after_ray(Direction::Up, x, y, r, drops.up);
        let s2 = s1.after_ray(Direction::Down, x, y, r, drops.down);
        let s3 = s2.after_ray(Direction::Left, x, y, r, drops.left);
        let s4 = s3.after_ray(Direction::Right, x, y, r, drops.right);
        assert(s0.follows(self));
        s0.lemma_after_ray(Direction::Up, x, y, r, drops.up);
        s1.lemma_follows_trans(s0, self);
        s1.lemma_after_ray(Direction::Down, x, y, r, drops.down);
        s2.lemma_follows_trans(s1, self);
        s2.lemma_after_ray(Direction::Left, x, y, r, drops.left);
        s3.lemma_follows_trans(s2, self);
        s3.lemma_after_ray(Direction::Right, x, y, r, drops.right);
        s4.lemma_follows_trans(s3, self);
        let n = self.entities.len() as int;
        assert forall|i: int| 0 <= i <= n implies #[trigger] s4.entities[i] == s0.entities[i] by {
            assert(s4.entities[i] == s3.entities[i]);
            assert(s3.entities[i] == s2.entities[i]);
            assert(s2.entities[i] == s1.entities[i]);
            assert(s1.entities[i] == s0.entities[i]);
        }
        assert(s4.entities[n] == s0.entities[n]);
    }

    /// The scene after one detonation follows from the scene before, and
    /// the blast mark on the bomb's own cell is in it.
    pub proof fn lemma_detonated(self, blast: Blast, drops: Drops)
        requires
            self.grid.fits(),
        ensures
            self.detonated(blast, drops).follows(self),
            self.detonated(blast, drops).entities.len() > self.entities.len(),
            self.detonated(blast, drops).entities[self.entities.len() as int] == blast_mark(
                self.entities.len() as int,
                blast.x as int,
                blast.y as int,
            ),
    {
        let lit = self.blasted(blast, drops);
        self.lemma_blasted(blast, drops);
        assert(lit.scorched().follows(lit));
        lit.scorched().lemma_follows_trans(lit, self);
    }
}

impl Grid {
    /// Two grids with the same tiles along a ray give the ray the same run.
    pub proof fn lemma_run_agrees(
        self,
        other: Grid,
        d: Direction,
        x: int,
        y: int,
        from: int,
        range: int,
    )
        requires
            forall|j: int|
                from <= j <= range ==> self.tile_on(d, x, y, j) == other.tile_on(d, x, y, j),
        ensures
            self.run_from(d, x, y, from, range) == other.run_from(d, x, y, from, range),
        decreases range + 1 - from,
    {
        if from <= range {
            self.lemma_run_agrees(other, d, x, y, from + 1, range);
        }
    }
}

/// The arms of a cross do not meet. What a ray of a detonation finds on its
/// way does not depend on whether a ray of the same detonation in another
/// direction has been laid out before it: it crosses the same tiles and
/// breaks the same tile, if any.
pub proof fn law_rays_do_not_meet(
    scene: Scene,
    d: Direction,
    e: Direction,
    x: int,
    y: int,
    range: int,
    drop: Option<ItemType>,
)
    requires
        scene.wf(),
        d != e,
        0 <= range,
    ensures
        ({
            let after = scene.after_ray(d, x, y, range, drop);
            &&& forall|j: int|
                1 <= j ==> after.grid.tile_on(e, x, y, j) == scene.grid.tile_on(e, x, y, j)
            &&& after.grid.clear_run(e, x, y, range) == scene.grid.clear_run(e, x, y, range)
            &&& after.grid.ray_breaks(e, x, y, range) == scene.grid.ray_breaks(e, x, y, range)
            &&& after.grid.ray_marks(e, x, y, range) == scene.grid.ray_marks(e, x, y, range)
        }),
{
    reveal(Scene::after_ray);
    let after = scene.after_ray(d, x, y, range, drop);
    let marks = scene.grid.ray_marks(d, x, y, range);
    let broken = d.offset(x, y, marks);
    scene.lemma_after_ray(d, x, y, range, drop);
    scene.grid.lemma_set(broken.0, broken.1, Tile::Empty);
    scene.grid.lemma_run_is(e, x, y, 1, range);
    assert forall|j: int| 1 <= j implies after.grid.tile_on(e, x, y, j) == scene.grid.tile_on(
        e,
        x,
        y,
        j,
    ) by {
        assert(scene.grid.ray_breaks(d, x, y, range) ==> marks >= 1);
        assert(e.offset(x, y, j) != broken || !scene.grid.ray_breaks(d, x, y, range));
    }
    after.grid.lemma_run_agrees(scene.grid, e, x, y, 1, range);
}

/// The cells of a cross with arms of length `range` around column `x`, row
/// `y`, numbered from zero: the centre, then the arm upwards from the
/// centre out, then the arms downwards, to the left and to the right.
pub open spec fn cross_cell(x: int, y: int, range: int, k: int) -> (int, int) {
    if k <= 0 {
        (x, y)
    } else if k <= range {
        Direction::Up.offset(x, y, k)
    } else if k <= 2 * range {
        Direction::Down.offset(x, y, k - range)
    } else if k <= 3 * range {
        Direction::Left.offset(x, y, k - 2 * range)
    } else {
        Direction::Right.offset(x, y, k - 3 * range)
    }
}

impl Scene {
    /// A ray over nothing but empty tiles marks every tile within its
    /// range and does nothing else.
    pub proof fn lemma_open_ray(
        self,
        d: Direction,
        x: int,
        y: int,
        range: int,
        drop: Option<ItemType>,
    )
        requires
            self.grid.fits(),
            0 <= range,
            forall|j: int| 1 <= j <= range ==> self.grid.tile_on(d, x, y, j) == Some(Tile::Empty),
        ensures
            self.after_ray(d, x, y, range, drop) == (Scene {
                entities: self.entities + ray_trail(
                    d,
                    x,
                    y,
                    self.entities.len() as int,
                    range,
                ),
                ..self
            }),
    {
        reveal(Scene::after_ray);
        self.grid.lemma_run_from(d, x, y, 1, range, range);
    }
}

/// In an open field, where every tile within the range of the bomb along
/// the four axes is an empty tile of the grid, a detonation with range `r`
/// leaves exactly `1 + 4r` blast marks, one on each cell of the cross
/// around the bomb and no two on the same cell. It breaks no tile, leaves
/// no pickup, and leaves every earlier entity as it was.
pub proof fn law_open_field_cross(scene: Scene, blast: Blast, drops: Drops)
    requires
        scene.wf(),
        forall|d: Direction, j: int|
            1 <= j <= blast.range ==> #[trigger] scene.grid.tile_on(
                d,
                blast.x as int,
                blast.y as int,
                j,
            ) == Some(Tile::Empty),
    ensures
        ({
            let after = scene.blasted(blast, drops);
            let n = scene.entities.len() as int;
            let x = blast.x as int;
            let y = blast.y as int;
            let r = blast.range as int;
            &&& after.grid == scene.grid
            &&& after.entities.len() == n + 1 + 4 * r
            &&& forall|i: int| 0 <= i < n ==> #[trigger] after.entities[i] == scene.entities[i]
            &&& forall|k: int|
                0 <= k < 1 + 4 * r ==> #[trigger] after.entities[n + k] == blast_mark(
                    n + k,
                    cross_cell(x, y, r, k).0,
                    cross_cell(x, y, r, k).1,
                )
            &&& forall|i: int, j: int|
                0 <= i < j < 1 + 4 * r ==> #[trigger] cross_cell(x, y, r, i) != #[trigger] cross_cell(
                    x,
                    y,
                    r,
                    j,
                )
        }),
{
    let n = scene.entities.len() as int;
    let x = blast.x as int;
    let y = blast.y as int;
    let r = blast.range as int;
    let s0 = scene.with_explosion(blast.x, blast.y);
    let s1 = s0.after_ray(Direction::Up, x, y, r, drops.up);
    let s2 = s1.after_ray(Direction::Down, x, y, r, drops.down);
    let s3 = s2.after_ray(Direction::Left, x, y, r, drops.left);
    let s4 = s3.after_ray(Direction::Right, x, y, r, drops.right);
    let up = ray_trail(Direction::Up, x, y, n + 1, r);
    let down = ray_trail(Direction::Down, x, y, n + 1 + r, r);
    let left = ray_trail(Direction::Left, x, y, n + 1 + 2 * r, r);
    let right = ray_trail(Direction::Right, x, y, n + 1 + 3 * r, r);
    assert(s1.entities == s0.entities + up && s1.grid == scene.grid) by {
        s0.lemma_open_ray(Direction::Up, x, y, r, drops.up);
    }
    assert(s2.entities == s1.entities + down && s2.grid == scene.grid) by {
        s1.lemma_open_ray(Direction::Down, x, y, r, drops.down);
    }
    assert(s3.entities == s2.entities + left && s3.grid == scene.grid) by {
        s2.lemma_open_ray(Direction::Left, x, y, r, drops.left);
    }
    assert(s4.entities == s3.entities + right && s4.grid == scene.grid) by {
        s3.lemma_open_ray(Direction::Right, x, y, r, drops.right);
    }
    assert forall|k: int| 0 <= k < 1 + 4 * r implies #[trigger] s4.entities[n + k] == blast_mark(
        n + k,
        cross_cell(x, y, r, k).0,
        cross_cell(x, y, r, k).1,
    ) by {
        if k == 0 {
            assert(s4.entities[n] == s0.entities[n]);
        } else if k <= r {
            assert(s4.entities[n + k] == up[k - 1]);
        } else if k <= 2 * r {
            assert(s4.entities[n + k] == down[k - r - 1]);
        } else if k <= 3 * r {
            assert(s4.entities[n + k] == left[k - 2 * r - 1]);
        } else {
            assert(s4.entities[n + k] == right[k - 3 * r - 1]);
        }
    }
    assert forall|i: int| 0 <= i < n implies #[trigger] s4.entities[i] == scene.entities[i] by {
        assert(s4.entities[i] == s0.entities[i]);
    }
    assert forall|i: int, j: int| 0 <= i < j < 1 + 4 * r implies #[trigger] cross_cell(x, y, r, i)
        != #[trigger] cross_cell(x, y, r, j) by {
        lemma_cross_cells_differ(x, y, r, i, j);
    }
}

/// No two cells of a cross are the same.
proof fn lemma_cross_cells_differ(x: int, y: int, range: int, i: int, j: int)
    requires
        0 <= i < j < 1 + 4 * range,
    ensures
        cross_cell(x, y, range, i) != cross_cell(x, y, range, j),
{
}

/// A ray that meets a breakable tile `k` steps out, with nothing but empty
/// tiles before it, breaks that tile and stops there, however much of its
/// range is left: the tile is empty afterwards and no other tile has
/// changed; the ray leaves exactly `k` blast marks, on the steps from the
/// first to the `k`th; and the drop, if there is one, lies on the tile that
/// broke.
pub proof fn law_breakable_tile_absorbs_ray(
    scene: Scene,
    d: Direction,
    x: int,
    y: int,
    range: int,
    drop: Option<ItemType>,
    k: int,
)
    requires
        scene.wf(),
        1 <= k <= range,
        forall|j: int| 1 <= j < k ==> scene.grid.tile_on(d, x, y, j) == Some(Tile::Empty),
        scene.grid.tile_on(d, x, y, k) == Some(Tile::Breakable),
    ensures
        ({
            let after = scene.after_ray(d, x, y, range, drop);
            let n = scene.entities.len() as int;
            &&& after.grid.tile_on(d, x, y, k) == Some(Tile::Empty)
            &&& forall|a: int, b: int|
                (a, b) != d.offset(x, y, k) ==> #[trigger] after.grid.tile(a, b)
                    == scene.grid.tile(a, b)
            &&& after.entities.len() == n + k + if drop is Some {
                1int
            } else {
                0int
            }
            &&& forall|i: int|
                0 <= i < k ==> #[trigger] after.entities[n + i] == blast_mark(
                    n + i,
                    d.offset(x, y, i + 1).0,
                    d.offset(x, y, i + 1).1,
                )
            &&& drop is Some ==> after.entities[n + k] == Entity::fresh(
                (n + k) as usize,
                Position { x: d.offset(x, y, k).0 as usize, y: d.offset(x, y, k).1 as usize },
                Payload::Item(drop->0),
            )
        }),
{
    scene.grid.lemma_run_from(d, x, y, 1, range, k - 1);
    scene.lemma_after_ray(d, x, y, range, drop);
    let broken = d.offset(x, y, k);
    scene.grid.lemma_set(broken.0, broken.1, Tile::Empty);
}

impl Scene {
    /// The scene after an explosion follows from the scene before it.
    pub proof fn lemma_exploded(self, pending: Seq<Blast>, drops: Seq<Drops>)
        requires
            self.grid.fits(),
        ensures
            self.exploded(pending, drops).follows(self),
        decreases self.live_bombs() + pending.len(),
    {
        if pending.len() > 0 {
            let blast = pending.last();
            let next = self.detonated(blast, first_drops(drops));
            let stack = pending.drop_last() + self.blasted(blast, first_drops(drops)).chain();
            self.lemma_detonated_bombs(blast, first_drops(drops));
            self.lemma_detonated(blast, first_drops(drops));
            next.lemma_exploded(stack, later_drops(drops));
            self.exploded(pending, drops).lemma_follows_trans(next, self);
        }
    }

    /// Every detonation that is due is carried out before the explosion
    /// ends: the scene after the explosion holds a live blast mark on the
    /// cell of each, added by the explosion.
    pub proof fn lemma_exploded_marks(self, pending: Seq<Blast>, drops: Seq<Drops>, p: int)
        requires
            self.grid.fits(),
            0 <= p < pending.len(),
        ensures
            exists|i: int|
                self.entities.len() <= i < self.exploded(pending, drops).entities.len()
                    && #[trigger] self.exploded(pending, drops).entities[i] == blast_mark(
                    i,
                    pending[p].x as int,
                    pending[p].y as int,
                ),
        decreases self.live_bombs() + pending.len(),
    {
        let blast = pending.last();
        let next = self.detonated(blast, first_drops(drops));
        let stack = pending.drop_last() + self.blasted(blast, first_drops(drops)).chain();
        let after = self.exploded(pending, drops);
        self.lemma_detonated_bombs(blast, first_drops(drops));
        self.lemma_detonated(blast, first_drops(drops));
        next.lemma_exploded(stack, later_drops(drops));
        if p == pending.len() - 1 {
            let i = self.entities.len() as int;
            assert(after.entities[i] == next.entities[i] || after.entities[i]
                == next.entities[i].dead());
            assert(after.entities[i] == blast_mark(i, pending[p].x as int, pending[p].y as int));
        } else {
            assert(stack[p] == pending[p]);
            next.lemma_exploded_marks(stack, later_drops(drops), p);
            let i = choose|i: int|
                next.entities.len() <= i < after.entities.len() && #[trigger] after.entities[i]
                    == blast_mark(i, pending[p].x as int, pending[p].y as int);
            assert(after.entities[i] == blast_mark(i, pending[p].x as int, pending[p].y as int));
        }
    }

    /// A bomb that burns is among the detonations that the fire sets off.
    pub proof fn lemma_chain_holds(self, b: int, n: nat)
        requires
            0 <= b < n <= self.entities.len(),
            self.burns(b),
            self.entities[b].payload is Bomb,
        ensures
            self.chain_upto(n).contains(
                Blast {
                    x: self.entities[b].position.x,
                    y: self.entities[b].position.y,
                    range: self.entities[b].payload->Bomb_0.range,
                },
            ),
        decreases n,
    {
        let blast = Blast {
            x: self.entities[b].position.x,
            y: self.entities[b].position.y,
            range: self.entities[b].payload->Bomb_0.range,
        };
        if b == n - 1 {
            assert(self.chain_upto(n).last() == blast);
        } else {
            self.lemma_chain_holds(b, (n - 1) as nat);
            let k = self.chain_upto((n - 1) as nat).index_of(blast);
            assert(self.chain_upto(n)[k] == blast);
        }
    }
}

impl Scene {
    /// A live bomb on a cell that carries a live blast mark once the blast
    /// of a detonation has been laid out is destroyed by that detonation,
    /// and its own detonation is among those set off.
    pub proof fn lemma_detonation_sets_off(self, blast: Blast, drops: Drops, b: int)
        requires
            self.grid.fits(),
            0 <= b < self.entities.len(),
            self.entities[b].is_live(EntityType::Bomb),
            self.blasted(blast, drops).burning(self.entities[b].position),
        ensures
            self.detonated(blast, drops).entities[b] == self.entities[b].dead(),
            self.blasted(blast, drops).chain().contains(
                Blast {
                    x: self.entities[b].position.x,
                    y: self.entities[b].position.y,
                    range: self.entities[b].payload->Bomb_0.range,
                },
            ),
    {
        let lit = self.blasted(blast, drops);
        self.lemma_blasted(blast, drops);
        assert(lit.entities[b] == self.entities[b]);
        assert(lit.burns(b));
        lit.lemma_chain_holds(b, lit.entities.len());
    }
}

/// Chain reaction. When a detonation is laid out and a live bomb stands on
/// a cell that then carries a live blast mark, that bomb goes off within the
/// same explosion: the fire destroys it and sets off its detonation, and
/// before the explosion ends that detonation has been carried out in its
/// turn, leaving a blast mark of its own on the bomb's cell. The bomb is
/// still destroyed when the explosion ends.
pub proof fn law_chain_reaction(scene: Scene, pending: Seq<Blast>, drops: Seq<Drops>, b: int)
    requires
        scene.wf(),
        pending.len() > 0,
        0 <= b < scene.entities.len(),
        scene.entities[b].is_live(EntityType::Bomb),
        scene.blasted(pending.last(), first_drops(drops)).burning(scene.entities[b].position),
    ensures
        ({
            let bomb = scene.entities[b];
            let lit = scene.blasted(pending.last(), first_drops(drops));
            let next = scene.detonated(pending.last(), first_drops(drops));
            let after = scene.exploded(pending, drops);
            let blast = Blast {
                x: bomb.position.x,
                y: bomb.position.y,
                range: bomb.payload->Bomb_0.range,
            };
            &&& next.entities[b] == bomb.dead()
            &&& lit.chain().contains(blast)
            &&& after == next.exploded(pending.drop_last() + lit.chain(), later_drops(drops))
            &&& after.entities[b] == bomb.dead()
            &&& exists|i: int|
                next.entities.len() <= i < after.entities.len() && #[trigger] after.entities[i]
                    == blast_mark(i, bomb.position.x as int, bomb.position.y as int)
        }),
{
    let bomb = scene.entities[b];
    let first = first_drops(drops);
    let lit = scene.blasted(pending.last(), first);
    let next = scene.detonated(pending.last(), first);
    let stack = pending.drop_last() + lit.chain();
    let after = scene.exploded(pending, drops);
    let blast = Blast { x: bomb.position.x, y: bomb.position.y, range: bomb.payload->Bomb_0.range };
    scene.lemma_detonation_sets_off(pending.last(), first, b);
    assert(next.grid.fits() && next.entities.len() > b) by {
        scene.lemma_detonated(pending.last(), first);
    }
    assert(after == next.exploded(stack, later_drops(drops)));
    assert(after.entities[b] == bomb.dead()) by {
        next.lemma_exploded(stack, later_drops(drops));
        assert(after.entities[b] == next.entities[b] || after.entities[b]
            == next.entities[b].dead());
    }
    let k = lit.chain().index_of(blast);
    assert(stack[pending.len() - 1 + k] == blast);
    next.lemma_exploded_marks(stack, later_drops(drops), pending.len() - 1 + k);
}

/// No second pickup. A pickup only ever appears where a tile breaks, and a
/// tile breaks once: of the pickups that an explosion adds, each lies on a
/// tile that was breakable before the explosion and is empty after it, and
/// no two lie on the same tile. So an explosion adds no pickup on a tile
/// that was not breakable when it began, however many blasts cross it.
pub proof fn law_no_second_pickup(scene: Scene, pending: Seq<Blast>, drops: Seq<Drops>)
    requires
        scene.wf(),
    ensures
        ({
            let after = scene.exploded(pending, drops);
            &&& forall|i: int|
                scene.entities.len() <= i < after.entities.len() && (
                #[trigger] after.entities[i]).payload is Item ==> {
                    &&& scene.grid.tile(
                        after.entities[i].position.x as int,
                        after.entities[i].position.y as int,
                    ) == Some(Tile::Breakable)
                    &&& after.grid.tile(
                        after.entities[i].position.x as int,
                        after.entities[i].position.y as int,
                    ) == Some(Tile::Empty)
                }
            &&& forall|i: int, j: int|
                scene.entities.len() <= i < j < after.entities.len() && (
                #[trigger] after.entities[i]).payload is Item && (
                #[trigger] after.entities[j]).payload is Item ==> after.entities[i].position
                    != after.entities[j].position
            &&& forall|a: int, b: int|
                scene.grid.tile(a, b) == Some(Tile::Empty) ==> #[trigger] after.grid.tile(a, b)
                    == Some(Tile::Empty)
        }),
{
    let after = scene.exploded(pending, drops);
    scene.lemma_exploded(pending, drops);
    assert forall|i: int|
        scene.entities.len() <= i < after.entities.len() && (#[trigger] after.entities[i]).payload
            is Item implies after.dropped_since(scene, i) by {}
}

impl Scene {
    /// Whether this scene can have come out of `earlier` in the course of
    /// play: the grid has kept its size, and each of its tiles is as it was
    /// or was breakable and is empty now; every entity of `earlier` is
    /// still there, in its place, with its id and its kind, and none that
    /// was destroyed is alive again; and the player's id is as it was.
    pub open spec fn continues(self, earlier: Scene) -> bool {
        &&& self.grid.fits()
        &&& self.grid.width == earlier.grid.width
        &&& self.grid.height == earlier.grid.height
        &&& forall|a: int, b: int| #[trigger]
            self.grid.tile(a, b) == earlier.grid.tile(a, b) || (earlier.grid.tile(a, b) == Some(
                Tile::Breakable,
            ) && self.grid.tile(a, b) == Some(Tile::Empty))
        &&& self.entities.len() >= earlier.entities.len()
        &&& forall|i: int|
            0 <= i < earlier.entities.len() ==> {
                &&& (#[trigger] self.entities[i]).id == earlier.entities[i].id
                &&& self.entities[i].payload.kind() == earlier.entities[i].payload.kind()
                &&& self.entities[i].is_alive ==> earlier.entities[i].is_alive
            }
        &&& self.player_id == earlier.player_id
    }

    /// What continues what continues a scene, continues the scene.
    pub proof fn lemma_continues_trans(self, middle: Scene, earlier: Scene)
        requires
            self.continues(middle),
            middle.continues(earlier),
        ensures
            self.continues(earlier),
    {
        assert forall|a: int, b: int| #[trigger]
            self.grid.tile(a, b) == earlier.grid.tile(a, b) || (earlier.grid.tile(a, b) == Some(
                Tile::Breakable,
            ) && self.grid.tile(a, b) == Some(Tile::Empty)) by {
            assert(middle.grid.tile(a, b) == earlier.grid.tile(a, b) || (earlier.grid.tile(a, b)
                == Some(Tile::Breakable) && middle.grid.tile(a, b) == Some(Tile::Empty)));
        }
        assert forall|i: int| 0 <= i < earlier.entities.len() implies {
            &&& (#[trigger] self.entities[i]).id == earlier.entities[i].id
            &&& self.entities[i].payload.kind() == earlier.entities[i].payload.kind()
            &&& self.entities[i].is_alive ==> earlier.entities[i].is_alive
        } by {
            assert(middle.entities[i].id == earlier.entities[i].id);
        }
    }

    /// What follows from a scene by blasts, continues it.
    pub proof fn lemma_follows_continues(self, earlier: Scene)
        requires
            earlier.grid.fits(),
            self.follows(earlier),
        ensures
            self.continues(earlier),
    {
        assert forall|i: int| 0 <= i < earlier.entities.len() implies {
            &&& (#[trigger] self.entities[i]).id == earlier.entities[i].id
            &&& self.entities[i].payload.kind() == earlier.entities[i].payload.kind()
            &&& self.entities[i].is_alive ==> earlier.entities[i].is_alive
        } by {
            assert(self.entities[i] == earlier.entities[i] || self.entities[i]
                == earlier.entities[i].dead());
        }
    }

    /// The enemies' steps move entities and do nothing else.
    pub proof fn lemma_walked_continues(self, steps: Seq<Direction>, n: nat)
        requires
            self.grid.fits(),
        ensures
            self.walked_upto(steps, n).continues(self),
            self.walked_upto(steps, n).entities.len() == self.entities.len(),
            self.walked_upto(steps, n).grid == self.grid,
            self.walked_upto(steps, n).enemy_move_timer == self.enemy_move_timer,
        decreases n,
    {
        if n > 0 {
            let before = self.walked_upto(steps, (n - 1) as nat);
            self.lemma_walked_continues(steps, (n - 1) as nat);
            let after = self.walked_upto(steps, n);
            assert(after == before || after == before.moved(n - 1, step_for(steps, n - 1)));
            assert(after.continues(before));
            after.lemma_continues_trans(before, self);
        }
    }

    /// A series of explosions continues the scene it starts from.
    pub proof fn lemma_set_off_continues(self, blasts: Seq<Blast>, drops: Seq<Seq<Drops>>, n: nat)
        requires
            self.grid.fits(),
        ensures
            self.set_off_upto(blasts, drops, n).continues(self),
            self.set_off_upto(blasts, drops, n).enemy_move_timer == self.enemy_move_timer,
        decreases n,
    {
        if n > 0 {
            let before = self.set_off_upto(blasts, drops, (n - 1) as nat);
            self.lemma_set_off_continues(blasts, drops, (n - 1) as nat);
            let after = self.set_off_upto(blasts, drops, n);
            before.lemma_exploded(seq![blasts[n - 1]], drops_for(drops, n - 1));
            after.lemma_follows_continues(before);
            after.lemma_continues_trans(before, self);
        }
    }
}

/// Nothing is lost in a tick. Whatever the enemies try and whatever the
/// broken tiles leave, the grid keeps its size, and each tile is as it was
/// or was breakable and is empty now; every entity is still stored, in its
/// place, with its id and its kind, whether alive or destroyed; and no
/// entity that was destroyed comes back to life.
pub proof fn law_tick_keeps_history(
    scene: Scene,
    delta: u64,
    steps: Seq<Direction>,
    drops: Seq<Seq<Drops>>,
)
    requires
        scene.wf(),
    ensures
        scene.ticked(delta, steps, drops).continues(scene),
{
    let stepped = scene.enemies_stepped(delta, steps);
    scene.lemma_walked_continues(steps, scene.entities.len());
    assert(stepped.continues(scene));
    let lit = stepped.fuses_burnt(delta);
    assert(lit.continues(stepped));
    let blown = stepped.bombs_updated(delta, drops);
    lit.lemma_set_off_continues(stepped.expired(delta), drops, stepped.expired(delta).len());
    blown.lemma_continues_trans(lit, stepped);
    blown.lemma_continues_trans(stepped, scene);
    let faded = blown.faded(delta);
    assert(faded.continues(blown));
    faded.lemma_continues_trans(blown, scene);
    let picked = faded.picked_up();
    assert(picked.continues(faded));
    picked.lemma_continues_trans(faded, scene);
    let caught = picked.caught();
    assert(caught.continues(picked));
    caught.lemma_continues_trans(picked, scene);
}

} // verus!
