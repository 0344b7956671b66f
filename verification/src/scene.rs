//! The mathematical model of a running game, and the rules of the game as
//! functions from one model state to the next.

use vstd::prelude::*;
use crate::components::{BombData, Direction, ItemType, PlayerStats, Position, BOMB_FUSE_MS,
    EXPLOSION_LIFESPAN_MS};
use crate::entity::{count_where, lemma_count_push, lemma_count_update, Entity, EntityType, Payload};
use crate::world::{layout_char, Grid};

verus! {

/// Milliseconds of game time between two moves of the enemies.
pub const ENEMY_MOVE_PERIOD_MS: u64 = 300;

/// An item that has been picked up.
pub open spec fn is_spent() -> spec_fn(Entity) -> bool {
    |e: Entity| !e.is_alive && e.payload is Item
}

/// A live bomb placed by the entity with id `owner`.
pub open spec fn is_live_bomb_of(owner: usize) -> spec_fn(Entity) -> bool {
    |e: Entity| e.is_alive && (e.payload matches Payload::Bomb(b) && b.owner_id == owner)
}

/// A live entity of the given kind.
pub open spec fn is_live_kind(kind: EntityType) -> spec_fn(Entity) -> bool {
    |e: Entity| e.is_live(kind)
}

/// A live pickup of the given type on the given cell.
pub open spec fn is_pickup_at(item: ItemType, position: Position) -> spec_fn(Entity) -> bool {
    |e: Entity| e.is_alive && e.position == position && e.payload == Payload::Item(item)
}

/// The direction for the entity at index `i`: the entry at `i`, and `Up`
/// beyond the entries.
pub open spec fn step_for(steps: Seq<Direction>, i: int) -> Direction {
    if 0 <= i < steps.len() {
        steps[i]
    } else {
        Direction::Up
    }
}

/// The model of a game: the grid, every entity ever created in the order of
/// creation (destroyed ones stay, with their flag cleared), the id of the
/// player, and the game time gathered towards the enemies' next move.
pub struct Scene {
    pub grid: Grid,
    pub entities: Seq<Entity>,
    pub player_id: usize,
    pub enemy_move_timer: u64,
}

impl Scene {
    /// The player, if the game has one. Ids are positions in the sequence,
    /// so the player is the entity at `player_id`, provided that entity is a
    /// player.
    pub open spec fn player(self) -> Option<Entity> {
        if self.player_id < self.entities.len() && self.entities[self.player_id as int].payload
            is Player {
            Some(self.entities[self.player_id as int])
        } else {
            None
        }
    }

    /// The stats of the player; meaningful only where there is a player.
    pub open spec fn player_stats(self) -> PlayerStats {
        self.entities[self.player_id as int].payload->Player_0
    }

    /// What every reachable state satisfies:
    /// the grid is a rectangle whose sides fit a `usize`; an entity's id is its place in the sequence,
    /// so ids are unique and the next free id is the length; at most one
    /// entity is a player, the one `player_id` names; the enemies' timer is
    /// below its period; and the player's blast range and bomb capacity
    /// are each at least one, and together exceed two by no more than the
    /// number of pickups spent.
    pub open spec fn wf(self) -> bool {
        &&& self.grid.wf()
        &&& self.grid.width <= usize::MAX
        &&& self.grid.height <= usize::MAX
        &&& self.entities.len() <= usize::MAX
        &&& forall|i: int| 0 <= i < self.entities.len() ==> (#[trigger] self.entities[i]).id == i
        &&& forall|i: int|
            0 <= i < self.entities.len() && (#[trigger] self.entities[i]).payload is Player ==> i
                == self.player_id
        &&& self.enemy_move_timer < ENEMY_MOVE_PERIOD_MS
        &&& self.player() is Some ==> {
            &&& self.player_stats().max_bombs >= 1
            &&& self.player_stats().bomb_range >= 1
            &&& self.player_stats().max_bombs + self.player_stats().bomb_range <= 2 + count_where(
                self.entities,
                is_spent(),
            )
        }
    }

    /// The scene with one more entity, alive, with the next free id.
    pub open spec fn spawn(self, position: Position, payload: Payload) -> Scene {
        Scene {
            entities: self.entities.push(
                Entity::fresh(self.entities.len() as usize, position, payload),
            ),
            ..self
        }
    }

    /// The scene with a fresh blast mark on the given cell.
    pub open spec fn with_explosion(self, x: usize, y: usize) -> Scene {
        self.spawn(
            Position { x, y },
            Payload::Explosion(crate::components::ExplosionData { timer: EXPLOSION_LIFESPAN_MS }),
        )
    }

    /// The scene with a fresh pickup on the given cell.
    pub open spec fn with_item(self, x: usize, y: usize, item: ItemType) -> Scene {
        self.spawn(Position { x, y }, Payload::Item(item))
    }

    /// Whether a live entity of the given kind is on the cell at column `x`,
    /// row `y`.
    pub open spec fn has_live_at(self, kind: EntityType, x: int, y: int) -> bool {
        exists|j: int|
            0 <= j < self.entities.len() && (#[trigger] self.entities[j]).is_live_at(kind, x, y)
    }

    /// The cell that the entity with the given id would step onto.
    pub open spec fn destination(self, id: int, direction: Direction) -> (int, int) {
        direction.offset(
            self.entities[id].position.x as int,
            self.entities[id].position.y as int,
            1,
        )
    }

    /// A move succeeds exactly if the entity exists and is alive, the cell
    /// it would step onto is an empty tile of the grid, and no live bomb is
    /// on that cell.
    pub open spec fn can_move(self, id: int, direction: Direction) -> bool {
        &&& 0 <= id < self.entities.len()
        &&& self.entities[id].is_alive
        &&& self.grid.walkable(self.destination(id, direction).0, self.destination(id, direction).1)
        &&& !self.has_live_at(
            EntityType::Bomb,
            self.destination(id, direction).0,
            self.destination(id, direction).1,
        )
    }

    /// The scene after an attempt to move: the entity stands on its
    /// destination if the move succeeds, and nothing changes if it fails.
    pub open spec fn moved(self, id: int, direction: Direction) -> Scene {
        if self.can_move(id, direction) {
            Scene {
                entities: self.entities.update(
                    id,
                    Entity {
                        position: Position {
                            x: self.destination(id, direction).0 as usize,
                            y: self.destination(id, direction).1 as usize,
                        },
                        ..self.entities[id]
                    },
                ),
                ..self
            }
        } else {
            self
        }
    }

    /// How many of the player's bombs are still burning.
    pub open spec fn active_bombs(self) -> nat {
        count_where(self.entities, is_live_bomb_of(self.player_id))
    }

    /// A bomb can be placed exactly if the player is alive, has fewer bombs
    /// burning than their capacity, and stands on a cell without a live
    /// bomb.
    pub open spec fn can_place_bomb(self) -> bool {
        &&& self.player() matches Some(p)
        &&& p.is_alive
        &&& self.active_bombs() < self.player_stats().max_bombs
        &&& !self.has_live_at(EntityType::Bomb, p.position.x as int, p.position.y as int)
    }

    /// The scene after an attempt to place a bomb: a fresh bomb on the
    /// player's cell, with the player's blast range and the player as owner,
    /// if the attempt succeeds; no change if it fails.
    pub open spec fn with_bomb(self) -> Scene {
        if self.can_place_bomb() {
            self.spawn(
                self.entities[self.player_id as int].position,
                Payload::Bomb(
                    BombData {
                        timer: BOMB_FUSE_MS,
                        range: self.player_stats().bomb_range,
                        owner_id: self.player_id,
                    },
                ),
            )
        } else {
            self
        }
    }

    /// The scene after the player has picked up what lies on their cell: if
    /// the player is alive, every live pickup on the player's cell is
    /// destroyed, the player's blast range has grown by the number of `Fire`
    /// pickups among them and the bomb capacity by the number of `Bomb`
    /// pickups. Nothing else changes, and nothing at all without a live
    /// player.
    pub open spec fn picked_up(self) -> Scene {
        if self.player_alive() {
            let player = self.entities[self.player_id as int];
            let stats = self.player_stats();
            let fires = count_where(self.entities, is_pickup_at(ItemType::Fire, player.position));
            let bombs = count_where(self.entities, is_pickup_at(ItemType::Bomb, player.position));
            Scene {
                entities: Seq::new(
                    self.entities.len(),
                    |i: int|
                        if i == self.player_id {
                            Entity {
                                payload: Payload::Player(
                                    PlayerStats {
                                        bomb_range: (stats.bomb_range + fires) as usize,
                                        max_bombs: (stats.max_bombs + bombs) as usize,
                                        ..stats
                                    },
                                ),
                                ..player
                            }
                        } else if self.entities[i].is_live(EntityType::Item)
                            && self.entities[i].position == player.position {
                            self.entities[i].dead()
                        } else {
                            self.entities[i]
                        },
                ),
                ..self
            }
        } else {
            self
        }
    }

    /// The scene after the player has met the enemies: a live player who
    /// shares a cell with a live enemy is destroyed. Nothing else changes.
    pub open spec fn caught(self) -> Scene {
        if self.player_alive() && self.has_live_at(
            EntityType::Enemy,
            self.entities[self.player_id as int].position.x as int,
            self.entities[self.player_id as int].position.y as int,
        ) {
            Scene {
                entities: self.entities.update(
                    self.player_id as int,
                    self.entities[self.player_id as int].dead(),
                ),
                ..self
            }
        } else {
            self
        }
    }

    /// The scene after the live enemies among the first `n` entities have
    /// each tried one step, in the order of the entities. The enemy at
    /// index `i` tries the direction that `steps` holds for `i`; the
    /// entries for other entities are not read.
    pub open spec fn walked_upto(self, steps: Seq<Direction>, n: nat) -> Scene
        decreases n,
    {
        if n == 0 {
            self
        } else if self.walked_upto(steps, (n - 1) as nat).entities[n - 1].is_live(
            EntityType::Enemy,
        ) {
            self.walked_upto(steps, (n - 1) as nat).moved(n - 1, step_for(steps, n - 1))
        } else {
            self.walked_upto(steps, (n - 1) as nat)
        }
    }

    /// The scene after every live enemy has tried one step.
    pub open spec fn enemies_walked(self, steps: Seq<Direction>) -> Scene {
        self.walked_upto(steps, self.entities.len())
    }

    /// Where the enemies end up depends only on the directions of the
    /// entities that have tried a step.
    pub proof fn lemma_walked_steps(self, a: Seq<Direction>, b: Seq<Direction>, n: nat)
        requires
            forall|i: int| 0 <= i < n ==> step_for(a, i) == step_for(b, i),
        ensures
            self.walked_upto(a, n) == self.walked_upto(b, n),
        decreases n,
    {
        if n > 0 {
            self.lemma_walked_steps(a, b, (n - 1) as nat);
        }
    }

    /// Whether the player is there and alive.
    pub open spec fn player_alive(self) -> bool {
        self.player() is Some && self.entities[self.player_id as int].is_alive
    }

    /// How many enemies are alive.
    pub open spec fn live_enemies(self) -> nat {
        count_where(self.entities, is_live_kind(EntityType::Enemy))
    }

    /// The scene after one character of a layout has been read at column
    /// `x`, row `y`: the first `P` puts the player there, every `E` an
    /// enemy, and any other character nothing. A `P` after the first is
    /// passed over.
    pub open spec fn place_marker(self, c: char, x: usize, y: usize) -> Scene {
        if c == 'P' && self.player() is None {
            Scene {
                player_id: self.entities.len() as usize,
                ..self.spawn(Position { x, y }, Payload::Player(PlayerStats::initial()))
            }
        } else if c == 'E' {
            self.spawn(Position { x, y }, Payload::Enemy)
        } else {
            self
        }
    }

    /// The scene after the first `upto` columns of row `y` of a layout have
    /// been read, from the left.
    pub open spec fn populate_row(self, layout: Seq<Seq<char>>, y: nat, upto: nat) -> Scene
        decreases upto,
    {
        if upto == 0 {
            self
        } else {
            self.populate_row(layout, y, (upto - 1) as nat).place_marker(
                layout_char(layout, upto - 1, y as int),
                (upto - 1) as usize,
                y as usize,
            )
        }
    }

    /// The scene after the first `upto` rows of a layout have been read,
    /// from the top, each as far as the grid is wide.
    pub open spec fn populate(self, layout: Seq<Seq<char>>, upto: nat) -> Scene
        decreases upto,
    {
        if upto == 0 {
            self
        } else {
            self.populate(layout, (upto - 1) as nat).populate_row(
                layout,
                (upto - 1) as nat,
                self.grid.width,
            )
        }
    }

    /// The scene at the start of a game on the given layout: the grid that
    /// the layout describes, and the player and the enemies on the cells
    /// that the layout marks, in reading order.
    pub open spec fn from_layout(layout: Seq<Seq<char>>) -> Scene {
        (Scene {
            grid: Grid::from_layout(layout),
            entities: Seq::empty(),
            player_id: 0,
            enemy_move_timer: 0,
        }).populate(layout, layout.len())
    }

    /// Reading a character of a layout keeps a scene well-formed, as long
    /// as there is an id left.
    pub proof fn lemma_place_marker_wf(self, c: char, x: usize, y: usize)
        requires
            self.wf(),
            self.entities.len() < usize::MAX,
        ensures
            self.place_marker(c, x, y).wf(),
            self.place_marker(c, x, y).grid == self.grid,
    {
        let next = self.place_marker(c, x, y);
        if c == 'P' && self.player() is None {
            let e = Entity::fresh(
                self.entities.len() as usize,
                Position { x, y },
                Payload::Player(PlayerStats::initial()),
            );
            lemma_count_push(self.entities, is_spent(), e);
            assert forall|i: int|
                0 <= i < next.entities.len() && (#[trigger] next.entities[i]).payload
                    is Player implies i == next.player_id by {
                if i < self.entities.len() {
                    assert(next.entities[i] == self.entities[i]);
                }
            }
        } else if c == 'E' {
            self.lemma_spawn_wf(Position { x, y }, Payload::Enemy);
        }
    }

    /// A move keeps a scene well-formed.
    pub proof fn lemma_moved_wf(self, id: int, direction: Direction)
        requires
            self.wf(),
        ensures
            self.moved(id, direction).wf(),
    {
        if self.can_move(id, direction) {
            let e = self.moved(id, direction).entities[id];
            lemma_count_update(self.entities, is_spent(), id, e);
        }
    }

    /// Adding a live entity that is not a player keeps a scene well-formed,
    /// as long as there is an id left for it.
    pub proof fn lemma_spawn_wf(self, position: Position, payload: Payload)
        requires
            self.wf(),
            self.entities.len() < usize::MAX,
            !(payload is Player),
        ensures
            self.spawn(position, payload).wf(),
            self.spawn(position, payload).player() == self.player(),
    {
        let e = Entity::fresh(self.entities.len() as usize, position, payload);
        lemma_count_push(self.entities, is_spent(), e);
    }

    /// Changing an entity that is neither a player nor an item, without
    /// changing its id or its kind, keeps a scene well-formed. So does
    /// changing the cell or the life of a player.
    pub proof fn lemma_update_wf(self, i: int, e: Entity)
        requires
            self.wf(),
            0 <= i < self.entities.len(),
            e.id == self.entities[i].id,
            e.payload.kind() == self.entities[i].payload.kind(),
            e.payload is Player ==> e.payload == self.entities[i].payload,
            !(e.payload is Item),
        ensures
            (Scene { entities: self.entities.update(i, e), ..self }).wf(),
    {
        lemma_count_update(self.entities, is_spent(), i, e);
    }
}

} // verus!
