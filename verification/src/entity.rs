//! Entities: everything that sits on the grid without being part of it.

use vstd::prelude::*;
use crate::components::{BombData, ExplosionData, ItemType, PlayerStats, Position};

verus! {

/// The five kinds of entity.
#[derive(Debug, Clone, Copy, PartialEq, Eq, Structural)]
pub enum EntityType {
    Player,
    Enemy,
    Bomb,
    Explosion,
    Item,
}

/// What an entity is, together with the data that only its kind carries.
#[derive(Debug, Clone, Copy, PartialEq, Eq)]
pub enum Payload {
    Player(PlayerStats),
    Enemy,
    Bomb(BombData),
    Explosion(ExplosionData),
    Item(ItemType),
}

impl Payload {
    /// The kind that this payload belongs to.
    pub open spec fn kind(self) -> EntityType {
        match self {
            Payload::Player(_) => EntityType::Player,
            Payload::Enemy => EntityType::Enemy,
            Payload::Bomb(_) => EntityType::Bomb,
            Payload::Explosion(_) => EntityType::Explosion,
            Payload::Item(_) => EntityType::Item,
        }
    }
}

/// An entity: an id that no other entity of the same game has, a cell, a
/// flag that is cleared when the entity is destroyed, and its payload.
#[derive(Debug, Clone, Copy, PartialEq, Eq)]
pub struct Entity {
    pub id: usize,
    pub position: Position,
    pub is_alive: bool,
    pub payload: Payload,
}

impl Entity {
    /// A live entity with the given id, cell and payload.
    pub open spec fn fresh(id: usize, position: Position, payload: Payload) -> Entity {
        Entity { id, position, is_alive: true, payload }
    }

    /// This entity, destroyed.
    pub open spec fn dead(self) -> Entity {
        Entity { is_alive: false, ..self }
    }

    /// Whether this entity is alive and of the given kind.
    pub open spec fn is_live(self, kind: EntityType) -> bool {
        self.is_alive && self.payload.kind() == kind
    }

    /// Whether this entity is alive, of the given kind, and on the cell at
    /// column `x`, row `y`.
    pub open spec fn is_live_at(self, kind: EntityType, x: int, y: int) -> bool {
        self.is_live(kind) && self.position.is_at(x, y)
    }

    /// The glyph that shows this entity.
    pub open spec fn glyph(self) -> Seq<char> {
        match self.payload {
            Payload::Player(_) => "🧑"@,
            Payload::Enemy => "👾"@,
            Payload::Bomb(_) => "💣"@,
            Payload::Explosion(_) => "💥"@,
            Payload::Item(item) => item.glyph(),
        }
    }

    pub fn new_player(id: usize, x: usize, y: usize) -> (e: Self)
        ensures
            e == Entity::fresh(id, Position { x, y }, Payload::Player(PlayerStats::initial())),
    {
        Self {
            id,
            position: Position::new(x, y),
            is_alive: true,
            payload: Payload::Player(PlayerStats::default()),
        }
    }

    pub fn new_enemy(id: usize, x: usize, y: usize) -> (e: Self)
        ensures
            e == Entity::fresh(id, Position { x, y }, Payload::Enemy),
    {
        Self { id, position: Position::new(x, y), is_alive: true, payload: Payload::Enemy }
    }

    pub fn new_bomb(id: usize, x: usize, y: usize, range: usize, owner_id: usize) -> (e: Self)
        ensures
            e == Entity::fresh(
                id,
                Position { x, y },
                Payload::Bomb(BombData { timer: crate::components::BOMB_FUSE_MS, range, owner_id }),
            ),
    {
        Self {
            id,
            position: Position::new(x, y),
            is_alive: true,
            payload: Payload::Bomb(BombData::new(range, owner_id)),
        }
    }

    pub fn new_explosion(id: usize, x: usize, y: usize) -> (e: Self)
        ensures
            e == Entity::fresh(
                id,
                Position { x, y },
                Payload::Explosion(
                    ExplosionData { timer: crate::components::EXPLOSION_LIFESPAN_MS },
                ),
            ),
    {
        Self {
            id,
            position: Position::new(x, y),
            is_alive: true,
            payload: Payload::Explosion(ExplosionData::new()),
        }
    }

    pub fn new_item(id: usize, x: usize, y: usize, item_type: ItemType) -> (e: Self)
        ensures
            e == Entity::fresh(id, Position { x, y }, Payload::Item(item_type)),
    {
        Self { id, position: Position::new(x, y), is_alive: true, payload: Payload::Item(item_type) }
    }

    /// The kind of this entity.
    pub fn entity_type(&self) -> (kind: EntityType)
        ensures
            kind == self.payload.kind(),
    {
        match self.payload {
            Payload::Player(_) => EntityType::Player,
            Payload::Enemy => EntityType::Enemy,
            Payload::Bomb(_) => EntityType::Bomb,
            Payload::Explosion(_) => EntityType::Explosion,
            Payload::Item(_) => EntityType::Item,
        }
    }

    pub fn to_char(&self) -> (s: &'static str)
        ensures
            s@ == self.glyph(),
    {
        match self.payload {
            Payload::Player(_) => "🧑",
            Payload::Enemy => "👾",
            Payload::Bomb(_) => "💣",
            Payload::Explosion(_) => "💥",
            Payload::Item(item) => item.to_char(),
        }
    }
}

/// How many entities of a sequence satisfy a predicate.
pub open spec fn count_where(entities: Seq<Entity>, pred: spec_fn(Entity) -> bool) -> nat
    decreases entities.len(),
{
    if entities.len() == 0 {
        0
    } else {
        count_where(entities.drop_last(), pred) + if pred(entities.last()) {
            1nat
        } else {
            0nat
        }
    }
}

/// Appending an entity raises the count by one if the entity satisfies the
/// predicate and leaves it as it was otherwise.
pub proof fn lemma_count_push(entities: Seq<Entity>, pred: spec_fn(Entity) -> bool, e: Entity)
    ensures
        count_where(entities.push(e), pred) == count_where(entities, pred) + if pred(e) {
            1nat
        } else {
            0nat
        },
{
    assert(entities.push(e).drop_last() =~= entities);
}

/// The count of two sequences joined is the sum of their counts.
pub proof fn lemma_count_add(a: Seq<Entity>, b: Seq<Entity>, pred: spec_fn(Entity) -> bool)
    ensures
        count_where(a + b, pred) == count_where(a, pred) + count_where(b, pred),
    decreases b.len(),
{
    if b.len() == 0 {
        assert(a + b =~= a);
    } else {
        assert((a + b).drop_last() =~= a + b.drop_last());
        lemma_count_add(a, b.drop_last(), pred);
    }
}

/// Replacing one entity changes the count by what that entity contributed.
pub proof fn lemma_count_update(
    entities: Seq<Entity>,
    pred: spec_fn(Entity) -> bool,
    i: int,
    e: Entity,
)
    requires
        0 <= i < entities.len(),
    ensures
        count_where(entities.update(i, e), pred) + (if pred(entities[i]) {
            1nat
        } else {
            0nat
        }) == count_where(entities, pred) + (if pred(e) {
            1nat
        } else {
            0nat
        }),
    decreases entities.len(),
{
    let updated = entities.update(i, e);
    if i == entities.len() - 1 {
        assert(updated.drop_last() =~= entities.drop_last());
    } else {
        assert(updated.drop_last() =~= entities.drop_last().update(i, e));
        lemma_count_update(entities.drop_last(), pred, i, e);
    }
}

/// If some entity satisfies the predicate, the count is at least one.
pub proof fn lemma_count_positive(entities: Seq<Entity>, pred: spec_fn(Entity) -> bool, i: int)
    requires
        0 <= i < entities.len(),
        pred(entities[i]),
    ensures
        count_where(entities, pred) >= 1,
    decreases entities.len(),
{
    if i < entities.len() - 1 {
        lemma_count_positive(entities.drop_last(), pred, i);
    }
}

/// Two entities that do not satisfy the predicate leave the count at least
/// two below the number of entities.
pub proof fn lemma_count_spares_two(
    entities: Seq<Entity>,
    pred: spec_fn(Entity) -> bool,
    i: int,
    j: int,
)
    requires
        0 <= i < entities.len(),
        0 <= j < entities.len(),
        i != j,
        !pred(entities[i]),
        !pred(entities[j]),
    ensures
        count_where(entities, pred) + 2 <= entities.len(),
{
    lemma_count_split(entities, pred);
    lemma_count_positive(entities.remove(i), |e: Entity| !pred(e), if j < i {
        j
    } else {
        j - 1
    });
    lemma_count_remove(entities, |e: Entity| !pred(e), i);
}

/// The entities that satisfy a predicate and those that do not add up to
/// all of them.
pub proof fn lemma_count_split(entities: Seq<Entity>, pred: spec_fn(Entity) -> bool)
    ensures
        count_where(entities, pred) + count_where(entities, |e: Entity| !pred(e))
            == entities.len(),
    decreases entities.len(),
{
    if entities.len() > 0 {
        lemma_count_split(entities.drop_last(), pred);
    }
}

/// Taking one entity out lowers the count by what that entity contributed.
pub proof fn lemma_count_remove(entities: Seq<Entity>, pred: spec_fn(Entity) -> bool, i: int)
    requires
        0 <= i < entities.len(),
    ensures
        count_where(entities, pred) == count_where(entities.remove(i), pred) + if pred(
            entities[i],
        ) {
            1nat
        } else {
            0nat
        },
    decreases entities.len(),
{
    if i == entities.len() - 1 {
        assert(entities.remove(i) =~= entities.drop_last());
    } else {
        assert(entities.remove(i).drop_last() =~= entities.drop_last().remove(i));
        assert(entities.remove(i).last() == entities.last());
        lemma_count_remove(entities.drop_last(), pred, i);
    }
}

/// Of two predicates that no entity satisfies together, the counts add up
/// to the count of the entities that satisfy either.
pub proof fn lemma_count_either(
    entities: Seq<Entity>,
    p: spec_fn(Entity) -> bool,
    q: spec_fn(Entity) -> bool,
)
    requires
        forall|j: int|
            0 <= j < entities.len() ==> !(p(#[trigger] entities[j]) && q(entities[j])),
    ensures
        count_where(entities, |e: Entity| p(e) || q(e)) == count_where(entities, p) + count_where(
            entities,
            q,
        ),
    decreases entities.len(),
{
    if entities.len() > 0 {
        lemma_count_either(entities.drop_last(), p, q);
    }
}

/// Two predicates that no entity satisfies together, and an entity that
/// satisfies neither: the two counts stay below the number of entities.
pub proof fn lemma_count_spares_one(
    entities: Seq<Entity>,
    p: spec_fn(Entity) -> bool,
    q: spec_fn(Entity) -> bool,
    i: int,
)
    requires
        forall|j: int|
            0 <= j < entities.len() ==> !(p(#[trigger] entities[j]) && q(entities[j])),
        0 <= i < entities.len(),
        !p(entities[i]),
        !q(entities[i]),
    ensures
        count_where(entities, p) + count_where(entities, q) + 1 <= entities.len(),
{
    let either = |e: Entity| p(e) || q(e);
    lemma_count_either(entities, p, q);
    lemma_count_split(entities, either);
    lemma_count_positive(entities, |e: Entity| !either(e), i);
}

/// If no entity satisfies the predicate, the count is zero.
pub proof fn lemma_count_none(entities: Seq<Entity>, pred: spec_fn(Entity) -> bool)
    requires
        forall|i: int| 0 <= i < entities.len() ==> !pred(#[trigger] entities[i]),
    ensures
        count_where(entities, pred) == 0,
    decreases entities.len(),
{
    if entities.len() > 0 {
        lemma_count_none(entities.drop_last(), pred);
    }
}

} // verus!
