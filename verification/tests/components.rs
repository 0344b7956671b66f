use bmtui::components::{
    BombData, Direction, ExplosionData, ItemType, PlayerStats, Position, BOMB_FUSE_MS,
    EXPLOSION_LIFESPAN_MS,
};
use bmtui::entity::{Entity, EntityType, Payload};

#[test]
fn position_new_keeps_both_coordinates() {
    let p = Position::new(3, 7);
    assert_eq!(p.x, 3);
    assert_eq!(p.y, 7);
    assert_eq!(p, Position { x: 3, y: 7 });
}

#[test]
fn direction_deltas_are_the_four_unit_steps() {
    assert_eq!(Direction::Up.to_delta(), (0, -1));
    assert_eq!(Direction::Down.to_delta(), (0, 1));
    assert_eq!(Direction::Left.to_delta(), (-1, 0));
    assert_eq!(Direction::Right.to_delta(), (1, 0));
}

#[test]
fn step_gives_the_neighbouring_cell() {
    let p = Position::new(4, 4);
    assert_eq!(p.step(Direction::Up), Some(Position::new(4, 3)));
    assert_eq!(p.step(Direction::Down), Some(Position::new(4, 5)));
    assert_eq!(p.step(Direction::Left), Some(Position::new(3, 4)));
    assert_eq!(p.step(Direction::Right), Some(Position::new(5, 4)));
}

#[test]
fn step_stops_where_coordinates_end() {
    assert_eq!(Position::new(0, 0).step(Direction::Up), None);
    assert_eq!(Position::new(0, 0).step(Direction::Left), None);
    assert_eq!(Position::new(usize::MAX, usize::MAX).step(Direction::Down), None);
    assert_eq!(Position::new(usize::MAX, usize::MAX).step(Direction::Right), None);
    assert_eq!(
        Position::new(usize::MAX, 0).step(Direction::Down),
        Some(Position::new(usize::MAX, 1))
    );
}

#[test]
fn player_starts_with_one_bomb_and_range_one() {
    let stats = PlayerStats::default();
    assert_eq!(stats.max_bombs, 1);
    assert_eq!(stats.bomb_range, 1);
    assert_eq!(stats.speed, 1);
}

#[test]
fn fresh_bomb_has_a_three_second_fuse() {
    let bomb = BombData::new(4, 9);
    assert_eq!(BOMB_FUSE_MS, 3000);
    assert_eq!(bomb.timer, 3000);
    assert_eq!(bomb.range, 4);
    assert_eq!(bomb.owner_id, 9);
}

#[test]
fn fresh_blast_mark_lasts_half_a_second() {
    assert_eq!(EXPLOSION_LIFESPAN_MS, 500);
    assert_eq!(ExplosionData::new().timer, 500);
}

#[test]
fn item_glyphs() {
    assert_eq!(ItemType::Fire.to_char(), "🔥");
    assert_eq!(ItemType::Bomb.to_char(), "💣");
}

#[test]
fn entity_constructors_set_kind_payload_and_life() {
    let player = Entity::new_player(0, 1, 2);
    assert_eq!(player.id, 0);
    assert_eq!(player.position, Position::new(1, 2));
    assert!(player.is_alive);
    assert_eq!(player.payload, Payload::Player(PlayerStats::default()));
    assert_eq!(player.entity_type(), EntityType::Player);

    let enemy = Entity::new_enemy(5, 6, 7);
    assert_eq!(enemy.id, 5);
    assert_eq!(enemy.position, Position::new(6, 7));
    assert!(enemy.is_alive);
    assert_eq!(enemy.payload, Payload::Enemy);
    assert_eq!(enemy.entity_type(), EntityType::Enemy);

    let bomb = Entity::new_bomb(2, 3, 4, 5, 0);
    assert_eq!(bomb.id, 2);
    assert_eq!(bomb.position, Position::new(3, 4));
    assert!(bomb.is_alive);
    assert_eq!(bomb.payload, Payload::Bomb(BombData { timer: 3000, range: 5, owner_id: 0 }));
    assert_eq!(bomb.entity_type(), EntityType::Bomb);

    let mark = Entity::new_explosion(8, 9, 10);
    assert_eq!(mark.id, 8);
    assert_eq!(mark.position, Position::new(9, 10));
    assert!(mark.is_alive);
    assert_eq!(mark.payload, Payload::Explosion(ExplosionData { timer: 500 }));
    assert_eq!(mark.entity_type(), EntityType::Explosion);

    let item = Entity::new_item(11, 12, 13, ItemType::Fire);
    assert_eq!(item.id, 11);
    assert_eq!(item.position, Position::new(12, 13));
    assert!(item.is_alive);
    assert_eq!(item.payload, Payload::Item(ItemType::Fire));
    assert_eq!(item.entity_type(), EntityType::Item);
}

#[test]
fn entity_glyphs() {
    assert_eq!(Entity::new_player(0, 0, 0).to_char(), "🧑");
    assert_eq!(Entity::new_enemy(0, 0, 0).to_char(), "👾");
    assert_eq!(Entity::new_bomb(0, 0, 0, 1, 0).to_char(), "💣");
    assert_eq!(Entity::new_explosion(0, 0, 0).to_char(), "💥");
    assert_eq!(Entity::new_item(0, 0, 0, ItemType::Fire).to_char(), "🔥");
    assert_eq!(Entity::new_item(0, 0, 0, ItemType::Bomb).to_char(), "💣");
}
