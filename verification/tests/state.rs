use bmtui::components::{BombData, Direction, ItemType, PlayerStats, Position};
use bmtui::entity::{Entity, EntityType, Payload};
use bmtui::state::GameState;
use bmtui::systems::movement::process_movement;
use bmtui::world::Tile;

fn stats_of(state: &GameState) -> PlayerStats {
    match state.get_player().unwrap().payload {
        Payload::Player(stats) => stats,
        _ => panic!("the player carries no stats"),
    }
}

fn give(state: &mut GameState, fires: usize, bombs: usize) {
    let at = state.get_player().unwrap().position;
    for _ in 0..fires {
        state.add_item(at.x, at.y, ItemType::Fire);
    }
    for _ in 0..bombs {
        state.add_item(at.x, at.y, ItemType::Bomb);
    }
    state.collect_items();
}

fn push(state: &mut GameState, make: fn(usize) -> Entity) -> usize {
    let id = state.next_entity_id;
    state.entities.push(make(id));
    state.next_entity_id += 1;
    id
}

#[test]
fn new_game_has_the_player_and_three_enemies_on_their_marks() {
    let state = GameState::new();
    assert_eq!(state.world.width(), 15);
    assert_eq!(state.world.height(), 11);
    assert_eq!(state.entities.len(), 4);
    assert_eq!(state.next_entity_id, 4);
    assert_eq!(state.player_id, 0);
    assert_eq!(state.enemy_move_timer, 0);
    assert_eq!(state.entities[0], Entity::new_player(0, 1, 1));
    assert_eq!(state.entities[1], Entity::new_enemy(1, 13, 1));
    assert_eq!(state.entities[2], Entity::new_enemy(2, 1, 9));
    assert_eq!(state.entities[3], Entity::new_enemy(3, 12, 9));
}

#[test]
fn new_game_has_the_tiles_of_the_default_stage() {
    let state = GameState::new();
    for x in 0..15 {
        assert_eq!(state.world.get_tile(x, 0), Some(Tile::Wall));
        assert_eq!(state.world.get_tile(x, 10), Some(Tile::Wall));
    }
    assert_eq!(state.world.get_tile(1, 1), Some(Tile::Empty));
    assert_eq!(state.world.get_tile(13, 1), Some(Tile::Empty));
    assert_eq!(state.world.get_tile(5, 1), Some(Tile::Breakable));
    assert_eq!(state.world.get_tile(9, 1), Some(Tile::Breakable));
    assert_eq!(state.world.get_tile(2, 2), Some(Tile::Wall));
    assert_eq!(state.world.get_tile(1, 2), Some(Tile::Empty));
    assert_eq!(state.world.get_tile(4, 3), Some(Tile::Breakable));
    assert_eq!(state.world.get_tile(12, 3), Some(Tile::Breakable));
    assert_eq!(state.world.get_tile(4, 9), Some(Tile::Breakable));
    assert_eq!(state.world.get_tile(12, 9), Some(Tile::Empty));
}

#[test]
fn ids_are_handed_out_in_reading_order() {
    let state = GameState::from_layout(&["E E", " P ", "E  "]);
    assert_eq!(state.entities.len(), 4);
    assert_eq!(state.entities[0], Entity::new_enemy(0, 0, 0));
    assert_eq!(state.entities[1], Entity::new_enemy(1, 2, 0));
    assert_eq!(state.entities[2], Entity::new_player(2, 1, 1));
    assert_eq!(state.entities[3], Entity::new_enemy(3, 0, 2));
    assert_eq!(state.player_id, 2);
    assert_eq!(state.next_entity_id, 4);
}

#[test]
fn the_first_player_mark_wins() {
    let state = GameState::from_layout(&["P P", "  P"]);
    assert_eq!(state.entities.len(), 1);
    assert_eq!(state.player_id, 0);
    assert_eq!(state.entities[0], Entity::new_player(0, 0, 0));
    assert_eq!(state.world.get_tile(2, 0), Some(Tile::Empty));
}

#[test]
fn a_layout_without_a_player_mark_gives_a_game_without_a_player() {
    let mut state = GameState::from_layout(&["E  "]);
    assert_eq!(state.entities.len(), 1);
    assert!(state.get_player().is_none());
    assert!(state.get_player_mut().is_none());
    assert!(!state.player_alive());
    assert!(!state.place_bomb());
    assert_eq!(state.entities.len(), 1);
}

#[test]
fn get_player_finds_the_player() {
    let state = GameState::from_layout(&["E P"]);
    let player = state.get_player().unwrap();
    assert_eq!(player.id, 1);
    assert_eq!(player.position, Position::new(2, 0));
    assert!(state.player_alive());
}

#[test]
fn get_player_mut_changes_the_player_in_place() {
    let mut state = GameState::from_layout(&["E P"]);
    state.get_player_mut().unwrap().position = Position::new(1, 0);
    assert_eq!(state.entities[1].position, Position::new(1, 0));
    assert_eq!(state.entities[0].position, Position::new(0, 0));
}

#[test]
fn moving_onto_an_empty_tile_succeeds() {
    let mut state = GameState::new();
    assert!(state.move_entity(0, Direction::Right));
    assert_eq!(state.entities[0].position, Position::new(2, 1));
    assert!(state.move_entity(0, Direction::Left));
    assert_eq!(state.entities[0].position, Position::new(1, 1));
    assert!(state.move_entity(0, Direction::Down));
    assert_eq!(state.entities[0].position, Position::new(1, 2));
    assert!(state.move_entity(0, Direction::Up));
    assert_eq!(state.entities[0].position, Position::new(1, 1));
}

#[test]
fn moving_into_a_wall_fails_and_changes_nothing() {
    let mut state = GameState::new();
    let before = state.entities.clone();
    assert!(!state.move_entity(0, Direction::Up));
    assert!(!state.move_entity(0, Direction::Left));
    assert_eq!(state.entities, before);
}

#[test]
fn moving_into_a_breakable_tile_fails() {
    let mut state = GameState::from_layout(&["PX"]);
    assert!(!state.move_entity(0, Direction::Right));
    assert_eq!(state.entities[0].position, Position::new(0, 0));
    assert_eq!(state.world.get_tile(1, 0), Some(Tile::Breakable));
}

#[test]
fn moving_off_the_grid_fails() {
    let mut state = GameState::from_layout(&["P"]);
    assert!(!state.move_entity(0, Direction::Up));
    assert!(!state.move_entity(0, Direction::Down));
    assert!(!state.move_entity(0, Direction::Left));
    assert!(!state.move_entity(0, Direction::Right));
    assert_eq!(state.entities[0].position, Position::new(0, 0));
}

#[test]
fn moves_never_end_off_open_ground() {
    let mut state = GameState::new();
    let walk = [
        Direction::Right,
        Direction::Right,
        Direction::Down,
        Direction::Right,
        Direction::Right,
        Direction::Up,
        Direction::Down,
        Direction::Down,
        Direction::Left,
        Direction::Up,
        Direction::Up,
        Direction::Left,
    ];
    for round in 0..20 {
        for (i, d) in walk.iter().enumerate() {
            let d = if (i + round) % 3 == 0 { Direction::Down } else { *d };
            let before = state.entities[0].position;
            let moved = state.move_entity(0, d);
            let after = state.entities[0].position;
            assert_eq!(state.world.get_tile(after.x, after.y), Some(Tile::Empty));
            assert!(after.x < 15 && after.y < 11);
            if !moved {
                assert_eq!(after, before);
            }
        }
    }
}

#[test]
fn a_dead_entity_does_not_move() {
    let mut state = GameState::new();
    state.entities[0].is_alive = false;
    assert!(!state.move_entity(0, Direction::Right));
    assert_eq!(state.entities[0].position, Position::new(1, 1));
}

#[test]
fn an_unknown_id_does_not_move() {
    let mut state = GameState::new();
    let before = state.entities.clone();
    assert!(!state.move_entity(4, Direction::Right));
    assert!(!state.move_entity(usize::MAX, Direction::Right));
    assert_eq!(state.entities, before);
}

#[test]
fn a_live_bomb_blocks_everyone_even_its_owner() {
    let mut state = GameState::from_layout(&["P E"]);
    assert!(state.move_entity(0, Direction::Right));
    assert!(state.place_bomb());
    assert!(state.move_entity(0, Direction::Left));
    assert!(!state.move_entity(0, Direction::Right));
    assert!(!state.move_entity(1, Direction::Left));
    assert_eq!(state.entities[0].position, Position::new(0, 0));
    assert_eq!(state.entities[1].position, Position::new(2, 0));
}

#[test]
fn a_dead_bomb_blocks_no_one() {
    let mut state = GameState::from_layout(&["P E"]);
    assert!(state.move_entity(0, Direction::Right));
    assert!(state.place_bomb());
    assert!(state.move_entity(0, Direction::Left));
    state.entities[2].is_alive = false;
    assert!(state.move_entity(0, Direction::Right));
    assert_eq!(state.entities[0].position, Position::new(1, 0));
}

#[test]
fn enemies_and_the_player_may_share_a_tile() {
    let mut state = GameState::from_layout(&["PEE"]);
    assert!(state.move_entity(2, Direction::Left));
    assert_eq!(state.entities[1].position, state.entities[2].position);
    assert!(state.move_entity(0, Direction::Right));
    assert_eq!(state.entities[0].position, Position::new(1, 0));
    assert!(state.entities[0].is_alive);
}

#[test]
fn process_movement_moves_like_move_entity() {
    let mut state = GameState::new();
    process_movement(&mut state, 0, Direction::Right);
    assert_eq!(state.entities[0].position, Position::new(2, 1));
    process_movement(&mut state, 0, Direction::Up);
    assert_eq!(state.entities[0].position, Position::new(2, 1));
}

#[test]
fn placing_a_bomb_puts_it_on_the_players_tile() {
    let mut state = GameState::new();
    assert!(state.place_bomb());
    assert_eq!(state.entities.len(), 5);
    assert_eq!(state.next_entity_id, 5);
    assert_eq!(state.entities[4], Entity::new_bomb(4, 1, 1, 1, 0));
    assert_eq!(
        state.entities[4].payload,
        Payload::Bomb(BombData { timer: 3000, range: 1, owner_id: 0 })
    );
}

#[test]
fn a_bomb_takes_the_players_range_at_the_moment_of_placing() {
    let mut state = GameState::new();
    give(&mut state, 3, 1);
    assert_eq!(stats_of(&state), PlayerStats { max_bombs: 2, bomb_range: 4, speed: 1 });
    assert!(state.place_bomb());
    give(&mut state, 5, 0);
    assert!(state.move_entity(0, Direction::Right));
    assert!(state.place_bomb());
    assert_eq!(state.entities[8], Entity::new_bomb(8, 1, 1, 4, 0));
    assert_eq!(state.entities[14], Entity::new_bomb(14, 2, 1, 9, 0));
    assert_eq!(state.entities.len(), 15);
}

#[test]
fn no_bomb_beyond_the_capacity() {
    let mut state = GameState::new();
    assert!(state.place_bomb());
    assert!(state.move_entity(0, Direction::Right));
    let before = state.entities.clone();
    assert!(!state.place_bomb());
    assert_eq!(state.entities, before);
    assert_eq!(state.next_entity_id, 5);
}

#[test]
fn a_spent_bomb_frees_its_place_in_the_capacity() {
    let mut state = GameState::new();
    assert!(state.place_bomb());
    assert!(state.move_entity(0, Direction::Right));
    state.entities[4].is_alive = false;
    assert!(state.place_bomb());
    assert_eq!(state.entities[5], Entity::new_bomb(5, 2, 1, 1, 0));
}

#[test]
fn bombs_of_others_do_not_count_against_the_capacity() {
    let mut state = GameState::new();
    push(&mut state, |id| Entity::new_bomb(id, 3, 1, 1, 2));
    assert!(state.place_bomb());
    assert_eq!(state.entities[5], Entity::new_bomb(5, 1, 1, 1, 0));
}

#[test]
fn no_second_bomb_on_a_tile() {
    let mut state = GameState::new();
    give(&mut state, 0, 2);
    assert_eq!(stats_of(&state).max_bombs, 3);
    assert!(state.place_bomb());
    let before = state.entities.clone();
    assert!(!state.place_bomb());
    assert_eq!(state.entities, before);
    push(&mut state, |id| Entity::new_bomb(id, 2, 1, 1, 7));
    state.entities[6].is_alive = false;
    state.entities[0].position = Position::new(2, 1);
    assert!(!state.place_bomb());
    state.entities[0].position = Position::new(3, 1);
    assert!(state.place_bomb());
}

#[test]
fn a_dead_player_places_no_bomb() {
    let mut state = GameState::new();
    state.entities[0].is_alive = false;
    assert!(!state.place_bomb());
    assert_eq!(state.entities.len(), 4);
}

#[test]
fn add_explosion_and_add_item_take_the_next_ids() {
    let mut state = GameState::new();
    state.add_explosion(3, 1);
    state.add_item(4, 1, ItemType::Bomb);
    assert_eq!(state.entities[4], Entity::new_explosion(4, 3, 1));
    assert_eq!(state.entities[5], Entity::new_item(5, 4, 1, ItemType::Bomb));
    assert_eq!(state.next_entity_id, 6);
}

#[test]
fn a_fire_pickup_adds_one_to_the_range() {
    let mut state = GameState::new();
    state.add_item(1, 1, ItemType::Fire);
    state.collect_items();
    assert_eq!(stats_of(&state), PlayerStats { max_bombs: 1, bomb_range: 2, speed: 1 });
    assert!(!state.entities[4].is_alive);
}

#[test]
fn a_bomb_pickup_adds_one_to_the_capacity() {
    let mut state = GameState::new();
    state.add_item(1, 1, ItemType::Bomb);
    state.collect_items();
    assert_eq!(stats_of(&state), PlayerStats { max_bombs: 2, bomb_range: 1, speed: 1 });
    assert!(!state.entities[4].is_alive);
}

#[test]
fn every_pickup_on_the_tile_is_collected_at_once() {
    let mut state = GameState::new();
    state.add_item(1, 1, ItemType::Fire);
    state.add_item(1, 1, ItemType::Bomb);
    state.add_item(1, 1, ItemType::Fire);
    state.add_item(2, 1, ItemType::Fire);
    state.collect_items();
    assert_eq!(stats_of(&state), PlayerStats { max_bombs: 2, bomb_range: 3, speed: 1 });
    assert!(!state.entities[4].is_alive);
    assert!(!state.entities[5].is_alive);
    assert!(!state.entities[6].is_alive);
    assert!(state.entities[7].is_alive);
}

#[test]
fn a_pickup_is_not_collected_twice() {
    let mut state = GameState::new();
    state.add_item(1, 1, ItemType::Fire);
    state.collect_items();
    let once = state.entities.clone();
    state.collect_items();
    state.collect_items();
    assert_eq!(state.entities, once);
    assert_eq!(stats_of(&state).bomb_range, 2);
}

#[test]
fn a_dead_player_collects_nothing() {
    let mut state = GameState::new();
    state.add_item(1, 1, ItemType::Fire);
    state.entities[0].is_alive = false;
    let before = state.entities.clone();
    state.collect_items();
    assert_eq!(state.entities, before);
}

#[test]
fn pickups_elsewhere_stay() {
    let mut state = GameState::new();
    state.add_item(2, 1, ItemType::Fire);
    let before = state.entities.clone();
    state.collect_items();
    assert_eq!(state.entities, before);
    assert!(state.move_entity(0, Direction::Right));
    state.collect_items();
    assert_eq!(stats_of(&state).bomb_range, 2);
    assert!(!state.entities[4].is_alive);
}

#[test]
fn has_live_at_tells_kinds_and_life_apart() {
    let mut state = GameState::new();
    assert!(state.has_live_at(EntityType::Player, 1, 1));
    assert!(!state.has_live_at(EntityType::Enemy, 1, 1));
    assert!(state.has_live_at(EntityType::Enemy, 13, 1));
    assert!(!state.has_live_at(EntityType::Bomb, 1, 1));
    assert!(state.place_bomb());
    assert!(state.has_live_at(EntityType::Bomb, 1, 1));
    state.entities[4].is_alive = false;
    assert!(!state.has_live_at(EntityType::Bomb, 1, 1));
}

#[test]
fn entity_at_shows_the_oldest_live_entity_of_a_tile() {
    let mut state = GameState::new();
    assert!(state.place_bomb());
    assert_eq!(state.entity_at(1, 1).unwrap().id, 0);
    state.entities[0].is_alive = false;
    assert_eq!(state.entity_at(1, 1).unwrap().id, 4);
    state.entities[4].is_alive = false;
    assert!(state.entity_at(1, 1).is_none());
    assert!(state.entity_at(2, 1).is_none());
}

#[test]
fn counting_live_enemies() {
    let mut state = GameState::new();
    assert_eq!(state.alive_enemies(), 3);
    state.entities[2].is_alive = false;
    assert_eq!(state.alive_enemies(), 2);
    state.entities[1].is_alive = false;
    state.entities[3].is_alive = false;
    assert_eq!(state.alive_enemies(), 0);
}
