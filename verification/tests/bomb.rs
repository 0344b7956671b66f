use bmtui::blast::{Blast, Drops};
use bmtui::components::{BombData, ExplosionData, ItemType, Position};
use bmtui::entity::{Entity, EntityType, Payload};
use bmtui::state::GameState;
use bmtui::systems::bomb::{
    create_explosion, damage_entities_in_explosions, detonate, item_for, update_bombs,
    update_explosions, DROP_CHANCE_DENOMINATOR, DROP_CHANCE_NUMERATOR,
};
use bmtui::world::Tile;

const NO_DROPS: Drops = Drops { up: None, down: None, left: None, right: None };

fn open_field(side: usize) -> GameState {
    let row = " ".repeat(side);
    let rows: Vec<&str> = (0..side).map(|_| row.as_str()).collect();
    GameState::from_layout(&rows)
}

fn add_bomb(state: &mut GameState, x: usize, y: usize, range: usize, timer: u64) -> usize {
    let id = state.next_entity_id;
    let mut bomb = Entity::new_bomb(id, x, y, range, usize::MAX);
    bomb.payload = Payload::Bomb(BombData { timer, range, owner_id: usize::MAX });
    state.entities.push(bomb);
    state.next_entity_id += 1;
    id
}

fn add_enemy(state: &mut GameState, x: usize, y: usize) -> usize {
    let id = state.next_entity_id;
    state.entities.push(Entity::new_enemy(id, x, y));
    state.next_entity_id += 1;
    id
}

fn marks(state: &GameState) -> Vec<(usize, usize)> {
    state
        .entities
        .iter()
        .filter(|e| e.entity_type() == EntityType::Explosion && e.is_alive)
        .map(|e| (e.position.x, e.position.y))
        .collect()
}

fn items(state: &GameState) -> Vec<(usize, usize, ItemType)> {
    let mut found = Vec::new();
    for e in &state.entities {
        if let Payload::Item(kind) = e.payload {
            found.push((e.position.x, e.position.y, kind));
        }
    }
    found
}

#[test]
fn drop_chance_is_three_in_ten() {
    assert_eq!(DROP_CHANCE_NUMERATOR, 3);
    assert_eq!(DROP_CHANCE_DENOMINATOR, 10);
}

#[test]
fn heads_is_fire_and_tails_is_bomb() {
    assert_eq!(item_for(true), ItemType::Fire);
    assert_eq!(item_for(false), ItemType::Bomb);
}

#[test]
fn open_field_blast_marks_one_plus_four_r_tiles() {
    for r in 0..4usize {
        let mut state = open_field(9);
        let chain = detonate(&mut state, Blast { x: 4, y: 4, range: r }, NO_DROPS);
        assert!(chain.is_empty());
        let mut cells = marks(&state);
        assert_eq!(cells.len(), 1 + 4 * r);
        cells.sort();
        cells.dedup();
        assert_eq!(cells.len(), 1 + 4 * r);
        assert_eq!(state.entities.len(), 1 + 4 * r);
    }
}

#[test]
fn blast_marks_come_centre_first_then_up_down_left_right() {
    let mut state = open_field(7);
    detonate(&mut state, Blast { x: 3, y: 3, range: 2 }, NO_DROPS);
    assert_eq!(
        marks(&state),
        vec![(3, 3), (3, 2), (3, 1), (3, 4), (3, 5), (2, 3), (1, 3), (4, 3), (5, 3)]
    );
    for (i, e) in state.entities.iter().enumerate() {
        assert_eq!(e.id, i);
        assert_eq!(e.payload, Payload::Explosion(ExplosionData { timer: 500 }));
    }
    assert_eq!(state.next_entity_id, 9);
}

#[test]
fn the_edge_of_the_grid_clips_the_blast() {
    let mut state = open_field(7);
    detonate(&mut state, Blast { x: 0, y: 0, range: 3 }, NO_DROPS);
    assert_eq!(marks(&state), vec![(0, 0), (0, 1), (0, 2), (0, 3), (1, 0), (2, 0), (3, 0)]);
    let mut state = open_field(3);
    detonate(&mut state, Blast { x: 2, y: 2, range: 5 }, NO_DROPS);
    assert_eq!(marks(&state), vec![(2, 2), (2, 1), (2, 0), (1, 2), (0, 2)]);
}

#[test]
fn a_bomb_off_the_grid_marks_its_own_cell_only() {
    let mut state = open_field(3);
    detonate(&mut state, Blast { x: 10, y: 10, range: 2 }, NO_DROPS);
    assert_eq!(marks(&state), vec![(10, 10)]);
}

#[test]
fn a_wall_stops_the_blast_and_gets_no_mark() {
    let mut state = GameState::from_layout(&["  #  "]);
    detonate(&mut state, Blast { x: 0, y: 0, range: 4 }, NO_DROPS);
    assert_eq!(marks(&state), vec![(0, 0), (1, 0)]);
    assert_eq!(state.world.get_tile(2, 0), Some(Tile::Wall));
}

#[test]
fn a_breakable_tile_takes_the_blast_and_becomes_empty() {
    let mut state = GameState::from_layout(&["  X  "]);
    detonate(&mut state, Blast { x: 0, y: 0, range: 4 }, NO_DROPS);
    assert_eq!(marks(&state), vec![(0, 0), (1, 0), (2, 0)]);
    assert_eq!(state.world.get_tile(2, 0), Some(Tile::Empty));
    assert_eq!(state.world.get_tile(3, 0), Some(Tile::Empty));
    assert!(items(&state).is_empty());
}

#[test]
fn a_breakable_tile_hides_what_lies_behind_it() {
    let mut state = GameState::from_layout(&[" XX "]);
    detonate(&mut state, Blast { x: 0, y: 0, range: 3 }, NO_DROPS);
    assert_eq!(state.world.get_tile(1, 0), Some(Tile::Empty));
    assert_eq!(state.world.get_tile(2, 0), Some(Tile::Breakable));
    assert_eq!(marks(&state), vec![(0, 0), (1, 0)]);
}

#[test]
fn the_drop_lies_on_the_broken_tile_after_its_mark() {
    let mut state = GameState::from_layout(&["  X  "]);
    let drops = Drops { right: Some(ItemType::Fire), ..NO_DROPS };
    detonate(&mut state, Blast { x: 0, y: 0, range: 4 }, drops);
    assert_eq!(state.entities.len(), 4);
    assert_eq!(state.entities[0], Entity::new_explosion(0, 0, 0));
    assert_eq!(state.entities[1], Entity::new_explosion(1, 1, 0));
    assert_eq!(state.entities[2], Entity::new_explosion(2, 2, 0));
    assert_eq!(state.entities[3], Entity::new_item(3, 2, 0, ItemType::Fire));
}

#[test]
fn a_drop_is_not_read_where_no_tile_breaks() {
    let mut state = GameState::from_layout(&["  #  ", "     ", "     "]);
    let drops = Drops {
        up: Some(ItemType::Fire),
        down: Some(ItemType::Bomb),
        left: Some(ItemType::Fire),
        right: Some(ItemType::Bomb),
    };
    detonate(&mut state, Blast { x: 0, y: 0, range: 4 }, drops);
    assert!(items(&state).is_empty());
    assert_eq!(marks(&state), vec![(0, 0), (0, 1), (0, 2), (1, 0)]);
}

#[test]
fn each_ray_has_its_own_drop() {
    let mut state = GameState::from_layout(&[" X ", "X X", " X "]);
    let drops = Drops {
        up: Some(ItemType::Fire),
        down: None,
        left: Some(ItemType::Bomb),
        right: Some(ItemType::Fire),
    };
    detonate(&mut state, Blast { x: 1, y: 1, range: 1 }, drops);
    assert_eq!(
        items(&state),
        vec![(1, 0, ItemType::Fire), (0, 1, ItemType::Bomb), (2, 1, ItemType::Fire)]
    );
    assert_eq!(marks(&state), vec![(1, 1), (1, 0), (1, 2), (0, 1), (2, 1)]);
    for (x, y) in [(1, 0), (1, 2), (0, 1), (2, 1)] {
        assert_eq!(state.world.get_tile(x, y), Some(Tile::Empty));
    }
}

#[test]
fn a_second_blast_over_a_broken_tile_leaves_no_second_pickup() {
    let mut state = GameState::from_layout(&["  X  "]);
    let drops = Drops { right: Some(ItemType::Fire), ..NO_DROPS };
    detonate(&mut state, Blast { x: 0, y: 0, range: 4 }, drops);
    assert_eq!(items(&state), vec![(2, 0, ItemType::Fire)]);
    let again = Drops { right: Some(ItemType::Bomb), ..NO_DROPS };
    detonate(&mut state, Blast { x: 0, y: 0, range: 4 }, again);
    assert_eq!(items(&state), vec![(2, 0, ItemType::Fire)]);
    assert_eq!(
        marks(&state),
        vec![(0, 0), (1, 0), (2, 0), (0, 0), (1, 0), (2, 0), (3, 0), (4, 0)]
    );
    assert_eq!(state.world.get_tile(2, 0), Some(Tile::Empty));
}

#[test]
fn fire_destroys_players_enemies_and_bombs_but_nothing_else() {
    let mut state = GameState::from_layout(&["PE   "]);
    let bomb = add_bomb(&mut state, 2, 0, 3, 3000);
    state.add_item(3, 0, ItemType::Fire);
    let far = add_enemy(&mut state, 4, 0);
    for x in 0..4 {
        state.add_explosion(x, 0);
    }
    let chain = damage_entities_in_explosions(&mut state);
    assert_eq!(chain, vec![Blast { x: 2, y: 0, range: 3 }]);
    assert!(!state.entities[0].is_alive);
    assert!(!state.entities[1].is_alive);
    assert!(!state.entities[bomb].is_alive);
    assert!(state.entities[3].is_alive);
    assert!(state.entities[far].is_alive);
    for e in &state.entities[5..] {
        assert!(e.is_alive);
    }
}

#[test]
fn a_faded_mark_burns_nothing() {
    let mut state = GameState::from_layout(&["PE"]);
    state.add_explosion(0, 0);
    state.add_explosion(1, 0);
    state.entities[2].is_alive = false;
    let chain = damage_entities_in_explosions(&mut state);
    assert!(chain.is_empty());
    assert!(state.entities[0].is_alive);
    assert!(!state.entities[1].is_alive);
}

#[test]
fn the_fire_hands_back_the_bombs_it_sets_off_in_order() {
    let mut state = open_field(5);
    let a = add_bomb(&mut state, 4, 2, 1, 3000);
    let b = add_bomb(&mut state, 2, 0, 2, 3000);
    let c = add_bomb(&mut state, 0, 0, 9, 3000);
    let chain = detonate(&mut state, Blast { x: 2, y: 2, range: 2 }, NO_DROPS);
    assert_eq!(chain, vec![Blast { x: 4, y: 2, range: 1 }, Blast { x: 2, y: 0, range: 2 }]);
    assert!(!state.entities[a].is_alive);
    assert!(!state.entities[b].is_alive);
    assert!(state.entities[c].is_alive);
}

#[test]
fn a_bomb_in_the_blast_goes_off_in_the_same_explosion() {
    let mut state = GameState::from_layout(&["       "]);
    let second = add_bomb(&mut state, 2, 0, 2, 3000);
    create_explosion(&mut state, 0, 0, 2);
    assert!(!state.entities[second].is_alive);
    assert_eq!(
        marks(&state),
        vec![(0, 0), (1, 0), (2, 0), (2, 0), (1, 0), (0, 0), (3, 0), (4, 0)]
    );
}

#[test]
fn a_chain_runs_over_several_hops() {
    let mut state = GameState::from_layout(&["       "]);
    let a = add_bomb(&mut state, 0, 0, 2, 100);
    let b = add_bomb(&mut state, 2, 0, 2, 3000);
    let c = add_bomb(&mut state, 4, 0, 1, 3000);
    let lone = add_enemy(&mut state, 5, 0);
    let safe = add_enemy(&mut state, 6, 0);
    update_bombs(&mut state, 100);
    assert!(!state.entities[a].is_alive);
    assert!(!state.entities[b].is_alive);
    assert!(!state.entities[c].is_alive);
    assert!(!state.entities[lone].is_alive);
    assert!(state.entities[safe].is_alive);
    assert_eq!(
        marks(&state),
        vec![
            (0, 0),
            (1, 0),
            (2, 0),
            (2, 0),
            (1, 0),
            (0, 0),
            (3, 0),
            (4, 0),
            (4, 0),
            (3, 0),
            (5, 0)
        ]
    );
}

#[test]
fn a_bomb_out_of_reach_stays() {
    let mut state = GameState::from_layout(&["       "]);
    let far = add_bomb(&mut state, 5, 0, 2, 3000);
    create_explosion(&mut state, 0, 0, 2);
    assert!(state.entities[far].is_alive);
    assert_eq!(marks(&state), vec![(0, 0), (1, 0), (2, 0)]);
}

#[test]
fn a_bomb_behind_a_wall_stays() {
    let mut state = GameState::from_layout(&[" # "]);
    let hidden = add_bomb(&mut state, 2, 0, 2, 3000);
    create_explosion(&mut state, 0, 0, 5);
    assert!(state.entities[hidden].is_alive);
}

#[test]
fn fuses_burn_down_by_the_time_that_passes() {
    let mut state = open_field(3);
    let bomb = add_bomb(&mut state, 1, 1, 1, 3000);
    update_bombs(&mut state, 1000);
    assert_eq!(
        state.entities[bomb].payload,
        Payload::Bomb(BombData { timer: 2000, range: 1, owner_id: usize::MAX })
    );
    assert!(state.entities[bomb].is_alive);
    update_bombs(&mut state, 1999);
    assert_eq!(
        state.entities[bomb].payload,
        Payload::Bomb(BombData { timer: 1, range: 1, owner_id: usize::MAX })
    );
    assert!(state.entities[bomb].is_alive);
    assert_eq!(state.entities.len(), 1);
    update_bombs(&mut state, 0);
    assert!(state.entities[bomb].is_alive);
}

#[test]
fn a_bomb_goes_off_when_its_fuse_reaches_zero() {
    let mut state = open_field(3);
    let bomb = add_bomb(&mut state, 1, 1, 1, 3000);
    update_bombs(&mut state, 3000);
    assert!(!state.entities[bomb].is_alive);
    assert_eq!(marks(&state), vec![(1, 1), (1, 0), (1, 2), (0, 1), (2, 1)]);
}

#[test]
fn a_bomb_goes_off_when_its_fuse_is_overrun() {
    let mut state = open_field(3);
    let bomb = add_bomb(&mut state, 1, 1, 1, 10);
    update_bombs(&mut state, u64::MAX);
    assert!(!state.entities[bomb].is_alive);
    assert_eq!(
        state.entities[bomb].payload,
        Payload::Bomb(BombData { timer: 0, range: 1, owner_id: usize::MAX })
    );
    assert_eq!(marks(&state).len(), 5);
}

#[test]
fn a_spent_bomb_does_not_go_off_again() {
    let mut state = open_field(3);
    add_bomb(&mut state, 1, 1, 1, 10);
    update_bombs(&mut state, 10);
    let once = state.entities.clone();
    update_bombs(&mut state, 10);
    assert_eq!(state.entities, once);
}

#[test]
fn bombs_that_run_out_together_each_explode() {
    let mut state = GameState::from_layout(&["         "]);
    let a = add_bomb(&mut state, 0, 0, 1, 50);
    let b = add_bomb(&mut state, 8, 0, 1, 50);
    let c = add_bomb(&mut state, 4, 0, 1, 51);
    update_bombs(&mut state, 50);
    assert!(!state.entities[a].is_alive);
    assert!(!state.entities[b].is_alive);
    assert!(state.entities[c].is_alive);
    assert_eq!(marks(&state), vec![(0, 0), (1, 0), (8, 0), (7, 0)]);
}

#[test]
fn blast_marks_fade_with_time() {
    let mut state = open_field(3);
    state.add_explosion(1, 1);
    update_explosions(&mut state, 200);
    assert_eq!(state.entities[0].payload, Payload::Explosion(ExplosionData { timer: 300 }));
    assert!(state.entities[0].is_alive);
    update_explosions(&mut state, 299);
    assert_eq!(state.entities[0].payload, Payload::Explosion(ExplosionData { timer: 1 }));
    assert!(state.entities[0].is_alive);
    update_explosions(&mut state, 1);
    assert_eq!(state.entities[0].payload, Payload::Explosion(ExplosionData { timer: 0 }));
    assert!(!state.entities[0].is_alive);
}

#[test]
fn fading_touches_blast_marks_only() {
    let mut state = GameState::from_layout(&["PE "]);
    add_bomb(&mut state, 2, 0, 1, 3000);
    state.add_item(2, 0, ItemType::Bomb);
    let before = state.entities.clone();
    update_explosions(&mut state, 10_000);
    assert_eq!(state.entities, before);
}

#[test]
fn a_rolled_explosion_breaks_the_tile_and_leaves_at_most_one_pickup() {
    let mut with_drop = 0;
    let mut fires = 0;
    let mut bombs = 0;
    let rounds = 600;
    for _ in 0..rounds {
        let mut state = GameState::from_layout(&[" X "]);
        create_explosion(&mut state, 0, 0, 2);
        assert_eq!(state.world.get_tile(1, 0), Some(Tile::Empty));
        assert_eq!(marks(&state), vec![(0, 0), (1, 0)]);
        let found = items(&state);
        assert!(found.len() <= 1);
        if let Some(&(x, y, kind)) = found.first() {
            assert_eq!((x, y), (1, 0));
            assert_eq!(state.entities[2], Entity::new_item(2, 1, 0, kind));
            with_drop += 1;
            match kind {
                ItemType::Fire => fires += 1,
                ItemType::Bomb => bombs += 1,
            }
        }
    }
    assert!(with_drop > 0 && with_drop < rounds);
    assert!(fires > 0 && bombs > 0);
    assert!(with_drop > rounds / 10 && with_drop < rounds * 6 / 10);
}

#[test]
fn a_rolled_explosion_without_breakable_tiles_leaves_no_pickup() {
    for _ in 0..50 {
        let mut state = GameState::from_layout(&["  #", "   "]);
        create_explosion(&mut state, 0, 0, 3);
        assert!(items(&state).is_empty());
        assert_eq!(marks(&state), vec![(0, 0), (0, 1), (1, 0)]);
    }
}

#[test]
fn blast_position_helper_matches_entity_positions() {
    let mut state = open_field(3);
    detonate(&mut state, Blast { x: 1, y: 1, range: 1 }, NO_DROPS);
    assert_eq!(state.entities[1].position, Position::new(1, 0));
    assert_eq!(state.entities[4].position, Position::new(2, 1));
}
