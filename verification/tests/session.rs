use bmtui::components::Position;
use bmtui::entity::Entity;
use bmtui::session::{App, AppState, Key, TICK_MS};

#[test]
fn a_session_starts_running_the_default_stage() {
    let app = App::new();
    assert!(!app.should_quit);
    assert_eq!(app.app_state, AppState::Playing);
    assert_eq!(app.game_state.entities.len(), 4);
    assert_eq!(app.game_state.entities[0], Entity::new_player(0, 1, 1));
    assert_eq!(TICK_MS, 50);
}

#[test]
fn q_and_escape_end_the_session_wherever_it_stands() {
    for state in [AppState::Playing, AppState::Paused, AppState::GameOver, AppState::Clear] {
        for key in [Key::Char('q'), Key::Esc] {
            let mut app = App::new();
            app.app_state = state;
            assert!(!app.handle_key(key));
            assert!(app.should_quit);
            assert_eq!(app.app_state, state);
            assert_eq!(app.game_state.entities.len(), 4);
        }
    }
}

#[test]
fn p_pauses_and_resumes() {
    let mut app = App::new();
    assert!(app.handle_key(Key::Char('p')));
    assert_eq!(app.app_state, AppState::Paused);
    assert!(app.handle_key(Key::Char('p')));
    assert_eq!(app.app_state, AppState::Playing);
    assert!(!app.should_quit);
}

#[test]
fn hjkl_move_the_player() {
    let mut app = App::new();
    assert!(app.handle_key(Key::Char('l')));
    assert_eq!(app.game_state.entities[0].position, Position::new(2, 1));
    assert!(app.handle_key(Key::Char('h')));
    assert_eq!(app.game_state.entities[0].position, Position::new(1, 1));
    assert!(app.handle_key(Key::Char('j')));
    assert_eq!(app.game_state.entities[0].position, Position::new(1, 2));
    assert!(app.handle_key(Key::Char('k')));
    assert_eq!(app.game_state.entities[0].position, Position::new(1, 1));
    assert!(app.handle_key(Key::Char('k')));
    assert_eq!(app.game_state.entities[0].position, Position::new(1, 1));
    assert_eq!(app.app_state, AppState::Playing);
}

#[test]
fn space_places_a_bomb() {
    let mut app = App::new();
    assert!(app.handle_key(Key::Char(' ')));
    assert_eq!(app.game_state.entities.len(), 5);
    assert_eq!(app.game_state.entities[4], Entity::new_bomb(4, 1, 1, 1, 0));
}

#[test]
fn other_keys_do_nothing() {
    let mut app = App::new();
    for key in [Key::Other, Key::Char('x'), Key::Char('r'), Key::Char('H')] {
        assert!(app.handle_key(key));
        assert_eq!(app.app_state, AppState::Playing);
        assert!(!app.should_quit);
        assert_eq!(app.game_state.entities.len(), 4);
        assert_eq!(app.game_state.entities[0], Entity::new_player(0, 1, 1));
    }
}

#[test]
fn a_paused_game_takes_no_moves_and_no_time() {
    let mut app = App::new();
    app.handle_key(Key::Char('p'));
    for key in [Key::Char('l'), Key::Char(' '), Key::Char('r'), Key::Other] {
        assert!(app.handle_key(key));
        assert_eq!(app.app_state, AppState::Paused);
    }
    for _ in 0..20 {
        app.tick();
    }
    assert_eq!(app.game_state.entities.len(), 4);
    assert_eq!(app.game_state.entities[0], Entity::new_player(0, 1, 1));
    assert_eq!(app.game_state.enemy_move_timer, 0);
    assert_eq!(app.app_state, AppState::Paused);
}

#[test]
fn a_tick_advances_a_running_game_by_fifty_milliseconds() {
    let mut app = App::new();
    app.tick();
    assert_eq!(app.game_state.enemy_move_timer, 50);
    app.tick();
    assert_eq!(app.game_state.enemy_move_timer, 100);
    assert_eq!(app.app_state, AppState::Playing);
}

#[test]
fn the_game_is_over_once_the_player_is_dead() {
    let mut app = App::new();
    app.game_state.entities[0].is_alive = false;
    app.update_game_state();
    assert_eq!(app.app_state, AppState::GameOver);
}

#[test]
fn the_game_is_cleared_once_every_enemy_is_dead() {
    let mut app = App::new();
    for id in 1..4 {
        app.game_state.entities[id].is_alive = false;
    }
    app.update_game_state();
    assert_eq!(app.app_state, AppState::Clear);
}

#[test]
fn a_dead_player_means_game_over_even_without_enemies() {
    let mut app = App::new();
    for id in 0..4 {
        app.game_state.entities[id].is_alive = false;
    }
    app.update_game_state();
    assert_eq!(app.app_state, AppState::GameOver);
}

#[test]
fn the_game_goes_on_while_both_sides_live() {
    let mut app = App::new();
    app.update_game_state();
    assert_eq!(app.app_state, AppState::Playing);
    app.app_state = AppState::Paused;
    app.update_game_state();
    assert_eq!(app.app_state, AppState::Paused);
}

#[test]
fn a_bomb_under_the_player_ends_the_game() {
    let mut app = App::new();
    app.handle_key(Key::Char(' '));
    for _ in 0..60 {
        app.tick();
    }
    assert_eq!(app.app_state, AppState::GameOver);
    assert!(!app.game_state.entities[0].is_alive);
    let frozen = app.game_state.entities.clone();
    app.tick();
    assert_eq!(app.game_state.entities, frozen);
    assert!(app.handle_key(Key::Char('l')));
    assert_eq!(app.game_state.entities, frozen);
}

#[test]
fn r_starts_again_after_the_end() {
    for end in [AppState::GameOver, AppState::Clear] {
        let mut app = App::new();
        app.handle_key(Key::Char('l'));
        app.handle_key(Key::Char(' '));
        app.game_state.entities[0].is_alive = false;
        app.app_state = end;
        assert!(app.handle_key(Key::Char('p')));
        assert_eq!(app.app_state, end);
        assert!(app.handle_key(Key::Char('r')));
        assert_eq!(app.app_state, AppState::Playing);
        assert_eq!(app.game_state.entities.len(), 4);
        assert_eq!(app.game_state.entities[0], Entity::new_player(0, 1, 1));
        assert_eq!(app.game_state.next_entity_id, 4);
        assert!(!app.should_quit);
    }
}

#[test]
fn without_a_player_the_move_keys_move_no_one() {
    let mut app = App::new();
    app.game_state = bmtui::state::GameState::from_layout(&["   ", " E ", "   "]);
    for key in [Key::Char('h'), Key::Char('j'), Key::Char('k'), Key::Char('l'), Key::Char(' ')] {
        assert!(app.handle_key(key));
        assert_eq!(app.game_state.entities.len(), 1);
        assert_eq!(app.game_state.entities[0], Entity::new_enemy(0, 1, 1));
    }
}
