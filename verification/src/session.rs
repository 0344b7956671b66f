//! A session of play: whether the game runs, is paused or is over, and what
//! each key does in each of these.

use vstd::prelude::*;
use crate::blast::Drops;
use crate::components::Direction;
use crate::scene::Scene;
use crate::stage::default_layout;
use crate::state::GameState;

verus! {

/// Milliseconds of game time that one tick of a session advances.
pub const TICK_MS: u64 = 50;

/// Where a session stands.
#[derive(Debug, Clone, Copy, PartialEq, Eq, Structural)]
pub enum AppState {
    Playing,
    Paused,
    GameOver,
    Clear,
}

/// A key press, as far as a session tells keys apart.
#[derive(Debug, Clone, Copy, PartialEq, Eq)]
pub enum Key {
    Char(char),
    Esc,
    Other,
}

/// Whether the key ends the session: `q` and escape do, wherever the
/// session stands.
pub open spec fn quits(key: Key) -> bool {
    key == Key::Char('q') || key == Key::Esc
}

/// Where a session stands after a key: `p` pauses a running game and
/// resumes a paused one, `r` starts again once the game is over or
/// cleared, and no other key changes where the session stands.
pub open spec fn state_after_key(state: AppState, key: Key) -> AppState {
    match state {
        AppState::Playing => if key == Key::Char('p') {
            AppState::Paused
        } else {
            AppState::Playing
        },
        AppState::Paused => if key == Key::Char('p') {
            AppState::Playing
        } else {
            AppState::Paused
        },
        _ => if key == Key::Char('r') {
            AppState::Playing
        } else {
            state
        },
    }
}

/// The direction in which a key moves the player: `h` left, `j` down, `k`
/// up and `l` right.
pub open spec fn move_key(key: Key) -> Option<Direction> {
    if key == Key::Char('h') {
        Some(Direction::Left)
    } else if key == Key::Char('j') {
        Some(Direction::Down)
    } else if key == Key::Char('k') {
        Some(Direction::Up)
    } else if key == Key::Char('l') {
        Some(Direction::Right)
    } else {
        None
    }
}

/// The game after a key. While the game runs, `h`, `j`, `k` and `l` move
/// the player, if there is one, and the space bar places a bomb. Once the
/// game is over or cleared, `r` sets up the built-in stage anew. Nothing
/// else touches the game.
pub open spec fn scene_after_key(state: AppState, key: Key, scene: Scene) -> Scene {
    match state {
        AppState::Playing => if move_key(key) is Some && scene.player() is Some {
            scene.moved(scene.player_id as int, move_key(key)->0)
        } else if key == Key::Char(' ') {
            scene.with_bomb()
        } else {
            scene
        },
        AppState::Paused => scene,
        _ => if key == Key::Char('r') {
            Scene::from_layout(default_layout())
        } else {
            scene
        },
    }
}

/// Where a session stands once the game has advanced: the game is over
/// without a live player, cleared with a live player and no live enemy, and
/// goes on as before otherwise.
pub open spec fn state_after_tick(state: AppState, scene: Scene) -> AppState {
    if !scene.player_alive() {
        AppState::GameOver
    } else if scene.live_enemies() == 0 {
        AppState::Clear
    } else {
        state
    }
}

/// A session: the game, where the session stands, and whether it has been
/// asked to end.
pub struct App {
    pub should_quit: bool,
    pub game_state: GameState,
    pub app_state: AppState,
}

impl App {
    /// The game of the session is one that the game can be in.
    pub open spec fn wf(&self) -> bool {
        self.game_state.wf()
    }

    /// A session that runs the built-in stage.
    pub fn new() -> (app: Self)
        ensures
            app.wf(),
            !app.should_quit,
            app.app_state == AppState::Playing,
            app.game_state@ == Scene::from_layout(default_layout()),
    {
        Self { should_quit: false, game_state: GameState::new(), app_state: AppState::Playing }
    }

    /// Moves the player one cell in the given direction, if there is a
    /// player and the rules allow the move.
    fn move_player(&mut self, direction: Direction)
        requires
            old(self).wf(),
        ensures
            final(self).wf(),
            final(self).should_quit == old(self).should_quit,
            final(self).app_state == old(self).app_state,
            final(self).game_state@ == if old(self).game_state@.player() is Some {
                old(self).game_state@.moved(old(self).game_state.player_id as int, direction)
            } else {
                old(self).game_state@
            },
    {
        if self.game_state.get_player().is_some() {
            self.game_state.move_entity(self.game_state.player_id, direction);
        }
    }

    /// Takes a key press, and says whether the session goes on.
    pub fn handle_key(&mut self, key: Key) -> (goes_on: bool)
        requires
            old(self).wf(),
        ensures
            final(self).wf(),
            goes_on == !quits(key),
            final(self).should_quit == (old(self).should_quit || quits(key)),
            final(self).app_state == if quits(key) {
                old(self).app_state
            } else {
                state_after_key(old(self).app_state, key)
            },
            final(self).game_state@ == if quits(key) {
                old(self).game_state@
            } else {
                scene_after_key(old(self).app_state, key, old(self).game_state@)
            },
    {
        let c = match key {
            Key::Esc => {
                self.should_quit = true;
                return false;
            },
            Key::Other => {
                return true;
            },
            Key::Char(c) => c,
        };
        if c == 'q' {
            self.should_quit = true;
            return false;
        }
        match self.app_state {
            AppState::Playing => {
                if c == 'p' {
                    self.app_state = AppState::Paused;
                } else if c == 'h' {
                    self.move_player(Direction::Left);
                } else if c == 'j' {
                    self.move_player(Direction::Down);
                } else if c == 'k' {
                    self.move_player(Direction::Up);
                } else if c == 'l' {
                    self.move_player(Direction::Right);
                } else if c == ' ' {
                    self.game_state.place_bomb();
                }
            },
            AppState::Paused => {
                if c == 'p' {
                    self.app_state = AppState::Playing;
                }
            },
            AppState::GameOver | AppState::Clear => {
                if c == 'r' {
                    self.game_state = GameState::new();
                    self.app_state = AppState::Playing;
                }
            },
        }
        true
    }

    /// Advances a running game by one tick and looks at how it stands
    /// afterwards. Does nothing unless the game is running.
    pub fn tick(&mut self)
        requires
            old(self).wf(),
        ensures
            final(self).wf(),
            final(self).should_quit == old(self).should_quit,
            old(self).app_state != AppState::Playing ==> final(self).app_state == old(
                self,
            ).app_state && final(self).game_state@ == old(self).game_state@,
            old(self).app_state == AppState::Playing ==> final(self).app_state == state_after_tick(
                AppState::Playing,
                final(self).game_state@,
            ) && exists|steps: Seq<Direction>, drops: Seq<Seq<Drops>>|
                final(self).game_state@ == #[trigger] old(self).game_state@.ticked(
                    TICK_MS,
                    steps,
                    drops,
                ),
    {
        if self.app_state == AppState::Playing {
            self.game_state.tick(TICK_MS);
            self.update_game_state();
        }
    }

    /// Looks at how the game stands: over without a live player, cleared
    /// with a live player and no live enemy.
    pub fn update_game_state(&mut self)
        requires
            old(self).wf(),
        ensures
            final(self).wf(),
            final(self).should_quit == old(self).should_quit,
            final(self).game_state == old(self).game_state,
            final(self).app_state == state_after_tick(old(self).app_state, old(self).game_state@),
    {
        let player_alive = self.game_state.player_alive();
        let enemies_alive = self.game_state.alive_enemies();
        if !player_alive {
            self.app_state = AppState::GameOver;
        } else if enemies_alive == 0 {
            self.app_state = AppState::Clear;
        }
    }
}

} // verus!
