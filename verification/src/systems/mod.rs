//! The systems that a tick runs: the enemies' moves, the bombs and their
//! blasts, and the player's moves.

pub mod ai;
pub mod bomb;
pub mod movement;
