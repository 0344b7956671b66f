//! A tile-grid arcade simulation: a player and enemies walk a grid of walls
//! and crates, bombs burn cross-shaped blasts into it, and blasts chain from
//! bomb to bomb. Every rule of the simulation is stated as a contract over a
//! mathematical model of the game and proved against the code that runs it.

pub mod blast;
pub mod chance;
pub mod components;
pub mod entity;
pub mod laws;
pub mod scene;
pub mod session;
pub mod stage;
pub mod state;
pub mod systems;
pub mod world;
