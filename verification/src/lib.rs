//! Verified core of a snake-style arcade game: a worm moves on a bounded
//! grid, eats apples that appear at random free interior cells, grows and
//! accelerates with each apple, and dies on wall or self collision.
//!
//! The crate holds the tick-based simulation engine ([`game::Game`]) and the
//! application state machine that sequences the start screen, play and the
//! game-over screen ([`app`]). Rendering and input backends live outside and
//! talk to this crate through plain values.

pub mod app;
pub mod constants;
pub mod game;
pub mod rng;
pub mod text;
