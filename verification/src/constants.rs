//! Build-time configuration of the game core.

use vstd::prelude::*;

verus! {

/// Default arena width, in cells, wall cells included.
pub const ARENA_WIDTH_BLOCKS: u32 = 20;

/// Default arena height, in cells, wall cells included.
pub const ARENA_HEIGHT_BLOCKS: u32 = 15;

/// Time budget per simulation step at the start of a game.
pub const INITIAL_STEP_DURATION: u32 = 500;

/// Lower clamp of the step duration: the worm never moves faster than this.
pub const MIN_STEP_DURATION: u32 = 100;

/// How much the step duration shrinks with each apple eaten.
pub const STEP_DURATION_DECREMENT: u32 = 10;

/// Number of apples kept on the arena at all times.
pub const APPLE_COUNT: usize = 1;

/// Dividend of the score formula: eating an apple is worth
/// `SCORE_BASE / step_duration` points.
pub const SCORE_BASE: u32 = 5000;

/// Blink interval of the start screen animation.
pub const START_SCREEN_SPEED: u32 = 250;

/// Delay before the game-over animation starts consuming worm segments.
pub const GAME_OVER_SCREEN_DELAY: u32 = 1000;

/// Blink interval of the game-over screen animation.
pub const GAME_OVER_SCREEN_SPEED: u32 = 100;

/// How long the game-over screen stays up before returning to the start
/// screen on its own.
pub const GAME_OVER_SCREEN_DURATION: u32 = 15000;

} // verus!
