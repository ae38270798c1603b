//! Game logic and music arithmetic for a small micro:bit shooter game.
//!
//! The library holds the verified logic: note timing and pitch frequencies,
//! the game state machine and the rendering of the game onto the 5x5 LED
//! matrix. Board access (buttons, speaker, display, timer) lives in the
//! application around it.

pub mod music;
pub mod game;
pub mod enemies;
pub mod pattern;
