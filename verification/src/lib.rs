//! Core simulation of a typing-combat arcade game.
//!
//! Words fall from the top of a playfield attached to enemies; the player
//! types the displayed characters to destroy enemies with thrown projectiles
//! before any enemy crosses a defeat line.  This crate holds the verified
//! gameplay logic: difficulty progression, enemy spawning and reproduction,
//! keystroke-driven target acquisition and word matching, projectile
//! trajectory and collision, score/combo/bonus accounting, and the defeat
//! check.  Rendering, audio and window plumbing are left to the caller.
//!
//! All on-screen lengths are carried as integers in tenths of a pixel, and
//! the bonus ratio in tenths of a unit, so that every formula is exact.

pub mod defeat_zone;
pub mod enemy;
pub mod input;
pub mod penguins;
pub mod player;
pub mod rng;
pub mod sim;
pub mod stage;
pub mod words;
