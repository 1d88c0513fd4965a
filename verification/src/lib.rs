//! A turn-by-turn simulation of a training career.
//!
//! Helpers are spread at random over five training lanes, a lane's helpers
//! and bonuses are turned into a gain of stats, and a trainer picks one legal
//! action each turn. Every function of this crate is verified with Verus;
//! the few items that call into other crates state what is taken on trust.

pub mod error;
pub mod explain;
pub mod game;
pub mod gamedata;
pub mod table;
pub mod text;
pub mod trainer;
pub mod utils;
