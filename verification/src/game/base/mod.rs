//! The basic game, without a scenario.

pub mod action;
pub mod basic;
