use vstd::prelude::*;

verus! {

/// What can go wrong while a game is built or run.
#[derive(Clone, Copy, Debug, PartialEq, Eq, Structural)]
pub enum SimError {
    /// A training lane outside `0..5` was named.
    InvalidLane,
    /// The table of base values has no row for the lane and facility level.
    InvalidLevel,
    /// A person index outside the roster was named.
    InvalidPerson,
    /// The weights of a draw are negative, sum to zero or do not fit 32 bits.
    InvalidWeights,
    /// A support card has a type from which no person can be made.
    InvalidCard,
    /// No support card with the wanted id is on record.
    UnknownCard,
    /// No trainee with the wanted id is on record.
    UnknownUma,
    /// A turn outside the run was named.
    InvalidTurn,
    /// The trainer chose an action that is not on the list.
    InvalidSelection,
    /// The roster holds more persons than a 32-bit index can name.
    RosterTooLarge,
}

} // verus!
