use vstd::prelude::*;
use rand::rngs::StdRng;
use crate::error::SimError;
use crate::game::state::BaseGame;
use crate::game::traits::ActionEnum;

verus! {

/// The moves that a trainer can make in a turn.
#[derive(Clone, Copy, Debug, PartialEq, Eq, Structural)]
pub enum BaseAction {
    /// Train on a lane, `0..=4`.
    Train(i32),
    /// Run a race.
    Race,
    /// Rest.
    Sleep,
    /// Go out with a friend.
    FriendOuting,
    /// Go out alone.
    NormalOuting,
    /// Visit the clinic.
    Clinic,
}

/// What each move does to the shared state. The basic game gives no move an
/// effect of its own: variants of the game build theirs on these.
impl BaseAction {
    /// Trains on a lane.
    pub fn do_train(game: &mut BaseGame, _train: i32, _rng: &mut StdRng) -> (r: Result<
        (),
        SimError,
    >)
        ensures
            r is Ok,
            *final(game) == *old(game),
    {
        Ok(())
    }

    /// Runs a race.
    pub fn do_race(game: &mut BaseGame, _rng: &mut StdRng) -> (r: Result<(), SimError>)
        ensures
            r is Ok,
            *final(game) == *old(game),
    {
        Ok(())
    }

    /// Rests.
    pub fn do_sleep(game: &mut BaseGame, _rng: &mut StdRng) -> (r: Result<(), SimError>)
        ensures
            r is Ok,
            *final(game) == *old(game),
    {
        Ok(())
    }

    /// Goes out with a friend.
    pub fn do_friend_outing(game: &mut BaseGame, _rng: &mut StdRng) -> (r: Result<(), SimError>)
        ensures
            r is Ok,
            *final(game) == *old(game),
    {
        Ok(())
    }

    /// Goes out alone.
    pub fn do_normal_outing(game: &mut BaseGame, _rng: &mut StdRng) -> (r: Result<(), SimError>)
        ensures
            r is Ok,
            *final(game) == *old(game),
    {
        Ok(())
    }

    /// Visits the clinic.
    pub fn do_clinic(game: &mut BaseGame, _rng: &mut StdRng) -> (r: Result<(), SimError>)
        ensures
            r is Ok,
            *final(game) == *old(game),
    {
        Ok(())
    }
}

impl ActionEnum for BaseAction {
    type Game = BaseGame;

    open spec fn base_action(&self) -> Option<BaseAction> {
        Some(*self)
    }

    fn as_base_action(&self) -> (r: Option<BaseAction>) {
        Some(*self)
    }

    /// Makes the move: each kind of move has its own handler.
    fn apply(&self, game: &mut BaseGame, rng: &mut StdRng) -> (r: Result<(), SimError>)
        ensures
            r is Ok,
            *final(game) == *old(game),
    {
        let r = match self {
            BaseAction::Train(train) => BaseAction::do_train(game, *train, rng),
            BaseAction::Race => BaseAction::do_race(game, rng),
            BaseAction::Sleep => BaseAction::do_sleep(game, rng),
            BaseAction::FriendOuting => BaseAction::do_friend_outing(game, rng),
            BaseAction::NormalOuting => BaseAction::do_normal_outing(game, rng),
            BaseAction::Clinic => BaseAction::do_clinic(game, rng),
        };
        assert(self.effect(old(game)@, r, game@));
        r
    }

    /// A basic move succeeds and leaves the game as it found it.
    open spec fn effect(
        &self,
        before: crate::game::model::GameView,
        r: Result<(), SimError>,
        after: crate::game::model::GameView,
    ) -> bool {
        r is Ok && after == before
    }
}

} // verus!
