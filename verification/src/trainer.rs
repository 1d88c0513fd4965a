use vstd::prelude::*;
use rand::rngs::StdRng;
use crate::error::SimError;
use crate::game::base::action::BaseAction;
use crate::game::sampling::{random_below, shuffle};
use crate::game::traits::{ActionEnum, Game, Trainer};
use crate::game::uma::Uma;
use crate::gamedata::ActionValue;

verus! {

/// The vitality below which the trainee should rest.
pub const REST_BELOW: i32 = 45;

/// The best motivation.
pub const BEST_MOTIVATION: i32 = 5;

/// A trainer without a plan: it looks at the moves in a random order and
/// takes the first that suits the state of the trainee.
pub struct RandomTrainer;

/// Whether a move suits the trainee: rest for one low on vitality, else an
/// outing for one short of the best motivation, else a training.
pub open spec fn suits(uma: Uma, action: Option<BaseAction>) -> bool {
    if uma.vital < REST_BELOW {
        action == Some(BaseAction::Sleep)
    } else if uma.motivation < BEST_MOTIVATION {
        action == Some(BaseAction::NormalOuting) || action == Some(BaseAction::FriendOuting)
    } else {
        action matches Some(BaseAction::Train(_))
    }
}

/// Whether `choice` is what the trainer may pick among `actions`: a move
/// that suits the trainee if there is one, else the first move.
pub open spec fn is_pick<A: ActionEnum>(uma: Uma, actions: Seq<A>, choice: usize) -> bool {
    if exists|k: int| 0 <= k < actions.len() && suits(uma, (#[trigger] actions[k]).base_action()) {
        choice < actions.len() && suits(uma, actions[choice as int].base_action())
    } else {
        choice == 0
    }
}

/// Decides whether a move suits the trainee.
pub fn is_suited(uma: &Uma, action: Option<BaseAction>) -> (r: bool)
    ensures
        r == suits(*uma, action),
{
    if uma.vital < REST_BELOW {
        match action {
            Some(BaseAction::Sleep) => true,
            _ => false,
        }
    } else if uma.motivation < BEST_MOTIVATION {
        match action {
            Some(BaseAction::NormalOuting) => true,
            Some(BaseAction::FriendOuting) => true,
            _ => false,
        }
    } else {
        match action {
            Some(BaseAction::Train(_)) => true,
            _ => false,
        }
    }
}

/// The indices below `n`, in order.
pub fn indices(n: usize) -> (r: Vec<usize>)
    ensures
        r@.len() == n,
        forall|k: int| 0 <= k < n ==> #[trigger] r@[k] == k,
{
    let mut all: Vec<usize> = Vec::new();
    let mut i: usize = 0;
    while i < n
        invariant
            i <= n,
            all@.len() == i,
            forall|k: int| 0 <= k < i ==> #[trigger] all@[k] == k,
        decreases n - i,
    {
        all.push(i);
        i += 1;
    }
    all
}

/// A list that holds the same values as the indices below `n`, however
/// often, holds each index below `n` and nothing else.
pub proof fn lemma_shuffled_indices(before: Seq<usize>, after: Seq<usize>, n: int)
    requires
        before.len() == n,
        forall|k: int| 0 <= k < n ==> #[trigger] before[k] == k,
        after.to_multiset() == before.to_multiset(),
    ensures
        forall|k: int| 0 <= k < after.len() ==> #[trigger] after[k] < n,
        forall|v: usize| 0 <= v < n ==> #[trigger] after.contains(v),
{
    before.to_multiset_ensures();
    after.to_multiset_ensures();
    assert forall|k: int| 0 <= k < after.len() implies #[trigger] after[k] < n by {
        let v = after[k];
        assert(after.contains(v));
        assert(after.to_multiset().count(v) > 0);
        assert(before.contains(v));
        let j = choose|j: int| 0 <= j < before.len() && before[j] == v;
        assert(before[j] == j);
    }
    assert forall|v: usize| 0 <= v < n implies #[trigger] after.contains(v) by {
        assert(before[v as int] == v);
        assert(before.contains(v));
        assert(before.to_multiset().count(v) > 0);
    }
}

impl<G: Game> Trainer<G, G::Action> for RandomTrainer {
    /// Picks a move that suits the trainee, at random among those that do;
    /// the first move if none does.
    fn select_action(&self, game: &G, actions: &[G::Action], rng: &mut StdRng) -> (r: Result<
        usize,
        SimError,
    >)
        ensures
            r matches Ok(choice) && is_pick(game@.uma, actions@, choice),
    {
        let mut order = indices(actions.len());
        let ghost sorted = order@;
        shuffle(&mut order, rng);
        proof {
            lemma_shuffled_indices(sorted, order@, actions@.len() as int);
        }
        let uma = game.uma();
        let mut k: usize = 0;
        while k < order.len()
            invariant
                k <= order@.len(),
                *uma == game@.uma,
                forall|j: int| 0 <= j < order@.len() ==> #[trigger] order@[j] < actions@.len(),
                forall|v: usize| 0 <= v < actions@.len() ==> #[trigger] order@.contains(v),
                forall|j: int|
                    0 <= j < k ==> !suits(*uma, actions@[(#[trigger] order@[j]) as int].base_action()),
            decreases order@.len() - k,
        {
            let i: usize = order[k];
            if is_suited(uma, actions[i].as_base_action()) {
                return Ok(i);
            }
            k += 1;
        }
        proof {
            assert forall|v: int| 0 <= v < actions@.len() implies !suits(
                *uma,
                (#[trigger] actions@[v]).base_action(),
            ) by {
                assert(order@.contains(v as usize));
                let j = choose|j: int| 0 <= j < order@.len() && order@[j] == v as usize;
                assert(!suits(*uma, actions@[order@[j] as int].base_action()));
            }
        }
        Ok(0)
    }

    /// Picks one of the choices at random; there is none to pick from an
    /// empty list.
    fn select_choice(&self, game: &G, choices: &[ActionValue], rng: &mut StdRng) -> (r: Result<
        usize,
        SimError,
    >)
        ensures
            match r {
                Ok(choice) => choice < choices@.len(),
                Err(e) => choices@.len() == 0 && e == SimError::InvalidSelection,
            },
    {
        if choices.len() == 0 {
            return Err(SimError::InvalidSelection);
        }
        Ok(random_below(rng, choices.len()))
    }
}

} // verus!
