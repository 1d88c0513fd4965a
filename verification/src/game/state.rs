use vstd::prelude::*;
use crate::error::SimError;
use crate::game::card::SupportCard;
use crate::game::events::{event_counts, EventLog};
use crate::game::model::{empty_lanes, lanes_view, GameView, PersonView, TurnStage};
use crate::game::uma::{Uma, MAX_TURN};
use crate::gamedata::GameData;
use crate::utils::{Array5, Array6};

verus! {

/// How far outings with the friend have come.
#[derive(Clone, Copy, Debug, PartialEq, Eq, Structural)]
pub enum FriendOutState {
    /// Outings with the friend are not open yet.
    BeforeUnlock,
    /// Outings with the friend are open.
    AfterUnlock,
}

/// What the game keeps about the friend.
#[derive(Clone, Copy, Debug, PartialEq, Eq)]
pub struct FriendState {
    /// How far outings with the friend have come.
    pub out_state: FriendOutState,
    /// Which of the five outings with the friend are used up.
    pub out_used: [bool; 5],
    /// For how many turns team cards still shine.
    pub group_buff_turn: i32,
}

/// What the trainee inherits at the start of a run.
#[derive(Clone, Copy, Debug, PartialEq, Eq)]
pub struct InheritInfo {
    /// Inherited factors of the five stats.
    pub blue_count: Array5,
    /// Further inherited gains of the five stats and of skill points.
    pub extra_count: Array6,
}

/// The facility level that a count of trainings stands for: one level for
/// every four trainings. A negative count stands for no level at all.
pub open spec fn facility_level(count: i32) -> usize {
    if count >= 0 {
        (count / 4 + 1) as usize
    } else {
        usize::MAX
    }
}

/// The state that all variants of the game share.
#[derive(Debug)]
pub struct BaseGame {
    /// The running turn.
    pub turn: i32,
    /// The running stage of the turn.
    pub stage: TurnStage,
    /// The trainee.
    pub uma: Uma,
    /// The deck of support cards.
    pub deck: Vec<SupportCard>,
    /// How often each event has struck.
    pub events: EventLog,
    /// The persons in each of the five lanes.
    pub distribution: Vec<Vec<i32>>,
    /// What is taken off the weight of staying away.
    pub absent_rate_drop: i32,
    /// What the game keeps about the friend.
    pub friend: FriendState,
    /// How often each lane has been trained on.
    pub train_level_count: Array5,
    /// What the trainee inherited at the start.
    pub inherit: InheritInfo,
}

impl View for BaseGame {
    type V = GameView;

    /// The shared state as a game without a roster.
    open spec fn view(&self) -> GameView {
        GameView {
            turn: self.turn,
            max_turn: MAX_TURN,
            stage: self.stage,
            persons: Seq::<PersonView>::empty(),
            favor: Seq::<i32>::empty(),
            distribution: lanes_view(self.distribution),
            absent_rate_drop: self.absent_rate_drop,
            group_buff: self.friend.group_buff_turn > 0,
            train_level: [
                facility_level(self.train_level_count@[0]),
                facility_level(self.train_level_count@[1]),
                facility_level(self.train_level_count@[2]),
                facility_level(self.train_level_count@[3]),
                facility_level(self.train_level_count@[4]),
            ],
            uma: self.uma,
            deck: self.deck@,
            events: event_counts(self.events),
            friend: self.friend,
            train_level_count: self.train_level_count,
            inherit: self.inherit,
        }
    }
}

/// Copies the lanes with everybody in them.
pub fn copy_lanes(lanes: &Vec<Vec<i32>>) -> (r: Vec<Vec<i32>>)
    ensures
        lanes_view(r) == lanes_view(*lanes),
{
    let mut copy: Vec<Vec<i32>> = Vec::new();
    let mut l: usize = 0;
    while l < lanes.len()
        invariant
            l <= lanes@.len(),
            copy@.len() == l,
            forall|a: int| 0 <= a < l ==> (#[trigger] copy@[a])@ == lanes@[a]@,
        decreases lanes@.len() - l,
    {
        let lane = &lanes[l];
        let mut there: Vec<i32> = Vec::new();
        let mut k: usize = 0;
        while k < lane.len()
            invariant
                k <= lane@.len(),
                there@ == lane@.take(k as int),
            decreases lane@.len() - k,
        {
            there.push(lane[k]);
            assert(lane@.take(k as int).push(lane@[k as int]) =~= lane@.take(k + 1));
            k += 1;
        }
        assert(lane@.take(k as int) =~= lane@);
        copy.push(there);
        l += 1;
    }
    assert(lanes_view(copy) =~= lanes_view(*lanes));
    copy
}

/// Copies a deck.
pub fn copy_deck(deck: &Vec<SupportCard>) -> (r: Vec<SupportCard>)
    ensures
        r@ == deck@,
{
    let mut copy: Vec<SupportCard> = Vec::new();
    let mut k: usize = 0;
    while k < deck.len()
        invariant
            k <= deck@.len(),
            copy@ == deck@.take(k as int),
        decreases deck@.len() - k,
    {
        copy.push(deck[k]);
        assert(deck@.take(k as int).push(deck@[k as int]) =~= deck@.take(k + 1));
        k += 1;
    }
    assert(deck@.take(k as int) =~= deck@);
    copy
}

impl Clone for BaseGame {
    /// A game of its own in the same state.
    fn clone(&self) -> (r: BaseGame)
        ensures
            r@ == self@,
    {
        BaseGame {
            turn: self.turn,
            stage: self.stage,
            uma: self.uma,
            deck: copy_deck(&self.deck),
            events: self.events.duplicate(),
            distribution: copy_lanes(&self.distribution),
            absent_rate_drop: self.absent_rate_drop,
            friend: self.friend,
            train_level_count: self.train_level_count,
            inherit: self.inherit,
        }
    }
}

impl BaseGame {
    /// Whether `deck` holds the cards on record for `deck_ids`, in order.
    pub open spec fn is_deck_of(deck: Seq<SupportCard>, data: GameData, deck_ids: [u32; 6]) -> bool {
        &&& deck.len() == 6
        &&& forall|i: int| 0 <= i < 6 ==> data.card_of(deck_ids@[i]) == Some(#[trigger] deck[i])
    }

    /// Whether a game is as a run starts: first stage of turn 0, the trainee
    /// and the deck as they are on record, empty lanes, no event counted yet.
    pub open spec fn is_start_of(
        self,
        data: GameData,
        uma_id: u32,
        deck_ids: [u32; 6],
        inherit: InheritInfo,
    ) -> bool {
        &&& self.turn == 0
        &&& self.stage == TurnStage::Begin
        &&& data.uma_of(uma_id) == Some(self.uma)
        &&& Self::is_deck_of(self.deck@, data, deck_ids)
        &&& event_counts(self.events) == Map::<u32, u32>::empty()
        &&& lanes_view(self.distribution) == empty_lanes()
        &&& self.absent_rate_drop == 0
        &&& self.friend.out_state == FriendOutState::BeforeUnlock
        &&& self.friend.group_buff_turn == 0
        &&& forall|i: int| 0 <= i < 5 ==> !#[trigger] self.friend.out_used@[i]
        &&& forall|i: int| 0 <= i < 5 ==> #[trigger] self.train_level_count@[i] == 0
        &&& self.inherit == inherit
    }

    /// Why no game can start with these ids, if none can: the trainee is not
    /// on record, or one of the cards is not.
    pub open spec fn start_error(data: GameData, uma_id: u32, deck_ids: [u32; 6]) -> Option<
        SimError,
    > {
        if data.uma_of(uma_id) is None {
            Some(SimError::UnknownUma)
        } else if exists|i: int| 0 <= i < 6 && data.card_of(#[trigger] deck_ids@[i]) is None {
            Some(SimError::UnknownCard)
        } else {
            None
        }
    }

    /// Starts a run with a trainee and six support cards, each named by id.
    pub fn new(data: &GameData, uma_id: u32, deck_ids: &[u32; 6], inherit: InheritInfo) -> (r:
        Result<BaseGame, SimError>)
        ensures
            match r {
                Ok(game) => Self::start_error(*data, uma_id, *deck_ids) is None && game.is_start_of(
                    *data,
                    uma_id,
                    *deck_ids,
                    inherit,
                ),
                Err(e) => Self::start_error(*data, uma_id, *deck_ids) == Some(e),
            },
    {
        let uma = match data.find_uma(uma_id) {
            Some(uma) => uma,
            None => {
                return Err(SimError::UnknownUma);
            },
        };
        let mut deck: Vec<SupportCard> = Vec::new();
        let mut i: usize = 0;
        while i < 6
            invariant
                i <= 6,
                deck@.len() == i,
                data.uma_of(uma_id) == Some(uma),
                forall|k: int| 0 <= k < i ==> data.card_of(deck_ids@[k]) == Some(#[trigger] deck@[k]),
            decreases 6 - i,
        {
            match data.find_card(deck_ids[i]) {
                Some(card) => {
                    deck.push(card);
                },
                None => {
                    assert(data.card_of(deck_ids@[i as int]) is None);
                    return Err(SimError::UnknownCard);
                },
            }
            i += 1;
        }
        let mut distribution: Vec<Vec<i32>> = Vec::new();
        let mut l: usize = 0;
        while l < 5
            invariant
                l <= 5,
                distribution@.len() == l,
                forall|k: int| 0 <= k < l ==> (#[trigger] distribution@[k])@ =~= Seq::<i32>::empty(),
            decreases 5 - l,
        {
            distribution.push(Vec::new());
            l += 1;
        }
        assert(lanes_view(distribution) =~= empty_lanes());
        assert forall|k: int| 0 <= k < 6 implies !(data.card_of(#[trigger] deck_ids@[k]) is None) by {
            assert(data.card_of(deck_ids@[k]) == Some(deck@[k]));
        }
        Ok(
            BaseGame {
                turn: 0,
                stage: TurnStage::Begin,
                uma,
                deck,
                events: EventLog::new(),
                distribution,
                absent_rate_drop: 0,
                friend: FriendState {
                    out_state: FriendOutState::BeforeUnlock,
                    out_used: [false, false, false, false, false],
                    group_buff_turn: 0,
                },
                train_level_count: [0, 0, 0, 0, 0],
                inherit,
            },
        )
    }
}

} // verus!
