use vstd::prelude::*;
use crate::error::SimError;
use crate::game::card::{CardTrainingEffect, SupportCard};
use crate::game::events::next_count;
use crate::gamedata::EventData;
use crate::game::sampling::weights_usable;
use crate::game::state::{FriendState, InheritInfo};
use crate::utils::Array5;
use crate::game::uma::Uma;

verus! {

/// What kind of person attends a training.
#[derive(Clone, Copy, Debug, PartialEq, Eq, Structural)]
pub enum PersonType {
    /// A support card of the deck with a lane of its own.
    Card,
    /// A team card of the deck.
    TeamCard,
    /// The scenario's own card.
    ScenarioCard,
    /// A character without a card.
    Npc,
    /// The reporter.
    Reporter,
    /// The director.
    Yayoi,
}

/// The stages of one turn, in the order in which they are run.
#[derive(Clone, Copy, Debug, PartialEq, Eq, Structural)]
pub enum TurnStage {
    /// The turn opens.
    Begin,
    /// Persons are spread over the lanes.
    Distribute,
    /// The trainer picks an action and it is applied.
    Train,
    /// The turn closes.
    End,
}

impl TurnStage {
    /// The stage that follows, if the turn has one more.
    pub open spec fn successor(self) -> Option<TurnStage> {
        match self {
            TurnStage::Begin => Some(TurnStage::Distribute),
            TurnStage::Distribute => Some(TurnStage::Train),
            TurnStage::Train => Some(TurnStage::End),
            TurnStage::End => None,
        }
    }

    /// How many stages of the turn come after this one.
    pub open spec fn stages_after(self) -> nat {
        match self {
            TurnStage::Begin => 3,
            TurnStage::Distribute => 2,
            TurnStage::Train => 1,
            TurnStage::End => 0,
        }
    }

    /// The stage that follows, if the turn has one more.
    pub fn next(&self) -> (r: Option<TurnStage>)
        ensures
            r == self.successor(),
    {
        match self {
            TurnStage::Begin => Some(TurnStage::Distribute),
            TurnStage::Distribute => Some(TurnStage::Train),
            TurnStage::Train => Some(TurnStage::End),
            TurnStage::End => None,
        }
    }
}

/// Stages in one turn.
pub const STAGES_PER_TURN: usize = 4;

/// What the spreading and the trainings read of a person.
pub struct PersonView {
    pub person_type: PersonType,
    pub person_index: i32,
    pub train_type: i32,
    pub friendship: i32,
}

impl PersonView {
    /// Whether the person counts as a friend, of which a lane takes one:
    /// it has no lane of its own, or is the reporter or the director.
    pub open spec fn is_friend(self) -> bool {
        self.train_type > 4 || self.person_type == PersonType::Reporter || self.person_type
            == PersonType::Yayoi
    }

    /// Whether the person favours one of the five lanes.
    pub open spec fn has_lane(self) -> bool {
        0 <= self.train_type <= 4
    }
}

/// Place in the order in which the kinds of persons are spread: kinds that
/// come first take their places first.
pub open spec fn spread_rank(kind: PersonType) -> int {
    match kind {
        PersonType::Yayoi => 0,
        PersonType::Reporter => 1,
        PersonType::ScenarioCard => 2,
        PersonType::TeamCard => 3,
        PersonType::Card => 4,
        PersonType::Npc => 5,
    }
}

/// The weight of staying away from all lanes.
pub open spec fn absent_weight(kind: PersonType, absent_rate_drop: int, allow_absent: bool) -> int {
    if !allow_absent {
        0
    } else {
        match kind {
            PersonType::Card => 50 - absent_rate_drop,
            PersonType::Yayoi | PersonType::Reporter => 200,
            _ => 100 - absent_rate_drop,
        }
    }
}

/// The weight of one lane for a person: 100, and on the person's own lane
/// the favor weight on top.
pub open spec fn lane_weight(lane: int, train_type: int, favor: int) -> int {
    if 0 <= train_type <= 4 && lane == train_type {
        100 + favor
    } else {
        100
    }
}

/// The mathematical state of a game: what the contracts of every game
/// variant speak about.
pub struct GameView {
    /// The running turn.
    pub turn: i32,
    /// The last turn.
    pub max_turn: i32,
    /// The running stage of the turn.
    pub stage: TurnStage,
    /// The roster; a person is named by its place in it.
    pub persons: Seq<PersonView>,
    /// The favor weight of each person of the roster.
    pub favor: Seq<i32>,
    /// The persons in each of the five lanes.
    pub distribution: Seq<Seq<i32>>,
    /// What is taken off the weight of staying away.
    pub absent_rate_drop: i32,
    /// Whether team cards shine.
    pub group_buff: bool,
    /// The facility level of each lane.
    pub train_level: [usize; 5],
    /// The trainee.
    pub uma: Uma,
    /// The deck of support cards.
    pub deck: Seq<SupportCard>,
    /// How often each event has struck.
    pub events: Map<u32, u32>,
    /// What the game keeps about the friend.
    pub friend: FriendState,
    /// How often each lane has been trained on.
    pub train_level_count: Array5,
    /// What the trainee inherited at the start.
    pub inherit: InheritInfo,
}

impl GameView {
    /// Whether `p` names a person of the roster.
    pub open spec fn valid_person(self, p: int) -> bool {
        0 <= p < self.persons.len()
    }

    /// Whether one of the persons in `lane` counts as a friend.
    pub open spec fn has_friend(self, lane: Seq<i32>) -> bool {
        exists|k: int| 0 <= k < lane.len() && (#[trigger] self.persons[lane[k] as int]).is_friend()
    }

    /// The invariant of one lane: at most five persons, each of the roster,
    /// none twice, and at most one friend.
    pub open spec fn lane_wf(self, lane: Seq<i32>) -> bool {
        &&& lane.len() <= 5
        &&& forall|k: int| 0 <= k < lane.len() ==> self.valid_person(#[trigger] lane[k] as int)
        &&& forall|j: int, k: int| 0 <= j < k < lane.len() ==> lane[j] != lane[k]
        &&& forall|j: int, k: int|
            0 <= j < k < lane.len() ==> !((#[trigger] self.persons[lane[j] as int]).is_friend() && (
            #[trigger] self.persons[lane[k] as int]).is_friend())
    }

    /// The invariant of the distribution: five lanes, each well formed.
    pub open spec fn lanes_wf(self) -> bool {
        &&& self.distribution.len() == 5
        &&& forall|l: int| 0 <= l < 5 ==> self.lane_wf(#[trigger] self.distribution[l])
    }

    /// Whether no person stands in two lanes.
    pub open spec fn in_one_lane_each(self) -> bool {
        forall|p: i32, a: int, b: int|
            0 <= a < b < self.distribution.len() ==> !(#[trigger] self.distribution[a].contains(p)
                && #[trigger] self.distribution[b].contains(p))
    }

    /// Whether lane `lane` takes person `p`: it has room, `p` is not in it,
    /// and `p` is no second friend there.
    pub open spec fn accepts(self, lane: int, p: i32) -> bool {
        let there = self.distribution[lane];
        &&& there.len() < 5
        &&& !there.contains(p)
        &&& !(self.persons[p as int].is_friend() && self.has_friend(there))
    }

    /// The state with person `p` added at the end of lane `lane`.
    pub open spec fn with_person_in(self, lane: int, p: i32) -> GameView {
        GameView {
            distribution: self.distribution.update(lane, self.distribution[lane].push(p)),
            ..self
        }
    }

    /// The state with another distribution.
    pub open spec fn with_distribution(self, distribution: Seq<Seq<i32>>) -> GameView {
        GameView { distribution, ..self }
    }

    /// The favor weight of person `p`, where the roster has one for it.
    pub open spec fn favor_of(self, p: int) -> Result<i32, SimError> {
        if 0 <= p < self.favor.len() {
            Ok(self.favor[p])
        } else {
            Err(SimError::InvalidPerson)
        }
    }

    /// The favor weight that counts for person `p`: its own where it favours
    /// a lane, none otherwise.
    pub open spec fn lane_favor(self, p: int) -> int {
        if self.persons[p].has_lane() && 0 <= p < self.favor.len() {
            self.favor[p] as int
        } else {
            0
        }
    }

    /// The six weights of the first draw for person `p`: the five lanes, then
    /// staying away.
    pub open spec fn draw_weights(self, p: int, allow_absent: bool) -> Seq<int> {
        let person = self.persons[p];
        Seq::new(
            6,
            |i: int|
                if i < 5 {
                    lane_weight(i, person.train_type as int, self.lane_favor(p))
                } else {
                    absent_weight(person.person_type, self.absent_rate_drop as int, allow_absent)
                },
        )
    }

    /// Why person `p` cannot be drawn for, if it cannot: it is not of the
    /// roster, it favours a lane and has no favor weight, or its weights are
    /// not usable.
    pub open spec fn draw_error(self, p: int, allow_absent: bool) -> Option<SimError> {
        if !self.valid_person(p) {
            Some(SimError::InvalidPerson)
        } else if self.persons[p].has_lane() && self.favor_of(p) is Err {
            Some(SimError::InvalidPerson)
        } else if !int_weights_usable(self.draw_weights(p, allow_absent)) {
            Some(SimError::InvalidWeights)
        } else {
            None
        }
    }

    /// Whether every lane that can be drawn for person `p` takes it.
    pub open spec fn every_open_lane_accepts(self, p: i32) -> bool {
        forall|l: int|
            0 <= l < 5 && lane_weight(
                l,
                self.persons[p as int].train_type as int,
                self.lane_favor(p as int),
            ) > 0 ==> #[trigger] self.accepts(l, p)
    }

    /// Whether person `p` shines on lane `train`: a card does on its own lane
    /// once rapport has reached 80, a team card while the team bonus runs,
    /// nobody else.
    pub open spec fn shines(self, p: int, train: int) -> bool {
        let person = self.persons[p];
        match person.person_type {
            PersonType::Card => person.train_type == train && person.friendship >= 80,
            PersonType::TeamCard => self.group_buff,
            _ => false,
        }
    }

    /// How many of the persons in `lane` shine on lane `train`.
    pub open spec fn shining_in(self, lane: Seq<i32>, train: int) -> nat
        decreases lane.len(),
    {
        if lane.len() == 0 {
            0
        } else {
            self.shining_in(lane.drop_last(), train) + if self.shines(lane.last() as int, train) {
                1nat
            } else {
                0nat
            }
        }
    }

    /// Whether person `p` is one of the six cards of the deck.
    pub open spec fn is_deck_card(self, p: int) -> bool {
        0 <= p < 6 && p < self.deck.len()
    }

    /// What the card of person `p` lends on lane `train`: its effect, with the
    /// friendship bonus only where the person shines.
    pub open spec fn card_effect(self, p: int, train: int) -> CardTrainingEffect {
        if self.shines(p, train) {
            self.deck[p].effect
        } else {
            self.deck[p].effect.without_friendship()
        }
    }

    /// The effects of the deck cards among the persons in `lane`, summed in
    /// the order in which they stand there.
    pub open spec fn lane_effect(self, lane: Seq<i32>, train: int) -> CardTrainingEffect
        decreases lane.len(),
    {
        if lane.len() == 0 {
            CardTrainingEffect::nothing()
        } else {
            let rest = self.lane_effect(lane.drop_last(), train);
            if self.is_deck_card(lane.last() as int) {
                rest.plus(self.card_effect(lane.last() as int, train))
            } else {
                rest
            }
        }
    }

    /// The state after `event` has struck: it is counted once more and its
    /// bonus is added to the trainee.
    pub open spec fn struck_by(self, event: EventData) -> GameView {
        GameView {
            events: self.events.insert(
                event.id,
                next_count(
                    if self.events.dom().contains(event.id) {
                        Some(self.events[event.id])
                    } else {
                        None
                    },
                ),
            ),
            uma: self.uma.gained(event.bonus),
            ..self
        }
    }

    /// The state at the end of the run that this state is in.
    pub open spec fn run_end(self) -> GameView {
        GameView {
            turn: if self.turn < self.max_turn {
                self.max_turn
            } else {
                self.turn
            },
            stage: TurnStage::End,
            ..self
        }
    }

    /// Whether the run is over: the last stage of the last turn is reached.
    pub open spec fn finished(self) -> bool {
        self.stage.successor() is None && self.turn >= self.max_turn
    }

    /// The state one step on: the next stage, or the first stage of the next
    /// turn; a finished run stays as it is.
    pub open spec fn advance(self) -> GameView {
        match self.stage.successor() {
            Some(stage) => GameView { stage, ..self },
            None => if self.turn < self.max_turn {
                GameView { turn: (self.turn + 1) as i32, stage: TurnStage::Begin, ..self }
            } else {
                self
            },
        }
    }

    /// How many steps the run has left.
    pub open spec fn steps_left(self) -> nat {
        if self.turn < self.max_turn {
            ((self.max_turn - self.turn) * STAGES_PER_TURN + self.stage.stages_after()) as nat
        } else {
            self.stage.stages_after()
        }
    }

    /// The state `n` steps on.
    pub open spec fn after_steps(self, n: nat) -> GameView
        decreases n,
    {
        if n == 0 {
            self
        } else {
            self.advance().after_steps((n - 1) as nat)
        }
    }

    /// Whether `other` is at the same place of the run: turn, stage and last
    /// turn agree.
    pub open spec fn same_clock(self, other: GameView) -> bool {
        &&& self.turn == other.turn
        &&& self.stage == other.stage
        &&& self.max_turn == other.max_turn
    }
}

/// How many of the persons in `lane` count as partners of a training: all
/// but the director and the reporter, who stand at places 6 and 7.
pub open spec fn partners_in(lane: Seq<i32>) -> nat
    decreases lane.len(),
{
    if lane.len() == 0 {
        0
    } else {
        partners_in(lane.drop_last()) + if lane.last() != 6 && lane.last() != 7 {
            1nat
        } else {
            0nat
        }
    }
}

/// Whether an event with the chance `trigger_prob` strikes on the roll
/// `roll` out of a hundred: always from a chance of 100 on, else when the
/// roll is below the chance.
pub open spec fn event_strikes(trigger_prob: int, roll: int) -> bool {
    trigger_prob >= 100 || roll < trigger_prob
}

/// A step of a run that is not over leaves one step less.
pub proof fn lemma_step_counts_down(v: GameView)
    requires
        !v.finished(),
    ensures
        v.advance().steps_left() + 1 == v.steps_left(),
        v.advance().max_turn == v.max_turn,
        v.advance().run_end().same_clock(v.run_end()),
{
}

/// A run is over exactly when it has no step left.
pub proof fn lemma_finished_means_no_step_left(v: GameView)
    ensures
        v.finished() <==> v.steps_left() == 0,
{
}

/// Each step of a run takes one off the steps that are left.
pub proof fn lemma_steps_count_down(v: GameView, n: nat)
    requires
        n <= v.steps_left(),
    ensures
        v.after_steps(n).steps_left() == v.steps_left() - n,
        v.after_steps(n).max_turn == v.max_turn,
    decreases n,
{
    if n > 0 {
        lemma_steps_count_down(v.advance(), (n - 1) as nat);
    }
}

/// A run comes to its end. From any state, `next` moves the run on exactly
/// `steps_left` times and then finds it over: the states before that are not
/// finished, the state after it is, and it is the last stage of the last
/// turn. A run that starts within its turns takes at most four steps for
/// each of its `max_turn + 1` turns, less the stage that it starts in; the
/// turn itself moves on `max_turn - turn` times.
pub proof fn lemma_run_ends(v: GameView)
    ensures
        forall|k: nat| k < v.steps_left() ==> !(#[trigger] v.after_steps(k)).finished(),
        v.after_steps(v.steps_left()).finished(),
        v.after_steps(v.steps_left()) == v.run_end(),
        0 <= v.turn <= v.max_turn ==> v.steps_left() <= STAGES_PER_TURN * (v.max_turn + 1) - 1,
        0 <= v.turn <= v.max_turn ==> v.run_end().turn - v.turn <= v.max_turn,
{
    assert forall|k: nat| k < v.steps_left() implies !(#[trigger] v.after_steps(k)).finished() by {
        lemma_steps_count_down(v, k);
        lemma_finished_means_no_step_left(v.after_steps(k));
    }
    lemma_steps_count_down(v, v.steps_left());
    lemma_finished_means_no_step_left(v.after_steps(v.steps_left()));
    lemma_steps_reach_end(v, v.steps_left());
    if 0 <= v.turn <= v.max_turn {
        assert(STAGES_PER_TURN * (v.max_turn - v.turn) <= STAGES_PER_TURN * v.max_turn)
            by (nonlinear_arith)
            requires
                0 <= v.turn <= v.max_turn,
        ;
    }
}

/// The steps of a run do not change where it ends.
proof fn lemma_steps_reach_end(v: GameView, n: nat)
    requires
        n <= v.steps_left(),
    ensures
        v.after_steps(n).run_end() == v.run_end(),
        n == v.steps_left() ==> v.after_steps(n) == v.run_end(),
    decreases n,
{
    if n > 0 {
        lemma_steps_reach_end(v.advance(), (n - 1) as nat);
    }
}

/// The persons in each lane, lane by lane.
pub open spec fn lanes_view(lanes: Vec<Vec<i32>>) -> Seq<Seq<i32>> {
    Seq::new(lanes@.len(), |l: int| lanes@[l]@)
}

/// Five lanes without anybody in them.
pub open spec fn empty_lanes() -> Seq<Seq<i32>> {
    Seq::new(5, |l: int| Seq::<i32>::empty())
}

/// Whether a list of weights, taken as integers, can be drawn from: each
/// weight fits 32 bits and the list is usable.
pub open spec fn int_weights_usable(weights: Seq<int>) -> bool {
    &&& forall|i: int| 0 <= i < weights.len() ==> i32::MIN <= #[trigger] weights[i] <= i32::MAX
    &&& weights_usable(Seq::new(weights.len(), |i: int| weights[i] as i32))
}

} // verus!
