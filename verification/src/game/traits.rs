use vstd::prelude::*;
use rand::rngs::StdRng;
use crate::error::SimError;
use crate::game::base::action::BaseAction;
use crate::game::card::{CardTrainingEffect, SupportCard};
use crate::game::events::{event_counts, EventLog};
use crate::game::model::{
    empty_lanes, event_strikes, int_weights_usable, lane_weight, lanes_view,
    lemma_step_counts_down, partners_in, spread_rank, GameView, PersonType, PersonView,
};
use crate::game::sampling::{pick_weights, random_below, WeightedPick};
use crate::game::training::{training_result, training_value};
use crate::game::spread::{
    absent_rate, lane_part, lemma_draw_error_ignores_lanes, lemma_join_keeps_lanes_wf,
    lemma_join_keeps_one_lane_each, lemma_lane_part_usable, lemma_stood_before,
    lemma_weights_match, person_weights, spread_order, ABSENT, MAX_RETRIES,
};
use crate::game::uma::Uma;
use crate::gamedata::{ActionValue, EventData, GameConstants};

verus! {

/// A person that can be spread over the training lanes. Its view is what
/// the spreading reads of it.
pub trait Person: Sized + View<V = PersonView> {
    /// The kind of the person.
    fn person_type(&self) -> (r: PersonType)
        ensures
            r == self@.person_type,
    ;

    /// The person's place in the roster.
    fn person_index(&self) -> (r: i32)
        ensures
            r == self@.person_index,
    ;

    /// The lane that the person favours, `0..=4`; 5 and more for none.
    fn train_type(&self) -> (r: i32)
        ensures
            r == self@.train_type,
    ;

    /// Rapport with the trainee.
    fn friendship(&self) -> (r: i32)
        ensures
            r == self@.friendship,
    ;

    /// Whether the person counts as a friend, of which a lane takes one.
    fn is_friend(&self) -> (r: bool)
        ensures
            r == self@.is_friend(),
    {
        let kind = self.person_type();
        self.train_type() > 4 || kind == PersonType::Reporter || kind == PersonType::Yayoi
    }
}

/// What the spreading reads of each person of a roster.
pub open spec fn person_views<P: Person>(persons: Seq<P>) -> Seq<PersonView> {
    Seq::new(persons.len(), |i: int| persons[i]@)
}

/// A move that changes a game.
pub trait ActionEnum: Sized {
    /// The game that the move is made in.
    type Game: View<V = GameView>;

    /// The basic move that this move stands for, if it is one.
    spec fn base_action(&self) -> Option<BaseAction>;

    /// The basic move that this move stands for, if it is one.
    fn as_base_action(&self) -> (r: Option<BaseAction>)
        ensures
            r == self.base_action(),
    ;

    /// Makes the move. Whatever a move does to the game, it leaves turn and
    /// stage alone: only `Game::next` moves the run on.
    fn apply(&self, game: &mut Self::Game, rng: &mut StdRng) -> (r: Result<(), SimError>)
        ensures
            final(game)@.same_clock(old(game)@),
            self.effect(old(game)@, r, final(game)@),
    ;

    /// What making the move may return and make of a game: whether the move,
    /// made in the state `before`, can return `r` and leave the state `after`.
    spec fn effect(&self, before: GameView, r: Result<(), SimError>, after: GameView) -> bool;
}

/// A policy that picks the moves of a game of type `G` with moves of type `A`.
pub trait Trainer<G, A> {
    /// Picks one of `actions` by its index.
    fn select_action(&self, game: &G, actions: &[A], rng: &mut StdRng) -> (r: Result<
        usize,
        SimError,
    >);

    /// Picks one of `choices` by its index.
    fn select_choice(&self, game: &G, choices: &[ActionValue], rng: &mut StdRng) -> (r: Result<
        usize,
        SimError,
    >);
}

/// A game: the run through turns and stages, the spreading of persons over
/// the lanes, and the value of a training. A variant of the game supplies
/// its state and its stages; the rules that all variants share are provided.
pub trait Game: Sized + Clone + View<V = GameView> {
    type Person: Person;

    type Action: ActionEnum<Game = Self>;

    /// The running turn.
    fn turn(&self) -> (r: i32)
        ensures
            r == self@.turn,
    ;

    /// The last turn.
    fn max_turn(&self) -> (r: i32)
        ensures
            r == self@.max_turn,
    ;

    /// Moves on to the next stage, or to the first stage of the next turn.
    /// Returns `false`, and changes nothing, when the run is over.
    fn next(&mut self) -> (r: bool)
        ensures
            r == !old(self)@.finished(),
            final(self)@ == old(self)@.advance(),
    ;

    /// Runs the stage that the game is in. A stage does not move the run on.
    fn run_stage<T: Trainer<Self, Self::Action>>(&mut self, trainer: &T, rng: &mut StdRng) -> (r:
        Result<(), SimError>)
        ensures
            final(self)@.same_clock(old(self)@),
            Self::stage_step(old(self)@, r, final(self)@),
    ;

    /// What running a stage may return and make of a game: whether the stage
    /// that the state `before` is in can return `r` and leave the state
    /// `after`, whatever the trainer and the draws.
    spec fn stage_step(before: GameView, r: Result<(), SimError>, after: GameView) -> bool;

    /// The moves that are legal now.
    fn list_actions(&self) -> (r: Result<Vec<Self::Action>, SimError>);

    /// The events that may strike now.
    fn list_events(&self) -> (r: Vec<EventData>);

    /// Fills the roster. Persons are only added at its end: who is in the
    /// roster keeps its place.
    fn init_persons(&mut self) -> (r: Result<(), SimError>)
        ensures
            final(self)@.same_clock(old(self)@),
            old(self)@.persons.is_prefix_of(final(self)@.persons),
    ;

    /// The distribution, drawn as a table for reading.
    fn explain_distribution(&self) -> (r: String);

    /// How often each event has struck.
    fn events(&self) -> (r: &EventLog)
        ensures
            event_counts(*r) == self@.events,
    ;

    /// The event counts, to change them.
    fn event_mut(&mut self) -> (r: &mut EventLog)
        ensures
            event_counts(*r) == old(self)@.events,
            final(self)@ == (GameView { events: event_counts(*final(r)), ..old(self)@ }),
    ;

    /// The roster.
    fn persons(&self) -> (r: &[Self::Person])
        ensures
            person_views(r@) == self@.persons,
    ;

    /// The persons in each lane.
    fn distribution(&self) -> (r: &Vec<Vec<i32>>)
        ensures
            lanes_view(*r) == self@.distribution,
    ;

    /// The lanes, to change them.
    fn distribution_mut(&mut self) -> (r: &mut Vec<Vec<i32>>)
        ensures
            lanes_view(*r) == old(self)@.distribution,
            final(self)@ == old(self)@.with_distribution(lanes_view(*final(r))),
    ;

    /// What is taken off the weight of staying away.
    fn absent_rate_drop(&self) -> (r: i32)
        ensures
            r == self@.absent_rate_drop,
    ;

    /// The favor weight of a person: what its own lane weighs more than the
    /// others when the person is spread.
    fn deyilv(&self, person_index: i32) -> (r: Result<i32, SimError>)
        ensures
            r == self@.favor_of(person_index as int),
    ;

    /// Whether team cards shine.
    fn has_group_buff(&self) -> (r: bool)
        ensures
            r == self@.group_buff,
    ;

    /// The facility level of a lane.
    fn train_level(&self, train: usize) -> (r: usize)
        requires
            train < 5,
        ensures
            r == self@.train_level@[train as int],
    ;

    /// The trainee.
    fn uma(&self) -> (r: &Uma)
        ensures
            *r == self@.uma,
    ;

    /// The trainee, to change it.
    fn uma_mut(&mut self) -> (r: &mut Uma)
        ensures
            *r == old(self)@.uma,
            final(self)@ == (GameView { uma: *final(r), ..old(self)@ }),
    ;

    /// The deck of support cards.
    fn deck(&self) -> (r: &Vec<SupportCard>)
        ensures
            r@ == self@.deck,
    ;

    /// Runs the game to its end: the running stage, then stage after stage
    /// until `next` finds the run over. The first stage that fails ends the
    /// run with its error.
    fn run_simulate<T: Trainer<Self, Self::Action>>(&mut self, trainer: &T, rng: &mut StdRng) -> (r:
        Result<(), SimError>)
        ensures
            final(self)@.max_turn == old(self)@.max_turn,
            final(self)@.steps_left() <= old(self)@.steps_left(),
            r is Ok ==> final(self)@.finished() && final(self)@.same_clock(old(self)@.run_end()),
            is_run(
                |before: GameView, staged: Result<(), SimError>, mid: GameView|
                    Self::stage_step(before, staged, mid),
                old(self)@,
                r,
                final(self)@,
            ),
    {
        let ghost start = self@;
        let ghost step = |before: GameView, staged: Result<(), SimError>, mid: GameView|
            Self::stage_step(before, staged, mid);
        let first = self.run_stage(trainer, rng);
        proof {
            assert(step(start, first, self@));
        }
        if let Err(e) = first {
            return Err(e);
        }
        loop
            invariant
                start == old(self)@,
                self@.max_turn == start.max_turn,
                self@.steps_left() <= start.steps_left(),
                self@.run_end().same_clock(start.run_end()),
                step == (|before: GameView, staged: Result<(), SimError>, mid: GameView|
                    Self::stage_step(before, staged, mid)),
                forall|r: Result<(), SimError>, after: GameView| #[trigger]
                    is_rest_of_run(step, self@, r, after) ==> is_run(step, start, r, after),
            ensures
                self@.finished(),
            decreases self@.steps_left(),
        {
            let ghost here = self@;
            if !self.next() {
                break ;
            }
            proof {
                lemma_step_counts_down(here);
            }
            let ghost staged = self@;
            let next = self.run_stage(trainer, rng);
            proof {
                assert(step(staged, next, self@));
            }
            match next {
                Ok(_) => {
                    proof {
                        let mid = self@;
                        assert forall|r: Result<(), SimError>, after: GameView| #[trigger]
                            is_rest_of_run(step, mid, r, after) implies is_run(
                            step,
                            start,
                            r,
                            after,
                        ) by {
                            assert(is_run(step, staged, r, after));
                            assert(is_rest_of_run(step, here, r, after));
                        }
                    }
                },
                Err(e) => {
                    proof {
                        assert(is_run(step, staged, Err(e), self@));
                        assert(is_rest_of_run(step, here, Err(e), self@));
                    }
                    return Err(e);
                },
            }
        }
        proof {
            assert(is_rest_of_run(step, self@, Ok::<(), SimError>(()), self@));
        }
        Ok(())
    }

    /// Lets an event strike or pass: rolls a number below a hundred and, if
    /// the event strikes on it, counts the event and adds its bonus to the
    /// trainee. Returns whether the event struck.
    fn apply_event(&mut self, event: &EventData, rng: &mut StdRng) -> (r: Result<bool, SimError>)
        ensures
            r matches Ok(struck) && final(self)@ == (if struck {
                old(self)@.struck_by(*event)
            } else {
                old(self)@
            }),
            event.trigger_prob >= 100 ==> r == Ok::<bool, SimError>(true),
            event.trigger_prob <= 0 ==> r == Ok::<bool, SimError>(false),
    {
        let roll: usize = random_below(rng, 100);
        if strikes(event.trigger_prob, roll) {
            let ghost before = self@;
            self.event_mut().record(event.id);
            self.uma_mut().apply_action(&event.bonus);
            assert(self@.events =~= before.struck_by(*event).events);
            Ok(true)
        } else {
            Ok(false)
        }
    }

    /// Makes a move: the game is changed as the move changes it, and what
    /// the move returns is returned.
    fn apply_action(&mut self, action: &Self::Action, rng: &mut StdRng) -> (r: Result<
        (),
        SimError,
    >)
        ensures
            final(self)@.same_clock(old(self)@),
            action.effect(old(self)@, r, final(self)@),
    {
        action.apply(self, rng)
    }

    /// Empties the five lanes.
    fn reset_distribution(&mut self)
        ensures
            final(self)@ == old(self)@.with_distribution(empty_lanes()),
            final(self)@.lanes_wf(),
            final(self)@.in_one_lane_each(),
    {
        let lanes = self.distribution_mut();
        lanes.clear();
        let mut i: usize = 0;
        while i < 5
            invariant
                i <= 5,
                lanes@.len() == i,
                forall|l: int| 0 <= l < i ==> (#[trigger] lanes@[l])@ =~= Seq::<i32>::empty(),
            decreases 5 - i,
        {
            lanes.push(Vec::new());
            i += 1;
        }
        assert(lanes_view(*lanes) =~= empty_lanes());
    }

    /// Whether lane `train` takes the person: it has room, the person is not
    /// in it, and the person is no second friend there.
    fn can_join(&self, train: usize, person_index: i32) -> (r: bool)
        requires
            self@.lanes_wf(),
            self@.valid_person(person_index as int),
            train < 5,
        ensures
            r == self@.accepts(train as int, person_index),
    {
        let lanes = self.distribution();
        let persons = self.persons();
        let lane = &lanes[train];
        assert(lane@ == self@.distribution[train as int]);
        assert(self@.lane_wf(lane@));
        if lane.len() >= 5 {
            return false;
        }
        assert(persons@[person_index as int]@ == self@.persons[person_index as int]);
        let friend = persons[person_index as usize].is_friend();
        let mut k: usize = 0;
        while k < lane.len()
            invariant
                k <= lane@.len(),
                lane@ == self@.distribution[train as int],
                self@.lane_wf(lane@),
                person_views(persons@) == self@.persons,
                train < 5,
                self@.distribution.len() == 5,
                friend == self@.persons[person_index as int].is_friend(),
                forall|j: int| 0 <= j < k ==> lane@[j] != person_index,
                forall|j: int|
                    0 <= j < k ==> !(friend && (#[trigger] self@.persons[lane@[j] as int]).is_friend()),
            decreases lane@.len() - k,
        {
            let other: i32 = lane[k];
            assert(self@.valid_person(lane@[k as int] as int));
            if other == person_index {
                assert(lane@.contains(person_index));
                return false;
            }
            assert(persons@[other as int]@ == self@.persons[other as int]);
            if friend && persons[other as usize].is_friend() {
                assert(self@.has_friend(lane@));
                return false;
            }
            k += 1;
        }
        true
    }

    /// Places one person of the roster: draws whether it stays away and, if
    /// not, draws lanes until one takes it, ten times at most. Returns the
    /// lane, or `ABSENT` for a person that stays away or finds no lane.
    fn distribute_person(&mut self, person_index: i32, allow_absent: bool, rng: &mut StdRng) -> (r:
        Result<i32, SimError>)
        requires
            old(self)@.lanes_wf(),
        ensures
            final(self)@.lanes_wf(),
            old(self)@.placement(person_index, allow_absent, r, final(self)@),
    {
        let ghost before = self@;
        if person_index < 0 || person_index as usize >= self.persons().len() {
            return Err(SimError::InvalidPerson);
        }
        let person = &self.persons()[person_index as usize];
        assert(person@ == before.persons[person_index as int]);
        let kind = person.person_type();
        let train_type: i32 = person.train_type();
        let absent: i64 = absent_rate(kind, self.absent_rate_drop(), allow_absent);
        let mut favor: i32 = 0;
        if 0 <= train_type && train_type <= 4 {
            favor = self.deyilv(person_index)?;
        }
        assert(favor == before.lane_favor(person_index as int));
        let weights = match person_weights(train_type, favor, absent) {
            Some(w) => w,
            None => {
                assert(!int_weights_usable(
                    before.draw_weights(person_index as int, allow_absent),
                )) by {
                    let named = before.draw_weights(person_index as int, allow_absent);
                    if !(i32::MIN <= absent <= i32::MAX) {
                        assert(named[5] == absent);
                    } else {
                        assert(named[train_type as int] == 100 + favor);
                    }
                }
                return Err(SimError::InvalidWeights);
            },
        };
        proof {
            lemma_weights_match(before, person_index as int, allow_absent, weights@);
        }
        let first = match WeightedPick::new(&weights) {
            Ok(pick) => pick,
            Err(_) => {
                return Err(SimError::InvalidWeights);
            },
        };
        let lane_weights = lane_part(&weights);
        proof {
            lemma_lane_part_usable(weights@, train_type as int, favor as int);
        }
        let second = match WeightedPick::new(&lane_weights) {
            Ok(pick) => pick,
            Err(_) => {
                return Err(SimError::InvalidWeights);
            },
        };
        if first.sample(rng) == 5 {
            return Ok(ABSENT);
        }
        let mut retries: u32 = 0;
        while retries < MAX_RETRIES
            invariant
                self@ == before,
                before == old(self)@,
                before.lanes_wf(),
                before.valid_person(person_index as int),
                before.draw_error(person_index as int, allow_absent) is None,
                weights@.len() == 6,
                pick_weights(second) == weights@.take(5),
                forall|i: int|
                    0 <= i < 5 ==> #[trigger] weights@[i] == lane_weight(
                        i,
                        before.persons[person_index as int].train_type as int,
                        before.lane_favor(person_index as int),
                    ),
                retries > 0 ==> !before.every_open_lane_accepts(person_index),
            decreases MAX_RETRIES - retries,
        {
            let train = second.sample(rng);
            retries += 1;
            assert(weights@.take(5)[train as int] == weights@[train as int]);
            if self.can_join(train, person_index) {
                let lanes = self.distribution_mut();
                lanes[train].push(person_index);
                proof {
                    assert(lanes_view(*lanes) =~= before.distribution.update(
                        train as int,
                        before.distribution[train as int].push(person_index),
                    ));
                    lemma_join_keeps_lanes_wf(before, train as int, person_index);
                }
                return Ok(train as i32);
            }
        }
        Ok(ABSENT)
    }

    /// Spreads the whole roster anew: empties the lanes, then places the
    /// persons kind by kind, so that the kinds that come first find room first.
    fn distribute_all(&mut self, rng: &mut StdRng) -> (r: Result<(), SimError>)
        ensures
            old(self)@.spread_outcome(r, final(self)@),
    {
        let ghost start = self@;
        self.reset_distribution();
        let count: usize = self.persons().len();
        if count > 2147483647 {
            return Err(SimError::RosterTooLarge);
        }
        let order = spread_order();
        let mut t: usize = 0;
        while t < 6
            invariant
                0 <= t <= 6,
                start == old(self)@,
                self@ == start.with_distribution(self@.distribution),
                self@.lanes_wf(),
                self@.in_one_lane_each(),
                self@.in_spread_order(),
                count == start.persons.len(),
                count <= i32::MAX,
                forall|k: int| 0 <= k < 6 ==> spread_rank(#[trigger] order@[k]) == k,
                forall|l: int, k: int|
                    0 <= l < 5 && 0 <= k < self@.distribution[l].len() ==> start.spread_done(
                        t as int,
                        0,
                        #[trigger] self@.distribution[l][k] as int,
                    ),
                forall|p: int|
                    start.valid_person(p) && start.spread_done(t as int, 0, p)
                        ==> #[trigger] start.draw_error(p, true) is None,
            decreases 6 - t,
        {
            let kind = order[t];
            let mut i: usize = 0;
            while i < count
                invariant
                    0 <= t < 6,
                    0 <= i <= count,
                    start == old(self)@,
                    self@ == start.with_distribution(self@.distribution),
                    self@.lanes_wf(),
                    self@.in_one_lane_each(),
                    self@.in_spread_order(),
                    count == start.persons.len(),
                    count <= i32::MAX,
                    spread_rank(kind) == t,
                    forall|l: int, k: int|
                        0 <= l < 5 && 0 <= k < self@.distribution[l].len() ==> start.spread_done(
                            t as int,
                            i as int,
                            #[trigger] self@.distribution[l][k] as int,
                        ),
                    forall|p: int|
                        start.valid_person(p) && start.spread_done(t as int, i as int, p)
                            ==> #[trigger] start.draw_error(p, true) is None,
                decreases count - i,
            {
                let persons = self.persons();
                assert(persons@[i as int]@ == start.persons[i as int]);
                if persons[i].person_type() == kind {
                    let ghost before = self@;
                    proof {
                        lemma_draw_error_ignores_lanes(start, before.distribution, i as int, true);
                        assert forall|l: int| 0 <= l < 5 implies !(
                        #[trigger] before.distribution[l]).contains(i as i32) by {
                            if before.distribution[l].contains(i as i32) {
                                let k = choose|k: int|
                                    0 <= k < before.distribution[l].len()
                                        && before.distribution[l][k] == i as i32;
                                assert(start.spread_done(
                                    t as int,
                                    i as int,
                                    before.distribution[l][k] as int,
                                ));
                            }
                        }
                    }
                    match self.distribute_person(i as i32, true, rng) {
                        Ok(lane) => {
                            proof {
                                if lane != ABSENT {
                                    lemma_join_keeps_one_lane_each(before, lane as int, i as i32);
                                    assert forall|l: int, j: int, k: int|
                                        0 <= l < 5 && 0 <= j < k < self@.distribution[l].len() implies self@.spread_before(
                                        #[trigger] self@.distribution[l][j] as int,
                                        #[trigger] self@.distribution[l][k] as int,
                                    ) by {
                                        if l == lane && k == before.distribution[l].len() {
                                            assert(start.spread_done(
                                                t as int,
                                                i as int,
                                                before.distribution[l][j] as int,
                                            ));
                                        } else {
                                            assert(before.spread_before(
                                                before.distribution[l][j] as int,
                                                before.distribution[l][k] as int,
                                            ));
                                        }
                                    }
                                    assert forall|l: int, k: int|
                                        0 <= l < 5 && 0 <= k < self@.distribution[l].len() implies start.spread_done(
                                        t as int,
                                        i + 1,
                                        #[trigger] self@.distribution[l][k] as int,
                                    ) by {
                                        let q = self@.distribution[l][k];
                                        assert(self@.distribution[l].contains(q));
                                        lemma_stood_before(before, lane as int, i as i32, l, q);
                                        if before.distribution[l].contains(q) {
                                            let j = choose|j: int|
                                                0 <= j < before.distribution[l].len()
                                                    && before.distribution[l][j] == q;
                                            assert(start.spread_done(
                                                t as int,
                                                i as int,
                                                before.distribution[l][j] as int,
                                            ));
                                        }
                                    }
                                }
                            }
                        },
                        Err(e) => {
                            assert(start.draw_error(i as int, true) == Some(e));
                            assert forall|q: int|
                                start.valid_person(q) && start.spread_before(
                                    q,
                                    i as int,
                                ) implies #[trigger] start.draw_error(q, true) is None by {
                                assert(start.spread_done(t as int, i as int, q));
                            }
                            return Err(e);
                        },
                    }
                }
                i += 1;
            }
            t += 1;
        }
        Ok(())
    }

    /// For each lane, whether the person stands in it.
    fn at_trains(&self, person_index: i32) -> (r: Vec<bool>)
        ensures
            r@.len() == self@.distribution.len(),
            forall|l: int|
                0 <= l < r@.len() ==> #[trigger] r@[l] == self@.distribution[l].contains(
                    person_index,
                ),
    {
        let lanes = self.distribution();
        let mut found: Vec<bool> = Vec::new();
        let mut l: usize = 0;
        while l < lanes.len()
            invariant
                l <= lanes@.len(),
                lanes_view(*lanes) == self@.distribution,
                found@.len() == l,
                forall|j: int|
                    0 <= j < l ==> #[trigger] found@[j] == self@.distribution[j].contains(
                        person_index,
                    ),
            decreases lanes@.len() - l,
        {
            assert(lanes@[l as int]@ == self@.distribution[l as int]);
            found.push(holds(&lanes[l], person_index));
            l += 1;
        }
        found
    }

    /// Whether a person shines on a lane it would stand in.
    fn is_shining_at(&self, person_index: usize, train: usize) -> (r: bool)
        requires
            person_index < self@.persons.len(),
        ensures
            r == self@.shines(person_index as int, train as int),
    {
        let person = &self.persons()[person_index];
        assert(person@ == self@.persons[person_index as int]);
        match person.person_type() {
            PersonType::Card => {
                let own: i32 = person.train_type();
                own >= 0 && own as usize == train && person.friendship() >= 80
            },
            PersonType::TeamCard => self.has_group_buff(),
            _ => false,
        }
    }

    /// How many of the persons in a lane shine there.
    fn shining_count(&self, train: usize) -> (r: usize)
        requires
            self@.lanes_wf(),
            train < 5,
        ensures
            r == self@.shining_in(self@.distribution[train as int], train as int),
    {
        let lane = &self.distribution()[train];
        assert(lane@ == self@.distribution[train as int]);
        assert(self@.lane_wf(lane@));
        let mut count: usize = 0;
        let mut k: usize = 0;
        while k < lane.len()
            invariant
                k <= lane@.len(),
                lane@.len() <= 5,
                self@.lane_wf(lane@),
                count <= k,
                count == self@.shining_in(lane@.take(k as int), train as int),
            decreases lane@.len() - k,
        {
            assert(lane@.take(k + 1).drop_last() =~= lane@.take(k as int));
            assert(self@.valid_person(lane@[k as int] as int));
            if self.is_shining_at(lane[k] as usize, train) {
                count += 1;
            }
            k += 1;
        }
        assert(lane@.take(k as int) =~= lane@);
        count
    }

    /// The bonuses that the deck cards in a lane lend to its training,
    /// summed; a card lends its friendship bonus only where it shines.
    fn calc_training_buff(&self, train: usize) -> (r: Result<CardTrainingEffect, SimError>)
        requires
            self@.lanes_wf(),
        ensures
            r == (if train >= 5 {
                Err::<CardTrainingEffect, SimError>(SimError::InvalidLane)
            } else {
                Ok::<CardTrainingEffect, SimError>(
                    self@.lane_effect(self@.distribution[train as int], train as int),
                )
            }),
    {
        if train >= 5 {
            return Err(SimError::InvalidLane);
        }
        let mut total = CardTrainingEffect::default();
        let lane = &self.distribution()[train];
        let deck = self.deck();
        assert(lane@ == self@.distribution[train as int]);
        assert(self@.lane_wf(lane@));
        let mut k: usize = 0;
        while k < lane.len()
            invariant
                k <= lane@.len(),
                self@.lane_wf(lane@),
                deck@ == self@.deck,
                total == self@.lane_effect(lane@.take(k as int), train as int),
            decreases lane@.len() - k,
        {
            assert(lane@.take(k + 1).drop_last() =~= lane@.take(k as int));
            assert(self@.valid_person(lane@[k as int] as int));
            let index: i32 = lane[k];
            if index < 6 && (index as usize) < deck.len() {
                let mut effect = deck[index as usize].effect;
                if !self.is_shining_at(index as usize, train) {
                    effect.youqing = 0;
                }
                total = total.add(&effect);
            }
            k += 1;
        }
        assert(lane@.take(k as int) =~= lane@);
        Ok(total)
    }

    /// The value of a training on a lane with the bonuses `buffs`: what the
    /// lane gives at its facility level to the trainee, with the partners that
    /// stand in it.
    fn calc_training_value(&self, cons: &GameConstants, buffs: &CardTrainingEffect, train: usize) -> (r:
        Result<ActionValue, SimError>)
        requires
            self@.distribution.len() == 5,
        ensures
            r == (if train >= 5 {
                Err::<ActionValue, SimError>(SimError::InvalidLane)
            } else {
                training_result(
                    *cons,
                    train as int,
                    self@.train_level@[train as int] as int,
                    partners_in(self@.distribution[train as int]) as int,
                    *buffs,
                    self@.uma,
                )
            }),
    {
        if train >= 5 {
            return Err(SimError::InvalidLane);
        }
        let level: usize = self.train_level(train);
        let lane = &self.distribution()[train];
        assert(lane@ == self@.distribution[train as int]);
        let count: usize = partners(lane);
        training_value(cons, train, level, count, buffs, self.uma())
    }
}

/// What running one stage may return and make of a game: whether the stage
/// of the first state can return the result and leave the second state.
pub type StageRule = spec_fn(GameView, Result<(), SimError>, GameView) -> bool;

/// Whether a run from the state `before` can return `r` and leave the state
/// `after`, where `step` says what a stage can do. The stage that the state is
/// in is run. If it fails, its error is the result and the game is left as
/// the stage left it. Else, if the run is over, the result is `Ok`; if it is
/// not, the run moves one step on and goes on from there.
pub open spec fn is_run(
    step: StageRule,
    before: GameView,
    r: Result<(), SimError>,
    after: GameView,
) -> bool
    decreases before.steps_left(), 1int,
{
    exists|staged: Result<(), SimError>, mid: GameView|
        {
            &&& #[trigger] step(before, staged, mid)
            &&& mid.same_clock(before)
            &&& if staged is Err {
                r == staged && after == mid
            } else {
                is_rest_of_run(step, mid, r, after)
            }
        }
}

/// Whether a run whose stage in the state `mid` is through can return `r` and
/// leave the state `after`: it is over and returns `Ok`, or it moves one step
/// on and runs from there.
pub open spec fn is_rest_of_run(
    step: StageRule,
    mid: GameView,
    r: Result<(), SimError>,
    after: GameView,
) -> bool
    decreases mid.steps_left(), 0int,
{
    if mid.finished() {
        r is Ok && after == mid
    } else {
        is_run(step, mid.advance(), r, after)
    }
}

/// Whether `person_index` stands in `lane`.
pub fn holds(lane: &Vec<i32>, person_index: i32) -> (r: bool)
    ensures
        r == lane@.contains(person_index),
{
    let mut k: usize = 0;
    while k < lane.len()
        invariant
            k <= lane@.len(),
            forall|j: int| 0 <= j < k ==> lane@[j] != person_index,
        decreases lane@.len() - k,
    {
        if lane[k] == person_index {
            return true;
        }
        k += 1;
    }
    false
}

/// Counts the partners of a training among the persons in `lane`.
pub fn partners(lane: &Vec<i32>) -> (r: usize)
    ensures
        r == partners_in(lane@),
{
    let mut count: usize = 0;
    let mut k: usize = 0;
    while k < lane.len()
        invariant
            k <= lane@.len(),
            count <= k,
            count == partners_in(lane@.take(k as int)),
        decreases lane@.len() - k,
    {
        assert(lane@.take(k + 1).drop_last() =~= lane@.take(k as int));
        if lane[k] != 6 && lane[k] != 7 {
            count += 1;
        }
        k += 1;
    }
    assert(lane@.take(k as int) =~= lane@);
    count
}

/// Decides whether an event with the chance `trigger_prob` strikes on the
/// roll `roll`.
pub fn strikes(trigger_prob: i32, roll: usize) -> (r: bool)
    ensures
        r == event_strikes(trigger_prob as int, roll as int),
{
    trigger_prob >= 100 || (trigger_prob > 0 && roll < trigger_prob as usize)
}

} // verus!
