use vstd::prelude::*;
use rand::rngs::StdRng;
use crate::error::SimError;
use crate::game::base::action::BaseAction;
use crate::game::card::SupportCard;
use crate::game::events::{event_counts, EventLog};
use crate::game::model::{empty_lanes, lanes_view, GameView, TurnStage};
use crate::game::person::BasePerson;
use crate::game::state::{BaseGame, FriendOutState, FriendState, InheritInfo};
use crate::game::traits::{person_views, ActionEnum, Game, Person, Trainer};
use crate::game::uma::{Uma, MAX_TURN};
use crate::gamedata::{EventData, GameData};
use crate::table::{render_table, table_text};

verus! {

/// A move of the basic game: one of the basic moves.
#[derive(Clone, Copy, Debug, PartialEq, Eq, Structural)]
pub struct BasicAction(pub BaseAction);

impl ActionEnum for BasicAction {
    type Game = BasicGame;

    open spec fn base_action(&self) -> Option<BaseAction> {
        Some(self.0)
    }

    fn as_base_action(&self) -> (r: Option<BaseAction>) {
        Some(self.0)
    }

    /// Makes the move on the shared state of the game.
    fn apply(&self, game: &mut BasicGame, rng: &mut StdRng) -> (r: Result<(), SimError>)
        ensures
            r is Ok,
            *final(game) == *old(game),
    {
        let r = self.0.apply(&mut game.base, rng);
        assert(self.effect(old(game)@, r, game@));
        r
    }

    /// The move does what the basic move does that it stands for.
    open spec fn effect(&self, before: GameView, r: Result<(), SimError>, after: GameView) -> bool {
        self.0.effect(before, r, after)
    }
}

impl core::ops::Deref for BasicAction {
    type Target = BaseAction;

    fn deref(&self) -> (r: &BaseAction)
        ensures
            *r == self.0,
    {
        &self.0
    }
}

/// The basic game: the shared state and a roster, without a scenario.
#[derive(Debug)]
pub struct BasicGame {
    /// The state that all variants share.
    pub base: BaseGame,
    /// The roster; each person stands at the place that its index names.
    pub persons: Vec<BasePerson>,
}

impl core::ops::Deref for BasicGame {
    type Target = BaseGame;

    fn deref(&self) -> (r: &BaseGame)
        ensures
            *r == self.base,
    {
        &self.base
    }
}

impl Clone for BasicGame {
    /// A game of its own in the same state.
    fn clone(&self) -> (r: BasicGame)
        ensures
            r@ == self@,
            r.persons@ == self.persons@,
    {
        let mut persons: Vec<BasePerson> = Vec::new();
        let mut k: usize = 0;
        while k < self.persons.len()
            invariant
                k <= self.persons@.len(),
                persons@ == self.persons@.take(k as int),
            decreases self.persons@.len() - k,
        {
            persons.push(self.persons[k]);
            assert(self.persons@.take(k as int).push(self.persons@[k as int]) =~= self.persons@.take(
                k + 1,
            ));
            k += 1;
        }
        assert(self.persons@.take(k as int) =~= self.persons@);
        let r = BasicGame { base: self.base.clone(), persons };
        assert(r@.favor =~= self@.favor);
        r
    }
}

/// The favor weight of the person at place `i` of the roster: that of its
/// card for the six places of the deck, none for the others.
pub open spec fn favor_at(deck: Seq<SupportCard>, i: int) -> i32 {
    if 0 <= i < 6 && i < deck.len() {
        deck[i].effect.deyilv
    } else {
        0
    }
}

impl View for BasicGame {
    type V = GameView;

    open spec fn view(&self) -> GameView {
        GameView {
            persons: person_views(self.persons@),
            favor: Seq::new(self.persons@.len(), |i: int| favor_at(self.base.deck@, i)),
            ..self.base@
        }
    }
}

/// The five trainings, lane by lane.
pub open spec fn trainings() -> Seq<BasicAction> {
    seq![
        BasicAction(BaseAction::Train(0)),
        BasicAction(BaseAction::Train(1)),
        BasicAction(BaseAction::Train(2)),
        BasicAction(BaseAction::Train(3)),
        BasicAction(BaseAction::Train(4)),
    ]
}

/// Whether a turn lies in one of the two summer camps.
pub open spec fn in_summer(turn: int) -> bool {
    (36 <= turn < 40) || (60 <= turn < 64)
}

/// Whether an outing with the friend can be had: outings are open, the run
/// is not in its last stretch, and one of the outings is not used up.
pub open spec fn friend_outing_open(friend: FriendState, turn: int) -> bool {
    &&& friend.out_state == FriendOutState::AfterUnlock
    &&& turn < 72
    &&& exists|i: int| 0 <= i < 5 && !#[trigger] friend.out_used@[i]
}

/// The moves that are legal outside a race turn. In summer camp: the
/// trainings, a race and an outing. Else: the trainings, rest and an outing,
/// then a race from turn 14 to turn 71, the clinic for an ill trainee, and an
/// outing with the friend where one can be had.
pub open spec fn free_moves(turn: int, ill: bool, friend: FriendState) -> Seq<BasicAction> {
    if in_summer(turn) {
        trainings().push(BasicAction(BaseAction::Race)).push(BasicAction(BaseAction::NormalOuting))
    } else {
        let plain = trainings().push(BasicAction(BaseAction::Sleep)).push(
            BasicAction(BaseAction::NormalOuting),
        );
        let raced = if 13 < turn < 72 {
            plain.push(BasicAction(BaseAction::Race))
        } else {
            plain
        };
        let cured = if ill {
            raced.push(BasicAction(BaseAction::Clinic))
        } else {
            raced
        };
        if friend_outing_open(friend, turn) {
            cured.push(BasicAction(BaseAction::FriendOuting))
        } else {
            cured
        }
    }
}

/// The roster that `persons` becomes when the cards of `deck` and then the
/// director join it, each at the next free place; an error if a card stands
/// for no person or the places run out.
pub open spec fn joined_roster(persons: Seq<BasePerson>, deck: Seq<SupportCard>) -> Result<
    Seq<BasePerson>,
    SimError,
> {
    if exists|i: int| 0 <= i < deck.len() && BasePerson::of_card(#[trigger] deck[i]) is Err {
        Err(SimError::InvalidCard)
    } else if persons.len() + deck.len() + 1 > i32::MAX {
        Err(SimError::RosterTooLarge)
    } else {
        Ok(
            Seq::new(
                persons.len() + deck.len() + 1,
                |i: int|
                    if i < persons.len() {
                        persons[i]
                    } else if i < persons.len() + deck.len() {
                        BasePerson::of_card(deck[i - persons.len()])->Ok_0.at(i)
                    } else {
                        BasePerson::director().at(i)
                    },
            ),
        )
    }
}

impl BasicGame {
    /// The invariant of the game: each person stands at the place that its
    /// index names, and the lanes are well formed.
    pub open spec fn wf(&self) -> bool {
        &&& self.persons@.len() <= i32::MAX
        &&& forall|i: int|
            0 <= i < self.persons@.len() ==> (#[trigger] self.persons@[i]).person_index == i
        &&& self@.lanes_wf()
    }

    /// The moves that are legal now: on a race turn the race alone, else the
    /// free moves; an error for a turn outside the run.
    pub open spec fn legal_actions(&self) -> Result<Seq<BasicAction>, SimError> {
        match self.base.uma.races_on(self.base.turn as int) {
            Err(e) => Err(e),
            Ok(race) => Ok(
                if race {
                    seq![BasicAction(BaseAction::Race)]
                } else {
                    free_moves(self.base.turn as int, self.base.uma.flags.ill, self.base.friend)
                },
            ),
        }
    }

    /// What running a stage returns and makes of the game. The stage that
    /// spreads the persons empties the lanes on a race turn and spreads the
    /// roster on any other. The stage that trains lets the trainer choose;
    /// the moves of the basic game change nothing. The other stages do
    /// nothing.
    pub open spec fn stage_outcome(&self, r: Result<(), SimError>, after: BasicGame) -> bool {
        match self.base.stage {
            TurnStage::Distribute => match self.base.uma.races_on(self.base.turn as int) {
                Err(e) => r == Err::<(), SimError>(e) && after == *self,
                Ok(race) => if race {
                    r is Ok && after@ == self@.with_distribution(empty_lanes())
                } else {
                    self@.spread_outcome(r, after@)
                },
            },
            TurnStage::Train => {
                &&& after == *self
                &&& self.legal_actions() matches Err(e) ==> r == Err::<(), SimError>(e)
            },
            _ => r is Ok && after == *self,
        }
    }

    /// Whether the turn lies in one of the two summer camps.
    pub fn is_xiahesu(&self) -> (r: bool)
        ensures
            r == in_summer(self.base.turn as int),
    {
        (self.base.turn >= 36 && self.base.turn < 40) || (self.base.turn >= 60 && self.base.turn
            < 64)
    }

    /// Adds a person at the end of the roster and gives it its index.
    pub fn add_person(&mut self, person: BasePerson)
        requires
            old(self).persons@.len() < i32::MAX,
        ensures
            final(self).persons@ == old(self).persons@.push(person.at(old(self).persons@.len() as int)),
            final(self).base == old(self).base,
            old(self).wf() ==> final(self).wf(),
    {
        let ghost before = self@;
        let mut person = person;
        person.person_index = self.persons.len() as i32;
        self.persons.push(person);
        proof {
            if old(self).wf() {
                lemma_lanes_wf_in_longer_roster(before, self@);
            }
        }
    }

    /// Makes the move that a trainer chose among `actions`. A choice that is
    /// not on the list is an error; the moves of the basic game change nothing.
    pub fn apply_selection(
        &mut self,
        actions: &Vec<BasicAction>,
        selection: usize,
        rng: &mut StdRng,
    ) -> (r: Result<(), SimError>)
        ensures
            *final(self) == *old(self),
            match r {
                Ok(_) => selection < actions@.len(),
                Err(e) => selection >= actions@.len() && e == SimError::InvalidSelection,
            },
    {
        if selection >= actions.len() {
            return Err(SimError::InvalidSelection);
        }
        self.apply_action(&actions[selection], rng)
    }

    /// Whether the trainee has to race on the running turn.
    pub fn is_race_turn(&self) -> (r: Result<bool, SimError>)
        ensures
            r == self.base.uma.races_on(self.base.turn as int),
    {
        if self.base.turn < 0 {
            return Err(SimError::InvalidTurn);
        }
        self.base.uma.is_race_turn(self.base.turn as u32)
    }

    /// Starts a game with a trainee and six support cards, each named by id.
    /// The roster is the six cards and the director.
    pub fn newgame(data: &GameData, uma_id: u32, deck_ids: &[u32; 6], inherit: InheritInfo) -> (r:
        Result<BasicGame, SimError>)
        ensures
            match r {
                Ok(game) => {
                    &&& BaseGame::start_error(*data, uma_id, *deck_ids) is None
                    &&& game.base.is_start_of(*data, uma_id, *deck_ids, inherit)
                    &&& joined_roster(Seq::<BasePerson>::empty(), game.base.deck@) == Ok::<
                        Seq<BasePerson>,
                        SimError,
                    >(game.persons@)
                    &&& game.wf()
                },
                Err(e) => match BaseGame::start_error(*data, uma_id, *deck_ids) {
                    Some(first) => e == first,
                    None => e == SimError::InvalidCard && exists|i: int|
                        0 <= i < 6 && (match data.card_of(#[trigger] deck_ids@[i]) {
                            Some(card) => BasePerson::of_card(card) is Err,
                            None => false,
                        }),
                },
            },
    {
        let base = match BaseGame::new(data, uma_id, deck_ids, inherit) {
            Ok(base) => base,
            Err(e) => {
                return Err(e);
            },
        };
        let mut game = BasicGame { base, persons: Vec::new() };
        let ghost deck = game.base.deck@;
        assert(game.persons@ =~= Seq::<BasePerson>::empty());
        match game.init_persons() {
            Ok(_) => {
                proof {
                    assert(game@.distribution == empty_lanes());
                    assert(game@.lanes_wf());
                }
                Ok(game)
            },
            Err(e) => {
                proof {
                    let i = choose|i: int|
                        0 <= i < deck.len() && BasePerson::of_card(#[trigger] deck[i]) is Err;
                    assert(data.card_of(deck_ids@[i]) == Some(deck[i]));
                }
                Err(e)
            },
        }
    }
}

impl Game for BasicGame {
    type Person = BasePerson;

    type Action = BasicAction;

    fn turn(&self) -> (r: i32) {
        self.base.turn
    }

    fn max_turn(&self) -> (r: i32) {
        MAX_TURN
    }

    /// Moves on to the next stage, or to the first stage of the next turn.
    fn next(&mut self) -> (r: bool)
        ensures
            old(self).wf() ==> final(self).wf(),
    {
        match self.base.stage.next() {
            Some(stage) => {
                self.base.stage = stage;
                true
            },
            None => {
                if self.base.turn < MAX_TURN {
                    self.base.turn = self.base.turn + 1;
                    self.base.stage = TurnStage::Begin;
                    true
                } else {
                    false
                }
            },
        }
    }

    /// Runs the stage that the game is in.
    fn run_stage<T: Trainer<Self, BasicAction>>(&mut self, trainer: &T, rng: &mut StdRng) -> (r:
        Result<(), SimError>)
        ensures
            old(self).stage_outcome(r, *final(self)),
            old(self).wf() ==> final(self).wf(),
    {
        let ghost before = *self;
        match self.base.stage {
            TurnStage::Distribute => {
                let r = if self.is_race_turn()? {
                    self.reset_distribution();
                    Ok(())
                } else {
                    self.distribute_all(rng)
                };
                proof {
                    lemma_same_roster_keeps_indices(before, *self);
                }
                r
            },
            TurnStage::Train => {
                let actions = self.list_actions()?;
                let selection: usize = trainer.select_action(&*self, actions.as_slice(), rng)?;
                self.apply_selection(&actions, selection, rng)
            },
            _ => Ok(()),
        }
    }

    /// Makes a move. The moves of the basic game change nothing.
    fn apply_action(&mut self, action: &BasicAction, rng: &mut StdRng) -> (r: Result<(), SimError>)
        ensures
            r is Ok,
            *final(self) == *old(self),
    {
        action.apply(self, rng)
    }

    /// What running a stage of the basic game may return and make of it. The
    /// stage that spreads the persons empties the lanes on a race turn and
    /// spreads the roster on any other; a turn outside the run is an error.
    /// The stage that trains changes nothing, and fails where no moves can
    /// be listed. The other stages succeed and change nothing.
    open spec fn stage_step(before: GameView, r: Result<(), SimError>, after: GameView) -> bool {
        match before.stage {
            TurnStage::Distribute => match before.uma.races_on(before.turn as int) {
                Err(e) => r == Err::<(), SimError>(e) && after == before,
                Ok(race) => if race {
                    r is Ok && after == before.with_distribution(empty_lanes())
                } else {
                    before.spread_outcome(r, after)
                },
            },
            TurnStage::Train => {
                &&& after == before
                &&& before.uma.races_on(before.turn as int) matches Err(e) ==> r == Err::<
                    (),
                    SimError,
                >(e)
            },
            _ => r is Ok && after == before,
        }
    }

    /// The moves that are legal now.
    fn list_actions(&self) -> (r: Result<Vec<BasicAction>, SimError>)
        ensures
            match r {
                Ok(actions) => self.legal_actions() == Ok::<Seq<BasicAction>, SimError>(actions@),
                Err(e) => self.legal_actions() == Err::<Seq<BasicAction>, SimError>(e),
            },
    {
        if self.is_race_turn()? {
            let mut only: Vec<BasicAction> = Vec::new();
            only.push(BasicAction(BaseAction::Race));
            assert(only@ =~= seq![BasicAction(BaseAction::Race)]);
            return Ok(only);
        }
        let mut actions: Vec<BasicAction> = Vec::new();
        actions.push(BasicAction(BaseAction::Train(0)));
        actions.push(BasicAction(BaseAction::Train(1)));
        actions.push(BasicAction(BaseAction::Train(2)));
        actions.push(BasicAction(BaseAction::Train(3)));
        actions.push(BasicAction(BaseAction::Train(4)));
        assert(actions@ =~= trainings());
        if self.is_xiahesu() {
            actions.push(BasicAction(BaseAction::Race));
            actions.push(BasicAction(BaseAction::NormalOuting));
        } else {
            actions.push(BasicAction(BaseAction::Sleep));
            actions.push(BasicAction(BaseAction::NormalOuting));
            if self.base.turn > 13 && self.base.turn < 72 {
                actions.push(BasicAction(BaseAction::Race));
            }
            if self.base.uma.flags.ill {
                actions.push(BasicAction(BaseAction::Clinic));
            }
            if self.base.friend.out_state == FriendOutState::AfterUnlock && self.base.turn < 72 {
                if !all_used(&self.base.friend.out_used) {
                    actions.push(BasicAction(BaseAction::FriendOuting));
                }
            }
        }
        Ok(actions)
    }

    /// The basic game has no events.
    fn list_events(&self) -> (r: Vec<EventData>)
        ensures
            r@.len() == 0,
    {
        Vec::new()
    }

    /// Adds the cards of the deck and then the director to the roster. If a
    /// card stands for no person, the roster stays as it is.
    fn init_persons(&mut self) -> (r: Result<(), SimError>)
        ensures
            final(self).base == old(self).base,
            match joined_roster(old(self).persons@, old(self).base.deck@) {
                Ok(roster) => r is Ok && final(self).persons@ == roster,
                Err(e) => r == Err::<(), SimError>(e) && final(self).persons == old(self).persons,
            },
            old(self).wf() ==> final(self).wf(),
    {
        let ghost deck = self.base.deck@;
        let ghost before = self.persons@;
        let mut joining: Vec<BasePerson> = Vec::new();
        let mut i: usize = 0;
        while i < self.base.deck.len()
            invariant
                i <= deck.len(),
                deck == self.base.deck@,
                *self == *old(self),
                joining@.len() == i,
                forall|k: int|
                    0 <= k < i ==> BasePerson::of_card(deck[k]) == Ok::<BasePerson, SimError>(
                        #[trigger] joining@[k],
                    ),
            decreases deck.len() - i,
        {
            match BasePerson::try_from(&self.base.deck[i]) {
                Ok(person) => {
                    joining.push(person);
                },
                Err(e) => {
                    return Err(e);
                },
            }
            i += 1;
        }
        assert forall|k: int| 0 <= k < deck.len() implies !(BasePerson::of_card(
            #[trigger] deck[k],
        ) is Err) by {
            assert(BasePerson::of_card(deck[k]) == Ok::<BasePerson, SimError>(joining@[k]));
        }
        if joining.len() > 2147483646 || self.persons.len() > 2147483646 - joining.len() {
            return Err(SimError::RosterTooLarge);
        }
        let mut k: usize = 0;
        while k < joining.len()
            invariant
                k <= joining@.len(),
                joining@.len() == deck.len(),
                before.len() + deck.len() + 1 <= i32::MAX,
                self.base == old(self).base,
                before == old(self).persons@,
                old(self).wf() ==> self.wf(),
                self.persons@.len() == before.len() + k,
                forall|j: int| 0 <= j < before.len() ==> self.persons@[j] == before[j],
                forall|j: int|
                    0 <= j < k ==> #[trigger] self.persons@[before.len() + j] == joining@[j].at(
                        before.len() + j,
                    ),
            decreases joining@.len() - k,
        {
            self.add_person(joining[k]);
            k += 1;
        }
        self.add_person(BasePerson::yayoi());
        proof {
            let roster = joined_roster(before, deck)->Ok_0;
            assert forall|j: int| 0 <= j < roster.len() implies self.persons@[j] == roster[j] by {
                if before.len() <= j < before.len() + deck.len() {
                    assert(self.persons@[before.len() + (j - before.len())] == joining@[j
                        - before.len()].at(j));
                }
            }
            assert(self.persons@ =~= roster);
            assert(person_views(before).is_prefix_of(person_views(roster)));
        }
        Ok(())
    }

    /// The distribution, drawn as a table 80 characters wide: a column for
    /// each lane under its name, and in each cell the person that stands at
    /// that place of the lane.
    fn explain_distribution(&self) -> (r: String)
        ensures
            r@ == table_text(lane_titles(), self.cell_grid(), 80, 20),
    {
        let header = titles();
        let rows = self.distribution_cells();
        assert(header.deep_view() =~~= lane_titles());
        assert(rows.deep_view() =~~= self.cell_grid());
        render_table(&header, &rows, 80, 20)
    }

    fn events(&self) -> (r: &EventLog) {
        &self.base.events
    }

    fn event_mut(&mut self) -> (r: &mut EventLog) {
        &mut self.base.events
    }

    fn persons(&self) -> (r: &[BasePerson]) {
        self.persons.as_slice()
    }

    fn distribution(&self) -> (r: &Vec<Vec<i32>>) {
        &self.base.distribution
    }

    fn distribution_mut(&mut self) -> (r: &mut Vec<Vec<i32>>) {
        &mut self.base.distribution
    }

    fn absent_rate_drop(&self) -> (r: i32) {
        self.base.absent_rate_drop
    }

    /// The favor weight of a person: that of its card for the six places of
    /// the deck, none for the others.
    fn deyilv(&self, person_index: i32) -> (r: Result<i32, SimError>) {
        if person_index < 0 || person_index as usize >= self.persons.len() {
            Err(SimError::InvalidPerson)
        } else if person_index < 6 && (person_index as usize) < self.base.deck.len() {
            Ok(self.base.deck[person_index as usize].effect.deyilv)
        } else {
            Ok(0)
        }
    }

    fn has_group_buff(&self) -> (r: bool) {
        self.base.friend.group_buff_turn > 0
    }

    fn train_level(&self, train: usize) -> (r: usize) {
        let count: i32 = self.base.train_level_count[train];
        if count >= 0 {
            (count / 4 + 1) as usize
        } else {
            usize::MAX
        }
    }

    fn uma(&self) -> (r: &Uma) {
        &self.base.uma
    }

    fn uma_mut(&mut self) -> (r: &mut Uma) {
        &mut self.base.uma
    }

    fn deck(&self) -> (r: &Vec<SupportCard>) {
        &self.base.deck
    }
}

impl BasicGame {
    /// What the table of the distribution shows at place `i` of lane `l`:
    /// the person that stands there, or nothing.
    pub open spec fn cell_text(&self, i: int, l: int) -> Seq<char> {
        if 0 <= l < self.base.distribution@.len() && 0 <= i < self.base.distribution@[l]@.len()
            && 0 <= self.base.distribution@[l]@[i] < self.persons@.len() {
            self.persons@[self.base.distribution@[l]@[i] as int].label()
        } else {
            Seq::<char>::empty()
        }
    }

    /// The cells of the table of the distribution: six rows, a cell for each
    /// of the five lanes in each.
    pub open spec fn cell_grid(&self) -> Seq<Seq<Seq<char>>> {
        Seq::new(6, |i: int| Seq::new(5, |l: int| self.cell_text(i, l)))
    }

    /// Fills the cells of the table of the distribution.
    pub fn distribution_cells(&self) -> (r: Vec<Vec<String>>)
        ensures
            r@.len() == 6,
            forall|i: int| 0 <= i < 6 ==> (#[trigger] r@[i])@.len() == 5,
            forall|i: int, l: int|
                0 <= i < 6 && 0 <= l < 5 ==> (#[trigger] r@[i]@[l])@ == self.cell_text(i, l),
    {
        let mut rows: Vec<Vec<String>> = Vec::new();
        let mut i: usize = 0;
        while i < 6
            invariant
                i <= 6,
                rows@.len() == i,
                forall|a: int| 0 <= a < i ==> (#[trigger] rows@[a])@.len() == 5,
                forall|a: int, l: int|
                    0 <= a < i && 0 <= l < 5 ==> (#[trigger] rows@[a]@[l])@ == self.cell_text(a, l),
            decreases 6 - i,
        {
            let mut row: Vec<String> = Vec::new();
            let mut train: usize = 0;
            while train < 5
                invariant
                    train <= 5,
                    i < 6,
                    row@.len() == train,
                    forall|l: int| 0 <= l < train ==> (#[trigger] row@[l])@ == self.cell_text(i as int, l),
                decreases 5 - train,
            {
                row.push(self.cell(i, train));
                train += 1;
            }
            rows.push(row);
            i += 1;
        }
        rows
    }

    /// Writes one cell of the table of the distribution.
    pub fn cell(&self, i: usize, train: usize) -> (r: String)
        ensures
            r@ == self.cell_text(i as int, train as int),
    {
        if train < self.base.distribution.len() {
            let lane = &self.base.distribution[train];
            if i < lane.len() {
                let id: i32 = lane[i];
                if 0 <= id && (id as usize) < self.persons.len() {
                    return self.persons[id as usize].explain();
                }
            }
        }
        String::new()
    }
}

/// A game whose roster reads as before still has each person at the place
/// that its index names.
pub proof fn lemma_same_roster_keeps_indices(before: BasicGame, after: BasicGame)
    requires
        after@.persons == before@.persons,
        after@.lanes_wf(),
    ensures
        before.wf() ==> after.wf(),
{
    if before.wf() {
        assert(after@.persons.len() == after.persons@.len());
        assert(before@.persons.len() == before.persons@.len());
        assert forall|i: int| 0 <= i < after.persons@.len() implies (
        #[trigger] after.persons@[i]).person_index == i by {
            assert(after@.persons[i] == after.persons@[i]@);
            assert(before@.persons[i] == before.persons@[i]@);
            assert(before.persons@[i].person_index == i);
        }
    }
}

/// Lanes that are well formed stay so when the roster grows at its end.
pub proof fn lemma_lanes_wf_in_longer_roster(before: GameView, after: GameView)
    requires
        before.lanes_wf(),
        after.distribution == before.distribution,
        before.persons.len() <= after.persons.len(),
        forall|i: int| 0 <= i < before.persons.len() ==> after.persons[i] == before.persons[i],
    ensures
        after.lanes_wf(),
{
    assert forall|l: int| 0 <= l < 5 implies after.lane_wf(#[trigger] after.distribution[l]) by {
        let lane = before.distribution[l];
        assert(before.lane_wf(lane));
        assert forall|j: int, k: int| 0 <= j < k < lane.len() implies !((
        #[trigger] after.persons[lane[j] as int]).is_friend() && (#[trigger] after.persons[lane[k] as int]).is_friend()) by {
            assert(before.valid_person(lane[j] as int));
            assert(before.valid_person(lane[k] as int));
            assert(!(before.persons[lane[j] as int].is_friend() && before.persons[lane[k] as int].is_friend()));
        }
        assert forall|k: int| 0 <= k < lane.len() implies after.valid_person(
            #[trigger] lane[k] as int,
        ) by {
            assert(before.valid_person(lane[k] as int));
        }
    }
}

/// The names of the five lanes as they head the table of the distribution.
pub open spec fn lane_titles() -> Seq<Seq<char>> {
    seq!["速"@, "耐"@, "力"@, "根"@, "智"@]
}

/// Writes the names of the five lanes.
pub fn titles() -> (r: Vec<String>)
    ensures
        r@.len() == 5,
        forall|l: int| 0 <= l < 5 ==> (#[trigger] r@[l])@ == lane_titles()[l],
{
    let mut names: Vec<String> = Vec::new();
    names.push("速".to_string());
    names.push("耐".to_string());
    names.push("力".to_string());
    names.push("根".to_string());
    names.push("智".to_string());
    names
}

/// Whether all outings with the friend are used up.
pub fn all_used(out_used: &[bool; 5]) -> (r: bool)
    ensures
        r == (forall|i: int| 0 <= i < 5 ==> #[trigger] out_used@[i]),
{
    let mut i: usize = 0;
    while i < 5
        invariant
            i <= 5,
            forall|k: int| 0 <= k < i ==> #[trigger] out_used@[k],
        decreases 5 - i,
    {
        if !out_used[i] {
            return false;
        }
        i += 1;
    }
    true
}

} // verus!
