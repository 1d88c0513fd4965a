use vstd::prelude::*;
use crate::game::card::SupportCard;
use crate::game::uma::Uma;
use crate::utils::Array6;

verus! {

/// What an action or an event adds to the trainee: the five stats, skill
/// points, and vitality.
#[derive(Clone, Copy, Debug, PartialEq, Eq)]
pub struct ActionValue {
    /// Gains of the five stats, then of skill points.
    pub status_pt: Array6,
    /// Change of vitality.
    pub vital: i32,
}

impl ActionValue {
    /// The value that adds nothing.
    pub open spec fn nothing() -> ActionValue {
        ActionValue { status_pt: [0i32, 0i32, 0i32, 0i32, 0i32, 0i32], vital: 0 }
    }
}

impl Default for ActionValue {
    fn default() -> (r: ActionValue)
        ensures
            r == ActionValue::nothing(),
    {
        let status_pt: Array6 = [0, 0, 0, 0, 0, 0];
        assert(status_pt@ =~= ActionValue::nothing().status_pt@);
        ActionValue { status_pt, vital: 0 }
    }
}

/// An event that may strike during a turn.
#[derive(Clone, Debug)]
pub struct EventData {
    /// Identity under which triggers are counted.
    pub id: u32,
    /// Name for reports.
    pub name: String,
    /// Chance of striking, in percent; 100 and more is certain.
    pub trigger_prob: i32,
    /// What the event adds to the trainee when it strikes.
    pub bonus: ActionValue,
}

/// The tables of game constants. They are filled once, before the first
/// game, and only read afterwards.
#[derive(Clone, Debug)]
pub struct GameConstants {
    /// Base values by lane and facility level: six gains, then vitality.
    pub training_basic_value: Vec<Vec<[i32; 7]>>,
    /// Names of the five lanes.
    pub train_names: Vec<String>,
    /// Names of the motivation levels, from level 1 on.
    pub motivation_names: Vec<String>,
}

impl GameConstants {
    /// The row of base values for a lane at a facility level, if the table has one.
    pub open spec fn base_row(&self, train: int, level: int) -> Option<[i32; 7]> {
        if 0 <= train < self.training_basic_value@.len() && 0 <= level
            < self.training_basic_value@[train]@.len() {
            Some(self.training_basic_value@[train]@[level])
        } else {
            None
        }
    }

    /// Looks up the row of base values for a lane at a facility level.
    pub fn basic_value(&self, train: usize, level: usize) -> (r: Option<[i32; 7]>)
        ensures
            r == self.base_row(train as int, level as int),
    {
        if train < self.training_basic_value.len() {
            let rows = &self.training_basic_value[train];
            if level < rows.len() {
                return Some(rows[level]);
            }
        }
        None
    }
}

/// Everything that is on record before a game starts: the constants, the
/// trainees and the support cards.
#[derive(Clone, Debug)]
pub struct GameData {
    /// The tables of game constants.
    pub constants: GameConstants,
    /// The trainees, each as she starts a run.
    pub umas: Vec<Uma>,
    /// The support cards.
    pub cards: Vec<SupportCard>,
}

impl GameData {
    /// The first trainee on record with the id `uma_id`, if there is one.
    pub open spec fn uma_of(&self, uma_id: u32) -> Option<Uma> {
        if exists|i: int| 0 <= i < self.umas@.len() && self.umas@[i].uma_id == uma_id {
            let first = choose|i: int|
                0 <= i < self.umas@.len() && self.umas@[i].uma_id == uma_id && forall|j: int|
                    0 <= j < i ==> self.umas@[j].uma_id != uma_id;
            Some(self.umas@[first])
        } else {
            None
        }
    }

    /// The first card on record with the id `card_id`, if there is one.
    pub open spec fn card_of(&self, card_id: u32) -> Option<SupportCard> {
        if exists|i: int| 0 <= i < self.cards@.len() && self.cards@[i].card_id == card_id {
            let first = choose|i: int|
                0 <= i < self.cards@.len() && self.cards@[i].card_id == card_id && forall|j: int|
                    0 <= j < i ==> self.cards@[j].card_id != card_id;
            Some(self.cards@[first])
        } else {
            None
        }
    }

    /// Looks up a trainee by her id.
    pub fn find_uma(&self, uma_id: u32) -> (r: Option<Uma>)
        ensures
            r == self.uma_of(uma_id),
    {
        let mut i: usize = 0;
        while i < self.umas.len()
            invariant
                i <= self.umas@.len(),
                forall|j: int| 0 <= j < i ==> self.umas@[j].uma_id != uma_id,
            decreases self.umas@.len() - i,
        {
            if self.umas[i].uma_id == uma_id {
                proof {
                    let first = choose|k: int|
                        0 <= k < self.umas@.len() && self.umas@[k].uma_id == uma_id && forall|
                            j: int,
                        |
                            0 <= j < k ==> self.umas@[j].uma_id != uma_id;
                    assert(first == i);
                }
                return Some(self.umas[i]);
            }
            i += 1;
        }
        None
    }

    /// Looks up a support card by its id.
    pub fn find_card(&self, card_id: u32) -> (r: Option<SupportCard>)
        ensures
            r == self.card_of(card_id),
    {
        let mut i: usize = 0;
        while i < self.cards.len()
            invariant
                i <= self.cards@.len(),
                forall|j: int| 0 <= j < i ==> self.cards@[j].card_id != card_id,
            decreases self.cards@.len() - i,
        {
            if self.cards[i].card_id == card_id {
                proof {
                    let first = choose|k: int|
                        0 <= k < self.cards@.len() && self.cards@[k].card_id == card_id && forall|
                            j: int,
                        |
                            0 <= j < k ==> self.cards@[j].card_id != card_id;
                    assert(first == i);
                }
                return Some(self.cards[i]);
            }
            i += 1;
        }
        None
    }
}

} // verus!
