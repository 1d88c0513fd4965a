use vstd::prelude::*;
use crate::error::SimError;
use crate::game::card::{add_clamped, clamp_i32};
use crate::gamedata::ActionValue;
use crate::utils::{Array5, Array6};

verus! {

/// Conditions that the trainee is in.
#[derive(Clone, Copy, Debug, PartialEq, Eq, Structural)]
pub struct UmaFlags {
    /// Whether the trainee is ill and may visit the clinic.
    pub ill: bool,
}

/// The last turn of a run.
pub const MAX_TURN: i32 = 77;

/// The trainee.
#[derive(Clone, Copy, Debug, PartialEq, Eq)]
pub struct Uma {
    /// Identity of the trainee.
    pub uma_id: u32,
    /// Vitality.
    pub vital: i32,
    /// Motivation, from 1 (worst) to 5 (best).
    pub motivation: i32,
    /// The five stats.
    pub five_status: Array5,
    /// Skill points.
    pub skill_pt: i32,
    /// Growth bonus of each stat and of skill points, in percent.
    pub five_status_bonus: Array6,
    /// Conditions that the trainee is in.
    pub flags: UmaFlags,
    /// For each turn, whether the trainee has to race on it.
    pub race_turns: [bool; 78],
}

impl Uma {
    /// The trainee with `value` added to stats, skill points and vitality,
    /// each sum clamped to 32 bits.
    pub open spec fn gained(self, value: ActionValue) -> Uma {
        Uma {
            five_status: [
                clamp_i32(self.five_status@[0] + value.status_pt@[0]) as i32,
                clamp_i32(self.five_status@[1] + value.status_pt@[1]) as i32,
                clamp_i32(self.five_status@[2] + value.status_pt@[2]) as i32,
                clamp_i32(self.five_status@[3] + value.status_pt@[3]) as i32,
                clamp_i32(self.five_status@[4] + value.status_pt@[4]) as i32,
            ],
            skill_pt: clamp_i32(self.skill_pt + value.status_pt@[5]) as i32,
            vital: clamp_i32(self.vital + value.vital) as i32,
            ..self
        }
    }

    /// Whether the trainee has to race on `turn`, for a turn of the run.
    pub open spec fn races_on(self, turn: int) -> Result<bool, SimError> {
        if 0 <= turn <= MAX_TURN {
            Ok(self.race_turns@[turn])
        } else {
            Err(SimError::InvalidTurn)
        }
    }

    /// Whether the trainee has to race on `turn`.
    pub fn is_race_turn(&self, turn: u32) -> (r: Result<bool, SimError>)
        ensures
            r == self.races_on(turn as int),
    {
        if turn <= 77 {
            Ok(self.race_turns[turn as usize])
        } else {
            Err(SimError::InvalidTurn)
        }
    }

    /// Adds `value` to the trainee's stats, skill points and vitality.
    pub fn apply_action(&mut self, value: &ActionValue)
        ensures
            *final(self) == old(self).gained(*value),
    {
        let s = &self.five_status;
        let v = &value.status_pt;
        let stats: Array5 = [
            add_clamped(s[0], v[0]),
            add_clamped(s[1], v[1]),
            add_clamped(s[2], v[2]),
            add_clamped(s[3], v[3]),
            add_clamped(s[4], v[4]),
        ];
        assert(stats@ =~= old(self).gained(*value).five_status@);
        self.five_status = stats;
        self.skill_pt = add_clamped(self.skill_pt, v[5]);
        self.vital = add_clamped(self.vital, value.vital);
    }

    /// Stats and skill points together.
    pub fn total_pt(&self) -> (r: i64)
        ensures
            r == self.five_status@[0] + self.five_status@[1] + self.five_status@[2]
                + self.five_status@[3] + self.five_status@[4] + self.skill_pt,
    {
        let s = &self.five_status;
        s[0] as i64 + s[1] as i64 + s[2] as i64 + s[3] as i64 + s[4] as i64 + self.skill_pt as i64
    }
}

} // verus!
