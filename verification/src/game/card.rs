use vstd::prelude::*;
use crate::utils::Array6;

verus! {

/// `x`, moved to the nearest value that 32 signed bits hold.
pub open spec fn clamp_i32(x: int) -> int {
    if x < i32::MIN {
        i32::MIN as int
    } else if x > i32::MAX {
        i32::MAX as int
    } else {
        x
    }
}

/// Brings a wide integer into the 32-bit range.
pub fn clamp_to_i32(x: i128) -> (r: i32)
    ensures
        r == clamp_i32(x as int),
{
    if x < -2147483648 {
        -2147483648
    } else if x > 2147483647 {
        2147483647
    } else {
        x as i32
    }
}

/// Adds two values; a sum outside the 32-bit range stops at its border.
pub fn add_clamped(a: i32, b: i32) -> (r: i32)
    ensures
        r == clamp_i32(a + b),
{
    clamp_to_i32(a as i128 + b as i128)
}

/// The bonuses that helpers lend to a training. Percentages are whole
/// percents; the effects of all helpers in a lane are summed field by field.
#[derive(Clone, Copy, Debug, PartialEq, Eq)]
pub struct CardTrainingEffect {
    /// Friendship bonus in percent; it counts only for a helper that shines.
    pub youqing: i32,
    /// Motivation bonus in percent.
    pub ganjing: i32,
    /// Training bonus in percent.
    pub xunlian: i32,
    /// Flat gains of the five stats, then of skill points.
    pub bonus: Array6,
    /// Share of a vitality cost that is spared, in percent.
    pub vital_cost_drop: i32,
    /// Vitality given back by the wisdom lane.
    pub wiz_vital_bonus: i32,
    /// Weight added to the helper's own lane when persons are spread.
    pub deyilv: i32,
}

impl CardTrainingEffect {
    /// The effect without any bonus.
    pub open spec fn nothing() -> Self {
        CardTrainingEffect {
            youqing: 0,
            ganjing: 0,
            xunlian: 0,
            bonus: [0i32, 0i32, 0i32, 0i32, 0i32, 0i32],
            vital_cost_drop: 0,
            wiz_vital_bonus: 0,
            deyilv: 0,
        }
    }

    /// `self` and `other` added field by field, each sum clamped to 32 bits.
    pub open spec fn plus(self, other: Self) -> Self {
        CardTrainingEffect {
            youqing: clamp_i32(self.youqing + other.youqing) as i32,
            ganjing: clamp_i32(self.ganjing + other.ganjing) as i32,
            xunlian: clamp_i32(self.xunlian + other.xunlian) as i32,
            bonus: [
                clamp_i32(self.bonus@[0] + other.bonus@[0]) as i32,
                clamp_i32(self.bonus@[1] + other.bonus@[1]) as i32,
                clamp_i32(self.bonus@[2] + other.bonus@[2]) as i32,
                clamp_i32(self.bonus@[3] + other.bonus@[3]) as i32,
                clamp_i32(self.bonus@[4] + other.bonus@[4]) as i32,
                clamp_i32(self.bonus@[5] + other.bonus@[5]) as i32,
            ],
            vital_cost_drop: clamp_i32(self.vital_cost_drop + other.vital_cost_drop) as i32,
            wiz_vital_bonus: clamp_i32(self.wiz_vital_bonus + other.wiz_vital_bonus) as i32,
            deyilv: clamp_i32(self.deyilv + other.deyilv) as i32,
        }
    }

    /// `self` without its friendship bonus.
    pub open spec fn without_friendship(self) -> Self {
        CardTrainingEffect { youqing: 0, ..self }
    }

    /// The effect of `self` and `other` together.
    pub fn add(&self, other: &Self) -> (r: Self)
        ensures
            r == self.plus(*other),
    {
        let a = &self.bonus;
        let b = &other.bonus;
        let bonus: Array6 = [
            add_clamped(a[0], b[0]),
            add_clamped(a[1], b[1]),
            add_clamped(a[2], b[2]),
            add_clamped(a[3], b[3]),
            add_clamped(a[4], b[4]),
            add_clamped(a[5], b[5]),
        ];
        assert(bonus@ =~= self.plus(*other).bonus@);
        CardTrainingEffect {
            youqing: add_clamped(self.youqing, other.youqing),
            ganjing: add_clamped(self.ganjing, other.ganjing),
            xunlian: add_clamped(self.xunlian, other.xunlian),
            bonus,
            vital_cost_drop: add_clamped(self.vital_cost_drop, other.vital_cost_drop),
            wiz_vital_bonus: add_clamped(self.wiz_vital_bonus, other.wiz_vital_bonus),
            deyilv: add_clamped(self.deyilv, other.deyilv),
        }
    }
}

impl Default for CardTrainingEffect {
    fn default() -> (r: Self)
        ensures
            r == CardTrainingEffect::nothing(),
    {
        let bonus: Array6 = [0, 0, 0, 0, 0, 0];
        assert(bonus@ =~= CardTrainingEffect::nothing().bonus@);
        CardTrainingEffect {
            youqing: 0,
            ganjing: 0,
            xunlian: 0,
            bonus,
            vital_cost_drop: 0,
            wiz_vital_bonus: 0,
            deyilv: 0,
        }
    }
}

/// A support card of the deck.
#[derive(Clone, Copy, Debug, PartialEq, Eq)]
pub struct SupportCard {
    /// Identity of the card.
    pub card_id: u32,
    /// Lane that the card favours, `0..=4`; 5 for a team card, 6 for a
    /// scenario card.
    pub card_type: i32,
    /// Rapport with the trainee at the start.
    pub friendship: i32,
    /// Bonuses that the card lends to a training it attends.
    pub effect: CardTrainingEffect,
}

} // verus!
