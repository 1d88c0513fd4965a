use vstd::prelude::*;
use crate::error::SimError;
use crate::game::card::{clamp_i32, clamp_to_i32, CardTrainingEffect};
use crate::game::uma::Uma;
use crate::gamedata::{ActionValue, GameConstants};

verus! {

/// The lane whose training gives vitality back.
pub const WISDOM_LANE: usize = 4;

/// Denominator of the product of the five percentage factors.
pub const VALUE_SCALE: u128 = 1_000_000_000_000;

/// A numerator at or beyond this size gives a value outside 32 bits.
const NUMERATOR_CAP: u128 = 2_147_483_649_000_000_000_000;

/// Motivation as a rate in percent: ten for each level above the middle one.
pub open spec fn motivation_rate(motivation: int) -> int {
    (motivation - 3) * 10
}

/// The partners that raise a gain: every one beyond the first.
pub open spec fn extra_partners(count: int) -> int {
    if count > 1 {
        count - 1
    } else {
        0
    }
}

/// The gain of one slot before scaling: the raw value times the factors for
/// friendship, motivation, training bonus, partners and growth, each factor
/// in hundredths (the motivation factor in ten-thousandths).
pub open spec fn gain_numerator(
    raw: int,
    effect: CardTrainingEffect,
    motivation: int,
    count: int,
    growth: int,
) -> int {
    raw * (100 + effect.youqing) * (10000 + motivation_rate(motivation) * (100 + effect.ganjing))
        * (100 + effect.xunlian) * (100 + 5 * extra_partners(count)) * (100 + growth)
}

/// The gain of one slot: nothing where the base value is not positive, else
/// the scaled product rounded down and clamped to 32 bits.
pub open spec fn slot_gain(
    base: int,
    flat: int,
    effect: CardTrainingEffect,
    motivation: int,
    count: int,
    growth: int,
) -> int {
    if base > 0 {
        clamp_i32(gain_numerator(base + flat, effect, motivation, count, growth) / (VALUE_SCALE as int))
    } else {
        0
    }
}

/// `n / d` with the fraction dropped, for a positive `d`.
pub open spec fn truncated_quotient(n: int, d: int) -> int {
    if n >= 0 {
        n / d
    } else {
        -((-n) / d)
    }
}

/// The change of vitality: the base value, on the wisdom lane with the
/// vitality bonus added; a loss is cut by the spared share and the fraction
/// dropped.
pub open spec fn vital_change(base: int, train: int, effect: CardTrainingEffect) -> int {
    let net = base + if train == WISDOM_LANE as int {
        effect.wiz_vital_bonus as int
    } else {
        0
    };
    clamp_i32(
        if net < 0 {
            truncated_quotient(net * (100 - effect.vital_cost_drop), 100)
        } else {
            net
        },
    )
}

/// What a training on lane `train` gives: the gain of each of the six slots
/// and the change of vitality.
pub open spec fn training_value_of(
    base: [i32; 7],
    train: int,
    count: int,
    effect: CardTrainingEffect,
    uma: Uma,
) -> ActionValue {
    ActionValue {
        status_pt: [
            slot_gain_at(0, base, count, effect, uma) as i32,
            slot_gain_at(1, base, count, effect, uma) as i32,
            slot_gain_at(2, base, count, effect, uma) as i32,
            slot_gain_at(3, base, count, effect, uma) as i32,
            slot_gain_at(4, base, count, effect, uma) as i32,
            slot_gain_at(5, base, count, effect, uma) as i32,
        ],
        vital: vital_change(base@[6] as int, train, effect) as i32,
    }
}

/// The gain of slot `i`: from its base value, its flat bonus and the growth
/// bonus of the trainee for it.
pub open spec fn slot_gain_at(
    i: int,
    base: [i32; 7],
    count: int,
    effect: CardTrainingEffect,
    uma: Uma,
) -> int {
    slot_gain(
        base@[i] as int,
        effect.bonus@[i] as int,
        effect,
        uma.motivation as int,
        count,
        uma.five_status_bonus@[i] as int,
    )
}

/// What `training_value` returns: an error for a lane beyond the fifth or a
/// level without base values, else the value of the training.
pub open spec fn training_result(
    cons: GameConstants,
    train: int,
    level: int,
    count: int,
    effect: CardTrainingEffect,
    uma: Uma,
) -> Result<ActionValue, SimError> {
    if train >= 5 {
        Err(SimError::InvalidLane)
    } else {
        match cons.base_row(train, level) {
            None => Err(SimError::InvalidLevel),
            Some(base) => Ok(training_value_of(base, train, count, effect, uma)),
        }
    }
}

/// The size of an integer without its sign.
pub open spec fn magnitude(x: int) -> int {
    if x < 0 {
        -x
    } else {
        x
    }
}

/// A product of nonzero integers, held as sign and size. A size beyond the
/// cap is not kept: it can only grow.
struct Product {
    negative: bool,
    size: u128,
    beyond: bool,
}

impl Product {
    spec fn stands_for(self, p: int) -> bool {
        &&& p != 0
        &&& self.negative == (p < 0)
        &&& self.size <= NUMERATOR_CAP
        &&& if self.beyond {
            magnitude(p) > NUMERATOR_CAP
        } else {
            self.size == magnitude(p)
        }
    }

    fn start(raw: i64) -> (r: Product)
        requires
            raw != 0,
            -0x2_0000_0000 <= raw <= 0x2_0000_0000,
        ensures
            r.stands_for(raw as int),
    {
        if raw < 0 {
            Product { negative: true, size: (-raw) as u128, beyond: false }
        } else {
            Product { negative: false, size: raw as u128, beyond: false }
        }
    }

    fn times(self, factor: i128, Ghost(p): Ghost<int>) -> (r: Product)
        requires
            self.stands_for(p),
            factor != 0,
            -0x1_0000_0000_0000_0000_0000 <= factor <= 0x1_0000_0000_0000_0000_0000,
        ensures
            r.stands_for(p * factor),
    {
        let m: u128 = if factor < 0 {
            (-factor) as u128
        } else {
            factor as u128
        };
        let negative = self.negative != (factor < 0);
        proof {
            lemma_product_sign(p, factor as int);
        }
        if self.beyond {
            proof {
                lemma_product_grows(p, factor as int);
            }
            Product { negative, size: self.size, beyond: true }
        } else if self.size > NUMERATOR_CAP / m {
            proof {
                lemma_product_exceeds(self.size as int, m as int, NUMERATOR_CAP as int);
            }
            Product { negative, size: self.size, beyond: true }
        } else {
            proof {
                lemma_product_within(self.size as int, m as int, NUMERATOR_CAP as int);
            }
            Product { negative, size: self.size * m, beyond: false }
        }
    }

    fn scaled(self, Ghost(p): Ghost<int>) -> (r: i32)
        requires
            self.stands_for(p),
        ensures
            r == clamp_i32(p / (VALUE_SCALE as int)),
    {
        if self.beyond {
            proof {
                lemma_beyond_cap(p);
            }
            if self.negative {
                -2147483648
            } else {
                2147483647
            }
        } else if self.negative {
            let q: u128 = self.size / VALUE_SCALE;
            let whole: bool = self.size % VALUE_SCALE == 0;
            proof {
                lemma_negative_quotient(self.size as int, VALUE_SCALE as int);
            }
            if whole {
                clamp_to_i32(-(q as i128))
            } else {
                clamp_to_i32(-(q as i128) - 1)
            }
        } else {
            clamp_to_i32((self.size / VALUE_SCALE) as i128)
        }
    }
}

proof fn lemma_product_sign(p: int, f: int)
    requires
        p != 0,
        f != 0,
    ensures
        p * f != 0,
        (p * f < 0) == ((p < 0) != (f < 0)),
        magnitude(p * f) == magnitude(p) * magnitude(f),
{
    assert(p * f != 0 && ((p * f < 0) == ((p < 0) != (f < 0)))) by (nonlinear_arith)
        requires
            p != 0,
            f != 0,
    ;
    assert((-p) * f == -(p * f) && p * (-f) == -(p * f) && (-p) * (-f) == p * f)
        by (nonlinear_arith);
}

proof fn lemma_product_grows(p: int, f: int)
    requires
        p != 0,
        f != 0,
    ensures
        magnitude(p * f) >= magnitude(p),
{
    lemma_product_sign(p, f);
    let a = magnitude(p);
    let b = magnitude(f);
    assert(a * b >= a) by (nonlinear_arith)
        requires
            a > 0,
            b >= 1,
    ;
}

proof fn lemma_product_exceeds(size: int, m: int, cap: int)
    requires
        size >= 0,
        m > 0,
        cap >= 0,
        size > cap / m,
    ensures
        size * m > cap,
{
    vstd::arithmetic::div_mod::lemma_fundamental_div_mod(cap, m);
    vstd::arithmetic::div_mod::lemma_mod_bound(cap, m);
    let q = cap / m;
    assert(size * m >= (q + 1) * m) by (nonlinear_arith)
        requires
            size >= q + 1,
            m > 0,
    ;
    assert((q + 1) * m == m * q + m) by (nonlinear_arith);
}

proof fn lemma_product_within(size: int, m: int, cap: int)
    requires
        size >= 0,
        m > 0,
        cap >= 0,
        size <= cap / m,
    ensures
        0 <= size * m <= cap,
{
    vstd::arithmetic::div_mod::lemma_fundamental_div_mod(cap, m);
    vstd::arithmetic::div_mod::lemma_mod_bound(cap, m);
    let q = cap / m;
    assert(0 <= size * m <= q * m) by (nonlinear_arith)
        requires
            0 <= size <= q,
            m > 0,
    ;
    assert(q * m == m * q) by (nonlinear_arith);
}

proof fn lemma_beyond_cap(p: int)
    requires
        magnitude(p) > NUMERATOR_CAP,
    ensures
        p > 0 ==> p / (VALUE_SCALE as int) > i32::MAX,
        p < 0 ==> p / (VALUE_SCALE as int) < i32::MIN,
{
    let s = VALUE_SCALE as int;
    vstd::arithmetic::div_mod::lemma_fundamental_div_mod(p, s);
    vstd::arithmetic::div_mod::lemma_mod_bound(p, s);
    let q = p / s;
    if p > 0 {
        assert(q > 2147483647) by (nonlinear_arith)
            requires
                p == s * q + p % s,
                0 <= p % s < s,
                p > 2_147_483_649 * s,
                s > 0,
        ;
    } else {
        assert(q < -2147483648) by (nonlinear_arith)
            requires
                p == s * q + p % s,
                0 <= p % s < s,
                p < -2_147_483_649 * s,
                s > 0,
        ;
    }
}

proof fn lemma_negative_quotient(size: int, s: int)
    requires
        size > 0,
        s > 0,
    ensures
        (-size) / s == if size % s == 0 {
            -(size / s)
        } else {
            -(size / s) - 1
        },
{
    vstd::arithmetic::div_mod::lemma_fundamental_div_mod(size, s);
    vstd::arithmetic::div_mod::lemma_mod_bound(size, s);
    let q = size / s;
    let r = size % s;
    if r == 0 {
        assert(-size == s * (-q) + 0) by (nonlinear_arith)
            requires
                size == s * q + r,
                r == 0,
        ;
        vstd::arithmetic::div_mod::lemma_fundamental_div_mod_converse(-size, s, -q, 0);
    } else {
        assert(-size == s * (-q - 1) + (s - r)) by (nonlinear_arith)
            requires
                size == s * q + r,
        ;
        vstd::arithmetic::div_mod::lemma_fundamental_div_mod_converse(-size, s, -q - 1, s - r);
    }
}

proof fn lemma_zero_numerator(a: int, b: int, c: int, d: int, e: int, f: int)
    requires
        a == 0 || b == 0 || c == 0 || d == 0 || e == 0 || f == 0,
    ensures
        a * b * c * d * e * f == 0,
{
    assert(a * b * c * d * e * f == 0) by (nonlinear_arith)
        requires
            a == 0 || b == 0 || c == 0 || d == 0 || e == 0 || f == 0,
    ;
}

/// A gain is rounded down: where the scaled product is not negative and
/// fits 32 bits, the gain is the largest integer not above it.
pub proof fn lemma_gain_rounds_down(
    base: int,
    flat: int,
    effect: CardTrainingEffect,
    motivation: int,
    count: int,
    growth: int,
)
    requires
        base > 0,
        0 <= gain_numerator(base + flat, effect, motivation, count, growth),
        gain_numerator(base + flat, effect, motivation, count, growth) < (i32::MAX + 1)
            * VALUE_SCALE,
    ensures
        0 <= slot_gain(base, flat, effect, motivation, count, growth) <= i32::MAX,
        slot_gain(base, flat, effect, motivation, count, growth) * VALUE_SCALE <= gain_numerator(
            base + flat,
            effect,
            motivation,
            count,
            growth,
        ) < (slot_gain(base, flat, effect, motivation, count, growth) + 1) * VALUE_SCALE,
{
    let n = gain_numerator(base + flat, effect, motivation, count, growth);
    let s = VALUE_SCALE as int;
    vstd::arithmetic::div_mod::lemma_fundamental_div_mod(n, s);
    vstd::arithmetic::div_mod::lemma_mod_bound(n, s);
    let q = n / s;
    assert(0 <= q <= 2147483647 && q * s <= n < (q + 1) * s) by (nonlinear_arith)
        requires
            n == s * q + n % s,
            0 <= n % s < s,
            0 <= n < 2147483648 * s,
            s > 0,
    ;
}

/// A loss of vitality is cut by the spared share and never grows: with a
/// share from 0 to 100 percent, the loss that is left is the old loss times
/// the share that is kept, in hundredths, with the fraction dropped.
pub proof fn lemma_vital_loss_is_cut(base: int, train: int, effect: CardTrainingEffect)
    requires
        i32::MIN <= base <= i32::MAX,
        0 <= effect.vital_cost_drop <= 100,
        base + (if train == WISDOM_LANE as int {
            effect.wiz_vital_bonus as int
        } else {
            0
        }) < 0,
    ensures
        ({
            let net = base + if train == WISDOM_LANE as int {
                effect.wiz_vital_bonus as int
            } else {
                0
            };
            let left = ((-net) * (100 - effect.vital_cost_drop)) / 100;
            &&& vital_change(base, train, effect) == clamp_i32(-left)
            &&& 0 <= left <= -net
        }),
{
    let net = base + if train == WISDOM_LANE as int {
        effect.wiz_vital_bonus as int
    } else {
        0
    };
    let kept = 100 - effect.vital_cost_drop;
    let loss = -net;
    assert(net * kept == -(loss * kept) && 0 <= loss * kept <= loss * 100) by (nonlinear_arith)
        requires
            loss == -net,
            loss > 0,
            0 <= kept <= 100,
    ;
    vstd::arithmetic::div_mod::lemma_fundamental_div_mod(loss * kept, 100);
    vstd::arithmetic::div_mod::lemma_mod_bound(loss * kept, 100);
    if loss * kept == 0 {
        assert(net * kept == 0);
    }
}

/// Without bonuses the base values come back as they are: with no effect,
/// at most one partner, middle motivation and no growth bonus, a positive
/// base value is its own gain.
pub proof fn lemma_plain_gain_is_base(base: int, count: int)
    requires
        0 < base <= i32::MAX,
        count <= 1,
    ensures
        slot_gain(base, 0, CardTrainingEffect::nothing(), 3, count, 0) == base,
{
    let s = VALUE_SCALE as int;
    let n = gain_numerator(base + 0, CardTrainingEffect::nothing(), 3, count, 0);
    assert(n == base * s) by (nonlinear_arith)
        requires
            n == base * (100 + 0) * (10000 + ((3 - 3) * 10) * (100 + 0)) * (100 + 0) * (100 + 5 * 0)
                * (100 + 0),
            s == 1_000_000_000_000,
    ;
    vstd::arithmetic::div_mod::lemma_div_multiples_vanish(base, s);
    assert(base * s == s * base) by (nonlinear_arith);
}

/// Computes the gain of one slot.
pub fn stat_gain(
    base: i32,
    flat: i32,
    effect: &CardTrainingEffect,
    motivation: i32,
    count: usize,
    growth: i32,
) -> (r: i32)
    ensures
        r == slot_gain(
            base as int,
            flat as int,
            *effect,
            motivation as int,
            count as int,
            growth as int,
        ),
{
    if base <= 0 {
        return 0;
    }
    let raw: i64 = base as i64 + flat as i64;
    let friendship: i128 = 100 + effect.youqing as i128;
    let rate: i128 = (motivation as i128 - 3) * 10;
    let keen: i128 = 100 + effect.ganjing as i128;
    assert(-0x1000_0000_0000_0000_0000 <= rate * keen <= 0x1000_0000_0000_0000_0000)
        by (nonlinear_arith)
        requires
            -0x1_0000_0000_00 <= rate <= 0x1_0000_0000_00,
            -0x1_0000_0000 <= keen <= 0x1_0000_0000,
    ;
    let spirit: i128 = 10000 + rate * keen;
    let bonus: i128 = 100 + effect.xunlian as i128;
    let extra: usize = if count > 1 {
        count - 1
    } else {
        0
    };
    let partners: i128 = 100 + 5 * (extra as i128);
    let grown: i128 = 100 + growth as i128;
    if raw == 0 || friendship == 0 || spirit == 0 || bonus == 0 || partners == 0 || grown == 0 {
        proof {
            lemma_zero_numerator(
                raw as int,
                friendship as int,
                spirit as int,
                bonus as int,
                partners as int,
                grown as int,
            );
        }
        return 0;
    }
    let ghost p1 = raw as int * friendship as int;
    let ghost p2 = p1 * spirit as int;
    let ghost p3 = p2 * bonus as int;
    let ghost p4 = p3 * partners as int;
    let ghost p5 = p4 * grown as int;
    let product = Product::start(raw).times(friendship, Ghost(raw as int)).times(
        spirit,
        Ghost(p1),
    ).times(bonus, Ghost(p2)).times(partners, Ghost(p3)).times(grown, Ghost(p4));
    product.scaled(Ghost(p5))
}

/// Computes the change of vitality.
pub fn vital_gain(base: i32, train: usize, effect: &CardTrainingEffect) -> (r: i32)
    ensures
        r == vital_change(base as int, train as int, *effect),
{
    let net: i128 = if train == WISDOM_LANE {
        base as i128 + effect.wiz_vital_bonus as i128
    } else {
        base as i128
    };
    if net < 0 {
        let kept: i128 = 100 - effect.vital_cost_drop as i128;
        assert(-0x2_0000_0000_0000_0000 <= net * kept <= 0x2_0000_0000_0000_0000)
            by (nonlinear_arith)
            requires
                -0x1_0000_0000 <= net <= 0x1_0000_0000,
                -0x1_0000_0000 <= kept <= 0x1_0000_0000,
        ;
        let scaled: i128 = net * kept;
        if scaled >= 0 {
            clamp_to_i32(scaled / 100)
        } else {
            clamp_to_i32(-((-scaled) / 100))
        }
    } else {
        clamp_to_i32(net)
    }
}

/// The value of a training: what lane `train` at facility `level` gives to
/// the trainee `uma` when `count` partners attend and the helpers lend
/// `effect`. The value depends on these arguments and on nothing else.
pub fn training_value(
    cons: &GameConstants,
    train: usize,
    level: usize,
    count: usize,
    effect: &CardTrainingEffect,
    uma: &Uma,
) -> (r: Result<ActionValue, SimError>)
    ensures
        r == training_result(*cons, train as int, level as int, count as int, *effect, *uma),
{
    if train >= 5 {
        return Err(SimError::InvalidLane);
    }
    let base = match cons.basic_value(train, level) {
        Some(row) => row,
        None => {
            return Err(SimError::InvalidLevel);
        },
    };
    let flat = &effect.bonus;
    let growth = &uma.five_status_bonus;
    let m: i32 = uma.motivation;
    let status_pt: [i32; 6] = [
        stat_gain(base[0], flat[0], effect, m, count, growth[0]),
        stat_gain(base[1], flat[1], effect, m, count, growth[1]),
        stat_gain(base[2], flat[2], effect, m, count, growth[2]),
        stat_gain(base[3], flat[3], effect, m, count, growth[3]),
        stat_gain(base[4], flat[4], effect, m, count, growth[4]),
        stat_gain(base[5], flat[5], effect, m, count, growth[5]),
    ];
    let vital: i32 = vital_gain(base[6], train, effect);
    assert(status_pt@ =~= training_value_of(base, train as int, count as int, *effect, *uma).status_pt@);
    Ok(ActionValue { status_pt, vital })
}

} // verus!
