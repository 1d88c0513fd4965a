use vstd::prelude::*;
use crate::error::SimError;
use crate::game::model::{
    absent_weight, int_weights_usable, lane_weight, spread_rank, GameView, PersonType,
};
use crate::game::sampling::{weight_total, weights_usable};

verus! {

/// What a placement returns for a person that stays away from all lanes.
pub const ABSENT: i32 = -1;

/// How many lanes are drawn for one person before it is left out.
pub const MAX_RETRIES: u32 = 10;

impl GameView {
    /// Whether person `a` is spread before person `b`: its kind comes first,
    /// or the kinds agree and it stands first in the roster.
    pub open spec fn spread_before(self, a: int, b: int) -> bool {
        let ra = spread_rank(self.persons[a].person_type);
        let rb = spread_rank(self.persons[b].person_type);
        ra < rb || (ra == rb && a < b)
    }

    /// Whether person `p` has had its turn when the kinds before `rank` are
    /// through and, of kind `rank`, the persons before `upto`.
    pub open spec fn spread_done(self, rank: int, upto: int, p: int) -> bool {
        let r = spread_rank(self.persons[p].person_type);
        r < rank || (r == rank && p < upto)
    }

    /// Whether the persons of each lane stand in the order in which they
    /// were spread.
    pub open spec fn in_spread_order(self) -> bool {
        forall|l: int, j: int, k: int|
            0 <= l < self.distribution.len() && 0 <= j < k < self.distribution[l].len()
                ==> self.spread_before(
                #[trigger] self.distribution[l][j] as int,
                #[trigger] self.distribution[l][k] as int,
            )
    }

    /// Whether person `p` stands in no lane.
    pub open spec fn not_placed(self, p: i32) -> bool {
        forall|l: int|
            0 <= l < self.distribution.len() ==> !(#[trigger] self.distribution[l]).contains(p)
    }

    /// What spreading the whole roster returns and makes of the state. Only
    /// the distribution changes. In any case the lanes are well formed, no
    /// person stands in two of them, and in each lane the persons stand in the
    /// order of spreading. It succeeds exactly when the roster can be
    /// numbered with 32 bits and every person can be drawn for; else it
    /// returns the error of the first person, in the order of spreading, that
    /// cannot.
    pub open spec fn spread_outcome(self, r: Result<(), SimError>, after: GameView) -> bool {
        &&& after == self.with_distribution(after.distribution)
        &&& after.lanes_wf()
        &&& after.in_one_lane_each()
        &&& after.in_spread_order()
        &&& match r {
            Ok(_) => {
                &&& self.persons.len() <= i32::MAX
                &&& forall|p: int|
                    self.valid_person(p) ==> #[trigger] self.draw_error(p, true) is None
            },
            Err(e) => if self.persons.len() > i32::MAX {
                e == SimError::RosterTooLarge
            } else {
                exists|p: int|
                    {
                        &&& self.valid_person(p)
                        &&& #[trigger] self.draw_error(p, true) == Some(e)
                        &&& forall|q: int|
                            self.valid_person(q) && self.spread_before(q, p)
                                ==> #[trigger] self.draw_error(q, true) is None
                    }
            },
        }
    }

    /// What placing person `p` returns and makes of the state. Where `p`
    /// cannot be drawn for, the error comes and nothing changes. Else the
    /// result is a lane or `ABSENT`. A lane had a positive weight and took
    /// `p`, which now stands at its end. With `ABSENT` nothing changes; where
    /// staying away was not allowed, it comes only if some lane that can be
    /// drawn refuses `p`.
    pub open spec fn placement(
        self,
        p: i32,
        allow_absent: bool,
        r: Result<i32, SimError>,
        after: GameView,
    ) -> bool {
        match self.draw_error(p as int, allow_absent) {
            Some(e) => r == Err::<i32, SimError>(e) && after == self,
            None => match r {
                Err(_) => false,
                Ok(lane) => if lane == ABSENT {
                    &&& after == self
                    &&& (allow_absent || !self.every_open_lane_accepts(p))
                } else {
                    &&& 0 <= lane < 5
                    &&& lane_weight(
                        lane as int,
                        self.persons[p as int].train_type as int,
                        self.lane_favor(p as int),
                    ) > 0
                    &&& self.accepts(lane as int, p)
                    &&& after == self.with_person_in(lane as int, p)
                },
            },
        }
    }
}

/// Computes the weight of staying away.
pub fn absent_rate(kind: PersonType, absent_rate_drop: i32, allow_absent: bool) -> (r: i64)
    ensures
        r == absent_weight(kind, absent_rate_drop as int, allow_absent),
{
    if !allow_absent {
        0
    } else {
        match kind {
            PersonType::Card => 50 - absent_rate_drop as i64,
            PersonType::Yayoi | PersonType::Reporter => 200,
            _ => 100 - absent_rate_drop as i64,
        }
    }
}

/// The six weights of the first draw, where each fits 32 bits: the five
/// lanes, then staying away.
pub fn person_weights(train_type: i32, favor: i32, absent: i64) -> (r: Option<Vec<i32>>)
    ensures
        match r {
            Some(w) => {
                &&& w@.len() == 6
                &&& forall|i: int|
                    0 <= i < 5 ==> #[trigger] w@[i] == lane_weight(i, train_type as int, favor as int)
                &&& w@[5] == absent
            },
            None => !(i32::MIN <= absent <= i32::MAX) || (0 <= train_type <= 4 && 100 + favor
                > i32::MAX),
        },
{
    if absent < -2147483648 || absent > 2147483647 {
        return None;
    }
    let own: i64 = 100 + favor as i64;
    if 0 <= train_type && train_type <= 4 && own > 2147483647 {
        return None;
    }
    let mut weights: Vec<i32> = Vec::new();
    let mut lane: i32 = 0;
    while lane < 5
        invariant
            0 <= lane <= 5,
            weights@.len() == lane,
            own == 100 + favor,
            0 <= train_type <= 4 ==> own <= i32::MAX,
            forall|i: int|
                0 <= i < lane ==> #[trigger] weights@[i] == lane_weight(
                    i,
                    train_type as int,
                    favor as int,
                ),
        decreases 5 - lane,
    {
        if 0 <= train_type && train_type <= 4 && lane == train_type {
            weights.push(own as i32);
        } else {
            weights.push(100);
        }
        lane += 1;
    }
    weights.push(absent as i32);
    Some(weights)
}

/// The weights of the five lanes alone.
pub fn lane_part(weights: &Vec<i32>) -> (r: Vec<i32>)
    requires
        weights@.len() == 6,
    ensures
        r@ == weights@.take(5),
{
    let mut lanes: Vec<i32> = Vec::new();
    let mut i: usize = 0;
    while i < 5
        invariant
            i <= 5,
            weights@.len() == 6,
            lanes@ == weights@.take(i as int),
        decreases 5 - i,
    {
        lanes.push(weights[i]);
        assert(weights@.take(i as int).push(weights@[i as int]) =~= weights@.take(i + 1));
        i += 1;
    }
    lanes
}

/// Where six weights can be drawn from and four of the lanes weigh 100, the
/// five lanes alone can be drawn from too.
pub proof fn lemma_lane_part_usable(weights: Seq<i32>, train_type: int, favor: int)
    requires
        weights.len() == 6,
        weights_usable(weights),
        forall|i: int| 0 <= i < 5 ==> #[trigger] weights[i] == lane_weight(i, train_type, favor),
    ensures
        weights_usable(weights.take(5)),
{
    let lanes = weights.take(5);
    lemma_total_of_six(weights);
    lemma_total_of_five(lanes);
    assert(weights[0] == lane_weight(0, train_type, favor));
    assert(weights[1] == lane_weight(1, train_type, favor));
    assert(weights[2] == lane_weight(2, train_type, favor));
    assert(weights[3] == lane_weight(3, train_type, favor));
    assert(weights[4] == lane_weight(4, train_type, favor));
    assert(weights[5] >= 0);
}

proof fn lemma_total_of_five(w: Seq<i32>)
    requires
        w.len() == 5,
    ensures
        weight_total(w) == w[0] + w[1] + w[2] + w[3] + w[4],
{
    let w4 = w.drop_last();
    let w3 = w4.drop_last();
    let w2 = w3.drop_last();
    let w1 = w2.drop_last();
    let w0 = w1.drop_last();
    assert(weight_total(w0) == 0);
    assert(weight_total(w1) == weight_total(w0) + w1.last());
    assert(weight_total(w2) == weight_total(w1) + w2.last());
    assert(weight_total(w3) == weight_total(w2) + w3.last());
    assert(weight_total(w4) == weight_total(w3) + w4.last());
    assert(weight_total(w) == weight_total(w4) + w.last());
}

proof fn lemma_total_of_six(w: Seq<i32>)
    requires
        w.len() == 6,
    ensures
        weight_total(w) == w[0] + w[1] + w[2] + w[3] + w[4] + w[5],
{
    lemma_total_of_five(w.drop_last());
}

/// A person that may not stay away is placed whenever every lane that can
/// be drawn for it takes it.
pub proof fn lemma_placed_when_welcome(
    v: GameView,
    p: i32,
    r: Result<i32, SimError>,
    after: GameView,
)
    requires
        v.distribution.len() == 5,
        v.placement(p, false, r, after),
        v.draw_error(p as int, false) is None,
        v.every_open_lane_accepts(p),
    ensures
        r matches Ok(lane) && 0 <= lane < 5 && after.distribution[lane as int].contains(p),
{
    let lane = r->Ok_0;
    let there = v.distribution[lane as int].push(p);
    assert(there[there.len() - 1] == p);
}

/// A person that no lane takes is left out: it counts as staying away,
/// nothing changes, and no error comes of it.
pub proof fn lemma_left_out_when_unwelcome(
    v: GameView,
    p: i32,
    allow_absent: bool,
    r: Result<i32, SimError>,
    after: GameView,
)
    requires
        v.placement(p, allow_absent, r, after),
        v.draw_error(p as int, allow_absent) is None,
        forall|l: int| 0 <= l < 5 ==> !v.accepts(l, p),
    ensures
        r == Ok::<i32, SimError>(ABSENT),
        after == v,
{
}

/// In well-formed lanes no lane holds more than five persons or two friends.
pub proof fn lemma_lanes_are_bounded(v: GameView, l: int, j: int, k: int)
    requires
        v.lanes_wf(),
        0 <= l < 5,
        0 <= j < v.distribution[l].len(),
        0 <= k < v.distribution[l].len(),
        j != k,
    ensures
        v.distribution[l].len() <= 5,
        v.distribution[l][j] != v.distribution[l][k],
        !(v.persons[v.distribution[l][j] as int].is_friend() && v.persons[v.distribution[l][k] as int].is_friend()),
{
    let lane = v.distribution[l];
    assert(v.lane_wf(lane));
    if j < k {
        assert(!(v.persons[lane[j] as int].is_friend() && v.persons[lane[k] as int].is_friend()));
    } else {
        assert(!(v.persons[lane[k] as int].is_friend() && v.persons[lane[j] as int].is_friend()));
    }
}

/// The kinds of persons in the order in which they are spread.
pub fn spread_order() -> (r: [PersonType; 6])
    ensures
        forall|k: int| 0 <= k < 6 ==> spread_rank(#[trigger] r@[k]) == k,
{
    [
        PersonType::Yayoi,
        PersonType::Reporter,
        PersonType::ScenarioCard,
        PersonType::TeamCard,
        PersonType::Card,
        PersonType::Npc,
    ]
}

/// Whether a person can be drawn for does not depend on who stands where.
pub proof fn lemma_draw_error_ignores_lanes(
    v: GameView,
    lanes: Seq<Seq<i32>>,
    p: int,
    allow_absent: bool,
)
    ensures
        v.with_distribution(lanes).draw_error(p, allow_absent) == v.draw_error(p, allow_absent),
{
    let w = v.with_distribution(lanes);
    assert(w.draw_weights(p, allow_absent) =~= v.draw_weights(p, allow_absent));
}

/// A person that stands nowhere and joins one lane stands in that lane only,
/// and everybody else stays where they were.
pub proof fn lemma_join_keeps_one_lane_each(v: GameView, lane: int, p: i32)
    requires
        v.distribution.len() == 5,
        0 <= lane < 5,
        v.in_one_lane_each(),
        v.not_placed(p),
    ensures
        v.with_person_in(lane, p).in_one_lane_each(),
{
    let after = v.with_person_in(lane, p);
    assert forall|q: i32, a: int, b: int| 0 <= a < b < after.distribution.len() implies !(
    #[trigger] after.distribution[a].contains(q) && #[trigger] after.distribution[b].contains(q)) by {
        if after.distribution[a].contains(q) && after.distribution[b].contains(q) {
            lemma_stood_before(v, lane, p, a, q);
            lemma_stood_before(v, lane, p, b, q);
            if q == p {
                if a != lane {
                    assert(!v.distribution[a].contains(p));
                } else {
                    assert(!v.distribution[b].contains(p));
                }
            } else {
                assert(v.distribution[a].contains(q) && v.distribution[b].contains(q));
            }
        }
    }
}

/// Who stands in a lane after `p` joined lane `lane` stood there before,
/// unless it is `p` in lane `lane`.
pub proof fn lemma_stood_before(v: GameView, lane: int, p: i32, l: int, q: i32)
    requires
        0 <= lane < v.distribution.len(),
        0 <= l < v.distribution.len(),
        v.with_person_in(lane, p).distribution[l].contains(q),
    ensures
        v.distribution[l].contains(q) || (l == lane && q == p),
{
    let after = v.with_person_in(lane, p).distribution[l];
    if l == lane {
        let before = v.distribution[lane];
        let k = choose|k: int| 0 <= k < after.len() && after[k] == q;
        if k < before.len() {
            assert(before[k] == q);
        }
    }
}

/// Adding a person to a lane that takes it keeps the lanes well formed.
pub proof fn lemma_join_keeps_lanes_wf(v: GameView, lane: int, p: i32)
    requires
        v.lanes_wf(),
        v.valid_person(p as int),
        0 <= lane < 5,
        v.accepts(lane, p),
    ensures
        v.with_person_in(lane, p).lanes_wf(),
{
    let after = v.with_person_in(lane, p);
    let before = v.distribution[lane];
    let there = before.push(p);
    assert(v.lane_wf(before));
    assert forall|j: int, k: int| 0 <= j < k < there.len() implies there[j] != there[k] by {
        if k == before.len() {
            assert(before[j] == there[j]);
            assert(!before.contains(p));
        }
    }
    assert forall|j: int, k: int| 0 <= j < k < there.len() implies !((
    #[trigger] after.persons[there[j] as int]).is_friend() && (#[trigger] after.persons[there[k] as int]).is_friend()) by {
        if k == before.len() {
            assert(before[j] == there[j]);
            if v.persons[p as int].is_friend() && v.persons[before[j] as int].is_friend() {
                assert(v.has_friend(before));
            }
        } else {
            assert(before[j] == there[j] && before[k] == there[k]);
        }
    }
    assert forall|k: int| 0 <= k < there.len() implies after.valid_person(
        #[trigger] there[k] as int,
    ) by {
        if k < before.len() {
            assert(there[k] == before[k]);
        }
    }
    assert(after.lane_wf(there));
    assert forall|l: int| 0 <= l < 5 implies after.lane_wf(#[trigger] after.distribution[l]) by {
        if l != lane {
            assert(after.distribution[l] == v.distribution[l]);
            assert(v.lane_wf(v.distribution[l]));
        }
    }
}

/// The weights that are drawn from are the weights that the state names.
pub proof fn lemma_weights_match(
    v: GameView,
    p: int,
    allow_absent: bool,
    weights: Seq<i32>,
)
    requires
        v.valid_person(p),
        weights.len() == 6,
        forall|i: int|
            0 <= i < 5 ==> #[trigger] weights[i] == lane_weight(
                i,
                v.persons[p].train_type as int,
                v.lane_favor(p),
            ),
        weights[5] == absent_weight(
            v.persons[p].person_type,
            v.absent_rate_drop as int,
            allow_absent,
        ),
    ensures
        int_weights_usable(v.draw_weights(p, allow_absent)) == weights_usable(weights),
{
    let named = v.draw_weights(p, allow_absent);
    assert forall|i: int| 0 <= i < 6 implies named[i] == weights[i] as int by {
        if i < 5 {
            assert(weights[i] == lane_weight(i, v.persons[p].train_type as int, v.lane_favor(p)));
        }
    }
    assert(Seq::new(named.len(), |i: int| named[i] as i32) =~= weights);
}

} // verus!
