use vstd::prelude::*;
use crate::error::SimError;

verus! {

/// The five trained stats: speed, stamina, power, guts, wisdom.
pub type Array5 = [i32; 5];

/// The five trained stats followed by skill points.
pub type Array6 = [i32; 6];

/// Fixed-width vectors of attributes that are combined cell by cell.
pub trait AttributeArray: Sized {
    /// The cells of the vector, in order.
    spec fn cells(&self) -> Seq<i32>;

    /// Adds `other` to `self`, cell by cell.
    fn add_eq(&mut self, other: &Self) -> (r: &mut Self)
        requires
            other.cells().len() == old(self).cells().len(),
            forall|i: int|
                0 <= i < old(self).cells().len() ==> i32::MIN <= #[trigger] old(self).cells()[i]
                    + other.cells()[i] <= i32::MAX,
        ensures
            r.cells().len() == old(self).cells().len(),
            forall|i: int|
                0 <= i < old(self).cells().len() ==> #[trigger] r.cells()[i] == old(self).cells()[i]
                    + other.cells()[i],
            *final(self) == *final(r),
    ;

    /// Whether every cell is zero.
    fn is_default(&self) -> (r: bool)
        ensures
            r == (forall|i: int| 0 <= i < self.cells().len() ==> #[trigger] self.cells()[i] == 0),
    ;
}

impl<const N: usize> AttributeArray for [i32; N] {
    open spec fn cells(&self) -> Seq<i32> {
        self@
    }

    fn add_eq(&mut self, other: &Self) -> (r: &mut Self) {
        let mut i: usize = 0;
        while i < N
            invariant
                i <= N,
                self@.len() == N,
                other@.len() == N,
                forall|k: int| 0 <= k < i ==> #[trigger] self@[k] == old(self)@[k] + other@[k],
                forall|k: int| i <= k < N ==> #[trigger] self@[k] == old(self)@[k],
                forall|k: int|
                    0 <= k < N ==> i32::MIN <= #[trigger] old(self)@[k] + other@[k] <= i32::MAX,
            decreases N - i,
        {
            self[i] = self[i] + other[i];
            i += 1;
        }
        self
    }

    fn is_default(&self) -> (r: bool) {
        let mut i: usize = 0;
        while i < N
            invariant
                i <= N,
                self@.len() == N,
                forall|k: int| 0 <= k < i ==> #[trigger] self@[k] == 0,
            decreases N - i,
        {
            if self[i] != 0 {
                assert(self.cells()[i as int] != 0);
                return false;
            }
            i += 1;
        }
        true
    }
}

/// Parts the five stats from the skill points that follow them.
pub fn split_status(status_pt: &Array6) -> (r: Result<(Array5, i32), SimError>)
    ensures
        r matches Ok((stats, pt)) && stats@ == status_pt@.take(5) && pt == status_pt@[5],
{
    let stats: Array5 = [status_pt[0], status_pt[1], status_pt[2], status_pt[3], status_pt[4]];
    assert(stats@ =~= status_pt@.take(5));
    Ok((stats, status_pt[5]))
}

} // verus!
