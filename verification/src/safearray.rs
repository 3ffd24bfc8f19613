//! Stepping through the positions of the host's multi-dimensional arrays.

use vstd::prelude::*;

verus! {

/// One dimension of an array: its lowest index and its number of elements.
#[derive(Debug, Clone, Copy, PartialEq, Eq, Structural)]
pub struct Bound {
    pub lower: i32,
    pub count: u32,
}

impl Bound {
    /// The index one past the last of the dimension.
    pub open spec fn end(self) -> int {
        self.lower + self.count
    }

    /// The dimension's indices are all 32-bit numbers, its end included.
    pub open spec fn fits(self) -> bool {
        self.end() <= i32::MAX
    }
}

/// Every dimension fits.
pub open spec fn all_fit(bounds: Seq<Bound>) -> bool {
    forall|i: int| 0 <= i < bounds.len() ==> (#[trigger] bounds[i]).fits()
}

/// The position `idx` after a step in dimension `k`: the dimensions below
/// `k` start over, dimension `k` moves on by one, the others stay.
pub open spec fn stepped(bounds: Seq<Bound>, idx: Seq<i32>, k: int) -> Seq<i32> {
    Seq::new(
        idx.len(),
        |j: int|
            if j < k {
                bounds[j].lower
            } else if j == k {
                (idx[j] + 1) as i32
            } else {
                idx[j]
            },
    )
}

/// Whether dimension `k` is the lowest in which `idx` has not passed the end.
pub open spec fn steps_at(bounds: Seq<Bound>, idx: Seq<i32>, k: int) -> bool {
    &&& 0 <= k < bounds.len()
    &&& idx[k] < bounds[k].end()
    &&& forall|j: int| 0 <= j < k ==> idx[j] >= #[trigger] bounds[j].end()
}

/// Whether the dimensions fit; only then can positions be stepped.
pub fn bounds_fit(bounds: &Vec<Bound>) -> (r: bool)
    ensures
        r == all_fit(bounds@),
{
    let mut i: usize = 0;
    while i < bounds.len()
        invariant
            i <= bounds.len(),
            forall|j: int| 0 <= j < i ==> (#[trigger] bounds[j]).fits(),
        decreases bounds.len() - i,
    {
        let b = bounds[i];
        if (b.lower as i64) + (b.count as i64) > 0x7fff_ffff {
            assert(!bounds[i as int].fits());
            return false;
        }
        i += 1;
    }
    true
}

/// The first position of an array: the lowest index of every dimension.
pub fn first_index(bounds: &Vec<Bound>) -> (idx: Vec<i32>)
    ensures
        idx@.len() == bounds@.len(),
        forall|i: int| 0 <= i < bounds@.len() ==> idx[i] == bounds[i].lower,
{
    let mut idx: Vec<i32> = Vec::with_capacity(bounds.len());
    let mut i: usize = 0;
    while i < bounds.len()
        invariant
            i <= bounds.len(),
            idx@.len() == i,
            forall|j: int| 0 <= j < i ==> idx[j] == bounds[j].lower,
        decreases bounds.len() - i,
    {
        idx.push(bounds[i].lower);
        i += 1;
    }
    idx
}

/// Steps `idx` in the lowest dimension in which it has not passed the end,
/// and says whether there was one. Where there was none, `idx` stays.
pub fn next_index(bounds: &Vec<Bound>, idx: &mut Vec<i32>) -> (r: bool)
    requires
        old(idx)@.len() == bounds@.len(),
        all_fit(bounds@),
    ensures
        r == exists|k: int| steps_at(bounds@, old(idx)@, k),
        !r ==> final(idx)@ == old(idx)@,
        forall|k: int|
            steps_at(bounds@, old(idx)@, k) ==> final(idx)@ == stepped(bounds@, old(idx)@, k),
{
    let ghost before = idx@;
    let mut i: usize = 0;
    while i < bounds.len()
        invariant
            i <= bounds.len(),
            idx@ == before,
            before == old(idx)@,
            before.len() == bounds@.len(),
            all_fit(bounds@),
            forall|j: int| 0 <= j < i ==> before[j] >= #[trigger] bounds[j].end(),
        decreases bounds.len() - i,
    {
        let b = bounds[i];
        assert(bounds[i as int].fits());
        if (idx[i] as i64) < (b.lower as i64) + (b.count as i64) {
            let moved: i32 = idx[i] + 1;
            idx[i] = moved;
            let mut j: usize = 0;
            while j < i
                invariant
                    j <= i,
                    i < bounds.len(),
                    idx@.len() == before.len(),
                    before.len() == bounds@.len(),
                    forall|m: int| 0 <= m < j ==> idx[m] == bounds[m].lower,
                    forall|m: int| j <= m < idx@.len() && m != i ==> idx[m] == before[m],
                    idx[i as int] == before[i as int] + 1,
                decreases i - j,
            {
                idx[j] = bounds[j].lower;
                j += 1;
            }
            proof {
                assert(steps_at(bounds@, before, i as int));
                assert(idx@ =~= stepped(bounds@, before, i as int));
                assert forall|k: int| steps_at(bounds@, before, k) implies k == i by {
                    if k < i {
                        assert(before[k] >= bounds[k].end());
                    }
                    if k > i {
                        assert(before[i as int] >= bounds[i as int].end());
                    }
                }
            }
            return true;
        }
        i += 1;
    }
    proof {
        assert forall|k: int| !steps_at(bounds@, before, k) by {
            if 0 <= k < bounds@.len() {
                assert(before[k] >= bounds[k].end());
            }
        }
    }
    false
}

} // verus!
