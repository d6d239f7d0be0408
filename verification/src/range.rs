use vstd::prelude::*;

use crate::elem::Element;
use crate::ring::Ring;

verus! {

/// Contains min and max value in a `Ring`.
#[derive(Debug)]
pub struct Range<T> {
    /// Minimum value
    pub min: T,
    /// Maximum value
    pub max: T,
}

impl<T: Element> Range<T> {
    /// Returns the range delta `max - min`, defined whenever the difference
    /// is representable in `T`.
    pub fn delta(&self) -> (r: T)
        requires
            T::min_int() <= self.max.to_int() - self.min.to_int() <= T::max_int(),
        ensures
            r.to_int() == self.max.to_int() - self.min.to_int(),
    {
        self.max.sub(self.min)
    }
}

/// Trait defining a `range` method to find min and max in one iteration.
pub trait FindRange<T: Element> {
    /// Well-formedness the receiver must satisfy.
    spec fn valid(&self) -> bool;

    /// The values the minimum and maximum are taken over, oldest to newest.
    spec fn values(&self) -> Seq<T>;

    /// Calculate min and max with one iteration: `None` exactly when there
    /// are no values; otherwise both extremes are values actually present,
    /// and every value lies between them.
    fn range(&self) -> (r: Option<Range<T>>)
        requires
            self.valid(),
        ensures
            (r is Some) <==> self.values().len() > 0,
            r matches Some(mm) ==> {
                &&& self.values().contains(mm.min)
                &&& self.values().contains(mm.max)
                &&& forall|i: int|
                    0 <= i < self.values().len() ==> mm.min.to_int()
                        <= #[trigger] self.values()[i].to_int() <= mm.max.to_int()
            },
    ;
}

impl<T: Element, const N: usize> FindRange<T> for Ring<T, N> {
    /// A ring can be scanned whenever it is well formed.
    open spec fn valid(&self) -> bool {
        self.wf()
    }

    /// The scan runs over the stored values.
    open spec fn values(&self) -> Seq<T> {
        self@
    }

    /// Single pass over `iter()`: min and max are seeded with the first
    /// (oldest) value and updated by strict comparisons, so among equal
    /// extremes the first-seen one is kept.
    fn range(&self) -> (r: Option<Range<T>>) {
        if self.len() == 0 {
            return None;
        }
        let mut iter = self.iter();
        let first = iter.next().unwrap();
        let mut min_max = Range { min: first, max: first };
        proof {
            assert(self@.contains(self@[0]));
        }
        let len = self.len();
        let mut i: usize = 1;
        while i < len
            invariant
                self.wf(),
                iter.wf(),
                iter@ == self@,
                len == self@.len(),
                1 <= i <= len,
                iter.pos() == i,
                self@.contains(min_max.min),
                self@.contains(min_max.max),
                forall|k: int|
                    0 <= k < i ==> min_max.min.to_int() <= #[trigger] self@[k].to_int()
                        <= min_max.max.to_int(),
            decreases len - i,
        {
            let el = iter.next().unwrap();
            proof {
                assert(self@.contains(self@[i as int]));
            }
            if el.lt(min_max.min) {
                min_max.min = el;
            }
            if min_max.max.lt(el) {
                min_max.max = el;
            }
            i = i + 1;
        }
        Some(min_max)
    }
}

} // verus!
