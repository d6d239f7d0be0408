use vstd::prelude::*;

verus! {

/// The values that survive in a capacity-`cap` ring after the values of
/// `history` have been appended in order: the last `cap` of them (all of
/// them while the ring is still filling), oldest first.
pub open spec fn surviving<T>(history: Seq<T>, cap: nat) -> Seq<T> {
    if history.len() <= cap {
        history
    } else {
        history.skip(history.len() - cap)
    }
}

/// How one more appended value changes the surviving values: it is appended
/// at the newest end, and the oldest surviving value is evicted exactly when
/// the ring is already full.
pub proof fn lemma_surviving_step<T>(history: Seq<T>, el: T, cap: nat)
    requires
        cap > 0,
    ensures
        surviving(history.push(el), cap) == if surviving(history, cap).len() < cap {
            surviving(history, cap).push(el)
        } else {
            surviving(history, cap).subrange(1, cap as int).push(el)
        },
{
    if history.len() < cap {
        assert(surviving(history.push(el), cap) =~= surviving(history, cap).push(el));
    } else {
        assert(surviving(history, cap).len() == cap);
        assert(surviving(history.push(el), cap) =~= surviving(history, cap).subrange(
            1,
            cap as int,
        ).push(el));
    }
}

/// Law: as long as no more than `N` values have ever been appended, the ring
/// holds exactly the appended values, in insertion order, and its length
/// equals their count.
pub proof fn lemma_filling_keeps_all<T: Copy, const N: usize>(r: Ring<T, N>)
    requires
        r.wf(),
        r.history().len() <= N,
    ensures
        r@ == r.history(),
{
}

/// Law: once more than `N` values have been appended, the ring holds exactly
/// the last `N` appended values, oldest first, however many appends occurred.
pub proof fn lemma_full_keeps_newest<T: Copy, const N: usize>(r: Ring<T, N>)
    requires
        r.wf(),
        r.history().len() > N,
    ensures
        r@.len() == N,
        r@ == r.history().skip(r.history().len() - N),
{
}

/// Law: after any append, the newest stored value is the value appended most
/// recently (a ring of capacity 0 stores nothing, hence the bound on `N`).
pub proof fn lemma_newest_is_last_appended<T: Copy, const N: usize>(r: Ring<T, N>)
    requires
        r.wf(),
        r.history().len() > 0,
        N > 0,
    ensures
        r@.len() > 0,
        r@.last() == r.history().last(),
{
}

/// Append-only circular buffer of capacity `N`. Once `N` values have been
/// appended, each further append overwrites the logically oldest value. The
/// backing storage is laid out in full at construction; appends allocate
/// nothing.
#[derive(Clone)]
pub struct Ring<T, const N: usize> {
    data: Vec<T>,
    next: usize,
    len: usize,
    history: Ghost<Seq<T>>,
}

impl<T, const N: usize> View for Ring<T, N> {
    type V = Seq<T>;

    /// The currently stored values, oldest to newest.
    closed spec fn view(&self) -> Seq<T> {
        if self.len < N {
            self.data@.subrange(0, self.len as int)
        } else {
            self.data@.subrange(self.next as int, N as int) + self.data@.subrange(
                0,
                self.next as int,
            )
        }
    }
}

impl<T: Copy + Default, const N: usize> Ring<T, N> {
    /// Creates a new empty `Ring` of capacity `N`, every slot holding `T`'s
    /// default value.
    pub fn new() -> (r: Self)
        ensures
            r.wf(),
            r@ == Seq::<T>::empty(),
            r.history() == Seq::<T>::empty(),
    {
        let mut data: Vec<T> = Vec::new();
        while data.len() < N
            invariant
                data@.len() <= N,
            decreases N - data@.len(),
        {
            data.push(T::default());
        }
        let r = Ring { data, next: 0, len: 0, history: Ghost(Seq::empty()) };
        proof {
            assert(r@ =~= Seq::<T>::empty());
        }
        r
    }
}

impl<T: Copy + Default, const N: usize> Default for Ring<T, N> {
    /// An empty ring of capacity `N`.
    fn default() -> (r: Self)
        ensures
            r.wf(),
            r@ == Seq::<T>::empty(),
            r.history() == Seq::<T>::empty(),
    {
        Self::new()
    }
}

impl<T: Copy, const N: usize> Ring<T, N> {
    /// All values ever appended to this ring, oldest first.
    pub closed spec fn history(self) -> Seq<T> {
        self.history@
    }

    /// Internal consistency: the cursor, the length counter, the backing
    /// storage and the append history agree. The storage always holds `N`
    /// slots; while the ring is filling the cursor equals the length, and
    /// once full it marks the oldest value.
    pub closed spec fn wf(self) -> bool {
        &&& self.len <= N
        &&& self.data@.len() == N
        &&& if self.len < N {
            self.next == self.len
        } else {
            self.next < N || N == 0
        }
        &&& self.len == self@.len()
        &&& self@ == surviving(self.history@, N as nat)
    }

    /// Appends a value at the cursor slot. While fewer than `N` values have
    /// been appended the length grows by one; once the ring is full the value
    /// replaces the logically oldest one.
    pub fn append(&mut self, el: T)
        requires
            old(self).wf(),
            N > 0,
        ensures
            final(self).wf(),
            final(self).history() == old(self).history().push(el),
            final(self)@ == if old(self)@.len() < N {
                old(self)@.push(el)
            } else {
                old(self)@.subrange(1, N as int).push(el)
            },
            final(self)@.len() == if old(self)@.len() < N {
                old(self)@.len() + 1
            } else {
                N as nat
            },
            final(self)@.last() == el,
    {
        proof {
            lemma_surviving_step(self.history@, el, N as nat);
        }
        let ghost old_view = self@;
        let was_full = self.len == N;
        self.data.set(self.next, el);
        if !was_full {
            self.len = self.len + 1;
        }
        self.next = if self.next + 1 == N {
            0
        } else {
            self.next + 1
        };
        self.history = Ghost(self.history@.push(el));
        proof {
            if !was_full {
                assert(self@ =~= old_view.push(el));
            } else {
                assert(self@ =~= old_view.subrange(1, N as int).push(el));
            }
        }
    }

    /// Number of values currently stored; it never decreases and never
    /// exceeds the capacity `N`.
    pub fn len(&self) -> (r: usize)
        requires
            self.wf(),
        ensures
            r == self@.len(),
    {
        self.len
    }

    /// Whether the ring holds no values.
    pub fn is_empty(&self) -> (r: bool)
        requires
            self.wf(),
        ensures
            r == (self@.len() == 0),
    {
        self.len == 0
    }

    /// The capacity `N` of the ring.
    pub fn size(&self) -> (r: usize)
        ensures
            r == N,
    {
        N
    }

    /// The most recently appended value, or `None` if nothing was ever
    /// appended. The value written just before the cursor is read, with the
    /// cursor wrapping at index 0.
    pub fn last(&self) -> (r: Option<T>)
        requires
            self.wf(),
        ensures
            r == if self@.len() == 0 {
                Option::<T>::None
            } else {
                Option::<T>::Some(self@.last())
            },
    {
        if self.len == 0 {
            None
        } else if self.next == 0 {
            Some(self.data[self.data.len() - 1])
        } else {
            Some(self.data[self.next - 1])
        }
    }

    /// An iterator over the stored values, starting from the oldest one. The
    /// oldest value sits at physical index 0 while the ring is filling, and
    /// at the cursor once the ring is full (the next write would evict it).
    pub fn iter(&self) -> (it: RingIterator<'_, T, N>)
        requires
            self.wf(),
        ensures
            it.wf(),
            it@ == self@,
            it.pos() == 0,
    {
        RingIterator {
            circular: self,
            start: if self.len() == N {
                self.next
            } else {
                0
            },
            count: 0,
        }
    }
}

/// Iterator over a `Ring`, yielding the stored values oldest first.
pub struct RingIterator<'a, T, const N: usize> {
    start: usize,
    count: usize,
    circular: &'a Ring<T, N>,
}

impl<'a, T: Copy, const N: usize> View for RingIterator<'a, T, N> {
    type V = Seq<T>;

    /// The full sequence of values this iterator walks, oldest to newest.
    closed spec fn view(&self) -> Seq<T> {
        self.circular@
    }
}

impl<'a, T: Copy, const N: usize> RingIterator<'a, T, N> {
    /// How many values have been yielded so far.
    pub closed spec fn pos(self) -> int {
        self.count as int
    }

    /// Internal consistency: the underlying ring is well formed, the walk
    /// starts at the ring's oldest value, and no more than all stored values
    /// have been yielded.
    pub closed spec fn wf(self) -> bool {
        &&& self.circular.wf()
        &&& self.count <= self.circular@.len()
        &&& self.start == if self.circular.len == N {
            self.circular.next as int
        } else {
            0int
        }
    }

    /// Yields the next value, oldest first: the value at position `pos()` of
    /// the sequence being walked, or `None` once all values were yielded.
    pub fn next(&mut self) -> (r: Option<T>)
        requires
            old(self).wf(),
        ensures
            final(self).wf(),
            final(self)@ == old(self)@,
            old(self).pos() < old(self)@.len() ==> r == Option::<T>::Some(
                old(self)@[old(self).pos()],
            ) && final(self).pos() == old(self).pos() + 1,
            old(self).pos() >= old(self)@.len() ==> r == Option::<T>::None && final(self).pos()
                == old(self).pos(),
    {
        let len = self.circular.len();
        if self.count == len {
            return None;
        }
        let current_index = if self.count < len - self.start {
            self.start + self.count
        } else {
            self.count - (len - self.start)
        };
        let result = self.circular.data[current_index];
        self.count = self.count + 1;
        Some(result)
    }
}

} // verus!
