use vstd::prelude::*;

verus! {

/// Capability bound for values stored in a ring that take part in range
/// discovery: a copyable value with an exact mathematical integer meaning,
/// a total order given by that meaning, and bounded machine representation.
pub trait Element: Copy + Sized {
    /// The mathematical value this element stands for.
    spec fn to_int(self) -> int;

    /// Smallest mathematical value representable in `Self`.
    spec fn min_int() -> int;

    /// Largest mathematical value representable in `Self`.
    spec fn max_int() -> int;

    /// Every element lies between the representation bounds.
    proof fn lemma_bounds(self)
        ensures
            Self::min_int() <= self.to_int() <= Self::max_int(),
    ;

    /// Strict order on the mathematical values.
    fn lt(self, other: Self) -> (r: bool)
        ensures
            r == (self.to_int() < other.to_int()),
    ;

    /// Exact difference, defined whenever the result is representable.
    fn sub(self, other: Self) -> (r: Self)
        requires
            Self::min_int() <= self.to_int() - other.to_int() <= Self::max_int(),
        ensures
            r.to_int() == self.to_int() - other.to_int(),
    ;
}

impl Element for i16 {
    open spec fn to_int(self) -> int {
        self as int
    }

    open spec fn min_int() -> int {
        i16::MIN as int
    }

    open spec fn max_int() -> int {
        i16::MAX as int
    }

    proof fn lemma_bounds(self) {
    }

    fn lt(self, other: Self) -> bool {
        self < other
    }

    fn sub(self, other: Self) -> Self {
        self - other
    }
}

impl Element for i32 {
    open spec fn to_int(self) -> int {
        self as int
    }

    open spec fn min_int() -> int {
        i32::MIN as int
    }

    open spec fn max_int() -> int {
        i32::MAX as int
    }

    proof fn lemma_bounds(self) {
    }

    fn lt(self, other: Self) -> bool {
        self < other
    }

    fn sub(self, other: Self) -> Self {
        self - other
    }
}

impl Element for u32 {
    open spec fn to_int(self) -> int {
        self as int
    }

    open spec fn min_int() -> int {
        0
    }

    open spec fn max_int() -> int {
        u32::MAX as int
    }

    proof fn lemma_bounds(self) {
    }

    fn lt(self, other: Self) -> bool {
        self < other
    }

    fn sub(self, other: Self) -> Self {
        self - other
    }
}

} // verus!
