use vstd::prelude::*;

verus! {

/// A bounded, totally ordered identifier domain.
///
/// A domain type designates a fixed minimum (the conventional starting point
/// for issued IDs) and a fixed maximum, and supplies two successor operations:
/// one that saturates at the maximum and one that wraps around to the minimum.
///
/// For specification purposes every domain value is mapped to a mathematical
/// integer by [`Aictable::value`]; the mapping is injective, so equality of
/// values coincides with equality of their integers. Implementations are
/// provided for the fixed-width integer types (`i8`, `i16`, `i32`, `i64`,
/// `isize`, `u8`, `u16`, `u32`, `u64`, `usize`), where the mapping is the
/// identity.
pub trait Aictable: Sized + Copy + Clone + Eq + PartialEq + core::hash::Hash + core::fmt::Debug + vstd::std_specs::cmp::PartialEqSpec {
    /// The mathematical integer a domain value stands for.
    spec fn value(self) -> int;

    /// The integer of the domain's minimum value.
    spec fn min_value() -> int;

    /// The integer of the domain's maximum value.
    spec fn max_value() -> int;

    /// The domain is non-empty, its values are valid hash-table keys, and
    /// its `==` agrees with its specification.
    proof fn lemma_domain()
        ensures
            Self::min_value() <= Self::max_value(),
            vstd::std_specs::hash::obeys_key_model::<Self>(),
            Self::obeys_eq_spec(),
    ;

    /// Every value lies between the minimum and the maximum, the integer
    /// mapping is injective, and `==` means equality of the integers.
    proof fn lemma_value(a: Self, b: Self)
        ensures
            Self::min_value() <= a.value() <= Self::max_value(),
            (a.value() == b.value()) <==> (a == b),
            a.eq_spec(&b) <==> (a == b),
    ;

    /// The domain's minimum value, the conventional starting point for IDs.
    fn initial() -> (r: Self)
        ensures
            r.value() == Self::min_value(),
    ;

    /// Whether this value is the domain's maximum.
    fn is_max_reached(&self) -> (r: bool)
        ensures
            r <==> self.value() == Self::max_value(),
    ;

    /// The next value in domain order, staying at the maximum once reached.
    fn saturating_next(&self) -> (r: Self)
        ensures
            r.value() == (if self.value() == Self::max_value() {
                Self::max_value()
            } else {
                self.value() + 1
            }),
    ;

    /// The next value in domain order, wrapping past the maximum back to the
    /// minimum.
    fn wrapping_next(&self) -> (r: Self)
        ensures
            r.value() == (if self.value() == Self::max_value() {
                Self::min_value()
            } else {
                self.value() + 1
            }),
    ;
}

impl Aictable for u32 {
    open spec fn value(self) -> int {
        self as int
    }

    open spec fn min_value() -> int {
        u32::MIN as int
    }

    open spec fn max_value() -> int {
        u32::MAX as int
    }

    proof fn lemma_domain() {
        broadcast use vstd::std_specs::hash::group_hash_axioms;

    }

    proof fn lemma_value(a: Self, b: Self) {
    }

    fn initial() -> (r: Self) {
        u32::MIN
    }

    fn is_max_reached(&self) -> (r: bool) {
        *self == u32::MAX
    }

    fn saturating_next(&self) -> (r: Self) {
        if *self == u32::MAX {
            u32::MAX
        } else {
            *self + 1
        }
    }

    fn wrapping_next(&self) -> (r: Self) {
        if *self == u32::MAX {
            u32::MIN
        } else {
            *self + 1
        }
    }
}


impl Aictable for i8 {
    open spec fn value(self) -> int {
        self as int
    }

    open spec fn min_value() -> int {
        i8::MIN as int
    }

    open spec fn max_value() -> int {
        i8::MAX as int
    }

    proof fn lemma_domain() {
        broadcast use vstd::std_specs::hash::group_hash_axioms;

    }

    proof fn lemma_value(a: Self, b: Self) {
    }

    fn initial() -> (r: Self) {
        i8::MIN
    }

    fn is_max_reached(&self) -> (r: bool) {
        *self == i8::MAX
    }

    fn saturating_next(&self) -> (r: Self) {
        if *self == i8::MAX {
            i8::MAX
        } else {
            *self + 1
        }
    }

    fn wrapping_next(&self) -> (r: Self) {
        if *self == i8::MAX {
            i8::MIN
        } else {
            *self + 1
        }
    }
}

impl Aictable for i16 {
    open spec fn value(self) -> int {
        self as int
    }

    open spec fn min_value() -> int {
        i16::MIN as int
    }

    open spec fn max_value() -> int {
        i16::MAX as int
    }

    proof fn lemma_domain() {
        broadcast use vstd::std_specs::hash::group_hash_axioms;

    }

    proof fn lemma_value(a: Self, b: Self) {
    }

    fn initial() -> (r: Self) {
        i16::MIN
    }

    fn is_max_reached(&self) -> (r: bool) {
        *self == i16::MAX
    }

    fn saturating_next(&self) -> (r: Self) {
        if *self == i16::MAX {
            i16::MAX
        } else {
            *self + 1
        }
    }

    fn wrapping_next(&self) -> (r: Self) {
        if *self == i16::MAX {
            i16::MIN
        } else {
            *self + 1
        }
    }
}

impl Aictable for i32 {
    open spec fn value(self) -> int {
        self as int
    }

    open spec fn min_value() -> int {
        i32::MIN as int
    }

    open spec fn max_value() -> int {
        i32::MAX as int
    }

    proof fn lemma_domain() {
        broadcast use vstd::std_specs::hash::group_hash_axioms;

    }

    proof fn lemma_value(a: Self, b: Self) {
    }

    fn initial() -> (r: Self) {
        i32::MIN
    }

    fn is_max_reached(&self) -> (r: bool) {
        *self == i32::MAX
    }

    fn saturating_next(&self) -> (r: Self) {
        if *self == i32::MAX {
            i32::MAX
        } else {
            *self + 1
        }
    }

    fn wrapping_next(&self) -> (r: Self) {
        if *self == i32::MAX {
            i32::MIN
        } else {
            *self + 1
        }
    }
}

impl Aictable for i64 {
    open spec fn value(self) -> int {
        self as int
    }

    open spec fn min_value() -> int {
        i64::MIN as int
    }

    open spec fn max_value() -> int {
        i64::MAX as int
    }

    proof fn lemma_domain() {
        broadcast use vstd::std_specs::hash::group_hash_axioms;

    }

    proof fn lemma_value(a: Self, b: Self) {
    }

    fn initial() -> (r: Self) {
        i64::MIN
    }

    fn is_max_reached(&self) -> (r: bool) {
        *self == i64::MAX
    }

    fn saturating_next(&self) -> (r: Self) {
        if *self == i64::MAX {
            i64::MAX
        } else {
            *self + 1
        }
    }

    fn wrapping_next(&self) -> (r: Self) {
        if *self == i64::MAX {
            i64::MIN
        } else {
            *self + 1
        }
    }
}

impl Aictable for isize {
    open spec fn value(self) -> int {
        self as int
    }

    open spec fn min_value() -> int {
        isize::MIN as int
    }

    open spec fn max_value() -> int {
        isize::MAX as int
    }

    proof fn lemma_domain() {
        broadcast use vstd::std_specs::hash::group_hash_axioms;

    }

    proof fn lemma_value(a: Self, b: Self) {
    }

    fn initial() -> (r: Self) {
        isize::MIN
    }

    fn is_max_reached(&self) -> (r: bool) {
        *self == isize::MAX
    }

    fn saturating_next(&self) -> (r: Self) {
        if *self == isize::MAX {
            isize::MAX
        } else {
            *self + 1
        }
    }

    fn wrapping_next(&self) -> (r: Self) {
        if *self == isize::MAX {
            isize::MIN
        } else {
            *self + 1
        }
    }
}

impl Aictable for u8 {
    open spec fn value(self) -> int {
        self as int
    }

    open spec fn min_value() -> int {
        u8::MIN as int
    }

    open spec fn max_value() -> int {
        u8::MAX as int
    }

    proof fn lemma_domain() {
        broadcast use vstd::std_specs::hash::group_hash_axioms;

    }

    proof fn lemma_value(a: Self, b: Self) {
    }

    fn initial() -> (r: Self) {
        u8::MIN
    }

    fn is_max_reached(&self) -> (r: bool) {
        *self == u8::MAX
    }

    fn saturating_next(&self) -> (r: Self) {
        if *self == u8::MAX {
            u8::MAX
        } else {
            *self + 1
        }
    }

    fn wrapping_next(&self) -> (r: Self) {
        if *self == u8::MAX {
            u8::MIN
        } else {
            *self + 1
        }
    }
}

impl Aictable for u16 {
    open spec fn value(self) -> int {
        self as int
    }

    open spec fn min_value() -> int {
        u16::MIN as int
    }

    open spec fn max_value() -> int {
        u16::MAX as int
    }

    proof fn lemma_domain() {
        broadcast use vstd::std_specs::hash::group_hash_axioms;

    }

    proof fn lemma_value(a: Self, b: Self) {
    }

    fn initial() -> (r: Self) {
        u16::MIN
    }

    fn is_max_reached(&self) -> (r: bool) {
        *self == u16::MAX
    }

    fn saturating_next(&self) -> (r: Self) {
        if *self == u16::MAX {
            u16::MAX
        } else {
            *self + 1
        }
    }

    fn wrapping_next(&self) -> (r: Self) {
        if *self == u16::MAX {
            u16::MIN
        } else {
            *self + 1
        }
    }
}

impl Aictable for u64 {
    open spec fn value(self) -> int {
        self as int
    }

    open spec fn min_value() -> int {
        u64::MIN as int
    }

    open spec fn max_value() -> int {
        u64::MAX as int
    }

    proof fn lemma_domain() {
        broadcast use vstd::std_specs::hash::group_hash_axioms;

    }

    proof fn lemma_value(a: Self, b: Self) {
    }

    fn initial() -> (r: Self) {
        u64::MIN
    }

    fn is_max_reached(&self) -> (r: bool) {
        *self == u64::MAX
    }

    fn saturating_next(&self) -> (r: Self) {
        if *self == u64::MAX {
            u64::MAX
        } else {
            *self + 1
        }
    }

    fn wrapping_next(&self) -> (r: Self) {
        if *self == u64::MAX {
            u64::MIN
        } else {
            *self + 1
        }
    }
}

impl Aictable for usize {
    open spec fn value(self) -> int {
        self as int
    }

    open spec fn min_value() -> int {
        usize::MIN as int
    }

    open spec fn max_value() -> int {
        usize::MAX as int
    }

    proof fn lemma_domain() {
        broadcast use vstd::std_specs::hash::group_hash_axioms;

    }

    proof fn lemma_value(a: Self, b: Self) {
    }

    fn initial() -> (r: Self) {
        usize::MIN
    }

    fn is_max_reached(&self) -> (r: bool) {
        *self == usize::MAX
    }

    fn saturating_next(&self) -> (r: Self) {
        if *self == usize::MAX {
            usize::MAX
        } else {
            *self + 1
        }
    }

    fn wrapping_next(&self) -> (r: Self) {
        if *self == usize::MAX {
            usize::MIN
        } else {
            *self + 1
        }
    }
}

} // verus!
