//! Unsigned integer types that can stand in a version component.
use vstd::prelude::*;

verus! {

/// An unsigned integer type that can hold one component of a version.
///
/// Every value denotes a natural number (`as_nat`), at most `max_nat()`, and
/// the conversions to and from `u128` are exact.
pub trait Component: Copy {
    /// The natural number that a value denotes.
    spec fn as_nat(self) -> nat;

    /// The largest number that the type can hold.
    spec fn max_nat() -> nat;

    /// Every value lies in `0..=max_nat()`, and the type holds at least `0..=9`.
    proof fn lemma_range(self)
        ensures
            self.as_nat() <= Self::max_nat(),
            9 < Self::max_nat() <= u128::MAX,
    ;

    /// The type holds at least `0..=9`, and no more than `u128` does.
    proof fn lemma_max()
        ensures
            9 < Self::max_nat() <= u128::MAX,
    ;

    /// Two values that denote the same number are the same value.
    proof fn lemma_injective(self, other: Self)
        ensures
            self.as_nat() == other.as_nat() ==> self == other,
    ;

    /// The value that denotes `v`, if the type can hold it.
    fn from_u128(v: u128) -> (r: Option<Self>)
        ensures
            r is Some <==> v <= Self::max_nat(),
            r matches Some(x) ==> x.as_nat() == v,
    ;

    /// The number that the value denotes.
    fn to_u128(&self) -> (r: u128)
        ensures
            r == self.as_nat(),
    ;
}

impl Component for u8 {
    open spec fn as_nat(self) -> nat {
        self as nat
    }

    open spec fn max_nat() -> nat {
        u8::MAX as nat
    }

    proof fn lemma_range(self) {
    }

    proof fn lemma_max() {
    }

    proof fn lemma_injective(self, other: Self) {
    }

    fn from_u128(v: u128) -> (r: Option<Self>) {
        if v <= u8::MAX as u128 {
            Some(v as u8)
        } else {
            None
        }
    }

    fn to_u128(&self) -> (r: u128) {
        *self as u128
    }
}

impl Component for u16 {
    open spec fn as_nat(self) -> nat {
        self as nat
    }

    open spec fn max_nat() -> nat {
        u16::MAX as nat
    }

    proof fn lemma_range(self) {
    }

    proof fn lemma_max() {
    }

    proof fn lemma_injective(self, other: Self) {
    }

    fn from_u128(v: u128) -> (r: Option<Self>) {
        if v <= u16::MAX as u128 {
            Some(v as u16)
        } else {
            None
        }
    }

    fn to_u128(&self) -> (r: u128) {
        *self as u128
    }
}

impl Component for u32 {
    open spec fn as_nat(self) -> nat {
        self as nat
    }

    open spec fn max_nat() -> nat {
        u32::MAX as nat
    }

    proof fn lemma_range(self) {
    }

    proof fn lemma_max() {
    }

    proof fn lemma_injective(self, other: Self) {
    }

    fn from_u128(v: u128) -> (r: Option<Self>) {
        if v <= u32::MAX as u128 {
            Some(v as u32)
        } else {
            None
        }
    }

    fn to_u128(&self) -> (r: u128) {
        *self as u128
    }
}

impl Component for u64 {
    open spec fn as_nat(self) -> nat {
        self as nat
    }

    open spec fn max_nat() -> nat {
        u64::MAX as nat
    }

    proof fn lemma_range(self) {
    }

    proof fn lemma_max() {
    }

    proof fn lemma_injective(self, other: Self) {
    }

    fn from_u128(v: u128) -> (r: Option<Self>) {
        if v <= u64::MAX as u128 {
            Some(v as u64)
        } else {
            None
        }
    }

    fn to_u128(&self) -> (r: u128) {
        *self as u128
    }
}

impl Component for usize {
    open spec fn as_nat(self) -> nat {
        self as nat
    }

    open spec fn max_nat() -> nat {
        usize::MAX as nat
    }

    proof fn lemma_range(self) {
    }

    proof fn lemma_max() {
    }

    proof fn lemma_injective(self, other: Self) {
    }

    fn from_u128(v: u128) -> (r: Option<Self>) {
        if v <= usize::MAX as u128 {
            Some(v as usize)
        } else {
            None
        }
    }

    fn to_u128(&self) -> (r: u128) {
        *self as u128
    }
}

impl Component for u128 {
    open spec fn as_nat(self) -> nat {
        self as nat
    }

    open spec fn max_nat() -> nat {
        u128::MAX as nat
    }

    proof fn lemma_range(self) {
    }

    proof fn lemma_max() {
    }

    proof fn lemma_injective(self, other: Self) {
    }

    fn from_u128(v: u128) -> (r: Option<Self>) {
        Some(v)
    }

    fn to_u128(&self) -> (r: u128) {
        *self
    }
}

} // verus!
