use vstd::prelude::*;

verus! {

/// A bounded unsigned number: every value stands for a natural number no
/// greater than `limit()`.
pub trait Numeric: Copy {
    /// The natural number that `self` stands for.
    spec fn value(self) -> nat;

    /// The greatest natural number that the type can hold.
    spec fn limit() -> nat;

    /// No value exceeds the limit of its type.
    proof fn lemma_bounded(self)
        ensures
            self.value() <= Self::limit(),
    ;

    /// Values that stand for the same number are the same value.
    proof fn lemma_injective(self, other: Self)
        requires
            self.value() == other.value(),
        ensures
            self == other,
    ;

    /// The number zero.
    fn zero() -> (z: Self)
        ensures
            z.value() == 0,
    ;
}

/// A counter: a number that is only ever compared and stepped up by one.
pub trait Counter: Numeric {
    /// Tells whether `self` is the greatest value of its type, so that it has
    /// no successor.
    fn at_limit(&self) -> (r: bool)
        ensures
            r == (self.value() == Self::limit()),
    ;

    /// The next value. Stepping past the limit is not allowed.
    fn succ(self) -> (n: Self)
        requires
            self.value() < Self::limit(),
        ensures
            n.value() == self.value() + 1,
    ;

    /// Tells whether `self` and `other` stand for the same number.
    fn equals(&self, other: &Self) -> (r: bool)
        ensures
            r == (self.value() == other.value()),
    ;
}

/// An amount of currency, with addition and subtraction that report when the
/// result cannot be held instead of wrapping around.
pub trait Amount: Numeric {
    /// The sum of `self` and `v`, or `None` when it exceeds the limit.
    fn checked_add(&self, v: &Self) -> (r: Option<Self>)
        ensures
            match r {
                Some(sum) => sum.value() == self.value() + v.value(),
                None => self.value() + v.value() > Self::limit(),
            },
    ;

    /// The difference of `self` and `v`, or `None` when `v` is the greater.
    fn checked_sub(&self, v: &Self) -> (r: Option<Self>)
        ensures
            match r {
                Some(difference) => difference.value() == self.value() - v.value(),
                None => self.value() < v.value(),
            },
    ;
}

/// `<u32 as num::traits::Zero>::zero`, which returns the constant `0`.
#[verifier::external_body]
fn zero_u32() -> (z: u32)
    ensures
        z == 0,
{
    num::traits::Zero::zero()
}

/// `<u32 as num::traits::One>::one`, which returns the constant `1`.
#[verifier::external_body]
fn one_u32() -> (o: u32)
    ensures
        o == 1,
{
    num::traits::One::one()
}

/// `<u32 as num::traits::CheckedAdd>::checked_add`, which forwards to
/// `u32::checked_add`: the sum, or `None` when it does not fit in a `u32`.
#[verifier::external_body]
fn checked_add_u32(a: &u32, b: &u32) -> (r: Option<u32>)
    ensures
        r == (if *a + *b <= u32::MAX {
            Some((*a + *b) as u32)
        } else {
            None
        }),
{
    num::traits::CheckedAdd::checked_add(a, b)
}

/// `<u32 as num::traits::CheckedSub>::checked_sub`, which forwards to
/// `u32::checked_sub`: the difference, or `None` when it would be negative.
#[verifier::external_body]
fn checked_sub_u32(a: &u32, b: &u32) -> (r: Option<u32>)
    ensures
        r == (if *a >= *b {
            Some((*a - *b) as u32)
        } else {
            None
        }),
{
    num::traits::CheckedSub::checked_sub(a, b)
}

/// `<u128 as num::traits::Zero>::zero`, which returns the constant `0`.
#[verifier::external_body]
fn zero_u128() -> (z: u128)
    ensures
        z == 0,
{
    num::traits::Zero::zero()
}

/// `<u128 as num::traits::CheckedAdd>::checked_add`, which forwards to
/// `u128::checked_add`: the sum, or `None` when it does not fit in a `u128`.
#[verifier::external_body]
fn checked_add_u128(a: &u128, b: &u128) -> (r: Option<u128>)
    ensures
        r == (if *a + *b <= u128::MAX {
            Some((*a + *b) as u128)
        } else {
            None
        }),
{
    num::traits::CheckedAdd::checked_add(a, b)
}

/// `<u128 as num::traits::CheckedSub>::checked_sub`, which forwards to
/// `u128::checked_sub`: the difference, or `None` when it would be negative.
#[verifier::external_body]
fn checked_sub_u128(a: &u128, b: &u128) -> (r: Option<u128>)
    ensures
        r == (if *a >= *b {
            Some((*a - *b) as u128)
        } else {
            None
        }),
{
    num::traits::CheckedSub::checked_sub(a, b)
}

impl Numeric for u32 {
    open spec fn value(self) -> nat {
        self as nat
    }

    open spec fn limit() -> nat {
        u32::MAX as nat
    }

    proof fn lemma_bounded(self) {
    }

    proof fn lemma_injective(self, other: Self) {
    }

    fn zero() -> (z: Self) {
        zero_u32()
    }
}

impl Counter for u32 {
    fn at_limit(&self) -> (r: bool) {
        *self == u32::MAX
    }

    fn succ(self) -> (n: Self) {
        self + one_u32()
    }

    fn equals(&self, other: &Self) -> (r: bool) {
        *self == *other
    }
}

impl Amount for u32 {
    fn checked_add(&self, v: &Self) -> (r: Option<Self>) {
        checked_add_u32(self, v)
    }

    fn checked_sub(&self, v: &Self) -> (r: Option<Self>) {
        checked_sub_u32(self, v)
    }
}

impl Numeric for u128 {
    open spec fn value(self) -> nat {
        self as nat
    }

    open spec fn limit() -> nat {
        u128::MAX as nat
    }

    proof fn lemma_bounded(self) {
    }

    proof fn lemma_injective(self, other: Self) {
    }

    fn zero() -> (z: Self) {
        zero_u128()
    }
}

impl Amount for u128 {
    fn checked_add(&self, v: &Self) -> (r: Option<Self>) {
        checked_add_u128(self, v)
    }

    fn checked_sub(&self, v: &Self) -> (r: Option<Self>) {
        checked_sub_u128(self, v)
    }
}

} // verus!
