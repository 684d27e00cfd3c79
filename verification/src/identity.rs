use vstd::prelude::*;

verus! {

/// An opaque identifier. Two identifiers stand for the same thing exactly when
/// their views are equal; nothing else about an identifier is ever inspected.
pub trait Identifier: View + Sized {
    /// Tells whether `self` and `other` stand for the same thing.
    fn same(&self, other: &Self) -> (r: bool)
        ensures
            r == (self@ == other@),
    ;
}

/// An identifier that can be copied without changing what it stands for.
pub trait Duplicate: View + Sized {
    /// Returns a fresh identifier with the view of `self`.
    fn duplicate(&self) -> (r: Self)
        ensures
            r@ == self@,
    ;
}

impl Identifier for String {
    fn same(&self, other: &Self) -> (r: bool) {
        *self == *other
    }
}

impl Duplicate for String {
    fn duplicate(&self) -> (r: Self) {
        self.clone()
    }
}

/// Equality of string slices, `<str as PartialEq>::eq` of the standard library:
/// two slices compare equal exactly when they hold the same characters.
#[verifier::external_body]
fn str_same(a: &str, b: &str) -> (r: bool)
    ensures
        r == (a@ == b@),
{
    a == b
}

impl<'a> Identifier for &'a str {
    fn same(&self, other: &Self) -> (r: bool) {
        str_same(*self, *other)
    }
}

impl<'a> Duplicate for &'a str {
    fn duplicate(&self) -> (r: Self) {
        *self
    }
}

} // verus!
