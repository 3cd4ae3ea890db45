//! Addresses in their two forms.

use vstd::prelude::*;

verus! {

/// An address as a person writes it.
#[derive(Debug, PartialEq, Eq)]
pub struct HumanAddr(pub String);

impl View for HumanAddr {
    type V = Seq<char>;

    open spec fn view(&self) -> Seq<char> {
        self.0@
    }
}

impl Clone for HumanAddr {
    fn clone(&self) -> (r: Self)
        ensures
            r@ == self@,
    {
        HumanAddr(self.0.clone())
    }
}

impl HumanAddr {
    /// Whether two addresses are written the same.
    pub fn same(&self, other: &HumanAddr) -> (r: bool)
        ensures
            r == (self@ == other@),
    {
        self.0 == other.0
    }
}

/// An address in the binary form in which it is stored.
#[derive(Debug, PartialEq, Eq)]
pub struct CanonicalAddr(pub Vec<u8>);

impl View for CanonicalAddr {
    type V = Seq<u8>;

    open spec fn view(&self) -> Seq<u8> {
        self.0@
    }
}

impl Clone for CanonicalAddr {
    fn clone(&self) -> (r: Self)
        ensures
            r@ == self@,
    {
        CanonicalAddr(self.0.clone())
    }
}

impl CanonicalAddr {
    /// Whether two addresses hold the same bytes.
    pub fn same(&self, other: &CanonicalAddr) -> (r: bool)
        ensures
            r == (self@ == other@),
    {
        let r = self.0 == other.0;
        proof {
            if r {
                assert(self.0@ =~= other.0@);
            }
        }
        r
    }
}

} // verus!
