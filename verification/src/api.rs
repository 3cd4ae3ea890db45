//! Conversion between the two forms of an address.
//!
//! Which canonical bytes belong to which written address is decided by the
//! chain, not by this crate. The host resolves the addresses that a call
//! involves and hands them over as a table; the operations of this crate read
//! the table and are pure functions of it.

use vstd::prelude::*;
use crate::address::{CanonicalAddr, HumanAddr};
use crate::assoc::{absent_from, lemma_absent, lemma_last_occurrence, lemma_push, lookup};
use crate::error::Error;

verus! {

/// One resolved address: its written form and its canonical form.
#[derive(Debug)]
pub struct AddressPair {
    pub human: HumanAddr,
    pub canonical: CanonicalAddr,
}

/// The address conversions known for a call, one list for each direction.
/// Within a list a later pair overrides an earlier one.
#[derive(Debug)]
pub struct Api {
    /// What is known of the conversion from written to canonical form.
    pub to_canonical: Vec<AddressPair>,
    /// What is known of the conversion from canonical to written form.
    pub to_human: Vec<AddressPair>,
}

impl Api {
    /// The table read from written form to canonical form.
    pub open spec fn canonical_pairs(&self) -> Seq<(Seq<char>, Seq<u8>)> {
        self.to_canonical@.map_values(|p: AddressPair| (p.human@, p.canonical@))
    }

    /// The table read from canonical form to written form.
    pub open spec fn human_pairs(&self) -> Seq<(Seq<u8>, Seq<char>)> {
        self.to_human@.map_values(|p: AddressPair| (p.canonical@, p.human@))
    }

    /// The canonical form of a written address, where it has one.
    pub open spec fn canonical(&self, human: Seq<char>) -> Option<Seq<u8>> {
        lookup(self.canonical_pairs(), human)
    }

    /// The written form of a canonical address, where it has one.
    pub open spec fn human(&self, canonical: Seq<u8>) -> Option<Seq<char>> {
        lookup(self.human_pairs(), canonical)
    }

    /// A table that converts nothing.
    pub fn new() -> (r: Api)
        ensures
            forall|h: Seq<char>| r.canonical(h) is None,
            forall|c: Seq<u8>| r.human(c) is None,
    {
        Api { to_canonical: Vec::new(), to_human: Vec::new() }
    }

    /// Records that the written address `human` converts to `canonical`.
    pub fn insert_canonical(&mut self, human: HumanAddr, canonical: CanonicalAddr)
        ensures
            final(self).canonical(human@) == Some(canonical@),
            forall|h: Seq<char>| h != human@ ==> final(self).canonical(h) == old(self).canonical(h),
            forall|c: Seq<u8>| final(self).human(c) == old(self).human(c),
    {
        proof {
            lemma_push(self.canonical_pairs(), human@, canonical@);
        }
        let ghost before = *self;
        self.to_canonical.push(AddressPair { human, canonical });
        proof {
            assert(self.canonical_pairs() =~= before.canonical_pairs().push((human@, canonical@)));
            assert(self.human_pairs() == before.human_pairs());
        }
    }

    /// Records that the canonical address `canonical` converts to `human`.
    pub fn insert_human(&mut self, canonical: CanonicalAddr, human: HumanAddr)
        ensures
            final(self).human(canonical@) == Some(human@),
            forall|c: Seq<u8>| c != canonical@ ==> final(self).human(c) == old(self).human(c),
            forall|h: Seq<char>| final(self).canonical(h) == old(self).canonical(h),
    {
        proof {
            lemma_push(self.human_pairs(), canonical@, human@);
        }
        let ghost before = *self;
        self.to_human.push(AddressPair { human, canonical });
        proof {
            assert(self.human_pairs() =~= before.human_pairs().push((canonical@, human@)));
            assert(self.canonical_pairs() == before.canonical_pairs());
        }
    }

    /// Records that `human` and `canonical` are two forms of one address,
    /// each converting to the other.
    pub fn insert(&mut self, human: HumanAddr, canonical: CanonicalAddr)
        ensures
            final(self).canonical(human@) == Some(canonical@),
            final(self).human(canonical@) == Some(human@),
            forall|h: Seq<char>| h != human@ ==> final(self).canonical(h) == old(self).canonical(h),
            forall|c: Seq<u8>| c != canonical@ ==> final(self).human(c) == old(self).human(c),
    {
        self.insert_canonical(human.clone(), canonical.clone());
        self.insert_human(canonical, human);
    }

    /// Converts a written address to its canonical form.
    pub fn canonical_address(&self, human: &HumanAddr) -> (r: Result<CanonicalAddr, Error>)
        ensures
            match self.canonical(human@) {
                Some(c) => r matches Ok(found) && found@ == c,
                None => r == Err::<CanonicalAddr, Error>(Error::InvalidAddress),
            },
    {
        let ghost pairs = self.canonical_pairs();
        let mut i: usize = self.to_canonical.len();
        while i > 0
            invariant
                i <= self.to_canonical.len(),
                pairs == self.canonical_pairs(),
                absent_from(pairs, human@, i as int),
            decreases i,
        {
            i = i - 1;
            if self.to_canonical[i].human.same(human) {
                proof {
                    lemma_last_occurrence(pairs, human@, i as int);
                }
                return Ok(self.to_canonical[i].canonical.clone());
            }
        }
        proof {
            lemma_absent(pairs, human@);
        }
        Err(Error::InvalidAddress)
    }

    /// Converts a canonical address to its written form.
    pub fn human_address(&self, canonical: &CanonicalAddr) -> (r: Result<HumanAddr, Error>)
        ensures
            match self.human(canonical@) {
                Some(h) => r matches Ok(found) && found@ == h,
                None => r == Err::<HumanAddr, Error>(Error::InvalidAddress),
            },
    {
        let ghost pairs = self.human_pairs();
        let mut i: usize = self.to_human.len();
        while i > 0
            invariant
                i <= self.to_human.len(),
                pairs == self.human_pairs(),
                absent_from(pairs, canonical@, i as int),
            decreases i,
        {
            i = i - 1;
            if self.to_human[i].canonical.same(canonical) {
                proof {
                    lemma_last_occurrence(pairs, canonical@, i as int);
                }
                return Ok(self.to_human[i].human.clone());
            }
        }
        proof {
            lemma_absent(pairs, canonical@);
        }
        Err(Error::InvalidAddress)
    }
}

} // verus!
