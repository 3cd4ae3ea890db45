//! The persistent state: the admin, the distribution table and the
//! directory of registered token contracts.
//!
//! The state is an explicit value that every operation is handed. Its
//! fields are private, so that a stored distribution table is always one
//! that validation has accepted.

use vstd::prelude::*;
use crate::address::{CanonicalAddr, HumanAddr};
use crate::assoc::{
    absent_from, as_map, lemma_absent, lemma_last_occurrence, lemma_push, lemma_replace,
};
use crate::error::{Error, Item};
use crate::royalties::{StoredRoyaltyInfo, Table};

verus! {

/// The key under which the configuration is persisted.
pub const CONFIG_KEY: &'static str = "config";

/// The key under which the distribution table is persisted.
pub const FUNDS_DISTRIBUTION_KEY: &'static str = "distribution";

/// The prefix of the keys under which the directory entries are persisted,
/// one entry per token contract.
pub const PREFIX_TOKEN_CONTRACT_INFO: &'static str = "tokeninfo";

/// The singleton configuration.
#[derive(Debug, PartialEq, Eq)]
pub struct Config {
    /// Who may change the configuration.
    pub admin: CanonicalAddr,
}

impl Clone for Config {
    fn clone(&self) -> (r: Self)
        ensures
            r.admin@ == self.admin@,
    {
        Config { admin: self.admin.clone() }
    }
}

/// One directory entry: a token contract and the code hash needed to call
/// it back.
#[derive(Debug, PartialEq, Eq)]
pub struct TokenInfo {
    /// The token contract.
    pub address: HumanAddr,
    /// Its callback code hash.
    pub code_hash: String,
}

/// The mathematical content of the state.
pub struct State {
    /// The admin, once the contract is set up.
    pub admin: Option<Seq<u8>>,
    /// The distribution table, if one is stored.
    pub distribution: Option<Table<Seq<u8>>>,
    /// The callback code hash of each registered token contract.
    pub tokens: Map<Seq<char>, Seq<char>>,
}

impl State {
    /// Whether the one-time setup has happened.
    pub open spec fn active(self) -> bool {
        self.admin is Some
    }

    /// The callback code hash under which a token contract is registered, if
    /// it is.
    pub open spec fn token(self, address: Seq<char>) -> Option<Seq<char>> {
        if self.tokens.contains_key(address) {
            Some(self.tokens[address])
        } else {
            None
        }
    }

    /// The state with `admin` in charge.
    pub open spec fn with_admin(self, admin: Seq<u8>) -> State {
        State { admin: Some(admin), ..self }
    }

    /// The state with `table` as its distribution table, or with none.
    pub open spec fn with_distribution(self, table: Option<Table<Seq<u8>>>) -> State {
        State { distribution: table, ..self }
    }

    /// The state with a token contract registered under `code_hash`, in
    /// place of any earlier registration of it.
    pub open spec fn registered(self, address: Seq<char>, code_hash: Seq<char>) -> State {
        State { tokens: self.tokens.insert(address, code_hash), ..self }
    }
}

/// Of two registrations of one token contract the later one counts: a
/// lookup gives the second code hash, the state is the one that the second
/// registration alone would have made, and no other contract's registration
/// is touched.
pub proof fn lemma_last_registration_counts(
    state: State,
    address: Seq<char>,
    first: Seq<char>,
    second: Seq<char>,
)
    ensures
        state.registered(address, first).registered(address, second).token(address) == Some(
            second,
        ),
        state.registered(address, first).registered(address, second) == state.registered(
            address,
            second,
        ),
        forall|other: Seq<char>|
            other != address ==> state.registered(address, first).registered(
                address,
                second,
            ).token(other) == state.token(other),
{
    assert(state.tokens.insert(address, first).insert(address, second) =~= state.tokens.insert(
        address,
        second,
    ));
}

/// The persistent state.
#[derive(Debug)]
pub struct Storage {
    config: Option<Config>,
    distribution: Option<StoredRoyaltyInfo>,
    tokens: Vec<TokenInfo>,
}

impl View for Storage {
    type V = State;

    closed spec fn view(&self) -> State {
        State {
            admin: match self.config {
                Some(c) => Some(c.admin@),
                None => None,
            },
            distribution: match self.distribution {
                Some(t) => Some(t@),
                None => None,
            },
            tokens: as_map(self.pairs()),
        }
    }
}

impl Storage {
    /// The directory as a list of pairs, oldest first.
    closed spec fn pairs(&self) -> Seq<(Seq<char>, Seq<char>)> {
        self.tokens@.map_values(|t: TokenInfo| (t.address@, t.code_hash@))
    }

    /// The state's invariant: a stored distribution table has rates that
    /// add up to exactly 100%.
    pub open spec fn wf(&self) -> bool {
        self@.distribution matches Some(t) ==> t.exact()
    }

    /// The state before setup: no admin, no table, no registered token.
    pub fn new() -> (r: Storage)
        ensures
            r.wf(),
            r@.admin is None,
            r@.distribution is None,
            r@.tokens == Map::<Seq<char>, Seq<char>>::empty(),
    {
        Storage { config: None, distribution: None, tokens: Vec::new() }
    }

    /// The stored configuration, if the contract is set up.
    pub fn config(&self) -> (r: Option<&Config>)
        ensures
            match self@.admin {
                Some(a) => r matches Some(c) && c.admin@ == a,
                None => r is None,
            },
    {
        self.config.as_ref()
    }

    /// The stored configuration, which must exist.
    pub fn load_config(&self) -> (r: Result<&Config, Error>)
        ensures
            match self@.admin {
                Some(a) => r matches Ok(c) && c.admin@ == a,
                None => r == Err::<&Config, Error>(Error::NotFound(Item::Config)),
            },
    {
        match &self.config {
            Some(c) => Ok(c),
            None => Err(Error::NotFound(Item::Config)),
        }
    }

    /// Stores the configuration, replacing any earlier one.
    pub fn save_config(&mut self, config: Config)
        ensures
            final(self)@ == old(self)@.with_admin(config.admin@),
            final(self).wf() == old(self).wf(),
    {
        self.config = Some(config);
    }

    /// The stored distribution table, if there is one.
    pub fn distribution(&self) -> (r: Option<&StoredRoyaltyInfo>)
        ensures
            match self@.distribution {
                Some(t) => r matches Some(stored) && stored@ == t,
                None => r is None,
            },
    {
        self.distribution.as_ref()
    }

    /// The stored distribution table, which must exist.
    pub fn load_distribution(&self) -> (r: Result<&StoredRoyaltyInfo, Error>)
        ensures
            match self@.distribution {
                Some(t) => r matches Ok(stored) && stored@ == t,
                None => r == Err::<&StoredRoyaltyInfo, Error>(Error::NotFound(Item::Distribution)),
            },
    {
        match &self.distribution {
            Some(t) => Ok(t),
            None => Err(Error::NotFound(Item::Distribution)),
        }
    }

    /// Stores a distribution table whose rates add up to exactly 100%,
    /// replacing any earlier one in full.
    pub(crate) fn save_distribution(&mut self, table: StoredRoyaltyInfo)
        requires
            table@.exact(),
        ensures
            final(self)@ == old(self)@.with_distribution(Some(table@)),
            final(self).wf(),
    {
        self.distribution = Some(table);
    }

    /// Stores a distribution table if validation accepts it, and leaves the
    /// state as it was otherwise.
    pub fn restore_distribution(&mut self, table: StoredRoyaltyInfo) -> (r: Result<(), Error>)
        ensures
            r == table@.check(),
            r is Ok ==> final(self)@ == old(self)@.with_distribution(Some(table@)),
            r is Ok ==> final(self).wf(),
            r is Err ==> *final(self) == *old(self),
    {
        match table.validate() {
            Ok(()) => {
                self.save_distribution(table);
                Ok(())
            },
            Err(e) => Err(e),
        }
    }

    /// Removes the distribution table.
    pub fn remove_distribution(&mut self)
        ensures
            final(self)@ == old(self)@.with_distribution(None),
            final(self).wf(),
    {
        self.distribution = None;
    }

    /// The directory entries, oldest first. A later entry overrides an
    /// earlier one for the same token contract.
    pub fn tokens(&self) -> (r: &Vec<TokenInfo>)
        ensures
            as_map(r@.map_values(|t: TokenInfo| (t.address@, t.code_hash@))) == self@.tokens,
    {
        &self.tokens
    }

    /// Where the entry that counts for `address` stands, if there is one.
    fn position(&self, address: &HumanAddr) -> (r: Option<usize>)
        ensures
            match r {
                Some(i) => i < self.tokens@.len() && self.pairs()[i as int].0 == address@
                    && absent_from(self.pairs(), address@, i + 1)
                    && self@.token(address@) == Some(self.pairs()[i as int].1),
                None => self@.token(address@) is None,
            },
    {
        let ghost pairs = self.pairs();
        let mut i: usize = self.tokens.len();
        while i > 0
            invariant
                i <= self.tokens.len(),
                pairs == self.pairs(),
                absent_from(pairs, address@, i as int),
            decreases i,
        {
            i = i - 1;
            if self.tokens[i].address.same(address) {
                proof {
                    lemma_last_occurrence(pairs, address@, i as int);
                }
                return Some(i);
            }
        }
        proof {
            lemma_absent(pairs, address@);
        }
        None
    }

    /// The callback code hash under which a token contract is registered.
    pub fn lookup(&self, address: &HumanAddr) -> (r: Option<&String>)
        ensures
            match self@.token(address@) {
                Some(hash) => r matches Some(found) && found@ == hash,
                None => r is None,
            },
    {
        match self.position(address) {
            Some(i) => Some(&self.tokens[i].code_hash),
            None => None,
        }
    }

    /// Registers a token contract with its callback code hash. An earlier
    /// registration of the same contract is overwritten.
    pub fn register(&mut self, address: HumanAddr, code_hash: String)
        ensures
            final(self)@ == old(self)@.registered(address@, code_hash@),
            final(self).wf() == old(self).wf(),
    {
        let ghost before = self.pairs();
        match self.position(&address) {
            Some(i) => {
                proof {
                    lemma_replace(before, address@, i as int, code_hash@);
                }
                self.tokens.set(i, TokenInfo { address, code_hash });
                assert(self.pairs() =~= before.update(i as int, (address@, code_hash@)));
            },
            None => {
                proof {
                    lemma_push(before, address@, code_hash@);
                }
                self.tokens.push(TokenInfo { address, code_hash });
                assert(self.pairs() =~= before.push((address@, code_hash@)));
            },
        }
    }
}

} // verus!
