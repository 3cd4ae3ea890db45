use fund_forwarding::address::{CanonicalAddr, HumanAddr};
use fund_forwarding::api::Api;
use fund_forwarding::error::{Error, Item};
use fund_forwarding::royalties::{StoredRoyalty, StoredRoyaltyInfo};
use fund_forwarding::state::{Config, Storage, TokenInfo};

fn human(s: &str) -> HumanAddr {
    HumanAddr(String::from(s))
}

fn stored(decimal_places_in_rates: u8, rates: &[u16]) -> StoredRoyaltyInfo {
    StoredRoyaltyInfo {
        decimal_places_in_rates,
        royalties: rates
            .iter()
            .map(|rate| StoredRoyalty { recipient: CanonicalAddr(vec![1, 2, 3]), rate: *rate })
            .collect(),
    }
}

#[test]
fn addresses_compare_by_content() {
    assert!(human("abc").same(&human("abc")));
    assert!(!human("abc").same(&human("abd")));
    assert!(!human("abc").same(&human("ab")));
    assert!(CanonicalAddr(vec![1, 2]).same(&CanonicalAddr(vec![1, 2])));
    assert!(!CanonicalAddr(vec![1, 2]).same(&CanonicalAddr(vec![2, 1])));
    assert!(!CanonicalAddr(vec![1, 2]).same(&CanonicalAddr(vec![1, 2, 0])));
    assert!(CanonicalAddr(vec![]).same(&CanonicalAddr(vec![])));
    assert_eq!(human("abc").clone(), human("abc"));
    assert_eq!(CanonicalAddr(vec![9]).clone(), CanonicalAddr(vec![9]));
}

#[test]
fn empty_table_converts_nothing() {
    let api = Api::new();
    assert_eq!(api.canonical_address(&human("abc")), Err(Error::InvalidAddress));
    assert_eq!(api.human_address(&CanonicalAddr(vec![1])), Err(Error::InvalidAddress));
}

#[test]
fn table_converts_both_ways() {
    let mut api = Api::new();
    api.insert(human("alice"), CanonicalAddr(vec![1]));
    api.insert(human("bob"), CanonicalAddr(vec![2]));
    assert_eq!(api.canonical_address(&human("alice")), Ok(CanonicalAddr(vec![1])));
    assert_eq!(api.canonical_address(&human("bob")), Ok(CanonicalAddr(vec![2])));
    assert_eq!(api.human_address(&CanonicalAddr(vec![1])), Ok(human("alice")));
    assert_eq!(api.human_address(&CanonicalAddr(vec![2])), Ok(human("bob")));
    assert_eq!(api.canonical_address(&human("carol")), Err(Error::InvalidAddress));
    assert_eq!(api.human_address(&CanonicalAddr(vec![3])), Err(Error::InvalidAddress));
}

#[test]
fn later_pair_overrides_earlier() {
    let mut api = Api::new();
    api.insert(human("alice"), CanonicalAddr(vec![1]));
    api.insert(human("alice"), CanonicalAddr(vec![7]));
    api.insert(human("alias"), CanonicalAddr(vec![1]));
    assert_eq!(api.canonical_address(&human("alice")), Ok(CanonicalAddr(vec![7])));
    assert_eq!(api.human_address(&CanonicalAddr(vec![1])), Ok(human("alias")));
    assert_eq!(api.human_address(&CanonicalAddr(vec![7])), Ok(human("alice")));
}

#[test]
fn new_state_is_empty() {
    let storage = Storage::new();
    assert_eq!(storage.config(), None);
    assert_eq!(storage.load_config().err(), Some(Error::NotFound(Item::Config)));
    assert_eq!(storage.distribution(), None);
    assert_eq!(storage.load_distribution().err(), Some(Error::NotFound(Item::Distribution)));
    assert_eq!(storage.lookup(&human("token")), None);
    assert!(storage.tokens().is_empty());
}

#[test]
fn config_is_replaced() {
    let mut storage = Storage::new();
    storage.save_config(Config { admin: CanonicalAddr(vec![1]) });
    assert_eq!(storage.config(), Some(&Config { admin: CanonicalAddr(vec![1]) }));
    storage.save_config(Config { admin: CanonicalAddr(vec![2]) });
    assert_eq!(storage.load_config(), Ok(&Config { admin: CanonicalAddr(vec![2]) }));
    assert_eq!(storage.config().cloned(), Some(Config { admin: CanonicalAddr(vec![2]) }));
}

#[test]
fn only_exact_tables_are_restored() {
    let mut storage = Storage::new();
    assert_eq!(storage.restore_distribution(stored(1, &[9])), Err(Error::RatesNotExact));
    assert_eq!(storage.distribution(), None);
    assert_eq!(
        storage.restore_distribution(stored(90, &[9])),
        Err(Error::DecimalPlacesOverflow)
    );
    assert_eq!(storage.distribution(), None);
    assert_eq!(storage.restore_distribution(stored(1, &[4, 6])), Ok(()));
    assert_eq!(storage.load_distribution(), Ok(&stored(1, &[4, 6])));
    assert_eq!(storage.restore_distribution(stored(1, &[4, 7])), Err(Error::RatesNotExact));
    assert_eq!(storage.distribution(), Some(&stored(1, &[4, 6])));
    assert_eq!(storage.restore_distribution(stored(0, &[1])), Ok(()));
    assert_eq!(storage.distribution(), Some(&stored(0, &[1])));
    storage.remove_distribution();
    assert_eq!(storage.distribution(), None);
}

#[test]
fn directory_keeps_one_entry_per_token_contract() {
    let mut storage = Storage::new();
    storage.register(human("a"), String::from("1"));
    storage.register(human("b"), String::from("2"));
    storage.register(human("a"), String::from("3"));
    assert_eq!(storage.lookup(&human("a")), Some(&String::from("3")));
    assert_eq!(storage.lookup(&human("b")), Some(&String::from("2")));
    assert_eq!(storage.lookup(&human("c")), None);
    assert_eq!(
        storage.tokens(),
        &vec![
            TokenInfo { address: human("a"), code_hash: String::from("3") },
            TokenInfo { address: human("b"), code_hash: String::from("2") },
        ]
    );
}

#[test]
fn every_error_has_its_text() {
    assert_eq!(
        Error::DecimalPlacesOverflow.message(),
        "The number of decimal places used in the royalty rates is larger than supported"
    );
    assert_eq!(Error::RatesNotExact.message(), "The sum of royalty rates must not exceed 100%");
    assert_eq!(
        Error::NotRegistered.message(),
        "This token is not registered with this contract. Please register it"
    );
    assert_eq!(Error::Unauthorized.message(), "This function is only usable by the Admin");
    assert_eq!(Error::NotFound(Item::Config).message(), "Config not found");
    assert_eq!(Error::NotFound(Item::Distribution).message(), "StoredRoyaltyInfo not found");
    assert_eq!(Error::InvalidAddress.message(), "Address cannot be converted");
    assert_eq!(Error::AlreadyInitialized.message(), "This contract is already initialized");
}
