use fund_forwarding::address::{CanonicalAddr, HumanAddr};
use fund_forwarding::api::Api;
use fund_forwarding::error::Error;
use fund_forwarding::royalties::{
    check_total, DisplayRoyalty, DisplayRoyaltyInfo, Royalty, RoyaltyInfo, StoredRoyalty,
    StoredRoyaltyInfo,
};

fn human(s: &str) -> HumanAddr {
    HumanAddr(String::from(s))
}

fn canonical(s: &str) -> CanonicalAddr {
    CanonicalAddr(s.bytes().rev().collect())
}

fn api_for(names: &[&str]) -> Api {
    let mut api = Api::new();
    for name in names {
        api.insert(human(name), canonical(name));
    }
    api
}

fn table(decimal_places_in_rates: u8, rates: &[u16]) -> RoyaltyInfo {
    RoyaltyInfo {
        decimal_places_in_rates,
        royalties: rates
            .iter()
            .enumerate()
            .map(|(i, rate)| Royalty { recipient: human(&format!("r{}", i)), rate: *rate })
            .collect(),
    }
}

fn stored(decimal_places_in_rates: u8, rates: &[u16]) -> StoredRoyaltyInfo {
    StoredRoyaltyInfo {
        decimal_places_in_rates,
        royalties: rates
            .iter()
            .enumerate()
            .map(|(i, rate)| StoredRoyalty { recipient: canonical(&format!("r{}", i)), rate: *rate })
            .collect(),
    }
}

#[test]
fn rates_adding_up_to_the_scale_are_accepted() {
    assert_eq!(table(0, &[1]).validate(), Ok(()));
    assert_eq!(table(1, &[10]).validate(), Ok(()));
    assert_eq!(table(2, &[50, 50]).validate(), Ok(()));
    assert_eq!(table(2, &[0, 100, 0]).validate(), Ok(()));
    assert_eq!(table(4, &[3333, 3333, 3334]).validate(), Ok(()));
    assert_eq!(table(5, &[50000, 50000]).validate(), Ok(()));
    assert_eq!(stored(3, &[1, 999]).validate(), Ok(()));
}

#[test]
fn rates_below_or_above_the_scale_are_rejected() {
    assert_eq!(table(1, &[9]).validate(), Err(Error::RatesNotExact));
    assert_eq!(table(1, &[11]).validate(), Err(Error::RatesNotExact));
    assert_eq!(table(1, &[100]).validate(), Err(Error::RatesNotExact));
    assert_eq!(table(2, &[50, 49]).validate(), Err(Error::RatesNotExact));
    assert_eq!(table(2, &[50, 51]).validate(), Err(Error::RatesNotExact));
    assert_eq!(table(0, &[0]).validate(), Err(Error::RatesNotExact));
    assert_eq!(table(0, &[2]).validate(), Err(Error::RatesNotExact));
    assert_eq!(stored(2, &[99]).validate(), Err(Error::RatesNotExact));
}

#[test]
fn empty_table_is_rejected_at_every_precision() {
    assert_eq!(table(0, &[]).validate(), Err(Error::RatesNotExact));
    assert_eq!(table(1, &[]).validate(), Err(Error::RatesNotExact));
    assert_eq!(table(77, &[]).validate(), Err(Error::RatesNotExact));
    assert_eq!(table(78, &[]).validate(), Err(Error::DecimalPlacesOverflow));
}

#[test]
fn too_fine_a_precision_overflows() {
    assert_eq!(table(77, &[10]).validate(), Err(Error::RatesNotExact));
    assert_eq!(table(78, &[10]).validate(), Err(Error::DecimalPlacesOverflow));
    assert_eq!(table(100, &[10]).validate(), Err(Error::DecimalPlacesOverflow));
    assert_eq!(table(255, &[65535, 65535]).validate(), Err(Error::DecimalPlacesOverflow));
    assert_eq!(stored(255, &[1]).validate(), Err(Error::DecimalPlacesOverflow));
}

#[test]
fn a_scale_between_128_and_256_bits_is_never_met() {
    assert_eq!(check_total(39, u128::MAX), Err(Error::RatesNotExact));
    assert_eq!(check_total(39, 0), Err(Error::RatesNotExact));
    assert_eq!(
        check_total(38, 100_000_000_000_000_000_000_000_000_000_000_000_000),
        Ok(())
    );
    assert_eq!(check_total(0, 1), Ok(()));
    assert_eq!(check_total(78, 1), Err(Error::DecimalPlacesOverflow));
}

#[test]
fn total_rate_adds_all_rates() {
    assert_eq!(table(1, &[]).total_rate(), 0);
    assert_eq!(table(1, &[7]).total_rate(), 7);
    assert_eq!(table(1, &[65535, 65535, 65535]).total_rate(), 196605);
    assert_eq!(stored(1, &[1, 2, 3, 4]).total_rate(), 10);
    assert_eq!(table(6, &vec![1; 1_000_000]).validate(), Ok(()));
}

#[test]
fn split_gives_each_share_its_floor() {
    assert_eq!(stored(1, &[10]).split(10), vec![10]);
    assert_eq!(stored(2, &[50, 50]).split(101), vec![50, 50]);
    assert_eq!(stored(4, &[3333, 3333, 3334]).split(100), vec![33, 33, 33]);
    assert_eq!(stored(2, &[1, 99]).split(99), vec![0, 98]);
    assert_eq!(stored(0, &[1]).split(12345), vec![12345]);
    assert_eq!(stored(2, &[0, 100]).split(5), vec![0, 5]);
}

#[test]
fn split_never_exceeds_the_amount_and_loses_less_than_one_unit_per_share() {
    let tables = [
        stored(1, &[10]),
        stored(2, &[50, 50]),
        stored(4, &[3333, 3333, 3334]),
        stored(3, &[1, 1, 1, 1, 1, 995]),
        stored(2, &[33, 33, 34]),
    ];
    let amounts = [0u128, 1, 2, 3, 7, 99, 100, 101, 999_999, u128::MAX - 1, u128::MAX];
    for table in tables.iter() {
        for amount in amounts {
            let shares = table.split(amount);
            assert_eq!(shares.len(), table.royalties.len());
            let mut paid: u128 = 0;
            for share in shares {
                paid = paid.checked_add(share).unwrap();
            }
            assert!(paid <= amount);
            assert!(amount - paid < table.royalties.len() as u128);
        }
    }
}

#[test]
fn split_of_the_largest_amount() {
    assert_eq!(
        stored(4, &[1, 9999]).split(u128::MAX),
        vec![
            34028236692093846346337460743176821,
            340248338684246369617028269971025034633
        ]
    );
    assert_eq!(stored(0, &[1]).split(u128::MAX), vec![u128::MAX]);
}

#[test]
fn stored_form_has_canonical_recipients() {
    let api = api_for(&["r0", "r1"]);
    assert_eq!(table(2, &[40, 60]).to_stored(&api), Ok(stored(2, &[40, 60])));
    assert_eq!(
        Royalty { recipient: human("r1"), rate: 3 }.to_stored(&api),
        Ok(StoredRoyalty { recipient: canonical("r1"), rate: 3 })
    );
}

#[test]
fn stored_form_needs_every_recipient_converted() {
    let api = api_for(&["r0", "r2"]);
    assert_eq!(table(2, &[40, 60]).to_stored(&api), Err(Error::InvalidAddress));
    assert_eq!(
        Royalty { recipient: human("r1"), rate: 3 }.to_stored(&api),
        Err(Error::InvalidAddress)
    );
    // Conversion does not judge the rates.
    assert_eq!(table(2, &[1]).to_stored(&api), Ok(stored(2, &[1])));
}

#[test]
fn shown_form_has_written_recipients() {
    let api = api_for(&["r0", "r1"]);
    assert_eq!(
        stored(2, &[40, 60]).to_human(&api, false),
        Ok(DisplayRoyaltyInfo {
            decimal_places_in_rates: 2,
            royalties: vec![
                DisplayRoyalty { recipient: Some(human("r0")), rate: 40 },
                DisplayRoyalty { recipient: Some(human("r1")), rate: 60 },
            ],
        })
    );
    assert_eq!(stored(2, &[40, 60]).to_human(&api_for(&["r1"]), false), Err(Error::InvalidAddress));
}

#[test]
fn shown_form_can_withhold_recipients() {
    assert_eq!(
        stored(2, &[40, 60]).to_human(&Api::new(), true),
        Ok(DisplayRoyaltyInfo {
            decimal_places_in_rates: 2,
            royalties: vec![
                DisplayRoyalty { recipient: None, rate: 40 },
                DisplayRoyalty { recipient: None, rate: 60 },
            ],
        })
    );
    assert_eq!(
        StoredRoyalty { recipient: canonical("r0"), rate: 9 }.to_human(&Api::new(), true),
        Ok(DisplayRoyalty { recipient: None, rate: 9 })
    );
    assert_eq!(
        StoredRoyalty { recipient: canonical("r0"), rate: 9 }.to_human(&Api::new(), false),
        Err(Error::InvalidAddress)
    );
}

#[test]
fn clones_are_equal() {
    let submitted = table(2, &[40, 60]);
    assert_eq!(submitted.clone(), submitted);
    let kept = stored(2, &[40, 60]);
    assert_eq!(kept.clone(), kept);
    assert_eq!(kept.royalties[0].clone(), kept.royalties[0]);
    assert_eq!(submitted.royalties[1].clone(), submitted.royalties[1]);
}
