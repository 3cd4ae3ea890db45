//! Distribution tables: who receives which share of incoming funds.
//!
//! A table lists recipients with their rates and states the decimal
//! precision `d` of the rates, so that a rate `r` stands for the fraction
//! `r / 10^d`. A table is accepted only if its rates add up to exactly
//! `10^d`. Tables arrive with written addresses, are stored with canonical
//! ones, and are shown with written ones again.

use vstd::prelude::*;
use crate::address::{CanonicalAddr, HumanAddr};
use crate::api::Api;
use crate::error::Error;
use crate::wide::{
    checked_pow10, lemma_pow10_fits, mul_div, pow10, pow2_128, pow2_256, share_of,
    MAX_DECIMAL_PLACES,
};

verus! {

/// One share of a table, over recipients of type `A`.
pub struct Share<A> {
    pub recipient: A,
    pub rate: u16,
}

/// The mathematical content of a distribution table, over recipients of
/// type `A`.
pub struct Table<A> {
    pub decimal_places: u8,
    pub shares: Seq<Share<A>>,
}

/// The sum of a sequence of rates.
pub open spec fn sum(rates: Seq<u16>) -> nat
    decreases rates.len(),
{
    if rates.len() == 0 {
        0
    } else {
        sum(rates.drop_last()) + rates.last() as nat
    }
}

/// What validation says of a table with the given precision and rates.
pub open spec fn verdict(decimal_places: u8, total_rate: nat) -> Result<(), Error> {
    if pow10(decimal_places as nat) >= pow2_256() {
        Err(Error::DecimalPlacesOverflow)
    } else if total_rate != pow10(decimal_places as nat) {
        Err(Error::RatesNotExact)
    } else {
        Ok(())
    }
}

impl<A> Table<A> {
    /// The rates of the shares, in table order.
    pub open spec fn rates(self) -> Seq<u16> {
        self.shares.map_values(|s: Share<A>| s.rate)
    }

    /// The integer that stands for 100% at the table's precision.
    pub open spec fn scale(self) -> nat {
        pow10(self.decimal_places as nat)
    }

    /// Whether the rates add up to exactly 100%.
    pub open spec fn exact(self) -> bool {
        sum(self.rates()) == self.scale()
    }

    /// What validation says of the table.
    pub open spec fn check(self) -> Result<(), Error> {
        verdict(self.decimal_places, sum(self.rates()))
    }

    /// What each share receives of `amount`, in table order.
    pub open spec fn payouts(self, amount: u128) -> Seq<nat> {
        Seq::new(
            self.shares.len(),
            |i: int| share_of(amount as nat, self.shares[i].rate as nat, self.scale()),
        )
    }
}

/// Every table that validation accepts has rates that add up to exactly
/// 100%, every other table is rejected as malformed, and a table that a
/// vector can hold is accepted as soon as its rates add up to 100%.
pub proof fn lemma_accepted_iff_exact<A>(table: Table<A>)
    ensures
        table.check() is Ok ==> table.exact(),
        !table.exact() ==> table.check() is Err && table.check()->Err_0.is_validation(),
        table.shares.len() <= usize::MAX ==> (table.check() is Ok <==> table.exact()),
{
    lemma_sum_bound(table.rates());
}

/// A table whose precision is finer than 77 decimal places is rejected
/// because its scale factor overflows, whatever its rates are; up to 77
/// decimal places the scale factor never overflows.
pub proof fn lemma_overflow_rejected<A>(table: Table<A>)
    ensures
        table.decimal_places > MAX_DECIMAL_PLACES <==> table.check() == Err::<(), Error>(
            Error::DecimalPlacesOverflow,
        ),
{
    lemma_pow10_fits(table.decimal_places as nat);
}

/// A sum of rates is at most 65535 times their number, and each rate is at
/// most the sum.
pub proof fn lemma_sum_bound(rates: Seq<u16>)
    ensures
        sum(rates) <= 0xffff * rates.len(),
        rates.len() <= usize::MAX ==> sum(rates) < pow2_128(),
        rates.len() <= usize::MAX ==> sum(rates) < pow2_256(),
        forall|i: int| 0 <= i < rates.len() ==> rates[i] <= sum(rates),
    decreases rates.len(),
{
    if rates.len() > 0 {
        lemma_sum_bound(rates.drop_last());
        assert forall|i: int| 0 <= i < rates.len() implies rates[i] <= sum(rates) by {
            if i < rates.len() - 1 {
                assert(rates.drop_last()[i] == rates[i]);
            }
        }
    }
}

/// Decides whether rates that add up to `total_rate` are exactly 100% at
/// the given precision.
pub fn check_total(decimal_places: u8, total_rate: u128) -> (r: Result<(), Error>)
    ensures
        r == verdict(decimal_places, total_rate as nat),
{
    match checked_pow10(decimal_places as u32) {
        None => Err(Error::DecimalPlacesOverflow),
        Some(scale) => {
            match scale.to_u128() {
                Some(s) => if s == total_rate {
                    Ok(())
                } else {
                    Err(Error::RatesNotExact)
                },
                None => Err(Error::RatesNotExact),
            }
        },
    }
}

/// A recipient and its rate, as a distribution table is submitted.
#[derive(Debug, PartialEq, Eq)]
pub struct Royalty {
    /// Who receives the share.
    pub recipient: HumanAddr,
    /// The share, at the table's precision.
    pub rate: u16,
}

impl View for Royalty {
    type V = Share<Seq<char>>;

    open spec fn view(&self) -> Share<Seq<char>> {
        Share { recipient: self.recipient@, rate: self.rate }
    }
}

impl Clone for Royalty {
    fn clone(&self) -> (r: Self)
        ensures
            r@ == self@,
    {
        Royalty { recipient: self.recipient.clone(), rate: self.rate }
    }
}

/// A distribution table as it is submitted.
#[derive(Debug, PartialEq, Eq)]
pub struct RoyaltyInfo {
    /// The decimal precision of the rates.
    pub decimal_places_in_rates: u8,
    /// The shares, in payout order.
    pub royalties: Vec<Royalty>,
}

impl View for RoyaltyInfo {
    type V = Table<Seq<char>>;

    open spec fn view(&self) -> Table<Seq<char>> {
        Table {
            decimal_places: self.decimal_places_in_rates,
            shares: self.royalties@.map_values(|r: Royalty| r@),
        }
    }
}

impl Clone for RoyaltyInfo {
    fn clone(&self) -> (r: Self)
        ensures
            r@ == self@,
    {
        let mut royalties: Vec<Royalty> = Vec::new();
        let mut i: usize = 0;
        while i < self.royalties.len()
            invariant
                i <= self.royalties.len(),
                royalties@.len() == i,
                forall|j: int| 0 <= j < i ==> royalties@[j]@ == self.royalties@[j]@,
            decreases self.royalties.len() - i,
        {
            royalties.push(self.royalties[i].clone());
            i += 1;
        }
        let r = RoyaltyInfo { decimal_places_in_rates: self.decimal_places_in_rates, royalties };
        assert(r@.shares =~= self@.shares);
        r
    }
}

/// A recipient and its rate, as a distribution table is stored.
#[derive(Debug, PartialEq, Eq)]
pub struct StoredRoyalty {
    /// Who receives the share.
    pub recipient: CanonicalAddr,
    /// The share, at the table's precision.
    pub rate: u16,
}

impl View for StoredRoyalty {
    type V = Share<Seq<u8>>;

    open spec fn view(&self) -> Share<Seq<u8>> {
        Share { recipient: self.recipient@, rate: self.rate }
    }
}

impl Clone for StoredRoyalty {
    fn clone(&self) -> (r: Self)
        ensures
            r@ == self@,
    {
        StoredRoyalty { recipient: self.recipient.clone(), rate: self.rate }
    }
}

/// A distribution table as it is stored.
#[derive(Debug, PartialEq, Eq)]
pub struct StoredRoyaltyInfo {
    /// The decimal precision of the rates.
    pub decimal_places_in_rates: u8,
    /// The shares, in payout order.
    pub royalties: Vec<StoredRoyalty>,
}

impl View for StoredRoyaltyInfo {
    type V = Table<Seq<u8>>;

    open spec fn view(&self) -> Table<Seq<u8>> {
        Table {
            decimal_places: self.decimal_places_in_rates,
            shares: self.royalties@.map_values(|r: StoredRoyalty| r@),
        }
    }
}

impl Clone for StoredRoyaltyInfo {
    fn clone(&self) -> (r: Self)
        ensures
            r@ == self@,
    {
        let mut royalties: Vec<StoredRoyalty> = Vec::new();
        let mut i: usize = 0;
        while i < self.royalties.len()
            invariant
                i <= self.royalties.len(),
                royalties@.len() == i,
                forall|j: int| 0 <= j < i ==> royalties@[j]@ == self.royalties@[j]@,
            decreases self.royalties.len() - i,
        {
            royalties.push(self.royalties[i].clone());
            i += 1;
        }
        let r = StoredRoyaltyInfo {
            decimal_places_in_rates: self.decimal_places_in_rates,
            royalties,
        };
        assert(r@.shares =~= self@.shares);
        r
    }
}

/// A recipient and its rate, as a distribution table is shown. The
/// recipient may be withheld.
#[derive(Debug, PartialEq, Eq)]
pub struct DisplayRoyalty {
    /// Who receives the share, unless withheld.
    pub recipient: Option<HumanAddr>,
    /// The share, at the table's precision.
    pub rate: u16,
}

impl View for DisplayRoyalty {
    type V = Share<Option<Seq<char>>>;

    open spec fn view(&self) -> Share<Option<Seq<char>>> {
        Share {
            recipient: match self.recipient {
                Some(h) => Some(h@),
                None => None,
            },
            rate: self.rate,
        }
    }
}

/// A distribution table as it is shown.
#[derive(Debug, PartialEq, Eq)]
pub struct DisplayRoyaltyInfo {
    /// The decimal precision of the rates.
    pub decimal_places_in_rates: u8,
    /// The shares, in payout order.
    pub royalties: Vec<DisplayRoyalty>,
}

impl View for DisplayRoyaltyInfo {
    type V = Table<Option<Seq<char>>>;

    open spec fn view(&self) -> Table<Option<Seq<char>>> {
        Table {
            decimal_places: self.decimal_places_in_rates,
            shares: self.royalties@.map_values(|r: DisplayRoyalty| r@),
        }
    }
}

/// The stored form of a submitted table: every recipient replaced by its
/// canonical form, or nothing if some recipient has none.
pub open spec fn canonicalized(table: Table<Seq<char>>, api: Api) -> Option<Table<Seq<u8>>> {
    if forall|i: int| 0 <= i < table.shares.len() ==> api.canonical(
        #[trigger] table.shares[i].recipient,
    ) is Some {
        Some(
            Table {
                decimal_places: table.decimal_places,
                shares: Seq::new(
                    table.shares.len(),
                    |i: int|
                        Share {
                            recipient: api.canonical(table.shares[i].recipient).unwrap(),
                            rate: table.shares[i].rate,
                        },
                ),
            },
        )
    } else {
        None
    }
}

/// The shown form of a stored table: every recipient replaced by its
/// written form, or withheld; nothing if some recipient that is to be shown
/// has no written form.
pub open spec fn humanized(table: Table<Seq<u8>>, api: Api, hide_addr: bool) -> Option<
    Table<Option<Seq<char>>>,
> {
    if hide_addr || forall|i: int| 0 <= i < table.shares.len() ==> api.human(
        #[trigger] table.shares[i].recipient,
    ) is Some {
        Some(
            Table {
                decimal_places: table.decimal_places,
                shares: Seq::new(
                    table.shares.len(),
                    |i: int|
                        Share {
                            recipient: if hide_addr {
                                None
                            } else {
                                api.human(table.shares[i].recipient)
                            },
                            rate: table.shares[i].rate,
                        },
                ),
            },
        )
    } else {
        None
    }
}

impl Royalty {
    /// The share with its recipient in canonical form.
    pub fn to_stored(&self, api: &Api) -> (r: Result<StoredRoyalty, Error>)
        ensures
            match api.canonical(self.recipient@) {
                Some(c) => r matches Ok(stored) && stored@ == (Share { recipient: c, rate: self.rate }),
                None => r == Err::<StoredRoyalty, Error>(Error::InvalidAddress),
            },
    {
        match api.canonical_address(&self.recipient) {
            Ok(recipient) => Ok(StoredRoyalty { recipient, rate: self.rate }),
            Err(e) => Err(e),
        }
    }
}

impl RoyaltyInfo {
    /// The sum of the table's rates.
    pub fn total_rate(&self) -> (r: u128)
        ensures
            r == sum(self@.rates()),
    {
        let ghost rates = self@.rates();
        let mut total: u128 = 0;
        let mut i: usize = 0;
        while i < self.royalties.len()
            invariant
                i <= self.royalties.len(),
                rates == self@.rates(),
                total == sum(rates.take(i as int)),
            decreases self.royalties.len() - i,
        {
            proof {
                lemma_sum_bound(rates.take(i as int));
                assert(rates.take(i + 1).drop_last() =~= rates.take(i as int));
            }
            total = total + self.royalties[i].rate as u128;
            i += 1;
        }
        assert(rates.take(i as int) =~= rates);
        total
    }

    /// Checks that the table is well formed: its scale factor fits in 256
    /// bits and its rates add up to exactly that scale factor.
    pub fn validate(&self) -> (r: Result<(), Error>)
        ensures
            r == self@.check(),
    {
        check_total(self.decimal_places_in_rates, self.total_rate())
    }

    /// The table with its recipients in canonical form.
    pub fn to_stored(&self, api: &Api) -> (r: Result<StoredRoyaltyInfo, Error>)
        ensures
            match canonicalized(self@, *api) {
                Some(t) => r matches Ok(stored) && stored@ == t,
                None => r == Err::<StoredRoyaltyInfo, Error>(Error::InvalidAddress),
            },
    {
        let mut royalties: Vec<StoredRoyalty> = Vec::new();
        let mut i: usize = 0;
        while i < self.royalties.len()
            invariant
                i <= self.royalties.len(),
                royalties@.len() == i,
                forall|j: int|
                    0 <= j < i ==> api.canonical(#[trigger] self@.shares[j].recipient) is Some,
                forall|j: int|
                    0 <= j < i ==> (#[trigger] royalties@[j])@ == (Share {
                        recipient: api.canonical(self@.shares[j].recipient).unwrap(),
                        rate: self@.shares[j].rate,
                    }),
            decreases self.royalties.len() - i,
        {
            match self.royalties[i].to_stored(api) {
                Ok(stored) => royalties.push(stored),
                Err(e) => {
                    assert(api.canonical(self@.shares[i as int].recipient) is None);
                    return Err(e);
                },
            }
            i += 1;
        }
        let stored = StoredRoyaltyInfo {
            decimal_places_in_rates: self.decimal_places_in_rates,
            royalties,
        };
        assert(stored@.shares =~= canonicalized(self@, *api).unwrap().shares);
        Ok(stored)
    }
}

impl StoredRoyalty {
    /// The share with its recipient in written form, or withheld.
    pub fn to_human(&self, api: &Api, hide_addr: bool) -> (r: Result<DisplayRoyalty, Error>)
        ensures
            hide_addr ==> (r matches Ok(shown) && shown@ == (Share {
                recipient: None::<Seq<char>>,
                rate: self.rate,
            })),
            !hide_addr ==> (match api.human(self.recipient@) {
                Some(h) => r matches Ok(shown) && shown@ == (Share {
                    recipient: Some(h),
                    rate: self.rate,
                }),
                None => r == Err::<DisplayRoyalty, Error>(Error::InvalidAddress),
            }),
    {
        if hide_addr {
            Ok(DisplayRoyalty { recipient: None, rate: self.rate })
        } else {
            match api.human_address(&self.recipient) {
                Ok(recipient) => Ok(DisplayRoyalty { recipient: Some(recipient), rate: self.rate }),
                Err(e) => Err(e),
            }
        }
    }
}

impl StoredRoyaltyInfo {
    /// The sum of the table's rates.
    pub fn total_rate(&self) -> (r: u128)
        ensures
            r == sum(self@.rates()),
    {
        let ghost rates = self@.rates();
        let mut total: u128 = 0;
        let mut i: usize = 0;
        while i < self.royalties.len()
            invariant
                i <= self.royalties.len(),
                rates == self@.rates(),
                total == sum(rates.take(i as int)),
            decreases self.royalties.len() - i,
        {
            proof {
                lemma_sum_bound(rates.take(i as int));
                assert(rates.take(i + 1).drop_last() =~= rates.take(i as int));
            }
            total = total + self.royalties[i].rate as u128;
            i += 1;
        }
        assert(rates.take(i as int) =~= rates);
        total
    }

    /// Checks that the table is well formed: its scale factor fits in 256
    /// bits and its rates add up to exactly that scale factor.
    pub fn validate(&self) -> (r: Result<(), Error>)
        ensures
            r == self@.check(),
            r is Ok <==> self@.exact(),
    {
        proof {
            lemma_accepted_iff_exact(self@);
        }
        check_total(self.decimal_places_in_rates, self.total_rate())
    }

    /// The table with its recipients in written form, or withheld.
    pub fn to_human(&self, api: &Api, hide_addr: bool) -> (r: Result<DisplayRoyaltyInfo, Error>)
        ensures
            match humanized(self@, *api, hide_addr) {
                Some(t) => r matches Ok(shown) && shown@ == t,
                None => r == Err::<DisplayRoyaltyInfo, Error>(Error::InvalidAddress),
            },
    {
        let mut royalties: Vec<DisplayRoyalty> = Vec::new();
        let mut i: usize = 0;
        while i < self.royalties.len()
            invariant
                i <= self.royalties.len(),
                royalties@.len() == i,
                forall|j: int|
                    0 <= j < i && !hide_addr ==> api.human(
                        #[trigger] self@.shares[j].recipient,
                    ) is Some,
                forall|j: int|
                    0 <= j < i ==> (#[trigger] royalties@[j])@ == (Share {
                        recipient: if hide_addr {
                            None
                        } else {
                            api.human(self@.shares[j].recipient)
                        },
                        rate: self@.shares[j].rate,
                    }),
            decreases self.royalties.len() - i,
        {
            match self.royalties[i].to_human(api, hide_addr) {
                Ok(shown) => royalties.push(shown),
                Err(e) => {
                    assert(api.human(self@.shares[i as int].recipient) is None);
                    return Err(e);
                },
            }
            i += 1;
        }
        let shown = DisplayRoyaltyInfo {
            decimal_places_in_rates: self.decimal_places_in_rates,
            royalties,
        };
        assert(shown@.shares =~= humanized(self@, *api, hide_addr).unwrap().shares);
        Ok(shown)
    }

    /// Splits `amount` among the shares: each receives the floor of
    /// `amount * rate / 10^d`, in table order. What rounding leaves over is
    /// not handed out.
    pub fn split(&self, amount: u128) -> (r: Vec<u128>)
        requires
            self@.exact(),
        ensures
            r@.len() == self@.shares.len(),
            forall|i: int| 0 <= i < r@.len() ==> r@[i] as nat == #[trigger] self@.payouts(amount)[i],
    {
        let ghost rates = self@.rates();
        let count = self.royalties.len();
        proof {
            lemma_sum_bound(rates);
            assert(rates.len() == count);
        }
        let scale = match checked_pow10(self.decimal_places_in_rates as u32) {
            Some(scale) => scale,
            None => vstd::pervasive::unreached(),
        };
        let mut out: Vec<u128> = Vec::new();
        let mut i: usize = 0;
        while i < count
            invariant
                i <= count,
                count == self.royalties.len(),
                rates == self@.rates(),
                scale.value() == self@.scale(),
                sum(rates) == self@.scale(),
                forall|j: int| 0 <= j < rates.len() ==> rates[j] <= sum(rates),
                out@.len() == i,
                forall|j: int| 0 <= j < i ==> out@[j] as nat == #[trigger] self@.payouts(amount)[j],
            decreases count - i,
        {
            let rate = self.royalties[i].rate;
            proof {
                assert(rates[i as int] == rate);
                lemma_pow10_positive(self.decimal_places_in_rates as nat);
                lemma_share_within_amount(amount as nat, rate as nat, scale.value());
            }
            let share = match mul_div(amount, rate, scale).to_u128() {
                Some(share) => share,
                None => vstd::pervasive::unreached(),
            };
            out.push(share);
            i += 1;
        }
        out
    }
}

/// The scale factor of every precision is at least one.
pub proof fn lemma_pow10_positive(decimal_places: nat)
    ensures
        pow10(decimal_places) >= 1,
{
    vstd::arithmetic::power::lemma_pow_positive(10, decimal_places);
}

/// A rate of at most 100% is entitled to at most the whole amount.
pub proof fn lemma_share_within_amount(amount: nat, rate: nat, scale: nat)
    requires
        0 < scale,
        rate <= scale,
    ensures
        share_of(amount, rate, scale) <= amount,
{
    assert(amount * rate <= amount * scale) by (nonlinear_arith)
        requires
            rate <= scale,
    ;
    assert((amount * rate) / scale <= amount) by (nonlinear_arith)
        requires
            amount * rate <= amount * scale,
            0 < scale,
    ;
}

/// The sum of a sequence of amounts.
pub open spec fn total(amounts: Seq<nat>) -> nat
    decreases amounts.len(),
{
    if amounts.len() == 0 {
        0
    } else {
        total(amounts.drop_last()) + amounts.last()
    }
}

/// Rounding a quotient down loses less than one unit of the divisor.
proof fn lemma_floor_bounds(x: nat, d: nat)
    requires
        0 < d,
    ensures
        (x / d) * d <= x,
        x <= (x / d) * d + (d - 1),
{
    vstd::arithmetic::div_mod::lemma_fundamental_div_mod(x as int, d as int);
    vstd::arithmetic::div_mod::lemma_mod_pos_bound(x as int, d as int);
    assert((x / d) * d == d * (x / d)) by (nonlinear_arith);
}

/// What the first `k` shares receive, scaled, lies between the amount times
/// their rates and that product less `k` rounding errors.
proof fn lemma_split_prefix<A>(table: Table<A>, amount: u128, k: nat)
    requires
        k <= table.shares.len(),
        0 < table.scale(),
    ensures
        total(table.payouts(amount).take(k as int)) * table.scale() <= amount * sum(
            table.rates().take(k as int),
        ),
        amount * sum(table.rates().take(k as int)) <= total(
            table.payouts(amount).take(k as int),
        ) * table.scale() + k * (table.scale() - 1),
    decreases k,
{
    let payouts = table.payouts(amount);
    let rates = table.rates();
    let scale = table.scale();
    if k == 0 {
        assert(amount * sum(rates.take(0)) == 0) by (nonlinear_arith)
            requires
                sum(rates.take(0)) == 0,
        ;
        assert(total(payouts.take(0)) * scale == 0) by (nonlinear_arith)
            requires
                total(payouts.take(0)) == 0,
        ;
    } else {
        let j = (k - 1) as nat;
        lemma_split_prefix(table, amount, j);
        assert(payouts.take(k as int).drop_last() =~= payouts.take(j as int));
        assert(rates.take(k as int).drop_last() =~= rates.take(j as int));
        let before = total(payouts.take(j as int));
        let rated = sum(rates.take(j as int));
        let rate = rates[j as int] as nat;
        let share = payouts[j as int];
        let whole = amount as nat;
        assert(share == (whole * rate) / scale);
        lemma_floor_bounds(whole * rate, scale);
        assert((before + share) * scale == before * scale + share * scale) by (nonlinear_arith);
        assert(amount * (rated + rate) == amount * rated + amount * rate) by (nonlinear_arith);
        assert(k * (scale - 1) == j * (scale - 1) + (scale - 1)) by (nonlinear_arith)
            requires
                k == j + 1,
        ;
    }
}

/// Splitting never hands out more than came in, and what it withholds is
/// less than one unit per share: with `n` shares and scale `s`, the
/// shortfall times `s` is at most `n * (s - 1)`.
pub proof fn lemma_split_conservation<A>(table: Table<A>, amount: u128)
    requires
        table.exact(),
    ensures
        total(table.payouts(amount)) <= amount,
        (amount - total(table.payouts(amount))) * table.scale() <= table.shares.len() * (
        table.scale() - 1),
        amount - total(table.payouts(amount)) < table.shares.len(),
{
    let payouts = table.payouts(amount);
    let rates = table.rates();
    let scale = table.scale();
    let n = table.shares.len();
    lemma_pow10_positive(table.decimal_places as nat);
    lemma_split_prefix(table, amount, n);
    assert(payouts.take(n as int) =~= payouts);
    assert(rates.take(n as int) =~= rates);
    let paid = total(payouts);
    assert(paid * scale <= amount * scale);
    assert(paid <= amount) by (nonlinear_arith)
        requires
            paid * scale <= amount * scale,
            0 < scale,
    ;
    assert((amount - paid) * scale == amount * scale - paid * scale) by (nonlinear_arith);
    assert(0 < n) by {
        if n == 0 {
            assert(sum(rates) == 0);
        }
    }
    assert(amount - paid < n) by (nonlinear_arith)
        requires
            (amount - paid) * scale <= n * (scale - 1),
            0 < scale,
            0 < n,
            paid <= amount,
    ;
}

} // verus!
