//! Unsigned 256-bit arithmetic for fixed-point percentage shares.
//!
//! A share table states its rates at a decimal precision `d`, so that the
//! integer `10^d` stands for 100%. Neither `10^d` nor the product of a token
//! amount and a rate fits the native integer widths in general, so both are
//! computed by `primitive_types::U256`. This module gives the words of such an
//! integer their mathematical value, proves the conversions to and from the
//! native widths, and derives the two operations the rest of the crate needs:
//! the scale factor of a precision and the floor of `amount * rate / scale`.

use vstd::prelude::*;
use vstd::arithmetic::power::{
    lemma_pow1, lemma_pow_adds, lemma_pow_increases, lemma_pow_positive, pow,
};
use primitive_types::U256;

verus! {

/// Two to the power 64.
pub open spec fn pow2_64() -> nat {
    0x1_0000_0000_0000_0000nat
}

/// Two to the power 128.
pub open spec fn pow2_128() -> nat {
    0x1_0000_0000_0000_0000_0000_0000_0000_0000nat
}

/// Two to the power 192.
pub open spec fn pow2_192() -> nat {
    0x1_0000_0000_0000_0000_0000_0000_0000_0000_0000_0000_0000_0000nat
}

/// Two to the power 256: the first value a `Uint256` cannot hold.
pub open spec fn pow2_256() -> nat {
    0x1_0000_0000_0000_0000_0000_0000_0000_0000_0000_0000_0000_0000_0000_0000_0000_0000nat
}

/// Ten to the power `decimal_places`: the integer that stands for 100% at
/// that precision.
pub open spec fn pow10(decimal_places: nat) -> nat {
    pow(10, decimal_places) as nat
}

/// The share of `amount` that a rate is entitled to when `scale` stands for
/// 100%: the product divided by the scale, rounded down.
pub open spec fn share_of(amount: nat, rate: nat, scale: nat) -> nat {
    (amount * rate) / scale
}

/// An unsigned 256-bit integer, held as four 64-bit words, least significant
/// word first.
#[derive(Clone, Copy, Debug, PartialEq, Eq)]
pub struct Uint256 {
    pub words: [u64; 4],
}

impl Uint256 {
    /// The number that the four words stand for.
    pub open spec fn value(self) -> nat {
        (self.words[0] as nat) + (self.words[1] as nat) * pow2_64() + (self.words[2] as nat)
            * pow2_128() + (self.words[3] as nat) * pow2_192()
    }

    /// Widens a 64-bit integer.
    pub fn from_u64(x: u64) -> (r: Uint256)
        ensures
            r.value() == x,
    {
        Uint256 { words: [x, 0, 0, 0] }
    }

    /// Widens a 128-bit integer.
    pub fn from_u128(x: u128) -> (r: Uint256)
        ensures
            r.value() == x,
    {
        let low: u64 = (x % 0x1_0000_0000_0000_0000) as u64;
        let high: u64 = (x / 0x1_0000_0000_0000_0000) as u64;
        Uint256 { words: [low, high, 0, 0] }
    }

    /// Narrows to 128 bits, where the value fits.
    pub fn to_u128(&self) -> (r: Option<u128>)
        ensures
            r is Some <==> self.value() < pow2_128(),
            r matches Some(x) ==> x == self.value(),
    {
        if self.words[2] == 0 && self.words[3] == 0 {
            let low: u128 = self.words[0] as u128;
            let high: u128 = self.words[1] as u128;
            Some(low + high * 0x1_0000_0000_0000_0000)
        } else {
            None
        }
    }
}

/// Calls `U256::overflowing_pow`, which raises `base` to `exponent` by
/// repeated squaring with wrapping multiplications and returns the result
/// with a flag that is set if any of the multiplications overflowed. Every
/// product formed on the way is a factor of the final power, so the flag is
/// set exactly when the true power needs more than 256 bits. The words
/// returned hold the true power reduced modulo two to the power 256.
#[verifier::external_body]
fn u256_overflowing_pow(base: Uint256, exponent: Uint256) -> (r: (Uint256, bool))
    ensures
        r.1 == (pow(base.value() as int, exponent.value()) >= pow2_256()),
        r.0.value() == pow(base.value() as int, exponent.value()) % (pow2_256() as int),
{
    let (power, overflow) = U256(base.words).overflowing_pow(U256(exponent.words));
    (Uint256 { words: power.0 }, overflow)
}

/// Calls `U256`'s multiplication operator, which panics when the product
/// needs more than 256 bits and otherwise returns the product.
#[verifier::external_body]
fn u256_mul(a: Uint256, b: Uint256) -> (r: Uint256)
    requires
        a.value() * b.value() < pow2_256(),
    ensures
        r.value() == a.value() * b.value(),
{
    Uint256 { words: (U256(a.words) * U256(b.words)).0 }
}

/// Calls `U256`'s division operator, which panics on a zero divisor and
/// otherwise returns the quotient rounded down.
#[verifier::external_body]
fn u256_div(a: Uint256, b: Uint256) -> (r: Uint256)
    requires
        b.value() > 0,
    ensures
        r.value() == a.value() / b.value(),
{
    Uint256 { words: (U256(a.words) / U256(b.words)).0 }
}

/// The scale factor `10^decimal_places`, or `None` when it does not fit in
/// 256 bits.
pub fn checked_pow10(decimal_places: u32) -> (r: Option<Uint256>)
    ensures
        r is Some <==> pow10(decimal_places as nat) < pow2_256(),
        r matches Some(scale) ==> scale.value() == pow10(decimal_places as nat),
{
    let (power, overflow) = u256_overflowing_pow(
        Uint256::from_u64(10),
        Uint256::from_u64(decimal_places as u64),
    );
    proof {
        lemma_pow_positive(10, decimal_places as nat);
    }
    if overflow {
        None
    } else {
        Some(power)
    }
}

/// A power of ten whose exponent is a sum is the product of the powers.
proof fn lemma_pow10_product(a: nat, b: nat, x: int, y: int)
    requires
        pow(10, a) == x,
        pow(10, b) == y,
    ensures
        pow(10, a + b) == x * y,
{
    lemma_pow_adds(10, a, b);
}

/// The largest precision whose scale factor fits in 256 bits.
pub const MAX_DECIMAL_PLACES: u32 = 77;

/// The scale factor fits in 256 bits for up to 77 decimal places and for no
/// more.
pub proof fn lemma_pow10_fits(decimal_places: nat)
    ensures
        pow10(decimal_places) < pow2_256() <==> decimal_places <= MAX_DECIMAL_PLACES,
{
    lemma_pow1(10);
    lemma_pow10_product(1, 1, 10, 10);
    lemma_pow10_product(2, 2, 100, 100);
    lemma_pow10_product(4, 4, 10_000, 10_000);
    lemma_pow10_product(8, 8, 100_000_000, 100_000_000);
    lemma_pow10_product(16, 16, 10_000_000_000_000_000, 10_000_000_000_000_000);
    lemma_pow10_product(
        32,
        32,
        100_000_000_000_000_000_000_000_000_000_000int,
        100_000_000_000_000_000_000_000_000_000_000int,
    );
    lemma_pow10_product(64, 8, pow(10, 64), 100_000_000);
    lemma_pow10_product(72, 4, pow(10, 72), 10_000);
    lemma_pow10_product(76, 1, pow(10, 76), 10);
    lemma_pow10_product(77, 1, pow(10, 77), 10);
    assert(pow(10, 77) < pow2_256());
    assert(pow(10, 78) >= pow2_256());
    if decimal_places <= 77 {
        lemma_pow_increases(10, decimal_places, 77);
    } else {
        lemma_pow_increases(10, 78, decimal_places);
    }
    lemma_pow_positive(10, decimal_places);
}

/// The product of a 128-bit amount and a 16-bit rate always fits in 256 bits.
pub proof fn lemma_product_fits(amount: u128, rate: u16)
    ensures
        (amount as nat) * (rate as nat) < pow2_256(),
{
    assert((amount as nat) * (rate as nat) <= 0xffff_ffff_ffff_ffff_ffff_ffff_ffff_ffffnat * 0xffffnat)
        by (nonlinear_arith);
}

/// The floor of `amount * rate / scale`, with the product taken in 256 bits
/// so that it cannot overflow.
pub fn mul_div(amount: u128, rate: u16, scale: Uint256) -> (r: Uint256)
    requires
        scale.value() > 0,
    ensures
        r.value() == share_of(amount as nat, rate as nat, scale.value()),
{
    proof {
        lemma_product_fits(amount, rate);
    }
    let product = u256_mul(Uint256::from_u128(amount), Uint256::from_u64(rate as u64));
    u256_div(product, scale)
}

} // verus!
