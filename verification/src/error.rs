//! The ways in which an operation can fail.

use vstd::prelude::*;

verus! {

/// A persisted value that an operation expects to find.
#[derive(Debug, Clone, Copy, PartialEq, Eq, Structural)]
pub enum Item {
    /// The admin configuration.
    Config,
    /// The distribution table.
    Distribution,
}

/// Why an operation was refused. A refused operation changes nothing.
#[derive(Debug, Clone, Copy, PartialEq, Eq, Structural)]
pub enum Error {
    /// The table's precision is so fine that its scale factor does not fit
    /// in 256 bits.
    DecimalPlacesOverflow,
    /// The table's rates do not add up to exactly 100% at its precision.
    RatesNotExact,
    /// Funds arrived from a token contract that was never registered.
    NotRegistered,
    /// The caller is not the admin.
    Unauthorized,
    /// A value that must have been stored is absent.
    NotFound(Item),
    /// An address has no counterpart in the other form.
    InvalidAddress,
    /// The contract was set up before.
    AlreadyInitialized,
}

impl Error {
    /// Whether the error rejects a distribution table as malformed.
    pub open spec fn is_validation(self) -> bool {
        self == Error::DecimalPlacesOverflow || self == Error::RatesNotExact
    }

    /// The text shown to the caller of the failed operation.
    pub open spec fn text(self) -> Seq<char> {
        match self {
            Error::DecimalPlacesOverflow => "The number of decimal places used in the royalty rates is larger than supported"@,
            Error::RatesNotExact => "The sum of royalty rates must not exceed 100%"@,
            Error::NotRegistered => "This token is not registered with this contract. Please register it"@,
            Error::Unauthorized => "This function is only usable by the Admin"@,
            Error::NotFound(Item::Config) => "Config not found"@,
            Error::NotFound(Item::Distribution) => "StoredRoyaltyInfo not found"@,
            Error::InvalidAddress => "Address cannot be converted"@,
            Error::AlreadyInitialized => "This contract is already initialized"@,
        }
    }

    /// Formats the error for presentation.
    pub fn message(&self) -> (r: String)
        ensures
            r@ == self.text(),
    {
        let text = match self {
            Error::DecimalPlacesOverflow => "The number of decimal places used in the royalty rates is larger than supported",
            Error::RatesNotExact => "The sum of royalty rates must not exceed 100%",
            Error::NotRegistered => "This token is not registered with this contract. Please register it",
            Error::Unauthorized => "This function is only usable by the Admin",
            Error::NotFound(Item::Config) => "Config not found",
            Error::NotFound(Item::Distribution) => "StoredRoyaltyInfo not found",
            Error::InvalidAddress => "Address cannot be converted",
            Error::AlreadyInitialized => "This contract is already initialized",
        };
        text.to_owned()
    }
}

} // verus!
