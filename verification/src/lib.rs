//! A verified core for a contract that forwards incoming token transfers to
//! a set of recipients.
//!
//! Funds that arrive from a registered token contract are split among the
//! recipients of a distribution table according to fixed-point percentage
//! shares. The table, the admin and the directory of registered token
//! contracts make up the persistent state, which is an explicit value that
//! every operation is handed.
//!
//! - [`wide`]: 256-bit arithmetic for scale factors and shares
//! - [`royalties`]: distribution tables, their validation and the splitting
//!   of an amount
//! - [`state`]: the persistent state
//! - [`api`], [`address`]: addresses and their conversion
//! - [`msg`], [`error`]: messages, answers and errors
//! - [`contract`]: the operations
//! - [`assoc`]: association lists read as maps

pub mod address;
pub mod api;
pub mod assoc;
pub mod contract;
pub mod error;
pub mod msg;
pub mod royalties;
pub mod state;
pub mod wide;
