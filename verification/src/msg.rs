//! The messages that the contract takes and the answers it gives.

use vstd::prelude::*;
use crate::address::HumanAddr;
use crate::royalties::{DisplayRoyaltyInfo, RoyaltyInfo, Table};

verus! {

/// A token amount.
#[derive(Debug, Clone, Copy, PartialEq, Eq, Structural)]
pub struct Uint128(pub u128);

/// The one-time setup message.
#[derive(Debug, PartialEq, Eq)]
pub struct InitMsg {
    /// Who may change the configuration.
    pub admin: HumanAddr,
    /// The distribution table to start with.
    pub dist_info: RoyaltyInfo,
    /// A token contract to register at once.
    pub sscrt_addr: HumanAddr,
    /// Its callback code hash.
    pub sscrt_hash: String,
}

/// The operations that change state or move funds.
#[derive(Debug, PartialEq, Eq)]
pub enum HandleMsg {
    /// A token contract reports that funds have arrived.
    Receive { sender: HumanAddr, from: HumanAddr, amount: Uint128, msg: Option<Vec<u8>> },
    /// Registers a token contract. Admin only.
    RegisterToken { snip20_addr: HumanAddr, snip20_hash: String },
    /// Replaces the distribution table. Admin only.
    ChangeDistribution { dist_info: RoyaltyInfo },
    /// Hands the admin role to another address. Admin only.
    ChangeAdmin { admin_addr: HumanAddr },
}

/// The questions that can be asked.
#[derive(Debug, Clone, Copy, PartialEq, Eq, Structural)]
pub enum QueryMsg {
    /// Which distribution table is stored?
    QueryDist {  },
}

/// A distribution table given in answer to a check.
#[derive(Debug, PartialEq, Eq)]
pub struct DistributionCheckResponse {
    pub dist: RoyaltyInfo,
}

/// The answers to the questions of `QueryMsg`.
#[derive(Debug, PartialEq, Eq)]
pub enum QueryAnswer {
    /// The stored distribution table with written addresses, or nothing if
    /// none is stored.
    RoyaltyInfo { royalty_info: Option<DisplayRoyaltyInfo> },
}

impl View for QueryAnswer {
    type V = Option<Table<Option<Seq<char>>>>;

    open spec fn view(&self) -> Option<Table<Option<Seq<char>>>> {
        match self {
            QueryAnswer::RoyaltyInfo { royalty_info: Some(shown) } => Some(shown@),
            QueryAnswer::RoyaltyInfo { royalty_info: None } => None,
        }
    }
}

/// An instruction to a token contract. The operations only say what is to
/// be sent; the host sends it once the operation has succeeded.
#[derive(Debug, PartialEq, Eq)]
pub enum Snip20Msg {
    /// Asks the token contract to report incoming funds to the contract
    /// with the code hash `code_hash`.
    RegisterReceive { code_hash: String, callback_code_hash: String, contract_addr: HumanAddr },
    /// Asks the token contract to pay `amount` to `recipient`.
    Transfer {
        recipient: HumanAddr,
        amount: Uint128,
        callback_code_hash: String,
        contract_addr: HumanAddr,
    },
}

/// The mathematical content of a `Snip20Msg`.
pub enum Instruction {
    RegisterReceive { code_hash: Seq<char>, callback_code_hash: Seq<char>, contract_addr: Seq<char> },
    Transfer {
        recipient: Seq<char>,
        amount: nat,
        callback_code_hash: Seq<char>,
        contract_addr: Seq<char>,
    },
}

impl View for Snip20Msg {
    type V = Instruction;

    open spec fn view(&self) -> Instruction {
        match self {
            Snip20Msg::RegisterReceive { code_hash, callback_code_hash, contract_addr } => {
                Instruction::RegisterReceive {
                    code_hash: code_hash@,
                    callback_code_hash: callback_code_hash@,
                    contract_addr: contract_addr@,
                }
            },
            Snip20Msg::Transfer { recipient, amount, callback_code_hash, contract_addr } => {
                Instruction::Transfer {
                    recipient: recipient@,
                    amount: amount.0 as nat,
                    callback_code_hash: callback_code_hash@,
                    contract_addr: contract_addr@,
                }
            },
        }
    }
}

/// What a successful setup hands back.
#[derive(Debug, PartialEq, Eq)]
pub struct InitResponse {
    /// The instructions to send, in order.
    pub messages: Vec<Snip20Msg>,
}

impl View for InitResponse {
    type V = Seq<Instruction>;

    open spec fn view(&self) -> Seq<Instruction> {
        self.messages@.map_values(|m: Snip20Msg| m@)
    }
}

/// What a successful operation hands back.
#[derive(Debug, PartialEq, Eq)]
pub struct HandleResponse {
    /// The instructions to send, in order.
    pub messages: Vec<Snip20Msg>,
}

impl View for HandleResponse {
    type V = Seq<Instruction>;

    open spec fn view(&self) -> Seq<Instruction> {
        self.messages@.map_values(|m: Snip20Msg| m@)
    }
}

} // verus!
