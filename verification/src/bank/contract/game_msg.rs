//! What the ledger knows of the table's messages.

use vstd::prelude::*;

verus! {

/// What a table is created with.
#[derive(Clone, Debug, PartialEq, Eq)]
pub struct InitMsg {
    /// Where the ledger lives.
    pub bank_address: String,
    /// The ledger's code hash.
    pub bank_code_hash: String,
    /// The first value of the round counter that shuffles are seeded with.
    pub secret: u64,
}

/// A request that changes the table.
#[derive(Clone, Debug, PartialEq, Eq)]
pub enum HandleMsg {
    Bid { amount: u128, seat: u8 },
    Hold { seat: u8 },
    Sit { secret: u64, seat: u8 },
    Stand { seat: u8 },
    Kick { target: String, seat: u8 },
    Hit { seat: u8 },
}

/// A request that only reads the table.
#[derive(Clone, Debug, PartialEq, Eq)]
pub enum QueryMsg {
    GetUserBalance { address: String },
    GetTable {  },
    GetLastScore {  },
}

/// Data returned by a changing request. The table has none to return.
#[derive(Clone, Copy, Debug, PartialEq, Eq)]
pub enum HandleAnswer {
    Empty {  },
}

/// The table's answer to a request for a stake.
#[derive(Clone, Copy, Debug, PartialEq, Eq)]
pub enum QueryAnswer {
    GetUserBalance { balance: u128 },
}

} // verus!
