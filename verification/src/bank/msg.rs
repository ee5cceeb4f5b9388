//! The requests and answers that cross the ledger's boundary.

use crate::chain::{instruction_views, Instruction, InstructionView};
use vstd::prelude::*;

verus! {

/// What the ledger is created with.
#[derive(Clone, Debug, PartialEq, Eq)]
pub struct InitMsg {
    /// The code from which the ledger creates its table.
    pub game_contract_code_id: u64,
    /// The hash of that code.
    pub game_contract_code_hash: String,
    /// The first value of the table's round counter.
    pub secret: u64,
}

/// A request that changes the ledger or pays from the pool.
#[derive(Clone, Debug, PartialEq, Eq)]
pub enum HandleMsg {
    /// The table makes itself known.
    UpdateGameAddress { address: String },
    /// The table has `amount` paid from the pool to `to`.
    PayToWinner { amount: u128, to: String },
    /// The owner empties the pool into its own account.
    EmergencyWithdrawAll {  },
    /// The owner hands the ledger over.
    ChangeOwner { new_owner: String },
}

/// A request that only reads.
#[derive(Clone, Debug, PartialEq, Eq)]
pub enum QueryMsg {
    GetBankBalance {  },
}

/// Data returned by a changing request.
#[derive(Clone, Copy, Debug, PartialEq, Eq, Structural)]
pub enum HandleAnswer {
    ChangeOwner {  },
}

/// The answer to a reading request.
#[derive(Clone, Copy, Debug, PartialEq, Eq, Structural)]
pub enum QueryAnswer {
    GetBankBalance { balance: u128 },
}

/// What a successful request to the ledger hands back.
#[derive(Clone, Debug, PartialEq, Eq)]
pub struct HandleResponse {
    /// The instructions to carry out, in order.
    pub messages: Vec<Instruction>,
    /// The data of the answer, if the request has any.
    pub data: Option<HandleAnswer>,
}

/// The mathematical value of a `HandleResponse`.
pub struct ResponseView {
    pub messages: Seq<InstructionView>,
    pub data: Option<HandleAnswer>,
}

impl View for HandleResponse {
    type V = ResponseView;

    open spec fn view(&self) -> ResponseView {
        ResponseView { messages: instruction_views(self.messages@), data: self.data }
    }
}

} // verus!
