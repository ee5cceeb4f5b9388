//! What surrounds a call and what a call hands back: the envelope of a
//! request, and the instructions that the caller is to carry out once the
//! call has succeeded.

use vstd::prelude::*;

verus! {

/// An amount of one denomination of coin.
#[derive(Clone, Debug, PartialEq, Eq)]
pub struct Coin {
    pub denom: String,
    pub amount: u128,
}

/// The envelope of a request: who makes it, what funds came with it, the
/// time, and the component that receives it.
#[derive(Clone, Debug, PartialEq, Eq)]
pub struct Env {
    /// The identity of the caller.
    pub sender: String,
    /// The funds attached to the request.
    pub sent_funds: Vec<Coin>,
    /// The current time, in seconds.
    pub time: u64,
    /// The address of the component that handles the request.
    pub contract_address: String,
    /// The code hash of the component that handles the request.
    pub contract_code_hash: String,
}

/// An instruction for the world outside. Instructions are only collected
/// during a call; the caller carries them out, in order, after the call has
/// succeeded, and drops them when it has failed.
#[derive(Clone, Debug, PartialEq, Eq)]
pub enum Instruction {
    /// Ask the ledger at `contract_addr` to pay `amount` from the pool to `to`.
    PayToWinner { contract_addr: String, callback_code_hash: String, amount: u128, to: String },
    /// Tell the ledger at `contract_addr` that the table lives at `address`.
    UpdateGameAddress { contract_addr: String, callback_code_hash: String, address: String },
    /// Create a table from the code `code_id`, to work with the ledger at
    /// `bank_address`.
    InstantiateGame {
        code_id: u64,
        callback_code_hash: String,
        bank_address: String,
        bank_code_hash: String,
        secret: u64,
        label: String,
    },
    /// Move `amount` of the native coin from `from_address` to `to_address`.
    Send { from_address: String, to_address: String, amount: u128 },
}

/// The mathematical value of an `Instruction`.
pub enum InstructionView {
    PayToWinner {
        contract_addr: Seq<char>,
        callback_code_hash: Seq<char>,
        amount: u128,
        to: Seq<char>,
    },
    UpdateGameAddress { contract_addr: Seq<char>, callback_code_hash: Seq<char>, address: Seq<char> },
    InstantiateGame {
        code_id: u64,
        callback_code_hash: Seq<char>,
        bank_address: Seq<char>,
        bank_code_hash: Seq<char>,
        secret: u64,
        label: Seq<char>,
    },
    Send { from_address: Seq<char>, to_address: Seq<char>, amount: u128 },
}

impl View for Instruction {
    type V = InstructionView;

    open spec fn view(&self) -> InstructionView {
        match *self {
            Instruction::PayToWinner { contract_addr, callback_code_hash, amount, to } => {
                InstructionView::PayToWinner {
                    contract_addr: contract_addr@,
                    callback_code_hash: callback_code_hash@,
                    amount,
                    to: to@,
                }
            },
            Instruction::UpdateGameAddress { contract_addr, callback_code_hash, address } => {
                InstructionView::UpdateGameAddress {
                    contract_addr: contract_addr@,
                    callback_code_hash: callback_code_hash@,
                    address: address@,
                }
            },
            Instruction::InstantiateGame {
                code_id,
                callback_code_hash,
                bank_address,
                bank_code_hash,
                secret,
                label,
            } => InstructionView::InstantiateGame {
                code_id,
                callback_code_hash: callback_code_hash@,
                bank_address: bank_address@,
                bank_code_hash: bank_code_hash@,
                secret,
                label: label@,
            },
            Instruction::Send { from_address, to_address, amount } => InstructionView::Send {
                from_address: from_address@,
                to_address: to_address@,
                amount,
            },
        }
    }
}

/// The values of a list of instructions, in order.
pub open spec fn instruction_views(list: Seq<Instruction>) -> Seq<InstructionView> {
    Seq::new(list.len(), |i: int| list[i]@)
}

/// Adding an instruction to a list adds its value to the list's values.
pub proof fn lemma_instruction_views_push(list: Seq<Instruction>, last: Instruction)
    ensures
        instruction_views(list.push(last)) == instruction_views(list).push(last@),
{
    assert(instruction_views(list.push(last)) =~= instruction_views(list).push(last@));
}

/// The name of the native coin that stakes and payouts are made in.
pub open spec fn native_denom() -> Seq<char> {
    seq!['u', 's', 'c', 'r', 't']
}

/// Whether the funds hold a coin of exactly `amount` in the native coin.
pub open spec fn funds_hold(funds: Seq<Coin>, amount: u128) -> bool {
    exists|i: int|
        0 <= i < funds.len() && (#[trigger] funds[i]).denom@ == native_denom() && funds[i].amount
            == amount
}

/// Whether the funds hold a coin of exactly `amount` in the native coin.
pub fn contains_native(funds: &Vec<Coin>, amount: u128) -> (found: bool)
    ensures
        found == funds_hold(funds@, amount),
{
    let native = "uscrt";
    proof {
        reveal_strlit("uscrt");
        assert(native@ =~= native_denom());
    }
    let mut i: usize = 0;
    while i < funds.len()
        invariant
            i <= funds.len(),
            native@ == native_denom(),
            forall|j: int|
                0 <= j < i ==> !((#[trigger] funds[j]).denom@ == native_denom() && funds[j].amount
                    == amount),
        decreases funds.len() - i,
    {
        if funds[i].amount == amount && same_text(&funds[i].denom, native) {
            return true;
        }
        i += 1;
    }
    false
}

/// Whether a string and a string slice hold the same text.
fn same_text(a: &String, b: &str) -> (same: bool)
    ensures
        same == (a@ == b@),
{
    let b_owned = b.to_owned();
    *a == b_owned
}

/// What a successful request to the table hands back.
#[derive(Clone, Debug, PartialEq, Eq)]
pub struct HandleResponse {
    /// The instructions to carry out, in order.
    pub messages: Vec<Instruction>,
}

/// What a successful creation hands back.
#[derive(Clone, Debug, PartialEq, Eq)]
pub struct InitResponse {
    /// The instructions to carry out, in order.
    pub messages: Vec<Instruction>,
}

} // verus!
