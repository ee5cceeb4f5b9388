//! The ledger's rules.

use crate::bank::msg::{
    HandleAnswer, HandleMsg, HandleResponse, InitMsg, QueryAnswer, QueryMsg, ResponseView,
};
use crate::bank::state::{
    is_pending_game_address, read_game_address, read_owner, set_pending_game_address,
    store_game_address, store_owner, unset_pending_game_address, BankStorage, BankView,
};
use crate::chain::{instruction_views, Env, InitResponse, Instruction, InstructionView};
use crate::error::ContractError;
use vstd::prelude::*;

pub mod game_msg;

verus! {

/// The text with every character that has a lower case replaced by it.
pub uninterp spec fn lowercase(text: Seq<char>) -> Seq<char>;

/// `str::to_lowercase` of the standard library: the lower-case form of the
/// text, which depends on the text alone.
#[verifier::external_body]
fn to_lowercase(text: &String) -> (lower: String)
    ensures
        lower@ == lowercase(text@),
{
    text.to_lowercase()
}

/// The start of the label under which the ledger creates its table.
pub open spec fn label_prefix() -> Seq<char> {
    seq!['S', 'J', '-', 'G', 'a', 'm', 'e']
}

/// The ledger's share in the pool: a tenth is kept back for the owner, and
/// only the rest is reported.
pub open spec fn reported_balance(balance: u128) -> int {
    balance - balance / 10
}

impl BankView {
    /// The state of a ledger that `owner` has just created at `address`.
    pub open spec fn initial(owner: Seq<char>, address: Seq<char>) -> BankView {
        BankView {
            owner,
            pending_game_address: true,
            game_address: Seq::empty(),
            bank_address: address,
        }
    }

    /// Whether `sender` may take `amount` from a pool that holds
    /// `curr_balance`, and to whom it goes. Emptying the pool (`all`) is
    /// the owner's and pays the owner; any other payment is the table's and
    /// pays `send_to`. No payment can pass what the pool holds.
    pub open spec fn withdrawal(
        self,
        sender: Seq<char>,
        amount: u128,
        send_to: Seq<char>,
        all: bool,
        curr_balance: u128,
    ) -> Result<Seq<char>, ContractError> {
        if all && self.owner != sender {
            Err(ContractError::Unauthorized)
        } else if !all && self.game_address != sender {
            Err(ContractError::OnlyGame)
        } else if amount > curr_balance {
            Err(ContractError::InsufficientBankBalance { asked: amount, balance: curr_balance })
        } else if all {
            Ok(self.owner)
        } else {
            Ok(send_to)
        }
    }

    /// What one of the owner's requests makes of the ledger and hands back.
    pub open spec fn administered(
        self,
        sender: Seq<char>,
        from: Seq<char>,
        msg: HandleMsg,
        pool_balance: u128,
    ) -> Result<(BankView, ResponseView), ContractError> {
        if self.owner != sender {
            Err(ContractError::Unauthorized)
        } else {
            match msg {
                HandleMsg::ChangeOwner { new_owner } => Ok(
                    (
                        BankView { owner: new_owner@, ..self },
                        ResponseView {
                            messages: Seq::empty(),
                            data: Some(HandleAnswer::ChangeOwner {  }),
                        },
                    ),
                ),
                HandleMsg::EmergencyWithdrawAll {  } => Ok(
                    (
                        self,
                        ResponseView {
                            messages: seq![
                                InstructionView::Send {
                                    from_address: from,
                                    to_address: self.owner,
                                    amount: pool_balance,
                                },
                            ],
                            data: None,
                        },
                    ),
                ),
                _ => Err(ContractError::NotAdministrative),
            }
        }
    }

    /// What a request that needs the table to be known makes of the ledger
    /// and hands back.
    pub open spec fn transacted(
        self,
        sender: Seq<char>,
        from: Seq<char>,
        msg: HandleMsg,
        pool_balance: u128,
    ) -> Result<(BankView, ResponseView), ContractError> {
        if self.pending_game_address {
            Err(ContractError::NotInitialized)
        } else {
            match msg {
                HandleMsg::PayToWinner { amount, to } => match self.withdrawal(
                    sender,
                    amount,
                    to@,
                    false,
                    pool_balance,
                ) {
                    Ok(receiver) => Ok(
                        (
                            self,
                            ResponseView {
                                messages: seq![
                                    InstructionView::Send {
                                        from_address: from,
                                        to_address: receiver,
                                        amount,
                                    },
                                ],
                                data: None,
                            },
                        ),
                    ),
                    Err(e) => Err(e),
                },
                _ => self.administered(sender, from, msg, pool_balance),
            }
        }
    }

    /// What a changing request makes of the ledger and hands back.
    pub open spec fn handled(
        self,
        sender: Seq<char>,
        from: Seq<char>,
        msg: HandleMsg,
        pool_balance: u128,
    ) -> Result<(BankView, ResponseView), ContractError> {
        match msg {
            HandleMsg::UpdateGameAddress { address } => Ok(
                (
                    BankView { game_address: address@, pending_game_address: false, ..self },
                    ResponseView { messages: Seq::empty(), data: None },
                ),
            ),
            _ => self.transacted(sender, from, msg, pool_balance),
        }
    }
}

/// Creates the ledger. The caller becomes its owner, and the ledger asks
/// for its table to be created from the code named in `msg`; until the
/// table has made itself known, the ledger only waits.
pub fn init(env: Env, msg: InitMsg) -> (res: (BankStorage, InitResponse))
    ensures
        res.0@ == BankView::initial(env.sender@, env.contract_address@),
        instruction_views(res.1.messages@) == seq![
            InstructionView::InstantiateGame {
                code_id: msg.game_contract_code_id,
                callback_code_hash: lowercase(msg.game_contract_code_hash@),
                bank_address: env.contract_address@,
                bank_code_hash: env.contract_code_hash@,
                secret: msg.secret,
                label: label_prefix() + env.contract_address@,
            },
        ],
{
    let prefix = "SJ-Game";
    proof {
        reveal_strlit("SJ-Game");
        assert(prefix@ =~= label_prefix());
    }
    let game_contract_label = String::from_str(prefix).concat(env.contract_address.as_str());
    let create = Instruction::InstantiateGame {
        code_id: msg.game_contract_code_id,
        callback_code_hash: to_lowercase(&msg.game_contract_code_hash),
        bank_address: env.contract_address.clone(),
        bank_code_hash: env.contract_code_hash.clone(),
        secret: msg.secret,
        label: game_contract_label,
    };
    let mut messages: Vec<Instruction> = Vec::new();
    messages.push(create);
    let mut deps = BankStorage {
        owner: env.sender,
        pending_game_address: false,
        game_address: String::new(),
        bank_address: env.contract_address,
    };
    set_pending_game_address(&mut deps);
    proof {
        assert(deps@.game_address =~= Seq::empty());
        assert(instruction_views(messages@) =~= seq![create@]);
    }
    (deps, InitResponse { messages })
}

/// Hands the ledger over to `new_owner`.
pub fn change_owner(deps: &mut BankStorage, _env: &Env, new_owner: String) -> (res: HandleResponse)
    ensures
        final(deps)@ == (BankView { owner: new_owner@, ..old(deps)@ }),
        res@ == (ResponseView {
            messages: Seq::empty(),
            data: Some(HandleAnswer::ChangeOwner {  }),
        }),
{
    store_owner(deps, &new_owner);
    let res = HandleResponse { messages: Vec::new(), data: Some(HandleAnswer::ChangeOwner {  }) };
    assert(res@.messages =~= Seq::empty());
    res
}

/// Pays `amount` from the pool, which holds `curr_balance`. With `all`
/// the caller must be the owner, who is paid; otherwise the caller must be
/// the table, and `send_to` is paid. No payment can pass what the pool
/// holds. The ledger's own state does not change.
pub fn withdraw(
    deps: &BankStorage,
    env: Env,
    amount: u128,
    send_to: String,
    all: bool,
    curr_balance: u128,
) -> (res: Result<HandleResponse, ContractError>)
    ensures
        match deps@.withdrawal(env.sender@, amount, send_to@, all, curr_balance) {
            Ok(receiver) => res is Ok && res->Ok_0@ == (ResponseView {
                messages: seq![
                    InstructionView::Send {
                        from_address: env.contract_address@,
                        to_address: receiver,
                        amount,
                    },
                ],
                data: None,
            }),
            Err(e) => res == Err::<HandleResponse, ContractError>(e),
        },
        !all && deps@.game_address != env.sender@ ==> res is Err,
        amount > curr_balance ==> res is Err,
{
    let to: String;
    if all {
        check_owner(deps, &env)?;
        to = read_owner(deps);
    } else {
        if !(read_game_address(deps) == env.sender) {
            return Err(ContractError::OnlyGame);
        }
        to = send_to;
    }
    if amount > curr_balance {
        return Err(ContractError::InsufficientBankBalance { asked: amount, balance: curr_balance });
    }
    let send = Instruction::Send { from_address: env.contract_address, to_address: to, amount };
    let mut messages: Vec<Instruction> = Vec::new();
    messages.push(send);
    let res = HandleResponse { messages, data: None };
    assert(res@.messages =~= seq![send@]);
    Ok(res)
}

/// Records where the table lives; from then on the ledger serves it.
pub fn update_game_address(deps: &mut BankStorage, address: String) -> (res: HandleResponse)
    ensures
        final(deps)@ == (BankView {
            game_address: address@,
            pending_game_address: false,
            ..old(deps)@
        }),
        res@ == (ResponseView { messages: Seq::empty(), data: None }),
{
    store_game_address(deps, &address);
    unset_pending_game_address(deps);
    let res = HandleResponse { messages: Vec::new(), data: None };
    assert(res@.messages =~= Seq::empty());
    res
}

/// Carries out a changing request. `pool_balance` is what the pool holds.
///
/// A request that fails leaves the state as it was.
pub fn handle(deps: &mut BankStorage, env: Env, msg: HandleMsg, pool_balance: u128) -> (res: Result<
    HandleResponse,
    ContractError,
>)
    ensures
        match old(deps)@.handled(env.sender@, env.contract_address@, msg, pool_balance) {
            Ok((next, response)) => res is Ok && final(deps)@ == next && res->Ok_0@ == response,
            Err(e) => res == Err::<HandleResponse, ContractError>(e) && final(deps)@ == old(deps)@,
        },
{
    match msg {
        HandleMsg::UpdateGameAddress { address } => Ok(update_game_address(deps, address)),
        _ => after_initialization_transaction(deps, env, msg, pool_balance),
    }
}

/// Whether the caller is the owner.
fn check_owner(deps: &BankStorage, env: &Env) -> (res: Result<(), ContractError>)
    ensures
        deps@.owner == env.sender@ ==> res is Ok,
        deps@.owner != env.sender@ ==> res == Err::<(), ContractError>(ContractError::Unauthorized),
{
    let owner = read_owner(deps);
    if !(owner == env.sender) {
        Err(ContractError::Unauthorized)
    } else {
        Ok(())
    }
}

/// Carries out a request that needs the table to be known: a payment to a
/// winner, or one of the owner's requests.
pub fn after_initialization_transaction(
    deps: &mut BankStorage,
    env: Env,
    msg: HandleMsg,
    pool_balance: u128,
) -> (res: Result<HandleResponse, ContractError>)
    ensures
        match old(deps)@.transacted(env.sender@, env.contract_address@, msg, pool_balance) {
            Ok((next, response)) => res is Ok && final(deps)@ == next && res->Ok_0@ == response,
            Err(e) => res == Err::<HandleResponse, ContractError>(e) && final(deps)@ == old(deps)@,
        },
{
    if is_pending_game_address(deps) {
        return Err(ContractError::NotInitialized);
    }
    match msg {
        HandleMsg::PayToWinner { amount, to } => withdraw(deps, env, amount, to, false, pool_balance),
        _ => administrative_transaction(deps, env, msg, pool_balance),
    }
}

/// Carries out one of the owner's requests: handing the ledger over, or
/// emptying the pool into the owner's account.
pub fn administrative_transaction(
    deps: &mut BankStorage,
    env: Env,
    msg: HandleMsg,
    pool_balance: u128,
) -> (res: Result<HandleResponse, ContractError>)
    ensures
        match old(deps)@.administered(env.sender@, env.contract_address@, msg, pool_balance) {
            Ok((next, response)) => res is Ok && final(deps)@ == next && res->Ok_0@ == response,
            Err(e) => res == Err::<HandleResponse, ContractError>(e) && final(deps)@ == old(deps)@,
        },
{
    check_owner(deps, &env)?;
    match msg {
        HandleMsg::ChangeOwner { new_owner } => Ok(change_owner(deps, &env, new_owner)),
        HandleMsg::EmergencyWithdrawAll {  } => {
            let owner = read_owner(deps);
            withdraw(deps, env, pool_balance, owner, true, pool_balance)
        },
        _ => Err(ContractError::NotAdministrative),
    }
}

/// What the ledger reports of a pool that holds `balance`: a tenth is kept
/// back for the owner, the rest is reported.
pub fn get_bank_balance(balance: u128) -> (answer: QueryAnswer)
    ensures
        answer == (QueryAnswer::GetBankBalance { balance: reported_balance(balance) as u128 }),
        0 <= reported_balance(balance) <= balance,
{
    QueryAnswer::GetBankBalance { balance: balance - balance / 10 }
}

/// Answers a reading request about a pool that holds `balance`.
pub fn query(msg: QueryMsg, balance: u128) -> (answer: QueryAnswer)
    ensures
        answer == (QueryAnswer::GetBankBalance { balance: reported_balance(balance) as u128 }),
{
    match msg {
        QueryMsg::GetBankBalance {  } => get_bank_balance(balance),
    }
}

} // verus!
