//! The table's stored state, held as one value, and the accessors to its
//! parts.

use crate::error::ContractError;
use crate::game::msg::{DeckView, GameDeck, Scores, ScoresView, Table, TableView};
use vstd::prelude::*;

verus! {

/// The largest stake that one identity can hold at the table: the largest
/// amount whose payout with the bonus of a quarter still fits in 128 bits.
pub const MAX_STAKE: u128 = 272225893536750770770699685945414569164;

/// The stake that the table holds for one identity.
#[derive(Debug, PartialEq, Eq)]
pub struct Account {
    pub address: String,
    pub balance: u128,
}

/// Everything that the table keeps between calls.
#[derive(Debug, PartialEq, Eq)]
pub struct GameStorage {
    /// The identity of the owner.
    pub owner: String,
    /// The ledger's code hash.
    pub bank_code_hash: String,
    /// Where the table itself lives.
    pub game_address: String,
    /// Where the ledger lives.
    pub bank_address: String,
    /// The table.
    pub table: Table,
    /// The deck of the current round.
    pub deck: GameDeck,
    /// The round counter: the table's share of the next shuffle's seed.
    pub secret: u64,
    /// The secret that each seat's occupant gave when sitting down.
    pub player_secrets: [u64; 6],
    /// The stakes held, at most one account for an identity.
    pub balances: Vec<Account>,
    /// How the last settled round ended.
    pub scores: Scores,
}

/// The mathematical value of a `GameStorage`. `balances` gives every
/// identity its stake, zero where the table holds none for it.
pub struct StorageView {
    pub owner: Seq<char>,
    pub bank_code_hash: Seq<char>,
    pub game_address: Seq<char>,
    pub bank_address: Seq<char>,
    pub table: TableView,
    pub deck: DeckView,
    pub secret: u64,
    pub player_secrets: Seq<u64>,
    pub balances: Map<Seq<char>, u128>,
    pub scores: ScoresView,
}

/// Whether some account belongs to `who`.
pub open spec fn holds_account(accounts: Seq<Account>, who: Seq<char>) -> bool {
    exists|i: int| 0 <= i < accounts.len() && (#[trigger] accounts[i]).address@ == who
}

/// The stake held for `who`: the balance of its account, zero without one.
pub open spec fn balance_in(accounts: Seq<Account>, who: Seq<char>) -> u128 {
    if holds_account(accounts, who) {
        let i = choose|i: int| 0 <= i < accounts.len() && (#[trigger] accounts[i]).address@ == who;
        accounts[i].balance
    } else {
        0
    }
}

/// No two accounts belong to the same identity.
pub open spec fn distinct_accounts(accounts: Seq<Account>) -> bool {
    forall|i: int, j: int|
        0 <= i < j < accounts.len() ==> (#[trigger] accounts[i]).address@ != (
        #[trigger] accounts[j]).address@
}

/// The stake of every identity.
pub open spec fn ledger_view(accounts: Seq<Account>) -> Map<Seq<char>, u128> {
    Map::total(|who: Seq<char>| balance_in(accounts, who))
}

impl View for GameStorage {
    type V = StorageView;

    open spec fn view(&self) -> StorageView {
        StorageView {
            owner: self.owner@,
            bank_code_hash: self.bank_code_hash@,
            game_address: self.game_address@,
            bank_address: self.bank_address@,
            table: self.table@,
            deck: self.deck@,
            secret: self.secret,
            player_secrets: self.player_secrets@,
            balances: ledger_view(self.balances@),
            scores: self.scores@,
        }
    }
}

impl StorageView {
    /// The stored state is consistent, as it is between calls.
    pub open spec fn wf(self) -> bool {
        self.parts_wf() && self.table.phase_wf()
    }
}

impl GameStorage {
    /// The parts are consistent, whatever the phase, and no identity has two
    /// accounts.
    pub open spec fn parts_wf(&self) -> bool {
        self@.parts_wf() && distinct_accounts(self.balances@)
    }

    /// The stored state is consistent, as it is between calls, and no
    /// identity has two accounts.
    pub open spec fn wf(&self) -> bool {
        self@.wf() && distinct_accounts(self.balances@)
    }
}

/// With distinct accounts, the stake of an account's owner is that account's
/// balance.
pub proof fn lemma_balance_at(accounts: Seq<Account>, i: int)
    requires
        distinct_accounts(accounts),
        0 <= i < accounts.len(),
    ensures
        balance_in(accounts, accounts[i].address@) == accounts[i].balance,
{
    let who = accounts[i].address@;
    assert(holds_account(accounts, who));
    let j = choose|j: int| 0 <= j < accounts.len() && (#[trigger] accounts[j]).address@ == who;
    if j < i {
        assert(accounts[j].address@ != accounts[i].address@);
    } else if i < j {
        assert(accounts[i].address@ != accounts[j].address@);
    }
}

/// The position of the account of `address`, if there is one.
fn find_account(accounts: &Vec<Account>, address: &String) -> (found: Option<usize>)
    ensures
        match found {
            Some(i) => i < accounts.len() && accounts[i as int].address@ == address@,
            None => !holds_account(accounts@, address@),
        },
{
    let mut i: usize = 0;
    while i < accounts.len()
        invariant
            i <= accounts.len(),
            forall|j: int| 0 <= j < i ==> (#[trigger] accounts[j]).address@ != address@,
        decreases accounts.len() - i,
    {
        if accounts[i].address == *address {
            return Some(i);
        }
        i += 1;
    }
    None
}

/// Sets the stake of `address` to `balance`.
fn set_user_balance(storage: &mut GameStorage, address: &String, balance: u128)
    requires
        old(storage).parts_wf(),
        balance <= MAX_STAKE,
    ensures
        final(storage).parts_wf(),
        final(storage)@.table == old(storage)@.table,
        final(storage)@ == (StorageView {
            balances: old(storage)@.balances.insert(address@, balance),
            ..old(storage)@
        }),
{
    let ghost before = storage.balances@;
    match find_account(&storage.balances, address) {
        Some(i) => {
            storage.balances[i].balance = balance;
        },
        None => {
            storage.balances.push(Account { address: address.clone(), balance });
        },
    }
    let ghost after = storage.balances@;
    proof {
        assert(distinct_accounts(after));
        assert forall|who: Seq<char>| #[trigger]
            balance_in(after, who) == (if who == address@ {
                balance
            } else {
                balance_in(before, who)
            }) by {
            lemma_balance_after_set(before, after, address@, balance, who);
        }
        assert(ledger_view(after) =~= ledger_view(before).insert(address@, balance));
    }
}

/// How the stake of `who` reads after the account of `address` was set to
/// `balance`, by overwriting it or by adding it at the end.
proof fn lemma_balance_after_set(
    before: Seq<Account>,
    after: Seq<Account>,
    address: Seq<char>,
    balance: u128,
    who: Seq<char>,
)
    requires
        distinct_accounts(before),
        distinct_accounts(after),
        ({
            ||| (!holds_account(before, address) && after.len() == before.len() + 1
                && after.last().address@ == address && after.last().balance == balance
                && forall|j: int| 0 <= j < before.len() ==> after[j] == before[j])
            ||| (exists|i: int|
                0 <= i < before.len() && before[i].address@ == address && after.len()
                    == before.len() && after[i].address@ == address && after[i].balance == balance
                    && forall|j: int| 0 <= j < before.len() && j != i ==> after[j] == before[j])
        }),
    ensures
        balance_in(after, who) == (if who == address {
            balance
        } else {
            balance_in(before, who)
        }),
{
    if holds_account(after, who) {
        let k = choose|k: int| 0 <= k < after.len() && (#[trigger] after[k]).address@ == who;
        lemma_balance_at(after, k);
        if who != address {
            assert(0 <= k < before.len() && before[k] == after[k]);
            lemma_balance_at(before, k);
        } else {
            if !holds_account(before, address) {
                lemma_balance_at(after, after.len() - 1);
            } else {
                let i = choose|i: int|
                    0 <= i < before.len() && before[i].address@ == address && after.len()
                        == before.len() && after[i].address@ == address && after[i].balance
                        == balance && forall|j: int|
                        0 <= j < before.len() && j != i ==> after[j] == before[j];
                lemma_balance_at(after, i);
            }
        }
    } else {
        if holds_account(before, who) {
            let k = choose|k: int| 0 <= k < before.len() && (#[trigger] before[k]).address@ == who;
            assert(after[k].address@ == who);
            assert(false);
        }
        if who == address {
            if !holds_account(before, address) {
                assert(after[after.len() - 1].address@ == who);
            }
            assert(false);
        }
    }
}

/// The stake that the table holds for `address`.
pub fn read_user_balance(storage: &GameStorage, address: &String) -> (balance: u128)
    requires
        distinct_accounts(storage.balances@),
    ensures
        balance == storage@.balances[address@],
{
    match find_account(&storage.balances, address) {
        Some(i) => {
            proof {
                lemma_balance_at(storage.balances@, i as int);
            }
            storage.balances[i].balance
        },
        None => 0,
    }
}

/// Adds `balance` to the stake of `address`. A stake that would pass
/// `MAX_STAKE` gives `StakeTooLarge` and changes nothing.
pub fn add_user_balance(storage: &mut GameStorage, address: &String, balance: u128) -> (res: Result<
    (),
    ContractError,
>)
    requires
        old(storage).parts_wf(),
    ensures
        final(storage).parts_wf(),
        final(storage)@.table == old(storage)@.table,
        old(storage)@.balances[address@] + balance <= MAX_STAKE ==> res is Ok && final(storage)@
            == (StorageView {
            balances: old(storage)@.balances.insert(
                address@,
                (old(storage)@.balances[address@] + balance) as u128,
            ),
            ..old(storage)@
        }),
        old(storage)@.balances[address@] + balance > MAX_STAKE ==> res == Err::<
            (),
            ContractError,
        >(ContractError::StakeTooLarge) && final(storage)@ == old(storage)@,
{
    let held = read_user_balance(storage, address);
    if balance > MAX_STAKE - held {
        return Err(ContractError::StakeTooLarge);
    }
    set_user_balance(storage, address, held + balance);
    Ok(())
}

/// Sets the stake of `address` to zero.
pub fn zero_user_balance(storage: &mut GameStorage, address: &String)
    requires
        old(storage).parts_wf(),
    ensures
        final(storage).parts_wf(),
        final(storage)@.table == old(storage)@.table,
        final(storage)@ == (StorageView {
            balances: old(storage)@.balances.insert(address@, 0),
            ..old(storage)@
        }),
{
    set_user_balance(storage, address, 0);
}

/// Records who owns the table.
pub fn store_owner(storage: &mut GameStorage, data: &String)
    ensures
        final(storage)@ == (StorageView { owner: data@, ..old(storage)@ }),
        final(storage).balances == old(storage).balances,
{
    storage.owner = data.clone();
}

/// Who owns the table.
pub fn read_owner(storage: &GameStorage) -> (owner: String)
    ensures
        owner@ == storage@.owner,
{
    storage.owner.clone()
}

/// Sets the round counter.
pub fn store_secret(storage: &mut GameStorage, data: &u64)
    ensures
        final(storage)@ == (StorageView { secret: *data, ..old(storage)@ }),
        final(storage).balances == old(storage).balances,
{
    storage.secret = *data;
}

/// The round counter.
pub fn read_secret(storage: &GameStorage) -> (secret: u64)
    ensures
        secret == storage@.secret,
{
    storage.secret
}

/// Replaces the table.
pub fn store_table(storage: &mut GameStorage, data: &Table)
    ensures
        final(storage)@ == (StorageView { table: data@, ..old(storage)@ }),
        final(storage).balances == old(storage).balances,
{
    storage.table = data.clone();
}

/// A copy of the table.
pub fn read_table(storage: &GameStorage) -> (table: Table)
    ensures
        table@ == storage@.table,
{
    storage.table.clone()
}

/// Replaces the deck.
pub fn store_deck(storage: &mut GameStorage, data: &GameDeck)
    ensures
        final(storage)@ == (StorageView { deck: data@, ..old(storage)@ }),
        final(storage).balances == old(storage).balances,
{
    storage.deck = data.clone();
}

/// A copy of the deck.
pub fn read_deck(storage: &GameStorage) -> (deck: GameDeck)
    ensures
        deck@ == storage@.deck,
{
    storage.deck.clone()
}

/// Replaces the results of the last round.
pub fn store_scores(storage: &mut GameStorage, data: &Scores)
    ensures
        final(storage)@ == (StorageView { scores: data@, ..old(storage)@ }),
        final(storage).balances == old(storage).balances,
{
    storage.scores = data.clone();
}

/// A copy of the results of the last round.
pub fn read_scores(storage: &GameStorage) -> (scores: Scores)
    ensures
        scores@ == storage@.scores,
{
    storage.scores.clone()
}

/// Records where the table lives.
pub fn store_game_address(storage: &mut GameStorage, data: &String)
    ensures
        final(storage)@ == (StorageView { game_address: data@, ..old(storage)@ }),
        final(storage).balances == old(storage).balances,
{
    storage.game_address = data.clone();
}

/// Where the table lives.
pub fn read_game_address(storage: &GameStorage) -> (address: String)
    ensures
        address@ == storage@.game_address,
{
    storage.game_address.clone()
}

/// Records where the ledger lives.
pub fn store_bank_address(storage: &mut GameStorage, data: &String)
    ensures
        final(storage)@ == (StorageView { bank_address: data@, ..old(storage)@ }),
        final(storage).balances == old(storage).balances,
{
    storage.bank_address = data.clone();
}

/// Where the ledger lives.
pub fn read_bank_address(storage: &GameStorage) -> (address: String)
    ensures
        address@ == storage@.bank_address,
{
    storage.bank_address.clone()
}

/// Records the ledger's code hash.
pub fn store_bank_code_hash(storage: &mut GameStorage, data: &String)
    ensures
        final(storage)@ == (StorageView { bank_code_hash: data@, ..old(storage)@ }),
        final(storage).balances == old(storage).balances,
{
    storage.bank_code_hash = data.clone();
}

/// The ledger's code hash.
pub fn read_bank_code_hash(storage: &GameStorage) -> (hash: String)
    ensures
        hash@ == storage@.bank_code_hash,
{
    storage.bank_code_hash.clone()
}

/// Keeps `data` as the secret of the seat `seat`. Only the six seats have
/// one.
pub fn store_player_secret(storage: &mut GameStorage, seat: u8, data: &u64) -> (res: Result<
    (),
    ContractError,
>)
    ensures
        seat < 6 ==> res is Ok && final(storage)@ == (StorageView {
            player_secrets: old(storage)@.player_secrets.update(seat as int, *data),
            ..old(storage)@
        }),
        seat >= 6 ==> res == Err::<(), ContractError>(ContractError::NoSuchSeat) && final(storage)@
            == old(storage)@,
        final(storage).balances == old(storage).balances,
{
    if seat >= 6 {
        return Err(ContractError::NoSuchSeat);
    }
    storage.player_secrets[seat as usize] = *data;
    assert(storage@.player_secrets =~= old(storage)@.player_secrets.update(seat as int, *data));
    Ok(())
}

/// The secret of the seat `seat`. Only the six seats have one.
pub fn read_player_secret(storage: &GameStorage, seat: u8) -> (res: Result<u64, ContractError>)
    ensures
        seat < 6 ==> res == Ok::<u64, ContractError>(storage@.player_secrets[seat as int]),
        seat >= 6 ==> res == Err::<u64, ContractError>(ContractError::NoSuchSeat),
{
    if seat >= 6 {
        return Err(ContractError::NoSuchSeat);
    }
    Ok(storage.player_secrets[seat as usize])
}

impl Clone for Account {
    fn clone(&self) -> (copy: Account)
        ensures
            copy.address@ == self.address@,
            copy.balance == self.balance,
    {
        Account { address: self.address.clone(), balance: self.balance }
    }
}

impl Clone for GameStorage {
    fn clone(&self) -> (copy: GameStorage)
        ensures
            distinct_accounts(self.balances@) ==> copy@ == self@ && distinct_accounts(
                copy.balances@,
            ),
    {
        let mut balances: Vec<Account> = Vec::new();
        let mut i: usize = 0;
        while i < self.balances.len()
            invariant
                i <= self.balances.len(),
                balances@.len() == i,
                forall|j: int|
                    0 <= j < i ==> (#[trigger] balances@[j]).address@ == self.balances@[j].address@
                        && balances@[j].balance == self.balances@[j].balance,
            decreases self.balances.len() - i,
        {
            balances.push(self.balances[i].clone());
            i += 1;
        }
        let secrets = self.player_secrets;
        let copy = GameStorage {
            owner: self.owner.clone(),
            bank_code_hash: self.bank_code_hash.clone(),
            game_address: self.game_address.clone(),
            bank_address: self.bank_address.clone(),
            table: self.table.clone(),
            deck: self.deck.clone(),
            secret: self.secret,
            player_secrets: secrets,
            balances,
            scores: self.scores.clone(),
        };
        proof {
            if distinct_accounts(self.balances@) {
                lemma_same_ledger(self.balances@, copy.balances@);
            }
        }
        copy
    }
}

/// Distinct accounts and a copy that agrees with them entry by entry give
/// every identity the same stake.
proof fn lemma_same_ledger(a: Seq<Account>, b: Seq<Account>)
    requires
        distinct_accounts(a),
        a.len() == b.len(),
        forall|j: int|
            0 <= j < a.len() ==> (#[trigger] b[j]).address@ == a[j].address@ && b[j].balance
                == a[j].balance,
    ensures
        ledger_view(a) == ledger_view(b),
        distinct_accounts(b),
{
    assert forall|i: int, j: int| 0 <= i < j < b.len() implies (#[trigger] b[i]).address@ != (
    #[trigger] b[j]).address@ by {
        assert(a[i].address@ != a[j].address@);
    }
    assert forall|who: Seq<char>| balance_in(a, who) == balance_in(b, who) by {
        if holds_account(a, who) {
            let i = choose|i: int| 0 <= i < a.len() && (#[trigger] a[i]).address@ == who;
            assert(b[i].address@ == who);
            lemma_balance_at(a, i);
            lemma_balance_at(b, i);
        } else if holds_account(b, who) {
            let k = choose|k: int| 0 <= k < b.len() && (#[trigger] b[k]).address@ == who;
            assert(a[k].address@ == who);
            assert(false);
        }
    }
    assert(ledger_view(a) =~= ledger_view(b));
}

} // verus!
