//! The ledger's stored state, held as one value, and the accessors to its
//! parts.

use vstd::prelude::*;

verus! {

/// Everything that the ledger keeps between calls.
#[derive(Clone, Debug, PartialEq, Eq)]
pub struct BankStorage {
    /// The identity of the owner.
    pub owner: String,
    /// Whether the ledger still waits to learn where its table lives.
    pub pending_game_address: bool,
    /// Where the table lives, once known.
    pub game_address: String,
    /// Where the ledger itself lives.
    pub bank_address: String,
}

/// The mathematical value of a `BankStorage`.
pub struct BankView {
    pub owner: Seq<char>,
    pub pending_game_address: bool,
    pub game_address: Seq<char>,
    pub bank_address: Seq<char>,
}

impl View for BankStorage {
    type V = BankView;

    open spec fn view(&self) -> BankView {
        BankView {
            owner: self.owner@,
            pending_game_address: self.pending_game_address,
            game_address: self.game_address@,
            bank_address: self.bank_address@,
        }
    }
}

/// Marks the ledger as waiting to learn where its table lives.
pub fn set_pending_game_address(storage: &mut BankStorage)
    ensures
        final(storage)@ == (BankView { pending_game_address: true, ..old(storage)@ }),
{
    storage.pending_game_address = true;
}

/// Marks the ledger as knowing where its table lives.
pub fn unset_pending_game_address(storage: &mut BankStorage)
    ensures
        final(storage)@ == (BankView { pending_game_address: false, ..old(storage)@ }),
{
    storage.pending_game_address = false;
}

/// Whether the ledger still waits to learn where its table lives.
pub fn is_pending_game_address(storage: &BankStorage) -> (pending: bool)
    ensures
        pending == storage@.pending_game_address,
{
    storage.pending_game_address
}

/// Records who owns the ledger.
pub fn store_owner(storage: &mut BankStorage, data: &String)
    ensures
        final(storage)@ == (BankView { owner: data@, ..old(storage)@ }),
{
    storage.owner = data.clone();
}

/// Who owns the ledger.
pub fn read_owner(storage: &BankStorage) -> (owner: String)
    ensures
        owner@ == storage@.owner,
{
    storage.owner.clone()
}

/// Records where the table lives.
pub fn store_game_address(storage: &mut BankStorage, data: &String)
    ensures
        final(storage)@ == (BankView { game_address: data@, ..old(storage)@ }),
{
    storage.game_address = data.clone();
}

/// Where the table lives.
pub fn read_game_address(storage: &BankStorage) -> (address: String)
    ensures
        address@ == storage@.game_address,
{
    storage.game_address.clone()
}

/// Records where the ledger lives.
pub fn store_bank_address(storage: &mut BankStorage, data: &String)
    ensures
        final(storage)@ == (BankView { bank_address: data@, ..old(storage)@ }),
{
    storage.bank_address = data.clone();
}

/// Where the ledger lives.
pub fn read_bank_address(storage: &BankStorage) -> (address: String)
    ensures
        address@ == storage@.bank_address,
{
    storage.bank_address.clone()
}

} // verus!
