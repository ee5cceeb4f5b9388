//! Deciding, at run time, whether stored state is consistent. State that
//! comes from outside the library is put through this before the rules are
//! applied to it.

use crate::cards::get_card_value;
use crate::error::ContractError;
use crate::game::model::one_if_occupied;
use crate::game::msg::{
    hand_ok, hand_view, lemma_raw_total_push, raw_total, GameDeck, GameState, PlayerHand,
    PlayerState, PlayerView, Scores, Table,
};
use crate::game::state::{
    balance_in, distinct_accounts, holds_account, ledger_view, lemma_balance_at, Account,
    GameStorage, StorageView, MAX_STAKE,
};
use vstd::prelude::*;

verus! {

/// The raw total of the first cards of a hand is no more than that of all.
proof fn lemma_raw_total_prefix(cards: Seq<crate::cards::Card>, k: int)
    requires
        0 <= k <= cards.len(),
    ensures
        0 <= raw_total(cards.subrange(0, k)) <= raw_total(cards),
    decreases cards.len(),
{
    if k == cards.len() {
        assert(cards.subrange(0, k) =~= cards);
        if cards.len() > 0 {
            lemma_raw_total_prefix(cards.drop_last(), k - 1);
            assert(cards.drop_last().subrange(0, k - 1) =~= cards.drop_last());
        }
    } else {
        lemma_raw_total_prefix(cards.drop_last(), k);
        assert(cards.drop_last().subrange(0, k) =~= cards.subrange(0, k));
    }
}

impl PlayerHand {
    /// Whether the total recorded with the cards is their raw total.
    pub fn is_wf(&self) -> (ok: bool)
        ensures
            ok == self@.wf(),
    {
        let mut sum: u16 = 0;
        let mut i: usize = 0;
        while i < self.cards.len()
            invariant
                i <= self.cards.len(),
                sum <= 255,
                sum == raw_total(self.cards@.subrange(0, i as int)),
            decreases self.cards.len() - i,
        {
            let v = get_card_value(&self.cards[i]);
            proof {
                lemma_raw_total_push(self.cards@.subrange(0, i as int), self.cards@[i as int]);
                assert(self.cards@.subrange(0, i as int).push(self.cards@[i as int])
                    =~= self.cards@.subrange(0, i + 1));
                lemma_raw_total_prefix(self.cards@, i + 1);
            }
            if sum + v as u16 > 255 {
                return false;
            }
            sum = sum + v as u16;
            i += 1;
        }
        assert(self.cards@.subrange(0, i as int) =~= self.cards@);
        sum == self.total_value as u16
    }
}

/// Whether a hand that may be absent records its raw total where present.
fn hand_is_ok(hand: &Option<PlayerHand>) -> (ok: bool)
    ensures
        ok == hand_ok(hand_view(*hand)),
{
    match hand {
        Some(h) => h.is_wf(),
        None => true,
    }
}

impl GameDeck {
    /// Whether the cursor stands inside a deck of at most 52 cards.
    pub fn is_wf(&self) -> (ok: bool)
        ensures
            ok == self@.wf(),
    {
        self.next_free_card as usize <= self.deck.len() && self.deck.len() <= 52
    }
}

/// How many of the first `n` seats are occupied.
spec fn occupied_upto(players: Seq<PlayerView>, n: int) -> int
    decreases n,
{
    if n <= 0 {
        0
    } else {
        occupied_upto(players, n - 1) + one_if_occupied(players[n - 1])
    }
}

impl Table {
    /// Whether the seats are consistent.
    pub fn seats_are_wf(&self) -> (ok: bool)
        ensures
            ok == self@.seats_wf(),
    {
        let mut count: u8 = 0;
        let mut s: usize = 0;
        while s < 6
            invariant
                s <= 6,
                count == occupied_upto(self@.players, s as int),
                count <= s,
                forall|i: int|
                    0 <= i < s && !(#[trigger] self@.players[i]).occupied() ==> self@.players[i]
                        == PlayerView::vacant(),
                forall|i: int| 0 <= i < s ==> hand_ok((#[trigger] self@.players[i]).hand),
                forall|i: int, t: int|
                    0 <= i < s && 0 <= t < 6 && i != t && (#[trigger] self@.players[i]).occupied()
                        ==> self@.players[i].address != (#[trigger] self@.players[t]).address,
            decreases 6 - s,
        {
            if !hand_is_ok(&self.players[s].hand) {
                return false;
            }
            if self.players[s].is_occupied() {
                count = count + 1;
                let mut t: usize = 0;
                while t < 6
                    invariant
                        t <= 6,
                        s < 6,
                        self@.players[s as int].occupied(),
                        forall|j: int|
                            0 <= j < t && j != s ==> self@.players[s as int].address != (
                            #[trigger] self@.players[j]).address,
                    decreases 6 - t,
                {
                    if t != s && self.players[s].address == self.players[t].address {
                        return false;
                    }
                    t += 1;
                }
            } else {
                let vacant = match self.players[s].state {
                    PlayerState::NotPlaying => self.players[s].hand.is_none(),
                    _ => false,
                };
                if !vacant {
                    return false;
                }
                assert(self@.players[s as int].address =~= Seq::empty());
            }
            s += 1;
        }
        proof {
            reveal_with_fuel(occupied_upto, 7);
        }
        count == self.players_count && hand_is_ok(&self.dealer_hand)
    }

    /// Whether the phase fits the seats.
    pub fn phase_is_wf(&self) -> (ok: bool)
        ensures
            ok == self@.phase_wf(),
    {
        match self.state {
            GameState::NoPlayers => {
                let mut s: usize = 0;
                while s < 6
                    invariant
                        s <= 6,
                        self.state is NoPlayers,
                        forall|i: int| 0 <= i < s ==> !(#[trigger] self@.players[i]).waiting(),
                    decreases 6 - s,
                {
                    if self.players[s].is_occupied() {
                        match self.players[s].state {
                            PlayerState::NotPlaying => {
                                assert(self@.players[s as int].waiting());
                                return false;
                            },
                            _ => {},
                        }
                    }
                    s += 1;
                }
                true
            },
            GameState::DealerTurn => false,
            GameState::PlayerTurn { player_seat, is_first, turn_start_time: _ } => {
                if player_seat >= 6 {
                    return false;
                }
                let seat = player_seat as usize;
                if !self.players[seat].is_occupied() {
                    return false;
                }
                match self.players[seat].state {
                    PlayerState::NotPlaying => is_first,
                    PlayerState::Bid => !is_first && self.players[seat].hand.is_some(),
                    PlayerState::Hit => !is_first && self.players[seat].hand.is_some(),
                    PlayerState::Hold => false,
                }
            },
        }
    }

    /// Whether the table is consistent, as it is between calls.
    pub fn is_wf(&self) -> (ok: bool)
        ensures
            ok == self@.wf(),
    {
        self.seats_are_wf() && self.phase_is_wf()
    }
}

/// Whether no two accounts belong to one identity and no stake is beyond
/// `MAX_STAKE`.
fn ledger_is_wf(accounts: &Vec<Account>) -> (ok: bool)
    ensures
        ok == (distinct_accounts(accounts@) && forall|who: Seq<char>| #[trigger]
            balance_in(accounts@, who) <= MAX_STAKE),
{
    let mut i: usize = 0;
    while i < accounts.len()
        invariant
            i <= accounts.len(),
            forall|a: int, b: int|
                0 <= a < b < i ==> (#[trigger] accounts@[a]).address@ != (
                #[trigger] accounts@[b]).address@,
            forall|a: int| 0 <= a < i ==> (#[trigger] accounts@[a]).balance <= MAX_STAKE,
        decreases accounts.len() - i,
    {
        let mut j: usize = 0;
        while j < i
            invariant
                j <= i,
                i < accounts.len(),
                forall|a: int| 0 <= a < j ==> (#[trigger] accounts@[a]).address@ != accounts@[i as int].address@,
            decreases i - j,
        {
            if accounts[j].address == accounts[i].address {
                assert(!distinct_accounts(accounts@));
                return false;
            }
            j += 1;
        }
        if accounts[i].balance > MAX_STAKE {
            proof {
                if distinct_accounts(accounts@) {
                    lemma_balance_at(accounts@, i as int);
                }
            }
            return false;
        }
        i += 1;
    }
    proof {
        assert(distinct_accounts(accounts@));
        assert forall|who: Seq<char>| #[trigger] balance_in(accounts@, who) <= MAX_STAKE by {
            if holds_account(accounts@, who) {
                let k = choose|k: int| 0 <= k < accounts@.len() && (#[trigger] accounts@[k]).address@
                    == who;
                lemma_balance_at(accounts@, k);
            }
        }
    }
    true
}

impl GameStorage {
    /// Whether the stored state is consistent, as it is between calls.
    pub fn is_wf(&self) -> (ok: bool)
        ensures
            ok == self.wf(),
    {
        if !self.table.is_wf() {
            return false;
        }
        if !self.deck.is_wf() {
            return false;
        }
        let ok = ledger_is_wf(&self.balances);
        proof {
            if ok {
                assert forall|who: Seq<char>| #[trigger] self@.balances[who] <= MAX_STAKE by {
                    assert(balance_in(self.balances@, who) <= MAX_STAKE);
                }
            } else if distinct_accounts(self.balances@) {
                let who = choose|who: Seq<char>| balance_in(self.balances@, who) > MAX_STAKE;
                assert(self@.balances[who] > MAX_STAKE);
            }
        }
        ok
    }

    /// The state if it is consistent, and `CorruptState` if it is not.
    pub fn validated(self) -> (res: Result<GameStorage, ContractError>)
        ensures
            self.wf() ==> res is Ok && res->Ok_0 == self,
            !self.wf() ==> res == Err::<GameStorage, ContractError>(ContractError::CorruptState),
    {
        if self.is_wf() {
            Ok(self)
        } else {
            Err(ContractError::CorruptState)
        }
    }
}

/// What was found of the table's state where it is kept, part by part;
/// `None` for a part that was not found.
#[derive(Debug, PartialEq, Eq)]
pub struct StoredParts {
    pub owner: Option<String>,
    pub bank_code_hash: Option<String>,
    pub game_address: Option<String>,
    pub bank_address: Option<String>,
    pub table: Option<Table>,
    pub deck: Option<GameDeck>,
    pub secret: Option<u64>,
    pub player_secrets: [Option<u64>; 6],
    pub balances: Vec<Account>,
    pub scores: Option<Scores>,
}

/// The secret found for a seat, zero where none was found.
pub open spec fn secret_found(found: Option<u64>) -> u64 {
    match found {
        Some(x) => x,
        None => 0,
    }
}

impl StoredParts {
    /// Whether every part that the rules read was found: the addresses, the
    /// code hash, the table, the deck, the round counter, the results, and
    /// the secret of every occupied seat. The owner is never read.
    pub open spec fn complete(self) -> bool {
        &&& self.bank_code_hash is Some
        &&& self.game_address is Some
        &&& self.bank_address is Some
        &&& self.table is Some
        &&& self.deck is Some
        &&& self.secret is Some
        &&& self.scores is Some
        &&& forall|s: int|
            0 <= s < 6 && (#[trigger] self.table->0@.players[s]).occupied()
                ==> self.player_secrets[s] is Some
    }

    /// The state that the parts make up, where they are complete: an owner
    /// that was not found is nobody, and the secret of an empty seat that
    /// was not found is zero.
    pub open spec fn assembled(self) -> StorageView {
        StorageView {
            owner: match self.owner {
                Some(o) => o@,
                None => Seq::empty(),
            },
            bank_code_hash: self.bank_code_hash->0@,
            game_address: self.game_address->0@,
            bank_address: self.bank_address->0@,
            table: self.table->0@,
            deck: self.deck->0@,
            secret: self.secret->0,
            player_secrets: Seq::new(6, |i: int| secret_found(self.player_secrets[i])),
            balances: ledger_view(self.balances@),
            scores: self.scores->0@,
        }
    }
}

/// The secret found for a seat, zero where none was found.
fn secret_or_zero(found: Option<u64>) -> (secret: u64)
    ensures
        secret == secret_found(found),
{
    match found {
        Some(x) => x,
        None => 0,
    }
}

impl GameStorage {
    /// Puts the state together from the parts found. A part that the rules
    /// read and that was not found gives `MissingState`; complete parts that
    /// do not make up a consistent state give `CorruptState`; all others
    /// give the state they make up.
    pub fn assemble(parts: StoredParts) -> (res: Result<GameStorage, ContractError>)
        ensures
            !parts.complete() ==> res == Err::<GameStorage, ContractError>(
                ContractError::MissingState,
            ),
            parts.complete() && !(parts.assembled().wf() && distinct_accounts(parts.balances@))
                ==> res == Err::<GameStorage, ContractError>(ContractError::CorruptState),
            parts.complete() && parts.assembled().wf() && distinct_accounts(parts.balances@)
                ==> res is Ok && res->Ok_0@ == parts.assembled() && res->Ok_0.wf(),
    {
        let ghost target = parts.assembled();
        let StoredParts {
            owner,
            bank_code_hash,
            game_address,
            bank_address,
            table,
            deck,
            secret,
            player_secrets,
            balances,
            scores,
        } = parts;
        let (bank_code_hash, game_address, bank_address) = match (
            bank_code_hash,
            game_address,
            bank_address,
        ) {
            (Some(h), Some(g), Some(b)) => (h, g, b),
            _ => {
                return Err(ContractError::MissingState);
            },
        };
        let (table, deck, secret, scores) = match (table, deck, secret, scores) {
            (Some(t), Some(d), Some(s), Some(r)) => (t, d, s, r),
            _ => {
                return Err(ContractError::MissingState);
            },
        };
        let mut s: usize = 0;
        while s < 6
            invariant
                s <= 6,
                parts.table == Some(table),
                parts.player_secrets == player_secrets,
                forall|i: int|
                    0 <= i < s && (#[trigger] table@.players[i]).occupied()
                        ==> player_secrets[i] is Some,
            decreases 6 - s,
        {
            if table.players[s].is_occupied() && player_secrets[s].is_none() {
                assert(parts.table->0@.players[s as int].occupied());
                return Err(ContractError::MissingState);
            }
            s += 1;
        }
        let owner = match owner {
            Some(o) => o,
            None => String::new(),
        };
        let deps = GameStorage {
            owner,
            bank_code_hash,
            game_address,
            bank_address,
            table,
            deck,
            secret,
            player_secrets: [
                secret_or_zero(player_secrets[0]),
                secret_or_zero(player_secrets[1]),
                secret_or_zero(player_secrets[2]),
                secret_or_zero(player_secrets[3]),
                secret_or_zero(player_secrets[4]),
                secret_or_zero(player_secrets[5]),
            ],
            balances,
            scores,
        };
        proof {
            assert(deps@.player_secrets =~= target.player_secrets);
            assert(deps@.owner =~= target.owner);
            assert(deps@ == target);
        }
        deps.validated()
    }
}

} // verus!
