//! The table's rules.
//!
//! Every request works on the stored state as one value and either succeeds
//! as a whole or fails and leaves that value as it was. What is to happen
//! outside the table (payments from the pool, stakes handed back or
//! forfeited) is never done here: it is handed back as a list of
//! instructions, in the order in which it was decided.
//!
//! Three choices are the table's own. A deck has 52 cards and is never
//! reshuffled within a round: a draw that the deck cannot serve fails with
//! `DeckExhausted`, whoever draws, and the request that needed it fails with
//! it. A seat that has bid but not held when the dealer plays is settled on
//! the cards it holds, as if it had held. And every bid lays one card open as
//! the dealer's hand, in place of the hand the dealer had; when the dealer
//! plays, the dealer draws on from the card of the last bid.

use crate::cards::{canonical_deck, shuffled_deck, Card, Value};
use crate::chain::{
    contains_native, instruction_views, lemma_instruction_views_push, Env, HandleResponse,
    InitResponse, Instruction, InstructionView,
};
use crate::error::ContractError;
use crate::game::model::{
    any_holding, be_bytes, clear_hands, dealer_draws, hand_after, lemma_dealer_draws,
    lemma_hand_after_cards,
    max_bid_allowed, next_waiting, payout, player_hit, player_state_changed, seat_of,
    seat_secret_bytes, seed_bytes, wins, DEALER_STANDS_AT, KICK_AFTER,
};
use crate::game::msg::{
    hand_ok, AnswerView, GameDeck, GameState, HandView, HandleMsg, InitMsg, Player, PlayerHand,
    PlayerResult, PlayerState, PlayerView, QueryAnswer, QueryMsg, Scores, Table, TableView,
};
use crate::game::state::{
    add_user_balance, read_user_balance, zero_user_balance, GameStorage, StorageView, MAX_STAKE,
};
use sha2::{Digest, Sha256};
use vstd::prelude::*;

verus! {

/// The SHA-256 digest of `data`.
pub uninterp spec fn sha256_digest(data: Seq<u8>) -> Seq<u8>;

/// `sha2::Sha256::digest` (the `Digest` trait of the `digest` crate): hashes
/// `data` in one go. The 32 bytes returned are the SHA-256 digest of the
/// input, a function of the input alone.
#[verifier::external_body]
fn sha256(data: &Vec<u8>) -> (digest: [u8; 32])
    ensures
        digest@ == sha256_digest(data@),
{
    Sha256::digest(data.as_slice()).into()
}

/// The seat `seat`, for reading and changing. With `address` given, the
/// seat must be held by it.
pub fn get_player<'a>(table: &'a mut Table, address: Option<&String>, seat: u8) -> (res: Result<
    &'a mut Player,
    ContractError,
>)
    ensures
        match res {
            Ok(player) => {
                &&& seat < 6
                &&& address matches Some(a) ==> old(table).players[seat as int].address@ == a@
                &&& *player == old(table).players[seat as int]
                &&& final(table).players@ == old(table).players@.update(seat as int, *final(player))
                &&& final(table).players_count == old(table).players_count
                &&& final(table).dealer_hand == old(table).dealer_hand
                &&& final(table).state == old(table).state
            },
            Err(e) => {
                &&& *final(table) == *old(table)
                &&& seat >= 6 ==> e == ContractError::NoSuchSeat
                &&& seat < 6 ==> e == ContractError::WrongAddress && address is Some
                    && old(table).players[seat as int].address@ != address->0@
            },
        },
{
    if seat >= 6 {
        return Err(ContractError::NoSuchSeat);
    }
    match address {
        Some(player_address) => {
            if !(table.players[seat as usize].address == *player_address) {
                return Err(ContractError::WrongAddress);
            }
        },
        None => {},
    }
    Ok(&mut table.players[seat as usize])
}

/// The first seat that `address` holds.
pub fn get_player_seat(table: &Table, address: &String) -> (res: Result<u8, ContractError>)
    ensures
        match seat_of(table@.players, address@, 0) {
            Some(seat) => res == Ok::<u8, ContractError>(seat as u8),
            None => res == Err::<u8, ContractError>(ContractError::PlayerNotFound),
        },
{
    let mut seat: u8 = 0;
    while seat < 6
        invariant
            seat <= 6,
            seat_of(table@.players, address@, 0) == seat_of(table@.players, address@, seat as int),
        decreases 6 - seat,
    {
        if table.players[seat as usize].address == *address {
            return Ok(seat);
        }
        seat += 1;
    }
    Err(ContractError::PlayerNotFound)
}

/// Seats `address` at the empty seat `seat` and keeps `secret` for it.
pub fn add_player(deps: &mut GameStorage, address: &String, seat: u8, secret: u64) -> (res: Result<
    (),
    ContractError,
>)
    requires
        old(deps).parts_wf(),
    ensures
        final(deps).parts_wf(),
        match old(deps)@.player_added(address@, seat, secret) {
            Ok(next) => res is Ok && final(deps)@ == next,
            Err(e) => res == Err::<(), ContractError>(e) && final(deps)@ == old(deps)@,
        },
{
    if seat >= 6 {
        return Err(ContractError::NoSuchSeat);
    }
    if get_player_seat(&deps.table, address).is_ok() {
        return Err(ContractError::AlreadySeated);
    }
    if deps.table.players[seat as usize].is_occupied() {
        return Err(ContractError::SeatTaken { seat });
    }
    proof {
        lemma_seat_of(deps.table@.players, address@, 0);
        if address@.len() == 0 {
            assert(deps.table@.players[seat as int].address =~= address@);
        }
    }
    deps.table.players[seat as usize].address = address.clone();
    deps.table.players_count = deps.table.players_count + 1;
    deps.player_secrets[seat as usize] = secret;
    proof {
        let next = old(deps)@.player_added(address@, seat, secret)->Ok_0;
        assert(deps@.table.players =~= next.table.players);
        assert(deps@.player_secrets =~= next.player_secrets);
        assert(deps.balances@ == old(deps).balances@);
        assert(deps@ == next);
        assert forall|s: int| 0 <= s < 6 implies (#[trigger] next.table.players[s]).occupied() == (s
            == seat || old(deps)@.table.players[s].occupied()) by {}
    }
    Ok(())
}

/// What the search for the seat of `who` finds: the seat found holds `who`
/// and none between `from` and it does; where none is found, no seat from
/// `from` on holds `who`.
pub proof fn lemma_seat_of(players: Seq<PlayerView>, who: Seq<char>, from: int)
    requires
        0 <= from,
    ensures
        match seat_of(players, who, from) {
            Some(seat) => from <= seat < 6 && players[seat].address == who && forall|s: int|
                from <= s < seat ==> (#[trigger] players[s]).address != who,
            None => forall|s: int| from <= s < 6 ==> (#[trigger] players[s]).address != who,
        },
    decreases 6 - from,
{
    if from < 6 && players[from].address != who {
        lemma_seat_of(players, who, from + 1);
    }
}

/// Takes `address` from the seat `seat`: the seat is emptied, its secret
/// forgotten, and the stake of `address` set to zero.
pub fn remove_player(deps: &mut GameStorage, address: &String, seat: u8) -> (res: Result<
    (),
    ContractError,
>)
    requires
        old(deps).parts_wf(),
    ensures
        final(deps).parts_wf(),
        match old(deps)@.player_removed(address@, seat) {
            Ok(next) => res is Ok && final(deps)@ == next,
            Err(e) => res == Err::<(), ContractError>(e) && final(deps)@ == old(deps)@,
        },
{
    if seat >= 6 {
        return Err(ContractError::NoSuchSeat);
    }
    if !(deps.table.players[seat as usize].address == *address) {
        return Err(ContractError::WrongAddress);
    }
    if !deps.table.players[seat as usize].is_occupied() {
        return Err(ContractError::SeatEmpty { seat });
    }
    deps.table.players[seat as usize] = Player::vacant();
    deps.table.players_count = deps.table.players_count - 1;
    proof {
        let next = old(deps)@.player_removed(address@, seat)->Ok_0;
        assert(deps@.table.players =~= next.table.players);
    }
    zero_user_balance(deps, address);
    deps.player_secrets[seat as usize] = 0;
    proof {
        let next = old(deps)@.player_removed(address@, seat)->Ok_0;
        assert(deps@.player_secrets =~= next.player_secrets);
    }
    Ok(())
}

/// The score of a hand: its raw total, with one ace counted as eleven where
/// the hand has an ace and that keeps it at 21 or below.
pub fn get_player_score(deck: &PlayerHand) -> (score: u8)
    ensures
        score == deck@.score(),
{
    if deck.total_value > 11 {
        return deck.total_value;
    }
    let mut i: usize = 0;
    while i < deck.cards.len()
        invariant
            i <= deck.cards.len(),
            deck.total_value <= 11,
            forall|j: int| 0 <= j < i ==> (#[trigger] deck.cards@[j]).value != Value::Ace,
        decreases deck.cards.len() - i,
    {
        if deck.cards[i].value == Value::Ace {
            return deck.total_value + 10;
        }
        i += 1;
    }
    deck.total_value
}

/// Appends the eight bytes of `x`, most significant first.
fn push_be_bytes(out: &mut Vec<u8>, x: u64)
    ensures
        final(out)@ == old(out)@ + be_bytes(x),
{
    out.push((x / 0x100_0000_0000_0000) as u8);
    out.push(((x / 0x1_0000_0000_0000) % 256) as u8);
    out.push(((x / 0x100_0000_0000) % 256) as u8);
    out.push(((x / 0x1_0000_0000) % 256) as u8);
    out.push(((x / 0x100_0000) % 256) as u8);
    out.push(((x / 0x1_0000) % 256) as u8);
    out.push(((x / 0x100) % 256) as u8);
    out.push((x % 256) as u8);
    assert(out@ =~= old(out)@ + be_bytes(x));
}

/// The bytes that a shuffle's seed is the digest of: the round counter
/// `secret`, then the secret of every occupied seat, in seat order.
pub fn seed_material(deps: &GameStorage, secret: u64) -> (bytes: Vec<u8>)
    ensures
        bytes@ == seed_bytes(secret, deps@.table.players, deps@.player_secrets),
{
    let mut bytes: Vec<u8> = Vec::new();
    push_be_bytes(&mut bytes, secret);
    assert(bytes@ =~= be_bytes(secret));
    let mut seat: u8 = 0;
    while seat < 6
        invariant
            seat <= 6,
            bytes@ == be_bytes(secret) + seat_secret_bytes(
                deps@.table.players,
                deps@.player_secrets,
                seat as int,
            ),
        decreases 6 - seat,
    {
        if deps.table.players[seat as usize].is_occupied() {
            push_be_bytes(&mut bytes, deps.player_secrets[seat as usize]);
        }
        assert(bytes@ =~= be_bytes(secret) + seat_secret_bytes(
            deps@.table.players,
            deps@.player_secrets,
            seat + 1,
        ));
        seat += 1;
    }
    bytes
}

/// The seed of the shuffle for the round counter `secret`: the digest of
/// the counter and the seated players' secrets.
///
/// Each player gives a secret when sitting down, and the table keeps a
/// counter of its own, so no player can compute a seed from what that player
/// knows. Whoever can read the table's stored state can: the keeper of the
/// table is trusted not to.
pub fn get_random_seed(deps: &GameStorage, secret: u64) -> (seed: [u8; 32])
    ensures
        seed@ == sha256_digest(seed_bytes(secret, deps@.table.players, deps@.player_secrets)),
{
    let combined_secret = seed_material(deps, secret);
    sha256(&combined_secret)
}

/// The first seat whose occupant waits to play.
pub fn get_first_player_to_play(table: &Table) -> (res: Result<u8, ContractError>)
    ensures
        match next_waiting(table@.players, 0) {
            Some(seat) => res == Ok::<u8, ContractError>(seat as u8),
            None => res == Err::<u8, ContractError>(ContractError::PlayerNotFound),
        },
{
    first_waiting_from(table, 0)
}

/// The first seat at or after `from` whose occupant waits to play.
fn first_waiting_from(table: &Table, from: u8) -> (res: Result<u8, ContractError>)
    ensures
        match next_waiting(table@.players, from as int) {
            Some(seat) => res == Ok::<u8, ContractError>(seat as u8) && from <= seat < 6
                && table@.players[seat].waiting(),
            None => res == Err::<u8, ContractError>(ContractError::PlayerNotFound),
        },
{
    let mut seat: u8 = from;
    while seat < 6
        invariant
            from <= seat,
            next_waiting(table@.players, from as int) == next_waiting(table@.players, seat as int),
        decreases 6 - seat,
    {
        if table.players[seat as usize].is_occupied() {
            match table.players[seat as usize].state {
                PlayerState::NotPlaying => {
                    return Ok(seat);
                },
                _ => {},
            }
        }
        seat += 1;
    }
    Err(ContractError::PlayerNotFound)
}

/// Whether some occupant has held in this round.
pub fn is_any_player_holding(table: &Table) -> (found: bool)
    ensures
        found == any_holding(table@.players),
{
    let mut seat: u8 = 0;
    while seat < 6
        invariant
            seat <= 6,
            forall|s: int|
                0 <= s < seat ==> !((#[trigger] table@.players[s]).occupied()
                    && table@.players[s].state == PlayerState::Hold),
        decreases 6 - seat,
    {
        if table.players[seat as usize].is_occupied() {
            match table.players[seat as usize].state {
                PlayerState::Hold => {
                    assert(table@.players[seat as int].occupied() && table@.players[seat as int].state
                        == PlayerState::Hold);
                    return true;
                },
                _ => {},
            }
        }
        seat += 1;
    }
    false
}

/// Gives `seat` the turn of a new round that is dealt from `cards`: the
/// round counter goes up by one and the deck is laid out undealt.
pub fn begin_round(deps: &mut GameStorage, seat: u8, now: u64, cards: Vec<Card>)
    requires
        old(deps).parts_wf(),
        seat < 6,
        old(deps)@.table.players[seat as int].waiting(),
        old(deps).secret < u64::MAX,
        cards@.len() <= 52,
    ensures
        final(deps).wf(),
        final(deps)@ == old(deps)@.round_begun(seat, now, cards@),
{
    deps.table.state = GameState::PlayerTurn {
        player_seat: seat,
        is_first: true,
        turn_start_time: now,
    };
    deps.secret = deps.secret + 1;
    deps.deck = GameDeck { deck: cards, next_free_card: 0 };
    proof {
        assert(deps@.table.players =~= old(deps)@.table.players);
    }
}

/// Takes every hand from the seats.
fn clear_all_hands(deps: &mut GameStorage)
    requires
        old(deps).parts_wf(),
    ensures
        final(deps).parts_wf(),
        final(deps)@ == old(deps)@.hands_cleared(),
{
    let mut seat: u8 = 0;
    while seat < 6
        invariant
            seat <= 6,
            deps.parts_wf(),
            deps@ == (StorageView {
                table: TableView { players: deps@.table.players, ..old(deps)@.table },
                ..old(deps)@
            }),
            deps@.table.players.len() == 6,
            forall|i: int|
                0 <= i < 6 ==> #[trigger] deps@.table.players[i] == (if i < seat {
                    PlayerView { hand: None, ..old(deps)@.table.players[i] }
                } else {
                    old(deps)@.table.players[i]
                }),
        decreases 6 - seat,
    {
        let ghost before = deps@;
        let ghost accounts = deps.balances@;
        deps.table.players[seat as usize].hand = None;
        proof {
            assert(deps.balances@ == accounts);
            assert(deps@.balances == before.balances);
            assert forall|i: int| 0 <= i < 6 implies #[trigger] deps@.table.players[i] == (if i
                == seat {
                PlayerView { hand: None, ..before.table.players[i] }
            } else {
                before.table.players[i]
            }) by {}
        }
        seat += 1;
    }
    proof {
        assert(deps@.table.players =~= clear_hands(old(deps)@.table.players));
    }
}

/// Starts a new round. Every hand is cleared. The first seat whose
/// occupant waits to play gets the turn; the round counter goes up by one,
/// and a full deck is laid out, shuffled with the digest of the counter and
/// the seated players' secrets. Without a waiting seat the table comes to
/// rest and the dealer's hand is cleared too.
///
/// A round counter that cannot go up any more gives
/// `RoundSecretExhausted`.
pub fn start_new_round(deps: &mut GameStorage, env: &Env) -> (res: Result<(), ContractError>)
    requires
        old(deps).parts_wf(),
    ensures
        match old(deps)@.new_round(env.time) {
            Ok(next) => res is Ok && final(deps)@ == next && final(deps).wf(),
            Err(e) => res == Err::<(), ContractError>(e) && final(deps)@ == old(deps)@
                && final(deps).parts_wf(),
        },
        res is Ok && final(deps)@.secret == old(deps)@.secret + 1 ==> {
            &&& final(deps)@.deck.deck.to_multiset() == canonical_deck().to_multiset()
            &&& final(deps)@.deck.deck.len() == 52
            &&& final(deps)@.deck.next_free_card == 0
        },
{
    proof {
        lemma_waiting_ignores_hands(deps@.table.players, 0);
        lemma_next_waiting(deps@.table.players, 0);
    }
    match get_first_player_to_play(&deps.table) {
        Ok(seat) => {
            if deps.secret == u64::MAX {
                return Err(ContractError::RoundSecretExhausted);
            }
            let seed = get_random_seed(deps, deps.secret);
            let cards = shuffled_deck(seed);
            clear_all_hands(deps);
            begin_round(deps, seat, env.time, cards);
        },
        Err(_) => {
            clear_all_hands(deps);
            let ghost accounts = deps.balances@;
            deps.table.dealer_hand = None;
            deps.table.state = GameState::NoPlayers;
            proof {
                assert(deps.balances@ == accounts);
                assert(deps@.balances == old(deps)@.balances);
                assert(deps@.table.players =~= old(deps)@.hands_cleared().table.players);
            }
        },
    }
    Ok(())
}

/// What the search for the next waiting seat finds: the seat found waits and
/// none between `from` and it does; where none is found, none waits from
/// `from` on.
pub proof fn lemma_next_waiting(players: Seq<PlayerView>, from: int)
    requires
        0 <= from,
    ensures
        match next_waiting(players, from) {
            Some(seat) => from <= seat < 6 && players[seat].waiting() && forall|s: int|
                from <= s < seat ==> !(#[trigger] players[s]).waiting(),
            None => forall|s: int| from <= s < 6 ==> !(#[trigger] players[s]).waiting(),
        },
    decreases 6 - from,
{
    if from < 6 && !players[from].waiting() {
        lemma_next_waiting(players, from + 1);
    }
}

/// Who waits to play does not depend on the cards held.
proof fn lemma_waiting_ignores_hands(players: Seq<PlayerView>, from: int)
    requires
        players.len() == 6,
        0 <= from,
    ensures
        next_waiting(clear_hands(players), from) == next_waiting(players, from),
    decreases 6 - from,
{
    if from < 6 {
        lemma_waiting_ignores_hands(players, from + 1);
    }
}

/// Moves the turn on from `current_seat`: to the first seat after it whose
/// occupant waits to play; without one, to the dealer if anybody has held;
/// otherwise a new round starts where `should_start_new_round` asks for it,
/// and nothing changes where it does not.
pub fn advance_to_next_player(
    deps: &mut GameStorage,
    env: &Env,
    current_seat: u8,
    should_start_new_round: bool,
) -> (res: Result<(), ContractError>)
    requires
        old(deps).parts_wf(),
    ensures
        final(deps).parts_wf(),
        match old(deps)@.advance(current_seat, env.time, should_start_new_round) {
            Ok(next) => res is Ok && final(deps)@ == next,
            Err(e) => res == Err::<(), ContractError>(e) && final(deps)@ == old(deps)@,
        },
        res is Ok ==> {
            ||| final(deps)@.table.state is DealerTurn
            ||| final(deps)@.table.phase_wf()
            ||| !should_start_new_round && !any_holding(old(deps)@.table.players)
        },
        res is Ok && final(deps)@.secret == old(deps)@.secret + 1 ==> {
            &&& final(deps)@.deck.deck.to_multiset() == canonical_deck().to_multiset()
            &&& final(deps)@.deck.deck.len() == 52
            &&& final(deps)@.deck.next_free_card == 0
        },
{
    let from: u8 = if current_seat >= 6 {
        6
    } else {
        current_seat + 1
    };
    match first_waiting_from(&deps.table, from) {
        Ok(next_seat) => {
            deps.table.state = GameState::PlayerTurn {
                player_seat: next_seat,
                is_first: true,
                turn_start_time: env.time,
            };
            proof {
                assert(deps@.table.players =~= old(deps)@.table.players);
            }
        },
        Err(_) => {
            if is_any_player_holding(&deps.table) {
                deps.table.state = GameState::DealerTurn;
                proof {
                    assert(deps@.table.players =~= old(deps)@.table.players);
                }
            } else if should_start_new_round {
                return start_new_round(deps, env);
            }
        },
    }
    Ok(())
}

/// Deals the next card of the deck into the player's hand.
pub fn on_player_hit(deck: &mut GameDeck, player: &mut Player) -> (res: Result<(), ContractError>)
    requires
        old(deck)@.wf(),
    ensures
        final(deck)@.wf(),
        match player_hit(old(player)@, old(deck)@) {
            Ok((p, d)) => res is Ok && final(player)@ == p && final(deck)@ == d,
            Err(e) => res == Err::<(), ContractError>(e) && final(player)@ == old(player)@
                && final(deck)@ == old(deck)@,
        },
        hand_ok(old(player)@.hand) ==> hand_ok(final(player)@.hand),
{
    match &mut player.hand {
        None => Err(ContractError::MissingHand),
        Some(player_hand) => {
            if player_hand.total_value >= 21 {
                return Err(ContractError::CannotHit { total: player_hand.total_value });
            }
            let card = deck.draw()?;
            player_hand.receive(card);
            Ok(())
        },
    }
}

/// Does to the cards what a player's step from `prev_state` to `new_state`
/// asks for: the bid deals two cards into a new hand, a hit one more, and
/// holding none. Any other step is refused.
pub fn on_player_state_change(
    deck: &mut GameDeck,
    player: &mut Player,
    prev_state: &PlayerState,
    new_state: &PlayerState,
) -> (res: Result<(), ContractError>)
    requires
        old(deck)@.wf(),
    ensures
        final(deck)@.wf(),
        match player_state_changed(old(player)@, old(deck)@, *prev_state, *new_state) {
            Ok((p, d)) => res is Ok && final(player)@ == p && final(deck)@ == d,
            Err(e) => res == Err::<(), ContractError>(e) && final(player)@ == old(player)@
                && final(deck)@ == old(deck)@,
        },
        hand_ok(old(player)@.hand) ==> hand_ok(final(player)@.hand),
{
    match prev_state {
        PlayerState::NotPlaying => {
            match new_state {
                PlayerState::Bid => {
                    if deck.remaining() < 2 {
                        return Err(ContractError::DeckExhausted);
                    }
                    let mut player_deck = PlayerHand::new();
                    let first = deck.draw()?;
                    player_deck.receive(first);
                    let second = deck.draw()?;
                    player_deck.receive(second);
                    proof {
                        reveal_with_fuel(hand_after, 3);
                    }
                    player.hand = Some(player_deck);
                },
                _ => {
                    return Err(ContractError::UnexpectedTransition);
                },
            }
        },
        PlayerState::Bid => {
            match new_state {
                PlayerState::Hit => {
                    on_player_hit(deck, player)?;
                },
                PlayerState::Hold => {
                    return Ok(());
                },
                _ => {
                    return Err(ContractError::UnexpectedTransition);
                },
            }
        },
        PlayerState::Hit => {
            match new_state {
                PlayerState::Hit => {
                    on_player_hit(deck, player)?;
                },
                PlayerState::Hold => {
                    return Ok(());
                },
                _ => {
                    return Err(ContractError::UnexpectedTransition);
                },
            }
        },
        PlayerState::Hold => {
            return Err(ContractError::UnexpectedTransition);
        },
    }
    Ok(())
}

/// Draws for the dealer into `hand`, one card at a time, for as long as the
/// hand scores less than 17, and stops at the first score of 17 or more,
/// whatever the cards that follow. A deck that ends before that gives
/// `DeckExhausted`.
pub fn draw_to_seventeen(hand: &mut PlayerHand, deck: &mut GameDeck) -> (res: Result<
    u8,
    ContractError,
>)
    requires
        old(deck)@.wf(),
    ensures
        final(deck)@.wf(),
        old(hand)@.wf() ==> final(hand)@.wf(),
        match dealer_draws(old(hand)@, old(deck)@, 0) {
            Some(n) => n <= old(deck)@.remaining() && res == Ok::<u8, ContractError>(n as u8)
                && final(hand)@ == hand_after(
                old(hand)@,
                old(deck)@,
                n,
            ) && final(deck)@ == old(deck)@.advanced(n),
            None => res == Err::<u8, ContractError>(ContractError::DeckExhausted) && final(hand)@
                == hand_after(old(hand)@, old(deck)@, old(deck)@.remaining()) && final(deck)@
                == old(deck)@.advanced(old(deck)@.remaining()),
        },
        res matches Ok(n) ==> {
            &&& final(hand)@.score() >= DEALER_STANDS_AT
            &&& n <= old(deck)@.remaining()
            &&& final(hand)@.cards == old(hand)@.cards + old(deck)@.deck.subrange(
                old(deck).next_free_card as int,
                old(deck).next_free_card + n,
            )
            &&& forall|k: int|
                0 <= k < n ==> (#[trigger] hand_after(old(hand)@, old(deck)@, k)).score()
                    < DEALER_STANDS_AT
        },
        res is Err ==> forall|k: int|
            0 <= k <= old(deck)@.remaining() ==> (#[trigger] hand_after(
                old(hand)@,
                old(deck)@,
                k,
            )).score() < DEALER_STANDS_AT,
{
    let mut drawn: u8 = 0;
    while get_player_score(hand) < DEALER_STANDS_AT
        invariant
            deck@.wf(),
            old(deck)@.wf(),
            old(hand)@.wf() ==> hand@.wf(),
            0 <= drawn <= old(deck)@.remaining(),
            hand@ == hand_after(old(hand)@, old(deck)@, drawn as int),
            deck@ == old(deck)@.advanced(drawn as int),
            dealer_draws(old(hand)@, old(deck)@, 0) == dealer_draws(
                old(hand)@,
                old(deck)@,
                drawn as int,
            ),
        decreases old(deck)@.remaining() - drawn,
    {
        match deck.draw() {
            Ok(card) => {
                hand.receive(card);
                drawn = drawn + 1;
            },
            Err(e) => {
                proof {
                    lemma_dealer_draws(old(hand)@, old(deck)@, 0);
                }
                return Err(e);
            },
        }
    }
    proof {
        lemma_dealer_draws(old(hand)@, old(deck)@, 0);
        lemma_hand_after_cards(old(hand)@, old(deck)@, drawn as int);
    }
    Ok(drawn)
}

/// The dealer plays: on from the hand on the table (an empty one where the
/// table has none), the dealer draws one card at a time for as long as the
/// hand scores less than 17, and stops at the first score of 17 or more. The
/// hand stays the dealer's hand on the table. A deck that ends before that
/// gives `DeckExhausted` and leaves everything as it was.
pub fn play_dealer(deps: &mut GameStorage) -> (res: Result<(), ContractError>)
    requires
        old(deps).parts_wf(),
    ensures
        final(deps).parts_wf(),
        match old(deps)@.dealer_played() {
            Ok(next) => res is Ok && final(deps)@ == next,
            Err(e) => res == Err::<(), ContractError>(e) && final(deps)@ == old(deps)@,
        },
        res is Ok ==> {
            let start = old(deps)@.dealer_start();
            let from = old(deps)@.deck.next_free_card as int;
            let to = final(deps)@.deck.next_free_card as int;
            &&& from <= to <= old(deps)@.deck.deck.len()
            &&& final(deps)@.table.dealer_hand matches Some(h) && h.cards == start.cards + old(
                deps,
            )@.deck.deck.subrange(from, to) && h.score() >= DEALER_STANDS_AT
            &&& forall|k: int|
                0 <= k < to - from ==> (#[trigger] hand_after(start, old(deps)@.deck, k)).score()
                    < DEALER_STANDS_AT
            &&& final(deps)@.deck.deck == old(deps)@.deck.deck
            &&& final(deps)@.table.players == old(deps)@.table.players
            &&& final(deps)@.table.state == old(deps)@.table.state
        },
{
    let mut dealer_deck = match &deps.table.dealer_hand {
        Some(hand) => hand.clone(),
        None => PlayerHand::new(),
    };
    let ghost accounts = deps.balances@;
    let undealt = deps.deck.next_free_card;
    match draw_to_seventeen(&mut dealer_deck, &mut deps.deck) {
        Ok(drawn) => {
            deps.table.dealer_hand = Some(dealer_deck);
            proof {
                assert(deps.balances@ == accounts);
                assert(deps@.balances == old(deps)@.balances);
                assert(deps@.table.players =~= old(deps)@.table.players);
                let start = old(deps)@.dealer_start();
                lemma_dealer_draws(start, old(deps)@.deck, 0);
                lemma_hand_after_cards(start, old(deps)@.deck, drawn as int);
                assert(deps@.deck.next_free_card == undealt + drawn);
                assert(deps@.table.dealer_hand == Some(
                    hand_after(start, old(deps)@.deck, drawn as int),
                ));
            }
            Ok(())
        },
        Err(e) => {
            deps.deck.next_free_card = undealt;
            proof {
                assert(deps.balances@ == accounts);
                assert(deps@.balances == old(deps)@.balances);
                assert(deps@.table.players =~= old(deps)@.table.players);
            }
            Err(e)
        },
    }
}

/// What the pool pays a winner who staked `stake` and scored
/// `player_score`.
fn winner_award(stake: u128, player_score: u8) -> (award: u128)
    requires
        stake <= MAX_STAKE,
    ensures
        award == payout(stake, player_score as int),
{
    if player_score == 21 {
        assert(stake * 125 / 100 == stake + stake / 4);
        stake + stake / 4
    } else {
        stake
    }
}

/// Settles one seat against the dealer's score.
fn settle_seat(
    deps: &mut GameStorage,
    env: &Env,
    seat: u8,
    dealer_score: u8,
    out_msgs: &mut Vec<Instruction>,
)
    requires
        old(deps).parts_wf(),
        seat < 6,
    ensures
        final(deps).parts_wf(),
        final(deps)@ == old(deps)@.seat_settled(seat as int, dealer_score as int),
        instruction_views(final(out_msgs)@) == instruction_views(old(out_msgs)@) + old(
            deps,
        )@.seat_instructions(seat as int, env.contract_address@, dealer_score as int),
        final(deps)@.secret == old(deps)@.secret,
        final(deps)@.deck == old(deps)@.deck,
{
    if !deps.table.players[seat as usize].is_occupied() {
        assert(instruction_views(out_msgs@) =~= instruction_views(old(out_msgs)@) + Seq::empty());
        return ;
    }
    match deps.table.players[seat as usize].state {
        PlayerState::NotPlaying => {
            assert(instruction_views(out_msgs@) =~= instruction_views(old(out_msgs)@)
                + Seq::empty());
            return ;
        },
        _ => {},
    }
    let ghost p = old(deps)@.table.players[seat as int];
    let address = deps.table.players[seat as usize].address.clone();
    let player_balance = read_user_balance(deps, &address);
    let player_score = match &deps.table.players[seat as usize].hand {
        Some(hand) => get_player_score(hand),
        None => 0,
    };
    let won = player_score <= 21 && (player_score > dealer_score || dealer_score > 21);
    assert(won == wins(p.score(), dealer_score as int));
    let mut reward: u128 = 0;
    if won {
        let player_award = winner_award(player_balance, player_score);
        reward = player_award;
        let pay = Instruction::PayToWinner {
            contract_addr: deps.bank_address.clone(),
            callback_code_hash: deps.bank_code_hash.clone(),
            amount: player_award,
            to: address.clone(),
        };
        let back = Instruction::Send {
            from_address: env.contract_address.clone(),
            to_address: address.clone(),
            amount: player_balance,
        };
        proof {
            lemma_instruction_views_push(out_msgs@, pay);
            lemma_instruction_views_push(out_msgs@.push(pay), back);
        }
        out_msgs.push(pay);
        out_msgs.push(back);
    } else {
        let forfeit = Instruction::Send {
            from_address: env.contract_address.clone(),
            to_address: deps.bank_address.clone(),
            amount: player_balance,
        };
        proof {
            lemma_instruction_views_push(out_msgs@, forfeit);
        }
        out_msgs.push(forfeit);
    }
    assert(instruction_views(out_msgs@) =~= instruction_views(old(out_msgs)@) + old(
        deps,
    )@.seat_instructions(seat as int, env.contract_address@, dealer_score as int));
    let ghost accounts = deps.balances@;
    deps.scores.players[seat as usize] = Some(
        PlayerResult { address: address.clone(), won, score: player_score, reward },
    );
    deps.table.players[seat as usize].state = PlayerState::NotPlaying;
    proof {
        assert(deps.balances@ == accounts);
        assert(deps@.balances == old(deps)@.balances);
        let target = old(deps)@.seat_settled(seat as int, dealer_score as int);
        assert(deps@.table.players =~= target.table.players);
        assert(deps@.scores.players =~= target.scores.players);
        assert forall|s: int| 0 <= s < 6 implies (#[trigger] deps@.table.players[s]).occupied()
            == old(deps)@.table.players[s].occupied() by {}
    }
    zero_user_balance(deps, &address);
}

/// Settles the round against the dealer's hand and records how it ended.
///
/// Every occupied seat that has bid in the round is settled, in seat order.
/// A seat that is still in `Bid` or `Hit` when the dealer has played is
/// settled on the cards it holds, as if it had held; a seat whose cards are
/// gone scores nothing.
///
/// A seat wins with a score of 21 or less that beats the dealer's, or any
/// such score when the dealer is over 21. The pool pays a winner the stake,
/// and a quarter more for a score of exactly 21, and the table hands the
/// stake back. A loser's stake goes from the table to the pool. Each
/// settled seat gets its result recorded, its stake set to zero, and is back
/// to not playing. The instructions are added to `out_msgs`.
pub fn game_roundup(deps: &mut GameStorage, env: &Env, out_msgs: &mut Vec<Instruction>) -> (res:
    Result<(), ContractError>)
    requires
        old(deps).parts_wf(),
    ensures
        final(deps).parts_wf(),
        match old(deps)@.rounded_up() {
            Ok(next) => {
                &&& res is Ok
                &&& final(deps)@ == next
                &&& instruction_views(final(out_msgs)@) == instruction_views(old(out_msgs)@) + old(
                    deps,
                )@.roundup_instructions(env.contract_address@)
            },
            Err(e) => res == Err::<(), ContractError>(e) && final(deps)@ == old(deps)@
                && final(out_msgs)@ == old(out_msgs)@,
        },
        final(deps)@.secret == old(deps)@.secret,
        final(deps)@.deck == old(deps)@.deck,
{
    let dealer_score = match &deps.table.dealer_hand {
        Some(hand) => get_player_score(hand),
        None => {
            return Err(ContractError::MissingHand);
        },
    };
    let ghost accounts = deps.balances@;
    deps.scores = Scores {
        players: [None, None, None, None, None, None],
        dealer: PlayerResult {
            address: String::new(),
            won: false,
            score: dealer_score,
            reward: 0,
        },
    };
    let ghost opened = old(deps)@.results_opened(dealer_score as int);
    proof {
        assert(deps.balances@ == accounts);
        assert(deps@.balances == old(deps)@.balances);
        assert(deps@.scores.players =~= opened.scores.players);
        assert(deps@.scores.dealer.address =~= opened.scores.dealer.address);
        assert(deps@ == opened);
        assert(instruction_views(out_msgs@) =~= instruction_views(old(out_msgs)@) + Seq::empty());
    }
    let mut seat: u8 = 0;
    while seat < 6
        invariant
            seat <= 6,
            deps.parts_wf(),
            deps@ == opened.settled(dealer_score as int, seat as int),
            deps@.secret == opened.secret,
            deps@.deck == opened.deck,
            instruction_views(out_msgs@) == instruction_views(old(out_msgs)@)
                + opened.settlement_instructions(
                env.contract_address@,
                dealer_score as int,
                seat as int,
            ),
        decreases 6 - seat,
    {
        settle_seat(deps, env, seat, dealer_score, out_msgs);
        proof {
            let done = opened.settlement_instructions(
                env.contract_address@,
                dealer_score as int,
                seat as int,
            );
            let more = opened.settled(dealer_score as int, seat as int).seat_instructions(
                seat as int,
                env.contract_address@,
                dealer_score as int,
            );
            assert(instruction_views(out_msgs@) =~= instruction_views(old(out_msgs)@) + (done
                + more));
        }
        seat += 1;
    }
    Ok(())
}

/// Puts the state and the instructions back to what they were and reports
/// `e`.
fn undo(
    deps: &mut GameStorage,
    backup: GameStorage,
    out_msgs: &mut Vec<Instruction>,
    len: usize,
    e: ContractError,
) -> (res: Result<(), ContractError>)
    requires
        len <= old(out_msgs)@.len(),
    ensures
        *final(deps) == backup,
        final(out_msgs)@ == old(out_msgs)@.subrange(0, len as int),
        res == Err::<(), ContractError>(e),
{
    *deps = backup;
    out_msgs.truncate(len);
    Err(e)
}

/// Runs the dealer's phase to its end: the dealer plays, the round is
/// settled, and a new round starts. A failure on the way undoes what was
/// done before it.
fn finish_round(deps: &mut GameStorage, env: &Env, out_msgs: &mut Vec<Instruction>) -> (res: Result<
    (),
    ContractError,
>)
    requires
        old(deps).parts_wf(),
    ensures
        final(deps).parts_wf(),
        match old(deps)@.round_finished(env.time) {
            Ok(next) => {
                &&& res is Ok
                &&& final(deps)@ == next
                &&& final(deps).wf()
                &&& instruction_views(final(out_msgs)@) == instruction_views(old(out_msgs)@) + old(
                    deps,
                )@.round_instructions(env.contract_address@)
            },
            Err(e) => res == Err::<(), ContractError>(e) && final(deps)@ == old(deps)@
                && instruction_views(final(out_msgs)@) == instruction_views(old(out_msgs)@),
        },
        res is Ok && final(deps)@.secret == old(deps)@.secret + 1 ==> {
            &&& final(deps)@.deck.deck.to_multiset() == canonical_deck().to_multiset()
            &&& final(deps)@.deck.deck.len() == 52
            &&& final(deps)@.deck.next_free_card == 0
        },
{
    let backup = deps.clone();
    let len = out_msgs.len();
    play_dealer(deps)?;
    match game_roundup(deps, env, out_msgs) {
        Ok(()) => {},
        Err(e) => {
            return undo(deps, backup, out_msgs, len, e);
        },
    }
    proof {
        let settled = instruction_views(old(out_msgs)@) + old(deps)@.round_instructions(
            env.contract_address@,
        );
        assert(instruction_views(out_msgs@).len() >= instruction_views(old(out_msgs)@).len());
        assert(out_msgs@.len() >= len);
        assert forall|i: int| 0 <= i < len implies out_msgs@[i]@ == old(out_msgs)@[i]@ by {
            assert(instruction_views(out_msgs@)[i] == settled[i]);
            assert(instruction_views(old(out_msgs)@)[i] == old(out_msgs)@[i]@);
        }
    }
    match start_new_round(deps, env) {
        Ok(()) => Ok(()),
        Err(e) => {
            let res = undo(deps, backup, out_msgs, len, e);
            assert(instruction_views(out_msgs@) =~= instruction_views(old(out_msgs)@));
            res
        },
    }
}

/// Does what follows a change of phase away from `prev_state`. Leaving the
/// rest for a player's turn starts a round. Reaching the dealer's phase from
/// a player's turn runs it to the end: the dealer plays, the round is
/// settled, and a new round starts. Between players' turns nothing follows.
/// Any other change is refused. A failure changes nothing.
pub fn on_game_state_change(
    deps: &mut GameStorage,
    env: &Env,
    prev_state: &GameState,
    out_msgs: &mut Vec<Instruction>,
) -> (res: Result<(), ContractError>)
    requires
        old(deps).parts_wf(),
    ensures
        final(deps).parts_wf(),
        match old(deps)@.phase_changed(*prev_state, env.time) {
            Ok(next) => {
                &&& res is Ok
                &&& final(deps)@ == next
                &&& instruction_views(final(out_msgs)@) == instruction_views(old(out_msgs)@) + old(
                    deps,
                )@.phase_instructions(*prev_state, env.contract_address@)
            },
            Err(e) => res == Err::<(), ContractError>(e) && final(deps)@ == old(deps)@
                && instruction_views(final(out_msgs)@) == instruction_views(old(out_msgs)@),
        },
        res is Ok && (*prev_state is NoPlayers || old(deps)@.table.state is DealerTurn)
            ==> final(deps).wf(),
        res is Ok && final(deps)@.secret == old(deps)@.secret + 1 ==> {
            &&& final(deps)@.deck.deck.to_multiset() == canonical_deck().to_multiset()
            &&& final(deps)@.deck.deck.len() == 52
            &&& final(deps)@.deck.next_free_card == 0
        },
{
    match prev_state {
        GameState::NoPlayers => {
            match deps.table.state {
                GameState::PlayerTurn { player_seat: _, is_first: _, turn_start_time: _ } => {
                    assert(instruction_views(out_msgs@) =~= instruction_views(old(out_msgs)@)
                        + Seq::empty());
                    start_new_round(deps, env)
                },
                _ => Err(ContractError::UnexpectedTransition),
            }
        },
        GameState::PlayerTurn { player_seat: _, is_first: _, turn_start_time: _ } => {
            match deps.table.state {
                GameState::DealerTurn => finish_round(deps, env, out_msgs),
                _ => {
                    assert(instruction_views(out_msgs@) =~= instruction_views(old(out_msgs)@)
                        + Seq::empty());
                    Ok(())
                },
            }
        },
        GameState::DealerTurn => Err(ContractError::UnexpectedTransition),
    }
}

/// Puts the state back to what `backup` holds and reports `e`.
fn restore(deps: &mut GameStorage, backup: GameStorage, e: ContractError) -> (res: Result<
    HandleResponse,
    ContractError,
>)
    ensures
        *final(deps) == backup,
        res == Err::<HandleResponse, ContractError>(e),
{
    *deps = backup;
    Err(e)
}

/// `env.sender` sits down at the empty seat `seat` and leaves `secret`
/// there, its share of the seeds of the shuffles to come. At a resting table
/// this starts a round, and the turn is the newcomer's.
///
/// Fails for a seat that is not one of the six, for a seat that is taken,
/// and for a caller who sits at the table already.
pub fn sit(deps: &mut GameStorage, env: Env, seat: u8, secret: u64) -> (res: Result<
    HandleResponse,
    ContractError,
>)
    requires
        old(deps).wf(),
    ensures
        final(deps).wf(),
        match old(deps)@.sit(env.sender@, seat, secret, env.time) {
            Ok(next) => res is Ok && final(deps)@ == next && res->Ok_0.messages@.len() == 0,
            Err(e) => res == Err::<HandleResponse, ContractError>(e) && final(deps)@ == old(deps)@,
        },
        seat >= 6 ==> res is Err,
        seat < 6 && old(deps)@.table.players[seat as int].occupied() ==> res is Err,
        (exists|s: int| 0 <= s < 6 && (#[trigger] old(deps)@.table.players[s]).address == env.sender@)
            ==> res is Err,
        res is Ok ==> final(deps)@.table.players[seat as int].address == env.sender@
            && final(deps)@.table.players_count == old(deps)@.table.players_count + 1,
        res is Ok && old(deps)@.table.state is NoPlayers ==> final(deps)@.table.state == (
        GameState::PlayerTurn { player_seat: seat, is_first: true, turn_start_time: env.time })
            && final(deps)@.secret == old(deps)@.secret + 1,
        res is Ok && !(old(deps)@.table.state is NoPlayers) ==> final(deps)@.table.state == old(
            deps,
        )@.table.state,
        res is Ok && final(deps)@.secret == old(deps)@.secret + 1 ==> {
            &&& final(deps)@.deck.deck.to_multiset() == canonical_deck().to_multiset()
            &&& final(deps)@.deck.deck.len() == 52
            &&& final(deps)@.deck.next_free_card == 0
        },
{
    if seat >= 6 {
        return Err(ContractError::NoSuchSeat);
    }
    if deps.table.players[seat as usize].is_occupied() {
        return Err(ContractError::SeatTaken { seat });
    }
    proof {
        lemma_seat_of(deps@.table.players, env.sender@, 0);
        if old(deps)@.player_added(env.sender@, seat, secret) is Ok {
            let seated = old(deps)@.player_added(env.sender@, seat, secret)->Ok_0;
            lemma_next_waiting(seated.hands_cleared().table.players, 0);
        }
    }
    let prev_state = deps.table.state;
    let backup = deps.clone();
    let mut msgs: Vec<Instruction> = Vec::new();
    add_player(deps, &env.sender, seat, secret)?;
    let ghost seated = deps@;
    match prev_state {
        GameState::NoPlayers => {
            let ghost accounts = deps.balances@;
            deps.table.state = GameState::PlayerTurn {
                player_seat: seat,
                is_first: true,
                turn_start_time: 0,
            };
            proof {
                assert(deps.balances@ == accounts);
                assert(deps@.balances == seated.balances);
                assert(deps@.table.players =~= seated.table.players);
                assert(deps@.hands_cleared() == seated.hands_cleared().with_phase(deps@.table.state));
                assert(deps@.new_round(env.time) == seated.new_round(env.time));
            }
            match on_game_state_change(deps, &env, &prev_state, &mut msgs) {
                Ok(()) => {},
                Err(e) => {
                    return restore(deps, backup, e);
                },
            }
            proof {
                assert(instruction_views(msgs@).len() == 0);
            }
        },
        _ => {},
    }
    Ok(HandleResponse { messages: msgs })
}

/// Empties `seat` for `who` and moves the turn on from it, doing what
/// follows the change of phase away from `prev_state`. On a failure the
/// state is what `backup` holds.
fn leave(
    deps: &mut GameStorage,
    env: &Env,
    who: &String,
    seat: u8,
    prev_state: &GameState,
    backup: GameStorage,
) -> (res: Result<HandleResponse, ContractError>)
    requires
        old(deps).parts_wf(),
        backup@ == old(deps)@,
        backup.wf(),
        *prev_state is PlayerTurn,
    ensures
        final(deps).wf(),
        match old(deps)@.leave(who@, seat, *prev_state, env.time, env.contract_address@) {
            Ok((next, msgs)) => res is Ok && final(deps)@ == next && instruction_views(
                res->Ok_0.messages@,
            ) == msgs,
            Err(e) => res == Err::<HandleResponse, ContractError>(e) && final(deps)@ == old(deps)@,
        },
        res is Ok && final(deps)@.secret == old(deps)@.secret + 1 ==> {
            &&& final(deps)@.deck.deck.to_multiset() == canonical_deck().to_multiset()
            &&& final(deps)@.deck.deck.len() == 52
            &&& final(deps)@.deck.next_free_card == 0
        },
{
    let mut msgs: Vec<Instruction> = Vec::new();
    assert(instruction_views(msgs@) =~= Seq::empty());
    match remove_player(deps, who, seat) {
        Ok(()) => {},
        Err(e) => {
            return restore(deps, backup, e);
        },
    }
    match advance_to_next_player(deps, env, seat, true) {
        Ok(()) => {},
        Err(e) => {
            return restore(deps, backup, e);
        },
    }
    let ghost moved = deps@;
    match on_game_state_change(deps, env, prev_state, &mut msgs) {
        Ok(()) => {},
        Err(e) => {
            return restore(deps, backup, e);
        },
    }
    proof {
        assert(instruction_views(msgs@) =~= moved.phase_instructions(
            *prev_state,
            env.contract_address@,
        ));
    }
    Ok(HandleResponse { messages: msgs })
}

/// `env.sender` leaves `seat`: the seat is emptied, the stake of the leaver
/// set to zero, and the turn moves on from the seat; where that leaves
/// nobody to act and nobody has held, a new round starts.
///
/// Fails for a seat that is not one of the six, for an empty seat, for a
/// caller who does not occupy the seat, and for a player who has bid in this
/// round.
pub fn stand(deps: &mut GameStorage, env: Env, seat: u8) -> (res: Result<
    HandleResponse,
    ContractError,
>)
    requires
        old(deps).wf(),
    ensures
        final(deps).wf(),
        match old(deps)@.stand(env.sender@, seat, env.time, env.contract_address@) {
            Ok((next, msgs)) => res is Ok && final(deps)@ == next && instruction_views(
                res->Ok_0.messages@,
            ) == msgs,
            Err(e) => res == Err::<HandleResponse, ContractError>(e) && final(deps)@ == old(deps)@,
        },
        res is Ok && final(deps)@.secret == old(deps)@.secret + 1 ==> {
            &&& final(deps)@.deck.deck.to_multiset() == canonical_deck().to_multiset()
            &&& final(deps)@.deck.deck.len() == 52
            &&& final(deps)@.deck.next_free_card == 0
        },
{
    if seat >= 6 {
        return Err(ContractError::NoSuchSeat);
    }
    if !deps.table.players[seat as usize].is_occupied() {
        return Err(ContractError::SeatEmpty { seat });
    }
    if !(deps.table.players[seat as usize].address == env.sender) {
        return Err(ContractError::NotSeatedHere { seat });
    }
    match deps.table.players[seat as usize].state {
        PlayerState::NotPlaying => {},
        _ => {
            return Err(ContractError::StandWhilePlaying);
        },
    }
    let backup = deps.clone();
    let prev_state = GameState::PlayerTurn { player_seat: seat, is_first: true, turn_start_time: 0 };
    leave(deps, &env, &env.sender, seat, &prev_state, backup)
}

/// The time that has passed since `since`, none where `now` lies before it.
fn elapsed(now: u64, since: u64) -> (seconds: u64)
    ensures
        seconds == (if now >= since {
            now - since
        } else {
            0
        }),
{
    if now >= since {
        now - since
    } else {
        0
    }
}

/// Anyone removes `target` from `seat` for idling: the seat is emptied as
/// if the player had left, and the turn moves on.
///
/// Fails unless it is the turn of `seat`, unless that turn has lasted
/// `KICK_AFTER` seconds or more, and unless `target` occupies the seat.
pub fn kick(deps: &mut GameStorage, env: Env, target: String, seat: u8) -> (res: Result<
    HandleResponse,
    ContractError,
>)
    requires
        old(deps).wf(),
    ensures
        final(deps).wf(),
        match old(deps)@.kick(target@, seat, env.time, env.contract_address@) {
            Ok((next, msgs)) => res is Ok && final(deps)@ == next && instruction_views(
                res->Ok_0.messages@,
            ) == msgs,
            Err(e) => res == Err::<HandleResponse, ContractError>(e) && final(deps)@ == old(deps)@,
        },
        old(deps)@.table.state matches GameState::PlayerTurn { turn_start_time, .. } && env.time
            - turn_start_time < KICK_AFTER ==> res is Err,
        res is Ok && final(deps)@.secret == old(deps)@.secret + 1 ==> {
            &&& final(deps)@.deck.deck.to_multiset() == canonical_deck().to_multiset()
            &&& final(deps)@.deck.deck.len() == 52
            &&& final(deps)@.deck.next_free_card == 0
        },
{
    let prev_state = deps.table.state;
    match prev_state {
        GameState::PlayerTurn { player_seat, is_first: _, turn_start_time } => {
            if player_seat != seat {
                return Err(ContractError::KickNotCurrent);
            }
            if elapsed(env.time, turn_start_time) < KICK_AFTER {
                return Err(ContractError::TooEarlyToKick);
            }
        },
        _ => {
            return Err(ContractError::KickNotCurrent);
        },
    }
    let backup = deps.clone();
    leave(deps, &env, &target, seat, &prev_state, backup)
}

/// The largest bid that a pool reporting `bank_balance` admits.
pub fn max_bid(bank_balance: u128) -> (limit: u128)
    ensures
        limit == max_bid_allowed(bank_balance),
{
    let limit = bank_balance / 15 * 2 + (bank_balance % 15) * 2 / 15;
    assert(limit == bank_balance * 100 / 750) by {
        let q = bank_balance / 15;
        let r = bank_balance % 15;
        assert(bank_balance == 15 * q + r);
        assert(bank_balance * 100 == 750 * (2 * q) + 100 * r);
        assert((100 * r) / 750 == (2 * r) / 15);
    }
    limit
}

/// Whether a bid of `amount` at `seat` can be taken up at all: what is to
/// be settled before the ledger is asked what the pool holds. It must be the
/// turn of `seat` and its first action, the amount must not be zero, and
/// `env.sent_funds` must hold exactly that amount of the native coin.
pub fn validate_bid(deps: &GameStorage, env: &Env, seat: u8, amount: u128) -> (res: Result<
    (),
    ContractError,
>)
    ensures
        res == deps@.bid_asked(env.sent_funds@, seat, amount),
{
    match deps.table.state {
        GameState::PlayerTurn { player_seat, is_first, turn_start_time: _ } => {
            if player_seat != seat {
                return Err(ContractError::NotPlayersTurn);
            }
            if !is_first {
                return Err(ContractError::AlreadyBid);
            }
        },
        _ => {
            return Err(ContractError::NotPlayersTurn);
        },
    }
    if amount == 0 {
        return Err(ContractError::ZeroBid);
    }
    if !contains_native(&env.sent_funds, amount) {
        return Err(ContractError::WrongFunds { requested: amount });
    }
    Ok(())
}

/// `env.sender` stakes `amount` at `seat`, as the first action of the
/// seat's turn. The dealer is dealt one card, then the player two, and the
/// stake is added to what the table holds for the player.
///
/// `bank_balance` is the balance that the ledger reports for the pool.
///
/// Fails unless it is the turn of `seat` and its first action; for an
/// amount of zero; unless `env.sent_funds` holds exactly `amount` of the
/// native coin; for an amount over `bank_balance * 100 / (125 * 6)`, with
/// that limit in the failure; for a caller who does not occupy the seat; for
/// a deck with fewer than three undealt cards; and for a stake that would
/// pass `MAX_STAKE`.
pub fn bid(deps: &mut GameStorage, env: Env, seat: u8, amount: u128, bank_balance: u128) -> (res:
    Result<HandleResponse, ContractError>)
    requires
        old(deps).wf(),
    ensures
        final(deps).wf(),
        match old(deps)@.bid(env.sender@, env.sent_funds@, seat, amount, bank_balance, env.time) {
            Ok(next) => res is Ok && final(deps)@ == next && res->Ok_0.messages@.len() == 0,
            Err(e) => res == Err::<HandleResponse, ContractError>(e) && final(deps)@ == old(deps)@,
        },
        amount == 0 ==> res is Err,
        !crate::chain::funds_hold(env.sent_funds@, amount) ==> res is Err,
        amount > bank_balance * 100 / 750 ==> res is Err,
        res matches Err(ContractError::BidTooHigh { max_bid_allowed: limit }) ==> limit
            == bank_balance * 100 / 750 && amount > limit,
{
    validate_bid(deps, &env, seat, amount)?;
    let max_bid_allowed = max_bid(bank_balance);
    if amount > max_bid_allowed {
        return Err(ContractError::BidTooHigh { max_bid_allowed });
    }
    if !(deps.table.players[seat as usize].address == env.sender) {
        return Err(ContractError::WrongAddress);
    }
    if deps.deck.remaining() < 3 {
        return Err(ContractError::DeckExhausted);
    }
    let held = read_user_balance(deps, &env.sender);
    if amount > MAX_STAKE - held {
        return Err(ContractError::StakeTooLarge);
    }
    let ghost next = old(deps)@.bid(
        env.sender@,
        env.sent_funds@,
        seat,
        amount,
        bank_balance,
        env.time,
    )->Ok_0;
    let ghost accounts = deps.balances@;
    let mut dealer_hand = PlayerHand::new();
    let card = deps.deck.draw()?;
    dealer_hand.receive(card);
    proof {
        reveal_with_fuel(hand_after, 2);
        assert(dealer_hand@ == hand_after(HandView::empty(), old(deps)@.deck, 1));
    }
    deps.table.dealer_hand = Some(dealer_hand);
    on_player_state_change(
        &mut deps.deck,
        &mut deps.table.players[seat as usize],
        &PlayerState::NotPlaying,
        &PlayerState::Bid,
    )?;
    deps.table.players[seat as usize].state = PlayerState::Bid;
    deps.table.state = GameState::PlayerTurn {
        player_seat: seat,
        is_first: false,
        turn_start_time: env.time,
    };
    proof {
        assert(deps.balances@ == accounts);
        assert(deps@.balances == old(deps)@.balances);
        assert(deps@.table.players =~= next.table.players);
        assert(deps@.deck == next.deck);
        assert forall|s: int| 0 <= s < 6 implies (#[trigger] deps@.table.players[s]).occupied()
            == old(deps)@.table.players[s].occupied() by {}
        assert(deps.parts_wf());
    }
    add_user_balance(deps, &env.sender, amount)?;
    Ok(HandleResponse { messages: Vec::new() })
}

/// `env.sender` draws one more card at `seat`.
///
/// Fails unless it is the turn of `seat`, after its bid; for a caller who
/// does not occupy the seat; for a hand whose raw total is 21 or more; and
/// for a deck without undealt cards.
pub fn hit(deps: &mut GameStorage, env: Env, seat: u8) -> (res: Result<
    HandleResponse,
    ContractError,
>)
    requires
        old(deps).wf(),
    ensures
        final(deps).wf(),
        match old(deps)@.hit(env.sender@, seat) {
            Ok(next) => res is Ok && final(deps)@ == next && res->Ok_0.messages@.len() == 0,
            Err(e) => res == Err::<HandleResponse, ContractError>(e) && final(deps)@ == old(deps)@,
        },
{
    match deps.table.state {
        GameState::PlayerTurn { player_seat, is_first, turn_start_time: _ } => {
            if player_seat != seat {
                return Err(ContractError::NotPlayersTurn);
            }
            if is_first {
                return Err(ContractError::BidFirst);
            }
        },
        _ => {
            return Err(ContractError::NotPlayersTurn);
        },
    }
    let ghost accounts = deps.balances@;
    let player = get_player(&mut deps.table, Some(&env.sender), seat)?;
    let prev_player_state = player.state;
    let dealt = on_player_state_change(
        &mut deps.deck,
        player,
        &prev_player_state,
        &PlayerState::Hit,
    );
    match dealt {
        Ok(()) => {},
        Err(e) => {
            proof {
                assert(deps.balances@ == accounts);
                assert(deps@.balances == old(deps)@.balances);
                assert(deps@.table.players =~= old(deps)@.table.players);
            }
            return Err(e);
        },
    }
    match prev_player_state {
        PlayerState::Bid | PlayerState::Hit => {
            deps.table.players[seat as usize].state = PlayerState::Hit;
        },
        _ => {},
    }
    proof {
        let next = old(deps)@.hit(env.sender@, seat)->Ok_0;
        assert(deps.balances@ == accounts);
        assert(deps@.balances == old(deps)@.balances);
        assert(deps@.table.players =~= next.table.players);
        assert forall|s: int| 0 <= s < 6 implies (#[trigger] deps@.table.players[s]).occupied()
            == old(deps)@.table.players[s].occupied() by {}
    }
    Ok(HandleResponse { messages: Vec::new() })
}

/// `env.sender` ends the turn of `seat`. The turn moves on to the next
/// seat whose occupant waits to play. Where there is none, the dealer plays,
/// the round is settled, and a new round starts; the instructions of the
/// settlement are handed back.
///
/// Fails unless it is the turn of `seat`, after its bid; for a caller who
/// does not occupy the seat; and where the dealer's play or the new round
/// fails.
pub fn hold(deps: &mut GameStorage, env: Env, seat: u8) -> (res: Result<
    HandleResponse,
    ContractError,
>)
    requires
        old(deps).wf(),
    ensures
        final(deps).wf(),
        match old(deps)@.hold(env.sender@, seat, env.time, env.contract_address@) {
            Ok((next, msgs)) => res is Ok && final(deps)@ == next && instruction_views(
                res->Ok_0.messages@,
            ) == msgs,
            Err(e) => res == Err::<HandleResponse, ContractError>(e) && final(deps)@ == old(deps)@,
        },
        res is Ok && final(deps)@.secret == old(deps)@.secret + 1 ==> {
            &&& final(deps)@.deck.deck.to_multiset() == canonical_deck().to_multiset()
            &&& final(deps)@.deck.deck.len() == 52
            &&& final(deps)@.deck.next_free_card == 0
        },
{
    let mut msgs: Vec<Instruction> = Vec::new();
    assert(instruction_views(msgs@) =~= Seq::empty());
    let prev_game_state = deps.table.state;
    match prev_game_state {
        GameState::PlayerTurn { player_seat, is_first, turn_start_time: _ } => {
            if player_seat != seat {
                return Err(ContractError::NotPlayersTurn);
            }
            if is_first {
                return Err(ContractError::BidFirst);
            }
        },
        _ => {
            return Err(ContractError::NotPlayersTurn);
        },
    }
    let backup = deps.clone();
    let ghost accounts = deps.balances@;
    let player = get_player(&mut deps.table, Some(&env.sender), seat)?;
    let prev_player_state = player.state;
    match prev_player_state {
        PlayerState::Bid | PlayerState::Hit => {
            player.state = PlayerState::Hold;
        },
        _ => {},
    }
    on_player_state_change(&mut deps.deck, player, &prev_player_state, &PlayerState::Hold)?;
    proof {
        assert(deps.balances@ == accounts);
        assert(deps@.balances == old(deps)@.balances);
        assert(deps@.table.players =~= old(deps)@.table.players.update(
            seat as int,
            PlayerView { state: PlayerState::Hold, ..old(deps)@.table.players[seat as int] },
        ));
        assert forall|s: int| 0 <= s < 6 implies (#[trigger] deps@.table.players[s]).occupied()
            == old(deps)@.table.players[s].occupied() by {}
        assert(deps@.table.players[seat as int].occupied() && deps@.table.players[seat as int].state
            == PlayerState::Hold);
        assert(any_holding(deps@.table.players));
    }
    match advance_to_next_player(deps, &env, seat, false) {
        Ok(()) => {},
        Err(e) => {
            return restore(deps, backup, e);
        },
    }
    let ghost moved = deps@;
    match on_game_state_change(deps, &env, &prev_game_state, &mut msgs) {
        Ok(()) => {},
        Err(e) => {
            return restore(deps, backup, e);
        },
    }
    proof {
        assert(instruction_views(msgs@) =~= moved.phase_instructions(
            prev_game_state,
            env.contract_address@,
        ));
    }
    Ok(HandleResponse { messages: msgs })
}

/// Creates the table: six empty seats, nobody to act, no deck yet, no
/// stakes, and `msg.secret` as the first value of the round counter. The
/// ledger at `msg.bank_address` is told where the table lives.
pub fn init(env: Env, msg: InitMsg) -> (res: (GameStorage, InitResponse))
    ensures
        res.0.wf(),
        res.0@ == StorageView::initial(
            env.contract_address@,
            msg.bank_address@,
            msg.bank_code_hash@,
            msg.secret,
        ),
        instruction_views(res.1.messages@) == seq![
            InstructionView::UpdateGameAddress {
                contract_addr: msg.bank_address@,
                callback_code_hash: msg.bank_code_hash@,
                address: env.contract_address@,
            },
        ],
{
    let table = Table {
        players_count: 0,
        players: [
            Player::vacant(),
            Player::vacant(),
            Player::vacant(),
            Player::vacant(),
            Player::vacant(),
            Player::vacant(),
        ],
        dealer_hand: None,
        state: GameState::NoPlayers,
    };
    let scores = Scores {
        players: [None, None, None, None, None, None],
        dealer: PlayerResult { address: String::new(), won: false, score: 0, reward: 0 },
    };
    let deck = GameDeck { deck: Vec::new(), next_free_card: 0 };
    let update = Instruction::UpdateGameAddress {
        contract_addr: msg.bank_address.clone(),
        callback_code_hash: msg.bank_code_hash.clone(),
        address: env.contract_address.clone(),
    };
    let mut messages: Vec<Instruction> = Vec::new();
    messages.push(update);
    let deps = GameStorage {
        owner: String::new(),
        bank_code_hash: msg.bank_code_hash,
        game_address: env.contract_address,
        bank_address: msg.bank_address,
        table,
        deck,
        secret: msg.secret,
        player_secrets: [0, 0, 0, 0, 0, 0],
        balances: Vec::new(),
        scores,
    };
    proof {
        let target = StorageView::initial(
            deps.game_address@,
            deps.bank_address@,
            deps.bank_code_hash@,
            deps.secret,
        );
        assert(deps@.table.players =~= target.table.players);
        assert(deps@.scores.players =~= target.scores.players);
        assert(deps@.scores.dealer.address =~= target.scores.dealer.address);
        assert(deps@.player_secrets =~= target.player_secrets);
        assert(deps@.deck.deck =~= target.deck.deck);
        assert(deps@.owner =~= target.owner);
        assert(deps@.balances =~= target.balances);
        assert(instruction_views(messages@) =~= seq![update@]);
    }
    (deps, InitResponse { messages })
}

/// Carries out a changing request. `bank_balance` is the balance that the
/// ledger reports for the pool; only a bid reads it.
///
/// A request that fails leaves the state as it was.
pub fn handle(deps: &mut GameStorage, env: Env, msg: HandleMsg, bank_balance: u128) -> (res: Result<
    HandleResponse,
    ContractError,
>)
    requires
        old(deps).wf(),
    ensures
        final(deps).wf(),
        match old(deps)@.handle(
            env.sender@,
            env.sent_funds@,
            env.time,
            env.contract_address@,
            msg,
            bank_balance,
        ) {
            Ok((next, msgs)) => res is Ok && final(deps)@ == next && instruction_views(
                res->Ok_0.messages@,
            ) == msgs,
            Err(e) => res == Err::<HandleResponse, ContractError>(e) && final(deps)@ == old(deps)@,
        },
        res is Ok && final(deps)@.secret == old(deps)@.secret + 1 ==> {
            &&& final(deps)@.deck.deck.to_multiset() == canonical_deck().to_multiset()
            &&& final(deps)@.deck.deck.len() == 52
            &&& final(deps)@.deck.next_free_card == 0
        },
{
    let res = match msg {
        HandleMsg::Hold { seat } => hold(deps, env, seat),
        HandleMsg::Bid { seat, amount } => bid(deps, env, seat, amount, bank_balance),
        HandleMsg::Sit { seat, secret } => sit(deps, env, seat, secret),
        HandleMsg::Stand { seat } => stand(deps, env, seat),
        HandleMsg::Kick { target, seat } => kick(deps, env, target, seat),
        HandleMsg::Hit { seat } => hit(deps, env, seat),
    };
    proof {
        if res is Ok {
            assert(res->Ok_0.messages@.len() == 0 ==> instruction_views(res->Ok_0.messages@)
                =~= Seq::empty());
        }
    }
    res
}

/// The stake that the table holds for `address`.
pub fn get_user_balance(deps: &GameStorage, address: &String) -> (answer: QueryAnswer)
    requires
        deps.wf(),
    ensures
        answer@ == (AnswerView::GetUserBalance { balance: deps@.balances[address@] }),
{
    let balance = read_user_balance(deps, address);
    QueryAnswer::GetUserBalance { balance }
}

/// The table as it stands.
pub fn get_table_data(deps: &GameStorage) -> (answer: QueryAnswer)
    ensures
        answer@ == (AnswerView::GetTable { table: deps@.table }),
{
    QueryAnswer::GetTable { table: deps.table.clone() }
}

/// How the last settled round ended.
pub fn get_last_score(deps: &GameStorage) -> (answer: QueryAnswer)
    ensures
        answer@ == (AnswerView::GetLastScore { last_score: deps@.scores }),
{
    QueryAnswer::GetLastScore { last_score: deps.scores.clone() }
}

/// Answers a reading request. The answer is a function of the stored state
/// and the request; the state is not touched, so the same request gets the
/// same answer until a changing request succeeds.
pub fn query(deps: &GameStorage, msg: QueryMsg) -> (answer: QueryAnswer)
    requires
        deps.wf(),
    ensures
        answer@ == deps@.answer(msg),
{
    match msg {
        QueryMsg::GetUserBalance { address } => get_user_balance(deps, &address),
        QueryMsg::GetTable {  } => get_table_data(deps),
        QueryMsg::GetLastScore {  } => get_last_score(deps),
    }
}

} // verus!
