//! What holds of the table's rules whatever the state.

use crate::cards::{Card, Value};
use crate::chain::{Coin, InstructionView};
use crate::error::ContractError;
use crate::game::model::{
    any_holding, dealer_result, lemma_dealer_draws, next_waiting, plays, seat_result, stepped,
    KICK_AFTER,
};
use crate::game::msg::{
    has_ace, raw_total, GameState, HandView, HandleMsg, PlayerState, PlayerView, TableView,
};
use crate::game::state::StorageView;
use vstd::prelude::*;

verus! {

/// How far the settlement has come after the first `n` seats: each of them
/// that plays has its result, computed from the stake it had before the
/// settlement, holds no stake any more and is back to not playing; every
/// other seat, and every other stake of a seated player, is as before.
proof fn lemma_settled(s: StorageView, d: int, n: int)
    requires
        s.parts_wf(),
        0 <= n <= 6,
    ensures
        ({
            let a = s.settled(d, n);
            &&& a.table.players.len() == 6
            &&& a.scores.players.len() == 6
            &&& a.scores.dealer == s.scores.dealer
            &&& forall|i: int|
                #![trigger s.table.players[i]]
                0 <= i < 6 ==> {
                    let p = s.table.players[i];
                    &&& i < n && plays(p) ==> {
                        &&& a.scores.players[i] == Some(seat_result(p, s.balances[p.address], d))
                        &&& a.balances[p.address] == 0
                        &&& a.table.players[i] == (PlayerView {
                            state: PlayerState::NotPlaying,
                            ..p
                        })
                    }
                    &&& !(i < n && plays(p)) ==> {
                        &&& a.scores.players[i] == s.scores.players[i]
                        &&& a.table.players[i] == p
                        &&& p.occupied() ==> a.balances[p.address] == s.balances[p.address]
                    }
                }
        }),
    decreases n,
{
    if n > 0 {
        lemma_settled(s, d, n - 1);
        let b = s.settled(d, n - 1);
        let a = b.seat_settled(n - 1, d);
        assert(a == s.settled(d, n));
        let q = s.table.players[n - 1];
        assert(b.table.players[n - 1] == q);
        assert forall|i: int| #![trigger s.table.players[i]] 0 <= i < 6 implies ({
            let p = s.table.players[i];
            &&& i < n && plays(p) ==> {
                &&& a.scores.players[i] == Some(seat_result(p, s.balances[p.address], d))
                &&& a.balances[p.address] == 0
                &&& a.table.players[i] == (PlayerView { state: PlayerState::NotPlaying, ..p })
            }
            &&& !(i < n && plays(p)) ==> {
                &&& a.scores.players[i] == s.scores.players[i]
                &&& a.table.players[i] == p
                &&& p.occupied() ==> a.balances[p.address] == s.balances[p.address]
            }
        }) by {
            let p = s.table.players[i];
            if plays(q) && i != n - 1 && p.occupied() {
                assert(s.table.players[n - 1].address != s.table.players[i].address);
            }
        }
    }
}

/// The settlement, seat by seat. Against a dealer's hand that is there, the
/// round is settled; the dealer's slot records the dealer's score; every
/// occupied seat that has bid gets the result of its own cards and its own
/// stake against the dealer, holds no stake afterwards and is back to not
/// playing; every other seat is left as it was, with an empty slot.
pub proof fn settlement_by_seat(s: StorageView, seat: int)
    requires
        s.parts_wf(),
        s.table.dealer_hand is Some,
        0 <= seat < 6,
    ensures
        s.rounded_up() is Ok,
        ({
            let d = s.table.dealer_hand->0.score();
            let after = s.rounded_up()->Ok_0;
            let p = s.table.players[seat];
            &&& after.scores.dealer == dealer_result(d)
            &&& plays(p) ==> {
                &&& after.scores.players[seat] == Some(seat_result(p, s.balances[p.address], d))
                &&& after.balances[p.address] == 0
                &&& after.table.players[seat] == (PlayerView {
                    state: PlayerState::NotPlaying,
                    ..p
                })
            }
            &&& !plays(p) ==> {
                &&& after.scores.players[seat] is None
                &&& after.table.players[seat] == p
            }
        }),
{
    let d = s.table.dealer_hand->0.score();
    let opened = s.results_opened(d);
    lemma_settled(opened, d, 6);
    assert(opened.table.players[seat] == s.table.players[seat]);
}

/// A winner with exactly 21 is paid five quarters of the stake, rounded
/// down; any other winner is paid the stake; a loser is paid nothing.
pub proof fn reward_by_score(p: PlayerView, stake: u128, dealer_score: int)
    ensures
        ({
            let r = seat_result(p, stake, dealer_score);
            &&& r.won == (p.score() <= 21 && (p.score() > dealer_score || dealer_score > 21))
            &&& r.won && p.score() == 21 ==> r.reward == (stake * 125 / 100) as u128
            &&& r.won && p.score() != 21 ==> r.reward == stake
            &&& !r.won ==> r.reward == 0
        }),
{
}

/// What leaving a seat comes to. Where `who` occupies `seat`, emptying the
/// seat and moving the turn on can fail for two reasons only, both in what
/// follows: the dealer's play runs out of cards, or the round counter cannot
/// go up. In every other case the seat is empty afterwards, one seat fewer is
/// occupied, the table holds no stake for `who`, the turn is no longer that
/// seat's, and the dealer's phase is over.
pub proof fn leaving_empties_the_seat(
    s: StorageView,
    who: Seq<char>,
    seat: u8,
    prev: GameState,
    now: u64,
    from: Seq<char>,
)
    requires
        s.parts_wf(),
        seat < 6,
        s.table.players[seat as int].occupied(),
        s.table.players[seat as int].address == who,
        prev is PlayerTurn,
    ensures
        match s.leave(who, seat, prev, now, from) {
            Ok((next, msgs)) => {
                &&& !next.table.players[seat as int].occupied()
                &&& next.table.players_count == s.table.players_count - 1
                &&& next.balances[who] == 0
                &&& !(next.table.state matches GameState::PlayerTurn { player_seat, .. }
                    && player_seat == seat)
                &&& !(next.table.state is DealerTurn)
            },
            Err(e) => e == ContractError::DeckExhausted || e == ContractError::RoundSecretExhausted,
        },
{
    let left = s.player_removed(who, seat)->Ok_0;
    assert(s.player_removed(who, seat) is Ok);
    assert(!left.table.players[seat as int].occupied());
    assert(left.table.players.len() == 6);
    assert(left.balances[who] == 0);
    lemma_new_round_keeps_seats(left, now);
    crate::game::contract::lemma_next_waiting(left.table.players, seat + 1);
    match left.advance(seat, now, true) {
        Err(e) => {},
        Ok(moved) => {
            assert(moved.table.players == left.table.players || left.new_round(now) == Ok::<
                StorageView,
                ContractError,
            >(moved));
            if moved.table.state is DealerTurn {
                assert(moved.table.players == left.table.players);
                match moved.dealer_played() {
                    Err(e) => {},
                    Ok(played) => {
                        assert(played.table.dealer_hand is Some);
                        let d = played.table.dealer_hand->0.score();
                        let opened = played.results_opened(d);
                        lemma_settle_keeps_seats(opened, d, 6, who);
                        let settled = played.rounded_up()->Ok_0;
                        lemma_new_round_keeps_seats(settled, now);
                    },
                }
            }
        },
    }
}

/// Removing an idle player. Where it is the turn of `seat`, that turn has
/// lasted `KICK_AFTER` seconds or more, and `target` is the occupant, the
/// removal succeeds and moves the turn on, unless the dealer's play that
/// follows runs out of cards or the round counter cannot go up.
pub proof fn kick_after_idle_time(
    s: StorageView,
    target: Seq<char>,
    seat: u8,
    now: u64,
    from: Seq<char>,
)
    requires
        s.wf(),
        s.table.state matches GameState::PlayerTurn { player_seat, turn_start_time, .. }
            && player_seat == seat && now - turn_start_time >= KICK_AFTER,
        s.table.players[seat as int].address == target,
    ensures
        match s.kick(target, seat, now, from) {
            Ok((next, msgs)) => {
                &&& !next.table.players[seat as int].occupied()
                &&& next.table.players_count == s.table.players_count - 1
                &&& next.balances[target] == 0
                &&& !(next.table.state matches GameState::PlayerTurn { player_seat, .. }
                    && player_seat == seat)
            },
            Err(e) => e == ContractError::DeckExhausted || e == ContractError::RoundSecretExhausted,
        },
{
    leaving_empties_the_seat(s, target, seat, s.table.state, now, from);
}

/// Leaving the table. Where `sender` occupies `seat` and has not bid in
/// this round, leaving succeeds, empties the seat and leaves no stake of
/// `sender` behind, unless the dealer's play that follows runs out of cards
/// or the round counter cannot go up.
pub proof fn stand_before_the_bid(
    s: StorageView,
    sender: Seq<char>,
    seat: u8,
    now: u64,
    from: Seq<char>,
)
    requires
        s.wf(),
        seat < 6,
        s.table.players[seat as int].waiting(),
        s.table.players[seat as int].address == sender,
    ensures
        match s.stand(sender, seat, now, from) {
            Ok((next, msgs)) => {
                &&& !next.table.players[seat as int].occupied()
                &&& next.table.players_count == s.table.players_count - 1
                &&& next.balances[sender] == 0
            },
            Err(e) => e == ContractError::DeckExhausted || e == ContractError::RoundSecretExhausted,
        },
{
    leaving_empties_the_seat(
        s,
        sender,
        seat,
        GameState::PlayerTurn { player_seat: seat, is_first: true, turn_start_time: 0 },
        now,
        from,
    );
}

/// The settlement empties no seat and fills none, and gives nobody a
/// stake who had none.
proof fn lemma_settle_keeps_seats(s: StorageView, d: int, n: int, who: Seq<char>)
    requires
        s.table.players.len() == 6,
        0 <= n <= 6,
    ensures
        s.settled(d, n).table.players.len() == 6,
        s.settled(d, n).table.players_count == s.table.players_count,
        forall|i: int|
            0 <= i < 6 ==> (#[trigger] s.settled(d, n).table.players[i]).address
                == s.table.players[i].address,
        s.balances[who] == 0 ==> s.settled(d, n).balances[who] == 0,
    decreases n,
{
    if n > 0 {
        lemma_settle_keeps_seats(s, d, n - 1, who);
    }
}

/// A new round empties no seat and fills none, and gives the turn to an
/// occupied seat if to any.
proof fn lemma_new_round_keeps_seats(s: StorageView, now: u64)
    requires
        s.table.players.len() == 6,
    ensures
        match s.new_round(now) {
            Ok(next) => {
                &&& next.table.players.len() == 6
                &&& next.table.players_count == s.table.players_count
                &&& next.balances == s.balances
                &&& forall|i: int|
                    0 <= i < 6 ==> (#[trigger] next.table.players[i]).address
                        == s.table.players[i].address
                &&& !(next.table.state is DealerTurn)
                &&& next.table.state matches GameState::PlayerTurn { player_seat, .. }
                    ==> player_seat < 6 && next.table.players[player_seat as int].occupied()
            },
            Err(e) => e == ContractError::RoundSecretExhausted,
        },
{
    crate::game::contract::lemma_next_waiting(s.hands_cleared().table.players, 0);
}

/// Whether the deck and the round counter have only moved forward from
/// `s` to `next`: either the cards and the counter are the same and the
/// cursor has not gone back, or one new round has started, with the counter
/// up by one, the cursor at the first card, and a seat to act.
pub open spec fn moved_forward(s: StorageView, next: StorageView) -> bool {
    ||| next.secret == s.secret && next.deck.deck == s.deck.deck && next.deck.next_free_card
        >= s.deck.next_free_card
    ||| next.secret == s.secret + 1 && next.deck.next_free_card == 0
        && next.table.state is PlayerTurn
}

/// The deck and the round counter only move forward: no request that
/// succeeds moves the cursor back within a round or the counter down, and a
/// new round moves the counter up by exactly one.
pub proof fn deck_and_counter_move_forward(
    s: StorageView,
    sender: Seq<char>,
    funds: Seq<Coin>,
    now: u64,
    from: Seq<char>,
    msg: HandleMsg,
    bank_balance: u128,
)
    requires
        s.wf(),
    ensures
        s.handle(sender, funds, now, from, msg, bank_balance) matches Ok((next, msgs))
            ==> moved_forward(s, next),
{
    match msg {
        HandleMsg::Hold { seat } => lemma_hold_moves_forward(s, sender, seat, now, from),
        HandleMsg::Bid { amount, seat } => lemma_bid_moves_forward(
            s,
            sender,
            funds,
            seat,
            amount,
            bank_balance,
            now,
        ),
        HandleMsg::Sit { secret, seat } => lemma_sit_moves_forward(s, sender, seat, secret, now),
        HandleMsg::Stand { seat } => lemma_stand_moves_forward(s, sender, seat, now, from),
        HandleMsg::Kick { target, seat } => lemma_kick_moves_forward(s, target@, seat, now, from),
        HandleMsg::Hit { seat } => lemma_hit_moves_forward(s, sender, seat),
    }
}

proof fn lemma_hold_moves_forward(
    s: StorageView,
    sender: Seq<char>,
    seat: u8,
    now: u64,
    from: Seq<char>,
)
    requires
        s.wf(),
    ensures
        s.hold(sender, seat, now, from) matches Ok((next, msgs)) ==> moved_forward(s, next),
{
    if s.hold(sender, seat, now, from) is Ok {
        let p = s.table.players[seat as int];
        let held = StorageView {
            table: s.table.with_player(seat as int, stepped(p, PlayerState::Hold)),
            ..s
        };
        lemma_leaving_moves_forward(held, seat, s.table.state, now, from, false);
    }
}

proof fn lemma_bid_moves_forward(
    s: StorageView,
    sender: Seq<char>,
    funds: Seq<Coin>,
    seat: u8,
    amount: u128,
    bank_balance: u128,
    now: u64,
)
    requires
        s.wf(),
    ensures
        s.bid(sender, funds, seat, amount, bank_balance, now) matches Ok(next) ==> moved_forward(
            s,
            next,
        ),
{
}

proof fn lemma_sit_moves_forward(s: StorageView, sender: Seq<char>, seat: u8, secret: u64, now: u64)
    requires
        s.wf(),
    ensures
        s.sit(sender, seat, secret, now) matches Ok(next) ==> moved_forward(s, next),
{
    if s.player_added(sender, seat, secret) is Ok {
        lemma_new_round_moves_forward(s.player_added(sender, seat, secret)->Ok_0, now);
    }
}

proof fn lemma_stand_moves_forward(
    s: StorageView,
    sender: Seq<char>,
    seat: u8,
    now: u64,
    from: Seq<char>,
)
    requires
        s.wf(),
    ensures
        s.stand(sender, seat, now, from) matches Ok((next, msgs)) ==> moved_forward(s, next),
{
    if s.player_removed(sender, seat) is Ok {
        lemma_leaving_moves_forward(
            s.player_removed(sender, seat)->Ok_0,
            seat,
            GameState::PlayerTurn { player_seat: seat, is_first: true, turn_start_time: 0 },
            now,
            from,
            true,
        );
    }
}

proof fn lemma_kick_moves_forward(
    s: StorageView,
    target: Seq<char>,
    seat: u8,
    now: u64,
    from: Seq<char>,
)
    requires
        s.wf(),
    ensures
        s.kick(target, seat, now, from) matches Ok((next, msgs)) ==> moved_forward(s, next),
{
    if s.player_removed(target, seat) is Ok && s.table.state is PlayerTurn {
        lemma_leaving_moves_forward(
            s.player_removed(target, seat)->Ok_0,
            seat,
            s.table.state,
            now,
            from,
            true,
        );
    }
}

proof fn lemma_hit_moves_forward(s: StorageView, sender: Seq<char>, seat: u8)
    requires
        s.wf(),
    ensures
        s.hit(sender, seat) matches Ok(next) ==> moved_forward(s, next),
{
}

/// A new round keeps the deck and the counter where the table comes to
/// rest, and otherwise moves the counter up by one and lays out a deck.
proof fn lemma_new_round_moves_forward(s: StorageView, now: u64)
    requires
        s.deck.wf(),
    ensures
        s.new_round(now) matches Ok(next) ==> moved_forward(s, next),
{
}

/// Moving the turn on, with what follows the change of phase, keeps the
/// deck and the counter or starts exactly one new round.
proof fn lemma_leaving_moves_forward(
    s: StorageView,
    seat: u8,
    prev: GameState,
    now: u64,
    from: Seq<char>,
    restart: bool,
)
    requires
        s.deck.wf(),
        prev is PlayerTurn,
    ensures
        s.advance(seat, now, restart) matches Ok(moved) ==> (moved.phase_outcome(prev, now, from)
            matches Ok((next, msgs)) ==> moved_forward(s, next)),
{
    lemma_new_round_moves_forward(s, now);
    match s.advance(seat, now, restart) {
        Ok(moved) => {
            if moved.table.state is DealerTurn {
                assert(moved.deck == s.deck && moved.secret == s.secret);
                match moved.dealer_played() {
                    Ok(played) => {
                        lemma_dealer_draws(moved.dealer_start(), moved.deck, 0);
                        if played.rounded_up() is Ok {
                            let d = played.table.dealer_hand->0.score();
                            lemma_settle_keeps_deck(played.results_opened(d), d, 6);
                            lemma_new_round_moves_forward(played.rounded_up()->Ok_0, now);
                        }
                    },
                    Err(e) => {},
                }
            }
        },
        Err(e) => {},
    }
}

/// The settlement touches neither the deck nor the round counter.
proof fn lemma_settle_keeps_deck(s: StorageView, d: int, n: int)
    requires
        0 <= n <= 6,
    ensures
        s.settled(d, n).deck == s.deck,
        s.settled(d, n).secret == s.secret,
    decreases n,
{
    if n > 0 {
        lemma_settle_keeps_deck(s, d, n - 1);
    }
}

/// The score reached by going through the cards one ace at a time: from a
/// running total, each ace in turn counts ten more if that keeps the running
/// total at 21 or below.
pub open spec fn ace_by_ace(cards: Seq<Card>, running: int) -> int
    decreases cards.len(),
{
    if cards.len() == 0 {
        running
    } else if cards[0].value == Value::Ace && running + 10 <= 21 {
        ace_by_ace(cards.drop_first(), running + 10)
    } else {
        ace_by_ace(cards.drop_first(), running)
    }
}

/// From twelve on, no ace can count for more.
proof fn lemma_no_ace_fits(cards: Seq<Card>, running: int)
    requires
        running >= 12,
    ensures
        ace_by_ace(cards, running) == running,
    decreases cards.len(),
{
    if cards.len() > 0 {
        lemma_no_ace_fits(cards.drop_first(), running);
    }
}

/// Without an ace the running total stays.
proof fn lemma_no_ace_there(cards: Seq<Card>, running: int)
    requires
        !has_ace(cards),
    ensures
        ace_by_ace(cards, running) == running,
    decreases cards.len(),
{
    if cards.len() > 0 {
        let rest = cards.drop_first();
        assert(cards[0].value != Value::Ace);
        if has_ace(rest) {
            let i = choose|i: int| 0 <= i < rest.len() && (#[trigger] rest[i]).value == Value::Ace;
            assert(cards[i + 1].value == Value::Ace);
        }
        lemma_no_ace_there(rest, running);
    }
}

/// With an ace and room for it, exactly one ace counts for more.
proof fn lemma_first_ace_fits(cards: Seq<Card>, running: int)
    requires
        has_ace(cards),
        running <= 11,
        running >= 2 || cards.len() == 1,
    ensures
        ace_by_ace(cards, running) == running + 10,
    decreases cards.len(),
{
    let rest = cards.drop_first();
    let i = choose|i: int| 0 <= i < cards.len() && (#[trigger] cards[i]).value == Value::Ace;
    if cards[0].value == Value::Ace {
        if running >= 2 {
            lemma_no_ace_fits(rest, running + 10);
        } else {
            assert(rest.len() == 0);
            assert(ace_by_ace(rest, running + 10) == running + 10);
        }
    } else {
        assert(i >= 1);
        assert(rest[i - 1].value == Value::Ace);
        assert(has_ace(rest));
        lemma_first_ace_fits(rest, running);
    }
}

/// Every card counts at least one.
proof fn lemma_raw_total_counts_cards(cards: Seq<Card>)
    ensures
        raw_total(cards) >= cards.len(),
    decreases cards.len(),
{
    if cards.len() > 0 {
        lemma_raw_total_counts_cards(cards.drop_last());
    }
}

/// Only one ace is ever promoted. The score of a hand that records its raw
/// total is what going through its aces one by one gives, each counting ten
/// more while that keeps the total at 21 or below; a hand over 21 keeps its
/// raw total. A second ace never fits.
pub proof fn only_one_ace_is_promoted(h: HandView)
    requires
        h.wf(),
    ensures
        h.score() == (if h.total_value > 21 {
            h.total_value as int
        } else {
            ace_by_ace(h.cards, h.total_value as int)
        }),
        h.score() == h.total_value || h.score() == h.total_value + 10,
        h.total_value <= 21 ==> h.score() <= 21,
{
    let total = h.total_value as int;
    lemma_raw_total_counts_cards(h.cards);
    if total >= 12 {
        lemma_no_ace_fits(h.cards, total);
    } else if has_ace(h.cards) {
        lemma_first_ace_fits(h.cards, total);
    } else {
        lemma_no_ace_there(h.cards, total);
    }
}

/// Who waits after a seat does not depend on that seat.
proof fn lemma_waiting_after(players: Seq<PlayerView>, seat: int, p: PlayerView, from: int)
    requires
        players.len() == 6,
        0 <= seat < from,
    ensures
        next_waiting(players.update(seat, p), from) == next_waiting(players, from),
    decreases 6 - from,
{
    if from < 6 {
        lemma_waiting_after(players, seat, p, from + 1);
    }
}

/// The hold that ends a round. Where the seat to act has bid, its occupant
/// holds, and no seat after it waits to play, the hold runs the dealer's
/// phase to its end on the table with that seat holding: the dealer plays,
/// the round is settled, and a new round starts. It succeeds, with the
/// instructions of the settlement, exactly when all of that does.
pub proof fn hold_that_ends_the_round(
    s: StorageView,
    sender: Seq<char>,
    seat: u8,
    now: u64,
    from: Seq<char>,
)
    requires
        s.wf(),
        s.table.state matches GameState::PlayerTurn { player_seat, is_first, .. } && player_seat
            == seat && !is_first,
        s.table.players[seat as int].address == sender,
        next_waiting(s.table.players, seat + 1) is None,
    ensures
        ({
            let held = StorageView {
                table: TableView {
                    players: s.table.players.update(
                        seat as int,
                        PlayerView { state: PlayerState::Hold, ..s.table.players[seat as int] },
                    ),
                    state: GameState::DealerTurn,
                    ..s.table
                },
                ..s
            };
            s.hold(sender, seat, now, from) == (match held.round_finished(now) {
                Ok(next) => Ok::<(StorageView, Seq<InstructionView>), ContractError>(
                    (next, held.round_instructions(from)),
                ),
                Err(e) => Err(e),
            })
        }),
{
    let p = s.table.players[seat as int];
    let q = PlayerView { state: PlayerState::Hold, ..p };
    let stood = StorageView { table: s.table.with_player(seat as int, q), ..s };
    assert(stepped(p, PlayerState::Hold) == q);
    lemma_waiting_after(s.table.players, seat as int, q, seat + 1);
    assert(stood.table.players[seat as int].occupied() && stood.table.players[seat as int].state
        == PlayerState::Hold);
    assert(any_holding(stood.table.players));
    assert(stood.advance(seat, now, false) == Ok::<StorageView, ContractError>(
        stood.with_phase(GameState::DealerTurn),
    ));
}

} // verus!
