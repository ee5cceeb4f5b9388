//! The rules of the table as mathematics: what it means for the stored
//! state to be consistent, and what each step of a round makes of it.

use crate::cards::{canonical_deck, seeded_shuffle, Card};
use crate::chain::{funds_hold, Coin, InstructionView};
use crate::error::ContractError;
use crate::game::msg::{
    hand_ok, AnswerView, DeckView, HandleMsg, QueryMsg, GameState, HandView, PlayerState, PlayerView, ResultView, ScoresView, TableView,
};
use crate::game::state::{StorageView, MAX_STAKE};
use vstd::prelude::*;

verus! {

/// The idle time, in seconds, after which the player whose turn it is may be
/// removed by anyone.
pub const KICK_AFTER: u64 = 300;

/// The score from which the dealer stops drawing.
pub const DEALER_STANDS_AT: u8 = 17;

/// One for an occupied seat, nothing for an empty one.
pub open spec fn one_if_occupied(p: PlayerView) -> int {
    if p.occupied() {
        1
    } else {
        0
    }
}

impl TableView {
    /// How many of the six seats are occupied.
    pub open spec fn occupied_count(self) -> int {
        one_if_occupied(self.players[0]) + one_if_occupied(self.players[1]) + one_if_occupied(
            self.players[2],
        ) + one_if_occupied(self.players[3]) + one_if_occupied(self.players[4]) + one_if_occupied(
            self.players[5],
        )
    }

    /// The seats are consistent:
    /// there are six and the table counts the occupied ones;
    /// an empty seat holds nothing and plays nothing;
    /// no identity occupies two seats;
    /// and every hand records the raw total of its cards.
    pub open spec fn seats_wf(self) -> bool {
        &&& self.players.len() == 6
        &&& self.players_count == self.occupied_count()
        &&& forall|s: int|
            0 <= s < 6 && !(#[trigger] self.players[s]).occupied() ==> self.players[s]
                == PlayerView::vacant()
        &&& forall|s: int, t: int|
            0 <= s < 6 && 0 <= t < 6 && s != t && (#[trigger] self.players[s]).occupied()
                ==> self.players[s].address != (#[trigger] self.players[t]).address
        &&& forall|s: int| 0 <= s < 6 ==> hand_ok((#[trigger] self.players[s]).hand)
        &&& hand_ok(self.dealer_hand)
    }

    /// The phase fits the seats:
    /// while nobody is to act, no occupant is waiting to play;
    /// the seat that is to act is occupied, has not played before its bid,
    /// and after it holds cards and is still playing;
    /// and the dealer's phase never outlasts the call that entered it.
    pub open spec fn phase_wf(self) -> bool {
        match self.state {
            GameState::NoPlayers => forall|s: int|
                0 <= s < 6 ==> !(#[trigger] self.players[s]).waiting(),
            GameState::DealerTurn => false,
            GameState::PlayerTurn { player_seat, is_first, turn_start_time } => {
                &&& player_seat < 6
                &&& self.players[player_seat as int].occupied()
                &&& is_first ==> self.players[player_seat as int].state == PlayerState::NotPlaying
                &&& !is_first ==> {
                    &&& self.players[player_seat as int].state == PlayerState::Bid
                        || self.players[player_seat as int].state == PlayerState::Hit
                    &&& self.players[player_seat as int].hand is Some
                }
            },
        }
    }

    /// The table is consistent, as it is between calls: the seats are, and
    /// the phase fits them.
    pub open spec fn wf(self) -> bool {
        self.seats_wf() && self.phase_wf()
    }

    /// The table with the seat `seat` replaced.
    pub open spec fn with_player(self, seat: int, player: PlayerView) -> TableView {
        TableView { players: self.players.update(seat, player), ..self }
    }
}

/// The first seat that holds `who`, if one does.
pub open spec fn seat_of(players: Seq<PlayerView>, who: Seq<char>, from: int) -> Option<int>
    decreases 6 - from,
{
    if from < 0 || from >= 6 {
        None
    } else if players[from].address == who {
        Some(from)
    } else {
        seat_of(players, who, from + 1)
    }
}

/// The first seat at or after `from` whose occupant waits to play.
pub open spec fn next_waiting(players: Seq<PlayerView>, from: int) -> Option<int>
    decreases 6 - from,
{
    if from < 0 || from >= 6 {
        None
    } else if players[from].waiting() {
        Some(from)
    } else {
        next_waiting(players, from + 1)
    }
}

/// Whether some occupant has held in this round.
pub open spec fn any_holding(players: Seq<PlayerView>) -> bool {
    exists|s: int|
        0 <= s < 6 && (#[trigger] players[s]).occupied() && players[s].state == PlayerState::Hold
}

/// The seats with every hand taken away.
pub open spec fn clear_hands(players: Seq<PlayerView>) -> Seq<PlayerView> {
    Seq::new(players.len(), |i: int| PlayerView { hand: None, ..players[i] })
}

/// The eight bytes of `x`, most significant first.
pub open spec fn be_bytes(x: u64) -> Seq<u8> {
    seq![
        (x / 0x100_0000_0000_0000) as u8,
        ((x / 0x1_0000_0000_0000) % 256) as u8,
        ((x / 0x100_0000_0000) % 256) as u8,
        ((x / 0x1_0000_0000) % 256) as u8,
        ((x / 0x100_0000) % 256) as u8,
        ((x / 0x1_0000) % 256) as u8,
        ((x / 0x100) % 256) as u8,
        (x % 256) as u8,
    ]
}

/// The bytes of the secrets of the occupied seats among the first `upto`,
/// in seat order. Empty seats give nothing.
pub open spec fn seat_secret_bytes(players: Seq<PlayerView>, secrets: Seq<u64>, upto: int) -> Seq<
    u8,
>
    decreases upto,
{
    if upto <= 0 {
        Seq::empty()
    } else {
        seat_secret_bytes(players, secrets, upto - 1) + (if players[upto - 1].occupied() {
            be_bytes(secrets[upto - 1])
        } else {
            Seq::empty()
        })
    }
}

/// What is hashed into a shuffle's seed: the round counter, then the secret
/// of every occupied seat.
pub open spec fn seed_bytes(secret: u64, players: Seq<PlayerView>, secrets: Seq<u64>) -> Seq<u8> {
    be_bytes(secret) + seat_secret_bytes(players, secrets, 6)
}

/// The hand after the next `n` cards of the deck have been dealt into it.
pub open spec fn hand_after(hand: HandView, deck: DeckView, n: int) -> HandView
    decreases n,
{
    if n <= 0 {
        hand
    } else {
        hand_after(hand, deck, n - 1).with_card(deck.deck[deck.next_free_card + n - 1])
    }
}

/// The cards of a hand after `n` draws are its cards before, followed by the
/// next `n` cards of the deck in their order.
pub proof fn lemma_hand_after_cards(hand: HandView, deck: DeckView, n: int)
    requires
        0 <= n <= deck.remaining(),
        deck.wf(),
    ensures
        hand_after(hand, deck, n).cards == hand.cards + deck.deck.subrange(
            deck.next_free_card as int,
            deck.next_free_card + n,
        ),
    decreases n,
{
    let c = deck.next_free_card as int;
    if n > 0 {
        lemma_hand_after_cards(hand, deck, n - 1);
        assert(hand_after(hand, deck, n).cards =~= hand.cards + deck.deck.subrange(c, c + n));
    } else {
        assert(hand.cards =~= hand.cards + deck.deck.subrange(c, c));
    }
}

/// The number of cards that a dealer who has drawn `n` cards without
/// reaching 17 ends up drawing: the first number from `n` on with which the
/// hand scores 17 or more, if the deck lasts that long.
pub open spec fn dealer_draws(hand: HandView, deck: DeckView, n: int) -> Option<int>
    decreases deck.remaining() - n,
{
    if n < 0 {
        None
    } else if hand_after(hand, deck, n).score() >= DEALER_STANDS_AT {
        Some(n)
    } else if n >= deck.remaining() {
        None
    } else {
        dealer_draws(hand, deck, n + 1)
    }
}

/// What the search for the dealer's last card finds. The number found is the
/// first from `from` on with which the hand scores 17 or more; where none is
/// found, the hand stays under 17 to the end of the deck.
pub proof fn lemma_dealer_draws(hand: HandView, deck: DeckView, from: int)
    requires
        0 <= from,
    ensures
        match dealer_draws(hand, deck, from) {
            Some(n) => {
                &&& from <= n
                &&& n <= deck.remaining() || n == from
                &&& hand_after(hand, deck, n).score() >= DEALER_STANDS_AT
                &&& forall|k: int|
                    from <= k < n ==> (#[trigger] hand_after(hand, deck, k)).score()
                        < DEALER_STANDS_AT
            },
            None => forall|k: int|
                from <= k <= deck.remaining() ==> (#[trigger] hand_after(hand, deck, k)).score()
                    < DEALER_STANDS_AT,
        },
    decreases deck.remaining() - from,
{
    if hand_after(hand, deck, from).score() < DEALER_STANDS_AT && from < deck.remaining() {
        lemma_dealer_draws(hand, deck, from + 1);
    }
}

/// A player draws one card: a player without a hand cannot, nor one whose
/// raw total is 21 or more, nor anyone from a deck without undealt cards.
pub open spec fn player_hit(p: PlayerView, deck: DeckView) -> Result<
    (PlayerView, DeckView),
    ContractError,
> {
    match p.hand {
        None => Err(ContractError::MissingHand),
        Some(h) => if h.total_value >= 21 {
            Err(ContractError::CannotHit { total: h.total_value })
        } else if deck.remaining() <= 0 {
            Err(ContractError::DeckExhausted)
        } else {
            Ok(
                (
                    PlayerView {
                        hand: Some(h.with_card(deck.deck[deck.next_free_card as int])),
                        ..p
                    },
                    deck.advanced(1),
                ),
            )
        },
    }
}

/// What a player's step from `prev` to `next` does to the cards: the bid
/// deals two cards into a new hand, a hit one more, holding none. The rules
/// have no other step.
pub open spec fn player_state_changed(
    p: PlayerView,
    deck: DeckView,
    prev: PlayerState,
    next: PlayerState,
) -> Result<(PlayerView, DeckView), ContractError> {
    match (prev, next) {
        (PlayerState::NotPlaying, PlayerState::Bid) => if deck.remaining() < 2 {
            Err(ContractError::DeckExhausted)
        } else {
            Ok(
                (
                    PlayerView { hand: Some(hand_after(HandView::empty(), deck, 2)), ..p },
                    deck.advanced(2),
                ),
            )
        },
        (PlayerState::Bid, PlayerState::Hit) => player_hit(p, deck),
        (PlayerState::Hit, PlayerState::Hit) => player_hit(p, deck),
        (PlayerState::Bid, PlayerState::Hold) => Ok((p, deck)),
        (PlayerState::Hit, PlayerState::Hold) => Ok((p, deck)),
        _ => Err(ContractError::UnexpectedTransition),
    }
}

/// Whether a player with `player_score` beats a dealer with `dealer_score`.
pub open spec fn wins(player_score: int, dealer_score: int) -> bool {
    player_score <= 21 && (player_score > dealer_score || dealer_score > 21)
}

/// What the pool pays a winner who staked `stake`: the stake, and a quarter
/// more when the score is exactly 21.
pub open spec fn payout(stake: u128, player_score: int) -> int {
    if player_score == 21 {
        stake * 125 / 100
    } else {
        stake as int
    }
}

/// The largest bid that a pool reporting `bank_balance` admits: what it
/// could pay if all six seats staked that much and won with the bonus,
/// a hundredth of the balance for every 125 hundredths paid, six times over.
pub open spec fn max_bid_allowed(bank_balance: u128) -> int {
    bank_balance * 100 / 750
}

/// Whether the seat takes part in the settlement: it is occupied and has
/// bid in this round.
pub open spec fn plays(p: PlayerView) -> bool {
    p.occupied() && p.state != PlayerState::NotPlaying
}

/// How the round ends for a seat with `stake` against a dealer with
/// `dealer_score`.
pub open spec fn seat_result(p: PlayerView, stake: u128, dealer_score: int) -> ResultView {
    let won = wins(p.score(), dealer_score);
    ResultView {
        address: p.address,
        won,
        score: p.score() as u8,
        reward: if won {
            payout(stake, p.score()) as u128
        } else {
            0
        },
    }
}

/// The slot of the dealer in the results of a round.
pub open spec fn dealer_result(dealer_score: int) -> ResultView {
    ResultView { address: Seq::empty(), won: false, score: dealer_score as u8, reward: 0 }
}

impl StorageView {
    /// The parts are consistent, whatever the phase: the seats and the deck
    /// are, every identity has a stake, and no stake is beyond `MAX_STAKE`.
    pub open spec fn parts_wf(self) -> bool {
        &&& self.table.seats_wf()
        &&& self.deck.wf()
        &&& self.player_secrets.len() == 6
        &&& self.scores.players.len() == 6
        &&& forall|who: Seq<char>| self.balances.dom().contains(who)
        &&& forall|who: Seq<char>| #[trigger] self.balances[who] <= MAX_STAKE
    }

    /// `address` takes the empty seat `seat` and leaves `secret` there.
    pub open spec fn player_added(self, address: Seq<char>, seat: u8, secret: u64) -> Result<
        StorageView,
        ContractError,
    > {
        if seat >= 6 {
            Err(ContractError::NoSuchSeat)
        } else if seat_of(self.table.players, address, 0) is Some {
            Err(ContractError::AlreadySeated)
        } else if self.table.players[seat as int].occupied() {
            Err(ContractError::SeatTaken { seat })
        } else {
            Ok(
                StorageView {
                    table: TableView {
                        players_count: (self.table.players_count + 1) as u8,
                        players: self.table.players.update(
                            seat as int,
                            PlayerView { address, ..self.table.players[seat as int] },
                        ),
                        ..self.table
                    },
                    player_secrets: self.player_secrets.update(seat as int, secret),
                    ..self
                },
            )
        }
    }

    /// `address` leaves the seat `seat`: the seat is emptied, its secret
    /// forgotten, and the stake of `address` set to zero.
    pub open spec fn player_removed(self, address: Seq<char>, seat: u8) -> Result<
        StorageView,
        ContractError,
    > {
        if seat >= 6 {
            Err(ContractError::NoSuchSeat)
        } else if self.table.players[seat as int].address != address {
            Err(ContractError::WrongAddress)
        } else if !self.table.players[seat as int].occupied() {
            Err(ContractError::SeatEmpty { seat })
        } else {
            Ok(
                StorageView {
                    table: TableView {
                        players_count: (self.table.players_count - 1) as u8,
                        players: self.table.players.update(seat as int, PlayerView::vacant()),
                        ..self.table
                    },
                    player_secrets: self.player_secrets.update(seat as int, 0),
                    balances: self.balances.insert(address, 0),
                    ..self
                },
            )
        }
    }

    /// The state with another phase.
    pub open spec fn with_phase(self, phase: GameState) -> StorageView {
        StorageView { table: TableView { state: phase, ..self.table }, ..self }
    }

    /// The bytes that the next shuffle's seed is the digest of.
    pub open spec fn seed_input(self) -> Seq<u8> {
        seed_bytes(self.secret, self.table.players, self.player_secrets)
    }

    /// The state once `seat` has been given the turn of a new round that is
    /// dealt from `deck`.
    pub open spec fn round_begun(self, seat: u8, now: u64, deck: Seq<Card>) -> StorageView {
        StorageView {
            table: TableView {
                state: GameState::PlayerTurn {
                    player_seat: seat,
                    is_first: true,
                    turn_start_time: now,
                },
                ..self.table
            },
            secret: (self.secret + 1) as u64,
            deck: DeckView { deck, next_free_card: 0 },
            ..self
        }
    }

    /// The state with all hands taken from the seats.
    pub open spec fn hands_cleared(self) -> StorageView {
        StorageView {
            table: TableView { players: clear_hands(self.table.players), ..self.table },
            ..self
        }
    }

    /// A new round: all hands are cleared; the first waiting seat gets the
    /// turn, the round counter goes up by one and a deck shuffled with
    /// `seed` is laid out; without a waiting seat the table rests and the
    /// dealer's hand is cleared too.
    pub open spec fn new_round_with(self, now: u64, seed: Seq<u8>) -> Result<
        StorageView,
        ContractError,
    > {
        let cleared = self.hands_cleared();
        match next_waiting(cleared.table.players, 0) {
            Some(seat) => if self.secret == u64::MAX {
                Err(ContractError::RoundSecretExhausted)
            } else {
                Ok(cleared.round_begun(seat as u8, now, seeded_shuffle(seed, canonical_deck())))
            },
            None => Ok(
                StorageView {
                    table: TableView {
                        dealer_hand: None,
                        state: GameState::NoPlayers,
                        ..cleared.table
                    },
                    ..cleared
                },
            ),
        }
    }

    /// A new round, its deck shuffled with the digest of the round counter
    /// and the seated players' secrets.
    pub open spec fn new_round(self, now: u64) -> Result<StorageView, ContractError> {
        self.new_round_with(now, crate::game::contract::sha256_digest(self.seed_input()))
    }

    /// The turn moves on from `seat`: to the first waiting seat after it;
    /// without one, to the dealer if anybody has held; otherwise a new round
    /// starts if `restart` asks for it, and nothing changes if not.
    pub open spec fn advance(self, seat: u8, now: u64, restart: bool) -> Result<
        StorageView,
        ContractError,
    > {
        match next_waiting(self.table.players, seat + 1) {
            Some(n) => Ok(
                self.with_phase(
                    GameState::PlayerTurn {
                        player_seat: n as u8,
                        is_first: true,
                        turn_start_time: now,
                    },
                ),
            ),
            None => if any_holding(self.table.players) {
                Ok(self.with_phase(GameState::DealerTurn))
            } else if restart {
                self.new_round(now)
            } else {
                Ok(self)
            },
        }
    }

    /// The hand that the dealer plays on from: the hand on the table, and an
    /// empty one where the table has none.
    pub open spec fn dealer_start(self) -> HandView {
        match self.table.dealer_hand {
            Some(h) => h,
            None => HandView::empty(),
        }
    }

    /// The dealer plays: on from the hand on the table, one card at a time,
    /// until the hand scores 17 or more. A deck that ends before that gives
    /// `DeckExhausted`.
    pub open spec fn dealer_played(self) -> Result<StorageView, ContractError> {
        match dealer_draws(self.dealer_start(), self.deck, 0) {
            Some(n) => Ok(
                StorageView {
                    table: TableView {
                        dealer_hand: Some(hand_after(self.dealer_start(), self.deck, n)),
                        ..self.table
                    },
                    deck: self.deck.advanced(n),
                    ..self
                },
            ),
            None => Err(ContractError::DeckExhausted),
        }
    }

    /// What the settlement of one seat tells the world outside: a winner is
    /// paid from the pool and gets the stake back from the table; a loser's
    /// stake goes from the table to the pool.
    pub open spec fn seat_instructions(self, seat: int, from: Seq<char>, dealer_score: int) -> Seq<
        InstructionView,
    > {
        let p = self.table.players[seat];
        let stake = self.balances[p.address];
        if !plays(p) {
            Seq::empty()
        } else if wins(p.score(), dealer_score) {
            seq![
                InstructionView::PayToWinner {
                    contract_addr: self.bank_address,
                    callback_code_hash: self.bank_code_hash,
                    amount: payout(stake, p.score()) as u128,
                    to: p.address,
                },
                InstructionView::Send { from_address: from, to_address: p.address, amount: stake },
            ]
        } else {
            seq![
                InstructionView::Send {
                    from_address: from,
                    to_address: self.bank_address,
                    amount: stake,
                },
            ]
        }
    }

    /// The settlement of one seat: a seat that plays gets its result
    /// recorded, its stake set to zero, and is back to not playing. Other
    /// seats are left alone.
    pub open spec fn seat_settled(self, seat: int, dealer_score: int) -> StorageView {
        let p = self.table.players[seat];
        if plays(p) {
            StorageView {
                table: self.table.with_player(
                    seat,
                    PlayerView { state: PlayerState::NotPlaying, ..p },
                ),
                balances: self.balances.insert(p.address, 0),
                scores: ScoresView {
                    players: self.scores.players.update(
                        seat,
                        Some(seat_result(p, self.balances[p.address], dealer_score)),
                    ),
                    ..self.scores
                },
                ..self
            }
        } else {
            self
        }
    }

    /// The state after the first `n` seats have been settled, one after the
    /// other.
    pub open spec fn settled(self, dealer_score: int, n: int) -> StorageView
        decreases n,
    {
        if n <= 0 {
            self
        } else {
            self.settled(dealer_score, n - 1).seat_settled(n - 1, dealer_score)
        }
    }

    /// The instructions that settling the first `n` seats gives, in seat
    /// order.
    pub open spec fn settlement_instructions(self, from: Seq<char>, dealer_score: int, n: int) -> Seq<
        InstructionView,
    >
        decreases n,
    {
        if n <= 0 {
            Seq::empty()
        } else {
            self.settlement_instructions(from, dealer_score, n - 1) + self.settled(
                dealer_score,
                n - 1,
            ).seat_instructions(n - 1, from, dealer_score)
        }
    }

    /// The state with the results of the last round wiped and the dealer's
    /// score recorded.
    pub open spec fn results_opened(self, dealer_score: int) -> StorageView {
        StorageView {
            scores: ScoresView {
                players: Seq::new(6, |i: int| None),
                dealer: dealer_result(dealer_score),
            },
            ..self
        }
    }

    /// The settlement of a round against the dealer's hand.
    pub open spec fn rounded_up(self) -> Result<StorageView, ContractError> {
        match self.table.dealer_hand {
            None => Err(ContractError::MissingHand),
            Some(h) => Ok(self.results_opened(h.score()).settled(h.score(), 6)),
        }
    }

    /// The instructions that the settlement of a round gives.
    pub open spec fn roundup_instructions(self, from: Seq<char>) -> Seq<InstructionView> {
        match self.table.dealer_hand {
            None => Seq::empty(),
            Some(h) => self.results_opened(h.score()).settlement_instructions(from, h.score(), 6),
        }
    }

    /// The dealer's phase from start to end: the dealer plays, the round is
    /// settled, and a new round starts.
    pub open spec fn round_finished(self, now: u64) -> Result<StorageView, ContractError> {
        match self.dealer_played() {
            Err(e) => Err(e),
            Ok(played) => match played.rounded_up() {
                Err(e) => Err(e),
                Ok(settled) => settled.new_round(now),
            },
        }
    }

    /// The instructions that the dealer's phase gives.
    pub open spec fn round_instructions(self, from: Seq<char>) -> Seq<InstructionView> {
        match self.dealer_played() {
            Err(e) => Seq::empty(),
            Ok(played) => played.roundup_instructions(from),
        }
    }

    /// What follows a change of phase away from `prev`: leaving the rest
    /// for a player's turn starts a round; reaching the dealer's phase from a
    /// player's turn runs it to its end; between players' turns nothing
    /// follows. The rules have no other change.
    pub open spec fn phase_changed(self, prev: GameState, now: u64) -> Result<
        StorageView,
        ContractError,
    > {
        match prev {
            GameState::NoPlayers => match self.table.state {
                GameState::PlayerTurn { .. } => self.new_round(now),
                _ => Err(ContractError::UnexpectedTransition),
            },
            GameState::PlayerTurn { .. } => match self.table.state {
                GameState::DealerTurn => self.round_finished(now),
                _ => Ok(self),
            },
            GameState::DealerTurn => Err(ContractError::UnexpectedTransition),
        }
    }

    /// The instructions that a change of phase away from `prev` gives.
    pub open spec fn phase_instructions(self, prev: GameState, from: Seq<char>) -> Seq<
        InstructionView,
    > {
        match prev {
            GameState::PlayerTurn { .. } => match self.table.state {
                GameState::DealerTurn => self.round_instructions(from),
                _ => Seq::empty(),
            },
            _ => Seq::empty(),
        }
    }
}

/// The player's step applied to a seat: the seat takes the state `next`
/// where it comes from `Bid` or `Hit`, and stays as it is otherwise.
pub open spec fn stepped(p: PlayerView, next: PlayerState) -> PlayerView {
    if p.state == PlayerState::Bid || p.state == PlayerState::Hit {
        PlayerView { state: next, ..p }
    } else {
        p
    }
}

impl StorageView {
    /// What follows a change of phase away from `prev`, with the
    /// instructions it gives.
    pub open spec fn phase_outcome(self, prev: GameState, now: u64, from: Seq<char>) -> Result<
        (StorageView, Seq<InstructionView>),
        ContractError,
    > {
        match self.phase_changed(prev, now) {
            Ok(next) => Ok((next, self.phase_instructions(prev, from))),
            Err(e) => Err(e),
        }
    }

    /// `sender` sits down at `seat`, leaving `secret` there. The seat must
    /// be one of the six and empty, and `sender` must not sit at the table
    /// already. At a resting table this starts a round.
    pub open spec fn sit(self, sender: Seq<char>, seat: u8, secret: u64, now: u64) -> Result<
        StorageView,
        ContractError,
    > {
        if seat >= 6 {
            Err(ContractError::NoSuchSeat)
        } else if self.table.players[seat as int].occupied() {
            Err(ContractError::SeatTaken { seat })
        } else {
            match self.player_added(sender, seat, secret) {
                Err(e) => Err(e),
                Ok(seated) => match self.table.state {
                    GameState::NoPlayers => seated.new_round(now),
                    _ => Ok(seated),
                },
            }
        }
    }

    /// The seat is emptied for `who`, and the turn moves on from it; a new
    /// round starts where nobody is left to act in this one.
    pub open spec fn leave(self, who: Seq<char>, seat: u8, prev: GameState, now: u64, from: Seq<char>) -> Result<
        (StorageView, Seq<InstructionView>),
        ContractError,
    > {
        match self.player_removed(who, seat) {
            Err(e) => Err(e),
            Ok(left) => match left.advance(seat, now, true) {
                Err(e) => Err(e),
                Ok(moved) => moved.phase_outcome(prev, now, from),
            },
        }
    }

    /// `sender` leaves `seat`. The seat must be one of the six, occupied by
    /// `sender`, and not playing in this round.
    pub open spec fn stand(self, sender: Seq<char>, seat: u8, now: u64, from: Seq<char>) -> Result<
        (StorageView, Seq<InstructionView>),
        ContractError,
    > {
        if seat >= 6 {
            Err(ContractError::NoSuchSeat)
        } else if !self.table.players[seat as int].occupied() {
            Err(ContractError::SeatEmpty { seat })
        } else if self.table.players[seat as int].address != sender {
            Err(ContractError::NotSeatedHere { seat })
        } else if self.table.players[seat as int].state != PlayerState::NotPlaying {
            Err(ContractError::StandWhilePlaying)
        } else {
            self.leave(
                sender,
                seat,
                GameState::PlayerTurn { player_seat: seat, is_first: true, turn_start_time: 0 },
                now,
                from,
            )
        }
    }

    /// `target` is removed from `seat` for idling. It must be the turn of
    /// `seat`, the turn must have lasted `KICK_AFTER` seconds or more, and
    /// `target` must be the occupant.
    pub open spec fn kick(self, target: Seq<char>, seat: u8, now: u64, from: Seq<char>) -> Result<
        (StorageView, Seq<InstructionView>),
        ContractError,
    > {
        match self.table.state {
            GameState::PlayerTurn { player_seat, is_first, turn_start_time } => {
                if player_seat != seat {
                    Err(ContractError::KickNotCurrent)
                } else if now - turn_start_time < KICK_AFTER {
                    Err(ContractError::TooEarlyToKick)
                } else {
                    self.leave(target, seat, self.table.state, now, from)
                }
            },
            _ => Err(ContractError::KickNotCurrent),
        }
    }

    /// Whether a bid of `amount` at `seat` can be taken up at all, before
    /// the pool is asked what it holds: it must be the seat's turn and its
    /// first action, the amount must not be zero, and it must have come with
    /// the request as `funds`.
    pub open spec fn bid_asked(self, funds: Seq<Coin>, seat: u8, amount: u128) -> Result<
        (),
        ContractError,
    > {
        match self.table.state {
            GameState::PlayerTurn { player_seat, is_first, turn_start_time } => {
                if player_seat != seat {
                    Err(ContractError::NotPlayersTurn)
                } else if !is_first {
                    Err(ContractError::AlreadyBid)
                } else if amount == 0 {
                    Err(ContractError::ZeroBid)
                } else if !funds_hold(funds, amount) {
                    Err(ContractError::WrongFunds { requested: amount })
                } else {
                    Ok(())
                }
            },
            _ => Err(ContractError::NotPlayersTurn),
        }
    }

    /// `sender` stakes `amount` at `seat`. The bid must be one that can be
    /// taken up; the amount must not pass what a pool reporting
    /// `bank_balance` admits; `sender` must occupy the seat. The dealer gets
    /// one card as a new hand, then the player two; that takes three undealt
    /// cards.
    pub open spec fn bid(
        self,
        sender: Seq<char>,
        funds: Seq<Coin>,
        seat: u8,
        amount: u128,
        bank_balance: u128,
        now: u64,
    ) -> Result<StorageView, ContractError> {
        match self.bid_asked(funds, seat, amount) {
            Err(e) => Err(e),
            Ok(_) => {
                if amount > max_bid_allowed(bank_balance) {
                    Err(
                        ContractError::BidTooHigh {
                            max_bid_allowed: max_bid_allowed(bank_balance) as u128,
                        },
                    )
                } else if seat >= 6 {
                    Err(ContractError::NoSuchSeat)
                } else if self.table.players[seat as int].address != sender {
                    Err(ContractError::WrongAddress)
                } else if self.deck.remaining() < 3 {
                    Err(ContractError::DeckExhausted)
                } else if self.balances[sender] + amount > MAX_STAKE {
                    Err(ContractError::StakeTooLarge)
                } else {
                    Ok(
                        StorageView {
                            table: TableView {
                                players: self.table.players.update(
                                    seat as int,
                                    PlayerView {
                                        hand: Some(
                                            hand_after(HandView::empty(), self.deck.advanced(1), 2),
                                        ),
                                        state: PlayerState::Bid,
                                        ..self.table.players[seat as int]
                                    },
                                ),
                                dealer_hand: Some(hand_after(HandView::empty(), self.deck, 1)),
                                state: GameState::PlayerTurn {
                                    player_seat: seat,
                                    is_first: false,
                                    turn_start_time: now,
                                },
                                ..self.table
                            },
                            deck: self.deck.advanced(3),
                            balances: self.balances.insert(
                                sender,
                                (self.balances[sender] + amount) as u128,
                            ),
                            ..self
                        },
                    )
                }
            },
        }
    }

    /// `sender` draws one more card at `seat`. It must be the seat's turn,
    /// after its bid; `sender` must occupy the seat; the hand's raw total
    /// must be under 21, and the deck must have a card left.
    pub open spec fn hit(self, sender: Seq<char>, seat: u8) -> Result<StorageView, ContractError> {
        match self.table.state {
            GameState::PlayerTurn { player_seat, is_first, turn_start_time } => {
                if player_seat != seat {
                    Err(ContractError::NotPlayersTurn)
                } else if is_first {
                    Err(ContractError::BidFirst)
                } else if seat >= 6 {
                    Err(ContractError::NoSuchSeat)
                } else if self.table.players[seat as int].address != sender {
                    Err(ContractError::WrongAddress)
                } else {
                    let p = self.table.players[seat as int];
                    match player_state_changed(
                        stepped(p, PlayerState::Hit),
                        self.deck,
                        p.state,
                        PlayerState::Hit,
                    ) {
                        Err(e) => Err(e),
                        Ok((q, d)) => Ok(
                            StorageView { table: self.table.with_player(seat as int, q), deck: d, ..self },
                        ),
                    }
                }
            },
            _ => Err(ContractError::NotPlayersTurn),
        }
    }

    /// `sender` ends the turn of `seat`. It must be the seat's turn, after
    /// its bid, and `sender` must occupy the seat. The turn moves on; where
    /// nobody is left to act, the dealer plays, the round is settled and a
    /// new one starts.
    pub open spec fn hold(self, sender: Seq<char>, seat: u8, now: u64, from: Seq<char>) -> Result<
        (StorageView, Seq<InstructionView>),
        ContractError,
    > {
        match self.table.state {
            GameState::PlayerTurn { player_seat, is_first, turn_start_time } => {
                if player_seat != seat {
                    Err(ContractError::NotPlayersTurn)
                } else if is_first {
                    Err(ContractError::BidFirst)
                } else if seat >= 6 {
                    Err(ContractError::NoSuchSeat)
                } else if self.table.players[seat as int].address != sender {
                    Err(ContractError::WrongAddress)
                } else {
                    let p = self.table.players[seat as int];
                    match player_state_changed(
                        stepped(p, PlayerState::Hold),
                        self.deck,
                        p.state,
                        PlayerState::Hold,
                    ) {
                        Err(e) => Err(e),
                        Ok((q, d)) => match (StorageView {
                            table: self.table.with_player(seat as int, q),
                            deck: d,
                            ..self
                        }).advance(seat, now, false) {
                            Err(e) => Err(e),
                            Ok(moved) => moved.phase_outcome(self.table.state, now, from),
                        },
                    }
                }
            },
            _ => Err(ContractError::NotPlayersTurn),
        }
    }
}

/// A change that hands no instructions back.
pub open spec fn quietly(changed: Result<StorageView, ContractError>) -> Result<
    (StorageView, Seq<InstructionView>),
    ContractError,
> {
    match changed {
        Ok(next) => Ok((next, Seq::empty())),
        Err(e) => Err(e),
    }
}

impl StorageView {
    /// The state of a table that has just been created.
    pub open spec fn initial(
        game_address: Seq<char>,
        bank_address: Seq<char>,
        bank_code_hash: Seq<char>,
        secret: u64,
    ) -> StorageView {
        StorageView {
            owner: Seq::empty(),
            bank_code_hash,
            game_address,
            bank_address,
            table: TableView {
                players_count: 0,
                players: Seq::new(6, |i: int| PlayerView::vacant()),
                dealer_hand: None,
                state: GameState::NoPlayers,
            },
            deck: DeckView { deck: Seq::empty(), next_free_card: 0 },
            secret,
            player_secrets: Seq::new(6, |i: int| 0u64),
            balances: Map::total(|who: Seq<char>| 0u128),
            scores: ScoresView { players: Seq::new(6, |i: int| None), dealer: dealer_result(0) },
        }
    }

    /// What a changing request makes of the state, with the instructions it
    /// gives.
    pub open spec fn handle(
        self,
        sender: Seq<char>,
        funds: Seq<Coin>,
        now: u64,
        from: Seq<char>,
        msg: HandleMsg,
        bank_balance: u128,
    ) -> Result<(StorageView, Seq<InstructionView>), ContractError> {
        match msg {
            HandleMsg::Hold { seat } => self.hold(sender, seat, now, from),
            HandleMsg::Bid { amount, seat } => quietly(
                self.bid(sender, funds, seat, amount, bank_balance, now),
            ),
            HandleMsg::Sit { secret, seat } => quietly(self.sit(sender, seat, secret, now)),
            HandleMsg::Stand { seat } => self.stand(sender, seat, now, from),
            HandleMsg::Kick { target, seat } => self.kick(target@, seat, now, from),
            HandleMsg::Hit { seat } => quietly(self.hit(sender, seat)),
        }
    }

    /// The answer to a reading request.
    pub open spec fn answer(self, msg: QueryMsg) -> AnswerView {
        match msg {
            QueryMsg::GetUserBalance { address } => AnswerView::GetUserBalance {
                balance: self.balances[address@],
            },
            QueryMsg::GetTable {  } => AnswerView::GetTable { table: self.table },
            QueryMsg::GetLastScore {  } => AnswerView::GetLastScore { last_score: self.scores },
        }
    }
}

} // verus!
