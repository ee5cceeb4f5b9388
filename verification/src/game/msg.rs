//! The table's data: hands, seats, the table itself, the deck, the results
//! of a round, and the requests and answers that cross its boundary.

use crate::cards::{get_card_value, Card, Value};
use crate::error::ContractError;
use vstd::prelude::*;

verus! {

/// What the table is created with.
#[derive(Clone, Debug, PartialEq, Eq)]
pub struct InitMsg {
    /// Where the ledger lives.
    pub bank_address: String,
    /// The ledger's code hash.
    pub bank_code_hash: String,
    /// The first value of the round counter that shuffles are seeded with.
    pub secret: u64,
}

/// The phase of the table.
#[derive(Clone, Copy, Debug, PartialEq, Eq, Structural)]
pub enum GameState {
    /// Nobody is waiting to play.
    NoPlayers,
    /// The seat `player_seat` is to act; `is_first` until it has bid.
    PlayerTurn { player_seat: u8, is_first: bool, turn_start_time: u64 },
    /// The dealer plays and the round is settled.
    DealerTurn,
}

/// Where a seat stands in the current round.
#[derive(Clone, Copy, Debug, PartialEq, Eq, Structural)]
pub enum PlayerState {
    NotPlaying,
    Bid,
    Hit,
    Hold,
}

/// The cards dealt to one party, in the order dealt, with their raw total
/// (every ace counted as one).
#[derive(Debug, PartialEq, Eq)]
pub struct PlayerHand {
    pub cards: Vec<Card>,
    pub total_value: u8,
}

/// One seat. An empty address means that nobody sits there.
#[derive(Debug, PartialEq, Eq)]
pub struct Player {
    pub address: String,
    pub hand: Option<PlayerHand>,
    pub state: PlayerState,
}

/// The table: six seats, the dealer's hand and the phase.
#[derive(Debug, PartialEq, Eq)]
pub struct Table {
    pub players_count: u8,
    pub players: [Player; 6],
    pub dealer_hand: Option<PlayerHand>,
    pub state: GameState,
}

/// The deck of a round and the position of its next undealt card.
#[derive(Debug, PartialEq, Eq)]
pub struct GameDeck {
    pub deck: Vec<Card>,
    pub next_free_card: u8,
}

/// How a round ended for one party.
#[derive(Debug, PartialEq, Eq)]
pub struct PlayerResult {
    pub address: String,
    pub won: bool,
    pub score: u8,
    pub reward: u128,
}

/// How the last settled round ended: one slot per seat, and the dealer.
#[derive(Debug, PartialEq, Eq)]
pub struct Scores {
    pub players: [Option<PlayerResult>; 6],
    pub dealer: PlayerResult,
}

/// A request that changes the table.
#[derive(Clone, Debug, PartialEq, Eq)]
pub enum HandleMsg {
    Bid { amount: u128, seat: u8 },
    Hold { seat: u8 },
    Sit { secret: u64, seat: u8 },
    Stand { seat: u8 },
    Kick { target: String, seat: u8 },
    Hit { seat: u8 },
}

/// A request that only reads.
#[derive(Clone, Debug, PartialEq, Eq)]
pub enum QueryMsg {
    GetUserBalance { address: String },
    GetTable {  },
    GetLastScore {  },
}

/// Data returned by a changing request. The table has none to return.
#[derive(Clone, Copy, Debug, PartialEq, Eq)]
pub enum HandleAnswer {
    Empty {  },
}

/// The answer to a reading request.
#[derive(Debug, PartialEq, Eq)]
pub enum QueryAnswer {
    GetUserBalance { balance: u128 },
    GetTable { table: Table },
    GetLastScore { last_score: Scores },
}

/// The mathematical value of a `PlayerHand`.
pub struct HandView {
    pub cards: Seq<Card>,
    pub total_value: u8,
}

/// The mathematical value of a `Player`.
pub struct PlayerView {
    pub address: Seq<char>,
    pub hand: Option<HandView>,
    pub state: PlayerState,
}

/// The mathematical value of a `Table`.
pub struct TableView {
    pub players_count: u8,
    pub players: Seq<PlayerView>,
    pub dealer_hand: Option<HandView>,
    pub state: GameState,
}

/// The mathematical value of a `GameDeck`.
pub struct DeckView {
    pub deck: Seq<Card>,
    pub next_free_card: u8,
}

/// The mathematical value of a `PlayerResult`.
pub struct ResultView {
    pub address: Seq<char>,
    pub won: bool,
    pub score: u8,
    pub reward: u128,
}

/// The mathematical value of `Scores`.
pub struct ScoresView {
    pub players: Seq<Option<ResultView>>,
    pub dealer: ResultView,
}

/// The mathematical value of a `QueryAnswer`.
pub enum AnswerView {
    GetUserBalance { balance: u128 },
    GetTable { table: TableView },
    GetLastScore { last_score: ScoresView },
}

impl View for PlayerHand {
    type V = HandView;

    open spec fn view(&self) -> HandView {
        HandView { cards: self.cards@, total_value: self.total_value }
    }
}

/// The value of a hand that may be absent.
pub open spec fn hand_view(hand: Option<PlayerHand>) -> Option<HandView> {
    match hand {
        Some(h) => Some(h@),
        None => None,
    }
}

impl View for Player {
    type V = PlayerView;

    open spec fn view(&self) -> PlayerView {
        PlayerView { address: self.address@, hand: hand_view(self.hand), state: self.state }
    }
}

impl View for Table {
    type V = TableView;

    open spec fn view(&self) -> TableView {
        TableView {
            players_count: self.players_count,
            players: Seq::new(6, |i: int| self.players[i]@),
            dealer_hand: hand_view(self.dealer_hand),
            state: self.state,
        }
    }
}

impl View for GameDeck {
    type V = DeckView;

    open spec fn view(&self) -> DeckView {
        DeckView { deck: self.deck@, next_free_card: self.next_free_card }
    }
}

impl View for PlayerResult {
    type V = ResultView;

    open spec fn view(&self) -> ResultView {
        ResultView {
            address: self.address@,
            won: self.won,
            score: self.score,
            reward: self.reward,
        }
    }
}

/// The value of a result that may be absent.
pub open spec fn result_view(result: Option<PlayerResult>) -> Option<ResultView> {
    match result {
        Some(r) => Some(r@),
        None => None,
    }
}

impl View for Scores {
    type V = ScoresView;

    open spec fn view(&self) -> ScoresView {
        ScoresView {
            players: Seq::new(6, |i: int| result_view(self.players[i])),
            dealer: self.dealer@,
        }
    }
}

impl View for QueryAnswer {
    type V = AnswerView;

    open spec fn view(&self) -> AnswerView {
        match *self {
            QueryAnswer::GetUserBalance { balance } => AnswerView::GetUserBalance { balance },
            QueryAnswer::GetTable { table } => AnswerView::GetTable { table: table@ },
            QueryAnswer::GetLastScore { last_score } => AnswerView::GetLastScore {
                last_score: last_score@,
            },
        }
    }
}

/// The raw total of some cards: face cards count ten, aces one.
pub open spec fn raw_total(cards: Seq<Card>) -> int
    decreases cards.len(),
{
    if cards.len() == 0 {
        0
    } else {
        raw_total(cards.drop_last()) + cards.last().value.points()
    }
}

/// Whether an ace is among the cards.
pub open spec fn has_ace(cards: Seq<Card>) -> bool {
    exists|i: int| 0 <= i < cards.len() && (#[trigger] cards[i]).value == Value::Ace
}

/// The score of cards whose raw total is `total`: one ace counts eleven
/// instead of one where the hand has an ace and stays at 21 or below with it.
/// A second ace never can, and a hand over 21 keeps its raw total.
pub open spec fn score_of(total: int, cards: Seq<Card>) -> int {
    if total <= 11 && has_ace(cards) {
        total + 10
    } else {
        total
    }
}

impl HandView {
    /// The total recorded with the cards is their raw total.
    pub open spec fn wf(self) -> bool {
        self.total_value == raw_total(self.cards)
    }

    /// The hand's score.
    pub open spec fn score(self) -> int {
        score_of(self.total_value as int, self.cards)
    }

    /// The hand with one more card.
    pub open spec fn with_card(self, card: Card) -> HandView {
        HandView {
            cards: self.cards.push(card),
            total_value: (self.total_value + card.value.points()) as u8,
        }
    }

    /// The hand that holds nothing.
    pub open spec fn empty() -> HandView {
        HandView { cards: Seq::empty(), total_value: 0 }
    }
}

/// A hand that may be absent records its raw total where it is present.
pub open spec fn hand_ok(hand: Option<HandView>) -> bool {
    match hand {
        Some(h) => h.wf(),
        None => true,
    }
}

/// Adding a card to some cards adds its points to their raw total.
pub proof fn lemma_raw_total_push(cards: Seq<Card>, card: Card)
    ensures
        raw_total(cards.push(card)) == raw_total(cards) + card.value.points(),
        raw_total(cards) >= 0,
    decreases cards.len(),
{
    assert(cards.push(card).drop_last() =~= cards);
    if cards.len() > 0 {
        lemma_raw_total_push(cards.drop_last(), cards.last());
        assert(cards.drop_last().push(cards.last()) =~= cards);
    }
}

impl PlayerHand {
    /// A hand without cards.
    pub fn new() -> (hand: PlayerHand)
        ensures
            hand@ == HandView::empty(),
            hand@.wf(),
    {
        PlayerHand { cards: Vec::new(), total_value: 0 }
    }

    /// Puts one more card into the hand and adds its points to the total.
    pub fn receive(&mut self, card: Card)
        requires
            old(self).total_value <= 245,
        ensures
            final(self)@ == old(self)@.with_card(card),
            old(self)@.wf() ==> final(self)@.wf(),
    {
        proof {
            lemma_raw_total_push(self.cards@, card);
        }
        self.cards.push(card);
        self.total_value = self.total_value + get_card_value(&card);
    }
}

impl Clone for PlayerHand {
    fn clone(&self) -> (copy: PlayerHand)
        ensures
            copy@ == self@,
    {
        let mut cards: Vec<Card> = Vec::new();
        let mut i: usize = 0;
        while i < self.cards.len()
            invariant
                i <= self.cards.len(),
                cards@ == self.cards@.subrange(0, i as int),
            decreases self.cards.len() - i,
        {
            cards.push(self.cards[i]);
            i += 1;
        }
        assert(cards@ == self.cards@);
        PlayerHand { cards, total_value: self.total_value }
    }
}

/// A copy of a hand that may be absent.
pub fn clone_hand(hand: &Option<PlayerHand>) -> (copy: Option<PlayerHand>)
    ensures
        hand_view(copy) == hand_view(*hand),
{
    match hand {
        Some(h) => Some(h.clone()),
        None => None,
    }
}

impl Clone for Player {
    fn clone(&self) -> (copy: Player)
        ensures
            copy@ == self@,
    {
        Player { address: self.address.clone(), hand: clone_hand(&self.hand), state: self.state }
    }
}

impl Player {
    /// A seat that nobody occupies.
    pub fn vacant() -> (player: Player)
        ensures
            player@ == PlayerView::vacant(),
    {
        Player { address: String::new(), hand: None, state: PlayerState::NotPlaying }
    }

    /// Whether somebody sits here.
    pub fn is_occupied(&self) -> (occupied: bool)
        ensures
            occupied == self@.occupied(),
    {
        !self.address.as_str().is_empty()
    }
}

impl PlayerView {
    /// A seat that nobody occupies.
    pub open spec fn vacant() -> PlayerView {
        PlayerView { address: Seq::empty(), hand: None, state: PlayerState::NotPlaying }
    }

    /// Whether somebody sits here.
    pub open spec fn occupied(self) -> bool {
        self.address.len() > 0
    }

    /// Whether somebody sits here who has not yet played in this round.
    pub open spec fn waiting(self) -> bool {
        self.occupied() && self.state == PlayerState::NotPlaying
    }

    /// The score of the cards held; a seat without a hand scores nothing.
    pub open spec fn score(self) -> int {
        match self.hand {
            Some(h) => h.score(),
            None => 0,
        }
    }
}

impl Clone for Table {
    fn clone(&self) -> (copy: Table)
        ensures
            copy@ == self@,
    {
        let copy = Table {
            players_count: self.players_count,
            players: [
                self.players[0].clone(),
                self.players[1].clone(),
                self.players[2].clone(),
                self.players[3].clone(),
                self.players[4].clone(),
                self.players[5].clone(),
            ],
            dealer_hand: clone_hand(&self.dealer_hand),
            state: self.state,
        };
        assert(copy@.players =~= self@.players);
        copy
    }
}

impl Clone for GameDeck {
    fn clone(&self) -> (copy: GameDeck)
        ensures
            copy@ == self@,
    {
        let mut deck: Vec<Card> = Vec::new();
        let mut i: usize = 0;
        while i < self.deck.len()
            invariant
                i <= self.deck.len(),
                deck@ == self.deck@.subrange(0, i as int),
            decreases self.deck.len() - i,
        {
            deck.push(self.deck[i]);
            i += 1;
        }
        assert(deck@ == self.deck@);
        GameDeck { deck, next_free_card: self.next_free_card }
    }
}

impl Clone for PlayerResult {
    fn clone(&self) -> (copy: PlayerResult)
        ensures
            copy@ == self@,
    {
        PlayerResult {
            address: self.address.clone(),
            won: self.won,
            score: self.score,
            reward: self.reward,
        }
    }
}

/// A copy of a result that may be absent.
pub fn clone_result(result: &Option<PlayerResult>) -> (copy: Option<PlayerResult>)
    ensures
        result_view(copy) == result_view(*result),
{
    match result {
        Some(r) => Some(r.clone()),
        None => None,
    }
}

impl Clone for Scores {
    fn clone(&self) -> (copy: Scores)
        ensures
            copy@ == self@,
    {
        let copy = Scores {
            players: [
                clone_result(&self.players[0]),
                clone_result(&self.players[1]),
                clone_result(&self.players[2]),
                clone_result(&self.players[3]),
                clone_result(&self.players[4]),
                clone_result(&self.players[5]),
            ],
            dealer: self.dealer.clone(),
        };
        assert(copy@.players =~= self@.players);
        copy
    }
}

impl DeckView {
    /// The cursor stands inside a deck of at most 52 cards.
    pub open spec fn wf(self) -> bool {
        self.next_free_card <= self.deck.len() <= 52
    }

    /// How many cards are still undealt.
    pub open spec fn remaining(self) -> int {
        self.deck.len() - self.next_free_card
    }

    /// The deck after `n` more cards have been dealt.
    pub open spec fn advanced(self, n: int) -> DeckView {
        DeckView { deck: self.deck, next_free_card: (self.next_free_card + n) as u8 }
    }
}

impl GameDeck {
    /// How many cards are still undealt.
    pub fn remaining(&self) -> (n: usize)
        requires
            self@.wf(),
        ensures
            n == self@.remaining(),
    {
        self.deck.len() - self.next_free_card as usize
    }

    /// Deals the next undealt card. A deck that has none left gives
    /// `DeckExhausted` and stays as it is.
    pub fn draw(&mut self) -> (res: Result<Card, ContractError>)
        requires
            old(self)@.wf(),
        ensures
            final(self)@.wf(),
            old(self)@.remaining() > 0 ==> res == Ok::<Card, ContractError>(
                old(self)@.deck[old(self).next_free_card as int],
            ) && final(self)@ == old(self)@.advanced(1),
            old(self)@.remaining() <= 0 ==> res == Err::<Card, ContractError>(
                ContractError::DeckExhausted,
            ) && final(self)@ == old(self)@,
    {
        if (self.next_free_card as usize) < self.deck.len() {
            let card = self.deck[self.next_free_card as usize];
            self.next_free_card = self.next_free_card + 1;
            Ok(card)
        } else {
            Err(ContractError::DeckExhausted)
        }
    }
}

} // verus!
