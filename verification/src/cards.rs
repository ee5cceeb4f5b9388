//! Playing cards: ranks, suits, the unshuffled 52-card deck and the seeded
//! shuffle that a round is dealt from.

use rand::seq::SliceRandom;
use rand::SeedableRng;
use rand_chacha::ChaChaRng;
use vstd::prelude::*;

verus! {

/// The rank of a card, from two up to ace.
#[derive(Clone, Copy, PartialEq, Eq, Structural, Debug)]
pub enum Value {
    Two,
    Three,
    Four,
    Five,
    Six,
    Seven,
    Eight,
    Nine,
    Ten,
    Jack,
    Queen,
    King,
    Ace,
}

/// The suit of a card.
#[derive(Clone, Copy, PartialEq, Eq, Structural, Debug)]
pub enum Suit {
    Spade,
    Club,
    Heart,
    Diamond,
}

/// One card of the 52-card deck.
#[derive(Clone, Copy, PartialEq, Eq, Structural, Debug)]
pub struct Card {
    pub value: Value,
    pub suit: Suit,
}

impl Value {
    /// The rank that stands at position `code` when ranks are counted from
    /// two (0) up to ace (12).
    pub open spec fn of_code(code: int) -> Value {
        if code == 0 {
            Value::Two
        } else if code == 1 {
            Value::Three
        } else if code == 2 {
            Value::Four
        } else if code == 3 {
            Value::Five
        } else if code == 4 {
            Value::Six
        } else if code == 5 {
            Value::Seven
        } else if code == 6 {
            Value::Eight
        } else if code == 7 {
            Value::Nine
        } else if code == 8 {
            Value::Ten
        } else if code == 9 {
            Value::Jack
        } else if code == 10 {
            Value::Queen
        } else if code == 11 {
            Value::King
        } else {
            Value::Ace
        }
    }

    /// What the rank adds to a hand's raw total: its pip count, ten for a
    /// face card and one for an ace.
    pub open spec fn points(self) -> int {
        match self {
            Value::Two => 2,
            Value::Three => 3,
            Value::Four => 4,
            Value::Five => 5,
            Value::Six => 6,
            Value::Seven => 7,
            Value::Eight => 8,
            Value::Nine => 9,
            Value::Ten => 10,
            Value::Jack => 10,
            Value::Queen => 10,
            Value::King => 10,
            Value::Ace => 1,
        }
    }

    /// The rank for a code in `0..13`, and nothing for any other number.
    pub fn from_code(code: u8) -> (value: Option<Value>)
        ensures
            value == (if code < 13 {
                Some(Value::of_code(code as int))
            } else {
                None
            }),
    {
        if code == 0 {
            Some(Value::Two)
        } else if code == 1 {
            Some(Value::Three)
        } else if code == 2 {
            Some(Value::Four)
        } else if code == 3 {
            Some(Value::Five)
        } else if code == 4 {
            Some(Value::Six)
        } else if code == 5 {
            Some(Value::Seven)
        } else if code == 6 {
            Some(Value::Eight)
        } else if code == 7 {
            Some(Value::Nine)
        } else if code == 8 {
            Some(Value::Ten)
        } else if code == 9 {
            Some(Value::Jack)
        } else if code == 10 {
            Some(Value::Queen)
        } else if code == 11 {
            Some(Value::King)
        } else if code == 12 {
            Some(Value::Ace)
        } else {
            None
        }
    }
}

impl Suit {
    /// The suit that stands at position `code` in the order spade, club,
    /// heart, diamond.
    pub open spec fn of_code(code: int) -> Suit {
        if code == 0 {
            Suit::Spade
        } else if code == 1 {
            Suit::Club
        } else if code == 2 {
            Suit::Heart
        } else {
            Suit::Diamond
        }
    }

    /// The suit for a code in `0..4`, and nothing for any other number.
    pub fn from_code(code: u8) -> (suit: Option<Suit>)
        ensures
            suit == (if code < 4 {
                Some(Suit::of_code(code as int))
            } else {
                None
            }),
    {
        if code == 0 {
            Some(Suit::Spade)
        } else if code == 1 {
            Some(Suit::Club)
        } else if code == 2 {
            Some(Suit::Heart)
        } else if code == 3 {
            Some(Suit::Diamond)
        } else {
            None
        }
    }
}

/// The card at position `i` of the unshuffled deck: ranks ascend from two to
/// ace, and within a rank the suits run spade, club, heart, diamond.
pub open spec fn card_at(i: int) -> Card {
    Card { value: Value::of_code(i / 4), suit: Suit::of_code(i % 4) }
}

/// The unshuffled deck: every rank in every suit, once, 52 cards.
pub open spec fn canonical_deck() -> Seq<Card> {
    Seq::new(52, |i: int| card_at(i))
}

/// `rs_poker::core::Value::values()`, each rank given as its discriminant.
/// The crate lists its thirteen ranks from `Two` (0) to `Ace` (12), in that
/// order; the contract repeats that list.
#[verifier::external_body]
fn value_codes() -> (codes: Vec<u8>)
    ensures
        codes@ == Seq::new(13, |i: int| i as u8),
{
    rs_poker::core::Value::values().iter().map(|v| *v as u8).collect()
}

/// `rs_poker::core::Suit::suits()`, each suit given as its discriminant.
/// The crate lists its four suits as `Spade` (0), `Club` (1), `Heart` (2),
/// `Diamond` (3); the contract repeats that list.
#[verifier::external_body]
fn suit_codes() -> (codes: Vec<u8>)
    ensures
        codes@ == Seq::new(4, |i: int| i as u8),
{
    rs_poker::core::Suit::suits().iter().map(|s| *s as u8).collect()
}

/// Builds the unshuffled deck from the ranks and suits that `rs_poker`
/// enumerates, rank by rank.
pub fn full_deck() -> (cards: Vec<Card>)
    ensures
        cards@ == canonical_deck(),
{
    let values = value_codes();
    let suits = suit_codes();
    let mut cards: Vec<Card> = Vec::new();
    let mut v: usize = 0;
    while v < 13
        invariant
            v <= 13,
            values@ == Seq::new(13, |i: int| i as u8),
            suits@ == Seq::new(4, |i: int| i as u8),
            cards@ == Seq::new((4 * v) as nat, |i: int| card_at(i)),
        decreases 13 - v,
    {
        let mut s: usize = 0;
        while s < 4
            invariant
                v < 13,
                s <= 4,
                values@ == Seq::new(13, |i: int| i as u8),
                suits@ == Seq::new(4, |i: int| i as u8),
                cards@ == Seq::new((4 * v + s) as nat, |i: int| card_at(i)),
            decreases 4 - s,
        {
            let value = Value::from_code(values[v]).unwrap();
            let suit = Suit::from_code(suits[s]).unwrap();
            assert((4 * v + s) / 4 == v && (4 * v + s) % 4 == s);
            cards.push(Card { value, suit });
            s += 1;
        }
        v += 1;
    }
    cards
}

/// What a card adds to a hand's raw total.
pub fn get_card_value(card: &Card) -> (v: u8)
    ensures
        v == card.value.points(),
        1 <= v <= 10,
{
    match card.value {
        Value::Two => 2,
        Value::Three => 3,
        Value::Four => 4,
        Value::Five => 5,
        Value::Six => 6,
        Value::Seven => 7,
        Value::Eight => 8,
        Value::Nine => 9,
        Value::Ten => 10,
        Value::Jack => 10,
        Value::Queen => 10,
        Value::King => 10,
        Value::Ace => 1,
    }
}

/// The order in which `rand`'s slice shuffle leaves `cards` when it draws
/// from a ChaCha20 generator seeded with `seed`.
pub uninterp spec fn seeded_shuffle(seed: Seq<u8>, cards: Seq<Card>) -> Seq<Card>;

/// `rand::seq::SliceRandom::shuffle` on `cards`, drawing from
/// `rand_chacha::ChaChaRng::from_seed(seed)`. The generator's stream is fixed
/// by the seed and the shuffle only swaps elements of the slice, so the
/// outcome is a function of the seed and the cards, and holds the same cards
/// as before.
#[verifier::external_body]
fn shuffle_with_seed(cards: &mut Vec<Card>, seed: [u8; 32])
    ensures
        final(cards)@ == seeded_shuffle(seed@, old(cards)@),
        final(cards)@.to_multiset() == old(cards)@.to_multiset(),
{
    let mut rng = ChaChaRng::from_seed(seed);
    cards.shuffle(&mut rng);
}

/// A full deck in the order that the shuffle seeded with `seed` gives it.
pub fn shuffled_deck(seed: [u8; 32]) -> (cards: Vec<Card>)
    ensures
        cards@ == seeded_shuffle(seed@, canonical_deck()),
        cards@.to_multiset() == canonical_deck().to_multiset(),
        cards@.len() == 52,
{
    let mut cards = full_deck();
    shuffle_with_seed(&mut cards, seed);
    proof {
        cards@.to_multiset_ensures();
        canonical_deck().to_multiset_ensures();
    }
    cards
}

} // verus!
