use blackjack_table::cards::{Card, Suit, Value};
use blackjack_table::chain::{Coin, Env, Instruction};
use blackjack_table::error::{ContractError, ErrorKind};
use blackjack_table::game::contract::{
    advance_to_next_player, begin_round, bid, game_roundup, get_player_score, hit, hold, init,
    max_bid, on_game_state_change, on_player_hit, on_player_state_change, play_dealer, sit, stand,
    validate_bid,
};
use blackjack_table::game::msg::{
    GameDeck, GameState, InitMsg, Player, PlayerHand, PlayerResult, PlayerState,
};
use blackjack_table::game::state::{read_user_balance, Account, GameStorage, MAX_STAKE};

fn card(value: Value) -> Card {
    Card { value, suit: Suit::Club }
}

fn env_with(sender: &str, time: u64, uscrt: u128) -> Env {
    Env {
        sender: sender.to_string(),
        sent_funds: if uscrt == 0 {
            vec![]
        } else {
            vec![Coin { denom: "uscrt".to_string(), amount: uscrt }]
        },
        time,
        contract_address: "table".to_string(),
        contract_code_hash: "tablehash".to_string(),
    }
}

fn fresh() -> GameStorage {
    let msg = InitMsg {
        bank_address: "bank".to_string(),
        bank_code_hash: "bankhash".to_string(),
        secret: 1,
    };
    init(env_with("creator", 0, 0), msg).0
}

fn rig(deps: &mut GameStorage, values: &[Value]) {
    deps.deck = GameDeck { deck: values.iter().map(|v| card(*v)).collect(), next_free_card: 0 };
}

fn hand_of(values: &[Value]) -> PlayerHand {
    let mut hand = PlayerHand::new();
    for v in values {
        hand.receive(card(*v));
    }
    hand
}

/// Two players at seats 0 and 1; seat 0 is to act.
fn two_seated() -> GameStorage {
    let mut deps = fresh();
    assert!(sit(&mut deps, env_with("ann", 10, 0), 0, 11).is_ok());
    assert!(sit(&mut deps, env_with("bob", 10, 0), 1, 22).is_ok());
    deps
}

#[test]
fn max_bid_is_a_hundred_seven_hundred_fiftieths_of_the_pool() {
    assert_eq!(max_bid(10_000_000), 1_333_333);
    assert_eq!(max_bid(750), 100);
    assert_eq!(max_bid(749), 99);
    assert_eq!(max_bid(0), 0);
    assert_eq!(max_bid(u128::MAX), 45370982256125128461783280990902428194);
}

#[test]
fn bid_of_zero_fails() {
    let mut deps = two_seated();
    let before = deps.clone();
    assert_eq!(bid(&mut deps, env_with("ann", 11, 0), 0, 0, 10_000_000), Err(ContractError::ZeroBid));
    assert_eq!(deps, before);
}

#[test]
fn bid_with_other_funds_than_the_amount_fails() {
    let mut deps = two_seated();
    let before = deps.clone();
    assert_eq!(
        bid(&mut deps, env_with("ann", 11, 99), 0, 100, 10_000_000),
        Err(ContractError::WrongFunds { requested: 100 })
    );
    assert_eq!(
        bid(&mut deps, env_with("ann", 11, 0), 0, 100, 10_000_000),
        Err(ContractError::WrongFunds { requested: 100 })
    );
    let mut other_coin = env_with("ann", 11, 0);
    other_coin.sent_funds = vec![Coin { denom: "uatom".to_string(), amount: 100 }];
    assert_eq!(
        bid(&mut deps, other_coin, 0, 100, 10_000_000),
        Err(ContractError::WrongFunds { requested: 100 })
    );
    assert_eq!(deps, before);
}

#[test]
fn bid_over_the_limit_fails_and_names_the_limit() {
    let mut deps = two_seated();
    let before = deps.clone();
    assert_eq!(
        bid(&mut deps, env_with("ann", 11, 1_333_334), 0, 1_333_334, 10_000_000),
        Err(ContractError::BidTooHigh { max_bid_allowed: 1_333_333 })
    );
    assert_eq!(deps, before);
    assert!(bid(&mut deps, env_with("ann", 11, 1_333_333), 0, 1_333_333, 10_000_000).is_ok());
}

#[test]
fn bid_out_of_turn_fails() {
    let mut deps = two_seated();
    let before = deps.clone();
    assert_eq!(
        bid(&mut deps, env_with("bob", 11, 100), 1, 100, 10_000_000),
        Err(ContractError::NotPlayersTurn)
    );
    assert_eq!(
        bid(&mut deps, env_with("bob", 11, 100), 0, 100, 10_000_000),
        Err(ContractError::WrongAddress)
    );
    assert_eq!(deps, before);
    let mut resting = fresh();
    assert_eq!(
        bid(&mut resting, env_with("bob", 11, 100), 0, 100, 10_000_000),
        Err(ContractError::NotPlayersTurn)
    );
}

#[test]
fn bid_deals_one_card_to_the_dealer_and_two_to_the_player() {
    let mut deps = two_seated();
    rig(&mut deps, &[Value::Five, Value::Ace, Value::King, Value::Six]);
    let res = bid(&mut deps, env_with("ann", 15, 100), 0, 100, 750).unwrap();
    assert!(res.messages.is_empty());
    assert!(deps.is_wf());
    assert_eq!(deps.table.dealer_hand, Some(hand_of(&[Value::Five])));
    assert_eq!(deps.table.players[0].hand, Some(hand_of(&[Value::Ace, Value::King])));
    assert_eq!(deps.table.players[0].state, PlayerState::Bid);
    assert_eq!(deps.deck.next_free_card, 3);
    assert_eq!(read_user_balance(&deps, &"ann".to_string()), 100);
    assert_eq!(
        deps.table.state,
        GameState::PlayerTurn { player_seat: 0, is_first: false, turn_start_time: 15 }
    );
}

#[test]
fn second_bid_in_a_turn_fails() {
    let mut deps = two_seated();
    assert!(bid(&mut deps, env_with("ann", 15, 100), 0, 100, 750).is_ok());
    let before = deps.clone();
    assert_eq!(
        bid(&mut deps, env_with("ann", 16, 100), 0, 100, 750),
        Err(ContractError::AlreadyBid)
    );
    assert_eq!(deps, before);
}

#[test]
fn bid_needs_three_undealt_cards() {
    let mut deps = two_seated();
    rig(&mut deps, &[Value::Five, Value::Ace]);
    let before = deps.clone();
    assert_eq!(
        bid(&mut deps, env_with("ann", 15, 100), 0, 100, 750),
        Err(ContractError::DeckExhausted)
    );
    assert_eq!(deps, before);
}

#[test]
fn bid_cannot_raise_a_stake_past_the_largest() {
    let mut deps = two_seated();
    deps.balances.push(Account { address: "ann".to_string(), balance: MAX_STAKE });
    let before = deps.clone();
    assert_eq!(
        bid(&mut deps, env_with("ann", 15, 1), 0, 1, u128::MAX),
        Err(ContractError::StakeTooLarge)
    );
    assert_eq!(deps, before);
}

#[test]
fn hit_and_hold_before_the_bid_fail() {
    let mut deps = two_seated();
    let before = deps.clone();
    assert_eq!(hit(&mut deps, env_with("ann", 15, 0), 0), Err(ContractError::BidFirst));
    assert_eq!(hold(&mut deps, env_with("ann", 15, 0), 0), Err(ContractError::BidFirst));
    assert_eq!(hit(&mut deps, env_with("bob", 15, 0), 1), Err(ContractError::NotPlayersTurn));
    assert_eq!(hold(&mut deps, env_with("bob", 15, 0), 1), Err(ContractError::NotPlayersTurn));
    assert_eq!(deps, before);
}

#[test]
fn hit_draws_one_card() {
    let mut deps = two_seated();
    rig(&mut deps, &[Value::Five, Value::Two, Value::King, Value::Six, Value::Nine]);
    assert!(bid(&mut deps, env_with("ann", 15, 100), 0, 100, 750).is_ok());
    let before = deps.clone();
    assert_eq!(hit(&mut deps, env_with("bob", 16, 0), 0), Err(ContractError::WrongAddress));
    assert_eq!(deps, before);
    assert!(hit(&mut deps, env_with("ann", 16, 0), 0).is_ok());
    assert!(deps.is_wf());
    assert_eq!(
        deps.table.players[0].hand,
        Some(hand_of(&[Value::Two, Value::King, Value::Six]))
    );
    assert_eq!(deps.table.players[0].state, PlayerState::Hit);
    assert_eq!(deps.deck.next_free_card, 4);
    assert_eq!(
        deps.table.state,
        GameState::PlayerTurn { player_seat: 0, is_first: false, turn_start_time: 15 }
    );
}

#[test]
fn hit_at_twenty_one_or_more_fails() {
    let mut deps = two_seated();
    rig(&mut deps, &[Value::Five, Value::Queen, Value::King, Value::Six, Value::Nine]);
    assert!(bid(&mut deps, env_with("ann", 15, 100), 0, 100, 750).is_ok());
    assert!(hit(&mut deps, env_with("ann", 16, 0), 0).is_ok());
    let before = deps.clone();
    assert_eq!(
        hit(&mut deps, env_with("ann", 17, 0), 0),
        Err(ContractError::CannotHit { total: 26 })
    );
    assert_eq!(deps, before);
}

#[test]
fn hit_from_an_empty_deck_fails() {
    let mut deps = two_seated();
    rig(&mut deps, &[Value::Five, Value::Two, Value::King]);
    assert!(bid(&mut deps, env_with("ann", 15, 100), 0, 100, 750).is_ok());
    let before = deps.clone();
    assert_eq!(hit(&mut deps, env_with("ann", 16, 0), 0), Err(ContractError::DeckExhausted));
    assert_eq!(deps, before);
}

#[test]
fn stand_after_the_bid_fails() {
    let mut deps = two_seated();
    assert!(bid(&mut deps, env_with("ann", 15, 100), 0, 100, 750).is_ok());
    let before = deps.clone();
    assert_eq!(stand(&mut deps, env_with("ann", 16, 0), 0), Err(ContractError::StandWhilePlaying));
    assert_eq!(deps, before);
}

#[test]
fn hold_passes_the_turn_to_the_next_waiting_seat() {
    let mut deps = two_seated();
    assert!(bid(&mut deps, env_with("ann", 15, 100), 0, 100, 750).is_ok());
    let res = hold(&mut deps, env_with("ann", 20, 0), 0).unwrap();
    assert!(res.messages.is_empty());
    assert!(deps.is_wf());
    assert_eq!(deps.table.players[0].state, PlayerState::Hold);
    assert_eq!(
        deps.table.state,
        GameState::PlayerTurn { player_seat: 1, is_first: true, turn_start_time: 20 }
    );
}

/// Seat 0 stakes 100 and holds a blackjack, seat 1 stakes 100 and holds
/// `second`, and the dealer, with an eight open from the last bid, draws a
/// ten and ends at 18.
fn play_round(second: [Value; 2]) -> (GameStorage, Vec<Instruction>) {
    let mut deps = two_seated();
    rig(
        &mut deps,
        &[
            Value::Five,
            Value::Ace,
            Value::King,
            Value::Eight,
            second[0],
            second[1],
            Value::Ten,
            Value::Two,
        ],
    );
    assert!(bid(&mut deps, env_with("ann", 15, 100), 0, 100, 750).is_ok());
    assert!(hold(&mut deps, env_with("ann", 16, 0), 0).unwrap().messages.is_empty());
    assert!(bid(&mut deps, env_with("bob", 17, 100), 1, 100, 750).is_ok());
    let res = hold(&mut deps, env_with("bob", 18, 0), 1).unwrap();
    (deps, res.messages)
}

#[test]
fn round_with_a_blackjack_and_a_loser_is_settled() {
    let (deps, messages) = play_round([Value::Ten, Value::Seven]);
    assert!(deps.is_wf());
    assert_eq!(
        deps.scores.players[0],
        Some(PlayerResult { address: "ann".to_string(), won: true, score: 21, reward: 125 })
    );
    assert_eq!(
        deps.scores.players[1],
        Some(PlayerResult { address: "bob".to_string(), won: false, score: 17, reward: 0 })
    );
    assert_eq!(deps.scores.players[2], None);
    assert_eq!(
        deps.scores.dealer,
        PlayerResult { address: "".to_string(), won: false, score: 18, reward: 0 }
    );
    assert_eq!(
        messages,
        vec![
            Instruction::PayToWinner {
                contract_addr: "bank".to_string(),
                callback_code_hash: "bankhash".to_string(),
                amount: 125,
                to: "ann".to_string(),
            },
            Instruction::Send {
                from_address: "table".to_string(),
                to_address: "ann".to_string(),
                amount: 100,
            },
            Instruction::Send {
                from_address: "table".to_string(),
                to_address: "bank".to_string(),
                amount: 100,
            },
        ]
    );
    assert_eq!(read_user_balance(&deps, &"ann".to_string()), 0);
    assert_eq!(read_user_balance(&deps, &"bob".to_string()), 0);
    // A new round has started: everybody waits again, seat 0 is to act.
    assert_eq!(deps.table.players[0].state, PlayerState::NotPlaying);
    assert_eq!(deps.table.players[1].state, PlayerState::NotPlaying);
    assert_eq!(deps.table.players[0].hand, None);
    assert_eq!(deps.table.players[1].hand, None);
    assert_eq!(
        deps.table.state,
        GameState::PlayerTurn { player_seat: 0, is_first: true, turn_start_time: 18 }
    );
    assert_eq!(deps.secret, 3);
    assert_eq!(deps.deck.next_free_card, 0);
    assert_eq!(deps.deck.deck.len(), 52);
}

#[test]
fn nineteen_beats_a_dealer_at_eighteen() {
    let (deps, messages) = play_round([Value::Ten, Value::Nine]);
    assert_eq!(
        deps.scores.players[1],
        Some(PlayerResult { address: "bob".to_string(), won: true, score: 19, reward: 100 })
    );
    assert_eq!(messages.len(), 4);
    assert_eq!(
        messages[2],
        Instruction::PayToWinner {
            contract_addr: "bank".to_string(),
            callback_code_hash: "bankhash".to_string(),
            amount: 100,
            to: "bob".to_string(),
        }
    );
}

fn seated(address: &str, cards: &[Value], state: PlayerState) -> Player {
    Player { address: address.to_string(), hand: Some(hand_of(cards)), state }
}

/// A table at the end of a round: the dealer holds `dealer`.
fn to_settle(dealer: &[Value]) -> GameStorage {
    let mut deps = fresh();
    deps.table.dealer_hand = Some(hand_of(dealer));
    deps
}

fn stake(deps: &mut GameStorage, seat: usize, player: Player, amount: u128) {
    deps.balances.push(Account { address: player.address.clone(), balance: amount });
    deps.table.players[seat] = player;
    deps.table.players_count += 1;
}

#[test]
fn settlement_pays_five_quarters_for_twenty_one_rounded_down() {
    let mut deps = to_settle(&[Value::Ten, Value::Eight]);
    stake(&mut deps, 3, seated("ann", &[Value::Ace, Value::King], PlayerState::Hold), 7);
    let mut out = vec![];
    assert!(game_roundup(&mut deps, &env_with("any", 0, 0), &mut out).is_ok());
    assert_eq!(
        deps.scores.players[3],
        Some(PlayerResult { address: "ann".to_string(), won: true, score: 21, reward: 8 })
    );
    assert_eq!(out.len(), 2);
}

#[test]
fn settlement_of_the_largest_stake_does_not_overflow() {
    let mut deps = to_settle(&[Value::Ten, Value::Eight]);
    stake(&mut deps, 3, seated("ann", &[Value::Ace, Value::King], PlayerState::Hold), MAX_STAKE);
    let mut out = vec![];
    assert!(game_roundup(&mut deps, &env_with("any", 0, 0), &mut out).is_ok());
    assert_eq!(deps.scores.players[3].as_ref().unwrap().reward, u128::MAX);
}

#[test]
fn settlement_when_the_dealer_busts() {
    let mut deps = to_settle(&[Value::Ten, Value::Six, Value::King]);
    stake(&mut deps, 0, seated("ann", &[Value::Two, Value::Three], PlayerState::Hold), 40);
    stake(
        &mut deps,
        1,
        seated("bob", &[Value::Ten, Value::Six, Value::Nine], PlayerState::Hold),
        50,
    );
    let mut out = vec![];
    assert!(game_roundup(&mut deps, &env_with("any", 0, 0), &mut out).is_ok());
    assert_eq!(
        deps.scores.players[0],
        Some(PlayerResult { address: "ann".to_string(), won: true, score: 5, reward: 40 })
    );
    assert_eq!(
        deps.scores.players[1],
        Some(PlayerResult { address: "bob".to_string(), won: false, score: 25, reward: 0 })
    );
    assert_eq!(deps.scores.dealer.score, 26);
}

#[test]
fn settlement_pushes_and_lower_scores_lose() {
    let mut deps = to_settle(&[Value::Ten, Value::Eight]);
    stake(&mut deps, 0, seated("ann", &[Value::Ten, Value::Eight], PlayerState::Hold), 40);
    let mut out = vec![Instruction::Send {
        from_address: "a".to_string(),
        to_address: "b".to_string(),
        amount: 1,
    }];
    assert!(game_roundup(&mut deps, &env_with("any", 0, 0), &mut out).is_ok());
    assert_eq!(deps.scores.players[0].as_ref().unwrap().won, false);
    assert_eq!(out.len(), 2);
    assert_eq!(
        out[1],
        Instruction::Send {
            from_address: "table".to_string(),
            to_address: "bank".to_string(),
            amount: 40,
        }
    );
}

#[test]
fn settlement_treats_unfinished_seats_as_holding_and_skips_waiting_ones() {
    let mut deps = to_settle(&[Value::Ten, Value::Eight]);
    stake(&mut deps, 0, seated("ann", &[Value::Ten, Value::Nine], PlayerState::Bid), 40);
    stake(&mut deps, 1, seated("bob", &[Value::Ten, Value::Two, Value::Three], PlayerState::Hit), 50);
    stake(&mut deps, 2, seated("cat", &[], PlayerState::NotPlaying), 0);
    deps.table.players[2].hand = None;
    stake(&mut deps, 4, seated("dan", &[], PlayerState::Hold), 60);
    deps.table.players[4].hand = None;
    let mut out = vec![];
    assert!(game_roundup(&mut deps, &env_with("any", 0, 0), &mut out).is_ok());
    assert_eq!(
        deps.scores.players[0],
        Some(PlayerResult { address: "ann".to_string(), won: true, score: 19, reward: 40 })
    );
    assert_eq!(
        deps.scores.players[1],
        Some(PlayerResult { address: "bob".to_string(), won: false, score: 15, reward: 0 })
    );
    assert_eq!(deps.scores.players[2], None);
    assert_eq!(
        deps.scores.players[4],
        Some(PlayerResult { address: "dan".to_string(), won: false, score: 0, reward: 0 })
    );
    assert_eq!(deps.table.players[0].state, PlayerState::NotPlaying);
    assert_eq!(deps.table.players[1].state, PlayerState::NotPlaying);
    assert_eq!(read_user_balance(&deps, &"bob".to_string()), 0);
}

#[test]
fn settlement_without_a_dealer_hand_fails() {
    let mut deps = fresh();
    let mut out = vec![];
    assert_eq!(
        game_roundup(&mut deps, &env_with("any", 0, 0), &mut out),
        Err(ContractError::MissingHand)
    );
    assert_eq!(ContractError::MissingHand.kind(), ErrorKind::InvariantViolation);
}

#[test]
fn hold_fails_as_a_whole_when_the_dealer_runs_out_of_cards() {
    let mut deps = two_seated();
    assert!(stand(&mut deps, env_with("bob", 11, 0), 1).is_ok());
    rig(&mut deps, &[Value::Five, Value::Ace, Value::King, Value::Six, Value::Five]);
    assert!(bid(&mut deps, env_with("ann", 15, 100), 0, 100, 750).is_ok());
    let before = deps.clone();
    assert_eq!(hold(&mut deps, env_with("ann", 16, 0), 0), Err(ContractError::DeckExhausted));
    assert_eq!(deps, before);
}

#[test]
fn play_dealer_draws_on_from_the_hand_on_the_table() {
    let mut deps = fresh();
    deps.table.dealer_hand = Some(hand_of(&[Value::Six, Value::Ten]));
    rig(&mut deps, &[Value::Two, Value::Ace, Value::Four, Value::Ten]);
    deps.deck.next_free_card = 1;
    assert!(play_dealer(&mut deps).is_ok());
    assert_eq!(
        deps.table.dealer_hand,
        Some(hand_of(&[Value::Six, Value::Ten, Value::Ace]))
    );
    assert_eq!(deps.table.dealer_hand.as_ref().unwrap().total_value, 17);
    assert_eq!(get_player_score(deps.table.dealer_hand.as_ref().unwrap()), 17);
    // The four that would make 21 stays in the deck.
    assert_eq!(deps.deck.next_free_card, 2);
}

#[test]
fn play_dealer_without_a_hand_starts_from_nothing() {
    let mut deps = fresh();
    rig(&mut deps, &[Value::Ten, Value::Six, Value::Five, Value::Ten]);
    assert!(play_dealer(&mut deps).is_ok());
    assert_eq!(deps.table.dealer_hand, Some(hand_of(&[Value::Ten, Value::Six, Value::Five])));
    assert_eq!(deps.deck.next_free_card, 3);
}

#[test]
fn play_dealer_at_seventeen_or_more_draws_nothing() {
    let mut deps = fresh();
    deps.table.dealer_hand = Some(hand_of(&[Value::Ten, Value::Seven]));
    rig(&mut deps, &[Value::Four]);
    assert!(play_dealer(&mut deps).is_ok());
    assert_eq!(deps.table.dealer_hand, Some(hand_of(&[Value::Ten, Value::Seven])));
    assert_eq!(deps.deck.next_free_card, 0);
}

#[test]
fn dealer_plays_on_from_the_card_of_the_last_bid() {
    let mut deps = two_seated();
    assert!(stand(&mut deps, env_with("bob", 11, 0), 1).is_ok());
    rig(&mut deps, &[Value::Nine, Value::Ten, Value::Seven, Value::Eight, Value::King]);
    assert!(bid(&mut deps, env_with("ann", 15, 100), 0, 100, 750).is_ok());
    assert_eq!(deps.table.dealer_hand, Some(hand_of(&[Value::Nine])));
    let res = hold(&mut deps, env_with("ann", 16, 0), 0).unwrap();
    // Nine and eight make 17: the dealer stops, and seventeen against
    // seventeen loses.
    assert_eq!(deps.scores.dealer.score, 17);
    assert_eq!(deps.table.dealer_hand, Some(hand_of(&[Value::Nine, Value::Eight])));
    assert_eq!(
        res.messages,
        vec![Instruction::Send {
            from_address: "table".to_string(),
            to_address: "bank".to_string(),
            amount: 100,
        }]
    );
}

#[test]
fn bid_can_be_looked_at_before_the_pool_is_asked() {
    let deps = two_seated();
    assert_eq!(validate_bid(&deps, &env_with("ann", 11, 100), 0, 100), Ok(()));
    assert_eq!(
        validate_bid(&deps, &env_with("bob", 11, 100), 1, 100),
        Err(ContractError::NotPlayersTurn)
    );
    assert_eq!(validate_bid(&deps, &env_with("ann", 11, 0), 0, 0), Err(ContractError::ZeroBid));
    assert_eq!(
        validate_bid(&deps, &env_with("ann", 11, 99), 0, 100),
        Err(ContractError::WrongFunds { requested: 100 })
    );
    let mut after = two_seated();
    assert!(bid(&mut after, env_with("ann", 15, 100), 0, 100, 750).is_ok());
    assert_eq!(
        validate_bid(&after, &env_with("ann", 16, 100), 0, 100),
        Err(ContractError::AlreadyBid)
    );
}

#[test]
fn player_steps_outside_the_rules_are_refused() {
    let mut deck = GameDeck { deck: vec![card(Value::Two), card(Value::Three)], next_free_card: 0 };
    let mut player = seated("ann", &[Value::Ten], PlayerState::Hold);
    assert_eq!(
        on_player_state_change(&mut deck, &mut player, &PlayerState::Hold, &PlayerState::Hit),
        Err(ContractError::UnexpectedTransition)
    );
    assert_eq!(
        on_player_state_change(&mut deck, &mut player, &PlayerState::NotPlaying, &PlayerState::Hit),
        Err(ContractError::UnexpectedTransition)
    );
    assert_eq!(
        on_player_state_change(&mut deck, &mut player, &PlayerState::Bid, &PlayerState::Bid),
        Err(ContractError::UnexpectedTransition)
    );
    assert_eq!(deck.next_free_card, 0);
    assert!(
        on_player_state_change(&mut deck, &mut player, &PlayerState::Hit, &PlayerState::Hold)
            .is_ok()
    );
    assert_eq!(deck.next_free_card, 0);
    assert!(
        on_player_state_change(&mut deck, &mut player, &PlayerState::NotPlaying, &PlayerState::Bid)
            .is_ok()
    );
    assert_eq!(player.hand, Some(hand_of(&[Value::Two, Value::Three])));
    assert_eq!(ContractError::UnexpectedTransition.kind(), ErrorKind::InvariantViolation);
}

#[test]
fn hitting_without_a_hand_is_refused() {
    let mut deck = GameDeck { deck: vec![card(Value::Two)], next_free_card: 0 };
    let mut player =
        Player { address: "ann".to_string(), hand: None, state: PlayerState::Bid };
    assert_eq!(on_player_hit(&mut deck, &mut player), Err(ContractError::MissingHand));
    assert_eq!(deck.next_free_card, 0);
}

#[test]
fn phase_changes_outside_the_rules_are_refused() {
    let mut deps = two_seated();
    let mut out = vec![];
    let env = env_with("any", 0, 0);
    assert_eq!(
        on_game_state_change(&mut deps, &env, &GameState::DealerTurn, &mut out),
        Err(ContractError::UnexpectedTransition)
    );
    deps.table.state = GameState::NoPlayers;
    assert_eq!(
        on_game_state_change(&mut deps, &env, &GameState::NoPlayers, &mut out),
        Err(ContractError::UnexpectedTransition)
    );
}

#[test]
fn advance_without_waiting_or_holding_players_only_restarts_on_request() {
    let mut deps = fresh();
    let env = env_with("any", 5, 0);
    deps.table.state =
        GameState::PlayerTurn { player_seat: 2, is_first: true, turn_start_time: 0 };
    let before = deps.clone();
    assert!(advance_to_next_player(&mut deps, &env, 2, false).is_ok());
    assert_eq!(deps, before);
    assert!(advance_to_next_player(&mut deps, &env, 2, true).is_ok());
    assert_eq!(deps.table.state, GameState::NoPlayers);
}

#[test]
fn begin_round_lays_out_the_given_deck() {
    let mut deps = fresh();
    deps.table.players[2].address = "ann".to_string();
    deps.table.players_count = 1;
    begin_round(&mut deps, 2, 44, vec![card(Value::Two), card(Value::Three)]);
    assert!(deps.is_wf());
    assert_eq!(deps.secret, 2);
    assert_eq!(deps.deck.deck, vec![card(Value::Two), card(Value::Three)]);
    assert_eq!(
        deps.table.state,
        GameState::PlayerTurn { player_seat: 2, is_first: true, turn_start_time: 44 }
    );
}

#[test]
fn failed_steps_of_a_round_change_nothing() {
    let mut deps = fresh();
    rig(&mut deps, &[Value::Ten, Value::Six]);
    let before = deps.clone();
    assert_eq!(play_dealer(&mut deps), Err(ContractError::DeckExhausted));
    assert_eq!(deps, before);

    let mut deps = two_seated();
    deps.secret = u64::MAX;
    deps.table.players[0].hand = Some(hand_of(&[Value::Ten]));
    let before = deps.clone();
    let env = env_with("any", 9, 0);
    assert_eq!(
        blackjack_table::game::contract::start_new_round(&mut deps, &env),
        Err(ContractError::RoundSecretExhausted)
    );
    assert_eq!(deps, before);

    // The dealer plays and the round is settled, but no new round can start.
    let mut deps = two_seated();
    rig(&mut deps, &[Value::Five, Value::Ace, Value::King, Value::Ten, Value::Eight]);
    assert!(bid(&mut deps, env_with("ann", 15, 100), 0, 100, 750).is_ok());
    deps.table.players[0].state = PlayerState::Hold;
    deps.table.state = GameState::DealerTurn;
    deps.secret = u64::MAX;
    let before = deps.clone();
    let mut out = vec![Instruction::Send {
        from_address: "a".to_string(),
        to_address: "b".to_string(),
        amount: 1,
    }];
    let prev = GameState::PlayerTurn { player_seat: 0, is_first: false, turn_start_time: 0 };
    assert_eq!(
        on_game_state_change(&mut deps, &env, &prev, &mut out),
        Err(ContractError::RoundSecretExhausted)
    );
    assert_eq!(deps, before);
    assert_eq!(out.len(), 1);
}
