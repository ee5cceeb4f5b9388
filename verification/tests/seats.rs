use blackjack_table::chain::Env;
use blackjack_table::error::{ContractError, ErrorKind};
use blackjack_table::game::contract::{
    add_player, get_first_player_to_play, get_player, get_player_seat, get_random_seed, init,
    is_any_player_holding, kick, remove_player, seed_material, sit, stand, start_new_round,
};
use blackjack_table::game::msg::{GameState, InitMsg, PlayerState};
use blackjack_table::game::state::{read_user_balance, Account, GameStorage};

fn env_at(sender: &str, time: u64) -> Env {
    Env {
        sender: sender.to_string(),
        sent_funds: vec![],
        time,
        contract_address: "table".to_string(),
        contract_code_hash: "tablehash".to_string(),
    }
}

fn fresh(secret: u64) -> GameStorage {
    let msg =
        InitMsg { bank_address: "bank".to_string(), bank_code_hash: "bankhash".to_string(), secret };
    init(env_at("creator", 0), msg).0
}

#[test]
fn init_makes_an_empty_resting_table() {
    let msg = InitMsg {
        bank_address: "bank".to_string(),
        bank_code_hash: "bankhash".to_string(),
        secret: 77,
    };
    let (deps, response) = init(env_at("creator", 5), msg);
    assert!(deps.is_wf());
    assert_eq!(deps.table.players_count, 0);
    assert_eq!(deps.table.state, GameState::NoPlayers);
    assert_eq!(deps.table.dealer_hand, None);
    assert_eq!(deps.secret, 77);
    assert_eq!(deps.deck.deck.len(), 0);
    assert_eq!(deps.game_address, "table");
    assert_eq!(deps.bank_address, "bank");
    assert_eq!(
        response.messages,
        vec![blackjack_table::chain::Instruction::UpdateGameAddress {
            contract_addr: "bank".to_string(),
            callback_code_hash: "bankhash".to_string(),
            address: "table".to_string(),
        }]
    );
}

#[test]
fn sit_at_seat_six_fails() {
    let mut deps = fresh(1);
    let before = deps.clone();
    assert_eq!(sit(&mut deps, env_at("ann", 0), 6, 9), Err(ContractError::NoSuchSeat));
    assert_eq!(deps, before);
}

#[test]
fn sit_on_an_occupied_seat_fails() {
    let mut deps = fresh(1);
    assert!(sit(&mut deps, env_at("ann", 0), 2, 9).is_ok());
    let before = deps.clone();
    assert_eq!(sit(&mut deps, env_at("bob", 0), 2, 9), Err(ContractError::SeatTaken { seat: 2 }));
    assert_eq!(deps, before);
}

#[test]
fn second_sit_by_the_same_identity_fails() {
    let mut deps = fresh(1);
    assert!(sit(&mut deps, env_at("ann", 0), 2, 9).is_ok());
    let before = deps.clone();
    assert_eq!(sit(&mut deps, env_at("ann", 0), 3, 9), Err(ContractError::AlreadySeated));
    assert_eq!(deps, before);
}

#[test]
fn sit_without_an_identity_fails() {
    let mut deps = fresh(1);
    assert_eq!(sit(&mut deps, env_at("", 0), 3, 9), Err(ContractError::AlreadySeated));
}

#[test]
fn first_sit_starts_a_round_with_a_shuffled_deck() {
    let mut deps = fresh(10);
    assert!(sit(&mut deps, env_at("ann", 42), 3, 9).is_ok());
    assert!(deps.is_wf());
    assert_eq!(deps.table.players_count, 1);
    assert_eq!(deps.table.players[3].address, "ann");
    assert_eq!(deps.table.players[3].state, PlayerState::NotPlaying);
    assert_eq!(deps.player_secrets[3], 9);
    assert_eq!(
        deps.table.state,
        GameState::PlayerTurn { player_seat: 3, is_first: true, turn_start_time: 42 }
    );
    assert_eq!(deps.secret, 11);
    assert_eq!(deps.deck.next_free_card, 0);
    assert_eq!(deps.deck.deck.len(), 52);
    assert_ne!(deps.deck.deck, blackjack_table::cards::full_deck());
    for c in blackjack_table::cards::full_deck() {
        assert_eq!(deps.deck.deck.iter().filter(|x| **x == c).count(), 1);
    }
}

#[test]
fn later_sit_leaves_the_turn_alone() {
    let mut deps = fresh(10);
    assert!(sit(&mut deps, env_at("ann", 42), 3, 9).is_ok());
    let deck = deps.deck.clone();
    assert!(sit(&mut deps, env_at("bob", 50), 0, 8).is_ok());
    assert_eq!(deps.table.players_count, 2);
    assert_eq!(
        deps.table.state,
        GameState::PlayerTurn { player_seat: 3, is_first: true, turn_start_time: 42 }
    );
    assert_eq!(deps.deck, deck);
    assert_eq!(deps.secret, 11);
}

#[test]
fn seed_is_the_digest_of_counter_and_seated_secrets() {
    let mut deps = fresh(1234);
    assert_eq!(seed_material(&deps, 1234), vec![0, 0, 0, 0, 0, 0, 4, 210]);
    assert_eq!(
        get_random_seed(&deps, 1234),
        [
            77, 140, 71, 195, 193, 200, 55, 150, 64, 17, 68, 24, 130, 215, 69, 247, 233, 45, 16,
            164, 12, 239, 5, 32, 68, 124, 99, 2, 158, 175, 227, 150
        ]
    );
    assert!(add_player(&mut deps, &"ann".to_string(), 4, 4321).is_ok());
    assert_eq!(
        seed_material(&deps, 1234),
        vec![0, 0, 0, 0, 0, 0, 4, 210, 0, 0, 0, 0, 0, 0, 16, 225]
    );
    assert_eq!(
        get_random_seed(&deps, 1234),
        [
            115, 102, 64, 137, 94, 25, 201, 235, 89, 175, 213, 230, 98, 109, 21, 135, 217, 37, 98,
            44, 100, 43, 30, 71, 102, 173, 46, 158, 204, 66, 160, 187
        ]
    );
}

#[test]
fn seed_takes_secrets_in_seat_order_and_skips_empty_seats() {
    let mut deps = fresh(7);
    assert!(add_player(&mut deps, &"late".to_string(), 5, 2).is_ok());
    assert!(add_player(&mut deps, &"early".to_string(), 0, 1).is_ok());
    deps.player_secrets[3] = 99;
    assert_eq!(
        seed_material(&deps, 0x0102030405060708),
        vec![1, 2, 3, 4, 5, 6, 7, 8, 0, 0, 0, 0, 0, 0, 0, 1, 0, 0, 0, 0, 0, 0, 0, 2]
    );
    assert_eq!(
        get_random_seed(&deps, 7),
        [
            87, 113, 176, 57, 191, 210, 209, 119, 120, 49, 9, 90, 78, 154, 221, 58, 245, 106, 109,
            114, 68, 3, 146, 41, 138, 221, 221, 173, 174, 133, 108, 232
        ]
    );
}

#[test]
fn same_secrets_give_the_same_deck_and_other_secrets_another() {
    let mut a = fresh(5);
    let mut b = fresh(5);
    let mut c = fresh(5);
    assert!(sit(&mut a, env_at("ann", 1), 0, 100).is_ok());
    assert!(sit(&mut b, env_at("ann", 2), 0, 100).is_ok());
    assert!(sit(&mut c, env_at("ann", 1), 0, 101).is_ok());
    assert_eq!(a.deck, b.deck);
    assert_ne!(a.deck, c.deck);
}

#[test]
fn round_counter_at_its_end_stops_new_rounds() {
    let mut deps = fresh(u64::MAX);
    let before = deps.clone();
    assert_eq!(
        sit(&mut deps, env_at("ann", 1), 0, 100),
        Err(ContractError::RoundSecretExhausted)
    );
    assert_eq!(deps, before);
    assert_eq!(ContractError::RoundSecretExhausted.kind(), ErrorKind::InvariantViolation);
}

#[test]
fn stand_fails_for_bad_seat_empty_seat_and_wrong_caller() {
    let mut deps = fresh(1);
    assert!(sit(&mut deps, env_at("ann", 0), 2, 9).is_ok());
    let before = deps.clone();
    assert_eq!(stand(&mut deps, env_at("ann", 0), 6), Err(ContractError::NoSuchSeat));
    assert_eq!(stand(&mut deps, env_at("ann", 0), 1), Err(ContractError::SeatEmpty { seat: 1 }));
    assert_eq!(
        stand(&mut deps, env_at("bob", 0), 2),
        Err(ContractError::NotSeatedHere { seat: 2 })
    );
    assert_eq!(deps, before);
    assert_eq!(ContractError::NotSeatedHere { seat: 2 }.kind(), ErrorKind::Authorization);
}

#[test]
fn stand_of_the_last_player_brings_the_table_to_rest() {
    let mut deps = fresh(1);
    assert!(sit(&mut deps, env_at("ann", 0), 2, 9).is_ok());
    deps.balances.push(Account { address: "ann".to_string(), balance: 5 });
    let res = stand(&mut deps, env_at("ann", 7), 2).unwrap();
    assert!(res.messages.is_empty());
    assert!(deps.is_wf());
    assert_eq!(deps.table.players_count, 0);
    assert_eq!(deps.table.players[2].address, "");
    assert_eq!(deps.table.state, GameState::NoPlayers);
    assert_eq!(deps.player_secrets[2], 0);
    assert_eq!(read_user_balance(&deps, &"ann".to_string()), 0);
}

#[test]
fn stand_passes_the_turn_to_the_next_waiting_seat() {
    let mut deps = fresh(1);
    assert!(sit(&mut deps, env_at("ann", 0), 1, 9).is_ok());
    assert!(sit(&mut deps, env_at("bob", 0), 3, 9).is_ok());
    assert!(sit(&mut deps, env_at("cat", 0), 4, 9).is_ok());
    assert!(stand(&mut deps, env_at("ann", 30), 1).is_ok());
    assert_eq!(
        deps.table.state,
        GameState::PlayerTurn { player_seat: 3, is_first: true, turn_start_time: 30 }
    );
    assert_eq!(deps.table.players_count, 2);
}

#[test]
fn stand_of_the_last_seat_in_order_starts_a_new_round() {
    let mut deps = fresh(1);
    assert!(sit(&mut deps, env_at("ann", 0), 4, 9).is_ok());
    assert!(sit(&mut deps, env_at("bob", 0), 1, 9).is_ok());
    let counter = deps.secret;
    assert!(stand(&mut deps, env_at("ann", 30), 4).is_ok());
    assert_eq!(
        deps.table.state,
        GameState::PlayerTurn { player_seat: 1, is_first: true, turn_start_time: 30 }
    );
    assert_eq!(deps.secret, counter + 1);
    assert_eq!(deps.deck.next_free_card, 0);
}

#[test]
fn kick_before_three_hundred_seconds_fails() {
    let mut deps = fresh(1);
    assert!(sit(&mut deps, env_at("ann", 1000), 2, 9).is_ok());
    assert!(sit(&mut deps, env_at("bob", 1000), 4, 9).is_ok());
    let before = deps.clone();
    assert_eq!(
        kick(&mut deps, env_at("bob", 1299), "ann".to_string(), 2),
        Err(ContractError::TooEarlyToKick)
    );
    assert_eq!(
        kick(&mut deps, env_at("bob", 999), "ann".to_string(), 2),
        Err(ContractError::TooEarlyToKick)
    );
    assert_eq!(deps, before);
}

#[test]
fn kick_at_three_hundred_seconds_removes_and_advances() {
    let mut deps = fresh(1);
    assert!(sit(&mut deps, env_at("ann", 1000), 2, 9).is_ok());
    assert!(sit(&mut deps, env_at("bob", 1000), 4, 9).is_ok());
    let res = kick(&mut deps, env_at("zed", 1300), "ann".to_string(), 2).unwrap();
    assert!(res.messages.is_empty());
    assert!(deps.is_wf());
    assert_eq!(deps.table.players[2].address, "");
    assert_eq!(deps.table.players_count, 1);
    assert_eq!(
        deps.table.state,
        GameState::PlayerTurn { player_seat: 4, is_first: true, turn_start_time: 1300 }
    );
}

#[test]
fn kick_fails_for_other_seats_wrong_targets_and_resting_tables() {
    let mut deps = fresh(1);
    assert_eq!(
        kick(&mut deps, env_at("zed", 5000), "ann".to_string(), 2),
        Err(ContractError::KickNotCurrent)
    );
    assert!(sit(&mut deps, env_at("ann", 1000), 2, 9).is_ok());
    assert!(sit(&mut deps, env_at("bob", 1000), 4, 9).is_ok());
    let before = deps.clone();
    assert_eq!(
        kick(&mut deps, env_at("zed", 5000), "bob".to_string(), 4),
        Err(ContractError::KickNotCurrent)
    );
    assert_eq!(
        kick(&mut deps, env_at("zed", 5000), "bob".to_string(), 2),
        Err(ContractError::WrongAddress)
    );
    assert_eq!(deps, before);
    assert_eq!(ContractError::WrongAddress.kind(), ErrorKind::Authorization);
    assert_eq!(ContractError::KickNotCurrent.kind(), ErrorKind::Validation);
}

#[test]
fn seats_are_found_by_identity() {
    let mut deps = fresh(1);
    assert!(add_player(&mut deps, &"ann".to_string(), 5, 1).is_ok());
    assert_eq!(get_player_seat(&deps.table, &"ann".to_string()), Ok(5));
    assert_eq!(
        get_player_seat(&deps.table, &"bob".to_string()),
        Err(ContractError::PlayerNotFound)
    );
    assert_eq!(ContractError::PlayerNotFound.kind(), ErrorKind::NotFound);
    assert_eq!(get_first_player_to_play(&deps.table), Ok(5));
    assert!(!is_any_player_holding(&deps.table));
    deps.table.players[5].state = PlayerState::Hold;
    assert_eq!(get_first_player_to_play(&deps.table), Err(ContractError::PlayerNotFound));
    assert!(is_any_player_holding(&deps.table));
}

#[test]
fn get_player_checks_seat_and_identity() {
    let mut deps = fresh(1);
    assert!(add_player(&mut deps, &"ann".to_string(), 5, 1).is_ok());
    assert_eq!(get_player(&mut deps.table, None, 6).err(), Some(ContractError::NoSuchSeat));
    assert_eq!(
        get_player(&mut deps.table, Some(&"bob".to_string()), 5).err(),
        Some(ContractError::WrongAddress)
    );
    let player = get_player(&mut deps.table, Some(&"ann".to_string()), 5).unwrap();
    player.state = PlayerState::Bid;
    assert_eq!(deps.table.players[5].state, PlayerState::Bid);
    assert!(get_player(&mut deps.table, None, 0).is_ok());
}

#[test]
fn add_and_remove_player_keep_the_count() {
    let mut deps = fresh(1);
    assert_eq!(
        add_player(&mut deps, &"ann".to_string(), 6, 1),
        Err(ContractError::NoSuchSeat)
    );
    assert!(add_player(&mut deps, &"ann".to_string(), 0, 1).is_ok());
    assert_eq!(
        add_player(&mut deps, &"bob".to_string(), 0, 1),
        Err(ContractError::SeatTaken { seat: 0 })
    );
    assert_eq!(
        add_player(&mut deps, &"ann".to_string(), 1, 1),
        Err(ContractError::AlreadySeated)
    );
    assert_eq!(deps.table.players_count, 1);
    assert_eq!(
        remove_player(&mut deps, &"ann".to_string(), 6),
        Err(ContractError::NoSuchSeat)
    );
    assert_eq!(
        remove_player(&mut deps, &"bob".to_string(), 0),
        Err(ContractError::WrongAddress)
    );
    assert_eq!(
        remove_player(&mut deps, &"".to_string(), 1),
        Err(ContractError::SeatEmpty { seat: 1 })
    );
    assert!(remove_player(&mut deps, &"ann".to_string(), 0).is_ok());
    assert_eq!(deps.table.players_count, 0);
    assert_eq!(deps.player_secrets[0], 0);
}

#[test]
fn new_round_without_waiting_players_clears_the_dealer() {
    let mut deps = fresh(3);
    deps.table.dealer_hand = Some(blackjack_table::game::msg::PlayerHand::new());
    assert!(start_new_round(&mut deps, &env_at("any", 9)).is_ok());
    assert_eq!(deps.table.state, GameState::NoPlayers);
    assert_eq!(deps.table.dealer_hand, None);
    assert_eq!(deps.secret, 3);
}
