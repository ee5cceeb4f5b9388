use blackjack_table::cards::{Card, Suit, Value};
use blackjack_table::chain::Env;
use blackjack_table::error::{ContractError, ErrorKind};
use blackjack_table::game::contract::{init, sit};
use blackjack_table::game::msg::{GameDeck, GameState, InitMsg, PlayerHand, PlayerState};
use blackjack_table::game::state::{
    read_bank_address, read_bank_code_hash, read_game_address, read_owner, read_player_secret,
    store_bank_address, store_bank_code_hash, store_deck, store_game_address, store_owner,
    store_player_secret, store_scores, store_table, Account, GameStorage, MAX_STAKE,
};
use blackjack_table::game::validate::StoredParts;

fn env_at(sender: &str) -> Env {
    Env {
        sender: sender.to_string(),
        sent_funds: vec![],
        time: 3,
        contract_address: "table".to_string(),
        contract_code_hash: "tablehash".to_string(),
    }
}

fn seated() -> GameStorage {
    let msg = InitMsg {
        bank_address: "bank".to_string(),
        bank_code_hash: "bankhash".to_string(),
        secret: 1,
    };
    let mut deps = init(env_at("creator"), msg).0;
    assert!(sit(&mut deps, env_at("ann"), 2, 9).is_ok());
    deps
}

fn parts_of(deps: &GameStorage) -> StoredParts {
    StoredParts {
        owner: None,
        bank_code_hash: Some(deps.bank_code_hash.clone()),
        game_address: Some(deps.game_address.clone()),
        bank_address: Some(deps.bank_address.clone()),
        table: Some(deps.table.clone()),
        deck: Some(deps.deck.clone()),
        secret: Some(deps.secret),
        player_secrets: [None, None, Some(9), None, None, None],
        balances: vec![],
        scores: Some(deps.scores.clone()),
    }
}

#[test]
fn stored_parts_come_together() {
    let deps = seated();
    assert_eq!(GameStorage::assemble(parts_of(&deps)), Ok(deps));
}

#[test]
fn missing_parts_are_reported_as_missing() {
    let deps = seated();
    let mut parts = parts_of(&deps);
    parts.table = None;
    assert_eq!(GameStorage::assemble(parts), Err(ContractError::MissingState));
    let mut parts = parts_of(&deps);
    parts.deck = None;
    assert_eq!(GameStorage::assemble(parts), Err(ContractError::MissingState));
    let mut parts = parts_of(&deps);
    parts.bank_address = None;
    assert_eq!(GameStorage::assemble(parts), Err(ContractError::MissingState));
    let mut parts = parts_of(&deps);
    parts.player_secrets[2] = None;
    assert_eq!(GameStorage::assemble(parts), Err(ContractError::MissingState));
    assert_eq!(ContractError::MissingState.kind(), ErrorKind::NotFound);
}

#[test]
fn parts_that_do_not_fit_are_reported_as_corrupt() {
    let deps = seated();
    let mut parts = parts_of(&deps);
    parts.table.as_mut().unwrap().players_count = 3;
    assert_eq!(GameStorage::assemble(parts), Err(ContractError::CorruptState));
    assert_eq!(ContractError::CorruptState.kind(), ErrorKind::InvariantViolation);
}

#[test]
fn consistency_is_decided_at_run_time() {
    let deps = seated();
    assert!(deps.is_wf());

    let mut bad = deps.clone();
    bad.table.players_count = 2;
    assert!(!bad.is_wf());

    let mut bad = deps.clone();
    bad.table.players[4].address = "ann".to_string();
    bad.table.players_count = 2;
    assert!(!bad.is_wf());

    let mut bad = deps.clone();
    bad.table.players[4].state = PlayerState::Hold;
    assert!(!bad.is_wf());

    let mut bad = deps.clone();
    bad.table.state = GameState::DealerTurn;
    assert!(!bad.is_wf());

    let mut bad = deps.clone();
    bad.table.state = GameState::NoPlayers;
    assert!(!bad.is_wf());

    let mut bad = deps.clone();
    bad.table.state = GameState::PlayerTurn { player_seat: 2, is_first: false, turn_start_time: 0 };
    assert!(!bad.is_wf());

    let mut bad = deps.clone();
    bad.table.state = GameState::PlayerTurn { player_seat: 3, is_first: true, turn_start_time: 0 };
    assert!(!bad.is_wf());

    let mut bad = deps.clone();
    bad.table.dealer_hand = Some(PlayerHand {
        cards: vec![Card { value: Value::Ten, suit: Suit::Heart }],
        total_value: 9,
    });
    assert!(!bad.is_wf());

    let mut bad = deps.clone();
    bad.deck = GameDeck { deck: vec![], next_free_card: 1 };
    assert!(!bad.is_wf());

    let mut bad = deps.clone();
    bad.balances.push(Account { address: "ann".to_string(), balance: 1 });
    bad.balances.push(Account { address: "ann".to_string(), balance: 2 });
    assert!(!bad.is_wf());

    let mut bad = deps.clone();
    bad.balances.push(Account { address: "ann".to_string(), balance: MAX_STAKE + 1 });
    assert!(!bad.is_wf());
    assert_eq!(bad.validated(), Err(ContractError::CorruptState));
}

#[test]
fn parts_can_be_stored_and_read() {
    let mut deps = seated();
    store_owner(&mut deps, &"owner".to_string());
    store_game_address(&mut deps, &"g".to_string());
    store_bank_address(&mut deps, &"b".to_string());
    store_bank_code_hash(&mut deps, &"h".to_string());
    assert_eq!(read_owner(&deps), "owner");
    assert_eq!(read_game_address(&deps), "g");
    assert_eq!(read_bank_address(&deps), "b");
    assert_eq!(read_bank_code_hash(&deps), "h");
    assert_eq!(read_player_secret(&deps, 2), Ok(9));
    assert_eq!(store_player_secret(&mut deps, 5, &44), Ok(()));
    assert_eq!(read_player_secret(&deps, 5), Ok(44));
    assert_eq!(store_player_secret(&mut deps, 6, &44), Err(ContractError::NoSuchSeat));
    assert_eq!(read_player_secret(&deps, 6), Err(ContractError::NoSuchSeat));
    let other = seated();
    let deck = GameDeck { deck: vec![], next_free_card: 0 };
    store_deck(&mut deps, &deck);
    store_table(&mut deps, &other.table);
    store_scores(&mut deps, &other.scores);
    assert_eq!(deps.deck, deck);
    assert_eq!(deps.table, other.table);
}
