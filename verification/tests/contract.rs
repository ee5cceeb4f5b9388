use blackjack_table::chain::{Coin, Env};
use blackjack_table::game::contract::{handle, init, query};
use blackjack_table::game::msg::{GameState, HandleMsg, InitMsg, QueryAnswer, QueryMsg, Table};
use blackjack_table::game::state::{read_table, GameStorage};

fn mock_env(sender: &str, sent: &[Coin]) -> Env {
    Env {
        sender: sender.to_string(),
        sent_funds: sent.to_vec(),
        time: 0,
        contract_address: "cosmos2contract".to_string(),
        contract_code_hash: "".to_string(),
    }
}

fn validate_game_state(table: &Table, expected_state: GameState) -> bool {
    match table.state {
        GameState::NoPlayers => match expected_state {
            GameState::NoPlayers => true,
            GameState::PlayerTurn { .. } => false,
            GameState::DealerTurn => false,
        },
        GameState::PlayerTurn { player_seat, is_first, turn_start_time: _ } => match expected_state {
            GameState::NoPlayers => false,
            GameState::PlayerTurn {
                player_seat: e_player_seat,
                is_first: e_is_first,
                turn_start_time: _,
            } => (player_seat == e_player_seat) && (is_first == e_is_first),
            GameState::DealerTurn => false,
        },
        GameState::DealerTurn => match expected_state {
            GameState::NoPlayers => false,
            GameState::PlayerTurn { .. } => false,
            GameState::DealerTurn => true,
        },
    }
}

fn new_table(sender: &str, secret: u64) -> GameStorage {
    let msg = InitMsg { bank_address: Default::default(), bank_code_hash: "".to_string(), secret };
    let env = mock_env(sender, &[]);
    let (deps, _init_res) = init(env, msg);
    deps
}

#[test]
fn test_sit() {
    let mut deps = new_table("sit", 1234);
    let env = mock_env("sit", &[]);

    // No previous players
    assert!(validate_game_state(&read_table(&deps), GameState::NoPlayers));
    let msg = HandleMsg::Sit { secret: 4321, seat: 4 };

    let res = handle(&mut deps, env.clone(), msg.clone(), 10000000);
    assert!(res.is_ok(), "{:?}", res.unwrap_err());

    let res = handle(&mut deps, env.clone(), msg.clone(), 10000000);
    assert!(res.is_err(), "Seat should have been already taken");

    assert!(validate_game_state(
        &read_table(&deps),
        GameState::PlayerTurn { player_seat: 4, is_first: true, turn_start_time: 0 }
    ));

    let msg = HandleMsg::Sit { secret: 4321, seat: 5 };

    let nenv = mock_env("new_sit", &[]);
    let res = handle(&mut deps, nenv.clone(), msg.clone(), 10000000);
    assert!(res.is_ok(), "{:?}", format!("{:?}", res.unwrap_err()));

    assert!(validate_game_state(
        &read_table(&deps),
        GameState::PlayerTurn { player_seat: 4, is_first: true, turn_start_time: 0 }
    ));
}

#[test]
fn contract_test_stand() {
    let mut deps = new_table("unsit", 1234);
    let env = mock_env("unsit", &[]);

    // No other players
    let msg = HandleMsg::Sit { secret: 4321, seat: 4 };

    let res = handle(&mut deps, env.clone(), msg.clone(), 10000000);
    assert!(res.is_ok(), "{:?}", res.unwrap_err());

    assert!(validate_game_state(
        &read_table(&deps),
        GameState::PlayerTurn { player_seat: 4, is_first: true, turn_start_time: 0 }
    ));

    let msg = HandleMsg::Stand { seat: 5 };

    let res = handle(&mut deps, env.clone(), msg.clone(), 10000000);
    assert!(res.is_err(), "Seat wasn't occupied");

    let msg = HandleMsg::Stand { seat: 4 };

    let res = handle(&mut deps, env.clone(), msg.clone(), 10000000);
    assert!(res.is_ok(), "{:?}", res.unwrap_err());

    assert!(validate_game_state(&read_table(&deps), GameState::NoPlayers));

    let msg = HandleMsg::Sit { secret: 4321, seat: 4 };

    let res = handle(&mut deps, env.clone(), msg.clone(), 10000000);
    assert!(res.is_ok(), "{:?}", res.unwrap_err());

    let nenv = mock_env("new_unsit", &[]);
    let msg = HandleMsg::Sit { secret: 4321, seat: 5 };

    let res = handle(&mut deps, nenv.clone(), msg.clone(), 10000000);
    assert!(res.is_ok(), "{:?}", res.unwrap_err());

    let msg = HandleMsg::Stand { seat: 4 };

    let res = handle(&mut deps, env.clone(), msg.clone(), 10000000);
    assert!(res.is_ok(), "{:?}", res.unwrap_err());

    assert!(validate_game_state(
        &read_table(&deps),
        GameState::PlayerTurn { player_seat: 5, is_first: true, turn_start_time: 0 }
    ));
}

//Query tests
#[test]
fn test_get_user_balance() {
    let deps = new_table("user_balance", 0);
    let msg = QueryMsg::GetUserBalance { address: "user_balance".to_string() };
    match query(&deps, msg) {
        QueryAnswer::GetUserBalance { balance } => assert_eq!(0, balance),
        _ => panic!("QueryAnswer for GetUserBalance should be GetUserBalance"),
    }
}
