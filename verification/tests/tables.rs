use blackjack::contract::CardsContract;
use blackjack::table::{
    all_players_bet, can_start_round, cleanup_expired_tables, create_table, find_available_table,
    get_next_player_in_turn, get_table_stats, get_table_view, remove_table, set_current_player,
    set_table_state, GameTable, TablePlayer,
};
use blackjack::types::{GameState, PlayerState};

fn alice() -> String {
    "alice".to_string()
}

#[test]
fn test_create_table() {
    let mut contract = CardsContract::new(alice(), 0);
    let table_id = create_table(&mut contract, Some("test-table".to_string()), 0).unwrap();

    assert_eq!(table_id, "test-table");
    assert!(get_table_view(&contract, &table_id, 0).is_some());

    let table_view = get_table_view(&contract, &table_id, 0).unwrap();
    assert_eq!(table_view.state, GameState::WaitingForPlayers);
    assert_eq!(table_view.available_seats, vec![1, 2, 3]);
    assert!(table_view.is_active);
}

#[test]
fn test_table_state_transitions() {
    let mut contract = CardsContract::new(alice(), 0);
    let table_id = create_table(&mut contract, Some("test-table".to_string()), 0).unwrap();

    // Test state transitions.
    assert!(set_table_state(&mut contract, &table_id, GameState::Betting, 0));
    let table_view = get_table_view(&contract, &table_id, 0).unwrap();
    assert_eq!(table_view.state, GameState::Betting);
    assert!(table_view.betting_deadline.is_some());

    assert!(set_table_state(&mut contract, &table_id, GameState::PlayerTurn, 0));
    let table_view = get_table_view(&contract, &table_id, 0).unwrap();
    assert_eq!(table_view.state, GameState::PlayerTurn);
    assert!(table_view.move_deadline.is_some());
    assert!(table_view.betting_deadline.is_none());
}

#[test]
fn test_find_available_table() {
    let mut contract = CardsContract::new(alice(), 0);

    // No tables initially.
    assert!(find_available_table(&contract, 0).is_none());

    // Create an available table.
    let table_id = create_table(&mut contract, Some("available-table".to_string()), 0).unwrap();
    let available = find_available_table(&contract, 0);
    assert!(available.is_some());
    assert_eq!(available.unwrap().id, table_id);

    // A table mid-round cannot be joined.
    set_table_state(&mut contract, &table_id, GameState::PlayerTurn, 0);
    let available = find_available_table(&contract, 0);
    assert!(available.is_none());
}

#[test]
fn test_table_cleanup() {
    let mut contract = CardsContract::new(alice(), 0);
    let table_id = create_table(&mut contract, Some("cleanup-test".to_string()), 0).unwrap();

    // Table should exist.
    assert!(get_table_view(&contract, &table_id, 0).is_some());

    // Simulate time passing: 1000 hours later, in nanoseconds.
    let later: u64 = 1000 * 60 * 60 * 1_000_000_000;

    // Cleanup expired tables with a one-hour timeout, in milliseconds.
    let removed = cleanup_expired_tables(&mut contract, 60 * 60 * 1000, later);
    assert_eq!(removed, 1);
    assert!(get_table_view(&contract, &table_id, later).is_none());
}

#[test]
fn test_generated_table_ids() {
    let mut contract = CardsContract::new(alice(), 0);
    let first = create_table(&mut contract, None, 0).unwrap();
    let second = create_table(&mut contract, None, 0).unwrap();
    assert_eq!(first, "table-1");
    assert_eq!(second, "table-2");

    // A duplicate explicit id is rejected without a change.
    assert!(create_table(&mut contract, Some("table-1".to_string()), 0).is_none());
    assert_eq!(contract.game_tables.len(), 2);
}

#[test]
fn test_remove_table_is_idempotent() {
    let mut contract = CardsContract::new(alice(), 0);
    let table_id = create_table(&mut contract, Some("doomed".to_string()), 0).unwrap();
    remove_table(&mut contract, &table_id, &"closing".to_string());
    assert!(get_table_view(&contract, &table_id, 0).is_none());
    // Removing an absent table changes nothing.
    remove_table(&mut contract, &table_id, &"closing".to_string());
    assert_eq!(contract.game_tables.len(), 0);
}

/// A hand-built occupied table, for exercising the per-table turn logic.
fn seated_table(id: &str) -> GameTable {
    GameTable {
        id: id.to_string(),
        state: GameState::PlayerTurn,
        players: vec![
            TablePlayer {
                account_id: "bob".to_string(),
                seat_number: 2,
                state: PlayerState::Active,
                burned_tokens: 30,
                pending_move: None,
                last_action_time: 0,
            },
            TablePlayer {
                account_id: "charlie".to_string(),
                seat_number: 1,
                state: PlayerState::Active,
                burned_tokens: 10,
                pending_move: None,
                last_action_time: 0,
            },
            TablePlayer {
                account_id: "danny".to_string(),
                seat_number: 3,
                state: PlayerState::Observing,
                burned_tokens: 0,
                pending_move: None,
                last_action_time: 0,
            },
        ],
        current_player_index: None,
        round_number: 1,
        created_at: 0,
        last_activity: 0,
        betting_deadline: None,
        move_deadline: None,
        max_players: 3,
        min_bet: 10,
        max_bet: 1000,
        is_active: true,
        pending_bets: Vec::new(),
        pending_moves: Vec::new(),
    }
}

#[test]
fn test_turn_order_on_table() {
    let mut contract = CardsContract::new(alice(), 0);
    contract.game_tables.push(seated_table("turns"));
    let id = "turns".to_string();

    // The first turn goes to the eligible player on the lowest seat.
    assert!(set_table_state(&mut contract, &id, GameState::PlayerTurn, 0));
    let view = get_table_view(&contract, &id, 0).unwrap();
    // charlie sits on seat 1 and is stored at position 1.
    assert_eq!(view.current_player_index, Some(1));

    // The next player after charlie (seat 1) is bob (seat 2).
    let next = get_next_player_in_turn(&contract, &id, Some(&"charlie".to_string()));
    assert_eq!(next.unwrap(), "bob");

    // After bob the order wraps back to charlie.
    let next = get_next_player_in_turn(&contract, &id, Some(&"bob".to_string()));
    assert_eq!(next.unwrap(), "charlie");

    // The admin override lands on the named player and arms the deadline.
    assert!(set_current_player(&mut contract, &id, &"bob".to_string(), 5));
    let view = get_table_view(&contract, &id, 5).unwrap();
    assert_eq!(view.current_player_index, Some(0));
    assert!(view.move_deadline.is_some());

    // An observer without a stake cannot take the turn.
    assert!(!set_current_player(&mut contract, &id, &"danny".to_string(), 5));
}

#[test]
fn test_table_round_checks() {
    let mut contract = CardsContract::new(alice(), 0);
    contract.game_tables.push(seated_table("checks"));
    let id = "checks".to_string();

    // Mid-round the table cannot start another round.
    assert!(!can_start_round(&contract, &id));
    assert!(set_table_state(&mut contract, &id, GameState::WaitingForPlayers, 0));
    assert!(can_start_round(&contract, &id));

    // Every active player here has staked.
    assert!(all_players_bet(&contract, &id));

    let stats = get_table_stats(&contract, &id, 0).unwrap();
    assert_eq!(stats.total_players, 3);
    assert_eq!(stats.active_players, 2);
    assert_eq!(stats.total_pot, 40);
    assert_eq!(stats.average_bet, 20);
}
