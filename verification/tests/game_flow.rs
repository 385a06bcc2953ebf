use blackjack::contract::CardsContract;
use blackjack::storage::STORAGE_DEPOSIT_REQUIRED;
use blackjack::types::{GameState, HandResult, PlayerMove, PlayerWinning, WinningsDistribution};

fn alice() -> String {
    "alice".to_string()
}

fn bob() -> String {
    "bob".to_string()
}

fn charlie() -> String {
    "charlie".to_string()
}

/// A contract owned by alice with `who` funded by a deposit and a claim.
fn funded_contract(who: &String) -> CardsContract {
    let mut contract = CardsContract::new(alice(), 0);
    contract.storage_deposit(who, None, STORAGE_DEPOSIT_REQUIRED, 0);
    contract.claim(who, 0);
    contract
}

#[test]
fn test_blackjack_contract_flow() {
    let mut contract = CardsContract::new(alice(), 0);

    // Contract initialization.
    assert_eq!(contract.owner_id, "alice");
    assert_eq!(contract.total_supply, 0);
    assert!(contract.is_admin(&alice()));

    // Storage deposit.
    let balance = contract.storage_deposit(&bob(), None, STORAGE_DEPOSIT_REQUIRED, 0);
    assert!(balance.total >= STORAGE_DEPOSIT_REQUIRED);

    // Claim tokens.
    let claimed = contract.claim(&bob(), 0);
    assert_eq!(claimed, 1000);
    assert_eq!(contract.get_balance(&bob()), 1000);

    // Take seat.
    let joined = contract.take_seat(&bob(), 1, 0);
    assert!(joined);

    // Check game state.
    let game_state = contract.get_game_state();
    assert_eq!(game_state.state, GameState::WaitingForPlayers);
    assert_eq!(game_state.occupied_seats, vec![1]);
    assert_eq!(game_state.available_seats, vec![2, 3]);

    // Check contract stats.
    let stats = contract.get_contract_stats();
    assert_eq!(stats.total_supply, 1000);
    assert_eq!(stats.total_claimed, 1000);
    assert_eq!(stats.active_users, 1);

    let blackjack_stats = contract.get_blackjack_stats();
    assert_eq!(blackjack_stats.total_players_joined, 1);
}

#[test]
fn test_multiple_players_blackjack() {
    let mut contract = CardsContract::new(alice(), 0);

    // Player 1 setup.
    contract.storage_deposit(&bob(), None, STORAGE_DEPOSIT_REQUIRED, 0);
    contract.claim(&bob(), 0);

    // Player 2 setup.
    contract.storage_deposit(&charlie(), None, STORAGE_DEPOSIT_REQUIRED, 0);
    contract.claim(&charlie(), 0);

    // Both players take seats.
    assert!(contract.take_seat(&bob(), 1, 0));
    assert!(contract.take_seat(&charlie(), 2, 0));

    // Check game state.
    let game_state = contract.get_game_state();
    assert_eq!(game_state.occupied_seats, vec![1, 2]);
    assert_eq!(game_state.available_seats, vec![3]);

    // Check contract stats.
    let stats = contract.get_contract_stats();
    assert_eq!(stats.total_supply, 2000);
    assert_eq!(stats.active_users, 2);

    let blackjack_stats = contract.get_blackjack_stats();
    assert_eq!(blackjack_stats.total_players_joined, 2);
}

#[test]
fn test_betting_and_token_burning() {
    let mut contract = funded_contract(&bob());
    contract.take_seat(&bob(), 1, 0);

    // Open betting as admin.
    contract.game_mode(&alice(), GameState::Betting, 0);

    let initial_balance = contract.get_balance(&bob());
    let initial_supply = contract.total_supply;

    // Small bet.
    let bet_placed = contract.bet(&bob(), 10, 0);
    assert!(bet_placed);

    // Verify token burning.
    assert_eq!(contract.get_balance(&bob()), initial_balance - 10);
    assert_eq!(contract.total_supply, initial_supply - 10);
    assert_eq!(contract.total_cards_burned, 10);
    assert_eq!(contract.blackjack_stats.total_tokens_burned_betting, 10);

    // Verify player state.
    let player_view = contract.get_seat_player(1, 0).unwrap();
    assert_eq!(player_view.total_burned_this_round, 10);
    assert_eq!(player_view.hands.len(), 1);
    assert_eq!(player_view.hands[0].bet_amount, 10);
    assert_eq!(player_view.hands[0].hand_index, 1);

    // Check pending bet signals.
    let pending_bets = contract.get_bets_signals(1);
    assert_eq!(pending_bets.len(), 1);
    assert_eq!(pending_bets[0].amount, 10);
    assert_eq!(pending_bets[0].seat_number, 1);
}

#[test]
fn test_full_game_round() {
    let mut contract = funded_contract(&bob());
    contract.take_seat(&bob(), 1, 0);

    // Start betting phase as admin.
    contract.game_mode(&alice(), GameState::Betting, 0);

    // Player bets.
    let balance_before_bet = contract.get_balance(&bob());
    contract.bet(&bob(), 50, 0);
    assert_eq!(contract.get_balance(&bob()), balance_before_bet - 50);

    // Admin distributes winnings: the player wins double.
    let distribution = WinningsDistribution {
        round_number: 1,
        distributions: vec![PlayerWinning {
            account_id: bob(),
            seat_number: 1,
            bet_amount: 50,
            winnings: 100,
            result: HandResult::Win,
            hand_index: 0,
        }],
        timestamp: 0,
        total_minted: 100,
    };
    let distributed = contract.distribute_winnings(&alice(), &distribution, 0);
    assert!(distributed);

    // Verify winnings.
    let final_balance = contract.get_balance(&bob());
    assert_eq!(final_balance, balance_before_bet - 50 + 100);

    // Verify contract stats.
    let stats = contract.get_contract_stats();
    assert_eq!(stats.total_burned, 50);
    assert_eq!(stats.total_supply, balance_before_bet + 50);

    let blackjack_stats = contract.get_blackjack_stats();
    assert_eq!(blackjack_stats.total_tokens_burned_betting, 50);
    assert_eq!(blackjack_stats.total_winnings_distributed, 100);
    assert_eq!(blackjack_stats.total_hands_dealt, 1);

    // Verify signals were cleared.
    assert_eq!(contract.get_bets_signals(1).len(), 0);
    assert_eq!(contract.get_moves_signals(1).len(), 0);
}

#[test]
fn test_admin_functions_integration() {
    let mut contract = CardsContract::new(alice(), 0);

    // Admin controls game state.
    let advanced = contract.game_mode(&alice(), GameState::Betting, 0);
    assert!(advanced);

    let game_state = contract.get_game_state();
    assert_eq!(game_state.state, GameState::Betting);

    // Owner can pause globally.
    contract.global_pause(&alice(), "Emergency maintenance".to_string());
    assert_eq!(contract.is_globally_paused, Some(true));

    // Player operations are rejected while paused.
    assert!(!contract.take_seat(&bob(), 1, 0));
    assert!(!contract.bet(&bob(), 10, 0));

    // Owner resumes.
    contract.global_resume(&alice());
    assert_eq!(contract.is_globally_paused, Some(false));
}

#[test]
fn test_seat_lookup_helpers() {
    let mut contract = funded_contract(&bob());
    assert!(contract.take_seat(&bob(), 2, 0));

    // The seat lookup helpers agree on who sits where.
    let found = blackjack::player::get_player_at_seat(&contract, 2).unwrap();
    assert_eq!(found.account_id, "bob");
    assert_eq!(found.seat_number, 2);
    assert!(blackjack::player::get_player_at_seat(&contract, 1).is_none());
    assert_eq!(blackjack::player::is_player_seated(&contract, &bob()), Some(2));
    assert_eq!(blackjack::player::count_active_players(&contract), 1);

    // Every occupied seat appears among the player views.
    let all = contract.get_all_players(0);
    assert_eq!(all.len(), 1);
    assert_eq!(all[0].seat_number, 2);
}

#[test]
fn test_error_conditions() {
    let mut contract = CardsContract::new(alice(), 0);

    // Game operations without taking a seat first.
    let bet_placed = contract.bet(&bob(), 50, 0);
    assert!(!bet_placed);

    // Invalid seat numbers.
    let joined = contract.take_seat(&bob(), 0, 0);
    assert!(!joined);
    let joined = contract.take_seat(&bob(), 4, 0);
    assert!(!joined);

    // A move without a seat or a turn.
    assert!(!contract.make_move(&bob(), PlayerMove::Hit, 1, 0));
}
