use blackjack::contract::CardsContract;
use blackjack::storage::STORAGE_DEPOSIT_REQUIRED;
use blackjack::types::{GameState, HandResult, PlayerMove, PlayerWinning, WinningsDistribution};

fn alice() -> String {
    "alice".to_string()
}

fn bob() -> String {
    "bob".to_string()
}

fn charlie() -> String {
    "charlie".to_string()
}

fn funded_contract(who: &String) -> CardsContract {
    let mut contract = CardsContract::new(alice(), 0);
    contract.storage_deposit(who, None, STORAGE_DEPOSIT_REQUIRED, 0);
    contract.claim(who, 0);
    contract
}

/// Sum of all registered balances plus all outstanding stakes.
fn balances_plus_stakes(c: &CardsContract) -> u128 {
    let mut total: u128 = 0;
    for rec in &c.accounts {
        total += rec.data.balance;
    }
    for seat in &c.seats {
        if let Some(p) = seat {
            total += p.total_burned_this_round;
        }
    }
    total
}

#[test]
fn test_full_round_with_double() {
    // Join seat 1 with a funded account, bet 10, double, settle with 40.
    let mut contract = funded_contract(&bob());
    assert!(contract.take_seat(&bob(), 1, 0));
    assert!(contract.game_mode(&alice(), GameState::Betting, 0));

    assert!(contract.bet(&bob(), 10, 0));
    assert_eq!(contract.get_balance(&bob()), 990);
    let bets = contract.get_bets_signals(1);
    assert_eq!(bets.len(), 1);
    assert_eq!(bets[0].amount, 10);

    assert!(contract.game_mode(&alice(), GameState::PlayerTurn, 0));
    assert_eq!(contract.get_game_state().current_player_seat, Some(1));

    assert!(contract.make_move(&bob(), PlayerMove::Double, 1, 0));
    assert_eq!(contract.get_balance(&bob()), 980);
    let view = contract.get_seat_player(1, 0).unwrap();
    assert_eq!(view.hands[0].bet_amount, 20);
    assert!(view.hands[0].is_finished);

    let distribution = WinningsDistribution {
        round_number: 1,
        distributions: vec![PlayerWinning {
            account_id: bob(),
            seat_number: 1,
            bet_amount: 20,
            winnings: 40,
            result: HandResult::Win,
            hand_index: 1,
        }],
        timestamp: 0,
        total_minted: 40,
    };
    assert!(contract.distribute_winnings(&alice(), &distribution, 0));
    assert_eq!(contract.get_balance(&bob()), 1020);
    let view = contract.get_seat_player(1, 0).unwrap();
    assert_eq!(view.hands.len(), 0);
    assert_eq!(contract.round_number, 2);
    assert_eq!(contract.get_bets_signals(1).len(), 0);
    assert_eq!(contract.get_moves_signals(1).len(), 0);
}

#[test]
fn test_skip_unstaked_and_fall_to_dealer() {
    // Two players seated, only seat 1 bets.
    let mut contract = funded_contract(&bob());
    contract.storage_deposit(&charlie(), None, STORAGE_DEPOSIT_REQUIRED, 0);
    contract.claim(&charlie(), 0);
    assert!(contract.take_seat(&bob(), 1, 0));
    assert!(contract.take_seat(&charlie(), 2, 0));
    assert!(contract.game_mode(&alice(), GameState::Betting, 0));
    assert!(contract.bet(&bob(), 10, 0));

    // Seat 2 is skipped: it holds no stake.
    assert!(contract.game_mode(&alice(), GameState::PlayerTurn, 0));
    assert_eq!(contract.get_game_state().current_player_seat, Some(1));

    // Seat 1 stands: the hand is finished.
    assert!(contract.make_move(&bob(), PlayerMove::Stand, 1, 0));
    assert!(contract.get_seat_player(1, 0).unwrap().hands[0].is_finished);

    // The forced advance finds no further eligible seat and falls
    // through to the dealer's turn.
    assert!(contract.force_next_player(&alice(), 0));
    assert_eq!(contract.game_state, GameState::DealerTurn);
    assert_eq!(contract.get_game_state().current_player_seat, None);
}

#[test]
fn test_invalid_denomination_rejected() {
    // An account holding balance 5 attempts a 5-chip bet while the valid
    // denominations are 10, 30, 50 and 100.
    let mut contract = CardsContract::new(alice(), 0);
    contract.storage_deposit(&bob(), None, STORAGE_DEPOSIT_REQUIRED, 0);
    contract.accounts[0].data.balance = 5;
    contract.total_supply = 5;
    assert!(contract.take_seat(&bob(), 1, 0));
    assert!(contract.game_mode(&alice(), GameState::Betting, 0));

    assert!(!contract.bet(&bob(), 5, 0));
    assert_eq!(contract.get_balance(&bob()), 5);
    assert_eq!(contract.get_bets_signals(1).len(), 0);
}

#[test]
fn test_conservation_through_a_round() {
    let mut contract = funded_contract(&bob());
    contract.storage_deposit(&charlie(), None, STORAGE_DEPOSIT_REQUIRED, 0);
    contract.claim(&charlie(), 0);
    assert!(contract.take_seat(&bob(), 1, 0));
    assert!(contract.take_seat(&charlie(), 2, 0));
    assert_eq!(balances_plus_stakes(&contract), 2000);

    contract.game_mode(&alice(), GameState::Betting, 0);
    contract.bet(&bob(), 50, 0);
    contract.bet(&charlie(), 30, 0);
    // Balances plus stakes stay constant while supply dropped by the burns.
    assert_eq!(balances_plus_stakes(&contract), 2000);
    assert_eq!(contract.total_supply, 1920);

    // Leaving during betting refunds exactly the stake.
    assert!(contract.leave_seat(&charlie(), 0));
    assert_eq!(contract.get_balance(&charlie()), 1000);
    assert_eq!(balances_plus_stakes(&contract), 2000);

    // Settlement mints the winnings; afterwards no stake is outstanding
    // and the sum of balances equals the supply again.
    let distribution = WinningsDistribution {
        round_number: 1,
        distributions: vec![PlayerWinning {
            account_id: bob(),
            seat_number: 1,
            bet_amount: 50,
            winnings: 75,
            result: HandResult::Win,
            hand_index: 1,
        }],
        timestamp: 0,
        total_minted: 75,
    };
    assert!(contract.distribute_winnings(&alice(), &distribution, 0));
    assert_eq!(contract.get_balance(&bob()), 1025);
    assert_eq!(balances_plus_stakes(&contract), 2025);
    assert_eq!(contract.total_supply, 2025);
}

#[test]
fn test_seat_exclusivity() {
    let mut contract = funded_contract(&bob());
    contract.storage_deposit(&charlie(), None, STORAGE_DEPOSIT_REQUIRED, 0);
    assert!(contract.take_seat(&bob(), 1, 0));

    // The seat is occupied.
    assert!(!contract.take_seat(&charlie(), 1, 0));
    // The caller is already seated elsewhere.
    assert!(!contract.take_seat(&bob(), 2, 0));
    // A different free seat works.
    assert!(contract.take_seat(&charlie(), 2, 0));
}

#[test]
fn test_turn_ownership() {
    let mut contract = funded_contract(&bob());
    contract.storage_deposit(&charlie(), None, STORAGE_DEPOSIT_REQUIRED, 0);
    contract.claim(&charlie(), 0);
    assert!(contract.take_seat(&bob(), 1, 0));
    assert!(contract.take_seat(&charlie(), 2, 0));
    contract.game_mode(&alice(), GameState::Betting, 0);
    contract.bet(&bob(), 10, 0);
    contract.bet(&charlie(), 10, 0);
    contract.game_mode(&alice(), GameState::PlayerTurn, 0);
    assert_eq!(contract.get_game_state().current_player_seat, Some(1));

    // Seat 2 does not hold the turn and cannot move.
    assert!(!contract.make_move(&charlie(), PlayerMove::Hit, 1, 0));

    // After the admin skips seat 1, the turn belongs to seat 2 — and
    // seat 1 can no longer move.
    assert!(contract.force_next_player(&alice(), 0));
    assert_eq!(contract.get_game_state().current_player_seat, Some(2));
    assert!(!contract.make_move(&bob(), PlayerMove::Hit, 1, 0));
    assert!(contract.make_move(&charlie(), PlayerMove::Hit, 1, 0));
}

#[test]
fn test_finished_hand_takes_no_move() {
    let mut contract = funded_contract(&bob());
    assert!(contract.take_seat(&bob(), 1, 0));
    contract.game_mode(&alice(), GameState::Betting, 0);
    contract.bet(&bob(), 10, 0);
    contract.game_mode(&alice(), GameState::PlayerTurn, 0);

    assert!(contract.make_move(&bob(), PlayerMove::Stand, 1, 0));
    // Once finished, the hand takes no hit, stand, double or split.
    assert!(!contract.make_move(&bob(), PlayerMove::Hit, 1, 0));
    assert!(!contract.make_move(&bob(), PlayerMove::Stand, 1, 0));
    assert!(!contract.make_move(&bob(), PlayerMove::Double, 1, 0));
    assert!(!contract.make_move(&bob(), PlayerMove::Split, 1, 0));
}

#[test]
fn test_split_at_most_once() {
    let mut contract = funded_contract(&bob());
    assert!(contract.take_seat(&bob(), 1, 0));
    contract.game_mode(&alice(), GameState::Betting, 0);
    contract.bet(&bob(), 100, 0);
    contract.game_mode(&alice(), GameState::PlayerTurn, 0);

    // The split succeeds once, from hand 1, and play moves to hand 2.
    assert!(contract.make_move(&bob(), PlayerMove::Split, 1, 0));
    assert_eq!(contract.get_balance(&bob()), 800);
    let view = contract.get_seat_player(1, 0).unwrap();
    assert_eq!(view.hands.len(), 2);
    assert_eq!(view.current_hand_index, 2);
    assert_eq!(view.total_burned_this_round, 200);

    // No second split can succeed, on either hand index.
    assert!(!contract.make_move(&bob(), PlayerMove::Split, 2, 0));
    assert!(!contract.make_move(&bob(), PlayerMove::Split, 1, 0));

    // Finishing hand 2 hands play back to hand 1.
    assert!(contract.make_move(&bob(), PlayerMove::Stand, 2, 0));
    let view = contract.get_seat_player(1, 0).unwrap();
    assert_eq!(view.current_hand_index, 1);
}

#[test]
fn test_stale_settlement_rejected() {
    let mut contract = funded_contract(&bob());
    assert!(contract.take_seat(&bob(), 1, 0));
    contract.game_mode(&alice(), GameState::Betting, 0);
    contract.bet(&bob(), 10, 0);

    let batch = |round: u64| WinningsDistribution {
        round_number: round,
        distributions: vec![PlayerWinning {
            account_id: bob(),
            seat_number: 1,
            bet_amount: 10,
            winnings: 20,
            result: HandResult::Win,
            hand_index: 1,
        }],
        timestamp: 0,
        total_minted: 20,
    };

    // Settling round 1 advances the table to round 2.
    assert!(contract.distribute_winnings(&alice(), &batch(1), 0));
    assert_eq!(contract.round_number, 2);
    let balance_after = contract.get_balance(&bob());

    // A batch for the settled round is rejected whole: nothing credited.
    assert!(!contract.distribute_winnings(&alice(), &batch(1), 0));
    assert_eq!(contract.get_balance(&bob()), balance_after);
    assert_eq!(contract.round_number, 2);
}

#[test]
fn test_leave_refund_during_betting() {
    let mut contract = funded_contract(&bob());
    assert!(contract.take_seat(&bob(), 1, 0));
    contract.game_mode(&alice(), GameState::Betting, 0);
    contract.bet(&bob(), 50, 0);
    assert_eq!(contract.get_balance(&bob()), 950);
    assert_eq!(contract.blackjack_stats.total_tokens_burned_betting, 50);

    // Leaving during betting credits the stake back and reduces the
    // burn-tracking total by exactly the stake.
    assert!(contract.leave_seat(&bob(), 0));
    assert_eq!(contract.get_balance(&bob()), 1000);
    assert_eq!(contract.blackjack_stats.total_tokens_burned_betting, 0);
    assert_eq!(contract.total_supply, 1000);
}

#[test]
fn test_stake_forfeited_outside_refund_phases() {
    let mut contract = funded_contract(&bob());
    assert!(contract.take_seat(&bob(), 1, 0));
    contract.game_mode(&alice(), GameState::Betting, 0);
    contract.bet(&bob(), 50, 0);
    contract.game_mode(&alice(), GameState::PlayerTurn, 0);

    // Leaving mid-round hands nothing back.
    assert!(contract.leave_seat(&bob(), 0));
    assert_eq!(contract.get_balance(&bob()), 950);
    assert_eq!(contract.total_supply, 950);
}

#[test]
fn test_emergency_refund() {
    let mut contract = funded_contract(&bob());
    contract.storage_deposit(&charlie(), None, STORAGE_DEPOSIT_REQUIRED, 0);
    contract.claim(&charlie(), 0);
    assert!(contract.take_seat(&bob(), 1, 0));
    assert!(contract.take_seat(&charlie(), 2, 0));
    contract.game_mode(&alice(), GameState::Betting, 0);
    contract.bet(&bob(), 100, 0);
    contract.bet(&charlie(), 30, 0);
    contract.game_mode(&alice(), GameState::PlayerTurn, 0);

    let refunded = contract.emergency_refund(&alice(), &"maintenance".to_string(), 0);
    assert_eq!(refunded, 2);
    assert_eq!(contract.get_balance(&bob()), 1000);
    assert_eq!(contract.get_balance(&charlie()), 1000);
    assert_eq!(contract.game_state, GameState::WaitingForPlayers);
    assert_eq!(contract.get_bets_signals(1).len(), 0);
}

#[test]
fn test_sweep_inactive_players() {
    let mut contract = funded_contract(&bob());
    assert!(contract.take_seat(&bob(), 1, 0));

    // After 1000 seconds with a 100-second timeout the player is swept.
    let later: u64 = 1_000_000_000_000;
    let removed = contract.sweep_inactive(&alice(), 100_000, later);
    assert_eq!(removed, 1);
    assert!(contract.get_seat_player(1, later).is_none());
}

#[test]
fn test_kick_refunds_like_leave() {
    let mut contract = funded_contract(&bob());
    assert!(contract.take_seat(&bob(), 1, 0));
    contract.game_mode(&alice(), GameState::Betting, 0);
    contract.bet(&bob(), 30, 0);

    assert!(contract.kick_player_by_account(&alice(), &bob(), &"misconduct".to_string(), 0));
    assert_eq!(contract.get_balance(&bob()), 1000);
    assert!(contract.get_seat_player(1, 0).is_none());
}

#[test]
fn test_cleanup_round_signals() {
    let mut contract = funded_contract(&bob());
    assert!(contract.take_seat(&bob(), 1, 0));
    contract.game_mode(&alice(), GameState::Betting, 0);
    contract.bet(&bob(), 10, 0);
    assert_eq!(contract.get_bets_signals(1).len(), 1);

    contract.cleanup_round_signals(&alice(), 1, 1);
    assert_eq!(contract.get_bets_signals(1).len(), 0);
    assert_eq!(contract.get_moves_signals(1).len(), 0);
}

#[test]
fn test_admin_stats_track_stakes_and_signals() {
    let mut contract = funded_contract(&bob());
    assert!(contract.take_seat(&bob(), 1, 0));
    contract.game_mode(&alice(), GameState::Betting, 0);
    contract.bet(&bob(), 50, 0);

    let stats = blackjack::admin::get_admin_stats(&contract, 7);
    assert_eq!(stats.total_active_bets, 50);
    assert_eq!(stats.total_pending_signals, 1);
    assert_eq!(stats.timestamp, 7);
    assert_eq!(stats.contract_stats.total_supply, 950);
}

#[test]
fn test_hit_only_records_intent() {
    let mut contract = funded_contract(&bob());
    assert!(contract.take_seat(&bob(), 1, 0));
    contract.game_mode(&alice(), GameState::Betting, 0);
    contract.bet(&bob(), 10, 0);
    contract.game_mode(&alice(), GameState::PlayerTurn, 0);

    // A hit moves no chips: the contract never evaluates card values.
    assert!(contract.make_move(&bob(), PlayerMove::Hit, 1, 0));
    assert_eq!(contract.get_balance(&bob()), 990);
    let moves = contract.get_moves_signals(1);
    assert_eq!(moves.len(), 1);
    assert_eq!(moves[0].move_type, PlayerMove::Hit);
    assert!(!contract.get_seat_player(1, 0).unwrap().hands[0].is_finished);
}

#[test]
fn test_betting_reset_activates_waiting_players() {
    let mut contract = funded_contract(&bob());
    assert!(contract.take_seat(&bob(), 1, 0));
    contract.game_mode(&alice(), GameState::Betting, 0);
    contract.bet(&bob(), 10, 0);
    contract.game_mode(&alice(), GameState::DealingInitialCards, 0);

    // A player joining mid-round observes until the next betting phase.
    contract.storage_deposit(&charlie(), None, STORAGE_DEPOSIT_REQUIRED, 0);
    contract.claim(&charlie(), 0);
    assert!(contract.take_seat(&charlie(), 2, 0));
    let view = contract.get_seat_player(2, 0).unwrap();
    assert_eq!(view.state, blackjack::types::PlayerState::Observing);

    // Opening the next betting round activates the observer and clears
    // every stake.
    contract.game_mode(&alice(), GameState::Betting, 0);
    let view = contract.get_seat_player(2, 0).unwrap();
    assert_eq!(view.state, blackjack::types::PlayerState::Active);
    assert_eq!(contract.get_seat_player(1, 0).unwrap().total_burned_this_round, 0);
}
