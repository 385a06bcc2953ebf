use blackjack::storage::{
    calculate_blackjack_player_storage_cost, calculate_signals_storage_cost,
    calculate_user_storage_cost, has_sufficient_blackjack_storage, recommended_storage_deposit,
};

#[test]
fn test_storage_calculations() {
    let account = "bob".to_string();
    let user_cost = calculate_user_storage_cost(&account);
    let player_cost = calculate_blackjack_player_storage_cost(&account);

    // Basic sanity checks.
    assert!(user_cost > 0);
    assert!(player_cost > 0);
    assert!(player_cost >= user_cost / 2);

    println!("User storage cost: {} NEAR", user_cost);
    println!("Player storage cost: {} NEAR", player_cost);
}

#[test]
fn test_storage_sufficiency() {
    let account = "bob".to_string();
    let recommended = recommended_storage_deposit(&account);

    assert!(has_sufficient_blackjack_storage(recommended, &account));

    let insufficient = recommended / 2;
    assert!(!has_sufficient_blackjack_storage(insufficient, &account));

    println!("Recommended storage: {} NEAR", recommended);
}

#[test]
fn test_storage_cost_formulas() {
    // The identity contributes its length; a three-character identity
    // makes a 180-byte ledger record at 12e18 per byte.
    let cost = calculate_user_storage_cost(&"bob".to_string());
    assert_eq!(cost, 180 * 12_000_000_000_000_000_000);

    let player = calculate_blackjack_player_storage_cost(&"bob".to_string());
    assert_eq!(player, 609 * 12_000_000_000_000_000_000);

    // A queue of ten signals costs its bytes plus overhead at the higher
    // signal margin.
    let signals = calculate_signals_storage_cost(10);
    assert_eq!(signals, (10 * 128 + 88) * 12_500_000_000_000_000_000);

    // Longer identities cost more.
    let longer = calculate_user_storage_cost(&"a-much-longer-account".to_string());
    assert!(longer > cost);
}
