use blackjack::contract::CardsContract;
use blackjack::storage::STORAGE_DEPOSIT_REQUIRED;
use blackjack::tokens::{burn_cards, claim_daily_cards, get_balance, purchase_cards, storage_deposit};

fn alice() -> String {
    "alice".to_string()
}

fn bob() -> String {
    "bob".to_string()
}

#[test]
fn test_claim_cards() {
    let mut contract = CardsContract::new(alice(), 0);
    storage_deposit(&mut contract, &bob(), None, STORAGE_DEPOSIT_REQUIRED, 0);

    let claimed = claim_daily_cards(&mut contract, &bob(), 0);
    assert_eq!(claimed, 1000);
    assert_eq!(get_balance(&contract, &bob()), 1000);
    assert_eq!(contract.total_supply, 1000);
    assert_eq!(contract.total_cards_claimed, 1000);
}

#[test]
fn test_purchase_cards_basic() {
    let mut contract = CardsContract::new(alice(), 0);

    // First deposit storage.
    storage_deposit(&mut contract, &bob(), None, STORAGE_DEPOSIT_REQUIRED, 0);

    // Now purchase the first pack with the exact tier cost attached.
    let one_near: u128 = 1_000_000_000_000_000_000_000_000;
    let purchased = purchase_cards(&mut contract, &bob(), one_near, 0, 0);
    assert_eq!(purchased, 1000);
    assert_eq!(get_balance(&contract, &bob()), 1000);
    assert_eq!(contract.total_cards_purchased, 1000);
}

#[test]
fn test_burn_cards() {
    let mut contract = CardsContract::new(alice(), 0);
    storage_deposit(&mut contract, &bob(), None, STORAGE_DEPOSIT_REQUIRED, 0);
    claim_daily_cards(&mut contract, &bob(), 0);

    // Burn some cards.
    burn_cards(&mut contract, &bob(), 10);
    assert_eq!(get_balance(&contract, &bob()), 990);
    assert_eq!(contract.total_cards_burned, 10);
    assert_eq!(contract.total_supply, 990);
}

#[test]
fn test_purchase_tiers_and_validation() {
    let mut contract = CardsContract::new(alice(), 0);
    contract.storage_deposit(&bob(), None, STORAGE_DEPOSIT_REQUIRED, 0);

    let tier_count = contract.get_purchase_tiers().len();
    assert!(tier_count >= 4);

    // Buy the first two tiers with their exact costs attached.
    let (cost0, cards0) = {
        let t = &contract.get_purchase_tiers()[0];
        (t.near_cost, t.cards_amount)
    };
    let before = contract.get_balance(&bob());
    let purchased = contract.purchase(&bob(), cost0, 0, 0);
    assert_eq!(purchased, cards0);
    assert_eq!(contract.get_balance(&bob()), before + cards0);

    let (cost1, cards1) = {
        let t = &contract.get_purchase_tiers()[1];
        (t.near_cost, t.cards_amount)
    };
    let before = contract.get_balance(&bob());
    let purchased = contract.purchase(&bob(), cost1, 1, 0);
    assert_eq!(purchased, cards1);
    assert_eq!(contract.get_balance(&bob()), before + cards1);

    // An out-of-range tier index is reported as absent.
    assert!(contract.get_tier_info(99).is_none());
}

#[test]
fn test_claim_eligibility_progression() {
    let mut contract = CardsContract::new(alice(), 0);

    // Unregistered accounts cannot claim.
    let before = contract.check_claim_eligibility(&bob(), 0);
    assert!(!before.can_claim);
    assert_eq!(before.current_balance, 0);

    // A deposited account may claim at once.
    contract.storage_deposit(&bob(), None, STORAGE_DEPOSIT_REQUIRED, 0);
    let ready = contract.check_claim_eligibility(&bob(), 0);
    assert!(ready.can_claim);
    assert_eq!(ready.claim_amount, 1000);

    // Right after a claim the interval blocks the next one.
    contract.claim(&bob(), 10);
    let blocked = contract.check_claim_eligibility(&bob(), 20);
    assert!(!blocked.can_claim);

    // Once the interval has passed the claim opens again.
    let after = contract.check_claim_eligibility(&bob(), 10 + 60_000_000_000);
    assert!(after.can_claim);
}

#[test]
fn test_storage_withdraw_releases_excess() {
    let mut contract = CardsContract::new(alice(), 0);
    contract.storage_deposit(&bob(), None, 2 * STORAGE_DEPOSIT_REQUIRED, 0);

    let (balance, withdrawn) = contract.storage_withdraw(&bob(), None);
    assert!(withdrawn > 0);
    let cost = blackjack::storage::calculate_user_storage_cost(&bob());
    assert_eq!(withdrawn, 2 * STORAGE_DEPOSIT_REQUIRED - cost);
    assert_eq!(balance.total, cost);
    assert_eq!(balance.available, 0);
}

#[test]
fn test_update_config_by_owner() {
    let mut contract = CardsContract::new(alice(), 0);
    let update = blackjack::tokens::AdminConfigUpdate {
        daily_claim_amount: Some(500),
        claim_interval: None,
        purchase_rates: None,
    };
    contract.update_token_config(&alice(), update);
    assert_eq!(contract.get_token_config().daily_claim_amount, 500);
    assert_eq!(contract.get_token_config().claim_interval, 60_000_000_000);
}

#[test]
fn test_error_messages() {
    assert_eq!(
        blackjack::types::GameError::SeatOccupied.message(),
        "Seat is already occupied"
    );
    assert_eq!(
        blackjack::types::GameError::NotPlayerTurn.message(),
        "Not your turn"
    );
    assert_eq!(
        blackjack::contract::ContractError::Overflow.message(),
        "Arithmetic overflow"
    );
    assert_eq!(
        blackjack::contract::ContractError::InsufficientBalance.message(),
        "Insufficient token balance"
    );
}
