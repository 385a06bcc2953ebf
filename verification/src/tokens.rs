//! The in-contract chip ledger: registered accounts with balances, the
//! supply counters that move in lockstep with them, claims, purchases
//! and burns.
//!
//! Chip amounts are plain `u128` values; the native-coin amounts that
//! pay for storage and purchases are `u128` yocto-units.

use vstd::prelude::*;

use crate::contract::{
    same_counters, same_game, same_surroundings, same_token_config, staked_total, CardsContract,
};
use crate::model::{
    lemma_sum_by_bounds_elem, lemma_sum_by_nonneg, lemma_sum_by_push, lemma_sum_by_update, sum_by,
};

verus! {

/// One registered account of the chip ledger.
#[derive(Clone, Copy, Debug)]
pub struct UserAccount {
    /// Current chip balance.
    pub balance: u128,
    /// Timestamp of the last claim; zero while no claim was ever made.
    pub last_claim_time: u64,
    pub storage_deposited: bool,
    pub total_claimed: u128,
    pub total_purchased: u128,
    pub total_burned: u128,
    pub registered_at: u64,
}

impl UserAccount {
    /// A fresh account registered at `now`.
    pub open spec fn spec_new(now: u64) -> UserAccount {
        UserAccount {
            balance: 0,
            last_claim_time: 0,
            storage_deposited: false,
            total_claimed: 0,
            total_purchased: 0,
            total_burned: 0,
            registered_at: now,
        }
    }

    pub fn new(now: u64) -> (a: UserAccount)
        ensures
            a == UserAccount::spec_new(now),
    {
        UserAccount {
            balance: 0,
            last_claim_time: 0,
            storage_deposited: false,
            total_claimed: 0,
            total_purchased: 0,
            total_burned: 0,
            registered_at: now,
        }
    }
}

/// A ledger entry: an account identity and its record.
#[derive(Debug)]
pub struct AccountRecord {
    pub account_id: String,
    pub data: UserAccount,
}

/// A storage deposit held for one account, in yocto-units.
#[derive(Debug)]
pub struct DepositRecord {
    pub account_id: String,
    pub amount: u128,
}

/// One purchasable chip pack.
#[derive(Debug)]
pub struct PurchaseTier {
    /// Price in yocto-units of the native coin.
    pub near_cost: u128,
    /// Chips received for the price.
    pub cards_amount: u128,
    pub name: String,
}

impl Clone for PurchaseTier {
    fn clone(&self) -> (r: Self)
        ensures
            r == *self,
    {
        PurchaseTier {
            near_cost: self.near_cost,
            cards_amount: self.cards_amount,
            name: self.name.clone(),
        }
    }
}

/// Ledger-wide configuration.
#[derive(Debug)]
pub struct ContractConfig {
    pub daily_claim_amount: u128,
    /// Minimum time between two claims, in nanoseconds.
    pub claim_interval: u64,
    pub purchase_rates: Vec<PurchaseTier>,
    /// The stake denominations a bet may use.
    pub valid_burn_amounts: Vec<u128>,
}

/// Aggregated ledger statistics.
#[derive(Debug)]
pub struct ContractStats {
    pub total_supply: u128,
    pub total_claimed: u128,
    pub total_purchased: u128,
    pub total_burned: u128,
    pub circulating_supply: u128,
    pub total_users: u64,
    /// Users holding a nonzero balance.
    pub active_users: u64,
}

/// Per-user statistics view.
#[derive(Debug)]
pub struct UserStats {
    pub balance: u128,
    pub last_claim_time: u64,
    pub next_claim_available: u64,
    pub can_claim_now: bool,
    pub total_claimed: u128,
    pub total_purchased: u128,
    pub total_burned: u128,
    pub registered_at: u64,
    pub storage_deposited: bool,
    pub storage_deposit_amount: u128,
    pub storage_used: u128,
    pub storage_available: u128,
}

/// Whether and when an account may claim, as a view.
#[derive(Debug)]
pub struct ClaimEligibility {
    pub can_claim: bool,
    pub reason: String,
    pub next_claim_time: u64,
    pub seconds_until_claim: u64,
    pub claim_amount: u128,
    pub current_balance: u128,
}

/// A storage deposit, split into what is held and what could be taken
/// back, in yocto-units.
#[derive(Clone, Copy, Debug)]
pub struct StorageBalance {
    pub total: u128,
    pub available: u128,
}

/// Bounds on acceptable storage deposits, in yocto-units.
#[derive(Clone, Copy, Debug)]
pub struct StorageBounds {
    pub min: u128,
    pub max: Option<u128>,
}

/// Partial configuration update submitted by the owner.
#[derive(Debug)]
pub struct AdminConfigUpdate {
    pub daily_claim_amount: Option<u128>,
    pub claim_interval: Option<u64>,
    pub purchase_rates: Option<Vec<PurchaseTier>>,
}

/// One minute in nanoseconds.
pub const MINUTE_IN_NS: u64 = 60_000_000_000;

/// One hour in nanoseconds.
pub const HOUR_IN_NS: u64 = 3_600_000_000_000;

/// One day in nanoseconds.
pub const DAY_IN_NS: u64 = 86_400_000_000_000;

/// The configuration a fresh contract starts with: a daily claim of
/// 1000 chips gated by a one-minute interval, four purchase tiers and
/// the four valid stake denominations.
pub open spec fn is_default_config(c: ContractConfig) -> bool {
    &&& c.daily_claim_amount == 1000
    &&& c.claim_interval == MINUTE_IN_NS
    &&& c.purchase_rates@.len() == 4
    &&& c.purchase_rates@[0].near_cost == 1_000_000_000_000_000_000_000_000u128
    &&& c.purchase_rates@[0].cards_amount == 1000
    &&& c.purchase_rates@[1].near_cost == 2_000_000_000_000_000_000_000_000u128
    &&& c.purchase_rates@[1].cards_amount == 2200
    &&& c.purchase_rates@[2].near_cost == 5_000_000_000_000_000_000_000_000u128
    &&& c.purchase_rates@[2].cards_amount == 7000
    &&& c.purchase_rates@[3].near_cost == 10_000_000_000_000_000_000_000_000u128
    &&& c.purchase_rates@[3].cards_amount == 20000
    &&& c.valid_burn_amounts@ =~= seq![10u128, 30u128, 50u128, 100u128]
}

impl Default for ContractConfig {
    fn default() -> (c: ContractConfig)
        ensures
            is_default_config(c),
    {
        let mut purchase_rates: Vec<PurchaseTier> = Vec::new();
        purchase_rates.push(
            PurchaseTier {
                near_cost: 1_000_000_000_000_000_000_000_000,
                cards_amount: 1000,
                name: "Basic Pack".to_owned(),
            },
        );
        purchase_rates.push(
            PurchaseTier {
                near_cost: 2_000_000_000_000_000_000_000_000,
                cards_amount: 2200,
                name: "Value Pack".to_owned(),
            },
        );
        purchase_rates.push(
            PurchaseTier {
                near_cost: 5_000_000_000_000_000_000_000_000,
                cards_amount: 7000,
                name: "Premium Pack".to_owned(),
            },
        );
        purchase_rates.push(
            PurchaseTier {
                near_cost: 10_000_000_000_000_000_000_000_000,
                cards_amount: 20000,
                name: "Ultimate Pack".to_owned(),
            },
        );
        let mut valid_burn_amounts: Vec<u128> = Vec::new();
        valid_burn_amounts.push(10);
        valid_burn_amounts.push(30);
        valid_burn_amounts.push(50);
        valid_burn_amounts.push(100);
        let c = ContractConfig {
            daily_claim_amount: 1000,
            claim_interval: MINUTE_IN_NS,
            purchase_rates,
            valid_burn_amounts,
        };
        assert(c.valid_burn_amounts@ =~= seq![10u128, 30u128, 50u128, 100u128]);
        c
    }
}

/// Whether `id` names a registered account.
pub open spec fn has_account(s: Seq<AccountRecord>, id: Seq<char>) -> bool {
    exists|i: int| 0 <= i < s.len() && (#[trigger] s[i]).account_id@ == id
}

/// The position of `id` in the ledger (meaningful when `has_account`
/// holds and the identities are unique).
pub open spec fn account_idx(s: Seq<AccountRecord>, id: Seq<char>) -> int {
    choose|i: int| 0 <= i < s.len() && (#[trigger] s[i]).account_id@ == id
}

/// The record registered under `id`.
pub open spec fn account_of(s: Seq<AccountRecord>, id: Seq<char>) -> UserAccount {
    s[account_idx(s, id)].data
}

/// The balance of `id`; zero when `id` is not registered.
pub open spec fn balance_of(s: Seq<AccountRecord>, id: Seq<char>) -> int {
    if has_account(s, id) {
        account_of(s, id).balance as int
    } else {
        0
    }
}

/// No two ledger entries share an identity.
pub open spec fn accounts_unique(s: Seq<AccountRecord>) -> bool {
    forall|i: int, j: int|
        0 <= i < s.len() && 0 <= j < s.len() && i != j ==> (#[trigger] s[i]).account_id@ != (
        #[trigger] s[j]).account_id@
}

/// Whether `id` holds a storage deposit.
pub open spec fn has_deposit(s: Seq<DepositRecord>, id: Seq<char>) -> bool {
    exists|i: int| 0 <= i < s.len() && (#[trigger] s[i]).account_id@ == id
}

/// The position of `id` among the deposits.
pub open spec fn deposit_idx(s: Seq<DepositRecord>, id: Seq<char>) -> int {
    choose|i: int| 0 <= i < s.len() && (#[trigger] s[i]).account_id@ == id
}

/// The storage deposit held for `id`; zero when none was made.
pub open spec fn deposit_of(s: Seq<DepositRecord>, id: Seq<char>) -> int {
    if has_deposit(s, id) {
        s[deposit_idx(s, id)].amount as int
    } else {
        0
    }
}

/// No two deposit entries share an identity.
pub open spec fn deposits_unique(s: Seq<DepositRecord>) -> bool {
    forall|i: int, j: int|
        0 <= i < s.len() && 0 <= j < s.len() && i != j ==> (#[trigger] s[i]).account_id@ != (
        #[trigger] s[j]).account_id@
}

/// Sum of all registered balances.
pub open spec fn sum_balances(s: Seq<AccountRecord>) -> int {
    sum_by(s, |r: AccountRecord| r.data.balance as int)
}

/// The ledger record registered under `id`, created at `now` when none
/// exists yet; returns its position.
pub(crate) fn ensure_account(c: &mut CardsContract, id: &String, now: u64) -> (i: usize)
    requires
        old(c).wf(),
    ensures
        final(c).wf(),
        (i as int) < final(c).accounts@.len(),
        final(c).accounts@[i as int].account_id@ == id@,
        has_account(old(c).accounts@, id@) ==> final(c).accounts@ == old(c).accounts@,
        !has_account(old(c).accounts@, id@) ==> final(c).accounts@ == old(c).accounts@.push(
            (AccountRecord { account_id: *id, data: UserAccount::spec_new(now) }),
        ) && final(c).accounts@[i as int].data == UserAccount::spec_new(now),
        has_account(final(c).accounts@, id@),
        same_game(*old(c), *final(c)),
        same_surroundings(*old(c), *final(c)),
        same_token_config(*old(c), *final(c)),
        same_counters(*old(c), *final(c)),
        final(c).total_supply == old(c).total_supply,
        final(c).blackjack_stats == old(c).blackjack_stats,
        final(c).last_activity == old(c).last_activity,
{
    match c.account_index(id) {
        Some(i) => {
            proof {
                lemma_account_idx_is(c.accounts@, id@, i as int);
            }
            i
        },
        None => {
            let i = c.accounts.len();
            let rec = AccountRecord { account_id: id.clone(), data: UserAccount::new(now) };
            proof {
                lemma_accounts_push(c.accounts@, rec);
                lemma_sum_by_push(c.accounts@, |r: AccountRecord| r.data.balance as int, rec);
            }
            c.accounts.push(rec);
            i
        },
    }
}

/// Mints `amount` chips onto the account at position `i`: its balance
/// and the total supply rise together.
pub(crate) fn credit_at(c: &mut CardsContract, i: usize, amount: u128)
    requires
        old(c).wf(),
        (i as int) < old(c).accounts@.len(),
        old(c).total_supply as int + amount as int + staked_total(old(c).seats@)
            <= u128::MAX as int,
    ensures
        final(c).wf(),
        final(c).accounts@ == old(c).accounts@.update(
            i as int,
            (AccountRecord {
                account_id: old(c).accounts@[i as int].account_id,
                data: (UserAccount {
                    balance: (old(c).accounts@[i as int].data.balance + amount) as u128,
                    ..old(c).accounts@[i as int].data
                }),
            }),
        ),
        final(c).total_supply == old(c).total_supply + amount,
        same_game(*old(c), *final(c)),
        same_surroundings(*old(c), *final(c)),
        same_token_config(*old(c), *final(c)),
        same_counters(*old(c), *final(c)),
        final(c).blackjack_stats == old(c).blackjack_stats,
        final(c).last_activity == old(c).last_activity,
{
    proof {
        lemma_sum_by_nonneg(c.seats@, |o| crate::contract::seat_stake(o));
        lemma_sum_by_bounds_elem(
            c.accounts@,
            |r: AccountRecord| r.data.balance as int,
            i as int,
        );
    }
    let data = c.accounts[i].data;
    let rec = AccountRecord {
        account_id: c.accounts[i].account_id.clone(),
        data: UserAccount { balance: data.balance + amount, ..data },
    };
    proof {
        lemma_accounts_update_same_id(c.accounts@, i as int, rec);
        lemma_sum_by_update(c.accounts@, |r: AccountRecord| r.data.balance as int, i as int, rec);
    }
    c.accounts.set(i, rec);
    c.total_supply = c.total_supply + amount;
}

/// Burns `amount` chips staked by the account at position `i`: its
/// balance and the total supply fall together while the cumulative burn
/// counters and the betting-burn statistic rise.
pub(crate) fn burn_for_player(c: &mut CardsContract, i: usize, amount: u128)
    requires
        old(c).wf(),
        (i as int) < old(c).accounts@.len(),
        old(c).accounts@[i as int].data.balance >= amount,
        old(c).accounts@[i as int].data.total_burned as int + amount as int <= u128::MAX as int,
        old(c).total_cards_burned as int + amount as int <= u128::MAX as int,
        old(c).blackjack_stats.total_tokens_burned_betting as int + amount as int
            <= u128::MAX as int,
    ensures
        final(c).wf(),
        final(c).accounts@ == old(c).accounts@.update(
            i as int,
            (AccountRecord {
                account_id: old(c).accounts@[i as int].account_id,
                data: (UserAccount {
                    balance: (old(c).accounts@[i as int].data.balance - amount) as u128,
                    total_burned: (old(c).accounts@[i as int].data.total_burned + amount) as u128,
                    ..old(c).accounts@[i as int].data
                }),
            }),
        ),
        final(c).total_supply == old(c).total_supply - amount,
        final(c).total_cards_burned == old(c).total_cards_burned + amount,
        final(c).blackjack_stats == (crate::contract::BlackjackStats {
            total_tokens_burned_betting: (old(
                c,
            ).blackjack_stats.total_tokens_burned_betting + amount) as u128,
            ..old(c).blackjack_stats
        }),
        same_game(*old(c), *final(c)),
        same_surroundings(*old(c), *final(c)),
        same_token_config(*old(c), *final(c)),
        final(c).total_cards_claimed == old(c).total_cards_claimed,
        final(c).total_cards_purchased == old(c).total_cards_purchased,
        final(c).last_activity == old(c).last_activity,
{
    proof {
        lemma_sum_by_nonneg(c.seats@, |o| crate::contract::seat_stake(o));
        lemma_sum_by_bounds_elem(
            c.accounts@,
            |r: AccountRecord| r.data.balance as int,
            i as int,
        );
    }
    let data = c.accounts[i].data;
    let rec = AccountRecord {
        account_id: c.accounts[i].account_id.clone(),
        data: UserAccount {
            balance: data.balance - amount,
            total_burned: data.total_burned + amount,
            ..data
        },
    };
    proof {
        lemma_accounts_update_same_id(c.accounts@, i as int, rec);
        lemma_sum_by_update(c.accounts@, |r: AccountRecord| r.data.balance as int, i as int, rec);
    }
    c.accounts.set(i, rec);
    c.total_supply = c.total_supply - amount;
    c.total_cards_burned = c.total_cards_burned + amount;
    c.blackjack_stats.total_tokens_burned_betting = c.blackjack_stats.total_tokens_burned_betting
        + amount;
}

/// Whether `a` may claim at `now`: storage was deposited and either no
/// claim was ever made or the claim interval has passed.
pub open spec fn claim_ready(a: UserAccount, interval: u64, now: u64) -> bool {
    &&& a.storage_deposited
    &&& (a.last_claim_time == 0 || (now >= a.last_claim_time && now - a.last_claim_time
        >= interval))
}

/// Whether the deposit held for `id` covers its ledger record.
pub open spec fn storage_covered(c: CardsContract, id: Seq<char>) -> bool {
    deposit_of(c.storage_deposits@, id) >= crate::storage::user_storage_cost(id.len() as int)
}

/// The inputs on which a claim is owed to succeed: the caller is
/// registered with a covering deposit, the claim interval has passed,
/// and no counter would overflow.
pub open spec fn claim_ok(c: CardsContract, caller: Seq<char>, now: u64) -> bool {
    &&& storage_covered(c, caller)
    &&& has_account(c.accounts@, caller)
    &&& claim_ready(account_of(c.accounts@, caller), c.config.claim_interval, now)
    &&& c.total_supply as int + c.config.daily_claim_amount as int + staked_total(c.seats@)
        <= u128::MAX as int
    &&& account_of(c.accounts@, caller).total_claimed as int + c.config.daily_claim_amount as int
        <= u128::MAX as int
    &&& c.total_cards_claimed as int + c.config.daily_claim_amount as int <= u128::MAX as int
}

/// Mint the daily claim onto the caller's balance and stamp the claim
/// time; returns the amount claimed.
pub fn claim_daily_cards(c: &mut CardsContract, caller: &String, now: u64) -> (r: u128)
    requires
        old(c).wf(),
        claim_ok(*old(c), caller@, now),
    ensures
        final(c).wf(),
        r == old(c).config.daily_claim_amount,
        final(c).accounts@ == old(c).accounts@.update(
            account_idx(old(c).accounts@, caller@),
            (AccountRecord {
                account_id: old(c).accounts@[account_idx(old(c).accounts@, caller@)].account_id,
                data: (UserAccount {
                    balance: (account_of(old(c).accounts@, caller@).balance + r) as u128,
                    last_claim_time: now,
                    total_claimed: (account_of(old(c).accounts@, caller@).total_claimed
                        + r) as u128,
                    ..account_of(old(c).accounts@, caller@)
                }),
            }),
        ),
        balance_of(final(c).accounts@, caller@) == balance_of(old(c).accounts@, caller@) + r,
        final(c).total_supply == old(c).total_supply + r,
        final(c).total_cards_claimed == old(c).total_cards_claimed + r,
        final(c).total_cards_purchased == old(c).total_cards_purchased,
        final(c).total_cards_burned == old(c).total_cards_burned,
        final(c).blackjack_stats == old(c).blackjack_stats,
        final(c).last_activity == old(c).last_activity,
        same_game(*old(c), *final(c)),
        same_surroundings(*old(c), *final(c)),
        same_token_config(*old(c), *final(c)),
{
    let i = match c.account_index(caller) {
        Some(i) => i,
        None => {
            return unreached();
        },
    };
    proof {
        lemma_account_idx_is(c.accounts@, caller@, i as int);
        lemma_sum_by_nonneg(c.seats@, |o| crate::contract::seat_stake(o));
        lemma_sum_by_bounds_elem(c.accounts@, |r: AccountRecord| r.data.balance as int, i as int);
    }
    let daily = c.config.daily_claim_amount;
    let data = c.accounts[i].data;
    let rec = AccountRecord {
        account_id: c.accounts[i].account_id.clone(),
        data: UserAccount {
            balance: data.balance + daily,
            last_claim_time: now,
            total_claimed: data.total_claimed + daily,
            ..data
        },
    };
    proof {
        lemma_accounts_update_same_id(c.accounts@, i as int, rec);
        lemma_sum_by_update(c.accounts@, |r: AccountRecord| r.data.balance as int, i as int, rec);
    }
    c.accounts.set(i, rec);
    c.total_supply = c.total_supply + daily;
    c.total_cards_claimed = c.total_cards_claimed + daily;
    proof {
        lemma_account_idx_is(c.accounts@, caller@, i as int);
    }
    daily
}

/// The account record as it stands after buying `cards` chips at `now`.
pub open spec fn purchased_account(a: UserAccount, cards: u128, now: u64) -> UserAccount {
    UserAccount {
        balance: (a.balance + cards) as u128,
        total_purchased: (a.total_purchased + cards) as u128,
        storage_deposited: true,
        registered_at: if a.storage_deposited {
            a.registered_at
        } else {
            now
        },
        ..a
    }
}

/// The caller's ledger record before a purchase: the registered one, or
/// a fresh record when the purchase itself registers the account.
pub open spec fn purchase_base(c: CardsContract, caller: Seq<char>, now: u64) -> UserAccount {
    if has_account(c.accounts@, caller) {
        account_of(c.accounts@, caller)
    } else {
        UserAccount::spec_new(now)
    }
}

/// The inputs on which a purchase is owed to succeed: a covering
/// deposit, a valid tier, an attached payment at least the tier price,
/// and no counter overflow.
pub open spec fn purchase_ok(
    c: CardsContract,
    caller: Seq<char>,
    attached: u128,
    tier_index: u8,
    now: u64,
) -> bool {
    let cards = c.config.purchase_rates@[tier_index as int].cards_amount;
    &&& storage_covered(c, caller)
    &&& (tier_index as int) < c.config.purchase_rates@.len()
    &&& attached >= c.config.purchase_rates@[tier_index as int].near_cost
    &&& c.total_supply as int + cards as int + staked_total(c.seats@) <= u128::MAX as int
    &&& purchase_base(c, caller, now).total_purchased as int + cards as int <= u128::MAX as int
    &&& c.total_cards_purchased as int + cards as int <= u128::MAX as int
}

/// Mint a purchased chip pack onto the caller's balance, registering the
/// account when needed; returns the chips bought. The caller attached
/// `attached` yocto-units; handing the price on and refunding any excess
/// is the host's part.
pub fn purchase_cards(
    c: &mut CardsContract,
    caller: &String,
    attached: u128,
    tier_index: u8,
    now: u64,
) -> (r: u128)
    requires
        old(c).wf(),
        purchase_ok(*old(c), caller@, attached, tier_index, now),
    ensures
        final(c).wf(),
        r == old(c).config.purchase_rates@[tier_index as int].cards_amount,
        has_account(final(c).accounts@, caller@),
        account_of(final(c).accounts@, caller@) == purchased_account(
            purchase_base(*old(c), caller@, now),
            r,
            now,
        ),
        balance_of(final(c).accounts@, caller@) == balance_of(old(c).accounts@, caller@) + r,
        forall|id: Seq<char>|
            id != caller@ ==> #[trigger] balance_of(final(c).accounts@, id) == balance_of(
                old(c).accounts@,
                id,
            ),
        final(c).total_supply == old(c).total_supply + r,
        final(c).total_cards_purchased == old(c).total_cards_purchased + r,
        final(c).total_cards_claimed == old(c).total_cards_claimed,
        final(c).total_cards_burned == old(c).total_cards_burned,
        final(c).blackjack_stats == old(c).blackjack_stats,
        final(c).last_activity == old(c).last_activity,
        same_game(*old(c), *final(c)),
        same_surroundings(*old(c), *final(c)),
        same_token_config(*old(c), *final(c)),
{
    let ghost pre = *c;
    let i = ensure_account(c, caller, now);
    proof {
        lemma_account_idx_is(c.accounts@, caller@, i as int);
        if has_account(pre.accounts@, caller@) {
            lemma_account_idx_is(pre.accounts@, caller@, i as int);
        }
        lemma_sum_by_nonneg(c.seats@, |o| crate::contract::seat_stake(o));
        lemma_sum_by_bounds_elem(c.accounts@, |r: AccountRecord| r.data.balance as int, i as int);
    }
    let cards = c.config.purchase_rates[tier_index as usize].cards_amount;
    let data = c.accounts[i].data;
    let rec = AccountRecord {
        account_id: c.accounts[i].account_id.clone(),
        data: UserAccount {
            balance: data.balance + cards,
            total_purchased: data.total_purchased + cards,
            storage_deposited: true,
            registered_at: if data.storage_deposited {
                data.registered_at
            } else {
                now
            },
            ..data
        },
    };
    proof {
        lemma_accounts_update_same_id(c.accounts@, i as int, rec);
        lemma_sum_by_update(c.accounts@, |r: AccountRecord| r.data.balance as int, i as int, rec);
    }
    c.accounts.set(i, rec);
    c.total_supply = c.total_supply + cards;
    c.total_cards_purchased = c.total_cards_purchased + cards;
    proof {
        lemma_account_idx_is(c.accounts@, caller@, i as int);
        assert forall|id: Seq<char>|
            id != caller@ implies #[trigger] balance_of(c.accounts@, id) == balance_of(
            pre.accounts@,
            id,
        ) by {
            lemma_balance_of_other(pre.accounts@, c.accounts@, caller@, id, i as int);
        }
    }
    cards
}

/// The inputs on which a burn is owed to succeed: a valid denomination,
/// a registered caller with enough balance, and no counter overflow.
pub open spec fn burn_ok(c: CardsContract, caller: Seq<char>, amount: u128) -> bool {
    &&& c.config.valid_burn_amounts@.contains(amount)
    &&& has_account(c.accounts@, caller)
    &&& account_of(c.accounts@, caller).balance >= amount
    &&& account_of(c.accounts@, caller).total_burned as int + amount as int <= u128::MAX as int
    &&& c.total_cards_burned as int + amount as int <= u128::MAX as int
}

/// Destroy `amount` chips of the caller's balance: balance and supply
/// fall together and the cumulative burn counters rise.
pub fn burn_cards(c: &mut CardsContract, caller: &String, amount: u128)
    requires
        old(c).wf(),
        burn_ok(*old(c), caller@, amount),
    ensures
        final(c).wf(),
        final(c).accounts@ == old(c).accounts@.update(
            account_idx(old(c).accounts@, caller@),
            (AccountRecord {
                account_id: old(c).accounts@[account_idx(old(c).accounts@, caller@)].account_id,
                data: (UserAccount {
                    balance: (account_of(old(c).accounts@, caller@).balance - amount) as u128,
                    total_burned: (account_of(old(c).accounts@, caller@).total_burned
                        + amount) as u128,
                    ..account_of(old(c).accounts@, caller@)
                }),
            }),
        ),
        balance_of(final(c).accounts@, caller@) == balance_of(old(c).accounts@, caller@) - amount,
        final(c).total_supply == old(c).total_supply - amount,
        final(c).total_cards_burned == old(c).total_cards_burned + amount,
        final(c).total_cards_claimed == old(c).total_cards_claimed,
        final(c).total_cards_purchased == old(c).total_cards_purchased,
        final(c).blackjack_stats == old(c).blackjack_stats,
        final(c).last_activity == old(c).last_activity,
        same_game(*old(c), *final(c)),
        same_surroundings(*old(c), *final(c)),
        same_token_config(*old(c), *final(c)),
{
    let i = match c.account_index(caller) {
        Some(i) => i,
        None => {
            return unreached();
        },
    };
    proof {
        lemma_account_idx_is(c.accounts@, caller@, i as int);
        lemma_sum_by_nonneg(c.seats@, |o| crate::contract::seat_stake(o));
        lemma_sum_by_bounds_elem(c.accounts@, |r: AccountRecord| r.data.balance as int, i as int);
    }
    let data = c.accounts[i].data;
    let rec = AccountRecord {
        account_id: c.accounts[i].account_id.clone(),
        data: UserAccount {
            balance: data.balance - amount,
            total_burned: data.total_burned + amount,
            ..data
        },
    };
    proof {
        lemma_accounts_update_same_id(c.accounts@, i as int, rec);
        lemma_sum_by_update(c.accounts@, |r: AccountRecord| r.data.balance as int, i as int, rec);
    }
    c.accounts.set(i, rec);
    c.total_supply = c.total_supply - amount;
    c.total_cards_burned = c.total_cards_burned + amount;
    proof {
        lemma_account_idx_is(c.accounts@, caller@, i as int);
    }
}

/// Balances of identities other than the one updated are untouched.
pub proof fn lemma_balance_of_other(
    s: Seq<AccountRecord>,
    t: Seq<AccountRecord>,
    changed: Seq<char>,
    id: Seq<char>,
    i: int,
)
    requires
        accounts_unique(s),
        0 <= i,
        t.len() == s.len() || t.len() == s.len() + 1,
        t.len() == s.len() + 1 ==> i == s.len(),
        i < t.len(),
        forall|k: int| 0 <= k < s.len() && k != i ==> #[trigger] t[k] == s[k],
        t[i].account_id@ == changed,
        i < s.len() ==> s[i].account_id@ == changed,
        id != changed,
    ensures
        balance_of(t, id) == balance_of(s, id),
{
    assert forall|j: int| 0 <= j < s.len() && (#[trigger] s[j]).account_id@ == id implies 0 <= j
        < t.len() && t[j].account_id@ == id by {
        assert(j != i);
    }
    assert forall|j: int| 0 <= j < t.len() && (#[trigger] t[j]).account_id@ == id implies 0 <= j
        < s.len() && s[j].account_id@ == id by {
        assert(j != i);
    }
    if has_account(s, id) {
        let j = choose|j: int| 0 <= j < s.len() && (#[trigger] s[j]).account_id@ == id;
        assert(has_account(t, id));
        let j1 = account_idx(s, id);
        let j2 = account_idx(t, id);
        assert(s[j1].account_id@ == id);
        assert(t[j2].account_id@ == id);
        assert(j1 != i && j2 != i);
        assert(s[j2].account_id@ == id);
        assert(j1 == j2);
        assert(t[j2] == s[j1]);
    } else {
        assert(!has_account(t, id));
    }
}

/// `a + b` clamped to the `u64` range.
pub open spec fn sat_add_u64(a: u64, b: u64) -> u64 {
    if a + b > u64::MAX {
        u64::MAX
    } else {
        (a + b) as u64
    }
}

/// Saturating addition on `u64` values.
pub fn sat_add64(a: u64, b: u64) -> (r: u64)
    ensures
        r == sat_add_u64(a, b),
{
    if a > u64::MAX - b {
        u64::MAX
    } else {
        a + b
    }
}

/// `a - b`, or zero when `b` exceeds `a`.
pub open spec fn sat_sub(a: int, b: int) -> int {
    if a >= b {
        a - b
    } else {
        0
    }
}

/// The caller's chip balance; zero for unregistered accounts.
pub fn get_balance(c: &CardsContract, account_id: &String) -> (r: u128)
    requires
        c.wf(),
    ensures
        r as int == balance_of(c.accounts@, account_id@),
{
    match c.account_index(account_id) {
        Some(i) => {
            proof {
                lemma_account_idx_is(c.accounts@, account_id@, i as int);
            }
            c.accounts[i].data.balance
        },
        None => 0,
    }
}

/// Whether the deposit held for `account_id` covers its ledger record.
pub fn has_sufficient_storage(c: &CardsContract, account_id: &String) -> (r: bool)
    requires
        c.wf(),
    ensures
        r == storage_covered(*c, account_id@),
{
    let required = crate::storage::calculate_user_storage_cost(account_id);
    match c.deposit_index(account_id) {
        Some(i) => {
            proof {
                lemma_deposit_idx_is(c.storage_deposits@, account_id@, i as int);
            }
            c.storage_deposits[i].amount >= required
        },
        None => false,
    }
}

/// Whether `account_id` is registered and its claim interval has passed.
pub fn can_user_claim(c: &CardsContract, account_id: &String, now: u64) -> (r: bool)
    requires
        c.wf(),
    ensures
        r == (has_account(c.accounts@, account_id@) && claim_ready(
            account_of(c.accounts@, account_id@),
            c.config.claim_interval,
            now,
        )),
{
    match c.account_index(account_id) {
        Some(i) => {
            proof {
                lemma_account_idx_is(c.accounts@, account_id@, i as int);
            }
            let a = c.accounts[i].data;
            if !a.storage_deposited {
                return false;
            }
            a.last_claim_time == 0 || (now >= a.last_claim_time && now - a.last_claim_time
                >= c.config.claim_interval)
        },
        None => false,
    }
}

/// Whether and when `account_id` may claim, with the full context a
/// client needs.
pub fn check_claim_eligibility(c: &CardsContract, account_id: &String, now: u64) -> (r:
    ClaimEligibility)
    requires
        c.wf(),
    ensures
        r.can_claim == (has_account(c.accounts@, account_id@) && claim_ready(
            account_of(c.accounts@, account_id@),
            c.config.claim_interval,
            now,
        )),
        !has_account(c.accounts@, account_id@) ==> r.next_claim_time == 0
            && r.seconds_until_claim == 0 && r.claim_amount == 0 && r.current_balance == 0
            && r.reason@ == "Account not registered. Call storage_deposit() first."@,
        has_account(c.accounts@, account_id@) ==> r.current_balance as int == balance_of(
            c.accounts@,
            account_id@,
        ),
        has_account(c.accounts@, account_id@) && !account_of(
            c.accounts@,
            account_id@,
        ).storage_deposited ==> r.next_claim_time == 0 && r.seconds_until_claim == 0
            && r.claim_amount == 0 && r.reason@
            == "Storage deposit required. Call storage_deposit() first."@,
        has_account(c.accounts@, account_id@) && account_of(
            c.accounts@,
            account_id@,
        ).storage_deposited && !r.can_claim ==> r.next_claim_time == sat_add_u64(
            account_of(c.accounts@, account_id@).last_claim_time,
            c.config.claim_interval,
        ) && r.seconds_until_claim as int == (r.next_claim_time - now) / 1_000_000_000
            && r.claim_amount == c.config.daily_claim_amount && r.reason@
            == "Must wait for the claim interval to pass"@,
        r.can_claim ==> r.next_claim_time == sat_add_u64(now, c.config.claim_interval)
            && r.seconds_until_claim == 0 && r.claim_amount == c.config.daily_claim_amount
            && r.reason@ == "Ready to claim!"@,
{
    match c.account_index(account_id) {
        Some(i) => {
            proof {
                lemma_account_idx_is(c.accounts@, account_id@, i as int);
            }
            let a = c.accounts[i].data;
            if !a.storage_deposited {
                return ClaimEligibility {
                    can_claim: false,
                    reason: "Storage deposit required. Call storage_deposit() first.".to_owned(),
                    next_claim_time: 0,
                    seconds_until_claim: 0,
                    claim_amount: 0,
                    current_balance: a.balance,
                };
            }
            let ready = a.last_claim_time == 0 || (now >= a.last_claim_time && now
                - a.last_claim_time >= c.config.claim_interval);
            if !ready {
                let next_claim = sat_add64(a.last_claim_time, c.config.claim_interval);
                return ClaimEligibility {
                    can_claim: false,
                    reason: "Must wait for the claim interval to pass".to_owned(),
                    next_claim_time: next_claim,
                    seconds_until_claim: (next_claim - now) / 1_000_000_000,
                    claim_amount: c.config.daily_claim_amount,
                    current_balance: a.balance,
                };
            }
            ClaimEligibility {
                can_claim: true,
                reason: "Ready to claim!".to_owned(),
                next_claim_time: sat_add64(now, c.config.claim_interval),
                seconds_until_claim: 0,
                claim_amount: c.config.daily_claim_amount,
                current_balance: a.balance,
            }
        },
        None => ClaimEligibility {
            can_claim: false,
            reason: "Account not registered. Call storage_deposit() first.".to_owned(),
            next_claim_time: 0,
            seconds_until_claim: 0,
            claim_amount: 0,
            current_balance: 0,
        },
    }
}

/// Detailed statistics for one account; `None` when unregistered.
pub fn get_user_stats(c: &CardsContract, account_id: &String, now: u64) -> (r: Option<UserStats>)
    requires
        c.wf(),
    ensures
        match r {
            Some(u) => {
                let a = account_of(c.accounts@, account_id@);
                let dep = deposit_of(c.storage_deposits@, account_id@);
                let cost = crate::storage::user_storage_cost(account_id@.len() as int);
                &&& has_account(c.accounts@, account_id@)
                &&& u.balance == a.balance
                &&& u.last_claim_time == a.last_claim_time
                &&& u.next_claim_available == sat_add_u64(a.last_claim_time, c.config.claim_interval)
                &&& u.can_claim_now == claim_ready(a, c.config.claim_interval, now)
                &&& u.total_claimed == a.total_claimed
                &&& u.total_purchased == a.total_purchased
                &&& u.total_burned == a.total_burned
                &&& u.registered_at == a.registered_at
                &&& u.storage_deposited == a.storage_deposited
                &&& u.storage_deposit_amount as int == dep
                &&& u.storage_used as int == cost
                &&& u.storage_available as int == sat_sub(dep, cost)
            },
            None => !has_account(c.accounts@, account_id@),
        },
{
    let i = match c.account_index(account_id) {
        Some(i) => i,
        None => {
            return None;
        },
    };
    proof {
        lemma_account_idx_is(c.accounts@, account_id@, i as int);
    }
    let a = c.accounts[i].data;
    let deposit = match c.deposit_index(account_id) {
        Some(j) => {
            proof {
                lemma_deposit_idx_is(c.storage_deposits@, account_id@, j as int);
            }
            c.storage_deposits[j].amount
        },
        None => 0,
    };
    let required = crate::storage::calculate_user_storage_cost(account_id);
    let can_now = can_user_claim(c, account_id, now);
    Some(
        UserStats {
            balance: a.balance,
            last_claim_time: a.last_claim_time,
            next_claim_available: sat_add64(a.last_claim_time, c.config.claim_interval),
            can_claim_now: can_now,
            total_claimed: a.total_claimed,
            total_purchased: a.total_purchased,
            total_burned: a.total_burned,
            registered_at: a.registered_at,
            storage_deposited: a.storage_deposited,
            storage_deposit_amount: deposit,
            storage_used: required,
            storage_available: if deposit >= required {
                deposit - required
            } else {
                0
            },
        },
    )
}

/// Number of registered accounts holding a nonzero balance.
pub open spec fn count_active(s: Seq<AccountRecord>) -> int {
    sum_by(
        s,
        |r: AccountRecord|
            if r.data.balance > 0 {
                1int
            } else {
                0int
            },
    )
}

/// Aggregated ledger statistics.
pub fn get_contract_stats(c: &CardsContract) -> (r: ContractStats)
    requires
        c.wf(),
    ensures
        r.total_supply == c.total_supply,
        r.total_claimed == c.total_cards_claimed,
        r.total_purchased == c.total_cards_purchased,
        r.total_burned == c.total_cards_burned,
        r.circulating_supply as int == sat_sub(c.total_supply as int, c.total_cards_burned as int),
        r.total_users == c.accounts@.len(),
        r.active_users as int == count_active(c.accounts@),
{
    let mut active: u64 = 0;
    let mut k: usize = 0;
    proof {
        assert(c.accounts@.take(0) =~= Seq::<AccountRecord>::empty());
    }
    while k < c.accounts.len()
        invariant
            c.wf(),
            k <= c.accounts@.len(),
            active as int == count_active(c.accounts@.take(k as int)),
            active <= k,
        decreases c.accounts@.len() - k,
    {
        proof {
            assert(c.accounts@.take(k as int + 1) =~= c.accounts@.take(k as int).push(
                c.accounts@[k as int],
            ));
            lemma_sum_by_push(
                c.accounts@.take(k as int),
                |r: AccountRecord|
                    if r.data.balance > 0 {
                        1int
                    } else {
                        0int
                    },
                c.accounts@[k as int],
            );
        }
        if c.accounts[k].data.balance > 0 {
            active = active + 1;
        }
        k = k + 1;
    }
    proof {
        assert(c.accounts@.take(c.accounts@.len() as int) =~= c.accounts@);
    }
    ContractStats {
        total_supply: c.total_supply,
        total_claimed: c.total_cards_claimed,
        total_purchased: c.total_cards_purchased,
        total_burned: c.total_cards_burned,
        circulating_supply: if c.total_supply >= c.total_cards_burned {
            c.total_supply - c.total_cards_burned
        } else {
            0
        },
        total_users: c.accounts.len() as u64,
        active_users: active,
    }
}

/// The configured purchase tiers.
pub fn get_purchase_tiers(c: &CardsContract) -> (r: &Vec<PurchaseTier>)
    ensures
        *r == c.config.purchase_rates,
{
    &c.config.purchase_rates
}

/// One purchase tier by position.
pub fn get_tier_info(c: &CardsContract, tier_index: u8) -> (r: Option<&PurchaseTier>)
    ensures
        match r {
            Some(t) => (tier_index as int) < c.config.purchase_rates@.len() && *t
                == c.config.purchase_rates@[tier_index as int],
            None => (tier_index as int) >= c.config.purchase_rates@.len(),
        },
{
    if (tier_index as usize) < c.config.purchase_rates.len() {
        Some(&c.config.purchase_rates[tier_index as usize])
    } else {
        None
    }
}

/// The stake denominations a bet may use.
pub fn get_valid_burn_amounts(c: &CardsContract) -> (r: &Vec<u128>)
    ensures
        *r == c.config.valid_burn_amounts,
{
    &c.config.valid_burn_amounts
}

/// The ledger configuration.
pub fn get_config(c: &CardsContract) -> (r: &ContractConfig)
    ensures
        *r == c.config,
{
    &c.config
}

/// Apply a partial configuration update; only the owner may call this.
pub fn update_config(c: &mut CardsContract, caller: &String, update: AdminConfigUpdate)
    requires
        old(c).wf(),
        old(c).spec_is_owner(caller@),
    ensures
        final(c).wf(),
        final(c).config.daily_claim_amount == match update.daily_claim_amount {
            Some(x) => x,
            None => old(c).config.daily_claim_amount,
        },
        final(c).config.claim_interval == match update.claim_interval {
            Some(x) => x,
            None => old(c).config.claim_interval,
        },
        final(c).config.purchase_rates == match update.purchase_rates {
            Some(v) => v,
            None => old(c).config.purchase_rates,
        },
        final(c).config.valid_burn_amounts == old(c).config.valid_burn_amounts,
        final(c).accounts == old(c).accounts,
        final(c).storage_deposits == old(c).storage_deposits,
        final(c).total_supply == old(c).total_supply,
        same_counters(*old(c), *final(c)),
        final(c).blackjack_stats == old(c).blackjack_stats,
        final(c).last_activity == old(c).last_activity,
        same_game(*old(c), *final(c)),
        same_surroundings(*old(c), *final(c)),
{
    let AdminConfigUpdate { daily_claim_amount, claim_interval, purchase_rates } = update;
    if let Some(x) = daily_claim_amount {
        c.config.daily_claim_amount = x;
    }
    if let Some(x) = claim_interval {
        c.config.claim_interval = x;
    }
    if let Some(v) = purchase_rates {
        c.config.purchase_rates = v;
    }
}

/// Deposits of identities other than the one updated are untouched.
pub proof fn lemma_deposit_of_other(
    s: Seq<DepositRecord>,
    t: Seq<DepositRecord>,
    changed: Seq<char>,
    id: Seq<char>,
    i: int,
)
    requires
        deposits_unique(s),
        0 <= i,
        t.len() == s.len() || t.len() == s.len() + 1,
        t.len() == s.len() + 1 ==> i == s.len(),
        i < t.len(),
        forall|k: int| 0 <= k < s.len() && k != i ==> #[trigger] t[k] == s[k],
        t[i].account_id@ == changed,
        i < s.len() ==> s[i].account_id@ == changed,
        id != changed,
    ensures
        deposit_of(t, id) == deposit_of(s, id),
{
    assert forall|j: int| 0 <= j < s.len() && (#[trigger] s[j]).account_id@ == id implies 0 <= j
        < t.len() && t[j].account_id@ == id by {
        assert(j != i);
    }
    assert forall|j: int| 0 <= j < t.len() && (#[trigger] t[j]).account_id@ == id implies 0 <= j
        < s.len() && s[j].account_id@ == id by {
        assert(j != i);
    }
    if has_deposit(s, id) {
        let j = choose|j: int| 0 <= j < s.len() && (#[trigger] s[j]).account_id@ == id;
        assert(has_deposit(t, id));
        let j1 = deposit_idx(s, id);
        let j2 = deposit_idx(t, id);
        assert(s[j1].account_id@ == id);
        assert(t[j2].account_id@ == id);
        assert(j1 != i && j2 != i);
        assert(s[j2].account_id@ == id);
        assert(j1 == j2);
        assert(t[j2] == s[j1]);
    } else {
        assert(!has_deposit(t, id));
    }
}

/// The identity a storage deposit is made for: the named account, or
/// the caller when none is named.
pub open spec fn deposit_target(caller: Seq<char>, account_id: Option<String>) -> Seq<char> {
    match account_id {
        Some(a) => a@,
        None => caller,
    }
}

/// The ledger record for `target` as it stands after a storage deposit
/// made at `now`.
pub open spec fn deposited_account(base: UserAccount, now: u64) -> UserAccount {
    UserAccount {
        storage_deposited: true,
        registered_at: if base.registered_at == 0 {
            now
        } else {
            base.registered_at
        },
        ..base
    }
}

/// The inputs on which a storage deposit is owed to succeed: the
/// attached amount covers the target's record and the held deposit does
/// not overflow.
pub open spec fn storage_deposit_ok(c: CardsContract, target: Seq<char>, attached: u128) -> bool {
    &&& attached as int >= crate::storage::user_storage_cost(target.len() as int)
    &&& deposit_of(c.storage_deposits@, target) + attached <= u128::MAX as int
}

/// Hold `attached` yocto-units as storage deposit for the named account
/// (the caller when none is named) and register its ledger record.
pub fn storage_deposit(
    c: &mut CardsContract,
    caller: &String,
    account_id: Option<String>,
    attached: u128,
    now: u64,
) -> (r: StorageBalance)
    requires
        old(c).wf(),
        storage_deposit_ok(*old(c), deposit_target(caller@, account_id), attached),
    ensures
        final(c).wf(),
        ({
            let target = deposit_target(caller@, account_id);
            let old_dep = deposit_of(old(c).storage_deposits@, target);
            let cost = crate::storage::user_storage_cost(target.len() as int);
            &&& deposit_of(final(c).storage_deposits@, target) == old_dep + attached
            &&& forall|id: Seq<char>|
                id != target ==> #[trigger] deposit_of(final(c).storage_deposits@, id)
                    == deposit_of(old(c).storage_deposits@, id)
            &&& has_account(final(c).accounts@, target)
            &&& account_of(final(c).accounts@, target) == deposited_account(
                purchase_base(*old(c), target, now),
                now,
            )
            &&& forall|id: Seq<char>| #[trigger]
                balance_of(final(c).accounts@, id) == balance_of(old(c).accounts@, id)
            &&& r.total as int == old_dep + attached
            &&& r.available as int == sat_sub(old_dep + attached, cost)
        }),
        final(c).total_supply == old(c).total_supply,
        same_counters(*old(c), *final(c)),
        final(c).blackjack_stats == old(c).blackjack_stats,
        final(c).config == old(c).config,
        final(c).last_activity == old(c).last_activity,
        same_game(*old(c), *final(c)),
        same_surroundings(*old(c), *final(c)),
{
    let ghost pre = *c;
    let target: String = match account_id {
        Some(a) => a,
        None => caller.clone(),
    };
    let required = crate::storage::calculate_user_storage_cost(&target);
    let i = ensure_account(c, &target, now);
    proof {
        lemma_account_idx_is(c.accounts@, target@, i as int);
        if has_account(pre.accounts@, target@) {
            lemma_account_idx_is(pre.accounts@, target@, i as int);
        }
    }
    let data = c.accounts[i].data;
    let rec = AccountRecord {
        account_id: c.accounts[i].account_id.clone(),
        data: UserAccount {
            storage_deposited: true,
            registered_at: if data.registered_at == 0 {
                now
            } else {
                data.registered_at
            },
            ..data
        },
    };
    proof {
        lemma_accounts_update_same_id(c.accounts@, i as int, rec);
        lemma_sum_by_update(c.accounts@, |r: AccountRecord| r.data.balance as int, i as int, rec);
    }
    c.accounts.set(i, rec);
    proof {
        lemma_account_idx_is(c.accounts@, target@, i as int);
    }
    let ghost mid = *c;
    let total: u128 = match c.deposit_index(&target) {
        Some(j) => {
            proof {
                lemma_deposit_idx_is(c.storage_deposits@, target@, j as int);
            }
            let held = c.storage_deposits[j].amount;
            let drec = DepositRecord {
                account_id: c.storage_deposits[j].account_id.clone(),
                amount: held + attached,
            };
            proof {
                lemma_deposits_update_same_id(c.storage_deposits@, j as int, drec);
            }
            c.storage_deposits.set(j, drec);
            proof {
                lemma_deposit_idx_is(c.storage_deposits@, target@, j as int);
                assert forall|id: Seq<char>|
                    id != target@ implies #[trigger] deposit_of(c.storage_deposits@, id)
                    == deposit_of(mid.storage_deposits@, id) by {
                    lemma_deposit_of_other(
                        mid.storage_deposits@,
                        c.storage_deposits@,
                        target@,
                        id,
                        j as int,
                    );
                }
            }
            held + attached
        },
        None => {
            let drec = DepositRecord { account_id: target.clone(), amount: attached };
            proof {
                lemma_deposits_push(c.storage_deposits@, drec);
            }
            c.storage_deposits.push(drec);
            proof {
                lemma_deposit_idx_is(
                    c.storage_deposits@,
                    target@,
                    c.storage_deposits@.len() - 1,
                );
                assert forall|id: Seq<char>|
                    id != target@ implies #[trigger] deposit_of(c.storage_deposits@, id)
                    == deposit_of(mid.storage_deposits@, id) by {
                    lemma_deposit_of_other(
                        mid.storage_deposits@,
                        c.storage_deposits@,
                        target@,
                        id,
                        c.storage_deposits@.len() - 1,
                    );
                }
            }
            attached
        },
    };
    proof {
        assert forall|id: Seq<char>|
            id != target@ implies #[trigger] balance_of(c.accounts@, id) == balance_of(
            pre.accounts@,
            id,
        ) by {
            lemma_balance_of_other(pre.accounts@, c.accounts@, target@, id, i as int);
        }
    }
    StorageBalance {
        total,
        available: if total >= required {
            total - required
        } else {
            0
        },
    }
}

/// The amount a withdrawal request would release: the requested amount
/// capped at what exceeds the required storage cost.
pub open spec fn withdraw_request(
    c: CardsContract,
    caller: Seq<char>,
    amount: Option<u128>,
) -> int {
    let avail = sat_sub(
        deposit_of(c.storage_deposits@, caller),
        crate::storage::user_storage_cost(caller.len() as int),
    );
    match amount {
        Some(a) => if a as int <= avail {
            a as int
        } else {
            avail
        },
        None => avail,
    }
}

/// Release the withdrawable part of the caller's storage deposit;
/// returns the balance left and the amount to transfer back, which the
/// host pays out.
pub fn storage_withdraw(c: &mut CardsContract, caller: &String, amount: Option<u128>) -> (r: (
    StorageBalance,
    u128,
))
    requires
        old(c).wf(),
        has_deposit(old(c).storage_deposits@, caller@),
        withdraw_request(*old(c), caller@, amount) > 0,
    ensures
        final(c).wf(),
        ({
            let old_dep = deposit_of(old(c).storage_deposits@, caller@);
            let cost = crate::storage::user_storage_cost(caller@.len() as int);
            &&& r.1 as int == withdraw_request(*old(c), caller@, amount)
            &&& deposit_of(final(c).storage_deposits@, caller@) == old_dep - r.1
            &&& forall|id: Seq<char>|
                id != caller@ ==> #[trigger] deposit_of(final(c).storage_deposits@, id)
                    == deposit_of(old(c).storage_deposits@, id)
            &&& r.0.total as int == old_dep - r.1
            &&& r.0.available as int == sat_sub(old_dep - r.1, cost)
        }),
        final(c).accounts == old(c).accounts,
        final(c).total_supply == old(c).total_supply,
        same_counters(*old(c), *final(c)),
        final(c).blackjack_stats == old(c).blackjack_stats,
        final(c).config == old(c).config,
        final(c).last_activity == old(c).last_activity,
        same_game(*old(c), *final(c)),
        same_surroundings(*old(c), *final(c)),
{
    let ghost pre = *c;
    let required = crate::storage::calculate_user_storage_cost(caller);
    let j = match c.deposit_index(caller) {
        Some(j) => j,
        None => {
            return unreached();
        },
    };
    proof {
        lemma_deposit_idx_is(c.storage_deposits@, caller@, j as int);
    }
    let held = c.storage_deposits[j].amount;
    let available = if held >= required {
        held - required
    } else {
        0
    };
    let withdraw = match amount {
        Some(a) => if a <= available {
            a
        } else {
            available
        },
        None => available,
    };
    let drec = DepositRecord {
        account_id: c.storage_deposits[j].account_id.clone(),
        amount: held - withdraw,
    };
    proof {
        lemma_deposits_update_same_id(c.storage_deposits@, j as int, drec);
    }
    c.storage_deposits.set(j, drec);
    proof {
        lemma_deposit_idx_is(c.storage_deposits@, caller@, j as int);
        assert forall|id: Seq<char>|
            id != caller@ implies #[trigger] deposit_of(c.storage_deposits@, id) == deposit_of(
            pre.storage_deposits@,
            id,
        ) by {
            lemma_deposit_of_other(
                pre.storage_deposits@,
                c.storage_deposits@,
                caller@,
                id,
                j as int,
            );
        }
    }
    let new_total = held - withdraw;
    (
        StorageBalance {
            total: new_total,
            available: if new_total >= required {
                new_total - required
            } else {
                0
            },
        },
        withdraw,
    )
}

/// The storage deposit held for `account_id`, split into held and
/// withdrawable parts; `None` when no deposit was made.
pub fn storage_balance_of(c: &CardsContract, account_id: &String) -> (r: Option<StorageBalance>)
    requires
        c.wf(),
    ensures
        match r {
            Some(b) => {
                let dep = deposit_of(c.storage_deposits@, account_id@);
                let cost = crate::storage::user_storage_cost(account_id@.len() as int);
                &&& has_deposit(c.storage_deposits@, account_id@)
                &&& b.total as int == dep
                &&& b.available as int == sat_sub(dep, cost)
            },
            None => !has_deposit(c.storage_deposits@, account_id@),
        },
{
    let j = match c.deposit_index(account_id) {
        Some(j) => j,
        None => {
            return None;
        },
    };
    proof {
        lemma_deposit_idx_is(c.storage_deposits@, account_id@, j as int);
    }
    let held = c.storage_deposits[j].amount;
    let required = crate::storage::calculate_user_storage_cost(account_id);
    Some(
        StorageBalance {
            total: held,
            available: if held >= required {
                held - required
            } else {
                0
            },
        },
    )
}

/// The deposit bounds the contract accepts.
pub fn storage_balance_bounds(c: &CardsContract) -> (r: StorageBounds)
    ensures
        r.min == crate::storage::STORAGE_DEPOSIT_REQUIRED,
        r.max is None,
{
    StorageBounds { min: crate::storage::STORAGE_DEPOSIT_REQUIRED, max: None }
}

/// The exact storage cost of the ledger record for `account_id`.
pub fn get_storage_cost_for_account(c: &CardsContract, account_id: &String) -> (r: u128)
    ensures
        r as int == crate::storage::user_storage_cost(account_id@.len() as int),
{
    crate::storage::calculate_user_storage_cost(account_id)
}

/// With unique identities, any position holding `id` is the position
/// `account_idx` picks.
pub proof fn lemma_account_idx_is(s: Seq<AccountRecord>, id: Seq<char>, i: int)
    requires
        accounts_unique(s),
        0 <= i < s.len(),
        s[i].account_id@ == id,
    ensures
        has_account(s, id),
        account_idx(s, id) == i,
{
    assert(has_account(s, id));
    let j = account_idx(s, id);
    assert(0 <= j < s.len() && s[j].account_id@ == id);
}

/// Replacing a record by one under the same identity changes neither
/// which accounts exist nor their uniqueness.
pub proof fn lemma_accounts_update_same_id(s: Seq<AccountRecord>, i: int, r: AccountRecord)
    requires
        0 <= i < s.len(),
        r.account_id@ == s[i].account_id@,
    ensures
        forall|id: Seq<char>| #[trigger] has_account(s.update(i, r), id) == has_account(s, id),
        accounts_unique(s) ==> accounts_unique(s.update(i, r)),
{
    let t = s.update(i, r);
    assert(forall|k: int| 0 <= k < t.len() ==> (#[trigger] t[k]).account_id@ == s[k].account_id@);
    assert forall|id: Seq<char>| #[trigger] has_account(t, id) == has_account(s, id) by {
        if has_account(t, id) {
            let j = choose|j: int| 0 <= j < t.len() && (#[trigger] t[j]).account_id@ == id;
            assert(s[j].account_id@ == id);
        }
        if has_account(s, id) {
            let j = choose|j: int| 0 <= j < s.len() && (#[trigger] s[j]).account_id@ == id;
            assert(t[j].account_id@ == id);
        }
    }
}

/// Appending a record registers exactly one more identity; a fresh
/// identity keeps the ledger unique.
pub proof fn lemma_accounts_push(s: Seq<AccountRecord>, r: AccountRecord)
    ensures
        forall|id: Seq<char>| #[trigger]
            has_account(s.push(r), id) == (has_account(s, id) || r.account_id@ == id),
        accounts_unique(s) && !has_account(s, r.account_id@) ==> accounts_unique(s.push(r)),
{
    let t = s.push(r);
    assert forall|id: Seq<char>| #[trigger]
        has_account(t, id) == (has_account(s, id) || r.account_id@ == id) by {
        if has_account(t, id) {
            let j = choose|j: int| 0 <= j < t.len() && (#[trigger] t[j]).account_id@ == id;
            if j < s.len() {
                assert(s[j].account_id@ == id);
            } else {
                assert(t[j] == r);
            }
        }
        if has_account(s, id) {
            let j = choose|j: int| 0 <= j < s.len() && (#[trigger] s[j]).account_id@ == id;
            assert(t[j].account_id@ == id);
        }
        if r.account_id@ == id {
            assert(t[s.len() as int].account_id@ == id);
        }
    }
    if accounts_unique(s) && !has_account(s, r.account_id@) {
        assert forall|i: int, j: int|
            0 <= i < t.len() && 0 <= j < t.len() && i != j implies (#[trigger] t[i]).account_id@
            != (#[trigger] t[j]).account_id@ by {
            if i < s.len() && j < s.len() {
            } else if i < s.len() {
                assert(t[j] == r);
                assert(s[i].account_id@ != r.account_id@);
            } else {
                assert(t[i] == r);
                assert(s[j].account_id@ != r.account_id@);
            }
        }
    }
}

/// Replacing a deposit by one under the same identity changes neither
/// which deposits exist nor their uniqueness.
pub proof fn lemma_deposits_update_same_id(s: Seq<DepositRecord>, i: int, r: DepositRecord)
    requires
        0 <= i < s.len(),
        r.account_id@ == s[i].account_id@,
    ensures
        forall|id: Seq<char>| #[trigger] has_deposit(s.update(i, r), id) == has_deposit(s, id),
        deposits_unique(s) ==> deposits_unique(s.update(i, r)),
{
    let t = s.update(i, r);
    assert(forall|k: int| 0 <= k < t.len() ==> (#[trigger] t[k]).account_id@ == s[k].account_id@);
    assert forall|id: Seq<char>| #[trigger] has_deposit(t, id) == has_deposit(s, id) by {
        if has_deposit(t, id) {
            let j = choose|j: int| 0 <= j < t.len() && (#[trigger] t[j]).account_id@ == id;
            assert(s[j].account_id@ == id);
        }
        if has_deposit(s, id) {
            let j = choose|j: int| 0 <= j < s.len() && (#[trigger] s[j]).account_id@ == id;
            assert(t[j].account_id@ == id);
        }
    }
}

/// Appending a deposit registers exactly one more identity; a fresh
/// identity keeps the deposits unique.
pub proof fn lemma_deposits_push(s: Seq<DepositRecord>, r: DepositRecord)
    ensures
        forall|id: Seq<char>| #[trigger]
            has_deposit(s.push(r), id) == (has_deposit(s, id) || r.account_id@ == id),
        deposits_unique(s) && !has_deposit(s, r.account_id@) ==> deposits_unique(s.push(r)),
{
    let t = s.push(r);
    assert forall|id: Seq<char>| #[trigger]
        has_deposit(t, id) == (has_deposit(s, id) || r.account_id@ == id) by {
        if has_deposit(t, id) {
            let j = choose|j: int| 0 <= j < t.len() && (#[trigger] t[j]).account_id@ == id;
            if j < s.len() {
                assert(s[j].account_id@ == id);
            } else {
                assert(t[j] == r);
            }
        }
        if has_deposit(s, id) {
            let j = choose|j: int| 0 <= j < s.len() && (#[trigger] s[j]).account_id@ == id;
            assert(t[j].account_id@ == id);
        }
        if r.account_id@ == id {
            assert(t[s.len() as int].account_id@ == id);
        }
    }
    if deposits_unique(s) && !has_deposit(s, r.account_id@) {
        assert forall|i: int, j: int|
            0 <= i < t.len() && 0 <= j < t.len() && i != j implies (#[trigger] t[i]).account_id@
            != (#[trigger] t[j]).account_id@ by {
        if i < s.len() && j < s.len() {
            } else if i < s.len() {
                assert(t[j] == r);
                assert(s[i].account_id@ != r.account_id@);
            } else {
                assert(t[i] == r);
                assert(s[j].account_id@ != r.account_id@);
            }
        }
    }
}

/// With unique identities, any position holding `id` among the deposits
/// is the position `deposit_idx` picks.
pub proof fn lemma_deposit_idx_is(s: Seq<DepositRecord>, id: Seq<char>, i: int)
    requires
        deposits_unique(s),
        0 <= i < s.len(),
        s[i].account_id@ == id,
    ensures
        has_deposit(s, id),
        deposit_idx(s, id) == i,
{
    assert(has_deposit(s, id));
    let j = deposit_idx(s, id);
    assert(0 <= j < s.len() && s[j].account_id@ == id);
}

} // verus!
