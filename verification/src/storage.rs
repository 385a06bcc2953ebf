//! Storage-deposit cost estimation: how many yocto-units an account must
//! hold on deposit before it may register or take a seat.
//!
//! Costs are a function of the byte estimate of the stored records; the
//! identity contributes its character count.

use vstd::prelude::*;

use vstd::string::StrSliceExecFns;

verus! {

/// Storage price per byte, in yocto-units.
pub const STORAGE_COST_PER_BYTE: u128 = 10_000_000_000_000_000_000;

/// Conservative minimum deposit for typical identities.
pub const STORAGE_DEPOSIT_REQUIRED: u128 = 12_300_000_000_000_000_000_000;

/// Price per byte with the 20% safety margin folded in.
pub const COST_PER_BYTE_WITH_MARGIN: u128 = 12_000_000_000_000_000_000;

/// Price per byte with the 25% safety margin folded in.
pub const COST_PER_BYTE_WITH_SIGNAL_MARGIN: u128 = 12_500_000_000_000_000_000;

/// Cost of one ledger record for an identity of length `n`: the
/// identity, the seven scalar fields (101 bytes), serialization and map
/// overhead (96 bytes), at the margin price.
pub open spec fn user_storage_cost(n: int) -> int {
    (n + 177) * COST_PER_BYTE_WITH_MARGIN
}

/// Cost of one seat record for an identity of length `n`: the identity,
/// the scalar fields and the estimated hand and burn-history vectors
/// (542 bytes), serialization overhead (64 bytes), at the margin price.
pub open spec fn player_storage_cost(n: int) -> int {
    (n + 606) * COST_PER_BYTE_WITH_MARGIN
}

/// Cost of a signal queue of up to `m` signals of 128 bytes each plus
/// container overhead (88 bytes), at the higher signal margin price.
pub open spec fn signals_storage_cost(m: int) -> int {
    (m * 128 + 88) * COST_PER_BYTE_WITH_SIGNAL_MARGIN
}

/// Storage cost of the ledger record for `account_id`.
pub fn calculate_user_storage_cost(account_id: &String) -> (r: u128)
    ensures
        r as int == user_storage_cost(account_id@.len() as int),
{
    let n = account_id.as_str().unicode_len();
    (n as u128 + 177) * COST_PER_BYTE_WITH_MARGIN
}

/// Storage cost of the seat record for `account_id`.
pub fn calculate_blackjack_player_storage_cost(account_id: &String) -> (r: u128)
    ensures
        r as int == player_storage_cost(account_id@.len() as int),
{
    let n = account_id.as_str().unicode_len();
    (n as u128 + 606) * COST_PER_BYTE_WITH_MARGIN
}

/// Storage cost of a signal queue holding up to `max_signals` entries.
pub fn calculate_signals_storage_cost(max_signals: u16) -> (r: u128)
    ensures
        r as int == signals_storage_cost(max_signals as int),
{
    (max_signals as u128 * 128 + 88) * COST_PER_BYTE_WITH_SIGNAL_MARGIN
}

/// Whether `user_deposit` covers both the ledger record and the seat
/// record for `account_id`.
pub fn has_sufficient_blackjack_storage(user_deposit: u128, account_id: &String) -> (r: bool)
    requires
        account_id@.len() <= 1_000_000_000,
    ensures
        r == (user_deposit as int >= user_storage_cost(account_id@.len() as int)
            + player_storage_cost(account_id@.len() as int)),
{
    let user_cost = calculate_user_storage_cost(account_id);
    let player_cost = calculate_blackjack_player_storage_cost(account_id);
    user_deposit >= user_cost + player_cost
}

/// Recommended deposit for full play: both records plus a 50% buffer.
pub fn recommended_storage_deposit(account_id: &String) -> (r: u128)
    requires
        account_id@.len() <= 1_000_000_000,
    ensures
        r as int == (user_storage_cost(account_id@.len() as int) + player_storage_cost(
            account_id@.len() as int,
        )) * 150 / 100,
{
    let user_cost = calculate_user_storage_cost(account_id);
    let player_cost = calculate_blackjack_player_storage_cost(account_id);
    (user_cost + player_cost) * 150 / 100
}

} // verus!
