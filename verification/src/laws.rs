//! The library's global guarantees, stated and proved once: supply
//! conservation, seat exclusivity, turn ownership, hand-state
//! monotonicity, the split limit, the stale-settlement guard and refund
//! correctness.

use vstd::prelude::*;

use crate::action::{distribute_ok, move_ok, move_target_ok};
use crate::contract::{staked_total, CardsContract};
use crate::player::{is_seated, join_ok, leave_effect, leave_refund, seat_idx_of, seated_player};
use crate::tokens::{balance_of, sum_balances};
use crate::types::{GameState, PlayerMove, SeatPlayer, WinningsDistribution};

verus! {

/// Conservation: at any quiescent point — no stake committed to a round
/// in flight — the sum of all account balances plus the outstanding
/// stakes equals the total supply. (Mid-round, every operation preserves
/// `total_supply + staked_total`: bets and doubled or split stakes move
/// chips from supply into stakes, refunds move them back, and the
/// well-formedness invariant keeps `total_supply == sum of balances` at
/// every step.)
pub proof fn lemma_conservation_quiescent(c: CardsContract)
    requires
        c.wf(),
        staked_total(c.seats@) == 0,
    ensures
        sum_balances(c.accounts@) + staked_total(c.seats@) == c.total_supply as int,
{
}

/// Seat exclusivity, first half: two distinct occupied seats never hold
/// the same identity.
pub proof fn lemma_seat_exclusivity(c: CardsContract, i: int, j: int)
    requires
        c.wf(),
        0 <= i < c.seats@.len(),
        0 <= j < c.seats@.len(),
        i != j,
        c.seats@[i] is Some,
        c.seats@[j] is Some,
    ensures
        c.seats@[i]->Some_0.account_id@ != c.seats@[j]->Some_0.account_id@,
{
}

/// Seat exclusivity, second half: a join is rejected when the seat is
/// occupied or the caller already sits at the table.
pub proof fn lemma_join_rejected(c: CardsContract, caller: Seq<char>, seat_number: u8)
    requires
        c.wf(),
        1 <= seat_number <= 3,
        c.seats@[seat_number - 1] is Some || is_seated(c.seats@, caller),
    ensures
        !join_ok(c, caller, seat_number),
{
}

/// Turn ownership: a move can succeed only when the caller's seat is the
/// recorded turn holder — and since the check reads the pointer at call
/// time, this holds immediately after any admin override of it.
pub proof fn lemma_turn_ownership(
    c: CardsContract,
    caller: Seq<char>,
    mv: PlayerMove,
    hand_index: u8,
)
    requires
        c.wf(),
        move_ok(c, caller, mv, hand_index),
    ensures
        c.current_player_seat == Some((seat_idx_of(c.seats@, caller) + 1) as u8),
{
}

/// Turn ownership, contrapositive: whoever does not hold the recorded
/// turn cannot move.
pub proof fn lemma_not_your_turn(
    c: CardsContract,
    caller: Seq<char>,
    mv: PlayerMove,
    hand_index: u8,
)
    requires
        c.wf(),
        is_seated(c.seats@, caller),
        c.current_player_seat != Some((seat_idx_of(c.seats@, caller) + 1) as u8),
    ensures
        !move_ok(c, caller, mv, hand_index),
{
}

/// Hand-state monotonicity: once a hand is finished, no hit, double or
/// split on that hand can succeed for the remainder of the round. (A
/// successful move also never unfinishes a hand: the move effect keeps
/// every finished flag set; only the round reset clears hands.)
pub proof fn lemma_finished_hand_rejects(
    c: CardsContract,
    caller: Seq<char>,
    mv: PlayerMove,
    hand_index: u8,
)
    requires
        c.wf(),
        is_seated(c.seats@, caller),
        1 <= hand_index <= 2,
        hand_index - 1 < seated_player(c.seats@, caller).hands@.len(),
        seated_player(c.seats@, caller).hands@[hand_index - 1].is_finished,
    ensures
        !move_ok(c, caller, mv, hand_index),
{
    assert(!move_target_ok(c, caller, hand_index));
}

/// Split limits, first half: a split is allowed only from hand 1 while
/// it is the only, unsplit hand.
pub proof fn lemma_split_preconditions(c: CardsContract, caller: Seq<char>, hand_index: u8)
    requires
        c.wf(),
        move_ok(c, caller, PlayerMove::Split, hand_index),
    ensures
        hand_index == 1,
        seated_player(c.seats@, caller).hands@.len() == 1,
        !seated_player(c.seats@, caller).hands@[0].has_split,
{
}

/// Split limits, second half: once a player holds two hands — the state
/// every successful split leaves behind for the rest of the round — no
/// further split can succeed.
pub proof fn lemma_split_at_most_once(c: CardsContract, caller: Seq<char>, hand_index: u8)
    requires
        c.wf(),
        is_seated(c.seats@, caller),
        seated_player(c.seats@, caller).hands@.len() == 2,
    ensures
        !move_ok(c, caller, PlayerMove::Split, hand_index),
{
}

/// Settlement guard: a batch whose round number lies strictly below the
/// table's current round is rejected whole — nothing is credited, since
/// a rejected settlement leaves the state untouched.
pub proof fn lemma_stale_settlement_rejected(c: CardsContract, d: WinningsDistribution)
    requires
        d.round_number < c.round_number,
    ensures
        !distribute_ok(c, d),
{
}

/// Refund correctness: a player leaving during betting with a stake `A`
/// gets exactly `A` credited back, the supply rises by exactly `A`
/// (undoing the burn), the betting-burn statistic falls by exactly `A`,
/// and `total_supply + staked_total` is conserved.
pub proof fn lemma_leave_refund(pre: CardsContract, post: CardsContract, caller: String, now: u64)
    requires
        pre.wf(),
        is_seated(pre.seats@, caller@),
        pre.game_state == GameState::Betting,
        seated_player(pre.seats@, caller@).total_burned_this_round > 0,
        leave_effect(pre, post, caller, now),
    ensures
        ({
            let stake = seated_player(pre.seats@, caller@).total_burned_this_round;
            &&& balance_of(post.accounts@, caller@) == balance_of(pre.accounts@, caller@) + stake
            &&& post.total_supply == pre.total_supply + stake
            &&& post.blackjack_stats.total_tokens_burned_betting
                == pre.blackjack_stats.total_tokens_burned_betting - stake
            &&& post.total_supply as int + staked_total(post.seats@) == pre.total_supply as int
                + staked_total(pre.seats@)
        }),
{
    let s = seat_idx_of(pre.seats@, caller@);
    let p = pre.seats@[s]->Some_0;
    assert(leave_refund(pre, p));
    crate::model::lemma_sum_by_bounds_elem(
        pre.seats@,
        |o: Option<SeatPlayer>| crate::contract::seat_stake(o),
        s,
    );
    assert(pre.blackjack_stats.total_tokens_burned_betting >= p.total_burned_this_round);
}

} // verus!
