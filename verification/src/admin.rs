//! Admin and backend operations: driving the round state machine,
//! kicking players, forcing the turn onward, emergency refunds and the
//! inactivity sweep.

use vstd::prelude::*;

use crate::contract::{
    same_counters, same_game, same_surroundings, same_token_config, seat_stake, staked_total,
    BlackjackStats, CardsContract, SEAT_COUNT,
};
use crate::model::{lemma_sum_by_bounds_elem, lemma_sum_by_nonneg, lemma_sum_by_update, lemma_sum_by_zero};
use crate::player::{bet_queues_cleared_at, is_seated, move_queues_cleared_at, seat_idx_of};
use crate::tokens::{balance_of, has_account, lemma_account_idx_is, AccountRecord, ContractStats};
use crate::types::{BurnRecord, GameState, PlayerHand, PlayerState, SeatPlayer};

verus! {

/// The first seat, in ascending order, holding an active player with a
/// nonzero stake: who opens the player-turn phase.
pub open spec fn first_active_staked(seats: Seq<Option<SeatPlayer>>) -> Option<u8> {
    if crate::player::seat_eligible(seats, 0) {
        Some(1u8)
    } else if crate::player::seat_eligible(seats, 1) {
        Some(2u8)
    } else if crate::player::seat_eligible(seats, 2) {
        Some(3u8)
    } else {
        None
    }
}

/// Whether the seat at position `i` holds an active, staked player with
/// at least one unfinished hand — someone the forced turn advance may
/// pass the turn to.
pub open spec fn seat_playable(seats: Seq<Option<SeatPlayer>>, i: int) -> bool {
    0 <= i < seats.len() && match seats[i] {
        Some(p) => p.state == PlayerState::Active && p.total_burned_this_round > 0 && exists|k: int|
            0 <= k < p.hands@.len() && !(#[trigger] p.hands@[k]).is_finished,
        None => false,
    }
}

/// The forced-advance search: the first playable seat after `start_seat`
/// in cyclic order, the start seat itself excluded.
pub open spec fn next_playable_excluding(
    seats: Seq<Option<SeatPlayer>>,
    start_seat: int,
) -> Option<u8> {
    let s1 = (start_seat % 3) + 1;
    let s2 = ((start_seat + 1) % 3) + 1;
    if s1 != start_seat && seat_playable(seats, s1 - 1) {
        Some(s1 as u8)
    } else if s2 != start_seat && seat_playable(seats, s2 - 1) {
        Some(s2 as u8)
    } else {
        None
    }
}

/// The player-state map applied when betting opens: observers and
/// waiting players become active, everyone else keeps their state.
pub open spec fn activated(s: PlayerState) -> PlayerState {
    if s == PlayerState::Observing || s == PlayerState::WaitingForNextRound {
        PlayerState::Active
    } else {
        s
    }
}

/// Clear one seat's round fields when betting opens, activating players
/// who sat out the previous round.
fn reset_seat_for_betting(c: &mut CardsContract, si: usize, now: u64)
    requires
        old(c).wf(),
        si < SEAT_COUNT,
        old(c).current_player_seat is None,
    ensures
        final(c).wf(),
        final(c).seats@.len() == old(c).seats@.len(),
        (match (old(c).seats@[si as int], final(c).seats@[si as int]) {
            (Some(q), Some(p)) => {
                &&& p.account_id == q.account_id
                &&& p.seat_number == q.seat_number
                &&& p.state == activated(q.state)
                &&& p.round_cleared()
                &&& p.last_action_time == now
                &&& p.rounds_played == q.rounds_played
                &&& p.joined_at == q.joined_at
            },
            (None, None) => true,
            _ => false,
        }),
        seat_stake(final(c).seats@[si as int]) == 0,
        forall|j: int|
            0 <= j < old(c).seats@.len() && j != si ==> final(c).seats@[j] == old(c).seats@[j],
        final(c).accounts == old(c).accounts,
        final(c).total_supply == old(c).total_supply,
        same_counters(*old(c), *final(c)),
        final(c).blackjack_stats == old(c).blackjack_stats,
        final(c).pending_bets == old(c).pending_bets,
        final(c).pending_moves == old(c).pending_moves,
        final(c).game_state == old(c).game_state,
        final(c).round_number == old(c).round_number,
        final(c).current_player_seat == old(c).current_player_seat,
        final(c).last_activity == old(c).last_activity,
        same_token_config(*old(c), *final(c)),
        same_surroundings(*old(c), *final(c)),
{
    let mut slot: Option<SeatPlayer> = None;
    c.seats.set_and_swap(si, &mut slot);
    match slot {
        Some(mut p) => {
            p.current_hand_index = 1;
            p.hands = Vec::new();
            p.total_burned_this_round = 0;
            p.burns_tracking = Vec::new();
            p.last_action_time = now;
            if p.state == PlayerState::Observing || p.state == PlayerState::WaitingForNextRound {
                p.state = PlayerState::Active;
            }
            proof {
                let f = |o: Option<SeatPlayer>| seat_stake(o);
                lemma_sum_by_update(c.seats@, f, si as int, Some(p));
                lemma_sum_by_update(old(c).seats@, f, si as int, None::<SeatPlayer>);
                assert(c.seats@ =~= old(c).seats@.update(si as int, None::<SeatPlayer>));
                assert(p.hands@ =~= Seq::<PlayerHand>::empty());
                assert(p.burns_tracking@ =~= Seq::<BurnRecord>::empty());
            }
            c.seats.set(si, Some(p));
        },
        None => {
            proof {
                let f = |o: Option<SeatPlayer>| seat_stake(o);
                lemma_sum_by_update(old(c).seats@, f, si as int, None::<SeatPlayer>);
                assert(c.seats@ =~= old(c).seats@.update(si as int, None::<SeatPlayer>));
                assert(c.seats@ =~= old(c).seats@);
            }
        },
    }
}

/// The inputs on which a phase change succeeds: only a round counter at
/// its ceiling blocks the step into the round's end.
pub open spec fn advance_ok(c: CardsContract, new_state: GameState) -> bool {
    new_state == GameState::RoundEnded ==> c.round_number < u64::MAX
}

/// Everything a successful call changes, relating the state before to
/// the state after.
pub open spec fn advance_effect(pre: CardsContract, post: CardsContract, new_state: GameState, now: u64) -> bool {
    {

            &&& post.game_state == new_state
            &&& post.last_activity == now
            &&& post.seats@.len() == pre.seats@.len()
            &&& (new_state == GameState::Betting ==> {
                &&& forall|j: int|
                    0 <= j < pre.seats@.len() ==> match (
                        #[trigger] pre.seats@[j],
                        post.seats@[j],
                    ) {
                        (Some(q), Some(p)) => {
                            &&& p.account_id == q.account_id
                            &&& p.seat_number == q.seat_number
                            &&& p.state == activated(q.state)
                            &&& p.round_cleared()
                            &&& p.last_action_time == now
                            &&& p.rounds_played == q.rounds_played
                            &&& p.joined_at == q.joined_at
                        },
                        (None, None) => true,
                        _ => false,
                    }
                &&& post.current_player_seat is None
            })
            &&& (new_state == GameState::PlayerTurn ==> post.seats == pre.seats && post.current_player_seat == first_active_staked(pre.seats@))
            &&& (new_state == GameState::DealerTurn || new_state == GameState::WaitingForPlayers
                ==> post.seats == pre.seats && post.current_player_seat is None)
            &&& (new_state == GameState::DealingInitialCards ==> post.seats == pre.seats
                && post.current_player_seat == pre.current_player_seat)
            &&& (new_state == GameState::RoundEnded ==> post.seats == pre.seats && post.current_player_seat is None)
            &&& post.round_number == (if new_state == GameState::RoundEnded {
                (pre.round_number + 1) as u64
            } else {
                pre.round_number
            })
            &&& post.accounts == pre.accounts
            &&& post.total_supply == pre.total_supply
            &&& post.blackjack_stats == pre.blackjack_stats
            &&& post.pending_bets == pre.pending_bets
            &&& post.pending_moves == pre.pending_moves
            &&& same_counters(pre, post)
            &&& same_token_config(pre, post)
            &&& same_surroundings(pre, post)
    }
}

/// Drive the round state machine to `new_state` (a backend/admin step;
/// transitions are not inferred internally). Entering betting clears
/// every player's round fields and activates waiting players; entering
/// the player turn seats the turn pointer on the first active staked
/// seat; entering the dealer turn or the waiting phase clears it; the
/// round counter advances on the round's end.
pub fn advance_game_state(c: &mut CardsContract, new_state: GameState, now: u64) -> (r: bool)
    requires
        old(c).wf(),
    ensures
        final(c).wf(),
        r == advance_ok(*old(c), new_state),
        !r ==> *final(c) == *old(c),
        r ==> advance_effect(*old(c), *final(c), new_state, now),
{
    match new_state {
        GameState::Betting => {
            c.current_player_seat = None;
            reset_seat_for_betting(c, 0, now);
            reset_seat_for_betting(c, 1, now);
            reset_seat_for_betting(c, 2, now);
        },
        GameState::PlayerTurn => {
            let first = if seat_is_eligible_at(c, 0) {
                Some(1u8)
            } else if seat_is_eligible_at(c, 1) {
                Some(2u8)
            } else if seat_is_eligible_at(c, 2) {
                Some(3u8)
            } else {
                None
            };
            c.current_player_seat = first;
        },
        GameState::DealerTurn => {
            c.current_player_seat = None;
        },
        GameState::WaitingForPlayers => {
            c.current_player_seat = None;
        },
        GameState::RoundEnded => {
            if c.round_number == u64::MAX {
                return false;
            }
            c.round_number = c.round_number + 1;
            c.current_player_seat = None;
        },
        GameState::DealingInitialCards => {},
    }
    c.game_state = new_state;
    c.last_activity = now;
    true
}

/// Whether the 0-based seat position holds an active staked player.
fn seat_is_eligible_at(c: &CardsContract, si: usize) -> (r: bool)
    requires
        c.wf(),
        si < SEAT_COUNT,
    ensures
        r == crate::player::seat_eligible(c.seats@, si as int),
{
    match &c.seats[si] {
        Some(p) => p.state == PlayerState::Active && p.total_burned_this_round > 0,
        None => false,
    }
}

/// Everything a successful call changes, relating the state before to
/// the state after.
pub open spec fn kick_effect(pre: CardsContract, post: CardsContract, account_id: String, now: u64) -> bool {
    {

            let s = seat_idx_of(pre.seats@, account_id@);
            let p = pre.seats@[s]->Some_0;
            let refunded = crate::player::leave_refund(pre, p);
            &&& post.seats@ == pre.seats@.update(s, None::<SeatPlayer>)
            &&& post.pending_bets@.len() == pre.pending_bets@.len()
            &&& post.pending_moves@.len() == pre.pending_moves@.len()
            &&& (!crate::player::seats_all_empty(post.seats@) ==> bet_queues_cleared_at(
                pre.pending_bets@,
                post.pending_bets@,
                s,
            ) && move_queues_cleared_at(pre.pending_moves@, post.pending_moves@, s)
                && post.game_state == pre.game_state)
            &&& (crate::player::seats_all_empty(post.seats@) ==> {
                &&& post.game_state == GameState::WaitingForPlayers
                &&& forall|j: int|
                    0 <= j < post.pending_bets@.len() ==> (#[trigger] post.pending_bets@[j])@.len()
                        == 0
                &&& forall|j: int|
                    0 <= j < post.pending_moves@.len() ==> (
                    #[trigger] post.pending_moves@[j])@.len() == 0
            })
            &&& post.current_player_seat == (if pre.current_player_seat == Some(
                (s + 1) as u8,
            ) {
                crate::player::next_excluding(pre.seats@, s + 1)
            } else {
                pre.current_player_seat
            })
            &&& post.last_activity == now
            &&& post.round_number == pre.round_number
            &&& (refunded ==> {
                &&& balance_of(post.accounts@, account_id@) == balance_of(
                    pre.accounts@,
                    account_id@,
                ) + p.total_burned_this_round
                &&& forall|id: Seq<char>|
                    id != account_id@ ==> #[trigger] balance_of(post.accounts@, id) == balance_of(
                        pre.accounts@,
                        id,
                    )
                &&& post.total_supply == pre.total_supply + p.total_burned_this_round
                &&& post.blackjack_stats == (BlackjackStats {
                    total_tokens_burned_betting: (pre.blackjack_stats.total_tokens_burned_betting
                        - p.total_burned_this_round) as u128,
                    ..pre.blackjack_stats
                })
                &&& post.total_supply as int + staked_total(post.seats@) == pre.total_supply as int
                    + staked_total(pre.seats@)
            })
            &&& (!refunded ==> post.accounts == pre.accounts && post.total_supply
                == pre.total_supply && post.blackjack_stats == pre.blackjack_stats)
            &&& same_counters(pre, post)
            &&& same_token_config(pre, post)
            &&& same_surroundings(pre, post)
    }
}

/// Remove `account_id` from their seat on the admin's order. The state
/// change is exactly a leave — stake refunded in the refundable phases,
/// turn passed on, seat queues purged; the audit reason accompanies the
/// host's event and does not affect the state.
pub fn kick_player(c: &mut CardsContract, account_id: &String, reason: &String, now: u64) -> (r:
    bool)
    requires
        old(c).wf(),
    ensures
        final(c).wf(),
        r == is_seated(old(c).seats@, account_id@),
        !r ==> *final(c) == *old(c),
        r ==> kick_effect(*old(c), *final(c), *account_id, now),
{
    let _ = reason;
    crate::player::leave_seat(c, account_id, now)
}

/// The inputs on which a forced turn advance acts: a player turn with a
/// recorded turn holder.
pub open spec fn force_ok(c: CardsContract) -> bool {
    c.game_state == GameState::PlayerTurn && c.current_player_seat is Some
}

/// Skip the current turn holder (after a timeout, say): the first seat
/// after theirs holding an active, staked player with an unfinished hand
/// takes the turn; when no such seat is left, the round falls through to
/// the dealer's turn.
pub fn force_next_player(c: &mut CardsContract, now: u64) -> (r: bool)
    requires
        old(c).wf(),
    ensures
        final(c).wf(),
        r == force_ok(*old(c)),
        !r ==> *final(c) == *old(c),
        r ==> ({
            let s = old(c).current_player_seat->0;
            let next = next_playable_excluding(old(c).seats@, s as int);
            &&& final(c).current_player_seat == next
            &&& final(c).game_state == (if next is Some {
                GameState::PlayerTurn
            } else {
                GameState::DealerTurn
            })
            &&& final(c).seats == old(c).seats
            &&& final(c).pending_bets == old(c).pending_bets
            &&& final(c).pending_moves == old(c).pending_moves
            &&& final(c).round_number == old(c).round_number
            &&& final(c).accounts == old(c).accounts
            &&& final(c).total_supply == old(c).total_supply
            &&& final(c).blackjack_stats == old(c).blackjack_stats
            &&& final(c).last_activity == now
            &&& same_counters(*old(c), *final(c))
            &&& same_token_config(*old(c), *final(c))
            &&& same_surroundings(*old(c), *final(c))
        }),
{
    if c.game_state != GameState::PlayerTurn {
        return false;
    }
    let s = match c.current_player_seat {
        Some(s) => s,
        None => {
            return false;
        },
    };
    let s1 = (s % 3) + 1;
    let s2 = ((s + 1) % 3) + 1;
    let next = if s1 != s && seat_is_playable_at(c, s1) {
        Some(s1)
    } else if s2 != s && seat_is_playable_at(c, s2) {
        Some(s2)
    } else {
        None
    };
    match next {
        Some(x) => {
            c.current_player_seat = Some(x);
        },
        None => {
            c.current_player_seat = None;
            c.game_state = GameState::DealerTurn;
        },
    }
    c.last_activity = now;
    true
}

/// The stake a seat holds for `id`; zero when `id` does not sit there.
pub open spec fn seat_refund(o: Option<SeatPlayer>, id: Seq<char>) -> int {
    match o {
        Some(p) => if p.account_id@ == id {
            p.total_burned_this_round as int
        } else {
            0
        },
        None => 0,
    }
}

/// The total an emergency refund hands back to `id` across the three
/// seats.
pub open spec fn refund_for(seats: Seq<Option<SeatPlayer>>, id: Seq<char>) -> int {
    seat_refund(seats[0], id) + seat_refund(seats[1], id) + seat_refund(seats[2], id)
}

/// How many seats hold a nonzero stake.
pub open spec fn staked_seats(seats: Seq<Option<SeatPlayer>>) -> int {
    crate::model::sum_by(
        seats,
        |o: Option<SeatPlayer>|
            match o {
                Some(p) => if p.total_burned_this_round > 0 {
                    1int
                } else {
                    0int
                },
                None => 0int,
            },
    )
}

/// Refund and clear one seat's round fields during an emergency reset;
/// returns whether a stake was handed back.
fn refund_seat(c: &mut CardsContract, si: usize, now: u64) -> (refunded: bool)
    requires
        old(c).wf(),
        si < SEAT_COUNT,
        old(c).current_player_seat is None,
    ensures
        final(c).wf(),
        refunded == (match old(c).seats@[si as int] {
            Some(q) => q.total_burned_this_round > 0,
            None => false,
        }),
        final(c).seats@.len() == old(c).seats@.len(),
        (match (old(c).seats@[si as int], final(c).seats@[si as int]) {
            (Some(q), Some(p)) => {
                &&& p.account_id == q.account_id
                &&& p.seat_number == q.seat_number
                &&& p.state == q.state
                &&& p.round_cleared()
                &&& p.last_action_time == now
                &&& p.rounds_played == q.rounds_played
                &&& p.joined_at == q.joined_at
            },
            (None, None) => true,
            _ => false,
        }),
        seat_stake(final(c).seats@[si as int]) == 0,
        forall|j: int|
            0 <= j < old(c).seats@.len() && j != si ==> final(c).seats@[j] == old(c).seats@[j],
        forall|id: Seq<char>| #[trigger]
            balance_of(final(c).accounts@, id) == balance_of(old(c).accounts@, id) + seat_refund(
                old(c).seats@[si as int],
                id,
            ),
        final(c).total_supply as int == old(c).total_supply as int + seat_stake(
            old(c).seats@[si as int],
        ),
        final(c).blackjack_stats == (BlackjackStats {
            total_tokens_burned_betting: (old(c).blackjack_stats.total_tokens_burned_betting
                - seat_stake(old(c).seats@[si as int])) as u128,
            ..old(c).blackjack_stats
        }),
        final(c).pending_bets == old(c).pending_bets,
        final(c).pending_moves == old(c).pending_moves,
        final(c).game_state == old(c).game_state,
        final(c).round_number == old(c).round_number,
        final(c).current_player_seat == old(c).current_player_seat,
        final(c).last_activity == old(c).last_activity,
        same_counters(*old(c), *final(c)),
        same_token_config(*old(c), *final(c)),
        same_surroundings(*old(c), *final(c)),
{
    let (stake, account_id) = match &c.seats[si] {
        Some(p) => (p.total_burned_this_round, Some(p.account_id.clone())),
        None => (0u128, None),
    };
    let mut slot: Option<SeatPlayer> = None;
    c.seats.set_and_swap(si, &mut slot);
    match slot {
        Some(mut p) => {
            p.current_hand_index = 1;
            p.hands = Vec::new();
            p.total_burned_this_round = 0;
            p.burns_tracking = Vec::new();
            p.last_action_time = now;
            proof {
                let f = |o: Option<SeatPlayer>| seat_stake(o);
                lemma_sum_by_update(c.seats@, f, si as int, Some(p));
                lemma_sum_by_update(old(c).seats@, f, si as int, None::<SeatPlayer>);
                lemma_sum_by_bounds_elem(old(c).seats@, f, si as int);
                lemma_sum_by_nonneg(old(c).seats@, f);
                assert(c.seats@ =~= old(c).seats@.update(si as int, None::<SeatPlayer>));
                assert(p.hands@ =~= Seq::<PlayerHand>::empty());
                assert(p.burns_tracking@ =~= Seq::<BurnRecord>::empty());
            }
            c.seats.set(si, Some(p));
        },
        None => {
            proof {
                let f = |o: Option<SeatPlayer>| seat_stake(o);
                lemma_sum_by_update(old(c).seats@, f, si as int, None::<SeatPlayer>);
                assert(c.seats@ =~= old(c).seats@.update(si as int, None::<SeatPlayer>));
                assert(c.seats@ =~= old(c).seats@);
            }
            return false;
        },
    }
    if stake == 0 {
        return false;
    }
    let id = match account_id {
        Some(id) => id,
        None => {
            return unreached();
        },
    };
    let i = match c.account_index(&id) {
        Some(i) => i,
        None => {
            return unreached();
        },
    };
    let ghost pre_credit = *c;
    proof {
        lemma_account_idx_is(c.accounts@, id@, i as int);
        lemma_sum_by_nonneg(c.seats@, |o: Option<SeatPlayer>| seat_stake(o));
        lemma_sum_by_bounds_elem(c.accounts@, |r: AccountRecord| r.data.balance as int, i as int);
    }
    crate::tokens::credit_at(c, i, stake);
    proof {
        lemma_account_idx_is(c.accounts@, id@, i as int);
        assert forall|aid: Seq<char>|
            aid != id@ implies #[trigger] balance_of(c.accounts@, aid) == balance_of(
            pre_credit.accounts@,
            aid,
        ) by {
            crate::tokens::lemma_balance_of_other(
                pre_credit.accounts@,
                c.accounts@,
                id@,
                aid,
                i as int,
            );
        }
    }
    c.blackjack_stats.total_tokens_burned_betting = c.blackjack_stats.total_tokens_burned_betting
        - stake;
    true
}

/// Refund every outstanding stake, clear every seated player's round
/// fields, reset the game to the waiting phase and purge both signal
/// queues: the admin's recovery path. Returns how many players were
/// handed a refund; the reason accompanies the host's event.
pub fn emergency_refund(c: &mut CardsContract, reason: &String, now: u64) -> (r: u8)
    requires
        old(c).wf(),
    ensures
        final(c).wf(),
        r as int == staked_seats(old(c).seats@),
        final(c).seats@.len() == old(c).seats@.len(),
        forall|j: int|
            0 <= j < old(c).seats@.len() ==> match (
                #[trigger] old(c).seats@[j],
                final(c).seats@[j],
            ) {
                (Some(q), Some(p)) => {
                    &&& p.account_id == q.account_id
                    &&& p.seat_number == q.seat_number
                    &&& p.state == q.state
                    &&& p.round_cleared()
                    &&& p.last_action_time == now
                    &&& p.rounds_played == q.rounds_played
                    &&& p.joined_at == q.joined_at
                },
                (None, None) => true,
                _ => false,
            },
        forall|id: Seq<char>| #[trigger]
            balance_of(final(c).accounts@, id) == balance_of(old(c).accounts@, id) + refund_for(
                old(c).seats@,
                id,
            ),
        final(c).total_supply as int == old(c).total_supply as int + staked_total(old(c).seats@),
        final(c).total_supply as int + staked_total(final(c).seats@) == old(
            c,
        ).total_supply as int + staked_total(old(c).seats@),
        final(c).blackjack_stats == (BlackjackStats {
            total_tokens_burned_betting: (old(c).blackjack_stats.total_tokens_burned_betting
                - staked_total(old(c).seats@)) as u128,
            ..old(c).blackjack_stats
        }),
        final(c).game_state == GameState::WaitingForPlayers,
        final(c).current_player_seat is None,
        final(c).pending_bets@.len() == old(c).pending_bets@.len(),
        final(c).pending_moves@.len() == old(c).pending_moves@.len(),
        forall|j: int|
            0 <= j < final(c).pending_bets@.len() ==> (#[trigger] final(c).pending_bets@[j])@.len() == 0,
        forall|j: int|
            0 <= j < final(c).pending_moves@.len() ==> (#[trigger] final(c).pending_moves@[j])@.len() == 0,
        final(c).round_number == old(c).round_number,
        final(c).last_activity == now,
        same_counters(*old(c), *final(c)),
        same_token_config(*old(c), *final(c)),
        same_surroundings(*old(c), *final(c)),
{
    let _ = reason;
    c.current_player_seat = None;
    let ghost g0 = *c;
    let r0 = refund_seat(c, 0, now);
    let ghost g1 = *c;
    let r1 = refund_seat(c, 1, now);
    let ghost g2 = *c;
    let r2 = refund_seat(c, 2, now);
    proof {
        let f = |o: Option<SeatPlayer>| seat_stake(o);
        crate::model::lemma_sum_by_three(old(c).seats@, f);
        let g = |o: Option<SeatPlayer>|
            match o {
                Some(p) => if p.total_burned_this_round > 0 {
                    1int
                } else {
                    0int
                },
                None => 0int,
            };
        crate::model::lemma_sum_by_three(old(c).seats@, g);
        assert forall|id: Seq<char>| #[trigger]
            balance_of(c.accounts@, id) == balance_of(old(c).accounts@, id) + refund_for(
            old(c).seats@,
            id,
        ) by {
            assert(balance_of(g1.accounts@, id) == balance_of(g0.accounts@, id) + seat_refund(
                g0.seats@[0],
                id,
            ));
            assert(balance_of(g2.accounts@, id) == balance_of(g1.accounts@, id) + seat_refund(
                g1.seats@[1],
                id,
            ));
            assert(balance_of(c.accounts@, id) == balance_of(g2.accounts@, id) + seat_refund(
                g2.seats@[2],
                id,
            ));
            assert(g1.seats@[1] == old(c).seats@[1]);
            assert(g2.seats@[2] == old(c).seats@[2]);
        }
        lemma_sum_by_zero(c.seats@, f);
    }
    c.game_state = GameState::WaitingForPlayers;
    c.pending_bets.set(0, Vec::new());
    c.pending_bets.set(1, Vec::new());
    c.pending_bets.set(2, Vec::new());
    c.pending_moves.set(0, Vec::new());
    c.pending_moves.set(1, Vec::new());
    c.pending_moves.set(2, Vec::new());
    c.last_activity = now;
    let count: u8 = (if r0 {
        1u8
    } else {
        0u8
    }) + (if r1 {
        1u8
    } else {
        0u8
    }) + (if r2 {
        1u8
    } else {
        0u8
    });
    count
}

/// Whether a seat's occupant has been idle longer than `timeout_ms`.
pub open spec fn seat_idle(o: Option<SeatPlayer>, timeout_ms: u64, now: u64) -> bool {
    match o {
        Some(p) => now as int - p.last_action_time as int > timeout_ms as int * 1_000_000,
        None => false,
    }
}

/// How many seats hold a player idle longer than `timeout_ms`.
pub open spec fn idle_seats(seats: Seq<Option<SeatPlayer>>, timeout_ms: u64, now: u64) -> int {
    (if seat_idle(seats[0], timeout_ms, now) {
        1int
    } else {
        0int
    }) + (if seat_idle(seats[1], timeout_ms, now) {
        1int
    } else {
        0int
    }) + (if seat_idle(seats[2], timeout_ms, now) {
        1int
    } else {
        0int
    })
}

/// Whether the seat at `si` holds a player idle beyond `timeout_ms`.
fn seat_is_idle(c: &CardsContract, si: usize, timeout_ms: u64, now: u64) -> (r: bool)
    requires
        c.wf(),
        si < SEAT_COUNT,
    ensures
        r == seat_idle(c.seats@[si as int], timeout_ms, now),
{
    match &c.seats[si] {
        Some(p) => {
            if now <= p.last_action_time {
                return false;
            }
            (now - p.last_action_time) as u128 > timeout_ms as u128 * 1_000_000
        },
        None => false,
    }
}

/// Remove every player idle longer than `timeout_ms`, each departure
/// handled exactly as a leave (stake refunded in the refundable phases,
/// turn passed on, queues purged), sweeping from the highest seat down
/// so lower seats stay stable while it runs. Returns how many players
/// were removed.
#[verifier::rlimit(100)]
pub fn sweep_inactive_players(c: &mut CardsContract, timeout_ms: u64, now: u64) -> (r: u8)
    requires
        old(c).wf(),
    ensures
        final(c).wf(),
        r as int == idle_seats(old(c).seats@, timeout_ms, now),
        final(c).seats@.len() == old(c).seats@.len(),
        forall|j: int|
            0 <= j < old(c).seats@.len() ==> final(c).seats@[j] == (if seat_idle(
                old(c).seats@[j],
                timeout_ms,
                now,
            ) {
                None
            } else {
                old(c).seats@[j]
            }),
        r == 0 ==> *final(c) == *old(c),
        r > 0 ==> final(c).last_activity == now,
        !old(c).game_state.is_refund_phase() ==> final(c).total_supply == old(c).total_supply
            && final(c).accounts == old(c).accounts,
        old(c).game_state.is_refund_phase() ==> final(c).total_supply as int + staked_total(
            final(c).seats@,
        ) == old(c).total_supply as int + staked_total(old(c).seats@),
        final(c).round_number == old(c).round_number,
        same_counters(*old(c), *final(c)),
        same_token_config(*old(c), *final(c)),
        same_surroundings(*old(c), *final(c)),
{
    let mut removed: u8 = 0;
    let ghost g0 = *c;
    if seat_is_idle(c, 2, timeout_ms, now) {
        let id = match &c.seats[2] {
            Some(p) => p.account_id.clone(),
            None => {
                return unreached();
            },
        };
        proof {
            crate::player::lemma_seat_idx_is(c.seats@, id@, 2);
        }
        crate::player::leave_seat(c, &id, now);
        removed = removed + 1;
        proof {
            let f = |o: Option<SeatPlayer>| seat_stake(o);
            lemma_sum_by_update(g0.seats@, f, 2, None::<SeatPlayer>);
        }
    }
    let ghost g1 = *c;
    proof {
        assert(g1.seats@[1] == g0.seats@[1]);
        assert(g1.seats@[0] == g0.seats@[0]);
    }
    if seat_is_idle(c, 1, timeout_ms, now) {
        let id = match &c.seats[1] {
            Some(p) => p.account_id.clone(),
            None => {
                return unreached();
            },
        };
        proof {
            crate::player::lemma_seat_idx_is(c.seats@, id@, 1);
            assert(!crate::player::seats_all_empty(g1.seats@));
        }
        crate::player::leave_seat(c, &id, now);
        removed = removed + 1;
        proof {
            let f = |o: Option<SeatPlayer>| seat_stake(o);
            lemma_sum_by_update(g1.seats@, f, 1, None::<SeatPlayer>);
        }
    }
    let ghost g2 = *c;
    proof {
        assert(g2.seats@[0] == g0.seats@[0]);
        assert(g2.seats@[2] == g1.seats@[2]);
    }
    if seat_is_idle(c, 0, timeout_ms, now) {
        let id = match &c.seats[0] {
            Some(p) => p.account_id.clone(),
            None => {
                return unreached();
            },
        };
        proof {
            crate::player::lemma_seat_idx_is(c.seats@, id@, 0);
            assert(!crate::player::seats_all_empty(g2.seats@));
        }
        crate::player::leave_seat(c, &id, now);
        removed = removed + 1;
        proof {
            let f = |o: Option<SeatPlayer>| seat_stake(o);
            lemma_sum_by_update(g2.seats@, f, 0, None::<SeatPlayer>);
        }
    }
    removed
}

/// Detailed statistics for the admin: the ledger aggregates, the game
/// statistics, every chip staked on the current round and the backlog of
/// unprocessed signals.
pub struct AdminStats {
    pub contract_stats: ContractStats,
    pub blackjack_stats: BlackjackStats,
    pub total_active_bets: u128,
    pub total_pending_signals: u32,
    pub timestamp: u64,
}

/// The number of signals queued for the backend across all seats,
/// clamped to the counter's width.
pub open spec fn pending_signals(
    bets: Seq<Vec<crate::types::BetSignal>>,
    moves: Seq<Vec<crate::types::MoveSignal>>,
) -> int {
    bets[0]@.len() as int + bets[1]@.len() as int + bets[2]@.len() as int + moves[0]@.len() as int
        + moves[1]@.len() as int + moves[2]@.len() as int
}

/// Gather the admin's statistics view.
pub fn get_admin_stats(c: &CardsContract, now: u64) -> (r: AdminStats)
    requires
        c.wf(),
    ensures
        r.total_active_bets as int == staked_total(c.seats@),
        r.total_pending_signals as int == (if pending_signals(c.pending_bets@, c.pending_moves@)
            > u32::MAX as int {
            u32::MAX as int
        } else {
            pending_signals(c.pending_bets@, c.pending_moves@)
        }),
        r.timestamp == now,
        r.blackjack_stats == c.blackjack_stats,
        r.contract_stats.total_supply == c.total_supply,
        r.contract_stats.total_burned == c.total_cards_burned,
{
    proof {
        crate::model::lemma_sum_by_three(c.seats@, |o: Option<SeatPlayer>| seat_stake(o));
        lemma_sum_by_nonneg(c.seats@, |o: Option<SeatPlayer>| seat_stake(o));
        lemma_sum_by_bounds_elem(c.seats@, |o: Option<SeatPlayer>| seat_stake(o), 0);
        lemma_sum_by_bounds_elem(c.seats@, |o: Option<SeatPlayer>| seat_stake(o), 1);
        lemma_sum_by_bounds_elem(c.seats@, |o: Option<SeatPlayer>| seat_stake(o), 2);
    }
    let s0 = match &c.seats[0] {
        Some(p) => p.total_burned_this_round,
        None => 0,
    };
    let s1 = match &c.seats[1] {
        Some(p) => p.total_burned_this_round,
        None => 0,
    };
    let s2 = match &c.seats[2] {
        Some(p) => p.total_burned_this_round,
        None => 0,
    };
    let total_active_bets = s0 + s1 + s2;
    let pending: u128 = c.pending_bets[0].len() as u128 + c.pending_bets[1].len() as u128
        + c.pending_bets[2].len() as u128 + c.pending_moves[0].len() as u128
        + c.pending_moves[1].len() as u128 + c.pending_moves[2].len() as u128;
    let total_pending_signals: u32 = if pending > u32::MAX as u128 {
        u32::MAX
    } else {
        pending as u32
    };
    AdminStats {
        contract_stats: crate::tokens::get_contract_stats(c),
        blackjack_stats: c.blackjack_stats,
        total_active_bets,
        total_pending_signals,
        timestamp: now,
    }
}

/// Whether the 1-based seat holds an active, staked player with an
/// unfinished hand.
fn seat_is_playable_at(c: &CardsContract, seat: u8) -> (r: bool)
    requires
        c.wf(),
        1 <= seat <= SEAT_COUNT,
    ensures
        r == seat_playable(c.seats@, seat as int - 1),
{
    match &c.seats[(seat - 1) as usize] {
        Some(p) => {
            if !(p.state == PlayerState::Active && p.total_burned_this_round > 0) {
                return false;
            }
            let mut k: usize = 0;
            while k < p.hands.len()
                invariant
                    c.wf(),
                    1 <= seat <= SEAT_COUNT,
                    c.seats@[seat as int - 1] == Some(*p),
                    p.state == PlayerState::Active && p.total_burned_this_round > 0,
                    k <= p.hands@.len(),
                    forall|j: int| 0 <= j < k ==> (#[trigger] p.hands@[j]).is_finished,
                decreases p.hands@.len() - k,
            {
                if !p.hands[k].is_finished {
                    proof {
                        assert(0 <= (k as int) < p.hands@.len() && !p.hands@[k as int].is_finished);
                        assert(exists|j: int|
                            0 <= j < p.hands@.len() && !(#[trigger] p.hands@[j]).is_finished);
                        assert(c.seats@[seat as int - 1] == Some(*p));
                    }
                    return true;
                }
                k = k + 1;
            }
            false
        },
        None => false,
    }
}

} // verus!
