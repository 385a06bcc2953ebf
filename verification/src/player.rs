//! Seat membership: taking and leaving seats, finding players, and the
//! turn-order search.

use vstd::prelude::*;

use crate::contract::{
    same_counters, same_surroundings, same_token_config, seat_stake, staked_total, CardsContract,
    SEAT_COUNT,
};
use crate::model::{lemma_sum_by_bounds_elem, lemma_sum_by_nonneg, lemma_sum_by_update};
use crate::storage::{player_storage_cost, user_storage_cost};
use crate::tokens::{
    account_idx, account_of, balance_of, deposit_of, has_account, lemma_account_idx_is,
    AccountRecord, UserAccount,
};
use crate::types::{
    BetSignal, BurnRecord, GameState, MoveSignal, PlayerHand, PlayerState, PlayerView, SeatPlayer,
};

verus! {

/// Whether `id` occupies some seat.
pub open spec fn is_seated(seats: Seq<Option<SeatPlayer>>, id: Seq<char>) -> bool {
    exists|i: int|
        0 <= i < seats.len() && match #[trigger] seats[i] {
            Some(p) => p.account_id@ == id,
            None => false,
        }
}

/// The seat position (0-based) `id` occupies.
pub open spec fn seat_idx_of(seats: Seq<Option<SeatPlayer>>, id: Seq<char>) -> int {
    choose|i: int|
        0 <= i < seats.len() && match #[trigger] seats[i] {
            Some(p) => p.account_id@ == id,
            None => false,
        }
}

/// The occupant of the seat `id` holds.
pub open spec fn seated_player(seats: Seq<Option<SeatPlayer>>, id: Seq<char>) -> SeatPlayer {
    seats[seat_idx_of(seats, id)]->Some_0
}

/// With no identity seated twice, any seat holding `id` is the one
/// `seat_idx_of` picks.
pub proof fn lemma_seat_idx_is(seats: Seq<Option<SeatPlayer>>, id: Seq<char>, i: int)
    requires
        forall|a: int, b: int|
            #![trigger seats[a], seats[b]]
            0 <= a < seats.len() && 0 <= b < seats.len() && a != b ==> match (seats[a], seats[b]) {
                (Some(p), Some(q)) => p.account_id@ != q.account_id@,
                _ => true,
            },
        0 <= i < seats.len(),
        seats[i] matches Some(p) && p.account_id@ == id,
    ensures
        is_seated(seats, id),
        seat_idx_of(seats, id) == i,
{
    assert(is_seated(seats, id));
    let j = seat_idx_of(seats, id);
    assert(0 <= j < seats.len() && match seats[j] {
        Some(p) => p.account_id@ == id,
        None => false,
    });
}

/// Whether the seat at position `i` (0-based) holds an active player
/// with a nonzero stake.
pub open spec fn seat_eligible(seats: Seq<Option<SeatPlayer>>, i: int) -> bool {
    0 <= i < seats.len() && match seats[i] {
        Some(p) => p.state == PlayerState::Active && p.total_burned_this_round > 0,
        None => false,
    }
}

/// The turn-order search: scan seats cyclically starting just after
/// `start_seat` (1-based); the first active seat with a nonzero stake
/// wins, the start seat itself being checked last.
pub open spec fn next_active_from(seats: Seq<Option<SeatPlayer>>, start_seat: int) -> Option<u8> {
    let s1 = (start_seat % 3) + 1;
    let s2 = ((start_seat + 1) % 3) + 1;
    let s3 = ((start_seat + 2) % 3) + 1;
    if seat_eligible(seats, s1 - 1) {
        Some(s1 as u8)
    } else if seat_eligible(seats, s2 - 1) {
        Some(s2 as u8)
    } else if seat_eligible(seats, s3 - 1) {
        Some(s3 as u8)
    } else {
        None
    }
}

/// The turn-order search, with the start seat itself excluded; what the
/// turn pointer becomes when the player at `start_seat` departs.
pub open spec fn next_excluding(seats: Seq<Option<SeatPlayer>>, start_seat: int) -> Option<u8> {
    match next_active_from(seats, start_seat) {
        Some(x) => if x as int == start_seat {
            None
        } else {
            Some(x)
        },
        None => None,
    }
}

/// Queue list `b` is `a` with the queue at `i` emptied.
pub open spec fn bet_queues_cleared_at(
    a: Seq<Vec<BetSignal>>,
    b: Seq<Vec<BetSignal>>,
    i: int,
) -> bool {
    &&& b.len() == a.len()
    &&& b[i]@.len() == 0
    &&& forall|j: int| 0 <= j < a.len() && j != i ==> a[j] == b[j]
}

/// Queue list `b` is `a` with the queue at `i` emptied.
pub open spec fn move_queues_cleared_at(
    a: Seq<Vec<MoveSignal>>,
    b: Seq<Vec<MoveSignal>>,
    i: int,
) -> bool {
    &&& b.len() == a.len()
    &&& b[i]@.len() == 0
    &&& forall|j: int| 0 <= j < a.len() && j != i ==> a[j] == b[j]
}

/// `a` and `b` hold the same player, compared field by field with the
/// hand and burn histories compared as sequences.
pub open spec fn same_player(a: SeatPlayer, b: SeatPlayer) -> bool {
    &&& a.account_id == b.account_id
    &&& a.seat_number == b.seat_number
    &&& a.state == b.state
    &&& a.current_hand_index == b.current_hand_index
    &&& a.hands@ == b.hands@
    &&& a.total_burned_this_round == b.total_burned_this_round
    &&& a.burns_tracking@ == b.burns_tracking@
    &&& a.joined_at == b.joined_at
    &&& a.last_action_time == b.last_action_time
    &&& a.rounds_played == b.rounds_played
}

/// An element-wise copy of a hand list.
pub fn clone_hands(v: &Vec<PlayerHand>) -> (r: Vec<PlayerHand>)
    ensures
        r@ == v@,
{
    let mut r: Vec<PlayerHand> = Vec::new();
    let mut k: usize = 0;
    while k < v.len()
        invariant
            k <= v@.len(),
            r@ == v@.take(k as int),
        decreases v@.len() - k,
    {
        r.push(v[k]);
        proof {
            assert(v@.take(k as int + 1) =~= v@.take(k as int).push(v@[k as int]));
        }
        k = k + 1;
    }
    proof {
        assert(v@.take(v@.len() as int) =~= v@);
    }
    r
}

/// An element-wise copy of a burn history.
pub fn clone_burns(v: &Vec<BurnRecord>) -> (r: Vec<BurnRecord>)
    ensures
        r@ == v@,
{
    let mut r: Vec<BurnRecord> = Vec::new();
    let mut k: usize = 0;
    while k < v.len()
        invariant
            k <= v@.len(),
            r@ == v@.take(k as int),
        decreases v@.len() - k,
    {
        r.push(v[k]);
        proof {
            assert(v@.take(k as int + 1) =~= v@.take(k as int).push(v@[k as int]));
        }
        k = k + 1;
    }
    proof {
        assert(v@.take(v@.len() as int) =~= v@);
    }
    r
}

impl SeatPlayer {
    /// A field-by-field copy.
    pub fn duplicate(&self) -> (r: SeatPlayer)
        ensures
            same_player(r, *self),
    {
        SeatPlayer {
            account_id: self.account_id.clone(),
            seat_number: self.seat_number,
            state: self.state,
            current_hand_index: self.current_hand_index,
            hands: clone_hands(&self.hands),
            total_burned_this_round: self.total_burned_this_round,
            burns_tracking: clone_burns(&self.burns_tracking),
            joined_at: self.joined_at,
            last_action_time: self.last_action_time,
            rounds_played: self.rounds_played,
        }
    }
}

/// The seat number (1-based) `player_account` occupies, if any.
pub fn is_player_seated(c: &CardsContract, player_account: &String) -> (r: Option<u8>)
    requires
        c.wf(),
    ensures
        match r {
            Some(s) => 1 <= s <= SEAT_COUNT && is_seated(c.seats@, player_account@) && seat_idx_of(
                c.seats@,
                player_account@,
            ) == s - 1,
            None => !is_seated(c.seats@, player_account@),
        },
{
    let mut k: usize = 0;
    while k < c.seats.len()
        invariant
            c.wf(),
            k <= c.seats@.len(),
            forall|j: int|
                0 <= j < k ==> match #[trigger] c.seats@[j] {
                    Some(p) => p.account_id@ != player_account@,
                    None => true,
                },
        decreases c.seats@.len() - k,
    {
        match &c.seats[k] {
            Some(p) => {
                if p.account_id == *player_account {
                    proof {
                        lemma_seat_idx_is(c.seats@, player_account@, k as int);
                    }
                    return Some((k + 1) as u8);
                }
            },
            None => {},
        }
        k = k + 1;
    }
    None
}

/// A copy of the player at `seat_number`, if occupied.
pub fn get_player_at_seat(c: &CardsContract, seat_number: u8) -> (r: Option<SeatPlayer>)
    requires
        c.wf(),
    ensures
        match r {
            Some(p) => 1 <= seat_number <= SEAT_COUNT && (c.seats@[seat_number - 1] matches Some(q)
                && same_player(p, q)),
            None => !(1 <= seat_number <= SEAT_COUNT) || c.seats@[seat_number - 1] is None,
        },
{
    if seat_number < 1 || seat_number > 3 {
        return None;
    }
    match &c.seats[(seat_number - 1) as usize] {
        Some(p) => Some(p.duplicate()),
        None => None,
    }
}

/// How many seats hold a player in the `Active` state.
pub open spec fn active_count(seats: Seq<Option<SeatPlayer>>) -> int {
    crate::model::sum_by(
        seats,
        |o: Option<SeatPlayer>|
            match o {
                Some(p) => if p.state == PlayerState::Active {
                    1int
                } else {
                    0int
                },
                None => 0int,
            },
    )
}

/// Count the seats holding an `Active` player.
pub fn count_active_players(c: &CardsContract) -> (r: u8)
    requires
        c.wf(),
    ensures
        r as int == active_count(c.seats@),
{
    let mut count: u8 = 0;
    let mut k: usize = 0;
    proof {
        assert(c.seats@.take(0) =~= Seq::<Option<SeatPlayer>>::empty());
    }
    while k < c.seats.len()
        invariant
            c.wf(),
            k <= c.seats@.len(),
            count as int == active_count(c.seats@.take(k as int)),
            count <= k,
        decreases c.seats@.len() - k,
    {
        proof {
            assert(c.seats@.take(k as int + 1) =~= c.seats@.take(k as int).push(
                c.seats@[k as int],
            ));
            crate::model::lemma_sum_by_push(
                c.seats@.take(k as int),
                |o: Option<SeatPlayer>|
                    match o {
                        Some(p) => if p.state == PlayerState::Active {
                            1int
                        } else {
                            0int
                        },
                        None => 0int,
                    },
                c.seats@[k as int],
            );
        }
        let is_active = match &c.seats[k] {
            Some(p) => p.state == PlayerState::Active,
            None => false,
        };
        if is_active {
            count = count + 1;
        }
        k = k + 1;
    }
    proof {
        assert(c.seats@.take(c.seats@.len() as int) =~= c.seats@);
    }
    count
}

/// The turn-order search as an operation: the first active, staked seat
/// after `start_seat` in cyclic order.
pub fn find_next_active_player(c: &CardsContract, start_seat: u8) -> (r: Option<u8>)
    requires
        c.wf(),
        1 <= start_seat <= SEAT_COUNT,
    ensures
        r == next_active_from(c.seats@, start_seat as int),
{
    let s1 = (start_seat % 3) + 1;
    let s2 = ((start_seat + 1) % 3) + 1;
    let s3 = ((start_seat + 2) % 3) + 1;
    if seat_is_eligible(c, s1) {
        Some(s1)
    } else if seat_is_eligible(c, s2) {
        Some(s2)
    } else if seat_is_eligible(c, s3) {
        Some(s3)
    } else {
        None
    }
}

/// The state a joining player starts in, derived from the phase: during
/// waiting and betting the player is active at once; after a finished
/// round they wait for the next; mid-round they observe.
pub open spec fn joined_state(g: GameState) -> PlayerState {
    if g == GameState::WaitingForPlayers || g == GameState::Betting {
        PlayerState::Active
    } else if g == GameState::RoundEnded {
        PlayerState::WaitingForNextRound
    } else {
        PlayerState::Observing
    }
}

/// The inputs on which a join succeeds: a valid, free seat, a caller
/// not already seated whose deposit covers both stored records, and a
/// join counter with headroom.
pub open spec fn join_ok(c: CardsContract, caller: Seq<char>, seat_number: u8) -> bool {
    &&& 1 <= seat_number <= SEAT_COUNT
    &&& c.seats@[seat_number - 1] is None
    &&& !is_seated(c.seats@, caller)
    &&& deposit_of(c.storage_deposits@, caller) >= user_storage_cost(caller.len() as int)
        + player_storage_cost(caller.len() as int)
    &&& c.blackjack_stats.total_players_joined < u64::MAX
}

/// Everything a successful call changes, relating the state before to
/// the state after.
pub open spec fn join_effect(pre: CardsContract, post: CardsContract, caller: String, seat_number: u8, now: u64) -> bool {
    {

            let s = seat_number - 1;
            &&& post.seats@.len() == pre.seats@.len()
            &&& (post.seats@[s] matches Some(p) && p.account_id == caller && p.seat_number
                == seat_number && p.state == joined_state(pre.game_state) && p.round_cleared()
                && p.joined_at == now && p.last_action_time == now && p.rounds_played == 0)
            &&& forall|j: int|
                0 <= j < pre.seats@.len() && j != s ==> post.seats@[j] == pre.seats@[j]
            &&& post.blackjack_stats == (crate::contract::BlackjackStats {
                total_players_joined: (pre.blackjack_stats.total_players_joined + 1) as u64,
                ..pre.blackjack_stats
            })
            &&& post.last_activity == now
            &&& post.pending_bets == pre.pending_bets
            &&& post.pending_moves == pre.pending_moves
            &&& post.game_state == pre.game_state
            &&& post.round_number == pre.round_number
            &&& post.current_player_seat == pre.current_player_seat
            &&& post.accounts == pre.accounts
            &&& post.total_supply == pre.total_supply
            &&& same_counters(pre, post)
            &&& same_token_config(pre, post)
            &&& same_surroundings(pre, post)
    }
}

/// Seat the caller at `seat_number`. Fails softly (returns false, no
/// state change) when the seat is invalid or occupied, the caller is
/// already seated, or the storage deposit does not cover play.
pub fn take_seat(c: &mut CardsContract, caller: &String, seat_number: u8, now: u64) -> (r: bool)
    requires
        old(c).wf(),
        caller@.len() <= 1_000_000_000,
    ensures
        final(c).wf(),
        r == join_ok(*old(c), caller@, seat_number),
        !r ==> *final(c) == *old(c),
        r ==> join_effect(*old(c), *final(c), *caller, seat_number, now),
{
    if seat_number < 1 || seat_number > 3 {
        return false;
    }
    let si = (seat_number - 1) as usize;
    if c.seats[si].is_some() {
        return false;
    }
    if is_player_seated(c, caller).is_some() {
        return false;
    }
    let deposit = match c.deposit_index(caller) {
        Some(j) => {
            proof {
                crate::tokens::lemma_deposit_idx_is(c.storage_deposits@, caller@, j as int);
            }
            c.storage_deposits[j].amount
        },
        None => 0,
    };
    if !crate::storage::has_sufficient_blackjack_storage(deposit, caller) {
        return false;
    }
    if c.blackjack_stats.total_players_joined == u64::MAX {
        return false;
    }
    let state = if c.game_state == GameState::WaitingForPlayers || c.game_state
        == GameState::Betting {
        PlayerState::Active
    } else if c.game_state == GameState::RoundEnded {
        PlayerState::WaitingForNextRound
    } else {
        PlayerState::Observing
    };
    let player = SeatPlayer {
        account_id: caller.clone(),
        seat_number,
        state,
        current_hand_index: 1,
        hands: Vec::new(),
        total_burned_this_round: 0,
        burns_tracking: Vec::new(),
        joined_at: now,
        last_action_time: now,
        rounds_played: 0,
    };
    proof {
        lemma_sum_by_update(
            c.seats@,
            |o: Option<SeatPlayer>| seat_stake(o),
            si as int,
            Some(player),
        );
        assert(player.hands@ =~= Seq::<PlayerHand>::empty());
        assert(player.burns_tracking@ =~= Seq::<BurnRecord>::empty());
    }
    c.seats.set(si, Some(player));
    c.blackjack_stats.total_players_joined = c.blackjack_stats.total_players_joined + 1;
    c.last_activity = now;
    true
}

/// Whether a departing player's stake is handed back: only while the
/// round has not gone beyond betting.
pub open spec fn leave_refund(c: CardsContract, p: SeatPlayer) -> bool {
    p.total_burned_this_round > 0 && c.game_state.is_refund_phase()
}

/// No seat holds a player.
pub open spec fn seats_all_empty(seats: Seq<Option<SeatPlayer>>) -> bool {
    forall|j: int| 0 <= j < seats.len() ==> (#[trigger] seats[j]) is None
}

/// Everything a successful call changes, relating the state before to
/// the state after.
pub open spec fn leave_effect(pre: CardsContract, post: CardsContract, caller: String, now: u64) -> bool {
    {

            let s = seat_idx_of(pre.seats@, caller@);
            let p = pre.seats@[s]->Some_0;
            let refunded = leave_refund(pre, p);
            &&& post.seats@ == pre.seats@.update(s, None::<SeatPlayer>)
            &&& post.pending_bets@.len() == pre.pending_bets@.len()
            &&& post.pending_moves@.len() == pre.pending_moves@.len()
            &&& (!seats_all_empty(post.seats@) ==> bet_queues_cleared_at(
                pre.pending_bets@,
                post.pending_bets@,
                s,
            ) && move_queues_cleared_at(pre.pending_moves@, post.pending_moves@, s))
            &&& (seats_all_empty(post.seats@) ==> {
                &&& post.game_state == GameState::WaitingForPlayers
                &&& forall|j: int|
                    0 <= j < post.pending_bets@.len() ==> (#[trigger] post.pending_bets@[j])@.len() == 0
                &&& forall|j: int|
                    0 <= j < post.pending_moves@.len() ==> (#[trigger] post.pending_moves@[j])@.len() == 0
            })
            &&& post.current_player_seat == (if pre.current_player_seat == Some(
                (s + 1) as u8,
            ) {
                next_excluding(pre.seats@, s + 1)
            } else {
                pre.current_player_seat
            })
            &&& post.last_activity == now
            &&& (!seats_all_empty(post.seats@) ==> post.game_state == pre.game_state)
            &&& post.round_number == pre.round_number
            &&& (refunded ==> {
                &&& balance_of(post.accounts@, caller@) == balance_of(
                    pre.accounts@,
                    caller@,
                ) + p.total_burned_this_round
                &&& forall|id: Seq<char>|
                    id != caller@ ==> #[trigger] balance_of(post.accounts@, id) == balance_of(
                        pre.accounts@,
                        id,
                    )
                &&& post.total_supply == pre.total_supply + p.total_burned_this_round
                &&& post.blackjack_stats == (crate::contract::BlackjackStats {
                    total_tokens_burned_betting: (pre.blackjack_stats.total_tokens_burned_betting
                        - p.total_burned_this_round) as u128,
                    ..pre.blackjack_stats
                })
                &&& post.total_supply as int + staked_total(post.seats@) == pre.total_supply as int + staked_total(pre.seats@)
            })
            &&& (!refunded ==> {
                &&& post.accounts == pre.accounts
                &&& post.total_supply == pre.total_supply
                &&& post.blackjack_stats == pre.blackjack_stats
            })
            &&& same_counters(pre, post)
            &&& same_token_config(pre, post)
            &&& same_surroundings(pre, post)
    }
}

/// Vacate the caller's seat. A stake committed during a refundable
/// phase is credited back and taken out of the betting-burn statistic;
/// the turn passes on when the departing player held it; the seat's
/// signal queues are purged. A departure that empties the table resets
/// it to the waiting phase with every queue purged.
#[verifier::rlimit(100)]
pub fn leave_seat(c: &mut CardsContract, caller: &String, now: u64) -> (r: bool)
    requires
        old(c).wf(),
    ensures
        final(c).wf(),
        r == is_seated(old(c).seats@, caller@),
        !r ==> *final(c) == *old(c),
        r ==> leave_effect(*old(c), *final(c), *caller, now),
{
    let s_num = match is_player_seated(c, caller) {
        Some(s) => s,
        None => {
            return false;
        },
    };
    let si = (s_num - 1) as usize;
    let stake = match &c.seats[si] {
        Some(p) => p.total_burned_this_round,
        None => {
            return unreached();
        },
    };
    let refund_phase = c.game_state == GameState::Betting || c.game_state
        == GameState::WaitingForPlayers;
    let next = find_next_active_player(c, s_num);
    let next_adj = match next {
        Some(x) => if x == s_num {
            None
        } else {
            Some(x)
        },
        None => None,
    };
    let is_current = match c.current_player_seat {
        Some(t) => t == s_num,
        None => false,
    };
    if is_current {
        c.current_player_seat = next_adj;
    }
    proof {
        lemma_sum_by_update(
            c.seats@,
            |o: Option<SeatPlayer>| seat_stake(o),
            si as int,
            None::<SeatPlayer>,
        );
        lemma_sum_by_bounds_elem(c.seats@, |o: Option<SeatPlayer>| seat_stake(o), si as int);
        lemma_sum_by_nonneg(c.seats@, |o: Option<SeatPlayer>| seat_stake(o));
    }
    c.seats.set(si, None);
    c.pending_bets.set(si, Vec::new());
    c.pending_moves.set(si, Vec::new());
    let emptied = c.seats[0].is_none() && c.seats[1].is_none() && c.seats[2].is_none();
    if emptied {
        c.game_state = GameState::WaitingForPlayers;
        c.pending_bets.set(0, Vec::new());
        c.pending_bets.set(1, Vec::new());
        c.pending_bets.set(2, Vec::new());
        c.pending_moves.set(0, Vec::new());
        c.pending_moves.set(1, Vec::new());
        c.pending_moves.set(2, Vec::new());
    }
    if stake > 0 && refund_phase {
        let i = match c.account_index(caller) {
            Some(i) => i,
            None => {
                return unreached();
            },
        };
        proof {
            lemma_account_idx_is(c.accounts@, caller@, i as int);
            lemma_sum_by_nonneg(c.seats@, |o: Option<SeatPlayer>| seat_stake(o));
            lemma_sum_by_bounds_elem(
                c.accounts@,
                |r: AccountRecord| r.data.balance as int,
                i as int,
            );
        }
        let ghost pre_credit = *c;
        crate::tokens::credit_at(c, i, stake);
        proof {
            lemma_account_idx_is(c.accounts@, caller@, i as int);
            assert forall|id: Seq<char>|
                id != caller@ implies #[trigger] balance_of(c.accounts@, id) == balance_of(
                pre_credit.accounts@,
                id,
            ) by {
                crate::tokens::lemma_balance_of_other(
                    pre_credit.accounts@,
                    c.accounts@,
                    caller@,
                    id,
                    i as int,
                );
            }
        }
        proof {
            assert(pre_credit.accounts@ == old(c).accounts@);
            assert(account_idx(pre_credit.accounts@, caller@) == i as int);
            assert(balance_of(pre_credit.accounts@, caller@) == pre_credit.accounts@[
                i as int
            ].data.balance as int);
            assert(c.accounts@[i as int].data.balance as int == pre_credit.accounts@[
                i as int
            ].data.balance as int + stake as int);
            assert(account_idx(c.accounts@, caller@) == i as int);
            assert(balance_of(c.accounts@, caller@) == balance_of(pre_credit.accounts@, caller@)
                + stake as int);
        }
        c.blackjack_stats.total_tokens_burned_betting = c.blackjack_stats.total_tokens_burned_betting
            - stake;
    }
    c.last_activity = now;
    true
}

/// Whether the 1-based seat holds an active player with a stake.
fn seat_is_eligible(c: &CardsContract, seat: u8) -> (r: bool)
    requires
        c.wf(),
        1 <= seat <= SEAT_COUNT,
    ensures
        r == seat_eligible(c.seats@, seat as int - 1),
{
    match &c.seats[(seat - 1) as usize] {
        Some(p) => p.state == PlayerState::Active && p.total_burned_this_round > 0,
        None => false,
    }
}

} // verus!
