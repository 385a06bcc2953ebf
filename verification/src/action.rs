//! The betting and move engine: players signal bets and moves, chips
//! burn atomically with the signal, and the backend's settlement batch
//! mints the winnings and resets the round.

use vstd::prelude::*;

use crate::contract::{
    same_counters, same_surroundings, same_token_config, seat_stake, staked_total, CardsContract,
    SEAT_COUNT,
};
use crate::model::{
    lemma_sum_by_bounds_elem, lemma_sum_by_nonneg, lemma_sum_by_push, lemma_sum_by_update,
};
use crate::player::{is_seated, seat_idx_of, seated_player};
use crate::tokens::{
    account_idx, account_of, balance_of, has_account, lemma_account_idx_is, AccountRecord,
    UserAccount,
};
use crate::types::{
    burns_total, hands_total, BetSignal, BurnRecord, BurnType, GameState, MoveSignal, PlayerHand,
    PlayerMove, PlayerState, PlayerWinning, SeatPlayer, WinningsDistribution,
};

verus! {

/// Whether `amount` is one of the configured stake denominations.
pub fn amount_is_valid(v: &Vec<u128>, amount: u128) -> (r: bool)
    ensures
        r == v@.contains(amount),
{
    let mut k: usize = 0;
    while k < v.len()
        invariant
            k <= v@.len(),
            forall|j: int| 0 <= j < k ==> v@[j] != amount,
        decreases v@.len() - k,
    {
        if v[k] == amount {
            return true;
        }
        k = k + 1;
    }
    false
}

/// Queue list `b` is `a` with `sig` appended to the queue at `i`.
pub open spec fn bet_queue_pushed(
    a: Seq<Vec<BetSignal>>,
    b: Seq<Vec<BetSignal>>,
    i: int,
    sig: BetSignal,
) -> bool {
    &&& b.len() == a.len()
    &&& b[i]@ == a[i]@.push(sig)
    &&& forall|j: int| 0 <= j < a.len() && j != i ==> a[j] == b[j]
}

/// Queue list `b` is `a` with `sig` appended to the queue at `i`.
pub open spec fn move_queue_pushed(
    a: Seq<Vec<MoveSignal>>,
    b: Seq<Vec<MoveSignal>>,
    i: int,
    sig: MoveSignal,
) -> bool {
    &&& b.len() == a.len()
    &&& b[i]@ == a[i]@.push(sig)
    &&& forall|j: int| 0 <= j < a.len() && j != i ==> a[j] == b[j]
}

/// The inputs on which a bet succeeds: a configured denomination, a
/// registered, seated, active caller with enough balance who has not
/// staked this round, a table in the betting phase, and burn counters
/// with headroom.
pub open spec fn bet_ok(c: CardsContract, caller: Seq<char>, amount: u128) -> bool {
    &&& c.config.valid_burn_amounts@.contains(amount)
    &&& has_account(c.accounts@, caller)
    &&& account_of(c.accounts@, caller).balance >= amount
    &&& is_seated(c.seats@, caller)
    &&& c.game_state == GameState::Betting
    &&& seated_player(c.seats@, caller).state == PlayerState::Active
    &&& seated_player(c.seats@, caller).total_burned_this_round == 0
    &&& account_of(c.accounts@, caller).total_burned as int + amount as int <= u128::MAX as int
    &&& c.total_cards_burned as int + amount as int <= u128::MAX as int
    &&& c.blackjack_stats.total_tokens_burned_betting as int + amount as int <= u128::MAX as int
}

/// Everything a successful call changes, relating the state before to
/// the state after.
pub open spec fn bet_effect(pre: CardsContract, post: CardsContract, caller: String, amount: u128, now: u64) -> bool {
    {

            let s = seat_idx_of(pre.seats@, caller@);
            let q = pre.seats@[s]->Some_0;
            &&& post.seats@.len() == pre.seats@.len()
            &&& (post.seats@[s] matches Some(p) && {
                &&& p.account_id == q.account_id
                &&& p.seat_number == q.seat_number
                &&& p.state == q.state
                &&& p.current_hand_index == 1
                &&& p.hands@ =~= seq![PlayerHand::spec_new(1, amount)]
                &&& p.total_burned_this_round == amount
                &&& p.burns_tracking@ =~= seq![
                    (BurnRecord {
                        burn_type: BurnType::Bet,
                        amount,
                        hand_index: 1,
                        timestamp: now,
                    }),
                ]
                &&& p.last_action_time == now
                &&& p.joined_at == q.joined_at
                &&& p.rounds_played == q.rounds_played
            })
            &&& forall|j: int|
                0 <= j < pre.seats@.len() && j != s ==> post.seats@[j] == pre.seats@[j]
            &&& bet_queue_pushed(
                pre.pending_bets@,
                post.pending_bets@,
                s,
                (BetSignal {
                    player_account: caller,
                    seat_number: (s + 1) as u8,
                    amount,
                    burn_type: BurnType::Bet,
                    hand_index: 1,
                    timestamp: now,
                }),
            )
            &&& post.pending_moves == pre.pending_moves
            &&& post.accounts@ == pre.accounts@.update(
                account_idx(pre.accounts@, caller@),
                (AccountRecord {
                    account_id: pre.accounts@[account_idx(pre.accounts@, caller@)].account_id,
                    data: (UserAccount {
                        balance: (account_of(pre.accounts@, caller@).balance - amount) as u128,
                        total_burned: (account_of(pre.accounts@, caller@).total_burned
                            + amount) as u128,
                        ..account_of(pre.accounts@, caller@)
                    }),
                }),
            )
            &&& balance_of(post.accounts@, caller@) == balance_of(pre.accounts@, caller@)
                - amount
            &&& forall|id: Seq<char>|
                id != caller@ ==> #[trigger] balance_of(post.accounts@, id) == balance_of(
                    pre.accounts@,
                    id,
                )
            &&& post.total_supply == pre.total_supply - amount
            &&& post.total_cards_burned == pre.total_cards_burned + amount
            &&& post.blackjack_stats == (crate::contract::BlackjackStats {
                total_tokens_burned_betting: (pre.blackjack_stats.total_tokens_burned_betting
                    + amount) as u128,
                ..pre.blackjack_stats
            })
            &&& post.total_supply as int + staked_total(post.seats@) == pre.total_supply as int + staked_total(pre.seats@)
            &&& post.game_state == pre.game_state
            &&& post.round_number == pre.round_number
            &&& post.current_player_seat == pre.current_player_seat
            &&& post.last_activity == now
            &&& post.total_cards_claimed == pre.total_cards_claimed
            &&& post.total_cards_purchased == pre.total_cards_purchased
            &&& same_token_config(pre, post)
            &&& same_surroundings(pre, post)
    }
}

/// Place the round's bet: burn `amount` from the caller's balance, deal
/// the caller a first hand staked with it, and append a funded bet
/// signal for the backend — the burn always lands before the signal, so
/// a reader never sees an unfunded bet. Fails softly (returns false, no
/// state change) on every violated precondition.
#[verifier::rlimit(100)]
pub fn place_bet(c: &mut CardsContract, caller: &String, amount: u128, now: u64) -> (r: bool)
    requires
        old(c).wf(),
    ensures
        final(c).wf(),
        r == bet_ok(*old(c), caller@, amount),
        !r ==> *final(c) == *old(c),
        r ==> bet_effect(*old(c), *final(c), *caller, amount, now),
{
    if !amount_is_valid(&c.config.valid_burn_amounts, amount) {
        return false;
    }
    let i = match c.account_index(caller) {
        Some(i) => i,
        None => {
            return false;
        },
    };
    proof {
        lemma_account_idx_is(c.accounts@, caller@, i as int);
    }
    if c.accounts[i].data.balance < amount {
        return false;
    }
    let s_num = match crate::player::is_player_seated(c, caller) {
        Some(s) => s,
        None => {
            return false;
        },
    };
    let si = (s_num - 1) as usize;
    if c.game_state != GameState::Betting {
        return false;
    }
    let (p_state, p_total) = match &c.seats[si] {
        Some(p) => (p.state, p.total_burned_this_round),
        None => {
            return unreached();
        },
    };
    if p_state != PlayerState::Active {
        return false;
    }
    if p_total != 0 {
        return false;
    }
    if c.accounts[i].data.total_burned > u128::MAX - amount {
        return false;
    }
    if c.total_cards_burned > u128::MAX - amount {
        return false;
    }
    if c.blackjack_stats.total_tokens_burned_betting > u128::MAX - amount {
        return false;
    }
    // Burn first: the signal appended below must never precede its funds.
    crate::tokens::burn_for_player(c, i, amount);
    proof {
        lemma_account_idx_is(c.accounts@, caller@, i as int);
        assert forall|id: Seq<char>|
            id != caller@ implies #[trigger] balance_of(c.accounts@, id) == balance_of(
            old(c).accounts@,
            id,
        ) by {
            crate::tokens::lemma_balance_of_other(
                old(c).accounts@,
                c.accounts@,
                caller@,
                id,
                i as int,
            );
        }
    }
    let mut slot: Option<SeatPlayer> = None;
    c.seats.set_and_swap(si, &mut slot);
    match slot {
        Some(mut p) => {
            let mut hands: Vec<PlayerHand> = Vec::new();
            hands.push(PlayerHand::new(1, amount));
            p.hands = hands;
            p.current_hand_index = 1;
            p.total_burned_this_round = amount;
            let mut burns: Vec<BurnRecord> = Vec::new();
            burns.push(
                BurnRecord { burn_type: BurnType::Bet, amount, hand_index: 1, timestamp: now },
            );
            p.burns_tracking = burns;
            p.last_action_time = now;
            proof {
                let f = |o: Option<SeatPlayer>| seat_stake(o);
                lemma_sum_by_update(c.seats@, f, si as int, Some(p));
                lemma_sum_by_update(old(c).seats@, f, si as int, None::<SeatPlayer>);
                assert(c.seats@ =~= old(c).seats@.update(si as int, None::<SeatPlayer>));
                assert(p.hands@ =~= seq![PlayerHand::spec_new(1, amount)]);
                assert(hands_total(p.hands@) == amount as int) by {
                    assert(p.hands@[0] == PlayerHand::spec_new(1, amount));
                    crate::model::lemma_sum_by_zero(
                        p.hands@.drop_first(),
                        |h: PlayerHand| h.bet_amount as int,
                    );
                }
                assert(burns_total(p.burns_tracking@) == amount as int) by {
                    crate::model::lemma_sum_by_zero(
                        p.burns_tracking@.drop_first(),
                        |b: BurnRecord| b.amount as int,
                    );
                }
            }
            c.seats.set(si, Some(p));
        },
        None => {
            return unreached();
        },
    }
    let mut queue: Vec<BetSignal> = Vec::new();
    c.pending_bets.set_and_swap(si, &mut queue);
    queue.push(
        BetSignal {
            player_account: caller.clone(),
            seat_number: s_num,
            amount,
            burn_type: BurnType::Bet,
            hand_index: 1,
            timestamp: now,
        },
    );
    c.pending_bets.set(si, queue);
    c.last_activity = now;
    true
}

/// `h` finished by standing: no further hit, stake unchanged.
pub open spec fn hand_after_stand(h: PlayerHand) -> PlayerHand {
    PlayerHand { is_finished: true, can_hit: false, ..h }
}

/// `h` finished by doubling down: the stake doubles and the hand is
/// done.
pub open spec fn hand_after_double(h: PlayerHand) -> PlayerHand {
    PlayerHand {
        has_doubled: true,
        is_finished: true,
        can_hit: false,
        bet_amount: (h.bet_amount + h.bet_amount) as u128,
        ..h
    }
}

/// What a move burns: nothing for hit and stand, the hand's stake for
/// double and split.
pub open spec fn move_burn(q: SeatPlayer, mv: PlayerMove, hand_index: u8) -> int {
    match mv {
        PlayerMove::Hit => 0,
        PlayerMove::Stand => 0,
        PlayerMove::Double => q.hands@[hand_index - 1].bet_amount as int,
        PlayerMove::Split => q.hands@[0].bet_amount as int,
    }
}

/// The turn-ownership and hand-targeting conditions every move shares:
/// the caller is seated, holds the turn, and names their current,
/// existing, unfinished hand.
pub open spec fn move_target_ok(c: CardsContract, caller: Seq<char>, hand_index: u8) -> bool {
    &&& is_seated(c.seats@, caller)
    &&& c.game_state == GameState::PlayerTurn
    &&& c.current_player_seat == Some((seat_idx_of(c.seats@, caller) + 1) as u8)
    &&& 1 <= hand_index <= 2
    &&& hand_index == seated_player(c.seats@, caller).current_hand_index
    &&& hand_index - 1 < seated_player(c.seats@, caller).hands@.len()
    &&& !seated_player(c.seats@, caller).hands@[hand_index - 1].is_finished
}

/// The inputs on which a move succeeds. Beyond the shared targeting
/// conditions: a hit needs a hittable hand; a double needs an undoubled,
/// hittable hand and the funds to match its stake; a split is allowed
/// only once, only from hand 1 while it is the only hand, and needs the
/// funds to stake the second hand. Funded moves also need headroom in
/// the burn counters.
pub open spec fn move_ok(
    c: CardsContract,
    caller: Seq<char>,
    mv: PlayerMove,
    hand_index: u8,
) -> bool {
    let q = seated_player(c.seats@, caller);
    let h = hand_index - 1;
    &&& move_target_ok(c, caller, hand_index)
    &&& match mv {
        PlayerMove::Hit => q.hands@[h].can_hit,
        PlayerMove::Stand => true,
        PlayerMove::Double => {
            let amt = q.hands@[h].bet_amount as int;
            &&& !q.hands@[h].has_doubled
            &&& q.hands@[h].can_hit
            &&& has_account(c.accounts@, caller)
            &&& account_of(c.accounts@, caller).balance as int >= amt
            &&& q.hands@[h].bet_amount as int + amt <= u128::MAX as int
            &&& q.total_burned_this_round as int + amt <= u128::MAX as int
            &&& account_of(c.accounts@, caller).total_burned as int + amt <= u128::MAX as int
            &&& c.total_cards_burned as int + amt <= u128::MAX as int
            &&& c.blackjack_stats.total_tokens_burned_betting as int + amt <= u128::MAX as int
        },
        PlayerMove::Split => {
            let amt = q.hands@[0].bet_amount as int;
            &&& hand_index == 1
            &&& !q.hands@[0].has_split
            &&& q.hands@.len() == 1
            &&& has_account(c.accounts@, caller)
            &&& account_of(c.accounts@, caller).balance as int >= amt
            &&& q.total_burned_this_round as int + amt <= u128::MAX as int
            &&& account_of(c.accounts@, caller).total_burned as int + amt <= u128::MAX as int
            &&& c.total_cards_burned as int + amt <= u128::MAX as int
            &&& c.blackjack_stats.total_tokens_burned_betting as int + amt <= u128::MAX as int
        },
    }
}

/// The current-hand pointer after a hand-finishing move: when the split
/// hand finishes while hand 1 is still open, play returns to hand 1.
pub open spec fn pointer_after_finish(q: SeatPlayer, hand_index: u8) -> u8 {
    if hand_index == 2 && q.hands@.len() > 1 && !q.hands@[0].is_finished {
        1u8
    } else {
        q.current_hand_index
    }
}

/// Everything a successful call changes, relating the state before to
/// the state after.
pub open spec fn move_effect(pre: CardsContract,
    post: CardsContract,
    caller: String,
    move_type: PlayerMove,
    hand_index: u8,
    now: u64,) -> bool {
    {

            let s = seat_idx_of(pre.seats@, caller@);
            let q = pre.seats@[s]->Some_0;
            let h = hand_index - 1;
            let amt = move_burn(q, move_type, hand_index);
            &&& post.seats@.len() == pre.seats@.len()
            &&& forall|j: int|
                0 <= j < pre.seats@.len() && j != s ==> post.seats@[j] == pre.seats@[j]
            &&& (post.seats@[s] matches Some(p) && {
                &&& p.account_id == q.account_id
                &&& p.seat_number == q.seat_number
                &&& p.state == q.state
                &&& p.joined_at == q.joined_at
                &&& p.rounds_played == q.rounds_played
                &&& p.last_action_time == now
                &&& p.hands@.len() >= q.hands@.len()
                &&& forall|k: int|
                    0 <= k < q.hands@.len() && (#[trigger] q.hands@[k]).is_finished
                        ==> p.hands@[k].is_finished
                &&& match move_type {
                    PlayerMove::Hit => {
                        &&& p.hands@ == q.hands@
                        &&& p.total_burned_this_round == q.total_burned_this_round
                        &&& p.burns_tracking@ == q.burns_tracking@
                        &&& p.current_hand_index == q.current_hand_index
                    },
                    PlayerMove::Stand => {
                        &&& p.hands@ == q.hands@.update(h, hand_after_stand(q.hands@[h]))
                        &&& p.total_burned_this_round == q.total_burned_this_round
                        &&& p.burns_tracking@ == q.burns_tracking@
                        &&& p.current_hand_index == pointer_after_finish(q, hand_index)
                    },
                    PlayerMove::Double => {
                        &&& p.hands@ == q.hands@.update(h, hand_after_double(q.hands@[h]))
                        &&& p.total_burned_this_round == q.total_burned_this_round + amt
                        &&& p.burns_tracking@ == q.burns_tracking@.push(
                            (BurnRecord {
                                burn_type: BurnType::Double,
                                amount: amt as u128,
                                hand_index,
                                timestamp: now,
                            }),
                        )
                        &&& p.current_hand_index == pointer_after_finish(q, hand_index)
                    },
                    PlayerMove::Split => {
                        &&& p.hands@ == q.hands@.update(
                            0,
                            (PlayerHand { has_split: true, ..q.hands@[0] }),
                        ).push(PlayerHand::spec_new(2, amt as u128))
                        &&& p.total_burned_this_round == q.total_burned_this_round + amt
                        &&& p.burns_tracking@ == q.burns_tracking@.push(
                            (BurnRecord {
                                burn_type: BurnType::Split,
                                amount: amt as u128,
                                hand_index: 2,
                                timestamp: now,
                            }),
                        )
                        &&& p.current_hand_index == 2
                    },
                }
            })
            &&& move_queue_pushed(
                pre.pending_moves@,
                post.pending_moves@,
                s,
                (MoveSignal {
                    player_account: caller,
                    seat_number: (s + 1) as u8,
                    move_type,
                    hand_index,
                    timestamp: now,
                }),
            )
            &&& post.pending_bets == pre.pending_bets
            &&& (match move_type {
                PlayerMove::Hit => post.accounts == pre.accounts,
                PlayerMove::Stand => post.accounts == pre.accounts,
                PlayerMove::Double => post.accounts@ == pre.accounts@.update(
                    account_idx(pre.accounts@, caller@),
                    (AccountRecord {
                        account_id: pre.accounts@[account_idx(pre.accounts@, caller@)].account_id,
                        data: (UserAccount {
                            balance: (account_of(pre.accounts@, caller@).balance - amt) as u128,
                            total_burned: (account_of(pre.accounts@, caller@).total_burned
                                + amt) as u128,
                            ..account_of(pre.accounts@, caller@)
                        }),
                    }),
                ),
                PlayerMove::Split => post.accounts@ == pre.accounts@.update(
                    account_idx(pre.accounts@, caller@),
                    (AccountRecord {
                        account_id: pre.accounts@[account_idx(pre.accounts@, caller@)].account_id,
                        data: (UserAccount {
                            balance: (account_of(pre.accounts@, caller@).balance - amt) as u128,
                            total_burned: (account_of(pre.accounts@, caller@).total_burned
                                + amt) as u128,
                            ..account_of(pre.accounts@, caller@)
                        }),
                    }),
                ),
            })
            &&& balance_of(post.accounts@, caller@) == balance_of(pre.accounts@, caller@)
                - amt
            &&& forall|id: Seq<char>|
                id != caller@ ==> #[trigger] balance_of(post.accounts@, id) == balance_of(
                    pre.accounts@,
                    id,
                )
            &&& post.total_supply == pre.total_supply - amt
            &&& post.total_cards_burned == pre.total_cards_burned + amt
            &&& post.blackjack_stats == (crate::contract::BlackjackStats {
                total_tokens_burned_betting: (pre.blackjack_stats.total_tokens_burned_betting
                    + amt) as u128,
                ..pre.blackjack_stats
            })
            &&& post.total_supply as int + staked_total(post.seats@) == pre.total_supply as int + staked_total(pre.seats@)
            &&& post.game_state == pre.game_state
            &&& post.round_number == pre.round_number
            &&& post.current_player_seat == pre.current_player_seat
            &&& post.last_activity == now
            &&& post.total_cards_claimed == pre.total_cards_claimed
            &&& post.total_cards_purchased == pre.total_cards_purchased
            &&& same_token_config(pre, post)
            &&& same_surroundings(pre, post)
    }
}

/// Signal a move for the caller's current hand. Stand and double finish
/// the hand; double and split burn the hand's stake before the signal is
/// appended, mirroring the bet path's funding order. Fails softly
/// (returns false, no state change) on every violated precondition — in
/// particular whenever the caller's seat is not the recorded turn
/// holder, or the target hand is already finished.
#[verifier::rlimit(100)]
pub fn signal_move(
    c: &mut CardsContract,
    caller: &String,
    move_type: PlayerMove,
    hand_index: u8,
    now: u64,
) -> (r: bool)
    requires
        old(c).wf(),
    ensures
        final(c).wf(),
        r == move_ok(*old(c), caller@, move_type, hand_index),
        !r ==> *final(c) == *old(c),
        r ==> old(c).current_player_seat == Some(
            (seat_idx_of(old(c).seats@, caller@) + 1) as u8,
        ),
        r ==> move_effect(*old(c), *final(c), *caller, move_type, hand_index, now),
{
    let s_num = match crate::player::is_player_seated(c, caller) {
        Some(s) => s,
        None => {
            return false;
        },
    };
    let si = (s_num - 1) as usize;
    if c.game_state != GameState::PlayerTurn {
        return false;
    }
    let holds_turn = match c.current_player_seat {
        Some(t) => t == s_num,
        None => false,
    };
    if !holds_turn {
        return false;
    }
    if hand_index < 1 || hand_index > 2 {
        return false;
    }
    let (chi, hands_len) = match &c.seats[si] {
        Some(p) => (p.current_hand_index, p.hands.len()),
        None => {
            return unreached();
        },
    };
    if hand_index != chi {
        return false;
    }
    let hidx = (hand_index - 1) as usize;
    if hidx >= hands_len {
        return false;
    }
    let (hand, hand0, p_total) = match &c.seats[si] {
        Some(p) => (p.hands[hidx], p.hands[0], p.total_burned_this_round),
        None => {
            return unreached();
        },
    };
    if hand.is_finished {
        return false;
    }
    match move_type {
        PlayerMove::Hit => {
            if !hand.can_hit {
                return false;
            }
        },
        PlayerMove::Stand => {},
        PlayerMove::Double => {
            if hand.has_doubled {
                return false;
            }
            if !hand.can_hit {
                return false;
            }
            let amt = hand.bet_amount;
            let i = match c.account_index(caller) {
                Some(i) => i,
                None => {
                    return false;
                },
            };
            proof {
                lemma_account_idx_is(c.accounts@, caller@, i as int);
            }
            if c.accounts[i].data.balance < amt {
                return false;
            }
            if hand.bet_amount > u128::MAX - amt {
                return false;
            }
            if p_total > u128::MAX - amt {
                return false;
            }
            if c.accounts[i].data.total_burned > u128::MAX - amt {
                return false;
            }
            if c.total_cards_burned > u128::MAX - amt {
                return false;
            }
            if c.blackjack_stats.total_tokens_burned_betting > u128::MAX - amt {
                return false;
            }
            // Burn before any visible effect of the move.
            crate::tokens::burn_for_player(c, i, amt);
            proof {
                lemma_account_idx_is(c.accounts@, caller@, i as int);
                assert forall|id: Seq<char>|
                    id != caller@ implies #[trigger] balance_of(c.accounts@, id) == balance_of(
                    old(c).accounts@,
                    id,
                ) by {
                    crate::tokens::lemma_balance_of_other(
                        old(c).accounts@,
                        c.accounts@,
                        caller@,
                        id,
                        i as int,
                    );
                }
            }
            let mut slot: Option<SeatPlayer> = None;
            c.seats.set_and_swap(si, &mut slot);
            match slot {
                Some(mut p) => {
                    let new_hand = PlayerHand {
                        has_doubled: true,
                        is_finished: true,
                        can_hit: false,
                        bet_amount: hand.bet_amount + amt,
                        ..hand
                    };
                    p.hands.set(hidx, new_hand);
                    p.total_burned_this_round = p.total_burned_this_round + amt;
                    p.burns_tracking.push(
                        BurnRecord {
                            burn_type: BurnType::Double,
                            amount: amt,
                            hand_index,
                            timestamp: now,
                        },
                    );
                    if hand_index == 2 && !p.hands[0].is_finished {
                        p.current_hand_index = 1;
                    }
                    p.last_action_time = now;
                    proof {
                        let f = |o: Option<SeatPlayer>| seat_stake(o);
                        lemma_sum_by_update(c.seats@, f, si as int, Some(p));
                        lemma_sum_by_update(old(c).seats@, f, si as int, None::<SeatPlayer>);
                        assert(c.seats@ =~= old(c).seats@.update(si as int, None::<SeatPlayer>));
                        let q = old(c).seats@[si as int]->Some_0;
                        lemma_sum_by_update(
                            q.hands@,
                            |x: PlayerHand| x.bet_amount as int,
                            hidx as int,
                            hand_after_double(q.hands@[hidx as int]),
                        );
                        lemma_sum_by_push(
                            q.burns_tracking@,
                            |b: BurnRecord| b.amount as int,
                            BurnRecord {
                                burn_type: BurnType::Double,
                                amount: amt,
                                hand_index,
                                timestamp: now,
                            },
                        );
                    }
                    c.seats.set(si, Some(p));
                },
                None => {
                    return unreached();
                },
            }
        },
        PlayerMove::Split => {
            if hand_index != 1 {
                return false;
            }
            if hand.has_split {
                return false;
            }
            if hands_len != 1 {
                return false;
            }
            let amt = hand.bet_amount;
            let i = match c.account_index(caller) {
                Some(i) => i,
                None => {
                    return false;
                },
            };
            proof {
                lemma_account_idx_is(c.accounts@, caller@, i as int);
            }
            if c.accounts[i].data.balance < amt {
                return false;
            }
            if p_total > u128::MAX - amt {
                return false;
            }
            if c.accounts[i].data.total_burned > u128::MAX - amt {
                return false;
            }
            if c.total_cards_burned > u128::MAX - amt {
                return false;
            }
            if c.blackjack_stats.total_tokens_burned_betting > u128::MAX - amt {
                return false;
            }
            crate::tokens::burn_for_player(c, i, amt);
            proof {
                lemma_account_idx_is(c.accounts@, caller@, i as int);
                assert forall|id: Seq<char>|
                    id != caller@ implies #[trigger] balance_of(c.accounts@, id) == balance_of(
                    old(c).accounts@,
                    id,
                ) by {
                    crate::tokens::lemma_balance_of_other(
                        old(c).accounts@,
                        c.accounts@,
                        caller@,
                        id,
                        i as int,
                    );
                }
            }
            let mut slot: Option<SeatPlayer> = None;
            c.seats.set_and_swap(si, &mut slot);
            match slot {
                Some(mut p) => {
                    let first = PlayerHand { has_split: true, ..hand };
                    p.hands.set(0, first);
                    p.hands.push(PlayerHand::new(2, amt));
                    p.current_hand_index = 2;
                    p.total_burned_this_round = p.total_burned_this_round + amt;
                    p.burns_tracking.push(
                        BurnRecord {
                            burn_type: BurnType::Split,
                            amount: amt,
                            hand_index: 2,
                            timestamp: now,
                        },
                    );
                    p.last_action_time = now;
                    proof {
                        let f = |o: Option<SeatPlayer>| seat_stake(o);
                        lemma_sum_by_update(c.seats@, f, si as int, Some(p));
                        lemma_sum_by_update(old(c).seats@, f, si as int, None::<SeatPlayer>);
                        assert(c.seats@ =~= old(c).seats@.update(si as int, None::<SeatPlayer>));
                        let q = old(c).seats@[si as int]->Some_0;
                        lemma_sum_by_update(
                            q.hands@,
                            |x: PlayerHand| x.bet_amount as int,
                            0,
                            (PlayerHand { has_split: true, ..q.hands@[0] }),
                        );
                        lemma_sum_by_push(
                            q.hands@.update(0, (PlayerHand { has_split: true, ..q.hands@[0] })),
                            |x: PlayerHand| x.bet_amount as int,
                            PlayerHand::spec_new(2, amt),
                        );
                        lemma_sum_by_push(
                            q.burns_tracking@,
                            |b: BurnRecord| b.amount as int,
                            BurnRecord {
                                burn_type: BurnType::Split,
                                amount: amt,
                                hand_index: 2,
                                timestamp: now,
                            },
                        );
                    }
                    c.seats.set(si, Some(p));
                },
                None => {
                    return unreached();
                },
            }
        },
    }
    if matches!(move_type, PlayerMove::Hit | PlayerMove::Stand) {
        let mut slot: Option<SeatPlayer> = None;
        c.seats.set_and_swap(si, &mut slot);
        match slot {
            Some(mut p) => {
                if matches!(move_type, PlayerMove::Stand) {
                    let new_hand = PlayerHand { is_finished: true, can_hit: false, ..hand };
                    p.hands.set(hidx, new_hand);
                    if hand_index == 2 && !p.hands[0].is_finished {
                        p.current_hand_index = 1;
                    }
                    proof {
                        let q = old(c).seats@[si as int]->Some_0;
                        lemma_sum_by_update(
                            q.hands@,
                            |x: PlayerHand| x.bet_amount as int,
                            hidx as int,
                            hand_after_stand(q.hands@[hidx as int]),
                        );
                    }
                }
                p.last_action_time = now;
                proof {
                    let f = |o: Option<SeatPlayer>| seat_stake(o);
                    lemma_sum_by_update(c.seats@, f, si as int, Some(p));
                    lemma_sum_by_update(old(c).seats@, f, si as int, None::<SeatPlayer>);
                    assert(c.seats@ =~= old(c).seats@.update(si as int, None::<SeatPlayer>));
                }
                c.seats.set(si, Some(p));
            },
            None => {
                return unreached();
            },
        }
    }
    let mut queue: Vec<MoveSignal> = Vec::new();
    c.pending_moves.set_and_swap(si, &mut queue);
    queue.push(
        MoveSignal {
            player_account: caller.clone(),
            seat_number: s_num,
            move_type,
            hand_index,
            timestamp: now,
        },
    );
    c.pending_moves.set(si, queue);
    c.last_activity = now;
    true
}

/// Total chips a settlement batch mints: the winnings of every entry
/// whose account is registered; unresolvable entries are skipped, not
/// fatal.
pub open spec fn minted_total(dists: Seq<PlayerWinning>, accounts: Seq<AccountRecord>) -> int
    decreases dists.len(),
{
    if dists.len() == 0 {
        0
    } else {
        minted_total(dists.drop_last(), accounts) + (if has_account(
            accounts,
            dists.last().account_id@,
        ) {
            dists.last().winnings as int
        } else {
            0
        })
    }
}

/// Total winnings a settlement batch assigns to `id` across all its
/// entries.
pub open spec fn winnings_for(dists: Seq<PlayerWinning>, id: Seq<char>) -> int
    decreases dists.len(),
{
    if dists.len() == 0 {
        0
    } else {
        winnings_for(dists.drop_last(), id) + (if dists.last().account_id@ == id {
            dists.last().winnings as int
        } else {
            0
        })
    }
}

/// A prefix never mints more than the whole batch.
pub proof fn lemma_minted_prefix(s: Seq<PlayerWinning>, a: Seq<AccountRecord>, j: int)
    requires
        0 <= j <= s.len(),
    ensures
        minted_total(s.take(j), a) <= minted_total(s, a),
    decreases s.len(),
{
    if j < s.len() {
        assert(s.drop_last().take(j) =~= s.take(j));
        lemma_minted_prefix(s.drop_last(), a, j);
    } else {
        assert(s.take(j) =~= s);
    }
}

/// The inputs on which settlement succeeds: the batch is not stale
/// (its round is at least the table's), and every counter it moves has
/// headroom.
pub open spec fn distribute_ok(c: CardsContract, d: WinningsDistribution) -> bool {
    &&& d.round_number >= c.round_number
    &&& c.round_number < u64::MAX
    &&& c.total_supply as int + minted_total(d.distributions@, c.accounts@) <= u128::MAX as int
    &&& c.blackjack_stats.total_winnings_distributed as int + minted_total(
        d.distributions@,
        c.accounts@,
    ) <= u128::MAX as int
    &&& c.blackjack_stats.total_hands_dealt as int + d.distributions@.len() <= u64::MAX as int
    &&& forall|j: int|
        0 <= j < c.seats@.len() ==> match #[trigger] c.seats@[j] {
            Some(p) => p.rounds_played < u32::MAX,
            None => true,
        }
}

/// Clear one seat's round-scoped fields for the next round, counting
/// the round as played.
fn reset_seat_for_next_round(c: &mut CardsContract, si: usize, now: u64)
    requires
        old(c).wf(),
        si < SEAT_COUNT,
        old(c).current_player_seat is None,
        match old(c).seats@[si as int] {
            Some(p) => p.rounds_played < u32::MAX,
            None => true,
        },
    ensures
        final(c).wf(),
        final(c).seats@.len() == old(c).seats@.len(),
        (match (old(c).seats@[si as int], final(c).seats@[si as int]) {
            (Some(q), Some(p)) => {
                &&& p.account_id == q.account_id
                &&& p.seat_number == q.seat_number
                &&& p.state == q.state
                &&& p.round_cleared()
                &&& p.last_action_time == now
                &&& p.rounds_played == q.rounds_played + 1
                &&& p.joined_at == q.joined_at
            },
            (None, None) => true,
            _ => false,
        }),
        seat_stake(final(c).seats@[si as int]) == 0,
        forall|j: int|
            0 <= j < old(c).seats@.len() && j != si ==> final(c).seats@[j] == old(c).seats@[j],
        final(c).accounts == old(c).accounts,
        final(c).total_supply == old(c).total_supply,
        same_counters(*old(c), *final(c)),
        final(c).blackjack_stats == old(c).blackjack_stats,
        final(c).pending_bets == old(c).pending_bets,
        final(c).pending_moves == old(c).pending_moves,
        final(c).game_state == old(c).game_state,
        final(c).round_number == old(c).round_number,
        final(c).current_player_seat == old(c).current_player_seat,
        final(c).last_activity == old(c).last_activity,
        same_token_config(*old(c), *final(c)),
        same_surroundings(*old(c), *final(c)),
{
    let mut slot: Option<SeatPlayer> = None;
    c.seats.set_and_swap(si, &mut slot);
    match slot {
        Some(mut p) => {
            p.current_hand_index = 1;
            p.hands = Vec::new();
            p.total_burned_this_round = 0;
            p.burns_tracking = Vec::new();
            p.last_action_time = now;
            p.rounds_played = p.rounds_played + 1;
            proof {
                let f = |o: Option<SeatPlayer>| seat_stake(o);
                lemma_sum_by_update(c.seats@, f, si as int, Some(p));
                lemma_sum_by_update(old(c).seats@, f, si as int, None::<SeatPlayer>);
                assert(c.seats@ =~= old(c).seats@.update(si as int, None::<SeatPlayer>));
                assert(p.hands@ =~= Seq::<PlayerHand>::empty());
                assert(p.burns_tracking@ =~= Seq::<BurnRecord>::empty());
            }
            c.seats.set(si, Some(p));
        },
        None => {
            proof {
                let f = |o: Option<SeatPlayer>| seat_stake(o);
                lemma_sum_by_update(old(c).seats@, f, si as int, None::<SeatPlayer>);
                assert(c.seats@ =~= old(c).seats@.update(si as int, None::<SeatPlayer>));
                assert(c.seats@ =~= old(c).seats@);
            }
        },
    }
}

/// Everything a successful call changes, relating the state before to
/// the state after.
pub open spec fn distribute_effect(pre: CardsContract,
    post: CardsContract,
    distribution: WinningsDistribution,
    now: u64,) -> bool {
    {

            let d = distribution.distributions@;
            let minted = minted_total(d, pre.accounts@);
            &&& forall|id: Seq<char>| #[trigger]
                balance_of(post.accounts@, id) == balance_of(pre.accounts@, id) + (
                if has_account(pre.accounts@, id) {
                    winnings_for(d, id)
                } else {
                    0
                })
            &&& post.total_supply as int == pre.total_supply as int + minted
            &&& post.seats@.len() == pre.seats@.len()
            &&& forall|j: int|
                0 <= j < pre.seats@.len() ==> match (
                    #[trigger] pre.seats@[j],
                    post.seats@[j],
                ) {
                    (Some(q), Some(p)) => {
                        &&& p.account_id == q.account_id
                        &&& p.seat_number == q.seat_number
                        &&& p.state == q.state
                        &&& p.round_cleared()
                        &&& p.last_action_time == now
                        &&& p.rounds_played == q.rounds_played + 1
                        &&& p.joined_at == q.joined_at
                    },
                    (None, None) => true,
                    _ => false,
                }
            &&& staked_total(post.seats@) == 0
            &&& post.round_number == pre.round_number + 1
            &&& post.game_state == GameState::WaitingForPlayers
            &&& post.current_player_seat is None
            &&& post.pending_bets@.len() == pre.pending_bets@.len()
            &&& post.pending_moves@.len() == pre.pending_moves@.len()
            &&& forall|j: int|
                0 <= j < post.pending_bets@.len()
                    ==> (#[trigger] post.pending_bets@[j])@.len() == 0
            &&& forall|j: int|
                0 <= j < post.pending_moves@.len()
                    ==> (#[trigger] post.pending_moves@[j])@.len() == 0
            &&& post.blackjack_stats == (crate::contract::BlackjackStats {
                total_winnings_distributed: (pre.blackjack_stats.total_winnings_distributed
                    + minted) as u128,
                total_hands_dealt: (pre.blackjack_stats.total_hands_dealt + d.len()) as u64,
                ..pre.blackjack_stats
            })
            &&& post.last_activity == now
            &&& same_counters(pre, post)
            &&& same_token_config(pre, post)
            &&& same_surroundings(pre, post)
    }
}

/// Apply the backend's settlement batch: credit every resolvable
/// entry's winnings (a mint — supply is allowed to grow), reset every
/// seated player for the next round whether or not they appear in the
/// batch, advance the round counter, return to the waiting phase and
/// flush both signal queues. A batch for a past round is rejected whole:
/// nothing is credited and nothing changes.
#[verifier::rlimit(100)]
pub fn distribute_winnings(c: &mut CardsContract, distribution: &WinningsDistribution, now: u64) -> (r:
    bool)
    requires
        old(c).wf(),
    ensures
        final(c).wf(),
        r == distribute_ok(*old(c), *distribution),
        !r ==> *final(c) == *old(c),
        r ==> distribute_effect(*old(c), *final(c), *distribution, now),
{
    if distribution.round_number < c.round_number {
        return false;
    }
    if c.round_number == u64::MAX {
        return false;
    }
    // Validation pass: compute the batch's mint total and check every
    // counter it will move, before anything changes.
    let mut total: u128 = 0;
    let mut k: usize = 0;
    proof {
        assert(distribution.distributions@.take(0) =~= Seq::<PlayerWinning>::empty());
    }
    while k < distribution.distributions.len()
        invariant
            c.wf(),
            *c == *old(c),
            k <= distribution.distributions@.len(),
            total as int == minted_total(
                distribution.distributions@.take(k as int),
                c.accounts@,
            ),
        decreases distribution.distributions@.len() - k,
    {
        proof {
            assert(distribution.distributions@.take(k as int + 1).drop_last()
                =~= distribution.distributions@.take(k as int));
        }
        let entry = &distribution.distributions[k];
        if c.account_index(&entry.account_id).is_some() {
            if total > u128::MAX - entry.winnings {
                proof {
                    lemma_minted_prefix(
                        distribution.distributions@,
                        c.accounts@,
                        k as int + 1,
                    );
                    crate::model::lemma_sum_by_nonneg(
                        c.accounts@,
                        |r: AccountRecord| r.data.balance as int,
                    );
                }
                return false;
            }
            total = total + entry.winnings;
        }
        k = k + 1;
    }
    proof {
        assert(distribution.distributions@.take(distribution.distributions@.len() as int)
            =~= distribution.distributions@);
    }
    if c.total_supply > u128::MAX - total {
        return false;
    }
    if c.blackjack_stats.total_winnings_distributed > u128::MAX - total {
        return false;
    }
    let hands_count = distribution.distributions.len() as u64;
    if c.blackjack_stats.total_hands_dealt > u64::MAX - hands_count {
        return false;
    }
    let seats_ok = {
        let ok0 = match &c.seats[0] {
            Some(p) => p.rounds_played < u32::MAX,
            None => true,
        };
        let ok1 = match &c.seats[1] {
            Some(p) => p.rounds_played < u32::MAX,
            None => true,
        };
        let ok2 = match &c.seats[2] {
            Some(p) => p.rounds_played < u32::MAX,
            None => true,
        };
        ok0 && ok1 && ok2
    };
    if !seats_ok {
        return false;
    }
    // Round teardown: drop the turn, reset every seated player.
    c.current_player_seat = None;
    reset_seat_for_next_round(c, 0, now);
    reset_seat_for_next_round(c, 1, now);
    reset_seat_for_next_round(c, 2, now);
    proof {
        crate::model::lemma_sum_by_zero(c.seats@, |o: Option<SeatPlayer>| seat_stake(o));
    }
    let ghost base = *c;
    // Credit pass: mint each resolvable entry's winnings.
    let mut k: usize = 0;
    proof {
        assert(distribution.distributions@.take(0) =~= Seq::<PlayerWinning>::empty());
    }
    while k < distribution.distributions.len()
        invariant
            c.wf(),
            k <= distribution.distributions@.len(),
            base.accounts@ == old(c).accounts@,
            staked_total(base.seats@) == 0,
            c.seats == base.seats,
            c.pending_bets == base.pending_bets,
            c.pending_moves == base.pending_moves,
            c.game_state == base.game_state,
            c.round_number == base.round_number,
            c.current_player_seat == base.current_player_seat,
            c.last_activity == base.last_activity,
            c.blackjack_stats == base.blackjack_stats,
            same_counters(base, *c),
            same_token_config(base, *c),
            same_surroundings(base, *c),
            forall|id: Seq<char>| #[trigger]
                has_account(c.accounts@, id) == has_account(base.accounts@, id),
            c.total_supply as int == base.total_supply as int + minted_total(
                distribution.distributions@.take(k as int),
                base.accounts@,
            ),
            base.total_supply as int + minted_total(distribution.distributions@, base.accounts@)
                <= u128::MAX as int,
            forall|id: Seq<char>| #[trigger]
                balance_of(c.accounts@, id) == balance_of(base.accounts@, id) + (if has_account(
                    base.accounts@,
                    id,
                ) {
                    winnings_for(distribution.distributions@.take(k as int), id)
                } else {
                    0
                }),
        decreases distribution.distributions@.len() - k,
    {
        let ghost pre = *c;
        proof {
            assert(distribution.distributions@.take(k as int + 1).drop_last()
                =~= distribution.distributions@.take(k as int));
            lemma_minted_prefix(distribution.distributions@, base.accounts@, k as int + 1);
        }
        let entry = &distribution.distributions[k];
        match c.account_index(&entry.account_id) {
            Some(i) => {
                proof {
                    lemma_account_idx_is(c.accounts@, entry.account_id@, i as int);
                    lemma_sum_by_nonneg(c.seats@, |o: Option<SeatPlayer>| seat_stake(o));
                    lemma_sum_by_bounds_elem(
                        c.accounts@,
                        |r: AccountRecord| r.data.balance as int,
                        i as int,
                    );
                }
                crate::tokens::credit_at(c, i, entry.winnings);
                proof {
                    lemma_account_idx_is(c.accounts@, entry.account_id@, i as int);
                    crate::tokens::lemma_accounts_update_same_id(
                        pre.accounts@,
                        i as int,
                        c.accounts@[i as int],
                    );
                    assert(c.accounts@ =~= pre.accounts@.update(i as int, c.accounts@[i as int]));
                    assert forall|id: Seq<char>|
                        id != entry.account_id@ implies #[trigger] balance_of(c.accounts@, id)
                        == balance_of(pre.accounts@, id) by {
                        crate::tokens::lemma_balance_of_other(
                            pre.accounts@,
                            c.accounts@,
                            entry.account_id@,
                            id,
                            i as int,
                        );
                    }
                    assert forall|id: Seq<char>| #[trigger]
                        has_account(c.accounts@, id) == has_account(base.accounts@, id) by {
                        assert(has_account(c.accounts@, id) == has_account(pre.accounts@, id));
                    }
                    let dtake = distribution.distributions@.take(k as int + 1);
                    assert(dtake.last() == distribution.distributions@[k as int]);
                    assert(has_account(base.accounts@, entry.account_id@));
                    assert(minted_total(dtake, base.accounts@) == minted_total(
                        distribution.distributions@.take(k as int),
                        base.accounts@,
                    ) + entry.winnings as int);
                    assert forall|id: Seq<char>| #[trigger]
                        balance_of(c.accounts@, id) == balance_of(base.accounts@, id) + (
                    if has_account(base.accounts@, id) {
                        winnings_for(dtake, id)
                    } else {
                        0
                    }) by {
                        assert(winnings_for(dtake, id) == winnings_for(
                            distribution.distributions@.take(k as int),
                            id,
                        ) + (if entry.account_id@ == id {
                            entry.winnings as int
                        } else {
                            0
                        }));
                        if id == entry.account_id@ {
                            assert(balance_of(c.accounts@, id) == balance_of(pre.accounts@, id)
                                + entry.winnings as int);
                        } else {
                            assert(balance_of(c.accounts@, id) == balance_of(pre.accounts@, id));
                        }
                    }
                }
            },
            None => {
                proof {
                    let dtake = distribution.distributions@.take(k as int + 1);
                    assert(dtake.last() == distribution.distributions@[k as int]);
                    assert(!has_account(base.accounts@, entry.account_id@));
                    assert(minted_total(dtake, base.accounts@) == minted_total(
                        distribution.distributions@.take(k as int),
                        base.accounts@,
                    ));
                    assert forall|id: Seq<char>| #[trigger]
                        balance_of(c.accounts@, id) == balance_of(base.accounts@, id) + (
                    if has_account(base.accounts@, id) {
                        winnings_for(dtake, id)
                    } else {
                        0
                    }) by {
                        assert(winnings_for(dtake, id) == winnings_for(
                            distribution.distributions@.take(k as int),
                            id,
                        ) + (if entry.account_id@ == id {
                            entry.winnings as int
                        } else {
                            0
                        }));
                    }
                }
            },
        }
        k = k + 1;
    }
    proof {
        assert(distribution.distributions@.take(distribution.distributions@.len() as int)
            =~= distribution.distributions@);
    }
    // Round completion: next round number, waiting phase, flushed queues.
    c.round_number = c.round_number + 1;
    c.game_state = GameState::WaitingForPlayers;
    c.pending_bets.set(0, Vec::new());
    c.pending_bets.set(1, Vec::new());
    c.pending_bets.set(2, Vec::new());
    c.pending_moves.set(0, Vec::new());
    c.pending_moves.set(1, Vec::new());
    c.pending_moves.set(2, Vec::new());
    c.blackjack_stats.total_winnings_distributed = c.blackjack_stats.total_winnings_distributed
        + total;
    c.blackjack_stats.total_hands_dealt = c.blackjack_stats.total_hands_dealt + hands_count;
    c.last_activity = now;
    true
}

} // verus!
