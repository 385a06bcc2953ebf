//! The contract's public entry points, as a host calls them: each method
//! takes the caller's identity and the clock explicitly and forwards to
//! the verified engine, with the pause and authorization gates applied
//! where the entry point demands them.

use vstd::prelude::*;

use crate::action::{bet_effect, bet_ok, distribute_effect, distribute_ok, move_effect, move_ok};
use crate::admin::{advance_effect, advance_ok, kick_effect};
use crate::contract::{
    same_counters, same_game, same_surroundings, same_token_config, CardsContract, GameStateView,
    SEAT_COUNT,
};
use crate::player::{is_seated, join_effect, join_ok, leave_effect, same_player};
use crate::tokens::{
    balance_of, claim_ok, deposit_target, purchase_base, purchase_ok, storage_deposit_ok,
    withdraw_request, AdminConfigUpdate, ClaimEligibility, ContractConfig, ContractStats,
    PurchaseTier, StorageBalance, StorageBounds, UserStats,
};
use crate::types::{
    BetSignal, GameState, MoveSignal, PlayerMove, PlayerView, SeatPlayer, WinningsDistribution,
};

verus! {

/// Seconds since a seat occupant last acted.
pub open spec fn seconds_since(last: u64, now: u64) -> u64 {
    if now >= last {
        ((now - last) / 1_000_000_000) as u64
    } else {
        0
    }
}

/// The free seat numbers, ascending.
pub open spec fn available_seats_seq(seats: Seq<Option<SeatPlayer>>) -> Seq<u8> {
    (if seats[0] is None {
        seq![1u8]
    } else {
        Seq::empty()
    }) + (if seats[1] is None {
        seq![2u8]
    } else {
        Seq::empty()
    }) + (if seats[2] is None {
        seq![3u8]
    } else {
        Seq::empty()
    })
}

/// The taken seat numbers, ascending.
pub open spec fn occupied_seats_seq(seats: Seq<Option<SeatPlayer>>) -> Seq<u8> {
    (if seats[0] is Some {
        seq![1u8]
    } else {
        Seq::empty()
    }) + (if seats[1] is Some {
        seq![2u8]
    } else {
        Seq::empty()
    }) + (if seats[2] is Some {
        seq![3u8]
    } else {
        Seq::empty()
    })
}

/// An element-wise copy of a bet-signal queue.
pub fn clone_bet_signals(v: &Vec<BetSignal>) -> (r: Vec<BetSignal>)
    ensures
        r@ == v@,
{
    let mut r: Vec<BetSignal> = Vec::new();
    let mut k: usize = 0;
    while k < v.len()
        invariant
            k <= v@.len(),
            r@ == v@.take(k as int),
        decreases v@.len() - k,
    {
        r.push(v[k].clone());
        proof {
            assert(v@.take(k as int + 1) =~= v@.take(k as int).push(v@[k as int]));
        }
        k = k + 1;
    }
    proof {
        assert(v@.take(v@.len() as int) =~= v@);
    }
    r
}

/// An element-wise copy of a move-signal queue.
pub fn clone_move_signals(v: &Vec<MoveSignal>) -> (r: Vec<MoveSignal>)
    ensures
        r@ == v@,
{
    let mut r: Vec<MoveSignal> = Vec::new();
    let mut k: usize = 0;
    while k < v.len()
        invariant
            k <= v@.len(),
            r@ == v@.take(k as int),
        decreases v@.len() - k,
    {
        r.push(v[k].clone());
        proof {
            assert(v@.take(k as int + 1) =~= v@.take(k as int).push(v@[k as int]));
        }
        k = k + 1;
    }
    proof {
        assert(v@.take(v@.len() as int) =~= v@);
    }
    r
}

/// How a player view reflects its seat occupant.
pub open spec fn view_matches(v: PlayerView, p: SeatPlayer, seat: u8, c: CardsContract, now: u64) -> bool {
    &&& v.account_id@ == p.account_id@
    &&& v.seat_number == p.seat_number
    &&& v.state == p.state
    &&& v.current_hand_index == p.current_hand_index
    &&& v.hands@ == p.hands@
    &&& v.total_burned_this_round == p.total_burned_this_round
    &&& v.time_since_last_action == seconds_since(p.last_action_time, now)
    &&& v.is_current_player == (c.current_player_seat == Some(seat))
}

impl CardsContract {
    /// Hold a storage deposit for the named account (the caller when
    /// none is named); rejected while the contract is paused.
    pub fn storage_deposit(
        &mut self,
        caller: &String,
        account_id: Option<String>,
        attached: u128,
        now: u64,
    ) -> (r: StorageBalance)
        requires
            old(self).wf(),
            !old(self).spec_paused(),
            storage_deposit_ok(*old(self), deposit_target(caller@, account_id), attached),
        ensures
            final(self).wf(),
            ({
                let target = deposit_target(caller@, account_id);
                let old_dep = crate::tokens::deposit_of(old(self).storage_deposits@, target);
                &&& crate::tokens::deposit_of(final(self).storage_deposits@, target) == old_dep
                    + attached
                &&& r.total as int == old_dep + attached
            }),
    {
        crate::tokens::storage_deposit(self, caller, account_id, attached, now)
    }

    /// Release the withdrawable part of the caller's storage deposit;
    /// the host pays the returned amount back.
    pub fn storage_withdraw(&mut self, caller: &String, amount: Option<u128>) -> (r: (
        StorageBalance,
        u128,
    ))
        requires
            old(self).wf(),
            crate::tokens::has_deposit(old(self).storage_deposits@, caller@),
            withdraw_request(*old(self), caller@, amount) > 0,
        ensures
            final(self).wf(),
            r.1 as int == withdraw_request(*old(self), caller@, amount),
            crate::tokens::deposit_of(final(self).storage_deposits@, caller@)
                == crate::tokens::deposit_of(old(self).storage_deposits@, caller@) - r.1,
    {
        crate::tokens::storage_withdraw(self, caller, amount)
    }

    /// The storage deposit held for `account_id`.
    pub fn storage_balance_of(&self, account_id: &String) -> (r: Option<StorageBalance>)
        requires
            self.wf(),
        ensures
            r is Some <==> crate::tokens::has_deposit(self.storage_deposits@, account_id@),
    {
        crate::tokens::storage_balance_of(self, account_id)
    }

    /// The deposit bounds the contract accepts.
    pub fn storage_balance_bounds(&self) -> (r: StorageBounds)
        ensures
            r.min == crate::storage::STORAGE_DEPOSIT_REQUIRED,
            r.max is None,
    {
        crate::tokens::storage_balance_bounds(self)
    }

    /// Claim the daily chips; rejected while paused.
    pub fn claim(&mut self, caller: &String, now: u64) -> (r: u128)
        requires
            old(self).wf(),
            !old(self).spec_paused(),
            claim_ok(*old(self), caller@, now),
        ensures
            final(self).wf(),
            r == old(self).config.daily_claim_amount,
            balance_of(final(self).accounts@, caller@) == balance_of(old(self).accounts@, caller@)
                + r,
            final(self).total_supply == old(self).total_supply + r,
            final(self).total_cards_claimed == old(self).total_cards_claimed + r,
    {
        crate::tokens::claim_daily_cards(self, caller, now)
    }

    /// Buy the chip pack of `tier_index` with `attached` yocto-units;
    /// rejected while paused. Handing the price on and refunding any
    /// excess is the host's part.
    pub fn purchase(&mut self, caller: &String, attached: u128, tier_index: u8, now: u64) -> (r:
        u128)
        requires
            old(self).wf(),
            !old(self).spec_paused(),
            purchase_ok(*old(self), caller@, attached, tier_index, now),
        ensures
            final(self).wf(),
            r == old(self).config.purchase_rates@[tier_index as int].cards_amount,
            balance_of(final(self).accounts@, caller@) == balance_of(old(self).accounts@, caller@)
                + r,
            final(self).total_supply == old(self).total_supply + r,
            final(self).total_cards_purchased == old(self).total_cards_purchased + r,
            crate::tokens::account_of(final(self).accounts@, caller@)
                == crate::tokens::purchased_account(purchase_base(*old(self), caller@, now), r, now),
    {
        crate::tokens::purchase_cards(self, caller, attached, tier_index, now)
    }

    /// Whether and when `account_id` may claim.
    pub fn check_claim_eligibility(&self, account_id: &String, now: u64) -> (r: ClaimEligibility)
        requires
            self.wf(),
        ensures
            r.can_claim == (crate::tokens::has_account(self.accounts@, account_id@)
                && crate::tokens::claim_ready(
                crate::tokens::account_of(self.accounts@, account_id@),
                self.config.claim_interval,
                now,
            )),
    {
        crate::tokens::check_claim_eligibility(self, account_id, now)
    }

    /// The chip balance of `account_id`; zero when unregistered.
    pub fn get_balance(&self, account_id: &String) -> (r: u128)
        requires
            self.wf(),
        ensures
            r as int == balance_of(self.accounts@, account_id@),
    {
        crate::tokens::get_balance(self, account_id)
    }

    /// Detailed statistics for `account_id`.
    pub fn get_user_stats(&self, account_id: &String, now: u64) -> (r: Option<UserStats>)
        requires
            self.wf(),
        ensures
            r is Some <==> crate::tokens::has_account(self.accounts@, account_id@),
            r matches Some(u) ==> u.balance as int == balance_of(self.accounts@, account_id@),
    {
        crate::tokens::get_user_stats(self, account_id, now)
    }

    /// Aggregated ledger statistics.
    pub fn get_contract_stats(&self) -> (r: ContractStats)
        requires
            self.wf(),
        ensures
            r.total_supply == self.total_supply,
            r.total_claimed == self.total_cards_claimed,
            r.total_purchased == self.total_cards_purchased,
            r.total_burned == self.total_cards_burned,
            r.total_users == self.accounts@.len(),
            r.active_users as int == crate::tokens::count_active(self.accounts@),
    {
        crate::tokens::get_contract_stats(self)
    }

    /// The configured purchase tiers.
    pub fn get_purchase_tiers(&self) -> (r: &Vec<PurchaseTier>)
        ensures
            *r == self.config.purchase_rates,
    {
        crate::tokens::get_purchase_tiers(self)
    }

    /// One purchase tier by position.
    pub fn get_tier_info(&self, tier_index: u8) -> (r: Option<&PurchaseTier>)
        ensures
            match r {
                Some(t) => (tier_index as int) < self.config.purchase_rates@.len() && *t
                    == self.config.purchase_rates@[tier_index as int],
                None => (tier_index as int) >= self.config.purchase_rates@.len(),
            },
    {
        crate::tokens::get_tier_info(self, tier_index)
    }

    /// The stake denominations a bet may use.
    pub fn get_valid_burn_amounts(&self) -> (r: &Vec<u128>)
        ensures
            *r == self.config.valid_burn_amounts,
    {
        crate::tokens::get_valid_burn_amounts(self)
    }

    /// The ledger configuration.
    pub fn get_token_config(&self) -> (r: &ContractConfig)
        ensures
            *r == self.config,
    {
        crate::tokens::get_config(self)
    }

    /// Apply a partial configuration update; only the owner may call
    /// this.
    pub fn update_token_config(&mut self, caller: &String, update: AdminConfigUpdate)
        requires
            old(self).wf(),
            old(self).spec_is_owner(caller@),
        ensures
            final(self).wf(),
            final(self).config.daily_claim_amount == match update.daily_claim_amount {
                Some(x) => x,
                None => old(self).config.daily_claim_amount,
            },
            final(self).config.claim_interval == match update.claim_interval {
                Some(x) => x,
                None => old(self).config.claim_interval,
            },
            final(self).accounts == old(self).accounts,
            final(self).total_supply == old(self).total_supply,
    {
        crate::tokens::update_config(self, caller, update)
    }

    /// Take a seat; fails softly while paused or on any violated
    /// precondition.
    pub fn take_seat(&mut self, caller: &String, seat_number: u8, now: u64) -> (r: bool)
        requires
            old(self).wf(),
            caller@.len() <= 1_000_000_000,
        ensures
            final(self).wf(),
            r == (!old(self).spec_paused() && join_ok(*old(self), caller@, seat_number)),
            !r ==> *final(self) == *old(self),
            r ==> join_effect(*old(self), *final(self), *caller, seat_number, now),
    {
        if self.is_paused() {
            return false;
        }
        crate::player::take_seat(self, caller, seat_number, now)
    }

    /// Vacate the caller's seat; fails softly while paused or when the
    /// caller is not seated.
    pub fn leave_seat(&mut self, caller: &String, now: u64) -> (r: bool)
        requires
            old(self).wf(),
        ensures
            final(self).wf(),
            r == (!old(self).spec_paused() && is_seated(old(self).seats@, caller@)),
            !r ==> *final(self) == *old(self),
            r ==> leave_effect(*old(self), *final(self), *caller, now),
    {
        if self.is_paused() {
            return false;
        }
        crate::player::leave_seat(self, caller, now)
    }

    /// Place the round's bet; fails softly while paused or on any
    /// violated precondition.
    pub fn bet(&mut self, caller: &String, amount: u128, now: u64) -> (r: bool)
        requires
            old(self).wf(),
        ensures
            final(self).wf(),
            r == (!old(self).spec_paused() && bet_ok(*old(self), caller@, amount)),
            !r ==> *final(self) == *old(self),
            r ==> bet_effect(*old(self), *final(self), *caller, amount, now),
    {
        if self.is_paused() {
            return false;
        }
        crate::action::place_bet(self, caller, amount, now)
    }

    /// Signal a move for the caller's current hand; fails softly while
    /// paused or on any violated precondition — in particular whenever
    /// the caller's seat does not hold the recorded turn.
    pub fn make_move(&mut self, caller: &String, move_type: PlayerMove, hand_index: u8, now: u64) -> (r:
        bool)
        requires
            old(self).wf(),
        ensures
            final(self).wf(),
            r == (!old(self).spec_paused() && move_ok(*old(self), caller@, move_type, hand_index)),
            !r ==> *final(self) == *old(self),
            r ==> move_effect(*old(self), *final(self), *caller, move_type, hand_index, now),
    {
        if self.is_paused() {
            return false;
        }
        crate::action::signal_move(self, caller, move_type, hand_index, now)
    }

    /// Apply the backend's settlement batch; only an admin may call
    /// this. A batch for a past round fails whole: nothing is credited.
    pub fn distribute_winnings(
        &mut self,
        caller: &String,
        distribution: &WinningsDistribution,
        now: u64,
    ) -> (r: bool)
        requires
            old(self).wf(),
            old(self).spec_is_admin(caller@),
        ensures
            final(self).wf(),
            r == distribute_ok(*old(self), *distribution),
            !r ==> *final(self) == *old(self),
            r ==> distribute_effect(*old(self), *final(self), *distribution, now),
    {
        crate::action::distribute_winnings(self, distribution, now)
    }

    /// Drive the round state machine; only an admin may call this.
    pub fn game_mode(&mut self, caller: &String, new_state: GameState, now: u64) -> (r: bool)
        requires
            old(self).wf(),
            old(self).spec_is_admin(caller@),
        ensures
            final(self).wf(),
            r == advance_ok(*old(self), new_state),
            !r ==> *final(self) == *old(self),
            r ==> advance_effect(*old(self), *final(self), new_state, now),
    {
        crate::admin::advance_game_state(self, new_state, now)
    }

    /// Remove a player on the admin's order; the reason accompanies the
    /// host's event.
    pub fn kick_player_by_account(
        &mut self,
        caller: &String,
        account_id: &String,
        reason: &String,
        now: u64,
    ) -> (r: bool)
        requires
            old(self).wf(),
            old(self).spec_is_admin(caller@),
        ensures
            final(self).wf(),
            r == is_seated(old(self).seats@, account_id@),
            !r ==> *final(self) == *old(self),
            r ==> kick_effect(*old(self), *final(self), *account_id, now),
    {
        crate::admin::kick_player(self, account_id, reason, now)
    }

    /// Skip the recorded turn holder; only an admin may call this.
    pub fn force_next_player(&mut self, caller: &String, now: u64) -> (r: bool)
        requires
            old(self).wf(),
            old(self).spec_is_admin(caller@),
        ensures
            final(self).wf(),
            r == crate::admin::force_ok(*old(self)),
            !r ==> *final(self) == *old(self),
            r ==> ({
                let s = old(self).current_player_seat->0;
                let next = crate::admin::next_playable_excluding(old(self).seats@, s as int);
                &&& final(self).current_player_seat == next
                &&& final(self).game_state == (if next is Some {
                    GameState::PlayerTurn
                } else {
                    GameState::DealerTurn
                })
                &&& final(self).seats == old(self).seats
            }),
    {
        crate::admin::force_next_player(self, now)
    }

    /// Refund every outstanding stake and reset the game; only an admin
    /// may call this.
    pub fn emergency_refund(&mut self, caller: &String, reason: &String, now: u64) -> (r: u8)
        requires
            old(self).wf(),
            old(self).spec_is_admin(caller@),
        ensures
            final(self).wf(),
            r as int == crate::admin::staked_seats(old(self).seats@),
            final(self).game_state == GameState::WaitingForPlayers,
            final(self).current_player_seat is None,
            final(self).total_supply as int == old(self).total_supply as int
                + crate::contract::staked_total(old(self).seats@),
            forall|id: Seq<char>| #[trigger]
                balance_of(final(self).accounts@, id) == balance_of(old(self).accounts@, id)
                    + crate::admin::refund_for(old(self).seats@, id),
    {
        crate::admin::emergency_refund(self, reason, now)
    }

    /// Remove every player idle beyond `timeout_ms`; only an admin may
    /// call this.
    pub fn sweep_inactive(&mut self, caller: &String, timeout_ms: u64, now: u64) -> (r: u8)
        requires
            old(self).wf(),
            old(self).spec_is_admin(caller@),
        ensures
            final(self).wf(),
            r as int == crate::admin::idle_seats(old(self).seats@, timeout_ms, now),
            forall|j: int|
                0 <= j < old(self).seats@.len() ==> final(self).seats@[j] == (
                if crate::admin::seat_idle(old(self).seats@[j], timeout_ms, now) {
                    None
                } else {
                    old(self).seats@[j]
                }),
    {
        crate::admin::sweep_inactive_players(self, timeout_ms, now)
    }

    /// Clear one seat's processed signals after a completed round; only
    /// an admin may call this, and never for a future round.
    pub fn cleanup_round_signals(&mut self, caller: &String, seat_number: u8, round_number: u64)
        requires
            old(self).wf(),
            old(self).spec_is_admin(caller@),
            round_number >= old(self).round_number,
            1 <= seat_number <= SEAT_COUNT,
        ensures
            final(self).wf(),
            final(self).pending_bets@.len() == old(self).pending_bets@.len(),
            final(self).pending_moves@.len() == old(self).pending_moves@.len(),
            (final(self).pending_bets@[seat_number - 1])@.len() == 0,
            (final(self).pending_moves@[seat_number - 1])@.len() == 0,
            forall|j: int|
                0 <= j < old(self).pending_bets@.len() && j != seat_number - 1
                    ==> final(self).pending_bets@[j] == old(self).pending_bets@[j],
            forall|j: int|
                0 <= j < old(self).pending_moves@.len() && j != seat_number - 1
                    ==> final(self).pending_moves@[j] == old(self).pending_moves@[j],
            final(self).seats == old(self).seats,
            final(self).accounts == old(self).accounts,
            final(self).total_supply == old(self).total_supply,
            final(self).game_state == old(self).game_state,
            final(self).round_number == old(self).round_number,
            final(self).current_player_seat == old(self).current_player_seat,
            final(self).blackjack_stats == old(self).blackjack_stats,
            final(self).last_activity == old(self).last_activity,
            same_counters(*old(self), *final(self)),
            same_token_config(*old(self), *final(self)),
            same_surroundings(*old(self), *final(self)),
    {
        let si = (seat_number - 1) as usize;
        self.pending_bets.set(si, Vec::new());
        self.pending_moves.set(si, Vec::new());
    }

    /// Pause every state-changing operation; only the owner may call
    /// this.
    pub fn global_pause(&mut self, caller: &String, reason: String)
        requires
            old(self).wf(),
            old(self).spec_is_owner(caller@),
        ensures
            final(self).wf(),
            final(self).spec_paused(),
            final(self).is_globally_paused == Some(true),
            final(self).pause_reason == Some(reason),
            same_game(*old(self), *final(self)),
            same_counters(*old(self), *final(self)),
            same_token_config(*old(self), *final(self)),
            final(self).accounts == old(self).accounts,
            final(self).total_supply == old(self).total_supply,
            final(self).blackjack_stats == old(self).blackjack_stats,
            final(self).last_activity == old(self).last_activity,
            final(self).game_created_at == old(self).game_created_at,
            final(self).game_config == old(self).game_config,
            final(self).game_tables == old(self).game_tables,
            final(self).next_table_serial == old(self).next_table_serial,
            final(self).owner_id == old(self).owner_id,
            final(self).game_admins == old(self).game_admins,
    {
        self.is_globally_paused = Some(true);
        self.pause_reason = Some(reason);
    }

    /// Lift the global pause; only the owner may call this.
    pub fn global_resume(&mut self, caller: &String)
        requires
            old(self).wf(),
            old(self).spec_is_owner(caller@),
        ensures
            final(self).wf(),
            !final(self).spec_paused(),
            final(self).is_globally_paused == Some(false),
            final(self).pause_reason is None,
            same_game(*old(self), *final(self)),
            same_counters(*old(self), *final(self)),
            same_token_config(*old(self), *final(self)),
            final(self).accounts == old(self).accounts,
            final(self).total_supply == old(self).total_supply,
            final(self).blackjack_stats == old(self).blackjack_stats,
            final(self).last_activity == old(self).last_activity,
            final(self).game_created_at == old(self).game_created_at,
            final(self).game_config == old(self).game_config,
            final(self).game_tables == old(self).game_tables,
            final(self).next_table_serial == old(self).next_table_serial,
            final(self).owner_id == old(self).owner_id,
            final(self).game_admins == old(self).game_admins,
    {
        self.is_globally_paused = Some(false);
        self.pause_reason = None;
    }

    /// Whether `account_id` holds at least `amount` chips.
    pub fn has_sufficient_balance(&self, account_id: &String, amount: u128) -> (r: bool)
        requires
            self.wf(),
        ensures
            r == (balance_of(self.accounts@, account_id@) >= amount as int),
    {
        crate::tokens::get_balance(self, account_id) >= amount
    }

    /// Snapshot of the seat game for clients.
    pub fn get_game_state(&self) -> (r: GameStateView)
        requires
            self.wf(),
        ensures
            r.state == self.game_state,
            r.round_number == self.round_number,
            r.current_player_seat == self.current_player_seat,
            r.available_seats@ == available_seats_seq(self.seats@),
            r.occupied_seats@ == occupied_seats_seq(self.seats@),
    {
        GameStateView {
            state: self.game_state,
            round_number: self.round_number,
            current_player_seat: self.current_player_seat,
            available_seats: self.get_available_seats(),
            occupied_seats: self.get_occupied_seats(),
        }
    }

    /// The view of the player at `seat_number`, if occupied.
    pub fn get_seat_player(&self, seat_number: u8, now: u64) -> (r: Option<PlayerView>)
        requires
            self.wf(),
        ensures
            match r {
                Some(v) => 1 <= seat_number <= SEAT_COUNT && (self.seats@[seat_number
                    - 1] matches Some(p) && view_matches(v, p, seat_number, *self, now)),
                None => !(1 <= seat_number <= SEAT_COUNT) || self.seats@[seat_number - 1] is None,
            },
    {
        if seat_number < 1 || seat_number > 3 {
            return None;
        }
        match &self.seats[(seat_number - 1) as usize] {
            Some(p) => {
                let is_current = match self.current_player_seat {
                    Some(t) => t == seat_number,
                    None => false,
                };
                let time_since = if now >= p.last_action_time {
                    (now - p.last_action_time) / 1_000_000_000
                } else {
                    0
                };
                Some(
                    PlayerView {
                        account_id: p.account_id.clone(),
                        seat_number: p.seat_number,
                        state: p.state,
                        current_hand_index: p.current_hand_index,
                        hands: crate::player::clone_hands(&p.hands),
                        total_burned_this_round: p.total_burned_this_round,
                        time_since_last_action: time_since,
                        is_current_player: is_current,
                    },
                )
            },
            None => None,
        }
    }

    /// Views of every occupied seat, in seat order.
    pub fn get_all_players(&self, now: u64) -> (r: Vec<PlayerView>)
        requires
            self.wf(),
        ensures
            forall|k: int|
                0 <= k < r@.len() ==> 1 <= (#[trigger] r@[k]).seat_number <= SEAT_COUNT
                    && (self.seats@[r@[k].seat_number - 1] matches Some(p) && view_matches(
                    r@[k],
                    p,
                    r@[k].seat_number,
                    *self,
                    now,
                )),
            forall|s: int|
                0 <= s < self.seats@.len() && (#[trigger] self.seats@[s]) is Some ==> exists|
                    k: int,
                | 0 <= k < r@.len() && (#[trigger] r@[k]).seat_number == s + 1,
    {
        let mut r: Vec<PlayerView> = Vec::new();
        match self.get_seat_player(1, now) {
            Some(v) => {
                r.push(v);
            },
            None => {},
        }
        match self.get_seat_player(2, now) {
            Some(v) => {
                r.push(v);
            },
            None => {},
        }
        match self.get_seat_player(3, now) {
            Some(v) => {
                r.push(v);
            },
            None => {},
        }
        proof {
            if self.seats@[0] is Some {
                assert(r@[0].seat_number == 1);
            }
            if self.seats@[1] is Some {
                let k: int = if self.seats@[0] is Some {
                    1
                } else {
                    0
                };
                assert(r@[k].seat_number == 2);
            }
            if self.seats@[2] is Some {
                let k: int = (if self.seats@[0] is Some {
                    1int
                } else {
                    0int
                }) + (if self.seats@[1] is Some {
                    1int
                } else {
                    0int
                });
                assert(r@[k].seat_number == 3);
            }
        }
        r
    }

    /// The pending bet signals of one seat, for backend polling.
    pub fn get_bets_signals(&self, seat_number: u8) -> (r: Vec<BetSignal>)
        requires
            self.wf(),
        ensures
            1 <= seat_number <= SEAT_COUNT ==> r@ == self.pending_bets@[seat_number - 1]@,
            !(1 <= seat_number <= SEAT_COUNT) ==> r@.len() == 0,
    {
        if seat_number < 1 || seat_number > 3 {
            return Vec::new();
        }
        clone_bet_signals(&self.pending_bets[(seat_number - 1) as usize])
    }

    /// The pending move signals of one seat, for backend polling.
    pub fn get_moves_signals(&self, seat_number: u8) -> (r: Vec<MoveSignal>)
        requires
            self.wf(),
        ensures
            1 <= seat_number <= SEAT_COUNT ==> r@ == self.pending_moves@[seat_number - 1]@,
            !(1 <= seat_number <= SEAT_COUNT) ==> r@.len() == 0,
    {
        if seat_number < 1 || seat_number > 3 {
            return Vec::new();
        }
        clone_move_signals(&self.pending_moves[(seat_number - 1) as usize])
    }

    /// The game statistics.
    pub fn get_blackjack_stats(&self) -> (r: &crate::contract::BlackjackStats)
        ensures
            *r == self.blackjack_stats,
    {
        &self.blackjack_stats
    }

    /// The free seat numbers, ascending.
    pub fn get_available_seats(&self) -> (r: Vec<u8>)
        requires
            self.wf(),
        ensures
            r@ == available_seats_seq(self.seats@),
    {
        let mut r: Vec<u8> = Vec::new();
        if self.seats[0].is_none() {
            r.push(1);
        }
        if self.seats[1].is_none() {
            r.push(2);
        }
        if self.seats[2].is_none() {
            r.push(3);
        }
        proof {
            assert(r@ =~= available_seats_seq(self.seats@));
        }
        r
    }

    /// The taken seat numbers, ascending.
    pub fn get_occupied_seats(&self) -> (r: Vec<u8>)
        requires
            self.wf(),
        ensures
            r@ == occupied_seats_seq(self.seats@),
    {
        let mut r: Vec<u8> = Vec::new();
        if self.seats[0].is_some() {
            r.push(1);
        }
        if self.seats[1].is_some() {
            r.push(2);
        }
        if self.seats[2].is_some() {
            r.push(3);
        }
        proof {
            assert(r@ =~= occupied_seats_seq(self.seats@));
        }
        r
    }
}

} // verus!
