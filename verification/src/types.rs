//! Core data model: game phases, player and hand records, signals and
//! configuration.
//!
//! Account identities are plain strings and timestamps are nanoseconds;
//! the host that knows the caller and the clock hands both in as
//! arguments, so everything here is plain data.

use vstd::prelude::*;

verus! {

/// Phase of the round lifecycle.
#[derive(Clone, Copy, Debug, PartialEq, Eq, Structural)]
pub enum GameState {
    WaitingForPlayers,
    Betting,
    DealingInitialCards,
    PlayerTurn,
    DealerTurn,
    RoundEnded,
}

impl GameState {
    /// The phases in which a departing player's stake is handed back.
    pub open spec fn is_refund_phase(self) -> bool {
        self == GameState::Betting || self == GameState::WaitingForPlayers
    }
}

/// State of one seated player.
#[derive(Clone, Copy, Debug, PartialEq, Eq, Structural)]
pub enum PlayerState {
    WaitingForNextRound,
    Active,
    SittingOut,
    Observing,
    AwaitingBuyIn,
}

/// A move a player can signal during their turn.
#[derive(Clone, Copy, Debug, PartialEq, Eq, Structural)]
pub enum PlayerMove {
    Hit,
    Stand,
    Double,
    Split,
}

/// Outcome of one hand, written once by settlement.
#[derive(Clone, Copy, Debug, PartialEq, Eq, Structural)]
pub enum HandResult {
    Blackjack,
    Win,
    Push,
    Bust,
    Lose,
}

/// Which kind of stake a burn record accounts for.
#[derive(Clone, Copy, Debug, PartialEq, Eq, Structural)]
pub enum BurnType {
    Bet,
    Double,
    Split,
}

/// One hand of a seated player; a player holds a second hand only after
/// a split.
#[derive(Clone, Copy, Debug)]
pub struct PlayerHand {
    /// 1 for the first hand, 2 for the split hand.
    pub hand_index: u8,
    pub bet_amount: u128,
    /// Set by stand and double; a finished hand takes no further move.
    pub is_finished: bool,
    pub has_doubled: bool,
    pub has_split: bool,
    /// Cleared by stand and double.
    pub can_hit: bool,
    /// None until settlement writes the outcome.
    pub result: Option<HandResult>,
}

impl PlayerHand {
    /// A fresh, unfinished hand staked with `amount`.
    pub open spec fn spec_new(index: u8, amount: u128) -> PlayerHand {
        PlayerHand {
            hand_index: index,
            bet_amount: amount,
            is_finished: false,
            has_doubled: false,
            has_split: false,
            can_hit: true,
            result: None,
        }
    }

    pub fn new(index: u8, amount: u128) -> (h: PlayerHand)
        ensures
            h == PlayerHand::spec_new(index, amount),
    {
        PlayerHand {
            hand_index: index,
            bet_amount: amount,
            is_finished: false,
            has_doubled: false,
            has_split: false,
            can_hit: true,
            result: None,
        }
    }
}

/// One stake-burning step of the current round.
#[derive(Clone, Copy, Debug)]
pub struct BurnRecord {
    pub burn_type: BurnType,
    pub amount: u128,
    pub hand_index: u8,
    pub timestamp: u64,
}

/// The occupant of one seat.
#[derive(Debug)]
pub struct SeatPlayer {
    pub account_id: String,
    /// 1-based seat number.
    pub seat_number: u8,
    pub state: PlayerState,
    /// 1 or 2; 2 only while playing the split hand.
    pub current_hand_index: u8,
    /// At most two hands; two exactly when the first hand split.
    pub hands: Vec<PlayerHand>,
    /// Everything this player burned for the current round.
    pub total_burned_this_round: u128,
    /// One record per burn of the current round.
    pub burns_tracking: Vec<BurnRecord>,
    pub joined_at: u64,
    pub last_action_time: u64,
    pub rounds_played: u32,
}

/// Sum of the bet amounts of a sequence of hands.
pub open spec fn hands_total(s: Seq<PlayerHand>) -> int {
    crate::model::sum_by(s, |h: PlayerHand| h.bet_amount as int)
}

/// Sum of the amounts of a sequence of burn records.
pub open spec fn burns_total(s: Seq<BurnRecord>) -> int {
    crate::model::sum_by(s, |b: BurnRecord| b.amount as int)
}

impl SeatPlayer {
    /// Internal consistency of one seated player:
    /// - at most two hands, numbered 1 and 2 in order, and a second hand
    ///   exists exactly when the first one split;
    /// - a finished hand can no longer hit;
    /// - the current-hand pointer names an existing hand (or 1 while no
    ///   hand is held);
    /// - the stake counter equals the total bet across hands and the
    ///   total of the burn records.
    pub open spec fn wf(self) -> bool {
        &&& self.hands.len() <= 2
        &&& forall|k: int|
            0 <= k < self.hands.len() ==> (#[trigger] self.hands[k]).hand_index == k + 1
        &&& forall|k: int|
            0 <= k < self.hands.len() ==> ((#[trigger] self.hands[k]).is_finished ==> !self.hands[
                k
            ].can_hit)
        &&& (self.hands.len() == 2 <==> self.hands.len() >= 1 && self.hands[0].has_split)
        &&& self.hands.len() == 2 ==> !self.hands[1].has_split
        &&& 1 <= self.current_hand_index <= 2
        &&& self.hands.len() > 0 ==> self.current_hand_index <= self.hands.len()
        &&& self.total_burned_this_round == hands_total(self.hands@)
        &&& self.total_burned_this_round == burns_total(self.burns_tracking@)
    }

    /// A player record as it stands right after joining or after a
    /// round reset: no hands, no stake.
    pub open spec fn round_cleared(self) -> bool {
        &&& self.hands@ =~= Seq::<PlayerHand>::empty()
        &&& self.burns_tracking@ =~= Seq::<BurnRecord>::empty()
        &&& self.total_burned_this_round == 0
        &&& self.current_hand_index == 1
    }
}

/// A player's intent to stake chips, queued for the backend.
#[derive(Debug)]
pub struct BetSignal {
    pub player_account: String,
    pub seat_number: u8,
    pub amount: u128,
    pub burn_type: BurnType,
    pub hand_index: u8,
    pub timestamp: u64,
}

impl Clone for BetSignal {
    fn clone(&self) -> (r: Self)
        ensures
            r == *self,
    {
        BetSignal {
            player_account: self.player_account.clone(),
            seat_number: self.seat_number,
            amount: self.amount,
            burn_type: self.burn_type,
            hand_index: self.hand_index,
            timestamp: self.timestamp,
        }
    }
}

/// A player's intent to move, queued for the backend.
#[derive(Debug)]
pub struct MoveSignal {
    pub player_account: String,
    pub seat_number: u8,
    pub move_type: PlayerMove,
    pub hand_index: u8,
    pub timestamp: u64,
}

impl Clone for MoveSignal {
    fn clone(&self) -> (r: Self)
        ensures
            r == *self,
    {
        MoveSignal {
            player_account: self.player_account.clone(),
            seat_number: self.seat_number,
            move_type: self.move_type,
            hand_index: self.hand_index,
            timestamp: self.timestamp,
        }
    }
}

/// One player's share of a settlement batch.
#[derive(Debug)]
pub struct PlayerWinning {
    pub account_id: String,
    pub seat_number: u8,
    pub bet_amount: u128,
    /// Amount to mint, bet return included.
    pub winnings: u128,
    pub result: HandResult,
    pub hand_index: u8,
}

/// A settlement batch the backend submits once per round.
#[derive(Debug)]
pub struct WinningsDistribution {
    pub round_number: u64,
    pub distributions: Vec<PlayerWinning>,
    pub timestamp: u64,
    pub total_minted: u128,
}

/// Read-only projection of one seated player.
#[derive(Debug)]
pub struct PlayerView {
    pub account_id: String,
    pub seat_number: u8,
    pub state: PlayerState,
    pub current_hand_index: u8,
    pub hands: Vec<PlayerHand>,
    pub total_burned_this_round: u128,
    /// Seconds since the player's last action.
    pub time_since_last_action: u64,
    pub is_current_player: bool,
}

/// Game-wide configuration, mutable only through the admin path.
#[derive(Clone, Copy, Debug)]
pub struct GameConfig {
    pub betting_timeout_ms: u64,
    pub move_timeout_ms: u64,
    pub round_break_ms: u64,
    pub max_inactive_time_ms: u64,
    pub min_bet_amount: u128,
    pub max_bet_amount: u128,
    pub auto_start_delay_ms: u64,
    pub max_players: Option<u8>,
}

impl GameConfig {
    pub open spec fn spec_default() -> GameConfig {
        GameConfig {
            betting_timeout_ms: 45_000,
            move_timeout_ms: 30_000,
            round_break_ms: 5_000,
            max_inactive_time_ms: 180_000,
            min_bet_amount: 10,
            max_bet_amount: 1000,
            auto_start_delay_ms: 20_000,
            max_players: Some(3),
        }
    }
}

impl Default for GameConfig {
    fn default() -> (c: GameConfig)
        ensures
            c == GameConfig::spec_default(),
    {
        GameConfig {
            betting_timeout_ms: 45_000,
            move_timeout_ms: 30_000,
            round_break_ms: 5_000,
            max_inactive_time_ms: 180_000,
            min_bet_amount: 10,
            max_bet_amount: 1000,
            auto_start_delay_ms: 20_000,
            max_players: Some(3),
        }
    }
}

/// Why a game action was rejected.
#[derive(Clone, Copy, Debug, PartialEq, Eq, Structural)]
pub enum GameError {
    SeatOccupied,
    InvalidSeatNumber,
    PlayerNotFound,
    InvalidGameState,
    InvalidMove,
    InsufficientTokens,
    BetTooLow,
    BetTooHigh,
    NotPlayerTurn,
    AlreadyBet,
    TimeoutExpired,
    NotAuthorized,
}

impl GameError {
    /// A human-readable description of the rejection.
    pub fn message(&self) -> &'static str {
        match self {
            GameError::SeatOccupied => "Seat is already occupied",
            GameError::InvalidSeatNumber => "Invalid seat number (must be 1-3)",
            GameError::PlayerNotFound => "Player not found at seat",
            GameError::InvalidGameState => "Invalid game state for this action",
            GameError::InvalidMove => "Invalid move for current situation",
            GameError::InsufficientTokens => "Insufficient token balance",
            GameError::BetTooLow => "Bet amount too low",
            GameError::BetTooHigh => "Bet amount too high",
            GameError::NotPlayerTurn => "Not your turn",
            GameError::AlreadyBet => "Already placed bet this round",
            GameError::TimeoutExpired => "Action timeout expired",
            GameError::NotAuthorized => "Not authorized for this action",
        }
    }
}

} // verus!
