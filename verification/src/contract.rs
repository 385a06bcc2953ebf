//! The contract aggregate: the chip ledger, the three fixed seats with
//! their signal queues, the round state machine, the table registry and
//! the authorization data.

use vstd::prelude::*;

use crate::model::sum_by;
use crate::table::{tables_wf, GameTable};
use crate::tokens::{
    accounts_unique, deposits_unique, has_account, sum_balances, AccountRecord, ContractConfig,
    DepositRecord,
};
use crate::types::{GameConfig, GameState, PlayerState, SeatPlayer};
use crate::types::{BetSignal, MoveSignal};

verus! {

/// Number of fixed seats.
pub const SEAT_COUNT: usize = 3;

/// Game-wide statistics.
#[derive(Clone, Copy, Debug)]
pub struct BlackjackStats {
    pub total_games_played: u64,
    pub total_hands_dealt: u64,
    pub total_tokens_burned_betting: u128,
    pub total_winnings_distributed: u128,
    pub total_players_joined: u64,
}

impl BlackjackStats {
    pub open spec fn spec_default() -> BlackjackStats {
        BlackjackStats {
            total_games_played: 0,
            total_hands_dealt: 0,
            total_tokens_burned_betting: 0,
            total_winnings_distributed: 0,
            total_players_joined: 0,
        }
    }
}

impl Default for BlackjackStats {
    fn default() -> (s: BlackjackStats)
        ensures
            s == BlackjackStats::spec_default(),
    {
        BlackjackStats {
            total_games_played: 0,
            total_hands_dealt: 0,
            total_tokens_burned_betting: 0,
            total_winnings_distributed: 0,
            total_players_joined: 0,
        }
    }
}

/// Contract build information.
#[derive(Debug)]
pub struct ContractMetadata {
    pub version: String,
    pub link: Option<String>,
    pub build_info: Option<String>,
}

/// Snapshot of the seat-based game for clients.
#[derive(Debug)]
pub struct GameStateView {
    pub state: GameState,
    pub round_number: u64,
    pub current_player_seat: Option<u8>,
    pub available_seats: Vec<u8>,
    pub occupied_seats: Vec<u8>,
}

/// Why a ledger operation was rejected.
#[derive(Clone, Copy, Debug, PartialEq, Eq, Structural)]
pub enum ContractError {
    InsufficientStorage,
    InsufficientBalance,
    UserNotFound,
    InvalidAmount,
    OperationPaused,
    Overflow,
    Underflow,
}

impl ContractError {
    /// A human-readable description of the rejection.
    pub fn message(&self) -> &'static str {
        match self {
            ContractError::InsufficientStorage => "Insufficient storage deposit",
            ContractError::InsufficientBalance => "Insufficient token balance",
            ContractError::UserNotFound => "User account not found",
            ContractError::InvalidAmount => "Invalid amount specified",
            ContractError::OperationPaused => "Contract operations are paused",
            ContractError::Overflow => "Arithmetic overflow",
            ContractError::Underflow => "Arithmetic underflow",
        }
    }
}

/// The stake held by one seat; zero for an empty seat.
pub open spec fn seat_stake(o: Option<SeatPlayer>) -> int {
    match o {
        Some(p) => p.total_burned_this_round as int,
        None => 0,
    }
}

/// Total of all stakes committed to the current round and not yet
/// settled or refunded.
pub open spec fn staked_total(s: Seq<Option<SeatPlayer>>) -> int {
    sum_by(s, |o: Option<SeatPlayer>| seat_stake(o))
}

/// The whole game/ledger state, one value fetched, mutated and written
/// back per call.
pub struct CardsContract {
    // Chip ledger.
    pub total_supply: u128,
    pub total_cards_claimed: u128,
    pub total_cards_purchased: u128,
    pub total_cards_burned: u128,
    pub accounts: Vec<AccountRecord>,
    pub storage_deposits: Vec<DepositRecord>,
    pub config: ContractConfig,
    // Seat-based game.
    pub seats: Vec<Option<SeatPlayer>>,
    pub pending_bets: Vec<Vec<BetSignal>>,
    pub pending_moves: Vec<Vec<MoveSignal>>,
    pub game_state: GameState,
    /// The round now being played; starts at 1.
    pub round_number: u64,
    pub current_player_seat: Option<u8>,
    pub game_created_at: u64,
    pub last_activity: u64,
    pub game_config: GameConfig,
    pub blackjack_stats: BlackjackStats,
    // Table registry.
    pub game_tables: Vec<GameTable>,
    /// Counter feeding generated table ids.
    pub next_table_serial: u64,
    // Authorization.
    pub owner_id: String,
    pub game_admins: Vec<String>,
    // Global pause.
    pub is_globally_paused: Option<bool>,
    pub pause_reason: Option<String>,
}

impl CardsContract {
    /// Consistency of the fixed seats: three seats and one signal queue
    /// pair; every occupant is well formed, sits where their record
    /// says, and no identity sits twice; every staked occupant is a
    /// registered account.
    pub open spec fn seats_wf(self) -> bool {
        &&& self.seats@.len() == SEAT_COUNT as int
        &&& self.pending_bets@.len() == SEAT_COUNT as int
        &&& self.pending_moves@.len() == SEAT_COUNT as int
        &&& forall|i: int|
            0 <= i < self.seats@.len() ==> match #[trigger] self.seats@[i] {
                Some(p) => p.wf() && p.seat_number == i + 1,
                None => true,
            }
        &&& forall|i: int, j: int|
            #![trigger self.seats@[i], self.seats@[j]]
            0 <= i < self.seats@.len() && 0 <= j < self.seats@.len() && i != j ==> match (
            self.seats@[i],
            self.seats@[j],
            ) {
                (Some(p), Some(q)) => p.account_id@ != q.account_id@,
                _ => true,
            }
        &&& forall|i: int|
            0 <= i < self.seats@.len() ==> match #[trigger] self.seats@[i] {
                Some(p) => p.total_burned_this_round > 0 ==> has_account(
                    self.accounts@,
                    p.account_id@,
                ),
                None => true,
            }
    }

    /// The turn pointer names an occupied seat whose player is active
    /// and staked.
    pub open spec fn turn_wf(self) -> bool {
        match self.current_player_seat {
            Some(s) => 1 <= s <= SEAT_COUNT as int && match self.seats@[s - 1] {
                Some(p) => p.state == PlayerState::Active && p.total_burned_this_round > 0,
                None => false,
            },
            None => true,
        }
    }

    /// Ledger consistency: identities unique, the supply counter equal
    /// to the sum of all balances, enough headroom to refund every
    /// outstanding stake, and the betting-burn statistic covering the
    /// outstanding stakes.
    pub open spec fn ledger_wf(self) -> bool {
        &&& accounts_unique(self.accounts@)
        &&& deposits_unique(self.storage_deposits@)
        &&& self.total_supply as int == sum_balances(self.accounts@)
        &&& self.total_supply as int + staked_total(self.seats@) <= u128::MAX as int
        &&& self.blackjack_stats.total_tokens_burned_betting as int >= staked_total(self.seats@)
    }

    /// The contract-wide invariant every operation preserves.
    pub open spec fn wf(self) -> bool {
        &&& self.seats_wf()
        &&& self.turn_wf()
        &&& self.ledger_wf()
        &&& tables_wf(self.game_tables@)
    }

    pub open spec fn spec_is_owner(self, caller: Seq<char>) -> bool {
        self.owner_id@ == caller
    }

    pub open spec fn spec_is_admin(self, caller: Seq<char>) -> bool {
        self.spec_is_owner(caller) || exists|i: int|
            0 <= i < self.game_admins@.len() && (#[trigger] self.game_admins@[i])@ == caller
    }

    pub open spec fn spec_paused(self) -> bool {
        self.is_globally_paused == Some(true)
    }

    /// Whether `caller` is the contract owner.
    pub fn is_owner(&self, caller: &String) -> (r: bool)
        ensures
            r == self.spec_is_owner(caller@),
    {
        self.owner_id == *caller
    }

    /// Whether `caller` is the owner or a registered game admin.
    pub fn is_admin(&self, caller: &String) -> (r: bool)
        ensures
            r == self.spec_is_admin(caller@),
    {
        if self.owner_id == *caller {
            return true;
        }
        let mut k: usize = 0;
        while k < self.game_admins.len()
            invariant
                k <= self.game_admins@.len(),
                forall|j: int| 0 <= j < k ==> (#[trigger] self.game_admins@[j])@ != caller@,
            decreases self.game_admins@.len() - k,
        {
            if self.game_admins[k] == *caller {
                return true;
            }
            k += 1;
        }
        false
    }

    /// Whether the contract is globally paused.
    pub fn is_paused(&self) -> (r: bool)
        ensures
            r == self.spec_paused(),
    {
        match self.is_globally_paused {
            Some(b) => b,
            None => false,
        }
    }

    /// The position of `id` in the ledger, when registered.
    pub fn account_index(&self, id: &String) -> (r: Option<usize>)
        ensures
            match r {
                Some(i) => i < self.accounts@.len() && self.accounts@[i as int].account_id@ == id@,
                None => !has_account(self.accounts@, id@),
            },
    {
        let mut k: usize = 0;
        while k < self.accounts.len()
            invariant
                k <= self.accounts@.len(),
                forall|j: int| 0 <= j < k ==> (#[trigger] self.accounts@[j]).account_id@ != id@,
            decreases self.accounts@.len() - k,
        {
            if self.accounts[k].account_id == *id {
                return Some(k);
            }
            k += 1;
        }
        None
    }

    /// The position of `id` among the storage deposits, when one exists.
    pub fn deposit_index(&self, id: &String) -> (r: Option<usize>)
        ensures
            match r {
                Some(i) => i < self.storage_deposits@.len() && self.storage_deposits@[
                    i as int
                ].account_id@ == id@,
                None => !crate::tokens::has_deposit(self.storage_deposits@, id@),
            },
    {
        let mut k: usize = 0;
        while k < self.storage_deposits.len()
            invariant
                k <= self.storage_deposits@.len(),
                forall|j: int|
                    0 <= j < k ==> (#[trigger] self.storage_deposits@[j]).account_id@ != id@,
            decreases self.storage_deposits@.len() - k,
        {
            if self.storage_deposits[k].account_id == *id {
                return Some(k);
            }
            k += 1;
        }
        None
    }

    /// Contract build information.
    pub fn get_contract_metadata(&self) -> ContractMetadata {
        ContractMetadata {
            version: "0.1.3".to_owned(),
            link: Some("https://warsofcards.online/".to_owned()),
            build_info: Some("Rebels Blocks".to_owned()),
        }
    }
}

/// `b` agrees with `a` on every seat-game field.
pub open spec fn same_game(a: CardsContract, b: CardsContract) -> bool {
    &&& b.seats == a.seats
    &&& b.pending_bets == a.pending_bets
    &&& b.pending_moves == a.pending_moves
    &&& b.game_state == a.game_state
    &&& b.round_number == a.round_number
    &&& b.current_player_seat == a.current_player_seat
}

/// `b` agrees with `a` on the registry, configuration and authorization
/// fields that only their own operations touch.
pub open spec fn same_surroundings(a: CardsContract, b: CardsContract) -> bool {
    &&& b.game_created_at == a.game_created_at
    &&& b.game_config == a.game_config
    &&& b.game_tables == a.game_tables
    &&& b.next_table_serial == a.next_table_serial
    &&& b.owner_id == a.owner_id
    &&& b.game_admins == a.game_admins
    &&& b.is_globally_paused == a.is_globally_paused
    &&& b.pause_reason == a.pause_reason
}

/// `b` agrees with `a` on the ledger configuration and the storage
/// deposits.
pub open spec fn same_token_config(a: CardsContract, b: CardsContract) -> bool {
    &&& b.config == a.config
    &&& b.storage_deposits == a.storage_deposits
}

/// `b` agrees with `a` on the cumulative mint/burn counters.
pub open spec fn same_counters(a: CardsContract, b: CardsContract) -> bool {
    &&& b.total_cards_claimed == a.total_cards_claimed
    &&& b.total_cards_purchased == a.total_cards_purchased
    &&& b.total_cards_burned == a.total_cards_burned
}

/// Initial contract state: empty ledger, three empty seats, round 1,
/// waiting for players; the owner is the first admin.
pub open spec fn initial_contract(c: CardsContract, owner: Seq<char>, now: u64) -> bool {
    &&& c.total_supply == 0
    &&& c.total_cards_claimed == 0
    &&& c.total_cards_purchased == 0
    &&& c.total_cards_burned == 0
    &&& c.accounts@.len() == 0
    &&& c.storage_deposits@.len() == 0
    &&& crate::tokens::is_default_config(c.config)
    &&& c.seats@ =~= seq![None::<SeatPlayer>, None::<SeatPlayer>, None::<SeatPlayer>]
    &&& forall|i: int| 0 <= i < SEAT_COUNT as int ==> (#[trigger] c.pending_bets@[i])@.len() == 0
    &&& forall|i: int| 0 <= i < SEAT_COUNT as int ==> (#[trigger] c.pending_moves@[i])@.len() == 0
    &&& c.game_state == GameState::WaitingForPlayers
    &&& c.round_number == 1
    &&& c.current_player_seat is None
    &&& c.game_created_at == now
    &&& c.last_activity == now
    &&& c.game_config == GameConfig::spec_default()
    &&& c.blackjack_stats == BlackjackStats::spec_default()
    &&& c.game_tables@.len() == 0
    &&& c.next_table_serial == 1
    &&& c.owner_id@ == owner
    &&& c.game_admins@.len() == 1 && c.game_admins@[0]@ == owner
    &&& c.is_globally_paused == Some(false)
    &&& c.pause_reason is None
}

impl CardsContract {
    /// Initialize the contract with `owner_id` as owner and first admin.
    pub fn new(owner_id: String, now: u64) -> (c: CardsContract)
        ensures
            c.wf(),
            initial_contract(c, owner_id@, now),
            !c.spec_paused(),
            c.spec_is_admin(owner_id@),
    {
        let mut seats: Vec<Option<SeatPlayer>> = Vec::new();
        seats.push(None);
        seats.push(None);
        seats.push(None);
        let mut pending_bets: Vec<Vec<BetSignal>> = Vec::new();
        pending_bets.push(Vec::new());
        pending_bets.push(Vec::new());
        pending_bets.push(Vec::new());
        let mut pending_moves: Vec<Vec<MoveSignal>> = Vec::new();
        pending_moves.push(Vec::new());
        pending_moves.push(Vec::new());
        pending_moves.push(Vec::new());
        let mut game_admins: Vec<String> = Vec::new();
        game_admins.push(owner_id.clone());
        let c = CardsContract {
            total_supply: 0,
            total_cards_claimed: 0,
            total_cards_purchased: 0,
            total_cards_burned: 0,
            accounts: Vec::new(),
            storage_deposits: Vec::new(),
            config: ContractConfig::default(),
            seats,
            pending_bets,
            pending_moves,
            game_state: GameState::WaitingForPlayers,
            round_number: 1,
            current_player_seat: None,
            game_created_at: now,
            last_activity: now,
            game_config: GameConfig::default(),
            blackjack_stats: BlackjackStats::default(),
            game_tables: Vec::new(),
            next_table_serial: 1,
            owner_id,
            game_admins,
            is_globally_paused: Some(false),
            pause_reason: None,
        };
        proof {
            crate::model::lemma_sum_by_zero(
                c.seats@,
                |o: Option<SeatPlayer>| seat_stake(o),
            );
            crate::model::lemma_sum_by_zero(
                c.accounts@,
                |r: AccountRecord| r.data.balance as int,
            );
        }
        c
    }
}

} // verus!
