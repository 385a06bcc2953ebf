//! The table registry: named tables, each an owned aggregate of its
//! players, phase, deadlines and signal queues.

use vstd::prelude::*;

use vstd::string::StringExecFns;

use crate::contract::{same_counters, same_game, same_token_config, CardsContract};
use crate::types::{BetSignal, GameState, MoveSignal, PlayerMove, PlayerState};

verus! {

/// One player seated at a registry table.
#[derive(Debug)]
pub struct TablePlayer {
    pub account_id: String,
    /// 1-based seat number within the table.
    pub seat_number: u8,
    pub state: PlayerState,
    /// Chips burned for the current round at this table.
    pub burned_tokens: u128,
    pub pending_move: Option<PlayerMove>,
    pub last_action_time: u64,
}

/// One game table of the registry.
#[derive(Debug)]
pub struct GameTable {
    pub id: String,
    pub state: GameState,
    pub players: Vec<TablePlayer>,
    /// Position in `players` of the player whose turn it is.
    pub current_player_index: Option<u8>,
    /// The round now being played; starts at 1.
    pub round_number: u64,
    pub created_at: u64,
    pub last_activity: u64,
    pub betting_deadline: Option<u64>,
    pub move_deadline: Option<u64>,
    pub max_players: u8,
    pub min_bet: u128,
    pub max_bet: u128,
    pub is_active: bool,
    pub pending_bets: Vec<BetSignal>,
    pub pending_moves: Vec<MoveSignal>,
}

impl GameTable {
    /// Internal consistency of one table:
    /// - each player's seat number fits the table and no two players
    ///   share a seat or an identity;
    /// - the turn pointer names a seated, active player with a nonzero
    ///   stake;
    /// - at most one deadline is set, and only in the phase that defines
    ///   it.
    pub open spec fn wf(self) -> bool {
        &&& self.players@.len() <= self.max_players as int
        &&& forall|i: int|
            0 <= i < self.players@.len() ==> 1 <= (#[trigger] self.players@[i]).seat_number
                <= self.max_players
        &&& forall|i: int, j: int|
            0 <= i < self.players@.len() && 0 <= j < self.players@.len() && i != j ==> (
            #[trigger] self.players@[i]).seat_number != (#[trigger] self.players@[j]).seat_number
        &&& forall|i: int, j: int|
            0 <= i < self.players@.len() && 0 <= j < self.players@.len() && i != j ==> (
            #[trigger] self.players@[i]).account_id@ != (#[trigger] self.players@[j]).account_id@
        &&& match self.current_player_index {
            Some(k) => k < self.players@.len() && self.players@[k as int].state
                == PlayerState::Active && self.players@[k as int].burned_tokens > 0,
            None => true,
        }
        &&& !(self.betting_deadline is Some && self.move_deadline is Some)
        &&& self.betting_deadline is Some ==> self.state == GameState::Betting
        &&& self.move_deadline is Some ==> self.state == GameState::PlayerTurn
    }
}

/// No two tables of the registry share an id.
pub open spec fn tables_unique(s: Seq<GameTable>) -> bool {
    forall|i: int, j: int|
        0 <= i < s.len() && 0 <= j < s.len() && i != j ==> (#[trigger] s[i]).id@ != (
        #[trigger] s[j]).id@
}

/// Every table of the registry is internally consistent.
pub open spec fn tables_wf(s: Seq<GameTable>) -> bool {
    &&& tables_unique(s)
    &&& forall|i: int| 0 <= i < s.len() ==> (#[trigger] s[i]).wf()
}

/// Whether `id` names a registered table.
pub open spec fn has_table(s: Seq<GameTable>, id: Seq<char>) -> bool {
    exists|i: int| 0 <= i < s.len() && (#[trigger] s[i]).id@ == id
}

/// The position of `id` in the registry.
pub open spec fn table_idx(s: Seq<GameTable>, id: Seq<char>) -> int {
    choose|i: int| 0 <= i < s.len() && (#[trigger] s[i]).id@ == id
}

/// With unique ids, any position holding `id` is the position
/// `table_idx` picks.
pub proof fn lemma_table_idx_is(s: Seq<GameTable>, id: Seq<char>, i: int)
    requires
        tables_unique(s),
        0 <= i < s.len(),
        s[i].id@ == id,
    ensures
        has_table(s, id),
        table_idx(s, id) == i,
{
    assert(has_table(s, id));
    let j = table_idx(s, id);
    assert(0 <= j < s.len() && s[j].id@ == id);
}

/// Whether a table player may take the turn: active with a stake.
pub open spec fn tp_eligible(p: TablePlayer) -> bool {
    p.state == PlayerState::Active && p.burned_tokens > 0
}

/// Whether some player of the list may take the turn.
pub open spec fn exists_eligible(players: Seq<TablePlayer>) -> bool {
    exists|k: int| 0 <= k < players.len() && tp_eligible(#[trigger] players[k])
}

/// Whether `id` names a player of the list who may take the turn.
pub open spec fn has_eligible_named(players: Seq<TablePlayer>, id: Seq<char>) -> bool {
    exists|k: int|
        0 <= k < players.len() && (#[trigger] players[k]).account_id@ == id && tp_eligible(
            players[k],
        )
}

/// Whether `seat` is taken at the table.
pub open spec fn seat_taken(players: Seq<TablePlayer>, seat: u8) -> bool {
    exists|k: int| 0 <= k < players.len() && (#[trigger] players[k]).seat_number == seat
}

/// A timestamp `ms` milliseconds after `now`, clamped to the clock's
/// range.
pub open spec fn deadline_after(now: u64, ms: u64) -> u64 {
    if now + ms * 1_000_000 > u64::MAX {
        u64::MAX
    } else {
        (now + ms * 1_000_000) as u64
    }
}

/// Compute a deadline `ms` milliseconds after `now`.
pub fn compute_deadline(now: u64, ms: u64) -> (r: u64)
    ensures
        r == deadline_after(now, ms),
{
    let d: u128 = now as u128 + ms as u128 * 1_000_000;
    if d > u64::MAX as u128 {
        u64::MAX
    } else {
        d as u64
    }
}

/// Whether the table has seen no activity for longer than `timeout_ms`
/// at time `now`.
pub open spec fn table_expired(t: GameTable, timeout_ms: u64, now: u64) -> bool {
    now as int - t.last_activity as int > timeout_ms as int * 1_000_000
}

/// Read-only projection of one table player.
#[derive(Debug)]
pub struct TablePlayerView {
    pub account_id: String,
    pub seat_number: u8,
    pub state: PlayerState,
    pub burned_tokens: u128,
    pub pending_move: Option<PlayerMove>,
    pub time_since_last_action: u64,
    pub is_current_player: bool,
}

/// Read-only projection of one table.
#[derive(Debug)]
pub struct GameTableView {
    pub id: String,
    pub state: GameState,
    pub players: Vec<TablePlayerView>,
    pub current_player_index: Option<u8>,
    pub round_number: u64,
    pub betting_deadline: Option<u64>,
    pub move_deadline: Option<u64>,
    pub available_seats: Vec<u8>,
    pub min_bet: u128,
    pub max_bet: u128,
    pub is_active: bool,
}

/// The decimal digits of `n`, most significant first.
pub open spec fn dec_digits(n: nat) -> Seq<char>
    decreases n,
{
    if n < 10 {
        seq![((48 + n) as u8) as char]
    } else {
        dec_digits(n / 10).push(((48 + n % 10) as u8) as char)
    }
}

/// Relies on `u64`'s `Display` implementation, which writes the number's
/// decimal digits.
#[verifier::external_body]
fn u64_to_decimal(n: u64) -> (r: String)
    ensures
        r@ == dec_digits(n as nat),
{
    format!("{}", n)
}

/// `b` agrees with `a` everywhere but the table registry.
pub open spec fn same_but_tables(a: CardsContract, b: CardsContract) -> bool {
    &&& same_game(a, b)
    &&& same_counters(a, b)
    &&& same_token_config(a, b)
    &&& b.accounts == a.accounts
    &&& b.total_supply == a.total_supply
    &&& b.blackjack_stats == a.blackjack_stats
    &&& b.last_activity == a.last_activity
    &&& b.game_created_at == a.game_created_at
    &&& b.game_config == a.game_config
    &&& b.owner_id == a.owner_id
    &&& b.game_admins == a.game_admins
    &&& b.is_globally_paused == a.is_globally_paused
    &&& b.pause_reason == a.pause_reason
}

/// The position of `table_id` in the registry, when registered.
pub fn find_table_index(c: &CardsContract, table_id: &String) -> (r: Option<usize>)
    requires
        c.wf(),
    ensures
        match r {
            Some(i) => i < c.game_tables@.len() && c.game_tables@[i as int].id@ == table_id@
                && table_idx(c.game_tables@, table_id@) == i as int && has_table(
                c.game_tables@,
                table_id@,
            ),
            None => !has_table(c.game_tables@, table_id@),
        },
{
    let mut k: usize = 0;
    while k < c.game_tables.len()
        invariant
            c.wf(),
            k <= c.game_tables@.len(),
            forall|j: int| 0 <= j < k ==> (#[trigger] c.game_tables@[j]).id@ != table_id@,
        decreases c.game_tables@.len() - k,
    {
        if c.game_tables[k].id == *table_id {
            proof {
                lemma_table_idx_is(c.game_tables@, table_id@, k as int);
            }
            return Some(k);
        }
        k = k + 1;
    }
    None
}

/// The table a fresh creation registers.
pub open spec fn fresh_table(t: GameTable, cfg: crate::types::GameConfig, now: u64) -> bool {
    &&& t.state == GameState::WaitingForPlayers
    &&& t.players@.len() == 0
    &&& t.current_player_index is None
    &&& t.round_number == 1
    &&& t.created_at == now
    &&& t.last_activity == now
    &&& t.betting_deadline is None
    &&& t.move_deadline is None
    &&& t.max_players == (match cfg.max_players {
        Some(m) => m,
        None => 3u8,
    })
    &&& t.min_bet == cfg.min_bet_amount
    &&& t.max_bet == cfg.max_bet_amount
    &&& t.is_active
    &&& t.pending_bets@.len() == 0
    &&& t.pending_moves@.len() == 0
}

/// Register a new table under the given id, or under a generated
/// `table-N` id. Fails (returns `None`, nothing changes) when the id is
/// already taken; on success returns the id.
pub fn create_table(c: &mut CardsContract, table_id: Option<String>, now: u64) -> (r: Option<
    String,
>)
    requires
        old(c).wf(),
    ensures
        final(c).wf(),
        match r {
            Some(id) => {
                &&& id@ == (match table_id {
                    Some(t) => t@,
                    None => "table-"@ + dec_digits(old(c).next_table_serial as nat),
                })
                &&& !has_table(old(c).game_tables@, id@)
                &&& final(c).game_tables@.len() == old(c).game_tables@.len() + 1
                &&& forall|j: int|
                    0 <= j < old(c).game_tables@.len() ==> final(c).game_tables@[j] == old(
                        c,
                    ).game_tables@[j]
                &&& final(c).game_tables@.last().id@ == id@
                &&& fresh_table(final(c).game_tables@.last(), old(c).game_config, now)
                &&& final(c).next_table_serial == (if table_id is Some {
                    old(c).next_table_serial
                } else {
                    (old(c).next_table_serial + 1) as u64
                })
                &&& same_but_tables(*old(c), *final(c))
            },
            None => {
                &&& (match table_id {
                    Some(t) => has_table(old(c).game_tables@, t@),
                    None => has_table(
                        old(c).game_tables@,
                        "table-"@ + dec_digits(old(c).next_table_serial as nat),
                    ) || old(c).next_table_serial == u64::MAX,
                })
                &&& *final(c) == *old(c)
            },
        },
{
    let (id, generated): (String, bool) = match table_id {
        Some(t) => (t, false),
        None => {
            if c.next_table_serial == u64::MAX {
                return None;
            }
            let mut s = "table-".to_owned();
            let digits = u64_to_decimal(c.next_table_serial);
            s.append(digits.as_str());
            (s, true)
        },
    };
    if find_table_index(c, &id).is_some() {
        return None;
    }
    let max_players = match c.game_config.max_players {
        Some(m) => m,
        None => 3,
    };
    let table = GameTable {
        id: id.clone(),
        state: GameState::WaitingForPlayers,
        players: Vec::new(),
        current_player_index: None,
        round_number: 1,
        created_at: now,
        last_activity: now,
        betting_deadline: None,
        move_deadline: None,
        max_players,
        min_bet: c.game_config.min_bet_amount,
        max_bet: c.game_config.max_bet_amount,
        is_active: true,
        pending_bets: Vec::new(),
        pending_moves: Vec::new(),
    };
    proof {
        assert(table.wf());
        assert forall|i: int, j: int|
            0 <= i < c.game_tables@.push(table).len() && 0 <= j < c.game_tables@.push(table).len()
                && i != j implies (#[trigger] c.game_tables@.push(table)[i]).id@ != (
        #[trigger] c.game_tables@.push(table)[j]).id@ by {
            if i < c.game_tables@.len() && j < c.game_tables@.len() {
            } else if i < c.game_tables@.len() {
                assert(c.game_tables@.push(table)[j] == table);
            } else {
                assert(c.game_tables@.push(table)[i] == table);
            }
        }
    }
    c.game_tables.push(table);
    if generated {
        c.next_table_serial = c.next_table_serial + 1;
    }
    Some(id)
}

/// Drop the table named `table_id` from the registry, its queues with
/// it; absent tables are left alone. The reason accompanies the host's
/// event.
pub fn remove_table(c: &mut CardsContract, table_id: &String, reason: &String)
    requires
        old(c).wf(),
    ensures
        final(c).wf(),
        has_table(old(c).game_tables@, table_id@) ==> final(c).game_tables@ == old(
            c,
        ).game_tables@.remove(table_idx(old(c).game_tables@, table_id@)),
        !has_table(old(c).game_tables@, table_id@) ==> *final(c) == *old(c),
        !has_table(final(c).game_tables@, table_id@),
        same_but_tables(*old(c), *final(c)),
{
    let _ = reason;
    let i = match find_table_index(c, table_id) {
        Some(i) => i,
        None => {
            return ;
        },
    };
    let ghost pre = c.game_tables@;
    c.game_tables.remove(i);
    proof {
        assert forall|a: int, b: int|
            0 <= a < c.game_tables@.len() && 0 <= b < c.game_tables@.len() && a != b implies (
        #[trigger] c.game_tables@[a]).id@ != (#[trigger] c.game_tables@[b]).id@ by {
            let a0 = if a < i as int {
                a
            } else {
                a + 1
            };
            let b0 = if b < i as int {
                b
            } else {
                b + 1
            };
            assert(c.game_tables@[a] == pre[a0]);
            assert(c.game_tables@[b] == pre[b0]);
        }
        assert forall|k: int| 0 <= k < c.game_tables@.len() implies (
        #[trigger] c.game_tables@[k]).wf() by {
            let k0 = if k < i as int {
                k
            } else {
                k + 1
            };
            assert(c.game_tables@[k] == pre[k0]);
        }
        assert forall|k: int| 0 <= k < c.game_tables@.len() implies (
        #[trigger] c.game_tables@[k]).id@ != table_id@ by {
            let k0 = if k < i as int {
                k
            } else {
                k + 1
            };
            assert(c.game_tables@[k] == pre[k0]);
        }
    }
}

/// Stamp the table's activity clock.
pub fn update_table_activity(c: &mut CardsContract, table_id: &String, now: u64)
    requires
        old(c).wf(),
    ensures
        final(c).wf(),
        !has_table(old(c).game_tables@, table_id@) ==> *final(c) == *old(c),
        has_table(old(c).game_tables@, table_id@) ==> ({
            let i = table_idx(old(c).game_tables@, table_id@);
            &&& final(c).game_tables@.len() == old(c).game_tables@.len()
            &&& forall|j: int|
                0 <= j < old(c).game_tables@.len() && j != i ==> final(c).game_tables@[j] == old(
                    c,
                ).game_tables@[j]
            &&& final(c).game_tables@[i] == (GameTable {
                last_activity: now,
                ..old(c).game_tables@[i]
            })
        }),
        same_but_tables(*old(c), *final(c)),
{
    let i = match find_table_index(c, table_id) {
        Some(i) => i,
        None => {
            return ;
        },
    };
    table_mutate_start(c, i, now)
}

/// Replace the table at `i` by itself with a fresh activity stamp.
fn table_mutate_start(c: &mut CardsContract, i: usize, now: u64)
    requires
        old(c).wf(),
        (i as int) < old(c).game_tables@.len(),
    ensures
        final(c).wf(),
        final(c).game_tables@.len() == old(c).game_tables@.len(),
        forall|j: int|
            0 <= j < old(c).game_tables@.len() && j != i ==> final(c).game_tables@[j] == old(
                c,
            ).game_tables@[j],
        final(c).game_tables@[i as int] == (GameTable {
            last_activity: now,
            ..old(c).game_tables@[i as int]
        }),
        same_but_tables(*old(c), *final(c)),
{
    let placeholder = GameTable {
        id: String::new(),
        state: GameState::WaitingForPlayers,
        players: Vec::new(),
        current_player_index: None,
        round_number: 1,
        created_at: 0,
        last_activity: 0,
        betting_deadline: None,
        move_deadline: None,
        max_players: 0,
        min_bet: 0,
        max_bet: 0,
        is_active: false,
        pending_bets: Vec::new(),
        pending_moves: Vec::new(),
    };
    let mut slot: GameTable = placeholder;
    c.game_tables.set_and_swap(i, &mut slot);
    slot.last_activity = now;
    proof {
        lemma_tables_update_same(old(c).game_tables@, i as int, slot);
    }
    c.game_tables.set(i, slot);
}

/// Replacing a table by one with the same id and its own consistency
/// keeps the registry consistent.
pub proof fn lemma_tables_update_same(s: Seq<GameTable>, i: int, t: GameTable)
    requires
        tables_wf(s),
        0 <= i < s.len(),
        t.id@ == s[i].id@,
        t.wf(),
    ensures
        tables_wf(s.update(i, t)),
        forall|id: Seq<char>| #[trigger] has_table(s.update(i, t), id) == has_table(s, id),
{
    let u = s.update(i, t);
    assert(forall|k: int| 0 <= k < u.len() ==> (#[trigger] u[k]).id@ == s[k].id@);
    assert forall|k: int| 0 <= k < u.len() implies (#[trigger] u[k]).wf() by {
        if k != i {
            assert(u[k] == s[k]);
        }
    }
    assert forall|id: Seq<char>| #[trigger] has_table(u, id) == has_table(s, id) by {
        if has_table(u, id) {
            let j = choose|j: int| 0 <= j < u.len() && (#[trigger] u[j]).id@ == id;
            assert(s[j].id@ == id);
        }
        if has_table(s, id) {
            let j = choose|j: int| 0 <= j < s.len() && (#[trigger] s[j]).id@ == id;
            assert(u[j].id@ == id);
        }
    }
}

/// Whether the table has been inactive beyond `timeout_ms`; an absent
/// table counts as expired, guarding the race where it was removed
/// between enumeration and check.
pub fn is_table_expired(c: &CardsContract, table_id: &String, timeout_ms: u64, now: u64) -> (r:
    bool)
    requires
        c.wf(),
    ensures
        r == (if has_table(c.game_tables@, table_id@) {
            table_expired(c.game_tables@[table_idx(c.game_tables@, table_id@)], timeout_ms, now)
        } else {
            true
        }),
{
    let i = match find_table_index(c, table_id) {
        Some(i) => i,
        None => {
            return true;
        },
    };
    let last = c.game_tables[i].last_activity;
    if now <= last {
        return false;
    }
    (now - last) as u128 > timeout_ms as u128 * 1_000_000
}

/// Switch a table in or out of active service.
pub fn set_table_active(c: &mut CardsContract, table_id: &String, active: bool, now: u64) -> (r:
    bool)
    requires
        old(c).wf(),
    ensures
        final(c).wf(),
        r == has_table(old(c).game_tables@, table_id@),
        !r ==> *final(c) == *old(c),
        r ==> ({
            let i = table_idx(old(c).game_tables@, table_id@);
            &&& final(c).game_tables@.len() == old(c).game_tables@.len()
            &&& forall|j: int|
                0 <= j < old(c).game_tables@.len() && j != i ==> final(c).game_tables@[j] == old(
                    c,
                ).game_tables@[j]
            &&& final(c).game_tables@[i] == (GameTable {
                is_active: active,
                last_activity: now,
                ..old(c).game_tables@[i]
            })
            &&& same_but_tables(*old(c), *final(c))
        }),
{
    let i = match find_table_index(c, table_id) {
        Some(i) => i,
        None => {
            return false;
        },
    };
    let placeholder = empty_table();
    let mut slot: GameTable = placeholder;
    c.game_tables.set_and_swap(i, &mut slot);
    slot.is_active = active;
    slot.last_activity = now;
    proof {
        lemma_tables_update_same(old(c).game_tables@, i as int, slot);
    }
    c.game_tables.set(i, slot);
    true
}

/// A placeholder value used while a table is temporarily taken out of
/// the registry for mutation.
fn empty_table() -> (t: GameTable)
    ensures
        t.players@.len() == 0,
{
    GameTable {
        id: String::new(),
        state: GameState::WaitingForPlayers,
        players: Vec::new(),
        current_player_index: None,
        round_number: 1,
        created_at: 0,
        last_activity: 0,
        betting_deadline: None,
        move_deadline: None,
        max_players: 0,
        min_bet: 0,
        max_bet: 0,
        is_active: false,
        pending_bets: Vec::new(),
        pending_moves: Vec::new(),
    }
}

/// The player records after betting opens at a table: stakes and queued
/// moves cleared, observers and waiting players activated.
pub open spec fn table_players_reset(a: Seq<TablePlayer>, b: Seq<TablePlayer>, now: u64) -> bool {
    &&& b.len() == a.len()
    &&& forall|k: int|
        0 <= k < a.len() ==> (#[trigger] b[k]) == (TablePlayer {
            state: crate::admin::activated(a[k].state),
            burned_tokens: 0,
            pending_move: None,
            last_action_time: now,
            ..a[k]
        })
}

/// The position of the eligible player holding the lowest seat: who
/// opens the player-turn phase at a table.
pub open spec fn is_first_turn_pick(players: Seq<TablePlayer>, k: int) -> bool {
    &&& 0 <= k < players.len()
    &&& tp_eligible(players[k])
    &&& forall|j: int|
        0 <= j < players.len() && tp_eligible(#[trigger] players[j]) ==> players[k].seat_number
            <= players[j].seat_number
}

/// The inputs on which a table phase change succeeds: the table exists,
/// and the round counter has headroom when the round ends.
pub open spec fn set_state_ok(c: CardsContract, table_id: Seq<char>, new_state: GameState) -> bool {
    &&& has_table(c.game_tables@, table_id)
    &&& (new_state == GameState::RoundEnded ==> c.game_tables@[table_idx(
        c.game_tables@,
        table_id,
    )].round_number < u64::MAX)
}

/// Drive one table's phase to `new_state`. Entering betting resets the
/// players, activates the waiting ones and arms the betting deadline;
/// entering the player turn hands the turn to the eligible player on the
/// lowest seat and arms the move deadline; every other phase clears both
/// deadlines, and a deadline never outlives the phase that armed it. The
/// round counter advances on the round's end.
pub fn set_table_state(c: &mut CardsContract, table_id: &String, new_state: GameState, now: u64) -> (r:
    bool)
    requires
        old(c).wf(),
    ensures
        final(c).wf(),
        r == set_state_ok(*old(c), table_id@, new_state),
        !r ==> *final(c) == *old(c),
        r ==> ({
            let i = table_idx(old(c).game_tables@, table_id@);
            let t = old(c).game_tables@[i];
            let u = final(c).game_tables@[i];
            &&& final(c).game_tables@.len() == old(c).game_tables@.len()
            &&& forall|j: int|
                0 <= j < old(c).game_tables@.len() && j != i ==> final(c).game_tables@[j] == old(
                    c,
                ).game_tables@[j]
            &&& u.id@ == t.id@
            &&& u.state == new_state
            &&& u.last_activity == now
            &&& u.created_at == t.created_at
            &&& u.max_players == t.max_players
            &&& u.min_bet == t.min_bet
            &&& u.max_bet == t.max_bet
            &&& u.is_active == t.is_active
            &&& u.pending_bets == t.pending_bets
            &&& u.pending_moves == t.pending_moves
            &&& u.round_number == (if new_state == GameState::RoundEnded {
                (t.round_number + 1) as u64
            } else {
                t.round_number
            })
            &&& (new_state == GameState::Betting ==> {
                &&& table_players_reset(t.players@, u.players@, now)
                &&& u.current_player_index is None
                &&& u.betting_deadline == Some(deadline_after(now, old(c).game_config.betting_timeout_ms))
                &&& u.move_deadline is None
            })
            &&& (new_state == GameState::PlayerTurn ==> {
                &&& u.players == t.players
                &&& (match u.current_player_index {
                    Some(k) => is_first_turn_pick(t.players@, k as int),
                    None => !exists_eligible(t.players@),
                })
                &&& u.move_deadline == Some(deadline_after(now, old(c).game_config.move_timeout_ms))
                &&& u.betting_deadline is None
            })
            &&& (new_state != GameState::Betting && new_state != GameState::PlayerTurn ==> {
                &&& u.players == t.players
                &&& u.current_player_index == (if new_state == GameState::DealingInitialCards {
                    t.current_player_index
                } else {
                    None
                })
                &&& u.betting_deadline is None
                &&& u.move_deadline is None
            })
            &&& same_but_tables(*old(c), *final(c))
        }),
{
    let i = match find_table_index(c, table_id) {
        Some(i) => i,
        None => {
            return false;
        },
    };
    if new_state == GameState::RoundEnded && c.game_tables[i].round_number == u64::MAX {
        return false;
    }
    let mut slot: GameTable = empty_table();
    c.game_tables.set_and_swap(i, &mut slot);
    let ghost t0 = old(c).game_tables@[i as int];
    slot.state = new_state;
    slot.last_activity = now;
    if new_state == GameState::RoundEnded {
        slot.round_number = slot.round_number + 1;
    }
    match new_state {
        GameState::Betting => {
            let mut k: usize = 0;
            while k < slot.players.len()
                invariant
                    k <= slot.players@.len(),
                    slot.players@.len() == t0.players@.len(),
                    slot.id == t0.id,
                    slot.state == new_state,
                    slot.last_activity == now,
                    slot.round_number == t0.round_number,
                    slot.created_at == t0.created_at,
                    slot.max_players == t0.max_players,
                    slot.min_bet == t0.min_bet,
                    slot.max_bet == t0.max_bet,
                    slot.is_active == t0.is_active,
                    slot.pending_bets == t0.pending_bets,
                    slot.pending_moves == t0.pending_moves,
                    slot.current_player_index == t0.current_player_index,
                    slot.betting_deadline == t0.betting_deadline,
                    slot.move_deadline == t0.move_deadline,
                    forall|j: int|
                        0 <= j < k ==> (#[trigger] slot.players@[j]) == (TablePlayer {
                            state: crate::admin::activated(t0.players@[j].state),
                            burned_tokens: 0,
                            pending_move: None,
                            last_action_time: now,
                            ..t0.players@[j]
                        }),
                    forall|j: int|
                        k <= j < slot.players@.len() ==> (#[trigger] slot.players@[j])
                            == t0.players@[j],
                decreases slot.players@.len() - k,
            {
                let mut pslot = TablePlayer {
                    account_id: String::new(),
                    seat_number: 0,
                    state: PlayerState::Active,
                    burned_tokens: 0,
                    pending_move: None,
                    last_action_time: 0,
                };
                slot.players.set_and_swap(k, &mut pslot);
                pslot.burned_tokens = 0;
                pslot.pending_move = None;
                pslot.last_action_time = now;
                if pslot.state == PlayerState::Observing || pslot.state
                    == PlayerState::WaitingForNextRound {
                    pslot.state = PlayerState::Active;
                }
                slot.players.set(k, pslot);
                k = k + 1;
            }
            slot.current_player_index = None;
            slot.betting_deadline = Some(compute_deadline(now, c.game_config.betting_timeout_ms));
            slot.move_deadline = None;
        },
        GameState::PlayerTurn => {
            let mut best: Option<usize> = None;
            let mut k: usize = 0;
            while k < slot.players.len()
                invariant
                    k <= slot.players@.len(),
                    slot.players@.len() < 256,
                    match best {
                        Some(b) => b < k && tp_eligible(slot.players@[b as int]) && forall|j: int|
                            0 <= j < k && tp_eligible(#[trigger] slot.players@[j])
                                ==> slot.players@[b as int].seat_number
                                <= slot.players@[j].seat_number,
                        None => forall|j: int|
                            0 <= j < k ==> !tp_eligible(#[trigger] slot.players@[j]),
                    },
                decreases slot.players@.len() - k,
            {
                let eligible = slot.players[k].state == PlayerState::Active
                    && slot.players[k].burned_tokens > 0;
                if eligible {
                    best = match best {
                        Some(b) => if slot.players[k].seat_number < slot.players[b].seat_number {
                            Some(k)
                        } else {
                            Some(b)
                        },
                        None => Some(k),
                    };
                }
                k = k + 1;
            }
            slot.current_player_index = match best {
                Some(b) => Some(b as u8),
                None => None,
            };
            slot.move_deadline = Some(compute_deadline(now, c.game_config.move_timeout_ms));
            slot.betting_deadline = None;
        },
        _ => {
            if new_state != GameState::DealingInitialCards {
                slot.current_player_index = None;
            }
            slot.betting_deadline = None;
            slot.move_deadline = None;
        },
    }
    proof {
        lemma_tables_update_same(old(c).game_tables@, i as int, slot);
    }
    c.game_tables.set(i, slot);
    true
}

/// Hand the turn to `player_account` at the table: an admin override.
/// Succeeds only when the named player is seated there, active and
/// staked — the turn pointer never names anyone else; the move deadline
/// is rearmed when the table is in its player-turn phase.
pub fn set_current_player(c: &mut CardsContract, table_id: &String, player_account: &String, now: u64) -> (r:
    bool)
    requires
        old(c).wf(),
    ensures
        final(c).wf(),
        r == (has_table(old(c).game_tables@, table_id@) && has_eligible_named(
            old(c).game_tables@[table_idx(old(c).game_tables@, table_id@)].players@,
            player_account@,
        )),
        !r ==> *final(c) == *old(c),
        r ==> ({
            let i = table_idx(old(c).game_tables@, table_id@);
            let t = old(c).game_tables@[i];
            let u = final(c).game_tables@[i];
            &&& final(c).game_tables@.len() == old(c).game_tables@.len()
            &&& forall|j: int|
                0 <= j < old(c).game_tables@.len() && j != i ==> final(c).game_tables@[j] == old(
                    c,
                ).game_tables@[j]
            &&& (u.current_player_index matches Some(k) && (k as int) < t.players@.len()
                && t.players@[k as int].account_id@ == player_account@ && tp_eligible(
                t.players@[k as int],
            ))
            &&& u.players == t.players
            &&& u.state == t.state
            &&& u.last_activity == now
            &&& u.move_deadline == (if t.state == GameState::PlayerTurn {
                Some(deadline_after(now, old(c).game_config.move_timeout_ms))
            } else {
                t.move_deadline
            })
            &&& u.betting_deadline == t.betting_deadline
            &&& u.round_number == t.round_number
            &&& same_but_tables(*old(c), *final(c))
        }),
{
    let i = match find_table_index(c, table_id) {
        Some(i) => i,
        None => {
            return false;
        },
    };
    let mut found: Option<usize> = None;
    let mut k: usize = 0;
    let ghost players0 = c.game_tables@[i as int].players@;
    while k < c.game_tables[i].players.len() && found.is_none()
        invariant
            c.wf(),
            (i as int) < c.game_tables@.len(),
            players0 == c.game_tables@[i as int].players@,
            k <= players0.len(),
            players0.len() < 256,
            match found {
                Some(f) => (f as int) < players0.len() && players0[f as int].account_id@
                    == player_account@ && tp_eligible(players0[f as int]),
                None => forall|j: int|
                    0 <= j < k ==> !((#[trigger] players0[j]).account_id@ == player_account@
                        && tp_eligible(players0[j])),
            },
        decreases players0.len() - k, (if found is Some { 0int } else { 1int }),
    {
        let p = &c.game_tables[i].players[k];
        if p.account_id == *player_account && p.state == PlayerState::Active && p.burned_tokens
            > 0 {
            found = Some(k);
        } else {
            k = k + 1;
        }
    }
    let f = match found {
        Some(f) => f,
        None => {
            return false;
        },
    };
    let mut slot: GameTable = empty_table();
    c.game_tables.set_and_swap(i, &mut slot);
    slot.current_player_index = Some(f as u8);
    slot.last_activity = now;
    if slot.state == GameState::PlayerTurn {
        slot.move_deadline = Some(compute_deadline(now, c.game_config.move_timeout_ms));
    }
    proof {
        lemma_tables_update_same(old(c).game_tables@, i as int, slot);
    }
    c.game_tables.set(i, slot);
    true
}

/// Clear the table's turn pointer and disarm the move deadline.
pub fn clear_current_player(c: &mut CardsContract, table_id: &String, now: u64) -> (r: bool)
    requires
        old(c).wf(),
    ensures
        final(c).wf(),
        r == has_table(old(c).game_tables@, table_id@),
        !r ==> *final(c) == *old(c),
        r ==> ({
            let i = table_idx(old(c).game_tables@, table_id@);
            &&& final(c).game_tables@.len() == old(c).game_tables@.len()
            &&& forall|j: int|
                0 <= j < old(c).game_tables@.len() && j != i ==> final(c).game_tables@[j] == old(
                    c,
                ).game_tables@[j]
            &&& final(c).game_tables@[i] == (GameTable {
                current_player_index: None,
                move_deadline: None,
                last_activity: now,
                ..old(c).game_tables@[i]
            })
            &&& same_but_tables(*old(c), *final(c))
        }),
{
    let i = match find_table_index(c, table_id) {
        Some(i) => i,
        None => {
            return false;
        },
    };
    let mut slot: GameTable = empty_table();
    c.game_tables.set_and_swap(i, &mut slot);
    slot.current_player_index = None;
    slot.move_deadline = None;
    slot.last_activity = now;
    proof {
        lemma_tables_update_same(old(c).game_tables@, i as int, slot);
    }
    c.game_tables.set(i, slot);
    true
}

/// How many of the table's players are active.
pub open spec fn table_active_count(players: Seq<TablePlayer>) -> int {
    crate::model::sum_by(
        players,
        |p: TablePlayer|
            if p.state == PlayerState::Active {
                1int
            } else {
                0int
            },
    )
}

/// Count a table's active players.
pub fn count_active_players(c: &CardsContract, table_id: &String) -> (r: u8)
    requires
        c.wf(),
    ensures
        r as int == (if has_table(c.game_tables@, table_id@) {
            table_active_count(c.game_tables@[table_idx(c.game_tables@, table_id@)].players@)
        } else {
            0
        }),
{
    let i = match find_table_index(c, table_id) {
        Some(i) => i,
        None => {
            return 0;
        },
    };
    let players = &c.game_tables[i].players;
    let mut count: u8 = 0;
    let mut k: usize = 0;
    proof {
        assert(players@.take(0) =~= Seq::<TablePlayer>::empty());
    }
    while k < players.len()
        invariant
            k <= players@.len(),
            players@.len() < 256,
            count as int == table_active_count(players@.take(k as int)),
            count <= k,
        decreases players@.len() - k,
    {
        proof {
            assert(players@.take(k as int + 1) =~= players@.take(k as int).push(
                players@[k as int],
            ));
            crate::model::lemma_sum_by_push(
                players@.take(k as int),
                |p: TablePlayer|
                    if p.state == PlayerState::Active {
                        1int
                    } else {
                        0int
                    },
                players@[k as int],
            );
        }
        if players[k].state == PlayerState::Active {
            count = count + 1;
        }
        k = k + 1;
    }
    proof {
        assert(players@.take(players@.len() as int) =~= players@);
    }
    count
}

/// Whether the table may open a round: active, in a phase that allows
/// it, with at least one active player.
pub fn can_start_round(c: &CardsContract, table_id: &String) -> (r: bool)
    requires
        c.wf(),
    ensures
        r == (has_table(c.game_tables@, table_id@) && ({
            let t = c.game_tables@[table_idx(c.game_tables@, table_id@)];
            &&& t.is_active
            &&& (t.state == GameState::WaitingForPlayers || t.state == GameState::RoundEnded)
            &&& table_active_count(t.players@) > 0
        })),
{
    let i = match find_table_index(c, table_id) {
        Some(i) => i,
        None => {
            return false;
        },
    };
    let active_players = count_active_players(c, table_id);
    let t = &c.game_tables[i];
    t.is_active && (t.state == GameState::WaitingForPlayers || t.state == GameState::RoundEnded)
        && active_players > 0
}

/// Whether every active player at the table has placed a stake; false
/// when nobody is active.
pub fn all_players_bet(c: &CardsContract, table_id: &String) -> (r: bool)
    requires
        c.wf(),
    ensures
        r == (has_table(c.game_tables@, table_id@) && ({
            let players = c.game_tables@[table_idx(c.game_tables@, table_id@)].players@;
            &&& table_active_count(players) > 0
            &&& forall|k: int|
                0 <= k < players.len() && (#[trigger] players[k]).state == PlayerState::Active
                    ==> players[k].burned_tokens > 0
        })),
{
    let i = match find_table_index(c, table_id) {
        Some(i) => i,
        None => {
            return false;
        },
    };
    let active_players = count_active_players(c, table_id);
    if active_players == 0 {
        proof {
            let players = c.game_tables@[i as int].players@;
            if exists|k: int|
                0 <= k < players.len() && (#[trigger] players[k]).state == PlayerState::Active {
                let k = choose|k: int|
                    0 <= k < players.len() && (#[trigger] players[k]).state
                        == PlayerState::Active;
                lemma_active_count_witness(players, k);
            }
        }
        return false;
    }
    let players = &c.game_tables[i].players;
    let mut k: usize = 0;
    while k < players.len()
        invariant
            c.wf(),
            (i as int) < c.game_tables@.len(),
            has_table(c.game_tables@, table_id@),
            table_idx(c.game_tables@, table_id@) == i as int,
            players@ == c.game_tables@[i as int].players@,
            table_active_count(players@) > 0,
            k <= players@.len(),
            forall|j: int|
                0 <= j < k && (#[trigger] players@[j]).state == PlayerState::Active
                    ==> players@[j].burned_tokens > 0,
        decreases players@.len() - k,
    {
        if players[k].state == PlayerState::Active && players[k].burned_tokens == 0 {
            proof {
                assert((#[trigger] players@[k as int]).state == PlayerState::Active
                    && players@[k as int].burned_tokens == 0);
            }
            return false;
        }
        k = k + 1;
    }
    true
}

/// A player counted active makes the active count positive.
pub proof fn lemma_active_count_witness(players: Seq<TablePlayer>, k: int)
    requires
        0 <= k < players.len(),
        players[k].state == PlayerState::Active,
    ensures
        table_active_count(players) > 0,
    decreases players.len(),
{
    let f = |p: TablePlayer|
        if p.state == PlayerState::Active {
            1int
        } else {
            0int
        };
    if k == 0 {
        crate::model::lemma_sum_by_nonneg(players.drop_first(), f);
    } else {
        lemma_active_count_witness(players.drop_first(), k - 1);
    }
}

/// Aggregated statistics of one table.
#[derive(Debug)]
pub struct TableStats {
    pub table_id: String,
    pub state: GameState,
    pub round_number: u64,
    pub total_players: u8,
    pub active_players: u8,
    pub total_pot: u128,
    pub average_bet: u128,
    pub created_at: u64,
    pub last_activity: u64,
    pub uptime_seconds: u64,
}

/// Seconds a player has been idle, zero for a player who never acted
/// or a clock that ran backwards.
pub open spec fn idle_seconds(last_action_time: u64, now: u64) -> u64 {
    if last_action_time > 0 && now >= last_action_time {
        ((now - last_action_time) / 1_000_000_000) as u64
    } else {
        0
    }
}

/// How a table view reflects its table: every scalar field copied,
/// every player projected in order, and the free seats listed ascending.
pub open spec fn table_view_matches(v: GameTableView, t: GameTable, now: u64) -> bool {
    &&& v.id@ == t.id@
    &&& v.state == t.state
    &&& v.current_player_index == t.current_player_index
    &&& v.round_number == t.round_number
    &&& v.betting_deadline == t.betting_deadline
    &&& v.move_deadline == t.move_deadline
    &&& v.min_bet == t.min_bet
    &&& v.max_bet == t.max_bet
    &&& v.is_active == t.is_active
    &&& v.players@.len() == t.players@.len()
    &&& forall|k: int|
        0 <= k < t.players@.len() ==> {
            let p = #[trigger] t.players@[k];
            let w = v.players@[k];
            &&& w.account_id@ == p.account_id@
            &&& w.seat_number == p.seat_number
            &&& w.state == p.state
            &&& w.burned_tokens == p.burned_tokens
            &&& w.pending_move == p.pending_move
            &&& w.time_since_last_action == idle_seconds(p.last_action_time, now)
            &&& w.is_current_player == (t.current_player_index == Some(k as u8))
        }
    &&& forall|s: u8|
        v.available_seats@.contains(s) <==> (1 <= s <= t.max_players && !seat_taken(
            t.players@,
            s,
        ))
    &&& forall|a: int, b: int|
        0 <= a < b < v.available_seats@.len() ==> (#[trigger] v.available_seats@[a]) < (
        #[trigger] v.available_seats@[b])
}

/// A read-only projection of the table named `table_id`, or `None` when
/// it is not registered.
pub fn get_table_view(c: &CardsContract, table_id: &String, now: u64) -> (r: Option<GameTableView>)
    requires
        c.wf(),
    ensures
        match r {
            Some(v) => has_table(c.game_tables@, table_id@) && table_view_matches(
                v,
                c.game_tables@[table_idx(c.game_tables@, table_id@)],
                now,
            ),
            None => !has_table(c.game_tables@, table_id@),
        },
{
    let i = match find_table_index(c, table_id) {
        Some(i) => i,
        None => {
            return None;
        },
    };
    let t = &c.game_tables[i];
    let mut players: Vec<TablePlayerView> = Vec::new();
    let mut k: usize = 0;
    while k < t.players.len()
        invariant
            c.wf(),
            (i as int) < c.game_tables@.len(),
            t == &c.game_tables@[i as int],
            k <= t.players@.len(),
            players@.len() == k as int,
            forall|j: int|
                0 <= j < k ==> {
                    let p = #[trigger] t.players@[j];
                    let w = players@[j];
                    &&& w.account_id@ == p.account_id@
                    &&& w.seat_number == p.seat_number
                    &&& w.state == p.state
                    &&& w.burned_tokens == p.burned_tokens
                    &&& w.pending_move == p.pending_move
                    &&& w.time_since_last_action == idle_seconds(p.last_action_time, now)
                    &&& w.is_current_player == (t.current_player_index == Some(j as u8))
                },
        decreases t.players@.len() - k,
    {
        let p = &t.players[k];
        let time_since = if p.last_action_time > 0 && now >= p.last_action_time {
            (now - p.last_action_time) / 1_000_000_000
        } else {
            0
        };
        let is_current = match t.current_player_index {
            Some(ci) => ci as usize == k,
            None => false,
        };
        proof {
            match t.current_player_index {
                Some(ci) => {
                    assert((ci as usize == k) == (t.current_player_index == Some(k as u8)));
                },
                None => {},
            }
        }
        players.push(
            TablePlayerView {
                account_id: p.account_id.clone(),
                seat_number: p.seat_number,
                state: p.state,
                burned_tokens: p.burned_tokens,
                pending_move: p.pending_move,
                time_since_last_action: time_since,
                is_current_player: is_current,
            },
        );
        k = k + 1;
    }
    let available_seats = collect_available_seats(c, i);
    Some(
        GameTableView {
            id: t.id.clone(),
            state: t.state,
            players,
            current_player_index: t.current_player_index,
            round_number: t.round_number,
            betting_deadline: t.betting_deadline,
            move_deadline: t.move_deadline,
            available_seats,
            min_bet: t.min_bet,
            max_bet: t.max_bet,
            is_active: t.is_active,
        },
    )
}

/// The free seat numbers of the table at position `i`, in ascending
/// order.
fn collect_available_seats(c: &CardsContract, i: usize) -> (r: Vec<u8>)
    requires
        c.wf(),
        (i as int) < c.game_tables@.len(),
    ensures
        forall|s: u8| #[trigger]
            r@.contains(s) <==> (1 <= s <= c.game_tables@[i as int].max_players && !seat_taken(
                c.game_tables@[i as int].players@,
                s,
            )),
        forall|a: int, b: int|
            0 <= a < b < r@.len() ==> (#[trigger] r@[a]) < (#[trigger] r@[b]),
{
    let t = &c.game_tables[i];
    let mut r: Vec<u8> = Vec::new();
    let mut seat: u32 = 1;
    while seat <= t.max_players as u32
        invariant
            c.wf(),
            (i as int) < c.game_tables@.len(),
            t == &c.game_tables@[i as int],
            1 <= seat,
            seat as int <= t.max_players as int + 1,
            forall|s: u8| #[trigger]
                r@.contains(s) <==> (1 <= s < seat && !seat_taken(t.players@, s)),
            forall|a: int, b: int|
                0 <= a < b < r@.len() ==> (#[trigger] r@[a]) < (#[trigger] r@[b]),
            forall|a: int| 0 <= a < r@.len() ==> (#[trigger] r@[a]) < seat,
        decreases t.max_players as int + 1 - seat as int,
    {
        let taken = seat_lookup(c, i, seat as u8);
        let ghost r0 = r@;
        if !taken {
            r.push(seat as u8);
            proof {
                assert forall|s: u8| #[trigger]
                    r@.contains(s) <==> (1 <= s < seat + 1 && !seat_taken(t.players@, s)) by {
                    if r@.contains(s) {
                        let a = choose|a: int| 0 <= a < r@.len() && r@[a] == s;
                        if a < r0.len() {
                            assert(r0[a] == s);
                            assert(r0.contains(s));
                        } else {
                            assert(s == seat);
                        }
                    }
                    if 1 <= s < seat + 1 && !seat_taken(t.players@, s) {
                        if s < seat {
                            assert(r0.contains(s));
                            let a = choose|a: int| 0 <= a < r0.len() && r0[a] == s;
                            assert(r@[a] == s);
                        } else {
                            assert(r@[r@.len() - 1] == s);
                        }
                    }
                }
            }
        } else {
            proof {
                assert forall|s: u8| #[trigger]
                    r@.contains(s) <==> (1 <= s < seat + 1 && !seat_taken(t.players@, s)) by {
                    if 1 <= s < seat + 1 && !seat_taken(t.players@, s) {
                        assert(s != seat);
                    }
                }
            }
        }
        seat = seat + 1;
    }
    r
}

/// Whether `seat` is taken at the table at position `i`.
fn seat_lookup(c: &CardsContract, i: usize, seat: u8) -> (r: bool)
    requires
        c.wf(),
        (i as int) < c.game_tables@.len(),
    ensures
        r == seat_taken(c.game_tables@[i as int].players@, seat),
{
    let players = &c.game_tables[i].players;
    let mut k: usize = 0;
    while k < players.len()
        invariant
            c.wf(),
            (i as int) < c.game_tables@.len(),
            players@ == c.game_tables@[i as int].players@,
            k <= players@.len(),
            forall|j: int| 0 <= j < k ==> (#[trigger] players@[j]).seat_number != seat,
        decreases players@.len() - k,
    {
        if players[k].seat_number == seat {
            return true;
        }
        k = k + 1;
    }
    false
}

/// Views of every table still in active service.
pub fn get_active_tables(c: &CardsContract, now: u64) -> (r: Vec<GameTableView>)
    requires
        c.wf(),
    ensures
        forall|k: int|
            0 <= k < r@.len() ==> (#[trigger] r@[k]).is_active && has_table(
                c.game_tables@,
                r@[k].id@,
            ) && table_view_matches(
                r@[k],
                c.game_tables@[table_idx(c.game_tables@, r@[k].id@)],
                now,
            ),
        forall|j: int|
            0 <= j < c.game_tables@.len() && (#[trigger] c.game_tables@[j]).is_active ==> exists|
                k: int,
            | 0 <= k < r@.len() && (#[trigger] r@[k]).id@ == c.game_tables@[j].id@,
{
    let mut r: Vec<GameTableView> = Vec::new();
    let mut k: usize = 0;
    while k < c.game_tables.len()
        invariant
            c.wf(),
            k <= c.game_tables@.len(),
            forall|m: int|
                0 <= m < r@.len() ==> (#[trigger] r@[m]).is_active && has_table(
                    c.game_tables@,
                    r@[m].id@,
                ) && table_view_matches(
                    r@[m],
                    c.game_tables@[table_idx(c.game_tables@, r@[m].id@)],
                    now,
                ),
            forall|j: int|
                0 <= j < k && (#[trigger] c.game_tables@[j]).is_active ==> exists|m: int|
                    0 <= m < r@.len() && (#[trigger] r@[m]).id@ == c.game_tables@[j].id@,
        decreases c.game_tables@.len() - k,
    {
        if c.game_tables[k].is_active {
            let id = c.game_tables[k].id.clone();
            proof {
                lemma_table_idx_is(c.game_tables@, id@, k as int);
            }
            match get_table_view(c, &id, now) {
                Some(v) => {
                    let ghost r0 = r@;
                    r.push(v);
                    proof {
                        assert forall|j: int|
                            0 <= j < k + 1 && (#[trigger] c.game_tables@[j]).is_active implies exists|
                            m: int,
                        | 0 <= m < r@.len() && (#[trigger] r@[m]).id@ == c.game_tables@[j].id@ by {
                            if j < k {
                                let m = choose|m: int|
                                    0 <= m < r0.len() && (#[trigger] r0[m]).id@
                                        == c.game_tables@[j].id@;
                                assert(r@[m].id@ == c.game_tables@[j].id@);
                            } else {
                                assert(r@[r@.len() - 1].id@ == c.game_tables@[j].id@);
                            }
                        }
                    }
                },
                None => {
                    return unreached();
                },
            }
        }
        k = k + 1;
    }
    r
}

/// A joinable table: active, waiting or betting, with a free seat.
pub open spec fn table_joinable(t: GameTable) -> bool {
    &&& t.is_active
    &&& (t.state == GameState::WaitingForPlayers || t.state == GameState::Betting)
    &&& exists|s: u8| 1 <= s <= t.max_players && !(#[trigger] seat_taken(t.players@, s))
}

/// The view of some joinable table, or `None` when no table can be
/// joined.
pub fn find_available_table(c: &CardsContract, now: u64) -> (r: Option<GameTableView>)
    requires
        c.wf(),
    ensures
        match r {
            Some(v) => has_table(c.game_tables@, v.id@) && table_joinable(
                c.game_tables@[table_idx(c.game_tables@, v.id@)],
            ),
            None => forall|j: int|
                0 <= j < c.game_tables@.len() ==> !table_joinable(#[trigger] c.game_tables@[j]),
        },
{
    let mut k: usize = 0;
    while k < c.game_tables.len()
        invariant
            c.wf(),
            k <= c.game_tables@.len(),
            forall|j: int| 0 <= j < k ==> !table_joinable(#[trigger] c.game_tables@[j]),
        decreases c.game_tables@.len() - k,
    {
        let id = c.game_tables[k].id.clone();
        proof {
            lemma_table_idx_is(c.game_tables@, id@, k as int);
        }
        let view = match get_table_view(c, &id, now) {
            Some(v) => v,
            None => {
                return unreached();
            },
        };
        let joinable = view.is_active && (view.state == GameState::WaitingForPlayers
            || view.state == GameState::Betting) && view.available_seats.len() > 0;
        if joinable {
            proof {
                let t = c.game_tables@[k as int];
                let s0 = view.available_seats@[0];
                assert(view.available_seats@.contains(s0));
                assert(1 <= s0 <= t.max_players && !seat_taken(t.players@, s0));
                assert(table_joinable(t));
            }
            return Some(view);
        }
        proof {
            let t = c.game_tables@[k as int];
            if table_joinable(t) {
                let s = choose|s: u8|
                    1 <= s <= t.max_players && !(#[trigger] seat_taken(t.players@, s));
                assert(view.available_seats@.contains(s));
                assert(view.available_seats@.len() > 0);
            }
        }
        k = k + 1;
    }
    None
}

/// Whether `id` names a player of the list.
pub open spec fn has_named_player(players: Seq<TablePlayer>, id: Seq<char>) -> bool {
    exists|k: int| 0 <= k < players.len() && (#[trigger] players[k]).account_id@ == id
}

/// The seat number of the player named `id` (meaningful when present
/// and the identities are unique).
pub open spec fn named_player_seat(players: Seq<TablePlayer>, id: Seq<char>) -> u8 {
    players[choose|k: int|
        0 <= k < players.len() && (#[trigger] players[k]).account_id@ == id].seat_number
}

/// With unique identities, any position holding `id` fixes the named
/// player's seat.
pub proof fn lemma_named_player_is(players: Seq<TablePlayer>, id: Seq<char>, j: int)
    requires
        forall|a: int, b: int|
            0 <= a < players.len() && 0 <= b < players.len() && a != b ==> (
            #[trigger] players[a]).account_id@ != (#[trigger] players[b]).account_id@,
        0 <= j < players.len(),
        players[j].account_id@ == id,
    ensures
        has_named_player(players, id),
        named_player_seat(players, id) == players[j].seat_number,
{
    assert(has_named_player(players, id));
    let k = choose|k: int|
        0 <= k < players.len() && (#[trigger] players[k]).account_id@ == id;
    assert(players[k].account_id@ == id);
}

/// The seat the turn search starts from: the named current player's
/// seat, or none when no current player is given or the named one is
/// not at this table.
pub open spec fn turn_reference_seat(
    players: Seq<TablePlayer>,
    current_player: Option<&String>,
) -> Option<u8> {
    match current_player {
        Some(cur) => if has_named_player(players, cur@) {
            Some(named_player_seat(players, cur@))
        } else {
            None
        },
        None => None,
    }
}

/// Whether some eligible player sits on a seat above `seat`.
pub open spec fn exists_eligible_after(players: Seq<TablePlayer>, seat: u8) -> bool {
    exists|j: int|
        0 <= j < players.len() && tp_eligible(#[trigger] players[j]) && players[j].seat_number
            > seat
}

/// Position `k` holds the eligible player on the lowest seat above
/// `seat`.
pub open spec fn is_next_pick_after(players: Seq<TablePlayer>, seat: u8, k: int) -> bool {
    &&& 0 <= k < players.len()
    &&& tp_eligible(players[k])
    &&& players[k].seat_number > seat
    &&& forall|j: int|
        0 <= j < players.len() && tp_eligible(#[trigger] players[j]) && players[j].seat_number
            > seat ==> players[k].seat_number <= players[j].seat_number
}

/// Position `k` is the turn search's pick from `reference`: the eligible
/// player on the lowest seat above it, wrapping around to the lowest
/// eligible seat overall; the lowest eligible seat when there is no
/// reference.
pub open spec fn is_cyclic_next(
    players: Seq<TablePlayer>,
    reference: Option<u8>,
    k: int,
) -> bool {
    match reference {
        Some(cs) => if exists_eligible_after(players, cs) {
            is_next_pick_after(players, cs, k)
        } else {
            is_first_turn_pick(players, k)
        },
        None => is_first_turn_pick(players, k),
    }
}

/// The account that takes the turn after `current_player` at the table:
/// the eligible player on the lowest seat above the current player's,
/// wrapping around to the lowest eligible seat; the lowest eligible seat
/// when no current player is given. `None` when the table is missing or
/// nobody is eligible.
pub fn get_next_player_in_turn(
    c: &CardsContract,
    table_id: &String,
    current_player: Option<&String>,
) -> (r: Option<String>)
    requires
        c.wf(),
    ensures
        match r {
            Some(id) => has_table(c.game_tables@, table_id@) && ({
                let players = c.game_tables@[table_idx(c.game_tables@, table_id@)].players@;
                exists|k: int|
                    (#[trigger] players[k]).account_id@ == id@ && is_cyclic_next(
                        players,
                        turn_reference_seat(players, current_player),
                        k,
                    )
            }),
            None => !has_table(c.game_tables@, table_id@) || !exists_eligible(
                c.game_tables@[table_idx(c.game_tables@, table_id@)].players@,
            ),
        },
{
    let i = match find_table_index(c, table_id) {
        Some(i) => i,
        None => {
            return None;
        },
    };
    let ghost players0 = c.game_tables@[i as int].players@;
    let current_seat: Option<u8> = match current_player {
        Some(cur) => {
            let players = &c.game_tables[i].players;
            let mut found: Option<u8> = None;
            let mut k: usize = 0;
            while k < players.len() && found.is_none()
                invariant
                    c.wf(),
                    (i as int) < c.game_tables@.len(),
                    players@ == c.game_tables@[i as int].players@,
                    players@ == players0,
                    k <= players@.len(),
                    match found {
                        Some(seat) => has_named_player(players@, cur@) && named_player_seat(
                            players@,
                            cur@,
                        ) == seat,
                        None => forall|j: int|
                            0 <= j < k ==> (#[trigger] players@[j]).account_id@ != cur@,
                    },
                decreases players@.len() - k, (if found is Some {
                    0int
                } else {
                    1int
                }),
            {
                if players[k].account_id == *cur {
                    proof {
                        lemma_named_player_is(players@, cur@, k as int);
                    }
                    found = Some(players[k].seat_number);
                } else {
                    k = k + 1;
                }
            }
            found
        },
        None => None,
    };
    proof {
        assert(current_seat == turn_reference_seat(players0, current_player));
    }
    // Pick the eligible player on the lowest seat above the current one,
    // falling back to the lowest eligible seat overall.
    let players = &c.game_tables[i].players;
    let mut best_overall: Option<usize> = None;
    let mut best_after: Option<usize> = None;
    let mut k: usize = 0;
    while k < players.len()
        invariant
            c.wf(),
            (i as int) < c.game_tables@.len(),
            players@ == c.game_tables@[i as int].players@,
            k <= players@.len(),
            match best_overall {
                Some(b) => (b as int) < players@.len() && tp_eligible(players@[b as int])
                    && forall|j: int|
                    0 <= j < k && tp_eligible(#[trigger] players@[j]) ==> players@[
                        b as int
                    ].seat_number <= players@[j].seat_number,
                None => forall|j: int| 0 <= j < k ==> !tp_eligible(#[trigger] players@[j]),
            },
            match best_after {
                Some(b) => (b as int) < players@.len() && tp_eligible(players@[b as int]) && (
                current_seat matches Some(cs) && players@[b as int].seat_number > cs && forall|
                    j: int,
                |
                    0 <= j < k && tp_eligible(#[trigger] players@[j]) && players@[j].seat_number
                        > cs ==> players@[b as int].seat_number <= players@[j].seat_number),
                None => match current_seat {
                    Some(cs) => forall|j: int|
                        0 <= j < k ==> !(tp_eligible(#[trigger] players@[j])
                            && players@[j].seat_number > cs),
                    None => true,
                },
            },
        decreases players@.len() - k,
    {
        let eligible = players[k].state == PlayerState::Active && players[k].burned_tokens > 0;
        if eligible {
            best_overall = match best_overall {
                Some(b) => if players[k].seat_number < players[b].seat_number {
                    Some(k)
                } else {
                    Some(b)
                },
                None => Some(k),
            };
            let after = match current_seat {
                Some(cs) => players[k].seat_number > cs,
                None => false,
            };
            if after {
                best_after = match best_after {
                    Some(b) => if players[k].seat_number < players[b].seat_number {
                        Some(k)
                    } else {
                        Some(b)
                    },
                    None => Some(k),
                };
            }
        }
        k = k + 1;
    }
    let pick = match best_after {
        Some(b) => Some(b),
        None => best_overall,
    };
    match pick {
        Some(b) => {
            proof {
                assert(tp_eligible(players@[b as int]));
                assert(is_cyclic_next(players@, current_seat, b as int));
            }
            Some(c.game_tables[i].players[b].account_id.clone())
        },
        None => None,
    }
}

/// Aggregated statistics for the table named `table_id`.
pub fn get_table_stats(c: &CardsContract, table_id: &String, now: u64) -> (r: Option<TableStats>)
    requires
        c.wf(),
    ensures
        match r {
            Some(st) => {
                let t = c.game_tables@[table_idx(c.game_tables@, table_id@)];
                &&& has_table(c.game_tables@, table_id@)
                &&& st.table_id@ == table_id@
                &&& st.state == t.state
                &&& st.round_number == t.round_number
                &&& st.total_players as int == t.players@.len()
                &&& st.active_players as int == table_active_count(t.players@)
                &&& st.total_pot as int == table_pot(t.players@)
                &&& st.average_bet as int == (if table_active_count(t.players@) > 0 {
                    table_pot(t.players@) / table_active_count(t.players@)
                } else {
                    0
                })
                &&& st.created_at == t.created_at
                &&& st.last_activity == t.last_activity
                &&& st.uptime_seconds == idle_seconds(t.created_at, now)
            },
            None => !has_table(c.game_tables@, table_id@) || table_pot(
                c.game_tables@[table_idx(c.game_tables@, table_id@)].players@,
            ) > u128::MAX as int,
        },
{
    let i = match find_table_index(c, table_id) {
        Some(i) => i,
        None => {
            return None;
        },
    };
    let active_players = count_active_players(c, table_id);
    let t = &c.game_tables[i];
    let mut pot: u128 = 0;
    let mut k: usize = 0;
    proof {
        assert(t.players@.take(0) =~= Seq::<TablePlayer>::empty());
    }
    while k < t.players.len()
        invariant
            c.wf(),
            (i as int) < c.game_tables@.len(),
            has_table(c.game_tables@, table_id@),
            table_idx(c.game_tables@, table_id@) == i as int,
            t == &c.game_tables@[i as int],
            k <= t.players@.len(),
            pot as int == table_pot(t.players@.take(k as int)),
            table_pot(t.players@.take(k as int)) <= u128::MAX as int,
        decreases t.players@.len() - k,
    {
        proof {
            assert(t.players@.take(k as int + 1) =~= t.players@.take(k as int).push(
                t.players@[k as int],
            ));
            crate::model::lemma_sum_by_push(
                t.players@.take(k as int),
                |p: TablePlayer| p.burned_tokens as int,
                t.players@[k as int],
            );
        }
        if t.players[k].burned_tokens > u128::MAX - pot {
            proof {
                crate::model::lemma_sum_by_prefix_le(
                    t.players@,
                    |p: TablePlayer| p.burned_tokens as int,
                    k as int + 1,
                );
            }
            return None;
        }
        pot = pot + t.players[k].burned_tokens;
        k = k + 1;
    }
    proof {
        assert(t.players@.take(t.players@.len() as int) =~= t.players@);
    }
    let average_bet = if active_players > 0 {
        pot / (active_players as u128)
    } else {
        0
    };
    let uptime = if t.created_at > 0 && now >= t.created_at {
        (now - t.created_at) / 1_000_000_000
    } else {
        0
    };
    Some(
        TableStats {
            table_id: table_id.clone(),
            state: t.state,
            round_number: t.round_number,
            total_players: t.players.len() as u8,
            active_players,
            total_pot: pot,
            average_bet,
            created_at: t.created_at,
            last_activity: t.last_activity,
            uptime_seconds: uptime,
        },
    )
}

/// Total chips staked at a table.
pub open spec fn table_pot(players: Seq<TablePlayer>) -> int {
    crate::model::sum_by(players, |p: TablePlayer| p.burned_tokens as int)
}

/// The registry without the tables inactive beyond `timeout_ms`.
pub open spec fn keep_fresh(s: Seq<GameTable>, timeout_ms: u64, now: u64) -> Seq<GameTable>
    decreases s.len(),
{
    if s.len() == 0 {
        Seq::empty()
    } else if table_expired(s[0], timeout_ms, now) {
        keep_fresh(s.drop_first(), timeout_ms, now)
    } else {
        seq![s[0]] + keep_fresh(s.drop_first(), timeout_ms, now)
    }
}

/// Remove every table inactive for longer than `timeout_ms`, keeping the
/// rest in order; returns the number removed, capped at the counter's
/// width.
pub fn cleanup_expired_tables(c: &mut CardsContract, timeout_ms: u64, now: u64) -> (r: u8)
    requires
        old(c).wf(),
    ensures
        final(c).wf(),
        final(c).game_tables@ == keep_fresh(old(c).game_tables@, timeout_ms, now),
        r as int == (if old(c).game_tables@.len() - final(c).game_tables@.len() > u8::MAX as int {
            u8::MAX as int
        } else {
            old(c).game_tables@.len() - final(c).game_tables@.len()
        }),
        same_but_tables(*old(c), *final(c)),
{
    let initial_len = c.game_tables.len();
    let mut i: usize = c.game_tables.len();
    proof {
        assert(old(c).game_tables@.skip(i as int) =~= Seq::<GameTable>::empty());
        assert(c.game_tables@ =~= old(c).game_tables@.take(i as int) + keep_fresh(
            old(c).game_tables@.skip(i as int),
            timeout_ms,
            now,
        ));
    }
    while i > 0
        invariant
            old(c).wf(),
            c.wf(),
            i <= old(c).game_tables@.len(),
            i <= c.game_tables@.len(),
            c.game_tables@ == old(c).game_tables@.take(i as int) + keep_fresh(
                old(c).game_tables@.skip(i as int),
                timeout_ms,
                now,
            ),
            c.game_tables@.len() <= old(c).game_tables@.len(),
            initial_len == old(c).game_tables@.len(),
            same_but_tables(*old(c), *c),
        decreases i,
    {
        i = i - 1;
        let expired = {
            let t = &c.game_tables[i];
            now > t.last_activity && (now - t.last_activity) as u128 > timeout_ms as u128
                * 1_000_000
        };
        proof {
            assert(c.game_tables@[i as int] == old(c).game_tables@[i as int]);
            assert(old(c).game_tables@.skip(i as int)[0] == old(c).game_tables@[i as int]);
            assert(old(c).game_tables@.skip(i as int).drop_first() =~= old(
                c,
            ).game_tables@.skip(i as int + 1));
        }
        if expired {
            let ghost pre = c.game_tables@;
            c.game_tables.remove(i);
            proof {
                assert(c.game_tables@ =~= old(c).game_tables@.take(i as int) + keep_fresh(
                    old(c).game_tables@.skip(i as int),
                    timeout_ms,
                    now,
                ));
                lemma_tables_wf_sub(pre, c.game_tables@, i as int);
            }
        } else {
            proof {
                assert(c.game_tables@ =~= old(c).game_tables@.take(i as int) + keep_fresh(
                    old(c).game_tables@.skip(i as int),
                    timeout_ms,
                    now,
                ));
            }
        }
    }
    proof {
        assert(old(c).game_tables@.take(0) =~= Seq::<GameTable>::empty());
        assert(old(c).game_tables@.skip(0) =~= old(c).game_tables@);
        assert(c.game_tables@ =~= keep_fresh(old(c).game_tables@, timeout_ms, now));
    }
    let after = c.game_tables.len();
    let diff = initial_len - after;
    if diff > u8::MAX as usize {
        u8::MAX
    } else {
        diff as u8
    }
}

/// Removing one element of a consistent registry keeps it consistent.
pub proof fn lemma_tables_wf_sub(pre: Seq<GameTable>, post: Seq<GameTable>, i: int)
    requires
        tables_wf(pre),
        0 <= i < pre.len(),
        post == pre.remove(i),
    ensures
        tables_wf(post),
{
    assert forall|a: int, b: int|
        0 <= a < post.len() && 0 <= b < post.len() && a != b implies (#[trigger] post[a]).id@ != (
    #[trigger] post[b]).id@ by {
        let a0 = if a < i {
            a
        } else {
            a + 1
        };
        let b0 = if b < i {
            b
        } else {
            b + 1
        };
        assert(post[a] == pre[a0]);
        assert(post[b] == pre[b0]);
    }
    assert forall|k: int| 0 <= k < post.len() implies (#[trigger] post[k]).wf() by {
        let k0 = if k < i {
            k
        } else {
            k + 1
        };
        assert(post[k] == pre[k0]);
    }
}

} // verus!
