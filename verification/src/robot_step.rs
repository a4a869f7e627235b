//! The decisions of one robot-mode tick: what to do with a finished FreeCell
//! planner line, when the planner watchdog recovers or restarts, how the
//! inverse-move and fallback-only streaks escalate, which fallback move is
//! admissible, and what happens after a lost deal. The caller performs the
//! moves, the rendering and the status lines; these functions only decide.

use vstd::prelude::*;
use crate::cards::suit_index_spec;
use crate::freecell::{empty_columns, fc_ok, FreecellGame};
use crate::freecell_eval::freecell_empty_columns;
use crate::spider::{pile_card_sum, SpiderGame};
use crate::spider_metrics::{empty_total, spider_empty_col_count};
use crate::freecell_action::FreecellPlannerAction;
use crate::robot_guard::{sat_inc, ROBOT_OSCILLATION_LIMIT};
use crate::moves::HintMove;

verus! {

/// Consecutive empty planner lines after which the planner cools down.
pub const FREECELL_PLANNER_EMPTY_STREAK_COOLDOWN_THRESHOLD: u32 = 2;

/// Robot moves the planner sits out once it has cooled down.
pub const FREECELL_PLANNER_COOLDOWN_MOVES: u32 = 10;

/// Ticks before the planner may restart after a fallback move.
pub const FREECELL_PLANNER_RESTART_DEBOUNCE_TICKS: u32 = 2;

/// Planner wait ticks between two wait status lines.
pub const FREECELL_PLANNER_WAIT_LOG_INTERVAL: u32 = 8;

/// Fallback-only moves without foundation progress before the planner is rebuilt.
pub const FREECELL_FALLBACK_ONLY_REBUILD_THRESHOLD: u32 = 8;

/// Fallback-only moves without foundation progress before the deal is given up.
pub const FREECELL_FALLBACK_ONLY_RESEED_THRESHOLD: u32 = 20;

// ---------------------------------------------------------------------------
// Planner line intake
// ---------------------------------------------------------------------------

/// What a finished planner line does to the robot's planner state.
#[derive(Clone, Copy, Debug, PartialEq, Eq)]
pub struct FreecellPlannerIntake {
    /// The line was for the current position and gave nothing to play.
    pub failed_for_state: bool,
    /// Consecutive failed lines.
    pub empty_streak: u32,
    /// Robot moves the planner still sits out.
    pub cooldown_ticks: u32,
    /// How many of the line's actions join the queue.
    pub accepted: usize,
}

pub open spec fn planner_intake_spec(
    anchor_matches: bool,
    stalled: bool,
    queued: usize,
    plan_len: usize,
    high_watermark: usize,
    empty_streak: u32,
    cooldown_ticks: u32,
) -> FreecellPlannerIntake {
    if !anchor_matches {
        FreecellPlannerIntake { failed_for_state: false, empty_streak, cooldown_ticks, accepted: 0 }
    } else if stalled || queued == 0 {
        if plan_len == 0 {
            let streak = sat_inc(empty_streak);
            FreecellPlannerIntake {
                failed_for_state: true,
                empty_streak: streak,
                cooldown_ticks: if streak >= FREECELL_PLANNER_EMPTY_STREAK_COOLDOWN_THRESHOLD {
                    FREECELL_PLANNER_COOLDOWN_MOVES
                } else {
                    cooldown_ticks
                },
                accepted: 0,
            }
        } else {
            FreecellPlannerIntake { failed_for_state: false, empty_streak, cooldown_ticks, accepted: 0 }
        }
    } else {
        let room: int = if high_watermark >= plan_len { high_watermark - plan_len } else { 0 };
        FreecellPlannerIntake {
            failed_for_state: false,
            empty_streak: 0,
            cooldown_ticks: 0,
            accepted: (if queued <= room { queued as int } else { room }) as usize,
        }
    }
}

/// Takes in a finished planner line. A line computed for an older position
/// changes nothing. An empty or stalled line fails the current position when
/// the queue is empty as well, and two such failures in a row cool the planner
/// down. A productive line clears the failure streak and the cooldown and
/// fills the queue up to its high watermark.
pub fn freecell_planner_intake(
    anchor_matches: bool,
    stalled: bool,
    queued: usize,
    plan_len: usize,
    high_watermark: usize,
    empty_streak: u32,
    cooldown_ticks: u32,
) -> (r: FreecellPlannerIntake)
    ensures
        r == planner_intake_spec(anchor_matches, stalled, queued, plan_len, high_watermark, empty_streak, cooldown_ticks),
        r.accepted <= queued,
        plan_len + r.accepted <= if plan_len <= high_watermark { high_watermark as int } else { plan_len as int },
{
    if !anchor_matches {
        return FreecellPlannerIntake { failed_for_state: false, empty_streak, cooldown_ticks, accepted: 0 };
    }
    if stalled || queued == 0 {
        if plan_len == 0 {
            let streak = empty_streak.saturating_add(1);
            let cooldown = if streak >= FREECELL_PLANNER_EMPTY_STREAK_COOLDOWN_THRESHOLD {
                FREECELL_PLANNER_COOLDOWN_MOVES
            } else {
                cooldown_ticks
            };
            FreecellPlannerIntake { failed_for_state: true, empty_streak: streak, cooldown_ticks: cooldown, accepted: 0 }
        } else {
            FreecellPlannerIntake { failed_for_state: false, empty_streak, cooldown_ticks, accepted: 0 }
        }
    } else {
        let room = high_watermark.saturating_sub(plan_len);
        let accepted = if queued <= room { queued } else { room };
        FreecellPlannerIntake { failed_for_state: false, empty_streak: 0, cooldown_ticks: 0, accepted }
    }
}

// ---------------------------------------------------------------------------
// Planner watchdog
// ---------------------------------------------------------------------------

/// What the robot does while it waits for the background planner.
#[derive(Clone, Copy, Debug, PartialEq, Eq)]
pub enum FreecellPlannerWatchdog {
    /// No move for too long: drop the planner and its queue, fall back.
    Recover,
    /// The planner took too long: start it over and end the tick.
    Restart,
    /// Keep waiting; `log` tells whether this tick writes a wait status line.
    Wait { log: bool },
}

pub open spec fn planner_watchdog_spec(wait_ticks: u32, no_move_ticks: u32, wait_limit: u32, no_move_limit: u32) -> FreecellPlannerWatchdog {
    if no_move_ticks >= no_move_limit {
        FreecellPlannerWatchdog::Recover
    } else if wait_ticks >= wait_limit {
        FreecellPlannerWatchdog::Restart
    } else {
        FreecellPlannerWatchdog::Wait {
            log: wait_ticks == 1 || wait_ticks == wait_limit || wait_ticks % FREECELL_PLANNER_WAIT_LOG_INTERVAL == 0,
        }
    }
}

/// One tick spent waiting for the planner: both counters go up by one
/// (saturating), then the no-move watchdog is checked before the wait limit.
/// Returns the verdict and the two new counters.
pub fn freecell_planner_watchdog(
    wait_ticks: u32,
    no_move_ticks: u32,
    wait_limit: u32,
    no_move_limit: u32,
) -> (r: (FreecellPlannerWatchdog, u32, u32))
    ensures
        r.1 == sat_inc(wait_ticks),
        r.2 == sat_inc(no_move_ticks),
        r.0 == planner_watchdog_spec(r.1, r.2, wait_limit, no_move_limit),
{
    let wait = wait_ticks.saturating_add(1);
    let no_move = no_move_ticks.saturating_add(1);
    let verdict = if no_move >= no_move_limit {
        FreecellPlannerWatchdog::Recover
    } else if wait >= wait_limit {
        FreecellPlannerWatchdog::Restart
    } else {
        FreecellPlannerWatchdog::Wait {
            log: wait == 1 || wait == wait_limit || wait % FREECELL_PLANNER_WAIT_LOG_INTERVAL == 0,
        }
    };
    (verdict, wait, no_move)
}

// ---------------------------------------------------------------------------
// Streaks
// ---------------------------------------------------------------------------

/// A planned move that undoes the previous one is blocked; the block streak
/// goes up by one, and past the oscillation limit the planner search is reset.
/// Returns the new streak and whether to reset.
pub fn inverse_oscillation_step(streak: u32) -> (r: (u32, bool))
    ensures
        r.0 == sat_inc(streak),
        r.1 == (r.0 > ROBOT_OSCILLATION_LIMIT),
{
    let next = streak.saturating_add(1);
    (next, next > ROBOT_OSCILLATION_LIMIT)
}

/// The fallback-only streak after a fallback move was played.
#[derive(Clone, Copy, Debug, PartialEq, Eq)]
pub struct FallbackStreakStep {
    pub streak: u32,
    /// Drop the planner and its queue.
    pub rebuild: bool,
    /// Give the deal up and start another.
    pub reseed: bool,
}

/// After a fallback move: with foundation progress since the last one the
/// streak starts over; without, it goes up by one, and reaching the rebuild
/// and reseed thresholds asks for those.
pub fn fallback_only_streak_step(moves_since_foundation_progress: u32, streak: u32) -> (r: FallbackStreakStep)
    ensures
        moves_since_foundation_progress == 0 ==> r == (FallbackStreakStep { streak: 0, rebuild: false, reseed: false }),
        moves_since_foundation_progress > 0 ==> {
            &&& r.streak == sat_inc(streak)
            &&& r.rebuild == (r.streak >= FREECELL_FALLBACK_ONLY_REBUILD_THRESHOLD)
            &&& r.reseed == (r.streak >= FREECELL_FALLBACK_ONLY_RESEED_THRESHOLD)
        },
        r.reseed ==> r.rebuild,
{
    if moves_since_foundation_progress == 0 {
        FallbackStreakStep { streak: 0, rebuild: false, reseed: false }
    } else {
        let next = streak.saturating_add(1);
        FallbackStreakStep {
            streak: next,
            rebuild: next >= FREECELL_FALLBACK_ONLY_REBUILD_THRESHOLD,
            reseed: next >= FREECELL_FALLBACK_ONLY_RESEED_THRESHOLD,
        }
    }
}

/// The planner cooldown after a robot move: one less, never below zero.
pub fn planner_cooldown_after_move(cooldown_ticks: u32) -> (r: u32)
    ensures
        r == if cooldown_ticks > 0 { cooldown_ticks - 1 } else { 0 },
{
    cooldown_ticks.saturating_sub(1)
}

// ---------------------------------------------------------------------------
// Fallback and loss
// ---------------------------------------------------------------------------

/// Whether the best fallback move may be played: not the inverse of the last
/// move, making progress or scoring above zero, and not tabu.
pub fn fallback_action_admissible(
    inverse_of_last_move: bool,
    progressed: bool,
    progress_score: i64,
    tabu_rejects: bool,
) -> (r: bool)
    ensures
        r == (!inverse_of_last_move && (progressed || progress_score > 0) && !tabu_rejects),
{
    if inverse_of_last_move {
        return false;
    }
    if !progressed && progress_score <= 0 {
        return false;
    }
    !tabu_rejects
}

/// What the robot does with a deal it could not go on with.
#[derive(Clone, Copy, Debug, PartialEq, Eq)]
pub enum RobotLossAction {
    /// Automatic new games are off: robot mode stops.
    Stop,
    /// Forever mode: a random reseed through the background seed search.
    ForeverReseed,
    /// A new random deal right away.
    Redeal,
}

/// The rule for a lost or stuck deal.
pub fn robot_loss_action(auto_new_game_on_loss: bool, forever: bool) -> (r: RobotLossAction)
    ensures
        !auto_new_game_on_loss ==> r == RobotLossAction::Stop,
        auto_new_game_on_loss && forever ==> r == RobotLossAction::ForeverReseed,
        auto_new_game_on_loss && !forever ==> r == RobotLossAction::Redeal,
{
    if !auto_new_game_on_loss {
        RobotLossAction::Stop
    } else if forever {
        RobotLossAction::ForeverReseed
    } else {
        RobotLossAction::Redeal
    }
}

// ---------------------------------------------------------------------------
// Where a move goes
// ---------------------------------------------------------------------------

/// A place on the board that a hint highlights.
#[derive(Clone, Copy, Debug, PartialEq, Eq, Structural)]
pub enum HintNode {
    /// A column, and the card in it where the moved cards start (none for
    /// the column as a target).
    Tableau { col: usize, index: Option<usize> },
    /// A foundation by its slot.
    Foundation(usize),
    /// A free cell.
    Freecell(usize),
}

/// The top position of column `col`, if the column exists and holds cards.
pub open spec fn top_index(g: FreecellGame, col: usize) -> Option<usize> {
    if col < g@.tableau.len() && g@.tableau[col as int].len() > 0 {
        Some((g@.tableau[col as int].len() - 1) as usize)
    } else {
        None
    }
}

/// The foundation a card goes to, or the first one when there is no card.
pub open spec fn foundation_node(card: Option<crate::cards::Card>) -> HintNode {
    match card {
        Some(c) => HintNode::Foundation(suit_index_spec(c.suit) as usize),
        None => HintNode::Foundation(0),
    }
}

pub open spec fn action_nodes_spec(g: FreecellGame, action: FreecellPlannerAction) -> (HintNode, HintNode) {
    match action {
        FreecellPlannerAction::TableauToFoundation { src } => (
            HintNode::Tableau { col: src, index: top_index(g, src) },
            foundation_node(if top_index(g, src) is Some { Some(g@.tableau[src as int].last()) } else { None }),
        ),
        FreecellPlannerAction::FreecellToFoundation { cell } => (
            HintNode::Freecell(cell),
            foundation_node(if cell < g@.freecells.len() { g@.freecells[cell as int] } else { None }),
        ),
        FreecellPlannerAction::TableauRunToTableau { src, start, dst } => (
            HintNode::Tableau { col: src, index: Some(start) },
            HintNode::Tableau { col: dst, index: None },
        ),
        FreecellPlannerAction::TableauToFreecell { src, cell } => (
            HintNode::Tableau { col: src, index: top_index(g, src) },
            HintNode::Freecell(cell),
        ),
        FreecellPlannerAction::FreecellToTableau { cell, dst } => (
            HintNode::Freecell(cell),
            HintNode::Tableau { col: dst, index: None },
        ),
    }
}

fn column_top_index(game: &FreecellGame, col: usize) -> (r: Option<usize>)
    ensures
        r == top_index(*game, col),
{
    let tableau = game.tableau();
    if col < tableau.len() && tableau[col].len() > 0 {
        Some(tableau[col].len() - 1)
    } else {
        None
    }
}

fn foundation_node_of(card: Option<crate::cards::Card>) -> (r: HintNode)
    ensures
        r == foundation_node(card),
{
    match card {
        Some(c) => HintNode::Foundation(c.suit.foundation_index()),
        None => HintNode::Foundation(0),
    }
}

/// The source and target a FreeCell move highlights.
pub fn freecell_action_nodes(game: &FreecellGame, action: FreecellPlannerAction) -> (r: (HintNode, HintNode))
    ensures
        r == action_nodes_spec(*game, action),
{
    match action {
        FreecellPlannerAction::TableauToFoundation { src } => {
            let index = column_top_index(game, src);
            (HintNode::Tableau { col: src, index }, foundation_node_of(game.tableau_top(src)))
        },
        FreecellPlannerAction::FreecellToFoundation { cell } => {
            (HintNode::Freecell(cell), foundation_node_of(game.freecell_card(cell)))
        },
        FreecellPlannerAction::TableauRunToTableau { src, start, dst } => {
            (HintNode::Tableau { col: src, index: Some(start) }, HintNode::Tableau { col: dst, index: None })
        },
        FreecellPlannerAction::TableauToFreecell { src, cell } => {
            let index = column_top_index(game, src);
            (HintNode::Tableau { col: src, index }, HintNode::Freecell(cell))
        },
        FreecellPlannerAction::FreecellToTableau { cell, dst } => {
            (HintNode::Freecell(cell), HintNode::Tableau { col: dst, index: None })
        },
    }
}

// ---------------------------------------------------------------------------
// Starting the planner
// ---------------------------------------------------------------------------

/// The planner queue's low and high watermarks: the planner is started
/// only while fewer actions than the low one are queued.
pub fn freecell_planner_queue_bounds() -> (r: (usize, usize))
    ensures
        r == (8usize, 32usize),
{
    (8, 32)
}

/// Whether to start the background planner on this tick.
#[derive(Clone, Copy, Debug, PartialEq, Eq)]
pub enum PlannerStart {
    /// Not now.
    Skip,
    /// Not now; the restart debounce goes down to `remaining`.
    Debounce { remaining: u32 },
    /// Start it; `release_cooldown` tells whether a cooldown ends early
    /// because the position changed meaningfully (the empty-line streak
    /// then starts over too).
    Start { release_cooldown: bool },
}

pub open spec fn planner_start_spec(
    running: bool,
    queue_len: usize,
    debounce: u32,
    projected_marker: Option<u64>,
    last_marker: u64,
    cooldown: u32,
) -> PlannerStart {
    if running || queue_len >= 8 {
        PlannerStart::Skip
    } else if debounce > 0 {
        PlannerStart::Debounce { remaining: (debounce - 1) as u32 }
    } else {
        match projected_marker {
            None => PlannerStart::Skip,
            Some(marker) => if cooldown > 0 && marker == last_marker {
                PlannerStart::Skip
            } else {
                PlannerStart::Start { release_cooldown: cooldown > 0 }
            },
        }
    }
}

/// Decides whether the planner starts: not while it runs or the queue holds
/// enough, not during the restart debounce (which counts down), not without a
/// projected position (its progress marker given), and during a cooldown only
/// once the position's progress marker moved since the last start.
pub fn freecell_planner_start_decision(
    running: bool,
    queue_len: usize,
    debounce: u32,
    projected_marker: Option<u64>,
    last_marker: u64,
    cooldown: u32,
) -> (r: PlannerStart)
    ensures
        r == planner_start_spec(running, queue_len, debounce, projected_marker, last_marker, cooldown),
{
    if running {
        return PlannerStart::Skip;
    }
    let (low_watermark, high_watermark) = freecell_planner_queue_bounds();
    if queue_len >= low_watermark || queue_len >= high_watermark {
        return PlannerStart::Skip;
    }
    if debounce > 0 {
        return PlannerStart::Debounce { remaining: debounce - 1 };
    }
    let marker = match projected_marker {
        Some(m) => m,
        None => {
            return PlannerStart::Skip;
        },
    };
    if cooldown > 0 {
        if marker == last_marker {
            return PlannerStart::Skip;
        }
        return PlannerStart::Start { release_cooldown: true };
    }
    PlannerStart::Start { release_cooldown: false }
}

// ---------------------------------------------------------------------------
// Progress measures
// ---------------------------------------------------------------------------

/// Spider progress for the stall tracker: thirteen cards per completed run
/// (saturating), and the empty columns.
pub fn spider_progress_snapshot(game: &SpiderGame) -> (r: (u32, u32))
    ensures
        r.0 == (if (game@.completed_runs as u32) * 13 > u32::MAX { u32::MAX as int } else { (game@.completed_runs as u32) * 13 }),
        r.1 == empty_total(game@.piles) as u32,
{
    let runs = game.completed_runs() as u32;
    let foundation_like = match runs.checked_mul(13) {
        Some(v) => v,
        None => u32::MAX,
    };
    let empty_cols = spider_empty_col_count(game) as u32;
    (foundation_like, empty_cols)
}

/// FreeCell progress for the stall tracker: the foundation cards and the
/// empty columns.
pub fn freecell_progress_snapshot(game: &FreecellGame) -> (r: (u32, u32))
    requires
        fc_ok(game@),
    ensures
        r.0 == pile_card_sum(game@.foundations),
        r.1 == empty_columns(game@.tableau),
{
    let foundation_like = game.foundation_card_count();
    let empty_cols = freecell_empty_columns(game);
    (foundation_like as u32, empty_cols as u32)
}

// ---------------------------------------------------------------------------
// Tick sequencing
// ---------------------------------------------------------------------------

/// How a robot tick begins.
#[derive(Debug, Clone, Copy, PartialEq, Eq, Structural)]
pub enum RobotTickStart {
    /// Robot mode is off: nothing happens.
    Idle,
    /// The deal is won: the win is handled and the tick ends.
    HandleWin,
    /// A stored solver line is being replayed: play its next move.
    Scripted(HintMove),
    /// A stored solver line is being replayed but has no move left: stop.
    StopScriptedUnavailable,
    /// A FreeCell deal: the planner path decides the move.
    FreecellTurn,
    /// Another deal: the hint search decides the move.
    SearchTurn,
}

pub open spec fn tick_start_spec(
    running: bool,
    won: bool,
    use_scripted: bool,
    scripted_move: Option<HintMove>,
    freecell: bool,
) -> RobotTickStart {
    if !running {
        RobotTickStart::Idle
    } else if won {
        RobotTickStart::HandleWin
    } else if use_scripted {
        match scripted_move {
            Some(m) => RobotTickStart::Scripted(m),
            None => RobotTickStart::StopScriptedUnavailable,
        }
    } else if freecell {
        RobotTickStart::FreecellTurn
    } else {
        RobotTickStart::SearchTurn
    }
}

/// The start of a tick: off, won, a stored line's next move (`scripted_move`
/// is what was taken from it when one is replayed), the FreeCell planner
/// path, or the hint search.
pub fn robot_tick_start(
    running: bool,
    won: bool,
    use_scripted: bool,
    scripted_move: Option<HintMove>,
    freecell: bool,
) -> (r: RobotTickStart)
    ensures
        r == tick_start_spec(running, won, use_scripted, scripted_move, freecell),
{
    if !running {
        RobotTickStart::Idle
    } else if won {
        RobotTickStart::HandleWin
    } else if use_scripted {
        match scripted_move {
            Some(m) => RobotTickStart::Scripted(m),
            None => RobotTickStart::StopScriptedUnavailable,
        }
    } else if freecell {
        RobotTickStart::FreecellTurn
    } else {
        RobotTickStart::SearchTurn
    }
}

/// What a FreeCell tick does once its plan has no move left.
#[derive(Debug, Clone, Copy, PartialEq, Eq, Structural)]
pub enum FreecellEmptyPlan {
    /// The stored solver line ran out: stop robot mode.
    StopScriptedUnavailable,
    /// The planner failed for this position: cancel it, reset its wait and
    /// take the fallback path.
    FallbackAfterFailure,
    /// The planner is running: consult the watchdog.
    Watch,
    /// No planner is running: take the fallback path.
    Fallback,
}

pub open spec fn empty_plan_spec(scripted_active: bool, planner_failed: bool, planner_running: bool) -> FreecellEmptyPlan {
    if scripted_active {
        FreecellEmptyPlan::StopScriptedUnavailable
    } else if planner_failed {
        FreecellEmptyPlan::FallbackAfterFailure
    } else if planner_running {
        FreecellEmptyPlan::Watch
    } else {
        FreecellEmptyPlan::Fallback
    }
}

/// With the FreeCell plan empty: a stored line that ran out stops the
/// robot; a planner that failed for this position gives way to the
/// fallback; otherwise (once the planner was started if needed) a running
/// planner is waited on and an idle one gives way to the fallback.
pub fn freecell_empty_plan_step(scripted_active: bool, planner_failed: bool, planner_running: bool) -> (r: FreecellEmptyPlan)
    ensures
        r == empty_plan_spec(scripted_active, planner_failed, planner_running),
{
    if scripted_active {
        FreecellEmptyPlan::StopScriptedUnavailable
    } else if planner_failed {
        FreecellEmptyPlan::FallbackAfterFailure
    } else if planner_running {
        FreecellEmptyPlan::Watch
    } else {
        FreecellEmptyPlan::Fallback
    }
}

/// The planner counters a FreeCell robot tick carries over.
#[derive(Debug, Clone, Copy, PartialEq, Eq, Structural)]
pub struct FreecellTickCounters {
    /// Ticks spent waiting for the running planner.
    pub wait_ticks: u32,
    /// Ticks without a robot move.
    pub no_move_ticks: u32,
}

/// What a FreeCell robot tick does about its planned moves.
#[derive(Debug, Clone, Copy, PartialEq, Eq, Structural)]
pub enum FreecellTickAction {
    /// Play the next planned (or scripted) move.
    PlayPlanned,
    /// The stored solver line ran out: stop robot mode.
    StopScripted,
    /// Take the fallback path; drop the planner first when `cancel_planner`,
    /// and its queue too when `clear_plan`.
    Fallback { cancel_planner: bool, clear_plan: bool },
    /// The planner took too long: start it over and end the tick.
    RestartPlanner,
    /// Keep waiting for the planner and end the tick; `log` tells whether
    /// this tick writes a wait status line.
    Wait { log: bool },
}

pub open spec fn freecell_tick_spec(
    c: FreecellTickCounters,
    plan_empty: bool,
    scripted_active: bool,
    planner_failed: bool,
    planner_running: bool,
    wait_limit: u32,
    no_move_limit: u32,
) -> (FreecellTickCounters, FreecellTickAction) {
    if !plan_empty {
        (FreecellTickCounters { wait_ticks: 0, no_move_ticks: 0 }, FreecellTickAction::PlayPlanned)
    } else {
        match empty_plan_spec(scripted_active, planner_failed, planner_running) {
            FreecellEmptyPlan::StopScriptedUnavailable => (c, FreecellTickAction::StopScripted),
            FreecellEmptyPlan::FallbackAfterFailure => (
                FreecellTickCounters { wait_ticks: 0, ..c },
                FreecellTickAction::Fallback { cancel_planner: true, clear_plan: false },
            ),
            FreecellEmptyPlan::Fallback => (c, FreecellTickAction::Fallback { cancel_planner: false, clear_plan: false }),
            FreecellEmptyPlan::Watch => {
                let c2 = FreecellTickCounters { wait_ticks: sat_inc(c.wait_ticks), no_move_ticks: sat_inc(c.no_move_ticks) };
                match planner_watchdog_spec(c2.wait_ticks, c2.no_move_ticks, wait_limit, no_move_limit) {
                    FreecellPlannerWatchdog::Recover => (c2, FreecellTickAction::Fallback { cancel_planner: true, clear_plan: true }),
                    FreecellPlannerWatchdog::Restart => (c2, FreecellTickAction::RestartPlanner),
                    FreecellPlannerWatchdog::Wait { log } => (c2, FreecellTickAction::Wait { log }),
                }
            },
        }
    }
}

/// One FreeCell robot tick, from the state of its plan and planner to what
/// it does and the counters it carries over. A planned move is played with
/// the counters reset. With the plan empty, `freecell_empty_plan_step`
/// decides; a planner that failed gives way to the fallback with its wait
/// reset, and a running planner is waited on under
/// `freecell_planner_watchdog`.
pub fn freecell_tick_step(
    c: FreecellTickCounters,
    plan_empty: bool,
    scripted_active: bool,
    planner_failed: bool,
    planner_running: bool,
    wait_limit: u32,
    no_move_limit: u32,
) -> (r: (FreecellTickCounters, FreecellTickAction))
    ensures
        r == freecell_tick_spec(c, plan_empty, scripted_active, planner_failed, planner_running, wait_limit, no_move_limit),
{
    if !plan_empty {
        return (FreecellTickCounters { wait_ticks: 0, no_move_ticks: 0 }, FreecellTickAction::PlayPlanned);
    }
    match freecell_empty_plan_step(scripted_active, planner_failed, planner_running) {
        FreecellEmptyPlan::StopScriptedUnavailable => (c, FreecellTickAction::StopScripted),
        FreecellEmptyPlan::FallbackAfterFailure => (
            FreecellTickCounters { wait_ticks: 0, no_move_ticks: c.no_move_ticks },
            FreecellTickAction::Fallback { cancel_planner: true, clear_plan: false },
        ),
        FreecellEmptyPlan::Fallback => (c, FreecellTickAction::Fallback { cancel_planner: false, clear_plan: false }),
        FreecellEmptyPlan::Watch => {
            let (verdict, wait, no_move) = freecell_planner_watchdog(c.wait_ticks, c.no_move_ticks, wait_limit, no_move_limit);
            let c2 = FreecellTickCounters { wait_ticks: wait, no_move_ticks: no_move };
            match verdict {
                FreecellPlannerWatchdog::Recover => (c2, FreecellTickAction::Fallback { cancel_planner: true, clear_plan: true }),
                FreecellPlannerWatchdog::Restart => (c2, FreecellTickAction::RestartPlanner),
                FreecellPlannerWatchdog::Wait { log } => (c2, FreecellTickAction::Wait { log }),
            }
        },
    }
}

} // verus!
