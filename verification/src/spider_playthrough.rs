//! A single guided Spider playthrough per seed: budgets and policies by
//! suit mode, the step loop that plays the solver's choices, and the
//! scoring of attempts.

use vstd::prelude::*;
use std::collections::{HashSet, VecDeque};
use std::sync::atomic::AtomicBool;
use crate::cancel::{
    all_clear, cancel_requested, clear_before_last, last_raised, lemma_all_clear, lemma_clear_to_end,
    lemma_read_after_clear, lemma_reads_concat,
};
use crate::moves::HintMove;
use crate::spider::{
    board_ok, can_move_run_spec, is_won_spec, move_run_spec, next_u64, spider_deal, xorshift_state, SpiderBoard,
    SpiderGame, SpiderSuitMode,
};
use crate::spider_choice::{
    context_of, neutral_policy, policy_ok, spider_solver_choose_move, SpiderSolverDecision, SpiderSolverNoMoveReason,
    SpiderSolverPolicy,
};
use crate::spider_cycle::{
    detect_cycle_spec, texts, spider_solver_detect_repeating_tail_cycle_with_limit, spider_solver_move_signature,
    SPIDER_SOLVER_REPEAT_SEQUENCE_LIMIT,
};
use crate::spider_hash::{spider_hash_spec, spider_state_hash};
use crate::spider_stall::{
    lemma_structure_stagnated, lemma_stock_stays_empty, post_stalled, post_stock_start, post_stock_step, stagnated,
    structure_start, structure_step, post_stock_ok, structure_ok,
};
use crate::spider_walk::{
    attempt_rng_seed, lemma_positions_last, lemma_positions_push, lemma_positions_start, sp_positions, lemma_sp_walk_facts, lemma_sp_walk_no_pick, lemma_sp_walk_start, lemma_sp_walk_step,
    lemma_step_choice, lemma_step_no_pick, sp_greedy, sp_no_pick_at, sp_walk, step_choice, step_no_pick,
};
use crate::spider_metrics::{
    descending_face_up, edges_total, empty_total, hidden_total, is_descending_face_up_run, max_tail,
    spider_empty_col_count, spider_hidden_count, spider_max_face_up_run_len, spider_suited_desc_edges,
};
use crate::spider_search::{line_wins, replay};
use crate::spider_solver::{apply_move_spec, move_legal, ranked_spec, spider_solver_ranked_candidates};
use crate::winnability::SpiderFindStopReason;

verus! {

/// Stagnation limit outside four-suit play.
pub const SPIDER_SOLVER_STAGNATION_MOVE_LIMIT: usize = 100;

/// The playthrough step budget: guided plus exhaustive budget (saturating),
/// kept between 64 and a cap per suit mode.
pub open spec fn find_step_budget_spec(mode: SpiderSuitMode, guided: usize, exhaustive: usize) -> int {
    let requested = if guided + exhaustive > usize::MAX { usize::MAX as int } else { guided + exhaustive };
    let cap: int = match mode {
        SpiderSuitMode::One => 512,
        SpiderSuitMode::Two => 256,
        SpiderSuitMode::Three => 224,
        SpiderSuitMode::Four => 640,
    };
    if requested < 64 { 64 } else if requested > cap { cap } else { requested }
}

pub fn capped_spider_find_step_budget(suit_mode: SpiderSuitMode, guided_budget: usize, exhaustive_budget: usize) -> (r: usize)
    ensures
        r == find_step_budget_spec(suit_mode, guided_budget, exhaustive_budget),
        64 <= r <= 640,
{
    let requested = guided_budget.saturating_add(exhaustive_budget);
    let cap: usize = match suit_mode {
        SpiderSuitMode::One => 512,
        SpiderSuitMode::Two => 256,
        SpiderSuitMode::Three => 224,
        SpiderSuitMode::Four => 640,
    };
    if requested < 64 {
        64
    } else if requested > cap {
        cap
    } else {
        requested
    }
}

/// The number of playthrough steps a seed check may take.
pub fn spider_find_step_budget(suit_mode: SpiderSuitMode, guided_budget: usize, exhaustive_budget: usize) -> (r: usize)
    ensures
        r == find_step_budget_spec(suit_mode, guided_budget, exhaustive_budget),
{
    capped_spider_find_step_budget(suit_mode, guided_budget, exhaustive_budget)
}

/// Moves without structural progress before a playthrough gives up.
pub fn spider_find_stagnation_move_limit(suit_mode: SpiderSuitMode) -> (r: usize)
    ensures
        r == (if suit_mode == SpiderSuitMode::Four { 220 } else { SPIDER_SOLVER_STAGNATION_MOVE_LIMIT }),
{
    match suit_mode {
        SpiderSuitMode::Four => 220,
        _ => SPIDER_SOLVER_STAGNATION_MOVE_LIMIT,
    }
}

/// Repeats of a move block that count as a cycle.
pub fn spider_find_repeat_sequence_limit(suit_mode: SpiderSuitMode) -> (r: usize)
    ensures
        r == (if suit_mode == SpiderSuitMode::Four { 5 } else { SPIDER_SOLVER_REPEAT_SEQUENCE_LIMIT }),
{
    match suit_mode {
        SpiderSuitMode::Four => 5,
        _ => SPIDER_SOLVER_REPEAT_SEQUENCE_LIMIT,
    }
}

/// Steps after the stock ran out with neither a reveal nor structural
/// progress before a playthrough stops.
pub open spec fn spider_post_stall_spec(suit_mode: SpiderSuitMode) -> int {
    match suit_mode {
        SpiderSuitMode::Four => 48,
        SpiderSuitMode::Three => 40,
        SpiderSuitMode::Two => 36,
        SpiderSuitMode::One => 32,
    }
}

pub fn spider_find_post_stock_stall_limit(suit_mode: SpiderSuitMode) -> (r: usize)
    ensures
        r == spider_post_stall_spec(suit_mode),
{
    match suit_mode {
        SpiderSuitMode::Four => 48,
        SpiderSuitMode::Three => 40,
        SpiderSuitMode::Two => 36,
        SpiderSuitMode::One => 32,
    }
}

/// Every shaping value of the policy lies within `bound` of zero.
pub open spec fn policy_within(p: SpiderSolverPolicy, bound: int) -> bool {
    &&& -bound <= p.empty_col_bonus <= bound
    &&& -bound <= p.empty_bridge_bonus <= bound
    &&& -bound <= p.empty_bridge_len_bonus <= bound
    &&& -bound <= p.empty_create_bonus <= bound
    &&& -bound <= p.pre_last_draw_empty_bonus <= bound
    &&& -bound <= p.pre_last_draw_clear_bonus <= bound
    &&& -bound <= p.no_empty_nonclear_penalty <= bound
    &&& -bound <= p.post_stock_flat_penalty <= bound
    &&& -bound <= p.last_empty_fill_penalty <= bound
}

/// The playthrough policy: the neutral winnability policy, reshaped for one
/// and four suits to value empty columns and cleared sources.
pub fn spider_find_policy(suit_mode: SpiderSuitMode) -> (r: SpiderSolverPolicy)
    ensures
        policy_within(r, 14_000),
        policy_ok(r),
        suit_mode == SpiderSuitMode::One ==> r.top_width == 12 && r.recent_window == 10 && r.empty_create_bonus == 3_200
            && r.protect_last_empty_col && !r.require_post_stock_progress && r.last_empty_fill_penalty == 4_000,
        suit_mode == SpiderSuitMode::Four ==> r.top_width == 10 && r.recent_window == 16 && r.empty_create_bonus == 9_000
            && r.protect_last_empty_col && r.require_post_stock_progress && r.last_empty_fill_penalty == 14_000,
        (suit_mode == SpiderSuitMode::Two || suit_mode == SpiderSuitMode::Three)
            ==> neutral_policy(r),
{
    let mut policy = SpiderSolverPolicy::winnability_default();
    if suit_mode == SpiderSuitMode::One {
        policy.top_width = 12;
        policy.recent_window = 10;
        policy.empty_col_bonus = 800;
        policy.empty_bridge_bonus = 700;
        policy.empty_bridge_len_bonus = 80;
        policy.empty_create_bonus = 3_200;
        policy.pre_last_draw_empty_bonus = 1_200;
        policy.pre_last_draw_clear_bonus = 1_400;
        policy.no_empty_nonclear_penalty = 600;
        policy.post_stock_flat_penalty = 2_200;
        policy.require_post_stock_progress = false;
        policy.protect_last_empty_col = true;
        policy.last_empty_fill_penalty = 4_000;
    } else if suit_mode == SpiderSuitMode::Four {
        policy.top_width = 10;
        policy.recent_window = 16;
        policy.empty_col_bonus = 2_600;
        policy.empty_bridge_bonus = 1_800;
        policy.empty_bridge_len_bonus = 130;
        policy.empty_create_bonus = 9_000;
        policy.pre_last_draw_empty_bonus = 2_600;
        policy.pre_last_draw_clear_bonus = 2_800;
        policy.no_empty_nonclear_penalty = 2_000;
        policy.post_stock_flat_penalty = 12_000;
        policy.require_post_stock_progress = true;
        policy.protect_last_empty_col = true;
        policy.last_empty_fill_penalty = 14_000;
    }
    policy
}

/// A run move from a face-up descending run that turns over a hidden card.
#[verifier::opaque]
pub open spec fn reveal_move(b: SpiderBoard, src: int, start: int, dst: int) -> bool {
    &&& 0 <= src < 10
    &&& 0 <= dst < 10
    &&& 0 <= start < b.piles[src].len()
    &&& b.piles[src][start].face_up
    &&& descending_face_up(b.piles[src].subrange(start, b.piles[src].len() as int))
    &&& can_move_run_spec(b, src, start, dst)
    &&& hidden_total(move_run_spec(b, src, start, dst).piles) < hidden_total(b.piles)
}

pub open spec fn reveal_ready_spec(b: SpiderBoard) -> bool {
    exists|src: int, start: int, dst: int| reveal_move(b, src, start, dst)
}

/// Whether some run move turns over a hidden card.
#[verifier::rlimit(40)]
pub fn spider_has_reveal_ready_move(game: &SpiderGame) -> (r: bool)
    requires
        board_ok(game@),
    ensures
        r == reveal_ready_spec(game@),
{
    let ghost b = game@;
    let hidden_before = spider_hidden_count(game);
    let tableau = game.tableau();
    for src in 0..10usize
        invariant
            b == game@,
            board_ok(b),
            hidden_before == hidden_total(b.piles),
            tableau@.len() == b.piles.len(),
            forall|i: int| 0 <= i < tableau@.len() ==> (#[trigger] tableau@[i])@ == b.piles[i],
            forall|s: int, st: int, d: int| 0 <= s < src ==> !reveal_move(b, s, st, d),
    {
        let source = &tableau[src];
        assert(source@ == b.piles[src as int]);
        let n = source.len();
        for start in 0..n
            invariant
                b == game@,
                board_ok(b),
                src < 10,
                hidden_before == hidden_total(b.piles),
                source@ == b.piles[src as int],
                n == source@.len(),
                forall|s: int, st: int, d: int| 0 <= s < src ==> !reveal_move(b, s, st, d),
                forall|st: int, d: int| 0 <= st < start ==> !reveal_move(b, src as int, st, d),
        {
            let run_ok = source[start].face_up
                && is_descending_face_up_run(vstd::slice::slice_subrange(source.as_slice(), start, n));
            if !run_ok {
                assert forall|d: int| !reveal_move(b, src as int, start as int, d) by {
                    reveal(reveal_move);
                }
            } else {
            for dst in 0..10usize
                invariant
                    b == game@,
                    board_ok(b),
                    src < 10,
                    start < n,
                    hidden_before == hidden_total(b.piles),
                    source@ == b.piles[src as int],
                    n == source@.len(),
                    forall|s: int, st: int, d: int| 0 <= s < src ==> !reveal_move(b, s, st, d),
                    forall|st: int, d: int| 0 <= st < start ==> !reveal_move(b, src as int, st, d),
                    forall|d: int| 0 <= d < dst ==> !reveal_move(b, src as int, start as int, d),
                    b.piles[src as int][start as int].face_up,
                    descending_face_up(b.piles[src as int].subrange(start as int, n as int)),
            {
                if game.can_move_run(src, start, dst) {
                    let mut next = game.duplicate();
                    let moved = next.move_run(src, start, dst);
                    if moved && spider_hidden_count(&next) < hidden_before {
                        assert(reveal_move(b, src as int, start as int, dst as int)) by {
                            reveal(reveal_move);
                        }
                        return true;
                    }
                    assert(!reveal_move(b, src as int, start as int, dst as int)) by {
                        reveal(reveal_move);
                    }
                } else {
                    assert(!reveal_move(b, src as int, start as int, dst as int)) by {
                        reveal(reveal_move);
                    }
                }
            }
            assert forall|d: int| !reveal_move(b, src as int, start as int, d) by {
                if !(0 <= d < 10) {
                    reveal(reveal_move);
                }
            }
            }
        }
        assert forall|st: int, d: int| !reveal_move(b, src as int, st, d) by {
            if !(0 <= st < n) {
                reveal(reveal_move);
            }
        }
    }
    assert forall|s: int, st: int, d: int| !reveal_move(b, s, st, d) by {
        if !(0 <= s < 10) {
            reveal(reveal_move);
        }
    }
    false
}


/// The outcome of one playthrough: the winning line if it won, the work
/// done, why it stopped, and measures of the position it stopped in.
#[derive(Debug)]
pub struct SpiderSinglePlaythroughResult {
    pub line: Option<Vec<HintMove>>,
    pub expanded_states: usize,
    pub generated_branches: usize,
    pub stop_reason: SpiderFindStopReason,
    pub completed_runs: usize,
    pub stock_cards: usize,
    pub face_down_cards: usize,
    pub empty_cols: usize,
    pub suited_edges: usize,
    pub max_tail_run: usize,
    pub cycle_period: usize,
    pub cycle_blocks: usize,
    pub draw_moves: usize,
    pub tableau_moves: usize,
    pub reveal_moves: usize,
    pub peak_suited_edges: usize,
    pub peak_tail_run: usize,
    pub peak_empty_cols: usize,
    pub empty_creates: usize,
    pub adapt_events: usize,
}

/// Running tallies of a playthrough.
#[derive(Debug, Clone, Copy)]
struct Tally {
    draw_moves: usize,
    tableau_moves: usize,
    reveal_moves: usize,
    peak_suited_edges: usize,
    peak_tail_run: usize,
    peak_empty_cols: usize,
    empty_creates: usize,
    adapt_events: usize,
}

/// The result's position measures are those of `b`.
pub open spec fn measures_of(b: SpiderBoard, r: SpiderSinglePlaythroughResult) -> bool {
    &&& r.completed_runs == b.completed_runs
    &&& r.stock_cards == b.stock.len()
    &&& r.face_down_cards == hidden_total(b.piles)
    &&& r.empty_cols == empty_total(b.piles)
    &&& r.suited_edges == edges_total(b.piles)
    &&& r.max_tail_run == max_tail(b.piles)
}

/// What holds of every playthrough from `deal` with at most `max_steps` moves:
/// it stopped in a position reached by legal play, after as many moves as
/// it reports; it reports a line exactly when it won, and that line is the
/// winning play.
pub open spec fn playthrough_ok(deal: SpiderBoard, r: SpiderSinglePlaythroughResult, max_steps: int) -> bool {
    &&& playthrough_sound(deal, r, max_steps)
    &&& (r.stop_reason == SpiderFindStopReason::Won ==> r.line is Some)
    &&& (r.stop_reason == SpiderFindStopReason::StepLimit ==> r.expanded_states == max_steps)
}

/// How many deals from the stock a line holds.
pub open spec fn draws_in(moves: Seq<HintMove>) -> nat
    decreases moves.len(),
{
    if moves.len() == 0 {
        0
    } else {
        draws_in(moves.drop_last()) + (if moves.last() == HintMove::Draw { 1nat } else { 0nat })
    }
}

/// A reported line is a win from `deal`, and the reported measures are those
/// of a position legal play reaches from `deal` in `expanded_states` moves;
/// a reported line's deals and other moves are the counted ones.
pub open spec fn playthrough_sound(deal: SpiderBoard, r: SpiderSinglePlaythroughResult, max_steps: int) -> bool {
    &&& r.expanded_states <= max_steps
    &&& (r.line is Some ==> r.stop_reason == SpiderFindStopReason::Won)
    &&& (r.line matches Some(l) ==> r.draw_moves == draws_in(l@) && r.draw_moves + r.tableau_moves
        == r.expanded_states)
    &&& (r.line matches Some(l) ==> line_wins(deal, l@))
    &&& exists|moves: Seq<HintMove>| {
        &&& #[trigger] replay(deal, moves) is Some
        &&& moves.len() == r.expanded_states
        &&& measures_of(replay(deal, moves)->0, r)
        &&& (r.line matches Some(l) ==> l@ == moves)
    }
}

/// Every move an attempt played is the chooser's pick: some line of moves,
/// legal from `deal`, as long as the result reports and ending in the
/// position its measures were taken in (the reported line, if there is one),
/// has each move picked with the attempt's generator started at `rng0`.
/// When it stopped for want of a move, the chooser had no pick in the
/// position it stood in; when it stopped on a cycle, either the chooser had
/// no pick because every candidate let through returned to a recent
/// position, or the last moves repeat a block more than `rep` times.
pub open spec fn attempt_greedy(
    deal: SpiderBoard,
    mode: SpiderSuitMode,
    rng0: u64,
    rep: int,
    stag: int,
    post: int,
    r: SpiderSinglePlaythroughResult,
) -> bool {
    exists|moves: Seq<HintMove>| {
        &&& #[trigger] replay(deal, moves) is Some
        &&& moves.len() == r.expanded_states
        &&& measures_of(replay(deal, moves)->0, r)
        &&& (r.line matches Some(l) ==> l@ == moves)
        &&& sp_greedy(deal, mode, rng0, moves)
        &&& (r.stop_reason == SpiderFindStopReason::NoAction ==> sp_no_pick_at(
            deal,
            moves,
            mode,
            rng0,
            moves.len() as int,
            false,
        ))
        &&& (r.stop_reason == SpiderFindStopReason::RepeatStateCycle ==> sp_no_pick_at(
            deal,
            moves,
            mode,
            rng0,
            moves.len() as int,
            true,
        ) || r.cycle_blocks > rep)
        &&& (r.stop_reason == SpiderFindStopReason::RepeatStateStagnation ==> stagnated(sp_positions(deal, moves), stag))
        &&& (r.stop_reason == SpiderFindStopReason::PostStockStall ==> post_stalled(sp_positions(deal, moves), post))
    }
}

/// The stop reasons that counters decide: running out of steps means all
/// `max_steps` were played; stagnation comes after at least `stag` moves;
/// a stall after the stock ran out comes with the stock empty and after at
/// least `post` moves. An attempt never stops on a bare repeated position,
/// and always gives a reason.
pub open spec fn attempt_stops(r: SpiderSinglePlaythroughResult, max_steps: int, stag: int, post: int) -> bool {
    &&& (r.stop_reason == SpiderFindStopReason::StepLimit ==> r.expanded_states == max_steps)
    &&& (r.stop_reason == SpiderFindStopReason::RepeatStateStagnation ==> r.expanded_states >= stag)
    &&& (r.stop_reason == SpiderFindStopReason::PostStockStall ==> r.stock_cards == 0 && r.expanded_states >= post)
    &&& r.stop_reason != SpiderFindStopReason::RepeatState
    &&& r.stop_reason != SpiderFindStopReason::Unset
}

/// An attempt run with these limits: its moves are the chooser's picks and
/// its stop reason shows in what it reports.
pub open spec fn attempt_ok(
    deal: SpiderBoard,
    mode: SpiderSuitMode,
    rng0: u64,
    r: SpiderSinglePlaythroughResult,
    max_steps: int,
    stag: int,
    rep: int,
    post: int,
) -> bool {
    attempt_greedy(deal, mode, rng0, rep, stag, post, r) && attempt_stops(r, max_steps, stag, post)
}

fn finish_attempt(
    line: Option<Vec<HintMove>>,
    expanded_states: usize,
    generated_branches: usize,
    stop_reason: SpiderFindStopReason,
    game: &SpiderGame,
    signatures: &Vec<String>,
    repeat_limit: usize,
    t: Tally,
) -> (r: SpiderSinglePlaythroughResult)
    requires
        board_ok(game@),
    ensures
        r.line == line,
        r.expanded_states == expanded_states,
        r.generated_branches == generated_branches,
        r.stop_reason == stop_reason,
        measures_of(game@, r),
        r.draw_moves == t.draw_moves && r.tableau_moves == t.tableau_moves && r.reveal_moves == t.reveal_moves,
        r.empty_creates == t.empty_creates && r.adapt_events == t.adapt_events,
        signatures@.len() == 0 ==> r.cycle_period == 0 && r.cycle_blocks == 0,
        detect_cycle_spec(texts(signatures@), repeat_limit as nat) is Some ==> r.cycle_blocks > repeat_limit,
{
    let cycle = spider_solver_detect_repeating_tail_cycle_with_limit(signatures.as_slice(), repeat_limit);
    let (cycle_period, cycle_blocks) = match cycle {
        Some((p, b)) => (p, b),
        None => (0, 0),
    };
    SpiderSinglePlaythroughResult {
        line,
        expanded_states,
        generated_branches,
        stop_reason,
        completed_runs: game.completed_runs(),
        stock_cards: game.stock_len(),
        face_down_cards: spider_hidden_count(game),
        empty_cols: spider_empty_col_count(game),
        suited_edges: spider_suited_desc_edges(game),
        max_tail_run: spider_max_face_up_run_len(game),
        cycle_period,
        cycle_blocks,
        draw_moves: t.draw_moves,
        tableau_moves: t.tableau_moves,
        reveal_moves: t.reveal_moves,
        peak_suited_edges: t.peak_suited_edges,
        peak_tail_run: t.peak_tail_run,
        peak_empty_cols: t.peak_empty_cols,
        empty_creates: t.empty_creates,
        adapt_events: t.adapt_events,
    }
}

fn max_usize(a: usize, b: usize) -> (r: usize)
    ensures
        r == (if a >= b { a } else { b }),
{
    if a >= b { a } else { b }
}

fn min_usize(a: usize, b: usize) -> (r: usize)
    ensures
        r == (if a <= b { a } else { b }),
{
    if a <= b { a } else { b }
}

/// Bound on the policy after `steps` adaptive steps from a base within 2^30.
pub open spec fn adaptive_bound(steps: int) -> int {
    0x4000_0000 + 4000 * steps
}


/// Ends a playthrough that did not win.
fn stopped(
    Ghost(deal): Ghost<SpiderBoard>,
    Ghost(played): Ghost<Seq<HintMove>>,
    Ghost(max_steps): Ghost<int>,
    Ghost(mode): Ghost<SpiderSuitMode>,
    Ghost(rng0): Ghost<u64>,
    Ghost(stag): Ghost<int>,
    Ghost(post): Ghost<int>,
    expanded_states: usize,
    generated_branches: usize,
    stop_reason: SpiderFindStopReason,
    game: &SpiderGame,
    signatures: &Vec<String>,
    repeat_limit: usize,
    t: Tally,
) -> (r: SpiderSinglePlaythroughResult)
    requires
        board_ok(game@),
        replay(deal, played) == Some(game@),
        played.len() == expanded_states,
        expanded_states <= max_steps,
        stop_reason != SpiderFindStopReason::Won,
        stop_reason != SpiderFindStopReason::RepeatState,
        stop_reason != SpiderFindStopReason::Unset,
        stop_reason == SpiderFindStopReason::StepLimit ==> expanded_states == max_steps,
        sp_greedy(deal, mode, rng0, played),
        stop_reason == SpiderFindStopReason::RepeatStateStagnation ==> expanded_states >= stag && stagnated(
            sp_positions(deal, played),
            stag,
        ),
        stop_reason == SpiderFindStopReason::PostStockStall ==> game@.stock.len() == 0 && expanded_states >= post
            && post_stalled(sp_positions(deal, played), post),
        stop_reason == SpiderFindStopReason::NoAction ==> sp_no_pick_at(deal, played, mode, rng0, played.len() as int, false),
        stop_reason == SpiderFindStopReason::RepeatStateCycle ==> sp_no_pick_at(
            deal,
            played,
            mode,
            rng0,
            played.len() as int,
            true,
        ) || detect_cycle_spec(texts(signatures@), repeat_limit as nat) is Some,
    ensures
        playthrough_ok(deal, r, max_steps),
        attempt_ok(deal, mode, rng0, r, max_steps, stag, repeat_limit as int, post),
        r.stop_reason == stop_reason,
{
    let r = finish_attempt(None, expanded_states, generated_branches, stop_reason, game, signatures, repeat_limit, t);
    assert(replay(deal, played) is Some);
    r
}

/// The chooser's decision for one step of an attempt: with the forcing
/// policy (and, when a source-clearing move is forced, the filter that keeps
/// only whole-column runs) first, then with the adaptive policy, then with no
/// filter where the last deal is blocked or play after the stock is being
/// rescued. Deals are filtered out while `block_draw` holds.
fn guided_decision(
    game: &SpiderGame,
    suit_mode: SpiderSuitMode,
    parent_hash: Option<u64>,
    seen_hashes: &HashSet<u64>,
    recent_hashes: &VecDeque<u64>,
    selection_salt: u64,
    force_policy: SpiderSolverPolicy,
    adaptive_policy: SpiderSolverPolicy,
    force_source_clear: bool,
    block_draw: bool,
    any_fallback: bool,
    post_stock_rescue: bool,
) -> (r: Result<SpiderSolverDecision, SpiderSolverNoMoveReason>)
    requires
        board_ok(game@),
        policy_ok(force_policy),
        policy_ok(adaptive_policy),
    ensures
        r matches Ok(d) ==> {
            &&& step_choice(
                game@,
                seen_hashes@,
                recent_hashes@,
                ranked_spec(game@, suit_mode, parent_hash),
                selection_salt,
                d.hint_move,
            )
            &&& d.next_hash == spider_hash_spec(d.next_state@)
            &&& board_ok(d.next_state@)
            &&& move_legal(game@, d.hint_move)
            &&& d.next_state@ == apply_move_spec(game@, d.hint_move)
        },
        r matches Err(reason) ==> step_no_pick(
            game@,
            seen_hashes@,
            recent_hashes@,
            ranked_spec(game@, suit_mode, parent_hash),
            selection_salt,
            reason == SpiderSolverNoMoveReason::LoopFiltered,
        ),
{
    let draw_filter = move |m: HintMove| -> (ok: bool)
        ensures
            ok == (match m {
                HintMove::Draw => !block_draw,
                _ => true,
            }),
    {
        match m {
            HintMove::Draw => !block_draw,
            _ => true,
        }
    };
    let clear_filter = move |m: HintMove| -> (ok: bool)
        ensures
            ok == (match m {
                HintMove::TableauRunToTableau { start, .. } => start == 0,
                HintMove::Draw => !block_draw,
                _ => true,
            }),
    {
        match m {
            HintMove::TableauRunToTableau { start, .. } => start == 0,
            HintMove::Draw => !block_draw,
            _ => true,
        }
    };
    let any_filter = |_m: HintMove| -> (ok: bool)
        ensures
            ok,
    {
        true
    };
    let ghost ranked = ranked_spec(game@, suit_mode, parent_hash);
    let mut decision = if force_source_clear {
        let d = spider_solver_choose_move(game, suit_mode, parent_hash, seen_hashes, recent_hashes,
            selection_salt, force_policy, clear_filter);
        proof {
            if d is Ok {
                lemma_step_choice(context_of(game@, seen_hashes@, recent_hashes@, force_policy, clear_filter), ranked,
                    selection_salt, d->Ok_0.hint_move);
            } else {
                lemma_step_no_pick(context_of(game@, seen_hashes@, recent_hashes@, force_policy, clear_filter), ranked, selection_salt);
            }
        }
        d
    } else {
        let d = spider_solver_choose_move(game, suit_mode, parent_hash, seen_hashes, recent_hashes,
            selection_salt, force_policy, draw_filter);
        proof {
            if d is Ok {
                lemma_step_choice(context_of(game@, seen_hashes@, recent_hashes@, force_policy, draw_filter), ranked,
                    selection_salt, d->Ok_0.hint_move);
            } else {
                lemma_step_no_pick(context_of(game@, seen_hashes@, recent_hashes@, force_policy, draw_filter), ranked, selection_salt);
            }
        }
        d
    };
    if decision.is_err() && force_source_clear {
        decision = spider_solver_choose_move(game, suit_mode, parent_hash, seen_hashes, recent_hashes,
            selection_salt, adaptive_policy, draw_filter);
        proof {
            if decision is Ok {
                lemma_step_choice(context_of(game@, seen_hashes@, recent_hashes@, adaptive_policy, draw_filter), ranked,
                    selection_salt, decision->Ok_0.hint_move);
            } else {
                lemma_step_no_pick(context_of(game@, seen_hashes@, recent_hashes@, adaptive_policy, draw_filter), ranked, selection_salt);
            }
        }
    }
    if decision.is_err() && any_fallback {
        decision = spider_solver_choose_move(game, suit_mode, parent_hash, seen_hashes, recent_hashes,
            selection_salt, adaptive_policy, any_filter);
        proof {
            if decision is Ok {
                lemma_step_choice(context_of(game@, seen_hashes@, recent_hashes@, adaptive_policy, any_filter), ranked,
                    selection_salt, decision->Ok_0.hint_move);
            } else {
                lemma_step_no_pick(context_of(game@, seen_hashes@, recent_hashes@, adaptive_policy, any_filter), ranked, selection_salt);
            }
        }
    }
    if decision.is_err() && post_stock_rescue {
        decision = spider_solver_choose_move(game, suit_mode, parent_hash, seen_hashes, recent_hashes,
            selection_salt, force_policy, any_filter);
        proof {
            if decision is Ok {
                lemma_step_choice(context_of(game@, seen_hashes@, recent_hashes@, force_policy, any_filter), ranked,
                    selection_salt, decision->Ok_0.hint_move);
            } else {
                lemma_step_no_pick(context_of(game@, seen_hashes@, recent_hashes@, force_policy, any_filter), ranked, selection_salt);
            }
        }
    }
    decision
}

/// One guided playthrough of the deal of `seed`: at each step the solver
/// chooses a move among the ranked candidates, steered by the policy (which
/// adapts in four-suit play) and by the salt, until the game is won, no move
/// is left, the moves cycle, structure stops improving, the stock is empty
/// and play stalls, `max_steps` moves were played, or `cancel` is raised.
/// Also returns the readings of the cancel flag made along the way: all
/// clear but perhaps the last, and only a raised one cancels.
#[verifier::rlimit(100)]
pub fn spider_playthrough_attempt(
    seed: u64,
    suit_mode: SpiderSuitMode,
    max_steps: usize,
    stagnation_limit: usize,
    repeat_limit: usize,
    policy: SpiderSolverPolicy,
    salt: usize,
    cancel: &AtomicBool,
) -> (r: (SpiderSinglePlaythroughResult, Ghost<Seq<bool>>))
    requires
        max_steps <= 100_000,
        policy_within(policy, 0x4000_0000),
    ensures
        playthrough_ok(spider_deal(seed, suit_mode), r.0, max_steps as int),
        attempt_ok(
            spider_deal(seed, suit_mode),
            suit_mode,
            attempt_rng_seed(seed, salt),
            r.0,
            max_steps as int,
            stagnation_limit as int,
            repeat_limit as int,
            spider_post_stall_spec(suit_mode),
        ),
        clear_before_last(r.1@),
        (r.0.stop_reason == SpiderFindStopReason::Canceled) <==> last_raised(r.1@),
{
    let ghost deal = spider_deal(seed, suit_mode);
    let ghost rng0 = attempt_rng_seed(seed, salt);
    let ghost mut reads: Seq<bool> = Seq::empty();
    let mut game = SpiderGame::new_with_seed_and_mode(seed, suit_mode);
    let mut t = Tally {
        draw_moves: 0,
        tableau_moves: 0,
        reveal_moves: 0,
        peak_suited_edges: spider_suited_desc_edges(&game),
        peak_tail_run: spider_max_face_up_run_len(&game),
        peak_empty_cols: spider_empty_col_count(&game),
        empty_creates: 0,
        adapt_events: 0,
    };
    let mut recent_move_signatures: Vec<String> = Vec::new();
    if game.is_won() {
        let r = finish_attempt(Some(Vec::new()), 0, 0, SpiderFindStopReason::Won, &game, &recent_move_signatures, repeat_limit, t);
        assert(replay(deal, Seq::<HintMove>::empty()) is Some);
        assert(sp_greedy(deal, suit_mode, rng0, Seq::<HintMove>::empty()));
        proof {
            lemma_all_clear(reads);
        }
        return (r, Ghost(reads));
    }
    let mut seen_hashes: HashSet<u64> = HashSet::new();
    let mut recent_hashes: VecDeque<u64> = VecDeque::new();
    let start_hash = spider_state_hash(&game);
    seen_hashes.insert(start_hash);
    recent_hashes.push_back(start_hash);
    let mut parent_hash: Option<u64> = None;
    let mut line: Vec<HintMove> = Vec::new();
    let mut expanded_states: usize = 0;
    let mut generated_branches: usize = 0;
    let mut rng_state: u64 = seed ^ ((salt as u64) << 32u64) ^ 0x9E37_79B9_7F4A_7C15u64;
    let mut structure = structure_start(game.completed_runs(), spider_hidden_count(&game), spider_empty_col_count(&game),
        spider_suited_desc_edges(&game), spider_max_face_up_run_len(&game), Ghost(deal));
    let mut adaptive_policy = policy;
    let post_stock_stall_limit = spider_find_post_stock_stall_limit(suit_mode);
    let mut last_deal_blocked_steps: usize = 0;
    let mut no_empty_drought_steps: usize = 0;
    let mut post_stock = post_stock_start(Ghost(deal));
    let four = suit_mode == SpiderSuitMode::Four;
    assert(line@ =~= Seq::<HintMove>::empty());
    proof {
        lemma_sp_walk_start(deal, suit_mode, rng0);
        lemma_positions_start(deal);
        assert(seen_hashes@ =~= Set::<u64>::empty().insert(spider_hash_spec(deal)));
        assert(recent_hashes@ =~= seq![spider_hash_spec(deal)]);
    }

    for step in 0..max_steps
        invariant
            deal == spider_deal(seed, suit_mode),
            four == (suit_mode == SpiderSuitMode::Four),
            max_steps <= 100_000,
            board_ok(game@),
            replay(deal, line@) == Some(game@),
            line@.len() == expanded_states,
            expanded_states == step,
            policy_within(adaptive_policy, adaptive_bound(step as int)),
            t.draw_moves == draws_in(line@),
            t.draw_moves + t.tableau_moves == line@.len(),
            rng0 == attempt_rng_seed(seed, salt),
            all_clear(reads),
            sp_walk(deal, suit_mode, rng0, line@, game@, seen_hashes@, recent_hashes@, parent_hash, rng_state),
            post_stock_stall_limit == spider_post_stall_spec(suit_mode),
            structure_ok(sp_positions(deal, line@), structure),
            post_stock_ok(sp_positions(deal, line@), post_stock),
    {
        let ghost w_seen = seen_hashes@;
        let ghost w_recent = recent_hashes@;
        let ghost w_parent = parent_hash;
        let ghost w_rng = rng_state;
        let ghost w_game = game@;
        proof {
            lemma_sp_walk_facts(deal, suit_mode, rng0, line@, game@, w_seen, w_recent, w_parent, w_rng);
        }
        let raised = cancel_requested(cancel);
        proof {
            lemma_read_after_clear(reads, raised);
            reads = reads.push(raised);
        }
        if raised {
            return (stopped(Ghost(deal), Ghost(line@), Ghost(max_steps as int), Ghost(suit_mode), Ghost(rng0),
                Ghost(stagnation_limit as int), Ghost(post_stock_stall_limit as int), expanded_states, generated_branches,
                SpiderFindStopReason::Canceled, &game, &recent_move_signatures, repeat_limit, t), Ghost(reads));
        }
        let current_hash = spider_state_hash(&game);
        let branch_count = spider_solver_ranked_candidates(&game, suit_mode, parent_hash).len();
        generated_branches = generated_branches.saturating_add(branch_count);
        let selection_salt = next_u64(&mut rng_state);
        let last_deal_candidate = game.stock_len() == 10;
        let empty_now = spider_empty_col_count(&game);
        let last_deal_ready = empty_now > 0 || spider_has_reveal_ready_move(&game) || spider_suited_desc_edges(&game) >= 12
            || spider_max_face_up_run_len(&game) >= 14;
        if four && empty_now == 0 {
            no_empty_drought_steps = no_empty_drought_steps.saturating_add(1);
        } else {
            no_empty_drought_steps = 0;
        }
        if four && last_deal_candidate && !last_deal_ready {
            last_deal_blocked_steps = last_deal_blocked_steps.saturating_add(1);
        } else {
            last_deal_blocked_steps = 0;
        }
        if four && structure.stagnation > 0 && structure.stagnation % 16 == 0 {
            adaptive_policy.empty_col_bonus = adaptive_policy.empty_col_bonus + 500;
            adaptive_policy.empty_bridge_bonus = adaptive_policy.empty_bridge_bonus + 300;
            adaptive_policy.empty_create_bonus = adaptive_policy.empty_create_bonus + 900;
            adaptive_policy.pre_last_draw_empty_bonus = adaptive_policy.pre_last_draw_empty_bonus + 300;
            adaptive_policy.pre_last_draw_clear_bonus = adaptive_policy.pre_last_draw_clear_bonus + 280;
            adaptive_policy.no_empty_nonclear_penalty = adaptive_policy.no_empty_nonclear_penalty + 250;
            adaptive_policy.top_width = min_usize(adaptive_policy.top_width.saturating_add(1), 14);
            t.adapt_events = t.adapt_events.saturating_add(1);
        }
        let no_empty_cols = empty_now == 0;
        let post_stock_rescue = four && game.stock_len() == 0 && (post_stock.no_reveal >= post_stock_stall_limit / 2
            || post_stock.no_structure >= post_stock_stall_limit / 2);
        let force_source_clear = four && no_empty_cols && ((last_deal_candidate && last_deal_blocked_steps >= 6)
            || no_empty_drought_steps >= 14 || (game.stock_len() == 0 && no_empty_drought_steps >= 8) || post_stock_rescue);
        if force_source_clear {
            t.adapt_events = t.adapt_events.saturating_add(1);
        }
        let mut force_policy = adaptive_policy;
        if force_source_clear {
            force_policy.recent_window = min_usize(force_policy.recent_window, 6);
            force_policy.no_empty_nonclear_penalty = force_policy.no_empty_nonclear_penalty * 2;
        }
        if post_stock_rescue {
            force_policy.recent_window = min_usize(force_policy.recent_window, 4);
            force_policy.top_width = max_usize(force_policy.top_width, 12);
            force_policy.require_post_stock_progress = false;
            force_policy.post_stock_flat_penalty = force_policy.post_stock_flat_penalty / 2;
            force_policy.empty_create_bonus = force_policy.empty_create_bonus + 3_000;
            force_policy.empty_col_bonus = force_policy.empty_col_bonus + 1_000;
            force_policy.no_empty_nonclear_penalty = force_policy.no_empty_nonclear_penalty + 3_000;
            t.adapt_events = t.adapt_events.saturating_add(1);
        }
        let block_draw = four && last_deal_candidate && !last_deal_ready && last_deal_blocked_steps < 20;
        let decision = guided_decision(&game, suit_mode, parent_hash, &seen_hashes, &recent_hashes, selection_salt,
            force_policy, adaptive_policy, force_source_clear, block_draw, four && last_deal_candidate && !last_deal_ready,
            post_stock_rescue);
        let (next, hint_move, next_hash) = match decision {
            Ok(SpiderSolverDecision { next_state, hint_move, next_hash }) => (next_state, hint_move, next_hash),
            Err(reason) => {
                proof {
                    lemma_sp_walk_no_pick(deal, suit_mode, rng0, line@, game@, w_seen, w_recent, w_parent, w_rng,
                        reason == SpiderSolverNoMoveReason::LoopFiltered);
                }
                let stop = if reason == SpiderSolverNoMoveReason::LoopFiltered {
                    SpiderFindStopReason::RepeatStateCycle
                } else {
                    SpiderFindStopReason::NoAction
                };
                proof {
                    lemma_all_clear(reads);
                }
                return (stopped(Ghost(deal), Ghost(line@), Ghost(max_steps as int), Ghost(suit_mode), Ghost(rng0),
                    Ghost(stagnation_limit as int), Ghost(post_stock_stall_limit as int), expanded_states,
                    generated_branches, stop, &game, &recent_move_signatures, repeat_limit, t), Ghost(reads));
            },
        };
        let ghost old_line = line@;
        line.push(hint_move);
        proof {
            assert(line@.drop_last() =~= old_line);
            assert(line@.last() == hint_move);
            lemma_sp_walk_step(deal, suit_mode, rng0, old_line, w_game, w_seen, w_recent, w_parent, w_rng, hint_move);
            let h = spider_hash_spec(next@);
            let pushed = w_recent.push(h);
            lemma_sp_walk_facts(deal, suit_mode, rng0, line@, next@, w_seen.insert(h),
                if pushed.len() > 96 { pushed.subrange(1, pushed.len() as int) } else { pushed },
                Some(spider_hash_spec(w_game)), xorshift_state(w_rng));
        }
        match hint_move {
            HintMove::Draw => {
                t.draw_moves = t.draw_moves.saturating_add(1);
            },
            _ => {
                t.tableau_moves = t.tableau_moves.saturating_add(1);
            },
        }
        let hidden_before = spider_hidden_count(&game);
        recent_move_signatures.push(spider_solver_move_signature(hint_move));
        if spider_solver_detect_repeating_tail_cycle_with_limit(recent_move_signatures.as_slice(), repeat_limit).is_some() {
            proof {
                lemma_all_clear(reads);
            }
            return (stopped(Ghost(deal), Ghost(old_line), Ghost(max_steps as int), Ghost(suit_mode), Ghost(rng0),
                Ghost(stagnation_limit as int), Ghost(post_stock_stall_limit as int), expanded_states, generated_branches,
                SpiderFindStopReason::RepeatStateCycle, &game, &recent_move_signatures, repeat_limit, t), Ghost(reads));
        }
        expanded_states = expanded_states + 1;
        let empty_before = empty_now;
        game = next;
        assert(line@.drop_last() =~= old_line);
        let hidden_after = spider_hidden_count(&game);
        let empty_after = spider_empty_col_count(&game);
        if empty_after > empty_before {
            t.empty_creates = t.empty_creates.saturating_add(1);
            no_empty_drought_steps = 0;
        }
        if hidden_after < hidden_before {
            t.reveal_moves = t.reveal_moves.saturating_add(1);
        }
        let suited_edges_now = spider_suited_desc_edges(&game);
        let tail_run_now = spider_max_face_up_run_len(&game);
        t.peak_suited_edges = max_usize(t.peak_suited_edges, suited_edges_now);
        t.peak_tail_run = max_usize(t.peak_tail_run, tail_run_now);
        t.peak_empty_cols = max_usize(t.peak_empty_cols, empty_after);
        if game.is_won() {
            let r = finish_attempt(Some(line), expanded_states, generated_branches, SpiderFindStopReason::Won, &game,
                &recent_move_signatures, repeat_limit, t);
            assert(replay(deal, r.line->0@) is Some);
            proof {
                lemma_all_clear(reads);
            }
            return (r, Ghost(reads));
        }
        let completed_runs = game.completed_runs();
        let ghost ps_old = sp_positions(deal, old_line);
        proof {
            lemma_positions_push(deal, old_line, hint_move, game@);
            lemma_positions_last(deal, old_line, w_game);
            lemma_positions_last(deal, line@, game@);
            if w_game.stock.len() == 0 {
                lemma_stock_stays_empty(w_game, hint_move);
            }
        }
        let structural_progress = structure_step(&mut structure, completed_runs, hidden_after, empty_after,
            suited_edges_now, tail_run_now, Ghost(ps_old), Ghost(game@));
        if !structural_progress && structure.stagnation >= stagnation_limit {
            proof {
                lemma_all_clear(reads);
                lemma_structure_stagnated(sp_positions(deal, line@), structure, stagnation_limit as int);
            }
            return (stopped(Ghost(deal), Ghost(line@), Ghost(max_steps as int), Ghost(suit_mode), Ghost(rng0),
                Ghost(stagnation_limit as int), Ghost(post_stock_stall_limit as int), expanded_states, generated_branches,
                SpiderFindStopReason::RepeatStateStagnation, &game, &recent_move_signatures, repeat_limit, t), Ghost(reads));
        }
        let stalled = post_stock_step(&mut post_stock, game.stock_len() == 0, hidden_before, hidden_after, completed_runs,
            suited_edges_now, tail_run_now, post_stock_stall_limit, Ghost(ps_old), Ghost(game@));
        if stalled {
            proof {
                lemma_all_clear(reads);
            }
            return (stopped(Ghost(deal), Ghost(line@), Ghost(max_steps as int), Ghost(suit_mode), Ghost(rng0),
                Ghost(stagnation_limit as int), Ghost(post_stock_stall_limit as int), expanded_states, generated_branches,
                SpiderFindStopReason::PostStockStall, &game, &recent_move_signatures, repeat_limit, t), Ghost(reads));
        }
        seen_hashes.insert(next_hash);
        recent_hashes.push_back(next_hash);
        if recent_hashes.len() > 96 {
            recent_hashes.pop_front();
        }
        parent_hash = Some(current_hash);
    }
    proof {
        lemma_sp_walk_facts(deal, suit_mode, rng0, line@, game@, seen_hashes@, recent_hashes@, parent_hash, rng_state);
    }
    proof {
        lemma_all_clear(reads);
    }
    (stopped(Ghost(deal), Ghost(line@), Ghost(max_steps as int), Ghost(suit_mode), Ghost(rng0),
        Ghost(stagnation_limit as int), Ghost(post_stock_stall_limit as int), expanded_states, generated_branches,
        SpiderFindStopReason::StepLimit, &game, &recent_move_signatures, repeat_limit, t), Ghost(reads))
}


/// One trial of a rescue variant: which variant ran, and whether it earned
/// a win in the caller's statistics (it won, or beat the best attempt so far).
#[derive(Debug, Clone, Copy, PartialEq, Eq, Structural)]
pub struct SpiderVariantTrial {
    pub variant_id: usize,
    pub credited: bool,
}

/// How many rescue variants a suit mode has (none outside one and four suits).
pub open spec fn variant_count_spec(mode: SpiderSuitMode) -> nat {
    match mode {
        SpiderSuitMode::One => 3,
        SpiderSuitMode::Four => 2,
        _ => 0,
    }
}

pub fn spider_variant_count(suit_mode: SpiderSuitMode) -> (r: usize)
    ensures
        r == variant_count_spec(suit_mode),
{
    match suit_mode {
        SpiderSuitMode::One => 3,
        SpiderSuitMode::Four => 2,
        _ => 0,
    }
}

/// How far an attempt got by its stop reason, for comparing attempts.
pub open spec fn stop_rank_spec(reason: SpiderFindStopReason) -> int {
    match reason {
        SpiderFindStopReason::Won => 5,
        SpiderFindStopReason::PostStockStall => 4,
        SpiderFindStopReason::RepeatStateStagnation => 3,
        SpiderFindStopReason::RepeatStateCycle => 2,
        SpiderFindStopReason::NoAction => 1,
        _ => 0,
    }
}

/// `a` is a better attempt than `b`: compared by completed runs, then peak
/// empty columns, empty columns created, peak suited edges, peak tail run,
/// and how far it got.
pub open spec fn better_attempt(a: SpiderSinglePlaythroughResult, b: SpiderSinglePlaythroughResult) -> bool {
    if a.completed_runs != b.completed_runs {
        a.completed_runs > b.completed_runs
    } else if a.peak_empty_cols != b.peak_empty_cols {
        a.peak_empty_cols > b.peak_empty_cols
    } else if a.empty_creates != b.empty_creates {
        a.empty_creates > b.empty_creates
    } else if a.peak_suited_edges != b.peak_suited_edges {
        a.peak_suited_edges > b.peak_suited_edges
    } else if a.peak_tail_run != b.peak_tail_run {
        a.peak_tail_run > b.peak_tail_run
    } else {
        stop_rank_spec(a.stop_reason) > stop_rank_spec(b.stop_reason)
    }
}

fn stop_rank(reason: SpiderFindStopReason) -> (r: i32)
    ensures
        r == stop_rank_spec(reason),
{
    match reason {
        SpiderFindStopReason::Won => 5,
        SpiderFindStopReason::PostStockStall => 4,
        SpiderFindStopReason::RepeatStateStagnation => 3,
        SpiderFindStopReason::RepeatStateCycle => 2,
        SpiderFindStopReason::NoAction => 1,
        _ => 0,
    }
}

pub fn is_better_attempt(a: &SpiderSinglePlaythroughResult, b: &SpiderSinglePlaythroughResult) -> (r: bool)
    ensures
        r == better_attempt(*a, *b),
{
    if a.completed_runs != b.completed_runs {
        a.completed_runs > b.completed_runs
    } else if a.peak_empty_cols != b.peak_empty_cols {
        a.peak_empty_cols > b.peak_empty_cols
    } else if a.empty_creates != b.empty_creates {
        a.empty_creates > b.empty_creates
    } else if a.peak_suited_edges != b.peak_suited_edges {
        a.peak_suited_edges > b.peak_suited_edges
    } else if a.peak_tail_run != b.peak_tail_run {
        a.peak_tail_run > b.peak_tail_run
    } else {
        stop_rank(a.stop_reason) > stop_rank(b.stop_reason)
    }
}

/// Half of `x`, rounded toward zero, as integer division does.
pub open spec fn half_toward_zero(x: i64) -> int {
    if x >= 0 {
        x / 2
    } else {
        -((-x) / 2)
    }
}

/// The policy of rescue variant `id`: one-suit games widen the top moves
/// and favour emptying columns (variant 0), reward empty columns more and
/// halve the post-stock penalty (variant 1), or allow revisits and drop the
/// post-stock rules (others); other suit modes widen the top moves (variant
/// 0) or push hard for empty columns and drop the post-stock requirement.
pub open spec fn rescue_policy_spec(suit_mode: SpiderSuitMode, p: SpiderSolverPolicy, id: usize) -> SpiderSolverPolicy {
    let wider = |w: usize| if p.top_width >= w { p.top_width } else { w };
    let shorter = |w: usize| if p.recent_window <= w { p.recent_window } else { w };
    if suit_mode == SpiderSuitMode::One {
        if id == 0 {
            SpiderSolverPolicy {
                top_width: wider(14),
                recent_window: shorter(8),
                empty_create_bonus: (p.empty_create_bonus + 1_000) as i64,
                ..p
            }
        } else if id == 1 {
            SpiderSolverPolicy {
                empty_create_bonus: (p.empty_create_bonus + 2_400) as i64,
                empty_col_bonus: (p.empty_col_bonus + 1_000) as i64,
                empty_bridge_bonus: (p.empty_bridge_bonus + 800) as i64,
                post_stock_flat_penalty: half_toward_zero(p.post_stock_flat_penalty) as i64,
                ..p
            }
        } else {
            SpiderSolverPolicy {
                top_width: wider(16),
                recent_window: shorter(6),
                allow_revisit_fallback: true,
                require_post_stock_progress: false,
                post_stock_flat_penalty: 0,
                ..p
            }
        }
    } else if id == 0 {
        SpiderSolverPolicy { top_width: wider(12), recent_window: shorter(8), ..p }
    } else {
        SpiderSolverPolicy {
            empty_create_bonus: (p.empty_create_bonus + 8_000) as i64,
            empty_col_bonus: (p.empty_col_bonus + 2_000) as i64,
            no_empty_nonclear_penalty: (p.no_empty_nonclear_penalty + 5_000) as i64,
            require_post_stock_progress: false,
            post_stock_flat_penalty: half_toward_zero(p.post_stock_flat_penalty) as i64,
            ..p
        }
    }
}

/// The policy of rescue variant `id` for a suit mode, derived from the
/// playthrough policy.
fn rescue_variant_policy(suit_mode: SpiderSuitMode, policy: SpiderSolverPolicy, id: usize) -> (r: SpiderSolverPolicy)
    requires
        policy_within(policy, 14_000),
    ensures
        r == rescue_policy_spec(suit_mode, policy, id),
        policy_within(r, 0x4000_0000),
{
    let mut p = policy;
    if suit_mode == SpiderSuitMode::One {
        if id == 0 {
            p.top_width = max_usize(p.top_width, 14);
            p.recent_window = min_usize(p.recent_window, 8);
            p.empty_create_bonus = p.empty_create_bonus + 1_000;
        } else if id == 1 {
            p.empty_create_bonus = p.empty_create_bonus + 2_400;
            p.empty_col_bonus = p.empty_col_bonus + 1_000;
            p.empty_bridge_bonus = p.empty_bridge_bonus + 800;
            p.post_stock_flat_penalty = p.post_stock_flat_penalty / 2;
        } else {
            p.top_width = max_usize(p.top_width, 16);
            p.recent_window = min_usize(p.recent_window, 6);
            p.allow_revisit_fallback = true;
            p.require_post_stock_progress = false;
            p.post_stock_flat_penalty = 0;
        }
    } else {
        if id == 0 {
            p.top_width = max_usize(p.top_width, 12);
            p.recent_window = min_usize(p.recent_window, 8);
        } else {
            p.empty_create_bonus = p.empty_create_bonus + 8_000;
            p.empty_col_bonus = p.empty_col_bonus + 2_000;
            p.no_empty_nonclear_penalty = p.no_empty_nonclear_penalty + 5_000;
            p.require_post_stock_progress = false;
            p.post_stock_flat_penalty = p.post_stock_flat_penalty / 2;
        }
    }
    p
}

/// The same attempt without its line.
fn without_line(a: SpiderSinglePlaythroughResult) -> (r: SpiderSinglePlaythroughResult)
    ensures
        r.line is None,
        r == (SpiderSinglePlaythroughResult { line: None, ..a }),
        forall|deal: SpiderBoard, mode: SpiderSuitMode, rng0: u64, steps: int, stag: int, rep: int, post: int|
            #[trigger] attempt_ok(deal, mode, rng0, a, steps, stag, rep, post) ==> attempt_ok(
                deal,
                mode,
                rng0,
                r,
                steps,
                stag,
                rep,
                post,
            ),
{
    let r = SpiderSinglePlaythroughResult { line: None, ..a };
    assert forall|deal: SpiderBoard, mode: SpiderSuitMode, rng0: u64, steps: int, stag: int, rep: int, post: int|
        #[trigger] attempt_ok(deal, mode, rng0, a, steps, stag, rep, post) implies attempt_ok(
        deal,
        mode,
        rng0,
        r,
        steps,
        stag,
        rep,
        post,
    ) by {
        let moves = choose|moves: Seq<HintMove>| {
            &&& #[trigger] replay(deal, moves) is Some
            &&& moves.len() == a.expanded_states
            &&& measures_of(replay(deal, moves)->0, a)
            &&& (a.line matches Some(l) ==> l@ == moves)
            &&& sp_greedy(deal, mode, rng0, moves)
            &&& (a.stop_reason == SpiderFindStopReason::NoAction ==> sp_no_pick_at(
                deal,
                moves,
                mode,
                rng0,
                moves.len() as int,
                false,
            ))
            &&& (a.stop_reason == SpiderFindStopReason::RepeatStateCycle ==> sp_no_pick_at(
                deal,
                moves,
                mode,
                rng0,
                moves.len() as int,
                true,
            ) || a.cycle_blocks > rep)
            &&& (a.stop_reason == SpiderFindStopReason::RepeatStateStagnation ==> stagnated(sp_positions(deal, moves), stag))
            &&& (a.stop_reason == SpiderFindStopReason::PostStockStall ==> post_stalled(sp_positions(deal, moves), post))
        };
        assert(replay(deal, moves) is Some);
    }
    r
}

/// The primary attempt's step budget.
pub open spec fn primary_steps_spec(mode: SpiderSuitMode, guided: usize, exhaustive: usize) -> int {
    let b = find_step_budget_spec(mode, guided, exhaustive);
    if b < 1 { 1 } else { b }
}

/// The primary attempt's stagnation limit.
pub open spec fn stagnation_spec(mode: SpiderSuitMode) -> int {
    if mode == SpiderSuitMode::Four { 220 } else { SPIDER_SOLVER_STAGNATION_MOVE_LIMIT as int }
}

/// The primary attempt's repeat limit.
pub open spec fn repeat_spec(mode: SpiderSuitMode) -> int {
    if mode == SpiderSuitMode::Four { 5 } else { SPIDER_SOLVER_REPEAT_SEQUENCE_LIMIT as int }
}

/// A rescue variant's step budget, from the primary one.
pub open spec fn rescue_steps_spec(mode: SpiderSuitMode, steps: int) -> int {
    if mode == SpiderSuitMode::One {
        let x = steps * 5 / 4;
        if x < 320 { 320 } else if x > 960 { 960 } else { x }
    } else {
        let x = steps * 3 / 4;
        if x < 256 { 256 } else if x > 768 { 768 } else { x }
    }
}

/// A rescue variant's stagnation limit.
pub open spec fn rescue_stagnation_spec(mode: SpiderSuitMode) -> int {
    stagnation_spec(mode) + if mode == SpiderSuitMode::One { 40int } else { 80int }
}

/// A rescue variant's repeat limit.
pub open spec fn rescue_repeat_spec(mode: SpiderSuitMode) -> int {
    if repeat_spec(mode) + 1 < 8 { repeat_spec(mode) + 1 } else { 8 }
}

/// The reported playthrough is an attempt's, with its limits: the primary
/// attempt's (salt 0) or that of a reported variant trial (salt: its id
/// plus one, with the rescue limits). Every move of it is the chooser's
/// pick, and its stop reason shows in what it reports.
pub open spec fn playthrough_greedy(
    deal: SpiderBoard,
    mode: SpiderSuitMode,
    seed: u64,
    guided: usize,
    exhaustive: usize,
    r: SpiderSinglePlaythroughResult,
    trials: Seq<SpiderVariantTrial>,
) -> bool {
    let steps = primary_steps_spec(mode, guided, exhaustive);
    ||| attempt_ok(deal, mode, attempt_rng_seed(seed, 0), r, steps, stagnation_spec(mode), repeat_spec(mode),
        spider_post_stall_spec(mode))
    ||| exists|i: int|
        0 <= i < trials.len() && attempt_ok(
            deal,
            mode,
            attempt_rng_seed(seed, ((#[trigger] trials[i]).variant_id + 1) as usize),
            r,
            rescue_steps_spec(mode, steps),
            rescue_stagnation_spec(mode),
            rescue_repeat_spec(mode),
            spider_post_stall_spec(mode),
        )
}

/// One playthrough of a seed, with rescue attempts for one and four suits.
///
/// The primary attempt uses the capped step budget and the suit mode's
/// limits and policy. If it neither won nor was canceled, and it stopped by
/// stalling, cycling, stagnating or running out of moves, the rescue
/// variants of one- and four-suit play run in `variant_order` (ids out of
/// range are skipped) with a larger budget, until one wins or is canceled;
/// a variant that wins or beats the best attempt so far replaces it. The
/// answer keeps a line only when the primary attempt won. Each variant run
/// is reported in the returned trials, in order.
pub fn spider_single_playthrough_line(
    seed: u64,
    suit_mode: SpiderSuitMode,
    guided_budget: usize,
    exhaustive_budget: usize,
    cancel: &AtomicBool,
    variant_order: &[usize],
) -> (r: (SpiderSinglePlaythroughResult, Vec<SpiderVariantTrial>))
    ensures
        playthrough_sound(spider_deal(seed, suit_mode), r.0, 960),
        r.1@.len() <= variant_order@.len(),
        forall|i: int| 0 <= i < r.1@.len() ==> (#[trigger] r.1@[i]).variant_id < variant_count_spec(suit_mode),
        variant_count_spec(suit_mode) == 0 ==> r.1@.len() == 0,
        variant_count_spec(suit_mode) == 0 ==> r.0.expanded_states <= find_step_budget_spec(
            suit_mode,
            guided_budget,
            exhaustive_budget,
        ),
        r.0.stop_reason == SpiderFindStopReason::StepLimit ==> r.0.expanded_states >= 64,
        r.0.stop_reason == SpiderFindStopReason::StepLimit && variant_count_spec(suit_mode) == 0 ==> r.0.expanded_states
            == find_step_budget_spec(suit_mode, guided_budget, exhaustive_budget),
        playthrough_greedy(spider_deal(seed, suit_mode), suit_mode, seed, guided_budget, exhaustive_budget, r.0, r.1@),
        r.0.stop_reason == SpiderFindStopReason::StepLimit ==> r.0.expanded_states == primary_steps_spec(
            suit_mode,
            guided_budget,
            exhaustive_budget,
        ) || r.0.expanded_states == rescue_steps_spec(
            suit_mode,
            primary_steps_spec(suit_mode, guided_budget, exhaustive_budget),
        ),
{
    let raised = cancel_requested(cancel);
    let (r, trials, _reads) = spider_playthrough_line_after_check(seed, suit_mode, guided_budget, exhaustive_budget,
        raised, cancel, variant_order);
    (r, trials)
}

proof fn lemma_greedy_keep(
    deal: SpiderBoard,
    mode: SpiderSuitMode,
    seed: u64,
    g: usize,
    e: usize,
    r: SpiderSinglePlaythroughResult,
    trials: Seq<SpiderVariantTrial>,
    t: SpiderVariantTrial,
)
    requires
        playthrough_greedy(deal, mode, seed, g, e, r, trials),
    ensures
        playthrough_greedy(deal, mode, seed, g, e, r, trials.push(t)),
{
    let steps = primary_steps_spec(mode, g, e);
    if !attempt_ok(deal, mode, attempt_rng_seed(seed, 0), r, steps, stagnation_spec(mode), repeat_spec(mode),
        spider_post_stall_spec(mode)) {
        let i = choose|i: int|
            0 <= i < trials.len() && attempt_ok(
                deal,
                mode,
                attempt_rng_seed(seed, ((#[trigger] trials[i]).variant_id + 1) as usize),
                r,
                rescue_steps_spec(mode, steps),
                rescue_stagnation_spec(mode),
                rescue_repeat_spec(mode),
                spider_post_stall_spec(mode),
            );
        assert(trials.push(t)[i] == trials[i]);
    }
}

proof fn lemma_greedy_new(
    deal: SpiderBoard,
    mode: SpiderSuitMode,
    seed: u64,
    g: usize,
    e: usize,
    r: SpiderSinglePlaythroughResult,
    trials: Seq<SpiderVariantTrial>,
    t: SpiderVariantTrial,
)
    requires
        attempt_ok(
            deal,
            mode,
            attempt_rng_seed(seed, (t.variant_id + 1) as usize),
            r,
            rescue_steps_spec(mode, primary_steps_spec(mode, g, e)),
            rescue_stagnation_spec(mode),
            rescue_repeat_spec(mode),
            spider_post_stall_spec(mode),
        ),
    ensures
        playthrough_greedy(deal, mode, seed, g, e, r, trials.push(t)),
{
    assert(trials.push(t)[trials.len() as int] == t);
}

/// A playthrough canceled before its first move: nothing played or counted.
pub open spec fn canceled_before_play(deal: SpiderBoard, r: SpiderSinglePlaythroughResult) -> bool {
    &&& r.stop_reason == SpiderFindStopReason::Canceled
    &&& r.line is None
    &&& r.expanded_states == 0 && r.generated_branches == 0
    &&& r.draw_moves == 0 && r.tableau_moves == 0 && r.reveal_moves == 0
    &&& r.empty_creates == 0 && r.adapt_events == 0
    &&& r.cycle_period == 0 && r.cycle_blocks == 0
    &&& measures_of(deal, r)
}

/// The playthrough of a seed once the cancel flag has been read on entry
/// (`raised`): a raised flag stops it before the first move; otherwise it
/// plays as `spider_single_playthrough_line` describes.
/// Also returns the readings of the cancel flag made along the way: all
/// clear but perhaps the last, and only a raised one cancels.
pub fn spider_playthrough_line_after_check(
    seed: u64,
    suit_mode: SpiderSuitMode,
    guided_budget: usize,
    exhaustive_budget: usize,
    raised: bool,
    cancel: &AtomicBool,
    variant_order: &[usize],
) -> (r: (SpiderSinglePlaythroughResult, Vec<SpiderVariantTrial>, Ghost<Seq<bool>>))
    ensures
        raised ==> canceled_before_play(spider_deal(seed, suit_mode), r.0) && r.1@.len() == 0,
        playthrough_sound(spider_deal(seed, suit_mode), r.0, 960),
        r.1@.len() <= variant_order@.len(),
        forall|i: int| 0 <= i < r.1@.len() ==> (#[trigger] r.1@[i]).variant_id < variant_count_spec(suit_mode),
        variant_count_spec(suit_mode) == 0 ==> r.1@.len() == 0,
        variant_count_spec(suit_mode) == 0 ==> r.0.expanded_states <= find_step_budget_spec(
            suit_mode,
            guided_budget,
            exhaustive_budget,
        ),
        r.0.stop_reason == SpiderFindStopReason::StepLimit ==> r.0.expanded_states >= 64,
        r.0.stop_reason == SpiderFindStopReason::StepLimit && variant_count_spec(suit_mode) == 0 ==> r.0.expanded_states
            == find_step_budget_spec(suit_mode, guided_budget, exhaustive_budget),
        playthrough_greedy(spider_deal(seed, suit_mode), suit_mode, seed, guided_budget, exhaustive_budget, r.0, r.1@),
        r.0.stop_reason == SpiderFindStopReason::StepLimit ==> r.0.expanded_states == primary_steps_spec(
            suit_mode,
            guided_budget,
            exhaustive_budget,
        ) || r.0.expanded_states == rescue_steps_spec(
            suit_mode,
            primary_steps_spec(suit_mode, guided_budget, exhaustive_budget),
        ),
        raised ==> r.2@.len() == 0,
        clear_before_last(r.2@),
        r.0.stop_reason == SpiderFindStopReason::Canceled ==> raised || last_raised(r.2@),
        !raised && all_clear(r.2@) ==> r.0.stop_reason != SpiderFindStopReason::Canceled,
{
    let ghost deal = spider_deal(seed, suit_mode);
    if raised {
        let game = SpiderGame::new_with_seed_and_mode(seed, suit_mode);
        let t = Tally {
            draw_moves: 0,
            tableau_moves: 0,
            reveal_moves: 0,
            peak_suited_edges: spider_suited_desc_edges(&game),
            peak_tail_run: spider_max_face_up_run_len(&game),
            peak_empty_cols: spider_empty_col_count(&game),
            empty_creates: 0,
            adapt_events: 0,
        };
        let signatures: Vec<String> = Vec::new();
        let r = finish_attempt(None, 0, 0, SpiderFindStopReason::Canceled, &game, &signatures, 1, t);
        assert(replay(deal, Seq::<HintMove>::empty()) is Some);
        assert(sp_greedy(deal, suit_mode, attempt_rng_seed(seed, 0), Seq::<HintMove>::empty()));
        return (r, Vec::new(), Ghost(Seq::empty()));
    }
    let max_steps = max_usize(capped_spider_find_step_budget(suit_mode, guided_budget, exhaustive_budget), 1);
    let stagnation_limit = spider_find_stagnation_move_limit(suit_mode);
    let repeat_limit = spider_find_repeat_sequence_limit(suit_mode);
    let policy = spider_find_policy(suit_mode);
    let (primary, primary_reads) = spider_playthrough_attempt(seed, suit_mode, max_steps, stagnation_limit,
        repeat_limit, policy, 0, cancel);
    let ghost mut reads: Seq<bool> = primary_reads@;
    let mut trials: Vec<SpiderVariantTrial> = Vec::new();
    if primary.stop_reason == SpiderFindStopReason::Canceled {
        return (without_line(primary), trials, Ghost(reads));
    }
    proof {
        lemma_clear_to_end(reads);
        lemma_all_clear(reads);
    }
    if primary.line.is_some() {
        return (primary, trials, Ghost(reads));
    }
    let mut best_attempt = primary;
    let count = spider_variant_count(suit_mode);
    let ensemble_reason = match best_attempt.stop_reason {
        SpiderFindStopReason::PostStockStall | SpiderFindStopReason::RepeatStateCycle
        | SpiderFindStopReason::RepeatStateStagnation | SpiderFindStopReason::NoAction => true,
        _ => false,
    };
    let go = if count > 0 {
        let stop_now = cancel_requested(cancel);
        proof {
            lemma_read_after_clear(reads, stop_now);
            reads = reads.push(stop_now);
        }
        !stop_now && ensemble_reason
    } else {
        false
    };
    if go {
        let one = suit_mode == SpiderSuitMode::One;
        let rescue_steps = if one {
            let x = max_steps * 5 / 4;
            if x < 320 { 320 } else if x > 960 { 960 } else { x }
        } else {
            let x = max_steps * 3 / 4;
            if x < 256 { 256 } else if x > 768 { 768 } else { x }
        };
        let rescue_stagnation = if one {
            stagnation_limit.saturating_add(40)
        } else {
            stagnation_limit.saturating_add(80)
        };
        let rescue_repeat = min_usize(repeat_limit.saturating_add(1), 8);
        let mut k: usize = 0;
        while k < variant_order.len()
            invariant_except_break
                all_clear(reads),
                best_attempt.stop_reason != SpiderFindStopReason::Canceled,
            invariant
                deal == spider_deal(seed, suit_mode),
                count == variant_count_spec(suit_mode),
                count > 0,
                policy_within(policy, 14_000),
                rescue_steps <= 960,
                k <= variant_order@.len(),
                trials@.len() <= k,
                forall|i: int| 0 <= i < trials@.len() ==> (#[trigger] trials@[i]).variant_id < count,
                playthrough_sound(deal, best_attempt, 960),
                best_attempt.stop_reason == SpiderFindStopReason::StepLimit ==> best_attempt.expanded_states >= 64,
                256 <= rescue_steps,
                playthrough_greedy(deal, suit_mode, seed, guided_budget, exhaustive_budget, best_attempt, trials@),
                rescue_steps == rescue_steps_spec(suit_mode, primary_steps_spec(suit_mode, guided_budget, exhaustive_budget)),
                rescue_stagnation == rescue_stagnation_spec(suit_mode),
                rescue_repeat == rescue_repeat_spec(suit_mode),
                clear_before_last(reads),
                best_attempt.stop_reason == SpiderFindStopReason::Canceled ==> last_raised(reads),
            decreases variant_order@.len() - k,
        {
            let variant_id = variant_order[k];
            k += 1;
            if variant_id < count {
                let stop_now = cancel_requested(cancel);
                proof {
                    lemma_read_after_clear(reads, stop_now);
                    reads = reads.push(stop_now);
                }
                if stop_now {
                    break;
                }
                let vpolicy = rescue_variant_policy(suit_mode, policy, variant_id);
                let (trial, trial_reads) = spider_playthrough_attempt(seed, suit_mode, rescue_steps, rescue_stagnation,
                    rescue_repeat, vpolicy, variant_id + 1, cancel);
                proof {
                    lemma_reads_concat(reads, trial_reads@);
                    if trial.stop_reason != SpiderFindStopReason::Canceled {
                        lemma_clear_to_end(trial_reads@);
                    }
                    reads = reads + trial_reads@;
                }
                let ghost before = trials@;
                if trial.stop_reason == SpiderFindStopReason::Canceled {
                    trials.push(SpiderVariantTrial { variant_id, credited: false });
                    proof {
                        lemma_greedy_new(deal, suit_mode, seed, guided_budget, exhaustive_budget, trial, before, SpiderVariantTrial { variant_id, credited: false });
                    }
                    best_attempt = trial;
                    break;
                }
                if trial.line.is_some() {
                    trials.push(SpiderVariantTrial { variant_id, credited: true });
                    proof {
                        lemma_greedy_new(deal, suit_mode, seed, guided_budget, exhaustive_budget, trial, before, SpiderVariantTrial { variant_id, credited: true });
                    }
                    best_attempt = trial;
                    break;
                }
                if is_better_attempt(&trial, &best_attempt) {
                    trials.push(SpiderVariantTrial { variant_id, credited: true });
                    proof {
                        lemma_greedy_new(deal, suit_mode, seed, guided_budget, exhaustive_budget, trial, before, SpiderVariantTrial { variant_id, credited: true });
                    }
                    best_attempt = trial;
                } else {
                    trials.push(SpiderVariantTrial { variant_id, credited: false });
                    proof {
                        lemma_greedy_keep(deal, suit_mode, seed, guided_budget, exhaustive_budget, best_attempt, before, SpiderVariantTrial { variant_id, credited: false });
                    }
                }
            }
        }
    }
    (without_line(best_attempt), trials, Ghost(reads))
}

} // verus!
