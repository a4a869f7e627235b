//! Choosing one move for a Spider playthrough: filtering loops, shaping
//! scores by a policy, and picking among the best candidates.

use vstd::prelude::*;
use std::collections::{HashSet, VecDeque};
use crate::moves::HintMove;
use crate::ranking::{sort_candidates_desc, sort_desc};
use crate::spider::{board_ok, SpiderBoard, SpiderGame, SpiderSuitMode};
use crate::spider_hash::{spider_hash_spec, spider_state_hash};
use crate::spider_metrics::{
    edges_total, empty_total, lemma_board_columns_bounded, lemma_totals_bounded, max_tail,
    spider_empty_col_count, spider_max_face_up_run_len, spider_suited_desc_edges,
};
use crate::spider_solver::{
    all_satisfy, apply_move_spec, cand_sound, cand_view, cands_view, hint_in_range, lemma_boards_view, lemma_reached_view,
    lemma_sort_keeps, move_legal, ranked_spec, reached_from, ScoredBoard, SpiderCandidate, spider_solver_ranked_candidates,
};

verus! {

/// Knobs that shape how the Spider solver ranks and picks moves.
#[derive(Debug, Clone, Copy)]
pub struct SpiderSolverPolicy {
    pub recent_window: usize,
    pub top_width: usize,
    pub allow_revisit_fallback: bool,
    pub allow_draw: bool,
    pub empty_col_bonus: i64,
    pub empty_bridge_bonus: i64,
    pub empty_bridge_len_bonus: i64,
    pub empty_create_bonus: i64,
    pub pre_last_draw_empty_bonus: i64,
    pub pre_last_draw_clear_bonus: i64,
    pub no_empty_nonclear_penalty: i64,
    pub post_stock_flat_penalty: i64,
    pub require_post_stock_progress: bool,
    pub protect_last_empty_col: bool,
    pub last_empty_fill_penalty: i64,
}

/// Bonuses and penalties small enough that shaped scores stay far from overflow.
pub open spec fn policy_ok(p: SpiderSolverPolicy) -> bool {
    let bound = 0x100_0000_0000i64;
    &&& -bound <= p.empty_col_bonus <= bound
    &&& -bound <= p.empty_bridge_bonus <= bound
    &&& -bound <= p.empty_bridge_len_bonus <= bound
    &&& -bound <= p.empty_create_bonus <= bound
    &&& -bound <= p.pre_last_draw_empty_bonus <= bound
    &&& -bound <= p.pre_last_draw_clear_bonus <= bound
    &&& -bound <= p.no_empty_nonclear_penalty <= bound
    &&& -bound <= p.post_stock_flat_penalty <= bound
    &&& -bound <= p.last_empty_fill_penalty <= bound
}

pub open spec fn neutral_policy(p: SpiderSolverPolicy) -> bool {
    &&& p.recent_window == 12
    &&& p.top_width == 6
    &&& p.allow_revisit_fallback
    &&& p.allow_draw
    &&& p.empty_col_bonus == 0
    &&& p.empty_bridge_bonus == 0
    &&& p.empty_bridge_len_bonus == 0
    &&& p.empty_create_bonus == 0
    &&& p.pre_last_draw_empty_bonus == 0
    &&& p.pre_last_draw_clear_bonus == 0
    &&& p.no_empty_nonclear_penalty == 0
    &&& p.post_stock_flat_penalty == 0
    &&& !p.require_post_stock_progress
    &&& !p.protect_last_empty_col
    &&& p.last_empty_fill_penalty == 0
}

impl SpiderSolverPolicy {
    /// The policy for winnability checks: no shaping, revisits allowed.
    pub fn winnability_default() -> (r: Self)
        ensures
            neutral_policy(r),
    {
        Self {
            recent_window: 12,
            top_width: 6,
            allow_revisit_fallback: true,
            allow_draw: true,
            empty_col_bonus: 0,
            empty_bridge_bonus: 0,
            empty_bridge_len_bonus: 0,
            empty_create_bonus: 0,
            pre_last_draw_empty_bonus: 0,
            pre_last_draw_clear_bonus: 0,
            no_empty_nonclear_penalty: 0,
            post_stock_flat_penalty: 0,
            require_post_stock_progress: false,
            protect_last_empty_col: false,
            last_empty_fill_penalty: 0,
        }
    }

    /// The policy for hints: the same neutral settings.
    pub fn hint_default() -> (r: Self)
        ensures
            neutral_policy(r),
    {
        Self {
            recent_window: 12,
            top_width: 6,
            allow_revisit_fallback: true,
            allow_draw: true,
            empty_col_bonus: 0,
            empty_bridge_bonus: 0,
            empty_bridge_len_bonus: 0,
            empty_create_bonus: 0,
            pre_last_draw_empty_bonus: 0,
            pre_last_draw_clear_bonus: 0,
            no_empty_nonclear_penalty: 0,
            post_stock_flat_penalty: 0,
            require_post_stock_progress: false,
            protect_last_empty_col: false,
            last_empty_fill_penalty: 0,
        }
    }
}

/// The move the solver picked.
#[derive(Debug)]
pub struct SpiderSolverDecision {
    pub next_state: SpiderGame,
    pub hint_move: HintMove,
    pub next_hash: u64,
}

/// Why no move was picked.
#[derive(Debug, Clone, Copy, PartialEq, Eq, Structural)]
pub enum SpiderSolverNoMoveReason {
    /// No move passed the caller's filter.
    NoAction,
    /// Moves existed but all of them led back to recent or seen positions.
    LoopFiltered,
}

// ---------------------------------------------------------------------------
// Specification of a choice
// ---------------------------------------------------------------------------

/// Everything a choice depends on besides the candidate list.
pub ghost struct ChoiceContext {
    pub board: SpiderBoard,
    pub seen: Set<u64>,
    pub recent: Seq<u64>,
    pub policy: SpiderSolverPolicy,
    pub allowed: spec_fn(HintMove) -> bool,
}

/// `h` is among the last `window` entries of `recent`.
pub open spec fn recent_hit(recent: Seq<u64>, window: nat, h: u64) -> bool {
    exists|k: int| 0 <= k < window && k < recent.len() && #[trigger] recent[recent.len() - 1 - k] == h
}

/// Bonus for a run move's source and destination under a policy.
pub open spec fn run_bonus(cur: SpiderBoard, src: int, start: int, dst: int, p: SpiderSolverPolicy) -> int {
    let cur_empty = empty_total(cur.piles);
    let nonclear: int = if cur_empty == 0 && start > 0 { -p.no_empty_nonclear_penalty } else { 0 };
    let clear: int = if start == 0 {
        p.empty_create_bonus + (if cur.stock.len() == 10 { p.pre_last_draw_clear_bonus as int } else { 0 })
    } else {
        0
    };
    let moved_len: int = if cur.piles[src].len() >= start { cur.piles[src].len() - start } else { 0 };
    let bridge: int = if cur.piles[dst].len() == 0 {
        p.empty_bridge_bonus + moved_len * p.empty_bridge_len_bonus + (if cur.stock.len() == 10 {
            p.pre_last_draw_empty_bonus as int
        } else {
            0
        })
    } else {
        0
    };
    nonclear + clear + bridge
}

pub open spec fn structural_progress(cur: SpiderBoard, next: SpiderBoard) -> bool {
    ||| next.completed_runs > cur.completed_runs
    ||| empty_total(next.piles) > empty_total(cur.piles)
    ||| edges_total(next.piles) > edges_total(cur.piles)
    ||| max_tail(next.piles) > max_tail(cur.piles)
}

pub open spec fn last_empty_filled(cur: SpiderBoard, c: ScoredBoard, p: SpiderSolverPolicy) -> bool {
    &&& p.protect_last_empty_col
    &&& cur.stock.len() == 0
    &&& empty_total(cur.piles) == 1
    &&& empty_total(c.0.piles) == 0
    &&& c.1 is TableauRunToTableau
}

pub open spec fn gated_post_stock_flat(cur: SpiderBoard, c: ScoredBoard, p: SpiderSolverPolicy) -> bool {
    &&& cur.stock.len() == 0
    &&& !structural_progress(cur, c.0)
    &&& p.post_stock_flat_penalty > 0
    &&& c.1 is TableauRunToTableau
}

/// The candidate's score after the policy's bonuses and penalties.
pub open spec fn shaped_score(cur: SpiderBoard, c: ScoredBoard, p: SpiderSolverPolicy) -> int {
    let s0 = c.2 + (empty_total(c.0.piles) - empty_total(cur.piles)) * p.empty_col_bonus;
    let s1 = match c.1 {
        HintMove::TableauRunToTableau { src, start, dst } => s0 + run_bonus(cur, src as int, start as int, dst as int, p),
        _ => s0,
    };
    let s2 = if last_empty_filled(cur, c, p) { s1 - p.last_empty_fill_penalty } else { s1 };
    if gated_post_stock_flat(cur, c, p) { s2 - p.post_stock_flat_penalty } else { s2 }
}

/// The candidate passes the draw setting and the caller's filter.
pub open spec fn considered(ctx: ChoiceContext, c: ScoredBoard) -> bool {
    &&& !(c.1 is Draw && !ctx.policy.allow_draw)
    &&& (ctx.allowed)(c.1)
}

/// 0: dropped; 1: unseen position; 2: seen position; 3: held back until
/// nothing better remains.
pub open spec fn bucket_of(ctx: ChoiceContext, c: ScoredBoard) -> int {
    let h = spider_hash_spec(c.0);
    if !considered(ctx, c) {
        0
    } else if h == spider_hash_spec(ctx.board) {
        0
    } else if recent_hit(ctx.recent, ctx.policy.recent_window as nat, h) {
        0
    } else if ctx.policy.require_post_stock_progress && (gated_post_stock_flat(ctx.board, c, ctx.policy)
        || last_empty_filled(ctx.board, c, ctx.policy)) {
        3
    } else if !ctx.seen.contains(h) {
        1
    } else {
        2
    }
}

/// The candidates of bucket `k`, in candidate order, with shaped scores.
pub open spec fn bucket(ctx: ChoiceContext, s: Seq<ScoredBoard>, k: int) -> Seq<ScoredBoard>
    decreases s.len(),
{
    if s.len() == 0 {
        Seq::empty()
    } else {
        let c = s.last();
        let rest = bucket(ctx, s.drop_last(), k);
        if bucket_of(ctx, c) == k {
            rest.push((c.0, c.1, shaped_score(ctx.board, c, ctx.policy)))
        } else {
            rest
        }
    }
}

/// Picks among the `top_width` best of a sorted bucket by `salt`.
pub open spec fn pick_spec(sorted: Seq<ScoredBoard>, top_width: nat, salt: u64) -> ScoredBoard {
    let w: nat = if top_width >= 1 { top_width } else { 1 };
    let width: nat = if sorted.len() < w { sorted.len() } else { w };
    sorted[(salt as nat % width) as int]
}

/// The move chosen among `ranked`: from unseen positions first; when the
/// policy allows revisits, then from seen ones, then from held-back ones.
pub open spec fn choice_spec(ctx: ChoiceContext, ranked: Seq<ScoredBoard>, salt: u64) -> Option<ScoredBoard> {
    let b1 = sort_desc(bucket(ctx, ranked, 1));
    let b2 = sort_desc(bucket(ctx, ranked, 2));
    let b3 = sort_desc(bucket(ctx, ranked, 3));
    let w = ctx.policy.top_width as nat;
    if b1.len() > 0 {
        Some(pick_spec(b1, w, salt))
    } else if ctx.policy.allow_revisit_fallback && b2.len() > 0 {
        Some(pick_spec(b2, w, salt))
    } else if ctx.policy.allow_revisit_fallback && b3.len() > 0 {
        Some(pick_spec(b3, w, salt))
    } else {
        None
    }
}

/// Law: the choice depends only on the position, the memories, the policy,
/// which moves the filter lets through, the candidates and the salt: two
/// calls that agree on these choose the same candidate (or both none).
pub proof fn lemma_choice_deterministic(ctx1: ChoiceContext, ctx2: ChoiceContext, ranked: Seq<ScoredBoard>, salt: u64)
    requires
        ctx1.board == ctx2.board,
        ctx1.seen == ctx2.seen,
        ctx1.recent == ctx2.recent,
        ctx1.policy == ctx2.policy,
        forall|m: HintMove| #[trigger] (ctx1.allowed)(m) == (ctx2.allowed)(m),
    ensures
        choice_spec(ctx1, ranked, salt) == choice_spec(ctx2, ranked, salt),
{
    assert(ctx1.allowed =~= ctx2.allowed);
    assert(ctx1 == ctx2);
}

/// Law: two calls of the chooser on the same position and candidates, with
/// the same memories and policy and filters that let the same moves
/// through, choose the same candidate (or both none); with a top width of
/// at most one this holds whatever their two salts are.
pub proof fn lemma_choose_move_deterministic<F1: Fn(HintMove) -> bool, F2: Fn(HintMove) -> bool>(
    game: SpiderBoard,
    seen: Set<u64>,
    recent: Seq<u64>,
    policy: SpiderSolverPolicy,
    f1: F1,
    f2: F2,
    ranked: Seq<ScoredBoard>,
    salt1: u64,
    salt2: u64,
)
    requires
        forall|m: HintMove| #[trigger] call_ensures(f1, (m,), true) == call_ensures(f2, (m,), true),
        salt1 == salt2 || policy.top_width <= 1,
    ensures
        choice_spec(context_of(game, seen, recent, policy, f1), ranked, salt1) == choice_spec(
            context_of(game, seen, recent, policy, f2),
            ranked,
            salt2,
        ),
{
    let c1 = context_of(game, seen, recent, policy, f1);
    let c2 = context_of(game, seen, recent, policy, f2);
    assert forall|m: HintMove| #[trigger] (c1.allowed)(m) == (c2.allowed)(m) by {
        assert(call_ensures(f1, (m,), true) == call_ensures(f2, (m,), true));
    }
    lemma_choice_deterministic(c1, c2, ranked, salt1);
    if salt1 != salt2 {
        lemma_choice_salt_free(c2, ranked, salt1, salt2);
    }
}

/// Law: with a top width of at most one the choice is the best candidate of
/// its bucket, whatever the salt.
pub proof fn lemma_choice_salt_free(ctx: ChoiceContext, ranked: Seq<ScoredBoard>, salt1: u64, salt2: u64)
    requires
        ctx.policy.top_width <= 1,
    ensures
        choice_spec(ctx, ranked, salt1) == choice_spec(ctx, ranked, salt2),
{
    assert forall|sorted: Seq<ScoredBoard>| sorted.len() > 0 implies #[trigger] pick_spec(
        sorted,
        ctx.policy.top_width as nat,
        salt1,
    ) == pick_spec(sorted, ctx.policy.top_width as nat, salt2) by {
        assert(salt1 as nat % 1 == 0);
        assert(salt2 as nat % 1 == 0);
    }
}


pub open spec fn any_considered(ctx: ChoiceContext, ranked: Seq<ScoredBoard>) -> bool {
    exists|i: int| 0 <= i < ranked.len() && considered(ctx, #[trigger] ranked[i])
}

/// The context of a call: the game, the caller's memories, the policy and filter.
pub open spec fn context_of<F: Fn(HintMove) -> bool>(
    game: SpiderBoard,
    seen: Set<u64>,
    recent: Seq<u64>,
    policy: SpiderSolverPolicy,
    allow_move: F,
) -> ChoiceContext {
    ChoiceContext {
        board: game,
        seen,
        recent,
        policy,
        allowed: |m: HintMove| call_ensures(allow_move, (m,), true),
    }
}

/// The filter answers every move, and always the same way.
pub open spec fn filter_ok<F: Fn(HintMove) -> bool>(allow_move: F) -> bool {
    &&& forall|m: HintMove| call_requires(allow_move, (m,))
    &&& forall|m: HintMove, a: bool, b: bool|
        call_ensures(allow_move, (m,), a) && call_ensures(allow_move, (m,), b) ==> a == b
}

fn recently_seen(recent: &VecDeque<u64>, window: usize, h: u64) -> (r: bool)
    ensures
        r == recent_hit(recent@, window as nat, h),
{
    let len = recent.len();
    let mut k: usize = 0;
    while k < window && k < len
        invariant
            len == recent@.len(),
            k <= len,
            forall|j: int| 0 <= j < k ==> #[trigger] recent@[len - 1 - j] != h,
        decreases len - k,
    {
        if recent[len - 1 - k] == h {
            assert(recent@[len - 1 - k] == h);
            return true;
        }
        k += 1;
    }
    assert forall|j: int| 0 <= j < window && j < recent@.len() implies #[trigger] recent@[recent@.len() - 1 - j] != h by {
        assert(j < k);
    }
    false
}

/// A count of at most 200 times a policy weight.
fn scaled(count: i64, weight: i64) -> (r: i64)
    requires
        -200 <= count <= 200,
        -0x100_0000_0000i64 <= weight <= 0x100_0000_0000i64,
    ensures
        r == count * weight,
        -200 * 0x100_0000_0000i64 <= r <= 200 * 0x100_0000_0000i64,
{
    assert(-200 * 0x100_0000_0000i64 <= count * weight <= 200 * 0x100_0000_0000i64) by (nonlinear_arith)
        requires
            -200 <= count <= 200,
            -0x100_0000_0000i64 <= weight <= 0x100_0000_0000i64,
    ;
    count * weight
}

fn shape_score(
    game: &SpiderGame,
    c: &SpiderCandidate,
    policy: SpiderSolverPolicy,
    cur_empty: usize,
    cur_runs: usize,
    cur_edges: usize,
    cur_tail: usize,
) -> (r: (i64, bool, bool))
    requires
        board_ok(game@),
        cand_sound(cand_view(*c)),
        policy_ok(policy),
        match c.1 {
            HintMove::TableauRunToTableau { src, start, dst } => src < game@.piles.len() && dst < game@.piles.len(),
            _ => true,
        },
        cur_empty == empty_total(game@.piles),
        cur_runs == game@.completed_runs,
        cur_edges == edges_total(game@.piles),
        cur_tail == max_tail(game@.piles),
    ensures
        r.0 == shaped_score(game@, cand_view(*c), policy),
        r.1 == gated_post_stock_flat(game@, cand_view(*c), policy),
        r.2 == last_empty_filled(game@, cand_view(*c), policy),
{
    let next = &c.0;
    proof {
        lemma_board_columns_bounded(game@);
        lemma_board_columns_bounded(next@);
        lemma_totals_bounded(game@.piles);
        lemma_totals_bounded(next@.piles);
    }
    let next_empty = spider_empty_col_count(next);
    let next_runs = next.completed_runs();
    let next_edges = spider_suited_desc_edges(next);
    let next_tail = spider_max_face_up_run_len(next);
    assert(next_empty <= 10 && cur_empty <= 10);
    let empty_delta = (next_empty as i64) - (cur_empty as i64);
    let col_bonus = scaled(empty_delta, policy.empty_col_bonus);
    let mut adjusted: i64 = c.2 + col_bonus;
    let stock_len = game.stock_len();
    match c.1 {
        HintMove::TableauRunToTableau { src, start, dst } => {
            let t = game.tableau();
            if cur_empty == 0 && start > 0 {
                adjusted = adjusted - policy.no_empty_nonclear_penalty;
            }
            if start == 0 {
                adjusted = adjusted + policy.empty_create_bonus;
                if stock_len == 10 {
                    adjusted = adjusted + policy.pre_last_draw_clear_bonus;
                }
            }
            if t[dst].len() == 0 {
                let src_len = t[src].len();
                let moved_len: i64 = if src_len >= start { (src_len - start) as i64 } else { 0 };
                adjusted = adjusted + policy.empty_bridge_bonus;
                proof {
                    lemma_board_columns_bounded(game@);
                }
                adjusted = adjusted + scaled(moved_len, policy.empty_bridge_len_bonus);
                if stock_len == 10 {
                    adjusted = adjusted + policy.pre_last_draw_empty_bonus;
                }
            }
        },
        _ => {},
    }
    let is_run = match c.1 {
        HintMove::TableauRunToTableau { .. } => true,
        _ => false,
    };
    let post_stock = stock_len == 0;
    let progress = next_runs > cur_runs || next_empty > cur_empty || next_edges > cur_edges || next_tail > cur_tail;
    let last_filled = policy.protect_last_empty_col && post_stock && cur_empty == 1 && next_empty == 0 && is_run;
    if last_filled {
        adjusted = adjusted - policy.last_empty_fill_penalty;
    }
    let gated = post_stock && !progress && policy.post_stock_flat_penalty > 0 && is_run;
    if gated {
        adjusted = adjusted - policy.post_stock_flat_penalty;
    }
    (adjusted, gated, last_filled)
}

proof fn lemma_bucket_reached(ctx: ChoiceContext, s: Seq<ScoredBoard>, k: int)
    requires
        all_satisfy(s, |c: ScoredBoard| reached_from(ctx.board, c)),
    ensures
        all_satisfy(bucket(ctx, s, k), |c: ScoredBoard| reached_from(ctx.board, c)),
    decreases s.len(),
{
    if s.len() > 0 {
        let d = s.drop_last();
        assert forall|i: int| 0 <= i < d.len() implies (|c: ScoredBoard| reached_from(ctx.board, c))(#[trigger] d[i]) by {
            assert(d[i] == s[i]);
        }
        lemma_bucket_reached(ctx, d, k);
        assert((|c: ScoredBoard| reached_from(ctx.board, c))(s[s.len() - 1]));
        let rest = bucket(ctx, d, k);
        let c = s.last();
        let r = rest.push((c.0, c.1, shaped_score(ctx.board, c, ctx.policy)));
        assert forall|i: int| 0 <= i < r.len() implies (|c: ScoredBoard| reached_from(ctx.board, c))(#[trigger] r[i]) by {
            if i < rest.len() {
                assert(r[i] == rest[i]);
            }
        }
    }
}

/// Law: the solver only ever chooses a legal move of the current position,
/// and the position it reports is the one that move leads to.
pub proof fn lemma_choice_reached(ctx: ChoiceContext, ranked: Seq<ScoredBoard>, salt: u64)
    requires
        forall|i: int| 0 <= i < ranked.len() ==> reached_from(ctx.board, #[trigger] ranked[i]),
    ensures
        choice_spec(ctx, ranked, salt) matches Some(c) ==> move_legal(ctx.board, c.1) && c.0 == apply_move_spec(ctx.board, c.1),
{
    let pred = |c: ScoredBoard| reached_from(ctx.board, c);
    assert forall|i: int| 0 <= i < ranked.len() implies pred(#[trigger] ranked[i]) by {}
    lemma_bucket_reached(ctx, ranked, 1);
    lemma_bucket_reached(ctx, ranked, 2);
    lemma_bucket_reached(ctx, ranked, 3);
    lemma_sort_keeps(bucket(ctx, ranked, 1), pred);
    lemma_sort_keeps(bucket(ctx, ranked, 2), pred);
    lemma_sort_keeps(bucket(ctx, ranked, 3), pred);
    let w = ctx.policy.top_width as nat;
    let b1 = sort_desc(bucket(ctx, ranked, 1));
    let b2 = sort_desc(bucket(ctx, ranked, 2));
    let b3 = sort_desc(bucket(ctx, ranked, 3));
    if b1.len() > 0 {
        lemma_pick_in(b1, w, salt);
    }
    if b2.len() > 0 {
        lemma_pick_in(b2, w, salt);
    }
    if b3.len() > 0 {
        lemma_pick_in(b3, w, salt);
    }
}

proof fn lemma_pick_in(s: Seq<ScoredBoard>, w: nat, salt: u64)
    requires
        s.len() > 0,
    ensures
        exists|i: int| 0 <= i < s.len() && pick_spec(s, w, salt) == #[trigger] s[i],
{
    let ww: nat = if w >= 1 { w } else { 1 };
    let width: nat = if s.len() < ww { s.len() } else { ww };
    let i = (salt as nat % width) as int;
    assert(0 <= i < width);
    assert(pick_spec(s, w, salt) == s[i]);
}

proof fn lemma_bucket_step(ctx: ChoiceContext, s: Seq<ScoredBoard>, k: nat, kk: int)
    requires
        k < s.len(),
    ensures
        bucket(ctx, s.take((k + 1) as int), kk) == (if bucket_of(ctx, s[k as int]) == kk {
            bucket(ctx, s.take(k as int), kk).push((s[k as int].0, s[k as int].1, shaped_score(ctx.board, s[k as int], ctx.policy)))
        } else {
            bucket(ctx, s.take(k as int), kk)
        }),
{
    assert(s.take((k + 1) as int).drop_last() =~= s.take(k as int));
}

proof fn lemma_any_step(ctx: ChoiceContext, s: Seq<ScoredBoard>, k: nat)
    requires
        k < s.len(),
    ensures
        any_considered(ctx, s.take((k + 1) as int)) == (any_considered(ctx, s.take(k as int)) || considered(ctx, s[k as int])),
{
    let t = s.take((k + 1) as int);
    if any_considered(ctx, s.take(k as int)) {
        let i = choose|i: int| 0 <= i < k && considered(ctx, #[trigger] s.take(k as int)[i]);
        assert(t[i] == s.take(k as int)[i]);
    }
    if considered(ctx, s[k as int]) {
        assert(t[k as int] == s[k as int]);
    }
    if any_considered(ctx, t) {
        let i = choose|i: int| 0 <= i < t.len() && considered(ctx, #[trigger] t[i]);
        if i < k {
            assert(s.take(k as int)[i] == t[i]);
        }
    }
}

/// Adds a shaped candidate to a bucket.
fn push_shaped(
    bucket_vec: &mut Vec<SpiderCandidate>,
    c: SpiderCandidate,
    score: i64,
)
    ensures
        cands_view(final(bucket_vec)@) == cands_view(old(bucket_vec)@).push((c.0@, c.1, score as int)),
        final(bucket_vec)@.len() == old(bucket_vec)@.len() + 1,
        forall|i: int| 0 <= i < old(bucket_vec)@.len() ==> final(bucket_vec)@[i] == old(bucket_vec)@[i],
        final(bucket_vec)@.last().0 == c.0,
{
    let (state, hint_move, _) = c;
    bucket_vec.push((state, hint_move, score));
    assert(cands_view(bucket_vec@) =~= cands_view(old(bucket_vec)@).push((c.0@, c.1, score as int)));
}

/// Takes the candidate the salt selects among the best of a sorted bucket.
fn pick_from(items: &mut Vec<SpiderCandidate>, top_width: usize, salt: u64) -> (r: SpiderCandidate)
    requires
        old(items)@.len() > 0,
    ensures
        cand_view(r) == pick_spec(cands_view(old(items)@), top_width as nat, salt),
        exists|i: int| 0 <= i < old(items)@.len() && r == old(items)@[i],
{
    let w = if top_width >= 1 { top_width } else { 1 };
    let width = if items.len() < w { items.len() } else { w };
    let idx = (salt % (width as u64)) as usize;
    assert(cands_view(old(items)@)[idx as int] == cand_view(old(items)@[idx as int]));
    items.swap_remove(idx)
}

/// Chooses the next move from the ranked candidates of `game`.
///
/// Candidates the filter rejects, or (without `allow_draw`) deals, are not
/// considered. A considered candidate that returns to the current position
/// or to one of the last `recent_window` positions is dropped. The rest are
/// scored by the policy and grouped: unseen positions, seen positions, and
/// (with `require_post_stock_progress`) flat moves after the stock ran out.
/// The first non-empty group, in that order and with revisits allowed only
/// by `allow_revisit_fallback`, is sorted best first and the salt selects
/// among its `top_width` best.
pub fn spider_solver_choose_move<F: Fn(HintMove) -> bool>(
    game: &SpiderGame,
    suit_mode: SpiderSuitMode,
    parent_hash: Option<u64>,
    seen_hashes: &HashSet<u64>,
    recent_hashes: &VecDeque<u64>,
    selection_salt: u64,
    policy: SpiderSolverPolicy,
    allow_move: F,
) -> (r: Result<SpiderSolverDecision, SpiderSolverNoMoveReason>)
    requires
        board_ok(game@),
        policy_ok(policy),
        filter_ok(allow_move),
    ensures
        ({
            let ctx = context_of(game@, seen_hashes@, recent_hashes@, policy, allow_move);
            let ranked = ranked_spec(game@, suit_mode, parent_hash);
            match r {
                Ok(d) => {
                    &&& choice_spec(ctx, ranked, selection_salt) matches Some(c)
                    &&& c.0 == d.next_state@
                    &&& c.1 == d.hint_move
                    &&& d.next_hash == spider_hash_spec(d.next_state@)
                    &&& board_ok(d.next_state@)
                    &&& move_legal(game@, d.hint_move)
                    &&& d.next_state@ == apply_move_spec(game@, d.hint_move)
                },
                Err(reason) => {
                    &&& choice_spec(ctx, ranked, selection_salt) is None
                    &&& reason == (if any_considered(ctx, ranked) {
                        SpiderSolverNoMoveReason::LoopFiltered
                    } else {
                        SpiderSolverNoMoveReason::NoAction
                    })
                },
            }
        }),
{
    broadcast use vstd::std_specs::hash::group_hash_axioms;
    let ghost ctx = context_of(game@, seen_hashes@, recent_hashes@, policy, allow_move);
    proof {
        lemma_board_columns_bounded(game@);
        lemma_totals_bounded(game@.piles);
    }
    let current_hash = spider_state_hash(game);
    let cur_runs = game.completed_runs();
    let cur_empty = spider_empty_col_count(game);
    let cur_edges = spider_suited_desc_edges(game);
    let cur_tail = spider_max_face_up_run_len(game);
    let mut primary: Vec<SpiderCandidate> = Vec::new();
    let mut secondary: Vec<SpiderCandidate> = Vec::new();
    let mut tertiary: Vec<SpiderCandidate> = Vec::new();
    let mut had_successor = false;

    let mut ranked = spider_solver_ranked_candidates(game, suit_mode, parent_hash);
    let ghost all = ranked@;
    let ghost rs = cands_view(all);
    proof {
        lemma_reached_view(game@, all);
        assert forall|i: int| 0 <= i < rs.len() implies reached_from(ctx.board, #[trigger] rs[i]) by {
            assert((|c: ScoredBoard| reached_from(game@, c))(rs[i]));
        }
        lemma_choice_reached(ctx, rs, selection_salt);
    }
    let n = ranked.len();
    let mut k: usize = 0;
    while ranked.len() > 0
        invariant
            board_ok(game@),
            policy_ok(policy),
            filter_ok(allow_move),
            ctx == context_of(game@, seen_hashes@, recent_hashes@, policy, allow_move),
            current_hash == spider_hash_spec(game@),
            cur_runs == game@.completed_runs,
            cur_empty == empty_total(game@.piles),
            cur_edges == edges_total(game@.piles),
            cur_tail == max_tail(game@.piles),
            all.len() == n,
            rs == cands_view(all),
            rs == ranked_spec(game@, suit_mode, parent_hash),
            forall|i: int| 0 <= i < all.len() ==> cand_sound(cand_view(#[trigger] all[i])),
            forall|i: int| 0 <= i < all.len() ==> hint_in_range(game@, (#[trigger] all[i]).1),
            k <= n,
            ranked@ == all.skip(k as int),
            cands_view(primary@) == bucket(ctx, rs.take(k as int), 1),
            cands_view(secondary@) == bucket(ctx, rs.take(k as int), 2),
            cands_view(tertiary@) == bucket(ctx, rs.take(k as int), 3),
            forall|i: int| 0 <= i < primary@.len() ==> board_ok((#[trigger] primary@[i]).0@),
            forall|i: int| 0 <= i < secondary@.len() ==> board_ok((#[trigger] secondary@[i]).0@),
            forall|i: int| 0 <= i < tertiary@.len() ==> board_ok((#[trigger] tertiary@[i]).0@),
            had_successor == any_considered(ctx, rs.take(k as int)),
        decreases ranked@.len(),
    {
        let candidate = ranked.remove(0);
        assert(candidate == all[k as int]);
        assert(rs[k as int] == cand_view(candidate));
        proof {
            lemma_bucket_step(ctx, rs, k as nat, 1);
            lemma_bucket_step(ctx, rs, k as nat, 2);
            lemma_bucket_step(ctx, rs, k as nat, 3);
            lemma_any_step(ctx, rs, k as nat);
        }
        k += 1;
        assert(ranked@ =~= all.skip(k as int));
        let hint_move = candidate.1;
        let is_draw = match hint_move {
            HintMove::Draw => true,
            _ => false,
        };
        if is_draw && !policy.allow_draw {
            continue;
        }
        let allowed = allow_move(hint_move);
        if !allowed {
            continue;
        }
        assert(considered(ctx, cand_view(candidate)));
        had_successor = true;
        let next_hash = spider_state_hash(&candidate.0);
        if next_hash == current_hash {
            continue;
        }
        if recently_seen(recent_hashes, policy.recent_window, next_hash) {
            continue;
        }
        let (adjusted, gated, last_filled) = shape_score(
            game,
            &candidate,
            policy,
            cur_empty,
            cur_runs,
            cur_edges,
            cur_tail,
        );
        if policy.require_post_stock_progress && (gated || last_filled) {
            push_shaped(&mut tertiary, candidate, adjusted);
        } else if !seen_hashes.contains(&next_hash) {
            push_shaped(&mut primary, candidate, adjusted);
        } else {
            push_shaped(&mut secondary, candidate, adjusted);
        }
    }
    assert(rs.take(n as int) =~= rs);
    let ghost bp = cands_view(primary@);
    let ghost bs = cands_view(secondary@);
    let ghost bt = cands_view(tertiary@);
    proof {
        let board_pred = |c: ScoredBoard| board_ok(c.0);
        lemma_boards_view(primary@);
        lemma_boards_view(secondary@);
        lemma_boards_view(tertiary@);
        lemma_sort_keeps(bp, board_pred);
        lemma_sort_keeps(bs, board_pred);
        lemma_sort_keeps(bt, board_pred);
    }
    let mut primary = sort_candidates_desc(primary);
    let mut secondary = sort_candidates_desc(secondary);
    let mut tertiary = sort_candidates_desc(tertiary);
    proof {
        lemma_boards_view(primary@);
        lemma_boards_view(secondary@);
        lemma_boards_view(tertiary@);
    }
    if primary.len() > 0 {
        let c = pick_from(&mut primary, policy.top_width, selection_salt);
        let next_hash = spider_state_hash(&c.0);
        let (next_state, hint_move, _) = c;
        return Ok(SpiderSolverDecision { next_state, hint_move, next_hash });
    }
    if policy.allow_revisit_fallback {
        if secondary.len() > 0 {
            let c = pick_from(&mut secondary, policy.top_width, selection_salt);
            let next_hash = spider_state_hash(&c.0);
            let (next_state, hint_move, _) = c;
            return Ok(SpiderSolverDecision { next_state, hint_move, next_hash });
        }
        if tertiary.len() > 0 {
            let c = pick_from(&mut tertiary, policy.top_width, selection_salt);
            let next_hash = spider_state_hash(&c.0);
            let (next_state, hint_move, _) = c;
            return Ok(SpiderSolverDecision { next_state, hint_move, next_hash });
        }
    }
    Err(if had_successor {
        SpiderSolverNoMoveReason::LoopFiltered
    } else {
        SpiderSolverNoMoveReason::NoAction
    })
}

} // verus!

