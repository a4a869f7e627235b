//! Greedy move generation and scoring for Spider.

use vstd::prelude::*;
use crate::cards::Card;
use crate::moves::HintMove;
use crate::ranking::{sort_candidates_desc, sort_desc};
use crate::spider::{
    SpiderSuitMode,
    board_ok, can_deal_spec, can_move_run_spec, card_total, deal_spec, lemma_deal_preserves,
    lemma_move_run_preserves, linked, movable_run, move_run_spec, SpiderBoard, SpiderGame,
};
use crate::spider_hash::{spider_hash_spec, spider_state_hash};
use crate::spider_metrics::{
    descending_face_up, edges_total, empty_total, face_up_total, hidden_total, is_descending_face_up_run,
    lemma_board_columns_bounded, lemma_totals_bounded, max_tail, spider_empty_col_count,
    spider_face_up_count, spider_hidden_count, spider_max_face_up_run_len, spider_suited_desc_edges,
};

verus! {

// ---------------------------------------------------------------------------
// Transition score
// ---------------------------------------------------------------------------

/// Bonus or penalty for where a run is taken from and where it lands.
pub open spec fn run_placement_adjust(b: SpiderBoard, src: int, start: int, dst: int) -> int {
    let source = b.piles[src];
    let moved = source[start];
    let above_part: int = if start > 0 {
        let above = source[start - 1];
        if above.face_up && moved.face_up && above.rank == moved.rank + 1 {
            if above.suit == moved.suit { -2600 } else { -1400 }
        } else {
            0
        }
    } else {
        0
    };
    let target = b.piles[dst];
    let dst_part: int = if target.len() > 0 && target.last().face_up {
        if target.last().rank == moved.rank + 1 {
            if target.last().suit == moved.suit { 1800 } else { 700 }
        } else {
            -120
        }
    } else {
        0
    };
    above_part + dst_part
}

/// Weighted change of the structural measures from `cur` to `next`.
pub open spec fn structural_delta_spec(cur: SpiderBoard, next: SpiderBoard) -> int {
    (face_up_total(next.piles) - face_up_total(cur.piles)) * 220
        + (empty_total(next.piles) - empty_total(cur.piles)) * 850
        + (hidden_total(cur.piles) - hidden_total(next.piles)) * 2100
        + (edges_total(next.piles) - edges_total(cur.piles)) * 1350
        + (max_tail(next.piles) - max_tail(cur.piles)) * 240
}

/// Heuristic value of going from `cur` to `next` by `hm`.
pub open spec fn transition_score_spec(
    cur: SpiderBoard,
    next: SpiderBoard,
    hm: HintMove,
    parent_hash: Option<u64>,
    has_tableau_moves: bool,
) -> int {
    let completed_delta: int = if next.completed_runs >= cur.completed_runs {
        next.completed_runs - cur.completed_runs
    } else {
        0
    };
    let deal_unlock: int = if !can_deal_spec(cur) && can_deal_spec(next) { 18000 } else { 0 };
    let base = completed_delta * 120000 + structural_delta_spec(cur, next) + deal_unlock;
    let run_part: int = match hm {
        HintMove::TableauRunToTableau { src, start, dst } => run_placement_adjust(cur, src as int, start as int, dst as int),
        _ => 0,
    };
    let draw_part: int = match hm {
        HintMove::Draw => if has_tableau_moves { -15000 } else { -60 },
        _ => 0,
    };
    let parent_part: int = if parent_hash == Some(spider_hash_spec(next)) { -9000 } else { 0 };
    base + run_part + draw_part + parent_part
}

/// The move refers to cards that exist on `b`.
pub open spec fn hint_in_range(b: SpiderBoard, hm: HintMove) -> bool {
    match hm {
        HintMove::TableauRunToTableau { src, start, dst } => {
            &&& src < b.piles.len()
            &&& dst < b.piles.len()
            &&& start < b.piles[src as int].len()
        },
        _ => true,
    }
}

fn run_adjust(game: &SpiderGame, src: usize, start: usize, dst: usize) -> (r: i64)
    requires
        src < game@.piles.len(),
        dst < game@.piles.len(),
        start < game@.piles[src as int].len(),
    ensures
        r == run_placement_adjust(game@, src as int, start as int, dst as int),
{
    let t = game.tableau();
    let source = &t[src];
    let moved = source[start];
    let mut score: i64 = 0;
    if start > 0 {
        let above = source[start - 1];
        if above.face_up && moved.face_up && (above.rank as u16) == (moved.rank as u16) + 1 {
            score = if above.suit == moved.suit { -2600 } else { -1400 };
        }
    }
    let target = &t[dst];
    let tl = target.len();
    if tl > 0 {
        let top = target[tl - 1];
        if top.face_up {
            if (top.rank as u16) == (moved.rank as u16) + 1 {
                score = score + if top.suit == moved.suit { 1800 } else { 700 };
            } else {
                score = score - 120;
            }
        }
    }
    score
}

fn structural_delta(current: &SpiderGame, next: &SpiderGame) -> (r: i64)
    requires
        board_ok(current@),
        board_ok(next@),
    ensures
        r == structural_delta_spec(current@, next@),
        -600_000 <= r <= 600_000,
{
    proof {
        lemma_board_columns_bounded(current@);
        lemma_board_columns_bounded(next@);
        lemma_totals_bounded(current@.piles);
        lemma_totals_bounded(next@.piles);
    }
    let a = spider_face_up_count(next) as i64 - spider_face_up_count(current) as i64;
    let b = spider_empty_col_count(next) as i64 - spider_empty_col_count(current) as i64;
    let c = spider_hidden_count(current) as i64 - spider_hidden_count(next) as i64;
    let d = spider_suited_desc_edges(next) as i64 - spider_suited_desc_edges(current) as i64;
    let e = spider_max_face_up_run_len(next) as i64 - spider_max_face_up_run_len(current) as i64;
    a * 220 + b * 850 + c * 2_100 + d * 1_350 + e * 240
}

/// Heuristic value of going from `current` to `next` by `hint_move`.
pub fn spider_transition_score(
    current: &SpiderGame,
    next: &SpiderGame,
    hint_move: HintMove,
    parent_hash: Option<u64>,
    has_tableau_moves: bool,
) -> (r: i64)
    requires
        board_ok(current@),
        board_ok(next@),
        hint_in_range(current@, hint_move),
    ensures
        r == transition_score_spec(current@, next@, hint_move, parent_hash, has_tableau_moves),
        -3_000_000 <= r <= 3_000_000,
{
    let cur_runs = current.completed_runs();
    let next_runs = next.completed_runs();
    proof {
        lemma_board_columns_bounded(current@);
        lemma_board_columns_bounded(next@);
    }
    assert(cur_runs * 13 <= 104 && next_runs * 13 <= 104);
    let completed_delta: i64 = if next_runs >= cur_runs { (next_runs - cur_runs) as i64 } else { 0 };
    assert(0 <= completed_delta <= 8);
    let structural = structural_delta(current, next);
    let deal_unlock = !current.can_deal_from_stock() && next.can_deal_from_stock();
    let mut score: i64 = completed_delta * 120_000 + structural + if deal_unlock { 18_000 } else { 0 };
    match hint_move {
        HintMove::TableauRunToTableau { src, start, dst } => {
            score = score + run_adjust(current, src, start, dst);
        },
        HintMove::Draw => {
            score = score - if has_tableau_moves { 15_000 } else { 60 };
        },
        _ => {},
    }
    let back_to_parent = match parent_hash {
        Some(hash) => hash == spider_state_hash(next),
        None => false,
    };
    if back_to_parent {
        score = score - 9_000;
    }
    score
}

// ---------------------------------------------------------------------------
// Successor generation
// ---------------------------------------------------------------------------

/// A successor position with the move that reaches it and its score.
pub type SpiderCandidate = (SpiderGame, HintMove, i64);

/// The mathematical content of a candidate.
pub type ScoredBoard = (SpiderBoard, HintMove, int);

pub open spec fn cand_view(c: SpiderCandidate) -> ScoredBoard {
    (c.0@, c.1, c.2 as int)
}

pub open spec fn cands_view(v: Seq<SpiderCandidate>) -> Seq<ScoredBoard> {
    v.map_values(|c: SpiderCandidate| cand_view(c))
}

/// Run moves are enumerated by source column, then start index, then
/// destination column; `n` numbers them in that order.
pub open spec fn nth_run_move(n: nat) -> HintMove {
    HintMove::TableauRunToTableau {
        src: (n / 1280) as usize,
        start: ((n / 10) % 128) as usize,
        dst: (n % 10) as usize,
    }
}

pub open spec fn run_move_legal(b: SpiderBoard, m: HintMove) -> bool {
    match m {
        HintMove::TableauRunToTableau { src, start, dst } => can_move_run_spec(b, src as int, start as int, dst as int),
        _ => false,
    }
}

/// The legal run moves among the first `n` in enumeration order.
pub open spec fn run_moves_upto(b: SpiderBoard, n: nat) -> Seq<HintMove>
    decreases n,
{
    if n == 0 {
        Seq::empty()
    } else {
        let prev = run_moves_upto(b, (n - 1) as nat);
        if run_move_legal(b, nth_run_move((n - 1) as nat)) {
            prev.push(nth_run_move((n - 1) as nat))
        } else {
            prev
        }
    }
}

/// Every legal run move of a board, in enumeration order.
pub open spec fn all_run_moves(b: SpiderBoard) -> Seq<HintMove> {
    run_moves_upto(b, 12800)
}

/// The position a move leads to.
pub open spec fn apply_move_spec(b: SpiderBoard, m: HintMove) -> SpiderBoard {
    match m {
        HintMove::TableauRunToTableau { src, start, dst } => move_run_spec(b, src as int, start as int, dst as int),
        HintMove::Draw => deal_spec(b),
        _ => b,
    }
}

/// `m` can be played on `b`.
pub open spec fn move_legal(b: SpiderBoard, m: HintMove) -> bool {
    match m {
        HintMove::TableauRunToTableau { src, start, dst } => can_move_run_spec(b, src as int, start as int, dst as int),
        HintMove::Draw => can_deal_spec(b),
        _ => false,
    }
}

/// The candidate is the position a legal move of `b` leads to.
pub open spec fn reached_from(b: SpiderBoard, c: ScoredBoard) -> bool {
    move_legal(b, c.1) && c.0 == apply_move_spec(b, c.1)
}

pub open spec fn run_candidates(b: SpiderBoard, parent_hash: Option<u64>, moves: Seq<HintMove>) -> Seq<ScoredBoard>
    decreases moves.len(),
{
    if moves.len() == 0 {
        Seq::empty()
    } else {
        let m = moves.last();
        let next = apply_move_spec(b, m);
        run_candidates(b, parent_hash, moves.drop_last()).push(
            (next, m, transition_score_spec(b, next, m, parent_hash, true)),
        )
    }
}

/// All successors of a position: every legal run move in enumeration order,
/// then a deal from the stock when one is allowed.
pub open spec fn successors_spec(b: SpiderBoard, parent_hash: Option<u64>) -> Seq<ScoredBoard> {
    let runs = all_run_moves(b);
    let tab = run_candidates(b, parent_hash, runs);
    if can_deal_spec(b) {
        let next = deal_spec(b);
        tab.push((next, HintMove::Draw, transition_score_spec(b, next, HintMove::Draw, parent_hash, runs.len() > 0)))
    } else {
        tab
    }
}

proof fn lemma_upto_flat(b: SpiderBoard, lo: nat, hi: nat)
    requires
        lo <= hi,
        forall|n: nat| lo <= n < hi ==> !run_move_legal(b, #[trigger] nth_run_move(n)),
    ensures
        run_moves_upto(b, hi) == run_moves_upto(b, lo),
    decreases hi,
{
    if hi > lo {
        lemma_upto_flat(b, lo, (hi - 1) as nat);
    }
}

proof fn lemma_nth_run_move(src: int, start: int, dst: int)
    requires
        0 <= src < 10,
        0 <= start < 128,
        0 <= dst < 10,
    ensures
        nth_run_move((src * 1280 + start * 10 + dst) as nat) == (HintMove::TableauRunToTableau {
            src: src as usize,
            start: start as usize,
            dst: dst as usize,
        }),
{
    let n = src * 1280 + start * 10 + dst;
    assert(n / 1280 == src && (n / 10) % 128 == start && n % 10 == dst) by (nonlinear_arith)
        requires
            n == src * 1280 + start * 10 + dst,
            0 <= src < 10,
            0 <= start < 128,
            0 <= dst < 10,
    ;
}

/// No run starting at or beyond `from` in column `src` can move.
proof fn lemma_no_moves_from(b: SpiderBoard, src: int, from: int, until: int)
    requires
        0 <= src < 10,
        0 <= from <= until <= 128,
        forall|st: int, d: int| from <= st < until && 0 <= d < 10 ==> !can_move_run_spec(b, src, st, d),
    ensures
        run_moves_upto(b, (src * 1280 + until * 10) as nat) == run_moves_upto(b, (src * 1280 + from * 10) as nat),
{
    assert forall|n: nat| (src * 1280 + from * 10) <= n < (src * 1280 + until * 10) implies !run_move_legal(b, #[trigger] nth_run_move(n)) by {
        let st = (n - src * 1280) / 10;
        let d = (n - src * 1280) % 10;
        assert(from <= st < until && 0 <= d < 10 && n == src * 1280 + st * 10 + d) by (nonlinear_arith)
            requires
                src * 1280 + from * 10 <= n < src * 1280 + until * 10,
                st == (n - src * 1280) / 10,
                d == (n - src * 1280) % 10,
        ;
        lemma_nth_run_move(src, st, d);
    }
    lemma_upto_flat(b, (src * 1280 + from * 10) as nat, (src * 1280 + until * 10) as nat);
}

proof fn lemma_movable_descending(p: Seq<Card>, start: int)
    requires
        movable_run(p, start),
    ensures
        descending_face_up(p.subrange(start, p.len() as int)),
{
    let q = p.subrange(start, p.len() as int);
    assert forall|k: int| 0 <= k < q.len() - 1 implies {
        &&& (#[trigger] q[k]).face_up
        &&& q[k + 1].face_up
        &&& q[k].rank == q[k + 1].rank + 1
    } by {
        assert(linked(p, start + k));
    }
}

proof fn lemma_cands_push(v: Seq<SpiderCandidate>, c: SpiderCandidate)
    ensures
        cands_view(v.push(c)) == cands_view(v).push(cand_view(c)),
{
    assert(cands_view(v.push(c)) =~= cands_view(v).push(cand_view(c)));
}

/// Every successor of a position, scored, in enumeration order.
#[verifier::rlimit(40)]
pub fn spider_successors_guided(game: &SpiderGame, parent_hash: Option<u64>) -> (r: Vec<SpiderCandidate>)
    requires
        board_ok(game@),
    ensures
        cands_view(r@) == successors_spec(game@, parent_hash),
        forall|i: int| 0 <= i < r@.len() ==> cand_sound(cand_view(#[trigger] r@[i])),
        forall|i: int| 0 <= i < r@.len() ==> hint_in_range(game@, (#[trigger] r@[i]).1),
        forall|i: int| 0 <= i < r@.len() ==> reached_from(game@, cand_view(#[trigger] r@[i])),
{
    let ghost b = game@;
    proof {
        lemma_board_columns_bounded(b);
    }
    let mut successors: Vec<SpiderCandidate> = Vec::new();
    let mut has_tableau_moves = false;
    let t = game.tableau();
    let mut src: usize = 0;
    while src < 10
        invariant
            b == game@,
            board_ok(b),
            t@.len() == 10,
            forall|j: int| 0 <= j < 10 ==> (#[trigger] t@[j])@ == b.piles[j],
            forall|j: int| 0 <= j < 10 ==> (#[trigger] b.piles[j]).len() <= 104,
            src <= 10,
            cands_view(successors@) == run_candidates(b, parent_hash, run_moves_upto(b, (src * 1280) as nat)),
            has_tableau_moves == (run_moves_upto(b, (src * 1280) as nat).len() > 0),
            forall|i: int| 0 <= i < successors@.len() ==> cand_sound(cand_view(#[trigger] successors@[i])),
            forall|i: int| 0 <= i < successors@.len() ==> hint_in_range(b, (#[trigger] successors@[i]).1),
            forall|i: int| 0 <= i < successors@.len() ==> reached_from(b, cand_view(#[trigger] successors@[i])),
        decreases 10 - src,
    {
        let source = &t[src];
        let len = source.len();
        let mut start: usize = 0;
        while start < len
            invariant
                b == game@,
                board_ok(b),
                t@.len() == 10,
                forall|j: int| 0 <= j < 10 ==> (#[trigger] t@[j])@ == b.piles[j],
                src < 10,
                source@ == b.piles[src as int],
                len == source@.len(),
                len <= 104,
                start <= len,
                cands_view(successors@) == run_candidates(b, parent_hash, run_moves_upto(b, (src * 1280 + start * 10) as nat)),
                has_tableau_moves == (run_moves_upto(b, (src * 1280 + start * 10) as nat).len() > 0),
                forall|i: int| 0 <= i < successors@.len() ==> cand_sound(cand_view(#[trigger] successors@[i])),
                forall|i: int| 0 <= i < successors@.len() ==> hint_in_range(b, (#[trigger] successors@[i]).1),
            forall|i: int| 0 <= i < successors@.len() ==> reached_from(b, cand_view(#[trigger] successors@[i])),
            forall|i: int| 0 <= i < successors@.len() ==> hint_in_range(b, (#[trigger] successors@[i]).1),
            forall|i: int| 0 <= i < successors@.len() ==> reached_from(b, cand_view(#[trigger] successors@[i])),
            decreases len - start,
        {
            let worth_trying = source[start].face_up
                && is_descending_face_up_run(vstd::slice::slice_subrange(source.as_slice(), start, len));
            if worth_trying {
                let mut dst: usize = 0;
                while dst < 10
                    invariant
                        b == game@,
                        board_ok(b),
                        src < 10,
                        start < len,
                        len <= 104,
                        len == b.piles[src as int].len(),
                        dst <= 10,
                        cands_view(successors@) == run_candidates(
                            b,
                            parent_hash,
                            run_moves_upto(b, (src * 1280 + start * 10 + dst) as nat),
                        ),
                        has_tableau_moves == (run_moves_upto(b, (src * 1280 + start * 10 + dst) as nat).len() > 0),
                        forall|i: int| 0 <= i < successors@.len() ==> cand_sound(cand_view(#[trigger] successors@[i])),
                forall|i: int| 0 <= i < successors@.len() ==> hint_in_range(b, (#[trigger] successors@[i]).1),
            forall|i: int| 0 <= i < successors@.len() ==> reached_from(b, cand_view(#[trigger] successors@[i])),
                        forall|i: int| 0 <= i < successors@.len() ==> hint_in_range(b, (#[trigger] successors@[i]).1),
            forall|i: int| 0 <= i < successors@.len() ==> reached_from(b, cand_view(#[trigger] successors@[i])),
            forall|i: int| 0 <= i < successors@.len() ==> hint_in_range(b, (#[trigger] successors@[i]).1),
            forall|i: int| 0 <= i < successors@.len() ==> reached_from(b, cand_view(#[trigger] successors@[i])),
                    decreases 10 - dst,
                {
                    proof {
                        lemma_nth_run_move(src as int, start as int, dst as int);
                    }
                    let ghost n = (src * 1280 + start * 10 + dst) as nat;
                    let hint_move = HintMove::TableauRunToTableau { src, start, dst };
                    if game.can_move_run(src, start, dst) {
                        let mut next = game.duplicate();
                        let moved = next.move_run(src, start, dst);
                        assert(moved);
                        has_tableau_moves = true;
                        let transition = spider_transition_score(game, &next, hint_move, parent_hash, has_tableau_moves);
                        let ghost before = successors@;
                        successors.push((next, hint_move, transition));
                        proof {
                            lemma_cands_push(before, (next, hint_move, transition));
                            assert(run_moves_upto(b, (n + 1) as nat) == run_moves_upto(b, n).push(hint_move));
                            assert(run_moves_upto(b, (n + 1) as nat).drop_last() =~= run_moves_upto(b, n));
                        }
                    } else {
                        assert(run_moves_upto(b, (n + 1) as nat) == run_moves_upto(b, n));
                    }
                    dst += 1;
                }
            } else {
                proof {
                    if source@.len() > 0 && movable_run(b.piles[src as int], start as int) {
                        lemma_movable_descending(b.piles[src as int], start as int);
                    }
                    lemma_no_moves_from(b, src as int, start as int, start + 1);
                }
            }
            start += 1;
        }
        proof {
            lemma_no_moves_from(b, src as int, len as int, 128);
        }
        src += 1;
    }
    if game.can_deal_from_stock() {
        let mut next = game.duplicate();
        let dealt = next.deal_from_stock();
        assert(dealt);
        proof {
            lemma_deal_preserves(b);
        }
        let transition = spider_transition_score(game, &next, HintMove::Draw, parent_hash, has_tableau_moves);
        let ghost before = successors@;
        successors.push((next, HintMove::Draw, transition));
        proof {
            lemma_cands_push(before, (next, HintMove::Draw, transition));
        }
    }
    successors
}

// ---------------------------------------------------------------------------
// Ranked candidates
// ---------------------------------------------------------------------------

pub open spec fn successor_limit_spec(mode: SpiderSuitMode) -> nat {
    match mode {
        SpiderSuitMode::One => 160,
        SpiderSuitMode::Two => 112,
        SpiderSuitMode::Three => 72,
        SpiderSuitMode::Four => 56,
    }
}

/// How many candidates one position may keep.
pub fn spider_successor_limit(suit_mode: SpiderSuitMode) -> (r: usize)
    ensures
        r == successor_limit_spec(suit_mode),
{
    match suit_mode {
        SpiderSuitMode::One => 160,
        SpiderSuitMode::Two => 112,
        SpiderSuitMode::Three => 72,
        SpiderSuitMode::Four => 56,
    }
}

pub open spec fn bridge_reserve_spec(mode: SpiderSuitMode) -> nat {
    match mode {
        SpiderSuitMode::One => 4,
        SpiderSuitMode::Two => 6,
        SpiderSuitMode::Three => 8,
        SpiderSuitMode::Four => 12,
    }
}

/// How many moves into empty columns are kept when candidates are cut.
pub fn spider_empty_bridge_reserve(suit_mode: SpiderSuitMode) -> (r: usize)
    ensures
        r == bridge_reserve_spec(suit_mode),
{
    match suit_mode {
        SpiderSuitMode::One => 4,
        SpiderSuitMode::Two => 6,
        SpiderSuitMode::Three => 8,
        SpiderSuitMode::Four => 12,
    }
}

/// A run move onto an empty column of `b`.
pub open spec fn is_bridge(b: SpiderBoard, c: ScoredBoard) -> bool {
    match c.1 {
        HintMove::TableauRunToTableau { dst, .. } => dst < b.piles.len() && b.piles[dst as int].len() == 0,
        _ => false,
    }
}

pub open spec fn bridge_part(b: SpiderBoard, s: Seq<ScoredBoard>) -> Seq<ScoredBoard>
    decreases s.len(),
{
    if s.len() == 0 {
        Seq::empty()
    } else if is_bridge(b, s.last()) {
        bridge_part(b, s.drop_last()).push(s.last())
    } else {
        bridge_part(b, s.drop_last())
    }
}

pub open spec fn regular_part(b: SpiderBoard, s: Seq<ScoredBoard>) -> Seq<ScoredBoard>
    decreases s.len(),
{
    if s.len() == 0 {
        Seq::empty()
    } else if is_bridge(b, s.last()) {
        regular_part(b, s.drop_last())
    } else {
        regular_part(b, s.drop_last()).push(s.last())
    }
}

pub open spec fn take_at_most<A>(s: Seq<A>, n: nat) -> Seq<A> {
    if n >= s.len() { s } else { s.take(n as int) }
}

pub open spec fn min_nat(a: nat, b: nat) -> nat {
    if a <= b { a } else { b }
}

/// The candidates the solver considers, best first: all successors when
/// they fit the limit; otherwise the best moves into empty columns up to the
/// reserve, filled up with the best other moves.
pub open spec fn ranked_spec(b: SpiderBoard, mode: SpiderSuitMode, parent_hash: Option<u64>) -> Seq<ScoredBoard> {
    let succ = successors_spec(b, parent_hash);
    let limit = successor_limit_spec(mode);
    if succ.len() <= limit {
        sort_desc(succ)
    } else {
        let bridge = sort_desc(bridge_part(b, succ));
        let regular = sort_desc(regular_part(b, succ));
        let reserve = min_nat(min_nat(bridge_reserve_spec(mode), limit), bridge.len());
        let selected = bridge.take(reserve as int) + take_at_most(regular, (limit - reserve) as nat);
        take_at_most(sort_desc(selected), limit)
    }
}

pub fn spider_solver_ranked_candidates(
    game: &SpiderGame,
    suit_mode: SpiderSuitMode,
    parent_hash: Option<u64>,
) -> (r: Vec<SpiderCandidate>)
    requires
        board_ok(game@),
    ensures
        cands_view(r@) == ranked_spec(game@, suit_mode, parent_hash),
        forall|i: int| 0 <= i < r@.len() ==> cand_sound(cand_view(#[trigger] r@[i])),
        forall|i: int| 0 <= i < r@.len() ==> hint_in_range(game@, (#[trigger] r@[i]).1),
        forall|i: int| 0 <= i < r@.len() ==> reached_from(game@, cand_view(#[trigger] r@[i])),
{
    let ghost b = game@;
    let successors = spider_successors_guided(game, parent_hash);
    let ghost succ = cands_view(successors@);
    let limit = spider_successor_limit(suit_mode);
    if successors.len() <= limit {
        let r = sort_candidates_desc(successors);
        proof {
            lemma_sound_view(successors@);
            lemma_sort_keeps(succ, |c: ScoredBoard| cand_sound(c));
            lemma_sound_view(r@);
            lemma_range_view(b, successors@);
            lemma_sort_keeps(succ, |c: ScoredBoard| hint_in_range(b, c.1));
            lemma_range_view(b, r@);
            lemma_reached_view(b, successors@);
            lemma_sort_keeps(succ, |c: ScoredBoard| reached_from(b, c));
            lemma_reached_view(b, r@);
        }
        return r;
    }
    proof {
        lemma_sound_view(successors@);
        lemma_parts_keep(b, succ, |c: ScoredBoard| cand_sound(c));
        lemma_range_view(b, successors@);
        lemma_parts_keep(b, succ, |c: ScoredBoard| hint_in_range(b, c.1));
        lemma_reached_view(b, successors@);
        lemma_parts_keep(b, succ, |c: ScoredBoard| reached_from(b, c));
    }
    let t = game.tableau();
    let total = successors.len();
    let mut rest = successors;
    let mut empty_bridge: Vec<SpiderCandidate> = Vec::new();
    let mut regular: Vec<SpiderCandidate> = Vec::new();
    let ghost all = rest@;
    let mut k: usize = 0;
    while rest.len() > 0
        invariant
            all.len() == succ.len(),
            all.len() == total,
            cands_view(all) == succ,
            k <= all.len(),
            rest@ == all.skip(k as int),
            t@.len() == b.piles.len(),
            forall|j: int| 0 <= j < t@.len() ==> (#[trigger] t@[j])@ == b.piles[j],
            cands_view(empty_bridge@) == bridge_part(b, succ.take(k as int)),
            cands_view(regular@) == regular_part(b, succ.take(k as int)),
        decreases rest@.len(),
    {
        let candidate = rest.remove(0);
        assert(candidate == all[k as int]);
        assert(succ.take(k + 1).drop_last() =~= succ.take(k as int));
        assert(succ.take(k + 1).last() == cand_view(candidate));
        let is_empty_dst = match candidate.1 {
            HintMove::TableauRunToTableau { dst, .. } => dst < t.len() && t[dst].len() == 0,
            _ => false,
        };
        let ghost bb = empty_bridge@;
        let ghost rr = regular@;
        if is_empty_dst {
            empty_bridge.push(candidate);
            proof { lemma_cands_push(bb, candidate); }
        } else {
            regular.push(candidate);
            proof { lemma_cands_push(rr, candidate); }
        }
        k += 1;
        assert(rest@ =~= all.skip(k as int));
    }
    assert(succ.take(k as int) =~= succ);
    let mut empty_bridge = sort_candidates_desc(empty_bridge);
    let mut regular = sort_candidates_desc(regular);
    let mut reserve = spider_empty_bridge_reserve(suit_mode);
    if limit < reserve {
        reserve = limit;
    }
    if empty_bridge.len() < reserve {
        reserve = empty_bridge.len();
    }
    let ghost bridge_sorted = cands_view(empty_bridge@);
    let ghost regular_sorted = cands_view(regular@);
    empty_bridge.truncate(reserve);
    assert(cands_view(empty_bridge@) =~= bridge_sorted.take(reserve as int));
    let remaining = limit - empty_bridge.len();
    regular.truncate(remaining);
    assert(cands_view(regular@) =~= take_at_most(regular_sorted, remaining as nat));
    let mut selected = empty_bridge;
    let ghost sel_before = selected@;
    let ghost reg_before = regular@;
    selected.append(&mut regular);
    assert(cands_view(selected@) =~= cands_view(sel_before) + cands_view(reg_before));
    let ghost pre = cands_view(selected@);
    let mut selected = sort_candidates_desc(selected);
    let ghost sorted = cands_view(selected@);
    selected.truncate(limit);
    assert(cands_view(selected@) =~= take_at_most(sorted, limit as nat));
    proof {
        let pred = |c: ScoredBoard| cand_sound(c);
        lemma_sort_keeps(bridge_part(b, succ), pred);
        lemma_sort_keeps(regular_part(b, succ), pred);
        lemma_take_keeps(bridge_sorted, reserve as nat, pred);
        lemma_take_keeps(regular_sorted, remaining as nat, pred);
        lemma_concat_keeps(bridge_sorted.take(reserve as int), take_at_most(regular_sorted, remaining as nat), pred);
        lemma_sort_keeps(pre, pred);
        lemma_take_keeps(sorted, limit as nat, pred);
        lemma_sound_view(selected@);
        let pr = |c: ScoredBoard| hint_in_range(b, c.1);
        lemma_sort_keeps(bridge_part(b, succ), pr);
        lemma_sort_keeps(regular_part(b, succ), pr);
        lemma_take_keeps(bridge_sorted, reserve as nat, pr);
        lemma_take_keeps(regular_sorted, remaining as nat, pr);
        lemma_concat_keeps(bridge_sorted.take(reserve as int), take_at_most(regular_sorted, remaining as nat), pr);
        lemma_sort_keeps(pre, pr);
        lemma_take_keeps(sorted, limit as nat, pr);
        lemma_range_view(b, selected@);
        let pf = |c: ScoredBoard| reached_from(b, c);
        lemma_sort_keeps(bridge_part(b, succ), pf);
        lemma_sort_keeps(regular_part(b, succ), pf);
        lemma_take_keeps(bridge_sorted, reserve as nat, pf);
        lemma_take_keeps(regular_sorted, remaining as nat, pf);
        lemma_concat_keeps(bridge_sorted.take(reserve as int), take_at_most(regular_sorted, remaining as nat), pf);
        lemma_sort_keeps(pre, pf);
        lemma_take_keeps(sorted, limit as nat, pf);
        lemma_reached_view(b, selected@);
    }
    selected
}

/// Every element of `s` satisfies `pred`.
pub open spec fn all_satisfy(s: Seq<ScoredBoard>, pred: spec_fn(ScoredBoard) -> bool) -> bool {
    forall|i: int| 0 <= i < s.len() ==> pred(#[trigger] s[i])
}

/// A candidate on a sound board with a score of bounded size.
pub open spec fn cand_sound(c: ScoredBoard) -> bool {
    board_ok(c.0) && -3_000_000 <= c.2 <= 3_000_000
}

proof fn lemma_satisfy_drop_last(s: Seq<ScoredBoard>, pred: spec_fn(ScoredBoard) -> bool)
    requires
        all_satisfy(s, pred),
        s.len() > 0,
    ensures
        all_satisfy(s.drop_last(), pred),
        pred(s.last()),
{
    let d = s.drop_last();
    assert forall|i: int| 0 <= i < d.len() implies pred(#[trigger] d[i]) by {
        assert(d[i] == s[i]);
    }
    assert(pred(s[s.len() - 1]));
}

proof fn lemma_satisfy_push(s: Seq<ScoredBoard>, x: ScoredBoard, pred: spec_fn(ScoredBoard) -> bool)
    requires
        all_satisfy(s, pred),
        pred(x),
    ensures
        all_satisfy(s.push(x), pred),
{
    let r = s.push(x);
    assert forall|i: int| 0 <= i < r.len() implies pred(#[trigger] r[i]) by {
        if i < s.len() {
            assert(r[i] == s[i]);
        }
    }
}

proof fn lemma_insert_keeps(s: Seq<ScoredBoard>, x: ScoredBoard, pred: spec_fn(ScoredBoard) -> bool)
    requires
        all_satisfy(s, pred),
        pred(x),
    ensures
        all_satisfy(crate::ranking::insert_desc(s, x), pred),
    decreases s.len(),
{
    if s.len() > 0 && s.last().2 < x.2 {
        lemma_satisfy_drop_last(s, pred);
        lemma_insert_keeps(s.drop_last(), x, pred);
        lemma_satisfy_push(crate::ranking::insert_desc(s.drop_last(), x), s.last(), pred);
    } else if s.len() > 0 {
        lemma_satisfy_push(s, x, pred);
    }
}

/// Sorting keeps a property that every element has.
pub proof fn lemma_sort_keeps(s: Seq<ScoredBoard>, pred: spec_fn(ScoredBoard) -> bool)
    requires
        all_satisfy(s, pred),
    ensures
        all_satisfy(sort_desc(s), pred),
    decreases s.len(),
{
    if s.len() > 0 {
        lemma_satisfy_drop_last(s, pred);
        lemma_sort_keeps(s.drop_last(), pred);
        lemma_insert_keeps(sort_desc(s.drop_last()), s.last(), pred);
    }
}

proof fn lemma_parts_keep(b: SpiderBoard, s: Seq<ScoredBoard>, pred: spec_fn(ScoredBoard) -> bool)
    requires
        all_satisfy(s, pred),
    ensures
        all_satisfy(bridge_part(b, s), pred),
        all_satisfy(regular_part(b, s), pred),
    decreases s.len(),
{
    if s.len() > 0 {
        lemma_satisfy_drop_last(s, pred);
        lemma_parts_keep(b, s.drop_last(), pred);
        lemma_satisfy_push(bridge_part(b, s.drop_last()), s.last(), pred);
        lemma_satisfy_push(regular_part(b, s.drop_last()), s.last(), pred);
    }
}

proof fn lemma_take_keeps(s: Seq<ScoredBoard>, n: nat, pred: spec_fn(ScoredBoard) -> bool)
    requires
        all_satisfy(s, pred),
    ensures
        all_satisfy(take_at_most(s, n), pred),
        n <= s.len() ==> all_satisfy(s.take(n as int), pred),
{
    if n <= s.len() {
        let t = s.take(n as int);
        assert forall|i: int| 0 <= i < t.len() implies pred(#[trigger] t[i]) by {
            assert(t[i] == s[i]);
        }
    }
}

proof fn lemma_concat_keeps(a: Seq<ScoredBoard>, c: Seq<ScoredBoard>, pred: spec_fn(ScoredBoard) -> bool)
    requires
        all_satisfy(a, pred),
        all_satisfy(c, pred),
    ensures
        all_satisfy(a + c, pred),
{
    let r = a + c;
    assert forall|i: int| 0 <= i < r.len() implies pred(#[trigger] r[i]) by {
        if i < a.len() {
            assert(r[i] == a[i]);
        } else {
            assert(r[i] == c[i - a.len()]);
        }
    }
}

pub proof fn lemma_reached_view(b: SpiderBoard, v: Seq<SpiderCandidate>)
    ensures
        all_satisfy(cands_view(v), |c: ScoredBoard| reached_from(b, c)) <==> (forall|i: int|
            0 <= i < v.len() ==> reached_from(b, cand_view(#[trigger] v[i]))),
{
    let cv = cands_view(v);
    if all_satisfy(cv, |c: ScoredBoard| reached_from(b, c)) {
        assert forall|i: int| 0 <= i < v.len() implies reached_from(b, cand_view(#[trigger] v[i])) by {
            assert(cv[i] == cand_view(v[i]));
        }
    }
    if forall|i: int| 0 <= i < v.len() ==> reached_from(b, cand_view(#[trigger] v[i])) {
        assert forall|i: int| 0 <= i < cv.len() implies (|c: ScoredBoard| reached_from(b, c))(#[trigger] cv[i]) by {
            assert(cv[i] == cand_view(v[i]));
        }
    }
}

proof fn lemma_range_view(b: SpiderBoard, v: Seq<SpiderCandidate>)
    ensures
        all_satisfy(cands_view(v), |c: ScoredBoard| hint_in_range(b, c.1)) <==> (forall|i: int|
            0 <= i < v.len() ==> hint_in_range(b, (#[trigger] v[i]).1)),
{
    let cv = cands_view(v);
    if all_satisfy(cv, |c: ScoredBoard| hint_in_range(b, c.1)) {
        assert forall|i: int| 0 <= i < v.len() implies hint_in_range(b, (#[trigger] v[i]).1) by {
            assert(cv[i] == cand_view(v[i]));
        }
    }
    if forall|i: int| 0 <= i < v.len() ==> hint_in_range(b, (#[trigger] v[i]).1) {
        assert forall|i: int| 0 <= i < cv.len() implies (|c: ScoredBoard| hint_in_range(b, c.1))(#[trigger] cv[i]) by {
            assert(cv[i] == cand_view(v[i]));
        }
    }
}

/// The boards of the candidates, read through their views.
pub proof fn lemma_boards_view(v: Seq<SpiderCandidate>)
    ensures
        all_satisfy(cands_view(v), |c: ScoredBoard| board_ok(c.0)) <==> (forall|i: int|
            0 <= i < v.len() ==> board_ok((#[trigger] v[i]).0@)),
{
    let cv = cands_view(v);
    if all_satisfy(cv, |c: ScoredBoard| board_ok(c.0)) {
        assert forall|i: int| 0 <= i < v.len() implies board_ok((#[trigger] v[i]).0@) by {
            assert(cv[i] == cand_view(v[i]));
        }
    }
    if forall|i: int| 0 <= i < v.len() ==> board_ok((#[trigger] v[i]).0@) {
        assert forall|i: int| 0 <= i < cv.len() implies (|c: ScoredBoard| board_ok(c.0))(#[trigger] cv[i]) by {
            assert(cv[i] == cand_view(v[i]));
        }
    }
}

proof fn lemma_sound_view(v: Seq<SpiderCandidate>)
    ensures
        all_satisfy(cands_view(v), |c: ScoredBoard| cand_sound(c)) <==> (forall|i: int|
            0 <= i < v.len() ==> cand_sound(cand_view(#[trigger] v[i]))),
{
    let cv = cands_view(v);
    if all_satisfy(cv, |c: ScoredBoard| cand_sound(c)) {
        assert forall|i: int| 0 <= i < v.len() implies cand_sound(cand_view(#[trigger] v[i])) by {
            assert(cv[i] == cand_view(v[i]));
        }
    }
    if forall|i: int| 0 <= i < v.len() ==> cand_sound(cand_view(#[trigger] v[i])) {
        assert forall|i: int| 0 <= i < cv.len() implies (|c: ScoredBoard| cand_sound(c))(#[trigger] cv[i]) by {
            assert(cv[i] == cand_view(v[i]));
        }
    }
}

} // verus!


