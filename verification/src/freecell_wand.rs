//! The FreeCell wand: every legal move of a position scored by how much it
//! improves the evaluation, with biases that favour safe foundation plays,
//! free space and unlocking columns.

use vstd::prelude::*;
use crate::cards::{suit_index_spec, suit_is_red, Card};
use crate::freecell::{
    can_freecell_to_foundation, can_freecell_to_tableau, can_run_to_tableau, can_tableau_to_foundation,
    can_tableau_to_freecell, empty_columns, fc_ok, freecell_to_foundation, freecell_to_tableau,
    lemma_empty_columns_bound, lemma_occupied_bound, lemma_pow2_small_bound, occupied, pow2_small, run_to_tableau, tableau_to_foundation,
    tableau_to_freecell, FreecellBoard, FreecellGame,
};
use crate::freecell_action::FreecellPlannerAction;
use crate::freecell_eval::{
    freecell_empty_cells, freecell_empty_columns, freecell_legal_move_count, freecell_transition_score,
    lemma_column_small, legal_moves_spec, transition_score_spec,
};

verus! {

// ---------------------------------------------------------------------------
// Biases
// ---------------------------------------------------------------------------

/// A card parked in the free cell matching its foundation, or next to it.
pub open spec fn slot_preference_spec(card: Option<Card>, cell: int) -> int {
    match card {
        None => 0,
        Some(c) => {
            let preferred = suit_index_spec(c.suit) as int;
            let diff = if preferred >= cell { preferred - cell } else { cell - preferred };
            if diff == 0 {
                70
            } else if diff == 1 {
                30
            } else if diff == 2 {
                10
            } else {
                0
            }
        },
    }
}

pub fn freecell_slot_preference_bias(card: Option<Card>, cell: usize) -> (r: i64)
    ensures
        r == slot_preference_spec(card, cell as int),
        0 <= r <= 70,
{
    match card {
        None => 0,
        Some(c) => {
            let preferred = c.suit.foundation_index();
            let diff = if preferred >= cell { preferred - cell } else { cell - preferred };
            if diff == 0 {
                70
            } else if diff == 1 {
                30
            } else if diff == 2 {
                10
            } else {
                0
            }
        },
    }
}

pub open spec fn has_foundation_push_spec(b: FreecellBoard) -> bool {
    (exists|cell: int| 0 <= cell < 4 && can_freecell_to_foundation(b, cell))
        || (exists|src: int| 0 <= src < 8 && can_tableau_to_foundation(b, src))
}

/// Some card can go to a foundation.
pub fn freecell_has_foundation_push(game: &FreecellGame) -> (r: bool)
    requires
        fc_ok(game@),
    ensures
        r == has_foundation_push_spec(game@),
{
    let mut cell: usize = 0;
    while cell < 4
        invariant
            fc_ok(game@),
            cell <= 4,
            forall|c: int| 0 <= c < cell ==> !can_freecell_to_foundation(game@, c),
        decreases 4 - cell,
    {
        if game.can_move_freecell_to_foundation(cell) {
            return true;
        }
        cell += 1;
    }
    let mut src: usize = 0;
    while src < 8
        invariant
            fc_ok(game@),
            src <= 8,
            forall|c: int| 0 <= c < 4 ==> !can_freecell_to_foundation(game@, c),
            forall|s: int| 0 <= s < src ==> !can_tableau_to_foundation(game@, s),
        decreases 8 - src,
    {
        if game.can_move_tableau_top_to_foundation(src) {
            return true;
        }
        src += 1;
    }
    false
}

/// A foundation play is safe when the card is an ace, or both foundations
/// of the other colour already hold every rank below it.
pub open spec fn safe_foundation_spec(b: FreecellBoard, card: Option<Card>) -> int {
    match card {
        None => 0,
        Some(c) => if c.rank <= 1 {
            90_000
        } else {
            let needed = c.rank - 1;
            let ok = if suit_is_red(c.suit) {
                b.foundations[0].len() >= needed && b.foundations[3].len() >= needed
            } else {
                b.foundations[1].len() >= needed && b.foundations[2].len() >= needed
            };
            if ok { 90_000 } else { 0 }
        },
    }
}

pub fn freecell_safe_foundation_bias(game: &FreecellGame, card: Option<Card>) -> (r: i64)
    requires
        fc_ok(game@),
    ensures
        r == safe_foundation_spec(game@, card),
        0 <= r <= 90_000,
{
    match card {
        None => 0,
        Some(c) => {
            if c.rank <= 1 {
                return 90_000;
            }
            let needed = (c.rank - 1) as usize;
            let f = game.foundations();
            let ok = if c.color_red() {
                f[0].len() >= needed && f[3].len() >= needed
            } else {
                f[1].len() >= needed && f[2].len() >= needed
            };
            if ok { 90_000 } else { 0 }
        },
    }
}

/// Cards a run move could carry counting every empty column:
/// (empty free cells + 1) * 2^(empty columns).
pub open spec fn supermove_capacity_spec(b: FreecellBoard) -> int {
    (4 - occupied(b.freecells) + 1) * pow2_small(empty_columns(b.tableau))
}

pub fn freecell_supermove_capacity(game: &FreecellGame) -> (r: usize)
    requires
        fc_ok(game@),
    ensures
        r == supermove_capacity_spec(game@),
        r <= 5 * 256,
{
    let ef = freecell_empty_cells(game);
    let et = freecell_empty_columns(game);
    let mut factor: usize = 1;
    let mut e: usize = 0;
    while e < et
        invariant
            et <= 8,
            e <= et,
            factor == pow2_small(e as nat),
            factor <= 256,
        decreases et - e,
    {
        proof {
            lemma_pow2_small_bound(e as nat);
        }
        factor = factor * 2;
        e += 1;
    }
    assert((ef + 1) * factor <= 5 * 256) by (nonlinear_arith)
        requires
            ef <= 4,
            factor <= 256,
    ;
    (ef + 1) * factor
}

/// Moving a king into an empty column.
pub open spec fn king_to_empty_spec(b: FreecellBoard, src: int, start: int, dst: int) -> int {
    if !(0 <= dst < b.tableau.len() && b.tableau[dst].len() == 0) {
        0
    } else if 0 <= src < b.tableau.len() && 0 <= start < b.tableau[src].len() && b.tableau[src][start].rank == 13 {
        700
    } else {
        0
    }
}

pub fn freecell_king_to_empty_column_bias(game: &FreecellGame, src: usize, start: usize, dst: usize) -> (r: i64)
    ensures
        r == king_to_empty_spec(game@, src as int, start as int, dst as int),
        0 <= r <= 700,
{
    let t = game.tableau();
    if !(dst < t.len() && t[dst].len() == 0) {
        return 0;
    }
    match game.tableau_card(src, start) {
        Some(card) => if card.rank == 13 { 700 } else { 0 },
        None => 0,
    }
}

/// A column move that lands in an empty column or empties its source, and
/// what it does to the supermove capacity.
pub open spec fn main_area_spec(cur: FreecellBoard, next: FreecellBoard, src: int, dst: int) -> int {
    let dst_was_empty = 0 <= dst < cur.tableau.len() && cur.tableau[dst].len() == 0;
    let src_now_empty = 0 <= src < next.tableau.len() && next.tableau[src].len() == 0;
    (supermove_capacity_spec(next) - supermove_capacity_spec(cur)) * 180 + (if dst_was_empty { 320int } else { 0 })
        + (if src_now_empty { 900int } else { 0 })
}

pub fn freecell_tableau_main_area_cell_bias(current: &FreecellGame, next: &FreecellGame, src: usize, dst: usize) -> (r: i64)
    requires
        fc_ok(current@),
        fc_ok(next@),
    ensures
        r == main_area_spec(current@, next@, src as int, dst as int),
        -300_000 <= r <= 300_000,
{
    let ct = current.tableau();
    let nt = next.tableau();
    let dst_was_empty = dst < ct.len() && ct[dst].len() == 0;
    let src_now_empty = src < nt.len() && nt[src].len() == 0;
    let delta = freecell_supermove_capacity(next) as i64 - freecell_supermove_capacity(current) as i64;
    let mut bias = delta * 180;
    if dst_was_empty {
        bias = bias + 320;
    }
    if src_now_empty {
        bias = bias + 900;
    }
    bias
}

/// Parking a column's top card in a free cell: favoured with free space to
/// spare, when nothing can go to a foundation, from longer columns, and
/// when few moves remain.
pub open spec fn to_freecell_spec(b: FreecellBoard, src: int) -> int {
    let empty_before = 4 - occupied(b.freecells);
    let src_len: int = if 0 <= src < b.tableau.len() { b.tableau[src].len() as int } else { 0 };
    let mobility = legal_moves_spec(b);
    420 + (if empty_before >= 1 { 240int } else { 0 }) + (if empty_before >= 2 { 220int } else { 0 })
        + (if empty_before >= 3 { 170int } else { 0 }) + (if !has_foundation_push_spec(b) { 420int } else { 0 })
        + (if src_len >= 2 { 120int } else { 0 }) + (if src_len >= 4 { 80int } else { 0 })
        - (if empty_before == 1 { 140int } else { 0 })
        + (if mobility < 22 && empty_before >= 2 { 220int } else { 0 })
        + (if mobility < 22 && empty_before >= 3 { 180int } else { 0 })
}

pub fn freecell_tableau_to_freecell_bias(game: &FreecellGame, src: usize) -> (r: i64)
    requires
        fc_ok(game@),
    ensures
        r == to_freecell_spec(game@, src as int),
        -10_000 <= r <= 10_000,
{
    let empty_before = freecell_empty_cells(game);
    let t = game.tableau();
    let src_len = if src < t.len() { t[src].len() } else { 0 };
    let no_foundation_progress = !freecell_has_foundation_push(game);
    let mobility = freecell_legal_move_count(game);
    let mut bias: i64 = 420;
    if empty_before >= 1 {
        bias = bias + 240;
    }
    if empty_before >= 2 {
        bias = bias + 220;
    }
    if empty_before >= 3 {
        bias = bias + 170;
    }
    if no_foundation_progress {
        bias = bias + 420;
    }
    if src_len >= 2 {
        bias = bias + 120;
    }
    if src_len >= 4 {
        bias = bias + 80;
    }
    if empty_before == 1 {
        bias = bias - 140;
    }
    if mobility < 22 {
        if empty_before >= 2 {
            bias = bias + 220;
        }
        if empty_before >= 3 {
            bias = bias + 180;
        }
    }
    bias
}

/// Filling or emptying free cells: using a new cell (more so from few used,
/// and when mobility rises) or freeing one (more so from all four).
pub open spec fn multi_cell_spec(cur: FreecellBoard, next: FreecellBoard) -> int {
    let used_before = occupied(cur.freecells);
    let used_after = occupied(next.freecells);
    let mobility_delta = legal_moves_spec(next) - legal_moves_spec(cur);
    if used_after > used_before {
        140 + (if used_before <= 1 { 200int } else { 0 }) + (if used_before == 0 { 160int } else { 0 })
            + (if mobility_delta > 0 { 120int } else { 0 })
    } else if used_after < used_before {
        90 + (if used_before == 4 { 110int } else { 0 })
    } else {
        0
    }
}

pub fn freecell_multi_cell_utilization_bias(current: &FreecellGame, next: &FreecellGame) -> (r: i64)
    requires
        fc_ok(current@),
        fc_ok(next@),
    ensures
        r == multi_cell_spec(current@, next@),
        0 <= r <= 1_000,
{
    let empty_before = freecell_empty_cells(current);
    let empty_after = freecell_empty_cells(next);
    let used_before = 4 - empty_before;
    let used_after = 4 - empty_after;
    let mobility_delta = freecell_legal_move_count(next) as i64 - freecell_legal_move_count(current) as i64;
    let mut bias: i64 = 0;
    if used_after > used_before {
        bias = bias + 140;
        if used_before <= 1 {
            bias = bias + 200;
        }
        if used_before == 0 {
            bias = bias + 160;
        }
        if mobility_delta > 0 {
            bias = bias + 120;
        }
    } else if used_after < used_before {
        bias = bias + 90;
        if used_before == 4 {
            bias = bias + 110;
        }
    }
    bias
}

/// The new top card of column `src` (of length `len`) can move to another column.
pub open spec fn new_top_moves(b: FreecellBoard, src: int, len: int) -> bool {
    exists|d: int| 0 <= d < 8 && d != src && #[trigger] can_run_to_tableau(b, src, len - 1, d)
}

/// After parking a column's top card: the mobility gained, and whether the
/// column emptied, or its new top can go to a foundation or another column.
pub open spec fn unlock_spec(cur: FreecellBoard, next: FreecellBoard, src: int) -> int {
    let prev_len: int = if 0 <= src < cur.tableau.len() { cur.tableau[src].len() as int } else { 0 };
    let next_len: int = if 0 <= src < next.tableau.len() { next.tableau[src].len() as int } else { 0 };
    let gained: int = if next_len < prev_len { (legal_moves_spec(next) - legal_moves_spec(cur)) * 35 } else { 0 };
    if next_len == 0 {
        gained + 220
    } else {
        gained + (if can_tableau_to_foundation(next, src) { 360int } else { 0 }) + (if new_top_moves(next, src, next_len) {
            180int
        } else {
            0
        })
    }
}

pub fn freecell_tableau_to_freecell_unlock_bias(current: &FreecellGame, next: &FreecellGame, src: usize) -> (r: i64)
    requires
        fc_ok(current@),
        fc_ok(next@),
    ensures
        r == unlock_spec(current@, next@, src as int),
        -200_000 <= r <= 200_000,
{
    let mut bias: i64 = 0;
    let ct = current.tableau();
    let nt = next.tableau();
    let prev_len = if src < ct.len() { ct[src].len() } else { 0 };
    let next_len = if src < nt.len() { nt[src].len() } else { 0 };
    if next_len < prev_len {
        let delta = freecell_legal_move_count(next) as i64 - freecell_legal_move_count(current) as i64;
        bias = bias + delta * 35;
    }
    if next_len == 0 {
        return bias + 220;
    }
    if next.can_move_tableau_top_to_foundation(src) {
        bias = bias + 360;
    }
    let mut can_new_top_move = false;
    let mut dst: usize = 0;
    while dst < 8
        invariant
            fc_ok(next@),
            dst <= 8,
            next_len > 0,
            next_len == (if src < next@.tableau.len() { next@.tableau[src as int].len() as int } else { 0 }),
            can_new_top_move == exists|d: int| 0 <= d < dst && d != src && #[trigger] can_run_to_tableau(next@, src as int, next_len - 1, d),
        decreases 8 - dst,
    {
        if dst != src && next.can_move_tableau_run_to_tableau(src, next_len - 1, dst) {
            can_new_top_move = true;
        }
        dst += 1;
    }
    assert(can_new_top_move == new_top_moves(next@, src as int, next_len as int));
    if can_new_top_move {
        bias = bias + 180;
    }
    bias
}

/// Moving a free cell's card down to a column: more when a cell frees up
/// or all were full, plus 25 per move of mobility gained.
pub open spec fn from_freecell_spec(cur: FreecellBoard, next: FreecellBoard) -> int {
    let empty_before = 4 - occupied(cur.freecells);
    let empty_after = 4 - occupied(next.freecells);
    320 + (if empty_after > empty_before { 160int } else { 0 }) + (if empty_before == 0 { 220int } else { 0 })
        + (legal_moves_spec(next) - legal_moves_spec(cur)) * 25
}

pub fn freecell_freecell_to_tableau_bias(current: &FreecellGame, next: &FreecellGame) -> (r: i64)
    requires
        fc_ok(current@),
        fc_ok(next@),
    ensures
        r == from_freecell_spec(current@, next@),
        -100_000 <= r <= 100_000,
{
    let mut bias: i64 = 320;
    let empty_before = freecell_empty_cells(current);
    let empty_after = freecell_empty_cells(next);
    if empty_after > empty_before {
        bias = bias + 160;
    }
    if empty_before == 0 {
        bias = bias + 220;
    }
    let delta = freecell_legal_move_count(next) as i64 - freecell_legal_move_count(current) as i64;
    bias + delta * 25
}


// ---------------------------------------------------------------------------
// Candidates
// ---------------------------------------------------------------------------

/// A candidate move: the position it leads to, the move, and its score.
pub type FreecellCandidate = (FreecellGame, FreecellPlannerAction, i64);

/// The mathematical content of a candidate.
pub type ScoredFreecell = (FreecellBoard, FreecellPlannerAction, int);

pub open spec fn fc_cand_view(c: FreecellCandidate) -> ScoredFreecell {
    (c.0@, c.1, c.2 as int)
}

pub open spec fn fc_cands_view(v: Seq<FreecellCandidate>) -> Seq<ScoredFreecell> {
    v.map_values(|c: FreecellCandidate| fc_cand_view(c))
}

/// `a` can be played on `b`.
pub open spec fn fc_legal(b: FreecellBoard, a: FreecellPlannerAction) -> bool {
    match a {
        FreecellPlannerAction::TableauToFoundation { src } => can_tableau_to_foundation(b, src as int),
        FreecellPlannerAction::FreecellToFoundation { cell } => can_freecell_to_foundation(b, cell as int),
        FreecellPlannerAction::TableauRunToTableau { src, start, dst } => can_run_to_tableau(b, src as int, start as int, dst as int),
        FreecellPlannerAction::TableauToFreecell { src, cell } => can_tableau_to_freecell(b, src as int, cell as int),
        FreecellPlannerAction::FreecellToTableau { cell, dst } => can_freecell_to_tableau(b, cell as int, dst as int),
    }
}

/// The position `a` leads to.
pub open spec fn fc_apply(b: FreecellBoard, a: FreecellPlannerAction) -> FreecellBoard {
    match a {
        FreecellPlannerAction::TableauToFoundation { src } => tableau_to_foundation(b, src as int),
        FreecellPlannerAction::FreecellToFoundation { cell } => freecell_to_foundation(b, cell as int),
        FreecellPlannerAction::TableauRunToTableau { src, start, dst } => run_to_tableau(b, src as int, start as int, dst as int),
        FreecellPlannerAction::TableauToFreecell { src, cell } => tableau_to_freecell(b, src as int, cell as int),
        FreecellPlannerAction::FreecellToTableau { cell, dst } => freecell_to_tableau(b, cell as int, dst as int),
    }
}

pub open spec fn fc_top(b: FreecellBoard, src: int) -> Option<Card> {
    if 0 <= src < b.tableau.len() && b.tableau[src].len() > 0 {
        Some(b.tableau[src].last())
    } else {
        None
    }
}

/// The bias the wand adds to a move's change in evaluation.
pub open spec fn fc_bias(b: FreecellBoard, a: FreecellPlannerAction) -> int {
    let next = fc_apply(b, a);
    match a {
        FreecellPlannerAction::FreecellToFoundation { cell } => 1_000 + safe_foundation_spec(b, b.freecells[cell as int]),
        FreecellPlannerAction::TableauToFoundation { src } => 900 + safe_foundation_spec(b, fc_top(b, src as int)),
        FreecellPlannerAction::FreecellToTableau { cell, dst } => from_freecell_spec(b, next) + multi_cell_spec(b, next),
        FreecellPlannerAction::TableauRunToTableau { src, start, dst } => (b.tableau[src as int].len() - start) * 14
            + king_to_empty_spec(b, src as int, start as int, dst as int) + main_area_spec(b, next, src as int, dst as int),
        FreecellPlannerAction::TableauToFreecell { src, cell } => to_freecell_spec(b, src as int) + slot_preference_spec(
            fc_top(b, src as int),
            cell as int,
        ) + unlock_spec(b, next, src as int) + multi_cell_spec(b, next),
    }
}

pub open spec fn fc_score(b: FreecellBoard, a: FreecellPlannerAction) -> int {
    transition_score_spec(b, fc_apply(b, a), fc_bias(b, a))
}

/// The wand enumerates moves in five groups; `k` numbers the moves of group
/// `part` (free cell to foundation, column to foundation, free cell to
/// column, column run to column, column to free cell).
pub open spec fn action_of(part: int, k: int) -> FreecellPlannerAction {
    if part == 0 {
        FreecellPlannerAction::FreecellToFoundation { cell: k as usize }
    } else if part == 1 {
        FreecellPlannerAction::TableauToFoundation { src: k as usize }
    } else if part == 2 {
        FreecellPlannerAction::FreecellToTableau { cell: (k / 8) as usize, dst: (k % 8) as usize }
    } else if part == 3 {
        FreecellPlannerAction::TableauRunToTableau {
            src: (k / 416) as usize,
            start: ((k / 8) % 52) as usize,
            dst: (k % 8) as usize,
        }
    } else {
        FreecellPlannerAction::TableauToFreecell { src: (k / 4) as usize, cell: (k % 4) as usize }
    }
}

/// The scored legal moves among the first `n` of group `part`.
pub open spec fn part_cands(b: FreecellBoard, part: int, n: nat) -> Seq<ScoredFreecell>
    decreases n,
{
    if n == 0 {
        Seq::empty()
    } else {
        let prev = part_cands(b, part, (n - 1) as nat);
        let a = action_of(part, n - 1);
        if fc_legal(b, a) {
            prev.push((fc_apply(b, a), a, fc_score(b, a)))
        } else {
            prev
        }
    }
}

/// Every legal move of a position, scored, in the wand's order.
pub open spec fn wand_candidates_spec(b: FreecellBoard) -> Seq<ScoredFreecell> {
    part_cands(b, 0, 4) + part_cands(b, 1, 8) + part_cands(b, 2, 32) + part_cands(b, 3, 3328) + part_cands(b, 4, 32)
}

fn push_candidate(out: &mut Vec<FreecellCandidate>, next: FreecellGame, action: FreecellPlannerAction, score: i64)
    ensures
        fc_cands_view(final(out)@) == fc_cands_view(old(out)@).push((next@, action, score as int)),
        final(out)@.len() == old(out)@.len() + 1,
        forall|i: int| 0 <= i < old(out)@.len() ==> final(out)@[i] == old(out)@[i],
        final(out)@.last().0@ == next@,
        final(out)@.last().1 == action,
        final(out)@.last().2 == score,
{
    out.push((next, action, score));
    assert(fc_cands_view(out@) =~= fc_cands_view(old(out)@).push((next@, action, score as int)));
}

proof fn lemma_part_step(b: FreecellBoard, part: int, k: nat)
    ensures
        part_cands(b, part, k + 1) == (if fc_legal(b, action_of(part, k as int)) {
            part_cands(b, part, k).push(
                (fc_apply(b, action_of(part, k as int)), action_of(part, k as int), fc_score(b, action_of(part, k as int))),
            )
        } else {
            part_cands(b, part, k)
        }),
{
}

proof fn lemma_run_index(src: int, start: int, dst: int)
    requires
        0 <= src < 8,
        0 <= start < 52,
        0 <= dst < 8,
    ensures
        action_of(3, src * 416 + start * 8 + dst) == (FreecellPlannerAction::TableauRunToTableau {
            src: src as usize,
            start: start as usize,
            dst: dst as usize,
        }),
{
    let k = src * 416 + start * 8 + dst;
    assert(k / 416 == src && (k / 8) % 52 == start && k % 8 == dst) by (nonlinear_arith)
        requires
            k == src * 416 + start * 8 + dst,
            0 <= src < 8,
            0 <= start < 52,
            0 <= dst < 8,
    ;
}

/// Runs of column `src` starting at or past its length add no candidates.
proof fn lemma_run_tail_empty(b: FreecellBoard, src: int, len: int, k: nat)
    requires
        0 <= src < 8,
        0 <= len <= 52,
        b.tableau[src].len() == len,
        src * 416 + len * 8 <= k <= (src + 1) * 416,
    ensures
        part_cands(b, 3, k) == part_cands(b, 3, (src * 416 + len * 8) as nat),
    decreases k,
{
    if k > src * 416 + len * 8 {
        let j = k - 1;
        let st = (j - src * 416) / 8;
        let d = (j - src * 416) % 8;
        assert(len <= st < 52 && 0 <= d < 8 && j == src * 416 + st * 8 + d) by (nonlinear_arith)
            requires
                src * 416 + len * 8 <= j < (src + 1) * 416,
                st == (j - src * 416) / 8,
                d == (j - src * 416) % 8,
        ;
        lemma_run_index(src, st, d);
        lemma_run_tail_empty(b, src, len, (k - 1) as nat);
    }
}

proof fn lemma_pair_index(hi: int, lo: int, w: int)
    requires
        0 <= hi,
        0 <= lo < w,
        w == 4 || w == 8,
    ensures
        (hi * w + lo) / w == hi,
        (hi * w + lo) % w == lo,
{
    assert((hi * w + lo) / w == hi && (hi * w + lo) % w == lo) by (nonlinear_arith)
        requires
            0 <= hi,
            0 <= lo < w,
            w > 0,
    ;
}

proof fn lemma_part_len(b: FreecellBoard, part: int, n: nat)
    ensures
        part_cands(b, part, n).len() <= n,
    decreases n,
{
    if n > 0 {
        lemma_part_len(b, part, (n - 1) as nat);
    }
}

/// Every candidate of a group is a legal move and the position it leads to.
pub proof fn lemma_part_sound(b: FreecellBoard, part: int, n: nat)
    ensures
        forall|i: int| 0 <= i < part_cands(b, part, n).len() ==> {
            let c = #[trigger] part_cands(b, part, n)[i];
            &&& fc_legal(b, c.1)
            &&& c.0 == fc_apply(b, c.1)
            &&& c.2 == fc_score(b, c.1)
        },
    decreases n,
{
    if n > 0 {
        lemma_part_sound(b, part, (n - 1) as nat);
        let prev = part_cands(b, part, (n - 1) as nat);
        let cur = part_cands(b, part, n);
        assert forall|i: int| 0 <= i < cur.len() implies {
            let c = #[trigger] cur[i];
            &&& fc_legal(b, c.1)
            &&& c.0 == fc_apply(b, c.1)
            &&& c.2 == fc_score(b, c.1)
        } by {
            if i < prev.len() {
                assert(cur[i] == prev[i]);
            }
        }
    }
}

/// Law: the wand only proposes legal moves, each with the position it leads to and its score.
pub proof fn lemma_wand_sound(b: FreecellBoard)
    ensures
        forall|i: int| 0 <= i < wand_candidates_spec(b).len() ==> {
            let c = #[trigger] wand_candidates_spec(b)[i];
            &&& fc_legal(b, c.1)
            &&& c.0 == fc_apply(b, c.1)
            &&& c.2 == fc_score(b, c.1)
        },
{
    lemma_part_sound(b, 0, 4);
    lemma_part_sound(b, 1, 8);
    lemma_part_sound(b, 2, 32);
    lemma_part_sound(b, 3, 3328);
    lemma_part_sound(b, 4, 32);
    let s0 = part_cands(b, 0, 4);
    let s1 = part_cands(b, 1, 8);
    let s2 = part_cands(b, 2, 32);
    let s3 = part_cands(b, 3, 3328);
    let s4 = part_cands(b, 4, 32);
    let all = wand_candidates_spec(b);
    assert forall|i: int| 0 <= i < all.len() implies {
        let c = #[trigger] all[i];
        &&& fc_legal(b, c.1)
        &&& c.0 == fc_apply(b, c.1)
        &&& c.2 == fc_score(b, c.1)
    } by {
        let a = s0.len() as int;
        let bb = a + s1.len();
        let cc = bb + s2.len();
        let dd = cc + s3.len();
        if i < a {
            assert(all[i] == s0[i]);
        } else if i < bb {
            assert(all[i] == s1[i - a]);
        } else if i < cc {
            assert(all[i] == s2[i - bb]);
        } else if i < dd {
            assert(all[i] == s3[i - cc]);
        } else {
            assert(all[i] == s4[i - dd]);
        }
    }
}

/// Every legal move of a position with its score, in the wand's order.
#[verifier::rlimit(60)]
pub fn freecell_wand_candidates(game: &FreecellGame) -> (r: Vec<FreecellCandidate>)
    requires
        fc_ok(game@),
    ensures
        fc_cands_view(r@) == wand_candidates_spec(game@),
        r@.len() <= 3404,
        forall|i: int| 0 <= i < r@.len() ==> fc_ok((#[trigger] r@[i]).0@),
        forall|i: int| 0 <= i < r@.len() ==> {
            &&& fc_legal(game@, (#[trigger] r@[i]).1)
            &&& r@[i].0@ == fc_apply(game@, r@[i].1)
            &&& -1_300_000_000 <= r@[i].2 <= 1_300_000_000
        },
{
    let ghost b = game@;
    let mut out: Vec<FreecellCandidate> = Vec::new();
    assert(fc_cands_view(out@) =~= Seq::<ScoredFreecell>::empty());

    // Free cell to foundation.
    let mut cell: usize = 0;
    while cell < 4
        invariant
            b == game@,
            fc_ok(b),
            cell <= 4,
            fc_cands_view(out@) == part_cands(b, 0, cell as nat),
            forall|i: int| 0 <= i < out@.len() ==> fc_ok((#[trigger] out@[i]).0@),
            forall|i: int| 0 <= i < out@.len() ==> -1_300_000_000 <= (#[trigger] out@[i]).2 <= 1_300_000_000,
        decreases 4 - cell,
    {
        proof {
            lemma_part_step(b, 0, cell as nat);
        }
        if game.can_move_freecell_to_foundation(cell) {
            let mut next = game.duplicate();
            next.move_freecell_to_foundation(cell);
            let bias = 1_000 + freecell_safe_foundation_bias(game, game.freecell_card(cell));
            let score = freecell_transition_score(game, &next, bias);
            push_candidate(&mut out, next, FreecellPlannerAction::FreecellToFoundation { cell }, score);
        }
        cell += 1;
    }
    let ghost p0 = fc_cands_view(out@);

    // Column to foundation.
    let mut src: usize = 0;
    while src < 8
        invariant
            b == game@,
            fc_ok(b),
            src <= 8,
            p0 == part_cands(b, 0, 4),
            fc_cands_view(out@) == p0 + part_cands(b, 1, src as nat),
            forall|i: int| 0 <= i < out@.len() ==> fc_ok((#[trigger] out@[i]).0@),
            forall|i: int| 0 <= i < out@.len() ==> -1_300_000_000 <= (#[trigger] out@[i]).2 <= 1_300_000_000,
        decreases 8 - src,
    {
        proof {
            lemma_part_step(b, 1, src as nat);
        }
        if game.can_move_tableau_top_to_foundation(src) {
            let mut next = game.duplicate();
            next.move_tableau_top_to_foundation(src);
            let bias = 900 + freecell_safe_foundation_bias(game, game.tableau_top(src));
            let score = freecell_transition_score(game, &next, bias);
            push_candidate(&mut out, next, FreecellPlannerAction::TableauToFoundation { src }, score);
            assert(fc_cands_view(out@) =~= p0 + part_cands(b, 1, src as nat + 1));
        }
        src += 1;
    }
    let ghost p1 = fc_cands_view(out@);

    // Free cell to column.
    let mut cell: usize = 0;
    while cell < 4
        invariant
            b == game@,
            fc_ok(b),
            cell <= 4,
            p1 == part_cands(b, 0, 4) + part_cands(b, 1, 8),
            fc_cands_view(out@) == p1 + part_cands(b, 2, (cell * 8) as nat),
            forall|i: int| 0 <= i < out@.len() ==> fc_ok((#[trigger] out@[i]).0@),
            forall|i: int| 0 <= i < out@.len() ==> -1_300_000_000 <= (#[trigger] out@[i]).2 <= 1_300_000_000,
        decreases 4 - cell,
    {
        let mut dst: usize = 0;
        while dst < 8
            invariant
                b == game@,
                fc_ok(b),
                cell < 4,
                dst <= 8,
                p1 == part_cands(b, 0, 4) + part_cands(b, 1, 8),
                fc_cands_view(out@) == p1 + part_cands(b, 2, (cell * 8 + dst) as nat),
                forall|i: int| 0 <= i < out@.len() ==> fc_ok((#[trigger] out@[i]).0@),
                forall|i: int| 0 <= i < out@.len() ==> -1_300_000_000 <= (#[trigger] out@[i]).2 <= 1_300_000_000,
            decreases 8 - dst,
        {
            proof {
                lemma_part_step(b, 2, (cell * 8 + dst) as nat);
                lemma_pair_index(cell as int, dst as int, 8);
            }
            if game.can_move_freecell_to_tableau(cell, dst) {
                let mut next = game.duplicate();
                next.move_freecell_to_tableau(cell, dst);
                let bias = freecell_freecell_to_tableau_bias(game, &next) + freecell_multi_cell_utilization_bias(game, &next);
                let score = freecell_transition_score(game, &next, bias);
                push_candidate(&mut out, next, FreecellPlannerAction::FreecellToTableau { cell, dst }, score);
                assert(fc_cands_view(out@) =~= p1 + part_cands(b, 2, (cell * 8 + dst + 1) as nat));
            }
            dst += 1;
        }
        cell += 1;
    }
    let ghost p2 = fc_cands_view(out@);

    // Column run to column.
    let tableau = game.tableau();
    let mut src: usize = 0;
    while src < 8
        invariant
            b == game@,
            fc_ok(b),
            src <= 8,
            tableau@.len() == b.tableau.len(),
            forall|j: int| 0 <= j < tableau@.len() ==> (#[trigger] tableau@[j])@ == b.tableau[j],
            p2 == part_cands(b, 0, 4) + part_cands(b, 1, 8) + part_cands(b, 2, 32),
            fc_cands_view(out@) == p2 + part_cands(b, 3, (src * 416) as nat),
            forall|i: int| 0 <= i < out@.len() ==> fc_ok((#[trigger] out@[i]).0@),
            forall|i: int| 0 <= i < out@.len() ==> -1_300_000_000 <= (#[trigger] out@[i]).2 <= 1_300_000_000,
        decreases 8 - src,
    {
        let len = tableau[src].len();
        proof {
            lemma_column_small(b, src as int);
        }
        let mut start: usize = 0;
        while start < len
            invariant
                b == game@,
                fc_ok(b),
                src < 8,
                len == b.tableau[src as int].len(),
                len <= 52,
                start <= len,
                p2 == part_cands(b, 0, 4) + part_cands(b, 1, 8) + part_cands(b, 2, 32),
                fc_cands_view(out@) == p2 + part_cands(b, 3, (src * 416 + start * 8) as nat),
                forall|i: int| 0 <= i < out@.len() ==> fc_ok((#[trigger] out@[i]).0@),
                forall|i: int| 0 <= i < out@.len() ==> -1_300_000_000 <= (#[trigger] out@[i]).2 <= 1_300_000_000,
            decreases len - start,
        {
            let mut dst: usize = 0;
            while dst < 8
                invariant
                    b == game@,
                    fc_ok(b),
                    src < 8,
                    len == b.tableau[src as int].len(),
                    len <= 52,
                    start < len,
                    dst <= 8,
                    p2 == part_cands(b, 0, 4) + part_cands(b, 1, 8) + part_cands(b, 2, 32),
                    fc_cands_view(out@) == p2 + part_cands(b, 3, (src * 416 + start * 8 + dst) as nat),
                    forall|i: int| 0 <= i < out@.len() ==> fc_ok((#[trigger] out@[i]).0@),
                    forall|i: int| 0 <= i < out@.len() ==> -1_300_000_000 <= (#[trigger] out@[i]).2 <= 1_300_000_000,
                decreases 8 - dst,
            {
                proof {
                    lemma_part_step(b, 3, (src * 416 + start * 8 + dst) as nat);
                    lemma_run_index(src as int, start as int, dst as int);
                }
                if game.can_move_tableau_run_to_tableau(src, start, dst) {
                    let mut next = game.duplicate();
                    next.move_tableau_run_to_tableau(src, start, dst);
                    let amount = (len - start) as i64;
                    let bias = amount * 14 + freecell_king_to_empty_column_bias(game, src, start, dst)
                        + freecell_tableau_main_area_cell_bias(game, &next, src, dst);
                    let score = freecell_transition_score(game, &next, bias);
                    push_candidate(&mut out, next, FreecellPlannerAction::TableauRunToTableau { src, start, dst }, score);
                    assert(fc_cands_view(out@) =~= p2 + part_cands(b, 3, (src * 416 + start * 8 + dst + 1) as nat));
                }
                dst += 1;
            }
            start += 1;
        }
        proof {
            lemma_run_tail_empty(b, src as int, len as int, ((src + 1) * 416) as nat);
        }
        src += 1;
    }
    let ghost p3 = fc_cands_view(out@);

    // Column to free cell.
    let mut src: usize = 0;
    while src < 8
        invariant
            b == game@,
            fc_ok(b),
            src <= 8,
            p3 == part_cands(b, 0, 4) + part_cands(b, 1, 8) + part_cands(b, 2, 32) + part_cands(b, 3, 3328),
            fc_cands_view(out@) == p3 + part_cands(b, 4, (src * 4) as nat),
            forall|i: int| 0 <= i < out@.len() ==> fc_ok((#[trigger] out@[i]).0@),
            forall|i: int| 0 <= i < out@.len() ==> -1_300_000_000 <= (#[trigger] out@[i]).2 <= 1_300_000_000,
        decreases 8 - src,
    {
        let card = game.tableau_top(src);
        let mut cell: usize = 0;
        while cell < 4
            invariant
                b == game@,
                fc_ok(b),
                src < 8,
                cell <= 4,
                card == fc_top(b, src as int),
                p3 == part_cands(b, 0, 4) + part_cands(b, 1, 8) + part_cands(b, 2, 32) + part_cands(b, 3, 3328),
                fc_cands_view(out@) == p3 + part_cands(b, 4, (src * 4 + cell) as nat),
                forall|i: int| 0 <= i < out@.len() ==> fc_ok((#[trigger] out@[i]).0@),
                forall|i: int| 0 <= i < out@.len() ==> -1_300_000_000 <= (#[trigger] out@[i]).2 <= 1_300_000_000,
            decreases 4 - cell,
        {
            proof {
                lemma_part_step(b, 4, (src * 4 + cell) as nat);
                lemma_pair_index(src as int, cell as int, 4);
            }
            if game.can_move_tableau_top_to_freecell(src, cell) {
                let mut next = game.duplicate();
                next.move_tableau_top_to_freecell(src, cell);
                let bias = freecell_tableau_to_freecell_bias(game, src) + freecell_slot_preference_bias(card, cell)
                    + freecell_tableau_to_freecell_unlock_bias(game, &next, src)
                    + freecell_multi_cell_utilization_bias(game, &next);
                let score = freecell_transition_score(game, &next, bias);
                push_candidate(&mut out, next, FreecellPlannerAction::TableauToFreecell { src, cell }, score);
                assert(fc_cands_view(out@) =~= p3 + part_cands(b, 4, (src * 4 + cell + 1) as nat));
            }
            cell += 1;
        }
        src += 1;
    }
    assert(fc_cands_view(out@) == wand_candidates_spec(b));
    proof {
        lemma_part_len(b, 0, 4);
        lemma_part_len(b, 1, 8);
        lemma_part_len(b, 2, 32);
        lemma_part_len(b, 3, 3328);
        lemma_part_len(b, 4, 32);
        assert(out@.len() == fc_cands_view(out@).len());
        lemma_wand_sound(b);
        assert forall|i: int| 0 <= i < out@.len() implies {
            &&& fc_legal(b, (#[trigger] out@[i]).1)
            &&& out@[i].0@ == fc_apply(b, out@[i].1)
            &&& -1_300_000_000 <= out@[i].2 <= 1_300_000_000
        } by {
            assert(fc_cands_view(out@)[i] == fc_cand_view(out@[i]));
            assert(wand_candidates_spec(b)[i] == fc_cand_view(out@[i]));
        }
    }
    out
}

} // verus!
