//! Measures of a FreeCell position used by the wand and the seed search:
//! its identity hash, its mobility, and the static evaluation.

use vstd::prelude::*;
use std::collections::hash_map::DefaultHasher;
use std::hash::Hasher;
use vstd::std_specs::hash::DefaultHasherAdditionalSpecFns;
use crate::cards::Card;
use crate::freecell::{
    can_freecell_to_foundation, can_freecell_to_tableau, can_run_to_tableau, can_tableau_to_foundation,
    can_tableau_to_freecell, empty_columns, fc_ok, lemma_empty_columns_bound, lemma_occupied_bound, occupied,
    FreecellBoard, FreecellGame,
};
use crate::spider::{lemma_pile_card_sum_ge, pile_card_sum};
use crate::spider_hash::{card_byte, card_to_byte, cards_bytes, piles_bytes, push_cards};

verus! {

// ---------------------------------------------------------------------------
// Identity
// ---------------------------------------------------------------------------

/// One byte per free cell: the card's byte, or 0xFC when empty.
pub open spec fn cells_bytes(cells: Seq<Option<Card>>) -> Seq<u8>
    decreases cells.len(),
{
    if cells.len() == 0 {
        Seq::empty()
    } else {
        cells_bytes(cells.drop_last()).push(
            match cells.last() {
                Some(c) => card_byte(c),
                None => 0xFCu8,
            },
        )
    }
}

/// The encoding of a position: columns, free cells, then foundation heights.
pub open spec fn fc_bytes(b: FreecellBoard) -> Seq<u8> {
    let heights = Seq::new(b.foundations.len(), |i: int| (b.foundations[i].len() % 256) as u8);
    (piles_bytes(b.tableau) + cells_bytes(b.freecells)).push(0xFDu8) + heights
}

pub open spec fn fc_hash_spec(b: FreecellBoard) -> u64 {
    DefaultHasher::spec_finish(seq![fc_bytes(b)])
}

/// The byte encoding of a position.
pub fn freecell_state_bytes(game: &FreecellGame) -> (r: Vec<u8>)
    ensures
        r@ == fc_bytes(game@),
{
    let mut out: Vec<u8> = Vec::new();
    let tableau = game.tableau();
    let mut i: usize = 0;
    while i < tableau.len()
        invariant
            i <= tableau@.len(),
            tableau@.len() == game@.tableau.len(),
            forall|j: int| 0 <= j < tableau@.len() ==> (#[trigger] tableau@[j])@ == game@.tableau[j],
            out@ == piles_bytes(game@.tableau.take(i as int)),
        decreases tableau@.len() - i,
    {
        push_cards(&mut out, &tableau[i]);
        out.push(0xFFu8);
        i += 1;
        assert(game@.tableau.take(i as int).drop_last() =~= game@.tableau.take(i - 1));
        assert(out@ =~= piles_bytes(game@.tableau.take(i as int)));
    }
    assert(game@.tableau.take(tableau@.len() as int) =~= game@.tableau);
    let ghost head = out@;
    let cells = game.freecells();
    let mut c: usize = 0;
    while c < cells.len()
        invariant
            c <= cells@.len(),
            cells@ == game@.freecells,
            out@ == head + cells_bytes(cells@.take(c as int)),
        decreases cells@.len() - c,
    {
        let byte = match cells[c] {
            Some(card) => card_to_byte(card),
            None => 0xFCu8,
        };
        out.push(byte);
        c += 1;
        assert(cells@.take(c as int).drop_last() =~= cells@.take(c - 1));
        assert(out@ =~= head + cells_bytes(cells@.take(c as int)));
    }
    assert(cells@.take(cells@.len() as int) =~= cells@);
    out.push(0xFDu8);
    let ghost mid = out@;
    let foundations = game.foundations();
    let mut f: usize = 0;
    while f < foundations.len()
        invariant
            f <= foundations@.len(),
            foundations@.len() == game@.foundations.len(),
            forall|j: int| 0 <= j < foundations@.len() ==> (#[trigger] foundations@[j])@ == game@.foundations[j],
            out@ == mid + Seq::new(f as nat, |k: int| (game@.foundations[k].len() % 256) as u8),
        decreases foundations@.len() - f,
    {
        out.push((foundations[f].len() % 256) as u8);
        f += 1;
        assert(out@ =~= mid + Seq::new(f as nat, |k: int| (game@.foundations[k].len() % 256) as u8));
    }
    assert(out@ =~= fc_bytes(game@));
    out
}

/// The hash the FreeCell wand and search identify positions by.
pub fn freecell_wand_state_hash(game: &FreecellGame) -> (r: u64)
    ensures
        r == fc_hash_spec(game@),
{
    let bytes = freecell_state_bytes(game);
    let mut hasher = DefaultHasher::new();
    hasher.write(bytes.as_slice());
    let r = hasher.finish();
    assert(hasher@ =~= seq![fc_bytes(game@)]);
    r
}

// ---------------------------------------------------------------------------
// Mobility: the number of legal moves
// ---------------------------------------------------------------------------

pub open spec fn bit(p: bool) -> nat {
    if p { 1 } else { 0 }
}

/// Columns below `n` that free cell `cell`'s card can go to.
pub open spec fn cell_dst_count(b: FreecellBoard, cell: int, n: nat) -> nat
    decreases n,
{
    if n == 0 {
        0
    } else {
        cell_dst_count(b, cell, (n - 1) as nat) + bit(can_freecell_to_tableau(b, cell, n - 1))
    }
}

/// Moves out of the free cells below `n`.
pub open spec fn cell_moves(b: FreecellBoard, n: nat) -> nat
    decreases n,
{
    if n == 0 {
        0
    } else {
        let c = n - 1;
        cell_moves(b, (n - 1) as nat) + bit(can_freecell_to_foundation(b, c)) + cell_dst_count(b, c, 8)
    }
}

/// Free cells below `n` that column `src`'s top card can go to.
pub open spec fn top_cell_count(b: FreecellBoard, src: int, n: nat) -> nat
    decreases n,
{
    if n == 0 {
        0
    } else {
        top_cell_count(b, src, (n - 1) as nat) + bit(can_tableau_to_freecell(b, src, n - 1))
    }
}

/// Columns below `n` that the run of `src` from `start` can go to.
pub open spec fn run_dst_count(b: FreecellBoard, src: int, start: int, n: nat) -> nat
    decreases n,
{
    if n == 0 {
        0
    } else {
        run_dst_count(b, src, start, (n - 1) as nat) + bit(can_run_to_tableau(b, src, start, n - 1))
    }
}

/// Run moves of `src` starting below `n`.
pub open spec fn run_moves(b: FreecellBoard, src: int, n: nat) -> nat
    decreases n,
{
    if n == 0 {
        0
    } else {
        run_moves(b, src, (n - 1) as nat) + run_dst_count(b, src, n - 1, 8)
    }
}

/// Moves out of the columns below `n`.
pub open spec fn column_moves(b: FreecellBoard, n: nat) -> nat
    decreases n,
{
    if n == 0 {
        0
    } else {
        let s = n - 1;
        column_moves(b, (n - 1) as nat) + bit(can_tableau_to_foundation(b, s)) + top_cell_count(b, s, 4)
            + run_moves(b, s, b.tableau[s].len())
    }
}

/// The number of legal moves.
pub open spec fn legal_moves_spec(b: FreecellBoard) -> nat {
    cell_moves(b, 4) + column_moves(b, 8)
}

fn count_cell_dsts(game: &FreecellGame, cell: usize) -> (r: usize)
    requires
        fc_ok(game@),
    ensures
        r == cell_dst_count(game@, cell as int, 8),
        r <= 8,
{
    let mut n: usize = 0;
    let mut dst: usize = 0;
    while dst < 8
        invariant
            fc_ok(game@),
            dst <= 8,
            n == cell_dst_count(game@, cell as int, dst as nat),
            n <= dst,
        decreases 8 - dst,
    {
        if game.can_move_freecell_to_tableau(cell, dst) {
            n += 1;
        }
        dst += 1;
    }
    n
}

fn count_top_cells(game: &FreecellGame, src: usize) -> (r: usize)
    requires
        fc_ok(game@),
    ensures
        r == top_cell_count(game@, src as int, 4),
        r <= 4,
{
    let mut n: usize = 0;
    let mut cell: usize = 0;
    while cell < 4
        invariant
            fc_ok(game@),
            cell <= 4,
            n == top_cell_count(game@, src as int, cell as nat),
            n <= cell,
        decreases 4 - cell,
    {
        if game.can_move_tableau_top_to_freecell(src, cell) {
            n += 1;
        }
        cell += 1;
    }
    n
}

fn count_run_dsts(game: &FreecellGame, src: usize, start: usize) -> (r: usize)
    requires
        fc_ok(game@),
    ensures
        r == run_dst_count(game@, src as int, start as int, 8),
        r <= 8,
{
    let mut n: usize = 0;
    let mut dst: usize = 0;
    while dst < 8
        invariant
            fc_ok(game@),
            dst <= 8,
            n == run_dst_count(game@, src as int, start as int, dst as nat),
            n <= dst,
        decreases 8 - dst,
    {
        if game.can_move_tableau_run_to_tableau(src, start, dst) {
            n += 1;
        }
        dst += 1;
    }
    n
}

/// A column of a sound board holds at most 52 cards.
pub proof fn lemma_column_small(b: FreecellBoard, i: int)
    requires
        fc_ok(b),
        0 <= i < 8,
    ensures
        b.tableau[i].len() <= 52,
{
    lemma_pile_card_sum_ge(b.tableau, i);
}

/// The number of legal moves.
pub fn freecell_legal_move_count(game: &FreecellGame) -> (r: usize)
    requires
        fc_ok(game@),
    ensures
        r == legal_moves_spec(game@),
        r <= 3404,
{
    let mut count: usize = 0;
    let mut cell: usize = 0;
    while cell < 4
        invariant
            fc_ok(game@),
            cell <= 4,
            count == cell_moves(game@, cell as nat),
            count <= cell * 9,
        decreases 4 - cell,
    {
        if game.can_move_freecell_to_foundation(cell) {
            count += 1;
        }
        count += count_cell_dsts(game, cell);
        cell += 1;
    }
    let cells_total = count;
    let tableau = game.tableau();
    let mut src: usize = 0;
    while src < 8
        invariant
            fc_ok(game@),
            src <= 8,
            cells_total == cell_moves(game@, 4),
            cells_total <= 36,
            tableau@.len() == game@.tableau.len(),
            forall|j: int| 0 <= j < tableau@.len() ==> (#[trigger] tableau@[j])@ == game@.tableau[j],
            count == cells_total + column_moves(game@, src as nat),
            count <= 36 + src * 421,
        decreases 8 - src,
    {
        if game.can_move_tableau_top_to_foundation(src) {
            count += 1;
        }
        count += count_top_cells(game, src);
        let len = tableau[src].len();
        proof {
            lemma_column_small(game@, src as int);
        }
        let mut runs: usize = 0;
        let mut start: usize = 0;
        while start < len
            invariant
                fc_ok(game@),
                src < 8,
                len == game@.tableau[src as int].len(),
                len <= 52,
                start <= len,
                runs == run_moves(game@, src as int, start as nat),
                runs <= start * 8,
            decreases len - start,
        {
            runs += count_run_dsts(game, src, start);
            start += 1;
        }
        count += runs;
        src += 1;
    }
    count
}


// ---------------------------------------------------------------------------
// Penalties and the static evaluation
// ---------------------------------------------------------------------------

/// Depth penalty of the low cards (ace to three) among the first `n` of a column:
/// 120 for every card lying on top of one.
pub open spec fn buried_in(p: Seq<Card>, n: nat) -> int
    decreases n,
{
    if n == 0 {
        0
    } else {
        let idx = n - 1;
        buried_in(p, (n - 1) as nat) + (if p[idx].rank <= 3 { (p.len() - (idx + 1)) * 120 } else { 0 })
    }
}

pub open spec fn buried_total(t: Seq<Seq<Card>>, n: nat) -> int
    decreases n,
{
    if n == 0 {
        0
    } else {
        buried_total(t, (n - 1) as nat) + buried_in(t[n - 1], t[n - 1].len())
    }
}

/// Cards above position `lower` (and below `n`) of the same suit and a higher rank.
pub open spec fn blockers_above(p: Seq<Card>, lower: int, n: nat) -> nat
    decreases n,
{
    if n == 0 {
        0
    } else {
        let up = n - 1;
        blockers_above(p, lower, (n - 1) as nat) + bit(up > lower && p[lower].suit == p[up].suit && p[lower].rank < p[up].rank)
    }
}

pub open spec fn blocked_pairs(p: Seq<Card>, n: nat) -> nat
    decreases n,
{
    if n == 0 {
        0
    } else {
        blocked_pairs(p, (n - 1) as nat) + blockers_above(p, n - 1, p.len())
    }
}

pub open spec fn blocked_total(t: Seq<Seq<Card>>, n: nat) -> nat
    decreases n,
{
    if n == 0 {
        0
    } else {
        blocked_total(t, (n - 1) as nat) + blocked_pairs(t[n - 1], t[n - 1].len())
    }
}

/// 90 for every pair of same-suit cards with the higher rank lying on top.
pub open spec fn deadlock_spec(b: FreecellBoard) -> int {
    90 * (blocked_total(b.tableau, 8) as int)
}

pub open spec fn buried_spec(b: FreecellBoard) -> int {
    buried_total(b.tableau, 8)
}

/// The static evaluation: foundation cards, free space, mobility, and
/// penalties for crowded free cells, buried low cards and same-suit blocks.
pub open spec fn state_eval_spec(b: FreecellBoard) -> int {
    let foundation = pile_card_sum(b.foundations) as int;
    let used = occupied(b.freecells) as int;
    let empty_free = 4 - used;
    let base = foundation * 10_000 + empty_free * 500 + empty_columns(b.tableau) * 2_000
        + legal_moves_spec(b) * 160;
    let crowded = (if used >= 3 { 2_000int } else { 0 }) + (if used == 4 { 6_500int } else { 0 });
    base - crowded - buried_spec(b) - deadlock_spec(b)
}

fn buried_column(p: &Vec<Card>) -> (r: i64)
    requires
        p@.len() <= 52,
    ensures
        r == buried_in(p@, p@.len()),
        0 <= r <= 52 * 52 * 120,
{
    let n = p.len();
    let mut total: i64 = 0;
    let mut idx: usize = 0;
    while idx < n
        invariant
            n == p@.len(),
            n <= 52,
            idx <= n,
            total == buried_in(p@, idx as nat),
            0 <= total <= idx * 52 * 120,
        decreases n - idx,
    {
        if p[idx].rank <= 3 {
            let depth = (n - (idx + 1)) as i64;
            total = total + depth * 120;
        }
        idx += 1;
    }
    total
}

fn blockers_for(p: &Vec<Card>, lower: usize) -> (r: usize)
    requires
        lower < p@.len() <= 52,
    ensures
        r == blockers_above(p@, lower as int, p@.len()),
        r <= 52,
{
    let n = p.len();
    let mut count: usize = 0;
    let mut up: usize = 0;
    while up < n
        invariant
            n == p@.len(),
            lower < n <= 52,
            up <= n,
            count == blockers_above(p@, lower as int, up as nat),
            count <= up,
        decreases n - up,
    {
        if up > lower && p[lower].suit == p[up].suit && p[lower].rank < p[up].rank {
            count += 1;
        }
        up += 1;
    }
    count
}

fn blocked_column(p: &Vec<Card>) -> (r: usize)
    requires
        p@.len() <= 52,
    ensures
        r == blocked_pairs(p@, p@.len()),
        r <= 52 * 52,
{
    let n = p.len();
    let mut total: usize = 0;
    let mut lower: usize = 0;
    while lower < n
        invariant
            n == p@.len(),
            n <= 52,
            lower <= n,
            total == blocked_pairs(p@, lower as nat),
            total <= lower * 52,
        decreases n - lower,
    {
        total += blockers_for(p, lower);
        lower += 1;
    }
    total
}

/// Penalty for low cards buried under others.
pub fn freecell_buried_starter_depth_penalty(game: &FreecellGame) -> (r: i64)
    requires
        fc_ok(game@),
    ensures
        r == buried_spec(game@),
        0 <= r <= 8 * 52 * 52 * 120,
{
    let tableau = game.tableau();
    let mut total: i64 = 0;
    let mut col: usize = 0;
    while col < 8
        invariant
            fc_ok(game@),
            col <= 8,
            tableau@.len() == game@.tableau.len(),
            forall|j: int| 0 <= j < tableau@.len() ==> (#[trigger] tableau@[j])@ == game@.tableau[j],
            total == buried_total(game@.tableau, col as nat),
            0 <= total <= col * 52 * 52 * 120,
        decreases 8 - col,
    {
        proof {
            lemma_column_small(game@, col as int);
        }
        total = total + buried_column(&tableau[col]);
        col += 1;
    }
    total
}

/// Penalty for same-suit cards lying on a lower card of their suit.
pub fn freecell_same_suit_deadlock_penalty(game: &FreecellGame) -> (r: i64)
    requires
        fc_ok(game@),
    ensures
        r == deadlock_spec(game@),
        0 <= r <= 90 * 8 * 52 * 52,
{
    let tableau = game.tableau();
    let mut pairs: usize = 0;
    let mut col: usize = 0;
    while col < 8
        invariant
            fc_ok(game@),
            col <= 8,
            tableau@.len() == game@.tableau.len(),
            forall|j: int| 0 <= j < tableau@.len() ==> (#[trigger] tableau@[j])@ == game@.tableau[j],
            pairs == blocked_total(game@.tableau, col as nat),
            pairs <= col * 52 * 52,
        decreases 8 - col,
    {
        proof {
            lemma_column_small(game@, col as int);
        }
        pairs = pairs + blocked_column(&tableau[col]);
        col += 1;
    }
    (pairs as i64) * 90
}

/// Empty free cells.
pub fn freecell_empty_cells(game: &FreecellGame) -> (r: usize)
    requires
        fc_ok(game@),
    ensures
        r == 4 - occupied(game@.freecells),
        r <= 4,
{
    let cells = game.freecells();
    let mut n: usize = 0;
    let mut c: usize = 0;
    proof {
        lemma_occupied_bound(game@.freecells);
    }
    while c < cells.len()
        invariant
            cells@ == game@.freecells,
            cells@.len() == 4,
            c <= 4,
            n == c - occupied(cells@.take(c as int)),
            n <= c,
        decreases 4 - c,
    {
        assert(cells@.take(c + 1).drop_last() =~= cells@.take(c as int));
        if cells[c].is_none() {
            n += 1;
        }
        c += 1;
    }
    assert(cells@.take(4) =~= cells@);
    n
}

/// Empty columns.
pub fn freecell_empty_columns(game: &FreecellGame) -> (r: usize)
    requires
        fc_ok(game@),
    ensures
        r == empty_columns(game@.tableau),
        r <= 8,
{
    let tableau = game.tableau();
    let ghost v = game@.tableau;
    let mut n: usize = 0;
    let mut i: usize = 0;
    while i < tableau.len()
        invariant
            v == game@.tableau,
            tableau@.len() == v.len(),
            forall|j: int| 0 <= j < tableau@.len() ==> (#[trigger] tableau@[j])@ == v[j],
            i <= tableau@.len(),
            n == empty_columns(v.take(i as int)),
            n <= i,
        decreases tableau@.len() - i,
    {
        assert(v.take(i + 1).drop_last() =~= v.take(i as int));
        if tableau[i].len() == 0 {
            n += 1;
        }
        i += 1;
    }
    assert(v.take(tableau@.len() as int) =~= v);
    n
}

pub open spec fn eval_bound() -> int {
    100_000_000
}

/// The static evaluation of a position.
pub fn freecell_state_eval(game: &FreecellGame) -> (r: i64)
    requires
        fc_ok(game@),
    ensures
        r == state_eval_spec(game@),
        -eval_bound() <= r <= eval_bound(),
{
    proof {
        lemma_occupied_bound(game@.freecells);
    }
    let foundation = game.foundation_card_count() as i64;
    let mobility = freecell_legal_move_count(game) as i64;
    let empty_free = freecell_empty_cells(game) as i64;
    let empty_cols = freecell_empty_columns(game) as i64;
    let buried = freecell_buried_starter_depth_penalty(game);
    let deadlock = freecell_same_suit_deadlock_penalty(game);
    let mut score: i64 = foundation * 10_000 + empty_free * 500 + empty_cols * 2_000 + mobility * 160;
    let occupied_cells: i64 = 4 - empty_free;
    if occupied_cells >= 3 {
        score = score - 2_000;
    }
    if occupied_cells == 4 {
        score = score - 6_500;
    }
    score - buried - deadlock
}

/// The change in evaluation a move makes, plus its bias, less 300 when it
/// fills the last free cell.
pub open spec fn transition_score_spec(cur: FreecellBoard, next: FreecellBoard, bias: int) -> int {
    state_eval_spec(next) - state_eval_spec(cur) + bias - (if occupied(next.freecells) == 4 { 300int } else { 0 })
}

pub fn freecell_transition_score(current: &FreecellGame, next: &FreecellGame, bias: i64) -> (r: i64)
    requires
        fc_ok(current@),
        fc_ok(next@),
        -1_000_000_000 <= bias <= 1_000_000_000,
    ensures
        r == transition_score_spec(current@, next@, bias as int),
        -1_300_000_000 <= r <= 1_300_000_000,
{
    let mut score = freecell_state_eval(next) - freecell_state_eval(current) + bias;
    if freecell_empty_cells(next) == 0 {
        score = score - 300;
    }
    score
}

} // verus!
