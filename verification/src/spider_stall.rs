//! When a Spider playthrough gives up for want of progress: the structure
//! measures of the positions it passed through, the best of each so far,
//! and the two stall rules (stagnation, and a stall after the stock ran
//! out) as properties of that sequence of positions.

use vstd::prelude::*;
use crate::moves::HintMove;
use crate::spider::{board_ok, SpiderBoard};
use crate::spider_metrics::{edges_total, empty_total, hidden_total, max_tail};
use crate::spider_solver::{apply_move_spec, move_legal};

verus! {

pub open spec fn max_int(a: int, b: int) -> int {
    if a >= b { a } else { b }
}

pub open spec fn min_int(a: int, b: int) -> int {
    if a <= b { a } else { b }
}

/// Best completed runs over the positions `ps`.
pub open spec fn best_runs(ps: Seq<SpiderBoard>) -> int
    decreases ps.len(),
{
    if ps.len() <= 1 {
        if ps.len() == 1 { ps[0].completed_runs as int } else { 0 }
    } else {
        max_int(best_runs(ps.drop_last()), ps.last().completed_runs as int)
    }
}

/// Fewest face-down cards over the positions `ps`.
pub open spec fn best_hidden(ps: Seq<SpiderBoard>) -> int
    decreases ps.len(),
{
    if ps.len() <= 1 {
        if ps.len() == 1 { hidden_total(ps[0].piles) as int } else { 0 }
    } else {
        min_int(best_hidden(ps.drop_last()), hidden_total(ps.last().piles) as int)
    }
}

/// Most empty columns over the positions `ps`.
pub open spec fn best_empty(ps: Seq<SpiderBoard>) -> int
    decreases ps.len(),
{
    if ps.len() <= 1 {
        if ps.len() == 1 { empty_total(ps[0].piles) as int } else { 0 }
    } else {
        max_int(best_empty(ps.drop_last()), empty_total(ps.last().piles) as int)
    }
}

/// Most suited edges over the positions `ps`.
pub open spec fn best_edges(ps: Seq<SpiderBoard>) -> int
    decreases ps.len(),
{
    if ps.len() <= 1 {
        if ps.len() == 1 { edges_total(ps[0].piles) as int } else { 0 }
    } else {
        max_int(best_edges(ps.drop_last()), edges_total(ps.last().piles) as int)
    }
}

/// Longest face-up run over the positions `ps`.
pub open spec fn best_tail(ps: Seq<SpiderBoard>) -> int
    decreases ps.len(),
{
    if ps.len() <= 1 {
        if ps.len() == 1 { max_tail(ps[0].piles) as int } else { 0 }
    } else {
        max_int(best_tail(ps.drop_last()), max_tail(ps.last().piles) as int)
    }
}

/// `b` improves on the positions `pre` in some structure measure: more
/// completed runs, fewer face-down cards, more empty columns, more suited
/// edges or a longer face-up run than any of them.
pub open spec fn beats(pre: Seq<SpiderBoard>, b: SpiderBoard) -> bool {
    ||| b.completed_runs > best_runs(pre)
    ||| hidden_total(b.piles) < best_hidden(pre)
    ||| empty_total(b.piles) > best_empty(pre)
    ||| edges_total(b.piles) > best_edges(pre)
    ||| max_tail(b.piles) > best_tail(pre)
}

/// None of the last `c` moves through `ps` improved on the positions before it.
pub open spec fn no_progress_window(ps: Seq<SpiderBoard>, c: int) -> bool {
    &&& 0 <= c < ps.len()
    &&& forall|j: int| ps.len() - c <= j < ps.len() ==> !beats(ps.take(j), #[trigger] ps[j])
}

/// The stagnation rule: the last `c` moves through `ps` made no structural
/// progress.
pub open spec fn stagnated(ps: Seq<SpiderBoard>, c: int) -> bool {
    no_progress_window(ps, c)
}

/// Best completed runs over the positions after the first move whose stock
/// is empty (-1 when there is none).
pub open spec fn post_best_runs(ps: Seq<SpiderBoard>) -> int
    decreases ps.len(),
{
    if ps.len() <= 1 {
        -1
    } else if ps.last().stock.len() == 0 {
        max_int(post_best_runs(ps.drop_last()), ps.last().completed_runs as int)
    } else {
        post_best_runs(ps.drop_last())
    }
}

/// Most suited edges over those positions (-1 when there is none).
pub open spec fn post_best_edges(ps: Seq<SpiderBoard>) -> int
    decreases ps.len(),
{
    if ps.len() <= 1 {
        -1
    } else if ps.last().stock.len() == 0 {
        max_int(post_best_edges(ps.drop_last()), edges_total(ps.last().piles) as int)
    } else {
        post_best_edges(ps.drop_last())
    }
}

/// Longest face-up run over those positions (-1 when there is none).
pub open spec fn post_best_tail(ps: Seq<SpiderBoard>) -> int
    decreases ps.len(),
{
    if ps.len() <= 1 {
        -1
    } else if ps.last().stock.len() == 0 {
        max_int(post_best_tail(ps.drop_last()), max_tail(ps.last().piles) as int)
    } else {
        post_best_tail(ps.drop_last())
    }
}

/// Move `j` (into position `j` of `ps`) turned a face-down card over.
pub open spec fn reveals(ps: Seq<SpiderBoard>, j: int) -> bool {
    hidden_total(ps[j].piles) < hidden_total(ps[j - 1].piles)
}

/// Move `j`, played with the stock already empty, improved the structure
/// seen since the stock ran out: more completed runs, more suited edges or
/// a longer face-up run.
pub open spec fn post_improves(ps: Seq<SpiderBoard>, j: int) -> bool {
    &&& j >= 2
    &&& ps[j - 1].stock.len() == 0
    &&& ps[j].stock.len() == 0
    &&& {
        ||| ps[j].completed_runs > post_best_runs(ps.take(j))
        ||| edges_total(ps[j].piles) > post_best_edges(ps.take(j))
        ||| max_tail(ps[j].piles) > post_best_tail(ps.take(j))
    }
}

/// The last `c` moves through `ps` left the stock empty and revealed nothing.
pub open spec fn no_reveal_window(ps: Seq<SpiderBoard>, c: int) -> bool {
    &&& 0 <= c < ps.len()
    &&& forall|j: int| ps.len() - c <= j < ps.len() ==> #[trigger] ps[j].stock.len() == 0 && !reveals(ps, j)
}

/// The last `c` moves through `ps` left the stock empty and improved no
/// structure seen since it ran out.
pub open spec fn no_post_progress_window(ps: Seq<SpiderBoard>, c: int) -> bool {
    &&& 0 <= c < ps.len()
    &&& forall|j: int| ps.len() - c <= j < ps.len() ==> #[trigger] ps[j].stock.len() == 0 && !post_improves(ps, j)
}

/// The stall rule after the stock ran out: for the last `c` moves through
/// `ps` the stock was empty, nothing was revealed, and no structure seen
/// since it ran out was improved.
pub open spec fn post_stalled(ps: Seq<SpiderBoard>, c: int) -> bool {
    no_reveal_window(ps, c) && no_post_progress_window(ps, c)
}

/// The best structure measures seen so far, and how many moves in a row
/// improved none of them.
pub struct StructureTrack {
    pub best_runs: usize,
    pub best_hidden: usize,
    pub best_empty: usize,
    pub best_edges: usize,
    pub best_tail: usize,
    pub stagnation: usize,
}

/// The track follows the positions `ps`.
#[verifier::opaque]
pub open spec fn structure_ok(ps: Seq<SpiderBoard>, s: StructureTrack) -> bool {
    &&& ps.len() >= 1
    &&& s.best_runs == best_runs(ps)
    &&& s.best_hidden == best_hidden(ps)
    &&& s.best_empty == best_empty(ps)
    &&& s.best_edges == best_edges(ps)
    &&& s.best_tail == best_tail(ps)
    &&& no_progress_window(ps, s.stagnation as int)
}

/// What the stall rule after the stock ran out keeps: whether the stock has
/// run out yet, the best structure since, and how many moves in a row
/// revealed nothing and improved none of it.
pub struct PostStockTrack {
    pub started: bool,
    pub best_runs: usize,
    pub best_edges: usize,
    pub best_tail: usize,
    pub no_reveal: usize,
    pub no_structure: usize,
}

/// The track follows the positions `ps`.
#[verifier::opaque]
pub open spec fn post_stock_ok(ps: Seq<SpiderBoard>, p: PostStockTrack) -> bool {
    &&& ps.len() >= 1
    &&& p.started ==> {
        &&& ps.len() >= 2
        &&& ps.last().stock.len() == 0
        &&& p.best_runs == post_best_runs(ps)
        &&& p.best_edges == post_best_edges(ps)
        &&& p.best_tail == post_best_tail(ps)
    }
    &&& !p.started ==> {
        &&& post_best_runs(ps) == -1
        &&& post_best_edges(ps) == -1
        &&& post_best_tail(ps) == -1
        &&& p.no_reveal == 0
        &&& p.no_structure == 0
        &&& forall|k: int| 1 <= k < ps.len() ==> #[trigger] ps[k].stock.len() != 0
    }
    &&& no_reveal_window(ps, p.no_reveal as int)
    &&& no_post_progress_window(ps, p.no_structure as int)
}

/// A track for the start of a playthrough, at `b`.
pub fn structure_start(runs: usize, hidden: usize, empty: usize, edges: usize, tail: usize, Ghost(b): Ghost<SpiderBoard>) -> (r:
    StructureTrack)
    requires
        runs == b.completed_runs,
        hidden == hidden_total(b.piles),
        empty == empty_total(b.piles),
        edges == edges_total(b.piles),
        tail == max_tail(b.piles),
    ensures
        structure_ok(seq![b], r),
{
    reveal(structure_ok);
    reveal(post_stock_ok);
    StructureTrack { best_runs: runs, best_hidden: hidden, best_empty: empty, best_edges: edges, best_tail: tail, stagnation: 0 }
}

/// A post-stock track for the start of a playthrough, at `b`.
pub fn post_stock_start(Ghost(b): Ghost<SpiderBoard>) -> (r: PostStockTrack)
    ensures
        post_stock_ok(seq![b], r),
        !r.started && r.no_reveal == 0 && r.no_structure == 0,
{
    reveal(structure_ok);
    reveal(post_stock_ok);
    PostStockTrack { started: false, best_runs: 0, best_edges: 0, best_tail: 0, no_reveal: 0, no_structure: 0 }
}

fn max_of(a: usize, b: usize) -> (r: usize)
    ensures
        r == max_int(a as int, b as int),
{
    if a >= b { a } else { b }
}

fn min_of(a: usize, b: usize) -> (r: usize)
    ensures
        r == min_int(a as int, b as int),
{
    if a <= b { a } else { b }
}

/// One more move, into `next`: the best measures take it in, and the count
/// of moves without progress restarts on progress or goes up by one.
/// Returns whether the move made progress.
pub fn structure_step(
    s: &mut StructureTrack,
    runs: usize,
    hidden: usize,
    empty: usize,
    edges: usize,
    tail: usize,
    Ghost(ps): Ghost<Seq<SpiderBoard>>,
    Ghost(next): Ghost<SpiderBoard>,
) -> (progress: bool)
    requires
        structure_ok(ps, *old(s)),
        ps.len() < 1_000_000,
        runs == next.completed_runs,
        hidden == hidden_total(next.piles),
        empty == empty_total(next.piles),
        edges == edges_total(next.piles),
        tail == max_tail(next.piles),
    ensures
        structure_ok(ps.push(next), *final(s)),
        progress == beats(ps, next),
        progress ==> final(s).stagnation == 0,
        !progress ==> final(s).stagnation == old(s).stagnation + 1,
{
    reveal(structure_ok);
    reveal(post_stock_ok);
    let ghost ps2 = ps.push(next);
    let ghost c0 = s.stagnation as int;
    proof {
        assert(ps2.drop_last() =~= ps);
        assert(ps2.last() == next);
    }
    let progress = runs > s.best_runs || hidden < s.best_hidden || empty > s.best_empty || edges > s.best_edges
        || tail > s.best_tail;
    if progress {
        s.best_runs = max_of(s.best_runs, runs);
        s.best_hidden = min_of(s.best_hidden, hidden);
        s.best_empty = max_of(s.best_empty, empty);
        s.best_edges = max_of(s.best_edges, edges);
        s.best_tail = max_of(s.best_tail, tail);
        s.stagnation = 0;
    } else {
        s.stagnation = s.stagnation + 1;
    }
    proof {
        if !progress {
            assert forall|j: int| ps2.len() - (c0 + 1) <= j < ps2.len() implies !beats(ps2.take(j), #[trigger] ps2[j]) by {
                if j < ps.len() {
                    assert(ps2.take(j) =~= ps.take(j));
                    assert(ps2[j] == ps[j]);
                } else {
                    assert(ps2.take(j) =~= ps);
                }
            }
        }
    }
    progress
}

/// Playing a legal move in a position whose stock is empty leaves it empty.
pub proof fn lemma_stock_stays_empty(b: SpiderBoard, m: HintMove)
    requires
        board_ok(b),
        move_legal(b, m),
        b.stock.len() == 0,
    ensures
        apply_move_spec(b, m).stock.len() == 0,
{
}

/// One more move, into `next` (`stock_empty` tells whether its stock is
/// empty): once the stock has run out, the best structure since takes the
/// move in, and the counts of moves without a reveal and without structural
/// progress restart or go up by one. Returns whether both counts reached
/// `limit`.
#[verifier::spinoff_prover]
#[verifier::rlimit(80)]
pub fn post_stock_step(
    p: &mut PostStockTrack,
    stock_empty: bool,
    hidden_before: usize,
    hidden_after: usize,
    runs: usize,
    edges: usize,
    tail: usize,
    limit: usize,
    Ghost(ps): Ghost<Seq<SpiderBoard>>,
    Ghost(next): Ghost<SpiderBoard>,
) -> (stall: bool)
    requires
        post_stock_ok(ps, *old(p)),
        ps.len() < 1_000_000,
        stock_empty == (next.stock.len() == 0),
        ps.last().stock.len() == 0 ==> next.stock.len() == 0,
        hidden_before == hidden_total(ps.last().piles),
        hidden_after == hidden_total(next.piles),
        runs == next.completed_runs,
        edges == edges_total(next.piles),
        tail == max_tail(next.piles),
    ensures
        post_stock_ok(ps.push(next), *final(p)),
        stall == (stock_empty && final(p).no_reveal >= limit && final(p).no_structure >= limit),
        stall ==> post_stalled(ps.push(next), limit as int),
{
    reveal(structure_ok);
    reveal(post_stock_ok);
    let ghost ps2 = ps.push(next);
    let ghost n = ps.len() as int;
    let ghost old_p = *p;
    proof {
        assert(ps2.drop_last() =~= ps);
        assert(ps2.last() == next);
        lemma_post_best_push(ps, next);
    }
    if !stock_empty {
        proof {
            assert(!old_p.started);
            assert forall|k: int| 1 <= k < ps2.len() implies #[trigger] ps2[k].stock.len() != 0 by {
                if k < n {
                    assert(ps2[k] == ps[k]);
                }
            }
        }
        return false;
    }
    if !p.started {
        p.started = true;
        p.best_runs = runs;
        p.best_edges = edges;
        p.best_tail = tail;
    }
    let revealed = hidden_after < hidden_before;
    let ghost c_reveal = p.no_reveal as int;
    if revealed {
        p.no_reveal = 0;
    } else {
        p.no_reveal = p.no_reveal + 1;
    }
    proof {
        lemma_reveal_window_step(ps, next, c_reveal, p.no_reveal as int);
    }
    let improved = runs > p.best_runs || edges > p.best_edges || tail > p.best_tail;
    proof {
        lemma_post_improves_last(ps, next, old_p.started);
    }
    let ghost c_structure = p.no_structure as int;
    if improved {
        p.best_runs = max_of(p.best_runs, runs);
        p.best_edges = max_of(p.best_edges, edges);
        p.best_tail = max_of(p.best_tail, tail);
        p.no_structure = 0;
    } else {
        p.no_structure = p.no_structure + 1;
    }
    proof {
        lemma_structure_window_step(ps, next, c_structure, p.no_structure as int);
        assert(p.best_runs == post_best_runs(ps2));
        assert(p.best_edges == post_best_edges(ps2));
        assert(p.best_tail == post_best_tail(ps2));
    }
    let stall = p.no_reveal >= limit && p.no_structure >= limit;
    proof {
        if stall {
            lemma_windows_shrink(ps2, p.no_reveal as int, p.no_structure as int, limit as int);
        }
    }
    stall
}


proof fn lemma_reveal_window_step(ps: Seq<SpiderBoard>, next: SpiderBoard, c: int, c2: int)
    requires
        no_reveal_window(ps, c),
        next.stock.len() == 0,
        c2 == (if reveals(ps.push(next), ps.len() as int) { 0 } else { c + 1 }),
    ensures
        no_reveal_window(ps.push(next), c2),
{
    let ps2 = ps.push(next);
    let n = ps.len() as int;
    assert forall|j: int| ps2.len() - c2 <= j < ps2.len() implies #[trigger] ps2[j].stock.len() == 0 && !reveals(ps2, j) by {
        if j < n {
            assert(ps2[j] == ps[j] && ps2[j - 1] == ps[j - 1]);
            assert(ps[j].stock.len() == 0 && !reveals(ps, j));
        }
    }
}

proof fn lemma_structure_window_step(ps: Seq<SpiderBoard>, next: SpiderBoard, c: int, c2: int)
    requires
        no_post_progress_window(ps, c),
        next.stock.len() == 0,
        c2 == (if post_improves(ps.push(next), ps.len() as int) { 0 } else { c + 1 }),
    ensures
        no_post_progress_window(ps.push(next), c2),
{
    let ps2 = ps.push(next);
    let n = ps.len() as int;
    assert forall|j: int| ps2.len() - c2 <= j < ps2.len() implies #[trigger] ps2[j].stock.len() == 0 && !post_improves(ps2, j) by {
        if j < n {
            assert(ps2[j] == ps[j] && ps2[j - 1] == ps[j - 1]);
            assert(ps2.take(j) =~= ps.take(j));
            assert(ps[j].stock.len() == 0 && !post_improves(ps, j));
        }
    }
}

/// Whether the move into `next` improves the structure since the stock ran
/// out: never on the move that empties it, otherwise against the best so far.
proof fn lemma_post_improves_last(ps: Seq<SpiderBoard>, next: SpiderBoard, started: bool)
    requires
        ps.len() >= 1,
        next.stock.len() == 0,
        started ==> ps.len() >= 2 && ps.last().stock.len() == 0,
        !started ==> forall|k: int| 1 <= k < ps.len() ==> #[trigger] ps[k].stock.len() != 0,
    ensures
        post_improves(ps.push(next), ps.len() as int) == (started && (next.completed_runs > post_best_runs(ps)
            || edges_total(next.piles) > post_best_edges(ps) || max_tail(next.piles) > post_best_tail(ps))),
{
    let ps2 = ps.push(next);
    let n = ps.len() as int;
    assert(ps2.take(n) =~= ps);
    assert(ps2[n] == next && ps2[n - 1] == ps[n - 1]);
    if !started && n >= 2 {
        assert(ps[n - 1].stock.len() != 0);
    }
}


/// The best structure since the stock ran out, one position later.
proof fn lemma_post_best_push(ps: Seq<SpiderBoard>, next: SpiderBoard)
    requires
        ps.len() >= 1,
    ensures
        post_best_runs(ps.push(next)) == (if next.stock.len() == 0 {
            max_int(post_best_runs(ps), next.completed_runs as int)
        } else {
            post_best_runs(ps)
        }),
        post_best_edges(ps.push(next)) == (if next.stock.len() == 0 {
            max_int(post_best_edges(ps), edges_total(next.piles) as int)
        } else {
            post_best_edges(ps)
        }),
        post_best_tail(ps.push(next)) == (if next.stock.len() == 0 {
            max_int(post_best_tail(ps), max_tail(next.piles) as int)
        } else {
            post_best_tail(ps)
        }),
{
    assert(ps.push(next).drop_last() =~= ps);
}


/// A window of moves without a reveal, or without progress since the stock
/// ran out, holds for any shorter window.
proof fn lemma_windows_shrink(ps: Seq<SpiderBoard>, c1: int, c2: int, c: int)
    requires
        no_reveal_window(ps, c1),
        no_post_progress_window(ps, c2),
        0 <= c <= c1,
        c <= c2,
    ensures
        post_stalled(ps, c),
{
}



/// A track whose count of moves without progress reached `c` shows the
/// stagnation rule over the last `c` moves.
pub proof fn lemma_structure_stagnated(ps: Seq<SpiderBoard>, s: StructureTrack, c: int)
    requires
        structure_ok(ps, s),
        0 <= c <= s.stagnation,
    ensures
        stagnated(ps, c),
        s.stagnation < ps.len(),
{
    reveal(structure_ok);
}

} // verus!
