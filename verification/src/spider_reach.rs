//! Positions a Spider search is bound to reach: those legal moves lead to,
//! one after another, where the ranking keeps each move among the
//! candidates whatever position came before.

use vstd::prelude::*;
use crate::moves::HintMove;
use crate::spider::{is_won_spec, SpiderBoard, SpiderSuitMode};
use crate::spider_hash::spider_hash_spec;
use crate::spider_search::{replay, sp_reach};
use crate::spider_solver::{apply_move_spec, move_legal, ranked_spec};

verus! {

/// `q` is among the ranked candidates of `p` computed with parent `ph`.
pub open spec fn sp_ranked_has(p: SpiderBoard, mode: SpiderSuitMode, ph: Option<u64>, q: SpiderBoard) -> bool {
    exists|i: int| 0 <= i < ranked_spec(p, mode, ph).len() && #[trigger] ranked_spec(p, mode, ph)[i].0 == q
}

/// A legal move leads from `p` to `q`, and the ranking keeps it among the
/// candidates of `p` whatever the parent.
pub open spec fn sp_kept_step(p: SpiderBoard, q: SpiderBoard, mode: SpiderSuitMode) -> bool {
    &&& exists|m: HintMove| move_legal(p, m) && #[trigger] apply_move_spec(p, m) == q
    &&& forall|ph: Option<u64>| #[trigger] sp_ranked_has(p, mode, ph, q)
}

/// Step `i` of `path` is a kept move.
pub open spec fn sp_path_step(path: Seq<SpiderBoard>, mode: SpiderSuitMode, i: int) -> bool {
    sp_kept_step(path[i], path[i + 1], mode)
}

/// `path` starts at `start` and goes on by kept moves.
pub open spec fn sp_kept_path(start: SpiderBoard, mode: SpiderSuitMode, path: Seq<SpiderBoard>) -> bool {
    &&& path.len() >= 1
    &&& path[0] == start
    &&& forall|i: int| 0 <= i < path.len() - 1 ==> #[trigger] sp_path_step(path, mode, i)
}

/// `p` can be reached from `start` by kept moves.
pub open spec fn sp_kept_reach(start: SpiderBoard, mode: SpiderSuitMode, p: SpiderBoard) -> bool {
    exists|path: Seq<SpiderBoard>| sp_kept_path(start, mode, path) && path.last() == p
}

/// No two different positions legal play reaches from `start` share a hash.
pub open spec fn sp_hash_injective(start: SpiderBoard) -> bool {
    forall|p: SpiderBoard, q: SpiderBoard|
        sp_reach(start, p) && sp_reach(start, q) && #[trigger] spider_hash_spec(p) == #[trigger] spider_hash_spec(q)
            ==> p == q
}

/// No position reachable from `start` by kept moves is won.
pub open spec fn sp_no_kept_win(start: SpiderBoard, mode: SpiderSuitMode) -> bool {
    forall|p: SpiderBoard| #[trigger] sp_kept_reach(start, mode, p) ==> !is_won_spec(p)
}

proof fn lemma_kept_path_legal(start: SpiderBoard, mode: SpiderSuitMode, path: Seq<SpiderBoard>)
    requires
        sp_kept_path(start, mode, path),
    ensures
        sp_reach(start, path.last()),
    decreases path.len(),
{
    if path.len() == 1 {
        assert(replay(start, Seq::<HintMove>::empty()) == Some(start));
    } else {
        let prev = path.drop_last();
        assert forall|i: int| 0 <= i < prev.len() - 1 implies #[trigger] sp_path_step(prev, mode, i) by {
            assert(sp_path_step(path, mode, i));
            assert(prev[i] == path[i] && prev[i + 1] == path[i + 1]);
        }
        lemma_kept_path_legal(start, mode, prev);
        let p = prev.last();
        let q = path.last();
        assert(sp_path_step(path, mode, path.len() - 2));
        assert(path[path.len() - 2] == p);
        let line = choose|line: Seq<HintMove>| replay(start, line) == Some(p);
        let m = choose|m: HintMove| move_legal(p, m) && #[trigger] apply_move_spec(p, m) == q;
        let l2 = line.push(m);
        assert(l2.drop_last() =~= line);
        assert(replay(start, l2) == Some(q));
    }
}

/// Where every hash in `seen` belongs to the recorded position, which legal
/// play reaches and which is not won, the start's hash is in `seen`, and
/// every ranked candidate of a recorded position (with its recorded parent)
/// has its hash in `seen`, then (with no hash shared by two positions legal
/// play reaches) no position reachable by kept moves is won.
pub proof fn lemma_sp_closed_no_win(
    start: SpiderBoard,
    mode: SpiderSuitMode,
    seen: Map<u64, SpiderBoard>,
    par: Map<u64, Option<u64>>,
)
    requires
        seen.dom().contains(spider_hash_spec(start)),
        forall|h: u64| #[trigger] seen.dom().contains(h) ==> {
            &&& spider_hash_spec(seen[h]) == h
            &&& sp_reach(start, seen[h])
            &&& !is_won_spec(seen[h])
        },
        forall|h: u64, i: int|
            seen.dom().contains(h) && 0 <= i < ranked_spec(seen[h], mode, par[h]).len() ==> seen.dom().contains(
                spider_hash_spec(#[trigger] ranked_spec(seen[h], mode, par[h])[i].0),
            ),
        sp_hash_injective(start),
    ensures
        sp_no_kept_win(start, mode),
{
    assert forall|p: SpiderBoard| #[trigger] sp_kept_reach(start, mode, p) implies !is_won_spec(p) by {
        let path = choose|path: Seq<SpiderBoard>| sp_kept_path(start, mode, path) && path.last() == p;
        lemma_path_recorded(start, mode, seen, par, path);
        assert(seen[spider_hash_spec(p)] == p);
    }
}

proof fn lemma_path_recorded(
    start: SpiderBoard,
    mode: SpiderSuitMode,
    seen: Map<u64, SpiderBoard>,
    par: Map<u64, Option<u64>>,
    path: Seq<SpiderBoard>,
)
    requires
        seen.dom().contains(spider_hash_spec(start)),
        forall|h: u64| #[trigger] seen.dom().contains(h) ==> {
            &&& spider_hash_spec(seen[h]) == h
            &&& sp_reach(start, seen[h])
            &&& !is_won_spec(seen[h])
        },
        forall|h: u64, i: int|
            seen.dom().contains(h) && 0 <= i < ranked_spec(seen[h], mode, par[h]).len() ==> seen.dom().contains(
                spider_hash_spec(#[trigger] ranked_spec(seen[h], mode, par[h])[i].0),
            ),
        sp_hash_injective(start),
        sp_kept_path(start, mode, path),
    ensures
        seen.dom().contains(spider_hash_spec(path.last())),
        seen[spider_hash_spec(path.last())] == path.last(),
    decreases path.len(),
{
    lemma_kept_path_legal(start, mode, path);
    if path.len() == 1 {
        let h = spider_hash_spec(start);
        assert(path.last() == start);
        assert(sp_reach(start, seen[h]));
        assert(spider_hash_spec(seen[h]) == spider_hash_spec(start));
    } else {
        let prev = path.drop_last();
        assert forall|i: int| 0 <= i < prev.len() - 1 implies #[trigger] sp_path_step(prev, mode, i) by {
            assert(sp_path_step(path, mode, i));
            assert(prev[i] == path[i] && prev[i + 1] == path[i + 1]);
        }
        assert(sp_kept_path(start, mode, prev));
        lemma_path_recorded(start, mode, seen, par, prev);
        let p = prev.last();
        let q = path.last();
        assert(sp_path_step(path, mode, path.len() - 2));
        assert(path[path.len() - 2] == p);
        let hp = spider_hash_spec(p);
        assert(seen[hp] == p);
        assert(sp_ranked_has(p, mode, par[hp], q));
        let i = choose|i: int|
            0 <= i < ranked_spec(p, mode, par[hp]).len() && #[trigger] ranked_spec(p, mode, par[hp])[i].0 == q;
        assert(seen.dom().contains(spider_hash_spec(ranked_spec(seen[hp], mode, par[hp])[i].0)));
        let hq = spider_hash_spec(q);
        assert(sp_reach(start, seen[hq]));
        assert(spider_hash_spec(seen[hq]) == spider_hash_spec(q));
    }
}

} // verus!
