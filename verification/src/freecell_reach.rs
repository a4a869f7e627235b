//! Positions a FreeCell search can reach: those the wand's candidate moves
//! lead to, one after another, from a starting position.

use vstd::prelude::*;
use crate::freecell::{fc_won, FreecellBoard};
use crate::freecell_eval::fc_hash_spec;
use crate::freecell_wand::wand_candidates_spec;

verus! {

/// `q` is the position one of the wand's candidate moves leads to from `p`.
pub open spec fn fc_cand_step(p: FreecellBoard, q: FreecellBoard) -> bool {
    exists|i: int| 0 <= i < wand_candidates_spec(p).len() && #[trigger] wand_candidates_spec(p)[i].0 == q
}

/// Step `i` of `path` is a candidate move.
pub open spec fn fc_path_step(path: Seq<FreecellBoard>, i: int) -> bool {
    fc_cand_step(path[i], path[i + 1])
}

/// `path` starts at `start` and goes on by candidate moves.
pub open spec fn fc_cand_path(start: FreecellBoard, path: Seq<FreecellBoard>) -> bool {
    &&& path.len() >= 1
    &&& path[0] == start
    &&& forall|i: int| 0 <= i < path.len() - 1 ==> #[trigger] fc_path_step(path, i)
}

/// `p` can be reached from `start` by candidate moves.
pub open spec fn fc_reach(start: FreecellBoard, p: FreecellBoard) -> bool {
    exists|path: Seq<FreecellBoard>| fc_cand_path(start, path) && path.last() == p
}

/// No two different positions reachable from `start` share a hash.
pub open spec fn fc_hash_injective(start: FreecellBoard) -> bool {
    forall|p: FreecellBoard, q: FreecellBoard|
        fc_reach(start, p) && fc_reach(start, q) && #[trigger] fc_hash_spec(p) == #[trigger] fc_hash_spec(q) ==> p == q
}

/// `h` is the hash of a position reachable from `start` that is not won.
pub open spec fn fc_unwon_hash(start: FreecellBoard, h: u64) -> bool {
    exists|p: FreecellBoard| fc_reach(start, p) && !fc_won(p) && fc_hash_spec(p) == h
}

/// There are `n` distinct hashes of reachable positions that are not won.
pub open spec fn fc_unwon_reached(start: FreecellBoard, n: nat) -> bool {
    exists|hs: Set<u64>| hs.finite() && hs.len() == n && forall|h: u64| #[trigger] hs.contains(h) ==> fc_unwon_hash(start, h)
}

/// No position reachable from `start` is won.
pub open spec fn fc_no_reachable_win(start: FreecellBoard) -> bool {
    forall|p: FreecellBoard| #[trigger] fc_reach(start, p) ==> !fc_won(p)
}

pub proof fn lemma_reach_start(start: FreecellBoard)
    ensures
        fc_reach(start, start),
{
    let path = seq![start];
    assert(fc_cand_path(start, path));
    assert(path.last() == start);
}

pub proof fn lemma_reach_step(start: FreecellBoard, p: FreecellBoard, i: int)
    requires
        fc_reach(start, p),
        0 <= i < wand_candidates_spec(p).len(),
    ensures
        fc_reach(start, wand_candidates_spec(p)[i].0),
{
    let q = wand_candidates_spec(p)[i].0;
    let path = choose|path: Seq<FreecellBoard>| fc_cand_path(start, path) && path.last() == p;
    let np = path.push(q);
    assert(fc_cand_step(p, q));
    assert forall|j: int| 0 <= j < np.len() - 1 implies #[trigger] fc_path_step(np, j) by {
        if j < path.len() - 1 {
            assert(fc_path_step(path, j));
            assert(np[j] == path[j] && np[j + 1] == path[j + 1]);
        } else {
            assert(np[j] == p && np[j + 1] == q);
        }
    }
    assert(fc_cand_path(start, np));
    assert(np.last() == q);
}

/// Where every position whose hash is in `seen` is the recorded one, is
/// reachable and not won, the start's hash is in `seen`, and every
/// candidate of a recorded position has its hash in `seen`, then (with no
/// hash shared by two reachable positions) no reachable position is won.
pub proof fn lemma_closed_no_win(start: FreecellBoard, seen: Map<u64, FreecellBoard>)
    requires
        seen.dom().contains(fc_hash_spec(start)),
        forall|h: u64| #[trigger] seen.dom().contains(h) ==> {
            &&& fc_hash_spec(seen[h]) == h
            &&& fc_reach(start, seen[h])
            &&& !fc_won(seen[h])
        },
        forall|h: u64, i: int|
            seen.dom().contains(h) && 0 <= i < wand_candidates_spec(seen[h]).len() ==> seen.dom().contains(
                fc_hash_spec(#[trigger] wand_candidates_spec(seen[h])[i].0),
            ),
        fc_hash_injective(start),
    ensures
        fc_no_reachable_win(start),
{
    assert forall|p: FreecellBoard| #[trigger] fc_reach(start, p) implies !fc_won(p) by {
        let path = choose|path: Seq<FreecellBoard>| fc_cand_path(start, path) && path.last() == p;
        lemma_path_recorded(start, seen, path);
        let h = fc_hash_spec(p);
        assert(seen[h] == p);
    }
}

proof fn lemma_path_recorded(start: FreecellBoard, seen: Map<u64, FreecellBoard>, path: Seq<FreecellBoard>)
    requires
        seen.dom().contains(fc_hash_spec(start)),
        forall|h: u64| #[trigger] seen.dom().contains(h) ==> {
            &&& fc_hash_spec(seen[h]) == h
            &&& fc_reach(start, seen[h])
            &&& !fc_won(seen[h])
        },
        forall|h: u64, i: int|
            seen.dom().contains(h) && 0 <= i < wand_candidates_spec(seen[h]).len() ==> seen.dom().contains(
                fc_hash_spec(#[trigger] wand_candidates_spec(seen[h])[i].0),
            ),
        fc_hash_injective(start),
        fc_cand_path(start, path),
    ensures
        seen.dom().contains(fc_hash_spec(path.last())),
        seen[fc_hash_spec(path.last())] == path.last(),
        fc_reach(start, path.last()),
    decreases path.len(),
{
    if path.len() == 1 {
        lemma_reach_start(start);
        assert(path.last() == start);
        let h = fc_hash_spec(start);
        assert(fc_reach(start, seen[h]));
        assert(fc_hash_spec(seen[h]) == fc_hash_spec(start));
    } else {
        let prev = path.drop_last();
        assert forall|i: int| 0 <= i < prev.len() - 1 implies #[trigger] fc_path_step(prev, i) by {
            assert(fc_path_step(path, i));
            assert(prev[i] == path[i] && prev[i + 1] == path[i + 1]);
        }
        assert(fc_cand_path(start, prev));
        lemma_path_recorded(start, seen, prev);
        let p = prev.last();
        let q = path.last();
        assert(fc_path_step(path, path.len() - 2));
        assert(path[path.len() - 2] == p);
        assert(fc_cand_step(p, q));
        let i = choose|i: int| 0 <= i < wand_candidates_spec(p).len() && #[trigger] wand_candidates_spec(p)[i].0 == q;
        let hp = fc_hash_spec(p);
        assert(seen[hp] == p);
        assert(seen.dom().contains(fc_hash_spec(wand_candidates_spec(seen[hp])[i].0)));
        lemma_reach_step(start, p, i);
        let hq = fc_hash_spec(q);
        assert(fc_reach(start, seen[hq]));
        assert(fc_hash_spec(seen[hq]) == fc_hash_spec(q));
    }
}

} // verus!
