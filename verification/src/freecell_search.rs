//! Picking the wand's move in FreeCell while avoiding revisits, a greedy
//! playthrough of a seed, and the best-first winnability search.

use vstd::prelude::*;
use std::collections::{HashSet, VecDeque};
use crate::freecell::{fc_ok, fc_won, FreecellBoard, FreecellGame};
use crate::freecell_action::FreecellPlannerAction;
use crate::freecell_eval::{fc_hash_spec, freecell_state_eval, freecell_wand_state_hash, state_eval_spec};
use crate::freecell_wand::{
    fc_apply, fc_cand_view, fc_cands_view, fc_legal, freecell_wand_candidates, wand_candidates_spec, FreecellCandidate,
    ScoredFreecell,
};

verus! {

// ---------------------------------------------------------------------------
// Recent positions
// ---------------------------------------------------------------------------

/// How many entries back from the end `h` last occurs in `s`.
pub open spec fn rev_position(s: Seq<u64>, h: u64) -> Option<nat>
    decreases s.len(),
{
    if s.len() == 0 {
        None
    } else if s.last() == h {
        Some(0)
    } else {
        match rev_position(s.drop_last(), h) {
            Some(d) => Some(d + 1),
            None => None,
        }
    }
}

/// A penalty that grows the more recently `h` was seen; none if it was not.
pub open spec fn repeat_penalty_spec(h: u64, recent: Seq<u64>) -> int {
    match rev_position(recent, h) {
        Some(d) => 300 + (64 - (if d < 64 { d as int } else { 64 })) * 260,
        None => 0,
    }
}

/// `h` is the position two steps back: an immediate reversal.
pub open spec fn short_cycle_spec(h: u64, recent: Seq<u64>) -> bool {
    recent.len() >= 2 && recent[recent.len() - 2] == h
}

/// The entry `j` places back from the end.
pub open spec fn back(s: Seq<u64>, j: int) -> u64 {
    s[s.len() - 1 - j]
}

proof fn lemma_rev_position_found(s: Seq<u64>, h: u64, k: int)
    requires
        0 <= k < s.len(),
        forall|j: int| 0 <= j < k ==> #[trigger] back(s, j) != h,
        back(s, k) == h,
    ensures
        rev_position(s, h) == Some(k as nat),
    decreases k,
{
    if k > 0 {
        assert(s.last() != h) by {
            assert(back(s, 0) != h);
        }
        let d = s.drop_last();
        assert forall|j: int| 0 <= j < k - 1 implies #[trigger] back(d, j) != h by {
            assert(back(d, j) == back(s, j + 1));
        }
        assert(back(d, k - 1) == back(s, k));
        lemma_rev_position_found(d, h, k - 1);
    }
}

proof fn lemma_rev_position_none(s: Seq<u64>, h: u64)
    requires
        forall|j: int| 0 <= j < s.len() ==> s[j] != h,
    ensures
        rev_position(s, h) is None,
    decreases s.len(),
{
    if s.len() > 0 {
        assert(s.last() == s[s.len() - 1]);
        lemma_rev_position_none(s.drop_last(), h);
    }
}

/// How many entries back from the end `h` last occurs in `recent`.
pub fn freecell_recent_repeat_distance(next_hash: u64, recent: &[u64]) -> (r: Option<usize>)
    ensures
        r matches Some(d) ==> rev_position(recent@, next_hash) == Some(d as nat),
        r is None ==> rev_position(recent@, next_hash) is None,
{
    let n = recent.len();
    let mut k: usize = 0;
    while k < n
        invariant
            n == recent@.len(),
            k <= n,
            forall|j: int| 0 <= j < k ==> #[trigger] back(recent@, j) != next_hash,
        decreases n - k,
    {
        if recent[n - 1 - k] == next_hash {
            proof {
                lemma_rev_position_found(recent@, next_hash, k as int);
            }
            return Some(k);
        }
        k += 1;
    }
    proof {
        assert forall|j: int| 0 <= j < n implies recent@[j] != next_hash by {
            assert(back(recent@, n - 1 - j) != next_hash);
        }
        lemma_rev_position_none(recent@, next_hash);
    }
    None
}

/// The same, over a deque of recent positions.
pub fn freecell_recent_repeat_distance_deque(next_hash: u64, recent: &VecDeque<u64>) -> (r: Option<usize>)
    ensures
        r matches Some(d) ==> rev_position(recent@, next_hash) == Some(d as nat),
        r is None ==> rev_position(recent@, next_hash) is None,
{
    let n = recent.len();
    let mut k: usize = 0;
    while k < n
        invariant
            n == recent@.len(),
            k <= n,
            forall|j: int| 0 <= j < k ==> #[trigger] back(recent@, j) != next_hash,
        decreases n - k,
    {
        if recent[n - 1 - k] == next_hash {
            proof {
                lemma_rev_position_found(recent@, next_hash, k as int);
            }
            return Some(k);
        }
        k += 1;
    }
    proof {
        assert forall|j: int| 0 <= j < n implies recent@[j] != next_hash by {
            assert(back(recent@, n - 1 - j) != next_hash);
        }
        lemma_rev_position_none(recent@, next_hash);
    }
    None
}

fn penalty_for(distance: Option<usize>) -> (r: i64)
    ensures
        r == (match distance {
            Some(d) => 300 + (64 - (if d < 64 { d as int } else { 64 })) * 260,
            None => 0,
        }),
{
    match distance {
        Some(d) => {
            let capped = if d < 64 { d } else { 64 };
            300 + ((64 - capped) as i64) * 260
        },
        None => 0,
    }
}

pub fn freecell_recent_repeat_penalty(next_hash: u64, recent: &[u64]) -> (r: i64)
    ensures
        r == repeat_penalty_spec(next_hash, recent@),
{
    penalty_for(freecell_recent_repeat_distance(next_hash, recent))
}

pub fn freecell_recent_repeat_penalty_deque(next_hash: u64, recent: &VecDeque<u64>) -> (r: i64)
    ensures
        r == repeat_penalty_spec(next_hash, recent@),
{
    penalty_for(freecell_recent_repeat_distance_deque(next_hash, recent))
}

pub fn freecell_is_short_cycle(next_hash: u64, recent: &[u64]) -> (r: bool)
    ensures
        r == short_cycle_spec(next_hash, recent@),
{
    recent.len() >= 2 && next_hash == recent[recent.len() - 2]
}

pub fn freecell_is_short_cycle_deque(next_hash: u64, recent: &VecDeque<u64>) -> (r: bool)
    ensures
        r == short_cycle_spec(next_hash, recent@),
{
    if recent.len() >= 2 {
        let second_last_idx = recent.len() - 2;
        return recent[second_last_idx] == next_hash;
    }
    false
}

// ---------------------------------------------------------------------------
// Choosing the wand's move
// ---------------------------------------------------------------------------

/// The best choice so far: its move, its score, and whether it wins.
pub type WandBest = Option<(FreecellPlannerAction, int, bool)>;

/// A candidate the wand may take: it leaves the position, is not seen, and
/// is not among the recent positions.
pub open spec fn eligible(c: ScoredFreecell, current_hash: u64, recent: Seq<u64>, seen: Set<u64>) -> bool {
    let h = fc_hash_spec(c.0);
    &&& h != current_hash
    &&& !seen.contains(h)
    &&& !short_cycle_spec(h, recent)
    &&& rev_position(recent, h) is None
}

/// One step of the choice: a winning choice is final; otherwise an eligible
/// candidate replaces the best if it wins where the best does not, or
/// scores higher (its move score plus the evaluation it reaches, less half
/// the repeat penalty) with the same outcome.
pub open spec fn pick_step(best: WandBest, c: ScoredFreecell, current_hash: u64, recent: Seq<u64>, seen: Set<u64>) -> WandBest {
    if best matches Some(b) && b.2 {
        best
    } else if !eligible(c, current_hash, recent, seen) {
        best
    } else {
        let winning = fc_won(c.0);
        let score = c.2 + state_eval_spec(c.0) - repeat_penalty_spec(fc_hash_spec(c.0), recent) / 2;
        let replace = match best {
            None => true,
            Some(b) => (winning && !b.2) || (winning == b.2 && score > b.1),
        };
        if replace {
            Some((c.1, score, winning))
        } else {
            best
        }
    }
}

pub open spec fn select_fold(cands: Seq<ScoredFreecell>, current_hash: u64, recent: Seq<u64>, seen: Set<u64>) -> WandBest
    decreases cands.len(),
{
    if cands.len() == 0 {
        None
    } else {
        pick_step(select_fold(cands.drop_last(), current_hash, recent, seen), cands.last(), current_hash, recent, seen)
    }
}

pub open spec fn selected_action(best: WandBest) -> Option<FreecellPlannerAction> {
    match best {
        Some(b) => Some(b.0),
        None => None,
    }
}

proof fn lemma_fold_won_stays(cands: Seq<ScoredFreecell>, i: int, j: int, current_hash: u64, recent: Seq<u64>, seen: Set<u64>)
    requires
        0 <= i <= j <= cands.len(),
        select_fold(cands.take(i), current_hash, recent, seen) matches Some(b) && b.2,
    ensures
        select_fold(cands.take(j), current_hash, recent, seen) == select_fold(cands.take(i), current_hash, recent, seen),
    decreases j - i,
{
    if j > i {
        lemma_fold_won_stays(cands, i, j - 1, current_hash, recent, seen);
        assert(cands.take(j).drop_last() =~= cands.take(j - 1));
    }
}

proof fn lemma_fold_member(cands: Seq<ScoredFreecell>, current_hash: u64, recent: Seq<u64>, seen: Set<u64>)
    ensures
        select_fold(cands, current_hash, recent, seen) matches Some(b) ==> exists|i: int| 0 <= i < cands.len() && (
        #[trigger] cands[i]).1 == b.0,
    decreases cands.len(),
{
    if cands.len() > 0 {
        let d = cands.drop_last();
        lemma_fold_member(d, current_hash, recent, seen);
        match select_fold(d, current_hash, recent, seen) {
            Some(b) => {
                let i = choose|i: int| 0 <= i < d.len() && (#[trigger] d[i]).1 == b.0;
                assert(cands[i] == d[i]);
            },
            None => {},
        }
        assert(cands[cands.len() - 1] == cands.last());
    }
}

/// The wand's choice among `candidates` (see `pick_step`): positions equal
/// to the current one, seen, or recent are skipped, and a winning move is
/// taken at once.
#[verifier::rlimit(40)]
pub fn freecell_select_best_action_avoiding_seen(
    candidates: Vec<FreecellCandidate>,
    current_hash: u64,
    recent_hashes: &[u64],
    seen_hashes: &HashSet<u64>,
) -> (r: Option<FreecellPlannerAction>)
    requires
        forall|i: int| 0 <= i < candidates@.len() ==> fc_ok((#[trigger] candidates@[i]).0@),
        forall|i: int| 0 <= i < candidates@.len() ==> -1_300_000_000 <= (#[trigger] candidates@[i]).2 <= 1_300_000_000,
    ensures
        r == selected_action(select_fold(fc_cands_view(candidates@), current_hash, recent_hashes@, seen_hashes@)),
        r matches Some(a) ==> exists|i: int| 0 <= i < candidates@.len() && (#[trigger] candidates@[i]).1 == a,
{
    broadcast use vstd::std_specs::hash::group_hash_axioms;
    let ghost cv = fc_cands_view(candidates@);
    let mut best: Option<(FreecellPlannerAction, i64, bool)> = None;
    let ghost mut best_spec: WandBest = None;
    let n = candidates.len();
    assert(cv.take(n as int) =~= cv);
    let mut i: usize = 0;
    while i < n
        invariant
            n == candidates@.len(),
            cv == fc_cands_view(candidates@),
            cv.take(n as int) == cv,
            i <= n,
            forall|k: int| 0 <= k < candidates@.len() ==> fc_ok((#[trigger] candidates@[k]).0@),
            forall|k: int| 0 <= k < candidates@.len() ==> -1_300_000_000 <= (#[trigger] candidates@[k]).2 <= 1_300_000_000,
            best_spec == select_fold(cv.take(i as int), current_hash, recent_hashes@, seen_hashes@),
            best_spec == (match best {
                Some(b) => Some((b.0, b.1 as int, b.2)),
                None => None,
            }),
            best matches Some(b) ==> -1_500_000_000 <= b.1 <= 1_500_000_000,
        ensures
            best_spec == select_fold(cv, current_hash, recent_hashes@, seen_hashes@),
            best_spec == (match best {
                Some(b) => Some((b.0, b.1 as int, b.2)),
                None => None,
            }),
        decreases n - i,
    {
        let c = &candidates[i];
        assert(cv[i as int] == fc_cand_view(candidates@[i as int]));
        assert(cv.take(i + 1).drop_last() =~= cv.take(i as int));
        proof {
            best_spec = pick_step(best_spec, cv[i as int], current_hash, recent_hashes@, seen_hashes@);
            assert(best_spec == select_fold(cv.take(i + 1), current_hash, recent_hashes@, seen_hashes@));
        }
        let stopped = match best {
            Some(b) => b.2,
            None => false,
        };
        if !stopped {
            let next_hash = freecell_wand_state_hash(&c.0);
            let skip = next_hash == current_hash || seen_hashes.contains(&next_hash)
                || freecell_is_short_cycle(next_hash, recent_hashes)
                || freecell_recent_repeat_distance(next_hash, recent_hashes).is_some();
            if !skip {
                let repeat_penalty = freecell_recent_repeat_penalty(next_hash, recent_hashes);
                let winning = c.0.is_won();
                let score = c.2 + freecell_state_eval(&c.0) - repeat_penalty / 2;
                let replace = match best {
                    None => true,
                    Some(b) => (winning && !b.2) || (winning == b.2 && score > b.1),
                };
                if replace {
                    best = Some((c.1, score, winning));
                    if winning {
                        i += 1;
                        proof {
                            lemma_fold_won_stays(cv, i as int, n as int, current_hash, recent_hashes@, seen_hashes@);
                            assert(cv.take(n as int) =~= cv);
                        }
                        break;
                    }
                }
            }
        }
        i += 1;
    }
    proof {
        lemma_fold_member(cv, current_hash, recent_hashes@, seen_hashes@);
        match select_fold(cv, current_hash, recent_hashes@, seen_hashes@) {
            Some(b) => {
                let k = choose|k: int| 0 <= k < cv.len() && (#[trigger] cv[k]).1 == b.0;
                assert(cv[k] == fc_cand_view(candidates@[k]));
            },
            None => {},
        }
    }
    match best {
        Some(b) => Some(b.0),
        None => None,
    }
}

/// The wand's choice, with the recent positions kept in a deque.
#[verifier::rlimit(40)]
pub fn freecell_select_best_action_from_deque_avoiding_seen(
    candidates: Vec<FreecellCandidate>,
    current_hash: u64,
    recent_hashes: &VecDeque<u64>,
    seen_hashes: &HashSet<u64>,
) -> (r: Option<FreecellPlannerAction>)
    requires
        forall|i: int| 0 <= i < candidates@.len() ==> fc_ok((#[trigger] candidates@[i]).0@),
        forall|i: int| 0 <= i < candidates@.len() ==> -1_300_000_000 <= (#[trigger] candidates@[i]).2 <= 1_300_000_000,
    ensures
        r == selected_action(select_fold(fc_cands_view(candidates@), current_hash, recent_hashes@, seen_hashes@)),
        r matches Some(a) ==> exists|i: int| 0 <= i < candidates@.len() && (#[trigger] candidates@[i]).1 == a,
{
    broadcast use vstd::std_specs::hash::group_hash_axioms;
    let ghost cv = fc_cands_view(candidates@);
    let mut best: Option<(FreecellPlannerAction, i64, bool)> = None;
    let ghost mut best_spec: WandBest = None;
    let n = candidates.len();
    assert(cv.take(n as int) =~= cv);
    let mut i: usize = 0;
    while i < n
        invariant
            n == candidates@.len(),
            cv == fc_cands_view(candidates@),
            cv.take(n as int) == cv,
            i <= n,
            forall|k: int| 0 <= k < candidates@.len() ==> fc_ok((#[trigger] candidates@[k]).0@),
            forall|k: int| 0 <= k < candidates@.len() ==> -1_300_000_000 <= (#[trigger] candidates@[k]).2 <= 1_300_000_000,
            best_spec == select_fold(cv.take(i as int), current_hash, recent_hashes@, seen_hashes@),
            best_spec == (match best {
                Some(b) => Some((b.0, b.1 as int, b.2)),
                None => None,
            }),
            best matches Some(b) ==> -1_500_000_000 <= b.1 <= 1_500_000_000,
        ensures
            best_spec == select_fold(cv, current_hash, recent_hashes@, seen_hashes@),
            best_spec == (match best {
                Some(b) => Some((b.0, b.1 as int, b.2)),
                None => None,
            }),
        decreases n - i,
    {
        let c = &candidates[i];
        assert(cv[i as int] == fc_cand_view(candidates@[i as int]));
        assert(cv.take(i + 1).drop_last() =~= cv.take(i as int));
        proof {
            best_spec = pick_step(best_spec, cv[i as int], current_hash, recent_hashes@, seen_hashes@);
            assert(best_spec == select_fold(cv.take(i + 1), current_hash, recent_hashes@, seen_hashes@));
        }
        let stopped = match best {
            Some(b) => b.2,
            None => false,
        };
        if !stopped {
            let next_hash = freecell_wand_state_hash(&c.0);
            let skip = next_hash == current_hash || seen_hashes.contains(&next_hash)
                || freecell_is_short_cycle_deque(next_hash, recent_hashes)
                || freecell_recent_repeat_distance_deque(next_hash, recent_hashes).is_some();
            if !skip {
                let repeat_penalty = freecell_recent_repeat_penalty_deque(next_hash, recent_hashes);
                let winning = c.0.is_won();
                let score = c.2 + freecell_state_eval(&c.0) - repeat_penalty / 2;
                let replace = match best {
                    None => true,
                    Some(b) => (winning && !b.2) || (winning == b.2 && score > b.1),
                };
                if replace {
                    best = Some((c.1, score, winning));
                    if winning {
                        i += 1;
                        proof {
                            lemma_fold_won_stays(cv, i as int, n as int, current_hash, recent_hashes@, seen_hashes@);
                            assert(cv.take(n as int) =~= cv);
                        }
                        break;
                    }
                }
            }
        }
        i += 1;
    }
    proof {
        lemma_fold_member(cv, current_hash, recent_hashes@, seen_hashes@);
        match select_fold(cv, current_hash, recent_hashes@, seen_hashes@) {
            Some(b) => {
                let k = choose|k: int| 0 <= k < cv.len() && (#[trigger] cv[k]).1 == b.0;
                assert(cv[k] == fc_cand_view(candidates@[k]));
            },
            None => {},
        }
    }
    match best {
        Some(b) => Some(b.0),
        None => None,
    }
}


/// The wand's move for a position, avoiding recent positions.
pub fn freecell_wand_best_action(game: &FreecellGame, current_hash: u64, recent_hashes: &[u64]) -> (r: Option<FreecellPlannerAction>)
    requires
        fc_ok(game@),
    ensures
        r == selected_action(select_fold(wand_candidates_spec(game@), current_hash, recent_hashes@, Set::empty())),
        r matches Some(a) ==> fc_legal(game@, a),
{
    let seen: HashSet<u64> = HashSet::new();
    freecell_wand_best_action_avoiding_seen(game, current_hash, recent_hashes, &seen)
}

/// The wand's move for a position, avoiding recent and seen positions.
pub fn freecell_wand_best_action_avoiding_seen(
    game: &FreecellGame,
    current_hash: u64,
    recent_hashes: &[u64],
    seen_hashes: &HashSet<u64>,
) -> (r: Option<FreecellPlannerAction>)
    requires
        fc_ok(game@),
    ensures
        r == selected_action(select_fold(wand_candidates_spec(game@), current_hash, recent_hashes@, seen_hashes@)),
        r matches Some(a) ==> fc_legal(game@, a),
{
    let candidates = freecell_wand_candidates(game);
    freecell_select_best_action_avoiding_seen(candidates, current_hash, recent_hashes, seen_hashes)
}

/// Plays `action`; reports whether it was legal.
pub fn apply_freecell_action(game: &mut FreecellGame, action: FreecellPlannerAction) -> (applied: bool)
    requires
        fc_ok(old(game)@),
    ensures
        applied == fc_legal(old(game)@, action),
        applied ==> final(game)@ == fc_apply(old(game)@, action),
        !applied ==> final(game)@ == old(game)@,
        fc_ok(final(game)@),
{
    match action {
        FreecellPlannerAction::TableauToFoundation { src } => game.move_tableau_top_to_foundation(src),
        FreecellPlannerAction::FreecellToFoundation { cell } => game.move_freecell_to_foundation(cell),
        FreecellPlannerAction::TableauRunToTableau { src, start, dst } => game.move_tableau_run_to_tableau(src, start, dst),
        FreecellPlannerAction::TableauToFreecell { src, cell } => game.move_tableau_top_to_freecell(src, cell),
        FreecellPlannerAction::FreecellToTableau { cell, dst } => game.move_freecell_to_tableau(cell, dst),
    }
}

} // verus!
