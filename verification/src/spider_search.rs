//! Best-first search for a winning Spider line from a position.

use vstd::prelude::*;
use vstd::multiset::Multiset;
use std::collections::HashSet;
use std::sync::atomic::AtomicBool;
use crate::cancel::{all_clear, cancel_requested, clear_before_last, last_raised, lemma_all_clear, lemma_read_after_clear};
use crate::frontier::{Frontier, FrontierEntry};
use crate::moves::HintMove;
use crate::spider::{board_ok, is_won_spec, spider_deal, SpiderBoard, SpiderGame, SpiderSuitMode};
use crate::spider_hash::{spider_hash_spec, spider_state_hash};
use crate::spider_solver::{
    apply_move_spec, cand_sound, cand_view, cands_view, move_legal, ranked_spec, reached_from,
    spider_solver_ranked_candidates,
};
use crate::spider_reach::{lemma_sp_closed_no_win, sp_hash_injective, sp_no_kept_win};
use crate::winnability::SeedWinnabilityCheckResult;

verus! {

/// The position reached by playing `moves` from `b`, if every move is legal.
pub open spec fn replay(b: SpiderBoard, moves: Seq<HintMove>) -> Option<SpiderBoard>
    decreases moves.len(),
{
    if moves.len() == 0 {
        Some(b)
    } else {
        match replay(b, moves.drop_last()) {
            Some(x) => if move_legal(x, moves.last()) {
                Some(apply_move_spec(x, moves.last()))
            } else {
                None
            },
            None => None,
        }
    }
}

/// Playing `moves` from `b` is legal throughout and wins.
pub open spec fn line_wins(b: SpiderBoard, moves: Seq<HintMove>) -> bool {
    replay(b, moves) matches Some(x) && is_won_spec(x)
}

/// A position reached during the search, with how it was reached.
struct SearchNode {
    state: SpiderGame,
    parent: Option<usize>,
    hint_move: HintMove,
    depth: u32,
    parent_hash: Option<u64>,
}

/// Node `i` is reached by its line: its parent's line and its own move.
spec fn node_ok(start: SpiderBoard, arena: Seq<SearchNode>, lines: Seq<Seq<HintMove>>, i: int) -> bool {
    &&& replay(start, lines[i]) == Some(arena[i].state@)
    &&& board_ok(arena[i].state@)
    &&& lines[i].len() == arena[i].depth
    &&& arena[i].depth <= i
    &&& match arena[i].parent {
        Some(p) => p < i && lines[i] == lines[p as int].push(arena[i].hint_move),
        None => lines[i].len() == 0,
    }
}

/// The nodes form a tree rooted at `start`.
spec fn tree_ok(start: SpiderBoard, arena: Seq<SearchNode>, lines: Seq<Seq<HintMove>>) -> bool {
    &&& arena.len() == lines.len()
    &&& forall|i: int| 0 <= i < arena.len() ==> #[trigger] node_ok(start, arena, lines, i)
}

/// `p` is reached from `start` by a line of legal moves.
pub open spec fn sp_reach(start: SpiderBoard, p: SpiderBoard) -> bool {
    exists|line: Seq<HintMove>| replay(start, line) == Some(p)
}

/// `h` is the hash of a position reachable from `start`.
pub open spec fn sp_reached_hash(start: SpiderBoard, h: u64) -> bool {
    exists|p: SpiderBoard| sp_reach(start, p) && spider_hash_spec(p) == h
}

/// `h` is the hash of a position reachable from `start` that is not won.
pub open spec fn sp_unwon_hash(start: SpiderBoard, h: u64) -> bool {
    exists|p: SpiderBoard| sp_reach(start, p) && !is_won_spec(p) && spider_hash_spec(p) == h
}

/// There are `n` distinct hashes of positions reachable from `start`.
pub open spec fn sp_reached(start: SpiderBoard, n: nat) -> bool {
    exists|hs: Set<u64>| hs.finite() && hs.len() == n && forall|h: u64| #[trigger] hs.contains(h) ==> sp_reached_hash(start, h)
}

/// There are `n` distinct hashes of positions reachable from `start`, none of them won.
pub open spec fn sp_unwon_reached(start: SpiderBoard, n: nat) -> bool {
    exists|hs: Set<u64>| hs.finite() && hs.len() == n && forall|h: u64| #[trigger] hs.contains(h) ==> sp_unwon_hash(start, h)
}

/// Each expanded hash belongs to the recorded position, which is reachable and not won.
spec fn sp_seen_ok(start: SpiderBoard, seen: Map<u64, SpiderBoard>) -> bool {
    forall|h: u64| #[trigger] seen.dom().contains(h) ==> {
        &&& spider_hash_spec(seen[h]) == h
        &&& sp_reach(start, seen[h])
        &&& !is_won_spec(seen[h])
    }
}

/// Some node of `arena` holds a position with hash `h`.
spec fn sp_generated(arena: Seq<SearchNode>, h: u64) -> bool {
    exists|i: int| 0 <= i < arena.len() && spider_hash_spec(#[trigger] arena[i].state@) == h
}

/// Hash `h` was expanded, or a frontier entry holds a position with it.
spec fn sp_covered(visited: Set<u64>, fr: Multiset<FrontierEntry>, arena: Seq<SearchNode>, h: u64) -> bool {
    ||| visited.contains(h)
    ||| exists|e: FrontierEntry|
        #[trigger] fr.contains(e) && e.2 < arena.len() && spider_hash_spec(arena[e.2 as int].state@) == h
}

/// Every ranked candidate of every expanded position but `open` (with the
/// parent it was expanded with) has its hash among the generated ones.
spec fn sp_closed(
    seen: Map<u64, SpiderBoard>,
    par: Map<u64, Option<u64>>,
    gen: Set<u64>,
    mode: SpiderSuitMode,
    open: Option<u64>,
) -> bool {
    forall|h: u64, i: int|
        seen.dom().contains(h) && open != Some(h) && 0 <= i < ranked_spec(seen[h], mode, par[h]).len() ==> gen.contains(
            spider_hash_spec(#[trigger] ranked_spec(seen[h], mode, par[h])[i].0),
        )
}

proof fn lemma_sp_covered_pop(
    v: Set<u64>,
    fr: Multiset<FrontierEntry>,
    arena: Seq<SearchNode>,
    e: FrontierEntry,
    v2: Set<u64>,
    h: u64,
)
    requires
        sp_covered(v, fr, arena, h),
        e.2 < arena.len(),
        v.subset_of(v2),
        v2.contains(spider_hash_spec(arena[e.2 as int].state@)),
    ensures
        sp_covered(v2, fr.remove(e), arena, h),
{
    broadcast use vstd::multiset::group_multiset_axioms;
    if !v.contains(h) {
        let w = choose|w: FrontierEntry|
            #[trigger] fr.contains(w) && w.2 < arena.len() && spider_hash_spec(arena[w.2 as int].state@) == h;
        if w != e {
            assert(fr.remove(e).count(w) == fr.count(w));
            assert(fr.remove(e).contains(w));
        }
    }
}

proof fn lemma_sp_covered_grow(
    v: Set<u64>,
    fr: Multiset<FrontierEntry>,
    arena: Seq<SearchNode>,
    x: FrontierEntry,
    node: SearchNode,
    h: u64,
)
    requires
        sp_covered(v, fr, arena, h),
    ensures
        sp_covered(v, fr.insert(x), arena.push(node), h),
{
    broadcast use vstd::multiset::group_multiset_axioms;
    if !v.contains(h) {
        let w = choose|w: FrontierEntry|
            #[trigger] fr.contains(w) && w.2 < arena.len() && spider_hash_spec(arena[w.2 as int].state@) == h;
        assert(fr.insert(x).contains(w));
        assert(arena.push(node)[w.2 as int] == arena[w.2 as int]);
    }
}

proof fn lemma_sp_unwon(start: SpiderBoard, seen: Map<u64, SpiderBoard>)
    requires
        sp_seen_ok(start, seen),
        seen.dom().finite(),
    ensures
        sp_unwon_reached(start, seen.dom().len()),
{
    assert forall|h: u64| #[trigger] seen.dom().contains(h) implies sp_unwon_hash(start, h) by {
        assert(sp_reach(start, seen[h]) && !is_won_spec(seen[h]) && spider_hash_spec(seen[h]) == h);
    }
}

proof fn lemma_sp_none_reached(start: SpiderBoard)
    ensures
        sp_unwon_reached(start, 0),
{
    let none = Set::<u64>::empty();
    assert(none.finite() && none.len() == 0);
}

proof fn lemma_sp_generated(start: SpiderBoard, arena: Seq<SearchNode>, lines: Seq<Seq<HintMove>>, gen: Set<u64>)
    requires
        tree_ok(start, arena, lines),
        gen.finite(),
        forall|h: u64| #[trigger] gen.contains(h) ==> sp_generated(arena, h),
    ensures
        sp_reached(start, gen.len()),
{
    assert forall|h: u64| #[trigger] gen.contains(h) implies sp_reached_hash(start, h) by {
        let i = choose|i: int| 0 <= i < arena.len() && spider_hash_spec(#[trigger] arena[i].state@) == h;
        assert(node_ok(start, arena, lines, i));
        assert(sp_reach(start, arena[i].state@));
    }
}

fn limit_result(iterations: usize, canceled: bool) -> (r: SeedWinnabilityCheckResult)
    ensures
        !r.winnable,
        r.iterations == iterations,
        r.moves_to_win is None,
        r.hit_state_limit,
        r.solver_line is None,
        r.hint_line is None,
        r.freecell_line is None,
        r.canceled == canceled,
{
    SeedWinnabilityCheckResult {
        winnable: false,
        iterations,
        moves_to_win: None,
        hit_state_limit: true,
        solver_line: None,
        hint_line: None,
        freecell_line: None,
        canceled,
    }
}

/// The moves from the root to node `idx`.
fn line_to(arena: &Vec<SearchNode>, idx: usize, Ghost(start): Ghost<SpiderBoard>, Ghost(lines): Ghost<Seq<Seq<HintMove>>>) -> (r: Vec<HintMove>)
    requires
        tree_ok(start, arena@, lines),
        idx < arena@.len(),
    ensures
        r@ == lines[idx as int],
{
    let mut acc: Vec<HintMove> = Vec::new();
    let mut cursor = idx;
    loop
        invariant
            tree_ok(start, arena@, lines),
            idx < arena@.len(),
            cursor < arena@.len(),
            lines[idx as int] == lines[cursor as int] + acc@,
        ensures
            lines[idx as int] == acc@,
        decreases cursor,
    {
        assert(node_ok(start, arena@, lines, cursor as int));
        match arena[cursor].parent {
            Some(p) => {
                let ghost before = acc@;
                acc.insert(0, arena[cursor].hint_move);
                assert(lines[cursor as int] == lines[p as int].push(arena[cursor as int].hint_move));
                assert(lines[idx as int] =~= lines[p as int] + acc@);
                cursor = p;
            },
            None => {
                assert(lines[idx as int] =~= acc@);
                break;
            },
        }
    }
    acc
}

/// What holds of every Spider winnability answer from `start`: a winning
/// line plays legally to a won position and its length is the reported
/// depth; a canceled search hit its limit and found nothing.
pub open spec fn search_result_ok(start: SpiderBoard, r: SeedWinnabilityCheckResult) -> bool {
    &&& r.solver_line is None
    &&& r.freecell_line is None
    &&& r.winnable ==> r.hint_line is Some
    &&& r.winnable ==> r.moves_to_win == Some(r.hint_line->0@.len() as u32)
    &&& r.winnable ==> r.hint_line->0@.len() <= r.iterations
    &&& r.winnable ==> line_wins(start, r.hint_line->0@)
    &&& r.winnable ==> !r.canceled && !r.hit_state_limit
    &&& !r.winnable ==> r.hint_line is None && r.moves_to_win is None
    &&& r.canceled ==> r.hit_state_limit
}

/// Best-first search from `start` over the ranked candidates of each
/// position, until a won position comes out of the frontier, `max_states`
/// positions were expanded or generated, the frontier runs dry, or `cancel`
/// is raised.
///
/// Without a win, the reported iterations count distinct hashes of
/// reachable positions that are not won; a limit that was hit is either
/// `max_states` expansions or `max_states` distinct hashes generated. When
/// the frontier ran dry, no position reachable by moves the ranking keeps
/// whatever the parent is won, provided no two positions legal play
/// reaches share a hash.
/// Also returns the readings of the cancel flag made along the way: all
/// clear but perhaps the last, and only a raised one cancels.
pub fn spider_search(
    start: &SpiderGame,
    suit_mode: SpiderSuitMode,
    max_states: usize,
    cancel: &AtomicBool,
) -> (r: (SeedWinnabilityCheckResult, Ghost<Seq<bool>>))
    requires
        board_ok(start@),
        1 <= max_states <= 1_000_000,
    ensures
        search_result_ok(start@, r.0),
        r.0.iterations <= max_states,
        !r.0.canceled ==> r.0.iterations >= 1,
        is_won_spec(start@) && !r.0.canceled ==> r.0.winnable && r.0.iterations == 1 && r.0.moves_to_win == Some(0u32),
        !is_won_spec(start@) && max_states == 1 && !r.0.canceled ==> !r.0.winnable && r.0.hit_state_limit && r.0.iterations
            == 1,
        !r.0.winnable ==> sp_unwon_reached(start@, r.0.iterations as nat),
        r.0.hit_state_limit && !r.0.canceled ==> r.0.iterations == max_states || sp_reached(start@, max_states as nat),
        !r.0.winnable && !r.0.hit_state_limit ==> (sp_hash_injective(start@) ==> sp_no_kept_win(start@, suit_mode)),
        clear_before_last(r.1@),
        r.0.canceled <==> last_raised(r.1@),
{
    broadcast use vstd::std_specs::hash::group_hash_axioms;
    let ghost b0 = start@;
    let ghost mut reads: Seq<bool> = Seq::empty();
    let mut visited_hashes: HashSet<u64> = HashSet::new();
    let mut seen_hashes: HashSet<u64> = HashSet::new();
    let mut frontier = Frontier::new();
    let mut serial: u64 = 0;
    let mut generated_states: usize = 1;
    let max_generated_states = max_states;

    let start_hash = spider_state_hash(start);
    seen_hashes.insert(start_hash);
    let mut arena: Vec<SearchNode> = Vec::new();
    let start_priority: i64 = (start.completed_runs() as i64) * 100_000;
    arena.push(SearchNode {
        state: start.duplicate(),
        parent: None,
        hint_move: HintMove::Draw,
        depth: 0,
        parent_hash: None,
    });
    let ghost mut lines: Seq<Seq<HintMove>> = seq![Seq::<HintMove>::empty()];
    frontier.push((start_priority, serial, 0));
    let ghost first: FrontierEntry = (start_priority, 0u64, 0usize);
    assert(frontier.entries() =~= Multiset::<FrontierEntry>::empty().insert(first));
    let ghost mut seen_map: Map<u64, SpiderBoard> = Map::empty();
    let ghost mut par: Map<u64, Option<u64>> = Map::empty();
    proof {
        broadcast use vstd::multiset::group_multiset_axioms;
        assert(frontier.entries().contains(first));
        assert(spider_hash_spec(b0) == start_hash);
        assert(sp_covered(visited_hashes@, frontier.entries(), arena@, start_hash));
        assert(visited_hashes@ =~= seen_map.dom());
        assert(seen_hashes@ =~= Set::<u64>::empty().insert(start_hash));
        assert(spider_hash_spec(arena@[0].state@) == start_hash);
        assert(sp_generated(arena@, start_hash));
    }

    loop
        invariant
            b0 == start@,
            all_clear(reads),
            visited_hashes@.finite(),
            visited_hashes@.len() < max_states,
            visited_hashes@.len() == 0 ==> frontier.entries() == Multiset::<FrontierEntry>::empty().insert(first),
            is_won_spec(b0) ==> visited_hashes@.len() == 0,
            forall|i: int| 0 <= i < arena@.len() ==> #[trigger] arena@[i].depth <= visited_hashes@.len(),
            first.2 == 0,
            frontier.wf(),
            tree_ok(b0, arena@, lines),
            1 <= arena@.len() <= generated_states,
            generated_states <= max_generated_states,
            max_generated_states <= 1_000_000,
            max_generated_states == max_states,
            forall|e: FrontierEntry| frontier.entries().contains(e) ==> e.2 < arena@.len(),
            visited_hashes@ == seen_map.dom(),
            sp_seen_ok(b0, seen_map),
            seen_hashes@.finite(),
            seen_hashes@.len() == generated_states,
            forall|h: u64| #[trigger] seen_hashes@.contains(h) ==> sp_generated(arena@, h),
            sp_closed(seen_map, par, seen_hashes@, suit_mode, None),
            forall|h: u64| #[trigger] seen_hashes@.contains(h) ==> sp_covered(visited_hashes@, frontier.entries(), arena@, h),
            seen_hashes@.contains(spider_hash_spec(b0)),
        ensures
            1 <= visited_hashes@.len() < max_states,
            !is_won_spec(b0),
            all_clear(reads),
            visited_hashes@.finite(),
            visited_hashes@ == seen_map.dom(),
            sp_seen_ok(b0, seen_map),
            sp_hash_injective(b0) ==> sp_no_kept_win(b0, suit_mode),
        decreases frontier.entries().len() + (max_generated_states - generated_states),
    {
        let ghost before_pop = frontier.entries();
        let ghost measure = frontier.entries().len() + (max_generated_states - generated_states);
        let popped = frontier.pop();
        proof {
            broadcast use vstd::multiset::group_multiset_axioms;
            assert forall|e: FrontierEntry| frontier.entries().contains(e) implies e.2 < arena@.len() by {
                assert(before_pop.contains(e));
            }
        }
        let entry = match popped {
            Some(e) => e,
            None => {
                proof {
                    broadcast use vstd::multiset::group_multiset_axioms;
                    if visited_hashes@.len() == 0 {
                        assert(before_pop.len() == 1);
                    }
                    assert(before_pop =~= Multiset::<FrontierEntry>::empty());
                    assert forall|h: u64, i: int|
                        seen_map.dom().contains(h) && 0 <= i < ranked_spec(seen_map[h], suit_mode, par[h]).len()
                        implies seen_map.dom().contains(
                        spider_hash_spec(#[trigger] ranked_spec(seen_map[h], suit_mode, par[h])[i].0),
                    ) by {
                        let hq = spider_hash_spec(ranked_spec(seen_map[h], suit_mode, par[h])[i].0);
                        assert(seen_hashes@.contains(hq));
                        assert(sp_covered(visited_hashes@, before_pop, arena@, hq));
                    }
                    assert(sp_covered(visited_hashes@, before_pop, arena@, spider_hash_spec(b0)));
                    if sp_hash_injective(b0) {
                        lemma_sp_closed_no_win(b0, suit_mode, seen_map, par);
                    }
                }
                break;
            },
        };
        let ghost visited_before = visited_hashes@.len();
        proof {
            broadcast use vstd::multiset::group_multiset_axioms;
            if visited_before == 0 {
                assert(before_pop.contains(entry));
                assert(entry == first);
            }
        }
        let raised = cancel_requested(cancel);
        proof {
            lemma_read_after_clear(reads, raised);
            reads = reads.push(raised);
        }
        if raised {
            proof {
                lemma_sp_unwon(b0, seen_map);
            }
            return (limit_result(visited_hashes.len(), true), Ghost(reads));
        }
        let slot = entry.2;
        assert(node_ok(b0, arena@, lines, slot as int));
        proof {
            if visited_before == 0 {
                assert(slot == 0);
                assert(arena@[0].depth == 0);
                assert(lines[0].len() == 0);
                assert(lines[0] =~= Seq::<HintMove>::empty());
                assert(arena@[0].state@ == b0);
            }
        }
        let state = arena[slot].state.duplicate();
        let depth = arena[slot].depth;
        let node_parent_hash = arena[slot].parent_hash;
        let current_hash = spider_state_hash(&state);
        let ghost visited_old = visited_hashes@;
        if !visited_hashes.insert(current_hash) {
            proof {
                assert forall|h: u64| #[trigger] seen_hashes@.contains(h) implies sp_covered(visited_hashes@, frontier.entries(), arena@, h) by {
                    lemma_sp_covered_pop(visited_old, before_pop, arena@, entry, visited_hashes@, h);
                }
            }
            continue;
        }
        proof {
            assert forall|h: u64| #[trigger] seen_hashes@.contains(h) implies sp_covered(visited_hashes@, frontier.entries(), arena@, h) by {
                lemma_sp_covered_pop(visited_old, before_pop, arena@, entry, visited_hashes@, h);
            }
        }
        proof {
            if visited_before == 0 {
                assert(visited_hashes@ =~= Set::<u64>::empty().insert(current_hash));
                assert(visited_hashes@.len() == 1);
            }
            assert(visited_hashes@.len() == visited_before + 1);
            assert(arena@[slot as int].depth <= visited_before);
        }
        if state.is_won() {
            let line = line_to(&arena, slot, Ghost(b0), Ghost(lines));
            proof {
                assert(node_ok(b0, arena@, lines, slot as int));
                assert(lines[slot as int].len() == depth);
                assert(replay(b0, line@) == Some(state@));
                assert(line_wins(b0, line@));
                assert(line@.len() as u32 == depth);
            }
            proof {
                lemma_all_clear(reads);
            }
            return (SeedWinnabilityCheckResult {
                winnable: true,
                iterations: visited_hashes.len(),
                moves_to_win: Some(depth),
                hit_state_limit: false,
                solver_line: None,
                hint_line: Some(line),
                freecell_line: None,
                canceled: false,
            }, Ghost(reads));
        }
        proof {
            let before = seen_map;
            let par_before = par;
            seen_map = seen_map.insert(current_hash, state@);
            par = par.insert(current_hash, node_parent_hash);
            assert forall|h: u64, i: int|
                seen_map.dom().contains(h) && Some(current_hash) != Some(h) && 0 <= i < ranked_spec(seen_map[h], suit_mode, par[h]).len()
                implies seen_hashes@.contains(spider_hash_spec(#[trigger] ranked_spec(seen_map[h], suit_mode, par[h])[i].0)) by {
                assert(before.dom().contains(h));
                assert(seen_map[h] == before[h] && par[h] == par_before[h]);
            }
            assert(sp_closed(seen_map, par, seen_hashes@, suit_mode, Some(current_hash)));
            assert(visited_hashes@ =~= seen_map.dom());
            assert(node_ok(b0, arena@, lines, slot as int));
            assert(sp_reach(b0, state@));
            assert forall|h: u64| #[trigger] seen_map.dom().contains(h) implies {
                &&& spider_hash_spec(seen_map[h]) == h
                &&& sp_reach(b0, seen_map[h])
                &&& !is_won_spec(seen_map[h])
            } by {
                if h != current_hash {
                    assert(before.dom().contains(h));
                }
            }
        }
        if visited_hashes.len() >= max_states {
            proof {
                lemma_sp_unwon(b0, seen_map);
            }
            proof {
                lemma_all_clear(reads);
            }
            return (limit_result(visited_hashes.len(), false), Ghost(reads));
        }
        let mut successors = spider_solver_ranked_candidates(&state, suit_mode, node_parent_hash);
        let ghost all = successors@;
        let count = successors.len();
        let mut k: usize = 0;
        while successors.len() > 0
            invariant
                all_clear(reads),
                visited_hashes@.finite(),
                1 <= visited_hashes@.len() < max_states,
                !is_won_spec(b0),
                b0 == start@,
                forall|i: int| 0 <= i < arena@.len() ==> #[trigger] arena@[i].depth <= visited_hashes@.len(),
                depth < visited_hashes@.len(),
                frontier.wf(),
                tree_ok(b0, arena@, lines),
                1 <= arena@.len() <= generated_states,
                generated_states <= max_generated_states,
                max_generated_states <= 1_000_000,
                max_generated_states == max_states,
                forall|e: FrontierEntry| frontier.entries().contains(e) ==> e.2 < arena@.len(),
                slot < arena@.len(),
                state@ == arena@[slot as int].state@,
                frontier.entries().len() + (max_generated_states - generated_states) < measure,
                depth == arena@[slot as int].depth,
                board_ok(state@),
                all.len() == count,
                k <= count,
                successors@ == all.skip(k as int),
                forall|i: int| 0 <= i < all.len() ==> cand_sound(cand_view(#[trigger] all[i])),
                forall|i: int| 0 <= i < all.len() ==> reached_from(state@, cand_view(#[trigger] all[i])),
                visited_hashes@ == seen_map.dom(),
                sp_seen_ok(b0, seen_map),
                seen_hashes@.finite(),
                seen_hashes@.len() == generated_states,
                forall|h: u64| #[trigger] seen_hashes@.contains(h) ==> sp_generated(arena@, h),
                sp_closed(seen_map, par, seen_hashes@, suit_mode, Some(current_hash)),
                forall|h: u64| #[trigger] seen_hashes@.contains(h) ==> sp_covered(visited_hashes@, frontier.entries(), arena@, h),
                seen_hashes@.contains(spider_hash_spec(b0)),
                seen_map.dom().contains(current_hash),
                seen_map[current_hash] == state@,
                par[current_hash] == node_parent_hash,
                cands_view(all) == ranked_spec(state@, suit_mode, node_parent_hash),
                forall|i: int| 0 <= i < k ==> seen_hashes@.contains(spider_hash_spec((#[trigger] all[i]).0@)),
            decreases successors@.len(),
        {
            let (next, hint_move, transition_score) = successors.remove(0);
            assert(all[k as int] == (next, hint_move, transition_score));
            assert(cand_sound(cand_view(all[k as int])));
            assert(reached_from(state@, cand_view(all[k as int])));
            k += 1;
            assert(successors@ =~= all.skip(k as int));
            let raised = cancel_requested(cancel);
            proof {
                lemma_read_after_clear(reads, raised);
                reads = reads.push(raised);
            }
            if raised {
                proof {
                    lemma_sp_unwon(b0, seen_map);
                }
                return (limit_result(visited_hashes.len(), true), Ghost(reads));
            }
            let next_hash = spider_state_hash(&next);
            if seen_hashes.contains(&next_hash) {
                assert(seen_hashes@.contains(spider_hash_spec(all[k - 1].0@)));
                continue;
            }
            if generated_states >= max_generated_states {
                proof {
                    lemma_sp_unwon(b0, seen_map);
                    lemma_sp_generated(b0, arena@, lines, seen_hashes@);
                }
                proof {
                    lemma_all_clear(reads);
                }
                return (limit_result(visited_hashes.len(), false), Ghost(reads));
            }
            serial = serial.wrapping_add(1);
            generated_states = generated_states + 1;
            let ghost before_seen = seen_hashes@;
            seen_hashes.insert(next_hash);
            proof {
                assert forall|h: u64, i: int|
                    seen_map.dom().contains(h) && Some(current_hash) != Some(h) && 0 <= i < ranked_spec(seen_map[h], suit_mode, par[h]).len()
                    implies seen_hashes@.contains(spider_hash_spec(#[trigger] ranked_spec(seen_map[h], suit_mode, par[h])[i].0)) by {
                    assert(before_seen.contains(spider_hash_spec(ranked_spec(seen_map[h], suit_mode, par[h])[i].0)));
                }
            }
            let runs = next.completed_runs();
            let priority: i64 = transition_score + (runs as i64) * 100_000 - (depth as i64) * 2;
            let new_slot = arena.len();
            let ghost old_arena = arena@;
            assert(node_ok(b0, arena@, lines, slot as int));
            proof {
                assert(node_ok(b0, arena@, lines, slot as int));
                let nl = lines[slot as int].push(hint_move);
                assert(nl.drop_last() =~= lines[slot as int]);
                assert(replay(b0, nl) == Some(next@));
            }
            arena.push(SearchNode {
                state: next,
                parent: Some(slot),
                hint_move,
                depth: depth + 1,
                parent_hash: Some(current_hash),
            });
            proof {
                let old_lines = lines;
                lines = lines.push(lines[slot as int].push(hint_move));
                assert forall|i: int| 0 <= i < arena@.len() implies #[trigger] node_ok(b0, arena@, lines, i) by {
                    if i < new_slot {
                        assert(node_ok(b0, old_arena, old_lines, i));
                        assert(lines[i] == old_lines[i]);
                        assert(arena@[i] == old_arena[i]);
                        match arena@[i].parent {
                            Some(p) => {
                                assert(lines[p as int] == old_lines[p as int]);
                            },
                            None => {},
                        }
                    }
                }
            }
            let ghost before_push = frontier.entries();
            frontier.push((priority, serial, new_slot));
            proof {
                broadcast use vstd::multiset::group_multiset_axioms;
                assert forall|e: FrontierEntry| frontier.entries().contains(e) implies e.2 < arena@.len() by {
                    if e != (priority, serial, new_slot) {
                        assert(before_push.contains(e));
                    }
                }
                let x: FrontierEntry = (priority, serial, new_slot);
                assert(arena@ == old_arena.push(arena@[new_slot as int]));
                assert forall|h: u64| #[trigger] seen_hashes@.contains(h) implies sp_covered(visited_hashes@, frontier.entries(), arena@, h) by {
                    if h == next_hash {
                        assert(frontier.entries().contains(x));
                        assert(spider_hash_spec(arena@[new_slot as int].state@) == h);
                    } else {
                        assert(before_seen.contains(h));
                        lemma_sp_covered_grow(visited_hashes@, before_push, old_arena, x, arena@[new_slot as int], h);
                    }
                }
                assert forall|i: int| 0 <= i < k implies seen_hashes@.contains(spider_hash_spec((#[trigger] all[i]).0@)) by {
                    if i < k - 1 {
                        assert(before_seen.contains(spider_hash_spec(all[i].0@)));
                    }
                }
                assert forall|h: u64| #[trigger] seen_hashes@.contains(h) implies sp_generated(arena@, h) by {
                    if h == next_hash {
                        assert(spider_hash_spec(arena@[new_slot as int].state@) == h);
                    } else {
                        assert(before_seen.contains(h));
                        assert(sp_generated(old_arena, h));
                        let i = choose|i: int| 0 <= i < old_arena.len() && spider_hash_spec(#[trigger] old_arena[i].state@) == h;
                        assert(arena@[i] == old_arena[i]);
                    }
                }
            }
        }
        proof {
            assert forall|h: u64, i: int|
                seen_map.dom().contains(h) && None::<u64> != Some(h) && 0 <= i < ranked_spec(seen_map[h], suit_mode, par[h]).len()
                implies seen_hashes@.contains(spider_hash_spec(#[trigger] ranked_spec(seen_map[h], suit_mode, par[h])[i].0)) by {
                if h == current_hash {
                    assert(cands_view(all)[i] == cand_view(all[i]));
                    assert(seen_hashes@.contains(spider_hash_spec(all[i].0@)));
                }
            }
        }
    }
    proof {
        lemma_sp_unwon(b0, seen_map);
    }
    proof {
        lemma_all_clear(reads);
    }
    (SeedWinnabilityCheckResult {
        winnable: false,
        iterations: visited_hashes.len(),
        moves_to_win: None,
        hit_state_limit: false,
        solver_line: None,
        hint_line: None,
        freecell_line: None,
        canceled: false,
    }, Ghost(reads))
}

/// The search budget for one seed: guided plus exhaustive budget
/// (saturating), capped per suit mode.
pub open spec fn seed_check_budget_spec(mode: SpiderSuitMode, guided: usize, exhaustive: usize) -> int {
    let budget = if guided + exhaustive > usize::MAX { usize::MAX as int } else { guided + exhaustive };
    let cap: int = match mode {
        SpiderSuitMode::One => 180_000,
        SpiderSuitMode::Two => 130_000,
        SpiderSuitMode::Three => 80_000,
        SpiderSuitMode::Four => 60_000,
    };
    if budget < cap { budget } else { cap }
}

pub fn capped_spider_seed_check_budget(suit_mode: SpiderSuitMode, guided_budget: usize, exhaustive_budget: usize) -> (r: usize)
    ensures
        r == seed_check_budget_spec(suit_mode, guided_budget, exhaustive_budget),
{
    let budget = guided_budget.saturating_add(exhaustive_budget);
    let cap: usize = match suit_mode {
        SpiderSuitMode::One => 180_000,
        SpiderSuitMode::Two => 130_000,
        SpiderSuitMode::Three => 80_000,
        SpiderSuitMode::Four => 60_000,
    };
    if budget < cap { budget } else { cap }
}

/// The answer for a position that is already won: an empty winning line.
pub open spec fn already_won_result(r: SeedWinnabilityCheckResult) -> bool {
    &&& r.winnable
    &&& r.iterations == 1
    &&& r.moves_to_win == Some(0u32)
    &&& !r.hit_state_limit
    &&& r.solver_line is None
    &&& r.hint_line matches Some(line) && line@.len() == 0
    &&& r.freecell_line is None
    &&& !r.canceled
}

/// The answer when nothing may be explored: not winnable, limit hit.
pub open spec fn no_budget_result(r: SeedWinnabilityCheckResult, canceled: bool) -> bool {
    &&& !r.winnable
    &&& r.iterations == 0
    &&& r.moves_to_win is None
    &&& r.hit_state_limit
    &&& r.solver_line is None
    &&& r.hint_line is None
    &&& r.freecell_line is None
    &&& r.canceled == canceled
}

/// Winnability of a given Spider position within the capped budget.
/// Also returns the readings of the cancel flag made along the way: all
/// clear but perhaps the last, and only a raised one cancels.
pub fn spider_position_winnability(
    start: &SpiderGame,
    guided_budget: usize,
    exhaustive_budget: usize,
    cancel: &AtomicBool,
) -> (r: (SeedWinnabilityCheckResult, Ghost<Seq<bool>>))
    requires
        board_ok(start@),
    ensures
        is_won_spec(start@) ==> already_won_result(r.0),
        !is_won_spec(start@) && seed_check_budget_spec(start@.suit_mode, guided_budget, exhaustive_budget) == 0
            ==> no_budget_result(r.0, false),
        search_result_ok(start@, r.0),
        !is_won_spec(start@) ==> r.0.iterations <= seed_check_budget_spec(start@.suit_mode, guided_budget, exhaustive_budget),
        !is_won_spec(start@) && seed_check_budget_spec(start@.suit_mode, guided_budget, exhaustive_budget) > 0
            && !r.0.canceled ==> r.0.iterations >= 1,
        !r.0.winnable ==> sp_unwon_reached(start@, r.0.iterations as nat),
        r.0.hit_state_limit && !r.0.canceled ==> r.0.iterations == seed_check_budget_spec(
            start@.suit_mode,
            guided_budget,
            exhaustive_budget,
        ) || sp_reached(start@, seed_check_budget_spec(start@.suit_mode, guided_budget, exhaustive_budget) as nat),
        !r.0.winnable && !r.0.hit_state_limit ==> (sp_hash_injective(start@) ==> sp_no_kept_win(start@, start@.suit_mode)),
        clear_before_last(r.1@),
        r.0.canceled <==> last_raised(r.1@),
{
    if start.is_won() {
        return (SeedWinnabilityCheckResult {
            winnable: true,
            iterations: 1,
            moves_to_win: Some(0),
            hit_state_limit: false,
            solver_line: None,
            hint_line: Some(Vec::new()),
            freecell_line: None,
            canceled: false,
        }, Ghost(Seq::empty()));
    }
    let suit_mode = start.suit_mode();
    let max_states = capped_spider_seed_check_budget(suit_mode, guided_budget, exhaustive_budget);
    if max_states == 0 {
        proof {
            lemma_sp_none_reached(start@);
        }
        return (SeedWinnabilityCheckResult {
            winnable: false,
            iterations: 0,
            moves_to_win: None,
            hit_state_limit: true,
            solver_line: None,
            hint_line: None,
            freecell_line: None,
            canceled: false,
        }, Ghost(Seq::empty()));
    }
    spider_search(start, suit_mode, max_states, cancel)
}

/// Winnability of the Spider deal of `seed` in `suit_mode`: a best-first
/// search over ranked candidate moves, within the capped budget. A winning
/// line it reports plays legally from the deal to a won position.
/// A fresh deal is never won, and the answer is always `Some`.
pub fn is_spider_seed_winnable(
    seed: u64,
    suit_mode: SpiderSuitMode,
    guided_budget: usize,
    exhaustive_budget: usize,
    cancel: &AtomicBool,
) -> (r: Option<SeedWinnabilityCheckResult>)
    ensures
        r is Some,
        search_result_ok(spider_deal(seed, suit_mode), r->0),
        r->0.canceled && r->0.iterations == 0 ==> no_budget_result(r->0, true),
        !r->0.canceled && seed_check_budget_spec(suit_mode, guided_budget, exhaustive_budget) == 0
            ==> no_budget_result(r->0, false),
        r->0.iterations <= seed_check_budget_spec(suit_mode, guided_budget, exhaustive_budget),
        !r->0.canceled && seed_check_budget_spec(suit_mode, guided_budget, exhaustive_budget) > 0
            ==> r->0.iterations >= 1,
        !r->0.winnable ==> sp_unwon_reached(spider_deal(seed, suit_mode), r->0.iterations as nat),
        r->0.hit_state_limit && !r->0.canceled ==> r->0.iterations == seed_check_budget_spec(
            suit_mode,
            guided_budget,
            exhaustive_budget,
        ) || sp_reached(spider_deal(seed, suit_mode), seed_check_budget_spec(suit_mode, guided_budget, exhaustive_budget) as nat),
        !r->0.winnable && !r->0.hit_state_limit ==> (sp_hash_injective(spider_deal(seed, suit_mode)) ==> sp_no_kept_win(
            spider_deal(seed, suit_mode),
            suit_mode,
        )),
{
    let raised = cancel_requested(cancel);
    Some(spider_seed_check(seed, suit_mode, guided_budget, exhaustive_budget, raised, cancel).0)
}

/// The check of a Spider seed once the cancel flag has been read on entry
/// (`raised`): a raised flag gives the canceled answer with nothing explored;
/// otherwise the deal is searched within the capped budget, and a zero
/// budget gives the uncanceled empty answer.
/// Also returns the readings of the cancel flag made along the way: all
/// clear but perhaps the last, and only a raised one cancels.
pub fn spider_seed_check(
    seed: u64,
    suit_mode: SpiderSuitMode,
    guided_budget: usize,
    exhaustive_budget: usize,
    raised: bool,
    cancel: &AtomicBool,
) -> (r: (SeedWinnabilityCheckResult, Ghost<Seq<bool>>))
    ensures
        raised ==> no_budget_result(r.0, true),
        !raised && seed_check_budget_spec(suit_mode, guided_budget, exhaustive_budget) == 0 ==> no_budget_result(
            r.0,
            false,
        ),
        search_result_ok(spider_deal(seed, suit_mode), r.0),
        r.0.iterations <= seed_check_budget_spec(suit_mode, guided_budget, exhaustive_budget),
        !r.0.canceled && seed_check_budget_spec(suit_mode, guided_budget, exhaustive_budget) > 0 ==> r.0.iterations >= 1,
        !r.0.winnable ==> sp_unwon_reached(spider_deal(seed, suit_mode), r.0.iterations as nat),
        r.0.hit_state_limit && !r.0.canceled ==> r.0.iterations == seed_check_budget_spec(
            suit_mode,
            guided_budget,
            exhaustive_budget,
        ) || sp_reached(spider_deal(seed, suit_mode), seed_check_budget_spec(suit_mode, guided_budget, exhaustive_budget) as nat),
        !r.0.winnable && !r.0.hit_state_limit ==> (sp_hash_injective(spider_deal(seed, suit_mode)) ==> sp_no_kept_win(
            spider_deal(seed, suit_mode),
            suit_mode,
        )),
        raised ==> r.1@.len() == 0,
        clear_before_last(r.1@),
        r.0.canceled <==> (raised || last_raised(r.1@)),
{
    let start = SpiderGame::new_with_seed_and_mode(seed, suit_mode);
    if raised {
        let res = SeedWinnabilityCheckResult {
            winnable: false,
            iterations: 0,
            moves_to_win: None,
            hit_state_limit: true,
            solver_line: None,
            hint_line: None,
            freecell_line: None,
            canceled: true,
        };
        assert(search_result_ok(start@, res));
        proof {
            lemma_sp_none_reached(start@);
        }
        return (res, Ghost(Seq::empty()));
    }
    let res = spider_position_winnability(&start, guided_budget, exhaustive_budget, cancel);
    assert(!is_won_spec(start@));
    assert(search_result_ok(start@, res.0));
    res
}

} // verus!
