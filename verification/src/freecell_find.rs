//! FreeCell seeds: a greedy wand playthrough, the best-first winnability
//! check, and the progress record of a seed search.

use vstd::prelude::*;
use vstd::multiset::Multiset;
use std::collections::{HashSet, VecDeque};
use std::sync::atomic::AtomicBool;
use crate::cancel::{all_clear, cancel_requested, clear_before_last, last_raised, lemma_all_clear, lemma_read_after_clear};
use crate::clock::{clock_now, elapsed_ms_since};
use crate::freecell::{fc_ok, fc_won, freecell_deal, FreecellBoard, FreecellCardCountMode, FreecellGame};
use crate::freecell_action::FreecellPlannerAction;
use crate::freecell_eval::{fc_hash_spec, freecell_wand_state_hash};
use crate::freecell_reach::{
    fc_hash_injective, fc_no_reachable_win, fc_reach, fc_unwon_hash, fc_unwon_reached, lemma_closed_no_win, lemma_reach_start,
    lemma_reach_step,
};
use crate::freecell_search::{
    apply_freecell_action, freecell_select_best_action_from_deque_avoiding_seen, select_fold, selected_action,
};
use crate::freecell_wand::{fc_apply, fc_cands_view, fc_legal, freecell_wand_candidates, wand_candidates_spec};
use crate::frontier::{Frontier, FrontierEntry};
use crate::recent::{keep_recent, lemma_keep_recent_push};
use crate::winnability::{freecell_reason_code, FreecellFindStopReason, SeedWinnabilityCheckResult};

verus! {

/// The position reached by playing `actions` from `b`, if every one is legal.
pub open spec fn fc_replay(b: FreecellBoard, actions: Seq<FreecellPlannerAction>) -> Option<FreecellBoard>
    decreases actions.len(),
{
    if actions.len() == 0 {
        Some(b)
    } else {
        match fc_replay(b, actions.drop_last()) {
            Some(x) => if fc_legal(x, actions.last()) {
                Some(fc_apply(x, actions.last()))
            } else {
                None
            },
            None => None,
        }
    }
}

/// Playing `actions` from `b` is legal throughout and wins.
pub open spec fn fc_line_wins(b: FreecellBoard, actions: Seq<FreecellPlannerAction>) -> bool {
    fc_replay(b, actions) matches Some(x) && fc_won(x)
}

/// The outcome of one FreeCell playthrough.
#[derive(Debug)]
pub struct FreecellSinglePlaythroughResult {
    pub line: Option<Vec<FreecellPlannerAction>>,
    pub expanded_states: usize,
    pub generated_branches: usize,
    pub elapsed_ms: u64,
    pub stop_reason: FreecellFindStopReason,
}

/// Steps a FreeCell playthrough may take.
pub const FREECELL_PLAYTHROUGH_MAX_STEPS: usize = 1000;

/// The position after the first `i` moves of `line` from `deal`.
pub open spec fn fc_position(deal: FreecellBoard, line: Seq<FreecellPlannerAction>, i: int) -> FreecellBoard {
    fc_replay(deal, line.take(i))->0
}

/// Playing `line` from `deal` never comes back to a position it was in.
pub open spec fn fc_no_revisit(deal: FreecellBoard, line: Seq<FreecellPlannerAction>) -> bool {
    forall|i: int, j: int|
        0 <= i < j <= line.len() ==> #[trigger] fc_position(deal, line, i) != #[trigger] fc_position(deal, line, j)
}

/// The hashes of the positions after each of the first `i` moves, the
/// start included.
pub open spec fn fc_hashes_upto(deal: FreecellBoard, line: Seq<FreecellPlannerAction>, i: int) -> Seq<u64> {
    Seq::new((i + 1) as nat, |k: int| fc_hash_spec(fc_position(deal, line, k)))
}

/// The move the wand picks in position `b`, given the recent positions and
/// the positions seen so far (by hash).
pub open spec fn fc_wand_choice(b: FreecellBoard, recent: Seq<u64>, seen: Set<u64>) -> Option<FreecellPlannerAction> {
    selected_action(select_fold(wand_candidates_spec(b), fc_hash_spec(b), recent, seen))
}

/// The wand's pick after the first `i` moves of `line`: in that position,
/// avoiding the positions met so far and weighing the last 96 of them.
pub open spec fn fc_wand_choice_at(deal: FreecellBoard, line: Seq<FreecellPlannerAction>, i: int) -> Option<
    FreecellPlannerAction,
> {
    fc_wand_choice(
        fc_position(deal, line, i),
        keep_recent(fc_hashes_upto(deal, line, i)),
        fc_hashes_upto(deal, line, i).to_set(),
    )
}

/// Every move of `line` is the wand's pick in the position it is played in.
pub open spec fn fc_greedy(deal: FreecellBoard, line: Seq<FreecellPlannerAction>) -> bool {
    forall|i: int| 0 <= i < line.len() ==> #[trigger] fc_wand_choice_at(deal, line, i) == Some(line[i])
}

/// The last position of `moves` has the hash of a position met before it.
pub open spec fn fc_returns_at_end(deal: FreecellBoard, moves: Seq<FreecellPlannerAction>) -> bool {
    exists|k: int|
        0 <= k < moves.len() && fc_hash_spec(#[trigger] fc_position(deal, moves, k)) == fc_hash_spec(
            fc_position(deal, moves, moves.len() as int),
        )
}

/// What a greedy FreeCell playthrough from `deal` reports: at most a
/// thousand moves, each the wand's pick, played legally; a line exactly when
/// it won, and then the line played, which wins and never comes back to a
/// position; when it stopped for want of a move, the wand had none to pick;
/// when it stopped on a repeat, the last pick led to a position whose hash
/// was met before; when it ran out of steps, it played all thousand.
pub open spec fn freecell_playthrough_ok(deal: FreecellBoard, r: FreecellSinglePlaythroughResult) -> bool {
    &&& r.expanded_states <= FREECELL_PLAYTHROUGH_MAX_STEPS
    &&& (r.line is Some <==> r.stop_reason == FreecellFindStopReason::Won)
    &&& (r.line matches Some(l) ==> fc_line_wins(deal, l@) && l@.len() == r.expanded_states)
    &&& (r.line matches Some(l) ==> fc_no_revisit(deal, l@))
    &&& r.stop_reason != FreecellFindStopReason::InvalidMove
    &&& (r.stop_reason == FreecellFindStopReason::StepLimit ==> r.expanded_states == FREECELL_PLAYTHROUGH_MAX_STEPS)
    &&& exists|moves: Seq<FreecellPlannerAction>| {
        &&& #[trigger] fc_replay(deal, moves) is Some
        &&& moves.len() == r.expanded_states
        &&& fc_greedy(deal, moves)
        &&& (r.line matches Some(l) ==> l@ == moves)
        &&& (r.stop_reason == FreecellFindStopReason::NoAction ==> fc_wand_choice_at(deal, moves, moves.len() as int)
            is None)
        &&& (r.stop_reason == FreecellFindStopReason::RepeatState ==> fc_returns_at_end(deal, moves))
    }
}

/// Positions agreeing up to `n` give the same hashes up to `n`.
proof fn lemma_hashes_agree(deal: FreecellBoard, a: Seq<FreecellPlannerAction>, b: Seq<FreecellPlannerAction>, n: int)
    requires
        forall|k: int| 0 <= k <= n ==> #[trigger] fc_position(deal, a, k) == fc_position(deal, b, k),
    ensures
        forall|i: int| 0 <= i <= n ==> #[trigger] fc_hashes_upto(deal, a, i) == fc_hashes_upto(deal, b, i),
        forall|i: int| 0 <= i <= n ==> #[trigger] fc_wand_choice_at(deal, a, i) == fc_wand_choice_at(deal, b, i),
{
    assert forall|i: int| 0 <= i <= n implies #[trigger] fc_hashes_upto(deal, a, i) == fc_hashes_upto(deal, b, i) by {
        assert forall|k: int| 0 <= k < i + 1 implies fc_hashes_upto(deal, a, i)[k] == fc_hashes_upto(deal, b, i)[k] by {
            assert(fc_position(deal, a, k) == fc_position(deal, b, k));
        }
        assert(fc_hashes_upto(deal, a, i) =~= fc_hashes_upto(deal, b, i));
    }
    assert forall|i: int| 0 <= i <= n implies #[trigger] fc_wand_choice_at(deal, a, i) == fc_wand_choice_at(deal, b, i) by {
        assert(fc_hashes_upto(deal, a, i) == fc_hashes_upto(deal, b, i));
        assert(fc_position(deal, a, i) == fc_position(deal, b, i));
    }
}

/// The state of a greedy walk after `line`: it reached `g` legally, through
/// positions none of which was won and no two of which share a hash, each
/// move the wand's pick; `seen` and `recent` are the hashes met so far, all
/// of them and the last 96.
#[verifier::opaque]
pub open spec fn fc_walk(
    deal: FreecellBoard,
    line: Seq<FreecellPlannerAction>,
    g: FreecellBoard,
    seen: Set<u64>,
    recent: Seq<u64>,
) -> bool {
    let n = line.len() as int;
    &&& fc_replay(deal, line) == Some(g)
    &&& forall|i: int| 0 <= i <= n ==> fc_replay(deal, #[trigger] line.take(i)) is Some
    &&& forall|i: int| 0 <= i <= n ==> !fc_won(#[trigger] fc_position(deal, line, i))
    &&& forall|i: int, j: int|
        0 <= i < j <= n ==> fc_hash_spec(#[trigger] fc_position(deal, line, i)) != fc_hash_spec(
            #[trigger] fc_position(deal, line, j),
        )
    &&& seen == fc_hashes_upto(deal, line, n).to_set()
    &&& recent == keep_recent(fc_hashes_upto(deal, line, n))
    &&& fc_greedy(deal, line)
}

proof fn lemma_walk_start(deal: FreecellBoard)
    requires
        !fc_won(deal),
    ensures
        fc_walk(
            deal,
            Seq::empty(),
            deal,
            Set::<u64>::empty().insert(fc_hash_spec(deal)),
            seq![fc_hash_spec(deal)],
        ),
{
    reveal(fc_walk);
    let line = Seq::<FreecellPlannerAction>::empty();
    assert(line.take(0) =~= line);
    assert(fc_position(deal, line, 0) == deal);
    let hs = fc_hashes_upto(deal, line, 0);
    assert(hs =~= seq![fc_hash_spec(deal)]);
    assert(hs.to_set() =~= Set::<u64>::empty().insert(fc_hash_spec(deal))) by {
        assert forall|x: u64| hs.to_set().contains(x) <==> x == fc_hash_spec(deal) by {
            if hs.contains(x) {
                let k = choose|k: int| 0 <= k < hs.len() && hs[k] == x;
                assert(k == 0);
            }
            if x == fc_hash_spec(deal) {
                assert(hs[0] == x);
            }
        }
    }
}

/// What a walk tells of where it stands: the position after the line is `g`,
/// and the wand's pick there is the one made with `recent` and `seen`.
proof fn lemma_walk_here(
    deal: FreecellBoard,
    line: Seq<FreecellPlannerAction>,
    g: FreecellBoard,
    seen: Set<u64>,
    recent: Seq<u64>,
)
    requires
        fc_walk(deal, line, g, seen, recent),
    ensures
        fc_replay(deal, line) == Some(g),
        fc_greedy(deal, line),
        fc_wand_choice_at(deal, line, line.len() as int) == fc_wand_choice(g, recent, seen),
        seen.contains(fc_hash_spec(g)),
        !fc_won(g),
{
    reveal(fc_walk);
    let n = line.len() as int;
    assert(line.take(n) =~= line);
    assert(fc_position(deal, line, n) == g);
    assert(fc_hashes_upto(deal, line, n)[n] == fc_hash_spec(g));
}

proof fn lemma_walk_positions_kept(
    deal: FreecellBoard,
    line: Seq<FreecellPlannerAction>,
    a: FreecellPlannerAction,
)
    ensures
        forall|k: int| 0 <= k <= line.len() ==> #[trigger] line.push(a).take(k) == line.take(k),
        forall|k: int| 0 <= k <= line.len() ==> #[trigger] fc_position(deal, line.push(a), k) == fc_position(deal, line, k),
        line.push(a).take(line.len() as int + 1) == line.push(a),
{
    assert forall|k: int| 0 <= k <= line.len() implies #[trigger] line.push(a).take(k) == line.take(k) by {
        assert(line.push(a).take(k) =~= line.take(k));
    }
    assert forall|k: int| 0 <= k <= line.len() implies #[trigger] fc_position(deal, line.push(a), k) == fc_position(
        deal,
        line,
        k,
    ) by {
        assert(line.push(a).take(k) == line.take(k));
    }
    assert(line.push(a).take(line.len() as int + 1) =~= line.push(a));
}

/// The next move: the wand's pick, leading to a position that is not won
/// and whose hash was not met.
proof fn lemma_walk_step(
    deal: FreecellBoard,
    line: Seq<FreecellPlannerAction>,
    g: FreecellBoard,
    seen: Set<u64>,
    recent: Seq<u64>,
    a: FreecellPlannerAction,
    g2: FreecellBoard,
)
    requires
        fc_walk(deal, line, g, seen, recent),
        fc_wand_choice(g, recent, seen) == Some(a),
        fc_replay(deal, line.push(a)) == Some(g2),
        !fc_won(g2),
        !seen.contains(fc_hash_spec(g2)),
    ensures
        fc_walk(
            deal,
            line.push(a),
            g2,
            seen.insert(fc_hash_spec(g2)),
            if recent.push(fc_hash_spec(g2)).len() > 96 {
                recent.push(fc_hash_spec(g2)).subrange(1, recent.push(fc_hash_spec(g2)).len() as int)
            } else {
                recent.push(fc_hash_spec(g2))
            },
        ),
{
    lemma_walk_here(deal, line, g, seen, recent);
    reveal(fc_walk);
    let n = line.len() as int;
    let l2 = line.push(a);
    let h2 = fc_hash_spec(g2);
    lemma_walk_positions_kept(deal, line, a);
    assert(fc_position(deal, l2, n + 1) == g2);
    lemma_hashes_agree(deal, l2, line, n);
    let hs = fc_hashes_upto(deal, line, n);
    let hs2 = fc_hashes_upto(deal, l2, n + 1);
    assert(hs2 =~= hs.push(h2)) by {
        assert forall|k: int| 0 <= k < n + 1 implies hs2[k] == hs[k] by {
            assert(fc_position(deal, l2, k) == fc_position(deal, line, k));
        }
    }
    assert(hs2.to_set() =~= seen.insert(h2)) by {
        assert forall|x: u64| hs2.to_set().contains(x) <==> seen.insert(h2).contains(x) by {
            if hs2.contains(x) {
                let k = choose|k: int| 0 <= k < hs2.len() && hs2[k] == x;
                if k < n + 1 {
                    assert(hs.contains(x));
                }
            }
            if seen.contains(x) {
                let k = choose|k: int| 0 <= k < hs.len() && hs[k] == x;
                assert(hs2[k] == x);
            }
            if x == h2 {
                assert(hs2[n + 1] == x);
            }
        }
    }
    lemma_keep_recent_push(hs, h2);
    assert forall|i: int| 0 <= i <= n + 1 implies fc_replay(deal, #[trigger] l2.take(i)) is Some by {
        if i <= n {
            assert(l2.take(i) == line.take(i));
        }
    }
    assert forall|i: int| 0 <= i <= n + 1 implies !fc_won(#[trigger] fc_position(deal, l2, i)) by {
        if i <= n {
            assert(fc_position(deal, l2, i) == fc_position(deal, line, i));
        }
    }
    assert forall|i: int, j: int| 0 <= i < j <= n + 1 implies fc_hash_spec(#[trigger] fc_position(deal, l2, i))
        != fc_hash_spec(#[trigger] fc_position(deal, l2, j)) by {
        assert(fc_position(deal, l2, i) == fc_position(deal, line, i));
        if j <= n {
            assert(fc_position(deal, l2, j) == fc_position(deal, line, j));
        } else {
            assert(hs[i] == fc_hash_spec(fc_position(deal, line, i)));
            assert(seen.contains(hs[i]));
        }
    }
    assert forall|i: int| 0 <= i < l2.len() implies #[trigger] fc_wand_choice_at(deal, l2, i) == Some(l2[i]) by {
        assert(fc_wand_choice_at(deal, l2, i) == fc_wand_choice_at(deal, line, i));
        if i < n {
            assert(fc_wand_choice_at(deal, line, i) == Some(line[i]));
        }
    }
}

/// The last move's line, when it won or came back to a met hash: the moves
/// are the wand's picks; a won line never comes back to a position.
proof fn lemma_walk_last(
    deal: FreecellBoard,
    line: Seq<FreecellPlannerAction>,
    g: FreecellBoard,
    seen: Set<u64>,
    recent: Seq<u64>,
    a: FreecellPlannerAction,
    g2: FreecellBoard,
)
    requires
        fc_walk(deal, line, g, seen, recent),
        fc_wand_choice(g, recent, seen) == Some(a),
        fc_replay(deal, line.push(a)) == Some(g2),
    ensures
        fc_greedy(deal, line.push(a)),
        fc_won(g2) ==> fc_no_revisit(deal, line.push(a)),
        seen.contains(fc_hash_spec(g2)) ==> fc_returns_at_end(deal, line.push(a)),
{
    lemma_walk_here(deal, line, g, seen, recent);
    reveal(fc_walk);
    let n = line.len() as int;
    let l2 = line.push(a);
    lemma_walk_positions_kept(deal, line, a);
    assert(fc_position(deal, l2, n + 1) == g2);
    lemma_hashes_agree(deal, l2, line, n);
    assert forall|i: int| 0 <= i < l2.len() implies #[trigger] fc_wand_choice_at(deal, l2, i) == Some(l2[i]) by {
        assert(fc_wand_choice_at(deal, l2, i) == fc_wand_choice_at(deal, line, i));
        if i < n {
            assert(fc_wand_choice_at(deal, line, i) == Some(line[i]));
        }
    }
    if seen.contains(fc_hash_spec(g2)) {
        let hs = fc_hashes_upto(deal, line, n);
        assert(hs.contains(fc_hash_spec(g2)));
        let k = choose|k: int| 0 <= k < hs.len() && hs[k] == fc_hash_spec(g2);
        assert(fc_position(deal, l2, k) == fc_position(deal, line, k));
        assert(fc_hash_spec(fc_position(deal, l2, k)) == fc_hash_spec(fc_position(deal, l2, l2.len() as int)));
    }
    if fc_won(g2) {
        assert forall|i: int, j: int| 0 <= i < j <= n + 1 implies #[trigger] fc_position(deal, l2, i)
            != #[trigger] fc_position(deal, l2, j) by {
            assert(fc_position(deal, l2, i) == fc_position(deal, line, i));
            if j <= n {
                assert(fc_position(deal, l2, j) == fc_position(deal, line, j));
            } else {
                assert(!fc_won(fc_position(deal, line, i)));
            }
        }
    }
}

/// A greedy playthrough of the deal of `seed`: the wand picks each move,
/// avoiding seen and recent positions, until the game is won, no move is
/// left, a position repeats, a thousand moves were played, or `cancel` is
/// raised. The wand only picks legal moves, so an invalid move never stops it.
/// `freecell_playthrough_traced` also says which flag readings stopped it.
pub fn freecell_single_playthrough_line(
    seed: u64,
    card_count_mode: FreecellCardCountMode,
    cancel: &AtomicBool,
) -> (r: FreecellSinglePlaythroughResult)
    ensures
        freecell_playthrough_ok(freecell_deal(seed, card_count_mode), r),
{
    freecell_playthrough_traced(seed, card_count_mode, cancel).0
}

/// The greedy playthrough of `freecell_single_playthrough_line`, with the
/// readings of the cancel flag it made, one before each move: all clear but
/// perhaps the last, and a raised last one is what stops it as canceled.
#[verifier::rlimit(40)]
pub fn freecell_playthrough_traced(
    seed: u64,
    card_count_mode: FreecellCardCountMode,
    cancel: &AtomicBool,
) -> (r: (FreecellSinglePlaythroughResult, Ghost<Seq<bool>>))
    ensures
        freecell_playthrough_ok(freecell_deal(seed, card_count_mode), r.0),
        clear_before_last(r.1@),
        (r.0.stop_reason == FreecellFindStopReason::Canceled) <==> last_raised(r.1@),
{
    broadcast use vstd::std_specs::hash::group_hash_axioms;
    let started = clock_now();
    let ghost deal = freecell_deal(seed, card_count_mode);
    let ghost mut reads: Seq<bool> = Seq::empty();
    let mut game = FreecellGame::new_with_seed_and_card_count(seed, card_count_mode);
    if game.is_won() {
        let ghost e = Seq::<FreecellPlannerAction>::empty();
        assert(fc_replay(deal, e) is Some);
        assert(e.take(0) =~= e);
        assert(fc_no_revisit(deal, e));
        assert(fc_greedy(deal, e));
        return (FreecellSinglePlaythroughResult {
            line: Some(Vec::new()),
            expanded_states: 0,
            generated_branches: 0,
            elapsed_ms: elapsed_ms_since(&started),
            stop_reason: FreecellFindStopReason::Won,
        }, Ghost(reads));
    }
    let mut seen: HashSet<u64> = HashSet::new();
    let initial_hash = freecell_wand_state_hash(&game);
    seen.insert(initial_hash);
    let mut recent_hashes: VecDeque<u64> = VecDeque::new();
    recent_hashes.push_back(initial_hash);
    let mut line: Vec<FreecellPlannerAction> = Vec::new();
    let mut expanded_states: usize = 0;
    let mut generated_branches: usize = 0;
    proof {
        lemma_walk_start(deal);
        assert(line@ =~= Seq::<FreecellPlannerAction>::empty());
        assert(seen@ =~= Set::<u64>::empty().insert(fc_hash_spec(deal)));
        assert(recent_hashes@ =~= seq![fc_hash_spec(deal)]);
    }
    for step in 0..FREECELL_PLAYTHROUGH_MAX_STEPS
        invariant
            deal == freecell_deal(seed, card_count_mode),
            fc_ok(game@),
            line@.len() == expanded_states,
            expanded_states == step,
            fc_walk(deal, line@, game@, seen@, recent_hashes@),
            all_clear(reads),
    {
        proof {
            lemma_walk_here(deal, line@, game@, seen@, recent_hashes@);
        }
        let raised = cancel_requested(cancel);
        proof {
            lemma_read_after_clear(reads, raised);
            reads = reads.push(raised);
        }
        if raised {
            let r = FreecellSinglePlaythroughResult {
                line: None,
                expanded_states,
                generated_branches,
                elapsed_ms: elapsed_ms_since(&started),
                stop_reason: FreecellFindStopReason::Canceled,
            };
            assert(fc_replay(deal, line@) is Some);
            return (r, Ghost(reads));
        }
        let current_hash = freecell_wand_state_hash(&game);
        let candidates = freecell_wand_candidates(&game);
        generated_branches = generated_branches.saturating_add(candidates.len());
        let picked = freecell_select_best_action_from_deque_avoiding_seen(candidates, current_hash, &recent_hashes, &seen);
        assert(picked == fc_wand_choice(game@, recent_hashes@, seen@));
        let action = match picked {
            Some(a) => a,
            None => {
                let r = FreecellSinglePlaythroughResult {
                    line: None,
                    expanded_states,
                    generated_branches,
                    elapsed_ms: elapsed_ms_since(&started),
                    stop_reason: FreecellFindStopReason::NoAction,
                };
                assert(fc_replay(deal, line@) is Some);
                proof {
                    lemma_all_clear(reads);
                }
                return (r, Ghost(reads));
            },
        };
        let ghost before = game@;
        let ghost old_line = line@;
        let ghost old_seen = seen@;
        let ghost old_recent = recent_hashes@;
        let applied = apply_freecell_action(&mut game, action);
        assert(applied);
        line.push(action);
        expanded_states = expanded_states + 1;
        assert(line@.drop_last() =~= old_line);
        assert(line@ == old_line.push(action));
        assert(fc_replay(deal, line@) == Some(game@));
        proof {
            lemma_walk_last(deal, old_line, before, old_seen, old_recent, action, game@);
        }
        if game.is_won() {
            let r = FreecellSinglePlaythroughResult {
                line: Some(line),
                expanded_states,
                generated_branches,
                elapsed_ms: elapsed_ms_since(&started),
                stop_reason: FreecellFindStopReason::Won,
            };
            assert(fc_replay(deal, r.line->0@) is Some);
            proof {
                lemma_all_clear(reads);
            }
            return (r, Ghost(reads));
        }
        let hash = freecell_wand_state_hash(&game);
        if seen.contains(&hash) {
            let r = FreecellSinglePlaythroughResult {
                line: None,
                expanded_states,
                generated_branches,
                elapsed_ms: elapsed_ms_since(&started),
                stop_reason: FreecellFindStopReason::RepeatState,
            };
            assert(fc_replay(deal, line@) is Some);
            proof {
                lemma_all_clear(reads);
            }
            return (r, Ghost(reads));
        }
        seen.insert(hash);
        recent_hashes.push_back(hash);
        if recent_hashes.len() > 96 {
            recent_hashes.pop_front();
        }
        proof {
            lemma_walk_step(deal, old_line, before, old_seen, old_recent, action, game@);
        }
    }
    let r = FreecellSinglePlaythroughResult {
        line: None,
        expanded_states,
        generated_branches,
        elapsed_ms: elapsed_ms_since(&started),
        stop_reason: FreecellFindStopReason::StepLimit,
    };
    proof {
        lemma_walk_here(deal, line@, game@, seen@, recent_hashes@);
    }
    assert(fc_replay(deal, line@) is Some);
    proof {
        lemma_all_clear(reads);
    }
    (r, Ghost(reads))
}


/// The search budget for one FreeCell seed: guided plus exhaustive budget
/// (saturating), kept between 30 000 and 180 000 positions.
pub open spec fn freecell_budget_spec(guided: usize, exhaustive: usize) -> int {
    let sum: int = if guided + exhaustive > usize::MAX { usize::MAX as int } else { guided + exhaustive };
    if sum < 30_000 { 30_000 } else if sum > 180_000 { 180_000 } else { sum }
}

pub fn capped_freecell_seed_check_budget(guided_budget: usize, exhaustive_budget: usize) -> (r: usize)
    ensures
        r == freecell_budget_spec(guided_budget, exhaustive_budget),
        30_000 <= r <= 180_000,
{
    let sum = guided_budget.saturating_add(exhaustive_budget);
    if sum < 30_000 {
        30_000
    } else if sum > 180_000 {
        180_000
    } else {
        sum
    }
}

/// A position reached by the search, with how it was reached.
struct FreecellSearchNode {
    state: FreecellGame,
    parent: Option<usize>,
    action: FreecellPlannerAction,
    depth: u32,
}

spec fn fc_node_ok(start: FreecellBoard, arena: Seq<FreecellSearchNode>, lines: Seq<Seq<FreecellPlannerAction>>, i: int) -> bool {
    &&& fc_replay(start, lines[i]) == Some(arena[i].state@)
    &&& fc_ok(arena[i].state@)
    &&& lines[i].len() == arena[i].depth
    &&& arena[i].depth <= i
    &&& match arena[i].parent {
        Some(p) => p < i && lines[i] == lines[p as int].push(arena[i].action),
        None => lines[i].len() == 0,
    }
}

spec fn fc_tree_ok(start: FreecellBoard, arena: Seq<FreecellSearchNode>, lines: Seq<Seq<FreecellPlannerAction>>) -> bool {
    &&& arena.len() == lines.len()
    &&& forall|i: int| 0 <= i < arena.len() ==> #[trigger] fc_node_ok(start, arena, lines, i)
}

/// `q`'s hash is among `seen_hashes`, or a frontier entry holds a position with that hash.
spec fn fc_covered(
    seen_hashes: Set<u64>,
    fr: Multiset<FrontierEntry>,
    arena: Seq<FreecellSearchNode>,
    q: FreecellBoard,
) -> bool {
    ||| seen_hashes.contains(fc_hash_spec(q))
    ||| exists|e: FrontierEntry|
        #[trigger] fr.contains(e) && e.2 < arena.len() && fc_hash_spec(arena[e.2 as int].state@) == fc_hash_spec(q)
}

/// Every candidate of every expanded position but `open` is covered.
spec fn fc_closed(
    seen: Map<u64, FreecellBoard>,
    fr: Multiset<FrontierEntry>,
    arena: Seq<FreecellSearchNode>,
    open: Option<u64>,
) -> bool {
    forall|h: u64, i: int|
        seen.dom().contains(h) && open != Some(h) && 0 <= i < wand_candidates_spec(seen[h]).len() ==> fc_covered(
            seen.dom(),
            fr,
            arena,
            #[trigger] wand_candidates_spec(seen[h])[i].0,
        )
}

/// Each expanded hash belongs to the recorded position, which is reachable and not won.
spec fn fc_seen_ok(start: FreecellBoard, seen: Map<u64, FreecellBoard>) -> bool {
    forall|h: u64| #[trigger] seen.dom().contains(h) ==> {
        &&& fc_hash_spec(seen[h]) == h
        &&& fc_reach(start, seen[h])
        &&& !fc_won(seen[h])
    }
}

proof fn lemma_covered_pop(
    v: Set<u64>,
    fr: Multiset<FrontierEntry>,
    arena: Seq<FreecellSearchNode>,
    e: FrontierEntry,
    v2: Set<u64>,
    q: FreecellBoard,
)
    requires
        fc_covered(v, fr, arena, q),
        e.2 < arena.len(),
        v.subset_of(v2),
        v2.contains(fc_hash_spec(arena[e.2 as int].state@)),
    ensures
        fc_covered(v2, fr.remove(e), arena, q),
{
    broadcast use vstd::multiset::group_multiset_axioms;
    if !v.contains(fc_hash_spec(q)) {
        let w = choose|w: FrontierEntry|
            #[trigger] fr.contains(w) && w.2 < arena.len() && fc_hash_spec(arena[w.2 as int].state@) == fc_hash_spec(q);
        if w != e {
            assert(fr.remove(e).count(w) == fr.count(w));
            assert(fr.remove(e).contains(w));
        }
    }
}

proof fn lemma_covered_grow(
    v: Set<u64>,
    fr: Multiset<FrontierEntry>,
    arena: Seq<FreecellSearchNode>,
    x: FrontierEntry,
    node: FreecellSearchNode,
    q: FreecellBoard,
)
    requires
        fc_covered(v, fr, arena, q),
    ensures
        fc_covered(v, fr.insert(x), arena.push(node), q),
{
    broadcast use vstd::multiset::group_multiset_axioms;
    if !v.contains(fc_hash_spec(q)) {
        let w = choose|w: FrontierEntry|
            #[trigger] fr.contains(w) && w.2 < arena.len() && fc_hash_spec(arena[w.2 as int].state@) == fc_hash_spec(q);
        assert(fr.insert(x).contains(w));
        assert(arena.push(node)[w.2 as int] == arena[w.2 as int]);
    }
}

proof fn lemma_closed_grow(
    seen: Map<u64, FreecellBoard>,
    fr: Multiset<FrontierEntry>,
    arena: Seq<FreecellSearchNode>,
    open: Option<u64>,
    x: FrontierEntry,
    node: FreecellSearchNode,
)
    requires
        fc_closed(seen, fr, arena, open),
    ensures
        fc_closed(seen, fr.insert(x), arena.push(node), open),
{
    assert forall|h: u64, i: int|
        seen.dom().contains(h) && open != Some(h) && 0 <= i < wand_candidates_spec(seen[h]).len() implies fc_covered(
        seen.dom(),
        fr.insert(x),
        arena.push(node),
        #[trigger] wand_candidates_spec(seen[h])[i].0,
    ) by {
        lemma_covered_grow(seen.dom(), fr, arena, x, node, wand_candidates_spec(seen[h])[i].0);
    }
}

/// Popping `e` keeps every expanded position covered once `e`'s hash is expanded.
proof fn lemma_closed_pop(
    seen: Map<u64, FreecellBoard>,
    fr: Multiset<FrontierEntry>,
    arena: Seq<FreecellSearchNode>,
    e: FrontierEntry,
    seen2: Map<u64, FreecellBoard>,
    open: Option<u64>,
)
    requires
        fc_closed(seen, fr, arena, None),
        e.2 < arena.len(),
        seen.dom().subset_of(seen2.dom()),
        seen2.dom().contains(fc_hash_spec(arena[e.2 as int].state@)),
        forall|h: u64| seen.dom().contains(h) ==> seen2[h] == seen[h],
        forall|h: u64| #[trigger] seen2.dom().contains(h) && open != Some(h) ==> seen.dom().contains(h),
    ensures
        fc_closed(seen2, fr.remove(e), arena, open),
{
    assert forall|h: u64, i: int|
        seen2.dom().contains(h) && open != Some(h) && 0 <= i < wand_candidates_spec(seen2[h]).len() implies fc_covered(
        seen2.dom(),
        fr.remove(e),
        arena,
        #[trigger] wand_candidates_spec(seen2[h])[i].0,
    ) by {
        assert(seen.dom().contains(h));
        assert(seen2[h] == seen[h]);
        assert(fc_covered(seen.dom(), fr, arena, wand_candidates_spec(seen[h])[i].0));
        lemma_covered_pop(seen.dom(), fr, arena, e, seen2.dom(), wand_candidates_spec(seen[h])[i].0);
    }
}

proof fn lemma_unwon_reached(start: FreecellBoard, seen: Map<u64, FreecellBoard>)
    requires
        fc_seen_ok(start, seen),
        seen.dom().finite(),
    ensures
        fc_unwon_reached(start, seen.dom().len()),
{
    assert forall|h: u64| #[trigger] seen.dom().contains(h) implies fc_unwon_hash(start, h) by {
        assert(fc_reach(start, seen[h]) && !fc_won(seen[h]) && fc_hash_spec(seen[h]) == h);
    }
}

/// With the frontier empty and every expanded position covered, nothing
/// reachable is won (where no two reachable positions share a hash).
proof fn lemma_exhausted(start: FreecellBoard, seen: Map<u64, FreecellBoard>, arena: Seq<FreecellSearchNode>)
    requires
        fc_seen_ok(start, seen),
        fc_closed(seen, Multiset::<FrontierEntry>::empty(), arena, None),
        seen.dom().contains(fc_hash_spec(start)),
    ensures
        fc_hash_injective(start) ==> fc_no_reachable_win(start),
{
    broadcast use vstd::multiset::group_multiset_axioms;
    assert forall|h: u64, i: int|
        seen.dom().contains(h) && 0 <= i < wand_candidates_spec(seen[h]).len() implies seen.dom().contains(
        fc_hash_spec(#[trigger] wand_candidates_spec(seen[h])[i].0),
    ) by {
        assert(fc_covered(seen.dom(), Multiset::<FrontierEntry>::empty(), arena, wand_candidates_spec(seen[h])[i].0));
    }
    if fc_hash_injective(start) {
        lemma_closed_no_win(start, seen);
    }
}

fn fc_line_to(
    arena: &Vec<FreecellSearchNode>,
    idx: usize,
    Ghost(start): Ghost<FreecellBoard>,
    Ghost(lines): Ghost<Seq<Seq<FreecellPlannerAction>>>,
) -> (r: Vec<FreecellPlannerAction>)
    requires
        fc_tree_ok(start, arena@, lines),
        idx < arena@.len(),
    ensures
        r@ == lines[idx as int],
{
    let mut acc: Vec<FreecellPlannerAction> = Vec::new();
    let mut cursor = idx;
    loop
        invariant
            fc_tree_ok(start, arena@, lines),
            idx < arena@.len(),
            cursor < arena@.len(),
            lines[idx as int] == lines[cursor as int] + acc@,
        ensures
            lines[idx as int] == acc@,
        decreases cursor,
    {
        assert(fc_node_ok(start, arena@, lines, cursor as int));
        match arena[cursor].parent {
            Some(p) => {
                acc.insert(0, arena[cursor].action);
                assert(lines[idx as int] =~= lines[p as int] + acc@);
                cursor = p;
            },
            None => {
                assert(lines[idx as int] =~= acc@);
                break;
            },
        }
    }
    acc
}

/// What holds of every FreeCell winnability answer from `start`: a winning
/// line plays legally to a won position and its length is the reported
/// depth; a canceled search hit its limit and found nothing.
pub open spec fn freecell_result_ok(start: FreecellBoard, r: SeedWinnabilityCheckResult) -> bool {
    &&& r.solver_line is None
    &&& r.hint_line is None
    &&& r.winnable ==> r.freecell_line is Some
    &&& r.winnable ==> r.moves_to_win == Some(r.freecell_line->0@.len() as u32)
    &&& r.winnable ==> r.freecell_line->0@.len() <= r.iterations
    &&& r.winnable ==> fc_line_wins(start, r.freecell_line->0@)
    &&& r.winnable ==> !r.canceled && !r.hit_state_limit
    &&& !r.winnable ==> r.freecell_line is None && r.moves_to_win is None
    &&& r.canceled ==> r.hit_state_limit && !r.winnable
}

fn freecell_stopped(iterations: usize, canceled: bool) -> (r: SeedWinnabilityCheckResult)
    ensures
        !r.winnable && r.iterations == iterations && r.moves_to_win is None && r.hit_state_limit,
        r.solver_line is None && r.hint_line is None && r.freecell_line is None && r.canceled == canceled,
{
    SeedWinnabilityCheckResult {
        winnable: false,
        iterations,
        moves_to_win: None,
        hit_state_limit: true,
        solver_line: None,
        hint_line: None,
        freecell_line: None,
        canceled,
    }
}

/// Best-first search from `start` over the wand's scored moves until a won
/// position comes out of the frontier, `max_states` positions were
/// expanded, the frontier runs dry, or `cancel` is raised.
///
/// Positions are told apart by hash. Without a win, the reported iterations
/// count distinct hashes of reachable positions that are not won; when the
/// frontier ran dry, no position reachable by the wand's moves is won,
/// provided no two reachable positions share a hash.
/// Also returns the readings of the cancel flag made along the way: all
/// clear but perhaps the last, and only a raised one cancels.
#[verifier::rlimit(60)]
pub fn freecell_search(start: &FreecellGame, max_states: usize, cancel: &AtomicBool) -> (r: (SeedWinnabilityCheckResult, Ghost<Seq<bool>>))
    requires
        fc_ok(start@),
        1 <= max_states <= 1_000_000,
    ensures
        freecell_result_ok(start@, r.0),
        r.0.iterations <= max_states,
        !r.0.canceled ==> r.0.iterations >= 1,
        r.0.hit_state_limit && !r.0.canceled ==> r.0.iterations == max_states,
        fc_won(start@) && !r.0.canceled ==> r.0.winnable && r.0.iterations == 1 && r.0.moves_to_win == Some(0u32),
        !r.0.winnable ==> fc_unwon_reached(start@, r.0.iterations as nat),
        !r.0.winnable && !r.0.hit_state_limit ==> (fc_hash_injective(start@) ==> fc_no_reachable_win(start@)),
        clear_before_last(r.1@),
        r.0.canceled <==> last_raised(r.1@),
{
    broadcast use vstd::std_specs::hash::group_hash_axioms;
    let ghost b0 = start@;
    let ghost mut reads: Seq<bool> = Seq::empty();
    let mut visited: HashSet<u64> = HashSet::new();
    let mut frontier = Frontier::new();
    let mut serial: u64 = 0;
    let mut arena: Vec<FreecellSearchNode> = Vec::new();
    arena.push(FreecellSearchNode {
        state: start.duplicate(),
        parent: None,
        action: FreecellPlannerAction::TableauToFoundation { src: 0 },
        depth: 0,
    });
    let ghost mut lines: Seq<Seq<FreecellPlannerAction>> = seq![Seq::<FreecellPlannerAction>::empty()];
    let ghost mut seen: Map<u64, FreecellBoard> = Map::empty();
    frontier.push((0, serial, 0));
    let ghost first: FrontierEntry = (0i64, 0u64, 0usize);
    assert(frontier.entries() =~= Multiset::<FrontierEntry>::empty().insert(first));
    proof {
        lemma_reach_start(b0);
        assert(visited@ =~= seen.dom());
    }
    loop
        invariant
            b0 == start@,
            all_clear(reads),
            frontier.wf(),
            fc_tree_ok(b0, arena@, lines),
            1 <= arena@.len() <= 1 + visited@.len() * 3404,
            visited@.len() < max_states <= 1_000_000,
            visited@.finite(),
            forall|e: FrontierEntry| frontier.entries().contains(e) ==> e.2 < arena@.len(),
            visited@.len() == 0 ==> frontier.entries() == Multiset::<FrontierEntry>::empty().insert(first),
            fc_won(b0) ==> visited@.len() == 0,
            forall|i: int| 0 <= i < arena@.len() ==> #[trigger] arena@[i].depth <= visited@.len(),
            visited@ == seen.dom(),
            fc_seen_ok(b0, seen),
            forall|i: int| 0 <= i < arena@.len() ==> fc_reach(b0, #[trigger] arena@[i].state@),
            visited@.len() > 0 ==> visited@.contains(fc_hash_spec(b0)),
            fc_closed(seen, frontier.entries(), arena@, None),
        ensures
            1 <= visited@.len() < max_states,
            !fc_won(b0),
            all_clear(reads),
            visited@.finite(),
            visited@ == seen.dom(),
            fc_seen_ok(b0, seen),
            fc_hash_injective(b0) ==> fc_no_reachable_win(b0),
        decreases (max_states - visited@.len()) * 3405 + frontier.entries().len(),
    {
        let ghost before_pop = frontier.entries();
        let popped = frontier.pop();
        proof {
            broadcast use vstd::multiset::group_multiset_axioms;
            assert forall|e: FrontierEntry| frontier.entries().contains(e) implies e.2 < arena@.len() by {
                assert(before_pop.contains(e));
            }
        }
        let entry = match popped {
            Some(e) => e,
            None => {
                proof {
                    broadcast use vstd::multiset::group_multiset_axioms;
                    if visited@.len() == 0 {
                        assert(before_pop.len() == 1);
                    }
                    assert(before_pop =~= Multiset::<FrontierEntry>::empty());
                    lemma_exhausted(b0, seen, arena@);
                }
                break;
            },
        };
        proof {
            broadcast use vstd::multiset::group_multiset_axioms;
            assert(frontier.entries().len() + 1 == before_pop.len());
        }
        let ghost popped_len = frontier.entries().len();
        let ghost visited_before = visited@.len();
        proof {
            broadcast use vstd::multiset::group_multiset_axioms;
            if visited_before == 0 {
                assert(before_pop.contains(entry));
                assert(entry == first);
            }
        }
        let raised = cancel_requested(cancel);
        proof {
            lemma_read_after_clear(reads, raised);
            reads = reads.push(raised);
        }
        if raised {
            proof {
                lemma_unwon_reached(b0, seen);
            }
            return (freecell_stopped(visited.len(), true), Ghost(reads));
        }
        let slot = entry.2;
        assert(fc_node_ok(b0, arena@, lines, slot as int));
        proof {
            if visited_before == 0 {
                assert(slot == 0);
                assert(arena@[0].depth == 0);
                assert(lines[0] =~= Seq::<FreecellPlannerAction>::empty());
                assert(arena@[0].state@ == b0);
            }
        }
        let state = arena[slot].state.duplicate();
        let depth = arena[slot].depth;
        let current_hash = freecell_wand_state_hash(&state);
        if visited.contains(&current_hash) {
            proof {
                lemma_closed_pop(seen, before_pop, arena@, entry, seen, None);
            }
            continue;
        }
        let ghost seen_before = seen;
        visited.insert(current_hash);
        proof {
            assert(arena@[slot as int].depth <= visited_before);
            if visited_before == 0 {
                assert(visited@ =~= Set::<u64>::empty().insert(current_hash));
            }
        }
        if state.is_won() {
            let line = fc_line_to(&arena, slot, Ghost(b0), Ghost(lines));
            proof {
                assert(fc_node_ok(b0, arena@, lines, slot as int));
                assert(fc_line_wins(b0, line@));
                assert(line@.len() as u32 == depth);
            }
            proof {
                lemma_all_clear(reads);
            }
            return (SeedWinnabilityCheckResult {
                winnable: true,
                iterations: visited.len(),
                moves_to_win: Some(depth),
                hit_state_limit: false,
                solver_line: None,
                hint_line: None,
                freecell_line: Some(line),
                canceled: false,
            }, Ghost(reads));
        }
        proof {
            seen = seen.insert(current_hash, state@);
            assert(visited@ =~= seen.dom());
            assert(fc_reach(b0, arena@[slot as int].state@));
            assert forall|h: u64| #[trigger] seen.dom().contains(h) implies {
                &&& fc_hash_spec(seen[h]) == h
                &&& fc_reach(b0, seen[h])
                &&& !fc_won(seen[h])
            } by {
                if h != current_hash {
                    assert(seen_before.dom().contains(h));
                }
            }
            assert(fc_seen_ok(b0, seen));
            assert forall|h: u64| #[trigger] seen.dom().contains(h) && Some(current_hash) != Some(h) implies seen_before.dom().contains(h) by {}
            lemma_closed_pop(seen_before, before_pop, arena@, entry, seen, Some(current_hash));
            if visited_before == 0 {
                assert(state@ == b0);
            }
        }
        if visited.len() >= max_states {
            proof {
                lemma_unwon_reached(b0, seen);
            }
            proof {
                lemma_all_clear(reads);
            }
            return (freecell_stopped(visited.len(), false), Ghost(reads));
        }
        let mut candidates = freecell_wand_candidates(&state);
        let ghost all = candidates@;
        let count = candidates.len();
        let ghost arena_start = arena@.len();
        assert(visited@.len() == visited_before + 1);
        let mut k: usize = 0;
        while candidates.len() > 0
            invariant
                b0 == start@,
                all_clear(reads),
                !fc_won(b0),
                forall|i: int| 0 <= i < arena@.len() ==> #[trigger] arena@[i].depth <= visited@.len(),
                depth < visited@.len(),
                frontier.wf(),
                fc_tree_ok(b0, arena@, lines),
                arena_start <= arena@.len() <= arena_start + k,
                arena_start <= 1 + (visited@.len() - 1) * 3404,
                1 <= visited@.len() < max_states <= 1_000_000,
                visited@.finite(),
                forall|e: FrontierEntry| frontier.entries().contains(e) ==> e.2 < arena@.len(),
                slot < arena@.len(),
                state@ == arena@[slot as int].state@,
                depth == arena@[slot as int].depth,
                depth <= slot,
                fc_ok(state@),
                all.len() == count,
                count <= 3404,
                k <= count,
                candidates@ == all.skip(k as int),
                frontier.entries().len() <= popped_len + k,
                visited@.len() == visited_before + 1,
                forall|i: int| 0 <= i < all.len() ==> fc_ok((#[trigger] all[i]).0@),
                forall|i: int| 0 <= i < all.len() ==> {
                    &&& fc_legal(state@, (#[trigger] all[i]).1)
                    &&& all[i].0@ == fc_apply(state@, all[i].1)
                    &&& -1_300_000_000 <= all[i].2 <= 1_300_000_000
                },
                fc_cands_view(all) == wand_candidates_spec(state@),
                visited@ == seen.dom(),
                fc_seen_ok(b0, seen),
                seen.dom().contains(current_hash),
                seen[current_hash] == state@,
                forall|i: int| 0 <= i < arena@.len() ==> fc_reach(b0, #[trigger] arena@[i].state@),
                fc_reach(b0, state@),
                visited@.contains(fc_hash_spec(b0)),
                fc_closed(seen, frontier.entries(), arena@, Some(current_hash)),
                forall|i: int| 0 <= i < k ==> fc_covered(seen.dom(), frontier.entries(), arena@, #[trigger] all[i].0@),
            decreases candidates@.len(),
        {
            let (next, action, score) = candidates.remove(0);
            assert(all[k as int] == (next, action, score));
            proof {
                assert(fc_cands_view(all)[k as int].0 == all[k as int].0@);
                assert(wand_candidates_spec(state@)[k as int].0 == next@);
            }
            k += 1;
            assert(candidates@ =~= all.skip(k as int));
            let next_hash = freecell_wand_state_hash(&next);
            if visited.contains(&next_hash) {
                assert(fc_covered(seen.dom(), frontier.entries(), arena@, all[k - 1].0@));
                continue;
            }
            serial = serial.wrapping_add(1);
            let priority: i64 = score - (depth as i64) * 2;
            let new_slot = arena.len();
            let ghost old_arena = arena@;
            proof {
                assert(fc_node_ok(b0, arena@, lines, slot as int));
                let nl = lines[slot as int].push(action);
                assert(nl.drop_last() =~= lines[slot as int]);
                assert(fc_replay(b0, nl) == Some(next@));
                lemma_reach_step(b0, state@, k - 1);
            }
            arena.push(FreecellSearchNode { state: next, parent: Some(slot), action, depth: depth + 1 });
            proof {
                let old_lines = lines;
                lines = lines.push(lines[slot as int].push(action));
                assert forall|i: int| 0 <= i < arena@.len() implies #[trigger] fc_node_ok(b0, arena@, lines, i) by {
                    if i < new_slot {
                        assert(fc_node_ok(b0, old_arena, old_lines, i));
                        assert(lines[i] == old_lines[i]);
                        assert(arena@[i] == old_arena[i]);
                        match arena@[i].parent {
                            Some(p) => {
                                assert(lines[p as int] == old_lines[p as int]);
                            },
                            None => {},
                        }
                    }
                }
                assert forall|i: int| 0 <= i < arena@.len() implies fc_reach(b0, #[trigger] arena@[i].state@) by {
                    if i < new_slot {
                        assert(arena@[i] == old_arena[i]);
                    }
                }
            }
            let ghost before_push = frontier.entries();
            let ghost x: FrontierEntry = (priority, serial, new_slot);
            frontier.push((priority, serial, new_slot));
            proof {
                broadcast use vstd::multiset::group_multiset_axioms;
                assert forall|e: FrontierEntry| frontier.entries().contains(e) implies e.2 < arena@.len() by {
                    if e != x {
                        assert(before_push.contains(e));
                    }
                }
                assert(arena@ == old_arena.push(arena@[new_slot as int]));
                lemma_closed_grow(seen, before_push, old_arena, Some(current_hash), x, arena@[new_slot as int]);
                assert forall|i: int| 0 <= i < k implies fc_covered(seen.dom(), frontier.entries(), arena@, #[trigger] all[i].0@) by {
                    if i < k - 1 {
                        lemma_covered_grow(seen.dom(), before_push, old_arena, x, arena@[new_slot as int], all[i].0@);
                    } else {
                        assert(frontier.entries().contains(x));
                        assert(arena@[new_slot as int].state@ == all[i].0@);
                    }
                }
            }
        }
        proof {
            assert forall|h: u64, i: int|
                seen.dom().contains(h) && None::<u64> != Some(h) && 0 <= i < wand_candidates_spec(seen[h]).len() implies fc_covered(
                seen.dom(),
                frontier.entries(),
                arena@,
                #[trigger] wand_candidates_spec(seen[h])[i].0,
            ) by {
                if h == current_hash {
                    assert(fc_cands_view(all)[i].0 == all[i].0@);
                    assert(fc_covered(seen.dom(), frontier.entries(), arena@, all[i].0@));
                }
            }
        }
    }
    proof {
        lemma_unwon_reached(b0, seen);
    }
    proof {
        lemma_all_clear(reads);
    }
    (SeedWinnabilityCheckResult {
        winnable: false,
        iterations: visited.len(),
        moves_to_win: None,
        hit_state_limit: false,
        solver_line: None,
        hint_line: None,
        freecell_line: None,
        canceled: false,
    }, Ghost(reads))
}

/// Winnability of the FreeCell deal of `seed`: a best-first search over the
/// wand's scored moves within the capped budget. A winning line it reports
/// plays legally from the deal to a won position. The answer is always `Some`.
pub fn is_freecell_seed_winnable(
    seed: u64,
    card_count_mode: FreecellCardCountMode,
    guided_budget: usize,
    exhaustive_budget: usize,
    cancel: &AtomicBool,
) -> (r: Option<SeedWinnabilityCheckResult>)
    ensures
        r is Some,
        freecell_result_ok(freecell_deal(seed, card_count_mode), r->0),
        r->0.iterations <= freecell_budget_spec(guided_budget, exhaustive_budget),
        !r->0.canceled ==> r->0.iterations >= 1,
        r->0.hit_state_limit && !r->0.canceled ==> r->0.iterations == freecell_budget_spec(
            guided_budget,
            exhaustive_budget,
        ),
        !r->0.winnable ==> fc_unwon_reached(freecell_deal(seed, card_count_mode), r->0.iterations as nat),
        !r->0.winnable && !r->0.hit_state_limit ==> (fc_hash_injective(freecell_deal(seed, card_count_mode))
            ==> fc_no_reachable_win(freecell_deal(seed, card_count_mode))),
{
    let raised = cancel_requested(cancel);
    Some(freecell_seed_check(seed, card_count_mode, guided_budget, exhaustive_budget, raised, cancel).0)
}

/// The answer of a FreeCell seed check canceled on entry: nothing explored.
pub open spec fn freecell_canceled_on_entry(r: SeedWinnabilityCheckResult) -> bool {
    &&& !r.winnable
    &&& r.iterations == 0
    &&& r.moves_to_win is None
    &&& r.hit_state_limit
    &&& r.solver_line is None && r.hint_line is None && r.freecell_line is None
    &&& r.canceled
}

/// The check of a FreeCell seed once the cancel flag has been read on entry
/// (`raised`): a raised flag gives the canceled answer with nothing
/// explored; otherwise the deal is searched within the capped budget.
/// Also returns the readings of the cancel flag made along the way: all
/// clear but perhaps the last, and only a raised one cancels.
pub fn freecell_seed_check(
    seed: u64,
    card_count_mode: FreecellCardCountMode,
    guided_budget: usize,
    exhaustive_budget: usize,
    raised: bool,
    cancel: &AtomicBool,
) -> (r: (SeedWinnabilityCheckResult, Ghost<Seq<bool>>))
    ensures
        raised ==> freecell_canceled_on_entry(r.0),
        freecell_result_ok(freecell_deal(seed, card_count_mode), r.0),
        r.0.iterations <= freecell_budget_spec(guided_budget, exhaustive_budget),
        !r.0.canceled ==> r.0.iterations >= 1,
        r.0.hit_state_limit && !r.0.canceled ==> r.0.iterations == freecell_budget_spec(guided_budget, exhaustive_budget),
        !r.0.winnable ==> fc_unwon_reached(freecell_deal(seed, card_count_mode), r.0.iterations as nat),
        !r.0.winnable && !r.0.hit_state_limit ==> (fc_hash_injective(freecell_deal(seed, card_count_mode))
            ==> fc_no_reachable_win(freecell_deal(seed, card_count_mode))),
        raised ==> r.1@.len() == 0,
        clear_before_last(r.1@),
        r.0.canceled <==> (raised || last_raised(r.1@)),
{
    if raised {
        proof {
            let none = Set::<u64>::empty();
            assert(none.finite() && none.len() == 0);
            assert(fc_unwon_reached(freecell_deal(seed, card_count_mode), 0));
        }
        return (freecell_stopped(0, true), Ghost(Seq::empty()));
    }
    let start = FreecellGame::new_with_seed_and_card_count(seed, card_count_mode);
    if start.is_won() {
        assert(fc_replay(start@, Seq::<FreecellPlannerAction>::empty()) == Some(start@));
        return (SeedWinnabilityCheckResult {
            winnable: true,
            iterations: 1,
            moves_to_win: Some(0),
            hit_state_limit: false,
            solver_line: None,
            hint_line: None,
            freecell_line: Some(Vec::new()),
            canceled: false,
        }, Ghost(Seq::empty()));
    }
    let max_states = capped_freecell_seed_check_budget(guided_budget, exhaustive_budget);
    freecell_search(&start, max_states, cancel)
}

/// What the FreeCell seed search last reported.
#[derive(Debug, Clone, Copy, PartialEq, Eq, Structural)]
pub struct FreecellFindProgress {
    pub checked: u32,
    pub last_seed: u64,
    pub last_expanded_states: usize,
    pub last_generated_branches: usize,
    pub last_elapsed_ms: u64,
    pub last_stop_reason: u8,
}

impl FreecellFindProgress {
    pub fn new() -> (r: Self)
        ensures
            r.checked == 0 && r.last_seed == 0 && r.last_expanded_states == 0 && r.last_generated_branches == 0,
            r.last_elapsed_ms == 0,
            r.last_stop_reason == freecell_reason_code(FreecellFindStopReason::Unset),
    {
        FreecellFindProgress {
            checked: 0,
            last_seed: 0,
            last_expanded_states: 0,
            last_generated_branches: 0,
            last_elapsed_ms: 0,
            last_stop_reason: FreecellFindStopReason::Unset.code(),
        }
    }

    /// Records one finished seed: `checked` only grows, the rest describes it.
    pub fn store_attempt(
        &mut self,
        seed: u64,
        checked: u32,
        expanded_states: usize,
        generated_branches: usize,
        elapsed_ms: u64,
        stop_reason: FreecellFindStopReason,
    )
        ensures
            final(self).checked == (if checked > old(self).checked { checked } else { old(self).checked }),
            final(self).last_seed == seed,
            final(self).last_expanded_states == expanded_states,
            final(self).last_generated_branches == generated_branches,
            final(self).last_elapsed_ms == elapsed_ms,
            final(self).last_stop_reason == freecell_reason_code(stop_reason),
    {
        if checked > self.checked {
            self.checked = checked;
        }
        self.last_seed = seed;
        self.last_expanded_states = expanded_states;
        self.last_generated_branches = generated_branches;
        self.last_elapsed_ms = elapsed_ms;
        self.last_stop_reason = stop_reason.code();
    }
}

} // verus!
