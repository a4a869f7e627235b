//! A guided Spider playthrough as a walk: every move it plays is the
//! chooser's pick in the position it stands in, given the positions met so
//! far, the one before, and the next salt of the attempt's generator.

use vstd::prelude::*;
use crate::moves::HintMove;
use crate::recent::{keep_recent, lemma_keep_recent_push};
use crate::spider::{xorshift_state, SpiderBoard, SpiderSuitMode};
use crate::spider_choice::{any_considered, choice_spec, ChoiceContext, SpiderSolverPolicy};
use crate::spider_hash::spider_hash_spec;
use crate::spider_search::replay;
use crate::spider_solver::{apply_move_spec, move_legal, ranked_spec};

verus! {

/// The generator state after `n` draws from `s`.
pub open spec fn rng_after(s: u64, n: nat) -> u64
    decreases n,
{
    if n == 0 {
        s
    } else {
        xorshift_state(rng_after(s, (n - 1) as nat))
    }
}

/// The salt of step `i`: the generator's `i + 1`-th output from `s0`.
pub open spec fn salt_at(s0: u64, i: nat) -> u64 {
    rng_after(s0, i + 1).wrapping_mul(0x2545F4914F6CDD1Du64)
}

/// The generator state an attempt with `seed` and `salt` starts from.
pub open spec fn attempt_rng_seed(seed: u64, salt: usize) -> u64 {
    seed ^ ((salt as u64) << 32u64) ^ 0x9E37_79B9_7F4A_7C15u64
}

/// The position after the first `i` of `moves` from `deal`.
pub open spec fn sp_position(deal: SpiderBoard, moves: Seq<HintMove>, i: int) -> SpiderBoard {
    replay(deal, moves.take(i))->0
}

/// The hashes of the positions after each of the first `i` moves, the
/// start included.
pub open spec fn sp_hashes_upto(deal: SpiderBoard, moves: Seq<HintMove>, i: int) -> Seq<u64> {
    Seq::new((i + 1) as nat, |k: int| spider_hash_spec(sp_position(deal, moves, k)))
}

/// The hash of the position before the one after `i` moves, if any.
pub open spec fn sp_parent(deal: SpiderBoard, moves: Seq<HintMove>, i: int) -> Option<u64> {
    if i == 0 {
        None
    } else {
        Some(spider_hash_spec(sp_position(deal, moves, i - 1)))
    }
}

/// With some policy and move filter, the chooser picks move `m` in `b`
/// from `ranked`, given the hashes `seen` and `recent` and the salt.
pub open spec fn step_choice(
    b: SpiderBoard,
    seen: Set<u64>,
    recent: Seq<u64>,
    ranked: Seq<(SpiderBoard, HintMove, int)>,
    salt: u64,
    m: HintMove,
) -> bool {
    exists|policy: SpiderSolverPolicy, allowed: spec_fn(HintMove) -> bool|
        #[trigger] choice_spec(ChoiceContext { board: b, seen, recent, policy, allowed }, ranked, salt) matches Some(
            c,
        ) && c.1 == m
}

/// Move `i` of `moves` is the chooser's pick in the position after `i`
/// moves: among its ranked candidates (with the previous position's hash as
/// parent), with every earlier position's hash as seen, the last 96 as
/// recent, and the `i`-th salt of the generator started at `rng0`.
pub open spec fn sp_chosen_at(deal: SpiderBoard, moves: Seq<HintMove>, mode: SpiderSuitMode, rng0: u64, i: int) -> bool {
    let b = sp_position(deal, moves, i);
    let hs = sp_hashes_upto(deal, moves, i);
    step_choice(b, hs.to_set(), keep_recent(hs), ranked_spec(b, mode, sp_parent(deal, moves, i)), salt_at(rng0, i as nat), moves[i])
}

/// With some policy and move filter, the chooser has no pick in `b` from
/// `ranked`; `considered` tells whether some candidate got past the filter
/// (and only the loop checks dropped it).
pub open spec fn step_no_pick(
    b: SpiderBoard,
    seen: Set<u64>,
    recent: Seq<u64>,
    ranked: Seq<(SpiderBoard, HintMove, int)>,
    salt: u64,
    considered: bool,
) -> bool {
    exists|policy: SpiderSolverPolicy, allowed: spec_fn(HintMove) -> bool|
        #[trigger] choice_spec(ChoiceContext { board: b, seen, recent, policy, allowed }, ranked, salt) is None
            && any_considered(ChoiceContext { board: b, seen, recent, policy, allowed }, ranked) == considered
}

/// After the first `i` moves of `moves`, the chooser had no pick, with the
/// same memories, parent and salt as `sp_chosen_at` describes.
pub open spec fn sp_no_pick_at(
    deal: SpiderBoard,
    moves: Seq<HintMove>,
    mode: SpiderSuitMode,
    rng0: u64,
    i: int,
    considered: bool,
) -> bool {
    let b = sp_position(deal, moves, i);
    let hs = sp_hashes_upto(deal, moves, i);
    step_no_pick(b, hs.to_set(), keep_recent(hs), ranked_spec(b, mode, sp_parent(deal, moves, i)), salt_at(rng0, i as nat), considered)
}

/// A context in which the chooser had no pick gives `step_no_pick`.
pub proof fn lemma_step_no_pick(ctx: ChoiceContext, ranked: Seq<(SpiderBoard, HintMove, int)>, salt: u64)
    requires
        choice_spec(ctx, ranked, salt) is None,
    ensures
        step_no_pick(ctx.board, ctx.seen, ctx.recent, ranked, salt, any_considered(ctx, ranked)),
{
    let c2 = ChoiceContext { board: ctx.board, seen: ctx.seen, recent: ctx.recent, policy: ctx.policy, allowed: ctx.allowed };
    assert(c2 == ctx);
    assert(choice_spec(c2, ranked, salt) is None);
}

/// A walk whose chooser had no pick ends in `sp_no_pick_at`.
pub proof fn lemma_sp_walk_no_pick(
    deal: SpiderBoard,
    mode: SpiderSuitMode,
    rng0: u64,
    line: Seq<HintMove>,
    g: SpiderBoard,
    seen: Set<u64>,
    recent: Seq<u64>,
    parent: Option<u64>,
    rng: u64,
    considered: bool,
)
    requires
        sp_walk(deal, mode, rng0, line, g, seen, recent, parent, rng),
        step_no_pick(g, seen, recent, ranked_spec(g, mode, parent), xorshift_state(rng).wrapping_mul(0x2545F4914F6CDD1Du64), considered),
    ensures
        sp_no_pick_at(deal, line, mode, rng0, line.len() as int, considered),
{
    reveal(sp_walk);
    let n = line.len() as int;
    assert(line.take(n) =~= line);
    assert(sp_position(deal, line, n) == g);
    assert(rng_after(rng0, (n + 1) as nat) == xorshift_state(rng));
}

/// Every move of `moves` is the chooser's pick.
pub open spec fn sp_greedy(deal: SpiderBoard, mode: SpiderSuitMode, rng0: u64, moves: Seq<HintMove>) -> bool {
    forall|i: int| 0 <= i < moves.len() ==> #[trigger] sp_chosen_at(deal, moves, mode, rng0, i)
}

/// The state of a guided walk after `line`: it reached `g` legally, every
/// move the chooser's pick; `seen` and `recent` are the hashes met so far
/// (all of them and the last 96), `parent` the previous position's hash and
/// `rng` the generator after one draw per move.
#[verifier::opaque]
pub open spec fn sp_walk(
    deal: SpiderBoard,
    mode: SpiderSuitMode,
    rng0: u64,
    line: Seq<HintMove>,
    g: SpiderBoard,
    seen: Set<u64>,
    recent: Seq<u64>,
    parent: Option<u64>,
    rng: u64,
) -> bool {
    let n = line.len() as int;
    let hs = sp_hashes_upto(deal, line, n);
    &&& replay(deal, line) == Some(g)
    &&& seen == hs.to_set()
    &&& recent == keep_recent(hs)
    &&& parent == sp_parent(deal, line, n)
    &&& rng == rng_after(rng0, n as nat)
    &&& sp_greedy(deal, mode, rng0, line)
}

/// A pick the chooser made under some context is a step choice.
pub proof fn lemma_step_choice(ctx: ChoiceContext, ranked: Seq<(SpiderBoard, HintMove, int)>, salt: u64, m: HintMove)
    requires
        choice_spec(ctx, ranked, salt) matches Some(c) && c.1 == m,
    ensures
        step_choice(ctx.board, ctx.seen, ctx.recent, ranked, salt, m),
{
    let c2 = ChoiceContext { board: ctx.board, seen: ctx.seen, recent: ctx.recent, policy: ctx.policy, allowed: ctx.allowed };
    assert(c2 == ctx);
    assert(choice_spec(c2, ranked, salt) matches Some(c) && c.1 == m);
}

pub proof fn lemma_sp_walk_start(deal: SpiderBoard, mode: SpiderSuitMode, rng0: u64)
    ensures
        sp_walk(
            deal,
            mode,
            rng0,
            Seq::empty(),
            deal,
            Set::empty().insert(spider_hash_spec(deal)),
            seq![spider_hash_spec(deal)],
            None,
            rng0,
        ),
{
    reveal(sp_walk);
    let line = Seq::<HintMove>::empty();
    assert(line.take(0) =~= line);
    let hs = sp_hashes_upto(deal, line, 0);
    assert(hs =~= seq![spider_hash_spec(deal)]);
    assert forall|x: u64| hs.to_set().contains(x) == Set::empty().insert(spider_hash_spec(deal)).contains(x) by {
        if x == spider_hash_spec(deal) {
            assert(hs[0] == x);
        }
    }
    assert(hs.to_set() =~= Set::empty().insert(spider_hash_spec(deal)));
}

pub proof fn lemma_sp_walk_facts(
    deal: SpiderBoard,
    mode: SpiderSuitMode,
    rng0: u64,
    line: Seq<HintMove>,
    g: SpiderBoard,
    seen: Set<u64>,
    recent: Seq<u64>,
    parent: Option<u64>,
    rng: u64,
)
    requires
        sp_walk(deal, mode, rng0, line, g, seen, recent, parent, rng),
    ensures
        replay(deal, line) == Some(g),
        sp_greedy(deal, mode, rng0, line),
{
    reveal(sp_walk);
}

/// One more move: the chooser's pick with the walk's memories and the next
/// salt extends the walk.
pub proof fn lemma_sp_walk_step(
    deal: SpiderBoard,
    mode: SpiderSuitMode,
    rng0: u64,
    line: Seq<HintMove>,
    g: SpiderBoard,
    seen: Set<u64>,
    recent: Seq<u64>,
    parent: Option<u64>,
    rng: u64,
    m: HintMove,
)
    requires
        sp_walk(deal, mode, rng0, line, g, seen, recent, parent, rng),
        step_choice(g, seen, recent, ranked_spec(g, mode, parent), xorshift_state(rng).wrapping_mul(0x2545F4914F6CDD1Du64), m),
        move_legal(g, m),
    ensures
        ({
            let next = apply_move_spec(g, m);
            let h = spider_hash_spec(next);
            let pushed = recent.push(h);
            sp_walk(
                deal,
                mode,
                rng0,
                line.push(m),
                next,
                seen.insert(h),
                if pushed.len() > 96 { pushed.subrange(1, pushed.len() as int) } else { pushed },
                Some(spider_hash_spec(g)),
                xorshift_state(rng),
            )
        }),
{
    reveal(sp_walk);
    let n = line.len() as int;
    let l2 = line.push(m);
    let next = apply_move_spec(g, m);
    let h = spider_hash_spec(next);
    assert(l2.drop_last() =~= line);
    assert(replay(deal, l2) == Some(next));
    assert forall|k: int| 0 <= k <= n implies #[trigger] sp_position(deal, l2, k) == sp_position(deal, line, k) by {
        assert(l2.take(k) =~= line.take(k));
    }
    assert(line.take(n) =~= line);
    assert(l2.take(n + 1) =~= l2);
    assert(sp_position(deal, line, n) == g);
    assert(sp_position(deal, l2, n + 1) == next);
    let hs = sp_hashes_upto(deal, line, n);
    let hs2 = sp_hashes_upto(deal, l2, n + 1);
    assert(hs2 =~= hs.push(h)) by {
        assert forall|k: int| 0 <= k < hs2.len() implies hs2[k] == hs.push(h)[k] by {
            if k <= n {
                assert(sp_position(deal, l2, k) == sp_position(deal, line, k));
            }
        }
    }
    assert forall|x: u64| hs2.to_set().contains(x) == seen.insert(h).contains(x) by {
        if hs2.contains(x) {
            let i = choose|i: int| 0 <= i < hs2.len() && hs2[i] == x;
            if i <= n {
                assert(hs[i] == x);
                assert(hs.contains(x));
            }
        }
        if x == h {
            assert(hs2[n + 1] == x);
        } else if hs.contains(x) {
            let i = choose|i: int| 0 <= i < hs.len() && hs[i] == x;
            assert(hs2[i] == x);
        }
    }
    assert(hs2.to_set() =~= seen.insert(h));
    lemma_keep_recent_push(hs, h);
    assert(sp_parent(deal, l2, n + 1) == Some(spider_hash_spec(g)));
    assert(rng_after(rng0, (n + 1) as nat) == xorshift_state(rng));
    assert forall|i: int| 0 <= i < l2.len() implies #[trigger] sp_chosen_at(deal, l2, mode, rng0, i) by {
        assert(sp_position(deal, l2, i) == sp_position(deal, line, i));
        assert(sp_hashes_upto(deal, l2, i) =~= sp_hashes_upto(deal, line, i)) by {
            assert forall|k: int| 0 <= k <= i implies sp_position(deal, l2, k) == sp_position(deal, line, k) by {}
        }
        if i > 0 {
            assert(sp_position(deal, l2, i - 1) == sp_position(deal, line, i - 1));
        }
        assert(sp_parent(deal, l2, i) == sp_parent(deal, line, i));
        if i < n {
            assert(sp_chosen_at(deal, line, mode, rng0, i));
            assert(l2[i] == line[i]);
        } else {
            assert(l2[i] == m);
            assert(salt_at(rng0, i as nat) == xorshift_state(rng).wrapping_mul(0x2545F4914F6CDD1Du64));
        }
    }
}

/// The positions after each of the first moves of `moves`, the start
/// included.
pub open spec fn sp_positions(deal: SpiderBoard, moves: Seq<HintMove>) -> Seq<SpiderBoard> {
    Seq::new((moves.len() + 1) as nat, |k: int| sp_position(deal, moves, k))
}

pub proof fn lemma_positions_start(deal: SpiderBoard)
    ensures
        sp_positions(deal, Seq::empty()) == seq![deal],
{
    let e = Seq::<HintMove>::empty();
    assert(e.take(0) =~= e);
    assert(sp_positions(deal, e) =~= seq![deal]);
}

/// One more legal move adds its position at the end.
pub proof fn lemma_positions_push(deal: SpiderBoard, line: Seq<HintMove>, m: HintMove, g2: SpiderBoard)
    requires
        replay(deal, line.push(m)) == Some(g2),
    ensures
        sp_positions(deal, line.push(m)) == sp_positions(deal, line).push(g2),
{
    let l2 = line.push(m);
    let n = line.len() as int;
    assert forall|k: int| 0 <= k <= n implies #[trigger] sp_position(deal, l2, k) == sp_position(deal, line, k) by {
        assert(l2.take(k) =~= line.take(k));
    }
    assert(l2.take(n + 1) =~= l2);
    assert(sp_positions(deal, l2) =~= sp_positions(deal, line).push(g2));
}

/// The last position is where the line ends.
pub proof fn lemma_positions_last(deal: SpiderBoard, line: Seq<HintMove>, g: SpiderBoard)
    requires
        replay(deal, line) == Some(g),
    ensures
        sp_positions(deal, line).last() == g,
        sp_positions(deal, line).len() == line.len() + 1,
{
    assert(line.take(line.len() as int) =~= line);
}

} // verus!
