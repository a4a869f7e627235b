//! Klondike seed checks: the budgets per draw mode and how the outcomes of
//! a guided and an exhaustive solver run become one answer. The solver
//! itself is supplied by the caller.

use vstd::prelude::*;
use std::sync::atomic::AtomicBool;
use crate::cancel::cancel_requested;
use crate::winnability::{SeedWinnabilityCheckResult, SolverMove};

verus! {

/// Cards turned over per draw in Klondike.
#[derive(Debug, Clone, Copy, PartialEq, Eq, Hash, Structural)]
pub enum DrawMode {
    One,
    Two,
    Three,
    Four,
    Five,
}

/// The outcome of one solver run on a Klondike deal.
#[derive(Debug, Clone, Copy, PartialEq, Eq, Structural)]
pub struct KlondikeAnalysis {
    pub winnable: bool,
    pub explored_states: usize,
    pub win_depth: Option<u32>,
    pub hit_state_limit: bool,
}

/// A Klondike solver. Each search returns `None` when it was canceled,
/// together with how many positions it had explored.
pub trait KlondikeSolver {
    /// Deals `seed` with `draw_mode`.
    fn deal(&mut self, seed: u64, draw_mode: DrawMode);

    /// A guided search within `budget` positions.
    fn guided_winnability(&mut self, budget: usize, cancel: &AtomicBool) -> (Option<KlondikeAnalysis>, usize);

    /// The winning line of a guided search within `budget`; `None` when canceled.
    fn guided_winning_line(&mut self, budget: usize, cancel: &AtomicBool) -> Option<Option<Vec<SolverMove>>>;

    /// An exhaustive search within `budget` positions.
    fn exhaustive_winnability(&mut self, budget: usize, cancel: &AtomicBool) -> (Option<KlondikeAnalysis>, usize);
}

pub open spec fn min_int(a: int, b: int) -> int {
    if a <= b { a } else { b }
}

/// Guided and exhaustive budgets capped by draw mode.
pub open spec fn seed_check_budgets_spec(mode: DrawMode, guided: usize, exhaustive: usize) -> (int, int) {
    let (gc, ec): (int, int) = match mode {
        DrawMode::One => (80_000, 120_000),
        DrawMode::Two => (70_000, 100_000),
        DrawMode::Three => (60_000, 90_000),
        DrawMode::Four => (50_000, 80_000),
        DrawMode::Five => (45_000, 70_000),
    };
    (min_int(guided as int, gc), min_int(exhaustive as int, ec))
}

pub fn capped_seed_check_budgets(draw_mode: DrawMode, guided: usize, exhaustive: usize) -> (r: (usize, usize))
    ensures
        r.0 == seed_check_budgets_spec(draw_mode, guided, exhaustive).0,
        r.1 == seed_check_budgets_spec(draw_mode, guided, exhaustive).1,
{
    let (guided_cap, exhaustive_cap): (usize, usize) = match draw_mode {
        DrawMode::One => (80_000, 120_000),
        DrawMode::Two => (70_000, 100_000),
        DrawMode::Three => (60_000, 90_000),
        DrawMode::Four => (50_000, 80_000),
        DrawMode::Five => (45_000, 70_000),
    };
    (if guided < guided_cap { guided } else { guided_cap }, if exhaustive < exhaustive_cap {
        exhaustive
    } else {
        exhaustive_cap
    })
}

/// A canceled check: nothing found, limit hit, after `iterations`.
pub open spec fn canceled_result(r: SeedWinnabilityCheckResult, iterations: int) -> bool {
    &&& !r.winnable
    &&& r.iterations == iterations
    &&& r.moves_to_win is None
    &&& r.hit_state_limit
    &&& r.solver_line is None
    &&& r.hint_line is None
    &&& r.freecell_line is None
    &&& r.canceled
}

fn canceled_after(iterations: usize) -> (r: SeedWinnabilityCheckResult)
    ensures
        canceled_result(r, iterations as int),
{
    SeedWinnabilityCheckResult {
        winnable: false,
        iterations,
        moves_to_win: None,
        hit_state_limit: true,
        solver_line: None,
        hint_line: None,
        freecell_line: None,
        canceled: true,
    }
}

/// The answer once the guided search found a win and its line was asked
/// for: canceled if the line search was, else the guided outcome with its
/// line.
pub open spec fn guided_win_outcome(
    guided: KlondikeAnalysis,
    line: Option<Option<Vec<SolverMove>>>,
    r: SeedWinnabilityCheckResult,
) -> bool {
    &&& line is None ==> canceled_result(r, guided.explored_states as int)
    &&& line matches Some(l) ==> {
        &&& r.winnable
        &&& r.iterations == guided.explored_states
        &&& r.moves_to_win == guided.win_depth
        &&& r.hit_state_limit == guided.hit_state_limit
        &&& r.solver_line == l
        &&& r.hint_line is None && r.freecell_line is None
        &&& !r.canceled
    }
}

/// `a + b`, or `usize::MAX` when that does not fit.
pub open spec fn saturated_sum(a: usize, b: usize) -> int {
    if a + b > usize::MAX { usize::MAX as int } else { a + b }
}

/// The answer after the exhaustive search: its outcome with the positions
/// of both searches added, or canceled.
pub open spec fn exhaustive_outcome(
    guided: KlondikeAnalysis,
    exhaustive: Option<KlondikeAnalysis>,
    exhaustive_progress: usize,
    r: SeedWinnabilityCheckResult,
) -> bool {
    &&& exhaustive is None ==> canceled_result(r, saturated_sum(guided.explored_states, exhaustive_progress))
    &&& exhaustive matches Some(e) ==> {
        &&& r.winnable == e.winnable
        &&& r.iterations == saturated_sum(guided.explored_states, e.explored_states)
        &&& r.moves_to_win == e.win_depth
        &&& r.hit_state_limit == e.hit_state_limit
        &&& r.solver_line is None && r.hint_line is None && r.freecell_line is None
        &&& !r.canceled
    }
}

/// The answer once the guided search found the deal winnable and its line
/// was asked for: canceled if the line search was, else the guided outcome
/// with its line.
pub fn klondike_guided_win_result(guided: KlondikeAnalysis, line: Option<Option<Vec<SolverMove>>>) -> (r: SeedWinnabilityCheckResult)
    ensures
        guided_win_outcome(guided, line, r),
{
    match line {
        None => canceled_after(guided.explored_states),
        Some(solver_line) => SeedWinnabilityCheckResult {
            winnable: true,
            iterations: guided.explored_states,
            moves_to_win: guided.win_depth,
            hit_state_limit: guided.hit_state_limit,
            solver_line,
            hint_line: None,
            freecell_line: None,
            canceled: false,
        },
    }
}

/// The answer after the exhaustive search (the guided one found no win):
/// its outcome, with the positions of both searches added (saturating).
pub fn klondike_exhaustive_result(
    guided: KlondikeAnalysis,
    exhaustive: Option<KlondikeAnalysis>,
    exhaustive_progress: usize,
) -> (r: SeedWinnabilityCheckResult)
    ensures
        exhaustive_outcome(guided, exhaustive, exhaustive_progress, r),
{
    match exhaustive {
        None => canceled_after(guided.explored_states.saturating_add(exhaustive_progress)),
        Some(e) => SeedWinnabilityCheckResult {
            winnable: e.winnable,
            iterations: guided.explored_states.saturating_add(e.explored_states),
            moves_to_win: e.win_depth,
            hit_state_limit: e.hit_state_limit,
            solver_line: None,
            hint_line: None,
            freecell_line: None,
            canceled: false,
        },
    }
}

/// Winnability of the Klondike deal of `seed`: a guided search first (and
/// its winning line when it finds one), then an exhaustive search, each
/// within its capped budget. The answer is always `Some`, and it is made of
/// the solver's answers in the order the calls were made: the deal, the
/// guided search, then either the line search (after a guided win) or the
/// exhaustive search (after a guided miss). `call_ensures` of a solver method
/// names an answer that method gave on the solver state it was called on.
pub fn is_seed_winnable<S: KlondikeSolver>(
    solver: &mut S,
    seed: u64,
    draw_mode: DrawMode,
    guided_budget: usize,
    exhaustive_budget: usize,
    cancel: &AtomicBool,
) -> (r: Option<SeedWinnabilityCheckResult>)
    ensures
        r matches Some(res) && res.hint_line is None && res.freecell_line is None,
        r matches Some(res) && (res.canceled ==> !res.winnable && res.hit_state_limit && res.moves_to_win is None),
        r matches Some(res) && (res.solver_line is Some ==> res.winnable),
        ({
            let gb = seed_check_budgets_spec(draw_mode, guided_budget, exhaustive_budget).0 as usize;
            let eb = seed_check_budgets_spec(draw_mode, guided_budget, exhaustive_budget).1 as usize;
            exists|m1: &mut S, m2: &mut S, g: (Option<KlondikeAnalysis>, usize)|
                #![trigger call_ensures(S::deal, (m1, seed, draw_mode), ()), call_ensures(S::guided_winnability, (m2, gb, cancel), g)]
                {
                    &&& *m1 == *old(solver) && call_ensures(S::deal, (m1, seed, draw_mode), ())
                    &&& *m2 == *final(m1) && call_ensures(S::guided_winnability, (m2, gb, cancel), g)
                    &&& match g.0 {
                        None => *final(m2) == *final(solver) && canceled_result(r->0, g.1 as int),
                        Some(a) => if a.winnable {
                            exists|m3: &mut S, l: Option<Option<Vec<SolverMove>>>|
                                #[trigger] call_ensures(S::guided_winning_line, (m3, gb, cancel), l)
                                    && *m3 == *final(m2) && *final(m3) == *final(solver)
                                    && guided_win_outcome(a, l, r->0)
                        } else {
                            exists|m3: &mut S, e: (Option<KlondikeAnalysis>, usize)|
                                #[trigger] call_ensures(S::exhaustive_winnability, (m3, eb, cancel), e)
                                    && *m3 == *final(m2) && *final(m3) == *final(solver)
                                    && exhaustive_outcome(a, e.0, e.1, r->0)
                        },
                    }
                }
        }),
{
    let ghost asked = (guided_budget, exhaustive_budget);
    let (guided_budget, exhaustive_budget) = capped_seed_check_budgets(draw_mode, guided_budget, exhaustive_budget);
    // The capped budgets, in the form the contract names them.
    assert(guided_budget == seed_check_budgets_spec(draw_mode, asked.0, asked.1).0 as usize);
    assert(exhaustive_budget == seed_check_budgets_spec(draw_mode, asked.0, asked.1).1 as usize);
    solver.deal(seed, draw_mode);
    let (guided, guided_progress) = solver.guided_winnability(guided_budget, cancel);
    let guided = match guided {
        Some(g) => g,
        None => {
            return Some(canceled_after(guided_progress));
        },
    };
    if guided.winnable {
        let line = solver.guided_winning_line(guided_budget, cancel);
        return Some(klondike_guided_win_result(guided, line));
    }
    let (exhaustive, exhaustive_progress) = solver.exhaustive_winnability(exhaustive_budget, cancel);
    Some(klondike_exhaustive_result(guided, exhaustive, exhaustive_progress))
}

/// What the parallel seed search learns of one Klondike seed.
#[derive(Debug)]
pub enum KlondikeSeedOutcome {
    /// The search was canceled; the worker stops.
    Canceled,
    /// The guided search found no win; the worker moves on.
    NotWinnable,
    /// The guided search found a win, with its line (empty when the solver
    /// could not produce one).
    Winnable(Vec<SolverMove>),
}

/// What one seed of the parallel search gives: canceled when the guided
/// search was, or when the flag was up or the line search canceled after a
/// win; not winnable when the guided search found no win; else winnable
/// with the line found (empty when none could be produced).
pub open spec fn seed_outcome_follows(
    guided: Option<KlondikeAnalysis>,
    raised: bool,
    line: Option<Option<Vec<SolverMove>>>,
    r: KlondikeSeedOutcome,
) -> bool {
    &&& (r is Canceled) <==> (guided is None || (guided->0.winnable && (raised || line is None)))
    &&& (r is NotWinnable) <==> (guided matches Some(a) && !a.winnable)
    &&& (r is Winnable) <==> (guided matches Some(a) && a.winnable && !raised && line is Some)
    &&& r matches KlondikeSeedOutcome::Winnable(l) ==> l@ == (match line {
        Some(Some(v)) => v@,
        _ => Seq::<SolverMove>::empty(),
    })
}

/// The outcome of one seed from what the solver and the flag answered: the
/// guided analysis (`None`: canceled), the cancel flag read after a winnable
/// analysis (`raised`), and the winning-line search run after that
/// (`None`: canceled; `Some(None)`: no line could be produced).
pub fn klondike_seed_outcome(
    guided: Option<KlondikeAnalysis>,
    raised: bool,
    line: Option<Option<Vec<SolverMove>>>,
) -> (r: KlondikeSeedOutcome)
    ensures
        seed_outcome_follows(guided, raised, line, r),
{
    let analysis = match guided {
        Some(a) => a,
        None => {
            return KlondikeSeedOutcome::Canceled;
        },
    };
    if !analysis.winnable {
        return KlondikeSeedOutcome::NotWinnable;
    }
    if raised {
        return KlondikeSeedOutcome::Canceled;
    }
    match line {
        None => KlondikeSeedOutcome::Canceled,
        Some(Some(l)) => KlondikeSeedOutcome::Winnable(l),
        Some(None) => KlondikeSeedOutcome::Winnable(Vec::new()),
    }
}

/// One seed of the parallel Klondike search: a guided search within
/// `max_states`, and the winning line when it finds a win. The cancel flag
/// is checked between the two searches; `seed_outcome_follows` says what
/// the solver's answers and the flag reading give.
pub fn klondike_seed_line<S: KlondikeSolver>(
    solver: &mut S,
    seed: u64,
    draw_mode: DrawMode,
    max_states: usize,
    cancel: &AtomicBool,
) -> (r: KlondikeSeedOutcome)
    ensures
        exists|m1: &mut S, m2: &mut S, g: (Option<KlondikeAnalysis>, usize)|
            #![trigger call_ensures(S::deal, (m1, seed, draw_mode), ()), call_ensures(S::guided_winnability, (m2, max_states, cancel), g)]
            {
                &&& *m1 == *old(solver) && call_ensures(S::deal, (m1, seed, draw_mode), ())
                &&& *m2 == *final(m1) && call_ensures(S::guided_winnability, (m2, max_states, cancel), g)
                &&& if g.0 matches Some(a) && a.winnable {
                    exists|raised: bool|
                        #[trigger] call_ensures(cancel_requested, (cancel,), raised) && if raised {
                            *final(m2) == *final(solver) && seed_outcome_follows(g.0, true, None, r)
                        } else {
                            exists|m3: &mut S, l: Option<Option<Vec<SolverMove>>>|
                                #[trigger] call_ensures(S::guided_winning_line, (m3, max_states, cancel), l)
                                    && *m3 == *final(m2) && *final(m3) == *final(solver)
                                    && seed_outcome_follows(g.0, false, l, r)
                        }
                } else {
                    *final(m2) == *final(solver) && seed_outcome_follows(g.0, false, None, r)
                }
            },
{
    solver.deal(seed, draw_mode);
    let (guided, _progress) = solver.guided_winnability(max_states, cancel);
    let needs_line = match guided {
        Some(a) => a.winnable,
        None => false,
    };
    let raised = if needs_line { cancel_requested(cancel) } else { false };
    let line = if needs_line && !raised { solver.guided_winning_line(max_states, cancel) } else { None };
    klondike_seed_outcome(guided, raised, line)
}

} // verus!

verus! {

/// A seed check answers from what its solver answered: it is winnable
/// exactly when the guided search found a win and then produced its line,
/// or, the guided search having found none, the exhaustive search found one.
/// A guided win comes back with the guided search's positions and depth and
/// with the line the solver produced; a canceled search makes a canceled
/// answer that is not winnable.
pub proof fn lemma_seed_check_follows_solver<S: KlondikeSolver>(
    before: S,
    after: S,
    seed: u64,
    draw_mode: DrawMode,
    guided_budget: usize,
    exhaustive_budget: usize,
    cancel: &AtomicBool,
    r: Option<SeedWinnabilityCheckResult>,
)
    requires
        exists|m: &mut S|
            #[trigger] call_ensures(is_seed_winnable::<S>, (m, seed, draw_mode, guided_budget, exhaustive_budget, cancel), r)
                && *m == before && *final(m) == after,
    ensures
        r is Some,
        ({
            let gb = seed_check_budgets_spec(draw_mode, guided_budget, exhaustive_budget).0 as usize;
            let eb = seed_check_budgets_spec(draw_mode, guided_budget, exhaustive_budget).1 as usize;
            let res = r->0;
            exists|m1: &mut S, m2: &mut S, g: (Option<KlondikeAnalysis>, usize)|
                #![trigger call_ensures(S::deal, (m1, seed, draw_mode), ()), call_ensures(S::guided_winnability, (m2, gb, cancel), g)]
                {
                    &&& *m1 == before && call_ensures(S::deal, (m1, seed, draw_mode), ())
                    &&& *m2 == *final(m1) && call_ensures(S::guided_winnability, (m2, gb, cancel), g)
                    &&& match g.0 {
                        None => res.canceled && !res.winnable && res.iterations == g.1,
                        Some(a) => if a.winnable {
                            exists|m3: &mut S, l: Option<Option<Vec<SolverMove>>>|
                                #[trigger] call_ensures(S::guided_winning_line, (m3, gb, cancel), l)
                                    && *m3 == *final(m2) && *final(m3) == after
                                    && (res.winnable <==> l is Some)
                                    && (res.canceled <==> l is None)
                                    && (l matches Some(v) ==> {
                                        &&& res.iterations == a.explored_states
                                        &&& res.moves_to_win == a.win_depth
                                        &&& res.solver_line == v
                                    })
                        } else {
                            exists|m3: &mut S, e: (Option<KlondikeAnalysis>, usize)|
                                #[trigger] call_ensures(S::exhaustive_winnability, (m3, eb, cancel), e)
                                    && *m3 == *final(m2) && *final(m3) == after
                                    && (res.winnable <==> (e.0 matches Some(x) && x.winnable))
                                    && (res.canceled <==> e.0 is None)
                                    && (e.0 matches Some(x) ==> res.moves_to_win == x.win_depth && res.solver_line is None)
                        },
                    }
                }
        }),
{
}

/// One seed of the parallel search answers from what its solver and the
/// flag answered: a seed the guided search could not finish is canceled, one
/// it found no win for is not winnable, and one it won is winnable, unless
/// the flag was then up or the line search was canceled, and comes with the
/// line that search produced (empty when it produced none).
pub proof fn lemma_seed_line_follows_solver<S: KlondikeSolver>(
    before: S,
    after: S,
    seed: u64,
    draw_mode: DrawMode,
    max_states: usize,
    cancel: &AtomicBool,
    r: KlondikeSeedOutcome,
)
    requires
        exists|m: &mut S|
            #[trigger] call_ensures(klondike_seed_line::<S>, (m, seed, draw_mode, max_states, cancel), r)
                && *m == before && *final(m) == after,
    ensures
        exists|m1: &mut S, m2: &mut S, g: (Option<KlondikeAnalysis>, usize)|
            #![trigger call_ensures(S::deal, (m1, seed, draw_mode), ()), call_ensures(S::guided_winnability, (m2, max_states, cancel), g)]
            {
                &&& *m1 == before && call_ensures(S::deal, (m1, seed, draw_mode), ())
                &&& *m2 == *final(m1) && call_ensures(S::guided_winnability, (m2, max_states, cancel), g)
                &&& match g.0 {
                    None => r is Canceled,
                    Some(a) => if !a.winnable {
                        r is NotWinnable
                    } else {
                        exists|raised: bool|
                    #[trigger] call_ensures(cancel_requested, (cancel,), raised) && if raised {
                        r is Canceled
                    } else {
                        exists|m3: &mut S, l: Option<Option<Vec<SolverMove>>>|
                            #[trigger] call_ensures(S::guided_winning_line, (m3, max_states, cancel), l)
                                && *m3 == *final(m2) && *final(m3) == after
                                && (l is None ==> r is Canceled)
                                && (l matches Some(Some(v)) ==> r matches KlondikeSeedOutcome::Winnable(w) && w@ == v@)
                                && (l matches Some(None) ==> r matches KlondikeSeedOutcome::Winnable(w) && w@.len() == 0)
                    }
                    },
                }
            },
{
}

} // verus!
