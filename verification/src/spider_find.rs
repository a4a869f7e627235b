//! Searching for a winnable Spider seed: scoring playthroughs, the pool of
//! promising four-suit seeds kept for verification, worker counts, and the
//! progress record the search reports.

use vstd::prelude::*;
use std::collections::HashSet;
use std::sync::atomic::AtomicBool;
use crate::cancel::cancel_requested;
use crate::moves::HintMove;
use crate::spider::{spider_deal, SpiderSuitMode};
use crate::spider_playthrough::SpiderSinglePlaythroughResult;
use crate::spider_search::{is_spider_seed_winnable, line_wins};
use crate::winnability::{spider_reason_code, SpiderFindStopReason};

verus! {

/// The bonus of a playthrough's stop reason.
pub open spec fn stop_rank_bonus(a: SpiderSinglePlaythroughResult) -> int {
    match a.stop_reason {
        SpiderFindStopReason::Won => 10_000_000,
        SpiderFindStopReason::PostStockStall => 80_000,
        SpiderFindStopReason::RepeatStateStagnation => 60_000,
        SpiderFindStopReason::RepeatStateCycle => 45_000,
        SpiderFindStopReason::NoAction => 30_000,
        _ => 0,
    }
}

/// The running sums of the rollout score, term by term, each measure taken
/// as a signed 64-bit number.
pub open spec fn rollout_partials(a: SpiderSinglePlaythroughResult) -> Seq<int> {
    let p0 = stop_rank_bonus(a);
    let p1 = p0 + (a.completed_runs as i64) * 200_000;
    let p2 = p1 + (a.peak_empty_cols as i64) * 45_000;
    let p3 = p2 + (a.empty_creates as i64) * 8_000;
    let p4 = p3 + (a.peak_suited_edges as i64) * 500;
    let p5 = p4 + (a.peak_tail_run as i64) * 250;
    let p6 = p5 + (a.reveal_moves as i64) * 120;
    let p7 = p6 - (a.face_down_cards as i64) * 90;
    seq![p0, p1, p2, p3, p4, p5, p6, p7]
}

/// The products of the rollout score's terms.
pub open spec fn rollout_products(a: SpiderSinglePlaythroughResult) -> Seq<int> {
    seq![
        (a.completed_runs as i64) * 200_000,
        (a.peak_empty_cols as i64) * 45_000,
        (a.empty_creates as i64) * 8_000,
        (a.peak_suited_edges as i64) * 500,
        (a.peak_tail_run as i64) * 250,
        (a.reveal_moves as i64) * 120,
        (a.face_down_cards as i64) * 90,
    ]
}

/// Every product and running sum of the rollout score fits in 64 bits.
pub open spec fn rollout_fits(a: SpiderSinglePlaythroughResult) -> bool {
    &&& forall|i: int| 0 <= i < 7 ==> i64::MIN <= #[trigger] rollout_products(a)[i] <= i64::MAX
    &&& forall|i: int| 0 <= i < 8 ==> i64::MIN <= #[trigger] rollout_partials(a)[i] <= i64::MAX
}

/// How close a playthrough came: its stop reason, completed runs, empty
/// columns, structure and reveals, less the cards still face down.
pub open spec fn rollout_score_spec(a: SpiderSinglePlaythroughResult) -> int {
    rollout_partials(a)[7]
}

/// Whether the rollout score of `attempt` can be computed without overflow.
pub fn spider_rollout_score_fits(attempt: &SpiderSinglePlaythroughResult) -> (r: bool)
    ensures
        r == rollout_fits(*attempt),
{
    let stop_rank: i128 = match attempt.stop_reason {
        SpiderFindStopReason::Won => 10_000_000,
        SpiderFindStopReason::PostStockStall => 80_000,
        SpiderFindStopReason::RepeatStateStagnation => 60_000,
        SpiderFindStopReason::RepeatStateCycle => 45_000,
        SpiderFindStopReason::NoAction => 30_000,
        _ => 0,
    };
    let lo: i128 = i64::MIN as i128;
    let hi: i128 = i64::MAX as i128;
    let m1 = ((attempt.completed_runs as i64) as i128) * 200_000;
    let m2 = ((attempt.peak_empty_cols as i64) as i128) * 45_000;
    let m3 = ((attempt.empty_creates as i64) as i128) * 8_000;
    let m4 = ((attempt.peak_suited_edges as i64) as i128) * 500;
    let m5 = ((attempt.peak_tail_run as i64) as i128) * 250;
    let m6 = ((attempt.reveal_moves as i64) as i128) * 120;
    let m7 = ((attempt.face_down_cards as i64) as i128) * 90;
    let p1 = stop_rank + m1;
    let p2 = p1 + m2;
    let p3 = p2 + m3;
    let p4 = p3 + m4;
    let p5 = p4 + m5;
    let p6 = p5 + m6;
    let p7 = p6 - m7;
    let ghost prods = rollout_products(*attempt);
    let ghost parts = rollout_partials(*attempt);
    assert(prods[0] == m1 && prods[1] == m2 && prods[2] == m3 && prods[3] == m4);
    assert(prods[4] == m5 && prods[5] == m6 && prods[6] == m7);
    assert(parts[0] == stop_rank && parts[1] == p1 && parts[2] == p2 && parts[3] == p3);
    assert(parts[4] == p4 && parts[5] == p5 && parts[6] == p6 && parts[7] == p7);
    let r = lo <= m1 && m1 <= hi && lo <= m2 && m2 <= hi && lo <= m3 && m3 <= hi && lo <= m4 && m4 <= hi && lo <= m5
        && m5 <= hi && lo <= m6 && m6 <= hi && lo <= m7 && m7 <= hi && lo <= p1 && p1 <= hi && lo <= p2 && p2 <= hi
        && lo <= p3 && p3 <= hi && lo <= p4 && p4 <= hi && lo <= p5 && p5 <= hi && lo <= p6 && p6 <= hi && lo <= p7
        && p7 <= hi;
    proof {
        if r {
            assert forall|i: int| 0 <= i < 7 implies i64::MIN <= #[trigger] prods[i] <= i64::MAX by {}
            assert forall|i: int| 0 <= i < 8 implies i64::MIN <= #[trigger] parts[i] <= i64::MAX by {}
        } else {
            if !(lo <= m1 && m1 <= hi) { assert(prods[0] == m1); }
        }
    }
    r
}

/// The rollout score of a playthrough (`rollout_score_spec`); the caller
/// makes sure no step of it overflows.
pub fn spider_rollout_candidate_score(attempt: &SpiderSinglePlaythroughResult) -> (r: i64)
    requires
        rollout_fits(*attempt),
    ensures
        r == rollout_score_spec(*attempt),
{
    let ghost prods = rollout_products(*attempt);
    let ghost parts = rollout_partials(*attempt);
    assert(i64::MIN <= prods[0] <= i64::MAX && i64::MIN <= prods[1] <= i64::MAX && i64::MIN <= prods[2] <= i64::MAX);
    assert(i64::MIN <= prods[3] <= i64::MAX && i64::MIN <= prods[4] <= i64::MAX && i64::MIN <= prods[5] <= i64::MAX);
    assert(i64::MIN <= prods[6] <= i64::MAX);
    assert(i64::MIN <= parts[1] <= i64::MAX && i64::MIN <= parts[2] <= i64::MAX && i64::MIN <= parts[3] <= i64::MAX);
    assert(i64::MIN <= parts[4] <= i64::MAX && i64::MIN <= parts[5] <= i64::MAX && i64::MIN <= parts[6] <= i64::MAX);
    assert(i64::MIN <= parts[7] <= i64::MAX);
    let stop_rank: i64 = match attempt.stop_reason {
        SpiderFindStopReason::Won => 10_000_000,
        SpiderFindStopReason::PostStockStall => 80_000,
        SpiderFindStopReason::RepeatStateStagnation => 60_000,
        SpiderFindStopReason::RepeatStateCycle => 45_000,
        SpiderFindStopReason::NoAction => 30_000,
        _ => 0,
    };
    stop_rank + (attempt.completed_runs as i64) * 200_000 + (attempt.peak_empty_cols as i64) * 45_000
        + (attempt.empty_creates as i64) * 8_000 + (attempt.peak_suited_edges as i64) * 500
        + (attempt.peak_tail_run as i64) * 250 + (attempt.reveal_moves as i64) * 120
        - (attempt.face_down_cards as i64) * 90
}

/// A four-suit playthrough worth verifying with a full search.
pub open spec fn promising_spec(a: SpiderSinglePlaythroughResult) -> bool {
    a.completed_runs > 0 || a.peak_empty_cols > 0 || a.empty_creates > 0 || a.peak_suited_edges >= 12
        || a.peak_tail_run >= 16
}

pub fn spider4_candidate_is_promising(attempt: &SpiderSinglePlaythroughResult) -> (r: bool)
    ensures
        r == promising_spec(*attempt),
{
    attempt.completed_runs > 0 || attempt.peak_empty_cols > 0 || attempt.empty_creates > 0
        || attempt.peak_suited_edges >= 12 || attempt.peak_tail_run >= 16
}

/// Search budgets for verifying a promising four-suit seed: twice the
/// requested budget (at least 240 000), kept between 240 000 and 1 200 000,
/// for the guided part, and half of that for the exhaustive part.
pub open spec fn verifier_budget_spec(guided: usize, exhaustive: usize) -> int {
    let sum: int = if guided + exhaustive > usize::MAX { usize::MAX as int } else { guided + exhaustive };
    let base: int = if sum < 240_000 { 240_000 } else { sum };
    let doubled: int = if 2 * base > usize::MAX { usize::MAX as int } else { 2 * base };
    if doubled > 1_200_000 { 1_200_000 } else { doubled }
}

pub fn spider4_verifier_budgets(guided_budget: usize, exhaustive_budget: usize) -> (r: (usize, usize))
    ensures
        r.0 == verifier_budget_spec(guided_budget, exhaustive_budget),
        r.1 == r.0 / 2,
{
    let sum = guided_budget.saturating_add(exhaustive_budget);
    let base = if sum < 240_000 { 240_000 } else { sum };
    let doubled = base.saturating_add(base);
    let boosted = if doubled > 1_200_000 { 1_200_000 } else { doubled };
    (boosted, boosted / 2)
}

/// A promising seed: its rollout score, the seed, and how many seeds had
/// been tried when it was found.
pub type PoolEntry = (i64, u64, u32);

/// The pool keeps at most this many promising seeds.
pub const SPIDER4_TOP_K: usize = 6;

/// Seeds played between two verification rounds.
pub const SPIDER4_VERIFY_INTERVAL: u32 = 24;

/// The best-scoring promising seeds seen so far, at most `SPIDER4_TOP_K`.
pub struct SpiderCandidatePool {
    entries: Vec<PoolEntry>,
}

/// The first position holding the smallest score.
pub open spec fn first_min_index(s: Seq<PoolEntry>, i: int) -> bool {
    &&& 0 <= i < s.len()
    &&& forall|j: int| 0 <= j < s.len() ==> s[i].0 <= (#[trigger] s[j]).0
    &&& forall|j: int| 0 <= j < i ==> (#[trigger] s[j]).0 > s[i].0
}

/// The first position holding the largest score.
pub open spec fn first_max_index(s: Seq<PoolEntry>, i: int) -> bool {
    &&& 0 <= i < s.len()
    &&& forall|j: int| 0 <= j < s.len() ==> (#[trigger] s[j]).0 <= s[i].0
    &&& forall|j: int| 0 <= j < i ==> (#[trigger] s[j]).0 < s[i].0
}

/// `new` is the pool `old` after offering `e`: it joins while there is
/// room; once full, it replaces the first lowest-scoring entry if it scores
/// higher.
pub open spec fn offered(old: Seq<PoolEntry>, e: PoolEntry, new: Seq<PoolEntry>) -> bool {
    &&& old.len() < SPIDER4_TOP_K ==> new == old.push(e)
    &&& old.len() >= SPIDER4_TOP_K ==> exists|i: int| {
        &&& first_min_index(old, i)
        &&& new == (if e.0 > old[i].0 { old.update(i, e) } else { old })
    }
}

impl View for SpiderCandidatePool {
    type V = Seq<PoolEntry>;

    closed spec fn view(&self) -> Seq<PoolEntry> {
        self.entries@
    }
}

impl SpiderCandidatePool {
    pub fn new() -> (r: Self)
        ensures
            r@ == Seq::<PoolEntry>::empty(),
    {
        SpiderCandidatePool { entries: Vec::new() }
    }

    pub fn len(&self) -> (r: usize)
        ensures
            r == self@.len(),
    {
        self.entries.len()
    }

    pub fn is_empty(&self) -> (r: bool)
        ensures
            r == (self@.len() == 0),
    {
        self.entries.len() == 0
    }

    /// Offers a seed: it joins while the pool has room; once full, it
    /// replaces the first lowest-scoring entry if it scores higher.
    pub fn offer(&mut self, entry: PoolEntry)
        ensures
            offered(old(self)@, entry, final(self)@),
    {
        if self.entries.len() < SPIDER4_TOP_K {
            self.entries.push(entry);
            return;
        }
        let mut min_i: usize = 0;
        let mut k: usize = 1;
        while k < self.entries.len()
            invariant
                self.entries@ == old(self)@,
                self.entries@.len() >= SPIDER4_TOP_K,
                1 <= k <= self.entries@.len(),
                min_i < k,
                forall|j: int| 0 <= j < k ==> self.entries@[min_i as int].0 <= (#[trigger] self.entries@[j]).0,
                forall|j: int| 0 <= j < min_i ==> (#[trigger] self.entries@[j]).0 > self.entries@[min_i as int].0,
            decreases self.entries@.len() - k,
        {
            if self.entries[k].0 < self.entries[min_i].0 {
                min_i = k;
            }
            k += 1;
        }
        assert(first_min_index(old(self)@, min_i as int));
        if entry.0 > self.entries[min_i].0 {
            self.entries.set(min_i, entry);
        }
    }

    /// Takes out the first highest-scoring seed.
    pub fn take_best(&mut self) -> (r: Option<PoolEntry>)
        ensures
            old(self)@.len() == 0 ==> r is None && final(self)@ == old(self)@,
            old(self)@.len() > 0 ==> exists|i: int| {
                &&& first_max_index(old(self)@, i)
                &&& r == Some(old(self)@[i])
                &&& final(self)@ == old(self)@.remove(i)
            },
    {
        if self.entries.len() == 0 {
            return None;
        }
        let mut best: usize = 0;
        let mut k: usize = 1;
        while k < self.entries.len()
            invariant
                self.entries@ == old(self)@,
                self.entries@.len() > 0,
                1 <= k <= self.entries@.len(),
                best < k,
                forall|j: int| 0 <= j < k ==> (#[trigger] self.entries@[j]).0 <= self.entries@[best as int].0,
                forall|j: int| 0 <= j < best ==> (#[trigger] self.entries@[j]).0 < self.entries@[best as int].0,
            decreases self.entries@.len() - k,
        {
            if self.entries[k].0 > self.entries[best].0 {
                best = k;
            }
            k += 1;
        }
        assert(first_max_index(old(self)@, best as int));
        let e = self.entries.remove(best);
        Some(e)
    }
}

/// Worker threads for a parallel search: what the machine offers (one if it
/// cannot tell), at most `max_workers` and at most one per attempt, and at
/// least one.
pub open spec fn worker_count_spec(available: Option<usize>, attempts: u32, max_workers: usize) -> int {
    let machine: int = match available {
        Some(n) => if n < max_workers { n as int } else { max_workers as int },
        None => 1,
    };
    let capped: int = if machine < attempts { machine } else { attempts as int };
    if capped < 1 { 1 } else { capped }
}

pub fn find_worker_count(available: Option<usize>, attempts: u32, max_workers: usize) -> (r: usize)
    ensures
        r == worker_count_spec(available, attempts, max_workers),
        r >= 1,
{
    let machine: usize = match available {
        Some(n) => if n < max_workers { n } else { max_workers },
        None => 1,
    };
    let capped: usize = if (machine as u64) < (attempts as u64) { machine } else { attempts as usize };
    if capped < 1 { 1 } else { capped }
}

/// Seeds to try by default: four per hardware thread, between 8 and 64;
/// 24 when the machine cannot tell.
pub open spec fn default_attempts_spec(available: Option<usize>) -> int {
    match available {
        Some(n) => {
            let x: int = if 4 * n > usize::MAX { usize::MAX as int } else { 4 * n };
            if x < 8 { 8 } else if x > 64 { 64 } else { x }
        },
        None => 24,
    }
}

pub fn default_find_winnable_attempts_for(available: Option<usize>) -> (r: u32)
    ensures
        r == default_attempts_spec(available),
{
    match available {
        Some(n) => {
            if n < 2 {
                8
            } else if n > 16 {
                64
            } else {
                (n * 4) as u32
            }
        },
        None => 24,
    }
}

/// What the Spider seed search last reported.
#[derive(Debug, Clone, Copy, PartialEq, Eq, Structural)]
pub struct SpiderFindProgress {
    pub checked: u32,
    pub last_seed: u64,
    pub last_expanded_states: usize,
    pub last_generated_branches: usize,
    pub last_stop_reason: u8,
    pub last_completed_runs: usize,
    pub last_stock_cards: usize,
    pub last_face_down_cards: usize,
    pub last_empty_cols: usize,
    pub last_suited_edges: usize,
    pub last_max_tail_run: usize,
    pub last_cycle_period: usize,
    pub last_cycle_blocks: usize,
    pub last_draw_moves: usize,
    pub last_tableau_moves: usize,
    pub last_reveal_moves: usize,
    pub last_peak_suited_edges: usize,
    pub last_peak_tail_run: usize,
    pub last_peak_empty_cols: usize,
    pub last_empty_creates: usize,
    pub last_adapt_events: usize,
    pub best_peak_empty_cols: usize,
    pub attempts_with_empty_create: u32,
}

impl SpiderFindProgress {
    pub fn new() -> (r: Self)
        ensures
            r.checked == 0 && r.last_seed == 0 && r.last_expanded_states == 0 && r.last_generated_branches == 0,
            r.last_stop_reason == spider_reason_code(SpiderFindStopReason::Unset),
            r.last_completed_runs == 0 && r.last_stock_cards == 0 && r.last_face_down_cards == 0,
            r.last_empty_cols == 0 && r.last_suited_edges == 0 && r.last_max_tail_run == 0,
            r.last_cycle_period == 0 && r.last_cycle_blocks == 0,
            r.last_draw_moves == 0 && r.last_tableau_moves == 0 && r.last_reveal_moves == 0,
            r.last_peak_suited_edges == 0 && r.last_peak_tail_run == 0 && r.last_peak_empty_cols == 0,
            r.last_empty_creates == 0 && r.last_adapt_events == 0,
            r.best_peak_empty_cols == 0 && r.attempts_with_empty_create == 0,
    {
        SpiderFindProgress {
            checked: 0,
            last_seed: 0,
            last_expanded_states: 0,
            last_generated_branches: 0,
            last_stop_reason: SpiderFindStopReason::Unset.code(),
            last_completed_runs: 0,
            last_stock_cards: 0,
            last_face_down_cards: 0,
            last_empty_cols: 0,
            last_suited_edges: 0,
            last_max_tail_run: 0,
            last_cycle_period: 0,
            last_cycle_blocks: 0,
            last_draw_moves: 0,
            last_tableau_moves: 0,
            last_reveal_moves: 0,
            last_peak_suited_edges: 0,
            last_peak_tail_run: 0,
            last_peak_empty_cols: 0,
            last_empty_creates: 0,
            last_adapt_events: 0,
            best_peak_empty_cols: 0,
            attempts_with_empty_create: 0,
        }
    }

    /// Records one finished seed: `checked` and the best peak of empty
    /// columns only grow, attempts that created an empty column are counted,
    /// and everything else describes this attempt.
    pub fn store_attempt(&mut self, seed: u64, checked: u32, a: &SpiderSinglePlaythroughResult)
        ensures
            final(self).checked == (if checked > old(self).checked { checked } else { old(self).checked }),
            final(self).last_seed == seed,
            final(self).last_expanded_states == a.expanded_states,
            final(self).last_generated_branches == a.generated_branches,
            final(self).last_stop_reason == spider_reason_code(a.stop_reason),
            final(self).last_completed_runs == a.completed_runs,
            final(self).last_stock_cards == a.stock_cards,
            final(self).last_face_down_cards == a.face_down_cards,
            final(self).last_empty_cols == a.empty_cols,
            final(self).last_suited_edges == a.suited_edges,
            final(self).last_max_tail_run == a.max_tail_run,
            final(self).last_cycle_period == a.cycle_period,
            final(self).last_cycle_blocks == a.cycle_blocks,
            final(self).last_draw_moves == a.draw_moves,
            final(self).last_tableau_moves == a.tableau_moves,
            final(self).last_reveal_moves == a.reveal_moves,
            final(self).last_peak_suited_edges == a.peak_suited_edges,
            final(self).last_peak_tail_run == a.peak_tail_run,
            final(self).last_peak_empty_cols == a.peak_empty_cols,
            final(self).last_empty_creates == a.empty_creates,
            final(self).last_adapt_events == a.adapt_events,
            final(self).best_peak_empty_cols == (if a.peak_empty_cols > old(self).best_peak_empty_cols {
                a.peak_empty_cols
            } else {
                old(self).best_peak_empty_cols
            }),
            final(self).attempts_with_empty_create == (if a.empty_creates > 0 {
                old(self).attempts_with_empty_create.wrapping_add(1)
            } else {
                old(self).attempts_with_empty_create
            }),
    {
        if checked > self.checked {
            self.checked = checked;
        }
        self.last_seed = seed;
        self.last_expanded_states = a.expanded_states;
        self.last_generated_branches = a.generated_branches;
        self.last_stop_reason = a.stop_reason.code();
        self.last_completed_runs = a.completed_runs;
        self.last_stock_cards = a.stock_cards;
        self.last_face_down_cards = a.face_down_cards;
        self.last_empty_cols = a.empty_cols;
        self.last_suited_edges = a.suited_edges;
        self.last_max_tail_run = a.max_tail_run;
        self.last_cycle_period = a.cycle_period;
        self.last_cycle_blocks = a.cycle_blocks;
        self.last_draw_moves = a.draw_moves;
        self.last_tableau_moves = a.tableau_moves;
        self.last_reveal_moves = a.reveal_moves;
        self.last_peak_suited_edges = a.peak_suited_edges;
        self.last_peak_tail_run = a.peak_tail_run;
        self.last_peak_empty_cols = a.peak_empty_cols;
        self.last_empty_creates = a.empty_creates;
        self.last_adapt_events = a.adapt_events;
        if a.peak_empty_cols > self.best_peak_empty_cols {
            self.best_peak_empty_cols = a.peak_empty_cols;
        }
        if a.empty_creates > 0 {
            self.attempts_with_empty_create = self.attempts_with_empty_create.wrapping_add(1);
        }
    }
}

/// After a four-suit playthrough that did not win: a promising one is
/// offered to the pool with its rollout score, tagged with the seed and the
/// number of seeds tried so far. Other suit modes keep no pool.
pub fn spider4_consider_attempt(
    pool: &mut SpiderCandidatePool,
    suit_mode: SpiderSuitMode,
    seed: u64,
    tested: u32,
    attempt: &SpiderSinglePlaythroughResult,
)
    requires
        suit_mode == SpiderSuitMode::Four && promising_spec(*attempt) ==> rollout_fits(*attempt),
    ensures
        suit_mode == SpiderSuitMode::Four && promising_spec(*attempt) ==> offered(
            old(pool)@,
            (rollout_score_spec(*attempt) as i64, seed, tested),
            final(pool)@,
        ),
        !(suit_mode == SpiderSuitMode::Four && promising_spec(*attempt)) ==> final(pool)@ == old(pool)@,
{
    if suit_mode == SpiderSuitMode::Four && spider4_candidate_is_promising(attempt) {
        let score = spider_rollout_candidate_score(attempt);
        pool.offer((score, seed, tested));
    }
}

/// One more seed played since the last verification round: the new count
/// (saturating) and whether a round is due, which resets the count.
pub fn spider4_verify_step(since_verify: u32) -> (r: (u32, bool))
    ensures
        r.1 == (since_verify as int + 1 >= SPIDER4_VERIFY_INTERVAL),
        r.1 ==> r.0 == 0,
        !r.1 ==> r.0 == since_verify + 1,
{
    let next = since_verify.saturating_add(1);
    if next >= SPIDER4_VERIFY_INTERVAL {
        (0, true)
    } else {
        (next, false)
    }
}

/// Verifies the pooled seeds best first with the full four-suit search,
/// skipping seeds verified before, until one proves winnable. Only four-suit
/// searches verify, and none once `cancel` is raised. A seed it returns came
/// from the pool, and its line wins the seed's deal. The flag is read on
/// entry; `spider4_verify_after_check` says what follows from the reading.
pub fn spider4_verify_best_candidate(
    pool: &mut SpiderCandidatePool,
    verified: &mut HashSet<u64>,
    suit_mode: SpiderSuitMode,
    guided_budget: usize,
    exhaustive_budget: usize,
    cancel: &AtomicBool,
) -> (r: Option<(u64, u32, Vec<HintMove>)>)
    ensures
        suit_mode != SpiderSuitMode::Four ==> r is None && final(pool)@ == old(pool)@ && final(verified)@ == old(verified)@,
        r is Some ==> suit_mode == SpiderSuitMode::Four,
        r matches Some(found) ==> exists|e: PoolEntry| #[trigger] old(pool)@.contains(e) && e.1 == found.0 && e.2 == found.1,
        r matches Some(found) ==> line_wins(spider_deal(found.0, suit_mode), found.2@),
        r is None ==> final(pool)@ == old(pool)@ || final(pool)@.len() == 0,
        r is None && final(pool)@.len() == 0 ==> (forall|e: PoolEntry| #[trigger] old(pool)@.contains(e)
            ==> final(verified)@.contains(e.1)),
        final(pool)@.len() <= old(pool)@.len(),
        old(verified)@.subset_of(final(verified)@),
        forall|x: u64| #[trigger] final(verified)@.contains(x) ==> (old(verified)@.contains(x) || exists|e: PoolEntry|
            #[trigger] old(pool)@.contains(e) && e.1 == x),
{
    let raised = if suit_mode == SpiderSuitMode::Four { cancel_requested(cancel) } else { false };
    spider4_verify_after_check(pool, verified, suit_mode, guided_budget, exhaustive_budget, raised, cancel)
}

/// The verification round once the cancel flag has been read on entry
/// (`raised`). A raised flag verifies nothing. Otherwise (in four-suit play)
/// the pool is taken best first, each seed not verified before is searched,
/// and the round ends at the first seed that proves winnable, every pooled
/// seed scoring higher having been verified, or when the pool is empty,
/// every pooled seed having been verified.
pub fn spider4_verify_after_check(
    pool: &mut SpiderCandidatePool,
    verified: &mut HashSet<u64>,
    suit_mode: SpiderSuitMode,
    guided_budget: usize,
    exhaustive_budget: usize,
    raised: bool,
    cancel: &AtomicBool,
) -> (r: Option<(u64, u32, Vec<HintMove>)>)
    ensures
        suit_mode != SpiderSuitMode::Four ==> r is None && final(pool)@ == old(pool)@ && final(verified)@ == old(verified)@,
        r is Some ==> suit_mode == SpiderSuitMode::Four,
        r matches Some(found) ==> exists|e: PoolEntry| #[trigger] old(pool)@.contains(e) && e.1 == found.0 && e.2 == found.1,
        r matches Some(found) ==> line_wins(spider_deal(found.0, suit_mode), found.2@),
        r is None ==> final(pool)@ == old(pool)@ || final(pool)@.len() == 0,
        r is None && final(pool)@.len() == 0 ==> (forall|e: PoolEntry| #[trigger] old(pool)@.contains(e)
            ==> final(verified)@.contains(e.1)),
        final(pool)@.len() <= old(pool)@.len(),
        old(verified)@.subset_of(final(verified)@),
        forall|x: u64| #[trigger] final(verified)@.contains(x) ==> (old(verified)@.contains(x) || exists|e: PoolEntry|
            #[trigger] old(pool)@.contains(e) && e.1 == x),
        raised ==> r is None && final(pool)@ == old(pool)@ && final(verified)@ == old(verified)@,
        !raised && suit_mode == SpiderSuitMode::Four && r is None ==> final(pool)@.len() == 0,
        r matches Some(found) ==> exists|e: PoolEntry| {
            &&& #[trigger] old(pool)@.contains(e)
            &&& e.1 == found.0
            &&& e.2 == found.1
            &&& forall|e2: PoolEntry| #[trigger] old(pool)@.contains(e2) && e2.0 > e.0 ==> final(verified)@.contains(e2.1)
        },
{
    broadcast use vstd::std_specs::hash::group_hash_axioms;
    if suit_mode != SpiderSuitMode::Four || raised {
        return None;
    }
    let ghost start = pool@;
    let ghost seen0 = verified@;
    loop
        invariant
            suit_mode == SpiderSuitMode::Four,
            !raised,
            start == old(pool)@,
            seen0 == old(verified)@,
            pool@.len() <= start.len(),
            forall|e: PoolEntry| pool@.contains(e) ==> start.contains(e),
            seen0.subset_of(verified@),
            forall|e: PoolEntry| #[trigger] start.contains(e) && !pool@.contains(e) ==> verified@.contains(e.1),
            forall|x: u64| #[trigger] verified@.contains(x) ==> (seen0.contains(x) || exists|e: PoolEntry|
                #[trigger] start.contains(e) && e.1 == x),
            forall|e: PoolEntry, p: PoolEntry|
                #[trigger] start.contains(e) && !pool@.contains(e) && #[trigger] pool@.contains(p) ==> p.0 <= e.0,
        decreases pool@.len(),
    {
        let ghost before = pool@;
        let entry = match pool.take_best() {
            Some(e) => e,
            None => {
                return None;
            },
        };
        proof {
            let i = choose|i: int| first_max_index(before, i) && Some(before[i]) == Some(entry) && pool@ == before.remove(i);
            assert(before[i] == entry);
            assert(start.contains(entry));
            assert forall|e: PoolEntry| before.contains(e) && !pool@.contains(e) implies e == entry by {
                let j = choose|j: int| 0 <= j < before.len() && before[j] == e;
                if j < i {
                    assert(pool@[j] == e);
                } else if j > i {
                    assert(pool@[j - 1] == e);
                }
            }
            assert forall|e: PoolEntry| pool@.contains(e) implies start.contains(e) && before.contains(e) by {
                let j = choose|j: int| 0 <= j < pool@.len() && pool@[j] == e;
                if j < i {
                    assert(before[j] == e);
                } else {
                    assert(before[j + 1] == e);
                }
            }
            assert forall|e: PoolEntry| #[trigger] before.contains(e) implies e.0 <= entry.0 by {
                let j = choose|j: int| 0 <= j < before.len() && before[j] == e;
                assert(before[j].0 <= before[i].0);
            }
            assert forall|e: PoolEntry, p: PoolEntry|
                #[trigger] start.contains(e) && !pool@.contains(e) && #[trigger] pool@.contains(p) implies p.0 <= e.0 by {
                assert(before.contains(p));
                if before.contains(e) {
                    assert(e == entry);
                }
            }
        }
        let ghost verified_before = verified@;
        let (_, cseed, tested) = entry;
        if verified.contains(&cseed) {
            continue;
        }
        verified.insert(cseed);
        let (verify_guided, verify_exhaustive) = spider4_verifier_budgets(guided_budget, exhaustive_budget);
        let checked = is_spider_seed_winnable(cseed, suit_mode, verify_guided, verify_exhaustive, cancel);
        match checked {
            Some(res) => {
                if res.winnable {
                    match res.hint_line {
                        Some(line) => {
                            assert(old(pool)@.contains(entry));
                            proof {
                                assert forall|e2: PoolEntry| #[trigger] old(pool)@.contains(e2) && e2.0 > entry.0 implies verified@.contains(e2.1) by {
                                    assert(!before.contains(e2));
                                    assert(verified_before.contains(e2.1));
                                }
                            }
                            return Some((cseed, tested, line));
                        },
                        None => {},
                    }
                }
            },
            None => {},
        }
    }
}

} // verus!
