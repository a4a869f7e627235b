//! Robot-mode bookkeeping: detecting oscillating positions and repeating
//! move cycles, the tabu memory of fallback moves, stall and drought
//! tracking, and the small timing rules of automation.

use vstd::prelude::*;
use std::collections::{HashSet, VecDeque};
use crate::cards::Card;
use crate::freecell::{fc_ok, occupied, empty_columns, FreecellBoard, FreecellGame};
use crate::freecell_action::FreecellPlannerAction;
use crate::freecell_eval::{fc_hash_spec, freecell_legal_move_count, freecell_wand_state_hash, legal_moves_spec};
use crate::freecell_search::apply_freecell_action;
use crate::freecell_wand::{fc_apply, fc_legal, freecell_supermove_capacity, supermove_capacity_spec};
use crate::moves::HintMove;
use crate::spider::pile_card_sum;
use crate::spider_cycle::{repeated_tail_block_count, tail_repeats, texts};
use crate::text::{decimal_chars, decimal_text, push_text};

verus! {

/// Moves without any progress before the robot gives a deal up.
pub const ROBOT_STALL_LIMIT: u32 = 10;

/// Moves without a new foundation card before the FreeCell planner restarts.
pub const ROBOT_FOUNDATION_DROUGHT_LIMIT: u32 = 50;

/// Repeats of a position or move cycle tolerated before the planner restarts.
pub const ROBOT_OSCILLATION_LIMIT: u32 = 5;

/// Seen positions remembered before the memory starts over.
pub const ROBOT_SEEN_STATES_CAP: usize = 50_000;

/// Recent fallback moves and positions kept as tabu.
pub const FREECELL_FALLBACK_TABU_SIGNATURE_WINDOW: usize = 24;
pub const FREECELL_FALLBACK_TABU_HASH_WINDOW: usize = 24;

/// Recent positions kept for oscillation detection.
pub const ROBOT_RECENT_HASH_WINDOW: usize = 14;

/// Recent moves kept for cycle detection.
pub const ROBOT_RECENT_ACTION_WINDOW: usize = 96;

// ---------------------------------------------------------------------------
// Position cycles
// ---------------------------------------------------------------------------

/// The last four positions alternate between two.
pub open spec fn two_cycle(s: Seq<u64>) -> bool {
    let n = s.len() as int;
    n >= 4 && s[n - 1] == s[n - 3] && s[n - 2] == s[n - 4] && s[n - 1] != s[n - 2]
}

/// The last six positions repeat three distinct ones.
pub open spec fn three_cycle(s: Seq<u64>) -> bool {
    let n = s.len() as int;
    &&& n >= 6
    &&& s[n - 1] == s[n - 4] && s[n - 2] == s[n - 5] && s[n - 3] == s[n - 6]
    &&& s[n - 1] != s[n - 2] && s[n - 2] != s[n - 3] && s[n - 1] != s[n - 3]
}

fn cycles_in(s: &Vec<u64>) -> (r: (bool, bool))
    ensures
        r.0 == two_cycle(s@),
        r.1 == three_cycle(s@),
{
    let n = s.len();
    let two = n >= 4 && s[n - 1] == s[n - 3] && s[n - 2] == s[n - 4] && s[n - 1] != s[n - 2];
    let three = n >= 6 && s[n - 1] == s[n - 4] && s[n - 2] == s[n - 5] && s[n - 3] == s[n - 6] && s[n - 1] != s[n
        - 2] && s[n - 2] != s[n - 3] && s[n - 1] != s[n - 3];
    (two, three)
}

fn deque_to_vec(d: &VecDeque<u64>) -> (r: Vec<u64>)
    ensures
        r@ == d@,
{
    let mut out: Vec<u64> = Vec::new();
    let mut i: usize = 0;
    while i < d.len()
        invariant
            i <= d@.len(),
            out@ == d@.take(i as int),
        decreases d@.len() - i,
    {
        out.push(d[i]);
        i += 1;
        assert(out@ =~= d@.take(i as int));
    }
    assert(out@ =~= d@);
    out
}

/// Whether moving to `next_hash` would close a two- or three-position cycle
/// with the recent positions.
pub fn fallback_hash_cycle_detected_with(recent: &VecDeque<u64>, next_hash: u64) -> (r: bool)
    ensures
        r == (two_cycle(recent@.push(next_hash)) || three_cycle(recent@.push(next_hash))),
{
    let mut seq = deque_to_vec(recent);
    seq.push(next_hash);
    let (two, three) = cycles_in(&seq);
    two || three
}

/// The last `n` entries of `s` (all of them if there are fewer).
pub open spec fn keep_last<T>(s: Seq<T>, n: nat) -> Seq<T> {
    if s.len() > n {
        s.skip(s.len() - n)
    } else {
        s
    }
}

fn trim_front(d: &mut VecDeque<u64>, n: usize)
    ensures
        final(d)@ == keep_last(old(d)@, n as nat),
{
    let ghost start = old(d)@;
    assert(start.skip(0) =~= start);
    while d.len() > n
        invariant
            d@.len() <= start.len(),
            d@ == start.skip(start.len() - d@.len()),
            d@.len() >= n || d@.len() == start.len(),
        decreases d@.len(),
    {
        let ghost before = d@;
        let popped = d.pop_front();
        assert(popped is Some);
        assert(d@ =~= start.skip(start.len() - d@.len()));
    }
}

/// The tracker's memory: recent positions, the detected cycle period and
/// how many times in a row it was detected.
pub ghost struct OscillationView {
    pub recent: Seq<u64>,
    pub period: u8,
    pub streak: u32,
}

/// Detects positions that oscillate in a cycle of two or three.
pub struct HashOscillationTracker {
    recent: VecDeque<u64>,
    period: u8,
    streak: u32,
}

impl View for HashOscillationTracker {
    type V = OscillationView;

    closed spec fn view(&self) -> OscillationView {
        OscillationView { recent: self.recent@, period: self.period, streak: self.streak }
    }
}

/// The state after recording position `hash`: the last fourteen positions;
/// a three-cycle (else a two-cycle) among them extends the streak of the
/// same period or starts one; no cycle clears it.
pub open spec fn oscillation_step(v: OscillationView, hash: u64) -> OscillationView {
    let recent = keep_last(v.recent.push(hash), 14);
    let period: u8 = if three_cycle(recent) { 3 } else if two_cycle(recent) { 2 } else { 0 };
    if period == 0 {
        OscillationView { recent, period: 0, streak: 0 }
    } else if v.period == period {
        OscillationView {
            recent,
            period,
            streak: if v.streak == u32::MAX { u32::MAX } else { (v.streak + 1) as u32 },
        }
    } else {
        OscillationView { recent, period, streak: 1 }
    }
}

impl HashOscillationTracker {
    pub fn new() -> (r: Self)
        ensures
            r@.recent.len() == 0 && r@.period == 0 && r@.streak == 0,
    {
        HashOscillationTracker { recent: VecDeque::new(), period: 0, streak: 0 }
    }

    pub fn period(&self) -> (r: u8)
        ensures
            r == self@.period,
    {
        self.period
    }

    /// Records a position; reports whether the same cycle has now repeated
    /// more than `ROBOT_OSCILLATION_LIMIT` times in a row.
    pub fn track(&mut self, hash: u64) -> (exceeded: bool)
        ensures
            final(self)@ == oscillation_step(old(self)@, hash),
            exceeded == (final(self)@.streak > ROBOT_OSCILLATION_LIMIT),
    {
        self.recent.push_back(hash);
        trim_front(&mut self.recent, ROBOT_RECENT_HASH_WINDOW);
        let seq = deque_to_vec(&self.recent);
        let (two, three) = cycles_in(&seq);
        let detected: u8 = if three { 3 } else if two { 2 } else { 0 };
        if detected == 0 {
            self.period = 0;
            self.streak = 0;
        } else if self.period == detected {
            self.streak = self.streak.saturating_add(1);
        } else {
            self.period = detected;
            self.streak = 1;
        }
        self.streak > ROBOT_OSCILLATION_LIMIT
    }
}

// ---------------------------------------------------------------------------
// Move cycles
// ---------------------------------------------------------------------------

/// Immediate repeats of the last `p` moves (zero without room for two blocks).
pub open spec fn cycle_repeats(s: Seq<Seq<char>>, p: nat) -> nat {
    tail_repeats(s, p, s.len())
}

/// The period among one to six with the most immediate repeats (the first
/// one on ties, none when nothing repeats), and that number of repeats.
pub open spec fn best_cycle_upto(s: Seq<Seq<char>>, k: nat) -> (nat, nat)
    decreases k,
{
    if k == 0 {
        (0, 0)
    } else {
        let prev = best_cycle_upto(s, (k - 1) as nat);
        let reps = if s.len() < 2 * k { 0 } else { cycle_repeats(s, k) };
        if reps > prev.1 { (k, reps) } else { prev }
    }
}

/// Detects the robot repeating the same block of moves.
pub struct ActionCycleTracker {
    recent: Vec<String>,
    streak: u32,
}

pub ghost struct ActionCycleView {
    pub recent: Seq<Seq<char>>,
    pub streak: u32,
}

impl View for ActionCycleTracker {
    type V = ActionCycleView;

    closed spec fn view(&self) -> ActionCycleView {
        ActionCycleView { recent: texts(self.recent@), streak: self.streak }
    }
}

pub proof fn lemma_tail_repeats_bound(s: Seq<Seq<char>>, p: nat, cursor: nat)
    ensures
        tail_repeats(s, p, cursor) <= cursor,
    decreases cursor,
{
    if p > 0 && cursor >= 2 * p && cursor <= s.len() && s.subrange(cursor - p, cursor as int) == s.subrange(
        cursor - 2 * p,
        cursor - p,
    ) {
        lemma_tail_repeats_bound(s, p, (cursor - p) as nat);
    }
}

impl ActionCycleTracker {
    pub fn new() -> (r: Self)
        ensures
            r@.recent.len() == 0 && r@.streak == 0,
    {
        let r = ActionCycleTracker { recent: Vec::new(), streak: 0 };
        assert(texts(r.recent@) =~= Seq::<Seq<char>>::empty());
        r
    }

    pub fn streak(&self) -> (r: u32)
        ensures
            r == self@.streak,
    {
        self.streak
    }

    /// Records a move's signature (keeping the last 96) and finds the most
    /// repeated tail cycle; returns its period and repeats, and whether the
    /// repeats exceed `ROBOT_OSCILLATION_LIMIT`. The repeats become the streak.
    pub fn track(&mut self, signature: String) -> (r: (usize, u32, bool))
        ensures
            final(self)@.recent == keep_last(old(self)@.recent.push(signature@), 96),
            r.0 == best_cycle_upto(final(self)@.recent, 6).0,
            r.1 == best_cycle_upto(final(self)@.recent, 6).1,
            final(self)@.streak == r.1,
            r.2 == (r.1 > ROBOT_OSCILLATION_LIMIT),
    {
        let ghost start = texts(self.recent@).push(signature@);
        self.recent.push(signature);
        assert(texts(self.recent@) =~= start);
        assert(start.skip(0) =~= start);
        while self.recent.len() > ROBOT_RECENT_ACTION_WINDOW
            invariant
                self.recent@.len() <= start.len(),
                texts(self.recent@) == start.skip(start.len() - self.recent@.len()),
                self.recent@.len() >= 96 || self.recent@.len() == start.len(),
            decreases self.recent@.len(),
        {
            let ghost before = texts(self.recent@);
            let ghost raw = self.recent@;
            self.recent.remove(0);
            assert(self.recent@ =~= raw.subrange(1, raw.len() as int));
            assert(texts(self.recent@) =~= before.subrange(1, before.len() as int));
            assert(texts(self.recent@) =~= start.skip(start.len() - self.recent@.len()));
        }
        let ghost s = texts(self.recent@);
        assert(s == keep_last(start, 96));
        let len = self.recent.len();
        let mut best_period: usize = 0;
        let mut best_repeats: usize = 0;
        let mut period: usize = 1;
        while period <= 6
            invariant
                1 <= period <= 7,
                s == texts(self.recent@),
                len == s.len(),
                len <= 96,
                best_period == best_cycle_upto(s, (period - 1) as nat).0,
                best_repeats == best_cycle_upto(s, (period - 1) as nat).1,
                best_repeats <= 96,
            decreases 7 - period,
        {
            if len >= period * 2 {
                let blocks = repeated_tail_block_count(self.recent.as_slice(), period);
                proof {
                    lemma_tail_repeats_bound(s, period as nat, len as nat);
                }
                let repeats = blocks - 1;
                if repeats > best_repeats {
                    best_repeats = repeats;
                    best_period = period;
                }
            }
            period += 1;
        }
        self.streak = best_repeats as u32;
        (best_period, self.streak, self.streak > ROBOT_OSCILLATION_LIMIT)
    }
}


// ---------------------------------------------------------------------------
// Signatures of played FreeCell moves
// ---------------------------------------------------------------------------

/// The card a FreeCell move carries: the column's top, the cell's card, or
/// the first card of the run; none when that place is empty or absent.
pub open spec fn moving_card_spec(b: FreecellBoard, a: FreecellPlannerAction) -> Option<Card> {
    let top = |src: usize| if src < b.tableau.len() && b.tableau[src as int].len() > 0 {
        Some(b.tableau[src as int].last())
    } else {
        None
    };
    let cell_card = |cell: usize| if cell < b.freecells.len() { b.freecells[cell as int] } else { None };
    match a {
        FreecellPlannerAction::TableauToFoundation { src } => top(src),
        FreecellPlannerAction::FreecellToFoundation { cell } => cell_card(cell),
        FreecellPlannerAction::TableauRunToTableau { src, start, .. } => if src < b.tableau.len() && start
            < b.tableau[src as int].len() {
            Some(b.tableau[src as int][start as int])
        } else {
            None
        },
        FreecellPlannerAction::TableauToFreecell { src, .. } => top(src),
        FreecellPlannerAction::FreecellToTableau { cell, .. } => cell_card(cell),
    }
}

pub fn freecell_moving_card(game: &FreecellGame, action: FreecellPlannerAction) -> (r: Option<Card>)
    ensures
        r == moving_card_spec(game@, action),
{
    match action {
        FreecellPlannerAction::TableauToFoundation { src } => game.tableau_top(src),
        FreecellPlannerAction::FreecellToFoundation { cell } => game.freecell_card(cell),
        FreecellPlannerAction::TableauRunToTableau { src, start, .. } => game.tableau_card(src, start),
        FreecellPlannerAction::TableauToFreecell { src, .. } => game.tableau_top(src),
        FreecellPlannerAction::FreecellToTableau { cell, .. } => game.freecell_card(cell),
    }
}

/// The signature of a played move, led by the label of the card it carries:
/// `L:T3->F`, `L:C1->F`, `L:T2:4->T7`, `L:T0->C3`, `L:C2->T5`.
pub open spec fn action_signature_text(label: Seq<char>, a: FreecellPlannerAction) -> Seq<char> {
    let n = |x: usize| decimal_chars(x as nat);
    match a {
        FreecellPlannerAction::TableauToFoundation { src } => label + ":T"@ + n(src) + "->F"@,
        FreecellPlannerAction::FreecellToFoundation { cell } => label + ":C"@ + n(cell) + "->F"@,
        FreecellPlannerAction::TableauRunToTableau { src, start, dst } => label + ":T"@ + n(src) + ":"@ + n(start)
            + "->T"@ + n(dst),
        FreecellPlannerAction::TableauToFreecell { src, cell } => label + ":T"@ + n(src) + "->C"@ + n(cell),
        FreecellPlannerAction::FreecellToTableau { cell, dst } => label + ":C"@ + n(cell) + "->T"@ + n(dst),
    }
}

/// The signature of the move that would undo a move, led by the label of
/// the card it carries: `L:F->T3`, `L:F->C1`, `L:T7->T2:4`, `L:C3->T0`,
/// `L:T5->C2`.
pub open spec fn inverse_signature_text(label: Seq<char>, a: FreecellPlannerAction) -> Seq<char> {
    let n = |x: usize| decimal_chars(x as nat);
    match a {
        FreecellPlannerAction::TableauToFoundation { src } => label + ":F->T"@ + n(src),
        FreecellPlannerAction::FreecellToFoundation { cell } => label + ":F->C"@ + n(cell),
        FreecellPlannerAction::TableauRunToTableau { src, start, dst } => label + ":T"@ + n(dst) + "->T"@ + n(src)
            + ":"@ + n(start),
        FreecellPlannerAction::TableauToFreecell { src, cell } => label + ":C"@ + n(cell) + "->T"@ + n(src),
        FreecellPlannerAction::FreecellToTableau { cell, dst } => label + ":T"@ + n(dst) + "->C"@ + n(cell),
    }
}

/// The signature of a played move; `label` is the label of the card it
/// carries (see `freecell_moving_card`).
pub fn freecell_action_signature(label: &str, action: FreecellPlannerAction) -> (r: String)
    ensures
        r@ == action_signature_text(label@, action),
{
    let mut out = String::from_str(label);
    match action {
        FreecellPlannerAction::TableauToFoundation { src } => {
            push_text(&mut out, ":T");
            push_number(&mut out, src);
            push_text(&mut out, "->F");
        },
        FreecellPlannerAction::FreecellToFoundation { cell } => {
            push_text(&mut out, ":C");
            push_number(&mut out, cell);
            push_text(&mut out, "->F");
        },
        FreecellPlannerAction::TableauRunToTableau { src, start, dst } => {
            push_text(&mut out, ":T");
            push_number(&mut out, src);
            push_text(&mut out, ":");
            push_number(&mut out, start);
            push_text(&mut out, "->T");
            push_number(&mut out, dst);
        },
        FreecellPlannerAction::TableauToFreecell { src, cell } => {
            push_text(&mut out, ":T");
            push_number(&mut out, src);
            push_text(&mut out, "->C");
            push_number(&mut out, cell);
        },
        FreecellPlannerAction::FreecellToTableau { cell, dst } => {
            push_text(&mut out, ":C");
            push_number(&mut out, cell);
            push_text(&mut out, "->T");
            push_number(&mut out, dst);
        },
    }
    proof {
        assert(out@ =~= action_signature_text(label@, action));
    }
    out
}

/// The signature of the move that would undo `action`; `label` is the
/// label of the card it carries.
pub fn freecell_inverse_action_signature(label: &str, action: FreecellPlannerAction) -> (r: String)
    ensures
        r@ == inverse_signature_text(label@, action),
{
    let mut out = String::from_str(label);
    match action {
        FreecellPlannerAction::TableauToFoundation { src } => {
            push_text(&mut out, ":F->T");
            push_number(&mut out, src);
        },
        FreecellPlannerAction::FreecellToFoundation { cell } => {
            push_text(&mut out, ":F->C");
            push_number(&mut out, cell);
        },
        FreecellPlannerAction::TableauRunToTableau { src, start, dst } => {
            push_text(&mut out, ":T");
            push_number(&mut out, dst);
            push_text(&mut out, "->T");
            push_number(&mut out, src);
            push_text(&mut out, ":");
            push_number(&mut out, start);
        },
        FreecellPlannerAction::TableauToFreecell { src, cell } => {
            push_text(&mut out, ":C");
            push_number(&mut out, cell);
            push_text(&mut out, "->T");
            push_number(&mut out, src);
        },
        FreecellPlannerAction::FreecellToTableau { cell, dst } => {
            push_text(&mut out, ":T");
            push_number(&mut out, dst);
            push_text(&mut out, "->C");
            push_number(&mut out, cell);
        },
    }
    proof {
        assert(out@ =~= inverse_signature_text(label@, action));
    }
    out
}

/// Whether a run move would undo the last move: its undoing signature is
/// the last move's signature. Other moves never count.
pub fn freecell_action_is_inverse_tableau_of_last_move(
    inverse_signature: Option<&str>,
    last_signature: Option<&str>,
    action: FreecellPlannerAction,
) -> (r: bool)
    ensures
        r == (action is TableauRunToTableau && inverse_signature is Some && last_signature is Some
            && inverse_signature->0@ == last_signature->0@),
{
    match (action, inverse_signature, last_signature) {
        (FreecellPlannerAction::TableauRunToTableau { .. }, Some(next), Some(last)) => crate::text::same_text(next, last),
        _ => false,
    }
}

// ---------------------------------------------------------------------------
// Tabu memory of fallback moves
// ---------------------------------------------------------------------------

/// The compact text of a FreeCell move, for cycle and tabu memories:
/// `t2f:T3->F`, `c2f:C1->F`, `t2t:T2:4->T7`, `t2c:T0->C3`, `c2t:C2->T5`.
pub open spec fn action_cycle_text(a: FreecellPlannerAction) -> Seq<char> {
    match a {
        FreecellPlannerAction::TableauToFoundation { src } => "t2f:T"@ + decimal_chars(src as nat) + "->F"@,
        FreecellPlannerAction::FreecellToFoundation { cell } => "c2f:C"@ + decimal_chars(cell as nat) + "->F"@,
        FreecellPlannerAction::TableauRunToTableau { src, start, dst } => "t2t:T"@ + decimal_chars(src as nat) + ":"@
            + decimal_chars(start as nat) + "->T"@ + decimal_chars(dst as nat),
        FreecellPlannerAction::TableauToFreecell { src, cell } => "t2c:T"@ + decimal_chars(src as nat) + "->C"@
            + decimal_chars(cell as nat),
        FreecellPlannerAction::FreecellToTableau { cell, dst } => "c2t:C"@ + decimal_chars(cell as nat) + "->T"@
            + decimal_chars(dst as nat),
    }
}

fn push_number(out: &mut String, n: usize)
    ensures
        final(out)@ == old(out)@ + decimal_chars(n as nat),
{
    let d = decimal_text(n as u64);
    push_text(out, d.as_str());
}

pub fn freecell_action_cycle_signature(action: FreecellPlannerAction) -> (r: String)
    ensures
        r@ == action_cycle_text(action),
{
    let mut out = String::new();
    match action {
        FreecellPlannerAction::TableauToFoundation { src } => {
            push_text(&mut out, "t2f:T");
            push_number(&mut out, src);
            push_text(&mut out, "->F");
        },
        FreecellPlannerAction::FreecellToFoundation { cell } => {
            push_text(&mut out, "c2f:C");
            push_number(&mut out, cell);
            push_text(&mut out, "->F");
        },
        FreecellPlannerAction::TableauRunToTableau { src, start, dst } => {
            push_text(&mut out, "t2t:T");
            push_number(&mut out, src);
            push_text(&mut out, ":");
            push_number(&mut out, start);
            push_text(&mut out, "->T");
            push_number(&mut out, dst);
        },
        FreecellPlannerAction::TableauToFreecell { src, cell } => {
            push_text(&mut out, "t2c:T");
            push_number(&mut out, src);
            push_text(&mut out, "->C");
            push_number(&mut out, cell);
        },
        FreecellPlannerAction::FreecellToTableau { cell, dst } => {
            push_text(&mut out, "c2t:C");
            push_number(&mut out, cell);
            push_text(&mut out, "->T");
            push_number(&mut out, dst);
        },
    }
    out
}

/// The hash of the position `action` leads to, when it is legal.
pub fn freecell_next_hash_for_action(game: &FreecellGame, action: FreecellPlannerAction) -> (r: Option<u64>)
    requires
        fc_ok(game@),
    ensures
        r == (if fc_legal(game@, action) { Some(fc_hash_spec(fc_apply(game@, action))) } else { None }),
{
    let mut next = game.duplicate();
    if !apply_freecell_action(&mut next, action) {
        return None;
    }
    Some(freecell_wand_state_hash(&next))
}

/// Recent fallback moves and the positions they led to; the robot avoids
/// repeating them.
pub struct FallbackTabu {
    signatures: Vec<String>,
    hashes: VecDeque<u64>,
}

pub ghost struct FallbackTabuView {
    pub signatures: Seq<Seq<char>>,
    pub hashes: Seq<u64>,
}

impl View for FallbackTabu {
    type V = FallbackTabuView;

    closed spec fn view(&self) -> FallbackTabuView {
        FallbackTabuView { signatures: texts(self.signatures@), hashes: self.hashes@ }
    }
}

/// A fallback move is rejected when it repeats a recent fallback move,
/// is illegal, returns to a recent position, or closes a short cycle.
pub open spec fn tabu_rejects(v: FallbackTabuView, sig: Seq<char>, next_hash: Option<u64>) -> bool {
    ||| v.signatures.contains(sig)
    ||| next_hash is None
    ||| v.hashes.contains(next_hash->0)
    ||| two_cycle(v.hashes.push(next_hash->0))
    ||| three_cycle(v.hashes.push(next_hash->0))
}

impl FallbackTabu {
    pub fn new() -> (r: Self)
        ensures
            r@.signatures.len() == 0 && r@.hashes.len() == 0,
    {
        let r = FallbackTabu { signatures: Vec::new(), hashes: VecDeque::new() };
        assert(texts(r.signatures@) =~= Seq::<Seq<char>>::empty());
        r
    }

    /// Remembers a fallback move and the position it led to (the last 24 of each).
    pub fn note(&mut self, signature: String, state_hash: u64)
        ensures
            final(self)@.signatures == keep_last(old(self)@.signatures.push(signature@), 24),
            final(self)@.hashes == keep_last(old(self)@.hashes.push(state_hash), 24),
    {
        let ghost start = texts(self.signatures@).push(signature@);
        self.signatures.push(signature);
        assert(texts(self.signatures@) =~= start);
        assert(start.skip(0) =~= start);
        while self.signatures.len() > FREECELL_FALLBACK_TABU_SIGNATURE_WINDOW
            invariant
                self.signatures@.len() <= start.len(),
                texts(self.signatures@) == start.skip(start.len() - self.signatures@.len()),
                self.signatures@.len() >= 24 || self.signatures@.len() == start.len(),
                self.hashes@ == old(self).hashes@,
            decreases self.signatures@.len(),
        {
            let ghost before = texts(self.signatures@);
            let ghost raw = self.signatures@;
            self.signatures.remove(0);
            assert(self.signatures@ =~= raw.subrange(1, raw.len() as int));
            assert(texts(self.signatures@) =~= before.subrange(1, before.len() as int));
            assert(texts(self.signatures@) =~= start.skip(start.len() - self.signatures@.len()));
        }
        self.hashes.push_back(state_hash);
        trim_front(&mut self.hashes, FREECELL_FALLBACK_TABU_HASH_WINDOW);
    }

    /// Whether the robot should refuse a fallback move with this signature
    /// leading to `next_hash` (`None` when the move is illegal).
    pub fn rejects(&self, signature: &String, next_hash: Option<u64>) -> (r: bool)
        ensures
            r == tabu_rejects(self@, signature@, next_hash),
    {
        let ghost t = texts(self.signatures@);
        let mut i: usize = 0;
        while i < self.signatures.len()
            invariant
                t == texts(self.signatures@),
                i <= self.signatures@.len(),
                forall|j: int| 0 <= j < i ==> t[j] != signature@,
            decreases self.signatures@.len() - i,
        {
            if self.signatures[i] == *signature {
                assert(t[i as int] == signature@);
                return true;
            }
            i += 1;
        }
        let next = match next_hash {
            Some(h) => h,
            None => {
                return true;
            },
        };
        let mut k: usize = 0;
        while k < self.hashes.len()
            invariant
                k <= self.hashes@.len(),
                forall|j: int| 0 <= j < k ==> self.hashes@[j] != next,
                !t.contains(signature@),
                next_hash == Some(next),
                t == texts(self.signatures@),
            decreases self.hashes@.len() - k,
        {
            if self.hashes[k] == next {
                assert(self.hashes@[k as int] == next);
                return true;
            }
            k += 1;
        }
        fallback_hash_cycle_detected_with(&self.hashes, next)
    }
}

// ---------------------------------------------------------------------------
// Seen positions
// ---------------------------------------------------------------------------

/// Positions the robot has seen in the current deal.
pub struct RobotSeenStates {
    seen: HashSet<u64>,
}

impl View for RobotSeenStates {
    type V = Set<u64>;

    closed spec fn view(&self) -> Set<u64> {
        self.seen@
    }
}

impl RobotSeenStates {
    pub fn new() -> (r: Self)
        ensures
            r@ == Set::<u64>::empty(),
    {
        RobotSeenStates { seen: HashSet::new() }
    }

    pub fn contains(&self, state_hash: u64) -> (r: bool)
        ensures
            r == self@.contains(state_hash),
    {
        broadcast use vstd::std_specs::hash::group_hash_axioms;
        self.seen.contains(&state_hash)
    }

    /// Records a position; once more than `ROBOT_SEEN_STATES_CAP` are
    /// remembered, the memory starts over from this one.
    pub fn mark(&mut self, state_hash: u64)
        ensures
            old(self)@.insert(state_hash).len() > ROBOT_SEEN_STATES_CAP ==> final(self)@ == set![state_hash],
            old(self)@.insert(state_hash).len() <= ROBOT_SEEN_STATES_CAP ==> final(self)@ == old(self)@.insert(state_hash),
    {
        broadcast use vstd::std_specs::hash::group_hash_axioms;
        self.seen.insert(state_hash);
        if self.seen.len() > ROBOT_SEEN_STATES_CAP {
            self.seen.clear();
            self.seen.insert(state_hash);
            assert(self.seen@ =~= set![state_hash]);
        }
    }
}

// ---------------------------------------------------------------------------
// Stalls and droughts
// ---------------------------------------------------------------------------

/// What the robot does after a move.
#[derive(Debug, Clone, Copy, PartialEq, Eq, Structural)]
pub enum RobotStallVerdict {
    /// Keep playing.
    Continue,
    /// FreeCell: no new foundation card for too long; restart the planner.
    ResetForDrought,
    /// FreeCell: no progress for too long; restart the planner.
    ResetForStall,
    /// No progress for too long; the deal counts as lost.
    Lost,
}

/// Progress measures and counters the robot keeps between moves.
#[derive(Debug, Clone, Copy, PartialEq, Eq, Structural)]
pub struct RobotStallTracker {
    pub last_foundation_like: u32,
    pub last_empty_cols: u32,
    pub last_mobility: u32,
    pub last_capacity: u32,
    pub moves_since_foundation_progress: u32,
    pub stall_streak: u32,
}

pub open spec fn sat_inc(x: u32) -> u32 {
    if x == u32::MAX { u32::MAX } else { (x + 1) as u32 }
}

/// The tracker after a move that left `foundation_like` foundation cards
/// and `empty_cols` empty columns (and, in FreeCell, the given mobility and
/// supermove capacity), with the verdict.
pub open spec fn stall_step(
    t: RobotStallTracker,
    foundation_like: u32,
    empty_cols: u32,
    freecell: Option<(u32, u32)>,
) -> (RobotStallTracker, RobotStallVerdict) {
    let foundation_progressed = foundation_like > t.last_foundation_like;
    let fc_progress = match freecell {
        Some(mc) => mc.0 > t.last_mobility || mc.1 > t.last_capacity,
        None => false,
    };
    let progressed = foundation_progressed || empty_cols > t.last_empty_cols || fc_progress;
    let t1 = RobotStallTracker {
        last_foundation_like: foundation_like,
        last_empty_cols: empty_cols,
        last_mobility: match freecell { Some(mc) => mc.0, None => t.last_mobility },
        last_capacity: match freecell { Some(mc) => mc.1, None => t.last_capacity },
        moves_since_foundation_progress: if foundation_progressed { 0 } else { sat_inc(t.moves_since_foundation_progress) },
        ..t
    };
    if !foundation_progressed && freecell is Some && t1.moves_since_foundation_progress >= ROBOT_FOUNDATION_DROUGHT_LIMIT {
        (RobotStallTracker { stall_streak: 0, ..t1 }, RobotStallVerdict::ResetForDrought)
    } else if progressed {
        (RobotStallTracker { stall_streak: 0, ..t1 }, RobotStallVerdict::Continue)
    } else {
        let streak = sat_inc(t.stall_streak);
        if freecell is Some && streak >= ROBOT_STALL_LIMIT {
            (RobotStallTracker { stall_streak: 0, ..t1 }, RobotStallVerdict::ResetForStall)
        } else if streak >= ROBOT_STALL_LIMIT {
            (RobotStallTracker { stall_streak: streak, ..t1 }, RobotStallVerdict::Lost)
        } else {
            (RobotStallTracker { stall_streak: streak, ..t1 }, RobotStallVerdict::Continue)
        }
    }
}

impl RobotStallTracker {
    pub fn new() -> (r: Self)
        ensures
            r.last_foundation_like == 0 && r.last_empty_cols == 0 && r.last_mobility == 0 && r.last_capacity == 0,
            r.moves_since_foundation_progress == 0 && r.stall_streak == 0,
    {
        RobotStallTracker {
            last_foundation_like: 0,
            last_empty_cols: 0,
            last_mobility: 0,
            last_capacity: 0,
            moves_since_foundation_progress: 0,
            stall_streak: 0,
        }
    }

    pub fn after_move(&mut self, foundation_like: u32, empty_cols: u32, freecell: Option<(u32, u32)>) -> (r: RobotStallVerdict)
        ensures
            (*final(self), r) == stall_step(*old(self), foundation_like, empty_cols, freecell),
    {
        let foundation_progressed = foundation_like > self.last_foundation_like;
        let mut progressed = foundation_progressed || empty_cols > self.last_empty_cols;
        match freecell {
            Some((mobility_now, capacity_now)) => {
                if mobility_now > self.last_mobility || capacity_now > self.last_capacity {
                    progressed = true;
                }
                self.last_mobility = mobility_now;
                self.last_capacity = capacity_now;
            },
            None => {},
        }
        self.last_foundation_like = foundation_like;
        self.last_empty_cols = empty_cols;
        if foundation_progressed {
            self.moves_since_foundation_progress = 0;
        } else {
            let drought = self.moves_since_foundation_progress.saturating_add(1);
            self.moves_since_foundation_progress = drought;
            if freecell.is_some() && drought >= ROBOT_FOUNDATION_DROUGHT_LIMIT {
                self.stall_streak = 0;
                return RobotStallVerdict::ResetForDrought;
            }
        }
        if progressed {
            self.stall_streak = 0;
            return RobotStallVerdict::Continue;
        }
        let streak = self.stall_streak.saturating_add(1);
        self.stall_streak = streak;
        if freecell.is_some() && streak >= ROBOT_STALL_LIMIT {
            self.stall_streak = 0;
            return RobotStallVerdict::ResetForStall;
        }
        if streak >= ROBOT_STALL_LIMIT {
            return RobotStallVerdict::Lost;
        }
        RobotStallVerdict::Continue
    }
}

// ---------------------------------------------------------------------------
// Small rules
// ---------------------------------------------------------------------------

pub open spec fn move_description(m: HintMove) -> Seq<char> {
    match m {
        HintMove::WasteToFoundation => "waste -> foundation"@,
        HintMove::TableauTopToFoundation { .. } => "tableau top -> foundation"@,
        HintMove::WasteToTableau { .. } => "waste -> tableau"@,
        HintMove::TableauRunToTableau { .. } => "tableau run -> tableau"@,
        HintMove::Draw => "draw from stock"@,
    }
}

pub fn robot_move_description(hint_move: HintMove) -> (r: &'static str)
    ensures
        r@ == move_description(hint_move),
{
    match hint_move {
        HintMove::WasteToFoundation => "waste -> foundation",
        HintMove::TableauTopToFoundation { .. } => "tableau top -> foundation",
        HintMove::WasteToTableau { .. } => "waste -> tableau",
        HintMove::TableauRunToTableau { .. } => "tableau run -> tableau",
        HintMove::Draw => "draw from stock",
    }
}

/// A face-down card lies above a face-up one somewhere in the column.
pub open spec fn face_down_after_face_up(pile: Seq<Card>) -> bool {
    exists|i: int, j: int| 0 <= i < j < pile.len() && (#[trigger] pile[i]).face_up && !(#[trigger] pile[j]).face_up
}

pub fn tableau_has_face_down_after_face_up(pile: &[Card]) -> (r: bool)
    ensures
        r == face_down_after_face_up(pile@),
{
    let mut saw_face_up = false;
    let mut k: usize = 0;
    while k < pile.len()
        invariant
            k <= pile@.len(),
            saw_face_up == exists|i: int| 0 <= i < k && (#[trigger] pile@[i]).face_up,
            !exists|i: int, j: int| 0 <= i < j < k && (#[trigger] pile@[i]).face_up && !(#[trigger] pile@[j]).face_up,
        decreases pile@.len() - k,
    {
        if pile[k].face_up {
            saw_face_up = true;
        } else if saw_face_up {
            return true;
        }
        k += 1;
    }
    false
}

/// FreeCell progress for the planner: a million per foundation card and ten
/// thousand per empty column.
pub open spec fn progress_marker_spec(foundation: nat, empty: nat) -> int {
    (foundation * 1_000_000 + empty * 10_000) as int
}

pub fn freecell_planner_progress_marker(game: &FreecellGame) -> (r: u64)
    requires
        fc_ok(game@),
    ensures
        r == progress_marker_spec(pile_card_sum(game@.foundations), empty_columns(game@.tableau)),
{
    let foundation_like = game.foundation_card_count() as u64;
    let empty_cols = crate::freecell_eval::freecell_empty_columns(game) as u64;
    foundation_like * 1_000_000 + empty_cols * 10_000
}

/// The number of legal FreeCell moves, as the robot counts them.
pub fn freecell_mobility_count(game: &FreecellGame) -> (r: u32)
    requires
        fc_ok(game@),
    ensures
        r == legal_moves_spec(game@),
{
    freecell_legal_move_count(game) as u32
}

/// The FreeCell supermove capacity, as the robot counts it.
pub fn robot_freecell_supermove_capacity(game: &FreecellGame) -> (r: u32)
    requires
        fc_ok(game@),
    ensures
        r == supermove_capacity_spec(game@),
{
    freecell_supermove_capacity(game) as u32
}

/// Milliseconds between robot steps: 40 at ludicrous speed, else the profile's.
pub fn robot_step_interval_ms(ludicrous: bool, profile_interval_ms: u64) -> (r: u64)
    ensures
        r == (if ludicrous { 40 } else { profile_interval_ms }),
{
    if ludicrous { 40 } else { profile_interval_ms }
}

/// Timer ticks to wait for the FreeCell planner.
pub fn freecell_planner_wait_tick_limit(ludicrous: bool) -> (r: u32)
    ensures
        r == (if ludicrous { 90u32 } else { 36u32 }),
{
    if ludicrous { 90 } else { 36 }
}

/// Timer ticks before the robot recovers when FreeCell has no move.
pub fn freecell_no_move_recovery_ticks(ludicrous: bool) -> (r: u32)
    ensures
        r == (if ludicrous { 300u32 } else { 120u32 }),
{
    if ludicrous { 300 } else { 120 }
}

/// Seconds between session saves: thirty while the robot plays unattended
/// (running, ludicrous, forever, new game on loss), else three.
pub fn session_flush_interval_secs(running: bool, ludicrous: bool, forever: bool, auto_new_game_on_loss: bool) -> (r: u32)
    ensures
        r == (if running && ludicrous && forever && auto_new_game_on_loss { 30u32 } else { 3u32 }),
{
    if running && ludicrous && forever && auto_new_game_on_loss {
        return 30;
    }
    3
}

} // verus!
