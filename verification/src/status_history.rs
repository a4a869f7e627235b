//! The status history: which status lines it keeps, how many it retains,
//! the text it shows, and how a status line is decorated for the window.

use vstd::prelude::*;
use std::collections::VecDeque;
use crate::robot_guard::keep_last;
use crate::session_fields::{trim_spec, trim_text};
use crate::settings::GameMode;
use crate::spider_cycle::texts;
use crate::status_text::{starts_with_text, text_contains, text_starts_with};
use crate::text::{decimal_chars, decimal_text, push_text};
use crate::theme_prefs::contains_text;

verus! {

/// Lines retained when no valid choice is stored.
pub const STATUS_HISTORY_DEFAULT_RETENTION_LINES: usize = 1000;

/// The retention limits the preferences offer.
pub open spec fn retention_choices() -> Seq<usize> {
    seq![120, 240, 500, 1000, 2000, 5000, 10000, 25000]
}

pub fn is_retention_choice(limit: usize) -> (r: bool)
    ensures
        r == retention_choices().contains(limit),
{
    let r = limit == 120 || limit == 240 || limit == 500 || limit == 1000 || limit == 2000 || limit == 5000
        || limit == 10000 || limit == 25000;
    proof {
        if r {
            let i: int = if limit == 120 {
                0
            } else if limit == 240 {
                1
            } else if limit == 500 {
                2
            } else if limit == 1000 {
                3
            } else if limit == 2000 {
                4
            } else if limit == 5000 {
                5
            } else if limit == 10000 {
                6
            } else {
                7
            };
            assert(retention_choices()[i] == limit);
        }
    }
    r
}

/// The retention limit from the stored setting: a stored value that is one
/// of the choices, else the default.
pub fn status_history_retention_limit_for(stored: Option<i32>) -> (r: usize)
    ensures
        r == (match stored {
            Some(v) => if v >= 0 && retention_choices().contains(v as usize) {
                v as usize
            } else {
                STATUS_HISTORY_DEFAULT_RETENTION_LINES
            },
            None => STATUS_HISTORY_DEFAULT_RETENTION_LINES,
        }),
{
    match stored {
        Some(v) => if v >= 0 && is_retention_choice(v as usize) {
            v as usize
        } else {
            STATUS_HISTORY_DEFAULT_RETENTION_LINES
        },
        None => STATUS_HISTORY_DEFAULT_RETENTION_LINES,
    }
}

/// The label of a retention choice in the preferences.
pub open spec fn retention_label(limit: usize) -> Option<Seq<char>> {
    if limit == 120 {
        Some("120"@)
    } else if limit == 240 {
        Some("240"@)
    } else if limit == 500 {
        Some("500"@)
    } else if limit == 1000 {
        Some("1,000 (Default)"@)
    } else if limit == 2000 {
        Some("2,000"@)
    } else if limit == 5000 {
        Some("5,000"@)
    } else if limit == 10000 {
        Some("10,000"@)
    } else if limit == 25000 {
        Some("25,000"@)
    } else {
        None
    }
}

pub fn retention_choice_label(limit: usize) -> (r: Option<&'static str>)
    ensures
        match r {
            Some(s) => retention_label(limit) == Some(s@),
            None => retention_label(limit) is None,
        },
{
    match limit {
        120 => Some("120"),
        240 => Some("240"),
        500 => Some("500"),
        1000 => Some("1,000 (Default)"),
        2000 => Some("2,000"),
        5000 => Some("5,000"),
        10000 => Some("10,000"),
        25000 => Some("25,000"),
        _ => None,
    }
}

// ---------------------------------------------------------------------------
// Which lines are kept
// ---------------------------------------------------------------------------

/// A line of robot or benchmark output, as opposed to an ordinary status.
pub open spec fn robot_output_line(s: Seq<char>) -> bool {
    ||| starts_with_text(s, "robot_v="@)
    ||| starts_with_text(s, "bench_v="@)
    ||| starts_with_text(s, "W/L "@)
    ||| starts_with_text(s, "Robot "@)
}

/// The history takes a line unless it is thinned out, or the status is in
/// performance mode and the line is robot output other than a move.
pub open spec fn history_admits_spec(throttled: bool, performance_mode: bool, status: Seq<char>) -> bool {
    &&& !throttled
    &&& !(performance_mode && robot_output_line(status) && !(contains_text(status, " event=move_applied "@)
        || contains_text(status, "Event: move applied."@)))
}

pub fn status_history_admits(throttled: bool, performance_mode: bool, status: &str) -> (r: bool)
    ensures
        r == history_admits_spec(throttled, performance_mode, status@),
{
    if throttled {
        return false;
    }
    if performance_mode && (text_starts_with(status, "robot_v=") || text_starts_with(status, "bench_v=")
        || text_starts_with(status, "W/L ") || text_starts_with(status, "Robot ")) {
        let is_move_line = text_contains(status, " event=move_applied ") || text_contains(
            status,
            "Event: move applied.",
        );
        if !is_move_line {
            return false;
        }
    }
    true
}

// ---------------------------------------------------------------------------
// The history itself
// ---------------------------------------------------------------------------

/// The retained status lines, oldest first.
pub struct StatusHistory {
    lines: VecDeque<String>,
}

impl View for StatusHistory {
    type V = Seq<Seq<char>>;

    closed spec fn view(&self) -> Seq<Seq<char>> {
        texts(self.lines@)
    }
}

/// The lines joined with line breaks.
pub open spec fn joined_lines(lines: Seq<Seq<char>>) -> Seq<char>
    decreases lines.len(),
{
    if lines.len() == 0 {
        Seq::empty()
    } else if lines.len() == 1 {
        lines[0]
    } else {
        joined_lines(lines.drop_last()) + seq!['\n'] + lines.last()
    }
}

impl StatusHistory {
    pub fn new() -> (r: Self)
        ensures
            r@ == Seq::<Seq<char>>::empty(),
    {
        let r = StatusHistory { lines: VecDeque::new() };
        assert(texts(r.lines@) =~= Seq::<Seq<char>>::empty());
        r
    }

    pub fn len(&self) -> (r: usize)
        ensures
            r == self@.len(),
    {
        self.lines.len()
    }

    /// Drops the oldest lines until at most `limit` remain.
    pub fn trim_to(&mut self, limit: usize)
        ensures
            final(self)@ == keep_last(old(self)@, limit as nat),
    {
        let ghost start = self@;
        assert(start.skip(0) =~= start);
        while self.lines.len() > limit
            invariant
                self@.len() <= start.len(),
                self@ == start.skip(start.len() - self@.len()),
                self@.len() >= limit || self@.len() == start.len(),
            decreases self@.len(),
        {
            let ghost before = self.lines@;
            let ghost tb = self@;
            let _ = self.lines.pop_front();
            assert(self.lines@ =~= before.subrange(1, before.len() as int));
            assert(self@ =~= tb.subrange(1, tb.len() as int));
            assert(self@ =~= start.skip(start.len() - self@.len()));
        }
    }

    /// Adds a line, then keeps the newest `limit` lines.
    pub fn push_line(&mut self, status: &str, limit: usize)
        ensures
            final(self)@ == keep_last(old(self)@.push(status@), limit as nat),
    {
        let ghost before = self.lines@;
        self.lines.push_back(String::from_str(status));
        assert(self@ =~= old(self)@.push(status@));
        self.trim_to(limit);
    }

    /// The history as one text, a line per entry.
    pub fn joined(&self) -> (r: String)
        ensures
            r@ == joined_lines(self@),
    {
        let mut out = String::new();
        let n = self.lines.len();
        if n == 0 {
            return out;
        }
        proof {
            reveal_strlit("\n");
            assert("\n"@ =~= seq!['\n']);
        }
        push_text(&mut out, self.lines[0].as_str());
        let mut i: usize = 1;
        assert(self@.take(1) =~= seq![self@[0]]);
        while i < n
            invariant
                n == self@.len(),
                1 <= i <= n,
                out@ == joined_lines(self@.take(i as int)),
                "\n"@ == seq!['\n'],
            decreases n - i,
        {
            push_text(&mut out, "\n");
            push_text(&mut out, self.lines[i].as_str());
            let ghost t = self@.take(i + 1);
            assert(t.drop_last() =~= self@.take(i as int));
            assert(t.last() == self@[i as int]);
            i += 1;
        }
        assert(self@.take(n as int) =~= self@);
        out
    }
}

// ---------------------------------------------------------------------------
// Decorating status lines
// ---------------------------------------------------------------------------

pub open spec fn secondary_hint() -> Seq<char> {
    "Secondary window: session and seed history are not auto-saved."@
}

/// The status as the window shows it: trimmed; with the chess robot's
/// summary appended when it plays (unless already there or the status is
/// empty); and in a secondary window, with a reminder that nothing is saved.
pub open spec fn decorate_spec(status: Seq<char>, chess_suffix: Option<Seq<char>>, primary: bool) -> Seq<char> {
    let trimmed = trim_spec(status);
    let with_robot = match chess_suffix {
        Some(suffix) => if trimmed.len() == 0 {
            suffix
        } else if contains_text(trimmed, suffix) {
            trimmed
        } else {
            trimmed + " | "@ + suffix
        },
        None => trimmed,
    };
    if primary {
        with_robot
    } else if with_robot.len() == 0 {
        secondary_hint()
    } else {
        with_robot + " | "@ + secondary_hint()
    }
}

pub open spec fn opt_text(s: Option<&str>) -> Option<Seq<char>> {
    match s {
        Some(x) => Some(x@),
        None => None,
    }
}

pub fn decorate_status_for_window(status: &str, chess_suffix: Option<&str>, primary: bool) -> (r: String)
    ensures
        r@ == decorate_spec(status@, opt_text(chess_suffix), primary),
{
    let trimmed = trim_text(status);
    let with_robot = match chess_suffix {
        Some(suffix) => if trimmed.unicode_len() == 0 {
            String::from_str(suffix)
        } else if text_contains(trimmed, suffix) {
            String::from_str(trimmed)
        } else {
            let mut s = String::from_str(trimmed);
            push_text(&mut s, " | ");
            push_text(&mut s, suffix);
            s
        },
        None => String::from_str(trimmed),
    };
    if primary {
        return with_robot;
    }
    if with_robot.as_str().unicode_len() == 0 {
        return String::from_str("Secondary window: session and seed history are not auto-saved.");
    }
    let mut out = with_robot;
    push_text(&mut out, " | ");
    push_text(&mut out, "Secondary window: session and seed history are not auto-saved.");
    out
}

/// The name of the variant in play, as the window title shows it.
pub open spec fn variant_name_spec(mode: GameMode, draw_count: u8, suit_count: u8, card_count: u8, cell_count: u8) -> Seq<char> {
    match mode {
        GameMode::Klondike => "Klondike Deal "@ + decimal_chars(draw_count as nat),
        GameMode::Spider => "Spider Suit "@ + decimal_chars(suit_count as nat),
        GameMode::Freecell => "FreeCell "@ + decimal_chars(card_count as nat) + " Cards | "@ + decimal_chars(
            cell_count as nat,
        ) + " Cells"@,
    }
}

pub fn current_variant_name(mode: GameMode, draw_count: u8, suit_count: u8, card_count: u8, cell_count: u8) -> (r: String)
    ensures
        r@ == variant_name_spec(mode, draw_count, suit_count, card_count, cell_count),
{
    match mode {
        GameMode::Klondike => {
            let mut s = String::from_str("Klondike Deal ");
            let n = decimal_text(draw_count as u64);
            push_text(&mut s, n.as_str());
            s
        },
        GameMode::Spider => {
            let mut s = String::from_str("Spider Suit ");
            let n = decimal_text(suit_count as u64);
            push_text(&mut s, n.as_str());
            s
        },
        GameMode::Freecell => {
            let mut s = String::from_str("FreeCell ");
            let c = decimal_text(card_count as u64);
            push_text(&mut s, c.as_str());
            push_text(&mut s, " Cards | ");
            let k = decimal_text(cell_count as u64);
            push_text(&mut s, k.as_str());
            push_text(&mut s, " Cells");
            s
        },
    }
}

/// The window title: the application, the variant, and the seed.
pub open spec fn window_title_spec(variant: Seq<char>, seed: u64) -> Seq<char> {
    "Cardthropic \u{2014} "@ + variant + " ("@ + decimal_chars(seed as nat) + ")"@
}

pub fn window_title(variant: &str, seed: u64) -> (r: String)
    ensures
        r@ == window_title_spec(variant@, seed),
{
    let mut s = String::from_str("Cardthropic \u{2014} ");
    push_text(&mut s, variant);
    push_text(&mut s, " (");
    let n = decimal_text(seed);
    push_text(&mut s, n.as_str());
    push_text(&mut s, ")");
    s
}

// ---------------------------------------------------------------------------
// Render timing
// ---------------------------------------------------------------------------

/// Render statistics: how many renders, their total and longest duration
/// in microseconds.
#[derive(Debug, Clone, Copy, PartialEq, Eq, Structural)]
pub struct RenderTimings {
    pub count: u64,
    pub total_us: u64,
    pub max_us: u64,
}

impl RenderTimings {
    pub fn new() -> (r: Self)
        ensures
            r == (RenderTimings { count: 0, total_us: 0, max_us: 0 }),
    {
        RenderTimings { count: 0, total_us: 0, max_us: 0 }
    }

    /// Counts one render of `elapsed_us` microseconds (saturating).
    pub fn record(&mut self, elapsed_us: u64)
        ensures
            final(self).count == (if old(self).count == u64::MAX { u64::MAX } else { (old(self).count + 1) as u64 }),
            final(self).total_us == (if old(self).total_us + elapsed_us > u64::MAX {
                u64::MAX
            } else {
                (old(self).total_us + elapsed_us) as u64
            }),
            final(self).max_us == (if elapsed_us > old(self).max_us { elapsed_us } else { old(self).max_us }),
    {
        self.count = self.count.saturating_add(1);
        self.total_us = self.total_us.saturating_add(elapsed_us);
        if elapsed_us > self.max_us {
            self.max_us = elapsed_us;
        }
    }
}

/// The match a history search lands on when its query changes: the first
/// one, if there is any.
pub fn status_history_find_first(match_count: usize) -> (r: Option<usize>)
    ensures
        r == (if match_count == 0 { None } else { Some(0usize) }),
{
    if match_count == 0 { None } else { Some(0) }
}

/// The match after `current` among `match_count`, wrapping to the first
/// (and the first when none was selected).
pub fn status_history_find_next(current: Option<usize>, match_count: usize) -> (r: Option<usize>)
    ensures
        match_count == 0 ==> r is None,
        match_count > 0 ==> r == Some(
            match current {
                Some(i) => ((i + 1) % (match_count as int)) as usize,
                None => 0usize,
            },
        ),
{
    if match_count == 0 {
        return None;
    }
    match current {
        Some(i) => {
            let next = if i < usize::MAX { (i + 1) % match_count } else { ((i % match_count) + 1) % match_count };
            proof {
                if i == usize::MAX {
                    assert((((i % match_count) + 1) % match_count as int) == ((i + 1) % (match_count as int))) by (nonlinear_arith)
                        requires
                            match_count > 0;
                }
            }
            Some(next)
        },
        None => Some(0),
    }
}

/// The match before `current` among `match_count`, wrapping from the first
/// to the last (and the first when none was selected).
pub fn status_history_find_previous(current: Option<usize>, match_count: usize) -> (r: Option<usize>)
    ensures
        match_count == 0 ==> r is None,
        match_count > 0 ==> r == Some(
            match current {
                Some(i) => if i == 0 { (match_count - 1) as usize } else { (i - 1) as usize },
                None => 0usize,
            },
        ),
{
    if match_count == 0 {
        return None;
    }
    match current {
        Some(i) => Some(if i == 0 { match_count - 1 } else { i - 1 }),
        None => Some(0),
    }
}

/// Law: stepping to the previous match undoes stepping to the next one.
pub proof fn lemma_find_previous_undoes_next(i: usize, match_count: usize)
    requires
        i < match_count,
    ensures
        ({
            let n = ((i + 1) % (match_count as int)) as usize;
            (if n == 0 { match_count - 1 } else { n - 1 }) == i
        }),
{
    if i + 1 < match_count {
        vstd::arithmetic::div_mod::lemma_small_mod((i + 1) as nat, match_count as nat);
    } else {
        vstd::arithmetic::div_mod::lemma_mod_self_0(match_count as int);
    }
}

} // verus!
