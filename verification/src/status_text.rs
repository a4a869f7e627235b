//! Reading and filtering status lines: the robot's move count in a status
//! line, which robot lines the history thins out at ludicrous speed, hiding
//! robot telemetry unless debugging, and searching the status history.

use vstd::prelude::*;
use crate::cards::Suit;
use crate::session_codec::{digits_value, is_digit};
use crate::session_fields::{trim_spec, trim_text};
use crate::text::chars_of;
use crate::theme_prefs::{contains_at, contains_chars, contains_text, lower_text, lowered};

verus! {

/// `needle` occurs in `hay` at `i`.
pub open spec fn occurs_at(hay: Seq<char>, needle: Seq<char>, i: int) -> bool {
    0 <= i && i + needle.len() <= hay.len() && hay.subrange(i, i + needle.len()) == needle
}

/// The first position at or after `from` where `needle` occurs.
pub open spec fn find_from(hay: Seq<char>, needle: Seq<char>, from: int) -> Option<int>
    decreases hay.len() - from,
{
    if from < 0 || from + needle.len() > hay.len() {
        None
    } else if occurs_at(hay, needle, from) {
        Some(from)
    } else if from >= hay.len() {
        None
    } else {
        find_from(hay, needle, from + 1)
    }
}

pub fn text_contains(hay: &str, needle: &str) -> (r: bool)
    ensures
        r == contains_text(hay@, needle@),
{
    let h = chars_of(hay);
    let n = chars_of(needle);
    contains_chars(&h, &n)
}

/// `hay` begins with `prefix`.
pub open spec fn starts_with_text(hay: Seq<char>, prefix: Seq<char>) -> bool {
    prefix.len() <= hay.len() && hay.subrange(0, prefix.len() as int) == prefix
}

pub fn text_starts_with(hay: &str, prefix: &str) -> (r: bool)
    ensures
        r == starts_with_text(hay@, prefix@),
{
    let h = chars_of(hay);
    let p = chars_of(prefix);
    if p.len() > h.len() {
        return false;
    }
    contains_at(&h, &p, 0)
}

/// The first position at or after `from` where `needle` occurs in `hay`.
fn find_chars(hay: &Vec<char>, needle: &Vec<char>, from: usize) -> (r: Option<usize>)
    ensures
        r matches Some(i) ==> find_from(hay@, needle@, from as int) == Some(i as int),
        r is None ==> find_from(hay@, needle@, from as int) is None,
{
    let mut i = from;
    loop
        invariant
            from <= i,
            find_from(hay@, needle@, from as int) == find_from(hay@, needle@, i as int),
        decreases hay@.len() + 1 - i,
    {
        if needle.len() > hay.len() || i > hay.len() - needle.len() {
            return None;
        }
        if contains_at(hay, needle, i) {
            return Some(i);
        }
        if i >= hay.len() {
            return None;
        }
        i += 1;
    }
}

// ---------------------------------------------------------------------------
// The robot's move count
// ---------------------------------------------------------------------------

pub open spec fn robot_moves_marker() -> Seq<char> {
    " robot_moves="@
}

/// The longest run of ASCII digits starting at `from`, as its end position.
pub open spec fn digit_run_end(s: Seq<char>, from: int) -> int
    decreases s.len() - from,
{
    if from < 0 || from >= s.len() || !is_digit(s[from]) {
        from
    } else {
        digit_run_end(s, from + 1)
    }
}

/// The number after the first ` robot_moves=` in a status line, if digits
/// follow it and their value fits in a `u32`.
pub open spec fn robot_moves_spec(status: Seq<char>) -> Option<u32> {
    match find_from(status, robot_moves_marker(), 0) {
        None => None,
        Some(p) => {
            let start = p + robot_moves_marker().len();
            let end = digit_run_end(status, start);
            if end == start || digits_value(status.subrange(start, end)) > u32::MAX {
                None
            } else {
                Some(digits_value(status.subrange(start, end)) as u32)
            }
        },
    }
}

proof fn lemma_digit_run(s: Seq<char>, from: int)
    requires
        0 <= from <= s.len(),
    ensures
        from <= digit_run_end(s, from) <= s.len(),
        forall|k: int| from <= k < digit_run_end(s, from) ==> #[trigger] is_digit(s[k]),
    decreases s.len() - from,
{
    if from < s.len() && is_digit(s[from]) {
        lemma_digit_run(s, from + 1);
    }
}

proof fn lemma_digits_value_push(s: Seq<char>, c: char)
    requires
        is_digit(c),
    ensures
        digits_value(s.push(c)) == digits_value(s) * 10 + ((c as u32) - 48),
{
    assert(s.push(c).drop_last() =~= s);
}

/// Reads the robot's move count out of a status line.
pub fn parse_robot_moves_from_status(status: &str) -> (r: Option<u32>)
    ensures
        r == robot_moves_spec(status@),
{
    let s = chars_of(status);
    let marker = chars_of(" robot_moves=");
    let p = match find_chars(&s, &marker, 0) {
        Some(p) => p,
        None => {
            return None;
        },
    };
    proof {
        lemma_find_found(s@, marker@, 0, p as int);
    }
    let slen = s.len();
    assert(p + marker@.len() <= slen);
    let start = p + marker.len();
    proof {
        lemma_digit_run(s@, start as int);
    }
    let mut end = start;
    let mut value: u64 = 0;
    assert(s@.subrange(start as int, start as int) =~= Seq::<char>::empty());
    while end < s.len() && '0' <= s[end] && s[end] <= '9'
        invariant
            start <= end <= s@.len(),
            digit_run_end(s@, start as int) == digit_run_end(s@, end as int),
            value == digits_value(s@.subrange(start as int, end as int)) || value > u32::MAX,
            value <= u32::MAX + 1,
            digits_value(s@.subrange(start as int, end as int)) > u32::MAX ==> value == u32::MAX + 1,
            value == u32::MAX + 1 ==> digits_value(s@.subrange(start as int, end as int)) > u32::MAX,
        decreases s@.len() - end,
    {
        let c = s[end];
        let d = (c as u32 - 48) as u64;
        let ghost before = s@.subrange(start as int, end as int);
        assert(s@.subrange(start as int, end + 1) =~= before.push(c));
        proof {
            lemma_digits_value_push(before, c);
        }
        if value <= u32::MAX as u64 {
            let next = value * 10 + d;
            value = if next > u32::MAX as u64 { u32::MAX as u64 + 1 } else { next };
        }
        end += 1;
    }
    if end == start {
        return None;
    }
    if value > u32::MAX as u64 {
        return None;
    }
    Some(value as u32)
}

proof fn lemma_find_found(h: Seq<char>, n: Seq<char>, from: int, p: int)
    requires
        find_from(h, n, from) == Some(p),
    ensures
        occurs_at(h, n, p),
    decreases h.len() - from,
{
    if !(from < 0 || from + n.len() > h.len()) && !occurs_at(h, n, from) && from < h.len() {
        lemma_find_found(h, n, from + 1, p);
    }
}

// ---------------------------------------------------------------------------
// Thinning and hiding robot lines
// ---------------------------------------------------------------------------

/// While debugging at ludicrous speed, robot lines about the planner waiting
/// (kept one in sixteen) or being ready (kept one in eight) are thinned out
/// by the robot's move count; applied moves are always kept.
pub open spec fn throttle_spec(debug: bool, ludicrous: bool, status: Seq<char>) -> bool {
    if !debug || !ludicrous || !starts_with_text(status, "robot_v="@) {
        false
    } else if contains_text(status, " event=move_applied "@) {
        false
    } else {
        let sample: int = if contains_text(status, " event=planner_wait "@) {
            16
        } else if contains_text(status, " event=planner_ready "@) {
            8
        } else {
            0
        };
        sample != 0 && match robot_moves_spec(status) {
            Some(m) => (m as int) % sample != 0,
            None => false,
        }
    }
}

pub fn should_throttle_robot_history_line(debug: bool, ludicrous: bool, status: &str) -> (r: bool)
    ensures
        r == throttle_spec(debug, ludicrous, status@),
{
    if !debug || !ludicrous {
        return false;
    }
    if !text_starts_with(status, "robot_v=") {
        return false;
    }
    if text_contains(status, " event=move_applied ") {
        return false;
    }
    let sample: u32 = if text_contains(status, " event=planner_wait ") {
        16
    } else if text_contains(status, " event=planner_ready ") {
        8
    } else {
        0
    };
    if sample == 0 {
        return false;
    }
    match parse_robot_moves_from_status(status) {
        Some(moves) => moves % sample != 0,
        None => false,
    }
}

/// The markers of detailed robot telemetry.
pub open spec fn telemetry_markers() -> Seq<Seq<char>> {
    seq![
        "robot_v="@,
        "bench_v="@,
        " strategy="@,
        " state="@,
        " event="@,
        " detail=\""@,
        " move_kind="@,
        "state_hash="@,
        "progress_kind="@,
        "stock_cards="@,
        "tableau_empty_cols="@,
        "app_moves="@,
        "solver_source="@,
        "draw_from_stock_cards="@,
        "recycle_cards="@,
        "win_rate_pct="@,
    ]
}

pub open spec fn telemetry_hidden_text() -> Seq<char> {
    "Robot telemetry hidden. Enable Robot Debug to view detailed diagnostics."@
}

/// Status lines as shown: unless debugging, a line with robot telemetry is
/// replaced by a note that it is hidden.
pub open spec fn sanitize_spec(debug: bool, status: Seq<char>) -> Seq<char> {
    if !debug && exists|i: int| 0 <= i < telemetry_markers().len() && contains_text(status, #[trigger] telemetry_markers()[i]) {
        telemetry_hidden_text()
    } else {
        status
    }
}

fn telemetry_marker(i: usize) -> (r: &'static str)
    requires
        i < 16,
    ensures
        r@ == telemetry_markers()[i as int],
{
    match i {
        0 => "robot_v=",
        1 => "bench_v=",
        2 => " strategy=",
        3 => " state=",
        4 => " event=",
        5 => " detail=\"",
        6 => " move_kind=",
        7 => "state_hash=",
        8 => "progress_kind=",
        9 => "stock_cards=",
        10 => "tableau_empty_cols=",
        11 => "app_moves=",
        12 => "solver_source=",
        13 => "draw_from_stock_cards=",
        14 => "recycle_cards=",
        _ => "win_rate_pct=",
    }
}

pub fn sanitize_status_for_display(debug: bool, status: &str) -> (r: String)
    ensures
        r@ == sanitize_spec(debug, status@),
{
    if debug {
        return String::from_str(status);
    }
    let mut i: usize = 0;
    while i < 16
        invariant
            !debug,
            i <= 16,
            telemetry_markers().len() == 16,
            forall|j: int| 0 <= j < i ==> !contains_text(status@, #[trigger] telemetry_markers()[j]),
        decreases 16 - i,
    {
        if text_contains(status, telemetry_marker(i)) {
            assert(contains_text(status@, telemetry_markers()[i as int]));
            return String::from_str("Robot telemetry hidden. Enable Robot Debug to view detailed diagnostics.");
        }
        i += 1;
    }
    String::from_str(status)
}

/// The status line stays in performance mode (plain lines only) while the
/// robot plays unattended: running, ludicrous, forever, new game on loss,
/// and not debugging.
pub fn status_performance_mode_active(
    running: bool,
    ludicrous: bool,
    forever: bool,
    auto_new_game_on_loss: bool,
    debug: bool,
) -> (r: bool)
    ensures
        r == (running && ludicrous && forever && auto_new_game_on_loss && !debug),
{
    running && ludicrous && forever && auto_new_game_on_loss && !debug
}

// ---------------------------------------------------------------------------
// The status history
// ---------------------------------------------------------------------------

/// Lines and characters of a text: an empty text has no line, else one more
/// line than it has line breaks.
pub open spec fn newline_count(s: Seq<char>) -> nat
    decreases s.len(),
{
    if s.len() == 0 {
        0
    } else {
        newline_count(s.drop_last()) + if s.last() == '\n' { 1nat } else { 0nat }
    }
}

pub fn status_history_text_counts(text: &str) -> (r: (usize, usize))
    ensures
        r.1 == text@.len(),
        r.0 == (if text@.len() == 0 {
            0int
        } else if newline_count(text@) >= usize::MAX {
            usize::MAX as int
        } else {
            newline_count(text@) + 1int
        }),
{
    let cs = chars_of(text);
    let mut breaks: usize = 0;
    let mut i: usize = 0;
    while i < cs.len()
        invariant
            i <= cs@.len(),
            breaks == newline_count(cs@.take(i as int)),
            breaks <= i,
        decreases cs@.len() - i,
    {
        let ghost t = cs@.take(i + 1);
        assert(t.drop_last() =~= cs@.take(i as int));
        if cs[i] == '\n' {
            breaks += 1;
        }
        i += 1;
    }
    assert(cs@.take(cs@.len() as int) =~= cs@);
    let lines = if cs.len() == 0 {
        0
    } else if breaks == usize::MAX {
        usize::MAX
    } else {
        breaks + 1
    };
    (lines, cs.len())
}

/// The places, as character offsets, where the search text (trimmed, any
/// ASCII case) occurs in the history, left to right and not overlapping,
/// starting at `from`.
pub open spec fn matches_from(h: Seq<char>, q: Seq<char>, from: int) -> Seq<(int, int)>
    decreases h.len() + 1 - from,
{
    if q.len() == 0 || from < 0 || from > h.len() {
        Seq::empty()
    } else {
        match find_from(h, q, from) {
            None => Seq::empty(),
            Some(p) => if p >= from && p + q.len() <= h.len() {
                seq![(p, p + q.len())] + matches_from(h, q, p + q.len())
            } else {
                Seq::empty()
            },
        }
    }
}

pub open spec fn find_matches_spec(haystack: Seq<char>, query: Seq<char>) -> Seq<(int, int)> {
    matches_from(lower_text(haystack), lower_text(trim_spec(query)), 0)
}

proof fn lemma_find_from_ge(h: Seq<char>, n: Seq<char>, from: int)
    ensures
        find_from(h, n, from) matches Some(p) ==> p >= from && p + n.len() <= h.len(),
    decreases h.len() - from,
{
    if !(from < 0 || from + n.len() > h.len()) && !occurs_at(h, n, from) && from < h.len() {
        lemma_find_from_ge(h, n, from + 1);
    }
}

pub open spec fn offsets_view(v: Seq<(i32, i32)>) -> Seq<(int, int)> {
    v.map_values(|x: (i32, i32)| (x.0 as int, x.1 as int))
}

/// The matches of the history search, as character offsets. Offsets are
/// `i32`, as the text buffer takes them; the history is required to be
/// shorter than `i32::MAX` characters.
pub fn status_history_find_match_offsets(haystack: &str, query: &str) -> (r: Vec<(i32, i32)>)
    requires
        haystack@.len() < i32::MAX,
    ensures
        offsets_view(r@) == find_matches_spec(haystack@, query@),
{
    let trimmed = trim_text(query);
    let h = lowered(&chars_of(haystack));
    let q = lowered(&chars_of(trimmed));
    let mut out: Vec<(i32, i32)> = Vec::new();
    if q.len() == 0 {
        return out;
    }
    let mut from: usize = 0;
    loop
        invariant
            h@ == lower_text(haystack@),
            q@ == lower_text(trim_spec(query@)),
            q@.len() > 0,
            from <= h@.len(),
            h@.len() < i32::MAX,
            offsets_view(out@) + matches_from(h@, q@, from as int) == find_matches_spec(haystack@, query@),
        decreases h@.len() + 1 - from,
    {
        proof {
            lemma_find_from_ge(h@, q@, from as int);
        }
        match find_chars(&h, &q, from) {
            None => {
                assert(offsets_view(out@) + matches_from(h@, q@, from as int) =~= offsets_view(out@));
                return out;
            },
            Some(p) => {
                let end = p + q.len();
                assert(matches_from(h@, q@, from as int) == seq![(p as int, end as int)] + matches_from(h@, q@, end as int));
                let ghost old_out = out@;
                out.push((p as i32, end as i32));
                assert(offsets_view(out@) =~= offsets_view(old_out).push((p as int, end as int)));
                assert(offsets_view(out@) + matches_from(h@, q@, end as int) =~= offsets_view(old_out)
                    + matches_from(h@, q@, from as int));
                from = end;
            },
        }
    }
}

/// The suit symbol drawn on text cards.
pub open spec fn suit_symbol(suit: Suit) -> Seq<char> {
    match suit {
        Suit::Clubs => "♣"@,
        Suit::Diamonds => "♦"@,
        Suit::Hearts => "♥"@,
        Suit::Spades => "♠"@,
    }
}

pub fn unicode_suit(suit: Suit) -> (r: &'static str)
    ensures
        r@ == suit_symbol(suit),
{
    match suit {
        Suit::Clubs => "♣",
        Suit::Diamonds => "♦",
        Suit::Hearts => "♥",
        Suit::Spades => "♠",
    }
}

} // verus!
