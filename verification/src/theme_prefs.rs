//! Appearance preferences and the theme preset list: the stored appearance
//! mode, the search filter of the preset list, keyboard navigation through
//! its visible rows, and quoting a font family for CSS.

use vstd::prelude::*;
use crate::session_fields::{is_white, is_white_char, trim_spec, trim_text};
use crate::text::{chars_of, same_text};

verus! {

// ---------------------------------------------------------------------------
// Appearance mode
// ---------------------------------------------------------------------------

/// Light or dark appearance, or whatever the system prefers.
#[derive(Debug, Clone, Copy, PartialEq, Eq, Structural)]
pub enum AppearanceMode {
    System,
    Light,
    Dark,
}

pub open spec fn appearance_setting(m: AppearanceMode) -> Seq<char> {
    match m {
        AppearanceMode::System => "system"@,
        AppearanceMode::Light => "light"@,
        AppearanceMode::Dark => "dark"@,
    }
}

/// The mode stored under a setting text; anything unknown means the system's.
pub open spec fn appearance_from_text(s: Seq<char>) -> AppearanceMode {
    if s == "light"@ {
        AppearanceMode::Light
    } else if s == "dark"@ {
        AppearanceMode::Dark
    } else {
        AppearanceMode::System
    }
}

impl AppearanceMode {
    pub fn as_setting(self) -> (r: &'static str)
        ensures
            r@ == appearance_setting(self),
    {
        match self {
            Self::System => "system",
            Self::Light => "light",
            Self::Dark => "dark",
        }
    }

    pub fn from_setting(value: &str) -> (r: Self)
        ensures
            r == appearance_from_text(value@),
    {
        if same_text(value, "light") {
            Self::Light
        } else if same_text(value, "dark") {
            Self::Dark
        } else {
            Self::System
        }
    }
}

/// Law: an appearance mode read back from the text it is stored under is the same mode.
pub proof fn lemma_appearance_setting_roundtrip(m: AppearanceMode)
    ensures
        appearance_from_text(appearance_setting(m)) == m,
{
    reveal_strlit("system");
    reveal_strlit("light");
    reveal_strlit("dark");
    assert("system"@ != "light"@ && "system"@ != "dark"@ && "light"@ != "dark"@) by {
        assert("system"@.len() != "light"@.len());
        assert("system"@.len() != "dark"@.len());
        assert("light"@.len() != "dark"@.len());
    }
}

// ---------------------------------------------------------------------------
// Preset search
// ---------------------------------------------------------------------------

/// ASCII letters in lower case; every other character as it is.
pub open spec fn ascii_lower(c: char) -> char {
    if 'A' <= c <= 'Z' {
        ((c as u32) + 32) as char
    } else {
        c
    }
}

pub open spec fn lower_text(s: Seq<char>) -> Seq<char> {
    s.map_values(|c: char| ascii_lower(c))
}

/// `needle` occurs in `hay` as a contiguous piece.
pub open spec fn contains_text(hay: Seq<char>, needle: Seq<char>) -> bool {
    exists|i: int| 0 <= i <= hay.len() - needle.len() && #[trigger] hay.subrange(i, i + needle.len()) == needle
}

/// `q` can be read off `s` in order, skipping characters of `s`.
pub open spec fn subsequence(q: Seq<char>, s: Seq<char>) -> bool
    decreases s.len(),
{
    if q.len() == 0 {
        true
    } else if s.len() == 0 {
        false
    } else if s[0] == q[0] {
        subsequence(q.skip(1), s.skip(1))
    } else {
        subsequence(q, s.skip(1))
    }
}

/// The characters of `s` that are not whitespace, in lower case.
pub open spec fn query_letters(s: Seq<char>) -> Seq<char> {
    lower_text(s.filter(|c: char| !is_white(c)))
}

/// Whether a preset's name matches the search text: an empty search matches
/// everything; else the name contains the search (ignoring ASCII case), or
/// the search's letters appear in the name in order.
pub open spec fn preset_matches_spec(name: Seq<char>, query: Seq<char>) -> bool {
    let trimmed = trim_spec(query);
    ||| trimmed.len() == 0
    ||| contains_text(lower_text(name), lower_text(trimmed))
    ||| subsequence(query_letters(trimmed), lower_text(name))
}

fn ascii_lower_char(c: char) -> (r: char)
    ensures
        r == ascii_lower(c),
{
    if 'A' <= c && c <= 'Z' {
        let b = (c as u32) as u8;
        (b + 32) as char
    } else {
        c
    }
}

pub fn lowered(cs: &Vec<char>) -> (r: Vec<char>)
    ensures
        r@ == lower_text(cs@),
{
    let mut out: Vec<char> = Vec::new();
    let mut i: usize = 0;
    while i < cs.len()
        invariant
            i <= cs@.len(),
            out@ == lower_text(cs@.take(i as int)),
        decreases cs@.len() - i,
    {
        out.push(ascii_lower_char(cs[i]));
        i += 1;
        assert(out@ =~= lower_text(cs@.take(i as int)));
    }
    assert(cs@.take(cs@.len() as int) =~= cs@);
    out
}

pub fn contains_at(hay: &Vec<char>, needle: &Vec<char>, i: usize) -> (r: bool)
    requires
        i + needle.len() <= hay.len(),
    ensures
        r == (hay@.subrange(i as int, i + needle@.len()) == needle@),
{
    let mut k: usize = 0;
    while k < needle.len()
        invariant
            i + needle@.len() <= hay.len(),
            hay@.len() == hay.len(),
            k <= needle@.len(),
            forall|j: int| 0 <= j < k ==> hay@[i + j] == needle@[j],
        decreases needle@.len() - k,
    {
        assert(i + k < hay@.len());
        if hay[i + k] != needle[k] {
            assert(hay@.subrange(i as int, i + needle@.len())[k as int] != needle@[k as int]);
            return false;
        }
        k += 1;
    }
    assert(hay@.subrange(i as int, i + needle@.len()) =~= needle@);
    true
}

pub fn contains_chars(hay: &Vec<char>, needle: &Vec<char>) -> (r: bool)
    ensures
        r == contains_text(hay@, needle@),
{
    if needle.len() > hay.len() {
        return false;
    }
    if needle.len() == 0 {
        assert(hay@.subrange(0int, 0int + needle@.len()) =~= needle@);
        return true;
    }
    let starts = hay.len() - needle.len() + 1;
    let mut i: usize = 0;
    while i < starts
        invariant
            starts == hay@.len() - needle@.len() + 1,
            1 <= needle@.len() <= hay@.len(),
            i <= starts,
            forall|j: int| 0 <= j < i ==> #[trigger] hay@.subrange(j, j + needle@.len()) != needle@,
        decreases starts - i,
    {
        if contains_at(hay, needle, i) {
            return true;
        }
        i += 1;
    }
    false
}

fn letters_of(cs: &Vec<char>) -> (r: Vec<char>)
    ensures
        r@ == query_letters(cs@),
{
    let mut out: Vec<char> = Vec::new();
    let mut i: usize = 0;
    while i < cs.len()
        invariant
            i <= cs@.len(),
            out@ == query_letters(cs@.take(i as int)),
        decreases cs@.len() - i,
    {
        let c = cs[i];
        let ghost before = cs@.take(i as int);
        let ghost after = cs@.take(i + 1);
        assert(after.drop_last() =~= before);
        assert(after =~= before.push(c));
        proof {
            lemma_filter_push(before, c);
        }
        let ghost f = before.filter(|x: char| !is_white(x));
        if !is_white_char(c) {
            out.push(ascii_lower_char(c));
            assert(lower_text(f.push(c)) =~= lower_text(f).push(ascii_lower(c)));
        }
        i += 1;
        assert(out@ =~= query_letters(cs@.take(i as int)));
    }
    assert(cs@.take(cs@.len() as int) =~= cs@);
    out
}

proof fn lemma_filter_push(s: Seq<char>, c: char)
    ensures
        s.push(c).filter(|x: char| !is_white(x)) == (if !is_white(c) {
            s.filter(|x: char| !is_white(x)).push(c)
        } else {
            s.filter(|x: char| !is_white(x))
        }),
{
    reveal(Seq::filter);
    assert(s.push(c).drop_last() =~= s);
}

/// Greedy in-order matching of `q` against `s` from position `i` with `k`
/// letters matched equals the subsequence test.
proof fn lemma_greedy_step(q: Seq<char>, s: Seq<char>, i: int, k: int)
    requires
        0 <= i < s.len(),
        0 <= k < q.len(),
    ensures
        subsequence(q.skip(k), s.skip(i)) == (if s[i] == q[k] {
            subsequence(q.skip(k + 1), s.skip(i + 1))
        } else {
            subsequence(q.skip(k), s.skip(i + 1))
        }),
{
    assert(s.skip(i)[0] == s[i]);
    assert(q.skip(k)[0] == q[k]);
    assert(s.skip(i).skip(1) =~= s.skip(i + 1));
    assert(q.skip(k).skip(1) =~= q.skip(k + 1));
}

fn subsequence_of(q: &Vec<char>, s: &Vec<char>) -> (r: bool)
    ensures
        r == subsequence(q@, s@),
{
    let mut k: usize = 0;
    let mut i: usize = 0;
    assert(q@.skip(0) =~= q@);
    assert(s@.skip(0) =~= s@);
    while i < s.len() && k < q.len()
        invariant
            i <= s@.len(),
            k <= q@.len(),
            subsequence(q@, s@) == subsequence(q@.skip(k as int), s@.skip(i as int)),
        decreases s@.len() - i,
    {
        proof {
            lemma_greedy_step(q@, s@, i as int, k as int);
        }
        if s[i] == q[k] {
            k += 1;
        }
        i += 1;
    }
    assert(q@.skip(k as int).len() == q@.len() - k);
    assert(s@.skip(i as int).len() == s@.len() - i);
    k == q.len()
}

/// The search filter of the theme preset list.
pub fn theme_preset_matches_query(name: &str, query: &str) -> (r: bool)
    ensures
        r == preset_matches_spec(name@, query@),
{
    let trimmed = trim_text(query);
    let t = chars_of(trimmed);
    if t.len() == 0 {
        return true;
    }
    let n = chars_of(name);
    let lowered_name = lowered(&n);
    let lowered_query = lowered(&t);
    if contains_chars(&lowered_name, &lowered_query) {
        return true;
    }
    let letters = letters_of(&t);
    if letters.len() == 0 {
        return true;
    }
    subsequence_of(&letters, &lowered_name)
}

// ---------------------------------------------------------------------------
// Keyboard navigation in the preset list
// ---------------------------------------------------------------------------

/// Arrow keys: the next visible row down (or up), staying at the ends; with
/// no row selected, the first (or last) one. `None` when no row is visible.
pub fn next_visible_row(current: Option<usize>, direction: i32, visible: usize) -> (r: Option<usize>)
    ensures
        visible == 0 ==> r is None,
        visible > 0 ==> r == Some(match current {
            Some(c) => if direction >= 0 {
                if c + 1 <= visible - 1 { (c + 1) as usize } else { (visible - 1) as usize }
            } else {
                if c >= 1 { (c - 1) as usize } else { 0usize }
            },
            None => if direction >= 0 { 0usize } else { (visible - 1) as usize },
        }),
{
    if visible == 0 {
        return None;
    }
    let last = visible - 1;
    let next = match current {
        Some(c) => if direction >= 0 {
            let up = c.saturating_add(1);
            if up <= last { up } else { last }
        } else {
            c.saturating_sub(1)
        },
        None => if direction >= 0 { 0 } else { last },
    };
    Some(next)
}

/// Page keys: the row one page further down (or up), staying at the ends.
pub fn page_visible_row(current: Option<usize>, direction: i32, page: usize, visible: usize) -> (r: Option<usize>)
    ensures
        visible == 0 ==> r is None,
        visible > 0 ==> r == Some({
            let start: int = match current {
                Some(c) => c as int,
                None => if direction >= 0 { 0 } else { visible - 1 },
            };
            (if direction >= 0 {
                if start + page <= visible - 1 { start + page } else { visible - 1 }
            } else {
                if start >= page { start - page } else { 0 }
            }) as usize
        }),
{
    if visible == 0 {
        return None;
    }
    let last = visible - 1;
    let start = match current {
        Some(c) => c,
        None => if direction >= 0 { 0 } else { last },
    };
    let next = if direction >= 0 {
        let down = start.saturating_add(page);
        if down <= last { down } else { last }
    } else {
        start.saturating_sub(page)
    };
    Some(next)
}

/// Rows per page: as many rows as the viewport shows (at least one, at most
/// all), or up to eight while the viewport has no height yet.
pub fn page_step(visible: usize, viewport_height: i32, row_height: i32) -> (r: usize)
    ensures
        visible == 0 ==> r == 1,
        visible > 0 && viewport_height <= 1 ==> r == if visible < 8 { visible } else { 8 },
        visible > 0 && viewport_height > 1 ==> {
            let rh: int = if row_height < 1 { 1 } else { row_height as int };
            let fit: int = if (viewport_height as int) / rh < 1 { 1 } else { (viewport_height as int) / rh };
            r == if fit < visible { fit } else { visible as int }
        },
{
    if visible == 0 {
        return 1;
    }
    if viewport_height <= 1 {
        return if visible < 8 { visible } else { 8 };
    }
    let rh: i32 = if row_height < 1 { 1 } else { row_height };
    let q = viewport_height / rh;
    let fit: usize = if q < 1 { 1 } else { q as usize };
    if fit < visible { fit } else { visible }
}

// ---------------------------------------------------------------------------
// CSS strings
// ---------------------------------------------------------------------------

/// Backslashes and double quotes escaped with a backslash.
pub open spec fn css_escaped(s: Seq<char>) -> Seq<char>
    decreases s.len(),
{
    if s.len() == 0 {
        Seq::empty()
    } else {
        let c = s.last();
        css_escaped(s.drop_last()) + if c == '\\' || c == '"' { seq!['\\', c] } else { seq![c] }
    }
}

/// A text made safe to stand inside a double-quoted CSS string.
pub fn css_string_literal(value: &str) -> (r: String)
    ensures
        r@ == css_escaped(value@),
{
    let cs = chars_of(value);
    let mut out = String::new();
    let mut i: usize = 0;
    proof {
        reveal_strlit("\\\\");
        reveal_strlit("\\\"");
    }
    while i < cs.len()
        invariant
            i <= cs@.len(),
            out@ == css_escaped(cs@.take(i as int)),
            "\\\\"@ == seq!['\\', '\\'],
            "\\\""@ == seq!['\\', '"'],
        decreases cs@.len() - i,
    {
        let c = cs[i];
        let ghost t = cs@.take(i + 1);
        assert(t.drop_last() =~= cs@.take(i as int));
        if c == '\\' {
            crate::text::push_text(&mut out, "\\\\");
        } else if c == '"' {
            crate::text::push_text(&mut out, "\\\"");
        } else {
            crate::text::push_char(&mut out, c);
        }
        i += 1;
        assert(out@ =~= css_escaped(cs@.take(i as int)));
    }
    assert(cs@.take(cs@.len() as int) =~= cs@);
    out
}

} // verus!
