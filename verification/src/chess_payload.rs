//! Reading chess state pasted as text: a FEN on its own, or PGN headers,
//! `fen=` / `fen:` lines, a UCI `position fen` command, or any six-field
//! line, possibly naming the variant. This module finds the variant hint
//! and the FEN text and orders the variants to try the FEN with; reading
//! the FEN itself belongs to the chess rules.

use vstd::prelude::*;
use vstd::string::StrSliceExecFns;
use crate::chess_notation::{chess_variant_from_hint, hinted_variant, parse_pgn_tag_line, pgn_tag_spec, ChessVariant};
use crate::session_fields::{
    find_from, find_in, is_white, is_white_char, lemma_find_from_bounds, lemma_find_sub, trim_spec, trim_text,
};
use crate::status_text::{starts_with_text, text_starts_with};
use crate::theme_prefs::{lower_text, lowered};
use crate::shortcut_text::opt_view;
use crate::snapshot_stack::string_views;
use crate::text::{chars_of, push_text};

verus! {

/// The first whitespace position at or after `i`, or the end.
pub open spec fn first_white(s: Seq<char>, i: int) -> int
    decreases s.len() - i,
{
    if i < 0 || i >= s.len() {
        s.len() as int
    } else if is_white(s[i]) {
        i
    } else {
        first_white(s, i + 1)
    }
}

pub proof fn lemma_first_white_bounds(s: Seq<char>, i: int)
    requires
        0 <= i <= s.len(),
    ensures
        i <= first_white(s, i) <= s.len(),
        forall|j: int| i <= j < first_white(s, i) ==> !is_white(#[trigger] s[j]),
        first_white(s, i) < s.len() ==> is_white(s[first_white(s, i)]),
    decreases s.len() - i,
{
    if i < s.len() && !is_white(s[i]) {
        lemma_first_white_bounds(s, i + 1);
    }
}

/// The whitespace-separated words of `s` from position `i` on, as
/// `split_whitespace` yields them.
pub open spec fn words_from(s: Seq<char>, i: int) -> Seq<Seq<char>>
    decreases s.len() - i,
{
    if i < 0 || i >= s.len() {
        Seq::empty()
    } else if is_white(s[i]) {
        words_from(s, i + 1)
    } else {
        let e = first_white(s, i + 1);
        proof {
            lemma_first_white_bounds(s, i + 1);
        }
        seq![s.subrange(i, e)] + words_from(s, e)
    }
}

pub open spec fn words(s: Seq<char>) -> Seq<Seq<char>> {
    words_from(s, 0)
}

/// The words joined with single spaces.
pub open spec fn join_spaces(ws: Seq<Seq<char>>) -> Seq<char>
    decreases ws.len(),
{
    if ws.len() == 0 {
        Seq::empty()
    } else if ws.len() == 1 {
        ws[0]
    } else {
        join_spaces(ws.drop_last()) + seq![' '] + ws.last()
    }
}

/// The words of a text.
fn split_words(s: &str) -> (r: Vec<String>)
    ensures
        string_views(r@) == words(s@),
{
    let cs = chars_of(s);
    let n = cs.len();
    let mut out: Vec<String> = Vec::new();
    let mut i: usize = 0;
    assert(string_views(out@) + words_from(s@, 0) =~= words_from(s@, 0));
    while i < n
        invariant
            i <= n,
            n == s@.len(),
            cs@ == s@,
            string_views(out@) + words_from(s@, i as int) == words_from(s@, 0),
        decreases n - i,
    {
        if is_white_char(cs[i]) {
            i += 1;
        } else {
            let mut e = i + 1;
            while e < n && !is_white_char(cs[e])
                invariant
                    i < e <= n,
                    n == s@.len(),
                    cs@ == s@,
                    first_white(s@, i as int + 1) == first_white(s@, e as int),
                decreases n - e,
            {
                e += 1;
            }
            let ghost before = string_views(out@);
            out.push(String::from_str(s.substring_char(i, e)));
            proof {
                assert(string_views(out@) =~= before.push(s@.subrange(i as int, e as int)));
                assert(before.push(s@.subrange(i as int, e as int)) + words_from(s@, e as int) =~= before + (seq![
                    s@.subrange(i as int, e as int),
                ] + words_from(s@, e as int)));
            }
            i = e;
        }
    }
    assert(words_from(s@, i as int) =~= Seq::<Seq<char>>::empty());
    assert(string_views(out@) + Seq::<Seq<char>>::empty() =~= string_views(out@));
    out
}

/// The first six words of a text joined with single spaces, if it has six.
fn first_six_words(s: &str) -> (r: Option<String>)
    ensures
        words(s@).len() >= 6 ==> (r matches Some(t) && t@ == join_spaces(words(s@).take(6))),
        words(s@).len() < 6 ==> r is None,
{
    let ws = split_words(s);
    if ws.len() < 6 {
        return None;
    }
    let mut out = ws[0].clone();
    let ghost v = string_views(ws@);
    proof {
        assert(v.take(1) =~= seq![v[0]]);
    }
    let mut i: usize = 1;
    while i < 6
        invariant
            1 <= i <= 6,
            6 <= ws@.len(),
            v == string_views(ws@),
            out@ == join_spaces(v.take(i as int)),
        decreases 6 - i,
    {
        push_text(&mut out, " ");
        push_text(&mut out, ws[i].as_str());
        proof {
            reveal_strlit(" ");
            let t = v.take(i + 1);
            assert(t.drop_last() =~= v.take(i as int));
            assert(out@ =~= join_spaces(t.drop_last()) + seq![' '] + t.last());
        }
        i += 1;
    }
    Some(out)
}

/// The lines of `s` from position `from` on, split at line feeds.
pub open spec fn lines_from(s: Seq<char>, from: int) -> Seq<Seq<char>>
    decreases s.len() - from,
{
    if from < 0 || from > s.len() {
        Seq::empty()
    } else {
        let end = find_from(s, '\n', from);
        if end >= s.len() || end < from {
            seq![s.subrange(from, s.len() as int)]
        } else {
            seq![s.subrange(from, end)] + lines_from(s, end + 1)
        }
    }
}

/// Two texts equal but for the case of ASCII letters.
pub open spec fn same_ignoring_ascii_case(a: Seq<char>, b: Seq<char>) -> bool {
    lower_text(a) == lower_text(b)
}

/// The variant hint and FEN text found so far.
pub type NotationHints = (Option<ChessVariant>, Option<Seq<char>>);

/// What one line of pasted text tells: a PGN `Variant` or `FEN` header, a
/// `fen=` or `fen:` line, a UCI `position fen` command with six fields, or,
/// while no FEN is known, a line of six words.
pub open spec fn notation_step(h: NotationHints, raw_line: Seq<char>) -> NotationHints {
    let line = trim_spec(raw_line);
    let header: Option<NotationHints> = match pgn_tag_spec(line) {
        Some((tag, value)) => if same_ignoring_ascii_case(tag, "Variant"@) {
            Some((hinted_variant(value), h.1))
        } else if same_ignoring_ascii_case(tag, "FEN"@) {
            Some((h.0, Some(value)))
        } else {
            None
        },
        None => None,
    };
    if line.len() == 0 {
        h
    } else if header is Some {
        header->0
    } else if starts_with_text(line, "fen="@) || starts_with_text(line, "FEN="@) || starts_with_text(line, "fen:"@)
        || starts_with_text(line, "FEN:"@) {
        (h.0, Some(trim_spec(line.skip(4))))
    } else if starts_with_text(line, "position fen "@) && words(line.skip(13)).len() >= 6 {
        (h.0, Some(join_spaces(words(line.skip(13)).take(6))))
    } else if h.1 is None && words(line).len() == 6 {
        (h.0, Some(line))
    } else {
        h
    }
}

pub open spec fn scan_notation(lines: Seq<Seq<char>>, h: NotationHints) -> NotationHints
    decreases lines.len(),
{
    if lines.len() == 0 {
        h
    } else {
        scan_notation(lines.skip(1), notation_step(h, lines[0]))
    }
}

/// The variant hint and the FEN text of pasted chess text, line by line.
pub open spec fn notation_hints_spec(raw: Seq<char>) -> NotationHints {
    scan_notation(lines_from(trim_spec(raw), 0), (None, None))
}

fn same_chars(a: &Vec<char>, b: &Vec<char>) -> (r: bool)
    ensures
        r == (a@ == b@),
{
    if a.len() != b.len() {
        return false;
    }
    let mut i: usize = 0;
    while i < a.len()
        invariant
            a@.len() == b@.len(),
            i <= a@.len(),
            forall|k: int| 0 <= k < i ==> a@[k] == b@[k],
        decreases a@.len() - i,
    {
        if a[i] != b[i] {
            return false;
        }
        i += 1;
    }
    assert(a@ =~= b@);
    true
}

fn same_ignoring_case(a: &str, b: &str) -> (r: bool)
    ensures
        r == same_ignoring_ascii_case(a@, b@),
{
    same_chars(&lowered(&chars_of(a)), &lowered(&chars_of(b)))
}

fn owned(o: Option<String>) -> (r: Option<String>)
    ensures
        opt_view(r) == opt_view(o),
{
    o
}

/// One line's step.
fn notation_line(variant: Option<ChessVariant>, fen: Option<String>, raw_line: &str) -> (r: (
    Option<ChessVariant>,
    Option<String>,
))
    ensures
        (r.0, opt_view(r.1)) == notation_step((variant, opt_view(fen)), raw_line@),
{
    let line = trim_text(raw_line);
    let n = line.unicode_len();
    if n == 0 {
        return (variant, fen);
    }
    match parse_pgn_tag_line(line) {
        Some((tag, value)) => {
            if same_ignoring_case(tag, "Variant") {
                return (chess_variant_from_hint(value), fen);
            }
            if same_ignoring_case(tag, "FEN") {
                return (variant, Some(String::from_str(value)));
            }
        },
        None => {},
    }
    proof {
        reveal_strlit("fen=");
        reveal_strlit("FEN=");
        reveal_strlit("fen:");
        reveal_strlit("FEN:");
        reveal_strlit("position fen ");
    }
    if text_starts_with(line, "fen=") || text_starts_with(line, "FEN=") || text_starts_with(line, "fen:")
        || text_starts_with(line, "FEN:") {
        let rest = line.substring_char(4, n);
        assert(rest@ =~= line@.skip(4));
        return (variant, Some(String::from_str(trim_text(rest))));
    }
    if text_starts_with(line, "position fen ") {
        let rest = line.substring_char(13, n);
        assert(rest@ =~= line@.skip(13));
        match first_six_words(rest) {
            Some(fields) => {
                return (variant, Some(fields));
            },
            None => {},
        }
    }
    if fen.is_none() {
        let ws = split_words(line);
        if ws.len() == 6 {
            return (variant, Some(String::from_str(line)));
        }
    }
    (variant, owned(fen))
}

/// Finds the variant hint and the FEN text in pasted chess text.
pub fn chess_notation_hints(raw: &str) -> (r: (Option<ChessVariant>, Option<String>))
    ensures
        (r.0, opt_view(r.1)) == notation_hints_spec(raw@),
{
    let text = trim_text(raw);
    let cs = chars_of(text);
    let n = cs.len();
    let mut variant: Option<ChessVariant> = None;
    let mut fen: Option<String> = None;
    let mut from: usize = 0;
    loop
        invariant
            from <= n,
            n == text@.len(),
            cs@ == text@,
            text@ == trim_spec(raw@),
            notation_hints_spec(raw@) == scan_notation(lines_from(text@, from as int), (variant, opt_view(fen))),
        decreases n - from,
    {
        let end = find_in(&cs, '\n', from, n);
        proof {
            lemma_find_from_bounds(text@, '\n', from as int);
            lemma_find_sub(text@, '\n', from as int);
        }
        let ghost ls = lines_from(text@, from as int);
        let line = text.substring_char(from, end);
        assert(ls[0] == line@);
        let ghost h_old: NotationHints = (variant, opt_view(fen));
        let (v, f) = notation_line(variant, fen, line);
        variant = v;
        fen = f;
        assert(scan_notation(ls, h_old) == scan_notation(ls.skip(1), (variant, opt_view(fen))));
        if end >= n {
            proof {
                assert(ls.skip(1) =~= Seq::<Seq<char>>::empty());
                assert(scan_notation(ls.skip(1), (variant, opt_view(fen))) == (variant, opt_view(fen)));
            }
            return (variant, fen);
        }
        proof {
            assert(ls.skip(1) =~= lines_from(text@, end as int + 1));
        }
        from = end + 1;
    }
}

/// `v` appended unless already present.
pub open spec fn push_new(vs: Seq<ChessVariant>, v: ChessVariant) -> Seq<ChessVariant> {
    if vs.contains(v) {
        vs
    } else {
        vs.push(v)
    }
}

/// The order in which a found FEN is tried: the hinted variant, then the
/// table's current variant, then standard, Chess960 and atomic chess, each
/// once.
pub open spec fn candidate_variants_spec(hint: Option<ChessVariant>, fallback: ChessVariant) -> Seq<ChessVariant> {
    let start: Seq<ChessVariant> = match hint {
        Some(v) => seq![v],
        None => Seq::empty(),
    };
    push_new(
        push_new(push_new(push_new(start, fallback), ChessVariant::Standard), ChessVariant::Chess960),
        ChessVariant::Atomic,
    )
}

/// The order in which a raw pasted text is tried as a FEN directly.
pub open spec fn direct_fen_variants_spec(fallback: ChessVariant) -> Seq<ChessVariant> {
    seq![fallback, ChessVariant::Standard, ChessVariant::Chess960, ChessVariant::Atomic]
}

fn push_new_variant(vs: &mut Vec<ChessVariant>, v: ChessVariant)
    ensures
        final(vs)@ == push_new(old(vs)@, v),
{
    let mut i: usize = 0;
    while i < vs.len()
        invariant
            i <= vs@.len(),
            forall|k: int| 0 <= k < i ==> vs@[k] != v,
        decreases vs@.len() - i,
    {
        if vs[i] == v {
            assert(vs@.contains(v));
            return;
        }
        i += 1;
    }
    assert(!vs@.contains(v));
    vs.push(v);
}

/// The variants to try a found FEN with, in order.
pub fn candidate_variants(hint: Option<ChessVariant>, fallback: ChessVariant) -> (r: Vec<ChessVariant>)
    ensures
        r@ == candidate_variants_spec(hint, fallback),
{
    let mut vs: Vec<ChessVariant> = Vec::new();
    match hint {
        Some(v) => {
            vs.push(v);
        },
        None => {},
    }
    assert(vs@ =~= match hint {
        Some(v) => seq![v],
        None => Seq::<ChessVariant>::empty(),
    });
    push_new_variant(&mut vs, fallback);
    push_new_variant(&mut vs, ChessVariant::Standard);
    push_new_variant(&mut vs, ChessVariant::Chess960);
    push_new_variant(&mut vs, ChessVariant::Atomic);
    vs
}

/// The variants to try a raw pasted text with as a FEN, in order.
pub fn direct_fen_variants(fallback: ChessVariant) -> (r: Vec<ChessVariant>)
    ensures
        r@ == direct_fen_variants_spec(fallback),
{
    let r = vec![fallback, ChessVariant::Standard, ChessVariant::Chess960, ChessVariant::Atomic];
    assert(r@ =~= direct_fen_variants_spec(fallback));
    r
}

/// Law: the FEN is tried with every variant, each exactly once, the hinted
/// one first.
pub proof fn lemma_candidate_variants_cover(hint: Option<ChessVariant>, fallback: ChessVariant)
    ensures
        ({
            let c = candidate_variants_spec(hint, fallback);
            &&& c.contains(ChessVariant::Standard)
            &&& c.contains(ChessVariant::Chess960)
            &&& c.contains(ChessVariant::Atomic)
            &&& c.no_duplicates()
            &&& hint matches Some(v) ==> c[0] == v
            &&& hint is None ==> c[0] == fallback
        }),
{
    let start: Seq<ChessVariant> = match hint {
        Some(v) => seq![v],
        None => Seq::empty(),
    };
    let s1 = push_new(start, fallback);
    let s2 = push_new(s1, ChessVariant::Standard);
    let s3 = push_new(s2, ChessVariant::Chess960);
    let s4 = push_new(s3, ChessVariant::Atomic);
    lemma_push_new(start, fallback);
    lemma_push_new(s1, ChessVariant::Standard);
    lemma_push_new(s2, ChessVariant::Chess960);
    lemma_push_new(s3, ChessVariant::Atomic);
}

proof fn lemma_push_new(vs: Seq<ChessVariant>, v: ChessVariant)
    requires
        vs.no_duplicates(),
    ensures
        push_new(vs, v).no_duplicates(),
        push_new(vs, v).contains(v),
        forall|x: ChessVariant| vs.contains(x) ==> push_new(vs, v).contains(x),
        vs.len() > 0 ==> push_new(vs, v)[0] == vs[0],
        vs.len() == 0 ==> push_new(vs, v)[0] == v,
{
    if !vs.contains(v) {
        let p = vs.push(v);
        assert(p[vs.len() as int] == v);
        assert forall|x: ChessVariant| vs.contains(x) implies p.contains(x) by {
            let j = choose|j: int| 0 <= j < vs.len() && vs[j] == x;
            assert(p[j] == x);
        }
    }
}

} // verus!
