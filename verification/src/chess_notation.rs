//! Reading chess notation pasted into the game: the stored chess variant,
//! a variant named loosely in a PGN header, and the tag lines of PGN.

use vstd::prelude::*;
use crate::session_fields::{find_from, find_in, trim_range, trim_spec, trim_text};
use crate::text::{chars_of, same_text};
use crate::theme_prefs::{lower_text, lowered};

verus! {

/// The chess variants the table plays.
#[derive(Debug, Clone, Copy, PartialEq, Eq, Structural)]
pub enum ChessVariant {
    Standard,
    Chess960,
    Atomic,
}

/// The variant stored under an identifier in a saved session.
pub open spec fn stored_variant(s: Seq<char>) -> Option<ChessVariant> {
    if s == "chess-standard"@ {
        Some(ChessVariant::Standard)
    } else if s == "chess-960"@ {
        Some(ChessVariant::Chess960)
    } else if s == "chess-atomic"@ {
        Some(ChessVariant::Atomic)
    } else {
        None
    }
}

pub fn decode_chess_variant(raw: &str) -> (r: Option<ChessVariant>)
    ensures
        r == stored_variant(raw@),
{
    if same_text(raw, "chess-standard") {
        Some(ChessVariant::Standard)
    } else if same_text(raw, "chess-960") {
        Some(ChessVariant::Chess960)
    } else if same_text(raw, "chess-atomic") {
        Some(ChessVariant::Atomic)
    } else {
        None
    }
}

pub open spec fn is_ascii_alnum(c: char) -> bool {
    ('0' <= c <= '9') || ('a' <= c <= 'z') || ('A' <= c <= 'Z')
}

/// A variant hint reduced to its letters and digits, in lower case.
pub open spec fn normalized_hint(raw: Seq<char>) -> Seq<char> {
    lower_text(trim_spec(raw)).filter(|c: char| is_ascii_alnum(c))
}

/// The variant a PGN `Variant` header names, in any of its usual spellings.
pub open spec fn hinted_variant(raw: Seq<char>) -> Option<ChessVariant> {
    let n = normalized_hint(raw);
    if n == "standard"@ || n == "chess"@ || n == "chessstandard"@ || n == "normal"@ {
        Some(ChessVariant::Standard)
    } else if n == "chess960"@ || n == "fischerandom"@ || n == "fischerrandom"@ || n == "chessfischerandom"@ {
        Some(ChessVariant::Chess960)
    } else if n == "atomic"@ || n == "atomicchess"@ || n == "chessatomic"@ {
        Some(ChessVariant::Atomic)
    } else {
        None
    }
}

fn is_ascii_alnum_char(c: char) -> (r: bool)
    ensures
        r == is_ascii_alnum(c),
{
    ('0' <= c && c <= '9') || ('a' <= c && c <= 'z') || ('A' <= c && c <= 'Z')
}

proof fn lemma_filter_push(s: Seq<char>, c: char)
    ensures
        s.push(c).filter(|x: char| is_ascii_alnum(x)) == (if is_ascii_alnum(c) {
            s.filter(|x: char| is_ascii_alnum(x)).push(c)
        } else {
            s.filter(|x: char| is_ascii_alnum(x))
        }),
{
    reveal(Seq::filter);
    assert(s.push(c).drop_last() =~= s);
}

fn keep_alnum(cs: &Vec<char>) -> (r: Vec<char>)
    ensures
        r@ == cs@.filter(|c: char| is_ascii_alnum(c)),
{
    let mut out: Vec<char> = Vec::new();
    let mut i: usize = 0;
    while i < cs.len()
        invariant
            i <= cs@.len(),
            out@ == cs@.take(i as int).filter(|c: char| is_ascii_alnum(c)),
        decreases cs@.len() - i,
    {
        let c = cs[i];
        let ghost before = cs@.take(i as int);
        assert(cs@.take(i + 1) =~= before.push(c));
        proof {
            lemma_filter_push(before, c);
        }
        if is_ascii_alnum_char(c) {
            out.push(c);
        }
        i += 1;
    }
    assert(cs@.take(cs@.len() as int) =~= cs@);
    out
}

pub(crate) fn chars_are(cs: &Vec<char>, s: &str) -> (r: bool)
    ensures
        r == (cs@ == s@),
{
    let t = chars_of(s);
    if t.len() != cs.len() {
        return false;
    }
    let mut i: usize = 0;
    while i < t.len()
        invariant
            t@ == s@,
            t@.len() == cs@.len(),
            i <= t@.len(),
            forall|k: int| 0 <= k < i ==> cs@[k] == t@[k],
        decreases t@.len() - i,
    {
        if cs[i] != t[i] {
            return false;
        }
        i += 1;
    }
    assert(cs@ =~= s@);
    true
}

pub fn chess_variant_from_hint(raw: &str) -> (r: Option<ChessVariant>)
    ensures
        r == hinted_variant(raw@),
{
    let trimmed = trim_text(raw);
    let n = keep_alnum(&lowered(&chars_of(trimmed)));
    assert(n@ == normalized_hint(raw@));
    if chars_are(&n, "standard") || chars_are(&n, "chess") || chars_are(&n, "chessstandard") || chars_are(&n, "normal") {
        Some(ChessVariant::Standard)
    } else if chars_are(&n, "chess960") || chars_are(&n, "fischerandom") || chars_are(&n, "fischerrandom")
        || chars_are(&n, "chessfischerandom") {
        Some(ChessVariant::Chess960)
    } else if chars_are(&n, "atomic") || chars_are(&n, "atomicchess") || chars_are(&n, "chessatomic") {
        Some(ChessVariant::Atomic)
    } else {
        None
    }
}

// ---------------------------------------------------------------------------
// PGN tag lines
// ---------------------------------------------------------------------------

pub open spec fn strip_quotes_start(s: Seq<char>) -> Seq<char>
    decreases s.len(),
{
    if s.len() > 0 && s[0] == '"' {
        strip_quotes_start(s.skip(1))
    } else {
        s
    }
}

pub open spec fn strip_quotes_end(s: Seq<char>) -> Seq<char>
    decreases s.len(),
{
    if s.len() > 0 && s.last() == '"' {
        strip_quotes_end(s.drop_last())
    } else {
        s
    }
}

/// `s` without the double quotes at its ends.
pub open spec fn trim_quotes(s: Seq<char>) -> Seq<char> {
    strip_quotes_end(strip_quotes_start(s))
}

/// A PGN tag line `[Tag "value"]`: the tag and the value, split at the
/// first space inside the brackets, both trimmed, the value unquoted.
pub open spec fn pgn_tag_spec(line: Seq<char>) -> Option<(Seq<char>, Seq<char>)> {
    if line.len() >= 2 && line[0] == '[' && line.last() == ']' {
        let inner = trim_spec(line.subrange(1, line.len() - 1));
        let k = find_from(inner, ' ', 0);
        if k < inner.len() {
            Some((trim_spec(inner.take(k)), trim_quotes(trim_spec(inner.skip(k + 1)))))
        } else {
            None
        }
    } else {
        None
    }
}

/// The bounds of `cs[lo..hi]` without the quotes at its ends.
fn trim_quotes_range(cs: &Vec<char>, lo: usize, hi: usize) -> (r: (usize, usize))
    requires
        lo <= hi <= cs.len(),
    ensures
        lo <= r.0 <= r.1 <= hi,
        cs@.subrange(r.0 as int, r.1 as int) == trim_quotes(cs@.subrange(lo as int, hi as int)),
{
    let mut a = lo;
    while a < hi && cs[a] == '"'
        invariant
            lo <= a <= hi <= cs.len(),
            strip_quotes_start(cs@.subrange(lo as int, hi as int)) == strip_quotes_start(cs@.subrange(a as int, hi as int)),
        decreases hi - a,
    {
        let ghost t = cs@.subrange(a as int, hi as int);
        assert(t.skip(1) =~= cs@.subrange(a + 1, hi as int));
        a += 1;
    }
    let mut b = hi;
    while b > a && cs[b - 1] == '"'
        invariant
            lo <= a <= b <= hi <= cs.len(),
            strip_quotes_end(cs@.subrange(a as int, hi as int)) == strip_quotes_end(cs@.subrange(a as int, b as int)),
        decreases b - a,
    {
        let ghost t = cs@.subrange(a as int, b as int);
        assert(t.drop_last() =~= cs@.subrange(a as int, b - 1));
        b -= 1;
    }
    (a, b)
}

pub open spec fn pair_view(r: Option<(&str, &str)>) -> Option<(Seq<char>, Seq<char>)> {
    match r {
        Some((a, b)) => Some((a@, b@)),
        None => None,
    }
}

pub fn parse_pgn_tag_line<'a>(line: &'a str) -> (r: Option<(&'a str, &'a str)>)
    ensures
        pair_view(r) == pgn_tag_spec(line@),
{
    let cs = chars_of(line);
    let n = cs.len();
    if n < 2 || cs[0] != '[' || cs[n - 1] != ']' {
        return None;
    }
    let ghost mid = cs@.subrange(1, n - 1);
    let (a, b) = trim_range(&cs, 1, n - 1);
    let ghost inner = cs@.subrange(a as int, b as int);
    let k = find_in(&cs, ' ', a, b);
    if k >= b {
        return None;
    }
    let (ta, tb) = trim_range(&cs, a, k);
    let (va, vb) = trim_range(&cs, k + 1, b);
    let (qa, qb) = trim_quotes_range(&cs, va, vb);
    proof {
        assert(inner.take(k - a) =~= cs@.subrange(a as int, k as int));
        assert(inner.skip(k - a + 1) =~= cs@.subrange(k + 1, b as int));
    }
    Some((line.substring_char(ta, tb), line.substring_char(qa, qb)))
}

} // verus!
