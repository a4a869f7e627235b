//! Reading fields out of saved-session text: whitespace trimming as
//! `str::trim` does it, the `key=value` lines of a session payload, the
//! `;`-separated fields of an undo snapshot, and the small values stored
//! there (on/off flags and board squares).

use vstd::prelude::*;
use crate::session_codec::{parse_usize, parse_usize_spec};
use crate::text::{chars_of, same_text};

verus! {

// ---------------------------------------------------------------------------
// Whitespace
// ---------------------------------------------------------------------------

/// Unicode `White_Space`, the characters `str::trim` removes.
pub open spec fn is_white(c: char) -> bool {
    ||| '\u{9}' <= c <= '\u{d}'
    ||| c == ' '
    ||| c == '\u{85}'
    ||| c == '\u{a0}'
    ||| c == '\u{1680}'
    ||| '\u{2000}' <= c <= '\u{200a}'
    ||| c == '\u{2028}'
    ||| c == '\u{2029}'
    ||| c == '\u{202f}'
    ||| c == '\u{205f}'
    ||| c == '\u{3000}'
}

pub open spec fn trim_start_spec(s: Seq<char>) -> Seq<char>
    decreases s.len(),
{
    if s.len() > 0 && is_white(s[0]) {
        trim_start_spec(s.skip(1))
    } else {
        s
    }
}

pub open spec fn trim_end_spec(s: Seq<char>) -> Seq<char>
    decreases s.len(),
{
    if s.len() > 0 && is_white(s.last()) {
        trim_end_spec(s.drop_last())
    } else {
        s
    }
}

/// `s` without leading and trailing whitespace.
pub open spec fn trim_spec(s: Seq<char>) -> Seq<char> {
    trim_end_spec(trim_start_spec(s))
}

pub fn is_white_char(c: char) -> (r: bool)
    ensures
        r == is_white(c),
{
    ('\u{9}' <= c && c <= '\u{d}') || c == ' ' || c == '\u{85}' || c == '\u{a0}' || c == '\u{1680}'
        || ('\u{2000}' <= c && c <= '\u{200a}') || c == '\u{2028}' || c == '\u{2029}' || c == '\u{202f}'
        || c == '\u{205f}' || c == '\u{3000}'
}

/// The bounds of the trimmed part of `cs[lo..hi]`.
pub(crate) fn trim_range(cs: &Vec<char>, lo: usize, hi: usize) -> (r: (usize, usize))
    requires
        lo <= hi <= cs.len(),
    ensures
        lo <= r.0 <= r.1 <= hi,
        cs@.subrange(r.0 as int, r.1 as int) == trim_spec(cs@.subrange(lo as int, hi as int)),
{
    let mut a = lo;
    while a < hi && is_white_char(cs[a])
        invariant
            lo <= a <= hi <= cs.len(),
            trim_start_spec(cs@.subrange(lo as int, hi as int)) == trim_start_spec(cs@.subrange(a as int, hi as int)),
        decreases hi - a,
    {
        let ghost t = cs@.subrange(a as int, hi as int);
        assert(t.skip(1) =~= cs@.subrange(a + 1, hi as int));
        a += 1;
    }
    assert(trim_start_spec(cs@.subrange(a as int, hi as int)) == cs@.subrange(a as int, hi as int));
    let mut b = hi;
    while b > a && is_white_char(cs[b - 1])
        invariant
            lo <= a <= b <= hi <= cs.len(),
            trim_end_spec(cs@.subrange(a as int, hi as int)) == trim_end_spec(cs@.subrange(a as int, b as int)),
        decreases b - a,
    {
        let ghost t = cs@.subrange(a as int, b as int);
        assert(t.drop_last() =~= cs@.subrange(a as int, b - 1));
        assert(t.last() == cs@[b - 1]);
        b -= 1;
    }
    assert(trim_end_spec(cs@.subrange(a as int, b as int)) == cs@.subrange(a as int, b as int));
    (a, b)
}

/// `str::trim`: the text without leading and trailing whitespace.
pub fn trim_text<'a>(s: &'a str) -> (r: &'a str)
    ensures
        r@ == trim_spec(s@),
{
    let cs = chars_of(s);
    let (a, b) = trim_range(&cs, 0, cs.len());
    assert(cs@.subrange(0, cs@.len() as int) =~= cs@);
    s.substring_char(a, b)
}

// ---------------------------------------------------------------------------
// Searching
// ---------------------------------------------------------------------------

/// The position of the first `c` in `s` at or after `from`, or the length of
/// `s` when there is none.
pub open spec fn find_from(s: Seq<char>, c: char, from: int) -> int
    decreases s.len() - from,
{
    if from < 0 || from >= s.len() {
        s.len() as int
    } else if s[from] == c {
        from
    } else {
        find_from(s, c, from + 1)
    }
}

pub proof fn lemma_find_from_bounds(s: Seq<char>, c: char, from: int)
    requires
        0 <= from <= s.len(),
    ensures
        from <= find_from(s, c, from) <= s.len(),
        find_from(s, c, from) < s.len() ==> s[find_from(s, c, from)] == c,
        forall|j: int| from <= j < find_from(s, c, from) ==> s[j] != c,
    decreases s.len() - from,
{
    if from < s.len() && s[from] != c {
        lemma_find_from_bounds(s, c, from + 1);
    }
}

/// The first `c` in `cs[from..to]`, as a position of `cs`, or `to`.
pub(crate) fn find_in(cs: &Vec<char>, c: char, from: usize, to: usize) -> (r: usize)
    requires
        from <= to <= cs.len(),
    ensures
        from <= r <= to,
        r - from == find_from(cs@.subrange(from as int, to as int), c, 0),
{
    let ghost sub = cs@.subrange(from as int, to as int);
    let mut i = from;
    while i < to && cs[i] != c
        invariant
            from <= i <= to <= cs.len(),
            sub == cs@.subrange(from as int, to as int),
            find_from(sub, c, 0) == find_from(sub, c, i - from),
        decreases to - i,
    {
        assert(sub[i - from] == cs@[i as int]);
        i += 1;
    }
    proof {
        if i < to {
            assert(sub[i - from] == cs@[i as int]);
        }
    }
    i
}

fn range_is(cs: &Vec<char>, lo: usize, hi: usize, key: &Vec<char>) -> (r: bool)
    requires
        lo <= hi <= cs.len(),
    ensures
        r == (cs@.subrange(lo as int, hi as int) == key@),
{
    if hi - lo != key.len() {
        return false;
    }
    let mut i: usize = 0;
    while i < key.len()
        invariant
            lo <= hi <= cs.len(),
            hi - lo == key.len(),
            i <= key.len(),
            forall|j: int| 0 <= j < i ==> cs@[lo + j] == key@[j],
        decreases key.len() - i,
    {
        if cs[lo + i] != key[i] {
            assert(cs@.subrange(lo as int, hi as int)[i as int] != key@[i as int]);
            return false;
        }
        i += 1;
    }
    assert(cs@.subrange(lo as int, hi as int) =~= key@);
    true
}

// ---------------------------------------------------------------------------
// Session payload lines
// ---------------------------------------------------------------------------

/// The value of `key` on one `key=value` line: the line is cut at its first
/// `=`, and both sides are trimmed.
pub open spec fn line_field(line: Seq<char>, key: Seq<char>) -> Option<Seq<char>> {
    let k = find_from(line, '=', 0);
    if k < line.len() && trim_spec(line.take(k)) == key {
        Some(trim_spec(line.skip(k + 1)))
    } else {
        None
    }
}

/// The first line, from position `from` on, that holds `key`.
pub open spec fn field_from(raw: Seq<char>, key: Seq<char>, from: int) -> Option<Seq<char>>
    decreases raw.len() - from,
{
    if from < 0 || from > raw.len() {
        None
    } else {
        let end = find_from(raw, '\n', from);
        let here = line_field(raw.subrange(from, end), key);
        if here is Some || end >= raw.len() || end < from {
            here
        } else {
            field_from(raw, key, end + 1)
        }
    }
}

/// The value of `key` in a session payload: its lines are `key=value`
/// pairs, and the first line whose key is `key` gives the value.
pub open spec fn payload_field_spec(raw: Seq<char>, key: Seq<char>) -> Option<Seq<char>> {
    field_from(raw, key, 0)
}

pub open spec fn text_view(r: Option<&str>) -> Option<Seq<char>> {
    match r {
        Some(s) => Some(s@),
        None => None,
    }
}

/// The trimmed key and value of the part `cs[from..end]` when it holds an
/// `=`: `(key_lo, key_hi, value_lo, value_hi)`.
fn split_part(cs: &Vec<char>, from: usize, end: usize) -> (r: Option<(usize, usize, usize, usize)>)
    requires
        from <= end <= cs.len(),
    ensures
        ({
            let part = cs@.subrange(from as int, end as int);
            let k = find_from(part, '=', 0);
            match r {
                None => k >= part.len(),
                Some((a, b, c, d)) => {
                    &&& k < part.len()
                    &&& from <= a <= b <= end && from <= c <= d <= end
                    &&& cs@.subrange(a as int, b as int) == trim_spec(part.take(k))
                    &&& cs@.subrange(c as int, d as int) == trim_spec(part.skip(k + 1))
                },
            }
        }),
{
    let ghost part = cs@.subrange(from as int, end as int);
    let k = find_in(cs, '=', from, end);
    if k >= end {
        return None;
    }
    let (a, b) = trim_range(cs, from, k);
    let (c, d) = trim_range(cs, k + 1, end);
    assert(part.take(k - from) =~= cs@.subrange(from as int, k as int));
    assert(part.skip(k - from + 1) =~= cs@.subrange(k + 1, end as int));
    Some((a, b, c, d))
}

/// The value of `key` in a session payload, the first line of the form
/// `key=value` deciding; both sides are trimmed.
pub fn payload_field<'a>(raw: &'a str, key: &str) -> (r: Option<&'a str>)
    ensures
        text_view(r) == payload_field_spec(raw@, key@),
{
    let cs = chars_of(raw);
    let kc = chars_of(key);
    let n = cs.len();
    let mut from: usize = 0;
    loop
        invariant
            from <= n,
            n == cs@.len(),
            cs@ == raw@,
            kc@ == key@,
            field_from(raw@, key@, 0) == field_from(raw@, key@, from as int),
        decreases n - from,
    {
        let end = find_in(&cs, '\n', from, n);
        proof {
            lemma_find_from_bounds(raw@, '\n', from as int);
            lemma_find_sub(raw@, '\n', from as int);
        }
        if let Some((a, b, c, d)) = split_part(&cs, from, end) {
            if range_is(&cs, a, b, &kc) {
                return Some(raw.substring_char(c, d));
            }
        }
        if end >= n {
            return None;
        }
        from = end + 1;
    }
}

/// Searching a suffix finds the same position as searching from its start.
pub(crate) proof fn lemma_find_sub(s: Seq<char>, c: char, from: int)
    requires
        0 <= from <= s.len(),
    ensures
        find_from(s.subrange(from, s.len() as int), c, 0) + from == find_from(s, c, from),
{
    lemma_find_sub_at(s, c, from, from);
}

proof fn lemma_find_sub_at(s: Seq<char>, c: char, from: int, i: int)
    requires
        0 <= from <= i <= s.len(),
    ensures
        find_from(s.subrange(from, s.len() as int), c, i - from) + from == find_from(s, c, i),
    decreases s.len() - i,
{
    let sub = s.subrange(from, s.len() as int);
    if i < s.len() {
        assert(sub[i - from] == s[i]);
        if s[i] != c {
            lemma_find_sub_at(s, c, from, i + 1);
        }
    }
}

// ---------------------------------------------------------------------------
// Snapshot fields
// ---------------------------------------------------------------------------

/// Reads the `;`-separated parts of a snapshot from position `from` on.
/// Every part must hold an `=`; a later part with the same key replaces an
/// earlier one. `found` is the value seen so far.
pub open spec fn snapshot_field_from(s: Seq<char>, key: Seq<char>, from: int, found: Option<Seq<char>>) -> Option<Option<Seq<char>>>
    decreases s.len() - from,
{
    if from < 0 || from > s.len() {
        None
    } else {
        let end = find_from(s, ';', from);
        let part = s.subrange(from, end);
        let k = find_from(part, '=', 0);
        if k >= part.len() {
            None
        } else {
            let next = if trim_spec(part.take(k)) == key { Some(trim_spec(part.skip(k + 1))) } else { found };
            if end >= s.len() || end < from {
                Some(next)
            } else {
                snapshot_field_from(s, key, end + 1, next)
            }
        }
    }
}

/// The value of `key` in an encoded snapshot: `None` when some part is not
/// `key=value`, else the value of the last part with that key, if any.
pub open spec fn snapshot_field_spec(s: Seq<char>, key: Seq<char>) -> Option<Option<Seq<char>>> {
    snapshot_field_from(s, key, 0, None)
}

pub open spec fn text_view2(r: Option<Option<&str>>) -> Option<Option<Seq<char>>> {
    match r {
        Some(v) => Some(text_view(v)),
        None => None,
    }
}

/// Looks `key` up in an encoded snapshot as its decoder does: every part
/// must be a `key=value` pair, and the last pair with the key wins.
pub fn snapshot_field<'a>(encoded: &'a str, key: &str) -> (r: Option<Option<&'a str>>)
    ensures
        text_view2(r) == snapshot_field_spec(encoded@, key@),
{
    let cs = chars_of(encoded);
    let kc = chars_of(key);
    let n = cs.len();
    let mut from: usize = 0;
    let mut found: Option<(usize, usize)> = None;
    loop
        invariant
            from <= n,
            n == cs@.len(),
            cs@ == encoded@,
            kc@ == key@,
            found matches Some((c, d)) ==> c <= d <= n,
            snapshot_field_spec(encoded@, key@) == snapshot_field_from(
                encoded@,
                key@,
                from as int,
                match found {
                    Some((c, d)) => Some(cs@.subrange(c as int, d as int)),
                    None => None,
                },
            ),
        decreases n - from,
    {
        let end = find_in(&cs, ';', from, n);
        proof {
            lemma_find_from_bounds(encoded@, ';', from as int);
            lemma_find_sub(encoded@, ';', from as int);
        }
        match split_part(&cs, from, end) {
            None => {
                return None;
            },
            Some((a, b, c, d)) => {
                if range_is(&cs, a, b, &kc) {
                    found = Some((c, d));
                }
            },
        }
        if end >= n {
            return match found {
                Some((c, d)) => Some(Some(encoded.substring_char(c, d))),
                None => Some(None),
            };
        }
        from = end + 1;
    }
}

// ---------------------------------------------------------------------------
// Stored values
// ---------------------------------------------------------------------------

/// A stored on/off flag: `1` or `0`.
pub open spec fn flag_spec(s: Seq<char>) -> Option<bool> {
    if s == seq!['1'] {
        Some(true)
    } else if s == seq!['0'] {
        Some(false)
    } else {
        None
    }
}

pub fn parse_flag(raw: &str) -> (r: Option<bool>)
    ensures
        r == flag_spec(raw@),
{
    proof {
        reveal_strlit("1");
        reveal_strlit("0");
        assert("1"@ =~= seq!['1']);
        assert("0"@ =~= seq!['0']);
    }
    if same_text(raw, "1") {
        Some(true)
    } else if same_text(raw, "0") {
        Some(false)
    } else {
        None
    }
}

/// A stored board square: `na` and `-` are none, else a number below 64.
pub open spec fn square_spec(s: Seq<char>) -> Option<u8> {
    if s == seq!['n', 'a'] || s == seq!['-'] {
        None
    } else {
        match parse_usize_spec(s) {
            Some(v) => if v < 64 { Some(v as u8) } else { None },
            None => None,
        }
    }
}

pub fn parse_square(raw: &str) -> (r: Option<u8>)
    ensures
        r == square_spec(raw@),
{
    proof {
        reveal_strlit("na");
        reveal_strlit("-");
        assert("na"@ =~= seq!['n', 'a']);
        assert("-"@ =~= seq!['-']);
    }
    if same_text(raw, "na") || same_text(raw, "-") {
        return None;
    }
    match parse_usize(raw) {
        Some(v) => if v < 64 {
            Some(v as u8)
        } else {
            None
        },
        None => None,
    }
}

// ---------------------------------------------------------------------------
// Snapshot text made of parts
// ---------------------------------------------------------------------------

/// One `key=value` part.
pub open spec fn kv_part(kv: (Seq<char>, Seq<char>)) -> Seq<char> {
    kv.0 + seq!['='] + kv.1
}

/// The parts joined with `;`.
pub open spec fn parts_text(ps: Seq<(Seq<char>, Seq<char>)>) -> Seq<char>
    decreases ps.len(),
{
    if ps.len() == 0 {
        Seq::empty()
    } else if ps.len() == 1 {
        kv_part(ps[0])
    } else {
        kv_part(ps[0]) + seq![';'] + parts_text(ps.skip(1))
    }
}

/// What reading `key` finds after the parts, having found `found` before them.
pub open spec fn lookup_parts(ps: Seq<(Seq<char>, Seq<char>)>, key: Seq<char>, found: Option<Seq<char>>) -> Option<Seq<char>>
    decreases ps.len(),
{
    if ps.len() == 0 {
        found
    } else {
        lookup_parts(ps.skip(1), key, if ps[0].0 == key { Some(trim_spec(ps[0].1)) } else { found })
    }
}

pub open spec fn no_char(s: Seq<char>, c: char) -> bool {
    forall|i: int| 0 <= i < s.len() ==> s[i] != c
}

/// A part that reads back: its key is trimmed and holds neither `=` nor
/// `;`; its value holds no `;`.
pub open spec fn part_ok(kv: (Seq<char>, Seq<char>)) -> bool {
    &&& no_char(kv.0, ';')
    &&& no_char(kv.0, '=')
    &&& trim_spec(kv.0) == kv.0
    &&& no_char(kv.1, ';')
}

/// Every part reads back.
pub open spec fn parts_ok(ps: Seq<(Seq<char>, Seq<char>)>) -> bool {
    forall|i: int| 0 <= i < ps.len() ==> part_ok(#[trigger] ps[i])
}

/// Text that neither starts nor ends with whitespace is its own trim.
pub proof fn lemma_trim_plain(s: Seq<char>)
    requires
        s.len() > 0 ==> !is_white(s[0]) && !is_white(s.last()),
    ensures
        trim_spec(s) == s,
{
}

/// Appending a part that reads back keeps every part reading back.
pub broadcast proof fn lemma_parts_ok_push(ps: Seq<(Seq<char>, Seq<char>)>, p: (Seq<char>, Seq<char>))
    requires
        parts_ok(ps),
        part_ok(p),
    ensures
        #[trigger] parts_ok(ps.push(p)),
{
    assert forall|i: int| 0 <= i < ps.push(p).len() implies part_ok(#[trigger] ps.push(p)[i]) by {
        if i < ps.len() {
            assert(ps.push(p)[i] == ps[i]);
        }
    }
}

/// Appending a part appends `;` and the part to the text.
pub proof fn lemma_parts_text_push(ps: Seq<(Seq<char>, Seq<char>)>, p: (Seq<char>, Seq<char>))
    ensures
        parts_text(ps.push(p)) == if ps.len() == 0 {
            kv_part(p)
        } else {
            parts_text(ps) + seq![';'] + kv_part(p)
        },
    decreases ps.len(),
{
    let q = ps.push(p);
    if ps.len() == 0 {
        assert(q.len() == 1);
    } else if ps.len() == 1 {
        assert(q.skip(1) =~= seq![p]);
        assert(parts_text(q.skip(1)) == kv_part(p));
        assert(q[0] == ps[0]);
    } else {
        assert(q.skip(1) =~= ps.skip(1).push(p));
        lemma_parts_text_push(ps.skip(1), p);
        assert(q[0] == ps[0]);
    }
}

/// Reading after an appended part: the part wins when its key matches.
pub broadcast proof fn lemma_lookup_push(ps: Seq<(Seq<char>, Seq<char>)>, p: (Seq<char>, Seq<char>), key: Seq<char>, found: Option<Seq<char>>)
    ensures
        #[trigger] lookup_parts(ps.push(p), key, found) == if p.0 == key {
            Some(trim_spec(p.1))
        } else {
            lookup_parts(ps, key, found)
        },
    decreases ps.len(),
{
    let q = ps.push(p);
    if ps.len() == 0 {
        let next = if p.0 == key { Some(trim_spec(p.1)) } else { found };
        assert(q[0] == p);
        assert(q.skip(1) =~= Seq::<(Seq<char>, Seq<char>)>::empty());
        assert(lookup_parts(q.skip(1), key, next) == next);
        assert(lookup_parts(ps, key, found) == found);
    } else {
        assert(q.skip(1) =~= ps.skip(1).push(p));
        assert(q[0] == ps[0]);
        lemma_lookup_push(ps.skip(1), p, key, if ps[0].0 == key { Some(trim_spec(ps[0].1)) } else { found });
    }
}

/// Searching from `from` finds `e` when nothing before `e` matches and `e`
/// matches or ends the text.
pub(crate) proof fn lemma_find_from_at(s: Seq<char>, c: char, from: int, e: int)
    requires
        0 <= from <= e <= s.len(),
        forall|j: int| from <= j < e ==> s[j] != c,
        e == s.len() || s[e] == c,
    ensures
        find_from(s, c, from) == e,
    decreases e - from,
{
    if from < e {
        lemma_find_from_at(s, c, from + 1, e);
    }
}

pub(crate) proof fn lemma_find_from_shift(p: Seq<char>, b: Seq<char>, c: char, j: int)
    requires
        0 <= j <= b.len(),
    ensures
        find_from(p + b, c, p.len() + j) == p.len() + find_from(b, c, j),
    decreases b.len() - j,
{
    if j < b.len() {
        assert((p + b)[p.len() + j] == b[j]);
        if b[j] != c {
            lemma_find_from_shift(p, b, c, j + 1);
        }
    }
}

proof fn lemma_snapshot_field_shift(p: Seq<char>, b: Seq<char>, key: Seq<char>, j: int, found: Option<Seq<char>>)
    requires
        0 <= j <= b.len(),
    ensures
        snapshot_field_from(p + b, key, p.len() + j, found) == snapshot_field_from(b, key, j, found),
    decreases b.len() - j,
{
    let s = p + b;
    lemma_find_from_shift(p, b, ';', j);
    lemma_find_from_bounds(b, ';', j);
    let end = find_from(b, ';', j);
    assert(s.subrange(p.len() + j, p.len() + end) =~= b.subrange(j, end));
    let part = b.subrange(j, end);
    let k = find_from(part, '=', 0);
    if k < part.len() && end < b.len() {
        let next = if trim_spec(part.take(k)) == key { Some(trim_spec(part.skip(k + 1))) } else { found };
        lemma_snapshot_field_shift(p, b, key, end + 1, next);
    }
}

/// Law: a text made of well-formed parts reads, for any key, the value of
/// the last part with that key (trimmed).
pub proof fn lemma_parts_text_reads(ps: Seq<(Seq<char>, Seq<char>)>, key: Seq<char>, found: Option<Seq<char>>)
    requires
        ps.len() >= 1,
        parts_ok(ps),
    ensures
        snapshot_field_from(parts_text(ps), key, 0, found) == Some(lookup_parts(ps, key, found)),
    decreases ps.len(),
{
    let a = kv_part(ps[0]);
    let k0 = ps[0].0;
    let v0 = ps[0].1;
    assert(part_ok(ps[0]));
    assert forall|j: int| 0 <= j < a.len() implies a[j] != ';' by {
        if j < k0.len() {
            assert(a[j] == k0[j]);
        } else if j > k0.len() {
            assert(a[j] == v0[j - k0.len() - 1]);
        }
    }
    assert forall|j: int| 0 <= j < k0.len() implies a[j] != '=' by {
        assert(a[j] == k0[j]);
    }
    lemma_find_from_at(a, '=', 0, k0.len() as int);
    assert(a.take(k0.len() as int) =~= k0);
    assert(a.skip(k0.len() as int + 1) =~= v0);
    let next = if k0 == key { Some(trim_spec(v0)) } else { found };
    let rest = ps.skip(1);
    assert(lookup_parts(ps, key, found) == lookup_parts(rest, key, next));
    if ps.len() == 1 {
        let s = parts_text(ps);
        assert(s == a);
        lemma_find_from_at(s, ';', 0, s.len() as int);
        assert(s.subrange(0, s.len() as int) =~= s);
        assert(rest.len() == 0);
    } else {
        let s = parts_text(ps);
        let p = a + seq![';'];
        let b = parts_text(rest);
        assert(s =~= p + b);
        assert forall|j: int| 0 <= j < a.len() implies s[j] != ';' by {
            assert(s[j] == a[j]);
        }
        assert(s[a.len() as int] == ';');
        lemma_find_from_at(s, ';', 0, a.len() as int);
        assert(s.subrange(0, a.len() as int) =~= a);
        assert(parts_ok(rest)) by {
            assert forall|i: int| 0 <= i < rest.len() implies part_ok(#[trigger] rest[i]) by {
                assert(rest[i] == ps[i + 1]);
            }
        }
        lemma_snapshot_field_shift(p, b, key, 0, next);
        assert(p.len() + 0 == a.len() + 1);
        lemma_parts_text_reads(rest, key, next);
    }
}

} // verus!
