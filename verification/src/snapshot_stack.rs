//! The undo and redo stacks of a saved session: the last snapshots (at most
//! a fixed number), each written as the hex of its text, separated by
//! commas; `-` stands for an empty stack. Chess position stacks are kept
//! the same way, each position written as its own text.

use vstd::prelude::*;
use vstd::string::StringSliceAdditionalSpecFns;
use vstd::utf8::encode_utf8;
use crate::session_codec::{
    hex_decode, hex_decode_checked, hex_decode_spec, hex_digit, hex_encode, hex_of_bytes, hex_sliceable, lemma_hex_text_roundtrip,
    lemma_pairs_hex_sliceable,
};
use crate::session_fields::{
    find_from, find_in, lemma_find_from_at, lemma_find_from_bounds, lemma_find_from_shift, lemma_find_sub, no_char,
};
use vstd::string::StrSliceExecFns;
use crate::text::{chars_of, push_text, same_text};

verus! {

/// How many snapshots of a stack are kept in a saved session.
pub const MAX_PERSISTED_SNAPSHOTS: usize = 200;

/// The hex text a snapshot is stored as.
pub open spec fn hex_text(s: Seq<char>) -> Seq<char> {
    hex_of_bytes(encode_utf8(s))
}

/// The snapshots a saved stack keeps: the last ones, at most the limit.
pub open spec fn kept_snapshots(stack: Seq<Seq<char>>) -> Seq<Seq<char>> {
    if stack.len() > MAX_PERSISTED_SNAPSHOTS {
        stack.skip(stack.len() - MAX_PERSISTED_SNAPSHOTS)
    } else {
        stack
    }
}

/// The texts joined with commas.
pub open spec fn join_commas(parts: Seq<Seq<char>>) -> Seq<char>
    decreases parts.len(),
{
    if parts.len() == 0 {
        Seq::empty()
    } else if parts.len() == 1 {
        parts[0]
    } else {
        join_commas(parts.drop_last()) + seq![','] + parts.last()
    }
}

/// A saved stack: `-` when empty, else the hex texts of the kept snapshots
/// joined with commas.
pub open spec fn stack_text(stack: Seq<Seq<char>>) -> Seq<char> {
    if stack.len() == 0 {
        seq!['-']
    } else {
        join_commas(kept_snapshots(stack).map_values(|s: Seq<char>| hex_text(s)))
    }
}

/// The comma-separated tokens of `s` from position `from` on.
pub open spec fn split_from(s: Seq<char>, from: int) -> Seq<Seq<char>>
    decreases s.len() - from,
{
    if from < 0 || from > s.len() {
        Seq::empty()
    } else {
        let end = find_from(s, ',', from);
        if end >= s.len() || end < from {
            seq![s.subrange(from, s.len() as int)]
        } else {
            seq![s.subrange(from, end)] + split_from(s, end + 1)
        }
    }
}

/// A comma-joined text splits back into its parts when no part holds a comma.
proof fn lemma_split_join(parts: Seq<Seq<char>>)
    requires
        parts.len() >= 1,
        forall|i: int| 0 <= i < parts.len() ==> no_char(#[trigger] parts[i], ','),
    ensures
        split_from(join_commas(parts), 0) == parts,
    decreases parts.len(),
{
    let s = join_commas(parts);
    if parts.len() == 1 {
        lemma_find_from_at(s, ',', 0, s.len() as int);
        assert(s.subrange(0, s.len() as int) =~= s);
        assert(split_from(s, 0) =~= parts);
    } else {
        let rest = parts.skip(1);
        let a = parts[0];
        lemma_join_front(parts);
        assert(s =~= a + seq![','] + join_commas(rest));
        assert forall|j: int| 0 <= j < a.len() implies s[j] != ',' by {
            assert(s[j] == a[j]);
        }
        lemma_find_from_at(s, ',', 0, a.len() as int);
        assert(s.subrange(0, a.len() as int) =~= a);
        assert forall|i: int| 0 <= i < rest.len() implies no_char(#[trigger] rest[i], ',') by {
            assert(rest[i] == parts[i + 1]);
        }
        lemma_split_join(rest);
        lemma_split_shift(a + seq![','], join_commas(rest), 0);
        assert(split_from(s, a.len() as int + 1) == split_from(join_commas(rest), 0));
        assert(split_from(s, 0) =~= seq![a] + rest);
        assert(seq![a] + rest =~= parts);
    }
}

/// Joining splits off the first part.
proof fn lemma_join_front(parts: Seq<Seq<char>>)
    requires
        parts.len() >= 2,
    ensures
        join_commas(parts) == parts[0] + seq![','] + join_commas(parts.skip(1)),
    decreases parts.len(),
{
    if parts.len() == 2 {
        assert(parts.drop_last() =~= seq![parts[0]]);
        assert(parts.skip(1) =~= seq![parts[1]]);
        assert(join_commas(parts.drop_last()) == parts[0]);
        assert(join_commas(parts.skip(1)) == parts[1]);
    } else {
        let init = parts.drop_last();
        lemma_join_front(init);
        assert(init.skip(1) =~= parts.skip(1).drop_last());
        assert(parts.skip(1).last() == parts.last());
        assert(join_commas(parts.skip(1)) == join_commas(parts.skip(1).drop_last()) + seq![','] + parts.skip(1).last());
        assert(init[0] == parts[0]);
        assert(join_commas(parts) == join_commas(init) + seq![','] + parts.last());
        assert(join_commas(parts) =~= parts[0] + seq![','] + join_commas(parts.skip(1)));
    }
}

proof fn lemma_split_shift(p: Seq<char>, b: Seq<char>, j: int)
    requires
        0 <= j <= b.len(),
    ensures
        split_from(p + b, p.len() + j) == split_from(b, j),
    decreases b.len() - j,
{
    let s = p + b;
    lemma_find_from_shift(p, b, ',', j);
    lemma_find_from_bounds(b, ',', j);
    let end = find_from(b, ',', j);
    assert(s.subrange(p.len() + j, p.len() + end) =~= b.subrange(j, end));
    assert(s.subrange(p.len() + j, s.len() as int) =~= b.subrange(j, b.len() as int));
    if end < b.len() {
        lemma_split_shift(p, b, end + 1);
    }
}

/// The snapshot texts of the tokens, read in order; `None` at the first
/// token that is not the hex of a text.
pub open spec fn decode_tokens(ts: Seq<Seq<char>>) -> Option<Seq<Seq<char>>>
    decreases ts.len(),
{
    if ts.len() == 0 {
        Some(Seq::empty())
    } else {
        match hex_decode_spec(encode_utf8(ts[0])) {
            Some(a) => match decode_tokens(ts.skip(1)) {
                Some(rest) => Some(seq![a] + rest),
                None => None,
            },
            None => None,
        }
    }
}

/// Every token that reading reaches can be cut into byte pairs.
pub open spec fn tokens_sliceable(ts: Seq<Seq<char>>) -> bool
    decreases ts.len(),
{
    ts.len() == 0 || (hex_sliceable(encode_utf8(ts[0])) && (hex_decode_spec(encode_utf8(ts[0])) is Some
        ==> tokens_sliceable(ts.skip(1))))
}

/// An empty or `-` text is the empty stack.
pub open spec fn empty_stack_text(raw: Seq<char>) -> bool {
    raw.len() == 0 || raw == seq!['-']
}

/// The snapshot texts of a saved stack.
pub open spec fn stack_decode_spec(raw: Seq<char>) -> Option<Seq<Seq<char>>> {
    if empty_stack_text(raw) {
        Some(Seq::empty())
    } else {
        decode_tokens(split_from(raw, 0))
    }
}

pub open spec fn string_views(v: Seq<String>) -> Seq<Seq<char>> {
    v.map_values(|s: String| s@)
}

pub open spec fn stack_view(r: Option<Vec<String>>) -> Option<Seq<Seq<char>>> {
    match r {
        Some(v) => Some(string_views(v@)),
        None => None,
    }
}

/// Reads a saved stack back into its snapshot texts, for text in which
/// every token that reading reaches can be cut into byte pairs.
pub fn decode_snapshot_stack(raw: &str) -> (r: Option<Vec<String>>)
    requires
        !empty_stack_text(raw@) ==> tokens_sliceable(split_from(raw@, 0)),
    ensures
        stack_view(r) == stack_decode_spec(raw@),
{
    decode_snapshot_stack_checked(raw)
}

/// The snapshot texts of a saved stack read from outside: nothing when a
/// token that reading reaches cannot be cut into byte pairs.
pub fn decode_snapshot_stack_checked(raw: &str) -> (r: Option<Vec<String>>)
    ensures
        empty_stack_text(raw@) || tokens_sliceable(split_from(raw@, 0)) ==> stack_view(r) == stack_decode_spec(raw@),
        !empty_stack_text(raw@) && !tokens_sliceable(split_from(raw@, 0)) ==> r is None,
{
    proof {
        reveal_strlit("-");
        assert("-"@ =~= seq!['-']);
    }
    if raw.unicode_len() == 0 || same_text(raw, "-") {
        let v: Vec<String> = Vec::new();
        assert(string_views(v@) =~= Seq::<Seq<char>>::empty());
        return Some(v);
    }
    let cs = chars_of(raw);
    let n = cs.len();
    let mut out: Vec<String> = Vec::new();
    let mut from: usize = 0;
    assert(string_views(out@) + split_from(raw@, 0) =~= split_from(raw@, 0));
    loop
        invariant
            from <= n,
            n == raw@.len(),
            cs@ == raw@,
            !empty_stack_text(raw@),
            tokens_sliceable(split_from(raw@, 0)) == tokens_sliceable(split_from(raw@, from as int)),
            tokens_sliceable(split_from(raw@, 0)) ==> stack_decode_spec(raw@) == match decode_tokens(split_from(raw@, from as int)) {
                Some(rest) => Some(string_views(out@) + rest),
                None => None,
            },
        decreases n - from,
    {
        let end = find_in(&cs, ',', from, n);
        proof {
            lemma_find_from_bounds(raw@, ',', from as int);
            lemma_find_sub(raw@, ',', from as int);
        }
        let ghost ts = split_from(raw@, from as int);
        let token = raw.substring_char(from, end);
        assert(ts[0] == token@);
        let decoded = match hex_decode_checked(token) {
            Some(d) => d,
            None => {
                return None;
            },
        };
        proof {
            assert(hex_sliceable(token.spec_bytes()));
            assert(hex_sliceable(encode_utf8(ts[0])));
            assert(tokens_sliceable(ts) == tokens_sliceable(ts.skip(1)));
        }
        let ghost before = string_views(out@);
        out.push(decoded);
        proof {
            assert(string_views(out@) =~= before.push(decoded@));
        }
        if end >= n {
            proof {
                assert(ts.skip(1) =~= Seq::<Seq<char>>::empty());
                assert(string_views(out@) =~= before + seq![decoded@] + Seq::<Seq<char>>::empty());
            }
            return Some(out);
        }
        proof {
            assert(ts.skip(1) =~= split_from(raw@, end as int + 1));
            match decode_tokens(split_from(raw@, end as int + 1)) {
                Some(rest) => {
                    assert(before + (seq![decoded@] + rest) =~= string_views(out@) + rest);
                },
                None => {},
            }
        }
        from = end + 1;
    }
}

/// Writes a stack of snapshot texts as it is saved.
pub fn encode_snapshot_stack(stack: &Vec<String>) -> (r: String)
    ensures
        r@ == stack_text(string_views(stack@)),
{
    if stack.len() == 0 {
        proof {
            reveal_strlit("-");
        }
        return String::from_str("-");
    }
    let len = stack.len();
    let start = if len > MAX_PERSISTED_SNAPSHOTS {
        len - MAX_PERSISTED_SNAPSHOTS
    } else {
        0
    };
    let ghost views = string_views(stack@);
    let ghost parts = kept_snapshots(views).map_values(|s: Seq<char>| hex_text(s));
    assert(kept_snapshots(views) =~= views.skip(start as int));
    assert(parts.len() == len - start);
    let mut out = hex_encode(stack[start].as_str());
    proof {
        assert(parts.take(1) =~= seq![parts[0]]);
        assert(parts[0] == hex_text(stack@[start as int]@));
    }
    let mut i: usize = start + 1;
    while i < len
        invariant
            start < i <= len,
            len == stack@.len(),
            views == string_views(stack@),
            parts == kept_snapshots(views).map_values(|s: Seq<char>| hex_text(s)),
            kept_snapshots(views) == views.skip(start as int),
            parts.len() == len - start,
            out@ == join_commas(parts.take(i - start)),
        decreases len - i,
    {
        push_text(&mut out, ",");
        let h = hex_encode(stack[i].as_str());
        push_text(&mut out, h.as_str());
        proof {
            reveal_strlit(",");
            let t = parts.take(i + 1 - start);
            assert(t.drop_last() =~= parts.take(i - start));
            assert(t.last() == hex_text(stack@[i as int]@));
            assert(out@ =~= join_commas(t.drop_last()) + seq![','] + t.last());
        }
        i += 1;
    }
    assert(parts.take(len - start) =~= parts);
    out
}

pub open spec fn is_hex_char(c: char) -> bool {
    ('0' <= c <= '9') || ('a' <= c <= 'f')
}

proof fn lemma_hex_chars(b: Seq<u8>)
    ensures
        forall|i: int| 0 <= i < hex_of_bytes(b).len() ==> is_hex_char(#[trigger] hex_of_bytes(b)[i]),
        hex_of_bytes(b).len() == 2 * b.len(),
    decreases b.len(),
{
    if b.len() > 0 {
        lemma_hex_chars(b.drop_last());
        let h = hex_of_bytes(b);
        let p = hex_of_bytes(b.drop_last());
        let x = hex_digit(b.last() as int / 16);
        let y = hex_digit(b.last() as int % 16);
        assert(h == p.push(x).push(y));
        assert(is_hex_char(x) && is_hex_char(y));
        assert forall|i: int| 0 <= i < h.len() implies is_hex_char(#[trigger] h[i]) by {
            if i < p.len() {
                assert(h[i] == p[i]);
            }
        }
    }
}

/// The hex text of a snapshot holds only hex digits, reads back as the
/// snapshot, and is empty only for the empty snapshot.
proof fn lemma_hex_text_facts(s: Seq<char>)
    ensures
        no_char(hex_text(s), ','),
        hex_text(s) != seq!['-'],
        hex_text(s).len() == 0 ==> s.len() == 0,
        hex_decode_spec(encode_utf8(hex_text(s))) == Some(s),
        hex_sliceable(encode_utf8(hex_text(s))),
{
    lemma_hex_text_roundtrip(s);
    lemma_pairs_hex_sliceable(encode_utf8(hex_text(s)));
    lemma_hex_chars(encode_utf8(s));
    let h = hex_text(s);
    if h == seq!['-'] {
        assert(is_hex_char(h[0]));
    }
    if h.len() == 0 {
        assert(h =~= Seq::<char>::empty());
        assert(encode_utf8(h) =~= Seq::<u8>::empty());
    }
}

/// Snapshots written as hex read back one by one.
proof fn lemma_decode_hex_tokens(kept: Seq<Seq<char>>)
    ensures
        decode_tokens(kept.map_values(|s: Seq<char>| hex_text(s))) == Some(kept),
        tokens_sliceable(kept.map_values(|s: Seq<char>| hex_text(s))),
    decreases kept.len(),
{
    let ts = kept.map_values(|s: Seq<char>| hex_text(s));
    if kept.len() > 0 {
        lemma_hex_text_facts(kept[0]);
        lemma_decode_hex_tokens(kept.skip(1));
        assert(ts.skip(1) =~= kept.skip(1).map_values(|s: Seq<char>| hex_text(s)));
        assert(seq![kept[0]] + kept.skip(1) =~= kept);
    } else {
        assert(kept =~= Seq::<Seq<char>>::empty());
    }
}

/// Law: a saved stack reads back as the snapshots it keeps (the last ones,
/// at most the limit), and reading it never cuts a character in two. The
/// one stack that does not read back is a single empty snapshot, which is
/// written as the empty text of the empty stack.
pub proof fn lemma_snapshot_stack_roundtrip(stack: Seq<Seq<char>>)
    requires
        !(stack.len() == 1 && stack[0].len() == 0),
    ensures
        !empty_stack_text(stack_text(stack)) ==> tokens_sliceable(split_from(stack_text(stack), 0)),
        stack_decode_spec(stack_text(stack)) == Some(kept_snapshots(stack)),
{
    if stack.len() > 0 {
        let kept = kept_snapshots(stack);
        let parts = kept.map_values(|s: Seq<char>| hex_text(s));
        let text = stack_text(stack);
        assert(kept.len() >= 1);
        assert forall|i: int| 0 <= i < parts.len() implies no_char(#[trigger] parts[i], ',') by {
            lemma_hex_text_facts(kept[i]);
        }
        lemma_split_join(parts);
        lemma_decode_hex_tokens(kept);
        if parts.len() == 1 {
            assert(stack.len() == 1);
            assert(kept[0] == stack[0]);
            lemma_hex_text_facts(kept[0]);
            assert(text == parts[0]);
        } else {
            lemma_join_front(parts);
            assert(text[parts[0].len() as int] == ',');
            if text == seq!['-'] {
                assert(text.len() == 1);
            }
        }
        assert(!empty_stack_text(text));
    } else {
        assert(kept_snapshots(stack) =~= Seq::<Seq<char>>::empty());
    }
}

// ---------------------------------------------------------------------------
// Chess position stacks
// ---------------------------------------------------------------------------

/// A saved chess position stack: `-` when empty, else the kept positions'
/// texts joined with commas.
pub open spec fn position_stack_text(stack: Seq<Seq<char>>) -> Seq<char> {
    if stack.len() == 0 {
        seq!['-']
    } else {
        join_commas(kept_snapshots(stack))
    }
}

/// The position texts of a saved chess position stack.
pub open spec fn position_tokens_spec(raw: Seq<char>) -> Seq<Seq<char>> {
    if empty_stack_text(raw) {
        Seq::empty()
    } else {
        split_from(raw, 0)
    }
}

/// Writes a chess position stack from its positions' texts.
pub fn encode_position_stack(stack: &Vec<String>) -> (r: String)
    ensures
        r@ == position_stack_text(string_views(stack@)),
{
    if stack.len() == 0 {
        proof {
            reveal_strlit("-");
        }
        return String::from_str("-");
    }
    let len = stack.len();
    let start = if len > MAX_PERSISTED_SNAPSHOTS {
        len - MAX_PERSISTED_SNAPSHOTS
    } else {
        0
    };
    let ghost views = string_views(stack@);
    let ghost parts = kept_snapshots(views);
    assert(parts =~= views.skip(start as int));
    let mut out = stack[start].clone();
    proof {
        assert(parts.take(1) =~= seq![parts[0]]);
    }
    let mut i: usize = start + 1;
    while i < len
        invariant
            start < i <= len,
            len == stack@.len(),
            views == string_views(stack@),
            parts == kept_snapshots(views),
            parts == views.skip(start as int),
            out@ == join_commas(parts.take(i - start)),
        decreases len - i,
    {
        push_text(&mut out, ",");
        push_text(&mut out, stack[i].as_str());
        proof {
            reveal_strlit(",");
            let t = parts.take(i + 1 - start);
            assert(t.drop_last() =~= parts.take(i - start));
            assert(t.last() == stack@[i as int]@);
            assert(out@ =~= join_commas(t.drop_last()) + seq![','] + t.last());
        }
        i += 1;
    }
    assert(parts.take(len - start) =~= parts);
    out
}

/// Splits a saved chess position stack into its positions' texts, for the
/// chess rules to read.
pub fn position_stack_tokens(raw: &str) -> (r: Vec<String>)
    ensures
        string_views(r@) == position_tokens_spec(raw@),
{
    proof {
        reveal_strlit("-");
        assert("-"@ =~= seq!['-']);
    }
    let mut out: Vec<String> = Vec::new();
    if raw.unicode_len() == 0 || same_text(raw, "-") {
        assert(string_views(out@) =~= Seq::<Seq<char>>::empty());
        return out;
    }
    let cs = chars_of(raw);
    let n = cs.len();
    let mut from: usize = 0;
    assert(string_views(out@) + split_from(raw@, 0) =~= split_from(raw@, 0));
    loop
        invariant
            from <= n,
            n == raw@.len(),
            cs@ == raw@,
            !empty_stack_text(raw@),
            position_tokens_spec(raw@) == string_views(out@) + split_from(raw@, from as int),
        decreases n - from,
    {
        let end = find_in(&cs, ',', from, n);
        proof {
            lemma_find_from_bounds(raw@, ',', from as int);
            lemma_find_sub(raw@, ',', from as int);
        }
        let ghost ts = split_from(raw@, from as int);
        let ghost before = string_views(out@);
        let token = String::from_str(raw.substring_char(from, end));
        out.push(token);
        proof {
            assert(string_views(out@) =~= before.push(ts[0]));
        }
        if end >= n {
            proof {
                assert(ts =~= seq![ts[0]]);
                assert(string_views(out@) =~= before + ts);
            }
            return out;
        }
        proof {
            assert(ts =~= seq![ts[0]] + split_from(raw@, end as int + 1));
            assert(before + ts =~= string_views(out@) + split_from(raw@, end as int + 1));
        }
        from = end + 1;
    }
}

/// Law: a saved chess position stack splits back into the positions it
/// keeps (the last ones, at most the limit), when no position text holds a
/// comma and the stack is not one empty position or one `-`, which read as
/// the empty stack.
pub proof fn lemma_position_stack_roundtrip(stack: Seq<Seq<char>>)
    requires
        forall|i: int| 0 <= i < stack.len() ==> no_char(#[trigger] stack[i], ','),
        !(stack.len() == 1 && empty_stack_text(stack[0])),
    ensures
        position_tokens_spec(position_stack_text(stack)) == kept_snapshots(stack),
{
    if stack.len() > 0 {
        let kept = kept_snapshots(stack);
        let text = position_stack_text(stack);
        assert forall|i: int| 0 <= i < kept.len() implies no_char(#[trigger] kept[i], ',') by {
            if stack.len() > MAX_PERSISTED_SNAPSHOTS {
                assert(kept[i] == stack[i + stack.len() - MAX_PERSISTED_SNAPSHOTS]);
            }
        }
        lemma_split_join(kept);
        if kept.len() == 1 {
            assert(stack.len() == 1);
            assert(text == stack[0]);
        } else {
            lemma_join_front(kept);
            assert(text[kept[0].len() as int] == ',');
            if text == seq!['-'] {
                assert(text.len() == 1);
            }
            assert(text.len() > 0);
        }
    } else {
        assert(kept_snapshots(stack) =~= Seq::<Seq<char>>::empty());
    }
}

} // verus!
