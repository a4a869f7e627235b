//! Text encodings used in saved sessions: hexadecimal text and the selected
//! tableau run.

use vstd::prelude::*;
use vstd::string::StringSliceAdditionalSpecFns;
use vstd::utf8::{
    codepoint_width_1, decode_utf8, encode_utf8, encode_utf8_decode_utf8, encode_utf8_valid_utf8, is_char_boundary,
    leading_bits_width_1, leading_byte_width_1, valid_utf8,
};
use vstd::string::StrSliceExecFns;
use crate::text::{decimal_chars, decimal_text, digit_char, push_text, same_text};

verus! {

// ---------------------------------------------------------------------------
// Hexadecimal text
// ---------------------------------------------------------------------------

/// The lowercase hex digit of a value below sixteen.
pub open spec fn hex_digit(v: int) -> char {
    if v < 10 {
        ((48 + v) as u8) as char
    } else {
        ((87 + v) as u8) as char
    }
}

/// Two lowercase hex digits per byte.
pub open spec fn hex_of_bytes(b: Seq<u8>) -> Seq<char>
    decreases b.len(),
{
    if b.len() == 0 {
        Seq::empty()
    } else {
        hex_of_bytes(b.drop_last()).push(hex_digit(b.last() as int / 16)).push(hex_digit(b.last() as int % 16))
    }
}

fn hex_digit_text(v: u8) -> (r: &'static str)
    requires
        v < 16,
    ensures
        r@ == seq![hex_digit(v as int)],
{
    proof {
        reveal_strlit("0");
        reveal_strlit("1");
        reveal_strlit("2");
        reveal_strlit("3");
        reveal_strlit("4");
        reveal_strlit("5");
        reveal_strlit("6");
        reveal_strlit("7");
        reveal_strlit("8");
        reveal_strlit("9");
        reveal_strlit("a");
        reveal_strlit("b");
        reveal_strlit("c");
        reveal_strlit("d");
        reveal_strlit("e");
        reveal_strlit("f");
    }
    let r = match v {
        0 => "0",
        1 => "1",
        2 => "2",
        3 => "3",
        4 => "4",
        5 => "5",
        6 => "6",
        7 => "7",
        8 => "8",
        9 => "9",
        10 => "a",
        11 => "b",
        12 => "c",
        13 => "d",
        14 => "e",
        _ => "f",
    };
    assert(r@ =~= seq![hex_digit(v as int)]);
    r
}

/// The UTF-8 bytes of `input` as lowercase hex digits, two per byte.
pub fn hex_encode(input: &str) -> (r: String)
    ensures
        r@ == hex_of_bytes(input.spec_bytes()),
{
    let bytes = input.as_bytes();
    let mut out = String::new();
    let mut i: usize = 0;
    while i < bytes.len()
        invariant
            bytes@ == input.spec_bytes(),
            i <= bytes@.len(),
            out@ == hex_of_bytes(bytes@.take(i as int)),
        decreases bytes@.len() - i,
    {
        let b = bytes[i];
        push_text(&mut out, hex_digit_text(b / 16));
        push_text(&mut out, hex_digit_text(b % 16));
        i += 1;
        assert(bytes@.take(i as int).drop_last() =~= bytes@.take(i - 1));
        assert(out@ =~= hex_of_bytes(bytes@.take(i as int)));
    }
    assert(bytes@.take(bytes@.len() as int) =~= bytes@);
    out
}

/// The value of an ASCII hex digit (either case).
pub open spec fn hex_value(b: u8) -> Option<u8> {
    if 48 <= b <= 57 {
        Some((b - 48) as u8)
    } else if 97 <= b <= 102 {
        Some((b - 87) as u8)
    } else if 65 <= b <= 70 {
        Some((b - 55) as u8)
    } else {
        None
    }
}

/// A two-byte hex numeral as `u8::from_str_radix(.., 16)` reads it: two
/// hex digits, or a plus sign and one digit.
pub open spec fn hex_pair(b0: u8, b1: u8) -> Option<u8> {
    if b0 == 43 {
        hex_value(b1)
    } else {
        match (hex_value(b0), hex_value(b1)) {
            (Some(hi), Some(lo)) => Some((hi * 16 + lo) as u8),
            _ => None,
        }
    }
}

/// The bytes a hex text stands for, pair by pair; `None` if some pair is not a numeral.
pub open spec fn hex_bytes(t: Seq<u8>) -> Option<Seq<u8>>
    decreases t.len(),
{
    if t.len() < 2 {
        Some(Seq::empty())
    } else {
        let n = t.len() as int;
        match (hex_bytes(t.take(n - 2)), hex_pair(t[n - 2], t[n - 1])) {
            (Some(rest), Some(b)) => Some(rest.push(b)),
            _ => None,
        }
    }
}

/// What `hex_decode` gives: nothing for an odd length, a bad pair or bytes
/// that are not UTF-8; else the text the bytes encode.
pub open spec fn hex_decode_spec(t: Seq<u8>) -> Option<Seq<char>> {
    if t.len() % 2 != 0 {
        None
    } else {
        match hex_bytes(t) {
            Some(b) => if valid_utf8(b) { Some(decode_utf8(b)) } else { None },
            None => None,
        }
    }
}

/// Every even position of the text starts a character, so each pair can be
/// sliced out of it.
pub open spec fn pairs_sliceable(t: Seq<u8>) -> bool {
    forall|i: int| 0 <= i <= t.len() && i % 2 == 0 ==> #[trigger] is_char_boundary(t, i)
}

/// Every pair that decoding reaches can be sliced out of the text: an odd
/// length is refused before any pair is read, and reading stops at the first
/// pair that is not a hex numeral.
pub open spec fn hex_sliceable(t: Seq<u8>) -> bool {
    t.len() % 2 == 0 ==> forall|i: int|
        0 <= i < t.len() && i % 2 == 0 && #[trigger] hex_bytes(t.take(i)) is Some ==> is_char_boundary(t, i + 2)
}

/// Text whose even positions all start characters can be decoded.
pub proof fn lemma_pairs_hex_sliceable(t: Seq<u8>)
    requires
        pairs_sliceable(t),
    ensures
        hex_sliceable(t),
{
    assert forall|i: int| 0 <= i < t.len() && i % 2 == 0 && #[trigger] hex_bytes(t.take(i)) is Some && t.len() % 2 == 0
        implies is_char_boundary(t, i + 2) by {
        assert((i + 2) % 2 == 0);
    }
}

fn hex_value_of(b: u8) -> (r: Option<u8>)
    ensures
        r == hex_value(b),
{
    if 48 <= b && b <= 57 {
        Some(b - 48)
    } else if 97 <= b && b <= 102 {
        Some(b - 87)
    } else if 65 <= b && b <= 70 {
        Some(b - 55)
    } else {
        None
    }
}

fn hex_pair_of(b0: u8, b1: u8) -> (r: Option<u8>)
    ensures
        r == hex_pair(b0, b1),
{
    if b0 == 43 {
        return hex_value_of(b1);
    }
    match (hex_value_of(b0), hex_value_of(b1)) {
        (Some(hi), Some(lo)) => Some(hi * 16 + lo),
        _ => None,
    }
}

/// A bad pair spoils every longer prefix.
proof fn lemma_hex_bytes_spoiled(t: Seq<u8>, i: int, j: int)
    requires
        0 <= i <= j <= t.len(),
        i % 2 == 0,
        j % 2 == 0,
        hex_bytes(t.take(i)) is None,
    ensures
        hex_bytes(t.take(j)) is None,
    decreases j - i,
{
    if j > i {
        lemma_hex_bytes_spoiled(t, i, j - 2);
        assert(t.take(j).take(j - 2) =~= t.take(j - 2));
    }
}

/// `String::from_utf8`: the bytes as a string when they are valid UTF-8,
/// `None` otherwise; the string's characters are the ones the bytes encode.
#[verifier::external_body]
fn string_from_utf8(bytes: Vec<u8>) -> (r: Option<String>)
    ensures
        r is Some <==> valid_utf8(bytes@),
        r matches Some(s) ==> s@ == decode_utf8(bytes@),
{
    String::from_utf8(bytes).ok()
}

pub open spec fn text_of(r: Option<String>) -> Option<Seq<char>> {
    match r {
        Some(s) => Some(s@),
        None => None,
    }
}

/// Reads hex text back into the string its bytes encode.
pub fn hex_decode(input: &str) -> (r: Option<String>)
    requires
        hex_sliceable(input.spec_bytes()),
    ensures
        text_of(r) == hex_decode_spec(input.spec_bytes()),
{
    let t = input.as_bytes();
    let n = t.len();
    if n % 2 != 0 {
        return None;
    }
    let mut bytes: Vec<u8> = Vec::new();
    let mut i: usize = 0;
    assert(t@.take(0) =~= Seq::<u8>::empty());
    while i < n
        invariant
            t@ == input.spec_bytes(),
            n == t@.len(),
            n % 2 == 0,
            i <= n,
            i % 2 == 0,
            hex_bytes(t@.take(i as int)) == Some(bytes@),
        decreases n - i,
    {
        let ghost next = t@.take(i + 2);
        assert(next.take(i as int) =~= t@.take(i as int));
        assert(next[i as int] == t@[i as int] && next[i + 1] == t@[i + 1]);
        let byte = match hex_pair_of(t[i], t[i + 1]) {
            Some(b) => b,
            None => {
                proof {
                    lemma_hex_bytes_spoiled(t@, i + 2, n as int);
                    assert(t@.take(n as int) =~= t@);
                }
                return None;
            },
        };
        bytes.push(byte);
        i += 2;
    }
    assert(t@.take(n as int) =~= t@);
    string_from_utf8(bytes)
}


/// Whether every pair that decoding reaches can be sliced out of `input`:
/// the test of `hex_sliceable` for text from outside.
pub fn hex_text_sliceable(input: &str) -> (r: bool)
    ensures
        r == hex_sliceable(input.spec_bytes()),
{
    let t = input.as_bytes();
    let n = t.len();
    if n % 2 != 0 {
        return true;
    }
    let mut i: usize = 0;
    assert(t@.take(0) =~= Seq::<u8>::empty());
    while i < n
        invariant
            t@ == input.spec_bytes(),
            n == t@.len(),
            n % 2 == 0,
            i <= n,
            i % 2 == 0,
            hex_bytes(t@.take(i as int)) is Some,
            forall|k: int|
                0 <= k < i && k % 2 == 0 && #[trigger] hex_bytes(t@.take(k)) is Some ==> is_char_boundary(t@, k + 2),
        decreases n - i,
    {
        if !input.is_char_boundary(i + 2) {
            return false;
        }
        let ghost next = t@.take(i + 2);
        assert(next.take(i as int) =~= t@.take(i as int));
        assert(next[i as int] == t@[i as int] && next[i + 1] == t@[i + 1]);
        match hex_pair_of(t[i], t[i + 1]) {
            Some(_) => {},
            None => {
                proof {
                    assert(hex_bytes(next) is None);
                    assert forall|k: int|
                        0 <= k < n && k % 2 == 0 && #[trigger] hex_bytes(t@.take(k)) is Some implies is_char_boundary(
                        t@,
                        k + 2,
                    ) by {
                        if k > i {
                            lemma_hex_bytes_spoiled(t@, i + 2, k);
                        }
                    }
                }
                return true;
            },
        }
        i += 2;
    }
    true
}

/// `hex_decode` for text from outside: nothing when some pair that decoding
/// reaches cannot be sliced out of the text.
pub fn hex_decode_checked(input: &str) -> (r: Option<String>)
    ensures
        hex_sliceable(input.spec_bytes()) ==> text_of(r) == hex_decode_spec(input.spec_bytes()),
        !hex_sliceable(input.spec_bytes()) ==> r is None,
{
    if hex_text_sliceable(input) {
        hex_decode(input)
    } else {
        None
    }
}

// ---------------------------------------------------------------------------
// Hex laws
// ---------------------------------------------------------------------------

/// The bytes of ASCII characters.
pub open spec fn ascii_bytes(c: Seq<char>) -> Seq<u8> {
    c.map_values(|x: char| (x as u32) as u8)
}

proof fn lemma_hex_pair_roundtrip(v: u8)
    ensures
        hex_pair((hex_digit(v as int / 16) as u32) as u8, (hex_digit(v as int % 16) as u32) as u8) == Some(v),
        (hex_digit(v as int / 16) as u32) < 128,
        (hex_digit(v as int % 16) as u32) < 128,
{
    let hi = v as int / 16;
    let lo = v as int % 16;
    assert(0 <= hi < 16 && 0 <= lo < 16 && v == hi * 16 + lo);
    assert((hex_digit(hi) as u32) as u8 == (if hi < 10 { 48 + hi } else { 87 + hi }));
    assert((hex_digit(lo) as u32) as u8 == (if lo < 10 { 48 + lo } else { 87 + lo }));
}

/// Law: reading hex text back gives the bytes it was written from.
pub proof fn lemma_hex_bytes_roundtrip(b: Seq<u8>)
    ensures
        hex_bytes(ascii_bytes(hex_of_bytes(b))) == Some(b),
        hex_of_bytes(b).len() == 2 * b.len(),
        forall|i: int| 0 <= i < hex_of_bytes(b).len() ==> (#[trigger] hex_of_bytes(b)[i] as u32) < 128,
    decreases b.len(),
{
    if b.len() > 0 {
        let d = b.drop_last();
        lemma_hex_bytes_roundtrip(d);
        lemma_hex_pair_roundtrip(b.last());
        let h = hex_of_bytes(b);
        let t = ascii_bytes(h);
        let n = t.len() as int;
        assert(t.take(n - 2) =~= ascii_bytes(hex_of_bytes(d)));
        assert(b =~= d.push(b.last()));
        assert forall|i: int| 0 <= i < h.len() implies (#[trigger] h[i] as u32) < 128 by {
            if i < h.len() - 2 {
                assert(h[i] == hex_of_bytes(d)[i]);
            }
        }
    }
}

/// ASCII characters encode as their own bytes.
proof fn lemma_ascii_encode(c: Seq<char>)
    requires
        forall|i: int| 0 <= i < c.len() ==> (#[trigger] c[i] as u32) < 128,
    ensures
        encode_utf8(c) == ascii_bytes(c),
    decreases c.len(),
{
    if c.len() > 0 {
        let rest = c.drop_first();
        assert forall|i: int| 0 <= i < rest.len() implies (#[trigger] rest[i] as u32) < 128 by {
            assert(rest[i] == c[i + 1]);
        }
        lemma_ascii_encode(rest);
        let x = c[0] as u32;
        assert(x < 128);
        assert((x & 0x7F) as u8 == x as u8) by (bit_vector)
            requires
                x < 128,
        ;
        assert(leading_byte_width_1(x) == x as u8);
        assert(encode_utf8(c) =~= ascii_bytes(c));
    }
}

/// Bytes below 128 are valid UTF-8, and every position of them starts a character.
proof fn lemma_ascii_boundaries(t: Seq<u8>)
    requires
        forall|i: int| 0 <= i < t.len() ==> #[trigger] t[i] < 128,
    ensures
        valid_utf8(t),
        forall|i: int| 0 <= i <= t.len() ==> #[trigger] is_char_boundary(t, i),
    decreases t.len(),
{
    if t.len() > 0 {
        let rest = t.subrange(1, t.len() as int);
        assert forall|i: int| 0 <= i < rest.len() implies #[trigger] rest[i] < 128 by {
            assert(rest[i] == t[i + 1]);
        }
        lemma_ascii_boundaries(rest);
        let b0 = t[0];
        assert((b0 & 0x7f) as u32 <= 0x7f) by (bit_vector);
        assert(codepoint_width_1(b0) == leading_bits_width_1(b0));
        assert forall|i: int| 0 <= i <= t.len() implies #[trigger] is_char_boundary(t, i) by {
            if i > 0 {
                assert(is_char_boundary(rest, i - 1));
            }
        }
    }
}

/// Law: decoding the hex text of any string gives the string back.
pub proof fn lemma_hex_text_roundtrip(s: Seq<char>)
    ensures
        pairs_sliceable(encode_utf8(hex_of_bytes(encode_utf8(s)))),
        hex_decode_spec(encode_utf8(hex_of_bytes(encode_utf8(s)))) == Some(s),
{
    let b = encode_utf8(s);
    let h = hex_of_bytes(b);
    lemma_hex_bytes_roundtrip(b);
    lemma_ascii_encode(h);
    let t = encode_utf8(h);
    assert forall|i: int| 0 <= i < t.len() implies #[trigger] t[i] < 128 by {
        assert(t[i] == (h[i] as u32) as u8);
        assert((h[i] as u32) < 128);
    }
    lemma_ascii_boundaries(t);
    encode_utf8_valid_utf8(s);
    encode_utf8_decode_utf8(s);
    assert(t.len() % 2 == 0);
}


// ---------------------------------------------------------------------------
// The selected run
// ---------------------------------------------------------------------------

/// A run of tableau cards the player selected: its column and first card.
#[derive(Debug, Clone, Copy, PartialEq, Eq, Structural)]
pub struct SelectedRun {
    pub col: usize,
    pub start: usize,
}

pub open spec fn is_digit(c: char) -> bool {
    '0' <= c <= '9'
}

/// The value of a string of decimal digits.
pub open spec fn digits_value(s: Seq<char>) -> nat
    decreases s.len(),
{
    if s.len() == 0 {
        0
    } else {
        digits_value(s.drop_last()) * 10 + ((s.last() as u32) - 48) as nat
    }
}

/// The text after an optional leading plus sign.
pub open spec fn unsigned_body(s: Seq<char>) -> Seq<char> {
    if s.len() > 0 && s[0] == '+' { s.skip(1) } else { s }
}

pub open spec fn all_digits(s: Seq<char>) -> bool {
    forall|i: int| 0 <= i < s.len() ==> #[trigger] is_digit(s[i])
}

/// A `usize` as `str::parse` reads it: an optional plus sign, then at least
/// one decimal digit, with a value that fits.
pub open spec fn parse_usize_spec(s: Seq<char>) -> Option<usize> {
    let body = unsigned_body(s);
    if body.len() > 0 && all_digits(body) && digits_value(body) <= usize::MAX {
        Some(digits_value(body) as usize)
    } else {
        None
    }
}

/// Reads a `usize` as `str::parse` does.
pub fn parse_usize(text: &str) -> (r: Option<usize>)
    ensures
        r == parse_usize_spec(text@),
{
    let n = text.unicode_len();
    let mut i: usize = 0;
    if n > 0 && text.get_char(0) == '+' {
        i = 1;
    }
    let ghost body = unsigned_body(text@);
    let start = i;
    assert(body =~= text@.skip(start as int));
    assert(body.len() == n - start);
    if i >= n {
        return None;
    }
    let mut value: usize = 0;
    let mut overflow = false;
    while i < n
        invariant
            n == text@.len(),
            start <= i <= n,
            start == 0 || start == 1,
            body == text@.skip(start as int),
            body == unsigned_body(text@),
            body.len() == n - start,
            forall|k: int| 0 <= k < i - start ==> #[trigger] is_digit(body[k]),
            !overflow ==> value == digits_value(body.take(i - start)),
            overflow ==> digits_value(body.take(i - start)) > usize::MAX,
        decreases n - i,
    {
        let c = text.get_char(i);
        assert(body[i - start] == c);
        if !('0' <= c && c <= '9') {
            assert(!is_digit(body[i - start]));
            assert(!all_digits(body));
            return None;
        }
        let d = (c as u32 - 48) as usize;
        let ghost prefix = body.take(i + 1 - start);
        assert(prefix.drop_last() =~= body.take(i - start));
        assert(prefix.last() == c);
        proof {
            lemma_digits_value_ge(prefix.drop_last(), prefix);
        }
        if !overflow {
            match value.checked_mul(10) {
                Some(v) => match v.checked_add(d) {
                    Some(w) => {
                        value = w;
                    },
                    None => {
                        overflow = true;
                    },
                },
                None => {
                    overflow = true;
                },
            }
        }
        i += 1;
    }
    assert(body.take(n - start) =~= body);
    if overflow {
        None
    } else {
        Some(value)
    }
}

proof fn lemma_digits_value_ge(shorter: Seq<char>, longer: Seq<char>)
    requires
        longer.len() > 0,
        shorter == longer.drop_last(),
        is_digit(longer.last()),
    ensures
        digits_value(longer) >= digits_value(shorter) * 10,
{
}

/// The text a selected run is stored as: `col,start`, or `-` for none.
pub open spec fn selected_run_text(sel: Option<SelectedRun>) -> Seq<char> {
    match sel {
        Some(run) => decimal_chars(run.col as nat) + seq![','] + decimal_chars(run.start as nat),
        None => seq!['-'],
    }
}

pub fn encode_selected_run(selected: Option<SelectedRun>) -> (r: String)
    ensures
        r@ == selected_run_text(selected),
{
    match selected {
        Some(run) => {
            let mut out = decimal_text(run.col as u64);
            push_text(&mut out, ",");
            let start = decimal_text(run.start as u64);
            push_text(&mut out, start.as_str());
            proof {
                reveal_strlit(",");
            }
            out
        },
        None => {
            proof {
                reveal_strlit("-");
            }
            String::from_str("-")
        },
    }
}

/// The first position of `c` in `s`.
pub open spec fn first_index_of(s: Seq<char>, c: char) -> Option<nat> {
    if exists|i: int| 0 <= i < s.len() && s[i] == c {
        let i = choose|i: int| 0 <= i < s.len() && s[i] == c && forall|j: int| 0 <= j < i ==> s[j] != c;
        Some(i as nat)
    } else {
        None
    }
}

/// What `decode_selected_run` reads: `-` or nothing is no selection; else a
/// column and a start separated by the first comma.
pub open spec fn decode_selected_run_spec(s: Seq<char>) -> Option<Option<SelectedRun>> {
    if s == seq!['-'] || s.len() == 0 {
        Some(None)
    } else {
        match first_index_of(s, ',') {
            None => None,
            Some(k) => match (parse_usize_spec(s.take(k as int)), parse_usize_spec(s.skip(k as int + 1))) {
                (Some(col), Some(start)) => Some(Some(SelectedRun { col, start })),
                _ => None,
            },
        }
    }
}

pub fn decode_selected_run(raw: &str) -> (r: Option<Option<SelectedRun>>)
    ensures
        r == decode_selected_run_spec(raw@),
{
    proof {
        reveal_strlit("-");
        assert("-"@ =~= seq!['-']);
    }
    if same_text(raw, "-") || raw.unicode_len() == 0 {
        return Some(None);
    }
    let n = raw.unicode_len();
    let mut k: usize = 0;
    let mut found = false;
    while k < n && !found
        invariant
            n == raw@.len(),
            k <= n,
            found ==> k < n && raw@[k as int] == ',',
            forall|j: int| 0 <= j < k ==> raw@[j] != ',',
        decreases (n - k) * 2 + (if found { 0int } else { 1int }),
    {
        if raw.get_char(k) == ',' {
            found = true;
        } else {
            k += 1;
        }
    }
    if !found {
        assert(!exists|i: int| 0 <= i < raw@.len() && raw@[i] == ',');
        return None;
    }
    proof {
        let i = choose|i: int| 0 <= i < raw@.len() && raw@[i] == ',' && forall|j: int| 0 <= j < i ==> raw@[j] != ',';
        assert(i == k) by {
            if i < k {
                assert(raw@[i] != ',');
            } else if i > k {
                assert(raw@[k as int] != ',');
            }
        }
    }
    let col = parse_usize(raw.substring_char(0, k));
    let start = parse_usize(raw.substring_char(k + 1, n));
    assert(raw@.subrange(0, k as int) =~= raw@.take(k as int));
    assert(raw@.subrange(k + 1, n as int) =~= raw@.skip(k + 1));
    match (col, start) {
        (Some(col), Some(start)) => Some(Some(SelectedRun { col, start })),
        _ => None,
    }
}


/// Decimal text is a nonempty run of digits that reads back as the number.
pub proof fn lemma_decimal_digits(n: nat)
    ensures
        decimal_chars(n).len() > 0,
        all_digits(decimal_chars(n)),
        digits_value(decimal_chars(n)) == n,
    decreases n,
{
    if n < 10 {
        assert(decimal_chars(n) == seq![digit_char(n)]);
        assert((digit_char(n) as u32) == 48 + n);
        let s = seq![digit_char(n)];
        assert(s.drop_last() =~= Seq::<char>::empty());
        assert(digits_value(Seq::<char>::empty()) == 0);
        assert(s.last() == digit_char(n));
        assert(digits_value(s) == digits_value(s.drop_last()) * 10 + ((s.last() as u32) - 48) as nat);
    } else {
        lemma_decimal_digits(n / 10);
        let d = decimal_chars(n / 10);
        let s = decimal_chars(n);
        assert(s == d.push(digit_char(n % 10)));
        assert((digit_char(n % 10) as u32) == 48 + n % 10);
        assert(s.drop_last() =~= d);
        assert forall|i: int| 0 <= i < s.len() implies #[trigger] is_digit(s[i]) by {
            if i < d.len() {
                assert(s[i] == d[i]);
                assert(is_digit(d[i]));
            }
        }
    }
}

/// Law: a `usize` written in decimal reads back as itself.
pub proof fn lemma_parse_usize_roundtrip(n: usize)
    ensures
        parse_usize_spec(decimal_chars(n as nat)) == Some(n),
{
    lemma_decimal_digits(n as nat);
    let s = decimal_chars(n as nat);
    assert(is_digit(s[0]));
    assert(unsigned_body(s) == s);
}

/// Law: a selected run read back from the text it is stored as is the same selection.
pub proof fn lemma_selected_run_roundtrip(sel: Option<SelectedRun>)
    ensures
        decode_selected_run_spec(selected_run_text(sel)) == Some(sel),
{
    match sel {
        None => {},
        Some(run) => {
            let a = decimal_chars(run.col as nat);
            let b = decimal_chars(run.start as nat);
            let t = a + seq![','] + b;
            lemma_decimal_digits(run.col as nat);
            lemma_decimal_digits(run.start as nat);
            lemma_parse_usize_roundtrip(run.col);
            lemma_parse_usize_roundtrip(run.start);
            assert(t[a.len() as int] == ',');
            assert(is_digit(a[0]));
            assert(t[0] == a[0]);
            assert(t != seq!['-']);
            assert forall|j: int| 0 <= j < a.len() implies t[j] != ',' by {
                assert(t[j] == a[j]);
                assert(is_digit(a[j]));
            }
            let k = choose|i: int| 0 <= i < t.len() && t[i] == ',' && forall|j: int| 0 <= j < i ==> t[j] != ',';
            assert(k == a.len()) by {
                if k < a.len() {
                    assert(t[k] != ',');
                } else if k > a.len() {
                    assert(t[a.len() as int] != ',');
                }
            }
            assert(t.take(a.len() as int) =~= a);
            assert(t.skip(a.len() as int + 1) =~= b);
        },
    }
}

} // verus!
