//! Writing and reading the plain fields of an undo snapshot: the selection,
//! move counter and timer, the foundation slot suits, and the chess view
//! state. The game runtime, mode, draw count, APM samples and chess
//! positions are encoded and read by whoever owns those types; the snapshot
//! carries their texts, and `snapshot_field` finds them again.

use vstd::prelude::*;
use crate::cards::Suit;
use crate::chess_notation::{decode_chess_variant, stored_variant, ChessVariant};
use crate::session_codec::{
    all_digits, decode_selected_run, decode_selected_run_spec, encode_selected_run, is_digit, lemma_decimal_digits,
    lemma_parse_usize_roundtrip, lemma_selected_run_roundtrip, parse_usize, parse_usize_spec, selected_run_text,
    SelectedRun,
};
use crate::session_fields::{
    flag_spec, is_white, kv_part, lemma_lookup_push, lemma_parts_ok_push, lemma_parts_text_push, lemma_parts_text_reads,
    lemma_trim_plain, lookup_parts, no_char, part_ok, parse_flag, parse_square, parts_ok, parts_text, snapshot_field,
    snapshot_field_spec, square_spec, trim_spec,
};
use crate::text::{chars_of, decimal_chars, decimal_text, push_char, push_text};

verus! {

/// The suit each of the four foundation slots shows, if any.
#[derive(Debug, Clone, Copy, PartialEq, Eq, Structural)]
pub struct SlotSuits(pub Option<Suit>, pub Option<Suit>, pub Option<Suit>, pub Option<Suit>);

/// The plain fields of a snapshot.
#[derive(Debug, Clone, Copy, PartialEq, Eq, Structural)]
pub struct SnapshotHeader {
    pub selected_run: Option<SelectedRun>,
    pub selected_waste: bool,
    pub move_count: u32,
    pub elapsed_seconds: u32,
    pub timer_started: bool,
    pub apm_elapsed_offset_seconds: u32,
    pub foundation_slot_suits: SlotSuits,
    pub chess_mode_active: bool,
    pub chess_variant: ChessVariant,
    pub chess_selected_square: Option<u8>,
    pub chess_last_move_from: Option<u8>,
    pub chess_last_move_to: Option<u8>,
}

/// A `u32` as `str::parse` reads it.
pub open spec fn u32_spec(s: Seq<char>) -> Option<u32> {
    match parse_usize_spec(s) {
        Some(v) => if v <= u32::MAX { Some(v as u32) } else { None },
        None => None,
    }
}

fn parse_u32(raw: &str) -> (r: Option<u32>)
    ensures
        r == u32_spec(raw@),
{
    match parse_usize(raw) {
        Some(v) => if v <= u32::MAX as usize {
            Some(v as u32)
        } else {
            None
        },
        None => None,
    }
}

pub open spec fn slot_suit(c: char) -> Option<Option<Suit>> {
    if c == 'C' {
        Some(Some(Suit::Clubs))
    } else if c == 'D' {
        Some(Some(Suit::Diamonds))
    } else if c == 'H' {
        Some(Some(Suit::Hearts))
    } else if c == 'S' {
        Some(Some(Suit::Spades))
    } else if c == '-' {
        Some(None)
    } else {
        None
    }
}

pub open spec fn no_slots() -> SlotSuits {
    SlotSuits(None, None, None, None)
}

/// The foundation slot suits: four letters `C`, `D`, `H`, `S` or `-`;
/// anything else (or nothing) leaves every slot without a suit.
pub open spec fn slots_spec(raw: Option<Seq<char>>) -> SlotSuits {
    match raw {
        Some(s) => if s.len() == 4 && slot_suit(s[0]) is Some && slot_suit(s[1]) is Some && slot_suit(s[2]) is Some
            && slot_suit(s[3]) is Some {
            SlotSuits(slot_suit(s[0])->0, slot_suit(s[1])->0, slot_suit(s[2])->0, slot_suit(s[3])->0)
        } else {
            no_slots()
        },
        None => no_slots(),
    }
}

fn slot_suit_of(c: char) -> (r: Option<Option<Suit>>)
    ensures
        r == slot_suit(c),
{
    if c == 'C' {
        Some(Some(Suit::Clubs))
    } else if c == 'D' {
        Some(Some(Suit::Diamonds))
    } else if c == 'H' {
        Some(Some(Suit::Hearts))
    } else if c == 'S' {
        Some(Some(Suit::Spades))
    } else if c == '-' {
        Some(None)
    } else {
        None
    }
}

fn decode_slots(raw: Option<&str>) -> (r: SlotSuits)
    ensures
        r == slots_spec(match raw {
            Some(s) => Some(s@),
            None => None,
        }),
{
    let s = match raw {
        Some(s) => s,
        None => {
            return SlotSuits(None, None, None, None);
        },
    };
    let cs = chars_of(s);
    if cs.len() != 4 {
        return SlotSuits(None, None, None, None);
    }
    match (slot_suit_of(cs[0]), slot_suit_of(cs[1]), slot_suit_of(cs[2]), slot_suit_of(cs[3])) {
        (Some(a), Some(b), Some(c), Some(d)) => SlotSuits(a, b, c, d),
        _ => SlotSuits(None, None, None, None),
    }
}

pub open spec fn opt_square(f: Option<Seq<char>>) -> Option<u8> {
    match f {
        Some(s) => square_spec(s),
        None => None,
    }
}

/// The field's value, when the snapshot's parts are well formed.
pub open spec fn field_of(s: Seq<char>, key: Seq<char>) -> Option<Seq<char>> {
    match snapshot_field_spec(s, key) {
        Some(v) => v,
        None => None,
    }
}

/// The plain fields of an encoded snapshot. It is not read when a part is
/// not `key=value`, or when the selection, the waste flag, the move
/// counter, the elapsed seconds or the timer flag is missing or invalid.
/// The APM offset defaults to zero, the slot suits to none, the chess mode
/// to off and the variant to standard chess; the chess squares count only
/// in chess mode.
pub open spec fn header_spec(s: Seq<char>) -> Option<SnapshotHeader> {
    if snapshot_field_spec(s, "selected"@) is None {
        None
    } else {
        let get = |k: Seq<char>| field_of(s, k);
        match (get("selected"@), get("waste"@), get("moves"@), get("elapsed"@), get("timer"@)) {
            (Some(sel), Some(waste), Some(moves), Some(elapsed), Some(timer)) => match (
                decode_selected_run_spec(sel),
                flag_spec(waste),
                u32_spec(moves),
                u32_spec(elapsed),
                flag_spec(timer),
            ) {
                (Some(selected_run), Some(selected_waste), Some(move_count), Some(elapsed_seconds), Some(timer_started)) => {
                    let chess_mode_active = get("chess_mode"@) == Some("1"@);
                    Some(SnapshotHeader {
                        selected_run,
                        selected_waste,
                        move_count,
                        elapsed_seconds,
                        timer_started,
                        apm_elapsed_offset_seconds: match get("apm_offset"@) {
                            Some(v) => match u32_spec(v) {
                                Some(n) => n,
                                None => 0,
                            },
                            None => 0,
                        },
                        foundation_slot_suits: slots_spec(get("fslots"@)),
                        chess_mode_active,
                        chess_variant: match get("chess_variant"@) {
                            Some(v) => match stored_variant(v) {
                                Some(x) => x,
                                None => ChessVariant::Standard,
                            },
                            None => ChessVariant::Standard,
                        },
                        chess_selected_square: if chess_mode_active { opt_square(get("chess_selected"@)) } else { None },
                        chess_last_move_from: if chess_mode_active { opt_square(get("chess_last_from"@)) } else { None },
                        chess_last_move_to: if chess_mode_active { opt_square(get("chess_last_to"@)) } else { None },
                    })
                },
                _ => None,
            },
            _ => None,
        }
    }
}

fn field<'a>(encoded: &'a str, key: &str) -> (r: Option<&'a str>)
    ensures
        match r {
            Some(v) => field_of(encoded@, key@) == Some(v@),
            None => field_of(encoded@, key@) is None,
        },
{
    match snapshot_field(encoded, key) {
        Some(v) => v,
        None => None,
    }
}

fn square_of(raw: Option<&str>) -> (r: Option<u8>)
    ensures
        r == opt_square(match raw {
            Some(s) => Some(s@),
            None => None,
        }),
{
    match raw {
        Some(s) => parse_square(s),
        None => None,
    }
}

/// Reads the plain fields of an encoded snapshot.
pub fn decode_snapshot_header(encoded: &str) -> (r: Option<SnapshotHeader>)
    ensures
        r == header_spec(encoded@),
{
    proof {
        reveal_strlit("na");
        reveal_strlit("-");
        reveal_strlit("1");
    }
    if snapshot_field(encoded, "selected").is_none() {
        return None;
    }
    let selected_raw = match field(encoded, "selected") {
        Some(v) => v,
        None => {
            return None;
        },
    };
    let waste_raw = match field(encoded, "waste") {
        Some(v) => v,
        None => {
            return None;
        },
    };
    let moves_raw = match field(encoded, "moves") {
        Some(v) => v,
        None => {
            return None;
        },
    };
    let elapsed_raw = match field(encoded, "elapsed") {
        Some(v) => v,
        None => {
            return None;
        },
    };
    let timer_raw = match field(encoded, "timer") {
        Some(v) => v,
        None => {
            return None;
        },
    };
    let selected_run = match decode_selected_run(selected_raw) {
        Some(v) => v,
        None => {
            return None;
        },
    };
    let selected_waste = match parse_flag(waste_raw) {
        Some(v) => v,
        None => {
            return None;
        },
    };
    let move_count = match parse_u32(moves_raw) {
        Some(v) => v,
        None => {
            return None;
        },
    };
    let elapsed_seconds = match parse_u32(elapsed_raw) {
        Some(v) => v,
        None => {
            return None;
        },
    };
    let timer_started = match parse_flag(timer_raw) {
        Some(v) => v,
        None => {
            return None;
        },
    };
    let apm_elapsed_offset_seconds = match field(encoded, "apm_offset") {
        Some(v) => match parse_u32(v) {
            Some(n) => n,
            None => 0,
        },
        None => 0,
    };
    let foundation_slot_suits = decode_slots(field(encoded, "fslots"));
    let chess_mode_active = match field(encoded, "chess_mode") {
        Some(v) => crate::text::same_text(v, "1"),
        None => false,
    };
    let chess_variant = match field(encoded, "chess_variant") {
        Some(v) => match decode_chess_variant(v) {
            Some(x) => x,
            None => ChessVariant::Standard,
        },
        None => ChessVariant::Standard,
    };
    let (chess_selected_square, chess_last_move_from, chess_last_move_to) = if chess_mode_active {
        (
            square_of(field(encoded, "chess_selected")),
            square_of(field(encoded, "chess_last_from")),
            square_of(field(encoded, "chess_last_to")),
        )
    } else {
        (None, None, None)
    };
    Some(SnapshotHeader {
        selected_run,
        selected_waste,
        move_count,
        elapsed_seconds,
        timer_started,
        apm_elapsed_offset_seconds,
        foundation_slot_suits,
        chess_mode_active,
        chess_variant,
        chess_selected_square,
        chess_last_move_from,
        chess_last_move_to,
    })
}

// ---------------------------------------------------------------------------
// Writing a snapshot
// ---------------------------------------------------------------------------

/// An on/off flag as stored: `1` or `0`.
pub open spec fn flag_text(b: bool) -> Seq<char> {
    if b {
        seq!['1']
    } else {
        seq!['0']
    }
}

/// The letter a foundation slot is stored as.
pub open spec fn slot_char(o: Option<Suit>) -> char {
    match o {
        Some(Suit::Clubs) => 'C',
        Some(Suit::Diamonds) => 'D',
        Some(Suit::Hearts) => 'H',
        Some(Suit::Spades) => 'S',
        None => '-',
    }
}

/// The four foundation slots as stored.
pub open spec fn slots_text(s: SlotSuits) -> Seq<char> {
    seq![slot_char(s.0), slot_char(s.1), slot_char(s.2), slot_char(s.3)]
}

/// The identifier a chess variant is stored under.
pub open spec fn variant_id(v: ChessVariant) -> Seq<char> {
    match v {
        ChessVariant::Standard => "chess-standard"@,
        ChessVariant::Chess960 => "chess-960"@,
        ChessVariant::Atomic => "chess-atomic"@,
    }
}

/// A board square as stored: its number, or `na` for none.
pub open spec fn square_text(sq: Option<u8>) -> Seq<char> {
    match sq {
        Some(x) => decimal_chars(x as nat),
        None => seq!['n', 'a'],
    }
}

/// The parts of an encoded snapshot, in the order they are written. The
/// mode, the runtime (hex), the APM samples and the chess position texts
/// come encoded by their owners.
pub open spec fn snapshot_parts(
    h: SnapshotHeader,
    mode: Seq<char>,
    draw: u8,
    runtime_hex: Seq<char>,
    apm: Seq<char>,
    chess_fen: Seq<char>,
    chess_history: Seq<char>,
    chess_future: Seq<char>,
) -> Seq<(Seq<char>, Seq<char>)> {
    Seq::empty()
        .push(("mode"@, mode))
        .push(("draw"@, decimal_chars(draw as nat)))
        .push(("selected"@, selected_run_text(h.selected_run)))
        .push(("waste"@, flag_text(h.selected_waste)))
        .push(("moves"@, decimal_chars(h.move_count as nat)))
        .push(("elapsed"@, decimal_chars(h.elapsed_seconds as nat)))
        .push(("timer"@, flag_text(h.timer_started)))
        .push(("apm_offset"@, decimal_chars(h.apm_elapsed_offset_seconds as nat)))
        .push(("runtime_hex"@, runtime_hex))
        .push(("apm"@, apm))
        .push(("fslots"@, slots_text(h.foundation_slot_suits)))
        .push(("chess_mode"@, flag_text(h.chess_mode_active)))
        .push(("chess_variant"@, variant_id(h.chess_variant)))
        .push(("chess_fen"@, chess_fen))
        .push(("chess_selected"@, square_text(h.chess_selected_square)))
        .push(("chess_last_from"@, square_text(h.chess_last_move_from)))
        .push(("chess_last_to"@, square_text(h.chess_last_move_to)))
        .push(("chess_history"@, chess_history))
        .push(("chess_future"@, chess_future))
}

/// Appends one part, after a `;` unless it is the first.
fn push_part(
    out: &mut String,
    first: bool,
    key: &str,
    value: &str,
    Ghost(ps): Ghost<Seq<(Seq<char>, Seq<char>)>>,
)
    requires
        old(out)@ == parts_text(ps),
        first == (ps.len() == 0),
    ensures
        final(out)@ == parts_text(ps.push((key@, value@))),
{
    proof {
        lemma_parts_text_push(ps, (key@, value@));
        reveal_strlit(";");
        reveal_strlit("=");
    }
    let ghost before = out@;
    if !first {
        push_text(out, ";");
    }
    push_text(out, key);
    push_text(out, "=");
    push_text(out, value);
    proof {
        if first {
            assert(out@ =~= kv_part((key@, value@)));
        } else {
            assert(out@ =~= before + seq![';'] + kv_part((key@, value@)));
        }
    }
}

fn flag_str(b: bool) -> (r: &'static str)
    ensures
        r@ == flag_text(b),
{
    proof {
        reveal_strlit("1");
        reveal_strlit("0");
    }
    if b {
        "1"
    } else {
        "0"
    }
}

fn slot_char_of(o: Option<Suit>) -> (r: char)
    ensures
        r == slot_char(o),
{
    match o {
        Some(Suit::Clubs) => 'C',
        Some(Suit::Diamonds) => 'D',
        Some(Suit::Hearts) => 'H',
        Some(Suit::Spades) => 'S',
        None => '-',
    }
}

fn variant_str(v: ChessVariant) -> (r: &'static str)
    ensures
        r@ == variant_id(v),
{
    match v {
        ChessVariant::Standard => "chess-standard",
        ChessVariant::Chess960 => "chess-960",
        ChessVariant::Atomic => "chess-atomic",
    }
}

fn square_string(sq: Option<u8>) -> (r: String)
    ensures
        r@ == square_text(sq),
{
    match sq {
        Some(x) => decimal_text(x as u64),
        None => {
            proof {
                reveal_strlit("na");
            }
            String::from_str("na")
        },
    }
}

/// Writes a snapshot: its plain fields from `h`, the draw count, and the
/// texts that the mode, the runtime (as hex), the APM samples and the chess
/// positions are stored as.
pub fn encode_snapshot_text(
    h: &SnapshotHeader,
    mode: &str,
    draw: u8,
    runtime_hex: &str,
    apm: &str,
    chess_fen: &str,
    chess_history: &str,
    chess_future: &str,
) -> (r: String)
    ensures
        r@ == parts_text(snapshot_parts(*h, mode@, draw, runtime_hex@, apm@, chess_fen@, chess_history@, chess_future@)),
{
    let ghost mut ps: Seq<(Seq<char>, Seq<char>)> = Seq::empty();
    let mut out = String::new();
    proof {
        assert(out@ =~= parts_text(ps));
    }
    push_part(&mut out, true, "mode", mode, Ghost(ps));
    proof {
        ps = ps.push(("mode"@, mode@));
    }
    let draw_text = decimal_text(draw as u64);
    push_part(&mut out, false, "draw", draw_text.as_str(), Ghost(ps));
    proof {
        ps = ps.push(("draw"@, draw_text@));
    }
    let selected = encode_selected_run(h.selected_run);
    push_part(&mut out, false, "selected", selected.as_str(), Ghost(ps));
    proof {
        ps = ps.push(("selected"@, selected@));
    }
    push_part(&mut out, false, "waste", flag_str(h.selected_waste), Ghost(ps));
    proof {
        ps = ps.push(("waste"@, flag_text(h.selected_waste)));
    }
    let moves = decimal_text(h.move_count as u64);
    push_part(&mut out, false, "moves", moves.as_str(), Ghost(ps));
    proof {
        ps = ps.push(("moves"@, moves@));
    }
    let elapsed = decimal_text(h.elapsed_seconds as u64);
    push_part(&mut out, false, "elapsed", elapsed.as_str(), Ghost(ps));
    proof {
        ps = ps.push(("elapsed"@, elapsed@));
    }
    push_part(&mut out, false, "timer", flag_str(h.timer_started), Ghost(ps));
    proof {
        ps = ps.push(("timer"@, flag_text(h.timer_started)));
    }
    let offset = decimal_text(h.apm_elapsed_offset_seconds as u64);
    push_part(&mut out, false, "apm_offset", offset.as_str(), Ghost(ps));
    proof {
        ps = ps.push(("apm_offset"@, offset@));
    }
    push_part(&mut out, false, "runtime_hex", runtime_hex, Ghost(ps));
    proof {
        ps = ps.push(("runtime_hex"@, runtime_hex@));
    }
    push_part(&mut out, false, "apm", apm, Ghost(ps));
    proof {
        ps = ps.push(("apm"@, apm@));
    }
    let mut slots = String::new();
    push_char(&mut slots, slot_char_of(h.foundation_slot_suits.0));
    push_char(&mut slots, slot_char_of(h.foundation_slot_suits.1));
    push_char(&mut slots, slot_char_of(h.foundation_slot_suits.2));
    push_char(&mut slots, slot_char_of(h.foundation_slot_suits.3));
    proof {
        assert(slots@ =~= slots_text(h.foundation_slot_suits));
    }
    push_part(&mut out, false, "fslots", slots.as_str(), Ghost(ps));
    proof {
        ps = ps.push(("fslots"@, slots@));
    }
    push_part(&mut out, false, "chess_mode", flag_str(h.chess_mode_active), Ghost(ps));
    proof {
        ps = ps.push(("chess_mode"@, flag_text(h.chess_mode_active)));
    }
    push_part(&mut out, false, "chess_variant", variant_str(h.chess_variant), Ghost(ps));
    proof {
        ps = ps.push(("chess_variant"@, variant_id(h.chess_variant)));
    }
    push_part(&mut out, false, "chess_fen", chess_fen, Ghost(ps));
    proof {
        ps = ps.push(("chess_fen"@, chess_fen@));
    }
    let sel_sq = square_string(h.chess_selected_square);
    push_part(&mut out, false, "chess_selected", sel_sq.as_str(), Ghost(ps));
    proof {
        ps = ps.push(("chess_selected"@, sel_sq@));
    }
    let from_sq = square_string(h.chess_last_move_from);
    push_part(&mut out, false, "chess_last_from", from_sq.as_str(), Ghost(ps));
    proof {
        ps = ps.push(("chess_last_from"@, from_sq@));
    }
    let to_sq = square_string(h.chess_last_move_to);
    push_part(&mut out, false, "chess_last_to", to_sq.as_str(), Ghost(ps));
    proof {
        ps = ps.push(("chess_last_to"@, to_sq@));
    }
    push_part(&mut out, false, "chess_history", chess_history, Ghost(ps));
    proof {
        ps = ps.push(("chess_history"@, chess_history@));
    }
    push_part(&mut out, false, "chess_future", chess_future, Ghost(ps));
    proof {
        ps = ps.push(("chess_future"@, chess_future@));
        assert(ps =~= snapshot_parts(*h, mode@, draw, runtime_hex@, apm@, chess_fen@, chess_history@, chess_future@));
    }
    out
}

// ---------------------------------------------------------------------------
// Reading back what was written
// ---------------------------------------------------------------------------

/// A header that survives being stored: its squares are on the board, and
/// outside chess mode it holds no chess squares (they are not read there).
pub open spec fn header_storable(h: SnapshotHeader) -> bool {
    &&& (h.chess_selected_square matches Some(x) ==> x < 64)
    &&& (h.chess_last_move_from matches Some(x) ==> x < 64)
    &&& (h.chess_last_move_to matches Some(x) ==> x < 64)
    &&& (!h.chess_mode_active ==> {
        &&& h.chess_selected_square is None
        &&& h.chess_last_move_from is None
        &&& h.chess_last_move_to is None
    })
}

/// A stored value that reads back as written: no `;`, no surrounding
/// whitespace.
pub open spec fn plain_value(v: Seq<char>) -> bool {
    no_char(v, ';') && trim_spec(v) == v
}

spec fn key_chars(k: Seq<char>) -> bool {
    &&& k.len() > 0
    &&& forall|i: int| 0 <= i < k.len() ==> ('a' <= #[trigger] k[i] <= 'z' || k[i] == '_')
}

proof fn lemma_key_part(k: Seq<char>, v: Seq<char>)
    requires
        key_chars(k),
        no_char(v, ';'),
    ensures
        part_ok((k, v)),
{
    lemma_trim_plain(k);
}

proof fn lemma_digits_plain(n: nat)
    ensures
        plain_value(decimal_chars(n)),
        is_digit(decimal_chars(n)[0]),
{
    lemma_decimal_digits(n);
    let d = decimal_chars(n);
    assert(is_digit(d[0]));
    assert(is_digit(d[d.len() - 1]));
    lemma_trim_plain(d);
    assert forall|i: int| 0 <= i < d.len() implies d[i] != ';' by {
        assert(is_digit(d[i]));
    }
}

proof fn lemma_selected_plain(sel: Option<SelectedRun>)
    ensures
        plain_value(selected_run_text(sel)),
{
    match sel {
        None => {
            lemma_trim_plain(seq!['-']);
        },
        Some(run) => {
            let a = decimal_chars(run.col as nat);
            let b = decimal_chars(run.start as nat);
            lemma_decimal_digits(run.col as nat);
            lemma_decimal_digits(run.start as nat);
            let t = a + seq![','] + b;
            assert(is_digit(a[0]) && is_digit(b[b.len() - 1]));
            assert(t[0] == a[0]);
            assert(t.last() == b[b.len() - 1]);
            lemma_trim_plain(t);
            assert forall|i: int| 0 <= i < t.len() implies t[i] != ';' by {
                if i < a.len() {
                    assert(t[i] == a[i] && is_digit(a[i]));
                } else if i > a.len() {
                    assert(t[i] == b[i - a.len() - 1] && is_digit(b[i - a.len() - 1]));
                }
            }
        },
    }
}

proof fn lemma_square_plain(sq: Option<u8>)
    ensures
        plain_value(square_text(sq)),
{
    match sq {
        Some(x) => lemma_digits_plain(x as nat),
        None => lemma_trim_plain(seq!['n', 'a']),
    }
}

proof fn lemma_reveal_keys()
    ensures
        key_chars("mode"@),
        key_chars("draw"@),
        key_chars("selected"@),
        key_chars("waste"@),
        key_chars("moves"@),
        key_chars("elapsed"@),
        key_chars("timer"@),
        key_chars("apm_offset"@),
        key_chars("runtime_hex"@),
        key_chars("apm"@),
        key_chars("fslots"@),
        key_chars("chess_mode"@),
        key_chars("chess_variant"@),
        key_chars("chess_fen"@),
        key_chars("chess_selected"@),
        key_chars("chess_last_from"@),
        key_chars("chess_last_to"@),
        key_chars("chess_history"@),
        key_chars("chess_future"@),
{
    reveal_strlit("mode");
    reveal_strlit("draw");
    reveal_strlit("selected");
    reveal_strlit("waste");
    reveal_strlit("moves");
    reveal_strlit("elapsed");
    reveal_strlit("timer");
    reveal_strlit("apm_offset");
    reveal_strlit("runtime_hex");
    reveal_strlit("apm");
    reveal_strlit("fslots");
    reveal_strlit("chess_mode");
    reveal_strlit("chess_variant");
    reveal_strlit("chess_fen");
    reveal_strlit("chess_selected");
    reveal_strlit("chess_last_from");
    reveal_strlit("chess_last_to");
    reveal_strlit("chess_history");
    reveal_strlit("chess_future");
}

proof fn lemma_snapshot_parts_ok(
    h: SnapshotHeader,
    mode: Seq<char>,
    draw: u8,
    runtime_hex: Seq<char>,
    apm: Seq<char>,
    chess_fen: Seq<char>,
    chess_history: Seq<char>,
    chess_future: Seq<char>,
)
    requires
        no_char(mode, ';'),
        no_char(runtime_hex, ';'),
        no_char(apm, ';'),
        no_char(chess_fen, ';'),
        no_char(chess_history, ';'),
        no_char(chess_future, ';'),
    ensures
        parts_ok(snapshot_parts(h, mode, draw, runtime_hex, apm, chess_fen, chess_history, chess_future)),
{
    broadcast use lemma_parts_ok_push;

    lemma_reveal_keys();
    lemma_digits_plain(draw as nat);
    lemma_digits_plain(h.move_count as nat);
    lemma_digits_plain(h.elapsed_seconds as nat);
    lemma_digits_plain(h.apm_elapsed_offset_seconds as nat);
    lemma_selected_plain(h.selected_run);
    lemma_square_plain(h.chess_selected_square);
    lemma_square_plain(h.chess_last_move_from);
    lemma_square_plain(h.chess_last_move_to);
    reveal_strlit("chess-standard");
    reveal_strlit("chess-960");
    reveal_strlit("chess-atomic");
    lemma_key_part("mode"@, mode);
    lemma_key_part("draw"@, decimal_chars(draw as nat));
    lemma_key_part("selected"@, selected_run_text(h.selected_run));
    lemma_key_part("waste"@, flag_text(h.selected_waste));
    lemma_key_part("moves"@, decimal_chars(h.move_count as nat));
    lemma_key_part("elapsed"@, decimal_chars(h.elapsed_seconds as nat));
    lemma_key_part("timer"@, flag_text(h.timer_started));
    lemma_key_part("apm_offset"@, decimal_chars(h.apm_elapsed_offset_seconds as nat));
    lemma_key_part("runtime_hex"@, runtime_hex);
    lemma_key_part("apm"@, apm);
    lemma_key_part("fslots"@, slots_text(h.foundation_slot_suits));
    lemma_key_part("chess_mode"@, flag_text(h.chess_mode_active));
    lemma_key_part("chess_variant"@, variant_id(h.chess_variant));
    lemma_key_part("chess_fen"@, chess_fen);
    lemma_key_part("chess_selected"@, square_text(h.chess_selected_square));
    lemma_key_part("chess_last_from"@, square_text(h.chess_last_move_from));
    lemma_key_part("chess_last_to"@, square_text(h.chess_last_move_to));
    lemma_key_part("chess_history"@, chess_history);
    lemma_key_part("chess_future"@, chess_future);
    assert(parts_ok(Seq::<(Seq<char>, Seq<char>)>::empty()));
}

proof fn lemma_read_part(ps: Seq<(Seq<char>, Seq<char>)>, key: Seq<char>, v: Seq<char>)
    requires
        ps.len() >= 1,
        parts_ok(ps),
        lookup_parts(ps, key, None) == Some(trim_spec(v)),
        plain_value(v),
    ensures
        field_of(parts_text(ps), key) == Some(v),
{
    lemma_parts_text_reads(ps, key, None);
}

proof fn lemma_distinct_keys()
    ensures
        "waste"@ != "moves"@,
        "waste"@ != "timer"@,
        "moves"@ != "timer"@,
        "apm_offset"@ != "chess_mode"@,
        "chess_variant"@ != "chess_last_to"@,
        "chess_variant"@ != "chess_history"@,
        "chess_last_to"@ != "chess_history"@,
{
    reveal_strlit("waste");
    reveal_strlit("moves");
    reveal_strlit("timer");
    reveal_strlit("apm_offset");
    reveal_strlit("chess_mode");
    reveal_strlit("chess_variant");
    reveal_strlit("chess_last_to");
    reveal_strlit("chess_history");
    assert("waste"@[0] != "moves"@[0]);
    assert("waste"@[0] != "timer"@[0]);
    assert("moves"@[0] != "timer"@[0]);
    assert("apm_offset"@[0] != "chess_mode"@[0]);
    assert("chess_variant"@[6] != "chess_last_to"@[6]);
    assert("chess_variant"@[6] != "chess_history"@[6]);
    assert("chess_last_to"@[6] != "chess_history"@[6]);
}

proof fn lemma_key_lengths()
    ensures
        "mode"@.len() == 4,
        "draw"@.len() == 4,
        "selected"@.len() == 8,
        "waste"@.len() == 5,
        "moves"@.len() == 5,
        "elapsed"@.len() == 7,
        "timer"@.len() == 5,
        "apm_offset"@.len() == 10,
        "runtime_hex"@.len() == 11,
        "apm"@.len() == 3,
        "fslots"@.len() == 6,
        "chess_mode"@.len() == 10,
        "chess_variant"@.len() == 13,
        "chess_fen"@.len() == 9,
        "chess_selected"@.len() == 14,
        "chess_last_from"@.len() == 15,
        "chess_last_to"@.len() == 13,
        "chess_history"@.len() == 13,
        "chess_future"@.len() == 12,
{
    reveal_strlit("mode");
    reveal_strlit("draw");
    reveal_strlit("selected");
    reveal_strlit("waste");
    reveal_strlit("moves");
    reveal_strlit("elapsed");
    reveal_strlit("timer");
    reveal_strlit("apm_offset");
    reveal_strlit("runtime_hex");
    reveal_strlit("apm");
    reveal_strlit("fslots");
    reveal_strlit("chess_mode");
    reveal_strlit("chess_variant");
    reveal_strlit("chess_fen");
    reveal_strlit("chess_selected");
    reveal_strlit("chess_last_from");
    reveal_strlit("chess_last_to");
    reveal_strlit("chess_history");
    reveal_strlit("chess_future");
}

/// What reading each plain field of a written snapshot finds.
proof fn lemma_snapshot_reads(
    h: SnapshotHeader,
    mode: Seq<char>,
    draw: u8,
    runtime_hex: Seq<char>,
    apm: Seq<char>,
    chess_fen: Seq<char>,
    chess_history: Seq<char>,
    chess_future: Seq<char>,
)
    requires
        no_char(mode, ';'),
        no_char(runtime_hex, ';'),
        no_char(apm, ';'),
        no_char(chess_fen, ';'),
        no_char(chess_history, ';'),
        no_char(chess_future, ';'),
    ensures
        ({
            let s = parts_text(snapshot_parts(h, mode, draw, runtime_hex, apm, chess_fen, chess_history, chess_future));
            &&& snapshot_field_spec(s, "selected"@) is Some
            &&& field_of(s, "selected"@) == Some(selected_run_text(h.selected_run))
            &&& field_of(s, "waste"@) == Some(flag_text(h.selected_waste))
            &&& field_of(s, "moves"@) == Some(decimal_chars(h.move_count as nat))
            &&& field_of(s, "elapsed"@) == Some(decimal_chars(h.elapsed_seconds as nat))
            &&& field_of(s, "timer"@) == Some(flag_text(h.timer_started))
            &&& field_of(s, "apm_offset"@) == Some(decimal_chars(h.apm_elapsed_offset_seconds as nat))
            &&& field_of(s, "fslots"@) == Some(slots_text(h.foundation_slot_suits))
            &&& field_of(s, "chess_mode"@) == Some(flag_text(h.chess_mode_active))
            &&& field_of(s, "chess_variant"@) == Some(variant_id(h.chess_variant))
            &&& field_of(s, "chess_selected"@) == Some(square_text(h.chess_selected_square))
            &&& field_of(s, "chess_last_from"@) == Some(square_text(h.chess_last_move_from))
            &&& field_of(s, "chess_last_to"@) == Some(square_text(h.chess_last_move_to))
        }),
{
    broadcast use lemma_lookup_push;

    let ps = snapshot_parts(h, mode, draw, runtime_hex, apm, chess_fen, chess_history, chess_future);
    lemma_snapshot_parts_ok(h, mode, draw, runtime_hex, apm, chess_fen, chess_history, chess_future);
    lemma_key_lengths();
    lemma_distinct_keys();
    lemma_digits_plain(h.move_count as nat);
    lemma_digits_plain(h.elapsed_seconds as nat);
    lemma_digits_plain(h.apm_elapsed_offset_seconds as nat);
    lemma_selected_plain(h.selected_run);
    lemma_square_plain(h.chess_selected_square);
    lemma_square_plain(h.chess_last_move_from);
    lemma_square_plain(h.chess_last_move_to);
    assert(plain_value(flag_text(h.selected_waste))) by {
        lemma_trim_plain(flag_text(h.selected_waste));
    }
    assert(plain_value(flag_text(h.timer_started))) by {
        lemma_trim_plain(flag_text(h.timer_started));
    }
    assert(plain_value(flag_text(h.chess_mode_active))) by {
        lemma_trim_plain(flag_text(h.chess_mode_active));
    }
    assert(plain_value(slots_text(h.foundation_slot_suits))) by {
        lemma_trim_plain(slots_text(h.foundation_slot_suits));
    }
    assert(plain_value(variant_id(h.chess_variant))) by {
        reveal_strlit("chess-standard");
        reveal_strlit("chess-960");
        reveal_strlit("chess-atomic");
        lemma_trim_plain(variant_id(h.chess_variant));
    }
    lemma_read_part(ps, "selected"@, selected_run_text(h.selected_run));
    lemma_parts_text_reads(ps, "selected"@, None);
    lemma_read_part(ps, "waste"@, flag_text(h.selected_waste));
    lemma_read_part(ps, "moves"@, decimal_chars(h.move_count as nat));
    lemma_read_part(ps, "elapsed"@, decimal_chars(h.elapsed_seconds as nat));
    lemma_read_part(ps, "timer"@, flag_text(h.timer_started));
    lemma_read_part(ps, "apm_offset"@, decimal_chars(h.apm_elapsed_offset_seconds as nat));
    lemma_read_part(ps, "fslots"@, slots_text(h.foundation_slot_suits));
    lemma_read_part(ps, "chess_mode"@, flag_text(h.chess_mode_active));
    lemma_read_part(ps, "chess_variant"@, variant_id(h.chess_variant));
    lemma_read_part(ps, "chess_selected"@, square_text(h.chess_selected_square));
    lemma_read_part(ps, "chess_last_from"@, square_text(h.chess_last_move_from));
    lemma_read_part(ps, "chess_last_to"@, square_text(h.chess_last_move_to));
}

proof fn lemma_u32_roundtrip(n: u32)
    ensures
        u32_spec(decimal_chars(n as nat)) == Some(n),
{
    lemma_parse_usize_roundtrip(n as usize);
}

proof fn lemma_square_roundtrip(sq: Option<u8>)
    requires
        sq matches Some(x) ==> x < 64,
    ensures
        opt_square(Some(square_text(sq))) == sq,
{
    match sq {
        Some(x) => {
            lemma_digits_plain(x as nat);
            lemma_parse_usize_roundtrip(x as usize);
            let d = decimal_chars(x as nat);
            assert(d != seq!['n', 'a']) by {
                if d == seq!['n', 'a'] {
                    assert(d[0] == 'n');
                }
            }
            assert(d != seq!['-']) by {
                if d == seq!['-'] {
                    assert(d[0] == '-');
                }
            }
        },
        None => {},
    }
}

proof fn lemma_variant_roundtrip(v: ChessVariant)
    ensures
        stored_variant(variant_id(v)) == Some(v),
{
    reveal_strlit("chess-standard");
    reveal_strlit("chess-960");
    reveal_strlit("chess-atomic");
    assert("chess-standard"@.len() == 14);
    assert("chess-960"@.len() == 9);
    assert("chess-atomic"@.len() == 12);
}

proof fn lemma_slots_roundtrip(ss: SlotSuits)
    ensures
        slots_spec(Some(slots_text(ss))) == ss,
{
    assert(slot_suit(slot_char(ss.0)) == Some(ss.0));
    assert(slot_suit(slot_char(ss.1)) == Some(ss.1));
    assert(slot_suit(slot_char(ss.2)) == Some(ss.2));
    assert(slot_suit(slot_char(ss.3)) == Some(ss.3));
}

proof fn lemma_flag_roundtrip(b: bool)
    ensures
        flag_spec(flag_text(b)) == Some(b),
{
    if !b {
        assert(seq!['0'][0] != seq!['1'][0]);
    }
}

/// Any text whose plain fields read as a storable header's stored values
/// decodes to that header.
proof fn lemma_header_from_fields(s: Seq<char>, h: SnapshotHeader)
    requires
        header_storable(h),
        snapshot_field_spec(s, "selected"@) is Some,
        field_of(s, "selected"@) == Some(selected_run_text(h.selected_run)),
        field_of(s, "waste"@) == Some(flag_text(h.selected_waste)),
        field_of(s, "moves"@) == Some(decimal_chars(h.move_count as nat)),
        field_of(s, "elapsed"@) == Some(decimal_chars(h.elapsed_seconds as nat)),
        field_of(s, "timer"@) == Some(flag_text(h.timer_started)),
        field_of(s, "apm_offset"@) == Some(decimal_chars(h.apm_elapsed_offset_seconds as nat)),
        field_of(s, "fslots"@) == Some(slots_text(h.foundation_slot_suits)),
        field_of(s, "chess_mode"@) == Some(flag_text(h.chess_mode_active)),
        field_of(s, "chess_variant"@) == Some(variant_id(h.chess_variant)),
        field_of(s, "chess_selected"@) == Some(square_text(h.chess_selected_square)),
        field_of(s, "chess_last_from"@) == Some(square_text(h.chess_last_move_from)),
        field_of(s, "chess_last_to"@) == Some(square_text(h.chess_last_move_to)),
    ensures
        header_spec(s) == Some(h),
{
    lemma_selected_run_roundtrip(h.selected_run);
    lemma_u32_roundtrip(h.move_count);
    lemma_u32_roundtrip(h.elapsed_seconds);
    lemma_u32_roundtrip(h.apm_elapsed_offset_seconds);
    lemma_slots_roundtrip(h.foundation_slot_suits);
    lemma_variant_roundtrip(h.chess_variant);
    lemma_square_roundtrip(h.chess_selected_square);
    lemma_square_roundtrip(h.chess_last_move_from);
    lemma_square_roundtrip(h.chess_last_move_to);
    reveal_strlit("1");
    assert("1"@ =~= seq!['1']);
    assert(flag_text(h.chess_mode_active) == "1"@ <==> h.chess_mode_active) by {
        if !h.chess_mode_active {
            assert(flag_text(false)[0] != seq!['1'][0]);
        }
    }
    lemma_flag_roundtrip(h.selected_waste);
    lemma_flag_roundtrip(h.timer_started);
}

/// Law: the plain fields of a written snapshot read back as they were,
/// whatever its mode, draw count and stored texts, as long as those texts
/// hold no `;` and the header keeps its squares on the board and, outside
/// chess mode, holds no chess squares.
pub proof fn lemma_snapshot_header_roundtrip(
    h: SnapshotHeader,
    mode: Seq<char>,
    draw: u8,
    runtime_hex: Seq<char>,
    apm: Seq<char>,
    chess_fen: Seq<char>,
    chess_history: Seq<char>,
    chess_future: Seq<char>,
)
    requires
        header_storable(h),
        no_char(mode, ';'),
        no_char(runtime_hex, ';'),
        no_char(apm, ';'),
        no_char(chess_fen, ';'),
        no_char(chess_history, ';'),
        no_char(chess_future, ';'),
    ensures
        header_spec(parts_text(snapshot_parts(h, mode, draw, runtime_hex, apm, chess_fen, chess_history, chess_future)))
            == Some(h),
{
    lemma_snapshot_reads(h, mode, draw, runtime_hex, apm, chess_fen, chess_history, chess_future);
    lemma_header_from_fields(
        parts_text(snapshot_parts(h, mode, draw, runtime_hex, apm, chess_fen, chess_history, chess_future)),
        h,
    );
}

} // verus!
