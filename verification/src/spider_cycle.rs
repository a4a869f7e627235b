//! Move signatures and detection of a playthrough stuck repeating the same
//! few moves.

use vstd::prelude::*;
use crate::moves::HintMove;
use crate::session_codec::{all_digits, digits_value, is_digit, lemma_decimal_digits};
use crate::text::{decimal_chars, decimal_text, push_text};

verus! {

/// Shortest repeating move block the detector looks for.
pub const SPIDER_SOLVER_REPEAT_SEQUENCE_MIN: usize = 3;

/// Longest repeating move block the detector looks for.
pub const SPIDER_SOLVER_REPEAT_SEQUENCE_MAX: usize = 5;

/// More repeats than this count as a cycle.
pub const SPIDER_SOLVER_REPEAT_SEQUENCE_LIMIT: usize = 3;

/// The compact text of a move: `wf`, `t3f`, `w4`, `t2:5>7` or `d`.
pub open spec fn signature_spec(hm: HintMove) -> Seq<char> {
    match hm {
        HintMove::WasteToFoundation => seq!['w', 'f'],
        HintMove::TableauTopToFoundation { src } => seq!['t'] + decimal_chars(src as nat) + seq!['f'],
        HintMove::WasteToTableau { dst } => seq!['w'] + decimal_chars(dst as nat),
        HintMove::TableauRunToTableau { src, start, dst } => seq!['t'] + decimal_chars(src as nat) + seq![':']
            + decimal_chars(start as nat) + seq!['>'] + decimal_chars(dst as nat),
        HintMove::Draw => seq!['d'],
    }
}

/// Decimal text followed by text that does not start with a digit splits
/// back into the same number and the same rest.
proof fn lemma_decimal_prefix(x: nat, ra: Seq<char>, y: nat, rb: Seq<char>)
    requires
        decimal_chars(x) + ra == decimal_chars(y) + rb,
        ra.len() > 0 ==> !is_digit(ra[0]),
        rb.len() > 0 ==> !is_digit(rb[0]),
    ensures
        x == y,
        ra == rb,
{
    lemma_decimal_digits(x);
    lemma_decimal_digits(y);
    let dx = decimal_chars(x);
    let dy = decimal_chars(y);
    let s = dx + ra;
    if dx.len() < dy.len() {
        assert(s[dx.len() as int] == dy[dx.len() as int]);
        assert(is_digit(dy[dx.len() as int]));
        if ra.len() > 0 {
            assert(s[dx.len() as int] == ra[0]);
        }
        assert(false);
    }
    if dy.len() < dx.len() {
        assert(s[dy.len() as int] == dx[dy.len() as int]);
        assert(is_digit(dx[dy.len() as int]));
        if rb.len() > 0 {
            assert((dy + rb)[dy.len() as int] == rb[0]);
        }
        assert(false);
    }
    assert(dx =~= s.take(dx.len() as int));
    assert(dy =~= (dy + rb).take(dy.len() as int));
    assert(ra =~= s.skip(dx.len() as int));
    assert(rb =~= (dy + rb).skip(dy.len() as int));
}

spec fn sig_head(h: HintMove) -> char {
    match h {
        HintMove::WasteToFoundation => 'w',
        HintMove::WasteToTableau { .. } => 'w',
        HintMove::Draw => 'd',
        _ => 't',
    }
}

proof fn lemma_sig_head(h: HintMove)
    ensures
        signature_spec(h).len() > 1 || h == HintMove::Draw,
        signature_spec(h)[0] == sig_head(h),
{
    match h {
        HintMove::TableauTopToFoundation { src } => lemma_decimal_digits(src as nat),
        HintMove::WasteToTableau { dst } => lemma_decimal_digits(dst as nat),
        HintMove::TableauRunToTableau { src, .. } => lemma_decimal_digits(src as nat),
        _ => {},
    }
}

proof fn lemma_sig_top_top(x: usize, y: usize)
    requires
        signature_spec(HintMove::TableauTopToFoundation { src: x }) == signature_spec(
            HintMove::TableauTopToFoundation { src: y },
        ),
    ensures
        x == y,
{
    let a = signature_spec(HintMove::TableauTopToFoundation { src: x });
    let b = signature_spec(HintMove::TableauTopToFoundation { src: y });
    assert(a.skip(1) =~= decimal_chars(x as nat) + seq!['f']);
    assert(b.skip(1) =~= decimal_chars(y as nat) + seq!['f']);
    lemma_decimal_prefix(x as nat, seq!['f'], y as nat, seq!['f']);
}

proof fn lemma_sig_top_run(x: usize, y: usize, start: usize, dst: usize)
    ensures
        signature_spec(HintMove::TableauTopToFoundation { src: x }) != signature_spec(
            HintMove::TableauRunToTableau { src: y, start, dst },
        ),
{
    let a = signature_spec(HintMove::TableauTopToFoundation { src: x });
    let b = signature_spec(HintMove::TableauRunToTableau { src: y, start, dst });
    if a == b {
        let rb = seq![':'] + decimal_chars(start as nat) + seq!['>'] + decimal_chars(dst as nat);
        assert(a.skip(1) =~= decimal_chars(x as nat) + seq!['f']);
        assert(b.skip(1) =~= decimal_chars(y as nat) + rb);
        lemma_decimal_prefix(x as nat, seq!['f'], y as nat, rb);
        assert(seq!['f'][0] != rb[0]);
    }
}

proof fn lemma_sig_run_run(x1: usize, x2: usize, x3: usize, y1: usize, y2: usize, y3: usize)
    requires
        signature_spec(HintMove::TableauRunToTableau { src: x1, start: x2, dst: x3 }) == signature_spec(
            HintMove::TableauRunToTableau { src: y1, start: y2, dst: y3 },
        ),
    ensures
        x1 == y1 && x2 == y2 && x3 == y3,
{
    let a = signature_spec(HintMove::TableauRunToTableau { src: x1, start: x2, dst: x3 });
    let b = signature_spec(HintMove::TableauRunToTableau { src: y1, start: y2, dst: y3 });
    let ra2 = seq!['>'] + decimal_chars(x3 as nat);
    let rb2 = seq!['>'] + decimal_chars(y3 as nat);
    let ra = seq![':'] + decimal_chars(x2 as nat) + ra2;
    let rb = seq![':'] + decimal_chars(y2 as nat) + rb2;
    assert(a.skip(1) =~= decimal_chars(x1 as nat) + ra);
    assert(b.skip(1) =~= decimal_chars(y1 as nat) + rb);
    lemma_decimal_prefix(x1 as nat, ra, y1 as nat, rb);
    assert(ra.skip(1) =~= decimal_chars(x2 as nat) + ra2);
    assert(rb.skip(1) =~= decimal_chars(y2 as nat) + rb2);
    lemma_decimal_prefix(x2 as nat, ra2, y2 as nat, rb2);
    assert(ra2.skip(1) =~= decimal_chars(x3 as nat) + Seq::<char>::empty());
    assert(rb2.skip(1) =~= decimal_chars(y3 as nat) + Seq::<char>::empty());
    lemma_decimal_prefix(x3 as nat, Seq::<char>::empty(), y3 as nat, Seq::<char>::empty());
}

proof fn lemma_sig_waste(x: usize, y: usize)
    ensures
        signature_spec(HintMove::WasteToTableau { dst: x }) == signature_spec(HintMove::WasteToTableau { dst: y })
            ==> x == y,
        signature_spec(HintMove::WasteToTableau { dst: x }) != signature_spec(HintMove::WasteToFoundation),
{
    let a = signature_spec(HintMove::WasteToTableau { dst: x });
    let b = signature_spec(HintMove::WasteToTableau { dst: y });
    if a == b {
        assert(a.skip(1) =~= decimal_chars(x as nat) + Seq::<char>::empty());
        assert(b.skip(1) =~= decimal_chars(y as nat) + Seq::<char>::empty());
        lemma_decimal_prefix(x as nat, Seq::<char>::empty(), y as nat, Seq::<char>::empty());
    }
    lemma_decimal_digits(x as nat);
    assert(a[1] == decimal_chars(x as nat)[0]);
    assert(is_digit(decimal_chars(x as nat)[0]));
    assert(signature_spec(HintMove::WasteToFoundation)[1] == 'f');
}

/// Law: two moves have the same signature exactly when they are the same
/// move, so repeated signature blocks are repeated moves.
pub proof fn lemma_signature_injective(a: HintMove, b: HintMove)
    ensures
        signature_spec(a) == signature_spec(b) <==> a == b,
{
    if signature_spec(a) == signature_spec(b) {
        lemma_sig_head(a);
        lemma_sig_head(b);
        match (a, b) {
            (HintMove::TableauTopToFoundation { src: x }, HintMove::TableauTopToFoundation { src: y }) => {
                lemma_sig_top_top(x, y);
            },
            (HintMove::TableauTopToFoundation { src: x }, HintMove::TableauRunToTableau { src: y, start, dst }) => {
                lemma_sig_top_run(x, y, start, dst);
            },
            (HintMove::TableauRunToTableau { src: y, start, dst }, HintMove::TableauTopToFoundation { src: x }) => {
                lemma_sig_top_run(x, y, start, dst);
            },
            (
                HintMove::TableauRunToTableau { src: x1, start: x2, dst: x3 },
                HintMove::TableauRunToTableau { src: y1, start: y2, dst: y3 },
            ) => {
                lemma_sig_run_run(x1, x2, x3, y1, y2, y3);
            },
            (HintMove::WasteToTableau { dst: x }, HintMove::WasteToTableau { dst: y }) => {
                lemma_sig_waste(x, y);
            },
            (HintMove::WasteToTableau { dst: x }, HintMove::WasteToFoundation) => {
                lemma_sig_waste(x, x);
            },
            (HintMove::WasteToFoundation, HintMove::WasteToTableau { dst: x }) => {
                lemma_sig_waste(x, x);
            },
            (HintMove::Draw, HintMove::Draw) => {},
            (HintMove::WasteToFoundation, HintMove::WasteToFoundation) => {},
            (HintMove::Draw, _) => {
                assert(signature_spec(a).len() == 1);
            },
            (_, HintMove::Draw) => {
                assert(signature_spec(b).len() == 1);
            },
            _ => {},
        }
    }
}

fn push_number(out: &mut String, n: usize)
    ensures
        final(out)@ == old(out)@ + decimal_chars(n as nat),
{
    let d = decimal_text(n as u64);
    push_text(out, d.as_str());
}

pub fn spider_solver_move_signature(hint_move: HintMove) -> (r: String)
    ensures
        r@ == signature_spec(hint_move),
{
    proof {
        reveal_strlit("w");
        reveal_strlit("f");
        reveal_strlit("t");
        reveal_strlit(":");
        reveal_strlit(">");
        reveal_strlit("d");
        reveal_strlit("wf");
    }
    let mut out = String::new();
    match hint_move {
        HintMove::WasteToFoundation => {
            push_text(&mut out, "wf");
        },
        HintMove::TableauTopToFoundation { src } => {
            push_text(&mut out, "t");
            push_number(&mut out, src);
            push_text(&mut out, "f");
        },
        HintMove::WasteToTableau { dst } => {
            push_text(&mut out, "w");
            push_number(&mut out, dst);
        },
        HintMove::TableauRunToTableau { src, start, dst } => {
            push_text(&mut out, "t");
            push_number(&mut out, src);
            push_text(&mut out, ":");
            push_number(&mut out, start);
            push_text(&mut out, ">");
            push_number(&mut out, dst);
        },
        HintMove::Draw => {
            push_text(&mut out, "d");
        },
    }
    assert(out@ =~= signature_spec(hint_move));
    out
}

/// The texts of a list of signatures.
pub open spec fn texts(s: Seq<String>) -> Seq<Seq<char>> {
    s.map_values(|x: String| x@)
}

/// How many more times the block of `p` signatures ending at `cursor`
/// repeats immediately before itself.
pub open spec fn tail_repeats(s: Seq<Seq<char>>, p: nat, cursor: nat) -> nat
    decreases cursor,
{
    if p > 0 && cursor >= 2 * p && cursor <= s.len() && s.subrange(cursor - p, cursor as int) == s.subrange(
        cursor - 2 * p,
        cursor - p,
    ) {
        1 + tail_repeats(s, p, (cursor - p) as nat)
    } else {
        0
    }
}

/// Consecutive copies of the last block of `p` signatures at the end of `s`.
pub open spec fn tail_block_count(s: Seq<Seq<char>>, p: nat) -> nat {
    if p == 0 || s.len() < p {
        0
    } else {
        1 + tail_repeats(s, p, s.len())
    }
}

fn blocks_equal(signatures: &[String], a: usize, b: usize, p: usize) -> (r: bool)
    requires
        a + p <= signatures@.len(),
        b + p <= signatures@.len(),
    ensures
        r == (texts(signatures@).subrange(a as int, a + p) == texts(signatures@).subrange(b as int, b + p)),
{
    let ghost t = texts(signatures@);
    let n = signatures.len();
    let mut i: usize = 0;
    while i < p
        invariant
            n == signatures@.len(),
            a + p <= signatures@.len(),
            b + p <= signatures@.len(),
            t == texts(signatures@),
            i <= p,
            forall|j: int| 0 <= j < i ==> #[trigger] t[a + j] == t[b + j],
        decreases p - i,
    {
        if signatures[a + i] != signatures[b + i] {
            assert(t.subrange(a as int, a + p)[i as int] != t.subrange(b as int, b + p)[i as int]);
            return false;
        }
        i += 1;
    }
    assert(t.subrange(a as int, a + p) =~= t.subrange(b as int, b + p)) by {
        assert forall|j: int| 0 <= j < p implies #[trigger] t.subrange(a as int, a + p)[j] == t.subrange(b as int, b + p)[j] by {
            assert(t[a + j] == t[b + j]);
        }
    }
    true
}

pub fn repeated_tail_block_count(signatures: &[String], period: usize) -> (r: usize)
    ensures
        r == tail_block_count(texts(signatures@), period as nat),
{
    let ghost t = texts(signatures@);
    let len = signatures.len();
    if period == 0 || len < period {
        return 0;
    }
    let mut blocks: usize = 1;
    let mut cursor = len;
    while cursor - period >= period && blocks_equal(signatures, cursor - period, cursor - period - period, period)
        invariant
            len == signatures@.len(),
            t == texts(signatures@),
            0 < period <= len,
            period <= cursor <= len,
            1 <= blocks <= len - cursor + 1,
            blocks + tail_repeats(t, period as nat, cursor as nat) == 1 + tail_repeats(t, period as nat, len as nat),
        decreases cursor,
    {
        blocks = blocks + 1;
        cursor -= period;
    }
    blocks
}

/// Keeps the best repeating block seen so far: a block that repeats more than
/// `limit` times replaces the current best only when it repeats more often.
pub open spec fn better_cycle(best: Option<(usize, usize)>, period: usize, blocks: nat, limit: nat) -> Option<(usize, usize)> {
    if blocks > limit {
        match best {
            None => Some((period, blocks as usize)),
            Some(b) => if blocks > b.1 { Some((period, blocks as usize)) } else { best },
        }
    } else {
        best
    }
}

/// The repeating tail block of three to five moves that repeats most often,
/// if one repeats more than `limit` times; ties go to the shorter block.
pub open spec fn detect_cycle_spec(s: Seq<Seq<char>>, limit: nat) -> Option<(usize, usize)> {
    better_cycle(
        better_cycle(better_cycle(None, 3, tail_block_count(s, 3), limit), 4, tail_block_count(s, 4), limit),
        5,
        tail_block_count(s, 5),
        limit,
    )
}

pub fn spider_solver_detect_repeating_tail_cycle_with_limit(
    signatures: &[String],
    repeat_limit: usize,
) -> (r: Option<(usize, usize)>)
    ensures
        r == detect_cycle_spec(texts(signatures@), repeat_limit as nat),
        r matches Some(c) ==> c.1 > repeat_limit,
{
    let mut best: Option<(usize, usize)> = None;
    let mut period: usize = SPIDER_SOLVER_REPEAT_SEQUENCE_MIN;
    let ghost t = texts(signatures@);
    while period <= SPIDER_SOLVER_REPEAT_SEQUENCE_MAX
        invariant
            t == texts(signatures@),
            3 <= period <= 6,
            period == 4 ==> best == better_cycle(None, 3, tail_block_count(t, 3), repeat_limit as nat),
            period == 5 ==> best == better_cycle(
                better_cycle(None, 3, tail_block_count(t, 3), repeat_limit as nat),
                4,
                tail_block_count(t, 4),
                repeat_limit as nat,
            ),
            period == 6 ==> best == detect_cycle_spec(t, repeat_limit as nat),
            period == 3 ==> best is None,
            best matches Some(c) ==> c.1 > repeat_limit,
        decreases 6 - period,
    {
        let blocks = repeated_tail_block_count(signatures, period);
        if blocks > repeat_limit {
            match best {
                None => best = Some((period, blocks)),
                Some((_best_period, best_blocks)) => {
                    if blocks > best_blocks {
                        best = Some((period, blocks));
                    }
                },
            }
        }
        period += 1;
    }
    best
}

/// A cycle per [`spider_solver_detect_repeating_tail_cycle_with_limit`] with
/// the standard repeat limit.
pub fn spider_solver_detect_repeating_tail_cycle(signatures: &[String]) -> (r: Option<(usize, usize)>)
    ensures
        r == detect_cycle_spec(texts(signatures@), SPIDER_SOLVER_REPEAT_SEQUENCE_LIMIT as nat),
{
    spider_solver_detect_repeating_tail_cycle_with_limit(signatures, SPIDER_SOLVER_REPEAT_SEQUENCE_LIMIT)
}

} // verus!
