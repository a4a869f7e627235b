//! Structural measures of a Spider position that guide the solver.

use vstd::prelude::*;
use crate::cards::Card;
use crate::spider::{board_ok, lemma_pile_card_sum_ge, linked, pile_card_sum, SpiderBoard, SpiderGame};

verus! {

// ---------------------------------------------------------------------------
// Specification
// ---------------------------------------------------------------------------

pub open spec fn face_up_in(p: Seq<Card>) -> nat
    decreases p.len(),
{
    if p.len() == 0 {
        0
    } else {
        face_up_in(p.drop_last()) + (if p.last().face_up { 1nat } else { 0nat })
    }
}

pub open spec fn hidden_in(p: Seq<Card>) -> nat
    decreases p.len(),
{
    if p.len() == 0 {
        0
    } else {
        hidden_in(p.drop_last()) + (if p.last().face_up { 0nat } else { 1nat })
    }
}

/// Number of positions `k` where card `k` sits on card `k + 1` in suit, face up, one rank lower.
pub open spec fn edges_in(p: Seq<Card>) -> nat
    decreases p.len(),
{
    if p.len() < 2 {
        0
    } else {
        edges_in(p.drop_last()) + (if linked(p, p.len() - 2) { 1nat } else { 0nat })
    }
}

/// Length of the face-up stretch at the top of a column.
pub open spec fn face_up_tail(p: Seq<Card>) -> nat
    decreases p.len(),
{
    if p.len() == 0 {
        0
    } else if p.last().face_up {
        face_up_tail(p.drop_last()) + 1
    } else {
        0
    }
}

pub open spec fn face_up_total(piles: Seq<Seq<Card>>) -> nat
    decreases piles.len(),
{
    if piles.len() == 0 {
        0
    } else {
        face_up_total(piles.drop_last()) + face_up_in(piles.last())
    }
}

pub open spec fn hidden_total(piles: Seq<Seq<Card>>) -> nat
    decreases piles.len(),
{
    if piles.len() == 0 {
        0
    } else {
        hidden_total(piles.drop_last()) + hidden_in(piles.last())
    }
}

pub open spec fn edges_total(piles: Seq<Seq<Card>>) -> nat
    decreases piles.len(),
{
    if piles.len() == 0 {
        0
    } else {
        edges_total(piles.drop_last()) + edges_in(piles.last())
    }
}

pub open spec fn empty_total(piles: Seq<Seq<Card>>) -> nat
    decreases piles.len(),
{
    if piles.len() == 0 {
        0
    } else {
        empty_total(piles.drop_last()) + (if piles.last().len() == 0 { 1nat } else { 0nat })
    }
}

pub open spec fn max_tail(piles: Seq<Seq<Card>>) -> nat
    decreases piles.len(),
{
    if piles.len() == 0 {
        0
    } else {
        let rest = max_tail(piles.drop_last());
        let here = face_up_tail(piles.last());
        if here > rest { here } else { rest }
    }
}

// ---------------------------------------------------------------------------
// Bounds
// ---------------------------------------------------------------------------

pub proof fn lemma_pile_counts_bounded(p: Seq<Card>)
    ensures
        face_up_in(p) + hidden_in(p) == p.len(),
        edges_in(p) <= p.len(),
        face_up_tail(p) <= p.len(),
    decreases p.len(),
{
    if p.len() > 0 {
        lemma_pile_counts_bounded(p.drop_last());
    }
}

pub proof fn lemma_totals_bounded(piles: Seq<Seq<Card>>)
    ensures
        face_up_total(piles) + hidden_total(piles) == pile_card_sum(piles),
        edges_total(piles) <= pile_card_sum(piles),
        max_tail(piles) <= pile_card_sum(piles),
        empty_total(piles) <= piles.len(),
    decreases piles.len(),
{
    if piles.len() > 0 {
        lemma_totals_bounded(piles.drop_last());
        lemma_pile_counts_bounded(piles.last());
    }
}

pub proof fn lemma_prefix_sum_bounded(piles: Seq<Seq<Card>>, i: int)
    requires
        0 <= i <= piles.len(),
    ensures
        pile_card_sum(piles.take(i)) <= pile_card_sum(piles),
    decreases piles.len(),
{
    if i < piles.len() {
        lemma_prefix_sum_bounded(piles.drop_last(), i);
        assert(piles.drop_last().take(i) =~= piles.take(i));
    } else {
        assert(piles.take(i) =~= piles);
    }
}

/// The columns of a sound board hold at most 104 cards.
pub proof fn lemma_board_columns_bounded(b: SpiderBoard)
    requires
        board_ok(b),
    ensures
        pile_card_sum(b.piles) <= 104,
        forall|i: int| 0 <= i <= b.piles.len() ==> #[trigger] pile_card_sum(b.piles.take(i)) <= 104,
        forall|i: int| 0 <= i < b.piles.len() ==> (#[trigger] b.piles[i]).len() <= 104,
{
    assert forall|i: int| 0 <= i <= b.piles.len() implies #[trigger] pile_card_sum(b.piles.take(i)) <= 104 by {
        lemma_prefix_sum_bounded(b.piles, i);
    }
    assert forall|i: int| 0 <= i < b.piles.len() implies (#[trigger] b.piles[i]).len() <= 104 by {
        lemma_pile_card_sum_ge(b.piles, i);
    }
}

// ---------------------------------------------------------------------------
// Executable measures
// ---------------------------------------------------------------------------

pub(crate) fn pile_face_up(p: &Vec<Card>) -> (r: usize)
    requires
        p@.len() <= 104,
    ensures
        r == face_up_in(p@),
{
    let mut n: usize = 0;
    let mut k: usize = 0;
    while k < p.len()
        invariant
            p@.len() <= 104,
            k <= p@.len(),
            n == face_up_in(p@.take(k as int)),
            n <= k,
        decreases p@.len() - k,
    {
        assert(p@.take(k + 1).drop_last() =~= p@.take(k as int));
        if p[k].face_up {
            n += 1;
        }
        k += 1;
    }
    assert(p@.take(p@.len() as int) =~= p@);
    n
}

pub(crate) fn pile_hidden(p: &Vec<Card>) -> (r: usize)
    requires
        p@.len() <= 104,
    ensures
        r == hidden_in(p@),
{
    let mut n: usize = 0;
    let mut k: usize = 0;
    while k < p.len()
        invariant
            p@.len() <= 104,
            k <= p@.len(),
            n == hidden_in(p@.take(k as int)),
            n <= k,
        decreases p@.len() - k,
    {
        assert(p@.take(k + 1).drop_last() =~= p@.take(k as int));
        if !p[k].face_up {
            n += 1;
        }
        k += 1;
    }
    assert(p@.take(p@.len() as int) =~= p@);
    n
}

fn pile_edges(p: &Vec<Card>) -> (r: usize)
    requires
        p@.len() <= 104,
    ensures
        r == edges_in(p@),
{
    let len = p.len();
    if len < 2 {
        return 0;
    }
    let mut n: usize = 0;
    let mut k: usize = 2;
    while k <= len
        invariant
            len == p@.len(),
            len <= 104,
            2 <= k <= len + 1,
            n == edges_in(p@.take(k - 1)),
            n <= k,
        decreases len + 1 - k,
    {
        let ghost t = p@.take(k as int);
        assert(t.drop_last() =~= p@.take(k - 1));
        let a = p[k - 2];
        let b = p[k - 1];
        if a.face_up && b.face_up && a.suit == b.suit && (b.rank as u16) + 1 == a.rank as u16 {
            assert(linked(t, k - 2));
            n += 1;
        } else {
            assert(!linked(t, k - 2));
        }
        k += 1;
    }
    assert(p@.take(len as int) =~= p@);
    n
}

fn pile_face_up_tail(p: &Vec<Card>) -> (r: usize)
    ensures
        r == face_up_tail(p@),
        r <= p@.len(),
{
    let mut k = p.len();
    assert(p@.take(k as int) =~= p@);
    while k > 0 && p[k - 1].face_up
        invariant
            k <= p@.len(),
            face_up_tail(p@) == face_up_tail(p@.take(k as int)) + (p@.len() - k),
        decreases k,
    {
        assert(p@.take(k as int).drop_last() =~= p@.take(k - 1));
        k -= 1;
    }
    if k > 0 {
        assert(!p@.take(k as int).last().face_up);
    }
    p.len() - k
}

/// Face-up cards across the columns.
pub fn spider_face_up_count(game: &SpiderGame) -> (r: usize)
    requires
        board_ok(game@),
    ensures
        r == face_up_total(game@.piles),
{
    proof {
        lemma_board_columns_bounded(game@);
    }
    let t = game.tableau();
    let mut n: usize = 0;
    let mut i: usize = 0;
    while i < t.len()
        invariant
            board_ok(game@),
            t@.len() == game@.piles.len(),
            forall|j: int| 0 <= j < t@.len() ==> (#[trigger] t@[j])@ == game@.piles[j],
            forall|j: int| 0 <= j <= game@.piles.len() ==> #[trigger] pile_card_sum(game@.piles.take(j)) <= 104,
            forall|j: int| 0 <= j < game@.piles.len() ==> (#[trigger] game@.piles[j]).len() <= 104,
            i <= t@.len(),
            n == face_up_total(game@.piles.take(i as int)),
        decreases t@.len() - i,
    {
        assert(game@.piles.take(i + 1).drop_last() =~= game@.piles.take(i as int));
        proof {
            lemma_totals_bounded(game@.piles.take(i + 1));
        }
        n = n + pile_face_up(&t[i]);
        i += 1;
    }
    assert(game@.piles.take(t@.len() as int) =~= game@.piles);
    n
}

/// Face-down cards across the columns.
pub fn spider_hidden_count(game: &SpiderGame) -> (r: usize)
    requires
        board_ok(game@),
    ensures
        r == hidden_total(game@.piles),
{
    proof {
        lemma_board_columns_bounded(game@);
    }
    let t = game.tableau();
    let mut n: usize = 0;
    let mut i: usize = 0;
    while i < t.len()
        invariant
            board_ok(game@),
            t@.len() == game@.piles.len(),
            forall|j: int| 0 <= j < t@.len() ==> (#[trigger] t@[j])@ == game@.piles[j],
            forall|j: int| 0 <= j <= game@.piles.len() ==> #[trigger] pile_card_sum(game@.piles.take(j)) <= 104,
            forall|j: int| 0 <= j < game@.piles.len() ==> (#[trigger] game@.piles[j]).len() <= 104,
            i <= t@.len(),
            n == hidden_total(game@.piles.take(i as int)),
        decreases t@.len() - i,
    {
        assert(game@.piles.take(i + 1).drop_last() =~= game@.piles.take(i as int));
        proof {
            lemma_totals_bounded(game@.piles.take(i + 1));
        }
        n = n + pile_hidden(&t[i]);
        i += 1;
    }
    assert(game@.piles.take(t@.len() as int) =~= game@.piles);
    n
}

/// Adjacent face-up pairs of one suit in descending order across the columns.
pub fn spider_suited_desc_edges(game: &SpiderGame) -> (r: usize)
    requires
        board_ok(game@),
    ensures
        r == edges_total(game@.piles),
{
    proof {
        lemma_board_columns_bounded(game@);
    }
    let t = game.tableau();
    let mut n: usize = 0;
    let mut i: usize = 0;
    while i < t.len()
        invariant
            board_ok(game@),
            t@.len() == game@.piles.len(),
            forall|j: int| 0 <= j < t@.len() ==> (#[trigger] t@[j])@ == game@.piles[j],
            forall|j: int| 0 <= j <= game@.piles.len() ==> #[trigger] pile_card_sum(game@.piles.take(j)) <= 104,
            forall|j: int| 0 <= j < game@.piles.len() ==> (#[trigger] game@.piles[j]).len() <= 104,
            i <= t@.len(),
            n == edges_total(game@.piles.take(i as int)),
        decreases t@.len() - i,
    {
        assert(game@.piles.take(i + 1).drop_last() =~= game@.piles.take(i as int));
        proof {
            lemma_totals_bounded(game@.piles.take(i + 1));
        }
        n = n + pile_edges(&t[i]);
        i += 1;
    }
    assert(game@.piles.take(t@.len() as int) =~= game@.piles);
    n
}

/// Empty columns.
pub fn spider_empty_col_count(game: &SpiderGame) -> (r: usize)
    ensures
        r == empty_total(game@.piles),
{
    let t = game.tableau();
    let mut n: usize = 0;
    let mut i: usize = 0;
    while i < t.len()
        invariant
            t@.len() == game@.piles.len(),
            forall|j: int| 0 <= j < t@.len() ==> (#[trigger] t@[j])@ == game@.piles[j],
            i <= t@.len(),
            n == empty_total(game@.piles.take(i as int)),
            n <= i,
        decreases t@.len() - i,
    {
        assert(game@.piles.take(i + 1).drop_last() =~= game@.piles.take(i as int));
        if t[i].len() == 0 {
            n += 1;
        }
        i += 1;
    }
    assert(game@.piles.take(t@.len() as int) =~= game@.piles);
    n
}

/// The longest face-up stretch on top of any column.
pub fn spider_max_face_up_run_len(game: &SpiderGame) -> (r: usize)
    ensures
        r == max_tail(game@.piles),
{
    let t = game.tableau();
    let mut best: usize = 0;
    let mut i: usize = 0;
    while i < t.len()
        invariant
            t@.len() == game@.piles.len(),
            forall|j: int| 0 <= j < t@.len() ==> (#[trigger] t@[j])@ == game@.piles[j],
            i <= t@.len(),
            best == max_tail(game@.piles.take(i as int)),
        decreases t@.len() - i,
    {
        assert(game@.piles.take(i + 1).drop_last() =~= game@.piles.take(i as int));
        let here = pile_face_up_tail(&t[i]);
        if here > best {
            best = here;
        }
        i += 1;
    }
    assert(game@.piles.take(t@.len() as int) =~= game@.piles);
    best
}

/// Every card of `cards` lies face up on the next one, one rank lower (any suit).
pub open spec fn descending_face_up(cards: Seq<Card>) -> bool {
    forall|k: int|
        0 <= k < cards.len() - 1 ==> {
            &&& (#[trigger] cards[k]).face_up
            &&& cards[k + 1].face_up
            &&& cards[k].rank == cards[k + 1].rank + 1
        }
}

pub fn is_descending_face_up_run(cards: &[Card]) -> (r: bool)
    ensures
        r == descending_face_up(cards@),
{
    let len = cards.len();
    let mut k: usize = 0;
    while k + 1 < len
        invariant
            len == cards@.len(),
            k <= len,
            len > 0 ==> k < len,
            forall|j: int|
                0 <= j < k ==> {
                    &&& (#[trigger] cards@[j]).face_up
                    &&& cards@[j + 1].face_up
                    &&& cards@[j].rank == cards@[j + 1].rank + 1
                },
        decreases len - k,
    {
        let a = cards[k];
        let b = cards[k + 1];
        if !(a.face_up && b.face_up && (b.rank as u16) + 1 == a.rank as u16) {
            return false;
        }
        k += 1;
    }
    true
}

} // verus!
