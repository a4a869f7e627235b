//! The Spider board: ten tableau columns, a face-down stock dealt ten cards at
//! a time, and completed king-to-ace runs that leave the table.

use vstd::prelude::*;
use crate::cards::{Card, Suit};

verus! {



/// How many suits a Spider deal uses.
#[derive(Debug, Clone, Copy, PartialEq, Eq, Hash, Structural)]
pub enum SpiderSuitMode {
    One,
    Two,
    Three,
    Four,
}

pub open spec fn suit_count_spec(mode: SpiderSuitMode) -> u8 {
    match mode {
        SpiderSuitMode::One => 1,
        SpiderSuitMode::Two => 2,
        SpiderSuitMode::Three => 3,
        SpiderSuitMode::Four => 4,
    }
}

impl SpiderSuitMode {
    pub fn suit_count(self) -> (r: u8)
        ensures
            r == suit_count_spec(self),
    {
        match self {
            SpiderSuitMode::One => 1,
            SpiderSuitMode::Two => 2,
            SpiderSuitMode::Three => 3,
            SpiderSuitMode::Four => 4,
        }
    }
}

/// Number of tableau columns.
pub const SPIDER_COLUMNS: usize = 10;

/// Number of cards in the two decks a Spider deal uses.
pub const SPIDER_DECK_SIZE: usize = 104;

/// The mathematical content of a Spider game.
pub ghost struct SpiderBoard {
    pub suit_mode: SpiderSuitMode,
    /// Stock cards; the last one is dealt first.
    pub stock: Seq<Card>,
    /// Tableau columns; the last card of a column is its top.
    pub piles: Seq<Seq<Card>>,
    pub completed_runs: nat,
}

/// A Spider game in play.
#[derive(Debug)]
pub struct SpiderGame {
    suit_mode: SpiderSuitMode,
    stock: Vec<Card>,
    tableau: Vec<Vec<Card>>,
    completed_runs: usize,
}

impl View for SpiderGame {
    type V = SpiderBoard;

    closed spec fn view(&self) -> SpiderBoard {
        SpiderBoard {
            suit_mode: self.suit_mode,
            stock: self.stock@,
            piles: self.tableau@.map_values(|p: Vec<Card>| p@),
            completed_runs: self.completed_runs as nat,
        }
    }
}

// ---------------------------------------------------------------------------
// Specification of the board and its rules
// ---------------------------------------------------------------------------

pub open spec fn rank_ok(c: Card) -> bool {
    1 <= c.rank <= 13
}

/// A column holds valid ranks and no face-down card lies above a face-up one.
pub open spec fn pile_ok(p: Seq<Card>) -> bool {
    &&& forall|i: int| 0 <= i < p.len() ==> rank_ok(#[trigger] p[i])
    &&& forall|i: int, j: int| 0 <= i < j < p.len() && (#[trigger] p[i]).face_up ==> (#[trigger] p[j]).face_up
}

/// Total number of cards lying in the columns.
pub open spec fn pile_card_sum(piles: Seq<Seq<Card>>) -> nat
    decreases piles.len(),
{
    if piles.len() == 0 {
        0
    } else {
        pile_card_sum(piles.drop_last()) + piles.last().len()
    }
}

/// Every card of the game: stock, columns, and thirteen per completed run.
pub open spec fn card_total(b: SpiderBoard) -> nat {
    b.stock.len() + pile_card_sum(b.piles) + 13 * b.completed_runs
}

/// Structural soundness of a board.
pub open spec fn board_ok(b: SpiderBoard) -> bool {
    &&& b.piles.len() == 10
    &&& forall|i: int| 0 <= i < b.piles.len() ==> pile_ok(#[trigger] b.piles[i])
    &&& forall|i: int| 0 <= i < b.stock.len() ==> rank_ok(#[trigger] b.stock[i])
    &&& card_total(b) <= 104
}

/// Card `k` of a column sits, face up and in suit, on card `k + 1` one rank lower.
pub open spec fn linked(p: Seq<Card>, k: int) -> bool {
    &&& p[k].face_up
    &&& p[k + 1].face_up
    &&& p[k].suit == p[k + 1].suit
    &&& p[k].rank == p[k + 1].rank + 1
}

/// The cards from `start` to the top of a column form a face-up,
/// same-suit, rank-descending run.
pub open spec fn movable_run(p: Seq<Card>, start: int) -> bool {
    &&& 0 <= start < p.len()
    &&& p[start].face_up
    &&& forall|k: int| start <= k < p.len() - 1 ==> #[trigger] linked(p, k)
}

/// A run starting with `lead` may be placed on column `q`.
pub open spec fn accepts(q: Seq<Card>, lead: Card) -> bool {
    q.len() == 0 || (q.last().face_up && q.last().rank == lead.rank + 1)
}

pub open spec fn can_move_run_spec(b: SpiderBoard, src: int, start: int, dst: int) -> bool {
    &&& 0 <= src < b.piles.len()
    &&& 0 <= dst < b.piles.len()
    &&& src != dst
    &&& movable_run(b.piles[src], start)
    &&& accepts(b.piles[dst], b.piles[src][start])
}

/// Turns the top card of a column face up.
pub open spec fn flip_top(p: Seq<Card>) -> Seq<Card> {
    if p.len() > 0 && !p.last().face_up {
        p.update(p.len() - 1, Card { face_up: true, ..p.last() })
    } else {
        p
    }
}

/// Thirteen face-up cards of one suit from king down to ace.
pub open spec fn complete_run(s: Seq<Card>) -> bool {
    &&& s.len() == 13
    &&& forall|k: int|
        0 <= k < 13 ==> {
            &&& (#[trigger] s[k]).face_up
            &&& s[k].suit == s[0].suit
            &&& s[k].rank == 13 - k
        }
}

/// Whether the top of a column is a complete run.
pub open spec fn ends_in_complete_run(p: Seq<Card>) -> bool {
    p.len() >= 13 && complete_run(p.subrange(p.len() - 13, p.len() as int))
}

/// A column after a complete run on top of it leaves the table.
pub open spec fn cleared_pile(p: Seq<Card>) -> Seq<Card> {
    if ends_in_complete_run(p) {
        flip_top(p.subrange(0, p.len() - 13))
    } else {
        p
    }
}

/// Column `i` after a complete run on it leaves the table.
pub open spec fn settle_pile(b: SpiderBoard, i: int) -> SpiderBoard {
    if ends_in_complete_run(b.piles[i]) {
        SpiderBoard {
            piles: b.piles.update(i, cleared_pile(b.piles[i])),
            completed_runs: b.completed_runs + 1,
            ..b
        }
    } else {
        b
    }
}

pub open spec fn move_run_spec(b: SpiderBoard, src: int, start: int, dst: int) -> SpiderBoard {
    let p = b.piles[src];
    let run = p.subrange(start, p.len() as int);
    let moved = SpiderBoard {
        piles: b.piles.update(src, flip_top(p.subrange(0, start))).update(dst, b.piles[dst] + run),
        ..b
    };
    settle_pile(moved, dst)
}

/// Dealing is possible while the stock holds a full round and no column is empty.
pub open spec fn can_deal_spec(b: SpiderBoard) -> bool {
    &&& b.stock.len() >= b.piles.len()
    &&& forall|i: int| 0 <= i < b.piles.len() ==> (#[trigger] b.piles[i]).len() > 0
}

/// The top stock card goes face up onto column `i`.
pub open spec fn deal_one(b: SpiderBoard, i: int) -> SpiderBoard {
    let c = b.stock.last();
    let placed = SpiderBoard {
        stock: b.stock.drop_last(),
        piles: b.piles.update(i, b.piles[i].push(Card { face_up: true, ..c })),
        ..b
    };
    settle_pile(placed, i)
}

/// The first `n` columns each received a card from the stock.
pub open spec fn deal_prefix(b: SpiderBoard, n: nat) -> SpiderBoard
    decreases n,
{
    if n == 0 {
        b
    } else {
        deal_one(deal_prefix(b, (n - 1) as nat), n - 1)
    }
}

pub open spec fn deal_spec(b: SpiderBoard) -> SpiderBoard {
    deal_prefix(b, b.piles.len())
}

pub open spec fn is_won_spec(b: SpiderBoard) -> bool {
    b.completed_runs == 8
}

// ---------------------------------------------------------------------------
// Lemmas
// ---------------------------------------------------------------------------

pub proof fn lemma_pile_card_sum_update(piles: Seq<Seq<Card>>, i: int, p: Seq<Card>)
    requires
        0 <= i < piles.len(),
    ensures
        pile_card_sum(piles.update(i, p)) + piles[i].len() == pile_card_sum(piles) + p.len(),
    decreases piles.len(),
{
    let u = piles.update(i, p);
    if i == piles.len() - 1 {
        assert(u.drop_last() =~= piles.drop_last());
    } else {
        lemma_pile_card_sum_update(piles.drop_last(), i, p);
        assert(u.drop_last() =~= piles.drop_last().update(i, p));
    }
}

pub proof fn lemma_flip_top(p: Seq<Card>)
    requires
        pile_ok(p),
    ensures
        pile_ok(flip_top(p)),
        flip_top(p).len() == p.len(),
        p.len() > 0 ==> flip_top(p).last().face_up,
        forall|k: int| 0 <= k < p.len() - 1 ==> flip_top(p)[k] == p[k],
{
    let q = flip_top(p);
    assert forall|i: int, j: int| 0 <= i < j < q.len() && (#[trigger] q[i]).face_up implies (#[trigger] q[j]).face_up by {
        if j == q.len() - 1 {
        } else {
            assert(p[i].face_up);
        }
    }
    assert forall|i: int| 0 <= i < q.len() implies rank_ok(#[trigger] q[i]) by {
        assert(rank_ok(p[i]));
    }
}

pub proof fn lemma_prefix_ok(p: Seq<Card>, n: int)
    requires
        pile_ok(p),
        0 <= n <= p.len(),
    ensures
        pile_ok(p.subrange(0, n)),
{
    let q = p.subrange(0, n);
    assert forall|i: int, j: int| 0 <= i < j < q.len() && (#[trigger] q[i]).face_up implies (#[trigger] q[j]).face_up by {
        assert(p[i].face_up);
    }
    assert forall|i: int| 0 <= i < q.len() implies rank_ok(#[trigger] q[i]) by {
        assert(rank_ok(p[i]));
    }
}

pub proof fn lemma_cleared_pile(p: Seq<Card>)
    requires
        pile_ok(p),
    ensures
        pile_ok(cleared_pile(p)),
        ends_in_complete_run(p) ==> cleared_pile(p).len() + 13 == p.len(),
        !ends_in_complete_run(p) ==> cleared_pile(p) == p,
{
    if ends_in_complete_run(p) {
        lemma_prefix_ok(p, p.len() - 13);
        lemma_flip_top(p.subrange(0, p.len() - 13));
    }
}

/// Settling a column keeps the board sound and the card total unchanged.
pub proof fn lemma_settle_pile(b: SpiderBoard, i: int)
    requires
        0 <= i < b.piles.len(),
        pile_ok(b.piles[i]),
    ensures
        card_total(settle_pile(b, i)) == card_total(b),
        pile_ok(settle_pile(b, i).piles[i]),
        settle_pile(b, i).piles.len() == b.piles.len(),
        settle_pile(b, i).stock == b.stock,
        settle_pile(b, i).suit_mode == b.suit_mode,
        forall|k: int| 0 <= k < b.piles.len() && k != i ==> settle_pile(b, i).piles[k] == b.piles[k],
        settle_pile(b, i).completed_runs >= b.completed_runs,
{
    lemma_cleared_pile(b.piles[i]);
    if ends_in_complete_run(b.piles[i]) {
        lemma_pile_card_sum_update(b.piles, i, cleared_pile(b.piles[i]));
    }
}


/// Placing a movable run on any sound column gives a sound column.
pub proof fn lemma_append_run_ok(q: Seq<Card>, p: Seq<Card>, start: int)
    requires
        pile_ok(q),
        pile_ok(p),
        movable_run(p, start),
    ensures
        pile_ok(q + p.subrange(start, p.len() as int)),
{
    let run = p.subrange(start, p.len() as int);
    let new_dst = q + run;
    assert forall|i: int| 0 <= i < new_dst.len() implies rank_ok(#[trigger] new_dst[i]) by {
        if i < q.len() {
            assert(rank_ok(q[i]));
        } else {
            assert(rank_ok(p[start + i - q.len()]));
        }
    }
    assert forall|j: int| 0 <= j < run.len() implies (#[trigger] run[j]).face_up by {
        if start + j < p.len() - 1 {
            assert(linked(p, start + j));
        } else if j > 0 {
            assert(linked(p, start + j - 1));
        }
    }
    assert forall|i: int, j: int| 0 <= i < j < new_dst.len() && (#[trigger] new_dst[i]).face_up implies (#[trigger] new_dst[j]).face_up by {
        if j < q.len() {
            assert(q[i].face_up);
        } else {
            assert(run[j - q.len()].face_up);
        }
    }
}

/// Law: a legal run move keeps the board sound and loses or gains no card.
pub proof fn lemma_move_run_preserves(b: SpiderBoard, src: int, start: int, dst: int)
    requires
        board_ok(b),
        can_move_run_spec(b, src, start, dst),
    ensures
        board_ok(move_run_spec(b, src, start, dst)),
        card_total(move_run_spec(b, src, start, dst)) == card_total(b),
        move_run_spec(b, src, start, dst).stock == b.stock,
        move_run_spec(b, src, start, dst).suit_mode == b.suit_mode,
{
    let p = b.piles[src];
    let q = b.piles[dst];
    let run = p.subrange(start, p.len() as int);
    let new_src = flip_top(p.subrange(0, start));
    let new_dst = q + run;
    assert(pile_ok(p));
    assert(pile_ok(q));
    lemma_prefix_ok(p, start);
    lemma_flip_top(p.subrange(0, start));
    lemma_append_run_ok(q, p, start);
    let step1 = b.piles.update(src, new_src);
    let step2 = step1.update(dst, new_dst);
    lemma_pile_card_sum_update(b.piles, src, new_src);
    lemma_pile_card_sum_update(step1, dst, new_dst);
    let moved = SpiderBoard { piles: step2, ..b };
    assert(card_total(moved) == card_total(b));
    assert forall|i: int| 0 <= i < moved.piles.len() implies pile_ok(#[trigger] moved.piles[i]) by {
        if i != src && i != dst {
            assert(moved.piles[i] == b.piles[i]);
        }
    }
    lemma_settle_pile(moved, dst);
    let r = settle_pile(moved, dst);
    assert forall|i: int| 0 <= i < r.piles.len() implies pile_ok(#[trigger] r.piles[i]) by {
        if i != dst {
            assert(r.piles[i] == moved.piles[i]);
        }
    }
}

/// Law: dealing one stock card keeps the board sound and loses or gains no card.
pub proof fn lemma_deal_one_preserves(b: SpiderBoard, i: int)
    requires
        board_ok(b),
        0 <= i < b.piles.len(),
        b.stock.len() > 0,
    ensures
        board_ok(deal_one(b, i)),
        card_total(deal_one(b, i)) == card_total(b),
        deal_one(b, i).stock == b.stock.drop_last(),
        deal_one(b, i).suit_mode == b.suit_mode,
        forall|k: int| 0 <= k < b.piles.len() && k != i ==> deal_one(b, i).piles[k] == b.piles[k],
{
    let c = b.stock.last();
    let q = b.piles[i];
    let np = q.push(Card { face_up: true, ..c });
    assert(pile_ok(q));
    assert(rank_ok(b.stock[b.stock.len() - 1]));
    assert forall|x: int| 0 <= x < np.len() implies rank_ok(#[trigger] np[x]) by {
        if x < q.len() {
            assert(rank_ok(q[x]));
        }
    }
    assert forall|x: int, y: int| 0 <= x < y < np.len() && (#[trigger] np[x]).face_up implies (#[trigger] np[y]).face_up by {
        if y < q.len() {
            assert(q[x].face_up);
        }
    }
    lemma_pile_card_sum_update(b.piles, i, np);
    let placed = SpiderBoard { stock: b.stock.drop_last(), piles: b.piles.update(i, np), ..b };
    assert(card_total(placed) == card_total(b));
    assert forall|x: int| 0 <= x < b.stock.len() - 1 implies rank_ok(#[trigger] placed.stock[x]) by {
        assert(rank_ok(b.stock[x]));
    }
    assert forall|k: int| 0 <= k < placed.piles.len() implies pile_ok(#[trigger] placed.piles[k]) by {
        if k != i {
            assert(placed.piles[k] == b.piles[k]);
        }
    }
    lemma_settle_pile(placed, i);
    let r = settle_pile(placed, i);
    assert forall|k: int| 0 <= k < r.piles.len() implies pile_ok(#[trigger] r.piles[k]) by {
        if k != i {
            assert(r.piles[k] == placed.piles[k]);
        }
    }
}

/// Law: dealing the first `n` columns keeps the board sound and loses or gains no card.
pub proof fn lemma_deal_prefix_preserves(b: SpiderBoard, n: nat)
    requires
        board_ok(b),
        n <= b.piles.len(),
        b.stock.len() >= n,
    ensures
        board_ok(deal_prefix(b, n)),
        card_total(deal_prefix(b, n)) == card_total(b),
        deal_prefix(b, n).stock == b.stock.subrange(0, b.stock.len() - n),
        deal_prefix(b, n).suit_mode == b.suit_mode,
    decreases n,
{
    if n > 0 {
        lemma_deal_prefix_preserves(b, (n - 1) as nat);
        lemma_deal_one_preserves(deal_prefix(b, (n - 1) as nat), n - 1);
    }
}

/// Law: a full deal keeps the board sound and loses or gains no card.
pub proof fn lemma_deal_preserves(b: SpiderBoard)
    requires
        board_ok(b),
        can_deal_spec(b),
    ensures
        board_ok(deal_spec(b)),
        card_total(deal_spec(b)) == card_total(b),
        deal_spec(b).stock.len() + 10 == b.stock.len(),
{
    lemma_deal_prefix_preserves(b, b.piles.len());
}

pub proof fn lemma_pile_card_sum_ge(piles: Seq<Seq<Card>>, i: int)
    requires
        0 <= i < piles.len(),
    ensures
        pile_card_sum(piles) >= piles[i].len(),
    decreases piles.len(),
{
    if i < piles.len() - 1 {
        lemma_pile_card_sum_ge(piles.drop_last(), i);
    }
}

// ---------------------------------------------------------------------------
// Executable column helpers
// ---------------------------------------------------------------------------

/// The first `n` cards of a column.
pub fn copy_prefix(p: &Vec<Card>, n: usize) -> (r: Vec<Card>)
    requires
        n <= p@.len(),
    ensures
        r@ == p@.subrange(0, n as int),
{
    let mut r: Vec<Card> = Vec::new();
    let mut k: usize = 0;
    while k < n
        invariant
            k <= n <= p@.len(),
            r@ == p@.subrange(0, k as int),
        decreases n - k,
    {
        r.push(p[k]);
        k += 1;
        assert(r@ =~= p@.subrange(0, k as int));
    }
    r
}

/// Turns the top card of a column face up.
pub fn flip_top_card(p: Vec<Card>) -> (r: Vec<Card>)
    ensures
        r@ == flip_top(p@),
{
    let mut p = p;
    let len = p.len();
    if len > 0 && !p[len - 1].face_up {
        let c = p[len - 1];
        p.set(len - 1, Card { suit: c.suit, rank: c.rank, face_up: true });
    }
    p
}

/// Whether the cards from `start` up form a face-up same-suit descending run.
pub fn is_movable_run(p: &Vec<Card>, start: usize) -> (r: bool)
    ensures
        r == movable_run(p@, start as int),
{
    if start >= p.len() || !p[start].face_up {
        return false;
    }
    let len = p.len();
    let mut k = start;
    while k + 1 < len
        invariant
            len == p@.len(),
            start <= k < p@.len(),
            forall|j: int| start <= j < k ==> #[trigger] linked(p@, j),
        decreases p@.len() - k,
    {
        let a = p[k];
        let b = p[k + 1];
        if !(a.face_up && b.face_up && a.suit == b.suit && (b.rank as u16) + 1 == a.rank as u16) {
            assert(!linked(p@, k as int));
            return false;
        }
        assert(linked(p@, k as int));
        k += 1;
    }
    true
}

/// Whether the top thirteen cards of a column run from king to ace in one suit.
pub fn has_complete_run_on_top(p: &Vec<Card>) -> (r: bool)
    ensures
        r == ends_in_complete_run(p@),
{
    let len = p.len();
    if len < 13 {
        return false;
    }
    let base = len - 13;
    let ghost s = p@.subrange(base as int, len as int);
    let suit = p[base].suit;
    let mut k: usize = 0;
    while k < 13
        invariant
            len == p@.len(),
            base + 13 == len,
            s == p@.subrange(base as int, len as int),
            suit == s[0].suit,
            k <= 13,
            forall|j: int|
                0 <= j < k ==> {
                    &&& (#[trigger] s[j]).face_up
                    &&& s[j].suit == s[0].suit
                    &&& s[j].rank == 13 - j
                },
        decreases 13 - k,
    {
        let c = p[base + k];
        assert(c == s[k as int]);
        if !(c.face_up && c.suit == suit && c.rank as usize == 13 - k) {
            return false;
        }
        k += 1;
    }
    true
}

/// Two copies of one column are equal card for card.
pub fn copy_column(p: &Vec<Card>) -> (r: Vec<Card>)
    ensures
        r@ == p@,
{
    let r = copy_prefix(p, p.len());
    assert(r@ =~= p@);
    r
}

impl SpiderGame {
    /// The game as seen by the solver: columns as card sequences.
    pub fn tableau(&self) -> (r: &Vec<Vec<Card>>)
        ensures
            r@.len() == self@.piles.len(),
            forall|i: int| 0 <= i < r@.len() ==> (#[trigger] r@[i])@ == self@.piles[i],
    {
        &self.tableau
    }

    /// The stock; its last card is dealt first.
    pub fn stock_cards(&self) -> (r: &Vec<Card>)
        ensures
            r@ == self@.stock,
    {
        &self.stock
    }

    pub fn stock_len(&self) -> (r: usize)
        ensures
            r == self@.stock.len(),
    {
        self.stock.len()
    }

    pub fn completed_runs(&self) -> (r: usize)
        ensures
            r == self@.completed_runs,
    {
        self.completed_runs
    }

    pub fn suit_mode(&self) -> (r: SpiderSuitMode)
        ensures
            r == self@.suit_mode,
    {
        self.suit_mode
    }

    pub fn is_won(&self) -> (r: bool)
        ensures
            r == is_won_spec(self@),
    {
        self.completed_runs == 8
    }

    /// An exact copy of the game.
    pub fn duplicate(&self) -> (r: SpiderGame)
        ensures
            r@ == self@,
    {
        let stock = copy_column(&self.stock);
        let mut tableau: Vec<Vec<Card>> = Vec::new();
        let mut i: usize = 0;
        while i < self.tableau.len()
            invariant
                i <= self.tableau@.len(),
                tableau@.len() == i,
                forall|k: int| 0 <= k < i ==> (#[trigger] tableau@[k])@ == self.tableau@[k]@,
            decreases self.tableau@.len() - i,
        {
            tableau.push(copy_column(&self.tableau[i]));
            i += 1;
        }
        let r = SpiderGame {
            suit_mode: self.suit_mode,
            stock,
            tableau,
            completed_runs: self.completed_runs,
        };
        assert(r@.piles =~= self@.piles);
        r
    }

    /// A game laid out from explicit columns and stock.
    pub fn debug_new(
        suit_mode: SpiderSuitMode,
        stock: Vec<Card>,
        tableau: Vec<Vec<Card>>,
        completed_runs: usize,
    ) -> (r: SpiderGame)
        ensures
            r@.suit_mode == suit_mode,
            r@.stock == stock@,
            r@.piles.len() == tableau@.len(),
            forall|i: int| 0 <= i < tableau@.len() ==> r@.piles[i] == (#[trigger] tableau@[i])@,
            r@.completed_runs == completed_runs,
    {
        SpiderGame { suit_mode, stock, tableau, completed_runs }
    }

    pub fn can_move_run(&self, src: usize, start: usize, dst: usize) -> (r: bool)
        ensures
            r == can_move_run_spec(self@, src as int, start as int, dst as int),
    {
        let n = self.tableau.len();
        if src >= n || dst >= n || src == dst {
            return false;
        }
        let p = &self.tableau[src];
        if !is_movable_run(p, start) {
            return false;
        }
        let lead = p[start];
        let q = &self.tableau[dst];
        let qn = q.len();
        if qn == 0 {
            true
        } else {
            let top = q[qn - 1];
            top.face_up && (lead.rank as u16) + 1 == top.rank as u16
        }
    }

    /// Moves a completed run off column `i`, if it has one.
    fn settle_column(&mut self, i: usize)
        requires
            i < old(self)@.piles.len(),
            card_total(old(self)@) <= 104,
        ensures
            final(self)@ == settle_pile(old(self)@, i as int),
    {
        let has_run = has_complete_run_on_top(&self.tableau[i]);
        if has_run {
            proof {
                lemma_pile_card_sum_ge(self@.piles, i as int);
            }
            let len = self.tableau[i].len();
            let rest = copy_prefix(&self.tableau[i], len - 13);
            let rest = flip_top_card(rest);
            self.tableau.set(i, rest);
            self.completed_runs = self.completed_runs + 1;
            assert(self@.piles =~= old(self)@.piles.update(i as int, cleared_pile(old(self)@.piles[i as int])));
        }
    }

    /// Moves the run starting at `start` of column `src` onto column `dst`
    /// when that is legal; reports whether it moved.
    pub fn move_run(&mut self, src: usize, start: usize, dst: usize) -> (moved: bool)
        requires
            board_ok(old(self)@),
        ensures
            moved == can_move_run_spec(old(self)@, src as int, start as int, dst as int),
            moved ==> final(self)@ == move_run_spec(old(self)@, src as int, start as int, dst as int),
            !moved ==> final(self)@ == old(self)@,
            board_ok(final(self)@),
            card_total(final(self)@) == card_total(old(self)@),
    {
        if !self.can_move_run(src, start, dst) {
            return false;
        }
        proof {
            lemma_move_run_preserves(self@, src as int, start as int, dst as int);
        }
        let ghost b = self@;
        let src_len = self.tableau[src].len();
        let mut dst_col = copy_column(&self.tableau[dst]);
        let mut k = start;
        while k < src_len
            invariant
                src < self.tableau@.len(),
                src_len == self.tableau@[src as int]@.len(),
                start <= k <= src_len,
                dst_col@ == self.tableau@[dst as int]@ + self.tableau@[src as int]@.subrange(start as int, k as int),
            decreases src_len - k,
        {
            dst_col.push(self.tableau[src][k]);
            k += 1;
            assert(dst_col@ =~= self.tableau@[dst as int]@ + self.tableau@[src as int]@.subrange(start as int, k as int));
        }
        let rest = copy_prefix(&self.tableau[src], start);
        let rest = flip_top_card(rest);
        self.tableau.set(src, rest);
        self.tableau.set(dst, dst_col);
        assert(self@.piles =~= b.piles.update(src as int, flip_top(b.piles[src as int].subrange(0, start as int))).update(
            dst as int,
            b.piles[dst as int] + b.piles[src as int].subrange(start as int, b.piles[src as int].len() as int),
        ));
        proof {
            lemma_settle_pile(self@, dst as int);
        }
        self.settle_column(dst);
        true
    }

    pub fn can_deal_from_stock(&self) -> (r: bool)
        ensures
            r == can_deal_spec(self@),
    {
        let n = self.tableau.len();
        if self.stock.len() < n {
            return false;
        }
        let mut i: usize = 0;
        while i < n
            invariant
                n == self@.piles.len(),
                i <= n,
                forall|k: int| 0 <= k < i ==> (#[trigger] self@.piles[k]).len() > 0,
            decreases n - i,
        {
            assert(self@.piles[i as int] == self.tableau@[i as int]@);
            if self.tableau[i].len() == 0 {
                return false;
            }
            i += 1;
        }
        true
    }

    /// Deals one face-up stock card onto every column when dealing is
    /// allowed; reports whether it dealt.
    pub fn deal_from_stock(&mut self) -> (dealt: bool)
        requires
            board_ok(old(self)@),
        ensures
            dealt == can_deal_spec(old(self)@),
            dealt ==> final(self)@ == deal_spec(old(self)@),
            !dealt ==> final(self)@ == old(self)@,
            board_ok(final(self)@),
            card_total(final(self)@) == card_total(old(self)@),
    {
        if !self.can_deal_from_stock() {
            return false;
        }
        let ghost b = self@;
        proof {
            lemma_deal_preserves(b);
        }
        let n = self.tableau.len();
        let mut i: usize = 0;
        while i < n
            invariant
                n == b.piles.len(),
                board_ok(b),
                can_deal_spec(b),
                i <= n,
                self@ == deal_prefix(b, i as nat),
            decreases n - i,
        {
            proof {
                lemma_deal_prefix_preserves(b, i as nat);
                lemma_deal_prefix_preserves(b, (i + 1) as nat);
            }
            let ghost prev = self@;
            let c = self.stock.pop().unwrap();
            let mut col = copy_column(&self.tableau[i]);
            col.push(Card { suit: c.suit, rank: c.rank, face_up: true });
            self.tableau.set(i, col);
            assert(self@.piles =~= deal_prefix(b, i as nat).piles.update(
                i as int,
                deal_prefix(b, i as nat).piles[i as int].push(Card { face_up: true, ..deal_prefix(b, i as nat).stock.last() }),
            ));
            proof {
                lemma_pile_card_sum_update(prev.piles, i as int, col@);
            }
            self.settle_column(i);
            i += 1;
        }
        true
    }
}

/// One xorshift64 scramble of the generator state.
pub open spec fn xorshift_state(x: u64) -> u64 {
    let a = x ^ (x >> 12u64);
    let b = a ^ (a << 25u64);
    b ^ (b >> 27u64)
}

/// Advances an xorshift64* generator and returns its next output.
pub fn next_u64(state: &mut u64) -> (r: u64)
    ensures
        *final(state) == xorshift_state(*old(state)),
        r == xorshift_state(*old(state)).wrapping_mul(0x2545F4914F6CDD1Du64),
{
    *state = *state ^ (*state >> 12u64);
    *state = *state ^ (*state << 25u64);
    *state = *state ^ (*state >> 27u64);
    state.wrapping_mul(0x2545F4914F6CDD1Du64)
}

/// The suit of the `set`-th thirteen-card set of a Spider deck.
pub open spec fn set_suit_spec(mode: SpiderSuitMode, set: nat) -> Suit {
    match mode {
        SpiderSuitMode::One => Suit::Spades,
        SpiderSuitMode::Two => if set % 2 == 0 { Suit::Spades } else { Suit::Hearts },
        SpiderSuitMode::Three => if set % 3 == 0 {
            Suit::Spades
        } else if set % 3 == 1 {
            Suit::Hearts
        } else {
            Suit::Clubs
        },
        SpiderSuitMode::Four => if set % 4 == 0 {
            Suit::Spades
        } else if set % 4 == 1 {
            Suit::Hearts
        } else if set % 4 == 2 {
            Suit::Clubs
        } else {
            Suit::Diamonds
        },
    }
}

fn set_suit(mode: SpiderSuitMode, set: usize) -> (r: Suit)
    ensures
        r == set_suit_spec(mode, set as nat),
{
    match mode {
        SpiderSuitMode::One => Suit::Spades,
        SpiderSuitMode::Two => if set % 2 == 0 { Suit::Spades } else { Suit::Hearts },
        SpiderSuitMode::Three => if set % 3 == 0 {
            Suit::Spades
        } else if set % 3 == 1 {
            Suit::Hearts
        } else {
            Suit::Clubs
        },
        SpiderSuitMode::Four => if set % 4 == 0 {
            Suit::Spades
        } else if set % 4 == 1 {
            Suit::Hearts
        } else if set % 4 == 2 {
            Suit::Clubs
        } else {
            Suit::Diamonds
        },
    }
}

/// Cards dealt to column `col` at the start: six to the first four, five to the rest.
pub open spec fn initial_pile_len(col: int) -> nat {
    if col < 4 { 6 } else { 5 }
}

/// The unshuffled deck: eight suit sets of ace to king, face down.
pub open spec fn fresh_deck(mode: SpiderSuitMode) -> Seq<Card> {
    Seq::new(104, |k: int| Card {
        suit: set_suit_spec(mode, (k / 13) as nat),
        rank: (k % 13 + 1) as u8,
        face_up: false,
    })
}

/// The generator state a seed starts from (never zero).
pub open spec fn initial_rng_state(seed: u64) -> u64 {
    let x = seed ^ 0x9E37_79B9_7F4A_7C15u64;
    if x == 0 { 0x9E37_79B9_7F4A_7C15u64 } else { x }
}

/// Fisher-Yates from position `i` down to 1: swap `i` with the position the
/// next generator output picks among `0..=i`.
pub open spec fn shuffle_from(deck: Seq<Card>, state: u64, i: nat) -> Seq<Card>
    decreases i,
{
    if i == 0 || i >= deck.len() {
        deck
    } else {
        let next = xorshift_state(state);
        let roll = next.wrapping_mul(0x2545F4914F6CDD1Du64);
        let j = (roll as nat % (i + 1)) as int;
        shuffle_from(deck.update(i as int, deck[j]).update(j, deck[i as int]), next, (i - 1) as nat)
    }
}

/// Where column `col`'s cards start in the shuffled deck.
pub open spec fn pile_offset(col: int) -> int {
    if col <= 4 { 6 * col } else { 24 + 5 * (col - 4) }
}

/// Column `col` of a deal: its cards from the shuffled deck, only the top one face up.
pub open spec fn dealt_pile(deck: Seq<Card>, col: int) -> Seq<Card> {
    let n = initial_pile_len(col) as int;
    Seq::new(n as nat, |k: int| Card {
        suit: deck[pile_offset(col) + k].suit,
        rank: deck[pile_offset(col) + k].rank,
        face_up: k == n - 1,
    })
}

/// The deal of `seed`: the shuffled deck laid out in ten columns, the last
/// fifty cards in the stock.
pub open spec fn spider_deal(seed: u64, mode: SpiderSuitMode) -> SpiderBoard {
    let deck = shuffle_from(fresh_deck(mode), initial_rng_state(seed), 103);
    SpiderBoard {
        suit_mode: mode,
        stock: deck.subrange(54, 104),
        piles: Seq::new(10, |c: int| dealt_pile(deck, c)),
        completed_runs: 0,
    }
}

/// The 104 face-down cards of a Spider deck: eight suit sets of ace to king.
fn build_deck(mode: SpiderSuitMode) -> (deck: Vec<Card>)
    ensures
        deck@.len() == 104,
        forall|k: int| 0 <= k < 104 ==> rank_ok(#[trigger] deck@[k]),
        forall|k: int| 0 <= k < 104 ==> #[trigger] deck@[k] == (Card {
            suit: set_suit_spec(mode, (k / 13) as nat),
            rank: (k % 13 + 1) as u8,
            face_up: false,
        }),
        deck@ == fresh_deck(mode),
{
    let mut deck: Vec<Card> = Vec::new();
    let mut set: usize = 0;
    while set < 8
        invariant
            set <= 8,
            deck@.len() == set * 13,
            forall|k: int| 0 <= k < deck@.len() ==> #[trigger] deck@[k] == (Card {
                suit: set_suit_spec(mode, (k / 13) as nat),
                rank: (k % 13 + 1) as u8,
                face_up: false,
            }),
        decreases 8 - set,
    {
        let suit = set_suit(mode, set);
        let mut rank: u8 = 1;
        while rank <= 13
            invariant
                set < 8,
                1 <= rank <= 14,
                deck@.len() == set * 13 + rank - 1,
                suit == set_suit_spec(mode, set as nat),
                forall|k: int| 0 <= k < deck@.len() ==> #[trigger] deck@[k] == (Card {
                    suit: set_suit_spec(mode, (k / 13) as nat),
                    rank: (k % 13 + 1) as u8,
                    face_up: false,
                }),
            decreases 14 - rank,
        {
            let ghost k = deck@.len() as int;
            deck.push(Card { suit, rank, face_up: false });
            assert(k / 13 == set as int && k % 13 == rank - 1) by (nonlinear_arith)
                requires
                    k == set * 13 + rank - 1,
                    1 <= rank <= 13,
                    0 <= set,
            ;
            rank += 1;
        }
        set += 1;
    }
    assert forall|k: int| 0 <= k < 104 implies rank_ok(#[trigger] deck@[k]) by {
        assert(0 <= k % 13 < 13);
    }
    assert(deck@ =~= fresh_deck(mode));
    deck
}

impl SpiderGame {
    /// A fresh deal: the deck is shuffled by a generator seeded with `seed`,
    /// fifty-four cards go to the columns (six to the first four, five to the
    /// others, top cards face up) and fifty stay in the stock.
    pub fn new_with_seed_and_mode(seed: u64, suit_mode: SpiderSuitMode) -> (r: SpiderGame)
        ensures
            r@ == spider_deal(seed, suit_mode),
            r@.suit_mode == suit_mode,
            board_ok(r@),
            card_total(r@) == 104,
            r@.stock.len() == 50,
            r@.completed_runs == 0,
            forall|i: int| 0 <= i < 10 ==> (#[trigger] r@.piles[i]).len() == initial_pile_len(i),
            forall|i: int| 0 <= i < 10 ==> (#[trigger] r@.piles[i]).last().face_up,
            forall|i: int, k: int| 0 <= i < 10 && 0 <= k < r@.piles[i].len() - 1 ==> !(#[trigger] r@.piles[i][k]).face_up,
            forall|k: int| 0 <= k < 50 ==> !(#[trigger] r@.stock[k]).face_up,
    {
        let mut deck = build_deck(suit_mode);
        let mut state: u64 = seed ^ 0x9E37_79B9_7F4A_7C15u64;
        if state == 0 {
            state = 0x9E37_79B9_7F4A_7C15u64;
        }
        let ghost target = shuffle_from(fresh_deck(suit_mode), initial_rng_state(seed), 103);
        let mut i: usize = 103;
        while i > 0
            invariant
                i <= 103,
                deck@.len() == 104,
                forall|k: int| 0 <= k < 104 ==> rank_ok(#[trigger] deck@[k]),
                forall|k: int| 0 <= k < 104 ==> !(#[trigger] deck@[k]).face_up,
                shuffle_from(deck@, state, i as nat) == target,
            decreases i,
        {
            let ghost before = deck@;
            let ghost st = state;
            let roll = next_u64(&mut state);
            let j = (roll % ((i as u64) + 1)) as usize;
            let a = deck[i];
            let b = deck[j];
            deck.set(i, b);
            deck.set(j, a);
            assert(deck@ == before.update(i as int, before[j as int]).update(j as int, before[i as int]));
            assert(j as nat == roll as nat % (i as nat + 1));
            i -= 1;
        }
        assert(deck@ == target);
        let mut tableau: Vec<Vec<Card>> = Vec::new();
        let mut next: usize = 0;
        let mut col: usize = 0;
        while col < 10
            invariant
                deck@.len() == 104,
                forall|k: int| 0 <= k < 104 ==> rank_ok(#[trigger] deck@[k]),
                forall|k: int| 0 <= k < 104 ==> !(#[trigger] deck@[k]).face_up,
                col <= 10,
                tableau@.len() == col,
                next == (if col <= 4 { 6 * col } else { 24 + 5 * (col - 4) }),
                forall|c: int| 0 <= c < col ==> (#[trigger] tableau@[c])@.len() == initial_pile_len(c),
                forall|c: int| 0 <= c < col ==> pile_ok(#[trigger] tableau@[c]@),
                forall|c: int| 0 <= c < col ==> (#[trigger] tableau@[c])@.last().face_up,
                forall|c: int, k: int| 0 <= c < col && 0 <= k < tableau@[c]@.len() - 1 ==> !(#[trigger] tableau@[c]@[k]).face_up,
                deck@ == target,
                forall|c: int| 0 <= c < col ==> (#[trigger] tableau@[c])@ == dealt_pile(target, c),
            decreases 10 - col,
        {
            let count: usize = if col < 4 { 6 } else { 5 };
            let mut pile: Vec<Card> = Vec::new();
            let mut k: usize = 0;
            while k < count
                invariant
                    deck@.len() == 104,
                    forall|x: int| 0 <= x < 104 ==> rank_ok(#[trigger] deck@[x]),
                    forall|x: int| 0 <= x < 104 ==> !(#[trigger] deck@[x]).face_up,
                    col < 10,
                    count == initial_pile_len(col as int),
                    next == (if col <= 4 { 6 * col } else { 24 + 5 * (col - 4) }),
                    k <= count,
                    pile@.len() == k,
                    forall|x: int| 0 <= x < k ==> rank_ok(#[trigger] pile@[x]),
                    forall|x: int| 0 <= x < k ==> !(#[trigger] pile@[x]).face_up || x == count - 1,
                    forall|x: int| 0 <= x < k && x == count - 1 ==> (#[trigger] pile@[x]).face_up,
                    deck@ == target,
                    pile@ == dealt_pile(target, col as int).take(k as int),
                decreases count - k,
            {
                let c = deck[next + k];
                let up = k + 1 == count;
                pile.push(Card { suit: c.suit, rank: c.rank, face_up: up });
                assert(pile@ =~= dealt_pile(target, col as int).take(k + 1));
                k += 1;
            }
            assert(pile@ =~= dealt_pile(target, col as int));
            assert forall|x: int, y: int| 0 <= x < y < pile@.len() && (#[trigger] pile@[x]).face_up implies (#[trigger] pile@[y]).face_up by {
            }
            tableau.push(pile);
            next = next + count;
            col += 1;
        }
        let mut stock: Vec<Card> = Vec::new();
        let mut s: usize = 54;
        while s < 104
            invariant
                deck@.len() == 104,
                forall|k: int| 0 <= k < 104 ==> rank_ok(#[trigger] deck@[k]),
                forall|k: int| 0 <= k < 104 ==> !(#[trigger] deck@[k]).face_up,
                54 <= s <= 104,
                stock@.len() == s - 54,
                deck@ == target,
                stock@ == target.subrange(54, s as int),
                forall|k: int| 0 <= k < stock@.len() ==> rank_ok(#[trigger] stock@[k]),
                forall|k: int| 0 <= k < stock@.len() ==> !(#[trigger] stock@[k]).face_up,
            decreases 104 - s,
        {
            stock.push(deck[s]);
            assert(stock@ =~= target.subrange(54, s + 1));
            s += 1;
        }
        let r = SpiderGame { suit_mode, stock, tableau, completed_runs: 0 };
        proof {
            let piles = r@.piles;
            assert(pile_card_sum(piles.take(0)) == 0);
            assert forall|n: int| 0 <= n <= 10 implies #[trigger] pile_card_sum(piles.take(n)) == (if n <= 4 { 6 * n } else { 24 + 5 * (n - 4) }) by {
                lemma_initial_sum(piles, n);
            }
            assert(piles.take(10) =~= piles);
            assert(piles =~= spider_deal(seed, suit_mode).piles);
        }
        r
    }
}

proof fn lemma_initial_sum(piles: Seq<Seq<Card>>, n: int)
    requires
        piles.len() == 10,
        0 <= n <= 10,
        forall|i: int| 0 <= i < 10 ==> (#[trigger] piles[i]).len() == initial_pile_len(i),
    ensures
        pile_card_sum(piles.take(n)) == (if n <= 4 { 6 * n } else { 24 + 5 * (n - 4) }),
    decreases n,
{
    if n > 0 {
        lemma_initial_sum(piles, n - 1);
        assert(piles.take(n).drop_last() =~= piles.take(n - 1));
    }
}

} // verus!

