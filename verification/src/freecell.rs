//! A FreeCell game: eight columns, four free cells and four foundations
//! built up by suit from the ace.

use vstd::prelude::*;
use crate::cards::{suit_index_spec, suit_is_red, Card, Suit};
use crate::spider::{
    copy_column, copy_prefix, initial_rng_state, lemma_pile_card_sum_ge, lemma_pile_card_sum_update, next_u64, pile_card_sum,
    rank_ok, shuffle_from,
};

verus! {

/// How many cards a FreeCell deal uses: two, three or four full suits.
#[derive(Debug, Clone, Copy, PartialEq, Eq, Hash, Structural)]
pub enum FreecellCardCountMode {
    TwentySix,
    ThirtyNine,
    FiftyTwo,
}

pub open spec fn card_count_spec(m: FreecellCardCountMode) -> nat {
    match m {
        FreecellCardCountMode::TwentySix => 26,
        FreecellCardCountMode::ThirtyNine => 39,
        FreecellCardCountMode::FiftyTwo => 52,
    }
}

impl FreecellCardCountMode {
    pub fn card_count(self) -> (r: u8)
        ensures
            r == card_count_spec(self),
    {
        match self {
            Self::TwentySix => 26,
            Self::ThirtyNine => 39,
            Self::FiftyTwo => 52,
        }
    }

    /// The mode dealing `count` cards, if there is one.
    pub fn from_card_count(count: u8) -> (r: Option<Self>)
        ensures
            r matches Some(m) ==> card_count_spec(m) == count,
            r is None <==> !(count == 26 || count == 39 || count == 52),
    {
        match count {
            26 => Some(Self::TwentySix),
            39 => Some(Self::ThirtyNine),
            52 => Some(Self::FiftyTwo),
            _ => None,
        }
    }
}

/// The mathematical content of a FreeCell game.
pub ghost struct FreecellBoard {
    pub card_count: nat,
    /// Columns; the last card of a column is its top.
    pub tableau: Seq<Seq<Card>>,
    pub freecells: Seq<Option<Card>>,
    /// Foundation `i` holds suit `i` (clubs, diamonds, hearts, spades) from the ace up.
    pub foundations: Seq<Seq<Card>>,
}

/// The suit whose foundation index is `i`.
pub open spec fn suit_of_index(i: int) -> Suit {
    if i == 0 {
        Suit::Clubs
    } else if i == 1 {
        Suit::Diamonds
    } else if i == 2 {
        Suit::Hearts
    } else {
        Suit::Spades
    }
}

/// Number of occupied free cells.
pub open spec fn occupied(cells: Seq<Option<Card>>) -> nat
    decreases cells.len(),
{
    if cells.len() == 0 {
        0
    } else {
        occupied(cells.drop_last()) + (if cells.last() is Some { 1nat } else { 0nat })
    }
}

/// Number of empty columns.
pub open spec fn empty_columns(tableau: Seq<Seq<Card>>) -> nat
    decreases tableau.len(),
{
    if tableau.len() == 0 {
        0
    } else {
        empty_columns(tableau.drop_last()) + (if tableau.last().len() == 0 { 1nat } else { 0nat })
    }
}

/// Every card of the game.
pub open spec fn fc_total(b: FreecellBoard) -> nat {
    pile_card_sum(b.tableau) + occupied(b.freecells) + pile_card_sum(b.foundations)
}

/// Foundation `i` holds its suit from the ace up, one card per rank.
pub open spec fn foundation_ok(f: Seq<Card>, i: int) -> bool {
    &&& f.len() <= 13
    &&& forall|k: int| 0 <= k < f.len() ==> (#[trigger] f[k]).suit == suit_of_index(i) && f[k].rank == k + 1
}

/// Structural soundness of a FreeCell board.
pub open spec fn fc_ok(b: FreecellBoard) -> bool {
    &&& b.tableau.len() == 8
    &&& b.freecells.len() == 4
    &&& b.foundations.len() == 4
    &&& forall|i: int, k: int| 0 <= i < 8 && 0 <= k < b.tableau[i].len() ==> rank_ok(#[trigger] b.tableau[i][k])
    &&& forall|c: int| 0 <= c < 4 ==> (#[trigger] b.freecells[c] matches Some(x) ==> rank_ok(x))
    &&& forall|i: int| 0 <= i < 4 ==> foundation_ok(#[trigger] b.foundations[i], i)
    &&& fc_total(b) == b.card_count
    &&& b.card_count <= 52
}

pub open spec fn fc_won(b: FreecellBoard) -> bool {
    pile_card_sum(b.foundations) == b.card_count
}

/// `upper` may lie on `lower`: opposite colour, one rank lower.
pub open spec fn stacks_on(lower: Card, upper: Card) -> bool {
    suit_is_red(lower.suit) != suit_is_red(upper.suit) && lower.rank == upper.rank + 1
}

/// A column takes `c` on top: it is empty, or its top card takes `c`.
pub open spec fn accepts_card(col: Seq<Card>, c: Card) -> bool {
    col.len() == 0 || stacks_on(col.last(), c)
}

/// The cards from `start` on form one alternating descending run.
pub open spec fn alt_run(col: Seq<Card>, start: int) -> bool {
    &&& 0 <= start < col.len()
    &&& forall|k: int| start <= k < col.len() - 1 ==> stacks_on(#[trigger] col[k], col[k + 1])
}

pub open spec fn pow2_small(e: nat) -> nat
    decreases e,
{
    if e == 0 {
        1
    } else {
        2 * pow2_small((e - 1) as nat)
    }
}

/// How many cards may move as a run to column `dst`: one more than the
/// empty free cells, doubled for every other empty column.
pub open spec fn move_capacity(b: FreecellBoard, dst: int) -> nat {
    let others = empty_columns(b.tableau) - (if b.tableau[dst].len() == 0 { 1int } else { 0int });
    let free: int = 4 - occupied(b.freecells);
    ((free + 1) * pow2_small(if others > 0 { others as nat } else { 0 })) as nat
}

/// `c` goes next on its foundation.
pub open spec fn foundation_takes(b: FreecellBoard, c: Card) -> bool {
    c.rank == b.foundations[suit_index_spec(c.suit) as int].len() + 1
}

pub open spec fn push_foundation(b: FreecellBoard, c: Card) -> Seq<Seq<Card>> {
    let s = suit_index_spec(c.suit) as int;
    b.foundations.update(s, b.foundations[s].push(c))
}

pub open spec fn can_freecell_to_foundation(b: FreecellBoard, cell: int) -> bool {
    &&& 0 <= cell < 4
    &&& b.freecells[cell] matches Some(c) && foundation_takes(b, c)
}

pub open spec fn freecell_to_foundation(b: FreecellBoard, cell: int) -> FreecellBoard {
    FreecellBoard {
        freecells: b.freecells.update(cell, None),
        foundations: push_foundation(b, b.freecells[cell]->0),
        ..b
    }
}

pub open spec fn can_tableau_to_foundation(b: FreecellBoard, src: int) -> bool {
    &&& 0 <= src < 8
    &&& b.tableau[src].len() > 0
    &&& foundation_takes(b, b.tableau[src].last())
}

pub open spec fn tableau_to_foundation(b: FreecellBoard, src: int) -> FreecellBoard {
    FreecellBoard {
        tableau: b.tableau.update(src, b.tableau[src].drop_last()),
        foundations: push_foundation(b, b.tableau[src].last()),
        ..b
    }
}

pub open spec fn can_freecell_to_tableau(b: FreecellBoard, cell: int, dst: int) -> bool {
    &&& 0 <= cell < 4
    &&& 0 <= dst < 8
    &&& b.freecells[cell] matches Some(c) && accepts_card(b.tableau[dst], c)
}

pub open spec fn freecell_to_tableau(b: FreecellBoard, cell: int, dst: int) -> FreecellBoard {
    FreecellBoard {
        freecells: b.freecells.update(cell, None),
        tableau: b.tableau.update(dst, b.tableau[dst].push(b.freecells[cell]->0)),
        ..b
    }
}

pub open spec fn can_tableau_to_freecell(b: FreecellBoard, src: int, cell: int) -> bool {
    &&& 0 <= src < 8
    &&& 0 <= cell < 4
    &&& b.tableau[src].len() > 0
    &&& b.freecells[cell] is None
}

pub open spec fn tableau_to_freecell(b: FreecellBoard, src: int, cell: int) -> FreecellBoard {
    FreecellBoard {
        tableau: b.tableau.update(src, b.tableau[src].drop_last()),
        freecells: b.freecells.update(cell, Some(b.tableau[src].last())),
        ..b
    }
}

pub open spec fn can_run_to_tableau(b: FreecellBoard, src: int, start: int, dst: int) -> bool {
    &&& 0 <= src < 8
    &&& 0 <= dst < 8
    &&& src != dst
    &&& alt_run(b.tableau[src], start)
    &&& accepts_card(b.tableau[dst], b.tableau[src][start])
    &&& b.tableau[src].len() - start <= move_capacity(b, dst)
}

pub open spec fn run_to_tableau(b: FreecellBoard, src: int, start: int, dst: int) -> FreecellBoard {
    let p = b.tableau[src];
    FreecellBoard {
        tableau: b.tableau.update(src, p.take(start)).update(
            dst,
            b.tableau[dst] + p.subrange(start, p.len() as int),
        ),
        ..b
    }
}

// ---------------------------------------------------------------------------
// Laws: every legal move keeps the board sound and every card in play
// ---------------------------------------------------------------------------

pub proof fn lemma_occupied_update(cells: Seq<Option<Card>>, i: int, x: Option<Card>)
    requires
        0 <= i < cells.len(),
    ensures
        occupied(cells.update(i, x)) + (if cells[i] is Some { 1int } else { 0int })
            == occupied(cells) + (if x is Some { 1int } else { 0int }),
    decreases cells.len(),
{
    let u = cells.update(i, x);
    if i == cells.len() - 1 {
        assert(u.drop_last() =~= cells.drop_last());
    } else {
        lemma_occupied_update(cells.drop_last(), i, x);
        assert(u.drop_last() =~= cells.drop_last().update(i, x));
    }
}

pub proof fn lemma_occupied_bound(cells: Seq<Option<Card>>)
    ensures
        occupied(cells) <= cells.len(),
    decreases cells.len(),
{
    if cells.len() > 0 {
        lemma_occupied_bound(cells.drop_last());
    }
}

pub proof fn lemma_empty_columns_bound(t: Seq<Seq<Card>>)
    ensures
        empty_columns(t) <= t.len(),
    decreases t.len(),
{
    if t.len() > 0 {
        lemma_empty_columns_bound(t.drop_last());
    }
}

proof fn lemma_foundation_push(b: FreecellBoard, c: Card)
    requires
        fc_ok(b),
        foundation_takes(b, c),
        rank_ok(c),
    ensures
        forall|i: int| 0 <= i < 4 ==> foundation_ok(#[trigger] push_foundation(b, c)[i], i),
        pile_card_sum(push_foundation(b, c)) == pile_card_sum(b.foundations) + 1,
        push_foundation(b, c).len() == 4,
{
    let s = suit_index_spec(c.suit) as int;
    let f = push_foundation(b, c);
    lemma_pile_card_sum_update(b.foundations, s, b.foundations[s].push(c));
    assert(c.suit == suit_of_index(s));
    assert forall|i: int| 0 <= i < 4 implies foundation_ok(#[trigger] f[i], i) by {
        if i == s {
            assert(foundation_ok(b.foundations[s], s));
        }
    }
}

/// Law: a legal free-cell-to-foundation move keeps the board sound and all cards in play.
pub proof fn lemma_freecell_to_foundation_ok(b: FreecellBoard, cell: int)
    requires
        fc_ok(b),
        can_freecell_to_foundation(b, cell),
    ensures
        fc_ok(freecell_to_foundation(b, cell)),
{
    let c = b.freecells[cell]->0;
    assert(b.freecells[cell] matches Some(x) ==> rank_ok(x));
    lemma_foundation_push(b, c);
    lemma_occupied_update(b.freecells, cell, None);
    let n = freecell_to_foundation(b, cell);
    assert forall|k: int| 0 <= k < 4 implies (#[trigger] n.freecells[k] matches Some(x) ==> rank_ok(x)) by {
        if k != cell {
            assert(n.freecells[k] == b.freecells[k]);
        }
    }
}

/// Law: a legal tableau-to-foundation move keeps the board sound and all cards in play.
pub proof fn lemma_tableau_to_foundation_ok(b: FreecellBoard, src: int)
    requires
        fc_ok(b),
        can_tableau_to_foundation(b, src),
    ensures
        fc_ok(tableau_to_foundation(b, src)),
{
    let p = b.tableau[src];
    let c = p.last();
    assert(rank_ok(b.tableau[src][p.len() - 1]));
    lemma_foundation_push(b, c);
    lemma_pile_card_sum_update(b.tableau, src, p.drop_last());
    let n = tableau_to_foundation(b, src);
    assert forall|i: int, k: int| 0 <= i < 8 && 0 <= k < n.tableau[i].len() implies rank_ok(#[trigger] n.tableau[i][k]) by {
        if i == src {
            assert(n.tableau[i][k] == b.tableau[i][k]);
        } else {
            assert(n.tableau[i] == b.tableau[i]);
        }
    }
}

/// Law: a legal free-cell-to-column move keeps the board sound and all cards in play.
pub proof fn lemma_freecell_to_tableau_ok(b: FreecellBoard, cell: int, dst: int)
    requires
        fc_ok(b),
        can_freecell_to_tableau(b, cell, dst),
    ensures
        fc_ok(freecell_to_tableau(b, cell, dst)),
{
    let c = b.freecells[cell]->0;
    assert(b.freecells[cell] matches Some(x) ==> rank_ok(x));
    lemma_occupied_update(b.freecells, cell, None);
    lemma_pile_card_sum_update(b.tableau, dst, b.tableau[dst].push(c));
    let n = freecell_to_tableau(b, cell, dst);
    assert forall|i: int, k: int| 0 <= i < 8 && 0 <= k < n.tableau[i].len() implies rank_ok(#[trigger] n.tableau[i][k]) by {
        if i == dst {
            if k < b.tableau[dst].len() {
                assert(n.tableau[i][k] == b.tableau[i][k]);
            }
        } else {
            assert(n.tableau[i] == b.tableau[i]);
        }
    }
    assert forall|k: int| 0 <= k < 4 implies (#[trigger] n.freecells[k] matches Some(x) ==> rank_ok(x)) by {
        if k != cell {
            assert(n.freecells[k] == b.freecells[k]);
        }
    }
}

/// Law: a legal column-to-free-cell move keeps the board sound and all cards in play.
pub proof fn lemma_tableau_to_freecell_ok(b: FreecellBoard, src: int, cell: int)
    requires
        fc_ok(b),
        can_tableau_to_freecell(b, src, cell),
    ensures
        fc_ok(tableau_to_freecell(b, src, cell)),
{
    let p = b.tableau[src];
    let c = p.last();
    assert(rank_ok(b.tableau[src][p.len() - 1]));
    lemma_occupied_update(b.freecells, cell, Some(c));
    lemma_pile_card_sum_update(b.tableau, src, p.drop_last());
    let n = tableau_to_freecell(b, src, cell);
    assert forall|i: int, k: int| 0 <= i < 8 && 0 <= k < n.tableau[i].len() implies rank_ok(#[trigger] n.tableau[i][k]) by {
        if i == src {
            assert(n.tableau[i][k] == b.tableau[i][k]);
        } else {
            assert(n.tableau[i] == b.tableau[i]);
        }
    }
    assert forall|k: int| 0 <= k < 4 implies (#[trigger] n.freecells[k] matches Some(x) ==> rank_ok(x)) by {
        if k != cell {
            assert(n.freecells[k] == b.freecells[k]);
        }
    }
}

/// Law: a legal run move between columns keeps the board sound and all cards in play.
pub proof fn lemma_run_to_tableau_ok(b: FreecellBoard, src: int, start: int, dst: int)
    requires
        fc_ok(b),
        can_run_to_tableau(b, src, start, dst),
    ensures
        fc_ok(run_to_tableau(b, src, start, dst)),
{
    let p = b.tableau[src];
    let q = b.tableau[dst];
    let moved = p.subrange(start, p.len() as int);
    let t1 = b.tableau.update(src, p.take(start));
    lemma_pile_card_sum_update(b.tableau, src, p.take(start));
    lemma_pile_card_sum_update(t1, dst, q + moved);
    assert(t1[dst] == q);
    let n = run_to_tableau(b, src, start, dst);
    assert forall|i: int, k: int| 0 <= i < 8 && 0 <= k < n.tableau[i].len() implies rank_ok(#[trigger] n.tableau[i][k]) by {
        if i == dst {
            if k < q.len() {
                assert(n.tableau[i][k] == b.tableau[dst][k]);
            } else {
                assert(n.tableau[i][k] == b.tableau[src][start + k - q.len()]);
            }
        } else if i == src {
            assert(n.tableau[i][k] == b.tableau[src][k]);
        } else {
            assert(n.tableau[i] == b.tableau[i]);
        }
    }
}


// ---------------------------------------------------------------------------
// The deal
// ---------------------------------------------------------------------------

/// The unshuffled deck of `count` cards: whole suits of ace to king, face up.
pub open spec fn fresh_freecell_deck(count: nat) -> Seq<Card> {
    Seq::new(count, |k: int| Card { suit: suit_of_index(k / 13), rank: (k % 13 + 1) as u8, face_up: true })
}

/// The first `n` cards of `deck` dealt one by one across the eight columns.
pub open spec fn deal_round_robin(deck: Seq<Card>, n: nat) -> Seq<Seq<Card>>
    decreases n,
{
    if n == 0 {
        Seq::new(8, |j: int| Seq::<Card>::empty())
    } else {
        let t = deal_round_robin(deck, (n - 1) as nat);
        let j = ((n - 1) % 8) as int;
        t.update(j, t[j].push(deck[n - 1]))
    }
}

/// The deal of `seed`: the shuffled deck dealt across the columns, free
/// cells and foundations empty.
pub open spec fn freecell_deal(seed: u64, mode: FreecellCardCountMode) -> FreecellBoard {
    let count = card_count_spec(mode);
    let deck = shuffle_from(fresh_freecell_deck(count), initial_rng_state(seed), (count - 1) as nat);
    FreecellBoard {
        card_count: count,
        tableau: deal_round_robin(deck, count),
        freecells: seq![None, None, None, None],
        foundations: Seq::new(4, |i: int| Seq::<Card>::empty()),
    }
}

proof fn lemma_empty_piles_sum(n: nat)
    ensures
        pile_card_sum(Seq::new(n, |j: int| Seq::<Card>::empty())) == 0,
    decreases n,
{
    if n > 0 {
        lemma_empty_piles_sum((n - 1) as nat);
        assert(Seq::new(n, |j: int| Seq::<Card>::empty()).drop_last() =~= Seq::new((n - 1) as nat, |j: int| Seq::<Card>::empty()));
    }
}

// ---------------------------------------------------------------------------
// The game in play
// ---------------------------------------------------------------------------

/// A FreeCell game in play.
#[derive(Debug)]
pub struct FreecellGame {
    card_count_mode: FreecellCardCountMode,
    tableau: Vec<Vec<Card>>,
    freecells: Vec<Option<Card>>,
    foundations: Vec<Vec<Card>>,
}

impl View for FreecellGame {
    type V = FreecellBoard;

    closed spec fn view(&self) -> FreecellBoard {
        FreecellBoard {
            card_count: card_count_spec(self.card_count_mode),
            tableau: self.tableau@.map_values(|p: Vec<Card>| p@),
            freecells: self.freecells@,
            foundations: self.foundations@.map_values(|p: Vec<Card>| p@),
        }
    }
}

proof fn lemma_pow2_small_mono(e: nat, k: nat)
    requires
        e <= k,
    ensures
        pow2_small(e) <= pow2_small(k),
    decreases k,
{
    if k > e {
        lemma_pow2_small_mono(e, (k - 1) as nat);
    }
}

pub proof fn lemma_pow2_small_bound(e: nat)
    requires
        e <= 8,
    ensures
        pow2_small(e) <= 256,
        e < 8 ==> pow2_small(e) <= 128,
{
    reveal_with_fuel(pow2_small, 9);
    assert(pow2_small(7) == 128);
    assert(pow2_small(8) == 256);
    if e < 8 {
        lemma_pow2_small_mono(e, 7);
    } else {
        lemma_pow2_small_mono(e, 8);
    }
}

/// An empty column is counted among the empty columns.
proof fn lemma_empty_column_counted(t: Seq<Seq<Card>>, i: int)
    requires
        0 <= i < t.len(),
        t[i].len() == 0,
    ensures
        empty_columns(t) >= 1,
    decreases t.len(),
{
    if i < t.len() - 1 {
        lemma_empty_column_counted(t.drop_last(), i);
    }
}

/// Cards in the first `n` piles never exceed the cards in all of them.
pub proof fn lemma_pile_sum_prefix(piles: Seq<Seq<Card>>, n: int)
    requires
        0 <= n <= piles.len(),
    ensures
        pile_card_sum(piles.take(n)) <= pile_card_sum(piles),
        n < piles.len() ==> pile_card_sum(piles.take(n + 1)) == pile_card_sum(piles.take(n)) + piles[n].len(),
    decreases piles.len() - n,
{
    if n < piles.len() {
        assert(piles.take(n + 1).drop_last() =~= piles.take(n));
        lemma_pile_sum_prefix(piles, n + 1);
    } else {
        assert(piles.take(n) =~= piles);
    }
}

/// The number of cards in some piles, when it is known to be small.
fn pile_sum(piles: &Vec<Vec<Card>>, Ghost(bound): Ghost<nat>) -> (r: usize)
    requires
        pile_card_sum(piles@.map_values(|p: Vec<Card>| p@)) <= bound,
        bound <= usize::MAX,
    ensures
        r == pile_card_sum(piles@.map_values(|p: Vec<Card>| p@)),
{
    let ghost v = piles@.map_values(|p: Vec<Card>| p@);
    let mut total: usize = 0;
    let mut i: usize = 0;
    while i < piles.len()
        invariant
            v == piles@.map_values(|p: Vec<Card>| p@),
            pile_card_sum(v) <= bound,
            bound <= usize::MAX,
            i <= piles@.len(),
            total == pile_card_sum(v.take(i as int)),
        decreases piles@.len() - i,
    {
        proof {
            lemma_pile_sum_prefix(v, i as int);
            lemma_pile_sum_prefix(v, i as int + 1);
        }
        assert(v[i as int] == piles@[i as int]@);
        total = total + piles[i].len();
        i += 1;
    }
    assert(v.take(piles@.len() as int) =~= v);
    total
}

/// The number of occupied free cells.
fn occupied_cells(cells: &Vec<Option<Card>>) -> (r: usize)
    ensures
        r == occupied(cells@),
{
    let mut n: usize = 0;
    let mut i: usize = 0;
    while i < cells.len()
        invariant
            i <= cells@.len(),
            n == occupied(cells@.take(i as int)),
            n <= i,
        decreases cells@.len() - i,
    {
        assert(cells@.take(i + 1).drop_last() =~= cells@.take(i as int));
        if cells[i].is_some() {
            n = n + 1;
        }
        i += 1;
    }
    assert(cells@.take(cells@.len() as int) =~= cells@);
    n
}

/// The number of empty columns.
fn empty_column_count(t: &Vec<Vec<Card>>) -> (r: usize)
    ensures
        r == empty_columns(t@.map_values(|p: Vec<Card>| p@)),
{
    let ghost v = t@.map_values(|p: Vec<Card>| p@);
    let mut n: usize = 0;
    let mut i: usize = 0;
    while i < t.len()
        invariant
            v == t@.map_values(|p: Vec<Card>| p@),
            i <= t@.len(),
            n == empty_columns(v.take(i as int)),
            n <= i,
        decreases t@.len() - i,
    {
        assert(v.take(i + 1).drop_last() =~= v.take(i as int));
        assert(v[i as int] == t@[i as int]@);
        if t[i].len() == 0 {
            n = n + 1;
        }
        i += 1;
    }
    assert(v.take(t@.len() as int) =~= v);
    n
}

impl FreecellGame {
    pub fn card_count_mode(&self) -> (r: FreecellCardCountMode)
        ensures
            card_count_spec(r) == self@.card_count,
    {
        self.card_count_mode
    }

    pub fn tableau(&self) -> (r: &Vec<Vec<Card>>)
        ensures
            r@.len() == self@.tableau.len(),
            forall|i: int| 0 <= i < r@.len() ==> (#[trigger] r@[i])@ == self@.tableau[i],
    {
        &self.tableau
    }

    pub fn freecells(&self) -> (r: &Vec<Option<Card>>)
        ensures
            r@ == self@.freecells,
    {
        &self.freecells
    }

    pub fn foundations(&self) -> (r: &Vec<Vec<Card>>)
        ensures
            r@.len() == self@.foundations.len(),
            forall|i: int| 0 <= i < r@.len() ==> (#[trigger] r@[i])@ == self@.foundations[i],
    {
        &self.foundations
    }

    /// The card in free cell `cell`, if any.
    pub fn freecell_card(&self, cell: usize) -> (r: Option<Card>)
        ensures
            r == (if cell < self@.freecells.len() { self@.freecells[cell as int] } else { None }),
    {
        if cell < self.freecells.len() {
            self.freecells[cell]
        } else {
            None
        }
    }

    /// The top card of column `src`, if any.
    pub fn tableau_top(&self, src: usize) -> (r: Option<Card>)
        ensures
            r == (if src < self@.tableau.len() && self@.tableau[src as int].len() > 0 {
                Some(self@.tableau[src as int].last())
            } else {
                None
            }),
    {
        if src < self.tableau.len() && self.tableau[src].len() > 0 {
            let p = &self.tableau[src];
            Some(p[p.len() - 1])
        } else {
            None
        }
    }

    /// Card `idx` of column `src`, if there is one.
    pub fn tableau_card(&self, src: usize, idx: usize) -> (r: Option<Card>)
        ensures
            r == (if src < self@.tableau.len() && idx < self@.tableau[src as int].len() {
                Some(self@.tableau[src as int][idx as int])
            } else {
                None
            }),
    {
        if src < self.tableau.len() && idx < self.tableau[src].len() {
            Some(self.tableau[src][idx])
        } else {
            None
        }
    }

    /// Cards already on the foundations.
    pub fn foundation_card_count(&self) -> (r: usize)
        requires
            fc_ok(self@),
        ensures
            r == pile_card_sum(self@.foundations),
    {
        pile_sum(&self.foundations, Ghost(52))
    }

    pub fn is_won(&self) -> (r: bool)
        requires
            fc_ok(self@),
        ensures
            r == fc_won(self@),
    {
        let n = self.foundation_card_count();
        n == self.card_count_mode.card_count() as usize
    }

    /// An exact copy of the game.
    pub fn duplicate(&self) -> (r: FreecellGame)
        ensures
            r@ == self@,
    {
        let mut tableau: Vec<Vec<Card>> = Vec::new();
        let mut i: usize = 0;
        while i < self.tableau.len()
            invariant
                i <= self.tableau@.len(),
                tableau@.len() == i,
                forall|k: int| 0 <= k < i ==> (#[trigger] tableau@[k])@ == self.tableau@[k]@,
            decreases self.tableau@.len() - i,
        {
            tableau.push(copy_column(&self.tableau[i]));
            i += 1;
        }
        let mut foundations: Vec<Vec<Card>> = Vec::new();
        let mut j: usize = 0;
        while j < self.foundations.len()
            invariant
                j <= self.foundations@.len(),
                foundations@.len() == j,
                forall|k: int| 0 <= k < j ==> (#[trigger] foundations@[k])@ == self.foundations@[k]@,
            decreases self.foundations@.len() - j,
        {
            foundations.push(copy_column(&self.foundations[j]));
            j += 1;
        }
        let mut freecells: Vec<Option<Card>> = Vec::new();
        let mut c: usize = 0;
        while c < self.freecells.len()
            invariant
                c <= self.freecells@.len(),
                freecells@ == self.freecells@.take(c as int),
            decreases self.freecells@.len() - c,
        {
            freecells.push(self.freecells[c]);
            c += 1;
            assert(freecells@ =~= self.freecells@.take(c as int));
        }
        assert(freecells@ =~= self.freecells@);
        let r = FreecellGame { card_count_mode: self.card_count_mode, tableau, freecells, foundations };
        assert(r@.tableau =~= self@.tableau);
        assert(r@.foundations =~= self@.foundations);
        r
    }

    pub fn can_move_freecell_to_foundation(&self, cell: usize) -> (r: bool)
        requires
            fc_ok(self@),
        ensures
            r == can_freecell_to_foundation(self@, cell as int),
    {
        if cell >= 4 {
            return false;
        }
        match self.freecells[cell] {
            Some(c) => {
                let s = c.suit.foundation_index();
                assert(self.foundations@[s as int]@ == self@.foundations[s as int]);
                (c.rank as usize) == self.foundations[s].len() + 1
            },
            None => false,
        }
    }

    pub fn can_move_tableau_top_to_foundation(&self, src: usize) -> (r: bool)
        requires
            fc_ok(self@),
        ensures
            r == can_tableau_to_foundation(self@, src as int),
    {
        match self.tableau_top(src) {
            Some(c) => {
                if src >= 8 {
                    return false;
                }
                let s = c.suit.foundation_index();
                assert(self.foundations@[s as int]@ == self@.foundations[s as int]);
                (c.rank as usize) == self.foundations[s].len() + 1
            },
            None => false,
        }
    }

    /// Whether column `dst` takes `c` on top.
    fn column_accepts(&self, dst: usize, c: Card) -> (r: bool)
        requires
            dst < self@.tableau.len(),
        ensures
            r == accepts_card(self@.tableau[dst as int], c),
    {
        let q = &self.tableau[dst];
        assert(q@ == self@.tableau[dst as int]);
        if q.len() == 0 {
            return true;
        }
        let top = q[q.len() - 1];
        top.color_red() != c.color_red() && (top.rank as u16) == (c.rank as u16) + 1
    }

    pub fn can_move_freecell_to_tableau(&self, cell: usize, dst: usize) -> (r: bool)
        requires
            fc_ok(self@),
        ensures
            r == can_freecell_to_tableau(self@, cell as int, dst as int),
    {
        if cell >= 4 || dst >= 8 {
            return false;
        }
        match self.freecells[cell] {
            Some(c) => self.column_accepts(dst, c),
            None => false,
        }
    }

    pub fn can_move_tableau_top_to_freecell(&self, src: usize, cell: usize) -> (r: bool)
        requires
            fc_ok(self@),
        ensures
            r == can_tableau_to_freecell(self@, src as int, cell as int),
    {
        if src >= 8 || cell >= 4 {
            return false;
        }
        assert(self.tableau@[src as int]@ == self@.tableau[src as int]);
        self.tableau[src].len() > 0 && self.freecells[cell].is_none()
    }

    /// How many cards may move as one run to column `dst`.
    pub fn run_capacity(&self, dst: usize) -> (r: usize)
        requires
            fc_ok(self@),
            dst < 8,
        ensures
            r == move_capacity(self@, dst as int),
    {
        proof {
            lemma_occupied_bound(self@.freecells);
            lemma_empty_columns_bound(self@.tableau);
        }
        let free = 4 - occupied_cells(&self.freecells);
        let empties = empty_column_count(&self.tableau);
        assert(self.tableau@[dst as int]@ == self@.tableau[dst as int]);
        let others = if self.tableau[dst].len() == 0 && empties > 0 { empties - 1 } else { empties };
        proof {
            if self@.tableau[dst as int].len() == 0 {
                lemma_empty_column_counted(self@.tableau, dst as int);
            }
        }
        let mut factor: usize = 1;
        let mut e: usize = 0;
        while e < others
            invariant
                others <= 8,
                e <= others,
                factor == pow2_small(e as nat),
            decreases others - e,
        {
            proof {
                lemma_pow2_small_bound(e as nat);
            }
            factor = factor * 2;
            e += 1;
        }
        proof {
            lemma_pow2_small_bound(e as nat);
        }
        assert((free + 1) * factor <= 5 * 256) by (nonlinear_arith)
            requires
                free <= 4,
                factor <= 256,
        ;
        (free + 1) * factor
    }

    /// Whether the cards of column `src` from `start` on form one run.
    fn run_from(&self, src: usize, start: usize) -> (r: bool)
        requires
            src < self@.tableau.len(),
        ensures
            r == alt_run(self@.tableau[src as int], start as int),
    {
        let p = &self.tableau[src];
        assert(p@ == self@.tableau[src as int]);
        let n = p.len();
        if start >= n {
            return false;
        }
        let mut k = start;
        while k + 1 < n
            invariant
                p@ == self@.tableau[src as int],
                n == p@.len(),
                start <= k < n,
                forall|j: int| start <= j < k ==> stacks_on(#[trigger] p@[j], p@[j + 1]),
            decreases n - k,
        {
            let a = p[k];
            let b = p[k + 1];
            if !(a.color_red() != b.color_red() && (a.rank as u16) == (b.rank as u16) + 1) {
                return false;
            }
            k += 1;
        }
        true
    }

    pub fn can_move_tableau_run_to_tableau(&self, src: usize, start: usize, dst: usize) -> (r: bool)
        requires
            fc_ok(self@),
        ensures
            r == can_run_to_tableau(self@, src as int, start as int, dst as int),
    {
        if src >= 8 || dst >= 8 || src == dst {
            return false;
        }
        if !self.run_from(src, start) {
            return false;
        }
        let lead = self.tableau[src][start];
        assert(self.tableau@[src as int]@ == self@.tableau[src as int]);
        if !self.column_accepts(dst, lead) {
            return false;
        }
        self.tableau[src].len() - start <= self.run_capacity(dst)
    }

    pub fn move_freecell_to_foundation(&mut self, cell: usize) -> (moved: bool)
        requires
            fc_ok(old(self)@),
        ensures
            moved == can_freecell_to_foundation(old(self)@, cell as int),
            moved ==> final(self)@ == freecell_to_foundation(old(self)@, cell as int),
            !moved ==> final(self)@ == old(self)@,
            fc_ok(final(self)@),
    {
        if !self.can_move_freecell_to_foundation(cell) {
            return false;
        }
        proof {
            lemma_freecell_to_foundation_ok(self@, cell as int);
        }
        let ghost b = self@;
        let c = self.freecells[cell].unwrap();
        let s = c.suit.foundation_index();
        let mut f = copy_column(&self.foundations[s]);
        f.push(c);
        self.foundations.set(s, f);
        self.freecells.set(cell, None);
        assert(self@.foundations =~= freecell_to_foundation(b, cell as int).foundations);
        assert(self@.tableau =~= b.tableau);
        true
    }

    pub fn move_tableau_top_to_foundation(&mut self, src: usize) -> (moved: bool)
        requires
            fc_ok(old(self)@),
        ensures
            moved == can_tableau_to_foundation(old(self)@, src as int),
            moved ==> final(self)@ == tableau_to_foundation(old(self)@, src as int),
            !moved ==> final(self)@ == old(self)@,
            fc_ok(final(self)@),
    {
        if !self.can_move_tableau_top_to_foundation(src) {
            return false;
        }
        proof {
            lemma_tableau_to_foundation_ok(self@, src as int);
        }
        let ghost b = self@;
        let n = self.tableau[src].len();
        let c = self.tableau[src][n - 1];
        let rest = copy_prefix(&self.tableau[src], n - 1);
        let s = c.suit.foundation_index();
        let mut f = copy_column(&self.foundations[s]);
        f.push(c);
        self.foundations.set(s, f);
        self.tableau.set(src, rest);
        assert(self@.foundations =~= tableau_to_foundation(b, src as int).foundations);
        assert(self@.tableau =~= tableau_to_foundation(b, src as int).tableau);
        true
    }

    pub fn move_freecell_to_tableau(&mut self, cell: usize, dst: usize) -> (moved: bool)
        requires
            fc_ok(old(self)@),
        ensures
            moved == can_freecell_to_tableau(old(self)@, cell as int, dst as int),
            moved ==> final(self)@ == freecell_to_tableau(old(self)@, cell as int, dst as int),
            !moved ==> final(self)@ == old(self)@,
            fc_ok(final(self)@),
    {
        if !self.can_move_freecell_to_tableau(cell, dst) {
            return false;
        }
        proof {
            lemma_freecell_to_tableau_ok(self@, cell as int, dst as int);
        }
        let ghost b = self@;
        let c = self.freecells[cell].unwrap();
        let mut q = copy_column(&self.tableau[dst]);
        q.push(c);
        self.tableau.set(dst, q);
        self.freecells.set(cell, None);
        assert(self@.tableau =~= freecell_to_tableau(b, cell as int, dst as int).tableau);
        assert(self@.foundations =~= b.foundations);
        true
    }

    pub fn move_tableau_top_to_freecell(&mut self, src: usize, cell: usize) -> (moved: bool)
        requires
            fc_ok(old(self)@),
        ensures
            moved == can_tableau_to_freecell(old(self)@, src as int, cell as int),
            moved ==> final(self)@ == tableau_to_freecell(old(self)@, src as int, cell as int),
            !moved ==> final(self)@ == old(self)@,
            fc_ok(final(self)@),
    {
        if !self.can_move_tableau_top_to_freecell(src, cell) {
            return false;
        }
        proof {
            lemma_tableau_to_freecell_ok(self@, src as int, cell as int);
        }
        let ghost b = self@;
        let n = self.tableau[src].len();
        let c = self.tableau[src][n - 1];
        let rest = copy_prefix(&self.tableau[src], n - 1);
        self.tableau.set(src, rest);
        self.freecells.set(cell, Some(c));
        assert(self@.tableau =~= tableau_to_freecell(b, src as int, cell as int).tableau);
        assert(self@.foundations =~= b.foundations);
        true
    }

    pub fn move_tableau_run_to_tableau(&mut self, src: usize, start: usize, dst: usize) -> (moved: bool)
        requires
            fc_ok(old(self)@),
        ensures
            moved == can_run_to_tableau(old(self)@, src as int, start as int, dst as int),
            moved ==> final(self)@ == run_to_tableau(old(self)@, src as int, start as int, dst as int),
            !moved ==> final(self)@ == old(self)@,
            fc_ok(final(self)@),
    {
        if !self.can_move_tableau_run_to_tableau(src, start, dst) {
            return false;
        }
        proof {
            lemma_run_to_tableau_ok(self@, src as int, start as int, dst as int);
        }
        let ghost b = self@;
        let n = self.tableau[src].len();
        let kept = copy_prefix(&self.tableau[src], start);
        let mut q = copy_column(&self.tableau[dst]);
        let mut k = start;
        while k < n
            invariant
                self@ == b,
                fc_ok(b),
                src < 8,
                dst < 8,
                n == b.tableau[src as int].len(),
                start <= k <= n,
                q@ == b.tableau[dst as int] + b.tableau[src as int].subrange(start as int, k as int),
            decreases n - k,
        {
            assert(self.tableau@[src as int]@ == b.tableau[src as int]);
            q.push(self.tableau[src][k]);
            k += 1;
            assert(q@ =~= b.tableau[dst as int] + b.tableau[src as int].subrange(start as int, k as int));
        }
        self.tableau.set(src, kept);
        self.tableau.set(dst, q);
        assert(self@.tableau =~= run_to_tableau(b, src as int, start as int, dst as int).tableau);
        assert(self@.foundations =~= b.foundations);
        true
    }

    /// A fresh deal: `card_count_mode`'s cards shuffled by a generator
    /// seeded with `seed` and dealt one by one across the eight columns.
    pub fn new_with_seed_and_card_count(seed: u64, card_count_mode: FreecellCardCountMode) -> (r: FreecellGame)
        ensures
            r@ == freecell_deal(seed, card_count_mode),
            fc_ok(r@),
    {
        let count = card_count_mode.card_count() as usize;
        let mut deck: Vec<Card> = Vec::new();
        let mut k: usize = 0;
        while k < count
            invariant
                count == card_count_spec(card_count_mode),
                k <= count,
                deck@ == fresh_freecell_deck(count as nat).take(k as int),
            decreases count - k,
        {
            let suit = match k / 13 {
                0 => Suit::Clubs,
                1 => Suit::Diamonds,
                2 => Suit::Hearts,
                _ => Suit::Spades,
            };
            deck.push(Card { suit, rank: (k % 13 + 1) as u8, face_up: true });
            k += 1;
            assert(deck@ =~= fresh_freecell_deck(count as nat).take(k as int));
        }
        assert(deck@ =~= fresh_freecell_deck(count as nat));
        let ghost target = shuffle_from(fresh_freecell_deck(count as nat), initial_rng_state(seed), (count - 1) as nat);
        let mut state: u64 = seed ^ 0x9E37_79B9_7F4A_7C15u64;
        if state == 0 {
            state = 0x9E37_79B9_7F4A_7C15u64;
        }
        let mut i: usize = count - 1;
        while i > 0
            invariant
                count == card_count_spec(card_count_mode),
                i < count,
                deck@.len() == count,
                forall|x: int| 0 <= x < count ==> rank_ok(#[trigger] deck@[x]),
                shuffle_from(deck@, state, i as nat) == target,
            decreases i,
        {
            let ghost before = deck@;
            let roll = next_u64(&mut state);
            let j = (roll % ((i as u64) + 1)) as usize;
            let a = deck[i];
            let b = deck[j];
            deck.set(i, b);
            deck.set(j, a);
            assert(deck@ == before.update(i as int, before[j as int]).update(j as int, before[i as int]));
            assert(j as nat == roll as nat % (i as nat + 1));
            i -= 1;
        }
        assert(deck@ == target);
        let mut tableau: Vec<Vec<Card>> = Vec::new();
        let mut c: usize = 0;
        while c < 8
            invariant
                c <= 8,
                tableau@.len() == c,
                forall|x: int| 0 <= x < c ==> (#[trigger] tableau@[x])@ == Seq::<Card>::empty(),
            decreases 8 - c,
        {
            let v: Vec<Card> = Vec::new();
            assert(v@ =~= Seq::<Card>::empty());
            tableau.push(v);
            c += 1;
        }
        assert(tableau@.map_values(|p: Vec<Card>| p@) =~= deal_round_robin(target, 0));
        proof {
            lemma_empty_piles_sum(8);
        }
        let mut n: usize = 0;
        while n < count
            invariant
                count == card_count_spec(card_count_mode),
                deck@ == target,
                deck@.len() == count,
                forall|x: int| 0 <= x < count ==> rank_ok(#[trigger] deck@[x]),
                n <= count,
                tableau@.len() == 8,
                tableau@.map_values(|p: Vec<Card>| p@) == deal_round_robin(target, n as nat),
                pile_card_sum(deal_round_robin(target, n as nat)) == n,
                forall|i: int, x: int| 0 <= i < 8 && 0 <= x < tableau@[i]@.len() ==> rank_ok(#[trigger] tableau@[i]@[x]),
            decreases count - n,
        {
            let j = n % 8;
            let ghost t = deal_round_robin(target, n as nat);
            let mut col = copy_column(&tableau[j]);
            col.push(deck[n]);
            proof {
                lemma_pile_card_sum_update(t, j as int, col@);
            }
            tableau.set(j, col);
            n += 1;
            assert(tableau@.map_values(|p: Vec<Card>| p@) =~= deal_round_robin(target, n as nat));
        }
        let r = FreecellGame {
            card_count_mode,
            tableau,
            freecells: vec![None, None, None, None],
            foundations: vec![Vec::new(), Vec::new(), Vec::new(), Vec::new()],
        };
        assert(r@.freecells =~= seq![None, None, None, None]);
        assert(r@.foundations =~= Seq::new(4, |i: int| Seq::<Card>::empty()));
        proof {
            lemma_empty_piles_sum(4);
            reveal_with_fuel(occupied, 5);
        }
        r
    }

    /// A game laid out from explicit columns, free cells and foundations.
    pub fn debug_new(
        card_count_mode: FreecellCardCountMode,
        tableau: Vec<Vec<Card>>,
        freecells: Vec<Option<Card>>,
        foundations: Vec<Vec<Card>>,
    ) -> (r: FreecellGame)
        ensures
            r@.card_count == card_count_spec(card_count_mode),
            r@.tableau == tableau@.map_values(|p: Vec<Card>| p@),
            r@.freecells == freecells@,
            r@.foundations == foundations@.map_values(|p: Vec<Card>| p@),
    {
        FreecellGame { card_count_mode, tableau, freecells, foundations }
    }
}

} // verus!
