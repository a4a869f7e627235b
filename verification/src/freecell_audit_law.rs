//! Why legal FreeCell play never trips the board audit: the audit passes
//! exactly when every card is face up, no card lies in two places and the
//! cards add up to the deal's count (foundations being in order), and the
//! moves only carry cards from one place to another.

use vstd::prelude::*;
use crate::board_audit::{
    audit_items, cell_items, first_flaw, freecell_audit_spec, item_card, item_flaw, pile_items, piles_items, same_card,
    AuditItem,
};
use crate::cards::{suit_index_spec, Card};
use crate::freecell::{
    can_freecell_to_foundation, can_freecell_to_tableau, can_run_to_tableau, can_tableau_to_foundation,
    can_tableau_to_freecell, foundation_ok, freecell_to_foundation, freecell_to_tableau, push_foundation, run_to_tableau,
    suit_of_index, tableau_to_foundation, tableau_to_freecell, fc_ok, lemma_freecell_to_foundation_ok,
    lemma_freecell_to_tableau_ok, lemma_run_to_tableau_ok, lemma_tableau_to_foundation_ok, lemma_tableau_to_freecell_ok,
    FreecellBoard,
};
use crate::freecell_find::fc_replay;
use crate::freecell::{card_count_spec, deal_round_robin, fresh_freecell_deck, freecell_deal, FreecellCardCountMode};
use crate::spider::{initial_rng_state, shuffle_from};
use crate::freecell_action::FreecellPlannerAction;
use crate::freecell_wand::{fc_apply, fc_legal};
use vstd::multiset::Multiset;

verus! {

/// The cards of the piles, pile after pile.
pub open spec fn piles_cards(piles: Seq<Seq<Card>>) -> Seq<Card>
    decreases piles.len(),
{
    if piles.len() == 0 {
        Seq::empty()
    } else {
        piles_cards(piles.drop_last()) + piles.last()
    }
}

pub open spec fn opt_cards(o: Option<Card>) -> Seq<Card> {
    match o {
        Some(c) => seq![c],
        None => Seq::empty(),
    }
}

/// The cards in the free cells, cell after cell.
pub open spec fn cells_cards(cells: Seq<Option<Card>>) -> Seq<Card>
    decreases cells.len(),
{
    if cells.len() == 0 {
        Seq::empty()
    } else {
        cells_cards(cells.drop_last()) + opt_cards(cells.last())
    }
}

/// Every card of a FreeCell board, in the order the audit meets them.
pub open spec fn board_cards(b: FreecellBoard) -> Seq<Card> {
    piles_cards(b.foundations) + cells_cards(b.freecells) + piles_cards(b.tableau)
}

pub open spec fn item_cards(items: Seq<AuditItem>) -> Seq<Card> {
    items.map_values(|it: AuditItem| item_card(it))
}

proof fn lemma_item_cards_add(a: Seq<AuditItem>, b: Seq<AuditItem>)
    ensures
        item_cards(a + b) == item_cards(a) + item_cards(b),
{
    assert(item_cards(a + b) =~= item_cards(a) + item_cards(b));
}

proof fn lemma_piles_items_cards(piles: Seq<Seq<Card>>, foundations: bool)
    ensures
        item_cards(piles_items(piles, foundations)) == piles_cards(piles),
    decreases piles.len(),
{
    if piles.len() > 0 {
        lemma_piles_items_cards(piles.drop_last(), foundations);
        let slot = if foundations { Some(piles.len() - 1) } else { None };
        lemma_item_cards_add(piles_items(piles.drop_last(), foundations), pile_items(piles.last(), slot));
        assert(item_cards(pile_items(piles.last(), slot)) =~= piles.last());
    }
}

proof fn lemma_cell_items_cards(cells: Seq<Option<Card>>)
    ensures
        item_cards(cell_items(cells)) == cells_cards(cells),
    decreases cells.len(),
{
    if cells.len() > 0 {
        lemma_cell_items_cards(cells.drop_last());
        let tail = match cells.last() {
            Some(c) => seq![AuditItem::Cell { card: c }],
            None => Seq::<AuditItem>::empty(),
        };
        lemma_item_cards_add(cell_items(cells.drop_last()), tail);
        assert(item_cards(tail) =~= opt_cards(cells.last()));
    }
}

/// The audit meets the board's cards.
proof fn lemma_audit_items_cards(b: FreecellBoard)
    ensures
        item_cards(audit_items(b)) == board_cards(b),
{
    lemma_piles_items_cards(b.foundations, true);
    lemma_cell_items_cards(b.freecells);
    lemma_piles_items_cards(b.tableau, false);
    lemma_item_cards_add(piles_items(b.foundations, true), cell_items(b.freecells));
    lemma_item_cards_add(piles_items(b.foundations, true) + cell_items(b.freecells), piles_items(b.tableau, false));
}

/// No card of the items has a flaw of its own.
pub open spec fn items_sound(items: Seq<AuditItem>) -> bool {
    forall|i: int| 0 <= i < items.len() ==> (#[trigger] item_flaw(items[i])) is None
}

/// No two items hold the same card.
pub open spec fn items_distinct(items: Seq<AuditItem>) -> bool {
    forall|i: int, j: int|
        0 <= i < j < items.len() ==> !same_card(item_card(#[trigger] items[i]), item_card(#[trigger] items[j]))
}

/// The audit finds no flaw among some cards exactly when none has a flaw
/// of its own and no card is met twice.
proof fn lemma_first_flaw_none(items: Seq<AuditItem>)
    ensures
        first_flaw(items) is None <==> items_sound(items) && items_distinct(items),
    decreases items.len(),
{
    if items.len() > 0 {
        let init = items.drop_last();
        lemma_first_flaw_none(init);
        assert forall|i: int| 0 <= i < init.len() implies #[trigger] init[i] == items[i] by {}
        if items_sound(items) && items_distinct(items) {
            assert(items_sound(init));
            assert(items_distinct(init)) by {
                assert forall|i: int, j: int| 0 <= i < j < init.len() implies !same_card(
                    item_card(#[trigger] init[i]),
                    item_card(#[trigger] init[j]),
                ) by {
                    assert(init[i] == items[i] && init[j] == items[j]);
                }
            }
            assert(item_flaw(items[items.len() - 1]) is None);
            if crate::board_audit::met_before(init, item_card(items.last())) {
                let j = choose|j: int| 0 <= j < init.len() && same_card(item_card(#[trigger] init[j]), item_card(items.last()));
                assert(init[j] == items[j]);
                assert(!same_card(item_card(items[j]), item_card(items[items.len() - 1])));
            }
        }
        if first_flaw(items) is None {
            assert forall|i: int| 0 <= i < items.len() implies (#[trigger] item_flaw(items[i])) is None by {
                if i < init.len() {
                    assert(init[i] == items[i]);
                }
            }
            assert forall|i: int, j: int| 0 <= i < j < items.len() implies !same_card(
                item_card(#[trigger] items[i]),
                item_card(#[trigger] items[j]),
            ) by {
                assert(init[i] == items[i]);
                if j < init.len() {
                    assert(init[j] == items[j]);
                } else {
                    assert(!crate::board_audit::met_before(init, item_card(items.last())));
                    if same_card(item_card(items[i]), item_card(items[j])) {
                        assert(same_card(item_card(init[i]), item_card(items.last())));
                    }
                }
            }
        }
    }
}

/// Every card is face up.
pub open spec fn all_face_up(cs: Seq<Card>) -> bool {
    forall|i: int| 0 <= i < cs.len() ==> (#[trigger] cs[i]).face_up
}

/// Foundation `i` (of at most four) holds its suit from the ace up.
pub open spec fn foundations_in_order(f: Seq<Seq<Card>>) -> bool {
    &&& f.len() <= 4
    &&& forall|i: int| 0 <= i < f.len() ==> foundation_ok(#[trigger] f[i], i)
}

/// Every card is face up, lies in one place only, and the cards add up to
/// the deal's count.
pub open spec fn board_clean(b: FreecellBoard) -> bool {
    &&& all_face_up(board_cards(b))
    &&& board_cards(b).no_duplicates()
    &&& board_cards(b).len() == b.card_count
}

proof fn lemma_items_sound_add(a: Seq<AuditItem>, b: Seq<AuditItem>)
    requires
        items_sound(a),
        items_sound(b),
    ensures
        items_sound(a + b),
{
    assert forall|i: int| 0 <= i < (a + b).len() implies (#[trigger] item_flaw((a + b)[i])) is None by {
        if i < a.len() {
            assert((a + b)[i] == a[i]);
        } else {
            assert((a + b)[i] == b[i - a.len()]);
        }
    }
}

proof fn lemma_face_up_add(a: Seq<Card>, b: Seq<Card>)
    ensures
        all_face_up(a + b) ==> all_face_up(a) && all_face_up(b),
{
    if all_face_up(a + b) {
        assert forall|i: int| 0 <= i < a.len() implies (#[trigger] a[i]).face_up by {
            assert((a + b)[i] == a[i]);
        }
        assert forall|i: int| 0 <= i < b.len() implies (#[trigger] b[i]).face_up by {
            assert((a + b)[a.len() + i] == b[i]);
        }
    }
}

proof fn lemma_pile_items_sound(piles: Seq<Seq<Card>>, foundations: bool)
    requires
        all_face_up(piles_cards(piles)),
        foundations ==> foundations_in_order(piles),
    ensures
        items_sound(piles_items(piles, foundations)),
    decreases piles.len(),
{
    if piles.len() > 0 {
        let init = piles.drop_last();
        let p = piles.last();
        lemma_face_up_add(piles_cards(init), p);
        if foundations {
            assert forall|i: int| 0 <= i < init.len() implies foundation_ok(#[trigger] init[i], i) by {
                assert(init[i] == piles[i]);
            }
            assert(foundation_ok(piles[piles.len() - 1], piles.len() - 1));
        }
        lemma_pile_items_sound(init, foundations);
        let slot = if foundations { Some(piles.len() - 1) } else { None };
        let tail = pile_items(p, slot);
        assert forall|k: int| 0 <= k < tail.len() implies (#[trigger] item_flaw(tail[k])) is None by {
            assert(p[k].face_up);
            if foundations {
                let i = piles.len() - 1;
                assert(p[k].suit == suit_of_index(i) && p[k].rank == k + 1);
                assert(suit_index_spec(suit_of_index(i)) == i);
            }
        }
        lemma_items_sound_add(piles_items(init, foundations), tail);
    }
}

proof fn lemma_cell_items_sound(cells: Seq<Option<Card>>)
    requires
        all_face_up(cells_cards(cells)),
    ensures
        items_sound(cell_items(cells)),
    decreases cells.len(),
{
    if cells.len() > 0 {
        let init = cells.drop_last();
        lemma_face_up_add(cells_cards(init), opt_cards(cells.last()));
        lemma_cell_items_sound(init);
        let tail = match cells.last() {
            Some(c) => seq![AuditItem::Cell { card: c }],
            None => Seq::<AuditItem>::empty(),
        };
        assert forall|k: int| 0 <= k < tail.len() implies (#[trigger] item_flaw(tail[k])) is None by {
            assert(opt_cards(cells.last())[0].face_up);
        }
        lemma_items_sound_add(cell_items(init), tail);
    }
}

/// A board passes the audit when it is clean and its foundations are in order.
proof fn lemma_clean_passes(b: FreecellBoard)
    requires
        foundations_in_order(b.foundations),
        board_clean(b),
    ensures
        freecell_audit_spec(b) is None,
{
    let items = audit_items(b);
    let cards = board_cards(b);
    lemma_audit_items_cards(b);
    let fc = piles_cards(b.foundations);
    let cc = cells_cards(b.freecells);
    let tc = piles_cards(b.tableau);
    lemma_face_up_add(fc + cc, tc);
    lemma_face_up_add(fc, cc);
    lemma_pile_items_sound(b.foundations, true);
    lemma_cell_items_sound(b.freecells);
    lemma_pile_items_sound(b.tableau, false);
    lemma_items_sound_add(piles_items(b.foundations, true), cell_items(b.freecells));
    lemma_items_sound_add(piles_items(b.foundations, true) + cell_items(b.freecells), piles_items(b.tableau, false));
    assert forall|i: int, j: int| 0 <= i < j < items.len() implies !same_card(
        item_card(#[trigger] items[i]),
        item_card(#[trigger] items[j]),
    ) by {
        assert(item_cards(items)[i] == item_card(items[i]));
        assert(item_cards(items)[j] == item_card(items[j]));
        assert(cards[i] != cards[j]);
        assert(cards[i].face_up && cards[j].face_up);
    }
    lemma_first_flaw_none(items);
}

/// A board that passes the audit is clean.
proof fn lemma_passing_is_clean(b: FreecellBoard)
    requires
        freecell_audit_spec(b) is None,
    ensures
        board_clean(b),
{
    let items = audit_items(b);
    let cards = board_cards(b);
    lemma_audit_items_cards(b);
    lemma_first_flaw_none(items);
    assert forall|i: int| 0 <= i < cards.len() implies (#[trigger] cards[i]).face_up by {
        assert(item_cards(items)[i] == item_card(items[i]));
        assert(item_flaw(items[i]) is None);
    }
    assert forall|i: int, j: int| 0 <= i < cards.len() && 0 <= j < cards.len() && i != j implies cards[i]
        != cards[j] by {
        assert(item_cards(items)[i] == item_card(items[i]));
        assert(item_cards(items)[j] == item_card(items[j]));
        if i < j {
            assert(!same_card(item_card(items[i]), item_card(items[j])));
        } else {
            assert(!same_card(item_card(items[j]), item_card(items[i])));
        }
    }
}

// ---------------------------------------------------------------------------
// Moves carry cards, they neither make nor lose any
// ---------------------------------------------------------------------------

broadcast use vstd::multiset::group_multiset_axioms;

proof fn lemma_ms_concat(a: Seq<Card>, b: Seq<Card>)
    ensures
        (a + b).to_multiset() == a.to_multiset().add(b.to_multiset()),
{
    vstd::seq_lib::lemma_multiset_commutative(a, b);
}

/// The cards of a board, counted: foundations, cells and columns.
pub open spec fn board_ms(b: FreecellBoard) -> Multiset<Card> {
    piles_cards(b.foundations).to_multiset().add(cells_cards(b.freecells).to_multiset()).add(
        piles_cards(b.tableau).to_multiset(),
    )
}

proof fn lemma_board_ms(b: FreecellBoard)
    ensures
        board_cards(b).to_multiset() == board_ms(b),
{
    let f = piles_cards(b.foundations);
    let c = cells_cards(b.freecells);
    let t = piles_cards(b.tableau);
    lemma_ms_concat(f + c, t);
    lemma_ms_concat(f, c);
}

/// Replacing pile `i` by `q` trades its cards for those of `q`.
proof fn lemma_piles_update_ms(piles: Seq<Seq<Card>>, i: int, q: Seq<Card>)
    requires
        0 <= i < piles.len(),
    ensures
        piles_cards(piles.update(i, q)).to_multiset().add(piles[i].to_multiset()) == piles_cards(
            piles,
        ).to_multiset().add(q.to_multiset()),
    decreases piles.len(),
{
    let u = piles.update(i, q);
    let init = piles.drop_last();
    lemma_ms_concat(piles_cards(init), piles.last());
    if i == piles.len() - 1 {
        assert(u.drop_last() =~= init);
        assert(piles_cards(u) == piles_cards(init) + q);
        lemma_ms_concat(piles_cards(init), q);
        assert(piles_cards(u).to_multiset().add(piles[i].to_multiset()) =~= piles_cards(piles).to_multiset().add(
            q.to_multiset(),
        ));
    } else {
        assert(u.drop_last() =~= init.update(i, q));
        lemma_piles_update_ms(init, i, q);
        assert(u.last() == piles.last());
        assert(piles_cards(u) == piles_cards(init.update(i, q)) + piles.last());
        lemma_ms_concat(piles_cards(init.update(i, q)), piles.last());
        assert(init[i] == piles[i]);
        let a = piles_cards(init.update(i, q)).to_multiset();
        let ih_l = a.add(init[i].to_multiset());
        let ih_r = piles_cards(init).to_multiset().add(q.to_multiset());
        assert forall|c: Card| #[trigger] piles_cards(u).to_multiset().add(piles[i].to_multiset()).count(c)
            == piles_cards(piles).to_multiset().add(q.to_multiset()).count(c) by {
            assert(ih_l.count(c) == ih_r.count(c));
        }
        assert(piles_cards(u).to_multiset().add(piles[i].to_multiset()) =~= piles_cards(piles).to_multiset().add(
            q.to_multiset(),
        ));
    }
}

/// Replacing cell `i` by `x` trades its card for `x`.
proof fn lemma_cells_update_ms(cells: Seq<Option<Card>>, i: int, x: Option<Card>)
    requires
        0 <= i < cells.len(),
    ensures
        cells_cards(cells.update(i, x)).to_multiset().add(opt_cards(cells[i]).to_multiset()) == cells_cards(
            cells,
        ).to_multiset().add(opt_cards(x).to_multiset()),
    decreases cells.len(),
{
    let u = cells.update(i, x);
    let init = cells.drop_last();
    lemma_ms_concat(cells_cards(init), opt_cards(cells.last()));
    if i == cells.len() - 1 {
        assert(u.drop_last() =~= init);
        assert(cells_cards(u) == cells_cards(init) + opt_cards(x));
        lemma_ms_concat(cells_cards(init), opt_cards(x));
        assert(cells_cards(u).to_multiset().add(opt_cards(cells[i]).to_multiset()) =~= cells_cards(
            cells,
        ).to_multiset().add(opt_cards(x).to_multiset()));
    } else {
        assert(u.drop_last() =~= init.update(i, x));
        lemma_cells_update_ms(init, i, x);
        assert(u.last() == cells.last());
        assert(cells_cards(u) == cells_cards(init.update(i, x)) + opt_cards(cells.last()));
        lemma_ms_concat(cells_cards(init.update(i, x)), opt_cards(cells.last()));
        assert(init[i] == cells[i]);
        let ih_l = cells_cards(init.update(i, x)).to_multiset().add(opt_cards(init[i]).to_multiset());
        let ih_r = cells_cards(init).to_multiset().add(opt_cards(x).to_multiset());
        assert forall|c: Card| #[trigger] cells_cards(u).to_multiset().add(opt_cards(cells[i]).to_multiset()).count(c)
            == cells_cards(cells).to_multiset().add(opt_cards(x).to_multiset()).count(c) by {
            assert(ih_l.count(c) == ih_r.count(c));
        }
        assert(cells_cards(u).to_multiset().add(opt_cards(cells[i]).to_multiset()) =~= cells_cards(
            cells,
        ).to_multiset().add(opt_cards(x).to_multiset()));
    }
}

/// The top card of a column and the rest hold the column's cards.
proof fn lemma_top_ms(p: Seq<Card>)
    requires
        p.len() > 0,
    ensures
        p.to_multiset() == p.drop_last().to_multiset().add(opt_cards(Some(p.last())).to_multiset()),
{
    assert(p =~= p.drop_last() + seq![p.last()]);
    lemma_ms_concat(p.drop_last(), seq![p.last()]);
}

proof fn lemma_none_ms()
    ensures
        opt_cards(None).to_multiset() == Multiset::<Card>::empty(),
{
    broadcast use vstd::seq_lib::group_to_multiset_ensures;

    let e = opt_cards(None);
    assert(e =~= Seq::<Card>::empty());
    assert forall|c: Card| e.to_multiset().count(c) == 0 by {
        assert(!e.contains(c));
    }
    assert(e.to_multiset() =~= Multiset::<Card>::empty());
}

proof fn lemma_tableau_to_freecell_ms(b: FreecellBoard, src: int, cell: int)
    requires
        b.tableau.len() == 8,
        b.freecells.len() == 4,
        can_tableau_to_freecell(b, src, cell),
    ensures
        board_ms(tableau_to_freecell(b, src, cell)) == board_ms(b),
{
    let p = b.tableau[src];
    let n = tableau_to_freecell(b, src, cell);
    lemma_piles_update_ms(b.tableau, src, p.drop_last());
    lemma_cells_update_ms(b.freecells, cell, Some(p.last()));
    lemma_top_ms(p);
    lemma_none_ms();
    let t1 = piles_cards(n.tableau).to_multiset().add(p.to_multiset());
    let t2 = piles_cards(b.tableau).to_multiset().add(p.drop_last().to_multiset());
    let c1 = cells_cards(n.freecells).to_multiset().add(opt_cards(b.freecells[cell]).to_multiset());
    let c2 = cells_cards(b.freecells).to_multiset().add(opt_cards(Some(p.last())).to_multiset());
    assert forall|c: Card| #[trigger] board_ms(n).count(c) == board_ms(b).count(c) by {
        assert(t1.count(c) == t2.count(c));
        assert(c1.count(c) == c2.count(c));
        assert(p.to_multiset().count(c) == p.drop_last().to_multiset().add(opt_cards(Some(p.last())).to_multiset()).count(c));
        assert(opt_cards(b.freecells[cell]).to_multiset().count(c) == 0);
    }
    assert(board_ms(n) =~= board_ms(b));
}

proof fn lemma_freecell_to_tableau_ms(b: FreecellBoard, cell: int, dst: int)
    requires
        b.tableau.len() == 8,
        b.freecells.len() == 4,
        can_freecell_to_tableau(b, cell, dst),
    ensures
        board_ms(freecell_to_tableau(b, cell, dst)) == board_ms(b),
{
    let c = b.freecells[cell]->0;
    let q = b.tableau[dst].push(c);
    let n = freecell_to_tableau(b, cell, dst);
    lemma_piles_update_ms(b.tableau, dst, q);
    lemma_cells_update_ms(b.freecells, cell, None);
    assert(q.drop_last() =~= b.tableau[dst]);
    lemma_top_ms(q);
    lemma_none_ms();
    let t1 = piles_cards(n.tableau).to_multiset().add(b.tableau[dst].to_multiset());
    let t2 = piles_cards(b.tableau).to_multiset().add(q.to_multiset());
    let c1 = cells_cards(n.freecells).to_multiset().add(opt_cards(b.freecells[cell]).to_multiset());
    let c2 = cells_cards(b.freecells).to_multiset().add(opt_cards(None).to_multiset());
    assert forall|x: Card| #[trigger] board_ms(n).count(x) == board_ms(b).count(x) by {
        assert(t1.count(x) == t2.count(x));
        assert(c1.count(x) == c2.count(x));
        assert(q.to_multiset().count(x) == b.tableau[dst].to_multiset().add(opt_cards(Some(c)).to_multiset()).count(x));
    }
    assert(board_ms(n) =~= board_ms(b));
}

proof fn lemma_freecell_to_foundation_ms(b: FreecellBoard, cell: int)
    requires
        b.foundations.len() == 4,
        b.freecells.len() == 4,
        can_freecell_to_foundation(b, cell),
    ensures
        board_ms(freecell_to_foundation(b, cell)) == board_ms(b),
{
    let c = b.freecells[cell]->0;
    let s = suit_index_spec(c.suit) as int;
    let q = b.foundations[s].push(c);
    let n = freecell_to_foundation(b, cell);
    assert(n.foundations == b.foundations.update(s, q));
    lemma_piles_update_ms(b.foundations, s, q);
    lemma_cells_update_ms(b.freecells, cell, None);
    assert(q.drop_last() =~= b.foundations[s]);
    lemma_top_ms(q);
    lemma_none_ms();
    let f1 = piles_cards(n.foundations).to_multiset().add(b.foundations[s].to_multiset());
    let f2 = piles_cards(b.foundations).to_multiset().add(q.to_multiset());
    let c1 = cells_cards(n.freecells).to_multiset().add(opt_cards(b.freecells[cell]).to_multiset());
    let c2 = cells_cards(b.freecells).to_multiset().add(opt_cards(None).to_multiset());
    assert forall|x: Card| #[trigger] board_ms(n).count(x) == board_ms(b).count(x) by {
        assert(f1.count(x) == f2.count(x));
        assert(c1.count(x) == c2.count(x));
        assert(q.to_multiset().count(x) == b.foundations[s].to_multiset().add(opt_cards(Some(c)).to_multiset()).count(
            x,
        ));
    }
    assert(board_ms(n) =~= board_ms(b));
}

proof fn lemma_tableau_to_foundation_ms(b: FreecellBoard, src: int)
    requires
        b.foundations.len() == 4,
        b.tableau.len() == 8,
        can_tableau_to_foundation(b, src),
    ensures
        board_ms(tableau_to_foundation(b, src)) == board_ms(b),
{
    let p = b.tableau[src];
    let c = p.last();
    let s = suit_index_spec(c.suit) as int;
    let q = b.foundations[s].push(c);
    let n = tableau_to_foundation(b, src);
    assert(n.foundations == b.foundations.update(s, q));
    lemma_piles_update_ms(b.foundations, s, q);
    lemma_piles_update_ms(b.tableau, src, p.drop_last());
    assert(q.drop_last() =~= b.foundations[s]);
    lemma_top_ms(q);
    lemma_top_ms(p);
    let f1 = piles_cards(n.foundations).to_multiset().add(b.foundations[s].to_multiset());
    let f2 = piles_cards(b.foundations).to_multiset().add(q.to_multiset());
    let t1 = piles_cards(n.tableau).to_multiset().add(p.to_multiset());
    let t2 = piles_cards(b.tableau).to_multiset().add(p.drop_last().to_multiset());
    assert forall|x: Card| #[trigger] board_ms(n).count(x) == board_ms(b).count(x) by {
        assert(f1.count(x) == f2.count(x));
        assert(t1.count(x) == t2.count(x));
        assert(q.to_multiset().count(x) == b.foundations[s].to_multiset().add(opt_cards(Some(c)).to_multiset()).count(
            x,
        ));
        assert(p.to_multiset().count(x) == p.drop_last().to_multiset().add(opt_cards(Some(c)).to_multiset()).count(x));
    }
    assert(board_ms(n) =~= board_ms(b));
}

proof fn lemma_run_to_tableau_ms(b: FreecellBoard, src: int, start: int, dst: int)
    requires
        b.tableau.len() == 8,
        can_run_to_tableau(b, src, start, dst),
    ensures
        board_ms(run_to_tableau(b, src, start, dst)) == board_ms(b),
{
    let p = b.tableau[src];
    let d = b.tableau[dst];
    let kept = p.take(start);
    let moved = p.subrange(start, p.len() as int);
    let t1 = b.tableau.update(src, kept);
    let n = run_to_tableau(b, src, start, dst);
    assert(t1[dst] == d);
    lemma_piles_update_ms(b.tableau, src, kept);
    lemma_piles_update_ms(t1, dst, d + moved);
    assert(p =~= kept + moved);
    lemma_ms_concat(kept, moved);
    lemma_ms_concat(d, moved);
    let a1 = piles_cards(t1).to_multiset().add(p.to_multiset());
    let a2 = piles_cards(b.tableau).to_multiset().add(kept.to_multiset());
    let b1 = piles_cards(n.tableau).to_multiset().add(d.to_multiset());
    let b2 = piles_cards(t1).to_multiset().add((d + moved).to_multiset());
    assert forall|x: Card| #[trigger] board_ms(n).count(x) == board_ms(b).count(x) by {
        assert(a1.count(x) == a2.count(x));
        assert(b1.count(x) == b2.count(x));
    }
    assert(board_ms(n) =~= board_ms(b));
}

/// Law: a legal FreeCell move only carries cards from one place to another.
pub proof fn lemma_freecell_move_keeps_cards(b: FreecellBoard, a: FreecellPlannerAction)
    requires
        fc_ok(b),
        fc_legal(b, a),
    ensures
        board_cards(fc_apply(b, a)).to_multiset() == board_cards(b).to_multiset(),
{
    lemma_board_ms(b);
    lemma_board_ms(fc_apply(b, a));
    match a {
        FreecellPlannerAction::TableauToFoundation { src } => lemma_tableau_to_foundation_ms(b, src as int),
        FreecellPlannerAction::FreecellToFoundation { cell } => lemma_freecell_to_foundation_ms(b, cell as int),
        FreecellPlannerAction::TableauRunToTableau { src, start, dst } => lemma_run_to_tableau_ms(
            b,
            src as int,
            start as int,
            dst as int,
        ),
        FreecellPlannerAction::TableauToFreecell { src, cell } => lemma_tableau_to_freecell_ms(
            b,
            src as int,
            cell as int,
        ),
        FreecellPlannerAction::FreecellToTableau { cell, dst } => lemma_freecell_to_tableau_ms(
            b,
            cell as int,
            dst as int,
        ),
    }
}

/// A legal move keeps a FreeCell board sound.
proof fn lemma_move_keeps_ok(b: FreecellBoard, a: FreecellPlannerAction)
    requires
        fc_ok(b),
        fc_legal(b, a),
    ensures
        fc_ok(fc_apply(b, a)),
{
    match a {
        FreecellPlannerAction::TableauToFoundation { src } => lemma_tableau_to_foundation_ok(b, src as int),
        FreecellPlannerAction::FreecellToFoundation { cell } => lemma_freecell_to_foundation_ok(b, cell as int),
        FreecellPlannerAction::TableauRunToTableau { src, start, dst } => lemma_run_to_tableau_ok(
            b,
            src as int,
            start as int,
            dst as int,
        ),
        FreecellPlannerAction::TableauToFreecell { src, cell } => lemma_tableau_to_freecell_ok(b, src as int, cell as int),
        FreecellPlannerAction::FreecellToTableau { cell, dst } => lemma_freecell_to_tableau_ok(b, cell as int, dst as int),
    }
}

/// The same cards, counted alike, are as clean as before.
proof fn lemma_same_cards_clean(a: Seq<Card>, b: Seq<Card>)
    requires
        a.to_multiset() == b.to_multiset(),
        all_face_up(a),
        a.no_duplicates(),
    ensures
        all_face_up(b),
        b.no_duplicates(),
        b.len() == a.len(),
{
    broadcast use vstd::seq_lib::group_to_multiset_ensures;

    assert forall|i: int| 0 <= i < b.len() implies (#[trigger] b[i]).face_up by {
        assert(b.contains(b[i]));
        assert(b.to_multiset().count(b[i]) > 0);
        assert(a.to_multiset().count(b[i]) > 0);
        assert(a.contains(b[i]));
        let j = choose|j: int| 0 <= j < a.len() && a[j] == b[i];
        assert(a[j].face_up);
    }
    a.lemma_multiset_has_no_duplicates();
    b.lemma_multiset_has_no_duplicates_conv();
    assert(a.len() == a.to_multiset().len());
    assert(b.len() == b.to_multiset().len());
}

/// Law: a legal move from a sound board that passes the audit leads to a
/// board that passes it too.
pub proof fn lemma_freecell_move_passes_audit(b: FreecellBoard, a: FreecellPlannerAction)
    requires
        fc_ok(b),
        freecell_audit_spec(b) is None,
        fc_legal(b, a),
    ensures
        freecell_audit_spec(fc_apply(b, a)) is None,
{
    let n = fc_apply(b, a);
    lemma_passing_is_clean(b);
    lemma_freecell_move_keeps_cards(b, a);
    lemma_same_cards_clean(board_cards(b), board_cards(n));
    lemma_move_keeps_ok(b, a);
    assert(n.card_count == b.card_count);
    lemma_clean_passes(n);
}

/// Law: every position that legal play reaches from a sound board that
/// passes the audit (such as a new deal) passes it too.
pub proof fn lemma_played_freecell_board_passes_audit(b: FreecellBoard, actions: Seq<FreecellPlannerAction>)
    requires
        fc_ok(b),
        freecell_audit_spec(b) is None,
        fc_replay(b, actions) is Some,
    ensures
        fc_ok(fc_replay(b, actions)->0),
        freecell_audit_spec(fc_replay(b, actions)->0) is None,
    decreases actions.len(),
{
    if actions.len() > 0 {
        lemma_played_freecell_board_passes_audit(b, actions.drop_last());
        let x = fc_replay(b, actions.drop_last())->0;
        lemma_move_keeps_ok(x, actions.last());
        lemma_freecell_move_passes_audit(x, actions.last());
    }
}

// ---------------------------------------------------------------------------
// The deal
// ---------------------------------------------------------------------------

/// Shuffling keeps the deck's cards.
proof fn lemma_shuffle_keeps_cards(deck: Seq<Card>, state: u64, i: nat)
    ensures
        shuffle_from(deck, state, i).to_multiset() == deck.to_multiset(),
        shuffle_from(deck, state, i).len() == deck.len(),
    decreases i,
{
    broadcast use vstd::seq_lib::group_to_multiset_ensures;

    if !(i == 0 || i >= deck.len()) {
        let next = crate::spider::xorshift_state(state);
        let roll = next.wrapping_mul(0x2545F4914F6CDD1Du64);
        let j = (roll as nat % (i + 1)) as int;
        let d1 = deck.update(i as int, deck[j]);
        let d2 = d1.update(j, deck[i as int]);
        vstd::seq_lib::to_multiset_update(deck, i as int, deck[j]);
        vstd::seq_lib::to_multiset_update(d1, j, deck[i as int]);
        assert(d1[j] == deck[j]);
        assert(deck.contains(deck[i as int]));
        assert(deck.contains(deck[j]));
        assert forall|c: Card| #[trigger] d2.to_multiset().count(c) == deck.to_multiset().count(c) by {
            assert(deck.to_multiset().count(deck[i as int]) > 0);
            assert(deck.to_multiset().count(deck[j]) > 0);
        }
        assert(d2.to_multiset() =~= deck.to_multiset());
        lemma_shuffle_keeps_cards(d2, next, (i - 1) as nat);
    }
}

proof fn lemma_deal_len(deck: Seq<Card>, n: nat)
    ensures
        deal_round_robin(deck, n).len() == 8,
    decreases n,
{
    if n > 0 {
        lemma_deal_len(deck, (n - 1) as nat);
    }
}

/// Dealing the first `n` cards round the columns lays out those cards.
proof fn lemma_deal_keeps_cards(deck: Seq<Card>, n: nat)
    requires
        n <= deck.len(),
    ensures
        piles_cards(deal_round_robin(deck, n)).to_multiset() == deck.take(n as int).to_multiset(),
    decreases n,
{
    broadcast use vstd::seq_lib::group_to_multiset_ensures;

    if n == 0 {
        lemma_empty_piles_cards(8);
        assert(deck.take(0) =~= Seq::<Card>::empty());
    } else {
        let t = deal_round_robin(deck, (n - 1) as nat);
        let j = ((n - 1) % 8) as int;
        let c = deck[n - 1];
        let q = t[j].push(c);
        lemma_deal_len(deck, (n - 1) as nat);
        lemma_deal_keeps_cards(deck, (n - 1) as nat);
        lemma_piles_update_ms(t, j, q);
        assert(deck.take(n as int) =~= deck.take(n - 1).push(c));
        let l = piles_cards(t.update(j, q)).to_multiset().add(t[j].to_multiset());
        let r = piles_cards(t).to_multiset().add(q.to_multiset());
        assert forall|x: Card| #[trigger] piles_cards(deal_round_robin(deck, n)).to_multiset().count(x)
            == deck.take(n as int).to_multiset().count(x) by {
            assert(l.count(x) == r.count(x));
        }
        assert(piles_cards(deal_round_robin(deck, n)).to_multiset() =~= deck.take(n as int).to_multiset());
    }
}

/// Piles that are all empty hold no card.
proof fn lemma_empty_piles_cards(n: nat)
    ensures
        piles_cards(Seq::new(n, |j: int| Seq::<Card>::empty())) == Seq::<Card>::empty(),
    decreases n,
{
    if n > 0 {
        lemma_empty_piles_cards((n - 1) as nat);
        assert(Seq::new(n, |j: int| Seq::<Card>::empty()).drop_last() =~= Seq::new(
            (n - 1) as nat,
            |j: int| Seq::<Card>::empty(),
        ));
    }
}

/// The unshuffled deck holds every card once, face up.
proof fn lemma_fresh_deck_clean(count: nat)
    requires
        count <= 52,
    ensures
        all_face_up(fresh_freecell_deck(count)),
        fresh_freecell_deck(count).no_duplicates(),
{
    let d = fresh_freecell_deck(count);
    assert forall|i: int, j: int| 0 <= i < d.len() && 0 <= j < d.len() && i != j implies d[i] != d[j] by {
        if d[i] == d[j] {
            assert(suit_of_index(i / 13) == suit_of_index(j / 13));
            assert(i / 13 == j / 13);
            assert(i % 13 == j % 13);
            assert(i == 13 * (i / 13) + i % 13);
            assert(j == 13 * (j / 13) + j % 13);
        }
    }
}

/// Law: every new FreeCell deal passes the audit.
pub proof fn lemma_freecell_deal_passes_audit(seed: u64, mode: FreecellCardCountMode)
    ensures
        freecell_audit_spec(freecell_deal(seed, mode)) is None,
{
    let count = card_count_spec(mode);
    let fresh = fresh_freecell_deck(count);
    let deck = shuffle_from(fresh, initial_rng_state(seed), (count - 1) as nat);
    let b = freecell_deal(seed, mode);
    lemma_fresh_deck_clean(count);
    lemma_shuffle_keeps_cards(fresh, initial_rng_state(seed), (count - 1) as nat);
    lemma_deal_keeps_cards(deck, count);
    assert(deck.take(count as int) =~= deck);
    lemma_empty_piles_cards(4);
    assert(cells_cards(b.freecells) =~= Seq::<Card>::empty()) by {
        reveal_with_fuel(cells_cards, 5);
    }
    assert(board_cards(b) =~= piles_cards(b.tableau));
    lemma_same_cards_clean(fresh, board_cards(b));
    lemma_clean_passes(b);
}

} // verus!
