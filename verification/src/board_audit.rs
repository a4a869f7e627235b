//! Consistency audits the robot runs on a board after each move in strict
//! debug mode: every card accounted for once, foundations in order, no
//! face-down card where none may be. Each audit reports the first flaw it
//! meets, in a fixed scanning order, and a line of text describing it.

use vstd::prelude::*;
use crate::cards::{suit_index_spec, Card};
use crate::freecell::{fc_total, occupied, FreecellBoard, FreecellGame};
use crate::robot_guard::{face_down_after_face_up, tableau_has_face_down_after_face_up};
use crate::moves::HintMove;
use crate::spider::{
    board_ok, card_total, lemma_deal_preserves, lemma_move_run_preserves, pile_card_sum, rank_ok, SpiderBoard,
    SpiderGame,
};
use crate::spider_search::replay;
use crate::text::{decimal_chars, decimal_text, push_text};

verus! {

// ---------------------------------------------------------------------------
// Spider
// ---------------------------------------------------------------------------

/// What is wrong with a Spider board.
#[derive(Debug, Clone, Copy, PartialEq, Eq, Structural)]
pub enum SpiderFlaw {
    /// More than eight runs are recorded as completed.
    CompletedRunsExceed,
    /// A column holds a face-down card above a face-up one.
    FaceDownAboveFaceUp,
    /// A column holds a card whose rank is not ace to king.
    InvalidRank,
    /// The cards do not add up to the two decks.
    Accounting { total: usize },
}

pub open spec fn spider_pile_flaw(p: Seq<Card>) -> Option<SpiderFlaw> {
    if face_down_after_face_up(p) {
        Some(SpiderFlaw::FaceDownAboveFaceUp)
    } else if exists|k: int| 0 <= k < p.len() && !rank_ok(#[trigger] p[k]) {
        Some(SpiderFlaw::InvalidRank)
    } else {
        None
    }
}

/// The flaw of the first flawed column.
pub open spec fn spider_piles_flaw(piles: Seq<Seq<Card>>) -> Option<SpiderFlaw>
    decreases piles.len(),
{
    if piles.len() == 0 {
        None
    } else {
        match spider_piles_flaw(piles.drop_last()) {
            Some(f) => Some(f),
            None => spider_pile_flaw(piles.last()),
        }
    }
}

/// The audit of a Spider board: the completed runs first, then the columns
/// in order, then the card count (stock, columns and thirteen per completed
/// run) against the 104 cards of two decks.
pub open spec fn spider_audit_spec(b: SpiderBoard) -> Option<SpiderFlaw> {
    if b.completed_runs > 8 {
        Some(SpiderFlaw::CompletedRunsExceed)
    } else {
        match spider_piles_flaw(b.piles) {
            Some(f) => Some(f),
            None => if card_total(b) != 104 {
                Some(SpiderFlaw::Accounting { total: card_total(b) as usize })
            } else {
                None
            },
        }
    }
}

fn pile_has_invalid_rank(p: &Vec<Card>) -> (r: bool)
    ensures
        r == exists|k: int| 0 <= k < p@.len() && !rank_ok(#[trigger] p@[k]),
{
    let mut i: usize = 0;
    while i < p.len()
        invariant
            i <= p@.len(),
            forall|k: int| 0 <= k < i ==> rank_ok(#[trigger] p@[k]),
        decreases p@.len() - i,
    {
        if p[i].rank < 1 || p[i].rank > 13 {
            assert(!rank_ok(p@[i as int]));
            return true;
        }
        i += 1;
    }
    false
}

/// Audits a Spider board.
pub fn spider_board_audit(game: &SpiderGame) -> (r: Option<SpiderFlaw>)
    requires
        card_total(game@) <= usize::MAX,
    ensures
        r == spider_audit_spec(game@),
{
    let completed = game.completed_runs();
    if completed > 8 {
        return Some(SpiderFlaw::CompletedRunsExceed);
    }
    let tableau = game.tableau();
    let ghost piles = game@.piles;
    let mut total: usize = game.stock_len() + completed * 13;
    let mut i: usize = 0;
    assert(piles.take(0) =~= Seq::<Seq<Card>>::empty());
    while i < tableau.len()
        invariant
            tableau@.len() == piles.len(),
            forall|j: int| 0 <= j < tableau@.len() ==> (#[trigger] tableau@[j])@ == piles[j],
            piles == game@.piles,
            completed == game@.completed_runs,
            completed <= 8,
            card_total(game@) <= usize::MAX,
            i <= piles.len(),
            spider_piles_flaw(piles.take(i as int)) is None,
            total == game@.stock.len() + 13 * completed + pile_card_sum(piles.take(i as int)),
        decreases piles.len() - i,
    {
        let ghost prefix = piles.take(i + 1);
        assert(prefix.drop_last() =~= piles.take(i as int));
        assert(prefix.last() == piles[i as int]);
        let pile = &tableau[i];
        if tableau_has_face_down_after_face_up(pile.as_slice()) {
            proof {
                lemma_piles_flaw_prefix(piles, i as int);
            }
            return Some(SpiderFlaw::FaceDownAboveFaceUp);
        }
        if pile_has_invalid_rank(pile) {
            proof {
                lemma_piles_flaw_prefix(piles, i as int);
            }
            return Some(SpiderFlaw::InvalidRank);
        }
        proof {
            lemma_pile_sum_prefix_le(piles, i + 1);
        }
        total = total + pile.len();
        i += 1;
    }
    assert(piles.take(piles.len() as int) =~= piles);
    if total != 104 {
        return Some(SpiderFlaw::Accounting { total });
    }
    None
}

/// A flaw in the column at `i` is the first flaw when the columns before it have none.
proof fn lemma_piles_flaw_prefix(piles: Seq<Seq<Card>>, i: int)
    requires
        0 <= i < piles.len(),
        spider_piles_flaw(piles.take(i)) is None,
        spider_pile_flaw(piles[i]) is Some,
    ensures
        spider_piles_flaw(piles) == spider_pile_flaw(piles[i]),
{
    let t = piles.take(i + 1);
    assert(t.drop_last() =~= piles.take(i));
    assert(t.last() == piles[i]);
    assert(spider_piles_flaw(t) == spider_pile_flaw(piles[i]));
    lemma_piles_flaw_extend(piles, i + 1);
}

/// Once a prefix has a flaw, every longer prefix reports the same one.
proof fn lemma_piles_flaw_extend(piles: Seq<Seq<Card>>, n: int)
    requires
        0 < n <= piles.len(),
        spider_piles_flaw(piles.take(n)) is Some,
    ensures
        spider_piles_flaw(piles) == spider_piles_flaw(piles.take(n)),
    decreases piles.len() - n,
{
    if n < piles.len() {
        let longer = piles.take(n + 1);
        assert(longer.drop_last() =~= piles.take(n));
        lemma_piles_flaw_extend(piles, n + 1);
    } else {
        assert(piles.take(n) =~= piles);
    }
}

proof fn lemma_pile_sum_prefix_le(piles: Seq<Seq<Card>>, n: int)
    requires
        0 <= n <= piles.len(),
    ensures
        pile_card_sum(piles.take(n)) <= pile_card_sum(piles),
    decreases piles.len() - n,
{
    if n < piles.len() {
        lemma_pile_sum_prefix_le(piles, n + 1);
        assert(piles.take(n + 1).drop_last() =~= piles.take(n));
    } else {
        assert(piles.take(n) =~= piles);
    }
}

/// A column in which no face-down card lies above a face-up one and every
/// rank is valid has no flaw.
proof fn lemma_sound_piles_pass(piles: Seq<Seq<Card>>)
    requires
        forall|i: int| 0 <= i < piles.len() ==> crate::spider::pile_ok(#[trigger] piles[i]),
    ensures
        spider_piles_flaw(piles) is None,
    decreases piles.len(),
{
    if piles.len() > 0 {
        let rest = piles.drop_last();
        assert forall|i: int| 0 <= i < rest.len() implies crate::spider::pile_ok(#[trigger] rest[i]) by {
            assert(rest[i] == piles[i]);
        }
        lemma_sound_piles_pass(rest);
        let p = piles.last();
        assert(crate::spider::pile_ok(piles[piles.len() - 1]));
        assert(!face_down_after_face_up(p));
    }
}

/// Law: a sound Spider board that holds both decks passes the audit.
pub proof fn lemma_sound_spider_board_passes_audit(b: SpiderBoard)
    requires
        board_ok(b),
        card_total(b) == 104,
    ensures
        spider_audit_spec(b) is None,
{
    lemma_sound_piles_pass(b.piles);
}

/// Legal play keeps a board sound and neither loses nor gains a card.
pub proof fn lemma_replay_preserves(b: SpiderBoard, moves: Seq<HintMove>)
    requires
        board_ok(b),
        replay(b, moves) is Some,
    ensures
        board_ok(replay(b, moves)->0),
        card_total(replay(b, moves)->0) == card_total(b),
    decreases moves.len(),
{
    if moves.len() > 0 {
        let x = replay(b, moves.drop_last())->0;
        lemma_replay_preserves(b, moves.drop_last());
        match moves.last() {
            HintMove::TableauRunToTableau { src, start, dst } => {
                lemma_move_run_preserves(x, src as int, start as int, dst as int);
            },
            HintMove::Draw => {
                lemma_deal_preserves(x);
            },
            _ => {},
        }
    }
}

/// Law: every position that legal play reaches from a sound board holding
/// both decks (such as any new deal) passes the audit.
pub proof fn lemma_played_spider_board_passes_audit(b: SpiderBoard, moves: Seq<HintMove>)
    requires
        board_ok(b),
        card_total(b) == 104,
        replay(b, moves) is Some,
    ensures
        spider_audit_spec(replay(b, moves)->0) is None,
{
    lemma_replay_preserves(b, moves);
    lemma_sound_spider_board_passes_audit(replay(b, moves)->0);
}

/// The text the robot reports for a Spider flaw.
pub open spec fn spider_flaw_text(f: SpiderFlaw) -> Seq<char> {
    match f {
        SpiderFlaw::CompletedRunsExceed => "spider completed_runs exceeds 8"@,
        SpiderFlaw::FaceDownAboveFaceUp => "spider tableau has face-down card above face-up"@,
        SpiderFlaw::InvalidRank => "spider tableau contains invalid rank"@,
        SpiderFlaw::Accounting { total } => "spider card accounting mismatch (total="@ + decimal_chars(total as nat)
            + ", expected=104)"@,
    }
}

pub fn spider_flaw_detail(f: SpiderFlaw) -> (r: String)
    ensures
        r@ == spider_flaw_text(f),
{
    match f {
        SpiderFlaw::CompletedRunsExceed => String::from_str("spider completed_runs exceeds 8"),
        SpiderFlaw::FaceDownAboveFaceUp => String::from_str("spider tableau has face-down card above face-up"),
        SpiderFlaw::InvalidRank => String::from_str("spider tableau contains invalid rank"),
        SpiderFlaw::Accounting { total } => {
            let mut out = String::from_str("spider card accounting mismatch (total=");
            let n = decimal_text(total as u64);
            push_text(&mut out, n.as_str());
            push_text(&mut out, ", expected=104)");
            out
        },
    }
}

// ---------------------------------------------------------------------------
// FreeCell
// ---------------------------------------------------------------------------

/// What is wrong with a FreeCell board.
#[derive(Debug, Clone, Copy, PartialEq, Eq, Structural)]
pub enum FreecellFlaw {
    FoundationFaceDown,
    /// A foundation holds a card of another suit.
    FoundationSuitMismatch,
    /// A foundation card is not the rank its position calls for.
    FoundationRankOrder,
    CellFaceDown,
    TableauFaceDown,
    /// The same card lies in two places.
    Duplicate,
    /// The cards do not add up to the deal's card count.
    Accounting { total: usize, expected: usize },
}

/// A card as the audit meets it: on a foundation (with the foundation and
/// the position in it), in a free cell, or in a column.
pub ghost enum AuditItem {
    Foundation { slot: int, pos: int, card: Card },
    Cell { card: Card },
    Tableau { card: Card },
}

pub open spec fn item_card(it: AuditItem) -> Card {
    match it {
        AuditItem::Foundation { card, .. } => card,
        AuditItem::Cell { card } => card,
        AuditItem::Tableau { card } => card,
    }
}

/// What is wrong with a card where it lies, duplicates aside.
pub open spec fn item_flaw(it: AuditItem) -> Option<FreecellFlaw> {
    match it {
        AuditItem::Foundation { slot, pos, card } => if !card.face_up {
            Some(FreecellFlaw::FoundationFaceDown)
        } else if suit_index_spec(card.suit) != slot {
            Some(FreecellFlaw::FoundationSuitMismatch)
        } else if card.rank != pos + 1 {
            Some(FreecellFlaw::FoundationRankOrder)
        } else {
            None
        },
        AuditItem::Cell { card } => if !card.face_up { Some(FreecellFlaw::CellFaceDown) } else { None },
        AuditItem::Tableau { card } => if !card.face_up { Some(FreecellFlaw::TableauFaceDown) } else { None },
    }
}

pub open spec fn same_card(a: Card, b: Card) -> bool {
    a.suit == b.suit && a.rank == b.rank
}

pub open spec fn met_before(items: Seq<AuditItem>, c: Card) -> bool {
    exists|j: int| 0 <= j < items.len() && same_card(item_card(#[trigger] items[j]), c)
}

/// The flaw of a card met after `earlier`: its own, else being met twice.
pub open spec fn step_flaw(earlier: Seq<AuditItem>, it: AuditItem) -> Option<FreecellFlaw> {
    match item_flaw(it) {
        Some(f) => Some(f),
        None => if met_before(earlier, item_card(it)) { Some(FreecellFlaw::Duplicate) } else { None },
    }
}

/// The flaw of the first flawed card.
pub open spec fn first_flaw(items: Seq<AuditItem>) -> Option<FreecellFlaw>
    decreases items.len(),
{
    if items.len() == 0 {
        None
    } else {
        match first_flaw(items.drop_last()) {
            Some(f) => Some(f),
            None => step_flaw(items.drop_last(), items.last()),
        }
    }
}

pub open spec fn pile_items(p: Seq<Card>, slot: Option<int>) -> Seq<AuditItem> {
    Seq::new(
        p.len(),
        |k: int|
            match slot {
                Some(s) => AuditItem::Foundation { slot: s, pos: k, card: p[k] },
                None => AuditItem::Tableau { card: p[k] },
            },
    )
}

/// The cards of the piles in order; foundations know their slot.
pub open spec fn piles_items(piles: Seq<Seq<Card>>, foundations: bool) -> Seq<AuditItem>
    decreases piles.len(),
{
    if piles.len() == 0 {
        Seq::empty()
    } else {
        piles_items(piles.drop_last(), foundations) + pile_items(
            piles.last(),
            if foundations { Some(piles.len() - 1) } else { None },
        )
    }
}

pub open spec fn cell_items(cells: Seq<Option<Card>>) -> Seq<AuditItem>
    decreases cells.len(),
{
    if cells.len() == 0 {
        Seq::empty()
    } else {
        cell_items(cells.drop_last()) + match cells.last() {
            Some(c) => seq![AuditItem::Cell { card: c }],
            None => Seq::empty(),
        }
    }
}

/// The order in which the audit meets the cards: the foundations, the free
/// cells, then the columns.
pub open spec fn audit_items(b: FreecellBoard) -> Seq<AuditItem> {
    piles_items(b.foundations, true) + cell_items(b.freecells) + piles_items(b.tableau, false)
}

/// The audit of a FreeCell board: the first card that is face down, on the
/// wrong foundation or at the wrong rank there, or met a second time; then
/// the number of cards against the deal's card count.
pub open spec fn freecell_audit_spec(b: FreecellBoard) -> Option<FreecellFlaw> {
    let items = audit_items(b);
    match first_flaw(items) {
        Some(f) => Some(f),
        None => if items.len() != b.card_count {
            Some(FreecellFlaw::Accounting { total: items.len() as usize, expected: b.card_count as usize })
        } else {
            None
        },
    }
}

pub proof fn lemma_first_flaw_prefix(p: Seq<AuditItem>, s: Seq<AuditItem>)
    requires
        p.is_prefix_of(s),
        first_flaw(p) is Some,
    ensures
        first_flaw(s) == first_flaw(p),
    decreases s.len(),
{
    if s.len() > p.len() {
        assert(p.is_prefix_of(s.drop_last())) by {
            assert(p =~= s.drop_last().subrange(0, p.len() as int));
        }
        lemma_first_flaw_prefix(p, s.drop_last());
    } else {
        assert(p =~= s);
    }
}

proof fn lemma_piles_items_len(piles: Seq<Seq<Card>>, foundations: bool)
    ensures
        piles_items(piles, foundations).len() == pile_card_sum(piles),
    decreases piles.len(),
{
    if piles.len() > 0 {
        lemma_piles_items_len(piles.drop_last(), foundations);
    }
}

proof fn lemma_cell_items_len(cells: Seq<Option<Card>>)
    ensures
        cell_items(cells).len() == occupied(cells),
    decreases cells.len(),
{
    if cells.len() > 0 {
        lemma_cell_items_len(cells.drop_last());
    }
}

proof fn lemma_piles_items_prefix(piles: Seq<Seq<Card>>, n: int, foundations: bool)
    requires
        0 <= n <= piles.len(),
    ensures
        piles_items(piles.take(n), foundations).is_prefix_of(piles_items(piles, foundations)),
    decreases piles.len() - n,
{
    if n < piles.len() {
        lemma_piles_items_prefix(piles, n + 1, foundations);
        let t = piles.take(n + 1);
        assert(t.drop_last() =~= piles.take(n));
    } else {
        assert(piles.take(n) =~= piles);
    }
}

proof fn lemma_cell_items_prefix(cells: Seq<Option<Card>>, n: int)
    requires
        0 <= n <= cells.len(),
    ensures
        cell_items(cells.take(n)).is_prefix_of(cell_items(cells)),
    decreases cells.len() - n,
{
    if n < cells.len() {
        lemma_cell_items_prefix(cells, n + 1);
        let t = cells.take(n + 1);
        assert(t.drop_last() =~= cells.take(n));
    } else {
        assert(cells.take(n) =~= cells);
    }
}

/// The key under which the audit remembers a card.
pub open spec fn card_key(c: Card) -> int {
    suit_index_spec(c.suit) * 256 + c.rank
}

/// `seen` marks exactly the keys of the cards met so far.
pub open spec fn seen_ok(seen: Seq<bool>, items: Seq<AuditItem>) -> bool {
    &&& seen.len() == 1024
    &&& forall|k: int| 0 <= k < 1024 ==> (#[trigger] seen[k] <==> exists|j: int| 0 <= j < items.len() && card_key(item_card(#[trigger] items[j])) == k)
}

proof fn lemma_key_same(a: Card, b: Card)
    ensures
        (card_key(a) == card_key(b)) == same_card(a, b),
        0 <= card_key(a) < 1024,
{
}

fn key_of(c: Card) -> (r: usize)
    ensures
        r == card_key(c),
        r < 1024,
{
    c.suit.foundation_index() * 256 + c.rank as usize
}

fn empty_seen() -> (r: Vec<bool>)
    ensures
        seen_ok(r@, Seq::empty()),
{
    let mut v: Vec<bool> = Vec::new();
    let mut i: usize = 0;
    while i < 1024
        invariant
            i <= 1024,
            v@.len() == i,
            forall|k: int| 0 <= k < i ==> !v@[k],
        decreases 1024 - i,
    {
        v.push(false);
        i += 1;
    }
    v
}

/// Meets one card: its own flaw, else a duplicate, else it is remembered.
fn audit_card(
    seen: &mut Vec<bool>,
    Ghost(items): Ghost<Seq<AuditItem>>,
    Ghost(it): Ghost<AuditItem>,
    own: Option<FreecellFlaw>,
    card: Card,
) -> (r: Option<FreecellFlaw>)
    requires
        seen_ok(old(seen)@, items),
        own == item_flaw(it),
        card == item_card(it),
    ensures
        r == step_flaw(items, it),
        r is None ==> seen_ok(final(seen)@, items.push(it)),
{
    if own.is_some() {
        return own;
    }
    let k = key_of(card);
    if seen[k] {
        proof {
            let j = choose|j: int| 0 <= j < items.len() && card_key(item_card(#[trigger] items[j])) == k;
            lemma_key_same(item_card(items[j]), card);
        }
        return Some(FreecellFlaw::Duplicate);
    }
    proof {
        assert forall|j: int| 0 <= j < items.len() implies !same_card(item_card(#[trigger] items[j]), card) by {
            lemma_key_same(item_card(items[j]), card);
            assert(!(seen@[k as int]));
        }
    }
    seen.set(k, true);
    proof {
        let ni = items.push(it);
        assert forall|x: int| 0 <= x < 1024 implies (#[trigger] seen@[x] <==> exists|j: int| 0 <= j < ni.len() && card_key(item_card(#[trigger] ni[j])) == x) by {
            if x == k {
                assert(card_key(item_card(ni[items.len() as int])) == x);
            } else {
                assert(seen@[x] == old(seen)@[x]);
                if seen@[x] {
                    let j = choose|j: int| 0 <= j < items.len() && card_key(item_card(#[trigger] items[j])) == x;
                    assert(ni[j] == items[j]);
                }
                if exists|j: int| 0 <= j < ni.len() && card_key(item_card(#[trigger] ni[j])) == x {
                    let j = choose|j: int| 0 <= j < ni.len() && card_key(item_card(#[trigger] ni[j])) == x;
                    assert(j < items.len());
                    assert(ni[j] == items[j]);
                }
            }
        }
    }
    None
}

proof fn lemma_first_flaw_push(items: Seq<AuditItem>, it: AuditItem)
    requires
        first_flaw(items) is None,
    ensures
        first_flaw(items.push(it)) == step_flaw(items, it),
{
    assert(items.push(it).drop_last() =~= items);
}

pub open spec fn slot_of(slot: Option<usize>) -> Option<int> {
    match slot {
        Some(s) => Some(s as int),
        None => None,
    }
}

/// Audits the cards of one pile, after `items`.
fn audit_pile(
    pile: &Vec<Card>,
    slot: Option<usize>,
    seen: &mut Vec<bool>,
    total: &mut usize,
    Ghost(items): Ghost<Seq<AuditItem>>,
    Ghost(limit): Ghost<int>,
) -> (r: Option<FreecellFlaw>)
    requires
        seen_ok(old(seen)@, items),
        first_flaw(items) is None,
        *old(total) == items.len(),
        items.len() + pile@.len() <= limit <= usize::MAX,
    ensures
        ({
            let after = items + pile_items(pile@, slot_of(slot));
            &&& r is Some ==> exists|n: int| 0 <= n <= after.len() && first_flaw(#[trigger] after.take(n)) == r && after.take(n).is_prefix_of(after)
            &&& r is None ==> first_flaw(after) is None && seen_ok(final(seen)@, after) && *final(total) == after.len()
        }),
{
    let ghost gslot = slot_of(slot);
    let ghost all = pile_items(pile@, gslot);
    let mut i: usize = 0;
    assert(items + all.take(0) =~= items);
    while i < pile.len()
        invariant
            i <= pile@.len(),
            all == pile_items(pile@, gslot),
            gslot == slot_of(slot),
            seen_ok(seen@, items + all.take(i as int)),
            first_flaw(items + all.take(i as int)) is None,
            *total == items.len() + i,
            items.len() + pile@.len() <= limit <= usize::MAX,
        decreases pile@.len() - i,
    {
        let card = pile[i];
        let ghost before = items + all.take(i as int);
        let ghost it = all[i as int];
        let own = match slot {
            Some(s) => if !card.face_up {
                Some(FreecellFlaw::FoundationFaceDown)
            } else if card.suit.foundation_index() != s {
                Some(FreecellFlaw::FoundationSuitMismatch)
            } else if card.rank as usize != i + 1 {
                Some(FreecellFlaw::FoundationRankOrder)
            } else {
                None
            },
            None => if !card.face_up { Some(FreecellFlaw::TableauFaceDown) } else { None },
        };
        assert(item_card(it) == card);
        let step = audit_card(seen, Ghost(before), Ghost(it), own, card);
        proof {
            lemma_first_flaw_push(before, it);
            assert(before.push(it) =~= items + all.take(i + 1));
        }
        if step.is_some() {
            proof {
                let after = items + all;
                let n = items.len() + i + 1;
                assert(after.take(n) =~= before.push(it));
                assert(after.take(n).is_prefix_of(after)) by {
                    assert(after.take(n) =~= after.subrange(0, n));
                }
                assert(first_flaw(after.take(n)) == step);
            }
            return step;
        }
        *total = *total + 1;
        i += 1;
    }
    assert(all.take(pile@.len() as int) =~= all);
    None
}

proof fn lemma_prefix_trans(a: Seq<AuditItem>, b: Seq<AuditItem>, c: Seq<AuditItem>)
    requires
        a.is_prefix_of(b),
        b.is_prefix_of(c),
    ensures
        a.is_prefix_of(c),
{
    assert(a =~= c.subrange(0, a.len() as int)) by {
        assert forall|i: int| 0 <= i < a.len() implies a[i] == c[i] by {
            assert(a[i] == b[i]);
            assert(b[i] == c[i]);
        }
    }
}

proof fn lemma_prefix_concat(a: Seq<AuditItem>, b: Seq<AuditItem>)
    ensures
        a.is_prefix_of(a + b),
{
    assert(a =~= (a + b).subrange(0, a.len() as int));
}

/// A flaw found in a prefix of the audit order is the board's flaw.
proof fn lemma_found_in_prefix(after: Seq<AuditItem>, whole: Seq<AuditItem>, r: Option<FreecellFlaw>)
    requires
        after.is_prefix_of(whole),
        r is Some,
        exists|n: int| 0 <= n <= after.len() && first_flaw(#[trigger] after.take(n)) == r && after.take(n).is_prefix_of(after),
    ensures
        first_flaw(whole) == r,
{
    let n = choose|n: int| 0 <= n <= after.len() && first_flaw(#[trigger] after.take(n)) == r && after.take(n).is_prefix_of(after);
    lemma_prefix_trans(after.take(n), after, whole);
    lemma_first_flaw_prefix(after.take(n), whole);
}

proof fn lemma_piles_items_step(piles: Seq<Seq<Card>>, i: int, foundations: bool)
    requires
        0 <= i < piles.len(),
    ensures
        piles_items(piles.take(i + 1), foundations) == piles_items(piles.take(i), foundations) + pile_items(
            piles[i],
            if foundations { Some(i) } else { None },
        ),
{
    let t = piles.take(i + 1);
    assert(t.drop_last() =~= piles.take(i));
    assert(t.last() == piles[i]);
}

proof fn lemma_cell_items_step(cells: Seq<Option<Card>>, i: int)
    requires
        0 <= i < cells.len(),
    ensures
        cell_items(cells.take(i + 1)) == cell_items(cells.take(i)) + match cells[i] {
            Some(c) => seq![AuditItem::Cell { card: c }],
            None => Seq::empty(),
        },
{
    let t = cells.take(i + 1);
    assert(t.drop_last() =~= cells.take(i));
    assert(t.last() == cells[i]);
}

/// Audits a FreeCell board.
pub fn freecell_board_audit(game: &FreecellGame) -> (r: Option<FreecellFlaw>)
    requires
        fc_total(game@) <= usize::MAX,
    ensures
        r == freecell_audit_spec(game@),
{
    let ghost b = game@;
    let ghost whole = audit_items(b);
    let ghost fpart = piles_items(b.foundations, true);
    let ghost cpart = cell_items(b.freecells);
    let ghost tpart = piles_items(b.tableau, false);
    proof {
        lemma_piles_items_len(b.foundations, true);
        lemma_cell_items_len(b.freecells);
        lemma_piles_items_len(b.tableau, false);
        assert(whole == fpart + cpart + tpart);
        lemma_prefix_concat(fpart, cpart);
        lemma_prefix_concat(fpart + cpart, tpart);
        lemma_prefix_trans(fpart, fpart + cpart, whole);
    }
    let mut seen = empty_seen();
    let mut total: usize = 0;
    let foundations = game.foundations();
    let mut fi: usize = 0;
    assert(b.foundations.take(0) =~= Seq::<Seq<Card>>::empty());
    while fi < foundations.len()
        invariant
            b == game@,
            whole == audit_items(b),
            whole == fpart + cpart + tpart,
            fpart == piles_items(b.foundations, true),
            fpart.is_prefix_of(whole),
            whole.len() == fc_total(b),
            fc_total(b) <= usize::MAX,
            foundations@.len() == b.foundations.len(),
            forall|j: int| 0 <= j < foundations@.len() ==> (#[trigger] foundations@[j])@ == b.foundations[j],
            fi <= foundations@.len(),
            seen_ok(seen@, piles_items(b.foundations.take(fi as int), true)),
            first_flaw(piles_items(b.foundations.take(fi as int), true)) is None,
            total == piles_items(b.foundations.take(fi as int), true).len(),
        decreases foundations@.len() - fi,
    {
        let ghost items = piles_items(b.foundations.take(fi as int), true);
        proof {
            lemma_piles_items_step(b.foundations, fi as int, true);
            lemma_piles_items_prefix(b.foundations, fi + 1, true);
            lemma_prefix_trans(piles_items(b.foundations.take(fi + 1), true), fpart, whole);
            assert(slot_of(Some(fi)) == Some(fi as int));
        }
        let found = audit_pile(&foundations[fi], Some(fi), &mut seen, &mut total, Ghost(items), Ghost(fc_total(b) as int));
        if found.is_some() {
            proof {
                lemma_found_in_prefix(piles_items(b.foundations.take(fi + 1), true), whole, found);
            }
            return found;
        }
        fi += 1;
    }
    assert(b.foundations.take(foundations@.len() as int) =~= b.foundations);
    let cells = game.freecells();
    let mut ci: usize = 0;
    assert(b.freecells.take(0) =~= Seq::<Option<Card>>::empty());
    assert(fpart + cell_items(b.freecells.take(0)) =~= fpart);
    while ci < cells.len()
        invariant
            b == game@,
            whole == audit_items(b),
            whole == fpart + cpart + tpart,
            cpart == cell_items(b.freecells),
            whole.len() == fc_total(b),
            fc_total(b) <= usize::MAX,
            cells@ == b.freecells,
            ci <= cells@.len(),
            seen_ok(seen@, fpart + cell_items(b.freecells.take(ci as int))),
            first_flaw(fpart + cell_items(b.freecells.take(ci as int))) is None,
            total == (fpart + cell_items(b.freecells.take(ci as int))).len(),
        decreases cells@.len() - ci,
    {
        let ghost items = fpart + cell_items(b.freecells.take(ci as int));
        proof {
            lemma_cell_items_step(b.freecells, ci as int);
            lemma_cell_items_prefix(b.freecells, ci + 1);
            lemma_prefix_concat(fpart + cpart, tpart);
            let next = fpart + cell_items(b.freecells.take(ci + 1));
            assert(next.is_prefix_of(fpart + cpart)) by {
                let x = cell_items(b.freecells.take(ci + 1));
                assert(next =~= (fpart + cpart).subrange(0, next.len() as int)) by {
                    assert forall|i: int| 0 <= i < next.len() implies next[i] == (fpart + cpart)[i] by {
                        if i >= fpart.len() {
                            assert(x[i - fpart.len()] == cpart[i - fpart.len()]);
                        }
                    }
                }
            }
            lemma_prefix_trans(next, fpart + cpart, whole);
            assert(next.len() <= whole.len());
        }
        match cells[ci] {
            Some(card) => {
                let ghost it = AuditItem::Cell { card };
                let own = if !card.face_up { Some(FreecellFlaw::CellFaceDown) } else { None };
                let step = audit_card(&mut seen, Ghost(items), Ghost(it), own, card);
                proof {
                    lemma_first_flaw_push(items, it);
                    assert(items.push(it) =~= fpart + cell_items(b.freecells.take(ci + 1)));
                }
                if step.is_some() {
                    proof {
                        let next = fpart + cell_items(b.freecells.take(ci + 1));
                        assert(next.take(next.len() as int) =~= next);
                        assert(next.take(next.len() as int).is_prefix_of(next));
                        lemma_found_in_prefix(next, whole, step);
                    }
                    return step;
                }
                total = total + 1;
            },
            None => {
                proof {
                    assert(fpart + cell_items(b.freecells.take(ci + 1)) =~= items);
                }
            },
        }
        ci += 1;
    }
    assert(b.freecells.take(cells@.len() as int) =~= b.freecells);
    let tableau = game.tableau();
    let mut ti: usize = 0;
    assert(b.tableau.take(0) =~= Seq::<Seq<Card>>::empty());
    assert(fpart + cpart + piles_items(b.tableau.take(0), false) =~= fpart + cpart);
    while ti < tableau.len()
        invariant
            b == game@,
            whole == audit_items(b),
            whole == fpart + cpart + tpart,
            tpart == piles_items(b.tableau, false),
            whole.len() == fc_total(b),
            fc_total(b) <= usize::MAX,
            tableau@.len() == b.tableau.len(),
            forall|j: int| 0 <= j < tableau@.len() ==> (#[trigger] tableau@[j])@ == b.tableau[j],
            ti <= tableau@.len(),
            seen_ok(seen@, fpart + cpart + piles_items(b.tableau.take(ti as int), false)),
            first_flaw(fpart + cpart + piles_items(b.tableau.take(ti as int), false)) is None,
            total == (fpart + cpart + piles_items(b.tableau.take(ti as int), false)).len(),
        decreases tableau@.len() - ti,
    {
        let ghost items = fpart + cpart + piles_items(b.tableau.take(ti as int), false);
        proof {
            lemma_piles_items_step(b.tableau, ti as int, false);
            lemma_piles_items_prefix(b.tableau, ti + 1, false);
            let x = piles_items(b.tableau.take(ti + 1), false);
            let next = fpart + cpart + x;
            assert(next =~= items + pile_items(b.tableau[ti as int], None));
            assert(next.is_prefix_of(whole)) by {
                assert(next =~= whole.subrange(0, next.len() as int)) by {
                    assert forall|i: int| 0 <= i < next.len() implies next[i] == whole[i] by {
                        let head = fpart + cpart;
                        if i >= head.len() {
                            assert(x[i - head.len()] == tpart[i - head.len()]);
                        }
                    }
                }
            }
            assert(slot_of(None) == None::<int>);
        }
        let found = audit_pile(&tableau[ti], None, &mut seen, &mut total, Ghost(items), Ghost(fc_total(b) as int));
        if found.is_some() {
            proof {
                let next = fpart + cpart + piles_items(b.tableau.take(ti + 1), false);
                lemma_found_in_prefix(next, whole, found);
            }
            return found;
        }
        proof {
            assert(items + pile_items(b.tableau[ti as int], None) =~= fpart + cpart + piles_items(b.tableau.take(ti + 1), false));
        }
        ti += 1;
    }
    assert(b.tableau.take(tableau@.len() as int) =~= b.tableau);
    let expected = game.card_count_mode().card_count() as usize;
    if total != expected {
        return Some(FreecellFlaw::Accounting { total, expected });
    }
    None
}

/// The text the robot reports for a FreeCell flaw.
pub open spec fn freecell_flaw_text(f: FreecellFlaw) -> Seq<char> {
    match f {
        FreecellFlaw::FoundationFaceDown => "freecell foundation contains face-down card"@,
        FreecellFlaw::FoundationSuitMismatch => "freecell foundation suit mismatch"@,
        FreecellFlaw::FoundationRankOrder => "freecell foundation rank ordering invalid"@,
        FreecellFlaw::CellFaceDown => "freecell freecell-slot contains face-down card"@,
        FreecellFlaw::TableauFaceDown => "freecell tableau contains face-down card"@,
        FreecellFlaw::Duplicate => "freecell duplicate card detected"@,
        FreecellFlaw::Accounting { total, expected } => "freecell card accounting mismatch (total="@
            + decimal_chars(total as nat) + ", unique="@ + decimal_chars(total as nat) + ", expected="@
            + decimal_chars(expected as nat) + ")"@,
    }
}

pub fn freecell_flaw_detail(f: FreecellFlaw) -> (r: String)
    ensures
        r@ == freecell_flaw_text(f),
{
    match f {
        FreecellFlaw::FoundationFaceDown => String::from_str("freecell foundation contains face-down card"),
        FreecellFlaw::FoundationSuitMismatch => String::from_str("freecell foundation suit mismatch"),
        FreecellFlaw::FoundationRankOrder => String::from_str("freecell foundation rank ordering invalid"),
        FreecellFlaw::CellFaceDown => String::from_str("freecell freecell-slot contains face-down card"),
        FreecellFlaw::TableauFaceDown => String::from_str("freecell tableau contains face-down card"),
        FreecellFlaw::Duplicate => String::from_str("freecell duplicate card detected"),
        FreecellFlaw::Accounting { total, expected } => {
            let mut out = String::from_str("freecell card accounting mismatch (total=");
            let t = decimal_text(total as u64);
            push_text(&mut out, t.as_str());
            push_text(&mut out, ", unique=");
            push_text(&mut out, t.as_str());
            push_text(&mut out, ", expected=");
            let e = decimal_text(expected as u64);
            push_text(&mut out, e.as_str());
            push_text(&mut out, ")");
            out
        },
    }
}

} // verus!
