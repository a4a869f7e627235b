//! The `key=value` fields of the robot's status lines that describe the
//! board, the progress, and the move just played, for Spider and FreeCell.

use vstd::prelude::*;
use crate::cards::Card;
use crate::freecell::{empty_columns, fc_ok, occupied, FreecellGame};
use crate::freecell_eval::{freecell_empty_cells, freecell_empty_columns};
use crate::moves::HintMove;
use crate::spider::{board_ok, pile_card_sum, SpiderGame};
use crate::spider_metrics::{
    empty_total, face_up_total, hidden_total, lemma_prefix_sum_bounded, lemma_totals_bounded, pile_face_up,
    pile_hidden, spider_empty_col_count, spider_face_up_count, spider_hidden_count,
};
use crate::text::{decimal_chars, decimal_text, push_text};

verus! {

pub open spec fn num(n: nat) -> Seq<char> {
    decimal_chars(n)
}

fn push_num(out: &mut String, n: usize)
    ensures
        final(out)@ == old(out)@ + num(n as nat),
{
    let d = decimal_text(n as u64);
    push_text(out, d.as_str());
}

/// Face-up and face-down cards across some columns.
fn face_counts(t: &Vec<Vec<Card>>, Ghost(piles): Ghost<Seq<Seq<Card>>>) -> (r: (usize, usize))
    requires
        t@.len() == piles.len(),
        forall|j: int| 0 <= j < t@.len() ==> (#[trigger] t@[j])@ == piles[j],
        pile_card_sum(piles) <= 104,
    ensures
        r.0 == face_up_total(piles),
        r.1 == hidden_total(piles),
{
    let mut up: usize = 0;
    let mut down: usize = 0;
    let mut i: usize = 0;
    while i < t.len()
        invariant
            t@.len() == piles.len(),
            forall|j: int| 0 <= j < t@.len() ==> (#[trigger] t@[j])@ == piles[j],
            pile_card_sum(piles) <= 104,
            i <= t@.len(),
            up == face_up_total(piles.take(i as int)),
            down == hidden_total(piles.take(i as int)),
        decreases t@.len() - i,
    {
        let ghost next = piles.take(i + 1);
        assert(next.drop_last() =~= piles.take(i as int));
        proof {
            lemma_prefix_sum_bounded(piles, i + 1);
            lemma_totals_bounded(next);
            crate::spider::lemma_pile_card_sum_ge(piles, i as int);
        }
        up = up + pile_face_up(&t[i]);
        down = down + pile_hidden(&t[i]);
        i += 1;
    }
    assert(piles.take(t@.len() as int) =~= piles);
    (up, down)
}

// ---------------------------------------------------------------------------
// Board fields
// ---------------------------------------------------------------------------

pub open spec fn spider_board_text(stock: nat, runs: nat, empty: nat, nonempty: nat, up: nat, down: nat) -> Seq<char> {
    " stock_cards="@ + num(stock) + " waste_cards=na foundation_cards=na completed_runs="@ + num(runs)
        + " tableau_empty_cols="@ + num(empty) + " tableau_nonempty_cols="@ + num(nonempty)
        + " tableau_face_up_cards="@ + num(up) + " tableau_face_down_cards="@ + num(down)
}

/// The board fields of a Spider status line.
pub fn spider_board_fields(game: &SpiderGame) -> (r: String)
    requires
        board_ok(game@),
    ensures
        r@ == spider_board_text(
            game@.stock.len(),
            game@.completed_runs,
            empty_total(game@.piles),
            (game@.piles.len() - empty_total(game@.piles)) as nat,
            face_up_total(game@.piles),
            hidden_total(game@.piles),
        ),
{
    proof {
        lemma_totals_bounded(game@.piles);
    }
    let empty = spider_empty_col_count(game);
    let nonempty = game.tableau().len() - empty;
    let mut out = String::from_str(" stock_cards=");
    push_num(&mut out, game.stock_len());
    push_text(&mut out, " waste_cards=na foundation_cards=na completed_runs=");
    push_num(&mut out, game.completed_runs());
    push_text(&mut out, " tableau_empty_cols=");
    push_num(&mut out, empty);
    push_text(&mut out, " tableau_nonempty_cols=");
    push_num(&mut out, nonempty);
    push_text(&mut out, " tableau_face_up_cards=");
    push_num(&mut out, spider_face_up_count(game));
    push_text(&mut out, " tableau_face_down_cards=");
    push_num(&mut out, spider_hidden_count(game));
    out
}

pub open spec fn freecell_board_text(occupied_cells: nat, foundation: nat, empty: nat, nonempty: nat, up: nat, down: nat) -> Seq<char> {
    " stock_cards=na waste_cards="@ + num(occupied_cells) + " foundation_cards="@ + num(foundation)
        + " completed_runs=na tableau_empty_cols="@ + num(empty) + " tableau_nonempty_cols="@ + num(nonempty)
        + " tableau_face_up_cards="@ + num(up) + " tableau_face_down_cards="@ + num(down)
}

/// The board fields of a FreeCell status line; the occupied free cells
/// stand where Klondike reports its waste.
pub fn freecell_board_fields(game: &FreecellGame) -> (r: String)
    requires
        fc_ok(game@),
    ensures
        r@ == freecell_board_text(
            occupied(game@.freecells),
            pile_card_sum(game@.foundations),
            empty_columns(game@.tableau),
            (game@.tableau.len() - empty_columns(game@.tableau)) as nat,
            face_up_total(game@.tableau),
            hidden_total(game@.tableau),
        ),
{
    let occupied_cells = 4 - freecell_empty_cells(game);
    let foundation = game.foundation_card_count();
    let empty = freecell_empty_columns(game);
    let tableau = game.tableau();
    let nonempty = tableau.len() - empty;
    let (up, down) = face_counts(tableau, Ghost(game@.tableau));
    let mut out = String::from_str(" stock_cards=na waste_cards=");
    push_num(&mut out, occupied_cells);
    push_text(&mut out, " foundation_cards=");
    push_num(&mut out, foundation);
    push_text(&mut out, " completed_runs=na tableau_empty_cols=");
    push_num(&mut out, empty);
    push_text(&mut out, " tableau_nonempty_cols=");
    push_num(&mut out, nonempty);
    push_text(&mut out, " tableau_face_up_cards=");
    push_num(&mut out, up);
    push_text(&mut out, " tableau_face_down_cards=");
    push_num(&mut out, down);
    out
}

// ---------------------------------------------------------------------------
// Progress fields
// ---------------------------------------------------------------------------

pub open spec fn progress_text(kind: Seq<char>, value: nat, score: nat) -> Seq<char> {
    " progress_kind="@ + kind + " progress_value="@ + num(value) + " progress_score="@ + num(score)
}

/// Spider progress: completed runs, scored a hundred each.
pub fn spider_progress_fields(game: &SpiderGame) -> (r: String)
    requires
        board_ok(game@),
    ensures
        r@ == progress_text("completed_runs"@, game@.completed_runs, game@.completed_runs * 100),
{
    let runs = game.completed_runs();
    let mut out = String::from_str(" progress_kind=completed_runs progress_value=");
    push_num(&mut out, runs);
    push_text(&mut out, " progress_score=");
    push_num(&mut out, runs * 100);
    proof {
        reveal_strlit(" progress_kind=completed_runs progress_value=");
        reveal_strlit(" progress_kind=");
        reveal_strlit("completed_runs");
        reveal_strlit(" progress_value=");
        assert(" progress_kind=completed_runs progress_value="@ =~= " progress_kind="@ + "completed_runs"@
            + " progress_value="@);
    }
    out
}

/// FreeCell progress: foundation cards, scored ten each.
pub fn freecell_progress_fields(game: &FreecellGame) -> (r: String)
    requires
        fc_ok(game@),
    ensures
        r@ == progress_text("foundation_cards"@, pile_card_sum(game@.foundations), pile_card_sum(game@.foundations) * 10),
{
    let cards = game.foundation_card_count();
    let mut out = String::from_str(" progress_kind=foundation_cards progress_value=");
    push_num(&mut out, cards);
    push_text(&mut out, " progress_score=");
    push_num(&mut out, cards * 10);
    proof {
        reveal_strlit(" progress_kind=foundation_cards progress_value=");
        reveal_strlit(" progress_kind=");
        reveal_strlit("foundation_cards");
        reveal_strlit(" progress_value=");
        assert(" progress_kind=foundation_cards progress_value="@ =~= " progress_kind="@ + "foundation_cards"@
            + " progress_value="@);
    }
    out
}

// ---------------------------------------------------------------------------
// Move fields
// ---------------------------------------------------------------------------

pub open spec fn no_move_text() -> Seq<char> {
    " move_kind=na src_col=na src_start=na dst_col=na cards_moved_total=na draw_from_stock_cards=na recycle_cards=na"@
}

/// The fields of a move; `run_cards` is how many cards a run move takes
/// and `draw` the text of a draw, both as the game in play has them.
pub open spec fn move_text(m: HintMove, run_cards: nat, draw: Seq<char>) -> Seq<char> {
    match m {
        HintMove::WasteToFoundation => " move_kind=waste_to_foundation src_col=na src_start=na dst_col=foundation cards_moved_total=1 draw_from_stock_cards=na recycle_cards=na"@,
        HintMove::TableauTopToFoundation { src } => " move_kind=tableau_top_to_foundation src_col="@ + num(src as nat)
            + " src_start=top dst_col=foundation cards_moved_total=1 draw_from_stock_cards=na recycle_cards=na"@,
        HintMove::WasteToTableau { dst } => " move_kind=waste_to_tableau src_col=waste src_start=top dst_col="@ + num(dst as nat)
            + " cards_moved_total=1 draw_from_stock_cards=na recycle_cards=na"@,
        HintMove::TableauRunToTableau { src, start, dst } => " move_kind=tableau_run_to_tableau src_col="@ + num(src as nat)
            + " src_start="@ + num(start as nat) + " dst_col="@ + num(dst as nat) + " cards_moved_total="@ + num(run_cards)
            + " draw_from_stock_cards=na recycle_cards=na"@,
        HintMove::Draw => draw,
    }
}

fn move_fields_with(hint_move: HintMove, run_cards: usize, draw: String) -> (r: String)
    ensures
        r@ == move_text(hint_move, run_cards as nat, draw@),
{
    match hint_move {
        HintMove::WasteToFoundation => String::from_str(
            " move_kind=waste_to_foundation src_col=na src_start=na dst_col=foundation cards_moved_total=1 draw_from_stock_cards=na recycle_cards=na",
        ),
        HintMove::TableauTopToFoundation { src } => {
            let mut out = String::from_str(" move_kind=tableau_top_to_foundation src_col=");
            push_num(&mut out, src);
            push_text(&mut out, " src_start=top dst_col=foundation cards_moved_total=1 draw_from_stock_cards=na recycle_cards=na");
            out
        },
        HintMove::WasteToTableau { dst } => {
            let mut out = String::from_str(" move_kind=waste_to_tableau src_col=waste src_start=top dst_col=");
            push_num(&mut out, dst);
            push_text(&mut out, " cards_moved_total=1 draw_from_stock_cards=na recycle_cards=na");
            out
        },
        HintMove::TableauRunToTableau { src, start, dst } => {
            let mut out = String::from_str(" move_kind=tableau_run_to_tableau src_col=");
            push_num(&mut out, src);
            push_text(&mut out, " src_start=");
            push_num(&mut out, start);
            push_text(&mut out, " dst_col=");
            push_num(&mut out, dst);
            push_text(&mut out, " cards_moved_total=");
            push_num(&mut out, run_cards);
            push_text(&mut out, " draw_from_stock_cards=na recycle_cards=na");
            out
        },
        HintMove::Draw => draw,
    }
}

/// Cards a run move from `start` in column `src` carries (none if there is no such column).
pub open spec fn spider_run_cards(piles: Seq<Seq<Card>>, src: int, start: int) -> nat {
    if 0 <= src < piles.len() && start < piles[src].len() {
        (piles[src].len() - start) as nat
    } else {
        0
    }
}

pub open spec fn spider_draw_text(stock: nat) -> Seq<char> {
    let n = if stock < 10 { stock } else { 10 };
    " move_kind=draw src_col=stock src_start=top dst_col=tableau cards_moved_total="@ + num(n)
        + " draw_from_stock_cards="@ + num(n) + " recycle_cards=0"@
}

/// The move fields of a Spider status line.
pub fn spider_move_fields(game: &SpiderGame, hint_move: Option<HintMove>) -> (r: String)
    ensures
        r@ == match hint_move {
            None => no_move_text(),
            Some(m) => move_text(
                m,
                match m {
                    HintMove::TableauRunToTableau { src, start, .. } => spider_run_cards(game@.piles, src as int, start as int),
                    _ => 0,
                },
                spider_draw_text(game@.stock.len()),
            ),
        },
{
    let m = match hint_move {
        None => {
            return String::from_str(
                " move_kind=na src_col=na src_start=na dst_col=na cards_moved_total=na draw_from_stock_cards=na recycle_cards=na",
            );
        },
        Some(m) => m,
    };
    let run_cards = match m {
        HintMove::TableauRunToTableau { src, start, .. } => {
            let tableau = game.tableau();
            if src < tableau.len() && start < tableau[src].len() {
                tableau[src].len() - start
            } else {
                0
            }
        },
        _ => 0,
    };
    let stock = game.stock_len();
    let n = if stock < 10 { stock } else { 10 };
    let mut draw = String::from_str(" move_kind=draw src_col=stock src_start=top dst_col=tableau cards_moved_total=");
    push_num(&mut draw, n);
    push_text(&mut draw, " draw_from_stock_cards=");
    push_num(&mut draw, n);
    push_text(&mut draw, " recycle_cards=0");
    move_fields_with(m, run_cards, draw)
}

pub open spec fn freecell_draw_text() -> Seq<char> {
    " move_kind=draw src_col=na src_start=na dst_col=na cards_moved_total=0 draw_from_stock_cards=0 recycle_cards=0"@
}

/// The move fields of a FreeCell status line: FreeCell has no run count
/// and no stock.
pub fn freecell_move_fields(hint_move: Option<HintMove>) -> (r: String)
    ensures
        r@ == match hint_move {
            None => no_move_text(),
            Some(m) => move_text(m, 0, freecell_draw_text()),
        },
{
    match hint_move {
        None => String::from_str(
            " move_kind=na src_col=na src_start=na dst_col=na cards_moved_total=na draw_from_stock_cards=na recycle_cards=na",
        ),
        Some(m) => move_fields_with(
            m,
            0,
            String::from_str(
                " move_kind=draw src_col=na src_start=na dst_col=na cards_moved_total=0 draw_from_stock_cards=0 recycle_cards=0",
            ),
        ),
    }
}

} // verus!
