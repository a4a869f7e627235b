//! Identity of a Spider position: its byte encoding fed to std's `DefaultHasher`.

use vstd::prelude::*;
use std::collections::hash_map::DefaultHasher;
use std::hash::Hasher;
use vstd::std_specs::hash::DefaultHasherAdditionalSpecFns;
use crate::cards::{Card, Suit};
use crate::spider::{SpiderBoard, SpiderGame, SpiderSuitMode};

verus! {

/// One byte per card: suit, rank and orientation.
pub open spec fn card_byte(c: Card) -> u8 {
    let suit: int = match c.suit {
        Suit::Clubs => 0,
        Suit::Diamonds => 1,
        Suit::Hearts => 2,
        Suit::Spades => 3,
    };
    ((suit * 64 + (c.rank as int % 32) * 2 + (if c.face_up { 1int } else { 0int })) % 256) as u8
}

pub open spec fn cards_bytes(s: Seq<Card>) -> Seq<u8>
    decreases s.len(),
{
    if s.len() == 0 {
        Seq::empty()
    } else {
        cards_bytes(s.drop_last()).push(card_byte(s.last()))
    }
}

/// Each column's cards followed by a separator byte.
pub open spec fn piles_bytes(piles: Seq<Seq<Card>>) -> Seq<u8>
    decreases piles.len(),
{
    if piles.len() == 0 {
        Seq::empty()
    } else {
        (piles_bytes(piles.drop_last()) + cards_bytes(piles.last())).push(0xFFu8)
    }
}

pub open spec fn mode_byte(m: SpiderSuitMode) -> u8 {
    match m {
        SpiderSuitMode::One => 1,
        SpiderSuitMode::Two => 2,
        SpiderSuitMode::Three => 3,
        SpiderSuitMode::Four => 4,
    }
}

/// The encoding of a whole position.
pub open spec fn board_bytes(b: SpiderBoard) -> Seq<u8> {
    (seq![mode_byte(b.suit_mode), (b.completed_runs % 256) as u8] + cards_bytes(b.stock)).push(0xFEu8)
        + piles_bytes(b.piles)
}

/// The hash that identifies a position.
pub open spec fn spider_hash_spec(b: SpiderBoard) -> u64 {
    DefaultHasher::spec_finish(seq![board_bytes(b)])
}

pub fn card_to_byte(c: Card) -> (r: u8)
    ensures
        r == card_byte(c),
{
    let suit: u16 = match c.suit {
        Suit::Clubs => 0,
        Suit::Diamonds => 1,
        Suit::Hearts => 2,
        Suit::Spades => 3,
    };
    let face: u16 = if c.face_up { 1 } else { 0 };
    let v: u16 = (suit * 64 + ((c.rank % 32) as u16) * 2 + face) % 256;
    v as u8
}

pub fn push_cards(out: &mut Vec<u8>, s: &Vec<Card>)
    ensures
        final(out)@ == old(out)@ + cards_bytes(s@),
{
    let ghost start = out@;
    let mut k: usize = 0;
    while k < s.len()
        invariant
            k <= s@.len(),
            out@ == start + cards_bytes(s@.take(k as int)),
        decreases s@.len() - k,
    {
        out.push(card_to_byte(s[k]));
        k += 1;
        assert(s@.take(k as int).drop_last() =~= s@.take(k - 1));
        assert(out@ =~= start + cards_bytes(s@.take(k as int)));
    }
    assert(s@.take(s@.len() as int) =~= s@);
}

/// The byte encoding of a position.
pub fn spider_state_bytes(game: &SpiderGame) -> (r: Vec<u8>)
    ensures
        r@ == board_bytes(game@),
{
    let mut out: Vec<u8> = Vec::new();
    let mode: u8 = match game.suit_mode() {
        SpiderSuitMode::One => 1,
        SpiderSuitMode::Two => 2,
        SpiderSuitMode::Three => 3,
        SpiderSuitMode::Four => 4,
    };
    out.push(mode);
    out.push((game.completed_runs() % 256) as u8);
    let stock = game.stock_cards();
    push_cards(&mut out, stock);
    out.push(0xFEu8);
    let ghost head = out@;
    assert(head =~= (seq![mode_byte(game@.suit_mode), (game@.completed_runs % 256) as u8] + cards_bytes(game@.stock)).push(0xFEu8));
    let tableau = game.tableau();
    let mut i: usize = 0;
    while i < tableau.len()
        invariant
            i <= tableau@.len(),
            tableau@.len() == game@.piles.len(),
            forall|j: int| 0 <= j < tableau@.len() ==> (#[trigger] tableau@[j])@ == game@.piles[j],
            out@ == head + piles_bytes(game@.piles.take(i as int)),
        decreases tableau@.len() - i,
    {
        push_cards(&mut out, &tableau[i]);
        out.push(0xFFu8);
        i += 1;
        assert(game@.piles.take(i as int).drop_last() =~= game@.piles.take(i - 1));
        assert(out@ =~= head + piles_bytes(game@.piles.take(i as int)));
    }
    assert(game@.piles.take(tableau@.len() as int) =~= game@.piles);
    out
}

/// The hash that identifies a position.
pub fn spider_state_hash(game: &SpiderGame) -> (r: u64)
    ensures
        r == spider_hash_spec(game@),
{
    let bytes = spider_state_bytes(game);
    let mut hasher = DefaultHasher::new();
    hasher.write(bytes.as_slice());
    let r = hasher.finish();
    assert(hasher@ =~= seq![board_bytes(game@)]);
    r
}

/// The hash the Spider solver identifies positions by.
pub fn spider_solver_state_hash(game: &SpiderGame) -> (r: u64)
    ensures
        r == spider_hash_spec(game@),
{
    spider_state_hash(game)
}

} // verus!
