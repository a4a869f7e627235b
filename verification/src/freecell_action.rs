//! Moves of a FreeCell game as the planner and the wand name them.

use vstd::prelude::*;

verus! {

/// One FreeCell move.
#[derive(Debug, Clone, Copy, PartialEq, Eq, Hash, Structural)]
pub enum FreecellPlannerAction {
    TableauToFoundation { src: usize },
    FreecellToFoundation { cell: usize },
    TableauRunToTableau { src: usize, start: usize, dst: usize },
    TableauToFreecell { src: usize, cell: usize },
    FreecellToTableau { cell: usize, dst: usize },
}

} // verus!
