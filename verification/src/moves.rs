//! Moves proposed by hints and solvers.

use vstd::prelude::*;

verus! {

/// A single move on a Klondike- or Spider-style board.
#[derive(Debug, Clone, Copy, PartialEq, Eq, Hash, Structural)]
pub enum HintMove {
    WasteToFoundation,
    TableauTopToFoundation { src: usize },
    WasteToTableau { dst: usize },
    TableauRunToTableau { src: usize, start: usize, dst: usize },
    Draw,
}

} // verus!
