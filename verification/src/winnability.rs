//! Seed winnability: stop reasons, budgets, and the best-first search that
//! looks for a winning Spider line.

use vstd::prelude::*;
use std::collections::HashSet;
use std::sync::atomic::AtomicBool;
use crate::freecell_action::FreecellPlannerAction;
use crate::moves::HintMove;
use crate::spider::SpiderSuitMode;

verus! {

/// A step of a Klondike solver line.
pub type SolverMove = HintMove;

/// The outcome of checking one seed.
#[derive(Debug, Clone)]
pub struct SeedWinnabilityCheckResult {
    pub winnable: bool,
    pub iterations: usize,
    pub moves_to_win: Option<u32>,
    pub hit_state_limit: bool,
    pub solver_line: Option<Vec<SolverMove>>,
    pub hint_line: Option<Vec<HintMove>>,
    pub freecell_line: Option<Vec<FreecellPlannerAction>>,
    pub canceled: bool,
}

/// Why a FreeCell playthrough stopped.
#[derive(Debug, Clone, Copy, PartialEq, Eq, Structural)]
pub enum FreecellFindStopReason {
    Unset,
    Won,
    NoAction,
    RepeatState,
    StepLimit,
    Canceled,
    InvalidMove,
}

/// Why a Spider playthrough stopped.
#[derive(Debug, Clone, Copy, PartialEq, Eq, Structural)]
pub enum SpiderFindStopReason {
    Unset,
    Won,
    NoAction,
    RepeatState,
    StepLimit,
    Canceled,
    RepeatStateCycle,
    RepeatStateStagnation,
    PostStockStall,
}

pub open spec fn spider_reason_code(r: SpiderFindStopReason) -> u8 {
    match r {
        SpiderFindStopReason::Unset => 0,
        SpiderFindStopReason::Won => 1,
        SpiderFindStopReason::NoAction => 2,
        SpiderFindStopReason::RepeatState => 3,
        SpiderFindStopReason::StepLimit => 4,
        SpiderFindStopReason::Canceled => 5,
        SpiderFindStopReason::RepeatStateCycle => 6,
        SpiderFindStopReason::RepeatStateStagnation => 7,
        SpiderFindStopReason::PostStockStall => 8,
    }
}

pub open spec fn freecell_reason_code(r: FreecellFindStopReason) -> u8 {
    match r {
        FreecellFindStopReason::Unset => 0,
        FreecellFindStopReason::Won => 1,
        FreecellFindStopReason::NoAction => 2,
        FreecellFindStopReason::RepeatState => 3,
        FreecellFindStopReason::StepLimit => 4,
        FreecellFindStopReason::Canceled => 5,
        FreecellFindStopReason::InvalidMove => 6,
    }
}

/// The Spider reason stored under a code; unknown codes read as unset.
pub open spec fn spider_reason_of_code(code: u8) -> SpiderFindStopReason {
    if code == 1 {
        SpiderFindStopReason::Won
    } else if code == 2 {
        SpiderFindStopReason::NoAction
    } else if code == 3 {
        SpiderFindStopReason::RepeatState
    } else if code == 4 {
        SpiderFindStopReason::StepLimit
    } else if code == 5 {
        SpiderFindStopReason::Canceled
    } else if code == 6 {
        SpiderFindStopReason::RepeatStateCycle
    } else if code == 7 {
        SpiderFindStopReason::RepeatStateStagnation
    } else if code == 8 {
        SpiderFindStopReason::PostStockStall
    } else {
        SpiderFindStopReason::Unset
    }
}

/// The FreeCell reason stored under a code; unknown codes read as unset.
pub open spec fn freecell_reason_of_code(code: u8) -> FreecellFindStopReason {
    if code == 1 {
        FreecellFindStopReason::Won
    } else if code == 2 {
        FreecellFindStopReason::NoAction
    } else if code == 3 {
        FreecellFindStopReason::RepeatState
    } else if code == 4 {
        FreecellFindStopReason::StepLimit
    } else if code == 5 {
        FreecellFindStopReason::Canceled
    } else if code == 6 {
        FreecellFindStopReason::InvalidMove
    } else {
        FreecellFindStopReason::Unset
    }
}

pub open spec fn spider_reason_label(r: SpiderFindStopReason) -> Seq<char> {
    match r {
        SpiderFindStopReason::Unset => "none"@,
        SpiderFindStopReason::Won => "won"@,
        SpiderFindStopReason::NoAction => "no_action"@,
        SpiderFindStopReason::RepeatState => "repeat_state"@,
        SpiderFindStopReason::StepLimit => "step_limit"@,
        SpiderFindStopReason::Canceled => "canceled"@,
        SpiderFindStopReason::RepeatStateCycle => "repeat_state_cycle"@,
        SpiderFindStopReason::RepeatStateStagnation => "repeat_state_stagnation"@,
        SpiderFindStopReason::PostStockStall => "post_stock_stall"@,
    }
}

pub open spec fn freecell_reason_label(r: FreecellFindStopReason) -> Seq<char> {
    match r {
        FreecellFindStopReason::Unset => "none"@,
        FreecellFindStopReason::Won => "won"@,
        FreecellFindStopReason::NoAction => "no_action"@,
        FreecellFindStopReason::RepeatState => "repeat_state"@,
        FreecellFindStopReason::StepLimit => "step_limit"@,
        FreecellFindStopReason::Canceled => "canceled"@,
        FreecellFindStopReason::InvalidMove => "invalid_move"@,
    }
}

impl SpiderFindStopReason {
    /// The reason stored under `code`; unknown codes read as `None`.
    pub fn from_code(code: u8) -> (r: Self)
        ensures
            r == spider_reason_of_code(code),
    {
        match code {
            1 => Self::Won,
            2 => Self::NoAction,
            3 => Self::RepeatState,
            4 => Self::StepLimit,
            5 => Self::Canceled,
            6 => Self::RepeatStateCycle,
            7 => Self::RepeatStateStagnation,
            8 => Self::PostStockStall,
            _ => Self::Unset,
        }
    }

    /// The code under which the reason is stored.
    pub fn code(self) -> (r: u8)
        ensures
            r == spider_reason_code(self),
    {
        match self {
            Self::Unset => 0,
            Self::Won => 1,
            Self::NoAction => 2,
            Self::RepeatState => 3,
            Self::StepLimit => 4,
            Self::Canceled => 5,
            Self::RepeatStateCycle => 6,
            Self::RepeatStateStagnation => 7,
            Self::PostStockStall => 8,
        }
    }

    pub fn as_label(self) -> (r: &'static str)
        ensures
            r@ == spider_reason_label(self),
    {
        match self {
            Self::Unset => "none",
            Self::Won => "won",
            Self::NoAction => "no_action",
            Self::RepeatState => "repeat_state",
            Self::StepLimit => "step_limit",
            Self::Canceled => "canceled",
            Self::RepeatStateCycle => "repeat_state_cycle",
            Self::RepeatStateStagnation => "repeat_state_stagnation",
            Self::PostStockStall => "post_stock_stall",
        }
    }
}

impl FreecellFindStopReason {
    /// The reason stored under `code`; unknown codes read as `None`.
    pub fn from_code(code: u8) -> (r: Self)
        ensures
            r == freecell_reason_of_code(code),
    {
        match code {
            1 => Self::Won,
            2 => Self::NoAction,
            3 => Self::RepeatState,
            4 => Self::StepLimit,
            5 => Self::Canceled,
            6 => Self::InvalidMove,
            _ => Self::Unset,
        }
    }

    /// The code under which the reason is stored.
    pub fn code(self) -> (r: u8)
        ensures
            r == freecell_reason_code(self),
    {
        match self {
            Self::Unset => 0,
            Self::Won => 1,
            Self::NoAction => 2,
            Self::RepeatState => 3,
            Self::StepLimit => 4,
            Self::Canceled => 5,
            Self::InvalidMove => 6,
        }
    }

    pub fn as_label(self) -> (r: &'static str)
        ensures
            r@ == freecell_reason_label(self),
    {
        match self {
            Self::Unset => "none",
            Self::Won => "won",
            Self::NoAction => "no_action",
            Self::RepeatState => "repeat_state",
            Self::StepLimit => "step_limit",
            Self::Canceled => "canceled",
            Self::InvalidMove => "invalid_move",
        }
    }
}

/// Law: reading back the code a Spider stop reason is stored under gives
/// the reason, and only the unset reason is stored as zero.
pub proof fn lemma_spider_reason_code_roundtrip(r: SpiderFindStopReason)
    ensures
        spider_reason_of_code(spider_reason_code(r)) == r,
        r == SpiderFindStopReason::Unset <==> spider_reason_code(r) == 0,
{
}

/// Law: reading back the code a FreeCell stop reason is stored under gives
/// the reason, and only the unset reason is stored as zero.
pub proof fn lemma_freecell_reason_code_roundtrip(r: FreecellFindStopReason)
    ensures
        freecell_reason_of_code(freecell_reason_code(r)) == r,
        r == FreecellFindStopReason::Unset <==> freecell_reason_code(r) == 0,
{
}

/// The label of a stored FreeCell stop-reason code.
pub fn freecell_find_stop_reason_label(code: u8) -> (r: &'static str)
    ensures
        r@ == freecell_reason_label(freecell_reason_of_code(code)),
{
    FreecellFindStopReason::from_code(code).as_label()
}

/// The label of a stored Spider stop-reason code.
pub fn spider_find_stop_reason_label(code: u8) -> (r: &'static str)
    ensures
        r@ == spider_reason_label(spider_reason_of_code(code)),
{
    SpiderFindStopReason::from_code(code).as_label()
}

} // verus!
