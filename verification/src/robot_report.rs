//! Small pieces of the robot's reports: quoting values in status lines, the
//! tally of FreeCell move kinds, run counts and when a periodic benchmark
//! line is due, and the window-size rule for the phone layout.

use vstd::prelude::*;
use crate::freecell_action::FreecellPlannerAction;
use crate::robot_guard::sat_inc;
use crate::text::{chars_of, push_char, push_text};

verus! {

/// A value quoted for a status line: backslashes, double quotes and line
/// breaks are escaped.
pub open spec fn robot_quoted(s: Seq<char>) -> Seq<char>
    decreases s.len(),
{
    if s.len() == 0 {
        Seq::empty()
    } else {
        let c = s.last();
        robot_quoted(s.drop_last()) + if c == '\\' {
            seq!['\\', '\\']
        } else if c == '"' {
            seq!['\\', '"']
        } else if c == '\n' {
            seq!['\\', 'n']
        } else {
            seq![c]
        }
    }
}

pub fn robot_quote(value: &str) -> (r: String)
    ensures
        r@ == robot_quoted(value@),
{
    let cs = chars_of(value);
    let mut out = String::new();
    let mut i: usize = 0;
    proof {
        reveal_strlit("\\\\");
        reveal_strlit("\\\"");
        reveal_strlit("\\n");
    }
    while i < cs.len()
        invariant
            i <= cs@.len(),
            out@ == robot_quoted(cs@.take(i as int)),
            "\\\\"@ == seq!['\\', '\\'],
            "\\\""@ == seq!['\\', '"'],
            "\\n"@ == seq!['\\', 'n'],
        decreases cs@.len() - i,
    {
        let c = cs[i];
        let ghost t = cs@.take(i + 1);
        assert(t.drop_last() =~= cs@.take(i as int));
        if c == '\\' {
            push_text(&mut out, "\\\\");
        } else if c == '"' {
            push_text(&mut out, "\\\"");
        } else if c == '\n' {
            push_text(&mut out, "\\n");
        } else {
            push_char(&mut out, c);
        }
        i += 1;
        assert(out@ =~= robot_quoted(cs@.take(i as int)));
    }
    assert(cs@.take(cs@.len() as int) =~= cs@);
    out
}

/// How many FreeCell moves of each kind the robot played, and the most free
/// cells it had in use at once.
#[derive(Debug, Clone, Copy, PartialEq, Eq, Structural)]
pub struct FreecellMoveTally {
    pub tableau_to_foundation: u32,
    pub cell_to_foundation: u32,
    pub tableau_to_tableau: u32,
    pub tableau_to_cell: u32,
    pub cell_to_tableau: u32,
    pub peak_cells_used: u32,
}

impl FreecellMoveTally {
    pub fn new() -> (r: Self)
        ensures
            r == (FreecellMoveTally {
                tableau_to_foundation: 0,
                cell_to_foundation: 0,
                tableau_to_tableau: 0,
                tableau_to_cell: 0,
                cell_to_tableau: 0,
                peak_cells_used: 0,
            }),
    {
        FreecellMoveTally {
            tableau_to_foundation: 0,
            cell_to_foundation: 0,
            tableau_to_tableau: 0,
            tableau_to_cell: 0,
            cell_to_tableau: 0,
            peak_cells_used: 0,
        }
    }

    /// Counts a played move (saturating) and the free cells in use after it.
    pub fn note(&mut self, action: FreecellPlannerAction, cells_used: u32)
        ensures
            final(self).tableau_to_foundation == if action is TableauToFoundation {
                sat_inc(old(self).tableau_to_foundation)
            } else {
                old(self).tableau_to_foundation
            },
            final(self).cell_to_foundation == if action is FreecellToFoundation {
                sat_inc(old(self).cell_to_foundation)
            } else {
                old(self).cell_to_foundation
            },
            final(self).tableau_to_tableau == if action is TableauRunToTableau {
                sat_inc(old(self).tableau_to_tableau)
            } else {
                old(self).tableau_to_tableau
            },
            final(self).tableau_to_cell == if action is TableauToFreecell {
                sat_inc(old(self).tableau_to_cell)
            } else {
                old(self).tableau_to_cell
            },
            final(self).cell_to_tableau == if action is FreecellToTableau {
                sat_inc(old(self).cell_to_tableau)
            } else {
                old(self).cell_to_tableau
            },
            final(self).peak_cells_used == if cells_used > old(self).peak_cells_used {
                cells_used
            } else {
                old(self).peak_cells_used
            },
    {
        match action {
            FreecellPlannerAction::TableauToFoundation { .. } => {
                self.tableau_to_foundation = self.tableau_to_foundation.saturating_add(1);
            },
            FreecellPlannerAction::FreecellToFoundation { .. } => {
                self.cell_to_foundation = self.cell_to_foundation.saturating_add(1);
            },
            FreecellPlannerAction::TableauRunToTableau { .. } => {
                self.tableau_to_tableau = self.tableau_to_tableau.saturating_add(1);
            },
            FreecellPlannerAction::TableauToFreecell { .. } => {
                self.tableau_to_cell = self.tableau_to_cell.saturating_add(1);
            },
            FreecellPlannerAction::FreecellToTableau { .. } => {
                self.cell_to_tableau = self.cell_to_tableau.saturating_add(1);
            },
        }
        if cells_used > self.peak_cells_used {
            self.peak_cells_used = cells_used;
        }
    }

    /// All FreeCell moves played (saturating).
    pub fn total_moves(&self) -> (r: u32)
        ensures
            r == ({
                let s = self.tableau_to_foundation as int + self.cell_to_foundation + self.tableau_to_tableau
                    + self.tableau_to_cell + self.cell_to_tableau;
                if s > u32::MAX { u32::MAX as int } else { s }
            }),
    {
        let a = self.tableau_to_foundation as u64 + self.cell_to_foundation as u64 + self.tableau_to_tableau as u64
            + self.tableau_to_cell as u64 + self.cell_to_tableau as u64;
        if a > u32::MAX as u64 {
            u32::MAX
        } else {
            a as u32
        }
    }
}

/// Runs the robot finished: wins and losses (saturating).
pub fn robot_total_runs(wins: u32, losses: u32) -> (r: u32)
    ensures
        r == (if wins + losses > u32::MAX { u32::MAX as int } else { wins + losses }),
{
    wins.saturating_add(losses)
}

/// A benchmark line is due after every `interval` runs, once per total.
pub fn benchmark_dump_due(total: u32, interval: u32, last_dumped_total: u32) -> (r: bool)
    requires
        interval > 0,
    ensures
        r == (total != 0 && total % interval == 0 && last_dumped_total != total),
{
    total != 0 && total % interval == 0 && last_dumped_total != total
}

/// The phone layout applies when the window is at most `enter_px` wide or
/// high; once in it, the window must grow past `enter_px + hysteresis_px`
/// to leave it, so that resizing near the breakpoint does not flap.
pub fn is_mobile_phone_breakpoint(in_phone_mode: bool, width: i32, height: i32, enter_px: i32, hysteresis_px: i32) -> (r: bool)
    requires
        enter_px + hysteresis_px <= i32::MAX,
        enter_px + hysteresis_px >= i32::MIN,
    ensures
        r == (if in_phone_mode {
            width <= enter_px + hysteresis_px || height <= enter_px + hysteresis_px
        } else {
            width <= enter_px || height <= enter_px
        }),
{
    let exit = enter_px + hysteresis_px;
    if in_phone_mode {
        width <= exit || height <= exit
    } else {
        width <= enter_px || height <= enter_px
    }
}

} // verus!
