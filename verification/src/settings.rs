//! User-facing settings: how smart moves are triggered and how hard the
//! robot searches, with the text they are stored under.

use vstd::prelude::*;
use crate::text::same_text;

verus! {

/// How a smart move is triggered.
#[derive(Debug, Clone, Copy, PartialEq, Eq, Structural)]
pub enum SmartMoveMode {
    Disabled,
    SingleClick,
    DoubleClick,
}

/// How much effort the robot spends per move.
#[derive(Debug, Clone, Copy, PartialEq, Eq, Structural)]
pub enum RobotStrategy {
    Fast,
    Balanced,
    Deep,
}

pub open spec fn smart_move_setting(m: SmartMoveMode) -> Seq<char> {
    match m {
        SmartMoveMode::Disabled => "disabled"@,
        SmartMoveMode::SingleClick => "single-click"@,
        SmartMoveMode::DoubleClick => "double-click"@,
    }
}

/// The mode stored under `text`; anything unknown reads as double-click.
pub open spec fn smart_move_from_text(text: Seq<char>) -> SmartMoveMode {
    if text == "disabled"@ {
        SmartMoveMode::Disabled
    } else if text == "single-click"@ {
        SmartMoveMode::SingleClick
    } else {
        SmartMoveMode::DoubleClick
    }
}

pub open spec fn strategy_setting(s: RobotStrategy) -> Seq<char> {
    match s {
        RobotStrategy::Fast => "fast"@,
        RobotStrategy::Balanced => "balanced"@,
        RobotStrategy::Deep => "deep"@,
    }
}

/// The strategy stored under `text`; anything unknown reads as balanced.
pub open spec fn strategy_from_text(text: Seq<char>) -> RobotStrategy {
    if text == "fast"@ {
        RobotStrategy::Fast
    } else if text == "balanced"@ {
        RobotStrategy::Balanced
    } else if text == "deep"@ {
        RobotStrategy::Deep
    } else {
        RobotStrategy::Balanced
    }
}

pub open spec fn strategy_label(s: RobotStrategy) -> Seq<char> {
    match s {
        RobotStrategy::Fast => "Fast"@,
        RobotStrategy::Balanced => "Balanced"@,
        RobotStrategy::Deep => "Deep"@,
    }
}

impl SmartMoveMode {
    pub fn as_setting(self) -> (r: &'static str)
        ensures
            r@ == smart_move_setting(self),
    {
        match self {
            Self::Disabled => "disabled",
            Self::SingleClick => "single-click",
            Self::DoubleClick => "double-click",
        }
    }

    pub fn from_setting(value: &str) -> (r: Self)
        ensures
            r == smart_move_from_text(value@),
    {
        if same_text(value, "disabled") {
            Self::Disabled
        } else if same_text(value, "single-click") {
            Self::SingleClick
        } else {
            Self::DoubleClick
        }
    }
}

impl RobotStrategy {
    pub fn as_setting(self) -> (r: &'static str)
        ensures
            r@ == strategy_setting(self),
    {
        match self {
            Self::Fast => "fast",
            Self::Balanced => "balanced",
            Self::Deep => "deep",
        }
    }

    pub fn from_setting(value: &str) -> (r: Self)
        ensures
            r == strategy_from_text(value@),
    {
        if same_text(value, "fast") {
            Self::Fast
        } else if same_text(value, "balanced") {
            Self::Balanced
        } else if same_text(value, "deep") {
            Self::Deep
        } else {
            Self::Balanced
        }
    }

    pub fn label(self) -> (r: &'static str)
        ensures
            r@ == strategy_label(self),
    {
        match self {
            Self::Fast => "Fast",
            Self::Balanced => "Balanced",
            Self::Deep => "Deep",
        }
    }
}

/// Law: a smart-move mode read back from the text it is stored under is the same mode.
pub proof fn lemma_smart_move_setting_roundtrip(m: SmartMoveMode)
    ensures
        smart_move_from_text(smart_move_setting(m)) == m,
{
    reveal_strlit("disabled");
    reveal_strlit("single-click");
    reveal_strlit("double-click");
    assert("disabled"@.len() != "single-click"@.len());
    assert("double-click"@.len() != "disabled"@.len());
    assert("double-click"@[0] != "single-click"@[0]);
}

/// Law: a robot strategy read back from the text it is stored under is the same strategy.
pub proof fn lemma_strategy_setting_roundtrip(s: RobotStrategy)
    ensures
        strategy_from_text(strategy_setting(s)) == s,
{
    reveal_strlit("fast");
    reveal_strlit("balanced");
    reveal_strlit("deep");
    assert("fast"@.len() != "balanced"@.len());
    assert("deep"@[0] != "fast"@[0]);
    assert("deep"@.len() != "balanced"@.len());
}

/// The three games the table offers.
#[derive(Debug, Clone, Copy, PartialEq, Eq, Structural)]
pub enum GameMode {
    Klondike,
    Spider,
    Freecell,
}

pub open spec fn mode_pun_text(mode: GameMode) -> Seq<char> {
    match mode {
        GameMode::Klondike => "🥇 Klondike mode: classic pressure, clean lines."@,
        GameMode::Spider => "🕷️ Spider mode: one web, many traps."@,
        GameMode::Freecell => "🗽 FreeCell mode: freedom through structure."@,
    }
}

/// The line shown when the player switches to `mode`.
pub fn mode_switch_pun(mode: GameMode) -> (r: &'static str)
    ensures
        r@ == mode_pun_text(mode),
{
    match mode {
        GameMode::Klondike => "🥇 Klondike mode: classic pressure, clean lines.",
        GameMode::Spider => "🕷️ Spider mode: one web, many traps.",
        GameMode::Freecell => "🗽 FreeCell mode: freedom through structure.",
    }
}

} // verus!
