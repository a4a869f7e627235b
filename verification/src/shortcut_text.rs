//! Keyboard-shortcut text on buttons and tooltips: several shortcuts of one
//! action are joined with ` / `, and a label carries its shortcut in
//! parentheses.

use vstd::prelude::*;
use crate::session_fields::{trim_spec, trim_text};
use crate::text::{decimal_chars, decimal_text, push_text};

verus! {

pub open spec fn slash_sep() -> Seq<char> {
    seq![' ', '/', ' ']
}

/// The texts joined with ` / ` between them.
pub open spec fn joined_spec(parts: Seq<Seq<char>>) -> Seq<char>
    decreases parts.len(),
{
    if parts.len() == 0 {
        Seq::empty()
    } else if parts.len() == 1 {
        parts[0]
    } else {
        joined_spec(parts.drop_last()) + slash_sep() + parts.last()
    }
}

pub open spec fn views(parts: Seq<String>) -> Seq<Seq<char>> {
    parts.map_values(|p: String| p@)
}

/// The shortcut text of an action: its shortcut labels joined with ` / `,
/// or nothing when it has none.
pub fn shortcut_text(labels: &Vec<String>) -> (r: Option<String>)
    ensures
        labels.len() == 0 ==> r is None,
        labels.len() > 0 ==> (r matches Some(s) && s@ == joined_spec(views(labels@))),
{
    if labels.len() == 0 {
        return None;
    }
    let mut out = labels[0].clone();
    proof {
        reveal_strlit(" / ");
        assert(" / "@ =~= slash_sep());
    }
    let mut i: usize = 1;
    assert(views(labels@).take(1) =~= seq![labels@[0]@]);
    while i < labels.len()
        invariant
            1 <= i <= labels.len(),
            out@ == joined_spec(views(labels@).take(i as int)),
            " / "@ == slash_sep(),
        decreases labels.len() - i,
    {
        push_text(&mut out, " / ");
        push_text(&mut out, labels[i].as_str());
        let ghost t = views(labels@).take(i + 1);
        assert(t.drop_last() =~= views(labels@).take(i as int));
        assert(t.last() == labels@[i as int]@);
        assert(t.len() >= 2);
        assert(joined_spec(t) == joined_spec(t.drop_last()) + slash_sep() + t.last());
        i += 1;
    }
    assert(views(labels@).take(labels.len() as int) =~= views(labels@));
    Some(out)
}

/// `label (shortcut)` with the shortcut trimmed, or the label alone when the
/// shortcut is blank.
pub open spec fn with_suffix_spec(label: Seq<char>, shortcut: Seq<char>) -> Seq<char> {
    let s = trim_spec(shortcut);
    if s.len() == 0 {
        label
    } else {
        label + seq![' ', '('] + s + seq![')']
    }
}

pub fn with_shortcut_suffix(label: &str, shortcut: &str) -> (r: String)
    ensures
        r@ == with_suffix_spec(label@, shortcut@),
{
    let s = trim_text(shortcut);
    if s.unicode_len() == 0 {
        return String::from_str(label);
    }
    let mut out = String::from_str(label);
    push_text(&mut out, " (");
    push_text(&mut out, s);
    push_text(&mut out, ")");
    proof {
        reveal_strlit(" (");
        reveal_strlit(")");
        assert(" ("@ =~= seq![' ', '(']);
        assert(")"@ =~= seq![')']);
    }
    out
}

/// The hint on the seed field: the seed picker's shortcut, if any, then
/// `Enter`, joined with ` / `.
pub fn seed_shortcut_hint(picker_shortcut: Option<String>) -> (r: String)
    ensures
        r@ == match picker_shortcut {
            Some(s) => s@ + slash_sep() + seq!['E', 'n', 't', 'e', 'r'],
            None => seq!['E', 'n', 't', 'e', 'r'],
        },
{
    proof {
        reveal_strlit(" / ");
        reveal_strlit("Enter");
        assert(" / "@ =~= slash_sep());
        assert("Enter"@ =~= seq!['E', 'n', 't', 'e', 'r']);
    }
    match picker_shortcut {
        Some(s) => {
            let mut out = s;
            push_text(&mut out, " / ");
            push_text(&mut out, "Enter");
            out
        },
        None => String::from_str("Enter"),
    }
}

/// A button's label or tooltip with the shortcut of its action, when the
/// action has one.
pub open spec fn label_with_shortcut_spec(label: Seq<char>, shortcut: Option<Seq<char>>) -> Seq<char> {
    match shortcut {
        Some(sc) => with_suffix_spec(label, sc),
        None => label,
    }
}

pub open spec fn opt_view(o: Option<String>) -> Option<Seq<char>> {
    match o {
        Some(s) => Some(s@),
        None => None,
    }
}

pub fn label_with_shortcut(label: &str, shortcut: Option<String>) -> (r: String)
    ensures
        r@ == label_with_shortcut_spec(label@, opt_view(shortcut)),
{
    match shortcut {
        Some(sc) => with_shortcut_suffix(label, sc.as_str()),
        None => String::from_str(label),
    }
}

/// The placeholder of the seed field, with the seed hint.
pub fn seed_entry_placeholder(picker_shortcut: Option<String>) -> (r: String)
    ensures
        r@ == with_suffix_spec(
            "Blank=random, or enter seed number/word"@,
            match picker_shortcut {
                Some(s) => s@ + slash_sep() + seq!['E', 'n', 't', 'e', 'r'],
                None => seq!['E', 'n', 't', 'e', 'r'],
            },
        ),
{
    let hint = seed_shortcut_hint(picker_shortcut);
    with_shortcut_suffix("Blank=random, or enter seed number/word", hint.as_str())
}

/// The tooltip of the seed field, with the seed hint.
pub fn seed_field_tooltip(picker_shortcut: Option<String>) -> (r: String)
    ensures
        r@ == with_suffix_spec(
            "Game seed"@,
            match picker_shortcut {
                Some(s) => s@ + slash_sep() + seq!['E', 'n', 't', 'e', 'r'],
                None => seq!['E', 'n', 't', 'e', 'r'],
            },
        ),
{
    let hint = seed_shortcut_hint(picker_shortcut);
    with_shortcut_suffix("Game seed", hint.as_str())
}

/// The winnability button while a check runs: `phase Ns`, with the
/// check's shortcut when it has one.
pub fn seed_winnable_progress_label(phase: &str, seconds: u32, shortcut: Option<String>) -> (r: String)
    ensures
        r@ == label_with_shortcut_spec(phase@ + seq![' '] + decimal_chars(seconds as nat) + seq!['s'], opt_view(shortcut)),
{
    let mut base = String::from_str(phase);
    push_text(&mut base, " ");
    let secs = decimal_text(seconds as u64);
    push_text(&mut base, secs.as_str());
    push_text(&mut base, "s");
    proof {
        reveal_strlit(" ");
        reveal_strlit("s");
        assert(base@ =~= phase@ + seq![' '] + decimal_chars(seconds as nat) + seq!['s']);
    }
    label_with_shortcut(base.as_str(), shortcut)
}

/// The robot button's tooltip, noting Forever Mode, with the robot's shortcut.
pub fn robot_button_tooltip(forever_enabled: bool, shortcut: Option<String>) -> (r: String)
    ensures
        r@ == label_with_shortcut_spec(
            if forever_enabled {
                "Robot Mode (Forever Mode enabled)"@
            } else {
                "Robot Mode"@
            },
            opt_view(shortcut),
        ),
{
    let base = if forever_enabled {
        "Robot Mode (Forever Mode enabled)"
    } else {
        "Robot Mode"
    };
    label_with_shortcut(base, shortcut)
}

} // verus!
