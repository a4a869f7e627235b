//! The style presets of the style menu: their names, the CSS each one
//! applies, which preset (if any) a stored CSS text is, and the older
//! templates that are replaced by the system style when a session loads.

use vstd::prelude::*;
use crate::text::same_text;
use crate::userstyle_css::{
    THEME_PRESET_AMETHYST,
    THEME_PRESET_AQUAMARINE,
    THEME_PRESET_CARDTHROPIC,
    THEME_PRESET_CITRINE,
    THEME_PRESET_CRT,
    THEME_PRESET_DIAMOND,
    THEME_PRESET_EMERALD,
    THEME_PRESET_GARNET,
    THEME_PRESET_MAGMA,
    THEME_PRESET_MOONSTONE,
    THEME_PRESET_OPAL,
    THEME_PRESET_PEARL,
    THEME_PRESET_PERIDOT,
    THEME_PRESET_RUBY,
    THEME_PRESET_SAPPHIRE,
    THEME_PRESET_TOPAZ,
    THEME_PRESET_TURQUOISE,
    USERSTYLE_TEMPLATE_AMETHYST,
    USERSTYLE_TEMPLATE_AQUAMARINE,
    USERSTYLE_TEMPLATE_ARCADE,
    USERSTYLE_TEMPLATE_CARDTHROPIC,
    USERSTYLE_TEMPLATE_CARDTHROPIC_MIDNIGHT,
    USERSTYLE_TEMPLATE_CITRINE,
    USERSTYLE_TEMPLATE_CRT,
    USERSTYLE_TEMPLATE_DIAMOND,
    USERSTYLE_TEMPLATE_EMERALD,
    USERSTYLE_TEMPLATE_FOREST,
    USERSTYLE_TEMPLATE_GARNET,
    USERSTYLE_TEMPLATE_LIGHT_MODE,
    USERSTYLE_TEMPLATE_MAGMA,
    USERSTYLE_TEMPLATE_MOONSTONE,
    USERSTYLE_TEMPLATE_NEON,
    USERSTYLE_TEMPLATE_NOIR,
    USERSTYLE_TEMPLATE_OPAL,
    USERSTYLE_TEMPLATE_PEARL,
    USERSTYLE_TEMPLATE_PERIDOT,
    USERSTYLE_TEMPLATE_RUBY,
    USERSTYLE_TEMPLATE_SAPPHIRE,
    USERSTYLE_TEMPLATE_SYSTEM,
    USERSTYLE_TEMPLATE_TERMINAL,
    USERSTYLE_TEMPLATE_TOPAZ,
    USERSTYLE_TEMPLATE_TURQUOISE,
};

verus! {

/// How many entries the style menu lists; entry 0 is the user's own CSS.
pub const USERSTYLE_PRESET_COUNT: u32 = 19;

/// The name the style menu shows for entry `i`.
pub open spec fn preset_name(i: int) -> Seq<char> {
    if i == 0 {
        "Custom"@
    } else if i == 1 {
        "System"@
    } else if i == 2 {
        "Cardthropic"@
    } else if i == 3 {
        "CRT"@
    } else if i == 4 {
        "Magma"@
    } else if i == 5 {
        "Garnet (January, Deep Red)"@
    } else if i == 6 {
        "Amethyst (February, Purple)"@
    } else if i == 7 {
        "Aquamarine (March, Blue-Green)"@
    } else if i == 8 {
        "Diamond (April, Clear White)"@
    } else if i == 9 {
        "Emerald (May, Green)"@
    } else if i == 10 {
        "Pearl (June, White)"@
    } else if i == 11 {
        "Ruby (July, Red)"@
    } else if i == 12 {
        "Peridot (August, Olive Green)"@
    } else if i == 13 {
        "Sapphire (September, Blue)"@
    } else if i == 14 {
        "Opal (October, Iridescent White)"@
    } else if i == 15 {
        "Topaz (November, Golden Yellow)"@
    } else if i == 16 {
        "Turquoise (December, Cyan Blue)"@
    } else if i == 17 {
        "Moonstone (June, Milky White)"@
    } else {
        "Citrine (November, Amber Yellow)"@
    }
}

/// The names of the style menu's entries, in order.
pub fn userstyle_preset_names() -> (r: Vec<&'static str>)
    ensures
        r@.len() == USERSTYLE_PRESET_COUNT,
        forall|i: int| 0 <= i < r@.len() ==> (#[trigger] r@[i])@ == preset_name(i),
{
    let r = vec![
        "Custom",
        "System",
        "Cardthropic",
        "CRT",
        "Magma",
        "Garnet (January, Deep Red)",
        "Amethyst (February, Purple)",
        "Aquamarine (March, Blue-Green)",
        "Diamond (April, Clear White)",
        "Emerald (May, Green)",
        "Pearl (June, White)",
        "Ruby (July, Red)",
        "Peridot (August, Olive Green)",
        "Sapphire (September, Blue)",
        "Opal (October, Iridescent White)",
        "Topaz (November, Golden Yellow)",
        "Turquoise (December, Cyan Blue)",
        "Moonstone (June, Milky White)",
        "Citrine (November, Amber Yellow)",
    ];
    assert(r@.len() == 19);
    r
}

/// The CSS that menu entry `index` applies; the custom entry and unknown
/// entries have none.
pub open spec fn preset_css(index: u32) -> Option<Seq<char>> {
    if index == 1 {
        Some(USERSTYLE_TEMPLATE_SYSTEM@)
    } else if index == 2 {
        Some(THEME_PRESET_CARDTHROPIC@)
    } else if index == 3 {
        Some(THEME_PRESET_CRT@)
    } else if index == 4 {
        Some(THEME_PRESET_MAGMA@)
    } else if index == 5 {
        Some(THEME_PRESET_GARNET@)
    } else if index == 6 {
        Some(THEME_PRESET_AMETHYST@)
    } else if index == 7 {
        Some(THEME_PRESET_AQUAMARINE@)
    } else if index == 8 {
        Some(THEME_PRESET_DIAMOND@)
    } else if index == 9 {
        Some(THEME_PRESET_EMERALD@)
    } else if index == 10 {
        Some(THEME_PRESET_PEARL@)
    } else if index == 11 {
        Some(THEME_PRESET_RUBY@)
    } else if index == 12 {
        Some(THEME_PRESET_PERIDOT@)
    } else if index == 13 {
        Some(THEME_PRESET_SAPPHIRE@)
    } else if index == 14 {
        Some(THEME_PRESET_OPAL@)
    } else if index == 15 {
        Some(THEME_PRESET_TOPAZ@)
    } else if index == 16 {
        Some(THEME_PRESET_TURQUOISE@)
    } else if index == 17 {
        Some(THEME_PRESET_MOONSTONE@)
    } else if index == 18 {
        Some(THEME_PRESET_CITRINE@)
    } else {
        None
    }
}

pub open spec fn opt_text(o: Option<&'static str>) -> Option<Seq<char>> {
    match o {
        Some(t) => Some(t@),
        None => None,
    }
}

pub fn userstyle_css_for_preset(index: u32) -> (r: Option<&'static str>)
    ensures
        opt_text(r) == preset_css(index),
{
    match index {
        1 => Some(USERSTYLE_TEMPLATE_SYSTEM),
        2 => Some(THEME_PRESET_CARDTHROPIC),
        3 => Some(THEME_PRESET_CRT),
        4 => Some(THEME_PRESET_MAGMA),
        5 => Some(THEME_PRESET_GARNET),
        6 => Some(THEME_PRESET_AMETHYST),
        7 => Some(THEME_PRESET_AQUAMARINE),
        8 => Some(THEME_PRESET_DIAMOND),
        9 => Some(THEME_PRESET_EMERALD),
        10 => Some(THEME_PRESET_PEARL),
        11 => Some(THEME_PRESET_RUBY),
        12 => Some(THEME_PRESET_PERIDOT),
        13 => Some(THEME_PRESET_SAPPHIRE),
        14 => Some(THEME_PRESET_OPAL),
        15 => Some(THEME_PRESET_TOPAZ),
        16 => Some(THEME_PRESET_TURQUOISE),
        17 => Some(THEME_PRESET_MOONSTONE),
        18 => Some(THEME_PRESET_CITRINE),
        _ => None,
    }
}

/// The CSS applied when no style was chosen.
pub fn default_userstyle_css() -> (r: &'static str)
    ensures
        r@ == THEME_PRESET_CARDTHROPIC@,
{
    THEME_PRESET_CARDTHROPIC
}

/// Whether a CSS text is the system style.
pub fn is_system_userstyle_css(css: &str) -> (r: bool)
    ensures
        r == (css@ == USERSTYLE_TEMPLATE_SYSTEM@),
{
    same_text(css, USERSTYLE_TEMPLATE_SYSTEM)
}

/// The menu entry a stored CSS text belongs to: a preset's own text or one
/// of the older templates it replaced; 0 for any other (custom) text.
pub open spec fn preset_for_css_spec(css: Seq<char>) -> u32 {
    if css == USERSTYLE_TEMPLATE_SYSTEM@ {
        1
    } else if css == THEME_PRESET_CARDTHROPIC@ || css == USERSTYLE_TEMPLATE_NEON@ || css == USERSTYLE_TEMPLATE_CARDTHROPIC@ || css == USERSTYLE_TEMPLATE_CARDTHROPIC_MIDNIGHT@ || css == USERSTYLE_TEMPLATE_ARCADE@ || css == USERSTYLE_TEMPLATE_NOIR@ {
        2
    } else if css == THEME_PRESET_CRT@ || css == USERSTYLE_TEMPLATE_CRT@ {
        3
    } else if css == THEME_PRESET_MAGMA@ || css == USERSTYLE_TEMPLATE_MAGMA@ {
        4
    } else if css == THEME_PRESET_GARNET@ || css == USERSTYLE_TEMPLATE_GARNET@ {
        5
    } else if css == THEME_PRESET_AMETHYST@ || css == USERSTYLE_TEMPLATE_AMETHYST@ {
        6
    } else if css == THEME_PRESET_AQUAMARINE@ || css == USERSTYLE_TEMPLATE_AQUAMARINE@ || css == USERSTYLE_TEMPLATE_FOREST@ {
        7
    } else if css == THEME_PRESET_DIAMOND@ || css == USERSTYLE_TEMPLATE_DIAMOND@ {
        8
    } else if css == THEME_PRESET_EMERALD@ || css == USERSTYLE_TEMPLATE_EMERALD@ {
        9
    } else if css == THEME_PRESET_PEARL@ || css == USERSTYLE_TEMPLATE_PEARL@ {
        10
    } else if css == THEME_PRESET_RUBY@ || css == USERSTYLE_TEMPLATE_RUBY@ {
        11
    } else if css == THEME_PRESET_PERIDOT@ || css == USERSTYLE_TEMPLATE_PERIDOT@ {
        12
    } else if css == THEME_PRESET_SAPPHIRE@ || css == USERSTYLE_TEMPLATE_SAPPHIRE@ {
        13
    } else if css == THEME_PRESET_OPAL@ || css == USERSTYLE_TEMPLATE_OPAL@ {
        14
    } else if css == THEME_PRESET_TOPAZ@ || css == USERSTYLE_TEMPLATE_TOPAZ@ {
        15
    } else if css == THEME_PRESET_TURQUOISE@ || css == USERSTYLE_TEMPLATE_TURQUOISE@ {
        16
    } else if css == THEME_PRESET_MOONSTONE@ || css == USERSTYLE_TEMPLATE_MOONSTONE@ {
        17
    } else if css == THEME_PRESET_CITRINE@ || css == USERSTYLE_TEMPLATE_CITRINE@ {
        18
    } else {
        0
    }
}

pub fn userstyle_preset_for_css(css: &str) -> (r: u32)
    ensures
        r == preset_for_css_spec(css@),
{
    if same_text(css, USERSTYLE_TEMPLATE_SYSTEM) {
        1
    } else if same_text(css, THEME_PRESET_CARDTHROPIC) || same_text(css, USERSTYLE_TEMPLATE_NEON) || same_text(css, USERSTYLE_TEMPLATE_CARDTHROPIC) || same_text(css, USERSTYLE_TEMPLATE_CARDTHROPIC_MIDNIGHT) || same_text(css, USERSTYLE_TEMPLATE_ARCADE) || same_text(css, USERSTYLE_TEMPLATE_NOIR) {
        2
    } else if same_text(css, THEME_PRESET_CRT) || same_text(css, USERSTYLE_TEMPLATE_CRT) {
        3
    } else if same_text(css, THEME_PRESET_MAGMA) || same_text(css, USERSTYLE_TEMPLATE_MAGMA) {
        4
    } else if same_text(css, THEME_PRESET_GARNET) || same_text(css, USERSTYLE_TEMPLATE_GARNET) {
        5
    } else if same_text(css, THEME_PRESET_AMETHYST) || same_text(css, USERSTYLE_TEMPLATE_AMETHYST) {
        6
    } else if same_text(css, THEME_PRESET_AQUAMARINE) || same_text(css, USERSTYLE_TEMPLATE_AQUAMARINE) || same_text(css, USERSTYLE_TEMPLATE_FOREST) {
        7
    } else if same_text(css, THEME_PRESET_DIAMOND) || same_text(css, USERSTYLE_TEMPLATE_DIAMOND) {
        8
    } else if same_text(css, THEME_PRESET_EMERALD) || same_text(css, USERSTYLE_TEMPLATE_EMERALD) {
        9
    } else if same_text(css, THEME_PRESET_PEARL) || same_text(css, USERSTYLE_TEMPLATE_PEARL) {
        10
    } else if same_text(css, THEME_PRESET_RUBY) || same_text(css, USERSTYLE_TEMPLATE_RUBY) {
        11
    } else if same_text(css, THEME_PRESET_PERIDOT) || same_text(css, USERSTYLE_TEMPLATE_PERIDOT) {
        12
    } else if same_text(css, THEME_PRESET_SAPPHIRE) || same_text(css, USERSTYLE_TEMPLATE_SAPPHIRE) {
        13
    } else if same_text(css, THEME_PRESET_OPAL) || same_text(css, USERSTYLE_TEMPLATE_OPAL) {
        14
    } else if same_text(css, THEME_PRESET_TOPAZ) || same_text(css, USERSTYLE_TEMPLATE_TOPAZ) {
        15
    } else if same_text(css, THEME_PRESET_TURQUOISE) || same_text(css, USERSTYLE_TEMPLATE_TURQUOISE) {
        16
    } else if same_text(css, THEME_PRESET_MOONSTONE) || same_text(css, USERSTYLE_TEMPLATE_MOONSTONE) {
        17
    } else if same_text(css, THEME_PRESET_CITRINE) || same_text(css, USERSTYLE_TEMPLATE_CITRINE) {
        18
    } else {
        0
    }
}

/// The light-mode and dark-mode templates of older versions give way to the
/// system style; any other CSS stays.
pub fn migrate_legacy_userstyle_css(css: &str) -> (r: Option<&'static str>)
    ensures
        opt_text(r) == (if css@ == USERSTYLE_TEMPLATE_LIGHT_MODE@ || css@ == USERSTYLE_TEMPLATE_TERMINAL@ {
            Some(USERSTYLE_TEMPLATE_SYSTEM@)
        } else {
            None
        }),
{
    if same_text(css, USERSTYLE_TEMPLATE_LIGHT_MODE) || same_text(css, USERSTYLE_TEMPLATE_TERMINAL) {
        Some(USERSTYLE_TEMPLATE_SYSTEM)
    } else {
        None
    }
}

} // verus!
