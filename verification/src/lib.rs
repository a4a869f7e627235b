//! Solitaire solving and automation logic: Spider and FreeCell board models,
//! solver heuristics, seed winnability search, robot-mode bookkeeping and the
//! text encodings used for sessions and status lines.

pub mod cards;
pub mod settings;
pub mod text;
pub mod cancel;
pub mod clock;
pub mod moves;
pub mod freecell_action;
pub mod spider;
pub mod spider_hash;
pub mod spider_metrics;
pub mod spider_solver;
pub mod ranking;
pub mod spider_choice;
pub mod spider_cycle;
pub mod frontier;
pub mod recent;
pub mod winnability;
pub mod spider_search;
pub mod spider_reach;
pub mod spider_walk;
pub mod spider_stall;
pub mod spider_playthrough;
pub mod spider_find;
pub mod freecell;
pub mod freecell_eval;
pub mod freecell_wand;
pub mod freecell_search;
pub mod freecell_reach;
pub mod freecell_find;
pub mod klondike;
pub mod robot_guard;
pub mod session_codec;
pub mod robot_step;
pub mod session_fields;
pub mod shortcut_text;
pub mod board_audit;
pub mod theme_prefs;
pub mod status_text;
pub mod status_history;
pub mod robot_report;
pub mod chess_notation;
pub mod robot_fields;
pub mod snapshot_header;
pub mod freecell_audit_law;
pub mod snapshot_stack;
pub mod chess_payload;
pub mod userstyle_css;
pub mod userstyle;
