use cardthropic::robot_step::{freecell_tick_step, FreecellTickAction, FreecellTickCounters};
use cardthropic::session_codec::{hex_decode_checked, hex_text_sliceable};
use cardthropic::snapshot_stack::decode_snapshot_stack_checked;
use cardthropic::robot_step::{freecell_empty_plan_step, robot_tick_start, FreecellEmptyPlan, RobotTickStart};
use cardthropic::status_history::{status_history_find_first, status_history_find_next, status_history_find_previous};
use cardthropic::klondike::klondike_seed_outcome;
use cardthropic::spider_find::{
    spider4_verify_after_check, spider4_verify_step, spider_rollout_candidate_score, spider_rollout_score_fits,
};
use std::sync::atomic::AtomicBool;

use cardthropic::board_audit::{
    freecell_board_audit, freecell_flaw_detail, spider_board_audit, spider_flaw_detail, FreecellFlaw, SpiderFlaw,
};
use cardthropic::cards::{Card, Suit};
use cardthropic::chess_payload::{candidate_variants, chess_notation_hints, direct_fen_variants};
use cardthropic::chess_notation::{chess_variant_from_hint, decode_chess_variant, parse_pgn_tag_line, ChessVariant};
use cardthropic::robot_fields::{
    freecell_board_fields, freecell_move_fields, freecell_progress_fields, spider_board_fields, spider_move_fields,
    spider_progress_fields,
};
use cardthropic::robot_report::{
    benchmark_dump_due, is_mobile_phone_breakpoint, robot_quote, robot_total_runs, FreecellMoveTally,
};
use cardthropic::freecell::{FreecellCardCountMode, FreecellGame};
use cardthropic::freecell_action::FreecellPlannerAction;
use cardthropic::freecell_eval::{freecell_empty_cells, freecell_empty_columns, freecell_legal_move_count};
use cardthropic::freecell_find::{
    capped_freecell_seed_check_budget, freecell_single_playthrough_line, is_freecell_seed_winnable,
    FreecellFindProgress,
};
use cardthropic::freecell_search::{apply_freecell_action, freecell_recent_repeat_distance};
use cardthropic::freecell_wand::freecell_wand_candidates;
use cardthropic::frontier::Frontier;
use cardthropic::klondike::{
    capped_seed_check_budgets, is_seed_winnable, klondike_seed_line, DrawMode, KlondikeAnalysis,
    KlondikeSeedOutcome, KlondikeSolver,
};
use cardthropic::moves::HintMove;
use cardthropic::robot_guard::{
    fallback_hash_cycle_detected_with, freecell_action_cycle_signature, robot_move_description,
    session_flush_interval_secs, tableau_has_face_down_after_face_up, ActionCycleTracker, FallbackTabu,
    HashOscillationTracker, RobotSeenStates, RobotStallTracker, RobotStallVerdict,
};
use cardthropic::robot_step::{
    fallback_action_admissible, fallback_only_streak_step, freecell_action_nodes, freecell_planner_intake,
    freecell_planner_queue_bounds, freecell_planner_start_decision, freecell_planner_watchdog,
    freecell_progress_snapshot, inverse_oscillation_step, planner_cooldown_after_move, robot_loss_action,
    spider_progress_snapshot, FreecellPlannerWatchdog, HintNode, PlannerStart, RobotLossAction,
};
use cardthropic::session_codec::{
    decode_selected_run, encode_selected_run, hex_decode, hex_encode, parse_usize, SelectedRun,
};
use cardthropic::snapshot_stack::{
    decode_snapshot_stack, encode_position_stack, encode_snapshot_stack, position_stack_tokens, MAX_PERSISTED_SNAPSHOTS,
};
use cardthropic::snapshot_header::{decode_snapshot_header, encode_snapshot_text, SlotSuits, SnapshotHeader};
use cardthropic::session_fields::{parse_flag, parse_square, payload_field, snapshot_field, trim_text};
use cardthropic::settings::{mode_switch_pun, GameMode, RobotStrategy, SmartMoveMode};
use cardthropic::status_history::{
    current_variant_name, decorate_status_for_window, is_retention_choice, retention_choice_label,
    status_history_admits, status_history_retention_limit_for, window_title, RenderTimings, StatusHistory,
};
use cardthropic::status_text::{
    parse_robot_moves_from_status, sanitize_status_for_display, should_throttle_robot_history_line,
    status_history_find_match_offsets, status_history_text_counts, status_performance_mode_active, unicode_suit,
};
use cardthropic::userstyle::{
    default_userstyle_css, is_system_userstyle_css, migrate_legacy_userstyle_css, userstyle_css_for_preset,
    userstyle_preset_for_css, userstyle_preset_names, USERSTYLE_PRESET_COUNT,
};
use cardthropic::userstyle_css::{
    USERSTYLE_TEMPLATE_FOREST, USERSTYLE_TEMPLATE_LIGHT_MODE, USERSTYLE_TEMPLATE_SYSTEM, USERSTYLE_TEMPLATE_TERMINAL,
};
use cardthropic::theme_prefs::{
    css_string_literal, next_visible_row, page_step, page_visible_row, theme_preset_matches_query, AppearanceMode,
};
use cardthropic::shortcut_text::{
    label_with_shortcut, robot_button_tooltip, seed_entry_placeholder, seed_field_tooltip, seed_shortcut_hint,
    seed_winnable_progress_label, shortcut_text, with_shortcut_suffix,
};
use cardthropic::spider::{SpiderGame, SpiderSuitMode};
use cardthropic::spider_cycle::spider_solver_move_signature;
use cardthropic::spider_find::{
    default_find_winnable_attempts_for, find_worker_count, spider4_consider_attempt, spider4_verifier_budgets,
    spider4_verify_best_candidate, SpiderCandidatePool, SpiderFindProgress,
};
use cardthropic::spider_playthrough::{
    spider_find_step_budget, spider_single_playthrough_line, spider_variant_count,
};
use cardthropic::spider_search::capped_spider_seed_check_budget;
use cardthropic::winnability::{
    freecell_find_stop_reason_label, spider_find_stop_reason_label, FreecellFindStopReason, SolverMove,
    SpiderFindStopReason,
};

fn card(suit: Suit, rank: u8) -> Card {
    Card { suit, rank, face_up: true }
}

// ---------------------------------------------------------------------------
// Settings and labels
// ---------------------------------------------------------------------------

#[test]
fn smart_move_mode_round_trips_through_setting() {
    for mode in [SmartMoveMode::Disabled, SmartMoveMode::SingleClick, SmartMoveMode::DoubleClick] {
        assert_eq!(SmartMoveMode::from_setting(mode.as_setting()), mode);
    }
    assert_eq!(SmartMoveMode::SingleClick.as_setting(), "single-click");
    assert_eq!(SmartMoveMode::from_setting("bogus"), SmartMoveMode::DoubleClick);
}

#[test]
fn robot_strategy_round_trips_through_setting() {
    for strategy in [RobotStrategy::Fast, RobotStrategy::Balanced, RobotStrategy::Deep] {
        assert_eq!(RobotStrategy::from_setting(strategy.as_setting()), strategy);
    }
    assert_eq!(RobotStrategy::Deep.as_setting(), "deep");
    assert_eq!(RobotStrategy::Deep.label(), "Deep");
    assert_eq!(RobotStrategy::from_setting(""), RobotStrategy::Balanced);
}

#[test]
fn stop_reason_codes_round_trip_and_label() {
    for code in 0u8..=8 {
        assert_eq!(SpiderFindStopReason::from_code(code).code(), code);
    }
    for code in 0u8..=6 {
        assert_eq!(FreecellFindStopReason::from_code(code).code(), code);
    }
    assert_eq!(spider_find_stop_reason_label(8), "post_stock_stall");
    assert_eq!(spider_find_stop_reason_label(200), "none");
    assert_eq!(freecell_find_stop_reason_label(6), "invalid_move");
    assert_eq!(freecell_find_stop_reason_label(0), "none");
}

// ---------------------------------------------------------------------------
// Budgets and counts
// ---------------------------------------------------------------------------

#[test]
fn budgets_are_capped_per_mode() {
    assert_eq!(capped_seed_check_budgets(DrawMode::One, 1_000_000, 1_000_000), (80_000, 120_000));
    assert_eq!(capped_seed_check_budgets(DrawMode::Five, 10, 20), (10, 20));
    assert_eq!(capped_freecell_seed_check_budget(10, 10), 30_000);
    assert_eq!(capped_freecell_seed_check_budget(100_000, 100_000), 180_000);
    assert_eq!(capped_freecell_seed_check_budget(usize::MAX, 1), 180_000);
    assert_eq!(spider_find_step_budget(SpiderSuitMode::One, 10, 10), 64);
    assert_eq!(spider_find_step_budget(SpiderSuitMode::Four, 400, 400), 640);
    assert_eq!(spider_find_step_budget(SpiderSuitMode::Two, 100, 50), 150);
    assert_eq!(spider4_verifier_budgets(1, 1), (480_000, 240_000));
    assert_eq!(spider4_verifier_budgets(usize::MAX, 1), (1_200_000, 600_000));
    assert_eq!(capped_spider_seed_check_budget(SpiderSuitMode::Four, 0, 0), 0);
    assert_eq!(capped_spider_seed_check_budget(SpiderSuitMode::Four, 50_000, 50_000), 60_000);
    assert_eq!(capped_spider_seed_check_budget(SpiderSuitMode::One, 50_000, 50_000), 100_000);
}

#[test]
fn worker_and_attempt_counts() {
    assert_eq!(default_find_winnable_attempts_for(None), 24);
    assert_eq!(default_find_winnable_attempts_for(Some(1)), 8);
    assert_eq!(default_find_winnable_attempts_for(Some(4)), 16);
    assert_eq!(default_find_winnable_attempts_for(Some(100)), 64);
    assert_eq!(find_worker_count(Some(8), 3, 16), 3);
    assert_eq!(find_worker_count(None, 10, 16), 1);
    assert_eq!(find_worker_count(Some(32), 100, 16), 16);
    assert_eq!(find_worker_count(Some(4), 0, 16), 1);
    assert_eq!(spider_variant_count(SpiderSuitMode::One), 3);
    assert_eq!(spider_variant_count(SpiderSuitMode::Two), 0);
}

// ---------------------------------------------------------------------------
// Spider
// ---------------------------------------------------------------------------

#[test]
fn spider_move_signatures() {
    assert_eq!(
        spider_solver_move_signature(HintMove::TableauRunToTableau { src: 2, start: 5, dst: 7 }),
        "t2:5>7"
    );
    assert_eq!(spider_solver_move_signature(HintMove::TableauTopToFoundation { src: 13 }), "t13f");
    assert_eq!(spider_solver_move_signature(HintMove::WasteToTableau { dst: 4 }), "w4");
    assert_eq!(spider_solver_move_signature(HintMove::WasteToFoundation), "wf");
    assert_eq!(spider_solver_move_signature(HintMove::Draw), "d");
}

#[test]
fn spider_deal_lays_out_fifty_four_cards() {
    let game = SpiderGame::new_with_seed_and_mode(42, SpiderSuitMode::Two);
    let tableau = game.tableau();
    assert_eq!(tableau.len(), 10);
    let lens: Vec<usize> = tableau.iter().map(|p| p.len()).collect();
    assert_eq!(lens, vec![6, 6, 6, 6, 5, 5, 5, 5, 5, 5]);
    assert_eq!(game.stock_len(), 50);
    for pile in tableau {
        assert!(pile.last().unwrap().face_up);
        assert!(pile[..pile.len() - 1].iter().all(|c| !c.face_up));
    }
    let again = SpiderGame::new_with_seed_and_mode(42, SpiderSuitMode::Two);
    assert_eq!(again.tableau(), game.tableau());
    assert_eq!(game.completed_runs(), 0);
    assert!(!game.is_won());
}

#[test]
fn spider_moves_and_deals() {
    let mut game = SpiderGame::new_with_seed_and_mode(7, SpiderSuitMode::One);
    assert!(game.can_deal_from_stock());
    assert!(game.deal_from_stock());
    assert_eq!(game.stock_len(), 40);
    assert!(game.tableau().iter().all(|p| p.last().unwrap().face_up));
    assert!(!game.move_run(0, 99, 1));
}

#[test]
fn candidate_pool_keeps_the_best_six() {
    let mut pool = SpiderCandidatePool::new();
    for (i, score) in [5i64, 9, 1, 7, 3, 8].iter().enumerate() {
        pool.offer((*score, i as u64, 0));
    }
    assert_eq!(pool.len(), 6);
    pool.offer((2, 100, 0));
    pool.offer((4, 101, 0));
    assert_eq!(pool.take_best(), Some((9, 1, 0)));
    assert_eq!(pool.take_best(), Some((8, 5, 0)));
    assert_eq!(pool.take_best(), Some((7, 3, 0)));
    assert_eq!(pool.take_best(), Some((5, 0, 0)));
    assert_eq!(pool.take_best(), Some((4, 101, 0)));
    assert_eq!(pool.take_best(), Some((3, 4, 0)));
    assert_eq!(pool.take_best(), None);
    assert!(pool.is_empty());
}

#[test]
fn only_four_suit_searches_pool_and_verify() {
    let cancel = AtomicBool::new(false);
    let (attempt, trials) = spider_single_playthrough_line(5, SpiderSuitMode::Two, 10, 10, &cancel, &[]);
    assert!(trials.is_empty());
    let mut pool = SpiderCandidatePool::new();
    spider4_consider_attempt(&mut pool, SpiderSuitMode::Two, 5, 1, &attempt);
    assert!(pool.is_empty());
    pool.offer((10, 5, 1));
    let mut verified = std::collections::HashSet::new();
    let found = spider4_verify_best_candidate(&mut pool, &mut verified, SpiderSuitMode::Two, 10, 10, &cancel);
    assert!(found.is_none());
    assert_eq!(pool.len(), 1);
    assert!(verified.is_empty());
}

#[test]
fn canceled_verification_leaves_the_pool() {
    let cancel = AtomicBool::new(true);
    let mut pool = SpiderCandidatePool::new();
    pool.offer((10, 5, 1));
    let mut verified = std::collections::HashSet::new();
    let found = spider4_verify_best_candidate(&mut pool, &mut verified, SpiderSuitMode::Four, 10, 10, &cancel);
    assert!(found.is_none());
    assert_eq!(pool.len(), 1);
}

#[test]
fn spider_progress_starts_empty() {
    let progress = SpiderFindProgress::new();
    assert_eq!(progress.checked, 0);
    assert_eq!(progress.last_stop_reason, 0);
    assert_eq!(progress.best_peak_empty_cols, 0);
}

// ---------------------------------------------------------------------------
// FreeCell
// ---------------------------------------------------------------------------

#[test]
fn freecell_card_count_modes() {
    assert_eq!(FreecellCardCountMode::from_card_count(39), Some(FreecellCardCountMode::ThirtyNine));
    assert_eq!(FreecellCardCountMode::from_card_count(40), None);
    assert_eq!(FreecellCardCountMode::FiftyTwo.card_count(), 52);
}

#[test]
fn freecell_deal_uses_every_card_once() {
    let game = FreecellGame::new_with_seed_and_card_count(11, FreecellCardCountMode::FiftyTwo);
    let total: usize = game.tableau().iter().map(|p| p.len()).sum();
    assert_eq!(total, 52);
    assert_eq!(game.freecells().len(), 4);
    assert_eq!(freecell_empty_cells(&game), 4);
    assert_eq!(freecell_empty_columns(&game), 0);
    assert_eq!(game.foundation_card_count(), 0);
    let mut seen = std::collections::HashSet::new();
    for pile in game.tableau() {
        for c in pile {
            assert!(seen.insert((c.suit.foundation_index(), c.rank)));
        }
    }
    assert_eq!(seen.len(), 52);
    assert!(freecell_legal_move_count(&game) > 0);
}

#[test]
fn freecell_wand_candidates_are_legal() {
    let game = FreecellGame::new_with_seed_and_card_count(3, FreecellCardCountMode::FiftyTwo);
    let candidates = freecell_wand_candidates(&game);
    assert!(!candidates.is_empty());
    for (next, action, _) in &candidates {
        let mut copy = game.duplicate();
        assert!(apply_freecell_action(&mut copy, *action));
        assert_eq!(copy.tableau(), next.tableau());
        assert_eq!(copy.freecells(), next.freecells());
    }
}

#[test]
fn freecell_moves_to_and_from_cells() {
    let mut tableau = vec![vec![card(Suit::Hearts, 2), card(Suit::Spades, 1)], vec![card(Suit::Clubs, 3)]];
    for col in 2..8 {
        let n = if col == 7 { 3 } else { 4 };
        tableau.push((0..n).map(|k| card(Suit::Diamonds, 13 - k as u8)).collect());
    }
    assert_eq!(tableau.iter().map(|p| p.len()).sum::<usize>(), 26);
    let mut game = FreecellGame::debug_new(
        FreecellCardCountMode::TwentySix,
        tableau,
        vec![None, None, None, None],
        vec![Vec::new(), Vec::new(), Vec::new(), Vec::new()],
    );
    assert!(game.can_move_tableau_top_to_foundation(0));
    assert!(game.move_tableau_top_to_foundation(0));
    assert_eq!(game.foundation_card_count(), 1);
    assert!(game.move_tableau_top_to_freecell(0, 2));
    assert_eq!(game.freecell_card(2), Some(card(Suit::Hearts, 2)));
    assert!(game.move_freecell_to_tableau(2, 1));
    assert_eq!(game.tableau_top(1), Some(card(Suit::Hearts, 2)));
    assert!(!game.move_freecell_to_foundation(2));
    let nodes = freecell_action_nodes(&game, FreecellPlannerAction::TableauToFreecell { src: 1, cell: 3 });
    assert_eq!(nodes, (HintNode::Tableau { col: 1, index: Some(1) }, HintNode::Freecell(3)));
}

#[test]
fn freecell_playthrough_stops_when_canceled() {
    let cancel = AtomicBool::new(true);
    let result = freecell_single_playthrough_line(5, FreecellCardCountMode::FiftyTwo, &cancel);
    assert_eq!(result.stop_reason, FreecellFindStopReason::Canceled);
    assert!(result.line.is_none());
    assert_eq!(result.expanded_states, 0);
    let checked = is_freecell_seed_winnable(5, FreecellCardCountMode::FiftyTwo, 10, 10, &cancel).unwrap();
    assert!(checked.canceled);
    assert!(!checked.winnable);
}

#[test]
fn freecell_playthrough_line_replays() {
    let cancel = AtomicBool::new(false);
    let result = freecell_single_playthrough_line(9, FreecellCardCountMode::TwentySix, &cancel);
    assert_ne!(result.stop_reason, FreecellFindStopReason::InvalidMove);
    if let Some(line) = result.line {
        let mut game = FreecellGame::new_with_seed_and_card_count(9, FreecellCardCountMode::TwentySix);
        for action in line {
            assert!(apply_freecell_action(&mut game, action));
        }
        assert!(game.is_won());
    }
}

#[test]
fn freecell_progress_records_attempts() {
    let mut progress = FreecellFindProgress::new();
    progress.store_attempt(77, 5, 10, 20, 30, FreecellFindStopReason::StepLimit);
    progress.store_attempt(78, 3, 1, 2, 3, FreecellFindStopReason::Won);
    assert_eq!(progress.checked, 5);
    assert_eq!(progress.last_seed, 78);
    assert_eq!(progress.last_stop_reason, 1);
}

#[test]
fn freecell_repeat_distance_counts_from_the_end() {
    assert_eq!(freecell_recent_repeat_distance(5, &[5, 1, 2]), Some(2));
    assert_eq!(freecell_recent_repeat_distance(2, &[5, 1, 2]), Some(0));
    assert_eq!(freecell_recent_repeat_distance(9, &[5, 1, 2]), None);
}

// ---------------------------------------------------------------------------
// Klondike with a scripted solver
// ---------------------------------------------------------------------------

struct ScriptedSolver {
    guided: Option<KlondikeAnalysis>,
    exhaustive: Option<KlondikeAnalysis>,
    dealt: Option<(u64, DrawMode)>,
    budgets: Vec<usize>,
}

impl KlondikeSolver for ScriptedSolver {
    fn deal(&mut self, seed: u64, draw_mode: DrawMode) {
        self.dealt = Some((seed, draw_mode));
    }

    fn guided_winnability(&mut self, budget: usize, _cancel: &AtomicBool) -> (Option<KlondikeAnalysis>, usize) {
        self.budgets.push(budget);
        (self.guided, 17)
    }

    fn guided_winning_line(&mut self, _budget: usize, _cancel: &AtomicBool) -> Option<Option<Vec<SolverMove>>> {
        Some(None)
    }

    fn exhaustive_winnability(&mut self, budget: usize, _cancel: &AtomicBool) -> (Option<KlondikeAnalysis>, usize) {
        self.budgets.push(budget);
        (self.exhaustive, 23)
    }
}

#[test]
fn klondike_check_combines_both_searches() {
    let cancel = AtomicBool::new(false);
    let miss = KlondikeAnalysis { winnable: false, explored_states: 100, win_depth: None, hit_state_limit: true };
    let win = KlondikeAnalysis { winnable: true, explored_states: 50, win_depth: Some(90), hit_state_limit: false };
    let mut solver = ScriptedSolver { guided: Some(miss), exhaustive: Some(win), dealt: None, budgets: Vec::new() };
    let result = is_seed_winnable(&mut solver, 9, DrawMode::Three, 1_000_000, 5, &cancel).unwrap();
    assert_eq!(solver.dealt, Some((9, DrawMode::Three)));
    assert_eq!(solver.budgets, vec![60_000, 5]);
    assert!(result.winnable);
    assert_eq!(result.iterations, 150);
    assert_eq!(result.moves_to_win, Some(90));
    assert!(!result.canceled);

    let mut canceled = ScriptedSolver { guided: None, exhaustive: None, dealt: None, budgets: Vec::new() };
    let result = is_seed_winnable(&mut canceled, 9, DrawMode::One, 10, 10, &cancel).unwrap();
    assert!(result.canceled);
    assert_eq!(result.iterations, 17);
    assert!(result.hit_state_limit);
}

#[test]
fn klondike_seed_outcomes() {
    let cancel = AtomicBool::new(false);
    let win = KlondikeAnalysis { winnable: true, explored_states: 5, win_depth: Some(3), hit_state_limit: false };
    let miss = KlondikeAnalysis { winnable: false, explored_states: 5, win_depth: None, hit_state_limit: false };
    let mut winner = ScriptedSolver { guided: Some(win), exhaustive: None, dealt: None, budgets: Vec::new() };
    assert!(matches!(
        klondike_seed_line(&mut winner, 4, DrawMode::One, 100, &cancel),
        KlondikeSeedOutcome::Winnable(line) if line.is_empty()
    ));
    assert_eq!(winner.dealt, Some((4, DrawMode::One)));
    let mut loser = ScriptedSolver { guided: Some(miss), exhaustive: None, dealt: None, budgets: Vec::new() };
    assert!(matches!(klondike_seed_line(&mut loser, 4, DrawMode::One, 100, &cancel), KlondikeSeedOutcome::NotWinnable));
    let mut stopped = ScriptedSolver { guided: None, exhaustive: None, dealt: None, budgets: Vec::new() };
    assert!(matches!(klondike_seed_line(&mut stopped, 4, DrawMode::One, 100, &cancel), KlondikeSeedOutcome::Canceled));
    let raised = AtomicBool::new(true);
    let mut late = ScriptedSolver { guided: Some(win), exhaustive: None, dealt: None, budgets: Vec::new() };
    assert!(matches!(klondike_seed_line(&mut late, 4, DrawMode::One, 100, &raised), KlondikeSeedOutcome::Canceled));
}

// ---------------------------------------------------------------------------
// Search frontier
// ---------------------------------------------------------------------------

#[test]
fn frontier_pops_highest_priority_then_oldest() {
    let mut frontier = Frontier::new();
    frontier.push((5, 1, 0));
    frontier.push((7, 2, 1));
    frontier.push((7, 0, 2));
    frontier.push((1, 3, 3));
    assert_eq!(frontier.len(), 4);
    assert_eq!(frontier.pop(), Some((7, 0, 2)));
    assert_eq!(frontier.pop(), Some((7, 2, 1)));
    assert_eq!(frontier.pop(), Some((5, 1, 0)));
    assert_eq!(frontier.pop(), Some((1, 3, 3)));
    assert_eq!(frontier.pop(), None);
}

// ---------------------------------------------------------------------------
// Robot bookkeeping
// ---------------------------------------------------------------------------

#[test]
fn oscillation_tracker_trips_after_repeated_two_cycles() {
    let mut tracker = HashOscillationTracker::new();
    let mut tripped = false;
    for i in 0..20u64 {
        tripped = tracker.track(if i % 2 == 0 { 10 } else { 20 });
        if tripped {
            break;
        }
    }
    assert!(tripped);
    assert_eq!(tracker.period(), 2);
}

#[test]
fn action_cycle_tracker_counts_repeats() {
    let mut tracker = ActionCycleTracker::new();
    let mut last = (0, 0, false);
    for _ in 0..3 {
        for sig in ["a", "b", "c"] {
            last = tracker.track(sig.to_string());
        }
    }
    assert_eq!(last, (3, 2, false));
    assert_eq!(tracker.streak(), 2);
}

#[test]
fn fallback_tabu_rejects_repeats_and_cycles() {
    let mut tabu = FallbackTabu::new();
    tabu.note("t2c:T0->C1".to_string(), 100);
    assert!(tabu.rejects(&"t2c:T0->C1".to_string(), Some(5)));
    assert!(tabu.rejects(&"x".to_string(), None));
    assert!(tabu.rejects(&"x".to_string(), Some(100)));
    assert!(!tabu.rejects(&"x".to_string(), Some(7)));
    let recent: std::collections::VecDeque<u64> = [1, 2, 1].into_iter().collect();
    assert!(fallback_hash_cycle_detected_with(&recent, 2));
    assert!(!fallback_hash_cycle_detected_with(&recent, 3));
}

#[test]
fn seen_states_remember_positions() {
    let mut seen = RobotSeenStates::new();
    assert!(!seen.contains(4));
    seen.mark(4);
    assert!(seen.contains(4));
}

#[test]
fn stall_tracker_verdicts() {
    let mut tracker = RobotStallTracker::new();
    assert_eq!(tracker.after_move(1, 0, None), RobotStallVerdict::Continue);
    let mut verdict = RobotStallVerdict::Continue;
    for _ in 0..10 {
        verdict = tracker.after_move(1, 0, None);
    }
    assert_eq!(verdict, RobotStallVerdict::Lost);

    let mut fc = RobotStallTracker::new();
    let mut verdict = RobotStallVerdict::Continue;
    for _ in 0..10 {
        verdict = fc.after_move(0, 0, Some((0, 0)));
    }
    assert_eq!(verdict, RobotStallVerdict::ResetForStall);
    assert_eq!(fc.stall_streak, 0);
}

#[test]
fn freecell_cycle_signatures() {
    assert_eq!(
        freecell_action_cycle_signature(FreecellPlannerAction::TableauRunToTableau { src: 2, start: 4, dst: 7 }),
        "t2t:T2:4->T7"
    );
    assert_eq!(freecell_action_cycle_signature(FreecellPlannerAction::FreecellToFoundation { cell: 1 }), "c2f:C1->F");
    assert_eq!(freecell_action_cycle_signature(FreecellPlannerAction::TableauToFreecell { src: 0, cell: 3 }), "t2c:T0->C3");
}

#[test]
fn small_robot_rules() {
    assert_eq!(robot_move_description(HintMove::Draw), "draw from stock");
    assert_eq!(session_flush_interval_secs(true, true, true, true), 30);
    assert_eq!(session_flush_interval_secs(true, true, false, true), 3);
    let pile = [card(Suit::Clubs, 5), Card { suit: Suit::Clubs, rank: 4, face_up: false }];
    assert!(tableau_has_face_down_after_face_up(&pile));
    assert!(!tableau_has_face_down_after_face_up(&pile[..1]));
}

#[test]
fn planner_intake_and_watchdog() {
    let stale = freecell_planner_intake(false, false, 5, 0, 10, 3, 4);
    assert_eq!((stale.failed_for_state, stale.empty_streak, stale.cooldown_ticks, stale.accepted), (false, 3, 4, 0));
    let failed = freecell_planner_intake(true, true, 0, 0, 10, 1, 0);
    assert_eq!((failed.failed_for_state, failed.empty_streak, failed.cooldown_ticks), (true, 2, 10));
    let fresh = freecell_planner_intake(true, false, 8, 6, 10, 4, 7);
    assert_eq!((fresh.failed_for_state, fresh.empty_streak, fresh.cooldown_ticks, fresh.accepted), (false, 0, 0, 4));

    assert_eq!(freecell_planner_watchdog(0, 0, 36, 120), (FreecellPlannerWatchdog::Wait { log: true }, 1, 1));
    assert_eq!(freecell_planner_watchdog(1, 1, 36, 120), (FreecellPlannerWatchdog::Wait { log: false }, 2, 2));
    assert_eq!(freecell_planner_watchdog(35, 5, 36, 120), (FreecellPlannerWatchdog::Restart, 36, 6));
    assert_eq!(freecell_planner_watchdog(35, 119, 36, 120), (FreecellPlannerWatchdog::Recover, 36, 120));
}

#[test]
fn robot_streaks_and_loss_rules() {
    assert_eq!(inverse_oscillation_step(4), (5, false));
    assert_eq!(inverse_oscillation_step(5), (6, true));
    let reset = fallback_only_streak_step(0, 12);
    assert_eq!((reset.streak, reset.rebuild, reset.reseed), (0, false, false));
    let rebuild = fallback_only_streak_step(3, 7);
    assert_eq!((rebuild.streak, rebuild.rebuild, rebuild.reseed), (8, true, false));
    let reseed = fallback_only_streak_step(3, 19);
    assert_eq!((reseed.streak, reseed.rebuild, reseed.reseed), (20, true, true));
    assert_eq!(planner_cooldown_after_move(0), 0);
    assert_eq!(planner_cooldown_after_move(3), 2);
    assert!(fallback_action_admissible(false, false, 1, false));
    assert!(!fallback_action_admissible(false, false, 0, false));
    assert!(!fallback_action_admissible(true, true, 5, false));
    assert!(!fallback_action_admissible(false, true, 5, true));
    assert_eq!(robot_loss_action(false, true), RobotLossAction::Stop);
    assert_eq!(robot_loss_action(true, true), RobotLossAction::ForeverReseed);
    assert_eq!(robot_loss_action(true, false), RobotLossAction::Redeal);
}

// ---------------------------------------------------------------------------
// Session text
// ---------------------------------------------------------------------------

#[test]
fn hex_text_round_trips() {
    assert_eq!(hex_encode("hi"), "6869");
    assert_eq!(hex_encode("é"), "c3a9");
    assert_eq!(hex_decode("6869"), Some("hi".to_string()));
    assert_eq!(hex_decode(&hex_encode("mode=spider;x=1")), Some("mode=spider;x=1".to_string()));
    assert_eq!(hex_decode("C3A9"), Some("é".to_string()));
    assert_eq!(hex_decode("686"), None);
    assert_eq!(hex_decode("zz"), None);
    assert_eq!(hex_decode("ff"), None);
    assert_eq!(hex_decode(""), Some(String::new()));
}

#[test]
fn usize_parsing_matches_str_parse() {
    for text in ["0", "42", "+5", "", "+", "-1", "1x", "007", "18446744073709551616"] {
        assert_eq!(parse_usize(text), text.parse::<usize>().ok(), "{text}");
    }
}

#[test]
fn selected_run_round_trips() {
    let run = Some(SelectedRun { col: 3, start: 12 });
    assert_eq!(encode_selected_run(run), "3,12");
    assert_eq!(decode_selected_run("3,12"), Some(run));
    assert_eq!(encode_selected_run(None), "-");
    assert_eq!(decode_selected_run("-"), Some(None));
    assert_eq!(decode_selected_run(""), Some(None));
    assert_eq!(decode_selected_run("3"), None);
    assert_eq!(decode_selected_run("a,1"), None);
}

#[test]
fn payload_fields_are_found_by_key() {
    let raw = "seed=12\n history = abc \nfuture=-\nseed=99";
    assert_eq!(payload_field(raw, "history"), Some("abc"));
    assert_eq!(payload_field(raw, "seed"), Some("12"));
    assert_eq!(payload_field(raw, "future"), Some("-"));
    assert_eq!(payload_field(raw, "chess-mode"), None);
    assert_eq!(payload_field("no equals here\nk=v\r\n", "k"), Some("v"));
    assert_eq!(trim_text("\t a b \u{3000}"), "a b");
}

#[test]
fn snapshot_fields_use_the_last_pair() {
    assert_eq!(snapshot_field("a=1;b=2;a=3", "a"), Some(Some("3")));
    assert_eq!(snapshot_field("a=1;b=2", "z"), Some(None));
    assert_eq!(snapshot_field("a=1;b", "a"), None);
    assert_eq!(snapshot_field(" mode = spider ;draw=1", "mode"), Some(Some("spider")));
}

#[test]
fn flags_and_squares() {
    assert_eq!(parse_flag("1"), Some(true));
    assert_eq!(parse_flag("0"), Some(false));
    assert_eq!(parse_flag("yes"), None);
    assert_eq!(parse_square("63"), Some(63));
    assert_eq!(parse_square("64"), None);
    assert_eq!(parse_square("na"), None);
    assert_eq!(parse_square("-"), None);
    assert_eq!(parse_square("300"), None);
}

#[test]
fn shortcut_labels() {
    assert_eq!(shortcut_text(&vec!["Ctrl+N".to_string(), "F2".to_string()]), Some("Ctrl+N / F2".to_string()));
    assert_eq!(shortcut_text(&Vec::new()), None);
    assert_eq!(with_shortcut_suffix("Robot Mode", "  Ctrl+R "), "Robot Mode (Ctrl+R)");
    assert_eq!(with_shortcut_suffix("Robot Mode", "   "), "Robot Mode");
    assert_eq!(seed_shortcut_hint(Some("Ctrl+S".to_string())), "Ctrl+S / Enter");
    assert_eq!(seed_shortcut_hint(None), "Enter");
}

// ---------------------------------------------------------------------------
// Board audits
// ---------------------------------------------------------------------------

#[test]
fn fresh_deals_pass_the_audit() {
    for seed in [1u64, 2, 3] {
        let spider = SpiderGame::new_with_seed_and_mode(seed, SpiderSuitMode::Four);
        assert_eq!(spider_board_audit(&spider), None);
        let freecell = FreecellGame::new_with_seed_and_card_count(seed, FreecellCardCountMode::ThirtyNine);
        assert_eq!(freecell_board_audit(&freecell), None);
    }
}

#[test]
fn spider_audit_finds_flaws() {
    let stock = vec![Card { suit: Suit::Spades, rank: 1, face_up: false }; 50];
    let mut tableau = vec![vec![card(Suit::Spades, 5)]; 10];
    let short = SpiderGame::debug_new(SpiderSuitMode::One, stock.clone(), tableau.clone(), 0);
    let flaw = spider_board_audit(&short).unwrap();
    assert_eq!(flaw, SpiderFlaw::Accounting { total: 60 });
    assert_eq!(spider_flaw_detail(flaw), "spider card accounting mismatch (total=60, expected=104)");
    tableau[3] = vec![card(Suit::Spades, 5), Card { suit: Suit::Spades, rank: 4, face_up: false }];
    let buried = SpiderGame::debug_new(SpiderSuitMode::One, stock.clone(), tableau.clone(), 0);
    assert_eq!(spider_board_audit(&buried), Some(SpiderFlaw::FaceDownAboveFaceUp));
    tableau[3] = vec![card(Suit::Spades, 14)];
    let bad_rank = SpiderGame::debug_new(SpiderSuitMode::One, stock, tableau, 0);
    assert_eq!(spider_board_audit(&bad_rank), Some(SpiderFlaw::InvalidRank));
    assert_eq!(spider_flaw_detail(SpiderFlaw::InvalidRank), "spider tableau contains invalid rank");
}

#[test]
fn freecell_audit_passes_after_legal_moves() {
    let mut game = FreecellGame::new_with_seed_and_card_count(11, FreecellCardCountMode::FiftyTwo);
    let mut applied = 0;
    for round in 0..6usize {
        for src in 0..8usize {
            let tries = [
                FreecellPlannerAction::TableauToFoundation { src },
                FreecellPlannerAction::TableauToFreecell { src, cell: (src + round) % 4 },
                FreecellPlannerAction::FreecellToTableau { cell: src % 4, dst: (src + round + 1) % 8 },
                FreecellPlannerAction::FreecellToFoundation { cell: src % 4 },
            ];
            for action in tries {
                if apply_freecell_action(&mut game, action) {
                    applied += 1;
                    assert_eq!(freecell_board_audit(&game), None);
                }
            }
        }
    }
    assert!(applied > 0);
}

#[test]
fn freecell_audit_finds_flaws() {
    let empty_foundations = vec![Vec::new(), Vec::new(), Vec::new(), Vec::new()];
    let mut tableau: Vec<Vec<Card>> = vec![Vec::new(); 8];
    tableau[0] = vec![card(Suit::Hearts, 3), card(Suit::Hearts, 3)];
    let twice = FreecellGame::debug_new(
        FreecellCardCountMode::TwentySix,
        tableau.clone(),
        vec![None, None, None, None],
        empty_foundations.clone(),
    );
    assert_eq!(freecell_board_audit(&twice), Some(FreecellFlaw::Duplicate));
    let wrong_suit = FreecellGame::debug_new(
        FreecellCardCountMode::TwentySix,
        Vec::new(),
        vec![None, None, None, None],
        vec![vec![card(Suit::Hearts, 1)], Vec::new(), Vec::new(), Vec::new()],
    );
    assert_eq!(freecell_board_audit(&wrong_suit), Some(FreecellFlaw::FoundationSuitMismatch));
    let few = FreecellGame::debug_new(
        FreecellCardCountMode::TwentySix,
        Vec::new(),
        vec![Some(card(Suit::Clubs, 4)), None, None, None],
        vec![vec![card(Suit::Clubs, 1)], Vec::new(), Vec::new(), Vec::new()],
    );
    let flaw = freecell_board_audit(&few).unwrap();
    assert_eq!(flaw, FreecellFlaw::Accounting { total: 2, expected: 26 });
    assert_eq!(
        freecell_flaw_detail(flaw),
        "freecell card accounting mismatch (total=2, unique=2, expected=26)"
    );
    assert_eq!(freecell_flaw_detail(FreecellFlaw::Duplicate), "freecell duplicate card detected");
}

// ---------------------------------------------------------------------------
// Theme preferences
// ---------------------------------------------------------------------------

#[test]
fn appearance_mode_round_trips() {
    for mode in [AppearanceMode::System, AppearanceMode::Light, AppearanceMode::Dark] {
        assert_eq!(AppearanceMode::from_setting(mode.as_setting()), mode);
    }
    assert_eq!(AppearanceMode::from_setting("sepia"), AppearanceMode::System);
    assert_eq!(mode_switch_pun(GameMode::Spider), "🕷️ Spider mode: one web, many traps.");
}

#[test]
fn preset_search_matches_pieces_and_letters() {
    assert!(theme_preset_matches_query("Aquamarine", ""));
    assert!(theme_preset_matches_query("Aquamarine", "   "));
    assert!(theme_preset_matches_query("Aquamarine", "QUA"));
    assert!(theme_preset_matches_query("Aquamarine", "a q m"));
    assert!(theme_preset_matches_query("Moonstone", "mst"));
    assert!(!theme_preset_matches_query("Ruby", "xyz"));
    assert!(!theme_preset_matches_query("Opal", "lap"));
}

#[test]
fn preset_list_navigation() {
    assert_eq!(next_visible_row(Some(2), 1, 5), Some(3));
    assert_eq!(next_visible_row(Some(4), 1, 5), Some(4));
    assert_eq!(next_visible_row(Some(0), -1, 5), Some(0));
    assert_eq!(next_visible_row(None, -1, 5), Some(4));
    assert_eq!(next_visible_row(None, 1, 0), None);
    assert_eq!(page_visible_row(Some(1), 1, 8, 5), Some(4));
    assert_eq!(page_visible_row(Some(4), -1, 3, 5), Some(1));
    assert_eq!(page_visible_row(None, -1, 3, 5), Some(1));
    assert_eq!(page_step(0, 100, 20), 1);
    assert_eq!(page_step(20, 1, 20), 8);
    assert_eq!(page_step(5, 0, 20), 5);
    assert_eq!(page_step(20, 100, 20), 5);
    assert_eq!(page_step(3, 100, 20), 3);
    assert_eq!(page_step(20, 100, 0), 20);
}

#[test]
fn css_strings_are_escaped() {
    assert_eq!(css_string_literal(r#"a"b\c"#), r#"a\"b\\c"#);
    assert_eq!(css_string_literal("Noto Color Emoji"), "Noto Color Emoji");
}

#[test]
fn planner_start_rules() {
    assert_eq!(freecell_planner_queue_bounds(), (8, 32));
    assert_eq!(freecell_planner_start_decision(true, 0, 0, Some(1), 0, 0), PlannerStart::Skip);
    assert_eq!(freecell_planner_start_decision(false, 8, 0, Some(1), 0, 0), PlannerStart::Skip);
    assert_eq!(freecell_planner_start_decision(false, 2, 3, Some(1), 0, 0), PlannerStart::Debounce { remaining: 2 });
    assert_eq!(freecell_planner_start_decision(false, 2, 0, None, 0, 0), PlannerStart::Skip);
    assert_eq!(freecell_planner_start_decision(false, 2, 0, Some(5), 5, 4), PlannerStart::Skip);
    assert_eq!(
        freecell_planner_start_decision(false, 2, 0, Some(6), 5, 4),
        PlannerStart::Start { release_cooldown: true }
    );
    assert_eq!(
        freecell_planner_start_decision(false, 7, 0, Some(6), 6, 0),
        PlannerStart::Start { release_cooldown: false }
    );
}

#[test]
fn progress_snapshots() {
    let spider = SpiderGame::new_with_seed_and_mode(8, SpiderSuitMode::One);
    assert_eq!(spider_progress_snapshot(&spider), (0, 0));
    let runs = SpiderGame::debug_new(SpiderSuitMode::One, Vec::new(), vec![Vec::new(); 10], 3);
    assert_eq!(spider_progress_snapshot(&runs), (39, 10));
    let freecell = FreecellGame::new_with_seed_and_card_count(8, FreecellCardCountMode::FiftyTwo);
    assert_eq!(freecell_progress_snapshot(&freecell), (0, 0));
}

// ---------------------------------------------------------------------------
// Status lines
// ---------------------------------------------------------------------------

#[test]
fn robot_moves_are_read_from_status_lines() {
    assert_eq!(parse_robot_moves_from_status("robot_v=1 robot_moves=42 x"), Some(42));
    assert_eq!(parse_robot_moves_from_status("robot_moves=5"), None);
    assert_eq!(parse_robot_moves_from_status("a robot_moves=abc"), None);
    assert_eq!(parse_robot_moves_from_status("a robot_moves=99999999999"), None);
    assert_eq!(parse_robot_moves_from_status("a robot_moves=7 robot_moves=9"), Some(7));
}

#[test]
fn robot_history_lines_are_thinned() {
    let wait = |n: u32| format!("robot_v=1 state=running event=planner_wait robot_moves={n} x");
    let ready = |n: u32| format!("robot_v=1 event=planner_ready robot_moves={n} x");
    assert!(!should_throttle_robot_history_line(true, true, &wait(32)));
    assert!(should_throttle_robot_history_line(true, true, &wait(33)));
    assert!(should_throttle_robot_history_line(true, true, &ready(12)));
    assert!(!should_throttle_robot_history_line(true, true, &ready(16)));
    assert!(!should_throttle_robot_history_line(false, true, &wait(33)));
    assert!(!should_throttle_robot_history_line(true, true, "robot_v=1 event=move_applied robot_moves=3 "));
    assert!(!should_throttle_robot_history_line(true, true, "note event=planner_wait robot_moves=3 "));
}

#[test]
fn telemetry_is_hidden_unless_debugging() {
    let line = "robot_v=1 event=x";
    assert_eq!(
        sanitize_status_for_display(false, line),
        "Robot telemetry hidden. Enable Robot Debug to view detailed diagnostics."
    );
    assert_eq!(sanitize_status_for_display(true, line), line);
    assert_eq!(sanitize_status_for_display(false, "Hint: move"), "Hint: move");
    assert!(status_performance_mode_active(true, true, true, true, false));
    assert!(!status_performance_mode_active(true, true, true, true, true));
}

#[test]
fn status_history_search_and_counts() {
    assert_eq!(status_history_text_counts(""), (0, 0));
    assert_eq!(status_history_text_counts("a\nb"), (2, 3));
    assert_eq!(status_history_text_counts("é\n"), (2, 2));
    assert_eq!(status_history_find_match_offsets("Alpha beta ALPHA", "alpha"), vec![(0, 5), (11, 16)]);
    assert_eq!(status_history_find_match_offsets("aaaa", "aa"), vec![(0, 2), (2, 4)]);
    assert_eq!(status_history_find_match_offsets("x", "  "), Vec::<(i32, i32)>::new());
    assert_eq!(status_history_find_match_offsets("é abc", " ABC "), vec![(2, 5)]);
    assert_eq!(unicode_suit(Suit::Hearts), "♥");
}

#[test]
fn status_history_retention_and_admission() {
    assert!(is_retention_choice(500));
    assert!(!is_retention_choice(501));
    assert_eq!(status_history_retention_limit_for(Some(240)), 240);
    assert_eq!(status_history_retention_limit_for(Some(-1)), 1000);
    assert_eq!(status_history_retention_limit_for(Some(7)), 1000);
    assert_eq!(status_history_retention_limit_for(None), 1000);
    assert_eq!(retention_choice_label(1000), Some("1,000 (Default)"));
    assert_eq!(retention_choice_label(7), None);
    assert!(!status_history_admits(true, false, "Hint"));
    assert!(!status_history_admits(false, true, "robot_v=1 event=x"));
    assert!(status_history_admits(false, true, "robot_v=1 event=move_applied x"));
    assert!(status_history_admits(false, false, "robot_v=1"));
    assert!(status_history_admits(false, true, "Hint: x"));
}

#[test]
fn status_history_keeps_the_newest_lines() {
    let mut history = StatusHistory::new();
    history.push_line("a", 2);
    history.push_line("b", 2);
    history.push_line("c", 2);
    assert_eq!(history.len(), 2);
    assert_eq!(history.joined(), "b\nc");
    history.trim_to(1);
    assert_eq!(history.joined(), "c");
    history.push_line("d", 0);
    assert_eq!(history.len(), 0);
    assert_eq!(history.joined(), "");
}

#[test]
fn status_decoration_and_titles() {
    let hint = "Secondary window: session and seed history are not auto-saved.";
    assert_eq!(decorate_status_for_window("  hi ", None, true), "hi");
    assert_eq!(decorate_status_for_window("", Some("Chess Robot: x"), true), "Chess Robot: x");
    assert_eq!(decorate_status_for_window("hi", Some("S"), true), "hi | S");
    assert_eq!(decorate_status_for_window("hi S", Some("S"), true), "hi S");
    assert_eq!(decorate_status_for_window("", None, false), hint);
    assert_eq!(decorate_status_for_window("hi", None, false), format!("hi | {hint}"));
    assert_eq!(current_variant_name(GameMode::Freecell, 1, 4, 52, 4), "FreeCell 52 Cards | 4 Cells");
    assert_eq!(current_variant_name(GameMode::Klondike, 3, 4, 52, 4), "Klondike Deal 3");
    assert_eq!(window_title("Spider Suit 2", 42), "Cardthropic \u{2014} Spider Suit 2 (42)");
    let mut timings = RenderTimings::new();
    timings.record(5);
    timings.record(3);
    assert_eq!(timings, RenderTimings { count: 2, total_us: 8, max_us: 5 });
}

// ---------------------------------------------------------------------------
// Robot reports and chess notation
// ---------------------------------------------------------------------------

#[test]
fn robot_report_pieces() {
    assert_eq!(robot_quote("a\"b\\c\nd"), "a\\\"b\\\\c\\nd");
    let mut tally = FreecellMoveTally::new();
    tally.note(FreecellPlannerAction::TableauToFoundation { src: 1 }, 2);
    tally.note(FreecellPlannerAction::TableauToFreecell { src: 1, cell: 0 }, 3);
    tally.note(FreecellPlannerAction::TableauToFreecell { src: 2, cell: 1 }, 1);
    assert_eq!(tally.tableau_to_foundation, 1);
    assert_eq!(tally.tableau_to_cell, 2);
    assert_eq!(tally.peak_cells_used, 3);
    assert_eq!(tally.total_moves(), 3);
    assert_eq!(robot_total_runs(u32::MAX, 5), u32::MAX);
    assert_eq!(robot_total_runs(3, 4), 7);
    assert!(benchmark_dump_due(50, 25, 25));
    assert!(!benchmark_dump_due(50, 25, 50));
    assert!(!benchmark_dump_due(0, 25, 5));
    assert!(!benchmark_dump_due(51, 25, 25));
    assert!(is_mobile_phone_breakpoint(false, 500, 900, 600, 40));
    assert!(!is_mobile_phone_breakpoint(false, 620, 900, 600, 40));
    assert!(is_mobile_phone_breakpoint(true, 620, 900, 600, 40));
    assert!(!is_mobile_phone_breakpoint(true, 700, 900, 600, 40));
}

#[test]
fn chess_variants_and_pgn_tags() {
    assert_eq!(decode_chess_variant("chess-960"), Some(ChessVariant::Chess960));
    assert_eq!(decode_chess_variant("chess960"), None);
    assert_eq!(chess_variant_from_hint("  Fischer-Random "), Some(ChessVariant::Chess960));
    assert_eq!(chess_variant_from_hint("Atomic Chess"), Some(ChessVariant::Atomic));
    assert_eq!(chess_variant_from_hint("Standard"), Some(ChessVariant::Standard));
    assert_eq!(chess_variant_from_hint("crazyhouse"), None);
    assert_eq!(parse_pgn_tag_line("[Event \"Casual Game\"]"), Some(("Event", "Casual Game")));
    assert_eq!(parse_pgn_tag_line("[ Variant  \"Atomic\" ]"), Some(("Variant", "Atomic")));
    assert_eq!(parse_pgn_tag_line("[Result]"), None);
    assert_eq!(parse_pgn_tag_line("Event \"x\""), None);
    assert_eq!(parse_pgn_tag_line("[]"), None);
}

#[test]
fn robot_status_fields() {
    let spider = SpiderGame::new_with_seed_and_mode(4, SpiderSuitMode::One);
    assert_eq!(
        spider_board_fields(&spider),
        " stock_cards=50 waste_cards=na foundation_cards=na completed_runs=0 tableau_empty_cols=0 tableau_nonempty_cols=10 tableau_face_up_cards=10 tableau_face_down_cards=44"
    );
    assert_eq!(spider_progress_fields(&spider), " progress_kind=completed_runs progress_value=0 progress_score=0");
    assert_eq!(
        spider_move_fields(&spider, Some(HintMove::TableauRunToTableau { src: 0, start: 4, dst: 3 })),
        " move_kind=tableau_run_to_tableau src_col=0 src_start=4 dst_col=3 cards_moved_total=2 draw_from_stock_cards=na recycle_cards=na"
    );
    assert_eq!(
        spider_move_fields(&spider, Some(HintMove::Draw)),
        " move_kind=draw src_col=stock src_start=top dst_col=tableau cards_moved_total=10 draw_from_stock_cards=10 recycle_cards=0"
    );
    assert_eq!(
        spider_move_fields(&spider, None),
        " move_kind=na src_col=na src_start=na dst_col=na cards_moved_total=na draw_from_stock_cards=na recycle_cards=na"
    );
    let freecell = FreecellGame::new_with_seed_and_card_count(4, FreecellCardCountMode::FiftyTwo);
    assert_eq!(
        freecell_board_fields(&freecell),
        " stock_cards=na waste_cards=0 foundation_cards=0 completed_runs=na tableau_empty_cols=0 tableau_nonempty_cols=8 tableau_face_up_cards=52 tableau_face_down_cards=0"
    );
    assert_eq!(freecell_progress_fields(&freecell), " progress_kind=foundation_cards progress_value=0 progress_score=0");
    assert_eq!(
        freecell_move_fields(Some(HintMove::TableauTopToFoundation { src: 5 })),
        " move_kind=tableau_top_to_foundation src_col=5 src_start=top dst_col=foundation cards_moved_total=1 draw_from_stock_cards=na recycle_cards=na"
    );
    assert_eq!(
        freecell_move_fields(Some(HintMove::TableauRunToTableau { src: 1, start: 2, dst: 3 })),
        " move_kind=tableau_run_to_tableau src_col=1 src_start=2 dst_col=3 cards_moved_total=0 draw_from_stock_cards=na recycle_cards=na"
    );
}

#[test]
fn snapshot_headers_are_read() {
    let encoded = "mode=spider;draw=1;selected=3,7;waste=0;moves=12;elapsed=30;timer=1;apm_offset=5;runtime_hex=00;apm=-;fslots=CD-S;chess_mode=0;chess_selected=5";
    let header = decode_snapshot_header(encoded).unwrap();
    assert_eq!(header.selected_run, Some(SelectedRun { col: 3, start: 7 }));
    assert!(!header.selected_waste);
    assert_eq!(header.move_count, 12);
    assert_eq!(header.elapsed_seconds, 30);
    assert!(header.timer_started);
    assert_eq!(header.apm_elapsed_offset_seconds, 5);
    assert_eq!(header.foundation_slot_suits, SlotSuits(Some(Suit::Clubs), Some(Suit::Diamonds), None, Some(Suit::Spades)));
    assert!(!header.chess_mode_active);
    assert_eq!(header.chess_variant, ChessVariant::Standard);
    assert_eq!(header.chess_selected_square, None);

    let chess = "selected=-;waste=1;moves=0;elapsed=0;timer=0;fslots=CDX-;chess_mode=1;chess_variant=chess-atomic;chess_selected=63;chess_last_from=na;chess_last_to=64";
    let header = decode_snapshot_header(chess).unwrap();
    assert_eq!(header.selected_run, None);
    assert_eq!(header.foundation_slot_suits, SlotSuits(None, None, None, None));
    assert_eq!(header.apm_elapsed_offset_seconds, 0);
    assert_eq!(header.chess_variant, ChessVariant::Atomic);
    assert_eq!(header.chess_selected_square, Some(63));
    assert_eq!(header.chess_last_move_from, None);
    assert_eq!(header.chess_last_move_to, None);

    assert_eq!(decode_snapshot_header("selected=-;waste=1;moves=0;elapsed=0;timer=0;oops"), None);
    assert_eq!(decode_snapshot_header("selected=-;waste=1;moves=0;elapsed=0"), None);
    assert_eq!(decode_snapshot_header("selected=-;waste=2;moves=0;elapsed=0;timer=0"), None);
    assert_eq!(decode_snapshot_header("selected=-;waste=1;moves=4294967296;elapsed=0;timer=0"), None);
}

#[test]
fn snapshot_text_is_written_in_field_order() {
    let header = SnapshotHeader {
        selected_run: Some(SelectedRun { col: 2, start: 5 }),
        selected_waste: true,
        move_count: 41,
        elapsed_seconds: 95,
        timer_started: true,
        apm_elapsed_offset_seconds: 7,
        foundation_slot_suits: SlotSuits(Some(Suit::Hearts), None, Some(Suit::Clubs), Some(Suit::Spades)),
        chess_mode_active: true,
        chess_variant: ChessVariant::Chess960,
        chess_selected_square: Some(12),
        chess_last_move_from: None,
        chess_last_move_to: Some(63),
    };
    let text = encode_snapshot_text(&header, "klondike", 3, "6162", "-", "-", "-", "-");
    assert_eq!(
        text,
        "mode=klondike;draw=3;selected=2,5;waste=1;moves=41;elapsed=95;timer=1;apm_offset=7;runtime_hex=6162;apm=-;fslots=H-CS;chess_mode=1;chess_variant=chess-960;chess_fen=-;chess_selected=12;chess_last_from=na;chess_last_to=63;chess_history=-;chess_future=-"
    );
    assert_eq!(decode_snapshot_header(&text), Some(header));
}

#[test]
fn snapshot_header_reads_back_outside_chess_mode() {
    let header = SnapshotHeader {
        selected_run: None,
        selected_waste: false,
        move_count: 0,
        elapsed_seconds: 4294967295,
        timer_started: false,
        apm_elapsed_offset_seconds: 0,
        foundation_slot_suits: SlotSuits(None, None, None, None),
        chess_mode_active: false,
        chess_variant: ChessVariant::Atomic,
        chess_selected_square: None,
        chess_last_move_from: None,
        chess_last_move_to: None,
    };
    let text = encode_snapshot_text(&header, "freecell", 1, "", "1:2", "x y", "a|b", "");
    assert_eq!(decode_snapshot_header(&text), Some(header));
    assert_eq!(snapshot_field(&text, "apm"), Some(Some("1:2")));
    assert_eq!(snapshot_field(&text, "chess_fen"), Some(Some("x y")));
}

#[test]
fn button_labels_carry_shortcuts() {
    assert_eq!(label_with_shortcut("Undo", Some("Ctrl+Z".to_string())), "Undo (Ctrl+Z)");
    assert_eq!(label_with_shortcut("Undo", Some("  ".to_string())), "Undo");
    assert_eq!(label_with_shortcut("Undo", None), "Undo");
    assert_eq!(
        seed_entry_placeholder(Some("Ctrl+K".to_string())),
        "Blank=random, or enter seed number/word (Ctrl+K / Enter)"
    );
    assert_eq!(seed_field_tooltip(None), "Game seed (Enter)");
    assert_eq!(seed_winnable_progress_label("Checking", 12, Some("F6".to_string())), "Checking 12s (F6)");
    assert_eq!(seed_winnable_progress_label("Checking", 0, None), "Checking 0s");
    assert_eq!(robot_button_tooltip(true, None), "Robot Mode (Forever Mode enabled)");
    assert_eq!(robot_button_tooltip(false, Some("R".to_string())), "Robot Mode (R)");
}

#[test]
fn snapshot_stacks_are_written_as_hex_tokens() {
    assert_eq!(encode_snapshot_stack(&Vec::new()), "-");
    let stack = vec!["ab".to_string(), "c".to_string()];
    let text = encode_snapshot_stack(&stack);
    assert_eq!(text, "6162,63");
    assert_eq!(decode_snapshot_stack(&text), Some(stack));
    assert_eq!(decode_snapshot_stack("-"), Some(Vec::new()));
    assert_eq!(decode_snapshot_stack(""), Some(Vec::new()));
    assert_eq!(decode_snapshot_stack("6162,zz"), None);
    assert_eq!(decode_snapshot_stack("616"), None);
    assert_eq!(decode_snapshot_stack("6162,,63"), Some(vec!["ab".to_string(), String::new(), "c".to_string()]));

    let long: Vec<String> = (0..MAX_PERSISTED_SNAPSHOTS + 5).map(|i| format!("snap{i}")).collect();
    let text = encode_snapshot_stack(&long);
    let back = decode_snapshot_stack(&text).unwrap();
    assert_eq!(back.len(), MAX_PERSISTED_SNAPSHOTS);
    assert_eq!(back[0], "snap5");
    assert_eq!(back[MAX_PERSISTED_SNAPSHOTS - 1], format!("snap{}", MAX_PERSISTED_SNAPSHOTS + 4));
}

#[test]
fn chess_position_stacks_split_back() {
    let positions = vec![
        "rnbqkbnr/pppppppp/8/8/8/8/PPPPPPPP/RNBQKBNR w KQkq - 0 1".to_string(),
        "8/8/8/8/8/8/8/K6k b - - 5 40".to_string(),
    ];
    let text = encode_position_stack(&positions);
    assert_eq!(
        text,
        "rnbqkbnr/pppppppp/8/8/8/8/PPPPPPPP/RNBQKBNR w KQkq - 0 1,8/8/8/8/8/8/8/K6k b - - 5 40"
    );
    assert_eq!(position_stack_tokens(&text), positions);
    assert_eq!(encode_position_stack(&Vec::new()), "-");
    assert_eq!(position_stack_tokens("-"), Vec::<String>::new());
    assert_eq!(position_stack_tokens(""), Vec::<String>::new());
    assert_eq!(position_stack_tokens("a,,b"), vec!["a".to_string(), String::new(), "b".to_string()]);
    let many: Vec<String> = (0..MAX_PERSISTED_SNAPSHOTS + 1).map(|i| format!("p{i}")).collect();
    let back = position_stack_tokens(&encode_position_stack(&many));
    assert_eq!(back.len(), MAX_PERSISTED_SNAPSHOTS);
    assert_eq!(back[0], "p1");
}

#[test]
fn pasted_chess_text_yields_hints() {
    let pgn = "[Event \"Casual\"]\n[Variant \"Chess960\"]\n[FEN \"bbrknnqr/pppppppp/8/8/8/8/PPPPPPPP/BBRKNNQR w KQkq - 0 1\"]\n\n1. e4";
    assert_eq!(
        chess_notation_hints(pgn),
        (Some(ChessVariant::Chess960), Some("bbrknnqr/pppppppp/8/8/8/8/PPPPPPPP/BBRKNNQR w KQkq - 0 1".to_string()))
    );
    assert_eq!(
        chess_notation_hints("  fen=  8/8/8/8/8/8/8/K6k w - - 0 1  "),
        (None, Some("8/8/8/8/8/8/8/K6k w - - 0 1".to_string()))
    );
    assert_eq!(
        chess_notation_hints("position fen 8/8/8/8/8/8/8/K6k   w - - 0 1 moves a1a2"),
        (None, Some("8/8/8/8/8/8/8/K6k w - - 0 1".to_string()))
    );
    assert_eq!(
        chess_notation_hints("notes first\r\n8/8/8/8/8/8/8/K6k b - - 3 9\r\n1 2 3 4 5 6"),
        (None, Some("8/8/8/8/8/8/8/K6k b - - 3 9".to_string()))
    );
    assert_eq!(chess_notation_hints("[variant \"atomic\"]"), (Some(ChessVariant::Atomic), None));
    assert_eq!(chess_notation_hints(""), (None, None));
    assert_eq!(
        candidate_variants(Some(ChessVariant::Atomic), ChessVariant::Standard),
        vec![ChessVariant::Atomic, ChessVariant::Standard, ChessVariant::Chess960]
    );
    assert_eq!(
        candidate_variants(None, ChessVariant::Chess960),
        vec![ChessVariant::Chess960, ChessVariant::Standard, ChessVariant::Atomic]
    );
    assert_eq!(
        direct_fen_variants(ChessVariant::Atomic),
        vec![ChessVariant::Atomic, ChessVariant::Standard, ChessVariant::Chess960, ChessVariant::Atomic]
    );
}

#[test]
fn style_presets_are_found_again_from_their_css() {
    let names = userstyle_preset_names();
    assert_eq!(names.len(), USERSTYLE_PRESET_COUNT as usize);
    assert_eq!(names[0], "Custom");
    assert_eq!(names[5], "Garnet (January, Deep Red)");
    assert_eq!(names[18], "Citrine (November, Amber Yellow)");
    assert_eq!(userstyle_css_for_preset(0), None);
    assert_eq!(userstyle_css_for_preset(19), None);
    for index in 1..USERSTYLE_PRESET_COUNT {
        let css = userstyle_css_for_preset(index).unwrap();
        assert_eq!(userstyle_preset_for_css(css), index);
    }
    assert_eq!(userstyle_preset_for_css(USERSTYLE_TEMPLATE_FOREST), 7);
    assert_eq!(userstyle_preset_for_css("window { color: red; }"), 0);
    assert!(default_userstyle_css().starts_with("/* Cardthropic"));
    assert!(is_system_userstyle_css(USERSTYLE_TEMPLATE_SYSTEM));
    assert!(!is_system_userstyle_css(default_userstyle_css()));
    assert_eq!(migrate_legacy_userstyle_css(USERSTYLE_TEMPLATE_LIGHT_MODE), Some(USERSTYLE_TEMPLATE_SYSTEM));
    assert_eq!(migrate_legacy_userstyle_css(USERSTYLE_TEMPLATE_TERMINAL), Some(USERSTYLE_TEMPLATE_SYSTEM));
    assert_eq!(migrate_legacy_userstyle_css(default_userstyle_css()), None);
    let garnet = userstyle_css_for_preset(5).unwrap();
    assert!(garnet.starts_with("/* Garnet\nCardthropic Theme Reference Template\n"));
    assert!(garnet.contains("headerbar,\npopover,\nmenu,\nframe {\n  background: rgba(46, 9, 15, 0.68);\n}"));
}

#[test]
fn millisecond_counts_are_capped() {
    assert_eq!(cardthropic::clock::capped_millis(1234), 1234);
    assert_eq!(cardthropic::clock::capped_millis(u64::MAX as u128), u64::MAX);
    assert_eq!(cardthropic::clock::capped_millis(u64::MAX as u128 + 7), u64::MAX);
}

#[test]
fn seed_checks_answer_a_flag_read_on_entry() {
    let lowered = AtomicBool::new(false);
    let (r, _) = cardthropic::spider_search::spider_seed_check(123, SpiderSuitMode::One, 100, 100, true, &lowered);
    assert!(r.canceled && !r.winnable && r.iterations == 0 && r.hit_state_limit && r.hint_line.is_none());
    let (r, _) = cardthropic::spider_search::spider_seed_check(123, SpiderSuitMode::One, 0, 0, false, &lowered);
    assert!(!r.canceled && !r.winnable && r.iterations == 0 && r.hit_state_limit);
    let (r, _) = cardthropic::freecell_find::freecell_seed_check(1, FreecellCardCountMode::FiftyTwo, 0, 0, true, &lowered);
    assert!(r.canceled && !r.winnable && r.iterations == 0 && r.hit_state_limit && r.freecell_line.is_none());
    let (p, trials, _) = cardthropic::spider_playthrough::spider_playthrough_line_after_check(
        123,
        SpiderSuitMode::Four,
        15_000,
        0,
        true,
        &lowered,
        &[0, 1],
    );
    assert_eq!(p.stop_reason, SpiderFindStopReason::Canceled);
    assert!(p.line.is_none() && p.expanded_states == 0 && p.generated_branches == 0);
    assert!(p.draw_moves == 0 && p.tableau_moves == 0 && p.reveal_moves == 0 && p.empty_creates == 0);
    assert!(p.adapt_events == 0 && p.cycle_period == 0 && p.cycle_blocks == 0);
    assert!(trials.is_empty());
}

#[test]
fn hex_decode_refuses_odd_lengths_before_slicing() {
    assert_eq!(hex_decode("a\u{e9}"), None);
    assert_eq!(hex_decode("zz\u{e9}"), None);
}

#[test]
fn freecell_move_signatures_name_the_card() {
    use_freecell_signatures();
}

fn use_freecell_signatures() {
    let run = FreecellPlannerAction::TableauRunToTableau { src: 2, start: 4, dst: 7 };
    assert_eq!(cardthropic::robot_guard::freecell_action_signature("7H", run), "7H:T2:4->T7");
    assert_eq!(cardthropic::robot_guard::freecell_inverse_action_signature("7H", run), "7H:T7->T2:4");
    let to_cell = FreecellPlannerAction::TableauToFreecell { src: 0, cell: 3 };
    let back = FreecellPlannerAction::FreecellToTableau { cell: 3, dst: 0 };
    assert_eq!(
        cardthropic::robot_guard::freecell_action_signature("KS", to_cell),
        cardthropic::robot_guard::freecell_inverse_action_signature("KS", back)
    );
    assert_eq!(
        cardthropic::robot_guard::freecell_inverse_action_signature("2C", FreecellPlannerAction::TableauToFoundation { src: 5 }),
        "2C:F->T5"
    );
    assert!(cardthropic::robot_guard::freecell_action_is_inverse_tableau_of_last_move(Some("a"), Some("a"), run));
    assert!(!cardthropic::robot_guard::freecell_action_is_inverse_tableau_of_last_move(Some("a"), Some("a"), back));
    let game = FreecellGame::new_with_seed_and_card_count(3, FreecellCardCountMode::FiftyTwo);
    let top = game.tableau_top(0);
    assert_eq!(cardthropic::robot_guard::freecell_moving_card(&game, FreecellPlannerAction::TableauToFoundation { src: 0 }), top);
    assert_eq!(cardthropic::robot_guard::freecell_moving_card(&game, FreecellPlannerAction::FreecellToFoundation { cell: 1 }), None);
}

#[test]
fn searches_with_a_small_limit_count_distinct_positions() {
    let lowered = AtomicBool::new(false);
    let start = FreecellGame::new_with_seed_and_card_count(1, FreecellCardCountMode::FiftyTwo);
    let (r, _) = cardthropic::freecell_find::freecell_search(&start, 5, &lowered);
    assert!(!r.winnable && r.hit_state_limit && !r.canceled);
    assert_eq!(r.iterations, 5);
    let deal = cardthropic::spider::SpiderGame::new_with_seed_and_mode(123, SpiderSuitMode::One);
    let (r, _) = cardthropic::spider_search::spider_search(&deal, SpiderSuitMode::One, 3, &lowered);
    assert!(!r.winnable && r.hit_state_limit && !r.canceled);
    assert!(r.iterations >= 1 && r.iterations <= 3);
}

#[test]
fn spider_attempts_replay_the_same_picks() {
    let lowered = AtomicBool::new(false);
    let policy = cardthropic::spider_playthrough::spider_find_policy(SpiderSuitMode::Two);
    let (a, _) = cardthropic::spider_playthrough::spider_playthrough_attempt(
        77, SpiderSuitMode::Two, 60, 40, 3, policy, 5, &lowered,
    );
    let (b, _) = cardthropic::spider_playthrough::spider_playthrough_attempt(
        77, SpiderSuitMode::Two, 60, 40, 3, policy, 5, &lowered,
    );
    assert_eq!(a.expanded_states, b.expanded_states);
    assert_eq!(a.stop_reason, b.stop_reason);
    assert_eq!(a.draw_moves, b.draw_moves);
    assert_eq!(a.tableau_moves, b.tableau_moves);
    assert_eq!(a.face_down_cards, b.face_down_cards);
    assert_eq!(a.generated_branches, b.generated_branches);
}

#[test]
fn klondike_outcomes_follow_the_answers() {
    let won = KlondikeAnalysis { winnable: true, explored_states: 10, win_depth: Some(3), hit_state_limit: false };
    let lost = KlondikeAnalysis { winnable: false, explored_states: 10, win_depth: None, hit_state_limit: true };
    assert!(matches!(klondike_seed_outcome(None, false, None), KlondikeSeedOutcome::Canceled));
    assert!(matches!(klondike_seed_outcome(Some(lost), false, None), KlondikeSeedOutcome::NotWinnable));
    assert!(matches!(klondike_seed_outcome(Some(won), true, None), KlondikeSeedOutcome::Canceled));
    assert!(matches!(klondike_seed_outcome(Some(won), false, None), KlondikeSeedOutcome::Canceled));
    match klondike_seed_outcome(Some(won), false, Some(None)) {
        KlondikeSeedOutcome::Winnable(line) => assert!(line.is_empty()),
        _ => panic!("expected a win"),
    }
    match klondike_seed_outcome(Some(won), false, Some(Some(vec![HintMove::Draw]))) {
        KlondikeSeedOutcome::Winnable(line) => assert_eq!(line, vec![HintMove::Draw]),
        _ => panic!("expected a win"),
    }
}

#[test]
fn verification_rounds_come_every_interval() {
    let mut count = 0u32;
    let mut rounds = 0;
    for _ in 0..48 {
        let (next, due) = spider4_verify_step(count);
        count = next;
        if due {
            rounds += 1;
        }
    }
    assert_eq!(rounds, 2);
    assert_eq!(count, 0);
    assert_eq!(spider4_verify_step(5), (6, false));
    assert_eq!(spider4_verify_step(23), (0, true));
}

#[test]
fn rollout_scores_report_overflow() {
    let cancel = AtomicBool::new(false);
    let (mut attempt, _) = spider_single_playthrough_line(5, SpiderSuitMode::Two, 10, 10, &cancel, &[]);
    attempt.completed_runs = 2;
    attempt.peak_empty_cols = 1;
    attempt.empty_creates = 0;
    attempt.peak_suited_edges = 0;
    attempt.peak_tail_run = 0;
    attempt.reveal_moves = 0;
    attempt.face_down_cards = 10;
    attempt.stop_reason = SpiderFindStopReason::NoAction;
    assert!(spider_rollout_score_fits(&attempt));
    assert_eq!(spider_rollout_candidate_score(&attempt), 30_000 + 400_000 + 45_000 - 900);
    attempt.completed_runs = usize::MAX / 4;
    assert!(!spider_rollout_score_fits(&attempt));
}

#[test]
fn a_raised_flag_verifies_no_pooled_seed() {
    let cancel = AtomicBool::new(false);
    let mut pool = SpiderCandidatePool::new();
    pool.offer((10, 5, 1));
    let mut verified = std::collections::HashSet::new();
    let found = spider4_verify_after_check(&mut pool, &mut verified, SpiderSuitMode::Four, 10, 10, true, &cancel);
    assert!(found.is_none());
    assert_eq!(pool.len(), 1);
    assert!(verified.is_empty());
}

#[test]
fn history_search_wraps_both_ways() {
    assert_eq!(status_history_find_first(0), None);
    assert_eq!(status_history_find_first(3), Some(0));
    assert_eq!(status_history_find_next(Some(2), 3), Some(0));
    assert_eq!(status_history_find_next(Some(0), 3), Some(1));
    assert_eq!(status_history_find_next(None, 3), Some(0));
    assert_eq!(status_history_find_next(Some(1), 0), None);
    assert_eq!(status_history_find_previous(Some(0), 3), Some(2));
    assert_eq!(status_history_find_previous(Some(2), 3), Some(1));
    assert_eq!(status_history_find_previous(None, 3), Some(0));
    assert_eq!(status_history_find_previous(Some(0), 0), None);
}

#[test]
fn robot_ticks_begin_in_order() {
    assert_eq!(robot_tick_start(false, true, true, None, true), RobotTickStart::Idle);
    assert_eq!(robot_tick_start(true, true, true, None, false), RobotTickStart::HandleWin);
    assert_eq!(robot_tick_start(true, false, true, Some(HintMove::Draw), true), RobotTickStart::Scripted(HintMove::Draw));
    assert_eq!(robot_tick_start(true, false, true, None, false), RobotTickStart::StopScriptedUnavailable);
    assert_eq!(robot_tick_start(true, false, false, None, true), RobotTickStart::FreecellTurn);
    assert_eq!(robot_tick_start(true, false, false, None, false), RobotTickStart::SearchTurn);
    assert_eq!(freecell_empty_plan_step(true, true, true), FreecellEmptyPlan::StopScriptedUnavailable);
    assert_eq!(freecell_empty_plan_step(false, true, true), FreecellEmptyPlan::FallbackAfterFailure);
    assert_eq!(freecell_empty_plan_step(false, false, true), FreecellEmptyPlan::Watch);
    assert_eq!(freecell_empty_plan_step(false, false, false), FreecellEmptyPlan::Fallback);
}

#[test]
fn checked_decoders_refuse_text_that_cannot_be_sliced() {
    assert!(!hex_text_sliceable("1\u{e9}1"));
    assert_eq!(hex_decode_checked("1\u{e9}1"), None);
    assert!(hex_text_sliceable("a\u{e9}"));
    assert_eq!(hex_decode_checked("a\u{e9}"), None);
    assert_eq!(hex_decode_checked("6869"), Some("hi".to_string()));
    assert_eq!(decode_snapshot_stack_checked("1\u{e9}1"), None);
    assert_eq!(decode_snapshot_stack_checked("-"), Some(Vec::new()));
    assert_eq!(decode_snapshot_stack_checked("6869,6f"), Some(vec!["hi".to_string(), "o".to_string()]));
}

#[test]
fn freecell_ticks_sequence_the_planner_decisions() {
    let c = FreecellTickCounters { wait_ticks: 3, no_move_ticks: 4 };
    let zero = FreecellTickCounters { wait_ticks: 0, no_move_ticks: 0 };
    assert_eq!(freecell_tick_step(c, false, false, false, true, 10, 10), (zero, FreecellTickAction::PlayPlanned));
    assert_eq!(freecell_tick_step(c, true, true, false, false, 10, 10), (c, FreecellTickAction::StopScripted));
    assert_eq!(
        freecell_tick_step(c, true, false, true, true, 10, 10),
        (
            FreecellTickCounters { wait_ticks: 0, no_move_ticks: 4 },
            FreecellTickAction::Fallback { cancel_planner: true, clear_plan: false }
        )
    );
    assert_eq!(
        freecell_tick_step(c, true, false, false, false, 10, 10),
        (c, FreecellTickAction::Fallback { cancel_planner: false, clear_plan: false })
    );
    let waited = FreecellTickCounters { wait_ticks: 4, no_move_ticks: 5 };
    assert_eq!(freecell_tick_step(c, true, false, false, true, 10, 10), (waited, FreecellTickAction::Wait { log: false }));
    assert_eq!(freecell_tick_step(c, true, false, false, true, 4, 10), (waited, FreecellTickAction::RestartPlanner));
    assert_eq!(
        freecell_tick_step(c, true, false, false, true, 4, 5),
        (waited, FreecellTickAction::Fallback { cancel_planner: true, clear_plan: true })
    );
}
