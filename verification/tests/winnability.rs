use std::collections::{HashSet, VecDeque};
use std::sync::atomic::AtomicBool;

use cardthropic::cards::{Card, Suit};
use cardthropic::moves::HintMove;
use cardthropic::spider::{SpiderGame, SpiderSuitMode};
use cardthropic::spider_choice::spider_solver_choose_move;
use cardthropic::spider_cycle::spider_solver_detect_repeating_tail_cycle;
use cardthropic::spider_metrics::spider_empty_col_count;
use cardthropic::spider_playthrough::spider_find_policy;
use cardthropic::spider_search::is_spider_seed_winnable;
use cardthropic::spider_solver::spider_solver_ranked_candidates;

#[test]
fn spider_seed_winnability_honors_cancel_flag() {
    let cancel = AtomicBool::new(true);
    let result = is_spider_seed_winnable(123, SpiderSuitMode::One, 100, 100, &cancel)
        .expect("result should always be returned");
    assert!(result.canceled);
    assert!(!result.winnable);
    assert!(result.hint_line.is_none());
    assert!(result.solver_line.is_none());
}

#[test]
fn spider_seed_winnability_returns_spider_hint_line_shape() {
    let cancel = AtomicBool::new(false);
    let result = is_spider_seed_winnable(123, SpiderSuitMode::Four, 4, 4, &cancel)
        .expect("result should always be returned");
    assert!(result.solver_line.is_none());
    if let Some(line) = result.hint_line {
        assert_eq!(
            usize::try_from(result.moves_to_win.unwrap_or(0)).ok(),
            Some(line.len())
        );
    }
}

#[test]
fn spider_repeating_tail_cycle_detector_trips_on_3_4_5_patterns() {
    let mut seq3 = Vec::new();
    for _ in 0..4 {
        seq3.extend(["a".to_string(), "b".to_string(), "c".to_string()]);
    }
    assert_eq!(spider_solver_detect_repeating_tail_cycle(&seq3), Some((3, 4)));

    let mut seq4 = Vec::new();
    for _ in 0..4 {
        seq4.extend([
            "m1".to_string(),
            "m2".to_string(),
            "m3".to_string(),
            "m4".to_string(),
        ]);
    }
    assert_eq!(spider_solver_detect_repeating_tail_cycle(&seq4), Some((4, 4)));

    let mut seq5 = Vec::new();
    for _ in 0..4 {
        seq5.extend([
            "p1".to_string(),
            "p2".to_string(),
            "p3".to_string(),
            "p4".to_string(),
            "p5".to_string(),
        ]);
    }
    assert_eq!(spider_solver_detect_repeating_tail_cycle(&seq5), Some((5, 4)));
}

fn c(suit: Suit, rank: u8, face_up: bool) -> Card {
    Card { suit, rank, face_up }
}

#[test]
fn spider_four_suit_prefers_source_clearing_move_when_no_empty_cols() {
    let stock = vec![c(Suit::Spades, 1, false); 10];
    let tableau = [
        vec![c(Suit::Spades, 6, true)],
        vec![c(Suit::Hearts, 7, true)],
        vec![c(Suit::Clubs, 9, true), c(Suit::Clubs, 8, true)],
        vec![c(Suit::Diamonds, 13, true)],
        vec![c(Suit::Diamonds, 9, true)],
        vec![c(Suit::Spades, 12, true)],
        vec![c(Suit::Hearts, 5, true)],
        vec![c(Suit::Clubs, 2, true)],
        vec![c(Suit::Diamonds, 4, true)],
        vec![c(Suit::Spades, 1, true)],
    ];
    let game = SpiderGame::debug_new(SpiderSuitMode::Four, stock, Vec::from(tableau), 0);
    assert_eq!(spider_empty_col_count(&game), 0);
    assert_eq!(game.stock_len(), 10);

    let ranked = spider_solver_ranked_candidates(&game, SpiderSuitMode::Four, None);
    assert!(ranked.iter().any(|(_, hm, _)| {
        matches!(hm, HintMove::TableauRunToTableau { start, .. } if *start > 0)
    }));
    assert!(ranked
        .iter()
        .any(|(_, hm, _)| matches!(hm, HintMove::TableauRunToTableau { start: 0, .. })));

    let decision = spider_solver_choose_move(
        &game,
        SpiderSuitMode::Four,
        None,
        &HashSet::new(),
        &VecDeque::new(),
        0,
        spider_find_policy(SpiderSuitMode::Four),
        |_| true,
    )
    .expect("must have at least one legal move");

    match decision.hint_move {
        HintMove::TableauRunToTableau { start, .. } => {
            assert_eq!(start, 0, "expected clear-source move preference when no empty columns");
        }
        other => panic!("expected tableau move, got {:?}", other),
    }
}
