use openspeedrun::{AppState, Run, Split, StoreRequest, TimerState};

/// Carries out the requests against an in-memory stored run.
fn apply(state: &mut AppState, store: &mut Run, requests: Vec<StoreRequest>) {
    for r in requests {
        match r {
            StoreRequest::SaveGold(golds) => store.apply_gold_times(&golds),
            StoreRequest::SaveRun(run) => *store = run,
            StoreRequest::Reload => state.sync_splits(store.clone()),
        }
    }
}

fn run_of(names: &[&str], gold_split: bool) -> Run {
    let mut run = Run::new("Game", "Any%", names);
    run.gold_split = gold_split;
    run
}

fn golds(run: &Run) -> Vec<Option<i64>> {
    run.splits.iter().map(|s| s.gold_time).collect()
}

fn pbs(run: &Run) -> Vec<Option<i64>> {
    run.splits.iter().map(|s| s.pb_time).collect()
}

/// Runs one full attempt: starts at `start`, then splits at `start + t` for each t.
fn attempt(state: &mut AppState, store: &mut Run, start: i64, times: &[i64]) {
    let r = state.split_at(start);
    apply(state, store, r);
    for t in times {
        let r = state.split_at(start + t);
        apply(state, store, r);
    }
}

fn reset(state: &mut AppState, store: &mut Run) {
    let r = state.reset_splits();
    apply(state, store, r);
}

fn same_split(a: &Split, b: &Split) -> bool {
    a.name == b.name
        && a.pb_time == b.pb_time
        && a.last_time == b.last_time
        && a.gold_time == b.gold_time
        && a.icon_path == b.icon_path
        && a.gold_history == b.gold_history
        && a.pb_history == b.pb_history
}

#[test]
fn split_advances_then_stays_at_end() {
    let run = run_of(&["A", "B", "C"], false);
    let mut store = run.clone();
    let mut state = AppState::new(run);
    let r = state.split_at(0);
    assert!(r.is_empty());
    apply(&mut state, &mut store, r);
    assert_eq!(state.current_split, 0);
    assert!(state.timer.is_running());
    for (k, t) in [1_000, 2_000, 3_000].iter().enumerate() {
        let r = state.split_at(*t);
        apply(&mut state, &mut store, r);
        assert_eq!(state.current_split, k + 1);
    }
    assert_eq!(state.timer.state, TimerState::Paused);
    let r = state.split_at(4_000);
    assert!(r.is_empty());
    assert_eq!(state.current_split, 3);
    assert_eq!(state.timer.state, TimerState::Paused);
}

#[test]
fn split_with_clock_starts_attempt() {
    let run = run_of(&["A", "B"], true);
    let mut state = AppState::new(run);
    let r = state.split();
    assert!(r.is_empty());
    assert!(state.timer.is_running());
    assert_eq!(state.current_split, 0);
    assert_eq!(state.splits_backup.len(), 2);
}

#[test]
fn gold_scenario_two_attempts() {
    let run = run_of(&["A", "B"], true);
    let mut store = run.clone();
    let mut state = AppState::new(run);
    attempt(&mut state, &mut store, 0, &[10_000, 18_000]);
    assert_eq!(golds(&state.run), vec![Some(10_000), Some(8_000)]);
    assert_eq!(golds(&store), vec![Some(10_000), Some(8_000)]);
    reset(&mut state, &mut store);
    attempt(&mut state, &mut store, 100_000, &[9_000, 20_000]);
    assert_eq!(golds(&state.run), vec![Some(9_000), Some(8_000)]);
    assert_eq!(golds(&store), vec![Some(9_000), Some(8_000)]);
}

#[test]
fn gold_is_minimum_over_three_attempts() {
    let run = run_of(&["Only"], true);
    let mut store = run.clone();
    let mut state = AppState::new(run);
    for (k, seg) in [10_000, 8_000, 12_000].iter().enumerate() {
        attempt(&mut state, &mut store, 1_000_000 * k as i64, &[*seg]);
        reset(&mut state, &mut store);
    }
    assert_eq!(golds(&state.run), vec![Some(8_000)]);
    assert_eq!(golds(&store), vec![Some(8_000)]);
}

#[test]
fn gold_saved_after_every_split() {
    let run = run_of(&["A", "B", "C"], true);
    let mut store = run.clone();
    let mut state = AppState::new(run);
    state.split_at(0);
    let r = state.split_at(5_000);
    assert_eq!(r.len(), 1);
    match &r[0] {
        StoreRequest::SaveGold(g) => assert_eq!(g, &vec![Some(5_000), None, None]),
        other => panic!("unexpected {:?}", other),
    }
    apply(&mut state, &mut store, r);
    assert_eq!(golds(&store), vec![Some(5_000), None, None]);
}

#[test]
fn gold_mode_off_keeps_golds() {
    let run = run_of(&["A", "B"], false);
    let mut store = run.clone();
    let mut state = AppState::new(run);
    attempt(&mut state, &mut store, 0, &[1_000, 2_000]);
    assert_eq!(golds(&state.run), vec![None, None]);
    assert_eq!(pbs(&state.run), vec![Some(1_000), Some(1_000)]);
}

#[test]
fn first_attempt_becomes_pb_and_is_saved() {
    let run = run_of(&["A", "B"], false);
    let mut store = run.clone();
    let mut state = AppState::new(run);
    attempt(&mut state, &mut store, 0, &[10_000, 18_000]);
    assert_eq!(pbs(&state.run), vec![Some(10_000), Some(8_000)]);
    assert_eq!(pbs(&store), vec![Some(10_000), Some(8_000)]);
    assert!(state.run.splits.iter().all(|s| s.last_time.is_none()));
    assert_eq!(state.splits_display[1].last_time, Some(18_000));
}

#[test]
fn one_slower_segment_blocks_whole_pb() {
    let run = run_of(&["A", "B"], false);
    let mut store = run.clone();
    let mut state = AppState::new(run);
    attempt(&mut state, &mut store, 0, &[10_000, 18_000]);
    reset(&mut state, &mut store);
    attempt(&mut state, &mut store, 100_000, &[9_000, 18_500]);
    assert_eq!(pbs(&state.run), vec![Some(10_000), Some(8_000)]);
    reset(&mut state, &mut store);
    attempt(&mut state, &mut store, 200_000, &[9_000, 16_000]);
    assert_eq!(pbs(&state.run), vec![Some(9_000), Some(7_000)]);
    assert_eq!(pbs(&store), vec![Some(9_000), Some(7_000)]);
}

#[test]
fn equal_segments_count_as_pb() {
    let run = run_of(&["A"], false);
    let mut store = run.clone();
    let mut state = AppState::new(run);
    attempt(&mut state, &mut store, 0, &[5_000]);
    reset(&mut state, &mut store);
    state.run.splits[0].icon_path = Some("icon.png".to_string());
    attempt(&mut state, &mut store, 50_000, &[5_000]);
    assert_eq!(pbs(&state.run), vec![Some(5_000)]);
}

#[test]
fn no_auto_save_without_auto_update() {
    let mut run = run_of(&["A"], false);
    run.auto_update_pb = false;
    let mut state = AppState::new(run);
    state.split_at(0);
    let r = state.split_at(1_000);
    assert!(r.is_empty());
    assert_eq!(pbs(&state.run), vec![Some(1_000)]);
}

#[test]
fn undo_pb_restores_splits_from_start() {
    let mut run = run_of(&["A", "B", "C"], true);
    run.splits[0].pb_time = Some(4_000);
    run.splits[1].gold_time = Some(9_000);
    let at_start = run.clone();
    let mut store = run.clone();
    let mut state = AppState::new(run);
    attempt(&mut state, &mut store, 0, &[3_000, 5_000]);
    assert_eq!(golds(&state.run), vec![Some(3_000), Some(2_000), None]);
    let r = state.undo_pb();
    assert_eq!(r.len(), 2);
    assert!(matches!(r[1], StoreRequest::Reload));
    apply(&mut state, &mut store, r);
    assert_eq!(state.run.splits.len(), at_start.splits.len());
    for (a, b) in state.run.splits.iter().zip(at_start.splits.iter()) {
        assert!(same_split(a, b));
    }
    assert_eq!(state.current_split, 0);
    assert_eq!(state.timer.state, TimerState::NotStarted);
}

#[test]
fn pre_roll_drops_splits() {
    let mut run = run_of(&["A"], false);
    run.start_offset = Some(-5_000);
    let mut state = AppState::new(run);
    state.split_at(10_000);
    assert_eq!(state.timer.current_time_at(10_000), -5_000);
    let r = state.split_at(11_000);
    assert!(r.is_empty());
    assert_eq!(state.current_split, 0);
    assert_eq!(state.splits_display[0].last_time, None);
    state.split_at(16_000);
    assert_eq!(state.current_split, 1);
    assert_eq!(state.splits_display[0].last_time, Some(1_000));
}

#[test]
fn undo_split_restores_from_snapshot() {
    let mut run = run_of(&["A", "B"], true);
    run.splits[0].gold_time = Some(20_000);
    run.splits[0].pb_time = Some(21_000);
    let mut state = AppState::new(run);
    state.split_at(0);
    state.split_at(10_000);
    assert_eq!(state.run.splits[0].gold_time, Some(10_000));
    let r = state.undo_split();
    assert_eq!(state.current_split, 0);
    assert_eq!(state.run.splits[0].gold_time, Some(20_000));
    assert_eq!(state.run.splits[0].pb_time, Some(21_000));
    assert_eq!(state.splits_display[0].last_time, None);
    assert_eq!(state.splits_display[0].gold_time, Some(20_000));
    assert_eq!(r.len(), 1);
    match &r[0] {
        StoreRequest::SaveRun(saved) => {
            assert_eq!(saved.splits[0].gold_time, Some(20_000));
            assert!(saved.splits.iter().all(|s| s.last_time.is_none()));
        },
        other => panic!("unexpected {:?}", other),
    }
}

#[test]
fn undo_split_before_first_is_noop() {
    let run = run_of(&["A"], true);
    let mut state = AppState::new(run);
    assert!(state.undo_split().is_empty());
    assert_eq!(state.current_split, 0);
}

#[test]
fn reset_after_complete_keeps_new_pb_in_display() {
    let run = run_of(&["A", "B"], false);
    let mut state = AppState::new(run);
    state.split_at(0);
    state.split_at(1_000);
    state.split_at(3_000);
    let r = state.reset_splits();
    assert_eq!(r.len(), 1);
    assert!(matches!(r[0], StoreRequest::Reload));
    assert_eq!(state.splits_display[1].pb_time, Some(2_000));
    assert!(state.splits_display.iter().all(|s| s.last_time.is_none()));
    assert_eq!(state.current_split, 0);
    assert_eq!(state.timer.state, TimerState::NotStarted);
}

#[test]
fn reset_mid_attempt_clears_times() {
    let run = run_of(&["A", "B"], false);
    let mut state = AppState::new(run);
    state.split_at(0);
    state.split_at(1_000);
    state.reset_splits();
    assert!(state.splits_display.iter().all(|s| s.last_time.is_none()));
    assert_eq!(state.splits_display[0].pb_time, None);
}

#[test]
fn save_pb_only_when_complete() {
    let run = run_of(&["A"], false);
    let mut state = AppState::new(run);
    assert!(state.save_pb().is_empty());
    assert_eq!(state.save().len(), 1);
    state.split_at(0);
    state.split_at(1_000);
    assert_eq!(state.save_pb().len(), 1);
}

#[test]
fn paging() {
    let mut run = run_of(&["1", "2", "3", "4", "5", "6", "7"], false);
    run.splits_per_page = Some(5);
    let mut state = AppState::new(run);
    state.prev_page();
    assert_eq!(state.current_page, 0);
    state.next_page();
    assert_eq!(state.current_page, 1);
    state.next_page();
    assert_eq!(state.current_page, 1);
    state.prev_page();
    assert_eq!(state.current_page, 0);
    state.split_at(0);
    for t in 1..=6 {
        state.split_at(t * 1_000);
    }
    assert_eq!(state.current_split, 6);
    assert_eq!(state.current_page, 1);
    state.split_at(7_000);
    assert_eq!(state.current_page, 1);
}

#[test]
fn derived_metrics() {
    let mut run = run_of(&["A", "B", "C"], false);
    run.splits[0].gold_time = Some(1_000);
    run.splits[1].gold_time = Some(2_000);
    run.splits[2].gold_time = Some(4_000);
    run.splits[0].pb_time = Some(1_500);
    run.splits[1].pb_time = Some(2_500);
    let mut state = AppState::new(run);
    assert_eq!(state.sum_of_best(), 7_000);
    assert_eq!(state.personal_best_total(), None);
    assert_eq!(state.best_possible_time(), 7_000);
    state.split_at(0);
    state.split_at(1_200);
    assert_eq!(state.best_possible_time(), 1_200 + 6_000);
    state.run.splits[2].pb_time = Some(3_000);
    assert_eq!(state.personal_best_total(), Some(7_000));
}

#[test]
fn start_and_pause_commands() {
    let mut run = run_of(&["A"], false);
    run.start_offset = Some(2_000);
    let mut state = AppState::new(run);
    state.start_timer_at(10_000);
    assert_eq!(state.timer.current_time_at(10_000), 2_000);
    state.pause_timer_at(11_000);
    assert_eq!(state.timer.current_time_at(99_000), 3_000);
    assert!(state.timer.is_paused());
    state.start_timer();
    assert!(state.timer.is_running());
    state.pause_timer();
    assert!(state.timer.is_paused());
}

#[test]
fn reload_run_only_between_attempts() {
    let run = run_of(&["A"], false);
    let mut state = AppState::new(run);
    state.reload_run(run_of(&["X", "Y"], false));
    assert_eq!(state.run.splits.len(), 2);
    assert_eq!(state.splits_backup.len(), 2);
    state.split_at(0);
    state.reload_run(run_of(&["Z"], false));
    assert_eq!(state.run.splits.len(), 2);
}

#[test]
fn help_toggles_and_formats() {
    let run = run_of(&["A"], false);
    let mut state = AppState::new(run);
    state.toggle_help();
    assert!(state.show_help);
    state.toggle_help();
    assert!(!state.show_help);
    assert_eq!(state.format_duration(-61_001, 2), "-01:01.001");
}

#[test]
fn split_deltas_against_gold_and_pb() {
    let mut run = run_of(&["A", "B"], true);
    run.splits[0].gold_time = Some(9_000);
    run.splits[1].gold_time = Some(8_000);
    run.splits[0].pb_time = Some(12_000);
    let mut state = AppState::new(run);
    state.split_at(0);
    state.split_at(10_000);
    assert_eq!(state.split_delta(0), Some(1_000));
    assert_eq!(state.split_delta(1), None);
    state.split_at(18_000);
    assert_eq!(state.split_delta(1), None);
    state.run.gold_split = false;
    assert_eq!(state.split_delta(0), Some(-2_000));
    assert_eq!(state.split_delta(1), None);
    assert_eq!(state.split_delta(7), None);
}

#[test]
fn live_segment_and_delta() {
    let mut run = run_of(&["A", "B"], false);
    run.splits[1].pb_time = Some(10_000);
    let mut state = AppState::new(run);
    assert_eq!(state.live_segment_at(0), None);
    state.split_at(0);
    state.split_at(4_000);
    assert_eq!(state.live_segment_at(6_000), Some(2_000));
    assert_eq!(state.live_delta_at(6_000), None);
    assert_eq!(state.live_delta_at(9_000), Some(-5_000));
    assert_eq!(state.live_delta_at(16_000), Some(2_000));
}

#[test]
fn previous_segment_deltas_in_footer() {
    let mut run = run_of(&["A", "B", "C"], false);
    run.splits[1].pb_time = Some(3_000);
    run.splits[1].gold_time = Some(2_500);
    let mut state = AppState::new(run);
    assert_eq!(state.previous_segment_deltas(), (0, 0));
    state.split_at(0);
    state.split_at(1_000);
    assert_eq!(state.previous_segment_deltas(), (1_000, 1_000));
    state.split_at(3_800);
    assert_eq!(state.previous_segment_deltas(), (-200, 300));
}

#[test]
fn sum_of_best_follows_gold_improved_mid_attempt() {
    let mut run = run_of(&["A", "B"], true);
    run.splits[0].gold_time = Some(10_000);
    run.splits[1].gold_time = Some(8_000);
    let mut state = AppState::new(run);
    assert_eq!(state.sum_of_best(), 18_000);
    state.split_at(0);
    state.split_at(7_000);
    assert_eq!(state.run.splits[0].gold_time, Some(7_000));
    assert_eq!(state.sum_of_best(), 15_000);
}

#[test]
fn zero_page_size_falls_back_to_five() {
    let mut run = run_of(&["A"], false);
    run.splits_per_page = Some(0);
    let state = AppState::new(run);
    assert_eq!(state.splits_per_page, 5);
    let mut run = run_of(&["A"], false);
    run.splits_per_page = None;
    assert_eq!(AppState::new(run).splits_per_page, 5);
}
