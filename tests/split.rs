use openspeedrun::split::{blank, pb_total, sum_gold_from};
use openspeedrun::{
    AppConfig, AttemptHistoryEntry, Colors, Hotkeys, KeyWrapper, Options, Run, SegmentHistoryEntry, Split,
};

#[test]
fn new_run_names_blank_last_split() {
    let run = Run::new("T", "C", &["a", "  "]);
    assert_eq!(run.splits[1].name, "Final Boss");
    let run = Run::new("T", "C", &["  ", "b"]);
    assert_eq!(run.splits[0].name, "  ");
    assert_eq!(run.splits[1].name, "b");
    let run = Run::new("T", "C", &[]);
    assert!(run.splits.is_empty());
    assert_eq!(run.splits_per_page, Some(5));
    assert!(run.auto_update_pb && run.gold_split);
}

#[test]
fn default_run_and_split() {
    let run = Run::default();
    assert_eq!(run.title, "New Run");
    assert_eq!(run.category, "Category");
    assert_eq!(run.splits.len(), 2);
    assert_eq!(run.splits[0].name, "Split 1");
    assert_eq!(Split::default().name, "New Split");
}

#[test]
fn blank_names() {
    assert!(blank(""));
    assert!(blank(" \t\u{00A0}"));
    assert!(!blank(" x "));
}

#[test]
fn gold_times_round_trip_through_apply() {
    let mut run = Run::new("T", "C", &["a", "b", "c"]);
    run.apply_gold_times(&vec![Some(5), None]);
    assert_eq!(run.gold_times(), vec![Some(5), None, None]);
    run.apply_gold_times(&vec![Some(1), Some(2), Some(3), Some(4)]);
    assert_eq!(run.gold_times(), vec![Some(1), Some(2), Some(3)]);
}

#[test]
fn clear_last_times_clears_all() {
    let mut run = Run::new("T", "C", &["a", "b"]);
    run.splits[0].last_time = Some(5);
    run.splits[1].last_time = Some(7);
    run.clear_last_times();
    assert!(run.splits.iter().all(|s| s.last_time.is_none()));
}

#[test]
fn sums_of_gold_and_pb() {
    let mut run = Run::new("T", "C", &["a", "b", "c"]);
    run.splits[0].gold_time = Some(i64::MAX);
    run.splits[1].gold_time = Some(10);
    assert_eq!(sum_gold_from(&run.splits, 0), i64::MAX);
    assert_eq!(sum_gold_from(&run.splits, 1), 10);
    assert_eq!(sum_gold_from(&run.splits, 9), 0);
    assert_eq!(pb_total(&run.splits), None);
    for s in run.splits.iter_mut() {
        s.pb_time = Some(-4);
    }
    assert_eq!(pb_total(&run.splits), Some(-12));
    assert_eq!(pb_total(&Vec::new()), Some(0));
}

#[test]
fn clone_keeps_every_field() {
    let mut run = Run::new("T", "C", &["a"]);
    run.splits[0].icon_path = Some("i.png".to_string());
    run.splits[0].pb_time = Some(3);
    let c = run.clone();
    assert_eq!(c.splits[0].icon_path.as_deref(), Some("i.png"));
    assert_eq!(c.splits[0].pb_time, Some(3));
    assert_eq!(c.title, "T");
}

#[test]
fn config_defaults() {
    let c = AppConfig::default();
    assert_eq!(c.last_split_path, "splits/sample");
    assert_eq!(c.theme, "themes/default.json");
    assert_eq!(KeyWrapper::default().0, "");
    assert_eq!(Hotkeys::default().split.0, "");
    assert_eq!(Colors::default().gold_positive, "#FFD700");
    assert_eq!(Options::default().window_size, (720, 1280));
    assert!(!Options::default().enable_shader);
}

#[test]
fn editing_splits() {
    let mut run = Run::new("T", "C", &["a", "b", "c"]);
    run.add_split();
    assert_eq!(run.splits.len(), 4);
    assert_eq!(run.splits[3].name, "New split");
    run.swap_splits(0, 2);
    let names: Vec<&str> = run.splits.iter().map(|s| s.name.as_str()).collect();
    assert_eq!(names, vec!["c", "b", "a", "New split"]);
    run.swap_splits(1, 1);
    run.remove_split(1);
    let names: Vec<&str> = run.splits.iter().map(|s| s.name.as_str()).collect();
    assert_eq!(names, vec!["c", "a", "New split"]);
}

#[test]
fn clearing_history() {
    let mut run = Run::new("T", "C", &["a"]);
    run.attempts = 4;
    run.attempt_history.push(AttemptHistoryEntry {
        run_index: 1,
        total_time: Some(5),
        ingame_time: None,
        ended: true,
        date: Some(1_700_000_000_000),
    });
    run.splits[0].gold_history.push(SegmentHistoryEntry { run_index: 1, time: Some(5) });
    run.splits[0].pb_time = Some(5);
    run.clear_history();
    assert_eq!(run.attempts, 0);
    assert!(run.attempt_history.is_empty());
    assert!(run.splits[0].gold_history.is_empty());
    assert_eq!(run.splits[0].pb_time, Some(5));
}
