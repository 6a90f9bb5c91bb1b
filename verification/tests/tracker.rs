use runners_toolkit::fetchers::StateDiffTracker;
use runners_toolkit::gh_api::{Runner, RunnerList};
use runners_toolkit::models::RunnersSaturationScheme;

fn runner(id: u64, busy: bool) -> Runner {
    Runner {
        id,
        name: format!("runner-{}", id),
        busy,
        os: String::from("linux"),
        status: String::from("online"),
        labels: vec![String::from("self-hosted")],
    }
}

fn snapshot(entries: &[(u64, bool)]) -> RunnerList {
    RunnerList { runners: entries.iter().map(|&(id, busy)| runner(id, busy)).collect() }
}

fn stored(id: i32, rid: u64, busy: bool, created_at: i64) -> RunnersSaturationScheme {
    RunnersSaturationScheme {
        id,
        rid,
        name: format!("runner-{}", rid),
        busy,
        created_at,
    }
}

#[test]
fn cold_start_stages_a_baseline_record_per_runner() {
    let mut t = StateDiffTracker::new();
    let staged = t.diff(&snapshot(&[(1, true), (2, false)]), 100);
    assert_eq!(staged.len(), 2);
    assert_eq!(staged[0].rid, 1);
    assert!(staged[0].busy);
    assert_eq!(staged[0].name, "runner-1");
    assert_eq!(staged[0].created_at, 100);
    assert_eq!(staged[1].rid, 2);
    assert!(!staged[1].busy);
}

#[test]
fn staged_records_follow_snapshot_order() {
    let mut t = StateDiffTracker::new();
    let staged = t.diff(&snapshot(&[(9, false), (3, true), (5, true)]), 7);
    let rids: Vec<u64> = staged.iter().map(|r| r.rid).collect();
    assert_eq!(rids, vec![9, 3, 5]);
}

#[test]
fn only_changed_runners_stage_records() {
    let mut t = StateDiffTracker::new();
    t.diff(&snapshot(&[(1, true), (2, false)]), 1);
    let staged = t.diff(&snapshot(&[(1, true), (2, true)]), 2);
    assert_eq!(staged.len(), 1);
    assert_eq!(staged[0].rid, 2);
    assert!(staged[0].busy);
    assert_eq!(staged[0].created_at, 2);
}

#[test]
fn repoll_of_identical_snapshot_stages_nothing() {
    let mut t = StateDiffTracker::new();
    let s = snapshot(&[(1, true), (2, false), (3, true)]);
    let first = t.diff(&s, 10);
    assert_eq!(first.len(), 3);
    let second = t.diff(&s, 20);
    assert!(second.is_empty());
}

#[test]
fn empty_snapshot_stages_nothing_and_keeps_state() {
    let mut t = StateDiffTracker::new();
    t.diff(&snapshot(&[(1, true), (2, false)]), 1);
    let staged = t.diff(&snapshot(&[]), 2);
    assert!(staged.is_empty());
    assert_eq!(t.last_known(1), Some(true));
    assert_eq!(t.last_known(2), Some(false));
}

#[test]
fn vanished_runner_keeps_stale_entry() {
    let mut t = StateDiffTracker::new();
    t.diff(&snapshot(&[(1, true), (2, false)]), 1);
    let staged = t.diff(&snapshot(&[(2, false)]), 2);
    assert!(staged.is_empty());
    assert_eq!(t.last_known(1), Some(true));
    let back = t.diff(&snapshot(&[(1, true), (2, false)]), 3);
    assert!(back.is_empty());
}

#[test]
fn emission_count_matches_change_count_per_runner() {
    // Runner 1 shows true, true, false, false, true: a first observation and
    // two flips, so exactly three records carry its id.
    let mut t = StateDiffTracker::new();
    let flags = [true, true, false, false, true];
    let mut emitted: Vec<bool> = Vec::new();
    for (i, &f) in flags.iter().enumerate() {
        let staged = t.diff(&snapshot(&[(1, f), (2, false)]), i as i64);
        emitted.extend(staged.iter().filter(|r| r.rid == 1).map(|r| r.busy));
    }
    assert_eq!(emitted, vec![true, false, true]);
}

#[test]
fn emitted_flags_never_repeat_back_to_back() {
    let mut t = StateDiffTracker::new();
    let flags = [true, true, false, true, true, true, false, false];
    let mut emitted: Vec<bool> = Vec::new();
    for (i, &f) in flags.iter().enumerate() {
        let staged = t.diff(&snapshot(&[(4, f)]), i as i64);
        emitted.extend(staged.iter().map(|r| r.busy));
    }
    assert_eq!(emitted, vec![true, false, true, false]);
    for w in emitted.windows(2) {
        assert_ne!(w[0], w[1]);
    }
}

#[test]
fn load_takes_most_recent_record_per_runner() {
    // Runner 7 was recorded busy at t1 and idle at t3; runner 9 busy at t2.
    let records = vec![
        stored(1, 7, true, 1),
        stored(3, 7, false, 3),
        stored(2, 9, true, 2),
    ];
    let t = StateDiffTracker::load(&records);
    assert_eq!(t.last_known(7), Some(false));
    assert_eq!(t.last_known(9), Some(true));
    assert_eq!(t.last_known(8), None);
}

#[test]
fn load_breaks_timestamp_ties_by_surrogate_id() {
    let records = vec![
        stored(5, 7, true, 10),
        stored(6, 7, false, 10),
        stored(4, 7, true, 10),
    ];
    let t = StateDiffTracker::load(&records);
    assert_eq!(t.last_known(7), Some(false));
}

#[test]
fn seeded_tracker_stages_only_real_changes() {
    let records = vec![stored(1, 7, true, 1), stored(2, 9, false, 2)];
    let mut t = StateDiffTracker::load(&records);
    let staged = t.diff(&snapshot(&[(7, true), (9, true)]), 5);
    assert_eq!(staged.len(), 1);
    assert_eq!(staged[0].rid, 9);
    assert!(staged[0].busy);
}

#[test]
fn observe_stamps_all_records_with_one_time() {
    let mut t = StateDiffTracker::new();
    let staged = t.observe(&snapshot(&[(1, true), (2, false)]));
    assert_eq!(staged.len(), 2);
    assert_eq!(staged[0].created_at, staged[1].created_at);
    assert!(staged[0].created_at > 0);
}
