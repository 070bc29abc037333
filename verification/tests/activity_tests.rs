use grove::activity::{ActivityId, ActivityKind, ActivityScope, ActivityState};

#[test]
fn start_issues_unique_ids_and_tracks_in_flight() {
    let mut s = ActivityState::default();
    let a = s.start(ActivityKind::Fetch, ActivityScope::Repo(0), "fetch grove");
    let b = s.start(ActivityKind::PrPoll, ActivityScope::Global, "PR poll");
    assert_ne!(a, b);
    assert_eq!(s.in_flight().len(), 2);
}

#[test]
fn finish_removes_matching_id_only() {
    let mut s = ActivityState::default();
    let a = s.start(ActivityKind::Fetch, ActivityScope::Repo(0), "a");
    let _b = s.start(ActivityKind::Fetch, ActivityScope::Repo(1), "b");
    s.finish(a);
    assert_eq!(s.in_flight().len(), 1);
    assert!(s.in_flight().iter().all(|act| act.id != a));
}

#[test]
fn finish_missing_id_is_noop() {
    let mut s = ActivityState::default();
    let _a = s.start(ActivityKind::Fetch, ActivityScope::Repo(0), "a");
    s.finish(ActivityId(999));
    assert_eq!(s.in_flight().len(), 1);
}

#[test]
fn summary_empty_when_idle() {
    let s = ActivityState::default();
    assert_eq!(s.summary(), "");
}

#[test]
fn summary_one_task_uses_its_label() {
    let mut s = ActivityState::default();
    s.start(ActivityKind::Fetch, ActivityScope::Repo(0), "fetching grove");
    assert_eq!(s.summary(), "⟳ fetching grove");
}

#[test]
fn summary_many_tasks_groups_by_kind() {
    let mut s = ActivityState::default();
    s.start(ActivityKind::Fetch, ActivityScope::Repo(0), "fetching grove");
    s.start(ActivityKind::Fetch, ActivityScope::Repo(1), "fetching dotfiles");
    s.start(ActivityKind::PrPoll, ActivityScope::Global, "PR poll");
    let out = s.summary();
    assert!(out.starts_with("⟳ 3 tasks:"));
    assert!(out.contains("fetching"));
    assert!(out.contains("PR status"));
}

#[test]
fn fetch_in_flight_for_filters_by_scope_and_kind() {
    let mut s = ActivityState::default();
    s.start(ActivityKind::Fetch, ActivityScope::Repo(0), "a");
    s.start(ActivityKind::PrPoll, ActivityScope::Repo(1), "b");
    assert!(s.fetch_in_flight_for(0));
    assert!(!s.fetch_in_flight_for(1)); // PrPoll, not Fetch
    assert!(!s.fetch_in_flight_for(2)); // nothing
}

#[test]
fn due_for_fetch_skips_in_flight_repos() {
    let mut s = ActivityState::default();
    s.resize_repos(3);
    s.start(ActivityKind::Fetch, ActivityScope::Repo(0), "a");
    // repo 0 is in flight; repos 1 and 2 have None last-fetched.
    let due = s.due_for_fetch(300);
    assert_eq!(due, vec![1, 2]);
}

#[test]
fn due_for_fetch_respects_cadence() {
    let mut s = ActivityState::default();
    s.resize_repos(2);
    s.last_fetched_at[0] = Some(s.clock_now());
    // repo 0 was just fetched; repo 1 never. With a 300s cadence,
    // only repo 1 is due.
    let due = s.due_for_fetch(300);
    assert_eq!(due, vec![1]);
}

#[test]
fn ids_count_up_from_zero() {
    let mut s = ActivityState::new();
    let a = s.start(ActivityKind::Fetch, ActivityScope::Repo(0), "a");
    let b = s.start(ActivityKind::Fetch, ActivityScope::Repo(0), "b");
    assert_eq!(a.raw(), 0);
    assert_eq!(b.raw(), 1);
    s.finish(a);
    let c = s.start(ActivityKind::DiffRefresh, ActivityScope::Global, "c");
    assert_eq!(c.raw(), 2);
    assert!(s.in_flight().iter().all(|x| x.id != a));
}

#[test]
fn due_at_fixed_time_uses_whole_seconds() {
    let mut s = ActivityState::new();
    s.resize_repos(3);
    s.last_fetched_at[0] = Some(10_000_000_000);
    s.last_fetched_at[1] = Some(10_000_000_001);
    // At t = 310 s repo 0 is exactly 300 s old, repo 1 one nanosecond less.
    assert_eq!(s.due_for_fetch_at(310_000_000_000, 300), vec![0, 2]);
    // A clock that went backwards makes nothing with a timestamp due.
    assert_eq!(s.due_for_fetch_at(5_000_000_000, 300), vec![2]);
}

#[test]
fn resize_keeps_and_pads_and_remove_shifts() {
    let mut s = ActivityState::new();
    s.resize_repos(2);
    s.last_fetched_at[1] = Some(7);
    s.resize_repos(3);
    assert_eq!(s.last_fetched_at, vec![None, Some(7), None]);
    s.remove_repo(0);
    assert_eq!(s.last_fetched_at, vec![Some(7), None]);
    s.remove_repo(5);
    assert_eq!(s.last_fetched_at, vec![Some(7), None]);
    s.resize_repos(1);
    assert_eq!(s.last_fetched_at, vec![Some(7)]);
}

#[test]
fn summary_lists_each_kind_once_in_order() {
    let mut s = ActivityState::new();
    s.start(ActivityKind::PrPoll, ActivityScope::Global, "p");
    s.start(ActivityKind::Fetch, ActivityScope::Repo(0), "f1");
    s.start(ActivityKind::Fetch, ActivityScope::Repo(1), "f2");
    assert!(s.summary().starts_with("⟳ 3 tasks: "));
    assert!(!s.is_empty());
}

#[test]
fn scheduled_fetches_off_at_zero_cadence() {
    let mut s = ActivityState::default();
    s.resize_repos(2);
    assert!(s.scheduled_fetches(0).is_empty());
    // With a cadence, repositories never fetched are due at once.
    assert_eq!(s.scheduled_fetches(300), vec![0, 1]);
}

#[test]
fn activity_clock_does_not_go_backwards() {
    let s = ActivityState::new();
    let a = s.clock_now();
    let b = s.clock_now();
    assert!(b >= a);
}
