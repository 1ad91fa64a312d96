use boswell::config::{Repo, Span};
use boswell::daemon::{
    all_well, event_counts_given, is_relevant, under, Delivery, FileEvent, Wake, Watch, WatchAction, WatchEvent,
};
use boswell::sync::Outcome;

fn seen(is_access: bool, path: &str) -> Delivery {
    Delivery::Events(vec![FileEvent {
        is_access,
        paths: vec![path.to_string()],
    }])
}

fn git_dir() -> String {
    "/repo/.git".to_string()
}

#[test]
fn a_write_in_the_tree_starts_a_pass() {
    assert!(is_relevant(&seen(false, "/repo/a.md"), &git_dir()));
}

#[test]
fn a_write_under_dot_git_does_not() {
    assert!(!is_relevant(&seen(false, "/repo/.git/index"), &git_dir()));
}

#[test]
fn a_read_of_a_tracked_file_does_not() {
    assert!(!is_relevant(&seen(true, "/repo/a.md"), &git_dir()));
}

#[test]
fn a_sibling_named_like_dot_git_is_not_under_it() {
    assert!(!under("/repo/.gitignore", "/repo/.git"));
    assert!(under("/repo/.git/objects/ab", "/repo/.git"));
    assert!(is_relevant(&seen(false, "/repo/.gitignore"), &git_dir()));
}

#[test]
fn watcher_errors_start_nothing() {
    assert!(!is_relevant(
        &Delivery::Errors(vec!["queue overflow".to_string()]),
        &git_dir()
    ));
}

#[test]
fn once_is_well_only_without_failures() {
    assert!(all_well(&vec![Outcome::Nothing, Outcome::Pulled]));
    assert!(!all_well(&vec![Outcome::Nothing, Outcome::Unreachable]));
    assert!(all_well(&Vec::new()));
}

fn repo(pull: bool, fetch_secs: u64) -> Repo {
    let mut r = Repo::at("/repo".to_string());
    r.pull = pull;
    r.debounce = Span::from_millis(300);
    r.recheck = Span::from_secs(600);
    r.fetch_interval = Span::from_secs(fetch_secs);
    r
}

const MS: u128 = 1_000_000;
const S: u128 = 1_000_000_000;

#[test]
fn a_burst_of_writes_settles_into_one_pass() {
    let mut w = Watch::new(&repo(false, 60));
    assert_eq!(w.step(WatchEvent::Begin), WatchAction::Sync);
    assert_eq!(
        w.step(WatchEvent::Synced {
            outcome: Outcome::Nothing,
            now: 0
        }),
        WatchAction::Wait(None)
    );
    assert_eq!(
        w.step(WatchEvent::Woke {
            wake: Wake::Files(true),
            now: 10 * MS
        }),
        WatchAction::Wait(Some(310 * MS))
    );
    assert_eq!(
        w.step(WatchEvent::Woke {
            wake: Wake::Files(true),
            now: 100 * MS
        }),
        WatchAction::Wait(Some(400 * MS))
    );
    assert_eq!(
        w.step(WatchEvent::Woke {
            wake: Wake::Files(false),
            now: 200 * MS
        }),
        WatchAction::Wait(Some(400 * MS))
    );
    assert_eq!(
        w.step(WatchEvent::Woke {
            wake: Wake::Timeout,
            now: 400 * MS
        }),
        WatchAction::Sync
    );
}

#[test]
fn git_reads_leave_an_idle_watcher_waiting() {
    let mut w = Watch::new(&repo(false, 60));
    w.step(WatchEvent::Begin);
    w.step(WatchEvent::Synced {
        outcome: Outcome::Nothing,
        now: 0,
    });
    assert_eq!(
        w.step(WatchEvent::Woke {
            wake: Wake::Files(false),
            now: 5 * MS
        }),
        WatchAction::Wait(None)
    );
}

#[test]
fn the_fetch_tick_and_the_recheck_are_both_due() {
    let mut w = Watch::new(&repo(true, 3));
    w.step(WatchEvent::Begin);
    assert_eq!(
        w.step(WatchEvent::Synced {
            outcome: Outcome::Nothing,
            now: S
        }),
        WatchAction::Wait(Some(4 * S))
    );
    assert_eq!(
        w.step(WatchEvent::Woke {
            wake: Wake::Timeout,
            now: 4 * S
        }),
        WatchAction::Sync
    );
    assert_eq!(
        w.step(WatchEvent::Synced {
            outcome: Outcome::Unreachable,
            now: 5 * S
        }),
        WatchAction::Wait(Some(8 * S))
    );
    let mut w = Watch::new(&repo(true, 0));
    w.step(WatchEvent::Begin);
    assert_eq!(
        w.step(WatchEvent::Synced {
            outcome: Outcome::Unreachable,
            now: S
        }),
        WatchAction::Wait(Some(601 * S))
    );
}

#[test]
fn after_a_conflict_the_timer_asks_before_pulling() {
    let mut w = Watch::new(&repo(true, 60));
    w.step(WatchEvent::Begin);
    w.step(WatchEvent::Synced {
        outcome: Outcome::NeedsHuman,
        now: 0,
    });
    assert_eq!(
        w.step(WatchEvent::Woke {
            wake: Wake::Timeout,
            now: 60 * S
        }),
        WatchAction::Ask
    );
    assert_eq!(
        w.step(WatchEvent::Answered {
            open: Err("offline".to_string()),
            now: 61 * S
        }),
        WatchAction::Wait(Some(121 * S))
    );
    assert_eq!(
        w.step(WatchEvent::Woke {
            wake: Wake::Timeout,
            now: 121 * S
        }),
        WatchAction::Ask
    );
    assert_eq!(
        w.step(WatchEvent::Answered {
            open: Ok(false),
            now: 122 * S
        }),
        WatchAction::Sync
    );
}

#[test]
fn the_watcher_stops_when_the_file_watcher_goes() {
    let mut w = Watch::new(&repo(true, 60));
    w.step(WatchEvent::Begin);
    w.step(WatchEvent::Synced {
        outcome: Outcome::Nothing,
        now: 0,
    });
    assert_eq!(
        w.step(WatchEvent::Woke {
            wake: Wake::Closed,
            now: 1
        }),
        WatchAction::Stop
    );
    assert!(w.is_stopped());
}

#[test]
fn an_event_counts_when_some_path_lies_outside_git() {
    let write = FileEvent {
        is_access: false,
        paths: vec!["/w/.git/index".to_string(), "/w/a.md".to_string()],
    };
    assert!(event_counts_given(&write, &vec![true, false]));
    assert!(!event_counts_given(&write, &vec![true, true]));
    let read = FileEvent {
        is_access: true,
        paths: vec!["/w/a.md".to_string()],
    };
    assert!(!event_counts_given(&read, &vec![false]));
    let none = FileEvent {
        is_access: false,
        paths: vec![],
    };
    assert!(!event_counts_given(&none, &vec![]));
}
