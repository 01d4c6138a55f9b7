use live_server::events::{
    batch_has_changed, check_paths, classify, event_has_changed, event_touches_root,
    verdicts_pass, Change, EventKind, RawEvent, WatchedPath,
};
use live_server::ignore_filter::{IgnoreError, RuleFile};

fn names(list: &[&str]) -> Vec<String> {
    list.iter().map(|s| s.to_string()).collect()
}

fn root() -> Vec<String> {
    names(&["srv", "www"])
}

fn file(list: &[&str]) -> WatchedPath {
    WatchedPath { names: names(list), is_dir: false }
}

fn event(kind: EventKind, paths: Vec<WatchedPath>) -> RawEvent {
    RawEvent { kind, paths }
}

fn failed() -> Result<bool, IgnoreError> {
    Err(IgnoreError { message: "bad rule".to_string() })
}

#[test]
fn kinds_are_classified() {
    let one = || vec![file(&["srv", "www", "a"])];
    let two = || vec![file(&["srv", "www", "a"]), file(&["srv", "www", "b"])];
    assert_eq!(classify(&event(EventKind::Create, one())), Some(Change::Create));
    assert_eq!(classify(&event(EventKind::ModifyData, one())), Some(Change::Update));
    assert_eq!(classify(&event(EventKind::Remove, one())), Some(Change::Remove));
    let complete = EventKind::ModifyName { complete: true };
    let half_known = EventKind::ModifyName { complete: false };
    assert_eq!(classify(&event(complete, two())), Some(Change::Rename));
    assert_eq!(classify(&event(half_known, one())), None);
    assert_eq!(classify(&event(half_known, two())), None);
    assert_eq!(classify(&event(EventKind::Other, one())), None);
}

#[test]
fn an_event_touches_the_root_through_any_of_its_paths() {
    let inside = event(EventKind::Create, vec![file(&["srv", "www", "a"])]);
    let outside = event(EventKind::Create, vec![file(&["srv", "other", "a"])]);
    let mixed = event(
        EventKind::ModifyName { complete: true },
        vec![file(&["tmp", "a"]), file(&["srv", "www", "a"])],
    );
    let none = event(EventKind::Other, vec![]);
    assert!(event_touches_root(&inside, &root()));
    assert!(!event_touches_root(&outside, &root()));
    assert!(event_touches_root(&mixed, &root()));
    assert!(!event_touches_root(&none, &root()));
}

#[test]
fn verdicts_pass_when_none_failed_and_one_is_kept() {
    assert!(verdicts_pass(&vec![Ok(false)]));
    assert!(verdicts_pass(&vec![Ok(true), Ok(false)]));
    assert!(!verdicts_pass(&vec![Ok(true), Ok(true)]));
    assert!(!verdicts_pass(&vec![Ok(false), failed()]));
    assert!(!verdicts_pass(&vec![]));
}

#[test]
fn an_event_counts_only_with_a_kept_path_in_ignore_mode() {
    let write = event(EventKind::ModifyData, vec![file(&["srv", "www", "a.log"])]);
    assert!(event_has_changed(&write, &root(), false, &vec![]));
    assert!(event_has_changed(&write, &root(), true, &vec![Ok(false)]));
    assert!(!event_has_changed(&write, &root(), true, &vec![Ok(true)]));
    assert!(!event_has_changed(&write, &root(), true, &vec![failed()]));
}

#[test]
fn a_burst_of_writes_is_one_change() {
    let mut burst = Vec::new();
    for _ in 0..25 {
        burst.push(event(EventKind::ModifyData, vec![file(&["srv", "www", "index.html"])]));
    }
    assert!(batch_has_changed(&burst, &root(), false, &RuleFile::Missing));
    assert!(batch_has_changed(&burst, &root(), true, &RuleFile::Missing));
}

#[test]
fn an_empty_batch_has_not_changed() {
    assert!(!batch_has_changed(&vec![], &root(), false, &RuleFile::Missing));
    assert!(!batch_has_changed(&vec![], &root(), true, &RuleFile::Missing));
}

#[test]
fn events_outside_the_root_do_not_count() {
    let batch = vec![
        event(EventKind::Create, vec![file(&["srv", "other", "a.html"])]),
        event(EventKind::Remove, vec![file(&["srv", "www2", "a.html"])]),
        event(EventKind::ModifyData, vec![file(&["srv"])]),
    ];
    assert!(!batch_has_changed(&batch, &root(), false, &RuleFile::Missing));
}

#[test]
fn accesses_and_half_known_renames_do_not_count() {
    let batch = vec![
        event(EventKind::Other, vec![file(&["srv", "www", "a.html"])]),
        event(EventKind::ModifyName { complete: false }, vec![file(&["srv", "www", "a.html"])]),
    ];
    assert!(!batch_has_changed(&batch, &root(), false, &RuleFile::Missing));
    let renamed = vec![event(
        EventKind::ModifyName { complete: true },
        vec![file(&["srv", "www", "a.html"]), file(&["srv", "www", "b.html"])],
    )];
    assert!(batch_has_changed(&renamed, &root(), false, &RuleFile::Missing));
}

#[test]
fn hidden_paths_do_not_count_in_ignore_mode() {
    let batch = vec![
        event(EventKind::ModifyData, vec![file(&["srv", "www", ".git", "index"])]),
        event(EventKind::Create, vec![file(&["srv", "www", "a", ".tmp"])]),
    ];
    assert!(!batch_has_changed(&batch, &root(), true, &RuleFile::Missing));
    assert!(batch_has_changed(&batch, &root(), false, &RuleFile::Missing));
}

#[test]
fn paths_matched_by_a_rule_do_not_count_in_ignore_mode() {
    let rules = RuleFile::Lines(names(&["*.log", "build/"]));
    let batch = vec![
        event(EventKind::ModifyData, vec![file(&["srv", "www", "server.log"])]),
        event(EventKind::Create, vec![file(&["srv", "www", "build", "app.js"])]),
    ];
    assert!(!batch_has_changed(&batch, &root(), true, &rules));
    assert!(batch_has_changed(&batch, &root(), false, &rules));
    let with_page = vec![
        event(EventKind::ModifyData, vec![file(&["srv", "www", "server.log"])]),
        event(EventKind::ModifyData, vec![file(&["srv", "www", "index.html"])]),
    ];
    assert!(batch_has_changed(&with_page, &root(), true, &rules));
}

#[test]
fn a_rename_counts_when_one_side_is_kept() {
    let rules = RuleFile::Lines(names(&["*.tmp"]));
    let batch = vec![event(
        EventKind::ModifyName { complete: true },
        vec![file(&["srv", "www", "page.tmp"]), file(&["srv", "www", "page.html"])],
    )];
    assert!(batch_has_changed(&batch, &root(), true, &rules));
}

#[test]
fn a_failed_check_keeps_the_event_silent() {
    let rules = RuleFile::Lines(names(&["{a,b"]));
    let batch = vec![event(EventKind::ModifyData, vec![file(&["srv", "www", "index.html"])])];
    assert!(!batch_has_changed(&batch, &root(), true, &rules));
    assert!(batch_has_changed(&batch, &root(), false, &rules));
}

#[test]
fn each_path_of_an_event_gets_its_verdict() {
    let rules = RuleFile::Lines(names(&["*.log"]));
    let e = event(
        EventKind::ModifyName { complete: true },
        vec![
            file(&["srv", "www", "a.log"]),
            file(&["srv", "www", "a.txt"]),
            file(&["srv", "www", ".a"]),
            file(&["tmp", "a.log"]),
        ],
    );
    let verdicts = check_paths(&e, &root(), &rules);
    let plain: Vec<bool> = verdicts.into_iter().map(|v| v.unwrap()).collect();
    assert_eq!(plain, vec![true, false, true, false]);
}

#[test]
fn an_unreadable_rule_file_keeps_events_silent_in_ignore_mode() {
    let rules = RuleFile::Unreadable("Permission denied (os error 13)".to_string());
    let batch = vec![event(EventKind::ModifyData, vec![file(&["srv", "www", "index.html"])])];
    assert!(!batch_has_changed(&batch, &root(), true, &rules));
    assert!(batch_has_changed(&batch, &root(), false, &rules));
}

#[test]
fn a_half_known_rename_of_two_paths_does_not_count() {
    let batch = vec![event(
        EventKind::ModifyName { complete: false },
        vec![file(&["srv", "www", "a.html"]), file(&["srv", "www", "b.html"])],
    )];
    assert!(!batch_has_changed(&batch, &root(), false, &RuleFile::Missing));
}
