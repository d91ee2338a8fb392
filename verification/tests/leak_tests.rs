use privacykit::action_log::{ActionLogError, ActionRow, ActionStatus};
use privacykit::leak::actions::{get_pending_actions, get_stats, insert_action, mark_done, mark_skipped};
use privacykit::leak::dashboard::{count_new_alerts, total_new_breaches, watch_summaries};
use privacykit::leak::monitor::{scan_all, scan_identifier};
use privacykit::leak::watchlist::{
    add_watch, breach_count, get_watchlist, is_known_breach, record_breach_seen, remove_watch, text_less,
    WatchEntry, WatchlistError,
};
use privacykit::leak::LeakDb;
use privacykit::common::Severity;

const NOW: &str = "2024-01-01 00:00:00";

#[test]
fn test_add_and_get_watchlist() {
    let mut db = LeakDb::new();
    assert!(add_watch(&mut db, "test@example.com", NOW).unwrap());
    let list = get_watchlist(&db);
    assert_eq!(list.len(), 1);
    assert_eq!(list[0].1, "test@example.com");
}

#[test]
fn test_add_duplicate_watch() {
    let mut db = LeakDb::new();
    assert!(add_watch(&mut db, "test@example.com", NOW).unwrap());
    assert!(!add_watch(&mut db, "test@example.com", NOW).unwrap());
}

#[test]
fn test_remove_watch() {
    let mut db = LeakDb::new();
    add_watch(&mut db, "test@example.com", NOW).unwrap();
    assert!(remove_watch(&mut db, "test@example.com"));
    let list = get_watchlist(&db);
    assert!(list.is_empty());
}

#[test]
fn test_breach_tracking() {
    let mut db = LeakDb::new();
    add_watch(&mut db, "test@example.com", NOW).unwrap();

    assert!(!is_known_breach(&db, "test@example.com", "Adobe"));
    record_breach_seen(&mut db, "test@example.com", "Adobe");
    assert!(is_known_breach(&db, "test@example.com", "Adobe"));
    assert_eq!(breach_count(&db, "test@example.com"), 1);
}

#[test]
fn watchlist_is_ordered_by_time_added_and_ids_are_not_reused() {
    let mut db = LeakDb::new();
    assert_eq!(add_watch(&mut db, "b@x.com", "2024-02-01 00:00:00"), Ok(true));
    assert_eq!(add_watch(&mut db, "a@x.com", "2024-01-01 00:00:00"), Ok(true));
    assert_eq!(add_watch(&mut db, "c@x.com", "2024-02-01 00:00:00"), Ok(true));
    let list = get_watchlist(&db);
    let order: Vec<(i64, &str)> = list.iter().map(|e| (e.0, e.1.as_str())).collect();
    assert_eq!(order, vec![(2, "a@x.com"), (1, "b@x.com"), (3, "c@x.com")]);
    assert!(remove_watch(&mut db, "c@x.com"));
    assert!(!remove_watch(&mut db, "c@x.com"));
    assert_eq!(add_watch(&mut db, "d@x.com", "2024-03-01 00:00:00"), Ok(true));
    assert_eq!(get_watchlist(&db)[2].0, 4);
}

#[test]
fn watchlist_ids_run_out_at_the_largest_id() {
    let mut db = LeakDb::new();
    assert!(db.watchlist.load(WatchEntry { id: i64::MAX, identifier: "old@x.com".to_string(), added_at: NOW.to_string() }));
    assert_eq!(add_watch(&mut db, "new@x.com", NOW), Err(WatchlistError::IdsExhausted));
    assert_eq!(add_watch(&mut db, "old@x.com", NOW), Ok(false));
    assert_eq!(get_watchlist(&db).len(), 1);
}

#[test]
fn loading_the_watchlist_checks_its_rows() {
    let mut db = LeakDb::new();
    let entry = |id: i64, who: &str, at: &str| WatchEntry { id, identifier: who.to_string(), added_at: at.to_string() };
    assert!(db.watchlist.load(entry(3, "a@x.com", "2024-01-01")));
    assert!(!db.watchlist.load(entry(4, "a@x.com", "2024-01-02")));
    assert!(!db.watchlist.load(entry(5, "b@x.com", "2023-12-31")));
    assert!(!db.watchlist.load(entry(0, "c@x.com", "2024-01-03")));
    assert!(db.watchlist.load(entry(2, "d@x.com", "2024-01-01")));
    db.watchlist.note_last_id(9);
    assert_eq!(add_watch(&mut db, "e@x.com", "2024-05-05"), Ok(true));
    let ids: Vec<i64> = get_watchlist(&db).iter().map(|e| e.0).collect();
    assert_eq!(ids, vec![3, 2, 10]);
}

#[test]
fn text_order_is_code_point_order() {
    assert!(text_less("2024-01-01", "2024-01-02"));
    assert!(text_less("abc", "abd"));
    assert!(text_less("ab", "abc"));
    assert!(!text_less("abc", "abc"));
    assert!(!text_less("b", "abc"));
    assert!(text_less("Z", "a"));
    assert!(text_less("", "a"));
}

#[test]
fn seen_breaches_are_recorded_once_per_identifier() {
    let mut db = LeakDb::new();
    record_breach_seen(&mut db, "a@x.com", "Adobe");
    record_breach_seen(&mut db, "a@x.com", "Adobe");
    record_breach_seen(&mut db, "a@x.com", "Canva");
    record_breach_seen(&mut db, "b@x.com", "Adobe");
    assert_eq!(breach_count(&db, "a@x.com"), 2);
    assert_eq!(breach_count(&db, "b@x.com"), 1);
    assert_eq!(breach_count(&db, "c@x.com"), 0);
    assert!(!is_known_breach(&db, "b@x.com", "Canva"));
}

#[test]
fn leak_actions_are_kept_per_identifier() {
    let mut db = LeakDb::new();
    assert_eq!(insert_action(&mut db, "Adobe", "a@x.com", "Change password", &Severity::Critical), Ok(1));
    assert_eq!(insert_action(&mut db, "Adobe", "b@x.com", "Change password", &Severity::Critical), Ok(2));
    assert_eq!(insert_action(&mut db, "Adobe", "a@x.com", "Change password", &Severity::Critical), Ok(1));
    assert_eq!(insert_action(&mut db, "Adobe", "a@x.com", "Check email", &Severity::Medium), Ok(3));
    assert!(mark_done(&mut db, 2));
    assert!(mark_skipped(&mut db, 3));
    assert!(!mark_skipped(&mut db, 3));
    assert_eq!(get_stats(&db), (3, 1, 1, 1));
    assert_eq!(
        get_pending_actions(&db),
        vec![(1, "Adobe".to_string(), "a@x.com".to_string(), "Change password".to_string(), "CRITICAL".to_string())]
    );
    assert_eq!(count_new_alerts(&db), 1);
}

#[test]
fn leak_action_ids_run_out() {
    let mut db = LeakDb::new();
    assert!(db.actions.load(ActionRow {
        id: i64::MAX,
        breach_name: "Adobe".to_string(),
        identifier: "a@x.com".to_string(),
        action: "x".to_string(),
        severity: "LOW".to_string(),
        status: ActionStatus::Done,
    }));
    assert_eq!(
        insert_action(&mut db, "Adobe", "a@x.com", "y", &Severity::Low),
        Err(ActionLogError::IdsExhausted)
    );
}

#[test]
fn a_scan_reports_new_breaches_and_a_rescan_finds_nothing_new() {
    let mut db = LeakDb::new();
    add_watch(&mut db, "user@yahoo.com", NOW).unwrap();
    let first = scan_identifier(&mut db, "user@yahoo.com").unwrap();
    assert_eq!(first.identifier, "user@yahoo.com");
    assert_eq!(first.new_breaches.len(), 7);
    assert_eq!(first.known_breaches, 0);
    assert!(first.actions_generated > 0);
    assert_eq!(breach_count(&db, "user@yahoo.com"), 7);
    let stored = get_stats(&db).0;
    assert!(stored > 0 && stored <= first.actions_generated);

    let second = scan_identifier(&mut db, "user@yahoo.com").unwrap();
    assert!(second.new_breaches.is_empty());
    assert_eq!(second.known_breaches, 7);
    assert_eq!(second.actions_generated, 0);
    assert_eq!(get_stats(&db).0, stored);
    assert_eq!(get_watchlist(&db).len(), 1);
}

#[test]
fn a_partly_known_identifier_gets_only_the_rest() {
    let mut db = LeakDb::new();
    record_breach_seen(&mut db, "me@gmail.com", "Adobe");
    record_breach_seen(&mut db, "me@gmail.com", "Canva");
    let r = scan_identifier(&mut db, "me@gmail.com").unwrap();
    let names: Vec<&str> = r.new_breaches.iter().map(|b| b.name).collect();
    assert_eq!(names, vec!["LinkedIn", "Facebook", "Dropbox", "Twitter"]);
    assert_eq!(r.known_breaches, 2);
}

#[test]
fn scanning_the_watchlist_scans_each_identifier_in_order() {
    let mut db = LeakDb::new();
    assert!(scan_all(&mut db).unwrap().is_empty());
    add_watch(&mut db, "b@yahoo.com", "2024-01-02").unwrap();
    add_watch(&mut db, "a@gmail.com", "2024-01-01").unwrap();
    let results = scan_all(&mut db).unwrap();
    let who: Vec<&str> = results.iter().map(|r| r.identifier.as_str()).collect();
    assert_eq!(who, vec!["a@gmail.com", "b@yahoo.com"]);
    assert_eq!(results[0].new_breaches.len(), 6);
    assert_eq!(results[1].new_breaches.len(), 7);
    assert_eq!(total_new_breaches(&results), 13);
    let again = scan_all(&mut db).unwrap();
    assert_eq!(total_new_breaches(&again), 0);
    assert_eq!(again[1].known_breaches, 7);

    let summaries = watch_summaries(&db);
    assert_eq!(summaries.len(), 2);
    assert_eq!(summaries[0].identifier, "a@gmail.com");
    assert_eq!(summaries[0].added_at, "2024-01-01");
    assert_eq!(summaries[0].breaches, 6);
    assert_eq!(summaries[1].breaches, 7);
    assert_eq!(count_new_alerts(&db), get_stats(&db).1);
}

#[test]
fn unwatching_right_after_watching_restores_the_list() {
    let mut db = LeakDb::new();
    add_watch(&mut db, "a@x.com", "2024-01-01").unwrap();
    add_watch(&mut db, "c@x.com", "2024-01-03").unwrap();
    let before = get_watchlist(&db);
    assert_eq!(add_watch(&mut db, "b@x.com", "2024-01-02"), Ok(true));
    assert_eq!(get_watchlist(&db)[1].1, "b@x.com");
    assert!(remove_watch(&mut db, "b@x.com"));
    assert_eq!(get_watchlist(&db), before);
}

#[test]
fn a_scan_that_runs_out_of_action_ids_keeps_what_it_recorded() {
    let mut db = LeakDb::new();
    assert!(db.actions.load(ActionRow {
        id: i64::MAX,
        breach_name: "Old".to_string(),
        identifier: "me@gmail.com".to_string(),
        action: "x".to_string(),
        severity: "LOW".to_string(),
        status: ActionStatus::Pending,
    }));
    add_watch(&mut db, "me@gmail.com", NOW).unwrap();
    assert_eq!(scan_identifier(&mut db, "me@gmail.com").err(), Some(ActionLogError::IdsExhausted));
    // the first breach was recorded before its first action failed; nothing after it
    assert!(is_known_breach(&db, "me@gmail.com", "Adobe"));
    assert_eq!(breach_count(&db, "me@gmail.com"), 1);
    assert_eq!(get_stats(&db).0, 1);
    assert_eq!(scan_all(&mut db).err(), Some(ActionLogError::IdsExhausted));
    assert_eq!(breach_count(&db, "me@gmail.com"), 2);
}
