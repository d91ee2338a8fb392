use privacykit::action_log::{ActionLog, ActionLogError, ActionRow, ActionStatus};
use privacykit::common::Severity;
use privacykit::phantom::actions::{
    get_pending_actions, get_stats, insert_action, mark_done, mark_skipped, store_breach_actions,
    store_scan_actions,
};
use privacykit::phantom::breach_db::{
    breaches_for_email_domain, build_breach_db, email_domain_field, find_breaches_for_email,
};
use privacykit::phantom::checker::{count_in_range_response, hex_encode, hibp_range_parts, sha1_hex};

#[test]
fn test_breach_db_has_20_plus() {
    let db = build_breach_db();
    assert!(db.len() >= 20, "Breach DB should have 20+ entries, got {}", db.len());
}

#[test]
fn test_find_breaches_for_common_email() {
    let breaches = find_breaches_for_email("user@gmail.com");
    assert!(!breaches.is_empty(), "Should find breaches for gmail user");
}

#[test]
fn test_find_breaches_for_matching_domain() {
    let breaches = find_breaches_for_email("user@yahoo.com");
    assert!(breaches.iter().any(|b| b.name == "Yahoo"), "Should find Yahoo breach for yahoo.com email");
}

#[test]
fn test_sha1_hex_known_value() {
    assert_eq!(sha1_hex("password"), "5BAA61E4C9B93F3F0682250B6CF8331B7EE68FD8");
}

#[test]
fn test_sha1_hex_empty() {
    assert_eq!(sha1_hex(""), "DA39A3EE5E6B4B0D3255BFEF95601890AFD80709");
}

fn names(email: &str) -> Vec<&'static str> {
    find_breaches_for_email(email).iter().map(|b| b.name).collect()
}

#[test]
fn breach_table_has_the_listed_breaches_in_order() {
    let db = build_breach_db();
    assert_eq!(db.len(), 24);
    assert_eq!(db[0].name, "Adobe");
    assert_eq!(db[0].domain, "adobe.com");
    assert_eq!(db[0].accounts_affected, 153_000_000);
    assert_eq!(db[23].name, "Ticketmaster");
    assert_eq!(db[23].accounts_affected, 560_000_000);
}

#[test]
fn every_address_gets_the_common_breaches() {
    let common = vec!["Adobe", "LinkedIn", "Facebook", "Dropbox", "Twitter", "Canva"];
    assert_eq!(names("user@gmail.com"), common);
    assert_eq!(names("no-at-sign"), common);
    assert_eq!(names(""), common);
}

#[test]
fn own_domain_breach_is_added_in_table_order() {
    assert_eq!(
        names("user@yahoo.com"),
        vec!["Adobe", "LinkedIn", "Yahoo", "Facebook", "Dropbox", "Twitter", "Canva"]
    );
    assert_eq!(
        names("someone@EBAY.com"),
        vec!["Adobe", "LinkedIn", "Facebook", "Dropbox", "Twitter", "Canva", "eBay"]
    );
    // only the second @-field is the domain
    assert_eq!(
        names("a@uber.com@yahoo.com"),
        vec!["Adobe", "LinkedIn", "Facebook", "Dropbox", "Twitter", "Canva", "Uber"]
    );
    // a common breach's own domain does not list it twice
    assert_eq!(names("me@adobe.com").len(), 6);
}

#[test]
fn hex_encode_writes_two_upper_digits_per_byte() {
    assert_eq!(hex_encode(&[]), "");
    assert_eq!(hex_encode(&[0x00, 0x0f, 0xa5, 0xff]), "000FA5FF");
}

#[test]
fn range_parts_split_the_hash_after_five_digits() {
    let (prefix, suffix) = hibp_range_parts("password");
    assert_eq!(prefix, "5BAA6");
    assert_eq!(suffix, "1E4C9B93F3F0682250B6CF8331B7EE68FD8");
    assert_eq!(format!("{}{}", prefix, suffix), sha1_hex("password"));
}

#[test]
fn range_reply_gives_the_count_of_the_matching_line() {
    let body = "0018A45C4D1DEF81644B54AB7F969B88D65:1\r\n1E4C9B93F3F0682250B6CF8331B7EE68FD8:3861493\r\n00D4F6E8FA6EECAD2A3AA415EEC418D38EC:2";
    assert_eq!(count_in_range_response(body, "1E4C9B93F3F0682250B6CF8331B7EE68FD8"), 3861493);
    assert_eq!(count_in_range_response(body, "1e4c9b93f3f0682250b6cf8331b7ee68fd8"), 3861493);
    assert_eq!(count_in_range_response(body, "00D4F6E8FA6EECAD2A3AA415EEC418D38EC"), 2);
    assert_eq!(count_in_range_response(body, "FFFFF"), 0);
    assert_eq!(count_in_range_response("", "ABC"), 0);
}

#[test]
fn range_reply_edge_cases() {
    // trimmed fields, unparsable count is 0, lines with two colons are passed over
    assert_eq!(count_in_range_response("  abc : 12 \n", "ABC"), 12);
    assert_eq!(count_in_range_response("ABC:many\nABC:5", "ABC"), 0);
    assert_eq!(count_in_range_response("ABC:1:2\nABC:7", "ABC"), 7);
    assert_eq!(count_in_range_response("ABC:+9", "ABC"), 9);
    assert_eq!(count_in_range_response("ABC:18446744073709551616", "ABC"), 0);
    assert_eq!(count_in_range_response("ABC:18446744073709551615", "ABC"), u64::MAX);
    assert_eq!(count_in_range_response("xyz\n\nABC:4\n", "abc"), 4);
}

fn row(id: i64, breach: &str, action: &str, severity: &str, status: ActionStatus) -> ActionRow {
    ActionRow {
        id,
        breach_name: breach.to_string(),
        identifier: String::new(),
        action: action.to_string(),
        severity: severity.to_string(),
        status,
    }
}

#[test]
fn actions_are_stored_once_with_increasing_ids() {
    let mut log = ActionLog::new();
    assert_eq!(insert_action(&mut log, "Adobe", "Change password", &Severity::Critical), Ok(1));
    assert_eq!(insert_action(&mut log, "Adobe", "Enable 2FA", &Severity::High), Ok(2));
    assert_eq!(insert_action(&mut log, "Adobe", "Change password", &Severity::Low), Ok(1));
    assert_eq!(insert_action(&mut log, "Dropbox", "Change password", &Severity::Critical), Ok(3));
    assert_eq!(log.len(), 3);
    assert_eq!(get_stats(&log), (3, 3, 0, 0));
}

#[test]
fn done_and_skip_settle_a_pending_action_once() {
    let mut log = ActionLog::new();
    insert_action(&mut log, "Adobe", "a", &Severity::Low).unwrap();
    insert_action(&mut log, "Adobe", "b", &Severity::Low).unwrap();
    insert_action(&mut log, "Adobe", "c", &Severity::Low).unwrap();
    assert!(mark_done(&mut log, 1));
    assert!(!mark_done(&mut log, 1));
    assert!(!mark_skipped(&mut log, 1));
    assert!(mark_skipped(&mut log, 2));
    assert!(!mark_done(&mut log, 42));
    assert_eq!(get_stats(&log), (3, 1, 1, 1));
    let pending = get_pending_actions(&log);
    assert_eq!(pending, vec![(3, "Adobe".to_string(), "c".to_string(), "LOW".to_string())]);
}

#[test]
fn pending_actions_come_most_urgent_first_then_by_id() {
    let mut log = ActionLog::new();
    insert_action(&mut log, "A", "low one", &Severity::Low).unwrap();
    insert_action(&mut log, "A", "high one", &Severity::High).unwrap();
    insert_action(&mut log, "A", "critical one", &Severity::Critical).unwrap();
    insert_action(&mut log, "A", "medium one", &Severity::Medium).unwrap();
    insert_action(&mut log, "A", "critical two", &Severity::Critical).unwrap();
    let ids: Vec<i64> = get_pending_actions(&log).iter().map(|p| p.0).collect();
    assert_eq!(ids, vec![3, 5, 2, 4, 1]);
}

#[test]
fn unknown_stored_severity_ranks_last() {
    let mut log = ActionLog::new();
    assert!(log.load(row(4, "B", "odd", "SOMETIMES", ActionStatus::Pending)));
    assert!(log.load(row(7, "B", "mid", "MEDIUM", ActionStatus::Pending)));
    assert!(log.load(row(9, "B", "gone", "HIGH", ActionStatus::Done)));
    let ids: Vec<i64> = get_pending_actions(&log).iter().map(|p| p.0).collect();
    assert_eq!(ids, vec![7, 4]);
    assert_eq!(get_stats(&log), (3, 2, 1, 0));
    assert_eq!(insert_action(&mut log, "B", "new", &Severity::Low), Ok(10));
}

#[test]
fn loading_refuses_rows_out_of_order() {
    let mut log = ActionLog::new();
    assert!(!log.load(row(0, "B", "x", "LOW", ActionStatus::Pending)));
    assert!(log.load(row(5, "B", "x", "LOW", ActionStatus::Pending)));
    assert!(!log.load(row(5, "B", "y", "LOW", ActionStatus::Pending)));
    assert!(!log.load(row(3, "B", "y", "LOW", ActionStatus::Pending)));
    assert_eq!(log.len(), 1);
}

#[test]
fn ids_run_out_at_the_largest_id() {
    let mut log = ActionLog::new();
    assert!(log.load(row(i64::MAX, "B", "last", "LOW", ActionStatus::Pending)));
    assert_eq!(
        insert_action(&mut log, "B", "one more", &Severity::High),
        Err(ActionLogError::IdsExhausted)
    );
    // an action stored already is still found
    assert_eq!(insert_action(&mut log, "B", "last", &Severity::High), Ok(i64::MAX));
    assert_eq!(log.len(), 1);
}

#[test]
fn a_scan_stores_the_advice_of_every_breach() {
    let breaches = find_breaches_for_email("user@gmail.com");
    let mut log = ActionLog::new();
    let n = store_scan_actions(&mut log, &breaches).unwrap();
    assert!(n > 0);
    let (total, pending, done, skipped) = get_stats(&log);
    assert_eq!((pending, done, skipped), (total, 0, 0));
    assert!(total <= n);
    // a second scan advises the same actions and stores nothing new
    let again = store_scan_actions(&mut log, &breaches).unwrap();
    assert_eq!(again, n);
    assert_eq!(get_stats(&log).0, total);
}

#[test]
fn one_breach_advice_is_stored_in_order() {
    let db = build_breach_db();
    let adobe = &db[0];
    let mut log = ActionLog::new();
    let n = store_breach_actions(&mut log, adobe, "").unwrap();
    assert_eq!(n, 4);
    let texts: Vec<String> = get_pending_actions(&log).iter().map(|p| p.2.clone()).collect();
    assert_eq!(
        texts,
        vec![
            "Change password for Adobe and any sites sharing that password".to_string(),
            "Enable two-factor authentication where possible".to_string(),
            "Monitor for identity theft attempts related to Adobe".to_string(),
            "Watch for targeted phishing emails referencing Adobe".to_string(),
        ]
    );
}

#[test]
fn storing_a_scan_stops_at_the_first_action_that_fails() {
    let mut log = ActionLog::new();
    let adobe_first = "Change password for Adobe and any sites sharing that password";
    assert!(log.load(row(i64::MAX - 1, "Adobe", adobe_first, "CRITICAL", ActionStatus::Pending)));
    let breaches = find_breaches_for_email("user@gmail.com");
    // the first action is found, the second gets the last id, the third fails
    assert_eq!(store_scan_actions(&mut log, &breaches), Err(ActionLogError::IdsExhausted));
    assert_eq!(log.len(), 2);
    let last = get_pending_actions(&log);
    assert_eq!(last[1].0, i64::MAX);
    assert_eq!(last[1].2, "Enable two-factor authentication where possible");
}

#[test]
fn the_domain_field_and_the_domain_search() {
    assert_eq!(email_domain_field("user@Yahoo.com"), "Yahoo.com");
    assert_eq!(email_domain_field("a@b@c"), "b");
    assert_eq!(email_domain_field("nobody"), "");
    assert_eq!(email_domain_field("x@"), "");
    let names: Vec<&str> = breaches_for_email_domain("yahoo.com").iter().map(|b| b.name).collect();
    assert_eq!(names, vec!["Adobe", "LinkedIn", "Yahoo", "Facebook", "Dropbox", "Twitter", "Canva"]);
    // the domain search takes the domain as given: upper case finds only the common breaches
    assert_eq!(breaches_for_email_domain("YAHOO.COM").len(), 6);
    assert_eq!(find_breaches_for_email("user@YAHOO.COM").len(), 7);
}
