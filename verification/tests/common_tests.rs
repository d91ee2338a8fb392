use privacykit::common::{actions_for_data_types, severity_for_data_types, Severity};

#[test]
fn test_severity_display() {
    assert_eq!(Severity::Critical.to_string(), "CRITICAL");
    assert_eq!(Severity::High.to_string(), "HIGH");
    assert_eq!(Severity::Medium.to_string(), "MEDIUM");
    assert_eq!(Severity::Low.to_string(), "LOW");
}

#[test]
fn test_severity_from_str_loose() {
    assert_eq!(Severity::from_str_loose("CRITICAL"), Severity::Critical);
    assert_eq!(Severity::from_str_loose("high"), Severity::High);
    assert_eq!(Severity::from_str_loose("medium"), Severity::Medium);
    assert_eq!(Severity::from_str_loose("whatever"), Severity::Low);
}

#[test]
fn test_severity_ordering() {
    assert!(Severity::Critical > Severity::High);
    assert!(Severity::High > Severity::Medium);
    assert!(Severity::Medium > Severity::Low);
}

#[test]
fn test_severity_for_data_types_critical() {
    let types = vec!["Passwords".to_string(), "Email addresses".to_string()];
    assert_eq!(severity_for_data_types(&types), Severity::Critical);
}

#[test]
fn test_severity_for_data_types_high() {
    let types = vec!["Phone numbers".to_string(), "Names".to_string()];
    assert_eq!(severity_for_data_types(&types), Severity::High);
}

#[test]
fn test_severity_for_data_types_medium() {
    let types = vec!["Email addresses".to_string()];
    assert_eq!(severity_for_data_types(&types), Severity::Medium);
}

#[test]
fn test_severity_for_data_types_low() {
    let types = vec!["IP addresses".to_string()];
    assert_eq!(severity_for_data_types(&types), Severity::Low);
}

#[test]
fn test_actions_for_password_breach() {
    let actions = actions_for_data_types("TestBreach", &["Passwords".to_string()]);
    assert!(actions.len() >= 2);
    assert!(actions.iter().any(|(_, s)| *s == Severity::Critical));
}

#[test]
fn test_actions_for_email_only_breach() {
    let actions = actions_for_data_types("TestBreach", &["Email addresses".to_string()]);
    assert!(!actions.is_empty());
    assert!(actions.iter().any(|(_, s)| *s == Severity::Medium));
}

#[test]
fn test_actions_for_unknown_data() {
    let actions = actions_for_data_types("TestBreach", &["Avatars".to_string()]);
    assert_eq!(actions.len(), 1);
    assert_eq!(actions[0].1, Severity::Low);
}

#[test]
fn severity_labels_and_loose_reading_round_trip() {
    for s in [Severity::Low, Severity::Medium, Severity::High, Severity::Critical] {
        assert_eq!(Severity::from_str_loose(s.as_str()), s);
        assert_eq!(Severity::from_str_loose(&s.as_str().to_lowercase()), s);
        assert_eq!(s.to_string(), s.as_str());
    }
    assert_eq!(Severity::from_upper("HIGH"), Severity::High);
    assert_eq!(Severity::from_upper("high"), Severity::Low);
    assert_eq!(Severity::from_str_loose(""), Severity::Low);
    assert_eq!(Severity::from_str_loose(" high"), Severity::Low);
}

#[test]
fn colored_labels_are_wrapped_in_their_color() {
    colored::control::set_override(true);
    assert_eq!(Severity::Low.colored_str(), "\u{1b}[34mLOW\u{1b}[0m");
    assert_eq!(Severity::Medium.colored_str(), "\u{1b}[33mMEDIUM\u{1b}[0m");
    assert_eq!(Severity::High.colored_str(), "\u{1b}[31mHIGH\u{1b}[0m");
    assert_eq!(Severity::Critical.colored_str(), "\u{1b}[1;31mCRITICAL\u{1b}[0m");
    colored::control::set_override(false);
    assert_eq!(Severity::Critical.colored_str(), "CRITICAL");
    colored::control::unset_override();
}

#[test]
fn severity_rules_for_each_term() {
    let rate = |t: &str| severity_for_data_types(&[t.to_string()]);
    assert_eq!(rate("Credit card numbers"), Severity::Critical);
    assert_eq!(rate("SSNs"), Severity::Critical);
    assert_eq!(rate("Social security numbers"), Severity::Critical);
    assert_eq!(rate("Financial data"), Severity::Critical);
    assert_eq!(rate("Physical addresses"), Severity::High);
    assert_eq!(rate("Dates of birth"), Severity::Low);
    assert_eq!(rate("DOB"), Severity::High);
    assert_eq!(rate("Passport numbers"), Severity::High);
    assert_eq!(rate("Genetic data"), Severity::High);
    assert_eq!(rate("Usernames"), Severity::Medium);
    assert_eq!(rate("IP addresses"), Severity::Low);
    assert_eq!(rate("Email addresses"), Severity::Medium);
    assert_eq!(severity_for_data_types(&[]), Severity::Low);
}

#[test]
fn exact_advice_for_a_broad_breach() {
    let types = vec![
        "Passwords".to_string(),
        "Credit cards".to_string(),
        "SSNs".to_string(),
        "Phone numbers".to_string(),
        "Names".to_string(),
        "Email addresses".to_string(),
    ];
    let actions = actions_for_data_types("Acme", &types);
    let expected: Vec<(String, Severity)> = vec![
        ("Change password for Acme and any sites sharing that password".to_string(), Severity::Critical),
        ("Enable two-factor authentication where possible".to_string(), Severity::High),
        ("Check bank/credit card statements for unauthorized charges (Acme)".to_string(), Severity::Critical),
        ("Consider placing a fraud alert on your credit report".to_string(), Severity::High),
        ("Freeze your credit at all three bureaus (Equifax, Experian, TransUnion)".to_string(), Severity::Critical),
        ("Watch for phishing calls/texts referencing Acme data".to_string(), Severity::High),
        ("Monitor for identity theft attempts related to Acme".to_string(), Severity::High),
        ("Watch for targeted phishing emails referencing Acme".to_string(), Severity::Medium),
    ];
    assert_eq!(actions, expected);
}

#[test]
fn review_advice_names_the_breach() {
    let actions = actions_for_data_types("Quiet", &["Avatars".to_string()]);
    assert_eq!(actions, vec![("Review your account settings at Quiet".to_string(), Severity::Low)]);
}

#[test]
fn critical_rating_goes_with_a_critical_action() {
    let samples: Vec<Vec<&str>> = vec![
        vec!["Passwords"],
        vec!["Financial data"],
        vec!["Social security numbers"],
        vec!["Names", "Phone numbers"],
        vec!["Usernames"],
        vec!["Avatars"],
    ];
    for types in samples {
        let owned: Vec<String> = types.iter().map(|s| s.to_string()).collect();
        let rated_critical = severity_for_data_types(&owned) == Severity::Critical;
        let actions = actions_for_data_types("X", &owned);
        assert!(!actions.is_empty());
        assert_eq!(rated_critical, actions.iter().any(|(_, s)| *s == Severity::Critical));
    }
}

#[test]
fn password_breach_advice_ranks_two_factor_as_high() {
    let actions = actions_for_data_types("Adobe", &["Passwords".to_string(), "Email addresses".to_string()]);
    assert!(actions.contains(&(
        "Change password for Adobe and any sites sharing that password".to_string(),
        Severity::Critical
    )));
    assert!(actions.contains(&("Enable two-factor authentication where possible".to_string(), Severity::High)));
}

#[test]
fn joined_lists_rate_as_the_more_urgent() {
    let lists: Vec<Vec<String>> = vec![
        vec![],
        vec!["Passwords".to_string()],
        vec!["Names".to_string()],
        vec!["Usernames".to_string()],
        vec!["Avatars".to_string()],
    ];
    for a in &lists {
        for b in &lists {
            let joined: Vec<String> = a.iter().chain(b.iter()).cloned().collect();
            let expected = std::cmp::max(severity_for_data_types(a), severity_for_data_types(b));
            assert_eq!(severity_for_data_types(&joined), expected);
        }
    }
    assert_eq!(severity_for_data_types(&[]), Severity::Low);
}

#[test]
fn lowered_labels_read_back() {
    for s in [Severity::Low, Severity::Medium, Severity::High, Severity::Critical] {
        assert_eq!(Severity::from_str_loose(&s.as_str().to_lowercase()), s);
    }
}
