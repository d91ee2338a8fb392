use privacykit::track::report::{rank_by_count, tally_database, trackers_among, ScanResults};
use privacykit::track::scanner::{
    base_domain, extract_domain, extract_third_party_domains, insert_unique, third_party_host, with_https_scheme,
};
use privacykit::track::tracker_db::{
    build_tracker_db, lookup_domain, lookup_lowered_chars, TrackerCategory, TrackerDb, TrackerInfo,
};
use privacykit::track::urls_to_scan;

#[test]
fn test_extract_domain_https() {
    assert_eq!(
        extract_domain("https://www.google-analytics.com/analytics.js"),
        Some("www.google-analytics.com".to_string())
    );
}

#[test]
fn test_extract_domain_protocol_relative() {
    assert_eq!(extract_domain("//cdn.example.com/script.js"), Some("cdn.example.com".to_string()));
}

#[test]
fn test_extract_domain_invalid() {
    assert_eq!(extract_domain("/local/path.js"), None);
}

#[test]
fn test_base_domain() {
    assert_eq!(base_domain("www.google-analytics.com"), "google-analytics.com");
    assert_eq!(base_domain("example.com"), "example.com");
}

#[test]
fn test_extract_third_party_domains() {
    let html = r#"
        <html>
        <head>
            <script src="https://www.google-analytics.com/analytics.js"></script>
            <script src="https://connect.facebook.net/en_US/fbevents.js"></script>
            <script src="/local/script.js"></script>
            <link href="https://example.com/style.css" rel="stylesheet">
        </head>
        <body>
            <img src="https://doubleclick.net/pixel.gif">
            <iframe src="https://platform.twitter.com/widgets.js"></iframe>
        </body>
        </html>
        "#;

    let domains = extract_third_party_domains(html, "example.com");
    assert!(domains.contains(&"www.google-analytics.com".to_string()));
    assert!(domains.contains(&"connect.facebook.net".to_string()));
    assert!(domains.contains(&"doubleclick.net".to_string()));
    assert!(domains.contains(&"platform.twitter.com".to_string()));
    // Local paths should not appear
    assert!(!domains.iter().any(|d| d.contains("local")));
    // Same-domain should not appear
    assert!(!domains.contains(&"example.com".to_string()));
}

#[test]
fn test_tracker_db_has_50_plus_entries() {
    let db = build_tracker_db();
    assert!(db.len() >= 50, "Tracker DB should have 50+ entries, got {}", db.len());
}

#[test]
fn test_lookup_exact_domain() {
    let db = build_tracker_db();
    let info = lookup_domain(&db, "doubleclick.net");
    assert!(info.is_some());
    assert_eq!(info.unwrap().company, "Google");
}

#[test]
fn test_lookup_subdomain() {
    let db = build_tracker_db();
    let info = lookup_domain(&db, "www.google-analytics.com");
    assert!(info.is_some());
    assert_eq!(info.unwrap().company, "Google");
}

#[test]
fn test_lookup_unknown_domain() {
    let db = build_tracker_db();
    let info = lookup_domain(&db, "example.com");
    assert!(info.is_none());
}

#[test]
fn test_all_categories_present() {
    let db = build_tracker_db();
    let categories: std::collections::HashSet<TrackerCategory> = db.values().iter().map(|v| v.category).collect();
    assert!(categories.contains(&TrackerCategory::Advertising));
    assert!(categories.contains(&TrackerCategory::Analytics));
    assert!(categories.contains(&TrackerCategory::Social));
    assert!(categories.contains(&TrackerCategory::Fingerprinting));
    assert!(categories.contains(&TrackerCategory::Content));
}

#[test]
fn extract_domain_lowers_the_host_and_needs_a_host() {
    assert_eq!(extract_domain("HTTPS://CDN.Example.COM/x.js"), Some("cdn.example.com".to_string()));
    assert_eq!(extract_domain("http://example.com:8080/a"), Some("example.com".to_string()));
    assert_eq!(extract_domain("mailto:someone@example.com"), None);
    assert_eq!(extract_domain("data:image/png;base64,AAAA"), None);
    assert_eq!(extract_domain(""), None);
}

#[test]
fn base_domain_keeps_the_last_two_labels() {
    assert_eq!(base_domain("a.b.c.d"), "c.d");
    assert_eq!(base_domain("localhost"), "localhost");
    assert_eq!(base_domain(""), "");
    assert_eq!(base_domain("x."), "x.");
    assert_eq!(base_domain(".x"), ".x");
}

#[test]
fn third_party_domains_are_listed_once_and_skip_same_site_hosts() {
    let html = r#"<img src="https://cdn.tracker.io/a.gif"><img src="https://cdn.tracker.io/b.gif">
        <script src="https://static.example.com/app.js"></script>
        <video src="//media.other.net/v.mp4"></video>
        <audio src="https://sound.other.net/a.mp3"></audio>
        <source src="https://src.cdn.org/s.webm">
        <a href="https://not-a-resource.com/">link</a>"#;
    let mut domains = extract_third_party_domains(html, "example.com");
    domains.sort();
    assert_eq!(
        domains,
        vec![
            "cdn.tracker.io".to_string(),
            "media.other.net".to_string(),
            "sound.other.net".to_string(),
            "src.cdn.org".to_string(),
        ]
    );
}

#[test]
fn lookup_tries_parent_domains_but_not_the_bare_suffix() {
    let db = build_tracker_db();
    assert_eq!(lookup_domain(&db, "a.b.doubleclick.net").map(|i| i.company), Some("Google"));
    assert_eq!(lookup_domain(&db, "DoubleClick.NET").map(|i| i.company), Some("Google"));
    assert!(lookup_domain(&db, "net").is_none());
    assert!(lookup_domain(&db, "notdoubleclick.net").is_none());
    assert!(lookup_domain(&db, "").is_none());
}

#[test]
fn a_database_of_one_domain() {
    let mut db = TrackerDb::new();
    assert_eq!(db.len(), 0);
    let info = TrackerInfo { company: "Acme", category: TrackerCategory::Analytics, description: "test" };
    db.insert("acme-stats.com", info);
    db.insert("acme-stats.com", info);
    assert_eq!(db.len(), 1);
    assert_eq!(lookup_domain(&db, "eu.acme-stats.com").map(|i| i.company), Some("Acme"));
    assert_eq!(db.get("acme-stats.com").map(|i| i.description), Some("test"));
    assert!(db.get("eu.acme-stats.com").is_none());
    assert_eq!(TrackerCategory::Analytics.to_string(), "Analytics");
    assert_eq!(TrackerCategory::Content.as_str(), "Content");
}

#[test]
fn recording_pages_tallies_trackers() {
    let db = build_tracker_db();
    let mut results = ScanResults::new();
    let page = vec![
        "www.google-analytics.com".to_string(),
        "connect.facebook.net".to_string(),
        "cdn.unknown.org".to_string(),
    ];
    assert_eq!(results.record_page(&db, &page), 2);
    assert_eq!(results.record_page(&db, &vec!["stats.g.doubleclick.net".to_string()]), 1);
    assert_eq!(results.pages_scanned, 2);
    assert_eq!(results.total_domains, 4);
    assert_eq!(results.tracker_domains, 3);
    assert_eq!(results.by_company.trackers_of("Google").len(), 2);
    assert_eq!(results.by_company.trackers_of("Meta").len(), 1);
    let total: usize = results.by_category.counted().iter().map(|c| c.1).sum();
    assert_eq!(total, 3);
    assert_eq!(results.by_company.companies(), vec![("Google", 2), ("Meta", 1)]);
}

#[test]
fn add_tracker_counts_company_and_category() {
    let mut results = ScanResults::new();
    let info = TrackerInfo { company: "Acme", category: TrackerCategory::Social, description: "d" };
    results.add_tracker("a.acme.com".to_string(), info);
    results.add_tracker("b.acme.com".to_string(), info);
    assert_eq!(results.tracker_domains, 2);
    assert_eq!(results.by_category.get(TrackerCategory::Social), 2);
    assert_eq!(results.by_category.get(TrackerCategory::Analytics), 0);
    assert_eq!(results.by_category.counted(), vec![(TrackerCategory::Social, 2)]);
    assert_eq!(results.pages_scanned, 0);
}

#[test]
fn tallying_the_database_counts_every_domain_once() {
    let db = build_tracker_db();
    let t = tally_database(&db);
    assert_eq!(t.tracker_domains, db.len());
    let per_category: usize = t.by_category.counted().iter().map(|c| c.1).sum();
    assert_eq!(per_category, db.len());
    let per_company: usize = t.by_company.companies().iter().map(|c| c.1).sum();
    assert_eq!(per_company, db.len());
}

#[test]
fn trackers_among_keeps_known_domains_in_order() {
    let db = build_tracker_db();
    let domains = vec!["cdn.unknown.org".to_string(), "doubleclick.net".to_string(), "example.com".to_string()];
    assert_eq!(trackers_among(&db, &domains), vec!["doubleclick.net".to_string()]);
}

#[test]
fn ranking_puts_larger_counts_first_and_keeps_ties_in_order() {
    let items = vec![("a", 1usize), ("b", 5), ("c", 3), ("d", 5), ("e", 0)];
    assert_eq!(rank_by_count(&items), vec![("b", 5), ("d", 5), ("c", 3), ("a", 1), ("e", 0)]);
    let empty: Vec<(u8, usize)> = Vec::new();
    assert!(rank_by_count(&empty).is_empty());
}

#[test]
fn url_lists_keep_trimmed_web_addresses() {
    let content = "https://a.example/\r\n  http://b.example/page  \n\nftp://c.example/\n# comment\nhttps://d.example";
    assert_eq!(
        urls_to_scan(content),
        vec![
            "https://a.example/".to_string(),
            "http://b.example/page".to_string(),
            "https://d.example".to_string(),
        ]
    );
    assert!(urls_to_scan("").is_empty());
    assert!(urls_to_scan("\n\n").is_empty());
    assert!(urls_to_scan("HTTPS://upper.example").is_empty());
}

#[test]
fn tracker_table_has_163_domains_from_72_companies_in_5_categories() {
    let db = build_tracker_db();
    assert_eq!(db.len(), 163);
    let companies: std::collections::HashSet<&str> = db.values().iter().map(|v| v.company).collect();
    assert_eq!(companies.len(), 72);
    let categories: std::collections::HashSet<TrackerCategory> = db.values().iter().map(|v| v.category).collect();
    assert_eq!(categories.len(), 5);
}

#[test]
fn companies_are_listed_in_the_order_first_found_each_with_a_finding() {
    let mut results = ScanResults::new();
    let meta = TrackerInfo { company: "Meta", category: TrackerCategory::Social, description: "m" };
    let google = TrackerInfo { company: "Google", category: TrackerCategory::Analytics, description: "g" };
    results.add_tracker("a.fb.com".to_string(), meta);
    results.add_tracker("g.com".to_string(), google);
    results.add_tracker("b.fb.com".to_string(), meta);
    let companies = results.by_company.companies();
    assert_eq!(companies, vec![("Meta", 2), ("Google", 1)]);
    assert!(companies.iter().all(|c| c.1 >= 1));
    let total: usize = companies.iter().map(|c| c.1).sum();
    assert_eq!(total, results.tracker_domains);
    assert!(ScanResults::new().by_company.companies().is_empty());
}

#[test]
fn lookup_ignores_letter_case() {
    let db = build_tracker_db();
    assert_eq!(lookup_domain(&db, "WWW.DoubleClick.NET").map(|i| i.company), Some("Google"));
    assert_eq!(
        lookup_domain(&db, "WWW.DoubleClick.NET").map(|i| i.company),
        lookup_domain(&db, &"WWW.DoubleClick.NET".to_lowercase()).map(|i| i.company)
    );
    let lowered: Vec<char> = "mc.yandex.ru".chars().collect();
    assert_eq!(lookup_lowered_chars(&db, &lowered).map(|i| i.company), Some("Yandex"));
}

#[test]
fn scheme_and_third_party_decisions() {
    assert_eq!(with_https_scheme("//cdn.example.com/x.js"), "https://cdn.example.com/x.js");
    assert_eq!(with_https_scheme("/local/x.js"), "/local/x.js");
    assert_eq!(with_https_scheme("http://a.b/"), "http://a.b/");
    assert!(third_party_host("cdn.tracker.io", "example.com"));
    assert!(!third_party_host("static.example.com", "example.com"));
    assert!(!third_party_host("", "example.com"));
    let mut set: Vec<String> = Vec::new();
    insert_unique(&mut set, "a.com".to_string());
    insert_unique(&mut set, "b.com".to_string());
    insert_unique(&mut set, "a.com".to_string());
    assert_eq!(set, vec!["a.com".to_string(), "b.com".to_string()]);
}

#[test]
fn ranking_keeps_every_item_once() {
    let items = vec![(1u8, 2usize), (2, 2), (3, 9), (4, 2), (5, 9)];
    let ranked = rank_by_count(&items);
    assert_eq!(ranked, vec![(3, 9), (5, 9), (1, 2), (2, 2), (4, 2)]);
}
