use servo_shield::adblock_stats::{extract_domain, AdBlockStats};

#[test]
fn test_stats_initialization() {
    let stats = AdBlockStats::new();
    assert_eq!(stats.get_blocked_count(), 0);
    assert_eq!(stats.get_allowed_count(), 0);
    assert!(stats.generate_report().contains("Pourcentage bloqué: 0.00%\n"));
}

#[test]
fn test_increment_counters() {
    let mut stats = AdBlockStats::new();

    stats.increment_blocked();
    stats.increment_blocked();
    stats.increment_allowed();

    assert_eq!(stats.get_blocked_count(), 2);
    assert_eq!(stats.get_allowed_count(), 1);
}

#[test]
fn test_record_blocked() {
    let mut stats = AdBlockStats::new();

    stats.record_blocked("https://ads.example.com/banner.js", "script");
    stats.record_blocked("https://ads.example.com/pixel.gif", "image");
    stats.record_blocked("https://tracker.com/analytics.js", "script");

    assert_eq!(stats.get_blocked_count(), 3);

    let top_domains = stats.get_top_blocked_domains(10);
    assert_eq!(top_domains.len(), 2);
    assert_eq!(top_domains[0].0, "ads.example.com");
    assert_eq!(top_domains[0].1, 2);

    let types = stats.get_blocked_by_type();
    assert_eq!(types.get("script"), Some(&2));
    assert_eq!(types.get("image"), Some(&1));
}

#[test]
fn test_reset() {
    let mut stats = AdBlockStats::new();

    stats.record_blocked("https://ads.example.com/ad.js", "script");
    stats.increment_allowed();

    assert_eq!(stats.get_blocked_count(), 1);
    assert_eq!(stats.get_allowed_count(), 1);

    stats.reset();

    assert_eq!(stats.get_blocked_count(), 0);
    assert_eq!(stats.get_allowed_count(), 0);
    assert!(stats.get_top_blocked_domains(10).is_empty());
}

#[test]
fn test_extract_domain() {
    assert_eq!(extract_domain("https://example.com/path"), Some("example.com".to_string()));
    assert_eq!(extract_domain("http://sub.example.com:8080/path"), Some("sub.example.com".to_string()));
    assert_eq!(extract_domain("example.com/path"), Some("example.com".to_string()));
    assert_eq!(extract_domain("https://example.com"), Some("example.com".to_string()));
    assert_eq!(extract_domain(""), None);
}

#[test]
fn test_generate_report() {
    let mut stats = AdBlockStats::new();

    stats.record_blocked("https://ads.example.com/ad.js", "script");
    stats.record_blocked("https://tracker.com/pixel.gif", "image");
    stats.increment_allowed();

    let report = stats.generate_report();

    assert!(report.contains("Requêtes bloquées: 2"));
    assert!(report.contains("Requêtes autorisées: 1"));
    assert!(report.contains("ads.example.com"));
    assert!(report.contains("tracker.com"));
}

#[test]
fn extract_domain_edge_cases() {
    assert_eq!(extract_domain("  https://example.com/a  "), Some("example.com".to_string()));
    assert_eq!(extract_domain("https:///path"), None);
    assert_eq!(extract_domain("   "), None);
    assert_eq!(extract_domain("ftp://files.net:21"), Some("files.net".to_string()));
    assert_eq!(extract_domain(":8080/x"), None);
    assert_eq!(extract_domain("a://b://c/d"), Some("b".to_string()));
}

#[test]
fn extract_domain_stops_at_query_and_fragment() {
    assert_eq!(extract_domain("https://example.com?q=1"), Some("example.com".to_string()));
    assert_eq!(extract_domain("https://example.com#top"), Some("example.com".to_string()));
    assert_eq!(extract_domain("example.com?a=b/c"), Some("example.com".to_string()));
    assert_eq!(extract_domain("https://?q"), None);
}

#[test]
fn report_exact_text() {
    let mut stats = AdBlockStats::new();
    stats.record_blocked("https://ads.example.com/ad.js", "script");
    stats.record_blocked("https://ads.example.com/b.js", "script");
    stats.record_blocked("https://tracker.com/pixel.gif", "image");
    stats.record_allowed("https://site.com/", "document");
    let expected = "=== Statistiques AdBlock ===\n\n\
Requêtes bloquées: 3\n\
Requêtes autorisées: 1\n\
Pourcentage bloqué: 75.00%\n\n\
Top 10 des domaines bloqués:\n  1. ads.example.com - 2 requêtes\n  2. tracker.com - 1 requêtes\n\n\
Blocages par type de ressource:\n  script: 2\n  image: 1\n";
    assert_eq!(stats.generate_report(), expected);
}

#[test]
fn report_without_blocks() {
    let stats = AdBlockStats::new();
    assert_eq!(
        stats.generate_report(),
        "=== Statistiques AdBlock ===\n\nRequêtes bloquées: 0\nRequêtes autorisées: 0\nPourcentage bloqué: 0.00%\n\n"
    );
}

#[test]
fn report_rounds_percentage() {
    let mut stats = AdBlockStats::new();
    stats.increment_blocked();
    stats.increment_allowed();
    stats.increment_allowed();
    assert!(stats.generate_report().contains("Pourcentage bloqué: 33.33%\n"));
    stats.increment_blocked();
    assert!(stats.generate_report().contains("Pourcentage bloqué: 50.00%\n"));
    let mut two_thirds = AdBlockStats::new();
    two_thirds.increment_blocked();
    two_thirds.increment_blocked();
    two_thirds.increment_allowed();
    assert!(two_thirds.generate_report().contains("Pourcentage bloqué: 66.67%\n"));
}

#[test]
fn top_domains_respects_limit_and_order() {
    let mut stats = AdBlockStats::new();
    for _ in 0..3 {
        stats.record_blocked("https://c.com/", "script");
    }
    stats.record_blocked("https://a.com/", "script");
    for _ in 0..2 {
        stats.record_blocked("https://b.com/", "image");
    }
    let top = stats.get_top_blocked_domains(2);
    assert_eq!(top, vec![("c.com".to_string(), 3), ("b.com".to_string(), 2)]);
    assert!(stats.get_top_blocked_domains(0).is_empty());
    assert_eq!(stats.get_top_blocked_domains(10).len(), 3);
    assert_eq!(stats.get_totals(), (6, 0));
}

#[test]
fn counters_wrap_at_maximum() {
    let mut stats = AdBlockStats::new();
    stats.blocked_requests = u64::MAX;
    stats.increment_blocked();
    assert_eq!(stats.get_blocked_count(), 0);
}

#[test]
fn url_without_domain_counts_only_type() {
    let mut stats = AdBlockStats::new();
    stats.record_blocked("", "script");
    assert_eq!(stats.get_blocked_count(), 1);
    assert!(stats.get_top_blocked_domains(10).is_empty());
    assert_eq!(stats.get_blocked_by_type().get("script"), Some(&1));
    assert_eq!(stats.get_blocked_by_type().get("image"), None);
    assert_eq!(stats.get_blocked_by_type().len(), 1);
}

#[test]
fn totals_stay_ordered() {
    let mut stats = AdBlockStats::new();
    stats.record_blocked("https://ads.example.com/a.js", "script");
    stats.record_blocked(":8080/x", "image");
    stats.increment_blocked();
    let domain_total: u64 = stats.get_top_blocked_domains(100).iter().map(|(_, c)| c).sum();
    let types = stats.get_blocked_by_type();
    let type_total = types.get("script").copied().unwrap_or(0) + types.get("image").copied().unwrap_or(0);
    assert_eq!(domain_total, 1);
    assert_eq!(type_total, 2);
    assert_eq!(stats.get_blocked_count(), 3);
    assert!(domain_total <= type_total && type_total <= stats.get_blocked_count());
}
