use servo_shield::adblock_engine::{block_verdict, count_filter_rules, AdBlockEngine, RuleMatch};

#[test]
fn test_engine_initialization() {
    let engine = AdBlockEngine::new();
    assert!(engine.is_enabled());
}

#[test]
fn test_enable_disable() {
    let mut engine = AdBlockEngine::new();
    assert!(engine.is_enabled());

    engine.set_enabled(false);
    assert!(!engine.is_enabled());

    engine.set_enabled(true);
    assert!(engine.is_enabled());
}

#[test]
fn test_basic_blocking() {
    let mut engine = AdBlockEngine::new();

    let test_rules = r#"
||ads.example.com^
||tracker.com/pixel.gif
||analytics.example.net^$script
"#;
    engine.load_filters_from_strings(&[test_rules]);

    assert!(engine.should_block_url("https://ads.example.com/banner.jpg"));
    assert!(engine.should_block_url("https://tracker.com/pixel.gif"));
    assert!(engine.should_block(
        "https://analytics.example.net/track.js",
        "https://mysite.com",
        "script"
    ));

    assert!(!engine.should_block_url("https://example.com/content.jpg"));
    assert!(!engine.should_block_url("https://mysite.com/script.js"));
}

#[test]
fn test_third_party_blocking() {
    let mut engine = AdBlockEngine::new();

    let test_rules = "||ads.example.com^$third-party\n";
    engine.load_filters_from_strings(&[test_rules]);

    assert!(engine.should_block(
        "https://ads.example.com/ad.js",
        "https://mysite.com",
        "script"
    ));

    assert!(!engine.should_block(
        "https://ads.example.com/ad.js",
        "https://ads.example.com",
        "script"
    ));
}

#[test]
fn test_resource_type_blocking() {
    let mut engine = AdBlockEngine::new();

    let test_rules = "||tracker.com^$image\n";
    engine.load_filters_from_strings(&[test_rules]);

    assert!(engine.should_block(
        "https://tracker.com/pixel.gif",
        "https://site.com",
        "image"
    ));

    assert!(!engine.should_block(
        "https://tracker.com/analytics.js",
        "https://site.com",
        "script"
    ));
}

#[test]
fn test_disabled_engine() {
    let mut engine = AdBlockEngine::new();

    let test_rules = "||ads.example.com^\n";
    engine.load_filters_from_strings(&[test_rules]);

    assert!(engine.should_block_url("https://ads.example.com/ad.js"));

    engine.set_enabled(false);

    assert!(!engine.should_block_url("https://ads.example.com/ad.js"));
}

#[test]
fn test_known_ad_domains() {
    let mut engine = AdBlockEngine::new();

    let common_ad_rules = r#"
||doubleclick.net^
||googlesyndication.com^
||googleadservices.com^
||facebook.com/tr/*
||connect.facebook.net/*/fbevents.js$script
||pagead2.googlesyndication.com^
"#;
    engine.load_filters_from_strings(&[common_ad_rules]);

    assert!(engine.should_block_url("https://doubleclick.net/ad"));
    assert!(engine.should_block_url("https://pagead2.googlesyndication.com/pagead/js/adsbygoogle.js"));
    assert!(engine.should_block_url("https://www.googleadservices.com/pagead/conversion.js"));

    assert!(!engine.should_block_url("https://google.com"));
    assert!(!engine.should_block_url("https://facebook.com"));
}

#[test]
fn test_whitelist_rules() {
    let mut engine = AdBlockEngine::new();

    let rules_with_exception = r#"
||ads.example.com^
@@||ads.example.com/whitelist/*
"#;
    engine.load_filters_from_strings(&[rules_with_exception]);

    assert!(engine.should_block_url("https://ads.example.com/normal/ad.js"));

    assert!(!engine.should_block_url("https://ads.example.com/whitelist/ad.js"));
}

#[test]
fn rule_counts_skip_blank_lines_and_comments() {
    assert_eq!(count_filter_rules(""), 0);
    assert_eq!(count_filter_rules("! comment\n\n   \n||a.com^\n||b.com^"), 2);
    assert_eq!(count_filter_rules("||a.com^\r\n !indented\n"), 2);
    let mut engine = AdBlockEngine::new();
    let total = engine.load_filters_from_strings(&["||a.com^\n! c\n", "||b.com^\n||c.com^\n"]);
    assert_eq!(total, 3);
    assert!(engine.is_enabled());
}

#[test]
fn verdict_needs_match_without_exception() {
    let hit = RuleMatch { matched: true, excepted: false };
    let excused = RuleMatch { matched: true, excepted: true };
    let miss = RuleMatch { matched: false, excepted: false };
    assert!(block_verdict(true, Some(hit)));
    assert!(!block_verdict(false, Some(hit)));
    assert!(!block_verdict(true, Some(excused)));
    assert!(!block_verdict(true, Some(miss)));
    assert!(!block_verdict(true, None));
}

#[test]
fn unparsable_url_is_not_blocked() {
    let mut engine = AdBlockEngine::new();
    engine.load_filters_from_strings(&["||ads.example.com^\n"]);
    assert!(!engine.should_block_url("not a url"));
    let shared = engine.clone_engine();
    assert!(std::sync::Arc::ptr_eq(&shared, &engine.clone_engine()));
}

#[test]
fn loading_replaces_earlier_lists() {
    let mut engine = AdBlockEngine::new();
    assert!(!engine.should_block_url("https://ads.example.com/banner.jpg"));
    assert_eq!(engine.load_filters_from_strings(&["||ads.example.com^"]), 1);
    assert!(engine.should_block_url("https://ads.example.com/banner.jpg"));
    assert_eq!(engine.load_filters_from_strings(&["||tracker.com^"]), 1);
    assert!(!engine.should_block_url("https://ads.example.com/banner.jpg"));
    assert!(engine.should_block_url("https://tracker.com/x.gif"));
}

#[test]
fn toggling_keeps_the_rules() {
    let mut engine = AdBlockEngine::new();
    engine.load_filters_from_strings(&["||ads.example.com^"]);
    engine.set_enabled(false);
    assert!(!engine.should_block_url("https://ads.example.com/banner.jpg"));
    engine.set_enabled(true);
    assert!(engine.should_block_url("https://ads.example.com/banner.jpg"));
}
