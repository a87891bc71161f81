use servo_shield::adblock_config::{AdBlockConfig, AdvancedConfig};

#[test]
fn test_default_config() {
    let config = AdBlockConfig::default();
    assert!(config.enabled);
    assert!(!config.aggressive_mode);
    assert_eq!(config.filter_lists.len(), 2);
    assert_eq!(config.filter_urls.len(), 2);
}

#[test]
fn test_whitelist() {
    let mut config = AdBlockConfig::default();

    config.add_whitelist_domain("example.com".to_string());
    assert!(config.is_whitelisted("example.com"));
    assert!(config.is_whitelisted("subdomain.example.com"));

    config.remove_whitelist_domain("example.com");
    assert!(!config.is_whitelisted("example.com"));
}

#[test]
fn test_filter_list_management() {
    let mut config = AdBlockConfig::default();

    config.add_custom_filter_list(
        "Custom List".to_string(),
        "https://example.com/filters.txt".to_string(),
    );

    assert_eq!(config.filter_urls.len(), 3);

    config.disable_filter_list("EasyList");
    let enabled = config.get_enabled_filter_urls();
    assert_eq!(enabled.len(), 2);

    config.enable_filter_list("EasyList");
    let enabled = config.get_enabled_filter_urls();
    assert_eq!(enabled.len(), 3);
}

#[test]
fn default_config_values() {
    let config = AdBlockConfig::new();
    assert_eq!(config.filter_lists[0], "resources/adblock/easylist.txt");
    assert_eq!(config.filter_lists[1], "resources/adblock/easyprivacy.txt");
    assert_eq!(config.filter_urls[0].name, "EasyList");
    assert_eq!(config.filter_urls[0].url, "https://easylist.to/easylist/easylist.txt");
    assert_eq!(config.filter_urls[1].name, "EasyPrivacy");
    assert!(config.auto_update);
    assert_eq!(config.update_interval_hours, 24);
    assert!(config.whitelist_domains.is_empty());
}

#[test]
fn whitelist_has_no_duplicates() {
    let mut config = AdBlockConfig::default();
    config.add_whitelist_domain("a.com".to_string());
    config.add_whitelist_domain("b.com".to_string());
    config.add_whitelist_domain("a.com".to_string());
    assert_eq!(config.whitelist_domains, vec!["a.com".to_string(), "b.com".to_string()]);
    config.remove_whitelist_domain("a.com");
    assert_eq!(config.whitelist_domains, vec!["b.com".to_string()]);
    assert!(!config.is_whitelisted("other.org"));
}

#[test]
fn empty_whitelist_entry_matches_everything() {
    let mut config = AdBlockConfig::default();
    config.add_whitelist_domain(String::new());
    assert!(config.is_whitelisted("anything.net"));
}

#[test]
fn enabled_urls_keep_order() {
    let mut config = AdBlockConfig::default();
    config.add_custom_filter_list("Mine".to_string(), "https://mine.org/list.txt".to_string());
    config.disable_filter_list("EasyPrivacy");
    assert_eq!(
        config.get_enabled_filter_urls(),
        vec![
            "https://easylist.to/easylist/easylist.txt".to_string(),
            "https://mine.org/list.txt".to_string(),
        ]
    );
    config.disable_filter_list("Unknown");
    assert_eq!(config.get_enabled_filter_urls().len(), 2);
}

#[test]
fn advanced_config_defaults() {
    let advanced = AdvancedConfig::default();
    assert!(advanced.block_tracking_websockets);
    assert!(!advanced.block_webrtc);
    assert!(advanced.block_fingerprinting);
    assert!(!advanced.block_third_party_cookies);
    assert!(advanced.enable_cache);
    assert_eq!(advanced.cache_size, 10000);
}
