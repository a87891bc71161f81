use servo_shield::tracker_poisoning::{
    fake_tracker_response, poison_user_agent, try_poison_user_agent, FakeDataGenerator, TrackerPoisoningConfig,
};

fn generator() -> FakeDataGenerator {
    FakeDataGenerator::new(TrackerPoisoningConfig::default())
}

#[test]
fn config_defaults() {
    let config = TrackerPoisoningConfig::default();
    assert!(config.enabled && config.randomize_user_agent && config.randomize_fingerprint);
    assert!(config.fake_geolocation && config.fake_tracking_cookies && config.fake_screen_resolution);
    assert_eq!(config.rotation_interval_minutes, 30);
    assert!(!config.rotation_due(1799));
    assert!(config.rotation_due(1800));
}

#[test]
fn fonts_are_fixed() {
    assert_eq!(generator().generate_fake_fonts(), vec!["Arial", "Helvetica", "Times New Roman", "Verdana"]);
}

#[test]
fn picks_come_from_their_lists() {
    let g = generator();
    for _ in 0..20 {
        assert!(g.generate_fake_user_agent().starts_with("Mozilla/5.0 ("));
        let res = g.generate_fake_screen_resolution();
        assert!([(1920, 1080), (2560, 1440), (1366, 768), (1280, 720)].contains(&res));
        assert!([-480, -300, 0, 60, 120, 540].contains(&g.generate_fake_timezone_offset()));
        let langs = g.generate_fake_languages();
        assert!(langs == vec!["en-US", "en"] || langs == vec!["fr-FR", "fr", "en"] || langs == vec!["de-DE", "de", "en"]);
        let plugins = g.generate_fake_plugins();
        assert!(plugins.is_empty() || plugins == vec!["Chrome PDF Plugin"] || plugins == vec!["PDF Viewer"]);
        let webgl = g.generate_fake_webgl_hash();
        let parts: Vec<&str> = webgl.split('|').collect();
        assert_eq!(parts.len(), 2);
    }
}

#[test]
fn hashes_and_ids_have_their_shape() {
    let g = generator();
    let canvas = g.generate_fake_canvas_hash();
    assert_eq!(canvas.len(), 32);
    assert!(canvas.chars().all(|c| c.is_ascii_hexdigit() && !c.is_ascii_uppercase()));

    let id = g.generate_fake_tracking_id();
    assert!(id.starts_with("GA1.2."));
    let rest: Vec<&str> = id["GA1.2.".len()..].split('.').collect();
    assert_eq!(rest.len(), 2);
    let ts: u64 = rest[0].parse().unwrap();
    assert!((1_000_000_000..2_000_000_000).contains(&ts));
    assert_eq!(rest[1].len(), 10);
    assert!(rest[1].chars().all(|c| c.is_ascii_alphanumeric()));

    let device = g.generate_fake_device_id();
    assert_eq!(device.len(), 36);
    assert_eq!(&device[14..15], "4");
    assert_eq!(device.matches('-').count(), 4);
}

#[test]
fn user_agent_is_replaced_only_when_asked_and_valid() {
    let mut headers = http::HeaderMap::new();
    headers.insert(http::header::USER_AGENT, http::HeaderValue::from_static("real"));
    headers.append(http::header::USER_AGENT, http::HeaderValue::from_static("second"));
    headers.insert(http::header::ACCEPT, http::HeaderValue::from_static("*/*"));

    poison_user_agent(false, "fake", &mut headers);
    assert_eq!(headers.get_all(http::header::USER_AGENT).iter().count(), 2);

    poison_user_agent(true, "bad\nvalue", &mut headers);
    assert_eq!(headers.get(http::header::USER_AGENT).unwrap(), "real");

    poison_user_agent(true, "Mozilla/5.0 fake", &mut headers);
    let values: Vec<_> = headers.get_all(http::header::USER_AGENT).iter().collect();
    assert_eq!(values, vec!["Mozilla/5.0 fake"]);
    assert_eq!(headers.get(http::header::ACCEPT).unwrap(), "*/*");
    assert_eq!(headers.keys_len(), 2);
}

#[test]
fn tracker_response_is_a_transparent_gif() {
    let body = fake_tracker_response();
    assert_eq!(body.len(), 43);
    assert_eq!(&body[..6], b"GIF89a");
    assert_eq!(body[42], 0x3B);
}

#[test]
fn counted_poisoning_goes_ahead_on_ordinary_maps() {
    let mut headers = http::HeaderMap::new();
    headers.insert(http::header::ACCEPT, http::HeaderValue::from_static("*/*"));
    assert!(try_poison_user_agent(true, "Mozilla/5.0 fake", &mut headers));
    assert_eq!(headers.get(http::header::USER_AGENT).unwrap(), "Mozilla/5.0 fake");
    assert!(try_poison_user_agent(false, "other", &mut headers));
    assert_eq!(headers.get(http::header::USER_AGENT).unwrap(), "Mozilla/5.0 fake");
}
