use servo_shield::adblock_config::AdBlockConfig;
use servo_shield::adblock_updater::{FilterUpdater, TimeSpan, UpdateError, UpdateReport};

#[test]
fn test_should_update() {
    let config = AdBlockConfig::default();
    let updater = FilterUpdater::new(config);

    assert!(updater.should_update());
}

#[test]
fn test_should_not_update_when_disabled() {
    let mut config = AdBlockConfig::default();
    config.auto_update = false;

    let updater = FilterUpdater::new(config);
    assert!(!updater.should_update());
}

#[test]
fn test_is_valid_filter_list() {
    let config = AdBlockConfig::default();
    let updater = FilterUpdater::new(config);

    let valid_list = r#"
! Title: Test Filter List
! Description: A test list
||ads.example.com^
||tracker.com^
||analytics.net^
/banner/*
/tracking/*
/ads.js
||google-analytics.com^
||doubleclick.net^
||facebook.com/tr/*
||pagead2.googlesyndication.com^
"#;
    assert!(updater.is_valid_filter_list(valid_list));

    let invalid_list = "||ads.com^\n";
    assert!(!updater.is_valid_filter_list(invalid_list));

    assert!(!updater.is_valid_filter_list(""));
}

#[test]
fn test_time_since_last_update() {
    let config = AdBlockConfig::default();
    let updater = FilterUpdater::new(config);

    let duration = updater.time_since_last_update().unwrap();

    assert!(duration.as_secs() > 1_000_000_000);
}

fn at(secs: u64) -> Option<TimeSpan> {
    Some(TimeSpan { secs, nanos: 0 })
}

#[test]
fn update_due_after_interval() {
    let mut updater = FilterUpdater::new(AdBlockConfig::default());
    updater.finish_update(TimeSpan { secs: 1000, nanos: 0 });
    assert!(!updater.should_update_at(at(1000 + 24 * 3600)));
    assert!(updater.should_update_at(Some(TimeSpan { secs: 1000 + 24 * 3600, nanos: 1 })));
    assert!(updater.should_update_at(at(999)));
    assert!(updater.should_update_at(None));
    updater.mark_stale();
    assert!(updater.should_update_at(at(24 * 3600 + 1)));
}

#[test]
fn update_plan_paths() {
    let mut config = AdBlockConfig::default();
    config.add_custom_filter_list("Mine".to_string(), "https://mine.org/list.txt".to_string());
    let updater = FilterUpdater::new(config);
    let jobs = updater.update_plan(at(2_000_000_000)).unwrap();
    assert_eq!(jobs.len(), 3);
    assert_eq!(jobs[0].url, "https://easylist.to/easylist/easylist.txt");
    assert_eq!(jobs[0].path, "resources/adblock/easylist.txt");
    assert_eq!(jobs[1].path, "resources/adblock/easyprivacy.txt");
    assert_eq!(jobs[2].url, "https://mine.org/list.txt");
    assert_eq!(jobs[2].path, "resources/adblock/custom_2.txt");

    let mut off = AdBlockConfig::default();
    off.auto_update = false;
    assert!(FilterUpdater::new(off).update_plan(at(2_000_000_000)).is_none());
}

#[test]
fn download_checks() {
    let updater = FilterUpdater::new(AdBlockConfig::default());
    let list = "||a^\n||b^\n||c^\n||d^\n||e^\n||f^\n||g^\n||h^\n||i^\n||j^\n";
    assert!(updater.check_download(200, list).is_ok());
    assert!(matches!(updater.check_download(404, list), Err(UpdateError::HttpError(404))));
    assert!(matches!(updater.check_download(299, "# only\n! comments\n"), Err(UpdateError::InvalidFilterList)));
    assert!(matches!(updater.check_download(300, ""), Err(UpdateError::HttpError(300))));
    assert!(!updater.is_valid_filter_list("#a\n#b\n#c\n#d\n#e\n#f\n#g\n#h\n#i\n#j\n"));
    assert!(!updater.is_valid_filter_list(" \n\t\n"));
}

#[test]
fn report_counts_outcomes() {
    let mut report = UpdateReport::default();
    assert!(report.is_success());
    report.record_outcome(None);
    report.record_outcome(Some("list.txt: failed".to_string()));
    assert_eq!(report.success_count, 1);
    assert_eq!(report.failed_count, 1);
    assert_eq!(report.errors, vec!["list.txt: failed".to_string()]);
    assert!(!report.is_success());
    assert!(!UpdateReport::skipped_update().is_success());
}

#[test]
fn time_span_difference() {
    let updater = FilterUpdater::new(AdBlockConfig::default());
    let d = updater.time_since_last_update().unwrap();
    assert!(d.nanos < 1_000_000_000);
    assert_eq!(TimeSpan { secs: 5, nanos: 7 }.as_secs(), 5);
}

#[test]
fn forced_plan_ignores_auto_update() {
    let mut config = AdBlockConfig::default();
    config.auto_update = false;
    config.update_interval_hours = u64::MAX;
    let mut updater = FilterUpdater::new(config);
    assert!(!updater.should_update());
    updater.mark_stale();
    let jobs = updater.forced_plan();
    assert_eq!(jobs.len(), 2);
    assert_eq!(jobs[0].url, "https://easylist.to/easylist/easylist.txt");
    assert_eq!(jobs[1].path, "resources/adblock/easyprivacy.txt");
}

#[test]
fn update_error_messages() {
    assert_eq!(UpdateError::HttpError(404).message(), "Erreur HTTP 404");
    assert_eq!(UpdateError::NetworkError("timeout".to_string()).message(), "Erreur réseau: timeout");
    assert_eq!(UpdateError::IoError("disk".to_string()).message(), "Erreur I/O: disk");
    assert_eq!(UpdateError::InvalidFilterList.message(), "Liste de filtres invalide");
}

#[test]
fn valid_list_stays_valid_with_more_lines() {
    let updater = FilterUpdater::new(AdBlockConfig::default());
    let list = "||a^\n||b^\n||c^\n||d^\n||e^\n||f^\n||g^\n||h^\n||i^\n||j^";
    assert!(updater.is_valid_filter_list(list));
    let longer = format!("{}\n{}", list, "! comment\n\n# more");
    assert!(updater.is_valid_filter_list(&longer));
}
