use seogi::config::{default_max_file_size_mb, Config};
use seogi::metrics_files::metrics_file_selected;
use seogi::notify::notification_due;

#[test]
fn log_dir_tilde_expansion() {
    let config = Config {
        log_dir: "~/seogi-logs".to_string(),
        max_file_size_mb: 10,
    };
    let expanded = config.log_dir_with_home("/home/kim");
    assert!(!expanded.starts_with('~'));
    assert!(expanded.ends_with("/seogi-logs"));
    assert_eq!(expanded, "/home/kim/seogi-logs");
}

#[test]
fn log_dir_absolute_path() {
    let config = Config {
        log_dir: "/var/logs/seogi".to_string(),
        max_file_size_mb: 10,
    };
    assert_eq!(config.log_dir_with_home("/home/kim"), "/var/logs/seogi");
}

#[test]
fn load_config_default_max_file_size() {
    assert_eq!(default_max_file_size_mb(), 10);
}

// Own cases.

#[test]
fn only_first_tilde_is_replaced() {
    let config = Config {
        log_dir: "~a~b".to_string(),
        max_file_size_mb: 1,
    };
    assert_eq!(config.log_dir_with_home("H"), "Ha~b");
}

#[test]
fn notification_cooldown_rules() {
    assert!(notification_due(None, 1_000));
    assert!(!notification_due(Some("900\n"), 1_000));
    assert!(notification_due(Some("700"), 1_000));
    assert!(notification_due(Some("garbage"), 1_000));
    assert!(notification_due(Some("-9223372036854775808"), 0));
    assert!(!notification_due(Some("+1000"), 1_000));
}

#[test]
fn metrics_files_in_range() {
    assert!(metrics_file_selected("2026-04-08.jsonl", "2026-04-08", "2026-04-08"));
    assert!(metrics_file_selected("2026-04-08_001.jsonl", "2026-04-01", "2026-04-30"));
    assert!(!metrics_file_selected("2026-04-09.jsonl", "2026-04-01", "2026-04-08"));
    assert!(!metrics_file_selected("2026-03-31.jsonl", "2026-04-01", "2026-04-08"));
    assert!(!metrics_file_selected("2026-04-08.json", "2026-04-01", "2026-04-30"));
    assert!(!metrics_file_selected(".jsonl", "", "~"));
    assert!(metrics_file_selected("a.b.jsonl", "a", "a.b"));
    assert!(!metrics_file_selected("..", "", "~"));
}
