use deadman_notifier::bot::{build_alert, format_heartbeat, parse_usernames, worker_error_line, WorkerOutcome};
use deadman_notifier::config::{Config, ConfigError};
use deadman_notifier::constants::Constants;
use deadman_notifier::text::{trim_slice, u64_to_string};

#[test]
fn usernames_are_split_and_trimmed() {
    let parsed = parse_usernames("alice, bob ,charlie");
    assert_eq!(parsed, vec!["alice", "bob", "charlie"]);
}

#[test]
fn empty_input_names_nobody() {
    assert!(parse_usernames("").is_empty());
    assert!(parse_usernames("   ").is_empty());
    assert!(parse_usernames(" , ,, ").is_empty());
}

#[test]
fn empty_fields_are_dropped_between_names() {
    let parsed = parse_usernames(",alice,,bob,");
    assert_eq!(parsed, vec!["alice", "bob"]);
}

#[test]
fn single_name_passes_through() {
    assert_eq!(parse_usernames("eve"), vec!["eve"]);
    assert_eq!(parse_usernames("\teve \n"), vec!["eve"]);
}

#[test]
fn inner_whitespace_is_kept() {
    assert_eq!(parse_usernames(" a b , c "), vec!["a b", "c"]);
}

#[test]
fn trim_strips_both_ends_only() {
    assert_eq!(trim_slice("  x y\t"), "x y");
    assert_eq!(trim_slice(""), "");
    assert_eq!(trim_slice(" \r\n"), "");
    assert_eq!(trim_slice("plain"), "plain");
}

#[test]
fn decimal_rendering_is_exact() {
    assert_eq!(u64_to_string(0), "0");
    assert_eq!(u64_to_string(7), "7");
    assert_eq!(u64_to_string(60), "60");
    assert_eq!(u64_to_string(300), "300");
    assert_eq!(u64_to_string(1_048_576), "1048576");
    assert_eq!(u64_to_string(u64::MAX), "18446744073709551615");
}

#[test]
fn heartbeat_line_has_the_fixed_shape() {
    let line = format_heartbeat("12:00:05", "alice", 300);
    assert_eq!(line, "[12:00:05] Heartbeat sent for alice (next check in 300 seconds)");
}

#[test]
fn alert_text_is_the_template_around_the_timestamp() {
    let alert = build_alert("2024-01-01 00:00:00 UTC", 1_000, 300);
    assert_eq!(alert.scheduled_time, 1_300);
    assert_eq!(
        alert.content,
        "SERVER DOWN ALERT!\n\nThe server monitoring system has stopped responding!\nLast alive: \
         2024-01-01 00:00:00 UTC\n\nThis message indicates that the server has stopped responding \
         and requires immediate attention."
    );
}

#[test]
fn identical_timestamps_give_identical_edits() {
    // Idempotence of the content: the template is fixed, so two alerts
    // built for the same rendered timestamp are the same text.
    let a = build_alert("2024-06-01 10:00:00 UTC", 50, 300);
    let b = build_alert("2024-06-01 10:00:00 UTC", 900, 300);
    assert_eq!(a.content, b.content);
    assert_ne!(a.scheduled_time, b.scheduled_time);
}

#[test]
fn config_rejects_zero_intervals() {
    let r = Config::load(1, String::from("h"), String::from("s.session"), 0, 60);
    assert!(matches!(r, Err(ConfigError::ScheduleIntervalZero)));
    let r = Config::load(1, String::from("h"), String::from("s.session"), 300, 0);
    assert!(matches!(r, Err(ConfigError::SleepIntervalZero)));
}

#[test]
fn config_accepts_positive_intervals() {
    let r = Config::load(7, String::from("hash"), String::from("file.session"), 300, 60);
    let c = r.ok().expect("valid configuration");
    assert_eq!(c.api_id, 7);
    assert_eq!(c.api_hash, "hash");
    assert_eq!(c.session_file, "file.session");
    assert_eq!(c.schedule_interval, 300);
    assert_eq!(c.sleep_interval, 60);
}

#[test]
fn constants_mirror_the_configuration() {
    let c = Config::load(9, String::from("abc"), String::from("x.session"), 120, 30)
        .ok()
        .expect("valid configuration");
    let k = Constants::new(c);
    assert_eq!(k.api_id, 9);
    assert_eq!(k.api_hash, "abc");
    assert_eq!(k.session_file, "x.session");
    assert_eq!(k.schedule_interval, 120);
    assert_eq!(k.sleep_interval, 30);
}

#[test]
fn error_lines_name_recipient_and_cause() {
    let line = worker_error_line("alice", &WorkerOutcome::NotFound);
    assert_eq!(line.as_deref(), Some("Error handling messages for alice: User alice not found"));
    let line = worker_error_line(
        "bob",
        &WorkerOutcome::ResolutionFailed { message: String::from("timeout") },
    );
    assert_eq!(line.as_deref(), Some("Error handling messages for bob: timeout"));
    let line = worker_error_line(
        "carol",
        &WorkerOutcome::DeliveryFailed { message: String::from("blocked") },
    );
    assert_eq!(line.as_deref(), Some("Error handling messages for carol: blocked"));
    assert_eq!(worker_error_line("dave", &WorkerOutcome::Cancelled), None);
}
