use rars::battery::{battery_device_paths, contains_str, is_battery_device_path};
use rars::config::{config_dirs, error_label_start, line_count, line_lengths, lines_offset};
use rars::instance::{decide_instance, raw_pid, Command, InstanceAction, LockOutcome};
use rars::notification::NotificationDaemon;

#[test]
fn config_dirs_prefer_the_given_path() {
    assert_eq!(config_dirs(Some("my.ron")), vec!["my.ron".to_string()]);
    assert_eq!(
        config_dirs(None),
        vec!["config/rars.ron".to_string(), "/home/hankaji/.config/rars/rars.ron".to_string()]
    );
}

#[test]
fn lines_are_split_at_newlines() {
    let src = b"(\n  theme: x,\n\nbar";
    assert_eq!(line_count(src), 4);
    assert_eq!(line_lengths(src), vec![1, 11, 0, 3]);
    assert_eq!(line_count(b""), 1);
    assert_eq!(line_count(b"a\n"), 2);
    assert_eq!(line_lengths(b"a\n"), vec![1, 0]);
}

#[test]
fn line_offsets_follow_newlines() {
    let src = b"(\n  theme: x,\n\nbar";
    assert_eq!(lines_offset(src, 0), 0);
    assert_eq!(lines_offset(src, 1), 2);
    assert_eq!(lines_offset(src, 2), 14);
    assert_eq!(lines_offset(src, 3), 15);
    assert_eq!(lines_offset(src, 4), 19);
    for k in 1..4 {
        assert_eq!(src[lines_offset(src, k) - 1], b'\n');
    }
}

#[test]
fn error_label_matches_the_reported_position() {
    let src = "(\n  theme: x,\n\nbar";
    // line 2, column 10 is the `x`; the label starts two bytes before
    // the offset of the line plus the column.
    assert_eq!(error_label_start(src.as_bytes(), 2, 10), 10);
    assert_eq!(error_label_start(src.as_bytes(), 1, 2), 0);
    assert_eq!(error_label_start(src.as_bytes(), 5, 0), 17);
    assert_eq!(&src[error_label_start(src.as_bytes(), 2, 11)..][..1], "x");
}

#[test]
fn notify_gives_fresh_ids_in_turn() {
    let mut d = NotificationDaemon::new();
    let a = d.notify("app".into(), 0, "icon".into(), "s1".into(), "b1".into(), vec![], -1);
    let b = d.notify("app".into(), 0, "icon".into(), "s2".into(), "b2".into(), vec!["ok".into()], 5000);
    assert_eq!((a, b), (0, 1));
    assert_eq!(d.len(), 2);
    let n = d.get(1).unwrap();
    assert_eq!(n.summary, "s2");
    assert_eq!(n.actions, vec!["ok".to_string()]);
    assert_eq!(n.expire_timeout, 5000);
    assert_eq!(n.notification_id, 1);
    assert_eq!(n.replaces_id, 0);
}

#[test]
fn notify_with_replaces_id_replaces() {
    let mut d = NotificationDaemon::new();
    d.notify("app".into(), 0, "".into(), "first".into(), "".into(), vec![], 0);
    let a = d.notify("app".into(), 0, "".into(), "old".into(), "".into(), vec![], 0);
    assert_eq!(a, 1);
    let r = d.notify("app".into(), a, "".into(), "new".into(), "".into(), vec![], 0);
    assert_eq!(r, a);
    assert_eq!(d.len(), 2);
    assert_eq!(d.get(a).unwrap().summary, "new");
    assert_eq!(d.get(a).unwrap().replaces_id, a);
    // the counter did not move: the next fresh id is 2
    let c = d.notify("app".into(), 0, "".into(), "".into(), "".into(), vec![], 0);
    assert_eq!(c, 2);
    // a replaces_id that names nothing yet stores under that id
    let e = d.notify("x".into(), 42, "".into(), "".into(), "".into(), vec![], 0);
    assert_eq!(e, 42);
    assert!(d.get(42).is_some());
}

#[test]
fn id_zero_is_never_replaced() {
    let mut d = NotificationDaemon::new();
    let z = d.notify("a".into(), 0, "".into(), "zero".into(), "".into(), vec![], 0);
    assert_eq!(z, 0);
    // asking to replace 0 asks for a fresh id
    let n = d.notify("a".into(), z, "".into(), "other".into(), "".into(), vec![], 0);
    assert_eq!(n, 1);
    assert_eq!(d.get(0).unwrap().summary, "zero");
}

#[test]
fn close_notification_removes_only_that_id() {
    let mut d = NotificationDaemon::new();
    d.notify("a".into(), 0, "".into(), "".into(), "".into(), vec![], 0);
    d.notify("b".into(), 0, "".into(), "".into(), "".into(), vec![], 0);
    d.close_notification(0);
    assert!(d.get(0).is_none());
    assert_eq!(d.get(1).unwrap().app_name, "b");
    d.close_notification(7);
    assert_eq!(d.len(), 1);
}

#[test]
fn server_information_names_the_package() {
    let d = NotificationDaemon::new();
    let info = d.get_server_information("rars", "0.1.0");
    assert_eq!(
        info,
        (
            "Notification Daemon Test".to_string(),
            "rars".to_string(),
            "0.1.0".to_string(),
            "1.2".to_string()
        )
    );
}

#[test]
fn contains_str_finds_substrings() {
    assert!(contains_str("abcabd", "abd"));
    assert!(!contains_str("abcab", "abd"));
    assert!(contains_str("abc", ""));
    assert!(!contains_str("", "a"));
    assert!(contains_str("é/x", "/x"));
}

#[test]
fn battery_paths_are_kept_in_order() {
    assert!(is_battery_device_path("/org/freedesktop/UPower/devices/battery_BAT0"));
    assert!(!is_battery_device_path("/org/freedesktop/UPower/devices/line_power_AC"));
    let paths = vec![
        "/org/freedesktop/UPower/devices/line_power_AC".to_string(),
        "/org/freedesktop/UPower/devices/battery_BAT1".to_string(),
        "/org/freedesktop/UPower/devices/DisplayDevice".to_string(),
        "/org/freedesktop/UPower/devices/battery_BAT0".to_string(),
    ];
    assert_eq!(
        battery_device_paths(paths),
        vec![
            "/org/freedesktop/UPower/devices/battery_BAT1".to_string(),
            "/org/freedesktop/UPower/devices/battery_BAT0".to_string(),
        ]
    );
}

#[test]
fn instance_with_the_lock() {
    assert_eq!(decide_instance(&LockOutcome::Acquired, None), InstanceAction::WritePid);
    assert_eq!(decide_instance(&LockOutcome::Acquired, Some(Command::Quit)), InstanceAction::NoInstanceToTerminate);
    assert_eq!(decide_instance(&LockOutcome::Acquired, Some(Command::Other)), InstanceAction::Proceed);
}

#[test]
fn instance_without_the_lock() {
    let held = LockOutcome::HeldElsewhere { pid_text: "4242".to_string() };
    assert_eq!(decide_instance(&held, None), InstanceAction::AlreadyRunning(4242));
    assert_eq!(decide_instance(&held, Some(Command::Quit)), InstanceAction::Terminate(4242));
    assert_eq!(decide_instance(&held, Some(Command::Other)), InstanceAction::Proceed);
    let bad = LockOutcome::HeldElsewhere { pid_text: "4242\n".to_string() };
    assert_eq!(decide_instance(&bad, Some(Command::Other)), InstanceAction::InvalidPid);
    let empty = LockOutcome::HeldElsewhere { pid_text: String::new() };
    assert_eq!(decide_instance(&empty, None), InstanceAction::InvalidPid);
    assert_eq!(raw_pid(4242), 4242);
    assert_eq!(raw_pid(u32::MAX), -1);
}

#[test]
fn fresh_ids_come_in_turn_across_replaces_and_closes() {
    let mut d = NotificationDaemon::default();
    let mut fresh = Vec::new();
    fresh.push(d.notify("a".into(), 0, "".into(), "".into(), "".into(), vec![], 0));
    d.notify("a".into(), 7, "".into(), "".into(), "".into(), vec![], 0);
    fresh.push(d.notify("a".into(), 0, "".into(), "".into(), "".into(), vec![], 0));
    d.close_notification(0);
    d.close_notification(1);
    d.notify("a".into(), 1, "".into(), "".into(), "".into(), vec![], 0);
    fresh.push(d.notify("a".into(), 0, "".into(), "".into(), "".into(), vec![], 0));
    fresh.push(d.notify("a".into(), 0, "".into(), "".into(), "".into(), vec![], 0));
    assert_eq!(fresh, vec![0, 1, 2, 3]);
}
