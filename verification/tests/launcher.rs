//! The command line a daemon is started with.

use nomux::args::parse_session_args;
use nomux::launcher::daemon_args;
use nomux::sanitize::{sanitize_label, MAX_LABEL_LEN};

/// The label reaches the daemon already cut and already stripped of the terminal control it
/// arrived with.
fn labels_are_bounded() {
    let label = format!("\u{1b}]0;ignored\u{7}  $HOME/{}", "é".repeat(200));
    let expected = sanitize_label(&label);
    assert!(expected.len() <= MAX_LABEL_LEN);
    assert!(label.len() > MAX_LABEL_LEN, "cut nothing");

    let direct = daemon_args("session", Some(&label), 19);
    assert_eq!(direct.last(), Some(&expected));
}

fn the_line_carries_the_lock_and_the_raw_label() {
    assert_eq!(
        daemon_args("session", Some("cost $5"), 23),
        ["daemon", "session", "--lock-fd", "23", "--label", "cost $5"]
    );
}

#[test]
fn launched_labels_are_bounded_before_the_daemon_exec() {
    labels_are_bounded();
}

#[test]
fn launcher_labels_are_bounded_before_the_daemon_exec() {
    labels_are_bounded();
}

#[test]
fn attach_the_daemon_command_line_carries_the_lock_and_the_raw_label() {
    the_line_carries_the_lock_and_the_raw_label();
}

#[test]
fn launcher_the_daemon_command_line_carries_the_lock_and_the_raw_label() {
    the_line_carries_the_lock_and_the_raw_label();
}

/// A label nothing is left of is left out.
#[test]
fn a_label_with_nothing_left_is_not_passed_on() {
    for label in [None, Some(""), Some("\u{7}  \u{200b}")] {
        assert_eq!(
            daemon_args("session", label, 4),
            ["daemon", "session", "--lock-fd", "4"]
        );
    }
}

/// A daemon reads back the session, the lock and the label it was started with.
#[test]
fn a_daemon_reads_back_what_it_was_started_with() {
    let line = daemon_args("tab_7", Some("--label=x"), 17);
    let args: Vec<Vec<u8>> = line[1..].iter().map(|arg| arg.clone().into_bytes()).collect();
    let parsed = parse_session_args(&args, true).expect("the daemon's own command line");
    assert_eq!(parsed.session.as_deref(), Some("tab_7"));
    assert_eq!(parsed.lock_fd, Some(17));
    assert_eq!(parsed.label.as_deref(), Some("--label=x"));
}
