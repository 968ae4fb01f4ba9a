//! The command line.

use nomux::args::{command, complaint, exit_code, parse_session_args, Command, SessionArgs, EXIT_USAGE};
use nomux::trouble::Kind;

/// Arguments as bytes.
fn bytes(args: &[&str]) -> Vec<Vec<u8>> {
    args.iter().map(|arg| arg.as_bytes().to_vec()).collect()
}

fn session_args(args: &[&str], private_options_ok: bool) -> Result<SessionArgs, String> {
    parse_session_args(&bytes(args), private_options_ok)
}

#[test]
fn the_lock_descriptor_is_a_daemon_only_startup_handoff() {
    for spelling in [["--lock-fd", "19"].as_slice(), ["--lock-fd=19"].as_slice()] {
        let mut args = vec!["session"];
        args.extend_from_slice(spelling);
        args.extend_from_slice(&["--label=cost $5"]);
        let parsed = session_args(&args, true).expect("parse the daemon handoff");
        assert_eq!(parsed.session.as_deref(), Some("session"));
        assert_eq!(parsed.lock_fd, Some(19));
        assert_eq!(parsed.label.as_deref(), Some("cost $5"));

        assert_eq!(
            session_args(&args, false).expect_err("reject a private option on public modes"),
            format!("unknown option `{}`", spelling[0])
        );
    }
}

#[test]
fn the_lock_descriptor_cannot_be_repeated_or_name_standard_stdio() {
    assert_eq!(
        session_args(&["session", "--lock-fd=19", "--lock-fd", "20"], true)
            .expect_err("reject a repeated descriptor"),
        "`--lock-fd` is given once"
    );
    // A relay hands over a descriptor it opened; `2` would be the stderr the daemon is
    // about to silence rather than a lock anybody holds.
    assert_eq!(
        session_args(&["session", "--lock-fd=2"], true)
            .expect_err("reject a standard descriptor"),
        "invalid `--lock-fd`"
    );
}

/// Every way to misuse the arguments has a complaint of its own.
#[test]
fn every_misuse_is_named() {
    for (args, private, complaint) in [
        (vec!["--lock-fd"], true, "missing `--lock-fd` value"),
        (vec!["--label"], false, "`--label` requires a value"),
        (vec!["-x"], false, "unknown option `-x`"),
        (vec!["-"], false, "unknown option `-`"),
        (vec!["--lock-fd=7"], false, "unknown option `--lock-fd=7`"),
        (vec!["a", "b"], false, "unexpected argument `b`"),
        (
            vec!["--label", "a", "--label=b"],
            false,
            "`--label` is given once: a second would replace the first",
        ),
        (vec!["--lock-fd=+"], true, "invalid `--lock-fd`"),
        (vec!["--lock-fd=99999999999"], true, "invalid `--lock-fd`"),
        (vec!["--lock-fd=-7"], true, "invalid `--lock-fd`"),
    ] {
        assert_eq!(session_args(&args, private).expect_err("a misuse"), complaint);
    }
    let raw = |args: &[&[u8]]| -> String {
        let args: Vec<Vec<u8>> = args.iter().map(|arg| arg.to_vec()).collect();
        parse_session_args(&args, true).expect_err("bytes that are no text")
    };
    assert_eq!(raw(&[b"a\xffb"]), "argument `a\u{fffd}b` must be valid UTF-8");
    assert_eq!(raw(&[b"--label", b"\xff"]), "label must be valid UTF-8");
    assert_eq!(raw(&[b"--lock-fd", b"\xff"]), "non-UTF-8 `--lock-fd`");
}

/// A value is taken as it stands, whatever it looks like, and only the first `=` divides.
#[test]
fn a_value_is_taken_as_it_stands() {
    let parsed = session_args(&["--label", "--label", "id"], false).unwrap();
    assert_eq!(parsed.label.as_deref(), Some("--label"));
    assert_eq!(parsed.session.as_deref(), Some("id"));
    let parsed = session_args(&["--label=a=b"], false).unwrap();
    assert_eq!(parsed.label.as_deref(), Some("a=b"));
    let parsed = session_args(&["--lock-fd", "+7"], true).unwrap();
    assert_eq!(parsed.lock_fd, Some(7));
    let parsed = session_args(&[""], false).unwrap();
    assert_eq!(parsed.session.as_deref(), Some(""), "an empty id is the id's to refuse");
}

/// What `args` ask for is a usage error that says this.
fn refused(args: &[&str]) -> Option<String> {
    match command(&bytes(args)) {
        Command::Usage(message) => message,
        other => panic!("accepted {args:?} as {other:?}"),
    }
}

#[test]
fn every_mode_is_read() {
    assert!(matches!(command(&bytes(&["list"])), Command::List));
    for word in ["--version", "-V"] {
        assert!(matches!(command(&bytes(&[word])), Command::Version));
    }
    for word in ["--help", "-h"] {
        assert!(matches!(command(&bytes(&[word])), Command::Help));
    }
    let Command::Daemon { session, label, lock_fd } =
        command(&bytes(&["daemon", "one", "--label", "x", "--lock-fd=5"]))
    else {
        panic!("a daemon");
    };
    assert_eq!((session.as_str(), label.as_deref(), lock_fd), ("one", Some("x"), Some(5)));
    let Command::Spawn { session, label } = command(&bytes(&["spawn", "--label=x", "one"])) else {
        panic!("a spawn");
    };
    assert_eq!((session.as_str(), label.as_deref()), ("one", Some("x")));
    let Command::Attach { session } = command(&bytes(&["attach", "one"])) else {
        panic!("an attach");
    };
    assert_eq!(session, "one");
    let Command::Kill { session } = command(&bytes(&["kill", "one"])) else {
        panic!("a kill");
    };
    assert_eq!(session, "one");
}

#[test]
fn a_malformed_invocation_says_what_is_wrong() {
    assert_eq!(refused(&[]), None);
    assert_eq!(
        refused(&["list", "x"]).as_deref(),
        Some("`list` takes no arguments, got `x`")
    );
    assert_eq!(
        refused(&["-V", "--help"]).as_deref(),
        Some("`-V` takes no arguments, got `--help`")
    );
    assert_eq!(refused(&["spawn"]).as_deref(), Some("`spawn` requires a session id"));
    assert_eq!(refused(&["nope"]).as_deref(), Some("unknown mode `nope`"));
    assert_eq!(
        refused(&["attach", "one", "--label", "x"]).as_deref(),
        Some(
            "`attach` takes no `--label`: a label is recorded when the session is created, \
             which `spawn` does"
        )
    );
    assert_eq!(
        refused(&["kill", "--label=x", "one"]).as_deref(),
        Some("`kill` takes no `--label`: labels are recorded only when a session is created")
    );
    assert_eq!(
        refused(&["spawn", "one", "--lock-fd=5"]).as_deref(),
        Some("unknown option `--lock-fd=5`")
    );
    let Command::Usage(Some(message)) = command(&[b"\xff".to_vec()]) else {
        panic!("no mode");
    };
    assert_eq!(message, "unknown mode `\u{fffd}`");
}

/// A failure is reported escaped, and scored by its one reserved kind.
#[test]
fn a_failure_is_escaped_and_scored() {
    assert_eq!(complaint("a\u{1b}]0;b\n"), "nomux: a\\u{1b}]0;b\\n");
    assert_eq!(complaint("hëm"), "nomux: hëm");
    assert_eq!(exit_code(None, 1), 0);
    assert_eq!(exit_code(Some(Kind::InvalidInput), 1), EXIT_USAGE);
    assert_eq!(exit_code(Some(Kind::InvalidData), 1), 1);
    assert_eq!(EXIT_USAGE, 64);
}
