//! Listing and killing sessions.

use nomux::control::{
    bound_since, identified, is_daemon_for, list_entry, list_line, names_daemon_prefix, resolve,
    settle, still_answering, unidentified, unlistable, Answer, Entry, KillStep, Killing, Pidfile,
    Resolved, GRACE, KILL_GRACE, MAX_CMDLINE_LEN,
};
use nomux::rundir::SessionPaths;
use nomux::trouble::Kind;

/// Joins arguments the way a process's command line presents them, minus the trailing NUL.
fn cmdline(args: &[&str]) -> Vec<u8> {
    args.join("\0").into_bytes()
}

fn names_daemon_for(whole: &[u8], id: &str) -> bool {
    names_daemon_prefix(whole, id, false)
}

fn paths() -> SessionPaths {
    SessionPaths::in_dir(b"/run/user/1000/nomux", "one")
        .expect("a short id under a short directory resolves")
}

/// The refusal after both graces says what the escalation did, and one that sent nothing is
/// never described as having sent two signals.
#[test]
fn a_refusal_names_no_signal_that_was_never_sent() {
    let failed = Some("Too many open files (os error 24)".to_owned());
    let unheld = still_answering("one", 999_999_999, &failed, &failed);
    assert!(
        !unheld.contains("SIGTERM and SIGKILL to"),
        "no signal went out, so none may be named as having gone out: {unheld:?}"
    );
    assert!(
        unheld.contains("neither SIGTERM nor SIGKILL was sent")
            && unheld.contains("Too many open files"),
        "what happened is that the process could not be held: {unheld:?}"
    );

    let signalled = still_answering("one", 999_999_999, &None, &None);
    assert!(
        signalled.contains("still answering after SIGTERM and SIGKILL to pid 999999999"),
        "a session that outlasted a signal that was sent says so: {signalled:?}"
    );
    assert_eq!(
        still_answering("one", 7, &None, &failed),
        "session one is still answering after SIGTERM to pid 7; SIGKILL could not be sent \
         (Too many open files (os error 24))"
    );
    assert_eq!(
        still_answering("one", 7, &failed, &None),
        "session one is still answering after SIGKILL to pid 7, so that pid is not the process \
         serving it; SIGTERM could not be sent (Too many open files (os error 24))"
    );
}

/// A `kill` overtaken by a spawn refuses as an address in use and names both the id and the
/// socket now bound.
#[test]
fn a_kill_overtaken_by_a_spawn_names_the_session_and_the_socket_it_left_alone() {
    let err = bound_since(&paths());

    assert_eq!(
        err.kind,
        Kind::AddrInUse,
        "a daemon holding the id is an address in use, not the invalid data every other \
         refusal here reports"
    );
    let message = err.message;
    assert!(
        message.contains("session one is answering")
            && message.contains("/run/user/1000/nomux/one.sock"),
        "the refusal has to say which session was left alone and where it is answering: \
         {message:?}"
    );
}

/// A command line too long to read the end of is still a definitive "no" where the word
/// behind the program arrived whole.
#[test]
fn a_long_command_line_that_is_not_a_daemon_is_answered_rather_than_left_unknown() {
    let mut body = cmdline(&["sh", "-c", "read line", &"x".repeat(MAX_CMDLINE_LEN)]);
    body.truncate(MAX_CMDLINE_LEN);
    assert_eq!(
        is_daemon_for(&body, "one"),
        Some(false),
        "a command line whose second word was read in full and is not `daemon` is a positive \
         `it is not`, whatever the read could not reach past it"
    );
    let unseen = vec![b'x'; MAX_CMDLINE_LEN];
    assert_eq!(is_daemon_for(&unseen, "one"), None, "no word of it arrived whole");
}

/// A daemon is recognised by its whole arguments, and a truncated one by what the read saw
/// the end of.
#[test]
fn a_daemon_is_recognised_behind_any_program_name() {
    let mut whole = cmdline(&["/opt/nomux", "daemon", "one", "--lock-fd", "7"]);
    whole.push(0);
    assert_eq!(is_daemon_for(&whole, "one"), Some(true));
    assert_eq!(is_daemon_for(&whole, "two"), Some(false));
    assert_eq!(is_daemon_for(b"", "one"), Some(false));

    // An option whose value the read cut off is a valid prefix all the same.
    assert!(names_daemon_prefix(&cmdline(&["n", "daemon", "one", "--label"]), "one", true));
    assert!(names_daemon_prefix(&cmdline(&["n", "daemon", "one", "--lock-fd"]), "one", true));
    assert!(!names_daemon_prefix(&cmdline(&["n", "daemon", "one", "--lock-fd"]), "one", false));
    assert_eq!(MAX_CMDLINE_LEN, 4169);
}

/// Regression: a label is not an id, however much it looks like one in argv.
#[test]
fn a_label_never_stands_in_for_the_id() {
    for (argv, describing) in [
        (vec!["nomux", "daemon", "one", "--label", "two"], "after"),
        (vec!["nomux", "daemon", "--label", "two", "one"], "before"),
        (vec!["nomux", "daemon", "--label=two", "one"], "joined"),
    ] {
        let whole = cmdline(&argv);
        assert!(
            names_daemon_for(&whole, "one"),
            "a daemon with its label {describing} the id is still `one`'s: {argv:?}"
        );
        assert!(
            !names_daemon_for(&whole, "two"),
            "a label {describing} the id made this daemon `two`'s as well: {argv:?}"
        );
    }
}

/// A relay is never a daemon, in either of its modes.
#[test]
fn a_relay_is_not_the_daemon_whatever_its_label_says() {
    for argv in [
        vec!["nomux", "attach", "--label", "daemon", "one"],
        vec!["nomux", "attach", "one", "--label", "daemon"],
        vec!["nomux", "attach", "one"],
        vec!["nomux", "spawn", "--label", "daemon", "one"],
        vec!["nomux", "spawn", "one", "--label", "daemon"],
        vec!["nomux", "spawn", "one"],
    ] {
        assert!(
            !names_daemon_for(&cmdline(&argv), "one"),
            "a relay was taken for the daemon it spawned: {argv:?}"
        );
    }
}

/// The ordinary shapes still resolve, including the hand-typed one.
#[test]
fn the_plain_command_lines_still_name_their_session() {
    assert!(names_daemon_for(
        &cmdline(&["nomux", "daemon", "one"]),
        "one"
    ));
    assert!(names_daemon_for(
        &cmdline(&["/opt/nomux-0.2.0", "daemon", "one"]),
        "one"
    ));
    assert!(names_daemon_for(
        &cmdline(&["nomux", "daemon", "--lock-fd", "7", "one"]),
        "one"
    ));
    assert!(names_daemon_for(
        &cmdline(&["nomux", "daemon", "--lock-fd=7", "one"]),
        "one"
    ));
    assert!(names_daemon_for(
        &cmdline(&["nomux", "daemon", "one", "--lock-fd=7"]),
        "one"
    ));
    assert!(
        !names_daemon_for(&cmdline(&["nomux", "daemon", "--lock-fd", "7", "one"]), "7"),
        "the inherited descriptor number is not the session id"
    );
    // Whole arguments, so one id is never a prefix of another.
    assert!(!names_daemon_for(
        &cmdline(&["nomux", "daemon", "one0"]),
        "one"
    ));
    assert!(!names_daemon_for(&cmdline(&["nomux", "daemon"]), "one"));
    assert!(!names_daemon_for(&[], "one"));
}

/// Identification must reject every daemon-like command line the actual daemon parser
/// rejects, or `kill` can signal a process that only shares its argv prefix.
#[test]
fn malformed_daemon_command_lines_do_not_name_a_session() {
    for argv in [
        vec!["nomux", "daemon", "one", "extra"],
        vec!["nomux", "daemon", "--unknown", "one"],
        vec!["nomux", "daemon", "--label"],
        vec!["nomux", "daemon", "--label=a", "--label=b", "one"],
        vec!["nomux", "daemon", "--lock-fd=2", "one"],
        vec!["nomux", "daemon", "--lock-fd=nope", "one"],
        vec!["nomux", "daemon", "--lock-fd=7", "--lock-fd=8", "one"],
    ] {
        assert!(
            !names_daemon_for(&cmdline(&argv), "one"),
            "accepted malformed daemon argv: {argv:?}"
        );
    }

    assert!(
        !names_daemon_for(b"nomux\0daemon\0one\0--label\0\xff", "one"),
        "accepted an argv value the command-line parser cannot decode"
    );
}

/// A pidfile body and what was found of the process it names.
fn body(text: &[u8], filed: Option<i32>, daemon: Option<bool>) -> Pidfile {
    Pidfile::Body {
        body: text.to_vec(),
        filed,
        daemon,
    }
}

/// What a look came to, as a number or a sentence.
fn found(answer: &Answer, pidfile: &Pidfile, now: u64) -> Result<Option<i32>, String> {
    match resolve(&paths(), answer, pidfile, now, 10) {
        Resolved::Nobody => Ok(None),
        Resolved::Process(pid) => Ok(Some(pid)),
        Resolved::Wait => Err("wait".to_owned()),
        Resolved::Refused(e) => Err(e.message),
    }
}

/// Only a process nothing rules out is signalled, and only over a session that is not dead.
#[test]
fn a_kill_signals_only_a_process_it_can_name() {
    let unprobed = Answer::Unknown("Permission denied".to_owned());
    assert_eq!(found(&Answer::Stale, &body(b"7\n", Some(7), Some(true)), 0), Ok(None));
    assert_eq!(found(&Answer::Alive, &body(b"7\n", Some(7), Some(true)), 0), Ok(Some(7)));
    assert_eq!(found(&Answer::Alive, &body(b"7\n", Some(7), None), 0), Ok(Some(7)));
    assert_eq!(found(&unprobed, &body(b"7\n", Some(7), Some(true)), 0), Ok(Some(7)));
    assert_eq!(
        found(&Answer::Alive, &body(b"7\n", Some(7), Some(false)), 0),
        Err(
            "session one is running, but /run/user/1000/nomux/one.pid: it names pid 7, which is \
             not a `nomux daemon one` process"
                .to_owned()
        )
    );
    assert_eq!(
        found(&unprobed, &body(b"7\n", Some(7), Some(false)), 0),
        Err(
            "session one: /run/user/1000/nomux/one.sock could not be probed: Permission denied"
                .to_owned()
        )
    );
    // Still being published: waited for, and then said.
    for (pidfile, said) in [
        (Pidfile::Missing, "it never appeared"),
        (body(b" \n", None, None), "it was created but never written"),
    ] {
        assert_eq!(found(&Answer::Alive, &pidfile, 9), Err("wait".to_owned()));
        assert_eq!(
            found(&Answer::Alive, &pidfile, 10),
            Err(format!(
                "session one is running, but /run/user/1000/nomux/one.pid: {said}"
            ))
        );
    }
    assert_eq!(
        found(&Answer::Alive, &Pidfile::Unreadable("EIO".to_owned()), 0),
        Err("session one is running, but /run/user/1000/nomux/one.pid: EIO".to_owned())
    );
}

#[test]
fn an_unidentified_process_is_described_by_what_is_known() {
    assert_eq!(
        unidentified("one", None, b"1234\n"),
        "pid 1234 names no process this user can signal"
    );
    assert_eq!(unidentified("one", None, b"\x1bnope\n"), "it holds \"\\u{1b}nope\\n\"");
    assert_eq!(
        unidentified("one", None, &[b'9'; 32]),
        format!(
            "it runs past the 32 bytes a pidfile may be, so any number in it is cut off rather \
             than read; it begins \"{}\"",
            "9".repeat(32)
        )
    );
    assert_eq!(identified(Some(4), Some(false)), None);
    assert_eq!(identified(Some(4), None), Some(4));
    assert_eq!(identified(None, Some(true)), None);
}

/// A kill waits, escalates once, and gives up only over a session that still answers.
#[test]
fn a_kill_escalates_once_and_then_says_what_it_did() {
    let paths = paths();
    let mut kill = Killing::begun(7, None, 100);
    assert!(matches!(kill.look(&paths, &Answer::Alive, 100), KillStep::Wait));
    assert!(matches!(kill.look(&paths, &Answer::Stale, 100 + GRACE), KillStep::Gone));
    assert!(matches!(kill.look(&paths, &Answer::Alive, 100 + GRACE), KillStep::SendKill));
    let KillStep::Refused(e) = kill.look(&paths, &Answer::Unknown("x".to_owned()), 100) else {
        panic!("a probe that never reached the socket");
    };
    assert_eq!(e.kind, Kind::InvalidData);

    kill.escalated(None, 1_000);
    assert!(matches!(kill.look(&paths, &Answer::Alive, 1_000), KillStep::Wait));
    let KillStep::Refused(e) = kill.look(&paths, &Answer::Alive, 1_000 + KILL_GRACE) else {
        panic!("a session nothing stops");
    };
    assert_eq!(e.message, still_answering("one", 7, &None, &None));

    assert!(settle(&paths, &Answer::Stale).is_ok());
    assert_eq!(settle(&paths, &Answer::Alive).unwrap_err().kind, Kind::AddrInUse);
    assert_eq!(
        settle(&paths, &Answer::Unknown("x".to_owned())).unwrap_err().kind,
        Kind::InvalidData
    );
}

/// Only death collects, and the sweep goes on though nobody reads the listing any more.
#[test]
fn a_listing_collects_only_the_dead() {
    let unknown = Answer::Unknown("x".to_owned());
    for listening in [true, false] {
        assert_eq!(list_entry(&Answer::Stale, listening), Entry::Collect);
    }
    for answer in [Answer::Alive, unknown] {
        assert_eq!(list_entry(&answer, true), Entry::Print);
        assert_eq!(list_entry(&answer, false), Entry::Skip);
    }
}

#[test]
fn a_listing_line_names_what_is_known() {
    assert_eq!(list_line("one", Some(7), "build"), "one\t7\tbuild\n");
    assert_eq!(list_line("one", None, ""), "one\t?\t\n");
    assert_eq!(unlistable("too long"), "too long; its files are left where they are");
}
