//! What `spawn` and `attach` decide.

use nomux::attach::{
    already_running, await_publication, complaint_line, create, daemon_complaint, launch_failed,
    lock_failed, may_be_running, no_such_session, paths_failed, relay_failed, resume,
    resume_probe_class, run_dir_failed, start_timed_out, starting, unattachable, FailureClass,
    Liveness, Publication, RunError, Shortage, Starting, PUBLISH_POLL_INTERVAL,
};
use nomux::rundir::SessionPaths;
use nomux::trouble::{Kind, Trouble};

fn paths() -> SessionPaths {
    SessionPaths::in_dir(b"/run/nomux", "work").unwrap()
}

fn trouble(kind: Kind, message: &str) -> Trouble {
    Trouble {
        kind,
        message: message.to_owned(),
    }
}

#[test]
fn failure_classes_have_stable_tokens_and_legacy_statuses() {
    let cases = [
        (FailureClass::Collision, "collision", 126),
        (FailureClass::Retryable, "retryable", 126),
        (FailureClass::UnsafeHost, "unsafe-host", 126),
        (FailureClass::Uncertain, "uncertain", 126),
        (FailureClass::MissingSession, "missing-session", 127),
        (FailureClass::StartupFailure, "startup-failure", 127),
        (FailureClass::PostConnect, "post-connect", 1),
    ];
    for (class, token, status) in cases {
        assert_eq!(class.token(), token);
        assert_eq!(class.exit_code(), status);
        assert_eq!(class.record(), format!("NOMUX-RELAY-ERROR 1 {token}"));
    }
    for class in FailureClass::ALL {
        assert!(cases.iter().any(|(listed, ..)| *listed == class));
    }
}

#[test]
fn only_safe_attach_retries_are_called_retryable() {
    for (kind, shortage) in [
        (Kind::TimedOut, None),
        (Kind::Other, Some(Shortage::ProcessFiles)),
        (Kind::Other, Some(Shortage::SystemFiles)),
        (Kind::Other, Some(Shortage::Buffers)),
        (Kind::WouldBlock, Some(Shortage::Again)),
        (Kind::OutOfMemory, Some(Shortage::Memory)),
        (Kind::Interrupted, None),
    ] {
        assert_eq!(resume_probe_class(kind, shortage), FailureClass::Retryable);
    }
    assert_eq!(
        resume_probe_class(Kind::Other, None),
        FailureClass::Uncertain
    );
}

/// A session socket somebody else bound is reported as that rather than as a probe that
/// established nothing.
#[test]
fn a_socket_another_user_bound_names_that_user_rather_than_an_unprobeable_socket() {
    let foreign = trouble(
        Kind::PermissionDenied,
        "the socket answered, and belongs to uid 4242",
    );
    let failure = unattachable(&paths(), &foreign, None);
    let said = failure.message;

    assert_eq!(failure.class, FailureClass::UnsafeHost);
    assert!(
        said.contains("uid 4242"),
        "the one fact established is whose socket this is: {said:?}"
    );
    assert!(
        !said.contains("could not be probed"),
        "it was probed, and it answered: {said:?}"
    );
    assert_eq!(
        said,
        "session work could not be joined: the socket answered, and belongs to uid 4242. \
         `nomux list` says what this host holds"
    );
}

/// A socket can accept before the daemon has written the pidfile. Only a complete body makes
/// that connection a finished startup.
#[test]
fn publication_requires_a_complete_pidfile() {
    assert_eq!(
        await_publication(None, 5, 5),
        Publication::TimedOut,
        "absence is not publication"
    );
    for incomplete in [b"".as_slice(), b"1234"] {
        assert_eq!(
            await_publication(Some(incomplete), 5, 5),
            Publication::TimedOut,
            "an incomplete pidfile was accepted: {incomplete:?}"
        );
    }
    assert_eq!(
        await_publication(Some(b"1234\n"), 5, 5),
        Publication::Published,
        "the daemon's complete pidfile must publish it"
    );
    assert_eq!(await_publication(None, 5, 12), Publication::Wait(7));
    assert_eq!(
        await_publication(None, 5, 5 + 3 * PUBLISH_POLL_INTERVAL),
        Publication::Wait(PUBLISH_POLL_INTERVAL)
    );
}

#[test]
fn a_complaint_cannot_drive_the_terminal_it_is_printed_to() {
    assert_eq!(
        daemon_complaint(b"nomux: \x1b]0;pwned\x07boom\nsecond line").as_deref(),
        Some("\\u{1b}]0;pwned\\u{7}boom"),
        "it must carry no escape sequence — nor the daemon's own `nomux: `, nor a second line"
    );
}

#[test]
fn a_legible_complaint_is_left_legible() {
    assert_eq!(
        daemon_complaint("nomux: /hëm/fornwall: permission denied".as_bytes()).as_deref(),
        Some("/hëm/fornwall: permission denied"),
        "escaping is for what a terminal acts on, not for every byte above ASCII"
    );
}

#[test]
fn the_first_line_that_says_anything_is_the_complaint() {
    assert_eq!(complaint_line("\n  \r\n\tnomux: it broke \r\nmore").as_deref(), Some("it broke"));
    assert_eq!(complaint_line("it broke").as_deref(), Some("it broke"));
    assert_eq!(complaint_line(" \n\r\n"), None);
    assert_eq!(complaint_line(""), None);
    assert_eq!(daemon_complaint(b""), None);
    assert_eq!(daemon_complaint(b"a\xffb").as_deref(), Some("a\u{fffd}b"));
}

/// An attach relays to a session that answers, and never invents one.
#[test]
fn an_attach_joins_only_what_answers() {
    let paths = paths();
    assert!(resume(&paths, true, &Liveness::Alive).is_ok());
    for (there, seen) in [(true, Liveness::Stale), (false, Liveness::Alive)] {
        let failure = resume(&paths, there, &seen).unwrap_err();
        assert_eq!(failure.class, FailureClass::MissingSession);
        assert_eq!(
            failure.message,
            "no session work: nothing answers on /run/nomux/work.sock. `nomux spawn work` \
             starts one"
        );
        assert_eq!(failure.message, no_such_session(&paths).message);
    }
    let unknown = Liveness::Unknown {
        trouble: trouble(Kind::Other, "it would not say"),
        shortage: Some(Shortage::Memory),
    };
    assert_eq!(
        resume(&paths, true, &unknown).unwrap_err().class,
        FailureClass::Retryable
    );
}

/// A spawn creates only an id it can say is free.
#[test]
fn a_spawn_creates_only_what_is_free() {
    let paths = paths();
    assert!(create(&paths, &Liveness::Stale).is_ok());
    let taken = create(&paths, &Liveness::Alive).unwrap_err();
    assert_eq!(taken.class, FailureClass::Collision);
    assert_eq!(taken.message, already_running(&paths).message);
    assert_eq!(
        taken.message,
        "session work already exists: something answers on /run/nomux/work.sock. \
         `nomux attach work` joins it"
    );
    let unknown = Liveness::Unknown {
        trouble: trouble(Kind::TimedOut, "it would not say"),
        shortage: None,
    };
    let unsure = create(&paths, &unknown).unwrap_err();
    assert_eq!(unsure.class, FailureClass::Uncertain);
    assert_eq!(unsure.message, may_be_running(&paths, "it would not say").message);
    assert_eq!(
        unsure.message,
        "session work may already exist: it would not say. `nomux attach work` joins it if so"
    );
}

/// A daemon that was started is waited for until it answers or its time is up.
#[test]
fn a_started_daemon_is_waited_for_within_its_deadline() {
    let paths = paths();
    assert!(matches!(starting(&paths, &Liveness::Alive, 9, 5), Starting::Publishing));
    assert!(matches!(starting(&paths, &Liveness::Stale, 4, 5), Starting::Wait));
    assert!(matches!(starting(&paths, &Liveness::Stale, 5, 5), Starting::TimedOut));
    let unknown = Liveness::Unknown {
        trouble: trouble(Kind::Other, "x"),
        shortage: None,
    };
    let Starting::Refused(failure) = starting(&paths, &unknown, 4, 5) else {
        panic!("a daemon nobody can tell apart");
    };
    assert_eq!(failure.class, FailureClass::Uncertain);
}

#[test]
fn every_other_failure_is_classified() {
    let failure = relay_failed("No space left on device");
    assert_eq!(failure.class, FailureClass::PostConnect);
    assert_eq!(
        failure.message,
        "relaying to the session failed: No space left on device"
    );
    assert_eq!(
        lock_failed(trouble(Kind::ResourceBusy, "held")).class,
        FailureClass::Retryable
    );
    assert_eq!(
        lock_failed(trouble(Kind::InvalidData, "a fifo")).class,
        FailureClass::UnsafeHost
    );
    let late = start_timed_out(&paths(), Some("it broke"));
    assert_eq!(late.class, FailureClass::Uncertain);
    assert_eq!(
        late.message,
        "daemon for session work did not finish starting: it broke"
    );
    assert_eq!(
        start_timed_out(&paths(), None).message,
        "daemon for session work did not finish starting"
    );
    assert!(matches!(
        paths_failed(trouble(Kind::InvalidInput, "a typo")),
        RunError::Usage(_)
    ));
    let RunError::Classified(failure) = paths_failed(trouble(Kind::Other, "no home")) else {
        panic!("a host without a home");
    };
    assert_eq!(failure.class, FailureClass::UnsafeHost);
}

/// A run directory that cannot be trusted is the host's fault whatever was wrong with it, and
/// a daemon that was never launched left nothing behind.
#[test]
fn a_run_directory_and_a_launch_fail_in_classes_of_their_own() {
    for kind in [Kind::PermissionDenied, Kind::NotADirectory, Kind::ResourceBusy, Kind::Other] {
        let failure = run_dir_failed(trouble(kind, "mode 777"));
        assert_eq!(failure.class, FailureClass::UnsafeHost);
        assert_eq!(failure.message, "mode 777");
    }
    let failure = launch_failed("Resource temporarily unavailable".to_owned());
    assert_eq!(failure.class, FailureClass::StartupFailure);
    assert_eq!(failure.message, "Resource temporarily unavailable");
}
