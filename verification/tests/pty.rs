//! The terminal's child.

use nomux::pty::{
    as_pid, membership, nudge_repaint, outcome_of, pick_dir, pick_shell, session_is_empty,
    shell_program, stat_session, walk_pid, walk_session, Candidate, EndStep, Ending, Membership,
    Process, StatRead, HANGUP_GRACE,
};
use nomux::trouble::Kind;
use nomux::{ExitKind, WinSize};

#[test]
fn a_stat_line_parses_past_a_hostile_process_name() {
    let ordinary = b"42 (bash) S 1 42 42 34816 99 4194304 0 0";
    assert_eq!(stat_session(ordinary), Some((42, false)));

    // A name chosen to break a left-to-right split: it contains spaces, a closing paren, and
    // digits that would be read as the session id.
    let hostile = b"42 (evil) 1 2 3) S 1 42 7 34816 99 4194304 0 0";
    assert_eq!(
        stat_session(hostile),
        Some((7, false)),
        "the session must come from after the *last* paren"
    );

    // A name the kernel does not escape and UTF-8 cannot hold: read as a string the whole
    // line is undecodable.
    let not_utf8 = b"42 (ba\xffsh) S 1 42 42 34816 99 4194304 0 0";
    assert_eq!(
        stat_session(not_utf8),
        Some((42, false)),
        "a name outside UTF-8 must not hide the process from the walk"
    );

    let zombie = b"42 (sh) Z 1 42 42 0 -1 4194304 0 0";
    assert_eq!(stat_session(zombie), Some((42, true)));

    assert_eq!(stat_session(b"truncated"), None);
    assert_eq!(
        stat_session(b"42 (sh) S 1"),
        None,
        "too few fields to answer"
    );
}

/// A process with a line that puts it in `session`.
fn planted(pid: i32, session: i32) -> Process {
    Process {
        name: pid.to_string().into_bytes(),
        stat: StatRead::Line(
            format!("{pid} (sh) S 1 {pid} {session} 34816 99 4194304 0 0").into_bytes(),
        ),
    }
}

/// The one that walks must never appear in the set it is about to signal.
#[test]
fn the_walk_never_returns_this_process() {
    let found = [planted(101, 7), planted(102, 7)];
    assert_eq!(walk_session(&found, true, 7, 101), (true, vec![102]));
    assert_eq!(walk_pid(b"101", 101), None);
    assert_eq!(walk_pid(b"self", 101), None);
    assert_eq!(walk_pid(b"102", 101), Some(102));
    assert_eq!(as_pid(42), 42);
    assert_eq!(as_pid(u32::MAX), 0);
}

#[test]
fn an_expired_session_walk_is_incomplete_not_empty() {
    assert_eq!(walk_session(&[], false, 0, 1), (false, vec![]));
    assert!(!session_is_empty(&[], false, 0, 1));
    assert!(session_is_empty(&[], true, 0, 1));
}

/// A line the walk was refused leaves the session unsettled, exactly as a directory it could
/// not enumerate does.
#[test]
fn a_stat_the_walk_cannot_read_leaves_the_session_unsettled() {
    const SID: i32 = 4242;
    let gone = Process {
        name: b"103".to_vec(),
        stat: StatRead::Gone,
    };
    let mut found = vec![planted(101, SID), planted(102, 999), gone];
    assert_eq!(
        walk_session(&found, true, SID, 1),
        (true, vec![101]),
        "a walk that read every line it found is complete, and found the one member"
    );

    found.push(Process {
        name: b"104".to_vec(),
        stat: StatRead::Refused,
    });
    assert_eq!(
        walk_session(&found, true, SID, 1),
        (false, vec![101]),
        "a line the walk could not read is a member it could not rule out"
    );
    assert_eq!(walk_session(&found, true, 7, 1), (false, vec![]));
    assert!(!session_is_empty(&found, true, 7, 1), "so the session is not empty");
}

#[test]
fn a_member_is_live_and_in_the_session() {
    let line = |text: &str| StatRead::Line(text.as_bytes().to_vec());
    assert_eq!(membership(&line("1 (a) S 1 1 5 0"), 5), Membership::In);
    assert_eq!(membership(&line("1 (a) Z 1 1 5 0"), 5), Membership::Out);
    assert_eq!(membership(&line("1 (a) S 1 1 6 0"), 5), Membership::Out);
    assert_eq!(membership(&line("garbage"), 5), Membership::Unseen);
    assert_eq!(membership(&StatRead::Gone, 5), Membership::Out);
    assert_eq!(membership(&StatRead::Refused, 5), Membership::Unseen);
}

/// A settled session is sent nothing; the child is killed whatever was concluded.
#[test]
fn terminate_signals_only_a_live_session() {
    let (_, step) = Ending::begin(true, false, 0);
    assert_eq!(step, EndStep::HangUp { group: true }, "a live session is signalled");

    let child = StatRead::Line(b"101 (sh) Z 1 101 42 0".to_vec());
    assert_eq!(stat_session(b"101 (sh) Z 1 101 42 0"), Some((42, true)));
    assert_eq!(
        membership(&child, 42),
        Membership::Out,
        "the observed shell reserves an otherwise empty session"
    );
    let (mut ending, step) = Ending::begin(true, true, 0);
    assert_eq!(step, EndStep::KillChild);
    assert_eq!(ending.due(5), EndStep::KillChild);
    assert_eq!(ending.looked(true, false, 5), EndStep::KillChild);
}

/// A session that goes on a hangup is never killed.
#[test]
fn terminate_ends_a_settled_session_without_reaching_for_sigkill() {
    let (mut ending, step) = Ending::begin(true, false, 0);
    assert_eq!(step, EndStep::HangUp { group: true });
    assert_eq!(ending.due(1), EndStep::Look);
    assert_eq!(ending.looked(true, false, 1), EndStep::Wait);
    assert_eq!(ending.due(HANGUP_GRACE - 1), EndStep::Look);
    assert_eq!(ending.looked(false, true, HANGUP_GRACE - 1), EndStep::KillChild);
    assert_eq!(ending.due(HANGUP_GRACE), EndStep::KillChild);
}

/// One that does not is killed until it is gone or its second grace is.
#[test]
fn a_session_that_outlasts_its_hangup_is_killed() {
    let (mut ending, step) = Ending::begin(false, false, 0);
    assert_eq!(step, EndStep::HangUp { group: false });
    assert_eq!(ending.due(1), EndStep::Look);
    assert_eq!(ending.looked(true, false, 1), EndStep::Wait);
    assert_eq!(ending.due(HANGUP_GRACE), EndStep::KillGroup { group: true });
    assert_eq!(ending.looked(true, false, HANGUP_GRACE), EndStep::Wait);
    assert_eq!(ending.due(HANGUP_GRACE + 1), EndStep::KillAll);
    assert_eq!(ending.looked(true, false, 2 * HANGUP_GRACE), EndStep::KillChild);
}

/// A path that fits and can be used.
fn good(path: &str) -> Candidate {
    Candidate {
        path: path.as_bytes().to_vec(),
        fits: true,
        usable: true,
    }
}

#[test]
fn login_shell_takes_an_absolute_executable_and_falls_back_to_bin_sh() {
    let (shell, argv0) = pick_shell(Some(&good("/usr/bin/zsh")));
    assert_eq!((shell.as_slice(), argv0.as_str()), (b"/usr/bin/zsh".as_slice(), "-zsh"));
    let refused = [
        good("zsh"),
        good(""),
        Candidate { fits: false, ..good("/tmp") },
        Candidate { usable: false, ..good("/etc/passwd") },
    ];
    for shell in refused.iter().map(Some).chain([None]) {
        let (path, argv0) = pick_shell(shell);
        assert_eq!((path.as_slice(), argv0.as_str()), (b"/bin/sh".as_slice(), "-sh"));
    }
    let odd = Candidate { path: b"/opt/sh\xff".to_vec(), fits: true, usable: true };
    let (path, argv0) = pick_shell(Some(&odd));
    assert_eq!((path.as_slice(), argv0.as_str()), (b"/opt/sh\xff".as_slice(), "-sh"));
}

/// A shell that starts in `/` because its home was wrong is a visible regression, so every
/// step is pinned.
#[test]
fn child_dir_prefers_home_then_the_daemons_own_directory() {
    let home = good("/tmp");
    let gone = Candidate { fits: false, usable: false, ..good("/nonexistent-nomux-home") };
    assert_eq!(pick_dir(Some(&home), Some(&good("/"))), b"/tmp");
    assert_eq!(pick_dir(Some(&gone), Some(&good("/"))), b"/");
    assert_eq!(pick_dir(Some(&gone), Some(&gone)), b"/");
    assert_eq!(pick_dir(Some(&gone), Some(&home)), b"/tmp");
    assert_eq!(pick_dir(Some(&good(".")), Some(&home)), b"/tmp");
    assert_eq!(pick_dir(None, Some(&home)), b"/tmp");
    assert_eq!(pick_dir(None, None), b"/");
}

/// A home that is there and cannot be entered falls through to the connection's own
/// directory, and to `/` where there is nothing else.
#[test]
fn child_dir_falls_through_a_home_it_could_not_enter() {
    let shut = Candidate { usable: false, ..good("/home/me") };
    let absent = Candidate { fits: false, ..good("/gone") };
    assert_eq!(pick_dir(Some(&good("/home/me")), Some(&good("/tmp"))), b"/home/me");
    assert_eq!(pick_dir(Some(&shut), Some(&good("/tmp"))), b"/tmp");
    assert_eq!(pick_dir(Some(&shut), None), b"/");
    assert_eq!(pick_dir(Some(&shut), Some(&absent)), b"/");
}

#[test]
fn a_child_is_told_its_terminal_its_session_and_its_agent() {
    let program = shell_program(b"/bin/sh", b"-sh", b"/tmp", b"xterm", b"one", None).unwrap();
    assert_eq!(program.path, b"/bin/sh");
    assert_eq!(program.args, [b"-sh".to_vec()]);
    assert_eq!(program.dir.as_deref(), Some(b"/tmp".as_slice()));
    assert_eq!(program.overrides, [b"TERM=xterm".to_vec(), b"NOMUX_SESSION=one".to_vec()]);
    let program =
        shell_program(b"/bin/sh", b"-sh", b"/tmp", b"xterm", b"one", Some(b"/run/a")).unwrap();
    assert_eq!(program.overrides[2], b"SSH_AUTH_SOCK=/run/a");
    for bad in 0..6 {
        let part = |i: usize| if i == bad { b"\0".as_slice() } else { b"x" };
        let r = shell_program(part(0), part(1), part(2), part(3), part(4), Some(part(5)));
        assert_eq!(r.err(), Some(Kind::InvalidInput));
    }
}

#[test]
fn an_outcome_is_a_status_or_a_signal() {
    assert_eq!(outcome_of(Some(3), None), (3, ExitKind::Exited));
    assert_eq!(outcome_of(None, Some(9)), (9, ExitKind::Signalled));
    assert_eq!(outcome_of(None, None), (0, ExitKind::Signalled));
}

#[test]
fn a_nudge_is_one_column_narrower_where_there_is_one() {
    let win = |cols| WinSize { cols, rows: 24, xpixel: 1, ypixel: 2 };
    assert_eq!(nudge_repaint(win(80)), Some(win(79)));
    assert_eq!(nudge_repaint(win(2)), Some(win(1)));
    assert_eq!(nudge_repaint(win(1)), None);
    assert_eq!(nudge_repaint(win(0)), None);
}
