//! The run-directory layout.

use std::path::Path;

use nomux::rundir::{
    file_name, is_valid_session_id, label_body, parse_pid, pid_body, prefix_filled, read_label,
    readable_body, run_dir, session_id_of, session_ids, split_run_name, SessionPaths, DIR_MODE, FILE_MODE,
    MAX_PID_LEN, MAX_SESSION_ID_LEN, SOCKET_MODE, SUN_PATH_MAX,
};
use nomux::trouble::Kind;

/// The paths of `id` for a user whose home is `/home/me`.
fn paths_of(id: &str) -> Result<SessionPaths, Kind> {
    SessionPaths::new(None, Some(b"/home/me"), None, id).map_err(|e| e.kind)
}

/// A path as text.
fn text(path: Vec<u8>) -> String {
    String::from_utf8(path).expect("an ASCII path")
}

#[test]
fn session_ids_take_the_minted_forms_and_nothing_a_path_or_argv_could_not_carry() {
    for (id, valid) in [
        ("a", true),
        ("6f1a2b3c-4d5e-6f70-8192-a3b4c5d6e7f8", true),
        ("tab_7", true),
        ("", false),
        (".", false),
        ("..", false),
        ("/", false),
        ("a/b", false),
        ("../etc/passwd", false),
        ("a.b", false),
        ("a b", false),
        ("a\0b", false),
        ("-", false),
        ("-abc123", false),
        ("--label", false),
        ("café", false),
        ("🦀", false),
    ] {
        assert_eq!(is_valid_session_id(id), valid, "id {id:?}");
    }
    assert!(is_valid_session_id(&"x".repeat(MAX_SESSION_ID_LEN)));
    assert!(!is_valid_session_id(&"x".repeat(MAX_SESSION_ID_LEN + 1)));
}

#[test]
fn session_ids_are_sorted_and_deduplicated() {
    let names: Vec<Vec<u8>> = ["z.pid", "a.sock", "z.label", "m.agent", "a.lock", "invalid"]
        .iter()
        .map(|name| name.as_bytes().to_vec())
        .collect();
    assert_eq!(session_ids(&names), ["a", "m", "z"]);
    let names: Vec<Vec<u8>> = ["b.x", "ab.x", "a.x", "B.x", "aa.x", "_.x", "-.x"]
        .iter()
        .map(|name| name.as_bytes().to_vec())
        .collect();
    assert_eq!(session_ids(&names), ["B", "_", "a", "aa", "ab", "b"]);
    assert!(session_ids(&[]).is_empty());
}

#[test]
fn the_session_id_bound_is_the_one_the_document_gives() {
    assert_eq!(
        MAX_SESSION_ID_LEN, 64,
        "MAX_SESSION_ID_LEN is {MAX_SESSION_ID_LEN}, and a session id is capped at 64 bytes"
    );
}

/// The name-to-id rule, at the boundaries it turns on.
#[test]
fn a_run_file_names_the_session_it_belongs_to() {
    for (name, id) in [
        ("tab_7.sock", Some("tab_7")),
        ("tab_7.lock", Some("tab_7")),
        // The name this build has never heard of.
        ("tab_7.whatever-comes-next", Some("tab_7")),
        // Up to the *first* dot: a neighbour is not a prefix.
        ("tab_72.sock", Some("tab_72")),
        ("tab_7.ring.0", Some("tab_7")),
        ("tab_7.", Some("tab_7")),
        // The name is what is read, wherever the entry was resolved from.
        ("/run/user/1000/nomux/tab_7.sock", Some("tab_7")),
        // No extension is no session.
        ("tab_7", None),
        // Ids the layout could never have written.
        (".hidden", None),
        ("..sock", None),
        ("has space.sock", None),
    ] {
        assert_eq!(
            session_id_of(file_name(name.as_bytes())).as_deref(),
            id,
            "the session {name:?} belongs to"
        );
    }
    let long = format!("{}.sock", "x".repeat(65));
    assert_eq!(session_id_of(long.as_bytes()), None);
    assert_eq!(
        session_id_of(b"tab_7.\xff").as_deref(),
        Some("tab_7"),
        "only the id has to be UTF-8; an opaque suffix must not escape its cleanup"
    );
    assert_eq!(session_id_of(b"a\xffb.sock"), None, "no id is outside UTF-8");
    let (id, extension) = split_run_name(b"one.a.b").unwrap();
    assert_eq!((id.as_str(), extension), ("one", b"a.b".as_slice()));
}

#[test]
fn a_pidfile_body_parses_only_where_the_read_saw_all_of_it() {
    assert_eq!(parse_pid(b"1234\n"), Some(1234));
    assert_eq!(parse_pid(b" 1234 \n"), Some(1234));
    assert_eq!(parse_pid(b"0\n"), None);
    assert_eq!(parse_pid(b"-1\n"), None);
    assert_eq!(parse_pid(b"nonsense\n"), None);
    assert_eq!(parse_pid(b""), None);
    // The short write: `"3277"` of `"32770419\n"` is a smaller, plausible, live pid, and the
    // missing newline is the whole of what tells it from a pidfile.
    assert_eq!(parse_pid(b"3277"), None);
    assert_eq!(parse_pid(b"  1234  "), None);
    // Padded so the number straddles the end of the read, the prefix is a smaller,
    // plausible, live pid.
    let padded = format!("{}{}\n", " ".repeat(25), 32_770_419);
    assert_eq!(
        parse_pid(padded.get(..MAX_PID_LEN).unwrap().as_bytes()),
        None,
        "a prefix ending mid-number is not the number in the file"
    );
    assert_eq!(
        parse_pid(padded.as_bytes()),
        None,
        "and neither is a body that reached the bound at all"
    );
}

/// What is written for a pid is read back as that pid, up to the largest there is.
#[test]
fn a_pidfile_reads_back_what_was_written() {
    for pid in [1u32, 7, 42, 4_194_304, 2_147_483_647] {
        let body = pid_body(pid);
        assert_eq!(body, format!("{pid}\n"));
        assert_eq!(parse_pid(body.as_bytes()), Some(pid as i32));
    }
    assert_eq!(parse_pid(pid_body(u32::MAX).as_bytes()), None, "no pid is that large");
    assert_eq!(parse_pid("\u{2003}9\n".as_bytes()), Some(9));
    assert_eq!(parse_pid(b"\xff9\n"), None);
}

#[test]
fn invalid_ids_are_refused_before_any_path_is_built() {
    for id in ["../etc/passwd", "a/b", "", "."] {
        let err = paths_of(id).unwrap_err();
        assert_eq!(err, Kind::InvalidInput, "id {id:?}");
    }
    let e = SessionPaths::in_dir(b"/run", "a\u{1b}").unwrap_err();
    assert_eq!(
        e.message,
        "invalid session id \"a\\u{1b}\": expected 1..=64 bytes of [A-Za-z0-9_-], not starting \
         with -"
    );
}

/// The frozen layout: five siblings in one directory, sharing the id as stem and differing
/// only by extension.
#[test]
fn paths_are_siblings_sharing_the_id_stem() {
    let paths = paths_of("tab_7").unwrap();
    let expected = [
        (text(paths.socket()), "sock"),
        (text(paths.pid()), "pid"),
        (text(paths.lock()), "lock"),
        (text(paths.label()), "label"),
        (text(paths.agent()), "agent"),
    ];
    let socket = text(paths.socket());
    let parent = Path::new(&socket).parent().unwrap().to_path_buf();
    assert!(parent.ends_with("nomux") || parent.ends_with("nomux/run"));
    assert_eq!(paths.dir(), b"/home/me/.local/state/nomux/run");
    assert_eq!(paths.id(), "tab_7");

    for (path, extension) in expected {
        let path = Path::new(&path);
        assert_eq!(path.parent().unwrap(), parent, "{extension} is a sibling");
        assert_eq!(path.file_stem().unwrap(), "tab_7");
        assert_eq!(path.extension().unwrap(), extension);
    }
}

/// Persistent state first, the home it defaults to next, and the directory a logout empties
/// only as a last resort; a value that is not absolute is none.
#[test]
fn the_run_directory_prefers_what_survives_a_logout() {
    let (state, home, runtime) = (b"/s".as_slice(), b"/h/".as_slice(), b"/r".as_slice());
    let dir = |s, h, r| run_dir(s, h, r).map(text).map_err(|e| e.message);
    assert_eq!(dir(Some(state), Some(home), Some(runtime)).unwrap(), "/s/nomux/run");
    assert_eq!(dir(None, Some(home), Some(runtime)).unwrap(), "/h/.local/state/nomux/run");
    assert_eq!(
        dir(Some(b"s"), Some(home), Some(runtime)).unwrap(),
        "/h/.local/state/nomux/run"
    );
    assert_eq!(dir(Some(b""), Some(b"h"), Some(runtime)).unwrap(), "/r/nomux");
    assert_eq!(
        dir(None, None, Some(b"r")).unwrap_err(),
        "none of XDG_STATE_HOME, HOME or XDG_RUNTIME_DIR names an absolute path"
    );
}

/// An id is refused where its longer socket path could not be bound, to the byte.
#[test]
fn a_path_no_socket_could_be_bound_at_is_refused() {
    let dir = vec![b'/'; SUN_PATH_MAX - 1 - 4 - ".agent".len()];
    let paths = SessionPaths::in_dir(&dir, "abcd").expect("it fits exactly");
    assert!(paths.agent().len() <= SUN_PATH_MAX);
    let e = SessionPaths::in_dir(&dir, "abcde").unwrap_err();
    assert_eq!(e.kind, Kind::InvalidInput);
    assert_eq!(
        e.message,
        format!(
            "session id \"abcde\" is too long for {}: the run files need 108 bytes of the 107 a \
             unix socket path allows",
            "/".repeat(SUN_PATH_MAX - 11)
        )
    );
}

/// The spawn lock is the last file removed, over every name the session has and not only over
/// the five.
#[test]
fn the_spawn_lock_is_the_last_file_removed() {
    let paths = SessionPaths::in_dir(b"/run", "tab_7").unwrap();
    let names: Vec<Vec<u8>> = ["tab_7.sock", "tab_7.pid", "tab_7.lock", "tab_7.quota"]
        .iter()
        .map(|name| name.as_bytes().to_vec())
        .collect();
    let order = paths.removal_order(&names);
    assert_eq!(
        order.last(),
        Some(&paths.lock()),
        "the lock must outlive every file it protects"
    );
    let mut distinct = order.clone();
    distinct.sort_unstable();
    distinct.dedup();
    assert_eq!(distinct.len(), order.len(), "nothing is removed twice");
    for named in [paths.socket(), paths.pid(), paths.label(), paths.agent(), paths.lock()] {
        assert!(order.contains(&named), "{} is still removed", text(named));
    }
    assert!(
        order.contains(&b"/run/tab_7.quota".to_vec()),
        "a name this build has never heard of is still this session's"
    );
    // The names the layout knows are removed whatever the directory says.
    let order: Vec<String> = paths.removal_order(&[]).into_iter().map(text).collect();
    assert_eq!(
        order,
        [
            "/run/tab_7.sock", "/run/tab_7.pid", "/run/tab_7.label", "/run/tab_7.agent",
            "/run/tab_7.lock"
        ]
    );
}

/// Everything under the id goes and nothing else does, however much of the name a neighbour
/// shares.
#[test]
fn collection_takes_every_name_this_id_has_and_no_neighbours() {
    let paths = SessionPaths::in_dir(b"/run", "tab_7").unwrap();
    let mine: [&[u8]; 9] = [
        b"tab_7.sock",
        b"tab_7.pid",
        b"tab_7.lock",
        b"tab_7.label",
        b"tab_7.agent",
        b"tab_7.journal",
        b"tab_7.ring.0",
        b"tab_7.\xff",
        b"tab_7.",
    ];
    let theirs: [&[u8]; 5] = [b"tab_72.sock", b"tab_72.lock", b"tab_7", b"tab_.7", b"two.new"];
    let names: Vec<Vec<u8>> = mine.iter().chain(&theirs).map(|name| name.to_vec()).collect();
    let order = paths.removal_order(&names);
    let below = |name: &[u8]| [b"/run/".as_slice(), name].concat();
    assert!(
        order.contains(&below(b"tab_7.\xff")),
        "an opaque extension is still below the id"
    );
    let left: Vec<&[u8]> = names
        .iter()
        .map(Vec::as_slice)
        .filter(|name| !order.contains(&below(name)))
        .collect();
    assert_eq!(left, theirs, "collection reached past its own id");
    assert_eq!(order.len(), mine.len(), "and took nothing that is not there");
    assert_eq!(
        order[4..],
        [
            below(b"tab_7.journal"),
            below(b"tab_7.ring.0"),
            below(b"tab_7.\xff"),
            below(b"tab_7."),
            below(b"tab_7.lock")
        ]
    );
}

/// A label is sanitised on its way in and on its way out, and one nothing is left of is
/// removed rather than written empty.
#[test]
fn a_label_is_sanitised_both_ways() {
    assert_eq!(label_body("  build\u{7} ").as_deref(), Some("build"));
    assert_eq!(label_body("\u{7}"), None);
    assert_eq!(read_label(b"two\nlines"), "twolines");
    assert_eq!(read_label(b"caf\xc3"), "caf\u{fffd}");
    assert_eq!(read_label(b""), "");
}

/// A prefix is read until the file ends or the buffer is full.
#[test]
fn a_body_longer_than_one_read_still_arrives_whole() {
    assert_eq!(prefix_filled(0, 32, 5), (5, true));
    assert_eq!(prefix_filled(5, 32, 0), (5, false));
    assert_eq!(prefix_filled(5, 32, 27), (32, false));
    assert_eq!(prefix_filled(5, 32, 99), (32, false), "a count past the room is the room");
    assert_eq!(prefix_filled(0, 0, 0), (0, false));
}

#[test]
fn the_modes_are_owner_only() {
    assert_eq!((DIR_MODE, SOCKET_MODE, FILE_MODE), (0o700, 0o600, 0o600));
}

/// Something that is not a regular file is refused as bad *data*, never as bad input, which
/// would be scored as a malformed id.
#[test]
fn a_run_file_that_is_not_a_regular_file_is_not_a_usage_error() {
    for mode in [0o010_600, 0o040_700, 0o120_777, 0o140_600, 0o600] {
        let e = readable_body(mode).unwrap_err();
        assert_eq!(e.kind, Kind::InvalidData);
        assert_eq!(
            e.message,
            "it is not a regular file, so a read of it is a prefix rather than a body"
        );
    }
    assert!(readable_body(0o100_600).is_ok());
}
