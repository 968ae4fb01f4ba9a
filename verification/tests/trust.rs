//! When a run directory may be trusted.

use nomux::rundir::DIR_MODE;
use nomux::trouble::Kind;
use nomux::trust::{
    check_run_dir, check_trusted_ancestors, ensure_run_dir, probe_failed, untightened, Ancestor,
    DirErrno, Found, Probe, Verdict,
};

/// This user.
const US: u32 = 1000;

/// A directory above, as it was found.
fn there(path: &str, owner: u32, mode: u32) -> Ancestor {
    Ancestor {
        path: path.as_bytes().to_vec(),
        found: Found::There {
            directory: true,
            owner,
            mode,
        },
    }
}

/// The directories above `/home/me/run`, all in order.
fn fine() -> Vec<Ancestor> {
    vec![there("/home/me", US, 0o755), there("/home", 0, 0o755), there("/", 0, 0o755)]
}

/// Checks `/home/me/run` below `above`.
fn check(above: &[Ancestor], probe: &Probe) -> Result<Verdict, (Kind, String)> {
    check_run_dir(US, b"/home/me/run", Some(US), above, probe).map_err(|e| (e.kind, e.message))
}

/// What may stand at a name.
#[derive(Clone, Copy)]
enum Node {
    Nothing,
    File,
    Symlink,
    Dir { owner: u32, mode: u32 },
}

/// What opening the node comes back with: a directory its owner cannot read does not open.
fn opened(node: Node) -> Probe {
    let denied = || (Kind::PermissionDenied, "Permission denied".to_owned());
    let refused = |number, symlink| {
        let (kind, said) = denied();
        probe_failed(number, symlink, kind, said)
    };
    match node {
        Node::Nothing => refused(DirErrno::Missing, false),
        Node::File => refused(DirErrno::NotDirectory, false),
        Node::Symlink => refused(DirErrno::Link, true),
        Node::Dir { mode, .. } if mode & 0o400 == 0 => refused(DirErrno::Other, false),
        Node::Dir { owner, mode } => Probe::Open {
            owner,
            mode: 0o040_000 | mode,
        },
    }
}

/// Whose the node is, where there is one.
fn owner_of(node: Node) -> Option<u32> {
    match node {
        Node::Nothing => None,
        Node::File | Node::Symlink => Some(US),
        Node::Dir { owner, .. } => Some(owner),
    }
}

/// Makes the directory at `dir` where nothing is, and puts its mode right where that is all
/// that is wrong.
fn ensured(dir: &str, above: &[Ancestor], node: &mut Node) -> Result<(), (Kind, String)> {
    let name = dir.as_bytes();
    let verdict = |node: Node| {
        check_run_dir(US, name, owner_of(node), above, &opened(node))
            .map_err(|e| (e.kind, e.message))
    };
    let mut found = verdict(*node)?;
    if found == Verdict::Absent {
        *node = Node::Dir {
            owner: US,
            mode: DIR_MODE,
        };
        found = verdict(*node)?;
    }
    if found == Verdict::Tighten {
        *node = Node::Dir {
            owner: US,
            mode: DIR_MODE,
        };
    }
    ensure_run_dir(name, found).map_err(|e| (e.kind, e.message))
}

/// The mode of the node, where it is a directory.
fn mode_of(node: Node) -> Option<u32> {
    match node {
        Node::Dir { mode, .. } => Some(mode),
        _ => None,
    }
}

#[test]
fn a_run_directory_is_created_owner_only_and_then_accepted_as_it_stands() {
    assert_eq!(check(&fine(), &Probe::Missing), Ok(Verdict::Absent));
    let made = Probe::Open { owner: US, mode: 0o040_700 };
    assert_eq!(check(&fine(), &made), Ok(Verdict::Fine));
    assert!(ensure_run_dir(b"/home/me/run", Verdict::Fine).is_ok());
    assert!(ensure_run_dir(b"/home/me/run", Verdict::Tighten).is_ok());
    let e = ensure_run_dir(b"/home/me/run", Verdict::Absent).unwrap_err();
    assert_eq!(e.kind, Kind::NotFound);
    assert_eq!(
        e.message,
        "run directory /home/me/run: it was removed as it was created; expected a directory \
         owned by this user, mode 700"
    );
}

/// Checking only the directory itself is a path race: another user able to rename its parent
/// can replace the checked name before it is used.
#[test]
fn a_run_directory_below_a_shared_ancestor_is_refused() {
    let mut above = fine();
    above[0] = there("/home/me", US, 0o40777);
    let (kind, said) = check(&above, &Probe::Open { owner: US, mode: 0o700 }).unwrap_err();
    assert_eq!(kind, Kind::PermissionDenied);
    assert_eq!(
        said,
        "run directory /home/me: ancestor mode 777 lets other users redirect the run directory; \
         expected a directory owned by this user, mode 700"
    );
    let mut node = Node::Dir {
        owner: US,
        mode: DIR_MODE,
    };
    let (again, told) = ensured("/home/me/run", &above, &mut node).unwrap_err();
    assert_eq!((again, told), (kind, said), "creation and the check share the refusal");
}

/// The one shared-directory exception: a sticky parent protects what this user or root owns,
/// and what is not there yet. It buys the entry itself nothing.
#[test]
fn a_run_directory_is_created_under_a_sticky_parent_and_its_entry_is_still_weighed() {
    let sticky = [there("/tmp", 0, 0o41777), there("/", 0, 0o755)];
    for child in [None, Some(US), Some(0)] {
        assert!(check_trusted_ancestors(US, child, &sticky).is_ok(), "{child:?}");
    }
    let e = check_trusted_ancestors(US, Some(4242), &sticky).unwrap_err();
    assert!(e.message.contains("ancestor mode 1777"), "{}", e.message);

    // What is missing in between is created, so what is above it is weighed for whoever is
    // below that.
    let dir = "/tmp/nomux/run";
    let missing = [
        Ancestor {
            path: b"/tmp/nomux".to_vec(),
            found: Found::Missing,
        },
        there("/tmp", 0, 0o41777),
        there("/", 0, 0o755),
    ];
    let made = [
        there("/tmp/nomux", US, 0o40700),
        there("/tmp", 0, 0o41777),
        there("/", 0, 0o755),
    ];
    let mut node = Node::Nothing;
    assert_eq!(ensured(dir, &missing, &mut node), Ok(()));
    assert_eq!(mode_of(node), Some(DIR_MODE), "created owner-only");
    assert_eq!(ensured(dir, &made, &mut node), Ok(()));
    assert_eq!(
        check_run_dir(US, dir.as_bytes(), Some(US), &made, &opened(node)).ok(),
        Some(Verdict::Fine),
        "and the check that changes nothing agrees"
    );

    // A mode letting others create inside is refused exactly as under any parent.
    let mut loose = Node::Dir {
        owner: US,
        mode: 0o777,
    };
    let (kind, said) = ensured(dir, &made, &mut loose).unwrap_err();
    assert_eq!(kind, Kind::PermissionDenied, "{said}");
    assert!(said.contains("lets other users create files in it"), "{said}");

    // A name somebody else planted first is refused rather than followed.
    let (kind, said) = ensured("/tmp/planted", &sticky, &mut Node::Symlink).unwrap_err();
    assert_eq!(kind, Kind::NotADirectory, "{said}");
    assert!(said.contains("it is a symlink"), "{said}");

    // And so is an entry belonging to another user.
    let mut theirs = Node::Dir {
        owner: 65_534,
        mode: DIR_MODE,
    };
    let (kind, said) = ensured(dir, &made, &mut theirs).unwrap_err();
    assert_eq!(kind, Kind::PermissionDenied, "{said}");
}

/// Neither a symlink nor a plain file is a run directory, and the symlink is the one that
/// matters: resolving it would tighten and then fill another user's directory.
#[test]
fn a_symlink_or_a_file_in_place_of_the_run_directory_is_refused() {
    let mut link = Node::Symlink;
    let (kind, said) = ensured("/home/me/nomux", &fine(), &mut link).unwrap_err();
    assert_eq!(kind, Kind::NotADirectory, "{said}");
    assert!(said.contains("/home/me/nomux"), "the refusal must name the path: {said}");
    assert!(said.contains("it is a symlink"), "and say which of the two it is: {said}");
    assert!(matches!(link, Node::Symlink), "what it names was never ours to change");

    let (kind, said) = ensured("/home/me/file", &fine(), &mut Node::File).unwrap_err();
    assert_eq!(kind, Kind::NotADirectory, "{said}");
    assert!(said.contains("it is not a directory"), "{said}");

    let above = [Ancestor {
        path: b"/home/me".to_vec(),
        found: Found::There {
            directory: false,
            owner: US,
            mode: 0o777,
        },
    }];
    let e = check_trusted_ancestors(US, None, &above).unwrap_err();
    assert_eq!(e.kind, Kind::NotADirectory);
    assert!(e.message.contains("an ancestor is not a real directory"));
}

/// Three answers for one field, separated by what can still be done about the mode.
#[test]
fn a_run_directory_mode_is_repaired_where_it_can_be_and_refused_where_it_cannot() {
    let dir = "/home/me/run";
    let mut node = Node::Nothing;
    assert_eq!(ensured(dir, &fine(), &mut node), Ok(()));
    assert_eq!(mode_of(node), Some(DIR_MODE));

    for mode in [0o755, 0o750, 0o701, 0o600, 0o500, 0o400, 0o2700, 0o1700] {
        let mut node = Node::Dir { owner: US, mode };
        assert_eq!(check(&fine(), &opened(node)), Ok(Verdict::Tighten), "mode {mode:o}");
        assert_eq!(ensured(dir, &fine(), &mut node), Ok(()));
        assert_eq!(mode_of(node), Some(DIR_MODE), "mode {mode:o} should be repaired");
    }

    for mode in [0o770, 0o702, 0o707, 0o722, 0o1777] {
        let mut node = Node::Dir { owner: US, mode };
        let (kind, said) = ensured(dir, &fine(), &mut node).unwrap_err();
        assert_eq!(kind, Kind::PermissionDenied, "{said}");
        assert!(
            said.contains(&format!("mode {mode:o} lets other users create files in it")),
            "the refusal must say which loosening it is: {said}"
        );
        assert_eq!(mode_of(node), Some(mode), "mode {mode:o} is refused, not repaired");
    }

    for mode in [0o300, 0o200, 0o000] {
        let mut node = Node::Dir { owner: US, mode };
        let (kind, said) = ensured(dir, &fine(), &mut node).unwrap_err();
        assert_eq!(kind, Kind::PermissionDenied, "{said}");
        assert!(
            said.contains("it could not be opened") && said.contains(dir),
            "a mode its owner cannot open is refused, naming the directory: {said}"
        );
        assert_eq!(mode_of(node), Some(mode), "mode {mode:o} is left as it stands");
    }
    let e = untightened(b"/r", Kind::PermissionDenied, "Operation not permitted");
    assert!(e.message.contains("its mode could not be tightened: Operation not permitted"));
}

#[test]
fn a_run_directory_owned_by_another_uid_is_refused() {
    let (kind, said) = check(&fine(), &Probe::Open { owner: 4242, mode: 0o700 }).unwrap_err();
    assert_eq!(kind, Kind::PermissionDenied);
    assert!(said.contains("it belongs to uid 4242"), "{said}");
    let mut theirs = Node::Dir {
        owner: 4242,
        mode: 0o755,
    };
    let (kind, said) = ensured("/home/me/run", &fine(), &mut theirs).unwrap_err();
    assert_eq!(kind, Kind::PermissionDenied, "{said}");
    assert!(said.contains("it belongs to uid"), "{said}");
    assert_eq!(mode_of(theirs), Some(0o755), "it was never ours to repair");
    let above = [there("/home/me", 4242, 0o755)];
    let e = check_trusted_ancestors(US, None, &above).unwrap_err();
    assert!(
        e.message.contains("ancestor owner uid 4242 is neither this user nor root"),
        "{}",
        e.message
    );
}

/// What could not be looked at is refused, with what the system said of it.
#[test]
fn what_cannot_be_examined_is_refused() {
    let (_, said) = check(
        &fine(),
        &Probe::Unopenable {
            kind: Kind::PermissionDenied,
            said: "Permission denied".to_owned(),
        },
    )
    .unwrap_err();
    assert!(said.contains("it could not be opened: Permission denied"), "{said}");
    let (_, said) = check(
        &fine(),
        &Probe::Unexamined {
            kind: Kind::Other,
            said: "EIO".to_owned(),
        },
    )
    .unwrap_err();
    assert!(said.contains("it could not be examined: EIO"), "{said}");
    let above = [Ancestor {
        path: b"/home".to_vec(),
        found: Found::Failed {
            kind: Kind::PermissionDenied,
            said: "EACCES".to_owned(),
        },
    }];
    let e = check_trusted_ancestors(US, None, &above).unwrap_err();
    assert_eq!(e.message, "/home: ancestor could not be examined: EACCES");
}

/// A failure to open the directory is told apart by its number, and nothing else.
#[test]
fn a_failed_probe_is_what_its_number_says() {
    let failed = |number, symlink| probe_failed(number, symlink, Kind::Other, "EIO".to_owned());
    assert!(matches!(failed(DirErrno::Missing, true), Probe::Missing));
    for symlink in [true, false] {
        for number in [DirErrno::NotDirectory, DirErrno::Link] {
            match failed(number, symlink) {
                Probe::NotADirectory { symlink: said } => assert_eq!(said, symlink),
                other => panic!("{other:?}"),
            }
        }
    }
    match failed(DirErrno::Other, true) {
        Probe::Unopenable { kind, said } => assert_eq!((kind, said.as_str()), (Kind::Other, "EIO")),
        other => panic!("{other:?}"),
    }
}
