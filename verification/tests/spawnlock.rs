//! The spawn lock.

use nomux::rundir::SessionPaths;
use nomux::spawnlock::{
    flock_failed, gives_name_back, inherit_spawn_lock, lock_open_failed, lock_spawn_until,
    locks_the_file_at, opens_what_is_there, removal_count, unlink_locked, Flocked, Inherited,
    LockErrno, LockStep, LockTry, Opened, Removed,
};
use nomux::trouble::{Kind, Trouble};

fn paths() -> SessionPaths {
    SessionPaths::in_dir(b"/run", "one").unwrap()
}

/// A regular lock file, made by this open or not.
fn file(created: bool) -> Opened {
    Opened::File {
        created,
        mode: 0o100_600,
    }
}

/// A lock nobody can open is refused rather than proceeded past.
#[test]
fn a_lock_nobody_can_open_is_refused_rather_than_proceeded_past() {
    let mut lock = LockTry::start();
    let denied = Opened::Denied {
        kind: Kind::PermissionDenied,
        said: "Permission denied".to_owned(),
    };
    let e = lock.opened(&paths(), &denied).unwrap_err();
    assert_eq!(e.kind, Kind::PermissionDenied);
    assert_eq!(
        e.message,
        "session one: spawn lock /run/one.lock cannot be held by anybody: Permission denied; \
         chmod it, or point XDG_RUNTIME_DIR at a filesystem with flock"
    );
    let unsupported = Flocked::Unsupported {
        kind: Kind::Other,
        said: "Operation not supported".to_owned(),
    };
    assert!(lock.flocked(&paths(), &unsupported).is_err());
}

/// A node that will not open at all, or is no file, is refused rather than waited out.
#[test]
fn a_lock_that_will_not_open_at_all_is_refused_rather_than_waited_out() {
    for node in [
        Opened::NoFile,
        Opened::File {
            created: false,
            mode: 0o010_600,
        },
        Opened::File {
            created: false,
            mode: 0o600,
        },
        Opened::File {
            created: true,
            mode: 0o140_600,
        },
    ] {
        let e = LockTry::start().opened(&paths(), &node).unwrap_err();
        assert_eq!(e.kind, Kind::InvalidData);
        assert_eq!(
            e.message,
            "session one: spawn lock /run/one.lock is not a regular file"
        );
    }
    let e = LockTry::start()
        .opened(
            &paths(),
            &Opened::ReadOnly {
                said: "Read-only file system".to_owned(),
            },
        )
        .unwrap_err();
    assert_eq!(e.kind, Kind::ReadOnlyFilesystem);
    assert!(e.message.contains("could not be created: Read-only file system"));
    let e = LockTry::start()
        .opened(
            &paths(),
            &Opened::Unexamined {
                kind: Kind::Other,
                said: "EIO".to_owned(),
            },
        )
        .unwrap_err();
    assert_eq!(e.message, "EIO");
}

/// Only the acquisition that made the lock's name gives it back.
#[test]
fn only_the_acquisition_that_made_the_lock_name_gives_it_back() {
    for created in [true, false] {
        let mut lock = LockTry::start();
        assert_eq!(lock.opened(&paths(), &file(created)).unwrap(), LockStep::Flock);
        assert_eq!(lock.flocked(&paths(), &Flocked::Interrupted).unwrap(), LockStep::Flock);
        assert_eq!(lock.flocked(&paths(), &Flocked::Held).unwrap(), LockStep::Compare);
        assert_eq!(lock.compared(true), LockStep::Held { created });
        assert_eq!(gives_name_back(created), created);
    }
}

/// A file replaced under the lock is taken once more, and then not now.
#[test]
fn a_replaced_lock_is_taken_once_more_and_then_given_up() {
    let mut lock = LockTry::start();
    assert_eq!(lock.opened(&paths(), &file(false)).unwrap(), LockStep::Flock);
    assert_eq!(lock.compared(false), LockStep::Open);
    assert_eq!(lock.opened(&paths(), &Opened::Missing).unwrap(), LockStep::NotNow);

    let mut lock = LockTry::start();
    assert_eq!(lock.opened(&paths(), &Opened::Missing).unwrap(), LockStep::Open);
    assert_eq!(lock.opened(&paths(), &file(true)).unwrap(), LockStep::Flock);
    assert_eq!(lock.compared(false), LockStep::NotNow);

    let mut lock = LockTry::start();
    assert_eq!(lock.opened(&paths(), &Opened::Failed).unwrap(), LockStep::NotNow);
    assert_eq!(lock.flocked(&paths(), &Flocked::Busy).unwrap(), LockStep::NotNow);
}

#[test]
fn waiting_for_a_held_spawn_lock_is_bounded() {
    assert!(lock_spawn_until(&paths(), 4, 5).is_ok());
    let e = lock_spawn_until(&paths(), 5, 5).unwrap_err();
    assert_eq!(e.kind, Kind::ResourceBusy);
    assert_eq!(e.message, "timed out waiting for session one's spawn lock");
}

/// A malformed descriptor is never reported as a malformed id.
#[test]
fn a_malformed_lock_fd_is_never_reported_as_a_malformed_id() {
    let closed = Inherited::NotOpen {
        kind: Kind::Other,
        said: "Bad file descriptor".to_owned(),
    };
    let e = inherit_spawn_lock(&paths(), 19, &closed).unwrap_err();
    assert_ne!(e.kind, Kind::InvalidInput);
    assert_eq!(
        e.message,
        "session one: --lock-fd 19 is not an open descriptor for /run/one.lock: Bad file \
         descriptor"
    );
    for (found, said) in [
        (
            Inherited::Open {
                mode: 0o020_600,
                named: true,
            },
            "session one: spawn lock /run/one.lock is not a regular file",
        ),
        (
            Inherited::Open {
                mode: 0o100_600,
                named: false,
            },
            "session one: inherited lock does not name /run/one.lock",
        ),
        (
            Inherited::Unlocked {
                mode: 0o010_600,
                kind: Kind::WouldBlock,
                said: "busy".to_owned(),
            },
            "session one: spawn lock /run/one.lock is not a regular file",
        ),
    ] {
        let e = inherit_spawn_lock(&paths(), 19, &found).unwrap_err();
        assert_eq!((e.kind, e.message.as_str()), (Kind::InvalidData, said));
    }
    let unusable = Inherited::Unusable {
        kind: Kind::WouldBlock,
        said: "busy".to_owned(),
    };
    assert_eq!(inherit_spawn_lock(&paths(), 19, &unusable).unwrap_err().message, "busy");
    let held = Inherited::Unlocked {
        mode: 0o100_600,
        kind: Kind::WouldBlock,
        said: "held".to_owned(),
    };
    let e = inherit_spawn_lock(&paths(), 19, &held).unwrap_err();
    assert_eq!((e.kind, e.message.as_str()), (Kind::WouldBlock, "held"));
    let ours = Inherited::Open {
        mode: 0o100_400,
        named: true,
    };
    assert!(inherit_spawn_lock(&paths(), 19, &ours).is_ok());
}

/// A directory that will not read is reported before anything else, and otherwise the first
/// file that stayed; one that was not there is what removing it is for.
#[test]
fn a_directory_that_will_not_read_still_removes_the_names_it_knows() {
    let paths = paths();
    let order = paths.removal_order(&[]);
    let failed = |said: &str| Removed::Failed {
        kind: Kind::PermissionDenied,
        said: said.to_owned(),
    };
    let came = [Removed::Gone, failed("first"), Removed::Absent, failed("second"), Removed::Gone];
    assert!(unlink_locked(&paths, None, &order, &[Removed::Absent, Removed::Gone]).is_ok());
    let e = unlink_locked(&paths, None, &order, &came).unwrap_err();
    assert_eq!(e.message, "session one: /run/one.pid could not be removed: first");
    let scan = Trouble {
        kind: Kind::NotFound,
        message: "No such file or directory".to_owned(),
    };
    let e = unlink_locked(&paths, Some(&scan), &order, &came).unwrap_err();
    assert_eq!(
        e.message,
        "session one: /run could not be scanned: No such file or directory"
    );
    assert_eq!(removal_count(order.len(), true), 5);
    assert_eq!(removal_count(order.len(), false), 4, "the lock comes last and stays");
}

/// A lock is on the file and not on the name.
#[test]
fn a_lock_is_on_the_file_at_the_path_or_on_none() {
    assert!(locks_the_file_at(Some((1, 2)), Some((1, 2))));
    for (held, named) in [
        (Some((1, 2)), Some((1, 3))),
        (Some((1, 2)), Some((2, 2))),
        (None, Some((1, 2))),
        (Some((1, 2)), None),
        (None, None),
    ] {
        assert!(!locks_the_file_at(held, named));
    }
}

/// Every number there is a name for.
const NUMBERS: [LockErrno; 13] = [
    LockErrno::Exists,
    LockErrno::ReadOnly,
    LockErrno::Access,
    LockErrno::Permission,
    LockErrno::Link,
    LockErrno::NoDevice,
    LockErrno::NotDirectory,
    LockErrno::Missing,
    LockErrno::Interrupted,
    LockErrno::WouldBlock,
    LockErrno::NoLocks,
    LockErrno::Unsupported,
    LockErrno::Other,
];

/// What describes the file is said of it, and what describes the moment is not.
#[test]
fn a_failure_of_the_lock_is_about_the_file_or_about_the_moment() {
    for number in NUMBERS {
        assert_eq!(opens_what_is_there(number), number == LockErrno::Exists);
        let opened = lock_open_failed(number, Kind::PermissionDenied, "said".to_owned());
        match (number, opened) {
            (LockErrno::ReadOnly, Opened::ReadOnly { said }) => assert_eq!(said, "said"),
            (LockErrno::Access | LockErrno::Permission, Opened::Denied { kind, said }) => {
                assert_eq!((kind, said.as_str()), (Kind::PermissionDenied, "said"));
            }
            (
                LockErrno::Link | LockErrno::NoDevice | LockErrno::NotDirectory,
                Opened::NoFile,
            )
            | (LockErrno::Missing, Opened::Missing)
            | (
                LockErrno::Exists
                | LockErrno::Interrupted
                | LockErrno::WouldBlock
                | LockErrno::NoLocks
                | LockErrno::Unsupported
                | LockErrno::Other,
                Opened::Failed,
            ) => {}
            other => panic!("{other:?}"),
        }
        let flocked = flock_failed(number, Kind::Other, "said".to_owned());
        match (number, flocked) {
            (LockErrno::Unsupported, Flocked::Unsupported { kind, said }) => {
                assert_eq!((kind, said.as_str()), (Kind::Other, "said"));
            }
            (LockErrno::Interrupted, Flocked::Interrupted) => {}
            (LockErrno::Unsupported | LockErrno::Interrupted, other) => panic!("{other:?}"),
            (_, Flocked::Busy) => {}
            other => panic!("{other:?}"),
        }
    }
}
