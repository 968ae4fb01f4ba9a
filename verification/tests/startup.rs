//! What a daemon decides on its way in.

use nomux::rundir::SessionPaths;
use nomux::startup::{
    bind_socket, contended, next_stage, ring_refused, stale_socket_stays, undo, Bind, Stage, Taken,
    Undo,
};
use nomux::trouble::{Kind, Trouble};

fn paths() -> SessionPaths {
    SessionPaths::in_dir(b"/run", "one").unwrap()
}

/// Losing the race to remove a stale socket must not turn a session that is perfectly
/// startable into one that refuses to start.
#[test]
fn a_stale_socket_collected_from_under_the_bind_still_starts_the_session() {
    assert_eq!(bind_socket(&paths(), Taken::Refused).unwrap(), Bind::Replace);
    assert!(
        !stale_socket_stays(Some(Kind::NotFound)),
        "a stale socket somebody else removed first is not a failure"
    );
    assert!(!stale_socket_stays(None));
    assert!(stale_socket_stays(Some(Kind::PermissionDenied)));
}

/// Only a refused connection is evidence of a dead daemon.
#[test]
fn only_a_dead_daemons_socket_is_replaced() {
    assert_eq!(bind_socket(&paths(), Taken::Absent).unwrap(), Bind::Fresh);
    let e = bind_socket(&paths(), Taken::Alive).unwrap_err();
    assert_eq!(e.kind, Kind::AddrInUse);
    assert_eq!(e.message, "session one is already running");
    let e = bind_socket(
        &paths(),
        Taken::Unknown(Trouble {
            kind: Kind::PermissionDenied,
            message: "Permission denied".to_owned(),
        }),
    )
    .unwrap_err();
    assert_eq!((e.kind, e.message.as_str()), (Kind::PermissionDenied, "Permission denied"));
}

#[test]
fn a_daemon_that_cannot_start_says_why() {
    let e = contended(&paths());
    assert_eq!(e.kind, Kind::ResourceBusy);
    assert_eq!(e.message, "session one is being started or removed by another process");
    let e = ring_refused(8192, "one", "memory allocation failed");
    assert_eq!(
        e.message,
        "could not reserve the 8192-byte output ring before starting session one: memory \
         allocation failed"
    );
}

/// A failure undoes what there is to undo, and no more.
#[test]
fn a_failed_stage_undoes_what_it_must() {
    for stage in Stage::ALL {
        let (own, handed) = match stage {
            Stage::CloseInherited
            | Stage::ResolvePaths
            | Stage::EnsureRunDir
            | Stage::TakeLock
            | Stage::Serve => (Undo::Nothing, Undo::Nothing),
            Stage::ReserveRing | Stage::LeaveDirectory | Stage::OpenNull | Stage::Bind => {
                (Undo::ReleaseName, Undo::ReleaseName)
            }
            Stage::Publish | Stage::Silence => (Undo::RemoveAll, Undo::RemovePublished),
        };
        assert_eq!((undo(stage, false), undo(stage, true)), (own, handed), "{stage:?}");
    }
    let mut walked = vec![Stage::CloseInherited];
    while let Some(stage) = next_stage(*walked.last().unwrap()) {
        walked.push(stage);
    }
    assert_eq!(walked, Stage::ALL);
}
