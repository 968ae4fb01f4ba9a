//! What a daemon decides on its way in: whether an id is its to bind, and what is left
//! behind where it is not.
use vstd::prelude::*;

use crate::rundir::{PathsModel, SessionPaths};
use crate::text::{copy_text, digits, put, wide_decimal};
use crate::trouble::{comes_to, Kind, Trouble, TroubleModel};

verus! {

/// What asking the socket of an id came back with, as far as a daemon about to bind it
/// tells them apart.
#[derive(Debug)]
pub enum Taken {
    /// Somebody answers.
    Alive,
    /// The connection was refused: the socket of a daemon that is gone.
    Refused,
    /// There is no socket.
    Absent,
    /// Neither was established.
    Unknown(Trouble),
}

/// What binding an id begins with.
#[derive(Debug, Clone, Copy, PartialEq, Eq, Structural)]
pub enum Bind {
    /// Remove the socket a dead daemon left, then clear its pidfile and label, then bind.
    Replace,
    /// Clear the pidfile and label, then bind.
    Fresh,
}

/// The account of an id that is taken.
pub open spec fn running_for(paths: PathsModel) -> TroubleModel {
    TroubleModel {
        kind: Kind::AddrInUse,
        message: "session "@ + paths.id + " is already running"@,
    }
}

/// What binding an id begins with, or why it is not begun.
pub open spec fn binds(paths: PathsModel, taken: Taken) -> Result<Bind, TroubleModel> {
    match taken {
        Taken::Alive => Err(running_for(paths)),
        Taken::Refused => Ok(Bind::Replace),
        Taken::Absent => Ok(Bind::Fresh),
        Taken::Unknown(e) => Err(e@),
    }
}

/// Decides whether an id is this daemon's to bind. Only a refused connection is evidence of
/// a dead daemon whose socket may be replaced; removing anything else is how somebody's live
/// session gets destroyed.
pub fn bind_socket(paths: &SessionPaths, taken: Taken) -> (r: Result<Bind, Trouble>)
    ensures
        comes_to(r, binds(paths@, taken)),
        comes_to(
            r,
            match taken {
                Taken::Alive => Err(running_for(paths@)),
                Taken::Refused => Ok(Bind::Replace),
                Taken::Absent => Ok(Bind::Fresh),
                Taken::Unknown(e) => Err(e@),
            },
        ),
{
    match taken {
        Taken::Alive => {
            let mut message: String = copy_text("session ");
            put(&mut message, paths.id());
            put(&mut message, " is already running");
            Err(Trouble { kind: Kind::AddrInUse, message })
        },
        Taken::Refused => Ok(Bind::Replace),
        Taken::Absent => Ok(Bind::Fresh),
        Taken::Unknown(e) => Err(e),
    }
}

/// The stale socket is still there.
pub open spec fn stays(removal: Option<Kind>) -> bool {
    match removal {
        None => false,
        Some(kind) => kind != Kind::NotFound,
    }
}

/// Whether removing the stale socket failed in a way that matters: its being gone already is
/// the state the removal was to reach, and must not refuse a perfectly startable session.
pub fn stale_socket_stays(removal: Option<Kind>) -> (r: bool)
    ensures
        r == stays(removal),
        r == (removal is Some && removal != Some(Kind::NotFound)),
{
    match removal {
        None => false,
        Some(Kind::NotFound) => false,
        Some(_) => true,
    }
}

/// The refusal of a daemon whose id somebody else is starting or removing.
pub fn contended(paths: &SessionPaths) -> (r: Trouble)
    ensures
        r@ == (TroubleModel {
            kind: Kind::ResourceBusy,
            message: "session "@ + paths@.id
                + " is being started or removed by another process"@,
        }),
{
    let mut message: String = copy_text("session ");
    put(&mut message, paths.id());
    put(&mut message, " is being started or removed by another process");
    Trouble { kind: Kind::ResourceBusy, message }
}

/// The refusal of a daemon that has no room for its ring.
pub fn ring_refused(requested: usize, session_id: &str, said: &str) -> (r: Trouble)
    ensures
        r@ == (TroubleModel {
            kind: Kind::Other,
            message: "could not reserve the "@ + digits(requested as nat, 10)
                + "-byte output ring before starting session "@ + session_id@ + ": "@ + said@,
        }),
{
    let mut message: String = copy_text("could not reserve the ");
    put(&mut message, wide_decimal(requested as u128).as_str());
    put(&mut message, "-byte output ring before starting session ");
    put(&mut message, session_id);
    put(&mut message, ": ");
    put(&mut message, said);
    Trouble { kind: Kind::Other, message }
}

/// What a daemon does on its way in, one after the other.
#[derive(Debug, Clone, Copy, PartialEq, Eq, Structural)]
pub enum Stage {
    /// Close what it inherited and was not meant to.
    CloseInherited,
    /// Resolve the session's paths.
    ResolvePaths,
    /// See that the run directory is there and this user's.
    EnsureRunDir,
    /// Take the lock, or the one it was handed.
    TakeLock,
    /// Reserve the ring, while that can still be reported.
    ReserveRing,
    /// Remember where the child is to start, and let that directory go.
    LeaveDirectory,
    /// Open the null device.
    OpenNull,
    /// Bind the socket.
    Bind,
    /// Detach, arm the signals and write the files that say the session exists.
    Publish,
    /// Let go of the standard descriptors.
    Silence,
    /// Serve.
    Serve,
}

impl Stage {
    /// Every stage, in the order a daemon goes through them.
    pub const ALL: [Stage; 11] = [
        Stage::CloseInherited,
        Stage::ResolvePaths,
        Stage::EnsureRunDir,
        Stage::TakeLock,
        Stage::ReserveRing,
        Stage::LeaveDirectory,
        Stage::OpenNull,
        Stage::Bind,
        Stage::Publish,
        Stage::Silence,
        Stage::Serve,
    ];

    /// Where this stage stands in that order.
    pub open spec fn place(self) -> int {
        match self {
            Stage::CloseInherited => 0,
            Stage::ResolvePaths => 1,
            Stage::EnsureRunDir => 2,
            Stage::TakeLock => 3,
            Stage::ReserveRing => 4,
            Stage::LeaveDirectory => 5,
            Stage::OpenNull => 6,
            Stage::Bind => 7,
            Stage::Publish => 8,
            Stage::Silence => 9,
            Stage::Serve => 10,
        }
    }
}

/// What is undone where a stage failed.
#[derive(Debug, Clone, Copy, PartialEq, Eq, Structural)]
pub enum Undo {
    /// Nothing: nothing was made yet, or the session ends in its own way.
    Nothing,
    /// Give the lock's name back, where this acquisition made it.
    ReleaseName,
    /// Remove what was published, and leave the lock to whoever handed it over.
    RemovePublished,
    /// Remove everything, the lock last.
    RemoveAll,
}

/// What is undone where a stage failed.
pub open spec fn undone(stage: Stage, inherited: bool) -> Undo {
    if stage.place() <= Stage::TakeLock.place() || stage == Stage::Serve {
        Undo::Nothing
    } else if stage.place() <= Stage::Bind.place() {
        Undo::ReleaseName
    } else if inherited {
        Undo::RemovePublished
    } else {
        Undo::RemoveAll
    }
}

/// The stage behind one.
pub open spec fn follows(stage: Stage) -> Option<Stage> {
    if stage == Stage::Serve {
        None
    } else {
        Some(Stage::ALL@[stage.place() + 1])
    }
}

/// What is undone where `stage` failed. Until the lock is held nothing is this daemon's to
/// undo; until the socket is bound the lock's name is all there is; behind that the session
/// is on disk. A lock that was handed over is still held by who handed it over, and removing
/// its name would let another create and lock a different file.
pub fn undo(stage: Stage, inherited: bool) -> (r: Undo)
    ensures
        r == undone(stage, inherited),
        r == if stage.place() <= Stage::TakeLock.place() || stage == Stage::Serve {
            Undo::Nothing
        } else if stage.place() <= Stage::Bind.place() {
            Undo::ReleaseName
        } else if inherited {
            Undo::RemovePublished
        } else {
            Undo::RemoveAll
        },
{
    match stage {
        Stage::CloseInherited | Stage::ResolvePaths | Stage::EnsureRunDir | Stage::TakeLock
        | Stage::Serve => Undo::Nothing,
        Stage::ReserveRing | Stage::LeaveDirectory | Stage::OpenNull
        | Stage::Bind => Undo::ReleaseName,
        Stage::Publish | Stage::Silence => if inherited {
            Undo::RemovePublished
        } else {
            Undo::RemoveAll
        },
    }
}

/// The stage behind this one; nothing behind the last.
pub fn next_stage(stage: Stage) -> (r: Option<Stage>)
    ensures
        r == follows(stage),
        r == if stage == Stage::Serve {
            None
        } else {
            Some(Stage::ALL@[stage.place() + 1])
        },
{
    match stage {
        Stage::CloseInherited => Some(Stage::ResolvePaths),
        Stage::ResolvePaths => Some(Stage::EnsureRunDir),
        Stage::EnsureRunDir => Some(Stage::TakeLock),
        Stage::TakeLock => Some(Stage::ReserveRing),
        Stage::ReserveRing => Some(Stage::LeaveDirectory),
        Stage::LeaveDirectory => Some(Stage::OpenNull),
        Stage::OpenNull => Some(Stage::Bind),
        Stage::Bind => Some(Stage::Publish),
        Stage::Publish => Some(Stage::Silence),
        Stage::Silence => Some(Stage::Serve),
        Stage::Serve => None,
    }
}

// ---------------------------------------------------------------------------
// Laws
// ---------------------------------------------------------------------------

/// Everything that is done to an id is done under its lock: the lock is taken before the
/// ring is reserved, the socket bound or a file written, and the standard descriptors are
/// the last thing to go, so that every failure before it can be reported.
pub proof fn an_id_is_touched_only_under_its_lock(i: int)
    requires
        0 <= i < 11,
    ensures
        Stage::ALL@[i].place() == i,
        Stage::TakeLock.place() < Stage::ReserveRing.place(),
        Stage::ReserveRing.place() < Stage::Bind.place(),
        Stage::Bind.place() < Stage::Publish.place(),
        Stage::Publish.place() < Stage::Silence.place(),
        Stage::Silence.place() + 1 == Stage::Serve.place(),
{
}

/// A daemon binds an id nobody answers for and no other: it clears away a socket that
/// refused it, and touches none it could not ask; a session that runs is left running.
pub proof fn a_daemon_binds_only_what_nobody_answers_for(paths: PathsModel, e: Trouble)
    ensures
        binds(paths, Taken::Alive) matches Err(told) && told.kind == Kind::AddrInUse,
        binds(paths, Taken::Refused) == Ok::<Bind, TroubleModel>(Bind::Replace),
        binds(paths, Taken::Absent) == Ok::<Bind, TroubleModel>(Bind::Fresh),
        binds(paths, Taken::Unknown(e)) == Err::<Bind, TroubleModel>(e@),
{
}

/// A stale socket that is gone is gone, whoever removed it; any other failure leaves it.
pub proof fn a_socket_that_is_gone_does_not_stay(kind: Kind)
    ensures
        !stays(None),
        !stays(Some(Kind::NotFound)),
        kind != Kind::NotFound ==> stays(Some(kind)),
{
}

/// What a daemon that fails on its way in takes back is what it made: nothing before it holds
/// the lock and nothing once it serves, the lock's name until it has bound, and behind that
/// everything it published, with the lock last and only where nobody handed it over.
pub proof fn a_failed_start_takes_back_what_it_made(inherited: bool)
    ensures
        undone(Stage::CloseInherited, inherited) == Undo::Nothing,
        undone(Stage::ResolvePaths, inherited) == Undo::Nothing,
        undone(Stage::EnsureRunDir, inherited) == Undo::Nothing,
        undone(Stage::TakeLock, inherited) == Undo::Nothing,
        undone(Stage::ReserveRing, inherited) == Undo::ReleaseName,
        undone(Stage::LeaveDirectory, inherited) == Undo::ReleaseName,
        undone(Stage::OpenNull, inherited) == Undo::ReleaseName,
        undone(Stage::Bind, inherited) == Undo::ReleaseName,
        undone(Stage::Publish, true) == Undo::RemovePublished,
        undone(Stage::Publish, false) == Undo::RemoveAll,
        undone(Stage::Silence, true) == Undo::RemovePublished,
        undone(Stage::Silence, false) == Undo::RemoveAll,
        undone(Stage::Serve, inherited) == Undo::Nothing,
{
}

/// Each stage is followed by the one behind it, and serving by nothing.
pub proof fn the_stages_follow_each_other(stage: Stage)
    ensures
        follows(stage) is None <==> stage == Stage::Serve,
        follows(stage) matches Some(next) ==> next.place() == stage.place() + 1,
        follows(Stage::EnsureRunDir) == Some(Stage::TakeLock),
        follows(Stage::TakeLock) == Some(Stage::ReserveRing),
        follows(Stage::OpenNull) == Some(Stage::Bind),
        follows(Stage::Bind) == Some(Stage::Publish),
        follows(Stage::Silence) == Some(Stage::Serve),
{
}

} // verus!
