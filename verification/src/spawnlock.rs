//! The lock that serialises starting and removing one session, and the removal done
//! under it.
//!
//! Collection takes it as well as a spawn, because a file unlinked while it is locked stops
//! being a mutex: the next process to ask creates a new file at the same path, locks that,
//! and both are certain they hold the only lock there is.
use vstd::prelude::*;

use crate::rundir::{is_regular, regular, PathsModel, SessionPaths, LOCK_ATTEMPTS};
use crate::text::{copy_text, lossy, lossy_text, put, signed_decimal, signed_digits};
use crate::trouble::{comes_to, Kind, Trouble, TroubleModel};

verus! {

/// How long to wait between two attempts, in nanoseconds.
pub const LOCK_POLL_INTERVAL: u64 = 20_000_000;

/// What opening the lock file came back with.
#[derive(Debug)]
pub enum Opened {
    /// A descriptor.
    File {
        /// Whether this open made the name.
        created: bool,
        /// Its mode, its type among it.
        mode: u32,
    },
    /// A descriptor of something that could not be looked at.
    Unexamined {
        /// What kind of failure it was.
        kind: Kind,
        /// What the system said of it.
        said: String,
    },
    /// The name is absent, and the filesystem takes no writes.
    ReadOnly {
        /// What the system said of it.
        said: String,
    },
    /// A file no process of this user can open.
    Denied {
        /// What kind of failure it was.
        kind: Kind,
        /// What the system said of it.
        said: String,
    },
    /// A node that cannot be opened at all.
    NoFile,
    /// The name went between the create that found it and the open.
    Missing,
    /// Something about this moment rather than about the file.
    Failed,
}

/// What locking it came back with.
#[derive(Debug)]
pub enum Flocked {
    /// It is locked.
    Held,
    /// A signal arrived instead.
    Interrupted,
    /// Somebody else holds it, or it failed for the moment.
    Busy,
    /// This filesystem has no such locks.
    Unsupported {
        /// What kind of failure it was.
        kind: Kind,
        /// What the system said of it.
        said: String,
    },
}

/// Why opening or locking the lock file failed, as far as anything depends on it.
#[derive(Debug, Clone, Copy, PartialEq, Eq, Structural)]
pub enum LockErrno {
    /// The name is there already.
    Exists,
    /// The filesystem takes no writes.
    ReadOnly,
    /// The mode does not allow it.
    Access,
    /// The system does not allow it.
    Permission,
    /// A link, which is not followed.
    Link,
    /// A node with nothing behind it to open.
    NoDevice,
    /// Something on the way is not a directory.
    NotDirectory,
    /// Nothing is there.
    Missing,
    /// A signal arrived.
    Interrupted,
    /// Somebody else holds the lock.
    WouldBlock,
    /// The system has no locks left.
    NoLocks,
    /// The filesystem has no such locks.
    Unsupported,
    /// Anything else.
    Other,
}

/// Whether a create that failed is followed by opening what is there: only where it failed
/// because something is.
pub fn opens_what_is_there(number: LockErrno) -> (r: bool)
    ensures
        r == (number == LockErrno::Exists),
{
    number == LockErrno::Exists
}

/// What a failure to open the lock file comes to. A filesystem that takes no writes and a
/// denial are said with what the system said; a node that refuses to open describes the name
/// as it stands; a name that went is free again; and everything else is about this moment
/// rather than about the file.
pub fn lock_open_failed(number: LockErrno, kind: Kind, said: String) -> (r: Opened)
    ensures
        r == match number {
            LockErrno::ReadOnly => Opened::ReadOnly { said },
            LockErrno::Access | LockErrno::Permission => Opened::Denied { kind, said },
            LockErrno::Link | LockErrno::NoDevice | LockErrno::NotDirectory => Opened::NoFile,
            LockErrno::Missing => Opened::Missing,
            _ => Opened::Failed,
        },
{
    match number {
        LockErrno::ReadOnly => Opened::ReadOnly { said },
        LockErrno::Access | LockErrno::Permission => Opened::Denied { kind, said },
        LockErrno::Link | LockErrno::NoDevice | LockErrno::NotDirectory => Opened::NoFile,
        LockErrno::Missing => Opened::Missing,
        _ => Opened::Failed,
    }
}

/// What a failure to lock it comes to. A signal is no answer; a filesystem without such
/// locks is a verdict on the file; and everything else, a system out of lock records among
/// it, is settled toward the reading that claims nothing and costs one more attempt.
pub fn flock_failed(number: LockErrno, kind: Kind, said: String) -> (r: Flocked)
    ensures
        r == match number {
            LockErrno::Interrupted => Flocked::Interrupted,
            LockErrno::Unsupported => Flocked::Unsupported { kind, said },
            _ => Flocked::Busy,
        },
{
    match number {
        LockErrno::Interrupted => Flocked::Interrupted,
        LockErrno::Unsupported => Flocked::Unsupported { kind, said },
        _ => Flocked::Busy,
    }
}

/// What an attempt does next.
#[derive(Debug, Clone, Copy, PartialEq, Eq, Structural)]
pub enum LockStep {
    /// Open the lock file.
    Open,
    /// Lock what was opened.
    Flock,
    /// See whether what is locked is still the file at the path.
    Compare,
    /// The lock is held.
    Held {
        /// Whether this acquisition made the name, and so may take it back.
        created: bool,
    },
    /// Not this time; asking again is what it has earned.
    NotNow,
}

/// An attempt to take the lock.
#[derive(Debug)]
pub struct LockTry {
    /// How many tries are left, this one counted.
    pub left: usize,
    /// Whether the file at hand was made by this attempt.
    pub created: bool,
}

/// The account of a lock that cannot be held by anybody.
pub open spec fn unlockable_for(paths: PathsModel, kind: Kind, said: Seq<char>) -> TroubleModel {
    TroubleModel {
        kind,
        message: "session "@ + paths.id + ": spawn lock "@ + lossy(paths.file("lock"@))
            + " cannot be held by anybody: "@ + said
            + "; chmod it, or point XDG_RUNTIME_DIR at a filesystem with flock"@,
    }
}

/// The account of a lock that cannot be created.
pub open spec fn read_only_for(paths: PathsModel, said: Seq<char>) -> TroubleModel {
    TroubleModel {
        kind: Kind::ReadOnlyFilesystem,
        message: "session "@ + paths.id + ": spawn lock "@ + lossy(paths.file("lock"@))
            + " could not be created: "@ + said
            + "; the run directory is on a read-only filesystem, so point it elsewhere"@,
    }
}

/// The account of a lock that is no file.
pub open spec fn no_lock_file_for(paths: PathsModel) -> TroubleModel {
    TroubleModel {
        kind: Kind::InvalidData,
        message: "session "@ + paths.id + ": spawn lock "@ + lossy(paths.file("lock"@))
            + " is not a regular file"@,
    }
}

/// `session <id>: spawn lock <path>`, which every account of the lock begins with.
fn lock_account(paths: &SessionPaths) -> (r: String)
    ensures
        r@ == "session "@ + paths@.id + ": spawn lock "@ + lossy(paths@.file("lock"@)),
{
    let mut message: String = copy_text("session ");
    put(&mut message, paths.id());
    put(&mut message, ": spawn lock ");
    put(&mut message, lossy_text(paths.lock().as_slice()).as_str());
    message
}

/// Refuses a lock nobody can hold: going ahead without one is how two daemons come to claim
/// one id and unlink each other's live sessions.
fn unlockable(paths: &SessionPaths, kind: Kind, said: &str) -> (r: Trouble)
    ensures
        r@ == unlockable_for(paths@, kind, said@),
{
    let mut message: String = lock_account(paths);
    put(&mut message, " cannot be held by anybody: ");
    put(&mut message, said);
    put(&mut message, "; chmod it, or point XDG_RUNTIME_DIR at a filesystem with flock");
    Trouble { kind, message }
}

/// Refuses a directory nothing can be created in.
fn read_only_lock(paths: &SessionPaths, said: &str) -> (r: Trouble)
    ensures
        r@ == read_only_for(paths@, said@),
{
    let mut message: String = lock_account(paths);
    put(&mut message, " could not be created: ");
    put(&mut message, said);
    put(&mut message, "; the run directory is on a read-only filesystem, so point it elsewhere");
    Trouble { kind: Kind::ReadOnlyFilesystem, message }
}

/// Refuses a node that cannot serve as the mutex.
fn not_a_lock_file(paths: &SessionPaths) -> (r: Trouble)
    ensures
        r@ == no_lock_file_for(paths@),
{
    let mut message: String = lock_account(paths);
    put(&mut message, " is not a regular file");
    Trouble { kind: Kind::InvalidData, message }
}

impl LockTry {
    /// Something is left to try, and never more than there was.
    pub open spec fn wf(self) -> bool {
        1 <= self.left <= LOCK_ATTEMPTS
    }

    /// What a try that came to nothing is followed by.
    pub open spec fn again(self) -> LockStep {
        if self.left > 1 {
            LockStep::Open
        } else {
            LockStep::NotNow
        }
    }

    /// A try that came to nothing, counted.
    pub open spec fn spent(self) -> LockTry {
        if self.left > 1 {
            LockTry { left: (self.left - 1) as usize, ..self }
        } else {
            self
        }
    }

    /// What opening the lock file leads to.
    pub open spec fn after_open(self, paths: PathsModel, opened: Opened) -> (LockTry, Result<
        LockStep,
        TroubleModel,
    >) {
        match opened {
            Opened::File { created, mode } => if is_regular(mode) {
                (LockTry { created, ..self }, Ok(LockStep::Flock))
            } else {
                (self, Err(no_lock_file_for(paths)))
            },
            Opened::Unexamined { kind, said } => (
                self,
                Err(TroubleModel { kind, message: said@ }),
            ),
            Opened::ReadOnly { said } => (self, Err(read_only_for(paths, said@))),
            Opened::Denied { kind, said } => (self, Err(unlockable_for(paths, kind, said@))),
            Opened::NoFile => (self, Err(no_lock_file_for(paths))),
            Opened::Missing => (self.spent(), Ok(self.again())),
            Opened::Failed => (self, Ok(LockStep::NotNow)),
        }
    }

    /// What locking it leads to.
    pub open spec fn after_flock(self, paths: PathsModel, flocked: Flocked) -> Result<
        LockStep,
        TroubleModel,
    > {
        match flocked {
            Flocked::Held => Ok(LockStep::Compare),
            Flocked::Interrupted => Ok(LockStep::Flock),
            Flocked::Busy => Ok(LockStep::NotNow),
            Flocked::Unsupported { kind, said } => Err(unlockable_for(paths, kind, said@)),
        }
    }

    /// What comparing it with the file at the path leads to.
    pub open spec fn after_compare(self, same_file: bool) -> (LockTry, LockStep) {
        if same_file {
            (self, LockStep::Held { created: self.created })
        } else {
            (self.spent(), self.again())
        }
    }

    /// A first try.
    pub fn start() -> (r: LockTry)
        ensures
            r.wf(),
            r == (LockTry { left: LOCK_ATTEMPTS, created: false }),
    {
        LockTry { left: LOCK_ATTEMPTS, created: false }
    }

    /// Counts a try that came to nothing, and says what follows it.
    fn retry(&mut self) -> (r: LockStep)
        requires
            old(self).wf(),
        ensures
            final(self).wf(),
            *final(self) == old(self).spent(),
            r == old(self).again(),
    {
        if self.left > 1 {
            self.left = self.left - 1;
            LockStep::Open
        } else {
            LockStep::NotNow
        }
    }

    /// Goes on from what opening the lock file came back with.
    ///
    /// What is about the *moment* is answered by not now, and asking again is what it has
    /// earned. What is about the file or the filesystem is still there next time, and none
    /// of it may be answered by going ahead.
    pub fn opened(&mut self, paths: &SessionPaths, opened: &Opened) -> (r: Result<
        LockStep,
        Trouble,
    >)
        requires
            old(self).wf(),
        ensures
            final(self).wf(),
            comes_to(r, old(self).after_open(paths@, *opened).1),
            *final(self) == old(self).after_open(paths@, *opened).0,
            comes_to(
                r,
                match *opened {
                    Opened::File { mode, .. } => if is_regular(mode) {
                        Ok(LockStep::Flock)
                    } else {
                        Err(no_lock_file_for(paths@))
                    },
                    Opened::Unexamined { kind, said } => Err(
                        (TroubleModel { kind, message: said@ }),
                    ),
                    Opened::ReadOnly { said } => Err(read_only_for(paths@, said@)),
                    Opened::Denied { kind, said } => Err(unlockable_for(paths@, kind, said@)),
                    Opened::NoFile => Err(no_lock_file_for(paths@)),
                    Opened::Missing => Ok(old(self).again()),
                    Opened::Failed => Ok(LockStep::NotNow),
                },
            ),
            *final(self) == match *opened {
                Opened::File { created, mode } => if is_regular(mode) {
                    LockTry { created, ..*old(self) }
                } else {
                    *old(self)
                },
                Opened::Missing => old(self).spent(),
                _ => *old(self),
            },
    {
        match opened {
            Opened::File { created, mode } => {
                if !regular(*mode) {
                    return Err(not_a_lock_file(paths));
                }
                self.created = *created;
                Ok(LockStep::Flock)
            },
            Opened::Unexamined { kind, said } => Err(
                Trouble { kind: *kind, message: copy_text(said.as_str()) },
            ),
            Opened::ReadOnly { said } => Err(read_only_lock(paths, said.as_str())),
            Opened::Denied { kind, said } => Err(unlockable(paths, *kind, said.as_str())),
            Opened::NoFile => Err(not_a_lock_file(paths)),
            Opened::Missing => Ok(self.retry()),
            Opened::Failed => Ok(LockStep::NotNow),
        }
    }

    /// Goes on from what locking it came back with.
    pub fn flocked(&self, paths: &SessionPaths, flocked: &Flocked) -> (r: Result<LockStep, Trouble>)
        ensures
            comes_to(r, self.after_flock(paths@, *flocked)),
            comes_to(
                r,
                match *flocked {
                    Flocked::Held => Ok(LockStep::Compare),
                    Flocked::Interrupted => Ok(LockStep::Flock),
                    Flocked::Busy => Ok(LockStep::NotNow),
                    Flocked::Unsupported { kind, said } => Err(
                        unlockable_for(paths@, kind, said@),
                    ),
                },
            ),
    {
        match flocked {
            Flocked::Held => Ok(LockStep::Compare),
            Flocked::Interrupted => Ok(LockStep::Flock),
            Flocked::Busy => Ok(LockStep::NotNow),
            Flocked::Unsupported { kind, said } => Err(unlockable(paths, *kind, said.as_str())),
        }
    }

    /// Goes on from whether what is locked is still the file at the path. A file collected
    /// while this attempt waited for it is one nobody can reach any more.
    pub fn compared(&mut self, same_file: bool) -> (r: LockStep)
        requires
            old(self).wf(),
        ensures
            final(self).wf(),
            (*final(self), r) == old(self).after_compare(same_file),
            r == if same_file {
                (LockStep::Held { created: old(self).created })
            } else {
                old(self).again()
            },
            *final(self) == if same_file {
                *old(self)
            } else {
                old(self).spent()
            },
    {
        if same_file {
            LockStep::Held { created: self.created }
        } else {
            self.retry()
        }
    }
}

/// Both could be looked at, and are one file.
pub open spec fn is_the_same_file(held: Option<(u64, u64)>, named: Option<(u64, u64)>) -> bool {
    held is Some && held == named
}

/// Whether what is locked is the file at the path now, each known by its device and its
/// number there: a lock is on the file and not on the name. Whatever could not be looked at
/// is not, which costs one more try and never a lock that is not held.
pub fn locks_the_file_at(held: Option<(u64, u64)>, named: Option<(u64, u64)>) -> (r: bool)
    ensures
        r == is_the_same_file(held, named),
        r == (held is Some && held == named),
{
    match (held, named) {
        (Some((held_dev, held_ino)), Some((dev, ino))) => held_dev == dev && held_ino == ino,
        _ => false,
    }
}

/// Whether a lock that could not be had is waited for on.
pub open spec fn waits_on(paths: PathsModel, now: u64, deadline: u64) -> Result<(), TroubleModel> {
    if now < deadline {
        Ok(())
    } else {
        Err(
            TroubleModel {
                kind: Kind::ResourceBusy,
                message: "timed out waiting for session "@ + paths.id + "'s spawn lock"@,
            },
        )
    }
}

/// Says whether to go on waiting for a lock that could not be had: until the deadline.
pub fn lock_spawn_until(paths: &SessionPaths, now: u64, deadline: u64) -> (r: Result<(), Trouble>)
    ensures
        comes_to(r, waits_on(paths@, now, deadline)),
        comes_to(
            r,
            if now >= deadline {
                Err(
                    (TroubleModel {
                        kind: Kind::ResourceBusy,
                        message: "timed out waiting for session "@ + paths@.id + "'s spawn lock"@,
                    }),
                )
            } else {
                Ok(())
            },
        ),
{
    if now < deadline {
        return Ok(());
    }
    let mut message: String = copy_text("timed out waiting for session ");
    put(&mut message, paths.id());
    put(&mut message, "'s spawn lock");
    Err(Trouble { kind: Kind::ResourceBusy, message })
}

/// Whether a startup that failed gives the lock's name back: only where its own acquisition
/// made it. Another's may be a mutex somebody still has standing on.
pub fn gives_name_back(created: bool) -> (r: bool)
    ensures
        r == created,
{
    created
}

/// What the descriptor a daemon was started with turned out to be.
#[derive(Debug)]
pub enum Inherited {
    /// No open descriptor.
    NotOpen {
        /// What kind of failure it was.
        kind: Kind,
        /// What the system said of it.
        said: String,
    },
    /// One that could not be made private or looked at.
    Unusable {
        /// What kind of failure it was.
        kind: Kind,
        /// What the system said of it.
        said: String,
    },
    /// One that could be looked at and not locked.
    Unlocked {
        /// The mode of what it is open on, its type among it.
        mode: u32,
        /// What kind of failure it was.
        kind: Kind,
        /// What the system said of it.
        said: String,
    },
    /// One that could be looked at and is locked.
    Open {
        /// The mode of what it is open on, its type among it.
        mode: u32,
        /// Whether that is the file at the lock's path now.
        named: bool,
    },
}

/// What a daemon makes of the descriptor it was started with.
pub open spec fn adopts(paths: PathsModel, raw: i32, found: Inherited) -> Result<(), TroubleModel> {
    match found {
        Inherited::NotOpen { kind, said } => Err(
            TroubleModel {
                kind,
                message: "session "@ + paths.id + ": --lock-fd "@ + signed_digits(raw as int)
                    + " is not an open descriptor for "@ + lossy(paths.file("lock"@)) + ": "@
                    + said@,
            },
        ),
        Inherited::Unusable { kind, said } => Err(TroubleModel { kind, message: said@ }),
        Inherited::Unlocked { mode, kind, said } => if is_regular(mode) {
            Err(TroubleModel { kind, message: said@ })
        } else {
            Err(no_lock_file_for(paths))
        },
        Inherited::Open { mode, named } => if !is_regular(mode) {
            Err(no_lock_file_for(paths))
        } else if named {
            Ok(())
        } else {
            Err(
                TroubleModel {
                    kind: Kind::InvalidData,
                    message: "session "@ + paths.id + ": inherited lock does not name "@ + lossy(
                        paths.file("lock"@),
                    ),
                },
            )
        },
    }
}

/// Adopts the locked descriptor a daemon was started with, or says why it cannot: it is the
/// capability that proves startup authority, and it is checked against the name it should
/// have before anything is done under it.
pub fn inherit_spawn_lock(paths: &SessionPaths, raw: i32, found: &Inherited) -> (r: Result<
    (),
    Trouble,
>)
    ensures
        comes_to(r, adopts(paths@, raw, *found)),
        comes_to(
            r,
            match *found {
                Inherited::NotOpen { kind, said } => Err(
                    (TroubleModel {
                        kind,
                        message: "session "@ + paths@.id + ": --lock-fd "@ + signed_digits(
                            raw as int,
                        ) + " is not an open descriptor for "@ + lossy(paths@.file("lock"@))
                            + ": "@ + said@,
                    }),
                ),
                Inherited::Unusable { kind, said } => Err((TroubleModel { kind, message: said@ })),
                Inherited::Unlocked { mode, kind, said } => if !is_regular(mode) {
                    Err(no_lock_file_for(paths@))
                } else {
                    Err((TroubleModel { kind, message: said@ }))
                },
                Inherited::Open { mode, named } => if !is_regular(mode) {
                    Err(no_lock_file_for(paths@))
                } else if named {
                    Ok(())
                } else {
                    Err(
                        (TroubleModel {
                            kind: Kind::InvalidData,
                            message: "session "@ + paths@.id + ": inherited lock does not name "@
                                + lossy(paths@.file("lock"@)),
                        }),
                    )
                },
            },
        ),
{
    match found {
        Inherited::NotOpen { kind, said } => {
            let mut message: String = copy_text("session ");
            put(&mut message, paths.id());
            put(&mut message, ": --lock-fd ");
            put(&mut message, signed_decimal(raw).as_str());
            put(&mut message, " is not an open descriptor for ");
            put(&mut message, lossy_text(paths.lock().as_slice()).as_str());
            put(&mut message, ": ");
            put(&mut message, said.as_str());
            Err(Trouble { kind: *kind, message })
        },
        Inherited::Unusable { kind, said } => Err(
            Trouble { kind: *kind, message: copy_text(said.as_str()) },
        ),
        Inherited::Unlocked { mode, kind, said } => {
            if !regular(*mode) {
                return Err(not_a_lock_file(paths));
            }
            Err(Trouble { kind: *kind, message: copy_text(said.as_str()) })
        },
        Inherited::Open { mode, named } => {
            if !regular(*mode) {
                return Err(not_a_lock_file(paths));
            }
            if *named {
                return Ok(());
            }
            let mut message: String = copy_text("session ");
            put(&mut message, paths.id());
            put(&mut message, ": inherited lock does not name ");
            put(&mut message, lossy_text(paths.lock().as_slice()).as_str());
            Err(Trouble { kind: Kind::InvalidData, message })
        },
    }
}

// ---------------------------------------------------------------------------
// Removal
// ---------------------------------------------------------------------------

/// What removing one file came back with.
#[derive(Debug)]
pub enum Removed {
    /// It is gone.
    Gone,
    /// It was not there, which is what removing it is for.
    Absent,
    /// It is still there.
    Failed {
        /// What kind of failure it was.
        kind: Kind,
        /// What the system said of it.
        said: String,
    },
}

/// How many of a removal order of `len` are taken.
pub open spec fn taken_of(len: usize, include_lock: bool) -> int {
    if include_lock || len == 0 {
        len as int
    } else {
        len - 1
    }
}

/// How many of a removal order of `len` are taken: all of them, or all but the lock, which
/// comes last.
pub fn removal_count(len: usize, include_lock: bool) -> (r: usize)
    ensures
        r == taken_of(len, include_lock),
        r == if include_lock || len == 0 {
            len as int
        } else {
            len - 1
        },
{
    if include_lock || len == 0 {
        len
    } else {
        len - 1
    }
}

/// The account of a file that could not be removed.
pub open spec fn not_removed(
    paths: PathsModel,
    path: Seq<u8>,
    kind: Kind,
    said: Seq<char>,
) -> TroubleModel {
    TroubleModel {
        kind,
        message: "session "@ + paths.id + ": "@ + lossy(path) + " could not be removed: "@ + said,
    }
}

/// The account of a directory that could not be read to its end.
pub open spec fn not_scanned(paths: PathsModel, kind: Kind, said: Seq<char>) -> TroubleModel {
    TroubleModel {
        kind,
        message: "session "@ + paths.id + ": "@ + lossy(paths.dir) + " could not be scanned: "@
            + said,
    }
}

/// What removing the first `n` of `order` came to: the first failure that is not an
/// absence.
pub open spec fn first_failure(
    paths: PathsModel,
    order: Seq<Vec<u8>>,
    came: Seq<Removed>,
    n: nat,
) -> Option<TroubleModel>
    decreases n,
{
    if n == 0 {
        None
    } else {
        match first_failure(paths, order, came, (n - 1) as nat) {
            Some(e) => Some(e),
            None => match came[n - 1] {
                Removed::Failed { kind, said } => Some(
                    not_removed(paths, order[n - 1]@, kind, said@),
                ),
                _ => None,
            },
        }
    }
}

/// Sums up a removal, every path of `order` tried and `came` being what each came to, and
/// `scan` why the directory could not be read to its end where it could not: an incomplete
/// scan is reported before anything else, and otherwise the first failure that is not an
/// absence.
pub fn unlink_locked(
    paths: &SessionPaths,
    scan: Option<&Trouble>,
    order: &[Vec<u8>],
    came: &[Removed],
) -> (r: Result<(), Trouble>)
    requires
        came@.len() <= order@.len(),
    ensures
        comes_to(
            r,
            match scan {
                Some(e) => Err(not_scanned(paths@, e.kind, e.message@)),
                None => match first_failure(paths@, order@, came@, came@.len()) {
                    Some(e) => Err(e),
                    None => Ok(()),
                },
            },
        ),
{
    if let Some(e) = scan {
        let mut message: String = copy_text("session ");
        put(&mut message, paths.id());
        put(&mut message, ": ");
        put(&mut message, lossy_text(paths.dir()).as_str());
        put(&mut message, " could not be scanned: ");
        put(&mut message, e.message.as_str());
        return Err(Trouble { kind: e.kind, message });
    }
    let mut n: usize = 0;
    while n < came.len()
        invariant
            scan is None,
            n <= came@.len() <= order@.len(),
            first_failure(paths@, order@, came@, n as nat) is None,
        decreases came@.len() - n,
    {
        if let Removed::Failed { kind, said } = &came[n] {
            let mut message: String = copy_text("session ");
            put(&mut message, paths.id());
            put(&mut message, ": ");
            put(&mut message, lossy_text(order[n].as_slice()).as_str());
            put(&mut message, " could not be removed: ");
            put(&mut message, said.as_str());
            proof {
                lemma_failure_stays(paths@, order@, came@, (n + 1) as nat, came@.len());
            }
            return Err(Trouble { kind: *kind, message });
        }
        n += 1;
    }
    Ok(())
}

/// A failure found stays the first.
proof fn lemma_failure_stays(
    paths: PathsModel,
    order: Seq<Vec<u8>>,
    came: Seq<Removed>,
    n: nat,
    m: nat,
)
    requires
        n <= m,
        first_failure(paths, order, came, n) is Some,
    ensures
        first_failure(paths, order, came, m) == first_failure(paths, order, came, n),
    decreases m - n,
{
    if n < m {
        lemma_failure_stays(paths, order, came, n, (m - 1) as nat);
    }
}

// ---------------------------------------------------------------------------
// Laws
// ---------------------------------------------------------------------------

/// The lock is held in one way only: a regular file was opened, it was locked, and it is
/// still the file at the path; and whether this attempt made the name is what opening it
/// said. Anything found at the path that is no such file is refused, and never gone ahead
/// without.
pub proof fn a_lock_is_held_in_one_way_only(
    attempt: LockTry,
    paths: PathsModel,
    created: bool,
    mode: u32,
    same_file: bool,
    kind: Kind,
    said: String,
)
    requires
        attempt.wf(),
    ensures
        ({
            let (opened, next) = attempt.after_open(paths, Opened::File { created, mode });
            let held = opened.after_compare(same_file);
            &&& mode & 0o170000 == 0o100000 ==> {
                &&& next == Ok::<LockStep, TroubleModel>(LockStep::Flock)
                &&& opened.left == attempt.left
                &&& opened.after_flock(paths, Flocked::Held) == Ok::<LockStep, TroubleModel>(
                    LockStep::Compare,
                )
                &&& held.1 == (LockStep::Held { created }) <==> same_file
            }
            &&& mode & 0o170000 != 0o100000 ==> next is Err
            &&& attempt.after_open(paths, Opened::NoFile).1 is Err
            &&& attempt.after_open(paths, Opened::ReadOnly { said }).1 is Err
            &&& attempt.after_open(paths, Opened::Denied { kind, said }).1 is Err
            &&& attempt.after_open(paths, Opened::Unexamined { kind, said }).1 is Err
            &&& attempt.after_flock(paths, Flocked::Unsupported { kind, said }) is Err
            &&& !(attempt.after_compare(false).1 is Held)
        }),
{
}

/// A lock somebody else holds is answered by not now, a signal by asking again, and a file
/// that went or was replaced by one more try and then by not now: no attempt waits and none
/// goes round for ever.
pub proof fn a_lock_is_tried_twice_at_most(first: LockTry, paths: PathsModel)
    requires
        first == (LockTry { left: 2, created: first.created }),
    ensures
        ({
            let (second, step) = first.after_compare(false);
            &&& step == LockStep::Open
            &&& second.after_compare(false).1 == LockStep::NotNow
            &&& second.after_open(paths, Opened::Missing).1 == Ok::<LockStep, TroubleModel>(
                LockStep::NotNow,
            )
            &&& first.after_open(paths, Opened::Missing).1 == Ok::<LockStep, TroubleModel>(
                LockStep::Open,
            )
            &&& first.after_open(paths, Opened::Failed).1 == Ok::<LockStep, TroubleModel>(
                LockStep::NotNow,
            )
            &&& first.after_flock(paths, Flocked::Busy) == Ok::<LockStep, TroubleModel>(
                LockStep::NotNow,
            )
            &&& first.after_flock(paths, Flocked::Interrupted) == Ok::<LockStep, TroubleModel>(
                LockStep::Flock,
            )
        }),
{
}

/// What is locked is the file at the path where both are known by the same device and the
/// same number on it; what could not be looked at never is.
pub proof fn a_file_is_known_by_its_device_and_number(dev: u64, ino: u64, odev: u64, oino: u64)
    ensures
        is_the_same_file(Some((dev, ino)), Some((odev, oino))) <==> dev == odev && ino == oino,
        !is_the_same_file(None, Some((dev, ino))),
        !is_the_same_file(Some((dev, ino)), None),
        !is_the_same_file(None, None),
{
}

/// A daemon goes on under the lock it was handed only where that is the regular file at the
/// lock's own path.
pub proof fn only_the_lock_itself_is_adopted(paths: PathsModel, raw: i32, found: Inherited)
    ensures
        adopts(paths, raw, found) is Ok <==> (found matches Inherited::Open { mode, named } && named
            && mode & 0o170000 == 0o100000),
        adopts(paths, raw, found) matches Err(e) ==> (found is Open ==> e.kind
            == Kind::InvalidData),
{
}

/// A removal takes everything, or everything but the lock.
pub proof fn a_removal_leaves_the_lock_or_nothing(len: usize)
    ensures
        taken_of(len, true) == len,
        len > 0 ==> taken_of(len, false) + 1 == len,
        taken_of(0, false) == 0,
{
}

/// A removal fails exactly where a file stayed that was there, and says which: the first of
/// them. One that was not there is no failure.
pub proof fn a_removal_fails_where_a_file_stays(
    paths: PathsModel,
    order: Seq<Vec<u8>>,
    came: Seq<Removed>,
    n: nat,
)
    requires
        n <= came.len() <= order.len(),
    ensures
        first_failure(paths, order, came, n) is None <==> forall|i: int|
            0 <= i < n ==> !((#[trigger] came[i]) is Failed),
        first_failure(paths, order, came, n) matches Some(e) ==> exists|i: int|
            {
                &&& 0 <= i < n
                &&& (#[trigger] came[i]) matches Removed::Failed { kind, said } && e == not_removed(
                    paths,
                    order[i]@,
                    kind,
                    said@,
                )
                &&& forall|j: int| 0 <= j < i ==> !((#[trigger] came[j]) is Failed)
            },
    decreases n,
{
    if n > 0 {
        let m = (n - 1) as nat;
        a_removal_fails_where_a_file_stays(paths, order, came, m);
        if first_failure(paths, order, came, m) is None && came[n - 1] is Failed {
            assert(0 <= n - 1 < n && came[n - 1] is Failed);
        }
    }
}

/// A lock is waited for until its deadline and no longer, and one that was not had by then is
/// said to be held.
pub proof fn a_lock_is_waited_for_until_its_deadline(paths: PathsModel, now: u64, deadline: u64)
    ensures
        waits_on(paths, now, deadline) is Ok <==> now < deadline,
        waits_on(paths, now, deadline) matches Err(e) ==> e.kind == Kind::ResourceBusy,
{
}

} // verus!
