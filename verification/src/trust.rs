//! When a run directory may be trusted: it is this user's alone, and nobody else can put
//! something in its place after it was looked at.
//!
//! Sockets are bound and files are opened by path, so a directory that is private itself is
//! not enough where another user can rename one of those above it.
use vstd::prelude::*;

use crate::rundir::{permissions, DIR_MODE};
use crate::text::{copy_text, decimal, digits, lossy, lossy_text, octal, put};
use crate::trouble::{comes_to, Kind, Trouble, TroubleModel};

verus! {

/// What looking at one of the directories above came back with.
#[derive(Debug)]
pub enum Found {
    /// Something is there.
    There {
        /// Whether it is a directory itself, and no link to one.
        directory: bool,
        /// Whose it is.
        owner: u32,
        /// Its mode bits.
        mode: u32,
    },
    /// Nothing is there yet.
    Missing,
    /// It could not be looked at.
    Failed {
        /// What kind of failure it was.
        kind: Kind,
        /// What the system said of it.
        said: String,
    },
}

/// One of the directories above the run directory.
#[derive(Debug)]
pub struct Ancestor {
    /// Its path.
    pub path: Vec<u8>,
    /// What is there.
    pub found: Found,
}

/// What opening the run directory itself came back with.
#[derive(Debug)]
pub enum Probe {
    /// It is open.
    Open {
        /// Whose it is.
        owner: u32,
        /// Its mode, its type among it.
        mode: u32,
    },
    /// Nothing is there.
    Missing,
    /// Something else is there.
    NotADirectory {
        /// Whether that is a symlink.
        symlink: bool,
    },
    /// It could not be opened.
    Unopenable {
        /// What kind of failure it was.
        kind: Kind,
        /// What the system said of it.
        said: String,
    },
    /// It was opened and could not be looked at.
    Unexamined {
        /// What kind of failure it was.
        kind: Kind,
        /// What the system said of it.
        said: String,
    },
}

/// Why opening the run directory failed, as far as anything depends on it.
#[derive(Debug, Clone, Copy, PartialEq, Eq, Structural)]
pub enum DirErrno {
    /// Nothing is there.
    Missing,
    /// Something that is not a directory.
    NotDirectory,
    /// A link, which is not followed.
    Link,
    /// Anything else.
    Other,
}

/// What a failure to open the run directory comes to, `symlink` saying whether the name is
/// one: the system answers for a link as for a file.
pub fn probe_failed(number: DirErrno, symlink: bool, kind: Kind, said: String) -> (r: Probe)
    ensures
        r == match number {
            DirErrno::Missing => Probe::Missing,
            DirErrno::NotDirectory | DirErrno::Link => Probe::NotADirectory { symlink },
            DirErrno::Other => Probe::Unopenable { kind, said },
        },
{
    match number {
        DirErrno::Missing => Probe::Missing,
        DirErrno::NotDirectory | DirErrno::Link => Probe::NotADirectory { symlink },
        DirErrno::Other => Probe::Unopenable { kind, said },
    }
}

/// What a run directory is.
#[derive(Debug, Clone, Copy, PartialEq, Eq, Structural)]
pub enum Verdict {
    /// Not there: no session was ever created here.
    Absent,
    /// This user's alone, at the mode it should have.
    Fine,
    /// This user's alone, at a mode that is to be put right.
    Tighten,
}

/// The refusal of a run directory, in the terms the user needs.
pub open spec fn refused(dir: Seq<u8>, kind: Kind, problem: Seq<char>) -> TroubleModel {
    TroubleModel {
        kind,
        message: "run directory "@ + lossy(dir) + ": "@ + problem
            + "; expected a directory owned by this user, mode 700"@,
    }
}

/// Refuses a run directory. It is the whole account the user gets, so it names the path
/// even where the error beneath names nothing.
fn refuse(dir: &[u8], kind: Kind, problem: &str) -> (r: Trouble)
    ensures
        r@ == refused(dir@, kind, problem@),
{
    let mut message: String = copy_text("run directory ");
    put(&mut message, lossy_text(dir).as_str());
    put(&mut message, ": ");
    put(&mut message, problem);
    put(&mut message, "; expected a directory owned by this user, mode 700");
    Trouble { kind, message }
}

/// Refuses a run directory over a failed call, keeping the kind of that failure.
fn refuse_errno(dir: &[u8], kind: Kind, problem: &str, said: &str) -> (r: Trouble)
    ensures
        r@ == refused(dir@, kind, problem@ + ": "@ + said@),
{
    let mut whole: String = copy_text(problem);
    put(&mut whole, ": ");
    put(&mut whole, said);
    refuse(dir, kind, whole.as_str())
}

/// Whether the sticky bit keeps others from renaming what is below: it does for what this
/// user or root owns, and for what is not there yet.
pub open spec fn sticky_protects(mode: u32, child: Option<u32>, us: u32) -> bool {
    mode & 0o1000 != 0 && (child matches Some(owner) ==> owner == us || owner == 0)
}

/// What one directory above comes to, `child` being who owns what is below it: the owner to
/// weigh the next one up against, or the refusal.
pub open spec fn weighed(us: u32, child: Option<u32>, ancestor: Ancestor) -> Result<
    Option<u32>,
    TroubleModel,
> {
    let path = ancestor.path@;
    match ancestor.found {
        Found::Missing => Ok(child),
        Found::Failed { kind, said } => Err(
            TroubleModel {
                kind,
                message: lossy(path) + ": ancestor could not be examined: "@ + said@,
            },
        ),
        Found::There { directory, owner, mode } => if !directory {
            Err(refused(path, Kind::NotADirectory, "an ancestor is not a real directory"@))
        } else if owner != us && owner != 0 {
            Err(
                refused(
                    path,
                    Kind::PermissionDenied,
                    "ancestor owner uid "@ + digits(owner as nat, 10)
                        + " is neither this user nor root"@,
                ),
            )
        } else if mode & 0o022 != 0 && !sticky_protects(mode, child, us) {
            Err(
                refused(
                    path,
                    Kind::PermissionDenied,
                    "ancestor mode "@ + digits((mode & 0o7777) as nat, 8)
                        + " lets other users redirect the run directory"@,
                ),
            )
        } else {
            Ok(Some(owner))
        },
    }
}

/// What the directories above come to, from the one right above up: the first refusal, or
/// none.
pub open spec fn weighed_all(us: u32, child: Option<u32>, above: Seq<Ancestor>) -> Result<
    (),
    TroubleModel,
>
    decreases above.len(),
{
    if above.len() == 0 {
        Ok(())
    } else {
        match weighed(us, child, above[0]) {
            Ok(owner) => weighed_all(us, owner, above.drop_first()),
            Err(e) => Err(e),
        }
    }
}

/// Weighs one directory above.
fn weigh(us: u32, child: Option<u32>, ancestor: &Ancestor) -> (r: Result<Option<u32>, Trouble>)
    ensures
        comes_to(r, weighed(us, child, *ancestor)),
{
    let path: &[u8] = ancestor.path.as_slice();
    match &ancestor.found {
        Found::Missing => Ok(child),
        Found::Failed { kind, said } => {
            let mut message: String = lossy_text(path);
            put(&mut message, ": ancestor could not be examined: ");
            put(&mut message, said.as_str());
            Err(Trouble { kind: *kind, message })
        },
        Found::There { directory, owner, mode } => {
            let (directory, owner, mode): (bool, u32, u32) = (*directory, *owner, *mode);
            if !directory {
                return Err(
                    refuse(path, Kind::NotADirectory, "an ancestor is not a real directory"),
                );
            }
            if owner != us && owner != 0 {
                let mut problem: String = copy_text("ancestor owner uid ");
                put(&mut problem, decimal(owner as u64).as_str());
                put(&mut problem, " is neither this user nor root");
                return Err(refuse(path, Kind::PermissionDenied, problem.as_str()));
            }
            let protects: bool = mode & 0o1000 != 0 && match child {
                Some(below) => below == us || below == 0,
                None => true,
            };
            if mode & 0o022 != 0 && !protects {
                let mut problem: String = copy_text("ancestor mode ");
                put(&mut problem, octal((mode & 0o7777) as u64).as_str());
                put(&mut problem, " lets other users redirect the run directory");
                return Err(refuse(path, Kind::PermissionDenied, problem.as_str()));
            }
            Ok(Some(owner))
        },
    }
}

/// Refuses a run-directory path an untrusted user can redirect after it is checked, `child`
/// being who owns the directory itself, where it is there, and `above` what is above it,
/// nearest first.
///
/// What is missing is allowed: it is created, and all of this is asked again before the
/// directory is used.
pub fn check_trusted_ancestors(us: u32, child: Option<u32>, above: &[Ancestor]) -> (r: Result<
    (),
    Trouble,
>)
    ensures
        comes_to(r, weighed_all(us, child, above@)),
{
    let mut owner: Option<u32> = child;
    let mut i: usize = 0;
    assert(above@.skip(0) =~= above@);
    while i < above.len()
        invariant
            i <= above@.len(),
            weighed_all(us, child, above@) == weighed_all(us, owner, above@.skip(i as int)),
        decreases above@.len() - i,
    {
        assert(above@.skip(i as int).drop_first() =~= above@.skip(i + 1));
        match weigh(us, owner, &above[i]) {
            Ok(next) => {
                owner = next;
            },
            Err(e) => {
                return Err(e);
            },
        }
        i += 1;
    }
    Ok(())
}

/// What opening the run directory comes to.
pub open spec fn probed(us: u32, dir: Seq<u8>, probe: Probe) -> Result<Verdict, TroubleModel> {
    match probe {
        Probe::Missing => Ok(Verdict::Absent),
        Probe::NotADirectory { symlink } => Err(
            refused(
                dir,
                Kind::NotADirectory,
                if symlink {
                    "it is a symlink"@
                } else {
                    "it is not a directory"@
                },
            ),
        ),
        Probe::Unopenable { kind, said } => Err(
            refused(dir, kind, "it could not be opened"@ + ": "@ + said@),
        ),
        Probe::Unexamined { kind, said } => Err(
            refused(dir, kind, "it could not be examined"@ + ": "@ + said@),
        ),
        Probe::Open { owner, mode } => if owner != us {
            Err(
                refused(
                    dir,
                    Kind::PermissionDenied,
                    "it belongs to uid "@ + digits(owner as nat, 10),
                ),
            )
        } else if mode & 0o022 != 0 {
            Err(
                refused(
                    dir,
                    Kind::PermissionDenied,
                    "mode "@ + digits((mode & !0o170000u32) as nat, 8)
                        + " lets other users create files in it"@,
                ),
            )
        } else if mode & !0o170000u32 == DIR_MODE {
            Ok(Verdict::Fine)
        } else {
            Ok(Verdict::Tighten)
        },
    }
}

/// Answers whether `dir` is a run directory of this user's alone, given what is above it
/// and what opening it came back with.
///
/// Write for group or other is the one loosening that is not repaired: tightening now does
/// not un-plant what somebody left there. Every other mode is put right.
pub fn check_run_dir(
    us: u32,
    dir: &[u8],
    child: Option<u32>,
    above: &[Ancestor],
    probe: &Probe,
) -> (r: Result<Verdict, Trouble>)
    ensures
        match weighed_all(us, child, above@) {
            Err(e) => r matches Err(found) && found@ == e,
            Ok(()) => comes_to(r, probed(us, dir@, *probe)),
        },
{
    match check_trusted_ancestors(us, child, above) {
        Err(e) => {
            return Err(e);
        },
        Ok(()) => {},
    }
    match probe {
        Probe::Missing => Ok(Verdict::Absent),
        Probe::NotADirectory { symlink } => Err(
            refuse(
                dir,
                Kind::NotADirectory,
                if *symlink {
                    "it is a symlink"
                } else {
                    "it is not a directory"
                },
            ),
        ),
        Probe::Unopenable { kind, said } => Err(
            refuse_errno(dir, *kind, "it could not be opened", said.as_str()),
        ),
        Probe::Unexamined { kind, said } => Err(
            refuse_errno(dir, *kind, "it could not be examined", said.as_str()),
        ),
        Probe::Open { owner, mode } => {
            let (owner, mode): (u32, u32) = (*owner, permissions(*mode));
            assert(mode & 0o022 == probe->Open_mode & 0o022) by {
                let raw = probe->Open_mode;
                assert((raw & !0o170000u32) & 0o022 == raw & 0o022) by (bit_vector);
            }
            if owner != us {
                let mut problem: String = copy_text("it belongs to uid ");
                put(&mut problem, decimal(owner as u64).as_str());
                return Err(refuse(dir, Kind::PermissionDenied, problem.as_str()));
            }
            if mode & 0o022 != 0 {
                let mut problem: String = copy_text("mode ");
                put(&mut problem, octal(mode as u64).as_str());
                put(&mut problem, " lets other users create files in it");
                return Err(refuse(dir, Kind::PermissionDenied, problem.as_str()));
            }
            if mode == DIR_MODE {
                Ok(Verdict::Fine)
            } else {
                Ok(Verdict::Tighten)
            }
        },
    }
}

/// The refusal of a directory whose mode could not be put right.
pub fn untightened(dir: &[u8], kind: Kind, said: &str) -> (r: Trouble)
    ensures
        r@ == refused(dir@, kind, "its mode could not be tightened"@ + ": "@ + said@),
{
    refuse_errno(dir, kind, "its mode could not be tightened", said)
}

/// Ends the making of a run directory, `again` being what looking at it once more came to:
/// it was created where it was absent, and is there unless somebody took it away again.
pub fn ensure_run_dir(dir: &[u8], again: Verdict) -> (r: Result<(), Trouble>)
    ensures
        comes_to(
            r,
            if again == Verdict::Absent {
                Err(refused(dir@, Kind::NotFound, "it was removed as it was created"@))
            } else {
                Ok(())
            },
        ),
{
    match again {
        Verdict::Absent => Err(refuse(dir, Kind::NotFound, "it was removed as it was created")),
        _ => Ok(()),
    }
}

// ---------------------------------------------------------------------------
// Laws
// ---------------------------------------------------------------------------

/// A run directory that is accepted is this user's, and nobody else can write to it.
pub proof fn an_accepted_directory_is_private(us: u32, dir: Seq<u8>, probe: Probe)
    requires
        probed(us, dir, probe) is Ok,
        probed(us, dir, probe)->Ok_0 != Verdict::Absent,
    ensures
        probe matches Probe::Open { owner, mode } && owner == us && mode & 0o022 == 0,
{
}

/// A path that is accepted can be redirected by nobody but this user and root: everything
/// that is there above it is a directory of one of theirs, and either nobody else can write
/// to it, or it is sticky.
pub proof fn an_accepted_path_cannot_be_redirected(
    us: u32,
    child: Option<u32>,
    above: Seq<Ancestor>,
    i: int,
)
    requires
        weighed_all(us, child, above) is Ok,
        0 <= i < above.len(),
    ensures
        !(above[i].found is Failed),
        above[i].found matches Found::There { directory, owner, mode } ==> directory && (owner == us
            || owner == 0) && (mode & 0o022 == 0 || mode & 0o1000 != 0),
    decreases i,
{
    if i > 0 {
        let next = weighed(us, child, above[0])->Ok_0;
        an_accepted_path_cannot_be_redirected(us, next, above.drop_first(), i - 1);
        assert(above.drop_first()[i - 1] == above[i]);
    }
}

/// What is above a run directory is trusted exactly where it is a directory of this user's or
/// root's that nobody else can write to, or that keeps others from renaming what this user or
/// root owns below it; and the next one up is then weighed for its owner. What is not there
/// yet is weighed for nobody, and what could not be looked at is never trusted.
pub proof fn a_directory_above_is_trusted_for_what_it_is(
    us: u32,
    child: Option<u32>,
    path: Vec<u8>,
    directory: bool,
    owner: u32,
    mode: u32,
    kind: Kind,
    said: String,
)
    ensures
        ({
            let there = Ancestor { path, found: Found::There { directory, owner, mode } };
            let missing = Ancestor { path, found: Found::Missing };
            let failed = Ancestor { path, found: Found::Failed { kind, said } };
            let ours = owner == us || owner == 0;
            let private = mode & 0o022 == 0;
            let kept = mode & 0o1000 != 0 && (child is None || child == Some(us) || child == Some(
                0u32,
            ));
            &&& directory && ours && (private || kept) ==> weighed(us, child, there) == Ok::<
                Option<u32>,
                TroubleModel,
            >(Some(owner))
            &&& !directory ==> (weighed(us, child, there) matches Err(e) && e.kind
                == Kind::NotADirectory)
            &&& directory && (!ours || (!private && !kept)) ==> (weighed(us, child, there)
                matches Err(e) && e.kind == Kind::PermissionDenied)
            &&& weighed(us, child, missing) == Ok::<Option<u32>, TroubleModel>(child)
            &&& weighed(us, child, failed) matches Err(e) && e.kind == kind
        }),
{
}

/// A path below nothing but private directories of this user's and root's is accepted, however
/// deep, and a directory on the way that is not there yet costs nothing.
pub proof fn a_private_path_is_accepted(us: u32, child: Option<u32>, above: Seq<Ancestor>)
    requires
        forall|i: int| 0 <= i < above.len() ==> match (#[trigger] above[i]).found {
            Found::Missing => true,
            Found::Failed { .. } => false,
            Found::There { directory, owner, mode } => directory && (owner == us || owner == 0)
                && mode & 0o022 == 0,
        },
    ensures
        weighed_all(us, child, above) is Ok,
    decreases above.len(),
{
    if above.len() > 0 {
        assert(weighed(us, child, above[0]) is Ok);
        let rest = above.drop_first();
        assert forall|i: int| 0 <= i < rest.len() implies match (#[trigger] rest[i]).found {
            Found::Missing => true,
            Found::Failed { .. } => false,
            Found::There { directory, owner, mode } => directory && (owner == us || owner == 0)
                && mode & 0o022 == 0,
        } by {
            assert(rest[i] == above[i + 1]);
        }
        a_private_path_is_accepted(us, weighed(us, child, above[0])->Ok_0, rest);
    }
}

/// A run directory of this user's that nobody else can write to is taken, as it is where its
/// mode is the one it should have and put right where it is not; one of somebody else's, one
/// others can write to, and anything that is no directory or could not be looked at is
/// refused; and one that is not there is absent.
pub proof fn a_run_directory_is_taken_for_what_it_is(
    us: u32,
    dir: Seq<u8>,
    owner: u32,
    mode: u32,
    symlink: bool,
    kind: Kind,
    said: String,
)
    ensures
        ({
            let open = probed(us, dir, Probe::Open { owner, mode });
            let private = mode & 0o022 == 0;
            &&& owner == us && private && mode & !0o170000u32 == 0o700 ==> open == Ok::<
                Verdict,
                TroubleModel,
            >(Verdict::Fine)
            &&& owner == us && private && mode & !0o170000u32 != 0o700 ==> open == Ok::<
                Verdict,
                TroubleModel,
            >(Verdict::Tighten)
            &&& owner != us || !private ==> (open matches Err(e) && e.kind
                == Kind::PermissionDenied)
            &&& probed(us, dir, Probe::Missing) == Ok::<Verdict, TroubleModel>(Verdict::Absent)
            &&& probed(us, dir, Probe::NotADirectory { symlink }) matches Err(e) && e.kind
                == Kind::NotADirectory
            &&& probed(us, dir, Probe::Unopenable { kind, said }) matches Err(e) && e.kind == kind
            &&& probed(us, dir, Probe::Unexamined { kind, said }) matches Err(e) && e.kind == kind
        }),
{
}

} // verus!
