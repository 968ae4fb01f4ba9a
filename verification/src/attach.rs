//! What `spawn` and `attach` decide: what a probe of the session's socket means to each of
//! them, and how a failure is classified for the client that acts on it.
//!
//! | probe             | `attach`, wanting a session | `spawn`, wanting a free id |
//! |-------------------|------------------------------|----------------------------|
//! | refused or absent | missing session              | start a daemon             |
//! | accepted          | relay to it                  | collision                  |
//! | neither           | retryable, unsafe host or uncertain | uncertain           |
use vstd::prelude::*;

use crate::args::{behind, strip};
use crate::rundir::{
    a_pidfile_reads_back, bytes_in, parse_pid, pid_body_of, pid_in, PathsModel, SessionPaths,
};
use crate::text::{
    all_space, chars_of, copy_text, escaped, escaped_text, is_space, lossy, lossy_text, put,
    text_of, trim, trimmed, trimming_takes_what_surrounds,
};
use crate::trouble::{Kind, Trouble, TroubleModel};

verus! {

/// Status for a runtime refusal that does not establish absence.
pub const EXIT_UNATTACHABLE: u8 = 126;

/// Status for an absent session or a daemon that never became reachable.
pub const EXIT_NO_SESSION: u8 = 127;

/// How long to wait for a freshly started daemon, in nanoseconds.
pub const SPAWN_TIMEOUT: u64 = 5_000_000_000;

/// Delay between two looks at the socket while waiting for the daemon.
pub const SPAWN_POLL_INTERVAL: u64 = 20_000_000;

/// Delay between two looks at the pidfile the daemon publishes right after its socket.
pub const PUBLISH_POLL_INTERVAL: u64 = 1_000_000;

/// Stable machine-readable reason a relay invocation failed: the client's next decision
/// rather than an error number.
#[derive(Debug, Clone, Copy, PartialEq, Eq, Structural)]
pub enum FailureClass {
    /// A spawn found a live session already occupying the id.
    Collision,
    /// Repeating the same invocation after a pause is safe.
    Retryable,
    /// This host cannot provide a trusted run directory or lock.
    UnsafeHost,
    /// Neither that the session exists nor that it is absent was established.
    Uncertain,
    /// An attach found no session at the id.
    MissingSession,
    /// A spawn proved the id free and could not launch a daemon at all.
    StartupFailure,
    /// The relay reached the session and then failed locally.
    PostConnect,
}

impl FailureClass {
    /// Every class there is.
    pub const ALL: [FailureClass; 7] = [
        FailureClass::Collision,
        FailureClass::Retryable,
        FailureClass::UnsafeHost,
        FailureClass::Uncertain,
        FailureClass::MissingSession,
        FailureClass::StartupFailure,
        FailureClass::PostConnect,
    ];

    /// The word a client finds in the record on stderr.
    pub open spec fn word(self) -> Seq<char> {
        match self {
            FailureClass::Collision => "collision"@,
            FailureClass::Retryable => "retryable"@,
            FailureClass::UnsafeHost => "unsafe-host"@,
            FailureClass::Uncertain => "uncertain"@,
            FailureClass::MissingSession => "missing-session"@,
            FailureClass::StartupFailure => "startup-failure"@,
            FailureClass::PostConnect => "post-connect"@,
        }
    }

    /// Token carried by the versioned stderr record.
    pub fn token(self) -> (r: &'static str)
        ensures
            r@ == self.word(),
    {
        match self {
            FailureClass::Collision => "collision",
            FailureClass::Retryable => "retryable",
            FailureClass::UnsafeHost => "unsafe-host",
            FailureClass::Uncertain => "uncertain",
            FailureClass::MissingSession => "missing-session",
            FailureClass::StartupFailure => "startup-failure",
            FailureClass::PostConnect => "post-connect",
        }
    }

    /// Process status for clients that do not read the record.
    pub fn exit_code(self) -> (r: u8)
        ensures
            r == match self {
                FailureClass::MissingSession | FailureClass::StartupFailure => EXIT_NO_SESSION,
                FailureClass::PostConnect => 1,
                _ => EXIT_UNATTACHABLE,
            },
    {
        match self {
            FailureClass::MissingSession | FailureClass::StartupFailure => EXIT_NO_SESSION,
            FailureClass::PostConnect => 1,
            _ => EXIT_UNATTACHABLE,
        }
    }

    /// The record a client finds on stderr: a line of its own with no bytes of anybody
    /// else's in it.
    pub fn record(self) -> (r: String)
        ensures
            r@ == "NOMUX-RELAY-ERROR 1 "@ + self.word(),
    {
        let mut line: String = copy_text("NOMUX-RELAY-ERROR 1 ");
        put(&mut line, self.token());
        line
    }
}

/// A classified failure of `spawn` or `attach`.
#[derive(Debug)]
pub struct Failure {
    /// What the client goes by.
    pub class: FailureClass,
    /// What the user reads.
    pub message: String,
}

/// What a [`Failure`] holds.
#[verifier::ext_equal]
pub struct FailureModel {
    pub class: FailureClass,
    pub message: Seq<char>,
}

impl View for Failure {
    type V = FailureModel;

    open spec fn view(&self) -> FailureModel {
        FailureModel { class: self.class, message: self.message@ }
    }
}

/// Either malformed session input or a classified failure.
#[derive(Debug)]
pub enum RunError {
    /// A session id that cannot name a session.
    Usage(Trouble),
    /// A failure with a class.
    Classified(Failure),
}

/// Classifies a failure to resolve the session's paths: a bad id is the caller's spelling,
/// and anything else is the host's.
pub fn paths_failed(e: Trouble) -> (r: RunError)
    ensures
        r is Usage <==> is_spelling(e.kind),
        if e.kind == Kind::InvalidInput {
            r matches RunError::Usage(found) && found@ == e@
        } else {
            r matches RunError::Classified(found) && found@ == (FailureModel {
                class: FailureClass::UnsafeHost,
                message: e.message@,
            })
        },
{
    match e.kind {
        Kind::InvalidInput => RunError::Usage(e),
        _ => RunError::Classified(
            Failure { class: FailureClass::UnsafeHost, message: e.message },
        ),
    }
}

/// A shortage a failed probe may report, as far as it can clear by itself.
#[derive(Debug, Clone, Copy, PartialEq, Eq, Structural)]
pub enum Shortage {
    /// `EAGAIN`.
    Again,
    /// `EMFILE`.
    ProcessFiles,
    /// `ENFILE`.
    SystemFiles,
    /// `ENOMEM`.
    Memory,
    /// `ENOBUFS`.
    Buffers,
}

/// What asking a session's socket came back with.
#[derive(Debug)]
pub enum Liveness {
    /// Somebody of this user's answers.
    Alive,
    /// Nobody does.
    Stale,
    /// Neither was established.
    Unknown {
        /// What was.
        trouble: Trouble,
        /// The shortage it reports, if it does.
        shortage: Option<Shortage>,
    },
}

/// Under what a failed probe of an attach is filed: what clears by itself may be retried, a
/// socket this user may not speak to is a fact about the host, and the rest establishes
/// nothing.
pub open spec fn probe_class(kind: Kind, shortage: Option<Shortage>) -> FailureClass {
    if kind == Kind::TimedOut || kind == Kind::WouldBlock || kind == Kind::Interrupted || kind
        == Kind::OutOfMemory || shortage is Some {
        FailureClass::Retryable
    } else if kind == Kind::PermissionDenied {
        FailureClass::UnsafeHost
    } else {
        FailureClass::Uncertain
    }
}

/// Under what a failed probe of an attach is filed.
pub fn resume_probe_class(kind: Kind, shortage: Option<Shortage>) -> (r: FailureClass)
    ensures
        r == probe_class(kind, shortage),
{
    if shortage.is_some() {
        return FailureClass::Retryable;
    }
    match kind {
        Kind::TimedOut | Kind::WouldBlock | Kind::Interrupted
        | Kind::OutOfMemory => FailureClass::Retryable,
        Kind::PermissionDenied => FailureClass::UnsafeHost,
        _ => FailureClass::Uncertain,
    }
}

/// An attach on an id nothing is serving.
pub open spec fn no_such_session_for(paths: PathsModel) -> FailureModel {
    FailureModel {
        class: FailureClass::MissingSession,
        message: "no session "@ + paths.id + ": nothing answers on "@ + lossy(
            paths.file("sock"@),
        ) + ". `nomux spawn "@ + paths.id + "` starts one"@,
    }
}

/// An attach on an id whose socket answered with neither life nor death.
pub open spec fn unattachable_for(
    paths: PathsModel,
    e: TroubleModel,
    shortage: Option<Shortage>,
) -> FailureModel {
    FailureModel {
        class: probe_class(e.kind, shortage),
        message: "session "@ + paths.id + " could not be joined: "@ + e.message
            + ". `nomux list` says what this host holds"@,
    }
}

/// A spawn on an id something is already serving.
pub open spec fn already_running_for(paths: PathsModel) -> FailureModel {
    FailureModel {
        class: FailureClass::Collision,
        message: "session "@ + paths.id + " already exists: something answers on "@ + lossy(
            paths.file("sock"@),
        ) + ". `nomux attach "@ + paths.id + "` joins it"@,
    }
}

/// A spawn on an id whose socket answered with neither life nor death.
pub open spec fn may_be_running_for(paths: PathsModel, said: Seq<char>) -> FailureModel {
    FailureModel {
        class: FailureClass::Uncertain,
        message: "session "@ + paths.id + " may already exist: "@ + said + ". `nomux attach "@
            + paths.id + "` joins it if so"@,
    }
}

/// Words an attach on an id nothing is serving — never created here, or reaped, which are
/// not told apart because both want the same next command.
pub fn no_such_session(paths: &SessionPaths) -> (r: Failure)
    ensures
        r@ == no_such_session_for(paths@),
{
    let mut message: String = copy_text("no session ");
    put(&mut message, paths.id());
    put(&mut message, ": nothing answers on ");
    put(&mut message, lossy_text(paths.socket().as_slice()).as_str());
    put(&mut message, ". `nomux spawn ");
    put(&mut message, paths.id());
    put(&mut message, "` starts one");
    Failure { class: FailureClass::MissingSession, message }
}

/// Words an attach on an id whose socket answered with neither. The error is quoted rather
/// than summarised: it is the whole of what was established.
pub fn unattachable(paths: &SessionPaths, e: &Trouble, shortage: Option<Shortage>) -> (r: Failure)
    ensures
        r@ == unattachable_for(paths@, e@, shortage),
{
    let mut message: String = copy_text("session ");
    put(&mut message, paths.id());
    put(&mut message, " could not be joined: ");
    put(&mut message, e.message.as_str());
    put(&mut message, ". `nomux list` says what this host holds");
    Failure { class: resume_probe_class(e.kind, shortage), message }
}

/// Words a spawn on an id something is already serving.
pub fn already_running(paths: &SessionPaths) -> (r: Failure)
    ensures
        r@ == already_running_for(paths@),
{
    let mut message: String = copy_text("session ");
    put(&mut message, paths.id());
    put(&mut message, " already exists: something answers on ");
    put(&mut message, lossy_text(paths.socket().as_slice()).as_str());
    put(&mut message, ". `nomux attach ");
    put(&mut message, paths.id());
    put(&mut message, "` joins it");
    Failure { class: FailureClass::Collision, message }
}

/// Words a spawn on an id whose socket answered with neither: a spawn may create only an id
/// it can say is free.
pub fn may_be_running(paths: &SessionPaths, said: &str) -> (r: Failure)
    ensures
        r@ == may_be_running_for(paths@, said@),
{
    let mut message: String = copy_text("session ");
    put(&mut message, paths.id());
    put(&mut message, " may already exist: ");
    put(&mut message, said);
    put(&mut message, ". `nomux attach ");
    put(&mut message, paths.id());
    put(&mut message, "` joins it if so");
    Failure { class: FailureClass::Uncertain, message }
}

/// Classifies a failure of the relay itself, which has already had the session.
pub fn relay_failed(said: &str) -> (r: Failure)
    ensures
        r@ == (FailureModel {
            class: FailureClass::PostConnect,
            message: "relaying to the session failed: "@ + said@,
        }),
{
    let mut message: String = copy_text("relaying to the session failed: ");
    put(&mut message, said);
    Failure { class: FailureClass::PostConnect, message }
}

/// What an attach makes of the run directory and of one probe.
pub open spec fn resumes(paths: PathsModel, there: bool, seen: Liveness) -> Result<
    (),
    FailureModel,
> {
    if !there {
        Err(no_such_session_for(paths))
    } else {
        match seen {
            Liveness::Alive => Ok(()),
            Liveness::Stale => Err(no_such_session_for(paths)),
            Liveness::Unknown { trouble, shortage } => Err(
                unattachable_for(paths, trouble@, shortage),
            ),
        }
    }
}

/// What a spawn makes of one probe under the lock.
pub open spec fn creates(paths: PathsModel, seen: Liveness) -> Result<(), FailureModel> {
    match seen {
        Liveness::Stale => Ok(()),
        Liveness::Alive => Err(already_running_for(paths)),
        Liveness::Unknown { trouble, .. } => Err(may_be_running_for(paths, trouble.message@)),
    }
}

/// `r` is the leave or the refusal that `says`.
pub open spec fn decides(r: Result<(), Failure>, says: Result<(), FailureModel>) -> bool {
    match (r, says) {
        (Ok(()), Ok(())) => true,
        (Err(found), Err(expected)) => found@ == expected,
        _ => false,
    }
}

/// What an attach makes of the run directory and of one probe: it relays to a session that
/// answers, and never invents one. `there` is whether the run directory is.
pub fn resume(paths: &SessionPaths, there: bool, seen: &Liveness) -> (r: Result<(), Failure>)
    ensures
        decides(r, resumes(paths@, there, *seen)),
        if !there {
            r matches Err(e) && e@ == no_such_session_for(paths@)
        } else {
            match *seen {
                Liveness::Alive => r is Ok,
                Liveness::Stale => r matches Err(e) && e@ == no_such_session_for(paths@),
                Liveness::Unknown { trouble, shortage } => r matches Err(e) && e@
                    == unattachable_for(paths@, trouble@, shortage),
            }
        },
{
    if !there {
        return Err(no_such_session(paths));
    }
    match seen {
        Liveness::Alive => Ok(()),
        Liveness::Stale => Err(no_such_session(paths)),
        Liveness::Unknown { trouble, shortage } => Err(unattachable(paths, trouble, *shortage)),
    }
}

/// What a spawn makes of one probe under the lock: it goes on only where nobody answers.
/// Whoever lost the race for the id is refused rather than handed the winner's session.
pub fn create(paths: &SessionPaths, seen: &Liveness) -> (r: Result<(), Failure>)
    ensures
        decides(r, creates(paths@, *seen)),
        match *seen {
            Liveness::Stale => r is Ok,
            Liveness::Alive => r matches Err(e) && e@ == already_running_for(paths@),
            Liveness::Unknown { trouble, .. } => r matches Err(e) && e@ == may_be_running_for(
                paths@,
                trouble.message@,
            ),
        },
{
    match seen {
        Liveness::Stale => Ok(()),
        Liveness::Alive => Err(already_running(paths)),
        Liveness::Unknown { trouble, .. } => Err(may_be_running(paths, trouble.message.as_str())),
    }
}

/// Classifies a run directory that could not be made or trusted: this host has no boundary
/// to keep a session behind.
pub fn run_dir_failed(e: Trouble) -> (r: Failure)
    ensures
        r@ == (FailureModel { class: FailureClass::UnsafeHost, message: e.message@ }),
{
    Failure { class: FailureClass::UnsafeHost, message: e.message }
}

/// Classifies a daemon that could not be launched at all, `said` being what the system said
/// of it: nobody has the id, and nothing is left of the attempt.
pub fn launch_failed(said: String) -> (r: Failure)
    ensures
        r@ == (FailureModel { class: FailureClass::StartupFailure, message: said@ }),
{
    Failure { class: FailureClass::StartupFailure, message: said }
}

/// Under what a lock a spawn could not take is filed.
pub open spec fn lock_class(kind: Kind) -> FailureClass {
    if kind == Kind::ResourceBusy {
        FailureClass::Retryable
    } else {
        FailureClass::UnsafeHost
    }
}

/// Whether a failure to resolve the session's paths is the caller's spelling.
pub open spec fn is_spelling(kind: Kind) -> bool {
    kind == Kind::InvalidInput
}

/// Classifies a lock a spawn could not take: one somebody holds may be asked for again.
pub fn lock_failed(e: Trouble) -> (r: Failure)
    ensures
        r@ == (FailureModel { class: lock_class(e.kind), message: e.message@ }),
        r@ == (FailureModel {
            class: if e.kind == Kind::ResourceBusy {
                FailureClass::Retryable
            } else {
                FailureClass::UnsafeHost
            },
            message: e.message@,
        }),
{
    let class = match e.kind {
        Kind::ResourceBusy => FailureClass::Retryable,
        _ => FailureClass::UnsafeHost,
    };
    Failure { class, message: e.message }
}

/// What waiting for a daemon that was started does next.
#[derive(Debug)]
pub enum Starting {
    /// It answers; wait for its pidfile.
    Publishing,
    /// Nobody answers yet; look again.
    Wait,
    /// It took too long.
    TimedOut,
    /// Who answers cannot be said.
    Refused(Failure),
}

/// What one look at the socket of a daemon that was started comes to, at `now`.
pub fn starting(paths: &SessionPaths, seen: &Liveness, now: u64, deadline: u64) -> (r: Starting)
    ensures
        match *seen {
            Liveness::Alive => r is Publishing,
            Liveness::Stale => if now >= deadline {
                r is TimedOut
            } else {
                r is Wait
            },
            Liveness::Unknown { trouble, .. } => r matches Starting::Refused(e) && e@
                == may_be_running_for(paths@, trouble.message@),
        },
{
    match seen {
        Liveness::Alive => Starting::Publishing,
        Liveness::Stale => if now >= deadline {
            Starting::TimedOut
        } else {
            Starting::Wait
        },
        Liveness::Unknown { trouble, .. } => Starting::Refused(
            may_be_running(paths, trouble.message.as_str()),
        ),
    }
}

/// What waiting for a pidfile does next.
#[derive(Debug, Clone, Copy, PartialEq, Eq, Structural)]
pub enum Publication {
    /// It is complete.
    Published,
    /// Look again after this many nanoseconds.
    Wait(u64),
    /// It took too long.
    TimedOut,
}

/// What one look at the pidfile comes to.
pub open spec fn publication_at(body: Option<Seq<u8>>, now: u64, deadline: u64) -> Publication {
    if body matches Some(body) && pid_in(body) is Some {
        Publication::Published
    } else if now >= deadline {
        Publication::TimedOut
    } else if deadline - now < PUBLISH_POLL_INTERVAL {
        Publication::Wait((deadline - now) as u64)
    } else {
        Publication::Wait(PUBLISH_POLL_INTERVAL)
    }
}

/// What one look at the pidfile comes to at `now`, `body` being what it holds where it
/// could be read: an accepted connection alone is not publication, and a complete pidfile
/// is the witness that startup finished.
pub fn await_publication(body: Option<&[u8]>, now: u64, deadline: u64) -> (r: Publication)
    ensures
        r == publication_at(bytes_in(body), now, deadline),
        r == if body matches Some(body) && pid_in(body@) is Some {
            Publication::Published
        } else if now >= deadline {
            Publication::TimedOut
        } else if deadline - now < PUBLISH_POLL_INTERVAL {
            Publication::Wait((deadline - now) as u64)
        } else {
            Publication::Wait(PUBLISH_POLL_INTERVAL)
        },
{
    if let Some(body) = body {
        if parse_pid(body).is_some() {
            return Publication::Published;
        }
    }
    if now >= deadline {
        Publication::TimedOut
    } else if deadline - now < PUBLISH_POLL_INTERVAL {
        Publication::Wait(deadline - now)
    } else {
        Publication::Wait(PUBLISH_POLL_INTERVAL)
    }
}

/// A daemon that did not finish publishing before the deadline, and what it said.
pub fn start_timed_out(paths: &SessionPaths, complaint: Option<&str>) -> (r: Failure)
    ensures
        r@ == (FailureModel {
            class: FailureClass::Uncertain,
            message: match complaint {
                Some(said) => "daemon for session "@ + paths@.id + " did not finish starting"@
                    + ": "@ + said@,
                None => "daemon for session "@ + paths@.id + " did not finish starting"@,
            },
        }),
{
    let mut message: String = copy_text("daemon for session ");
    put(&mut message, paths.id());
    put(&mut message, " did not finish starting");
    if let Some(said) = complaint {
        put(&mut message, ": ");
        put(&mut message, said);
    }
    Failure { class: FailureClass::Uncertain, message }
}

// ---------------------------------------------------------------------------
// What a daemon said
// ---------------------------------------------------------------------------

/// How long the line is that `text` begins with.
pub open spec fn line_len(text: Seq<char>) -> nat
    decreases text.len(),
{
    if text.len() == 0 || text[0] == '\n' {
        0
    } else {
        1 + line_len(text.drop_first())
    }
}

/// The first line of `text` that is not blank, without the white space around it.
pub open spec fn first_said(text: Seq<char>) -> Option<Seq<char>>
    decreases text.len(),
{
    let n = line_len(text) as int;
    let line = trim(text.take(n));
    if line.len() > 0 {
        Some(line)
    } else if 0 <= n < text.len() {
        first_said(text.skip(n + 1))
    } else {
        None
    }
}

/// What a daemon said, without the name its own reporter puts before it.
pub open spec fn said_in(text: Seq<char>) -> Option<Seq<char>> {
    match first_said(text) {
        Some(line) => match behind(line, "nomux: "@) {
            Some(rest) => Some(rest),
            None => Some(line),
        },
        None => None,
    }
}

/// How long the line is that `text` begins with.
fn first_line_len(text: &[char]) -> (r: usize)
    ensures
        r == line_len(text@),
        r <= text@.len(),
{
    let mut i: usize = 0;
    assert(text@.skip(0) =~= text@);
    while i < text.len() && text[i] != '\n'
        invariant
            i <= text@.len(),
            line_len(text@) == i + line_len(text@.skip(i as int)),
        decreases text@.len() - i,
    {
        assert(text@.skip(i as int).drop_first() =~= text@.skip(i + 1));
        i += 1;
    }
    i
}

/// What a daemon said: the first line that is not blank, without the name its own reporter
/// puts before it.
pub fn complaint_line(text: &str) -> (r: Option<String>)
    ensures
        match said_in(text@) {
            Some(said) => r matches Some(found) && found@ == said,
            None => r is None,
        },
{
    let chars: Vec<char> = chars_of(text);
    let mut rest: &[char] = chars.as_slice();
    loop
        invariant
            first_said(text@) == first_said(rest@),
        decreases rest@.len(),
    {
        let n: usize = first_line_len(rest);
        let head: &[char] = vstd::slice::slice_subrange(rest, 0, n);
        assert(head@ =~= rest@.take(n as int));
        let line: &[char] = trimmed(head);
        if line.len() > 0 {
            return match strip(line, "nomux: ") {
                Some(said) => Some(text_of(said)),
                None => Some(text_of(line)),
            };
        }
        if n >= rest.len() {
            return None;
        }
        assert(rest@.subrange(n + 1, rest@.len() as int) =~= rest@.skip(n + 1));
        rest = vstd::slice::slice_subrange(rest, n + 1, rest.len());
    }
}

/// Whatever a daemon managed to say before it stopped saying anything, escaped: it is
/// another process's stderr on its way to a terminal.
pub fn daemon_complaint(stderr: &[u8]) -> (r: Option<String>)
    ensures
        match said_in(lossy(stderr@)) {
            Some(said) => r matches Some(found) && found@ == escaped(said),
            None => r is None,
        },
{
    match complaint_line(lossy_text(stderr).as_str()) {
        Some(said) => Some(escaped_text(said.as_str())),
        None => None,
    }
}

// ---------------------------------------------------------------------------
// Laws
// ---------------------------------------------------------------------------

/// A probe that establishes nothing never licenses a spawn and never calls a session
/// missing: retrying, or looking at the host, is all it earns.
pub proof fn an_unanswered_probe_establishes_nothing(kind: Kind, shortage: Option<Shortage>)
    ensures
        probe_class(kind, shortage) != FailureClass::MissingSession,
        probe_class(kind, shortage) != FailureClass::Collision,
        probe_class(kind, shortage) != FailureClass::StartupFailure,
        shortage is Some ==> probe_class(kind, shortage) == FailureClass::Retryable,
{
}

/// What clears by itself may be asked again: a probe that ran out of time, of room or of
/// memory, or that a signal cut short. A socket this user may not speak to is the host's
/// fault, and nothing else establishes anything.
pub proof fn only_what_clears_is_asked_again(kind: Kind)
    ensures
        ({
            let clears = kind == Kind::TimedOut || kind == Kind::WouldBlock || kind
                == Kind::Interrupted || kind == Kind::OutOfMemory;
            &&& probe_class(kind, None) == FailureClass::Retryable <==> clears
            &&& probe_class(kind, None) == FailureClass::UnsafeHost <==> kind
                == Kind::PermissionDenied
            &&& !clears && kind != Kind::PermissionDenied ==> probe_class(kind, None)
                == FailureClass::Uncertain
        }),
{
}

/// An attach joins a session that answers and never invents one: with nobody answering, or no
/// run directory at all, the session is missing, and where neither was established it says
/// why. A spawn makes one only where nobody answers: with somebody answering the id is taken,
/// and where neither was established it may be.
pub proof fn an_attach_joins_and_a_spawn_creates(
    paths: PathsModel,
    trouble: Trouble,
    shortage: Option<Shortage>,
    seen: Liveness,
)
    ensures
        ({
            let unknown = Liveness::Unknown { trouble, shortage };
            &&& resumes(paths, true, Liveness::Alive) is Ok
            &&& resumes(paths, true, Liveness::Stale) matches Err(e) && e.class
                == FailureClass::MissingSession
            &&& resumes(paths, false, seen) matches Err(e) && e.class
                == FailureClass::MissingSession
            &&& resumes(paths, true, unknown) matches Err(e) && e.class == probe_class(
                trouble.kind,
                shortage,
            )
            &&& creates(paths, Liveness::Stale) is Ok
            &&& creates(paths, Liveness::Alive) matches Err(e) && e.class
                == FailureClass::Collision
            &&& creates(paths, unknown) matches Err(e) && e.class == FailureClass::Uncertain
            &&& creates(paths, seen) is Ok ==> !(resumes(paths, true, seen) is Ok)
        }),
{
}

/// A daemon is published once its pidfile is whole, and not before: with any less it is
/// looked for again, soon and never past the deadline, and given up at it.
pub proof fn publication_is_a_whole_pidfile(
    pid: u32,
    body: Option<Seq<u8>>,
    now: u64,
    deadline: u64,
)
    requires
        0 < pid <= i32::MAX,
    ensures
        publication_at(
            Some(vstd::utf8::encode_utf8(pid_body_of(pid))),
            now,
            deadline,
        ) == Publication::Published,
        body is None || pid_in(body->0) is None ==> {
            &&& now >= deadline ==> publication_at(body, now, deadline) == Publication::TimedOut
            &&& now < deadline ==> (publication_at(body, now, deadline) matches Publication::Wait(
                nanos,
            ) && 0 < nanos <= 1_000_000 && now + nanos <= deadline && (nanos == 1_000_000 || now
                + nanos == deadline))
        },
{
    a_pidfile_reads_back(pid);
}

/// A line is as long as it is up to its newline.
proof fn lemma_line_len(line: Seq<char>, rest: Seq<char>)
    requires
        !line.contains('\n'),
        rest.len() > 0 ==> rest[0] == '\n',
    ensures
        line_len(line + rest) == line.len(),
    decreases line.len(),
{
    let all = line + rest;
    if line.len() == 0 {
        assert(all =~= rest);
    } else {
        assert(line.contains(line[0]));
        assert(all[0] == line[0]);
        assert(all.drop_first() =~= line.drop_first() + rest);
        assert(!line.drop_first().contains('\n')) by {
            if line.drop_first().contains('\n') {
                let i = choose|i: int| 0 <= i < line.drop_first().len() && line.drop_first()[i]
                    == '\n';
                assert(line[i + 1] == '\n');
            }
        }
        lemma_line_len(line.drop_first(), rest);
    }
}

/// The first line with anything on it is the one that is said, whatever white space is in
/// front of it.
proof fn lemma_first_said(blank: Seq<char>, line: Seq<char>, rest: Seq<char>)
    requires
        all_space(blank),
        line.len() > 0,
        !is_space(line[0]),
        !is_space(line.last()),
        !line.contains('\n'),
        rest.len() > 0 ==> rest[0] == '\n',
    ensures
        first_said(blank + line + rest) == Some(line),
    decreases blank.len(),
{
    let all = blank + line + rest;
    let none = Seq::<char>::empty();
    if blank.contains('\n') {
        let k = first_newline(blank);
        let head = blank.take(k);
        let after = blank.skip(k + 1);
        lemma_line_len(head, seq!['\n'] + after + line + rest);
        assert(all =~= head + (seq!['\n'] + after + line + rest));
        assert(all.take(k) =~= head);
        assert(all_space(head));
        trimming_takes_what_surrounds(head, none, none);
        assert(head + none + none =~= head);
        assert(all.skip(k + 1) =~= after + line + rest);
        assert forall|i: int| 0 <= i < after.len() implies is_space(#[trigger] after[i]) by {
            assert(after[i] == blank[k + 1 + i]);
        }
        lemma_first_said(after, line, rest);
    } else {
        let whole = blank + line;
        assert(!whole.contains('\n')) by {
            if whole.contains('\n') {
                let i = choose|i: int| 0 <= i < whole.len() && whole[i] == '\n';
                if i < blank.len() {
                    assert(blank[i] == '\n');
                } else {
                    assert(line[i - blank.len()] == '\n');
                }
            }
        }
        lemma_line_len(whole, rest);
        assert(all.take(whole.len() as int) =~= whole);
        trimming_takes_what_surrounds(blank, line, none);
        assert(blank + line + none =~= whole);
    }
}

/// Where the first newline is.
proof fn first_newline(s: Seq<char>) -> (k: int)
    requires
        s.contains('\n'),
    ensures
        0 <= k < s.len(),
        s[k] == '\n',
        !s.take(k).contains('\n'),
    decreases s.len(),
{
    let i = choose|i: int| 0 <= i < s.len() && s[i] == '\n';
    if s.take(i).contains('\n') {
        let k = first_newline(s.take(i));
        assert(s.take(i).take(k) =~= s.take(k));
        k
    } else {
        i
    }
}

/// What a daemon said is the first line with anything on it, without the white space around
/// it and without the name its own reporter puts before it; with nothing but white space it
/// said nothing.
pub proof fn what_a_daemon_said_is_its_first_line(
    blank: Seq<char>,
    line: Seq<char>,
    rest: Seq<char>,
)
    requires
        all_space(blank),
        line.len() > 0,
        !is_space(line[0]),
        !is_space(line.last()),
        !line.contains('\n'),
        rest.len() > 0 ==> rest[0] == '\n',
    ensures
        said_in(blank + line + rest) == if line.len() >= 7 && line.subrange(0, 7) == "nomux: "@ {
            Some(line.subrange(7, line.len() as int))
        } else {
            Some(line)
        },
        said_in(Seq::empty()) is None,
{
    reveal_strlit("nomux: ");
    lemma_first_said(blank, line, rest);
    if line.len() >= 7 {
        assert(line.take(7) =~= line.subrange(0, 7));
        assert(line.skip(7) =~= line.subrange(7, line.len() as int));
    }
    let none = Seq::<char>::empty();
    trimming_takes_what_surrounds(none, none, none);
    assert(none + none + none =~= none);
    assert(none.take(0) =~= none);
}

/// A lock somebody holds may be asked for again, and any other that cannot be had is the
/// host's fault; an id that could never be is the caller's spelling, and anything else is not.
pub proof fn only_a_held_lock_is_asked_for_again(kind: Kind)
    ensures
        lock_class(Kind::ResourceBusy) == FailureClass::Retryable,
        kind != Kind::ResourceBusy ==> lock_class(kind) == FailureClass::UnsafeHost,
        is_spelling(kind) <==> kind == Kind::InvalidInput,
{
}

} // verus!
