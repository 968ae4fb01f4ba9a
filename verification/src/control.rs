//! The frozen control surface: what listing and killing sessions decide.
//!
//! Both must work against a daemon of *any* version, so they go by the on-disk layout and
//! by what the kernel says of a process — never by a protocol frame.
use vstd::prelude::*;
use vstd::utf8::{decode_utf8, encode_utf8};

use crate::agent::{after, later};
use crate::args::{parse_session_args, text_in, ArgsModel};
use crate::fields::{
    a_separator_cuts, before_last, copy_bytes, head_of, joined, lemma_joined, pieces, rows, split,
    the_last_separator_is_the_last,
};
use crate::launcher::{
    a_daemon_reads_its_own_command_line, daemon_line, encoded, lemma_bare_options,
    lemma_id_is_no_option, lemma_reads,
};
use crate::rundir::{is_id, parse_pid, pid_in, PathsModel, SessionPaths, MAX_PID_LEN};
use crate::text::{
    copy_text, digits, lossy, lossy_text, numbers_read_back, put, quoted, quoted_text, same,
    same_bytes, signed_decimal, signed_digits,
};
use crate::trouble::{comes_to, Kind, Trouble, TroubleModel};

verus! {

/// How long one stage of a kill waits, in nanoseconds: for the lock, for the pid, and for
/// an orderly end.
pub const GRACE: u64 = 2_000_000_000;

/// How long a kill waits once more after its last signal.
pub const KILL_GRACE: u64 = 500_000_000;

/// How often a kill looks again.
pub const POLL_INTERVAL: u64 = 25_000_000;

/// The prefix of a command line that is read: long enough for a complete
/// `<path> daemon <id>`.
pub const MAX_CMDLINE_LEN: usize = 4096 + 1 + 6 + 1 + 64 + 1;

// ---------------------------------------------------------------------------
// Whose process it is
// ---------------------------------------------------------------------------

/// A daemon's arguments, with a value for a bare option a truncated read may have cut the
/// value off.
pub open spec fn completed(args: Seq<Seq<u8>>, truncated: bool) -> Seq<Seq<u8>> {
    if !truncated || args.len() == 0 {
        args
    } else if args.last() == encode_utf8("--label"@) {
        args.push(Seq::empty())
    } else if args.last() == encode_utf8("--lock-fd"@) {
        args.push(encode_utf8("3"@))
    } else {
        args
    }
}

/// The session a NUL-separated command line names, where it is that of a daemon.
pub open spec fn daemon_session(whole: Seq<u8>, truncated: bool) -> Option<Seq<char>> {
    let argv = pieces(whole, 0);
    if argv.len() < 2 || argv[1] != encode_utf8("daemon"@) {
        None
    } else {
        match ArgsModel::empty().parsed(completed(argv.skip(2), truncated), 0, true) {
            Ok(parsed) => parsed.session,
            Err(_) => None,
        }
    }
}

/// Whether a NUL-separated command line is `<exe> daemon <id>`, however it was spelled:
/// parsed the way a daemon parses it rather than searched, so that a label never stands in
/// for the id.
pub fn names_daemon_prefix(whole: &[u8], id: &str, truncated: bool) -> (r: bool)
    ensures
        r == (daemon_session(whole@, truncated) == Some(id@)),
{
    let argv: Vec<Vec<u8>> = split(whole, 0);
    assert(argv@.len() == rows(argv@).len());
    if argv.len() < 2 {
        return false;
    }
    assert(rows(argv@)[1] == argv@[1]@);
    if !same_bytes(argv[1].as_slice(), "daemon".as_bytes()) {
        return false;
    }
    let mut args: Vec<Vec<u8>> = Vec::new();
    let mut i: usize = 2;
    assert(rows(args@) =~= rows(argv@).subrange(2, 2));
    while i < argv.len()
        invariant
            2 <= i <= argv@.len(),
            rows(args@) == rows(argv@).subrange(2, i as int),
        decreases argv@.len() - i,
    {
        let ghost before = args@;
        let arg: Vec<u8> = copy_bytes(argv[i].as_slice());
        args.push(arg);
        proof {
            assert(rows(args@) =~= rows(before).push(arg@));
            assert(rows(argv@)[i as int] == arg@);
            assert(rows(args@) =~= rows(argv@).subrange(2, i + 1));
        }
        i += 1;
    }
    assert(rows(args@) =~= rows(argv@).skip(2));
    let ghost given = args@;
    if truncated && args.len() > 0 {
        let last: &[u8] = args[args.len() - 1].as_slice();
        assert(rows(given).last() == last@);
        if same_bytes(last, "--label".as_bytes()) {
            let empty: Vec<u8> = Vec::new();
            args.push(empty);
            assert(rows(args@) =~= rows(given).push(Seq::empty()));
        } else if same_bytes(last, "--lock-fd".as_bytes()) {
            let three: Vec<u8> = copy_bytes("3".as_bytes());
            args.push(three);
            assert(rows(args@) =~= rows(given).push(encode_utf8("3"@)));
        }
    }
    assert(rows(args@) == completed(rows(argv@).skip(2), truncated));
    match parse_session_args(args.as_slice(), true) {
        Ok(parsed) => match parsed.session {
            Some(session) => same(session.as_str(), id),
            None => false,
        },
        Err(_) => false,
    }
}

/// Whether the process with command line `body` — the first [`MAX_CMDLINE_LEN`] bytes of
/// it, all of it where it is shorter — is a daemon of session `id`, where that can be
/// established.
pub open spec fn is_daemon_of(body: Seq<u8>, id: Seq<char>) -> Option<bool> {
    let whole = body.take(before_last(body, 0) as int);
    let truncated = body.len() == MAX_CMDLINE_LEN;
    if daemon_session(whole, truncated) == Some(id) {
        Some(true)
    } else if !truncated || whole.contains(0u8) {
        Some(false)
    } else {
        None
    }
}

/// Whether `whole` holds a NUL.
fn holds_nul(whole: &[u8]) -> (r: bool)
    ensures
        r == whole@.contains(0u8),
{
    crate::wire::has_nul(whole)
}

/// Whether the process with this command line is a daemon of session `id`, where that can
/// be established.
///
/// Every argument ends in a NUL, so what is before the last one is arguments the read saw
/// the end of. A full buffer is still a definitive no wherever the word behind the program
/// arrived whole.
pub fn is_daemon_for(body: &[u8], id: &str) -> (r: Option<bool>)
    ensures
        r == is_daemon_of(body@, id@),
{
    let whole: &[u8] = head_of(body, 0);
    let truncated: bool = body.len() == MAX_CMDLINE_LEN;
    if names_daemon_prefix(whole, id, truncated) {
        return Some(true);
    }
    if !truncated || holds_nul(whole) {
        Some(false)
    } else {
        None
    }
}

/// The published pid, unless the process wearing it is established to be another's.
pub open spec fn identified_as(filed: Option<i32>, daemon: Option<bool>) -> Option<i32> {
    match daemon {
        Some(false) => None,
        _ => filed,
    }
}

/// The published pid, unless the process wearing it is established to be another's:
/// `daemon` is what was found of that process.
pub fn identified(filed: Option<i32>, daemon: Option<bool>) -> (r: Option<i32>)
    ensures
        r == identified_as(filed, daemon),
        r == if daemon == Some(false) {
            None
        } else {
            filed
        },
{
    match daemon {
        Some(false) => None,
        _ => filed,
    }
}

// ---------------------------------------------------------------------------
// What is said
// ---------------------------------------------------------------------------

/// A refusal to act on what the run directory says.
pub open spec fn bad_data(message: Seq<char>) -> TroubleModel {
    TroubleModel { kind: Kind::InvalidData, message }
}

/// The account of a live session whose pid is not knowable.
pub open spec fn running_but_for(paths: PathsModel, problem: Seq<char>) -> TroubleModel {
    bad_data(
        "session "@ + paths.id + " is running, but "@ + lossy(paths.file("pid"@)) + ": "@ + problem,
    )
}

/// The account of a probe that never reached the session.
pub open spec fn unprobeable_for(paths: PathsModel, problem: Seq<char>) -> TroubleModel {
    bad_data(
        "session "@ + paths.id + ": "@ + lossy(paths.file("sock"@)) + " could not be probed: "@
            + problem,
    )
}

/// The account of a session that answered again under the lock.
pub open spec fn bound_since_for(paths: PathsModel) -> TroubleModel {
    TroubleModel {
        kind: Kind::AddrInUse,
        message: "session "@ + paths.id + " is answering on "@ + lossy(paths.file("sock"@))
            + " again: a daemon bound the id after this kill established it was gone"@,
    }
}

/// Why no process was chosen over a session that is answering.
pub open spec fn unidentified_for(id: Seq<char>, filed: Option<i32>, body: Seq<u8>) -> Seq<char> {
    match filed {
        Some(pid) => "it names pid "@ + signed_digits(pid as int)
            + ", which is not a `nomux daemon "@ + id + "` process"@,
        None => if body.len() >= MAX_PID_LEN {
            "it runs past the 32 bytes a pidfile may be, so any number in it is cut off rather than read; it begins "@
                + quoted(lossy(body))
        } else {
            match pid_in(body) {
                Some(pid) => "pid "@ + signed_digits(pid as int)
                    + " names no process this user can signal"@,
                None => "it holds "@ + quoted(lossy(body)),
            }
        },
    }
}

/// The account of a session that outlived both graces: exactly which signals reached the
/// process and which could not be sent.
pub open spec fn still_answering_for(
    id: Seq<char>,
    pid: i32,
    term: Option<Seq<char>>,
    kill: Option<Seq<char>>,
) -> Seq<char> {
    let n = signed_digits(pid as int);
    match (term, kill) {
        (None, None) => "session "@ + id
            + " is still answering after SIGTERM and SIGKILL to pid "@ + n
            + ", so that pid is not the process serving it"@,
        (Some(term), Some(kill)) => "session "@ + id
            + " is still answering, and neither SIGTERM nor SIGKILL was sent to pid "@ + n
            + " (SIGTERM: "@ + term + "; SIGKILL: "@ + kill + ")"@,
        (None, Some(kill)) => "session "@ + id + " is still answering after SIGTERM to pid "@ + n
            + "; SIGKILL could not be sent ("@ + kill + ")"@,
        (Some(term), None) => "session "@ + id + " is still answering after SIGKILL to pid "@ + n
            + ", so that pid is not the process serving it; SIGTERM could not be sent ("@ + term
            + ")"@,
    }
}

/// Refuses to touch a live session whose pid is not knowable. It names the pidfile because
/// that is the one thing the user can repair.
pub fn running_but(paths: &SessionPaths, problem: &str) -> (r: Trouble)
    ensures
        r@ == running_but_for(paths@, problem@),
{
    let mut message: String = copy_text("session ");
    put(&mut message, paths.id());
    put(&mut message, " is running, but ");
    put(&mut message, lossy_text(paths.pid().as_slice()).as_str());
    put(&mut message, ": ");
    put(&mut message, problem);
    Trouble { kind: Kind::InvalidData, message }
}

/// Refuses to decide a session's fate on a probe that never reached it.
pub fn unprobeable(paths: &SessionPaths, problem: &str) -> (r: Trouble)
    ensures
        r@ == unprobeable_for(paths@, problem@),
{
    let mut message: String = copy_text("session ");
    put(&mut message, paths.id());
    put(&mut message, ": ");
    put(&mut message, lossy_text(paths.socket().as_slice()).as_str());
    put(&mut message, " could not be probed: ");
    put(&mut message, problem);
    Trouble { kind: Kind::InvalidData, message }
}

/// Refuses to collect a session that answered again under the lock: a live session to leave
/// alone, and a kill overtaken by a spawn, which running the command again repairs.
pub fn bound_since(paths: &SessionPaths) -> (r: Trouble)
    ensures
        r@ == bound_since_for(paths@),
{
    let mut message: String = copy_text("session ");
    put(&mut message, paths.id());
    put(&mut message, " is answering on ");
    put(&mut message, lossy_text(paths.socket().as_slice()).as_str());
    put(
        &mut message,
        " again: a daemon bound the id after this kill established it was gone",
    );
    Trouble { kind: Kind::AddrInUse, message }
}

/// Why no process was chosen. A body that reached the bound is quoted as bytes rather than
/// as a number whose end was never read.
pub fn unidentified(id: &str, filed: Option<i32>, body: &[u8]) -> (r: String)
    ensures
        r@ == unidentified_for(id@, filed, body@),
{
    match filed {
        Some(pid) => {
            let mut said: String = copy_text("it names pid ");
            put(&mut said, signed_decimal(pid).as_str());
            put(&mut said, ", which is not a `nomux daemon ");
            put(&mut said, id);
            put(&mut said, "` process");
            said
        },
        None => {
            if body.len() >= MAX_PID_LEN {
                let mut said: String = copy_text(
                    "it runs past the 32 bytes a pidfile may be, so any number in it is cut off rather than read; it begins ",
                );
                put(&mut said, quoted_text(lossy_text(body).as_str()).as_str());
                return said;
            }
            match parse_pid(body) {
                Some(pid) => {
                    let mut said: String = copy_text("pid ");
                    put(&mut said, signed_decimal(pid).as_str());
                    put(&mut said, " names no process this user can signal");
                    said
                },
                None => {
                    let mut said: String = copy_text("it holds ");
                    put(&mut said, quoted_text(lossy_text(body).as_str()).as_str());
                    said
                },
            }
        },
    }
}

/// What sending a signal came to: nothing where it was sent, and otherwise why it was not.
pub type Sent = Option<String>;

/// The account of a session that was answering still when both graces ran out, naming
/// exactly which signals reached the process and which could not be sent.
pub fn still_answering(id: &str, pid: i32, term: &Sent, kill: &Sent) -> (r: String)
    ensures
        r@ == still_answering_for(id@, pid, text_in(*term), text_in(*kill)),
{
    let mut said: String = copy_text("session ");
    put(&mut said, id);
    match (term, kill) {
        (None, None) => {
            put(&mut said, " is still answering after SIGTERM and SIGKILL to pid ");
            put(&mut said, signed_decimal(pid).as_str());
            put(&mut said, ", so that pid is not the process serving it");
        },
        (Some(term), Some(kill)) => {
            put(&mut said, " is still answering, and neither SIGTERM nor SIGKILL was sent to pid ");
            put(&mut said, signed_decimal(pid).as_str());
            put(&mut said, " (SIGTERM: ");
            put(&mut said, term.as_str());
            put(&mut said, "; SIGKILL: ");
            put(&mut said, kill.as_str());
            put(&mut said, ")");
        },
        (None, Some(kill)) => {
            put(&mut said, " is still answering after SIGTERM to pid ");
            put(&mut said, signed_decimal(pid).as_str());
            put(&mut said, "; SIGKILL could not be sent (");
            put(&mut said, kill.as_str());
            put(&mut said, ")");
        },
        (Some(term), None) => {
            put(&mut said, " is still answering after SIGKILL to pid ");
            put(&mut said, signed_decimal(pid).as_str());
            put(
                &mut said,
                ", so that pid is not the process serving it; SIGTERM could not be sent (",
            );
            put(&mut said, term.as_str());
            put(&mut said, ")");
        },
    }
    said
}

/// One line of a listing.
pub open spec fn listed(id: Seq<char>, pid: Option<i32>, label: Seq<char>) -> Seq<char> {
    id + "\t"@ + (match pid {
        Some(pid) => signed_digits(pid as int),
        None => "?"@,
    }) + "\t"@ + label + "\n"@
}

/// One line of a listing: the id, the pid where it is known, and the label.
pub fn list_line(id: &str, pid: Option<i32>, label: &str) -> (r: String)
    ensures
        r@ == listed(id@, pid, label@),
        r@ == id@ + "\t"@ + (match pid {
            Some(pid) => signed_digits(pid as int),
            None => "?"@,
        }) + "\t"@ + label@ + "\n"@,
{
    let mut line: String = copy_text(id);
    put(&mut line, "\t");
    match pid {
        Some(pid) => put(&mut line, signed_decimal(pid).as_str()),
        None => put(&mut line, "?"),
    }
    put(&mut line, "\t");
    put(&mut line, label);
    put(&mut line, "\n");
    line
}

/// What a listing does with one session.
#[derive(Debug, Clone, Copy, PartialEq, Eq, Structural)]
pub enum Entry {
    /// It is dead: collect its files, if nobody else is at it.
    Collect,
    /// It is not, and there is nowhere left to print to.
    Skip,
    /// Print its line.
    Print,
}

/// What a listing does with one session.
pub open spec fn entry_for(answer: Answer, listening: bool) -> Entry {
    match answer {
        Answer::Stale => Entry::Collect,
        _ => if listening {
            Entry::Print
        } else {
            Entry::Skip
        },
    }
}

/// What a listing does with one session, `listening` being whether whoever reads the listing
/// still does. Only death collects; a probe that established nothing leaves a session to
/// list, and the sweep goes on though nobody reads.
pub fn list_entry(answer: &Answer, listening: bool) -> (r: Entry)
    ensures
        r == entry_for(*answer, listening),
        r == if answer is Stale {
            Entry::Collect
        } else if listening {
            Entry::Print
        } else {
            Entry::Skip
        },
{
    match answer {
        Answer::Stale => Entry::Collect,
        _ => if listening {
            Entry::Print
        } else {
            Entry::Skip
        },
    }
}

/// What is said of a session whose paths cannot be built, which a listing can neither print
/// nor collect.
pub fn unlistable(problem: &str) -> (r: String)
    ensures
        r@ == problem@ + "; its files are left where they are"@,
{
    let mut said: String = copy_text(problem);
    put(&mut said, "; its files are left where they are");
    said
}

// ---------------------------------------------------------------------------
// What a kill does
// ---------------------------------------------------------------------------

/// What asking a session's socket came back with.
#[derive(Debug)]
pub enum Answer {
    /// Somebody answers.
    Alive,
    /// Nobody does: the connection was refused, or there is no socket.
    Stale,
    /// Neither was established, and this is what the system said.
    Unknown(String),
}

/// What reading a session's pidfile came back with.
#[derive(Debug)]
pub enum Pidfile {
    /// It was read.
    Body {
        /// What it holds.
        body: Vec<u8>,
        /// The pid it names, where that is a process this user may signal.
        filed: Option<i32>,
        /// Whether that process is the session's daemon, where that was established.
        daemon: Option<bool>,
    },
    /// It is not there.
    Missing,
    /// It could not be read, and this is what the system said.
    Unreadable(String),
}

/// What finding the process to signal comes to.
#[derive(Debug)]
pub enum Resolved {
    /// Nothing is listening, and the files are all that is left.
    Nobody,
    /// This process is to be signalled.
    Process(i32),
    /// The pid is still being published; look again.
    Wait,
    /// It cannot be found.
    Refused(Trouble),
}

/// What a [`Resolved`] holds.
#[verifier::ext_equal]
pub enum ResolvedModel {
    Nobody,
    Process(i32),
    Wait,
    Refused(TroubleModel),
}

impl View for Resolved {
    type V = ResolvedModel;

    open spec fn view(&self) -> ResolvedModel {
        match *self {
            Resolved::Nobody => ResolvedModel::Nobody,
            Resolved::Process(pid) => ResolvedModel::Process(pid),
            Resolved::Wait => ResolvedModel::Wait,
            Resolved::Refused(e) => ResolvedModel::Refused(e@),
        }
    }
}

/// Whether a byte is ASCII white space.
pub open spec fn is_blank(b: u8) -> bool {
    b == 0x20 || b == 0x09 || b == 0x0a || b == 0x0c || b == 0x0d
}

/// Whether a body holds nothing but ASCII white space.
pub open spec fn all_blank(body: Seq<u8>) -> bool {
    forall|i: int| 0 <= i < body.len() ==> is_blank(#[trigger] body[i])
}

/// Whether a body holds nothing but ASCII white space.
fn blank(body: &[u8]) -> (r: bool)
    ensures
        r == all_blank(body@),
{
    let mut i: usize = 0;
    while i < body.len()
        invariant
            i <= body@.len(),
            forall|k: int| 0 <= k < i ==> is_blank(#[trigger] body@[k]),
        decreases body@.len() - i,
    {
        let b: u8 = body[i];
        if !(b == 0x20 || b == 0x09 || b == 0x0a || b == 0x0c || b == 0x0d) {
            assert(!is_blank(body@[i as int]));
            return false;
        }
        i += 1;
    }
    true
}

/// Which refusal a session no process could be named for has earned: only an accepted
/// connection establishes that it is running.
pub open spec fn unresolved_for(
    paths: PathsModel,
    answer: Answer,
    problem: Seq<char>,
) -> TroubleModel {
    match answer {
        Answer::Unknown(said) => unprobeable_for(paths, said@),
        _ => running_but_for(paths, problem),
    }
}

/// What one look at the socket and the pidfile comes to.
///
/// Liveness first, and only then the pid: a daemon that died without unlinking leaves its
/// pidfile behind, and the kernel reuses pids. A pid that nothing rules out is taken
/// whatever the probe did, because it names a process by a route the socket has no part in.
pub open spec fn resolves(
    paths: PathsModel,
    answer: Answer,
    pidfile: Pidfile,
    now: u64,
    deadline: u64,
) -> ResolvedModel {
    if answer is Stale {
        ResolvedModel::Nobody
    } else {
        match pidfile {
            Pidfile::Unreadable(said) => ResolvedModel::Refused(
                unresolved_for(paths, answer, said@),
            ),
            Pidfile::Body { body, filed, daemon } if !all_blank(body@) => if filed is Some
                && daemon != Some(false) {
                ResolvedModel::Process(filed->0)
            } else {
                ResolvedModel::Refused(
                    unresolved_for(paths, answer, unidentified_for(paths.id, filed, body@)),
                )
            },
            _ => if now < deadline {
                ResolvedModel::Wait
            } else {
                ResolvedModel::Refused(
                    unresolved_for(
                        paths,
                        answer,
                        if pidfile is Missing {
                            "it never appeared"@
                        } else {
                            "it was created but never written"@
                        },
                    ),
                )
            },
        }
    }
}

/// Words the refusal a session no process could be named for has earned.
fn unresolved(paths: &SessionPaths, answer: &Answer, problem: &str) -> (r: Trouble)
    ensures
        r@ == unresolved_for(paths@, *answer, problem@),
{
    match answer {
        Answer::Unknown(said) => unprobeable(paths, said.as_str()),
        _ => running_but(paths, problem),
    }
}

/// Finds the process a locked session's daemon is, from one look at its socket and its
/// pidfile at `now`.
pub fn resolve(
    paths: &SessionPaths,
    answer: &Answer,
    pidfile: &Pidfile,
    now: u64,
    deadline: u64,
) -> (r: Resolved)
    ensures
        r@ == resolves(paths@, *answer, *pidfile, now, deadline),
{
    if let Answer::Stale = answer {
        return Resolved::Nobody;
    }
    let waiting_on: &str = match pidfile {
        Pidfile::Unreadable(said) => {
            return Resolved::Refused(unresolved(paths, answer, said.as_str()));
        },
        Pidfile::Body { body, filed, daemon } => {
            if !blank(body.as_slice()) {
                return match identified(*filed, *daemon) {
                    Some(pid) => Resolved::Process(pid),
                    None => {
                        let problem: String = unidentified(paths.id(), *filed, body.as_slice());
                        Resolved::Refused(unresolved(paths, answer, problem.as_str()))
                    },
                };
            }
            "it was created but never written"
        },
        Pidfile::Missing => "it never appeared",
    };
    if now >= deadline {
        return Resolved::Refused(unresolved(paths, answer, waiting_on));
    }
    Resolved::Wait
}

/// A kill under way: the process was sent its first signal.
#[derive(Debug)]
pub struct Killing {
    /// The process.
    pub pid: i32,
    /// What sending `SIGTERM` came to.
    pub term: Sent,
    /// What sending `SIGKILL` came to, once it was sent.
    pub killed: Option<Sent>,
    /// When this stage runs out.
    pub deadline: u64,
}

/// What a kill does next.
#[derive(Debug)]
pub enum KillStep {
    /// The session let go; see once more under the lock, and remove its files.
    Gone,
    /// Wait, and look again.
    Wait,
    /// Send `SIGKILL`, say what that came to, wait, and look again.
    SendKill,
    /// Give up.
    Refused(Trouble),
}

/// What a [`KillStep`] holds.
#[verifier::ext_equal]
pub enum KillStepModel {
    Gone,
    Wait,
    SendKill,
    Refused(TroubleModel),
}

impl View for KillStep {
    type V = KillStepModel;

    open spec fn view(&self) -> KillStepModel {
        match *self {
            KillStep::Gone => KillStepModel::Gone,
            KillStep::Wait => KillStepModel::Wait,
            KillStep::SendKill => KillStepModel::SendKill,
            KillStep::Refused(e) => KillStepModel::Refused(e@),
        }
    }
}

impl Killing {
    /// A kill whose first signal was just sent.
    pub open spec fn started(pid: i32, term: Sent, now: u64) -> Killing {
        Killing { pid, term, killed: None, deadline: later(now, GRACE) }
    }

    /// A kill whose last signal was just sent.
    pub open spec fn escalates(self, kill: Sent, now: u64) -> Killing {
        Killing { killed: Some(kill), deadline: later(now, KILL_GRACE), ..self }
    }

    /// What one look at the socket at `now` comes to.
    pub open spec fn sees(self, paths: PathsModel, answer: Answer, now: u64) -> KillStepModel {
        match answer {
            Answer::Stale => KillStepModel::Gone,
            Answer::Unknown(said) => KillStepModel::Refused(unprobeable_for(paths, said@)),
            Answer::Alive => if now < self.deadline {
                KillStepModel::Wait
            } else {
                match self.killed {
                    None => KillStepModel::SendKill,
                    Some(kill) => KillStepModel::Refused(
                        bad_data(
                            still_answering_for(
                                paths.id,
                                self.pid,
                                text_in(self.term),
                                text_in(kill),
                            ),
                        ),
                    ),
                }
            },
        }
    }

    /// A kill whose first signal was just sent.
    pub fn begun(pid: i32, term: Sent, now: u64) -> (r: Killing)
        ensures
            r == Killing::started(pid, term, now),
            r == (Killing { pid, term, killed: None, deadline: later(now, GRACE) }),
    {
        Killing { pid, term, killed: None, deadline: after(now, GRACE) }
    }

    /// What one look at the socket at `now` comes to.
    ///
    /// Liveness first, deadline second, so a daemon that let go on the last interval is not
    /// signalled again. A probe that never reached the socket may neither be waited out nor
    /// escalated on.
    pub fn look(&self, paths: &SessionPaths, answer: &Answer, now: u64) -> (r: KillStep)
        ensures
            r@ == self.sees(paths@, *answer, now),
            match *answer {
                Answer::Stale => r is Gone,
                Answer::Unknown(said) => r matches KillStep::Refused(e) && e@ == unprobeable_for(
                    paths@,
                    said@,
                ),
                Answer::Alive => if now < self.deadline {
                    r is Wait
                } else {
                    match self.killed {
                        None => r is SendKill,
                        Some(kill) => r matches KillStep::Refused(e) && e@ == bad_data(
                            still_answering_for(
                                paths@.id,
                                self.pid,
                                text_in(self.term),
                                text_in(kill),
                            ),
                        ),
                    }
                },
            },
    {
        match answer {
            Answer::Stale => {
                return KillStep::Gone;
            },
            Answer::Unknown(said) => {
                return KillStep::Refused(unprobeable(paths, said.as_str()));
            },
            Answer::Alive => {},
        }
        if now < self.deadline {
            return KillStep::Wait;
        }
        match &self.killed {
            None => KillStep::SendKill,
            Some(kill) => KillStep::Refused(
                Trouble {
                    kind: Kind::InvalidData,
                    message: still_answering(paths.id(), self.pid, &self.term, kill),
                },
            ),
        }
    }

    /// Records what sending `SIGKILL` came to.
    pub fn escalated(&mut self, kill: Sent, now: u64)
        ensures
            *final(self) == old(self).escalates(kill, now),
            *final(self) == (Killing {
                killed: Some(kill),
                deadline: later(now, KILL_GRACE),
                ..*old(self)
            }),
    {
        self.killed = Some(kill);
        self.deadline = after(now, KILL_GRACE);
    }
}

/// What one last look under the lock comes to.
pub open spec fn settled(paths: PathsModel, answer: Answer) -> Result<(), TroubleModel> {
    match answer {
        Answer::Stale => Ok(()),
        Answer::Alive => Err(bound_since_for(paths)),
        Answer::Unknown(said) => Err(unprobeable_for(paths, said@)),
    }
}

/// Whether the files of a killed session go, from one last look at its socket under the
/// lock: only death collects.
pub fn settle(paths: &SessionPaths, answer: &Answer) -> (r: Result<(), Trouble>)
    ensures
        comes_to(r, settled(paths@, *answer)),
        match *answer {
            Answer::Stale => r is Ok,
            Answer::Alive => r matches Err(e) && e@ == bound_since_for(paths@),
            Answer::Unknown(said) => r matches Err(e) && e@ == unprobeable_for(paths@, said@),
        },
{
    match answer {
        Answer::Stale => Ok(()),
        Answer::Alive => Err(bound_since(paths)),
        Answer::Unknown(said) => Err(unprobeable(paths, said.as_str())),
    }
}

// ---------------------------------------------------------------------------
// Laws
// ---------------------------------------------------------------------------

/// A process established to be somebody else's is never signalled, whatever a pidfile says.
pub proof fn a_stranger_is_never_signalled(
    paths: PathsModel,
    answer: Answer,
    pidfile: Pidfile,
    now: u64,
    deadline: u64,
)
    ensures
        resolves(paths, answer, pidfile, now, deadline) matches ResolvedModel::Process(pid) ==> {
            &&& !(answer is Stale)
            &&& pidfile matches Pidfile::Body { filed, daemon, .. } && filed == Some(pid) && daemon
                != Some(false)
        },
{
}

/// A kill signals the process the pidfile names, of a session that is not dead, unless that
/// process is established to be another's; with nobody listening it signals nobody; a pid
/// that is still being written is waited for until the deadline, and one that cannot be read
/// or belongs to somebody else is never guessed at.
pub proof fn a_kill_signals_the_process_the_session_names(
    paths: PathsModel,
    answer: Answer,
    body: Vec<u8>,
    pid: i32,
    daemon: Option<bool>,
    said: String,
    now: u64,
    deadline: u64,
)
    ensures
        ({
            let named = Pidfile::Body { body, filed: Some(pid), daemon };
            let unnamed = Pidfile::Body { body, filed: None, daemon };
            let written = exists|i: int|
                0 <= i < body@.len() && ((#[trigger] body@[i]) != 0x20 && body@[i] != 0x09
                    && body@[i] != 0x0a && body@[i] != 0x0c && body@[i] != 0x0d);
            &&& answer is Stale ==> {
                &&& resolves(paths, answer, named, now, deadline) is Nobody
                &&& resolves(paths, answer, unnamed, now, deadline) is Nobody
                &&& resolves(paths, answer, Pidfile::Missing, now, deadline) is Nobody
                &&& resolves(paths, answer, Pidfile::Unreadable(said), now, deadline) is Nobody
            }
            &&& !(answer is Stale) ==> {
                &&& written && daemon != Some(false) ==> resolves(
                    paths,
                    answer,
                    named,
                    now,
                    deadline,
                ) == ResolvedModel::Process(pid)
                &&& written && daemon == Some(false) ==> resolves(
                    paths,
                    answer,
                    named,
                    now,
                    deadline,
                ) is Refused
                &&& written ==> resolves(paths, answer, unnamed, now, deadline) is Refused
                &&& !written && now < deadline ==> resolves(paths, answer, named, now, deadline)
                    is Wait
                &&& !written && now >= deadline ==> resolves(paths, answer, named, now, deadline)
                    is Refused
                &&& now < deadline ==> resolves(paths, answer, Pidfile::Missing, now, deadline)
                    is Wait
                &&& now >= deadline ==> resolves(paths, answer, Pidfile::Missing, now, deadline)
                    is Refused
                &&& resolves(paths, answer, Pidfile::Unreadable(said), now, deadline) is Refused
            }
            &&& identified_as(Some(pid), daemon) == if daemon == Some(false) {
                None
            } else {
                Some(pid)
            }
            &&& identified_as(None, daemon) is None
        }),
{
    let written = exists|i: int|
        0 <= i < body@.len() && ((#[trigger] body@[i]) != 0x20 && body@[i] != 0x09 && body@[i]
            != 0x0a && body@[i] != 0x0c && body@[i] != 0x0d);
    if written {
        let i = choose|i: int|
            0 <= i < body@.len() && ((#[trigger] body@[i]) != 0x20 && body@[i] != 0x09 && body@[i]
                != 0x0a && body@[i] != 0x0c && body@[i] != 0x0d);
        assert(!is_blank(body@[i]));
        assert(!all_blank(body@));
    } else {
        assert(all_blank(body@));
    }
}

/// A kill asks first and waits two seconds before it forces: a session that lets go is done
/// with at once, one that stays is killed once and given half a second more, and only then
/// given up on; a socket nobody can ask after is never escalated on.
pub proof fn a_kill_asks_before_it_forces(
    pid: i32,
    term: Sent,
    kill: Sent,
    paths: PathsModel,
    said: String,
    begun: u64,
    now: u64,
    then: u64,
)
    requires
        begun <= u64::MAX - 2_000_000_000,
        now <= u64::MAX - 500_000_000,
    ensures
        ({
            let asked = Killing::started(pid, term, begun);
            let forced = asked.escalates(kill, now);
            &&& asked.pid == pid && forced.pid == pid
            &&& asked.sees(paths, Answer::Stale, then) is Gone
            &&& forced.sees(paths, Answer::Stale, then) is Gone
            &&& asked.sees(paths, Answer::Unknown(said), then) is Refused
            &&& forced.sees(paths, Answer::Unknown(said), then) is Refused
            &&& then < begun + 2_000_000_000 ==> asked.sees(paths, Answer::Alive, then) is Wait
            &&& then >= begun + 2_000_000_000 ==> asked.sees(paths, Answer::Alive, then)
                is SendKill
            &&& then < now + 500_000_000 ==> forced.sees(paths, Answer::Alive, then) is Wait
            &&& then >= now + 500_000_000 ==> forced.sees(paths, Answer::Alive, then) is Refused
        }),
{
}

/// Only death collects: a session is listed unless it is dead, its files go only where it
/// is, and what was established of neither leaves them.
pub proof fn only_death_collects(paths: PathsModel, said: String, listening: bool)
    ensures
        entry_for(Answer::Stale, listening) == Entry::Collect,
        entry_for(Answer::Alive, listening) == if listening {
            Entry::Print
        } else {
            Entry::Skip
        },
        entry_for(Answer::Unknown(said), listening) == if listening {
            Entry::Print
        } else {
            Entry::Skip
        },
        settled(paths, Answer::Stale) is Ok,
        settled(paths, Answer::Alive) matches Err(e) && e.kind == Kind::AddrInUse,
        settled(paths, Answer::Unknown(said)) matches Err(e) && e.kind == Kind::InvalidData,
{
}

/// A line of a listing is the id, the pid where it is known, and the label, each behind a tab
/// but the first, and a newline.
pub proof fn a_listing_says_the_id_the_pid_and_the_label(
    id: Seq<char>,
    pid: i32,
    label: Seq<char>,
)
    ensures
        listed(id, Some(pid), label) == (id.push('\t') + signed_digits(pid as int)).push('\t')
            + label.push('\n'),
        listed(id, None, label) == id.push('\t').push('?').push('\t') + label.push('\n'),
{
    reveal_strlit("\t");
    reveal_strlit("?");
    reveal_strlit("\n");
    assert(listed(id, Some(pid), label) =~= (id.push('\t') + signed_digits(pid as int)).push('\t')
        + label.push('\n'));
    assert(listed(id, None, label) =~= id.push('\t').push('?').push('\t') + label.push('\n'));
}

/// A daemon is known by its command line, as it was started: it is a daemon of the session it
/// was started for, whatever its program is called and whatever its label says, and of no
/// other.
pub proof fn a_daemon_is_known_by_its_command_line(
    program: Seq<u8>,
    id: Seq<char>,
    label: Option<Seq<char>>,
    lock_fd: i32,
    asked: Seq<char>,
)
    requires
        is_id(id),
        lock_fd > 2,
        !program.contains(0u8),
        ({
            let line = encoded(daemon_line(id, label, lock_fd));
            &&& forall|i: int| 0 <= i < line.len() ==> !(#[trigger] line[i]).contains(0u8)
            &&& joined(seq![program] + line, 0).len() + 1 < MAX_CMDLINE_LEN
        }),
    ensures
        is_daemon_of(
            joined(seq![program] + encoded(daemon_line(id, label, lock_fd)), 0).push(0u8),
            asked,
        ) == Some(asked == id),
{
    let line = encoded(daemon_line(id, label, lock_fd));
    let argv = seq![program] + line;
    let whole = joined(argv, 0);
    let body = whole.push(0u8);
    assert forall|i: int| 0 <= i < argv.len() implies !(#[trigger] argv[i]).contains(0u8) by {
        if i > 0 {
            assert(argv[i] == line[i - 1]);
        }
    }
    lemma_joined(argv, 0);
    the_last_separator_is_the_last(whole, 0, Seq::empty());
    assert(whole.push(0u8) + Seq::<u8>::empty() =~= body);
    assert(body.take(whole.len() as int) =~= whole);
    assert(argv[1] == line[0]);
    assert(line[0] == encode_utf8("daemon"@));
    assert(argv.skip(2) =~= line.skip(1));
    a_daemon_reads_its_own_command_line(id, label, lock_fd);
}

/// A process whose second argument is anything but the daemon's mode is nobody's daemon,
/// whatever else it was started with.
pub proof fn no_other_mode_is_a_daemon(argv: Seq<Seq<u8>>, asked: Seq<char>)
    requires
        argv.len() >= 2,
        forall|i: int| 0 <= i < argv.len() ==> !(#[trigger] argv[i]).contains(0u8),
        argv[1] != encode_utf8("daemon"@),
    ensures
        joined(argv, 0).len() + 1 < MAX_CMDLINE_LEN ==> is_daemon_of(joined(argv, 0).push(0u8), asked)
            == Some(false),
        daemon_session(joined(argv, 0), true) is None,
        daemon_session(joined(argv, 0), false) is None,
{
    let whole = joined(argv, 0);
    lemma_joined(argv, 0);
    the_last_separator_is_the_last(whole, 0, Seq::empty());
    assert(whole.push(0u8) + Seq::<u8>::empty() =~= whole.push(0u8));
    assert(whole.push(0u8).take(whole.len() as int) =~= whole);
}

/// A command line too long to be read whole is still answered for where the mode was seen: by
/// the id, where that was, and with no where the mode is another. Where only the program was
/// seen, nothing is said.
pub proof fn a_long_command_line_is_answered_as_far_as_it_was_read(
    program: Seq<u8>,
    id: Seq<char>,
    mode: Seq<u8>,
    cut: Seq<u8>,
    asked: Seq<char>,
)
    requires
        is_id(id),
        !program.contains(0u8),
        !mode.contains(0u8),
        !encode_utf8(id).contains(0u8),
        !cut.contains(0u8),
        mode != encode_utf8("daemon"@),
    ensures
        ({
            let named = joined(seq![program, encode_utf8("daemon"@), encode_utf8(id)], 0).push(0u8)
                + cut;
            let other = joined(seq![program, mode], 0).push(0u8) + cut;
            let alone = program.push(0u8) + cut;
            &&& named.len() == MAX_CMDLINE_LEN ==> is_daemon_of(named, asked) == Some(asked == id)
            &&& other.len() == MAX_CMDLINE_LEN ==> is_daemon_of(other, asked) == Some(false)
            &&& alone.len() == MAX_CMDLINE_LEN ==> is_daemon_of(alone, asked) is None
        }),
{
    let daemon = encode_utf8("daemon"@);
    let rows_named = seq![program, daemon, encode_utf8(id)];
    let rows_other = seq![program, mode];
    reveal_strlit("daemon");
    assert(vstd::utf8::is_ascii_chars("daemon"@));
    vstd::utf8::is_ascii_chars_encode_utf8("daemon"@);
    assert(!daemon.contains(0u8));
    let whole = joined(rows_named, 0);
    lemma_joined(rows_named, 0);
    the_last_separator_is_the_last(whole, 0, cut);
    assert((whole.push(0u8) + cut).take(whole.len() as int) =~= whole);
    assert(rows_named.skip(2) =~= seq![encode_utf8(id)]);
    lemma_only_an_id(id);
    assert(whole.contains(0u8)) by {
        assert(whole[program.len() as int] == 0u8);
    }
    let over = joined(rows_other, 0);
    lemma_joined(rows_other, 0);
    the_last_separator_is_the_last(over, 0, cut);
    assert((over.push(0u8) + cut).take(over.len() as int) =~= over);
    assert(over.contains(0u8)) by {
        reveal_with_fuel(joined, 2);
        assert(over[program.len() as int] == 0u8);
    }
    the_last_separator_is_the_last(program, 0, cut);
    assert((program.push(0u8) + cut).take(program.len() as int) =~= program);
    a_separator_cuts(program, 0, Seq::empty());
}

/// An id alone, read to its end or not, is the session.
proof fn lemma_only_an_id(id: Seq<char>)
    requires
        is_id(id),
    ensures
        completed(seq![encode_utf8(id)], true) == seq![encode_utf8(id)],
        ArgsModel::empty().parsed(seq![encode_utf8(id)], 0, true) == Ok::<ArgsModel, Seq<char>>(
            ArgsModel { session: Some(id), label: None, lock_fd: None },
        ),
{
    let args = seq![encode_utf8(id)];
    lemma_id_is_no_option(id);
    lemma_reads(id);
    lemma_reads("--label"@);
    lemma_reads("--lock-fd"@);
    assert(args.last() == encode_utf8(id));
    let named = ArgsModel { session: Some(id), ..ArgsModel::empty() };
    assert(named.parsed(args, 1, true) == Ok::<ArgsModel, Seq<char>>(named));
}

/// A command line cut off right behind an option still names its session: what the option was
/// given was not read, and the id was.
pub proof fn a_cut_option_hides_no_session(
    program: Seq<u8>,
    id: Seq<char>,
    cut: Seq<u8>,
    asked: Seq<char>,
)
    requires
        is_id(id),
        !program.contains(0u8),
        !encode_utf8(id).contains(0u8),
        !cut.contains(0u8),
    ensures
        ({
            let daemon = encode_utf8("daemon"@);
            let named = encode_utf8(id);
            let label = joined(seq![program, daemon, named, encode_utf8("--label"@)], 0).push(0u8)
                + cut;
            let lock = joined(seq![program, daemon, named, encode_utf8("--lock-fd"@)], 0).push(0u8)
                + cut;
            &&& label.len() == MAX_CMDLINE_LEN ==> is_daemon_of(label, asked) == Some(asked == id)
            &&& lock.len() == MAX_CMDLINE_LEN ==> is_daemon_of(lock, asked) == Some(asked == id)
        }),
{
    lemma_cut_behind(program, id, "--label"@, cut, asked);
    lemma_cut_behind(program, id, "--lock-fd"@, cut, asked);
}

/// The same of one option.
#[verifier::spinoff_prover]
proof fn lemma_cut_behind(
    program: Seq<u8>,
    id: Seq<char>,
    option: Seq<char>,
    cut: Seq<u8>,
    asked: Seq<char>,
)
    requires
        is_id(id),
        !program.contains(0u8),
        !encode_utf8(id).contains(0u8),
        !cut.contains(0u8),
        option == "--label"@ || option == "--lock-fd"@,
    ensures
        ({
            let body = joined(
                seq![program, encode_utf8("daemon"@), encode_utf8(id), encode_utf8(option)],
                0,
            ).push(0u8) + cut;
            body.len() == MAX_CMDLINE_LEN ==> is_daemon_of(body, asked) == Some(asked == id)
        }),
{
    let daemon = encode_utf8("daemon"@);
    let named = encode_utf8(id);
    let argv = seq![program, daemon, named, encode_utf8(option)];
    reveal_strlit("daemon");
    reveal_strlit("--label");
    reveal_strlit("--lock-fd");
    assert(vstd::utf8::is_ascii_chars("daemon"@));
    vstd::utf8::is_ascii_chars_encode_utf8("daemon"@);
    assert(vstd::utf8::is_ascii_chars(option));
    vstd::utf8::is_ascii_chars_encode_utf8(option);
    assert(!daemon.contains(0u8));
    assert(!encode_utf8(option).contains(0u8)) by {
        if encode_utf8(option).contains(0u8) {
            let i = choose|i: int| 0 <= i < encode_utf8(option).len() && encode_utf8(option)[i]
                == 0u8;
            assert(option[i] as u32 == 0);
        }
    }
    let whole = joined(argv, 0);
    lemma_joined(argv, 0);
    the_last_separator_is_the_last(whole, 0, cut);
    assert((whole.push(0u8) + cut).take(whole.len() as int) =~= whole);
    let args = argv.skip(2);
    assert(args =~= seq![named, encode_utf8(option)]);
    lemma_option_completed(id, option);
    assert(whole.contains(0u8)) by {
        assert(whole[program.len() as int] == 0u8);
    }
}

/// An option whose value was not read is given one.
#[verifier::spinoff_prover]
proof fn lemma_option_completed(id: Seq<char>, option: Seq<char>)
    requires
        is_id(id),
        option == "--label"@ || option == "--lock-fd"@,
    ensures
        ArgsModel::empty().parsed(
            completed(seq![encode_utf8(id), encode_utf8(option)], true),
            0,
            true,
        ) matches Ok(parsed) && parsed.session == Some(id),
{
    let args = completed(seq![encode_utf8(id), encode_utf8(option)], true);
    let none = ArgsModel::empty();
    let named = ArgsModel { session: Some(id), ..none };
    lemma_id_is_no_option(id);
    lemma_bare_options();
    lemma_reads(id);
    lemma_reads(option);
    lemma_reads("--label"@);
    lemma_reads("--lock-fd"@);
    lemma_reads("3"@);
    let empty = Seq::<char>::empty();
    lemma_reads(empty);
    crate::text::lemma_byte_len(empty);
    assert(encode_utf8(empty) =~= Seq::<u8>::empty());
    assert(seq![encode_utf8(id), encode_utf8(option)].last() == encode_utf8(option));
    assert(args.len() == 3 && args[0] == encode_utf8(id) && args[1] == encode_utf8(option));
    reveal_strlit("3");
    let three = "3"@;
    assert(three =~= digits(3, 10));
    numbers_read_back(3);
    assert(none.parsed(args, 0, true) == named.parsed(args, 1, true));
    if option == "--label"@ {
        assert(args[2] == Seq::<u8>::empty());
        let whole = ArgsModel { label: Some(empty), ..named };
        assert(decode_utf8(args[2]) == empty);
        assert(named.with_label(empty) == Ok::<ArgsModel, Seq<char>>(whole));
        assert(named.parsed(args, 1, true) == whole.parsed(args, 3, true));
        assert(whole.parsed(args, 3, true) == Ok::<ArgsModel, Seq<char>>(whole));
    } else {
        assert(args[2] == encode_utf8(three));
        let whole = ArgsModel { lock_fd: Some(3), ..named };
        assert(named.with_lock_fd(three) == Ok::<ArgsModel, Seq<char>>(whole));
        assert(named.parsed(args, 1, true) == whole.parsed(args, 3, true));
        assert(whole.parsed(args, 3, true) == Ok::<ArgsModel, Seq<char>>(whole));
    }
}

} // verus!
