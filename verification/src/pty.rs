//! The terminal's child: what it runs, how it ended, and who is still in its session when
//! it is to go.
use vstd::prelude::*;
use vstd::utf8::{decode_utf8, encode_utf8, valid_utf8};

use crate::agent::{after, later};
use crate::exec::{
    an_override_shadows_what_it_names_and_nothing_else, environment_of, key_in, lemma_entry_key,
    names, read_from, without, Program, ProgramModel,
};
use crate::fields::{before_last, copy_bytes, head_of, the_last_separator_is_the_last};
use crate::rev11::ExitKind;
use crate::rundir::{file_name, name_start};
use crate::text::{
    a_number_is_digits_behind_at_most_one_sign, all_space, copy_text, decoded_chars, digits,
    integer, is_digit, lemma_digits_spell, no_space, nth_word, numbers_read_back, parse_i32, put,
    same_chars, signed_digits, signed_numbers_read_back, text_of, word,
    words_are_what_white_space_separates,
};
use crate::trouble::Kind;
use crate::wire::WinSize;

verus! {

/// Budget for each phase of ending a session, in nanoseconds.
pub const HANGUP_GRACE: u64 = 500_000_000;

/// Interval between two looks while waiting that out.
pub const HANGUP_POLL_INTERVAL: u64 = 10_000_000;

// ---------------------------------------------------------------------------
// Who is in the session
// ---------------------------------------------------------------------------

/// The fields of a process's line from the third on: everything behind the *last* `)`,
/// because the second is a name of anybody's choosing.
pub open spec fn tail_of(stat: Seq<u8>) -> Option<Seq<char>> {
    let rest = stat.skip(before_last(stat, 0x29) as int + 1);
    if !stat.contains(0x29u8) || !valid_utf8(rest) {
        None
    } else {
        Some(decode_utf8(rest))
    }
}

/// The session id and whether the process is a zombie, from its line.
pub open spec fn session_in(stat: Seq<u8>) -> Option<(i32, bool)> {
    match tail_of(stat) {
        None => None,
        Some(text) => match (word(text, 0), word(text, 3)) {
            (Some(state), Some(session)) => match integer(session) {
                Some(n) if i32::MIN <= n <= i32::MAX => Some((n as i32, state == "Z"@)),
                _ => None,
            },
            _ => None,
        },
    }
}

/// What stands before the last `)` is followed by it, where there is one.
proof fn lemma_paren(stat: Seq<u8>)
    ensures
        stat.contains(0x29u8) ==> before_last(stat, 0x29) < stat.len()
            && stat[before_last(stat, 0x29) as int] == 0x29,
        !stat.contains(0x29u8) ==> before_last(stat, 0x29) == 0,
    decreases stat.len(),
{
    if stat.len() > 0 && stat.last() != 0x29 {
        let rest = stat.drop_last();
        lemma_paren(rest);
        if stat.contains(0x29u8) {
            let i = choose|i: int| 0 <= i < stat.len() && stat[i] == 0x29u8;
            assert(rest[i] == 0x29u8);
        }
        if rest.contains(0x29u8) {
            let i = choose|i: int| 0 <= i < rest.len() && rest[i] == 0x29u8;
            assert(stat[i] == 0x29u8);
        }
    } else if stat.len() > 0 {
        assert(stat[stat.len() - 1] == 0x29u8);
    }
}

/// The session id and whether the process is a zombie, from one `/proc/<pid>/stat`.
///
/// Taken from the last `)` and over bytes: the kernel escapes almost nothing in the name,
/// and one read naively drops its process out of the walk — never signalled.
pub fn stat_session(stat: &[u8]) -> (r: Option<(i32, bool)>)
    ensures
        r == session_in(stat@),
{
    let head: &[u8] = head_of(stat, 0x29);
    proof {
        lemma_paren(stat@);
    }
    if head.len() >= stat.len() || stat[head.len()] != 0x29 {
        proof {
            if stat@.contains(0x29u8) {
                assert(stat@[head@.len() as int] == 0x29);
            }
        }
        return None;
    }
    assert(stat@.contains(0x29u8)) by {
        assert(stat@[head@.len() as int] == 0x29u8);
    }
    let rest: &[u8] = vstd::slice::slice_subrange(stat, head.len() + 1, stat.len());
    assert(rest@ =~= stat@.skip(before_last(stat@, 0x29) as int + 1));
    let text: Vec<char> = match decoded_chars(rest) {
        Some(text) => text,
        None => {
            return None;
        },
    };
    let state: &[char] = match nth_word(text.as_slice(), 0) {
        Some(state) => state,
        None => {
            return None;
        },
    };
    let session: &[char] = match nth_word(text.as_slice(), 3) {
        Some(session) => session,
        None => {
            return None;
        },
    };
    let zombie: Vec<char> = crate::text::chars_of("Z");
    match parse_i32(session) {
        Some(session) => Some((session, same_chars(state, zombie.as_slice()))),
        None => None,
    }
}

/// What reading a process's line came back with.
#[derive(Debug)]
pub enum StatRead {
    /// The line.
    Line(Vec<u8>),
    /// The process had already ended, which is an answer.
    Gone,
    /// The line was refused, which is none.
    Refused,
}

/// What a process's line says of its membership of a session.
#[derive(Debug, Clone, Copy, PartialEq, Eq, Structural)]
pub enum Membership {
    /// Live, and in the session.
    In,
    /// Answered for and not that: another session, a zombie, or already gone.
    Out,
    /// No answer at all.
    Unseen,
}

/// What a process's line says of its membership of session `sid`. What withholds its line
/// must not be counted as not there.
pub open spec fn member_of(read: StatRead, sid: i32) -> Membership {
    match read {
        StatRead::Line(stat) => match session_in(stat@) {
            None => Membership::Unseen,
            Some((session, zombie)) => if session == sid && !zombie {
                Membership::In
            } else {
                Membership::Out
            },
        },
        StatRead::Gone => Membership::Out,
        StatRead::Refused => Membership::Unseen,
    }
}

/// What a process's line says of its membership of session `sid`.
pub fn membership(read: &StatRead, sid: i32) -> (r: Membership)
    ensures
        r == member_of(*read, sid),
{
    match read {
        StatRead::Line(stat) => match stat_session(stat.as_slice()) {
            None => Membership::Unseen,
            Some((session, zombie)) => if session == sid && !zombie {
                Membership::In
            } else {
                Membership::Out
            },
        },
        StatRead::Gone => Membership::Out,
        StatRead::Refused => Membership::Unseen,
    }
}

/// The process a name in the process directory stands for, where it stands for one and not
/// for this one.
pub open spec fn process_of(name: Seq<u8>, self_pid: i32) -> Option<i32> {
    if !valid_utf8(name) {
        None
    } else {
        match integer(decode_utf8(name)) {
            Some(n) if i32::MIN <= n <= i32::MAX && n != self_pid => Some(n as i32),
            _ => None,
        }
    }
}

/// The process a name in the process directory stands for. This process is never among
/// those it is about to signal, whatever the directory says.
pub fn walk_pid(name: &[u8], self_pid: i32) -> (r: Option<i32>)
    ensures
        r == process_of(name@, self_pid),
{
    match decoded_chars(name) {
        None => None,
        Some(chars) => match parse_i32(chars.as_slice()) {
            Some(pid) if pid != self_pid => Some(pid),
            _ => None,
        },
    }
}

/// One process of a walk.
#[derive(Debug)]
pub struct Process {
    /// Its name in the process directory.
    pub name: Vec<u8>,
    /// What reading its line came back with.
    pub stat: StatRead,
}

/// The members of session `sid` among the first `n` processes, in the order they were found.
pub open spec fn members(found: Seq<Process>, n: nat, sid: i32, self_pid: i32) -> Seq<i32>
    decreases n,
{
    if n == 0 {
        Seq::empty()
    } else {
        let before = members(found, (n - 1) as nat, sid, self_pid);
        match process_of(found[n - 1].name@, self_pid) {
            Some(pid) if member_of(found[n - 1].stat, sid) == Membership::In => before.push(pid),
            _ => before,
        }
    }
}

/// Every process of the first `n` was answered for.
pub open spec fn all_seen(found: Seq<Process>, n: nat, sid: i32, self_pid: i32) -> bool {
    forall|i: int|
        0 <= i < n && process_of((#[trigger] found[i]).name@, self_pid) is Some ==> member_of(
            found[i].stat,
            sid,
        ) != Membership::Unseen
}

/// Sums up a walk over the processes of a host: the live members of session `sid`, and
/// whether the walk saw everything it looked at. `whole` is whether it got to its end.
pub fn walk_session(found: &[Process], whole: bool, sid: i32, self_pid: i32) -> (r: (bool, Vec<i32>))
    ensures
        r.0 == (whole && all_seen(found@, found@.len(), sid, self_pid)),
        r.1@ == members(found@, found@.len(), sid, self_pid),
{
    let mut complete: bool = whole;
    let mut out: Vec<i32> = Vec::new();
    let mut i: usize = 0;
    assert(out@ =~= members(found@, 0, sid, self_pid));
    while i < found.len()
        invariant
            i <= found@.len(),
            complete == (whole && all_seen(found@, i as nat, sid, self_pid)),
            out@ == members(found@, i as nat, sid, self_pid),
        decreases found@.len() - i,
    {
        if let Some(pid) = walk_pid(found[i].name.as_slice(), self_pid) {
            match membership(&found[i].stat, sid) {
                Membership::In => {
                    out.push(pid);
                },
                Membership::Out => {},
                Membership::Unseen => {
                    complete = false;
                    assert(!all_seen(found@, (i + 1) as nat, sid, self_pid)) by {
                        assert(process_of(found@[i as int].name@, self_pid) is Some);
                    }
                },
            }
        }
        i += 1;
        assert(complete == (whole && all_seen(found@, i as nat, sid, self_pid)));
    }
    (complete, out)
}

/// The walk saw everything there is, and nothing of it is a live member of session `sid`.
pub open spec fn nobody_left(found: Seq<Process>, whole: bool, sid: i32, self_pid: i32) -> bool {
    whole && all_seen(found, found.len(), sid, self_pid) && members(
        found,
        found.len(),
        sid,
        self_pid,
    ).len() == 0
}

/// Whether nothing live is left in session `sid`. An incomplete walk answers no, the safe
/// direction: it must not be taken for the absence of what it never saw.
pub fn session_is_empty(found: &[Process], whole: bool, sid: i32, self_pid: i32) -> (r: bool)
    ensures
        r == (whole && all_seen(found@, found@.len(), sid, self_pid) && members(
            found@,
            found@.len(),
            sid,
            self_pid,
        ).len() == 0),
        r == nobody_left(found@, whole, sid, self_pid),
{
    let (complete, live) = walk_session(found, whole, sid, self_pid);
    complete && live.len() == 0
}

/// A pid as the signed number a process directory and `kill(2)` are addressed with, zero
/// being the one nothing can act on.
pub fn as_pid(id: u32) -> (r: i32)
    ensures
        r == if id <= i32::MAX {
            id as i32
        } else {
            0i32
        },
{
    if id <= 0x7fff_ffff {
        id as i32
    } else {
        0
    }
}

// ---------------------------------------------------------------------------
// Ending the session
// ---------------------------------------------------------------------------

/// Where ending a session is.
#[derive(Debug, Clone, Copy, PartialEq, Eq, Structural)]
pub enum Phase {
    /// It was hung up on, and is given until the deadline.
    Hangup,
    /// It is being killed, until the deadline.
    Killing,
    /// Nothing is left but the child itself.
    Settled,
}

/// What ending a session does next.
#[derive(Debug, Clone, Copy, PartialEq, Eq, Structural)]
pub enum EndStep {
    /// Hang up on everybody in it, and continue them behind that, the child's group too
    /// where it is alive; then look again.
    HangUp {
        /// Whether the group is.
        group: bool,
    },
    /// See who is left.
    Look,
    /// Wait, and ask again.
    Wait,
    /// Kill the child's group where it is alive, and everybody in the session; then see who
    /// is left.
    KillGroup {
        /// Whether the group is.
        group: bool,
    },
    /// Kill everybody in the session, and see who is left.
    KillAll,
    /// Kill the child, which is owed it whatever was concluded.
    KillChild,
}

/// The end of a session under way.
#[derive(Debug, Clone, Copy, PartialEq, Eq, Structural)]
pub struct Ending {
    /// Where it is.
    pub phase: Phase,
    /// Whether the child's group was alive when it was last looked at.
    pub group_alive: bool,
    /// When this phase runs out.
    pub deadline: u64,
}

impl Ending {
    /// How ending a session begins.
    pub open spec fn begun(group_alive: bool, empty: bool, now: u64) -> (Ending, EndStep) {
        let deadline = later(now, HANGUP_GRACE);
        if empty {
            (Ending { phase: Phase::Settled, group_alive, deadline }, EndStep::KillChild)
        } else {
            (
                Ending { phase: Phase::Hangup, group_alive, deadline },
                EndStep::HangUp { group: group_alive },
            )
        }
    }

    /// What is due at `now`, and where the end is then.
    pub open spec fn due_at(self, now: u64) -> (Ending, EndStep) {
        match self.phase {
            Phase::Settled => (self, EndStep::KillChild),
            Phase::Killing => (self, EndStep::KillAll),
            Phase::Hangup => if now < self.deadline {
                (self, EndStep::Look)
            } else {
                (
                    Ending { phase: Phase::Killing, deadline: later(now, HANGUP_GRACE), ..self },
                    EndStep::KillGroup { group: self.group_alive },
                )
            },
        }
    }

    /// What follows from who is left, and where the end is then.
    pub open spec fn seen(self, group_alive: bool, empty: bool, now: u64) -> (Ending, EndStep) {
        match self.phase {
            Phase::Settled => (self, EndStep::KillChild),
            Phase::Hangup => if empty {
                (Ending { phase: Phase::Settled, group_alive, ..self }, EndStep::KillChild)
            } else {
                (Ending { group_alive, ..self }, EndStep::Wait)
            },
            Phase::Killing => if empty || now >= self.deadline {
                (Ending { phase: Phase::Settled, ..self }, EndStep::KillChild)
            } else {
                (self, EndStep::Wait)
            },
        }
    }

    /// Begins to end a session that is `empty` or not, at `now`: one with nobody in it is
    /// sent nothing.
    pub fn begin(group_alive: bool, empty: bool, now: u64) -> (r: (Ending, EndStep))
        ensures
            r == Ending::begun(group_alive, empty, now),
            r.0 == (Ending {
                phase: if empty {
                    Phase::Settled
                } else {
                    Phase::Hangup
                },
                group_alive,
                deadline: later(now, HANGUP_GRACE),
            }),
            r.1 == if empty {
                EndStep::KillChild
            } else {
                (EndStep::HangUp { group: group_alive })
            },
    {
        let deadline: u64 = after(now, HANGUP_GRACE);
        if empty {
            (Ending { phase: Phase::Settled, group_alive, deadline }, EndStep::KillChild)
        } else {
            (
                Ending { phase: Phase::Hangup, group_alive, deadline },
                EndStep::HangUp { group: group_alive },
            )
        }
    }

    /// What is due at `now`: while there is time the session is looked at, and once a
    /// hangup has run out it is killed.
    pub fn due(&mut self, now: u64) -> (r: EndStep)
        ensures
            (*final(self), r) == old(self).due_at(now),
            match old(self).phase {
                Phase::Settled => r == EndStep::KillChild && *final(self) == *old(self),
                Phase::Killing => r == EndStep::KillAll && *final(self) == *old(self),
                Phase::Hangup => if now < old(self).deadline {
                    r == EndStep::Look && *final(self) == *old(self)
                } else {
                    &&& r == (EndStep::KillGroup { group: old(self).group_alive })
                    &&& *final(self) == (Ending {
                        phase: Phase::Killing,
                        deadline: later(now, HANGUP_GRACE),
                        ..*old(self)
                    })
                },
            },
    {
        match self.phase {
            Phase::Settled => EndStep::KillChild,
            Phase::Killing => EndStep::KillAll,
            Phase::Hangup => {
                if now < self.deadline {
                    return EndStep::Look;
                }
                self.phase = Phase::Killing;
                self.deadline = after(now, HANGUP_GRACE);
                EndStep::KillGroup { group: self.group_alive }
            },
        }
    }

    /// Takes in who is left: whether the group is alive, and whether the session is empty.
    pub fn looked(&mut self, group_alive: bool, empty: bool, now: u64) -> (r: EndStep)
        ensures
            (*final(self), r) == old(self).seen(group_alive, empty, now),
            match old(self).phase {
                Phase::Settled => r == EndStep::KillChild && *final(self) == *old(self),
                Phase::Hangup => {
                    &&& final(self).group_alive == group_alive
                    &&& final(self).deadline == old(self).deadline
                    &&& if empty {
                        r == EndStep::KillChild && final(self).phase == Phase::Settled
                    } else {
                        r == EndStep::Wait && final(self).phase == Phase::Hangup
                    }
                },
                Phase::Killing => {
                    &&& final(self).group_alive == old(self).group_alive
                    &&& final(self).deadline == old(self).deadline
                    &&& if empty || now >= old(self).deadline {
                        r == EndStep::KillChild && final(self).phase == Phase::Settled
                    } else {
                        r == EndStep::Wait && final(self).phase == Phase::Killing
                    }
                },
            },
    {
        match self.phase {
            Phase::Settled => EndStep::KillChild,
            Phase::Hangup => {
                self.group_alive = group_alive;
                if empty {
                    self.phase = Phase::Settled;
                    EndStep::KillChild
                } else {
                    EndStep::Wait
                }
            },
            Phase::Killing => {
                if empty || now >= self.deadline {
                    self.phase = Phase::Settled;
                    EndStep::KillChild
                } else {
                    EndStep::Wait
                }
            },
        }
    }
}

// ---------------------------------------------------------------------------
// The child
// ---------------------------------------------------------------------------

/// How a child that was waited for ended.
pub open spec fn ended_as(exit_status: Option<i32>, signal: Option<i32>) -> (i32, ExitKind) {
    match (exit_status, signal) {
        (Some(code), _) => (code, ExitKind::Exited),
        (None, Some(signal)) => (signal, ExitKind::Signalled),
        (None, None) => (0, ExitKind::Signalled),
    }
}

/// How a child that was waited for ended: its status where it exited, and otherwise the
/// signal that ended it.
pub fn outcome_of(exit_status: Option<i32>, signal: Option<i32>) -> (r: (i32, ExitKind))
    ensures
        r == ended_as(exit_status, signal),
        r == match exit_status {
            Some(code) => (code, ExitKind::Exited),
            None => match signal {
                Some(signal) => (signal, ExitKind::Signalled),
                None => (0i32, ExitKind::Signalled),
            },
        },
{
    match exit_status {
        Some(code) => (code, ExitKind::Exited),
        None => match signal {
            Some(signal) => (signal, ExitKind::Signalled),
            None => (0, ExitKind::Signalled),
        },
    }
}

/// One column narrower, where there is such a size.
pub open spec fn narrower(win: WinSize) -> Option<WinSize> {
    if win.cols > 1 {
        Some(WinSize { cols: (win.cols - 1) as u16, ..win })
    } else {
        None
    }
}

/// The size a repaint narrows the terminal to before it puts it back, where there is one: a
/// one-column terminal has none narrower.
pub fn nudge_repaint(win: WinSize) -> (r: Option<WinSize>)
    ensures
        r == narrower(win),
        r == if win.cols > 1 {
            Some(WinSize { cols: (win.cols - 1) as u16, ..win })
        } else {
            None
        },
{
    if win.cols > 1 {
        Some(WinSize { cols: win.cols - 1, ..win })
    } else {
        None
    }
}

/// A path the environment suggests, and what was found there.
#[derive(Debug)]
pub struct Candidate {
    /// The path.
    pub path: Vec<u8>,
    /// Whether it is what it should be: a file to run, or a directory to start in.
    pub fits: bool,
    /// Whether this user may run or enter it.
    pub usable: bool,
}

impl Candidate {
    /// An absolute path to something that can be used.
    pub open spec fn good(self) -> bool {
        self.path@.len() > 0 && self.path@[0] == 0x2f && self.fits && self.usable
    }

    /// Whether it is an absolute path to something that can be used.
    fn is_good(&self) -> (r: bool)
        ensures
            r == self.good(),
    {
        self.path.len() > 0 && self.path[0] == 0x2f && self.fits && self.usable
    }
}

/// The shell to run: the one suggested where it can be run, and `/bin/sh` otherwise.
pub open spec fn shell_of(shell: Option<Candidate>) -> Seq<u8> {
    if shell is Some && shell->0.good() {
        shell->0.path@
    } else {
        encode_utf8("/bin/sh"@)
    }
}

/// The name a login shell is run under: a dash and its own, or `sh` where that is no text.
pub open spec fn login_name_of(shell: Seq<u8>) -> Seq<char> {
    let base = shell.skip(name_start(shell) as int);
    "-"@ + (if valid_utf8(base) && base.len() > 0 {
        decode_utf8(base)
    } else {
        "sh"@
    })
}

/// Resolves the shell to run and the dash-prefixed name that makes it a login shell.
///
/// Absolute rather than merely named: nothing searches for it, and a relative one would be
/// resolved against the user's own directory. Executable rather than merely there: a stale
/// one should cost the user nothing but the default.
pub fn pick_shell(shell: Option<&Candidate>) -> (r: (Vec<u8>, String))
    ensures
        ({
            let picked = shell_of(
                match shell {
                    Some(shell) => Some(*shell),
                    None => None,
                },
            );
            r.0@ == picked && r.1@ == login_name_of(picked)
        }),
{
    let path: Vec<u8> = match shell {
        Some(shell) => if shell.is_good() {
            copy_bytes(shell.path.as_slice())
        } else {
            copy_bytes("/bin/sh".as_bytes())
        },
        None => copy_bytes("/bin/sh".as_bytes()),
    };
    let base: &[u8] = file_name(path.as_slice());
    let mut argv0: String = copy_text("-");
    match decoded_chars(base) {
        Some(chars) => if base.len() > 0 {
            put(&mut argv0, text_of(chars.as_slice()).as_str());
        } else {
            put(&mut argv0, "sh");
        },
        None => put(&mut argv0, "sh"),
    }
    (path, argv0)
}

/// The directory to start in: the user's own, else where the connection was, else `/`.
pub open spec fn dir_of(home: Option<Candidate>, fallback: Option<Candidate>) -> Seq<u8> {
    if home is Some && home->0.good() {
        home->0.path@
    } else if fallback is Some && fallback->0.good() {
        fallback->0.path@
    } else {
        seq![0x2fu8]
    }
}

/// Resolves the child's working directory. One that cannot be entered is passed over rather
/// than failed on.
pub fn pick_dir(home: Option<&Candidate>, fallback: Option<&Candidate>) -> (r: Vec<u8>)
    ensures
        r@ == dir_of(
            match home {
                Some(home) => Some(*home),
                None => None,
            },
            match fallback {
                Some(fallback) => Some(*fallback),
                None => None,
            },
        ),
{
    if let Some(home) = home {
        if home.is_good() {
            return copy_bytes(home.path.as_slice());
        }
    }
    if let Some(fallback) = fallback {
        if fallback.is_good() {
            return copy_bytes(fallback.path.as_slice());
        }
    }
    let mut root: Vec<u8> = Vec::new();
    root.push(0x2f);
    assert(root@ =~= seq![0x2fu8]);
    root
}

/// An environment entry.
pub open spec fn entry(key: Seq<char>, value: Seq<u8>) -> Seq<u8> {
    encode_utf8(key).push(0x3d) + value
}

/// What a session's child is told by its environment: its terminal, its session, and the
/// agent socket where one is served.
pub open spec fn child_overrides(
    term: Seq<u8>,
    session_id: Seq<u8>,
    agent_sock: Option<Seq<u8>>,
) -> Seq<Seq<u8>> {
    let told = seq![entry("TERM"@, term), entry("NOMUX_SESSION"@, session_id)];
    match agent_sock {
        Some(sock) => told.push(entry("SSH_AUTH_SOCK"@, sock)),
        None => told,
    }
}

/// The three variables are three.
proof fn lemma_variables()
    ensures
        encode_utf8("TERM"@).len() > 0,
        encode_utf8("NOMUX_SESSION"@).len() > 0,
        encode_utf8("SSH_AUTH_SOCK"@).len() > 0,
        !encode_utf8("TERM"@).contains(0u8),
        !encode_utf8("NOMUX_SESSION"@).contains(0u8),
        !encode_utf8("SSH_AUTH_SOCK"@).contains(0u8),
        !encode_utf8("TERM"@).contains(0x3du8),
        !encode_utf8("NOMUX_SESSION"@).contains(0x3du8),
        !encode_utf8("SSH_AUTH_SOCK"@).contains(0x3du8),
        encode_utf8("TERM"@) != encode_utf8("NOMUX_SESSION"@),
        encode_utf8("TERM"@) != encode_utf8("SSH_AUTH_SOCK"@),
        encode_utf8("NOMUX_SESSION"@) != encode_utf8("SSH_AUTH_SOCK"@),
{
    reveal_strlit("TERM");
    reveal_strlit("NOMUX_SESSION");
    reveal_strlit("SSH_AUTH_SOCK");
    assert(vstd::utf8::is_ascii_chars("TERM"@));
    assert(vstd::utf8::is_ascii_chars("NOMUX_SESSION"@));
    assert(vstd::utf8::is_ascii_chars("SSH_AUTH_SOCK"@));
    vstd::utf8::is_ascii_chars_encode_utf8("TERM"@);
    vstd::utf8::is_ascii_chars_encode_utf8("NOMUX_SESSION"@);
    vstd::utf8::is_ascii_chars_encode_utf8("SSH_AUTH_SOCK"@);
    assert(encode_utf8("NOMUX_SESSION"@)[0] != encode_utf8("SSH_AUTH_SOCK"@)[0]);
}

/// Entries of other keys stay.
proof fn lemma_without_others(entries: Seq<Seq<u8>>, n: nat, key: Seq<u8>)
    requires
        n <= entries.len(),
        forall|i: int| 0 <= i < n ==> key_in(#[trigger] entries[i]) != Some(key),
    ensures
        without(entries, n, key) == entries.take(n as int),
    decreases n,
{
    if n > 0 {
        lemma_without_others(entries, (n - 1) as nat, key);
        assert(entries.take(n as int) =~= entries.take(n - 1).push(entries[n - 1]));
    } else {
        assert(without(entries, n, key) =~= entries.take(0));
    }
}

/// The program a session runs: the login shell, in `cwd`, with what the session tells it by
/// its environment. Refused where any of it holds a NUL.
pub fn shell_program(
    shell: &[u8],
    argv0: &[u8],
    cwd: &[u8],
    term: &[u8],
    session_id: &[u8],
    agent_sock: Option<&[u8]>,
) -> (r: Result<Program, Kind>)
    ensures
        if shell@.contains(0u8) || argv0@.contains(0u8) || cwd@.contains(0u8) || term@.contains(0u8)
            || session_id@.contains(0u8) || (agent_sock is Some && agent_sock->0@.contains(0u8)) {
            r == Err::<Program, Kind>(Kind::InvalidInput)
        } else {
            r matches Ok(program) && program@.wf() && program@ == (ProgramModel {
                path: shell@,
                args: seq![argv0@],
                overrides: child_overrides(
                    term@,
                    session_id@,
                    match agent_sock {
                        Some(sock) => Some(sock@),
                        None => None,
                    },
                ),
                dir: Some(cwd@),
            })
        },
{
    proof {
        lemma_variables();
        lemma_entry_key(encode_utf8("TERM"@), term@);
        lemma_entry_key(encode_utf8("NOMUX_SESSION"@), session_id@);
    }
    let mut program: Program = match Program::new(shell, argv0) {
        Ok(program) => program,
        Err(e) => {
            return Err(e);
        },
    };
    match program.current_dir(cwd) {
        Ok(()) => {},
        Err(e) => {
            return Err(e);
        },
    }
    proof {
        lemma_without_others(program@.overrides, 0, encode_utf8("TERM"@));
    }
    match program.env("TERM".as_bytes(), term) {
        Ok(()) => {},
        Err(e) => {
            return Err(e);
        },
    }
    proof {
        assert(program@.overrides =~= seq![entry("TERM"@, term@)]);
        lemma_without_others(program@.overrides, 1, encode_utf8("NOMUX_SESSION"@));
        assert(program@.overrides.take(1) =~= program@.overrides);
    }
    match program.env("NOMUX_SESSION".as_bytes(), session_id) {
        Ok(()) => {},
        Err(e) => {
            return Err(e);
        },
    }
    assert(program@.overrides =~= seq![entry("TERM"@, term@), entry("NOMUX_SESSION"@, session_id@)]);
    if let Some(sock) = agent_sock {
        proof {
            lemma_without_others(program@.overrides, 2, encode_utf8("SSH_AUTH_SOCK"@));
            assert(program@.overrides.take(2) =~= program@.overrides);
        }
        match program.env("SSH_AUTH_SOCK".as_bytes(), sock) {
            Ok(()) => {},
            Err(e) => {
                return Err(e);
            },
        }
    }
    Ok(program)
}

// ---------------------------------------------------------------------------
// Laws
// ---------------------------------------------------------------------------

/// A walk that was cut short, or was refused a line, never reports a session empty.
pub proof fn an_incomplete_walk_is_not_an_empty_one(
    found: Seq<Process>,
    i: int,
    sid: i32,
    self_pid: i32,
)
    requires
        0 <= i < found.len(),
        process_of(found[i].name@, self_pid) is Some,
        found[i].stat is Refused,
    ensures
        !all_seen(found, found.len(), sid, self_pid),
{
}

/// The process that walks is never among those it finds.
pub proof fn a_walk_never_finds_itself(
    found: Seq<Process>,
    n: nat,
    sid: i32,
    self_pid: i32,
)
    requires
        n <= found.len(),
    ensures
        !members(found, n, sid, self_pid).contains(self_pid),
    decreases n,
{
    if n > 0 {
        a_walk_never_finds_itself(found, (n - 1) as nat, sid, self_pid);
        let before = members(found, (n - 1) as nat, sid, self_pid);
        let after = members(found, n, sid, self_pid);
        if after.contains(self_pid) {
            let k = choose|k: int| 0 <= k < after.len() && after[k] == self_pid;
            if k < before.len() {
                assert(before[k] == self_pid);
            }
        }
    }
}

/// A number as it is written holds no white space.
proof fn lemma_number_has_no_space(n: int)
    ensures
        no_space(signed_digits(n)),
        signed_digits(n).len() > 0,
{
    reveal_strlit("-");
    let d = digits((if n < 0 {
        -n
    } else {
        n
    }) as nat, 10);
    lemma_digits_spell((if n < 0 {
        -n
    } else {
        n
    }) as nat);
    assert forall|i: int| 0 <= i < signed_digits(n).len() implies !crate::text::is_space(
        #[trigger] signed_digits(n)[i],
    ) by {
        if n < 0 && i > 0 {
            assert(signed_digits(n)[i] == d[i - 1]);
            assert(is_digit(d[i - 1]));
        } else if n >= 0 {
            assert(is_digit(d[i]));
        }
    }
}

/// The fields a process's line has behind its name: the state, the parent, the group, the
/// session and whatever follows.
pub open spec fn fields_behind_the_name(
    state: Seq<char>,
    parent: Seq<char>,
    group: Seq<char>,
    session: i32,
    tail: Seq<char>,
) -> Seq<char> {
    seq![' '] + state + (seq![' '] + parent + (seq![' '] + group + (seq![' '] + signed_digits(
        session as int,
    ) + tail)))
}

/// A process's line, whatever its name holds, parentheses and all.
pub open spec fn stat_line(
    name: Seq<u8>,
    state: Seq<char>,
    parent: Seq<char>,
    group: Seq<char>,
    session: i32,
    tail: Seq<char>,
) -> Seq<u8> {
    name.push(0x29) + encode_utf8(fields_behind_the_name(state, parent, group, session, tail))
}

/// The fields are fields: none is empty or holds white space, what follows them begins with
/// some, and nothing behind the name is a parenthesis.
pub open spec fn fields_are_fields(
    state: Seq<char>,
    parent: Seq<char>,
    group: Seq<char>,
    session: i32,
    tail: Seq<char>,
) -> bool {
    &&& state.len() > 0 && no_space(state)
    &&& parent.len() > 0 && no_space(parent)
    &&& group.len() > 0 && no_space(group)
    &&& tail.len() > 0 ==> tail[0] == ' '
    &&& !encode_utf8(fields_behind_the_name(state, parent, group, session, tail)).contains(0x29u8)
}

/// A process's line says which session it is in, whatever its name holds and whatever the
/// number; and that it is a zombie exactly where its state is the one letter for that.
pub proof fn a_stat_line_says_its_session_and_whether_it_is_dead(
    name: Seq<u8>,
    state: Seq<char>,
    parent: Seq<char>,
    group: Seq<char>,
    session: i32,
    tail: Seq<char>,
)
    requires
        fields_are_fields(state, parent, group, session, tail),
    ensures
        session_in(stat_line(name, state, parent, group, session, tail)) == Some(
            (session, state.len() == 1 && state[0] == 'Z'),
        ),
{
    let text = fields_behind_the_name(state, parent, group, session, tail);
    let rest = encode_utf8(text);
    let stat = stat_line(name, state, parent, group, session, tail);
    the_last_separator_is_the_last(name, 0x29, rest);
    assert(stat[name.len() as int] == 0x29u8);
    assert(stat.contains(0x29u8));
    assert(stat.skip(name.len() as int + 1) =~= rest);
    vstd::utf8::encode_utf8_valid_utf8(text);
    vstd::utf8::encode_utf8_decode_utf8(text);
    let gap = seq![' '];
    let number = signed_digits(session as int);
    let r3 = gap + number + tail;
    let r2 = gap + group + r3;
    let r1 = gap + parent + r2;
    lemma_number_has_no_space(session as int);
    signed_numbers_read_back(session as int);
    assert(all_space(gap));
    words_are_what_white_space_separates(gap, state, r1, 2);
    words_are_what_white_space_separates(gap, parent, r2, 1);
    words_are_what_white_space_separates(gap, group, r3, 0);
    words_are_what_white_space_separates(gap, number, tail, 0);
    assert(word(text, 0) == Some(state));
    assert(word(text, 3) == Some(number));
    reveal_strlit("Z");
    assert((state == "Z"@) == (state.len() == 1 && state[0] == 'Z')) by {
        if state.len() == 1 && state[0] == 'Z' {
            assert(state =~= "Z"@);
        }
    }
}

/// A process named by its number is that process, unless it is the one that walks; a number
/// past what one can be is none, and so is a name with anything but digits behind its first
/// character.
pub proof fn a_process_is_named_by_its_number(pid: i32, self_pid: i32, name: Seq<char>, n: int)
    requires
        pid >= 0,
    ensures
        process_of(encode_utf8(signed_digits(n)), self_pid) == if -0x8000_0000 <= n <= 0x7fff_ffff
            && n != self_pid {
            Some(n as i32)
        } else {
            None
        },
        process_of(encode_utf8(digits(pid as nat, 10)), self_pid) == if pid != self_pid {
            Some(pid)
        } else {
            None
        },
        (exists|i: int| 1 <= i < name.len() && !(0x30 <= #[trigger] name[i] as u32 <= 0x39))
            ==> process_of(encode_utf8(name), self_pid) is None,
{
    let text = digits(pid as nat, 10);
    vstd::utf8::encode_utf8_valid_utf8(text);
    vstd::utf8::encode_utf8_decode_utf8(text);
    numbers_read_back(pid as nat);
    vstd::utf8::encode_utf8_valid_utf8(name);
    vstd::utf8::encode_utf8_decode_utf8(name);
    a_number_is_digits_behind_at_most_one_sign(name, '0', 0);
    vstd::utf8::encode_utf8_valid_utf8(signed_digits(n));
    vstd::utf8::encode_utf8_decode_utf8(signed_digits(n));
    signed_numbers_read_back(n);
}

/// What a walk found of one process is found of a longer one too.
proof fn lemma_members_grow(found: Seq<Process>, n: nat, m: nat, sid: i32, self_pid: i32, pid: i32)
    requires
        n <= m <= found.len(),
        members(found, n, sid, self_pid).contains(pid),
    ensures
        members(found, m, sid, self_pid).contains(pid),
    decreases m,
{
    if n < m {
        lemma_members_grow(found, n, (m - 1) as nat, sid, self_pid, pid);
        let before = members(found, (m - 1) as nat, sid, self_pid);
        let after = members(found, m, sid, self_pid);
        let k = choose|k: int| 0 <= k < before.len() && before[k] == pid;
        assert(after[k] == pid);
    }
}

/// Nobody alive is left behind: a process whose line puts it in the session, in any state but
/// a zombie's, is among those that are signalled, and while there is one the session is not
/// empty. Stopped, sleeping or running makes no difference.
pub proof fn every_live_member_is_found(
    found: Seq<Process>,
    whole: bool,
    i: int,
    pid: i32,
    self_pid: i32,
    name: Seq<u8>,
    state: Seq<char>,
    parent: Seq<char>,
    group: Seq<char>,
    sid: i32,
    tail: Seq<char>,
)
    requires
        0 <= i < found.len(),
        0 <= pid,
        pid != self_pid,
        found[i].name@ == encode_utf8(digits(pid as nat, 10)),
        fields_are_fields(state, parent, group, sid, tail),
        found[i].stat matches StatRead::Line(stat) && stat@ == stat_line(
            name,
            state,
            parent,
            group,
            sid,
            tail,
        ),
        !(state.len() == 1 && state[0] == 'Z'),
    ensures
        members(found, found.len(), sid, self_pid).contains(pid),
        !nobody_left(found, whole, sid, self_pid),
{
    a_stat_line_says_its_session_and_whether_it_is_dead(name, state, parent, group, sid, tail);
    a_process_is_named_by_its_number(pid, self_pid, Seq::empty(), 0);
    let n = (i + 1) as nat;
    let here = members(found, n, sid, self_pid);
    assert(here[here.len() - 1] == pid);
    lemma_members_grow(found, n, found.len(), sid, self_pid, pid);
}

/// Nobody else is signalled: every process found is one whose own line was read and puts it
/// in the session, alive.
pub proof fn only_live_members_are_found(
    found: Seq<Process>,
    n: nat,
    sid: i32,
    self_pid: i32,
    pid: i32,
)
    requires
        n <= found.len(),
        members(found, n, sid, self_pid).contains(pid),
    ensures
        exists|i: int|
            0 <= i < n && process_of((#[trigger] found[i]).name@, self_pid) == Some(pid) && (
            found[i].stat matches StatRead::Line(stat) && session_in(stat@) == Some((sid, false))),
    decreases n,
{
    let after = members(found, n, sid, self_pid);
    let k = choose|k: int| 0 <= k < after.len() && after[k] == pid;
    let before = members(found, (n - 1) as nat, sid, self_pid);
    if k < before.len() {
        assert(before[k] == pid);
        only_live_members_are_found(found, (n - 1) as nat, sid, self_pid, pid);
    } else {
        assert(process_of(found[n - 1].name@, self_pid) == Some(pid));
    }
}

/// A session is empty where every process that could be looked at was, and each is gone, dead
/// or in another session; and not where the walk was cut short or a line was refused.
pub proof fn a_session_is_empty_once_everybody_is_accounted_for(
    found: Seq<Process>,
    whole: bool,
    sid: i32,
    self_pid: i32,
)
    ensures
        !whole ==> !nobody_left(found, whole, sid, self_pid),
        (exists|i: int|
            0 <= i < found.len() && (#[trigger] found[i]).stat is Refused && process_of(
                found[i].name@,
                self_pid,
            ) is Some) ==> !nobody_left(found, whole, sid, self_pid),
        whole && (forall|i: int|
            0 <= i < found.len() ==> (process_of((#[trigger] found[i]).name@, self_pid) is None || (
            match found[i].stat {
                StatRead::Gone => true,
                StatRead::Refused => false,
                StatRead::Line(stat) => session_in(stat@) matches Some((session, zombie)) && (
                session != sid || zombie),
            }))) ==> nobody_left(found, whole, sid, self_pid),
{
    if whole && (forall|i: int|
        0 <= i < found.len() ==> (process_of((#[trigger] found[i]).name@, self_pid) is None || (
        match found[i].stat {
            StatRead::Gone => true,
            StatRead::Refused => false,
            StatRead::Line(stat) => session_in(stat@) matches Some((session, zombie)) && (session
                != sid || zombie),
        }))) {
        let all = members(found, found.len(), sid, self_pid);
        if all.len() > 0 {
            assert(all[0] == all[0]);
            only_live_members_are_found(found, found.len(), sid, self_pid, all[0]);
        }
    }
}

/// A session with somebody in it is hung up on first and given half a second: until that is
/// over nobody is killed, whoever is seen, and once it is empty only the child is left to be
/// seen to. One with nobody in it is sent nothing.
pub proof fn a_session_is_hung_up_on_before_it_is_killed(
    group: bool,
    later_group: bool,
    empty: bool,
    begun: u64,
    now: u64,
)
    requires
        begun <= u64::MAX - 500_000_000,
    ensures
        Ending::begun(group, true, begun).1 == EndStep::KillChild,
        ({
            let (ending, first) = Ending::begun(group, false, begun);
            let looking = ending.due_at(now);
            let after = ending.seen(later_group, empty, now).0;
            &&& first == (EndStep::HangUp { group })
            &&& now < begun + 500_000_000 ==> looking == (ending, EndStep::Look)
            &&& now >= begun + 500_000_000 ==> looking.1 == (EndStep::KillGroup { group })
            &&& !empty ==> ending.seen(later_group, empty, now).1 == EndStep::Wait
            &&& empty ==> ending.seen(later_group, empty, now).1 == EndStep::KillChild
            &&& !empty && now < begun + 500_000_000 ==> after.due_at(now).1 == EndStep::Look
            &&& !empty && now >= begun + 500_000_000 ==> after.due_at(now).1 == (
            EndStep::KillGroup { group: later_group })
        }),
{
}

/// A session that outlived its hangup is killed until it is empty or another half second is
/// over, and the child is seen to last whatever was concluded.
pub proof fn a_session_that_stays_is_killed(
    ending: Ending,
    group: bool,
    empty: bool,
    now: u64,
    again: u64,
    look: u64,
)
    requires
        ending.phase == Phase::Hangup,
        now >= ending.deadline,
        now <= u64::MAX - 500_000_000,
    ensures
        ({
            let (killing, step) = ending.due_at(now);
            let (next, then) = killing.seen(group, empty, look);
            &&& step == (EndStep::KillGroup { group: ending.group_alive })
            &&& killing.due_at(again) == (killing, EndStep::KillAll)
            &&& !empty && look < now + 500_000_000 ==> next == killing && then == EndStep::Wait
            &&& empty || look >= now + 500_000_000 ==> {
                &&& then == EndStep::KillChild
                &&& next.due_at(again) == (next, EndStep::KillChild)
                &&& next.seen(group, empty, again) == (next, EndStep::KillChild)
            }
        }),
{
}

/// A child that exited is said to have, with its status; one a signal ended is said to have
/// been ended by that signal.
pub proof fn a_child_ended_as_it_did(code: i32, signal: i32, other: Option<i32>)
    ensures
        ended_as(Some(code), other) == (code, ExitKind::Exited),
        ended_as(None, Some(signal)) == (signal, ExitKind::Signalled),
        ended_as(None, other).1 != ExitKind::Exited,
{
}

/// The size a repaint goes through is one column narrower and otherwise the same, so putting
/// it back changes the terminal; and there is one for every terminal of two columns or more.
pub proof fn a_nudge_changes_one_column(win: WinSize)
    ensures
        narrower(win) is Some <==> win.cols >= 2,
        narrower(win) matches Some(less) ==> {
            &&& less.cols + 1 == win.cols
            &&& less.rows == win.rows
            &&& less.xpixel == win.xpixel
            &&& less.ypixel == win.ypixel
        },
{
}

/// The shell the user asked for is run where it is an absolute path to something that can
/// be, and `/bin/sh` otherwise.
pub proof fn the_shell_is_the_users_where_it_can_be(shell: Candidate)
    ensures
        shell.path@.len() > 0 && shell.path@[0] == 0x2f && shell.fits && shell.usable ==> shell_of(
            Some(shell),
        ) == shell.path@,
        shell.path@.len() == 0 || shell.path@[0] != 0x2f || !shell.fits || !shell.usable
            ==> shell_of(Some(shell)) == encode_utf8("/bin/sh"@),
        shell_of(None) == encode_utf8("/bin/sh"@),
{
}

/// A login shell is run under a dash and its own name, whatever directory it is in.
pub proof fn a_login_shell_has_a_dash_before_its_name(dir: Seq<u8>, name: Seq<char>)
    requires
        name.len() > 0,
        !encode_utf8(name).contains(0x2fu8),
    ensures
        login_name_of(dir.push(0x2f) + encode_utf8(name)) == seq!['-'] + name,
{
    let base = encode_utf8(name);
    let path = dir.push(0x2f) + base;
    lemma_name_behind(dir, base);
    assert(path.skip(dir.len() as int + 1) =~= base);
    vstd::utf8::encode_utf8_valid_utf8(name);
    vstd::utf8::encode_utf8_decode_utf8(name);
    reveal_strlit("-");
    crate::text::lemma_byte_len(name);
    assert(name.drop_last().push(name.last()) =~= name);
    assert(login_name_of(path) =~= seq!['-'] + name);
}

/// The last component of a path begins behind its last slash.
pub(crate) proof fn lemma_name_behind(dir: Seq<u8>, base: Seq<u8>)
    requires
        !base.contains(0x2fu8),
    ensures
        name_start(dir.push(0x2f) + base) == dir.len() + 1,
    decreases base.len(),
{
    let path = dir.push(0x2f) + base;
    if base.len() == 0 {
        assert(path =~= dir.push(0x2f));
    } else {
        assert(base[base.len() - 1] != 0x2fu8);
        assert(path.drop_last() =~= dir.push(0x2f) + base.drop_last());
        assert(!base.drop_last().contains(0x2fu8)) by {
            if base.drop_last().contains(0x2fu8) {
                let i = choose|i: int| 0 <= i < base.drop_last().len() && base.drop_last()[i]
                    == 0x2fu8;
                assert(base[i] == 0x2fu8);
            }
        }
        lemma_name_behind(dir, base.drop_last());
    }
}

/// A child starts in the user's own directory where it can be entered, else where the
/// connection was where that can be, else at the root.
pub proof fn a_child_starts_at_home_where_it_can(home: Candidate, fallback: Candidate)
    ensures
        ({
            let fine = |dir: Candidate|
                dir.path@.len() > 0 && dir.path@[0] == 0x2f && dir.fits && dir.usable;
            &&& fine(home) ==> dir_of(Some(home), Some(fallback)) == home.path@
            &&& fine(home) ==> dir_of(Some(home), None) == home.path@
            &&& !fine(home) && fine(fallback) ==> dir_of(Some(home), Some(fallback))
                == fallback.path@
            &&& fine(fallback) ==> dir_of(None, Some(fallback)) == fallback.path@
            &&& !fine(home) && !fine(fallback) ==> dir_of(Some(home), Some(fallback)) == seq![
                0x2fu8,
            ]
            &&& !fine(home) ==> dir_of(Some(home), None) == seq![0x2fu8]
            &&& !fine(fallback) ==> dir_of(None, Some(fallback)) == seq![0x2fu8]
            &&& dir_of(None, None) == seq![0x2fu8]
        }),
{
}

/// A session's child reads its terminal, its session and its agent socket in its environment,
/// whatever this process inherited under those names; without an agent it reads what it would
/// have inherited there, and under every other name too.
pub proof fn a_child_is_told_its_terminal_its_session_and_its_agent(
    inherited: Seq<Seq<u8>>,
    term: Seq<u8>,
    session_id: Seq<u8>,
    sock: Seq<u8>,
    key: Seq<u8>,
)
    ensures
        ({
            let with = environment_of(inherited, child_overrides(term, session_id, Some(sock)));
            let without = environment_of(inherited, child_overrides(term, session_id, None));
            let t = encode_utf8("TERM"@);
            let n = encode_utf8("NOMUX_SESSION"@);
            let a = encode_utf8("SSH_AUTH_SOCK"@);
            &&& read_from(with, 0, t) == Some(t + seq![0x3du8] + term)
            &&& read_from(with, 0, n) == Some(n + seq![0x3du8] + session_id)
            &&& read_from(with, 0, a) == Some(a + seq![0x3du8] + sock)
            &&& read_from(without, 0, t) == Some(t + seq![0x3du8] + term)
            &&& read_from(without, 0, n) == Some(n + seq![0x3du8] + session_id)
            &&& read_from(without, 0, a) == read_from(inherited, 0, a)
            &&& key != t && key != n && key != a ==> read_from(with, 0, key) == read_from(
                inherited,
                0,
                key,
            )
            &&& key != t && key != n ==> read_from(without, 0, key) == read_from(inherited, 0, key)
        }),
{
    let t = encode_utf8("TERM"@);
    let n = encode_utf8("NOMUX_SESSION"@);
    let a = encode_utf8("SSH_AUTH_SOCK"@);
    let with = child_overrides(term, session_id, Some(sock));
    let without = child_overrides(term, session_id, None);
    lemma_variables();
    lemma_entry_key(t, term);
    lemma_entry_key(n, session_id);
    lemma_entry_key(a, sock);
    assert(with.len() == 3 && without.len() == 2);
    assert(key_in(with[0]) == Some(t) && key_in(with[1]) == Some(n) && key_in(with[2]) == Some(a));
    assert(key_in(without[0]) == Some(t) && key_in(without[1]) == Some(n));
    assert(with[0] =~= t + seq![0x3du8] + term);
    assert(with[1] =~= n + seq![0x3du8] + session_id);
    assert(with[2] =~= a + seq![0x3du8] + sock);
    assert(without[0] =~= with[0] && without[1] =~= with[1]);
    reveal_with_fuel(read_from, 4);
    an_override_shadows_what_it_names_and_nothing_else(inherited, with, t);
    an_override_shadows_what_it_names_and_nothing_else(inherited, with, n);
    an_override_shadows_what_it_names_and_nothing_else(inherited, with, a);
    an_override_shadows_what_it_names_and_nothing_else(inherited, with, key);
    an_override_shadows_what_it_names_and_nothing_else(inherited, without, t);
    an_override_shadows_what_it_names_and_nothing_else(inherited, without, n);
    an_override_shadows_what_it_names_and_nothing_else(inherited, without, a);
    an_override_shadows_what_it_names_and_nothing_else(inherited, without, key);
    assert(names(with, 3, t) && names(with, 3, n) && names(with, 3, a));
    assert(names(without, 2, t) && names(without, 2, n));
}

} // verus!
