//! What a session is: the terminal's output, the one client attached to it, the one
//! connection waiting to attach, and the clocks that end it.
//!
//! A session outlives every connection. Nothing here touches a descriptor: what the
//! sockets, the terminal and the clock say is handed in, and what is to be done with them
//! is handed back. Instants are nanoseconds of one monotonic clock.
use std::collections::VecDeque;

use vstd::prelude::*;

use crate::agent::{after, later, Agent, AgentModel};
use crate::conn::MAX_PENDING_WRITE;
use crate::line::{wire_of, Line, LineModel};
use crate::refusal::Refusal;
use crate::rev11::{ExitKind, Frame, FrameModel};
use crate::ring::{Ring, RingModel};
use crate::text::{chars_of, parse_unsigned, trim, trimmed, unsigned};
use crate::wire::WinSize;

verus! {

/// Ring capacity unless the environment asks for another.
pub const DEFAULT_RING_CAPACITY: usize = 4 * 1024 * 1024;

/// Largest ring honoured, whatever the environment asks for.
pub const MAX_RING_CAPACITY: usize = 1024 * 1024 * 1024;

/// How long a detached session survives before reaping itself.
pub const IDLE_TIMEOUT: u64 = 7 * 24 * 60 * 60 * 1_000_000_000;

/// How long an outcome may stay unreadable before it is reported as unknown.
pub const OUTCOME_GRACE: u64 = 2 * 1_000_000_000;

/// Longest the loop sleeps with nothing else pending.
pub const IDLE_TICK: u64 = 60 * 60 * 1_000_000_000;

/// How long to wait for the very first client before giving up.
pub const FIRST_ATTACH_TIMEOUT: u64 = 30 * 1_000_000_000;

/// How long a listener stays out of the poll set after an `accept` that failed.
pub const ACCEPT_BACKOFF: u64 = 100 * 1_000_000;

/// How long a connection that has not greeted keeps the one pending slot.
pub const PENDING_HELLO_TIMEOUT: u64 = 5 * 1_000_000_000;

/// Stop accepting client input once this much is queued for a terminal not taking it.
pub const MAX_PENDING_INPUT: usize = 1024 * 1024;

/// Queue size at which a client is treated as gone rather than slow.
pub const ABANDON_PENDING_WRITE: usize = 8 * 1024 * 1024;

/// Capacity the input queue keeps once drained.
pub const PENDING_INPUT_RETAINED: usize = 4096;

/// What a ring is asked to retain when the environment says `requested`: that many bytes
/// where it is a number above zero, never past [`MAX_RING_CAPACITY`], and otherwise
/// [`DEFAULT_RING_CAPACITY`].
pub open spec fn ring_capacity_for(requested: Option<Seq<char>>) -> nat {
    match requested {
        None => DEFAULT_RING_CAPACITY as nat,
        Some(text) => match unsigned(trim(text)) {
            None => DEFAULT_RING_CAPACITY as nat,
            Some(bytes) => if bytes == 0 || bytes > usize::MAX {
                DEFAULT_RING_CAPACITY as nat
            } else if bytes > MAX_RING_CAPACITY {
                MAX_RING_CAPACITY as nat
            } else {
                bytes
            },
        },
    }
}

/// Resolves the ring capacity from what the environment asked for; nothing here refuses.
///
/// Zero is filtered rather than passed on to the ring's one-byte clamp: a ring that makes
/// every write a gap is no tuning choice.
pub fn ring_capacity(requested: Option<&str>) -> (r: usize)
    ensures
        r == ring_capacity_for(
            match requested {
                Some(text) => Some(text@),
                None => None,
            },
        ),
{
    match requested {
        None => DEFAULT_RING_CAPACITY,
        Some(text) => {
            let chars: Vec<char> = chars_of(text);
            match parse_unsigned(trimmed(chars.as_slice()), usize::MAX as u64) {
                None => DEFAULT_RING_CAPACITY,
                Some(bytes) => if bytes == 0 {
                    DEFAULT_RING_CAPACITY
                } else if bytes > MAX_RING_CAPACITY as u64 {
                    MAX_RING_CAPACITY
                } else {
                    bytes as usize
                },
            }
        },
    }
}

/// Why a session ends.
#[derive(Debug, Clone, Copy, PartialEq, Eq, Structural)]
pub enum StopReason {
    /// A stop signal arrived.
    Signalled,
    /// The terminal could no longer be read.
    TerminalFailed,
    /// There never was a shell.
    ShellNotStarted,
    /// Nobody came within [`FIRST_ATTACH_TIMEOUT`].
    NeverAttached,
    /// Nobody came back within [`IDLE_TIMEOUT`].
    Idle,
}

impl StopReason {
    /// What the log says of it.
    pub open spec fn text(self) -> Seq<char> {
        match self {
            StopReason::Signalled => "signalled"@,
            StopReason::TerminalFailed => "the terminal failed"@,
            StopReason::ShellNotStarted => "the session shell could not be started"@,
            StopReason::NeverAttached => "no client ever attached"@,
            StopReason::Idle => "idle with no client"@,
        }
    }

    /// What the log says of it.
    pub fn message(self) -> (r: &'static str)
        ensures
            r@ == self.text(),
    {
        match self {
            StopReason::Signalled => "signalled",
            StopReason::TerminalFailed => "the terminal failed",
            StopReason::ShellNotStarted => "the session shell could not be started",
            StopReason::NeverAttached => "no client ever attached",
            StopReason::Idle => "idle with no client",
        }
    }
}

/// The attached client, and the state that means nothing without one.
///
/// One value rather than five fields of the session: each belongs to a *particular*
/// client, so an arrival or a departure resets them by moving the whole thing.
#[derive(Debug)]
pub struct Attached {
    /// The connection.
    pub line: Line,
    /// Whether this connection has been told the terminal transcript ended.
    pub terminal_end_sent: bool,
    /// Output offset already queued to this connection.
    pub sent_through: u64,
    /// Whether a repaint is a `Ctrl-L`, as this connection's greeting stated it.
    pub repaint_ctrl_l: bool,
    /// Whether a gap reported to this connection is still owed its repaint.
    pub repaint_due: bool,
}

/// What an [`Attached`] holds.
#[verifier::ext_equal]
pub struct AttachedModel {
    pub line: LineModel,
    pub terminal_end_sent: bool,
    pub sent_through: u64,
    pub repaint_ctrl_l: bool,
    pub repaint_due: bool,
}

impl View for Attached {
    type V = AttachedModel;

    open spec fn view(&self) -> AttachedModel {
        AttachedModel {
            line: self.line@,
            terminal_end_sent: self.terminal_end_sent,
            sent_through: self.sent_through,
            repaint_ctrl_l: self.repaint_ctrl_l,
            repaint_due: self.repaint_due,
        }
    }
}

impl AttachedModel {
    /// A connection a greeting has just promoted.
    pub open spec fn greeting(line: LineModel) -> AttachedModel {
        AttachedModel {
            line,
            terminal_end_sent: false,
            sent_through: 0,
            repaint_ctrl_l: false,
            repaint_due: false,
        }
    }

    /// With one frame more queued, dropping one that cannot be encoded.
    pub open spec fn told(self, frame: FrameModel) -> AttachedModel {
        AttachedModel { line: self.line.said(frame), ..self }
    }
}

impl Attached {
    /// The connection a greeting has promoted.
    pub fn greeting(line: Line) -> (r: Attached)
        ensures
            r@ == AttachedModel::greeting(line@),
            r.line == line,
    {
        Attached {
            line,
            terminal_end_sent: false,
            sent_through: 0,
            repaint_ctrl_l: false,
            repaint_due: false,
        }
    }
}

/// A connection accepted but not yet greeting, and so not yet the client.
#[derive(Debug)]
pub struct Waiting {
    /// The connection.
    pub line: Line,
    /// By when it must have greeted.
    pub deadline: u64,
}

/// What a [`Waiting`] holds.
#[verifier::ext_equal]
pub struct WaitingModel {
    pub line: LineModel,
    pub deadline: u64,
}

impl View for Waiting {
    type V = WaitingModel;

    open spec fn view(&self) -> WaitingModel {
        WaitingModel { line: self.line@, deadline: self.deadline }
    }
}

/// Session state for the lifetime of the daemon.
#[derive(Debug)]
pub struct Session {
    /// Why this session is ending, once anything has decided it should. Until the loop
    /// leaves on its next pass, nothing new is accepted.
    pub stop: Option<StopReason>,
    /// The tail of what the terminal wrote.
    pub ring: Ring,
    /// Whether a terminal was ever started; it stays so past the child's exit.
    pub started: bool,
    /// The attached client.
    pub client: Option<Attached>,
    /// A connection that has not greeted.
    pub pending: Option<Waiting>,
    /// The served agent socket, once a session created with forwarding has bound one.
    pub agent: Option<Agent>,
    /// Authoritative input offset: everything below it has been accepted for the terminal
    /// and must never be applied twice.
    pub in_applied: u64,
    /// Input accepted but not yet written.
    pub pending_input: VecDeque<u8>,
    /// The size the client last asked for.
    pub win: WinSize,
    /// The size last successfully given to the terminal.
    pub applied_win: Option<WinSize>,
    /// Whether a `SIGCHLD` has arrived that no `waitpid` has been spent on yet.
    pub child_signalled: bool,
    /// When the terminal reported end of file.
    pub terminal_closed_at: Option<u64>,
    /// The child's known outcome, or that it is unknown for good.
    pub outcome: Option<(i32, ExitKind)>,
    /// When the session listener may be polled again.
    pub accept_retry: Option<u64>,
    /// The same for the agent listener.
    pub agent_accept_retry: Option<u64>,
    /// When the session last lost its client; whether that counts is whether it has one.
    pub last_detach: u64,
}

/// What a [`Session`] holds.
#[verifier::ext_equal]
pub struct SessionModel {
    pub stop: Option<StopReason>,
    pub ring: RingModel,
    pub started: bool,
    pub client: Option<AttachedModel>,
    pub pending: Option<WaitingModel>,
    pub agent: Option<AgentModel>,
    pub in_applied: u64,
    pub pending_input: Seq<u8>,
    pub win: WinSize,
    pub applied_win: Option<WinSize>,
    pub child_signalled: bool,
    pub terminal_closed_at: Option<u64>,
    pub outcome: Option<(i32, ExitKind)>,
    pub accept_retry: Option<u64>,
    pub agent_accept_retry: Option<u64>,
    pub last_detach: u64,
}

impl View for Session {
    type V = SessionModel;

    open spec fn view(&self) -> SessionModel {
        SessionModel {
            stop: self.stop,
            ring: self.ring@,
            started: self.started,
            client: match self.client {
                Some(client) => Some(client@),
                None => None,
            },
            pending: match self.pending {
                Some(pending) => Some(pending@),
                None => None,
            },
            agent: match self.agent {
                Some(agent) => Some(agent@),
                None => None,
            },
            in_applied: self.in_applied,
            pending_input: self.pending_input@,
            win: self.win,
            applied_win: self.applied_win,
            child_signalled: self.child_signalled,
            terminal_closed_at: self.terminal_closed_at,
            outcome: self.outcome,
            accept_retry: self.accept_retry,
            agent_accept_retry: self.agent_accept_retry,
            last_detach: self.last_detach,
        }
    }
}

/// What one entry of the poll set belongs to.
#[derive(Debug, Clone, Copy, PartialEq, Eq, Structural)]
pub enum Source {
    /// The session socket, where clients arrive.
    Listener,
    /// Read end of the pipe a stop signal writes to.
    Stop,
    /// Read end of the pipe `SIGCHLD` writes to.
    Child,
    /// The terminal.
    Pty,
    /// The attached client.
    Client,
    /// A connection that has not greeted yet.
    Pending,
    /// The agent socket.
    AgentListener,
    /// The proxied agent connection, of which there is at most one.
    AgentChannel,
}

impl Source {
    /// Every source the poll set can hold, in the order they are registered.
    pub const ALL: [Source; 8] = [
        Source::Listener,
        Source::Stop,
        Source::Child,
        Source::Pty,
        Source::Client,
        Source::Pending,
        Source::AgentListener,
        Source::AgentChannel,
    ];
}

/// What to ask the poll about one source.
#[derive(Debug, Clone, Copy, PartialEq, Eq, Structural)]
pub struct Interest {
    /// Whether to be woken when it can be read.
    pub read: bool,
    /// Whether to be woken when it can be written.
    pub write: bool,
}

// ---------------------------------------------------------------------------
// What a session is
// ---------------------------------------------------------------------------

impl SessionModel {
    /// A session nobody has attached to yet.
    pub open spec fn fresh(ring: RingModel, now: u64) -> SessionModel {
        SessionModel {
            stop: None,
            ring,
            started: false,
            client: None,
            pending: None,
            agent: None,
            in_applied: 0,
            pending_input: Seq::empty(),
            win: WinSize { cols: 0, rows: 0, xpixel: 0, ypixel: 0 },
            applied_win: None,
            child_signalled: false,
            terminal_closed_at: None,
            outcome: None,
            accept_retry: None,
            agent_accept_retry: None,
            last_detach: now,
        }
    }

    /// The ring is sound, nothing past its end was ever queued to the client, and the
    /// agent's queue is within its bound.
    pub open spec fn wf(self) -> bool {
        &&& self.ring.wf()
        &&& self.client matches Some(client) ==> client.sent_through <= self.ring.past()
        &&& self.agent matches Some(agent) ==> agent.wf()
    }

    /// Whether the input queue has reached [`MAX_PENDING_INPUT`].
    pub open spec fn saturated(self) -> bool {
        self.pending_input.len() >= MAX_PENDING_INPUT
    }

    /// How many bytes of the client's are read and not decoded.
    pub open spec fn undecoded(self) -> nat {
        match self.client {
            Some(client) => client.line.incoming.len(),
            None => 0,
        }
    }

    /// When idle reaping falls due, if nobody is attached.
    pub open spec fn reaped_at(self) -> Option<u64> {
        if self.client is Some {
            None
        } else if self.started {
            Some(later(self.last_detach, IDLE_TIMEOUT))
        } else {
            Some(later(self.last_detach, FIRST_ATTACH_TIMEOUT))
        }
    }

    /// Why the session should stop at `now`, if it should.
    pub open spec fn ends(self, now: u64) -> Option<StopReason> {
        if self.stop is Some {
            self.stop
        } else if self.reaped_at() matches Some(at) && now >= at {
            Some(
                if self.started {
                    StopReason::Idle
                } else {
                    StopReason::NeverAttached
                },
            )
        } else {
            None
        }
    }

    /// What to ask the poll about `source`, or nothing where it is not in the set now.
    pub open spec fn interest(self, source: Source) -> Option<Interest> {
        match source {
            Source::Listener => if self.accept_retry is None && self.pending is None {
                Some(Interest { read: true, write: false })
            } else {
                None
            },
            Source::Stop | Source::Child => Some(Interest { read: true, write: false }),
            Source::Pty => if self.started && self.terminal_closed_at is None {
                Some(Interest { read: true, write: self.pending_input.len() > 0 })
            } else {
                None
            },
            Source::Client => match self.client {
                Some(client) => Some(
                    Interest {
                        read: !self.saturated() && !client.line.ended,
                        write: client.line.outgoing.len() > 0 || client.sent_through
                            < self.ring.past(),
                    },
                ),
                None => None,
            },
            Source::Pending => if self.pending is Some {
                Some(Interest { read: true, write: false })
            } else {
                None
            },
            Source::AgentListener => if self.agent is Some && self.agent->0.channel is None
                && self.agent_accept_retry is None {
                Some(Interest { read: true, write: false })
            } else {
                None
            },
            Source::AgentChannel => if self.agent is Some && self.agent->0.channel is Some {
                let channel = self.agent->0.channel->0;
                let full = self.client matches Some(client) && client.line.outgoing.len()
                    >= MAX_PENDING_WRITE;
                let wanted = Interest {
                    read: !full && !channel.closing,
                    write: channel.pending.len() > 0,
                };
                if wanted.read || wanted.write {
                    Some(wanted)
                } else {
                    None
                }
            } else {
                None
            },
        }
    }

    /// The poll set, out of the first `n` sources.
    pub open spec fn watched(self, n: nat) -> Seq<(Source, Interest)>
        decreases n,
    {
        if n == 0 {
            Seq::empty()
        } else {
            let source = Source::ALL@[n - 1];
            match self.interest(source) {
                Some(interest) => self.watched((n - 1) as nat).push((source, interest)),
                None => self.watched((n - 1) as nat),
            }
        }
    }

    /// With what falls due at `now` expired: each backoff, the pending connection and the
    /// agent connection that has gone quiet.
    pub open spec fn expired(self, now: u64) -> SessionModel {
        let stalled = self.agent matches Some(agent) && agent.is_stalled(now);
        let shorter = SessionModel {
            accept_retry: if self.accept_retry matches Some(at) && now >= at {
                None
            } else {
                self.accept_retry
            },
            agent_accept_retry: if self.agent_accept_retry matches Some(at) && now >= at {
                None
            } else {
                self.agent_accept_retry
            },
            pending: if self.pending matches Some(pending) && now >= pending.deadline {
                None
            } else {
                self.pending
            },
            agent: if stalled {
                Some(self.agent->0.forgotten())
            } else {
                self.agent
            },
            ..self
        };
        if stalled && !self.agent->0.channel->0.closing {
            shorter.told(
                FrameModel::AgentClose { generation: self.agent->0.channel->0.generation },
            )
        } else {
            shorter
        }
    }

    /// How long the loop may sleep at `now`, in nanoseconds: to the next deadline there is,
    /// and no longer than [`IDLE_TICK`].
    pub open spec fn sleeps(self, now: u64) -> u64 {
        until(
            if self.terminal_closed_at is Some && self.outcome is None {
                Some(later(self.terminal_closed_at->0, OUTCOME_GRACE))
            } else {
                None
            },
            now,
            until(
                if self.agent is Some && self.agent->0.channel is Some {
                    Some(self.agent->0.channel->0.idle_deadline)
                } else {
                    None
                },
                now,
                until(
                    if self.pending is Some {
                        Some(self.pending->0.deadline)
                    } else {
                        None
                    },
                    now,
                    until(
                        self.agent_accept_retry,
                        now,
                        until(self.accept_retry, now, until(self.reaped_at(), now, IDLE_TICK)),
                    ),
                ),
            ),
        )
    }

    /// With one frame more queued to the client, if there is one, dropping one that cannot be
    /// encoded.
    pub open spec fn told(self, frame: FrameModel) -> SessionModel {
        match self.client {
            Some(client) => SessionModel { client: Some(client.told(frame)), ..self },
            None => self,
        }
    }

    /// With nobody attached since `now`: whatever belonged to the client is gone with it,
    /// and the agent connection it was holding is closing.
    pub open spec fn departed(self, now: u64) -> SessionModel {
        SessionModel {
            client: None,
            last_detach: now,
            agent: match self.agent {
                Some(agent) => match agent.generation() {
                    Some(generation) => Some(agent.closed_by_client(generation)),
                    None => Some(agent),
                },
                None => None,
            },
            ..self
        }
    }

    /// With the client let go at `now`, if there is one.
    pub open spec fn dropped(self, now: u64) -> SessionModel {
        if self.client is Some {
            self.departed(now)
        } else {
            self
        }
    }

    /// The connection that leaves when the client is let go, and what it is left holding
    /// when it is told why.
    pub open spec fn farewell(self, why: Option<Refusal>) -> Option<LineModel> {
        match self.client {
            Some(client) => Some(
                match why {
                    Some(refusal) => client.line.said(refusal.says()),
                    None => client.line,
                },
            ),
            None => None,
        }
    }
}

/// The shorter of `limit` and what is left until `at`, if there is a deadline at all.
pub open spec fn until(at: Option<u64>, now: u64, limit: u64) -> u64 {
    match at {
        None => limit,
        Some(at) => if at <= now {
            0
        } else if at - now < limit {
            (at - now) as u64
        } else {
            limit
        },
    }
}

/// The shorter of `limit` and what is left until `at`.
fn sooner(at: Option<u64>, now: u64, limit: u64) -> (r: u64)
    ensures
        r == until(at, now, limit),
        r <= limit,
{
    match at {
        None => limit,
        Some(at) => if at <= now {
            0
        } else if at - now < limit {
            at - now
        } else {
            limit
        },
    }
}

/// The connection in an option of one.
pub open spec fn line_of(line: Option<Line>) -> Option<LineModel> {
    match line {
        Some(line) => Some(line@),
        None => None,
    }
}

/// A connection, if there is one, with its buffers sound.
pub open spec fn line_wf(line: Option<Line>) -> bool {
    line matches Some(line) ==> line.wf()
}

/// The frames a session answers with have a few fixed fields each, so all of them fit
/// whatever they say, and none of them is ever dropped.
pub proof fn no_answer_is_dropped(frame: FrameModel)
    requires
        frame is HelloOk || frame is InputAck || frame is Gap || frame is Exit || frame is Pong
            || frame is AgentOpen || frame is AgentClose,
    ensures
        frame.refusal() is None,
        wire_of(frame) == frame.bytes(),
{
}

// ---------------------------------------------------------------------------
// What is asked of it
// ---------------------------------------------------------------------------

impl Session {
    /// What the session holds is sound, and so are the buffers of its connections.
    pub open spec fn wf(&self) -> bool {
        &&& self@.wf()
        &&& self.client matches Some(client) ==> client.line.wf()
        &&& self.pending matches Some(pending) ==> pending.line.wf()
    }

    /// A session nobody has attached to yet, over a ring nothing was written to.
    pub fn new(ring: Ring, now: u64) -> (r: Session)
        requires
            ring@.wf(),
        ensures
            r.wf(),
            r@ == SessionModel::fresh(ring@, now),
    {
        let r = Session {
            stop: None,
            ring,
            started: false,
            client: None,
            pending: None,
            agent: None,
            in_applied: 0,
            pending_input: VecDeque::new(),
            win: WinSize { cols: 0, rows: 0, xpixel: 0, ypixel: 0 },
            applied_win: None,
            child_signalled: false,
            terminal_closed_at: None,
            outcome: None,
            accept_retry: None,
            agent_accept_retry: None,
            last_detach: now,
        };
        assert(r@ =~= SessionModel::fresh(ring@, now));
        r
    }

    /// When idle reaping falls due, if the session is clientless — the one deadline there
    /// is, the child's exit not being a second beside it.
    pub fn detach_deadline(&self) -> (r: Option<u64>)
        ensures
            r == self@.reaped_at(),
    {
        if self.client.is_some() {
            None
        } else if self.started {
            Some(after(self.last_detach, IDLE_TIMEOUT))
        } else {
            Some(after(self.last_detach, FIRST_ATTACH_TIMEOUT))
        }
    }

    /// Whether the input queue has reached [`MAX_PENDING_INPUT`].
    pub fn input_is_saturated(&self) -> (r: bool)
        ensures
            r == self@.saturated(),
    {
        self.pending_input.len() >= MAX_PENDING_INPUT
    }

    /// Whether the client holds bytes the input cap left undecoded and the queue has since
    /// made room for.
    pub fn input_backlog(&self) -> (r: bool)
        requires
            self.wf(),
        ensures
            r == (!self@.saturated() && self@.undecoded() > 0),
    {
        !self.input_is_saturated() && match &self.client {
            Some(client) => client.line.buffered() > 0,
            None => false,
        }
    }

    /// Why the session should stop at `now`, if it should.
    pub fn stop_reason(&self, now: u64) -> (r: Option<StopReason>)
        ensures
            r == self@.ends(now),
    {
        if self.stop.is_some() {
            return self.stop;
        }
        match self.detach_deadline() {
            Some(at) if now >= at => Some(
                if self.started {
                    StopReason::Idle
                } else {
                    StopReason::NeverAttached
                },
            ),
            _ => None,
        }
    }

    /// What to ask the poll about `source`, or nothing where it is not in the set now.
    ///
    /// A listener stays out while an `accept` failure is waited out and while the slot it
    /// feeds is taken. The terminal is dropped once it has closed. A client is registered
    /// even when nothing is asked of it: a hang-up is reported whatever the mask says, and
    /// past a half-close that is all that can report the peer dead. An agent connection
    /// nothing is asked of is not.
    pub fn watch_for(&self, source: Source) -> (r: Option<Interest>)
        requires
            self.wf(),
        ensures
            r == self@.interest(source),
    {
        match source {
            Source::Listener => if self.accept_retry.is_none() && self.pending.is_none() {
                Some(Interest { read: true, write: false })
            } else {
                None
            },
            Source::Stop | Source::Child => Some(Interest { read: true, write: false }),
            Source::Pty => if self.started && self.terminal_closed_at.is_none() {
                Some(Interest { read: true, write: self.pending_input.len() > 0 })
            } else {
                None
            },
            Source::Client => match &self.client {
                Some(client) => Some(
                    Interest {
                        read: !self.input_is_saturated() && !client.line.is_eof(),
                        write: client.line.queued() > 0 || client.sent_through < self.ring.end(),
                    },
                ),
                None => None,
            },
            Source::Pending => if self.pending.is_some() {
                Some(Interest { read: true, write: false })
            } else {
                None
            },
            Source::AgentListener => match &self.agent {
                Some(agent) => if self.agent_accept_retry.is_none() && !agent.is_serving() {
                    Some(Interest { read: true, write: false })
                } else {
                    None
                },
                None => None,
            },
            Source::AgentChannel => match &self.agent {
                Some(agent) => match agent.watch() {
                    Some((wants_write, wants_read)) => {
                        let full: bool = match &self.client {
                            Some(client) => client.line.queued() >= MAX_PENDING_WRITE,
                            None => false,
                        };
                        let read: bool = !full && wants_read;
                        if read || wants_write {
                            Some(Interest { read, write: wants_write })
                        } else {
                            None
                        }
                    },
                    None => None,
                },
                None => None,
            },
        }
    }

    /// Everything the poll set watches, in order.
    pub fn watches(&self) -> (r: Vec<(Source, Interest)>)
        requires
            self.wf(),
        ensures
            r@ == self@.watched(8),
    {
        let all: [Source; 8] = Source::ALL;
        let mut set: Vec<(Source, Interest)> = Vec::new();
        let mut i: usize = 0;
        assert(set@ =~= self@.watched(0));
        while i < 8
            invariant
                self.wf(),
                i <= 8,
                all@ == Source::ALL@,
                set@ == self@.watched(i as nat),
            decreases 8 - i,
        {
            let source: Source = all[i];
            if let Some(interest) = self.watch_for(source) {
                set.push((source, interest));
            }
            i += 1;
        }
        set
    }

    /// Expires the deadlines that decide the poll set.
    pub fn expire(&mut self, now: u64)
        requires
            old(self).wf(),
        ensures
            final(self).wf(),
            final(self)@ == old(self)@.expired(now),
    {
        if let Some(at) = self.accept_retry {
            if now >= at {
                self.accept_retry = None;
            }
        }
        if let Some(at) = self.agent_accept_retry {
            if now >= at {
                self.agent_accept_retry = None;
            }
        }
        let lapsed: bool = match &self.pending {
            Some(pending) => now >= pending.deadline,
            None => false,
        };
        if lapsed {
            self.pending = None;
        }
        let owed: Option<u32> = match &mut self.agent {
            Some(agent) => agent.close_if_idle(now),
            None => None,
        };
        if let Some(generation) = owed {
            self.tell_client(&Frame::AgentClose { generation });
        }
        assert(self@ =~= old(self)@.expired(now));
    }

    /// How long the loop may sleep, as whole seconds and the nanoseconds behind them: to
    /// the next deadline that could change anything, and no longer.
    pub fn poll_timeout(&self, now: u64) -> (r: (i64, i64))
        ensures
            r.0 * 1_000_000_000 + r.1 == self@.sleeps(now),
            0 <= r.1 < 1_000_000_000,
    {
        let mut left: u64 = sooner(self.detach_deadline(), now, IDLE_TICK);
        left = sooner(self.accept_retry, now, left);
        left = sooner(self.agent_accept_retry, now, left);
        left = sooner(
            match &self.pending {
                Some(pending) => Some(pending.deadline),
                None => None,
            },
            now,
            left,
        );
        left = sooner(
            match &self.agent {
                Some(agent) => agent.deadline(),
                None => None,
            },
            now,
            left,
        );
        left = sooner(
            match (self.terminal_closed_at, self.outcome) {
                (Some(closed_at), None) => Some(after(closed_at, OUTCOME_GRACE)),
                _ => None,
            },
            now,
            left,
        );
        ((left / 1_000_000_000) as i64, (left % 1_000_000_000) as i64)
    }

    /// Queues a control frame for the attached client, if there is one: these are answers,
    /// and a session with nobody attached has nowhere to put them. One that cannot be encoded
    /// is dropped.
    pub fn tell_client(&mut self, frame: &Frame<'_>)
        requires
            old(self).wf(),
        ensures
            final(self).wf(),
            final(self)@ == old(self)@.told(frame@),
    {
        if let Some(client) = &mut self.client {
            client.line.say(frame);
        }
        assert(self@ =~= old(self)@.told(frame@));
    }

    /// Stamps the session clientless; everything that belonged to the departing connection
    /// is the caller's. Nothing can answer an agent request with the client gone, so the
    /// connection being served closes too — through the client's own door, because a reply
    /// the client has already sent is still to be written to it.
    fn on_detached(&mut self, now: u64)
        requires
            old(self).wf(),
            old(self).client is None,
        ensures
            final(self).wf(),
            final(self)@ == old(self)@.departed(now),
    {
        self.last_detach = now;
        if let Some(agent) = &mut self.agent {
            if let Some(generation) = agent.generation() {
                let _ = agent.close_from_client(generation);
            }
        }
        assert(self@ =~= old(self)@.departed(now));
    }

    /// Lets the attached client go, and hands its connection back to be closed with only
    /// what the socket takes this instant.
    pub fn drop_client(&mut self, now: u64) -> (r: Option<Line>)
        requires
            old(self).wf(),
        ensures
            final(self).wf(),
            final(self)@ == old(self)@.dropped(now),
            line_of(r) == old(self)@.farewell(None),
            line_wf(r),
    {
        match self.client.take() {
            None => {
                assert(self@ =~= old(self)@);
                None
            },
            Some(client) => {
                self.on_detached(now);
                assert(self@ =~= old(self)@.departed(now));
                Some(client.line)
            },
        }
    }

    /// Tells the attached client why, and lets it go on [`Session::drop_client`]'s terms.
    pub fn reject(&mut self, why: Refusal, now: u64) -> (r: Option<Line>)
        requires
            old(self).wf(),
        ensures
            final(self).wf(),
            final(self)@ == old(self)@.dropped(now),
            line_of(r) == old(self)@.farewell(Some(why)),
            line_wf(r),
    {
        self.tell_client(&why.frame());
        let left: Option<Line> = self.drop_client(now);
        assert(self@ =~= old(self)@.dropped(now));
        left
    }
}

} // verus!
