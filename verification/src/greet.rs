//! How a connection becomes the client: it is accepted, it greets, and the session is
//! handed to it — or it is turned away and the session never notices.
use vstd::prelude::*;
use vstd::utf8::encode_utf8;

use crate::agent::{after, later, Agent, AgentModel};
use crate::conn::{first_frame, Received, Step};
use crate::header::FrameType;
use crate::line::{Line, LineModel};
use crate::refusal::Refusal;
use crate::rev11::{decoded, Frame, FrameModel, Hello, HelloModel, HelloOk, PROTOCOL_VERSION};
use crate::session::{
    line_of, line_wf, Attached, AttachedModel, Session, SessionModel, StopReason, Waiting,
    WaitingModel, ACCEPT_BACKOFF, PENDING_HELLO_TIMEOUT,
};
use crate::text::put;
use crate::wire::{WinSize, RESUME_FROM_START};

verus! {

/// A greeting, kept past the buffer it was decoded from.
#[derive(Debug)]
pub struct Greeting {
    /// The revision the client speaks.
    pub protocol: u16,
    /// Whether to serve an agent socket, where this creates the session.
    pub agent_forward: bool,
    /// Whether to repaint with `Ctrl-L`.
    pub repaint_ctrl_l: bool,
    /// Whether to be refused rather than evict a client that holds the session.
    pub if_detached: bool,
    /// Next output byte the client wants, or [`RESUME_FROM_START`].
    pub out_offset: u64,
    /// Terminal dimensions.
    pub win: WinSize,
    /// Value for the child's `TERM`, where this creates the session.
    pub term: String,
}

impl View for Greeting {
    type V = HelloModel;

    open spec fn view(&self) -> HelloModel {
        HelloModel {
            protocol: self.protocol,
            agent_forward: self.agent_forward,
            repaint_ctrl_l: self.repaint_ctrl_l,
            if_detached: self.if_detached,
            out_offset: self.out_offset,
            win: self.win,
            term: encode_utf8(self.term@),
        }
    }
}

impl Greeting {
    /// A greeting kept past the buffer it was decoded from.
    pub fn keep(hello: &Hello<'_>) -> (r: Greeting)
        ensures
            r@ == hello@,
    {
        let mut term: String = String::new();
        put(&mut term, hello.term);
        assert(term@ =~= hello.term@);
        Greeting {
            protocol: hello.protocol,
            agent_forward: hello.agent_forward,
            repaint_ctrl_l: hello.repaint_ctrl_l,
            if_detached: hello.if_detached,
            out_offset: hello.out_offset,
            win: hello.win,
            term,
        }
    }
}

/// What asking the session socket for a connection came back with.
#[derive(Debug, Clone, Copy, PartialEq, Eq, Structural)]
pub enum Knock {
    /// A connection, from this user or not, that could be made non-blocking or not.
    Connection {
        /// Whether the peer is this user's.
        ours: bool,
        /// Whether the connection was made non-blocking.
        usable: bool,
    },
    /// A signal arrived instead.
    Interrupted,
    /// Nobody is waiting.
    Nobody,
    /// The `accept` failed for something that will still be there on the next pass.
    Failed,
}

/// What the connection that has not greeted yet came to.
pub enum Opening {
    /// There is none.
    Absent,
    /// It has not said enough yet.
    Waiting,
    /// It closed without greeting, which is what a liveness probe does.
    Closed,
    /// It is turned away, and this is its connection.
    Refused(Line),
    /// It greets.
    Greets(Greeting),
}

/// What an [`Opening`] holds.
#[verifier::ext_equal]
pub enum OpeningModel {
    Absent,
    Waiting,
    Closed,
    Refused(LineModel),
    Greets(HelloModel),
}

impl View for Opening {
    type V = OpeningModel;

    open spec fn view(&self) -> OpeningModel {
        match *self {
            Opening::Absent => OpeningModel::Absent,
            Opening::Waiting => OpeningModel::Waiting,
            Opening::Closed => OpeningModel::Closed,
            Opening::Refused(line) => OpeningModel::Refused(line@),
            Opening::Greets(hello) => OpeningModel::Greets(hello@),
        }
    }
}

impl Opening {
    /// The connection handed over, if any, has sound buffers.
    pub open spec fn wf(&self) -> bool {
        self matches Opening::Refused(line) ==> line.wf()
    }
}

/// What became of a greeting.
pub enum Admission {
    /// The session stays with whoever holds it; this is the connection turned away.
    Refused(Option<Line>),
    /// The connection is the client now; this is the one it took the session from.
    Admitted(Option<Line>),
}

/// What an [`Admission`] holds.
#[verifier::ext_equal]
pub enum AdmissionModel {
    Refused(Option<LineModel>),
    Admitted(Option<LineModel>),
}

impl View for Admission {
    type V = AdmissionModel;

    open spec fn view(&self) -> AdmissionModel {
        match *self {
            Admission::Refused(line) => AdmissionModel::Refused(line_of(line)),
            Admission::Admitted(line) => AdmissionModel::Admitted(line_of(line)),
        }
    }
}

impl Admission {
    /// The connection handed over, if any, has sound buffers.
    pub open spec fn wf(&self) -> bool {
        match *self {
            Admission::Refused(line) => line_wf(line),
            Admission::Admitted(line) => line_wf(line),
        }
    }
}

/// What starting the session outside came to.
#[derive(Debug, Clone, Copy, PartialEq, Eq, Structural)]
pub struct Attempt {
    /// Whether the agent socket was bound, where the greeting asked for one.
    pub agent_bound: bool,
    /// Whether a shell was started on a terminal.
    pub spawned: bool,
}

// ---------------------------------------------------------------------------
// What each step does
// ---------------------------------------------------------------------------

/// Why the first frame of a connection is turned away, where it is: the header, the type,
/// the payload and the revision are asked after in that order, and all before anything is
/// done to the client that holds the session.
pub open spec fn first_complaint(ty: FrameType, payload: Seq<u8>) -> Option<Refusal> {
    if ty != FrameType::Hello {
        Some(Refusal::NotHello)
    } else {
        match decoded(ty, payload) {
            Ok(FrameModel::Hello(hello)) => if hello.protocol != PROTOCOL_VERSION {
                Some(Refusal::WrongVersion)
            } else {
                None
            },
            _ => Some(Refusal::UnparseableHello),
        }
    }
}

/// Where output resumes for a client that wants `out_offset`: there, as far as the ring
/// still holds it and has reached it.
pub open spec fn resumes_at(out_offset: u64, first: nat, past: nat) -> nat {
    if out_offset == RESUME_FROM_START || out_offset < first {
        first
    } else if out_offset > past {
        past
    } else {
        out_offset as nat
    }
}

/// What settling a greeting takes, one step after the other.
#[derive(Debug, Clone, Copy, PartialEq, Eq, Structural)]
pub enum Settling {
    /// Decode the last of what the client that holds the session said: its input belongs to
    /// the session, and a departure behind it frees the slot.
    Drain,
    /// Hand the session over, or refuse it.
    HandOver,
    /// Bind the agent socket and start the shell.
    Start,
    /// Answer the greeting.
    Welcome,
    /// Decode what the new client sent right behind it.
    ReadOn,
    /// It is settled.
    Settled,
}

impl Settling {
    /// Where this step stands in that order.
    pub open spec fn place(self) -> int {
        match self {
            Settling::Drain => 0,
            Settling::HandOver => 1,
            Settling::Start => 2,
            Settling::Welcome => 3,
            Settling::ReadOn => 4,
            Settling::Settled => 5,
        }
    }
}

impl SessionModel {
    /// After one answer of the session socket at `now`.
    pub open spec fn knocked(self, knock: Knock, now: u64) -> SessionModel {
        match knock {
            Knock::Connection { ours, usable } => if !ours {
                self
            } else if usable {
                SessionModel {
                    pending: Some(
                        WaitingModel {
                            line: LineModel::fresh(),
                            deadline: later(now, PENDING_HELLO_TIMEOUT),
                        },
                    ),
                    ..self
                }
            } else {
                SessionModel { pending: None, ..self }
            },
            Knock::Interrupted | Knock::Nobody => self,
            Knock::Failed => SessionModel { accept_retry: Some(later(now, ACCEPT_BACKOFF)), ..self },
        }
    }

    /// After one read of the waiting connection's socket, and whether to read on.
    pub open spec fn pending_filled(self, got: Received<'_>) -> (SessionModel, Step) {
        match self.pending {
            None => (self, Step::Done),
            Some(pending) => (
                SessionModel {
                    pending: if pending.line.fill_step(got) == Step::Failed {
                        None
                    } else {
                        Some(WaitingModel { line: pending.line.filled(got), ..pending })
                    },
                    ..self
                },
                pending.line.fill_step(got),
            ),
        }
    }

    /// The connection that leaves where the session could not be started for it.
    pub open spec fn left_unstarted(self, attempt: Attempt) -> Option<LineModel> {
        if self.started || attempt.spawned {
            None
        } else {
            self.farewell(Some(Refusal::ShellFailed))
        }
    }

    /// The connection that has not greeted, turned away.
    pub open spec fn pending_refused(self, why: Refusal) -> (SessionModel, OpeningModel) {
        (
            SessionModel { pending: None, ..self },
            OpeningModel::Refused(self.pending->0.line.said(why.says())),
        )
    }

    /// After what the waiting connection has said so far was looked at.
    pub open spec fn opened(self) -> (SessionModel, OpeningModel) {
        match self.pending {
            None => (self, OpeningModel::Absent),
            Some(pending) => match first_frame(pending.line.incoming) {
                Err(_) => self.pending_refused(Refusal::UnparseableHeader),
                Ok(None) => if pending.line.ended {
                    (SessionModel { pending: None, ..self }, OpeningModel::Closed)
                } else {
                    (self, OpeningModel::Waiting)
                },
                Ok(Some((ty, payload, rest))) => {
                    let heard = SessionModel {
                        pending: Some(
                            WaitingModel {
                                line: LineModel { incoming: rest, ..pending.line },
                                ..pending
                            },
                        ),
                        ..self
                    };
                    match first_complaint(ty, payload) {
                        Some(why) => heard.pending_refused(why),
                        None => (
                            heard,
                            OpeningModel::Greets(decoded(ty, payload)->Ok_0->Hello_0),
                        ),
                    }
                },
            },
        }
    }

    /// After the session was given to the connection that greeted, or refused to it.
    pub open spec fn admitted(self, hello: HelloModel, now: u64) -> (SessionModel, AdmissionModel) {
        if hello.if_detached && self.client is Some {
            (
                SessionModel { pending: None, ..self },
                AdmissionModel::Refused(
                    match self.pending {
                        Some(pending) => Some(
                            pending.line.said(Refusal::AlreadyAttached.says()),
                        ),
                        None => None,
                    },
                ),
            )
        } else {
            (
                SessionModel {
                    client: match self.pending {
                        Some(pending) => Some(AttachedModel::greeting(pending.line)),
                        None => None,
                    },
                    pending: None,
                    ..self.dropped(now)
                },
                AdmissionModel::Admitted(self.farewell(Some(Refusal::TakenOver))),
            )
        }
    }

    /// After starting the session was tried: a session without an agent is worth having,
    /// one without a shell is not.
    pub open spec fn session_started(
        self,
        hello: HelloModel,
        attempt: Attempt,
        now: u64,
    ) -> SessionModel {
        let agented = SessionModel {
            agent: if hello.agent_forward && attempt.agent_bound {
                Some(AgentModel { channel: None, next_generation: 0 })
            } else {
                self.agent
            },
            ..self
        };
        if attempt.spawned {
            SessionModel { started: true, ..agented }
        } else {
            SessionModel { stop: Some(StopReason::ShellNotStarted), ..agented.dropped(now) }
        }
    }

    /// What the client is answered.
    pub open spec fn welcome(self, hello: HelloModel) -> HelloOk {
        HelloOk {
            resume_from: resumes_at(hello.out_offset, self.ring.first, self.ring.past()) as u64,
            in_applied: self.in_applied,
            agent: self.agent is Some,
        }
    }

    /// After the client was settled onto a running session.
    pub open spec fn welcomed(self, hello: HelloModel) -> SessionModel {
        let ok = self.welcome(hello);
        match self.client {
            None => self,
            Some(client) => SessionModel {
                client: Some(
                    AttachedModel {
                        sent_through: ok.resume_from,
                        repaint_ctrl_l: hello.repaint_ctrl_l,
                        repaint_due: ok.resume_from > hello.out_offset,
                        ..client.told(FrameModel::HelloOk(ok))
                    },
                ),
                ..self
            },
        }
    }

    /// With the size the client has, none of it applied yet.
    pub open spec fn resized(self, hello: HelloModel) -> SessionModel {
        SessionModel { win: hello.win, applied_win: None, ..self }
    }

    /// The first step of settling a greeting: whoever holds the session is heard out.
    pub open spec fn settles_first(self) -> Settling {
        if self.client is Some {
            Settling::Drain
        } else {
            Settling::HandOver
        }
    }

    /// The step behind `done`: a greeting that was not handed the session is done with, and
    /// the session is started on the first that was.
    pub open spec fn settles_next(self, done: Settling, handed: bool) -> Settling {
        match done {
            Settling::Drain => Settling::HandOver,
            Settling::HandOver if !handed => Settling::Settled,
            Settling::HandOver if self.started => Settling::Welcome,
            Settling::HandOver => Settling::Start,
            Settling::Start => Settling::Welcome,
            Settling::Welcome => Settling::ReadOn,
            _ => Settling::Settled,
        }
    }

    /// After a greeting was settled: the session is started if there is none, and the
    /// client resumes it if there is one then.
    pub open spec fn greeted(self, hello: HelloModel, attempt: Attempt, now: u64) -> SessionModel {
        let sized = self.resized(hello);
        if self.started {
            sized.welcomed(hello)
        } else {
            let tried = sized.session_started(hello, attempt, now);
            if tried.started {
                tried.welcomed(hello)
            } else {
                tried
            }
        }
    }
}

// ---------------------------------------------------------------------------
// The steps
// ---------------------------------------------------------------------------

impl Session {
    /// Takes one answer of the session socket, and says whether to ask again.
    ///
    /// A connection waits as pending until it greets: connecting is *not* attaching. One
    /// that is not this user's never becomes the session's business, and is no reason to
    /// stand back from a listener in perfect health.
    pub fn accept(&mut self, knock: Knock, now: u64) -> (r: bool)
        requires
            old(self).wf(),
        ensures
            final(self).wf(),
            final(self)@ == old(self)@.knocked(knock, now),
            r == (knock == Knock::Interrupted),
    {
        match knock {
            Knock::Connection { ours, usable } => {
                if ours {
                    self.pending = if usable {
                        Some(
                            Waiting {
                                line: Line::new(),
                                deadline: after(now, PENDING_HELLO_TIMEOUT),
                            },
                        )
                    } else {
                        None
                    };
                }
                assert(self@ =~= old(self)@.knocked(knock, now));
                false
            },
            Knock::Interrupted => true,
            Knock::Nobody => false,
            Knock::Failed => {
                self.accept_retry = Some(after(now, ACCEPT_BACKOFF));
                assert(self@ =~= old(self)@.knocked(knock, now));
                false
            },
        }
    }

    /// Takes in one read of the waiting connection's socket; a socket that failed is
    /// forgotten.
    pub fn fill_pending(&mut self, got: Received<'_>) -> (r: Step)
        requires
            old(self).wf(),
        ensures
            final(self).wf(),
            (final(self)@, r) == old(self)@.pending_filled(got),
            match old(self)@.pending {
                None => r == Step::Done && final(self)@ == old(self)@,
                Some(pending) => {
                    &&& r == pending.line.fill_step(got)
                    &&& final(self)@ == (SessionModel {
                        pending: if r == Step::Failed {
                            None
                        } else {
                            Some(WaitingModel { line: pending.line.filled(got), ..pending })
                        },
                        ..old(self)@
                    })
                },
            },
    {
        let step: Step = match &mut self.pending {
            None => Step::Done,
            Some(pending) => pending.line.fill(got),
        };
        if let Step::Failed = step {
            self.pending = None;
        }
        proof {
            if old(self)@.pending is Some {
                let pending = old(self)@.pending->0;
                assert(self@ =~= (SessionModel {
                    pending: if step == Step::Failed {
                        None
                    } else {
                        Some(WaitingModel { line: pending.line.filled(got), ..pending })
                    },
                    ..old(self)@
                }));
            }
        }
        step
    }

    /// Turns away a connection that cannot have the session, leaving the session alone.
    fn reject_pending(&mut self, why: Refusal) -> (r: Option<Line>)
        requires
            old(self).wf(),
        ensures
            final(self).wf(),
            final(self)@ == (SessionModel { pending: None, ..old(self)@ }),
            line_wf(r),
            line_of(r) == match old(self)@.pending {
                Some(pending) => Some(pending.line.said(why.says())),
                None => None,
            },
    {
        let turned = match self.pending.take() {
            None => None,
            Some(pending) => {
                let mut line: Line = pending.line;
                line.say(&why.frame());
                Some(line)
            },
        };
        assert(self@ =~= (SessionModel { pending: None, ..old(self)@ }));
        turned
    }

    /// Looks at what the waiting connection has said. Its first frame decides everything:
    /// a greeting in this revision is handed back to be settled, anything else is turned
    /// away, and an end of file was a liveness probe. The client that holds the session is
    /// not touched.
    pub fn read_pending(&mut self, scratch: &mut Vec<u8>) -> (r: Opening)
        requires
            old(self).wf(),
        ensures
            final(self).wf(),
            r.wf(),
            (final(self)@, r@) == old(self)@.opened(),
    {
        let taken = match &mut self.pending {
            None => {
                return Opening::Absent;
            },
            Some(pending) => pending.line.take_frame(scratch),
        };
        let ty: FrameType = match taken {
            Err(_) => {
                assert(self@ =~= old(self)@);
                return self.refuse_opening(Refusal::UnparseableHeader);
            },
            Ok(None) => {
                let ended: bool = match &self.pending {
                    Some(pending) => pending.line.is_eof(),
                    None => false,
                };
                if ended {
                    self.pending = None;
                    assert(self@ =~= old(self)@.opened().0);
                    return Opening::Closed;
                }
                assert(self@ =~= old(self)@);
                return Opening::Waiting;
            },
            Ok(Some(ty)) => ty,
        };
        let ghost before = old(self)@.pending->0;
        let ghost (_, payload, rest) = first_frame(before.line.incoming)->Ok_0->0;
        assert(self@ =~= (SessionModel {
            pending: Some(
                WaitingModel { line: LineModel { incoming: rest, ..before.line }, ..before },
            ),
            ..old(self)@
        }));
        if ty != FrameType::Hello {
            return self.refuse_opening(Refusal::NotHello);
        }
        match Frame::decode(ty, scratch.as_slice()) {
            Ok(Frame::Hello(hello)) => {
                if hello.protocol != PROTOCOL_VERSION {
                    return self.refuse_opening(Refusal::WrongVersion);
                }
                Opening::Greets(Greeting::keep(&hello))
            },
            _ => self.refuse_opening(Refusal::UnparseableHello),
        }
    }

    /// Turns the waiting connection away.
    fn refuse_opening(&mut self, why: Refusal) -> (r: Opening)
        requires
            old(self).wf(),
            old(self).pending is Some,
        ensures
            final(self).wf(),
            r.wf(),
            (final(self)@, r@) == old(self)@.pending_refused(why),
    {
        match self.reject_pending(why) {
            Some(line) => Opening::Refused(line),
            None => Opening::Absent,
        }
    }

    /// Refuses the attached client in favour of the one taking the session over, and hands
    /// its connection back: it is owed the frames it was in the middle of, and the reason
    /// rides out behind them.
    pub fn evict(&mut self, now: u64) -> (r: Option<Line>)
        requires
            old(self).wf(),
        ensures
            final(self).wf(),
            final(self)@ == old(self)@.dropped(now),
            line_of(r) == old(self)@.farewell(Some(Refusal::TakenOver)),
            line_wf(r),
    {
        self.reject(Refusal::TakenOver, now)
    }

    /// Hands the session to the connection that greeted, unless the greeting asked not to
    /// where somebody is attached. Asked and answered only after the attached client's last
    /// input was decoded: a departure already behind it frees the slot in time.
    pub fn hand_over(&mut self, hello: &Greeting, now: u64) -> (r: Admission)
        requires
            old(self).wf(),
        ensures
            final(self).wf(),
            r.wf(),
            (final(self)@, r@) == old(self)@.admitted(hello@, now),
    {
        if hello.if_detached && self.client.is_some() {
            return Admission::Refused(self.reject_pending(Refusal::AlreadyAttached));
        }
        let left: Option<Line> = self.evict(now);
        self.client = match self.pending.take() {
            Some(pending) => Some(Attached::greeting(pending.line)),
            None => None,
        };
        assert(self@ =~= old(self)@.admitted(hello@, now).0);
        Admission::Admitted(left)
    }

    /// Records what starting the session came to, on the greeting that creates it.
    pub fn start_session(&mut self, hello: &Greeting, attempt: Attempt, now: u64) -> (r: Option<
        Line,
    >)
        requires
            old(self).wf(),
        ensures
            final(self).wf(),
            final(self)@ == old(self)@.session_started(hello@, attempt, now),
            line_wf(r),
            line_of(r) == if attempt.spawned {
                None
            } else {
                old(self)@.farewell(Some(Refusal::ShellFailed))
            },
    {
        if hello.agent_forward && attempt.agent_bound {
            self.agent = Some(Agent::new());
        }
        if attempt.spawned {
            self.started = true;
            assert(self@ =~= old(self)@.session_started(hello@, attempt, now));
            None
        } else {
            let left: Option<Line> = self.reject(Refusal::ShellFailed, now);
            self.stop = Some(StopReason::ShellNotStarted);
            assert(self@ =~= old(self)@.session_started(hello@, attempt, now));
            left
        }
    }

    /// Settles the arriving client onto the session, creating it if there is none yet, and
    /// hands its connection back where it could not be created. `attempt` counts only then.
    ///
    /// Where output resumes is clamped at both ends, and whether anything was lost in
    /// between is not on the wire: both ends work it out.
    pub fn on_hello(&mut self, hello: &Greeting, attempt: Attempt, now: u64) -> (r: Option<Line>)
        requires
            old(self).wf(),
        ensures
            final(self).wf(),
            final(self)@ == old(self)@.greeted(hello@, attempt, now),
            line_wf(r),
            line_of(r) == old(self)@.left_unstarted(attempt),
            line_of(r) == if old(self)@.started || attempt.spawned {
                None
            } else {
                old(self)@.farewell(Some(Refusal::ShellFailed))
            },
    {
        self.win = hello.win;
        self.applied_win = None;
        assert(self@ =~= old(self)@.resized(hello@));
        if !self.started {
            let left: Option<Line> = self.start_session(hello, attempt, now);
            if !self.started {
                return left;
            }
        }
        let base: u64 = self.ring.base();
        let end: u64 = self.ring.end();
        let resume_from: u64 = if hello.out_offset == RESUME_FROM_START || hello.out_offset < base {
            base
        } else if hello.out_offset > end {
            end
        } else {
            hello.out_offset
        };
        let ok = HelloOk { resume_from, in_applied: self.in_applied, agent: self.agent.is_some() };
        let gap: bool = ok.gap(hello.out_offset);
        let ghost before = self@;
        if let Some(client) = &mut self.client {
            client.sent_through = resume_from;
            client.repaint_ctrl_l = hello.repaint_ctrl_l;
            client.repaint_due = gap;
        }
        self.tell_client(&Frame::HelloOk(ok));
        assert(self@ =~= before.welcomed(hello@));
        None
    }

    /// The first step of settling a greeting.
    pub fn first_settling(&self) -> (r: Settling)
        ensures
            r == self@.settles_first(),
    {
        if self.client.is_some() {
            Settling::Drain
        } else {
            Settling::HandOver
        }
    }

    /// The step behind `done`, `handed` saying whether the session was handed over.
    pub fn next_settling(&self, done: Settling, handed: bool) -> (r: Settling)
        ensures
            r == self@.settles_next(done, handed),
    {
        match done {
            Settling::Drain => Settling::HandOver,
            Settling::HandOver => if !handed {
                Settling::Settled
            } else if self.started {
                Settling::Welcome
            } else {
                Settling::Start
            },
            Settling::Start => Settling::Welcome,
            Settling::Welcome => Settling::ReadOn,
            Settling::ReadOn | Settling::Settled => Settling::Settled,
        }
    }
}

/// The last words of whoever holds the session are decoded before it is handed over, so
/// input already delivered is not lost with the connection it came over; only a greeting
/// that was handed the session is answered; what was sent right behind it is decoded only
/// once it was answered; and every settlement ends.
pub proof fn the_last_words_come_before_the_hand_over(
    s: SessionModel,
    done: Settling,
    handed: bool,
)
    ensures
        s.client is Some ==> s.settles_first() == Settling::Drain,
        s.settles_next(done, handed) == Settling::HandOver ==> done == Settling::Drain,
        s.settles_next(Settling::Drain, handed) == Settling::HandOver,
        s.settles_next(Settling::HandOver, false) == Settling::Settled,
        s.settles_next(done, handed) == Settling::ReadOn ==> done == Settling::Welcome,
        s.settles_next(done, handed) == Settling::Start ==> !s.started,
        s.settles_next(Settling::HandOver, true) == if s.started {
            Settling::Welcome
        } else {
            Settling::Start
        },
        s.settles_next(Settling::Start, handed) == Settling::Welcome,
        s.settles_next(Settling::Welcome, handed) == Settling::ReadOn,
        s.settles_next(Settling::ReadOn, handed) == Settling::Settled,
        s.client is None ==> s.settles_first() == Settling::HandOver,
        done != Settling::Settled ==> done.place() < s.settles_next(done, handed).place(),
{
}

} // verus!
