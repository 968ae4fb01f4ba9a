//! One pass of the loop: what is done, in which order, and what the sockets and the agent
//! connection do to the session.
use vstd::prelude::*;

use crate::agent::{after, later, Accept, AgentModel, Arrival, Flush};
use crate::conn::{agent_chunks, Received, Step, Written};
use crate::line::{Line, LineModel};
use crate::nbio::{Errno, ReadOutcome};
use crate::rev11::{Frame, FrameModel};
use crate::session::{
    line_of, line_wf, AttachedModel, Session, SessionModel, StopReason, ABANDON_PENDING_WRITE,
    ACCEPT_BACKOFF,
};

verus! {

/// What the poll reported of one descriptor, flag by flag.
#[derive(Debug, Clone, Copy, PartialEq, Eq, Structural)]
pub struct Reported {
    /// `POLLIN`.
    pub input: bool,
    /// `POLLOUT`.
    pub output: bool,
    /// `POLLERR`.
    pub error: bool,
    /// `POLLHUP`.
    pub hang_up: bool,
    /// `POLLNVAL`.
    pub invalid: bool,
}

impl Reported {
    /// Whether there is something to service: a source reporting nothing but an error would
    /// otherwise stay in the set with nothing servicing it.
    pub open spec fn serviceable(self) -> bool {
        self.input || self.hang_up || self.error || self.invalid
    }

    /// Whether there is something to service.
    pub fn readable(self) -> (r: bool)
        ensures
            r == self.serviceable(),
    {
        self.input || self.hang_up || self.error || self.invalid
    }
}

/// What the poll reported, source by source.
#[derive(Debug, Clone, Copy, PartialEq, Eq, Structural)]
pub struct Ready {
    /// A stop signal arrived.
    pub stop: bool,
    /// A `SIGCHLD` arrived.
    pub child: bool,
    /// The terminal can be read.
    pub terminal: bool,
    /// The client can be read.
    pub client: bool,
    /// The client's socket reports a hang-up or an error.
    pub client_hung_up: bool,
    /// The connection that has not greeted can be read.
    pub pending: bool,
    /// The session socket can be read.
    pub listener: bool,
    /// The agent connection has anything to service.
    pub agent_channel: bool,
    /// The agent socket can be read.
    pub agent_listener: bool,
}

impl Ready {
    /// What a pass goes by, source by source.
    pub open spec fn from_poll(
        stop: Reported,
        child: Reported,
        terminal: Reported,
        client: Reported,
        pending: Reported,
        listener: Reported,
        agent_channel: Reported,
        agent_listener: Reported,
    ) -> Ready {
        Ready {
            stop: stop.serviceable(),
            child: child.serviceable(),
            terminal: terminal.serviceable(),
            client: client.serviceable(),
            client_hung_up: client.hang_up || client.error,
            pending: pending.serviceable(),
            listener: listener.serviceable(),
            agent_channel: agent_channel.serviceable() || agent_channel.output,
            agent_listener: agent_listener.serviceable(),
        }
    }

    /// What a pass goes by, from what the poll reported of each source; a source that was
    /// not asked about reported nothing.
    pub fn of(
        stop: Reported,
        child: Reported,
        terminal: Reported,
        client: Reported,
        pending: Reported,
        listener: Reported,
        agent_channel: Reported,
        agent_listener: Reported,
    ) -> (r: Ready)
        ensures
            r == Ready::from_poll(
                stop,
                child,
                terminal,
                client,
                pending,
                listener,
                agent_channel,
                agent_listener,
            ),
            r == (Ready {
                stop: stop.serviceable(),
                child: child.serviceable(),
                terminal: terminal.serviceable(),
                client: client.serviceable(),
                client_hung_up: client.hang_up || client.error,
                pending: pending.serviceable(),
                listener: listener.serviceable(),
                agent_channel: agent_channel.serviceable() || agent_channel.output,
                agent_listener: agent_listener.serviceable(),
            }),
    {
        Ready {
            stop: stop.readable(),
            child: child.readable(),
            terminal: terminal.readable(),
            client: client.readable(),
            client_hung_up: client.hang_up || client.error,
            pending: pending.readable(),
            listener: listener.readable(),
            agent_channel: agent_channel.readable() || agent_channel.output,
            agent_listener: agent_listener.readable(),
        }
    }
}

/// What a pass may have to do.
#[derive(Debug, Clone, Copy, PartialEq, Eq, Structural)]
pub enum Task {
    /// Read the terminal.
    ReadTerminal,
    /// Read the client and serve what it said.
    ReadClient,
    /// Let the client go.
    DropClient,
    /// Read the connection that has not greeted, and settle its greeting.
    ReadPending,
    /// Take a connection off the session socket.
    Accept,
    /// Move bytes for the agent connection.
    ServiceAgent,
    /// Take a connection off the agent socket.
    AcceptAgent,
    /// Give the terminal the size the client asked for.
    ApplyWin,
    /// Write the input queue.
    WriteTerminal,
    /// Serve what that write made room for.
    ReadBacklog,
    /// Ask after the child.
    CollectOutcome,
    /// Queue what the client is owed.
    PumpOutput,
    /// Write the client's queue.
    WriteClient,
}

impl Task {
    /// Everything a pass may have to do, in the order it does it. The client is heard
    /// before a greeting is: one poll can report both, and the eviction would end a
    /// connection whose last input nobody resends. The outcome is collected right before
    /// the pump that turns it into a frame.
    pub const ALL: [Task; 13] = [
        Task::ReadTerminal,
        Task::ReadClient,
        Task::DropClient,
        Task::ReadPending,
        Task::Accept,
        Task::ServiceAgent,
        Task::AcceptAgent,
        Task::ApplyWin,
        Task::WriteTerminal,
        Task::ReadBacklog,
        Task::CollectOutcome,
        Task::PumpOutput,
        Task::WriteClient,
    ];
}

impl SessionModel {
    /// With the signals that arrived noted. A reason already recorded stays.
    pub open spec fn noticed(self, ready: Ready) -> SessionModel {
        SessionModel {
            stop: if ready.stop && self.stop is None {
                Some(StopReason::Signalled)
            } else {
                self.stop
            },
            child_signalled: self.child_signalled || ready.child,
            ..self
        }
    }

    /// Whether input waits to be decoded and there is room for it.
    pub open spec fn has_backlog(self) -> bool {
        !self.saturated() && self.undecoded() > 0
    }

    /// Whether a pass that found `ready` has `task` to do.
    pub open spec fn wants(self, task: Task, ready: Ready) -> bool {
        match task {
            Task::ReadTerminal => ready.terminal,
            Task::ReadClient => ready.client || self.has_backlog(),
            Task::DropClient => ready.client_hung_up && self.client is Some,
            Task::ReadPending => self.stop is None && ready.pending,
            Task::Accept => self.stop is None && ready.listener,
            Task::ServiceAgent => ready.agent_channel,
            Task::AcceptAgent => self.stop is None && ready.agent_listener,
            Task::ReadBacklog => self.has_backlog(),
            Task::ApplyWin | Task::WriteTerminal | Task::CollectOutcome | Task::PumpOutput
            | Task::WriteClient => true,
        }
    }

    /// The next thing to do at or behind place `from`, and the place behind it.
    pub open spec fn next(self, from: nat, ready: Ready) -> Option<(Task, nat)>
        decreases 13 - from,
    {
        if from >= 13 {
            None
        } else if self.wants(Task::ALL@[from as int], ready) {
            Some((Task::ALL@[from as int], from + 1))
        } else {
            self.next(from + 1, ready)
        }
    }

    /// Whether the client has reached one of its three quiet endings: its socket failed, it
    /// has let more pile up than a client that reads ever does, or it has closed its own
    /// half and holds everything down to the end of the transcript.
    pub open spec fn client_finished(self, step: Step) -> bool {
        self.client matches Some(client) && {
            ||| step == Step::Failed
            ||| step == Step::WriteZero
            ||| client.line.outgoing.len() >= ABANDON_PENDING_WRITE
            ||| client.terminal_end_sent && client.line.ended && client.line.outgoing.len() == 0
        }
    }

    /// After one read of the client's socket, whether to read on, and the connection that
    /// leaves where the socket failed.
    pub open spec fn client_filled(self, got: Received<'_>, now: u64) -> (
        SessionModel,
        Step,
        Option<LineModel>,
    ) {
        match self.client {
            None => (self, Step::Done, None),
            Some(client) => if client.line.fill_step(got) == Step::Failed {
                (self.dropped(now), Step::Failed, Some(client.line))
            } else {
                (
                    SessionModel {
                        client: Some(AttachedModel { line: client.line.filled(got), ..client }),
                        ..self
                    },
                    client.line.fill_step(got),
                    None,
                )
            },
        }
    }

    /// After one write of the client's queue, and whether to write on.
    pub open spec fn client_flushed(self, took: Written) -> (SessionModel, Step) {
        match self.client {
            None => (self, Step::Done),
            Some(client) => (
                SessionModel {
                    client: Some(AttachedModel { line: client.line.flushed(took), ..client }),
                    ..self
                },
                client.line.flush_step(took),
            ),
        }
    }

    /// After a pass over the client's queue, and the connection that leaves where the client
    /// is finished.
    pub open spec fn client_written(self, step: Step, now: u64) -> (
        SessionModel,
        Option<LineModel>,
    ) {
        if self.client_finished(step) {
            (self.dropped(now), self.farewell(None))
        } else {
            (self, None)
        }
    }

    /// After the close of an agent connection.
    pub open spec fn agent_close_finished(
        self,
        result: Result<usize, Errno>,
        now: u64,
    ) -> SessionModel {
        SessionModel {
            agent: match self.agent {
                None => None,
                Some(agent) => Some(
                    if agent.flush_outcome(result) == Flush::Open {
                        agent.flushed(result, now)
                    } else {
                        agent.forgotten()
                    },
                ),
            },
            ..self
        }
    }

    /// After the session ended, and the connection that is owed what is queued.
    pub open spec fn shut_down(self, now: u64) -> (SessionModel, Option<LineModel>) {
        (
            SessionModel { pending: None, started: false, ..self.dropped(now) },
            self.farewell(None),
        )
    }

    /// After one answer of the agent socket.
    pub open spec fn agent_knocked(self, arrival: Arrival, now: u64) -> SessionModel {
        match self.agent {
            None => self,
            Some(agent) => {
                let serving = self.client is Some;
                let next = SessionModel {
                    agent: Some(agent.accepted(arrival, serving, now)),
                    ..self
                };
                if agent.serves(arrival, serving) {
                    next.told(FrameModel::AgentOpen { generation: agent.next_generation })
                } else if agent.channel is None && arrival == Arrival::Failed {
                    SessionModel { agent_accept_retry: Some(later(now, ACCEPT_BACKOFF)), ..next }
                } else {
                    next
                }
            },
        }
    }

    /// After one write of the agent connection's queue.
    pub open spec fn agent_flushed(self, result: Result<usize, Errno>, now: u64) -> SessionModel {
        match self.agent {
            None => self,
            Some(agent) => {
                let next = SessionModel { agent: Some(agent.flushed(result, now)), ..self };
                match agent.flush_outcome(result) {
                    Flush::Open => next,
                    Flush::Finished => SessionModel {
                        agent: Some(agent.flushed(result, now).forgotten()),
                        ..self
                    },
                    Flush::Failed => next.agent_closed(),
                }
            },
        }
    }

    /// After one read of the agent connection, `buf` holding what arrived: it goes to the
    /// client as it came, and an end closes the connection.
    pub open spec fn agent_read(self, outcome: ReadOutcome, buf: Seq<u8>, now: u64) -> SessionModel {
        match self.agent {
            None => self,
            Some(agent) => match agent.channel {
                None => self.agent_closed(),
                Some(channel) => if channel.closing {
                    self
                } else {
                    match outcome {
                        ReadOutcome::Data(n) => SessionModel {
                            agent: Some(
                                AgentModel {
                                    channel: Some(
                                        crate::agent::ChannelModel {
                                            idle_deadline: later(
                                                now,
                                                crate::agent::AGENT_IDLE_TIMEOUT,
                                            ),
                                            ..channel
                                        },
                                    ),
                                    ..agent
                                },
                            ),
                            client: match self.client {
                                Some(client) => Some(
                                    AttachedModel {
                                        line: client.line.said_all(
                                            agent_chunks(channel.generation, buf.take(n as int)),
                                        ),
                                        ..client
                                    },
                                ),
                                None => None,
                            },
                            ..self
                        },
                        ReadOutcome::Eof | ReadOutcome::Failed(_) => self.agent_closed(),
                        ReadOutcome::WouldBlock => self,
                    }
                },
            },
        }
    }
}

impl Session {
    /// Notes the signals a pass found.
    pub fn notice(&mut self, ready: &Ready)
        requires
            old(self).wf(),
        ensures
            final(self).wf(),
            final(self)@ == old(self)@.noticed(*ready),
    {
        if ready.stop && self.stop.is_none() {
            self.stop = Some(StopReason::Signalled);
        }
        if ready.child {
            self.child_signalled = true;
        }
        assert(self@ =~= old(self)@.noticed(*ready));
    }

    /// Whether a pass that found `ready` has `task` to do, as the session now stands.
    ///
    /// Nothing arriving can be served once the session is ending: a takeover would spend a
    /// final flush on a client about to be dropped anyway, and an agent connection would
    /// open and never close.
    fn wants(&self, task: Task, ready: &Ready) -> (r: bool)
        requires
            self.wf(),
        ensures
            r == self@.wants(task, *ready),
    {
        match task {
            Task::ReadTerminal => ready.terminal,
            Task::ReadClient => ready.client || self.input_backlog(),
            Task::DropClient => ready.client_hung_up && self.client.is_some(),
            Task::ReadPending => self.stop.is_none() && ready.pending,
            Task::Accept => self.stop.is_none() && ready.listener,
            Task::ServiceAgent => ready.agent_channel,
            Task::AcceptAgent => self.stop.is_none() && ready.agent_listener,
            Task::ReadBacklog => self.input_backlog(),
            Task::ApplyWin | Task::WriteTerminal | Task::CollectOutcome | Task::PumpOutput
            | Task::WriteClient => true,
        }
    }

    /// The next thing a pass has to do at or behind place `from` of [`Task::ALL`], and the
    /// place to go on from once it is done; nothing once the pass is over. Asked anew after
    /// each, because what was done decides what is left to do.
    pub fn poll_once(&self, from: usize, ready: &Ready) -> (r: Option<(Task, usize)>)
        requires
            self.wf(),
        ensures
            match (r, self@.next(from as nat, *ready)) {
                (Some((task, place)), Some((due, behind))) => task == due && place == behind,
                (None, None) => true,
                _ => false,
            },
    {
        let all: [Task; 13] = Task::ALL;
        let mut place: usize = from;
        while place < 13
            invariant
                self.wf(),
                all@ == Task::ALL@,
                self@.next(place as nat, *ready) == self@.next(from as nat, *ready),
            decreases 13 - place,
        {
            let task: Task = all[place];
            if self.wants(task, ready) {
                return Some((task, place + 1));
            }
            place += 1;
        }
        None
    }

    /// Takes in one read of the client's socket; a connection that failed is handed back,
    /// let go. A connection failing is never the session's failure.
    pub fn fill_client(&mut self, got: Received<'_>, now: u64) -> (r: (Step, Option<Line>))
        requires
            old(self).wf(),
        ensures
            final(self).wf(),
            (final(self)@, r.0, line_of(r.1)) == old(self)@.client_filled(got, now),
            line_wf(r.1),
            match old(self)@.client {
                None => r.0 == Step::Done && r.1 is None && final(self)@ == old(self)@,
                Some(client) => {
                    &&& r.0 == client.line.fill_step(got)
                    &&& if r.0 == Step::Failed {
                        &&& final(self)@ == old(self)@.dropped(now)
                        &&& line_of(r.1) == Some(client.line)
                    } else {
                        &&& r.1 is None
                        &&& final(self)@ == (SessionModel {
                            client: Some(
                                AttachedModel { line: client.line.filled(got), ..client },
                            ),
                            ..old(self)@
                        })
                    }
                },
            },
    {
        let step: Step = match &mut self.client {
            None => {
                return (Step::Done, None);
            },
            Some(client) => client.line.fill(got),
        };
        proof {
            let client = old(self)@.client->0;
            assert(self@ =~= (SessionModel {
                client: Some(AttachedModel { line: client.line.filled(got), ..client }),
                ..old(self)@
            }));
        }
        if let Step::Failed = step {
            assert(self@ =~= old(self)@);
            return (step, self.drop_client(now));
        }
        (step, None)
    }

    /// Takes out of the client's queue what one write of it took.
    pub fn flush_client(&mut self, took: Written) -> (r: Step)
        requires
            old(self).wf(),
            old(self)@.client matches Some(client) ==> (took matches Written::Took(n) ==> n
                <= client.line.outgoing.len()),
        ensures
            final(self).wf(),
            (final(self)@, r) == old(self)@.client_flushed(took),
            r == Step::Done ==> (final(self).client matches Some(client)
                ==> client.line.is_compacted()),
            match old(self)@.client {
                None => r == Step::Done && final(self)@ == old(self)@,
                Some(client) => {
                    &&& r == client.line.flush_step(took)
                    &&& final(self)@ == (SessionModel {
                        client: Some(AttachedModel { line: client.line.flushed(took), ..client }),
                        ..old(self)@
                    })
                },
            },
    {
        let step: Step = match &mut self.client {
            None => Step::Done,
            Some(client) => client.line.flush_some(took),
        };
        proof {
            if old(self)@.client is Some {
                let client = old(self)@.client->0;
                assert(self@ =~= (SessionModel {
                    client: Some(AttachedModel { line: client.line.flushed(took), ..client }),
                    ..old(self)@
                }));
            }
        }
        step
    }

    /// Ends a pass over the client's queue, `step` being what writing it came to last, and
    /// hands the connection back where the client is finished.
    pub fn write_client(&mut self, step: Step, now: u64) -> (r: Option<Line>)
        requires
            old(self).wf(),
        ensures
            final(self).wf(),
            line_wf(r),
            (final(self)@, line_of(r)) == old(self)@.client_written(step, now),
            if old(self)@.client_finished(step) {
                &&& final(self)@ == old(self)@.dropped(now)
                &&& line_of(r) == old(self)@.farewell(None)
            } else {
                &&& final(self)@ == old(self)@
                &&& r is None
            },
    {
        let finished: bool = match &self.client {
            None => false,
            Some(client) => {
                let failed: bool = match step {
                    Step::Failed | Step::WriteZero => true,
                    _ => false,
                };
                let queued: usize = client.line.queued();
                failed || queued >= ABANDON_PENDING_WRITE || (client.terminal_end_sent
                    && client.line.is_eof() && queued == 0)
            },
        };
        if finished {
            self.drop_client(now)
        } else {
            None
        }
    }

    /// Takes one answer of the agent socket, and announces the connection to the client
    /// where it is served.
    pub fn accept_agent(&mut self, arrival: Arrival, now: u64) -> (r: Accept)
        requires
            old(self).wf(),
        ensures
            final(self).wf(),
            final(self)@ == old(self)@.agent_knocked(arrival, now),
            r == match old(self)@.agent {
                None => Accept::Idle,
                Some(agent) => if agent.serves(arrival, old(self)@.client is Some) {
                    Accept::Opened(agent.next_generation)
                } else if agent.channel is None && arrival == Arrival::Failed {
                    Accept::Failed
                } else {
                    Accept::Idle
                },
            },
    {
        let serving: bool = self.client.is_some();
        let came: Accept = match &mut self.agent {
            None => Accept::Idle,
            Some(agent) => agent.accept(arrival, serving, now),
        };
        match came {
            Accept::Opened(generation) => {
                self.tell_client(&Frame::AgentOpen { generation });
            },
            Accept::Failed => {
                self.agent_accept_retry = Some(after(now, ACCEPT_BACKOFF));
            },
            Accept::Idle => {},
        }
        assert(self@ =~= old(self)@.agent_knocked(arrival, now));
        came
    }

    /// Takes out of the agent connection's queue what one write of it took, and says
    /// whether the connection is still there to be read.
    pub fn flush_agent(&mut self, result: Result<usize, Errno>, now: u64) -> (r: bool)
        requires
            old(self).wf(),
        ensures
            final(self).wf(),
            final(self)@ == old(self)@.agent_flushed(result, now),
            r == (old(self)@.agent matches Some(agent) && agent.flush_outcome(result)
                == Flush::Open),
    {
        let came: Flush = match &mut self.agent {
            None => {
                return false;
            },
            Some(agent) => {
                let came: Flush = agent.flush(result, now);
                if let Flush::Finished = came {
                    let _ = agent.forget();
                }
                came
            },
        };
        match came {
            Flush::Open => {
                assert(self@ =~= old(self)@.agent_flushed(result, now));
                true
            },
            Flush::Finished => {
                assert(self@ =~= old(self)@.agent_flushed(result, now));
                false
            },
            Flush::Failed => {
                assert(self@ =~= (SessionModel {
                    agent: Some(old(self)@.agent->0.flushed(result, now)),
                    ..old(self)@
                }));
                self.close_agent_channel();
                false
            },
        }
    }

    /// Takes in one read of the agent connection, `buf` holding what arrived.
    pub fn read_agent(&mut self, outcome: ReadOutcome, buf: &[u8], now: u64)
        requires
            old(self).wf(),
            outcome matches ReadOutcome::Data(n) ==> n <= buf@.len(),
        ensures
            final(self).wf(),
            final(self)@ == old(self)@.agent_read(outcome, buf@, now),
    {
        let (generation, came): (Option<u32>, ReadOutcome) = match &mut self.agent {
            None => {
                return;
            },
            Some(agent) => (agent.generation(), agent.read(outcome, now)),
        };
        match came {
            ReadOutcome::Data(n) => {
                let data: &[u8] = vstd::slice::slice_subrange(buf, 0, n);
                assert(data@ =~= buf@.take(n as int));
                if let Some(generation) = generation {
                    if let Some(client) = &mut self.client {
                        client.line.say_agent_data(generation, data);
                    }
                }
                assert(self@ =~= old(self)@.agent_read(outcome, buf@, now));
            },
            ReadOutcome::Eof | ReadOutcome::Failed(_) => {
                assert(self@ =~= old(self)@);
                self.close_agent_channel();
            },
            ReadOutcome::WouldBlock => {
                assert(self@ =~= old(self)@);
            },
        }
    }

    /// Ends the close of an agent connection with what writing its queue came to: it is
    /// forgotten unless something of it is still to be written.
    pub fn finish_agent_close(&mut self, result: Result<usize, Errno>, now: u64)
        requires
            old(self).wf(),
        ensures
            final(self).wf(),
            final(self)@ == old(self)@.agent_close_finished(result, now),
            final(self)@ == (SessionModel {
                agent: match old(self)@.agent {
                    None => None,
                    Some(agent) => Some(
                        if agent.flush_outcome(result) == Flush::Open {
                            agent.flushed(result, now)
                        } else {
                            agent.forgotten()
                        },
                    ),
                },
                ..old(self)@
            }),
    {
        if let Some(agent) = &mut self.agent {
            agent.finish_close(result, now);
        }
        assert(self@ =~= (SessionModel { agent: self@.agent, ..old(self)@ }));
    }

    /// Ends the session: the client's connection is handed back to be delivered what it is
    /// owed, nothing surviving this to replay it from, and whoever was waiting is forgotten.
    pub fn shutdown(&mut self, now: u64) -> (r: Option<Line>)
        requires
            old(self).wf(),
        ensures
            final(self).wf(),
            (final(self)@, line_of(r)) == old(self)@.shut_down(now),
            final(self)@ == (SessionModel {
                pending: None,
                started: false,
                ..old(self)@.dropped(now)
            }),
            line_of(r) == old(self)@.farewell(None),
            line_wf(r),
    {
        let left: Option<Line> = self.drop_client(now);
        self.pending = None;
        self.started = false;
        assert(self@ =~= (SessionModel {
            pending: None,
            started: false,
            ..old(self)@.dropped(now)
        }));
        left
    }
}

} // verus!
