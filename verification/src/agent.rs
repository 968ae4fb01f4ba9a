//! The daemon half of agent forwarding: one served connection, and the rules by which it
//! is taken, fed and given up.
//!
//! Nothing here parses the `ssh-agent` protocol — the served connection is a byte pipe —
//! and nothing here talks to the client. The socket is the caller's.
use std::collections::VecDeque;

use vstd::prelude::*;

use crate::nbio::{drain_to, drained, drained_by, Drained, Errno, ReadOutcome};
use crate::queue::push_from;

verus! {

/// Most the served connection may hold for a local peer that has stopped reading.
pub const MAX_CHANNEL_QUEUE: usize = 256 * 1024;

/// How long the served connection may move no byte in either direction before the daemon
/// gives it up, in nanoseconds.
pub const AGENT_IDLE_TIMEOUT: u64 = 60_000_000_000;

/// `span` nanoseconds after `at`, as late as the clock can say.
pub open spec fn later(at: u64, span: u64) -> u64 {
    if at + span > u64::MAX {
        u64::MAX
    } else {
        (at + span) as u64
    }
}

/// `span` nanoseconds after `at`, as late as the clock can say.
pub fn after(at: u64, span: u64) -> (r: u64)
    ensures
        r == later(at, span),
{
    at.saturating_add(span)
}

/// What asking the agent socket for a connection came back with.
#[derive(Debug, Clone, Copy, PartialEq, Eq, Structural)]
pub enum Arrival {
    /// A connection, from this user or not, that could be made non-blocking or not.
    Connection {
        /// Whether the peer is this user's.
        ours: bool,
        /// Whether the connection was made non-blocking.
        usable: bool,
    },
    /// Nobody is waiting.
    Nobody,
    /// A signal arrived instead.
    Interrupted,
    /// The `accept` failed for something that will still be there on the next pass.
    Failed,
}

/// Outcome of one attempt to take a connection off the agent socket.
#[derive(Debug, Clone, Copy, PartialEq, Eq, Structural)]
pub enum Accept {
    /// A connection is being served, and the client is owed an `AgentOpen` naming the
    /// generation this minted for it.
    Opened(u32),
    /// Nothing came of this pass: an empty backlog, a connection closed on the spot
    /// because nothing could serve it, or a slot that was already taken.
    Idle,
    /// The listener has to leave the poll set for a while.
    Failed,
}

/// Outcome of one attempt to drain the queue.
#[derive(Debug, Clone, Copy, PartialEq, Eq, Structural)]
pub enum Flush {
    /// Still in use, whether or not anything is left queued.
    Open,
    /// Nothing more will be written: the client closed this connection and the last of
    /// what it sent has reached the waiting process. Forget it *without* telling the
    /// client, which closed it and is not waiting to hear so.
    Finished,
    /// The write failed on a connection the client still holds; the local peer is gone and
    /// the client needs telling.
    Failed,
}

/// The one proxied connection to the agent socket.
#[derive(Debug)]
pub struct Channel {
    /// Which incarnation of the slot this is, echoed by the client on everything it sends
    /// for it.
    generation: u32,
    /// Bytes from the client waiting for the local socket to accept them.
    pending: VecDeque<u8>,
    /// The client closed its end; drop once `pending` has drained.
    closing: bool,
    /// When this connection is given up as stalled.
    idle_deadline: u64,
}

/// The one connection the agent socket is serving.
#[derive(Debug)]
pub struct Agent {
    channel: Option<Channel>,
    /// What the next accepted connection is called.
    next_generation: u32,
}

/// What a [`Channel`] holds.
#[verifier::ext_equal]
pub struct ChannelModel {
    pub generation: u32,
    pub pending: Seq<u8>,
    pub closing: bool,
    pub idle_deadline: u64,
}

/// What an [`Agent`] holds.
#[verifier::ext_equal]
pub struct AgentModel {
    pub channel: Option<ChannelModel>,
    pub next_generation: u32,
}

impl View for Channel {
    type V = ChannelModel;

    closed spec fn view(&self) -> ChannelModel {
        ChannelModel {
            generation: self.generation,
            pending: self.pending@,
            closing: self.closing,
            idle_deadline: self.idle_deadline,
        }
    }
}

impl View for Agent {
    type V = AgentModel;

    closed spec fn view(&self) -> AgentModel {
        AgentModel {
            channel: match self.channel {
                Some(channel) => Some(channel@),
                None => None,
            },
            next_generation: self.next_generation,
        }
    }
}

impl AgentModel {
    /// The queue is within its bound.
    pub open spec fn wf(self) -> bool {
        self.channel matches Some(channel) ==> channel.pending.len() <= MAX_CHANNEL_QUEUE
    }

    /// The served connection's generation.
    pub open spec fn generation(self) -> Option<u32> {
        match self.channel {
            Some(channel) => Some(channel.generation),
            None => None,
        }
    }

    /// With nothing served.
    pub open spec fn forgotten(self) -> AgentModel {
        AgentModel { channel: None, ..self }
    }

    /// Whether bytes the client sends for `generation` have somewhere to go.
    pub open spec fn takes(self, generation: u32) -> bool {
        self.channel matches Some(channel) && channel.generation == generation && !channel.closing
    }

    /// Whether `len` bytes more would take the queue past its bound.
    pub open spec fn overflows(self, generation: u32, len: nat) -> bool {
        self.takes(generation) && self.channel->0.pending.len() + len > MAX_CHANNEL_QUEUE
    }

    /// After the client's bytes for `generation`: queued where the connection they name is
    /// being served and has room, and dropped everywhere else.
    pub open spec fn delivered(self, generation: u32, data: Seq<u8>) -> AgentModel {
        if self.takes(generation) && !self.overflows(generation, data.len()) {
            AgentModel {
                channel: Some(
                    ChannelModel { pending: self.channel->0.pending + data, ..self.channel->0 },
                ),
                ..self
            }
        } else {
            self
        }
    }

    /// After one write of the queue at `now`: what it took is gone, and a byte that moved
    /// pushes the idle deadline out.
    pub open spec fn flushed(self, result: Result<usize, Errno>, now: u64) -> AgentModel {
        match self.channel {
            None => self,
            Some(channel) => {
                let n = drained_by(channel.pending.len(), result);
                AgentModel {
                    channel: Some(
                        ChannelModel {
                            pending: channel.pending.skip(n as int),
                            idle_deadline: if n > 0 {
                                later(now, AGENT_IDLE_TIMEOUT)
                            } else {
                                channel.idle_deadline
                            },
                            ..channel
                        },
                    ),
                    ..self
                }
            },
        }
    }

    /// What one write of the queue leaves the connection as.
    pub open spec fn flush_outcome(self, result: Result<usize, Errno>) -> Flush {
        match self.channel {
            None => Flush::Finished,
            Some(channel) => {
                let n = drained_by(channel.pending.len(), result);
                let drain = drained(channel.pending.len(), result);
                let failed = drain is WriteZero || drain is Failed;
                if channel.closing {
                    if failed || channel.pending.len() == n {
                        Flush::Finished
                    } else {
                        Flush::Open
                    }
                } else if failed {
                    Flush::Failed
                } else {
                    Flush::Open
                }
            },
        }
    }

    /// After the client closed `generation`: nothing where it named a connection that is
    /// no longer served.
    pub open spec fn closed_by_client(self, generation: u32) -> AgentModel {
        if self.channel matches Some(channel) && channel.generation == generation {
            AgentModel {
                channel: Some(ChannelModel { closing: true, ..self.channel->0 }),
                ..self
            }
        } else {
            self
        }
    }

    /// Whether the served connection has moved no byte for too long at `now`.
    pub open spec fn is_stalled(self, now: u64) -> bool {
        self.channel matches Some(channel) && now >= channel.idle_deadline
    }

    /// Whether a connection that arrives now is served: the slot is free, a client is
    /// attached, and the peer is this user's and usable.
    pub open spec fn serves(self, arrival: Arrival, serving: bool) -> bool {
        &&& self.channel is None
        &&& serving
        &&& arrival == (Arrival::Connection { ours: true, usable: true })
    }

    /// After one answer of the agent socket at `now`.
    pub open spec fn accepted(self, arrival: Arrival, serving: bool, now: u64) -> AgentModel {
        if self.serves(arrival, serving) {
            AgentModel {
                channel: Some(
                    ChannelModel {
                        generation: self.next_generation,
                        pending: Seq::empty(),
                        closing: false,
                        idle_deadline: later(now, AGENT_IDLE_TIMEOUT),
                    },
                ),
                next_generation: if self.next_generation == u32::MAX {
                    0
                } else {
                    (self.next_generation + 1) as u32
                },
            }
        } else {
            self
        }
    }
}

impl Agent {
    /// An agent socket serving nobody.
    pub fn new() -> (r: Agent)
        ensures
            r@ == (AgentModel { channel: None, next_generation: 0 }),
            r@.wf(),
    {
        Agent { channel: None, next_generation: 0 }
    }

    /// Whether a connection is being served, and so whether the listener has a slot.
    pub fn is_serving(&self) -> (r: bool)
        ensures
            r == (self@.channel is Some),
    {
        self.channel.is_some()
    }

    /// The served connection's generation, for the frames the daemon sends about it.
    pub fn generation(&self) -> (r: Option<u32>)
        ensures
            r == self@.generation(),
    {
        match &self.channel {
            Some(channel) => Some(channel.generation),
            None => None,
        }
    }

    /// The served connection as `(wants_write, wants_read)`, for the poll set.
    ///
    /// A closing connection asks for no reads: nothing it could still send has anywhere to
    /// go, and its shut-down read half would report itself readable on every pass for ever.
    pub fn watch(&self) -> (r: Option<(bool, bool)>)
        ensures
            r == match self@.channel {
                Some(channel) => Some((channel.pending.len() > 0, !channel.closing)),
                None => None,
            },
    {
        match &self.channel {
            Some(channel) => Some((channel.pending.len() > 0, !channel.closing)),
            None => None,
        }
    }

    /// When the served connection falls due for [`Agent::close_if_idle`].
    pub fn deadline(&self) -> (r: Option<u64>)
        ensures
            r == match self@.channel {
                Some(channel) => Some(channel.idle_deadline),
                None => None,
            },
    {
        match &self.channel {
            Some(channel) => Some(channel.idle_deadline),
            None => None,
        }
    }

    /// The queue in front of the local socket, in two parts.
    pub fn queue(&self) -> (r: (&[u8], &[u8]))
        ensures
            r.0@ + r.1@ == match self@.channel {
                Some(channel) => channel.pending,
                None => Seq::empty(),
            },
    {
        match &self.channel {
            Some(channel) => crate::queue::halves(&channel.pending),
            None => {
                let none: &[u8] = &[];
                assert(none@ + none@ =~= Seq::<u8>::empty());
                (none, none)
            },
        }
    }

    /// Gives the served connection up if it has moved no byte in either direction for
    /// [`AGENT_IDLE_TIMEOUT`], naming it where the client is owed an `AgentClose` for it:
    /// a connection the client closed itself is one it has already forgotten.
    pub fn close_if_idle(&mut self, now: u64) -> (r: Option<u32>)
        ensures
            final(self)@ == if old(self)@.is_stalled(now) {
                old(self)@.forgotten()
            } else {
                old(self)@
            },
            r == if old(self)@.is_stalled(now) && !old(self)@.channel->0.closing {
                Some(old(self)@.channel->0.generation)
            } else {
                None
            },
    {
        let owed: Option<u32> = match &self.channel {
            None => {
                return None;
            },
            Some(channel) => {
                if now < channel.idle_deadline {
                    return None;
                }
                if channel.closing {
                    None
                } else {
                    Some(channel.generation)
                }
            },
        };
        self.channel = None;
        owed
    }

    /// Takes one answer of the agent socket, if the slot is free.
    ///
    /// `serving` is whether a client is attached and greeted; when it is not, the
    /// connection is dropped on the spot. One at a time, and a second connection is left
    /// where it is rather than turned away.
    pub fn accept(&mut self, arrival: Arrival, serving: bool, now: u64) -> (r: Accept)
        requires
            old(self)@.wf(),
        ensures
            final(self)@.wf(),
            final(self)@ == old(self)@.accepted(arrival, serving, now),
            r == if old(self)@.serves(arrival, serving) {
                Accept::Opened(old(self)@.next_generation)
            } else if old(self)@.channel is None && arrival == Arrival::Failed {
                Accept::Failed
            } else {
                Accept::Idle
            },
    {
        if self.is_serving() {
            return Accept::Idle;
        }
        match arrival {
            Arrival::Nobody | Arrival::Interrupted => Accept::Idle,
            Arrival::Failed => Accept::Failed,
            Arrival::Connection { ours, usable } => {
                if !ours || !serving || !usable {
                    return Accept::Idle;
                }
                let generation: u32 = self.next_generation;
                // Wrapping rather than saturating: a generation that stuck at the top
                // would name every later connection the same thing.
                self.next_generation = if generation == u32::MAX {
                    0
                } else {
                    generation + 1
                };
                self.channel = Some(
                    Channel {
                        generation,
                        pending: VecDeque::new(),
                        closing: false,
                        idle_deadline: after(now, AGENT_IDLE_TIMEOUT),
                    },
                );
                Accept::Opened(generation)
            },
        }
    }

    /// What a read of the served connection amounts to: nothing is read from a connection
    /// the client has closed, and bytes that arrived push its idle deadline out.
    pub fn read(&mut self, outcome: ReadOutcome, now: u64) -> (r: ReadOutcome)
        requires
            old(self)@.wf(),
        ensures
            final(self)@.wf(),
            r == match old(self)@.channel {
                None => ReadOutcome::Eof,
                Some(channel) => if channel.closing {
                    ReadOutcome::WouldBlock
                } else {
                    outcome
                },
            },
            final(self)@ == if old(self)@.channel is Some && !old(self)@.channel->0.closing
                && outcome is Data {
                AgentModel {
                    channel: Some(
                        ChannelModel {
                            idle_deadline: later(now, AGENT_IDLE_TIMEOUT),
                            ..old(self)@.channel->0
                        },
                    ),
                    ..old(self)@
                }
            } else {
                old(self)@
            },
    {
        match &mut self.channel {
            None => ReadOutcome::Eof,
            Some(channel) => {
                if channel.closing {
                    return ReadOutcome::WouldBlock;
                }
                if let ReadOutcome::Data(_) = outcome {
                    channel.idle_deadline = after(now, AGENT_IDLE_TIMEOUT);
                }
                outcome
            },
        }
    }

    /// Queues bytes from the client for the served connection's socket.
    ///
    /// Bytes naming a connection this is no longer serving or is already closing are
    /// dropped silently: they were in flight when it closed. Returns `false` if the data
    /// would take the queue past [`MAX_CHANNEL_QUEUE`], which means the caller should close
    /// the connection; tested before the bytes are taken rather than after.
    pub fn deliver(&mut self, generation: u32, data: &[u8]) -> (r: bool)
        requires
            old(self)@.wf(),
        ensures
            final(self)@.wf(),
            r == !old(self)@.overflows(generation, data@.len()),
            final(self)@ == old(self)@.delivered(generation, data@),
    {
        match &mut self.channel {
            None => true,
            Some(channel) => {
                if channel.generation != generation || channel.closing {
                    return true;
                }
                if data.len() > MAX_CHANNEL_QUEUE - channel.pending.len() {
                    return false;
                }
                push_from(&mut channel.pending, data, 0);
                assert(data@.skip(0) =~= data@);
                true
            },
        }
    }

    /// Takes out of the queue what one write of it took.
    pub fn flush(&mut self, result: Result<usize, Errno>, now: u64) -> (r: Flush)
        requires
            old(self)@.wf(),
        ensures
            final(self)@.wf(),
            r == old(self)@.flush_outcome(result),
            final(self)@ == old(self)@.flushed(result, now),
    {
        match &mut self.channel {
            None => Flush::Finished,
            Some(channel) => {
                let before: usize = channel.pending.len();
                let failed: bool = match drain_to(&mut channel.pending, result) {
                    Drained::WriteZero => true,
                    Drained::Failed(_) => true,
                    _ => false,
                };
                if channel.pending.len() != before {
                    channel.idle_deadline = after(now, AGENT_IDLE_TIMEOUT);
                }
                if channel.closing {
                    if failed || channel.pending.len() == 0 {
                        Flush::Finished
                    } else {
                        Flush::Open
                    }
                } else if failed {
                    Flush::Failed
                } else {
                    Flush::Open
                }
            },
        }
    }

    /// Marks the served connection closed by the client, and says whether there was one of
    /// that name: the caller then shuts down its read side, writes the queue once and hands
    /// the result to [`Agent::finish_close`], so a reply the client has already sent still
    /// reaches the waiting process.
    pub fn close_from_client(&mut self, generation: u32) -> (r: bool)
        requires
            old(self)@.wf(),
        ensures
            final(self)@.wf(),
            r == (old(self)@.generation() == Some(generation)),
            final(self)@ == old(self)@.closed_by_client(generation),
    {
        match &mut self.channel {
            None => false,
            Some(channel) => {
                if channel.generation != generation {
                    return false;
                }
                channel.closing = true;
                true
            },
        }
    }

    /// Ends a close with what writing the queue came to: the connection is forgotten unless
    /// something of it is still to be written.
    pub fn finish_close(&mut self, result: Result<usize, Errno>, now: u64)
        requires
            old(self)@.wf(),
        ensures
            final(self)@.wf(),
            final(self)@ == if old(self)@.flush_outcome(result) == Flush::Open {
                old(self)@.flushed(result, now)
            } else {
                old(self)@.forgotten()
            },
    {
        match self.flush(result, now) {
            Flush::Open => {},
            _ => {
                let _ = self.forget();
            },
        }
    }

    /// Drops the served connection. Returns its generation if there was one.
    pub fn forget(&mut self) -> (r: Option<u32>)
        ensures
            r == old(self)@.generation(),
            final(self)@ == old(self)@.forgotten(),
    {
        let named: Option<u32> = self.generation();
        self.channel = None;
        named
    }
}

// ---------------------------------------------------------------------------
// Laws
// ---------------------------------------------------------------------------

/// What the client sent for a connection that has ended never reaches the one that took its
/// place, nor closes it: the successor has another name.
pub proof fn late_bytes_never_reach_a_successor(
    agent: AgentModel,
    first: Arrival,
    second: Arrival,
    opened: u64,
    reopened: u64,
    data: Seq<u8>,
)
    requires
        agent.serves(first, true),
        agent.accepted(first, true, opened).forgotten().serves(second, true),
    ensures
        ({
            let late = agent.accepted(first, true, opened).generation()->0;
            let successor = agent.accepted(first, true, opened).forgotten().accepted(
                second,
                true,
                reopened,
            );
            &&& successor.generation() != Some(late)
            &&& successor.delivered(late, data) == successor
            &&& successor.closed_by_client(late) == successor
            &&& !successor.overflows(late, data.len())
        }),
{
}

/// Only a byte that moved keeps a connection alive: queueing one does not, and neither does
/// a write that takes none.
pub proof fn only_a_moved_byte_pushes_the_deadline_out(
    agent: AgentModel,
    generation: u32,
    data: Seq<u8>,
    e: Errno,
    now: u64,
)
    requires
        agent.channel is Some,
    ensures
        ({
            let due = agent.channel->0.idle_deadline;
            &&& agent.delivered(generation, data).channel->0.idle_deadline == due
            &&& agent.flushed(Err(e), now).channel->0.idle_deadline == due
            &&& agent.flushed(Ok(0), now).channel->0.idle_deadline == due
            &&& agent.closed_by_client(generation).channel->0.idle_deadline == due
        }),
{
}

/// The queue in front of the local socket is never past its bound, whatever the client sends
/// and however little the socket takes.
pub proof fn the_agent_queue_is_bounded(
    agent: AgentModel,
    generation: u32,
    data: Seq<u8>,
    result: Result<usize, Errno>,
    now: u64,
)
    requires
        agent.wf(),
    ensures
        agent.delivered(generation, data).wf(),
        agent.flushed(result, now).wf(),
        agent.closed_by_client(generation).wf(),
{
}

} // verus!
