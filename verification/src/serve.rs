//! How a session serves its one client: input applied exactly once, output sent without a
//! hole, and a departure that costs the session nothing.
use vstd::prelude::*;

use crate::conn::first_frame;
use crate::line::{Line, LineModel};
use crate::queue::push_from;
use crate::refusal::Refusal;
use crate::rev11::{decoded, Frame, FrameModel};
use crate::session::{AttachedModel, Session, SessionModel};

verus! {

/// What is left to be done outside after a frame was served.
pub enum Effect {
    /// Nothing.
    Nothing,
    /// The client closed the agent connection: its read side is to be shut down and its
    /// queue written once.
    AgentClosing,
    /// The client has left, and this is its connection.
    Gone(Line),
}

/// What an [`Effect`] holds.
#[verifier::ext_equal]
pub enum EffectModel {
    Nothing,
    AgentClosing,
    Gone(LineModel),
}

impl View for Effect {
    type V = EffectModel;

    open spec fn view(&self) -> EffectModel {
        match *self {
            Effect::Nothing => EffectModel::Nothing,
            Effect::AgentClosing => EffectModel::AgentClosing,
            Effect::Gone(line) => EffectModel::Gone(line@),
        }
    }
}

impl Effect {
    /// The connection handed over, if any, has sound buffers.
    pub open spec fn wf(&self) -> bool {
        self matches Effect::Gone(line) ==> line.wf()
    }
}

/// What decoding the client's frames came to.
pub enum Heard {
    /// There is nobody to hear.
    Absent,
    /// The input queue is full: what is left is decoded once the terminal has taken some.
    Held,
    /// Every whole frame was served.
    Idle,
    /// A frame left something to be done outside; there may be more behind it.
    AgentClosing,
    /// The client has left, and this is its connection.
    Gone(Line),
}

/// What a [`Heard`] holds.
#[verifier::ext_equal]
pub enum HeardModel {
    Absent,
    Held,
    Idle,
    AgentClosing,
    Gone(LineModel),
}

impl View for Heard {
    type V = HeardModel;

    open spec fn view(&self) -> HeardModel {
        match *self {
            Heard::Absent => HeardModel::Absent,
            Heard::Held => HeardModel::Held,
            Heard::Idle => HeardModel::Idle,
            Heard::AgentClosing => HeardModel::AgentClosing,
            Heard::Gone(line) => HeardModel::Gone(line@),
        }
    }
}

impl Heard {
    /// The connection handed over, if any, has sound buffers.
    pub open spec fn wf(&self) -> bool {
        self matches Heard::Gone(line) ==> line.wf()
    }
}

// ---------------------------------------------------------------------------
// What the client's frames do
// ---------------------------------------------------------------------------

impl SessionModel {
    /// The client let go at `now`, told why where there is a reason.
    pub open spec fn refused(self, why: Option<Refusal>, now: u64) -> (SessionModel, EffectModel) {
        match self.farewell(why) {
            Some(line) => (self.dropped(now), EffectModel::Gone(line)),
            None => (self, EffectModel::Nothing),
        }
    }

    /// One past the last byte of input at `offset`, as far as an offset can say.
    pub open spec fn input_end(offset: u64, data: Seq<u8>) -> u64 {
        if offset + data.len() > u64::MAX {
            u64::MAX
        } else {
            (offset + data.len()) as u64
        }
    }

    /// After input that begins at or below what was applied: only the bytes that are new
    /// are taken, only a terminal that is still there is given them, and the client is
    /// told how far its input has been taken.
    pub open spec fn took_input(self, offset: u64, data: Seq<u8>) -> SessionModel {
        let end = Self::input_end(offset, data);
        let next = if end > self.in_applied {
            SessionModel {
                pending_input: if self.terminal_closed_at is None {
                    self.pending_input + data.skip(self.in_applied - offset)
                } else {
                    self.pending_input
                },
                in_applied: end,
                ..self
            }
        } else {
            self
        };
        next.told(FrameModel::InputAck { applied_through: next.in_applied })
    }

    /// After the client's bytes for the agent connection `generation`: a queue that cannot
    /// hold them ends the connection, and the client is told.
    pub open spec fn took_agent_data(self, generation: u32, data: Seq<u8>) -> SessionModel {
        match self.agent {
            None => self,
            Some(agent) => if agent.overflows(generation, data.len()) {
                self.agent_closed()
            } else {
                SessionModel { agent: Some(agent.delivered(generation, data)), ..self }
            },
        }
    }

    /// With no agent connection served, and the client told if there was one.
    pub open spec fn agent_closed(self) -> SessionModel {
        match self.agent {
            None => self,
            Some(agent) => {
                let next = SessionModel { agent: Some(agent.forgotten()), ..self };
                match agent.generation() {
                    Some(generation) => next.told(FrameModel::AgentClose { generation }),
                    None => next,
                }
            },
        }
    }

    /// After one frame from the client, and what is left to be done outside.
    pub open spec fn served(self, frame: FrameModel, now: u64) -> (SessionModel, EffectModel) {
        match frame {
            FrameModel::Input { offset, data } => if offset > self.in_applied {
                self.refused(Some(Refusal::InputGap), now)
            } else {
                (self.took_input(offset, data), EffectModel::Nothing)
            },
            FrameModel::Resize(win) => (SessionModel { win, ..self }, EffectModel::Nothing),
            FrameModel::Ping => (self.told(FrameModel::Pong), EffectModel::Nothing),
            FrameModel::Detach => self.refused(None, now),
            FrameModel::AgentData { generation, data } => (
                self.took_agent_data(generation, data),
                EffectModel::Nothing,
            ),
            FrameModel::AgentClose { generation } => match self.agent {
                None => (self, EffectModel::Nothing),
                Some(agent) => (
                    SessionModel { agent: Some(agent.closed_by_client(generation)), ..self },
                    if agent.generation() == Some(generation) {
                        EffectModel::AgentClosing
                    } else {
                        EffectModel::Nothing
                    },
                ),
            },
            FrameModel::Hello(_) => self.refused(Some(Refusal::AlreadyGreeted), now),
            _ => self.refused(Some(Refusal::NotFromClient), now),
        }
    }

    /// Whether the client may have more to say.
    pub open spec fn hears_more(self) -> bool {
        self.client matches Some(client) && !client.line.ended
    }

    /// With the client's receive buffer holding `rest`.
    pub open spec fn left_with(self, rest: Seq<u8>) -> SessionModel {
        match self.client {
            Some(client) => SessionModel {
                client: Some(
                    AttachedModel {
                        line: LineModel { incoming: rest, ..client.line },
                        ..client
                    },
                ),
                ..self
            },
            None => self,
        }
    }

    /// After every whole frame in the client's receive buffer was served, in order, until
    /// the input queue is full, the client has left or something is to be done outside.
    pub open spec fn heard(self, now: u64) -> (SessionModel, HeardModel)
        decreases self.undecoded(),
    {
        match self.client {
            None => (self, HeardModel::Absent),
            Some(client) => if self.saturated() {
                (self, HeardModel::Held)
            } else {
                match first_frame(client.line.incoming) {
                    Err(_) => self.gone(Refusal::UnparseableHeader, now),
                    Ok(None) => if client.line.ended && client.line.incoming.len() > 0 {
                        self.gone(Refusal::TruncatedAtEnd, now)
                    } else {
                        (self, HeardModel::Idle)
                    },
                    Ok(Some((ty, payload, rest))) => match decoded(ty, payload) {
                        Err(_) => self.left_with(rest).gone(Refusal::UnparseablePayload, now),
                        Ok(frame) => {
                            let (next, effect) = self.left_with(rest).served(frame, now);
                            match effect {
                                EffectModel::AgentClosing => (next, HeardModel::AgentClosing),
                                EffectModel::Gone(line) => (next, HeardModel::Gone(line)),
                                EffectModel::Nothing => if next.undecoded() < self.undecoded() {
                                    next.heard(now)
                                } else {
                                    (next, HeardModel::Idle)
                                },
                            }
                        },
                    },
                }
            },
        }
    }

    /// The attached client turned away at `now`.
    pub open spec fn gone(self, why: Refusal, now: u64) -> (SessionModel, HeardModel) {
        (self.dropped(now), HeardModel::Gone(self.farewell(Some(why))->0))
    }
}

/// A frame served leaves the receive buffer of a client that stays alone.
pub(crate) proof fn lemma_served_keeps_the_buffer(s: SessionModel, frame: FrameModel, now: u64)
    requires
        s.client is Some,
    ensures
        s.served(frame, now).1 is Gone ==> s.served(frame, now).0.client is None,
        !(s.served(frame, now).1 is Gone) ==> s.served(frame, now).0.client is Some
            && s.served(frame, now).0.client->0.line.incoming == s.client->0.line.incoming,
{
}

impl Session {
    /// Applies client input exactly once, trimming an overlapping replay.
    pub fn on_input(&mut self, offset: u64, data: &[u8], now: u64) -> (r: Effect)
        requires
            old(self).wf(),
        ensures
            final(self).wf(),
            r.wf(),
            (final(self)@, r@) == old(self)@.served(
                FrameModel::Input { offset, data: data@ },
                now,
            ),
    {
        if offset > self.in_applied {
            return self.turn_away(Some(Refusal::InputGap), now);
        }
        let end: u64 = offset.saturating_add(data.len() as u64);
        if end > self.in_applied {
            if self.terminal_closed_at.is_none() {
                let skip: usize = (self.in_applied - offset) as usize;
                push_from(&mut self.pending_input, data, skip);
            }
            self.in_applied = end;
        }
        let applied_through: u64 = self.in_applied;
        self.tell_client(&Frame::InputAck { applied_through });
        assert(self@ =~= old(self)@.took_input(offset, data@));
        Effect::Nothing
    }

    /// Lets the client go, told why where there is a reason.
    fn turn_away(&mut self, why: Option<Refusal>, now: u64) -> (r: Effect)
        requires
            old(self).wf(),
        ensures
            final(self).wf(),
            r.wf(),
            (final(self)@, r@) == old(self)@.refused(why, now),
    {
        let left: Option<Line> = match why {
            Some(refusal) => self.reject(refusal, now),
            None => self.drop_client(now),
        };
        match left {
            Some(line) => Effect::Gone(line),
            None => Effect::Nothing,
        }
    }

    /// Drops the served agent connection and tells the client, which is holding the other
    /// end. Silent if it was already gone.
    pub fn close_agent_channel(&mut self)
        requires
            old(self).wf(),
        ensures
            final(self).wf(),
            final(self)@ == old(self)@.agent_closed(),
    {
        let named: Option<u32> = match &mut self.agent {
            Some(agent) => agent.forget(),
            None => None,
        };
        if let Some(generation) = named {
            self.tell_client(&Frame::AgentClose { generation });
        }
        assert(self@ =~= old(self)@.agent_closed());
    }

    /// Services one decoded frame from the attached client. A second greeting is refused
    /// apart from the catch-all: greeting is what *makes* a connection the client.
    pub fn handle_frame(&mut self, frame: &Frame<'_>, now: u64) -> (r: Effect)
        requires
            old(self).wf(),
        ensures
            final(self).wf(),
            r.wf(),
            (final(self)@, r@) == old(self)@.served(frame@, now),
    {
        match *frame {
            Frame::Input { offset, data } => self.on_input(offset, data, now),
            Frame::Resize(win) => {
                self.win = win;
                assert(self@ =~= old(self)@.served(frame@, now).0);
                Effect::Nothing
            },
            Frame::Ping => {
                self.tell_client(&Frame::Pong);
                Effect::Nothing
            },
            Frame::Detach => self.turn_away(None, now),
            Frame::AgentData { generation, data } => {
                let kept: bool = match &mut self.agent {
                    Some(agent) => agent.deliver(generation, data),
                    None => true,
                };
                if !kept {
                    assert(self@ =~= old(self)@);
                    self.close_agent_channel();
                }
                assert(self@ =~= old(self)@.served(frame@, now).0);
                Effect::Nothing
            },
            Frame::AgentClose { generation } => {
                let closing: bool = match &mut self.agent {
                    Some(agent) => agent.close_from_client(generation),
                    None => false,
                };
                assert(self@ =~= old(self)@.served(frame@, now).0);
                if closing {
                    Effect::AgentClosing
                } else {
                    Effect::Nothing
                }
            },
            Frame::Hello(_) => self.turn_away(Some(Refusal::AlreadyGreeted), now),
            _ => self.turn_away(Some(Refusal::NotFromClient), now),
        }
    }

    /// Whether the client's socket is to be read at all: a peer that has closed its sending
    /// half is not gone, but has nothing more to say.
    pub fn client_wants_fill(&self) -> (r: bool)
        requires
            self.wf(),
        ensures
            r == self@.hears_more(),
            r == (self@.client matches Some(client) && !client.line.ended),
    {
        match &self.client {
            Some(client) => !client.line.is_eof(),
            None => false,
        }
    }

    /// Serves every whole frame in the client's receive buffer, in order.
    ///
    /// The input cap is enforced here and not only in the poll set, because a takeover
    /// reaches this loop without polling. What is left once no whole frame is: a truncated
    /// one at the end of the stream can never become whole, and left attached it would hold
    /// off idle reaping for good.
    pub fn read_client(&mut self, scratch: &mut Vec<u8>, now: u64) -> (r: Heard)
        requires
            old(self).wf(),
        ensures
            final(self).wf(),
            r.wf(),
            (final(self)@, r@) == old(self)@.heard(now),
    {
        loop
            invariant
                self.wf(),
                self@.heard(now) == old(self)@.heard(now),
            decreases self@.undecoded(),
        {
            let ghost at = self@;
            if self.client.is_none() {
                return Heard::Absent;
            }
            if self.input_is_saturated() {
                return Heard::Held;
            }
            let taken = match &mut self.client {
                Some(client) => client.line.take_frame(scratch),
                None => Ok(None),
            };
            let ty = match taken {
                Err(_) => {
                    assert(self@ =~= at);
                    return self.send_away(Refusal::UnparseableHeader, now);
                },
                Ok(None) => {
                    assert(self@ =~= at);
                    let truncated: bool = match &self.client {
                        Some(client) => client.line.is_eof() && client.line.buffered() != 0,
                        None => false,
                    };
                    if truncated {
                        return self.send_away(Refusal::TruncatedAtEnd, now);
                    }
                    return Heard::Idle;
                },
                Ok(Some(ty)) => ty,
            };
            let ghost (_, _, rest) = first_frame(at.client->0.line.incoming)->Ok_0->0;
            assert(self@ =~= at.left_with(rest));
            let frame = match Frame::decode(ty, scratch.as_slice()) {
                Err(_) => {
                    return self.send_away(Refusal::UnparseablePayload, now);
                },
                Ok(frame) => frame,
            };
            proof {
                lemma_served_keeps_the_buffer(self@, frame@, now);
            }
            match self.handle_frame(&frame, now) {
                Effect::Nothing => {
                    assert(self@.undecoded() < at.undecoded());
                },
                Effect::AgentClosing => {
                    return Heard::AgentClosing;
                },
                Effect::Gone(line) => {
                    return Heard::Gone(line);
                },
            }
        }
    }

    /// Turns the attached client away.
    fn send_away(&mut self, why: Refusal, now: u64) -> (r: Heard)
        requires
            old(self).wf(),
            old(self).client is Some,
        ensures
            final(self).wf(),
            r.wf(),
            (final(self)@, r@) == old(self)@.gone(why, now),
    {
        match self.reject(why, now) {
            Some(line) => Heard::Gone(line),
            None => Heard::Absent,
        }
    }
}

} // verus!
