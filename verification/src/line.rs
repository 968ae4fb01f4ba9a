//! A connection as the daemon answers it: every byte it sends is behind the preamble that
//! lets a client find the first frame.
use vstd::prelude::*;

use crate::conn::{
    bytes_of, compacted, decoded_input_never_piles_up, first_frame, output_chunks, output_taken,
    Conn, FinalStep, Received, Step, Written, MAX_PENDING_READ,
};
use crate::header::FrameType;
use crate::rev11::{Frame, FrameModel, SERVER_PREAMBLE};
use crate::wire::ProtoError;

verus! {

/// A client connection and whether it has been given the preamble.
#[derive(Debug)]
pub struct Line {
    conn: Conn,
    synced: bool,
}

/// What a [`Line`] holds: bytes not yet decoded, bytes not yet delivered, whether the peer
/// has closed its sending half, and whether it has been given the preamble.
#[verifier::ext_equal]
pub struct LineModel {
    pub incoming: Seq<u8>,
    pub outgoing: Seq<u8>,
    pub ended: bool,
    pub synced: bool,
}

impl View for Line {
    type V = LineModel;

    closed spec fn view(&self) -> LineModel {
        LineModel {
            incoming: self.conn.incoming(),
            outgoing: self.conn.outgoing(),
            ended: self.conn.ended(),
            synced: self.synced,
        }
    }
}

/// What a frame puts on the wire: its bytes, or nothing where it cannot be encoded.
pub open spec fn wire_of(frame: FrameModel) -> Seq<u8> {
    if frame.refusal() is None {
        frame.bytes()
    } else {
        Seq::empty()
    }
}

impl LineModel {
    /// A line nothing has moved over yet.
    pub open spec fn fresh() -> LineModel {
        LineModel {
            incoming: Seq::empty(),
            outgoing: Seq::empty(),
            ended: false,
            synced: false,
        }
    }

    /// With the preamble queued, where it was not given yet.
    pub open spec fn in_step(self) -> LineModel {
        if self.synced {
            self
        } else {
            LineModel { outgoing: self.outgoing + SERVER_PREAMBLE@, synced: true, ..self }
        }
    }

    /// With one frame more queued, dropping one that cannot be encoded.
    pub open spec fn said(self, frame: FrameModel) -> LineModel {
        LineModel { outgoing: self.in_step().outgoing + wire_of(frame), ..self.in_step() }
    }

    /// With several frames more queued.
    pub open spec fn said_all(self, frames: Seq<FrameModel>) -> LineModel {
        LineModel { outgoing: self.in_step().outgoing + bytes_of(frames), ..self.in_step() }
    }

    /// After one read of the socket.
    pub open spec fn filled(self, got: Received<'_>) -> LineModel {
        match got {
            Received::Bytes(bytes) => LineModel {
                incoming: self.incoming + bytes@,
                ended: self.ended || bytes@.len() == 0,
                ..self
            },
            _ => self,
        }
    }

    /// What one read of the socket is followed by.
    pub open spec fn fill_step(self, got: Received<'_>) -> Step {
        match got {
            Received::Bytes(bytes) => if bytes@.len() == 0 || self.incoming.len() + bytes@.len()
                >= MAX_PENDING_READ {
                Step::Done
            } else {
                Step::Again
            },
            Received::WouldBlock => Step::Done,
            Received::Interrupted => Step::Again,
            Received::Failed => Step::Failed,
        }
    }

    /// After one write of the queue.
    pub open spec fn flushed(self, took: Written) -> LineModel {
        match took {
            Written::Took(n) => LineModel { outgoing: self.outgoing.skip(n as int), ..self },
            _ => self,
        }
    }

    /// What one write of the queue is followed by.
    pub open spec fn flush_step(self, took: Written) -> Step {
        match took {
            Written::Took(n) => if n == 0 {
                Step::WriteZero
            } else if n == self.outgoing.len() {
                Step::Done
            } else {
                Step::Again
            },
            Written::WouldBlock => Step::Done,
            Written::Interrupted => Step::Again,
            Written::Failed => Step::Failed,
        }
    }

    /// What delivering the last of the queue does next.
    pub open spec fn final_step(self, now: u64, deadline: u64) -> FinalStep {
        if self.outgoing.len() == 0 {
            FinalStep::Flushed
        } else if now >= deadline {
            FinalStep::TimedOut
        } else {
            FinalStep::Write { within: (deadline - now) as u64 }
        }
    }

    /// After one frame was taken off the receive buffer, if there is a whole one.
    pub open spec fn taken(self) -> LineModel {
        match first_frame(self.incoming) {
            Ok(Some((_, _, rest))) => LineModel { incoming: rest, ..self },
            _ => self,
        }
    }
}

impl Line {
    /// The buffers are sound.
    pub closed spec fn wf(&self) -> bool {
        self.conn.wf()
    }

    /// The queue carries nothing that is already delivered, or less of that than is still to
    /// be.
    pub closed spec fn is_compacted(&self) -> bool {
        self.conn.is_compacted()
    }

    /// The receive buffer carries nothing that is already decoded, or less of that than is
    /// still to be.
    pub closed spec fn input_is_compacted(&self) -> bool {
        self.conn.input_is_compacted()
    }

    /// A line nothing has moved over yet.
    pub fn new() -> (r: Line)
        ensures
            r.wf(),
            r@ == LineModel::fresh(),
            r.is_compacted(),
    {
        Line { conn: Conn::new(), synced: false }
    }

    /// Whether the peer has closed its sending half.
    pub fn is_eof(&self) -> (r: bool)
        ensures
            r == self@.ended,
    {
        self.conn.is_eof()
    }

    /// How much is queued for the socket.
    pub fn queued(&self) -> (r: usize)
        requires
            self.wf(),
        ensures
            r == self@.outgoing.len(),
    {
        self.conn.queued()
    }

    /// How much was read and is not yet decoded.
    pub fn buffered(&self) -> (r: usize)
        requires
            self.wf(),
        ensures
            r == self@.incoming.len(),
    {
        self.conn.buffered()
    }

    /// How many bytes the queue holds on to, and how many of them are already delivered.
    pub fn queue_held(&self) -> (r: (usize, usize))
        requires
            self.wf(),
        ensures
            r.0 - r.1 == self@.outgoing.len(),
            self.is_compacted() == compacted(r.0 as nat, r.1 as nat),
    {
        self.conn.queue_held()
    }

    /// How many bytes the receive buffer holds on to, and how many of them are already
    /// decoded.
    pub fn input_held(&self) -> (r: (usize, usize))
        requires
            self.wf(),
        ensures
            r.0 - r.1 == self@.incoming.len(),
            self.input_is_compacted() == compacted(r.0 as nat, r.1 as nat),
    {
        self.conn.input_held()
    }

    /// What the socket is to be offered next.
    pub fn pending(&self) -> (r: &[u8])
        requires
            self.wf(),
        ensures
            r@ == self@.outgoing,
    {
        self.conn.pending()
    }

    /// Whether another read is wanted.
    pub fn wants_input(&self) -> (r: bool)
        requires
            self.wf(),
        ensures
            r == (self@.incoming.len() < MAX_PENDING_READ),
    {
        self.conn.wants_input()
    }

    /// Takes in what one read came back with.
    pub fn fill(&mut self, got: Received<'_>) -> (r: Step)
        requires
            old(self).wf(),
        ensures
            final(self).wf(),
            final(self)@ == old(self)@.filled(got),
            final(self).is_compacted() == old(self).is_compacted(),
            r == old(self)@.fill_step(got),
    {
        self.conn.fill(got)
    }

    /// Takes out of the queue what one write took. A pass that ends well leaves the queue
    /// compacted.
    pub fn flush_some(&mut self, took: Written) -> (r: Step)
        requires
            old(self).wf(),
            took matches Written::Took(n) ==> n <= old(self)@.outgoing.len(),
        ensures
            final(self).wf(),
            final(self)@ == old(self)@.flushed(took),
            r == old(self)@.flush_step(took),
            r == Step::Done ==> final(self).is_compacted(),
    {
        self.conn.flush_some(took)
    }

    /// What delivering the last of the queue does next.
    pub fn flush_final(&mut self, now: u64, deadline: u64) -> (r: FinalStep)
        requires
            old(self).wf(),
        ensures
            final(self).wf(),
            final(self)@ == old(self)@,
            r == FinalStep::Flushed ==> final(self).is_compacted(),
            r == old(self)@.final_step(now, deadline),
            r == if old(self)@.outgoing.len() == 0 {
                FinalStep::Flushed
            } else if now >= deadline {
                FinalStep::TimedOut
            } else {
                FinalStep::Write { within: (deadline - now) as u64 }
            },
    {
        self.conn.flush_final(now, deadline)
    }

    /// Queues the preamble, where it was not given yet.
    fn sync(&mut self)
        requires
            old(self).wf(),
        ensures
            final(self).wf(),
            old(self).is_compacted() ==> final(self).is_compacted(),
            final(self)@ == old(self)@.in_step(),
    {
        if !self.synced {
            self.conn.send_raw(SERVER_PREAMBLE.as_slice());
            self.synced = true;
        }
    }

    /// Queues a frame, dropping one that cannot be encoded.
    pub fn say(&mut self, frame: &Frame<'_>)
        requires
            old(self).wf(),
        ensures
            final(self).wf(),
            old(self).is_compacted() ==> final(self).is_compacted(),
            final(self)@ == old(self)@.said(frame@),
    {
        self.sync();
        self.conn.send(frame);
        assert(self@.outgoing =~= old(self)@.in_step().outgoing + wire_of(frame@));
    }

    /// Queues output as frames, and returns the offset one past the last byte queued.
    pub fn say_output(&mut self, offset: u64, data: &[u8]) -> (r: u64)
        requires
            old(self).wf(),
            offset + data@.len() <= u64::MAX,
        ensures
            final(self).wf(),
            old(self).is_compacted() ==> final(self).is_compacted(),
            r == offset + output_taken(old(self)@.in_step().outgoing.len(), data@.len()),
            offset <= r <= offset + data@.len(),
            final(self)@ == old(self)@.said_all(
                output_chunks(offset as int, data@.take(r - offset)),
            ),
    {
        self.sync();
        self.conn.send_output(offset, data)
    }

    /// Queues agent bytes as frames for `generation`.
    pub fn say_agent_data(&mut self, generation: u32, data: &[u8])
        requires
            old(self).wf(),
        ensures
            final(self).wf(),
            old(self).is_compacted() ==> final(self).is_compacted(),
            final(self)@ == old(self)@.said_all(crate::conn::agent_chunks(generation, data@)),
    {
        self.sync();
        self.conn.send_agent_data(generation, data);
    }

    /// Removes one complete frame from the receive buffer, copying its payload into
    /// `scratch`, and leaves the buffer compacted.
    pub fn take_frame(&mut self, scratch: &mut Vec<u8>) -> (r: Result<
        Option<FrameType>,
        ProtoError,
    >)
        requires
            old(self).wf(),
        ensures
            final(self).wf(),
            final(self)@ == old(self)@.taken(),
            final(self).is_compacted() == old(self).is_compacted(),
            match first_frame(old(self)@.incoming) {
                Err(e) => {
                    &&& r == Err::<Option<FrameType>, ProtoError>(e)
                    &&& final(scratch)@ == old(scratch)@
                },
                Ok(None) => {
                    &&& r == Ok::<Option<FrameType>, ProtoError>(None)
                    &&& final(scratch)@ == old(scratch)@
                },
                Ok(Some((ty, payload, _))) => {
                    &&& r == Ok::<Option<FrameType>, ProtoError>(Some(ty))
                    &&& final(scratch)@ == payload
                    &&& final(self).input_is_compacted()
                },
            },
    {
        self.conn.take_frame(scratch)
    }
}

/// Whatever a line lives through, its receive buffer carries nothing that is already decoded,
/// or less of that than is still to be.
pub proof fn decoded_input_never_piles_up_on_a_line(line: Line)
    requires
        line.wf(),
    ensures
        line.input_is_compacted(),
{
    decoded_input_never_piles_up(line.conn);
}

/// The first thing a client is ever sent is the preamble, and it is sent once: whatever a
/// line says is behind it.
pub proof fn the_preamble_comes_first(line: LineModel, frame: FrameModel, next: FrameModel)
    ensures
        LineModel::fresh().said(frame).outgoing == SERVER_PREAMBLE@ + wire_of(frame),
        line.synced ==> line.said(frame).outgoing == line.outgoing + wire_of(frame),
        line.said(frame).said(next).outgoing == line.said(frame).outgoing + wire_of(next),
{
    assert(Seq::<u8>::empty() + SERVER_PREAMBLE@ =~= SERVER_PREAMBLE@);
}

/// The last of a queue is written until nothing is left or the time is up, and never waited
/// for past that.
pub proof fn a_last_flush_ends_at_its_deadline(line: LineModel, now: u64, deadline: u64)
    ensures
        line.final_step(now, deadline) == FinalStep::Flushed <==> line.outgoing.len() == 0,
        line.outgoing.len() > 0 ==> (line.final_step(now, deadline) == FinalStep::TimedOut <==> now
            >= deadline),
        line.final_step(now, deadline) matches FinalStep::Write { within } ==> within > 0 && now
            + within == deadline && line.outgoing.len() > 0,
{
}

} // verus!
