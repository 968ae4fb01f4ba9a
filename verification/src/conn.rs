//! The two buffers of a framed connection to a client.
//!
//! Reads accumulate until a whole frame is available; writes accumulate until the socket
//! accepts them. The socket itself is the caller's: it hands in what it read and says how
//! much of the queue it took, and is told what to do next.
use vstd::prelude::*;

use crate::header::{decode_header, decoded_header, FrameType, Header};
use crate::rev11::{
    decode_inverts_encode, decoded, Frame, FrameModel, MAX_AGENT_DATA, MAX_OUTPUT_DATA,
};
use crate::wire::{header_bytes, put_bytes, ProtoError, HEADER_LEN, MAX_PAYLOAD};

verus! {

/// Stop reading from a connection once this much undecoded input is already buffered.
pub const MAX_PENDING_READ: usize = 1024 * 1024;

/// Stop queueing output once this much is already waiting for a slow client.
pub const MAX_PENDING_WRITE: usize = 1024 * 1024;

/// Capacity an emptied *send* queue keeps rather than hold one paste's peak for a week.
pub const RETAINED_CAPACITY: usize = 128 * 1024;

/// The same for the receive buffer: this direction carries keystrokes and control frames,
/// and only a paste ever takes it past a page.
pub const RETAINED_INPUT: usize = 4096;

/// Longest to spend delivering a connection's last frames before abandoning them, in
/// nanoseconds.
pub const FINAL_FLUSH_TIMEOUT: u64 = 500_000_000;

// ---------------------------------------------------------------------------
// Frames in a row of bytes
// ---------------------------------------------------------------------------

/// The bytes of several frames, one behind the other.
pub open spec fn bytes_of(frames: Seq<FrameModel>) -> Seq<u8>
    decreases frames.len(),
{
    if frames.len() == 0 {
        Seq::empty()
    } else {
        bytes_of(frames.drop_last()) + frames.last().bytes()
    }
}

/// The first frame of a row of bytes: its type, its payload and what is behind it; nothing
/// yet where the row ends before the frame does; or what is wrong with its header.
pub open spec fn first_frame(q: Seq<u8>) -> Result<
    Option<(FrameType, Seq<u8>, Seq<u8>)>,
    ProtoError,
> {
    if q.len() < 4 {
        Ok(None)
    } else {
        match decoded_header(q.subrange(0, 4)) {
            Err(e) => Err(e),
            Ok(header) => if q.len() < 4 + header.len {
                Ok(None)
            } else {
                Ok(
                    Some(
                        (
                            header.ty,
                            q.subrange(4, 4 + header.len),
                            q.subrange(4 + header.len, q.len() as int),
                        ),
                    ),
                )
            },
        }
    }
}

/// Output bytes from `offset` on, as frames of at most [`MAX_OUTPUT_DATA`] bytes each.
pub open spec fn output_chunks(offset: int, data: Seq<u8>) -> Seq<FrameModel>
    decreases data.len(),
{
    if data.len() == 0 {
        Seq::empty()
    } else {
        let n = if data.len() <= MAX_OUTPUT_DATA {
            data.len() as int
        } else {
            MAX_OUTPUT_DATA as int
        };
        seq![FrameModel::Output { offset: offset as u64, data: data.take(n) }] + output_chunks(
            offset + n,
            data.skip(n),
        )
    }
}

/// How many of `len` output bytes are queued behind `queued`: whole chunks, until the queue
/// has reached [`MAX_PENDING_WRITE`].
pub open spec fn output_taken(queued: nat, len: nat) -> nat
    decreases len,
{
    if len == 0 || queued >= MAX_PENDING_WRITE {
        0
    } else if len <= MAX_OUTPUT_DATA {
        len
    } else {
        MAX_OUTPUT_DATA as nat + output_taken(
            queued + 12 + MAX_OUTPUT_DATA as nat,
            (len - MAX_OUTPUT_DATA) as nat,
        )
    }
}

/// Agent bytes for `generation`, as frames of at most [`MAX_AGENT_DATA`] bytes each.
pub open spec fn agent_chunks(generation: u32, data: Seq<u8>) -> Seq<FrameModel>
    decreases data.len(),
{
    if data.len() == 0 {
        Seq::empty()
    } else {
        let n = if data.len() <= MAX_AGENT_DATA {
            data.len() as int
        } else {
            MAX_AGENT_DATA as int
        };
        seq![FrameModel::AgentData { generation, data: data.take(n) }] + agent_chunks(
            generation,
            data.skip(n),
        )
    }
}

/// The bytes of one frame more.
pub(crate) proof fn lemma_bytes_push(frames: Seq<FrameModel>, frame: FrameModel)
    ensures
        bytes_of(frames.push(frame)) == bytes_of(frames) + frame.bytes(),
{
    assert(frames.push(frame).drop_last() =~= frames);
}

/// The bytes of two rows of frames are their bytes.
pub(crate) proof fn lemma_bytes_concat(a: Seq<FrameModel>, b: Seq<FrameModel>)
    ensures
        bytes_of(a + b) == bytes_of(a) + bytes_of(b),
    decreases b.len(),
{
    if b.len() == 0 {
        assert(a + b =~= a);
        assert(bytes_of(a) + bytes_of(b) =~= bytes_of(a));
    } else {
        lemma_bytes_concat(a, b.drop_last());
        assert((a + b).drop_last() =~= a + b.drop_last());
        assert(bytes_of(a + b) =~= bytes_of(a) + bytes_of(b));
    }
}

// ---------------------------------------------------------------------------
// Buffers
// ---------------------------------------------------------------------------

/// Gives back the capacity of `buf` past `floor`.
///
/// Rests on [`Vec::shrink_to`], which changes how much memory a vector holds on to and
/// nothing of what it holds.
#[verifier::external_body]
fn shrink(buf: &mut Vec<u8>, floor: usize)
    ensures
        final(buf)@ == old(buf)@,
{
    buf.shrink_to(floor);
}

/// Nothing is dead, or less than is live, so no buffer carries a prefix bigger than the
/// remainder it is paying to move.
pub open spec fn compacted(len: nat, pos: nat) -> bool {
    pos == 0 || pos * 2 < len
}

/// Reclaims the consumed prefix of a cursor-and-`Vec` buffer, keeping `floor` bytes of
/// capacity where it empties one. The live bytes are unmoved in the stream.
fn compact(buf: &mut Vec<u8>, pos: &mut usize, floor: usize)
    requires
        *old(pos) <= old(buf)@.len(),
    ensures
        *final(pos) <= final(buf)@.len(),
        final(buf)@.subrange(*final(pos) as int, final(buf)@.len() as int) == old(buf)@.subrange(
            *old(pos) as int,
            old(buf)@.len() as int,
        ),
        compacted(final(buf)@.len(), *final(pos) as nat),
        *old(pos) == old(buf)@.len() ==> final(buf)@.len() == 0,
{
    let len: usize = buf.len();
    let dead: usize = *pos;
    if dead == len {
        buf.clear();
        shrink(buf, floor);
        *pos = 0;
        assert(buf@.subrange(0, 0) =~= old(buf)@.subrange(dead as int, len as int));
    } else if dead >= len - dead {
        let live: usize = len - dead;
        let mut i: usize = 0;
        while i < live
            invariant
                i <= live,
                live == len - dead,
                dead <= len,
                buf@.len() == len,
                old(buf)@.len() == len,
                forall|k: int| 0 <= k < i ==> buf@[k] == old(buf)@[dead + k],
                forall|k: int| i <= k < len ==> buf@[k] == old(buf)@[k],
            decreases live - i,
        {
            let byte: u8 = buf[i + dead];
            buf[i] = byte;
            i += 1;
        }
        buf.truncate(live);
        *pos = 0;
        assert(buf@.subrange(0, live as int) =~= old(buf)@.subrange(dead as int, len as int));
    }
}

/// What a read from the connection's socket came back with.
pub enum Received<'a> {
    /// Some bytes; none of them is the peer having closed its sending half.
    Bytes(&'a [u8]),
    /// Nothing to read now.
    WouldBlock,
    /// A signal arrived instead.
    Interrupted,
    /// The socket failed.
    Failed,
}

/// What a write to the connection's socket came back with.
pub enum Written {
    /// This many bytes were taken.
    Took(usize),
    /// Nothing can be taken now.
    WouldBlock,
    /// A signal arrived instead.
    Interrupted,
    /// The socket failed.
    Failed,
}

/// What moving bytes over the socket does next.
#[derive(Debug, Clone, Copy, PartialEq, Eq, Structural)]
pub enum Step {
    /// Ask the socket again.
    Again,
    /// This pass is over.
    Done,
    /// The connection is no longer usable: the socket failed.
    Failed,
    /// The connection is no longer usable: a write took nothing and reported no reason.
    WriteZero,
}

/// What delivering a connection's last frames does next.
#[derive(Debug, Clone, Copy, PartialEq, Eq, Structural)]
pub enum FinalStep {
    /// Write, waiting at most this many nanoseconds.
    Write {
        /// The wait that is left.
        within: u64,
    },
    /// Everything was delivered.
    Flushed,
    /// The peer did not take it in time.
    TimedOut,
}

/// A client connection carrying partially read and partially written frames.
#[derive(Debug)]
pub struct Conn {
    rx: Vec<u8>,
    rx_pos: usize,
    tx: Vec<u8>,
    tx_pos: usize,
    eof: bool,
}

impl Conn {
    /// Bytes read off the socket and not yet decoded.
    pub closed spec fn incoming(&self) -> Seq<u8> {
        self.rx@.subrange(self.rx_pos as int, self.rx@.len() as int)
    }

    /// Bytes queued for the socket and not yet accepted by it.
    pub closed spec fn outgoing(&self) -> Seq<u8> {
        self.tx@.subrange(self.tx_pos as int, self.tx@.len() as int)
    }

    /// Whether the peer has closed its sending half.
    pub closed spec fn ended(&self) -> bool {
        self.eof
    }

    /// Both cursors are within their buffers, and the receive buffer is compacted: only
    /// taking a frame moves its cursor, and that compacts it.
    pub closed spec fn wf(&self) -> bool {
        &&& self.rx_pos <= self.rx@.len()
        &&& self.tx_pos <= self.tx@.len()
        &&& self.input_is_compacted()
    }

    /// A connection nothing has moved over yet.
    pub fn new() -> (r: Conn)
        ensures
            r.wf(),
            r.incoming() == Seq::<u8>::empty(),
            r.outgoing() == Seq::<u8>::empty(),
            !r.ended(),
            r.is_compacted(),
    {
        let r: Conn = Conn { rx: Vec::new(), rx_pos: 0, tx: Vec::new(), tx_pos: 0, eof: false };
        assert(r.incoming() =~= Seq::<u8>::empty());
        assert(r.outgoing() =~= Seq::<u8>::empty());
        r
    }

    /// Whether the peer has closed its sending half.
    pub fn is_eof(&self) -> (r: bool)
        ensures
            r == self.ended(),
    {
        self.eof
    }

    /// Output queued for the socket and not yet accepted by it.
    pub fn queued(&self) -> (r: usize)
        requires
            self.wf(),
        ensures
            r == self.outgoing().len(),
    {
        self.tx.len() - self.tx_pos
    }

    /// Input read off the socket and not yet decoded.
    pub fn buffered(&self) -> (r: usize)
        requires
            self.wf(),
        ensures
            r == self.incoming().len(),
    {
        self.rx.len() - self.rx_pos
    }

    /// What the socket is to be offered next.
    pub fn pending(&self) -> (r: &[u8])
        requires
            self.wf(),
        ensures
            r@ == self.outgoing(),
    {
        vstd::slice::slice_subrange(self.tx.as_slice(), self.tx_pos, self.tx.len())
    }

    /// Queues `data` as it is.
    pub fn send_raw(&mut self, data: &[u8])
        requires
            old(self).wf(),
        ensures
            final(self).wf(),
            final(self).incoming() == old(self).incoming(),
            final(self).ended() == old(self).ended(),
            old(self).is_compacted() ==> final(self).is_compacted(),
            final(self).outgoing() == old(self).outgoing() + data@,
    {
        put_bytes(&mut self.tx, data);
        assert(self.outgoing() =~= old(self).outgoing() + data@);
    }

    /// Queues a frame, dropping one that cannot be encoded.
    pub fn send(&mut self, frame: &Frame<'_>)
        requires
            old(self).wf(),
        ensures
            final(self).wf(),
            final(self).incoming() == old(self).incoming(),
            final(self).ended() == old(self).ended(),
            old(self).is_compacted() ==> final(self).is_compacted(),
            final(self).outgoing() == if frame@.refusal() is None {
                old(self).outgoing() + frame@.bytes()
            } else {
                old(self).outgoing()
            },
    {
        let _ = frame.encode(&mut self.tx);
        proof {
            if frame@.refusal() is None {
                assert(self.outgoing() =~= old(self).outgoing() + frame@.bytes());
            }
        }
    }

    /// Queues raw output bytes as one or more `Output` frames, splitting at
    /// [`MAX_OUTPUT_DATA`].
    ///
    /// Returns the offset one past the last byte queued, which is short of
    /// `offset + data.len()` when the queue filled partway through. The cap is re-checked
    /// per chunk rather than once on entry, which is what makes a short return *final*
    /// within a pass.
    pub fn send_output(&mut self, offset: u64, data: &[u8]) -> (r: u64)
        requires
            old(self).wf(),
            offset + data@.len() <= u64::MAX,
        ensures
            final(self).wf(),
            final(self).incoming() == old(self).incoming(),
            final(self).ended() == old(self).ended(),
            old(self).is_compacted() ==> final(self).is_compacted(),
            r == offset + output_taken(old(self).outgoing().len(), data@.len()),
            offset <= r <= offset + data@.len(),
            final(self).outgoing() == old(self).outgoing() + bytes_of(
                output_chunks(offset as int, data@.take(r - offset)),
            ),
    {
        let mut at: usize = 0;
        let ghost q0 = self.outgoing();
        let ghost total = output_taken(q0.len(), data@.len());
        proof {
            lemma_output_taken(q0.len(), data@.len());
            assert(data@.take(0) =~= Seq::empty());
            assert(q0 + bytes_of(output_chunks(offset as int, data@.take(0))) =~= q0);
            assert(data@.skip(0) =~= data@);
        }
        while at < data.len()
            invariant
                self.wf(),
                self.incoming() == old(self).incoming(),
                self.ended() == old(self).ended(),
                old(self).is_compacted() ==> self.is_compacted(),
                at <= data@.len(),
                offset + data@.len() <= u64::MAX,
                at == data@.len() || at as int % MAX_OUTPUT_DATA as int == 0,
                total == at + output_taken(self.outgoing().len(), (data@.len() - at) as nat),
                self.outgoing() == q0 + bytes_of(
                    output_chunks(offset as int, data@.take(at as int)),
                ),
            ensures
                self.wf(),
                self.incoming() == old(self).incoming(),
                self.ended() == old(self).ended(),
                old(self).is_compacted() ==> self.is_compacted(),
                at <= data@.len(),
                total == at,
                self.outgoing() == q0 + bytes_of(
                    output_chunks(offset as int, data@.take(at as int)),
                ),
            decreases data@.len() - at,
        {
            if self.queued() >= MAX_PENDING_WRITE {
                break;
            }
            let left: usize = data.len() - at;
            let n: usize = if left <= MAX_OUTPUT_DATA {
                left
            } else {
                MAX_OUTPUT_DATA
            };
            let part: &[u8] = vstd::slice::slice_subrange(data, at, at + n);
            let frame: Frame<'_> = Frame::Output { offset: offset + at as u64, data: part };
            proof {
                assert(frame@.payload().len() == 8 + n) by {
                    lemma_output_frame((offset + at) as u64, part@);
                }
                assert(frame@.bytes().len() == 12 + n);
                lemma_output_chunks_push(offset as int, data@, at as int, n as int);
                lemma_bytes_push(output_chunks(offset as int, data@.take(at as int)), frame@);
            }
            self.send(&frame);
            proof {
                assert(self.outgoing() =~= q0 + bytes_of(
                    output_chunks(offset as int, data@.take(at + n)),
                ));
                if n == MAX_OUTPUT_DATA {
                    assert((at + n) as int % MAX_OUTPUT_DATA as int == 0) by {
                        vstd::arithmetic::div_mod::lemma_mod_add_multiples_vanish(
                            at as int,
                            MAX_OUTPUT_DATA as int,
                        );
                    }
                }
            }
            at += n;
        }
        offset + at as u64
    }

    /// Queues agent bytes as one or more `AgentData` frames for `generation`, splitting at
    /// [`MAX_AGENT_DATA`].
    pub fn send_agent_data(&mut self, generation: u32, data: &[u8])
        requires
            old(self).wf(),
        ensures
            final(self).wf(),
            final(self).incoming() == old(self).incoming(),
            final(self).ended() == old(self).ended(),
            old(self).is_compacted() ==> final(self).is_compacted(),
            final(self).outgoing() == old(self).outgoing() + bytes_of(
                agent_chunks(generation, data@),
            ),
    {
        let mut at: usize = 0;
        let ghost q0 = self.outgoing();
        proof {
            assert(data@.take(0) =~= Seq::empty());
            assert(q0 + bytes_of(agent_chunks(generation, data@.take(0))) =~= q0);
        }
        while at < data.len()
            invariant
                self.wf(),
                self.incoming() == old(self).incoming(),
                self.ended() == old(self).ended(),
                old(self).is_compacted() ==> self.is_compacted(),
                at <= data@.len(),
                at == data@.len() || at as int % MAX_AGENT_DATA as int == 0,
                self.outgoing() == q0 + bytes_of(agent_chunks(generation, data@.take(at as int))),
            decreases data@.len() - at,
        {
            let left: usize = data.len() - at;
            let n: usize = if left <= MAX_AGENT_DATA {
                left
            } else {
                MAX_AGENT_DATA
            };
            let part: &[u8] = vstd::slice::slice_subrange(data, at, at + n);
            let frame: Frame<'_> = Frame::AgentData { generation, data: part };
            proof {
                lemma_agent_frame(generation, part@);
                lemma_agent_chunks_push(generation, data@, at as int, n as int);
                lemma_bytes_push(agent_chunks(generation, data@.take(at as int)), frame@);
            }
            self.send(&frame);
            proof {
                assert(self.outgoing() =~= q0 + bytes_of(
                    agent_chunks(generation, data@.take(at + n)),
                ));
                if n == MAX_AGENT_DATA {
                    assert((at + n) as int % MAX_AGENT_DATA as int == 0) by {
                        vstd::arithmetic::div_mod::lemma_mod_add_multiples_vanish(
                            at as int,
                            MAX_AGENT_DATA as int,
                        );
                    }
                }
            }
            at += n;
        }
        assert(data@.take(data@.len() as int) =~= data@);
    }

    /// Whether another read is wanted: what is already undecoded is under
    /// [`MAX_PENDING_READ`].
    pub fn wants_input(&self) -> (r: bool)
        requires
            self.wf(),
        ensures
            r == (self.incoming().len() < MAX_PENDING_READ),
    {
        self.buffered() < MAX_PENDING_READ
    }

    /// Takes in what one read came back with, and says whether to read on: until the cap
    /// is reached, the peer's end is met, or the socket has nothing more.
    pub fn fill(&mut self, got: Received<'_>) -> (r: Step)
        requires
            old(self).wf(),
        ensures
            final(self).wf(),
            final(self).outgoing() == old(self).outgoing(),
            final(self).is_compacted() == old(self).is_compacted(),
            match got {
                Received::Bytes(bytes) => {
                    &&& final(self).incoming() == old(self).incoming() + bytes@
                    &&& final(self).ended() == (old(self).ended() || bytes@.len() == 0)
                    &&& r == if bytes@.len() == 0 || final(self).incoming().len()
                        >= MAX_PENDING_READ {
                        Step::Done
                    } else {
                        Step::Again
                    }
                },
                Received::WouldBlock => {
                    &&& r == Step::Done
                    &&& final(self).incoming() == old(self).incoming()
                    &&& final(self).ended() == old(self).ended()
                },
                Received::Interrupted => {
                    &&& r == Step::Again
                    &&& final(self).incoming() == old(self).incoming()
                    &&& final(self).ended() == old(self).ended()
                },
                Received::Failed => {
                    &&& r == Step::Failed
                    &&& final(self).incoming() == old(self).incoming()
                    &&& final(self).ended() == old(self).ended()
                },
            },
    {
        match got {
            Received::Bytes(bytes) => {
                if bytes.len() == 0 {
                    self.eof = true;
                    assert(self.incoming() =~= old(self).incoming() + bytes@);
                    Step::Done
                } else {
                    put_bytes(&mut self.rx, bytes);
                    assert(self.incoming() =~= old(self).incoming() + bytes@);
                    if self.wants_input() {
                        Step::Again
                    } else {
                        Step::Done
                    }
                }
            },
            Received::WouldBlock => Step::Done,
            Received::Interrupted => Step::Again,
            Received::Failed => Step::Failed,
        }
    }

    /// Takes out of the queue what one write took, and says whether to write on: until the
    /// queue is empty or the socket has no room. A pass that ends well leaves the queue
    /// compacted, and an emptied one given back.
    pub fn flush_some(&mut self, took: Written) -> (r: Step)
        requires
            old(self).wf(),
            took matches Written::Took(n) ==> n <= old(self).outgoing().len(),
        ensures
            final(self).wf(),
            final(self).incoming() == old(self).incoming(),
            final(self).ended() == old(self).ended(),
            r == Step::Done ==> final(self).is_compacted(),
            match took {
                Written::Took(n) => {
                    &&& final(self).outgoing() == old(self).outgoing().skip(n as int)
                    &&& r == if n == 0 {
                        Step::WriteZero
                    } else if n == old(self).outgoing().len() {
                        Step::Done
                    } else {
                        Step::Again
                    }
                },
                Written::WouldBlock => {
                    r == Step::Done && final(self).outgoing() == old(self).outgoing()
                },
                Written::Interrupted => {
                    r == Step::Again && final(self).outgoing() == old(self).outgoing()
                },
                Written::Failed => {
                    r == Step::Failed && final(self).outgoing() == old(self).outgoing()
                },
            },
    {
        match took {
            Written::Took(n) => {
                if n == 0 {
                    assert(self.outgoing() =~= old(self).outgoing().skip(0));
                    return Step::WriteZero;
                }
                let len: usize = self.tx.len();
                assert(self.outgoing().len() == len - self.tx_pos);
                self.tx_pos = self.tx_pos + n;
                assert(self.outgoing() =~= old(self).outgoing().skip(n as int));
                if self.tx_pos == len {
                    compact(&mut self.tx, &mut self.tx_pos, RETAINED_CAPACITY);
                    Step::Done
                } else {
                    Step::Again
                }
            },
            Written::WouldBlock => {
                compact(&mut self.tx, &mut self.tx_pos, RETAINED_CAPACITY);
                Step::Done
            },
            Written::Interrupted => Step::Again,
            Written::Failed => Step::Failed,
        }
    }

    /// The queue carries nothing that is already delivered, or less of that than is still to
    /// be.
    pub closed spec fn is_compacted(&self) -> bool {
        compacted(self.tx@.len(), self.tx_pos as nat)
    }

    /// The receive buffer carries nothing that is already decoded, or less of that than is
    /// still to be.
    pub closed spec fn input_is_compacted(&self) -> bool {
        compacted(self.rx@.len(), self.rx_pos as nat)
    }

    /// How many bytes the queue holds on to, and how many of them are already delivered.
    pub fn queue_held(&self) -> (r: (usize, usize))
        requires
            self.wf(),
        ensures
            r.0 - r.1 == self.outgoing().len(),
            self.is_compacted() == compacted(r.0 as nat, r.1 as nat),
    {
        (self.tx.len(), self.tx_pos)
    }

    /// How many bytes the receive buffer holds on to, and how many of them are already
    /// decoded.
    pub fn input_held(&self) -> (r: (usize, usize))
        requires
            self.wf(),
        ensures
            r.0 - r.1 == self.incoming().len(),
            self.input_is_compacted() == compacted(r.0 as nat, r.1 as nat),
    {
        (self.rx.len(), self.rx_pos)
    }

    /// What delivering the queue does next, at `now` and by `deadline`: nothing once it is
    /// empty, nothing once the time is up, and otherwise one more write within what is
    /// left of it.
    pub fn flush_final(&mut self, now: u64, deadline: u64) -> (r: FinalStep)
        requires
            old(self).wf(),
        ensures
            final(self).wf(),
            final(self).outgoing() == old(self).outgoing(),
            final(self).incoming() == old(self).incoming(),
            final(self).ended() == old(self).ended(),
            r == FinalStep::Flushed ==> final(self).is_compacted(),
            r == if old(self).outgoing().len() == 0 {
                FinalStep::Flushed
            } else if now >= deadline {
                FinalStep::TimedOut
            } else {
                FinalStep::Write { within: (deadline - now) as u64 }
            },
    {
        if self.tx_pos == self.tx.len() {
            self.tx.clear();
            self.tx_pos = 0;
            assert(self.outgoing() =~= old(self).outgoing());
            FinalStep::Flushed
        } else if now >= deadline {
            FinalStep::TimedOut
        } else {
            FinalStep::Write { within: deadline - now }
        }
    }

    /// Leaves `frame` as the last thing this connection will ever carry — or, with `None`,
    /// whatever is already queued.
    ///
    /// A `frame` replaces the queue rather than joining it: a reattaching client replays
    /// from the ring, and a small final write is what completes against a peer that is
    /// barely reading.
    pub fn close_with(&mut self, frame: Option<&Frame<'_>>)
        requires
            old(self).wf(),
        ensures
            final(self).wf(),
            final(self).incoming() == old(self).incoming(),
            final(self).ended() == old(self).ended(),
            old(self).is_compacted() ==> final(self).is_compacted(),
            final(self).outgoing() == match frame {
                None => old(self).outgoing(),
                Some(last) => if last@.refusal() is None {
                    last@.bytes()
                } else {
                    Seq::empty()
                },
            },
    {
        match frame {
            None => {},
            Some(last) => {
                self.tx.clear();
                self.tx_pos = 0;
                assert(self.outgoing() =~= Seq::<u8>::empty());
                self.send(last);
                assert(Seq::<u8>::empty() + last@.bytes() =~= last@.bytes());
            },
        }
    }

    /// Removes one complete frame from the receive buffer, copying its payload into
    /// `scratch`, or `None` where no complete frame is buffered yet. A header that cannot
    /// be parsed is reported and left where it is.
    pub fn take_frame(&mut self, scratch: &mut Vec<u8>) -> (r: Result<
        Option<FrameType>,
        ProtoError,
    >)
        requires
            old(self).wf(),
        ensures
            final(self).wf(),
            final(self).outgoing() == old(self).outgoing(),
            final(self).ended() == old(self).ended(),
            final(self).is_compacted() == old(self).is_compacted(),
            match first_frame(old(self).incoming()) {
                Err(e) => {
                    &&& r == Err::<Option<FrameType>, ProtoError>(e)
                    &&& final(self).incoming() == old(self).incoming()
                    &&& final(scratch)@ == old(scratch)@
                },
                Ok(None) => {
                    &&& r == Ok::<Option<FrameType>, ProtoError>(None)
                    &&& final(self).incoming() == old(self).incoming()
                    &&& final(scratch)@ == old(scratch)@
                },
                Ok(Some((ty, payload, rest))) => {
                    &&& r == Ok::<Option<FrameType>, ProtoError>(Some(ty))
                    &&& final(self).incoming() == rest
                    &&& final(scratch)@ == payload
                    &&& final(self).input_is_compacted()
                },
            },
    {
        let ghost q = self.incoming();
        let at: usize = self.rx_pos;
        if self.rx.len() - at < HEADER_LEN {
            return Ok(None);
        }
        let head: [u8; 4] = [self.rx[at], self.rx[at + 1], self.rx[at + 2], self.rx[at + 3]];
        assert(head@ =~= q.subrange(0, 4));
        let header: Header = match decode_header(&head) {
            Ok(header) => header,
            Err(e) => {
                return Err(e);
            },
        };
        let len: usize = header.len as usize;
        if self.rx.len() - at - HEADER_LEN < len {
            return Ok(None);
        }
        scratch.clear();
        let payload: &[u8] = vstd::slice::slice_subrange(
            self.rx.as_slice(),
            at + HEADER_LEN,
            at + HEADER_LEN + len,
        );
        put_bytes(scratch, payload);
        assert(scratch@ =~= q.subrange(4, 4 + len));
        self.rx_pos = at + HEADER_LEN + len;
        assert(self.incoming() =~= q.subrange(4 + len, q.len() as int));
        compact(&mut self.rx, &mut self.rx_pos, RETAINED_INPUT);
        Ok(Some(header.ty))
    }
}

// ---------------------------------------------------------------------------
// Laws
// ---------------------------------------------------------------------------

/// Whatever a connection lives through, its receive buffer carries nothing that is already
/// decoded, or less of that than is still to be.
pub proof fn decoded_input_never_piles_up(conn: Conn)
    requires
        conn.wf(),
    ensures
        conn.input_is_compacted(),
{
}

/// The queue takes no more than it is offered.
pub(crate) proof fn lemma_output_taken(queued: nat, len: nat)
    ensures
        output_taken(queued, len) <= len,
    decreases len,
{
    if len > MAX_OUTPUT_DATA && queued < MAX_PENDING_WRITE {
        lemma_output_taken(
            queued + 12 + MAX_OUTPUT_DATA as nat,
            (len - MAX_OUTPUT_DATA) as nat,
        );
    }
}

/// An output frame within the bound can be encoded, at the size of its data and twelve
/// bytes.
pub(crate) proof fn lemma_output_frame(offset: u64, data: Seq<u8>)
    requires
        data.len() <= MAX_OUTPUT_DATA,
    ensures
        ({
            let frame = FrameModel::Output { offset, data };
            &&& frame.refusal() is None
            &&& frame.payload().len() == 8 + data.len()
            &&& frame.bytes().len() == 12 + data.len()
        }),
{
}

/// An agent frame within the bound can be encoded.
pub(crate) proof fn lemma_agent_frame(generation: u32, data: Seq<u8>)
    requires
        data.len() <= MAX_AGENT_DATA,
    ensures
        (FrameModel::AgentData { generation, data }).refusal() is None,
{
}

/// One chunk more behind whole chunks is one frame more.
proof fn lemma_output_chunks_push(offset: int, data: Seq<u8>, at: int, n: int)
    requires
        0 <= at < data.len(),
        at % MAX_OUTPUT_DATA as int == 0,
        n == if data.len() - at <= MAX_OUTPUT_DATA { data.len() - at } else { MAX_OUTPUT_DATA as int },
    ensures
        output_chunks(offset, data.take(at + n)) == output_chunks(offset, data.take(at)).push(
            FrameModel::Output { offset: (offset + at) as u64, data: data.subrange(at, at + n) },
        ),
    decreases at,
{
    let m = MAX_OUTPUT_DATA as int;
    let longer = data.take(at + n);
    let shorter = data.take(at);
    if at == 0 {
        assert(shorter =~= Seq::empty());
        assert(longer.skip(n) =~= Seq::empty());
        assert(longer.take(n) =~= data.subrange(0, n));
        assert(output_chunks(offset + n, longer.skip(n)) =~= Seq::empty());
        assert(output_chunks(offset, longer) =~= seq![
            FrameModel::Output { offset: offset as u64, data: data.subrange(0, n) },
        ]);
        assert(output_chunks(offset, shorter).push(
            FrameModel::Output { offset: offset as u64, data: data.subrange(0, n) },
        ) =~= seq![FrameModel::Output { offset: offset as u64, data: data.subrange(0, n) }]);
    } else {
        assert(at >= m) by (nonlinear_arith)
            requires
                at > 0,
                at % m == 0,
                m > 0,
        ;
        assert((at - m) % m == 0) by {
            vstd::arithmetic::div_mod::lemma_mod_sub_multiples_vanish(at, m);
        }
        let rest = data.skip(m);
        lemma_output_chunks_push(offset + m, rest, at - m, n);
        assert(longer.skip(m) =~= rest.take(at - m + n));
        assert(shorter.skip(m) =~= rest.take(at - m));
        assert(longer.take(m) =~= shorter.take(m));
        assert(rest.subrange(at - m, at - m + n) =~= data.subrange(at, at + n));
        if shorter.len() == m {
            assert(shorter.take(m) =~= shorter);
        }
        assert(output_chunks(offset, longer) =~= output_chunks(offset, shorter).push(
            FrameModel::Output { offset: (offset + at) as u64, data: data.subrange(at, at + n) },
        ));
    }
}

/// One chunk more behind whole chunks is one frame more.
proof fn lemma_agent_chunks_push(generation: u32, data: Seq<u8>, at: int, n: int)
    requires
        0 <= at < data.len(),
        at % MAX_AGENT_DATA as int == 0,
        n == if data.len() - at <= MAX_AGENT_DATA { data.len() - at } else { MAX_AGENT_DATA as int },
    ensures
        agent_chunks(generation, data.take(at + n)) == agent_chunks(
            generation,
            data.take(at),
        ).push(FrameModel::AgentData { generation, data: data.subrange(at, at + n) }),
    decreases at,
{
    let m = MAX_AGENT_DATA as int;
    let longer = data.take(at + n);
    let shorter = data.take(at);
    let frame = FrameModel::AgentData { generation, data: data.subrange(at, at + n) };
    if at == 0 {
        assert(shorter =~= Seq::empty());
        assert(longer.skip(n) =~= Seq::empty());
        assert(longer.take(n) =~= data.subrange(0, n));
        assert(agent_chunks(generation, longer.skip(n)) =~= Seq::empty());
        assert(agent_chunks(generation, longer) =~= seq![frame]);
        assert(agent_chunks(generation, shorter).push(frame) =~= seq![frame]);
    } else {
        assert(at >= m) by (nonlinear_arith)
            requires
                at > 0,
                at % m == 0,
                m > 0,
        ;
        assert((at - m) % m == 0) by {
            vstd::arithmetic::div_mod::lemma_mod_sub_multiples_vanish(at, m);
        }
        let rest = data.skip(m);
        lemma_agent_chunks_push(generation, rest, at - m, n);
        assert(longer.skip(m) =~= rest.take(at - m + n));
        assert(shorter.skip(m) =~= rest.take(at - m));
        assert(longer.take(m) =~= shorter.take(m));
        assert(rest.subrange(at - m, at - m + n) =~= data.subrange(at, at + n));
        assert(agent_chunks(generation, longer) =~= agent_chunks(generation, shorter).push(frame));
    }
}

/// A payload behind its header is the first frame of whatever it stands at the head of.
proof fn lemma_first_frame(ty: FrameType, payload: Seq<u8>, rest: Seq<u8>)
    requires
        payload.len() <= MAX_PAYLOAD,
    ensures
        first_frame(header_bytes(ty.number(), payload.len() as u32) + payload + rest) == Ok::<
            Option<(FrameType, Seq<u8>, Seq<u8>)>,
            ProtoError,
        >(Some((ty, payload, rest))),
{
    let len = payload.len() as u32;
    let q = header_bytes(ty.number(), len) + payload + rest;
    assert(q.subrange(0, 4) =~= header_bytes(ty.number(), len));
    crate::header::headers_round_trip(ty, len);
    assert(q.subrange(4, 4 + len) =~= payload);
    assert(q.subrange(4 + len, q.len() as int) =~= rest);
}

/// A frame that was encoded is the first frame of whatever it stands at the head of, and
/// decodes to what it said.
pub proof fn a_whole_frame_comes_off_the_front(frame: FrameModel, rest: Seq<u8>)
    requires
        frame.refusal() is None,
    ensures
        first_frame(frame.bytes() + rest) == Ok::<
            Option<(FrameType, Seq<u8>, Seq<u8>)>,
            ProtoError,
        >(Some((frame.ty(), frame.payload(), rest))),
        frame.is_text() ==> decoded(frame.ty(), frame.payload()) == Ok::<FrameModel, ProtoError>(
            frame,
        ),
{
    lemma_first_frame(frame.ty(), frame.payload(), rest);
    if frame.is_text() {
        decode_inverts_encode(frame);
    }
}

/// Part of a frame is nothing yet, wherever it was cut: the bytes are kept for the rest of
/// their frame rather than decoded or dropped.
pub proof fn a_partial_frame_waits(frame: FrameModel, split: int)
    requires
        frame.refusal() is None,
        0 <= split < frame.bytes().len(),
    ensures
        first_frame(frame.bytes().take(split)) == Ok::<
            Option<(FrameType, Seq<u8>, Seq<u8>)>,
            ProtoError,
        >(None),
{
    let q = frame.bytes().take(split);
    let len = frame.payload().len() as u32;
    if split >= 4 {
        assert(q.subrange(0, 4) =~= header_bytes(frame.ty().number(), len));
        crate::header::headers_round_trip(frame.ty(), len);
    }
}

/// The frames a row of bytes holds, as far as they are whole and well-formed.
pub open spec fn frames_in(q: Seq<u8>) -> Seq<FrameModel>
    decreases q.len(),
{
    match first_frame(q) {
        Ok(Some((ty, payload, rest))) => match decoded(ty, payload) {
            Ok(frame) => if rest.len() < q.len() {
                seq![frame] + frames_in(rest)
            } else {
                Seq::empty()
            },
            Err(_) => Seq::empty(),
        },
        _ => Seq::empty(),
    }
}

/// Every frame of the row can be put on the wire.
pub open spec fn all_encodable(frames: Seq<FrameModel>) -> bool {
    forall|i: int|
        0 <= i < frames.len() ==> (#[trigger] frames[i]).refusal() is None && frames[i].is_text()
}

/// A stream of frames comes apart into the frames it was put together from, whatever
/// sizes it arrived in: what is buffered is the bytes, and the bytes alone decide.
pub proof fn a_stream_of_frames_reassembles(frames: Seq<FrameModel>)
    requires
        all_encodable(frames),
    ensures
        frames_in(bytes_of(frames)) == frames,
    decreases frames.len(),
{
    if frames.len() == 0 {
        assert(frames_in(bytes_of(frames)) =~= frames);
    } else {
        let rest = frames.drop_first();
        let first = frames[0];
        assert(all_encodable(rest)) by {
            assert forall|i: int| 0 <= i < rest.len() implies (#[trigger] rest[i]).refusal() is None
                && rest[i].is_text() by {
                assert(rest[i] == frames[i + 1]);
            }
        }
        a_stream_of_frames_reassembles(rest);
        assert(frames =~= seq![first] + rest);
        lemma_bytes_concat(seq![first], rest);
        assert(seq![first].drop_last() =~= Seq::empty());
        assert(bytes_of(seq![first]) =~= first.bytes()) by {
            reveal_with_fuel(bytes_of, 2);
        }
        a_whole_frame_comes_off_the_front(first, bytes_of(rest));
        assert(seq![first] + frames_in(bytes_of(rest)) =~= frames);
    }
}

/// The output bytes a row of frames carries.
pub open spec fn output_data(frames: Seq<FrameModel>) -> Seq<u8>
    decreases frames.len(),
{
    if frames.len() == 0 {
        Seq::empty()
    } else {
        (match frames[0] {
            FrameModel::Output { data, .. } => data,
            _ => Seq::empty(),
        }) + output_data(frames.drop_first())
    }
}

/// Output frames that begin at `offset` and follow each other without a hole.
pub open spec fn contiguous(frames: Seq<FrameModel>, offset: int) -> bool
    decreases frames.len(),
{
    frames.len() > 0 ==> {
        &&& frames[0] matches FrameModel::Output { offset: at, data } && at == offset
        &&& contiguous(frames.drop_first(), offset + frames[0]->Output_data.len())
    }
}

/// Output is cut into frames that can all be encoded, follow each other without a hole,
/// and carry exactly the bytes that went in.
pub proof fn output_is_cut_without_loss(offset: int, data: Seq<u8>)
    requires
        0 <= offset,
        offset + data.len() <= u64::MAX,
    ensures
        all_encodable(output_chunks(offset, data)),
        contiguous(output_chunks(offset, data), offset),
        output_data(output_chunks(offset, data)) == data,
    decreases data.len(),
{
    if data.len() > 0 {
        let n = if data.len() <= MAX_OUTPUT_DATA {
            data.len() as int
        } else {
            MAX_OUTPUT_DATA as int
        };
        let first = FrameModel::Output { offset: offset as u64, data: data.take(n) };
        let rest = output_chunks(offset + n, data.skip(n));
        output_is_cut_without_loss(offset + n, data.skip(n));
        lemma_output_frame(offset as u64, data.take(n));
        let all = seq![first] + rest;
        assert(all.drop_first() =~= rest);
        assert(data.take(n) + data.skip(n) =~= data);
        assert forall|i: int| 0 <= i < all.len() implies (#[trigger] all[i]).refusal() is None
            && all[i].is_text() by {
            if i > 0 {
                assert(all[i] == rest[i - 1]);
            }
        }
    }
}

/// The agent bytes a row of frames carries for `generation`.
pub open spec fn agent_data(frames: Seq<FrameModel>, generation: u32) -> Seq<u8>
    decreases frames.len(),
{
    if frames.len() == 0 {
        Seq::empty()
    } else {
        (match frames[0] {
            FrameModel::AgentData { generation: named, data } => if named == generation {
                data
            } else {
                Seq::empty()
            },
            _ => Seq::empty(),
        }) + agent_data(frames.drop_first(), generation)
    }
}

/// Agent bytes are cut into frames that can all be encoded and carry exactly what went in.
pub proof fn agent_data_is_cut_without_loss(generation: u32, data: Seq<u8>)
    ensures
        all_encodable(agent_chunks(generation, data)),
        agent_data(agent_chunks(generation, data), generation) == data,
    decreases data.len(),
{
    if data.len() > 0 {
        let n = if data.len() <= MAX_AGENT_DATA {
            data.len() as int
        } else {
            MAX_AGENT_DATA as int
        };
        let first = FrameModel::AgentData { generation, data: data.take(n) };
        let rest = agent_chunks(generation, data.skip(n));
        agent_data_is_cut_without_loss(generation, data.skip(n));
        lemma_agent_frame(generation, data.take(n));
        let all = seq![first] + rest;
        assert(all.drop_first() =~= rest);
        assert(data.take(n) + data.skip(n) =~= data);
        assert forall|i: int| 0 <= i < all.len() implies (#[trigger] all[i]).refusal() is None
            && all[i].is_text() by {
            if i > 0 {
                assert(all[i] == rest[i - 1]);
            }
        }
    }
}

/// A whole frame always fits under the read cap, so a reader that stops at the cap can
/// always complete the frame it is holding.
pub proof fn the_read_cap_has_room_for_a_whole_frame(frame: FrameModel)
    requires
        frame.refusal() is None,
    ensures
        frame.bytes().len() <= HEADER_LEN + MAX_PAYLOAD,
        frame.bytes().len() < MAX_PENDING_READ,
{
}

} // verus!
