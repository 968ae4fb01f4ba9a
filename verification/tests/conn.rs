//! The buffers of a framed connection.

use std::collections::VecDeque;

use nomux::conn::{
    Conn, FinalStep, Received, Step, Written, FINAL_FLUSH_TIMEOUT, MAX_PENDING_READ,
    MAX_PENDING_WRITE,
};
use nomux::{
    ErrorCode, Frame, Hello, HelloOk, ProtoError, WinSize, HEADER_LEN, MAX_OUTPUT_DATA,
    PROTOCOL_VERSION, RESUME_FROM_START,
};

const WIN: WinSize = WinSize {
    cols: 120,
    rows: 40,
    xpixel: 960,
    ypixel: 640,
};

/// The most a single read can take.
const READ_CHUNK: usize = 64 * 1024;

/// How much the socket between the two holds.
const SOCKET: usize = 200 * 1024;

/// The other end of a connection, and the socket between the two.
struct Peer {
    /// On its way to the connection.
    inbound: VecDeque<u8>,
    /// On its way from it.
    outbound: VecDeque<u8>,
    /// Whether this end is gone.
    closed: bool,
}

impl Peer {
    /// Writes what the socket takes.
    fn write(&mut self, bytes: &[u8]) -> usize {
        let n = bytes.len().min(SOCKET - self.inbound.len());
        self.inbound.extend(&bytes[..n]);
        n
    }

    /// Reads one bufferful.
    fn sip(&mut self, into: &mut Vec<u8>) -> usize {
        let n = self.outbound.len().min(64 * 1024);
        into.extend(self.outbound.drain(..n));
        n
    }

    /// Reads everything the socket holds.
    fn drain(&mut self, into: &mut Vec<u8>) -> usize {
        let n = self.outbound.len();
        into.extend(self.outbound.drain(..));
        n
    }
}

fn pair() -> (Peer, Conn) {
    (
        Peer {
            inbound: VecDeque::new(),
            outbound: VecDeque::new(),
            closed: false,
        },
        Conn::new(),
    )
}

/// Reads whatever the socket has available, as the event loop does.
fn fill(peer: &mut Peer, conn: &mut Conn) {
    while conn.wants_input() {
        let n = peer.inbound.len().min(READ_CHUNK);
        let chunk: Vec<u8> = peer.inbound.drain(..n).collect();
        let got = if n == 0 && !peer.closed {
            Received::WouldBlock
        } else {
            Received::Bytes(&chunk)
        };
        if conn.fill(got) != Step::Again {
            return;
        }
    }
}

/// Writes as much of the queue as the socket accepts.
fn flush(peer: &mut Peer, conn: &mut Conn) -> Step {
    loop {
        if conn.queued() == 0 {
            return Step::Done;
        }
        let n = conn.pending().len().min(SOCKET - peer.outbound.len());
        let took = if n == 0 {
            Written::WouldBlock
        } else {
            peer.outbound.extend(&conn.pending()[..n]);
            Written::Took(n)
        };
        match conn.flush_some(took) {
            Step::Again => {}
            step => return step,
        }
    }
}

/// Hands every byte of `bytes` to `conn`, filling whenever the socket is full.
fn feed(peer: &mut Peer, conn: &mut Conn, bytes: &[u8]) {
    let mut sent = 0;
    while sent < bytes.len() {
        sent += peer.write(&bytes[sent..]);
        if sent < bytes.len() {
            let before = conn.buffered();
            fill(peer, conn);
            assert!(conn.buffered() > before, "neither side can move");
        }
    }
    fill(peer, conn);
}

/// Takes one frame and decodes it out of the scratch buffer.
fn take<'a>(conn: &mut Conn, scratch: &'a mut Vec<u8>) -> Option<Frame<'a>> {
    let ty = conn.take_frame(scratch).expect("a well-formed header")?;
    Some(Frame::decode(ty, scratch).expect("a well-formed payload"))
}

fn encoded(frame: &Frame<'_>) -> Vec<u8> {
    let mut wire = Vec::new();
    frame.encode(&mut wire).expect("a valid frame");
    wire
}

/// A payload whose every byte is a function of its position.
fn bulk(len: usize) -> Vec<u8> {
    (0..len)
        .map(|i| u8::try_from(i % 251).unwrap_or(0))
        .collect()
}

/// One frame of each shape the reassembler has to handle: empty, fixed-size, and both
/// variable-length forms.
fn samples(payload: &[u8]) -> [Frame<'_>; 6] {
    [
        Frame::Detach,
        Frame::Resize(WIN),
        Frame::HelloOk(HelloOk {
            resume_from: 9,
            in_applied: 4,
            agent: true,
        }),
        Frame::Hello(Hello {
            protocol: PROTOCOL_VERSION,
            agent_forward: true,
            repaint_ctrl_l: false,
            if_detached: false,
            out_offset: RESUME_FROM_START,
            win: WIN,
            term: "xterm-256color",
        }),
        Frame::Input {
            offset: 1 << 33,
            data: payload,
        },
        Frame::AgentData {
            generation: 3,
            data: &payload[..7],
        },
    ]
}

/// Whatever is dead is smaller than what is live.
fn compacted((len, pos): (usize, usize)) -> bool {
    pos == 0 || pos * 2 < len
}

/// Every frame split at every possible point into two writes: reassembly must not depend on
/// where the read boundary landed, header or payload.
#[test]
fn every_split_point_reassembles_the_same_frame() {
    let payload = bulk(300);
    let mut scratch = Vec::new();
    for frame in samples(&payload) {
        let wire = encoded(&frame);
        for split in 1..wire.len() {
            let (mut peer, mut conn) = pair();
            feed(&mut peer, &mut conn, &wire[..split]);
            assert!(
                matches!(conn.take_frame(&mut scratch), Ok(None)),
                "{frame:?} completed on {split} of {} bytes",
                wire.len()
            );
            assert_eq!(conn.buffered(), split, "every byte given must be kept");

            feed(&mut peer, &mut conn, &wire[split..]);
            assert_eq!(
                take(&mut conn, &mut scratch),
                Some(frame),
                "{frame:?} split at {split}"
            );
            assert_eq!(&scratch[..], &wire[HEADER_LEN..], "payload at {split}");
        }
    }
}

/// A peer that goes on writing is stopped at the read cap with the rest of what it wrote
/// still in the socket; the decode-and-fill at the end proves the fills stopped on the cap
/// rather than on an empty socket.
#[test]
fn a_peer_that_keeps_writing_is_stopped_at_the_read_cap() {
    // One byte short of the cap, so exactly one read crosses it.
    let preload = MAX_PENDING_READ - 1;
    let payload = bulk(60 * 1024);
    let mut wire = Vec::new();
    let mut offset = 0;
    while wire.len() < preload + 8 * READ_CHUNK {
        Frame::Input {
            offset,
            data: &payload,
        }
        .encode(&mut wire)
        .expect("a valid frame");
        offset += payload.len() as u64;
    }

    let (mut peer, mut conn) = pair();
    feed(&mut peer, &mut conn, &wire[..preload]);
    assert_eq!(conn.buffered(), preload, "every byte given must be kept");
    assert!(
        conn.buffered() < MAX_PENDING_READ,
        "a byte short of the cap is not the cap"
    );

    let staged = peer.write(&wire[preload..]);
    assert!(
        staged > READ_CHUNK,
        "the socket took {staged} bytes, which one read empties"
    );

    fill(&mut peer, &mut conn);
    let taken = conn.buffered() - preload;
    assert!(
        conn.buffered() >= MAX_PENDING_READ,
        "the fill stopped short of the cap"
    );
    assert!(
        taken <= READ_CHUNK,
        "the fill took {taken} of the {staged} bytes waiting"
    );

    fill(&mut peer, &mut conn);
    assert_eq!(
        conn.buffered() - preload,
        taken,
        "a fill that starts at the cap must take nothing"
    );

    let mut scratch = Vec::new();
    while conn.buffered() >= MAX_PENDING_READ {
        assert!(
            take(&mut conn, &mut scratch).is_some(),
            "the cap must leave room for a whole frame, or nothing here ever completes"
        );
    }
    let under_cap = conn.buffered();
    fill(&mut peer, &mut conn);
    assert!(
        conn.buffered() > under_cap,
        "nothing was left for this fill to take"
    );
}

/// Output is cut at exactly the largest frame the protocol allows; read back through a
/// second connection it has to reassemble into the bytes that went in, contiguously.
#[test]
fn send_output_chunks_at_exactly_the_maximum_payload() {
    let chunk = MAX_OUTPUT_DATA;
    let data = bulk(2 * chunk + 1000);
    let (mut peer, mut sender) = pair();
    let mut reader = Conn::new();

    let end = sender.send_output(7, &data);
    assert_eq!(end, 7 + data.len() as u64, "the whole slice fits the queue");

    let mut scratch = Vec::new();
    let mut lens = Vec::new();
    let mut got = Vec::new();
    let mut next = 7;
    while sender.queued() > 0 || reader.buffered() > 0 {
        let before = (sender.queued(), reader.buffered());
        assert_eq!(flush(&mut peer, &mut sender), Step::Done);
        let mut moved = Vec::new();
        peer.drain(&mut moved);
        peer.inbound.extend(moved);
        fill(&mut peer, &mut reader);
        while let Some(frame) = take(&mut reader, &mut scratch) {
            let Frame::Output { offset, data } = frame else {
                panic!("expected Output, got {frame:?}");
            };
            assert_eq!(offset, next, "output offsets must be contiguous");
            next += data.len() as u64;
            lens.push(data.len());
            got.extend_from_slice(data);
        }
        assert_ne!(
            before,
            (sender.queued(), reader.buffered()),
            "neither side moved"
        );
    }

    assert_eq!(lens, vec![MAX_OUTPUT_DATA, chunk, 1000]);
    assert!(got == data, "the reassembled stream must be what went in");
}

/// Several whole frames and a partial one in a single read: the trailing bytes must be kept
/// for the rest of their frame rather than decoded or dropped.
#[test]
fn one_read_carrying_several_frames_ends_on_a_partial_one() {
    let payload = bulk(300);
    let frames = samples(&payload);
    let mut wire = Vec::new();
    for frame in &frames {
        frame.encode(&mut wire).expect("a valid frame");
    }
    let tail_at = wire.len();
    let tail = Frame::Error {
        code: ErrorCode::Takeover,
        message: "another client attached",
    };
    tail.encode(&mut wire).expect("a valid frame");

    let (mut peer, mut conn) = pair();
    let mut scratch = Vec::new();
    // Three bytes short of even a header, so the cut is inside the fixed part.
    feed(&mut peer, &mut conn, &wire[..tail_at + 3]);
    for frame in &frames {
        assert_eq!(take(&mut conn, &mut scratch).as_ref(), Some(frame));
    }
    assert!(
        matches!(conn.take_frame(&mut scratch), Ok(None)),
        "three bytes of a header are not a frame"
    );
    assert!(conn.buffered() > 0, "the stump must be kept");

    feed(&mut peer, &mut conn, &wire[tail_at + 3..]);
    assert_eq!(take(&mut conn, &mut scratch), Some(tail));
    assert_eq!(conn.buffered(), 0);
}

/// A header that cannot be parsed is reported without being consumed.
#[test]
fn an_unparseable_header_is_reported_without_consuming_it() {
    let (mut peer, mut conn) = pair();
    let mut scratch = Vec::new();
    feed(&mut peer, &mut conn, &[0x00, 0x00, 0x00, 0x00]);
    assert_eq!(
        conn.take_frame(&mut scratch),
        Err(ProtoError::UnknownFrameType(0x00))
    );
    assert_eq!(conn.buffered(), HEADER_LEN, "the bad header must stay put");
}

/// A stream of frames read in chunks that never end on a frame boundary: the receive buffer
/// must be compacted back down rather than grow with the session.
#[test]
fn the_receive_buffer_is_compacted_rather_than_grown() {
    let payload = bulk(64);
    let one = encoded(&Frame::Input {
        offset: 0,
        data: &payload,
    });
    let rounds = 400;
    let stream: Vec<u8> = one
        .iter()
        .copied()
        .cycle()
        .take(rounds * one.len())
        .collect();

    let (mut peer, mut conn) = pair();
    let mut scratch = Vec::new();
    let (mut frames, mut halvings, mut high_water) = (0usize, 0usize, 0usize);
    for chunk in stream.chunks(1000) {
        feed(&mut peer, &mut conn, chunk);
        while take(&mut conn, &mut scratch).is_some() {
            frames += 1;
            let (len, pos) = conn.input_held();
            assert!(
                compacted((len, pos)),
                "{pos} dead bytes under {} live ones",
                conn.buffered()
            );
            if pos == 0 && len > 0 {
                halvings += 1;
            }
            high_water = high_water.max(len);
        }
    }

    assert_eq!(frames, rounds, "every frame must come back out");
    assert!(halvings > 0, "the halving branch never ran");
    assert!(
        high_water <= 1000 + 2 * one.len(),
        "the buffer reached {high_water} bytes over {} read",
        stream.len()
    );
}

/// A peer that reads slower than the daemon queues: a flush makes partial progress and hands
/// the rest back, the queue is compacted instead of growing with the session, and every byte
/// still arrives in order.
#[test]
fn a_slow_peer_gets_every_byte_and_the_send_queue_stays_bounded() {
    let payload = bulk(4096);
    let frame_len = HEADER_LEN + 8 + payload.len();
    let (mut peer, mut conn) = pair();
    let (mut expected, mut got) = (Vec::new(), Vec::new());
    let (mut offset, mut short_writes, mut halvings, mut high_water) = (0u64, 0usize, 0, 0);

    let rounds = 128;
    for _ in 0..rounds {
        while conn.queued() < MAX_PENDING_WRITE {
            let frame = Frame::Output {
                offset,
                data: &payload,
            };
            conn.send(&frame);
            frame.encode(&mut expected).expect("a valid frame");
            offset += payload.len() as u64;
        }
        assert_eq!(flush(&mut peer, &mut conn), Step::Done);
        let (len, pos) = conn.queue_held();
        assert!(
            compacted((len, pos)),
            "{pos} dead bytes under {} live ones",
            conn.queued()
        );
        if pos == 0 && len > 0 {
            halvings += 1;
        }
        if conn.queued() > 0 {
            short_writes += 1;
        }
        high_water = high_water.max(len);
        assert!(peer.sip(&mut got) > 0, "the peer read nothing");
    }

    while conn.queued() > 0 {
        assert_eq!(flush(&mut peer, &mut conn), Step::Done);
        assert!(
            peer.drain(&mut got) > 0 || conn.queued() == 0,
            "nothing moved"
        );
    }
    peer.drain(&mut got);

    assert_eq!(
        short_writes, rounds,
        "every write here should be a short one"
    );
    assert!(halvings > 0, "the halving branch never ran");
    assert!(
        high_water < 2 * (MAX_PENDING_WRITE + frame_len),
        "the queue reached {high_water} bytes over {} written",
        expected.len()
    );
    assert!(got == expected, "every byte must arrive, once and in order");
    assert_eq!(conn.queue_held(), (0, 0), "a drained queue must be given back");
}

/// A peer that closes mid-frame: the half-frame must never be handed over, and the end of
/// file must be reported.
#[test]
fn an_end_of_file_mid_frame_never_yields_the_frame() {
    let payload = bulk(100);
    let wire = encoded(&Frame::Input {
        offset: 5,
        data: &payload,
    });
    let mut scratch = Vec::new();

    // Once cut inside the payload, once inside the header itself.
    for split in [HEADER_LEN + 10, HEADER_LEN - 2] {
        let (mut peer, mut conn) = pair();
        feed(&mut peer, &mut conn, &wire[..split]);
        assert!(!conn.is_eof(), "the peer is still there");
        peer.closed = true;
        fill(&mut peer, &mut conn);
        assert!(conn.is_eof(), "the close must be reported");
        for _ in 0..2 {
            assert!(
                matches!(conn.take_frame(&mut scratch), Ok(None)),
                "a frame whose payload never arrived must not be handed over"
            );
            assert_eq!(conn.buffered(), split, "the stump is neither used nor lost");
        }
    }
}

/// A closing frame throws the queue away: a client being closed replays from the ring
/// anyway, and a small final write is what lets it complete against a peer that is barely
/// reading.
#[test]
fn a_closing_frame_replaces_whatever_was_queued() {
    let payload = bulk(4096);
    let (mut peer, mut conn) = pair();
    for i in 0..64u64 {
        conn.send(&Frame::Output {
            offset: i * 4096,
            data: &payload,
        });
    }
    assert!(conn.queued() > 0, "there is something to throw away");

    let last = Frame::Error {
        code: ErrorCode::Takeover,
        message: "another client attached",
    };
    conn.close_with(Some(&last));
    assert_eq!(flush(&mut peer, &mut conn), Step::Done);

    let mut got = Vec::new();
    peer.drain(&mut got);
    assert!(
        got == encoded(&last),
        "only the last frame may be delivered"
    );
}

/// Closing without a frame leaves the queue to be delivered.
#[test]
fn closing_without_a_frame_keeps_the_queue() {
    let (_, mut conn) = pair();
    conn.send(&Frame::Pong);
    conn.close_with(None);
    assert_eq!(conn.pending(), encoded(&Frame::Pong));
}

/// Delivering the last frames to a peer that has stopped reading gives up on its deadline.
#[test]
fn flush_final_gives_up_on_a_peer_that_has_stopped_reading() {
    let payload = bulk(4096);
    let (mut peer, mut conn) = pair();
    while conn.queued() < MAX_PENDING_WRITE {
        conn.send(&Frame::Output {
            offset: 0,
            data: &payload,
        });
    }
    assert_eq!(flush(&mut peer, &mut conn), Step::Done);
    assert!(
        conn.queued() > 0,
        "the socket must be full to test anything"
    );

    let deadline = 1_000 + FINAL_FLUSH_TIMEOUT;
    assert_eq!(
        conn.flush_final(1_000, deadline),
        FinalStep::Write {
            within: FINAL_FLUSH_TIMEOUT
        }
    );
    assert_eq!(
        conn.flush_final(deadline - 1, deadline),
        FinalStep::Write { within: 1 }
    );
    assert_eq!(
        conn.flush_final(deadline, deadline),
        FinalStep::TimedOut,
        "a peer that never reads must not be waited on for ever"
    );
    assert!(
        conn.queued() > 0,
        "the queue is left for the caller to drop"
    );
    let mut empty = Conn::new();
    assert_eq!(empty.flush_final(deadline, deadline), FinalStep::Flushed);
}

/// A read that failed, was interrupted or found nothing keeps what is buffered, and so does
/// a write.
#[test]
fn a_failed_transfer_keeps_the_buffers() {
    let mut conn = Conn::new();
    assert_eq!(conn.fill(Received::Bytes(b"abc")), Step::Again);
    assert_eq!(conn.fill(Received::Interrupted), Step::Again);
    assert_eq!(conn.fill(Received::WouldBlock), Step::Done);
    assert_eq!(conn.fill(Received::Failed), Step::Failed);
    assert_eq!(conn.buffered(), 3);
    assert!(!conn.is_eof());

    conn.send_raw(b"xyz");
    assert_eq!(conn.flush_some(Written::Interrupted), Step::Again);
    assert_eq!(conn.flush_some(Written::WouldBlock), Step::Done);
    assert_eq!(conn.flush_some(Written::Failed), Step::Failed);
    assert_eq!(conn.flush_some(Written::Took(0)), Step::WriteZero);
    assert_eq!(conn.pending(), b"xyz");
    assert_eq!(conn.flush_some(Written::Took(2)), Step::Again);
    assert_eq!(conn.pending(), b"z");
    assert_eq!(conn.flush_some(Written::Took(1)), Step::Done);
    assert_eq!(conn.queued(), 0);
}

/// Agent bytes are cut into frames of the generation they are for, and none is lost.
#[test]
fn agent_data_is_cut_without_losing_a_byte() {
    let data = bulk(600 * 1024);
    let (mut peer, mut sender) = pair();
    let mut reader = Conn::new();
    sender.send_agent_data(9, &data);

    let mut scratch = Vec::new();
    let mut got = Vec::new();
    while sender.queued() > 0 || reader.buffered() > 0 {
        assert_eq!(flush(&mut peer, &mut sender), Step::Done);
        let mut moved = Vec::new();
        peer.drain(&mut moved);
        peer.inbound.extend(moved);
        fill(&mut peer, &mut reader);
        while let Some(frame) = take(&mut reader, &mut scratch) {
            let Frame::AgentData { generation, data } = frame else {
                panic!("expected AgentData, got {frame:?}");
            };
            assert_eq!(generation, 9);
            got.extend_from_slice(data);
        }
    }
    assert!(got == data);
}
