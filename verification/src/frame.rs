//! Frame payloads and their codec, in the layout whose greeting answer carries the
//! linger state and whose agent frames name the connection they are for.
//!
//! Decoding borrows byte and string fields from the payload it is handed, so nothing here
//! allocates but the buffer a frame is appended to.
use vstd::prelude::*;
use vstd::string::StringSliceAdditionalSpecFns;
use vstd::utf8::{encode_utf8_valid_utf8, valid_utf8};

use crate::codes::{ErrorCode, ExitKind, Linger};
use crate::header::FrameType;
use crate::wire::{
    be16, be32, be64, bit, has_nul, header_bytes, holds_at, lemma_alone, lemma_number_and_tail,
    lemma_parts, lemma_signed, lemma_u16_read, lemma_u16_written, lemma_u32_read, lemma_u32_then,
    lemma_u32_written, lemma_u64_read, lemma_u64_then, lemma_u64_written, lemma_win_read,
    lemma_win_written, patch_header, put_bytes, put_i32, put_u16, put_u32, put_u64, put_win,
    reported_len, signed, tail, u16_at, u32_at, u64_at, utf8_text, win_at, win_bytes, word_of,
    ProtoError, Reader, WinSize, MAX_PAYLOAD,
};

verus! {

/// Wire bit for [`Hello::agent_forward`].
pub const HELLO_AGENT_FORWARD: u8 = 1;

/// Wire bit for [`Hello::repaint_ctrl_l`].
pub const HELLO_REPAINT_CTRL_L: u8 = 2;

/// The only bit defined in [`HelloOk`]'s flags byte: this session is serving an agent
/// socket.
pub const HELLOOK_AGENT: u8 = 1;

/// Opening frame: what the client already has, and how big its terminal is.
#[derive(Debug, Clone, Copy, PartialEq, Eq)]
pub struct Hello<'a> {
    /// The protocol revision the client speaks, there being no negotiation.
    pub protocol: u16,
    /// Whether to serve an `ssh-agent` socket. Honoured only on the greeting that creates
    /// the session; ignored when resuming one.
    pub agent_forward: bool,
    /// Whether to repaint after a gap with `Ctrl-L` rather than a `SIGWINCH` pair.
    pub repaint_ctrl_l: bool,
    /// Next output byte the client wants, or
    /// [`RESUME_FROM_START`](crate::wire::RESUME_FROM_START).
    pub out_offset: u64,
    /// Terminal dimensions.
    pub win: WinSize,
    /// Value for the child's `TERM`. Ignored when resuming an existing session.
    pub term: &'a str,
}

/// Daemon's answer to [`Hello`].
#[derive(Debug, Clone, Copy, PartialEq, Eq, Structural)]
pub struct HelloOk {
    /// Offset the daemon will start streaming output from.
    pub resume_from: u64,
    /// Authoritative input offset; the client fast-forwards to this.
    pub in_applied: u64,
    /// Whether this session survives the user's logout.
    pub linger: Linger,
    /// Whether an agent socket is being served, so the client knows to expect
    /// [`Frame::AgentOpen`]. False when it was not asked for, and equally when the socket
    /// could not be bound.
    pub agent: bool,
}

/// A decoded protocol frame.
#[derive(Debug, Clone, Copy, PartialEq, Eq)]
pub enum Frame<'a> {
    /// See [`Hello`].
    Hello(Hello<'a>),
    /// See [`HelloOk`].
    HelloOk(HelloOk),
    /// Keystrokes at an absolute offset in the input stream.
    Input {
        /// Offset of the first byte of `data`.
        offset: u64,
        /// Raw bytes for the PTY master.
        data: &'a [u8],
    },
    /// Input the daemon has taken ownership of and will never re-apply.
    InputAck {
        /// Exclusive upper bound of applied input.
        applied_through: u64,
    },
    /// PTY output at an absolute offset in the output stream.
    Output {
        /// Offset of the first byte of `data`.
        offset: u64,
        /// Raw bytes from the PTY master.
        data: &'a [u8],
    },
    /// New terminal dimensions.
    Resize(WinSize),
    /// Output was discarded by ring overflow.
    Gap {
        /// New oldest retained offset.
        new_base_offset: u64,
    },
    /// The child terminated.
    Exit {
        /// Exit status, or signal number when `kind` is [`ExitKind::Signalled`].
        status: i32,
        /// How it terminated.
        kind: ExitKind,
        /// Whole seconds since the child let go of the terminal, saturating.
        since_exit_secs: u32,
    },
    /// Client is leaving without ending the session.
    Detach,
    /// Liveness probe.
    Ping,
    /// Liveness response. Carries nothing: the stream is ordered, so the *n*th `Pong` can
    /// only answer the *n*th [`Frame::Ping`].
    Pong,
    /// Daemon-side failure; the connection closes after this.
    Error {
        /// Machine-readable reason.
        code: ErrorCode,
        /// Human-readable detail.
        message: &'a str,
    },
    /// A process connected to the session's agent socket, and the client is to open one of
    /// its own to the real agent.
    AgentOpen {
        /// Names this incarnation of the one slot.
        generation: u32,
    },
    /// Opaque `ssh-agent` bytes for the connection being served.
    AgentData {
        /// The channel these are for.
        generation: u32,
        /// Bytes, never parsed by the daemon.
        data: &'a [u8],
    },
    /// The served connection is finished.
    AgentClose {
        /// The channel being closed.
        generation: u32,
    },
}

// ---------------------------------------------------------------------------
// What a frame says
// ---------------------------------------------------------------------------

/// What a [`Hello`] says, its text as UTF-8 bytes.
#[verifier::ext_equal]
pub struct HelloModel {
    pub protocol: u16,
    pub agent_forward: bool,
    pub repaint_ctrl_l: bool,
    pub out_offset: u64,
    pub win: WinSize,
    pub term: Seq<u8>,
}

/// What a [`Frame`] says, its text as UTF-8 bytes.
#[verifier::ext_equal]
pub enum FrameModel {
    Hello(HelloModel),
    HelloOk(HelloOk),
    Input { offset: u64, data: Seq<u8> },
    InputAck { applied_through: u64 },
    Output { offset: u64, data: Seq<u8> },
    Resize(WinSize),
    Gap { new_base_offset: u64 },
    Exit { status: i32, kind: ExitKind, since_exit_secs: u32 },
    Detach,
    Ping,
    Pong,
    Error { code: ErrorCode, message: Seq<u8> },
    AgentOpen { generation: u32 },
    AgentData { generation: u32, data: Seq<u8> },
    AgentClose { generation: u32 },
}

impl<'a> View for Hello<'a> {
    type V = HelloModel;

    open spec fn view(&self) -> HelloModel {
        HelloModel {
            protocol: self.protocol,
            agent_forward: self.agent_forward,
            repaint_ctrl_l: self.repaint_ctrl_l,
            out_offset: self.out_offset,
            win: self.win,
            term: self.term.spec_bytes(),
        }
    }
}

impl<'a> View for Frame<'a> {
    type V = FrameModel;

    open spec fn view(&self) -> FrameModel {
        match *self {
            Frame::Hello(hello) => FrameModel::Hello(hello@),
            Frame::HelloOk(ok) => FrameModel::HelloOk(ok),
            Frame::Input { offset, data } => FrameModel::Input { offset, data: data@ },
            Frame::InputAck { applied_through } => FrameModel::InputAck { applied_through },
            Frame::Output { offset, data } => FrameModel::Output { offset, data: data@ },
            Frame::Resize(win) => FrameModel::Resize(win),
            Frame::Gap { new_base_offset } => FrameModel::Gap { new_base_offset },
            Frame::Exit { status, kind, since_exit_secs } => FrameModel::Exit {
                status,
                kind,
                since_exit_secs,
            },
            Frame::Detach => FrameModel::Detach,
            Frame::Ping => FrameModel::Ping,
            Frame::Pong => FrameModel::Pong,
            Frame::Error { code, message } => FrameModel::Error {
                code,
                message: message.spec_bytes(),
            },
            Frame::AgentOpen { generation } => FrameModel::AgentOpen { generation },
            Frame::AgentData { generation, data } => FrameModel::AgentData {
                generation,
                data: data@,
            },
            Frame::AgentClose { generation } => FrameModel::AgentClose { generation },
        }
    }
}

impl FrameModel {
    /// The discriminant of this frame.
    pub open spec fn ty(self) -> FrameType {
        match self {
            FrameModel::Hello(_) => FrameType::Hello,
            FrameModel::HelloOk(_) => FrameType::HelloOk,
            FrameModel::Input { .. } => FrameType::Input,
            FrameModel::InputAck { .. } => FrameType::InputAck,
            FrameModel::Output { .. } => FrameType::Output,
            FrameModel::Resize(_) => FrameType::Resize,
            FrameModel::Gap { .. } => FrameType::Gap,
            FrameModel::Exit { .. } => FrameType::Exit,
            FrameModel::Detach => FrameType::Detach,
            FrameModel::Ping => FrameType::Ping,
            FrameModel::Pong => FrameType::Pong,
            FrameModel::Error { .. } => FrameType::Error,
            FrameModel::AgentOpen { .. } => FrameType::AgentOpen,
            FrameModel::AgentData { .. } => FrameType::AgentData,
            FrameModel::AgentClose { .. } => FrameType::AgentClose,
        }
    }

    /// The text this frame carries is text, which is true of every [`Frame`].
    pub open spec fn is_text(self) -> bool {
        match self {
            FrameModel::Hello(hello) => valid_utf8(hello.term),
            FrameModel::Error { message, .. } => valid_utf8(message),
            _ => true,
        }
    }

    /// The payload this frame is on the wire.
    pub open spec fn payload(self) -> Seq<u8> {
        match self {
            FrameModel::Hello(hello) => hello_payload(hello),
            FrameModel::HelloOk(ok) => be64(ok.resume_from) + be64(ok.in_applied) + seq![
                ok.linger.number(),
                bit(ok.agent, HELLOOK_AGENT),
            ],
            FrameModel::Input { offset, data } => be64(offset) + data,
            FrameModel::InputAck { applied_through } => be64(applied_through),
            FrameModel::Output { offset, data } => be64(offset) + data,
            FrameModel::Resize(win) => win_bytes(win),
            FrameModel::Gap { new_base_offset } => be64(new_base_offset),
            FrameModel::Exit { status, kind, since_exit_secs } => be32(word_of(status)) + seq![
                kind.number(),
            ] + be32(since_exit_secs),
            FrameModel::Detach => Seq::empty(),
            FrameModel::Ping => Seq::empty(),
            FrameModel::Pong => Seq::empty(),
            FrameModel::Error { code, message } => be16(code.number()) + message,
            FrameModel::AgentOpen { generation } => be32(generation),
            FrameModel::AgentData { generation, data } => be32(generation) + data,
            FrameModel::AgentClose { generation } => be32(generation),
        }
    }

    /// Why this frame cannot be encoded, where it cannot: a `TERM` its own length prefix
    /// cannot count, then a NUL in it, then a payload no frame may carry.
    pub open spec fn refusal(self) -> Option<ProtoError> {
        if self matches FrameModel::Hello(hello) && hello.term.len() > 0xffff {
            Some(ProtoError::Malformed("TERM exceeds 65535 bytes"))
        } else if self matches FrameModel::Hello(hello) && hello.term.contains(0u8) {
            Some(ProtoError::Malformed("TERM contains a NUL byte"))
        } else if self.payload().len() > MAX_PAYLOAD {
            Some(ProtoError::PayloadTooLarge(reported_len(self.payload().len())))
        } else {
            None
        }
    }

    /// The whole frame on the wire, header included.
    pub open spec fn bytes(self) -> Seq<u8> {
        header_bytes(self.ty().number(), self.payload().len() as u32) + self.payload()
    }
}

/// The payload of a greeting: the revision, the flags, the offset, the window and the
/// length-prefixed `TERM`.
pub open spec fn hello_payload(hello: HelloModel) -> Seq<u8> {
    be16(hello.protocol) + seq![
        (bit(hello.agent_forward, HELLO_AGENT_FORWARD) + bit(
            hello.repaint_ctrl_l,
            HELLO_REPAINT_CTRL_L,
        )) as u8,
    ] + be64(hello.out_offset) + win_bytes(hello.win) + be16(hello.term.len() as u16) + hello.term
}

// ---------------------------------------------------------------------------
// What a payload says
// ---------------------------------------------------------------------------

/// A payload of exactly `n` bytes that says `frame`.
pub open spec fn exactly(p: Seq<u8>, n: int, frame: FrameModel) -> Result<FrameModel, ProtoError> {
    if p.len() < n {
        Err(ProtoError::Truncated)
    } else if p.len() > n {
        Err(ProtoError::TrailingBytes)
    } else {
        Ok(frame)
    }
}

/// A payload of at least `n` bytes that says `frame`.
pub open spec fn at_least(p: Seq<u8>, n: int, frame: FrameModel) -> Result<FrameModel, ProtoError> {
    if p.len() < n {
        Err(ProtoError::Truncated)
    } else {
        Ok(frame)
    }
}

/// What a greeting's payload says.
pub open spec fn decoded_hello(p: Seq<u8>) -> Result<FrameModel, ProtoError> {
    if p.len() < 3 {
        Err(ProtoError::Truncated)
    } else if p[2] >= 4 {
        Err(ProtoError::Malformed("undefined Hello flag bits"))
    } else if p.len() < 21 || p.len() < 21 + u16_at(p, 19) {
        Err(ProtoError::Truncated)
    } else {
        let term = p.subrange(21, 21 + u16_at(p, 19));
        if !valid_utf8(term) {
            Err(ProtoError::Malformed("TERM is not UTF-8"))
        } else if term.contains(0u8) {
            Err(ProtoError::Malformed("TERM contains a NUL byte"))
        } else {
            exactly(
                p,
                21 + u16_at(p, 19),
                FrameModel::Hello(
                    HelloModel {
                        protocol: u16_at(p, 0),
                        agent_forward: p[2] % 2 == 1,
                        repaint_ctrl_l: p[2] >= 2,
                        out_offset: u64_at(p, 3),
                        win: win_at(p, 11),
                        term,
                    },
                ),
            )
        }
    }
}

/// What an answered greeting's payload says.
pub open spec fn decoded_hello_ok(p: Seq<u8>) -> Result<FrameModel, ProtoError> {
    if p.len() < 17 {
        Err(ProtoError::Truncated)
    } else {
        match Linger::of_number(p[16]) {
            None => Err(ProtoError::Malformed("unknown linger state")),
            Some(linger) => if p.len() < 18 {
                Err(ProtoError::Truncated)
            } else if p[17] >= 2 {
                Err(ProtoError::Malformed("undefined HelloOk flag bits"))
            } else {
                exactly(
                    p,
                    18,
                    FrameModel::HelloOk(
                        HelloOk {
                            resume_from: u64_at(p, 0),
                            in_applied: u64_at(p, 8),
                            linger,
                            agent: p[17] == 1,
                        },
                    ),
                )
            },
        }
    }
}

/// What an ending's payload says.
pub open spec fn decoded_exit(p: Seq<u8>) -> Result<FrameModel, ProtoError> {
    if p.len() < 5 {
        Err(ProtoError::Truncated)
    } else {
        match ExitKind::of_number(p[4]) {
            None => Err(ProtoError::Malformed("unknown exit kind")),
            Some(kind) => exactly(
                p,
                9,
                FrameModel::Exit {
                    status: signed(u32_at(p, 0)),
                    kind,
                    since_exit_secs: u32_at(p, 5),
                },
            ),
        }
    }
}

/// What a failure's payload says.
pub open spec fn decoded_error(p: Seq<u8>) -> Result<FrameModel, ProtoError> {
    if p.len() < 2 {
        Err(ProtoError::Truncated)
    } else {
        match ErrorCode::of_number(u16_at(p, 0)) {
            None => Err(ProtoError::Malformed("unknown error code")),
            Some(code) => if !valid_utf8(tail(p, 2)) {
                Err(ProtoError::Malformed("error message is not UTF-8"))
            } else {
                Ok(FrameModel::Error { code, message: tail(p, 2) })
            },
        }
    }
}

/// What a payload of type `ty` says, or the first thing wrong with it.
pub open spec fn decoded(ty: FrameType, p: Seq<u8>) -> Result<FrameModel, ProtoError> {
    if p.len() > MAX_PAYLOAD {
        Err(ProtoError::PayloadTooLarge(reported_len(p.len())))
    } else {
        match ty {
            FrameType::Hello => decoded_hello(p),
            FrameType::HelloOk => decoded_hello_ok(p),
            FrameType::Input => at_least(
                p,
                8,
                FrameModel::Input { offset: u64_at(p, 0), data: tail(p, 8) },
            ),
            FrameType::InputAck => exactly(
                p,
                8,
                FrameModel::InputAck { applied_through: u64_at(p, 0) },
            ),
            FrameType::Output => at_least(
                p,
                8,
                FrameModel::Output { offset: u64_at(p, 0), data: tail(p, 8) },
            ),
            FrameType::Resize => exactly(p, 8, FrameModel::Resize(win_at(p, 0))),
            FrameType::Gap => exactly(p, 8, FrameModel::Gap { new_base_offset: u64_at(p, 0) }),
            FrameType::Exit => decoded_exit(p),
            FrameType::Detach => exactly(p, 0, FrameModel::Detach),
            FrameType::Ping => exactly(p, 0, FrameModel::Ping),
            FrameType::Pong => exactly(p, 0, FrameModel::Pong),
            FrameType::Error => decoded_error(p),
            FrameType::AgentOpen => exactly(
                p,
                4,
                FrameModel::AgentOpen { generation: u32_at(p, 0) },
            ),
            FrameType::AgentData => at_least(
                p,
                4,
                FrameModel::AgentData { generation: u32_at(p, 0), data: tail(p, 4) },
            ),
            FrameType::AgentClose => exactly(
                p,
                4,
                FrameModel::AgentClose { generation: u32_at(p, 0) },
            ),
        }
    }
}

/// `r` is the frame or the complaint that `says`.
pub open spec fn agrees(
    r: Result<Frame<'_>, ProtoError>,
    says: Result<FrameModel, ProtoError>,
) -> bool {
    match (r, says) {
        (Ok(frame), Ok(model)) => frame@ == model,
        (Err(found), Err(expected)) => found == expected,
        _ => false,
    }
}


// ---------------------------------------------------------------------------
// The codec
// ---------------------------------------------------------------------------

/// Refuses a [`Hello::term`] carrying an interior NUL, on the way out as well as in: it
/// goes straight into the child's environment, where `execve` refuses it.
fn checked_term(term: &str) -> (r: Result<(), ProtoError>)
    ensures
        match r {
            Ok(()) => !term.spec_bytes().contains(0u8),
            Err(e) => term.spec_bytes().contains(0u8) && e == ProtoError::Malformed(
                "TERM contains a NUL byte",
            ),
        },
{
    if has_nul(term.as_bytes()) {
        return Err(ProtoError::Malformed("TERM contains a NUL byte"));
    }
    Ok(())
}

impl<'a> Hello<'a> {
    /// Packs the boolean fields into the wire flags byte.
    fn flags(&self) -> (r: u8)
        ensures
            r == bit(self.agent_forward, HELLO_AGENT_FORWARD) + bit(
                self.repaint_ctrl_l,
                HELLO_REPAINT_CTRL_L,
            ),
    {
        let mut flags: u8 = 0;
        if self.agent_forward {
            flags = flags + HELLO_AGENT_FORWARD;
        }
        if self.repaint_ctrl_l {
            flags = flags + HELLO_REPAINT_CTRL_L;
        }
        flags
    }
}

impl HelloOk {
    /// Whether output was dropped before [`HelloOk::resume_from`], leaving the stream
    /// discontinuous for a client that asked to resume at `out_offset`.
    pub fn gap(&self, out_offset: u64) -> (r: bool)
        ensures
            r == (self.resume_from > out_offset),
    {
        self.resume_from > out_offset
    }

    /// Packs the boolean fields into the wire flags byte.
    fn flags(&self) -> (r: u8)
        ensures
            r == bit(self.agent, HELLOOK_AGENT),
    {
        if self.agent {
            HELLOOK_AGENT
        } else {
            0
        }
    }
}

/// Every frame's text is text: it is held as `str`.
pub(crate) proof fn lemma_frame_is_text(frame: Frame<'_>)
    ensures
        frame@.is_text(),
{
    match frame {
        Frame::Hello(hello) => {
            encode_utf8_valid_utf8(hello.term@);
        },
        Frame::Error { message, .. } => {
            encode_utf8_valid_utf8(message@);
        },
        _ => {},
    }
}

impl<'a> Frame<'a> {
    /// Returns this frame's discriminant.
    pub fn frame_type(&self) -> (r: FrameType)
        ensures
            r == self@.ty(),
    {
        match *self {
            Frame::Hello(_) => FrameType::Hello,
            Frame::HelloOk(_) => FrameType::HelloOk,
            Frame::Input { .. } => FrameType::Input,
            Frame::InputAck { .. } => FrameType::InputAck,
            Frame::Output { .. } => FrameType::Output,
            Frame::Resize(_) => FrameType::Resize,
            Frame::Gap { .. } => FrameType::Gap,
            Frame::Exit { .. } => FrameType::Exit,
            Frame::Detach => FrameType::Detach,
            Frame::Ping => FrameType::Ping,
            Frame::Pong => FrameType::Pong,
            Frame::Error { .. } => FrameType::Error,
            Frame::AgentOpen { .. } => FrameType::AgentOpen,
            Frame::AgentData { .. } => FrameType::AgentData,
            Frame::AgentClose { .. } => FrameType::AgentClose,
        }
    }

    /// Appends this frame, header included, to `out`, or leaves `out` as it was and says
    /// why it could not be.
    pub fn encode(&self, out: &mut Vec<u8>) -> (r: Result<(), ProtoError>)
        ensures
            match self@.refusal() {
                None => r is Ok && final(out)@ == old(out)@ + self@.bytes(),
                Some(e) => r == Err::<(), ProtoError>(e) && final(out)@ == old(out)@,
            },
    {
        let start: usize = out.len();
        match self.encode_from(start, out) {
            Ok(()) => Ok(()),
            Err(e) => {
                out.truncate(start);
                assert(out@ =~= old(out)@);
                Err(e)
            },
        }
    }

    /// Appends the frame, `start` being `out`'s length on entry. Free to leave a partial
    /// frame behind on failure: [`Frame::encode`] rewinds to `start`.
    fn encode_from(&self, start: usize, out: &mut Vec<u8>) -> (r: Result<(), ProtoError>)
        requires
            start == old(out)@.len(),
        ensures
            final(out)@.len() >= start,
            final(out)@.subrange(0, start as int) == old(out)@,
            match self@.refusal() {
                None => r is Ok && final(out)@ == old(out)@ + self@.bytes(),
                Some(e) => r == Err::<(), ProtoError>(e),
            },
    {
        put_u32(out, 0);
        let ghost spaced = out@;
        assert(spaced.subrange(0, start as int) =~= old(out)@);
        match self.encode_payload(out) {
            Ok(()) => {},
            Err(e) => {
                return Err(e);
            },
        }
        assert(out@.subrange(start + 4, out@.len() as int) =~= self@.payload());
        assert(out@.subrange(0, start as int) =~= old(out)@);
        let r: Result<(), ProtoError> = patch_header(out, start, self.frame_type().as_wire());
        proof {
            if self@.payload().len() <= MAX_PAYLOAD {
                assert(out@ =~= old(out)@ + self@.bytes());
                assert(out@.subrange(0, start as int) =~= old(out)@);
            }
        }
        r
    }

    /// Appends the payload alone, or says which field cannot be put on the wire and leaves
    /// `out` as it was.
    fn encode_payload(&self, out: &mut Vec<u8>) -> (r: Result<(), ProtoError>)
        ensures
            match r {
                Ok(()) => final(out)@ == old(out)@ + self@.payload() && (self@.refusal() matches Some(
                    e,
                ) ==> self@.payload().len() > MAX_PAYLOAD && e == ProtoError::PayloadTooLarge(
                    reported_len(self@.payload().len()),
                )),
                Err(e) => self@.refusal() == Some(e) && final(out)@ == old(out)@,
            },
    {
        match *self {
            Frame::Hello(hello) => {
                let term: &[u8] = hello.term.as_bytes();
                if term.len() > 0xffff {
                    return Err(ProtoError::Malformed("TERM exceeds 65535 bytes"));
                }
                match checked_term(hello.term) {
                    Ok(()) => {},
                    Err(e) => {
                        return Err(e);
                    },
                }
                put_u16(out, hello.protocol);
                out.push(hello.flags());
                put_u64(out, hello.out_offset);
                put_win(out, hello.win);
                put_u16(out, term.len() as u16);
                put_bytes(out, term);
            },
            Frame::HelloOk(ok) => {
                put_u64(out, ok.resume_from);
                put_u64(out, ok.in_applied);
                out.push(ok.linger.as_byte());
                out.push(ok.flags());
            },
            Frame::Input { offset, data } => {
                put_u64(out, offset);
                put_bytes(out, data);
            },
            Frame::Output { offset, data } => {
                put_u64(out, offset);
                put_bytes(out, data);
            },
            Frame::InputAck { applied_through } => {
                put_u64(out, applied_through);
            },
            Frame::Gap { new_base_offset } => {
                put_u64(out, new_base_offset);
            },
            Frame::Resize(win) => {
                put_win(out, win);
            },
            Frame::Exit { status, kind, since_exit_secs } => {
                put_i32(out, status);
                out.push(kind.as_byte());
                put_u32(out, since_exit_secs);
            },
            Frame::Detach | Frame::Ping | Frame::Pong => {},
            Frame::Error { code, message } => {
                put_u16(out, code.as_u16());
                put_bytes(out, message.as_bytes());
            },
            Frame::AgentOpen { generation } => {
                put_u32(out, generation);
            },
            Frame::AgentClose { generation } => {
                put_u32(out, generation);
            },
            Frame::AgentData { generation, data } => {
                put_u32(out, generation);
                put_bytes(out, data);
            },
        }
        assert(out@ =~= old(out)@ + self@.payload());
        Ok(())
    }

    /// Decodes a frame payload, borrowing byte and string fields from it.
    pub fn decode(ty: FrameType, payload: &'a [u8]) -> (r: Result<Frame<'a>, ProtoError>)
        ensures
            agrees(r, decoded(ty, payload@)),
    {
        if payload.len() > MAX_PAYLOAD as usize {
            if payload.len() > u32::MAX as usize {
                return Err(ProtoError::PayloadTooLarge(u32::MAX));
            }
            return Err(ProtoError::PayloadTooLarge(payload.len() as u32));
        }
        let mut r: Reader<'a> = Reader::new(payload);
        let frame: Frame<'a> = match ty {
            FrameType::Hello => {
                let protocol: u16 = r.u16()?;
                let flags: u8 = r.u8()?;
                if flags >= 4 {
                    return Err(ProtoError::Malformed("undefined Hello flag bits"));
                }
                let out_offset: u64 = r.u64()?;
                let win: WinSize = r.win()?;
                let term_len: u16 = r.u16()?;
                let bytes: &'a [u8] = r.take(term_len as usize)?;
                let term: &'a str = match utf8_text(bytes) {
                    Some(term) => term,
                    None => {
                        return Err(ProtoError::Malformed("TERM is not UTF-8"));
                    },
                };
                checked_term(term)?;
                Frame::Hello(
                    Hello {
                        protocol,
                        agent_forward: flags % 2 == 1,
                        repaint_ctrl_l: flags >= 2,
                        out_offset,
                        win,
                        term,
                    },
                )
            },
            FrameType::HelloOk => {
                let resume_from: u64 = r.u64()?;
                let in_applied: u64 = r.u64()?;
                let linger: Linger = match Linger::from_byte(r.u8()?) {
                    Some(linger) => linger,
                    None => {
                        return Err(ProtoError::Malformed("unknown linger state"));
                    },
                };
                let flags: u8 = r.u8()?;
                if flags >= 2 {
                    return Err(ProtoError::Malformed("undefined HelloOk flag bits"));
                }
                Frame::HelloOk(HelloOk { resume_from, in_applied, linger, agent: flags == 1 })
            },
            FrameType::Input => {
                let offset: u64 = r.u64()?;
                Frame::Input { offset, data: r.rest() }
            },
            FrameType::Output => {
                let offset: u64 = r.u64()?;
                Frame::Output { offset, data: r.rest() }
            },
            FrameType::InputAck => Frame::InputAck { applied_through: r.u64()? },
            FrameType::Resize => Frame::Resize(r.win()?),
            FrameType::Gap => Frame::Gap { new_base_offset: r.u64()? },
            FrameType::Exit => {
                let status: i32 = r.i32()?;
                let kind: ExitKind = match ExitKind::from_byte(r.u8()?) {
                    Some(kind) => kind,
                    None => {
                        return Err(ProtoError::Malformed("unknown exit kind"));
                    },
                };
                Frame::Exit { status, kind, since_exit_secs: r.u32()? }
            },
            FrameType::Detach => Frame::Detach,
            FrameType::Ping => Frame::Ping,
            FrameType::Pong => Frame::Pong,
            FrameType::Error => {
                let code: ErrorCode = match ErrorCode::from_u16(r.u16()?) {
                    Some(code) => code,
                    None => {
                        return Err(ProtoError::Malformed("unknown error code"));
                    },
                };
                let message: &'a str = match utf8_text(r.rest()) {
                    Some(message) => message,
                    None => {
                        return Err(ProtoError::Malformed("error message is not UTF-8"));
                    },
                };
                Frame::Error { code, message }
            },
            FrameType::AgentOpen => Frame::AgentOpen { generation: r.u32()? },
            FrameType::AgentClose => Frame::AgentClose { generation: r.u32()? },
            FrameType::AgentData => {
                let generation: u32 = r.u32()?;
                Frame::AgentData { generation, data: r.rest() }
            },
        };
        r.finish()?;
        Ok(frame)
    }
}


// ---------------------------------------------------------------------------
// Laws
// ---------------------------------------------------------------------------

/// A greeting that can be encoded decodes to itself.
proof fn lemma_hello_decodes(hello: HelloModel)
    requires
        valid_utf8(hello.term),
        FrameModel::Hello(hello).refusal() is None,
    ensures
        decoded_hello(hello_payload(hello)) == Ok::<FrameModel, ProtoError>(
            FrameModel::Hello(hello),
        ),
{
    let p = hello_payload(hello);
    let flags = (bit(hello.agent_forward, HELLO_AGENT_FORWARD) + bit(
        hello.repaint_ctrl_l,
        HELLO_REPAINT_CTRL_L,
    )) as u8;
    let n = hello.term.len() as u16;
    assert(holds_at(p, 0, be16(hello.protocol))) by {
        assert(p.subrange(0, 2) =~= be16(hello.protocol));
    }
    assert(p[2] == flags);
    assert(holds_at(p, 3, be64(hello.out_offset))) by {
        assert(p.subrange(3, 11) =~= be64(hello.out_offset));
    }
    assert(holds_at(p, 11, win_bytes(hello.win))) by {
        assert(p.subrange(11, 19) =~= win_bytes(hello.win));
    }
    assert(holds_at(p, 19, be16(n))) by {
        assert(p.subrange(19, 21) =~= be16(n));
    }
    assert(p.subrange(21, 21 + hello.term.len() as int) =~= hello.term);
    lemma_u16_written(p, 0, hello.protocol);
    lemma_u64_written(p, 3, hello.out_offset);
    lemma_win_written(p, 11, hello.win);
    lemma_u16_written(p, 19, n);
}

/// A greeting's payload that decodes is the encoding of what it decodes to.
proof fn lemma_hello_encodes(p: Seq<u8>)
    requires
        p.len() <= MAX_PAYLOAD,
    ensures
        decoded_hello(p) matches Ok(frame) ==> {
            &&& frame.ty() == FrameType::Hello
            &&& frame.is_text()
            &&& frame.refusal() is None
            &&& frame.payload() == p
        },
{
    if let Ok(frame) = decoded_hello(p) {
        let hello = frame->Hello_0;
        lemma_u16_read(p, 0);
        lemma_u64_read(p, 3);
        lemma_win_read(p, 11);
        lemma_u16_read(p, 19);
        assert(hello.term.len() == u16_at(p, 19));
        assert(hello_payload(hello) =~= p);
    }
}

/// An answered greeting decodes to itself.
proof fn lemma_hello_ok_decodes(ok: HelloOk)
    ensures
        decoded_hello_ok(FrameModel::HelloOk(ok).payload()) == Ok::<FrameModel, ProtoError>(
            FrameModel::HelloOk(ok),
        ),
{
    let p = FrameModel::HelloOk(ok).payload();
    assert(p.subrange(0, 8) =~= be64(ok.resume_from));
    assert(p.subrange(8, 16) =~= be64(ok.in_applied));
    lemma_u64_written(p, 0, ok.resume_from);
    lemma_u64_written(p, 8, ok.in_applied);
    assert(p[16] == ok.linger.number());
    assert(p[17] == bit(ok.agent, HELLOOK_AGENT));
}

/// An ending decodes to itself.
proof fn lemma_exit_decodes(status: i32, kind: ExitKind, since_exit_secs: u32)
    ensures
        ({
            let frame = FrameModel::Exit { status, kind, since_exit_secs };
            decoded_exit(frame.payload()) == Ok::<FrameModel, ProtoError>(frame)
        }),
{
    let p = FrameModel::Exit { status, kind, since_exit_secs }.payload();
    assert(p.subrange(0, 4) =~= be32(word_of(status)));
    assert(p[4] == kind.number());
    assert(p.subrange(5, 9) =~= be32(since_exit_secs));
    lemma_u32_written(p, 0, word_of(status));
    lemma_u32_written(p, 5, since_exit_secs);
    lemma_signed(status, 0);
}

/// A failure decodes to itself.
proof fn lemma_error_decodes(code: ErrorCode, message: Seq<u8>)
    requires
        valid_utf8(message),
    ensures
        ({
            let frame = FrameModel::Error { code, message };
            decoded_error(frame.payload()) == Ok::<FrameModel, ProtoError>(frame)
        }),
{
    let p = FrameModel::Error { code, message }.payload();
    lemma_parts(be16(code.number()), message);
    lemma_u16_written(p, 0, code.number());
}

/// Decoding gives back the frame that was encoded: every frame that can be put on the
/// wire at all comes off it saying what it said.
pub proof fn decode_inverts_encode(frame: FrameModel)
    requires
        frame.is_text(),
        frame.refusal() is None,
    ensures
        decoded(frame.ty(), frame.payload()) == Ok::<FrameModel, ProtoError>(frame),
{
    match frame {
        FrameModel::Hello(hello) => {
            lemma_hello_decodes(hello);
        },
        FrameModel::HelloOk(ok) => {
            lemma_hello_ok_decodes(ok);
        },
        FrameModel::Input { offset, data } => {
            lemma_u64_then(offset, data);
        },
        FrameModel::Output { offset, data } => {
            lemma_u64_then(offset, data);
        },
        FrameModel::InputAck { applied_through } => {
            lemma_alone(applied_through, 0, arbitrary());
        },
        FrameModel::Gap { new_base_offset } => {
            lemma_alone(new_base_offset, 0, arbitrary());
        },
        FrameModel::Resize(win) => {
            lemma_alone(0, 0, win);
        },
        FrameModel::Exit { status, kind, since_exit_secs } => {
            lemma_exit_decodes(status, kind, since_exit_secs);
        },
        FrameModel::Detach => {},
        FrameModel::Ping => {},
        FrameModel::Pong => {},
        FrameModel::Error { code, message } => {
            lemma_error_decodes(code, message);
        },
        FrameModel::AgentOpen { generation } => {
            lemma_alone(0, generation, arbitrary());
        },
        FrameModel::AgentClose { generation } => {
            lemma_alone(0, generation, arbitrary());
        },
        FrameModel::AgentData { generation, data } => {
            lemma_u32_then(generation, data);
        },
    }
}

/// An answered greeting's payload that decodes is the encoding of what it decodes to.
proof fn lemma_hello_ok_encodes(p: Seq<u8>)
    ensures
        decoded_hello_ok(p) matches Ok(frame) ==> frame is HelloOk && frame.payload() == p,
{
    if let Ok(frame) = decoded_hello_ok(p) {
        lemma_u64_read(p, 0);
        lemma_u64_read(p, 8);
        assert(p.subrange(0, 8) + p.subrange(8, 16) + seq![p[16], p[17]] =~= p);
    }
}

/// An ending's payload that decodes is the encoding of what it decodes to.
proof fn lemma_exit_encodes(p: Seq<u8>)
    ensures
        decoded_exit(p) matches Ok(frame) ==> frame is Exit && frame.payload() == p,
{
    if let Ok(frame) = decoded_exit(p) {
        lemma_u32_read(p, 0);
        lemma_u32_read(p, 5);
        lemma_signed(0, u32_at(p, 0));
        assert(p.subrange(0, 4) + seq![p[4]] + p.subrange(5, 9) =~= p);
    }
}

/// A failure's payload that decodes is the encoding of what it decodes to.
proof fn lemma_error_encodes(p: Seq<u8>)
    ensures
        decoded_error(p) matches Ok(frame) ==> {
            &&& frame is Error
            &&& valid_utf8(frame->message)
            &&& frame.payload() == p
        },
{
    if let Ok(frame) = decoded_error(p) {
        lemma_u16_read(p, 0);
        assert(p.subrange(0, 2) + tail(p, 2) =~= p);
    }
}

/// Encoding gives back the payload that was decoded: the two halves are inverses, so no
/// two payloads of one type mean the same thing and nothing decodes that could not have
/// been encoded.
pub proof fn encode_inverts_decode(ty: FrameType, p: Seq<u8>)
    ensures
        decoded(ty, p) matches Ok(frame) ==> {
            &&& frame.ty() == ty
            &&& frame.is_text()
            &&& frame.refusal() is None
            &&& frame.payload() == p
        },
{
    if p.len() <= MAX_PAYLOAD {
        lemma_number_and_tail(p);
        lemma_hello_encodes(p);
        lemma_hello_ok_encodes(p);
        lemma_exit_encodes(p);
        lemma_error_encodes(p);
        if decoded(ty, p) is Ok && p.len() == 0 {
            assert(p =~= Seq::empty());
        }
    }
}

} // verus!
