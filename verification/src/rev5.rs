//! The wire format at revision 5, the last whose acknowledgements ran both ways and
//! whose greeting answer repeated the revision, the window and the gap.
use vstd::prelude::*;
use vstd::string::StringSliceAdditionalSpecFns;
use vstd::utf8::{encode_utf8_valid_utf8, valid_utf8};

use crate::codes::{ErrorCode, ExitKind, Linger};
use crate::wire::{
    be16, be32, be64, bit, has_nul, header, header_bytes, lemma_alone, lemma_length_field,
    lemma_number_and_tail, lemma_parts, lemma_signed, lemma_u16_read, lemma_u16_written,
    lemma_u32_read, lemma_u32_then, lemma_u32_written, lemma_u64_read, lemma_u64_then,
    lemma_u64_written, lemma_win_read, lemma_win_written, patch_header, put_bytes, put_i32,
    put_u16, put_u32, put_u64, put_win, reported_len, signed, tail, u16_at, u24, u32_at, u64_at,
    utf8_text, win_at, win_bytes, word_of, ProtoError, Reader, WinSize, MAX_PAYLOAD,
};

verus! {

/// Protocol revision this layout belongs to.
pub const PROTOCOL_VERSION: u16 = 5;

/// [`Hello::flags`] bit: serve an `ssh-agent` socket for this session.
pub const HELLO_AGENT_FORWARD: u16 = 1;

/// [`Hello::flags`] bit: repaint after a gap by writing `Ctrl-L` to the PTY instead of the
/// `TIOCSWINSZ` dance.
pub const HELLO_REPAINT_CTRL_L: u16 = 2;

/// [`HelloOk`] flags bit: output was dropped before `resume_from`.
pub const HELLOOK_GAP: u8 = 1;

/// What the two-bit [`Linger`] field of [`HelloOk`]'s flags byte counts in.
pub const HELLOOK_LINGER_UNIT: u8 = 2;

/// [`HelloOk`] flags bit: this session is serving an agent socket.
pub const HELLOOK_AGENT: u8 = 8;

/// Frame discriminant.
#[derive(Debug, Clone, Copy, PartialEq, Eq, Hash, Structural)]
pub enum FrameType {
    /// Client opens a session, carrying its resume offsets and window size.
    Hello,
    /// Daemon accepts, reporting where output will resume from.
    HelloOk,
    /// Client keystrokes, at an absolute offset in the input stream.
    Input,
    /// Daemon confirms input it has taken ownership of, and will never re-apply.
    InputAck,
    /// PTY output, at an absolute offset in the output stream.
    Output,
    /// Client has consumed output. Advisory, and never trims the ring.
    OutputAck,
    /// Window size change, applied via `TIOCSWINSZ`.
    Resize,
    /// Output was discarded by ring overflow; the stream is discontinuous.
    Gap,
    /// The child process terminated.
    Exit,
    /// Client leaves without terminating the session.
    Detach,
    /// Liveness probe.
    Ping,
    /// Liveness response, echoing the nonce.
    Pong,
    /// Daemon-side failure; the connection closes after this.
    Error,
    /// A process connected to the session's agent socket; open a peer channel.
    AgentOpen,
    /// Opaque `ssh-agent` protocol bytes for one agent channel.
    AgentData,
    /// One agent channel is finished, in either direction.
    AgentClose,
}

impl FrameType {
    /// Every variant, in wire order.
    pub const ALL: [FrameType; 16] = [
        FrameType::Hello,
        FrameType::HelloOk,
        FrameType::Input,
        FrameType::InputAck,
        FrameType::Output,
        FrameType::OutputAck,
        FrameType::Resize,
        FrameType::Gap,
        FrameType::Exit,
        FrameType::Detach,
        FrameType::Ping,
        FrameType::Pong,
        FrameType::Error,
        FrameType::AgentOpen,
        FrameType::AgentData,
        FrameType::AgentClose,
    ];

    /// The number this type is on the wire.
    pub open spec fn number(self) -> u8 {
        match self {
            FrameType::Hello => 0x01,
            FrameType::HelloOk => 0x02,
            FrameType::Input => 0x03,
            FrameType::InputAck => 0x04,
            FrameType::Output => 0x05,
            FrameType::OutputAck => 0x06,
            FrameType::Resize => 0x07,
            FrameType::Gap => 0x08,
            FrameType::Exit => 0x09,
            FrameType::Detach => 0x0a,
            FrameType::Ping => 0x0b,
            FrameType::Pong => 0x0c,
            FrameType::Error => 0x0d,
            FrameType::AgentOpen => 0x0e,
            FrameType::AgentData => 0x0f,
            FrameType::AgentClose => 0x10,
        }
    }

    /// The type a wire number stands for.
    pub open spec fn of_number(value: u8) -> Option<FrameType> {
        if 1 <= value <= 16 {
            Some(FrameType::ALL@[value - 1])
        } else {
            None
        }
    }

    /// Returns the wire discriminant.
    pub fn as_byte(self) -> (r: u8)
        ensures
            r == self.number(),
    {
        match self {
            FrameType::Hello => 0x01,
            FrameType::HelloOk => 0x02,
            FrameType::Input => 0x03,
            FrameType::InputAck => 0x04,
            FrameType::Output => 0x05,
            FrameType::OutputAck => 0x06,
            FrameType::Resize => 0x07,
            FrameType::Gap => 0x08,
            FrameType::Exit => 0x09,
            FrameType::Detach => 0x0a,
            FrameType::Ping => 0x0b,
            FrameType::Pong => 0x0c,
            FrameType::Error => 0x0d,
            FrameType::AgentOpen => 0x0e,
            FrameType::AgentData => 0x0f,
            FrameType::AgentClose => 0x10,
        }
    }

    /// Parses a wire discriminant, returning `None` if unrecognised.
    pub fn from_byte(value: u8) -> (r: Option<FrameType>)
        ensures
            r == FrameType::of_number(value),
            r matches Some(ty) ==> ty.number() == value,
            r is None ==> forall|ty: FrameType| #[trigger] ty.number() != value,
    {
        if 1 <= value && value <= 16 {
            let ty: FrameType = FrameType::ALL[value as usize - 1];
            Some(ty)
        } else {
            None
        }
    }
}

/// A decoded frame header.
#[derive(Debug, Clone, Copy, PartialEq, Eq, Structural)]
pub struct Header {
    /// Frame discriminant.
    pub ty: FrameType,
    /// Payload length in bytes, guaranteed `<= MAX_PAYLOAD`.
    pub len: u32,
}

/// What the four bytes of a header say: an unknown type is named before an oversized
/// length is.
pub open spec fn decoded_header(bytes: Seq<u8>) -> Result<Header, ProtoError> {
    match FrameType::of_number(bytes[0]) {
        None => Err(ProtoError::UnknownFrameType(bytes[0])),
        Some(ty) => {
            let len = u24(bytes[1], bytes[2], bytes[3]);
            if len > MAX_PAYLOAD {
                Err(ProtoError::PayloadTooLarge(len))
            } else {
                Ok(Header { ty, len })
            }
        },
    }
}

/// Encodes a frame header.
pub fn encode_header(ty: FrameType, len: u32) -> (r: Result<[u8; 4], ProtoError>)
    ensures
        match r {
            Ok(bytes) => len <= MAX_PAYLOAD && bytes@ == header_bytes(ty.number(), len),
            Err(e) => len > MAX_PAYLOAD && e == ProtoError::PayloadTooLarge(len),
        },
{
    header(ty.as_byte(), len)
}

/// Decodes a frame header.
pub fn decode_header(bytes: &[u8; 4]) -> (r: Result<Header, ProtoError>)
    ensures
        r == decoded_header(bytes@),
        r matches Ok(header) ==> header.len <= MAX_PAYLOAD,
{
    let ty: FrameType = match FrameType::from_byte(bytes[0]) {
        Some(ty) => ty,
        None => return Err(ProtoError::UnknownFrameType(bytes[0])),
    };
    let len: u32 = bytes[1] as u32 * 0x1_0000 + bytes[2] as u32 * 0x100 + bytes[3] as u32;
    if len > MAX_PAYLOAD {
        return Err(ProtoError::PayloadTooLarge(len));
    }
    Ok(Header { ty, len })
}

/// A header that was encoded decodes to what it was encoded from.
pub proof fn headers_round_trip(ty: FrameType, len: u32)
    requires
        len <= MAX_PAYLOAD,
    ensures
        decoded_header(header_bytes(ty.number(), len)) == Ok::<Header, ProtoError>(
            Header { ty, len },
        ),
{
    lemma_length_field(len, 0, 0, 0);
}

/// Four bytes that decode are the encoding of what they decode to.
pub proof fn header_bytes_are_canonical(bytes: Seq<u8>)
    requires
        bytes.len() == 4,
    ensures
        decoded_header(bytes) matches Ok(header) ==> bytes == header_bytes(
            header.ty.number(),
            header.len,
        ),
{
    lemma_length_field(0, bytes[1], bytes[2], bytes[3]);
    if let Ok(header) = decoded_header(bytes) {
        assert(bytes =~= header_bytes(header.ty.number(), header.len));
    }
}

/// Opening frame: what the client already has, and how big its terminal is.
#[derive(Debug, Clone, Copy, PartialEq, Eq)]
pub struct Hello<'a> {
    /// Must equal [`PROTOCOL_VERSION`] or the daemon rejects the connection.
    pub protocol: u16,
    /// [`HELLO_AGENT_FORWARD`] and [`HELLO_REPAINT_CTRL_L`].
    pub flags: u16,
    /// Next output byte the client wants, or
    /// [`RESUME_FROM_START`](crate::wire::RESUME_FROM_START).
    pub out_offset: u64,
    /// Terminal dimensions.
    pub win: WinSize,
    /// Value for the child's `TERM`. Ignored when resuming an existing session.
    pub term: &'a str,
}

/// Daemon's answer to [`Hello`].
#[derive(Debug, Clone, Copy, PartialEq, Eq, Structural)]
pub struct HelloOk {
    /// This daemon's protocol revision.
    pub protocol: u16,
    /// Offset the daemon will start streaming output from.
    pub resume_from: u64,
    /// Authoritative input offset; the client fast-forwards to this.
    pub in_applied: u64,
    /// The session's current dimensions.
    pub win: WinSize,
    /// Output was dropped before `resume_from`; the stream is discontinuous.
    pub gap: bool,
    /// Whether this session survives the user's logout.
    pub linger: Linger,
    /// Whether an agent socket is being served.
    pub agent: bool,
}

/// A decoded protocol frame.
#[derive(Debug, Clone, Copy, PartialEq, Eq)]
pub enum Frame<'a> {
    /// See [`Hello`].
    Hello(Hello<'a>),
    /// See [`HelloOk`].
    HelloOk(HelloOk),
    /// Keystrokes at an absolute offset in the input stream.
    Input {
        /// Offset of the first byte of `data`.
        offset: u64,
        /// Raw bytes for the PTY master.
        data: &'a [u8],
    },
    /// Input the daemon has taken ownership of and will never re-apply.
    InputAck {
        /// Exclusive upper bound of applied input.
        applied_through: u64,
    },
    /// PTY output at an absolute offset in the output stream.
    Output {
        /// Offset of the first byte of `data`.
        offset: u64,
        /// Raw bytes from the PTY master.
        data: &'a [u8],
    },
    /// Advisory acknowledgement of consumed output.
    OutputAck {
        /// Exclusive upper bound of consumed output.
        consumed_through: u64,
    },
    /// New terminal dimensions.
    Resize(WinSize),
    /// Output was discarded by ring overflow.
    Gap {
        /// New oldest retained offset.
        new_base_offset: u64,
    },
    /// The child terminated.
    Exit {
        /// Exit status, or signal number when `kind` is [`ExitKind::Signalled`].
        status: i32,
        /// How it terminated.
        kind: ExitKind,
    },
    /// Client is leaving without ending the session.
    Detach,
    /// Liveness probe.
    Ping {
        /// Echoed back in [`Frame::Pong`].
        nonce: u64,
    },
    /// Liveness response.
    Pong {
        /// Nonce from the corresponding [`Frame::Ping`].
        nonce: u64,
    },
    /// Daemon-side failure; the connection closes after this.
    Error {
        /// Machine-readable reason.
        code: ErrorCode,
        /// Human-readable detail.
        message: &'a str,
    },
    /// A process connected to the session's agent socket.
    AgentOpen {
        /// Daemon-allocated channel id.
        chan: u32,
    },
    /// Opaque `ssh-agent` bytes for one channel.
    AgentData {
        /// Channel id.
        chan: u32,
        /// Bytes, never parsed by the daemon.
        data: &'a [u8],
    },
    /// One agent channel is finished.
    AgentClose {
        /// Channel id.
        chan: u32,
    },
}

// ---------------------------------------------------------------------------
// What a frame says
// ---------------------------------------------------------------------------

/// What a [`Hello`] says, its text as UTF-8 bytes.
#[verifier::ext_equal]
pub struct HelloModel {
    pub protocol: u16,
    pub flags: u16,
    pub out_offset: u64,
    pub win: WinSize,
    pub term: Seq<u8>,
}

/// What a [`Frame`] says, its text as UTF-8 bytes.
#[verifier::ext_equal]
pub enum FrameModel {
    Hello(HelloModel),
    HelloOk(HelloOk),
    Input { offset: u64, data: Seq<u8> },
    InputAck { applied_through: u64 },
    Output { offset: u64, data: Seq<u8> },
    OutputAck { consumed_through: u64 },
    Resize(WinSize),
    Gap { new_base_offset: u64 },
    Exit { status: i32, kind: ExitKind },
    Detach,
    Ping { nonce: u64 },
    Pong { nonce: u64 },
    Error { code: ErrorCode, message: Seq<u8> },
    AgentOpen { chan: u32 },
    AgentData { chan: u32, data: Seq<u8> },
    AgentClose { chan: u32 },
}

impl<'a> View for Hello<'a> {
    type V = HelloModel;

    open spec fn view(&self) -> HelloModel {
        HelloModel {
            protocol: self.protocol,
            flags: self.flags,
            out_offset: self.out_offset,
            win: self.win,
            term: self.term.spec_bytes(),
        }
    }
}

impl<'a> View for Frame<'a> {
    type V = FrameModel;

    open spec fn view(&self) -> FrameModel {
        match *self {
            Frame::Hello(hello) => FrameModel::Hello(hello@),
            Frame::HelloOk(ok) => FrameModel::HelloOk(ok),
            Frame::Input { offset, data } => FrameModel::Input { offset, data: data@ },
            Frame::InputAck { applied_through } => FrameModel::InputAck { applied_through },
            Frame::Output { offset, data } => FrameModel::Output { offset, data: data@ },
            Frame::OutputAck { consumed_through } => FrameModel::OutputAck { consumed_through },
            Frame::Resize(win) => FrameModel::Resize(win),
            Frame::Gap { new_base_offset } => FrameModel::Gap { new_base_offset },
            Frame::Exit { status, kind } => FrameModel::Exit { status, kind },
            Frame::Detach => FrameModel::Detach,
            Frame::Ping { nonce } => FrameModel::Ping { nonce },
            Frame::Pong { nonce } => FrameModel::Pong { nonce },
            Frame::Error { code, message } => FrameModel::Error {
                code,
                message: message.spec_bytes(),
            },
            Frame::AgentOpen { chan } => FrameModel::AgentOpen { chan },
            Frame::AgentData { chan, data } => FrameModel::AgentData {
                chan,
                data: data@,
            },
            Frame::AgentClose { chan } => FrameModel::AgentClose { chan },
        }
    }
}

impl FrameModel {
    /// The discriminant of this frame.
    pub open spec fn ty(self) -> FrameType {
        match self {
            FrameModel::Hello(_) => FrameType::Hello,
            FrameModel::HelloOk(_) => FrameType::HelloOk,
            FrameModel::Input { .. } => FrameType::Input,
            FrameModel::InputAck { .. } => FrameType::InputAck,
            FrameModel::Output { .. } => FrameType::Output,
            FrameModel::OutputAck { .. } => FrameType::OutputAck,
            FrameModel::Resize(_) => FrameType::Resize,
            FrameModel::Gap { .. } => FrameType::Gap,
            FrameModel::Exit { .. } => FrameType::Exit,
            FrameModel::Detach => FrameType::Detach,
            FrameModel::Ping { .. } => FrameType::Ping,
            FrameModel::Pong { .. } => FrameType::Pong,
            FrameModel::Error { .. } => FrameType::Error,
            FrameModel::AgentOpen { .. } => FrameType::AgentOpen,
            FrameModel::AgentData { .. } => FrameType::AgentData,
            FrameModel::AgentClose { .. } => FrameType::AgentClose,
        }
    }

    /// The text this frame carries is text, which is true of every [`Frame`].
    pub open spec fn is_text(self) -> bool {
        match self {
            FrameModel::Hello(hello) => valid_utf8(hello.term),
            FrameModel::Error { message, .. } => valid_utf8(message),
            _ => true,
        }
    }

    /// The payload this frame is on the wire.
    pub open spec fn payload(self) -> Seq<u8> {
        match self {
            FrameModel::Hello(hello) => hello_payload(hello),
            FrameModel::HelloOk(ok) => be16(ok.protocol) + be64(ok.resume_from) + be64(
                ok.in_applied,
            ) + win_bytes(ok.win) + seq![hello_ok_flags(ok)],
            FrameModel::Input { offset, data } => be64(offset) + data,
            FrameModel::InputAck { applied_through } => be64(applied_through),
            FrameModel::Output { offset, data } => be64(offset) + data,
            FrameModel::OutputAck { consumed_through } => be64(consumed_through),
            FrameModel::Resize(win) => win_bytes(win),
            FrameModel::Gap { new_base_offset } => be64(new_base_offset),
            FrameModel::Exit { status, kind } => be32(word_of(status)) + seq![kind.number()],
            FrameModel::Detach => Seq::empty(),
            FrameModel::Ping { nonce } => be64(nonce),
            FrameModel::Pong { nonce } => be64(nonce),
            FrameModel::Error { code, message } => be16(code.number()) + message,
            FrameModel::AgentOpen { chan } => be32(chan),
            FrameModel::AgentData { chan, data } => be32(chan) + data,
            FrameModel::AgentClose { chan } => be32(chan),
        }
    }

    /// Why this frame cannot be encoded, where it cannot: a `TERM` its own length prefix
    /// cannot count, then a NUL in it, then a flag bit nobody defined, then a payload no
    /// frame may carry.
    pub open spec fn refusal(self) -> Option<ProtoError> {
        if self matches FrameModel::Hello(hello) && hello.term.len() > 0xffff {
            Some(ProtoError::Malformed("TERM exceeds 65535 bytes"))
        } else if self matches FrameModel::Hello(hello) && hello.term.contains(0u8) {
            Some(ProtoError::Malformed("TERM contains a NUL byte"))
        } else if self matches FrameModel::Hello(hello) && hello.flags >= 4 {
            Some(ProtoError::Malformed("undefined Hello flag bits"))
        } else if self.payload().len() > MAX_PAYLOAD {
            Some(ProtoError::PayloadTooLarge(reported_len(self.payload().len())))
        } else {
            None
        }
    }

    /// The whole frame on the wire, header included.
    pub open spec fn bytes(self) -> Seq<u8> {
        header_bytes(self.ty().number(), self.payload().len() as u32) + self.payload()
    }
}

/// The payload of a greeting: the revision, the flags, the offset, the window and the
/// length-prefixed `TERM`.
pub open spec fn hello_payload(hello: HelloModel) -> Seq<u8> {
    be16(hello.protocol) + be16(hello.flags) + be64(hello.out_offset) + win_bytes(hello.win) + be16(
        hello.term.len() as u16,
    ) + hello.term
}

/// The flags byte of an answered greeting: the gap, the linger state and the agent, each
/// in bits of its own.
pub open spec fn hello_ok_flags(ok: HelloOk) -> u8 {
    (bit(ok.gap, HELLOOK_GAP) + HELLOOK_LINGER_UNIT * ok.linger.number() + bit(
        ok.agent,
        HELLOOK_AGENT,
    )) as u8
}

// ---------------------------------------------------------------------------
// What a payload says
// ---------------------------------------------------------------------------

/// A payload of exactly `n` bytes that says `frame`.
pub open spec fn exactly(p: Seq<u8>, n: int, frame: FrameModel) -> Result<FrameModel, ProtoError> {
    if p.len() < n {
        Err(ProtoError::Truncated)
    } else if p.len() > n {
        Err(ProtoError::TrailingBytes)
    } else {
        Ok(frame)
    }
}

/// A payload of at least `n` bytes that says `frame`.
pub open spec fn at_least(p: Seq<u8>, n: int, frame: FrameModel) -> Result<FrameModel, ProtoError> {
    if p.len() < n {
        Err(ProtoError::Truncated)
    } else {
        Ok(frame)
    }
}

/// What a greeting's payload says.
pub open spec fn decoded_hello(p: Seq<u8>) -> Result<FrameModel, ProtoError> {
    if p.len() < 4 {
        Err(ProtoError::Truncated)
    } else if u16_at(p, 2) >= 4 {
        Err(ProtoError::Malformed("undefined Hello flag bits"))
    } else if p.len() < 22 || p.len() < 22 + u16_at(p, 20) {
        Err(ProtoError::Truncated)
    } else {
        let term = p.subrange(22, 22 + u16_at(p, 20));
        if !valid_utf8(term) {
            Err(ProtoError::Malformed("TERM is not UTF-8"))
        } else if term.contains(0u8) {
            Err(ProtoError::Malformed("TERM contains a NUL byte"))
        } else {
            exactly(
                p,
                22 + u16_at(p, 20),
                FrameModel::Hello(
                    HelloModel {
                        protocol: u16_at(p, 0),
                        flags: u16_at(p, 2),
                        out_offset: u64_at(p, 4),
                        win: win_at(p, 12),
                        term,
                    },
                ),
            )
        }
    }
}

/// What an answered greeting's payload says.
pub open spec fn decoded_hello_ok(p: Seq<u8>) -> Result<FrameModel, ProtoError> {
    if p.len() < 27 {
        Err(ProtoError::Truncated)
    } else if p[26] >= 16 {
        Err(ProtoError::Malformed("undefined HelloOk flag bits"))
    } else {
        match Linger::of_number(((p[26] / 2) % 4) as u8) {
            None => Err(ProtoError::Malformed("unknown linger state")),
            Some(linger) => exactly(
                p,
                27,
                FrameModel::HelloOk(
                    HelloOk {
                        protocol: u16_at(p, 0),
                        resume_from: u64_at(p, 2),
                        in_applied: u64_at(p, 10),
                        win: win_at(p, 18),
                        gap: p[26] % 2 == 1,
                        linger,
                        agent: p[26] >= 8,
                    },
                ),
            ),
        }
    }
}

/// What an ending's payload says.
pub open spec fn decoded_exit(p: Seq<u8>) -> Result<FrameModel, ProtoError> {
    if p.len() < 5 {
        Err(ProtoError::Truncated)
    } else {
        match ExitKind::of_number(p[4]) {
            None => Err(ProtoError::Malformed("unknown exit kind")),
            Some(kind) => exactly(p, 5, FrameModel::Exit { status: signed(u32_at(p, 0)), kind }),
        }
    }
}

/// What a failure's payload says.
pub open spec fn decoded_error(p: Seq<u8>) -> Result<FrameModel, ProtoError> {
    if p.len() < 2 {
        Err(ProtoError::Truncated)
    } else {
        match ErrorCode::of_number(u16_at(p, 0)) {
            None => Err(ProtoError::Malformed("unknown error code")),
            Some(code) => if !valid_utf8(tail(p, 2)) {
                Err(ProtoError::Malformed("error message is not UTF-8"))
            } else {
                Ok(FrameModel::Error { code, message: tail(p, 2) })
            },
        }
    }
}

/// What a payload of type `ty` says, or the first thing wrong with it.
pub open spec fn decoded(ty: FrameType, p: Seq<u8>) -> Result<FrameModel, ProtoError> {
    if p.len() > MAX_PAYLOAD {
        Err(ProtoError::PayloadTooLarge(reported_len(p.len())))
    } else {
        match ty {
            FrameType::Hello => decoded_hello(p),
            FrameType::HelloOk => decoded_hello_ok(p),
            FrameType::Input => at_least(
                p,
                8,
                FrameModel::Input { offset: u64_at(p, 0), data: tail(p, 8) },
            ),
            FrameType::InputAck => exactly(
                p,
                8,
                FrameModel::InputAck { applied_through: u64_at(p, 0) },
            ),
            FrameType::Output => at_least(
                p,
                8,
                FrameModel::Output { offset: u64_at(p, 0), data: tail(p, 8) },
            ),
            FrameType::OutputAck => exactly(
                p,
                8,
                FrameModel::OutputAck { consumed_through: u64_at(p, 0) },
            ),
            FrameType::Resize => exactly(p, 8, FrameModel::Resize(win_at(p, 0))),
            FrameType::Gap => exactly(p, 8, FrameModel::Gap { new_base_offset: u64_at(p, 0) }),
            FrameType::Exit => decoded_exit(p),
            FrameType::Detach => exactly(p, 0, FrameModel::Detach),
            FrameType::Ping => exactly(p, 8, FrameModel::Ping { nonce: u64_at(p, 0) }),
            FrameType::Pong => exactly(p, 8, FrameModel::Pong { nonce: u64_at(p, 0) }),
            FrameType::Error => decoded_error(p),
            FrameType::AgentOpen => exactly(
                p,
                4,
                FrameModel::AgentOpen { chan: u32_at(p, 0) },
            ),
            FrameType::AgentData => at_least(
                p,
                4,
                FrameModel::AgentData { chan: u32_at(p, 0), data: tail(p, 4) },
            ),
            FrameType::AgentClose => exactly(
                p,
                4,
                FrameModel::AgentClose { chan: u32_at(p, 0) },
            ),
        }
    }
}

/// `r` is the frame or the complaint that `says`.
pub open spec fn agrees(
    r: Result<Frame<'_>, ProtoError>,
    says: Result<FrameModel, ProtoError>,
) -> bool {
    match (r, says) {
        (Ok(frame), Ok(model)) => frame@ == model,
        (Err(found), Err(expected)) => found == expected,
        _ => false,
    }
}


// ---------------------------------------------------------------------------
// The codec
// ---------------------------------------------------------------------------

/// Refuses a [`Hello::flags`] word carrying a bit this revision does not define, on the
/// way out as well as on the way in.
fn checked_hello_flags(flags: u16) -> (r: Result<(), ProtoError>)
    ensures
        match r {
            Ok(()) => flags < 4,
            Err(e) => flags >= 4 && e == ProtoError::Malformed("undefined Hello flag bits"),
        },
{
    if flags >= 4 {
        return Err(ProtoError::Malformed("undefined Hello flag bits"));
    }
    Ok(())
}

/// Refuses a [`Hello::term`] carrying an interior NUL, on the way out as well as in: it
/// goes straight into the child's environment, where `execve` refuses it.
fn checked_term(term: &str) -> (r: Result<(), ProtoError>)
    ensures
        match r {
            Ok(()) => !term.spec_bytes().contains(0u8),
            Err(e) => term.spec_bytes().contains(0u8) && e == ProtoError::Malformed(
                "TERM contains a NUL byte",
            ),
        },
{
    if has_nul(term.as_bytes()) {
        return Err(ProtoError::Malformed("TERM contains a NUL byte"));
    }
    Ok(())
}

impl<'a> Hello<'a> {
    /// Whether the client asked for an `ssh-agent` socket.
    pub fn agent_forward(&self) -> (r: bool)
        ensures
            r == (self.flags & HELLO_AGENT_FORWARD != 0),
            r == (self.flags % 2 == 1),
    {
        let flags: u16 = self.flags;
        assert((flags & 1u16 != 0) == (flags % 2 == 1)) by (bit_vector);
        flags & HELLO_AGENT_FORWARD != 0
    }

    /// Whether the client wants `Ctrl-L` rather than a `SIGWINCH` pair as the post-gap
    /// repaint.
    pub fn repaint_ctrl_l(&self) -> (r: bool)
        ensures
            r == (self.flags & HELLO_REPAINT_CTRL_L != 0),
            r == ((self.flags / 2) % 2 == 1),
    {
        let flags: u16 = self.flags;
        assert((flags & 2u16 != 0) == ((flags / 2) % 2 == 1)) by (bit_vector);
        flags & HELLO_REPAINT_CTRL_L != 0
    }
}

/// The two-bit wire encoding of a linger state, shifted into its place in [`HelloOk`]'s
/// flags byte.
fn linger_bits(linger: Linger) -> (r: u8)
    ensures
        r == HELLOOK_LINGER_UNIT * linger.number(),
{
    HELLOOK_LINGER_UNIT * linger.as_byte()
}

/// The linger state a flags byte carries, if it is one.
fn linger_from_flags(flags: u8) -> (r: Option<Linger>)
    ensures
        r == Linger::of_number(((flags / 2) % 4) as u8),
{
    Linger::from_byte((flags / HELLOOK_LINGER_UNIT) % 4)
}

impl HelloOk {
    /// Packs the boolean and enum fields into the wire flags byte.
    pub fn flags(&self) -> (r: u8)
        ensures
            r == hello_ok_flags(*self),
    {
        let mut flags: u8 = linger_bits(self.linger);
        if self.gap {
            flags = flags + HELLOOK_GAP;
        }
        if self.agent {
            flags = flags + HELLOOK_AGENT;
        }
        flags
    }
}

/// Every frame's text is text: it is held as `str`.
pub(crate) proof fn lemma_frame_is_text(frame: Frame<'_>)
    ensures
        frame@.is_text(),
{
    match frame {
        Frame::Hello(hello) => {
            encode_utf8_valid_utf8(hello.term@);
        },
        Frame::Error { message, .. } => {
            encode_utf8_valid_utf8(message@);
        },
        _ => {},
    }
}

impl<'a> Frame<'a> {
    /// Returns this frame's discriminant.
    pub fn frame_type(&self) -> (r: FrameType)
        ensures
            r == self@.ty(),
    {
        match *self {
            Frame::Hello(_) => FrameType::Hello,
            Frame::HelloOk(_) => FrameType::HelloOk,
            Frame::Input { .. } => FrameType::Input,
            Frame::InputAck { .. } => FrameType::InputAck,
            Frame::Output { .. } => FrameType::Output,
            Frame::OutputAck { .. } => FrameType::OutputAck,
            Frame::Resize(_) => FrameType::Resize,
            Frame::Gap { .. } => FrameType::Gap,
            Frame::Exit { .. } => FrameType::Exit,
            Frame::Detach => FrameType::Detach,
            Frame::Ping { .. } => FrameType::Ping,
            Frame::Pong { .. } => FrameType::Pong,
            Frame::Error { .. } => FrameType::Error,
            Frame::AgentOpen { .. } => FrameType::AgentOpen,
            Frame::AgentData { .. } => FrameType::AgentData,
            Frame::AgentClose { .. } => FrameType::AgentClose,
        }
    }

    /// Appends this frame, header included, to `out`, or leaves `out` as it was and says
    /// why it could not be.
    pub fn encode(&self, out: &mut Vec<u8>) -> (r: Result<(), ProtoError>)
        ensures
            match self@.refusal() {
                None => r is Ok && final(out)@ == old(out)@ + self@.bytes(),
                Some(e) => r == Err::<(), ProtoError>(e) && final(out)@ == old(out)@,
            },
    {
        let start: usize = out.len();
        match self.encode_from(start, out) {
            Ok(()) => Ok(()),
            Err(e) => {
                out.truncate(start);
                assert(out@ =~= old(out)@);
                Err(e)
            },
        }
    }

    /// Appends the frame, `start` being `out`'s length on entry. Free to leave a partial
    /// frame behind on failure: [`Frame::encode`] rewinds to `start`.
    fn encode_from(&self, start: usize, out: &mut Vec<u8>) -> (r: Result<(), ProtoError>)
        requires
            start == old(out)@.len(),
        ensures
            final(out)@.len() >= start,
            final(out)@.subrange(0, start as int) == old(out)@,
            match self@.refusal() {
                None => r is Ok && final(out)@ == old(out)@ + self@.bytes(),
                Some(e) => r == Err::<(), ProtoError>(e),
            },
    {
        put_u32(out, 0);
        let ghost spaced = out@;
        assert(spaced.subrange(0, start as int) =~= old(out)@);
        match self.encode_payload(out) {
            Ok(()) => {},
            Err(e) => {
                return Err(e);
            },
        }
        assert(out@.subrange(start + 4, out@.len() as int) =~= self@.payload());
        assert(out@.subrange(0, start as int) =~= old(out)@);
        let r: Result<(), ProtoError> = patch_header(out, start, self.frame_type().as_byte());
        proof {
            if self@.payload().len() <= MAX_PAYLOAD {
                assert(out@ =~= old(out)@ + self@.bytes());
                assert(out@.subrange(0, start as int) =~= old(out)@);
            }
        }
        r
    }

    /// Appends the payload alone, or says which field cannot be put on the wire and leaves
    /// `out` as it was.
    fn encode_payload(&self, out: &mut Vec<u8>) -> (r: Result<(), ProtoError>)
        ensures
            match r {
                Ok(()) => final(out)@ == old(out)@ + self@.payload() && (self@.refusal() matches Some(
                    e,
                ) ==> self@.payload().len() > MAX_PAYLOAD && e == ProtoError::PayloadTooLarge(
                    reported_len(self@.payload().len()),
                )),
                Err(e) => self@.refusal() == Some(e) && final(out)@ == old(out)@,
            },
    {
        match *self {
            Frame::Hello(hello) => {
                let term: &[u8] = hello.term.as_bytes();
                if term.len() > 0xffff {
                    return Err(ProtoError::Malformed("TERM exceeds 65535 bytes"));
                }
                match checked_term(hello.term) {
                    Ok(()) => {},
                    Err(e) => {
                        return Err(e);
                    },
                }
                match checked_hello_flags(hello.flags) {
                    Ok(()) => {},
                    Err(e) => {
                        return Err(e);
                    },
                }
                put_u16(out, hello.protocol);
                put_u16(out, hello.flags);
                put_u64(out, hello.out_offset);
                put_win(out, hello.win);
                put_u16(out, term.len() as u16);
                put_bytes(out, term);
            },
            Frame::HelloOk(ok) => {
                put_u16(out, ok.protocol);
                put_u64(out, ok.resume_from);
                put_u64(out, ok.in_applied);
                put_win(out, ok.win);
                out.push(ok.flags());
            },
            Frame::Input { offset, data } => {
                put_u64(out, offset);
                put_bytes(out, data);
            },
            Frame::Output { offset, data } => {
                put_u64(out, offset);
                put_bytes(out, data);
            },
            Frame::InputAck { applied_through } => {
                put_u64(out, applied_through);
            },
            Frame::OutputAck { consumed_through } => {
                put_u64(out, consumed_through);
            },
            Frame::Gap { new_base_offset } => {
                put_u64(out, new_base_offset);
            },
            Frame::Ping { nonce } => {
                put_u64(out, nonce);
            },
            Frame::Pong { nonce } => {
                put_u64(out, nonce);
            },
            Frame::Resize(win) => {
                put_win(out, win);
            },
            Frame::Exit { status, kind } => {
                put_i32(out, status);
                out.push(kind.as_byte());
            },
            Frame::Detach => {},
            Frame::Error { code, message } => {
                put_u16(out, code.as_u16());
                put_bytes(out, message.as_bytes());
            },
            Frame::AgentOpen { chan } => {
                put_u32(out, chan);
            },
            Frame::AgentClose { chan } => {
                put_u32(out, chan);
            },
            Frame::AgentData { chan, data } => {
                put_u32(out, chan);
                put_bytes(out, data);
            },
        }
        assert(out@ =~= old(out)@ + self@.payload());
        Ok(())
    }

    /// Decodes a frame payload, borrowing byte and string fields from it.
    pub fn decode(ty: FrameType, payload: &'a [u8]) -> (r: Result<Frame<'a>, ProtoError>)
        ensures
            agrees(r, decoded(ty, payload@)),
    {
        if payload.len() > MAX_PAYLOAD as usize {
            if payload.len() > u32::MAX as usize {
                return Err(ProtoError::PayloadTooLarge(u32::MAX));
            }
            return Err(ProtoError::PayloadTooLarge(payload.len() as u32));
        }
        let mut r: Reader<'a> = Reader::new(payload);
        let frame: Frame<'a> = match ty {
            FrameType::Hello => {
                let protocol: u16 = r.u16()?;
                let flags: u16 = r.u16()?;
                checked_hello_flags(flags)?;
                let out_offset: u64 = r.u64()?;
                let win: WinSize = r.win()?;
                let term_len: u16 = r.u16()?;
                let bytes: &'a [u8] = r.take(term_len as usize)?;
                let term: &'a str = match utf8_text(bytes) {
                    Some(term) => term,
                    None => {
                        return Err(ProtoError::Malformed("TERM is not UTF-8"));
                    },
                };
                checked_term(term)?;
                Frame::Hello(Hello { protocol, flags, out_offset, win, term })
            },
            FrameType::HelloOk => {
                let protocol: u16 = r.u16()?;
                let resume_from: u64 = r.u64()?;
                let in_applied: u64 = r.u64()?;
                let win: WinSize = r.win()?;
                let flags: u8 = r.u8()?;
                if flags >= 16 {
                    return Err(ProtoError::Malformed("undefined HelloOk flag bits"));
                }
                let linger: Linger = match linger_from_flags(flags) {
                    Some(linger) => linger,
                    None => {
                        return Err(ProtoError::Malformed("unknown linger state"));
                    },
                };
                Frame::HelloOk(
                    HelloOk {
                        protocol,
                        resume_from,
                        in_applied,
                        win,
                        gap: flags % 2 == 1,
                        linger,
                        agent: flags >= 8,
                    },
                )
            },
            FrameType::Input => {
                let offset: u64 = r.u64()?;
                Frame::Input { offset, data: r.rest() }
            },
            FrameType::Output => {
                let offset: u64 = r.u64()?;
                Frame::Output { offset, data: r.rest() }
            },
            FrameType::InputAck => Frame::InputAck { applied_through: r.u64()? },
            FrameType::OutputAck => Frame::OutputAck { consumed_through: r.u64()? },
            FrameType::Resize => Frame::Resize(r.win()?),
            FrameType::Gap => Frame::Gap { new_base_offset: r.u64()? },
            FrameType::Exit => {
                let status: i32 = r.i32()?;
                let kind: ExitKind = match ExitKind::from_byte(r.u8()?) {
                    Some(kind) => kind,
                    None => {
                        return Err(ProtoError::Malformed("unknown exit kind"));
                    },
                };
                Frame::Exit { status, kind }
            },
            FrameType::Detach => Frame::Detach,
            FrameType::Ping => Frame::Ping { nonce: r.u64()? },
            FrameType::Pong => Frame::Pong { nonce: r.u64()? },
            FrameType::Error => {
                let code: ErrorCode = match ErrorCode::from_u16(r.u16()?) {
                    Some(code) => code,
                    None => {
                        return Err(ProtoError::Malformed("unknown error code"));
                    },
                };
                let message: &'a str = match utf8_text(r.rest()) {
                    Some(message) => message,
                    None => {
                        return Err(ProtoError::Malformed("error message is not UTF-8"));
                    },
                };
                Frame::Error { code, message }
            },
            FrameType::AgentOpen => Frame::AgentOpen { chan: r.u32()? },
            FrameType::AgentClose => Frame::AgentClose { chan: r.u32()? },
            FrameType::AgentData => {
                let chan: u32 = r.u32()?;
                Frame::AgentData { chan, data: r.rest() }
            },
        };
        r.finish()?;
        Ok(frame)
    }
}


// ---------------------------------------------------------------------------
// Laws
// ---------------------------------------------------------------------------

/// A greeting that can be encoded decodes to itself.
proof fn lemma_hello_decodes(hello: HelloModel)
    requires
        valid_utf8(hello.term),
        FrameModel::Hello(hello).refusal() is None,
    ensures
        decoded_hello(hello_payload(hello)) == Ok::<FrameModel, ProtoError>(
            FrameModel::Hello(hello),
        ),
{
    let p = hello_payload(hello);
    let n = hello.term.len() as u16;
    assert(p.subrange(0, 2) =~= be16(hello.protocol));
    assert(p.subrange(2, 4) =~= be16(hello.flags));
    assert(p.subrange(4, 12) =~= be64(hello.out_offset));
    assert(p.subrange(12, 20) =~= win_bytes(hello.win));
    assert(p.subrange(20, 22) =~= be16(n));
    assert(p.subrange(22, 22 + hello.term.len() as int) =~= hello.term);
    lemma_u16_written(p, 0, hello.protocol);
    lemma_u16_written(p, 2, hello.flags);
    lemma_u64_written(p, 4, hello.out_offset);
    lemma_win_written(p, 12, hello.win);
    lemma_u16_written(p, 20, n);
}

/// A greeting's payload that decodes is the encoding of what it decodes to.
proof fn lemma_hello_encodes(p: Seq<u8>)
    requires
        p.len() <= MAX_PAYLOAD,
    ensures
        decoded_hello(p) matches Ok(frame) ==> {
            &&& frame.ty() == FrameType::Hello
            &&& frame.is_text()
            &&& frame.refusal() is None
            &&& frame.payload() == p
        },
{
    if let Ok(frame) = decoded_hello(p) {
        let hello = frame->Hello_0;
        lemma_u16_read(p, 0);
        lemma_u16_read(p, 2);
        lemma_u64_read(p, 4);
        lemma_win_read(p, 12);
        lemma_u16_read(p, 20);
        assert(hello.term.len() == u16_at(p, 20));
        assert(hello_payload(hello) =~= p);
    }
}

/// An answered greeting decodes to itself.
proof fn lemma_hello_ok_decodes(ok: HelloOk)
    ensures
        decoded_hello_ok(FrameModel::HelloOk(ok).payload()) == Ok::<FrameModel, ProtoError>(
            FrameModel::HelloOk(ok),
        ),
{
    let p = FrameModel::HelloOk(ok).payload();
    assert(p.subrange(0, 2) =~= be16(ok.protocol));
    assert(p.subrange(2, 10) =~= be64(ok.resume_from));
    assert(p.subrange(10, 18) =~= be64(ok.in_applied));
    assert(p.subrange(18, 26) =~= win_bytes(ok.win));
    lemma_u16_written(p, 0, ok.protocol);
    lemma_u64_written(p, 2, ok.resume_from);
    lemma_u64_written(p, 10, ok.in_applied);
    lemma_win_written(p, 18, ok.win);
    assert(p[26] == hello_ok_flags(ok));
}

/// An ending decodes to itself.
proof fn lemma_exit_decodes(status: i32, kind: ExitKind)
    ensures
        ({
            let frame = FrameModel::Exit { status, kind };
            decoded_exit(frame.payload()) == Ok::<FrameModel, ProtoError>(frame)
        }),
{
    let p = FrameModel::Exit { status, kind }.payload();
    assert(p.subrange(0, 4) =~= be32(word_of(status)));
    assert(p[4] == kind.number());
    lemma_u32_written(p, 0, word_of(status));
    lemma_signed(status, 0);
}

/// A failure decodes to itself.
proof fn lemma_error_decodes(code: ErrorCode, message: Seq<u8>)
    requires
        valid_utf8(message),
    ensures
        ({
            let frame = FrameModel::Error { code, message };
            decoded_error(frame.payload()) == Ok::<FrameModel, ProtoError>(frame)
        }),
{
    let p = FrameModel::Error { code, message }.payload();
    lemma_parts(be16(code.number()), message);
    lemma_u16_written(p, 0, code.number());
}

/// Decoding gives back the frame that was encoded: every frame that can be put on the
/// wire at all comes off it saying what it said.
pub proof fn decode_inverts_encode(frame: FrameModel)
    requires
        frame.is_text(),
        frame.refusal() is None,
    ensures
        decoded(frame.ty(), frame.payload()) == Ok::<FrameModel, ProtoError>(frame),
{
    match frame {
        FrameModel::Hello(hello) => {
            lemma_hello_decodes(hello);
        },
        FrameModel::HelloOk(ok) => {
            lemma_hello_ok_decodes(ok);
        },
        FrameModel::Input { offset, data } => {
            lemma_u64_then(offset, data);
        },
        FrameModel::Output { offset, data } => {
            lemma_u64_then(offset, data);
        },
        FrameModel::InputAck { applied_through } => {
            lemma_alone(applied_through, 0, arbitrary());
        },
        FrameModel::Gap { new_base_offset } => {
            lemma_alone(new_base_offset, 0, arbitrary());
        },
        FrameModel::OutputAck { consumed_through } => {
            lemma_alone(consumed_through, 0, arbitrary());
        },
        FrameModel::Ping { nonce } => {
            lemma_alone(nonce, 0, arbitrary());
        },
        FrameModel::Pong { nonce } => {
            lemma_alone(nonce, 0, arbitrary());
        },
        FrameModel::Resize(win) => {
            lemma_alone(0, 0, win);
        },
        FrameModel::Exit { status, kind } => {
            lemma_exit_decodes(status, kind);
        },
        FrameModel::Detach => {},
        FrameModel::Error { code, message } => {
            lemma_error_decodes(code, message);
        },
        FrameModel::AgentOpen { chan } => {
            lemma_alone(0, chan, arbitrary());
        },
        FrameModel::AgentClose { chan } => {
            lemma_alone(0, chan, arbitrary());
        },
        FrameModel::AgentData { chan, data } => {
            lemma_u32_then(chan, data);
        },
    }
}

/// The pieces of an answered greeting's payload make it up.
proof fn lemma_joined(p: Seq<u8>)
    requires
        p.len() == 27,
    ensures
        p.subrange(0, 2) + p.subrange(2, 10) + p.subrange(10, 18) + p.subrange(18, 26) + seq![p[26]]
            == p,
{
    assert(p.subrange(0, 2) + p.subrange(2, 10) + p.subrange(10, 18) + p.subrange(18, 26) + seq![
        p[26],
    ] =~= p);
}

/// The three fields of a flags byte put it back together.
proof fn lemma_hello_ok_flags(flags: u8)
    requires
        flags < 16,
    ensures
        Linger::of_number(((flags / 2) % 4) as u8) matches Some(linger) ==> bit(
            flags % 2 == 1,
            HELLOOK_GAP,
        ) + HELLOOK_LINGER_UNIT * linger.number() + bit(flags >= 8, HELLOOK_AGENT) == flags,
{
}

/// An answered greeting's payload that decodes is the encoding of what it decodes to.
proof fn lemma_hello_ok_encodes(p: Seq<u8>)
    ensures
        decoded_hello_ok(p) matches Ok(frame) ==> frame is HelloOk && frame.payload() == p,
{
    if let Ok(frame) = decoded_hello_ok(p) {
        let ok = frame->HelloOk_0;
        lemma_u16_read(p, 0);
        lemma_u64_read(p, 2);
        lemma_u64_read(p, 10);
        lemma_win_read(p, 18);
        lemma_hello_ok_flags(p[26]);
        lemma_joined(p);
    }
}

/// An ending's payload that decodes is the encoding of what it decodes to.
proof fn lemma_exit_encodes(p: Seq<u8>)
    ensures
        decoded_exit(p) matches Ok(frame) ==> frame is Exit && frame.payload() == p,
{
    if let Ok(frame) = decoded_exit(p) {
        lemma_u32_read(p, 0);
        lemma_signed(0, u32_at(p, 0));
        assert(p.subrange(0, 4) + seq![p[4]] =~= p);
    }
}

/// A failure's payload that decodes is the encoding of what it decodes to.
proof fn lemma_error_encodes(p: Seq<u8>)
    ensures
        decoded_error(p) matches Ok(frame) ==> {
            &&& frame is Error
            &&& valid_utf8(frame->message)
            &&& frame.payload() == p
        },
{
    if let Ok(frame) = decoded_error(p) {
        lemma_u16_read(p, 0);
        assert(p.subrange(0, 2) + tail(p, 2) =~= p);
    }
}

/// Encoding gives back the payload that was decoded: the two halves are inverses, so no
/// two payloads of one type mean the same thing and nothing decodes that could not have
/// been encoded.
pub proof fn encode_inverts_decode(ty: FrameType, p: Seq<u8>)
    ensures
        decoded(ty, p) matches Ok(frame) ==> {
            &&& frame.ty() == ty
            &&& frame.is_text()
            &&& frame.refusal() is None
            &&& frame.payload() == p
        },
{
    if p.len() <= MAX_PAYLOAD {
        lemma_number_and_tail(p);
        lemma_hello_encodes(p);
        lemma_hello_ok_encodes(p);
        lemma_exit_encodes(p);
        lemma_error_encodes(p);
        if decoded(ty, p) is Ok && p.len() == 0 {
            assert(p =~= Seq::empty());
        }
    }
}

/// The flags of an answered greeting say all three of its fields and nothing else: the gap
/// in bit 0, the linger state in bits 1 and 2, the agent in bit 3 and nothing above it. Two
/// answers share their flags exactly where the three agree, and no state sets both of the
/// linger bits.
pub proof fn flags_say_each_field_in_bits_of_its_own(x: HelloOk, y: HelloOk)
    ensures
        hello_ok_flags(x) == hello_ok_flags(y) <==> x.gap == y.gap && x.linger == y.linger
            && x.agent == y.agent,
        hello_ok_flags(x) == bit(x.gap, 1) | (x.linger.number() << 1u8) | (bit(x.agent, 1) << 3u8),
        hello_ok_flags(x) & 0xf0u8 == 0,
        hello_ok_flags(x) & 0x06u8 != 0x06,
{
    let gap = bit(x.gap, 1);
    let linger = x.linger.number();
    let agent = bit(x.agent, 1);
    let flags = hello_ok_flags(x);
    assert(flags == gap + 2 * linger + 8 * agent);
    assert(flags == gap | (linger << 1u8) | (agent << 3u8) && flags & 0xf0u8 == 0 && flags & 0x06u8
        != 0x06) by (bit_vector)
        requires
            gap <= 1,
            linger <= 2,
            agent <= 1,
            flags == gap + 2 * linger + 8 * agent,
    ;
}

} // verus!
