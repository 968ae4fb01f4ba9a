//! Frame discriminants and the four-byte header they travel in.
use vstd::prelude::*;

use crate::wire::{header, header_bytes, lemma_length_field, u24, ProtoError, MAX_PAYLOAD};

verus! {

/// Frame discriminant.
///
/// Exhaustive on purpose: an unrecognised value is a bug rather than a
/// forward-compatibility case.
#[derive(Debug, Clone, Copy, PartialEq, Eq, Hash, Structural)]
pub enum FrameType {
    /// Client opens a session, carrying its resume offsets and window size.
    Hello,
    /// Daemon accepts, reporting where output will resume from.
    HelloOk,
    /// Client keystrokes, at an absolute offset in the input stream.
    Input,
    /// Daemon confirms input it has taken ownership of, and will never re-apply.
    InputAck,
    /// PTY output, at an absolute offset in the output stream.
    Output,
    /// Window size change, applied via `TIOCSWINSZ`.
    Resize,
    /// Output was discarded by ring overflow; the stream is discontinuous.
    Gap,
    /// The terminal stream ended, with the child outcome where it is known.
    Exit,
    /// Client leaves without terminating the session.
    Detach,
    /// Liveness probe.
    Ping,
    /// Liveness response.
    Pong,
    /// Daemon-side failure; the connection closes after this.
    Error,
    /// A process connected to the session's agent socket; open one to the real agent.
    AgentOpen,
    /// Opaque `ssh-agent` protocol bytes for the connection being served.
    AgentData,
    /// The served connection is finished, in either direction.
    AgentClose,
}

impl FrameType {
    /// Every variant, in wire order.
    pub const ALL: [FrameType; 15] = [
        FrameType::Hello,
        FrameType::HelloOk,
        FrameType::Input,
        FrameType::InputAck,
        FrameType::Output,
        FrameType::Resize,
        FrameType::Gap,
        FrameType::Exit,
        FrameType::Detach,
        FrameType::Ping,
        FrameType::Pong,
        FrameType::Error,
        FrameType::AgentOpen,
        FrameType::AgentData,
        FrameType::AgentClose,
    ];

    /// The number this type is on the wire.
    pub open spec fn number(self) -> u8 {
        match self {
            FrameType::Hello => 0x01,
            FrameType::HelloOk => 0x02,
            FrameType::Input => 0x03,
            FrameType::InputAck => 0x04,
            FrameType::Output => 0x05,
            FrameType::Resize => 0x06,
            FrameType::Gap => 0x07,
            FrameType::Exit => 0x08,
            FrameType::Detach => 0x09,
            FrameType::Ping => 0x0a,
            FrameType::Pong => 0x0b,
            FrameType::Error => 0x0c,
            FrameType::AgentOpen => 0x0d,
            FrameType::AgentData => 0x0e,
            FrameType::AgentClose => 0x0f,
        }
    }

    /// The type a wire number stands for.
    pub open spec fn of_number(value: u8) -> Option<FrameType> {
        if 1 <= value <= 15 {
            Some(FrameType::ALL@[value - 1])
        } else {
            None
        }
    }

    /// Returns the wire discriminant.
    pub fn as_wire(self) -> (r: u8)
        ensures
            r == self.number(),
    {
        match self {
            FrameType::Hello => 0x01,
            FrameType::HelloOk => 0x02,
            FrameType::Input => 0x03,
            FrameType::InputAck => 0x04,
            FrameType::Output => 0x05,
            FrameType::Resize => 0x06,
            FrameType::Gap => 0x07,
            FrameType::Exit => 0x08,
            FrameType::Detach => 0x09,
            FrameType::Ping => 0x0a,
            FrameType::Pong => 0x0b,
            FrameType::Error => 0x0c,
            FrameType::AgentOpen => 0x0d,
            FrameType::AgentData => 0x0e,
            FrameType::AgentClose => 0x0f,
        }
    }

    /// Parses a wire discriminant, returning `None` if unrecognised.
    pub fn from_wire(value: u8) -> (r: Option<FrameType>)
        ensures
            r == FrameType::of_number(value),
            r matches Some(ty) ==> ty.number() == value,
            r is None ==> forall|ty: FrameType| #[trigger] ty.number() != value,
    {
        if 1 <= value && value <= 15 {
            let ty: FrameType = FrameType::ALL[value as usize - 1];
            Some(ty)
        } else {
            None
        }
    }
}

/// Numbers and frame types name each other, one for one.
pub proof fn types_and_numbers_correspond(ty: FrameType, value: u8)
    ensures
        FrameType::of_number(ty.number()) == Some(ty),
        FrameType::of_number(value) matches Some(named) ==> named.number() == value,
        FrameType::of_number(value) is None ==> ty.number() != value,
{
}

/// A decoded frame header.
#[derive(Debug, Clone, Copy, PartialEq, Eq, Structural)]
pub struct Header {
    /// Frame discriminant.
    pub ty: FrameType,
    /// Payload length in bytes, `<= MAX_PAYLOAD` in every header [`decode_header`]
    /// returns.
    pub len: u32,
}

/// What the four bytes of a header say: an unknown type is named before an oversized
/// length is.
pub open spec fn decoded_header(bytes: Seq<u8>) -> Result<Header, ProtoError> {
    match FrameType::of_number(bytes[0]) {
        None => Err(ProtoError::UnknownFrameType(bytes[0])),
        Some(ty) => {
            let len = u24(bytes[1], bytes[2], bytes[3]);
            if len > MAX_PAYLOAD {
                Err(ProtoError::PayloadTooLarge(len))
            } else {
                Ok(Header { ty, len })
            }
        },
    }
}

/// Encodes a frame header.
pub fn encode_header(ty: FrameType, len: u32) -> (r: Result<[u8; 4], ProtoError>)
    ensures
        match r {
            Ok(bytes) => len <= MAX_PAYLOAD && bytes@ == header_bytes(ty.number(), len),
            Err(e) => len > MAX_PAYLOAD && e == ProtoError::PayloadTooLarge(len),
        },
{
    header(ty.as_wire(), len)
}

/// Decodes a frame header.
pub fn decode_header(bytes: &[u8; 4]) -> (r: Result<Header, ProtoError>)
    ensures
        r == decoded_header(bytes@),
        r matches Ok(header) ==> header.len <= MAX_PAYLOAD,
{
    let ty: FrameType = match FrameType::from_wire(bytes[0]) {
        Some(ty) => ty,
        None => return Err(ProtoError::UnknownFrameType(bytes[0])),
    };
    let len: u32 = bytes[1] as u32 * 0x1_0000 + bytes[2] as u32 * 0x100 + bytes[3] as u32;
    if len > MAX_PAYLOAD {
        return Err(ProtoError::PayloadTooLarge(len));
    }
    Ok(Header { ty, len })
}

/// A header that was encoded decodes to what it was encoded from.
pub proof fn headers_round_trip(ty: FrameType, len: u32)
    requires
        len <= MAX_PAYLOAD,
    ensures
        decoded_header(header_bytes(ty.number(), len)) == Ok::<Header, ProtoError>(
            Header { ty, len },
        ),
{
    lemma_length_field(len, 0, 0, 0);
}

/// Four bytes that decode are the encoding of what they decode to, so no two headers
/// mean the same thing.
pub proof fn header_bytes_are_canonical(bytes: Seq<u8>)
    requires
        bytes.len() == 4,
    ensures
        decoded_header(bytes) matches Ok(header) ==> bytes == header_bytes(
            header.ty.number(),
            header.len,
        ),
{
    lemma_length_field(0, bytes[1], bytes[2], bytes[3]);
    if let Ok(header) = decoded_header(bytes) {
        assert(bytes =~= header_bytes(header.ty.number(), header.len));
    }
}

} // verus!
