//! The wire format at revision 7, whose one agent connection had no name: the frames
//! about it carry its bytes and nothing else.
//!
//! Everything else is laid out as [`frame`](crate::frame) lays it out, and is encoded and
//! decoded there.
use vstd::prelude::*;
use vstd::string::StringSliceAdditionalSpecFns;

use crate::codes::{ErrorCode, ExitKind};
use crate::frame;
use crate::frame::{Hello, HelloModel, HelloOk};
use crate::header::FrameType;
use crate::wire::{
    header_bytes, patch_header, put_bytes, put_u32, reported_len, ProtoError, WinSize, MAX_PAYLOAD,
};

verus! {

/// Protocol revision this layout belongs to.
pub const PROTOCOL_VERSION: u16 = 7;

/// A decoded protocol frame.
#[derive(Debug, Clone, Copy, PartialEq, Eq)]
pub enum Frame<'a> {
    /// See [`Hello`].
    Hello(Hello<'a>),
    /// See [`HelloOk`].
    HelloOk(HelloOk),
    /// Keystrokes at an absolute offset in the input stream.
    Input {
        /// Offset of the first byte of `data`.
        offset: u64,
        /// Raw bytes for the PTY master.
        data: &'a [u8],
    },
    /// Input the daemon has taken ownership of and will never re-apply.
    InputAck {
        /// Exclusive upper bound of applied input.
        applied_through: u64,
    },
    /// PTY output at an absolute offset in the output stream.
    Output {
        /// Offset of the first byte of `data`.
        offset: u64,
        /// Raw bytes from the PTY master.
        data: &'a [u8],
    },
    /// New terminal dimensions.
    Resize(WinSize),
    /// Output was discarded by ring overflow.
    Gap {
        /// New oldest retained offset.
        new_base_offset: u64,
    },
    /// The child terminated.
    Exit {
        /// Exit status, or signal number when `kind` is [`ExitKind::Signalled`].
        status: i32,
        /// How it terminated.
        kind: ExitKind,
        /// Whole seconds since the child let go of the terminal, saturating.
        since_exit_secs: u32,
    },
    /// Client is leaving without ending the session.
    Detach,
    /// Liveness probe.
    Ping,
    /// Liveness response.
    Pong,
    /// Daemon-side failure; the connection closes after this.
    Error {
        /// Machine-readable reason.
        code: ErrorCode,
        /// Human-readable detail.
        message: &'a str,
    },
    /// A process connected to the session's agent socket.
    AgentOpen,
    /// Opaque `ssh-agent` bytes for the connection being served.
    AgentData {
        /// Bytes, never parsed by the daemon.
        data: &'a [u8],
    },
    /// The served connection is finished.
    AgentClose,
}

/// What a [`Frame`] says, its text as UTF-8 bytes.
#[verifier::ext_equal]
pub enum FrameModel {
    Hello(HelloModel),
    HelloOk(HelloOk),
    Input { offset: u64, data: Seq<u8> },
    InputAck { applied_through: u64 },
    Output { offset: u64, data: Seq<u8> },
    Resize(WinSize),
    Gap { new_base_offset: u64 },
    Exit { status: i32, kind: ExitKind, since_exit_secs: u32 },
    Detach,
    Ping,
    Pong,
    Error { code: ErrorCode, message: Seq<u8> },
    AgentOpen,
    AgentData { data: Seq<u8> },
    AgentClose,
}

impl<'a> View for Frame<'a> {
    type V = FrameModel;

    open spec fn view(&self) -> FrameModel {
        match *self {
            Frame::Hello(hello) => FrameModel::Hello(hello@),
            Frame::HelloOk(ok) => FrameModel::HelloOk(ok),
            Frame::Input { offset, data } => FrameModel::Input { offset, data: data@ },
            Frame::InputAck { applied_through } => FrameModel::InputAck { applied_through },
            Frame::Output { offset, data } => FrameModel::Output { offset, data: data@ },
            Frame::Resize(win) => FrameModel::Resize(win),
            Frame::Gap { new_base_offset } => FrameModel::Gap { new_base_offset },
            Frame::Exit { status, kind, since_exit_secs } => FrameModel::Exit {
                status,
                kind,
                since_exit_secs,
            },
            Frame::Detach => FrameModel::Detach,
            Frame::Ping => FrameModel::Ping,
            Frame::Pong => FrameModel::Pong,
            Frame::Error { code, message } => FrameModel::Error {
                code,
                message: message.spec_bytes(),
            },
            Frame::AgentOpen => FrameModel::AgentOpen,
            Frame::AgentData { data } => FrameModel::AgentData { data: data@ },
            Frame::AgentClose => FrameModel::AgentClose,
        }
    }
}

impl FrameModel {
    /// The same frame in the layout that came after, for every frame but the agent's.
    pub open spec fn kept(self) -> frame::FrameModel {
        match self {
            FrameModel::Hello(hello) => frame::FrameModel::Hello(hello),
            FrameModel::HelloOk(ok) => frame::FrameModel::HelloOk(ok),
            FrameModel::Input { offset, data } => frame::FrameModel::Input { offset, data },
            FrameModel::InputAck { applied_through } => frame::FrameModel::InputAck {
                applied_through,
            },
            FrameModel::Output { offset, data } => frame::FrameModel::Output { offset, data },
            FrameModel::Resize(win) => frame::FrameModel::Resize(win),
            FrameModel::Gap { new_base_offset } => frame::FrameModel::Gap { new_base_offset },
            FrameModel::Exit { status, kind, since_exit_secs } => frame::FrameModel::Exit {
                status,
                kind,
                since_exit_secs,
            },
            FrameModel::Ping => frame::FrameModel::Ping,
            FrameModel::Pong => frame::FrameModel::Pong,
            FrameModel::Error { code, message } => frame::FrameModel::Error { code, message },
            _ => frame::FrameModel::Detach,
        }
    }

    /// The discriminant of this frame.
    pub open spec fn ty(self) -> FrameType {
        match self {
            FrameModel::AgentOpen => FrameType::AgentOpen,
            FrameModel::AgentData { .. } => FrameType::AgentData,
            FrameModel::AgentClose => FrameType::AgentClose,
            _ => self.kept().ty(),
        }
    }

    /// The text this frame carries is text, which is true of every [`Frame`].
    pub open spec fn is_text(self) -> bool {
        self.kept().is_text()
    }

    /// The payload this frame is on the wire.
    pub open spec fn payload(self) -> Seq<u8> {
        match self {
            FrameModel::AgentData { data } => data,
            FrameModel::AgentOpen => Seq::empty(),
            FrameModel::AgentClose => Seq::empty(),
            _ => self.kept().payload(),
        }
    }

    /// Why this frame cannot be encoded, where it cannot.
    pub open spec fn refusal(self) -> Option<ProtoError> {
        match self {
            FrameModel::AgentData { data } => if data.len() > MAX_PAYLOAD {
                Some(ProtoError::PayloadTooLarge(reported_len(data.len())))
            } else {
                None
            },
            _ => self.kept().refusal(),
        }
    }

    /// The whole frame on the wire, header included.
    pub open spec fn bytes(self) -> Seq<u8> {
        header_bytes(self.ty().number(), self.payload().len() as u32) + self.payload()
    }
}

/// A frame the layout that came after kept, as this revision's own.
pub open spec fn from_kept(says: frame::FrameModel) -> FrameModel {
    match says {
        frame::FrameModel::Hello(hello) => FrameModel::Hello(hello),
        frame::FrameModel::HelloOk(ok) => FrameModel::HelloOk(ok),
        frame::FrameModel::Input { offset, data } => FrameModel::Input { offset, data },
        frame::FrameModel::InputAck { applied_through } => FrameModel::InputAck { applied_through },
        frame::FrameModel::Output { offset, data } => FrameModel::Output { offset, data },
        frame::FrameModel::Resize(win) => FrameModel::Resize(win),
        frame::FrameModel::Gap { new_base_offset } => FrameModel::Gap { new_base_offset },
        frame::FrameModel::Exit { status, kind, since_exit_secs } => FrameModel::Exit {
            status,
            kind,
            since_exit_secs,
        },
        frame::FrameModel::Ping => FrameModel::Ping,
        frame::FrameModel::Pong => FrameModel::Pong,
        frame::FrameModel::Error { code, message } => FrameModel::Error { code, message },
        _ => FrameModel::Detach,
    }
}

/// What a payload of type `ty` says, or the first thing wrong with it.
pub open spec fn decoded(ty: FrameType, p: Seq<u8>) -> Result<FrameModel, ProtoError> {
    match ty {
        FrameType::AgentOpen | FrameType::AgentClose => if p.len() > MAX_PAYLOAD {
            Err(ProtoError::PayloadTooLarge(reported_len(p.len())))
        } else if p.len() > 0 {
            Err(ProtoError::TrailingBytes)
        } else if ty == FrameType::AgentOpen {
            Ok(FrameModel::AgentOpen)
        } else {
            Ok(FrameModel::AgentClose)
        },
        FrameType::AgentData => if p.len() > MAX_PAYLOAD {
            Err(ProtoError::PayloadTooLarge(reported_len(p.len())))
        } else {
            Ok(FrameModel::AgentData { data: p })
        },
        _ => match frame::decoded(ty, p) {
            Ok(says) => Ok(from_kept(says)),
            Err(e) => Err(e),
        },
    }
}

/// `r` is the frame or the complaint that `says`.
pub open spec fn agrees(
    r: Result<Frame<'_>, ProtoError>,
    says: Result<FrameModel, ProtoError>,
) -> bool {
    match (r, says) {
        (Ok(frame), Ok(model)) => frame@ == model,
        (Err(found), Err(expected)) => found == expected,
        _ => false,
    }
}

/// A frame the layout that came after kept, as this revision's own.
fn take_kept<'a>(says: frame::Frame<'a>) -> (r: Frame<'a>)
    ensures
        r@ == from_kept(says@),
{
    match says {
        frame::Frame::Hello(hello) => Frame::Hello(hello),
        frame::Frame::HelloOk(ok) => Frame::HelloOk(ok),
        frame::Frame::Input { offset, data } => Frame::Input { offset, data },
        frame::Frame::InputAck { applied_through } => Frame::InputAck { applied_through },
        frame::Frame::Output { offset, data } => Frame::Output { offset, data },
        frame::Frame::Resize(win) => Frame::Resize(win),
        frame::Frame::Gap { new_base_offset } => Frame::Gap { new_base_offset },
        frame::Frame::Exit { status, kind, since_exit_secs } => Frame::Exit {
            status,
            kind,
            since_exit_secs,
        },
        frame::Frame::Ping => Frame::Ping,
        frame::Frame::Pong => Frame::Pong,
        frame::Frame::Error { code, message } => Frame::Error { code, message },
        _ => Frame::Detach,
    }
}

impl<'a> Frame<'a> {
    /// The same frame in the layout that came after, for every frame but the agent's.
    fn kept(&self) -> (r: frame::Frame<'a>)
        ensures
            r@ == self@.kept(),
    {
        match *self {
            Frame::Hello(hello) => frame::Frame::Hello(hello),
            Frame::HelloOk(ok) => frame::Frame::HelloOk(ok),
            Frame::Input { offset, data } => frame::Frame::Input { offset, data },
            Frame::InputAck { applied_through } => frame::Frame::InputAck { applied_through },
            Frame::Output { offset, data } => frame::Frame::Output { offset, data },
            Frame::Resize(win) => frame::Frame::Resize(win),
            Frame::Gap { new_base_offset } => frame::Frame::Gap { new_base_offset },
            Frame::Exit { status, kind, since_exit_secs } => frame::Frame::Exit {
                status,
                kind,
                since_exit_secs,
            },
            Frame::Ping => frame::Frame::Ping,
            Frame::Pong => frame::Frame::Pong,
            Frame::Error { code, message } => frame::Frame::Error { code, message },
            _ => frame::Frame::Detach,
        }
    }

    /// Returns this frame's discriminant.
    pub fn frame_type(&self) -> (r: FrameType)
        ensures
            r == self@.ty(),
    {
        match *self {
            Frame::AgentOpen => FrameType::AgentOpen,
            Frame::AgentData { .. } => FrameType::AgentData,
            Frame::AgentClose => FrameType::AgentClose,
            _ => self.kept().frame_type(),
        }
    }

    /// Appends this frame, header included, to `out`, or leaves `out` as it was and says
    /// why it could not be.
    pub fn encode(&self, out: &mut Vec<u8>) -> (r: Result<(), ProtoError>)
        ensures
            match self@.refusal() {
                None => r is Ok && final(out)@ == old(out)@ + self@.bytes(),
                Some(e) => r == Err::<(), ProtoError>(e) && final(out)@ == old(out)@,
            },
    {
        let data: &[u8] = match *self {
            Frame::AgentOpen | Frame::AgentClose => &[],
            Frame::AgentData { data } => data,
            _ => {
                return self.kept().encode(out);
            },
        };
        let start: usize = out.len();
        put_u32(out, 0);
        put_bytes(out, data);
        assert(data@ =~= self@.payload());
        assert(out@.subrange(start + 4, out@.len() as int) =~= self@.payload());
        assert(out@.subrange(0, start as int) =~= old(out)@);
        match patch_header(out, start, self.frame_type().as_wire()) {
            Ok(()) => {
                assert(out@ =~= old(out)@ + self@.bytes());
                Ok(())
            },
            Err(e) => {
                out.truncate(start);
                assert(out@ =~= old(out)@);
                Err(e)
            },
        }
    }

    /// Decodes a frame payload, borrowing byte and string fields from it.
    pub fn decode(ty: FrameType, payload: &'a [u8]) -> (r: Result<Frame<'a>, ProtoError>)
        ensures
            agrees(r, decoded(ty, payload@)),
    {
        let agent: Frame<'a> = match ty {
            FrameType::AgentOpen => Frame::AgentOpen,
            FrameType::AgentClose => Frame::AgentClose,
            FrameType::AgentData => Frame::AgentData { data: payload },
            _ => {
                return match frame::Frame::decode(ty, payload) {
                    Ok(says) => Ok(take_kept(says)),
                    Err(e) => Err(e),
                };
            },
        };
        if payload.len() > MAX_PAYLOAD as usize {
            if payload.len() > u32::MAX as usize {
                return Err(ProtoError::PayloadTooLarge(u32::MAX));
            }
            return Err(ProtoError::PayloadTooLarge(payload.len() as u32));
        }
        if ty != FrameType::AgentData && payload.len() > 0 {
            return Err(ProtoError::TrailingBytes);
        }
        Ok(agent)
    }
}

/// Decoding gives back the frame that was encoded: every frame that can be put on the
/// wire at all comes off it saying what it said.
pub proof fn decode_inverts_encode(frame: FrameModel)
    requires
        frame.is_text(),
        frame.refusal() is None,
    ensures
        decoded(frame.ty(), frame.payload()) == Ok::<FrameModel, ProtoError>(frame),
{
    frame::decode_inverts_encode(frame.kept());
}

/// Encoding gives back the payload that was decoded.
pub proof fn encode_inverts_decode(ty: FrameType, p: Seq<u8>)
    ensures
        decoded(ty, p) matches Ok(frame) ==> {
            &&& frame.ty() == ty
            &&& frame.is_text()
            &&& frame.refusal() is None
            &&& frame.payload() == p
        },
{
    frame::encode_inverts_decode(ty, p);
    if decoded(ty, p) is Ok && p.len() == 0 {
        assert(p =~= Seq::empty());
    }
}

} // verus!
