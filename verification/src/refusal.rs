//! Why a client is turned away, and what it is told.
use vstd::prelude::*;
use vstd::utf8::encode_utf8;

use crate::rev11::{ErrorCode, Frame, FrameModel};
use crate::text::{byte_len, char_len, lemma_byte_len};

verus! {

/// Why a connection is ended by the daemon.
#[derive(Debug, Clone, Copy, PartialEq, Eq, Structural)]
pub enum Refusal {
    /// The next frame's header is none.
    UnparseableHeader,
    /// A connection opened with something other than a greeting.
    NotHello,
    /// A greeting whose payload is none.
    UnparseableHello,
    /// A greeting in another revision.
    WrongVersion,
    /// A conditional greeting, and somebody is attached.
    AlreadyAttached,
    /// The terminal can no longer be read.
    TerminalReadFailed,
    /// A frame whose payload is none.
    UnparseablePayload,
    /// The peer closed its sending half behind part of a frame.
    TruncatedAtEnd,
    /// A second greeting on one connection.
    AlreadyGreeted,
    /// A frame only the daemon sends.
    NotFromClient,
    /// The session's shell could not be started.
    ShellFailed,
    /// Input that begins past what was applied.
    InputGap,
    /// Another client takes the session over.
    TakenOver,
}

impl Refusal {
    /// The machine-readable reason.
    pub open spec fn code_of(self) -> ErrorCode {
        match self {
            Refusal::WrongVersion => ErrorCode::Version,
            Refusal::AlreadyAttached => ErrorCode::AlreadyAttached,
            Refusal::TerminalReadFailed => ErrorCode::Internal,
            Refusal::ShellFailed => ErrorCode::Internal,
            Refusal::InputGap => ErrorCode::InputGap,
            Refusal::TakenOver => ErrorCode::Takeover,
            _ => ErrorCode::Protocol,
        }
    }

    /// The human-readable detail.
    pub open spec fn text(self) -> Seq<char> {
        match self {
            Refusal::UnparseableHeader => "unparseable frame header"@,
            Refusal::NotHello => "first frame from a client must be Hello"@,
            Refusal::UnparseableHello => "unparseable Hello"@,
            Refusal::WrongVersion => "protocol version mismatch"@,
            Refusal::AlreadyAttached => "another client is already attached"@,
            Refusal::TerminalReadFailed => "terminal read failed"@,
            Refusal::UnparseablePayload => "unparseable frame payload"@,
            Refusal::TruncatedAtEnd => "truncated frame at end of input"@,
            Refusal::AlreadyGreeted => "this connection has already greeted"@,
            Refusal::NotFromClient => "frame is not valid from a client"@,
            Refusal::ShellFailed => "failed to start the session shell"@,
            Refusal::InputGap => "input stream skipped ahead"@,
            Refusal::TakenOver => "another client attached"@,
        }
    }

    /// The frame the connection is ended with.
    pub open spec fn says(self) -> FrameModel {
        FrameModel::Error { code: self.code_of(), message: encode_utf8(self.text()) }
    }

    /// The machine-readable reason.
    pub fn code(self) -> (r: ErrorCode)
        ensures
            r == self.code_of(),
    {
        match self {
            Refusal::WrongVersion => ErrorCode::Version,
            Refusal::AlreadyAttached => ErrorCode::AlreadyAttached,
            Refusal::TerminalReadFailed => ErrorCode::Internal,
            Refusal::ShellFailed => ErrorCode::Internal,
            Refusal::InputGap => ErrorCode::InputGap,
            Refusal::TakenOver => ErrorCode::Takeover,
            _ => ErrorCode::Protocol,
        }
    }

    /// The human-readable detail.
    pub fn message(self) -> (r: &'static str)
        ensures
            r@ == self.text(),
    {
        match self {
            Refusal::UnparseableHeader => "unparseable frame header",
            Refusal::NotHello => "first frame from a client must be Hello",
            Refusal::UnparseableHello => "unparseable Hello",
            Refusal::WrongVersion => "protocol version mismatch",
            Refusal::AlreadyAttached => "another client is already attached",
            Refusal::TerminalReadFailed => "terminal read failed",
            Refusal::UnparseablePayload => "unparseable frame payload",
            Refusal::TruncatedAtEnd => "truncated frame at end of input",
            Refusal::AlreadyGreeted => "this connection has already greeted",
            Refusal::NotFromClient => "frame is not valid from a client",
            Refusal::ShellFailed => "failed to start the session shell",
            Refusal::InputGap => "input stream skipped ahead",
            Refusal::TakenOver => "another client attached",
        }
    }

    /// The frame the connection is ended with, which every connection can carry.
    pub fn frame(self) -> (r: Frame<'static>)
        ensures
            r@ == self.says(),
            r@.refusal() is None,
    {
        proof {
            every_refusal_can_be_sent(self);
        }
        Frame::Error { code: self.code(), message: self.message() }
    }
}

/// A text takes at most four bytes a character.
proof fn lemma_byte_len_bound(s: Seq<char>)
    ensures
        byte_len(s) <= 4 * s.len(),
    decreases s.len(),
{
    if s.len() > 0 {
        lemma_byte_len_bound(s.drop_last());
        assert(char_len(s.last()) <= 4);
    }
}

/// Every refusal fits a frame, so the daemon is never left with one it cannot send.
pub proof fn every_refusal_can_be_sent(refusal: Refusal)
    ensures
        refusal.says().refusal() is None,
        refusal.says().is_text(),
{
    reveal_strlit("unparseable frame header");
    reveal_strlit("first frame from a client must be Hello");
    reveal_strlit("unparseable Hello");
    reveal_strlit("protocol version mismatch");
    reveal_strlit("another client is already attached");
    reveal_strlit("terminal read failed");
    reveal_strlit("unparseable frame payload");
    reveal_strlit("truncated frame at end of input");
    reveal_strlit("this connection has already greeted");
    reveal_strlit("frame is not valid from a client");
    reveal_strlit("failed to start the session shell");
    reveal_strlit("input stream skipped ahead");
    reveal_strlit("another client attached");
    assert(refusal.text().len() <= 64);
    lemma_byte_len_bound(refusal.text());
    lemma_byte_len(refusal.text());
    vstd::utf8::encode_utf8_valid_utf8(refusal.text());
}

} // verus!
