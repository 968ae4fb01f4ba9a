//! Terminal sessions that outlive the connection that started them.
//!
//! A daemon owns a terminal and the child on it; clients come and go over a framed stream,
//! each resuming where the last one was. What is here decides: it holds no descriptor, reads
//! no clock and makes no call of the system. What those say is handed in, and what is to be
//! done with them is handed back.
pub mod agent;
pub mod args;
pub mod attach;
pub mod carried;
pub mod codes;
pub mod conduct;
pub mod conn;
pub mod control;
pub mod exec;
pub mod fields;
pub mod frame;
pub mod greet;
pub mod header;
pub mod history;
pub mod launcher;
pub mod laws;
pub mod layout;
pub mod line;
pub mod linger;
pub mod nbio;
pub mod passwd;
pub mod poll;
pub mod pty;
pub mod queue;
pub mod refusal;
pub mod relay;
pub mod rev11;
pub mod rev5;
pub mod rev7;
pub mod ring;
pub mod rundir;
pub mod sanitize;
pub mod serve;
pub mod session;
pub mod spawnlock;
pub mod startup;
pub mod terminal;
pub mod text;
pub mod trouble;
pub mod trust;
pub mod wire;

pub use header::{decode_header, encode_header, FrameType, Header};
pub use rev11::{
    ErrorCode, ExitKind, Frame, Hello, HelloOk, MAX_AGENT_DATA, MAX_OUTPUT_DATA, PROTOCOL_VERSION,
    SERVER_PREAMBLE,
};
pub use wire::{ProtoError, WinSize, HEADER_LEN, MAX_PAYLOAD, RESUME_FROM_START};
