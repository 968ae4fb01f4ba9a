//! The closed sets a frame carries by number: how a child ended, why a connection is
//! being closed, and whether a session outlives its user's logout.
use vstd::prelude::*;

verus! {

/// How the child process terminated.
#[derive(Debug, Clone, Copy, PartialEq, Eq, Structural)]
pub enum ExitKind {
    /// Returned a status from `main` or `exit`.
    Exited,
    /// Killed by a signal.
    Signalled,
}

impl ExitKind {
    /// Every variant, in wire order.
    pub const ALL: [ExitKind; 2] = [ExitKind::Exited, ExitKind::Signalled];

    /// The number this value is on the wire.
    pub open spec fn number(self) -> u8 {
        match self {
            ExitKind::Exited => 0,
            ExitKind::Signalled => 1,
        }
    }

    /// The value a wire number stands for.
    pub open spec fn of_number(value: u8) -> Option<ExitKind> {
        if value == 0 {
            Some(ExitKind::Exited)
        } else if value == 1 {
            Some(ExitKind::Signalled)
        } else {
            None
        }
    }

    /// Returns the wire discriminant.
    pub fn as_byte(self) -> (r: u8)
        ensures
            r == self.number(),
    {
        match self {
            ExitKind::Exited => 0,
            ExitKind::Signalled => 1,
        }
    }

    /// Parses a wire discriminant, returning `None` if unrecognised.
    pub fn from_byte(value: u8) -> (r: Option<ExitKind>)
        ensures
            r == ExitKind::of_number(value),
            r matches Some(kind) ==> kind.number() == value,
            r is None ==> forall|kind: ExitKind| #[trigger] kind.number() != value,
    {
        match value {
            0 => Some(ExitKind::Exited),
            1 => Some(ExitKind::Signalled),
            _ => None,
        }
    }
}

/// Reason the daemon is closing a connection.
#[derive(Debug, Clone, Copy, PartialEq, Eq, Structural)]
pub enum ErrorCode {
    /// Malformed or out-of-sequence frame.
    Protocol,
    /// Another client attached and took the session over.
    Takeover,
    /// The greeting's protocol revision does not match this daemon's.
    Version,
    /// Client skipped ahead in the input stream; input must not have holes.
    InputGap,
    /// Daemon-side failure.
    Internal,
}

impl ErrorCode {
    /// Every variant, in wire order.
    pub const ALL: [ErrorCode; 5] = [
        ErrorCode::Protocol,
        ErrorCode::Takeover,
        ErrorCode::Version,
        ErrorCode::InputGap,
        ErrorCode::Internal,
    ];

    /// The number this value is on the wire.
    pub open spec fn number(self) -> u16 {
        match self {
            ErrorCode::Protocol => 1,
            ErrorCode::Takeover => 2,
            ErrorCode::Version => 3,
            ErrorCode::InputGap => 4,
            ErrorCode::Internal => 5,
        }
    }

    /// The value a wire number stands for.
    pub open spec fn of_number(value: u16) -> Option<ErrorCode> {
        if 1 <= value <= 5 {
            Some(ErrorCode::ALL@[value - 1])
        } else {
            None
        }
    }

    /// Returns the wire discriminant.
    pub fn as_u16(self) -> (r: u16)
        ensures
            r == self.number(),
    {
        match self {
            ErrorCode::Protocol => 1,
            ErrorCode::Takeover => 2,
            ErrorCode::Version => 3,
            ErrorCode::InputGap => 4,
            ErrorCode::Internal => 5,
        }
    }

    /// Parses a wire discriminant, returning `None` if unrecognised.
    pub fn from_u16(value: u16) -> (r: Option<ErrorCode>)
        ensures
            r == ErrorCode::of_number(value),
            r matches Some(code) ==> code.number() == value,
            r is None ==> forall|code: ErrorCode| #[trigger] code.number() != value,
    {
        match value {
            1 => Some(ErrorCode::Protocol),
            2 => Some(ErrorCode::Takeover),
            3 => Some(ErrorCode::Version),
            4 => Some(ErrorCode::InputGap),
            5 => Some(ErrorCode::Internal),
            _ => None,
        }
    }
}

/// Whether the daemon's session outlives the user's last logout.
///
/// The daemon cannot stop `logind` from killing it at logout, so it reports the state and
/// the client warns.
#[derive(Debug, Clone, Copy, PartialEq, Eq, Structural)]
pub enum Linger {
    /// Not determined: no `systemd`, or its state is unreadable. Do not warn — on a host
    /// without `logind` there is nothing to warn about.
    Unknown,
    /// `logind` is running and lingering is off for this user. The session dies at logout
    /// if the host also sets `KillUserProcesses=yes`.
    Disabled,
    /// Lingering is on; the session survives logout.
    Enabled,
}

impl Default for Linger {
    fn default() -> (r: Linger)
        ensures
            r == Linger::Unknown,
    {
        Linger::Unknown
    }
}

impl Linger {
    /// Every variant, in wire order.
    pub const ALL: [Linger; 3] = [Linger::Unknown, Linger::Disabled, Linger::Enabled];

    /// The number this value is on the wire.
    pub open spec fn number(self) -> u8 {
        match self {
            Linger::Unknown => 0,
            Linger::Disabled => 1,
            Linger::Enabled => 2,
        }
    }

    /// The value a wire number stands for.
    pub open spec fn of_number(value: u8) -> Option<Linger> {
        if value == 0 {
            Some(Linger::Unknown)
        } else if value == 1 {
            Some(Linger::Disabled)
        } else if value == 2 {
            Some(Linger::Enabled)
        } else {
            None
        }
    }

    /// Returns the wire discriminant.
    pub fn as_byte(self) -> (r: u8)
        ensures
            r == self.number(),
    {
        match self {
            Linger::Unknown => 0,
            Linger::Disabled => 1,
            Linger::Enabled => 2,
        }
    }

    /// Parses a wire discriminant, returning `None` if unrecognised.
    pub fn from_byte(value: u8) -> (r: Option<Linger>)
        ensures
            r == Linger::of_number(value),
            r matches Some(linger) ==> linger.number() == value,
            r is None ==> forall|linger: Linger| #[trigger] linger.number() != value,
    {
        match value {
            0 => Some(Linger::Unknown),
            1 => Some(Linger::Disabled),
            2 => Some(Linger::Enabled),
            _ => None,
        }
    }
}

} // verus!
