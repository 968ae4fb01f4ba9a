//! What goes wrong, in the terms its reader needs.
use vstd::prelude::*;

verus! {

/// What kind of failure something is, as far as anything here tells them apart.
#[derive(Debug, Clone, Copy, PartialEq, Eq, Structural)]
pub enum Kind {
    /// An argument that could never have been right.
    InvalidInput,
    /// Something found that is not what it should be.
    InvalidData,
    /// Nothing is there.
    NotFound,
    /// A directory was expected.
    NotADirectory,
    /// It is not this user's to do.
    PermissionDenied,
    /// The address is taken.
    AddrInUse,
    /// Somebody else holds it.
    ResourceBusy,
    /// The peer refused the connection.
    ConnectionRefused,
    /// It did not happen in time.
    TimedOut,
    /// It cannot happen now.
    WouldBlock,
    /// A signal arrived instead.
    Interrupted,
    /// There is no memory for it.
    OutOfMemory,
    /// The filesystem takes no writes.
    ReadOnlyFilesystem,
    /// Any other.
    Other,
}

/// A failure: what kind it is, and the whole account its reader gets.
#[derive(Debug)]
pub struct Trouble {
    /// What kind it is.
    pub kind: Kind,
    /// What is said of it.
    pub message: String,
}

/// What a [`Trouble`] holds.
#[verifier::ext_equal]
pub struct TroubleModel {
    pub kind: Kind,
    pub message: Seq<char>,
}

impl View for Trouble {
    type V = TroubleModel;

    open spec fn view(&self) -> TroubleModel {
        TroubleModel { kind: self.kind, message: self.message@ }
    }
}

/// `r` is the value or the failure that `says`.
pub open spec fn comes_to<T>(r: Result<T, Trouble>, says: Result<T, TroubleModel>) -> bool {
    match (r, says) {
        (Ok(found), Ok(expected)) => found == expected,
        (Err(found), Err(expected)) => found@ == expected,
        _ => false,
    }
}

} // verus!
