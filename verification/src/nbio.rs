//! What one non-blocking transfer amounts to.
//!
//! `EINTR` and `EAGAIN` are ordinary flow rather than failures, and a failed descriptor is
//! never mistaken for an ending. The transfers themselves are the caller's.
use std::collections::VecDeque;

use vstd::prelude::*;

use crate::queue::drop_front;

verus! {

/// An error number, as far as a transfer tells them apart.
#[derive(Debug, Clone, Copy, PartialEq, Eq, Structural)]
pub enum Errno {
    /// `EINTR`: a signal arrived, which says nothing about the descriptor.
    Interrupted,
    /// `EAGAIN`: nothing can move now.
    Again,
    /// `EIO`: how Linux ends reads of a PTY master whose slave is gone.
    Io,
    /// `ECONNRESET`: the peer closed with bytes of ours still unread.
    Reset,
    /// `ENOTCONN`: the connection is already gone.
    NotConnected,
    /// `EPIPE`: whoever was reading has gone.
    BrokenPipe,
    /// Any other.
    Other(i32),
}

/// Outcome of one [`read_or_eof`].
#[derive(Debug, Clone, Copy, PartialEq, Eq, Structural)]
pub enum ReadOutcome {
    /// This many bytes arrived.
    Data(usize),
    /// Peer gone, including Linux's `EIO` spelling of PTY end of file.
    Eof,
    /// Nothing to read now, which is not an ending.
    WouldBlock,
    /// The descriptor failed for a reason that is not an ending.
    Failed(Errno),
}

/// Outcome of one write of a queue.
#[derive(Debug, Clone, Copy, PartialEq, Eq, Structural)]
pub enum Drained {
    /// What could be taken was taken; a queue left over is normal.
    Done,
    /// A signal arrived; ask again.
    Retry,
    /// The write took nothing and reported no reason.
    WriteZero,
    /// The descriptor failed.
    Failed(Errno),
}

/// Whether a read that came back with `result` is to be issued again.
pub fn read_again(result: Result<usize, Errno>) -> (r: bool)
    ensures
        r == (result == Err::<usize, Errno>(Errno::Interrupted)),
{
    match result {
        Err(Errno::Interrupted) => true,
        _ => false,
    }
}

/// What a read into `room` bytes amounts to.
pub open spec fn read_as(room: usize, result: Result<usize, Errno>) -> ReadOutcome {
    if room == 0 {
        ReadOutcome::WouldBlock
    } else {
        match result {
            Ok(n) => if n > 0 {
                ReadOutcome::Data(n)
            } else {
                ReadOutcome::Eof
            },
            Err(Errno::Again) => ReadOutcome::WouldBlock,
            Err(Errno::Io) => ReadOutcome::Eof,
            Err(e) => ReadOutcome::Failed(e),
        }
    }
}

/// What a read into `room` bytes of a PTY master or an agent channel amounts to, without
/// conflating failure with end of file.
///
/// An empty buffer answers [`ReadOutcome::WouldBlock`] whatever the read came back with: a
/// read of nothing is not the peer having gone.
pub fn read_or_eof(room: usize, result: Result<usize, Errno>) -> (r: ReadOutcome)
    ensures
        r == read_as(room, result),
        r == if room == 0 {
            ReadOutcome::WouldBlock
        } else {
            match result {
                Ok(n) => if n > 0 {
                    ReadOutcome::Data(n)
                } else {
                    ReadOutcome::Eof
                },
                Err(Errno::Again) => ReadOutcome::WouldBlock,
                Err(Errno::Io) => ReadOutcome::Eof,
                Err(e) => ReadOutcome::Failed(e),
            }
        },
{
    if room == 0 {
        return ReadOutcome::WouldBlock;
    }
    match result {
        Ok(n) => if n > 0 {
            ReadOutcome::Data(n)
        } else {
            ReadOutcome::Eof
        },
        Err(Errno::Again) => ReadOutcome::WouldBlock,
        Err(Errno::Io) => ReadOutcome::Eof,
        Err(e) => ReadOutcome::Failed(e),
    }
}

/// Removes from `queue` what one write took of it, front first.
///
/// A count past the queue is taken as the whole of it, and an empty queue has nothing to
/// have been written at all.
pub fn drain_to(queue: &mut VecDeque<u8>, result: Result<usize, Errno>) -> (r: Drained)
    ensures
        r == drained(old(queue)@.len(), result),
        final(queue)@ == old(queue)@.skip(drained_by(old(queue)@.len(), result) as int),
{
    let len: usize = queue.len();
    if len == 0 {
        assert(queue@ =~= queue@.skip(0));
        return Drained::Done;
    }
    match result {
        Ok(n) => {
            if n == 0 {
                assert(queue@ =~= queue@.skip(0));
                return Drained::WriteZero;
            }
            drop_front(queue, if n < len { n } else { len });
            Drained::Done
        },
        Err(e) => {
            assert(queue@ =~= queue@.skip(0));
            match e {
                Errno::Again => Drained::Done,
                Errno::Interrupted => Drained::Retry,
                _ => Drained::Failed(e),
            }
        },
    }
}

/// What a write of a queue of `len` bytes amounts to.
pub open spec fn drained(len: nat, result: Result<usize, Errno>) -> Drained {
    if len == 0 {
        Drained::Done
    } else {
        match result {
            Ok(n) => if n == 0 {
                Drained::WriteZero
            } else {
                Drained::Done
            },
            Err(Errno::Again) => Drained::Done,
            Err(Errno::Interrupted) => Drained::Retry,
            Err(e) => Drained::Failed(e),
        }
    }
}

/// How many bytes of a queue of `len` a write took.
pub open spec fn drained_by(len: nat, result: Result<usize, Errno>) -> nat {
    match result {
        Ok(n) => if n < len {
            n as nat
        } else {
            len
        },
        Err(_) => 0,
    }
}

/// A read that brought bytes brought that many; one that brought none is the end, and so is
/// the way Linux ends a terminal; nothing to read now is no end, and any other failure is
/// one. A read into nothing says nothing.
pub proof fn a_read_is_what_it_brought(room: usize, n: usize, e: Errno)
    requires
        room > 0,
    ensures
        n > 0 ==> read_as(room, Ok(n)) == ReadOutcome::Data(n),
        read_as(room, Ok(0)) == ReadOutcome::Eof,
        read_as(room, Err(Errno::Io)) == ReadOutcome::Eof,
        read_as(room, Err(Errno::Again)) == ReadOutcome::WouldBlock,
        e != Errno::Io && e != Errno::Again ==> read_as(room, Err(e)) == ReadOutcome::Failed(e),
        read_as(0, Ok(n)) == ReadOutcome::WouldBlock,
        read_as(0, Err(e)) == ReadOutcome::WouldBlock,
{
}

/// A write that took bytes took that many and no more than there were; one that took none for
/// no reason never will, a signal is no answer, no room now is no failure, and any other
/// failure is one. With nothing to write there is nothing to say.
pub proof fn a_write_is_what_it_took(len: nat, n: usize, e: Errno)
    requires
        len > 0,
    ensures
        n > 0 ==> drained(len, Ok(n)) == Drained::Done,
        drained(len, Ok(0)) == Drained::WriteZero,
        drained(len, Err(Errno::Again)) == Drained::Done,
        drained(len, Err(Errno::Interrupted)) == Drained::Retry,
        e != Errno::Again && e != Errno::Interrupted ==> drained(len, Err(e)) == Drained::Failed(e),
        drained(0, Ok(n)) == Drained::Done,
        drained(0, Err(e)) == Drained::Done,
        n <= len ==> drained_by(len, Ok(n)) == n,
        n > len ==> drained_by(len, Ok(n)) == len,
        drained_by(len, Err(e)) == 0,
{
}

} // verus!
