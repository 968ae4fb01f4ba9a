//! The relay between stdio and a session's socket: deliberately dumb, it moves bytes and
//! never parses a frame.
use std::collections::VecDeque;

use vstd::prelude::*;

use crate::agent::{after, later};
use crate::nbio::{drain_to, drained, drained_by, Drained, Errno};
use crate::poll::Reported;
use crate::queue::{halves, push_from};

verus! {

/// Largest transfer either direction makes in one call, and the whole of what a [`Pump`]
/// can be holding.
pub const RELAY_CHUNK: usize = 16 * 1024;

/// How long the final flush waits on a stdout that has moved nothing, in nanoseconds.
pub const STDOUT_FLUSH_TIMEOUT: u64 = 500_000_000;

/// How often the final flush looks up to see whether anything was delivered.
pub const STDOUT_PROGRESS_INTERVAL: u64 = 25_000_000;

/// One direction of the relay, whose whole state is whatever the destination would not take
/// yet.
#[derive(Debug)]
pub struct Pump {
    buf: VecDeque<u8>,
}

impl View for Pump {
    type V = Seq<u8>;

    closed spec fn view(&self) -> Seq<u8> {
        self.buf@
    }
}

/// What handing the destination its bytes came to.
#[derive(Debug, Clone, Copy, PartialEq, Eq, Structural)]
pub enum Handed {
    /// It took what it would.
    Taken,
    /// A signal arrived; ask again.
    Retry,
    /// Whoever was reading has gone, which is an ordinary ending.
    Gone,
    /// The write took nothing and reported no reason.
    WriteZero,
    /// The descriptor failed.
    Failed(Errno),
}

/// What one read of a source leaves the queue as.
pub open spec fn filled(queue: Seq<u8>, result: Result<usize, Errno>, chunk: Seq<u8>) -> Seq<u8> {
    match result {
        Ok(n) => queue + chunk.take(n as int),
        Err(_) => queue,
    }
}

/// What one read of a source says of it: whether it goes on, or the failure. A peer that is
/// gone has four ways of saying so.
pub open spec fn source_goes_on(result: Result<usize, Errno>) -> Result<bool, Errno> {
    match result {
        Ok(n) => Ok(n > 0),
        Err(Errno::Io) | Err(Errno::Reset) | Err(Errno::NotConnected) => Ok(false),
        Err(Errno::Again) => Ok(true),
        Err(e) => Err(e),
    }
}

/// What one write of the queue says of the destination.
pub open spec fn destination(len: nat, result: Result<usize, Errno>) -> Handed {
    match drained(len, result) {
        Drained::Done => Handed::Taken,
        Drained::Retry => Handed::Retry,
        Drained::WriteZero => Handed::WriteZero,
        Drained::Failed(Errno::BrokenPipe) => Handed::Gone,
        Drained::Failed(e) => Handed::Failed(e),
    }
}

/// What one write of the queue leaves it as: what was owed a reader that has gone is
/// dropped.
pub open spec fn owed_after(queue: Seq<u8>, result: Result<usize, Errno>) -> Seq<u8> {
    if destination(queue.len(), result) == Handed::Gone {
        Seq::empty()
    } else {
        queue.skip(drained_by(queue.len(), result) as int)
    }
}

impl Pump {
    /// A direction nothing has moved in yet.
    pub fn new() -> (r: Pump)
        ensures
            r@ == Seq::<u8>::empty(),
    {
        Pump { buf: VecDeque::new() }
    }

    /// Whether anything is still held for the destination: the only reason to ask it for
    /// room and — negated — the only condition under which the source is read at all, so
    /// nothing can overtake bytes already owed.
    pub fn has_data(&self) -> (r: bool)
        ensures
            r == (self@.len() > 0),
    {
        self.buf.len() > 0
    }

    /// How much the destination has still not taken.
    pub fn owed(&self) -> (r: usize)
        ensures
            r == self@.len(),
    {
        self.buf.len()
    }

    /// What is owed, in two parts.
    pub fn queue(&self) -> (r: (&[u8], &[u8]))
        ensures
            r.0@ + r.1@ == self@,
    {
        halves(&self.buf)
    }

    /// Takes in one read of the source, `chunk` holding what arrived, and says whether the
    /// source goes on. Nothing pending is not an end.
    pub fn fill_from(&mut self, result: Result<usize, Errno>, chunk: &[u8]) -> (r: Result<
        bool,
        Errno,
    >)
        requires
            result matches Ok(n) ==> n <= chunk@.len(),
        ensures
            final(self)@ == filled(old(self)@, result, chunk@),
            r == source_goes_on(result),
    {
        match result {
            Ok(n) => {
                let got: &[u8] = vstd::slice::slice_subrange(chunk, 0, n);
                push_from(&mut self.buf, got, 0);
                assert(got@.skip(0) =~= chunk@.take(n as int));
                Ok(n > 0)
            },
            Err(Errno::Io) | Err(Errno::Reset) | Err(Errno::NotConnected) => Ok(false),
            Err(Errno::Again) => Ok(true),
            Err(e) => Err(e),
        }
    }

    /// Takes out what one write took.
    pub fn drain_to(&mut self, result: Result<usize, Errno>) -> (r: Handed)
        ensures
            final(self)@ == owed_after(old(self)@, result),
            r == destination(old(self)@.len(), result),
    {
        match drain_to(&mut self.buf, result) {
            Drained::Done => Handed::Taken,
            Drained::Retry => Handed::Retry,
            Drained::WriteZero => Handed::WriteZero,
            Drained::Failed(Errno::BrokenPipe) => {
                self.buf.clear();
                assert(self@ =~= Seq::empty());
                Handed::Gone
            },
            Drained::Failed(e) => Handed::Failed(e),
        }
    }
}

// ---------------------------------------------------------------------------
// Both directions
// ---------------------------------------------------------------------------

/// What the poll reported of one descriptor.
#[derive(Debug, Clone, Copy, PartialEq, Eq, Structural)]
pub struct Events {
    /// It can be read, has hung up, has failed, or is not open.
    pub readable: bool,
    /// It can be written.
    pub writable: bool,
    /// It has hung up, has failed, or is not open.
    pub broken: bool,
    /// It is not open.
    pub invalid: bool,
}

impl Events {
    /// What a relay goes by.
    pub open spec fn from_poll(reported: Reported) -> Events {
        Events {
            readable: reported.serviceable(),
            writable: reported.output,
            broken: reported.error || reported.hang_up || reported.invalid,
            invalid: reported.invalid,
        }
    }

    /// What a relay goes by, from what the poll reported.
    pub fn of(reported: Reported) -> (r: Events)
        ensures
            r == Events::from_poll(reported),
            r == (Events {
                readable: reported.serviceable(),
                writable: reported.output,
                broken: reported.error || reported.hang_up || reported.invalid,
                invalid: reported.invalid,
            }),
    {
        Events {
            readable: reported.readable(),
            writable: reported.output,
            broken: reported.error || reported.hang_up || reported.invalid,
            invalid: reported.invalid,
        }
    }
}

/// What the poll is asked.
#[derive(Debug, Clone, Copy, PartialEq, Eq, Structural)]
pub struct Wanted {
    /// To read stdin.
    pub stdin: bool,
    /// To read the socket.
    pub socket_read: bool,
    /// To write the socket.
    pub socket_write: bool,
    /// To write stdout.
    pub stdout: bool,
}

/// The relay: both directions, and which of its ends are still open.
#[derive(Debug)]
pub struct Relay {
    /// From stdin to the socket.
    pub to_socket: Pump,
    /// From the socket to stdout.
    pub to_stdout: Pump,
    /// Whether stdin is still read.
    pub stdin_open: bool,
    /// Whether the socket is still read.
    pub socket_open: bool,
    /// Whether stdout is still written.
    pub stdout_open: bool,
}

/// What a [`Relay`] holds.
#[verifier::ext_equal]
pub struct RelayModel {
    pub to_socket: Seq<u8>,
    pub to_stdout: Seq<u8>,
    pub stdin_open: bool,
    pub socket_open: bool,
    pub stdout_open: bool,
}

impl View for Relay {
    type V = RelayModel;

    open spec fn view(&self) -> RelayModel {
        RelayModel {
            to_socket: self.to_socket@,
            to_stdout: self.to_stdout@,
            stdin_open: self.stdin_open,
            socket_open: self.socket_open,
            stdout_open: self.stdout_open,
        }
    }
}

impl RelayModel {
    /// Neither direction holds more than one transfer.
    pub open spec fn wf(self) -> bool {
        self.to_socket.len() <= RELAY_CHUNK && self.to_stdout.len() <= RELAY_CHUNK
    }

    /// Whether there is anything left to relay: until stdout is gone, or the socket has
    /// closed and everything it said was handed on.
    pub open spec fn runs(self) -> bool {
        self.stdout_open && (self.socket_open || self.to_stdout.len() > 0)
    }

    /// What the poll is asked: a source only while its destination is owed nothing, a
    /// destination only while it is owed something.
    pub open spec fn wanted(self) -> Wanted {
        Wanted {
            stdin: self.stdin_open && self.to_socket.len() == 0,
            socket_read: self.socket_open && self.to_stdout.len() == 0,
            socket_write: self.to_socket.len() > 0,
            stdout: self.to_stdout.len() > 0,
        }
    }

    /// After one read of stdin: what arrived is owed the socket, and an end closes it.
    pub open spec fn after_stdin_read(
        self,
        result: Result<usize, Errno>,
        chunk: Seq<u8>,
    ) -> RelayModel {
        RelayModel {
            to_socket: filled(self.to_socket, result, chunk),
            stdin_open: self.stdin_open && source_goes_on(result) != Ok::<bool, Errno>(false),
            ..self
        }
    }

    /// After one read of the socket: what arrived is owed stdout, and an end closes it.
    pub open spec fn after_socket_read(
        self,
        result: Result<usize, Errno>,
        chunk: Seq<u8>,
    ) -> RelayModel {
        RelayModel {
            to_stdout: filled(self.to_stdout, result, chunk),
            socket_open: self.socket_open && source_goes_on(result) != Ok::<bool, Errno>(false),
            ..self
        }
    }

    /// After one write of the socket: a peer that has gone is owed nothing and stdin is no
    /// longer read for it.
    pub open spec fn after_socket_wrote(self, result: Result<usize, Errno>) -> RelayModel {
        RelayModel {
            to_socket: owed_after(self.to_socket, result),
            stdin_open: self.stdin_open && destination(self.to_socket.len(), result)
                != Handed::Gone,
            ..self
        }
    }

    /// After one write of stdout: a reader that has gone is owed nothing.
    pub open spec fn after_stdout_wrote(self, result: Result<usize, Errno>) -> RelayModel {
        RelayModel {
            to_stdout: owed_after(self.to_stdout, result),
            stdout_open: self.stdout_open && destination(self.to_stdout.len(), result)
                != Handed::Gone,
            ..self
        }
    }

    /// With stdin no longer read.
    pub open spec fn without_stdin(self) -> RelayModel {
        RelayModel { stdin_open: false, ..self }
    }

    /// With stdout no longer written.
    pub open spec fn without_stdout(self) -> RelayModel {
        RelayModel { stdout_open: false, ..self }
    }
}

/// What is done with stdin.
enum StdinStep {
    /// Nothing.
    Nothing,
    /// It is gone: stop reading it, and close the sending half of the socket.
    Close,
    /// Read it.
    Read,
}

/// What is done with stdout.
#[derive(Debug, Clone, Copy, PartialEq, Eq, Structural)]
pub enum StdoutStep {
    /// Nothing.
    Nothing,
    /// Write it.
    Write,
    /// It is gone.
    Closed,
}

impl Relay {
    /// A relay nothing has moved over yet.
    pub fn new() -> (r: Relay)
        ensures
            r@ == (RelayModel {
                to_socket: Seq::empty(),
                to_stdout: Seq::empty(),
                stdin_open: true,
                socket_open: true,
                stdout_open: true,
            }),
            r@.wf(),
    {
        Relay {
            to_socket: Pump::new(),
            to_stdout: Pump::new(),
            stdin_open: true,
            socket_open: true,
            stdout_open: true,
        }
    }

    /// Whether there is anything left to relay.
    pub fn is_running(&self) -> (r: bool)
        ensures
            r == self@.runs(),
    {
        self.stdout_open && (self.socket_open || self.to_stdout.has_data())
    }

    /// What the poll is asked.
    pub fn wanted(&self) -> (r: Wanted)
        ensures
            r == self@.wanted(),
    {
        Wanted {
            stdin: self.stdin_open && !self.to_socket.has_data(),
            socket_read: self.socket_open && !self.to_stdout.has_data(),
            socket_write: self.to_socket.has_data(),
            stdout: self.to_stdout.has_data(),
        }
    }

    /// What is done with stdin: one that is not open has ended, and a read of it could only
    /// report a failure of a relay whose other direction is perfectly good.
    fn stdin_step(&self, events: Events) -> (r: StdinStep)
        ensures
            r == if !self@.wanted().stdin || !events.readable {
                StdinStep::Nothing
            } else if events.invalid {
                StdinStep::Close
            } else {
                StdinStep::Read
            },
    {
        if !self.stdin_open || self.to_socket.has_data() || !events.readable {
            StdinStep::Nothing
        } else if events.invalid {
            StdinStep::Close
        } else {
            StdinStep::Read
        }
    }

    /// Stops reading stdin.
    pub fn close_stdin(&mut self)
        ensures
            final(self)@ == old(self)@.without_stdin(),
    {
        self.stdin_open = false;
    }

    /// Takes in one read of stdin, and says whether it goes on: where it does not, the
    /// sending half of the socket is to be closed.
    pub fn stdin_read(&mut self, result: Result<usize, Errno>, chunk: &[u8]) -> (r: Result<
        bool,
        Errno,
    >)
        requires
            old(self)@.wf(),
            old(self)@.wanted().stdin,
            result matches Ok(n) ==> n <= chunk@.len(),
            chunk@.len() <= RELAY_CHUNK,
        ensures
            final(self)@.wf(),
            r == source_goes_on(result),
            final(self)@ == old(self)@.after_stdin_read(result, chunk@),
    {
        let came: Result<bool, Errno> = self.to_socket.fill_from(result, chunk);
        if let Ok(false) = came {
            self.stdin_open = false;
        }
        came
    }

    /// Whether the socket is to be read. A hang-up arrives unrequested, so the emptiness of
    /// the queue is asked for again.
    fn reads_socket(&self, events: Events) -> (r: bool)
        ensures
            r == (events.readable && self@.to_stdout.len() == 0),
    {
        events.readable && !self.to_stdout.has_data()
    }

    /// Takes in one read of the socket.
    pub fn socket_read(&mut self, result: Result<usize, Errno>, chunk: &[u8]) -> (r: Result<
        bool,
        Errno,
    >)
        requires
            old(self)@.wf(),
            old(self)@.to_stdout.len() == 0,
            result matches Ok(n) ==> n <= chunk@.len(),
            chunk@.len() <= RELAY_CHUNK,
        ensures
            final(self)@.wf(),
            r == source_goes_on(result),
            final(self)@ == old(self)@.after_socket_read(result, chunk@),
    {
        let came: Result<bool, Errno> = self.to_stdout.fill_from(result, chunk);
        if let Ok(false) = came {
            self.socket_open = false;
        }
        came
    }

    /// Whether the socket is to be written: also where it was not reported writable, an
    /// optimistic write costing at worst one refusal.
    fn writes_socket(&self, events: Events) -> (r: bool)
        ensures
            r == (events.writable || self@.to_socket.len() > 0),
    {
        events.writable || self.to_socket.has_data()
    }

    /// Takes out what one write of the socket took. A peer that has stopped reading ends
    /// this direction only.
    pub fn socket_wrote(&mut self, result: Result<usize, Errno>) -> (r: Handed)
        requires
            old(self)@.wf(),
        ensures
            final(self)@.wf(),
            r == destination(old(self)@.to_socket.len(), result),
            final(self)@ == old(self)@.after_socket_wrote(result),
    {
        let came: Handed = self.to_socket.drain_to(result);
        if let Handed::Gone = came {
            self.stdin_open = false;
        }
        came
    }

    /// Stops writing stdout.
    pub fn close_stdout(&mut self)
        ensures
            final(self)@ == old(self)@.without_stdout(),
    {
        self.stdout_open = false;
    }

    /// Takes out what one write of stdout took.
    pub fn stdout_wrote(&mut self, result: Result<usize, Errno>) -> (r: Handed)
        requires
            old(self)@.wf(),
        ensures
            final(self)@.wf(),
            r == destination(old(self)@.to_stdout.len(), result),
            final(self)@ == old(self)@.after_stdout_wrote(result),
    {
        let came: Handed = self.to_stdout.drain_to(result);
        if let Handed::Gone = came {
            self.stdout_open = false;
        }
        came
    }
}

/// What the poll reported.
#[derive(Debug, Clone, Copy, PartialEq, Eq, Structural)]
pub struct Report {
    /// Of stdin, nothing where it was not asked for.
    pub stdin: Events,
    /// Of the socket, nothing where it was not asked for.
    pub socket: Events,
    /// Of stdout.
    pub stdout: Events,
}

/// What a pass of the relay may have to do.
#[derive(Debug, Clone, Copy, PartialEq, Eq, Structural)]
pub enum RelayTask {
    /// Stop reading stdin, and close the sending half of the socket.
    CloseStdin,
    /// Read stdin; close the sending half of the socket where it has ended.
    ReadStdin,
    /// Read the socket.
    ReadSocket,
    /// Write the socket.
    WriteSocket,
    /// Stop writing stdout.
    CloseStdout,
    /// Write stdout.
    WriteStdout,
}

impl RelayModel {
    /// What is due at one place of a pass: stdin first, then the socket both ways, then
    /// stdout.
    pub open spec fn due(self, place: nat, report: Report) -> Option<RelayTask> {
        if place == 0 {
            if !self.wanted().stdin || !report.stdin.readable {
                None
            } else if report.stdin.invalid {
                Some(RelayTask::CloseStdin)
            } else {
                Some(RelayTask::ReadStdin)
            }
        } else if place == 1 {
            if report.socket.readable && self.to_stdout.len() == 0 {
                Some(RelayTask::ReadSocket)
            } else {
                None
            }
        } else if place == 2 {
            if report.socket.writable || self.to_socket.len() > 0 {
                Some(RelayTask::WriteSocket)
            } else {
                None
            }
        } else if place == 3 {
            if report.stdout.broken {
                Some(RelayTask::CloseStdout)
            } else if report.stdout.writable {
                Some(RelayTask::WriteStdout)
            } else {
                None
            }
        } else {
            None
        }
    }

    /// The next thing to do at or behind `place`, and the place behind it.
    pub open spec fn next(self, place: nat, report: Report) -> Option<(RelayTask, nat)>
        decreases 4 - place,
    {
        if place >= 4 {
            None
        } else {
            match self.due(place, report) {
                Some(task) => Some((task, place + 1)),
                None => self.next(place + 1, report),
            }
        }
    }
}

impl Relay {
    /// The next thing a pass has to do at or behind `place`, and the place to go on from once
    /// it is done; nothing once the pass is over. Asked anew after each, because what was
    /// done decides what is left to do.
    pub fn next(&self, place: usize, report: Report) -> (r: Option<(RelayTask, usize)>)
        ensures
            match (r, self@.next(place as nat, report)) {
                (Some((task, at)), Some((due, behind))) => task == due && at == behind,
                (None, None) => true,
                _ => false,
            },
    {
        let mut at: usize = place;
        while at < 4
            invariant
                self@.next(at as nat, report) == self@.next(place as nat, report),
            decreases 4 - at,
        {
            let due: Option<RelayTask> = if at == 0 {
                match self.stdin_step(report.stdin) {
                    StdinStep::Nothing => None,
                    StdinStep::Close => Some(RelayTask::CloseStdin),
                    StdinStep::Read => Some(RelayTask::ReadStdin),
                }
            } else if at == 1 {
                if self.reads_socket(report.socket) {
                    Some(RelayTask::ReadSocket)
                } else {
                    None
                }
            } else if at == 2 {
                if self.writes_socket(report.socket) {
                    Some(RelayTask::WriteSocket)
                } else {
                    None
                }
            } else {
                match copy_step(report.stdout) {
                    StdoutStep::Closed => Some(RelayTask::CloseStdout),
                    StdoutStep::Write => Some(RelayTask::WriteStdout),
                    StdoutStep::Nothing => None,
                }
            };
            if let Some(task) = due {
                return Some((task, at + 1));
            }
            at += 1;
        }
        None
    }
}

// ---------------------------------------------------------------------------
// The blocking half of stdout
// ---------------------------------------------------------------------------

/// What is done with stdout.
pub open spec fn copies(events: Events) -> StdoutStep {
    if events.broken {
        StdoutStep::Closed
    } else if events.writable {
        StdoutStep::Write
    } else {
        StdoutStep::Nothing
    }
}

/// What is done with stdout, from what the poll said of it.
pub fn copy_step(events: Events) -> (r: StdoutStep)
    ensures
        r == copies(events),
        r == if events.broken {
            StdoutStep::Closed
        } else if events.writable {
            StdoutStep::Write
        } else {
            StdoutStep::Nothing
        },
{
    if events.broken {
        StdoutStep::Closed
    } else if events.writable {
        StdoutStep::Write
    } else {
        StdoutStep::Nothing
    }
}

/// How far the worker's count of deliveries has come after a write.
pub open spec fn counted(progress: u64, owed_before: usize, owed_now: usize) -> u64 {
    if owed_now >= owed_before {
        progress
    } else if progress == u64::MAX {
        0
    } else {
        (progress + 1) as u64
    }
}

/// How far the worker's count of deliveries has come after a write: moved rather than
/// merely attempted, because a descriptor that is writable and takes nothing is precisely
/// the stall the final flush gives up on.
pub fn progressed(progress: u64, owed_before: usize, owed_now: usize) -> (r: u64)
    ensures
        r == counted(progress, owed_before, owed_now),
        r == if owed_now >= owed_before {
            progress
        } else if progress == u64::MAX {
            0
        } else {
            (progress + 1) as u64
        },
{
    if owed_now >= owed_before {
        progress
    } else if progress == u64::MAX {
        0
    } else {
        progress + 1
    }
}

/// The wait for the worker to have delivered everything.
#[derive(Debug, Clone, Copy, PartialEq, Eq, Structural)]
pub struct Finish {
    /// How many bytes of the worker's status have arrived.
    pub received: usize,
    /// The count of deliveries when it was last looked at.
    pub seen: u64,
    /// When a worker that moves nothing is given up.
    pub window: u64,
}

/// How many bytes the worker's status has.
pub const STATUS_LEN: usize = 4;

/// What reading the worker's status came back with.
#[derive(Debug, Clone, Copy, PartialEq, Eq, Structural)]
pub enum StatusRead {
    /// This many bytes of it; none is the worker having died before it could say.
    Bytes(usize),
    /// Nothing yet: the interval ran out, or a signal arrived.
    Nothing,
    /// The read failed.
    Failed,
}

/// What the wait does next.
#[derive(Debug, Clone, Copy, PartialEq, Eq, Structural)]
pub enum FinishStep {
    /// Read on.
    Again,
    /// The status is complete.
    Complete,
    /// The worker died without one.
    UnexpectedEof,
    /// The read failed.
    Failed,
}

impl Finish {
    /// A wait that begins at `now`.
    pub open spec fn begun(progress: u64, now: u64) -> Finish {
        Finish { received: 0, seen: progress, window: later(now, STDOUT_FLUSH_TIMEOUT) }
    }

    /// How long the next read may wait.
    pub open spec fn allows(self, now: u64) -> Option<u64> {
        if now >= self.window {
            None
        } else if self.window - now < STDOUT_PROGRESS_INTERVAL {
            Some((self.window - now) as u64)
        } else {
            Some(STDOUT_PROGRESS_INTERVAL)
        }
    }

    /// After one read of the status, and what the wait does next.
    pub open spec fn after(self, read: StatusRead, progress: u64, now: u64) -> (Finish, FinishStep) {
        match read {
            StatusRead::Failed => (self, FinishStep::Failed),
            StatusRead::Bytes(n) => if n == 0 {
                (self, FinishStep::UnexpectedEof)
            } else {
                (
                    Finish {
                        received: (self.received + n) as usize,
                        seen: progress,
                        window: later(now, STDOUT_FLUSH_TIMEOUT),
                    },
                    if self.received + n == STATUS_LEN {
                        FinishStep::Complete
                    } else {
                        FinishStep::Again
                    },
                )
            },
            StatusRead::Nothing => (
                if progress != self.seen {
                    Finish {
                        seen: progress,
                        window: later(now, STDOUT_FLUSH_TIMEOUT),
                        ..self
                    }
                } else {
                    self
                },
                FinishStep::Again,
            ),
        }
    }

    /// A wait that begins at `now`.
    pub fn begin(progress: u64, now: u64) -> (r: Finish)
        ensures
            r == Finish::begun(progress, now),
            r == (Finish { received: 0, seen: progress, window: later(now, STDOUT_FLUSH_TIMEOUT) }),
    {
        Finish { received: 0, seen: progress, window: after(now, STDOUT_FLUSH_TIMEOUT) }
    }

    /// How long the next read may wait, or nothing where the worker is given up: what is
    /// left of the window, and never longer than it takes to look up again.
    pub fn allowance(&self, now: u64) -> (r: Option<u64>)
        ensures
            r == self.allows(now),
            r == if now >= self.window {
                None
            } else if self.window - now < STDOUT_PROGRESS_INTERVAL {
                Some((self.window - now) as u64)
            } else {
                Some(STDOUT_PROGRESS_INTERVAL)
            },
    {
        if now >= self.window {
            None
        } else if self.window - now < STDOUT_PROGRESS_INTERVAL {
            Some(self.window - now)
        } else {
            Some(STDOUT_PROGRESS_INTERVAL)
        }
    }

    /// Takes in one read of the status, `progress` being the count of deliveries now.
    /// Whatever moved opens the window anew, so a slow stdout is not cut off, and a stopped
    /// one is not waited on for ever.
    pub fn came(&mut self, read: StatusRead, progress: u64, now: u64) -> (r: FinishStep)
        requires
            old(self).received < STATUS_LEN,
            read matches StatusRead::Bytes(n) ==> n <= STATUS_LEN - old(self).received,
        ensures
            (*final(self), r) == old(self).after(read, progress, now),
            match read {
                StatusRead::Failed => r == FinishStep::Failed && *final(self) == *old(self),
                StatusRead::Bytes(0) => r == FinishStep::UnexpectedEof && *final(self)
                    == *old(self),
                StatusRead::Bytes(n) => {
                    &&& *final(self) == (Finish {
                        received: (old(self).received + n) as usize,
                        seen: progress,
                        window: later(now, STDOUT_FLUSH_TIMEOUT),
                    })
                    &&& r == if old(self).received + n == STATUS_LEN {
                        FinishStep::Complete
                    } else {
                        FinishStep::Again
                    }
                },
                StatusRead::Nothing => {
                    &&& r == FinishStep::Again
                    &&& *final(self) == if progress != old(self).seen {
                        Finish {
                            seen: progress,
                            window: later(now, STDOUT_FLUSH_TIMEOUT),
                            ..*old(self)
                        }
                    } else {
                        *old(self)
                    }
                },
            },
    {
        let delivered: bool = match read {
            StatusRead::Failed => {
                return FinishStep::Failed;
            },
            StatusRead::Bytes(n) => {
                if n == 0 {
                    return FinishStep::UnexpectedEof;
                }
                self.received = self.received + n;
                true
            },
            StatusRead::Nothing => false,
        };
        if delivered || progress != self.seen {
            self.seen = progress;
            self.window = after(now, STDOUT_FLUSH_TIMEOUT);
        }
        if self.received < STATUS_LEN {
            FinishStep::Again
        } else {
            FinishStep::Complete
        }
    }
}

/// How the worker ended.
#[derive(Debug, Clone, Copy, PartialEq, Eq, Structural)]
pub enum WorkerEnd {
    /// Everything was delivered.
    Clean,
    /// The system said this.
    Os(i32),
    /// It failed without a number to say it by.
    Failed,
}

/// What a worker's status says of its end.
pub open spec fn ended(status: i32) -> WorkerEnd {
    if status == 0 {
        WorkerEnd::Clean
    } else if status > 0 {
        WorkerEnd::Os(status)
    } else {
        WorkerEnd::Failed
    }
}

/// What a worker's status says of its end.
pub fn worker_end(status: i32) -> (r: WorkerEnd)
    ensures
        r == ended(status),
        r == if status == 0 {
            WorkerEnd::Clean
        } else if status > 0 {
            WorkerEnd::Os(status)
        } else {
            WorkerEnd::Failed
        },
{
    if status == 0 {
        WorkerEnd::Clean
    } else if status > 0 {
        WorkerEnd::Os(status)
    } else {
        WorkerEnd::Failed
    }
}

/// The status for how a worker ended.
pub open spec fn status_of(failed: bool, errno: Option<i32>) -> i32 {
    if !failed {
        0i32
    } else {
        match errno {
            Some(n) if n > 0 => n,
            _ => -1i32,
        }
    }
}

/// The status a worker sends for how it ended, `errno` being the system's number for a
/// failure that has one.
pub fn worker_status(failed: bool, errno: Option<i32>) -> (r: i32)
    ensures
        r == status_of(failed, errno),
{
    if !failed {
        return 0;
    }
    match errno {
        Some(n) if n > 0 => n,
        _ => -1,
    }
}

// ---------------------------------------------------------------------------
// Laws
// ---------------------------------------------------------------------------

/// The relay neither loses, repeats nor reorders a byte: what a write takes is the front of
/// what was owed, and what is owed after it, with that in front, is what was owed before.
pub proof fn a_pump_keeps_every_byte_in_order(
    queue: Seq<u8>,
    read: Result<usize, Errno>,
    chunk: Seq<u8>,
    write: Result<usize, Errno>,
)
    requires
        read matches Ok(n) ==> n <= chunk.len(),
    ensures
        ({
            let owed = filled(queue, read, chunk);
            let n = drained_by(owed.len(), write) as int;
            &&& read matches Ok(got) ==> owed == queue + chunk.take(got as int)
            &&& destination(owed.len(), write) != Handed::Gone ==> owed.take(n) + owed_after(
                owed,
                write,
            ) == owed
        }),
{
    let owed = filled(queue, read, chunk);
    let n = drained_by(owed.len(), write) as int;
    assert(owed.take(n) + owed.skip(n) =~= owed);
}

/// A source is read only while its destination is owed nothing, so neither direction ever
/// holds more than one transfer and nothing overtakes bytes already owed.
pub proof fn a_source_waits_for_its_destination(relay: RelayModel)
    ensures
        relay.wanted().stdin ==> relay.to_socket.len() == 0,
        relay.wanted().socket_read ==> relay.to_stdout.len() == 0,
        relay.wanted().stdin ==> !relay.wanted().socket_write,
        relay.wanted().socket_read ==> !relay.wanted().stdout,
{
}

/// A pass never reads a source into a queue that is not empty.
pub proof fn a_pass_never_overfills(relay: RelayModel, place: nat, report: Report)
    ensures
        relay.next(place, report) matches Some((task, _)) ==> {
            &&& task == RelayTask::ReadStdin ==> relay.to_socket.len() == 0 && relay.stdin_open
            &&& task == RelayTask::ReadSocket ==> relay.to_stdout.len() == 0
        },
    decreases 4 - place,
{
    if place < 4 && relay.due(place, report) is None {
        a_pass_never_overfills(relay, place + 1, report);
    }
}

/// The relay does not end with bytes of the session still owed to a stdout that takes them.
pub proof fn the_relay_ends_with_nothing_owed(relay: RelayModel)
    requires
        !relay.runs(),
    ensures
        relay.stdout_open ==> relay.to_stdout.len() == 0 && !relay.socket_open,
{
}

/// What a worker sends for its end says of it what is so: everything was delivered, or it
/// was not and this is the system's number for that where there is one.
pub proof fn a_worker_status_reads_back(failed: bool, errno: Option<i32>)
    ensures
        status_of(failed, errno) == 0 <==> !failed,
        status_of(failed, errno) > 0 ==> errno == Some(status_of(failed, errno)),
{
}

/// A source that brought bytes goes on, one that brought none is at its end, and so is one
/// whose peer is gone, however the system puts that; nothing to read now is no end, and any
/// other failure is one.
pub proof fn a_source_ends_where_its_peer_is_gone(n: usize, e: Errno)
    ensures
        n > 0 ==> source_goes_on(Ok(n)) == Ok::<bool, Errno>(true),
        source_goes_on(Ok(0)) == Ok::<bool, Errno>(false),
        source_goes_on(Err(Errno::Again)) == Ok::<bool, Errno>(true),
        e == Errno::Io || e == Errno::Reset || e == Errno::NotConnected ==> source_goes_on(Err(e))
            == Ok::<bool, Errno>(false),
        e != Errno::Io && e != Errno::Reset && e != Errno::NotConnected && e != Errno::Again
            ==> source_goes_on(Err(e)) == Err::<bool, Errno>(e),
{
}

/// A destination whose reader left is gone, which is an ordinary ending; one that took bytes
/// or has no room now is there, a signal is no answer, and any other failure is one.
pub proof fn a_destination_is_gone_where_its_reader_left(len: nat, n: usize, e: Errno)
    requires
        len > 0,
    ensures
        n > 0 ==> destination(len, Ok(n)) == Handed::Taken,
        destination(len, Ok(0)) == Handed::WriteZero,
        destination(len, Err(Errno::BrokenPipe)) == Handed::Gone,
        destination(len, Err(Errno::Again)) == Handed::Taken,
        destination(len, Err(Errno::Interrupted)) == Handed::Retry,
        e != Errno::BrokenPipe && e != Errno::Again && e != Errno::Interrupted ==> destination(
            len,
            Err(e),
        ) == Handed::Failed(e),
        destination(0, Err(e)) == Handed::Taken,
{
}

/// Each end is closed by what ends it and by nothing else: stdin by its own end or a peer that
/// stopped reading, the socket by its own end, stdout by a reader that left.
pub proof fn an_end_is_closed_by_what_ends_it(
    relay: RelayModel,
    result: Result<usize, Errno>,
    chunk: Seq<u8>,
)
    ensures
        ({
            let over = source_goes_on(result) == Ok::<bool, Errno>(false);
            let typed = relay.after_stdin_read(result, chunk);
            let told = relay.after_socket_read(result, chunk);
            let sent = relay.after_socket_wrote(result);
            let shown = relay.after_stdout_wrote(result);
            &&& typed.stdin_open == (relay.stdin_open && !over)
            &&& typed == (RelayModel {
                stdin_open: typed.stdin_open,
                to_socket: typed.to_socket,
                ..relay
            })
            &&& told.socket_open == (relay.socket_open && !over)
            &&& told == (RelayModel {
                socket_open: told.socket_open,
                to_stdout: told.to_stdout,
                ..relay
            })
            &&& sent.stdin_open == (relay.stdin_open && destination(relay.to_socket.len(), result)
                != Handed::Gone)
            &&& sent == (RelayModel {
                stdin_open: sent.stdin_open,
                to_socket: sent.to_socket,
                ..relay
            })
            &&& shown.stdout_open == (relay.stdout_open && destination(
                relay.to_stdout.len(),
                result,
            ) != Handed::Gone)
            &&& shown == (RelayModel {
                stdout_open: shown.stdout_open,
                to_stdout: shown.to_stdout,
                ..relay
            })
            &&& relay.without_stdin() == (RelayModel { stdin_open: false, ..relay })
            &&& relay.without_stdout() == (RelayModel { stdout_open: false, ..relay })
        }),
{
}

/// The relay runs until stdout is gone, or the socket has closed and everything it said was
/// handed on; and waits for what can happen: a source that is open and owes its destination
/// nothing, and a destination that is owed something.
pub proof fn the_relay_waits_for_what_can_happen(relay: RelayModel)
    ensures
        relay.runs() <==> relay.stdout_open && (relay.socket_open || relay.to_stdout.len() > 0),
        relay.wanted().stdin <==> relay.stdin_open && relay.to_socket.len() == 0,
        relay.wanted().socket_read <==> relay.socket_open && relay.to_stdout.len() == 0,
        relay.wanted().socket_write <==> relay.to_socket.len() > 0,
        relay.wanted().stdout <==> relay.to_stdout.len() > 0,
{
}

/// What is done with each end follows from what was reported of it: stdin is read where it can
/// be and closed where it is not open, the socket is read where it can be and stdout is owed
/// nothing and written where it takes bytes or is owed some, and stdout is given up where it
/// is broken and written where it takes bytes.
pub proof fn a_pass_of_the_relay_does_what_is_ready(relay: RelayModel, report: Report)
    ensures
        ({
            let typed = relay.stdin_open && relay.to_socket.len() == 0 && report.stdin.readable;
            &&& relay.due(0, report) == if !typed {
                None
            } else if report.stdin.invalid {
                Some(RelayTask::CloseStdin)
            } else {
                Some(RelayTask::ReadStdin)
            }
            &&& relay.due(1, report) == if report.socket.readable && relay.to_stdout.len() == 0 {
                Some(RelayTask::ReadSocket)
            } else {
                None
            }
            &&& relay.due(2, report) == if report.socket.writable || relay.to_socket.len() > 0 {
                Some(RelayTask::WriteSocket)
            } else {
                None
            }
            &&& relay.due(3, report) == if report.stdout.broken {
                Some(RelayTask::CloseStdout)
            } else if report.stdout.writable {
                Some(RelayTask::WriteStdout)
            } else {
                None
            }
            &&& copies(report.stdout) == if report.stdout.broken {
                StdoutStep::Closed
            } else if report.stdout.writable {
                StdoutStep::Write
            } else {
                StdoutStep::Nothing
            }
        }),
{
}

/// A pass of the relay leaves nothing out: whatever is due at or behind a place is come to,
/// in order.
pub proof fn a_pass_of_the_relay_comes_to_everything(
    relay: RelayModel,
    report: Report,
    from: nat,
    place: nat,
)
    requires
        from <= place < 4,
        relay.due(place, report) is Some,
    ensures
        relay.next(from, report) matches Some((_, behind)) && from < behind <= place + 1,
        relay.next(place, report) == Some((relay.due(place, report)->0, place + 1)),
    decreases 4 - from,
{
    if relay.due(from, report) is None {
        a_pass_of_the_relay_comes_to_everything(relay, report, from + 1, place);
    }
}

/// What the poll reported is taken for what it is: an error, a hang-up and a descriptor that
/// is not open all call for a read, and all mean that nobody takes bytes any more.
pub proof fn what_the_poll_reports_is_taken_for_what_it_is(reported: Reported)
    ensures
        ({
            let events = Events::from_poll(reported);
            let broken = reported.error || reported.hang_up || reported.invalid;
            &&& events.readable == (reported.input || broken)
            &&& events.writable == reported.output
            &&& events.broken == broken
            &&& events.invalid == reported.invalid
        }),
{
}

/// The last of the output is waited for while it moves: every delivery and every byte of the
/// status opens half a second anew, and with neither the wait ends when that is over; it looks
/// up every twenty-five milliseconds, and is done once all four bytes of the status are there.
pub proof fn the_last_output_is_waited_for_while_it_moves(
    wait: Finish,
    n: usize,
    progress: u64,
    now: u64,
)
    requires
        wait.received < 4,
        n <= 4 - wait.received,
        now <= u64::MAX - 500_000_000,
    ensures
        Finish::begun(progress, now) == (Finish {
            received: 0,
            seen: progress,
            window: (now + 500_000_000) as u64,
        }),
        wait.allows(now) is None <==> now >= wait.window,
        wait.allows(now) matches Some(span) ==> 0 < span <= 25_000_000 && now + span <= wait.window
            && (span == 25_000_000 || now + span == wait.window),
        ({
            let (moved, step) = wait.after(StatusRead::Bytes(n), progress, now);
            &&& n > 0 ==> moved.received == wait.received + n && moved.window == now + 500_000_000
            &&& n > 0 ==> (step == FinishStep::Complete <==> wait.received + n == 4)
            &&& n > 0 && wait.received + n < 4 ==> step == FinishStep::Again
            &&& n == 0 ==> step == FinishStep::UnexpectedEof
        }),
        ({
            let (idle, step) = wait.after(StatusRead::Nothing, progress, now);
            &&& step == FinishStep::Again
            &&& idle.received == wait.received
            &&& progress == wait.seen ==> idle == wait
            &&& progress != wait.seen ==> idle.seen == progress && idle.window == now + 500_000_000
        }),
        wait.after(StatusRead::Failed, progress, now).1 == FinishStep::Failed,
{
}

/// A delivery is counted where something moved, and only there.
pub proof fn only_what_moved_is_counted(progress: u64, before: usize, now: usize)
    ensures
        now >= before ==> counted(progress, before, now) == progress,
        now < before ==> counted(progress, before, now) != progress,
        now < before && progress < u64::MAX ==> counted(progress, before, now) == progress + 1,
{
}

/// A worker's end is read as it was sent: clean where everything was delivered, with the
/// system's number where there is one, and otherwise as a failure without one.
pub proof fn a_workers_end_is_read_as_it_was_sent(errno: i32)
    ensures
        ended(status_of(false, Some(errno))) == WorkerEnd::Clean,
        ended(status_of(false, None)) == WorkerEnd::Clean,
        errno > 0 ==> ended(status_of(true, Some(errno))) == WorkerEnd::Os(errno),
        errno <= 0 ==> ended(status_of(true, Some(errno))) == WorkerEnd::Failed,
        ended(status_of(true, None)) == WorkerEnd::Failed,
{
}

} // verus!
