//! The terminal's side of a session: what it wrote goes to the ring and on to the client,
//! what was typed goes to it, and its end is told once everything before it was.
use vstd::prelude::*;

use crate::conn::{output_chunks, output_taken, MAX_PENDING_WRITE};
use crate::line::{Line, LineModel};
use crate::nbio::{drain_to, drained, drained_by, Drained, Errno, ReadOutcome};
use crate::queue::shrink_queue;
use crate::refusal::Refusal;
use crate::rev11::{ExitKind, Frame, FrameModel};
use crate::session::{
    line_of, line_wf, Attached, AttachedModel, Session, SessionModel, StopReason,
    OUTCOME_GRACE, PENDING_INPUT_RETAINED,
};
use crate::wire::WinSize;

verus! {

/// What asking after the child came back with.
#[derive(Debug, Clone, Copy, PartialEq, Eq, Structural)]
pub enum Wait {
    /// It is still running.
    Running,
    /// It ended so.
    Ended(i32, ExitKind),
    /// The wait failed, which is not the child still running.
    Failed,
}

/// Whole seconds from `then` to `now`, as far as the field can say.
pub open spec fn seconds_since(then: u64, now: u64) -> u32 {
    let secs = if now <= then {
        0
    } else {
        (now - then) / 1_000_000_000
    };
    if secs > u32::MAX {
        u32::MAX
    } else {
        secs as u32
    }
}

/// Whole seconds from `then` to `now`.
fn elapsed_secs(then: u64, now: u64) -> (r: u32)
    ensures
        r == seconds_since(then, now),
{
    let secs: u64 = if now <= then {
        0
    } else {
        (now - then) / 1_000_000_000
    };
    if secs > u32::MAX as u64 {
        u32::MAX
    } else {
        secs as u32
    }
}

// ---------------------------------------------------------------------------
// What the pump does
// ---------------------------------------------------------------------------

impl AttachedModel {
    /// After one stretch of output from where this client is was queued, as far as the
    /// queue has room.
    pub open spec fn sent_part(self, part: Seq<u8>) -> AttachedModel {
        if part.len() == 0 {
            self
        } else {
            let n = output_taken(self.line.in_step().outgoing.len(), part.len());
            AttachedModel {
                line: self.line.said_all(
                    output_chunks(self.sent_through as int, part.take(n as int)),
                ),
                sent_through: (self.sent_through + n) as u64,
                ..self
            }
        }
    }

    /// After two stretches in a row were offered: the second only where the first went
    /// whole, or what is behind it would be labelled with offsets it does not have.
    pub open spec fn sent_parts(self, front: Seq<u8>, back: Seq<u8>) -> AttachedModel {
        let once = self.sent_part(front);
        if once.sent_through == self.sent_through + front.len() {
            once.sent_part(back)
        } else {
            once
        }
    }

    /// After being told that output below `base` is gone, where any of it was still owed.
    pub open spec fn past_gap(self, base: nat) -> AttachedModel {
        if self.sent_through < base {
            AttachedModel {
                line: self.line.said(FrameModel::Gap { new_base_offset: base as u64 }),
                sent_through: base as u64,
                repaint_due: true,
                ..self
            }
        } else {
            self
        }
    }
}

impl SessionModel {
    /// After the client was offered what it is still owed of the ring, which holds it in
    /// two parts, the first `cut` bytes long.
    pub open spec fn fed(self, cut: nat) -> SessionModel {
        match self.client {
            None => self,
            Some(client) => if client.line.outgoing.len() < MAX_PENDING_WRITE
                && client.sent_through < self.ring.past() {
                let on = client.past_gap(self.ring.first);
                let owed = self.ring.since(on.sent_through as nat);
                SessionModel {
                    client: Some(on.sent_parts(owed.take(cut as int), owed.skip(cut as int))),
                    ..self
                }
            } else {
                self
            },
        }
    }

    /// Whether the client holds everything the terminal wrote.
    pub open spec fn caught_up(self) -> bool {
        self.client matches Some(client) && client.sent_through >= self.ring.past()
    }

    /// After the client was told the end of the transcript, where it is due: once, behind
    /// everything the child wrote, and only when both the terminal's end and the child's
    /// outcome are known.
    pub open spec fn concluded(self, now: u64) -> SessionModel {
        match (self.client, self.terminal_closed_at, self.outcome) {
            (Some(client), Some(closed_at), Some((status, kind))) => if !client.terminal_end_sent
                && self.caught_up() {
                SessionModel {
                    client: Some(
                        AttachedModel {
                            terminal_end_sent: true,
                            ..client.told(
                                FrameModel::Exit {
                                    status,
                                    kind,
                                    since_terminal_closed_secs: seconds_since(closed_at, now),
                                },
                            )
                        },
                    ),
                    ..self
                }
            } else {
                self
            },
            _ => self,
        }
    }

    /// Whether a repaint is due now: a gap was reported, and this client holds the whole
    /// ring since.
    pub open spec fn repaints(self) -> bool {
        self.caught_up() && self.client->0.repaint_due
    }

    /// After the repaint that is due was asked for, where it is and can be: a `Ctrl-L` waits
    /// for room in the input queue, and is not input.
    pub open spec fn repainted(self) -> SessionModel {
        let settled = SessionModel {
            client: Some(AttachedModel { repaint_due: false, ..self.client->0 }),
            ..self
        };
        if !self.repaints() {
            self
        } else if self.terminal_closed_at is Some || !self.client->0.repaint_ctrl_l {
            settled
        } else if self.saturated() {
            self
        } else {
            SessionModel { pending_input: self.pending_input.push(0x0c), ..settled }
        }
    }

    /// The size the terminal is to be nudged around, where that is how this client repaints.
    pub open spec fn nudges(self) -> Option<WinSize> {
        if self.repaints() && self.terminal_closed_at is None && !self.client->0.repaint_ctrl_l
            && self.started {
            Some(self.win)
        } else {
            None
        }
    }

    /// One pass of the pump over a ring held in two parts, the first `cut` bytes long.
    pub open spec fn pumped(self, cut: nat, now: u64) -> SessionModel {
        self.fed(cut).concluded(now).repainted()
    }

    /// Where a ring may be divided for this pass.
    pub open spec fn may_cut(self, cut: nat) -> bool {
        self.client matches Some(client) ==> cut <= self.ring.since(
            client.past_gap(self.ring.first).sent_through as nat,
        ).len()
    }

    /// After the terminal let go at `now`: nothing is written to it any more.
    pub open spec fn terminal_closed(self, now: u64) -> SessionModel {
        SessionModel {
            terminal_closed_at: if self.terminal_closed_at is None {
                Some(now)
            } else {
                self.terminal_closed_at
            },
            pending_input: Seq::empty(),
            ..self
        }
    }

    /// After one read of the terminal, `buf` holding what arrived.
    pub open spec fn terminal_read(
        self,
        outcome: ReadOutcome,
        buf: Seq<u8>,
        now: u64,
    ) -> SessionModel {
        if !self.started {
            self
        } else {
            match outcome {
                ReadOutcome::Data(n) => SessionModel {
                    ring: self.ring.pushed(buf.take(n as int)),
                    ..self
                },
                ReadOutcome::Eof => self.terminal_closed(now),
                ReadOutcome::WouldBlock => self,
                ReadOutcome::Failed(_) => SessionModel {
                    stop: if self.stop is None {
                        Some(StopReason::TerminalFailed)
                    } else {
                        self.stop
                    },
                    ..self.dropped(now)
                },
            }
        }
    }

    /// The connection that leaves where the terminal could not be read.
    pub open spec fn left_by_read(self, outcome: ReadOutcome) -> Option<LineModel> {
        if self.started && outcome is Failed {
            self.farewell(Some(Refusal::TerminalReadFailed))
        } else {
            None
        }
    }

    /// After one write of the input queue: what was taken is gone, and a terminal that
    /// cannot be written to costs the queue and nothing more.
    pub open spec fn terminal_written(self, result: Result<usize, Errno>) -> SessionModel {
        let len = self.pending_input.len();
        if !self.started {
            self
        } else {
            SessionModel {
                pending_input: match drained(len, result) {
                    Drained::WriteZero | Drained::Failed(_) => Seq::empty(),
                    _ => self.pending_input.skip(drained_by(len, result) as int),
                },
                ..self
            }
        }
    }

    /// The size the terminal is to be given, where it does not have it.
    pub open spec fn wants_win(self) -> Option<WinSize> {
        if self.applied_win == Some(self.win) || !self.started {
            None
        } else {
            Some(self.win)
        }
    }

    /// After the terminal was given its size, or could not be.
    pub open spec fn win_given(self, ok: bool) -> SessionModel {
        SessionModel {
            applied_win: if ok {
                Some(self.win)
            } else {
                None
            },
            ..self
        }
    }

    /// Whether this pass can observe or safely reap the child, `unobserved` saying that its
    /// end has not been seen yet.
    pub open spec fn asks_after_child(self, unobserved: bool) -> bool {
        self.child_signalled || (self.terminal_closed_at is Some && (self.outcome is None
            || unobserved))
    }

    /// After the child was asked after, or was not.
    pub open spec fn outcome_collected(self, answer: Option<Wait>, now: u64) -> SessionModel {
        let overdue = self.terminal_closed_at matches Some(closed_at) && now >= closed_at
            + OUTCOME_GRACE;
        SessionModel {
            child_signalled: false,
            outcome: if answer == Some(Wait::Failed) && self.terminal_closed_at is Some {
                Some((0, ExitKind::Unknown))
            } else if self.outcome is Some {
                self.outcome
            } else {
                match answer {
                    Some(Wait::Ended(status, kind)) => Some((status, kind)),
                    _ => if overdue {
                        Some((0, ExitKind::Unknown))
                    } else {
                        None
                    },
                }
            },
            ..self
        }
    }
}

impl Attached {
    /// Queues one part of the ring, and says whether it went whole.
    fn send_part(&mut self, part: &[u8]) -> (r: bool)
        requires
            old(self).line.wf(),
            old(self).sent_through + part@.len() <= u64::MAX,
        ensures
            final(self).line.wf(),
            final(self)@ == old(self)@.sent_part(part@),
            old(self).sent_through <= final(self).sent_through <= old(self).sent_through
                + part@.len(),
            r == (final(self).sent_through == old(self).sent_through + part@.len()),
    {
        if part.len() == 0 {
            return true;
        }
        let want: u64 = self.sent_through + part.len() as u64;
        self.sent_through = self.line.say_output(self.sent_through, part);
        self.sent_through == want
    }

    /// Reports output below `base` gone, where any of it was still owed: the stream is
    /// discontinuous and the client must reset its emulator.
    fn report_gap(&mut self, base: u64)
        requires
            old(self).line.wf(),
        ensures
            final(self).line.wf(),
            final(self)@ == old(self)@.past_gap(base as nat),
    {
        if self.sent_through < base {
            self.line.say(&Frame::Gap { new_base_offset: base });
            self.sent_through = base;
            self.repaint_due = true;
        }
    }
}

impl Session {
    /// Queues what the client is still owed of the ring, as far as its queue has room.
    fn feed(&mut self) -> (cut: Ghost<nat>)
        requires
            old(self).wf(),
        ensures
            final(self).wf(),
            old(self)@.may_cut(cut@),
            final(self)@ == old(self)@.fed(cut@),
    {
        let base: u64 = self.ring.base();
        let end: u64 = self.ring.end();
        let ghost mut at: nat = 0;
        if let Some(client) = &mut self.client {
            if client.line.queued() < MAX_PENDING_WRITE && client.sent_through < end {
                client.report_gap(base);
                let ghost on = client@;
                let parts: [&[u8]; 2] = self.ring.slices_from(client.sent_through);
                let front: &[u8] = parts[0];
                let back: &[u8] = parts[1];
                proof {
                    at = front@.len();
                    let owed = self.ring@.since(on.sent_through as nat);
                    assert(owed.take(at as int) =~= front@);
                    assert(owed.skip(at as int) =~= back@);
                }
                if client.send_part(front) {
                    let _ = client.send_part(back);
                }
            }
        }
        assert(self@ =~= old(self)@.fed(at));
        Ghost(at)
    }

    /// Ends the transcript, where that is due.
    fn conclude(&mut self, now: u64)
        requires
            old(self).wf(),
        ensures
            final(self).wf(),
            final(self)@ == old(self)@.concluded(now),
    {
        let end: u64 = self.ring.end();
        if let (Some(closed_at), Some((status, kind))) = (self.terminal_closed_at, self.outcome) {
            if let Some(client) = &mut self.client {
                if !client.terminal_end_sent && client.sent_through >= end {
                    let since_terminal_closed_secs: u32 = elapsed_secs(closed_at, now);
                    client.line.say(&Frame::Exit { status, kind, since_terminal_closed_secs });
                    client.terminal_end_sent = true;
                }
            }
        }
        assert(self@ =~= old(self)@.concluded(now));
    }

    /// Asks the child to redraw after a gap, by whichever means this client chose, and
    /// hands back the size the terminal is to be nudged around where it is by that.
    ///
    /// Coalesced onto the moment the client holds the whole ring rather than issued per
    /// gap. A `Ctrl-L` is queued rather than written, waits for room, and is not client
    /// input.
    pub fn repaint(&mut self) -> (r: Option<WinSize>)
        requires
            old(self).wf(),
        ensures
            final(self).wf(),
            final(self)@ == old(self)@.repainted(),
            r == old(self)@.nudges(),
    {
        let end: u64 = self.ring.end();
        let closed: bool = self.terminal_closed_at.is_some();
        let full: bool = self.input_is_saturated();
        let mut nudge: Option<WinSize> = None;
        if let Some(client) = &mut self.client {
            if client.repaint_due && client.sent_through >= end {
                if closed {
                    client.repaint_due = false;
                } else if client.repaint_ctrl_l {
                    if !full {
                        self.pending_input.push_back(0x0c);
                        client.repaint_due = false;
                    }
                } else {
                    client.repaint_due = false;
                    if self.started {
                        nudge = Some(self.win);
                    }
                }
            }
        }
        assert(self@ =~= old(self)@.repainted());
        nudge
    }

    /// Queues what the client is owed: the report of what it lost, the output it has not
    /// been sent, the end of the transcript behind all of it, and the repaint a gap calls
    /// for. Hands back the size the terminal is to be nudged around, where it is.
    pub fn pump_output(&mut self, now: u64) -> (r: Option<WinSize>)
        requires
            old(self).wf(),
        ensures
            final(self).wf(),
            exists|cut: nat|
                {
                    &&& #[trigger] old(self)@.may_cut(cut)
                    &&& final(self)@ == old(self)@.pumped(cut, now)
                    &&& r == old(self)@.fed(cut).concluded(now).nudges()
                },
    {
        let cut: Ghost<nat> = self.feed();
        self.conclude(now);
        let nudge: Option<WinSize> = self.repaint();
        assert(old(self)@.may_cut(cut@));
        nudge
    }

    /// Forgets which size the terminal has, after a nudge that failed between its two
    /// resizes: the next pass sets it again.
    pub fn nudge_failed(&mut self)
        requires
            old(self).wf(),
        ensures
            final(self).wf(),
            final(self)@ == old(self)@.win_given(false),
            final(self)@ == (SessionModel { applied_win: None, ..old(self)@ }),
    {
        self.applied_win = None;
        assert(self@ =~= (SessionModel { applied_win: None, ..old(self)@ }));
    }

    /// The size the terminal is to be given, where it does not have it: at most one a pass,
    /// however many were asked for.
    pub fn apply_win(&self) -> (r: Option<WinSize>)
        ensures
            r == self@.wants_win(),
            r == if self@.applied_win == Some(self@.win) || !self@.started {
                None
            } else {
                Some(self@.win)
            },
    {
        if !self.started {
            return None;
        }
        match self.applied_win {
            Some(win) if win == self.win => None,
            _ => Some(self.win),
        }
    }

    /// Records what giving the terminal its size came to. A failed resize leaves the size
    /// unknown rather than applied.
    pub fn win_applied(&mut self, ok: bool)
        requires
            old(self).wf(),
        ensures
            final(self).wf(),
            final(self)@ == old(self)@.win_given(ok),
            final(self)@ == (SessionModel {
                applied_win: if ok {
                    Some(old(self)@.win)
                } else {
                    None
                },
                ..old(self)@
            }),
    {
        self.applied_win = if ok {
            Some(self.win)
        } else {
            None
        };
        assert(self@ =~= (SessionModel { applied_win: self.applied_win, ..old(self)@ }));
    }

    /// Takes in one read of the terminal, `buf` holding what arrived, and hands back the
    /// client's connection where the terminal failed.
    ///
    /// Always drained, attached or not: an unread terminal blocks the child on its writes.
    pub fn read_pty(&mut self, outcome: ReadOutcome, buf: &[u8], now: u64) -> (r: Option<Line>)
        requires
            old(self).wf(),
            outcome matches ReadOutcome::Data(n) ==> n <= buf@.len() && old(self)@.ring.past() + n
                <= u64::MAX,
        ensures
            final(self).wf(),
            final(self)@ == old(self)@.terminal_read(outcome, buf@, now),
            line_wf(r),
            line_of(r) == old(self)@.left_by_read(outcome),
            line_of(r) == if old(self)@.started && outcome is Failed {
                old(self)@.farewell(Some(Refusal::TerminalReadFailed))
            } else {
                None
            },
    {
        if !self.started {
            return None;
        }
        match outcome {
            ReadOutcome::Data(n) => {
                let data: &[u8] = vstd::slice::slice_subrange(buf, 0, n);
                assert(data@ =~= buf@.take(n as int));
                self.ring.push(data);
                assert(self@ =~= old(self)@.terminal_read(outcome, buf@, now));
                None
            },
            ReadOutcome::Eof => {
                self.on_terminal_closed(now);
                None
            },
            ReadOutcome::WouldBlock => None,
            ReadOutcome::Failed(_) => {
                let left: Option<Line> = self.reject(Refusal::TerminalReadFailed, now);
                if self.stop.is_none() {
                    self.stop = Some(StopReason::TerminalFailed);
                }
                assert(self@ =~= old(self)@.terminal_read(outcome, buf@, now));
                left
            },
        }
    }

    /// Records that the child has let go of the terminal. Nothing will be written to it any
    /// more, and a queue left full would hold the client out of the poll set for good.
    pub fn on_terminal_closed(&mut self, now: u64)
        requires
            old(self).wf(),
        ensures
            final(self).wf(),
            final(self)@ == old(self)@.terminal_closed(now),
    {
        if self.terminal_closed_at.is_none() {
            self.terminal_closed_at = Some(now);
        }
        self.pending_input.clear();
        shrink_queue(&mut self.pending_input, 0);
        assert(self@ =~= old(self)@.terminal_closed(now));
    }

    /// Takes out of the input queue what one write of it took. Anything but an interrupted
    /// write ends the pass; one that failed costs the queue and nothing more, and must not
    /// record the terminal closed, whose read side may still hold what the child wrote.
    pub fn write_pty(&mut self, result: Result<usize, Errno>) -> (r: Drained)
        requires
            old(self).wf(),
        ensures
            final(self).wf(),
            final(self)@ == old(self)@.terminal_written(result),
            r == if old(self)@.started {
                drained(old(self)@.pending_input.len(), result)
            } else {
                Drained::Done
            },
    {
        if !self.started {
            return Drained::Done;
        }
        let came: Drained = drain_to(&mut self.pending_input, result);
        match came {
            Drained::WriteZero | Drained::Failed(_) => {
                self.pending_input.clear();
            },
            _ => {},
        }
        if self.pending_input.len() == 0 {
            shrink_queue(&mut self.pending_input, PENDING_INPUT_RETAINED);
        }
        assert(self@ =~= old(self)@.terminal_written(result));
        came
    }

    /// Whether this pass can observe or safely reap the child, `unobserved` saying that its
    /// end has not been seen yet.
    pub fn worth_a_waitpid(&self, unobserved: bool) -> (r: bool)
        ensures
            r == self@.asks_after_child(unobserved),
    {
        self.child_signalled || (self.terminal_closed_at.is_some() && (self.outcome.is_none()
            || unobserved))
    }

    /// Settles the child's outcome on what asking after it came to, `answer` being nothing
    /// where it was not worth asking.
    ///
    /// A failed wait is not the child still running: past the terminal's end no truthful
    /// status can be promised. A child that let go of the terminal without exiting leaves
    /// no outcome by the deadline, and the client is owed its end all the same.
    pub fn collect_outcome(&mut self, answer: Option<Wait>, now: u64)
        requires
            old(self).wf(),
        ensures
            final(self).wf(),
            final(self)@ == old(self)@.outcome_collected(answer, now),
    {
        self.child_signalled = false;
        if let Some(Wait::Failed) = answer {
            if self.terminal_closed_at.is_some() {
                self.outcome = Some((0, ExitKind::Unknown));
            }
        }
        if self.outcome.is_none() {
            if let Some(Wait::Ended(status, kind)) = answer {
                self.outcome = Some((status, kind));
            } else if let Some(closed_at) = self.terminal_closed_at {
                if now >= closed_at && now - closed_at >= OUTCOME_GRACE {
                    self.outcome = Some((0, ExitKind::Unknown));
                }
            }
        }
        assert(self@ =~= old(self)@.outcome_collected(answer, now));
    }
}

} // verus!
