//! What each thing that happens to a session comes to, told by what can be seen of it
//! afterwards: the bytes in the ring, the bytes on the wire, the bytes for the terminal, its
//! size, the clocks, and what was left alone.
use vstd::prelude::*;

use crate::agent::{later, Arrival};
use crate::conn::{
    a_partial_frame_waits, a_whole_frame_comes_off_the_front, agent_chunks, bytes_of,
    lemma_bytes_concat, lemma_output_frame, lemma_output_taken, output_chunks, output_taken,
    Received, Step, Written, MAX_PENDING_READ, MAX_PENDING_WRITE,
};
use crate::greet::{AdmissionModel, Attempt, Knock, OpeningModel};
use crate::line::LineModel;
use crate::nbio::{Errno, ReadOutcome};
use crate::poll::{Ready, Reported, Task};
use crate::refusal::{every_refusal_can_be_sent, Refusal};
use crate::rev11::{
    decode_inverts_encode, ErrorCode, ExitKind, FrameModel, HelloModel, HelloOk, MAX_AGENT_DATA,
    MAX_OUTPUT_DATA, SERVER_PREAMBLE,
};
use crate::ring::{a_ring_stays_a_window, RingModel};
use crate::serve::{lemma_served_keeps_the_buffer, EffectModel, HeardModel};
use crate::session::{
    ring_capacity_for, AttachedModel, Interest, SessionModel, Source, StopReason,
    ABANDON_PENDING_WRITE, MAX_PENDING_INPUT,
};
use crate::terminal::{seconds_since, Wait};
use crate::text::{
    all_space, digits, is_digit, lemma_digits_spell, numbers_read_back,
    trimming_takes_what_surrounds,
};
use crate::wire::{WinSize, RESUME_FROM_START};

verus! {

/// The queue of a line that has given its preamble, or has it queued last.
pub open spec fn opened_queue(line: LineModel) -> Seq<u8> {
    if line.synced {
        line.outgoing
    } else {
        line.outgoing + SERVER_PREAMBLE@
    }
}

/// Between two moments of a line exactly one frame was queued, behind everything queued
/// before it, and nothing was read.
pub open spec fn one_frame_more(before: LineModel, after: LineModel, frame: FrameModel) -> bool {
    &&& after.outgoing == opened_queue(before) + frame.bytes()
    &&& after.synced
    &&& after.incoming == before.incoming
    &&& after.ended == before.ended
}

/// Between two moments of a session its client was sent exactly one frame, and nothing else
/// of the client changed.
pub open spec fn client_was_sent(before: SessionModel, after: SessionModel, frame: FrameModel) -> bool {
    match before.client {
        None => after.client is None,
        Some(client) => {
            &&& after.client is Some
            &&& one_frame_more(client.line, after.client->0.line, frame)
            &&& after.client->0 == (AttachedModel { line: after.client->0.line, ..client })
        },
    }
}

// ---------------------------------------------------------------------------
// The terminal
// ---------------------------------------------------------------------------

/// What a read of the terminal filled the buffer with, and nothing else in the buffer, is
/// kept behind everything the terminal wrote before: the ring stays the window over the
/// whole of it, each byte at its own offset, and nothing else of the session changes.
pub proof fn the_ring_keeps_what_the_terminal_wrote(
    s: SessionModel,
    stream: Seq<u8>,
    n: usize,
    buf: Seq<u8>,
    now: u64,
)
    requires
        s.wf(),
        s.started,
        n <= buf.len(),
        s.ring.past() + n <= u64::MAX,
        s.ring.is_window_over(stream),
    ensures
        ({
            let next = s.terminal_read(ReadOutcome::Data(n), buf, now);
            &&& next.ring.is_window_over(stream + buf.subrange(0, n as int))
            &&& next == (SessionModel { ring: next.ring, ..s })
            &&& next.wf()
        }),
{
    let next = s.terminal_read(ReadOutcome::Data(n), buf, now);
    let data = buf.subrange(0, n as int);
    a_ring_stays_a_window(s.ring, stream, data);
    assert(buf.take(n as int) =~= data);
}

/// The same byte by byte: every offset the ring still holds after a read of the terminal
/// holds what it held before, or, past what was there, the byte of the buffer that stands
/// as far behind.
pub proof fn every_offset_keeps_its_byte(
    s: SessionModel,
    n: usize,
    buf: Seq<u8>,
    now: u64,
    offset: nat,
)
    requires
        s.wf(),
        s.started,
        n <= buf.len(),
        s.ring.past() + n <= u64::MAX,
        ({
            let ring = s.terminal_read(ReadOutcome::Data(n), buf, now).ring;
            ring.first <= offset < ring.first + ring.retained.len()
        }),
    ensures
        ({
            let ring = s.terminal_read(ReadOutcome::Data(n), buf, now).ring;
            let end = s.ring.first + s.ring.retained.len();
            &&& ring.first + ring.retained.len() == end + n
            &&& ring.limit == s.ring.limit
            &&& ring.first >= s.ring.first
            &&& ring.retained.len() == ring.limit || ring.first == s.ring.first
            &&& ring.retained[offset - ring.first] == if offset < end {
                s.ring.retained[offset - s.ring.first]
            } else {
                buf[offset - end]
            }
        }),
{
}

/// A read of the terminal that brought nothing leaves everything as it was, whatever is in
/// the buffer.
pub proof fn nothing_read_changes_nothing(s: SessionModel, buf: Seq<u8>, now: u64)
    ensures
        s.terminal_read(ReadOutcome::WouldBlock, buf, now) == s,
        !s.started ==> forall|outcome: ReadOutcome|
            #[trigger] s.terminal_read(outcome, buf, now) == s,
{
}

/// The terminal's end is noted when it first comes, takes the input nobody will read with
/// it, and leaves the output, the client and the outcome alone.
pub proof fn the_end_of_the_terminal_is_noted_once(s: SessionModel, buf: Seq<u8>, now: u64, again: u64)
    requires
        s.started,
    ensures
        ({
            let next = s.terminal_read(ReadOutcome::Eof, buf, now);
            let twice = next.terminal_read(ReadOutcome::Eof, buf, again);
            &&& s.terminal_closed_at is None ==> next.terminal_closed_at == Some(now)
            &&& s.terminal_closed_at is Some ==> next.terminal_closed_at == s.terminal_closed_at
            &&& next.pending_input.len() == 0
            &&& next == (SessionModel {
                terminal_closed_at: next.terminal_closed_at,
                pending_input: next.pending_input,
                ..s
            })
            &&& twice == next
        }),
{
    let next = s.terminal_read(ReadOutcome::Eof, buf, now);
    assert(next.terminal_read(ReadOutcome::Eof, buf, again) =~= next);
}

/// A terminal that cannot be read ends the session, for that reason unless there was one
/// before, and the client is told so behind everything already queued for it.
pub proof fn a_terminal_that_fails_ends_the_session(s: SessionModel, buf: Seq<u8>, e: Errno, now: u64)
    requires
        s.started,
    ensures
        ({
            let next = s.terminal_read(ReadOutcome::Failed(e), buf, now);
            &&& next.client is None
            &&& next.stop == if s.stop is None {
                Some(StopReason::TerminalFailed)
            } else {
                s.stop
            }
            &&& next.ring == s.ring
            &&& next.in_applied == s.in_applied
            &&& next.pending_input == s.pending_input
            &&& next.terminal_closed_at == s.terminal_closed_at
            &&& next.outcome == s.outcome
            &&& s.client is Some ==> {
                &&& next.last_detach == now
                &&& s.farewell(Some(Refusal::TerminalReadFailed)) is Some
                &&& one_frame_more(
                    s.client->0.line,
                    s.farewell(Some(Refusal::TerminalReadFailed))->0,
                    Refusal::TerminalReadFailed.says(),
                )
            }
        }),
{
    every_refusal_can_be_sent(Refusal::TerminalReadFailed);
}

/// A write of the terminal takes from the front of what was typed and nothing else: what it
/// took and what is left are what there was. One that could take nothing now leaves it all,
/// and one that never will, or took nothing for no reason, costs all of it.
pub proof fn the_terminal_takes_what_was_typed_first(s: SessionModel, result: Result<usize, Errno>)
    ensures
        ({
            let next = s.terminal_written(result);
            let typed = s.pending_input;
            &&& next == (SessionModel { pending_input: next.pending_input, ..s })
            &&& !s.started || typed.len() == 0 ==> next.pending_input == typed
            &&& s.started && typed.len() > 0 ==> match result {
                Ok(n) => if n == 0 || n >= typed.len() {
                    next.pending_input.len() == 0
                } else {
                    next.pending_input == typed.subrange(n as int, typed.len() as int)
                },
                Err(Errno::Again) | Err(Errno::Interrupted) => next.pending_input == typed,
                Err(_) => next.pending_input.len() == 0,
            }
        }),
{
    let next = s.terminal_written(result);
    assert(s.started && s.pending_input.len() == 0 ==> next.pending_input =~= s.pending_input);
    assert(s.pending_input.skip(0) =~= s.pending_input);
    if let Ok(n) = result {
        if s.started && 0 < n < s.pending_input.len() {
            assert(next.pending_input =~= s.pending_input.subrange(
                n as int,
                s.pending_input.len() as int,
            ));
        }
    }
}

// ---------------------------------------------------------------------------
// The size
// ---------------------------------------------------------------------------

/// Whoever greets sizes the session: whether it was started before or is started now, and
/// whoever held it before, the size it wants is the one that greeting gave, and the terminal
/// is given it on the next pass even where it has it already.
pub proof fn the_greeting_sizes_the_session(
    s: SessionModel,
    hello: HelloModel,
    attempt: Attempt,
    now: u64,
)
    ensures
        ({
            let next = s.greeted(hello, attempt, now);
            let taken = s.admitted(hello, now).0.greeted(hello, attempt, now);
            &&& next.win == hello.win
            &&& next.applied_win is None
            &&& next.started ==> next.wants_win() == Some(hello.win)
            &&& taken.win == hello.win
            &&& taken.applied_win is None
            &&& taken.started ==> taken.wants_win() == Some(hello.win)
        }),
{
}

/// A size the client asks for is the size the terminal is given next, the last one where it
/// asked for several, until giving it succeeded; and then not again.
pub proof fn the_last_size_asked_for_is_given_once(
    s: SessionModel,
    first: WinSize,
    last: WinSize,
    now: u64,
)
    requires
        s.started,
    ensures
        ({
            let once = s.served(FrameModel::Resize(first), now).0;
            let next = once.served(FrameModel::Resize(last), now).0;
            &&& s.served(FrameModel::Resize(first), now).1 == EffectModel::Nothing
            &&& once == (SessionModel { win: first, ..s })
            &&& next == (SessionModel { win: last, ..s })
            &&& s.applied_win != Some(last) ==> next.wants_win() == Some(last)
            &&& s.applied_win == Some(last) ==> next.wants_win() is None
            &&& next.win_given(true).wants_win() is None
            &&& next.win_given(false).wants_win() == Some(last)
            &&& next.win_given(true) == (SessionModel { applied_win: Some(last), ..next })
            &&& next.win_given(false) == (SessionModel { applied_win: None, ..next })
        }),
{
}

// ---------------------------------------------------------------------------
// The end of the transcript
// ---------------------------------------------------------------------------

/// How the child ended is recorded as it was found, whatever the status and however it
/// ended, and a session that has an outcome keeps it.
pub proof fn the_outcome_is_the_one_that_was_found(
    s: SessionModel,
    status: i32,
    kind: ExitKind,
    now: u64,
)
    ensures
        ({
            let next = s.outcome_collected(Some(Wait::Ended(status, kind)), now);
            &&& s.outcome is None ==> next.outcome == Some((status, kind))
            &&& s.outcome is Some ==> next.outcome == s.outcome
            &&& next == (SessionModel { outcome: next.outcome, child_signalled: false, ..s })
        }),
{
}

/// An outcome nobody can read is called unknown, and only that: where the wait failed past
/// the terminal's end, or two seconds after it went by without one. A child that is still
/// running, or was not asked after, has none before that.
pub proof fn an_outcome_is_unknown_only_where_nobody_can_know(
    s: SessionModel,
    answer: Option<Wait>,
    now: u64,
)
    requires
        !(answer matches Some(Wait::Ended(..))),
    ensures
        ({
            let next = s.outcome_collected(answer, now);
            let failed = answer == Some(Wait::Failed) && s.terminal_closed_at is Some;
            let overdue = s.terminal_closed_at matches Some(closed_at) && now - closed_at
                >= 2_000_000_000;
            &&& next == (SessionModel { outcome: next.outcome, child_signalled: false, ..s })
            &&& failed ==> next.outcome == Some((0i32, ExitKind::Unknown))
            &&& !failed && s.outcome is Some ==> next.outcome == s.outcome
            &&& s.outcome is None && (failed || overdue) ==> next.outcome == Some(
                (0i32, ExitKind::Unknown),
            )
            &&& s.outcome is None && !failed && !overdue ==> next.outcome is None
        }),
{
}

/// The child is asked after when a signal says something changed, and past the terminal's
/// end until its outcome is known and its end was seen; never otherwise.
pub proof fn the_child_is_asked_after_when_it_may_have_ended(s: SessionModel, unobserved: bool)
    ensures
        s.child_signalled ==> s.asks_after_child(unobserved),
        s.terminal_closed_at is Some && s.outcome is None ==> s.asks_after_child(unobserved),
        s.terminal_closed_at is Some && unobserved ==> s.asks_after_child(unobserved),
        !s.child_signalled && s.terminal_closed_at is None ==> !s.asks_after_child(unobserved),
        !s.child_signalled && s.outcome is Some && !unobserved ==> !s.asks_after_child(unobserved),
{
}

/// What the child ended with is what the client is sent: a client that holds everything the
/// terminal wrote is told, behind all of it, the status and the kind that were found, and
/// for how many whole seconds the terminal has been closed.
pub proof fn the_client_is_told_how_the_child_ended(
    s: SessionModel,
    status: i32,
    kind: ExitKind,
    now: u64,
)
    requires
        s.client is Some,
        !s.client->0.terminal_end_sent,
        s.client->0.sent_through == s.ring.past(),
        s.terminal_closed_at is Some,
        s.outcome is None,
    ensures
        ({
            let found = s.outcome_collected(Some(Wait::Ended(status, kind)), now);
            let told = found.concluded(now);
            let closed_at = s.terminal_closed_at->0;
            exists|secs: u32|
                {
                    &&& #[trigger] one_frame_more(
                        s.client->0.line,
                        told.client->0.line,
                        FrameModel::Exit { status, kind, since_terminal_closed_secs: secs },
                    )
                    &&& told.client is Some
                    &&& told.client->0.terminal_end_sent
                    &&& told.client->0.sent_through == s.client->0.sent_through
                    &&& now <= closed_at ==> secs == 0
                    &&& now > closed_at ==> secs * 1_000_000_000 <= now - closed_at
                    &&& now > closed_at && secs < u32::MAX ==> now - closed_at < (secs + 1)
                        * 1_000_000_000
                }
        }),
{
    let found = s.outcome_collected(Some(Wait::Ended(status, kind)), now);
    let told = found.concluded(now);
    let secs = seconds_since(s.terminal_closed_at->0, now);
    lemma_whole_seconds(s.terminal_closed_at->0, now);
    assert(one_frame_more(
        s.client->0.line,
        told.client->0.line,
        FrameModel::Exit { status, kind, since_terminal_closed_secs: secs },
    ));
}

/// Seconds are whole, and counted down.
proof fn lemma_whole_seconds(then: u64, now: u64)
    ensures
        ({
            let secs = seconds_since(then, now);
            &&& now <= then ==> secs == 0
            &&& now > then ==> secs * 1_000_000_000 <= now - then
            &&& now > then && secs < u32::MAX ==> now - then < (secs + 1) * 1_000_000_000
        }),
{
}

/// Nothing is said of an end that has not come: not before the terminal closed, not before
/// the outcome is known, not ahead of output the client does not hold yet.
pub proof fn no_end_is_told_early(s: SessionModel, now: u64)
    ensures
        s.terminal_closed_at is None ==> s.concluded(now) == s,
        s.outcome is None ==> s.concluded(now) == s,
        s.client is None ==> s.concluded(now) == s,
        s.client is Some && s.client->0.sent_through < s.ring.past() ==> s.concluded(now) == s,
{
}

// ---------------------------------------------------------------------------
// The pump
// ---------------------------------------------------------------------------

/// What the queue takes of a stretch of output: everything, or as much as fills it.
proof fn lemma_taken_whole_or_full(queued: nat, offset: int, data: Seq<u8>)
    requires
        0 <= offset,
        offset + data.len() <= u64::MAX,
    ensures
        ({
            let n = output_taken(queued, data.len());
            &&& n <= data.len()
            &&& queued < MAX_PENDING_WRITE && data.len() > 0 ==> n > 0
            &&& n < data.len() ==> queued + bytes_of(
                output_chunks(offset, data.take(n as int)),
            ).len() >= MAX_PENDING_WRITE
        }),
    decreases data.len(),
{
    let n = output_taken(queued, data.len());
    lemma_output_taken(queued, data.len());
    if data.len() > MAX_OUTPUT_DATA && queued < MAX_PENDING_WRITE {
        let most = MAX_OUTPUT_DATA as int;
        let rest = data.skip(most);
        let taken = data.take(n as int);
        lemma_taken_whole_or_full(queued + 12 + MAX_OUTPUT_DATA as nat, offset + most, rest);
        lemma_output_taken(queued + 12 + MAX_OUTPUT_DATA as nat, rest.len());
        let frame = FrameModel::Output { offset: offset as u64, data: data.take(most) };
        let tail = output_chunks(offset + most, rest.take(n - most));
        lemma_output_frame(offset as u64, data.take(most));
        assert(taken.take(most) =~= data.take(most));
        assert(taken.skip(most) =~= rest.take(n - most));
        if n == most {
            assert(tail =~= Seq::empty());
            assert(seq![frame] + tail =~= seq![frame]);
        }
        assert(output_chunks(offset, taken) =~= seq![frame] + tail);
        lemma_bytes_concat(seq![frame], tail);
        reveal_with_fuel(bytes_of, 2);
        assert(seq![frame].drop_last() =~= Seq::empty());
        assert(bytes_of(seq![frame]) =~= frame.bytes());
    }
}

/// A pass of the pump leaves alone a client that holds everything, and one whose queue is
/// full; and to any other it sends until it holds everything or its queue is full.
#[verifier::spinoff_prover]
pub proof fn the_pump_never_idles_over_output(s: SessionModel, cut: nat)
    requires
        s.wf(),
        s.may_cut(cut),
        s.client is Some,
    ensures
        ({
            let client = s.client->0;
            let next = s.fed(cut);
            &&& next == (SessionModel { client: next.client, ..s })
            &&& next.client is Some
            &&& client.sent_through >= s.ring.past() ==> next == s
            &&& client.line.outgoing.len() >= MAX_PENDING_WRITE ==> next == s
            &&& next.client->0.sent_through >= s.ring.past() || next.client->0.line.outgoing.len()
                >= MAX_PENDING_WRITE
            &&& next.client->0.terminal_end_sent == client.terminal_end_sent
            &&& next.client->0.repaint_ctrl_l == client.repaint_ctrl_l
            &&& next.client->0.repaint_due == (client.repaint_due || (client.sent_through
                < s.ring.first && client.line.outgoing.len() < MAX_PENDING_WRITE))
            &&& next.client->0.line.incoming == client.line.incoming
            &&& next.client->0.line.ended == client.line.ended
        }),
{
    let client = s.client->0;
    if client.line.outgoing.len() < MAX_PENDING_WRITE && client.sent_through < s.ring.past() {
        let on = client.past_gap(s.ring.first);
        let owed = s.ring.since(on.sent_through as nat);
        let front = owed.take(cut as int);
        let back = owed.skip(cut as int);
        let once = on.sent_part(front);
        assert(front.len() + back.len() == owed.len());
        lemma_taken_whole_or_full(
            on.line.in_step().outgoing.len(),
            on.sent_through as int,
            front,
        );
        if once.sent_through == on.sent_through + front.len() {
            lemma_taken_whole_or_full(
                once.line.in_step().outgoing.len(),
                once.sent_through as int,
                back,
            );
        }
    }
}

/// A repaint is what the client asked for in its greeting: one `Ctrl-L` behind what was
/// typed, or the terminal nudged around the size the session wants; neither once the
/// terminal is closed, and either only where a gap still owes one.
pub proof fn a_repaint_is_the_one_that_was_asked_for(s: SessionModel)
    requires
        s.client is Some,
        s.client->0.sent_through >= s.ring.past(),
        s.client->0.repaint_due,
    ensures
        ({
            let next = s.repainted();
            let ctrl_l = s.client->0.repaint_ctrl_l;
            let open = s.terminal_closed_at is None;
            let room = s.pending_input.len() < MAX_PENDING_INPUT;
            &&& next.client is Some
            &&& open && ctrl_l && room ==> next.pending_input == s.pending_input.push(12u8)
            &&& !(open && ctrl_l && room) ==> next.pending_input == s.pending_input
            &&& next.client->0.repaint_due == (open && ctrl_l && !room)
            &&& next.client->0 == (AttachedModel {
                repaint_due: next.client->0.repaint_due,
                ..s.client->0
            })
            &&& next == (SessionModel {
                client: next.client,
                pending_input: next.pending_input,
                ..s
            })
            &&& open && !ctrl_l && s.started ==> s.nudges() == Some(s.win)
            &&& !open || ctrl_l || !s.started ==> s.nudges() is None
        }),
{
}

/// Nothing is repainted for a client that owes itself no repaint or is still behind.
pub proof fn no_repaint_without_a_gap(s: SessionModel)
    requires
        s.client is None || !s.client->0.repaint_due || s.client->0.sent_through < s.ring.past(),
    ensures
        s.repainted() == s,
        s.nudges() is None,
{
}

// ---------------------------------------------------------------------------
// Arrivals
// ---------------------------------------------------------------------------

/// A connection of this user's is given a slot of its own and five seconds to greet in,
/// with nothing read and nothing said yet; a stranger's changes nothing, and a listener that
/// failed is left alone for a tenth of a second.
pub proof fn an_arrival_waits_to_greet(s: SessionModel, knock: Knock, now: u64)
    requires
        now <= u64::MAX - 5_000_000_000,
    ensures
        ({
            let next = s.knocked(knock, now);
            match knock {
                Knock::Connection { ours: true, usable: true } => {
                    &&& next == (SessionModel { pending: next.pending, ..s })
                    &&& next.pending is Some
                    &&& next.pending->0.deadline == now + 5_000_000_000
                    &&& next.pending->0.line.incoming.len() == 0
                    &&& next.pending->0.line.outgoing.len() == 0
                    &&& !next.pending->0.line.ended
                    &&& !next.pending->0.line.synced
                },
                Knock::Connection { ours: true, usable: false } => next == (SessionModel {
                    pending: None,
                    ..s
                }),
                Knock::Connection { ours: false, .. } => next == s,
                Knock::Interrupted | Knock::Nobody => next == s,
                Knock::Failed => next == (SessionModel {
                    accept_retry: Some((now + 100_000_000) as u64),
                    ..s
                }),
            }
        }),
{
}

/// What a connection is turned away for is told to it in one frame, and it loses its slot.
pub proof fn a_refused_arrival_is_told_why(s: SessionModel, why: Refusal)
    requires
        s.pending is Some,
    ensures
        s.pending_refused(why).0 == (SessionModel { pending: None, ..s }),
        s.pending_refused(why).1 matches OpeningModel::Refused(line) && one_frame_more(
            s.pending->0.line,
            line,
            why.says(),
        ),
{
    every_refusal_can_be_sent(why);
}

/// A greeting that is given the session takes its connection along whole, with what was
/// already read of it and queued for it, and starts with nothing sent of the output, nothing
/// told of its end, and no repaint owed.
pub proof fn a_handed_over_connection_is_the_one_that_greeted(
    s: SessionModel,
    hello: HelloModel,
    now: u64,
)
    requires
        s.pending is Some,
        s.client is None || !hello.if_detached,
    ensures
        ({
            let (next, admission) = s.admitted(hello, now);
            let old = s.client;
            &&& next.pending is None
            &&& next.client is Some
            &&& next.client->0.line == s.pending->0.line
            &&& !next.client->0.terminal_end_sent
            &&& !next.client->0.repaint_due
            &&& next.ring == s.ring
            &&& next.started == s.started
            &&& next.stop == s.stop
            &&& next.in_applied == s.in_applied
            &&& next.pending_input == s.pending_input
            &&& next.win == s.win
            &&& next.applied_win == s.applied_win
            &&& next.terminal_closed_at == s.terminal_closed_at
            &&& next.outcome == s.outcome
            &&& next.child_signalled == s.child_signalled
            &&& next.accept_retry == s.accept_retry
            &&& next.agent_accept_retry == s.agent_accept_retry
            &&& old is None ==> {
                &&& admission == AdmissionModel::Admitted(None)
                &&& next.agent == s.agent
            }
            &&& old is Some ==> {
                &&& admission matches AdmissionModel::Admitted(Some(line)) && one_frame_more(
                    old->0.line,
                    line,
                    Refusal::TakenOver.says(),
                )
            }
        }),
{
    every_refusal_can_be_sent(Refusal::TakenOver);
}

/// A conditional greeting that finds somebody attached is told so, and its connection is
/// the one that leaves.
pub proof fn a_conditional_greeting_is_told_who_is_there(s: SessionModel, hello: HelloModel, now: u64)
    requires
        hello.if_detached,
        s.client is Some,
        s.pending is Some,
    ensures
        s.admitted(hello, now).1 matches AdmissionModel::Refused(Some(line)) && one_frame_more(
            s.pending->0.line,
            line,
            Refusal::AlreadyAttached.says(),
        ),
{
    every_refusal_can_be_sent(Refusal::AlreadyAttached);
}

/// Settling a greeting on a session that runs, or that starts now, answers it with where its
/// output resumes, how much input was applied and whether an agent is served; the client
/// stands there, repaints as it asked to, and is owed one exactly where what it wanted is
/// gone. The stream and the input are whose they were.
#[verifier::spinoff_prover]
pub proof fn a_settled_greeting_resumes_the_session(
    s: SessionModel,
    hello: HelloModel,
    attempt: Attempt,
    now: u64,
)
    requires
        s.wf(),
        s.client is Some,
        s.started || attempt.spawned,
    ensures
        ({
            let next = s.greeted(hello, attempt, now);
            let before = s.client->0;
            let after = next.client->0;
            let end = s.ring.first + s.ring.retained.len();
            let wanted = hello.out_offset;
            let forwards = if !s.started && hello.agent_forward && attempt.agent_bound {
                true
            } else {
                s.agent is Some
            };
            let from = if wanted == u64::MAX || wanted < s.ring.first {
                s.ring.first as int
            } else if wanted > end {
                end as int
            } else {
                wanted as int
            };
            &&& next.started
            &&& next.client is Some
            &&& after.sent_through == from
            &&& one_frame_more(
                before.line,
                after.line,
                FrameModel::HelloOk(
                    HelloOk {
                        resume_from: from as u64,
                        in_applied: s.in_applied,
                        agent: forwards,
                    },
                ),
            )
            &&& after.repaint_ctrl_l == hello.repaint_ctrl_l
            &&& after.repaint_due == (from > wanted)
            &&& after.terminal_end_sent == before.terminal_end_sent
            &&& (next.agent is Some) == forwards
            &&& s.started ==> next.agent == s.agent
            &&& next == (SessionModel {
                client: next.client,
                agent: next.agent,
                started: true,
                win: hello.win,
                applied_win: None,
                ..s
            })
        }),
{
    assert(RESUME_FROM_START == u64::MAX);
}

/// A session whose shell could not be started says so to the client that asked for it and
/// ends; it never counts as started.
pub proof fn a_session_without_a_shell_ends(
    s: SessionModel,
    hello: HelloModel,
    attempt: Attempt,
    now: u64,
)
    requires
        s.client is Some,
        !s.started,
        !attempt.spawned,
    ensures
        ({
            let next = s.greeted(hello, attempt, now);
            &&& !next.started
            &&& next.client is None
            &&& next.stop == Some(StopReason::ShellNotStarted)
            &&& next.ring == s.ring
            &&& next.in_applied == s.in_applied
            &&& next.pending == s.pending
            &&& next.last_detach == now
            &&& one_frame_more(
                s.client->0.line,
                s.farewell(Some(Refusal::ShellFailed))->0,
                Refusal::ShellFailed.says(),
            )
        }),
{
    every_refusal_can_be_sent(Refusal::ShellFailed);
}

/// What a client is told when it is turned away says in its code what it may do about it:
/// a version it does not share, a session somebody holds, input with a hole, another client,
/// the daemon's own failures, and for everything else that it broke the protocol.
pub proof fn a_refusal_names_its_reason(why: Refusal)
    ensures
        why.says() matches FrameModel::Error { code, message } && {
            &&& code == ErrorCode::Version <==> why == Refusal::WrongVersion
            &&& code == ErrorCode::AlreadyAttached <==> why == Refusal::AlreadyAttached
            &&& code == ErrorCode::InputGap <==> why == Refusal::InputGap
            &&& code == ErrorCode::Takeover <==> why == Refusal::TakenOver
            &&& code == ErrorCode::Internal <==> why == Refusal::TerminalReadFailed || why
                == Refusal::ShellFailed
            &&& message == vstd::utf8::encode_utf8(why.text())
        },
{
}

// ---------------------------------------------------------------------------
// What is read
// ---------------------------------------------------------------------------

/// The first frame a connection sends decides: a greeting in this revision greets, as it was
/// sent, and what is behind it stays to be read; a greeting in another and any other frame
/// are refused for that; and the session that somebody holds is not touched by any of it.
#[verifier::spinoff_prover]
pub proof fn a_greeting_is_taken_as_it_was_sent(s: SessionModel, frame: FrameModel, rest: Seq<u8>)
    requires
        s.pending is Some,
        frame.refusal() is None,
        frame.is_text(),
        s.pending->0.line.incoming == frame.bytes() + rest,
    ensures
        ({
            let (next, opening) = s.opened();
            let heard = LineModel { incoming: rest, ..s.pending->0.line };
            match frame {
                FrameModel::Hello(hello) => if hello.protocol == 11 {
                    &&& opening == OpeningModel::Greets(hello)
                    &&& next.pending is Some
                    &&& next.pending->0.line == heard
                    &&& next.pending->0.deadline == s.pending->0.deadline
                    &&& next == (SessionModel { pending: next.pending, ..s })
                } else {
                    &&& opening matches OpeningModel::Refused(line) && one_frame_more(
                        heard,
                        line,
                        Refusal::WrongVersion.says(),
                    )
                    &&& next == (SessionModel { pending: None, ..s })
                },
                _ => {
                    &&& opening matches OpeningModel::Refused(line) && one_frame_more(
                        heard,
                        line,
                        Refusal::NotHello.says(),
                    )
                    &&& next == (SessionModel { pending: None, ..s })
                },
            }
        }),
{
    a_whole_frame_comes_off_the_front(frame, rest);
    decode_inverts_encode(frame);
    every_refusal_can_be_sent(Refusal::WrongVersion);
    every_refusal_can_be_sent(Refusal::NotHello);
}

/// A connection that has not sent a whole frame is waited for, and one that closed without
/// one is let go: nothing of either is acted on.
#[verifier::spinoff_prover]
pub proof fn half_a_greeting_is_waited_for(s: SessionModel, frame: FrameModel, split: int)
    requires
        s.pending is Some,
        frame.refusal() is None,
        0 <= split < frame.bytes().len(),
        s.pending->0.line.incoming == frame.bytes().take(split),
    ensures
        s.pending->0.line.ended ==> s.opened() == (
            SessionModel { pending: None, ..s },
            OpeningModel::Closed,
        ),
        !s.pending->0.line.ended ==> s.opened() == (s, OpeningModel::Waiting),
{
    a_partial_frame_waits(frame, split);
}

/// The client's frames are served one after the other, each exactly once and in the order
/// they were sent, while there is room for input.
#[verifier::spinoff_prover]
pub proof fn frames_are_served_in_order(s: SessionModel, frame: FrameModel, rest: Seq<u8>, now: u64)
    requires
        s.client is Some,
        s.pending_input.len() < 1048576,
        frame.refusal() is None,
        frame.is_text(),
        s.client->0.line.incoming == frame.bytes() + rest,
    ensures
        ({
            let (next, effect) = s.left_with(rest).served(frame, now);
            match effect {
                EffectModel::Nothing => s.heard(now) == next.heard(now),
                EffectModel::AgentClosing => s.heard(now) == (next, HeardModel::AgentClosing),
                EffectModel::Gone(line) => s.heard(now) == (next, HeardModel::Gone(line)),
            }
        }),
{
    let at = s.left_with(rest);
    let (next, effect) = at.served(frame, now);
    assert(!s.saturated());
    a_whole_frame_comes_off_the_front(frame, rest);
    lemma_served_keeps_the_buffer(at, frame, now);
    assert(at.client->0.line.incoming == rest);
    assert(s.undecoded() == frame.bytes().len() + rest.len());
    assert(frame.bytes().len() >= 4);
    if effect is Nothing {
        assert(next.undecoded() == rest.len());
    }
}

/// Half a frame is waited for and nothing of it is acted on, unless the client has closed
/// its half: then it can never be whole, and the client is let go and told.
#[verifier::spinoff_prover]
pub proof fn half_a_frame_is_waited_for(s: SessionModel, frame: FrameModel, split: int, now: u64)
    requires
        s.client is Some,
        s.pending_input.len() < 1048576,
        frame.refusal() is None,
        0 <= split < frame.bytes().len(),
        s.client->0.line.incoming == frame.bytes().take(split),
    ensures
        !s.client->0.line.ended || split == 0 ==> s.heard(now) == (s, HeardModel::Idle),
        s.client->0.line.ended && split > 0 ==> {
            &&& s.heard(now).0.client is None
            &&& s.heard(now).0.in_applied == s.in_applied
            &&& s.heard(now).0.pending_input == s.pending_input
            &&& s.heard(now).1 matches HeardModel::Gone(line) && one_frame_more(
                s.client->0.line,
                line,
                Refusal::TruncatedAtEnd.says(),
            )
        },
{
    assert(MAX_PENDING_INPUT == 1048576);
    a_partial_frame_waits(frame, split);
    every_refusal_can_be_sent(Refusal::TruncatedAtEnd);
}

/// While the terminal takes no more input nothing of the client's is decoded, and with
/// nobody attached there is nothing to.
pub proof fn input_is_held_while_there_is_no_room(s: SessionModel, now: u64)
    ensures
        s.client is None ==> s.heard(now) == (s, HeardModel::Absent),
        s.client is Some && s.pending_input.len() >= 1048576 ==> s.heard(now) == (
            s,
            HeardModel::Held,
        ),
{
    assert(MAX_PENDING_INPUT == 1048576);
}

// ---------------------------------------------------------------------------
// The client's frames
// ---------------------------------------------------------------------------

/// Input is acknowledged as far as it was applied, whatever was new in it, and reaches
/// nothing but the terminal's queue and the count of what was applied. Once the terminal is
/// closed it is counted and goes nowhere.
pub proof fn input_is_acknowledged_as_far_as_it_was_applied(
    s: SessionModel,
    offset: u64,
    data: Seq<u8>,
    now: u64,
)
    requires
        offset <= s.in_applied,
        offset + data.len() <= u64::MAX,
    ensures
        ({
            let (next, effect) = s.served(FrameModel::Input { offset, data }, now);
            let end = offset + data.len();
            let fresh = if end > s.in_applied {
                end - s.in_applied
            } else {
                0
            };
            &&& effect == EffectModel::Nothing
            &&& next.in_applied == s.in_applied + fresh
            &&& client_was_sent(s, next, FrameModel::InputAck { applied_through: next.in_applied })
            &&& next.pending_input == if s.terminal_closed_at is None {
                s.pending_input + data.subrange(data.len() - fresh, data.len() as int)
            } else {
                s.pending_input
            }
            &&& next == (SessionModel {
                client: next.client,
                in_applied: next.in_applied,
                pending_input: next.pending_input,
                ..s
            })
        }),
{
    let next = s.served(FrameModel::Input { offset, data }, now).0;
    let fresh = if offset + data.len() > s.in_applied {
        offset + data.len() - s.in_applied
    } else {
        0
    };
    assert(data.subrange(data.len() - fresh, data.len() as int) =~= if fresh > 0 {
        data.skip(s.in_applied - offset)
    } else {
        Seq::empty()
    });
    assert(s.terminal_closed_at is None && fresh == 0 ==> s.pending_input + data.subrange(
        data.len() - fresh,
        data.len() as int,
    ) =~= s.pending_input);
}

/// A probe is answered with one frame and costs nothing else.
pub proof fn a_probe_is_answered(s: SessionModel, now: u64)
    ensures
        ({
            let (next, effect) = s.served(FrameModel::Ping, now);
            &&& effect == EffectModel::Nothing
            &&& client_was_sent(s, next, FrameModel::Pong)
            &&& next == (SessionModel { client: next.client, ..s })
        }),
{
}

/// A client that asks to leave is let go as it stands, told nothing; one that breaks the
/// protocol is let go too and told which rule it was. Either way the session keeps what was
/// written, typed and sized, its clock for whoever comes next starts then, and the agent
/// connection it held is closing.
pub proof fn a_client_leaves_or_is_turned_away(s: SessionModel, frame: FrameModel, now: u64)
    requires
        s.client is Some,
        frame is Detach || frame is Hello || frame is HelloOk || frame is InputAck
            || frame is Output || frame is Gap || frame is Exit || frame is Pong || frame is Error
            || frame is AgentOpen,
    ensures
        ({
            let (next, effect) = s.served(frame, now);
            &&& next.client is None
            &&& next.last_detach == now
            &&& next == (SessionModel { client: None, last_detach: now, agent: next.agent, ..s })
            &&& s.agent is None ==> next.agent is None
            &&& s.agent is Some ==> {
                &&& next.agent is Some
                &&& next.agent->0.next_generation == s.agent->0.next_generation
                &&& s.agent->0.channel is None ==> next.agent->0.channel is None
                &&& s.agent->0.channel is Some ==> {
                    &&& next.agent->0.channel is Some
                    &&& next.agent->0.channel->0.closing
                    &&& next.agent->0.channel->0.pending == s.agent->0.channel->0.pending
                    &&& next.agent->0.channel->0.generation == s.agent->0.channel->0.generation
                }
            }
            &&& effect matches EffectModel::Gone(line) && {
                &&& frame is Detach ==> line == s.client->0.line
                &&& frame is Hello ==> one_frame_more(
                    s.client->0.line,
                    line,
                    Refusal::AlreadyGreeted.says(),
                )
                &&& !(frame is Detach) && !(frame is Hello) ==> one_frame_more(
                    s.client->0.line,
                    line,
                    Refusal::NotFromClient.says(),
                )
            }
        }),
{
    every_refusal_can_be_sent(Refusal::AlreadyGreeted);
    every_refusal_can_be_sent(Refusal::NotFromClient);
}

/// Input that skips ahead is refused with the reason for it.
pub proof fn a_hole_in_the_input_is_refused(s: SessionModel, offset: u64, data: Seq<u8>, now: u64)
    requires
        s.client is Some,
        offset > s.in_applied,
    ensures
        s.served(FrameModel::Input { offset, data }, now).1 matches EffectModel::Gone(line)
            && one_frame_more(s.client->0.line, line, Refusal::InputGap.says()),
{
    every_refusal_can_be_sent(Refusal::InputGap);
}

/// What the client sends for the agent connection that is being served is queued for it
/// behind what was queued before, and reaches nothing else. For any other, or one that is
/// closing, it is dropped; and where the queue cannot hold it the connection ends and the
/// client is told which.
pub proof fn agent_bytes_reach_the_connection_they_name(
    s: SessionModel,
    generation: u32,
    data: Seq<u8>,
    now: u64,
)
    ensures
        ({
            let (next, effect) = s.served(FrameModel::AgentData { generation, data }, now);
            let named = s.agent is Some && s.agent->0.channel is Some
                && s.agent->0.channel->0.generation == generation
                && !s.agent->0.channel->0.closing;
            let fits = s.agent->0.channel->0.pending.len() + data.len() <= 262144;
            &&& effect == EffectModel::Nothing
            &&& !named ==> next == s
            &&& named && fits ==> {
                &&& next == (SessionModel { agent: next.agent, ..s })
                &&& next.agent is Some
                &&& next.agent->0.next_generation == s.agent->0.next_generation
                &&& next.agent->0.channel is Some
                &&& next.agent->0.channel->0.pending == s.agent->0.channel->0.pending + data
                &&& next.agent->0.channel->0.generation == generation
                &&& !next.agent->0.channel->0.closing
                &&& next.agent->0.channel->0.idle_deadline
                    == s.agent->0.channel->0.idle_deadline
            }
            &&& named && !fits ==> {
                &&& next.agent is Some
                &&& next.agent->0.channel is None
                &&& next.agent->0.next_generation == s.agent->0.next_generation
                &&& client_was_sent(s, next, FrameModel::AgentClose { generation })
                &&& next == (SessionModel { client: next.client, agent: next.agent, ..s })
            }
        }),
{
}

/// The client closes the agent connection it names and no other: it keeps its queue until
/// that is written, and whoever serves it is told to shut its reading side.
pub proof fn the_client_closes_the_connection_it_names(s: SessionModel, generation: u32, now: u64)
    ensures
        ({
            let (next, effect) = s.served(FrameModel::AgentClose { generation }, now);
            let named = s.agent is Some && s.agent->0.channel is Some
                && s.agent->0.channel->0.generation == generation;
            &&& !named ==> next == s && effect == EffectModel::Nothing
            &&& named ==> {
                &&& effect == EffectModel::AgentClosing
                &&& next == (SessionModel { agent: next.agent, ..s })
                &&& next.agent is Some
                &&& next.agent->0.next_generation == s.agent->0.next_generation
                &&& next.agent->0.channel is Some
                &&& next.agent->0.channel->0.closing
                &&& next.agent->0.channel->0.pending == s.agent->0.channel->0.pending
                &&& next.agent->0.channel->0.generation == generation
            }
        }),
{
}

// ---------------------------------------------------------------------------
// The agent connection
// ---------------------------------------------------------------------------

/// A connection to the agent socket is served where the slot is free, a client is attached
/// to answer it, and it is this user's: under the next name, with a minute to move a byte
/// in, and the client told that name. Any other changes nothing but, where the socket
/// failed, when it is asked again.
#[verifier::spinoff_prover]
pub proof fn an_agent_connection_is_opened_to_the_client(
    s: SessionModel,
    arrival: Arrival,
    now: u64,
)
    requires
        s.agent is Some,
        now <= u64::MAX - 60_000_000_000,
    ensures
        ({
            let next = s.agent_knocked(arrival, now);
            let agent = s.agent->0;
            let ours = arrival == (Arrival::Connection { ours: true, usable: true });
            let served = agent.channel is None && s.client is Some && ours;
            &&& served ==> {
                &&& next.agent is Some
                &&& next.agent->0.channel matches Some(channel) && {
                    &&& channel.generation == agent.next_generation
                    &&& channel.pending.len() == 0
                    &&& !channel.closing
                    &&& channel.idle_deadline == now + 60_000_000_000
                }
                &&& next.agent->0.next_generation != agent.next_generation
                &&& agent.next_generation < u32::MAX ==> next.agent->0.next_generation
                    == agent.next_generation + 1
                &&& client_was_sent(
                    s,
                    next,
                    FrameModel::AgentOpen { generation: agent.next_generation },
                )
                &&& next == (SessionModel { client: next.client, agent: next.agent, ..s })
            }
            &&& !served && agent.channel is None && arrival == Arrival::Failed
                ==> next == (SessionModel {
                agent_accept_retry: Some((now + 100_000_000) as u64),
                ..s
            })
            &&& !served && !(agent.channel is None && arrival == Arrival::Failed)
                ==> next == s
        }),
{
}

/// A write of the agent connection takes from the front of what the client sent for it. A
/// byte that moved gives it another minute. One the client has closed is forgotten without a
/// word once its queue is written or cannot be; one it has not is forgotten where the write
/// failed, and the client is told.
#[verifier::spinoff_prover]
pub proof fn the_agent_is_handed_what_the_client_sent_first(
    s: SessionModel,
    result: Result<usize, Errno>,
    now: u64,
)
    requires
        s.agent is Some,
        s.agent->0.channel is Some,
        now <= u64::MAX - 60_000_000_000,
    ensures
        ({
            let next = s.agent_flushed(result, now);
            let channel = s.agent->0.channel->0;
            let queue = channel.pending;
            let took = match result {
                Ok(n) => if n < queue.len() {
                    n as int
                } else {
                    queue.len() as int
                },
                Err(_) => 0,
            };
            let broken = queue.len() > 0 && match result {
                Ok(n) => n == 0,
                Err(e) => e != Errno::Again && e != Errno::Interrupted,
            };
            &&& next.agent is Some
            &&& next.agent->0.next_generation == s.agent->0.next_generation
            &&& !broken && !(channel.closing && took == queue.len()) ==> {
                &&& next == (SessionModel { agent: next.agent, ..s })
                &&& next.agent->0.channel matches Some(left) && {
                    &&& left.pending == queue.subrange(took, queue.len() as int)
                    &&& left.generation == channel.generation
                    &&& left.closing == channel.closing
                    &&& took > 0 ==> left.idle_deadline == now + 60_000_000_000
                    &&& took == 0 ==> left.idle_deadline == channel.idle_deadline
                }
            }
            &&& channel.closing && (broken || took == queue.len()) ==> {
                &&& next.agent->0.channel is None
                &&& next == (SessionModel { agent: next.agent, ..s })
            }
            &&& !channel.closing && broken ==> {
                &&& next.agent->0.channel is None
                &&& client_was_sent(
                    s,
                    next,
                    FrameModel::AgentClose { generation: channel.generation },
                )
                &&& next == (SessionModel { client: next.client, agent: next.agent, ..s })
            }
        }),
{
    let queue = s.agent->0.channel->0.pending;
    assert(queue.skip(0) =~= queue.subrange(0, queue.len() as int));
    if let Ok(n) = result {
        if n <= queue.len() {
            assert(queue.skip(n as int) =~= queue.subrange(n as int, queue.len() as int));
        }
        assert(queue.skip(queue.len() as int) =~= queue.subrange(
            queue.len() as int,
            queue.len() as int,
        ));
    }
}

/// What a read of the agent connection filled the buffer with goes to the client whole, in
/// frames that carry its name, and gives it another minute. A connection the client has
/// closed is not listened to.
#[verifier::spinoff_prover]
pub proof fn the_client_is_handed_what_the_agent_said(
    s: SessionModel,
    n: usize,
    buf: Seq<u8>,
    now: u64,
)
    requires
        s.agent is Some,
        s.agent->0.channel is Some,
        n <= buf.len(),
        now <= u64::MAX - 60_000_000_000,
    ensures
        ({
            let channel = s.agent->0.channel->0;
            let read = s.agent_read(ReadOutcome::Data(n), buf, now);
            &&& channel.closing ==> read == s
            &&& !channel.closing ==> {
                &&& read == (SessionModel { client: read.client, agent: read.agent, ..s })
                &&& read.agent->0.channel matches Some(left) && {
                    &&& left.pending == channel.pending
                    &&& left.generation == channel.generation
                    &&& !left.closing
                    &&& left.idle_deadline == now + 60_000_000_000
                }
                &&& read.agent->0.next_generation == s.agent->0.next_generation
                &&& s.client is None ==> read.client is None
                &&& s.client is Some ==> {
                    &&& read.client is Some
                    &&& read.client->0 == (AttachedModel {
                        line: read.client->0.line,
                        ..s.client->0
                    })
                    &&& agent_said(
                        s.client->0.line,
                        read.client->0.line,
                        channel.generation,
                        buf.subrange(0, n as int),
                    )
                }
            }
        }),
{
    let channel = s.agent->0.channel->0;
    let data = buf.subrange(0, n as int);
    assert(buf.take(n as int) =~= data);
    if s.client is Some {
        let line = s.client->0.line;
        let frames = agent_chunks(channel.generation, data);
        lemma_agent_frames_carry(channel.generation, data);
        assert(agent_carries(frames, channel.generation, data));
        assert(line.said_all(frames).outgoing == opened_queue(line) + bytes_of(frames));
        assert(agent_said(line, line.said_all(frames), channel.generation, data));
    }
}

/// Between two moments of a line `data` was queued for one agent connection, behind
/// everything queued before it, and nothing was read.
pub open spec fn agent_said(
    before: LineModel,
    after: LineModel,
    generation: u32,
    data: Seq<u8>,
) -> bool {
    &&& after.incoming == before.incoming
    &&& after.ended == before.ended
    &&& exists|frames: Seq<FrameModel>|
        {
            &&& #[trigger] agent_carries(frames, generation, data)
            &&& after.outgoing == opened_queue(before) + bytes_of(frames)
        }
}

/// An end or a failure of the agent connection forgets it and the client is told which;
/// nothing to read now changes nothing.
#[verifier::spinoff_prover]
pub proof fn the_end_of_an_agent_connection_is_told(s: SessionModel, buf: Seq<u8>, e: Errno, now: u64)
    requires
        s.agent is Some,
        s.agent->0.channel is Some,
    ensures
        ({
            let channel = s.agent->0.channel->0;
            let ended = s.agent_read(ReadOutcome::Eof, buf, now);
            &&& s.agent_read(ReadOutcome::WouldBlock, buf, now) == s
            &&& s.agent_read(ReadOutcome::Failed(e), buf, now) == ended
            &&& channel.closing ==> ended == s
            &&& !channel.closing ==> {
                &&& ended.agent is Some
                &&& ended.agent->0.channel is None
                &&& ended.agent->0.next_generation == s.agent->0.next_generation
                &&& client_was_sent(
                    s,
                    ended,
                    FrameModel::AgentClose { generation: channel.generation },
                )
                &&& ended == (SessionModel { client: ended.client, agent: ended.agent, ..s })
            }
        }),
{
}

/// The row of frames carries `data` for one agent connection, whole and in order, and every
/// frame of it can be sent.
pub open spec fn agent_carries(frames: Seq<FrameModel>, generation: u32, data: Seq<u8>) -> bool
    decreases frames.len(),
{
    if frames.len() == 0 {
        data.len() == 0
    } else {
        frames[0] matches FrameModel::AgentData { generation: named, data: part } && {
            &&& named == generation
            &&& 0 < part.len() <= data.len()
            &&& part == data.subrange(0, part.len() as int)
            &&& frames[0].refusal() is None
            &&& agent_carries(
                frames.drop_first(),
                generation,
                data.subrange(part.len() as int, data.len() as int),
            )
        }
    }
}

/// Agent bytes are cut into frames that carry them.
proof fn lemma_agent_frames_carry(generation: u32, data: Seq<u8>)
    ensures
        agent_carries(agent_chunks(generation, data), generation, data),
    decreases data.len(),
{
    if data.len() > 0 {
        let n = if data.len() <= MAX_AGENT_DATA {
            data.len() as int
        } else {
            MAX_AGENT_DATA as int
        };
        let frames = agent_chunks(generation, data);
        let rest = data.skip(n);
        lemma_agent_frames_carry(generation, rest);
        assert(frames.drop_first() =~= agent_chunks(generation, rest));
        assert(rest =~= data.subrange(n, data.len() as int));
        assert(data.take(n) =~= data.subrange(0, n));
        assert(frames[0].refusal() is None);
    }
}

// ---------------------------------------------------------------------------
// The socket
// ---------------------------------------------------------------------------

/// A read of a connection's socket adds exactly what arrived behind what was not decoded
/// yet, and only an empty one is the end of what the peer has to say. It is read on until it
/// has nothing now, its peer is done, or as much is waiting as may.
pub proof fn a_line_keeps_what_it_was_sent(line: LineModel, got: Received<'_>)
    ensures
        ({
            let next = line.filled(got);
            &&& next.outgoing == line.outgoing
            &&& next.synced == line.synced
            &&& match got {
                Received::Bytes(bytes) => {
                    &&& next.incoming == line.incoming + bytes@
                    &&& next.ended == (line.ended || bytes@.len() == 0)
                    &&& line.fill_step(got) == if bytes@.len() > 0 && next.incoming.len()
                        < MAX_PENDING_READ {
                        Step::Again
                    } else {
                        Step::Done
                    }
                },
                Received::WouldBlock => next == line && line.fill_step(got) == Step::Done,
                Received::Interrupted => next == line && line.fill_step(got) == Step::Again,
                Received::Failed => next == line && line.fill_step(got) == Step::Failed,
            }
        }),
{
}

/// A write of a connection's queue takes from its front: what it took and what is left are
/// what there was. It is written on until nothing is left or nothing more is taken now.
pub proof fn a_line_is_written_in_order(line: LineModel, took: Written)
    requires
        took matches Written::Took(n) ==> n <= line.outgoing.len(),
    ensures
        ({
            let next = line.flushed(took);
            &&& next.incoming == line.incoming
            &&& next.ended == line.ended
            &&& next.synced == line.synced
            &&& match took {
                Written::Took(n) => {
                    &&& line.outgoing == line.outgoing.subrange(0, n as int) + next.outgoing
                    &&& n == 0 ==> line.flush_step(took) == Step::WriteZero
                    &&& n > 0 && next.outgoing.len() == 0 ==> line.flush_step(took) == Step::Done
                    &&& n > 0 && next.outgoing.len() > 0 ==> line.flush_step(took) == Step::Again
                },
                Written::WouldBlock => next == line && line.flush_step(took) == Step::Done,
                Written::Interrupted => next == line && line.flush_step(took) == Step::Again,
                Written::Failed => next == line && line.flush_step(took) == Step::Failed,
            }
        }),
{
    if let Written::Took(n) = took {
        let next = line.flushed(took);
        assert(line.outgoing =~= line.outgoing.subrange(0, n as int) + next.outgoing);
    }
}

/// A client is let go on its own account in three ways only: its socket failed, it has let
/// eight megabytes pile up, or it has closed its half and holds everything down to the end.
pub proof fn a_client_that_reads_is_kept(s: SessionModel, step: Step)
    ensures
        s.client is None ==> !s.client_finished(step),
        s.client is Some ==> (s.client_finished(step) <==> step == Step::Failed || step
            == Step::WriteZero || s.client->0.line.outgoing.len() >= 8388608 || (
        s.client->0.terminal_end_sent && s.client->0.line.ended && s.client->0.line.outgoing.len()
            == 0)),
{
    assert(ABANDON_PENDING_WRITE == 8388608);
}

// ---------------------------------------------------------------------------
// The clocks
// ---------------------------------------------------------------------------

/// Why a session ends, and when: the reason it was given, or nobody for thirty seconds
/// where nobody ever came and for seven days where somebody did. Nothing else ends one.
pub proof fn a_session_ends_for_a_reason(s: SessionModel, now: u64)
    requires
        s.last_detach <= u64::MAX - 604_800_000_000_000,
    ensures
        s.stop is Some ==> s.ends(now) == s.stop,
        s.stop is None && s.client is Some ==> s.ends(now) is None,
        s.stop is None && s.client is None && s.started ==> s.ends(now) == if now - s.last_detach
            >= 604_800_000_000_000 {
            Some(StopReason::Idle)
        } else {
            None
        },
        s.stop is None && s.client is None && !s.started ==> s.ends(now) == if now - s.last_detach
            >= 30_000_000_000 {
            Some(StopReason::NeverAttached)
        } else {
            None
        },
{
}

/// A signal to stop is a reason where there was none, and a signal from the child is
/// remembered; neither touches anything else.
pub proof fn signals_are_noted(s: SessionModel, ready: Ready)
    ensures
        ({
            let next = s.noticed(ready);
            &&& next == (SessionModel {
                stop: next.stop,
                child_signalled: next.child_signalled,
                ..s
            })
            &&& next.stop == if s.stop is None && ready.stop {
                Some(StopReason::Signalled)
            } else {
                s.stop
            }
            &&& next.child_signalled == (s.child_signalled || ready.child)
        }),
{
}

/// Nothing that is not due yet expires: a backoff, a slot and a connection are kept until
/// their time, and nothing else is touched. An agent connection that runs out is told to the
/// client that still has it open.
pub proof fn nothing_expires_early(s: SessionModel, now: u64)
    ensures
        ({
            let next = s.expired(now);
            let stalled = s.agent is Some && s.agent->0.channel is Some && now
                >= s.agent->0.channel->0.idle_deadline;
            let open = stalled && !s.agent->0.channel->0.closing;
            &&& s.accept_retry matches Some(at) ==> (now < at ==> next.accept_retry
                == s.accept_retry)
            &&& s.accept_retry is None ==> next.accept_retry is None
            &&& s.agent_accept_retry matches Some(at) ==> (now < at ==> next.agent_accept_retry
                == s.agent_accept_retry)
            &&& s.agent_accept_retry is None ==> next.agent_accept_retry is None
            &&& s.pending matches Some(pending) ==> (now < pending.deadline ==> next.pending
                == s.pending)
            &&& s.pending is None ==> next.pending is None
            &&& !stalled ==> next.agent == s.agent && next.client == s.client
            &&& stalled ==> next.agent is Some && next.agent->0.channel is None
                && next.agent->0.next_generation == s.agent->0.next_generation
            &&& stalled && !open ==> next.client == s.client
            &&& open ==> client_was_sent(
                s,
                next,
                FrameModel::AgentClose { generation: s.agent->0.channel->0.generation },
            )
            &&& next == (SessionModel {
                accept_retry: next.accept_retry,
                agent_accept_retry: next.agent_accept_retry,
                pending: next.pending,
                agent: next.agent,
                client: next.client,
                ..s
            })
        }),
{
}

/// The loop does not wake for nothing: where it sleeps less than an hour, something falls due
/// when it wakes.
pub proof fn the_loop_wakes_for_something(s: SessionModel, now: u64)
    requires
        s.sleeps(now) < 3_600_000_000_000,
    ensures
        ({
            let wakes = now + s.sleeps(now);
            ||| s.client is None && s.started && later(s.last_detach, 604_800_000_000_000) <= wakes
            ||| s.client is None && !s.started && later(s.last_detach, 30_000_000_000) <= wakes
            ||| s.accept_retry is Some && s.accept_retry->0 <= wakes
            ||| s.agent_accept_retry is Some && s.agent_accept_retry->0 <= wakes
            ||| s.pending is Some && s.pending->0.deadline <= wakes
            ||| s.agent is Some && s.agent->0.channel is Some
                && s.agent->0.channel->0.idle_deadline <= wakes
            ||| s.outcome is None && s.terminal_closed_at is Some && later(
                s.terminal_closed_at->0,
                2_000_000_000,
            ) <= wakes
        }),
{
}

/// A moment some time after another, unless the clock cannot say it.
pub proof fn later_is_so_much_later(at: u64, span: u64)
    ensures
        at + span <= u64::MAX ==> later(at, span) == at + span,
        at + span > u64::MAX ==> later(at, span) == u64::MAX,
{
}

// ---------------------------------------------------------------------------
// The pass
// ---------------------------------------------------------------------------

/// What the poll is asked, source by source: everything that can happen is waited for, and
/// nothing else.
pub proof fn everything_that_can_happen_is_waited_for(s: SessionModel)
    ensures
        ({
            let reads = Interest { read: true, write: false };
            &&& s.interest(Source::Stop) == Some(reads)
            &&& s.interest(Source::Child) == Some(reads)
            &&& s.accept_retry is None && s.pending is None ==> s.interest(Source::Listener)
                == Some(reads)
            &&& s.pending is Some ==> s.interest(Source::Pending) == Some(reads)
            &&& s.pending is None ==> s.interest(Source::Pending) is None
            &&& s.started && s.terminal_closed_at is None ==> s.interest(Source::Pty) == Some(
                Interest { read: true, write: s.pending_input.len() > 0 },
            )
            &&& !s.started ==> s.interest(Source::Pty) is None
            &&& s.client is None ==> s.interest(Source::Client) is None
            &&& s.client matches Some(client) ==> s.interest(Source::Client) == Some(
                Interest {
                    read: !client.line.ended && s.pending_input.len() < 1048576,
                    write: client.line.outgoing.len() > 0 || client.sent_through < s.ring.first
                        + s.ring.retained.len(),
                },
            )
            &&& s.agent is None ==> s.interest(Source::AgentListener) is None && s.interest(
                Source::AgentChannel,
            ) is None
            &&& s.agent matches Some(agent) ==> {
                &&& agent.channel is None && s.agent_accept_retry is None ==> s.interest(
                    Source::AgentListener,
                ) == Some(reads)
                &&& agent.channel is None ==> s.interest(Source::AgentChannel) is None
                &&& agent.channel matches Some(channel) ==> {
                    let full = s.client matches Some(client) && client.line.outgoing.len()
                        >= MAX_PENDING_WRITE;
                    let read = !channel.closing && !full;
                    let write = channel.pending.len() > 0;
                    s.interest(Source::AgentChannel) == if read || write {
                        Some(Interest { read, write })
                    } else {
                        None
                    }
                }
            }
        }),
{
    assert(MAX_PENDING_INPUT == 1048576);
}

/// The poll set holds each source that is waited for once, with what it is waited for, and
/// no other.
pub proof fn the_poll_set_is_what_is_waited_for(s: SessionModel, n: nat, source: Source)
    requires
        n <= 8,
    ensures
        ({
            let set = s.watched(n);
            let at = place_of(source);
            &&& forall|i: int| 0 <= i < set.len() ==> s.interest((#[trigger] set[i]).0) == Some(
                set[i].1,
            ) && place_of(set[i].0) < n
            &&& forall|i: int, j: int|
                0 <= i < j < set.len() ==> place_of((#[trigger] set[i]).0) < place_of(
                    (#[trigger] set[j]).0,
                )
            &&& at < n && s.interest(source) is Some ==> set.contains(
                (source, s.interest(source)->0),
            )
        }),
    decreases n,
{
    if n > 0 {
        let m = (n - 1) as nat;
        the_poll_set_is_what_is_waited_for(s, m, source);
        let before = s.watched(m);
        let set = s.watched(n);
        let last = Source::ALL@[n - 1];
        assert(place_of(last) == n - 1);
        if place_of(source) == n - 1 {
            assert(source == last);
        }
        if s.interest(source) is Some && place_of(source) < n {
            let entry = (source, s.interest(source)->0);
            if place_of(source) < m {
                let k = choose|k: int| 0 <= k < before.len() && before[k] == entry;
                assert(set[k] == entry);
            } else {
                assert(set[set.len() - 1] == entry);
            }
        }
    }
}

/// Where a source stands in the poll set.
pub open spec fn place_of(source: Source) -> int {
    match source {
        Source::Listener => 0,
        Source::Stop => 1,
        Source::Child => 2,
        Source::Pty => 3,
        Source::Client => 4,
        Source::Pending => 5,
        Source::AgentListener => 6,
        Source::AgentChannel => 7,
    }
}

/// A pass does what is ready and what is owed, and nothing else: a source that reported is
/// serviced, decoded input is not left waiting for room it has, and the terminal's size, its
/// input, the child, the pump and the client's queue are seen to every time.
pub proof fn a_pass_does_what_is_ready(s: SessionModel, ready: Ready)
    ensures
        ({
            let backlog = s.pending_input.len() < 1048576 && s.client is Some
                && s.client->0.line.incoming.len() > 0;
            &&& s.wants(Task::ReadTerminal, ready) <==> ready.terminal
            &&& s.wants(Task::ReadClient, ready) <==> ready.client || backlog
            &&& s.wants(Task::DropClient, ready) <==> ready.client_hung_up && s.client is Some
            &&& s.wants(Task::ReadPending, ready) <==> ready.pending && s.stop is None
            &&& s.wants(Task::Accept, ready) <==> ready.listener && s.stop is None
            &&& s.wants(Task::ServiceAgent, ready) <==> ready.agent_channel
            &&& s.wants(Task::AcceptAgent, ready) <==> ready.agent_listener && s.stop is None
            &&& s.wants(Task::ReadBacklog, ready) <==> backlog
            &&& s.wants(Task::ApplyWin, ready)
            &&& s.wants(Task::WriteTerminal, ready)
            &&& s.wants(Task::CollectOutcome, ready)
            &&& s.wants(Task::PumpOutput, ready)
            &&& s.wants(Task::WriteClient, ready)
        }),
{
    assert(MAX_PENDING_INPUT == 1048576);
}

/// A pass leaves nothing out: whatever is wanted at or behind a place is come to.
pub proof fn a_pass_comes_to_everything(s: SessionModel, ready: Ready, from: nat, place: nat)
    requires
        from <= place < 13,
        s.wants(Task::ALL@[place as int], ready),
    ensures
        s.next(from, ready) matches Some((_, behind)) && behind <= place + 1,
    decreases 13 - from,
{
    if !s.wants(Task::ALL@[from as int], ready) {
        a_pass_comes_to_everything(s, ready, from + 1, place);
    }
}

/// The order of a pass: output first, then whoever is attached, then whoever arrives, then
/// the agent, the terminal, the child and last what all of that left to send.
pub proof fn the_order_of_a_pass()
    ensures
        Task::ALL@ == seq![
            Task::ReadTerminal,
            Task::ReadClient,
            Task::DropClient,
            Task::ReadPending,
            Task::Accept,
            Task::ServiceAgent,
            Task::AcceptAgent,
            Task::ApplyWin,
            Task::WriteTerminal,
            Task::ReadBacklog,
            Task::CollectOutcome,
            Task::PumpOutput,
            Task::WriteClient,
        ],
{
    assert(Task::ALL@ =~= seq![
        Task::ReadTerminal,
        Task::ReadClient,
        Task::DropClient,
        Task::ReadPending,
        Task::Accept,
        Task::ServiceAgent,
        Task::AcceptAgent,
        Task::ApplyWin,
        Task::WriteTerminal,
        Task::ReadBacklog,
        Task::CollectOutcome,
        Task::PumpOutput,
        Task::WriteClient,
    ]);
}

/// Anything that calls for a read is serviced, an error as much as input: a source that only
/// ever reports one would otherwise never be seen to.
pub proof fn an_error_is_serviced(reported: Reported)
    ensures
        reported.serviceable() <==> reported.input || reported.error || reported.hang_up
            || reported.invalid,
{
}

/// What the poll reported of each source is what a pass goes by: anything that calls for a
/// read, a client that hung up or failed, and an agent connection that takes bytes.
pub proof fn each_source_reports_for_itself(
    stop: Reported,
    child: Reported,
    terminal: Reported,
    client: Reported,
    pending: Reported,
    listener: Reported,
    agent_channel: Reported,
    agent_listener: Reported,
)
    ensures
        ({
            let ready = Ready::from_poll(
                stop,
                child,
                terminal,
                client,
                pending,
                listener,
                agent_channel,
                agent_listener,
            );
            let calls = |r: Reported| r.input || r.error || r.hang_up || r.invalid;
            &&& ready.stop == calls(stop)
            &&& ready.child == calls(child)
            &&& ready.terminal == calls(terminal)
            &&& ready.client == calls(client)
            &&& ready.client_hung_up == (client.hang_up || client.error)
            &&& ready.pending == calls(pending)
            &&& ready.listener == calls(listener)
            &&& ready.agent_channel == (calls(agent_channel) || agent_channel.output)
            &&& ready.agent_listener == calls(agent_listener)
        }),
{
}

/// The ring a session is given retains what the environment asks for, up to a gigabyte, and
/// four megabytes where it asks for nothing, for none, or for what is no number.
pub proof fn a_ring_is_as_large_as_it_was_asked_to_be(bytes: nat, before: Seq<char>, after: Seq<char>)
    requires
        all_space(before),
        all_space(after),
        bytes <= usize::MAX,
    ensures
        ring_capacity_for(None) == 4194304,
        ring_capacity_for(Some(before + digits(bytes, 10) + after)) == if bytes == 0 {
            4194304
        } else if bytes > 1073741824 {
            1073741824
        } else {
            bytes
        },
        ring_capacity_for(Some(Seq::empty())) == 4194304,
{
    let d = digits(bytes, 10);
    lemma_digits_spell(bytes);
    numbers_read_back(bytes);
    assert(is_digit(d[0]));
    assert(is_digit(d.last()));
    trimming_takes_what_surrounds(before, d, after);
    let none = Seq::<char>::empty();
    trimming_takes_what_surrounds(none, none, none);
    assert(none + none + none =~= none);
}

/// A session begins with nobody attached, nothing typed, nothing sized, nothing ended and no
/// reason to stop, and its clock for the first client runs from then.
pub proof fn a_session_begins_with_nobody(ring: RingModel, now: u64)
    ensures
        ({
            let s = SessionModel::fresh(ring, now);
            &&& s.ring == ring
            &&& s.client is None && s.pending is None && s.agent is None
            &&& s.stop is None && s.outcome is None && s.terminal_closed_at is None
            &&& !s.started && !s.child_signalled
            &&& s.in_applied == 0 && s.pending_input.len() == 0
            &&& s.applied_win is None
            &&& s.accept_retry is None && s.agent_accept_retry is None
            &&& s.last_detach == now
        }),
{
}

/// What is let go takes its connection with it as it stands, with the reason behind
/// everything queued where there is one; with nobody attached there is nothing to let go.
pub proof fn a_farewell_is_the_whole_connection(s: SessionModel, why: Refusal)
    ensures
        s.client is None ==> s.farewell(None) is None && s.farewell(Some(why)) is None,
        s.client is Some ==> {
            &&& s.farewell(None) == Some(s.client->0.line)
            &&& s.farewell(Some(why)) matches Some(line) && one_frame_more(
                s.client->0.line,
                line,
                why.says(),
            )
        },
{
    every_refusal_can_be_sent(why);
}

/// A read of the client's socket reaches the client's buffer and nothing else; a socket that
/// failed costs the client its place, and the session nothing more.
pub proof fn a_read_of_the_client_is_the_clients(s: SessionModel, got: Received<'_>, now: u64)
    ensures
        ({
            let (next, step, left) = s.client_filled(got, now);
            &&& s.client is None ==> next == s && step == Step::Done && left is None
            &&& s.client matches Some(client) ==> match got {
                Received::Failed => {
                    &&& step == Step::Failed
                    &&& left == Some(client.line)
                    &&& next.client is None
                    &&& next == (SessionModel {
                        client: None,
                        last_detach: now,
                        agent: next.agent,
                        ..s
                    })
                },
                _ => {
                    &&& step == client.line.fill_step(got)
                    &&& left is None
                    &&& next.client is Some
                    &&& next.client->0 == (AttachedModel { line: next.client->0.line, ..client })
                    &&& next.client->0.line == client.line.filled(got)
                    &&& next == (SessionModel { client: next.client, ..s })
                },
            }
        }),
{
}

/// A write of the client's queue takes from it what it took and nothing else; and a client
/// that is not finished stays as it is, while one that is leaves with what is still queued.
pub proof fn a_write_of_the_client_is_the_clients(
    s: SessionModel,
    took: Written,
    step: Step,
    now: u64,
)
    ensures
        ({
            let (next, then) = s.client_flushed(took);
            &&& s.client is None ==> next == s && then == Step::Done
            &&& s.client matches Some(client) ==> {
                &&& then == client.line.flush_step(took)
                &&& next.client is Some
                &&& next.client->0.line == client.line.flushed(took)
                &&& next.client->0 == (AttachedModel { line: next.client->0.line, ..client })
                &&& next == (SessionModel { client: next.client, ..s })
            }
        }),
        ({
            let (next, left) = s.client_written(step, now);
            &&& !s.client_finished(step) ==> next == s && left is None
            &&& s.client_finished(step) ==> {
                &&& left == Some(s.client->0.line)
                &&& next.client is None
                &&& next == (SessionModel {
                    client: None,
                    last_detach: now,
                    agent: next.agent,
                    ..s
                })
            }
        }),
{
}

/// A read of a connection that has not greeted reaches its own buffer and nothing else, and
/// one that failed is forgotten.
pub proof fn a_read_of_an_arrival_is_its_own(s: SessionModel, got: Received<'_>)
    ensures
        ({
            let (next, step) = s.pending_filled(got);
            &&& s.pending is None ==> next == s && step == Step::Done
            &&& s.pending matches Some(pending) ==> {
                &&& step == pending.line.fill_step(got)
                &&& next == (SessionModel { pending: next.pending, ..s })
                &&& got is Failed ==> next.pending is None
                &&& !(got is Failed) ==> {
                    &&& next.pending is Some
                    &&& next.pending->0.line == pending.line.filled(got)
                    &&& next.pending->0.deadline == pending.deadline
                }
            }
        }),
{
}

/// A connection is handed back exactly where it leaves: the client's where the terminal could
/// not be read, and the one that greeted where no shell could be started for it.
pub proof fn a_connection_is_handed_back_where_it_leaves(
    s: SessionModel,
    outcome: ReadOutcome,
    attempt: Attempt,
)
    requires
        s.client is Some,
    ensures
        s.left_by_read(outcome) is Some <==> s.started && outcome is Failed,
        s.left_by_read(outcome) matches Some(line) ==> one_frame_more(
            s.client->0.line,
            line,
            Refusal::TerminalReadFailed.says(),
        ),
        s.left_unstarted(attempt) is Some <==> !s.started && !attempt.spawned,
        s.left_unstarted(attempt) matches Some(line) ==> one_frame_more(
            s.client->0.line,
            line,
            Refusal::ShellFailed.says(),
        ),
{
    every_refusal_can_be_sent(Refusal::TerminalReadFailed);
    every_refusal_can_be_sent(Refusal::ShellFailed);
}

/// A session that ends hands its client's connection back with everything queued for it,
/// forgets whoever was waiting, and keeps what was written and typed for nobody to change.
pub proof fn an_ended_session_hands_its_client_back(s: SessionModel, now: u64)
    ensures
        ({
            let (next, left) = s.shut_down(now);
            &&& next.client is None && next.pending is None && !next.started
            &&& s.client is None ==> left is None
            &&& s.client is Some ==> left == Some(s.client->0.line)
            &&& next.ring == s.ring
            &&& next.pending_input == s.pending_input
            &&& next.in_applied == s.in_applied
            &&& next.outcome == s.outcome
            &&& next.stop == s.stop
        }),
{
}

/// The close of an agent connection ends with its queue: it is forgotten once that is written
/// or cannot be, and otherwise goes on with what is left; the client is told nothing, having
/// closed it.
pub proof fn a_closing_agent_connection_goes_with_its_queue(
    s: SessionModel,
    result: Result<usize, Errno>,
    now: u64,
)
    requires
        s.agent is Some,
        s.agent->0.channel is Some,
        s.agent->0.channel->0.closing,
    ensures
        ({
            let next = s.agent_close_finished(result, now);
            let queue = s.agent->0.channel->0.pending;
            let took = match result {
                Ok(n) => if n < queue.len() {
                    n as int
                } else {
                    queue.len() as int
                },
                Err(_) => 0,
            };
            let broken = queue.len() > 0 && match result {
                Ok(n) => n == 0,
                Err(e) => e != Errno::Again && e != Errno::Interrupted,
            };
            &&& next == (SessionModel { agent: next.agent, ..s })
            &&& next.agent is Some
            &&& next.agent->0.next_generation == s.agent->0.next_generation
            &&& broken || took == queue.len() ==> next.agent->0.channel is None
            &&& !broken && took < queue.len() ==> (next.agent->0.channel matches Some(left)
                && left.closing && left.pending == queue.subrange(took, queue.len() as int))
        }),
{
    let queue = s.agent->0.channel->0.pending;
    assert(queue.skip(0) =~= queue.subrange(0, queue.len() as int));
    if let Ok(n) = result {
        if n <= queue.len() {
            assert(queue.skip(n as int) =~= queue.subrange(n as int, queue.len() as int));
        }
    }
}

/// A client is listened to while there is one and it has not closed its half.
pub proof fn a_client_is_listened_to_until_it_closes_its_half(s: SessionModel)
    ensures
        s.client is None ==> !s.hears_more(),
        s.client is Some ==> (s.hears_more() <==> !s.client->0.line.ended),
{
}

} // verus!
