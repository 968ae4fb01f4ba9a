//! What holds of a session whatever its clients, its child and its clock do.
use vstd::prelude::*;

use crate::agent::later;
use crate::conn::{
    all_encodable, bytes_of, contiguous, first_frame, lemma_bytes_concat, lemma_output_taken,
    output_chunks, output_data, output_is_cut_without_loss, output_taken, MAX_PENDING_WRITE,
};
use crate::greet::{AdmissionModel, Attempt};
use crate::line::LineModel;
use crate::poll::{Ready, Task};
use crate::refusal::{every_refusal_can_be_sent, Refusal};
use crate::rev11::{decoded, FrameModel, HelloModel};
use crate::ring::a_ring_serves_its_stream;
use crate::serve::{lemma_served_keeps_the_buffer, EffectModel};
use crate::session::{
    AttachedModel, SessionModel, Source, StopReason, FIRST_ATTACH_TIMEOUT, IDLE_TICK, IDLE_TIMEOUT,
    MAX_PENDING_INPUT, OUTCOME_GRACE,
};
use crate::wire::{MAX_PAYLOAD, RESUME_FROM_START};

verus! {

// ---------------------------------------------------------------------------
// Input
// ---------------------------------------------------------------------------

/// Input is applied exactly once. Where a client types `stream` and has had a prefix of it
/// applied, a frame that carries any stretch of it — new, replayed or overlapping — hands
/// the terminal exactly the bytes behind that prefix, none of them twice and none of them
/// skipped, and the offset the session answers with counts them.
pub proof fn input_is_applied_exactly_once(
    s: SessionModel,
    stream: Seq<u8>,
    offset: u64,
    data: Seq<u8>,
    now: u64,
)
    requires
        s.in_applied <= stream.len() <= u64::MAX,
        offset + data.len() <= stream.len(),
        data == stream.subrange(offset as int, offset + data.len()),
        offset <= s.in_applied,
        s.terminal_closed_at is None,
    ensures
        ({
            let (next, effect) = s.served(FrameModel::Input { offset, data }, now);
            &&& effect == EffectModel::Nothing
            &&& next.in_applied == if s.in_applied < offset + data.len() {
                offset + data.len()
            } else {
                s.in_applied as int
            }
            &&& next.pending_input == s.pending_input + stream.subrange(
                s.in_applied as int,
                next.in_applied as int,
            )
        }),
{
    let next = s.took_input(offset, data);
    assert(next.pending_input =~= s.pending_input + stream.subrange(
        s.in_applied as int,
        next.in_applied as int,
    ));
}

/// Input the session has already applied changes nothing but the acknowledgement that is
/// queued for it, however often it is sent again.
pub proof fn a_replay_only_renews_the_acknowledgement(
    s: SessionModel,
    offset: u64,
    data: Seq<u8>,
    now: u64,
)
    requires
        offset + data.len() <= s.in_applied,
    ensures
        s.served(FrameModel::Input { offset, data }, now) == (
            s.told(FrameModel::InputAck { applied_through: s.in_applied }),
            EffectModel::Nothing,
        ),
{
}

/// Input that skips ahead is never applied: the client is told so and let go, and what was
/// applied before stands.
pub proof fn skipped_input_is_never_applied(
    s: SessionModel,
    offset: u64,
    data: Seq<u8>,
    now: u64,
)
    requires
        s.client is Some,
        offset > s.in_applied,
    ensures
        ({
            let (next, effect) = s.served(FrameModel::Input { offset, data }, now);
            &&& next == s.departed(now)
            &&& next.in_applied == s.in_applied
            &&& next.pending_input == s.pending_input
            &&& effect == EffectModel::Gone(s.client->0.line.said(Refusal::InputGap.says()))
        }),
{
}

/// However much a client sends, what is queued for a terminal that takes none of it stays
/// within the cap and one frame more.
pub proof fn the_input_queue_is_bounded(s: SessionModel, now: u64)
    requires
        s.pending_input.len() <= MAX_PENDING_INPUT + MAX_PAYLOAD,
    ensures
        s.heard(now).0.pending_input.len() <= MAX_PENDING_INPUT + MAX_PAYLOAD,
    decreases s.undecoded(),
{
    if s.client is Some && !s.saturated() {
        let incoming = s.client->0.line.incoming;
        if let Ok(Some((ty, payload, rest))) = first_frame(incoming) {
            if let Ok(frame) = decoded(ty, payload) {
                let at = s.left_with(rest);
                lemma_served_keeps_the_buffer(at, frame, now);
                lemma_input_fits_its_payload(ty, payload);
                assert(payload.len() <= MAX_PAYLOAD);
                let (next, effect) = at.served(frame, now);
                if effect is Nothing && next.undecoded() < s.undecoded() {
                    the_input_queue_is_bounded(next, now);
                }
            }
        }
    }
}

/// A frame carries less input than its payload holds.
proof fn lemma_input_fits_its_payload(ty: crate::header::FrameType, payload: Seq<u8>)
    ensures
        decoded(ty, payload) matches Ok(FrameModel::Input { data, .. }) ==> data.len()
            <= payload.len(),
{
}

/// A whole frame is the same whole frame with more behind it.
proof fn lemma_more_behind_a_frame(q: Seq<u8>, more: Seq<u8>)
    ensures
        first_frame(q) matches Ok(Some((ty, payload, rest))) ==> first_frame(q + more) == Ok::<
            Option<(crate::header::FrameType, Seq<u8>, Seq<u8>)>,
            crate::wire::ProtoError,
        >(Some((ty, payload, rest + more))),
{
    if q.len() >= 4 {
        assert((q + more).subrange(0, 4) =~= q.subrange(0, 4));
        if let Ok(Some((ty, payload, rest))) = first_frame(q) {
            let end = 4 + payload.len() as int;
            assert((q + more).subrange(4, end) =~= q.subrange(4, end));
            assert((q + more).subrange(end, (q + more).len() as int) =~= rest + more);
        }
    }
}

/// What a frame does has nothing to do with what is behind it in the buffer.
proof fn lemma_served_beside_the_buffer(s: SessionModel, frame: FrameModel, x: Seq<u8>, now: u64)
    requires
        s.client is Some,
        s.served(frame, now).1 is Nothing,
    ensures
        s.left_with(x).served(frame, now) == (
            s.served(frame, now).0.left_with(x),
            EffectModel::Nothing,
        ),
{
    assert(s.left_with(x).served(frame, now).0 =~= s.served(frame, now).0.left_with(x));
}

/// How a client's bytes were cut into reads does not matter: frames served as they arrive
/// leave the session as it would be had everything arrived at once.
pub proof fn reads_may_be_cut_anywhere(s: SessionModel, more: Seq<u8>, now: u64)
    requires
        s.client is Some,
        s.heard(now).1 is Idle,
    ensures
        ({
            let paused = s.heard(now).0;
            &&& paused.client is Some
            &&& paused.left_with(paused.client->0.line.incoming + more).heard(now) == s.left_with(
                s.client->0.line.incoming + more,
            ).heard(now)
        }),
    decreases s.undecoded(),
{
    let incoming = s.client->0.line.incoming;
    if let Ok(Some((ty, payload, rest))) = first_frame(incoming) {
        if let Ok(frame) = decoded(ty, payload) {
            let at = s.left_with(rest);
            lemma_served_keeps_the_buffer(at, frame, now);
            let (next, effect) = at.served(frame, now);
            reads_may_be_cut_anywhere(next, more, now);
            lemma_more_behind_a_frame(incoming, more);
            lemma_served_beside_the_buffer(at, frame, rest + more, now);
            let longer = s.left_with(incoming + more);
            assert(longer.left_with(rest + more) =~= at.left_with(rest + more));
        }
    }
}

// ---------------------------------------------------------------------------
// Output
// ---------------------------------------------------------------------------

/// Two rows of frames that can be encoded are one.
pub(crate) proof fn lemma_encodable_join(a: Seq<FrameModel>, b: Seq<FrameModel>)
    requires
        all_encodable(a),
        all_encodable(b),
    ensures
        all_encodable(a + b),
{
    assert forall|i: int| 0 <= i < (a + b).len() implies (#[trigger] (a + b)[i]).refusal() is None
        && (a + b)[i].is_text() by {
        if i < a.len() {
            assert((a + b)[i] == a[i]);
        } else {
            assert((a + b)[i] == b[i - a.len()]);
        }
    }
}

/// Two stretches of output frames, the second beginning where the first ends, are one.
proof fn lemma_stretches_join(a: Seq<FrameModel>, b: Seq<FrameModel>, offset: int)
    requires
        all_encodable(a),
        all_encodable(b),
        contiguous(a, offset),
        contiguous(b, offset + output_data(a).len()),
    ensures
        all_encodable(a + b),
        contiguous(a + b, offset),
        output_data(a + b) == output_data(a) + output_data(b),
    decreases a.len(),
{
    lemma_encodable_join(a, b);
    if a.len() == 0 {
        assert(a + b =~= b);
        assert(output_data(a) + output_data(b) =~= output_data(b));
    } else {
        let rest = a.drop_first();
        assert(all_encodable(rest)) by {
            assert forall|i: int| 0 <= i < rest.len() implies (#[trigger] rest[i]).refusal() is None
                && rest[i].is_text() by {
                assert(rest[i] == a[i + 1]);
            }
        }
        let first = a[0]->Output_data;
        assert(output_data(a) == first + output_data(rest));
        lemma_stretches_join(rest, b, offset + first.len());
        assert((a + b).drop_first() =~= rest + b);
        assert((a + b)[0] == a[0]);
        assert(output_data(a + b) =~= output_data(a) + output_data(b));
    }
}

/// The frames one part of the ring is queued as.
spec fn part_frames(client: AttachedModel, part: Seq<u8>) -> Seq<FrameModel> {
    output_chunks(
        client.sent_through as int,
        part.take(output_taken(client.line.in_step().outgoing.len(), part.len()) as int),
    )
}

/// One part of the ring goes out as frames that carry its beginning.
proof fn lemma_part(client: AttachedModel, part: Seq<u8>)
    requires
        part.len() > 0,
        client.sent_through + part.len() <= u64::MAX,
    ensures
        ({
            let frames = part_frames(client, part);
            let next = client.sent_part(part);
            let n = next.sent_through - client.sent_through;
            &&& 0 <= n <= part.len()
            &&& all_encodable(frames)
            &&& contiguous(frames, client.sent_through as int)
            &&& output_data(frames) == part.take(n)
            &&& next.line == client.line.said_all(frames)
        }),
{
    lemma_output_taken(client.line.in_step().outgoing.len(), part.len());
    let n = output_taken(client.line.in_step().outgoing.len(), part.len()) as int;
    output_is_cut_without_loss(client.sent_through as int, part.take(n));
}

/// The row of frames `outs` is what the client is sent of `stream` between two offsets: it
/// can all be encoded, it begins at the first, has no hole, and carries the stream's bytes.
pub open spec fn carries(outs: Seq<FrameModel>, stream: Seq<u8>, from: int, to: int) -> bool {
    &&& all_encodable(outs)
    &&& contiguous(outs, from)
    &&& output_data(outs) == stream.subrange(from, to)
}

/// Frames queued in two goes are queued as if in one.
proof fn lemma_said_twice(line: LineModel, outs: Seq<FrameModel>, more: Seq<FrameModel>)
    ensures
        line.said_all(outs).said_all(more) == line.said_all(outs + more),
{
    lemma_bytes_concat(outs, more);
    assert(line.in_step().outgoing + bytes_of(outs) + bytes_of(more) =~= line.in_step().outgoing
        + bytes_of(outs + more));
}

/// One part goes out as frames that carry the stream.
proof fn lemma_part_carries(client: AttachedModel, part: Seq<u8>, stream: Seq<u8>)
    requires
        part.len() > 0,
        stream.len() <= u64::MAX,
        client.sent_through + part.len() <= stream.len(),
        part == stream.subrange(client.sent_through as int, client.sent_through + part.len()),
    ensures
        ({
            let next = client.sent_part(part);
            &&& client.sent_through <= next.sent_through <= client.sent_through + part.len()
            &&& carries(
                part_frames(client, part),
                stream,
                client.sent_through as int,
                next.sent_through as int,
            )
            &&& next.line == client.line.said_all(part_frames(client, part))
        }),
{
    lemma_part(client, part);
    let from = client.sent_through as int;
    let to = client.sent_part(part).sent_through as int;
    assert(part.take(to - from) =~= stream.subrange(from, to));
}

/// Two rows that carry neighbouring stretches of the stream carry both together.
proof fn lemma_carries_join(
    outs: Seq<FrameModel>,
    more: Seq<FrameModel>,
    stream: Seq<u8>,
    from: int,
    mid: int,
    to: int,
)
    requires
        0 <= from <= mid <= to <= stream.len(),
        carries(outs, stream, from, mid),
        carries(more, stream, mid, to),
    ensures
        carries(outs + more, stream, from, to),
{
    assert(output_data(outs).len() == mid - from);
    lemma_stretches_join(outs, more, from);
    assert(stream.subrange(from, mid) + stream.subrange(mid, to) =~= stream.subrange(from, to));
}

/// Two parts go out as frames that carry the stream.
proof fn lemma_parts(on: AttachedModel, front: Seq<u8>, back: Seq<u8>, stream: Seq<u8>)
    requires
        on.sent_through < stream.len() <= u64::MAX,
        front + back == stream.skip(on.sent_through as int),
    ensures
        ({
            let next = on.sent_parts(front, back);
            &&& on.sent_through <= next.sent_through <= stream.len()
            &&& exists|outs: Seq<FrameModel>|
                {
                    &&& #[trigger] carries(
                        outs,
                        stream,
                        on.sent_through as int,
                        next.sent_through as int,
                    )
                    &&& next.line == on.line.said_all(outs)
                }
        }),
{
    let from = on.sent_through as int;
    let whole = stream.skip(from);
    assert((front + back).len() == whole.len());
    assert(front =~= stream.subrange(from, from + front.len())) by {
        assert(front =~= (front + back).take(front.len() as int));
    }
    assert(back =~= stream.subrange(from + front.len(), stream.len() as int)) by {
        assert(back =~= (front + back).skip(front.len() as int));
    }
    let next = on.sent_parts(front, back);
    if front.len() == 0 {
        lemma_part_carries(on, back, stream);
        assert(carries(part_frames(on, back), stream, from, next.sent_through as int));
    } else {
        lemma_part_carries(on, front, stream);
        let once = on.sent_part(front);
        let outs = part_frames(on, front);
        if once.sent_through == from + front.len() && back.len() > 0 {
            lemma_part_carries(once, back, stream);
            let more = part_frames(once, back);
            lemma_carries_join(
                outs,
                more,
                stream,
                from,
                once.sent_through as int,
                next.sent_through as int,
            );
            lemma_said_twice(on.line, outs, more);
            assert(carries(outs + more, stream, from, next.sent_through as int));
        } else {
            assert(carries(outs, stream, from, next.sent_through as int));
        }
    }
}

/// What a pass queues is the stream: where a client is owed output and its queue has room,
/// it is sent frames that carry, without a hole and byte for byte, what the terminal wrote
/// from where the client was — or, past what the ring has dropped, from the oldest byte
/// retained, behind a gap that says so — as far as the client's offset then moves.
pub proof fn what_is_sent_is_the_stream(s: SessionModel, stream: Seq<u8>, cut: nat)
    requires
        s.wf(),
        s.ring.is_window_over(stream),
        s.client is Some,
        s.client->0.line.outgoing.len() < MAX_PENDING_WRITE,
        s.client->0.sent_through < s.ring.past(),
        s.may_cut(cut),
    ensures
        ({
            let before = s.client->0.past_gap(s.ring.first);
            let next = s.fed(cut).client->0;
            &&& s.fed(cut).client is Some
            &&& before.sent_through <= next.sent_through <= stream.len()
            &&& exists|outs: Seq<FrameModel>|
                {
                    &&& #[trigger] carries(
                        outs,
                        stream,
                        before.sent_through as int,
                        next.sent_through as int,
                    )
                    &&& next.line == before.line.said_all(outs)
                }
        }),
{
    let on = s.client->0.past_gap(s.ring.first);
    let owed = s.ring.since(on.sent_through as nat);
    a_ring_serves_its_stream(s.ring, stream, on.sent_through as nat);
    let front = owed.take(cut as int);
    let back = owed.skip(cut as int);
    assert(front + back =~= owed);
    lemma_parts(on, front, back, stream);
}

/// A client that was behind the ring is told so before it is sent anything else, and one
/// that was not is told nothing: the stream never skips in silence.
pub proof fn a_skip_is_always_announced(client: AttachedModel, base: u64)
    ensures
        ({
            let next = client.past_gap(base as nat);
            &&& next.sent_through > client.sent_through <==> client.sent_through < base
            &&& client.sent_through < base ==> {
                &&& next.line == client.line.said(FrameModel::Gap { new_base_offset: base })
                &&& next.sent_through == base
                &&& next.repaint_due
            }
            &&& client.sent_through >= base ==> next == client
        }),
{
}

/// The end of the transcript is told to a connection at most once, and only behind
/// everything the terminal ever wrote that the ring still held for it.
pub proof fn the_end_comes_last_and_once(s: SessionModel, now: u64, again: u64)
    ensures
        s.concluded(now) != s ==> {
            &&& s.caught_up()
            &&& s.terminal_closed_at is Some
            &&& s.outcome is Some
            &&& s.concluded(now).client->0.terminal_end_sent
        },
        s.concluded(now).concluded(again) == s.concluded(now),
        s.client is Some && s.client->0.terminal_end_sent ==> s.concluded(now) == s,
{
}

/// A repaint is asked for once for every stretch of gaps, and only once the client holds
/// the whole ring.
pub proof fn a_repaint_waits_for_the_whole_ring(s: SessionModel)
    ensures
        s.repainted() != s ==> s.caught_up() && s.client->0.repaint_due
            && !s.repainted().client->0.repaint_due,
        s.repainted().repainted() == s.repainted(),
        s.repainted().in_applied == s.in_applied,
        s.repainted().pending_input.len() <= s.pending_input.len() + 1,
        s.saturated() ==> s.repainted().pending_input == s.pending_input,
{
    let once = s.repainted();
    if s.repaints() {
        assert(!once.repaints() || once == s);
    }
}

// ---------------------------------------------------------------------------
// Arrivals and departures
// ---------------------------------------------------------------------------

/// Whatever a connection that has not greeted says, and however it says it, the client that
/// holds the session, its output, its input and the terminal stay exactly as they were.
pub proof fn a_stranger_costs_the_client_nothing(s: SessionModel)
    ensures
        s.opened().0 == (SessionModel { pending: s.opened().0.pending, ..s }),
        s.opened().1 is Refused ==> s.opened().0.pending is None,
{
}

/// A conditional greeting that finds somebody attached is refused, and nothing of the
/// session changes but the slot it waited in.
pub proof fn a_conditional_greeting_never_evicts(s: SessionModel, hello: HelloModel, now: u64)
    requires
        hello.if_detached,
        s.client is Some,
    ensures
        s.admitted(hello, now).0 == (SessionModel { pending: None, ..s }),
        s.admitted(hello, now).1 is Refused,
{
}

/// A takeover keeps the session: what was applied, what is queued for the terminal and what
/// the terminal wrote are the new client's to resume, and the old one is sent everything
/// that was already queued for it, with the reason behind that.
pub proof fn a_takeover_keeps_the_session(
    s: SessionModel,
    hello: HelloModel,
    attempt: Attempt,
    now: u64,
)
    requires
        s.client is Some,
        s.client->0.line.synced,
        s.pending is Some,
        s.started,
        !hello.if_detached,
    ensures
        ({
            let (handed, admission) = s.admitted(hello, now);
            let settled = handed.greeted(hello, attempt, now);
            &&& settled.in_applied == s.in_applied
            &&& settled.pending_input == s.pending_input
            &&& settled.ring == s.ring
            &&& settled.client is Some
            &&& settled.client->0.line == s.pending->0.line.said(
                FrameModel::HelloOk(handed.welcome(hello)),
            )
            &&& admission matches AdmissionModel::Admitted(Some(line)) && line.outgoing
                == s.client->0.line.outgoing + Refusal::TakenOver.says().bytes()
        }),
{
    every_refusal_can_be_sent(Refusal::TakenOver);
}

/// A client resumes inside what the ring holds: exactly where it asked to where the ring
/// still holds that, and otherwise at the nearer end. It is owed a repaint exactly when
/// output it had asked for was dropped.
pub proof fn a_client_resumes_where_it_can(s: SessionModel, hello: HelloModel)
    requires
        s.wf(),
        s.client is Some,
        s.ring.past() < RESUME_FROM_START,
    ensures
        ({
            let next = s.welcomed(hello).client->0;
            &&& s.ring.first <= next.sent_through <= s.ring.past()
            &&& s.ring.first <= hello.out_offset <= s.ring.past() ==> next.sent_through
                == hello.out_offset
            &&& hello.out_offset == RESUME_FROM_START ==> next.sent_through == s.ring.first
            &&& next.repaint_due == (hello.out_offset < s.ring.first)
            &&& s.welcome(hello).in_applied == s.in_applied
        }),
{
}

/// A departure is the client's alone: what the terminal wrote, what was typed and how the
/// child ended all stay for the next one.
pub proof fn a_departure_costs_the_session_nothing(s: SessionModel, now: u64)
    ensures
        ({
            let next = s.dropped(now);
            &&& next.client is None
            &&& next.ring == s.ring
            &&& next.in_applied == s.in_applied
            &&& next.pending_input == s.pending_input
            &&& next.outcome == s.outcome
            &&& next.terminal_closed_at == s.terminal_closed_at
            &&& next.stop == s.stop
            &&& next.started == s.started
            &&& next.pending == s.pending
        }),
{
}

// ---------------------------------------------------------------------------
// Clocks
// ---------------------------------------------------------------------------

/// A session somebody is attached to is never reaped, and one nobody is attached to is
/// reaped exactly when its time is up: thirty seconds where nobody ever came, a week where
/// somebody did.
pub proof fn only_a_clientless_session_is_reaped(s: SessionModel, now: u64)
    requires
        s.stop is None,
    ensures
        s.client is Some ==> s.ends(now) is None,
        s.client is None && s.started ==> (s.ends(now) == Some(StopReason::Idle) <==> now >= later(
            s.last_detach,
            IDLE_TIMEOUT,
        )),
        s.client is None && !s.started ==> (s.ends(now) == Some(StopReason::NeverAttached) <==> now
            >= later(s.last_detach, FIRST_ATTACH_TIMEOUT)),
{
}

/// Every deadline has its wakeup: the loop never sleeps past the next thing that falls due,
/// and never longer than its tick.
pub proof fn every_deadline_has_its_wakeup(s: SessionModel, now: u64)
    ensures
        s.sleeps(now) <= IDLE_TICK,
        s.reaped_at() matches Some(at) ==> now + s.sleeps(now) <= at || s.sleeps(now) == 0,
        s.accept_retry matches Some(at) ==> now + s.sleeps(now) <= at || s.sleeps(now) == 0,
        s.agent_accept_retry matches Some(at) ==> now + s.sleeps(now) <= at || s.sleeps(now) == 0,
        s.pending matches Some(pending) ==> now + s.sleeps(now) <= pending.deadline || s.sleeps(now)
            == 0,
        s.agent is Some && s.agent->0.channel is Some ==> now + s.sleeps(now)
            <= s.agent->0.channel->0.idle_deadline || s.sleeps(now) == 0,
        s.terminal_closed_at is Some && s.outcome is None ==> now + s.sleeps(now) <= later(
            s.terminal_closed_at->0,
            OUTCOME_GRACE,
        ) || s.sleeps(now) == 0,
{
}

/// What is expired is not waited for again: no deadline that took a listener or a slot out
/// of the set is left behind the clock.
pub proof fn nothing_expired_is_left(s: SessionModel, now: u64)
    ensures
        ({
            let next = s.expired(now);
            &&& next.accept_retry matches Some(at) ==> now < at
            &&& next.agent_accept_retry matches Some(at) ==> now < at
            &&& next.pending matches Some(pending) ==> now < pending.deadline
            &&& next.agent is Some && next.agent->0.channel is Some ==> now
                < next.agent->0.channel->0.idle_deadline
        }),
{
}

// ---------------------------------------------------------------------------
// A pass
// ---------------------------------------------------------------------------

/// Once the session is ending, nothing new is taken in: no connection is accepted, no
/// greeting is settled and no agent connection is opened.
pub proof fn an_ending_session_takes_nobody_in(s: SessionModel, ready: Ready, from: nat)
    requires
        s.stop is Some,
    ensures
        s.next(from, ready) matches Some((task, _)) ==> task != Task::ReadPending && task
            != Task::Accept && task != Task::AcceptAgent,
    decreases 13 - from,
{
    if from < 13 {
        an_ending_session_takes_nobody_in(s, ready, from + 1);
    }
}

/// A pass does things in the order they are listed, each at most once, and in that order
/// the client is heard before a greeting is settled, and the outcome is collected before
/// the pump that reports it.
pub proof fn a_pass_keeps_its_order(s: SessionModel, ready: Ready, from: nat)
    ensures
        s.next(from, ready) matches Some((task, behind)) ==> {
            &&& from < behind <= 13
            &&& task == Task::ALL@[behind - 1]
            &&& s.wants(task, ready)
            &&& forall|i: int|
                from <= i < behind - 1 ==> !s.wants(#[trigger] Task::ALL@[i], ready)
        },
        Task::ALL@[1] == Task::ReadClient,
        Task::ALL@[3] == Task::ReadPending,
        Task::ALL@[10] == Task::CollectOutcome,
        Task::ALL@[11] == Task::PumpOutput,
    decreases 13 - from,
{
    if from < 13 && !s.wants(Task::ALL@[from as int], ready) {
        a_pass_keeps_its_order(s, ready, from + 1);
    }
}

/// A listener whose slot is taken, or whose last `accept` failed, is out of the poll set;
/// so is a terminal that has closed. Readable for ever, each of them would otherwise wake a
/// loop that has nothing to do.
pub proof fn nothing_spins_the_loop(s: SessionModel)
    ensures
        s.pending is Some ==> s.interest(Source::Listener) is None,
        s.accept_retry is Some ==> s.interest(Source::Listener) is None,
        s.agent_accept_retry is Some ==> s.interest(Source::AgentListener) is None,
        s.agent is Some && s.agent->0.channel is Some ==> s.interest(Source::AgentListener) is None,
        s.terminal_closed_at is Some ==> s.interest(Source::Pty) is None,
        s.client is Some && s.client->0.line.ended ==> !s.interest(Source::Client)->0.read,
{
}

} // verus!
