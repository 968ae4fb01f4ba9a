//! What a connection lives through, told whole: however the terminal writes, the pump runs
//! and the socket drains, the frames a client is sent replay the stream.
use vstd::prelude::*;

use crate::conduct::the_ring_keeps_what_the_terminal_wrote;
use crate::conn::{
    a_stream_of_frames_reassembles, all_encodable, bytes_of, frames_in, lemma_bytes_concat,
    output_data, Written, MAX_PENDING_WRITE,
};
use crate::laws::{carries, lemma_encodable_join, what_is_sent_is_the_stream};
use crate::line::wire_of;
use crate::nbio::ReadOutcome;
use crate::rev11::FrameModel;
use crate::session::{no_answer_is_dropped, AttachedModel, SessionModel};
use crate::terminal::seconds_since;

verus! {

// ---------------------------------------------------------------------------
// Output
// ---------------------------------------------------------------------------

/// Where a client that stood at `at` in `stream` stands after `frames`, or nothing where one
/// of them does not follow: output begins where the client is and says what the stream says
/// there, a gap only ever moves it forward, and no other frame moves it at all.
pub open spec fn follows(frames: Seq<FrameModel>, at: int, stream: Seq<u8>) -> Option<int>
    decreases frames.len(),
{
    if frames.len() == 0 {
        Some(at)
    } else {
        let rest = frames.drop_first();
        match frames[0] {
            FrameModel::Output { offset, data } => if offset == at && at + data.len()
                <= stream.len() && data == stream.subrange(at, at + data.len()) {
                follows(rest, at + data.len(), stream)
            } else {
                None
            },
            FrameModel::Gap { new_base_offset } => if at < new_base_offset <= stream.len() {
                follows(rest, new_base_offset as int, stream)
            } else {
                None
            },
            _ => follows(rest, at, stream),
        }
    }
}

/// Something a connection lives through.
pub enum Moment {
    /// The terminal wrote: a read of it put this many bytes at the front of the buffer, and
    /// whatever the buffer held before is behind them.
    Wrote { n: usize, buf: Seq<u8>, now: u64 },
    /// The pump ran, over a ring held in two parts, the first `cut` bytes long.
    Pumped { cut: nat, now: u64 },
    /// The client was told something that is neither output nor a gap.
    Told(FrameModel),
    /// The socket took some of the queue.
    Took(usize),
}

/// The end of the transcript, where a pass is to tell it.
pub open spec fn exit_frames(s: SessionModel, now: u64) -> Seq<FrameModel> {
    match (s.client, s.terminal_closed_at, s.outcome) {
        (Some(client), Some(closed_at), Some((status, kind))) => if !client.terminal_end_sent
            && s.caught_up() {
            seq![
                FrameModel::Exit {
                    status,
                    kind,
                    since_terminal_closed_secs: seconds_since(closed_at, now),
                },
            ]
        } else {
            Seq::empty()
        },
        _ => Seq::empty(),
    }
}

/// The report of what was lost, where a pass is to make it.
pub open spec fn gap_frames(client: AttachedModel, base: nat) -> Seq<FrameModel> {
    if client.sent_through < base {
        seq![FrameModel::Gap { new_base_offset: base as u64 }]
    } else {
        Seq::empty()
    }
}

/// Following two rows one behind the other.
pub(crate) proof fn lemma_follows_join(
    a: Seq<FrameModel>,
    b: Seq<FrameModel>,
    at: int,
    stream: Seq<u8>,
)
    requires
        follows(a, at, stream) is Some,
    ensures
        follows(a + b, at, stream) == follows(b, follows(a, at, stream)->0, stream),
    decreases a.len(),
{
    if a.len() == 0 {
        assert(a + b =~= b);
    } else {
        assert((a + b).drop_first() =~= a.drop_first() + b);
        assert((a + b)[0] == a[0]);
        match a[0] {
            FrameModel::Output { data, .. } => {
                lemma_follows_join(a.drop_first(), b, at + data.len(), stream);
            },
            FrameModel::Gap { new_base_offset } => {
                lemma_follows_join(a.drop_first(), b, new_base_offset as int, stream);
            },
            _ => {
                lemma_follows_join(a.drop_first(), b, at, stream);
            },
        }
    }
}

/// What follows a stream follows everything it grows into.
pub(crate) proof fn lemma_follows_longer(
    frames: Seq<FrameModel>,
    at: int,
    stream: Seq<u8>,
    more: Seq<u8>,
)
    requires
        0 <= at <= stream.len(),
        follows(frames, at, stream) is Some,
    ensures
        follows(frames, at, stream + more) == follows(frames, at, stream),
    decreases frames.len(),
{
    if frames.len() > 0 {
        match frames[0] {
            FrameModel::Output { data, .. } => {
                assert((stream + more).subrange(at, at + data.len()) =~= stream.subrange(
                    at,
                    at + data.len(),
                ));
                lemma_follows_longer(frames.drop_first(), at + data.len(), stream, more);
            },
            FrameModel::Gap { new_base_offset } => {
                lemma_follows_longer(frames.drop_first(), new_base_offset as int, stream, more);
            },
            _ => {
                lemma_follows_longer(frames.drop_first(), at, stream, more);
            },
        }
    }
}

/// Output frames without a hole that carry a stretch of the stream follow it.
pub(crate) proof fn lemma_carried_follows(outs: Seq<FrameModel>, stream: Seq<u8>, from: int, to: int)
    requires
        0 <= from <= to <= stream.len(),
        carries(outs, stream, from, to),
    ensures
        follows(outs, from, stream) == Some(to),
    decreases outs.len(),
{
    if outs.len() > 0 {
        let data = outs[0]->Output_data;
        let rest = outs.drop_first();
        let whole = output_data(outs);
        assert(whole == data + output_data(rest));
        assert(whole.len() == to - from);
        let mid = from + data.len();
        assert(data =~= stream.subrange(from, mid)) by {
            assert(data =~= whole.take(data.len() as int));
        }
        assert(output_data(rest) =~= stream.subrange(mid, to)) by {
            assert(output_data(rest) =~= whole.skip(data.len() as int));
        }
        assert(all_encodable(rest)) by {
            assert forall|i: int| 0 <= i < rest.len() implies (#[trigger] rest[i]).refusal() is None
                && rest[i].is_text() by {
                assert(rest[i] == outs[i + 1]);
            }
        }
        lemma_carried_follows(rest, stream, mid, to);
    } else {
        assert(output_data(outs) =~= Seq::empty());
        assert(stream.subrange(from, to).len() == to - from);
    }
}

/// After one moment.
pub open spec fn lived(s: SessionModel, moment: Moment) -> SessionModel {
    match moment {
        Moment::Wrote { n, buf, now } => s.terminal_read(ReadOutcome::Data(n), buf, now),
        Moment::Pumped { cut, now } => s.pumped(cut, now),
        Moment::Told(frame) => s.told(frame),
        Moment::Took(n) => match s.client {
            Some(client) => SessionModel {
                client: Some(
                    AttachedModel {
                        line: client.line.flushed(Written::Took(n)),
                        ..client
                    },
                ),
                ..s
            },
            None => s,
        },
    }
}

/// Whether a moment can come about: only a terminal that was started writes, offsets do not
/// run out, the ring is cut inside what it
/// holds, what is told is a frame that is neither output nor a gap, and the socket takes no
/// more than there is.
pub open spec fn possible(s: SessionModel, moment: Moment) -> bool {
    match moment {
        Moment::Wrote { n, buf, .. } => s.started && n <= buf.len() && s.ring.past() + n
            <= u64::MAX,
        Moment::Pumped { cut, .. } => s.may_cut(cut),
        Moment::Told(frame) => !(frame is Output) && !(frame is Gap) && frame.is_text(),
        Moment::Took(n) => s.client is Some && n <= s.client->0.line.outgoing.len(),
    }
}

/// After several moments, the first of them first.
pub open spec fn lived_all(s: SessionModel, moments: Seq<Moment>) -> SessionModel
    decreases moments.len(),
{
    if moments.len() == 0 {
        s
    } else {
        lived_all(lived(s, moments[0]), moments.drop_first())
    }
}

/// Whether several moments can come about in a row.
pub open spec fn possible_all(s: SessionModel, moments: Seq<Moment>) -> bool
    decreases moments.len(),
{
    moments.len() > 0 ==> {
        &&& possible(s, moments[0])
        &&& possible_all(lived(s, moments[0]), moments.drop_first())
    }
}

/// What the terminal wrote in one moment.
pub open spec fn wrote(moment: Moment) -> Seq<u8> {
    match moment {
        Moment::Wrote { n, buf, .. } => buf.subrange(0, n as int),
        _ => Seq::empty(),
    }
}

/// What the terminal wrote in several.
pub open spec fn wrote_all(moments: Seq<Moment>) -> Seq<u8>
    decreases moments.len(),
{
    if moments.len() == 0 {
        Seq::empty()
    } else {
        wrote(moments[0]) + wrote_all(moments.drop_first())
    }
}

/// What the socket took in one moment.
pub open spec fn taken(s: SessionModel, moment: Moment) -> Seq<u8> {
    match moment {
        Moment::Took(n) => s.client->0.line.outgoing.take(n as int),
        _ => Seq::empty(),
    }
}

/// What the socket took in several.
pub open spec fn taken_all(s: SessionModel, moments: Seq<Moment>) -> Seq<u8>
    decreases moments.len(),
{
    if moments.len() == 0 {
        Seq::empty()
    } else {
        taken(s, moments[0]) + taken_all(lived(s, moments[0]), moments.drop_first())
    }
}

/// A session with a client that has been greeted, over a ring that is the window over what
/// the terminal wrote.
pub open spec fn serving(s: SessionModel, stream: Seq<u8>) -> bool {
    &&& s.wf()
    &&& s.client is Some
    &&& s.client->0.line.synced
    &&& s.ring.is_window_over(stream)
}

/// `frames` are what the client is sent on its way from `before` to `after`, `took` of it
/// over the socket: they replay `stream`, and nothing else is queued.
pub open spec fn sent(
    before: AttachedModel,
    after: AttachedModel,
    took: Seq<u8>,
    frames: Seq<FrameModel>,
    stream: Seq<u8>,
) -> bool {
    &&& follows(frames, before.sent_through as int, stream) == Some(after.sent_through as int)
    &&& took + after.line.outgoing == before.line.outgoing + bytes_of(frames)
    &&& all_encodable(frames)
}

/// The bytes of one frame.
proof fn lemma_one(frame: FrameModel)
    ensures
        bytes_of(seq![frame]) == frame.bytes(),
{
    reveal_with_fuel(bytes_of, 2);
    assert(seq![frame].drop_last() =~= Seq::empty());
    assert(Seq::<u8>::empty() + frame.bytes() =~= frame.bytes());
}

/// A frame that moves nobody is followed where it is.
proof fn lemma_one_follows(frame: FrameModel, at: int, stream: Seq<u8>)
    requires
        !(frame is Output) && !(frame is Gap),
    ensures
        follows(seq![frame], at, stream) == Some(at),
{
    reveal_with_fuel(follows, 2);
    assert(seq![frame].drop_first() =~= Seq::empty());
}

/// A gap is followed to where it says.
proof fn lemma_gap_follows(base: u64, at: int, stream: Seq<u8>)
    requires
        at < base <= stream.len(),
    ensures
        follows(seq![FrameModel::Gap { new_base_offset: base }], at, stream) == Some(base as int),
{
    let gap = FrameModel::Gap { new_base_offset: base };
    reveal_with_fuel(follows, 2);
    assert(seq![gap].drop_first() =~= Seq::empty());
}

/// What a pass feeds replays the stream.
proof fn lemma_fed(s: SessionModel, stream: Seq<u8>, cut: nat) -> (frames: Seq<FrameModel>)
    requires
        serving(s, stream),
        s.may_cut(cut),
    ensures
        serving(s.fed(cut), stream),
        sent(s.client->0, s.fed(cut).client->0, Seq::empty(), frames, stream),
        s.fed(cut).ring == s.ring,
        s.fed(cut).terminal_closed_at == s.terminal_closed_at,
        s.fed(cut).outcome == s.outcome,
        s.fed(cut).client->0.terminal_end_sent == s.client->0.terminal_end_sent,
{
    let client = s.client->0;
    if client.line.outgoing.len() < MAX_PENDING_WRITE && client.sent_through < s.ring.past() {
        let on = client.past_gap(s.ring.first);
        let next = s.fed(cut).client->0;
        what_is_sent_is_the_stream(s, stream, cut);
        let outs = choose|outs: Seq<FrameModel>|
            {
                &&& #[trigger] carries(
                    outs,
                    stream,
                    on.sent_through as int,
                    next.sent_through as int,
                )
                &&& next.line == on.line.said_all(outs)
            };
        lemma_carried_follows(outs, stream, on.sent_through as int, next.sent_through as int);
        let lead = gap_frames(client, s.ring.first);
        assert(follows(lead, client.sent_through as int, stream) == Some(on.sent_through as int))
            by {
            if client.sent_through < s.ring.first {
                lemma_gap_follows(s.ring.first as u64, client.sent_through as int, stream);
            }
        }
        no_answer_is_dropped(FrameModel::Gap { new_base_offset: s.ring.first as u64 });
        assert(on.line.outgoing == client.line.outgoing + bytes_of(lead)) by {
            if client.sent_through < s.ring.first {
                lemma_one(FrameModel::Gap { new_base_offset: s.ring.first as u64 });
            } else {
                assert(client.line.outgoing + bytes_of(lead) =~= client.line.outgoing);
            }
        }
        lemma_encodable_join(lead, outs);
        lemma_follows_join(lead, outs, client.sent_through as int, stream);
        lemma_bytes_concat(lead, outs);
        assert(Seq::<u8>::empty() + next.line.outgoing =~= client.line.outgoing + bytes_of(
            lead + outs,
        ));
        lead + outs
    } else {
        assert(Seq::<u8>::empty() + client.line.outgoing =~= client.line.outgoing + bytes_of(
            Seq::<FrameModel>::empty(),
        ));
        Seq::empty()
    }
}

/// Telling the end of the transcript moves nobody.
proof fn lemma_concluded(s: SessionModel, stream: Seq<u8>, now: u64) -> (frames: Seq<FrameModel>)
    requires
        serving(s, stream),
    ensures
        serving(s.concluded(now), stream),
        sent(s.client->0, s.concluded(now).client->0, Seq::empty(), frames, stream),
{
    let frames = exit_frames(s, now);
    let after = s.concluded(now).client->0;
    let before = s.client->0;
    if frames.len() > 0 {
        no_answer_is_dropped(frames[0]);
        lemma_one(frames[0]);
        assert(frames =~= seq![frames[0]]);
        lemma_one_follows(frames[0], before.sent_through as int, stream);
        assert(Seq::<u8>::empty() + after.line.outgoing =~= before.line.outgoing + bytes_of(
            frames,
        ));
    } else {
        assert(frames =~= Seq::empty());
        assert(Seq::<u8>::empty() + after.line.outgoing =~= before.line.outgoing + bytes_of(
            frames,
        ));
    }
    frames
}

/// One pass of the pump.
proof fn lemma_pumped(s: SessionModel, stream: Seq<u8>, cut: nat, now: u64) -> (frames: Seq<
    FrameModel,
>)
    requires
        serving(s, stream),
        s.may_cut(cut),
    ensures
        serving(s.pumped(cut, now), stream),
        sent(s.client->0, s.pumped(cut, now).client->0, Seq::empty(), frames, stream),
{
    let client = s.client->0;
    let fed = s.fed(cut);
    let outs = lemma_fed(s, stream, cut);
    let ends = lemma_concluded(fed, stream, now);
    lemma_follows_join(outs, ends, client.sent_through as int, stream);
    lemma_encodable_join(outs, ends);
    lemma_bytes_concat(outs, ends);
    let last = fed.concluded(now);
    let after = last.repainted();
    assert(after.client->0.line == last.client->0.line);
    assert(after.client->0.sent_through == last.client->0.sent_through);
    assert(Seq::<u8>::empty() + fed.client->0.line.outgoing
        =~= fed.client->0.line.outgoing);
    assert(Seq::<u8>::empty() + last.client->0.line.outgoing
        =~= last.client->0.line.outgoing);
    assert(Seq::<u8>::empty() + after.client->0.line.outgoing =~= client.line.outgoing
        + bytes_of(outs + ends));
    outs + ends
}

/// One moment.
#[verifier::spinoff_prover]
proof fn lemma_moment(s: SessionModel, stream: Seq<u8>, moment: Moment) -> (frames: Seq<FrameModel>)
    requires
        serving(s, stream),
        possible(s, moment),
    ensures
        serving(lived(s, moment), stream + wrote(moment)),
        sent(
            s.client->0,
            lived(s, moment).client->0,
            taken(s, moment),
            frames,
            stream + wrote(moment),
        ),
{
    let client = s.client->0;
    let nothing = Seq::<FrameModel>::empty();
    assert(stream + Seq::<u8>::empty() =~= stream);
    match moment {
        Moment::Wrote { n, buf, now } => {
            the_ring_keeps_what_the_terminal_wrote(s, stream, n, buf, now);
            assert(Seq::<u8>::empty() + client.line.outgoing =~= client.line.outgoing + bytes_of(
                nothing,
            ));
            nothing
        },
        Moment::Pumped { cut, now } => lemma_pumped(s, stream, cut, now),
        Moment::Told(frame) => {
            let after = lived(s, moment).client->0;
            let frames = if frame.refusal() is None {
                seq![frame]
            } else {
                nothing
            };
            lemma_one(frame);
            lemma_one_follows(frame, client.sent_through as int, stream);
            assert(wire_of(frame) =~= bytes_of(frames));
            assert(Seq::<u8>::empty() + after.line.outgoing =~= client.line.outgoing + bytes_of(
                frames,
            ));
            frames
        },
        Moment::Took(n) => {
            let after = lived(s, moment).client->0;
            assert(client.line.outgoing.take(n as int) + after.line.outgoing
                =~= client.line.outgoing + bytes_of(nothing));
            nothing
        },
    }
}

/// What is sent on the way to somewhere and what is sent from there on are sent on the whole
/// way.
#[verifier::spinoff_prover]
proof fn lemma_sent_join(
    before: AttachedModel,
    mid: AttachedModel,
    after: AttachedModel,
    took: Seq<u8>,
    later: Seq<u8>,
    head: Seq<FrameModel>,
    tail: Seq<FrameModel>,
    stream: Seq<u8>,
)
    requires
        sent(before, mid, took, head, stream),
        sent(mid, after, later, tail, stream),
    ensures
        sent(before, after, took + later, head + tail, stream),
{
    lemma_follows_join(head, tail, before.sent_through as int, stream);
    lemma_bytes_concat(head, tail);
    lemma_encodable_join(head, tail);
    assert(took + later + after.line.outgoing =~= took + (later + after.line.outgoing));
    assert(took + (mid.line.outgoing + bytes_of(tail)) =~= (took + mid.line.outgoing) + bytes_of(
        tail,
    ));
    assert((before.line.outgoing + bytes_of(head)) + bytes_of(tail) =~= before.line.outgoing
        + bytes_of(head + tail));
}

/// However long a client stays and whatever happens meanwhile — output in any pieces, passes
/// of the pump in any number, a socket that takes as little at a time as it likes — the bytes
/// it is sent are those of frames that replay the stream: from where it resumed to where it
/// now stands, byte for byte and without a hole but for the gaps it was told of.
pub proof fn a_connection_replays_the_stream(
    s: SessionModel,
    stream: Seq<u8>,
    moments: Seq<Moment>,
) -> (frames: Seq<FrameModel>)
    requires
        serving(s, stream),
        possible_all(s, moments),
    ensures
        serving(lived_all(s, moments), stream + wrote_all(moments)),
        sent(
            s.client->0,
            lived_all(s, moments).client->0,
            taken_all(s, moments),
            frames,
            stream + wrote_all(moments),
        ),
    decreases moments.len(),
{
    let before = s.client->0;
    if moments.len() == 0 {
        assert(stream + wrote_all(moments) =~= stream);
        let nothing = Seq::<FrameModel>::empty();
        assert(Seq::<u8>::empty() + before.line.outgoing =~= before.line.outgoing + bytes_of(
            nothing,
        ));
        nothing
    } else {
        let first = moments[0];
        let rest = moments.drop_first();
        let next = lived(s, first);
        let mid = next.client->0;
        let after = lived_all(s, moments).client->0;
        let whole = stream + wrote_all(moments);
        let grown = stream + wrote(first);
        let head = lemma_moment(s, stream, first);
        let tail = a_connection_replays_the_stream(next, grown, rest);
        assert(grown + wrote_all(rest) =~= whole);
        lemma_follows_longer(head, before.sent_through as int, grown, wrote_all(rest));
        let took = taken(s, first);
        let later = taken_all(next, rest);
        lemma_sent_join(before, mid, after, took, later, head, tail, whole);
        head + tail
    }
}

/// A client that was told of no gap holds every byte the terminal wrote between where it
/// resumed and where it stands.
pub proof fn without_a_gap_nothing_is_missing(
    frames: Seq<FrameModel>,
    at: int,
    stream: Seq<u8>,
)
    requires
        0 <= at <= stream.len(),
        follows(frames, at, stream) is Some,
        forall|i: int| 0 <= i < frames.len() ==> !((#[trigger] frames[i]) is Gap),
    ensures
        at <= follows(frames, at, stream)->0 <= stream.len(),
        output_data(frames) == stream.subrange(at, follows(frames, at, stream)->0),
    decreases frames.len(),
{
    if frames.len() == 0 {
        assert(output_data(frames) =~= stream.subrange(at, at));
    } else {
        let rest = frames.drop_first();
        assert forall|i: int| 0 <= i < rest.len() implies !((#[trigger] rest[i]) is Gap) by {
            assert(rest[i] == frames[i + 1]);
        }
        assert(!(frames[0] is Gap));
        let mid = match frames[0] {
            FrameModel::Output { data, .. } => at + data.len(),
            _ => at,
        };
        without_a_gap_nothing_is_missing(rest, mid, stream);
        let to = follows(frames, at, stream)->0;
        assert(stream.subrange(at, mid) + stream.subrange(mid, to) =~= stream.subrange(at, to));
        match frames[0] {
            FrameModel::Output { .. } => {},
            _ => {
                assert(stream.subrange(at, mid) =~= Seq::<u8>::empty());
            },
        }
    }
}

/// A client that has read everything it was sent, and had read everything before, decodes it
/// to frames that replay the stream; and where none of them is a gap, the output in them is
/// exactly what the terminal wrote from where the client resumed to where it stands.
pub proof fn a_client_reads_the_stream(
    s: SessionModel,
    stream: Seq<u8>,
    moments: Seq<Moment>,
) -> (frames: Seq<FrameModel>)
    requires
        serving(s, stream),
        possible_all(s, moments),
        s.client->0.line.outgoing.len() == 0,
        lived_all(s, moments).client->0.line.outgoing.len() == 0,
    ensures
        ({
            let from = s.client->0.sent_through as int;
            let to = lived_all(s, moments).client->0.sent_through as int;
            let whole = stream + wrote_all(moments);
            &&& frames_in(taken_all(s, moments)) == frames
            &&& follows(frames, from, whole) == Some(to)
            &&& (forall|i: int| 0 <= i < frames.len() ==> !((#[trigger] frames[i]) is Gap))
                ==> output_data(frames) == whole.subrange(from, to)
        }),
{
    let frames = a_connection_replays_the_stream(s, stream, moments);
    let before = s.client->0.line.outgoing;
    let after = lived_all(s, moments).client->0.line.outgoing;
    let took = taken_all(s, moments);
    assert(took =~= took + after);
    assert(bytes_of(frames) =~= before + bytes_of(frames));
    a_stream_of_frames_reassembles(frames);
    if forall|i: int| 0 <= i < frames.len() ==> !((#[trigger] frames[i]) is Gap) {
        without_a_gap_nothing_is_missing(
            frames,
            s.client->0.sent_through as int,
            stream + wrote_all(moments),
        );
    }
    frames
}

// ---------------------------------------------------------------------------
// Input
// ---------------------------------------------------------------------------

/// Everything a client's stream of keystrokes was applied of is in the terminal's hands or
/// queued for it, in order: `given` went to the terminal, and what is queued is behind it.
pub open spec fn typed_in_order(s: SessionModel, given: Seq<u8>, stream: Seq<u8>) -> bool {
    &&& s.in_applied <= stream.len() <= u64::MAX
    &&& given + s.pending_input == stream.take(s.in_applied as int)
}

/// A frame of input never breaks that order, whatever stretch of the stream it carries.
pub proof fn input_keeps_the_order(
    s: SessionModel,
    given: Seq<u8>,
    stream: Seq<u8>,
    offset: u64,
    data: Seq<u8>,
    now: u64,
)
    requires
        typed_in_order(s, given, stream),
        s.terminal_closed_at is None,
        offset + data.len() <= stream.len(),
        data == stream.subrange(offset as int, offset + data.len()),
    ensures
        typed_in_order(s.served(FrameModel::Input { offset, data }, now).0, given, stream),
{
    if offset <= s.in_applied {
        crate::laws::input_is_applied_exactly_once(s, stream, offset, data, now);
        let next = s.served(FrameModel::Input { offset, data }, now).0;
        assert(given + (s.pending_input + stream.subrange(
            s.in_applied as int,
            next.in_applied as int,
        )) =~= stream.take(s.in_applied as int) + stream.subrange(
            s.in_applied as int,
            next.in_applied as int,
        ));
        assert(stream.take(s.in_applied as int) + stream.subrange(
            s.in_applied as int,
            next.in_applied as int,
        ) =~= stream.take(next.in_applied as int));
    }
}

/// Neither does the terminal taking as much of the queue as it likes: what it took is behind
/// what it was given before.
pub proof fn writing_keeps_the_order(s: SessionModel, given: Seq<u8>, stream: Seq<u8>, n: usize)
    requires
        typed_in_order(s, given, stream),
        s.started,
        0 < n <= s.pending_input.len(),
    ensures
        typed_in_order(
            s.terminal_written(Ok(n)),
            given + s.pending_input.take(n as int),
            stream,
        ),
{
    let next = s.terminal_written(Ok(n));
    assert((given + s.pending_input.take(n as int)) + next.pending_input =~= given
        + s.pending_input);
}

/// Neither does a client leaving, nor another taking its place.
pub proof fn a_reconnect_keeps_the_order(
    s: SessionModel,
    given: Seq<u8>,
    stream: Seq<u8>,
    hello: crate::rev11::HelloModel,
    attempt: crate::greet::Attempt,
    now: u64,
)
    requires
        typed_in_order(s, given, stream),
    ensures
        typed_in_order(s.dropped(now), given, stream),
        typed_in_order(s.admitted(hello, now).0, given, stream),
        typed_in_order(s.greeted(hello, attempt, now), given, stream),
{
}

} // verus!
