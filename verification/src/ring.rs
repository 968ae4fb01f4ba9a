//! Bounded output buffer addressed by absolute stream offset.
//!
//! Precedence when it fills: keep draining the PTY, drop the oldest bytes. Losing
//! scrollback is recoverable; a wedged shell is not.
use std::collections::{TryReserveError, VecDeque};

use vstd::prelude::*;

use crate::queue::{drop_front, halves, push_from};

verus! {

/// Reserves room for exactly `n` more bytes, or reports that it cannot be had.
///
/// Rests on [`VecDeque::try_reserve_exact`]: a capacity beyond the most a collection may
/// have, which is `isize::MAX` bytes, is an error, and the contents stay as they are either
/// way. Whether a smaller one is granted is the allocator's to decide and is not said here.
#[verifier::external_body]
fn reserve(buf: &mut VecDeque<u8>, n: usize) -> (r: Result<(), TryReserveError>)
    ensures
        final(buf)@ == old(buf)@,
        n > isize::MAX ==> r is Err,
{
    buf.try_reserve_exact(n)
}

/// A rolling window over the tail of the output stream.
#[derive(Debug)]
pub struct Ring {
    buf: VecDeque<u8>,
    /// Not the deque's own capacity: the allocation may hold more than was asked for, so
    /// reading the window back off it would silently enlarge the retention.
    capacity: usize,
    base: u64,
}

/// What a [`Ring`] holds: the offset of the oldest byte retained, the bytes retained, and
/// the most it ever retains.
#[verifier::ext_equal]
pub struct RingModel {
    pub first: nat,
    pub retained: Seq<u8>,
    pub limit: nat,
}

impl View for Ring {
    type V = RingModel;

    closed spec fn view(&self) -> RingModel {
        RingModel { first: self.base as nat, retained: self.buf@, limit: self.capacity as nat }
    }
}

impl RingModel {
    /// A ring nothing was written to, retaining at most `capacity` bytes and never fewer than
    /// one.
    pub open spec fn empty(capacity: usize) -> RingModel {
        RingModel {
            first: 0,
            retained: Seq::empty(),
            limit: if capacity == 0 {
                1
            } else {
                capacity as nat
            },
        }
    }

    /// Offset one past the newest byte, i.e. the total ever written.
    pub open spec fn past(self) -> nat {
        self.first + self.retained.len()
    }

    /// There is always room for a byte, never more than the limit is retained, and every
    /// offset is a `u64`.
    pub open spec fn wf(self) -> bool {
        &&& 1 <= self.limit <= usize::MAX
        &&& self.retained.len() <= self.limit
        &&& self.past() <= u64::MAX
    }

    /// How many bytes fall out of the window when `len` more arrive.
    pub open spec fn overflow(self, len: nat) -> nat {
        if self.retained.len() + len <= self.limit {
            0
        } else {
            (self.retained.len() + len - self.limit) as nat
        }
    }

    /// After `data` was appended: what no longer fits is gone from the front.
    pub open spec fn pushed(self, data: Seq<u8>) -> RingModel {
        let gone = self.overflow(data.len());
        RingModel {
            first: self.first + gone,
            retained: (self.retained + data).skip(gone as int),
            limit: self.limit,
        }
    }

    /// The retained bytes at and after `from`, all of them where `from` has been dropped.
    pub open spec fn since(self, from: nat) -> Seq<u8> {
        if from <= self.first {
            self.retained
        } else if from >= self.past() {
            Seq::empty()
        } else {
            self.retained.skip(from - self.first)
        }
    }

    /// This is the window over a stream in which `stream` is everything written so far: it
    /// ends where the stream ends and holds as much of the tail as it may.
    pub open spec fn is_window_over(self, stream: Seq<u8>) -> bool {
        &&& self.past() == stream.len()
        &&& self.retained == stream.skip(self.first as int)
        &&& self.retained.len() == if stream.len() < self.limit {
            stream.len()
        } else {
            self.limit
        }
    }
}

impl Ring {
    /// Tries to create a ring retaining at most `capacity` bytes, and never fewer than one.
    ///
    /// The allocator is asked for [`Ring::room_for`] the whole window. More than any
    /// collection may hold is refused; whether less can be had is the allocator's to say, and
    /// what its answer comes to is [`Ring::once_reserved`]'s.
    pub fn try_new(capacity: usize) -> (r: Result<Ring, TryReserveError>)
        ensures
            r matches Ok(ring) ==> ring@ == RingModel::empty(capacity) && ring@.wf(),
            capacity > isize::MAX ==> r is Err,
    {
        let mut buf: VecDeque<u8> = VecDeque::new();
        let granted: Result<(), TryReserveError> = reserve(&mut buf, Ring::room_for(capacity));
        Ring::once_reserved(buf, capacity, granted)
    }

    /// How many bytes a ring of this capacity has room for: never fewer than one.
    pub fn room_for(capacity: usize) -> (r: usize)
        ensures
            r == RingModel::empty(capacity).limit,
    {
        if capacity == 0 {
            1
        } else {
            capacity
        }
    }

    /// What asking for the memory of a ring comes to, `buf` being what it was asked for: the
    /// ring where it was granted, and the allocator's own refusal where it was not.
    pub fn once_reserved(
        buf: VecDeque<u8>,
        capacity: usize,
        granted: Result<(), TryReserveError>,
    ) -> (r: Result<Ring, TryReserveError>)
        requires
            buf@.len() == 0,
        ensures
            match granted {
                Ok(()) => r matches Ok(ring) && ring@ == RingModel::empty(capacity) && ring@.wf(),
                Err(e) => r == Err::<Ring, TryReserveError>(e),
            },
    {
        match granted {
            Ok(()) => {
                assert(buf@ =~= Seq::<u8>::empty());
                Ok(Ring { buf, capacity: Ring::room_for(capacity), base: 0 })
            },
            Err(e) => Err(e),
        }
    }

    /// Offset of the oldest retained byte.
    pub fn base(&self) -> (r: u64)
        ensures
            r == self@.first,
    {
        self.base
    }

    /// Offset one past the newest byte, i.e. the total ever written.
    pub fn end(&self) -> (r: u64)
        requires
            self@.wf(),
        ensures
            r == self@.past(),
    {
        self.base + self.buf.len() as u64
    }

    /// Appends output, discarding from the front what no longer fits.
    ///
    /// Discarding is not reported here; whether a *reader* lost anything is derived per
    /// client from [`Ring::base`].
    pub fn push(&mut self, data: &[u8])
        requires
            old(self)@.wf(),
            old(self)@.past() + data@.len() <= u64::MAX,
        ensures
            final(self)@.wf(),
            final(self)@ == old(self)@.pushed(data@),
            final(self)@.past() == old(self)@.past() + data@.len(),
    {
        let held: usize = self.buf.len();
        // What falls out of the window, however it splits between the buffer's head and
        // this write's own.
        let room: usize = self.capacity - held;
        let overflow: usize = if data.len() > room {
            data.len() - room
        } else {
            0
        };
        let from_buf: usize = if overflow < held {
            overflow
        } else {
            held
        };
        drop_front(&mut self.buf, from_buf);
        push_from(&mut self.buf, data, overflow - from_buf);
        self.base = self.base + overflow as u64;
        assert(self.buf@ =~= (old(self).buf@ + data@).skip(overflow as int));
    }

    /// Returns the retained bytes at and after `from`, in two parts.
    ///
    /// `from` is clamped to [`Ring::base`], so a caller that has fallen behind resumes at
    /// the oldest retained byte. The two stay in stream order, and either may be empty —
    /// including the *first* — so a caller walking them must skip an empty part rather
    /// than stop at one.
    pub fn slices_from(&self, from: u64) -> (r: [&[u8]; 2])
        requires
            self@.wf(),
        ensures
            r[0]@ + r[1]@ == self@.since(from as nat),
    {
        let (front, back) = halves(&self.buf);
        let len: usize = self.buf.len();
        let skip: usize = if from <= self.base {
            0
        } else if from - self.base >= len as u64 {
            len
        } else {
            (from - self.base) as usize
        };
        let first: &[u8] = if skip <= front.len() {
            vstd::slice::slice_subrange(front, skip, front.len())
        } else {
            vstd::slice::slice_subrange(front, front.len(), front.len())
        };
        let past: usize = if skip <= front.len() {
            0
        } else {
            skip - front.len()
        };
        let second: &[u8] = vstd::slice::slice_subrange(back, past, back.len());
        let r: [&[u8]; 2] = [first, second];
        proof {
            let all = self.buf@;
            assert(all =~= front@ + back@);
            assert(first@ + second@ =~= all.skip(skip as int));
            assert(self@.since(from as nat) =~= all.skip(skip as int));
        }
        r
    }
}

/// An empty ring is the window over an empty stream.
pub proof fn an_empty_ring_is_a_window(ring: RingModel)
    requires
        ring.limit >= 1,
        ring.first == 0,
        ring.retained == Seq::<u8>::empty(),
    ensures
        ring.is_window_over(Seq::empty()),
{
    assert(ring.retained =~= Seq::<u8>::empty().skip(0));
}

/// Whatever is written, in whatever pieces, a ring stays the window over everything
/// written: its end counts every byte, and it retains as much of the tail as it may.
pub proof fn a_ring_stays_a_window(ring: RingModel, stream: Seq<u8>, data: Seq<u8>)
    requires
        ring.limit >= 1,
        ring.retained.len() <= ring.limit,
        ring.is_window_over(stream),
    ensures
        ring.pushed(data).is_window_over(stream + data),
{
    let longer = stream + data;
    let after = ring.pushed(data);
    assert(after.retained =~= longer.skip(after.first as int)) by {
        assert forall|i: int| 0 <= i < after.retained.len() implies after.retained[i]
            == longer[after.first + i] by {
            let j = ring.overflow(data.len()) + i;
            if j < ring.retained.len() {
                assert(ring.retained[j] == stream[ring.first + j]);
            }
        }
    }
}

/// How the output was cut into writes does not show: pushing `first` and then `second`
/// leaves the ring that one push of both leaves, and a push of nothing leaves it as it was.
pub proof fn the_pieces_of_a_push_do_not_show(ring: RingModel, first: Seq<u8>, second: Seq<u8>)
    requires
        ring.wf(),
    ensures
        ring.pushed(first).pushed(second) == ring.pushed(first + second),
        ring.pushed(Seq::empty()) == ring,
{
    assert(ring.pushed(first).pushed(second).retained =~= ring.pushed(first + second).retained);
    assert(ring.pushed(Seq::empty()).retained =~= ring.retained);
}

/// What a ring serves from an offset it retains is what the stream holds from there.
pub proof fn a_ring_serves_its_stream(ring: RingModel, stream: Seq<u8>, from: nat)
    requires
        ring.is_window_over(stream),
        ring.first <= from <= ring.past(),
    ensures
        ring.since(from) == stream.skip(from as int),
{
    assert(ring.since(from) =~= stream.skip(from as int));
}

/// A reader below what a ring retains is served all it retains, and one at its end or past it
/// nothing.
pub proof fn a_reader_is_served_what_there_is(ring: RingModel, from: nat)
    ensures
        from <= ring.first ==> ring.since(from) == ring.retained,
        from >= ring.first + ring.retained.len() && from > ring.first ==> ring.since(from).len()
            == 0,
        ring.first < from < ring.first + ring.retained.len() ==> ring.since(from)
            == ring.retained.subrange(from - ring.first, ring.retained.len() as int),
{
    if ring.first < from < ring.first + ring.retained.len() {
        assert(ring.since(from) =~= ring.retained.subrange(
            from - ring.first,
            ring.retained.len() as int,
        ));
    }
}

/// A ring begins with nothing in it, at the beginning of its stream, and with room for what it
/// was asked to retain and for a byte at least.
pub proof fn a_ring_begins_empty(capacity: usize)
    ensures
        ({
            let ring = RingModel::empty(capacity);
            &&& ring.first == 0
            &&& ring.retained.len() == 0
            &&& capacity > 0 ==> ring.limit == capacity
            &&& capacity == 0 ==> ring.limit == 1
            &&& ring.is_window_over(Seq::empty())
        }),
{
    an_empty_ring_is_a_window(RingModel::empty(capacity));
}

/// A reader that was caught up and has since fallen out of the window is below its base,
/// so the loss cannot go unnoticed.
pub proof fn a_loss_is_always_visible(ring: RingModel, data: Seq<u8>, reader: nat)
    requires
        ring.retained.len() <= ring.limit,
        ring.first <= reader <= ring.past(),
        reader < ring.past() + data.len() - ring.limit,
    ensures
        reader < ring.pushed(data).first,
{
}

} // verus!
