//! What a queue of bytes is filled, emptied and looked into by.
use std::collections::VecDeque;

use vstd::prelude::*;

verus! {

/// The two halves a queue is stored in, front first.
///
/// Rests on [`VecDeque::as_slices`]: the two slices hold, in order, the contents of the
/// queue. Where the contents are divided between them is not said.
#[verifier::external_body]
pub(crate) fn halves(queue: &VecDeque<u8>) -> (r: (&[u8], &[u8]))
    ensures
        r.0@ + r.1@ == queue@,
{
    queue.as_slices()
}

/// Gives back the capacity of `queue` past `floor`.
///
/// Rests on [`VecDeque::shrink_to`], which changes how much memory a queue holds on to and
/// nothing of what it holds.
#[verifier::external_body]
pub(crate) fn shrink_queue(queue: &mut VecDeque<u8>, floor: usize)
    ensures
        final(queue)@ == old(queue)@,
{
    queue.shrink_to(floor);
}

/// Drops the oldest `n` bytes.
pub(crate) fn drop_front(queue: &mut VecDeque<u8>, n: usize)
    requires
        n <= old(queue)@.len(),
    ensures
        final(queue)@ == old(queue)@.skip(n as int),
{
    let mut dropped: usize = 0;
    assert(queue@ =~= old(queue)@.skip(0));
    while dropped < n
        invariant
            dropped <= n <= old(queue)@.len(),
            queue@ == old(queue)@.skip(dropped as int),
        decreases n - dropped,
    {
        let _ = queue.pop_front();
        dropped += 1;
        assert(queue@ =~= old(queue)@.skip(dropped as int));
    }
}

/// Appends `data` from `from` on.
pub(crate) fn push_from(queue: &mut VecDeque<u8>, data: &[u8], from: usize)
    requires
        from <= data@.len(),
    ensures
        final(queue)@ == old(queue)@ + data@.skip(from as int),
{
    let mut at: usize = from;
    assert(queue@ =~= old(queue)@ + data@.subrange(from as int, from as int));
    while at < data.len()
        invariant
            from <= at <= data@.len(),
            queue@ == old(queue)@ + data@.subrange(from as int, at as int),
        decreases data@.len() - at,
    {
        queue.push_back(data[at]);
        at += 1;
        assert(queue@ =~= old(queue)@ + data@.subrange(from as int, at as int));
    }
    assert(data@.subrange(from as int, data@.len() as int) =~= data@.skip(from as int));
}

} // verus!
