//! What one non-blocking transfer amounts to.

use std::collections::VecDeque;

use nomux::nbio::{drain_to, read_again, read_or_eof, Drained, Errno, ReadOutcome};

/// A wrapped queue drained in two writes comes out in order.
#[test]
fn a_wrapped_queue_is_delivered_in_order() {
    // Fill, drain from the front, refill: the head ends up past index zero.
    let mut queue: VecDeque<u8> = VecDeque::with_capacity(8);
    queue.extend(b"abcdefgh");
    drop(queue.drain(..5));
    queue.extend(b"ijklm");
    assert!(
        queue.as_slices().0.len() < queue.len(),
        "the queue must actually be wrapped for this to test anything"
    );

    let whole: Vec<u8> = queue.iter().copied().collect();
    assert_eq!(whole, b"fghijklm");
    assert_eq!(drain_to(&mut queue, Ok(3)), Drained::Done);
    assert_eq!(queue.iter().copied().collect::<Vec<u8>>(), b"ijklm");
    assert_eq!(drain_to(&mut queue, Ok(99)), Drained::Done);
    assert!(queue.is_empty(), "a count past the queue is the whole of it");
}

#[test]
fn a_read_failure_is_not_reported_as_end_of_file() {
    assert_eq!(
        read_or_eof(1, Err(Errno::Other(21))),
        ReadOutcome::Failed(Errno::Other(21)),
        "a failed descriptor was mistaken for a peer that closed cleanly"
    );
    assert_eq!(read_or_eof(1, Err(Errno::Io)), ReadOutcome::Eof);
    assert_eq!(read_or_eof(1, Err(Errno::Again)), ReadOutcome::WouldBlock);
    assert_eq!(read_or_eof(8, Ok(0)), ReadOutcome::Eof);
    assert_eq!(read_or_eof(8, Ok(3)), ReadOutcome::Data(3));
}

#[test]
fn an_empty_buffer_is_not_reported_as_end_of_file() {
    assert_eq!(read_or_eof(0, Ok(0)), ReadOutcome::WouldBlock);
}

/// A write that takes nothing and says nothing is a failure, and one that was interrupted is
/// asked again; neither loses a byte.
#[test]
fn a_write_that_moves_nothing_keeps_the_queue() {
    let mut queue: VecDeque<u8> = VecDeque::from(vec![1, 2, 3]);
    assert_eq!(drain_to(&mut queue, Ok(0)), Drained::WriteZero);
    assert_eq!(drain_to(&mut queue, Err(Errno::Interrupted)), Drained::Retry);
    assert_eq!(drain_to(&mut queue, Err(Errno::Again)), Drained::Done);
    assert_eq!(
        drain_to(&mut queue, Err(Errno::BrokenPipe)),
        Drained::Failed(Errno::BrokenPipe)
    );
    assert_eq!(queue.len(), 3);
    let mut empty: VecDeque<u8> = VecDeque::new();
    assert_eq!(drain_to(&mut empty, Ok(0)), Drained::Done);
    assert!(read_again(Err(Errno::Interrupted)));
    assert!(!read_again(Err(Errno::Again)));
}
