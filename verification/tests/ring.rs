//! The output ring.

use std::collections::VecDeque;

use nomux::ring::Ring;

/// A ring retaining at most `capacity` bytes.
fn ring_of(capacity: usize) -> Ring {
    Ring::try_new(capacity).expect("a small ring")
}

/// Concatenates what the ring would serve from `offset`.
fn read_from(ring: &Ring, offset: u64) -> Vec<u8> {
    ring.slices_from(offset).concat()
}

#[test]
fn a_zero_capacity_retains_one_byte_rather_than_aborting() {
    let mut ring = ring_of(0);
    ring.push(b"ab");
    assert_eq!((ring.base(), ring.end()), (1, 2));
    assert_eq!(read_from(&ring, ring.base()), b"b");
}

#[test]
fn an_impossible_allocation_is_reported_instead_of_aborting() {
    assert!(
        Ring::try_new(usize::MAX).is_err(),
        "capacity overflow must remain a recoverable construction error"
    );
}

#[test]
fn offsets_track_total_written_not_retained() {
    let mut ring = ring_of(4);
    ring.push(b"ab");
    assert_eq!((ring.base(), ring.end()), (0, 2));
    ring.push(b"cd");
    assert_eq!((ring.base(), ring.end()), (0, 4));
    ring.push(b"ef");
    assert_eq!(
        (ring.base(), ring.end()),
        (2, 6),
        "base advances by exactly what was dropped"
    );
}

/// An oversized write discards what was retained *as well as* its own head.
///
/// A `base` left too low puts a caught-up client above it, so no `Gap` is sent and
/// the client splices a stream with a hole in it onto its scrollback believing it
/// contiguous — the one failure the whole design exists to prevent, so it is
/// pinned at the arithmetic rather than end to end.
#[test]
fn an_oversized_write_accounts_for_what_it_evicts() {
    let mut ring = ring_of(4);
    ring.push(b"abc");
    let caught_up = ring.end();

    ring.push(b"vwxyz");
    assert_eq!(
        (ring.base(), ring.end()),
        (4, 8),
        "offsets must still count every byte ever written"
    );
    assert!(
        caught_up < ring.base(),
        "a client that was caught up must now be below base, i.e. see a gap"
    );
    assert_eq!(read_from(&ring, ring.base()), b"wxyz");
}

#[test]
fn serves_exact_ranges() {
    let mut ring = ring_of(8);
    ring.push(b"abcdef");
    assert_eq!(read_from(&ring, 0), b"abcdef");
    assert_eq!(read_from(&ring, 3), b"def");
    assert_eq!(read_from(&ring, 6), b"");
}

#[test]
fn reads_below_base_are_clamped() {
    let mut ring = ring_of(4);
    ring.push(b"abcdefgh");
    assert_eq!(ring.base(), 4);
    assert_eq!(
        read_from(&ring, 0),
        b"efgh",
        "clamped to base, not panicking"
    );
    assert_eq!(read_from(&ring, 4), b"efgh");
}

#[test]
fn write_larger_than_capacity_keeps_its_own_tail() {
    let mut ring = ring_of(4);
    ring.push(b"abcdefghij");
    assert_eq!(read_from(&ring, ring.base()), b"ghij");
    assert_eq!(ring.end(), 10, "offsets still count every byte written");
    assert_eq!(ring.base(), 6);
}

#[test]
fn wrapped_deque_is_served_in_order() {
    let mut ring = ring_of(6);
    ring.push(b"abcdef");
    ring.push(b"ghi");
    let [front, back] = ring.slices_from(ring.base());
    assert!(
        !front.is_empty() && !back.is_empty(),
        "test needs a wrapped deque to be meaningful"
    );
    assert_eq!(read_from(&ring, ring.base()), b"defghi");
    assert_eq!(read_from(&ring, 5), b"fghi");
}

/// Chunks run past the ring's own capacity, so the oversized-write branch is
/// exercised against the model rather than only by the case above.
#[test]
fn matches_a_reference_model() {
    let capacity = 16;
    let mut ring = ring_of(capacity);
    let mut model: Vec<u8> = Vec::new();

    for round in 0u32..200 {
        let len = usize::try_from(round % 37).unwrap_or(0);
        let chunk: Vec<u8> = (0..len)
            .map(|i| u8::try_from((u64::from(round) + i as u64) % 251).unwrap_or(0))
            .collect();
        ring.push(&chunk);
        model.extend_from_slice(&chunk);

        let total = model.len() as u64;
        assert_eq!(ring.end(), total);
        let retained = model.len().min(capacity);
        assert_eq!(ring.base(), total - retained as u64);

        let expected = model.get(model.len() - retained..).unwrap_or(&[]);
        assert_eq!(read_from(&ring, ring.base()), expected, "round {round}");
    }
}

/// What a reader lost is visible to it, and what it did not lose is served as it was written:
/// the ring over a stream is the stream's tail, however the stream was cut into writes.
#[test]
fn a_ring_is_the_tail_of_its_stream_however_it_was_written() {
    let stream: Vec<u8> = (0u8..=255).collect();
    for cut in [1usize, 3, 7, 64, 200] {
        let mut ring = ring_of(100);
        for chunk in stream.chunks(cut) {
            ring.push(chunk);
        }
        assert_eq!(ring.end(), 256);
        assert_eq!(ring.base(), 156);
        assert_eq!(read_from(&ring, 0), &stream[156..]);
        assert_eq!(read_from(&ring, 200), &stream[200..]);
        assert_eq!(read_from(&ring, 256), b"");
        assert_eq!(read_from(&ring, 9_999), b"");
    }
}

/// Nothing is lost before the ring is full, to the byte.
#[test]
fn a_ring_drops_nothing_until_it_must() {
    let mut ring = ring_of(5);
    ring.push(b"abcde");
    assert_eq!((ring.base(), ring.end()), (0, 5));
    ring.push(b"f");
    assert_eq!((ring.base(), ring.end()), (1, 6));
    assert_eq!(read_from(&ring, 1), b"bcdef");
    ring.push(b"");
    assert_eq!((ring.base(), ring.end()), (1, 6));
}

/// What the allocator grants is a ring, and what it refuses is its own refusal.
#[test]
fn a_reservation_decides_and_nothing_else_does() {
    for (capacity, kept) in [(0, b"d".as_slice()), (1, b"d"), (3, b"bcd"), (9, b"abcd")] {
        let mut ring = Ring::once_reserved(VecDeque::new(), capacity, Ok(())).expect("granted");
        assert_eq!((ring.base(), ring.end()), (0, 0));
        ring.push(b"abcd");
        assert_eq!(read_from(&ring, 0), kept);
    }
    let refused = VecDeque::<u8>::new()
        .try_reserve_exact(usize::MAX)
        .expect_err("more than there can be");
    let said = refused.to_string();
    let err = Ring::once_reserved(VecDeque::new(), 4, Err(refused)).expect_err("refused");
    assert_eq!(err.to_string(), said);
}

/// The allocator is asked for the whole window, and for more than any collection may hold it
/// refuses.
#[test]
fn a_ring_asks_for_its_whole_window() {
    for (capacity, room) in [(0, 1), (1, 1), (2, 2), (4096, 4096), (usize::MAX, usize::MAX)] {
        assert_eq!(Ring::room_for(capacity), room);
    }
    let most = isize::MAX as usize;
    for capacity in [most + 1, most + 2, usize::MAX] {
        assert!(Ring::try_new(capacity).is_err(), "{capacity}");
    }
    let mut ring = ring_of(3);
    ring.push(b"abcd");
    assert_eq!(read_from(&ring, 0), b"bcd");
}

/// How the output was cut into writes does not show.
#[test]
fn the_pieces_of_a_push_do_not_show() {
    let stream = b"abcdefghij";
    for capacity in [0, 1, 3, 7, 10, 12] {
        for start in 0..stream.len() {
            for cut in start..=stream.len() {
                let (mut pieces, mut whole) = (ring_of(capacity), ring_of(capacity));
                for ring in [&mut pieces, &mut whole] {
                    ring.push(&stream[..start]);
                }
                pieces.push(&stream[start..cut]);
                pieces.push(b"");
                pieces.push(&stream[cut..]);
                whole.push(&stream[start..]);
                assert_eq!((pieces.base(), pieces.end()), (whole.base(), whole.end()));
                assert_eq!(read_from(&pieces, 0), read_from(&whole, 0));
            }
        }
    }
}
