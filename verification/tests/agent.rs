//! The one served agent connection.

use nomux::agent::{Accept, Agent, Arrival, Flush, AGENT_IDLE_TIMEOUT, MAX_CHANNEL_QUEUE};
use nomux::nbio::{Errno, ReadOutcome};

/// A connection of this user's.
const ARRIVED: Arrival = Arrival::Connection {
    ours: true,
    usable: true,
};

/// Takes a connection, and the generation everything sent for it must name.
fn open(agent: &mut Agent, now: u64) -> u32 {
    let Accept::Opened(generation) = agent.accept(ARRIVED, true, now) else {
        panic!("a connection with a client attached and the slot free must be served");
    };
    generation
}

/// How much is queued for the peer.
fn queued(agent: &Agent) -> usize {
    let (front, back) = agent.queue();
    front.len() + back.len()
}

/// Queues data for a peer that takes none of it.
fn stall(agent: &mut Agent, generation: u32, now: u64) {
    assert!(agent.deliver(generation, &vec![b'q'; 64 * 1024]));
    assert_eq!(agent.flush(Ok(1024), now), Flush::Open);
    assert_eq!(agent.flush(Err(Errno::Again), now), Flush::Open);
    assert!(queued(agent) > 0);
}

/// The peak is the cap, never the cap plus a payload.
#[test]
fn a_channel_queue_is_bounded_before_the_bytes_are_taken() {
    let mut agent = Agent::new();
    let live = open(&mut agent, 0);

    assert!(
        agent.deliver(live, &vec![0u8; MAX_CHANNEL_QUEUE - 1]),
        "a queue below the cap is served"
    );
    assert!(
        agent.deliver(live, &[0u8]),
        "and one that lands exactly on it still is"
    );
    assert!(
        !agent.deliver(live, &vec![0u8; 64 * 1024]),
        "the frame that would cross the cap is refused"
    );
    assert_eq!(
        queued(&agent),
        MAX_CHANNEL_QUEUE,
        "and none of it is queued: the peak is the cap, not the cap plus a payload"
    );
}

/// A second connection is not refused while one is served — it is left where it is, and
/// taken once the slot frees.
#[test]
fn a_second_connection_waits_in_the_backlog_rather_than_being_refused() {
    let mut agent = Agent::new();
    let first_generation = open(&mut agent, 0);

    assert_eq!(
        agent.accept(ARRIVED, true, 1),
        Accept::Idle,
        "a connection arriving while one is served must be left where it is"
    );
    assert_eq!(
        agent.forget(),
        Some(first_generation),
        "the first connection frees the slot"
    );
    let Accept::Opened(generation) = agent.accept(ARRIVED, true, 2) else {
        panic!("the one that waited is taken next");
    };
    assert_ne!(
        generation, first_generation,
        "the successor must be named something else"
    );
    assert_eq!(
        agent.read(ReadOutcome::Data(5), 3),
        ReadOutcome::Data(5),
        "the request written while it waited must still be there to read"
    );
}

/// A served connection that says nothing is given up at its deadline.
#[test]
fn a_silent_served_connection_is_given_up_at_its_deadline() {
    let mut agent = Agent::new();
    let live = open(&mut agent, 7);

    let due = agent
        .deadline()
        .expect("a served connection has a deadline");
    assert_eq!(due, 7 + AGENT_IDLE_TIMEOUT);
    assert!(
        agent.close_if_idle(due - 1).is_none(),
        "a connection inside its window is not stalled yet"
    );
    assert_eq!(
        agent.close_if_idle(due),
        Some(live),
        "and one that reaches it is closed, with the client owed the news"
    );
    assert!(!agent.is_serving(), "the slot is free again");
    assert!(
        agent.close_if_idle(due + AGENT_IDLE_TIMEOUT).is_none(),
        "an empty slot is nothing to announce a second close for"
    );
}

/// The slot comes back from a connection the client closed against a peer that stopped
/// reading — and silently, that client having forgotten it already.
#[test]
fn a_stalled_close_frees_the_slot_without_announcing_itself() {
    let mut agent = Agent::new();
    let live = open(&mut agent, 0);

    stall(&mut agent, live, 1);
    assert!(agent.close_from_client(live));
    agent.finish_close(Err(Errno::Again), 2);
    assert!(
        agent.is_serving(),
        "a queue that cannot drain holds the slot"
    );

    let due = agent.deadline().expect("and so still has a deadline");
    assert!(
        agent.close_if_idle(due).is_none(),
        "the slot comes back with nothing said about it"
    );
    assert!(!agent.is_serving(), "but it does come back");
}

#[test]
fn data_after_a_client_close_is_ignored() {
    let mut agent = Agent::new();
    let live = open(&mut agent, 0);
    stall(&mut agent, live, 1);
    assert!(agent.close_from_client(live));
    agent.finish_close(Err(Errno::Again), 2);

    let before = queued(&agent);
    assert!(agent.deliver(live, b"late"), "late data is not a fault");
    assert_eq!(
        queued(&agent),
        before,
        "data received after AgentClose was queued behind the closed stream"
    );
}

/// The window is against the last byte, not against the accept: a byte that *moved*, in
/// either direction.
#[test]
fn traffic_either_way_pushes_the_idle_deadline_out() {
    let mut agent = Agent::new();
    let live = open(&mut agent, 0);

    let accepted_at = agent
        .deadline()
        .expect("a served connection has a deadline");
    assert!(
        agent.deliver(live, b"\0\0\0\x05\x0c-reply"),
        "the client answers"
    );
    assert_eq!(
        agent.flush(Ok(11), 5),
        Flush::Open,
        "and the daemon hands it to the peer"
    );
    assert!(
        agent.close_if_idle(accepted_at).is_none(),
        "a reply from the client is traffic, and the old deadline must not close it"
    );

    let moved_at = agent.deadline().expect("still served");
    assert_eq!(
        agent.read(ReadOutcome::Data(5), 9),
        ReadOutcome::Data(5),
        "and reaches us"
    );
    assert!(
        agent.close_if_idle(moved_at).is_none(),
        "so is a second request from the peer"
    );
}

/// A frame that reached the queue and got no further is not traffic.
#[test]
fn a_queue_that_cannot_be_written_does_not_push_the_deadline_out() {
    let mut agent = Agent::new();
    let live = open(&mut agent, 0);

    stall(&mut agent, live, 3);

    let due = agent
        .deadline()
        .expect("a served connection has a deadline");
    assert!(
        agent.deliver(live, &vec![b'q'; 64 * 1024]),
        "the client sends another frame at a peer reading none of them"
    );
    assert_eq!(
        agent.deadline(),
        Some(due),
        "queuing is not moving"
    );
    assert_eq!(
        agent.flush(Err(Errno::Again), 50),
        Flush::Open,
        "and the write that cannot place it is not a failure either"
    );
    assert_eq!(
        agent.deadline(),
        Some(due),
        "nor does the attempt to write it, which moved no byte"
    );
}

/// An empty backlog must not be reported as the failure that takes the socket out of the
/// poll set.
#[test]
fn an_empty_backlog_is_not_a_failure_to_back_off_from() {
    let mut agent = Agent::new();
    assert_eq!(agent.accept(Arrival::Nobody, true, 0), Accept::Idle);
    assert_eq!(agent.accept(Arrival::Interrupted, true, 0), Accept::Idle);
    assert_eq!(agent.accept(Arrival::Failed, true, 0), Accept::Failed);
}

/// Nobody is served with nobody attached, from another user, or over a connection that
/// could not be made usable.
#[test]
fn a_connection_nothing_can_serve_is_dropped_on_the_spot() {
    let mut agent = Agent::new();
    assert_eq!(agent.accept(ARRIVED, false, 0), Accept::Idle);
    for (ours, usable) in [(false, true), (true, false)] {
        assert_eq!(
            agent.accept(Arrival::Connection { ours, usable }, true, 0),
            Accept::Idle
        );
    }
    assert!(!agent.is_serving());
    assert_eq!(open(&mut agent, 0), 0, "none of those spent a name");
}

/// A write that fails closes the connection, which the client hears of only where it had
/// not closed it itself.
#[test]
fn a_failed_write_ends_the_connection_once() {
    let mut agent = Agent::new();
    let live = open(&mut agent, 0);
    assert!(agent.deliver(live, b"abc"));
    assert_eq!(agent.flush(Err(Errno::BrokenPipe), 1), Flush::Failed);
    assert!(agent.close_from_client(live));
    assert_eq!(agent.flush(Ok(0), 1), Flush::Finished);
    assert!(!agent.close_from_client(live + 1), "another name closes nothing");
    agent.finish_close(Ok(3), 1);
    assert!(!agent.is_serving(), "the last of it was written, and it is forgotten");
}

/// What was sent for a connection that has ended neither reaches nor closes the one that took
/// its place, also where the names have gone round.
#[test]
fn late_bytes_never_reach_the_next_connection() {
    let mut agent = Agent::new();
    let first = open(&mut agent, 0);
    assert_eq!(agent.forget(), Some(first));
    let second = open(&mut agent, 1);
    assert!(agent.deliver(first, b"late"));
    assert_eq!(queued(&agent), 0);
    assert!(!agent.close_from_client(first));
    assert_eq!(agent.generation(), Some(second));
    assert!(agent.deliver(second, b"due"));
    assert_eq!(queued(&agent), 3);
}
