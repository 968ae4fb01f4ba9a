//! What a relay has carried, told whole: however its reads and writes fall, each end is
//! handed what the other said, byte for byte and in order.
use vstd::prelude::*;

use crate::nbio::{drained_by, Errno};
use crate::relay::{destination, Handed, RelayModel, RELAY_CHUNK};

verus! {

/// Something that happens to a relay.
pub enum Turn {
    /// Stdin was read, the chunk holding what arrived.
    StdinRead { result: Result<usize, Errno>, chunk: Seq<u8> },
    /// The socket was read.
    SocketRead { result: Result<usize, Errno>, chunk: Seq<u8> },
    /// The socket was written.
    SocketWrote(Result<usize, Errno>),
    /// Stdout was written.
    StdoutWrote(Result<usize, Errno>),
    /// Stdin turned out not to be open.
    StdinClosed,
    /// Stdout turned out to be gone.
    StdoutClosed,
}

/// After one turn.
pub open spec fn turned(relay: RelayModel, turn: Turn) -> RelayModel {
    match turn {
        Turn::StdinRead { result, chunk } => relay.after_stdin_read(result, chunk),
        Turn::SocketRead { result, chunk } => relay.after_socket_read(result, chunk),
        Turn::SocketWrote(result) => relay.after_socket_wrote(result),
        Turn::StdoutWrote(result) => relay.after_stdout_wrote(result),
        Turn::StdinClosed => relay.without_stdin(),
        Turn::StdoutClosed => relay.without_stdout(),
    }
}

/// A read reports no more than its chunk holds, and the chunk is one transfer at most.
pub open spec fn fits(result: Result<usize, Errno>, chunk: Seq<u8>) -> bool {
    &&& chunk.len() <= RELAY_CHUNK
    &&& result matches Ok(n) ==> n <= chunk.len()
}

/// Whether a turn can come about: stdin is read while it is wanted, and the socket while
/// stdout is there and owed nothing.
pub open spec fn may_turn(relay: RelayModel, turn: Turn) -> bool {
    match turn {
        Turn::StdinRead { result, chunk } => relay.wanted().stdin && fits(result, chunk),
        Turn::SocketRead { result, chunk } => relay.stdout_open && relay.to_stdout.len() == 0
            && fits(result, chunk),
        _ => true,
    }
}

/// After several turns, the first of them first.
pub open spec fn turned_all(relay: RelayModel, turns: Seq<Turn>) -> RelayModel
    decreases turns.len(),
{
    if turns.len() == 0 {
        relay
    } else {
        turned_all(turned(relay, turns[0]), turns.drop_first())
    }
}

/// Whether several turns can come about in a row.
pub open spec fn may_turn_all(relay: RelayModel, turns: Seq<Turn>) -> bool
    decreases turns.len(),
{
    turns.len() > 0 ==> {
        &&& may_turn(relay, turns[0])
        &&& may_turn_all(turned(relay, turns[0]), turns.drop_first())
    }
}

/// What a read brought.
pub open spec fn brought(result: Result<usize, Errno>, chunk: Seq<u8>) -> Seq<u8> {
    match result {
        Ok(n) => chunk.take(n as int),
        Err(_) => Seq::empty(),
    }
}

/// What a write took of a queue.
pub open spec fn took(queue: Seq<u8>, result: Result<usize, Errno>) -> Seq<u8> {
    queue.take(drained_by(queue.len(), result) as int)
}

/// Everything stdin said.
pub open spec fn said_by_stdin(turns: Seq<Turn>) -> Seq<u8>
    decreases turns.len(),
{
    if turns.len() == 0 {
        Seq::empty()
    } else {
        (match turns[0] {
            Turn::StdinRead { result, chunk } => brought(result, chunk),
            _ => Seq::empty(),
        }) + said_by_stdin(turns.drop_first())
    }
}

/// Everything the socket said.
pub open spec fn said_by_socket(turns: Seq<Turn>) -> Seq<u8>
    decreases turns.len(),
{
    if turns.len() == 0 {
        Seq::empty()
    } else {
        (match turns[0] {
            Turn::SocketRead { result, chunk } => brought(result, chunk),
            _ => Seq::empty(),
        }) + said_by_socket(turns.drop_first())
    }
}

/// Everything the socket took.
pub open spec fn taken_by_socket(relay: RelayModel, turns: Seq<Turn>) -> Seq<u8>
    decreases turns.len(),
{
    if turns.len() == 0 {
        Seq::empty()
    } else {
        (match turns[0] {
            Turn::SocketWrote(result) => took(relay.to_socket, result),
            _ => Seq::empty(),
        }) + taken_by_socket(turned(relay, turns[0]), turns.drop_first())
    }
}

/// Everything stdout took.
pub open spec fn taken_by_stdout(relay: RelayModel, turns: Seq<Turn>) -> Seq<u8>
    decreases turns.len(),
{
    if turns.len() == 0 {
        Seq::empty()
    } else {
        (match turns[0] {
            Turn::StdoutWrote(result) => took(relay.to_stdout, result),
            _ => Seq::empty(),
        }) + taken_by_stdout(turned(relay, turns[0]), turns.drop_first())
    }
}

/// Whether the socket's peer turned out to have stopped reading.
pub open spec fn socket_lost(relay: RelayModel, turns: Seq<Turn>) -> bool
    decreases turns.len(),
{
    turns.len() > 0 && {
        ||| turns[0] matches Turn::SocketWrote(result) && destination(relay.to_socket.len(), result)
            == Handed::Gone
        ||| socket_lost(turned(relay, turns[0]), turns.drop_first())
    }
}

/// Whether whoever was reading stdout turned out to have gone.
pub open spec fn stdout_lost(relay: RelayModel, turns: Seq<Turn>) -> bool
    decreases turns.len(),
{
    turns.len() > 0 && {
        ||| turns[0] matches Turn::StdoutWrote(result) && destination(relay.to_stdout.len(), result)
            == Handed::Gone
        ||| stdout_lost(turned(relay, turns[0]), turns.drop_first())
    }
}

/// A write parts a queue into what it took and what is left.
proof fn lemma_parted(queue: Seq<u8>, result: Result<usize, Errno>)
    ensures
        took(queue, result) + queue.skip(drained_by(queue.len(), result) as int) == queue,
{
    assert(took(queue, result) + queue.skip(drained_by(queue.len(), result) as int) =~= queue);
}

/// Nothing more is taken by a peer that is owed nothing and for which stdin is not read.
proof fn lemma_socket_silent(relay: RelayModel, turns: Seq<Turn>)
    requires
        relay.to_socket.len() == 0,
        !relay.stdin_open,
        may_turn_all(relay, turns),
    ensures
        taken_by_socket(relay, turns) == Seq::<u8>::empty(),
        said_by_stdin(turns) == Seq::<u8>::empty(),
    decreases turns.len(),
{
    if turns.len() > 0 {
        lemma_socket_silent(turned(relay, turns[0]), turns.drop_first());
    }
}

/// Nothing more is taken by a stdout that is owed nothing and not written any more.
proof fn lemma_stdout_silent(relay: RelayModel, turns: Seq<Turn>)
    requires
        relay.to_stdout.len() == 0,
        !relay.stdout_open,
        may_turn_all(relay, turns),
    ensures
        taken_by_stdout(relay, turns) == Seq::<u8>::empty(),
        said_by_socket(turns) == Seq::<u8>::empty(),
    decreases turns.len(),
{
    if turns.len() > 0 {
        lemma_stdout_silent(turned(relay, turns[0]), turns.drop_first());
    }
}

/// However the reads and writes fall, what the socket took followed by what it is still owed
/// is what it was owed at first followed by everything stdin said. Where its peer has
/// stopped reading, what it took is still the beginning of that.
pub proof fn the_socket_is_handed_what_stdin_said(relay: RelayModel, turns: Seq<Turn>)
    requires
        relay.wf(),
        may_turn_all(relay, turns),
    ensures
        turned_all(relay, turns).wf(),
        !socket_lost(relay, turns) ==> taken_by_socket(relay, turns) + turned_all(
            relay,
            turns,
        ).to_socket == relay.to_socket + said_by_stdin(turns),
        taken_by_socket(relay, turns).is_prefix_of(relay.to_socket + said_by_stdin(turns)),
    decreases turns.len(),
{
    let due = relay.to_socket + said_by_stdin(turns);
    if turns.len() == 0 {
        assert(Seq::<u8>::empty() + relay.to_socket =~= due);
    } else {
        let next = turned(relay, turns[0]);
        let rest = turns.drop_first();
        let then = taken_by_socket(next, rest);
        the_socket_is_handed_what_stdin_said(next, rest);
        match turns[0] {
            Turn::SocketWrote(result) => {
                let now = took(relay.to_socket, result);
                lemma_parted(relay.to_socket, result);
                if destination(relay.to_socket.len(), result) == Handed::Gone {
                    lemma_socket_silent(next, rest);
                    assert(now + then =~= now);
                } else {
                    assert(now + (next.to_socket + said_by_stdin(rest)) =~= due);
                    assert(now + (then + turned_all(next, rest).to_socket) =~= (now + then)
                        + turned_all(next, rest).to_socket);
                }
            },
            _ => {
                assert(next.to_socket + said_by_stdin(rest) =~= due);
                assert(taken_by_socket(relay, turns) =~= then);
            },
        }
    }
}

/// However the reads and writes fall, what stdout took followed by what it is still owed is
/// what it was owed at first followed by everything the socket said. Where its reader has
/// gone, what it took is still the beginning of that.
pub proof fn stdout_is_handed_what_the_socket_said(relay: RelayModel, turns: Seq<Turn>)
    requires
        relay.wf(),
        may_turn_all(relay, turns),
    ensures
        turned_all(relay, turns).wf(),
        !stdout_lost(relay, turns) ==> taken_by_stdout(relay, turns) + turned_all(
            relay,
            turns,
        ).to_stdout == relay.to_stdout + said_by_socket(turns),
        taken_by_stdout(relay, turns).is_prefix_of(relay.to_stdout + said_by_socket(turns)),
    decreases turns.len(),
{
    let due = relay.to_stdout + said_by_socket(turns);
    if turns.len() == 0 {
        assert(Seq::<u8>::empty() + relay.to_stdout =~= due);
    } else {
        let next = turned(relay, turns[0]);
        let rest = turns.drop_first();
        let then = taken_by_stdout(next, rest);
        stdout_is_handed_what_the_socket_said(next, rest);
        match turns[0] {
            Turn::StdoutWrote(result) => {
                let now = took(relay.to_stdout, result);
                lemma_parted(relay.to_stdout, result);
                if destination(relay.to_stdout.len(), result) == Handed::Gone {
                    lemma_stdout_silent(next, rest);
                    assert(now + then =~= now);
                } else {
                    assert(now + (next.to_stdout + said_by_socket(rest)) =~= due);
                    assert(now + (then + turned_all(next, rest).to_stdout) =~= (now + then)
                        + turned_all(next, rest).to_stdout);
                }
            },
            _ => {
                assert(next.to_stdout + said_by_socket(rest) =~= due);
                assert(taken_by_stdout(relay, turns) =~= then);
            },
        }
    }
}

} // verus!
