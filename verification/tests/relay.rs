//! The relay.

use nomux::nbio::Errno;
use nomux::poll::Reported;
use nomux::relay::{
    copy_step, progressed, worker_end, worker_status, Events, Finish, FinishStep, Handed, Pump,
    Relay, RelayTask, Report, StatusRead, StdoutStep, Wanted, WorkerEnd, RELAY_CHUNK, STATUS_LEN,
    STDOUT_FLUSH_TIMEOUT, STDOUT_PROGRESS_INTERVAL,
};

/// Nothing was reported.
const QUIET: Events = Events {
    readable: false,
    writable: false,
    broken: false,
    invalid: false,
};
const READABLE: Events = Events {
    readable: true,
    ..QUIET
};
const WRITABLE: Events = Events {
    writable: true,
    ..QUIET
};

/// What a pass does first at or behind `place`.
fn next(relay: &Relay, place: usize, report: Report) -> Option<RelayTask> {
    relay.next(place, report).map(|(task, _)| task)
}

/// Nothing was reported of anything.
const SILENT: Report = Report {
    stdin: QUIET,
    socket: QUIET,
    stdout: QUIET,
};

/// What a pump is holding.
fn held(pump: &Pump) -> Vec<u8> {
    let (front, back) = pump.queue();
    [front, back].concat()
}

/// Every byte goes through, once and in order, whatever the two ends take at a time.
#[test]
fn a_relay_moves_every_byte_in_order() {
    let sent: Vec<u8> = (0..100_000u32).map(|i| (i % 251) as u8).collect();
    let mut relay = Relay::new();
    let mut got = Vec::new();
    let mut at = 0;
    let mut round = 0usize;
    while at < sent.len() || relay.to_socket.has_data() {
        round += 1;
        let typed = Report {
            stdin: READABLE,
            ..SILENT
        };
        if next(&relay, 0, typed) == Some(RelayTask::ReadStdin) && at < sent.len() {
            let n = (sent.len() - at).min(1 + round * 37 % RELAY_CHUNK);
            assert_eq!(relay.stdin_read(Ok(n), &sent[at..at + n]), Ok(true));
            at += n;
        }
        if next(&relay, 1, SILENT) == Some(RelayTask::WriteSocket) {
            let queue = held(&relay.to_socket);
            assert!(queue.len() <= RELAY_CHUNK);
            let n = queue.len().min(1 + round * 53 % 4096);
            got.extend_from_slice(&queue[..n]);
            assert_eq!(relay.socket_wrote(Ok(n)), Handed::Taken);
        }
    }
    assert!(got == sent);
}

/// A source is asked for only while its destination is owed nothing.
#[test]
fn a_source_is_read_only_when_its_destination_is_free() {
    let mut relay = Relay::new();
    assert_eq!(
        relay.wanted(),
        Wanted {
            stdin: true,
            socket_read: true,
            socket_write: false,
            stdout: false
        }
    );
    relay.stdin_read(Ok(3), b"abc").unwrap();
    assert!(!relay.wanted().stdin && relay.wanted().socket_write);
    let typed = Report {
        stdin: READABLE,
        ..SILENT
    };
    assert_eq!(next(&relay, 0, typed), Some(RelayTask::WriteSocket), "stdin waits");
    relay.socket_read(Ok(3), b"xyz").unwrap();
    assert!(!relay.wanted().socket_read && relay.wanted().stdout);
    let hung_up = Report {
        socket: READABLE,
        ..SILENT
    };
    assert_eq!(
        next(&relay, 1, hung_up),
        Some(RelayTask::WriteSocket),
        "a hang-up must not read into a full pump"
    );
}

/// A source ends in four ways, none of them a failure; nothing pending is not one of them.
#[test]
fn a_source_has_four_endings() {
    for ending in [Ok(0), Err(Errno::Io), Err(Errno::Reset), Err(Errno::NotConnected)] {
        let mut relay = Relay::new();
        assert_eq!(relay.socket_read(ending, b""), Ok(false));
        assert!(!relay.socket_open && !relay.is_running());
    }
    let mut relay = Relay::new();
    assert_eq!(relay.socket_read(Err(Errno::Again), b""), Ok(true));
    assert!(relay.socket_open);
    assert_eq!(relay.stdin_read(Err(Errno::Other(5)), b""), Err(Errno::Other(5)));
    assert!(relay.stdin_open, "a failure is the caller's to end on");
    assert_eq!(relay.stdin_read(Ok(0), b""), Ok(false));
    assert!(!relay.stdin_open && relay.is_running(), "output is still to come");
}

/// A stdin that is not open has ended.
#[test]
fn a_closed_stdin_ends_only_its_direction() {
    let mut relay = Relay::new();
    let gone = Events {
        readable: true,
        broken: true,
        invalid: true,
        writable: false,
    };
    let lost = Report {
        stdin: gone,
        ..SILENT
    };
    assert_eq!(next(&relay, 0, lost), Some(RelayTask::CloseStdin));
    relay.close_stdin();
    assert_eq!(next(&relay, 0, lost), None);
    assert!(relay.is_running());
}

/// Whoever stops reading costs what was owed to them, and only that direction.
#[test]
fn a_reader_that_left_is_owed_nothing() {
    let mut relay = Relay::new();
    relay.stdin_read(Ok(3), b"abc").unwrap();
    assert_eq!(relay.socket_wrote(Err(Errno::BrokenPipe)), Handed::Gone);
    assert!(!relay.stdin_open && !relay.to_socket.has_data() && relay.is_running());

    let mut relay = Relay::new();
    relay.socket_read(Ok(3), b"abc").unwrap();
    let room = Report {
        stdout: WRITABLE,
        ..SILENT
    };
    assert_eq!(next(&relay, 0, room), Some(RelayTask::WriteStdout));
    assert_eq!(relay.stdout_wrote(Err(Errno::Interrupted)), Handed::Retry);
    assert_eq!(relay.stdout_wrote(Err(Errno::Again)), Handed::Taken);
    assert_eq!(relay.stdout_wrote(Ok(0)), Handed::WriteZero);
    assert_eq!(relay.stdout_wrote(Err(Errno::Other(28))), Handed::Failed(Errno::Other(28)));
    assert_eq!(relay.to_stdout.owed(), 3);
    assert_eq!(relay.stdout_wrote(Err(Errno::BrokenPipe)), Handed::Gone);
    assert!(!relay.is_running());
}

/// The session's last bytes are handed on before the relay ends.
#[test]
fn a_relay_outlives_its_socket_until_stdout_has_everything() {
    let mut relay = Relay::new();
    relay.socket_read(Ok(4), b"last").unwrap();
    assert!(relay.is_running());
    relay.socket_open = false;
    assert!(relay.is_running(), "four bytes are still owed");
    relay.stdout_wrote(Ok(4));
    assert!(!relay.is_running());
    let mut relay = Relay::new();
    let broken = Events {
        readable: true,
        broken: true,
        invalid: false,
        writable: true,
    };
    let lost = Report {
        stdout: broken,
        ..SILENT
    };
    assert_eq!(next(&relay, 0, lost), Some(RelayTask::CloseStdout));
    relay.close_stdout();
    assert!(!relay.is_running());
    assert_eq!(copy_step(broken), StdoutStep::Closed);
    assert_eq!(copy_step(WRITABLE), StdoutStep::Write);
    assert_eq!(copy_step(QUIET), StdoutStep::Nothing);
}

/// The final flush is spent against the last delivery: a slow stdout is waited for, a
/// stopped one is given up.
#[test]
fn a_slow_stdout_is_waited_for_and_a_stopped_one_is_not() {
    let mut wait = Finish::begin(3, 1_000);
    let window = 1_000 + STDOUT_FLUSH_TIMEOUT;
    assert_eq!(wait.allowance(1_000), Some(STDOUT_PROGRESS_INTERVAL));
    assert_eq!(wait.allowance(window - 5), Some(5));
    assert_eq!(wait.allowance(window), None);
    assert_eq!(wait.came(StatusRead::Nothing, 3, window - 1), FinishStep::Again);
    assert_eq!(wait.allowance(window), None, "nothing moved");
    assert_eq!(wait.came(StatusRead::Nothing, 4, window - 1), FinishStep::Again);
    assert_eq!(wait.allowance(window), Some(STDOUT_PROGRESS_INTERVAL), "something did");
    assert_eq!(wait.came(StatusRead::Bytes(1), 4, window), FinishStep::Again);
    assert_eq!(wait.came(StatusRead::Failed, 4, window), FinishStep::Failed);
    assert_eq!(wait.came(StatusRead::Bytes(0), 4, window), FinishStep::UnexpectedEof);
    assert_eq!(wait.came(StatusRead::Bytes(STATUS_LEN - 1), 4, window), FinishStep::Complete);
}

/// What a worker says of its end is what is made of it.
#[test]
fn a_worker_status_says_how_it_ended() {
    assert_eq!(worker_end(worker_status(false, None)), WorkerEnd::Clean);
    assert_eq!(worker_end(worker_status(true, Some(28))), WorkerEnd::Os(28));
    for errno in [None, Some(0), Some(-3)] {
        assert_eq!(worker_end(worker_status(true, errno)), WorkerEnd::Failed);
    }
    assert_eq!(progressed(7, 10, 4), 8);
    assert_eq!(progressed(7, 10, 10), 7);
    assert_eq!(progressed(u64::MAX, 10, 0), 0);
}

/// A pass goes in its order: stdin, the socket both ways, stdout.
#[test]
fn a_pass_of_the_relay_keeps_its_order() {
    let mut relay = Relay::new();
    let both = Events {
        readable: true,
        writable: true,
        broken: false,
        invalid: false,
    };
    let report = Report {
        stdin: READABLE,
        socket: both,
        stdout: WRITABLE,
    };
    assert_eq!(relay.next(0, report), Some((RelayTask::ReadStdin, 1)));
    relay.stdin_read(Ok(1), b"a").unwrap();
    assert_eq!(relay.next(1, report), Some((RelayTask::ReadSocket, 2)));
    relay.socket_read(Ok(1), b"b").unwrap();
    assert_eq!(relay.next(2, report), Some((RelayTask::WriteSocket, 3)));
    assert_eq!(relay.next(3, report), Some((RelayTask::WriteStdout, 4)));
    assert_eq!(relay.next(4, report), None);
}

/// What the poll reports of a descriptor, as the relay goes by it.
#[test]
fn a_report_is_read_flag_by_flag() {
    let silent = Reported {
        input: false,
        output: false,
        error: false,
        hang_up: false,
        invalid: false,
    };
    assert_eq!(Events::of(silent), QUIET);
    assert_eq!(Events::of(Reported { input: true, ..silent }), READABLE);
    assert_eq!(Events::of(Reported { output: true, ..silent }), WRITABLE);
    let broken = Events {
        readable: true,
        broken: true,
        ..QUIET
    };
    assert_eq!(Events::of(Reported { hang_up: true, ..silent }), broken);
    assert_eq!(Events::of(Reported { error: true, ..silent }), broken);
    assert_eq!(
        Events::of(Reported { invalid: true, ..silent }),
        Events {
            invalid: true,
            ..broken
        }
    );
}

/// Both directions at once, over reads and writes that fall as they like: what each end took,
/// followed by what it is still owed, is what the other said.
#[test]
fn each_end_is_handed_what_the_other_said() {
    let mut relay = Relay::new();
    let (mut typed, mut told) = (Vec::new(), Vec::new());
    let (mut to_socket, mut to_stdout) = (Vec::new(), Vec::new());
    let took = |queue: Vec<u8>, result: Result<usize, Errno>, into: &mut Vec<u8>| {
        if let Ok(n) = result {
            into.extend_from_slice(&queue[..n.min(queue.len())]);
        }
    };
    for round in 0..400usize {
        let chunk: Vec<u8> = (0..round * 7 % 50).map(|i| (round + i) as u8).collect();
        let read = match round % 5 {
            3 => Err(Errno::Again),
            _ if chunk.is_empty() => Err(Errno::Again),
            _ => Ok(chunk.len() - round % 2),
        };
        let write = match round % 3 {
            0 => Err(Errno::Interrupted),
            1 => Ok(1 + round % 11),
            _ => Ok(64),
        };
        if relay.wanted().stdin && read != Ok(0) {
            assert_eq!(relay.stdin_read(read, &chunk), Ok(true));
            typed.extend_from_slice(&chunk[..read.unwrap_or(0)]);
        }
        if relay.wanted().socket_read && round % 2 == 0 && read != Ok(0) {
            assert_eq!(relay.socket_read(read, &chunk), Ok(true));
            told.extend_from_slice(&chunk[..read.unwrap_or(0)]);
        }
        took(held(&relay.to_socket), write, &mut to_socket);
        relay.socket_wrote(write);
        if round % 4 == 1 {
            took(held(&relay.to_stdout), write, &mut to_stdout);
            relay.stdout_wrote(write);
        }
        assert_eq!([to_socket.clone(), held(&relay.to_socket)].concat(), typed);
        assert_eq!([to_stdout.clone(), held(&relay.to_stdout)].concat(), told);
    }
    assert!(to_socket.len() > 1000 && to_stdout.len() > 100);
    // A peer that has gone is owed nothing more, and what it took stays the beginning of it.
    assert!(relay.wanted().stdin || relay.to_socket.has_data());
    if !relay.to_socket.has_data() {
        assert_eq!(relay.stdin_read(Ok(3), b"abc"), Ok(true));
        typed.extend_from_slice(b"abc");
    }
    assert_eq!(relay.socket_wrote(Err(Errno::BrokenPipe)), Handed::Gone);
    assert!(!relay.to_socket.has_data() && !relay.stdin_open);
    assert!(typed.starts_with(&to_socket));
}
