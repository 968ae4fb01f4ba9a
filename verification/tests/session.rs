//! A session, driven as the event loop drives it.

use nomux::agent::{Accept, Agent, Arrival};
use nomux::conn::{Received, Step, Written, MAX_PENDING_WRITE};
use nomux::greet::{Admission, Attempt, Greeting, Knock, Opening, Settling};
use nomux::line::Line;
use nomux::nbio::{Drained, Errno, ReadOutcome};
use nomux::poll::{Ready, Reported, Task};
use nomux::refusal::Refusal;
use nomux::ring::Ring;
use nomux::serve::{Effect, Heard};
use nomux::session::{
    ring_capacity, Attached, Interest, Session, Source, StopReason, Waiting,
    ABANDON_PENDING_WRITE, ACCEPT_BACKOFF, DEFAULT_RING_CAPACITY, FIRST_ATTACH_TIMEOUT, IDLE_TICK,
    IDLE_TIMEOUT, MAX_PENDING_INPUT, MAX_RING_CAPACITY, OUTCOME_GRACE, PENDING_HELLO_TIMEOUT,
};
use nomux::terminal::Wait;
use nomux::{
    ErrorCode, ExitKind, Frame, Hello, HelloOk, WinSize, HEADER_LEN, MAX_OUTPUT_DATA,
    PROTOCOL_VERSION, RESUME_FROM_START, SERVER_PREAMBLE,
};

const SECOND: u64 = 1_000_000_000;

const WIN: WinSize = WinSize {
    cols: 80,
    rows: 24,
    xpixel: 0,
    ypixel: 0,
};

/// Nothing is ready.
const QUIET: Ready = Ready {
    stop: false,
    child: false,
    terminal: false,
    client: false,
    client_hung_up: false,
    pending: false,
    listener: false,
    agent_channel: false,
    agent_listener: false,
};

/// A session with no terminal, no client and no agent.
fn blank() -> Session {
    Session::new(Ring::try_new(1024).expect("a small ring"), 0)
}

/// The same with a terminal, so an arriving greeting resumes a session rather than starting
/// one.
fn running() -> Session {
    let mut session = blank();
    session.started = true;
    session
}

fn encoded(frame: &Frame<'_>) -> Vec<u8> {
    let mut wire = Vec::new();
    frame.encode(&mut wire).expect("a valid frame");
    wire
}

/// What a connection is sent, the preamble first.
fn said(frames: &[Frame<'_>]) -> Vec<u8> {
    let mut wire = SERVER_PREAMBLE.to_vec();
    for frame in frames {
        frame.encode(&mut wire).expect("a valid frame");
    }
    wire
}

fn refusal(code: ErrorCode, message: &str) -> Vec<u8> {
    said(&[Frame::Error { code, message }])
}

fn hello(out_offset: u64) -> Hello<'static> {
    Hello {
        protocol: PROTOCOL_VERSION,
        agent_forward: false,
        repaint_ctrl_l: false,
        if_detached: false,
        out_offset,
        win: WIN,
        term: "dumb",
    }
}

/// The sockets of a session, and what went over them.
struct Host {
    session: Session,
    now: u64,
    /// What the client wrote and nobody read yet.
    client: Vec<u8>,
    /// What the connection that has not greeted wrote and nobody read yet.
    pending: Vec<u8>,
    /// What each connection that left was owed when it did.
    left: Vec<Vec<u8>>,
    /// What starting the session comes to.
    attempt: Attempt,
}

impl Host {
    fn new(session: Session) -> Host {
        Host {
            session,
            now: SECOND,
            client: Vec::new(),
            pending: Vec::new(),
            left: Vec::new(),
            attempt: Attempt {
                agent_bound: false,
                spawned: true,
            },
        }
    }

    fn attach(&mut self) {
        self.session.client = Some(Attached::greeting(Line::new()));
    }

    fn knock(&mut self) {
        let ours = Knock::Connection {
            ours: true,
            usable: true,
        };
        assert!(!self.session.accept(ours, self.now));
    }

    fn leave(&mut self, line: Option<Line>) {
        if let Some(line) = line {
            self.left.push(line.pending().to_vec());
        }
    }

    /// Everything queued to the client.
    fn queued(&self) -> Vec<u8> {
        let client = self.session.client.as_ref().expect("a client");
        client.line.pending().to_vec()
    }

    fn read_client(&mut self) {
        if self.session.client_wants_fill() {
            let bytes = std::mem::take(&mut self.client);
            if !bytes.is_empty() {
                let (step, left) = self.session.fill_client(Received::Bytes(&bytes), self.now);
                assert_ne!(step, Step::Failed);
                assert!(left.is_none());
            }
        }
        let mut scratch = Vec::new();
        loop {
            match self.session.read_client(&mut scratch, self.now) {
                Heard::AgentClosing => {
                    self.session.finish_agent_close(Err(Errno::Again), self.now);
                }
                Heard::Gone(line) => return self.leave(Some(line)),
                Heard::Absent | Heard::Held | Heard::Idle => return,
            }
        }
    }

    fn read_pending(&mut self) {
        let bytes = std::mem::take(&mut self.pending);
        if !bytes.is_empty() {
            self.session.fill_pending(Received::Bytes(&bytes));
        }
        match self.session.read_pending(&mut Vec::new()) {
            Opening::Refused(line) => self.leave(Some(line)),
            Opening::Greets(greeting) => {
                let mut handed = false;
                let mut step = self.session.first_settling();
                while step != Settling::Settled {
                    match step {
                        Settling::Drain | Settling::ReadOn => self.read_client(),
                        Settling::HandOver => match self.session.hand_over(&greeting, self.now) {
                            Admission::Refused(line) => self.leave(line),
                            Admission::Admitted(line) => {
                                self.leave(line);
                                handed = true;
                            }
                        },
                        Settling::Start => assert!(!self.session.started),
                        Settling::Welcome => {
                            let left = self.session.on_hello(&greeting, self.attempt, self.now);
                            self.leave(left);
                        }
                        Settling::Settled => unreachable!(),
                    }
                    step = self.session.next_settling(step, handed);
                }
            }
            Opening::Absent | Opening::Waiting | Opening::Closed => {}
        }
    }

    /// One pass of the loop over sockets that take nothing.
    fn pass(&mut self, ready: Ready) -> Vec<Task> {
        self.session.notice(&ready);
        let mut done = Vec::new();
        let mut place = 0;
        while let Some((task, next)) = self.session.poll_once(place, &ready) {
            place = next;
            done.push(task);
            match task {
                Task::ReadClient | Task::ReadBacklog => self.read_client(),
                Task::DropClient => {
                    let left = self.session.drop_client(self.now);
                    self.leave(left);
                }
                Task::ReadPending => self.read_pending(),
                Task::PumpOutput => {
                    self.session.pump_output(self.now);
                }
                Task::WriteClient => {
                    let left = self.session.write_client(Step::Done, self.now);
                    self.leave(left);
                }
                _ => {}
            }
        }
        done
    }
}

/// Takes `n` bytes of what is queued to the client.
fn deliver(session: &mut Session, n: usize) {
    let _ = session.flush_client(Written::Took(n));
}

#[test]
fn ctrl_l_repaint_waits_for_input_queue_room() {
    let mut session = blank();
    let mut client = Attached::greeting(Line::new());
    client.repaint_ctrl_l = true;
    client.repaint_due = true;
    session.client = Some(client);
    session.pending_input.resize(MAX_PENDING_INPUT, b'x');

    session.pump_output(0);
    assert_eq!(session.pending_input.len(), MAX_PENDING_INPUT);
    assert!(session
        .client
        .as_ref()
        .is_some_and(|client| client.repaint_due));

    session.pending_input.pop_front();
    session.pump_output(0);
    assert_eq!(session.pending_input.len(), MAX_PENDING_INPUT);
    assert_eq!(session.pending_input.back(), Some(&0x0c));
    assert!(!session
        .client
        .as_ref()
        .is_some_and(|client| client.repaint_due));
}

/// A takeover keeps what the client it evicts had already delivered: one poll can report both
/// a readable client and, from the connection replacing it, the greeting that evicts it.
#[test]
fn a_takeover_keeps_the_input_the_client_it_evicts_had_delivered() {
    const TYPED: &[u8] = b"the last keystrokes";

    let mut host = Host::new(running());
    host.attach();
    host.client = encoded(&Frame::Input {
        offset: 0,
        data: TYPED,
    });
    host.knock();
    host.pending = encoded(&Frame::Hello(hello(RESUME_FROM_START)));

    host.pass(Ready {
        client: true,
        pending: true,
        ..QUIET
    });

    assert!(
        host.session.pending.is_none() && host.session.client.is_some(),
        "the arriving connection never took the session, so nothing here was a takeover"
    );
    assert_eq!(
        host.left,
        [said(&[
            Frame::InputAck {
                applied_through: TYPED.len() as u64,
            },
            Frame::Error {
                code: ErrorCode::Takeover,
                message: "another client attached",
            },
        ])],
        "the evicted connection was not acknowledged and told why it was evicted"
    );
    assert_eq!(
        host.session.in_applied,
        TYPED.len() as u64,
        "the bytes this client delivered before the takeover went with the connection"
    );
    assert_eq!(
        host.queued(),
        said(&[Frame::HelloOk(HelloOk {
            resume_from: 0,
            in_applied: TYPED.len() as u64,
            agent: false,
        })])
    );
}

/// A conditional greeting decides against the attached slot after the incumbent's final
/// read: a `Detach` already in that connection gives the session up before the newcomer asks.
#[test]
fn a_detach_in_the_same_wakeup_frees_the_slot_for_a_conditional_hello() {
    let mut host = Host::new(running());
    host.attach();
    host.client = encoded(&Frame::Detach);
    host.knock();
    host.pending = encoded(&Frame::Hello(Hello {
        if_detached: true,
        ..hello(RESUME_FROM_START)
    }));

    host.pass(Ready {
        client: true,
        pending: true,
        ..QUIET
    });

    assert_eq!(host.left, [Vec::<u8>::new()], "Detach must close without a refusal");
    assert!(
        host.session.pending.is_none() && host.session.client.is_some(),
        "the conditional newcomer was not promoted after the Detach"
    );
    assert_eq!(
        host.queued(),
        said(&[Frame::HelloOk(HelloOk {
            resume_from: 0,
            in_applied: 0,
            agent: false,
        })]),
        "the newcomer was refused even though the incumbent had detached"
    );
}

/// A write half closed behind an incomplete frame can never become clean: it must release
/// the attached slot rather than keep the session non-idle for ever.
#[test]
fn an_eof_mid_frame_releases_the_client() {
    let mut host = Host::new(blank());
    host.attach();
    let detached_before = host.session.last_detach;

    let wire = encoded(&Frame::Input {
        offset: 0,
        data: b"never complete",
    });
    host.client = wire[..=HEADER_LEN].to_vec();
    host.read_client();
    assert!(host.session.client.is_some(), "more may still come");
    let (step, left) = host.session.fill_client(Received::Bytes(b""), host.now);
    assert_eq!(step, Step::Done);
    assert!(left.is_none());
    host.read_client();

    assert!(host.session.client.is_none(), "the invalid client kept the slot");
    assert!(
        host.session.last_detach > detached_before,
        "releasing the client must arm detached-session reaping"
    );
    assert_eq!(
        host.left,
        [refusal(ErrorCode::Protocol, "truncated frame at end of input")],
        "the peer must learn that its half-close was not a clean input EOF"
    );
}

/// A refusal costs what a departure does, and a queue the socket still has room for carries
/// the diagnostic out.
#[test]
fn a_refusal_costs_the_session_no_more_than_a_departure() {
    let mut host = Host::new(blank());
    host.attach();
    let payload = vec![b'x'; MAX_OUTPUT_DATA];
    let client = host.session.client.as_mut().expect("the attached client");
    while client.line.queued() < MAX_PENDING_WRITE {
        client.line.say(&Frame::Output {
            offset: 0,
            data: &payload,
        });
    }
    let before = client.line.pending().to_vec();
    assert!(before.len() >= MAX_PENDING_WRITE, "the queue has to be full");
    host.client = encoded(&Frame::Pong);
    host.read_client();
    assert!(host.session.client.is_none(), "the refused client kept the slot");
    let refused = Frame::Error {
        code: ErrorCode::Protocol,
        message: "frame is not valid from a client",
    };
    assert_eq!(host.left, [[before, encoded(&refused)].concat()]);

    host.attach();
    host.client = encoded(&Frame::Pong);
    host.read_client();
    assert_eq!(
        host.left[1],
        said(&[refused]),
        "a queue the socket still has room for must carry the diagnostic out"
    );
}

/// A child signal is noted by the pass that carried it, and spent by the question it pays
/// for.
#[test]
fn a_child_signal_is_taken_back_out_of_the_pipe_that_carried_it() {
    let mut host = Host::new(blank());
    assert!(
        host.session.watch_for(Source::Child).is_some(),
        "a pipe nothing is wrong with belongs in the poll set"
    );
    host.session.notice(&Ready {
        child: true,
        ..QUIET
    });
    assert!(host.session.child_signalled);
    host.session.collect_outcome(Some(Wait::Running), 0);
    assert!(!host.session.child_signalled, "spent, whatever came back");
}

/// When a `waitpid` is worth its cost.
#[test]
fn a_waitpid_is_asked_for_only_where_something_says_it_may_be_ready() {
    let mut session = running();
    assert!(
        !session.worth_a_waitpid(true),
        "a running child answers nothing to every one of these"
    );

    session.child_signalled = true;
    assert!(session.worth_a_waitpid(true));

    session.child_signalled = false;
    session.terminal_closed_at = Some(5);
    assert!(session.worth_a_waitpid(true));

    session.outcome = Some((0, ExitKind::Unknown));
    assert!(
        session.worth_a_waitpid(true),
        "a reported outcome must not end the asking after a child nothing has observed"
    );
    assert!(!session.worth_a_waitpid(false));
}

/// A blank session with an agent socket.
fn with_agent() -> Session {
    let mut session = blank();
    session.agent = Some(Agent::new());
    session
}

#[test]
fn the_agent_listener_leaves_the_poll_set_while_its_accept_backoff_is_armed() {
    let mut session = with_agent();
    assert!(
        session.watch_for(Source::AgentListener).is_some(),
        "a listener nothing is wrong with is in the set"
    );

    assert_eq!(session.accept_agent(Arrival::Failed, 0), Accept::Failed);
    assert_eq!(session.agent_accept_retry, Some(ACCEPT_BACKOFF));
    assert!(
        session.watch_for(Source::AgentListener).is_none(),
        "leaving the set is the only way to stand back from a readable descriptor"
    );
    assert!(
        session.watch_for(Source::Listener).is_some(),
        "and the session socket, which is answering perfectly well, stays in it"
    );

    let (secs, nanos) = session.poll_timeout(1);
    assert_eq!(secs, 0, "the loop must not sleep past the backoff");
    assert!(
        nanos > 0 && nanos <= i64::try_from(ACCEPT_BACKOFF).unwrap(),
        "a listener nothing else wakes up for needs a wakeup of its own"
    );
    session.expire(ACCEPT_BACKOFF);
    assert!(session.watch_for(Source::AgentListener).is_some());
}

#[test]
fn a_served_agent_connection_holds_the_listener_out_and_sets_the_next_wakeup() {
    let mut session = with_agent();
    // Attached, so the deadline under test is not shadowed by the session's own.
    session.client = Some(Attached::greeting(Line::new()));
    let arrived = Arrival::Connection {
        ours: true,
        usable: true,
    };
    assert_eq!(
        session.accept_agent(arrived, 0),
        Accept::Opened(0),
        "the slot was free, so this one is served"
    );

    assert!(
        session.watch_for(Source::AgentListener).is_none(),
        "a backlog nothing is willing to accept from is a poll that returns at once"
    );
    assert!(
        session.watch_for(Source::AgentChannel).is_some(),
        "and the connection being served is what the loop watches in its place"
    );
    let (secs, _) = session.poll_timeout(1);
    assert!(
        (55..60).contains(&secs),
        "the loop slept {secs}s, past the deadline that is the only thing able to give the \
         slot back"
    );
    assert_eq!(
        session.client.as_ref().unwrap().line.pending(),
        said(&[Frame::AgentOpen { generation: 0 }])
    );
}

/// A value past the ceiling is capped, not defaulted.
#[test]
fn a_ring_capacity_past_the_ceiling_is_clamped_rather_than_defaulted() {
    assert_eq!(ring_capacity(Some("99999999999999999")), MAX_RING_CAPACITY);
    assert_eq!(ring_capacity(Some(" 8192 ")), 8192);
    for refused in [None, Some("0"), Some("-1"), Some("many")] {
        assert_eq!(
            ring_capacity(refused),
            DEFAULT_RING_CAPACITY,
            "{refused:?} is not a tuning choice and must fall back"
        );
    }
    assert_eq!(ring_capacity(Some("+7")), 7);
    assert_eq!(
        ring_capacity(Some("999999999999999999999")),
        DEFAULT_RING_CAPACITY,
        "more than can be counted is no number"
    );
}

// ---------------------------------------------------------------------------
// Input
// ---------------------------------------------------------------------------

/// What is queued for the terminal.
fn typed(session: &Session) -> Vec<u8> {
    session.pending_input.iter().copied().collect()
}

/// However a stream of input is cut, overlapped and sent again, the terminal is given it
/// once.
#[test]
fn input_is_applied_exactly_once_however_it_is_sent() {
    let stream = b"the quick brown fox";
    let mut session = running();
    session.client = Some(Attached::greeting(Line::new()));
    for (from, to) in [(0, 4), (0, 4), (2, 9), (5, 8), (9, 9), (0, 19), (18, 19)] {
        let effect = session.on_input(from as u64, &stream[from..to], 0);
        assert!(matches!(effect, Effect::Nothing));
        let applied = session.in_applied as usize;
        assert_eq!(typed(&session), &stream[..applied]);
    }
    assert_eq!(session.in_applied, 19);
    let acks = session.client.as_ref().unwrap().line.pending().to_vec();
    assert!(acks.ends_with(&encoded(&Frame::InputAck { applied_through: 19 })));
}

#[test]
fn input_that_skips_ahead_ends_the_connection() {
    let mut session = running();
    session.client = Some(Attached::greeting(Line::new()));
    session.on_input(0, b"ab", 0);
    let Effect::Gone(line) = session.on_input(3, b"d", 7) else {
        panic!("a hole in the input was accepted");
    };
    assert!(line.pending().ends_with(&encoded(&Frame::Error {
        code: ErrorCode::InputGap,
        message: "input stream skipped ahead",
    })));
    assert_eq!((session.in_applied, typed(&session)), (2, b"ab".to_vec()));
    assert_eq!(session.last_detach, 7);
}

/// Past the terminal's end input is acknowledged and kept nowhere.
#[test]
fn input_behind_a_closed_terminal_is_taken_and_dropped() {
    let mut session = running();
    session.client = Some(Attached::greeting(Line::new()));
    session.on_input(0, b"ab", 0);
    session.on_terminal_closed(3);
    assert!(typed(&session).is_empty());
    session.on_input(2, b"cd", 0);
    assert_eq!(session.in_applied, 4);
    assert!(typed(&session).is_empty());
    session.on_terminal_closed(9);
    assert_eq!(session.terminal_closed_at, Some(3), "it closes once");
}

/// A terminal that takes nothing stops the decoding, not the reading of what was said.
#[test]
fn a_full_input_queue_holds_what_is_behind_it() {
    let mut host = Host::new(running());
    host.attach();
    host.session.pending_input.resize(MAX_PENDING_INPUT, b'x');
    host.client = [encoded(&Frame::Ping), encoded(&Frame::Detach)].concat();
    host.read_client();
    assert!(host.session.client.is_some());
    assert!(host.queued().is_empty(), "not even a ping is answered");
    assert_eq!(
        host.session.watch_for(Source::Client),
        Some(Interest {
            read: false,
            write: false
        }),
        "and no more is read, though a hang-up is still reported"
    );

    assert_eq!(host.session.write_pty(Ok(1)), Drained::Done);
    assert!(host.session.input_backlog());
    host.pass(QUIET);
    assert!(host.session.client.is_none(), "the room let the rest through");
}

/// A failed write costs the queue and nothing more.
#[test]
fn a_terminal_that_cannot_be_written_costs_the_queue() {
    let mut session = running();
    session.pending_input.extend(b"abc");
    assert_eq!(session.write_pty(Err(Errno::Interrupted)), Drained::Retry);
    assert_eq!(session.write_pty(Err(Errno::Again)), Drained::Done);
    assert_eq!(session.write_pty(Ok(2)), Drained::Done);
    assert_eq!(typed(&session), b"c");
    assert_eq!(session.write_pty(Err(Errno::Io)), Drained::Failed(Errno::Io));
    assert!(typed(&session).is_empty());
    assert_eq!(session.terminal_closed_at, None);
}

// ---------------------------------------------------------------------------
// Output
// ---------------------------------------------------------------------------

/// The frames in a row of bytes.
fn frames(wire: &[u8]) -> Vec<(u64, Vec<u8>)> {
    let mut rest = wire.strip_prefix(&SERVER_PREAMBLE).expect("the preamble");
    let mut out = Vec::new();
    while !rest.is_empty() {
        let header = nomux::decode_header(rest[..HEADER_LEN].try_into().unwrap()).unwrap();
        let (payload, behind) = rest[HEADER_LEN..].split_at(header.len as usize);
        match Frame::decode(header.ty, payload).unwrap() {
            Frame::Output { offset, data } => out.push((offset, data.to_vec())),
            Frame::Gap { new_base_offset } => out.push((new_base_offset, b"GAP".to_vec())),
            Frame::Exit { since_terminal_closed_secs, .. } => {
                out.push((u64::from(since_terminal_closed_secs), b"EXIT".to_vec()));
            }
            other => panic!("unexpected {other:?}"),
        }
        rest = behind;
    }
    out
}

fn write(session: &mut Session, data: &[u8]) {
    assert!(session
        .read_pty(ReadOutcome::Data(data.len()), data, 0)
        .is_none());
}

/// A client is sent what the terminal wrote, contiguously, whatever the ring's halves are.
#[test]
fn output_is_sent_without_a_hole() {
    let mut session = running();
    session.client = Some(Attached::greeting(Line::new()));
    let mut got = Vec::new();
    let mut next = 0;
    for round in 0..40u8 {
        write(&mut session, &[round; 77]);
        session.pump_output(0);
        let wire = session.client.as_ref().unwrap().line.pending().to_vec();
        let wire = if round == 0 {
            wire
        } else {
            [&SERVER_PREAMBLE[..], &wire].concat()
        };
        for (offset, data) in frames(&wire) {
            assert_eq!(offset, next);
            next += data.len() as u64;
            got.extend(data);
        }
        let n = session.client.as_ref().unwrap().line.queued();
        deliver(&mut session, n);
    }
    let sent: Vec<u8> = (0..40u8).flat_map(|round| [round; 77]).collect();
    assert!(got == sent);
}

/// A client the ring has overtaken is told so before anything else, and is owed a repaint
/// once it holds the whole ring.
#[test]
fn a_client_that_fell_behind_hears_of_the_gap_first() {
    let mut session = running();
    session.client = Some(Attached::greeting(Line::new()));
    write(&mut session, &[1; 1500]);
    let nudge = session.pump_output(0);
    let wire = session.client.as_ref().unwrap().line.pending().to_vec();
    let seen = frames(&wire);
    assert_eq!(seen[0], (476, b"GAP".to_vec()));
    assert_eq!(seen[1].0, 476);
    assert_eq!(seen.iter().skip(1).map(|(_, data)| data.len()).sum::<usize>(), 1024);
    assert_eq!(nudge, Some(session.win), "this client repaints by a nudge");
    assert!(!session.client.as_ref().unwrap().repaint_due);
    assert_eq!(session.pump_output(0), None, "once");
    session.applied_win = Some(WIN);
    session.nudge_failed();
    assert_eq!(session.applied_win, None);
}

/// The end of the transcript is told once, behind everything, and only with an outcome.
#[test]
fn an_exit_comes_behind_everything_and_once() {
    let mut session = running();
    session.client = Some(Attached::greeting(Line::new()));
    write(&mut session, b"bye");
    session.collect_outcome(Some(Wait::Ended(3, ExitKind::Exited)), 0);
    session.pump_output(0);
    let wire = session.client.as_ref().unwrap().line.pending().to_vec();
    assert_eq!(frames(&wire), [(0, b"bye".to_vec())], "the terminal is still open");

    assert!(session.read_pty(ReadOutcome::Eof, b"", 5 * SECOND).is_none());
    session.pump_output(12 * SECOND);
    session.pump_output(13 * SECOND);
    let wire = session.client.as_ref().unwrap().line.pending().to_vec();
    assert_eq!(frames(&wire), [(0, b"bye".to_vec()), (7, b"EXIT".to_vec())]);

    // Every later attach hears it behind its own replay.
    let mut host = Host::new(session);
    host.session.drop_client(0);
    host.knock();
    host.pending = encoded(&Frame::Hello(hello(RESUME_FROM_START)));
    host.pass(Ready {
        pending: true,
        ..QUIET
    });
    assert_eq!(
        host.queued(),
        said(&[
            Frame::HelloOk(HelloOk {
                resume_from: 0,
                in_applied: 0,
                agent: false,
            }),
            Frame::Output {
                offset: 0,
                data: b"bye",
            },
            Frame::Exit {
                status: 3,
                kind: ExitKind::Exited,
                since_terminal_closed_secs: 0,
            },
        ])
    );
}

/// An outcome nobody could read is unknown once its grace is up, or at once where the wait
/// itself failed.
#[test]
fn an_outcome_nobody_can_read_becomes_unknown() {
    let mut session = running();
    session.collect_outcome(Some(Wait::Failed), 0);
    assert_eq!(session.outcome, None, "the session goes on, and may yet be told");
    session.on_terminal_closed(SECOND);
    session.collect_outcome(Some(Wait::Running), SECOND + OUTCOME_GRACE - 1);
    assert_eq!(session.outcome, None);
    assert_eq!(session.poll_timeout(SECOND), (2, 0));
    session.collect_outcome(None, SECOND + OUTCOME_GRACE);
    assert_eq!(session.outcome, Some((0, ExitKind::Unknown)));
    session.collect_outcome(Some(Wait::Ended(7, ExitKind::Exited)), 0);
    assert_eq!(session.outcome, Some((0, ExitKind::Unknown)), "what was told stays");

    let mut session = running();
    session.on_terminal_closed(0);
    session.collect_outcome(Some(Wait::Failed), 0);
    assert_eq!(session.outcome, Some((0, ExitKind::Unknown)));
}

/// A terminal that cannot be read ends the session, and its client hears why.
#[test]
fn a_terminal_that_fails_ends_the_session() {
    let mut session = running();
    session.client = Some(Attached::greeting(Line::new()));
    let line = session
        .read_pty(ReadOutcome::Failed(Errno::Other(5)), b"", 4)
        .expect("the client's connection");
    assert_eq!(line.pending(), refusal(ErrorCode::Internal, "terminal read failed"));
    assert_eq!(session.stop_reason(4), Some(StopReason::TerminalFailed));
    session.notice(&Ready { stop: true, ..QUIET });
    assert_eq!(session.stop, Some(StopReason::TerminalFailed), "a reason already recorded stays");
    assert_eq!(StopReason::TerminalFailed.message(), "the terminal failed");
}

/// At most one resize a pass, and none that the terminal already has.
#[test]
fn a_size_is_applied_once() {
    let mut session = blank();
    session.win = WIN;
    assert_eq!(session.apply_win(), None, "there is no terminal");
    session.started = true;
    assert_eq!(session.apply_win(), Some(WIN));
    session.win_applied(false);
    assert_eq!(session.apply_win(), Some(WIN), "a failed resize is tried again");
    session.win_applied(true);
    assert_eq!(session.apply_win(), None);
}

// ---------------------------------------------------------------------------
// Arrivals
// ---------------------------------------------------------------------------

/// Whatever a stranger opens with, the client that holds the session never notices.
#[test]
fn a_bad_opening_costs_the_client_nothing() {
    let wrong_version = encoded(&Frame::Hello(Hello {
        protocol: 10,
        ..hello(0)
    }));
    let mut truncated = encoded(&Frame::Hello(hello(0)));
    truncated.pop();
    truncated[3] -= 1;
    for (opening, why) in [
        (vec![0, 0, 0, 0], Refusal::UnparseableHeader),
        (encoded(&Frame::Ping), Refusal::NotHello),
        (truncated, Refusal::UnparseableHello),
        (wrong_version, Refusal::WrongVersion),
    ] {
        let mut host = Host::new(running());
        host.attach();
        host.session.tell_client(&Frame::Pong);
        host.knock();
        host.pending = opening;
        host.pass(Ready {
            pending: true,
            ..QUIET
        });
        assert_eq!(host.left, [refusal(why.code(), why.message())], "{why:?}");
        assert_eq!(host.queued(), said(&[Frame::Pong]), "{why:?} reached the client");
        assert!(host.session.pending.is_none());
    }
}

#[test]
fn a_conditional_greeting_is_refused_while_somebody_is_attached() {
    let mut host = Host::new(running());
    host.attach();
    host.knock();
    host.pending = encoded(&Frame::Hello(Hello {
        if_detached: true,
        ..hello(0)
    }));
    host.pass(Ready {
        pending: true,
        ..QUIET
    });
    assert_eq!(
        host.left,
        [refusal(ErrorCode::AlreadyAttached, "another client is already attached")]
    );
    assert!(host.session.client.is_some());
}

/// A client resumes where it asked to as far as the ring allows, and is owed a repaint
/// exactly when it lost something.
#[test]
fn a_client_resumes_inside_the_ring() {
    for (asked, resumed, repaint) in [
        (RESUME_FROM_START, 476, false),
        (0, 476, true),
        (475, 476, true),
        (476, 476, false),
        (1000, 1000, false),
        (1500, 1500, false),
        (1501, 1500, false),
        (u64::MAX - 1, 1500, false),
    ] {
        let mut session = running();
        write(&mut session, &[7; 1500]);
        session.client = Some(Attached::greeting(Line::new()));
        let greeting = Greeting::keep(&hello(asked));
        let attempt = Attempt {
            agent_bound: false,
            spawned: false,
        };
        assert!(session.on_hello(&greeting, attempt, 0).is_none());
        let client = session.client.as_ref().unwrap();
        assert_eq!((client.sent_through, client.repaint_due), (resumed, repaint), "{asked}");
    }
}

/// The greeting that creates a session decides what it is; one that cannot start a shell is
/// told so and ends it.
#[test]
fn the_first_greeting_starts_the_session() {
    let mut host = Host::new(blank());
    host.attempt = Attempt {
        agent_bound: true,
        spawned: true,
    };
    host.knock();
    host.pending = encoded(&Frame::Hello(Hello {
        agent_forward: true,
        ..hello(0)
    }));
    // What rides behind the greeting is served with it.
    host.pending.extend(encoded(&Frame::Ping));
    host.pass(Ready {
        pending: true,
        ..QUIET
    });
    assert!(host.session.started && host.session.agent.is_some());
    assert_eq!(
        host.queued(),
        said(&[
            Frame::HelloOk(HelloOk {
                resume_from: 0,
                in_applied: 0,
                agent: true,
            }),
            Frame::Pong,
        ])
    );
    assert_eq!(host.session.win, WIN);

    let mut host = Host::new(blank());
    host.attempt.spawned = false;
    host.knock();
    host.pending = encoded(&Frame::Hello(hello(0)));
    host.pass(Ready {
        pending: true,
        ..QUIET
    });
    assert_eq!(
        host.left,
        [refusal(ErrorCode::Internal, "failed to start the session shell")]
    );
    assert_eq!(host.session.stop_reason(0), Some(StopReason::ShellNotStarted));
}

/// A second greeting, a frame only a daemon sends, and a payload that is none each end the
/// connection with their own reason.
#[test]
fn a_misbehaving_client_is_told_what_was_wrong() {
    let mut bad_payload = encoded(&Frame::Ping);
    bad_payload[3] = 1;
    bad_payload.push(0);
    for (wire, why) in [
        (encoded(&Frame::Hello(hello(0))), Refusal::AlreadyGreeted),
        (encoded(&Frame::Gap { new_base_offset: 1 }), Refusal::NotFromClient),
        (bad_payload, Refusal::UnparseablePayload),
        (vec![0xff, 0, 0, 0], Refusal::UnparseableHeader),
    ] {
        let mut host = Host::new(running());
        host.attach();
        host.client = wire;
        host.read_client();
        assert_eq!(host.left, [refusal(why.code(), why.message())]);
    }
}

/// Frames served as they trickle in leave what they would have left all at once.
#[test]
fn input_may_arrive_in_any_pieces() {
    let wire = [
        encoded(&Frame::Input { offset: 0, data: b"abc" }),
        encoded(&Frame::Resize(WIN)),
        encoded(&Frame::Ping),
        encoded(&Frame::Input { offset: 1, data: b"bcde" }),
    ]
    .concat();
    let mut whole = Host::new(running());
    whole.attach();
    whole.client = wire.clone();
    whole.read_client();
    for piece in 1..wire.len() {
        let mut host = Host::new(running());
        host.attach();
        for part in wire.chunks(piece) {
            host.client = part.to_vec();
            host.read_client();
        }
        assert_eq!(host.queued(), whole.queued());
        assert_eq!(typed(&host.session), b"abcde");
        assert_eq!(host.session.win, WIN);
    }
}

/// Connecting is not attaching: whoever does not greet in time is forgotten, and an end of
/// file was a probe.
#[test]
fn a_connection_that_says_nothing_gives_its_slot_back() {
    let mut host = Host::new(blank());
    host.knock();
    assert!(host.session.watch_for(Source::Listener).is_none(), "one at a time");
    host.session.expire(host.now + PENDING_HELLO_TIMEOUT - 1);
    assert!(host.session.pending.is_some());
    host.session.expire(host.now + PENDING_HELLO_TIMEOUT);
    assert!(host.session.pending.is_none());

    host.knock();
    assert_eq!(host.session.fill_pending(Received::Bytes(b"")), Step::Done);
    assert!(matches!(host.session.read_pending(&mut Vec::new()), Opening::Closed));
    assert!(host.session.pending.is_none());

    host.knock();
    assert_eq!(host.session.fill_pending(Received::Failed), Step::Failed);
    assert!(host.session.pending.is_none());
    assert!(matches!(host.session.read_pending(&mut Vec::new()), Opening::Absent));
}

#[test]
fn an_accept_that_fails_stands_back() {
    let mut session = blank();
    assert!(session.accept(Knock::Interrupted, 0), "asked again");
    assert!(!session.accept(Knock::Nobody, 0));
    assert_eq!(session.accept_retry, None);
    let stranger = Knock::Connection {
        ours: false,
        usable: true,
    };
    assert!(!session.accept(stranger, 0));
    assert!(session.pending.is_none());
    assert!(!session.accept(Knock::Failed, 5));
    assert_eq!(session.accept_retry, Some(5 + ACCEPT_BACKOFF));
    assert!(session.watch_for(Source::Listener).is_none());
}

// ---------------------------------------------------------------------------
// Departures and clocks
// ---------------------------------------------------------------------------

/// A client is finished when its socket fails, when it lets too much pile up, and when it
/// has closed its own half and holds everything.
#[test]
fn a_client_has_three_quiet_endings() {
    let attached = || {
        let mut session = running();
        session.client = Some(Attached::greeting(Line::new()));
        session
    };
    assert!(attached().write_client(Step::Done, 0).is_none());
    assert!(attached().write_client(Step::Failed, 0).is_some());
    assert!(attached().write_client(Step::WriteZero, 0).is_some());

    let mut session = attached();
    let payload = vec![0; MAX_OUTPUT_DATA];
    while session.client.as_ref().unwrap().line.queued() < ABANDON_PENDING_WRITE {
        session.tell_client(&Frame::Output {
            offset: 0,
            data: &payload,
        });
    }
    assert!(session.write_client(Step::Done, 0).is_some());

    let mut session = attached();
    session.on_terminal_closed(0);
    session.outcome = Some((0, ExitKind::Exited));
    session.fill_client(Received::Bytes(b""), 0);
    session.pump_output(0);
    assert!(session.write_client(Step::Done, 0).is_none(), "the exit is still to be delivered");
    let n = session.client.as_ref().unwrap().line.queued();
    deliver(&mut session, n);
    assert!(session.write_client(Step::Done, 0).is_some());
}

/// The agent connection a departing client held closes with it, behind what it was owed.
#[test]
fn a_departure_closes_the_agent_connection_behind_its_queue() {
    let mut session = with_agent();
    session.client = Some(Attached::greeting(Line::new()));
    let arrived = Arrival::Connection {
        ours: true,
        usable: true,
    };
    session.accept_agent(arrived, 0);
    session.handle_frame(
        &Frame::AgentData {
            generation: 0,
            data: b"reply",
        },
        0,
    );
    session.drop_client(5);
    assert!(session.agent.as_ref().unwrap().is_serving(), "the reply is still to be written");
    session.finish_agent_close(Ok(5), 6);
    assert!(!session.agent.as_ref().unwrap().is_serving());
    assert_eq!(session.accept_agent(arrived, 7), Accept::Idle, "nobody to serve it for");
}

/// Agent bytes go both ways as they came, and an end is told.
#[test]
fn agent_bytes_go_both_ways() {
    let mut session = with_agent();
    session.client = Some(Attached::greeting(Line::new()));
    let arrived = Arrival::Connection {
        ours: true,
        usable: true,
    };
    session.accept_agent(arrived, 0);
    session.read_agent(ReadOutcome::Data(3), b"reqXX", 1);
    session.handle_frame(
        &Frame::AgentData {
            generation: 0,
            data: b"reply",
        },
        0,
    );
    let (front, back) = session.agent.as_ref().unwrap().queue();
    assert_eq!([front, back].concat(), b"reply");
    assert!(session.flush_agent(Ok(5), 2));
    session.read_agent(ReadOutcome::WouldBlock, b"", 3);
    session.read_agent(ReadOutcome::Eof, b"", 3);
    assert_eq!(
        session.client.as_ref().unwrap().line.pending(),
        said(&[
            Frame::AgentOpen { generation: 0 },
            Frame::AgentData {
                generation: 0,
                data: b"req",
            },
            Frame::AgentClose { generation: 0 },
        ])
    );
    assert!(!session.flush_agent(Ok(1), 2), "nothing is served any more");
}

/// An agent queue that overflows ends the connection, and the client hears of it; its own
/// close is answered with nothing.
#[test]
fn an_agent_connection_ends_once() {
    let mut session = with_agent();
    session.client = Some(Attached::greeting(Line::new()));
    let arrived = Arrival::Connection {
        ours: true,
        usable: true,
    };
    session.accept_agent(arrived, 0);
    let full = vec![0; 256 * 1024 - 4];
    let data = Frame::AgentData {
        generation: 0,
        data: &full,
    };
    session.handle_frame(&data, 0);
    assert!(session.agent.as_ref().unwrap().is_serving());
    session.handle_frame(&data, 0);
    assert!(!session.agent.as_ref().unwrap().is_serving());
    let told = session.client.as_ref().unwrap().line.pending().to_vec();
    assert!(told.ends_with(&encoded(&Frame::AgentClose { generation: 0 })));

    session.accept_agent(arrived, 0);
    let before = session.client.as_ref().unwrap().line.queued();
    let close = Frame::AgentClose { generation: 1 };
    assert!(matches!(session.handle_frame(&close, 0), Effect::AgentClosing));
    session.finish_agent_close(Ok(0), 0);
    assert!(!session.agent.as_ref().unwrap().is_serving());
    assert!(matches!(session.handle_frame(&close, 0), Effect::Nothing));
    assert_eq!(session.client.as_ref().unwrap().line.queued(), before);
}

/// A session with a client never idles out; one without does exactly when its time is up.
#[test]
fn only_a_clientless_session_is_reaped() {
    let mut session = blank();
    assert_eq!(session.stop_reason(FIRST_ATTACH_TIMEOUT - 1), None);
    assert_eq!(
        session.stop_reason(FIRST_ATTACH_TIMEOUT),
        Some(StopReason::NeverAttached)
    );
    session.started = true;
    assert_eq!(session.stop_reason(IDLE_TIMEOUT - 1), None);
    assert_eq!(session.stop_reason(IDLE_TIMEOUT), Some(StopReason::Idle));
    session.client = Some(Attached::greeting(Line::new()));
    assert_eq!(session.stop_reason(u64::MAX), None);
    assert_eq!(session.detach_deadline(), None);
    session.drop_client(11);
    assert_eq!(session.detach_deadline(), Some(11 + IDLE_TIMEOUT));
}

/// The loop sleeps to the next deadline and no longer than its tick.
#[test]
fn the_loop_sleeps_to_the_next_deadline() {
    let mut session = blank();
    assert_eq!(session.poll_timeout(0), (30, 0));
    assert_eq!(session.poll_timeout(FIRST_ATTACH_TIMEOUT + 5), (0, 0));
    session.started = true;
    assert_eq!(session.poll_timeout(0), ((IDLE_TICK / SECOND) as i64, 0));
    session.accept(Knock::Connection { ours: true, usable: true }, 0);
    assert_eq!(session.poll_timeout(SECOND / 2), (4, 500_000_000));
}

/// A pass does what is ready in its order, asks for what is always done, and takes nobody in
/// once the session is ending.
#[test]
fn a_pass_keeps_its_order_and_takes_nobody_in_at_the_end() {
    let mut host = Host::new(running());
    host.attach();
    let everything = Ready {
        stop: false,
        child: true,
        terminal: true,
        client: true,
        client_hung_up: false,
        pending: true,
        listener: true,
        agent_channel: true,
        agent_listener: true,
    };
    let always = [
        Task::ApplyWin,
        Task::WriteTerminal,
        Task::CollectOutcome,
        Task::PumpOutput,
        Task::WriteClient,
    ];
    let done = host.pass(everything);
    assert_eq!(
        done[..6],
        [
            Task::ReadTerminal,
            Task::ReadClient,
            Task::ReadPending,
            Task::Accept,
            Task::ServiceAgent,
            Task::AcceptAgent,
        ]
    );
    assert_eq!(done[6..], always);
    assert_eq!(host.pass(QUIET), always);

    let done = host.pass(Ready {
        stop: true,
        client_hung_up: true,
        ..everything
    });
    assert_eq!(
        done[..4],
        [Task::ReadTerminal, Task::ReadClient, Task::DropClient, Task::ServiceAgent]
    );
    assert_eq!(host.session.stop_reason(0), Some(StopReason::Signalled));
    assert!(host.session.client.is_none());
}

/// What the poll set holds, in order.
#[test]
fn the_poll_set_holds_what_can_be_served() {
    let mut session = running();
    session.client = Some(Attached::greeting(Line::new()));
    session.pending_input.push_back(1);
    let read = Interest {
        read: true,
        write: false,
    };
    assert_eq!(
        session.watches(),
        [
            (Source::Listener, read),
            (Source::Stop, read),
            (Source::Child, read),
            (
                Source::Pty,
                Interest {
                    read: true,
                    write: true
                }
            ),
            (Source::Client, read),
        ]
    );
    session.on_terminal_closed(0);
    session.pending = Some(Waiting {
        line: Line::new(),
        deadline: 1,
    });
    session.tell_client(&Frame::Pong);
    assert_eq!(
        session.watches(),
        [
            (Source::Stop, read),
            (Source::Child, read),
            (
                Source::Client,
                Interest {
                    read: true,
                    write: true
                }
            ),
            (Source::Pending, read),
        ]
    );
}

/// Ending the session hands the client what it is owed and forgets whoever was waiting.
#[test]
fn a_shutdown_hands_over_what_is_owed() {
    let mut host = Host::new(running());
    host.attach();
    host.session.tell_client(&Frame::Pong);
    host.knock();
    let line = host.session.shutdown(3).expect("the client's connection");
    assert_eq!(line.pending(), said(&[Frame::Pong]));
    assert!(host.session.pending.is_none() && !host.session.started);
    assert!(host.session.shutdown(4).is_none());
}

/// What counts as something to service is the same for every source, and a hang-up of the
/// client is more than that.
#[test]
fn every_source_is_judged_alike() {
    let silent = Reported {
        input: false,
        output: false,
        error: false,
        hang_up: false,
        invalid: false,
    };
    let all = |reported: Reported| {
        Ready::of(
            reported, reported, reported, reported, reported, reported, reported, reported,
        )
    };
    assert_eq!(all(silent), QUIET);
    for (reported, hung_up) in [
        (Reported { input: true, ..silent }, false),
        (Reported { invalid: true, ..silent }, false),
        (Reported { error: true, ..silent }, true),
        (Reported { hang_up: true, ..silent }, true),
    ] {
        assert!(reported.readable());
        let ready = all(reported);
        assert!(ready.stop && ready.child && ready.terminal && ready.client && ready.pending);
        assert!(ready.listener && ready.agent_channel && ready.agent_listener);
        assert_eq!(ready.client_hung_up, hung_up);
    }
    let room = Reported { output: true, ..silent };
    assert_eq!(
        all(room),
        Ready {
            agent_channel: true,
            ..QUIET
        }
    );
}

/// Whoever holds the session is heard out before it is handed over, a greeting that is refused
/// is done with, and one that is not is answered before anything behind it is read.
#[test]
fn the_holder_is_heard_out_before_the_session_is_handed_over() {
    let steps = |session: &Session, handed: bool| {
        let mut row = vec![session.first_settling()];
        while row[row.len() - 1] != Settling::Settled {
            row.push(session.next_settling(row[row.len() - 1], handed));
        }
        row
    };
    let mut session = blank();
    assert_eq!(
        steps(&session, true),
        [
            Settling::HandOver,
            Settling::Start,
            Settling::Welcome,
            Settling::ReadOn,
            Settling::Settled
        ]
    );
    session.started = true;
    assert_eq!(
        steps(&session, true),
        [Settling::HandOver, Settling::Welcome, Settling::ReadOn, Settling::Settled]
    );
    session.client = Some(Attached::greeting(Line::new()));
    assert_eq!(
        steps(&session, true),
        [
            Settling::Drain,
            Settling::HandOver,
            Settling::Welcome,
            Settling::ReadOn,
            Settling::Settled
        ]
    );
    assert_eq!(
        steps(&session, false),
        [Settling::Drain, Settling::HandOver, Settling::Settled]
    );
}

/// A frame that cannot be encoded is dropped, and the next one goes out as if it had never
/// been said.
#[test]
fn a_frame_that_cannot_be_encoded_is_dropped() {
    let mut session = blank();
    session.client = Some(Attached::greeting(Line::new()));
    let data = vec![b'x'; MAX_OUTPUT_DATA + 1];
    let oversized = Frame::Output { offset: 0, data: &data };
    assert!(oversized.encode(&mut Vec::new()).is_err());
    session.tell_client(&oversized);
    let queued = |session: &Session| {
        let client = session.client.as_ref().expect("a client");
        client.line.pending().to_vec()
    };
    assert_eq!(queued(&session), said(&[]));
    session.tell_client(&Frame::Pong);
    session.tell_client(&oversized);
    assert_eq!(queued(&session), said(&[Frame::Pong]));
}

/// A session's connection carries no more dead bytes than live ones: of its queue once a pass
/// over it ends, and of its receive buffer always.
#[test]
fn a_line_is_compacted_in_both_directions() {
    let bounded = |(len, dead): (usize, usize)| dead == 0 || dead * 2 < len;
    let mut session = running();
    session.client = Some(Attached::greeting(Line::new()));
    let data = vec![b'x'; 1000];
    let (mut cut_short, mut dead_bytes) = (false, false);
    for round in 0..200usize {
        session.tell_client(&Frame::Output { offset: 0, data: &data });
        let queued = session.client.as_ref().expect("a client").line.queued();
        let n = 1 + (queued - 2) * (round % 10) / 10;
        assert_eq!(session.flush_client(Written::Took(n)), Step::Again);
        let line = &session.client.as_ref().expect("a client").line;
        cut_short |= !bounded(line.queue_held());
        assert_eq!(session.flush_client(Written::WouldBlock), Step::Done);
        let line = &session.client.as_ref().expect("a client").line;
        let (len, dead) = line.queue_held();
        assert_eq!(len - dead, line.queued());
        assert!(bounded((len, dead)), "{dead} dead bytes of {len}");
        dead_bytes |= dead > 0;
        session.tell_client(&Frame::Pong);
        let line = &session.client.as_ref().expect("a client").line;
        assert!(bounded(line.queue_held()), "saying more does not undo it");
    }
    assert!(cut_short && dead_bytes);

    let mut line = Line::new();
    let mut scratch = Vec::new();
    let frame = encoded(&Frame::Input { offset: 0, data: &data[..64] });
    let stream = frame.repeat(100);
    let mut frames = 0;
    for chunk in stream.chunks(1001) {
        assert_eq!(line.fill(Received::Bytes(chunk)), Step::Again);
        assert!(bounded(line.input_held()));
        while line.take_frame(&mut scratch).expect("a valid frame").is_some() {
            frames += 1;
            let (len, dead) = line.input_held();
            assert_eq!(len - dead, line.buffered());
            assert!(bounded((len, dead)), "{dead} dead bytes of {len}");
        }
    }
    assert_eq!((frames, line.input_held()), (100, (0, 0)));
}
