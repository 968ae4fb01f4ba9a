# nomux

Terminal sessions that outlive the connection that started them: a daemon owns a
terminal and the child on it, and clients come and go over a framed stream, each
resuming where the last one was. Byte-stream replay, not screen-state sync: what a
client is sent is what the terminal wrote.

## Layout

- `src/` decides. It holds no descriptor, reads no clock and makes no call of the system:
  what those say is handed in, and what is to be done with them is handed back. All of it is
  verified.
- `app/` acts: sockets, the terminal, files, signals and processes around those decisions.
- `tests/` runs the library.

## The library

The wire format is `wire` (numbers, text, headers), `header` and `codes`, and a codec
for each revision: `rev5`, `rev7`, `frame` (the layout between) and `rev11`, which the
daemon speaks and the crate root re-exports.

A session is `session` (its state, its clocks, its poll set), `serve` (what the client's
frames do), `terminal` (what the terminal writes, takes and ends with), `greet` (how a
connection becomes the client) and `poll` (what one pass does, in which order), over
`ring` (the tail of the output), `line` and `conn` (a connection's buffers), `agent`
(the one served agent connection) and `refusal` (why a client is turned away).

The rest is what surrounds it: `rundir`, `trust`, `spawnlock` and `startup` (the run
directory, its lock and a daemon's way in), `attach`, `relay` and `launcher` (creating,
joining and relaying to a session), `carried` (what a relay carries over its life),
`control` (listing and killing), `args` (the command line), `pty`, `exec`, `passwd` and
`linger` (the child and its user), `sanitize` and `text`.

## What is proved

A function's contract says exactly what it returns and changes, over a model of its
data. Where something other than its arguments decides, it says what holds of every
answer and another function what each answer comes to: whether a ring's memory can be
had is the allocator's to say, so `Ring::try_new` promises a refusal only past what any
collection may hold, and `Ring::once_reserved` takes the answer. Which characters std
replaces, escapes or quotes in a message is named and not spelled out.

Beyond those, `laws` and `history` state what holds of a session whatever its clients,
its child and its clock do: input is applied exactly once; what a client is sent replays
the stream byte for byte and without a hole but for the gaps it was told of; a stranger,
a departure or a takeover costs the session nothing; every deadline has its wakeup.
`carried` states the same of a relay: however its reads and writes fall, each end is
handed what the other said. Each codec reads back what it wrote and accepts nothing it
would not have written.
