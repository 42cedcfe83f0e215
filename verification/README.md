# stahlnet

A simple networking layer for the Stahl IPC: peers exchange UDP datagrams
that each carry one frame, announce the tasks they host, learn routes to
remote tasks, and pass messages between tasks.

- `src/` is the verified library.
  - `frame.rs`: frames and their wire format (`spec_serialize`,
    `spec_parse`), with both round-trip laws.
  - `codec.rs`: the codec that turns datagrams into frames and back.
  - `server.rs`: the server's state and every decision it takes on a frame,
    a spawned task, the clock or shutdown, each stated as a transition of
    `ServerView`, with the laws that relate them.
  - `handle.rs`: the handle through which a task talks to its server.
  - `types.rs`, `peer.rs`: task and message-type IDs, peer addresses.
  - `outside.rs`: the calls into `bytes`, `futures`, `rand` and `std` that
    the library makes, each behind a stated contract.
- `app/` is the relay program and the part of the server that does I/O: the
  UDP socket, tokio's codec traits, the timer that wakes the server when a
  queued message is due, and the `Drop`, `Sink` and `Stream` impls.
- `tests/` exercises the library on concrete values.
