# styra

The core of a terminal client for isolated agent sessions, written in Verus:
executable Rust whose behaviour is stated in contracts and proved.

- `src/` is the library. It holds the client's state and every decision it
  makes: how events change the list, what a key means, how a message goes out,
  which sandbox policy is in effect, how journals and wire lines are read. Time,
  the environment, the disk and the server's answers come in as arguments, and
  what is to be done outside goes out as a value.
- `tests/` runs the library.
- `app/` is the program around it: command line, terminal, socket, files.

Where to start reading: `src/app.rs` is the whole screen, `src/ingest.rs` what
an event does to it, `src/keys.rs` and `src/event_loop.rs` what a key and a tick
do, `src/launch.rs` the launch policy, `src/session.rs` a session's life. What
holds across several functions stands in public proof functions named `law_*`.

What is believed rather than proved is marked `external_body` or
`assume_specification`: reading and writing JSON with `serde_json`
(`src/json.rs`), base64 (`src/clipboard.rs`), the quoting of a path
(`src/agent.rs`) and `String::push` (`src/text.rs`).
