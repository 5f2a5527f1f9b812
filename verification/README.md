# prodjlink-rs

A client for Pioneer/AlphaTheta Pro DJ Link networks, whose protocol logic is verified with
Verus.

It joins a Pro DJ Link LAN as a virtual player, listens for the status of the players, keeps
track of decks, flags, tempo and loaded tracks, fetches track metadata from the players'
database servers, and reports devices and the current master track.

## Layout

- `src/` is the verified library. It does no input or output and reads no clock: packets and
  times are handed in, and the next action is handed out. No packet, however malformed, makes
  it panic.
  - `client.rs` holds what is known; `state.rs` is its mathematical model, over which the
    contracts are stated.
  - `listener.rs` is the state machine behind UDP ports 50000 and 50002, `fetch.rs` the one
    behind a TCP conversation with a database server.
  - `packet.rs` and `dbserver.rs` build and read what travels over the network; `bytes.rs`
    and `text.rs` hold the parts.
  - `cache.rs` keeps metadata and running fetches; `model.rs` holds the values and their
    views.
  - `laws/` states and proves what holds across functions and events.
- `app/` runs the library on sockets, threads and the system clock.
- `tests/` runs the library on concrete packets.

## Units

Times are nanoseconds on one monotonic clock. Tempo is in hundredths of a beat per minute.
Track lengths are in milliseconds. `app/` gives callers instants and floating-point values.

## What is trusted

`src/text.rs` believes four functions of std by their documentation:
`String::from_utf8_lossy`, `String::from_utf16`, `str::trim` and `str::trim_matches`.

## Safety note

The client sends LAN broadcast packets and binds UDP ports 50000 and 50002. Do not run it on a
production DJ network without the operator's approval. It does not use the internet.
