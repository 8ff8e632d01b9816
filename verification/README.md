# adb_client

A client for the Android Debug Bridge that talks to devices without a server:
over USB and over TCP, with wireless pairing.

- `src/` is the library. It holds the protocol, the state machines and the rules
  of the commands, each with a contract that Verus proves. It does no I/O: a
  machine says what to do next, and is told what came of it.
- `app/` is the `adb` command around the library: sockets, files, processes and
  threads.
- `tests/` runs the library.

The library calls the crates of the pairing protocol and of certificates through
trusted functions, all in `src/crypto.rs`, and a few functions of the standard
library through those in `src/text.rs`.
