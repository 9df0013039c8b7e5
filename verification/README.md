# wd_rust

The core of a packet interception runtime, verified with Verus: the wire
protocol shared by the driver and user mode, the filter language (lexer,
parser, semantic analysis, lowering and its binary program format), the
driver's event queue, reinjection tokens, handle state machine and control
request dispatch, the user-mode event decoding and checksum repair, and the
command-line tools' argument checks, device conversations and output.

Layout:

- `src/` — the verified library. `proto` (wire formats), `filter` (the
  filter compiler), `kmdf_core` and `kmdf` (driver-side state and dispatch),
  `user` (user-mode decoding, handles, the transport interface and the
  meaning of Win32 results), `cli` (the commands), `demo` (the decisions of
  the two demonstration programs).
- `tests/` — tests run against the compiled library.
- `app/` — the `wd-cli` program: argument parsing with clap, printing, the
  Windows transport, the C entry points of the driver glue, and the receive
  and send loops of the two demonstration programs.
