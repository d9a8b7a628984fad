# WebTransport

WebTransport over several transports, with its decisions proved correct by Verus.

Nothing in the library performs I/O. Its functions take what arrived and answer
with what to do, so that every decision has a contract:

- `qmux`: QMux over TCP, TLS, WebSocket and Unix sockets. The wire formats
  (`proto`), the delimiting of byte streams (`transport`), flow control (`credit`),
  the scheduling of outgoing data (`sched`), the negotiation of protocols
  (`alpn`, `negotiate`, `ws`, `tls`) and the state of a session (`session`).
- `http3`: error codes and headers of sessions that share an HTTP/3 connection.
- `quiche`, `noq`, `iroh`: what is particular to each QUIC implementation.
- `ffi`, `node`: the interfaces to other languages.
- `buffer`, `text`, `time`, `url`, `certificate`, `status`: what the library takes
  from other crates. Contracts that are believed rather than proved stand here and
  in `qmux/tls.rs`, each with a comment that says what it claims.

What holds of the library as a whole is stated by public proof functions, beside
the functions they speak of and in `qmux/session/laws.rs` and
`qmux/session/link.rs`.

`app` is the I/O around the library: sockets, tasks and timers.
