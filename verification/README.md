# smolshim

A verified library for two pieces of a std-like TCP layer over
[smoltcp](https://crates.io/crates/smoltcp):

- `src/port.rs`: an assigner of ephemeral ports. A fresh assigner holds each
  port of the dynamic range 49152..=65535 once and hands them out in ascending
  order; a port given back is the next one handed out. Its contracts and the
  proof functions beside them state this exactly.
- `src/shim.rs`: the socket-level logic of a listener and a stream: binding
  and connecting (each address tried in turn, the first usable one taken),
  one step of connect, accept, read and write over a socket, shutdown, and
  the polling thread's choice of when to poll next.
- `src/smol.rs`: the trusted contracts of the smoltcp socket calls the logic
  makes, over names for a socket's state, endpoints and buffers;
  `src/addr.rs`: socket addresses as plain values.

`app/` holds what Verus does not check: the process-wide network engine
(a polling thread, locks, a condition variable and the smoltcp interface),
`SmolTcpListener` and `SmolTcpStream` with std's address and I/O types, and a
port assigner that threads can share.
