# node_quic

The protocol core of a QUIC binding for a JavaScript runtime, verified with
Verus, and the binding around it.

The core is plain state. It decides what is written into the next packet, what
becomes of what the transport took, which events are dispatched and in which
order, when the timer fires, how a session closes, and where a received packet
goes. The binding performs the transport calls, the callbacks and the timers
that the core asks for, and hands the outcomes back.

## Layout

- `src/` — the core.
  - `number`, `value`: option values as the script hands them over.
  - `settings`, `setup`: session options, settings and transport parameters,
    and how a session comes to be.
  - `outbound`, `inbound`, `stream`, `table`: streams and their data.
  - `session`, `events`, `flush`, `datagrams`, `lifecycle`: sessions.
  - `address`, `routes`, `endpoint`: addresses, routing, the endpoint.
  - `tls`: TLS configuration, setup plan, protocol choice.
  - `ngtcp2`, `stats`: the transport's plain data, names of the statistics.
- `tests/` — tests of the core.
- `app/` — the binding: ngtcp2 and nghttp3 bindings, the traits that the host
  implements, and the loops that drive endpoints, sessions and streams.

## What is proved

Every function of `src/` has a contract over a mathematical view of its state.
The functions named `law_…` state what holds across functions: bytes leave a
stream in order and stay held until they are acknowledged, streams take turns
in the write loop, a reader gets what the peer sent, every reader is woken at
most once per batch, events recorded during a call of the script are due on the
next turn, and so is a close that the script asked for, datagrams leave in
order and within the limit of the queue, a handshake and a close are reported
at most once, a timer set for a deadline never fires before it, a protocol list
keeps its wire format, and nothing routes to a session that was torn down.
