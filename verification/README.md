# fungi_transport

The peer-to-peer datagram channel of the Fungi protocol, with its decisions
verified by Verus. A channel is a connection to one peer that moves opaque byte
messages, one message per call.

`src/` is the verified library. It holds no socket, thread or await: where a
channel alternates between waiting and deciding, the library is a state machine
that takes what came of the last wait and says what to do next.

| module | what it holds |
| --- | --- |
| `addr` | onion addresses and their `host:port` form |
| `wire`, `framed` | length-prefix framing of a byte stream |
| `error`, `rpc` | what can go wrong, and how it crosses capnp-rpc |
| `actor` | the client actor behind a channel over capnp-rpc |
| `loopback` | a channel that gives back what was put in |
| `net`, `settings` | the private-net file, and the client settings it leads to |
| `cli`, `harness`, `e2e` | the command lines of the programs |
| `driver` | the listen/dial protocol of the programs |
| `arti` | the configuration of the in-process Tor backend and its plugin |
| `text` | decimal numbers, words and other text primitives |

Each function says in its contract what it returns. What holds of several
functions together stands beside them as public proof functions; for example, that
the receives of a framed channel return what was sent, one whole message each and
in order, however the stream cuts it (`framed::receives_return_what_was_sent`), and
that a receive over the client actor which is dropped before it returned loses
nothing (`actor::dropped_receive_loses_nothing`).

Items marked `external_body` or `assume_specification` are believed, not proved:
they stand for calls into other crates and the standard library, and their doc
comments say what is claimed.

`app/` is the program around the library: the async plumbing over tokio, the
capnp-rpc client and servers, and the in-process Tor client. `tests/` runs the
library.
