# px_mpc_module

The verified core of a threshold-ECDSA (GG20) module for mobile hosts.

- `src/` — the library, verified with Verus: JSON framing of the outputs
  handed to the host (`message`), the routing rule for protocol messages
  (`routing`), the parsing of the signing parties (`parties`), the incoming
  message channel and its hand-off to a running computation (`channel`), the
  decisions of the gossip node's event loop and its listen address (`pubsub`),
  and decimal rendering (`decimal`).
- `app/` — the C interface, the asynchronous protocol runs and the libp2p
  event loop, which call the library for every decision.
- `tests/` — tests of the library on concrete values.
