# aingle_minimal

A lightweight node for resource-constrained IoT devices, written in Verus:
the library's logic carries `requires`/`ensures` contracts that Verus proves.

Layout:

- `src/` — the verified library: records and their hashes and signatures,
  the semantic graph, gossip (bloom filters, priority queue, backoff),
  peers, remote calls and mesh relaying, discovery, CoAP and REST protocol
  decisions, DTLS sessions, BLE peer management, OTA updates, power
  profiles, sensor kinds, configuration limits and errors. Calls into
  outside crates (`blake3`, `ed25519-dalek`, `rand`) and into the clock go
  through small trusted wrappers whose contracts say what those calls return;
  CoAP packets are read and written by `coap-lite` behind such wrappers.
- `tests/` — tests run against the compiled library.
- `app/` — the command-line program and the I/O around the library: the
  UDP socket and the requests awaiting acknowledgement, the HTTP server, the mDNS daemon, JSON
  encodings, and the parts computed in floating point (bandwidth limiting,
  battery estimates, sensor readings, progress percentages).
