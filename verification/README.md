# reticulum_mobile

The core of a Reticulum mesh node for mobile apps (BLE, LoRa and LAN interfaces driven
from Swift and Kotlin), written in Verus.

`src/` is the verified library:

- `mode` — interface modes and their case-insensitive parsing.
- `packet` — packet headers, the meta byte and the wire format
  `[meta] [hops] [transport hash, Type2] [destination] [context] [data...]`.
- `queue` — the FIFO byte queues between the native radios and the drivers.
- `peers` — the peer table: one record per hex hash, listed in hash order. It is a
  `Vec` kept sorted by hash under a type invariant rather than a `HashMap`: Verus proves
  little about a `HashMap` keyed by `String`, and the sorted order is what the peer
  listing hands out anyway.
- `hexfmt` — how address hashes display and how their hex is read back.
- `node` — the node state: interfaces, the receive queue with its `[dest_tag]` framing,
  sending transactions and messages, inbound classification, driver transmit decisions.
- `drivers` — which driver an interface gets, accepted interface names, and how a frame
  is handed to a caller's buffer.

`app/` runs the node: the tokio runtime, the Reticulum transport and interface drivers,
the identity file, the SQLite message store, the C FFI and the JNI bridge. The decisions
about packets, queues, peers and interfaces come from the library; what remains in `app/`
is the I/O around them: deriving hashes and parsing hex with Reticulum, the database rows
and their JSON, and copying into the callers' buffers.
