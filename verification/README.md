# obd_rust

A bridge between a vehicle's diagnostic bus and a BLE client: OBD-II over ISO-TP over CAN on one
side, a byte stream over BLE on the other.

- `src/` is the library. It decides; it performs no input or output. An exchange is a state
  machine: it says which frame to send, how long to listen or to pause, and takes back what
  happened. Every function carries a contract that Verus proves.
  - `can/iso_tp/`: framing, reassembly, flow control, physical and functional requests, and the
    laws that hold across them (`laws.rs`).
  - `can/`: identifiers, OBD-II services, trouble codes, discovery.
  - `application/`: what the client is told, and the cache of offline telemetry.
  - `transport/`, `transport_io/`: the link to the client, its packets and its advertisement.
  - `bounded.rs`: what is taken on trust of the fixed-capacity collections of `heapless`.
- `tests/` runs the library.
- `app/` is the firmware: it carries the actions out on an ESP32.
