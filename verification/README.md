# rm_proto

A verified framing layer for the RoboMaster referee system and vision links,
written in Verus, with the messages that travel over it.

- `src/crc.rs` — the DJI CRC-8 / CRC-16 as spec functions and checked implementations.
- `src/le.rs` — little-endian fields in byte buffers, with round-trip lemmas.
- `src/frame.rs` — `Messager` (pack / unpack / unmarshal) and `RawFrame`; the wire
  format as `frame_bytes` and `spec_unpack`, and the laws relating them.
- `src/marshaler.rs`, `src/validator.rs`, `src/error.rs` — the payload and checksum
  traits and the error types.
- `src/remote.rs` — the 21-byte remote-control uplink decoder; `src/shared.rs` shares
  its state through `portable-atomic` atomics.
- `src/serial/`, `src/vision/` — message types; each states its payload bytes and
  proves that unmarshaling what marshaling writes gives the message back.
- `app/` — `f32` views of float fields, error and state texts.
