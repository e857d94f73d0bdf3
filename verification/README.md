# linuxpods

Battery, charging and noise control state of AirPods on Linux: battery packets are
parsed, two sources of state (an AAP link and BLE advertisements) are merged per
device, and every consumer is handed a snapshot on each change.

- `src/` is the library. Its functions are proved with Verus against their
  contracts, all but the few that call out of it; `src/laws.rs` holds what is
  proved of the library as a whole.
- Those few are in `src/channel.rs`, `src/fresh.rs` and at the end of
  `src/text.rs`. Their contracts state what is taken on trust of `async-channel`
  and of `str::to_uppercase`.
- `tests/` runs the library on concrete values.
- `app/` is the asynchronous service around the library. The connection to a
  device, the key store and the decoding of advertisements are supplied by the
  embedding program through the traits in `app/backend.rs`.
