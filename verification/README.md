# aether

Control-plane logic of a bare-metal VM platform, written in Verus with its contracts
proved: node registration and heartbeats, HMAC attestation tokens with replay
protection, reverse-bid winner selection and tie-breaking, the CSI volume state machine,
iSCSI and ZVOL bookkeeping, QEMU/Firecracker launch arguments and QMP commands, the
live-migration start sequence with its rollback, the simulated HPE OneView appliance and
the Virtual Connect client's decisions.

Layout:

- `src/` — the verified library (`aether`). Calls into other crates (`hmac`, `sha2`,
  `hex`, `uuid`, `urlencoding`, `serde_json`, `rustls-pemfile`) and the system clock sit
  behind small functions whose contracts are stated in their doc comments.
- `tests/` — tests of the library on concrete values.
- `app/` — the runtime around it: async traits, processes, sockets, HTTP (axum,
  reqwest), netlink, TLS configuration, serde copies of library types, and the
  floating-point bid score.
