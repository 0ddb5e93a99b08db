# tapauth

TapAuth lets a phone approve a Linux login: the PAM module asks the
`tapauthd` daemon, which sends an encrypted, signed authentication request
to the paired phones over the local network and waits for a signed grant or
denial.

This crate is written in Verus. The library in `src/` holds the logic of the
system, each public function with a contract that Verus proves:

- `wire`, `fields`, `pb`: the protobuf encoding of the protocol messages,
  with round-trip lemmas for every message; `daemon::ipc_codec` does the
  same for the messages on the daemon's socket.
- `crypto`: keys, AES-GCM envelopes, HKDF derivations, Ed25519 signatures,
  X25519 exchange and the temporal identifiers; the primitives come from the
  RustCrypto and dalek crates through small trusted wrappers whose contracts
  name what each call returns.
- `protocol`: request, grant and denial messages, encrypted packets and the
  pairing handshake, step by step for both sides.
- `daemon`: the decisions of the daemon (IPC framing and dispatch, the
  authentication loop's steps, replay protection, cancellation, flight
  deduplication, peer checks, the fprintd emulation and the admin commands).
- `network`, `ble`, `firewall`, `config`, `models`, `address_text`, `tpm`,
  `jni`: discovery intervals, interface choice, BLE exchange state, firewall
  guard sharing, configuration rules, pairing URLs and address texts, TPM
  file plans, and the mapping of errors to Java exceptions.

`app/` is the daemon itself: sockets, files, timers, D-Bus and system
calls, built on the library. `tests/` runs the library on concrete values.
