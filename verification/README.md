# symbolica_license

The licensing logic of Symbolica, verified with Verus: signed offline and OEM license keys, library
unlock tokens, the rules by which a key activates a process, the messages that are exchanged with
the license server, and the limits on a process without a license.

- `src/` is the verified library. Every function states what it computes; `*_laws.rs` and the
  functions named `law_*` state what holds of the library as a whole. It calls `data_encoding` for
  Base64url and Base32, `ed25519_compact` for signatures and `tinyjson` for JSON, each behind a
  small function whose contract says what is believed of the call.
- `app/` is the crate around it: the state of the process and its threads, the environment, the
  connection to the license server, the lock files and the thread pool.
- `tests/` runs the library on concrete values.
