# fiudp_cli

Sender side of FIUDP, a one-way UDP protocol that delivers a raw image frame
to a TRMNL-class e-paper display: the frame is cut into 1400-byte shards,
Reed-Solomon parity shards are added, every shard is encrypted with
ChaCha20-Poly1305 under a 256-bit pre-shared key (its 12-byte packet header
is the associated data), and each 1428-byte packet is sent once.

Layout:

- `src/` — the library, verified with Verus: wire format and packet
  assembly (`protocol`), newtypes (`types`), nonce derivation and AEAD
  (`crypto`), erasure coding (`fec`), configuration (`config`), the session
  counter (`session`) and the pipeline of one frame (`sender`). The
  contracts state the exact bytes of every packet in terms of the
  ChaCha20-Poly1305 and Reed-Solomon results, and the `law_*` proof
  functions state what holds across calls (nonce uniqueness, header
  layout, padding, monotonic session identifiers, packets handed to the
  transport once each and in order, ...). The decisions of the paced send
  loop (send, pause, stop) are the verified `next_transmit_action`.
- `app/` — the command-line program: argument parsing, file, standard
  input and UDP I/O, the session counter file, and the loop that performs
  those decisions (the pause is a sleep).
- `tests/` — tests against the compiled library.
