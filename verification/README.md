# pwmd

The decision logic of the pwmd chain node, written in Verus: every function
under `src/` carries a `requires`/`ensures` contract that Verus proves, and
the properties that span several calls (lease fencing, replay refusal,
ledger monotonicity, federation merges, the seal watchdogs, what a pending
key or flow-log read gives back of a write) stand as public proof functions
beside the code they speak of.

Layout:

- `src/` — the verified library (`lib.rs` lists its modules by area).
- `tests/` — ordinary Rust tests that run the library on concrete values.
- `app/` — runtime glue the verifier does not see: the seal loop driver
  (it runs the library's `seal_turn::SealLoop` state machine against a host
  that owns the chain and the gates), the on-disk lease store, the block
  writer thread, the block timing journal files, the wall clock,
  the environment, the lease gate with the in-process lease store that all
  nodes of one process share, JSON wire copies of library types, and the
  floating-point seal reports.

Outside crates reached from `src/` go through a few trusted wrappers:
`ed25519-dalek` (hello signatures), `url` (peer base URLs) and `serde_json`
(string quoting in JSON bodies). Their contracts are stated in the doc
comments above each wrapper.
