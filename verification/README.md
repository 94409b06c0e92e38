# kora

The verified core of Kora, a minimal commonware + revm execution client.
The library is written in Verus: each public function states what it
returns in its contract, and the properties that relate several operations
are proved as lemmas.

## Layout

- `src/txpool/` — the transaction pool: configuration, per-sender nonce
  queues (`ordering.rs`), the serving order (`priority.rs`), the pool
  (`pool.rs`), the agreement of its hash index with its queues
  (`consistency.rs`), transaction validation (`validator.rs`) over the fields that
  `envelope.rs` reads from a signed envelope, and the pool's and queues'
  laws (`pool_laws.rs`, `queue_laws.rs`).
- `src/dkg/` — the DKG ceremony: configuration, errors, persisted state,
  output records, wire framing, transport settings, and the decisions of
  the ceremony loop.
- `src/rpc/` — server, CORS and rate limit settings, JSON-RPC errors,
  block references, fee history windows, and the eth namespace's pending
  submissions.
- `src/net.rs` — `host:port` and bootstrap peer parsing.
- `src/devnet.rs`, `src/loadgen.rs`, `src/scenario.rs` — the devnet tools:
  the setup layout and the trusted dealer's key shares, the load
  generator's accounts and round-robin transfers, and end-to-end test
  scenarios with their expected balances.
- `src/executor.rs`, `src/consensus.rs` — execution and consensus errors.
- `src/runner.rs` — the threshold sharing and key share a validator reads
  back from its DKG output.
- `src/cli.rs`, `src/node.rs`, `src/finality.rs`, `src/stubs.rs`,
  `src/evm.rs`, `src/idents.rs` — the command line's decisions, node
  assembly pieces, agreement on finalized heads, development stubs, EVM
  helpers and identifier codecs.
- `src/hexstr.rs`, `src/text.rs`, `src/bytes.rs`, `src/keyed.rs`,
  `src/textmap.rs` — hex and decimal text, byte-string order, records read
  as maps, and text maps kept in key order.
- `app/` — the `kora` command line: argument parsing, files, sockets and the
  loops that the library's decisions drive; `keygen.rs` and `loadgen.rs`
  hold the file and network work of the devnet tools.
- `tests/` — tests of the library on concrete values.

Calls into outside crates (alloy, k256, sha3, hex, commonware) go through
small trusted functions whose contracts say what the call returns; each
carries a doc comment naming the call.
