# nexus_cli

The verified core of a Nexus network prover client, written in Verus.

- `src/keys.rs`: Ed25519 node keys held as their secret bytes, key-file
  encoding, the choice between a stored and a new key, Ethereum address checks.
- `src/task.rs`, `src/task_pool.rs`: proving tasks and a bounded FIFO pool that
  refuses duplicate and completed task ids.
- `src/prover.rs`: prover errors, task inputs, execution checks, orchestrator
  error classification, proof hashes and analytics client ids.
- `src/proving_loop.rs`: the retry loops as state machines from attempt
  outcomes to actions (lines, pauses, analytics events), with laws on their
  counters.
- `src/text.rs`, `src/digest.rs`: decimal/hex rendering and substring search;
  Keccak-256 and MD5 from `sha3` and `md5`.

`app/` holds the I/O around it: key files, the zkVM prover (`nexus_sdk`), the
orchestrator and analytics services, and the async loops that perform the
actions the state machines return.
