# okv_eval

Evaluation contracts for an object-backed key-value store, verified with Verus.

The library (`src/`) holds the decisions of each evaluation contract: profile
and configuration rules, deterministic workloads and values, frozen byte
encodings and their digests, replay of retained transaction streams, quorum
recovery of tLog inventories, batching and admission policy, comparison
verdicts, program and suite validation, and the judgements and anomaly counts
that each contract computes from its run's observations. Running the process
fixtures that produce those observations needs crates outside this project and
is not part of it. Each public function states its result in `ensures` over spec
functions; the laws that relate several functions are public proof functions
(`lemma_*`).

Calls into outside crates stand behind small trusted wrappers whose contracts
name their results: SHA-256 (`sha2`), Ed25519 signing and verification
(`ring`), and a few `std` formatting and string calls.

`app/` is the plumbing around the library: reading suites, programs and
receipts from disk (TOML and JSON through `serde`), schema validation of
comparison receipts (`jsonschema`), timestamps (`chrono`), parsing socket
addresses, and the floating-point parts of comparisons, locality models and
per-operation ratios.

`tests/` runs the library on concrete values.
