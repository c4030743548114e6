# quorum_proof

A credential registry in which issuers issue credentials to subjects and
weighted quorum slices of attestors vouch for them. A credential counts as
attested through a slice once the weights of the slice members that attested
it (unexpired, not suspended) reach the slice's threshold.

The library in `src/` is a state machine, `QuorumProofContract`, whose entry
points take the ledger time (and, where it matters, the ledger sequence) as
arguments and return `Result<_, Fault>`. Every entry point states in its
contract exactly when it fails and with which fault, that a failed call
changes nothing, and what a successful call changes. `src/laws.rs` and
`src/registry.rs` hold the properties that span several calls.

Layout of `src/`:

- `types.rs`, `errors.rs`, `state.rs`: the data, the faults, the contract state and its invariant.
- `credentials.rs`, `issuance.rs`, `cred_ops.rs`, `lifecycle.rs`, `revocation.rs`, `consent.rs`: issuing credentials and their life after issue.
- `slices.rs`, `quorum.rs`, `attestation.rs`, `attest_ops.rs`, `verdicts.rs`, `challenges.rs`: slices, attestations and verdicts.
- `registry.rs`: the credential type hierarchy, and the proof that it stays free of cycles.
- `indexing.rs`: the agreement of the per-subject lists and the type index with the credentials, and the proofs that issuing, revoking and transferring keep it.
- `admin.rs`, `rate_limit.rs`, `pow.rs`, `access.rs`, `governance.rs`, `records.rs`, `caches.rs`, `monitor.rs`, `guards.rs`, `checks.rs`, `lists.rs`, `store.rs`: administration, limits, proof of work, access lists, governance flows, queries, caches and helpers.

`app/` holds the host glue that the library leaves out: ledger reads, events,
and the calls into the soulbound token registry and the zero-knowledge
verifier contracts.
