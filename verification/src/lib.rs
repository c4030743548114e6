pub mod errors;
pub mod types;
pub mod state;
pub mod checks;
pub mod rate_limit;
pub mod pow;
pub mod quorum;
pub mod admin;
pub mod lists;
pub mod store;
pub mod credentials;
pub mod caches;
pub mod revocation;
pub mod slices;
pub mod attestation;
pub mod verdicts;
pub mod attest_ops;
pub mod challenges;
pub mod governance;
pub mod issuance;
pub mod cred_ops;
pub mod lifecycle;
pub mod registry;
pub mod access;
pub mod records;
pub mod consent;
pub mod monitor;
pub mod guards;
pub mod indexing;
pub mod laws;
