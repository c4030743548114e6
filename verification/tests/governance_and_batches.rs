use quorum_proof::rate_limit::{DEFAULT_RATE_LIMIT_MAX_CALLS, DEFAULT_RATE_LIMIT_WINDOW_SECONDS};
use quorum_proof::state::QuorumProofContract;
use quorum_proof::types::{Address, BatchResult, ChallengeStatus, CredentialInput};
use soroban_sdk::Env;

const META: &[u8] = b"QmTestHash000000000000000000000000";

fn setup() -> (QuorumProofContract, Env, Address) {
    let mut c = QuorumProofContract::new();
    let admin = Address(1000);
    c.initialize(admin).unwrap();
    (c, Env::default(), admin)
}

fn issue(c: &mut QuorumProofContract, env: &Env, now: u64, issuer: Address, subject: Address, t: u32, meta: &[u8]) -> u64 {
    c.issue_credential(env, now, issuer, subject, t, meta.to_vec(), None, 0)
        .unwrap()
}

#[test]
fn test_holder_reputation_zero_before_any_activity() {
    let c = QuorumProofContract::new();
    let rep = c.get_holder_reputation(0, Address(1));
    assert_eq!(rep.credentials_held, 0);
    assert_eq!(rep.successful_verifications, 0);
    assert_eq!(rep.attestation_count, 0);
    assert_eq!(rep.attestation_age_seconds, 0);
    assert_eq!(rep.score, 0);
}

#[test]
fn test_holder_reputation_counts_attestations_and_age() {
    let (mut c, env, _) = setup();
    let (issuer, subject, attestor) = (Address(1), Address(2), Address(3));
    issue(&mut c, &env, 0, issuer, subject, 1, b"ipfs://QmTest");
    let slice_id = c.create_slice(issuer, vec![attestor], vec![1], 1).unwrap();
    c.attest(1_000, attestor, 1, slice_id, true, None).unwrap();
    let rep = c.get_holder_reputation(3_000, subject);
    assert_eq!(rep.credentials_held, 1);
    assert_eq!(rep.successful_verifications, 1);
    assert_eq!(rep.attestation_count, 1);
    assert_eq!(rep.attestation_age_seconds, 2_000);
    assert_eq!(rep.score, 3);
}

#[test]
fn test_holder_reputation_configurable_scoring_algorithm() {
    let (mut c, env, admin) = setup();
    let (issuer, subject, attestor) = (Address(1), Address(2), Address(3));
    issue(&mut c, &env, 0, issuer, subject, 1, b"ipfs://QmTest");
    let slice_id = c.create_slice(issuer, vec![attestor], vec![1], 1).unwrap();
    c.set_holder_reputation_config(admin, 5, 2, 500).unwrap();
    c.attest(1_000, attestor, 1, slice_id, true, None).unwrap();
    let rep = c.get_holder_reputation(2_500, subject);
    assert_eq!(rep.attestation_count, 1);
    assert_eq!(rep.attestation_age_seconds, 1_500);
    assert_eq!(rep.score, 11);
}

#[test]
fn regression_19_ttl_extended_after_revoke() {
    let (mut c, env, _) = setup();
    let issuer = Address(1);
    let id = issue(&mut c, &env, 0, issuer, Address(2), 1, META);
    c.revoke_credential(0, issuer, id).unwrap();
    assert!(c.get_credential(2_000, id).unwrap().revoked);
}

#[test]
fn regression_21_issuer_can_revoke_credential() {
    let (mut c, env, _) = setup();
    let issuer = Address(1);
    let id = issue(&mut c, &env, 0, issuer, Address(2), 1, META);
    c.revoke_credential(0, issuer, id).unwrap();
    assert!(c.get_credential(0, id).unwrap().revoked);
}

#[test]
fn regression_290_initiate_recovery_stores_request() {
    let (mut c, env, _) = setup();
    let issuer = Address(1);
    let new_subject = Address(3);
    let cred_id = issue(&mut c, &env, 0, issuer, Address(2), 1, META);
    let rid = c.initiate_recovery(0, issuer, cred_id, new_subject, vec![Address(4)], 1).unwrap();
    let req = c.get_recovery_request(rid).unwrap();
    assert_eq!(req.credential_id, cred_id);
    assert_eq!(req.new_subject, new_subject);
}

#[test]
fn regression_294_detect_fork_with_conflicting_values() {
    let (mut c, env, _) = setup();
    let issuer = Address(1);
    let (a1, a2) = (Address(3), Address(4));
    let cred_id = issue(&mut c, &env, 0, issuer, Address(2), 1, META);
    let slice_id = c.create_slice(issuer, vec![a1, a2], vec![1, 1], 1).unwrap();
    c.attest(0, a1, cred_id, slice_id, true, None).unwrap();
    assert!(c.detect_fork(cred_id, slice_id, a2, false).unwrap());
}

#[test]
fn regression_294_no_fork_for_consistent_values() {
    let (mut c, env, _) = setup();
    let issuer = Address(1);
    let (a1, a2) = (Address(3), Address(4));
    let cred_id = issue(&mut c, &env, 0, issuer, Address(2), 1, META);
    let slice_id = c.create_slice(issuer, vec![a1, a2], vec![1, 1], 1).unwrap();
    c.attest(0, a1, cred_id, slice_id, true, None).unwrap();
    assert!(!c.detect_fork(cred_id, slice_id, a2, true).unwrap());
}

#[test]
fn test_rate_limit_config_default() {
    let (c, _, _) = setup();
    let config = c.get_rate_limit_config_pub();
    assert_eq!(config.max_calls, DEFAULT_RATE_LIMIT_MAX_CALLS);
    assert_eq!(config.window_seconds, DEFAULT_RATE_LIMIT_WINDOW_SECONDS);
}

#[test]
fn test_rate_limit_config_set_by_admin() {
    let (mut c, _, admin) = setup();
    c.set_rate_limit_config(admin, 50, 1800).unwrap();
    let config = c.get_rate_limit_config_pub();
    assert_eq!(config.max_calls, 50);
    assert_eq!(config.window_seconds, 1800);
}

#[test]
fn test_rate_limit_tracking() {
    let (mut c, env, _) = setup();
    let issuer = Address(1);
    issue(&mut c, &env, 0, issuer, Address(2), 1, META);
    let state = c.get_rate_limit_state(issuer);
    assert!(state.is_some());
    assert_eq!(state.unwrap().call_count, 1);
}

#[test]
fn test_add_u32_no_overflow() {
    let (mut c, env, _) = setup();
    for i in 1..=5u32 {
        issue(&mut c, &env, 0, Address(1), Address(2), i, META);
    }
    assert_eq!(c.get_credential_count().unwrap(), 5);
}

#[test]
fn test_validate_u32_bounds_valid() {
    let (mut c, env, _) = setup();
    assert_eq!(issue(&mut c, &env, 0, Address(1), Address(2), 1, META), 1);
}

#[test]
fn test_require_admin_valid() {
    let (mut c, _, admin) = setup();
    c.set_rate_limit_config(admin, 100, 3600).unwrap();
}

#[test]
fn test_require_issuer_valid() {
    let (mut c, env, _) = setup();
    let issuer = Address(1);
    let cred_id = issue(&mut c, &env, 0, issuer, Address(2), 1, META);
    c.revoke_credential(0, issuer, cred_id).unwrap();
}

#[test]
fn test_require_not_blacklisted() {
    let (mut c, _, _) = setup();
    let (issuer, holder) = (Address(1), Address(2));
    c.add_holder_to_blacklist(0, issuer, holder, "Test reason".to_string()).unwrap();
    assert!(c.is_holder_blacklisted(issuer, holder));
}

#[test]
fn test_require_not_revoked() {
    let (mut c, env, _) = setup();
    let issuer = Address(1);
    let attestor = Address(3);
    let cred_id = issue(&mut c, &env, 0, issuer, Address(2), 1, META);
    let slice_id = c.create_slice(issuer, vec![attestor], vec![1], 1).unwrap();
    c.attest(0, attestor, cred_id, slice_id, true, None).unwrap();
    assert!(c.is_attested(0, cred_id, slice_id).unwrap());
    c.revoke_credential(0, issuer, cred_id).unwrap();
    assert!(!c.is_attested(0, cred_id, slice_id).unwrap());
}

#[test]
fn test_require_not_suspended() {
    let (mut c, env, _) = setup();
    let issuer = Address(1);
    let cred_id = issue(&mut c, &env, 0, issuer, Address(2), 1, META);
    c.suspend_credential(0, issuer, cred_id).unwrap();
    let slice_id = c.create_slice(issuer, vec![Address(3)], vec![1], 1).unwrap();
    assert!(!c.is_attested(0, cred_id, slice_id).unwrap());
}

#[test]
fn test_require_credential_exists() {
    let (mut c, env, _) = setup();
    let cred_id = issue(&mut c, &env, 0, Address(1), Address(2), 1, META);
    assert_eq!(c.get_credential(0, cred_id).unwrap().id, cred_id);
}

#[test]
fn test_require_slice_exists() {
    let (mut c, _, _) = setup();
    let slice_id = c.create_slice(Address(1), vec![Address(2)], vec![1], 1).unwrap();
    assert_eq!(c.get_slice(slice_id).unwrap().id, slice_id);
}

#[test]
fn test_credential_management_example() {
    let (mut c, env, _) = setup();
    let (issuer, subject) = (Address(1), Address(2));
    let credential_id = issue(&mut c, &env, 0, issuer, subject, 1, b"QmExampleHash0000000000000000000000");
    assert!(credential_id > 0);
    let credential = c.get_credential(0, credential_id).unwrap();
    assert_eq!(credential.subject, subject);
    assert_eq!(credential.credential_type, 1);
    c.revoke_credential(0, issuer, credential_id).unwrap();
    assert!(c.get_credential(0, credential_id).unwrap().revoked);
}

#[test]
fn test_quorum_slices_example() {
    let (mut c, _, _) = setup();
    let slice_id = c.create_slice(Address(1), vec![Address(2), Address(3)], vec![1, 1], 2).unwrap();
    assert!(slice_id > 0);
    let slice = c.get_slice(slice_id).unwrap();
    assert_eq!(slice.threshold, 2);
    assert_eq!(slice.attestors.len(), 2);
}

#[test]
fn test_metadata_handling_example() {
    let (mut c, env, _) = setup();
    let (issuer, subject) = (Address(1), Address(2));
    let id1 = issue(&mut c, &env, 0, issuer, subject, 1, b"small");
    assert!(id1 > 0);
    let id2 = issue(&mut c, &env, 0, issuer, subject, 2, b"QmVeryLongIPFSHashThatRepresentsCredentialMetadata");
    assert!(id2 > 0);
    assert_ne!(id1, id2);
    assert_eq!(c.get_credential(0, id1).unwrap().credential_type, 1);
    assert_eq!(c.get_credential(0, id2).unwrap().credential_type, 2);
}

#[test]
fn test_slash_attestor() {
    let (mut c, _, admin) = setup();
    let attestor = Address(2);
    let slice_id = c.create_slice(Address(1), vec![attestor], vec![100], 100).unwrap();
    c.slash_attestor(admin, Address(9999), slice_id, attestor).unwrap();
    assert_eq!(c.get_slash_count(attestor), 1);
    assert!(c.is_attestor_suspended(slice_id, attestor));
}

#[test]
fn challenge_upheld_by_member_vote_slashes_accused() {
    let (mut c, env, _) = setup();
    let (issuer, holder, attestor, voter, challenger) = (Address(1), Address(2), Address(3), Address(4), Address(5));
    let cred_id = issue(&mut c, &env, 0, issuer, holder, 1, META);
    let slice_id = c.create_slice(issuer, vec![attestor, voter, challenger], vec![50, 50, 10], 50).unwrap();
    c.attest(0, attestor, cred_id, slice_id, true, None).unwrap();
    let challenge_id = c.challenge_attestation(challenger, cred_id, slice_id, attestor).unwrap();
    c.vote_on_challenge(voter, challenge_id, true).unwrap();
    assert_eq!(c.get_challenge(challenge_id).unwrap().status, ChallengeStatus::Upheld);
    assert_eq!(c.get_slash_count(attestor), 1);
    assert!(c.is_attestor_suspended(slice_id, attestor));
}

#[test]
fn test_delegate_verification_holder_can_delegate() {
    let (mut c, env, _) = setup();
    let (issuer, holder, delegate) = (Address(2), Address(1), Address(3));
    let cred_id = issue(&mut c, &env, 0, issuer, holder, 1, b"metadata_hash");
    let expiry = 3600;
    c.delegate_verification(1, holder, cred_id, delegate, expiry).unwrap();
    let deleg = c.get_delegation(cred_id, delegate).unwrap();
    assert_eq!(deleg.delegate, delegate);
    assert_eq!(deleg.credential_id, cred_id);
    assert_eq!(deleg.expiry, expiry);
}

#[test]
fn test_delegation_audit_entry_written() {
    let (mut c, env, _) = setup();
    let (issuer, holder, delegate) = (Address(2), Address(1), Address(3));
    let cred_id = issue(&mut c, &env, 0, issuer, holder, 1, b"metadata_hash");
    let expiry = 3600;
    c.delegate_verification(1, holder, cred_id, delegate, expiry).unwrap();
    let audit_log = c.get_delegation_audit(cred_id);
    assert_eq!(audit_log.len(), 1);
    assert_eq!(audit_log[0].delegate, delegate);
    assert_eq!(audit_log[0].expiry, expiry);
}

#[test]
fn test_holder_can_grant_multiple_delegations() {
    let (mut c, env, _) = setup();
    let (issuer, holder, d1, d2) = (Address(2), Address(1), Address(3), Address(4));
    let cred_id = issue(&mut c, &env, 0, issuer, holder, 1, b"metadata_hash");
    c.delegate_verification(1, holder, cred_id, d1, 3600).unwrap();
    c.delegate_verification(1, holder, cred_id, d2, 7200).unwrap();
    assert!(c.get_delegation(cred_id, d1).is_some());
    assert!(c.get_delegation(cred_id, d2).is_some());
    assert_eq!(c.get_delegation_audit(cred_id).len(), 2);
}

#[test]
fn test_expired_delegation_is_rejected() {
    let (mut c, env, _) = setup();
    let (issuer, holder, delegate) = (Address(2), Address(1), Address(3));
    let now = 3_600;
    let cred_id = issue(&mut c, &env, now, issuer, holder, 1, b"metadata_hash");
    c.delegate_verification(1, holder, cred_id, delegate, now - 1).unwrap();
    assert!(!c.is_authorized_verifier(now, delegate, cred_id, false));
}

#[test]
fn test_non_delegate_non_holder_cannot_verify() {
    let (mut c, env, _) = setup();
    let (issuer, holder, delegate, unauthorized) = (Address(2), Address(1), Address(3), Address(4));
    let cred_id = issue(&mut c, &env, 0, issuer, holder, 1, b"metadata_hash");
    c.delegate_verification(1, holder, cred_id, delegate, 3600).unwrap();
    assert!(!c.is_authorized_verifier(0, unauthorized, cred_id, false));
    assert!(c.is_authorized_verifier(0, delegate, cred_id, false));
}

#[test]
fn test_update_slice_threshold_issuer_can_update() {
    let (mut c, _, _) = setup();
    let creator = Address(1);
    let slice_id = c.create_slice(creator, vec![Address(2)], vec![100], 50).unwrap();
    c.update_slice_threshold(0, creator, slice_id, 75).unwrap();
    assert_eq!(c.get_slice(slice_id).unwrap().threshold, 75);
}

#[test]
fn test_threshold_audit_entry_written() {
    let (mut c, _, _) = setup();
    let creator = Address(1);
    let slice_id = c.create_slice(creator, vec![Address(2)], vec![100], 50).unwrap();
    c.update_slice_threshold(0, creator, slice_id, 75).unwrap();
    let audit_log = c.get_slice_threshold_audit(slice_id);
    assert_eq!(audit_log.len(), 1);
    assert_eq!(audit_log[0].slice_id, slice_id);
    assert_eq!(audit_log[0].old_threshold, 50);
    assert_eq!(audit_log[0].new_threshold, 75);
    assert_eq!(audit_log[0].changed_by, creator);
}

#[test]
fn test_multiple_threshold_updates_produce_multiple_audit_entries() {
    let (mut c, _, _) = setup();
    let creator = Address(1);
    let slice_id = c.create_slice(creator, vec![Address(2)], vec![100], 50).unwrap();
    c.update_slice_threshold(0, creator, slice_id, 60).unwrap();
    c.update_slice_threshold(0, creator, slice_id, 70).unwrap();
    c.update_slice_threshold(0, creator, slice_id, 80).unwrap();
    let audit_log = c.get_slice_threshold_audit(slice_id);
    assert_eq!(audit_log.len(), 3);
    assert_eq!((audit_log[0].old_threshold, audit_log[0].new_threshold), (50, 60));
    assert_eq!((audit_log[1].old_threshold, audit_log[1].new_threshold), (60, 70));
    assert_eq!((audit_log[2].old_threshold, audit_log[2].new_threshold), (70, 80));
}

fn input(subject: Address, credential_type: u32, metadata_hash: &[u8], expires_at: Option<u64>) -> CredentialInput {
    CredentialInput { subject, credential_type, metadata_hash: metadata_hash.to_vec(), expires_at }
}

#[test]
fn test_issue_batch_all_valid_credentials() {
    let (mut c, _, _) = setup();
    let (issuer, s1, s2) = (Address(1), Address(2), Address(3));
    let batch = vec![input(s1, 1, b"hash1", None), input(s2, 2, b"hash2", Some(1000))];
    match c.issue_batch(0, issuer, &batch).unwrap() {
        BatchResult::Issued(ids) => {
            assert_eq!(ids.len(), 2);
            let cred1 = c.get_credential(0, ids[0]).unwrap();
            assert_eq!(cred1.subject, s1);
            assert_eq!(cred1.credential_type, 1);
            let cred2 = c.get_credential(0, ids[1]).unwrap();
            assert_eq!(cred2.subject, s2);
            assert_eq!(cred2.credential_type, 2);
        }
        BatchResult::Rejected(_) => panic!("Expected success"),
    }
}

#[test]
fn test_issue_batch_invalid_credential_type_zero() {
    let (mut c, _, _) = setup();
    let batch = vec![input(Address(2), 0, b"hash", None)];
    match c.issue_batch(0, Address(1), &batch).unwrap() {
        BatchResult::Issued(_) => panic!("Expected error"),
        BatchResult::Rejected(err) => {
            assert_eq!(err.failing_index, 0);
            assert_eq!(c.get_credential_count().unwrap(), 0);
        }
    }
}

#[test]
fn test_issue_batch_empty_metadata_hash() {
    let (mut c, _, _) = setup();
    let batch = vec![input(Address(2), 1, b"", None)];
    match c.issue_batch(0, Address(1), &batch).unwrap() {
        BatchResult::Issued(_) => panic!("Expected error"),
        BatchResult::Rejected(err) => assert_eq!(err.failing_index, 0),
    }
}

#[test]
fn test_issue_batch_empty_batch_is_valid() {
    let (mut c, _, _) = setup();
    match c.issue_batch(0, Address(1), &Vec::new()).unwrap() {
        BatchResult::Issued(ids) => assert_eq!(ids.len(), 0),
        BatchResult::Rejected(_) => panic!("Expected success for empty batch"),
    }
}

#[test]
fn test_issue_batch_duplicate_in_batch_rejected() {
    let (mut c, _, _) = setup();
    let subject = Address(2);
    let batch = vec![input(subject, 1, b"hash1", None), input(subject, 1, b"hash2", None)];
    match c.issue_batch(0, Address(1), &batch).unwrap() {
        BatchResult::Issued(_) => panic!("Expected error for duplicate in batch"),
        BatchResult::Rejected(err) => {
            assert_eq!(err.failing_index, 1);
            assert_eq!(c.get_credential_count().unwrap(), 0);
        }
    }
}

#[test]
fn test_batch_issue_credentials_success() {
    let mut c = QuorumProofContract::new();
    let issuer = Address(1);
    let (s1, s2, s3) = (Address(2), Address(3), Address(4));
    let hashes = vec![
        b"QmHash1_000000000000000000000000000".to_vec(),
        b"QmHash2_000000000000000000000000000".to_vec(),
        b"QmHash3_000000000000000000000000000".to_vec(),
    ];
    let ids = c.batch_issue_credentials(0, issuer, &vec![s1, s2, s3], &vec![1, 2, 1], &hashes, None).unwrap();
    assert_eq!(ids.len(), 3);
    assert_eq!(c.get_credentials_by_subject(s1, 1, 100).unwrap().len(), 1);
    assert_eq!(c.get_credentials_by_subject(s2, 1, 100).unwrap().len(), 1);
    assert_eq!(c.get_credentials_by_subject(s3, 1, 100).unwrap().len(), 1);
    assert_eq!(ids[1], ids[0] + 1);
    assert_eq!(ids[2], ids[0] + 2);
}

#[test]
fn test_batch_issue_credentials_with_expiry() {
    let mut c = QuorumProofContract::new();
    let issuer = Address(1);
    let hashes = vec![
        b"QmHash1_000000000000000000000000000".to_vec(),
        b"QmHash2_000000000000000000000000000".to_vec(),
    ];
    let ids = c
        .batch_issue_credentials(0, issuer, &vec![Address(2), Address(3)], &vec![1, 2], &hashes, Some(9_999_999))
        .unwrap();
    assert_eq!(ids.len(), 2);
    assert_eq!(c.get_credential(0, ids[0]).unwrap().expires_at, Some(9_999_999));
    assert_eq!(c.get_credential(0, ids[1]).unwrap().expires_at, Some(9_999_999));
}

#[test]
fn test_get_credential_count() {
    let (mut c, env, _) = setup();
    let (issuer, subject) = (Address(1), Address(2));
    assert_eq!(c.get_credential_count().unwrap(), 0);
    let id1 = issue(&mut c, &env, 0, issuer, subject, 1, META);
    issue(&mut c, &env, 0, issuer, subject, 2, META);
    issue(&mut c, &env, 0, issuer, subject, 3, META);
    assert_eq!(c.get_credential_count().unwrap(), 3);
    c.revoke_credential(0, issuer, id1).unwrap();
    assert_eq!(c.get_credential_count().unwrap(), 3);
}

#[test]
fn test_get_slice_count() {
    let (mut c, _, _) = setup();
    assert_eq!(c.get_slice_count().unwrap(), 0);
    c.create_slice(Address(1), vec![Address(2)], vec![1], 1).unwrap();
    c.create_slice(Address(1), vec![Address(2)], vec![1], 1).unwrap();
    assert_eq!(c.get_slice_count().unwrap(), 2);
}

#[test]
fn batch_issued_credentials_join_the_subject_and_type_lookups() {
    let (mut c, env, _) = setup();
    let (issuer, subject) = (Address(1), Address(2));
    let first = issue(&mut c, &env, 0, issuer, subject, 1, META);
    let ids = c
        .batch_issue_credentials(0, issuer, &vec![subject, Address(3)], &vec![2, 1], &vec![META.to_vec(), META.to_vec()], None)
        .unwrap();
    assert_eq!(c.get_credentials_by_subject(subject, 1, 100).unwrap(), vec![first, ids[0]]);
    assert_eq!(c.get_credentials_by_type(1).to_vec(), vec![first, ids[1]]);
    assert_eq!(c.get_credentials_by_type(2).to_vec(), vec![ids[0]]);
    c.revoke_consent(0, subject, first).unwrap();
    assert_eq!(c.get_credentials_by_type(1).to_vec(), vec![ids[1]]);
}
