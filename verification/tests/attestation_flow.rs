use quorum_proof::state::QuorumProofContract;
use quorum_proof::types::Address;
use soroban_sdk::Env;

const META: &[u8] = b"QmTestHash000000000000000000000000";

fn setup() -> (QuorumProofContract, Env, Address) {
    let mut c = QuorumProofContract::new();
    let admin = Address(1000);
    c.initialize(admin).unwrap();
    (c, Env::default(), admin)
}

fn issue(
    c: &mut QuorumProofContract,
    env: &Env,
    now: u64,
    issuer: Address,
    subject: Address,
    credential_type: u32,
    metadata: &[u8],
    expires_at: Option<u64>,
) -> u64 {
    c.issue_credential(env, now, issuer, subject, credential_type, metadata.to_vec(), expires_at, 0)
        .unwrap()
}

#[test]
fn test_transfer_full_flow() {
    let (mut c, env, _) = setup();
    let subject = Address(2);
    let recipient = Address(3);
    let id = issue(&mut c, &env, 0, Address(1), subject, 1, META, None);
    c.initiate_transfer(subject, id, recipient).unwrap();
    c.accept_transfer(recipient, id).unwrap();
    assert_eq!(c.get_credential(0, id).unwrap().subject, recipient);
}

#[test]
fn test_transfer_updates_subject_credential_lists() {
    let (mut c, env, _) = setup();
    let subject = Address(2);
    let recipient = Address(3);
    let id = issue(&mut c, &env, 0, Address(1), subject, 1, META, None);
    c.initiate_transfer(subject, id, recipient).unwrap();
    c.accept_transfer(recipient, id).unwrap();
    let old_list = c.get_credentials_by_subject(subject, 1, 50).unwrap();
    let new_list = c.get_credentials_by_subject(recipient, 1, 50).unwrap();
    assert!(!old_list.contains(&id));
    assert!(new_list.contains(&id));
}

#[test]
fn test_is_attested_returns_false_when_expired() {
    let (mut c, env, _) = setup();
    let issuer = Address(1);
    let attestor = Address(3);
    let cred_id = issue(&mut c, &env, 1_000, issuer, Address(2), 1, META, Some(2_000));
    let slice_id = c.create_slice(issuer, vec![attestor], vec![1], 1).unwrap();
    c.attest(1_000, attestor, cred_id, slice_id, true, None).unwrap();
    assert!(c.is_attested(1_000, cred_id, slice_id).unwrap());
    assert!(!c.is_attested(3_000, cred_id, slice_id).unwrap());
}

#[test]
fn test_is_attested_returns_false_before_threshold_is_met() {
    let (mut c, env, _) = setup();
    let (a1, a2, a3) = (Address(3), Address(4), Address(5));
    let cred_id = issue(&mut c, &env, 0, Address(1), Address(2), 1, META, None);
    let slice_id = c.create_slice(Address(6), vec![a1, a2, a3], vec![1, 1, 1], 3).unwrap();
    c.attest(0, a1, cred_id, slice_id, true, None).unwrap();
    c.attest(0, a2, cred_id, slice_id, true, None).unwrap();
    assert!(!c.is_attested(0, cred_id, slice_id).unwrap());
}

// The second credential is of another type: issuing the same type twice from
// one issuer to one subject is refused as a duplicate.
#[test]
fn test_verify_attestations_batch_all_attested() {
    let (mut c, env, _) = setup();
    let issuer = Address(1);
    let subject = Address(2);
    let attestor = Address(3);
    let cred1 = issue(&mut c, &env, 0, issuer, subject, 1, META, None);
    let cred2 = issue(&mut c, &env, 0, issuer, subject, 2, META, None);
    let slice_id = c.create_slice(issuer, vec![attestor], vec![1], 1).unwrap();
    c.attest(0, attestor, cred1, slice_id, true, None).unwrap();
    c.attest(0, attestor, cred2, slice_id, true, None).unwrap();
    let results = c.verify_attestations_batch(0, &vec![cred1, cred2], &vec![slice_id, slice_id]).unwrap();
    assert_eq!(results, vec![true, true]);
}

#[test]
fn test_verify_attestations_batch_mixed_results() {
    let (mut c, env, _) = setup();
    let issuer = Address(1);
    let subject = Address(2);
    let attestor = Address(3);
    let cred1 = issue(&mut c, &env, 0, issuer, subject, 1, META, None);
    let cred2 = issue(&mut c, &env, 0, issuer, subject, 2, META, None);
    let slice_id = c.create_slice(issuer, vec![attestor], vec![1], 1).unwrap();
    c.attest(0, attestor, cred1, slice_id, true, None).unwrap();
    let results = c.verify_attestations_batch(0, &vec![cred1, cred2], &vec![slice_id, slice_id]).unwrap();
    assert!(results[0]);
    assert!(!results[1]);
}

#[test]
fn test_verify_attestations_batch_revoked_returns_false() {
    let (mut c, env, _) = setup();
    let issuer = Address(1);
    let attestor = Address(3);
    let cred_id = issue(&mut c, &env, 0, issuer, Address(2), 1, META, None);
    let slice_id = c.create_slice(issuer, vec![attestor], vec![1], 1).unwrap();
    c.attest(0, attestor, cred_id, slice_id, true, None).unwrap();
    c.revoke_credential(0, issuer, cred_id).unwrap();
    let results = c.verify_attestations_batch(0, &vec![cred_id], &vec![slice_id]).unwrap();
    assert!(!results[0]);
}

#[test]
fn test_add_attestor_success() {
    let mut c = QuorumProofContract::new();
    let creator = Address(1);
    let attestor2 = Address(3);
    let slice_id = c.create_slice(creator, vec![Address(2)], vec![1], 1).unwrap();
    c.add_attestor(creator, slice_id, attestor2, 1).unwrap();
    let slice = c.get_slice(slice_id).unwrap();
    assert_eq!(slice.attestors.len(), 2);
    assert_eq!(slice.attestors[1], attestor2);
}

#[test]
fn test_add_attestor_enables_attestation() {
    let mut c = QuorumProofContract::new();
    let env = Env::default();
    let creator = Address(1);
    let (a1, a2) = (Address(4), Address(5));
    let slice_id = c.create_slice(creator, vec![a1], vec![1], 1).unwrap();
    let cred_id = issue(&mut c, &env, 0, Address(2), Address(3), 1, META, None);
    c.attest(0, a1, cred_id, slice_id, true, None).unwrap();
    assert!(c.is_attested(0, cred_id, slice_id).unwrap());
    c.add_attestor(creator, slice_id, a2, 1).unwrap();
    c.update_slice_threshold(0, creator, slice_id, 2).unwrap();
    assert!(!c.is_attested(0, cred_id, slice_id).unwrap());
    c.attest(0, a2, cred_id, slice_id, true, None).unwrap();
    assert!(c.is_attested(0, cred_id, slice_id).unwrap());
}

#[test]
fn test_get_attestor_reputation_increments_per_attestation() {
    let (mut c, env, _) = setup();
    let issuer = Address(1);
    let subject = Address(2);
    let attestor = Address(3);
    let slice_id = c.create_slice(issuer, vec![attestor], vec![1], 1).unwrap();
    let cred_id1 = issue(&mut c, &env, 0, issuer, subject, 1, META, None);
    let cred_id2 = issue(&mut c, &env, 0, issuer, subject, 2, META, None);
    assert_eq!(c.get_attestor_reputation(attestor), 0);
    c.attest(0, attestor, cred_id1, slice_id, true, None).unwrap();
    assert_eq!(c.get_attestor_reputation(attestor), 1);
    c.attest(0, attestor, cred_id2, slice_id, true, None).unwrap();
    assert_eq!(c.get_attestor_reputation(attestor), 2);
}

#[test]
fn test_get_attestation_count() {
    let (mut c, env, _) = setup();
    let issuer = Address(1);
    let (a1, a2) = (Address(3), Address(4));
    let cred_id = issue(&mut c, &env, 0, issuer, Address(2), 1, META, None);
    let slice_id = c.create_slice(issuer, vec![a1, a2], vec![1, 1], 1).unwrap();
    assert_eq!(c.get_attestation_count(cred_id), 0);
    c.attest(0, a1, cred_id, slice_id, true, None).unwrap();
    assert_eq!(c.get_attestation_count(cred_id), 1);
    c.attest(0, a2, cred_id, slice_id, true, None).unwrap();
    assert_eq!(c.get_attestation_count(cred_id), 2);
}

#[test]
fn test_notification_event_emitted_on_attest() {
    let (mut c, env, _) = setup();
    let issuer = Address(1);
    let subject = Address(2);
    let attestor = Address(3);
    let cred_id = issue(&mut c, &env, 0, issuer, subject, 1, META, None);
    let slice_id = c.create_slice(issuer, vec![attestor], vec![1], 1).unwrap();
    c.attest(0, attestor, cred_id, slice_id, true, None).unwrap();
    assert!(!c.get_notification_history(subject).is_empty());
}

#[test]
fn test_notification_history_stored_on_attest() {
    let (mut c, env, _) = setup();
    let issuer = Address(1);
    let subject = Address(2);
    let attestor = Address(3);
    let cred_id = issue(&mut c, &env, 0, issuer, subject, 1, META, None);
    let slice_id = c.create_slice(issuer, vec![attestor], vec![1], 1).unwrap();
    assert_eq!(c.get_notification_history(subject).len(), 0);
    c.attest(0, attestor, cred_id, slice_id, true, None).unwrap();
    let history = c.get_notification_history(subject);
    assert_eq!(history.len(), 1);
    assert_eq!(history[0].credential_id, cred_id);
    assert_eq!(history[0].attestor, attestor);
    assert_eq!(history[0].slice_id, slice_id);
}

#[test]
fn test_notification_history_accumulates_multiple_attestors() {
    let (mut c, env, _) = setup();
    let issuer = Address(1);
    let subject = Address(2);
    let (a1, a2) = (Address(3), Address(4));
    let cred_id = issue(&mut c, &env, 0, issuer, subject, 1, META, None);
    let slice_id = c.create_slice(issuer, vec![a1, a2], vec![1, 1], 1).unwrap();
    c.attest(0, a1, cred_id, slice_id, true, None).unwrap();
    c.attest(0, a2, cred_id, slice_id, true, None).unwrap();
    assert_eq!(c.get_notification_history(subject).len(), 2);
}

#[test]
fn test_set_and_get_attestation_metadata() {
    let (mut c, env, _) = setup();
    let issuer = Address(1);
    let attestor = Address(3);
    let cred_id = issue(&mut c, &env, 0, issuer, Address(2), 1, META, None);
    let slice_id = c.create_slice(issuer, vec![attestor], vec![1], 1).unwrap();
    c.attest(0, attestor, cred_id, slice_id, true, None).unwrap();
    let meta = b"ref:ENG-2024-001".to_vec();
    c.set_attestation_metadata(attestor, cred_id, meta.clone()).unwrap();
    assert_eq!(c.get_attestation_metadata(cred_id, attestor), Some(meta));
}

#[test]
fn test_get_attestation_metadata_none_when_not_set() {
    let (mut c, env, _) = setup();
    let issuer = Address(1);
    let attestor = Address(3);
    let cred_id = issue(&mut c, &env, 0, issuer, Address(2), 1, META, None);
    let slice_id = c.create_slice(issuer, vec![attestor], vec![1], 1).unwrap();
    c.attest(0, attestor, cred_id, slice_id, true, None).unwrap();
    assert_eq!(c.get_attestation_metadata(cred_id, attestor), None);
}

#[test]
fn test_different_credential_types_allowed() {
    let mut c = QuorumProofContract::new();
    let env = Env::default();
    let (issuer, subject) = (Address(1), Address(2));
    assert_eq!(issue(&mut c, &env, 0, issuer, subject, 1, META, None), 1);
    assert_eq!(issue(&mut c, &env, 0, issuer, subject, 2, META, None), 2);
    assert_eq!(issue(&mut c, &env, 0, issuer, subject, 3, META, None), 3);
}

#[test]
fn test_different_issuers_allowed() {
    let mut c = QuorumProofContract::new();
    let env = Env::default();
    let subject = Address(3);
    assert_eq!(issue(&mut c, &env, 0, Address(1), subject, 1, META, None), 1);
    assert_eq!(issue(&mut c, &env, 0, Address(2), subject, 1, META, None), 2);
}

#[test]
fn test_different_subjects_allowed() {
    let mut c = QuorumProofContract::new();
    let env = Env::default();
    let issuer = Address(1);
    assert_eq!(issue(&mut c, &env, 0, issuer, Address(2), 1, META, None), 1);
    assert_eq!(issue(&mut c, &env, 0, issuer, Address(3), 1, META, None), 2);
}
