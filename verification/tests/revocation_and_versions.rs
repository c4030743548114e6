use quorum_proof::state::QuorumProofContract;
use quorum_proof::types::{Address, RevocationAuditAction, RevocationStatus};
use soroban_sdk::Env;
use std::collections::HashMap;

const META: &[u8] = b"QmTestHash000000000000000000000000";

fn setup() -> (QuorumProofContract, Env, Address) {
    let mut c = QuorumProofContract::new();
    let admin = Address(1000);
    c.initialize(admin).unwrap();
    (c, Env::default(), admin)
}

fn issue_with(c: &mut QuorumProofContract, env: &Env, now: u64, issuer: Address, subject: Address, t: u32, meta: &[u8]) -> u64 {
    c.issue_credential(env, now, issuer, subject, t, meta.to_vec(), None, 0)
        .unwrap()
}

#[test]
fn test_holder_can_request_revocation() {
    let (mut c, env, _) = setup();
    let issuer = Address(1);
    let holder = Address(2);
    let cred_id = issue_with(&mut c, &env, 0, issuer, holder, 1, META);
    c.request_revocation(0, 1, holder, cred_id).unwrap();
    let request = c.get_revocation_request(cred_id).unwrap();
    assert_eq!(request.holder, holder);
    assert_eq!(request.status, RevocationStatus::Pending);
    let trail = c.get_revocation_audit_trail(cred_id);
    assert_eq!(trail.len(), 1);
    assert_eq!(trail[0].action, RevocationAuditAction::RequestSubmitted);
}

#[test]
fn test_issuer_approve_revocation_revokes_credential() {
    let (mut c, env, _) = setup();
    let issuer = Address(1);
    let holder = Address(2);
    let cred_id = issue_with(&mut c, &env, 0, issuer, holder, 1, META);
    c.request_revocation(0, 1, holder, cred_id).unwrap();
    c.approve_revocation(0, 1, issuer, cred_id).unwrap();
    assert!(c.get_credential(0, cred_id).unwrap().revoked);
    assert_eq!(c.get_revocation_request(cred_id).unwrap().status, RevocationStatus::Approved);
    let trail = c.get_revocation_audit_trail(cred_id);
    assert_eq!(trail.len(), 2);
    assert_eq!(trail[1].action, RevocationAuditAction::Approved);
}

#[test]
fn test_issuer_deny_revocation_keeps_credential_active() {
    let (mut c, env, _) = setup();
    let issuer = Address(1);
    let holder = Address(2);
    let cred_id = issue_with(&mut c, &env, 0, issuer, holder, 1, META);
    c.request_revocation(0, 1, holder, cred_id).unwrap();
    c.deny_revocation(0, 1, issuer, cred_id).unwrap();
    assert!(!c.get_credential(0, cred_id).unwrap().revoked);
    assert_eq!(c.get_revocation_request(cred_id).unwrap().status, RevocationStatus::Denied);
    let trail = c.get_revocation_audit_trail(cred_id);
    assert_eq!(trail.len(), 2);
    assert_eq!(trail[1].action, RevocationAuditAction::Denied);
}

#[test]
fn test_encrypted_metadata_stored_and_key_access() {
    let (mut c, env, _) = setup();
    let issuer = Address(1);
    let party = Address(3);
    let cred_id = issue_with(&mut c, &env, 0, issuer, Address(2), 1, META);
    let ciphertext = b"aes256-ciphertext-bytes".to_vec();
    let mut keys = HashMap::new();
    keys.insert(party.0, b"encrypted-data-key-for-party".to_vec());
    c.set_encrypted_metadata(issuer, cred_id, ciphertext.clone(), keys).unwrap();
    let stored = c.get_encrypted_metadata(cred_id).unwrap();
    assert_eq!(stored.ciphertext, ciphertext);
    assert!(stored.encrypted_keys.get(&party.0).is_some());
    let unauthorized = Address(4);
    assert!(stored.encrypted_keys.get(&unauthorized.0).is_none());
}

#[test]
fn test_grant_and_revoke_decryption_access() {
    let (mut c, env, _) = setup();
    let issuer = Address(1);
    let party = Address(3);
    let cred_id = issue_with(&mut c, &env, 0, issuer, Address(2), 1, META);
    c.set_encrypted_metadata(issuer, cred_id, b"aes256-ciphertext".to_vec(), HashMap::new()).unwrap();
    let enc_key = b"party-encrypted-key".to_vec();
    c.grant_decryption_access(issuer, cred_id, party, enc_key.clone()).unwrap();
    assert_eq!(c.get_encrypted_metadata(cred_id).unwrap().encrypted_keys.get(&party.0), Some(&enc_key));
    c.revoke_decryption_access(issuer, cred_id, party).unwrap();
    assert!(c.get_encrypted_metadata(cred_id).unwrap().encrypted_keys.get(&party.0).is_none());
}

#[test]
fn test_credential_versioning_history() {
    let (mut c, env, _) = setup();
    let issuer = Address(1);
    let meta_v1 = b"QmVersion1Hash0000000000000000000".to_vec();
    let cred_id = issue_with(&mut c, &env, 0, issuer, Address(2), 1, &meta_v1);
    let history = c.get_credential_version_history(cred_id);
    assert_eq!(history.len(), 1);
    assert_eq!(history[0].version, 1);
    let meta_v2 = b"QmVersion2Hash0000000000000000000".to_vec();
    c.update_metadata(2000, issuer, cred_id, meta_v2.clone()).unwrap();
    let history = c.get_credential_version_history(cred_id);
    assert_eq!(history.len(), 2);
    assert_eq!(history[1].version, 2);
    assert_eq!(c.get_credential(2000, cred_id).unwrap().version, 2);
    assert_eq!(c.get_credential_version(cred_id, 1).unwrap().metadata, meta_v1);
    assert_eq!(c.get_credential_version(cred_id, 2).unwrap().metadata, meta_v2);
    assert_eq!(c.get_version_at(cred_id, 2200).unwrap().version, 2);
}

#[test]
fn test_postcondition_credential_stored_after_issue() {
    let (mut c, env, _) = setup();
    let cid = issue_with(&mut c, &env, 0, Address(1), Address(2), 1, b"ipfs://QmTest");
    assert!(c.credential_exists(cid));
}

#[test]
fn test_postcondition_slice_stored_after_create() {
    let (mut c, _, _) = setup();
    let sid = c.create_slice(Address(1), vec![Address(2)], vec![1], 1).unwrap();
    assert!(c.slice_exists(sid));
}

#[test]
fn test_snapshot_credential_state() {
    let (mut c, env, _) = setup();
    let cid = issue_with(&mut c, &env, 0, Address(1), Address(2), 1, b"QmSnapshotHash00000000000000000000");
    assert_eq!(c.get_credential_count().unwrap(), 1);
    assert_eq!(cid, 1);
}

#[test]
fn test_snapshot_slice_state() {
    let (mut c, _, _) = setup();
    let slice_id = c.create_slice(Address(1), vec![Address(2)], vec![1], 1).unwrap();
    assert!(c.slice_exists(slice_id));
    assert_eq!(c.get_slice_count().unwrap(), 1);
}

#[test]
fn test_snapshot_attestation_state() {
    let (mut c, env, _) = setup();
    let issuer = Address(1);
    let attestor = Address(3);
    let cid = issue_with(&mut c, &env, 0, issuer, Address(2), 1, b"QmSnapshotHash00000000000000000000");
    let slice_id = c.create_slice(issuer, vec![attestor], vec![1], 1).unwrap();
    c.attest(0, attestor, cid, slice_id, true, None).unwrap();
    assert!(c.is_attested(0, cid, slice_id).unwrap());
    assert_eq!(c.get_attestation_count(cid), 1);
}

#[test]
fn fuzz_issue_credential_sequential_ids() {
    let (mut c, env, _) = setup();
    let issuer = Address(1);
    let subject = Address(2);
    for i in 1u32..=5 {
        let cid = issue_with(&mut c, &env, 0, issuer, subject, i, b"QmFuzzHash000000000000000000000000");
        assert_eq!(cid, i as u64);
        assert_eq!(c.get_credential_count().unwrap(), i as u64);
    }
}
