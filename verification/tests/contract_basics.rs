use quorum_proof::state::QuorumProofContract;
use quorum_proof::types::Address;
use soroban_sdk::Env;

const META: &[u8] = b"QmTestHash000000000000000000000000";

fn setup() -> (QuorumProofContract, Env, Address) {
    let mut c = QuorumProofContract::new();
    let admin = Address(1000);
    c.initialize(admin).unwrap();
    (c, Env::default(), admin)
}

fn issue(
    c: &mut QuorumProofContract,
    env: &Env,
    now: u64,
    issuer: Address,
    subject: Address,
    credential_type: u32,
    metadata: &[u8],
    expires_at: Option<u64>,
) -> u64 {
    c.issue_credential(env, now, issuer, subject, credential_type, metadata.to_vec(), expires_at, 0)
        .unwrap()
}

fn one_attestor_slice(c: &mut QuorumProofContract, creator: Address, attestor: Address) -> u64 {
    c.create_slice(creator, vec![attestor], vec![1], 1).unwrap()
}

#[test]
fn test_deploy_contract_registers() {
    let c = QuorumProofContract::new();
    assert!(!c.is_paused());
    assert!(!c.credential_exists(1));
    assert!(c.get_credential_count().is_err());
}

#[test]
fn test_deploy_initialize_sets_admin() {
    let mut c = QuorumProofContract::new();
    let admin = Address(1);
    c.initialize(admin).unwrap();
    assert!(!c.is_paused());
    assert!(c.require_admin(admin).is_ok());
}

#[test]
fn test_get_attestor_count() {
    let (mut c, env, _) = setup();
    let creator = Address(1);
    let attestor = Address(2);
    assert_eq!(c.get_attestor_count(attestor), 0);
    let issuer = Address(3);
    let subject = Address(4);
    let cid = issue(&mut c, &env, 0, issuer, subject, 1, META, None);
    let slice_id = one_attestor_slice(&mut c, creator, attestor);
    c.attest(0, attestor, cid, slice_id, true, None).unwrap();
    assert_eq!(c.get_attestor_count(attestor), 1);
}

#[test]
fn test_storage_persists_across_ledgers() {
    let mut c = QuorumProofContract::new();
    let env = Env::default();
    let issuer = Address(1);
    let subject = Address(2);
    let id = issue(&mut c, &env, 0, issuer, subject, 1, META, None);
    let cred = c.get_credential(1_000, id).unwrap();
    assert_eq!(cred.id, id);
    assert_eq!(cred.subject, subject);
    assert!(!cred.revoked);
}

#[test]
fn test_is_paused_false_before_pause() {
    let mut c = QuorumProofContract::new();
    let env = Env::default();
    assert!(!c.is_paused());
    let id = issue(&mut c, &env, 0, Address(1), Address(2), 1, META, None);
    assert_eq!(id, 1);
}

#[test]
fn test_pause_and_unpause() {
    let (mut c, _, admin) = setup();
    c.pause(admin).unwrap();
    assert!(c.is_paused());
    c.unpause(admin).unwrap();
    assert!(!c.is_paused());
}

#[test]
fn test_issuer_field_stored_on_credential() {
    let (mut c, env, _) = setup();
    let issuer = Address(1);
    let id = issue(&mut c, &env, 0, issuer, Address(2), 1, b"ipfs://QmTest", None);
    assert_eq!(c.get_credential(0, id).unwrap().issuer, issuer);
}

#[test]
fn test_different_issuers_produce_distinct_provenance() {
    let mut c = QuorumProofContract::new();
    let env = Env::default();
    let issuer_a = Address(1);
    let issuer_b = Address(2);
    let subject = Address(3);
    let id_a = issue(&mut c, &env, 0, issuer_a, subject, 1, META, None);
    let id_b = issue(&mut c, &env, 0, issuer_b, subject, 1, META, None);
    assert_eq!(c.get_credential(0, id_a).unwrap().issuer, issuer_a);
    assert_eq!(c.get_credential(0, id_b).unwrap().issuer, issuer_b);
    assert_ne!(c.get_credential(0, id_a).unwrap().issuer, c.get_credential(0, id_b).unwrap().issuer);
}

#[test]
fn test_unpause_allows_issue_credential() {
    let (mut c, env, admin) = setup();
    c.pause(admin).unwrap();
    c.unpause(admin).unwrap();
    let subject = Address(2);
    let credential_type: u32 = 42;
    let id = issue(&mut c, &env, 0, Address(1), subject, credential_type, META, None);
    let cred = c.get_credential(0, id).unwrap();
    assert_eq!(cred.id, id);
    assert_eq!(cred.subject, subject);
    assert_eq!(cred.credential_type, credential_type);
}

#[test]
fn test_issue_and_get_credential() {
    let mut c = QuorumProofContract::new();
    let id = c.create_slice(Address(1), vec![Address(2), Address(3)], vec![1, 1], 2).unwrap();
    assert_eq!(id, 1);
    assert_eq!(c.get_slice(id).unwrap().attestors.len(), 2);
}

#[test]
fn test_subject_revoke_credential() {
    let (mut c, env, _) = setup();
    let issuer = Address(1);
    let id = issue(&mut c, &env, 0, issuer, Address(2), 1, META, None);
    c.revoke_credential(0, issuer, id).unwrap();
    assert!(c.get_credential(0, id).unwrap().revoked);
}

#[test]
fn test_suspend_and_resume_credential() {
    let (mut c, env, _) = setup();
    let issuer = Address(1);
    let id = issue(&mut c, &env, 0, issuer, Address(2), 1, META, None);
    assert!(!c.is_suspended(id).unwrap());
    c.suspend_credential(0, issuer, id).unwrap();
    assert!(c.is_suspended(id).unwrap());
    assert!(c.get_credential(0, id).unwrap().suspended);
    c.resume_credential(0, issuer, id).unwrap();
    assert!(!c.is_suspended(id).unwrap());
    assert!(!c.get_credential(0, id).unwrap().suspended);
}

#[test]
fn test_quorum_slice_and_attestation() {
    let (mut c, env, _) = setup();
    let attestor = Address(3);
    let cred_id = issue(&mut c, &env, 0, Address(1), Address(2), 1, META, None);
    let slice_id = one_attestor_slice(&mut c, Address(4), attestor);
    assert!(!c.is_attested(0, cred_id, slice_id).unwrap());
    c.attest(0, attestor, cred_id, slice_id, true, None).unwrap();
    assert!(c.is_attested(0, cred_id, slice_id).unwrap());
}

#[test]
fn test_get_slice_creator_matches() {
    let (mut c, _, _) = setup();
    let creator = Address(1);
    let slice_id = one_attestor_slice(&mut c, creator, Address(2));
    assert_eq!(c.get_slice_creator(slice_id).unwrap(), creator);
}

#[test]
fn test_get_credentials_by_subject_multiple() {
    let mut c = QuorumProofContract::new();
    let env = Env::default();
    let issuer = Address(1);
    let subject = Address(2);
    let id1 = issue(&mut c, &env, 0, issuer, subject, 1, META, None);
    let id2 = issue(&mut c, &env, 0, issuer, subject, 2, META, None);
    let id3 = issue(&mut c, &env, 0, issuer, subject, 3, META, None);
    let ids = c.get_credentials_by_subject(subject, 1, 100).unwrap();
    assert_eq!(ids, vec![id1, id2, id3]);
}

#[test]
fn test_revoke_prunes_subject_credentials_only_for_target_subject() {
    let (mut c, env, _) = setup();
    let issuer = Address(1);
    let subject_a = Address(2);
    let subject_b = Address(3);
    let id_a1 = issue(&mut c, &env, 0, issuer, subject_a, 1, META, None);
    let id_a2 = issue(&mut c, &env, 0, issuer, subject_a, 2, META, None);
    let id_b1 = issue(&mut c, &env, 0, issuer, subject_b, 1, META, None);
    assert_eq!(c.get_credentials_by_subject(subject_a, 1, 100).unwrap(), vec![id_a1, id_a2]);
    assert_eq!(c.get_credentials_by_subject(subject_b, 1, 100).unwrap(), vec![id_b1]);
    c.revoke_credential(0, issuer, id_a1).unwrap();
    assert_eq!(c.get_credentials_by_subject(subject_a, 1, 100).unwrap(), vec![id_a2]);
    assert_eq!(c.get_credentials_by_subject(subject_b, 1, 100).unwrap(), vec![id_b1]);
    assert!(c.get_credential(0, id_a1).unwrap().revoked);
}

#[test]
fn test_update_threshold_success() {
    let c = QuorumProofContract::new();
    let ids = c.get_credentials_by_subject(Address(1), 1, 100).unwrap();
    assert_eq!(ids.len(), 0);
}

#[test]
fn test_single_attestation_produces_exactly_one_entry() {
    let (mut c, env, _) = setup();
    let issuer = Address(1);
    let attestor = Address(3);
    let cred_id = issue(&mut c, &env, 0, issuer, Address(2), 1, META, None);
    let slice_id = one_attestor_slice(&mut c, issuer, attestor);
    c.attest(0, attestor, cred_id, slice_id, true, None).unwrap();
    assert_eq!(c.get_attestors(cred_id).len(), 1);
}

#[test]
fn test_is_expired_no_expiry() {
    let mut c = QuorumProofContract::new();
    let env = Env::default();
    let id = issue(&mut c, &env, 0, Address(1), Address(2), 1, META, None);
    assert!(!c.is_expired(999_999_999, id).unwrap());
}

#[test]
fn test_credential_not_expired_before_expiry() {
    let (mut c, env, _) = setup();
    let id = issue(&mut c, &env, 0, Address(1), Address(2), 1, META, Some(2_000));
    assert!(!c.is_expired(0, id).unwrap());
}

#[test]
fn test_credential_expired_after_expiry() {
    let (mut c, env, _) = setup();
    let id = issue(&mut c, &env, 1_000, Address(1), Address(2), 1, META, Some(2_000));
    assert!(c.is_expired(3_000, id).unwrap());
}

#[test]
fn test_version_increments_on_update_metadata() {
    let (mut c, env, _) = setup();
    let issuer = Address(1);
    let id = issue(&mut c, &env, 0, issuer, Address(2), 1, META, None);
    assert_eq!(c.get_credential(0, id).unwrap().version, 1);
    let new_metadata = b"QmUpdatedHash0000000000000000000000".to_vec();
    c.update_metadata(0, issuer, id, new_metadata.clone()).unwrap();
    let v2 = c.get_credential(0, id).unwrap();
    assert_eq!(v2.version, 2);
    assert_eq!(v2.metadata_hash, new_metadata);
    c.update_metadata(0, issuer, id, META.to_vec()).unwrap();
    assert_eq!(c.get_credential(0, id).unwrap().version, 3);
}

fn two_credentials_one_slice() -> (QuorumProofContract, u64, u64, u64) {
    let (mut c, env, _) = setup();
    let issuer = Address(1);
    let a = issue(&mut c, &env, 0, issuer, Address(2), 1, META, None);
    let b = issue(&mut c, &env, 0, issuer, Address(4), 2, META, None);
    let slice_id = one_attestor_slice(&mut c, issuer, Address(3));
    (c, a, b, slice_id)
}

#[test]
fn batch_attest_attests_each_credential_in_order() {
    let (mut c, a, b, slice_id) = two_credentials_one_slice();
    let attestor = Address(3);
    c.batch_attest(10, attestor, &vec![a, b], slice_id, true, None).unwrap();
    assert_eq!(c.get_attestors(a), vec![attestor]);
    assert_eq!(c.get_attestors(b), vec![attestor]);
    assert_eq!(c.get_attestor_count(attestor), 2);
    assert!(c.is_attested(10, a, slice_id).unwrap());
    assert!(c.is_attested(10, b, slice_id).unwrap());
}

#[test]
fn batch_attest_of_one_credential_matches_attest() {
    let (mut batched, a, _, slice_id) = two_credentials_one_slice();
    let (mut single, a2, _, slice_id2) = two_credentials_one_slice();
    let attestor = Address(3);
    batched.batch_attest(10, attestor, &vec![a], slice_id, true, None).unwrap();
    single.attest(10, attestor, a2, slice_id2, true, None).unwrap();
    assert_eq!(batched.get_attestors(a), single.get_attestors(a2));
    assert_eq!(batched.get_attestation_count(a), single.get_attestation_count(a2));
    assert_eq!(batched.get_attestor_count(attestor), single.get_attestor_count(attestor));
}

#[test]
fn batch_attest_refuses_the_whole_batch_on_a_repeat() {
    let (mut c, a, b, slice_id) = two_credentials_one_slice();
    let attestor = Address(3);
    c.attest(10, attestor, b, slice_id, true, None).unwrap();
    assert!(c.batch_attest(10, attestor, &vec![a, b], slice_id, true, None).is_err());
    assert_eq!(c.get_attestors(a).len(), 0);
    assert_eq!(c.get_attestor_count(attestor), 1);
}

#[test]
fn revoke_consent_drops_the_credential_from_the_subject_listing() {
    let (mut c, env, _) = setup();
    let (issuer, subject) = (Address(1), Address(2));
    let id1 = issue(&mut c, &env, 0, issuer, subject, 1, META, None);
    let id2 = issue(&mut c, &env, 0, issuer, subject, 2, META, None);
    c.revoke_consent(0, subject, id1).unwrap();
    assert_eq!(c.get_credentials_by_subject(subject, 1, 100).unwrap(), vec![id2]);
    assert!(c.get_credential(0, id1).unwrap().revoked);
}

#[test]
fn a_revoked_credential_passed_on_stays_out_of_the_listings() {
    let (mut c, env, _) = setup();
    let (issuer, subject, to) = (Address(1), Address(2), Address(5));
    let id = issue(&mut c, &env, 0, issuer, subject, 1, META, None);
    c.initiate_transfer(subject, id, to).unwrap();
    c.revoke_credential(0, issuer, id).unwrap();
    c.accept_transfer(to, id).unwrap();
    assert_eq!(c.get_credential(0, id).unwrap().subject, to);
    assert!(c.get_credentials_by_subject(to, 1, 100).unwrap().is_empty());
    assert!(c.get_credentials_by_subject(subject, 1, 100).unwrap().is_empty());
}
