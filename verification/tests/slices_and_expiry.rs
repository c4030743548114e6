use quorum_proof::state::QuorumProofContract;
use quorum_proof::types::Address;
use soroban_sdk::Env;

const META: &[u8] = b"ipfs://QmTest";

fn setup() -> (QuorumProofContract, Env, Address) {
    let mut c = QuorumProofContract::new();
    let admin = Address(1000);
    c.initialize(admin).unwrap();
    (c, Env::default(), admin)
}

fn issue(c: &mut QuorumProofContract, env: &Env, now: u64, issuer: Address, subject: Address, credential_type: u32) -> u64 {
    c.issue_credential(env, now, issuer, subject, credential_type, META.to_vec(), None, 0)
        .unwrap()
}

/// A credential of `Address(1)` to `Address(2)` and a one-attestor slice of
/// `Address(3)`, both made at `now`.
fn attested_setup(now: u64) -> (QuorumProofContract, u64, u64, Address, Address) {
    let (mut c, env, _) = setup();
    let issuer = Address(1);
    let attestor = Address(3);
    let cred_id = issue(&mut c, &env, now, issuer, Address(2), 1);
    let slice_id = c.create_slice(issuer, vec![attestor], vec![1], 1).unwrap();
    (c, cred_id, slice_id, issuer, attestor)
}

#[test]
fn test_remove_attestor_success() {
    let (mut c, _, _) = setup();
    let creator = Address(1);
    let (a1, a2) = (Address(2), Address(3));
    let slice_id = c.create_slice(creator, vec![a1, a2], vec![1, 1], 2).unwrap();
    c.remove_attestor(creator, slice_id, a2).unwrap();
    let slice = c.get_slice(slice_id).unwrap();
    assert_eq!(slice.attestors.len(), 1);
    assert_eq!(slice.attestors[0], a1);
    assert_eq!(slice.threshold, 1);
}

#[test]
fn test_get_attestors_returns_attested_addresses() {
    let (mut c, env, _) = setup();
    let issuer = Address(1);
    let (a1, a2) = (Address(3), Address(4));
    let cred_id = issue(&mut c, &env, 0, issuer, Address(2), 1);
    let slice_id = c.create_slice(issuer, vec![a1, a2], vec![1, 1], 1).unwrap();
    assert_eq!(c.get_attestors(cred_id).len(), 0);
    c.attest(0, a1, cred_id, slice_id, true, None).unwrap();
    assert_eq!(c.get_attestors(cred_id), vec![a1]);
    c.attest(0, a2, cred_id, slice_id, true, None).unwrap();
    assert_eq!(c.get_attestors(cred_id).len(), 2);
}

#[test]
fn test_credential_exists_returns_true_for_existing() {
    let (mut c, env, _) = setup();
    let cred_id = issue(&mut c, &env, 0, Address(1), Address(2), 1);
    assert!(c.credential_exists(cred_id));
}

#[test]
fn test_credential_exists_returns_false_for_nonexisting() {
    let (c, _, _) = setup();
    assert!(!c.credential_exists(999));
}

#[test]
fn test_slice_exists_returns_true_for_existing() {
    let (mut c, _, _) = setup();
    let slice_id = c.create_slice(Address(1), vec![Address(2)], vec![1], 1).unwrap();
    assert!(c.slice_exists(slice_id));
}

#[test]
fn test_slice_exists_returns_false_for_nonexisting() {
    let (c, _, _) = setup();
    assert!(!c.slice_exists(999));
}

#[test]
fn test_attest_with_expiry_stores_record() {
    let (mut c, cred_id, slice_id, _, attestor) = attested_setup(1_000);
    c.attest(1_000, attestor, cred_id, slice_id, true, Some(5_000)).unwrap();
    let records = c.get_attestation_records(cred_id);
    assert_eq!(records.len(), 1);
    assert_eq!(records[0].attestor, attestor);
    assert_eq!(records[0].expires_at, Some(5_000));
}

#[test]
fn test_is_attestation_expired_false_before_expiry() {
    let (mut c, cred_id, slice_id, _, attestor) = attested_setup(1_000);
    c.attest(1_000, attestor, cred_id, slice_id, true, Some(5_000)).unwrap();
    assert!(!c.is_attestation_expired(1_000, cred_id).unwrap());
}

#[test]
fn test_is_attestation_expired_true_after_expiry() {
    let (mut c, cred_id, slice_id, _, attestor) = attested_setup(1_000);
    c.attest(1_000, attestor, cred_id, slice_id, true, Some(3_000)).unwrap();
    assert!(c.is_attestation_expired(4_000, cred_id).unwrap());
}

#[test]
fn test_is_attestation_expired_false_when_no_expiry() {
    let (mut c, cred_id, slice_id, _, attestor) = attested_setup(0);
    c.attest(0, attestor, cred_id, slice_id, true, None).unwrap();
    assert!(!c.is_attestation_expired(999_999_999, cred_id).unwrap());
}

#[test]
fn test_is_attested_false_when_attestation_expired() {
    let (mut c, cred_id, slice_id, _, attestor) = attested_setup(1_000);
    c.attest(1_000, attestor, cred_id, slice_id, true, Some(3_000)).unwrap();
    assert!(c.is_attested(1_000, cred_id, slice_id).unwrap());
    assert!(!c.is_attested(4_000, cred_id, slice_id).unwrap());
}

#[test]
fn test_renew_attestation_extends_expiry() {
    let (mut c, cred_id, slice_id, _, attestor) = attested_setup(1_000);
    c.attest(1_000, attestor, cred_id, slice_id, true, Some(3_000)).unwrap();
    assert!(c.is_attestation_expired(4_000, cred_id).unwrap());
    assert!(!c.is_attested(4_000, cred_id, slice_id).unwrap());
    c.renew_attestation(4_000, attestor, cred_id, 10_000).unwrap();
    assert!(!c.is_attestation_expired(4_000, cred_id).unwrap());
    assert!(c.is_attested(4_000, cred_id, slice_id).unwrap());
    assert_eq!(c.get_attestation_records(cred_id)[0].expires_at, Some(10_000));
}

#[test]
fn test_set_and_check_attestation_expiry_not_expired() {
    let (mut c, env, _) = setup();
    let issuer = Address(1);
    let cid = issue(&mut c, &env, 1_000, issuer, Address(2), 1);
    c.set_attestation_expiry(1_000, issuer, cid, 5_000).unwrap();
    assert!(!c.is_attestation_expired(1_000, cid).unwrap());
}

#[test]
fn test_attestation_expiry_triggers_after_timestamp() {
    let (mut c, env, _) = setup();
    let issuer = Address(1);
    let cid = issue(&mut c, &env, 1_000, issuer, Address(2), 1);
    c.set_attestation_expiry(1_000, issuer, cid, 2_000).unwrap();
    assert!(c.is_attestation_expired(3_000, cid).unwrap());
}

#[test]
fn test_is_attested_false_after_attestation_expiry() {
    let (mut c, cid, sid, issuer, attestor) = attested_setup(1_000);
    c.attest(1_000, attestor, cid, sid, true, None).unwrap();
    assert!(c.is_attested(1_000, cid, sid).unwrap());
    c.set_attestation_expiry(1_000, issuer, cid, 2_000).unwrap();
    assert!(!c.is_attested(3_000, cid, sid).unwrap());
}

#[test]
fn test_is_attestation_expired_no_expiry_set() {
    let (mut c, env, _) = setup();
    let cid = issue(&mut c, &env, 0, Address(1), Address(2), 1);
    assert!(!c.is_attestation_expired(0, cid).unwrap());
}
