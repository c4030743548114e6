use quorum_proof::errors::{ContractError, Fault};
use quorum_proof::state::QuorumProofContract;
use quorum_proof::types::{ActivityType, Address, RecoveryStatus};
use soroban_sdk::Env;

const META: &[u8] = b"QmTestHash000000000000000000000000";

fn setup() -> (QuorumProofContract, Env, Address) {
    let mut c = QuorumProofContract::new();
    let admin = Address(1000);
    c.initialize(admin).unwrap();
    (c, Env::default(), admin)
}

fn issue(c: &mut QuorumProofContract, env: &Env, issuer: Address, subject: Address) -> u64 {
    c.issue_credential(env, 0, issuer, subject, 1, META.to_vec(), None, 0)
        .unwrap()
}

/// A credential of `Address(1)` to `Address(2)` and a one-attestor slice of `Address(3)`.
fn window_setup() -> (QuorumProofContract, u64, u64, Address, Address) {
    let (mut c, env, _) = setup();
    let issuer = Address(1);
    let attestor = Address(3);
    let cid = issue(&mut c, &env, issuer, Address(2));
    let slice_id = c.create_slice(issuer, vec![attestor], vec![1], 1).unwrap();
    (c, cid, slice_id, issuer, attestor)
}

#[test]
fn test_set_and_get_attestation_window() {
    let (mut c, env, _) = setup();
    let issuer = Address(1);
    let cid = issue(&mut c, &env, issuer, Address(2));
    c.set_attestation_window(0, issuer, cid, 1000, 2000).unwrap();
    let window = c.get_attestation_window(cid).unwrap();
    assert_eq!(window.start, 1000);
    assert_eq!(window.end, 2000);
}

#[test]
fn test_attest_within_window_succeeds() {
    let (mut c, cid, slice_id, issuer, attestor) = window_setup();
    c.set_attestation_window(0, issuer, cid, 500, 2000).unwrap();
    c.attest(1000, attestor, cid, slice_id, true, None).unwrap();
    assert!(c.is_attested(1000, cid, slice_id).unwrap());
}

#[test]
fn test_attest_before_window_rejected() {
    let (mut c, cid, slice_id, issuer, attestor) = window_setup();
    c.set_attestation_window(0, issuer, cid, 1000, 2000).unwrap();
    let result = c.attest(500, attestor, cid, slice_id, true, None);
    assert_eq!(result, Err(Fault::Contract(ContractError::AttestationWindowOutside)));
}

#[test]
fn test_attest_after_window_rejected() {
    let (mut c, cid, slice_id, issuer, attestor) = window_setup();
    c.set_attestation_window(0, issuer, cid, 500, 1000).unwrap();
    let result = c.attest(1500, attestor, cid, slice_id, true, None);
    assert_eq!(result, Err(Fault::Contract(ContractError::AttestationWindowOutside)));
}

#[test]
fn test_attest_no_window_always_allowed() {
    let (mut c, cid, slice_id, _, attestor) = window_setup();
    c.attest(99999, attestor, cid, slice_id, true, None).unwrap();
    assert!(c.is_attested(99999, cid, slice_id).unwrap());
}

#[test]
fn test_get_attestation_window_none_when_not_set() {
    let (mut c, env, _) = setup();
    let cid = issue(&mut c, &env, Address(1), Address(2));
    assert!(c.get_attestation_window(cid).is_none());
}

/// The issuer `Address(1)`, the subject `Address(2)`, the new subject
/// `Address(3)` and the approvers `Address(4)`, `Address(5)`, ...
fn recovery_setup(n_approvers: u64, threshold: u32) -> (QuorumProofContract, u64, u64) {
    let (mut c, env, _) = setup();
    let cid = issue(&mut c, &env, Address(1), Address(2));
    let approvers: Vec<Address> = (0..n_approvers).map(|i| Address(4 + i)).collect();
    let rid = c.initiate_recovery(0, Address(1), cid, Address(3), approvers, threshold).unwrap();
    (c, cid, rid)
}

#[test]
fn test_initiate_recovery_by_issuer() {
    let (c, cid, rid) = recovery_setup(1, 1);
    let req = c.get_recovery_request(rid).unwrap();
    assert_eq!(req.credential_id, cid);
    assert_eq!(req.issuer, Address(1));
    assert_eq!(req.new_subject, Address(3));
    assert_eq!(req.status, RecoveryStatus::Pending);
    assert_eq!(req.threshold, 1);
}

#[test]
fn test_approve_recovery_success() {
    let (mut c, _, rid) = recovery_setup(1, 1);
    let approver = Address(4);
    c.approve_recovery(0, approver, rid).unwrap();
    assert_eq!(c.get_recovery_request(rid).unwrap().status, RecoveryStatus::Approved);
    let approvals = c.get_recovery_approvals(rid);
    assert_eq!(approvals.len(), 1);
    assert_eq!(approvals[0].approver, approver);
}

#[test]
fn test_recovery_auto_approves_on_threshold() {
    let (mut c, _, rid) = recovery_setup(2, 2);
    c.approve_recovery(0, Address(4), rid).unwrap();
    assert_eq!(c.get_recovery_request(rid).unwrap().status, RecoveryStatus::Pending);
    c.approve_recovery(0, Address(5), rid).unwrap();
    assert_eq!(c.get_recovery_request(rid).unwrap().status, RecoveryStatus::Approved);
}

#[test]
fn test_execute_recovery_updates_subject() {
    let (mut c, cid, rid) = recovery_setup(1, 1);
    let (issuer, subject, new_subject) = (Address(1), Address(2), Address(3));
    c.approve_recovery(0, Address(4), rid).unwrap();
    let previous = c.execute_recovery(0, issuer, rid).unwrap();
    assert_eq!(previous, subject);
    assert_eq!(c.get_credential(0, cid).unwrap().subject, new_subject);
    let old_list = c.get_credentials_by_subject(subject, 1, 50).unwrap();
    let new_list = c.get_credentials_by_subject(new_subject, 1, 50).unwrap();
    assert!(!old_list.contains(&cid));
    assert!(new_list.contains(&cid));
}

#[test]
fn test_recovery_emits_events() {
    let (mut c, _, rid) = recovery_setup(1, 1);
    assert_eq!(c.get_recovery_request(rid).unwrap().status, RecoveryStatus::Pending);
    c.approve_recovery(0, Address(4), rid).unwrap();
    assert_eq!(c.get_recovery_request(rid).unwrap().status, RecoveryStatus::Approved);
    c.execute_recovery(0, Address(1), rid).unwrap();
    assert_eq!(c.get_recovery_request(rid).unwrap().status, RecoveryStatus::Executed);
}

#[test]
fn test_recovery_records_activity() {
    let (mut c, cid, rid) = recovery_setup(1, 1);
    let (issuer, new_subject) = (Address(1), Address(3));
    c.approve_recovery(0, Address(4), rid).unwrap();
    c.execute_recovery(0, issuer, rid).unwrap();
    let activities = c.get_holder_activity(new_subject, 1, 10).unwrap();
    assert_eq!(activities.len(), 1);
    assert_eq!(activities[0].activity_type, ActivityType::CredentialRecovered);
    assert_eq!(activities[0].credential_id, cid);
    assert_eq!(activities[0].actor, issuer);
}

#[test]
fn test_cancel_recovery() {
    let (mut c, _, rid) = recovery_setup(1, 1);
    c.cancel_recovery(Address(1), rid).unwrap();
    assert_eq!(c.get_recovery_request(rid).unwrap().status, RecoveryStatus::Rejected);
}

#[test]
fn recovery_moves_the_duplicate_guard_to_the_new_subject() {
    let (mut c, _, rid) = recovery_setup(1, 1);
    let env = Env::default();
    c.approve_recovery(0, Address(4), rid).unwrap();
    c.execute_recovery(0, Address(1), rid).unwrap();
    let again_new = c.issue_credential(&env, 0, Address(1), Address(3), 1, META.to_vec(), None, 0);
    assert_eq!(again_new, Err(Fault::Contract(ContractError::DuplicateCredential)));
    let again_old = c.issue_credential(&env, 0, Address(1), Address(2), 1, META.to_vec(), None, 0);
    assert_eq!(again_old, Ok(2));
}

#[test]
fn recovery_moves_only_the_tokens_linked_to_the_credential() {
    let tokens = vec![(10u64, 1u64), (11, 2), (12, 1)];
    assert_eq!(quorum_proof::governance::recovery_tokens(&tokens, 1), vec![10, 12]);
    assert_eq!(quorum_proof::governance::recovery_tokens(&tokens, 3), Vec::<u64>::new());
}

#[test]
fn a_linked_token_is_found_only_for_its_credential() {
    let tokens = vec![(10u64, 1u64), (11, 2)];
    assert!(quorum_proof::governance::holds_linked_token(&tokens, 2));
    assert!(!quorum_proof::governance::holds_linked_token(&tokens, 3));
    assert!(!quorum_proof::governance::holds_linked_token(&Vec::new(), 1));
}
