use quorum_proof::errors::{Abort, ContractError, Fault};
use quorum_proof::state::QuorumProofContract;
use quorum_proof::types::{Address, CredentialInput};
use soroban_sdk::Env;

const META: &[u8] = b"QmTestHash000000000000000000000000";

fn setup() -> (QuorumProofContract, Env, Address) {
    let mut c = QuorumProofContract::new();
    let admin = Address(1000);
    c.initialize(admin).unwrap();
    (c, Env::default(), admin)
}

fn issue_at(
    c: &mut QuorumProofContract,
    env: &Env,
    now: u64,
    issuer: Address,
    subject: Address,
    t: u32,
    meta: &[u8],
    expires_at: Option<u64>,
) -> Result<u64, Fault> {
    c.issue_credential(env, now, issuer, subject, t, meta.to_vec(), expires_at, 0)
}

fn issue(c: &mut QuorumProofContract, env: &Env, issuer: Address, subject: Address, t: u32) -> Result<u64, Fault> {
    issue_at(c, env, 0, issuer, subject, t, META, None)
}

/// A credential of `Address(1)` to `Address(2)` and a one-attestor slice of
/// `Address(3)` created by the issuer.
fn with_slice() -> (QuorumProofContract, Env, Address, u64, u64) {
    let (mut c, env, admin) = setup();
    let cred = issue(&mut c, &env, Address(1), Address(2), 1).unwrap();
    let slice = c.create_slice(Address(1), vec![Address(3)], vec![1], 1).unwrap();
    (c, env, admin, cred, slice)
}

const PAUSED: Fault = Fault::Contract(ContractError::ContractPaused);

#[test]
fn test_deploy_initialize_only_once() {
    let (mut c, _, admin) = setup();
    assert_eq!(c.initialize(admin), Err(Fault::Abort(Abort::AlreadyInitialized)));
}

#[test]
fn test_pause_blocks_issue_credential() {
    let (mut c, env, admin) = setup();
    c.pause(admin).unwrap();
    assert_eq!(issue(&mut c, &env, Address(1), Address(2), 1), Err(PAUSED));
}

#[test]
fn test_empty_metadata_hash_rejection() {
    let mut c = QuorumProofContract::new();
    let env = Env::default();
    assert!(issue_at(&mut c, &env, 0, Address(1), Address(2), 1, b"", None).is_err());
}

#[test]
fn test_zero_credential_type_rejection() {
    let mut c = QuorumProofContract::new();
    let env = Env::default();
    assert_eq!(issue(&mut c, &env, Address(1), Address(2), 0), Err(Fault::Abort(Abort::ZeroCredentialType)));
}

#[test]
fn test_get_credential_not_found() {
    let c = QuorumProofContract::new();
    assert_eq!(c.get_credential(0, 999).err(), Some(Fault::Contract(ContractError::CredentialNotFound)));
}

#[test]
fn test_pause_blocks_revoke_credential() {
    let (mut c, env, admin) = setup();
    let id = issue(&mut c, &env, Address(1), Address(2), 1).unwrap();
    c.pause(admin).unwrap();
    assert_eq!(c.revoke_credential(0, Address(1), id), Err(PAUSED));
    assert!(!c.get_credential(0, id).unwrap().revoked);
}

#[test]
fn test_suspended_credential_blocks_attestation() {
    let (mut c, _, _, cred, slice) = with_slice();
    c.suspend_credential(0, Address(1), cred).unwrap();
    assert_eq!(c.attest(0, Address(3), cred, slice, true, None), Err(Fault::Abort(Abort::CredentialSuspended)));
}

#[test]
fn test_pause_blocks_attest() {
    let (mut c, _, admin, cred, slice) = with_slice();
    c.pause(admin).unwrap();
    assert_eq!(c.attest(0, Address(3), cred, slice, true, None), Err(PAUSED));
}

#[test]
fn test_duplicate_attestation_rejection() {
    let (mut c, _, _, cred, slice) = with_slice();
    c.attest(0, Address(3), cred, slice, true, None).unwrap();
    assert_eq!(c.attest(0, Address(3), cred, slice, true, None), Err(Fault::Abort(Abort::AlreadyAttested)));
}

#[test]
fn test_attest_revoked_credential_panics() {
    let (mut c, _, _, cred, slice) = with_slice();
    c.revoke_credential(0, Address(1), cred).unwrap();
    assert_eq!(c.attest(0, Address(3), cred, slice, true, None), Err(Fault::Abort(Abort::CredentialRevoked)));
}

#[test]
fn test_create_slice_empty_attestors_panics() {
    let (mut c, _, _) = setup();
    assert!(c.create_slice(Address(1), Vec::new(), Vec::new(), 1).is_err());
}

#[test]
fn test_zero_threshold_rejection() {
    let mut c = QuorumProofContract::new();
    assert!(c.create_slice(Address(1), vec![Address(2)], vec![1], 0).is_err());
}

#[test]
fn test_threshold_exceeds_attestors() {
    let mut c = QuorumProofContract::new();
    assert!(c.create_slice(Address(1), vec![Address(2), Address(3)], vec![1, 1], 3).is_err());
}

#[test]
fn test_create_slice_exceeds_max_attestors() {
    let (mut c, _, _) = setup();
    let attestors: Vec<Address> = (0..21).map(|i| Address(10 + i)).collect();
    assert!(c.create_slice(Address(1), attestors, vec![1; 21], 1).is_err());
    assert_eq!(c.get_slice_count().unwrap(), 0);
}

#[test]
fn test_get_slice_not_found() {
    let (c, _, _) = setup();
    assert_eq!(c.get_slice(999).err(), Some(Fault::Contract(ContractError::SliceNotFound)));
}

#[test]
fn test_pause_unauthorized_panics() {
    let (mut c, _, _) = setup();
    assert_eq!(c.pause(Address(1)), Err(Fault::Abort(Abort::Unauthorized)));
    assert!(!c.is_paused());
}

#[test]
fn test_update_slice_threshold_unauthorized_panics() {
    let mut c = QuorumProofContract::new();
    let slice = c.create_slice(Address(1), vec![Address(3)], vec![1], 1).unwrap();
    assert_eq!(c.update_slice_threshold(0, Address(2), slice, 1), Err(Fault::Abort(Abort::Unauthorized)));
}

#[test]
fn test_add_attestor_slice_not_found_panics() {
    let (mut c, _, _) = setup();
    assert_eq!(c.add_attestor(Address(1), 999, Address(2), 1), Err(Fault::Contract(ContractError::SliceNotFound)));
}

#[test]
fn test_update_slice_threshold_slice_not_found_panics() {
    let (mut c, _, _) = setup();
    assert_eq!(c.update_slice_threshold(0, Address(1), 999, 1), Err(Fault::Contract(ContractError::SliceNotFound)));
}

#[test]
fn test_get_credential_panics_when_expired() {
    let (mut c, env, _) = setup();
    let id = issue_at(&mut c, &env, 1_000, Address(1), Address(2), 1, META, Some(2_000)).unwrap();
    assert_eq!(c.get_credential(3_000, id).err(), Some(Fault::Abort(Abort::CredentialExpired)));
}

#[test]
fn test_initiate_transfer_unauthorized() {
    let (mut c, env, _) = setup();
    let id = issue(&mut c, &env, Address(1), Address(2), 1).unwrap();
    assert!(c.initiate_transfer(Address(5), id, Address(4)).is_err());
}

#[test]
fn test_accept_transfer_wrong_recipient() {
    let (mut c, env, _) = setup();
    let id = issue(&mut c, &env, Address(1), Address(2), 1).unwrap();
    c.initiate_transfer(Address(2), id, Address(4)).unwrap();
    assert_eq!(c.accept_transfer(Address(5), id), Err(Fault::Contract(ContractError::UnauthorizedTransfer)));
    assert_eq!(c.get_credential(0, id).unwrap().subject, Address(2));
}

#[test]
fn test_add_attestor_duplicate_panics() {
    let mut c = QuorumProofContract::new();
    let slice = c.create_slice(Address(1), vec![Address(2)], vec![1], 1).unwrap();
    assert_eq!(c.add_attestor(Address(1), slice, Address(2), 1), Err(Fault::Contract(ContractError::DuplicateAttestor)));
}

#[test]
fn test_add_attestor_unauthorized_panics() {
    let mut c = QuorumProofContract::new();
    let slice = c.create_slice(Address(1), vec![Address(2)], vec![1], 1).unwrap();
    assert_eq!(c.add_attestor(Address(9), slice, Address(3), 1), Err(Fault::Abort(Abort::Unauthorized)));
}

#[test]
fn test_batch_issue_credentials_mismatched_lengths_panics() {
    let mut c = QuorumProofContract::new();
    let hashes = vec![b"QmHash1_000000000000000000000000000".to_vec(), b"QmHash2_000000000000000000000000000".to_vec()];
    let r = c.batch_issue_credentials(0, Address(1), &vec![Address(2), Address(3)], &vec![1], &hashes, None);
    assert!(r.is_err());
    assert!(!c.credential_exists(1));
}

#[test]
fn test_batch_issue_credentials_duplicate_panics() {
    let mut c = QuorumProofContract::new();
    let env = Env::default();
    let subject = Address(2);
    issue_at(&mut c, &env, 0, Address(1), subject, 1, b"QmExisting00000000000000000000000000", None).unwrap();
    let r = c.batch_issue_credentials(0, Address(1), &vec![subject], &vec![1], &vec![b"QmNewHash0000000000000000000000000".to_vec()], None);
    assert_eq!(r, Err(Fault::Contract(ContractError::DuplicateCredential)));
}

#[test]
fn test_batch_issue_credentials_paused_panics() {
    let (mut c, _, admin) = setup();
    c.pause(admin).unwrap();
    let r = c.batch_issue_credentials(0, Address(1), &vec![Address(2)], &vec![1], &vec![META.to_vec()], None);
    assert_eq!(r, Err(PAUSED));
}

#[test]
fn test_get_credential_type_not_registered_panics() {
    let c = QuorumProofContract::new();
    assert!(c.get_credential_type(99).is_err());
}

#[test]
fn test_register_credential_type_non_admin_panics() {
    let (mut c, _, _) = setup();
    let r = c.register_credential_type(Address(1), 1, "Fake Type".to_string(), "desc".to_string(), None);
    assert_eq!(r, Err(Fault::Abort(Abort::Unauthorized)));
}

#[test]
fn test_upgrade_success() {
    let c = QuorumProofContract::new();
    assert!(c.upgrade(Address(1), &[0u8; 32]).is_err());
}

#[test]
fn test_revoke_credential_prevents_attestation() {
    let (mut c, _, _, cred, slice) = with_slice();
    c.revoke_credential(0, Address(1), cred).unwrap();
    assert_eq!(c.attest(0, Address(3), cred, slice, true, None), Err(Fault::Abort(Abort::CredentialRevoked)));
}

#[test]
fn test_set_attestation_metadata_non_attestor_panics() {
    let (mut c, env, _) = setup();
    let cred = issue(&mut c, &env, Address(1), Address(2), 1).unwrap();
    assert!(c.set_attestation_metadata(Address(5), cred, b"unauthorized".to_vec()).is_err());
}

#[test]
fn test_duplicate_credential_issuance_rejection() {
    let mut c = QuorumProofContract::new();
    let env = Env::default();
    issue(&mut c, &env, Address(1), Address(2), 1).unwrap();
    assert_eq!(issue(&mut c, &env, Address(1), Address(2), 1), Err(Fault::Contract(ContractError::DuplicateCredential)));
}

#[test]
fn test_subject_revoke_credential_fails() {
    let mut c = QuorumProofContract::new();
    let env = Env::default();
    let id = issue(&mut c, &env, Address(1), Address(2), 1).unwrap();
    assert!(c.revoke_credential(0, Address(2), id).is_err());
    assert!(!c.get_credential(0, id).unwrap().revoked);
}

#[test]
fn test_unauthorized_revoke_credential() {
    let mut c = QuorumProofContract::new();
    let env = Env::default();
    let id = issue(&mut c, &env, Address(1), Address(2), 1).unwrap();
    assert!(c.revoke_credential(0, Address(3), id).is_err());
}

#[test]
fn test_attest_by_non_member_panics() {
    let (mut c, _, _, cred, slice) = with_slice();
    assert_eq!(c.attest(0, Address(4), cred, slice, true, None), Err(Fault::Abort(Abort::AttestorNotInSlice)));
}

#[test]
fn test_remove_attestor_unauthorized_panics() {
    let (mut c, _, _) = setup();
    let slice = c.create_slice(Address(1), vec![Address(3), Address(4)], vec![1, 1], 1).unwrap();
    assert_eq!(c.remove_attestor(Address(2), slice, Address(3)), Err(Fault::Abort(Abort::Unauthorized)));
}

#[test]
fn test_remove_attestor_not_in_slice_panics() {
    let (mut c, _, _) = setup();
    let slice = c.create_slice(Address(1), vec![Address(3), Address(4)], vec![1, 1], 1).unwrap();
    assert_eq!(c.remove_attestor(Address(1), slice, Address(5)), Err(Fault::Abort(Abort::AttestorNotInSlice)));
}

#[test]
fn test_remove_last_attestor_panics() {
    let (mut c, _, _) = setup();
    let slice = c.create_slice(Address(1), vec![Address(3)], vec![1], 1).unwrap();
    assert!(c.remove_attestor(Address(1), slice, Address(3)).is_err());
    assert_eq!(c.get_slice(slice).unwrap().attestors.len(), 1);
}

#[test]
fn test_renew_attestation_past_timestamp_panics() {
    let (mut c, env, _) = setup();
    let cred = issue_at(&mut c, &env, 5_000, Address(1), Address(2), 1, META, None).unwrap();
    let slice = c.create_slice(Address(1), vec![Address(3)], vec![1], 1).unwrap();
    c.attest(5_000, Address(3), cred, slice, true, Some(8_000)).unwrap();
    assert_eq!(c.renew_attestation(5_000, Address(3), cred, 3_000), Err(Fault::Abort(Abort::InvalidArgument)));
}

#[test]
fn test_renew_attestation_not_found_panics() {
    let (mut c, _, _, cred, slice) = with_slice();
    c.attest(0, Address(3), cred, slice, true, Some(5_000)).unwrap();
    assert_eq!(c.renew_attestation(0, Address(9), cred, 10_000), Err(Fault::Abort(Abort::AttestationNotFound)));
}

#[test]
fn test_non_holder_revocation_request_rejected() {
    let (mut c, env, _) = setup();
    let cred = issue(&mut c, &env, Address(1), Address(2), 1).unwrap();
    assert!(c.request_revocation(0, 1, Address(5), cred).is_err());
    assert!(c.get_revocation_request(cred).is_none());
}

#[test]
fn test_non_issuer_cannot_grant_decryption_access() {
    let (mut c, env, _) = setup();
    let cred = issue(&mut c, &env, Address(1), Address(2), 1).unwrap();
    assert!(c.grant_decryption_access(Address(5), cred, Address(6), b"key".to_vec()).is_err());
}

#[test]
fn test_get_credential_version_not_found() {
    let (mut c, env, _) = setup();
    let cred = issue(&mut c, &env, Address(1), Address(2), 1).unwrap();
    assert_eq!(c.get_credential_version(cred, 99).err(), Some(Fault::Contract(ContractError::CredentialVersionNotFound)));
}

#[test]
fn test_is_attestation_expired_missing_credential() {
    let (c, _, _) = setup();
    assert_eq!(c.is_attestation_expired(0, 999), Err(Fault::Contract(ContractError::CredentialNotFound)));
}

#[test]
fn test_set_attestation_expiry_past_timestamp_panics() {
    let (mut c, env, _) = setup();
    let cid = issue_at(&mut c, &env, 5_000, Address(1), Address(2), 1, b"ipfs://QmTest", None).unwrap();
    assert!(c.set_attestation_expiry(5_000, Address(1), cid, 1_000).is_err());
}

#[test]
fn test_issue_credential_zero_type_panics() {
    let (mut c, env, _) = setup();
    assert!(issue_at(&mut c, &env, 0, Address(1), Address(2), 0, b"ipfs://QmTest", None).is_err());
}

#[test]
fn test_issue_credential_empty_metadata_panics() {
    let (mut c, env, _) = setup();
    assert_eq!(issue_at(&mut c, &env, 0, Address(1), Address(2), 1, b"", None), Err(Fault::Abort(Abort::EmptyMetadataHash)));
}

#[test]
fn test_issue_credential_metadata_too_long_panics() {
    let (mut c, env, _) = setup();
    assert!(issue_at(&mut c, &env, 0, Address(1), Address(2), 1, &[b'x'; 257], None).is_err());
}

#[test]
fn test_attest_zero_credential_id_panics() {
    let (mut c, _, _) = setup();
    let sid = c.create_slice(Address(1), vec![Address(3)], vec![1], 1).unwrap();
    assert!(c.attest(0, Address(3), 0, sid, true, None).is_err());
}

#[test]
fn test_attest_zero_slice_id_panics() {
    let (mut c, env, _) = setup();
    let cid = issue(&mut c, &env, Address(1), Address(2), 1).unwrap();
    assert!(c.attest(0, Address(3), cid, 0, true, None).is_err());
}

#[test]
fn test_get_credentials_by_subject_zero_page_panics() {
    let (c, _, _) = setup();
    assert!(c.get_credentials_by_subject(Address(2), 0, 10).is_err());
}

#[test]
fn test_get_credentials_by_subject_zero_page_size_panics() {
    let (c, _, _) = setup();
    assert!(c.get_credentials_by_subject(Address(2), 1, 0).is_err());
}

#[test]
fn fuzz_issue_credential_zero_type_always_rejected() {
    let (mut c, env, _) = setup();
    assert!(issue_at(&mut c, &env, 0, Address(1), Address(2), 0, b"QmFuzzHash000000000000000000000000", None).is_err());
}

#[test]
fn fuzz_create_slice_threshold_exceeds_attestors_rejected() {
    let (mut c, _, _) = setup();
    assert!(c.create_slice(Address(1), vec![Address(2)], vec![1], 2).is_err());
}

#[test]
fn fuzz_attest_duplicate_always_rejected() {
    let (mut c, _, _, cred, slice) = with_slice();
    c.attest(0, Address(3), cred, slice, true, None).unwrap();
    assert!(c.attest(0, Address(3), cred, slice, true, None).is_err());
}

#[test]
fn fuzz_attest_revoked_credential_always_rejected() {
    let (mut c, _, _, cred, slice) = with_slice();
    c.revoke_credential(0, Address(1), cred).unwrap();
    assert!(c.attest(0, Address(3), cred, slice, true, None).is_err());
}

#[test]
fn test_set_attestation_window_invalid_range_rejected() {
    let (mut c, env, _) = setup();
    let cid = issue(&mut c, &env, Address(1), Address(2), 1).unwrap();
    assert!(c.set_attestation_window(0, Address(1), cid, 2000, 1000).is_err());
    assert!(c.get_attestation_window(cid).is_none());
}

/// A credential of `Address(1)` to `Address(2)` with a recovery to
/// `Address(3)` approved by `Address(4)` (and `Address(5)` when two are asked).
fn recovery(threshold: u32) -> (QuorumProofContract, u64) {
    let (mut c, env, _) = setup();
    let cid = issue(&mut c, &env, Address(1), Address(2), 1).unwrap();
    let rid = c.initiate_recovery(0, Address(1), cid, Address(3), vec![Address(4), Address(5)], threshold).unwrap();
    (c, rid)
}

#[test]
fn test_initiate_recovery_unauthorized_panics() {
    let (mut c, env, _) = setup();
    let cid = issue(&mut c, &env, Address(1), Address(2), 1).unwrap();
    assert!(c.initiate_recovery(0, Address(9), cid, Address(3), vec![Address(4)], 1).is_err());
}

#[test]
fn test_initiate_recovery_duplicate_rejected() {
    let (mut c, env, _) = setup();
    let cid = issue(&mut c, &env, Address(1), Address(2), 1).unwrap();
    c.initiate_recovery(0, Address(1), cid, Address(3), vec![Address(4)], 1).unwrap();
    let again = c.initiate_recovery(0, Address(1), cid, Address(3), vec![Address(4)], 1);
    assert_eq!(again, Err(Fault::Contract(ContractError::RecoveryAlreadyExists)));
}

#[test]
fn test_approve_recovery_not_approver_panics() {
    let (mut c, rid) = recovery(1);
    assert_eq!(c.approve_recovery(0, Address(9), rid), Err(Fault::Contract(ContractError::NotRecoveryApprover)));
}

#[test]
fn test_approve_recovery_double_vote_rejected() {
    let (mut c, rid) = recovery(2);
    c.approve_recovery(0, Address(4), rid).unwrap();
    assert_eq!(c.approve_recovery(0, Address(4), rid), Err(Fault::Contract(ContractError::DuplicateRecoveryApproval)));
}

#[test]
fn test_execute_recovery_threshold_not_met_panics() {
    let (mut c, rid) = recovery(2);
    c.approve_recovery(0, Address(4), rid).unwrap();
    assert_eq!(c.execute_recovery(0, Address(1), rid), Err(Fault::Contract(ContractError::RecoveryThresholdNotMet)));
}

#[test]
fn test_cancel_recovery_unauthorized_panics() {
    let (mut c, rid) = recovery(1);
    assert!(c.cancel_recovery(Address(9), rid).is_err());
}

#[test]
fn test_register_credential_type_invalid_parent() {
    let (mut c, _, admin) = setup();
    let r = c.register_credential_type(admin, 1, "Degree".to_string(), "Some Degree".to_string(), Some(999));
    assert_eq!(r, Err(Fault::Contract(ContractError::InvalidParentType)));
}

#[test]
fn test_register_credential_type_circular_dependency() {
    let (mut c, _, admin) = setup();
    c.register_credential_type(admin, 1, "Type A".to_string(), "Type A".to_string(), None).unwrap();
    c.register_credential_type(admin, 2, "Type B".to_string(), "Type B".to_string(), Some(1)).unwrap();
    let r = c.register_credential_type(admin, 1, "Type A Updated".to_string(), "Type A Updated".to_string(), Some(2));
    assert_eq!(r, Err(Fault::Contract(ContractError::CircularHierarchy)));
}

#[test]
fn regression_21_double_revocation_rejected() {
    let (mut c, env, _) = setup();
    let id = issue(&mut c, &env, Address(1), Address(2), 1).unwrap();
    c.revoke_credential(0, Address(1), id).unwrap();
    assert!(c.revoke_credential(0, Address(1), id).is_err());
}

#[test]
fn regression_290_duplicate_recovery_rejected() {
    let (mut c, env, _) = setup();
    let cid = issue(&mut c, &env, Address(1), Address(2), 1).unwrap();
    c.initiate_recovery(0, Address(1), cid, Address(3), vec![Address(4)], 1).unwrap();
    assert!(c.initiate_recovery(0, Address(1), cid, Address(3), vec![Address(4)], 1).is_err());
}

#[test]
fn test_rate_limit_config_unauthorized() {
    let (mut c, _, _) = setup();
    assert_eq!(c.set_rate_limit_config(Address(1), 50, 1800), Err(Fault::Abort(Abort::Unauthorized)));
}

#[test]
fn test_require_issuer_invalid() {
    let (mut c, env, _) = setup();
    let id = issue(&mut c, &env, Address(1), Address(2), 1).unwrap();
    assert!(c.revoke_credential(0, Address(7), id).is_err());
}

#[test]
fn test_get_credential_expired() {
    let mut c = QuorumProofContract::new();
    let env = Env::default();
    let id = issue_at(&mut c, &env, 1000, Address(1), Address(2), 1, b"ipfs://QmExpired", Some(2000)).unwrap();
    assert_eq!(c.get_credential(1000, id).unwrap().id, id);
    assert_eq!(c.get_credential(2001, id).err(), Some(Fault::Abort(Abort::CredentialExpired)));
}

#[test]
fn test_delegate_verification_non_holder_rejected() {
    let (mut c, env, _) = setup();
    let id = issue(&mut c, &env, Address(2), Address(1), 1).unwrap();
    assert!(c.delegate_verification(1, Address(9), id, Address(3), 3600).is_err());
    assert!(c.get_delegation(id, Address(3)).is_none());
}

#[test]
fn test_update_slice_threshold_non_issuer_rejected() {
    let (mut c, _, _) = setup();
    let slice = c.create_slice(Address(1), vec![Address(3)], vec![100], 50).unwrap();
    assert_eq!(c.update_slice_threshold(0, Address(2), slice, 75), Err(Fault::Abort(Abort::Unauthorized)));
}

#[test]
fn test_update_slice_threshold_zero_rejected() {
    let (mut c, _, _) = setup();
    let slice = c.create_slice(Address(1), vec![Address(3)], vec![100], 50).unwrap();
    assert_eq!(c.update_slice_threshold(0, Address(1), slice, 0), Err(Fault::Abort(Abort::InvalidArgument)));
}

#[test]
fn test_update_slice_threshold_exceeds_max_rejected() {
    let (mut c, _, _) = setup();
    let slice = c.create_slice(Address(1), vec![Address(3)], vec![100], 50).unwrap();
    assert_eq!(c.update_slice_threshold(0, Address(1), slice, 101), Err(Fault::Abort(Abort::InvalidArgument)));
    assert_eq!(c.get_slice(slice).unwrap().threshold, 50);
}

#[test]
fn refusals_leave_inputs_for_batches_untouched() {
    let (mut c, _, _) = setup();
    let batch = vec![CredentialInput { subject: Address(2), credential_type: 1, metadata_hash: vec![1; 300], expires_at: None }];
    assert!(c.issue_batch(0, Address(1), &batch).is_ok());
    assert_eq!(c.get_credential_count().unwrap(), 0);
}
