use quorum_proof::errors::{Abort, ContractError, Fault};
use quorum_proof::state::QuorumProofContract;
use quorum_proof::types::Address;
use soroban_sdk::Env;

const META: &[u8] = b"QmTestHash000000000000000000000000";

fn setup() -> (QuorumProofContract, Env, Address) {
    let mut c = QuorumProofContract::new();
    let admin = Address(1000);
    c.initialize(admin).unwrap();
    (c, Env::default(), admin)
}

fn issue(c: &mut QuorumProofContract, env: &Env, now: u64, issuer: Address, subject: Address, t: u32) -> Result<u64, Fault> {
    c.issue_credential(env, now, issuer, subject, t, META.to_vec(), None, 0)
}

#[test]
fn repeated_attestation_is_refused() {
    let (mut c, env, _) = setup();
    let (issuer, attestor) = (Address(1), Address(3));
    let cid = issue(&mut c, &env, 0, issuer, Address(2), 1).unwrap();
    let sid = c.create_slice(issuer, vec![attestor], vec![1], 1).unwrap();
    c.attest(0, attestor, cid, sid, true, None).unwrap();
    assert_eq!(c.attest(0, attestor, cid, sid, true, None), Err(Fault::Abort(Abort::AlreadyAttested)));
    assert_eq!(c.get_attestation_count(cid), 1);
}

#[test]
fn weighted_threshold_follows_documented_example() {
    let (mut c, env, _) = setup();
    let issuer = Address(1);
    let (a50, a30, a20) = (Address(3), Address(4), Address(5));
    let sid = c.create_slice(issuer, vec![a50, a30, a20], vec![50, 30, 20], 50).unwrap();
    let one = issue(&mut c, &env, 0, issuer, Address(2), 1).unwrap();
    let two = issue(&mut c, &env, 0, issuer, Address(2), 2).unwrap();
    let three = issue(&mut c, &env, 0, issuer, Address(2), 3).unwrap();
    c.attest(0, a50, one, sid, true, None).unwrap();
    assert!(c.is_attested(0, one, sid).unwrap());
    c.attest(0, a30, two, sid, true, None).unwrap();
    assert!(!c.is_attested(0, two, sid).unwrap());
    c.attest(0, a20, two, sid, true, None).unwrap();
    assert!(c.is_attested(0, two, sid).unwrap());
    c.attest(0, a30, three, sid, true, None).unwrap();
    assert!(!c.is_attested(0, three, sid).unwrap());
}

#[test]
fn revoked_credential_stays_revoked() {
    let (mut c, env, _) = setup();
    let issuer = Address(1);
    let cid = issue(&mut c, &env, 0, issuer, Address(2), 1).unwrap();
    c.revoke_credential(0, issuer, cid).unwrap();
    assert!(c.revoke_credential(0, issuer, cid).is_err());
    assert!(c.suspend_credential(0, issuer, cid).is_err());
    assert!(c.renew_credential(0, issuer, cid, 5_000).is_err());
    assert!(c.get_credential(0, cid).unwrap().revoked);
}

#[test]
fn paused_contract_refuses_writes() {
    let (mut c, env, admin) = setup();
    let (issuer, attestor) = (Address(1), Address(3));
    let cid = issue(&mut c, &env, 0, issuer, Address(2), 1).unwrap();
    let sid = c.create_slice(issuer, vec![attestor], vec![1], 1).unwrap();
    c.pause(admin).unwrap();
    let paused = Err(Fault::Contract(ContractError::ContractPaused));
    assert_eq!(issue(&mut c, &env, 0, issuer, Address(2), 2), paused.map(|_: ()| 0));
    assert_eq!(c.attest(0, attestor, cid, sid, true, None), paused);
    assert_eq!(c.revoke_credential(0, issuer, cid), paused);
    assert_eq!(c.get_credential_count().unwrap(), 1);
}

#[test]
fn conflicting_attestation_is_refused_as_fork() {
    let (mut c, env, _) = setup();
    let issuer = Address(1);
    let (a1, a2) = (Address(3), Address(4));
    let cid = issue(&mut c, &env, 0, issuer, Address(2), 1).unwrap();
    let sid = c.create_slice(issuer, vec![a1, a2], vec![1, 1], 2).unwrap();
    c.attest(0, a1, cid, sid, true, None).unwrap();
    assert_eq!(c.attest(0, a2, cid, sid, false, None), Err(Fault::Contract(ContractError::ForkDetected)));
}

#[test]
fn share_link_gives_back_credential_until_expiry() {
    let (mut c, env, _) = setup();
    let subject = Address(2);
    let cid = issue(&mut c, &env, 0, Address(1), subject, 1).unwrap();
    let token = c.generate_share_link(100, subject, cid, 2).unwrap();
    assert_eq!(token.len(), 16);
    assert_eq!(c.validate_share_token(100, &token).unwrap(), cid);
    assert_eq!(c.validate_share_token(100 + 2 * 3600 - 1, &token).unwrap(), cid);
    assert!(c.validate_share_token(100 + 2 * 3600, &token).is_err());
}

#[test]
fn rate_limit_refuses_calls_beyond_the_window_budget() {
    let (mut c, env, admin) = setup();
    c.set_rate_limit_config(admin, 2, 100).unwrap();
    let issuer = Address(1);
    issue(&mut c, &env, 0, issuer, Address(2), 1).unwrap();
    issue(&mut c, &env, 0, issuer, Address(2), 2).unwrap();
    assert_eq!(issue(&mut c, &env, 0, issuer, Address(2), 3), Err(Fault::Contract(ContractError::RateLimitExceeded)));
    assert_eq!(issue(&mut c, &env, 100, issuer, Address(2), 3).unwrap(), 3);
}

#[test]
fn proof_of_work_digest_decides_the_nonce() {
    let (mut c, env, admin) = setup();
    c.set_pow_difficulty(admin, 8).unwrap();
    let empty: Vec<u8> = Vec::new();
    assert_eq!(c.verify_pow(&env, &empty, &empty, 1, 0), Err(Fault::Contract(ContractError::InvalidPoWNonce)));
    assert_eq!(c.verify_pow(&env, &empty, &empty, 1, 327), Err(Fault::Contract(ContractError::InvalidPoWNonce)));
    assert_eq!(c.verify_pow(&env, &empty, &empty, 1, 328), Ok(()));
    let with_nonce = c.issue_credential(&env, 0, Address(1), Address(2), 1, META.to_vec(), None, 328);
    assert_eq!(with_nonce, Ok(1));
}

#[test]
fn proof_of_work_hashes_the_recorded_address_encodings() {
    let (mut c, env, admin) = setup();
    c.set_pow_difficulty(admin, 8).unwrap();
    c.register_address_encoding(Address(1), vec![1, 2]);
    c.register_address_encoding(Address(2), vec![3]);
    let refused = c.issue_credential(&env, 0, Address(1), Address(2), 1, META.to_vec(), None, 328);
    assert_eq!(refused, Err(Fault::Contract(ContractError::InvalidPoWNonce)));
    let issued = c.issue_credential(&env, 0, Address(1), Address(2), 1, META.to_vec(), None, 25);
    assert_eq!(issued, Ok(1));
}

#[test]
fn error_variants_for_missing_and_duplicate_items() {
    let (mut c, env, _) = setup();
    let issuer = Address(1);
    assert_eq!(c.get_credential(0, 9).err(), Some(Fault::Contract(ContractError::CredentialNotFound)));
    assert_eq!(c.get_slice(9).err(), Some(Fault::Contract(ContractError::SliceNotFound)));
    issue(&mut c, &env, 0, issuer, Address(2), 1).unwrap();
    assert_eq!(issue(&mut c, &env, 0, issuer, Address(2), 1), Err(Fault::Contract(ContractError::DuplicateCredential)));
    assert_eq!(issue(&mut c, &env, 0, issuer, Address(2), 0), Err(Fault::Abort(Abort::ZeroCredentialType)));
    let sid = c.create_slice(issuer, vec![Address(3)], vec![1], 1).unwrap();
    assert_eq!(c.add_attestor(issuer, sid, Address(3), 1), Err(Fault::Contract(ContractError::DuplicateAttestor)));
    assert_eq!(c.add_attestor(Address(7), sid, Address(4), 1), Err(Fault::Abort(Abort::Unauthorized)));
    assert_eq!(c.create_slice(issuer, vec![Address(3)], vec![1], 2), Err(Fault::Abort(Abort::InvalidArgument)));
    assert_eq!(c.initialize(Address(5)), Err(Fault::Abort(Abort::AlreadyInitialized)));
}

#[test]
fn blacklisted_holder_cannot_receive_credentials() {
    let (mut c, env, _) = setup();
    let (issuer, holder) = (Address(1), Address(2));
    c.add_holder_to_blacklist(0, issuer, holder, "fraud".to_string()).unwrap();
    assert_eq!(issue(&mut c, &env, 0, issuer, holder, 1), Err(Fault::Contract(ContractError::HolderBlacklisted)));
    c.remove_holder_from_blacklist(issuer, holder).unwrap();
    assert_eq!(issue(&mut c, &env, 0, issuer, holder, 1).unwrap(), 1);
}

#[test]
fn cycle_in_type_hierarchy_is_refused() {
    let (mut c, _, admin) = setup();
    c.register_credential_type(admin, 1, "A".to_string(), "A".to_string(), None).unwrap();
    c.register_credential_type(admin, 2, "B".to_string(), "B".to_string(), Some(1)).unwrap();
    assert_eq!(
        c.register_credential_type(admin, 1, "A".to_string(), "A".to_string(), Some(2)),
        Err(Fault::Contract(ContractError::CircularHierarchy))
    );
    assert_eq!(
        c.register_credential_type(admin, 3, "C".to_string(), "C".to_string(), Some(99)),
        Err(Fault::Contract(ContractError::InvalidParentType))
    );
}
