use quorum_proof::state::QuorumProofContract;

#[test]
fn test_validate_fork_status_valid() {
    assert!(QuorumProofContract::validate_fork_status(1));
    assert!(QuorumProofContract::validate_fork_status(2));
    assert!(QuorumProofContract::validate_fork_status(3));
}

#[test]
fn test_validate_fork_status_invalid() {
    assert!(!QuorumProofContract::validate_fork_status(0));
    assert!(!QuorumProofContract::validate_fork_status(4));
    assert!(!QuorumProofContract::validate_fork_status(100));
}

#[test]
fn test_validate_recovery_status_valid() {
    assert!(QuorumProofContract::validate_recovery_status(1));
    assert!(QuorumProofContract::validate_recovery_status(2));
    assert!(QuorumProofContract::validate_recovery_status(3));
    assert!(QuorumProofContract::validate_recovery_status(4));
}

#[test]
fn test_validate_recovery_status_invalid() {
    assert!(!QuorumProofContract::validate_recovery_status(0));
    assert!(!QuorumProofContract::validate_recovery_status(5));
}

#[test]
fn test_validate_onboarding_status_valid() {
    assert!(QuorumProofContract::validate_onboarding_status(1));
    assert!(QuorumProofContract::validate_onboarding_status(2));
    assert!(QuorumProofContract::validate_onboarding_status(3));
}

#[test]
fn test_validate_dispute_status_valid() {
    assert!(QuorumProofContract::validate_dispute_status(1));
    assert!(QuorumProofContract::validate_dispute_status(2));
    assert!(QuorumProofContract::validate_dispute_status(3));
}

#[test]
fn test_validate_challenge_status_valid() {
    assert!(QuorumProofContract::validate_challenge_status(1));
    assert!(QuorumProofContract::validate_challenge_status(2));
    assert!(QuorumProofContract::validate_challenge_status(3));
}

#[test]
fn test_validate_activity_type_valid() {
    assert!(QuorumProofContract::validate_activity_type(1));
    assert!(QuorumProofContract::validate_activity_type(2));
    assert!(QuorumProofContract::validate_activity_type(3));
    assert!(QuorumProofContract::validate_activity_type(4));
    assert!(QuorumProofContract::validate_activity_type(5));
    assert!(QuorumProofContract::validate_activity_type(6));
}

#[test]
fn test_validate_activity_type_invalid() {
    assert!(!QuorumProofContract::validate_activity_type(0));
    assert!(!QuorumProofContract::validate_activity_type(7));
}
