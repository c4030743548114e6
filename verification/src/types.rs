use vstd::prelude::*;
use std::collections::HashMap;

verus! {

/// An account or contract identity, known to this library by a stable number.
#[derive(Clone, Copy, Debug, PartialEq, Eq, Hash, Structural)]
pub struct Address(pub u64);

/// Status of fork detection for a credential.
#[derive(Clone, Copy, PartialEq, Eq, Debug, Structural)]
pub enum ForkStatus {
    NoFork,
    ForkDetected,
    ForkResolved,
}

/// Represents the status of a credential recovery request.
#[derive(Clone, Copy, PartialEq, Eq, Debug, Structural)]
pub enum RecoveryStatus {
    Pending,
    Approved,
    Executed,
    Rejected,
}

/// Status of a holder-initiated revocation request.
#[derive(Clone, Copy, PartialEq, Eq, Debug, Structural)]
pub enum RevocationStatus {
    Pending,
    Approved,
    Denied,
}

/// Audit trail entry kind for the revocation request lifecycle.
#[derive(Clone, Copy, PartialEq, Eq, Debug, Structural)]
pub enum RevocationAuditAction {
    RequestSubmitted,
    Approved,
    Denied,
}

/// Activity types that can be tracked per credential holder.
#[derive(Clone, Copy, PartialEq, Eq, Debug, Structural)]
pub enum ActivityType {
    CredentialIssued,
    CredentialRevoked,
    CredentialRenewed,
    CredentialAttested,
    AttestationExpired,
    CredentialRecovered,
}

/// Compression type for credential metadata.
#[derive(Clone, Copy, PartialEq, Eq, Debug, Structural)]
pub enum CompressionType {
    NoCompression,
    Gzip,
}

/// Represents the status of an onboarding request.
#[derive(Clone, Copy, PartialEq, Eq, Debug, Structural)]
pub enum OnboardingStatus {
    Pending,
    Approved,
    Rejected,
}

/// Represents the status of a dispute.
#[derive(Clone, Copy, PartialEq, Eq, Debug, Structural)]
pub enum DisputeStatus {
    Active,
    Resolved,
    Dismissed,
}

/// Represents the status of a challenge.
#[derive(Clone, Copy, PartialEq, Eq, Debug, Structural)]
pub enum ChallengeStatus {
    Open,
    Upheld,
    Dismissed,
}

/// The claims a zero-knowledge proof can be asked to establish.
#[derive(Clone, Copy, PartialEq, Eq, Debug, Structural)]
pub enum ClaimType {
    HasDegree,
    HasLicense,
    HasEmploymentHistory,
    HasCertification,
    HasResearchPublication,
}

/// Time window during which attestations are allowed for a credential.
#[derive(Clone, Copy, PartialEq, Eq, Debug, Structural)]
pub struct AttestationTimeWindow {
    /// Unix timestamp when the attestation window opens.
    pub start: u64,
    /// Unix timestamp when the attestation window closes.
    pub end: u64,
}

/// Cached result of an attestation verification.
#[derive(Clone, Copy, PartialEq, Eq, Debug, Structural)]
pub struct AttestationVerificationCache {
    pub credential_id: u64,
    pub slice_id: u64,
    pub is_attested: bool,
    pub cached_at: u64,
    pub expires_at: u64,
}

/// Transfer restriction for one credential type.
#[derive(Clone, Copy, PartialEq, Eq, Debug, Structural)]
pub struct TransferRestriction {
    pub credential_type: u32,
    pub is_transferable: bool,
    pub configured_at: u64,
}

/// Records a consensus decision for a quorum slice.
#[derive(Clone, Copy, PartialEq, Eq, Debug, Structural)]
pub struct ConsensusDecision {
    pub decision_id: u64,
    pub slice_id: u64,
    pub credential_id: u64,
    pub timestamp: u64,
    pub required_weight_threshold: u32,
    pub achieved_weight: u32,
    pub total_weight: u32,
}

/// Rate limit configuration, shared by all addresses.
#[derive(Clone, Copy, PartialEq, Eq, Debug, Structural)]
pub struct RateLimitConfig {
    pub max_calls: u32,
    pub window_seconds: u64,
}

/// Rate limit tracking for one address.
#[derive(Clone, Copy, PartialEq, Eq, Debug, Structural)]
pub struct RateLimitState {
    pub call_count: u32,
    pub window_start: u64,
}

/// Verification statistics for the contract.
#[derive(Clone, Copy, PartialEq, Eq, Debug, Structural)]
pub struct VerificationStats {
    pub total_verifications: u64,
    pub successful_verifications: u64,
    pub failed_verifications: u64,
}

/// Reputation record for a credential holder.
#[derive(Clone, Copy, PartialEq, Eq, Debug, Structural)]
pub struct HolderReputation {
    pub credentials_held: u64,
    pub successful_verifications: u64,
    pub failed_verifications: u64,
    pub total_verifications: u64,
    /// 0-100 percentage
    pub verification_success_rate: u64,
    pub attestation_count: u64,
    pub attestation_age_seconds: u64,
    /// Attestations and attestation age, weighted by the scoring configuration.
    pub score: u64,
}

/// Scoring configuration for holder reputation.
#[derive(Clone, Copy, PartialEq, Eq, Debug, Structural)]
pub struct HolderReputationConfig {
    /// Points awarded per attestation recorded in the holder's history.
    pub attestation_weight: u64,
    /// Points awarded per age bucket of attestation history.
    pub age_weight: u64,
    /// Age bucket size in seconds.
    pub age_divisor_seconds: u64,
}

/// A credential issued by the contract.
#[derive(Clone, Debug)]
pub struct Credential {
    pub id: u64,
    pub subject: Address,
    pub issuer: Address,
    pub credential_type: u32,
    pub metadata_hash: Vec<u8>,
    pub revoked: bool,
    pub suspended: bool,
    pub expires_at: Option<u64>,
    pub version: u32,
}

/// A single attestation record: who attested, when, and the attested value.
#[derive(Clone, Debug)]
pub struct AttestationRecord {
    pub attestor: Address,
    pub attested_at: u64,
    /// Optional Unix timestamp after which this attestation is considered expired.
    pub expires_at: Option<u64>,
    /// The attestation value: true for valid, false for invalid.
    pub attestation_value: bool,
    /// Optional metadata attached by the attestor.
    pub metadata: Option<Vec<u8>>,
}

/// A weighted trust slice: the attestors, one weight each, and the weight
/// that attestations must reach.
#[derive(Clone, Debug)]
pub struct QuorumSlice {
    pub id: u64,
    pub creator: Address,
    pub attestors: Vec<Address>,
    pub weights: Vec<u32>,
    pub threshold: u32,
}

/// Input parameters for batch credential issuance.
#[derive(Clone, Debug)]
pub struct CredentialInput {
    pub subject: Address,
    pub credential_type: u32,
    pub metadata_hash: Vec<u8>,
    pub expires_at: Option<u64>,
}

/// Why a batch was refused: which entry failed and why.
#[derive(Clone, Debug)]
pub struct BatchError {
    pub failing_index: u32,
    pub reason: BatchFailure,
}

/// The validation rule an entry of a batch broke.
#[derive(Clone, Copy, Debug, PartialEq, Eq, Structural)]
pub enum BatchFailure {
    ZeroCredentialType,
    EmptyMetadataHash,
    MetadataHashTooLong,
    ExpiryOutOfRange,
    DuplicateInStorage,
    SubjectBlacklisted,
    DuplicateInBatch,
}

/// Result type for batch credential issuance operations.
#[derive(Clone, Debug)]
pub enum BatchResult {
    /// The newly issued credential IDs.
    Issued(Vec<u64>),
    /// The validation failure; nothing was issued.
    Rejected(BatchError),
}

/// Records a single activity event for a credential holder.
#[derive(Clone, Copy, PartialEq, Eq, Debug, Structural)]
pub struct ActivityRecord {
    pub activity_type: ActivityType,
    pub credential_id: u64,
    pub timestamp: u64,
    pub actor: Address,
    pub slice_id: Option<u64>,
}

/// One metadata version in a credential's history.
#[derive(Clone, Debug)]
pub struct CredentialVersion {
    pub version: u32,
    pub metadata: Vec<u8>,
    pub updated_at: u64,
    pub updated_by: Address,
}

/// Records a single metadata update in the audit trail.
#[derive(Clone, Debug)]
pub struct AuditEntry {
    pub updated_by: Address,
    pub timestamp: u64,
    pub change_summary: Vec<u8>,
}

/// Stores credential metadata with compression information.
#[derive(Clone, Debug)]
pub struct CredentialMetadata {
    pub data: Vec<u8>,
    pub compression: CompressionType,
}

/// Holder revocation request stored per credential.
#[derive(Clone, Copy, PartialEq, Eq, Debug, Structural)]
pub struct HolderRevocationRequest {
    pub credential_id: u64,
    pub holder: Address,
    pub requested_at: u64,
    pub requested_ledger: u32,
    pub status: RevocationStatus,
}

/// Audit trail entry for the revocation request lifecycle.
#[derive(Clone, Copy, PartialEq, Eq, Debug, Structural)]
pub struct RevocationAuditEntry {
    pub action: RevocationAuditAction,
    pub actor: Address,
    pub timestamp: u64,
    pub ledger_sequence: u32,
    pub status: RevocationStatus,
}

/// A pending consent-based credential transfer request.
#[derive(Clone, Copy, PartialEq, Eq, Debug, Structural)]
pub struct TransferRequest {
    pub credential_id: u64,
    pub from: Address,
    pub to: Address,
}

/// Encrypted credential metadata: the ciphertext, and each party's
/// encrypted data key keyed by the party's address.
#[derive(Clone, Debug)]
pub struct EncryptedCredentialMetadata {
    pub ciphertext: Vec<u8>,
    pub encrypted_keys: HashMap<u64, Vec<u8>>,
}

/// A grant allowing a delegate to verify a credential on behalf of the holder.
#[derive(Clone, Copy, PartialEq, Eq, Debug, Structural)]
pub struct Delegation {
    pub delegate: Address,
    pub credential_id: u64,
    pub expiry: u64,
    pub granted_at: u64,
}

/// Audit log entry for delegation grants.
#[derive(Clone, Copy, PartialEq, Eq, Debug, Structural)]
pub struct DelegationAuditEntry {
    pub delegate: Address,
    pub credential_id: u64,
    pub expiry: u64,
    pub granted_at: u64,
}

/// A proof request: who asked for proof of which credential, and when.
#[derive(Clone, Debug)]
pub struct ProofRequest {
    pub id: u64,
    pub credential_id: u64,
    pub verifier: Address,
    pub requested_at: u64,
    pub claim_types: Vec<ClaimType>,
}

/// Evidence attached to an attestation.
#[derive(Clone, Debug)]
pub struct AttestationEvidence {
    pub evidence_hash: Vec<u8>,
    pub attached_at: u64,
}

/// A condition that must be met for an attestation to be valid.
#[derive(Clone, Debug)]
pub struct AttestationCondition {
    pub key: String,
    pub value: Vec<u8>,
}

/// Audit log entry for quorum slice threshold changes.
#[derive(Clone, Copy, PartialEq, Eq, Debug, Structural)]
pub struct ThresholdAuditEntry {
    pub slice_id: u64,
    pub old_threshold: u32,
    pub new_threshold: u32,
    pub changed_by: Address,
    pub timestamp: u64,
}

/// A message sent within a quorum slice.
#[derive(Clone, Debug)]
pub struct SliceMessage {
    pub sender: Address,
    pub content: String,
    pub sent_at: u64,
    pub expires_at: u64,
}

/// Notification to a holder that an attestation was made on their credential.
#[derive(Clone, Copy, PartialEq, Eq, Debug, Structural)]
pub struct HolderNotification {
    pub credential_id: u64,
    pub attestor: Address,
    pub slice_id: u64,
    pub notified_at: u64,
}

/// Record of a holder being blacklisted by an issuer.
#[derive(Clone, Debug)]
pub struct BlacklistEntry {
    pub issuer: Address,
    pub holder: Address,
    pub reason: String,
    pub blacklisted_at: u64,
}

/// A challenge to an attestor's signature on a credential.
#[derive(Clone, Debug)]
pub struct Challenge {
    pub id: u64,
    pub credential_id: u64,
    pub slice_id: u64,
    pub accused: Address,
    pub challenger: Address,
    pub status: ChallengeStatus,
    pub uphold_votes: Vec<Address>,
    pub dismiss_votes: Vec<Address>,
}

/// A vote on a dispute.
#[derive(Clone, Copy, PartialEq, Eq, Debug, Structural)]
pub struct DisputeVote {
    pub voter: Address,
    /// 0 = no vote, 1 = favor initiator, 2 = favor accused
    pub resolution: u32,
    pub voted_at: u64,
}

/// A dispute between slice members.
#[derive(Clone, Debug)]
pub struct Dispute {
    pub id: u64,
    pub slice_id: u64,
    pub initiator: Address,
    pub accused: Address,
    pub reason: String,
    pub status: DisputeStatus,
    pub created_at: u64,
    pub votes: Vec<DisputeVote>,
}

/// A pending credential recovery request initiated by the issuer.
#[derive(Clone, Debug)]
pub struct RecoveryRequest {
    pub id: u64,
    pub credential_id: u64,
    pub issuer: Address,
    pub new_subject: Address,
    pub status: RecoveryStatus,
    pub created_at: u64,
    pub executed_at: Option<u64>,
    pub approvers: Vec<Address>,
    pub threshold: u32,
}

/// Records a single approval on a recovery request.
#[derive(Clone, Copy, PartialEq, Eq, Debug, Structural)]
pub struct RecoveryApproval {
    pub approver: Address,
    pub approved_at: u64,
}

/// A reputation recovery request for a slice member.
#[derive(Clone, Copy, PartialEq, Eq, Debug, Structural)]
pub struct ReputationRecovery {
    pub attestor: Address,
    pub initiated_at: u64,
    pub completed: bool,
}

/// A credential type registration.
#[derive(Clone, Debug)]
pub struct CredentialTypeDef {
    pub type_id: u32,
    pub name: String,
    pub description: String,
    /// Optional parent type for hierarchy support.
    pub parent_type: Option<u32>,
}

/// A pending consent request for credential issuance.
#[derive(Clone, Debug)]
pub struct ConsentRequest {
    pub id: u64,
    pub issuer: Address,
    pub subject: Address,
    pub credential_type: u32,
    pub metadata_hash: Vec<u8>,
    pub expires_at_ts: u64,
    pub approved: bool,
}

/// The link a share token stands for.
#[derive(Clone, Copy, PartialEq, Eq, Debug, Structural)]
pub struct ShareLink {
    pub credential_id: u64,
    pub expires_at: u64,
}

} // verus!
