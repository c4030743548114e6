use vstd::prelude::*;
use std::collections::HashMap;
use crate::registry::{children_mirror_parents, hierarchy_acyclic, ranked_by};
use crate::indexing::indexes_wf;
use crate::store::list_at;
use crate::types::{
    Address, AttestationRecord, AttestationTimeWindow, AttestationVerificationCache,
    AttestationCondition, AttestationEvidence, AuditEntry, BlacklistEntry, Challenge,
    ConsensusDecision, ConsentRequest, Credential, CredentialMetadata, CredentialTypeDef,
    CredentialVersion, Delegation, DelegationAuditEntry, Dispute, EncryptedCredentialMetadata,
    HolderNotification, HolderReputationConfig, HolderRevocationRequest, ActivityRecord,
    ProofRequest, QuorumSlice, RateLimitConfig, RateLimitState, RecoveryApproval,
    RecoveryRequest, ReputationRecovery, RevocationAuditEntry, ShareLink, SliceMessage,
    ThresholdAuditEntry, TransferRequest, TransferRestriction,
};

verus! {

broadcast use vstd::std_specs::hash::group_hash_axioms;

/// Contract-wide settings.
pub struct Config {
    pub admin: Option<Address>,
    pub paused: bool,
    pub state_version: Option<u32>,
    pub rate_limit_config: Option<RateLimitConfig>,
    pub pow_difficulty: Option<u32>,
    pub transfer_restrictions: HashMap<u32, TransferRestriction>,
    pub grace_periods: HashMap<u32, u64>,
    pub reputation_config: Option<HolderReputationConfig>,
}

/// Registered credential types and their hierarchy.
pub struct TypeRegistry {
    pub types: HashMap<u32, CredentialTypeDef>,
    pub parents: HashMap<u32, u32>,
    pub children: HashMap<u32, Vec<u32>>,
}

/// Data kept per credential, keyed by credential id.
pub struct CredentialData {
    pub attestation_expiry: HashMap<u64, u64>,
    pub attestation_windows: HashMap<u64, AttestationTimeWindow>,
    pub versions: HashMap<u64, Vec<CredentialVersion>>,
    pub audit_trails: HashMap<u64, Vec<AuditEntry>>,
    pub metadata_store: HashMap<u64, CredentialMetadata>,
    pub revocation_requests: HashMap<u64, HolderRevocationRequest>,
    pub revocation_audits: HashMap<u64, Vec<RevocationAuditEntry>>,
    pub transfer_requests: HashMap<u64, TransferRequest>,
    pub encrypted_metadata: HashMap<u64, EncryptedCredentialMetadata>,
    pub conditions: HashMap<u64, Vec<AttestationCondition>>,
    pub proof_requests: HashMap<u64, Vec<ProofRequest>>,
    pub proof_request_count: u64,
    /// Keyed by (credential id, delegate).
    pub delegations: HashMap<u128, Delegation>,
    pub delegation_audits: HashMap<u64, Vec<DelegationAuditEntry>>,
    /// Keyed by (credential id, attestor).
    pub attestation_metadata: HashMap<u128, Vec<u8>>,
    /// Keyed by (credential id, attestor).
    pub evidence: HashMap<u128, AttestationEvidence>,
}

/// Data kept per slice, keyed by slice id.
pub struct SliceData {
    pub consensus_history: HashMap<u64, Vec<ConsensusDecision>>,
    pub threshold_audit: HashMap<u64, Vec<ThresholdAuditEntry>>,
    pub messages: HashMap<u64, Vec<SliceMessage>>,
    /// Keyed by (slice id, attestor).
    pub suspended: HashMap<u128, bool>,
}

/// Lookup indexes over the credentials.
pub struct Indexes {
    /// The legacy per-subject list of credential ids.
    pub subject_credentials: HashMap<u64, Vec<u64>>,
    /// The per-subject index that issuing maintains.
    pub subject_index: HashMap<u64, Vec<u64>>,
    pub type_index: HashMap<u32, Vec<u64>>,
    /// (subject, issuer, type) triples already issued.
    pub duplicate_keys: Vec<DuplicateKey>,
}

/// One (subject, issuer, credential type) triple guarding against duplicates.
#[derive(Clone, Copy, PartialEq, Eq, Debug, Structural)]
pub struct DuplicateKey {
    pub subject: Address,
    pub issuer: Address,
    pub credential_type: u32,
}

/// Per-address counters and logs.
pub struct HolderData {
    pub attestor_counts: HashMap<u64, u64>,
    pub holder_attestation_counts: HashMap<u64, u64>,
    pub slash_counts: HashMap<u64, u64>,
    pub activity: HashMap<u64, Vec<ActivityRecord>>,
    pub notifications: HashMap<u64, Vec<HolderNotification>>,
    pub reputation_recoveries: HashMap<u64, ReputationRecovery>,
    pub successful_verifications: HashMap<u64, u64>,
    pub failed_verifications: HashMap<u64, u64>,
    /// The host's encoding of each address, as proof of work hashes it.
    pub encodings: HashMap<u64, Vec<u8>>,
}

/// Blacklists and whitelists kept by issuers.
pub struct AccessLists {
    /// Keyed by (issuer, holder).
    pub blacklist: HashMap<u128, BlacklistEntry>,
    pub issuer_blacklist: HashMap<u64, Vec<Address>>,
    pub holder_blacklists: HashMap<u64, Vec<Address>>,
    /// Keyed by (issuer, holder).
    pub whitelist: HashMap<u128, bool>,
    pub issuer_whitelist: HashMap<u64, Vec<Address>>,
}

/// Challenges, disputes, onboarding and recovery workflows.
pub struct Governance {
    pub challenges: Vec<Challenge>,
    /// Keyed by (credential id, accused): the open challenge.
    pub active_challenges: HashMap<u128, u64>,
    pub disputes: Vec<Dispute>,
    pub dispute_ids: Vec<u64>,
    pub onboarding_ids: Vec<u64>,
    pub onboarding_count: u64,
    pub recoveries: Vec<RecoveryRequest>,
    pub recovery_approvals: HashMap<u64, Vec<RecoveryApproval>>,
    /// Keyed by credential id: the recovery in progress.
    pub credential_recovery: HashMap<u64, u64>,
}

/// Consent requests and share links.
pub struct ConsentData {
    pub requests: HashMap<u64, ConsentRequest>,
    pub request_count: u64,
    pub pending: Vec<DuplicateKey>,
    /// Keyed by the 16-byte token read as a big-endian number.
    pub share_links: HashMap<u128, ShareLink>,
}

/// Cached results.
pub struct Caches {
    /// Keyed by (credential id, slice id).
    pub verification: HashMap<u128, AttestationVerificationCache>,
    pub revocation: HashMap<u64, bool>,
    pub metadata: HashMap<u64, MetadataHashCache>,
    pub slice_weight: HashMap<u64, u32>,
}

/// Cached result of a metadata hash validation.
#[derive(Clone, Debug)]
pub struct MetadataHashCache {
    pub credential_id: u64,
    pub metadata_hash: Vec<u8>,
    pub is_valid: bool,
    pub cached_at: u64,
    pub expires_at: u64,
}

/// The whole state of the credential and quorum contract. Credential `i + 1`
/// is `credentials[i]`, slice `i + 1` is `slices[i]`, challenge `i + 1` is
/// `governance.challenges[i]`, and so on for each counter-numbered record.
pub struct QuorumProofContract {
    pub config: Config,
    pub rate_limits: HashMap<u64, RateLimitState>,
    pub registry: TypeRegistry,
    pub credentials: Vec<Credential>,
    /// Attestation records per credential id.
    pub attestations: HashMap<u64, Vec<AttestationRecord>>,
    pub cred_data: CredentialData,
    pub slices: Vec<QuorumSlice>,
    pub slice_data: SliceData,
    pub indexes: Indexes,
    pub holders: HolderData,
    pub lists: AccessLists,
    pub governance: Governance,
    pub consent: ConsentData,
    pub caches: Caches,
}

/// The key under which a pair of numbers is stored.
pub open spec fn pair_key(a: u64, b: u64) -> u128 {
    (a as int * 0x1_0000_0000_0000_0000 + b as int) as u128
}

/// Computes the key of a pair of numbers.
pub fn pack_pair(a: u64, b: u64) -> (k: u128)
    ensures
        k == pair_key(a, b),
{
    assert(a as int * 0x1_0000_0000_0000_0000 + b as int <= u128::MAX) by (nonlinear_arith)
        requires
            a <= u64::MAX,
            b <= u64::MAX,
    ;
    (a as u128) * 0x1_0000_0000_0000_0000u128 + (b as u128)
}

/// Two pairs share a key only when they are the same pair.
pub proof fn lemma_pair_key_injective(a: u64, b: u64, c: u64, d: u64)
    requires
        pair_key(a, b) == pair_key(c, d),
    ensures
        a == c,
        b == d,
{
    let x = a as int * 0x1_0000_0000_0000_0000 + b as int;
    let y = c as int * 0x1_0000_0000_0000_0000 + d as int;
    assert(x <= u128::MAX && y <= u128::MAX) by (nonlinear_arith)
        requires
            a <= u64::MAX,
            b <= u64::MAX,
            c <= u64::MAX,
            d <= u64::MAX,
            x == a as int * 0x1_0000_0000_0000_0000 + b as int,
            y == c as int * 0x1_0000_0000_0000_0000 + d as int,
    ;
    assert(x == y);
    vstd::arithmetic::div_mod::lemma_fundamental_div_mod_converse(x, 0x1_0000_0000_0000_0000, a as int, b as int);
    vstd::arithmetic::div_mod::lemma_fundamental_div_mod_converse(y, 0x1_0000_0000_0000_0000, c as int, d as int);
}

/// The parts of the contract state, for saying which ones an operation changes.
#[derive(Clone, Copy, PartialEq, Eq, Debug, Structural)]
pub enum Part {
    Config,
    RateLimits,
    Registry,
    Credentials,
    Attestations,
    CredData,
    Slices,
    SliceData,
    Indexes,
    Holders,
    Lists,
    Governance,
    Consent,
    Caches,
}

/// `b` differs from `a` at most in the parts listed.
pub open spec fn only_changed(a: QuorumProofContract, b: QuorumProofContract, parts: Set<Part>) -> bool {
    &&& (!parts.contains(Part::Config) ==> b.config == a.config)
    &&& (!parts.contains(Part::RateLimits) ==> b.rate_limits == a.rate_limits)
    &&& (!parts.contains(Part::Registry) ==> b.registry == a.registry)
    &&& (!parts.contains(Part::Credentials) ==> b.credentials == a.credentials)
    &&& (!parts.contains(Part::Attestations) ==> b.attestations == a.attestations)
    &&& (!parts.contains(Part::CredData) ==> b.cred_data == a.cred_data)
    &&& (!parts.contains(Part::Slices) ==> b.slices == a.slices)
    &&& (!parts.contains(Part::SliceData) ==> b.slice_data == a.slice_data)
    &&& (!parts.contains(Part::Indexes) ==> b.indexes == a.indexes)
    &&& (!parts.contains(Part::Holders) ==> b.holders == a.holders)
    &&& (!parts.contains(Part::Lists) ==> b.lists == a.lists)
    &&& (!parts.contains(Part::Governance) ==> b.governance == a.governance)
    &&& (!parts.contains(Part::Consent) ==> b.consent == a.consent)
    &&& (!parts.contains(Part::Caches) ==> b.caches == a.caches)
}

/// The fields of `CredentialData`, for saying which ones an operation changes.
#[derive(Clone, Copy, PartialEq, Eq, Debug, Structural)]
pub enum CredField {
    AttestationExpiry,
    AttestationWindows,
    Versions,
    AuditTrails,
    MetadataStore,
    RevocationRequests,
    RevocationAudits,
    TransferRequests,
    EncryptedMetadata,
    Conditions,
    ProofRequests,
    Delegations,
    AttestationMetadata,
    Evidence,
}

/// `b` differs from `a` at most in the per-credential fields listed.
pub open spec fn cred_data_changed(a: CredentialData, b: CredentialData, f: Set<CredField>) -> bool {
    &&& (!f.contains(CredField::AttestationExpiry) ==> b.attestation_expiry == a.attestation_expiry)
    &&& (!f.contains(CredField::AttestationWindows) ==> b.attestation_windows == a.attestation_windows)
    &&& (!f.contains(CredField::Versions) ==> b.versions == a.versions)
    &&& (!f.contains(CredField::AuditTrails) ==> b.audit_trails == a.audit_trails)
    &&& (!f.contains(CredField::MetadataStore) ==> b.metadata_store == a.metadata_store)
    &&& (!f.contains(CredField::RevocationRequests) ==> b.revocation_requests == a.revocation_requests)
    &&& (!f.contains(CredField::RevocationAudits) ==> b.revocation_audits == a.revocation_audits)
    &&& (!f.contains(CredField::TransferRequests) ==> b.transfer_requests == a.transfer_requests)
    &&& (!f.contains(CredField::EncryptedMetadata) ==> b.encrypted_metadata == a.encrypted_metadata)
    &&& (!f.contains(CredField::Conditions) ==> b.conditions == a.conditions)
    &&& (!f.contains(CredField::ProofRequests) ==> b.proof_requests == a.proof_requests
        && b.proof_request_count == a.proof_request_count)
    &&& (!f.contains(CredField::Delegations) ==> b.delegations == a.delegations
        && b.delegation_audits == a.delegation_audits)
    &&& (!f.contains(CredField::AttestationMetadata) ==> b.attestation_metadata == a.attestation_metadata)
    &&& (!f.contains(CredField::Evidence) ==> b.evidence == a.evidence)
}

/// The fields of `HolderData`, for saying which ones an operation changes.
#[derive(Clone, Copy, PartialEq, Eq, Debug, Structural)]
pub enum HolderField {
    AttestorCounts,
    HolderAttestationCounts,
    SlashCounts,
    Activity,
    Notifications,
    ReputationRecoveries,
    Verifications,
    Encodings,
}

/// `b` differs from `a` at most in the per-address fields listed.
pub open spec fn holders_changed(a: HolderData, b: HolderData, f: Set<HolderField>) -> bool {
    &&& (!f.contains(HolderField::AttestorCounts) ==> b.attestor_counts == a.attestor_counts)
    &&& (!f.contains(HolderField::HolderAttestationCounts) ==> b.holder_attestation_counts == a.holder_attestation_counts)
    &&& (!f.contains(HolderField::SlashCounts) ==> b.slash_counts == a.slash_counts)
    &&& (!f.contains(HolderField::Activity) ==> b.activity == a.activity)
    &&& (!f.contains(HolderField::Notifications) ==> b.notifications == a.notifications)
    &&& (!f.contains(HolderField::ReputationRecoveries) ==> b.reputation_recoveries == a.reputation_recoveries)
    &&& (!f.contains(HolderField::Verifications) ==> b.successful_verifications == a.successful_verifications
        && b.failed_verifications == a.failed_verifications)
    &&& (!f.contains(HolderField::Encodings) ==> b.encodings == a.encodings)
}

/// Each issuer's blacklist and each holder's list of blacklisting issuers
/// mirror the blacklist entries, and neither list repeats an address.
pub open spec fn lists_wf(l: AccessLists) -> bool {
    &&& forall|i: Address, h: Address| #[trigger] list_at(l.issuer_blacklist@, i.0).contains(h)
        <==> l.blacklist@.contains_key(pair_key(i.0, h.0))
    &&& forall|i: Address, h: Address| #[trigger] list_at(l.holder_blacklists@, h.0).contains(i)
        <==> l.blacklist@.contains_key(pair_key(i.0, h.0))
    &&& forall|k: u64| #[trigger] list_at(l.issuer_blacklist@, k).no_duplicates()
    &&& forall|k: u64| #[trigger] list_at(l.holder_blacklists@, k).no_duplicates()
}

impl QuorumProofContract {
    /// Credentials are numbered from 1 in issue order, slices likewise, and
    /// each numbered record stores its own number; version histories are
    /// kept only for issued credentials; the blacklist's lists mirror it;
    /// the lookup lists agree with the credentials; each type's list of
    /// children holds the types naming it as parent, once each.
    pub open spec fn wf(&self) -> bool {
        &&& forall|i: int| 0 <= i < self.credentials.len() ==> #[trigger] self.credentials[i].id == i + 1
        &&& forall|i: int| 0 <= i < self.slices.len() ==> #[trigger] self.slices[i].id == i + 1
        &&& forall|i: int| 0 <= i < self.slices.len()
            ==> #[trigger] self.slices[i].weights.len() == self.slices[i].attestors.len()
        &&& forall|i: int| 0 <= i < self.governance.challenges.len()
            ==> #[trigger] self.governance.challenges[i].id == i + 1
        &&& forall|i: int| 0 <= i < self.governance.disputes.len()
            ==> #[trigger] self.governance.disputes[i].id == i + 1
        &&& forall|i: int| 0 <= i < self.governance.recoveries.len()
            ==> #[trigger] self.governance.recoveries[i].id == i + 1
        &&& forall|k: u64| #[trigger] self.cred_data.versions@.contains_key(k) ==> 1 <= k <= self.credentials.len()
        &&& lists_wf(self.lists)
        &&& indexes_wf(self.credentials@, self.indexes)
        &&& children_mirror_parents(self.registry.parents@, self.registry.children@)
    }

    /// Nothing is stored: no settings beyond the defaults, and every table,
    /// list and counter empty.
    pub open spec fn is_empty_state(&self) -> bool {
        &&& self.config.admin is None
        &&& !self.config.paused
        &&& self.config.state_version is None
        &&& self.config.rate_limit_config is None
        &&& self.config.pow_difficulty is None
        &&& self.config.transfer_restrictions@ == Map::<u32, TransferRestriction>::empty()
        &&& self.config.grace_periods@ == Map::<u32, u64>::empty()
        &&& self.config.reputation_config is None
        &&& self.rate_limits@ == Map::<u64, RateLimitState>::empty()
        &&& self.registry.types@ == Map::<u32, CredentialTypeDef>::empty()
        &&& self.registry.parents@ == Map::<u32, u32>::empty()
        &&& self.registry.children@ == Map::<u32, Vec<u32>>::empty()
        &&& self.credentials@ == Seq::<Credential>::empty()
        &&& self.attestations@ == Map::<u64, Vec<AttestationRecord>>::empty()
        &&& self.cred_data.attestation_expiry@ == Map::<u64, u64>::empty()
        &&& self.cred_data.attestation_windows@ == Map::<u64, AttestationTimeWindow>::empty()
        &&& self.cred_data.versions@ == Map::<u64, Vec<CredentialVersion>>::empty()
        &&& self.cred_data.audit_trails@ == Map::<u64, Vec<AuditEntry>>::empty()
        &&& self.cred_data.metadata_store@ == Map::<u64, CredentialMetadata>::empty()
        &&& self.cred_data.revocation_requests@ == Map::<u64, HolderRevocationRequest>::empty()
        &&& self.cred_data.revocation_audits@ == Map::<u64, Vec<RevocationAuditEntry>>::empty()
        &&& self.cred_data.transfer_requests@ == Map::<u64, TransferRequest>::empty()
        &&& self.cred_data.encrypted_metadata@ == Map::<u64, EncryptedCredentialMetadata>::empty()
        &&& self.cred_data.conditions@ == Map::<u64, Vec<AttestationCondition>>::empty()
        &&& self.cred_data.proof_requests@ == Map::<u64, Vec<ProofRequest>>::empty()
        &&& self.cred_data.proof_request_count == 0
        &&& self.cred_data.delegations@ == Map::<u128, Delegation>::empty()
        &&& self.cred_data.delegation_audits@ == Map::<u64, Vec<DelegationAuditEntry>>::empty()
        &&& self.cred_data.attestation_metadata@ == Map::<u128, Vec<u8>>::empty()
        &&& self.cred_data.evidence@ == Map::<u128, AttestationEvidence>::empty()
        &&& self.slices@ == Seq::<QuorumSlice>::empty()
        &&& self.slice_data.consensus_history@ == Map::<u64, Vec<ConsensusDecision>>::empty()
        &&& self.slice_data.threshold_audit@ == Map::<u64, Vec<ThresholdAuditEntry>>::empty()
        &&& self.slice_data.messages@ == Map::<u64, Vec<SliceMessage>>::empty()
        &&& self.slice_data.suspended@ == Map::<u128, bool>::empty()
        &&& self.indexes.subject_credentials@ == Map::<u64, Vec<u64>>::empty()
        &&& self.indexes.subject_index@ == Map::<u64, Vec<u64>>::empty()
        &&& self.indexes.type_index@ == Map::<u32, Vec<u64>>::empty()
        &&& self.indexes.duplicate_keys@ == Seq::<DuplicateKey>::empty()
        &&& self.holders.attestor_counts@ == Map::<u64, u64>::empty()
        &&& self.holders.holder_attestation_counts@ == Map::<u64, u64>::empty()
        &&& self.holders.slash_counts@ == Map::<u64, u64>::empty()
        &&& self.holders.activity@ == Map::<u64, Vec<ActivityRecord>>::empty()
        &&& self.holders.notifications@ == Map::<u64, Vec<HolderNotification>>::empty()
        &&& self.holders.reputation_recoveries@ == Map::<u64, ReputationRecovery>::empty()
        &&& self.holders.successful_verifications@ == Map::<u64, u64>::empty()
        &&& self.holders.failed_verifications@ == Map::<u64, u64>::empty()
        &&& self.holders.encodings@ == Map::<u64, Vec<u8>>::empty()
        &&& self.lists.blacklist@ == Map::<u128, BlacklistEntry>::empty()
        &&& self.lists.issuer_blacklist@ == Map::<u64, Vec<Address>>::empty()
        &&& self.lists.holder_blacklists@ == Map::<u64, Vec<Address>>::empty()
        &&& self.lists.whitelist@ == Map::<u128, bool>::empty()
        &&& self.lists.issuer_whitelist@ == Map::<u64, Vec<Address>>::empty()
        &&& self.governance.challenges@ == Seq::<Challenge>::empty()
        &&& self.governance.active_challenges@ == Map::<u128, u64>::empty()
        &&& self.governance.disputes@ == Seq::<Dispute>::empty()
        &&& self.governance.dispute_ids@ == Seq::<u64>::empty()
        &&& self.governance.onboarding_ids@ == Seq::<u64>::empty()
        &&& self.governance.onboarding_count == 0
        &&& self.governance.recoveries@ == Seq::<RecoveryRequest>::empty()
        &&& self.governance.recovery_approvals@ == Map::<u64, Vec<RecoveryApproval>>::empty()
        &&& self.governance.credential_recovery@ == Map::<u64, u64>::empty()
        &&& self.consent.requests@ == Map::<u64, ConsentRequest>::empty()
        &&& self.consent.request_count == 0
        &&& self.consent.pending@ == Seq::<DuplicateKey>::empty()
        &&& self.consent.share_links@ == Map::<u128, ShareLink>::empty()
        &&& self.caches.verification@ == Map::<u128, AttestationVerificationCache>::empty()
        &&& self.caches.revocation@ == Map::<u64, bool>::empty()
        &&& self.caches.metadata@ == Map::<u64, MetadataHashCache>::empty()
        &&& self.caches.slice_weight@ == Map::<u64, u32>::empty()
    }

    /// A contract with nothing stored.
    pub fn new() -> (c: Self)
        ensures
            c.wf(),
            c.config.admin is None,
            !c.config.paused,
            c.credentials.len() == 0,
            c.slices.len() == 0,
            c.is_empty_state(),
            hierarchy_acyclic(c.registry.parents@),
    {
        let c = QuorumProofContract {
            config: Config {
                admin: None,
                paused: false,
                state_version: None,
                rate_limit_config: None,
                pow_difficulty: None,
                transfer_restrictions: HashMap::new(),
                grace_periods: HashMap::new(),
                reputation_config: None,
            },
            rate_limits: HashMap::new(),
            registry: TypeRegistry {
                types: HashMap::new(),
                parents: HashMap::new(),
                children: HashMap::new(),
            },
            credentials: Vec::new(),
            attestations: HashMap::new(),
            cred_data: CredentialData {
                attestation_expiry: HashMap::new(),
                attestation_windows: HashMap::new(),
                versions: HashMap::new(),
                audit_trails: HashMap::new(),
                metadata_store: HashMap::new(),
                revocation_requests: HashMap::new(),
                revocation_audits: HashMap::new(),
                transfer_requests: HashMap::new(),
                encrypted_metadata: HashMap::new(),
                conditions: HashMap::new(),
                proof_requests: HashMap::new(),
                proof_request_count: 0,
                delegations: HashMap::new(),
                delegation_audits: HashMap::new(),
                attestation_metadata: HashMap::new(),
                evidence: HashMap::new(),
            },
            slices: Vec::new(),
            slice_data: SliceData {
                consensus_history: HashMap::new(),
                threshold_audit: HashMap::new(),
                messages: HashMap::new(),
                suspended: HashMap::new(),
            },
            indexes: Indexes {
                subject_credentials: HashMap::new(),
                subject_index: HashMap::new(),
                type_index: HashMap::new(),
                duplicate_keys: Vec::new(),
            },
            holders: HolderData {
                attestor_counts: HashMap::new(),
                holder_attestation_counts: HashMap::new(),
                slash_counts: HashMap::new(),
                activity: HashMap::new(),
                notifications: HashMap::new(),
                reputation_recoveries: HashMap::new(),
                successful_verifications: HashMap::new(),
                failed_verifications: HashMap::new(),
                encodings: HashMap::new(),
            },
            lists: AccessLists {
                blacklist: HashMap::new(),
                issuer_blacklist: HashMap::new(),
                holder_blacklists: HashMap::new(),
                whitelist: HashMap::new(),
                issuer_whitelist: HashMap::new(),
            },
            governance: Governance {
                challenges: Vec::new(),
                active_challenges: HashMap::new(),
                disputes: Vec::new(),
                dispute_ids: Vec::new(),
                onboarding_ids: Vec::new(),
                onboarding_count: 0,
                recoveries: Vec::new(),
                recovery_approvals: HashMap::new(),
                credential_recovery: HashMap::new(),
            },
            consent: ConsentData {
                requests: HashMap::new(),
                request_count: 0,
                pending: Vec::new(),
                share_links: HashMap::new(),
            },
            caches: Caches {
                verification: HashMap::new(),
                revocation: HashMap::new(),
                metadata: HashMap::new(),
                slice_weight: HashMap::new(),
            },
        };
        proof {
            let flat = |t: u32| 0nat;
            assert(ranked_by(c.registry.parents@, flat));
        }
        c
    }
}

} // verus!
