use vstd::prelude::*;

verus! {

/// The error codes a contract invocation can fail with.
#[derive(Clone, Copy, Debug, PartialEq, Eq, PartialOrd, Ord, Hash, Structural)]
pub enum ContractError {
    CredentialNotFound,
    SliceNotFound,
    ContractPaused,
    DuplicateCredential,
    DuplicateAttestor,
    AttestationExpired,
    InvalidInput,
    InvalidAddress,
    OnboardingNotFound,
    DisputeNotFound,
    UnauthorizedAction,
    InvalidApprovalWorkflow,
    AlreadyChallenged,
    ChallengeNotFound,
    ChallengeResolved,
    NotAttested,
    NotInSlice,
    AccusedCannotVote,
    AlreadyVoted,
    AttestationWindowOutside,
    RecoveryNotFound,
    RecoveryAlreadyExists,
    RecoveryNotPending,
    RecoveryAlreadyApproved,
    RecoveryThresholdNotMet,
    NotRecoveryApprover,
    DuplicateRecoveryApproval,
    /// Credential type hierarchy error: parent type not found
    InvalidParentType,
    /// Credential type hierarchy error: would create circular dependency
    CircularHierarchy,
    /// Credential type is not registered
    CredentialTypeNotFound,
    /// Holder is blacklisted by this issuer
    HolderBlacklisted,
    /// Holder already on this issuer's blacklist
    AlreadyBlacklisted,
    /// Holder not on this issuer's blacklist
    NotBlacklisted,
    /// Fork detected: conflicting attestations for the same slice
    ForkDetected,
    /// Fork already resolved for this slice
    ForkAlreadyResolved,
    /// No fork exists for this slice
    NoForkExists,
    /// Transaction size limit exceeded
    TransactionSizeExceeded,
    /// Timestamp outside the accepted range
    InvalidTimestamp,
    /// Credential type may not be transferred
    TransferNotAllowed,
    /// Transfer not authorized by the credential subject
    UnauthorizedTransfer,
    /// Rate limit exceeded for address
    RateLimitExceeded,
    /// Numeric overflow detected
    NumericOverflow,
    /// Invalid enum value
    InvalidEnumValue,
    /// Permission denied
    PermissionDenied,
    /// No revocation request exists for this credential
    RevocationRequestNotFound,
    /// Revocation request is not in pending state
    RevocationNotPending,
    /// Credential version does not exist
    CredentialVersionNotFound,
    /// Party has no decryption key entry for this credential
    DecryptionKeyNotFound,
    /// The proof-of-work nonce does not meet the configured difficulty
    InvalidPoWNonce,
    /// A consent request for the same issuer, subject and type is pending
    ConsentRequestAlreadyExists,
    /// No consent request with this identifier
    ConsentRequestNotFound,
    /// The consent request has timed out
    ConsentRequestExpired,
    /// The subject has not approved the consent request
    ConsentNotGranted,
}

/// The numeric code of each error, as a client of the contract sees it.
pub open spec fn error_code_spec(e: ContractError) -> u32 {
    match e {
        ContractError::CredentialNotFound => 1,
        ContractError::SliceNotFound => 2,
        ContractError::ContractPaused => 3,
        ContractError::DuplicateCredential => 4,
        ContractError::DuplicateAttestor => 5,
        ContractError::AttestationExpired => 6,
        ContractError::InvalidInput => 7,
        ContractError::InvalidAddress => 8,
        ContractError::OnboardingNotFound => 9,
        ContractError::DisputeNotFound => 10,
        ContractError::UnauthorizedAction => 11,
        ContractError::InvalidApprovalWorkflow => 12,
        ContractError::AlreadyChallenged => 13,
        ContractError::ChallengeNotFound => 14,
        ContractError::ChallengeResolved => 15,
        ContractError::NotAttested => 16,
        ContractError::NotInSlice => 17,
        ContractError::AccusedCannotVote => 18,
        ContractError::AlreadyVoted => 19,
        ContractError::AttestationWindowOutside => 20,
        ContractError::RecoveryNotFound => 21,
        ContractError::RecoveryAlreadyExists => 22,
        ContractError::RecoveryNotPending => 23,
        ContractError::RecoveryAlreadyApproved => 24,
        ContractError::RecoveryThresholdNotMet => 25,
        ContractError::NotRecoveryApprover => 26,
        ContractError::DuplicateRecoveryApproval => 27,
        ContractError::InvalidParentType => 28,
        ContractError::CircularHierarchy => 29,
        ContractError::CredentialTypeNotFound => 30,
        ContractError::HolderBlacklisted => 31,
        ContractError::AlreadyBlacklisted => 32,
        ContractError::NotBlacklisted => 33,
        ContractError::ForkDetected => 34,
        ContractError::ForkAlreadyResolved => 35,
        ContractError::NoForkExists => 36,
        ContractError::TransactionSizeExceeded => 37,
        ContractError::InvalidTimestamp => 38,
        ContractError::TransferNotAllowed => 39,
        ContractError::UnauthorizedTransfer => 40,
        ContractError::RateLimitExceeded => 41,
        ContractError::NumericOverflow => 42,
        ContractError::InvalidEnumValue => 43,
        ContractError::PermissionDenied => 44,
        ContractError::RevocationRequestNotFound => 45,
        ContractError::RevocationNotPending => 46,
        ContractError::CredentialVersionNotFound => 47,
        ContractError::DecryptionKeyNotFound => 48,
        ContractError::InvalidPoWNonce => 49,
        ContractError::ConsentRequestAlreadyExists => 50,
        ContractError::ConsentRequestNotFound => 51,
        ContractError::ConsentRequestExpired => 52,
        ContractError::ConsentNotGranted => 53,
    }
}

impl ContractError {
    /// The numeric code of this error.
    pub fn code(&self) -> (c: u32)
        ensures
            c == error_code_spec(*self),
    {
        match self {
            ContractError::CredentialNotFound => 1,
            ContractError::SliceNotFound => 2,
            ContractError::ContractPaused => 3,
            ContractError::DuplicateCredential => 4,
            ContractError::DuplicateAttestor => 5,
            ContractError::AttestationExpired => 6,
            ContractError::InvalidInput => 7,
            ContractError::InvalidAddress => 8,
            ContractError::OnboardingNotFound => 9,
            ContractError::DisputeNotFound => 10,
            ContractError::UnauthorizedAction => 11,
            ContractError::InvalidApprovalWorkflow => 12,
            ContractError::AlreadyChallenged => 13,
            ContractError::ChallengeNotFound => 14,
            ContractError::ChallengeResolved => 15,
            ContractError::NotAttested => 16,
            ContractError::NotInSlice => 17,
            ContractError::AccusedCannotVote => 18,
            ContractError::AlreadyVoted => 19,
            ContractError::AttestationWindowOutside => 20,
            ContractError::RecoveryNotFound => 21,
            ContractError::RecoveryAlreadyExists => 22,
            ContractError::RecoveryNotPending => 23,
            ContractError::RecoveryAlreadyApproved => 24,
            ContractError::RecoveryThresholdNotMet => 25,
            ContractError::NotRecoveryApprover => 26,
            ContractError::DuplicateRecoveryApproval => 27,
            ContractError::InvalidParentType => 28,
            ContractError::CircularHierarchy => 29,
            ContractError::CredentialTypeNotFound => 30,
            ContractError::HolderBlacklisted => 31,
            ContractError::AlreadyBlacklisted => 32,
            ContractError::NotBlacklisted => 33,
            ContractError::ForkDetected => 34,
            ContractError::ForkAlreadyResolved => 35,
            ContractError::NoForkExists => 36,
            ContractError::TransactionSizeExceeded => 37,
            ContractError::InvalidTimestamp => 38,
            ContractError::TransferNotAllowed => 39,
            ContractError::UnauthorizedTransfer => 40,
            ContractError::RateLimitExceeded => 41,
            ContractError::NumericOverflow => 42,
            ContractError::InvalidEnumValue => 43,
            ContractError::PermissionDenied => 44,
            ContractError::RevocationRequestNotFound => 45,
            ContractError::RevocationNotPending => 46,
            ContractError::CredentialVersionNotFound => 47,
            ContractError::DecryptionKeyNotFound => 48,
            ContractError::InvalidPoWNonce => 49,
            ContractError::ConsentRequestAlreadyExists => 50,
            ContractError::ConsentRequestNotFound => 51,
            ContractError::ConsentRequestExpired => 52,
            ContractError::ConsentNotGranted => 53,
        }
    }
}

/// A failed assertion inside an entry point: the invocation stops without an
/// error code, and nothing it wrote is kept.
#[derive(Clone, Copy, Debug, PartialEq, Eq, Hash, Structural)]
pub enum Abort {
    AlreadyInitialized,
    NotInitialized,
    Unauthorized,
    /// An input is outside what the entry point accepts.
    InvalidArgument,
    /// Two inputs that must have equal lengths do not.
    LengthMismatch,
    /// A credential type of 0, which no credential may have.
    ZeroCredentialType,
    /// An empty metadata hash, which no credential may have.
    EmptyMetadataHash,
    /// A batch or list input has fewer elements than the allowed minimum.
    TooFewElements,
    /// A batch or list input has more elements than the allowed maximum.
    TooManyElements,
    CredentialRevoked,
    CredentialSuspended,
    CredentialExpired,
    CredentialNotSuspended,
    AttestorNotInSlice,
    AttestorSuspended,
    AlreadyAttested,
    AttestationNotFound,
    /// A stored state transition rule was violated (already pending, already completed, ...).
    InvalidState,
    /// An arithmetic operation overflowed.
    ArithmeticOverflow,
    /// A lookup by a key that the contract does not hold.
    NotFound,
}

/// Why a contract invocation failed. A failed invocation changes no state.
#[derive(Clone, Copy, Debug, PartialEq, Eq, Hash, Structural)]
pub enum Fault {
    /// The invocation stopped with a contract error code.
    Contract(ContractError),
    /// The invocation stopped at a failed assertion.
    Abort(Abort),
}

} // verus!
