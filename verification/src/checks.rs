use vstd::prelude::*;
use crate::errors::{Abort, ContractError, Fault};
use crate::state::QuorumProofContract;

verus! {

/// The most attestors one slice may hold.
pub const MAX_ATTESTORS_PER_SLICE: u32 = 20;
/// The most entries one batch call may carry.
pub const MAX_BATCH_SIZE: u32 = 50;
/// The most approvers a recovery request may name.
pub const MAX_MULTISIG_SIGNERS: u32 = 10;
/// The longest metadata hash accepted, in bytes.
pub const MAX_METADATA_SIZE: u32 = 256;
/// The longest attestation metadata accepted, in bytes.
pub const MAX_METADATA_BYTES_SIZE: u32 = 1024;
/// How far in the future a timestamp argument may lie, in seconds.
pub const MAX_TIMESTAMP_FUTURE_OFFSET: u64 = 315_360_000;
/// How far in the past a timestamp argument may lie, in seconds.
pub const MAX_TIMESTAMP_PAST_OFFSET: u64 = 315_360_000;

/// `now - MAX_TIMESTAMP_PAST_OFFSET .. now + MAX_TIMESTAMP_FUTURE_OFFSET`,
/// both ends saturating, holds `ts`.
pub open spec fn timestamp_in_range(now: u64, ts: u64) -> bool {
    let min_allowed = if now >= MAX_TIMESTAMP_PAST_OFFSET { now - MAX_TIMESTAMP_PAST_OFFSET } else { 0 };
    let max_allowed = if now + MAX_TIMESTAMP_FUTURE_OFFSET <= u64::MAX {
        now + MAX_TIMESTAMP_FUTURE_OFFSET
    } else {
        u64::MAX as int
    };
    min_allowed <= ts <= max_allowed
}

/// An optional timestamp is acceptable when absent or in range.
pub open spec fn optional_timestamp_in_range(now: u64, ts: Option<u64>) -> bool {
    match ts {
        Some(t) => timestamp_in_range(now, t),
        None => true,
    }
}

impl QuorumProofContract {
    /// Whether `value` is the code of a fork status (NoFork, ForkDetected, ForkResolved).
    pub fn validate_fork_status(value: u32) -> (ok: bool)
        ensures
            ok == (1 <= value <= 3),
    {
        match value {
            1 | 2 | 3 => true,
            _ => false,
        }
    }

    /// Whether `value` is the code of a recovery status (Pending, Approved, Executed, Rejected).
    pub fn validate_recovery_status(value: u32) -> (ok: bool)
        ensures
            ok == (1 <= value <= 4),
    {
        match value {
            1 | 2 | 3 | 4 => true,
            _ => false,
        }
    }

    /// Whether `value` is the code of an onboarding status (Pending, Approved, Rejected).
    pub fn validate_onboarding_status(value: u32) -> (ok: bool)
        ensures
            ok == (1 <= value <= 3),
    {
        match value {
            1 | 2 | 3 => true,
            _ => false,
        }
    }

    /// Whether `value` is the code of a dispute status (Active, Resolved, Dismissed).
    pub fn validate_dispute_status(value: u32) -> (ok: bool)
        ensures
            ok == (1 <= value <= 3),
    {
        match value {
            1 | 2 | 3 => true,
            _ => false,
        }
    }

    /// Whether `value` is the code of a challenge status (Open, Upheld, Dismissed).
    pub fn validate_challenge_status(value: u32) -> (ok: bool)
        ensures
            ok == (1 <= value <= 3),
    {
        match value {
            1 | 2 | 3 => true,
            _ => false,
        }
    }

    /// Whether `value` is the code of an activity type.
    pub fn validate_activity_type(value: u32) -> (ok: bool)
        ensures
            ok == (1 <= value <= 6),
    {
        match value {
            1 | 2 | 3 | 4 | 5 | 6 => true,
            _ => false,
        }
    }

    /// Accepts a fork status code, refuses anything else with `InvalidEnumValue`.
    pub fn require_valid_fork_status(value: u32) -> (r: Result<(), Fault>)
        ensures
            r is Ok <==> 1 <= value <= 3,
            r is Err ==> r == Err::<(), Fault>(Fault::Contract(ContractError::InvalidEnumValue)),
    {
        if !Self::validate_fork_status(value) {
            return Err(Fault::Contract(ContractError::InvalidEnumValue));
        }
        Ok(())
    }

    /// Accepts a recovery status code, refuses anything else with `InvalidEnumValue`.
    pub fn require_valid_recovery_status(value: u32) -> (r: Result<(), Fault>)
        ensures
            r is Ok <==> 1 <= value <= 4,
            r is Err ==> r == Err::<(), Fault>(Fault::Contract(ContractError::InvalidEnumValue)),
    {
        if !Self::validate_recovery_status(value) {
            return Err(Fault::Contract(ContractError::InvalidEnumValue));
        }
        Ok(())
    }

    /// Accepts an onboarding status code, refuses anything else with `InvalidEnumValue`.
    pub fn require_valid_onboarding_status(value: u32) -> (r: Result<(), Fault>)
        ensures
            r is Ok <==> 1 <= value <= 3,
            r is Err ==> r == Err::<(), Fault>(Fault::Contract(ContractError::InvalidEnumValue)),
    {
        if !Self::validate_onboarding_status(value) {
            return Err(Fault::Contract(ContractError::InvalidEnumValue));
        }
        Ok(())
    }

    /// Accepts a dispute status code, refuses anything else with `InvalidEnumValue`.
    pub fn require_valid_dispute_status(value: u32) -> (r: Result<(), Fault>)
        ensures
            r is Ok <==> 1 <= value <= 3,
            r is Err ==> r == Err::<(), Fault>(Fault::Contract(ContractError::InvalidEnumValue)),
    {
        if !Self::validate_dispute_status(value) {
            return Err(Fault::Contract(ContractError::InvalidEnumValue));
        }
        Ok(())
    }

    /// Accepts a challenge status code, refuses anything else with `InvalidEnumValue`.
    pub fn require_valid_challenge_status(value: u32) -> (r: Result<(), Fault>)
        ensures
            r is Ok <==> 1 <= value <= 3,
            r is Err ==> r == Err::<(), Fault>(Fault::Contract(ContractError::InvalidEnumValue)),
    {
        if !Self::validate_challenge_status(value) {
            return Err(Fault::Contract(ContractError::InvalidEnumValue));
        }
        Ok(())
    }

    /// Accepts an activity type code, refuses anything else with `InvalidEnumValue`.
    pub fn require_valid_activity_type(value: u32) -> (r: Result<(), Fault>)
        ensures
            r is Ok <==> 1 <= value <= 6,
            r is Err ==> r == Err::<(), Fault>(Fault::Contract(ContractError::InvalidEnumValue)),
    {
        if !Self::validate_activity_type(value) {
            return Err(Fault::Contract(ContractError::InvalidEnumValue));
        }
        Ok(())
    }

    /// `a + b`, or `NumericOverflow` when it does not fit in a u32.
    pub fn add_u32(a: u32, b: u32) -> (r: Result<u32, Fault>)
        ensures
            a + b <= u32::MAX ==> r == Ok::<u32, Fault>((a + b) as u32),
            a + b > u32::MAX ==> r == Err::<u32, Fault>(Fault::Contract(ContractError::NumericOverflow)),
    {
        match a.checked_add(b) {
            Some(result) => Ok(result),
            None => Err(Fault::Contract(ContractError::NumericOverflow)),
        }
    }

    /// `a + b`, or `NumericOverflow` when it does not fit in a u64.
    pub fn add_u64(a: u64, b: u64) -> (r: Result<u64, Fault>)
        ensures
            a + b <= u64::MAX ==> r == Ok::<u64, Fault>((a + b) as u64),
            a + b > u64::MAX ==> r == Err::<u64, Fault>(Fault::Contract(ContractError::NumericOverflow)),
    {
        match a.checked_add(b) {
            Some(result) => Ok(result),
            None => Err(Fault::Contract(ContractError::NumericOverflow)),
        }
    }

    /// `a * b`, or `NumericOverflow` when it does not fit in a u32.
    pub fn mul_u32(a: u32, b: u32) -> (r: Result<u32, Fault>)
        ensures
            a * b <= u32::MAX ==> r == Ok::<u32, Fault>((a * b) as u32),
            a * b > u32::MAX ==> r == Err::<u32, Fault>(Fault::Contract(ContractError::NumericOverflow)),
    {
        match a.checked_mul(b) {
            Some(result) => Ok(result),
            None => Err(Fault::Contract(ContractError::NumericOverflow)),
        }
    }

    /// `a * b`, or `NumericOverflow` when it does not fit in a u64.
    pub fn mul_u64(a: u64, b: u64) -> (r: Result<u64, Fault>)
        ensures
            a * b <= u64::MAX ==> r == Ok::<u64, Fault>((a * b) as u64),
            a * b > u64::MAX ==> r == Err::<u64, Fault>(Fault::Contract(ContractError::NumericOverflow)),
    {
        match a.checked_mul(b) {
            Some(result) => Ok(result),
            None => Err(Fault::Contract(ContractError::NumericOverflow)),
        }
    }

    /// `value + 1`, or `NumericOverflow` at `u64::MAX`.
    pub fn increment_u64(value: u64) -> (r: Result<u64, Fault>)
        ensures
            value < u64::MAX ==> r == Ok::<u64, Fault>((value + 1) as u64),
            value == u64::MAX ==> r == Err::<u64, Fault>(Fault::Contract(ContractError::NumericOverflow)),
    {
        match value.checked_add(1) {
            Some(result) => Ok(result),
            None => Err(Fault::Contract(ContractError::NumericOverflow)),
        }
    }

    /// Accepts `min <= value <= max`, refuses anything else with `InvalidInput`.
    pub fn validate_u32_bounds(value: u32, min: u32, max: u32) -> (r: Result<(), Fault>)
        ensures
            r is Ok <==> min <= value <= max,
            r is Err ==> r == Err::<(), Fault>(Fault::Contract(ContractError::InvalidInput)),
    {
        if value < min || value > max {
            return Err(Fault::Contract(ContractError::InvalidInput));
        }
        Ok(())
    }

    /// Accepts `min <= value <= max`, refuses anything else with `InvalidInput`.
    pub fn validate_u64_bounds(value: u64, min: u64, max: u64) -> (r: Result<(), Fault>)
        ensures
            r is Ok <==> min <= value <= max,
            r is Err ==> r == Err::<(), Fault>(Fault::Contract(ContractError::InvalidInput)),
    {
        if value < min || value > max {
            return Err(Fault::Contract(ContractError::InvalidInput));
        }
        Ok(())
    }

    /// Accepts a list length between `min` and `max` inclusive; a shorter
    /// list is refused with `TooFewElements`, a longer one with `TooManyElements`.
    pub fn validate_array_bounds(len: u32, min: u32, max: u32) -> (r: Result<(), Fault>)
        ensures
            r is Ok <==> min <= len <= max,
            len < min ==> r == Err::<(), Fault>(Fault::Abort(Abort::TooFewElements)),
            min <= len && len > max ==> r == Err::<(), Fault>(Fault::Abort(Abort::TooManyElements)),
    {
        if len < min {
            return Err(Fault::Abort(Abort::TooFewElements));
        }
        if len > max {
            return Err(Fault::Abort(Abort::TooManyElements));
        }
        Ok(())
    }

    /// Accepts a true condition, refuses a false one with `InvalidInput`.
    pub fn precondition(cond: bool) -> (r: Result<(), Fault>)
        ensures
            r is Ok <==> cond,
            r is Err ==> r == Err::<(), Fault>(Fault::Contract(ContractError::InvalidInput)),
    {
        if !cond {
            return Err(Fault::Contract(ContractError::InvalidInput));
        }
        Ok(())
    }

    /// Accepts a true condition, refuses a false one as a broken invariant.
    pub fn postcondition(cond: bool) -> (r: Result<(), Fault>)
        ensures
            r is Ok <==> cond,
            r is Err ==> r == Err::<(), Fault>(Fault::Abort(Abort::InvalidState)),
    {
        if !cond {
            return Err(Fault::Abort(Abort::InvalidState));
        }
        Ok(())
    }

    /// Accepts a metadata hash of at most `MAX_METADATA_SIZE` bytes.
    pub fn validate_transaction_size(metadata_hash: &Vec<u8>) -> (r: Result<(), Fault>)
        ensures
            r is Ok <==> metadata_hash.len() <= MAX_METADATA_SIZE,
            r is Err ==> r == Err::<(), Fault>(Fault::Contract(ContractError::TransactionSizeExceeded)),
    {
        if metadata_hash.len() > MAX_METADATA_SIZE as usize {
            return Err(Fault::Contract(ContractError::TransactionSizeExceeded));
        }
        Ok(())
    }

    /// Accepts absent metadata or metadata of at most `MAX_METADATA_BYTES_SIZE` bytes.
    pub fn validate_metadata_bytes_size(metadata: &Option<Vec<u8>>) -> (r: Result<(), Fault>)
        ensures
            r is Ok <==> (match metadata {
                Some(m) => m.len() <= MAX_METADATA_BYTES_SIZE,
                None => true,
            }),
            r is Err ==> r == Err::<(), Fault>(Fault::Contract(ContractError::TransactionSizeExceeded)),
    {
        if let Some(m) = metadata {
            if m.len() > MAX_METADATA_BYTES_SIZE as usize {
                return Err(Fault::Contract(ContractError::TransactionSizeExceeded));
            }
        }
        Ok(())
    }

    /// Accepts a timestamp within the allowed distance of `now`.
    pub fn validate_timestamp(now: u64, timestamp: u64) -> (r: Result<(), Fault>)
        ensures
            r is Ok <==> timestamp_in_range(now, timestamp),
            r is Err ==> r == Err::<(), Fault>(Fault::Contract(ContractError::InvalidTimestamp)),
    {
        let min_allowed = now.saturating_sub(MAX_TIMESTAMP_PAST_OFFSET);
        let max_allowed = now.saturating_add(MAX_TIMESTAMP_FUTURE_OFFSET);
        if timestamp < min_allowed || timestamp > max_allowed {
            return Err(Fault::Contract(ContractError::InvalidTimestamp));
        }
        Ok(())
    }

    /// Accepts an absent timestamp or one within the allowed distance of `now`.
    pub fn validate_optional_timestamp(now: u64, timestamp: Option<u64>) -> (r: Result<(), Fault>)
        ensures
            r is Ok <==> optional_timestamp_in_range(now, timestamp),
            r is Err ==> r == Err::<(), Fault>(Fault::Contract(ContractError::InvalidTimestamp)),
    {
        if let Some(ts) = timestamp {
            Self::validate_timestamp(now, ts)?;
        }
        Ok(())
    }
}

} // verus!
