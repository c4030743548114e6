use vstd::prelude::*;
use crate::admin::admin_failure;
use crate::errors::{Abort, Fault};
use crate::state::QuorumProofContract;
use crate::types::Address;

verus! {

/// The most validation results the history keeps.
pub const MAX_VALIDATION_LOG: usize = 100;
/// The most alerts the monitor keeps.
pub const MAX_STATE_ALERTS: usize = 50;
/// A state version above this draws a warning.
pub const HIGH_STATE_VERSION: u32 = 100;
/// A credential count above this draws a warning.
pub const HIGH_CREDENTIAL_COUNT: u64 = 1_000_000_000;

/// The outcome of one state validation.
#[derive(Debug)]
pub struct ValidationResult {
    pub is_valid: bool,
    pub errors: Vec<String>,
    pub warnings: Vec<String>,
    pub checked_at: u64,
}

/// A snapshot of the contract's counts, for later comparison.
#[derive(Debug)]
pub struct StateCheckpoint {
    pub timestamp: u64,
    pub credential_count: u64,
    pub slice_count: u64,
    pub attestation_count: u64,
    pub hash: Vec<u8>,
}

/// The state monitor: recent validation results, the last checkpoint and
/// recent alerts.
pub struct StateMonitor {
    pub validation_log: Vec<ValidationResult>,
    pub checkpoint: Option<StateCheckpoint>,
    pub alerts: Vec<String>,
}

/// The last `n` entries of `s`, or all of them when there are fewer.
pub open spec fn keep_last<T>(s: Seq<T>, n: int) -> Seq<T> {
    if s.len() > n { s.subrange(s.len() - n, s.len() as int) } else { s }
}

/// The state hash: the low byte of each of the three counts.
pub open spec fn state_hash_spec(credential_count: u64, slice_count: u64, attestation_count: u64) -> Seq<u8> {
    seq![credential_count as u8, slice_count as u8, attestation_count as u8]
}

/// The counts are no corruption against the checkpoint: none decreased,
/// and none grew past ten times its checkpointed value.
pub open spec fn count_plausible(current: u64, checkpointed: u64) -> bool {
    current >= checkpointed && current <= checkpointed * 10
}

impl StateMonitor {
    /// A monitor with nothing recorded.
    pub fn new() -> (m: Self)
        ensures
            m.validation_log@.len() == 0,
            m.checkpoint is None,
            m.alerts@.len() == 0,
    {
        StateMonitor { validation_log: Vec::new(), checkpoint: None, alerts: Vec::new() }
    }
}

/// Validates the contract's state at `now`: an error when no admin is set;
/// warnings when the state version is above `HIGH_STATE_VERSION` and when
/// more than `HIGH_CREDENTIAL_COUNT` credentials exist.
pub fn validate_state(contract: &QuorumProofContract, now: u64) -> (r: ValidationResult)
    ensures
        r.is_valid == contract.config.admin is Some,
        r.errors@.len() == (if contract.config.admin is Some { 0int } else { 1int }),
        contract.config.admin is None ==> r.errors@[0]@ == "Admin not initialized"@,
        ({
            let version_high = contract.config.state_version matches Some(v) && v > HIGH_STATE_VERSION;
            let count_high = contract.credentials.len() > HIGH_CREDENTIAL_COUNT;
            &&& r.warnings@.len() == (if version_high { 1int } else { 0int }) + (if count_high { 1int } else { 0int })
            &&& version_high ==> r.warnings@[0]@ == "State version unusually high"@
            &&& count_high ==> r.warnings@[r.warnings@.len() - 1]@ == "Credential count suspiciously high"@
        }),
        r.checked_at == now,
{
    let mut errors: Vec<String> = Vec::new();
    let mut warnings: Vec<String> = Vec::new();
    if contract.config.admin.is_none() {
        errors.push("Admin not initialized".to_owned());
    }
    let version: u32 = match contract.config.state_version {
        Some(v) => v,
        None => 0,
    };
    if version > HIGH_STATE_VERSION {
        warnings.push("State version unusually high".to_owned());
    }
    if contract.credentials.len() as u64 > HIGH_CREDENTIAL_COUNT {
        warnings.push("Credential count suspiciously high".to_owned());
    }
    let is_valid = errors.len() == 0;
    ValidationResult { is_valid, errors, warnings, checked_at: now }
}

/// The state hash of three counts (`state_hash_spec`).
pub fn compute_state_hash(credential_count: u64, slice_count: u64, attestation_count: u64) -> (h: Vec<u8>)
    ensures
        h@ == state_hash_spec(credential_count, slice_count, attestation_count),
{
    let mut h: Vec<u8> = Vec::new();
    h.push(credential_count as u8);
    h.push(slice_count as u8);
    h.push(attestation_count as u8);
    assert(h@ =~= state_hash_spec(credential_count, slice_count, attestation_count));
    h
}

/// A checkpoint of the three counts, dated `now`.
pub fn create_checkpoint(now: u64, credential_count: u64, slice_count: u64, attestation_count: u64) -> (c: StateCheckpoint)
    ensures
        c.timestamp == now,
        c.credential_count == credential_count,
        c.slice_count == slice_count,
        c.attestation_count == attestation_count,
        c.hash@ == state_hash_spec(credential_count, slice_count, attestation_count),
{
    StateCheckpoint {
        timestamp: now,
        credential_count,
        slice_count,
        attestation_count,
        hash: compute_state_hash(credential_count, slice_count, attestation_count),
    }
}

/// Keeps the last `n` entries of a list.
fn trim_to<T>(v: &mut Vec<T>, n: usize)
    ensures
        final(v)@ == keep_last(old(v)@, n as int),
{
    if v.len() > n {
        let at = v.len() - n;
        let kept = v.split_off(at);
        *v = kept;
    }
}

impl StateMonitor {
    /// Appends a validation result, keeping the last `MAX_VALIDATION_LOG`.
    pub fn log_validation(&mut self, result: ValidationResult)
        ensures
            final(self).validation_log@ == keep_last(old(self).validation_log@.push(result), MAX_VALIDATION_LOG as int),
            final(self).checkpoint == old(self).checkpoint,
            final(self).alerts == old(self).alerts,
    {
        self.validation_log.push(result);
        trim_to(&mut self.validation_log, MAX_VALIDATION_LOG);
    }

    /// The recorded validation results, oldest first.
    pub fn get_validation_history(&self) -> (t: &[ValidationResult])
        ensures
            t@ == self.validation_log@,
    {
        self.validation_log.as_slice()
    }

    /// Records a checkpoint, replacing the previous one.
    pub fn store_checkpoint(&mut self, checkpoint: StateCheckpoint)
        ensures
            final(self).checkpoint == Some(checkpoint),
            final(self).validation_log == old(self).validation_log,
            final(self).alerts == old(self).alerts,
    {
        self.checkpoint = Some(checkpoint);
    }

    /// The last checkpoint, if any.
    pub fn get_last_checkpoint(&self) -> (c: Option<&StateCheckpoint>)
        ensures
            c == (match self.checkpoint {
                Some(x) => Some(&x),
                None => None,
            }),
    {
        match &self.checkpoint {
            Some(x) => Some(x),
            None => None,
        }
    }

    /// Whether the counts betray corruption against the last checkpoint:
    /// a count fell, or grew past ten times its checkpointed value. With no
    /// checkpoint nothing is detected. A checkpointed count whose tenfold
    /// does not fit in a u64 is refused as an arithmetic overflow, when it
    /// is reached.
    pub fn detect_corruption(&self, credential_count: u64, slice_count: u64, attestation_count: u64) -> (r: Result<bool, Fault>)
        ensures
            self.checkpoint is None ==> r == Ok::<bool, Fault>(false),
            self.checkpoint matches Some(c) ==> {
                let decreased = credential_count < c.credential_count || slice_count < c.slice_count
                    || attestation_count < c.attestation_count;
                &&& decreased ==> r == Ok::<bool, Fault>(true)
                &&& !decreased && c.credential_count * 10 > u64::MAX ==> r == Err::<bool, Fault>(Fault::Abort(Abort::ArithmeticOverflow))
                &&& !decreased && c.credential_count * 10 <= u64::MAX && credential_count > c.credential_count * 10
                    ==> r == Ok::<bool, Fault>(true)
                &&& !decreased && c.credential_count * 10 <= u64::MAX && credential_count <= c.credential_count * 10
                    && c.slice_count * 10 > u64::MAX ==> r == Err::<bool, Fault>(Fault::Abort(Abort::ArithmeticOverflow))
                &&& !decreased && c.credential_count * 10 <= u64::MAX && credential_count <= c.credential_count * 10
                    && c.slice_count * 10 <= u64::MAX && slice_count > c.slice_count * 10 ==> r == Ok::<bool, Fault>(true)
                &&& !decreased && c.credential_count * 10 <= u64::MAX && credential_count <= c.credential_count * 10
                    && c.slice_count * 10 <= u64::MAX && slice_count <= c.slice_count * 10
                    && c.attestation_count * 10 > u64::MAX ==> r == Err::<bool, Fault>(Fault::Abort(Abort::ArithmeticOverflow))
                &&& !decreased && c.credential_count * 10 <= u64::MAX && credential_count <= c.credential_count * 10
                    && c.slice_count * 10 <= u64::MAX && slice_count <= c.slice_count * 10
                    && c.attestation_count * 10 <= u64::MAX ==> r == Ok::<bool, Fault>(attestation_count > c.attestation_count * 10)
            },
    {
        match &self.checkpoint {
            None => Ok(false),
            Some(c) => {
                if credential_count < c.credential_count || slice_count < c.slice_count
                    || attestation_count < c.attestation_count {
                    return Ok(true);
                }
                if c.credential_count > u64::MAX / 10 {
                    return Err(Fault::Abort(Abort::ArithmeticOverflow));
                }
                if credential_count > c.credential_count * 10 {
                    return Ok(true);
                }
                if c.slice_count > u64::MAX / 10 {
                    return Err(Fault::Abort(Abort::ArithmeticOverflow));
                }
                if slice_count > c.slice_count * 10 {
                    return Ok(true);
                }
                if c.attestation_count > u64::MAX / 10 {
                    return Err(Fault::Abort(Abort::ArithmeticOverflow));
                }
                Ok(attestation_count > c.attestation_count * 10)
            },
        }
    }

    /// Records an alert, keeping the last `MAX_STATE_ALERTS`.
    pub fn alert_on_inconsistency(&mut self, message: String)
        ensures
            final(self).alerts@ == keep_last(old(self).alerts@.push(message), MAX_STATE_ALERTS as int),
            final(self).validation_log == old(self).validation_log,
            final(self).checkpoint == old(self).checkpoint,
    {
        self.alerts.push(message);
        trim_to(&mut self.alerts, MAX_STATE_ALERTS);
    }

    /// The recorded alerts, oldest first.
    pub fn get_state_alerts(&self) -> (t: &[String])
        ensures
            t@ == self.alerts@,
    {
        self.alerts.as_slice()
    }
}

impl QuorumProofContract {
    /// Validates the state at `now`, records the result in the monitor and
    /// answers whether the state is valid.
    pub fn validate_state(&self, monitor: &mut StateMonitor, now: u64) -> (b: bool)
        ensures
            b == self.config.admin is Some,
            final(monitor).validation_log@.len() > 0,
            final(monitor).validation_log@.last().is_valid == b,
            final(monitor).validation_log@.last().checked_at == now,
            final(monitor).validation_log@.drop_last() == keep_last(old(monitor).validation_log@, (MAX_VALIDATION_LOG - 1) as int),
            final(monitor).checkpoint == old(monitor).checkpoint,
            final(monitor).alerts == old(monitor).alerts,
    {
        let result = validate_state(self, now);
        let valid = result.is_valid;
        let ghost r = result;
        monitor.log_validation(result);
        proof {
            assert(monitor.validation_log@.last() == r);
            assert(monitor.validation_log@.drop_last() =~= keep_last(old(monitor).validation_log@, (MAX_VALIDATION_LOG - 1) as int));
        }
        valid
    }

    /// Whether each recorded validation found the state valid, as the
    /// words `valid` and `invalid`, oldest first.
    pub fn get_validation_history(&self, monitor: &StateMonitor) -> (v: Vec<String>)
        ensures
            v@.len() == monitor.validation_log@.len(),
            forall|i: int| 0 <= i < v@.len() ==> #[trigger] v@[i]@ == (if monitor.validation_log@[i].is_valid {
                "valid"@
            } else {
                "invalid"@
            }),
    {
        let mut out: Vec<String> = Vec::new();
        let mut k: usize = 0;
        while k < monitor.validation_log.len()
            invariant
                k <= monitor.validation_log.len(),
                out@.len() == k,
                forall|i: int| 0 <= i < k ==> #[trigger] out@[i]@ == (if monitor.validation_log@[i].is_valid {
                    "valid"@
                } else {
                    "invalid"@
                }),
            decreases monitor.validation_log.len() - k,
        {
            if monitor.validation_log[k].is_valid {
                out.push("valid".to_owned());
            } else {
                out.push("invalid".to_owned());
            }
            k += 1;
        }
        out
    }

    /// The admin records a checkpoint of the given counts, dated `now`.
    pub fn create_state_checkpoint(
        &self,
        monitor: &mut StateMonitor,
        now: u64,
        admin: Address,
        credential_count: u64,
        slice_count: u64,
        attestation_count: u64,
    ) -> (r: Result<(), Fault>)
        ensures
            r is Err <==> admin_failure(self.config, admin) is Some,
            r matches Err(f) ==> admin_failure(self.config, admin) == Some(f) && *final(monitor) == *old(monitor),
            r is Ok ==> (final(monitor).checkpoint matches Some(c) && c.timestamp == now
                && c.credential_count == credential_count && c.slice_count == slice_count
                && c.attestation_count == attestation_count
                && c.hash@ == state_hash_spec(credential_count, slice_count, attestation_count))
                && final(monitor).validation_log == old(monitor).validation_log
                && final(monitor).alerts == old(monitor).alerts,
    {
        self.check_admin(admin)?;
        let checkpoint = create_checkpoint(now, credential_count, slice_count, attestation_count);
        monitor.store_checkpoint(checkpoint);
        Ok(())
    }
}

} // verus!
