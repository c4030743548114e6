use vstd::prelude::*;
use crate::errors::{ContractError, Fault};
use crate::state::QuorumProofContract;
use crate::types::{Address, RateLimitConfig, RateLimitState};

verus! {

broadcast use vstd::std_specs::hash::group_hash_axioms;

/// Calls an address may make per window unless configured otherwise.
pub const DEFAULT_RATE_LIMIT_MAX_CALLS: u32 = 100;
/// The default window length, in seconds.
pub const DEFAULT_RATE_LIMIT_WINDOW_SECONDS: u64 = 3600;

/// The configuration in force: the stored one, else the defaults.
pub open spec fn effective_rate_config(stored: Option<RateLimitConfig>) -> RateLimitConfig {
    match stored {
        Some(c) => c,
        None => RateLimitConfig {
            max_calls: DEFAULT_RATE_LIMIT_MAX_CALLS,
            window_seconds: DEFAULT_RATE_LIMIT_WINDOW_SECONDS,
        },
    }
}

/// One more call at time `now`: `None` when the address has used up its
/// window, else the address's new tracking state. A window runs from its
/// start for `window_seconds`; a call after it opens a new window.
pub open spec fn rate_limit_step(
    config: RateLimitConfig,
    state: Option<RateLimitState>,
    now: u64,
) -> Option<RateLimitState> {
    match state {
        Some(s) => {
            let elapsed = if now >= s.window_start { now - s.window_start } else { 0 };
            if elapsed < config.window_seconds {
                if s.call_count >= config.max_calls {
                    None
                } else {
                    Some(RateLimitState {
                        call_count: if s.call_count < u32::MAX { (s.call_count + 1) as u32 } else { u32::MAX },
                        window_start: s.window_start,
                    })
                }
            } else {
                Some(RateLimitState { call_count: 1, window_start: now })
            }
        },
        None => Some(RateLimitState { call_count: 1, window_start: now }),
    }
}

/// Computes `rate_limit_step`.
pub fn rate_limit_next(config: RateLimitConfig, state: Option<RateLimitState>, now: u64) -> (r: Option<RateLimitState>)
    ensures
        r == rate_limit_step(config, state, now),
{
    match state {
        Some(s) => {
            if now.saturating_sub(s.window_start) < config.window_seconds {
                if s.call_count >= config.max_calls {
                    None
                } else {
                    Some(RateLimitState { call_count: s.call_count.saturating_add(1), window_start: s.window_start })
                }
            } else {
                Some(RateLimitState { call_count: 1, window_start: now })
            }
        },
        None => Some(RateLimitState { call_count: 1, window_start: now }),
    }
}

/// Within one window, the count of admitted calls never exceeds the limit:
/// if the tracked count is within the limit before a call, it is after.
pub proof fn lemma_rate_limit_bounded(config: RateLimitConfig, state: Option<RateLimitState>, now: u64)
    requires
        config.max_calls >= 1,
        state matches Some(s) ==> s.call_count <= config.max_calls,
    ensures
        rate_limit_step(config, state, now) matches Some(s2) ==> s2.call_count <= config.max_calls,
{
}

/// A call that is refused leaves the count at the limit, and a refusal only
/// happens inside an open window whose count already reached the limit.
pub proof fn lemma_rate_limit_refusal(config: RateLimitConfig, state: Option<RateLimitState>, now: u64)
    requires
        rate_limit_step(config, state, now) is None,
    ensures
        state matches Some(s) && s.call_count >= config.max_calls
            && (if now >= s.window_start { now - s.window_start } else { 0 }) < config.window_seconds,
{
}

impl QuorumProofContract {
    /// The rate limit configuration in force.
    pub fn get_rate_limit_config_pub(&self) -> (c: RateLimitConfig)
        ensures
            c == effective_rate_config(self.config.rate_limit_config),
    {
        match self.config.rate_limit_config {
            Some(c) => c,
            None => RateLimitConfig {
                max_calls: DEFAULT_RATE_LIMIT_MAX_CALLS,
                window_seconds: DEFAULT_RATE_LIMIT_WINDOW_SECONDS,
            },
        }
    }

    /// The tracking state of `address`, if it has made a rate-limited call.
    pub fn get_rate_limit_state(&self, address: Address) -> (s: Option<RateLimitState>)
        ensures
            s == (if self.rate_limits@.contains_key(address.0) {
                Some(self.rate_limits@[address.0])
            } else {
                None
            }),
    {
        match self.rate_limits.get(&address.0) {
            Some(s) => Some(*s),
            None => None,
        }
    }

    /// The state `address` would have after one more call now, or
    /// `RateLimitExceeded` when its window is used up. Nothing is stored.
    pub fn next_rate_limit_state(&self, address: Address, now: u64) -> (r: Result<RateLimitState, Fault>)
        ensures
            r == (match rate_limit_step(
                effective_rate_config(self.config.rate_limit_config),
                if self.rate_limits@.contains_key(address.0) { Some(self.rate_limits@[address.0]) } else { None },
                now,
            ) {
                Some(s) => Ok::<RateLimitState, Fault>(s),
                None => Err(Fault::Contract(ContractError::RateLimitExceeded)),
            }),
    {
        let config = self.get_rate_limit_config_pub();
        let state = self.get_rate_limit_state(address);
        match rate_limit_next(config, state, now) {
            Some(s) => Ok(s),
            None => Err(Fault::Contract(ContractError::RateLimitExceeded)),
        }
    }

    /// Counts a call by `address` at `now`: returns whether it is within the
    /// limit, and stores the new tracking state when it is.
    pub fn check_rate_limit(&mut self, address: Address, now: u64) -> (ok: bool)
        ensures
            ({
                let step = rate_limit_step(
                    effective_rate_config(old(self).config.rate_limit_config),
                    if old(self).rate_limits@.contains_key(address.0) {
                        Some(old(self).rate_limits@[address.0])
                    } else {
                        None
                    },
                    now,
                );
                &&& ok == step is Some
                &&& step matches Some(s) ==> final(self).rate_limits@ == old(self).rate_limits@.insert(address.0, s)
                &&& step is None ==> final(self).rate_limits@ == old(self).rate_limits@
            }),
            final(self).config == old(self).config,
            final(self).credentials == old(self).credentials,
    {
        match self.next_rate_limit_state(address, now) {
            Ok(s) => {
                self.rate_limits.insert(address.0, s);
                true
            },
            Err(_) => false,
        }
    }

    /// Like `check_rate_limit`, refusing a call over the limit with `RateLimitExceeded`.
    pub fn require_rate_limit(&mut self, address: Address, now: u64) -> (r: Result<(), Fault>)
        ensures
            ({
                let step = rate_limit_step(
                    effective_rate_config(old(self).config.rate_limit_config),
                    if old(self).rate_limits@.contains_key(address.0) {
                        Some(old(self).rate_limits@[address.0])
                    } else {
                        None
                    },
                    now,
                );
                &&& r is Ok <==> step is Some
                &&& r is Err ==> r == Err::<(), Fault>(Fault::Contract(ContractError::RateLimitExceeded))
                &&& step matches Some(s) ==> final(self).rate_limits@ == old(self).rate_limits@.insert(address.0, s)
                &&& step is None ==> final(self).rate_limits@ == old(self).rate_limits@
            }),
            final(self).config == old(self).config,
            final(self).credentials == old(self).credentials,
    {
        if !self.check_rate_limit(address, now) {
            return Err(Fault::Contract(ContractError::RateLimitExceeded));
        }
        Ok(())
    }
}

} // verus!
