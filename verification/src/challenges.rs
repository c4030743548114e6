use vstd::prelude::*;
use crate::errors::{Abort, ContractError, Fault};
use crate::quorum::{attested_by, cap_u32, contains_address, has_attested, member_weight, weight_of, is_suspended_in};
use crate::slices::only_suspensions_changed;
use crate::state::{pack_pair, pair_key, only_changed, holders_changed, HolderField, Part, QuorumProofContract};
use crate::store::{count_at, list_at, only_key_set, read_count};
use crate::types::{Address, AttestationRecord, Challenge, ChallengeStatus, QuorumSlice};

verus! {

broadcast use vstd::std_specs::hash::group_hash_axioms;

/// The summed weights of the voters in the slice, without any cap.
pub open spec fn votes_weight_sum(slice: QuorumSlice, votes: Seq<Address>) -> int
    decreases votes.len(),
{
    if votes.len() == 0 {
        0
    } else {
        votes_weight_sum(slice, votes.drop_last()) + member_weight(slice, votes.last())
    }
}

/// The weight of the voters, summed with saturation.
pub open spec fn votes_weight(slice: QuorumSlice, votes: Seq<Address>) -> int {
    cap_u32(votes_weight_sum(slice, votes))
}

/// The records of others than `a`, order kept.
pub open spec fn records_without(s: Seq<AttestationRecord>, a: Address) -> Seq<AttestationRecord>
    decreases s.len(),
{
    if s.len() == 0 {
        s
    } else if s.last().attestor == a {
        records_without(s.drop_last(), a)
    } else {
        records_without(s.drop_last(), a).push(s.last())
    }
}

proof fn lemma_member_weight_bounds(slice: QuorumSlice, a: Address)
    ensures
        0 <= member_weight(slice, a) <= u32::MAX,
{
}

pub proof fn lemma_votes_weight_sum_nonneg(slice: QuorumSlice, votes: Seq<Address>)
    ensures
        votes_weight_sum(slice, votes) >= 0,
    decreases votes.len(),
{
    if votes.len() > 0 {
        lemma_votes_weight_sum_nonneg(slice, votes.drop_last());
        lemma_member_weight_bounds(slice, votes.last());
    }
}

/// The weight of the voters in the slice, summed with saturation.
pub fn tally_votes(slice: &QuorumSlice, votes: &Vec<Address>) -> (w: u32)
    ensures
        w == votes_weight(*slice, votes@),
{
    let mut total: u32 = 0;
    let mut i: usize = 0;
    while i < votes.len()
        invariant
            i <= votes.len(),
            total == cap_u32(votes_weight_sum(*slice, votes@.take(i as int))),
        decreases votes.len() - i,
    {
        proof {
            assert(votes@.take(i as int + 1).drop_last() =~= votes@.take(i as int));
            lemma_votes_weight_sum_nonneg(*slice, votes@.take(i as int));
            lemma_member_weight_bounds(*slice, votes@[i as int]);
        }
        total = total.saturating_add(weight_of(slice, votes[i]));
        i += 1;
    }
    assert(votes@.take(votes.len() as int) =~= votes@);
    total
}

proof fn lemma_records_without_append(x: Seq<AttestationRecord>, y: Seq<AttestationRecord>, a: Address)
    ensures
        records_without(x + y, a) == records_without(x, a) + records_without(y, a),
    decreases y.len(),
{
    if y.len() == 0 {
        assert(x + y =~= x);
        assert(records_without(x, a) + records_without(y, a) =~= records_without(x, a));
    } else {
        assert((x + y).drop_last() =~= x + y.drop_last());
        assert((x + y).last() == y.last());
        lemma_records_without_append(x, y.drop_last(), a);
        if y.last().attestor == a {
        } else {
            assert(records_without(x, a) + records_without(y, a) =~= (records_without(x, a) + records_without(y.drop_last(), a)).push(y.last()));
        }
    }
}

/// Keeps the records of others than `a`, moving them out of `s`.
pub fn drop_records_of(s: Vec<AttestationRecord>, a: Address) -> (r: Vec<AttestationRecord>)
    ensures
        r@ == records_without(s@, a),
{
    let ghost initial = s@;
    let mut src = s;
    let mut r: Vec<AttestationRecord> = Vec::new();
    proof {
        assert(records_without(Seq::<AttestationRecord>::empty(), a) =~= Seq::<AttestationRecord>::empty());
        assert(r@ + records_without(src@, a) =~= records_without(src@, a));
    }
    while src.len() > 0
        invariant
            records_without(initial, a) == r@ + records_without(src@, a),
        decreases src.len(),
    {
        let ghost before = src@;
        let rec = src.remove(0);
        proof {
            assert(before =~= seq![rec] + src@);
            lemma_records_without_append(seq![rec], src@, a);
            assert(seq![rec].drop_last() =~= Seq::<AttestationRecord>::empty());
            assert(records_without(Seq::<AttestationRecord>::empty(), a) =~= Seq::<AttestationRecord>::empty());
        }
        if rec.attestor != a {
            r.push(rec);
            proof {
                assert(records_without(seq![rec], a) =~= seq![rec]);
            }
        } else {
            proof {
                assert(records_without(seq![rec], a) =~= Seq::<AttestationRecord>::empty());
            }
        }
        proof {
            assert(records_without(initial, a) =~= r@ + records_without(src@, a));
        }
    }
    proof {
        assert(records_without(src@, a) =~= Seq::<AttestationRecord>::empty());
        assert(r@ + records_without(src@, a) =~= r@);
    }
    r
}

impl QuorumProofContract {
    /// Challenge `id` is stored.
    pub open spec fn has_challenge(&self, id: u64) -> bool {
        1 <= id <= self.governance.challenges.len()
    }

    /// Challenge `id` (meaningful when it is stored).
    pub open spec fn challenge_at(&self, id: u64) -> Challenge {
        self.governance.challenges[id - 1]
    }

    /// The first reason to refuse `challenge_attestation`; `None` when it succeeds.
    pub open spec fn challenge_failure(&self, challenger: Address, cred: u64, slice_id: u64, accused: Address) -> Option<Fault> {
        if self.config.paused {
            Some(Fault::Contract(ContractError::ContractPaused))
        } else if !self.has_credential(cred) {
            Some(Fault::Contract(ContractError::CredentialNotFound))
        } else if !self.has_slice(slice_id) {
            Some(Fault::Contract(ContractError::SliceNotFound))
        } else if !self.slice_at(slice_id).attestors@.contains(challenger) || !self.slice_at(slice_id).attestors@.contains(accused) {
            Some(Fault::Contract(ContractError::NotInSlice))
        } else if !has_attested(self.records_of(cred), accused) {
            Some(Fault::Contract(ContractError::NotAttested))
        } else if self.governance.active_challenges@.contains_key(pair_key(cred, accused.0)) {
            Some(Fault::Contract(ContractError::AlreadyChallenged))
        } else if self.governance.challenges.len() >= u64::MAX {
            Some(Fault::Abort(Abort::ArithmeticOverflow))
        } else {
            None
        }
    }

    /// A member of slice `slice_id` challenges the attestation that member
    /// `accused` made on credential `credential_id`. Opens challenge number
    /// one more than the number of challenges so far and returns its id; one
    /// challenge at a time may be open per credential and accused.
    pub fn challenge_attestation(&mut self, challenger: Address, credential_id: u64, slice_id: u64, accused: Address) -> (r: Result<u64, Fault>)
        requires
            old(self).wf(),
        ensures
            final(self).wf(),
            r is Err <==> old(self).challenge_failure(challenger, credential_id, slice_id, accused) is Some,
            r matches Err(f) ==> old(self).challenge_failure(challenger, credential_id, slice_id, accused) == Some(f)
                && *final(self) == *old(self),
            r matches Ok(id) ==> {
                let c = final(self).governance.challenges@.last();
                &&& id == old(self).governance.challenges.len() + 1
                &&& final(self).governance.challenges@.drop_last() == old(self).governance.challenges@
                &&& final(self).governance.challenges.len() == id
                &&& c.id == id && c.credential_id == credential_id && c.slice_id == slice_id
                &&& c.accused == accused && c.challenger == challenger && c.status == ChallengeStatus::Open
                &&& c.uphold_votes@.len() == 0 && c.dismiss_votes@.len() == 0
                &&& final(self).governance.active_challenges@ == old(self).governance.active_challenges@.insert(
                    pair_key(credential_id, accused.0), id)
                &&& final(self).governance.disputes == old(self).governance.disputes
                &&& final(self).governance.dispute_ids == old(self).governance.dispute_ids
                &&& final(self).governance.onboarding_ids == old(self).governance.onboarding_ids
                &&& final(self).governance.onboarding_count == old(self).governance.onboarding_count
                &&& final(self).governance.recoveries == old(self).governance.recoveries
                &&& final(self).governance.recovery_approvals == old(self).governance.recovery_approvals
                &&& final(self).governance.credential_recovery == old(self).governance.credential_recovery
                &&& only_changed(*old(self), *final(self), set![Part::Governance])
            },
    {
        self.require_not_paused()?;
        if self.find_credential(credential_id).is_none() {
            return Err(Fault::Contract(ContractError::CredentialNotFound));
        }
        let si = match self.find_slice(slice_id) {
            Some(si) => si,
            None => { return Err(Fault::Contract(ContractError::SliceNotFound)); },
        };
        if !contains_address(&self.slices[si].attestors, challenger) || !contains_address(&self.slices[si].attestors, accused) {
            return Err(Fault::Contract(ContractError::NotInSlice));
        }
        let attested = match self.attestations.get(&credential_id) {
            Some(v) => attested_by(v, accused),
            None => false,
        };
        if !attested {
            return Err(Fault::Contract(ContractError::NotAttested));
        }
        let key = pack_pair(credential_id, accused.0);
        if self.governance.active_challenges.contains_key(&key) {
            return Err(Fault::Contract(ContractError::AlreadyChallenged));
        }
        if self.governance.challenges.len() as u64 >= u64::MAX {
            return Err(Fault::Abort(Abort::ArithmeticOverflow));
        }
        let id = self.governance.challenges.len() as u64 + 1;
        self.governance.challenges.push(Challenge {
            id,
            credential_id,
            slice_id,
            accused,
            challenger,
            status: ChallengeStatus::Open,
            uphold_votes: Vec::new(),
            dismiss_votes: Vec::new(),
        });
        self.governance.active_challenges.insert(key, id);
        proof {
            assert(self.governance.challenges@.drop_last() =~= old(self).governance.challenges@);
        }
        Ok(id)
    }

    /// Challenge `challenge_id`, or `ChallengeNotFound`.
    pub fn get_challenge(&self, challenge_id: u64) -> (r: Result<&Challenge, Fault>)
        ensures
            self.has_challenge(challenge_id) ==> (r matches Ok(c) && *c == self.challenge_at(challenge_id)),
            !self.has_challenge(challenge_id) ==> r == Err::<&Challenge, Fault>(Fault::Contract(ContractError::ChallengeNotFound)),
    {
        if challenge_id >= 1 && challenge_id - 1 < self.governance.challenges.len() as u64 {
            Ok(&self.governance.challenges[(challenge_id - 1) as usize])
        } else {
            Err(Fault::Contract(ContractError::ChallengeNotFound))
        }
    }

    /// The uphold votes of challenge `id` once `voter`'s vote is counted.
    pub open spec fn uphold_after(&self, id: u64, voter: Address, uphold: bool) -> Seq<Address> {
        let c = self.challenge_at(id);
        if uphold { c.uphold_votes@.push(voter) } else { c.uphold_votes@ }
    }

    /// The dismiss votes of challenge `id` once `voter`'s vote is counted.
    pub open spec fn dismiss_after(&self, id: u64, voter: Address, uphold: bool) -> Seq<Address> {
        let c = self.challenge_at(id);
        if uphold { c.dismiss_votes@ } else { c.dismiss_votes@.push(voter) }
    }

    /// Once the vote is counted, the uphold votes reach the slice's threshold.
    pub open spec fn vote_upholds(&self, id: u64, voter: Address, uphold: bool) -> bool {
        let c = self.challenge_at(id);
        votes_weight(self.slice_at(c.slice_id), self.uphold_after(id, voter, uphold)) >= self.slice_at(c.slice_id).threshold
    }

    /// Once the vote is counted, the dismiss votes reach the slice's threshold.
    pub open spec fn vote_dismisses(&self, id: u64, voter: Address, uphold: bool) -> bool {
        let c = self.challenge_at(id);
        votes_weight(self.slice_at(c.slice_id), self.dismiss_after(id, voter, uphold)) >= self.slice_at(c.slice_id).threshold
    }

    /// The first reason to refuse `vote_on_challenge`; `None` when it succeeds.
    pub open spec fn vote_failure(&self, voter: Address, id: u64, uphold: bool) -> Option<Fault> {
        let c = self.challenge_at(id);
        if self.config.paused {
            Some(Fault::Contract(ContractError::ContractPaused))
        } else if !self.has_challenge(id) {
            Some(Fault::Contract(ContractError::ChallengeNotFound))
        } else if c.status != ChallengeStatus::Open {
            Some(Fault::Contract(ContractError::ChallengeResolved))
        } else if voter == c.accused {
            Some(Fault::Contract(ContractError::AccusedCannotVote))
        } else if !self.has_slice(c.slice_id) {
            Some(Fault::Contract(ContractError::SliceNotFound))
        } else if !self.slice_at(c.slice_id).attestors@.contains(voter) {
            Some(Fault::Contract(ContractError::NotInSlice))
        } else if c.uphold_votes@.contains(voter) || c.dismiss_votes@.contains(voter) {
            Some(Fault::Contract(ContractError::AlreadyVoted))
        } else if self.vote_upholds(id, voter, uphold) && self.config.admin is None {
            Some(Fault::Abort(Abort::NotInitialized))
        } else if self.vote_upholds(id, voter, uphold) && count_at(self.holders.slash_counts@, c.accused.0) == u64::MAX {
            Some(Fault::Abort(Abort::ArithmeticOverflow))
        } else {
            None
        }
    }

    /// A member of the challenge's slice, other than the accused, votes once
    /// to uphold or to dismiss. When the weight of the uphold votes reaches
    /// the slice's threshold the challenge is upheld: the accused is slashed
    /// (suspended in the slice, slash count up by one) and its attestation
    /// records on the credential are removed. Otherwise, when the dismiss
    /// votes reach the threshold, the challenge is dismissed. Either way a
    /// resolved challenge is no longer the open one for its pair.
    pub fn vote_on_challenge(&mut self, voter: Address, challenge_id: u64, uphold: bool) -> (r: Result<(), Fault>)
        requires
            old(self).wf(),
        ensures
            final(self).wf(),
            r is Err <==> old(self).vote_failure(voter, challenge_id, uphold) is Some,
            r matches Err(f) ==> old(self).vote_failure(voter, challenge_id, uphold) == Some(f) && *final(self) == *old(self),
            r is Ok ==> {
                let c = old(self).challenge_at(challenge_id);
                let n = final(self).challenge_at(challenge_id);
                let upheld = old(self).vote_upholds(challenge_id, voter, uphold);
                let dismissed = !upheld && old(self).vote_dismisses(challenge_id, voter, uphold);
                let key = pair_key(c.credential_id, c.accused.0);
                &&& final(self).governance.challenges.len() == old(self).governance.challenges.len()
                &&& forall|k: int| 0 <= k < old(self).governance.challenges.len() && k != challenge_id - 1
                    ==> #[trigger] final(self).governance.challenges@[k] == old(self).governance.challenges@[k]
                &&& n.id == c.id && n.credential_id == c.credential_id && n.slice_id == c.slice_id
                &&& n.accused == c.accused && n.challenger == c.challenger
                &&& n.uphold_votes@ == old(self).uphold_after(challenge_id, voter, uphold)
                &&& n.dismiss_votes@ == old(self).dismiss_after(challenge_id, voter, uphold)
                &&& n.status == (if upheld { ChallengeStatus::Upheld } else if dismissed { ChallengeStatus::Dismissed } else { ChallengeStatus::Open })
                &&& (upheld || dismissed) ==> final(self).governance.active_challenges@ == old(self).governance.active_challenges@.remove(key)
                &&& !(upheld || dismissed) ==> final(self).governance.active_challenges == old(self).governance.active_challenges
                &&& upheld ==> final(self).slice_data.suspended@ == old(self).slice_data.suspended@.insert(pair_key(c.slice_id, c.accused.0), true)
                    && final(self).holders.slash_counts@ == old(self).holders.slash_counts@.insert(
                        c.accused.0, (count_at(old(self).holders.slash_counts@, c.accused.0) + 1) as u64)
                    && final(self).records_of(c.credential_id) == records_without(old(self).records_of(c.credential_id), c.accused)
                    && only_key_set(old(self).attestations@, final(self).attestations@, c.credential_id)
                &&& !upheld ==> final(self).slice_data == old(self).slice_data && final(self).holders == old(self).holders
                    && final(self).attestations == old(self).attestations
                &&& only_suspensions_changed(old(self).slice_data, final(self).slice_data)
                &&& holders_changed(old(self).holders, final(self).holders, set![HolderField::SlashCounts])
                &&& final(self).governance.disputes == old(self).governance.disputes
                &&& final(self).governance.dispute_ids == old(self).governance.dispute_ids
                &&& final(self).governance.onboarding_ids == old(self).governance.onboarding_ids
                &&& final(self).governance.onboarding_count == old(self).governance.onboarding_count
                &&& final(self).governance.recoveries == old(self).governance.recoveries
                &&& final(self).governance.recovery_approvals == old(self).governance.recovery_approvals
                &&& final(self).governance.credential_recovery == old(self).governance.credential_recovery
                &&& only_changed(*old(self), *final(self), set![Part::Governance, Part::SliceData, Part::Holders, Part::Attestations])
            },
    {
        self.require_not_paused()?;
        if challenge_id < 1 || challenge_id - 1 >= self.governance.challenges.len() as u64 {
            return Err(Fault::Contract(ContractError::ChallengeNotFound));
        }
        let ci = (challenge_id - 1) as usize;
        if self.governance.challenges[ci].status != ChallengeStatus::Open {
            return Err(Fault::Contract(ContractError::ChallengeResolved));
        }
        let accused = self.governance.challenges[ci].accused;
        let cred = self.governance.challenges[ci].credential_id;
        let slice_id = self.governance.challenges[ci].slice_id;
        if voter == accused {
            return Err(Fault::Contract(ContractError::AccusedCannotVote));
        }
        let si = match self.find_slice(slice_id) {
            Some(si) => si,
            None => { return Err(Fault::Contract(ContractError::SliceNotFound)); },
        };
        if !contains_address(&self.slices[si].attestors, voter) {
            return Err(Fault::Contract(ContractError::NotInSlice));
        }
        if contains_address(&self.governance.challenges[ci].uphold_votes, voter)
            || contains_address(&self.governance.challenges[ci].dismiss_votes, voter) {
            return Err(Fault::Contract(ContractError::AlreadyVoted));
        }
        let mut ups = self.governance.challenges[ci].uphold_votes.clone();
        let mut downs = self.governance.challenges[ci].dismiss_votes.clone();
        proof {
            assert(ups@ =~= old(self).challenge_at(challenge_id).uphold_votes@);
            assert(downs@ =~= old(self).challenge_at(challenge_id).dismiss_votes@);
        }
        if uphold {
            ups.push(voter);
        } else {
            downs.push(voter);
        }
        let upheld = tally_votes(&self.slices[si], &ups) >= self.slices[si].threshold;
        let dismissed = !upheld && tally_votes(&self.slices[si], &downs) >= self.slices[si].threshold;
        if upheld {
            if self.config.admin.is_none() {
                return Err(Fault::Abort(Abort::NotInitialized));
            }
            let count = read_count(&self.holders.slash_counts, accused.0);
            if count == u64::MAX {
                return Err(Fault::Abort(Abort::ArithmeticOverflow));
            }
            self.slash(slice_id, accused, count);
            let list = match self.attestations.remove(&cred) {
                Some(v) => v,
                None => Vec::new(),
            };
            let kept = drop_records_of(list, accused);
            self.attestations.insert(cred, kept);
            proof {
                assert(self.attestations@.remove(cred) =~= old(self).attestations@.remove(cred));
            }
        }
        if upheld || dismissed {
            self.governance.active_challenges.remove(&pack_pair(cred, accused.0));
        }
        let status = if upheld { ChallengeStatus::Upheld } else if dismissed { ChallengeStatus::Dismissed } else { ChallengeStatus::Open };
        {
            let c = &mut self.governance.challenges[ci];
            c.uphold_votes = ups;
            c.dismiss_votes = downs;
            c.status = status;
        }
        Ok(())
    }
}

} // verus!
