use vstd::prelude::*;
use soroban_sdk::Env;
use crate::errors::{Abort, ContractError, Fault};
use crate::state::{holders_changed, only_changed, HolderField, Part, QuorumProofContract};
use crate::types::Address;

verus! {

/// The host environment of a contract invocation.
#[verifier::external_type_specification]
#[verifier::external_body]
pub struct ExEnv(soroban_sdk::Env);

/// The SHA-256 digest of a byte string.
pub uninterp spec fn sha256_digest(data: Seq<u8>) -> Seq<u8>;

/// Calls `soroban_sdk::crypto::Crypto::sha256` on the bytes. The contract
/// claims only that the 32-byte result is the SHA-256 digest of the input,
/// which the digest's name stands for; the host's budget accounting, which can
/// abort the invocation, is not stated.
#[verifier::external_body]
fn sha256(env: &Env, data: &Vec<u8>) -> (h: [u8; 32])
    ensures
        h@ == sha256_digest(data@),
{
    env.crypto().sha256(&soroban_sdk::Bytes::from_slice(env, data.as_slice())).to_array()
}

/// The difficulty in force when none is configured: proof of work is off.
pub const DEFAULT_POW_DIFFICULTY: u32 = 0;

/// The four big-endian bytes of a u32.
pub open spec fn be_bytes_u32(x: u32) -> Seq<u8> {
    seq![
        (x / 0x100_0000) as u8,
        ((x / 0x1_0000) % 0x100) as u8,
        ((x / 0x100) % 0x100) as u8,
        (x % 0x100) as u8,
    ]
}

/// The eight big-endian bytes of a u64.
pub open spec fn be_bytes_u64(x: u64) -> Seq<u8> {
    seq![
        (x / 0x100_0000_0000_0000) as u8,
        ((x / 0x1_0000_0000_0000) % 0x100) as u8,
        ((x / 0x100_0000_0000) % 0x100) as u8,
        ((x / 0x1_0000_0000) % 0x100) as u8,
        ((x / 0x100_0000) % 0x100) as u8,
        ((x / 0x1_0000) % 0x100) as u8,
        ((x / 0x100) % 0x100) as u8,
        (x % 0x100) as u8,
    ]
}

/// The bytes hashed for proof of work: the issuer's and the subject's XDR
/// encodings, then the credential type and the nonce, big-endian.
pub open spec fn pow_preimage_spec(issuer_xdr: Seq<u8>, subject_xdr: Seq<u8>, credential_type: u32, nonce: u64) -> Seq<u8> {
    issuer_xdr + subject_xdr + be_bytes_u32(credential_type) + be_bytes_u64(nonce)
}

/// The value a byte must stay below for its top `n` bits (1 to 7) to be zero.
pub open spec fn top_bits_bound(n: u32) -> int {
    match n {
        1 => 128,
        2 => 64,
        3 => 32,
        4 => 16,
        5 => 8,
        6 => 4,
        7 => 2,
        _ => 256,
    }
}

/// What the difficulty check makes of a digest: its first `difficulty / 8`
/// bytes must be zero and, if `difficulty % 8 > 0` and a byte follows, the
/// top `difficulty % 8` bits of that byte too. A digest whose 32 bytes are all
/// zero while more zero bytes are demanded runs the check off the digest's end.
pub open spec fn pow_check_spec(digest: Seq<u8>, difficulty: u32) -> Result<(), Fault> {
    let zero_bytes = (difficulty / 8) as int;
    let bits = difficulty % 8;
    if exists|i: int| 0 <= i < zero_bytes && i < 32 && digest[i] != 0 {
        Err(Fault::Contract(ContractError::InvalidPoWNonce))
    } else if zero_bytes > 32 {
        Err(Fault::Abort(Abort::InvalidArgument))
    } else if bits > 0 && zero_bytes < 32 && digest[zero_bytes] >= top_bits_bound(bits) {
        Err(Fault::Contract(ContractError::InvalidPoWNonce))
    } else {
        Ok(())
    }
}

proof fn lemma_mask(b: u8, s: u8)
    requires
        1 <= s <= 7,
    ensures
        ((b & (0xFFu8 << s)) == 0) == (b < (1u8 << s)),
{
    assert(1 <= s <= 7 ==> ((b & (0xFFu8 << s)) == 0) == (b < (1u8 << s))) by (bit_vector);
}

proof fn lemma_shift_values(s: u8)
    requires
        1 <= s <= 7,
    ensures
        (1u8 << s) == top_bits_bound((8 - s) as u32),
{
    assert(s == 1 ==> (1u8 << s) == 2) by (bit_vector);
    assert(s == 2 ==> (1u8 << s) == 4) by (bit_vector);
    assert(s == 3 ==> (1u8 << s) == 8) by (bit_vector);
    assert(s == 4 ==> (1u8 << s) == 16) by (bit_vector);
    assert(s == 5 ==> (1u8 << s) == 32) by (bit_vector);
    assert(s == 6 ==> (1u8 << s) == 64) by (bit_vector);
    assert(s == 7 ==> (1u8 << s) == 128) by (bit_vector);
}

/// Builds the proof-of-work preimage.
pub fn pow_preimage(issuer_xdr: &Vec<u8>, subject_xdr: &Vec<u8>, credential_type: u32, nonce: u64) -> (out: Vec<u8>)
    ensures
        out@ == pow_preimage_spec(issuer_xdr@, subject_xdr@, credential_type, nonce),
{
    let mut out: Vec<u8> = Vec::new();
    let mut i: usize = 0;
    while i < issuer_xdr.len()
        invariant
            i <= issuer_xdr.len(),
            out@ == issuer_xdr@.take(i as int),
        decreases issuer_xdr.len() - i,
    {
        out.push(issuer_xdr[i]);
        i += 1;
        assert(out@ =~= issuer_xdr@.take(i as int));
    }
    assert(issuer_xdr@.take(issuer_xdr.len() as int) =~= issuer_xdr@);
    let mut j: usize = 0;
    while j < subject_xdr.len()
        invariant
            j <= subject_xdr.len(),
            out@ == issuer_xdr@ + subject_xdr@.take(j as int),
        decreases subject_xdr.len() - j,
    {
        out.push(subject_xdr[j]);
        j += 1;
        assert(out@ =~= issuer_xdr@ + subject_xdr@.take(j as int));
    }
    assert(subject_xdr@.take(subject_xdr.len() as int) =~= subject_xdr@);
    out.push((credential_type / 0x100_0000) as u8);
    out.push(((credential_type / 0x1_0000) % 0x100) as u8);
    out.push(((credential_type / 0x100) % 0x100) as u8);
    out.push((credential_type % 0x100) as u8);
    out.push((nonce / 0x100_0000_0000_0000) as u8);
    out.push(((nonce / 0x1_0000_0000_0000) % 0x100) as u8);
    out.push(((nonce / 0x100_0000_0000) % 0x100) as u8);
    out.push(((nonce / 0x1_0000_0000) % 0x100) as u8);
    out.push(((nonce / 0x100_0000) % 0x100) as u8);
    out.push(((nonce / 0x1_0000) % 0x100) as u8);
    out.push(((nonce / 0x100) % 0x100) as u8);
    out.push((nonce % 0x100) as u8);
    assert(out@ =~= pow_preimage_spec(issuer_xdr@, subject_xdr@, credential_type, nonce));
    out
}

/// Checks a digest against a difficulty (leading zero bits).
pub fn check_pow_digest(digest: &[u8; 32], difficulty: u32) -> (r: Result<(), Fault>)
    ensures
        r == pow_check_spec(digest@, difficulty),
{
    let required_zero_bytes = (difficulty / 8) as usize;
    let remaining_bits = difficulty % 8;
    let mut i: usize = 0;
    while i < required_zero_bytes
        invariant
            required_zero_bytes == (difficulty / 8) as int,
            i <= required_zero_bytes,
            i <= 32,
            forall|k: int| 0 <= k < i ==> digest@[k] == 0,
        decreases required_zero_bytes - i,
    {
        if i >= 32 {
            return Err(Fault::Abort(Abort::InvalidArgument));
        }
        if digest[i] != 0 {
            return Err(Fault::Contract(ContractError::InvalidPoWNonce));
        }
        i += 1;
    }
    if remaining_bits > 0 && required_zero_bytes < 32 {
        let s: u8 = (8 - remaining_bits) as u8;
        let mask: u8 = 0xFF << s;
        let b = digest[required_zero_bytes];
        proof {
            lemma_mask(b, s);
            lemma_shift_values(s);
        }
        if b & mask != 0 {
            return Err(Fault::Contract(ContractError::InvalidPoWNonce));
        }
    }
    Ok(())
}

/// What the proof-of-work check of an issuance decides: with difficulty 0
/// every nonce passes; otherwise the digest of the preimage must meet it.
pub open spec fn pow_outcome(
    difficulty: Option<u32>,
    issuer_xdr: Seq<u8>,
    subject_xdr: Seq<u8>,
    credential_type: u32,
    nonce: u64,
) -> Result<(), Fault> {
    let d = match difficulty {
        Some(d) => d,
        None => DEFAULT_POW_DIFFICULTY,
    };
    if d == 0 {
        Ok(())
    } else {
        pow_check_spec(sha256_digest(pow_preimage_spec(issuer_xdr, subject_xdr, credential_type, nonce)), d)
    }
}

impl QuorumProofContract {
    /// The proof-of-work difficulty in force.
    pub fn get_pow_difficulty(&self) -> (d: u32)
        ensures
            d == (match self.config.pow_difficulty {
                Some(d) => d,
                None => DEFAULT_POW_DIFFICULTY,
            }),
    {
        match self.config.pow_difficulty {
            Some(d) => d,
            None => DEFAULT_POW_DIFFICULTY,
        }
    }

    /// The host encoding recorded for an address; empty when none is.
    pub open spec fn encoding_of(&self, a: Address) -> Seq<u8> {
        if self.holders.encodings@.contains_key(a.0) { self.holders.encodings@[a.0]@ } else { Seq::empty() }
    }

    /// Records the host's encoding of an address, which proof of work hashes
    /// for issuances from or to it.
    pub fn register_address_encoding(&mut self, address: Address, encoding: Vec<u8>)
        ensures
            final(self).holders.encodings@ == old(self).holders.encodings@.insert(address.0, encoding),
            holders_changed(old(self).holders, final(self).holders, set![HolderField::Encodings]),
            only_changed(*old(self), *final(self), set![Part::Holders]),
            final(self).wf() == old(self).wf(),
    {
        self.holders.encodings.insert(address.0, encoding);
    }

    /// Checks the proof of work of an issuance: with difficulty 0 every nonce
    /// passes; otherwise the SHA-256 digest of the preimage must meet it.
    pub fn verify_pow(
        &self,
        env: &Env,
        issuer_xdr: &Vec<u8>,
        subject_xdr: &Vec<u8>,
        credential_type: u32,
        nonce: u64,
    ) -> (r: Result<(), Fault>)
        ensures
            r == pow_outcome(self.config.pow_difficulty, issuer_xdr@, subject_xdr@, credential_type, nonce),
    {
        let difficulty = self.get_pow_difficulty();
        if difficulty == 0 {
            return Ok(());
        }
        let input = pow_preimage(issuer_xdr, subject_xdr, credential_type, nonce);
        let hash = sha256(env, &input);
        check_pow_digest(&hash, difficulty)
    }
}

} // verus!
