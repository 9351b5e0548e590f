use vrf::openssl::{CipherSuite, ECVRF};
use vrf::VRF;
use vstd::arithmetic::div_mod::{lemma_fundamental_div_mod, lemma_fundamental_div_mod_converse};
use vstd::prelude::*;

use crate::wire::{sentinel, VrfResult, RESULT_BYTE_LEN, VRF_RESULT_DISCRIMINATOR};

verus! {

#[verifier::external_type_specification]
#[verifier::external_body]
pub struct ExEcvrf(ECVRF);

/// The proof that the secp256k1 / SHA-256 / try-and-increment VRF gives for `secret` and `seed`.
pub uninterp spec fn vrf_proof(secret: Seq<u8>, seed: Seq<u8>) -> Seq<u8>;

/// The VRF hash output that the same suite derives from a proof.
pub uninterp spec fn vrf_hash(proof: Seq<u8>) -> Seq<u8>;

/// Relies on vrf's `ECVRF::from_suite` for the secp256k1 / SHA-256 / try-and-increment suite,
/// the only suite this library sets up; `None` where OpenSSL cannot set it up.
#[verifier::external_body]
fn secp256k1_engine() -> (r: Option<ECVRF>) {
    ECVRF::from_suite(CipherSuite::SECP256K1_SHA256_TAI).ok()
}

/// Relies on vrf's `VRF::prove` for `ECVRF` (draft-05 section 5.1, with a deterministic
/// nonce): a proof depends on the secret key and the message alone.
#[verifier::external_body]
fn prove(engine: &mut ECVRF, secret: &[u8], seed: &[u8]) -> (r: Option<Vec<u8>>)
    ensures
        r is Some ==> r->0@ == vrf_proof(secret@, seed@),
{
    engine.prove(secret, seed).ok()
}

/// Relies on vrf's `ECVRF::proof_to_hash` (draft-05 section 5.2): the hash output depends on
/// the proof alone.
#[verifier::external_body]
fn proof_to_hash(engine: &mut ECVRF, proof: &[u8]) -> (r: Option<Vec<u8>>)
    ensures
        r is Some ==> r->0@ == vrf_hash(proof@),
{
    engine.proof_to_hash(proof).ok()
}

/// A proof and the randomness taken from its hash.
pub struct VrfOutput {
    pub proof: Vec<u8>,
    pub random: [u8; 32],
}

/// Why no randomness was computed.
pub enum VrfError {
    /// The elliptic-curve engine could not be set up.
    EngineUnavailable,
    /// No proof was produced for the key and seed.
    ProveFailed,
    /// No hash was derived from the proof.
    HashFailed,
    /// The hash is shorter than a randomness result.
    ShortHash,
}

/// The randomness that a hash yields: its leading bytes.
pub open spec fn randomness_of_hash(hash: Seq<u8>) -> Option<Seq<u8>> {
    if hash.len() >= RESULT_BYTE_LEN {
        Some(hash.subrange(0, RESULT_BYTE_LEN as int))
    } else {
        None
    }
}

/// `o` is what the VRF gives for `secret` and `seed`.
pub open spec fn is_vrf_output(secret: Seq<u8>, seed: Seq<u8>, o: VrfOutput) -> bool {
    &&& o.proof@ == vrf_proof(secret, seed)
    &&& randomness_of_hash(vrf_hash(o.proof@)) == Some(o.random@)
}

/// Takes a randomness result from the leading bytes of a VRF hash.
pub fn randomness_from_hash(hash: &[u8]) -> (r: Option<[u8; 32]>)
    ensures
        match r {
            Some(v) => randomness_of_hash(hash@) == Some(v@),
            None => randomness_of_hash(hash@) is None,
        },
{
    if hash.len() < RESULT_BYTE_LEN {
        return None;
    }
    let mut v: [u8; 32] = [0u8; 32];
    let mut i: usize = 0;
    while i < 32
        invariant
            32 <= hash@.len(),
            i <= 32,
            v@.len() == 32,
            forall|j: int| 0 <= j < i ==> v@[j] == hash@[j],
        decreases 32 - i,
    {
        v[i] = hash[i];
        i += 1;
    }
    assert(v@ =~= hash@.subrange(0, 32));
    Some(v)
}

/// Computes the VRF proof for `seed` under `secret`, its hash, and the randomness taken from
/// the hash's leading bytes.
pub fn prove_and_hash(secret: &[u8], seed: &[u8]) -> (r: Result<VrfOutput, VrfError>)
    ensures
        match r {
            Ok(o) => is_vrf_output(secret@, seed@, o),
            Err(VrfError::ShortHash) => vrf_hash(vrf_proof(secret@, seed@)).len() < RESULT_BYTE_LEN,
            Err(_) => true,
        },
{
    let mut engine = match secp256k1_engine() {
        Some(e) => e,
        None => {
            return Err(VrfError::EngineUnavailable);
        },
    };
    let proof = match prove(&mut engine, secret, seed) {
        Some(p) => p,
        None => {
            return Err(VrfError::ProveFailed);
        },
    };
    let hash = match proof_to_hash(&mut engine, proof.as_slice()) {
        Some(h) => h,
        None => {
            return Err(VrfError::HashFailed);
        },
    };
    match randomness_from_hash(hash.as_slice()) {
        Some(random) => Ok(VrfOutput { proof, random }),
        None => Err(VrfError::ShortHash),
    }
}

/// The VRF is a function: two outputs for the same key and seed hold the same proof and the
/// same randomness.
pub proof fn lemma_vrf_output_deterministic(
    secret: Seq<u8>,
    seed: Seq<u8>,
    a: VrfOutput,
    b: VrfOutput,
)
    requires
        is_vrf_output(secret, seed, a),
        is_vrf_output(secret, seed, b),
    ensures
        a.proof@ == b.proof@,
        a.random@ == b.random@,
{
}

pub open spec fn zeros() -> Seq<u8> {
    Seq::new(32, |i: int| 0u8)
}

/// A result slot holds usable randomness: neither the unfulfilled sentinel nor all zeros.
pub open spec fn fulfilled(result: Seq<u8>) -> bool {
    result != sentinel() && result != zeros()
}

/// Value of sixteen bytes read big-endian as an unsigned number.
pub open spec fn be_value(b: Seq<u8>, n: nat) -> nat
    decreases n,
{
    if n == 0 {
        0
    } else {
        be_value(b, (n - 1) as nat) * 256 + b[n - 1] as nat
    }
}

/// The first sixteen bytes of a result as a two's-complement `i128`, big-endian.
pub open spec fn leading_i128(result: Seq<u8>) -> int {
    let u = be_value(result, 16);
    if u < 0x8000_0000_0000_0000_0000_0000_0000_0000 {
        u as int
    } else {
        u - 0x1_0000_0000_0000_0000_0000_0000_0000_0000
    }
}

/// The number that a fulfilled result gives in `start..=end`: `start` plus the non-negative
/// remainder of its leading `i128` by the size of the range.
pub open spec fn random_in_range(result: Seq<u8>, start: int, end: int) -> int {
    start + leading_i128(result) % (end - start + 1)
}

/// Why a result slot cannot give a number.
pub enum RandomError {
    /// The slot holds the sentinel or zeros: the request is not fulfilled.
    VrfNotFulfilled,
}

proof fn lemma_be_value_bound(b: Seq<u8>, n: nat)
    requires
        n <= b.len(),
    ensures
        be_value(b, n) < pow256(n),
    decreases n,
{
    if n > 0 {
        lemma_be_value_bound(b, (n - 1) as nat);
        assert(be_value(b, (n - 1) as nat) * 256 + (b[n - 1] as nat) < pow256((n - 1) as nat) * 256)
            by (nonlinear_arith)
            requires
                be_value(b, (n - 1) as nat) < pow256((n - 1) as nat),
                b[n - 1] < 256,
        ;
    }
}

pub open spec fn pow256(n: nat) -> nat
    decreases n,
{
    if n == 0 {
        1
    } else {
        pow256((n - 1) as nat) * 256
    }
}

impl Default for VrfResult {
    fn default() -> (r: VrfResult)
        ensures
            r.result@ == sentinel(),
    {
        VrfResult { result: VRF_RESULT_DISCRIMINATOR }
    }
}

impl VrfResult {
    /// Whether the slot holds usable randomness.
    pub fn is_fulfilled(&self) -> (r: bool)
        ensures
            r == fulfilled(self.result@),
    {
        let s = VRF_RESULT_DISCRIMINATOR;
        let mut same_as_sentinel = true;
        let mut all_zero = true;
        let mut i: usize = 0;
        while i < 32
            invariant
                i <= 32,
                self.result@.len() == 32,
                s@ == sentinel(),
                same_as_sentinel == (forall|j: int| 0 <= j < i ==> self.result@[j] == s@[j]),
                all_zero == (forall|j: int| 0 <= j < i ==> self.result@[j] == 0),
            decreases 32 - i,
        {
            if self.result[i] != s[i] {
                same_as_sentinel = false;
            }
            if self.result[i] != 0 {
                all_zero = false;
            }
            i += 1;
        }
        if same_as_sentinel {
            assert(self.result@ =~= sentinel());
        }
        if all_zero {
            assert(self.result@ =~= zeros());
        }
        if !same_as_sentinel {
            assert(self.result@ != sentinel());
        }
        if !all_zero {
            assert(self.result@ != zeros());
        }
        !same_as_sentinel && !all_zero
    }

    /// A number in `start..=end` from the result: the first sixteen bytes, read big-endian as
    /// an `i128`, taken modulo the size of the range (a non-negative remainder) and added to
    /// `start`. A slot that is not fulfilled gives an error instead, whatever the range.
    pub fn random(self, start: i64, end: i64) -> (r: Result<i64, RandomError>)
        requires
            start <= end,
        ensures
            match r {
                Ok(v) => {
                    &&& fulfilled(self.result@)
                    &&& start <= v <= end
                    &&& v == random_in_range(self.result@, start as int, end as int)
                },
                Err(RandomError::VrfNotFulfilled) => !fulfilled(self.result@),
            },
    {
        if !self.is_fulfilled() {
            return Err(RandomError::VrfNotFulfilled);
        }
        let mut u: u128 = 0;
        let mut i: usize = 0;
        while i < 16
            invariant
                i <= 16,
                self.result@.len() == 32,
                u == be_value(self.result@, i as nat),
            decreases 16 - i,
        {
            proof {
                lemma_be_value_bound(self.result@, i as nat);
                assert(pow256(i as nat) <= pow256(15)) by {
                    lemma_pow256_mono(i as nat, 15);
                }
                lemma_pow256_values();
                assert(u * 256 + 255 <= u128::MAX);
            }
            u = u * 256 + self.result[i] as u128;
            i += 1;
        }
        proof {
            lemma_be_value_bound(self.result@, 16);
            lemma_pow256_values();
        }
        let size: u128 = (end as i128 - start as i128 + 1) as u128;
        let ghost a = leading_i128(self.result@);
        let rem: u128 = if u < 0x8000_0000_0000_0000_0000_0000_0000_0000 {
            let m = u % size;
            proof {
                lemma_fundamental_div_mod(u as int, size as int);
                assert(a == u as int);
                assert(a == ((u / size) as int) * (size as int) + m as int) by (nonlinear_arith)
                    requires
                        a == u as int,
                        u as int == (size as int) * ((u / size) as int) + m as int,
                ;
                lemma_fundamental_div_mod_converse(a, size as int, (u / size) as int, m as int);
            }
            m
        } else {
            let amag: u128 = (u128::MAX - u) + 1;
            let m = amag % size;
            proof {
                lemma_fundamental_div_mod(amag as int, size as int);
                assert(a == -(amag as int));
            }
            if m == 0 {
                proof {
                    assert(a == -((amag / size) as int) * (size as int) + 0) by (nonlinear_arith)
                        requires
                            a == -(amag as int),
                            amag as int == (size as int) * ((amag / size) as int) + m as int,
                            m == 0,
                    ;
                    lemma_fundamental_div_mod_converse(a, size as int, -((amag / size) as int), 0);
                }
                0
            } else {
                proof {
                    assert(a == (-((amag / size) as int) - 1) * (size as int) + (size - m) as int)
                        by (nonlinear_arith)
                        requires
                            a == -(amag as int),
                            amag as int == (size as int) * ((amag / size) as int) + m as int,
                            0 < m < size,
                    ;
                    lemma_fundamental_div_mod_converse(
                        a,
                        size as int,
                        -((amag / size) as int) - 1,
                        (size - m) as int,
                    );
                }
                size - m
            }
        };
        Ok((start as i128 + rem as i128) as i64)
    }
}

proof fn lemma_pow256_values()
    ensures
        pow256(15) == 0x100_0000_0000_0000_0000_0000_0000_0000,
        pow256(16) == 0x1_0000_0000_0000_0000_0000_0000_0000_0000,
{
    reveal_with_fuel(pow256, 17);
}

proof fn lemma_pow256_mono(a: nat, b: nat)
    requires
        a <= b,
    ensures
        pow256(a) <= pow256(b),
    decreases b - a,
{
    if a < b {
        lemma_pow256_mono(a, (b - 1) as nat);
    }
}

} // verus!
