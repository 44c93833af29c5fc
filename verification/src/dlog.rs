//! Non-interactive Schnorr proof of knowledge of a discrete log over G2,
//! supplied by curv and named here by an uninterpreted acceptance predicate.
use vstd::prelude::*;

use curv::cryptographic_primitives::proofs::sigma_dlog::DLogProof as CurvDLogProof;
use curv::elliptic::curves::{Bls12_381_2, Scalar as CurveScalar};
use sha2::Sha256;

use crate::curve::{g2_gen_bytes, g2_mul_n, G2Point, RawG2, Scalar};

verus! {

/// A Fiat-Shamir Schnorr proof of knowledge of `x` with `pk == g2·x`.
pub struct DLogProof {
    pub pk: G2Point,
    pub pk_t_rand_commitment: G2Point,
    pub challenge_response: Scalar,
}

impl Clone for DLogProof {
    fn clone(&self) -> (r: Self)
        ensures
            r.pk@ == self.pk@,
            r.pk_t_rand_commitment@ == self.pk_t_rand_commitment@,
            r.challenge_response@ == self.challenge_response@,
    {
        DLogProof {
            pk: self.pk.clone(),
            pk_t_rand_commitment: self.pk_t_rand_commitment.clone(),
            challenge_response: self.challenge_response.clone(),
        }
    }
}

/// Whether curv's `DLogProof::<Bls12_381_2, Sha256>::verify` accepts the
/// proof with statement `pk`, commitment `a` and response `z`.
pub uninterp spec fn dlog_verify_n(pk: Seq<u8>, a: Seq<u8>, z: Seq<u8>) -> bool;

/// Relies on curv's `DLogProof::<Bls12_381_2, Sha256>::prove`: the statement
/// is the generator times the witness, and a freshly produced proof passes
/// `DLogProof::verify` (completeness, immediate from the verifier's
/// equation `g2·z + pk·e == a`).
#[verifier::external_body]
pub fn dlog_prove(sk: &Scalar) -> (r: DLogProof)
    ensures
        r.pk@ == g2_mul_n(g2_gen_bytes(), sk@),
        dlog_verify_n(r.pk@, r.pk_t_rand_commitment@, r.challenge_response@),
{
    let w = CurveScalar::from_bytes(sk.bytes.as_slice()).unwrap();
    let proof = CurvDLogProof::<Bls12_381_2, Sha256>::prove(&w);
    let pk_bytes = proof.pk.to_bytes(true).to_vec();
    let a_bytes = proof.pk_t_rand_commitment.to_bytes(true).to_vec();
    let z_bytes = proof.challenge_response.to_bytes().to_vec();
    DLogProof {
        pk: G2Point { bytes: pk_bytes, raw: RawG2 { pt: proof.pk } },
        pk_t_rand_commitment: G2Point {
            bytes: a_bytes,
            raw: RawG2 { pt: proof.pk_t_rand_commitment },
        },
        challenge_response: Scalar { bytes: z_bytes },
    }
}

/// Relies on curv's `DLogProof::<Bls12_381_2, Sha256>::verify`.
#[verifier::external_body]
pub fn dlog_verify(p: &DLogProof) -> (r: bool)
    ensures
        r == dlog_verify_n(p.pk@, p.pk_t_rand_commitment@, p.challenge_response@),
{
    let proof = CurvDLogProof::<Bls12_381_2, Sha256> {
        pk: p.pk.raw.pt.clone(),
        pk_t_rand_commitment: p.pk_t_rand_commitment.raw.pt.clone(),
        challenge_response: CurveScalar::from_bytes(p.challenge_response.bytes.as_slice()).unwrap(),
        hash_choice: curv::HashChoice::new(),
    };
    CurvDLogProof::verify(&proof).is_ok()
}

} // verus!
