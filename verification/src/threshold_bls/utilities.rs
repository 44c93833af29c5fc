//! NIZK proof that two element pairs across G1 and G2 share one discrete-log
//! exponent.  This is sound because |G1| == |G2| on BLS12-381.  The single
//! shared response across both groups is a documented deviation from
//! GLOW-BLS: it degrades strong unforgeability to standard unforgeability.
use vstd::prelude::*;

use crate::bigint::{bigint_add, bigint_mul, lemma_bigint_bytes};
use crate::curve::{
    fr_of, g1_add_n, g1_eq, g1_mul_n, g2_add_n, g2_eq, g2_mul_n, scalar_wf, G1Point, G2Point,
    Scalar,
};
use crate::encoding::be_nat;
use crate::hashing::{hash_ecddh_points, hash_points_n};

verus! {

/// The claim: there is an `x` with `h1 == g1·x` and `h2 == g2·x`.
pub struct ECDDHStatement {
    pub g1: G1Point,
    pub h1: G1Point,
    pub g2: G2Point,
    pub h2: G2Point,
}

/// The exponent, as minimal big-endian bytes.
pub struct ECDDHWitness {
    pub x: Vec<u8>,
}

/// A Fiat-Shamir proof for an [`ECDDHStatement`].
pub struct ECDDHProof {
    pub a1: G1Point,
    pub a2: G2Point,
    pub z: Vec<u8>,
}

/// Error of a rejected proof.
#[derive(Copy, Clone, PartialEq, Eq, Structural, Debug)]
pub struct ProofError;

impl Clone for ECDDHProof {
    fn clone(&self) -> (r: Self)
        ensures
            r.a1@ == self.a1@,
            r.a2@ == self.a2@,
            r.z@ == self.z@,
    {
        ECDDHProof {
            a1: self.a1.clone(),
            a2: self.a2.clone(),
            z: crate::curve::copy_bytes(self.z.as_slice()),
        }
    }
}

impl Clone for ECDDHStatement {
    fn clone(&self) -> (r: Self)
        ensures
            r.g1@ == self.g1@,
            r.h1@ == self.h1@,
            r.g2@ == self.g2@,
            r.h2@ == self.h2@,
    {
        ECDDHStatement {
            g1: self.g1.clone(),
            h1: self.h1.clone(),
            g2: self.g2.clone(),
            h2: self.h2.clone(),
        }
    }
}

/// The Fiat-Shamir challenge: the hash of the statement and the commitments.
pub open spec fn ecddh_challenge(
    g1: Seq<u8>,
    h1: Seq<u8>,
    g2: Seq<u8>,
    h2: Seq<u8>,
    a1: Seq<u8>,
    a2: Seq<u8>,
) -> Seq<u8> {
    hash_points_n(seq![g1, h1, g2, h2, a1, a2])
}

/// The verifier's equations: `g1·z == a1 + h1·e` and `g2·z == a2 + h2·e`,
/// with `z` and the challenge `e` reduced modulo the group order.
pub open spec fn ecddh_accepts(
    g1: Seq<u8>,
    h1: Seq<u8>,
    g2: Seq<u8>,
    h2: Seq<u8>,
    a1: Seq<u8>,
    a2: Seq<u8>,
    z: Seq<u8>,
) -> bool {
    let e = ecddh_challenge(g1, h1, g2, h2, a1, a2);
    &&& g1_mul_n(g1, fr_of(be_nat(z))) == g1_add_n(a1, g1_mul_n(h1, fr_of(be_nat(e))))
    &&& g2_mul_n(g2, fr_of(be_nat(z))) == g2_add_n(a2, g2_mul_n(h2, fr_of(be_nat(e))))
}

impl ECDDHProof {
    /// Proves the statement: samples a nonce `s`, commits `a1 = g1·s` and
    /// `a2 = g2·s`, and answers the challenge `e` with `z = s + e·x` over the
    /// integers.
    pub fn prove(w: &ECDDHWitness, delta: &ECDDHStatement) -> (r: ECDDHProof)
        ensures
            exists|s: Seq<u8>|
                scalar_wf(s) && r.a1@ == g1_mul_n(delta.g1@, s) && r.a2@ == g2_mul_n(delta.g2@, s)
                    && be_nat(r.z@) == be_nat(s) + be_nat(
                    ecddh_challenge(delta.g1@, delta.h1@, delta.g2@, delta.h2@, r.a1@, r.a2@),
                ) * be_nat(w.x@),
    {
        let s = Scalar::random();
        let a1 = delta.g1.mul(&s);
        let a2 = delta.g2.mul(&s);
        let e = hash_ecddh_points(&delta.g1, &delta.h1, &delta.g2, &delta.h2, &a1, &a2);
        let ex = bigint_mul(e.as_slice(), w.x.as_slice());
        let s_big = s.to_bigint_bytes();
        let z = bigint_add(s_big.as_slice(), ex.as_slice());
        proof {
            lemma_bigint_bytes(be_nat(e@) * be_nat(w.x@));
            lemma_bigint_bytes(be_nat(s_big@) + be_nat(ex@));
            assert(scalar_wf(s@) && a1@ == g1_mul_n(delta.g1@, s@) && a2@ == g2_mul_n(
                delta.g2@,
                s@,
            ) && be_nat(z@) == be_nat(s@) + be_nat(
                ecddh_challenge(delta.g1@, delta.h1@, delta.g2@, delta.h2@, a1@, a2@),
            ) * be_nat(w.x@));
        }
        ECDDHProof { a1, a2, z }
    }

    /// Recomputes the challenge and checks both group equations.
    pub fn verify(&self, delta: &ECDDHStatement) -> (r: bool)
        ensures
            r == ecddh_accepts(
                delta.g1@,
                delta.h1@,
                delta.g2@,
                delta.h2@,
                self.a1@,
                self.a2@,
                self.z@,
            ),
    {
        let e = hash_ecddh_points(&delta.g1, &delta.h1, &delta.g2, &delta.h2, &self.a1, &self.a2);
        let z_s = Scalar::from_bigint_bytes(self.z.as_slice());
        let e_s = Scalar::from_bigint_bytes(e.as_slice());
        let z_g1 = delta.g1.mul(&z_s);
        let z_g2 = delta.g2.mul(&z_s);
        let a1_plus_e_h1 = self.a1.add(&delta.h1.mul(&e_s));
        let a2_plus_e_h2 = self.a2.add(&delta.h2.mul(&e_s));
        let ok1 = g1_eq(&z_g1, &a1_plus_e_h1);
        let ok2 = g2_eq(&z_g2, &a2_plus_e_h2);
        ok1 && ok2
    }
}

} // verus!
