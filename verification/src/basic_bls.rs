//! Plain BLS signatures (BDN18 setting): secret key in Fr, public key in G2,
//! signature in G1 over the hash-to-curve of the message.
#![allow(non_snake_case)]
use vstd::prelude::*;

use crate::curve::{
    bls_pair_check, bls_pair_check_n, g1_mul_n, g1_uncomp_n, g2_gen_bytes, g2_mul_n, hash_to_g1_n,
    is_g1, is_g2, scalar_wf, G1Point, G2Point, Scalar,
};

verus! {

/// A BLS key pair: secret `x` and public `Y == g2·x`.
pub struct KeyPairG2 {
    pub Y: G2Point,
    pub x: Scalar,
}

/// A BLS signature: one G1 element.
pub struct BLSSignature {
    pub sigma: G1Point,
}

pub open spec fn keypair_wf(k: &KeyPairG2) -> bool {
    scalar_wf(k.x@) && is_g2(k.Y@) && k.Y@ == g2_mul_n(g2_gen_bytes(), k.x@)
}

impl Clone for KeyPairG2 {
    fn clone(&self) -> (r: Self)
        ensures
            r.Y@ == self.Y@,
            r.x@ == self.x@,
    {
        KeyPairG2 { Y: self.Y.clone(), x: self.x.clone() }
    }
}

impl Clone for BLSSignature {
    fn clone(&self) -> (r: Self)
        ensures
            r.sigma@ == self.sigma@,
    {
        BLSSignature { sigma: self.sigma.clone() }
    }
}

impl KeyPairG2 {
    /// Samples a fresh key pair.
    pub fn new() -> (r: KeyPairG2)
        ensures
            keypair_wf(&r),
    {
        let x = Scalar::random();
        let Y = G2Point::generator().mul(&x);
        KeyPairG2 { x, Y }
    }
}

impl BLSSignature {
    /// Computes `sigma = x · H(m)`.
    pub fn sign(message: &[u8], keys: &KeyPairG2) -> (r: Self)
        ensures
            r.sigma@ == g1_mul_n(hash_to_g1_n(message@), keys.x@),
            is_g1(r.sigma@),
    {
        let H_m = G1Point::hash_to_curve(message);
        BLSSignature { sigma: H_m.mul(&keys.x) }
    }

    /// Checks `e(H(m), Y) == e(sigma, g2)`.
    pub fn verify(&self, message: &[u8], pubkey: &G2Point) -> (r: bool)
        ensures
            r == bls_pair_check_n(hash_to_g1_n(message@), pubkey@, self.sigma@),
    {
        let H_m = G1Point::hash_to_curve(message);
        bls_pair_check(&H_m, pubkey, &self.sigma)
    }

    /// The signature's encoding: 48 bytes compressed, 96 uncompressed.
    pub fn to_bytes(&self, compressed: bool) -> (r: Vec<u8>)
        ensures
            compressed ==> r@ == self.sigma@,
            !compressed ==> r@ == g1_uncomp_n(self.sigma@),
    {
        if compressed {
            self.sigma.to_bytes()
        } else {
            self.sigma.to_bytes_uncompressed()
        }
    }
}

} // verus!
