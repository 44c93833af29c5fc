//! SHA-256 based hashing of group elements and the blinded hash commitment,
//! both supplied by curv and named here by uninterpreted functions.
use vstd::prelude::*;

use curv::arithmetic::Converter;
use curv::cryptographic_primitives::commitments::hash_commitment::HashCommitment;
use curv::cryptographic_primitives::commitments::traits::Commitment;
use curv::cryptographic_primitives::hashing::{Digest, DigestExt};
use sha2::Sha256;

use crate::curve::{g2_views, G1Point, G2Point};
use crate::encoding::{be_nat, canon, nat_to_min_be};

verus! {

/// The SHA-256 digest of a list of group elements (each fed to the hash in
/// its uncompressed form, as curv's `DigestExt::chain_points` does), read back
/// as a big integer in minimal big-endian bytes.  Elements are written here by
/// their compressed encodings: 48 bytes name a G1 element, 96 a G2 element.
pub uninterp spec fn hash_points_n(pts: Seq<Seq<u8>>) -> Seq<u8>;

/// The blinded hash commitment `SHA-256(m || b)` over the minimal big-endian
/// bytes of the two values, read back as a big integer in minimal big-endian
/// bytes, as curv's `HashCommitment` computes it.
pub uninterp spec fn commit_n(m: Seq<u8>, b: Seq<u8>) -> Seq<u8>;

/// Minimal big-endian re-encoding of a byte string's value.
pub open spec fn min_be(s: Seq<u8>) -> Seq<u8> {
    nat_to_min_be(be_nat(s))
}

/// Relies on `Sha256` with curv's `DigestExt`: hashes the G2 elements in
/// order and returns the digest as a big integer's bytes.
#[verifier::external_body]
pub fn hash_g2_points(pts: &Vec<G2Point>) -> (r: Vec<u8>)
    ensures
        r@ == hash_points_n(g2_views(pts@)),
        canon(r@),
        r@.len() <= 32,
{
    Sha256::new().chain_points(pts.iter().map(|p| &p.raw.pt)).result_bigint().to_bytes()
}

/// Relies on `Sha256` with curv's `DigestExt`: hashes the six elements of an
/// ECDDH transcript in order and returns the digest as a big integer's bytes.
#[verifier::external_body]
pub fn hash_ecddh_points(
    g1: &G1Point,
    h1: &G1Point,
    g2: &G2Point,
    h2: &G2Point,
    a1: &G1Point,
    a2: &G2Point,
) -> (r: Vec<u8>)
    ensures
        r@ == hash_points_n(seq![g1@, h1@, g2@, h2@, a1@, a2@]),
        canon(r@),
        r@.len() <= 32,
{
    let d = Sha256::new().chain_points([&g1.raw.pt, &h1.raw.pt]).chain_points(
        [&g2.raw.pt, &h2.raw.pt],
    );
    d.chain_point(&a1.raw.pt).chain_point(&a2.raw.pt).result_bigint().to_bytes()
}

/// Relies on curv's `HashCommitment::<Sha256>`: the commitment to `m` under
/// the blinding factor `blind`.
#[verifier::external_body]
pub fn hash_commit(m: &[u8], blind: &[u8]) -> (r: Vec<u8>)
    ensures
        r@ == commit_n(min_be(m@), min_be(blind@)),
        canon(r@),
        r@.len() <= 32,
{
    HashCommitment::<Sha256>::create_commitment_with_user_defined_randomness(
        &curv::BigInt::from_bytes(m),
        &curv::BigInt::from_bytes(blind),
    ).to_bytes()
}

} // verus!
