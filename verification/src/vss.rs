//! Feldman verifiable secret sharing over G2, supplied by curv.  Dealing and
//! share validation are named here; the Lagrange coefficient at zero is the
//! basis of threshold combination.
use vstd::prelude::*;

use curv::cryptographic_primitives::secret_sharing::feldman_vss::ShamirSecretSharing as CurveSss;
use curv::cryptographic_primitives::secret_sharing::feldman_vss::VerifiableSS;
use curv::elliptic::curves::{Bls12_381_1, Bls12_381_2, Point as CurvePoint, Scalar as CurveScalar};

use crate::curve::{g2_gen_bytes, g2_mul_n, g2_views, is_g2, scalar_wf, G2Point, Scalar};

verus! {

/// Threshold sharing parameters: any `threshold + 1` of `share_count` parties
/// can reconstruct.
#[derive(Clone, Copy, PartialEq, Eq, Structural, Debug)]
pub struct ShamirSecretSharing {
    pub threshold: u16,
    pub share_count: u16,
}

/// Feldman commitments to the coefficients of a dealt polynomial.
pub struct VssScheme {
    pub parameters: ShamirSecretSharing,
    pub commitments: Vec<G2Point>,
}

/// Clones a vector of G2 elements, keeping each element's encoding.
pub fn clone_g2_vec(v: &Vec<G2Point>) -> (r: Vec<G2Point>)
    ensures
        r@.len() == v@.len(),
        forall|i: int| 0 <= i < v@.len() ==> r@[i]@ == v@[i]@,
{
    let mut r: Vec<G2Point> = Vec::new();
    let mut i: usize = 0;
    while i < v.len()
        invariant
            i <= v@.len(),
            r@.len() == i,
            forall|k: int| 0 <= k < i ==> r@[k]@ == v@[k]@,
        decreases v@.len() - i,
    {
        r.push(v[i].clone());
        i += 1;
    }
    r
}

impl Clone for VssScheme {
    fn clone(&self) -> (r: Self)
        ensures
            r.parameters == self.parameters,
            r.commitments@.len() == self.commitments@.len(),
            forall|i: int|
                0 <= i < self.commitments@.len() ==> r.commitments@[i]@ == self.commitments@[i]@,
    {
        VssScheme {
            parameters: self.parameters,
            commitments: clone_g2_vec(&self.commitments),
        }
    }
}

pub open spec fn vss_scheme_wf(s: &VssScheme) -> bool {
    s.commitments@.len() == s.parameters.threshold + 1
}

/// Whether curv's `validate_share` accepts `share` as the evaluation at
/// `index` of the polynomial committed to by `commitments`: whether
/// `g2·share == Σ commitments[k] · index^k`.
pub uninterp spec fn vss_validate_n(commitments: Seq<Seq<u8>>, share: Seq<u8>, index: u16) -> bool;

/// The Lagrange coefficient at zero for the party of zero-based index
/// `index` within the set `s` of zero-based indices, as curv's
/// `map_share_to_new_params` computes it.
pub uninterp spec fn lagrange_n(index: u16, s: Seq<u16>) -> Seq<u8>;

/// Relies on curv's `VerifiableSS::<Bls12_381_2>::share`: samples a uniform
/// polynomial `f` of degree `t` with `f(0) == secret`, commits to each
/// coefficient as `g2·coef`, and hands out the shares `f(1), …, f(n)`.  The
/// first commitment is therefore `g2·secret`, and every dealt share validates
/// against the commitments at its one-based index.
#[verifier::external_body]
pub fn vss_share(t: u16, n: u16, secret: &Scalar) -> (r: (VssScheme, Vec<Scalar>))
    requires
        t < n,
    ensures
        r.0.parameters.threshold == t,
        r.0.parameters.share_count == n,
        r.0.commitments@.len() == t + 1,
        forall|i: int| 0 <= i < r.0.commitments@.len() ==> is_g2(r.0.commitments@[i]@),
        r.0.commitments@[0]@ == g2_mul_n(g2_gen_bytes(), secret@),
        r.1@.len() == n,
        forall|j: int| 0 <= j < r.1@.len() ==> scalar_wf(r.1@[j]@),
        forall|j: int|
            0 <= j < r.1@.len() ==> vss_validate_n(
                g2_views(r.0.commitments@),
                r.1@[j]@,
                (j + 1) as u16,
            ),
{
    let w = CurveScalar::<Bls12_381_2>::from_bytes(secret.bytes.as_slice()).unwrap();
    let (vss, shares) = VerifiableSS::<Bls12_381_2>::share(t, n, &w);
    let commitments: Vec<G2Point> = vss
        .commitments
        .into_iter()
        .map(|c| G2Point { bytes: c.to_bytes(true).to_vec(), raw: crate::curve::RawG2 { pt: c } })
        .collect();
    let out_shares: Vec<Scalar> = shares
        .iter()
        .map(|s| Scalar { bytes: s.to_bytes().to_vec() })
        .collect();
    let parameters = ShamirSecretSharing { threshold: t, share_count: n };
    (VssScheme { parameters, commitments }, out_shares)
}

/// Relies on curv's `VerifiableSS::validate_share`.
#[verifier::external_body]
pub fn vss_validate(scheme: &VssScheme, share: &Scalar, index: u16) -> (r: bool)
    requires
        vss_scheme_wf(scheme),
    ensures
        r == vss_validate_n(g2_views(scheme.commitments@), share@, index),
{
    let commitments: Vec<CurvePoint<Bls12_381_2>> = scheme
        .commitments
        .iter()
        .map(|c| c.raw.pt.clone())
        .collect();
    let threshold = scheme.parameters.threshold;
    let share_count = scheme.parameters.share_count;
    let parameters = CurveSss { threshold, share_count };
    let vss = VerifiableSS::<Bls12_381_2> { parameters, commitments };
    let s = CurveScalar::from_bytes(share.bytes.as_slice()).unwrap();
    vss.validate_share(&s, index).is_ok()
}

/// Relies on curv's `VerifiableSS::<Bls12_381_1>::map_share_to_new_params`
/// (which ignores its params argument): the Lagrange coefficient at zero for
/// `index` over the set `s`.  That function panics when `index` is not in
/// `s`, when two entries of `s` coincide (the basis denominator is then not
/// invertible), or when an entry is 65535 (the one-based evaluation point
/// overflows); the preconditions rule those out.
#[verifier::external_body]
pub fn lagrange_coeff(index: u16, s: &[u16]) -> (r: Scalar)
    requires
        s@.contains(index),
        forall|a: int, b: int| 0 <= a < b < s@.len() ==> s@[a] != s@[b],
        forall|q: int| 0 <= q < s@.len() ==> s@[q] < 65535,
    ensures
        r@ == lagrange_n(index, s@),
        scalar_wf(r@),
{
    let params = CurveSss { threshold: 0, share_count: 0 };
    let l = VerifiableSS::<Bls12_381_1>::map_share_to_new_params(&params, index, s);
    Scalar { bytes: l.to_bytes().to_vec() }
}

} // verus!
