//! Per-party primitives of the threshold BLS protocol: DKG phase operations
//! (commitment, Feldman dealing, share verification, key construction) and
//! partial signing with ECDDH proofs, following the GLOW threshold signature
//! in an optimistic, dishonest-majority setting.
use vstd::prelude::*;

use crate::bigint::{bigint_add, lemma_bigint_bytes};
use crate::curve::{
    bls_pair_check, bls_pair_check_n, copy_bytes, fr_of, g1_add_n, g1_mul_n, g2_add_n,
    g2_gen_bytes, g2_mul_n, g2_views, hash_to_g1_n, is_g1, is_g2, scalar_wf, G1Point, G2Point,
    Scalar,
};
use crate::dlog::{dlog_prove, dlog_verify, dlog_verify_n, DLogProof};
use crate::encoding::{be_nat, be_nat_eq, nat_to_min_be, u16_min_be};
use crate::hashing::{commit_n, hash_commit, min_be};
use crate::threshold_bls::utilities::{
    ecddh_accepts, ecddh_challenge, ECDDHProof, ECDDHStatement, ECDDHWitness, ProofError,
};
use crate::vss::{
    lagrange_coeff, lagrange_n, vss_scheme_wf, vss_share, vss_validate, vss_validate_n,
    ShamirSecretSharing, VssScheme,
};
use crate::Error;

verus! {

/// A party's ephemeral DKG key: secret `u_i`, public `y_i == g2·u_i`.
pub struct Keys {
    pub u_i: Scalar,
    pub y_i: G2Point,
    pub party_index: u16,
}

/// The round-1 broadcast: a blinded hash commitment to `y_i` and the index.
pub struct KeyGenComm {
    pub com: Vec<u8>,
}

/// The round-2 broadcast opening the commitment.
pub struct KeyGenDecom {
    pub blind_factor: Vec<u8>,
    pub y_i: G2Point,
}

/// A party's long-lived key material after DKG: the group key `vk` and the
/// party's secret share `sk_i`.
pub struct SharedKeys {
    pub index: u16,
    pub params: ShamirSecretSharing,
    pub vk: G2Point,
    pub sk_i: Scalar,
}

/// One party's signature share together with its proof of correctness.
pub struct PartialSignature {
    pub index: u16,
    pub sigma_i: G1Point,
    pub ddh_proof: ECDDHProof,
}

/// A full BLS signature produced by combination.
pub struct Signature {
    pub sigma: G1Point,
}

impl Clone for Keys {
    fn clone(&self) -> (r: Self)
        ensures
            r.u_i@ == self.u_i@,
            r.y_i@ == self.y_i@,
            r.party_index == self.party_index,
    {
        Keys {
            u_i: self.u_i.clone(),
            y_i: self.y_i.clone(),
            party_index: self.party_index,
        }
    }
}

impl Clone for KeyGenComm {
    fn clone(&self) -> (r: Self)
        ensures
            r.com@ == self.com@,
    {
        KeyGenComm { com: copy_bytes(self.com.as_slice()) }
    }
}

impl Clone for KeyGenDecom {
    fn clone(&self) -> (r: Self)
        ensures
            r.blind_factor@ == self.blind_factor@,
            r.y_i@ == self.y_i@,
    {
        KeyGenDecom {
            blind_factor: copy_bytes(self.blind_factor.as_slice()),
            y_i: self.y_i.clone(),
        }
    }
}

impl Clone for SharedKeys {
    fn clone(&self) -> (r: Self)
        ensures
            r.index == self.index,
            r.params == self.params,
            r.vk@ == self.vk@,
            r.sk_i@ == self.sk_i@,
    {
        SharedKeys {
            index: self.index,
            params: self.params,
            vk: self.vk.clone(),
            sk_i: self.sk_i.clone(),
        }
    }
}

impl Clone for PartialSignature {
    fn clone(&self) -> (r: Self)
        ensures
            r.index == self.index,
            r.sigma_i@ == self.sigma_i@,
            r.ddh_proof.a1@ == self.ddh_proof.a1@,
            r.ddh_proof.a2@ == self.ddh_proof.a2@,
            r.ddh_proof.z@ == self.ddh_proof.z@,
    {
        PartialSignature {
            index: self.index,
            sigma_i: self.sigma_i.clone(),
            ddh_proof: self.ddh_proof.clone(),
        }
    }
}

/// What an honestly created key announces: `y_i` is the generator times the
/// secret.  Stated by `phase1_create`; the structural validity of the fields
/// is carried by their types.
pub open spec fn keys_announced(k: &Keys) -> bool {
    k.y_i@ == g2_mul_n(g2_gen_bytes(), k.u_i@)
}

pub open spec fn shared_keys_wf(k: &SharedKeys) -> bool {
    k.sk_i@.len() == 32 && k.vk@.len() == 96
}

/// The committed message of party `i`: the value of `y`'s bytes plus `i`.
pub open spec fn commit_msg(y: Seq<u8>, i: nat) -> Seq<u8> {
    nat_to_min_be(be_nat(y) + i)
}

/// Whether the round-1 commitment opens to this decommitment at position `i`.
pub open spec fn decom_matches(com: Seq<u8>, y: Seq<u8>, blind: Seq<u8>, i: nat) -> bool {
    be_nat(com) == be_nat(commit_n(commit_msg(y, i), min_be(blind)))
}

/// Whether every received decommitment opens its commitment (positions are
/// zero-based, matching the committed context).
pub open spec fn all_decoms_match(decoms: Seq<KeyGenDecom>, comms: Seq<KeyGenComm>) -> bool {
    forall|j: int|
        0 <= j < decoms.len() ==> decom_matches(
            comms[j].com@,
            decoms[j].y_i@,
            decoms[j].blind_factor@,
            j as nat,
        )
}

/// What a successful Feldman dealing by this party looks like.
pub open spec fn dealt_ok(
    scheme: &VssScheme,
    shares: Seq<Scalar>,
    t: u16,
    n: u16,
    secret: Seq<u8>,
) -> bool {
    &&& scheme.parameters.threshold == t
    &&& scheme.parameters.share_count == n
    &&& scheme.commitments@.len() == t + 1
    &&& forall|i: int| 0 <= i < scheme.commitments@.len() ==> is_g2(scheme.commitments@[i]@)
    &&& scheme.commitments@[0]@ == g2_mul_n(g2_gen_bytes(), secret)
    &&& shares.len() == n
    &&& forall|j: int| 0 <= j < shares.len() ==> scalar_wf(shares[j]@)
    &&& forall|j: int|
        0 <= j < shares.len() ==> vss_validate_n(
            g2_views(scheme.commitments@),
            shares[j]@,
            (j + 1) as u16,
        )
}

/// Whether party `j`'s dealing checks out for the receiver at one-based
/// `index`: its share validates and its first commitment equals `y_j`.
pub open spec fn share_ok(
    scheme: &VssScheme,
    share: Seq<u8>,
    y: Seq<u8>,
    index: u16,
) -> bool {
    vss_validate_n(g2_views(scheme.commitments@), share, index) && scheme.commitments@[0]@ == y
}

pub open spec fn all_shares_ok(
    schemes: Seq<VssScheme>,
    shares: Seq<Scalar>,
    ys: Seq<G2Point>,
    index: u16,
) -> bool {
    forall|j: int| 0 <= j < schemes.len() ==> share_ok(&schemes[j], shares[j]@, ys[j]@, index)
}

/// Left-to-right sum of G2 elements, in ascending position order.
pub open spec fn g2_sum(vs: Seq<Seq<u8>>) -> Seq<u8>
    decreases vs.len(),
{
    if vs.len() == 0 {
        Seq::empty()
    } else if vs.len() == 1 {
        vs[0]
    } else {
        g2_add_n(g2_sum(vs.drop_last()), vs.last())
    }
}

/// Sum of the values of scalar encodings, over the integers.
pub open spec fn sum_vals(vs: Seq<Seq<u8>>) -> nat
    decreases vs.len(),
{
    if vs.len() == 0 {
        0
    } else {
        sum_vals(vs.drop_last()) + be_nat(vs.last())
    }
}

pub open spec fn scalar_views(s: Seq<Scalar>) -> Seq<Seq<u8>> {
    s.map_values(|x: Scalar| x@)
}

/// One term of the combined signature: the partial signature scaled by its
/// Lagrange coefficient over the zero-based signer set `s`.
pub open spec fn lagrange_term(p: PartialSignature, s: Seq<u16>) -> Seq<u8> {
    g1_mul_n(p.sigma_i@, lagrange_n(p.index, s))
}

/// Left-to-right sum of the Lagrange-scaled partial signatures.
pub open spec fn combine_sum(ps: Seq<PartialSignature>, s: Seq<u16>) -> Seq<u8>
    decreases ps.len(),
{
    if ps.len() == 0 {
        Seq::empty()
    } else if ps.len() == 1 {
        lagrange_term(ps[0], s)
    } else {
        g1_add_n(combine_sum(ps.drop_last(), s), lagrange_term(ps.last(), s))
    }
}

/// Whether one partial signature's ECDDH proof accepts against the hashed
/// message and the signer's public verification key.
pub open spec fn partial_sig_valid(hx: Seq<u8>, sigma: Seq<u8>, vk: Seq<u8>, p: &ECDDHProof) -> bool {
    ecddh_accepts(hx, sigma, g2_gen_bytes(), vk, p.a1@, p.a2@, p.z@)
}

pub open spec fn all_partial_sigs_valid(
    hx: Seq<u8>,
    psigs: Seq<PartialSignature>,
    vks: Seq<G2Point>,
) -> bool {
    forall|i: int|
        0 <= i < psigs.len() ==> partial_sig_valid(
            hx,
            psigs[i].sigma_i@,
            vks[i]@,
            &psigs[i].ddh_proof,
        )
}

impl Keys {
    /// Samples the party's DKG secret and public key.
    pub fn phase1_create(index: u16) -> (r: Keys)
        ensures
            keys_announced(&r),
            r.party_index == index,
    {
        let u = Scalar::random();
        let y = G2Point::generator().mul(&u);
        Keys { u_i: u, y_i: y, party_index: index }
    }

    /// Commits to `y_i` under a fresh 256-bit blind; the party's index is
    /// folded into the committed value to prevent substitution.
    pub fn phase1_broadcast(&self) -> (r: (KeyGenComm, KeyGenDecom))
        ensures
            r.1.y_i@ == self.y_i@,
            decom_matches(
                r.0.com@,
                self.y_i@,
                r.1.blind_factor@,
                self.party_index as nat,
            ),
    {
        let blind_factor = crate::bigint::bigint_sample_256();
        let index_bytes = u16_min_be(self.party_index);
        let y_bytes = self.y_i.to_bytes();
        let m = bigint_add(y_bytes.as_slice(), index_bytes.as_slice());
        let com = hash_commit(m.as_slice(), blind_factor.as_slice());
        proof {
            lemma_bigint_bytes(be_nat(y_bytes@) + be_nat(index_bytes@));
            assert(min_be(m@) == commit_msg(self.y_i@, self.party_index as nat));
        }
        (
            KeyGenComm { com },
            KeyGenDecom { blind_factor, y_i: self.y_i.clone() },
        )
    }

    /// Opens and checks every round-1 commitment against its round-2
    /// decommitment, then deals this party's secret by Feldman VSS.
    pub fn phase1_verify_com_phase2_distribute(
        &self,
        params: &ShamirSecretSharing,
        decom_vec: &Vec<KeyGenDecom>,
        bc1_vec: &Vec<KeyGenComm>,
    ) -> (r: Result<(VssScheme, Vec<Scalar>, u16), Error>)
        requires
            params.threshold < params.share_count,
        ensures
            (decom_vec@.len() != params.share_count || bc1_vec@.len() != params.share_count) <==> r
                == Err::<(VssScheme, Vec<Scalar>, u16), Error>(Error::KeyGenMisMatchedVectors),
            (decom_vec@.len() == params.share_count && bc1_vec@.len() == params.share_count
                && !all_decoms_match(decom_vec@, bc1_vec@)) <==> (r matches Err(e)
                && e is KeyGenBadCommitment),
            r matches Err(e) ==> (e matches Error::KeyGenBadCommitment { party } ==> 1 <= party
                <= params.share_count && !decom_matches(
                bc1_vec@[party - 1].com@,
                decom_vec@[party - 1].y_i@,
                decom_vec@[party - 1].blind_factor@,
                (party - 1) as nat,
            )),
            r is Err ==> (r == Err::<(VssScheme, Vec<Scalar>, u16), Error>(
                Error::KeyGenMisMatchedVectors,
            ) || (r matches Err(e) && e is KeyGenBadCommitment)),
            r matches Ok(out) ==> {
                &&& all_decoms_match(decom_vec@, bc1_vec@)
                &&& dealt_ok(
                    &out.0,
                    out.1@,
                    params.threshold,
                    params.share_count,
                    self.u_i@,
                )
                &&& out.2 == self.party_index
            },
    {
        let n = params.share_count;
        if decom_vec.len() != n as usize || bc1_vec.len() != n as usize {
            return Err(Error::KeyGenMisMatchedVectors);
        }
        let mut bad: Option<u16> = None;
        let mut j: usize = 0;
        while j < bc1_vec.len()
            invariant
                j <= bc1_vec@.len(),
                bc1_vec@.len() <= 65535,
                decom_vec@.len() == bc1_vec@.len(),
                bad is None ==> forall|k: int|
                    0 <= k < j ==> decom_matches(
                        bc1_vec@[k].com@,
                        decom_vec@[k].y_i@,
                        decom_vec@[k].blind_factor@,
                        k as nat,
                    ),
                bad matches Some(p) ==> 1 <= p <= bc1_vec@.len() && !decom_matches(
                    bc1_vec@[p - 1].com@,
                    decom_vec@[p - 1].y_i@,
                    decom_vec@[p - 1].blind_factor@,
                    (p - 1) as nat,
                ),
            decreases bc1_vec@.len() - j,
        {
            let index_bytes = u16_min_be(j as u16);
            let y_bytes = decom_vec[j].y_i.to_bytes();
            let m = bigint_add(y_bytes.as_slice(), index_bytes.as_slice());
            let expected = hash_commit(m.as_slice(), decom_vec[j].blind_factor.as_slice());
            let ok = be_nat_eq(bc1_vec[j].com.as_slice(), expected.as_slice());
            proof {
                lemma_bigint_bytes(be_nat(y_bytes@) + be_nat(index_bytes@));
                assert(be_nat(index_bytes@) == j as nat);
                assert(min_be(m@) == commit_msg(decom_vec@[j as int].y_i@, j as nat));
            }
            if !ok && bad.is_none() {
                bad = Some(j as u16 + 1);
            }
            j += 1;
        }
        let (vss_scheme, secret_shares) = vss_share(params.threshold, n, &self.u_i);
        match bad {
            None => Ok((vss_scheme, secret_shares, self.party_index)),
            Some(party) => Err(Error::KeyGenBadCommitment { party }),
        }
    }

    /// Validates every received share against its dealer's commitments and
    /// the dealer's announced `y_j`, then aggregates the group key
    /// `vk = Σ y_j` and this party's share `sk_i = Σ f_j(i)`, both in
    /// ascending party order, and proves knowledge of `sk_i`.
    pub fn phase2_verify_vss_construct_keypair_prove_dlog(
        &self,
        params: &ShamirSecretSharing,
        y_vec: &Vec<G2Point>,
        secret_shares_vec: &Vec<Scalar>,
        vss_scheme_vec: &Vec<VssScheme>,
        index: u16,
    ) -> (r: Result<(SharedKeys, DLogProof), Error>)
        requires
            params.share_count >= 1,
            forall|i: int| 0 <= i < vss_scheme_vec@.len() ==> vss_scheme_wf(&vss_scheme_vec@[i]),
        ensures
            (y_vec@.len() != params.share_count || secret_shares_vec@.len() != params.share_count
                || vss_scheme_vec@.len() != params.share_count) <==> r == Err::<
                (SharedKeys, DLogProof),
                Error,
            >(Error::KeyGenMisMatchedVectors),
            (y_vec@.len() == params.share_count && secret_shares_vec@.len() == params.share_count
                && vss_scheme_vec@.len() == params.share_count && !all_shares_ok(
                vss_scheme_vec@,
                secret_shares_vec@,
                y_vec@,
                index,
            )) <==> r == Err::<(SharedKeys, DLogProof), Error>(Error::KeyGenInvalidShare),
            r is Err ==> (r == Err::<(SharedKeys, DLogProof), Error>(
                Error::KeyGenMisMatchedVectors,
            ) || r == Err::<(SharedKeys, DLogProof), Error>(Error::KeyGenInvalidShare)),
            r matches Ok(out) ==> {
                &&& all_shares_ok(vss_scheme_vec@, secret_shares_vec@, y_vec@, index)
                &&& out.0.index == self.party_index
                &&& out.0.params == *params
                &&& out.0.vk@ == g2_sum(g2_views(y_vec@))
                &&& out.0.sk_i@ == fr_of(sum_vals(scalar_views(secret_shares_vec@)))
                &&& shared_keys_wf(&out.0)
                &&& out.1.pk@ == g2_mul_n(g2_gen_bytes(), out.0.sk_i@)
                &&& dlog_verify_n(
                    out.1.pk@,
                    out.1.pk_t_rand_commitment@,
                    out.1.challenge_response@,
                )
            },
    {
        let n = params.share_count;
        if y_vec.len() != n as usize || secret_shares_vec.len() != n as usize
            || vss_scheme_vec.len() != n as usize {
            return Err(Error::KeyGenMisMatchedVectors);
        }
        let mut all_ok = true;
        let mut j: usize = 0;
        while j < y_vec.len()
            invariant
                j <= y_vec@.len(),
                y_vec@.len() == secret_shares_vec@.len() == vss_scheme_vec@.len(),
                forall|i: int| 0 <= i < vss_scheme_vec@.len() ==> vss_scheme_wf(&vss_scheme_vec@[i]),
                all_ok == (forall|k: int|
                    0 <= k < j ==> share_ok(
                        &vss_scheme_vec@[k],
                        secret_shares_vec@[k]@,
                        y_vec@[k]@,
                        index,
                    )),
            decreases y_vec@.len() - j,
        {
            let valid = vss_validate(&vss_scheme_vec[j], &secret_shares_vec[j], index);
            let first = crate::curve::g2_eq(&vss_scheme_vec[j].commitments[0], &y_vec[j]);
            all_ok = all_ok && valid && first;
            j += 1;
        }
        if !all_ok {
            return Err(Error::KeyGenInvalidShare);
        }
        let mut y: G2Point = y_vec[0].clone();
        let mut k: usize = 1;
        proof {
            use_type_invariant(&y);
            assert(g2_views(y_vec@).subrange(0, 1) =~= seq![y_vec@[0]@]);
        }
        while k < y_vec.len()
            invariant
                1 <= k <= y_vec@.len(),
                y@.len() == 96,
                y@ == g2_sum(g2_views(y_vec@).subrange(0, k as int)),
            decreases y_vec@.len() - k,
        {
            y = y.add(&y_vec[k]);
            proof {
                let views = g2_views(y_vec@);
                assert(views.subrange(0, k + 1).drop_last() =~= views.subrange(0, k as int));
                assert(views.subrange(0, k + 1).last() == y_vec@[k as int]@);
            }
            k += 1;
        }
        proof {
            assert(g2_views(y_vec@).subrange(0, y_vec@.len() as int) =~= g2_views(y_vec@));
        }
        let mut x_i: Scalar = secret_shares_vec[0].clone();
        let mut k2: usize = 1;
        proof {
            use_type_invariant(&x_i);
            reveal_with_fuel(sum_vals, 2);
            crate::curve::lemma_fr_of_id(secret_shares_vec@[0]@);
            assert(scalar_views(secret_shares_vec@).subrange(0, 1).drop_last() =~= Seq::<
                Seq<u8>,
            >::empty());
            assert(scalar_views(secret_shares_vec@).subrange(0, 1).last()
                == secret_shares_vec@[0]@);
            assert(sum_vals(scalar_views(secret_shares_vec@).subrange(0, 1)) == be_nat(
                secret_shares_vec@[0]@,
            ));
        }
        while k2 < secret_shares_vec.len()
            invariant
                1 <= k2 <= secret_shares_vec@.len(),
                scalar_wf(x_i@),
                x_i@ == fr_of(sum_vals(scalar_views(secret_shares_vec@).subrange(0, k2 as int))),
            decreases secret_shares_vec@.len() - k2,
        {
            let next = x_i.add(&secret_shares_vec[k2]);
            proof {
                let views = scalar_views(secret_shares_vec@);
                assert(views.subrange(0, k2 + 1).drop_last() =~= views.subrange(0, k2 as int));
                assert(views.subrange(0, k2 + 1).last() == secret_shares_vec@[k2 as int]@);
                let prev = sum_vals(views.subrange(0, k2 as int));
                let v = be_nat(secret_shares_vec@[k2 as int]@);
                crate::curve::lemma_fr_of_wf(prev);
                vstd::arithmetic::div_mod::lemma_add_mod_noop(
                    prev as int,
                    v as int,
                    crate::curve::fr_order() as int,
                );
                assert(be_nat(x_i@) == prev % crate::curve::fr_order());
                assert((prev % crate::curve::fr_order() + v) % crate::curve::fr_order() == (prev
                    + v) % crate::curve::fr_order()) by {
                    vstd::arithmetic::div_mod::lemma_mod_twice(
                        v as int,
                        crate::curve::fr_order() as int,
                    );
                };
            }
            x_i = next;
            k2 += 1;
        }
        proof {
            assert(scalar_views(secret_shares_vec@).subrange(
                0,
                secret_shares_vec@.len() as int,
            ) =~= scalar_views(secret_shares_vec@));
        }
        let dlog_proof = dlog_prove(&x_i);
        Ok((
            SharedKeys { index: self.party_index, params: *params, vk: y, sk_i: x_i },
            dlog_proof,
        ))
    }

    /// Verifies every party's proof of knowledge of its secret share.
    pub fn verify_dlog_proofs(
        params: &ShamirSecretSharing,
        dlog_proofs_vec: &Vec<DLogProof>,
    ) -> (r: Result<(), Error>)
        ensures
            dlog_proofs_vec@.len() != params.share_count <==> r == Err::<(), Error>(
                Error::KeyGenMisMatchedVectors,
            ),
            (dlog_proofs_vec@.len() == params.share_count && r is Ok) <==> (
            dlog_proofs_vec@.len() == params.share_count && forall|i: int|
                0 <= i < dlog_proofs_vec@.len() ==> dlog_verify_n(
                    dlog_proofs_vec@[i].pk@,
                    dlog_proofs_vec@[i].pk_t_rand_commitment@,
                    dlog_proofs_vec@[i].challenge_response@,
                )),
            r is Err ==> (r == Err::<(), Error>(Error::KeyGenMisMatchedVectors) || r == Err::<
                (),
                Error,
            >(Error::KeyGenDlogProofError)),
    {
        if dlog_proofs_vec.len() != params.share_count as usize {
            return Err(Error::KeyGenMisMatchedVectors);
        }
        let mut all_ok = true;
        let mut j: usize = 0;
        while j < dlog_proofs_vec.len()
            invariant
                j <= dlog_proofs_vec@.len(),
                all_ok == (forall|k: int|
                    0 <= k < j ==> dlog_verify_n(
                        dlog_proofs_vec@[k].pk@,
                        dlog_proofs_vec@[k].pk_t_rand_commitment@,
                        dlog_proofs_vec@[k].challenge_response@,
                    )),
            decreases dlog_proofs_vec@.len() - j,
        {
            let ok = dlog_verify(&dlog_proofs_vec[j]);
            all_ok = all_ok && ok;
            j += 1;
        }
        if all_ok {
            Ok(())
        } else {
            Err(Error::KeyGenDlogProofError)
        }
    }
}

impl SharedKeys {
    /// `g2 · sk_i`, the party's public verification key.
    pub fn get_shared_pubkey(&self) -> (r: G2Point)
        ensures
            r@ == g2_mul_n(g2_gen_bytes(), self.sk_i@),
            is_g2(r@),
    {
        G2Point::generator().mul(&self.sk_i)
    }

    /// Produces this party's signature share `sigma_i = sk_i · H(m)` with an
    /// ECDDH proof that `(H(m), sigma_i, g2, g2·sk_i)` shares the exponent.
    pub fn partial_sign(&self, x: &[u8]) -> (r: (PartialSignature, G1Point))
        ensures
            r.1@ == hash_to_g1_n(x@),
            is_g1(r.1@),
            r.0.index == self.index,
            r.0.sigma_i@ == g1_mul_n(hash_to_g1_n(x@), self.sk_i@),
            exists|s: Seq<u8>|
                scalar_wf(s) && r.0.ddh_proof.a1@ == g1_mul_n(hash_to_g1_n(x@), s)
                    && r.0.ddh_proof.a2@ == g2_mul_n(g2_gen_bytes(), s) && be_nat(
                    r.0.ddh_proof.z@,
                ) == be_nat(s) + be_nat(
                    ecddh_challenge(
                        hash_to_g1_n(x@),
                        r.0.sigma_i@,
                        g2_gen_bytes(),
                        g2_mul_n(g2_gen_bytes(), self.sk_i@),
                        r.0.ddh_proof.a1@,
                        r.0.ddh_proof.a2@,
                    ),
                ) * be_nat(self.sk_i@),
    {
        let H_x = G1Point::hash_to_curve(x);
        let sigma_i = H_x.mul(&self.sk_i);
        let w = ECDDHWitness { x: self.sk_i.to_bigint_bytes() };
        let delta = ECDDHStatement {
            g1: H_x.clone(),
            h1: sigma_i.clone(),
            g2: G2Point::generator(),
            h2: self.get_shared_pubkey(),
        };
        let ddh_proof = ECDDHProof::prove(&w, &delta);
        proof {
            let s = choose|s: Seq<u8>|
                scalar_wf(s) && ddh_proof.a1@ == g1_mul_n(delta.g1@, s) && ddh_proof.a2@
                    == g2_mul_n(delta.g2@, s) && be_nat(ddh_proof.z@) == be_nat(s) + be_nat(
                    ecddh_challenge(
                        delta.g1@,
                        delta.h1@,
                        delta.g2@,
                        delta.h2@,
                        ddh_proof.a1@,
                        ddh_proof.a2@,
                    ),
                ) * be_nat(w.x@);
            assert(scalar_wf(s) && ddh_proof.a1@ == g1_mul_n(hash_to_g1_n(x@), s)
                && ddh_proof.a2@ == g2_mul_n(g2_gen_bytes(), s) && be_nat(ddh_proof.z@)
                == be_nat(s) + be_nat(
                ecddh_challenge(
                    hash_to_g1_n(x@),
                    sigma_i@,
                    g2_gen_bytes(),
                    g2_mul_n(g2_gen_bytes(), self.sk_i@),
                    ddh_proof.a1@,
                    ddh_proof.a2@,
                ),
            ) * be_nat(self.sk_i@));
        }
        (PartialSignature { index: self.index, sigma_i, ddh_proof }, H_x)
    }

    /// Verifies one signature share's ECDDH proof against the hashed message
    /// and the signer's verification key.
    pub fn verify_partial_sig(
        H_x: &G1Point,
        partial_sig: &PartialSignature,
        vk_i: &G2Point,
    ) -> (r: Result<(), ProofError>)
        ensures
            r is Ok <==> partial_sig_valid(
                H_x@,
                partial_sig.sigma_i@,
                vk_i@,
                &partial_sig.ddh_proof,
            ),
    {
        let delta = ECDDHStatement {
            g1: H_x.clone(),
            h1: partial_sig.sigma_i.clone(),
            g2: G2Point::generator(),
            h2: vk_i.clone(),
        };
        if partial_sig.ddh_proof.verify(&delta) {
            Ok(())
        } else {
            Err(ProofError)
        }
    }

    /// Verifies every share, then combines the first `t + 1` shares with
    /// their Lagrange coefficients at zero over the signer set `s`, in
    /// ascending position order.  The Lagrange domain (a set: `t + 1`
    /// distinct zero-based indices covering the combined shares) is the
    /// caller's to ensure.
    pub fn combine(
        &self,
        vk_vec: &[G2Point],
        partial_sigs_vec: &[PartialSignature],
        H_x: &G1Point,
        s: &[u16],
    ) -> (r: Result<crate::basic_bls::BLSSignature, Error>)
        requires
            (vk_vec@.len() == partial_sigs_vec@.len() && vk_vec@.len() > self.params.threshold
                && s@.len() > self.params.threshold && s@.len() <= self.params.share_count)
                ==> {
                &&& forall|i: int|
                    0 <= i <= self.params.threshold ==> s@.subrange(
                        0,
                        self.params.threshold + 1,
                    ).contains(partial_sigs_vec@[i].index)
                &&& forall|a: int, b: int|
                    0 <= a < b <= self.params.threshold ==> s@[a] != s@[b]
                &&& forall|q: int| 0 <= q <= self.params.threshold ==> s@[q] < 65535
            },
        ensures
            !(vk_vec@.len() == partial_sigs_vec@.len() && vk_vec@.len() > self.params.threshold
                && s@.len() > self.params.threshold && s@.len() <= self.params.share_count) <==> r
                == Err::<crate::basic_bls::BLSSignature, Error>(Error::SigningMisMatchedVectors),
            ((vk_vec@.len() == partial_sigs_vec@.len() && vk_vec@.len() > self.params.threshold
                && s@.len() > self.params.threshold && s@.len() <= self.params.share_count)
                && !all_partial_sigs_valid(H_x@, partial_sigs_vec@, vk_vec@)) <==> r == Err::<
                crate::basic_bls::BLSSignature,
                Error,
            >(Error::PartialSignatureVerificationError),
            r is Err ==> (r == Err::<crate::basic_bls::BLSSignature, Error>(
                Error::SigningMisMatchedVectors,
            ) || r == Err::<crate::basic_bls::BLSSignature, Error>(
                Error::PartialSignatureVerificationError,
            )),
            r matches Ok(sig) ==> {
                &&& all_partial_sigs_valid(H_x@, partial_sigs_vec@, vk_vec@)
                &&& sig.sigma@ == combine_sum(
                    partial_sigs_vec@.subrange(0, self.params.threshold + 1),
                    s@.subrange(0, self.params.threshold + 1),
                )
                &&& is_g1(sig.sigma@)
            },
    {
        let t = self.params.threshold;
        if !(vk_vec.len() == partial_sigs_vec.len() && vk_vec.len() > t as usize && s.len()
            > t as usize && s.len() <= self.params.share_count as usize) {
            return Err(Error::SigningMisMatchedVectors);
        }
        let mut all_valid = true;
        let mut j: usize = 0;
        while j < vk_vec.len()
            invariant
                j <= vk_vec@.len(),
                vk_vec@.len() == partial_sigs_vec@.len(),
                all_valid == (forall|k: int|
                    0 <= k < j ==> partial_sig_valid(
                        H_x@,
                        partial_sigs_vec@[k].sigma_i@,
                        vk_vec@[k]@,
                        &partial_sigs_vec@[k].ddh_proof,
                    )),
            decreases vk_vec@.len() - j,
        {
            let ok = Self::verify_partial_sig(H_x, &partial_sigs_vec[j], &vk_vec[j]).is_ok();
            all_valid = all_valid && ok;
            j += 1;
        }
        if !all_valid {
            return Err(Error::PartialSignatureVerificationError);
        }
        let mut s_sub: Vec<u16> = Vec::new();
        let mut k: usize = 0;
        while k < t as usize + 1
            invariant
                k <= t + 1,
                t < s@.len(),
                s_sub@ =~= s@.subrange(0, k as int),
            decreases t + 1 - k,
        {
            s_sub.push(s[k]);
            k += 1;
        }
        proof {
            assert(s_sub@ =~= s@.subrange(0, t + 1));
            assert(forall|a: int, b: int| 0 <= a < b < s_sub@.len() ==> s_sub@[a] != s_sub@[b]);
            assert(forall|q: int| 0 <= q < s_sub@.len() ==> s_sub@[q] < 65535);
        }
        let coef0 = lagrange_coeff(partial_sigs_vec[0].index, s_sub.as_slice());
        let mut sigma: G1Point = partial_sigs_vec[0].sigma_i.mul(&coef0);
        let mut i: usize = 1;
        proof {
            assert(partial_sigs_vec@.subrange(0, 1).len() == 1);
            assert(partial_sigs_vec@.subrange(0, 1)[0] == partial_sigs_vec@[0]);
        }
        while i < t as usize + 1
            invariant
                1 <= i <= t + 1,
                t + 1 <= partial_sigs_vec@.len(),
                t < s@.len(),
                s_sub@ == s@.subrange(0, t + 1),
                forall|q: int|
                    0 <= q <= t ==> s@.subrange(0, t + 1).contains(partial_sigs_vec@[q].index),
                forall|a: int, b: int| 0 <= a < b < s_sub@.len() ==> s_sub@[a] != s_sub@[b],
                forall|q: int| 0 <= q < s_sub@.len() ==> s_sub@[q] < 65535,
                is_g1(sigma@),
                sigma@ == combine_sum(partial_sigs_vec@.subrange(0, i as int), s_sub@),
            decreases t + 1 - i,
        {
            let coef = lagrange_coeff(partial_sigs_vec[i].index, s_sub.as_slice());
            let term = partial_sigs_vec[i].sigma_i.mul(&coef);
            sigma = sigma.add(&term);
            proof {
                let ps = partial_sigs_vec@;
                assert(ps.subrange(0, i + 1).drop_last() =~= ps.subrange(0, i as int));
                assert(ps.subrange(0, i + 1).last() == ps[i as int]);
            }
            i += 1;
        }
        Ok(crate::basic_bls::BLSSignature { sigma })
    }

    /// Checks the combined signature under the group key `vk`.
    pub fn verify(&self, sig: &crate::basic_bls::BLSSignature, x: &[u8]) -> (r: bool)
        ensures
            r == bls_pair_check_n(hash_to_g1_n(x@), self.vk@, sig.sigma@),
    {
        let H_x = G1Point::hash_to_curve(x);
        bls_pair_check(&H_x, &self.vk, &sig.sigma)
    }
}

} // verus!
