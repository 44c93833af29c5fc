//! Per-party operations of the BDN18 multi-signature: key generation,
//! aggregation of the public keys, local signing with the per-key
//! coefficient, combination, and (batch) verification.
use vstd::prelude::*;

use crate::aggregated_bls::h1_spec;
use crate::basic_bls::BLSSignature;
use crate::curve::{
    agg_pair_check, agg_pair_check_n, bls_pair_check_n, fr_of, g1_add_n, g1_mul_n, g1_views,
    g2_gen_bytes, g2_mul_n, g2_views, hash_to_g1_n, is_g1, is_g2, scalar_wf, G1Point, G2Point,
    Scalar,
};
use crate::encoding::be_nat;
use crate::threshold_bls::party_i::g2_sum;

verus! {

/// A party's multi-signature key pair.
pub struct Keys {
    pub sk_i: Scalar,
    pub pk_i: G2Point,
    pub party_index: usize,
}

/// An aggregated public key.
pub type APK = G2Point;

/// A local signature share.
pub type SIG = G1Point;

impl Clone for Keys {
    fn clone(&self) -> (r: Self)
        ensures
            r.sk_i@ == self.sk_i@,
            r.pk_i@ == self.pk_i@,
            r.party_index == self.party_index,
    {
        Keys {
            sk_i: self.sk_i.clone(),
            pk_i: self.pk_i.clone(),
            party_index: self.party_index,
        }
    }
}

pub open spec fn agg_keys_wf(k: &Keys) -> bool {
    scalar_wf(k.sk_i@) && is_g2(k.pk_i@) && k.pk_i@ == g2_mul_n(g2_gen_bytes(), k.sk_i@)
}

/// The coefficient `a_i` of key `i`: the BDN18 hash reduced into the field.
pub open spec fn h1_coeff(index: int, views: Seq<Seq<u8>>) -> Seq<u8> {
    fr_of(be_nat(h1_spec(index, views)))
}

/// The aggregated key `Σ pk_i · a_i` in ascending index order.
pub open spec fn apk_spec(views: Seq<Seq<u8>>) -> Seq<u8> {
    g2_sum(Seq::new(views.len(), |i: int| g2_mul_n(views[i], h1_coeff(i, views))))
}

/// Left-to-right sum of G1 elements, in ascending position order.
pub open spec fn g1_sum(vs: Seq<Seq<u8>>) -> Seq<u8>
    decreases vs.len(),
{
    if vs.len() == 0 {
        Seq::empty()
    } else if vs.len() == 1 {
        vs[0]
    } else {
        g1_add_n(g1_sum(vs.drop_last()), vs.last())
    }
}

/// Whether two of the batch's messages coincide.
pub open spec fn has_duplicate(msgs: Seq<Seq<u8>>) -> bool {
    exists|i: int, j: int| 0 <= i < j < msgs.len() && msgs[i] == msgs[j]
}

impl Keys {
    /// Samples a fresh key pair for the party at `index`.
    pub fn new(index: usize) -> (r: Keys)
        ensures
            agg_keys_wf(&r),
            r.party_index == index,
    {
        let u = Scalar::random();
        let y = G2Point::generator().mul(&u);
        Keys { sk_i: u, pk_i: y, party_index: index }
    }

    /// Aggregates the public keys: `APK = Σ pk_i · a_i`.
    pub fn aggregate(pk_vec: &Vec<G2Point>) -> (r: APK)
        requires
            pk_vec@.len() >= 1,
        ensures
            r@ == apk_spec(g2_views(pk_vec@)),
            is_g2(r@),
    {
        let ghost views = g2_views(pk_vec@);
        let ghost terms = Seq::new(views.len(), |i: int| g2_mul_n(views[i], h1_coeff(i, views)));
        let a0 = Scalar::from_bigint_bytes(crate::aggregated_bls::h1(0, pk_vec).as_slice());
        let mut acc: G2Point = pk_vec[0].mul(&a0);
        let mut j: usize = 1;
        proof {
            assert(terms.subrange(0, 1).len() == 1);
            assert(terms.subrange(0, 1)[0] == terms[0]);
        }
        while j < pk_vec.len()
            invariant
                1 <= j <= pk_vec@.len(),
                views == g2_views(pk_vec@),
                terms == Seq::new(views.len(), |i: int| g2_mul_n(views[i], h1_coeff(i, views))),
                acc@ == g2_sum(terms.subrange(0, j as int)),
            decreases pk_vec@.len() - j,
        {
            let a = Scalar::from_bigint_bytes(crate::aggregated_bls::h1(j, pk_vec).as_slice());
            let term = pk_vec[j].mul(&a);
            acc = acc.add(&term);
            proof {
                assert(terms.subrange(0, j + 1).drop_last() =~= terms.subrange(0, j as int));
                assert(terms.subrange(0, j + 1).last() == terms[j as int]);
            }
            j += 1;
        }
        proof {
            use_type_invariant(&acc);
            assert(terms.subrange(0, terms.len() as int) =~= terms);
        }
        acc
    }

    /// This party's local signature `H(m) · (a_i · sk_i)`.
    pub fn local_sign(&self, message: &[u8], pk_vec: &Vec<G2Point>) -> (r: SIG)
        requires
            self.party_index < pk_vec@.len(),
        ensures
            r@ == g1_mul_n(
                hash_to_g1_n(message@),
                fr_of(
                    be_nat(h1_coeff(self.party_index as int, g2_views(pk_vec@))) * be_nat(
                        self.sk_i@,
                    ),
                ),
            ),
            is_g1(r@),
    {
        let a_i = Scalar::from_bigint_bytes(
            crate::aggregated_bls::h1(self.party_index, pk_vec).as_slice(),
        );
        let exp = a_i.mul(&self.sk_i);
        let h_0_m = G1Point::hash_to_curve(message);
        h_0_m.mul(&exp)
    }

    /// Combines the parties' local signatures by summation.
    pub fn combine_local_signatures(sigs: &Vec<SIG>) -> (r: BLSSignature)
        requires
            sigs@.len() >= 1,
        ensures
            r.sigma@ == g1_sum(g1_views(sigs@)),
            is_g1(r.sigma@),
    {
        let ghost views = g1_views(sigs@);
        let mut acc: G1Point = sigs[0].clone();
        let mut j: usize = 1;
        proof {
            assert(views.subrange(0, 1).len() == 1);
            assert(views.subrange(0, 1)[0] == views[0]);
        }
        while j < sigs.len()
            invariant
                1 <= j <= sigs@.len(),
                views == g1_views(sigs@),
                acc@ == g1_sum(views.subrange(0, j as int)),
            decreases sigs@.len() - j,
        {
            acc = acc.add(&sigs[j]);
            proof {
                assert(views.subrange(0, j + 1).drop_last() =~= views.subrange(0, j as int));
                assert(views.subrange(0, j + 1).last() == views[j as int]);
            }
            j += 1;
        }
        proof {
            use_type_invariant(&acc);
            assert(views.subrange(0, views.len() as int) =~= views);
        }
        BLSSignature { sigma: acc }
    }

    /// Checks a combined signature under the aggregated key.
    pub fn verify(signature: &BLSSignature, message: &[u8], apk: &APK) -> (r: bool)
        ensures
            r == bls_pair_check_n(hash_to_g1_n(message@), apk@, signature.sigma@),
    {
        signature.verify(message, apk)
    }

    /// Sums a batch of combined signatures, one per message.
    pub fn batch_aggregate_bls(sig_vec: &Vec<BLSSignature>) -> (r: BLSSignature)
        requires
            sig_vec@.len() >= 1,
        ensures
            r.sigma@ == g1_sum(sig_vec@.map_values(|s: BLSSignature| s.sigma@)),
            is_g1(r.sigma@),
    {
        let mut sigmas: Vec<G1Point> = Vec::new();
        let mut j: usize = 0;
        while j < sig_vec.len()
            invariant
                j <= sig_vec@.len(),
                sigmas@.len() == j,
                forall|i: int| 0 <= i < j ==> (#[trigger] sigmas@[i])@ == sig_vec@[i].sigma@,
            decreases sig_vec@.len() - j,
        {
            sigmas.push(sig_vec[j].sigma.clone());
            j += 1;
        }
        let r = Self::combine_local_signatures(&sigmas);
        proof {
            assert(g1_views(sigmas@) =~= sig_vec@.map_values(|s: BLSSignature| s.sigma@));
        }
        r
    }

    /// The pairing-product check over the whole batch.
    fn core_aggregate_verify(
        apk_vec: &Vec<APK>,
        msg_vec: &Vec<Vec<u8>>,
        sig: &BLSSignature,
    ) -> (r: bool)
        requires
            apk_vec@.len() >= 1,
            apk_vec@.len() == msg_vec@.len(),
        ensures
            r == agg_pair_check_n(
                msg_vec@.map_values(|m: Vec<u8>| hash_to_g1_n(m@)),
                g2_views(apk_vec@),
                sig.sigma@,
            ),
    {
        let mut hashes: Vec<G1Point> = Vec::new();
        let mut j: usize = 0;
        while j < msg_vec.len()
            invariant
                j <= msg_vec@.len(),
                hashes@.len() == j,
                forall|i: int| 0 <= i < j ==> (#[trigger] hashes@[i])@ == hash_to_g1_n(
                    msg_vec@[i]@,
                ),
            decreases msg_vec@.len() - j,
        {
            hashes.push(G1Point::hash_to_curve(msg_vec[j].as_slice()));
            j += 1;
        }
        let r = agg_pair_check(&hashes, apk_vec, &sig.sigma);
        proof {
            assert(g1_views(hashes@) =~= msg_vec@.map_values(|m: Vec<u8>| hash_to_g1_n(m@)));
        }
        r
    }

    /// Batch verification: fails outright when two messages of the batch
    /// coincide, and otherwise compares the pairing product with the
    /// signature's pairing.
    pub fn aggregate_verify(
        apk_vec: &Vec<APK>,
        msg_vec: &Vec<Vec<u8>>,
        sig: &BLSSignature,
    ) -> (r: bool)
        requires
            apk_vec@.len() == msg_vec@.len(),
            apk_vec@.len() >= 1,
        ensures
            r == (!has_duplicate(msg_vec@.map_values(|m: Vec<u8>| m@)) && agg_pair_check_n(
                msg_vec@.map_values(|m: Vec<u8>| hash_to_g1_n(m@)),
                g2_views(apk_vec@),
                sig.sigma@,
            )),
            has_duplicate(msg_vec@.map_values(|m: Vec<u8>| m@)) ==> r == false,
    {
        let ghost mviews = msg_vec@.map_values(|m: Vec<u8>| m@);
        let mut a: usize = 0;
        while a < msg_vec.len()
            invariant
                a <= msg_vec@.len(),
                mviews == msg_vec@.map_values(|m: Vec<u8>| m@),
                forall|i: int, j: int| 0 <= i < j < mviews.len() && i < a ==> mviews[i]
                    != mviews[j],
            decreases msg_vec@.len() - a,
        {
            let mut b: usize = a + 1;
            while b < msg_vec.len()
                invariant
                    a < b <= msg_vec@.len() || (a + 1 == b && b >= msg_vec@.len()),
                    a < msg_vec@.len(),
                    mviews == msg_vec@.map_values(|m: Vec<u8>| m@),
                    forall|j: int| a < j < b ==> mviews[a as int] != mviews[j],
                decreases msg_vec@.len() - b,
            {
                if crate::encoding::bytes_eq(msg_vec[a].as_slice(), msg_vec[b].as_slice()) {
                    proof {
                        assert(mviews[a as int] == msg_vec@[a as int]@);
                        assert(mviews[b as int] == msg_vec@[b as int]@);
                        assert(0 <= a < b < mviews.len() && mviews[a as int] == mviews[b as int]);
                        assert(has_duplicate(mviews));
                    }
                    return false;
                }
                b += 1;
            }
            a += 1;
        }
        proof {
            assert(!has_duplicate(mviews));
        }
        Self::core_aggregate_verify(apk_vec, msg_vec, sig)
    }
}

} // verus!
