//! Multi-signature with public-key aggregation (the BDN18 MSP scheme):
//! per-key coefficients derived by hashing the key against the whole key
//! list, plus batch verification over distinct messages.
#![allow(non_snake_case)]
use vstd::prelude::*;

use crate::curve::{g2_views, G2Point};
use crate::hashing::{hash_g2_points, hash_points_n};

pub mod party_i;

verus! {

/// The BDN18 per-key hash: the digest of `pk_vec[index]` prepended to the
/// whole key list.
pub open spec fn h1_spec(index: int, views: Seq<Seq<u8>>) -> Seq<u8> {
    hash_points_n(seq![views[index]] + views)
}

/// Digest binding the key at `index` to the whole key list, as a big
/// integer's minimal bytes.
pub fn h1(index: usize, pk_vec: &Vec<G2Point>) -> (r: Vec<u8>)
    requires
        index < pk_vec@.len(),
    ensures
        r@ == h1_spec(index as int, g2_views(pk_vec@)),
{
    let mut pts: Vec<G2Point> = Vec::new();
    pts.push(pk_vec[index].clone());
    let mut j: usize = 0;
    while j < pk_vec.len()
        invariant
            j <= pk_vec@.len(),
            index < pk_vec@.len(),
            pts@.len() == j + 1,
            pts@[0]@ == pk_vec@[index as int]@,
            forall|i: int| 1 <= i < j + 1 ==> (#[trigger] pts@[i])@ == pk_vec@[i - 1]@,
        decreases pk_vec@.len() - j,
    {
        pts.push(pk_vec[j].clone());
        j += 1;
    }
    let r = hash_g2_points(&pts);
    proof {
        let lhs = g2_views(pts@);
        let rhs = seq![g2_views(pk_vec@)[index as int]] + g2_views(pk_vec@);
        assert(lhs.len() == rhs.len());
        assert forall|i: int| 0 <= i < lhs.len() implies lhs[i] == rhs[i] by {
            if i == 0 {
                assert(lhs[0] == pts@[0]@);
            } else {
                assert(lhs[i] == pts@[i]@);
                assert(pts@[i]@ == pk_vec@[i - 1]@);
                assert(rhs[i] == g2_views(pk_vec@)[i - 1]);
            }
        };
        assert(lhs =~= rhs);
    }
    r
}

} // verus!
