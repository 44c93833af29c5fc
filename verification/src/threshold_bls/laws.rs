//! Protocol-level laws.  What is provable here from the contracts: honest
//! dealings are always accepted, and both the group key and the combined
//! signature are functions of the exchanged messages alone, so all honest
//! parties agree on them bit-for-bit.
use vstd::prelude::*;

use crate::curve::{g2_gen_bytes, g2_mul_n, g2_views, G2Point, Scalar};
use crate::threshold_bls::party_i::{
    all_shares_ok, combine_sum, dealt_ok, g2_sum, share_ok, PartialSignature,
};
use crate::threshold_bls::sign::lemma_combine_sum_views;
use crate::vss::VssScheme;

verus! {

/// Honest dealings are accepted by every honest receiver: a share produced
/// by the Feldman dealing validates against its commitments, and the first
/// commitment equals the dealer's announced public key, so an all-honest run
/// never aborts with `InvalidShare` in round 3.
pub proof fn lemma_honest_dealings_accepted(
    schemes: Seq<VssScheme>,
    all_shares: Seq<Seq<Scalar>>,
    received: Seq<Scalar>,
    ys: Seq<G2Point>,
    us: Seq<Seq<u8>>,
    t: u16,
    n: u16,
    idx: u16,
)
    requires
        schemes.len() == n,
        all_shares.len() == n,
        received.len() == n,
        ys.len() == n,
        us.len() == n,
        1 <= idx <= n,
        forall|j: int| 0 <= j < n ==> dealt_ok(&schemes[j], #[trigger] all_shares[j], t, n, us[j]),
        forall|j: int| 0 <= j < n ==> (#[trigger] received[j])@ == all_shares[j][idx - 1]@,
        forall|j: int| 0 <= j < n ==> (#[trigger] ys[j])@ == g2_mul_n(g2_gen_bytes(), us[j]),
    ensures
        all_shares_ok(schemes, received, ys, idx),
{
    assert forall|j: int| 0 <= j < n implies share_ok(
        &schemes[j],
        received[j]@,
        ys[j]@,
        idx,
    ) by {
        assert(dealt_ok(&schemes[j], all_shares[j], t, n, us[j]));
        assert(all_shares[j].len() == n);
        assert((idx - 1) + 1 == idx as int);
    };
}

/// All parties agree on the group key: the aggregate `vk` is a function of
/// the broadcast public keys alone, summed in ascending party order, so
/// parties holding the same broadcasts compute bit-identical keys.
pub proof fn lemma_group_key_agreement(ya: Seq<G2Point>, yb: Seq<G2Point>)
    requires
        ya.len() == yb.len(),
        forall|j: int| 0 <= j < ya.len() ==> (#[trigger] ya[j])@ == yb[j]@,
    ensures
        g2_sum(g2_views(ya)) == g2_sum(g2_views(yb)),
{
    assert(g2_views(ya) =~= g2_views(yb));
}

/// All signers produce bit-identical signatures: the combined signature is a
/// function of the collected shares and the signer set alone, both assembled
/// in ascending index order.
pub proof fn lemma_signature_agreement(
    a: Seq<PartialSignature>,
    b: Seq<PartialSignature>,
    s: Seq<u16>,
)
    requires
        a.len() == b.len(),
        forall|p: int| 0 <= p < a.len() ==> (#[trigger] a[p]).index == b[p].index && a[p].sigma_i@
            == b[p].sigma_i@,
    ensures
        combine_sum(a, s) == combine_sum(b, s),
{
    lemma_combine_sum_views(a, b, s);
}

} // verus!
