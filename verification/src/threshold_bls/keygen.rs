//! The five-round distributed key generation state machine: commitments,
//! decommitments, Feldman dealing over point-to-point channels, and proofs of
//! knowledge of the final shares.  The machine buffers each round's messages
//! and advances only when a round's store is complete.
use vstd::prelude::*;

use crate::curve::{g2_gen_bytes, g2_mul_n, g2_views, is_g2, scalar_wf, G2Point, Scalar};
use crate::dlog::{dlog_verify_n, DLogProof};
use crate::stores::{
    bstore_accepts, bstore_full, bstore_refusal, bstore_wf, pstore_accepts, pstore_full,
    pstore_refusal, pstore_wf, BroadcastStore, Msg, P2PStore, StoreErr,
};
use crate::threshold_bls::party_i::{
    all_decoms_match, all_shares_ok, dealt_ok, decom_matches, g2_sum, share_ok, shared_keys_wf,
    KeyGenComm, KeyGenDecom, Keys, SharedKeys,
};
use crate::vss::{vss_scheme_wf, ShamirSecretSharing, VssScheme};

verus! {

/// Errors of a round transition: all fatal, blaming the responsible check.
#[derive(Debug)]
pub enum ProceedError {
    Round2VerifyCommitments(crate::Error),
    Round3VerifyVssConstruct(crate::Error),
    Round4VerifyDLogProof(crate::Error),
}

/// Errors of the key generation state machine.
#[derive(Debug)]
pub enum Error {
    /// Fewer than two parties.
    TooFewParties,
    /// `t` outside `[1, n-1]`.
    InvalidThreshold,
    /// `i` outside `[1, n]`.
    InvalidPartyIndex,
    /// A round transition failed.
    ProceedRound(ProceedError),
    /// A received message failed the store's checks.
    HandleMessage(StoreErr),
    /// A message of a round whose store was already consumed.
    ReceivedOutOfOrderMessage { current_round: u16, msg_round: u16 },
    /// The output was already picked.
    DoublePickResult,
}

/// The wire message of one keygen round.
pub enum M {
    Round1(KeyGenComm),
    Round2(KeyGenDecom),
    Round3((VssScheme, Scalar)),
    Round4(DLogProof),
}

/// Structural validity of a received message body.  Group elements and
/// scalars are valid by their types; a dealt scheme must carry one
/// commitment per polynomial coefficient.
pub open spec fn msg_wf(m: &M) -> bool {
    match m {
        M::Round1(_) => true,
        M::Round2(_) => true,
        M::Round3(pair) => vss_scheme_wf(&pair.0),
        M::Round4(_) => true,
    }
}

/// Run-time check of the structural validity `handle_incoming` expects of a
/// decoded body; transports test it before delivery.
pub fn msg_body_valid(m: &M) -> (r: bool)
    ensures
        r == msg_wf(m),
{
    match m {
        M::Round3(pair) => pair.0.commitments.len() == pair.0.parameters.threshold as usize + 1,
        _ => true,
    }
}

pub struct Round0 {
    pub party_i: u16,
    pub t: u16,
    pub n: u16,
}

pub struct Round1 {
    pub keys: Keys,
    pub comm: KeyGenComm,
    pub decom: KeyGenDecom,
    pub party_i: u16,
    pub t: u16,
    pub n: u16,
}

pub struct Round2 {
    pub keys: Keys,
    pub received_comm: Vec<KeyGenComm>,
    pub decom: KeyGenDecom,
    pub party_i: u16,
    pub t: u16,
    pub n: u16,
}

pub struct Round3 {
    pub keys: Keys,
    pub y_vec: Vec<G2Point>,
    pub index: u16,
    pub own_vss: VssScheme,
    pub own_share: Scalar,
    pub dealt_shares: Ghost<Seq<Scalar>>,
    pub party_i: u16,
    pub t: u16,
    pub n: u16,
}

pub struct Round4 {
    pub shared_keys: SharedKeys,
    pub own_dlog_proof: DLogProof,
    pub party_i: u16,
    pub t: u16,
    pub n: u16,
}

pub open spec fn params_ok(i: u16, t: u16, n: u16) -> bool {
    2 <= n && 1 <= t < n && 1 <= i <= n
}

pub open spec fn round1_wf(r: &Round1) -> bool {
    &&& params_ok(r.party_i, r.t, r.n)
    &&& r.keys.party_index == r.party_i - 1
    &&& r.decom.y_i@ == r.keys.y_i@
}

pub open spec fn round2_wf(r: &Round2) -> bool {
    &&& params_ok(r.party_i, r.t, r.n)
    &&& r.keys.party_index == r.party_i - 1
    &&& r.decom.y_i@ == r.keys.y_i@
    &&& r.received_comm@.len() == r.n
}

pub open spec fn round3_wf(r: &Round3) -> bool {
    &&& params_ok(r.party_i, r.t, r.n)
    &&& r.keys.party_index == r.party_i - 1
    &&& r.index == r.party_i - 1
    &&& r.y_vec@.len() == r.n
    &&& vss_scheme_wf(&r.own_vss)
}

pub open spec fn round4_wf(r: &Round4) -> bool {
    &&& params_ok(r.party_i, r.t, r.n)
    &&& shared_keys_wf(&r.shared_keys)
    &&& r.shared_keys.index == r.party_i - 1
    &&& r.shared_keys.params == ShamirSecretSharing { threshold: r.t, share_count: r.n }
}

impl Round0 {
    /// Creates the party's DKG key and broadcasts the commitment to it.
    pub fn proceed(self, output: &mut Vec<Msg<M>>) -> (r: Result<Round1, ProceedError>)
        requires
            params_ok(self.party_i, self.t, self.n),
        ensures
            old(output)@.len() <= final(output)@.len(),
            final(output)@.subrange(0, old(output)@.len() as int) == old(output)@,
            r matches Ok(r1) ==> {
                &&& round1_wf(&r1)
                &&& r1.party_i == self.party_i && r1.t == self.t && r1.n == self.n
                &&& final(output)@.len() == old(output)@.len() + 1
                &&& final(output)@.subrange(0, old(output)@.len() as int) == old(output)@
                &&& final(output)@.last().sender == self.party_i
                &&& final(output)@.last().receiver is None
                &&& final(output)@.last().body matches M::Round1(c) && c.com@ == r1.comm.com@
            },
            r is Ok,
    {
        let keys = Keys::phase1_create(self.party_i - 1);
        let (comm, decom) = keys.phase1_broadcast();
        let body_comm = comm.clone();
        output.push(Msg { sender: self.party_i, receiver: None, body: M::Round1(body_comm) });
        proof {
            assert(final(output)@.subrange(0, old(output)@.len() as int) =~= old(output)@);
        }
        Ok(Round1 { keys, comm, decom, party_i: self.party_i, t: self.t, n: self.n })
    }

    pub fn is_expensive(&self) -> (r: bool)
        ensures
            r == true,
    {
        true
    }
}

impl Round1 {
    /// Collects everyone's commitments and broadcasts the decommitment.
    pub fn proceed(
        self,
        input: BroadcastStore<KeyGenComm>,
        output: &mut Vec<Msg<M>>,
    ) -> (r: Result<Round2, ProceedError>)
        requires
            round1_wf(&self),
            bstore_wf(&input),
            bstore_full(&input),
            input.party_i == self.party_i,
            input.parties_n == self.n,
        ensures
            old(output)@.len() <= final(output)@.len(),
            final(output)@.subrange(0, old(output)@.len() as int) == old(output)@,
            r matches Ok(r2) ==> {
                &&& round2_wf(&r2)
                &&& r2.party_i == self.party_i && r2.t == self.t && r2.n == self.n
                &&& r2.keys == self.keys
                &&& r2.decom.y_i@ == self.decom.y_i@
                &&& r2.decom.blind_factor@ == self.decom.blind_factor@
                &&& r2.received_comm@[r2.party_i - 1].com@ == self.comm.com@
                &&& final(output)@.len() == old(output)@.len() + 1
                &&& final(output)@.subrange(0, old(output)@.len() as int) == old(output)@
                &&& final(output)@.last().sender == self.party_i
                &&& final(output)@.last().receiver is None
                &&& final(output)@.last().body matches M::Round2(d) && d.y_i@ == self.decom.y_i@
                    && d.blind_factor@ == self.decom.blind_factor@
            },
            r is Ok,
    {
        let body_decom = self.decom.clone();
        output.push(Msg { sender: self.party_i, receiver: None, body: M::Round2(body_decom) });
        let received_comm = input.into_vec_including_me(self.comm);
        proof {
            assert(final(output)@.subrange(0, old(output)@.len() as int) =~= old(output)@);
        }
        Ok(Round2 {
            keys: self.keys,
            received_comm,
            decom: self.decom,
            party_i: self.party_i,
            t: self.t,
            n: self.n,
        })
    }

    pub fn is_expensive(&self) -> (r: bool)
        ensures
            r == false,
    {
        false
    }

    pub fn expects_messages(i: u16, n: u16) -> (r: BroadcastStore<KeyGenComm>)
        requires
            1 <= i <= n,
        ensures
            bstore_wf(&r),
            r.party_i == i,
            r.parties_n == n,
            forall|j: int| 0 <= j < r.slots@.len() ==> r.slots@[j] is None,
    {
        BroadcastStore::new(i, n)
    }
}

/// The `k`-th fanned-out message of round 2: addressed to the `k`-th other
/// party in ascending order, carrying the dealt scheme and that party's share.
pub open spec fn fanout_msg_ok(
    m: Msg<M>,
    k: int,
    i: u16,
    scheme: &VssScheme,
    shares: Seq<Scalar>,
) -> bool {
    let rcv: int = if k < i - 1 {
        k + 1
    } else {
        k + 2
    };
    &&& m.sender == i
    &&& m.receiver == Some(rcv as u16)
    &&& m.body matches M::Round3(pair) && g2_views(pair.0.commitments@) == g2_views(
        scheme.commitments@,
    ) && pair.0.parameters == scheme.parameters && pair.1@ == shares[rcv - 1]@
}

/// The decommitments round 2 works on: every other party's received opening,
/// with the local party's own merged in at its slot.
pub open spec fn merged_decoms(
    input: &BroadcastStore<KeyGenDecom>,
    own: &KeyGenDecom,
    i: u16,
    n: u16,
) -> Seq<KeyGenDecom> {
    Seq::new(
        n as nat,
        |j: int|
            if j == i - 1 {
                *own
            } else {
                input.slots@[j]->Some_0
            },
    )
}

/// The dealings round 3 works on: every other party's received scheme and
/// share, with the local party's own merged in at its slot.
pub open spec fn merged_deals(
    input: &P2PStore<(VssScheme, Scalar)>,
    own: &(VssScheme, Scalar),
    i: u16,
    n: u16,
) -> Seq<(VssScheme, Scalar)> {
    Seq::new(
        n as nat,
        |j: int|
            if j == i - 1 {
                *own
            } else {
                input.slots@[j]->Some_0
            },
    )
}

/// The proofs round 4 works on: every other party's received proof of
/// knowledge, with the local party's own merged in at its slot.
pub open spec fn merged_proofs(
    input: &BroadcastStore<DLogProof>,
    own: &DLogProof,
    i: u16,
    n: u16,
) -> Seq<DLogProof> {
    Seq::new(
        n as nat,
        |j: int|
            if j == i - 1 {
                *own
            } else {
                input.slots@[j]->Some_0
            },
    )
}

/// The shape of the point-to-point fan-out of round 2: one message per other
/// party `j`, in ascending order, carrying the dealt scheme and `j`'s share.
pub open spec fn fanout_ok(
    appended: Seq<Msg<M>>,
    i: u16,
    n: u16,
    scheme: &VssScheme,
    shares: Seq<Scalar>,
) -> bool {
    &&& appended.len() == n - 1
    &&& forall|k: int|
        0 <= k < appended.len() ==> fanout_msg_ok(#[trigger] appended[k], k, i, scheme, shares)
}

impl Round2 {
    /// Opens all commitments; on success deals this party's secret and sends
    /// each other party its share together with the polynomial commitments.
    pub fn proceed(
        self,
        input: BroadcastStore<KeyGenDecom>,
        output: &mut Vec<Msg<M>>,
    ) -> (r: Result<Round3, ProceedError>)
        requires
            round2_wf(&self),
            bstore_wf(&input),
            bstore_full(&input),
            input.party_i == self.party_i,
            input.parties_n == self.n,
        ensures
            old(output)@.len() <= final(output)@.len(),
            final(output)@.subrange(0, old(output)@.len() as int) == old(output)@,
            r is Err <==> !all_decoms_match(
                merged_decoms(&input, &self.decom, self.party_i, self.n),
                self.received_comm@,
            ),
            r is Err ==> final(output)@ == old(output)@,
            r matches Err(e) ==> e matches ProceedError::Round2VerifyCommitments(c) && (c
                matches crate::Error::KeyGenBadCommitment { party } && 1 <= party <= self.n && ({
                let merged = merged_decoms(&input, &self.decom, self.party_i, self.n);
                !decom_matches(
                    self.received_comm@[party - 1].com@,
                    merged[party - 1].y_i@,
                    merged[party - 1].blind_factor@,
                    (party - 1) as nat,
                )
            })),
            r matches Ok(r3) ==> {
                &&& round3_wf(&r3)
                &&& r3.party_i == self.party_i && r3.t == self.t && r3.n == self.n
                &&& r3.keys == self.keys
                &&& dealt_ok(&r3.own_vss, r3.dealt_shares@, self.t, self.n, self.keys.u_i@)
                &&& r3.own_share@ == r3.dealt_shares@[r3.party_i - 1]@
                &&& final(output)@.len() == old(output)@.len() + (self.n - 1)
                &&& final(output)@.subrange(0, old(output)@.len() as int) == old(output)@
                &&& fanout_ok(
                    final(output)@.subrange(
                        old(output)@.len() as int,
                        final(output)@.len() as int,
                    ),
                    self.party_i,
                    self.n,
                    &r3.own_vss,
                    r3.dealt_shares@,
                )
            },
    {
        let params = ShamirSecretSharing { threshold: self.t, share_count: self.n };
        let ghost ginput = input;
        let own_decom = self.decom.clone();
        let received_decom = input.into_vec_including_me(own_decom);
        proof {
            let merged = merged_decoms(&ginput, &self.decom, self.party_i, self.n);
            assert forall|j: int| 0 <= j < merged.len() implies merged[j].y_i@
                == received_decom@[j].y_i@ && merged[j].blind_factor@
                == received_decom@[j].blind_factor@ by {}
            assert(all_decoms_match(merged, self.received_comm@) == all_decoms_match(
                received_decom@,
                self.received_comm@,
            )) by {
                if all_decoms_match(merged, self.received_comm@) {
                    assert forall|j: int| 0 <= j < received_decom@.len() implies decom_matches(
                        self.received_comm@[j].com@,
                        (#[trigger] received_decom@[j]).y_i@,
                        received_decom@[j].blind_factor@,
                        j as nat,
                    ) by {
                        assert(decom_matches(
                            self.received_comm@[j].com@,
                            merged[j].y_i@,
                            merged[j].blind_factor@,
                            j as nat,
                        ));
                    };
                }
                if all_decoms_match(received_decom@, self.received_comm@) {
                    assert forall|j: int| 0 <= j < merged.len() implies decom_matches(
                        self.received_comm@[j].com@,
                        (#[trigger] merged[j]).y_i@,
                        merged[j].blind_factor@,
                        j as nat,
                    ) by {
                        assert(decom_matches(
                            self.received_comm@[j].com@,
                            received_decom@[j].y_i@,
                            received_decom@[j].blind_factor@,
                            j as nat,
                        ));
                    };
                }
            };
        }
        let vss_result = self.keys.phase1_verify_com_phase2_distribute(
            &params,
            &received_decom,
            &self.received_comm,
        );
        let (vss_scheme, secret_shares, index) = match vss_result {
            Ok(v) => v,
            Err(e) => {
                proof {
                    assert(final(output)@ =~= old(output)@);
                }
                return Err(ProceedError::Round2VerifyCommitments(e));
            },
        };
        let ghost base = output@.len() as int;
        let ghost gshares = secret_shares@;
        let mut j: usize = 0;
        while j < secret_shares.len()
            invariant
                j <= secret_shares@.len(),
                secret_shares@ == gshares,
                secret_shares@.len() == self.n,
                params_ok(self.party_i, self.t, self.n),
                dealt_ok(&vss_scheme, gshares, self.t, self.n, self.keys.u_i@),
                output@.len() == base + (if j < self.party_i { j as int } else { j - 1 }),
                output@.subrange(0, base) == old(output)@,
                base == old(output)@.len(),
                forall|k: int|
                    0 <= k < output@.len() - base ==> fanout_msg_ok(
                        #[trigger] output@[base + k],
                        k,
                        self.party_i,
                        &vss_scheme,
                        gshares,
                    ),
            decreases secret_shares@.len() - j,
        {
            if j + 1 != self.party_i as usize {
                let pair_scheme = vss_scheme.clone();
                let share = secret_shares[j].clone();
                let ghost prev = output@;
                output.push(
                    Msg {
                        sender: self.party_i,
                        receiver: Some(j as u16 + 1),
                        body: M::Round3((pair_scheme, share)),
                    },
                );
                proof {
                    assert(output@.subrange(0, base) =~= old(output)@);
                    let cnt: int = prev.len() - base;
                    assert(forall|k: int|
                        0 <= k < cnt ==> #[trigger] output@[base + k] == prev[base + k]);
                    let rcv: int = if cnt < self.party_i - 1 {
                        cnt + 1
                    } else {
                        cnt + 2
                    };
                    assert(rcv == j + 1);
                    assert(g2_views(pair_scheme.commitments@) =~= g2_views(
                        vss_scheme.commitments@,
                    ));
                    assert(fanout_msg_ok(
                        output@[base + cnt],
                        cnt,
                        self.party_i,
                        &vss_scheme,
                        gshares,
                    ));
                }
            }
            j += 1;
        }
        let own_share = secret_shares[self.party_i as usize - 1].clone();
        let mut y_vec: Vec<G2Point> = Vec::new();
        let mut k: usize = 0;
        let ghost gdecoms = received_decom@;
        while k < received_decom.len()
            invariant
                k <= received_decom@.len(),
                received_decom@ == gdecoms,
                y_vec@.len() == k,
                forall|q: int| 0 <= q < k ==> (#[trigger] y_vec@[q])@ == gdecoms[q].y_i@,
            decreases received_decom@.len() - k,
        {
            y_vec.push(received_decom[k].y_i.clone());
            k += 1;
        }
        proof {
            let appended = output@.subrange(base, output@.len() as int);
            assert(appended.len() == self.n - 1);
            assert(forall|k: int|
                0 <= k < appended.len() ==> #[trigger] appended[k] == output@[base + k]);
            assert(fanout_ok(appended, self.party_i, self.n, &vss_scheme, gshares));
            assert(output@.subrange(0, base) =~= old(output)@);
            assert(dealt_ok(&vss_scheme, gshares, self.t, self.n, self.keys.u_i@));
            assert(own_share@ == gshares[self.party_i - 1]@);
            assert(output@.len() == old(output)@.len() + (self.n - 1));
        }
        Ok(Round3 {
            keys: self.keys,
            y_vec,
            index,
            own_vss: vss_scheme,
            own_share,
            dealt_shares: Ghost(gshares),
            party_i: self.party_i,
            t: self.t,
            n: self.n,
        })
    }

    pub fn is_expensive(&self) -> (r: bool)
        ensures
            r == true,
    {
        true
    }

    pub fn expects_messages(i: u16, n: u16) -> (r: BroadcastStore<KeyGenDecom>)
        requires
            1 <= i <= n,
        ensures
            bstore_wf(&r),
            r.party_i == i,
            r.parties_n == n,
            forall|j: int| 0 <= j < r.slots@.len() ==> r.slots@[j] is None,
    {
        BroadcastStore::new(i, n)
    }
}

impl Round3 {
    /// Validates every received share, builds the shared key pair and
    /// broadcasts the proof of knowledge of the share.
    pub fn proceed(
        self,
        input: P2PStore<(VssScheme, Scalar)>,
        output: &mut Vec<Msg<M>>,
    ) -> (r: Result<Round4, ProceedError>)
        requires
            round3_wf(&self),
            pstore_wf(&input),
            pstore_full(&input),
            input.party_i == self.party_i,
            input.parties_n == self.n,
            forall|j: int|
                0 <= j < input.slots@.len() ==> ((#[trigger] input.slots@[j]) matches Some(pair)
                    ==> vss_scheme_wf(&pair.0)),
        ensures
            old(output)@.len() <= final(output)@.len(),
            final(output)@.subrange(0, old(output)@.len() as int) == old(output)@,
            ({
                let deals = merged_deals(
                    &input,
                    &(self.own_vss, self.own_share),
                    self.party_i,
                    self.n,
                );
                r is Err <==> !(forall|j: int|
                    0 <= j < deals.len() ==> share_ok(
                        &(#[trigger] deals[j]).0,
                        deals[j].1@,
                        self.y_vec@[j]@,
                        self.party_i,
                    ))
            }),
            r is Err ==> final(output)@ == old(output)@,
            r matches Err(e) ==> e matches ProceedError::Round3VerifyVssConstruct(c) && c
                == crate::Error::KeyGenInvalidShare,
            r matches Ok(r4) ==> {
                &&& round4_wf(&r4)
                &&& r4.party_i == self.party_i && r4.t == self.t && r4.n == self.n
                &&& r4.shared_keys.index == self.party_i - 1
                &&& r4.shared_keys.params == ShamirSecretSharing {
                    threshold: self.t,
                    share_count: self.n,
                }
                &&& r4.shared_keys.vk@ == g2_sum(g2_views(self.y_vec@))
                &&& r4.own_dlog_proof.pk@ == g2_mul_n(g2_gen_bytes(), r4.shared_keys.sk_i@)
                &&& dlog_verify_n(
                    r4.own_dlog_proof.pk@,
                    r4.own_dlog_proof.pk_t_rand_commitment@,
                    r4.own_dlog_proof.challenge_response@,
                )
                &&& final(output)@.len() == old(output)@.len() + 1
                &&& final(output)@.subrange(0, old(output)@.len() as int) == old(output)@
                &&& final(output)@.last().sender == self.party_i
                &&& final(output)@.last().receiver is None
                &&& final(output)@.last().body matches M::Round4(p) && p.pk@
                    == r4.own_dlog_proof.pk@ && p.pk_t_rand_commitment@
                    == r4.own_dlog_proof.pk_t_rand_commitment@ && p.challenge_response@
                    == r4.own_dlog_proof.challenge_response@
            },
    {
        let params = ShamirSecretSharing { threshold: self.t, share_count: self.n };
        let pairs = input.into_vec_including_me((self.own_vss, self.own_share));
        let mut vss_schemes: Vec<VssScheme> = Vec::new();
        let mut party_shares: Vec<Scalar> = Vec::new();
        let mut k: usize = 0;
        let ghost gpairs = pairs@;
        while k < pairs.len()
            invariant
                k <= pairs@.len(),
                pairs@ == gpairs,
                forall|j: int| 0 <= j < gpairs.len() ==> vss_scheme_wf(&gpairs[j].0),
                vss_schemes@.len() == k,
                party_shares@.len() == k,
                forall|j: int|
                    0 <= j < k ==> g2_views((#[trigger] vss_schemes@[j]).commitments@)
                        == g2_views(gpairs[j].0.commitments@) && vss_schemes@[j].parameters
                        == gpairs[j].0.parameters,
                forall|j: int| 0 <= j < k ==> (#[trigger] party_shares@[j])@ == gpairs[j].1@,
                forall|j: int| 0 <= j < k ==> vss_scheme_wf(&(#[trigger] vss_schemes@[j])),
            decreases pairs@.len() - k,
        {
            let pair = &pairs[k];
            vss_schemes.push(pair.0.clone());
            party_shares.push(pair.1.clone());
            proof {
                let c = vss_schemes@[k as int];
                let o = gpairs[k as int].0;
                assert(g2_views(c.commitments@) =~= g2_views(o.commitments@));
                assert(forall|q: int|
                    0 <= q < c.commitments@.len() ==> (#[trigger] c.commitments@[q])@
                        == o.commitments@[q]@);
                assert(vss_scheme_wf(&c));
            }
            k += 1;
        }
        proof {
            let deals = merged_deals(&input, &(self.own_vss, self.own_share), self.party_i, self.n);
            assert(gpairs =~= deals);
            assert(all_shares_ok(vss_schemes@, party_shares@, self.y_vec@, (self.index + 1) as u16)
                == (forall|j: int|
                0 <= j < deals.len() ==> share_ok(
                    &(#[trigger] deals[j]).0,
                    deals[j].1@,
                    self.y_vec@[j]@,
                    self.party_i,
                ))) by {
                if all_shares_ok(vss_schemes@, party_shares@, self.y_vec@, (self.index + 1) as u16) {
                    assert forall|j: int| 0 <= j < deals.len() implies share_ok(
                        &(#[trigger] deals[j]).0,
                        deals[j].1@,
                        self.y_vec@[j]@,
                        self.party_i,
                    ) by {
                        assert((self.index + 1) as u16 == self.party_i);
                        assert(share_ok(
                            &vss_schemes@[j],
                            party_shares@[j]@,
                            self.y_vec@[j]@,
                            (self.index + 1) as u16,
                        ));
                        assert(g2_views(vss_schemes@[j].commitments@) == g2_views(
                            deals[j].0.commitments@,
                        ));
                        assert(vss_scheme_wf(&vss_schemes@[j]));
                        assert(g2_views(vss_schemes@[j].commitments@)[0] == vss_schemes@[
                            j
                        ].commitments@[0]@);
                        assert(g2_views(deals[j].0.commitments@)[0] == deals[
                            j
                        ].0.commitments@[0]@);
                        assert(party_shares@[j]@ == deals[j].1@);
                    };
                } else {
                    let bad = choose|j: int|
                        0 <= j < vss_schemes@.len() && !share_ok(
                            &(#[trigger] vss_schemes@[j]),
                            party_shares@[j]@,
                            self.y_vec@[j]@,
                            (self.index + 1) as u16,
                        );
                    assert(g2_views(vss_schemes@[bad].commitments@) == g2_views(
                        deals[bad].0.commitments@,
                    ));
                    assert((self.index + 1) as u16 == self.party_i);
                    assert(vss_scheme_wf(&vss_schemes@[bad]));
                    assert(g2_views(vss_schemes@[bad].commitments@)[0] == vss_schemes@[
                        bad
                    ].commitments@[0]@);
                    assert(g2_views(deals[bad].0.commitments@)[0] == deals[
                        bad
                    ].0.commitments@[0]@);
                    assert(party_shares@[bad]@ == deals[bad].1@);
                    assert(!share_ok(
                        &deals[bad].0,
                        deals[bad].1@,
                        self.y_vec@[bad]@,
                        self.party_i,
                    ));
                }
            };
        }
        let result = self.keys.phase2_verify_vss_construct_keypair_prove_dlog(
            &params,
            &self.y_vec,
            &party_shares,
            &vss_schemes,
            self.index + 1,
        );
        let (shared_keys, dlog_proof) = match result {
            Ok(v) => v,
            Err(e) => {
                proof {
                    assert(final(output)@ =~= old(output)@);
                }
                return Err(ProceedError::Round3VerifyVssConstruct(e));
            },
        };
        let body_proof = dlog_proof.clone();
        output.push(Msg { sender: self.party_i, receiver: None, body: M::Round4(body_proof) });
        proof {
            assert(final(output)@.subrange(0, old(output)@.len() as int) =~= old(output)@);
        }
        Ok(Round4 {
            shared_keys,
            own_dlog_proof: dlog_proof,
            party_i: self.party_i,
            t: self.t,
            n: self.n,
        })
    }

    pub fn is_expensive(&self) -> (r: bool)
        ensures
            r == true,
    {
        true
    }

    pub fn expects_messages(i: u16, n: u16) -> (r: P2PStore<(VssScheme, Scalar)>)
        requires
            1 <= i <= n,
        ensures
            pstore_wf(&r),
            r.party_i == i,
            r.parties_n == n,
            forall|j: int| 0 <= j < r.slots@.len() ==> r.slots@[j] is None,
    {
        P2PStore::new(i, n)
    }
}

impl Round4 {
    /// Verifies everyone's proof of knowledge and emits the local key.
    pub fn proceed(self, input: BroadcastStore<DLogProof>) -> (r: Result<LocalKey, ProceedError>)
        requires
            round4_wf(&self),
            bstore_wf(&input),
            bstore_full(&input),
            input.party_i == self.party_i,
            input.parties_n == self.n,
        ensures
            ({
                let proofs = merged_proofs(&input, &self.own_dlog_proof, self.party_i, self.n);
                r is Ok <==> forall|j: int|
                    0 <= j < proofs.len() ==> dlog_verify_n(
                        (#[trigger] proofs[j]).pk@,
                        proofs[j].pk_t_rand_commitment@,
                        proofs[j].challenge_response@,
                    )
            }),
            r matches Err(e) ==> e matches ProceedError::Round4VerifyDLogProof(c) && c
                == crate::Error::KeyGenDlogProofError,
            r matches Ok(key) ==> {
                let proofs = merged_proofs(&input, &self.own_dlog_proof, self.party_i, self.n);
                &&& localkey_wf(&key)
                &&& key.i == self.party_i && key.t == self.t && key.n == self.n
                &&& key.shared_keys.vk@ == self.shared_keys.vk@
                &&& key.shared_keys.sk_i@ == self.shared_keys.sk_i@
                &&& key.vk_vec@[key.i - 1]@ == self.own_dlog_proof.pk@
                &&& forall|j: int|
                    0 <= j < key.vk_vec@.len() ==> (#[trigger] key.vk_vec@[j])@ == proofs[j].pk@
                &&& forall|j: int|
                    0 <= j < key.vk_vec@.len() ==> dlog_verify_n_at(key.vk_vec@[j]@)
            },
    {
        let params = ShamirSecretSharing { threshold: self.t, share_count: self.n };
        let ghost gown = self.own_dlog_proof;
        let dlog_proofs = input.into_vec_including_me(self.own_dlog_proof);
        proof {
            assert(dlog_proofs@ =~= merged_proofs(&input, &gown, self.party_i, self.n));
        }
        match Keys::verify_dlog_proofs(&params, &dlog_proofs) {
            Ok(_) => {},
            Err(e) => {
                return Err(ProceedError::Round4VerifyDLogProof(e));
            },
        }
        let mut vk_vec: Vec<G2Point> = Vec::new();
        let mut k: usize = 0;
        let ghost gproofs = dlog_proofs@;
        while k < dlog_proofs.len()
            invariant
                k <= gproofs.len(),
                dlog_proofs@ == gproofs,
                forall|j: int|
                    0 <= j < gproofs.len() ==> dlog_verify_n(
                        gproofs[j].pk@,
                        gproofs[j].pk_t_rand_commitment@,
                        gproofs[j].challenge_response@,
                    ),
                vk_vec@.len() == k,
                forall|j: int| 0 <= j < k ==> (#[trigger] vk_vec@[j])@ == gproofs[j].pk@,
                forall|j: int| 0 <= j < k ==> (#[trigger] vk_vec@[j])@.len() == 96,
                forall|j: int| 0 <= j < k ==> dlog_verify_n_at((#[trigger] vk_vec@[j])@),
            decreases gproofs.len() - k,
        {
            proof {
                assert(dlog_verify_n(
                    gproofs[k as int].pk@,
                    gproofs[k as int].pk_t_rand_commitment@,
                    gproofs[k as int].challenge_response@,
                ));
            }
            let pk_copy = dlog_proofs[k].pk.clone();
            proof {
                use_type_invariant(&pk_copy);
            }
            vk_vec.push(pk_copy);
            k += 1;
        }
        Ok(LocalKey {
            shared_keys: self.shared_keys,
            vk_vec,
            i: self.party_i,
            t: self.t,
            n: self.n,
        })
    }

    pub fn is_expensive(&self) -> (r: bool)
        ensures
            r == true,
    {
        true
    }

    pub fn expects_messages(i: u16, n: u16) -> (r: BroadcastStore<DLogProof>)
        requires
            1 <= i <= n,
        ensures
            bstore_wf(&r),
            r.party_i == i,
            r.parties_n == n,
            forall|j: int| 0 <= j < r.slots@.len() ==> r.slots@[j] is None,
    {
        BroadcastStore::new(i, n)
    }
}

/// Witnesses that some accepted proof of knowledge stands behind this
/// verification key.
pub open spec fn dlog_verify_n_at(pk: Seq<u8>) -> bool {
    exists|a: Seq<u8>, z: Seq<u8>| dlog_verify_n(pk, a, z)
}

/// A party's durable output of key generation.
pub struct LocalKey {
    pub shared_keys: SharedKeys,
    pub vk_vec: Vec<G2Point>,
    pub i: u16,
    pub t: u16,
    pub n: u16,
}

pub open spec fn localkey_wf(k: &LocalKey) -> bool {
    &&& params_ok(k.i, k.t, k.n)
    &&& k.shared_keys.index == k.i - 1
    &&& k.shared_keys.params == ShamirSecretSharing { threshold: k.t, share_count: k.n }
    &&& shared_keys_wf(&k.shared_keys)
    &&& k.vk_vec@.len() == k.n
    &&& forall|j: int| 0 <= j < k.vk_vec@.len() ==> (#[trigger] k.vk_vec@[j]@).len() == 96
}

impl Clone for LocalKey {
    fn clone(&self) -> (r: Self)
        ensures
            r.shared_keys.index == self.shared_keys.index,
            r.shared_keys.params == self.shared_keys.params,
            r.shared_keys.vk@ == self.shared_keys.vk@,
            r.shared_keys.sk_i@ == self.shared_keys.sk_i@,
            r.vk_vec@.len() == self.vk_vec@.len(),
            forall|j: int| 0 <= j < self.vk_vec@.len() ==> r.vk_vec@[j]@ == self.vk_vec@[j]@,
            r.i == self.i && r.t == self.t && r.n == self.n,
            localkey_wf(self) ==> localkey_wf(&r),
    {
        LocalKey {
            shared_keys: self.shared_keys.clone(),
            vk_vec: crate::vss::clone_g2_vec(&self.vk_vec),
            i: self.i,
            t: self.t,
            n: self.n,
        }
    }
}

impl LocalKey {
    /// Public key of the secret shared between the parties.
    pub fn public_key(&self) -> (r: G2Point)
        ensures
            r@ == self.shared_keys.vk@,
    {
        self.shared_keys.vk.clone()
    }
}


/// The phase of the state machine, holding the current round's working set.
pub enum R {
    Round0(Round0),
    Round1(Round1),
    Round2(Round2),
    Round3(Round3),
    Round4(Round4),
    Final(LocalKey),
    Gone,
}

pub open spec fn round_rank(r: &R) -> int {
    match r {
        R::Round0(_) => 0,
        R::Round1(_) => 1,
        R::Round2(_) => 2,
        R::Round3(_) => 3,
        R::Round4(_) => 4,
        R::Final(_) => 5,
        R::Gone => 6,
    }
}

pub open spec fn round_index_spec(r: &R) -> u16 {
    match r {
        R::Round0(_) => 0,
        R::Round1(_) => 1,
        R::Round2(_) => 2,
        R::Round3(_) => 3,
        R::Round4(_) => 4,
        R::Final(_) => 5,
        R::Gone => 5,
    }
}

/// The key generation state machine of one party.
pub struct Keygen {
    pub round: R,
    pub msgs1: Option<BroadcastStore<KeyGenComm>>,
    pub msgs2: Option<BroadcastStore<KeyGenDecom>>,
    pub msgs3: Option<P2PStore<(VssScheme, Scalar)>>,
    pub msgs4: Option<BroadcastStore<DLogProof>>,
    pub msgs_queue: Vec<Msg<M>>,
    pub party_i: u16,
    pub party_n: u16,
}

pub open spec fn keygen_round_ok(m: &Keygen) -> bool {
    match &m.round {
        R::Round0(r) => r.party_i == m.party_i && r.n == m.party_n && params_ok(
            r.party_i,
            r.t,
            r.n,
        ),
        R::Round1(r) => r.party_i == m.party_i && r.n == m.party_n && round1_wf(r),
        R::Round2(r) => r.party_i == m.party_i && r.n == m.party_n && round2_wf(r),
        R::Round3(r) => r.party_i == m.party_i && r.n == m.party_n && round3_wf(r),
        R::Round4(r) => r.party_i == m.party_i && r.n == m.party_n && round4_wf(r),
        R::Final(k) => k.i == m.party_i && k.n == m.party_n && localkey_wf(k),
        R::Gone => true,
    }
}

pub open spec fn keygen_stores_ok(m: &Keygen) -> bool {
    &&& (round_rank(&m.round) <= 1 ==> m.msgs1 is Some)
    &&& (round_rank(&m.round) <= 2 ==> m.msgs2 is Some)
    &&& (round_rank(&m.round) <= 3 ==> m.msgs3 is Some)
    &&& (round_rank(&m.round) <= 4 ==> m.msgs4 is Some)
    &&& (m.msgs1 matches Some(s) ==> bstore_wf(&s) && s.party_i == m.party_i && s.parties_n
        == m.party_n)
    &&& (m.msgs2 matches Some(s) ==> bstore_wf(&s) && s.party_i == m.party_i && s.parties_n
        == m.party_n)
    &&& (m.msgs3 matches Some(s) ==> pstore_wf(&s) && s.party_i == m.party_i && s.parties_n
        == m.party_n && forall|j: int|
        0 <= j < s.slots@.len() ==> ((#[trigger] s.slots@[j]) matches Some(pair)
            ==> vss_scheme_wf(&pair.0)))
    &&& (m.msgs4 matches Some(s) ==> bstore_wf(&s) && s.party_i == m.party_i && s.parties_n
        == m.party_n)
    &&& (2 <= round_rank(&m.round) <= 5 ==> m.msgs1 is None)
    &&& (3 <= round_rank(&m.round) <= 5 ==> m.msgs2 is None)
    &&& (4 <= round_rank(&m.round) <= 5 ==> m.msgs3 is None)
    &&& (5 <= round_rank(&m.round) <= 5 ==> m.msgs4 is None)
}

pub open spec fn keygen_wf(m: &Keygen) -> bool {
    &&& 2 <= m.party_n
    &&& 1 <= m.party_i <= m.party_n
    &&& keygen_round_ok(m)
    &&& keygen_stores_ok(m)
}

/// Whether a call to `proceed` would advance the current round.
pub open spec fn wants_spec(m: &Keygen) -> bool {
    match &m.round {
        R::Round0(_) => true,
        R::Round1(_) => m.msgs1 matches Some(s) && bstore_full(&s),
        R::Round2(_) => m.msgs2 matches Some(s) && bstore_full(&s),
        R::Round3(_) => m.msgs3 matches Some(s) && pstore_full(&s),
        R::Round4(_) => m.msgs4 matches Some(s) && bstore_full(&s),
        R::Final(_) => false,
        R::Gone => false,
    }
}

impl Keygen {
    /// Constructs a party of the keygen protocol.  `i` identifies this party
    /// in `[1, n]`; `t` is the threshold in `[1, n-1]`.
    pub fn new(i: u16, t: u16, n: u16) -> (r: Result<Keygen, Error>)
        ensures
            n < 2 <==> r == Err::<Keygen, Error>(Error::TooFewParties),
            (n >= 2 && (t == 0 || t >= n)) <==> r == Err::<Keygen, Error>(
                Error::InvalidThreshold,
            ),
            (n >= 2 && 1 <= t < n && (i == 0 || i > n)) <==> r == Err::<Keygen, Error>(
                Error::InvalidPartyIndex,
            ),
            r matches Ok(m) ==> {
                &&& keygen_wf(&m)
                &&& m.party_i == i
                &&& m.party_n == n
                &&& m.round is Round0
                &&& m.msgs_queue@.len() == 0
            },
            params_ok(i, t, n) <==> r is Ok,
    {
        if n < 2 {
            return Err(Error::TooFewParties);
        }
        if t == 0 || t >= n {
            return Err(Error::InvalidThreshold);
        }
        if i == 0 || i > n {
            return Err(Error::InvalidPartyIndex);
        }
        let mut state = Keygen {
            round: R::Round0(Round0 { party_i: i, t, n }),
            msgs1: Some(Round1::expects_messages(i, n)),
            msgs2: Some(Round2::expects_messages(i, n)),
            msgs3: Some(Round3::expects_messages(i, n)),
            msgs4: Some(Round4::expects_messages(i, n)),
            msgs_queue: Vec::new(),
            party_i: i,
            party_n: n,
        };
        match state.proceed_round(false) {
            Ok(_) => {},
            Err(e) => {
                return Err(e);
            },
        }
        Ok(state)
    }

    /// Advances as many rounds as possible: a round runs when its input store
    /// is full and it is either cheap or `may_block` allows expensive work.
    /// A failed transition is fatal and leaves the machine spent.
    pub fn proceed_round(&mut self, may_block: bool) -> (r: Result<(), Error>)
        requires
            keygen_wf(&*old(self)),
        ensures
            keygen_wf(&*final(self)),
            final(self).party_i == old(self).party_i,
            final(self).party_n == old(self).party_n,
            round_rank(&final(self).round) >= round_rank(&old(self).round),
            old(self).msgs_queue@.len() <= final(self).msgs_queue@.len(),
            final(self).msgs_queue@.subrange(0, old(self).msgs_queue@.len() as int) == old(
                self,
            ).msgs_queue@,
            r matches Err(e) ==> (e is ProceedRound && final(self).round is Gone),
            !may_block && old(self).round is Round0 ==> *final(self) == *old(self) && r is Ok,
            !may_block ==> r is Ok,
            !may_block ==> final(self).msgs2 == old(self).msgs2 && final(self).msgs3 == old(
                self,
            ).msgs3 && final(self).msgs4 == old(self).msgs4,
            !may_block ==> (final(self).msgs1 == old(self).msgs1 || final(self).msgs1 is None),
            may_block && r is Ok ==> !wants_spec(&*final(self)),
            r is Ok && !wants_spec(&*old(self)) ==> *final(self) == *old(self),
    {
        loop
            invariant
                keygen_wf(&*self),
                self.party_i == old(self).party_i,
                self.party_n == old(self).party_n,
                round_rank(&self.round) >= round_rank(&old(self).round),
                old(self).msgs_queue@.len() <= self.msgs_queue@.len(),
                self.msgs_queue@.subrange(0, old(self).msgs_queue@.len() as int) == old(
                    self,
                ).msgs_queue@,
                !may_block && old(self).round is Round0 ==> *self == *old(self),
                !may_block ==> self.msgs2 == old(self).msgs2 && self.msgs3 == old(self).msgs3
                    && self.msgs4 == old(self).msgs4,
                !may_block ==> (self.msgs1 == old(self).msgs1 || self.msgs1 is None),
                !wants_spec(&*old(self)) ==> *self == *old(self),
            decreases 7 - round_rank(&self.round),
        {
            let ghost prev = *self;
            let ghost prevq = self.msgs_queue@;
            let mut cur = R::Gone;
            core::mem::swap(&mut cur, &mut self.round);
            match cur {
                R::Round0(r0) => {
                    if may_block {
                        match r0.proceed(&mut self.msgs_queue) {
                            Ok(r1) => {
                                self.round = R::Round1(r1);
                                proof {
                                    assert(self.msgs_queue@.subrange(
                                        0,
                                        old(self).msgs_queue@.len() as int,
                                    ) =~= old(self).msgs_queue@);
                                }
                            },
                            Err(e) => {
                                proof {
                                    assert(self.msgs_queue@.subrange(
                                        0,
                                        old(self).msgs_queue@.len() as int,
                                    ) =~= old(self).msgs_queue@);
                                }
                                return Err(Error::ProceedRound(e));
                            },
                        }
                    } else {
                        self.round = R::Round0(r0);
                        return Ok(());
                    }
                },
                R::Round1(r1) => {
                    let full = match &self.msgs1 {
                        Some(s) => !s.wants_more(),
                        None => false,
                    };
                    if full {
                        let mut taken: Option<BroadcastStore<KeyGenComm>> = None;
                        core::mem::swap(&mut taken, &mut self.msgs1);
                        let store = taken.unwrap();
                        match r1.proceed(store, &mut self.msgs_queue) {
                            Ok(r2) => {
                                self.round = R::Round2(r2);
                                proof {
                                    assert(self.msgs_queue@.subrange(
                                        0,
                                        old(self).msgs_queue@.len() as int,
                                    ) =~= old(self).msgs_queue@);
                                }
                            },
                            Err(e) => {
                                proof {
                                    assert(self.msgs_queue@.subrange(
                                        0,
                                        old(self).msgs_queue@.len() as int,
                                    ) =~= old(self).msgs_queue@);
                                }
                                return Err(Error::ProceedRound(e));
                            },
                        }
                    } else {
                        self.round = R::Round1(r1);
                        return Ok(());
                    }
                },
                R::Round2(r2) => {
                    let full = match &self.msgs2 {
                        Some(s) => !s.wants_more(),
                        None => false,
                    };
                    if full && may_block {
                        let mut taken: Option<BroadcastStore<KeyGenDecom>> = None;
                        core::mem::swap(&mut taken, &mut self.msgs2);
                        let store = taken.unwrap();
                        match r2.proceed(store, &mut self.msgs_queue) {
                            Ok(r3) => {
                                self.round = R::Round3(r3);
                                proof {
                                    assert(self.msgs_queue@.subrange(
                                        0,
                                        old(self).msgs_queue@.len() as int,
                                    ) =~= old(self).msgs_queue@);
                                }
                            },
                            Err(e) => {
                                proof {
                                    assert(self.msgs_queue@.subrange(
                                        0,
                                        old(self).msgs_queue@.len() as int,
                                    ) =~= old(self).msgs_queue@);
                                }
                                return Err(Error::ProceedRound(e));
                            },
                        }
                    } else {
                        self.round = R::Round2(r2);
                        return Ok(());
                    }
                },
                R::Round3(r3) => {
                    let full = match &self.msgs3 {
                        Some(s) => !s.wants_more(),
                        None => false,
                    };
                    if full && may_block {
                        let mut taken: Option<P2PStore<(VssScheme, Scalar)>> = None;
                        core::mem::swap(&mut taken, &mut self.msgs3);
                        let store = taken.unwrap();
                        match r3.proceed(store, &mut self.msgs_queue) {
                            Ok(r4) => {
                                self.round = R::Round4(r4);
                                proof {
                                    assert(self.msgs_queue@.subrange(
                                        0,
                                        old(self).msgs_queue@.len() as int,
                                    ) =~= old(self).msgs_queue@);
                                }
                            },
                            Err(e) => {
                                proof {
                                    assert(self.msgs_queue@.subrange(
                                        0,
                                        old(self).msgs_queue@.len() as int,
                                    ) =~= old(self).msgs_queue@);
                                }
                                return Err(Error::ProceedRound(e));
                            },
                        }
                    } else {
                        self.round = R::Round3(r3);
                        return Ok(());
                    }
                },
                R::Round4(r4) => {
                    let full = match &self.msgs4 {
                        Some(s) => !s.wants_more(),
                        None => false,
                    };
                    if full && may_block {
                        let mut taken: Option<BroadcastStore<DLogProof>> = None;
                        core::mem::swap(&mut taken, &mut self.msgs4);
                        let store = taken.unwrap();
                        match r4.proceed(store) {
                            Ok(key) => {
                                self.round = R::Final(key);
                            },
                            Err(e) => {
                                proof {
                                    assert(self.msgs_queue@.subrange(
                                        0,
                                        old(self).msgs_queue@.len() as int,
                                    ) =~= old(self).msgs_queue@);
                                }
                                return Err(Error::ProceedRound(e));
                            },
                        }
                    } else {
                        self.round = R::Round4(r4);
                        return Ok(());
                    }
                },
                R::Final(key) => {
                    self.round = R::Final(key);
                    return Ok(());
                },
                R::Gone => {
                    self.round = R::Gone;
                    return Ok(());
                },
            }
        }
    }

    /// Buffers a received message into its round's store; a message for an
    /// already-consumed round is out of order.  Cheap rounds may advance.
    pub fn handle_incoming(&mut self, msg: Msg<M>) -> (r: Result<(), Error>)
        requires
            keygen_wf(&*old(self)),
            msg_wf(&msg.body),
        ensures
            keygen_wf(&*final(self)),
            final(self).party_i == old(self).party_i,
            final(self).party_n == old(self).party_n,
            round_rank(&final(self).round) >= round_rank(&old(self).round),
            final(self).msgs_queue@.subrange(0, old(self).msgs_queue@.len() as int) == old(
                self,
            ).msgs_queue@,
            old(self).msgs_queue@.len() <= final(self).msgs_queue@.len(),
            msg.body is Round1 ==> ((old(self).msgs1 is None) <==> r == Err::<(), Error>(
                Error::ReceivedOutOfOrderMessage {
                    current_round: round_index_spec(&old(self).round),
                    msg_round: 1,
                },
            )),
            msg.body is Round2 ==> ((old(self).msgs2 is None) <==> r == Err::<(), Error>(
                Error::ReceivedOutOfOrderMessage {
                    current_round: round_index_spec(&old(self).round),
                    msg_round: 2,
                },
            )),
            msg.body is Round3 ==> ((old(self).msgs3 is None) <==> r == Err::<(), Error>(
                Error::ReceivedOutOfOrderMessage {
                    current_round: round_index_spec(&old(self).round),
                    msg_round: 3,
                },
            )),
            msg.body is Round4 ==> ((old(self).msgs4 is None) <==> r == Err::<(), Error>(
                Error::ReceivedOutOfOrderMessage {
                    current_round: round_index_spec(&old(self).round),
                    msg_round: 4,
                },
            )),
            msg.body matches M::Round1(b) ==> (old(self).msgs1 matches Some(st) ==> {
                &&& bstore_accepts(&st, msg.sender, msg.receiver) ==> r is Ok && ((
                final(self).msgs1 matches Some(s2) && s2.slots@ == st.slots@.update(
                    msg.sender - 1,
                    Some(b),
                )) || final(self).msgs1 is None)
                &&& !bstore_accepts(&st, msg.sender, msg.receiver) ==> r == Err::<(), Error>(
                    Error::HandleMessage(bstore_refusal(&st, msg.sender, msg.receiver)),
                )
            }),
            msg.body matches M::Round2(b) ==> (old(self).msgs2 matches Some(st) ==> {
                &&& bstore_accepts(&st, msg.sender, msg.receiver) ==> r is Ok && (
                final(self).msgs2 matches Some(s2) && s2.slots@ == st.slots@.update(
                    msg.sender - 1,
                    Some(b),
                ))
                &&& !bstore_accepts(&st, msg.sender, msg.receiver) ==> r == Err::<(), Error>(
                    Error::HandleMessage(bstore_refusal(&st, msg.sender, msg.receiver)),
                )
            }),
            msg.body matches M::Round3(b) ==> (old(self).msgs3 matches Some(st) ==> {
                &&& pstore_accepts(&st, msg.sender, msg.receiver) ==> r is Ok && (
                final(self).msgs3 matches Some(s2) && s2.slots@ == st.slots@.update(
                    msg.sender - 1,
                    Some(b),
                ))
                &&& !pstore_accepts(&st, msg.sender, msg.receiver) ==> r == Err::<(), Error>(
                    Error::HandleMessage(pstore_refusal(&st, msg.sender, msg.receiver)),
                )
            }),
            msg.body matches M::Round4(b) ==> (old(self).msgs4 matches Some(st) ==> {
                &&& bstore_accepts(&st, msg.sender, msg.receiver) ==> r is Ok && (
                final(self).msgs4 matches Some(s2) && s2.slots@ == st.slots@.update(
                    msg.sender - 1,
                    Some(b),
                ))
                &&& !bstore_accepts(&st, msg.sender, msg.receiver) ==> r == Err::<(), Error>(
                    Error::HandleMessage(bstore_refusal(&st, msg.sender, msg.receiver)),
                )
            }),
            r is Err ==> *final(self) == *old(self),
            r matches Err(e) ==> (e is ReceivedOutOfOrderMessage || e is HandleMessage),
    {
        let current_round = self.current_round();
        let sender = msg.sender;
        let receiver = msg.receiver;
        match msg.body {
            M::Round1(body) => {
                match &mut self.msgs1 {
                    None => {
                        return Err(Error::ReceivedOutOfOrderMessage {
                            current_round,
                            msg_round: 1,
                        });
                    },
                    Some(store) => {
                        match store.push_msg(Msg { sender, receiver, body }) {
                            Ok(_) => {},
                            Err(e) => {
                                return Err(Error::HandleMessage(e));
                            },
                        }
                    },
                }
                self.proceed_round(false)
            },
            M::Round2(body) => {
                match &mut self.msgs2 {
                    None => {
                        return Err(Error::ReceivedOutOfOrderMessage {
                            current_round,
                            msg_round: 2,
                        });
                    },
                    Some(store) => {
                        match store.push_msg(Msg { sender, receiver, body }) {
                            Ok(_) => {},
                            Err(e) => {
                                return Err(Error::HandleMessage(e));
                            },
                        }
                    },
                }
                self.proceed_round(false)
            },
            M::Round3(body) => {
                match &mut self.msgs3 {
                    None => {
                        return Err(Error::ReceivedOutOfOrderMessage {
                            current_round,
                            msg_round: 3,
                        });
                    },
                    Some(store) => {
                        match store.push_msg(Msg { sender, receiver, body }) {
                            Ok(_) => {},
                            Err(e) => {
                                return Err(Error::HandleMessage(e));
                            },
                        }
                    },
                }
                self.proceed_round(false)
            },
            M::Round4(body) => {
                match &mut self.msgs4 {
                    None => {
                        return Err(Error::ReceivedOutOfOrderMessage {
                            current_round,
                            msg_round: 4,
                        });
                    },
                    Some(store) => {
                        match store.push_msg(Msg { sender, receiver, body }) {
                            Ok(_) => {},
                            Err(e) => {
                                return Err(Error::HandleMessage(e));
                            },
                        }
                    },
                }
                self.proceed_round(false)
            },
        }
    }

    /// The outbound queue, to be drained by the transport.
    pub fn message_queue(&mut self) -> (r: &mut Vec<Msg<M>>)
        ensures
            *r == old(self).msgs_queue,
            final(self).msgs_queue == *final(r),
            final(self).round == old(self).round,
            final(self).msgs1 == old(self).msgs1,
            final(self).msgs2 == old(self).msgs2,
            final(self).msgs3 == old(self).msgs3,
            final(self).msgs4 == old(self).msgs4,
            final(self).party_i == old(self).party_i,
            final(self).party_n == old(self).party_n,
    {
        &mut self.msgs_queue
    }

    /// Whether a call to `proceed` would do work now.
    pub fn wants_to_proceed(&self) -> (r: bool)
        requires
            keygen_wf(self),
        ensures
            r == wants_spec(self),
    {
        match &self.round {
            R::Round0(_) => true,
            R::Round1(_) => {
                match &self.msgs1 {
                    Some(s) => !s.wants_more(),
                    None => false,
                }
            },
            R::Round2(_) => {
                match &self.msgs2 {
                    Some(s) => !s.wants_more(),
                    None => false,
                }
            },
            R::Round3(_) => {
                match &self.msgs3 {
                    Some(s) => !s.wants_more(),
                    None => false,
                }
            },
            R::Round4(_) => {
                match &self.msgs4 {
                    Some(s) => !s.wants_more(),
                    None => false,
                }
            },
            R::Final(_) => false,
            R::Gone => false,
        }
    }

    /// Performs all pending work, expensive rounds included.
    pub fn proceed(&mut self) -> (r: Result<(), Error>)
        requires
            keygen_wf(&*old(self)),
        ensures
            keygen_wf(&*final(self)),
            final(self).party_i == old(self).party_i,
            final(self).party_n == old(self).party_n,
            round_rank(&final(self).round) >= round_rank(&old(self).round),
            old(self).msgs_queue@.len() <= final(self).msgs_queue@.len(),
            final(self).msgs_queue@.subrange(0, old(self).msgs_queue@.len() as int) == old(
                self,
            ).msgs_queue@,
            r matches Err(e) ==> (e is ProceedRound && final(self).round is Gone),
            r is Ok ==> !wants_spec(&*final(self)),
    {
        self.proceed_round(true)
    }

    /// Whether the machine reached its terminal round.
    pub fn is_finished(&self) -> (r: bool)
        ensures
            r == (self.round is Final),
    {
        matches!(self.round, R::Final(_))
    }

    /// Takes the output out of a finished machine; a second call reports
    /// `DoublePickResult`.
    pub fn pick_output(&mut self) -> (r: Option<Result<LocalKey, Error>>)
        requires
            keygen_wf(&*old(self)),
        ensures
            keygen_wf(&*final(self)),
            final(self).party_i == old(self).party_i,
            final(self).party_n == old(self).party_n,
            old(self).round is Final ==> (r matches Some(out) && out matches Ok(k) && old(
                self,
            ).round == R::Final(k) && final(self).round is Gone),
            old(self).round is Gone ==> r == Some(Err::<LocalKey, Error>(
                Error::DoublePickResult,
            )) && final(self).round is Gone,
            !(old(self).round is Final || old(self).round is Gone) ==> r is None && *final(self)
                == *old(self),
    {
        match &self.round {
            R::Final(_) => {},
            R::Gone => {
                return Some(Err(Error::DoublePickResult));
            },
            _ => {
                return None;
            },
        }
        let mut cur = R::Gone;
        core::mem::swap(&mut cur, &mut self.round);
        match cur {
            R::Final(k) => Some(Ok(k)),
            _ => None,
        }
    }

    /// The index of the round the machine currently waits on; 5 when done.
    pub fn current_round(&self) -> (r: u16)
        ensures
            r == round_index_spec(&self.round),
    {
        match &self.round {
            R::Round0(_) => 0,
            R::Round1(_) => 1,
            R::Round2(_) => 2,
            R::Round3(_) => 3,
            R::Round4(_) => 4,
            R::Final(_) => 5,
            R::Gone => 5,
        }
    }

    /// The protocol exchanges four rounds of messages.
    pub fn total_rounds(&self) -> (r: Option<u16>)
        ensures
            r == Some(4u16),
    {
        Some(4)
    }

    pub fn party_ind(&self) -> (r: u16)
        ensures
            r == self.party_i,
    {
        self.party_i
    }

    pub fn parties(&self) -> (r: u16)
        ensures
            r == self.party_n,
    {
        self.party_n
    }
}


/// Construction errors of [`LocalKey::new`].
#[derive(Debug)]
pub enum InvalidLocalKey {
    ThresholdNotInRange { t: u16, n: u16 },
    TooFewParties { n: u16 },
    VkDoesntIncludeSk,
}

/// Concatenation of a list of encoded points.
pub open spec fn points_bytes(vs: Seq<Seq<u8>>) -> Seq<u8>
    decreases vs.len(),
{
    if vs.len() == 0 {
        Seq::empty()
    } else {
        points_bytes(vs.drop_last()) + vs.last()
    }
}

pub proof fn lemma_points_bytes_len(vs: Seq<Seq<u8>>)
    requires
        forall|j: int| 0 <= j < vs.len() ==> (#[trigger] vs[j]).len() == 96,
    ensures
        points_bytes(vs).len() == 96 * vs.len(),
    decreases vs.len(),
{
    if vs.len() > 0 {
        lemma_points_bytes_len(vs.drop_last());
    }
}

pub proof fn lemma_points_bytes_injective(a: Seq<Seq<u8>>, b: Seq<Seq<u8>>)
    requires
        a.len() == b.len(),
        forall|j: int| 0 <= j < a.len() ==> (#[trigger] a[j]).len() == 96,
        forall|j: int| 0 <= j < b.len() ==> (#[trigger] b[j]).len() == 96,
        points_bytes(a) == points_bytes(b),
    ensures
        a == b,
    decreases a.len(),
{
    if a.len() > 0 {
        let pa = points_bytes(a.drop_last());
        let pb = points_bytes(b.drop_last());
        lemma_points_bytes_len(a.drop_last());
        lemma_points_bytes_len(b.drop_last());
        assert(pa =~= points_bytes(a).subrange(0, pa.len() as int));
        assert(pb =~= points_bytes(b).subrange(0, pb.len() as int));
        assert(a.last() =~= points_bytes(a).subrange(
            pa.len() as int,
            points_bytes(a).len() as int,
        ));
        assert(b.last() =~= points_bytes(b).subrange(
            pb.len() as int,
            points_bytes(b).len() as int,
        ));
        lemma_points_bytes_injective(a.drop_last(), b.drop_last());
        assert forall|i: int| 0 <= i < a.len() implies a[i] == b[i] by {
            if i < a.len() - 1 {
                assert(a[i] == a.drop_last()[i]);
                assert(b[i] == b.drop_last()[i]);
            } else {
                assert(a[i] == a.last());
                assert(b[i] == b.last());
            }
        };
        assert(a =~= b);
    } else {
        assert(a =~= b);
    }
}

/// Each element of the list is its own 96-byte window of the concatenation.
pub proof fn lemma_points_bytes_index(vs: Seq<Seq<u8>>, j: int)
    requires
        forall|q: int| 0 <= q < vs.len() ==> (#[trigger] vs[q]).len() == 96,
        0 <= j < vs.len(),
    ensures
        vs[j] == points_bytes(vs).subrange(96 * j, 96 * j + 96),
    decreases vs.len(),
{
    lemma_points_bytes_len(vs);
    lemma_points_bytes_len(vs.drop_last());
    if j == vs.len() - 1 {
        assert(vs[j] =~= points_bytes(vs).subrange(96 * j, 96 * j + 96));
    } else {
        lemma_points_bytes_index(vs.drop_last(), j);
        assert(points_bytes(vs.drop_last()) =~= points_bytes(vs).subrange(
            0,
            points_bytes(vs.drop_last()).len() as int,
        ));
        assert(vs[j] == vs.drop_last()[j]);
        assert(points_bytes(vs.drop_last()).subrange(96 * j, 96 * j + 96) =~= points_bytes(
            vs,
        ).subrange(96 * j, 96 * j + 96));
    }
}

/// Two big-endian bytes of a 16-bit integer.
pub open spec fn u16_be2(x: u16) -> Seq<u8> {
    seq![(x / 256) as u8, (x % 256) as u8]
}

/// The persisted form of a local key: `i`, `t`, `n` as two bytes each, then
/// the 32-byte secret share, the 96-byte group key, and the `n` verification
/// keys of 96 bytes each.
pub open spec fn localkey_bytes(k: &LocalKey) -> Seq<u8> {
    u16_be2(k.i) + u16_be2(k.t) + u16_be2(k.n) + k.shared_keys.sk_i@ + k.shared_keys.vk@
        + points_bytes(g2_views(k.vk_vec@))
}

/// Reads each fixed-offset component back out of the packed form.
#[verifier::rlimit(100)]
proof fn lemma_localkey_bytes_parts(k: &LocalKey)
    requires
        localkey_wf(k),
    ensures
        localkey_bytes(k)[0] == k.i / 256 && localkey_bytes(k)[1] == k.i % 256,
        localkey_bytes(k)[2] == k.t / 256 && localkey_bytes(k)[3] == k.t % 256,
        localkey_bytes(k)[4] == k.n / 256 && localkey_bytes(k)[5] == k.n % 256,
        k.shared_keys.sk_i@ == localkey_bytes(k).subrange(6, 38),
        k.shared_keys.vk@ == localkey_bytes(k).subrange(38, 134),
        points_bytes(g2_views(k.vk_vec@)) == localkey_bytes(k).subrange(
            134,
            localkey_bytes(k).len() as int,
        ),
{
    let b = localkey_bytes(k);
    lemma_points_bytes_len(g2_views(k.vk_vec@));
    assert(k.shared_keys.sk_i@ =~= b.subrange(6, 38));
    assert(k.shared_keys.vk@ =~= b.subrange(38, 134));
    assert(points_bytes(g2_views(k.vk_vec@)) =~= b.subrange(134, b.len() as int));
}

pub proof fn lemma_localkey_bytes_injective(k1: &LocalKey, k2: &LocalKey)
    requires
        localkey_wf(k1),
        localkey_wf(k2),
        localkey_bytes(k1) == localkey_bytes(k2),
    ensures
        k1.i == k2.i && k1.t == k2.t && k1.n == k2.n,
        k1.shared_keys.sk_i@ == k2.shared_keys.sk_i@,
        k1.shared_keys.vk@ == k2.shared_keys.vk@,
        g2_views(k1.vk_vec@) == g2_views(k2.vk_vec@),
        k1.shared_keys.index == k2.shared_keys.index,
        k1.shared_keys.params == k2.shared_keys.params,
{
    lemma_localkey_bytes_parts(k1);
    lemma_localkey_bytes_parts(k2);
    assert(k1.i == (k1.i / 256) * 256 + k1.i % 256);
    assert(k2.i == (k2.i / 256) * 256 + k2.i % 256);
    assert(k1.t == (k1.t / 256) * 256 + k1.t % 256);
    assert(k2.t == (k2.t / 256) * 256 + k2.t % 256);
    assert(k1.n == (k1.n / 256) * 256 + k1.n % 256);
    assert(k2.n == (k2.n / 256) * 256 + k2.n % 256);
    lemma_points_bytes_injective(g2_views(k1.vk_vec@), g2_views(k2.vk_vec@));
}

/// Whether a byte string is a well-formed persisted key: in-range header
/// fields, the exact total length, and every component window a valid
/// encoding of its kind.
pub open spec fn localkey_bytes_valid(b: Seq<u8>) -> bool {
    &&& b.len() >= 6
    &&& ({
        let i = (b[0] as int) * 256 + b[1];
        let t = (b[2] as int) * 256 + b[3];
        let n = (b[4] as int) * 256 + b[5];
        &&& 2 <= n && 1 <= t < n && 1 <= i <= n
        &&& b.len() == 134 + 96 * n
        &&& scalar_wf(b.subrange(6, 38))
        &&& is_g2(b.subrange(38, 134))
        &&& forall|j: int| 0 <= j < n ==> is_g2(#[trigger] b.subrange(134 + 96 * j, 230 + 96 * j))
    })
}

/// The round-trip law's missing half: a serialized well-formed key is a
/// valid persisted form, so reloading it succeeds; together with
/// `lemma_localkey_bytes_injective`, what comes back equals what was stored.
pub proof fn lemma_localkey_roundtrip(k: &LocalKey)
    requires
        localkey_wf(k),
        scalar_wf(k.shared_keys.sk_i@),
        is_g2(k.shared_keys.vk@),
        forall|j: int| 0 <= j < k.vk_vec@.len() ==> is_g2(#[trigger] k.vk_vec@[j]@),
    ensures
        localkey_bytes_valid(localkey_bytes(k)),
{
    let b = localkey_bytes(k);
    lemma_localkey_bytes_parts(k);
    lemma_points_bytes_len(g2_views(k.vk_vec@));
    assert((b[0] as int) * 256 + b[1] == k.i);
    assert((b[2] as int) * 256 + b[3] == k.t);
    assert((b[4] as int) * 256 + b[5] == k.n);
    assert forall|j: int| 0 <= j < k.n implies is_g2(
        #[trigger] b.subrange(134 + 96 * j, 230 + 96 * j),
    ) by {
        lemma_points_bytes_index(g2_views(k.vk_vec@), j);
        assert(points_bytes(g2_views(k.vk_vec@)).subrange(96 * j, 96 * j + 96) =~= b.subrange(
            134 + 96 * j,
            230 + 96 * j,
        ));
        assert(g2_views(k.vk_vec@)[j] == k.vk_vec@[j]@);
    };
}

impl LocalKey {
    /// Reassembles a local key from its parts: the secret share, the full
    /// verification-key vector, and the group key.  The party's index is
    /// found by locating `g2·sk_i` in the vector.
    pub fn new(
        t: u16,
        n: u16,
        sk_i: Scalar,
        vk_vec: Vec<G2Point>,
        tpk: G2Point,
    ) -> (r: Result<LocalKey, InvalidLocalKey>)
        requires
            vk_vec@.len() == n,
        ensures
            n < 2 <==> r == Err::<LocalKey, InvalidLocalKey>(InvalidLocalKey::TooFewParties {
                n,
            }),
            (n >= 2 && !(1 <= t && t + 1 <= n)) <==> r == Err::<LocalKey, InvalidLocalKey>(
                InvalidLocalKey::ThresholdNotInRange { t, n },
            ),
            (n >= 2 && 1 <= t && t + 1 <= n && (forall|j: int|
                0 <= j < vk_vec@.len() ==> vk_vec@[j]@ != g2_mul_n(g2_gen_bytes(), sk_i@)))
                <==> r == Err::<LocalKey, InvalidLocalKey>(InvalidLocalKey::VkDoesntIncludeSk),
            r is Err ==> (r == Err::<LocalKey, InvalidLocalKey>(InvalidLocalKey::TooFewParties {
                n,
            }) || r == Err::<LocalKey, InvalidLocalKey>(
                InvalidLocalKey::ThresholdNotInRange { t, n },
            ) || r == Err::<LocalKey, InvalidLocalKey>(InvalidLocalKey::VkDoesntIncludeSk)),
            r matches Ok(k) ==> {
                &&& localkey_wf(&k)
                &&& k.t == t && k.n == n
                &&& 1 <= k.i <= n
                &&& vk_vec@[k.i - 1]@ == g2_mul_n(g2_gen_bytes(), sk_i@)
                &&& forall|j: int|
                    0 <= j < k.i - 1 ==> vk_vec@[j]@ != g2_mul_n(g2_gen_bytes(), sk_i@)
                &&& k.shared_keys.vk@ == tpk@
                &&& k.shared_keys.sk_i@ == sk_i@
                &&& g2_views(k.vk_vec@) == g2_views(vk_vec@)
            },
    {
        if n < 2 {
            return Err(InvalidLocalKey::TooFewParties { n });
        }
        if !(1 <= t && t < n) {
            return Err(InvalidLocalKey::ThresholdNotInRange { t, n });
        }
        proof {
            use_type_invariant(&sk_i);
            use_type_invariant(&tpk);
        }
        let mut lq: usize = 0;
        while lq < vk_vec.len()
            invariant
                lq <= vk_vec@.len(),
                forall|p: int| 0 <= p < lq ==> (#[trigger] vk_vec@[p]@).len() == 96,
            decreases vk_vec@.len() - lq,
        {
            let e = &vk_vec[lq];
            proof {
                use_type_invariant(e);
            }
            lq += 1;
        }
        let vk_i = G2Point::generator().mul(&sk_i);
        let mut found: Option<u16> = None;
        let mut j: usize = 0;
        while j < vk_vec.len() && found.is_none()
            invariant
                j <= vk_vec@.len(),
                vk_vec@.len() == n,
                vk_i@ == g2_mul_n(g2_gen_bytes(), sk_i@),
                found is None ==> forall|q: int| 0 <= q < j ==> vk_vec@[q]@ != vk_i@,
                found matches Some(i) ==> 1 <= i <= n && vk_vec@[i - 1]@ == vk_i@ && (forall|
                    q: int,
                |
                    0 <= q < i - 1 ==> vk_vec@[q]@ != vk_i@),
            decreases vk_vec@.len() - j + (if found is None { 1int } else { 0int }),
        {
            if crate::curve::g2_eq(&vk_vec[j], &vk_i) {
                found = Some(j as u16 + 1);
            } else {
                j += 1;
            }
        }
        let i = match found {
            Some(i) => i,
            None => {
                return Err(InvalidLocalKey::VkDoesntIncludeSk);
            },
        };
        Ok(LocalKey {
            shared_keys: SharedKeys {
                index: i - 1,
                params: ShamirSecretSharing { threshold: t, share_count: n },
                vk: tpk,
                sk_i,
            },
            vk_vec,
            i,
            t,
            n,
        })
    }

    /// Checks at run time that the fields form a consistent threshold setup
    /// (the group elements and the scalar are valid by their types).
    /// Unverified callers test this before handing a hand-built key to the
    /// signing machine, whose constructor expects a well-formed key.
    pub fn validate(&self) -> (r: bool)
        ensures
            r == localkey_wf(self),
    {
        proof {
            use_type_invariant(&self.shared_keys.sk_i);
            use_type_invariant(&self.shared_keys.vk);
        }
        let expected = ShamirSecretSharing { threshold: self.t, share_count: self.n };
        let ok = 2 <= self.n && 1 <= self.t && self.t < self.n && 1 <= self.i && self.i <= self.n
            && self.shared_keys.index == self.i - 1 && self.shared_keys.params == expected
            && self.vk_vec.len() == self.n as usize;
        if !ok {
            return false;
        }
        let mut q: usize = 0;
        while q < self.vk_vec.len()
            invariant
                q <= self.vk_vec@.len(),
                forall|p: int| 0 <= p < q ==> (#[trigger] self.vk_vec@[p]@).len() == 96,
            decreases self.vk_vec@.len() - q,
        {
            let e = &self.vk_vec[q];
            proof {
                use_type_invariant(e);
            }
            q += 1;
        }
        true
    }

    /// Serializes the key for persistence.
    pub fn to_bytes(&self) -> (r: Vec<u8>)
        requires
            localkey_wf(self),
        ensures
            r@ == localkey_bytes(self),
    {
        let mut r: Vec<u8> = Vec::new();
        r.push((self.i / 256) as u8);
        r.push((self.i % 256) as u8);
        r.push((self.t / 256) as u8);
        r.push((self.t % 256) as u8);
        r.push((self.n / 256) as u8);
        r.push((self.n % 256) as u8);
        let mut sk = self.shared_keys.sk_i.to_bytes();
        r.append(&mut sk);
        let mut vk = self.shared_keys.vk.to_bytes();
        r.append(&mut vk);
        let ghost views = g2_views(self.vk_vec@);
        let mut j: usize = 0;
        proof {
            assert(r@ =~= u16_be2(self.i) + u16_be2(self.t) + u16_be2(self.n)
                + self.shared_keys.sk_i@ + self.shared_keys.vk@ + points_bytes(
                views.subrange(0, 0),
            ));
        }
        while j < self.vk_vec.len()
            invariant
                j <= self.vk_vec@.len(),
                views == g2_views(self.vk_vec@),
                localkey_wf(self),
                r@ == u16_be2(self.i) + u16_be2(self.t) + u16_be2(self.n)
                    + self.shared_keys.sk_i@ + self.shared_keys.vk@ + points_bytes(
                    views.subrange(0, j as int),
                ),
            decreases self.vk_vec@.len() - j,
        {
            let mut p = self.vk_vec[j].to_bytes();
            r.append(&mut p);
            proof {
                assert(views.subrange(0, j + 1).drop_last() =~= views.subrange(0, j as int));
                assert(views.subrange(0, j + 1).last() == self.vk_vec@[j as int]@);
                assert(r@ =~= u16_be2(self.i) + u16_be2(self.t) + u16_be2(self.n)
                    + self.shared_keys.sk_i@ + self.shared_keys.vk@ + points_bytes(
                    views.subrange(0, j + 1),
                ));
            }
            j += 1;
        }
        proof {
            assert(views.subrange(0, views.len() as int) =~= views);
        }
        r
    }

    /// Restores a key from its persisted bytes.  Every group element is
    /// subgroup-checked and the scalar range-checked on the way in, and the
    /// parameters must describe a consistent threshold setup; any tampering
    /// that breaks these checks is rejected.
    pub fn from_bytes(b: &[u8]) -> (r: Option<LocalKey>)
        ensures
            r is Some <==> localkey_bytes_valid(b@),
            r matches Some(k) ==> localkey_wf(&k) && localkey_bytes(&k) == b@,
    {
        if b.len() < 6 {
            return None;
        }
        let i = b[0] as u16 * 256 + b[1] as u16;
        let t = b[2] as u16 * 256 + b[3] as u16;
        let n = b[4] as u16 * 256 + b[5] as u16;
        if !(2 <= n && 1 <= t && t < n && 1 <= i && i <= n) {
            return None;
        }
        if b.len() != 6 + 32 + 96 + 96 * (n as usize) {
            return None;
        }
        let mut sk_bytes: Vec<u8> = Vec::new();
        let mut p: usize = 6;
        while p < 38
            invariant
                6 <= p <= 38,
                b@.len() >= 134,
                sk_bytes@ =~= b@.subrange(6, p as int),
            decreases 38 - p,
        {
            sk_bytes.push(b[p]);
            p += 1;
        }
        let sk_i = match Scalar::from_bytes(sk_bytes.as_slice()) {
            Some(s) => s,
            None => {
                return None;
            },
        };
        let mut vk_bytes: Vec<u8> = Vec::new();
        let mut p2: usize = 38;
        while p2 < 134
            invariant
                38 <= p2 <= 134,
                b@.len() >= 134,
                vk_bytes@ =~= b@.subrange(38, p2 as int),
            decreases 134 - p2,
        {
            vk_bytes.push(b[p2]);
            p2 += 1;
        }
        let vk = match G2Point::from_bytes(vk_bytes.as_slice()) {
            Some(v) => v,
            None => {
                return None;
            },
        };
        let mut vk_vec: Vec<G2Point> = Vec::new();
        let mut j: usize = 0;
        while j < n as usize
            invariant
                j <= n,
                b@.len() == 134 + 96 * n,
                vk_vec@.len() == j,
                forall|q: int| 0 <= q < j ==> is_g2(vk_vec@[q]@),
                forall|q: int|
                    0 <= q < j ==> vk_vec@[q]@ =~= b@.subrange(134 + 96 * q, 230 + 96 * q),
            decreases n - j,
        {
            let base = 134 + 96 * j;
            let mut pt_bytes: Vec<u8> = Vec::new();
            let mut q: usize = 0;
            while q < 96
                invariant
                    q <= 96,
                    base == 134 + 96 * j,
                    j < n,
                    b@.len() == 134 + 96 * n,
                    pt_bytes@ =~= b@.subrange(base as int, base + q),
                decreases 96 - q,
            {
                pt_bytes.push(b[base + q]);
                q += 1;
            }
            let pt = match G2Point::from_bytes(pt_bytes.as_slice()) {
                Some(v) => v,
                None => {
                    proof {
                        assert(pt_bytes@ =~= b@.subrange(
                            134 + 96 * (j as int),
                            230 + 96 * (j as int),
                        ));
                        assert(!localkey_bytes_valid(b@)) by {
                            if localkey_bytes_valid(b@) {
                                assert(is_g2(b@.subrange(
                                    134 + 96 * (j as int),
                                    230 + 96 * (j as int),
                                )));
                            }
                        };
                    }
                    return None;
                },
            };
            vk_vec.push(pt);
            j += 1;
        }
        proof {
            assert forall|q: int| 0 <= q < n implies is_g2(
                #[trigger] b@.subrange(134 + 96 * q, 230 + 96 * q),
            ) by {
                assert(vk_vec@[q]@ =~= b@.subrange(134 + 96 * q, 230 + 96 * q));
                assert(is_g2(vk_vec@[q]@));
            };
            assert(localkey_bytes_valid(b@));
        }
        let k = LocalKey {
            shared_keys: SharedKeys {
                index: i - 1,
                params: ShamirSecretSharing { threshold: t, share_count: n },
                vk,
                sk_i,
            },
            vk_vec,
            i,
            t,
            n,
        };
        proof {
            let views = g2_views(k.vk_vec@);
            assert(forall|q: int| 0 <= q < views.len() ==> (#[trigger] views[q]).len() == 96);
            lemma_points_bytes_prefix(views, b@, 134);
            assert(localkey_bytes(&k) =~= b@);
        }
        Some(k)
    }
}

/// If every element of `vs` is the matching 96-byte window of `b` from
/// `base` on, then their concatenation is that whole region of `b`.
pub proof fn lemma_points_bytes_prefix(vs: Seq<Seq<u8>>, b: Seq<u8>, base: int)
    requires
        0 <= base,
        base + 96 * vs.len() <= b.len(),
        forall|q: int|
            0 <= q < vs.len() ==> #[trigger] vs[q] == b.subrange(base + 96 * q, base + 96 * q
                + 96),
    ensures
        points_bytes(vs) == b.subrange(base, base + 96 * vs.len()),
    decreases vs.len(),
{
    if vs.len() == 0 {
        assert(points_bytes(vs) =~= b.subrange(base, base));
    } else {
        lemma_points_bytes_prefix(vs.drop_last(), b, base);
        lemma_points_bytes_len(vs.drop_last());
        assert(vs.last() == b.subrange(
            base + 96 * (vs.len() - 1),
            base + 96 * (vs.len() - 1) + 96,
        ));
        assert(points_bytes(vs) =~= b.subrange(base, base + 96 * vs.len()));
    }
}

} // verus!
