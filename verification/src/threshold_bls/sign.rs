//! The two-round threshold signing state machine.  Round 0 broadcasts this
//! party's signature share with its keygen-time index; round 1 collects `t`
//! valid shares from others (the store verifies each share's ECDDH proof as
//! it arrives) and combines `t + 1` of them into the full signature.
use vstd::prelude::*;

use crate::basic_bls::BLSSignature;
use crate::curve::{g1_mul_n, g2_views, hash_to_g1_n, is_g1, G1Point, G2Point};
use crate::stores::Msg;
use crate::threshold_bls::keygen::{localkey_wf, LocalKey};
use crate::threshold_bls::party_i::{
    all_partial_sigs_valid, combine_sum, partial_sig_valid, PartialSignature, SharedKeys,
};

verus! {

/// Round-transition errors of the signing protocol.
#[derive(Debug)]
pub enum ProceedError {
    /// A signer claimed a keygen index outside `[1, n]`; `who` is its
    /// position among the signers.  The state machine's store already rejects
    /// such shares at delivery, so combination never raises this there; it
    /// remains for hosts that assemble round inputs themselves.
    PartySentOutOfRangeIndex { who: u16, claimed_index: u16 },
    /// Share verification or combination failed.
    PartialSignatureVerification(crate::Error),
}

/// Errors of the signing state machine.
#[derive(Debug)]
pub enum Error {
    /// A round transition failed.
    ProceedRound(ProceedError),
    /// Fewer than `threshold + 1` signers.
    TooFewParties,
    /// More signers than parties holding a key.
    TooManyParties,
    /// `i` outside `[1, n]`.
    InvalidPartyIndex,
    /// A received message failed the store's checks.
    HandleMessage(ReceivedPartialSigNotValid),
    /// A message of a round whose store was already consumed.
    ReceivedOutOfOrderMessage { current_round: u16, msg_round: u16 },
    /// The output was already picked.
    DoublePickResult,
}

/// Why the round-1 store refused a share.
#[derive(Copy, Clone, PartialEq, Eq, Structural, Debug)]
pub enum ReceivedPartialSigNotValid {
    /// Expected a broadcast, received a point-to-point message.
    ExpectedBroadcast,
    /// The same sender delivered twice.
    MsgOverwrite,
    /// The same signature share arrived twice.
    ShareOverwrite,
    /// The claimed keygen index is out of range.
    PartyOriginalIndexOutOfRange { i: u16, n: u16 },
    /// The share's proof did not verify, or it contradicts its claimed index.
    InvalidPartialSig,
    /// The store was asked to finish before `t` shares arrived.
    NotEnoughMsgs,
    /// The store already holds the `t` shares it wanted.
    TooManyMsgs,
    /// The local party's own broadcast came back.
    ReceivedMyOwnShare,
}

/// The wire message of the signing protocol's single exchanged round.
pub enum M {
    Round1((u16, PartialSignature)),
}

/// Wrapper hiding the message structure from the wire.
pub struct ProtocolMessage(pub M);

pub struct Round0 {
    pub key: LocalKey,
    pub message: Vec<u8>,
    pub i: u16,
    pub n: u16,
}

pub struct Round1 {
    pub key: LocalKey,
    pub message: G1Point,
    pub partial_sig: PartialSignature,
    pub i: u16,
    pub n: u16,
}

/// Signing-run parameters: `n` signers out of the `key.n` key holders, at
/// least `t + 1` of them.
pub open spec fn sign_params_ok(key: &LocalKey, i: u16, n: u16) -> bool {
    &&& localkey_wf(key)
    &&& key.t + 1 <= n <= key.n
    &&& 1 <= i <= n
}

pub open spec fn round0_wf(r: &Round0) -> bool {
    sign_params_ok(&r.key, r.i, r.n)
}

pub open spec fn round1_wf(r: &Round1) -> bool {
    &&& sign_params_ok(&r.key, r.i, r.n)
    &&& r.partial_sig.index == r.key.i - 1
}

impl Round0 {
    /// Signs the message locally and broadcasts the share together with this
    /// party's keygen-time index, so combiners can pick the right key.
    pub fn proceed(self, output: &mut Vec<Msg<M>>) -> (r: Result<Round1, ProceedError>)
        requires
            round0_wf(&self),
        ensures
            r is Ok,
            r matches Ok(r1) ==> {
                &&& round1_wf(&r1)
                &&& r1.i == self.i && r1.n == self.n
                &&& r1.key.i == self.key.i && r1.key.t == self.key.t && r1.key.n == self.key.n
                &&& g2_views(r1.key.vk_vec@) == g2_views(self.key.vk_vec@)
                &&& r1.key.shared_keys.vk@ == self.key.shared_keys.vk@
                &&& r1.message@ == hash_to_g1_n(self.message@)
                &&& r1.partial_sig.sigma_i@ == g1_mul_n(
                    hash_to_g1_n(self.message@),
                    self.key.shared_keys.sk_i@,
                )
                &&& final(output)@.len() == old(output)@.len() + 1
                &&& final(output)@.subrange(0, old(output)@.len() as int) == old(output)@
                &&& final(output)@.last().sender == self.i
                &&& final(output)@.last().receiver is None
                &&& final(output)@.last().body matches M::Round1(pair) && pair.0 == self.key.i
                    && pair.1.sigma_i@ == r1.partial_sig.sigma_i@ && pair.1.index
                    == r1.partial_sig.index
            },
    {
        let (partial_sig, h_x) = self.key.shared_keys.partial_sign(self.message.as_slice());
        let body_sig = partial_sig.clone();
        output.push(
            Msg { sender: self.i, receiver: None, body: M::Round1((self.key.i, body_sig)) },
        );
        proof {
            assert(final(output)@.subrange(0, old(output)@.len() as int) =~= old(output)@);
        }
        Ok(Round1 { key: self.key, message: h_x, partial_sig, i: self.i, n: self.n })
    }

    pub fn is_expensive(&self) -> (r: bool)
        ensures
            r == true,
    {
        true
    }
}

/// The entries the combiner works on: the received shares with the local
/// party's own appended.
pub open spec fn sign_entries(
    input: Seq<(u16, PartialSignature)>,
    own_i: u16,
    own: PartialSignature,
) -> Seq<(u16, PartialSignature)> {
    input.push((own_i, own))
}

pub open spec fn entries_consistent(entries: Seq<(u16, PartialSignature)>) -> bool {
    forall|q: int| 0 <= q < entries.len() ==> (#[trigger] entries[q]).1.index == entries[q].0 - 1
}

impl Round1 {
    /// Appends the local share, checks every claimed keygen index, selects
    /// the matching verification keys and combines the shares.
    pub fn proceed(self, input: Vec<(u16, PartialSignature)>) -> (r: Result<
        (G1Point, BLSSignature),
        ProceedError,
    >)
        requires
            round1_wf(&self),
            input@.len() == self.key.t,
            entries_consistent(input@),
            forall|q: int| 0 <= q < input@.len() ==> 1 <= (#[trigger] input@[q]).0 <= self.key.n,
            forall|q: int| 0 <= q < input@.len() ==> (#[trigger] input@[q]).0 != self.key.i,
            forall|a: int, b: int|
                0 <= a < b < input@.len() ==> (#[trigger] input@[a]).0 != (#[trigger] input@[b]).0,
        ensures
            ({
                let entries = sign_entries(input@, self.key.i, self.partial_sig);
                r is Ok <==> forall|p: int|
                    0 <= p < entries.len() ==> partial_sig_valid(
                        self.message@,
                        (#[trigger] entries[p]).1.sigma_i@,
                        self.key.vk_vec@[entries[p].0 - 1]@,
                        &entries[p].1.ddh_proof,
                    )
            }),
            r matches Ok(out) ==> {
                let entries = sign_entries(input@, self.key.i, self.partial_sig);
                &&& out.0@ == self.message@
                &&& is_g1(out.1.sigma@)
                &&& out.1.sigma@ == combine_sum(
                    entries.map_values(|e: (u16, PartialSignature)| e.1).subrange(
                        0,
                        self.key.t + 1,
                    ),
                    entries.map_values(|e: (u16, PartialSignature)| (e.0 - 1) as u16).subrange(
                        0,
                        self.key.t + 1,
                    ),
                )
            },
            r matches Err(e) ==> e matches ProceedError::PartialSignatureVerification(c) && c
                == crate::Error::PartialSignatureVerificationError,
    {
        let mut entries: Vec<(u16, PartialSignature)> = input;
        let own = (self.key.i, self.partial_sig);
        entries.push(own);
        let ghost gentries = entries@;
        let mut vk_sel: Vec<G2Point> = Vec::new();
        let mut sigs: Vec<PartialSignature> = Vec::new();
        let mut indexes: Vec<u16> = Vec::new();
        let mut q: usize = 0;
        while q < entries.len()
            invariant
                q <= gentries.len(),
                entries@ == gentries,
                localkey_wf(&self.key),
                forall|p: int| 0 <= p < gentries.len() ==> 1 <= (#[trigger] gentries[p]).0
                    <= self.key.n,
                vk_sel@.len() == q,
                sigs@.len() == q,
                indexes@.len() == q,
                forall|p: int|
                    0 <= p < q ==> vk_sel@[p]@ == self.key.vk_vec@[gentries[p].0 - 1]@,
                forall|p: int| 0 <= p < q ==> sigs@[p].index == gentries[p].1.index
                    && sigs@[p].sigma_i@ == gentries[p].1.sigma_i@ && sigs@[p].ddh_proof.a1@
                    == gentries[p].1.ddh_proof.a1@ && sigs@[p].ddh_proof.a2@
                    == gentries[p].1.ddh_proof.a2@ && sigs@[p].ddh_proof.z@
                    == gentries[p].1.ddh_proof.z@,
                forall|p: int| 0 <= p < q ==> indexes@[p] == gentries[p].0 - 1,
            decreases gentries.len() - q,
        {
            let keygen_i = entries[q].0;
            vk_sel.push(self.key.vk_vec[keygen_i as usize - 1].clone());
            sigs.push(entries[q].1.clone());
            indexes.push(keygen_i - 1);
            q += 1;
        }
        proof {
            let t = self.key.t as int;
            assert(gentries.len() == t + 1);
            assert forall|p: int| 0 <= p <= t implies indexes@.subrange(0, t + 1).contains(
                #[trigger] sigs@[p].index,
            ) by {
                assert(indexes@.subrange(0, t + 1)[p] == sigs@[p].index);
            };
        }
        let result = self.key.shared_keys.combine(
            vk_sel.as_slice(),
            sigs.as_slice(),
            &self.message,
            indexes.as_slice(),
        );
        proof {
            assert(gentries == sign_entries(input@, self.key.i, self.partial_sig));
            assert(vk_sel@.len() == gentries.len() && sigs@.len() == gentries.len());
            assert(self.key.shared_keys.params.threshold == self.key.t);
            assert(self.key.shared_keys.params.share_count == self.key.n);
            assert(all_partial_sigs_valid(self.message@, sigs@, vk_sel@) == (forall|p: int|
                0 <= p < gentries.len() ==> partial_sig_valid(
                    self.message@,
                    (#[trigger] gentries[p]).1.sigma_i@,
                    self.key.vk_vec@[gentries[p].0 - 1]@,
                    &gentries[p].1.ddh_proof,
                ))) by {
                if all_partial_sigs_valid(self.message@, sigs@, vk_sel@) {
                    assert forall|p: int| 0 <= p < gentries.len() implies partial_sig_valid(
                        self.message@,
                        (#[trigger] gentries[p]).1.sigma_i@,
                        self.key.vk_vec@[gentries[p].0 - 1]@,
                        &gentries[p].1.ddh_proof,
                    ) by {
                        assert(partial_sig_valid(
                            self.message@,
                            sigs@[p].sigma_i@,
                            vk_sel@[p]@,
                            &sigs@[p].ddh_proof,
                        ));
                    };
                } else {
                    let bad = choose|p: int|
                        0 <= p < sigs@.len() && !partial_sig_valid(
                            self.message@,
                            (#[trigger] sigs@[p]).sigma_i@,
                            vk_sel@[p]@,
                            &sigs@[p].ddh_proof,
                        );
                    assert(!partial_sig_valid(
                        self.message@,
                        gentries[bad].1.sigma_i@,
                        self.key.vk_vec@[gentries[bad].0 - 1]@,
                        &gentries[bad].1.ddh_proof,
                    ));
                }
            };
        }
        let sig = match result {
            Ok(sig) => sig,
            Err(_) => {
                return Err(
                    ProceedError::PartialSignatureVerification(
                        crate::Error::PartialSignatureVerificationError,
                    ),
                );
            },
        };
        proof {
            let t = self.key.t as int;
            let ge = sign_entries(input@, self.key.i, self.partial_sig);
            assert(gentries == ge);
            let want_sigs = ge.map_values(|e: (u16, PartialSignature)| e.1).subrange(0, t + 1);
            let want_s = ge.map_values(|e: (u16, PartialSignature)| (e.0 - 1) as u16).subrange(
                0,
                t + 1,
            );
            assert(want_s =~= indexes@.subrange(0, t + 1));
            lemma_combine_sum_views(sigs@.subrange(0, t + 1), want_sigs, want_s);
            assert(sigs@.subrange(0, t + 1) =~= sigs@);
        }
        Ok((self.message, sig))
    }

    pub fn is_expensive(&self) -> (r: bool)
        ensures
            r == true,
    {
        true
    }

    /// The store of round 1, primed with everything needed to verify each
    /// arriving share on the spot.
    pub fn expects_messages(
        i: u16,
        n: u16,
        local_key: &LocalKey,
        message_to_sign: G1Point,
    ) -> (r: ReceiveFirstValidPartialSigs)
        requires
            localkey_wf(local_key),
        ensures
            sign_store_wf(&r),
            r.msgs@.len() == 0,
            r.i == i,
            r.own_keygen_i == local_key.i,
            r.signers_n == n,
            r.threshold == local_key.t,
            r.secret_holders == local_key.n,
            r.h_x@ == message_to_sign@,
            g2_views(r.vk_vec@) == g2_views(local_key.vk_vec@),
    {
        ReceiveFirstValidPartialSigs {
            msgs: Vec::new(),
            received_from: Vec::new(),
            i,
            own_keygen_i: local_key.i,
            h_x: message_to_sign,
            vk_vec: crate::vss::clone_g2_vec(&local_key.vk_vec),
            signers_n: n,
            secret_holders: local_key.n,
            threshold: local_key.t,
        }
    }
}

/// Combination only reads each share's encoded fields, so equal views give
/// an equal combined value.
pub proof fn lemma_combine_sum_views(
    a: Seq<PartialSignature>,
    b: Seq<PartialSignature>,
    s: Seq<u16>,
)
    requires
        a.len() == b.len(),
        forall|p: int| 0 <= p < a.len() ==> (#[trigger] a[p]).index == b[p].index
            && a[p].sigma_i@ == b[p].sigma_i@,
    ensures
        combine_sum(a, s) == combine_sum(b, s),
    decreases a.len(),
{
    if a.len() > 1 {
        lemma_combine_sum_views(a.drop_last(), b.drop_last(), s);
    }
}

/// The round-1 message store: admits only shares that verify against the
/// hashed message and the sender's keygen verification key, and declares
/// completion once `t` valid shares are collected (the local party's own
/// share makes `t + 1`).  A share claiming the local party's own keygen
/// index, or an index already collected, is refused, so the collected
/// indices stay pairwise distinct — the domain the Lagrange combination
/// needs.
pub struct ReceiveFirstValidPartialSigs {
    pub msgs: Vec<(u16, PartialSignature)>,
    pub received_from: Vec<u16>,
    pub i: u16,
    pub own_keygen_i: u16,
    pub h_x: G1Point,
    pub vk_vec: Vec<G2Point>,
    pub signers_n: u16,
    pub secret_holders: u16,
    pub threshold: u16,
}

pub open spec fn sign_store_wf(s: &ReceiveFirstValidPartialSigs) -> bool {
    &&& s.vk_vec@.len() == s.secret_holders
    &&& s.msgs@.len() <= s.threshold
    &&& forall|j: int| 0 <= j < s.msgs@.len() ==> 1 <= (#[trigger] s.msgs@[j]).0
        <= s.secret_holders
    &&& forall|j: int| 0 <= j < s.msgs@.len() ==> (#[trigger] s.msgs@[j]).1.index == s.msgs@[j].0
        - 1
    &&& forall|j: int| 0 <= j < s.msgs@.len() ==> (#[trigger] s.msgs@[j]).0 != s.own_keygen_i
    &&& forall|a: int, b: int|
        0 <= a < b < s.msgs@.len() ==> (#[trigger] s.msgs@[a]).0 != (#[trigger] s.msgs@[b]).0
}

/// What the store answers to a message, decided in the order the checks run.
pub open spec fn store_verdict(
    s: &ReceiveFirstValidPartialSigs,
    msg: &Msg<(u16, PartialSignature)>,
) -> Result<(), ReceivedPartialSigNotValid> {
    let claimed = msg.body.0;
    if msg.sender == s.i {
        Err(ReceivedPartialSigNotValid::ReceivedMyOwnShare)
    } else if msg.receiver is Some {
        Err(ReceivedPartialSigNotValid::ExpectedBroadcast)
    } else if s.received_from@.contains(msg.sender) {
        Err(ReceivedPartialSigNotValid::MsgOverwrite)
    } else if !(1 <= claimed <= s.secret_holders) {
        Err(
            ReceivedPartialSigNotValid::PartyOriginalIndexOutOfRange {
                i: claimed,
                n: s.secret_holders,
            },
        )
    } else if s.msgs@.len() >= s.threshold {
        Err(ReceivedPartialSigNotValid::TooManyMsgs)
    } else if claimed == s.own_keygen_i {
        Err(ReceivedPartialSigNotValid::ShareOverwrite)
    } else if msg.body.1.index != claimed - 1 {
        Err(ReceivedPartialSigNotValid::InvalidPartialSig)
    } else if !partial_sig_valid(
        s.h_x@,
        msg.body.1.sigma_i@,
        s.vk_vec@[claimed - 1]@,
        &msg.body.1.ddh_proof,
    ) {
        Err(ReceivedPartialSigNotValid::InvalidPartialSig)
    } else if exists|k: int| 0 <= k < s.msgs@.len() && (#[trigger] s.msgs@[k]).0 == claimed {
        Err(ReceivedPartialSigNotValid::ShareOverwrite)
    } else {
        Ok(())
    }
}

impl ReceiveFirstValidPartialSigs {
    pub fn messages_received(&self) -> (r: usize)
        ensures
            r == self.msgs@.len(),
    {
        self.msgs.len()
    }

    pub fn messages_total(&self) -> (r: u16)
        ensures
            r == self.threshold,
    {
        self.threshold
    }

    pub fn contains_msg_from(&self, sender: u16) -> (r: bool)
        ensures
            r == self.received_from@.contains(sender),
    {
        let mut j: usize = 0;
        while j < self.received_from.len()
            invariant
                j <= self.received_from@.len(),
                forall|k: int| 0 <= k < j ==> self.received_from@[k] != sender,
            decreases self.received_from@.len() - j,
        {
            if self.received_from[j] == sender {
                return true;
            }
            j += 1;
        }
        false
    }

    pub fn wants_more(&self) -> (r: bool)
        ensures
            r == (self.msgs@.len() < self.threshold),
    {
        self.msgs.len() < self.threshold as usize
    }

    /// Validates and admits one broadcast share.
    pub fn push_msg(&mut self, msg: Msg<(u16, PartialSignature)>) -> (r: Result<
        (),
        ReceivedPartialSigNotValid,
    >)
        requires
            sign_store_wf(&*old(self)),
        ensures
            sign_store_wf(&*final(self)),
            final(self).i == old(self).i,
            final(self).own_keygen_i == old(self).own_keygen_i,
            final(self).signers_n == old(self).signers_n,
            final(self).secret_holders == old(self).secret_holders,
            final(self).threshold == old(self).threshold,
            final(self).h_x@ == old(self).h_x@,
            g2_views(final(self).vk_vec@) == g2_views(old(self).vk_vec@),
            r == store_verdict(&*old(self), &msg),
            r is Ok ==> final(self).msgs@ == old(self).msgs@.push(msg.body)
                && final(self).received_from@ == old(self).received_from@.push(msg.sender),
            r is Err ==> *final(self) == *old(self),
    {
        if msg.sender == self.i {
            return Err(ReceivedPartialSigNotValid::ReceivedMyOwnShare);
        }
        if msg.receiver.is_some() {
            return Err(ReceivedPartialSigNotValid::ExpectedBroadcast);
        }
        if self.contains_msg_from(msg.sender) {
            return Err(ReceivedPartialSigNotValid::MsgOverwrite);
        }
        let claimed = msg.body.0;
        if !(1 <= claimed && claimed <= self.secret_holders) {
            return Err(ReceivedPartialSigNotValid::PartyOriginalIndexOutOfRange {
                i: claimed,
                n: self.secret_holders,
            });
        }
        if !self.wants_more() {
            return Err(ReceivedPartialSigNotValid::TooManyMsgs);
        }
        if claimed == self.own_keygen_i {
            return Err(ReceivedPartialSigNotValid::ShareOverwrite);
        }
        if msg.body.1.index != claimed - 1 {
            return Err(ReceivedPartialSigNotValid::InvalidPartialSig);
        }
        let valid = SharedKeys::verify_partial_sig(
            &self.h_x,
            &msg.body.1,
            &self.vk_vec[claimed as usize - 1],
        ).is_ok();
        if !valid {
            return Err(ReceivedPartialSigNotValid::InvalidPartialSig);
        }
        if self.has_share_of(claimed) {
            return Err(ReceivedPartialSigNotValid::ShareOverwrite);
        }
        self.msgs.push(msg.body);
        self.received_from.push(msg.sender);
        Ok(())
    }

    /// Whether some collected share already claims this keygen index.
    fn has_share_of(&self, claimed: u16) -> (r: bool)
        ensures
            r == (exists|k: int|
                0 <= k < self.msgs@.len() && (#[trigger] self.msgs@[k]).0 == claimed),
    {
        let mut j: usize = 0;
        while j < self.msgs.len()
            invariant
                j <= self.msgs@.len(),
                forall|k: int| 0 <= k < j ==> (#[trigger] self.msgs@[k]).0 != claimed,
            decreases self.msgs@.len() - j,
        {
            if self.msgs[j].0 == claimed {
                return true;
            }
            j += 1;
        }
        false
    }

    /// Hands the collected shares to the combiner once `t` have arrived.
    pub fn finish(self) -> (r: Result<Vec<(u16, PartialSignature)>, ReceivedPartialSigNotValid>)
        requires
            sign_store_wf(&self),
        ensures
            self.msgs@.len() < self.threshold ==> r == Err::<
                Vec<(u16, PartialSignature)>,
                ReceivedPartialSigNotValid,
            >(ReceivedPartialSigNotValid::NotEnoughMsgs),
            self.msgs@.len() >= self.threshold ==> (r matches Ok(v) && v@ == self.msgs@),
    {
        if self.msgs.len() < self.threshold as usize {
            Err(ReceivedPartialSigNotValid::NotEnoughMsgs)
        } else {
            Ok(self.msgs)
        }
    }

    /// Reports how many shares are still missing and which signers have not
    /// delivered.
    pub fn blame(&self) -> (r: (u16, Vec<u16>))
        requires
            sign_store_wf(&self),
        ensures
            r.0 == self.threshold - self.msgs@.len(),
            forall|j: int| 0 <= j < r.1@.len() ==> 1 <= (#[trigger] r.1@[j]) <= self.signers_n
                && !self.received_from@.contains(r.1@[j]),
            forall|q: u16|
                1 <= q <= self.signers_n && !self.received_from@.contains(q) ==> r.1@.contains(q),
    {
        let left = self.threshold - self.msgs.len() as u16;
        let mut didnt_send: Vec<u16> = Vec::new();
        let mut p: usize = 1;
        while p <= self.signers_n as usize
            invariant
                1 <= p <= self.signers_n + 1,
                forall|j: int| 0 <= j < didnt_send@.len() ==> 1 <= (#[trigger] didnt_send@[j])
                    <= self.signers_n && !self.received_from@.contains(didnt_send@[j]),
                forall|q: u16|
                    1 <= q < p && !self.received_from@.contains(q) ==> didnt_send@.contains(q),
            decreases self.signers_n + 1 - p,
        {
            let ghost prev = didnt_send@;
            if !self.contains_msg_from(p as u16) {
                didnt_send.push(p as u16);
            }
            proof {
                assert forall|q: u16|
                    1 <= q < p + 1 && !self.received_from@.contains(q) implies didnt_send@.contains(
                    q,
                ) by {
                    if q < p {
                        if prev.contains(q) {
                            let w = choose|w: int| 0 <= w < prev.len() && prev[w] == q;
                            assert(didnt_send@[w] == q);
                        }
                    } else {
                        assert(didnt_send@.last() == p as u16);
                    }
                };
            }
            p += 1;
        }
        (left, didnt_send)
    }
}


/// The phase of the signing machine.
pub enum R {
    Round0(Round0),
    Round1(Round1),
    Final((G1Point, BLSSignature)),
    Gone,
}

pub open spec fn sign_rank(r: &R) -> int {
    match r {
        R::Round0(_) => 0,
        R::Round1(_) => 1,
        R::Final(_) => 2,
        R::Gone => 3,
    }
}

pub open spec fn sign_round_index(r: &R) -> u16 {
    match r {
        R::Round0(_) => 0,
        R::Round1(_) => 1,
        R::Final(_) => 2,
        R::Gone => 2,
    }
}

/// The signing state machine of one party.
pub struct Sign {
    pub round: R,
    pub msgs1: Option<ReceiveFirstValidPartialSigs>,
    pub msgs_queue: Vec<Msg<ProtocolMessage>>,
    pub party_i: u16,
    pub party_n: u16,
}

pub open spec fn sign_wf(m: &Sign) -> bool {
    &&& 1 <= m.party_i <= m.party_n
    &&& match &m.round {
        R::Round0(r) => r.i == m.party_i && r.n == m.party_n && round0_wf(r) && (
        m.msgs1 matches Some(s) ==> s.threshold == r.key.t && s.secret_holders == r.key.n
            && s.own_keygen_i == r.key.i),
        R::Round1(r) => r.i == m.party_i && r.n == m.party_n && round1_wf(r) && (
        m.msgs1 matches Some(s) ==> s.threshold == r.key.t && s.secret_holders == r.key.n
            && s.own_keygen_i == r.key.i),
        R::Final(_) => true,
        R::Gone => true,
    }
    &&& (sign_rank(&m.round) <= 1 ==> m.msgs1 is Some)
    &&& (sign_rank(&m.round) == 2 ==> m.msgs1 is None)
    &&& (m.msgs1 matches Some(s) ==> sign_store_wf(&s) && s.i == m.party_i && s.signers_n
        == m.party_n)
}

pub open spec fn sign_wants_spec(m: &Sign) -> bool {
    match &m.round {
        R::Round0(_) => true,
        R::Round1(_) => m.msgs1 matches Some(s) && s.msgs@.len() >= s.threshold,
        R::Final(_) => false,
        R::Gone => false,
    }
}

impl Sign {
    /// Constructs a party of the signing protocol for `message`, as signer
    /// `i` of `n` using the key obtained at key generation.
    pub fn new(message: Vec<u8>, i: u16, n: u16, local_key: LocalKey) -> (r: Result<Sign, Error>)
        requires
            localkey_wf(&local_key),
        ensures
            n < local_key.t + 1 <==> r == Err::<Sign, Error>(Error::TooFewParties),
            (n >= local_key.t + 1 && n > local_key.n) <==> r == Err::<Sign, Error>(
                Error::TooManyParties,
            ),
            (local_key.t + 1 <= n <= local_key.n && (i == 0 || i > n)) <==> r == Err::<
                Sign,
                Error,
            >(Error::InvalidPartyIndex),
            r is Ok <==> (local_key.t + 1 <= n <= local_key.n && 1 <= i <= n),
            r matches Ok(m) ==> {
                &&& sign_wf(&m)
                &&& m.party_i == i
                &&& m.party_n == n
                &&& m.round is Round0
                &&& m.msgs_queue@.len() == 0
            },
    {
        if n < local_key.t + 1 {
            return Err(Error::TooFewParties);
        }
        if n > local_key.n {
            return Err(Error::TooManyParties);
        }
        if i == 0 || i > n {
            return Err(Error::InvalidPartyIndex);
        }
        let h_x = G1Point::hash_to_curve(message.as_slice());
        let store = Round1::expects_messages(i, n, &local_key, h_x);
        let mut state = Sign {
            round: R::Round0(Round0 { key: local_key, message, i, n }),
            msgs1: Some(store),
            msgs_queue: Vec::new(),
            party_i: i,
            party_n: n,
        };
        match state.proceed_round(false) {
            Ok(_) => {},
            Err(e) => {
                return Err(e);
            },
        }
        Ok(state)
    }

    /// Advances as far as possible; both signing rounds are expensive, so
    /// nothing moves unless `may_block` holds.
    pub fn proceed_round(&mut self, may_block: bool) -> (r: Result<(), Error>)
        requires
            sign_wf(&*old(self)),
        ensures
            sign_wf(&*final(self)),
            final(self).party_i == old(self).party_i,
            final(self).party_n == old(self).party_n,
            sign_rank(&final(self).round) >= sign_rank(&old(self).round),
            old(self).msgs_queue@.len() <= final(self).msgs_queue@.len(),
            final(self).msgs_queue@.subrange(0, old(self).msgs_queue@.len() as int) == old(
                self,
            ).msgs_queue@,
            r matches Err(e) ==> (e is ProceedRound && final(self).round is Gone),
            !may_block ==> *final(self) == *old(self) && r is Ok,
            may_block && r is Ok ==> !sign_wants_spec(&*final(self)),
            r is Ok && !sign_wants_spec(&*old(self)) ==> *final(self) == *old(self),
    {
        loop
            invariant
                sign_wf(&*self),
                self.party_i == old(self).party_i,
                self.party_n == old(self).party_n,
                sign_rank(&self.round) >= sign_rank(&old(self).round),
                old(self).msgs_queue@.len() <= self.msgs_queue@.len(),
                self.msgs_queue@.subrange(0, old(self).msgs_queue@.len() as int) == old(
                    self,
                ).msgs_queue@,
                !may_block ==> *self == *old(self),
                !sign_wants_spec(&*old(self)) ==> *self == *old(self),
            decreases 4 - sign_rank(&self.round),
        {
            if !may_block {
                return Ok(());
            }
            let mut cur = R::Gone;
            core::mem::swap(&mut cur, &mut self.round);
            match cur {
                R::Round0(r0) => {
                    let mut inner: Vec<Msg<M>> = Vec::new();
                    match r0.proceed(&mut inner) {
                        Ok(r1) => {
                            let m = inner.remove(0);
                            self.msgs_queue.push(
                                Msg {
                                    sender: m.sender,
                                    receiver: m.receiver,
                                    body: ProtocolMessage(m.body),
                                },
                            );
                            proof {
                                assert(self.msgs_queue@.subrange(
                                    0,
                                    old(self).msgs_queue@.len() as int,
                                ) =~= old(self).msgs_queue@);
                            }
                            self.round = R::Round1(r1);
                        },
                        Err(e) => {
                            return Err(Error::ProceedRound(e));
                        },
                    }
                },
                R::Round1(r1) => {
                    let full = match &self.msgs1 {
                        Some(s) => !s.wants_more(),
                        None => false,
                    };
                    if full {
                        let mut taken: Option<ReceiveFirstValidPartialSigs> = None;
                        core::mem::swap(&mut taken, &mut self.msgs1);
                        let store = taken.unwrap();
                        let msgs = match store.finish() {
                            Ok(v) => v,
                            Err(e) => {
                                return Err(Error::HandleMessage(e));
                            },
                        };
                        match r1.proceed(msgs) {
                            Ok(out) => {
                                self.round = R::Final(out);
                            },
                            Err(e) => {
                                return Err(Error::ProceedRound(e));
                            },
                        }
                    } else {
                        self.round = R::Round1(r1);
                        return Ok(());
                    }
                },
                R::Final(out) => {
                    self.round = R::Final(out);
                    return Ok(());
                },
                R::Gone => {
                    self.round = R::Gone;
                    return Ok(());
                },
            }
        }
    }

    /// Buffers a received share; round 1 is the only round with messages.
    pub fn handle_incoming(&mut self, msg: Msg<ProtocolMessage>) -> (r: Result<(), Error>)
        requires
            sign_wf(&*old(self)),
        ensures
            sign_wf(&*final(self)),
            final(self).party_i == old(self).party_i,
            final(self).party_n == old(self).party_n,
            final(self).msgs_queue@ == old(self).msgs_queue@,
            old(self).msgs1 is None <==> r == Err::<(), Error>(
                Error::ReceivedOutOfOrderMessage {
                    current_round: sign_round_index(&old(self).round),
                    msg_round: 1,
                },
            ),
            msg.body matches ProtocolMessage(M::Round1(b)) ==> (old(self).msgs1 matches Some(st)
                ==> {
                &&& store_verdict(
                    &st,
                    &(Msg { sender: msg.sender, receiver: msg.receiver, body: b }),
                ) is Ok ==> r is Ok && (final(self).msgs1 matches Some(s2) && s2.msgs@
                    == st.msgs@.push(b) && s2.received_from@ == st.received_from@.push(
                    msg.sender,
                ))
                &&& store_verdict(
                    &st,
                    &(Msg { sender: msg.sender, receiver: msg.receiver, body: b }),
                ) matches Err(e2) ==> r == Err::<(), Error>(Error::HandleMessage(e2))
            }),
            r is Err ==> *final(self) == *old(self),
            r matches Err(e) ==> (e is ReceivedOutOfOrderMessage || e is HandleMessage),
    {
        let current_round = self.current_round();
        let sender = msg.sender;
        let receiver = msg.receiver;
        let ProtocolMessage(m) = msg.body;
        match m {
            M::Round1(body) => {
                match &mut self.msgs1 {
                    None => {
                        return Err(Error::ReceivedOutOfOrderMessage {
                            current_round,
                            msg_round: 1,
                        });
                    },
                    Some(store) => {
                        match store.push_msg(Msg { sender, receiver, body }) {
                            Ok(_) => {},
                            Err(e) => {
                                return Err(Error::HandleMessage(e));
                            },
                        }
                    },
                }
                self.proceed_round(false)
            },
        }
    }

    /// The outbound queue, to be drained by the transport.
    pub fn message_queue(&mut self) -> (r: &mut Vec<Msg<ProtocolMessage>>)
        ensures
            *r == old(self).msgs_queue,
            final(self).msgs_queue == *final(r),
            final(self).round == old(self).round,
            final(self).msgs1 == old(self).msgs1,
            final(self).party_i == old(self).party_i,
            final(self).party_n == old(self).party_n,
    {
        &mut self.msgs_queue
    }

    /// Whether a call to `proceed` would do work now.
    pub fn wants_to_proceed(&self) -> (r: bool)
        requires
            sign_wf(self),
        ensures
            r == sign_wants_spec(self),
    {
        match &self.round {
            R::Round0(_) => true,
            R::Round1(_) => {
                match &self.msgs1 {
                    Some(s) => !s.wants_more(),
                    None => false,
                }
            },
            R::Final(_) => false,
            R::Gone => false,
        }
    }

    /// Performs all pending work.
    pub fn proceed(&mut self) -> (r: Result<(), Error>)
        requires
            sign_wf(&*old(self)),
        ensures
            sign_wf(&*final(self)),
            final(self).party_i == old(self).party_i,
            final(self).party_n == old(self).party_n,
            sign_rank(&final(self).round) >= sign_rank(&old(self).round),
            old(self).msgs_queue@.len() <= final(self).msgs_queue@.len(),
            final(self).msgs_queue@.subrange(0, old(self).msgs_queue@.len() as int) == old(
                self,
            ).msgs_queue@,
            r matches Err(e) ==> (e is ProceedRound && final(self).round is Gone),
            r is Ok ==> !sign_wants_spec(&*final(self)),
    {
        self.proceed_round(true)
    }

    /// Whether the machine reached its terminal round.
    pub fn is_finished(&self) -> (r: bool)
        ensures
            r == (self.round is Final),
    {
        matches!(self.round, R::Final(_))
    }

    /// Takes the output out of a finished machine; a second call reports
    /// `DoublePickResult`.
    pub fn pick_output(&mut self) -> (r: Option<Result<(G1Point, BLSSignature), Error>>)
        requires
            sign_wf(&*old(self)),
        ensures
            sign_wf(&*final(self)),
            final(self).party_i == old(self).party_i,
            final(self).party_n == old(self).party_n,
            old(self).round is Final ==> (r matches Some(out) && out matches Ok(v) && old(
                self,
            ).round == R::Final(v) && final(self).round is Gone),
            old(self).round is Gone ==> r == Some(Err::<(G1Point, BLSSignature), Error>(
                Error::DoublePickResult,
            )) && final(self).round is Gone,
            !(old(self).round is Final || old(self).round is Gone) ==> r is None && *final(self)
                == *old(self),
    {
        match &self.round {
            R::Final(_) => {},
            R::Gone => {
                return Some(Err(Error::DoublePickResult));
            },
            _ => {
                return None;
            },
        }
        let mut cur = R::Gone;
        core::mem::swap(&mut cur, &mut self.round);
        match cur {
            R::Final(out) => Some(Ok(out)),
            _ => None,
        }
    }

    /// The index of the round the machine currently waits on; 2 when done.
    pub fn current_round(&self) -> (r: u16)
        ensures
            r == sign_round_index(&self.round),
    {
        match &self.round {
            R::Round0(_) => 0,
            R::Round1(_) => 1,
            R::Final(_) => 2,
            R::Gone => 2,
        }
    }

    /// The protocol exchanges two rounds.
    pub fn total_rounds(&self) -> (r: Option<u16>)
        ensures
            r == Some(2u16),
    {
        Some(2)
    }

    pub fn party_ind(&self) -> (r: u16)
        ensures
            r == self.party_i,
    {
        self.party_i
    }

    pub fn parties(&self) -> (r: u16)
        ensures
            r == self.party_n,
    {
        self.party_n
    }
}

} // verus!
