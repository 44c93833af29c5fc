//! Threshold BLS signatures on BLS12-381, built from a distributed key
//! generation protocol (five rounds, optimistic: a misbehaving party aborts
//! the run and is excluded on re-run) and a two-round threshold signing
//! protocol.  Any `t + 1` of `n` parties can jointly produce a standard BLS
//! signature verifiable under the single group key, per the IETF BLS
//! signature draft; an aggregated multi-signature scheme is included as an
//! independent utility.
//!
//! Each party owns one state machine (`threshold_bls::keygen::Keygen` or
//! `threshold_bls::sign::Sign`), feeds it incoming messages, drains its
//! outbound queue, and drives it with `proceed`; the transport around it must
//! encrypt point-to-point messages and authenticate broadcasts.
pub mod aggregated_bls;
pub mod basic_bls;
pub mod bigint;
pub mod curve;
pub mod dlog;
pub mod encoding;
pub mod hashing;
pub mod stores;
pub mod threshold_bls;
pub mod vss;

use vstd::prelude::*;

verus! {

/// Protocol-level failure causes shared by distributed key generation and
/// threshold signing.
#[derive(Copy, PartialEq, Eq, Clone, Debug, Structural)]
pub enum Error {
    KeyGenMisMatchedVectors,
    /// Blames the one-based index of a party whose decommitment failed to
    /// open its commitment.
    KeyGenBadCommitment { party: u16 },
    KeyGenInvalidShare,
    KeyGenDlogProofError,
    PartialSignatureVerificationError,
    SigningMisMatchedVectors,
}

} // verus!
