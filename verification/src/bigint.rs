//! Arbitrary-precision non-negative integers, exchanged with the outside
//! world as the byte strings GMP exports: minimal big-endian form, except
//! that the value zero is written as one zero byte.
use vstd::prelude::*;

use curv::arithmetic::Converter;
use curv::arithmetic::Samplable;

use crate::encoding::{be_nat, lemma_min_be, nat_to_min_be};

verus! {

/// The byte string GMP's export produces for a value: minimal big-endian
/// bytes, with zero written as a single zero byte.
pub open spec fn bigint_bytes(n: nat) -> Seq<u8> {
    if n == 0 {
        seq![0u8]
    } else {
        nat_to_min_be(n)
    }
}

/// The exported form reads back as the value it was made from.
pub proof fn lemma_bigint_bytes(n: nat)
    ensures
        be_nat(bigint_bytes(n)) == n,
        bigint_bytes(n).len() >= 1,
{
    if n == 0 {
        assert(bigint_bytes(0) =~= seq![0u8]);
        assert(bigint_bytes(0).drop_last() =~= Seq::<u8>::empty());
        assert(be_nat(bigint_bytes(0)) == be_nat(Seq::<u8>::empty()) * 256 + 0);
    } else {
        lemma_min_be(n);
    }
}

/// Relies on curv's `BigInt` addition over GMP: the sum of the two values,
/// written back in GMP's export form.
#[verifier::external_body]
pub fn bigint_add(a: &[u8], b: &[u8]) -> (r: Vec<u8>)
    ensures
        r@ == bigint_bytes(be_nat(a@) + be_nat(b@)),
{
    (curv::BigInt::from_bytes(a) + curv::BigInt::from_bytes(b)).to_bytes()
}

/// Relies on curv's `BigInt` multiplication over GMP: the product of the two
/// values, written back in GMP's export form.
#[verifier::external_body]
pub fn bigint_mul(a: &[u8], b: &[u8]) -> (r: Vec<u8>)
    ensures
        r@ == bigint_bytes(be_nat(a@) * be_nat(b@)),
{
    (curv::BigInt::from_bytes(a) * curv::BigInt::from_bytes(b)).to_bytes()
}

/// Relies on curv's `BigInt::sample`: a uniform 256-bit integer, exported in
/// GMP's form, so at most 32 bytes.
#[verifier::external_body]
pub fn bigint_sample_256() -> (r: Vec<u8>)
    ensures
        r@ == bigint_bytes(be_nat(r@)),
        r@.len() <= 32,
{
    curv::BigInt::sample(256).to_bytes()
}

} // verus!
