//! Thin semantic adapter over BLS12-381: scalars of the prime field Fr held
//! as 32-byte big-endian strings, group elements of G1 and G2 held as their
//! compressed encodings (48 and 96 bytes), next to the decoded point so that
//! operations need not re-validate.  The encoding carries an element's whole
//! meaning: compressed encodings are canonical, so two valid encodings are
//! equal exactly when they denote the same element.  Field arithmetic carries
//! exact modular contracts; group operations are named by uninterpreted
//! functions, since their value takes pages to state.
use vstd::prelude::*;

use curv::arithmetic::Converter;
use curv::elliptic::curves::bls12_381::Pair;
use curv::elliptic::curves::{Bls12_381_1, Bls12_381_2, Point as CurvePoint};
use ff_zeroize::Field;

use crate::encoding::{be_nat, canon, nat_to_be, pow256, bytes_eq, lemma_be_nat_of_nat_to_be, lemma_nat_to_be_len, lemma_nat_to_be_of_be_nat, trim_leading_zeros};

verus! {

/// Carries a decoded curv G1 point; opaque to Verus, which reasons about
/// the encoding alone.
#[verifier::external_body]
pub struct RawG1 {
    pub(crate) pt: CurvePoint<Bls12_381_1>,
}

/// Carries a decoded curv G2 point; opaque to Verus, which reasons about
/// the encoding alone.
#[verifier::external_body]
pub struct RawG2 {
    pub(crate) pt: CurvePoint<Bls12_381_2>,
}

/// Order of the Fr scalar field of BLS12-381, shared by G1 and G2.
pub open spec fn fr_order() -> nat {
    0x73eda753299d7d483339d80809a1d80553bda402fffe5bfeffffffff00000001nat
}

/// A well-formed scalar encoding: 32 big-endian bytes holding a value below
/// the group order.
pub open spec fn scalar_wf(s: Seq<u8>) -> bool {
    s.len() == 32 && be_nat(s) < fr_order()
}

/// The canonical 32-byte encoding of `n` reduced modulo the group order.
pub open spec fn fr_of(n: nat) -> Seq<u8> {
    nat_to_be(n % fr_order(), 32)
}

pub proof fn lemma_fr_order_below_pow256_32()
    ensures
        fr_order() < pow256(32),
{
    reveal_with_fuel(pow256, 33);
}

pub proof fn lemma_fr_of_wf(n: nat)
    ensures
        scalar_wf(fr_of(n)),
        be_nat(fr_of(n)) == n % fr_order(),
{
    lemma_nat_to_be_len(n % fr_order(), 32);
    lemma_fr_order_below_pow256_32();
    lemma_be_nat_of_nat_to_be(n % fr_order(), 32);
}

pub proof fn lemma_fr_of_id(s: Seq<u8>)
    requires
        scalar_wf(s),
    ensures
        fr_of(be_nat(s)) == s,
{
    lemma_nat_to_be_of_be_nat(s);
}

/// Whether a 48-byte string is the compressed encoding of a G1 element:
/// exactly the strings of length 48 that `curv`'s
/// `Point::<Bls12_381_1>::from_bytes` accepts (canonical form, on the curve,
/// in the order-q subgroup or the point at infinity).
pub uninterp spec fn is_g1(b: Seq<u8>) -> bool;

/// Whether a 96-byte string is the compressed encoding of a G2 element,
/// as `Point::<Bls12_381_2>::from_bytes` decides.
pub uninterp spec fn is_g2(b: Seq<u8>) -> bool;

/// Compressed encoding of the sum of the two G1 elements the arguments encode.
pub uninterp spec fn g1_add_n(a: Seq<u8>, b: Seq<u8>) -> Seq<u8>;

/// Compressed encoding of the sum of the two G2 elements the arguments encode.
pub uninterp spec fn g2_add_n(a: Seq<u8>, b: Seq<u8>) -> Seq<u8>;

/// Compressed encoding of the G1 element `p` multiplied by the scalar `s`.
pub uninterp spec fn g1_mul_n(p: Seq<u8>, s: Seq<u8>) -> Seq<u8>;

/// Compressed encoding of the G2 element `p` multiplied by the scalar `s`.
pub uninterp spec fn g2_mul_n(p: Seq<u8>, s: Seq<u8>) -> Seq<u8>;

/// Compressed encoding of the IETF hash-to-curve of a message into G1,
/// as `G1Point::hash_to_curve` computes it (expand_message_xmd over SHA-256).
pub uninterp spec fn hash_to_g1_n(m: Seq<u8>) -> Seq<u8>;

/// The 96-byte uncompressed encoding of the G1 element `p` encodes.
pub uninterp spec fn g1_uncomp_n(p: Seq<u8>) -> Seq<u8>;

/// Whether `e(hm, pk) == e(sig, g2)` for the encoded points, with `g2` the
/// G2 generator: the BLS pairing equation.
pub uninterp spec fn bls_pair_check_n(hm: Seq<u8>, pk: Seq<u8>, sig: Seq<u8>) -> bool;

/// Whether the product of pairings `e(hms[i], pks[i])` over all `i` equals
/// `e(sig, g2)`, with `g2` the G2 generator.
pub uninterp spec fn agg_pair_check_n(hms: Seq<Seq<u8>>, pks: Seq<Seq<u8>>, sig: Seq<u8>) -> bool;

/// Compressed encoding of the G1 generator (IETF standard base point).
pub open spec fn g1_gen_bytes() -> Seq<u8> {
    seq![
        0x97u8, 0xf1, 0xd3, 0xa7, 0x31, 0x97, 0xd7, 0x94, 0x26, 0x95, 0x63, 0x8c, 0x4f, 0xa9,
        0xac, 0x0f, 0xc3, 0x68, 0x8c, 0x4f, 0x97, 0x74, 0xb9, 0x05, 0xa1, 0x4e, 0x3a, 0x3f, 0x17,
        0x1b, 0xac, 0x58, 0x6c, 0x55, 0xe8, 0x3f, 0xf9, 0x7a, 0x1a, 0xef, 0xfb, 0x3a, 0xf0, 0x0a,
        0xdb, 0x22, 0xc6, 0xbb,
    ]
}

/// Compressed encoding of the G2 generator (IETF standard base point).
pub open spec fn g2_gen_bytes() -> Seq<u8> {
    seq![
        0x93u8, 0xe0, 0x2b, 0x60, 0x52, 0x71, 0x9f, 0x60, 0x7d, 0xac, 0xd3, 0xa0, 0x88, 0x27,
        0x4f, 0x65, 0x59, 0x6b, 0xd0, 0xd0, 0x99, 0x20, 0xb6, 0x1a, 0xb5, 0xda, 0x61, 0xbb, 0xdc,
        0x7f, 0x50, 0x49, 0x33, 0x4c, 0xf1, 0x12, 0x13, 0x94, 0x5d, 0x57, 0xe5, 0xac, 0x7d, 0x05,
        0x5d, 0x04, 0x2b, 0x7e, 0x02, 0x4a, 0xa2, 0xb2, 0xf0, 0x8f, 0x0a, 0x91, 0x26, 0x08, 0x05,
        0x27, 0x2d, 0xc5, 0x10, 0x51, 0xc6, 0xe4, 0x7a, 0xd4, 0xfa, 0x40, 0x3b, 0x02, 0xb4, 0x51,
        0x0b, 0x64, 0x7a, 0xe3, 0xd1, 0x77, 0x0b, 0xac, 0x03, 0x26, 0xa8, 0x05, 0xbb, 0xef, 0xd4,
        0x80, 0x56, 0xc8, 0xc1, 0x21, 0xbd, 0xb8,
    ]
}

/// An Fr scalar, kept as its canonical 32-byte big-endian encoding.
pub struct Scalar {
    pub(crate) bytes: Vec<u8>,
}

/// A G1 element: its canonical 48-byte compressed encoding, which carries
/// the element's whole meaning, together with the decoded point so that
/// operations need not re-validate the encoding.
pub struct G1Point {
    pub(crate) bytes: Vec<u8>,
    pub(crate) raw: RawG1,
}

/// A G2 element: its canonical 96-byte compressed encoding together with the
/// decoded point.
pub struct G2Point {
    pub(crate) bytes: Vec<u8>,
    pub(crate) raw: RawG2,
}

impl View for Scalar {
    type V = Seq<u8>;

    closed spec fn view(&self) -> Seq<u8> {
        self.bytes@
    }
}

impl View for G1Point {
    type V = Seq<u8>;

    closed spec fn view(&self) -> Seq<u8> {
        self.bytes@
    }
}

impl View for G2Point {
    type V = Seq<u8>;

    closed spec fn view(&self) -> Seq<u8> {
        self.bytes@
    }
}

impl Scalar {
    /// Established by every constructor: scalars only ever hold canonical
    /// 32-byte encodings of field elements.
    #[verifier::type_invariant]
    pub open spec fn type_inv(self) -> bool {
        scalar_wf(self@)
    }
}

impl G1Point {
    /// Established by every constructor: G1 elements only ever hold valid
    /// 48-byte compressed encodings.
    #[verifier::type_invariant]
    pub open spec fn type_inv(self) -> bool {
        is_g1(self@) && self@.len() == 48
    }
}

impl G2Point {
    /// Established by every constructor: G2 elements only ever hold valid
    /// 96-byte compressed encodings.
    #[verifier::type_invariant]
    pub open spec fn type_inv(self) -> bool {
        is_g2(self@) && self@.len() == 96
    }
}

/// Copies a byte string into a fresh vector.
pub fn copy_bytes(v: &[u8]) -> (r: Vec<u8>)
    ensures
        r@ == v@,
{
    let mut r: Vec<u8> = Vec::new();
    let mut i: usize = 0;
    while i < v.len()
        invariant
            i <= v@.len(),
            r@ =~= v@.subrange(0, i as int),
        decreases v@.len() - i,
    {
        r.push(v[i]);
        i += 1;
    }
    proof {
        assert(r@ =~= v@);
    }
    r
}

impl Clone for Scalar {
    fn clone(&self) -> (r: Self)
        ensures
            r@ == self@,
    {
        proof {
            use_type_invariant(&*self);
        }
        Scalar { bytes: copy_bytes(self.bytes.as_slice()) }
    }
}

impl Clone for G1Point {
    /// Relies on curv's `Point::clone`: the copy denotes the same element,
    /// so it keeps the same encoding.
    #[verifier::external_body]
    fn clone(&self) -> (r: Self)
        ensures
            r@ == self@,
    {
        G1Point { bytes: self.bytes.clone(), raw: RawG1 { pt: self.raw.pt.clone() } }
    }
}

impl Clone for G2Point {
    /// Relies on curv's `Point::clone`: the copy denotes the same element,
    /// so it keeps the same encoding.
    #[verifier::external_body]
    fn clone(&self) -> (r: Self)
        ensures
            r@ == self@,
    {
        G2Point { bytes: self.bytes.clone(), raw: RawG2 { pt: self.raw.pt.clone() } }
    }
}

impl Scalar {
    /// Relies on curv's `Scalar::<Bls12_381_2>::random`: a uniformly sampled
    /// field element, serialized to its canonical 32-byte form.
    #[verifier::external_body]
    pub fn random() -> (r: Scalar)
        ensures
            scalar_wf(r@),
    {
        let s = curv::elliptic::curves::Scalar::<curv::elliptic::curves::Bls12_381_2>::random();
        Scalar { bytes: s.to_bytes().to_vec() }
    }

    /// Relies on curv's `Scalar` addition: field addition modulo the group order.
    #[verifier::external_body]
    pub fn add(&self, other: &Scalar) -> (r: Scalar)
        ensures
            r@ == fr_of(be_nat(self@) + be_nat(other@)),
            scalar_wf(r@),
    {
        let a = curv::elliptic::curves::Scalar::<curv::elliptic::curves::Bls12_381_2>::from_bytes(
            self.bytes.as_slice(),
        ).unwrap();
        let b = curv::elliptic::curves::Scalar::<curv::elliptic::curves::Bls12_381_2>::from_bytes(
            other.bytes.as_slice(),
        ).unwrap();
        Scalar { bytes: (a + b).to_bytes().to_vec() }
    }

    /// Relies on curv's `Scalar` multiplication: field multiplication modulo
    /// the group order.
    #[verifier::external_body]
    pub fn mul(&self, other: &Scalar) -> (r: Scalar)
        ensures
            r@ == fr_of(be_nat(self@) * be_nat(other@)),
            scalar_wf(r@),
    {
        let a = curv::elliptic::curves::Scalar::<curv::elliptic::curves::Bls12_381_2>::from_bytes(
            self.bytes.as_slice(),
        ).unwrap();
        let b = curv::elliptic::curves::Scalar::<curv::elliptic::curves::Bls12_381_2>::from_bytes(
            other.bytes.as_slice(),
        ).unwrap();
        Scalar { bytes: (a * b).to_bytes().to_vec() }
    }

    /// Relies on curv's `Scalar::from_bigint`: reduces a non-negative big
    /// integer modulo the group order.
    #[verifier::external_body]
    pub fn from_bigint_bytes(b: &[u8]) -> (r: Scalar)
        ensures
            r@ == fr_of(be_nat(b@)),
            scalar_wf(r@),
    {
        let n = curv::BigInt::from_bytes(b);
        let s = curv::elliptic::curves::Scalar::<
            curv::elliptic::curves::Bls12_381_2,
        >::from_bigint(&n);
        Scalar { bytes: s.to_bytes().to_vec() }
    }

    /// Relies on curv's `Scalar::from_bytes`: accepts exactly the 32-byte
    /// strings whose big-endian value lies below the group order.
    #[verifier::external_body]
    pub fn from_bytes(b: &[u8]) -> (r: Option<Scalar>)
        ensures
            r is Some <==> scalar_wf(b@),
            r is Some ==> r->Some_0@ == b@,
    {
        match curv::elliptic::curves::Scalar::<curv::elliptic::curves::Bls12_381_2>::from_bytes(
            b,
        ) {
            Ok(_) => Some(Scalar { bytes: b.to_vec() }),
            Err(_) => None,
        }
    }

    /// The canonical 32-byte encoding.
    pub fn to_bytes(&self) -> (r: Vec<u8>)
        ensures
            r@ == self@,
    {
        copy_bytes(self.bytes.as_slice())
    }

    /// The value as minimal big-endian bytes, as curv's `to_bigint` encodes it.
    pub fn to_bigint_bytes(&self) -> (r: Vec<u8>)
        ensures
            canon(r@),
            be_nat(r@) == be_nat(self@),
    {
        trim_leading_zeros(self.bytes.as_slice())
    }
}

impl G1Point {
    /// Relies on curv's `Point::<Bls12_381_1>::generator`: the standard base
    /// point, whose compressed encoding is the fixed string below.
    #[verifier::external_body]
    pub fn generator() -> (r: G1Point)
        ensures
            r@ == g1_gen_bytes(),
            is_g1(r@),
            r@.len() == 48,
    {
        let g = CurvePoint::<Bls12_381_1>::generator().to_point();
        G1Point { bytes: g.to_bytes(true).to_vec(), raw: RawG1 { pt: g } }
    }

    /// Relies on curv's `Point::<Bls12_381_1>::hash_to_curve`: deterministic
    /// IETF hash-to-curve of the message into G1.
    #[verifier::external_body]
    pub fn hash_to_curve(message: &[u8]) -> (r: G1Point)
        ensures
            r@ == hash_to_g1_n(message@),
            is_g1(r@),
            r@.len() == 48,
    {
        let p = CurvePoint::<Bls12_381_1>::from_raw(
            curv::elliptic::curves::bls12_381::g1::G1Point::hash_to_curve(message),
        ).expect("hash_to_curve returns a valid point");
        G1Point { bytes: p.to_bytes(true).to_vec(), raw: RawG1 { pt: p } }
    }

    /// Relies on curv's `Point` scalar multiplication in G1.
    #[verifier::external_body]
    pub fn mul(&self, s: &Scalar) -> (r: G1Point)
        ensures
            r@ == g1_mul_n(self@, s@),
            is_g1(r@),
            r@.len() == 48,
    {
        let k = curv::elliptic::curves::Scalar::<Bls12_381_1>::from_bytes(
            s.bytes.as_slice(),
        ).unwrap();
        let p = &self.raw.pt * k;
        G1Point { bytes: p.to_bytes(true).to_vec(), raw: RawG1 { pt: p } }
    }

    /// Relies on curv's `Point` addition in G1.
    #[verifier::external_body]
    pub fn add(&self, other: &G1Point) -> (r: G1Point)
        ensures
            r@ == g1_add_n(self@, other@),
            is_g1(r@),
            r@.len() == 48,
    {
        let p = &self.raw.pt + &other.raw.pt;
        G1Point { bytes: p.to_bytes(true).to_vec(), raw: RawG1 { pt: p } }
    }

    /// Relies on curv's `Point::<Bls12_381_1>::from_bytes`: accepts exactly
    /// the valid 48-byte compressed encodings (this constructor does not take
    /// the 96-byte uncompressed form).
    #[verifier::external_body]
    pub fn from_bytes(b: &[u8]) -> (r: Option<G1Point>)
        ensures
            r is Some <==> is_g1(b@),
            r is Some ==> r->Some_0@ == b@ && b@.len() == 48,
    {
        if b.len() != 48 {
            return None;
        }
        match CurvePoint::<Bls12_381_1>::from_bytes(b) {
            Ok(p) => Some(G1Point { bytes: b.to_vec(), raw: RawG1 { pt: p } }),
            Err(_) => None,
        }
    }

    /// The canonical 48-byte compressed encoding.
    pub fn to_bytes(&self) -> (r: Vec<u8>)
        ensures
            r@ == self@,
    {
        copy_bytes(self.bytes.as_slice())
    }

    /// Relies on curv's `Point::to_bytes(false)`: the 96-byte uncompressed
    /// encoding of the same element.
    #[verifier::external_body]
    pub fn to_bytes_uncompressed(&self) -> (r: Vec<u8>)
        ensures
            r@ == g1_uncomp_n(self@),
            r@.len() == 96,
    {
        self.raw.pt.to_bytes(false).to_vec()
    }
}

impl G2Point {
    /// Relies on curv's `Point::<Bls12_381_2>::generator`: the standard base
    /// point, whose compressed encoding is the fixed string below.
    #[verifier::external_body]
    pub fn generator() -> (r: G2Point)
        ensures
            r@ == g2_gen_bytes(),
            is_g2(r@),
            r@.len() == 96,
    {
        let g = CurvePoint::<Bls12_381_2>::generator().to_point();
        G2Point { bytes: g.to_bytes(true).to_vec(), raw: RawG2 { pt: g } }
    }

    /// Relies on curv's `Point` scalar multiplication in G2.
    #[verifier::external_body]
    pub fn mul(&self, s: &Scalar) -> (r: G2Point)
        ensures
            r@ == g2_mul_n(self@, s@),
            is_g2(r@),
            r@.len() == 96,
    {
        let k = curv::elliptic::curves::Scalar::<Bls12_381_2>::from_bytes(
            s.bytes.as_slice(),
        ).unwrap();
        let p = &self.raw.pt * k;
        G2Point { bytes: p.to_bytes(true).to_vec(), raw: RawG2 { pt: p } }
    }

    /// Relies on curv's `Point` addition in G2.
    #[verifier::external_body]
    pub fn add(&self, other: &G2Point) -> (r: G2Point)
        ensures
            r@ == g2_add_n(self@, other@),
            is_g2(r@),
            r@.len() == 96,
    {
        let p = &self.raw.pt + &other.raw.pt;
        G2Point { bytes: p.to_bytes(true).to_vec(), raw: RawG2 { pt: p } }
    }

    /// Relies on curv's `Point::<Bls12_381_2>::from_bytes`: accepts exactly
    /// the valid 96-byte compressed encodings (this constructor does not take
    /// the 192-byte uncompressed form).
    #[verifier::external_body]
    pub fn from_bytes(b: &[u8]) -> (r: Option<G2Point>)
        ensures
            r is Some <==> is_g2(b@),
            r is Some ==> r->Some_0@ == b@ && b@.len() == 96,
    {
        if b.len() != 96 {
            return None;
        }
        match CurvePoint::<Bls12_381_2>::from_bytes(b) {
            Ok(p) => Some(G2Point { bytes: b.to_vec(), raw: RawG2 { pt: p } }),
            Err(_) => None,
        }
    }

    /// The canonical 96-byte compressed encoding.
    pub fn to_bytes(&self) -> (r: Vec<u8>)
        ensures
            r@ == self@,
    {
        copy_bytes(self.bytes.as_slice())
    }
}

/// Byte equality of two G1 elements; canonical encodings make this element
/// equality.
pub fn g1_eq(a: &G1Point, b: &G1Point) -> (r: bool)
    ensures
        r == (a@ == b@),
{
    bytes_eq(a.bytes.as_slice(), b.bytes.as_slice())
}

/// Byte equality of two G2 elements; canonical encodings make this element
/// equality.
pub fn g2_eq(a: &G2Point, b: &G2Point) -> (r: bool)
    ensures
        r == (a@ == b@),
{
    bytes_eq(a.bytes.as_slice(), b.bytes.as_slice())
}

pub open spec fn g1_views(s: Seq<G1Point>) -> Seq<Seq<u8>> {
    s.map_values(|p: G1Point| p@)
}

pub open spec fn g2_views(s: Seq<G2Point>) -> Seq<Seq<u8>> {
    s.map_values(|p: G2Point| p@)
}

/// Relies on curv's `Pair::efficient_pairing_mul` and `ff_zeroize`'s
/// `Fq12::one`: decides `e(hm, pk) * e(sig, -g2) == 1`, that is
/// `e(hm, pk) == e(sig, g2)`.
#[verifier::external_body]
pub fn bls_pair_check(hm: &G1Point, pk: &G2Point, sig: &G1Point) -> (r: bool)
    ensures
        r == bls_pair_check_n(hm@, pk@, sig@),
{
    let neg_g2 = -CurvePoint::<Bls12_381_2>::generator();
    let product = Pair::efficient_pairing_mul(&hm.raw.pt, &pk.raw.pt, &sig.raw.pt, &neg_g2);
    product.e == pairing_plus::bls12_381::Fq12::one()
}

/// Relies on curv's `Pair::compute_pairing` and `Pair::add_pair`: decides
/// whether the product of `e(hms[i], pks[i])` over the whole batch equals
/// `e(sig, g2)`.
#[verifier::external_body]
pub fn agg_pair_check(hms: &Vec<G1Point>, pks: &Vec<G2Point>, sig: &G1Point) -> (r: bool)
    requires
        hms@.len() == pks@.len(),
        hms@.len() > 0,
    ensures
        r == agg_pair_check_n(g1_views(hms@), g2_views(pks@), sig@),
{
    let rhs = Pair::compute_pairing(&sig.raw.pt, &CurvePoint::<Bls12_381_2>::generator().to_point());
    let mut lhs: Option<Pair> = None;
    for i in 0..hms.len() {
        let e = Pair::compute_pairing(&hms[i].raw.pt, &pks[i].raw.pt);
        lhs = Some(match lhs {
            None => e,
            Some(acc) => acc.add_pair(&e),
        });
    }
    lhs.unwrap().e == rhs.e
}

} // verus!
