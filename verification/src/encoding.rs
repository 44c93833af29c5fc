use vstd::prelude::*;

verus! {

/// Value of a byte string read as a big-endian natural number.
pub open spec fn be_nat(s: Seq<u8>) -> nat
    decreases s.len(),
{
    if s.len() == 0 {
        0
    } else {
        (be_nat(s.drop_last()) * 256 + s.last()) as nat
    }
}

/// 256^len.
pub open spec fn pow256(len: nat) -> nat
    decreases len,
{
    if len == 0 {
        1
    } else {
        256 * pow256((len - 1) as nat)
    }
}

/// Big-endian encoding of `n` in exactly `len` bytes (truncating high bytes).
pub open spec fn nat_to_be(n: nat, len: nat) -> Seq<u8>
    decreases len,
{
    if len == 0 {
        Seq::empty()
    } else {
        nat_to_be(n / 256, (len - 1) as nat).push((n % 256) as u8)
    }
}

/// Minimal big-endian encoding of `n`: no leading zero byte, empty for zero.
pub open spec fn nat_to_min_be(n: nat) -> Seq<u8>
    decreases n,
{
    if n == 0 {
        Seq::empty()
    } else {
        nat_to_min_be(n / 256).push((n % 256) as u8)
    }
}

/// A byte string is canonical when it carries no leading zero byte.
pub open spec fn canon(s: Seq<u8>) -> bool {
    s.len() == 0 || s[0] != 0
}

pub proof fn lemma_nat_to_be_len(n: nat, len: nat)
    ensures
        nat_to_be(n, len).len() == len,
    decreases len,
{
    if len > 0 {
        lemma_nat_to_be_len(n / 256, (len - 1) as nat);
    }
}

pub proof fn lemma_be_nat_of_nat_to_be(n: nat, len: nat)
    requires
        n < pow256(len),
    ensures
        be_nat(nat_to_be(n, len)) == n,
    decreases len,
{
    if len == 0 {
    } else {
        let s = nat_to_be(n, len);
        lemma_nat_to_be_len(n / 256, (len - 1) as nat);
        assert(s.drop_last() =~= nat_to_be(n / 256, (len - 1) as nat));
        lemma_be_nat_of_nat_to_be(n / 256, (len - 1) as nat);
    }
}

pub proof fn lemma_nat_to_be_of_be_nat(s: Seq<u8>)
    ensures
        nat_to_be(be_nat(s), s.len()) == s,
    decreases s.len(),
{
    if s.len() > 0 {
        let v = be_nat(s);
        let bv = be_nat(s.drop_last());
        assert(v == bv * 256 + s.last());
        assert(v / 256 == bv) by (nonlinear_arith)
            requires
                v == bv * 256 + s.last(),
                s.last() < 256,
        ;
        assert(v % 256 == s.last()) by (nonlinear_arith)
            requires
                v == bv * 256 + s.last(),
                s.last() < 256,
        ;
        lemma_nat_to_be_of_be_nat(s.drop_last());
        assert(nat_to_be(v, s.len()) =~= s);
    }
}

pub proof fn lemma_be_nat_bound(s: Seq<u8>)
    ensures
        be_nat(s) < pow256(s.len()),
    decreases s.len(),
{
    if s.len() > 0 {
        lemma_be_nat_bound(s.drop_last());
        let bv = be_nat(s.drop_last());
        assert(bv * 256 + s.last() < pow256(s.len())) by (nonlinear_arith)
            requires
                bv < pow256((s.len() - 1) as nat),
                s.last() < 256,
                pow256(s.len()) == 256 * pow256((s.len() - 1) as nat),
        ;
    }
}

/// Dropping a leading zero byte keeps the value.
pub proof fn lemma_be_nat_skip_zero(s: Seq<u8>)
    requires
        s.len() > 0,
        s[0] == 0,
    ensures
        be_nat(s.skip(1)) == be_nat(s),
    decreases s.len(),
{
    if s.len() == 1 {
        assert(s.skip(1) =~= Seq::<u8>::empty());
        assert(s.drop_last() =~= Seq::<u8>::empty());
    } else {
        let d = s.drop_last();
        assert(d[0] == 0);
        lemma_be_nat_skip_zero(d);
        assert(s.skip(1).drop_last() =~= d.skip(1));
        assert(s.skip(1).last() == s.last());
    }
}

/// Reading the first byte off the front of the string.
pub proof fn lemma_be_nat_first_byte(s: Seq<u8>)
    requires
        s.len() > 0,
    ensures
        be_nat(s) == s[0] * pow256((s.len() - 1) as nat) + be_nat(s.skip(1)),
    decreases s.len(),
{
    if s.len() == 1 {
        assert(s.skip(1) =~= Seq::<u8>::empty());
        assert(s.drop_last() =~= Seq::<u8>::empty());
        assert(be_nat(s) == be_nat(s.drop_last()) * 256 + s.last());
        assert(be_nat(s) == s[0]);
        assert(s[0] * pow256(0) == s[0] * 1 == s[0]) by (nonlinear_arith);
    } else {
        let d = s.drop_last();
        lemma_be_nat_first_byte(d);
        assert(s.skip(1).drop_last() =~= d.skip(1));
        assert(s.skip(1).last() == s.last());
        let p = pow256((d.len() - 1) as nat);
        let x = be_nat(d.skip(1));
        assert(be_nat(d) == s[0] * p + x);
        assert(be_nat(s) == be_nat(d) * 256 + s.last());
        assert(be_nat(s.skip(1)) == be_nat(s.skip(1).drop_last()) * 256 + s.skip(1).last());
        assert(be_nat(s.skip(1)) == x * 256 + s.last());
        assert((s[0] * p + x) * 256 + s.last() == s[0] * (256 * p) + (x * 256 + s.last()))
            by (nonlinear_arith);
        assert(pow256((s.len() - 1) as nat) == 256 * p);
        assert(be_nat(s) == s[0] * (256 * p) + be_nat(s.skip(1)));
    }
}

pub proof fn lemma_pow256_increases(a: nat, b: nat)
    requires
        a <= b,
    ensures
        pow256(a) <= pow256(b),
    decreases b,
{
    if a < b {
        lemma_pow256_increases(a, (b - 1) as nat);
    }
}

/// The minimal encoding is canonical and keeps the value.
pub proof fn lemma_min_be(n: nat)
    ensures
        canon(nat_to_min_be(n)),
        be_nat(nat_to_min_be(n)) == n,
        n > 0 ==> nat_to_min_be(n).len() > 0,
    decreases n,
{
    if n > 0 {
        lemma_min_be(n / 256);
        let prefix = nat_to_min_be(n / 256);
        let s = nat_to_min_be(n);
        assert(s == prefix.push((n % 256) as u8));
        assert(s.drop_last() =~= prefix);
        assert(s.last() == n % 256);
        if n / 256 == 0 {
            assert(prefix =~= Seq::<u8>::empty());
            assert(s.len() == 1);
            assert(s[0] == n % 256);
            assert(n < 256);
            assert(n % 256 == n);
        } else {
            assert(prefix.len() > 0);
            assert(s[0] == prefix[0]);
        }
        assert(be_nat(s) == be_nat(prefix) * 256 + n % 256);
        assert((n / 256) * 256 + n % 256 == n) by (nonlinear_arith);
    }
}

/// Canonical strings of equal value are equal.
pub proof fn lemma_canon_injective(a: Seq<u8>, b: Seq<u8>)
    requires
        canon(a),
        canon(b),
        be_nat(a) == be_nat(b),
    ensures
        a == b,
{
    if a.len() < b.len() {
        lemma_canon_shorter_smaller(a, b);
    } else if b.len() < a.len() {
        lemma_canon_shorter_smaller(b, a);
    } else {
        lemma_nat_to_be_of_be_nat(a);
        lemma_nat_to_be_of_be_nat(b);
    }
}

proof fn lemma_canon_shorter_smaller(a: Seq<u8>, b: Seq<u8>)
    requires
        canon(b),
        a.len() < b.len(),
    ensures
        be_nat(a) < be_nat(b),
{
    lemma_be_nat_bound(a);
    lemma_be_nat_first_byte(b);
    assert(b[0] >= 1);
    let p = pow256((b.len() - 1) as nat);
    assert(b[0] * p >= 1 * p) by (nonlinear_arith)
        requires
            b[0] >= 1,
            p >= 0,
    ;
    lemma_pow256_increases(a.len(), (b.len() - 1) as nat);
}

/// Strips leading zero bytes, keeping the value.
pub fn trim_leading_zeros(v: &[u8]) -> (r: Vec<u8>)
    ensures
        canon(r@),
        be_nat(r@) == be_nat(v@),
        r@.len() <= v@.len(),
{
    let mut i: usize = 0;
    proof {
        assert(v@.skip(0) =~= v@);
    }
    while i < v.len() && v[i] == 0
        invariant
            i <= v@.len(),
            be_nat(v@.skip(i as int)) == be_nat(v@),
        decreases v@.len() - i,
    {
        proof {
            lemma_be_nat_skip_zero(v@.skip(i as int));
            assert(v@.skip(i as int).skip(1) =~= v@.skip(i as int + 1));
        }
        i += 1;
    }
    let mut r: Vec<u8> = Vec::new();
    let mut j: usize = i;
    while j < v.len()
        invariant
            i <= j <= v@.len(),
            r@ =~= v@.subrange(i as int, j as int),
        decreases v@.len() - j,
    {
        r.push(v[j]);
        j += 1;
    }
    proof {
        assert(r@ =~= v@.skip(i as int));
    }
    r
}

/// Compares two byte strings as big-endian natural numbers.
pub fn be_nat_eq(a: &[u8], b: &[u8]) -> (r: bool)
    ensures
        r == (be_nat(a@) == be_nat(b@)),
{
    let ta = trim_leading_zeros(a);
    let tb = trim_leading_zeros(b);
    let eq = bytes_eq(ta.as_slice(), tb.as_slice());
    proof {
        if !eq && be_nat(a@) == be_nat(b@) {
            lemma_canon_injective(ta@, tb@);
        }
    }
    eq
}

/// Byte-for-byte equality of two strings.
pub fn bytes_eq(a: &[u8], b: &[u8]) -> (r: bool)
    ensures
        r == (a@ == b@),
{
    if a.len() != b.len() {
        return false;
    }
    let mut i: usize = 0;
    while i < a.len()
        invariant
            i <= a@.len(),
            a@.len() == b@.len(),
            forall|k: int| 0 <= k < i ==> a@[k] == b@[k],
        decreases a@.len() - i,
    {
        if a[i] != b[i] {
            return false;
        }
        i += 1;
    }
    proof {
        assert(a@ =~= b@);
    }
    true
}

/// Minimal big-endian bytes of a 16-bit integer.
pub fn u16_min_be(i: u16) -> (r: Vec<u8>)
    ensures
        canon(r@),
        be_nat(r@) == i,
        r@ == nat_to_min_be(i as nat),
{
    let mut r: Vec<u8> = Vec::new();
    if i == 0 {
        proof {
            assert(nat_to_min_be(0) =~= Seq::<u8>::empty());
        }
        return r;
    }
    if i < 256 {
        r.push(i as u8);
        proof {
            reveal_with_fuel(nat_to_min_be, 2);
            reveal_with_fuel(be_nat, 2);
            assert(r@ =~= nat_to_min_be(i as nat));
            assert(r@.drop_last() =~= Seq::<u8>::empty());
            assert(be_nat(r@) == be_nat(r@.drop_last()) * 256 + r@.last());
        }
        return r;
    }
    let hi = (i / 256) as u8;
    let lo = (i % 256) as u8;
    r.push(hi);
    r.push(lo);
    proof {
        reveal_with_fuel(nat_to_min_be, 3);
        reveal_with_fuel(be_nat, 3);
        assert(i as nat / 256 < 256);
        assert(i as nat / 256 > 0);
        assert(r@ =~= nat_to_min_be(i as nat));
        assert(r@.drop_last() =~= seq![hi]);
        assert(seq![hi].drop_last() =~= Seq::<u8>::empty());
        assert(be_nat(seq![hi]) == hi);
        assert(be_nat(r@) == be_nat(r@.drop_last()) * 256 + r@.last());
    }
    r
}

} // verus!
