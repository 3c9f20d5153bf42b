//! 256-bit unsigned numbers held as 32 big-endian bytes, and the order of
//! the secp256k1 group.
use vstd::prelude::*;

verus! {

/// `256` raised to the power `n`.
pub open spec fn pow256(n: nat) -> nat
    decreases n,
{
    if n == 0 {
        1
    } else {
        256 * pow256((n - 1) as nat)
    }
}

/// The number that a big-endian byte string stands for.
pub open spec fn be_value(s: Seq<u8>) -> nat
    decreases s.len(),
{
    if s.len() == 0 {
        0
    } else {
        be_value(s.drop_last()) * 256 + s.last() as nat
    }
}

/// The order `n` of the secp256k1 group.
pub open spec fn curve_order() -> nat {
    0xFFFFFFFFFFFFFFFFFFFFFFFFFFFFFFFEBAAEDCE6AF48A03BBFD25E8CD0364141nat
}

/// The order `n` of the secp256k1 group, big-endian.
pub const CURVE_ORDER: [u8; 32] = [
    0xff, 0xff, 0xff, 0xff, 0xff, 0xff, 0xff, 0xff, 0xff, 0xff, 0xff, 0xff, 0xff, 0xff, 0xff, 0xfe,
    0xba, 0xae, 0xdc, 0xe6, 0xaf, 0x48, 0xa0, 0x3b, 0xbf, 0xd2, 0x5e, 0x8c, 0xd0, 0x36, 0x41, 0x41,
];

/// `n / 2` (rounded down), big-endian: the largest "low" value.
pub const CURVE_ORDER_HALF: [u8; 32] = [
    0x7f, 0xff, 0xff, 0xff, 0xff, 0xff, 0xff, 0xff, 0xff, 0xff, 0xff, 0xff, 0xff, 0xff, 0xff, 0xff,
    0x5d, 0x57, 0x6e, 0x73, 0x57, 0xa4, 0x50, 0x1d, 0xdf, 0xe9, 0x2f, 0x46, 0x68, 0x1b, 0x20, 0xa0,
];

/// A 32-byte string that stands for a number below the group order.
pub open spec fn is_scalar(s: Seq<u8>) -> bool {
    s.len() == 32 && be_value(s) < curve_order()
}

/// A scalar above `n / 2`.
pub open spec fn is_high(s: Seq<u8>) -> bool {
    be_value(s) > curve_order() / 2
}

/// A string of `k` bytes stands for less than `256^k`.
pub proof fn lemma_be_value_bound(s: Seq<u8>)
    ensures
        be_value(s) < pow256(s.len()),
    decreases s.len(),
{
    if s.len() > 0 {
        lemma_be_value_bound(s.drop_last());
        let p = pow256((s.len() - 1) as nat);
        let v = be_value(s.drop_last());
        assert(v * 256 + s.last() < p * 256) by (nonlinear_arith)
            requires
                v < p,
                s.last() < 256,
        ;
    }
}

/// The value of a concatenation.
pub proof fn lemma_be_value_concat(a: Seq<u8>, b: Seq<u8>)
    ensures
        be_value(a + b) == be_value(a) * pow256(b.len()) + be_value(b),
    decreases b.len(),
{
    if b.len() == 0 {
        assert(a + b =~= a);
        assert(be_value(b) == 0);
        assert(pow256(0) == 1);
    } else {
        assert((a + b).drop_last() =~= a + b.drop_last());
        lemma_be_value_concat(a, b.drop_last());
        let x = be_value(a);
        let p = pow256((b.len() - 1) as nat);
        let y = be_value(b.drop_last());
        assert((a + b).last() == b.last());
        assert(be_value(a + b) == be_value((a + b).drop_last()) * 256 + (a + b).last());
        assert(pow256(b.len()) == 256 * p);
        assert(be_value(b) == y * 256 + b.last());
        assert((x * p + y) * 256 + b.last() == x * (256 * p) + (y * 256 + b.last())) by (nonlinear_arith);
    }
}

/// The value of the first `i + 1` bytes in terms of the first `i`.
pub proof fn lemma_be_value_take_step(s: Seq<u8>, i: int)
    requires
        0 <= i < s.len(),
    ensures
        be_value(s.take(i + 1)) == be_value(s.take(i)) * 256 + s[i],
{
    assert(s.take(i + 1).drop_last() =~= s.take(i));
}

/// The value of all bytes from index `i` on in terms of those from `i + 1` on.
pub proof fn lemma_be_value_skip_step(s: Seq<u8>, i: int)
    requires
        0 <= i < s.len(),
    ensures
        be_value(s.skip(i)) == s[i] * pow256((s.len() - i - 1) as nat) + be_value(s.skip(i + 1)),
{
    assert(s.skip(i) =~= seq![s[i]] + s.skip(i + 1));
    lemma_be_value_concat(seq![s[i]], s.skip(i + 1));
    assert(seq![s[i]].drop_last() =~= Seq::<u8>::empty());
    assert(be_value(Seq::<u8>::empty()) == 0);
    assert(be_value(seq![s[i]]) == s[i]);
    assert(s.skip(i + 1).len() == s.len() - i - 1);
}

/// The value of eight bytes.
proof fn lemma_be_value_8(b: Seq<u8>)
    requires
        b.len() == 8,
    ensures
        be_value(b) == b[0] * 0x100000000000000 + b[1] * 0x1000000000000 + b[2] * 0x10000000000
            + b[3] * 0x100000000 + b[4] * 0x1000000 + b[5] * 0x10000 + b[6] * 0x100 + b[7],
{
    reveal_with_fuel(be_value, 9);
    assert(b.drop_last().drop_last().drop_last().drop_last().drop_last().drop_last().drop_last().drop_last()
        =~= Seq::<u8>::empty());
}

/// The value of 32 bytes from the values of its four 8-byte quarters.
proof fn lemma_be_value_32(b: Seq<u8>)
    requires
        b.len() == 32,
    ensures
        be_value(b) == be_value(b.subrange(0, 8)) * 0x1000000000000000000000000000000000000000000000000nat
            + be_value(b.subrange(8, 16)) * 0x100000000000000000000000000000000nat + be_value(
            b.subrange(16, 24),
        ) * 0x10000000000000000nat + be_value(b.subrange(24, 32)),
{
    let q0 = b.subrange(0, 8);
    let q1 = b.subrange(8, 16);
    let q2 = b.subrange(16, 24);
    let q3 = b.subrange(24, 32);
    assert(b =~= ((q0 + q1) + q2) + q3);
    lemma_be_value_concat((q0 + q1) + q2, q3);
    lemma_be_value_concat(q0 + q1, q2);
    lemma_be_value_concat(q0, q1);
    reveal_with_fuel(pow256, 9);
    assert(pow256(8) == 0x10000000000000000nat);
    let p = 0x10000000000000000nat;
    let v0 = be_value(q0);
    let v1 = be_value(q1);
    let v2 = be_value(q2);
    let v3 = be_value(q3);
    assert(be_value(q0 + q1) == v0 * p + v1);
    assert(be_value((q0 + q1) + q2) == (v0 * p + v1) * p + v2);
    assert(be_value(b) == ((v0 * p + v1) * p + v2) * p + v3);
    assert(((v0 * p + v1) * p + v2) * p + v3 == v0 * 0x1000000000000000000000000000000000000000000000000nat
        + v1 * 0x100000000000000000000000000000000nat + v2 * 0x10000000000000000nat + v3)
        by (nonlinear_arith)
        requires
            p == 0x10000000000000000nat,
    ;
}

proof fn lemma_pow256_add(a: nat, b: nat)
    ensures
        pow256(a + b) == pow256(a) * pow256(b),
    decreases a,
{
    if a > 0 {
        lemma_pow256_add((a - 1) as nat, b);
        assert(pow256(a + b) == 256 * pow256((a - 1 + b) as nat));
        let x = pow256((a - 1) as nat);
        let y = pow256(b);
        assert(pow256(a) == 256 * x);
        assert(pow256((a - 1) as nat + b) == x * y);
        assert(256 * (x * y) == (256 * x) * y) by (nonlinear_arith);
    } else {
        assert(pow256(a) == 1);
        assert(a + b == b);
    }
}

/// `256^32`, the bound of 32-byte numbers, exceeds the group order.
pub proof fn lemma_pow256_32()
    ensures
        pow256(32) > curve_order(),
{
    lemma_pow256_add(16, 16);
    lemma_pow256_add(8, 8);
    reveal_with_fuel(pow256, 9);
    assert(pow256(8) == 0x10000000000000000nat);
    assert(pow256(16) == 0x100000000000000000000000000000000nat);
    assert(pow256(32) == pow256(16) * pow256(16));
    let h = pow256(16);
    assert(h * h == 0x10000000000000000000000000000000000000000000000000000000000000000nat)
        by (nonlinear_arith)
        requires
            h == 0x100000000000000000000000000000000nat,
    ;
    assert(pow256(32) == 0x10000000000000000000000000000000000000000000000000000000000000000nat);
}

/// The byte arrays `CURVE_ORDER` and `CURVE_ORDER_HALF` stand for `n` and
/// `n / 2`.
pub proof fn lemma_curve_order_bytes()
    ensures
        be_value(CURVE_ORDER@) == curve_order(),
        be_value(CURVE_ORDER_HALF@) == curve_order() / 2,
{
    let n = CURVE_ORDER@;
    let h = CURVE_ORDER_HALF@;
    lemma_be_value_32(n);
    lemma_be_value_32(h);
    lemma_be_value_8(n.subrange(0, 8));
    lemma_be_value_8(n.subrange(8, 16));
    lemma_be_value_8(n.subrange(16, 24));
    lemma_be_value_8(n.subrange(24, 32));
    lemma_be_value_8(h.subrange(0, 8));
    lemma_be_value_8(h.subrange(8, 16));
    lemma_be_value_8(h.subrange(16, 24));
    lemma_be_value_8(h.subrange(24, 32));
    assert(be_value(n.subrange(0, 8)) == 0xFFFFFFFFFFFFFFFFnat);
    assert(be_value(n.subrange(8, 16)) == 0xFFFFFFFFFFFFFFFEnat);
    assert(be_value(n.subrange(16, 24)) == 0xBAAEDCE6AF48A03Bnat);
    assert(be_value(n.subrange(24, 32)) == 0xBFD25E8CD0364141nat);
    assert(be_value(h.subrange(0, 8)) == 0x7FFFFFFFFFFFFFFFnat);
    assert(be_value(h.subrange(8, 16)) == 0xFFFFFFFFFFFFFFFFnat);
    assert(be_value(h.subrange(16, 24)) == 0x5D576E7357A4501Dnat);
    assert(be_value(h.subrange(24, 32)) == 0xDFE92F46681B20A0nat);
}

/// The `n`-byte big-endian representation of `v` (its low `n` bytes).
pub open spec fn be_bytes(v: nat, n: nat) -> Seq<u8>
    decreases n,
{
    if n == 0 {
        Seq::empty()
    } else {
        be_bytes(v / 256, (n - 1) as nat).push((v % 256) as u8)
    }
}

/// A number below `256^n` is what its `n` bytes stand for.
pub proof fn lemma_be_bytes_value(v: nat, n: nat)
    requires
        v < pow256(n),
    ensures
        be_bytes(v, n).len() == n,
        be_value(be_bytes(v, n)) == v,
    decreases n,
{
    if n > 0 {
        let p = pow256((n - 1) as nat);
        assert(v / 256 < p) by (nonlinear_arith)
            requires
                v < 256 * p,
        ;
        lemma_be_bytes_value(v / 256, (n - 1) as nat);
        let b = be_bytes(v, n);
        assert(b.drop_last() =~= be_bytes(v / 256, (n - 1) as nat));
        assert(v == (v / 256) * 256 + v % 256);
    } else {
        assert(v == 0);
    }
}

/// A byte string is the representation of its own value.
pub proof fn lemma_be_value_bytes(x: Seq<u8>)
    ensures
        be_bytes(be_value(x), x.len()) == x,
    decreases x.len(),
{
    if x.len() > 0 {
        lemma_be_value_bytes(x.drop_last());
        let v = be_value(x);
        let w = be_value(x.drop_last());
        assert(v == w * 256 + x.last());
        assert(v / 256 == w && v % 256 == x.last()) by (nonlinear_arith)
            requires
                v == w * 256 + x.last(),
                x.last() < 256,
        ;
        assert(be_bytes(v, x.len()) =~= x.drop_last().push(x.last()));
        assert(x.drop_last().push(x.last()) =~= x);
    } else {
        assert(be_bytes(0, 0) =~= x);
    }
}

/// Whether the number `a` stands for is below the one `b` stands for.
/// Looks at every byte, whatever the inputs.
pub fn be_lt(a: &[u8; 32], b: &[u8; 32]) -> (res: bool)
    ensures
        res == (be_value(a@) < be_value(b@)),
{
    let mut lt = false;
    let mut eq = true;
    let mut i: usize = 0;
    while i < 32
        invariant
            0 <= i <= 32,
            a@.len() == 32,
            b@.len() == 32,
            lt == (be_value(a@.take(i as int)) < be_value(b@.take(i as int))),
            eq == (be_value(a@.take(i as int)) == be_value(b@.take(i as int))),
        decreases 32 - i,
    {
        proof {
            lemma_be_value_take_step(a@, i as int);
            lemma_be_value_take_step(b@, i as int);
        }
        let x = a[i];
        let y = b[i];
        if eq {
            lt = x < y;
            eq = x == y;
        }
        i = i + 1;
    }
    assert(a@.take(32) =~= a@);
    assert(b@.take(32) =~= b@);
    lt
}

/// `a - b` for `b <= a`.
pub fn be_sub(a: &[u8; 32], b: &[u8; 32]) -> (res: [u8; 32])
    requires
        be_value(b@) <= be_value(a@),
    ensures
        be_value(res@) == be_value(a@) - be_value(b@),
{
    let mut res = [0u8; 32];
    let mut borrow: u8 = 0;
    let mut k: usize = 32;
    while k > 0
        invariant
            0 <= k <= 32,
            a@.len() == 32,
            b@.len() == 32,
            res@.len() == 32,
            borrow <= 1,
            be_value(res@.skip(k as int)) + be_value(b@.skip(k as int)) == be_value(a@.skip(k as int))
                + borrow * pow256((32 - k) as nat),
        decreases k,
    {
        let i = k - 1;
        let x = a[i];
        let y = b[i];
        let d: u8;
        let nb: u8;
        if (x as u16) >= (y as u16) + (borrow as u16) {
            d = x - y - borrow;
            nb = 0;
        } else {
            d = ((x as u16) + 256 - (y as u16) - (borrow as u16)) as u8;
            nb = 1;
        }
        let ghost old_res = res@;
        res[i] = d;
        proof {
            assert(res@.skip(k as int) =~= old_res.skip(k as int));
            lemma_be_value_skip_step(res@, i as int);
            lemma_be_value_skip_step(a@, i as int);
            lemma_be_value_skip_step(b@, i as int);
            let p = pow256((32 - k) as nat);
            assert(d + y == x - borrow + 256 * nb);
            assert(d * p + y * p == x * p - borrow * p + nb * (256 * p)) by (nonlinear_arith)
                requires
                    d + y == x - borrow + 256 * nb,
            ;
        }
        borrow = nb;
        k = i;
    }
    assert(a@.skip(0) =~= a@);
    assert(b@.skip(0) =~= b@);
    assert(res@.skip(0) =~= res@);
    proof {
        lemma_be_value_bound(res@);
        lemma_be_value_bound(b@);
        lemma_be_value_bound(a@);
        assert(be_value(res@) + be_value(b@) == be_value(a@) + borrow * pow256(32));
        assert(be_value(res@) < pow256(32));
        if borrow == 1 {
            assert(false);
        }
    }
    res
}

/// Whether all 32 bytes are zero, that is, whether the number is zero.
pub fn be_is_zero(a: &[u8; 32]) -> (res: bool)
    ensures
        res == (be_value(a@) == 0),
{
    let mut acc: u8 = 0;
    let mut i: usize = 0;
    while i < 32
        invariant
            0 <= i <= 32,
            a@.len() == 32,
            (acc == 0) == (be_value(a@.take(i as int)) == 0),
        decreases 32 - i,
    {
        proof {
            lemma_be_value_take_step(a@, i as int);
        }
        let x = a[i];
        assert((acc | x) == 0 <==> (acc == 0 && x == 0)) by (bit_vector);
        acc = acc | x;
        i = i + 1;
    }
    assert(a@.take(32) =~= a@);
    acc == 0
}

} // verus!
