//! The DER encoding of an ECDSA signature: `SEQUENCE { INTEGER r, INTEGER s }`.
use vstd::prelude::*;

verus! {

/// Drops leading zero bytes that DER does not need: a zero byte goes while
/// another byte follows and that byte does not have its top bit set.
pub open spec fn der_strip(b: Seq<u8>) -> Seq<u8>
    decreases b.len(),
{
    if b.len() > 1 && b[0] == 0 && b[1] < 0x80 {
        der_strip(b.drop_first())
    } else {
        b
    }
}

/// The content octets of the DER INTEGER for the unsigned big-endian `x`.
pub open spec fn der_int_body(x: Seq<u8>) -> Seq<u8> {
    der_strip(seq![0u8] + x)
}

/// The DER encoding of the compact signature `c == r || s`.
pub open spec fn der_encode(c: Seq<u8>) -> Seq<u8> {
    let r = der_int_body(c.take(32));
    let s = der_int_body(c.skip(32));
    seq![0x30u8, (4 + r.len() + s.len()) as u8, 0x02u8, r.len() as u8] + r + seq![
        0x02u8,
        s.len() as u8,
    ] + s
}

proof fn lemma_der_strip_len(b: Seq<u8>)
    requires
        b.len() >= 1,
    ensures
        1 <= der_strip(b).len() <= b.len(),
    decreases b.len(),
{
    if b.len() > 1 && b[0] == 0 && b[1] < 0x80 {
        lemma_der_strip_len(b.drop_first());
    }
}

proof fn lemma_be_value_zero_prefix(b: Seq<u8>)
    requires
        b.len() >= 1,
        b[0] == 0,
    ensures
        crate::scalar_bytes::be_value(b) == crate::scalar_bytes::be_value(b.drop_first()),
{
    crate::scalar_bytes::lemma_be_value_concat(seq![0u8], b.drop_first());
    assert(seq![0u8] + b.drop_first() =~= b);
    assert(seq![0u8].drop_last() =~= Seq::<u8>::empty());
    assert(crate::scalar_bytes::be_value(Seq::<u8>::empty()) == 0);
    assert(crate::scalar_bytes::be_value(seq![0u8]) == 0);
    let p = crate::scalar_bytes::pow256(b.drop_first().len());
    assert(0 * p == 0) by (nonlinear_arith);
}

proof fn lemma_der_strip_minimal(b: Seq<u8>)
    requires
        b.len() >= 1,
        b[0] < 0x80,
    ensures
        der_strip(b).len() >= 1,
        der_strip(b)[0] < 0x80,
        der_strip(b)[0] == 0 ==> der_strip(b).len() == 1 || der_strip(b)[1] >= 0x80,
        crate::scalar_bytes::be_value(der_strip(b)) == crate::scalar_bytes::be_value(b),
    decreases b.len(),
{
    if b.len() > 1 && b[0] == 0 && b[1] < 0x80 {
        lemma_be_value_zero_prefix(b);
        lemma_der_strip_minimal(b.drop_first());
    }
}

/// The content of each DER INTEGER is the minimal two's-complement form of
/// the unsigned number: it stands for the same number, is non-negative (top
/// bit clear), and starts with a zero byte only where the next byte has its
/// top bit set or the number is the single byte 0.
pub proof fn lemma_der_int_body_minimal(x: Seq<u8>)
    ensures
        der_int_body(x).len() >= 1,
        der_int_body(x)[0] < 0x80,
        der_int_body(x)[0] == 0 ==> der_int_body(x).len() == 1 || der_int_body(x)[1] >= 0x80,
        crate::scalar_bytes::be_value(der_int_body(x)) == crate::scalar_bytes::be_value(x),
{
    let b = seq![0u8] + x;
    lemma_der_strip_minimal(b);
    lemma_be_value_zero_prefix(b);
    assert(b.drop_first() =~= x);
}

/// In the DER encoding of a compact signature `r || s`, the two INTEGERs,
/// read at the positions their length bytes give, are minimal DER integers
/// for `r` and for `s`.
pub proof fn lemma_der_encode_minimal(c: Seq<u8>)
    requires
        c.len() == 64,
    ensures
        ({
            let e = der_encode(c);
            let lr = e[3] as int;
            let ls = e[5 + lr] as int;
            let rb = e.subrange(4, 4 + lr);
            let sb = e.subrange(6 + lr, 6 + lr + ls);
            &&& e[0] == 0x30 && e[1] == e.len() - 2 && e[2] == 0x02 && e[4 + lr] == 0x02
            &&& e.len() == 6 + lr + ls
            &&& 1 <= lr && 1 <= ls
            &&& rb[0] < 0x80 && sb[0] < 0x80
            &&& (rb[0] == 0 ==> lr == 1 || rb[1] >= 0x80)
            &&& (sb[0] == 0 ==> ls == 1 || sb[1] >= 0x80)
            &&& crate::scalar_bytes::be_value(rb) == crate::scalar_bytes::be_value(c.take(32))
            &&& crate::scalar_bytes::be_value(sb) == crate::scalar_bytes::be_value(c.skip(32))
        }),
{
    lemma_der_encode_len(c);
    lemma_der_int_body_minimal(c.take(32));
    lemma_der_int_body_minimal(c.skip(32));
    let r = der_int_body(c.take(32));
    let s = der_int_body(c.skip(32));
    let e = der_encode(c);
    let lr = r.len() as int;
    assert(e[3] == r.len() as u8);
    assert(e.subrange(4, 4 + lr) =~= r);
    assert(e[5 + lr] == s.len() as u8);
    assert(e.subrange(6 + lr, 6 + lr + s.len()) =~= s);
}

/// The integer bodies of 32-byte numbers take 1 to 33 bytes, so a signature
/// takes 8 to 72.
pub proof fn lemma_der_encode_len(c: Seq<u8>)
    requires
        c.len() == 64,
    ensures
        1 <= der_int_body(c.take(32)).len() <= 33,
        1 <= der_int_body(c.skip(32)).len() <= 33,
        8 <= der_encode(c).len() <= 72,
        der_encode(c).len() == 6 + der_int_body(c.take(32)).len() + der_int_body(c.skip(32)).len(),
{
    lemma_der_strip_len(seq![0u8] + c.take(32));
    lemma_der_strip_len(seq![0u8] + c.skip(32));
}

/// Writes the DER INTEGER (tag, length, content) for `x` into `out` at
/// `at` and returns the number of bytes written.
fn write_der_integer(x: &[u8; 32], out: &mut [u8; 72], at: usize) -> (n: usize)
    requires
        at + 35 <= 72,
    ensures
        n == 2 + der_int_body(x@).len(),
        final(out)@.len() == 72,
        final(out)@.subrange(at as int, at + n) == seq![0x02u8, der_int_body(x@).len() as u8]
            + der_int_body(x@),
        forall|k: int| 0 <= k < at ==> final(out)@[k] == old(out)@[k],
{
    let mut buf = [0u8; 33];
    let mut i: usize = 0;
    while i < 32
        invariant
            0 <= i <= 32,
            buf@.len() == 33,
            buf@[0] == 0,
            forall|k: int| 0 <= k < i ==> buf@[k + 1] == x@[k],
        decreases 32 - i,
    {
        buf[i + 1] = x[i];
        i = i + 1;
    }
    assert(buf@ =~= seq![0u8] + x@);
    let mut p: usize = 0;
    assert(buf@.skip(0) =~= buf@);
    while 33 - p > 1 && buf[p] == 0 && buf[p + 1] < 0x80
        invariant
            0 <= p < 33,
            buf@ == seq![0u8] + x@,
            der_strip(buf@.skip(p as int)) == der_int_body(x@),
        decreases 33 - p,
    {
        assert(buf@.skip(p as int).drop_first() =~= buf@.skip(p + 1));
        p = p + 1;
    }
    let len = 33 - p;
    assert(der_strip(buf@.skip(p as int)) == buf@.skip(p as int));
    proof {
        lemma_der_strip_len(buf@.skip(p as int));
    }
    let ghost before = out@;
    out[at] = 0x02;
    out[at + 1] = len as u8;
    let mut j: usize = 0;
    while j < len
        invariant
            0 <= p < 33,
            len == 33 - p,
            at + 35 <= 72,
            0 <= j <= len,
            buf@.len() == 33,
            out@.len() == 72,
            out@[at as int] == 0x02,
            out@[at + 1] == len as u8,
            forall|k: int| 0 <= k < j ==> #[trigger] out@[at + 2 + k] == buf@[p + k],
            forall|k: int| 0 <= k < at ==> out@[k] == before[k],
        decreases len - j,
    {
        out[at + 2 + j] = buf[p + j];
        j = j + 1;
    }
    assert forall|k: int| 0 <= k < 2 + len implies #[trigger] out@.subrange(at as int, at + 2 + len)[k]
        == (seq![0x02u8, len as u8] + buf@.skip(p as int))[k] by {
        if k >= 2 {
            assert(out@[at + 2 + (k - 2)] == buf@[p + (k - 2)]);
        }
    }
    assert(out@.subrange(at as int, at + 2 + len) =~= seq![0x02u8, len as u8] + buf@.skip(
        p as int,
    ));
    2 + len
}

/// Writes the DER encoding of the compact signature `c` into the front of a
/// 72-byte buffer and returns the buffer with the encoding's length.
pub fn der_serialize(c: &[u8; 64]) -> (res: ([u8; 72], usize))
    ensures
        res.1 <= 72,
        res.0@.take(res.1 as int) == der_encode(c@),
{
    let mut r = [0u8; 32];
    let mut s = [0u8; 32];
    let mut i: usize = 0;
    while i < 32
        invariant
            0 <= i <= 32,
            c@.len() == 64,
            forall|k: int| 0 <= k < i ==> r@[k] == c@[k] && s@[k] == c@[k + 32],
        decreases 32 - i,
    {
        r[i] = c[i];
        s[i] = c[i + 32];
        i = i + 1;
    }
    assert(r@ =~= c@.take(32));
    assert(s@ =~= c@.skip(32));
    proof {
        lemma_der_encode_len(c@);
    }
    let mut out = [0u8; 72];
    let nr = write_der_integer(&r, &mut out, 2);
    let ghost after_r = out@;
    let ns = write_der_integer(&s, &mut out, 2 + nr);
    out[0] = 0x30;
    out[1] = (nr + ns) as u8;
    let total = 2 + nr + ns;
    proof {
        let rb = der_int_body(c@.take(32));
        let sb = der_int_body(c@.skip(32));
        let head = seq![0x30u8, (nr + ns) as u8];
        let rpart = seq![0x02u8, rb.len() as u8] + rb;
        let spart = seq![0x02u8, sb.len() as u8] + sb;
        assert(der_encode(c@) =~= head + rpart + spart);
        let o = out@.take(total as int);
        assert(o.subrange(0, 2) =~= head);
        assert(o.subrange(2, 2 + nr) =~= rpart) by {
            assert forall|k: int| 0 <= k < nr implies #[trigger] o.subrange(2, 2 + nr)[k] == rpart[k] by {
                assert(out@[2 + k] == after_r[2 + k]);
                assert(after_r[2 + k] == after_r.subrange(2, 2 + nr)[k]);
            }
        }
        assert(o.subrange(2 + nr, total as int) =~= spart) by {
            assert forall|k: int| 0 <= k < ns implies #[trigger] o.subrange(2 + nr, total as int)[k] == spart[k] by {
                assert(out@[2 + nr + k] == out@.subrange(2 + nr, 2 + nr + ns)[k]);
            }
        }
        assert(o =~= o.subrange(0, 2) + o.subrange(2, 2 + nr) + o.subrange(2 + nr, total as int));
        assert(out@.take(total as int) =~= der_encode(c@));
    }
    (out, total)
}

} // verus!
