//! Hexadecimal encoding and decoding into caller-provided buffers.
use vstd::prelude::*;
use vstd::utf8::{
    valid_utf8, decode_utf8, encode_utf8, encode_utf8_decode_utf8, partial_valid_utf8_extend_ascii_block,
    is_leading_byte_width_1,
};
use crate::std_wrappers::str_from_utf8;
use vstd::string::StringSliceAdditionalSpecFns;

verus! {

/// The value of a hexadecimal digit (either case), or `None` for any other byte.
pub open spec fn hex_digit_value(c: u8) -> Option<u8> {
    if 48 <= c <= 57 {
        Some((c - 48) as u8)
    } else if 97 <= c <= 102 {
        Some((c - 97 + 10) as u8)
    } else if 65 <= c <= 70 {
        Some((c - 65 + 10) as u8)
    } else {
        None
    }
}

pub open spec fn is_hex_digit(c: u8) -> bool {
    hex_digit_value(c) is Some
}

/// Every byte of `s` is a hexadecimal digit.
pub open spec fn all_hex_digits(s: Seq<u8>) -> bool {
    forall|i: int| 0 <= i < s.len() ==> #[trigger] is_hex_digit(s[i])
}

/// The byte written by the digit pair `hi`, `lo`.
pub open spec fn hex_pair_value(hi: u8, lo: u8) -> u8 {
    (hex_digit_value(hi).unwrap() * 16 + hex_digit_value(lo).unwrap()) as u8
}

/// The bytes written by the complete digit pairs at the front of `s`.
pub open spec fn hex_decode_pairs(s: Seq<u8>) -> Seq<u8> {
    Seq::new(s.len() / 2, |i: int| hex_pair_value(s[2 * i], s[2 * i + 1]))
}

/// The bytes that a hex string stands for, if it is a well-formed one:
/// an even number of hexadecimal digits.
pub open spec fn hex_decode(s: Seq<u8>) -> Option<Seq<u8>> {
    if s.len() % 2 == 0 && all_hex_digits(s) {
        Some(hex_decode_pairs(s))
    } else {
        None
    }
}

/// The lower-case hexadecimal digit for a value below 16.
pub open spec fn hex_char(n: u8) -> u8 {
    if n < 10 {
        (48 + n) as u8
    } else {
        (87 + n) as u8
    }
}

/// Lower-case hexadecimal encoding: two digits per byte, high nibble first.
pub open spec fn hex_encode(src: Seq<u8>) -> Seq<u8> {
    Seq::new(
        2 * src.len(),
        |i: int|
            if i % 2 == 0 {
                hex_char(src[i / 2] / 16)
            } else {
                hex_char(src[i / 2] % 16)
            },
    )
}

/// Decodes the hex string `hex` into the front of `target` and returns the
/// number of bytes written.
///
/// Fails when `hex` has odd length, when the decoded bytes would not fit in
/// `target` (both checked before anything is written), or at the first byte
/// that is not a hexadecimal digit; the complete pairs before that byte have
/// then already been written.
pub fn from_hex(hex: &str, target: &mut [u8]) -> (res: Result<usize, ()>)
    ensures
        final(target)@.len() == old(target)@.len(),
        ({
            let s = hex.spec_bytes();
            match res {
                Ok(n) => {
                    &&& hex_decode(s) is Some
                    &&& s.len() <= 2 * old(target)@.len()
                    &&& n == s.len() / 2
                    &&& final(target)@ == hex_decode(s).unwrap() + old(target)@.skip(n as int)
                },
                Err(()) => {
                    ||| (s.len() % 2 == 1 || s.len() > 2 * old(target)@.len()) && final(target)@
                        == old(target)@
                    ||| (s.len() % 2 == 0 && s.len() <= 2 * old(target)@.len() && exists|k: int|
                        0 <= k < s.len() && !is_hex_digit(s[k]) && #[trigger] all_hex_digits(
                            s.take(k),
                        ) && final(target)@ == hex_decode_pairs(s.take(k)) + old(target)@.skip(
                            k / 2,
                        ))
                },
            }
        }),
{
    let bytes = hex.as_bytes();
    let len = bytes.len();
    let ghost s = hex.spec_bytes();
    let ghost t0 = target@;
    if len % 2 == 1 || len / 2 > target.len() {
        return Err(());
    }
    let mut b: u8 = 0;
    let mut idx: usize = 0;
    while idx < len
        invariant
            bytes@ == s,
            len == s.len(),
            len % 2 == 0,
            len / 2 <= target@.len(),
            target@.len() == t0.len(),
            t0 == old(target)@,
            s == hex.spec_bytes(),
            0 <= idx <= len,
            all_hex_digits(s.take(idx as int)),
            target@ == hex_decode_pairs(s.take(idx as int)) + t0.skip((idx / 2) as int),
            idx % 2 == 1 ==> b == hex_digit_value(s[idx - 1]).unwrap(),
            idx % 2 == 0 ==> b == 0,
        decreases len - idx,
    {
        let c = bytes[idx];
        let v: u8;
        if 65 <= c && c <= 70 {
            v = c - 65 + 10;
        } else if 97 <= c && c <= 102 {
            v = c - 97 + 10;
        } else if 48 <= c && c <= 57 {
            v = c - 48;
        } else {
            assert(!is_hex_digit(s[idx as int]));
            assert(all_hex_digits(s.take(idx as int)));
            return Err(());
        }
        if idx % 2 == 1 {
            assert(is_hex_digit(s.take(idx as int)[idx - 1]));
        }
        assert(b < 16);
        b = b * 16 + v;
        let ghost prev = target@;
        if idx % 2 == 1 {
            target[idx / 2] = b;
            b = 0;
        }
        idx = idx + 1;
        assert(s.take(idx as int).take(idx - 1) =~= s.take(idx - 1));
        assert forall|i: int| 0 <= i < idx implies #[trigger] is_hex_digit(s.take(idx as int)[i]) by {
            if i < idx - 1 {
                assert(s.take(idx as int)[i] == s.take(idx - 1)[i]);
            }
        }
        assert(target@ =~= hex_decode_pairs(s.take(idx as int)) + t0.skip((idx / 2) as int));
    }
    assert(s.take(len as int) =~= s);
    Ok(idx / 2)
}

/// The digits `0`-`9`, `a`-`f` in order.
pub const HEX_TABLE: [u8; 16] = [48, 49, 50, 51, 52, 53, 54, 55, 56, 57, 97, 98, 99, 100, 101, 102];

/// Looks up the lower-case digit of a value below 16.
fn hex_digit_char(n: u8) -> (c: u8)
    requires
        n < 16,
    ensures
        c == hex_char(n),
{
    let c = HEX_TABLE[n as usize];
    assert(HEX_TABLE@ =~= seq![48u8, 49, 50, 51, 52, 53, 54, 55, 56, 57, 97, 98, 99, 100, 101, 102]);
    c
}

/// The hex digits produced by `hex_encode` are ASCII, hence valid UTF-8.
proof fn lemma_hex_encode_valid_utf8(src: Seq<u8>)
    ensures
        valid_utf8(hex_encode(src)),
{
    let h = hex_encode(src);
    assert forall|i: int| 0 <= 0 <= i < h.len() <= h.len() implies #[trigger] is_leading_byte_width_1(h[i]) by {
        assert(h[i] < 128);
    }
    partial_valid_utf8_extend_ascii_block(h, 0, h.len() as int);
    assert(h.subrange(0, 0) =~= Seq::<u8>::empty());
    assert(h.subrange(0, h.len() as int) =~= h);
}

/// Encodes `src` as lower-case hex into the front of `target` and returns
/// the written digits as a string slice of `target`.
///
/// Fails, writing nothing, when `target` is shorter than twice `src`.
pub fn to_hex<'a>(src: &[u8], target: &'a mut [u8]) -> (res: Result<&'a str, ()>)
    ensures
        final(target)@.len() == old(target)@.len(),
        match res {
            Ok(s) => {
                &&& old(target)@.len() >= 2 * src@.len()
                &&& s.spec_bytes() == hex_encode(src@)
                &&& final(target)@ == hex_encode(src@) + old(target)@.skip(2 * src@.len() as int)
            },
            Err(()) => {
                &&& old(target)@.len() < 2 * src@.len()
                &&& final(target)@ == old(target)@
            },
        },
{
    if target.len() / 2 < src.len() {
        return Err(());
    }
    let hex_len = src.len() * 2;
    let ghost t0 = target@;
    let mut i: usize = 0;
    let mut j: usize = 0;
    while j < src.len()
        invariant
            hex_len == 2 * src@.len(),
            hex_len <= target@.len(),
            target@.len() == t0.len(),
            t0 == old(target)@,
            i == 2 * j,
            0 <= j <= src@.len(),
            target@ == hex_encode(src@.take(j as int)) + t0.skip(i as int),
        decreases src@.len() - j,
    {
        let b = src[j];
        assert(b >> 4 == b / 16) by (bit_vector);
        assert(b & 15 == b % 16) by (bit_vector);
        target[i] = hex_digit_char(b >> 4);
        target[i + 1] = hex_digit_char(b & 15);
        i = i + 2;
        j = j + 1;
        assert(target@ =~= hex_encode(src@.take(j as int)) + t0.skip(i as int)) by {
            assert forall|k: int| 0 <= k < i implies target@[k] == #[trigger] hex_encode(src@.take(j as int))[k] by {
                if k < i - 2 {
                    assert(src@.take(j as int)[k / 2] == src@.take(j - 1)[k / 2]);
                }
            }
        }
    }
    assert(src@.take(src@.len() as int) =~= src@);
    let written: &'a [u8] = target;
    let result = &written[0..hex_len];
    assert(result@ =~= hex_encode(src@));
    proof {
        lemma_hex_encode_valid_utf8(src@);
    }
    match str_from_utf8(result) {
        Some(s) => Ok(s),
        None => Err(()),
    }
}

proof fn lemma_hex_char_value(n: u8)
    requires
        n < 16,
    ensures
        hex_digit_value(hex_char(n)) == Some(n),
        is_hex_digit(hex_char(n)),
{
}

/// Decoding what `to_hex` writes gives back the encoded bytes.
pub proof fn lemma_hex_decode_encode(src: Seq<u8>)
    ensures
        hex_decode(hex_encode(src)) == Some(src),
{
    let h = hex_encode(src);
    assert forall|i: int| 0 <= i < h.len() implies #[trigger] is_hex_digit(h[i]) by {
        lemma_hex_char_value(src[i / 2] / 16);
        lemma_hex_char_value(src[i / 2] % 16);
    }
    assert forall|i: int| 0 <= i < src.len() implies #[trigger] hex_decode_pairs(h)[i] == src[i] by {
        assert(h[2 * i] == hex_char(src[i] / 16));
        assert(h[2 * i + 1] == hex_char(src[i] % 16));
        lemma_hex_char_value(src[i] / 16);
        lemma_hex_char_value(src[i] % 16);
    }
    assert(hex_decode_pairs(h) =~= src);
}

/// `c` with an upper-case hex letter `A`-`F` turned into its lower-case
/// form; every other byte unchanged.
pub open spec fn lower_hex_letter(c: u8) -> u8 {
    if 65 <= c <= 70 {
        (c + 32) as u8
    } else {
        c
    }
}

/// `s` with its upper-case hex letters turned into lower case.
pub open spec fn lower_hex_letters(s: Seq<u8>) -> Seq<u8> {
    s.map_values(|c: u8| lower_hex_letter(c))
}

/// Hex decoding does not depend on the case of the letters: a string and
/// its lower-case form stand for the same bytes, or are both malformed.
pub proof fn lemma_hex_decode_case_insensitive(s: Seq<u8>)
    ensures
        hex_decode(s) == hex_decode(lower_hex_letters(s)),
{
    let l = lower_hex_letters(s);
    assert forall|i: int| 0 <= i < s.len() implies #[trigger] hex_digit_value(l[i]) == hex_digit_value(s[i]) by {
    }
    assert(all_hex_digits(s) == all_hex_digits(l)) by {
        if all_hex_digits(s) {
            assert forall|i: int| 0 <= i < l.len() implies #[trigger] is_hex_digit(l[i]) by {
                assert(is_hex_digit(s[i]));
            }
        }
        if all_hex_digits(l) {
            assert forall|i: int| 0 <= i < s.len() implies #[trigger] is_hex_digit(s[i]) by {
                assert(is_hex_digit(l[i]));
            }
        }
    }
    assert(hex_decode_pairs(s) =~= hex_decode_pairs(l)) by {
        assert forall|k: int| 0 <= k < s.len() / 2 implies #[trigger] hex_decode_pairs(s)[k] == hex_decode_pairs(l)[k] by {
            assert(hex_digit_value(l[2 * k]) == hex_digit_value(s[2 * k]));
            assert(hex_digit_value(l[2 * k + 1]) == hex_digit_value(s[2 * k + 1]));
        }
    }
}

/// Each upper-case letter `A`-`F` is the hex digit of the same value as
/// its lower-case form, `10` to `15`.
pub proof fn lemma_hex_upper_letters_are_digits(c: u8)
    requires
        65 <= c <= 70,
    ensures
        hex_digit_value(c) == Some((c - 55) as u8),
        hex_digit_value(c) == hex_digit_value((c + 32) as u8),
{
}

/// A lower-case hexadecimal digit.
pub open spec fn is_lower_hex_digit(c: u8) -> bool {
    (48 <= c <= 57) || (97 <= c <= 102)
}

/// Encoding the bytes that a lower-case hex string stands for gives back
/// that string.
pub proof fn lemma_hex_encode_decode(s: Seq<u8>)
    requires
        hex_decode(s) is Some,
        forall|i: int| 0 <= i < s.len() ==> #[trigger] is_lower_hex_digit(s[i]),
    ensures
        hex_encode(hex_decode(s).unwrap()) == s,
{
    let b = hex_decode(s).unwrap();
    assert forall|i: int| 0 <= i < s.len() implies #[trigger] hex_encode(b)[i] == s[i] by {
        let k = i / 2;
        assert(is_hex_digit(s[2 * k]));
        assert(is_hex_digit(s[2 * k + 1]));
        assert(is_lower_hex_digit(s[2 * k]));
        assert(is_lower_hex_digit(s[2 * k + 1]));
        assert(b[k] == hex_pair_value(s[2 * k], s[2 * k + 1]));
    }
    assert(hex_encode(b) =~= s);
}

/// The characters of an ASCII byte string.
pub open spec fn ascii_chars(b: Seq<u8>) -> Seq<char> {
    b.map_values(|x: u8| x as char)
}

proof fn lemma_ascii_decode(b: Seq<u8>)
    requires
        forall|i: int| 0 <= i < b.len() ==> #[trigger] b[i] < 128,
    ensures
        valid_utf8(b),
        decode_utf8(b) == ascii_chars(b),
    decreases b.len(),
{
    if b.len() > 0 {
        let rest = b.drop_first();
        assert(b.subrange(1, b.len() as int) =~= rest);
        lemma_ascii_decode(rest);
        let x = b[0];
        assert(x & 0x7f == x) by (bit_vector)
            requires
                x < 128,
        ;
        assert(decode_utf8(b) =~= ascii_chars(b)) by {
            assert(ascii_chars(b) =~= seq![x as char] + ascii_chars(rest));
        }
    }
}

/// A string slice made of ASCII bytes consists of exactly those characters.
proof fn lemma_ascii_str(s: &str)
    requires
        forall|i: int| 0 <= i < s.spec_bytes().len() ==> #[trigger] s.spec_bytes()[i] < 128,
    ensures
        s@ == ascii_chars(s.spec_bytes()),
{
    encode_utf8_decode_utf8(s@);
    lemma_ascii_decode(s.spec_bytes());
}

/// The lower-case hex encoding of `src` as a `String`.
pub fn hex_string(src: &[u8]) -> (res: String)
    requires
        2 * src@.len() <= usize::MAX,
    ensures
        res@ == ascii_chars(hex_encode(src@)),
{
    let n = src.len() * 2;
    let mut buf: Vec<u8> = Vec::new();
    while buf.len() < n
        invariant
            buf@.len() <= n,
        decreases n - buf@.len(),
    {
        buf.push(0);
    }
    match to_hex(src, buf.as_mut_slice()) {
        Ok(s) => {
            proof {
                lemma_ascii_str(s);
            }
            s.to_owned()
        },
        Err(()) => String::new(),
    }
}

} // verus!
