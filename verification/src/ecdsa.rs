//! ECDSA signatures: parsing, normalization and serialization.
use vstd::prelude::*;
use vstd::string::StringSliceAdditionalSpecFns;
use crate::backend::{der_signature_parse, lax_der_signature_parse, parse_der_lax_signature, parse_der_signature};
use crate::der::{der_encode, der_serialize, lemma_der_encode_len};
use crate::constants::MAX_SIGNATURE_SIZE;
use crate::error::Error;
use crate::hex::{ascii_chars, from_hex, hex_decode, hex_encode, hex_string, lemma_hex_decode_encode};
use crate::scalar_bytes::{
    be_bytes, be_lt, be_sub, be_value, curve_order, is_high, is_scalar, lemma_be_bytes_value,
    lemma_be_value_bytes, lemma_curve_order_bytes, lemma_pow256_32,
    CURVE_ORDER, CURVE_ORDER_HALF,
};

verus! {

/// The largest length of a DER-serialized signature.
pub const MAX_LEN: usize = MAX_SIGNATURE_SIZE;

/// A compact signature `r || s` whose halves are both scalars.
pub open spec fn is_valid_compact(c: Seq<u8>) -> bool {
    c.len() == 64 && is_scalar(c.take(32)) && is_scalar(c.skip(32))
}

/// The compact signature after low-S normalization: `r || s` with a high
/// `s` replaced by the 32 bytes of `n - s`.
pub open spec fn normalized_compact(c: Seq<u8>) -> Seq<u8> {
    if is_high(c.skip(32)) {
        c.take(32) + be_bytes((curve_order() - be_value(c.skip(32))) as nat, 32)
    } else {
        c
    }
}

/// Normalizing leaves a signature whose `s` is low, with the same `r`, and
/// still a pair of scalars.
pub proof fn lemma_normalize_low(c: Seq<u8>)
    requires
        is_valid_compact(c),
    ensures
        is_valid_compact(normalized_compact(c)),
        normalized_compact(c).take(32) == c.take(32),
        !is_high(normalized_compact(c).skip(32)),
{
    let n = normalized_compact(c);
    if is_high(c.skip(32)) {
        let v = (curve_order() - be_value(c.skip(32))) as nat;
        lemma_pow256_32();
        lemma_be_bytes_value(v, 32);
        assert(n.take(32) =~= c.take(32));
        assert(n.skip(32) =~= be_bytes(v, 32));
    }
}

/// Normalizing twice is normalizing once.
pub proof fn lemma_normalize_idempotent(c: Seq<u8>)
    requires
        is_valid_compact(c),
    ensures
        normalized_compact(normalized_compact(c)) == normalized_compact(c),
{
    lemma_normalize_low(c);
}

/// What the strict DER parser makes of `data`: nothing for empty input.
pub open spec fn der_parse_result(data: Seq<u8>) -> Option<Seq<u8>> {
    if data.len() == 0 {
        None
    } else {
        der_signature_parse(data)
    }
}

/// What the lax DER parser makes of `data`: nothing for empty input.
pub open spec fn der_lax_parse_result(data: Seq<u8>) -> Option<Seq<u8>> {
    if data.len() == 0 {
        None
    } else {
        lax_der_signature_parse(data)
    }
}

/// What parsing the hex string `b` of a DER signature gives: the DER parse
/// of the decoded bytes, if `b` is an even number of hex digits standing for
/// at most 72 bytes.
pub open spec fn hex_der_parse_result(b: Seq<u8>) -> Option<Seq<u8>> {
    if hex_decode(b) is Some && b.len() <= 2 * MAX_LEN {
        der_parse_result(hex_decode(b).unwrap())
    } else {
        None
    }
}

/// On nonempty input the lax parse is libsecp256k1's lax parser's reading,
/// and nothing else: in particular not the strict parser's reading where
/// that one also accepts the input.
pub proof fn lemma_lax_parse_is_lax_reading(data: Seq<u8>)
    requires
        data.len() > 0,
    ensures
        der_lax_parse_result(data) == lax_der_signature_parse(data),
{
}

/// An ECDSA signature, held as its 64-byte compact form `r || s`.
#[derive(Copy, Clone, Debug, PartialEq, Eq, PartialOrd, Ord, Hash)]
pub struct Signature {
    compact: [u8; 64],
}

impl View for Signature {
    type V = Seq<u8>;

    closed spec fn view(&self) -> Seq<u8> {
        self.compact@
    }
}

/// A signature is determined by its compact form: two signatures with equal
/// views are equal.
pub proof fn lemma_signature_view_injective(a: Signature, b: Signature)
    requires
        a@ == b@,
    ensures
        a == b,
{
    broadcast use vstd::array::axiom_array_ext_equal, vstd::array::lemma_array_index;

    assert(a.compact =~= b.compact) by {
        assert forall|i: int| 0 <= i < 64 implies a.compact[i] == b.compact[i] by {
            assert(a.compact@[i] == b.compact@[i]);
        }
    }
}

fn copy_64(data: &[u8]) -> (res: [u8; 64])
    requires
        data@.len() == 64,
    ensures
        res@ == data@,
{
    let mut out = [0u8; 64];
    let mut i: usize = 0;
    while i < 64
        invariant
            0 <= i <= 64,
            data@.len() == 64,
            forall|k: int| 0 <= k < i ==> out@[k] == data@[k],
        decreases 64 - i,
    {
        out[i] = data[i];
        i = i + 1;
    }
    assert(out@ =~= data@);
    out
}

fn half(c: &[u8; 64], second: bool) -> (res: [u8; 32])
    ensures
        res@ == (if second {
            c@.skip(32)
        } else {
            c@.take(32)
        }),
{
    let off: usize = if second {
        32
    } else {
        0
    };
    let mut out = [0u8; 32];
    let mut i: usize = 0;
    while i < 32
        invariant
            0 <= i <= 32,
            off == 0 || off == 32,
            c@.len() == 64,
            forall|k: int| 0 <= k < i ==> out@[k] == c@[off + k],
        decreases 32 - i,
    {
        out[i] = c[off + i];
        i = i + 1;
    }
    if second {
        assert(out@ =~= c@.skip(32));
    } else {
        assert(out@ =~= c@.take(32));
    }
    out
}

impl Signature {
    #[verifier::type_invariant]
    spec fn well_formed(self) -> bool {
        is_valid_compact(self.compact@)
    }

    /// Wraps the outcome of a parse: a `Some` compact form whose halves are
    /// both below the group order becomes a signature; anything else is the
    /// `InvalidSignature` error.
    pub fn from_parsed(parsed: Option<[u8; 64]>) -> (res: Result<Signature, Error>)
        ensures
            res matches Ok(sig) ==> is_valid_compact(sig@),
            match parsed {
                Some(c) => if is_valid_compact(c@) {
                    res matches Ok(sig) && sig@ == c@
                } else {
                    res == Err::<Signature, Error>(Error::InvalidSignature)
                },
                None => res == Err::<Signature, Error>(Error::InvalidSignature),
            },
    {
        match parsed {
            Some(c) => Signature::from_compact(&c),
            None => Err(Error::InvalidSignature),
        }
    }

    /// Converts a DER-encoded byte slice to a signature.
    ///
    /// # Errors
    ///
    /// `InvalidSignature` if `data` is empty or is not a valid DER encoding
    /// of a signature.
    pub fn from_der(data: &[u8]) -> (res: Result<Signature, Error>)
        ensures
            res matches Ok(sig) ==> is_valid_compact(sig@),
            forall|c: Seq<u8>|
                #![trigger der_encode(c)]
                is_valid_compact(c) && data@ == der_encode(c) ==> (res matches Ok(sig) && sig@ == c),
            match der_parse_result(data@) {
                Some(c) => res matches Ok(sig) && sig@ == c,
                None => res == Err::<Signature, Error>(Error::InvalidSignature),
            },
    {
        if data.len() == 0 {
            proof {
                assert forall|c: Seq<u8>| #![trigger der_encode(c)] is_valid_compact(c) implies data@ != der_encode(c) by {
                    lemma_der_encode_len(c);
                }
            }
            return Err(Error::InvalidSignature);
        }
        Signature::from_parsed(parse_der_signature(data))
    }

    /// Converts a 64-byte compact-encoded byte slice to a signature.
    ///
    /// # Errors
    ///
    /// `InvalidSignature` if `data` is not exactly 64 bytes long or either
    /// half is not below the group order.
    pub fn from_compact(data: &[u8]) -> (res: Result<Signature, Error>)
        ensures
            match res {
                Ok(sig) => is_valid_compact(data@) && sig@ == data@,
                Err(e) => !is_valid_compact(data@) && e == Error::InvalidSignature,
            },
    {
        if data.len() != 64 {
            return Err(Error::InvalidSignature);
        }
        let c = copy_64(data);
        let r = half(&c, false);
        let s = half(&c, true);
        proof {
            lemma_curve_order_bytes();
        }
        let r_ok = be_lt(&r, &CURVE_ORDER);
        let s_ok = be_lt(&s, &CURVE_ORDER);
        if r_ok && s_ok {
            Ok(Signature { compact: c })
        } else {
            Err(Error::InvalidSignature)
        }
    }

    /// Converts a "lax DER"-encoded byte slice to a signature. This is
    /// only useful for validating signatures in the Bitcoin blockchain from
    /// before 2016.
    ///
    /// # Errors
    ///
    /// `InvalidSignature` if `data` is empty or the lax parser rejects it.
    pub fn from_der_lax(data: &[u8]) -> (res: Result<Signature, Error>)
        ensures
            data@.len() > 0 ==> match lax_der_signature_parse(data@) {
                Some(c) => res matches Ok(sig) && sig@ == c,
                None => res == Err::<Signature, Error>(Error::InvalidSignature),
            },
            res matches Ok(sig) ==> is_valid_compact(sig@),
            data@.len() < 0x1000000 && der_parse_result(data@) is Some ==> res is Ok,
            der_parse_result(data@) matches Some(c) ==> (data@.len() < 0x1000000 && be_value(
                c.take(32),
            ) != 0 && be_value(c.skip(32)) != 0 ==> (res matches Ok(sig) && sig@ == c)),
            forall|c: Seq<u8>|
                #![trigger der_encode(c)]
                is_valid_compact(c) && data@ == der_encode(c) ==> (res matches Ok(sig) && sig@ == c),
            match der_lax_parse_result(data@) {
                Some(c) => res matches Ok(sig) && sig@ == c,
                None => res == Err::<Signature, Error>(Error::InvalidSignature),
            },
    {
        if data.len() == 0 {
            proof {
                assert forall|c: Seq<u8>| #![trigger der_encode(c)] is_valid_compact(c) implies data@ != der_encode(c) by {
                    lemma_der_encode_len(c);
                }
            }
            return Err(Error::InvalidSignature);
        }
        Signature::from_parsed(parse_der_lax_signature(data))
    }

    /// Normalizes a signature to a "low S" form: an `s` above half the group
    /// order is replaced by its negation `n - s`; `r` never changes.
    pub fn normalize_s(&mut self)
        ensures
            final(self)@ == normalized_compact(old(self)@),
    {
        proof {
            use_type_invariant(&*self);
            lemma_curve_order_bytes();
        }
        let s = half(&self.compact, true);
        let high = be_lt(&CURVE_ORDER_HALF, &s);
        if high {
            let neg = be_sub(&CURVE_ORDER, &s);
            let mut c = self.compact;
            let mut i: usize = 0;
            while i < 32
                invariant
                    0 <= i <= 32,
                    c@.len() == 64,
                    neg@.len() == 32,
                    c@.take(32) == self.compact@.take(32),
                    forall|k: int| 0 <= k < i ==> c@[32 + k] == neg@[k],
                decreases 32 - i,
            {
                c[32 + i] = neg[i];
                i = i + 1;
                assert(c@.take(32) =~= self.compact@.take(32));
            }
            assert(c@.skip(32) =~= neg@);
            proof {
                crate::scalar_bytes::lemma_be_value_bound(s@);
                lemma_be_value_bytes(neg@);
                assert(c@ =~= self.compact@.take(32) + neg@);
                lemma_normalize_low(self.compact@);
            }
            self.compact = c;
        }
    }

    /// Serializes the signature in DER format.
    pub fn serialize_der(&self) -> (res: SerializedSignature)
        ensures
            res@ == der_encode(self@),
    {
        proof {
            use_type_invariant(self);
            lemma_der_encode_len(self@);
        }
        let (data, len) = der_serialize(&self.compact);
        SerializedSignature { data, len }
    }

    /// Serializes the signature in compact format `r || s`.
    pub fn serialize_compact(&self) -> (res: [u8; 64])
        ensures
            res@ == self@,
            is_valid_compact(res@),
    {
        proof {
            use_type_invariant(self);
        }
        self.compact
    }

    /// Parses a signature from the hex digits of its DER encoding.
    ///
    /// # Errors
    ///
    /// `InvalidSignature` if `s` is not an even number of hex digits
    /// standing for at most 72 bytes, or those bytes are not a DER
    /// signature.
    pub fn from_str(s: &str) -> (res: Result<Signature, Error>)
        ensures
            res matches Ok(sig) ==> is_valid_compact(sig@),
            forall|c: Seq<u8>|
                #![trigger der_encode(c)]
                is_valid_compact(c) && s.spec_bytes() == hex_encode(der_encode(c)) ==> (res matches Ok(sig) && sig@ == c),
            match hex_der_parse_result(s.spec_bytes()) {
                Some(c) => res matches Ok(sig) && sig@ == c,
                None => res == Err::<Signature, Error>(Error::InvalidSignature),
            },
    {
        let mut buf = [0u8; 72];
        proof {
            assert forall|c: Seq<u8>| #![trigger der_encode(c)] is_valid_compact(c) && s.spec_bytes() == hex_encode(der_encode(c))
                implies hex_decode(s.spec_bytes()) == Some(der_encode(c)) && s.spec_bytes().len() <= 2 * MAX_LEN by {
                lemma_hex_decode_encode(der_encode(c));
                lemma_der_encode_len(c);
            }
        }
        match from_hex(s, &mut buf) {
            Ok(x) => {
                let decoded = &buf[0..x];
                proof {
                    assert(decoded@ =~= hex_decode(s.spec_bytes()).unwrap());
                }
                Signature::from_der(decoded)
            },
            Err(()) => Err(Error::InvalidSignature),
        }
    }

    /// The hex digits of the DER encoding, as the signature displays itself.
    pub fn to_string(&self) -> (res: String)
        ensures
            res@ == ascii_chars(hex_encode(der_encode(self@))),
    {
        let der = self.serialize_der();
        der.to_string()
    }
}

impl core::str::FromStr for Signature {
    type Err = Error;

    /// The same as [`Signature::from_str`].
    fn from_str(s: &str) -> (res: Result<Signature, Error>)
        ensures
            res matches Ok(sig) ==> is_valid_compact(sig@),
            forall|c: Seq<u8>|
                #![trigger der_encode(c)]
                is_valid_compact(c) && s.spec_bytes() == hex_encode(der_encode(c)) ==> (res matches Ok(sig) && sig@ == c),
            match hex_der_parse_result(s.spec_bytes()) {
                Some(c) => res matches Ok(sig) && sig@ == c,
                None => res == Err::<Signature, Error>(Error::InvalidSignature),
            },
    {
        Signature::from_str(s)
    }
}

/// A DER-serialized signature: up to 72 bytes.
#[derive(Copy, Clone, Debug)]
pub struct SerializedSignature {
    data: [u8; 72],
    len: usize,
}

impl View for SerializedSignature {
    type V = Seq<u8>;

    closed spec fn view(&self) -> Seq<u8> {
        self.data@.take(self.len as int)
    }
}

impl SerializedSignature {
    #[verifier::type_invariant]
    spec fn well_formed(self) -> bool {
        self.len <= MAX_LEN
    }

    /// The number of bytes of the encoding.
    pub fn len(&self) -> (res: usize)
        ensures
            res == self@.len(),
    {
        proof {
            use_type_invariant(self);
        }
        self.len
    }

    /// Whether the encoding is empty.
    pub fn is_empty(&self) -> (res: bool)
        ensures
            res == (self@.len() == 0),
    {
        proof {
            use_type_invariant(self);
        }
        self.len == 0
    }

    /// The bytes of the encoding.
    pub fn as_bytes(&self) -> (res: &[u8])
        ensures
            res@ == self@,
            res@.len() <= MAX_LEN,
    {
        proof {
            use_type_invariant(self);
        }
        &self.data[0..self.len]
    }

    /// Parses the encoding back into a signature.
    pub fn to_signature(&self) -> (res: Result<Signature, Error>)
        ensures
            res matches Ok(sig) ==> is_valid_compact(sig@),
            forall|c: Seq<u8>|
                #![trigger der_encode(c)]
                is_valid_compact(c) && self@ == der_encode(c) ==> (res matches Ok(sig) && sig@ == c),
            match der_parse_result(self@) {
                Some(c) => res matches Ok(sig) && sig@ == c,
                None => res == Err::<Signature, Error>(Error::InvalidSignature),
            },
    {
        Signature::from_der(self.as_bytes())
    }

    /// The encoding as lower-case hex digits.
    pub fn to_string(&self) -> (res: String)
        ensures
            res@ == ascii_chars(hex_encode(self@)),
    {
        hex_string(self.as_bytes())
    }
}

} // verus!
