//! Trusted items: the calls into the `secp256k1` crate (libsecp256k1) for
//! what this library does not compute itself.
use vstd::prelude::*;
use crate::der::der_encode;
use crate::scalar_bytes::{be_value, is_scalar};

verus! {

/// The 64-byte compact form `r || s` of the signature that libsecp256k1's
/// strict DER parser reads from `data`, or `None` where it rejects `data`.
pub uninterp spec fn der_signature_parse(data: Seq<u8>) -> Option<Seq<u8>>;

/// The 64-byte compact form of the signature that libsecp256k1's "lax DER"
/// parser reads from `data`, or `None` where it rejects `data`.
pub uninterp spec fn lax_der_signature_parse(data: Seq<u8>) -> Option<Seq<u8>>;

/// Whether libsecp256k1 accepts the compact signature `sig` for the message
/// digest `msg` under the compressed public key `pk`.
pub uninterp spec fn ecdsa_signature_verifies(msg: Seq<u8>, sig: Seq<u8>, pk: Seq<u8>) -> bool;

/// The prime `p` of the field over which secp256k1 is defined.
pub open spec fn field_prime() -> nat {
    0xFFFFFFFFFFFFFFFFFFFFFFFFFFFFFFFFFFFFFFFFFFFFFFFFFFFFFFFEFFFFFC2Fnat
}

/// `x` is the x coordinate of a point of the curve `y^2 = x^3 + 7` over the
/// field of `p` elements: it is below `p` and `x^3 + 7` is a square mod `p`.
pub open spec fn is_curve_x(x: nat) -> bool {
    &&& x < field_prime()
    &&& exists|y: nat| y < field_prime() && #[trigger] ((y * y) % field_prime()) == (x * x * x + 7) % field_prime()
}

/// A compressed public key: the tag `0x02` or `0x03`, then the 32 bytes of
/// the x coordinate of a point of the curve.
pub open spec fn compressed_public_key_is_valid(data: Seq<u8>) -> bool {
    &&& data.len() == 33
    &&& (data[0] == 2 || data[0] == 3)
    &&& is_curve_x(be_value(data.skip(1)))
}

/// An x-only public key: the 32 bytes of the x coordinate of a point of the
/// curve.
pub open spec fn x_only_public_key_is_valid(data: Seq<u8>) -> bool {
    data.len() == 32 && is_curve_x(be_value(data))
}

/// The compressed serialization of the public key that libsecp256k1 derives
/// from the secret key `sk`.
pub uninterp spec fn public_key_of_secret(sk: Seq<u8>) -> Seq<u8>;

/// A 32-byte string that libsecp256k1 accepts as a secret key: a nonzero
/// number below the group order.
pub open spec fn is_secret_key_bytes(b: Seq<u8>) -> bool {
    is_scalar(b) && be_value(b) != 0
}

/// Calls `secp256k1::ecdsa::Signature::from_der` and, on success,
/// `serialize_compact`. Claimed: the result is the named parse of `data`;
/// both halves of a result are scalars (libsecp256k1 keeps `r` and `s`
/// reduced modulo the group order, a DER integer that overflows is read as
/// zero); and the canonical DER encoding of a pair of scalars, as
/// `ecdsa_signature_serialize_der` writes it, is read back as that pair.
#[verifier::external_body]
pub(crate) fn parse_der_signature(data: &[u8]) -> (res: Option<[u8; 64]>)
    ensures
        match res {
            Some(c) => der_signature_parse(data@) == Some(c@),
            None => der_signature_parse(data@) is None,
        },
        res matches Some(c) ==> is_scalar(c@.take(32)) && is_scalar(c@.skip(32)),
        forall|c: Seq<u8>|
            #![trigger der_encode(c)]
            c.len() == 64 && is_scalar(c.take(32)) && is_scalar(c.skip(32)) && data@ == der_encode(c)
                ==> res is Some && res.unwrap()@ == c,
{
    match secp256k1::ecdsa::Signature::from_der(data) {
        Ok(sig) => Some(sig.serialize_compact()),
        Err(_) => None,
    }
}

/// Calls `secp256k1::ecdsa::Signature::from_der_lax` and, on success,
/// `serialize_compact`. Claimed: the result is the named parse of `data`;
/// both halves of a result are scalars (an out-of-range value zeroes both);
/// every input shorter than 2^24 bytes that the strict parser accepts is
/// accepted (`lax_der_parsing.h` says any valid DER; its source rejects
/// length fields of `sizeof(size_t)` bytes or more, which on 32-bit targets
/// strict DER allows for inputs of 2^24 bytes and up); where the strict parse
/// of such an input has two nonzero halves, no integer overflowed, and the
/// lax parser reads the same pair; and
/// the canonical DER encoding of a pair of scalars is read back as that pair.
#[verifier::external_body]
pub(crate) fn parse_der_lax_signature(data: &[u8]) -> (res: Option<[u8; 64]>)
    ensures
        match res {
            Some(c) => lax_der_signature_parse(data@) == Some(c@),
            None => lax_der_signature_parse(data@) is None,
        },
        res matches Some(c) ==> is_scalar(c@.take(32)) && is_scalar(c@.skip(32)),
        data@.len() < 0x1000000 && der_signature_parse(data@) is Some ==> res is Some,
        der_signature_parse(data@) matches Some(c) ==> (data@.len() < 0x1000000 && be_value(
            c.take(32),
        ) != 0 && be_value(c.skip(32)) != 0 ==> res is Some && res.unwrap()@ == c),
        forall|c: Seq<u8>|
            #![trigger der_encode(c)]
            c.len() == 64 && is_scalar(c.take(32)) && is_scalar(c.skip(32)) && data@ == der_encode(c)
                ==> res is Some && res.unwrap()@ == c,
{
    match secp256k1::ecdsa::Signature::from_der_lax(data) {
        Ok(sig) => Some(sig.serialize_compact()),
        Err(_) => None,
    }
}

/// Rebuilds the signature with `secp256k1::ecdsa::Signature::from_compact`
/// and the key with `secp256k1::PublicKey::from_byte_array_compressed`, then
/// calls `secp256k1::ecdsa::verify`. Claimed: the result is the named
/// verification of the three byte strings, and a signature whose `s` is in
/// the upper half of the range never verifies (libsecp256k1 only accepts
/// normalized signatures).
#[verifier::external_body]
pub(crate) fn verify_ecdsa_signature(msg: &[u8; 32], sig: &[u8; 64], pk: &[u8; 33]) -> (res: bool)
    ensures
        res == ecdsa_signature_verifies(msg@, sig@, pk@),
        crate::scalar_bytes::is_high(sig@.skip(32)) ==> !res,
{
    let sig = match secp256k1::ecdsa::Signature::from_compact(sig) {
        Ok(sig) => sig,
        Err(_) => return false,
    };
    let pk = match secp256k1::PublicKey::from_byte_array_compressed(*pk) {
        Ok(pk) => pk,
        Err(_) => return false,
    };
    secp256k1::ecdsa::verify(&sig, secp256k1::Message::from_digest(*msg), &pk).is_ok()
}

/// Calls `secp256k1::PublicKey::from_byte_array_compressed` and reports
/// whether it succeeded. Claimed: it succeeds exactly on a tag `0x02` or
/// `0x03` followed by an x coordinate below `p` for which `x^3 + 7` has a
/// square root mod `p` (libsecp256k1's `eckey_pubkey_parse`).
#[verifier::external_body]
pub(crate) fn check_compressed_public_key(data: &[u8; 33]) -> (res: bool)
    ensures
        res == compressed_public_key_is_valid(data@),
{
    secp256k1::PublicKey::from_byte_array_compressed(*data).is_ok()
}

/// Calls `secp256k1::XOnlyPublicKey::from_byte_array` and reports whether it
/// succeeded. Claimed: it succeeds exactly on an x coordinate below `p` for
/// which `x^3 + 7` has a square root mod `p` (libsecp256k1's
/// `xonly_pubkey_parse`; every point is in the group, the cofactor being 1).
#[verifier::external_body]
pub(crate) fn check_x_only_public_key(data: &[u8; 32]) -> (res: bool)
    ensures
        res == x_only_public_key_is_valid(data@),
{
    secp256k1::XOnlyPublicKey::from_byte_array(*data).is_ok()
}

/// Calls `secp256k1::SecretKey::from_secret_bytes` and
/// `secp256k1::PublicKey::from_secret_key`, then `serialize`. Claimed: the
/// result is the named derived key, and it is a valid compressed key.
#[verifier::external_body]
pub(crate) fn derive_public_key(sk: &[u8; 32]) -> (res: [u8; 33])
    requires
        is_secret_key_bytes(sk@),
    ensures
        res@ == public_key_of_secret(sk@),
        compressed_public_key_is_valid(res@),
{
    let sk = secp256k1::SecretKey::from_secret_bytes(*sk).expect("a valid secret key");
    secp256k1::PublicKey::from_secret_key(&sk).serialize()
}

/// Calls `secp256k1::rerandomize_global_context`, which re-blinds the
/// context that libsecp256k1 signs and verifies with; no result can be
/// observed.
#[verifier::external_body]
pub(crate) fn rerandomize_context(seed: &[u8; 32]) {
    secp256k1::rerandomize_global_context(seed)
}

} // verus!
