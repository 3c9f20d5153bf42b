//! The engine through which signatures are verified.
use vstd::prelude::*;
use crate::backend::{ecdsa_signature_verifies, rerandomize_context, verify_ecdsa_signature};
use crate::ecdsa::Signature;
use crate::error::Error;
use crate::key::PublicKey;
use crate::message::Message;
use crate::scalar_bytes::is_high;

verus! {

/// What an engine can be used for. Implemented by [`All`], [`SignOnly`]
/// and [`VerifyOnly`].
pub trait Context {
    /// The flags with which libsecp256k1 creates a context of this kind.
    fn flags() -> u32;

    /// A short description of the kind.
    fn description() -> &'static str;
}

/// Marks the contexts that can sign.
pub trait Signing: Context {}

/// Marks the contexts that can verify.
pub trait Verification: Context {}

/// A context that can sign and verify.
#[derive(Copy, Clone, Debug, PartialEq, Eq)]
pub struct All {}

/// A context that can only sign.
#[derive(Copy, Clone, Debug, PartialEq, Eq)]
pub struct SignOnly {}

/// A context that can only verify.
#[derive(Copy, Clone, Debug, PartialEq, Eq)]
pub struct VerifyOnly {}

/// libsecp256k1's `SECP256K1_START_SIGN`.
pub const START_SIGN: u32 = 0x201;

/// libsecp256k1's `SECP256K1_START_VERIFY`.
pub const START_VERIFY: u32 = 0x101;

impl Context for SignOnly {
    fn flags() -> (f: u32)
        ensures
            f == START_SIGN,
    {
        START_SIGN
    }

    fn description() -> (res: &'static str)
        ensures
            res@ == "signing only"@,
    {
        "signing only"
    }
}

impl Context for VerifyOnly {
    fn flags() -> (f: u32)
        ensures
            f == START_VERIFY,
    {
        START_VERIFY
    }

    fn description() -> (res: &'static str)
        ensures
            res@ == "verification only"@,
    {
        "verification only"
    }
}

impl Context for All {
    fn flags() -> (f: u32)
        ensures
            f == START_SIGN | START_VERIFY,
    {
        START_SIGN | START_VERIFY
    }

    fn description() -> (res: &'static str)
        ensures
            res@ == "all capabilities"@,
    {
        "all capabilities"
    }
}

impl Signing for SignOnly {}

impl Signing for All {}

impl Verification for VerifyOnly {}

impl Verification for All {}

/// The secp256k1 engine, used to execute all signature operations. Its type
/// parameter says what it can be used for, so that, for example, verifying
/// with a signing-only engine does not compile.
///
/// libsecp256k1's precomputed context lives in the `secp256k1` crate; two
/// engines of the same kind are interchangeable and compare equal.
#[derive(Copy, Clone, Debug, PartialEq, Eq)]
pub struct Secp256k1<C: Context> {
    kind: C,
}

impl Secp256k1<All> {
    /// Creates an engine that can sign and verify.
    pub fn new() -> Secp256k1<All> {
        Secp256k1 { kind: All {  } }
    }
}

impl Secp256k1<SignOnly> {
    /// Creates an engine that can only sign.
    pub fn signing_only() -> Secp256k1<SignOnly> {
        Secp256k1 { kind: SignOnly {  } }
    }
}

impl Secp256k1<VerifyOnly> {
    /// Creates an engine that can only verify.
    pub fn verification_only() -> Secp256k1<VerifyOnly> {
        Secp256k1 { kind: VerifyOnly {  } }
    }
}

impl<C: Context> Secp256k1<C> {
    /// The number of `word_size`-byte words that hold a preallocated context
    /// of `bytes` bytes: `bytes / word_size` rounded up.
    pub fn preallocate_words(bytes: usize, word_size: usize) -> (res: usize)
        requires
            word_size > 0,
        ensures
            res == (bytes + word_size - 1) / (word_size as int),
    {
        let q = bytes / word_size;
        let r = bytes % word_size;
        proof {
            let b = bytes as int;
            let w = word_size as int;
            assert((b + w - 1) / w == b / w + (if b % w == 0 { 0int } else { 1int })) by (nonlinear_arith)
                requires
                    w > 0,
                    b >= 0,
            {
                vstd::arithmetic::div_mod::lemma_fundamental_div_mod(b, w);
                vstd::arithmetic::div_mod::lemma_fundamental_div_mod(b + w - 1, w);
                vstd::arithmetic::div_mod::lemma_mod_bound(b, w);
                vstd::arithmetic::div_mod::lemma_mod_bound(b + w - 1, w);
            }
            if r != 0 {
                assert(w >= 2);
                assert(q * 2 <= b) by (nonlinear_arith)
                    requires
                        q == b / w,
                        w >= 2,
                        b >= 0,
                {
                    vstd::arithmetic::div_mod::lemma_fundamental_div_mod(b, w);
                    vstd::arithmetic::div_mod::lemma_mod_bound(b, w);
                }
            }
        }
        if r == 0 {
            q
        } else {
            q + 1
        }
    }

    /// (Re)randomizes the context for extra sidechannel resistance given 32
    /// bytes of cryptographically-secure random data.
    pub fn seeded_randomize(&mut self, seed: &[u8; 32])
        ensures
            *final(self) == *old(self),
    {
        rerandomize_context(seed);
    }
}

impl<C: Verification> Secp256k1<C> {
    /// Checks that `sig` is a valid ECDSA signature for `msg` using the
    /// public key `pk`.
    ///
    /// # Errors
    ///
    /// `IncorrectSignature` if libsecp256k1 rejects the signature; in
    /// particular whenever its `s` lies in the upper half of the range (see
    /// [`Signature::normalize_s`]).
    pub fn verify_ecdsa(&self, msg: &Message, sig: &Signature, pk: &PublicKey) -> (res: Result<(), Error>)
        ensures
            res is Ok <==> ecdsa_signature_verifies(msg@, sig@, pk@),
            res matches Err(e) ==> e == Error::IncorrectSignature,
            is_high(sig@.skip(32)) ==> res is Err,
    {
        let m = msg.to_byte_array();
        let c = sig.serialize_compact();
        let k = pk.serialize();
        if verify_ecdsa_signature(&m, &c, &k) {
            Ok(())
        } else {
            Err(Error::IncorrectSignature)
        }
    }
}

} // verus!
