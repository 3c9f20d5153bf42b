//! The error type of the library.
use vstd::prelude::*;

verus! {

/// A parity value that is neither 0 nor 1.
#[derive(Copy, Clone, Debug, PartialEq, Eq, PartialOrd, Ord, Hash, Structural)]
pub struct InvalidParityValue(pub i32);

impl InvalidParityValue {
    /// The rejected value.
    pub fn invalid_value(&self) -> (v: i32)
        ensures
            v == self.0,
    {
        self.0
    }
}

/// The main error type for this library.
#[derive(Copy, Clone, Debug, PartialEq, Eq, PartialOrd, Ord, Hash, Structural)]
pub enum Error {
    /// Signature failed verification.
    IncorrectSignature,
    /// Bad sized message ("messages" are actually fixed-sized digests of 32 bytes).
    InvalidMessage,
    /// Bad public key.
    InvalidPublicKey,
    /// Bad signature.
    InvalidSignature,
    /// Bad secret key.
    InvalidSecretKey,
    /// Bad shared secret.
    InvalidSharedSecret,
    /// Bad recovery id.
    InvalidRecoveryId,
    /// Tried to add/multiply by an invalid tweak.
    InvalidTweak,
    /// Didn't pass enough memory to context creation with preallocated memory.
    NotEnoughMemory,
    /// Bad set of public keys.
    InvalidPublicKeySum,
    /// The only valid parity values are 0 or 1.
    InvalidParityValue(InvalidParityValue),
    /// Bad EllSwift value
    InvalidEllSwift,
    /// Failed to produce a surjection proof because of an internal error within `libsecp256k1-zkp`
    CannotProveSurjection,
    /// Given bytes don't represent a valid surjection proof
    InvalidSurjectionProof,
    /// Given bytes don't represent a valid pedersen commitment
    InvalidPedersenCommitment,
    /// Failed to produce a range proof because of an internal error within `libsecp256k1-zkp`
    CannotMakeRangeProof,
    /// Given range proof does not prove that the commitment is within a range
    InvalidRangeProof,
    /// Bad generator
    InvalidGenerator,
    /// Tweak must of len 32
    InvalidTweakLength,
    /// Tweak must be less than secp curve order
    TweakOutOfBounds,
    /// Given bytes don't represent a valid adaptor signature
    InvalidEcdsaAdaptorSignature,
    /// Failed to decrypt an adaptor signature because of an internal error within `libsecp256k1-zkp`
    CannotDecryptAdaptorSignature,
    /// Failed to recover an adaptor secret from an adaptor signature because of an internal error within `libsecp256k1-zkp`
    CannotRecoverAdaptorSecret,
    /// Given adaptor signature is not valid for the provided combination of public key, encryption key and message
    CannotVerifyAdaptorSignature,
    /// Given bytes don't represent a valid whitelist signature
    InvalidWhitelistSignature,
    /// Invalid PAK list
    InvalidPakList,
    /// Couldn't create whitelist signature with the given data.
    CannotCreateWhitelistSignature,
    /// The given whitelist signature doesn't correctly prove inclusion in the whitelist.
    InvalidWhitelistProof,
}

/// The text with which each error describes itself.
pub open spec fn error_text(e: Error) -> Seq<char> {
    match e {
        Error::IncorrectSignature => "signature failed verification"@,
        Error::InvalidMessage => "message was not 32 bytes (do you need to hash?)"@,
        Error::InvalidPublicKey => "malformed public key"@,
        Error::InvalidSignature => "malformed signature"@,
        Error::InvalidSecretKey => "malformed or out-of-range secret key"@,
        Error::InvalidSharedSecret => "malformed or out-of-range shared secret"@,
        Error::InvalidRecoveryId => "bad recovery id"@,
        Error::InvalidTweak => "bad tweak"@,
        Error::NotEnoughMemory => "not enough memory allocated"@,
        Error::InvalidPublicKeySum => "the sum of public keys was invalid or the input vector lengths was less than 1"@,
        Error::InvalidParityValue(_) => "couldn't create parity"@,
        Error::InvalidEllSwift => "malformed EllSwift value"@,
        Error::CannotProveSurjection => "failed to prove surjection"@,
        Error::InvalidSurjectionProof => "malformed surjection proof"@,
        Error::InvalidPedersenCommitment => "malformed pedersen commitment"@,
        Error::CannotMakeRangeProof => "failed to generate range proof"@,
        Error::InvalidRangeProof => "failed to verify range proof"@,
        Error::InvalidGenerator => "malformed generator"@,
        Error::InvalidEcdsaAdaptorSignature => "malformed ecdsa adaptor signature"@,
        Error::CannotDecryptAdaptorSignature => "failed to decrypt adaptor signature"@,
        Error::CannotRecoverAdaptorSecret => "failed to recover adaptor secret"@,
        Error::CannotVerifyAdaptorSignature => "failed to verify adaptor signature"@,
        Error::InvalidTweakLength => "Tweak must of size 32"@,
        Error::TweakOutOfBounds => "Tweak must be less than secp curve order"@,
        Error::InvalidWhitelistSignature => "malformed whitelist signature"@,
        Error::InvalidPakList => "invalid PAK list"@,
        Error::CannotCreateWhitelistSignature => "cannot create whitelist signature with the given data"@,
        Error::InvalidWhitelistProof => "given whitelist signature doesn't correctly prove inclusion in the whitelist"@,
    }
}

/// A short fingerprint of a text: its length, its first character and its
/// eleventh character (a space for shorter texts).
pub open spec fn text_key(t: Seq<char>) -> (nat, char, char) {
    (t.len(), t[0], if t.len() > 10 { t[10] } else { ' ' })
}

/// The fingerprint of each error's text.
pub open spec fn error_key(e: Error) -> (nat, char, char) {
    match e {
        Error::IncorrectSignature => (29nat, 's', 'f'),
        Error::InvalidMessage => (47nat, 'm', 's'),
        Error::InvalidPublicKey => (20nat, 'm', 'p'),
        Error::InvalidSignature => (19nat, 'm', 's'),
        Error::InvalidSecretKey => (36nat, 'm', 'o'),
        Error::InvalidSharedSecret => (39nat, 'm', 'o'),
        Error::InvalidRecoveryId => (15nat, 'b', 'r'),
        Error::InvalidTweak => (9nat, 'b', ' '),
        Error::NotEnoughMemory => (27nat, 'n', ' '),
        Error::InvalidPublicKeySum => (78nat, 't', ' '),
        Error::InvalidParityValue(_) => (22nat, 'c', 'r'),
        Error::InvalidEllSwift => (24nat, 'm', 'E'),
        Error::CannotProveSurjection => (26nat, 'f', 'p'),
        Error::InvalidSurjectionProof => (26nat, 'm', 's'),
        Error::InvalidPedersenCommitment => (29nat, 'm', 'p'),
        Error::CannotMakeRangeProof => (30nat, 'f', 'g'),
        Error::InvalidRangeProof => (28nat, 'f', 'v'),
        Error::InvalidGenerator => (19nat, 'm', 'g'),
        Error::InvalidEcdsaAdaptorSignature => (33nat, 'm', 'e'),
        Error::CannotDecryptAdaptorSignature => (35nat, 'f', 'd'),
        Error::CannotRecoverAdaptorSecret => (32nat, 'f', 'r'),
        Error::CannotVerifyAdaptorSignature => (34nat, 'f', 'v'),
        Error::InvalidTweakLength => (21nat, 'T', ' '),
        Error::TweakOutOfBounds => (40nat, 'T', ' '),
        Error::InvalidWhitelistSignature => (29nat, 'm', 'w'),
        Error::InvalidPakList => (16nat, 'i', 'K'),
        Error::CannotCreateWhitelistSignature => (53nat, 'c', 'a'),
        Error::InvalidWhitelistProof => (76nat, 'g', 'e'),
    }
}

proof fn lemma_error_text_key(e: Error)
    ensures
        text_key(error_text(e)) == error_key(e),
        error_text(e).len() > 0,
{
    match e {
        Error::IncorrectSignature => {
            reveal_strlit("signature failed verification");
        },
        Error::InvalidMessage => {
            reveal_strlit("message was not 32 bytes (do you need to hash?)");
        },
        Error::InvalidPublicKey => {
            reveal_strlit("malformed public key");
        },
        Error::InvalidSignature => {
            reveal_strlit("malformed signature");
        },
        Error::InvalidSecretKey => {
            reveal_strlit("malformed or out-of-range secret key");
        },
        Error::InvalidSharedSecret => {
            reveal_strlit("malformed or out-of-range shared secret");
        },
        Error::InvalidRecoveryId => {
            reveal_strlit("bad recovery id");
        },
        Error::InvalidTweak => {
            reveal_strlit("bad tweak");
        },
        Error::NotEnoughMemory => {
            reveal_strlit("not enough memory allocated");
        },
        Error::InvalidPublicKeySum => {
            reveal_strlit("the sum of public keys was invalid or the input vector lengths was less than 1");
        },
        Error::InvalidParityValue(_) => {
            reveal_strlit("couldn't create parity");
        },
        Error::InvalidEllSwift => {
            reveal_strlit("malformed EllSwift value");
        },
        Error::CannotProveSurjection => {
            reveal_strlit("failed to prove surjection");
        },
        Error::InvalidSurjectionProof => {
            reveal_strlit("malformed surjection proof");
        },
        Error::InvalidPedersenCommitment => {
            reveal_strlit("malformed pedersen commitment");
        },
        Error::CannotMakeRangeProof => {
            reveal_strlit("failed to generate range proof");
        },
        Error::InvalidRangeProof => {
            reveal_strlit("failed to verify range proof");
        },
        Error::InvalidGenerator => {
            reveal_strlit("malformed generator");
        },
        Error::InvalidEcdsaAdaptorSignature => {
            reveal_strlit("malformed ecdsa adaptor signature");
        },
        Error::CannotDecryptAdaptorSignature => {
            reveal_strlit("failed to decrypt adaptor signature");
        },
        Error::CannotRecoverAdaptorSecret => {
            reveal_strlit("failed to recover adaptor secret");
        },
        Error::CannotVerifyAdaptorSignature => {
            reveal_strlit("failed to verify adaptor signature");
        },
        Error::InvalidTweakLength => {
            reveal_strlit("Tweak must of size 32");
        },
        Error::TweakOutOfBounds => {
            reveal_strlit("Tweak must be less than secp curve order");
        },
        Error::InvalidWhitelistSignature => {
            reveal_strlit("malformed whitelist signature");
        },
        Error::InvalidPakList => {
            reveal_strlit("invalid PAK list");
        },
        Error::CannotCreateWhitelistSignature => {
            reveal_strlit("cannot create whitelist signature with the given data");
        },
        Error::InvalidWhitelistProof => {
            reveal_strlit("given whitelist signature doesn't correctly prove inclusion in the whitelist");
        },
    }
}

/// Errors of different kinds describe themselves with different, nonempty
/// texts (all bad parity values share one text).
pub proof fn lemma_error_texts_distinct(e1: Error, e2: Error)
    requires
        e1 != e2,
        !(e1 is InvalidParityValue && e2 is InvalidParityValue),
    ensures
        error_text(e1) != error_text(e2),
        error_text(e1).len() > 0,
{
    lemma_error_text_key(e1);
    lemma_error_text_key(e2);
}

impl Error {
    /// The text that describes this error.
    pub fn to_string(&self) -> (res: String)
        ensures
            res@ == error_text(*self),
    {
        broadcast use vstd::string::to_string_from_display_ensures_for_str;

        let text: &str = match self {
            Error::IncorrectSignature => "signature failed verification",
            Error::InvalidMessage => "message was not 32 bytes (do you need to hash?)",
            Error::InvalidPublicKey => "malformed public key",
            Error::InvalidSignature => "malformed signature",
            Error::InvalidSecretKey => "malformed or out-of-range secret key",
            Error::InvalidSharedSecret => "malformed or out-of-range shared secret",
            Error::InvalidRecoveryId => "bad recovery id",
            Error::InvalidTweak => "bad tweak",
            Error::NotEnoughMemory => "not enough memory allocated",
            Error::InvalidPublicKeySum => "the sum of public keys was invalid or the input vector lengths was less than 1",
            Error::InvalidParityValue(_) => "couldn't create parity",
            Error::InvalidEllSwift => "malformed EllSwift value",
            Error::CannotProveSurjection => "failed to prove surjection",
            Error::InvalidSurjectionProof => "malformed surjection proof",
            Error::InvalidPedersenCommitment => "malformed pedersen commitment",
            Error::CannotMakeRangeProof => "failed to generate range proof",
            Error::InvalidRangeProof => "failed to verify range proof",
            Error::InvalidGenerator => "malformed generator",
            Error::InvalidEcdsaAdaptorSignature => "malformed ecdsa adaptor signature",
            Error::CannotDecryptAdaptorSignature => "failed to decrypt adaptor signature",
            Error::CannotRecoverAdaptorSecret => "failed to recover adaptor secret",
            Error::CannotVerifyAdaptorSignature => "failed to verify adaptor signature",
            Error::InvalidTweakLength => "Tweak must of size 32",
            Error::TweakOutOfBounds => "Tweak must be less than secp curve order",
            Error::InvalidWhitelistSignature => "malformed whitelist signature",
            Error::InvalidPakList => "invalid PAK list",
            Error::CannotCreateWhitelistSignature => "cannot create whitelist signature with the given data",
            Error::InvalidWhitelistProof => "given whitelist signature doesn't correctly prove inclusion in the whitelist",
        };
        text.to_string()
    }

    /// The lower-level error that caused this one, if any: only a bad
    /// parity value carries one.
    pub fn source(&self) -> (res: Option<InvalidParityValue>)
        ensures
            res == (match *self {
                Error::InvalidParityValue(e) => Some(e),
                _ => None,
            }),
    {
        match self {
            Error::InvalidParityValue(e) => Some(*e),
            _ => None,
        }
    }
}

} // verus!
