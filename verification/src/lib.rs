//! Verified core of the Rust bindings to libsecp256k1(-zkp): hexadecimal
//! codecs, message digests, ECDSA signature encodings (compact and DER),
//! low-S normalization, keys, verification, and the error type.
pub mod backend;
pub mod constants;
pub mod context;
pub mod der;
pub mod ecdsa;
pub mod error;
pub mod hex;
pub mod key;
pub mod message;
pub mod scalar_bytes;
pub mod std_wrappers;

pub use crate::context::{All, Context, Secp256k1, SignOnly, Signing, Verification, VerifyOnly};
pub use crate::error::{Error, InvalidParityValue};
pub use crate::hex::{from_hex, to_hex};
pub use crate::key::{Keypair, PublicKey, SecretKey, XOnlyPublicKey};
pub use crate::message::{Message, ThirtyTwoByteHash};
