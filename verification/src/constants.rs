//! Sizes of the objects this library handles.
use vstd::prelude::*;

verus! {

/// The size (in bytes) of a message digest.
pub const MESSAGE_SIZE: usize = 32;

/// The size (in bytes) of a secret key.
pub const SECRET_KEY_SIZE: usize = 32;

/// The size (in bytes) of a serialized public key.
pub const PUBLIC_KEY_SIZE: usize = 33;

/// The size (in bytes) of a serialized x-only public key.
pub const SCHNORR_PUBLIC_KEY_SIZE: usize = 32;

/// The maximum size of a DER-serialized signature.
pub const MAX_SIGNATURE_SIZE: usize = 72;

/// The size of a compact signature.
pub const COMPACT_SIGNATURE_SIZE: usize = 64;

} // verus!
