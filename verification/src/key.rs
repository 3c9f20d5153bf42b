//! Secret and public keys, held as their byte serializations.
use vstd::prelude::*;
use crate::backend::{
    check_compressed_public_key, check_x_only_public_key, compressed_public_key_is_valid,
    derive_public_key, is_secret_key_bytes, public_key_of_secret, x_only_public_key_is_valid,
};
use crate::error::Error;
use crate::scalar_bytes::{be_is_zero, be_lt, be_value, curve_order, lemma_curve_order_bytes, CURVE_ORDER};

verus! {

/// The bytes accepted as a secret key are exactly the 32-byte big-endian
/// numbers from 1 to `n - 1`.
pub proof fn lemma_secret_key_range(b: Seq<u8>)
    requires
        b.len() == 32,
    ensures
        is_secret_key_bytes(b) <==> 0 < be_value(b) < curve_order(),
{
}

/// A secret key: a nonzero number below the group order, big-endian.
#[derive(Copy, Clone, Debug, PartialEq, Eq, PartialOrd, Ord, Hash)]
pub struct SecretKey {
    bytes: [u8; 32],
}

impl View for SecretKey {
    type V = Seq<u8>;

    closed spec fn view(&self) -> Seq<u8> {
        self.bytes@
    }
}

impl SecretKey {
    #[verifier::type_invariant]
    spec fn well_formed(self) -> bool {
        is_secret_key_bytes(self.bytes@)
    }

    /// Converts a 32-byte array to a secret key.
    ///
    /// # Errors
    ///
    /// `InvalidSecretKey` if the number is zero or not below the group order.
    pub fn from_byte_array(data: [u8; 32]) -> (res: Result<SecretKey, Error>)
        ensures
            match res {
                Ok(sk) => is_secret_key_bytes(data@) && sk@ == data@,
                Err(e) => !is_secret_key_bytes(data@) && e == Error::InvalidSecretKey,
            },
            res is Ok <==> 0 < be_value(data@) < curve_order(),
    {
        proof {
            lemma_curve_order_bytes();
            lemma_secret_key_range(data@);
        }
        let below = be_lt(&data, &CURVE_ORDER);
        let zero = be_is_zero(&data);
        if below && !zero {
            Ok(SecretKey { bytes: data })
        } else {
            Err(Error::InvalidSecretKey)
        }
    }

    /// The secret key as a byte array.
    pub fn secret_bytes(&self) -> (res: [u8; 32])
        ensures
            res@ == self@,
            is_secret_key_bytes(res@),
    {
        proof {
            use_type_invariant(self);
        }
        self.bytes
    }
}

/// A public key, held in its 33-byte compressed serialization.
#[derive(Copy, Clone, Debug, PartialEq, Eq, PartialOrd, Ord, Hash)]
pub struct PublicKey {
    bytes: [u8; 33],
}

impl View for PublicKey {
    type V = Seq<u8>;

    closed spec fn view(&self) -> Seq<u8> {
        self.bytes@
    }
}

impl PublicKey {
    #[verifier::type_invariant]
    spec fn well_formed(self) -> bool {
        compressed_public_key_is_valid(self.bytes@)
    }

    /// Creates a public key from its compressed serialization.
    ///
    /// # Errors
    ///
    /// `InvalidPublicKey` if the bytes are not a point of the curve.
    pub fn from_byte_array_compressed(data: [u8; 33]) -> (res: Result<PublicKey, Error>)
        ensures
            match res {
                Ok(pk) => compressed_public_key_is_valid(data@) && pk@ == data@,
                Err(e) => !compressed_public_key_is_valid(data@) && e == Error::InvalidPublicKey,
            },
    {
        if check_compressed_public_key(&data) {
            Ok(PublicKey { bytes: data })
        } else {
            Err(Error::InvalidPublicKey)
        }
    }

    /// The public key of a secret key.
    pub fn from_secret_key(sk: &SecretKey) -> (res: PublicKey)
        ensures
            res@ == public_key_of_secret(sk@),
    {
        let bytes = sk.secret_bytes();
        PublicKey { bytes: derive_public_key(&bytes) }
    }

    /// The compressed serialization of the key.
    pub fn serialize(&self) -> (res: [u8; 33])
        ensures
            res@ == self@,
            compressed_public_key_is_valid(res@),
    {
        proof {
            use_type_invariant(self);
        }
        self.bytes
    }
}

/// An x-only public key, held as its 32-byte x coordinate.
#[derive(Copy, Clone, Debug, PartialEq, Eq, PartialOrd, Ord, Hash)]
pub struct XOnlyPublicKey {
    bytes: [u8; 32],
}

impl View for XOnlyPublicKey {
    type V = Seq<u8>;

    closed spec fn view(&self) -> Seq<u8> {
        self.bytes@
    }
}

impl XOnlyPublicKey {
    #[verifier::type_invariant]
    spec fn well_formed(self) -> bool {
        x_only_public_key_is_valid(self.bytes@)
    }

    /// Creates an x-only public key from its x coordinate.
    ///
    /// # Errors
    ///
    /// `InvalidPublicKey` if no point of the curve has that x coordinate.
    pub fn from_byte_array(data: [u8; 32]) -> (res: Result<XOnlyPublicKey, Error>)
        ensures
            match res {
                Ok(pk) => x_only_public_key_is_valid(data@) && pk@ == data@,
                Err(e) => !x_only_public_key_is_valid(data@) && e == Error::InvalidPublicKey,
            },
    {
        if check_x_only_public_key(&data) {
            Ok(XOnlyPublicKey { bytes: data })
        } else {
            Err(Error::InvalidPublicKey)
        }
    }

    /// The x coordinate.
    pub fn serialize(&self) -> (res: [u8; 32])
        ensures
            res@ == self@,
            x_only_public_key_is_valid(res@),
    {
        proof {
            use_type_invariant(self);
        }
        self.bytes
    }
}

/// A secret key together with its public key.
#[derive(Copy, Clone, Debug, PartialEq, Eq, PartialOrd, Ord, Hash)]
pub struct Keypair {
    secret: SecretKey,
    public: PublicKey,
}

impl View for Keypair {
    type V = (Seq<u8>, Seq<u8>);

    closed spec fn view(&self) -> (Seq<u8>, Seq<u8>) {
        (self.secret@, self.public@)
    }
}

impl Keypair {
    #[verifier::type_invariant]
    spec fn well_formed(self) -> bool {
        self.public@ == public_key_of_secret(self.secret@)
    }

    /// The keypair of a secret key.
    pub fn from_secret_key(sk: &SecretKey) -> (res: Keypair)
        ensures
            res@ == (sk@, public_key_of_secret(sk@)),
    {
        Keypair { secret: *sk, public: PublicKey::from_secret_key(sk) }
    }

    /// The secret key as a byte array.
    pub fn secret_bytes(&self) -> (res: [u8; 32])
        ensures
            res@ == self@.0,
            is_secret_key_bytes(res@),
    {
        self.secret.secret_bytes()
    }

    /// The secret key.
    pub fn secret_key(&self) -> (res: SecretKey)
        ensures
            res@ == self@.0,
    {
        self.secret
    }

    /// The public key.
    pub fn public_key(&self) -> (res: PublicKey)
        ensures
            res@ == self@.1,
            res@ == public_key_of_secret(self@.0),
    {
        proof {
            use_type_invariant(self);
        }
        self.public
    }
}

} // verus!
