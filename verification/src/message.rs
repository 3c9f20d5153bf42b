//! Message digests, the input of ECDSA signing and verification.
use vstd::prelude::*;
use crate::constants::MESSAGE_SIZE;
use crate::error::Error;
use crate::hex::{ascii_chars, hex_encode, hex_string};

verus! {

/// Something that promises to be a 32-byte uniformly random number.
///
/// In particular, anything implementing this trait must have negligible
/// probability of being zero, overflowing the group order, or equalling any
/// specific value.
pub trait ThirtyTwoByteHash {
    /// Converts the object into a 32-byte array.
    fn into_32(self) -> [u8; 32];
}

/// A (hashed) message input to an ECDSA signature.
#[derive(Copy, Clone, Debug, PartialEq, Eq, PartialOrd, Ord, Hash)]
pub struct Message(pub [u8; 32]);

impl View for Message {
    type V = Seq<u8>;

    open spec fn view(&self) -> Seq<u8> {
        self.0@
    }
}

impl Message {
    /// Creates a [`Message`] from a `digest`.
    ///
    /// The `digest` array has to be a cryptographically secure hash of the
    /// actual message that's going to be signed.
    pub fn from_digest(digest: [u8; 32]) -> (res: Message)
        ensures
            res@ == digest@,
    {
        Message(digest)
    }

    /// Creates a [`Message`] from a 32-byte slice `digest`.
    ///
    /// # Errors
    ///
    /// If `digest` is not exactly 32 bytes long.
    pub fn from_digest_slice(digest: &[u8]) -> (res: Result<Message, Error>)
        ensures
            match res {
                Ok(m) => digest@.len() == MESSAGE_SIZE && m@ == digest@,
                Err(e) => digest@.len() != MESSAGE_SIZE && e == Error::InvalidMessage,
            },
    {
        if digest.len() != MESSAGE_SIZE {
            return Err(Error::InvalidMessage);
        }
        let mut bytes = [0u8; 32];
        let mut i: usize = 0;
        while i < 32
            invariant
                digest@.len() == 32,
                0 <= i <= 32,
                forall|k: int| 0 <= k < i ==> bytes@[k] == digest@[k],
            decreases 32 - i,
        {
            bytes[i] = digest[i];
            i = i + 1;
        }
        assert(bytes@ =~= digest@);
        Ok(Message::from_digest(bytes))
    }

    /// Creates a [`Message`] from a 32-byte slice `digest`; the same as
    /// [`Message::from_digest_slice`].
    pub fn from_slice(digest: &[u8]) -> (res: Result<Message, Error>)
        ensures
            match res {
                Ok(m) => digest@.len() == MESSAGE_SIZE && m@ == digest@,
                Err(e) => digest@.len() != MESSAGE_SIZE && e == Error::InvalidMessage,
            },
    {
        Message::from_digest_slice(digest)
    }

    /// The 32 bytes of the digest.
    pub fn to_byte_array(&self) -> (res: [u8; 32])
        ensures
            res@ == self@,
    {
        self.0
    }

    /// The digest as 64 lower-case hex digits.
    pub fn to_string(&self) -> (res: String)
        ensures
            res@ == ascii_chars(hex_encode(self@)),
    {
        hex_string(&self.0)
    }
}

impl<T: ThirtyTwoByteHash> From<T> for Message {
    /// Converts a 32-byte hash directly to a message without error paths:
    /// the message is the 32 bytes that `into_32` hands out.
    fn from(t: T) -> (res: Message)
        ensures
            call_ensures(T::into_32, (t,), res.0),
    {
        Message(t.into_32())
    }
}

/// What a hash hands out is up to its implementation, so `from` is
/// described by the relation to `into_32` that its own `ensures` states, not
/// by a spec function of the hash.
impl<T: ThirtyTwoByteHash> vstd::std_specs::convert::FromSpecImpl<T> for Message {
    open spec fn obeys_from_spec() -> bool {
        false
    }

    open spec fn from_spec(t: T) -> Message {
        vstd::pervasive::arbitrary()
    }
}

} // verus!
