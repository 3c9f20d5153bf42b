//! Trusted items for the few std functions that vstd does not specify.
use vstd::prelude::*;
use vstd::utf8::valid_utf8;
use vstd::string::StringSliceAdditionalSpecFns;

verus! {

/// Wraps `core::str::from_utf8`. Its documentation states that it returns
/// `Ok` exactly when the bytes are valid UTF-8, and that the returned string
/// slice then consists of those very bytes.
#[verifier::external_body]
pub(crate) fn str_from_utf8(bytes: &[u8]) -> (res: Option<&str>)
    ensures
        res is Some <==> valid_utf8(bytes@),
        res matches Some(s) ==> s.spec_bytes() == bytes@,
{
    core::str::from_utf8(bytes).ok()
}

} // verus!
