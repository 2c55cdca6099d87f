//! Checked conversion of bytes to text.
use vstd::prelude::*;
use vstd::string::StringSliceAdditionalSpecFns;

verus! {

/// The error `core::str::from_utf8` reports for bytes that are not UTF-8.
#[verifier::external_type_specification]
#[verifier::external_body]
pub struct ExUtf8Error(core::str::Utf8Error);

pub use core::str::Utf8Error;

/// What `core::str::Utf8Error::valid_up_to` gives for an error: the
/// length of the prefix of the input that was found to be valid UTF-8.
pub uninterp spec fn utf8_valid_up_to(e: Utf8Error) -> usize;

/// Whether `k` is the largest index up to which `bytes`, which are not
/// UTF-8 as a whole, are valid UTF-8.
pub open spec fn is_valid_up_to(bytes: Seq<u8>, k: int) -> bool {
    &&& 0 <= k < bytes.len()
    &&& vstd::utf8::valid_utf8(bytes.take(k))
    &&& forall|j: int| k < j <= bytes.len() ==> !vstd::utf8::valid_utf8(#[trigger] bytes.take(j))
}

/// Calls `core::str::from_utf8`. Its documentation promises `Ok` exactly
/// when the bytes are valid UTF-8, and then a `str` over those same bytes;
/// on an error, `Utf8Error::valid_up_to` is the largest index such that
/// the bytes before it would convert.
#[verifier::external_body]
pub(crate) fn str_from_utf8(bytes: &[u8]) -> (r: Result<&str, Utf8Error>)
    ensures
        r is Ok <==> vstd::utf8::valid_utf8(bytes@),
        r matches Ok(s) ==> s.spec_bytes() == bytes@,
        r matches Err(e) ==> is_valid_up_to(bytes@, utf8_valid_up_to(e) as int),
{
    core::str::from_utf8(bytes)
}

/// Whether two byte strings are equal.
pub fn bytes_eq(a: &[u8], b: &[u8]) -> (r: bool)
    ensures
        r == (a@ == b@),
{
    if a.len() != b.len() {
        return false;
    }
    let mut i: usize = 0;
    while i < a.len()
        invariant
            i <= a@.len(),
            a@.len() == b@.len(),
            a@.subrange(0, i as int) == b@.subrange(0, i as int),
        decreases a@.len() - i,
    {
        if a[i] != b[i] {
            assert(a@.subrange(0, i + 1)[i as int] != b@.subrange(0, i + 1)[i as int]);
            return false;
        }
        assert(a@.subrange(0, i + 1) =~= a@.subrange(0, i as int).push(a@[i as int]));
        assert(b@.subrange(0, i + 1) =~= b@.subrange(0, i as int).push(b@[i as int]));
        i = i + 1;
    }
    assert(a@ =~= a@.subrange(0, i as int));
    assert(b@ =~= b@.subrange(0, i as int));
    true
}

} // verus!
