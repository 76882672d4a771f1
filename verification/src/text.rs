//! Trusted bridge from verified byte strings to `String`.

use vstd::prelude::*;

verus! {

/// The UTF-8 bytes of a character sequence: what `str::as_bytes` returns
/// for a string with this view.
pub open spec fn string_bytes(s: Seq<char>) -> Seq<u8> {
    vstd::utf8::encode_utf8(s)
}

/// What `str::to_lowercase` returns for a string with the given view.
/// The result depends on the characters alone.
pub uninterp spec fn lower_of(s: Seq<char>) -> Seq<char>;

/// Relies on `String::from_utf8`: the bytes are accepted exactly when
/// they are valid UTF-8, and the returned string holds exactly them.
#[verifier::external_body]
pub fn utf8_string(bytes: Vec<u8>) -> (r: Option<String>)
    ensures
        r is Some <==> vstd::utf8::valid_utf8(bytes@),
        r matches Some(s) ==> string_bytes(s@) == bytes@,
{
    String::from_utf8(bytes).ok()
}

/// Relies on `str::to_lowercase`: the result is a function of the
/// characters alone, and an empty string stays empty.
#[verifier::external_body]
pub fn lowercase(s: &str) -> (r: String)
    ensures
        r@ == lower_of(s@),
        s@.len() == 0 ==> r@.len() == 0,
{
    s.to_lowercase()
}

/// Relies on `String::from_utf8`: a vector of ASCII bytes is valid UTF-8,
/// and the returned string holds exactly the given bytes.
#[verifier::external_body]
pub fn ascii_string(bytes: Vec<u8>) -> (r: String)
    requires
        forall|i: int| 0 <= i < bytes@.len() ==> bytes@[i] < 128,
    ensures
        string_bytes(r@) == bytes@,
{
    String::from_utf8(bytes).unwrap()
}

} // verus!
