//! Trusted view of `http`'s header map.
//!
//! The codec in [`crate::headers`] reads and fills an `http::HeaderMap`.
//! The map itself belongs to the `http` crate; these declarations give it
//! a mathematical content — the first value stored under each lowercase
//! header name — and each operation the library uses a contract over that
//! content.

use vstd::prelude::*;

verus! {

#[verifier::external_type_specification]
#[verifier::external_body]
#[verifier::reject_recursive_types(T)]
pub struct ExHeaderMap<T>(http::HeaderMap<T>);

#[verifier::external_type_specification]
#[verifier::external_body]
pub struct ExHeaderValue(http::HeaderValue);

/// The contents of a header map: the bytes of the first value stored
/// under each header name, keyed by the lowercase name.
pub uninterp spec fn header_entries(m: http::HeaderMap) -> Map<Seq<char>, Seq<u8>>;

/// How many name-value pairs the map holds, counting every value of a
/// name. Only used to bound the map far under the capacity at which
/// `http` refuses to grow it.
pub uninterp spec fn header_size(m: http::HeaderMap) -> nat;

/// Room for one more entry, comfortably below the capacity at which
/// `http::HeaderMap::insert` panics.
pub open spec fn header_room(m: http::HeaderMap, n: nat) -> bool {
    header_size(m) + n <= 16384
}

/// A name this module passes to `http`: nonempty, lowercase letters,
/// digits and dashes, so that building the `HeaderName` cannot fail.
pub open spec fn wf_header_name(s: Seq<char>) -> bool {
    &&& s.len() > 0
    &&& forall|i: int|
        0 <= i < s.len() ==> (97 <= s[i] as u32 <= 122 || s[i] as u32 == 45 || 48 <= s[i] as u32
            <= 57)
}

/// A value this module passes to `http`: bytes that
/// `http::HeaderValue::from_bytes` accepts.
pub open spec fn wf_header_value(v: Seq<u8>) -> bool {
    forall|i: int| 0 <= i < v.len() ==> ((32 <= v[i] && v[i] != 127) || v[i] == 9)
}

/// Relies on `http::HeaderMap::new`: a fresh map holds nothing, so a
/// verified caller can establish the room the setters ask for.
#[verifier::external_body]
pub fn header_map_new() -> (r: http::HeaderMap)
    ensures
        header_entries(r) =~= Map::empty(),
        header_size(r) == 0,
{
    http::HeaderMap::new()
}

/// Relies on `http::HeaderMap::insert`: the new value replaces all
/// values previously stored under the name. Building the name and value
/// cannot fail for inputs this module passes, and the map stays far from
/// the capacity at which `insert` panics.
#[verifier::external_body]
pub fn header_insert(m: &mut http::HeaderMap, name: &str, value: &[u8])
    requires
        wf_header_name(name@),
        wf_header_value(value@),
        header_room(*old(m), 1),
    ensures
        header_entries(*final(m)) == header_entries(*old(m)).insert(name@, value@),
        header_size(*final(m)) <= header_size(*old(m)) + 1,
{
    let n = http::header::HeaderName::from_bytes(name.as_bytes()).unwrap();
    let v = http::header::HeaderValue::from_bytes(value).unwrap();
    m.insert(n, v);
}

/// Relies on `http::HeaderMap::remove`: every value stored under the
/// name is removed.
#[verifier::external_body]
pub fn header_remove(m: &mut http::HeaderMap, name: &str)
    requires
        wf_header_name(name@),
    ensures
        header_entries(*final(m)) == header_entries(*old(m)).remove(name@),
        header_size(*final(m)) <= header_size(*old(m)),
{
    m.remove(name);
}

/// Relies on `http::HeaderMap::get`: the first value stored under the
/// name, or `None` when the map holds none.
#[verifier::external_body]
pub fn header_get(m: &http::HeaderMap, name: &str) -> (r: Option<Vec<u8>>)
    requires
        wf_header_name(name@),
    ensures
        match r {
            Some(v) => header_entries(*m).contains_key(name@) && v@ == header_entries(*m)[name@],
            None => !header_entries(*m).contains_key(name@),
        },
{
    m.get(name).map(|v| v.as_bytes().to_vec())
}

} // verus!
