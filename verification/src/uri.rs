//! The collector URI: appending the spans path to a configured base.

use vstd::prelude::*;

verus! {

/// ASCII `'/'`.
pub const SLASH: u8 = 47;

/// ASCII `'?'`.
pub const QMARK: u8 = 63;

/// ASCII `'#'`.
pub const HASH: u8 = 35;

#[verifier::external_type_specification]
#[verifier::external_body]
pub struct ExUri(http::Uri);

/// The bytes of the URI's path: what `http::Uri::path` returns, which is
/// empty when the URI has no path at all.
pub uninterp spec fn uri_path_bytes(u: http::Uri) -> Seq<u8>;

/// The bytes of the URI's query string, when it has one.
pub uninterp spec fn uri_query_bytes(u: http::Uri) -> Option<Seq<u8>>;

/// The bytes of the URI's scheme, when it has one.
pub uninterp spec fn uri_scheme_bytes(u: http::Uri) -> Option<Seq<u8>>;

/// The bytes of the URI's authority, when it has one.
pub uninterp spec fn uri_authority_bytes(u: http::Uri) -> Option<Seq<u8>>;

/// Whether `http` accepts rebuilding the URI around this path-and-query
/// string: a function of the URI's parts and the bytes alone.
pub uninterp spec fn uri_accepts_pq(u: http::Uri, pq: Seq<u8>) -> bool;

/// The URI's path-and-query string: the path, then `?` and the query
/// when there is one.
pub open spec fn uri_pq_bytes(u: http::Uri) -> Seq<u8> {
    uri_path_bytes(u) + (match uri_query_bytes(u) {
        Some(q) => seq![QMARK] + q,
        None => Seq::empty(),
    })
}

/// A path-and-query string this module hands back to `http`: nonempty,
/// rooted, and free of the fragment separator that would truncate it.
pub open spec fn pq_wf(pq: Seq<u8>) -> bool {
    &&& pq.len() > 0
    &&& pq[0] == SLASH
    &&& forall|i: int| 0 <= i < pq.len() ==> #[trigger] pq[i] != HASH
}

/// Relies on `http::Uri::path`: the path as a string, `""` when the URI
/// has none.
#[verifier::external_body]
pub fn uri_path(u: &http::Uri) -> (r: Vec<u8>)
    ensures
        r@ == uri_path_bytes(*u),
{
    u.path().as_bytes().to_vec()
}

/// Relies on `http::Uri::query`: the query string when the URI has one.
#[verifier::external_body]
pub fn uri_query(u: &http::Uri) -> (r: Option<Vec<u8>>)
    ensures
        match r {
            Some(q) => uri_query_bytes(*u) == Some(q@),
            None => uri_query_bytes(*u) is None,
        },
{
    u.query().map(|q| q.as_bytes().to_vec())
}

/// Relies on `http::uri::Parts`, `PathAndQuery::try_from` and
/// `http::Uri::from_parts`. For a rooted, fragment-free path-and-query
/// string, acceptance depends only on the URI's parts and the bytes;
/// when accepted, the returned URI keeps the base's scheme and authority
/// untouched and carries exactly the given path-and-query string.
#[verifier::external_body]
fn uri_with_pq(u: &http::Uri, pq: &[u8]) -> (r: Option<http::Uri>)
    requires
        pq_wf(pq@),
    ensures
        r is Some <==> uri_accepts_pq(*u, pq@),
        r matches Some(u2) ==> {
            &&& uri_pq_bytes(u2) == pq@
            &&& uri_scheme_bytes(u2) == uri_scheme_bytes(*u)
            &&& uri_authority_bytes(u2) == uri_authority_bytes(*u)
        },
{
    let pq = http::uri::PathAndQuery::try_from(pq).ok()?;
    let mut parts = http::uri::Parts::from(u.clone());
    parts.path_and_query = Some(pq);
    http::Uri::from_parts(parts).ok()
}

/// The path of the spans endpoint under a base path: the base, a single
/// separator, and `api/v2/spans`.
pub open spec fn spans_path_of(path: Seq<u8>) -> Seq<u8> {
    if path.len() == 0 {
        seq![SLASH] + spans_segment()
    } else if path.last() == SLASH {
        path + spans_segment()
    } else {
        path + seq![SLASH] + spans_segment()
    }
}

/// The bytes of `api/v2/spans`.
pub open spec fn spans_segment() -> Seq<u8> {
    seq![97u8, 112, 105, 47, 118, 50, 47, 115, 112, 97, 110, 115]
}

/// The path-and-query of the spans endpoint: the spans path, keeping the
/// base's query string.
pub open spec fn spans_pq_of(path: Seq<u8>, query: Option<Seq<u8>>) -> Seq<u8> {
    spans_path_of(path) + (match query {
        Some(q) => seq![QMARK] + q,
        None => Seq::empty(),
    })
}

/// Builds `api/v2/spans`.
fn spans_segment_bytes() -> (r: Vec<u8>)
    ensures
        r@ == spans_segment(),
{
    let mut r: Vec<u8> = Vec::new();
    r.push(97);
    r.push(112);
    r.push(105);
    r.push(47);
    r.push(118);
    r.push(50);
    r.push(47);
    r.push(115);
    r.push(112);
    r.push(97);
    r.push(110);
    r.push(115);
    proof {
        assert(r@ =~= spans_segment());
    }
    r
}

/// Decides `pq_wf` of a built path-and-query string.
fn pq_wf_check(pq: &[u8]) -> (r: bool)
    ensures
        r == pq_wf(pq@),
{
    if pq.len() == 0 || pq[0] != SLASH {
        return false;
    }
    let n = pq.len();
    let mut i: usize = 0;
    while i < n
        invariant
            i <= n == pq@.len(),
            forall|j: int| 0 <= j < i ==> #[trigger] pq@[j] != HASH,
        decreases n - i,
    {
        if pq[i] == HASH {
            return false;
        }
        i = i + 1;
    }
    true
}

/// Appends the spans endpoint to a base URI: the path gains a single
/// separator and `api/v2/spans`, and the query string, the scheme and
/// the authority are kept. Succeeds exactly when the rebuilt
/// path-and-query string is well formed and `http` accepts it against
/// the base's parts — so for any ordinary collector base.
pub fn resolve_spans_path(uri: &http::Uri) -> (r: Option<http::Uri>)
    ensures
        ({
            let spansq = spans_pq_of(uri_path_bytes(*uri), uri_query_bytes(*uri));
            &&& (r is Some <==> pq_wf(spansq) && uri_accepts_pq(*uri, spansq))
            &&& r matches Some(u2) ==> {
                &&& uri_pq_bytes(u2) == spansq
                &&& uri_scheme_bytes(u2) == uri_scheme_bytes(*uri)
                &&& uri_authority_bytes(u2) == uri_authority_bytes(*uri)
            }
        }),
{
    let mut pq = uri_path(uri);
    let needs_slash = if pq.len() == 0 {
        true
    } else {
        pq[pq.len() - 1] != SLASH
    };
    if needs_slash {
        pq.push(SLASH);
    }
    let mut seg = spans_segment_bytes();
    pq.append(&mut seg);
    proof {
        assert(pq@ =~= spans_path_of(uri_path_bytes(*uri)));
    }
    match uri_query(uri) {
        Some(q) => {
            pq.push(QMARK);
            let mut qv = q;
            pq.append(&mut qv);
        },
        None => {},
    }
    proof {
        assert(pq@ =~= spans_pq_of(uri_path_bytes(*uri), uri_query_bytes(*uri)));
    }
    if !pq_wf_check(pq.as_slice()) {
        return None;
    }
    uri_with_pq(uri, pq.as_slice())
}

} // verus!
