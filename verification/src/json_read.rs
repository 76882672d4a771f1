//! Reading a span back from its JSON form.
//!
//! The reader walks the exact grammar the serializer emits and then
//! holds its result to account: the parsed span is re-serialized, and
//! only a byte-for-byte match with the input is accepted. So whatever
//! `deserialize` returns is a span whose wire form is exactly the input
//! — no wrong span can come back. Success is owed, and proved, on the
//! wire form of every minimal span — one with just the two mandatory
//! identifiers; on richer records the reader's acceptance is exercised
//! by tests rather than proved.

use crate::annotation::Annotation;
use crate::endpoint::Endpoint;
use crate::headers::slice_range;
use crate::hex::{hex_digit_val, hex_of, lemma_hex_of_len, lemma_hex_round_trip};
use crate::json::{
    comma_join, json_field, json_of, json_string, lemma_hex_plain, span_fields, try_serialize,
    wire_fits, BACKSLASH, COLON, COMMA, DOT, LBRACE, QUOTE, RBRACE,
};
use crate::span::{Kind, Span, SpanView};
use crate::span_id::{parsed_span_id, SpanId};
use crate::text::{string_bytes, utf8_string};
use crate::time_micros;
use crate::trace_id::{parsed_trace_id, TraceId};
use vstd::prelude::*;

verus! {


/// A span whose wire form holds only the two mandatory fields: the
/// trace ID and the span ID.
pub open spec fn minimal_span_view(v: SpanView) -> bool {
    &&& v.trace_id.len() == 8 || v.trace_id.len() == 16
    &&& v.id.len() == 8
    &&& v.name is None
    &&& v.parent_id is None
    &&& v.kind is None
    &&& v.timestamp is None
    &&& v.duration is None
    &&& !v.debug
    &&& !v.shared
    &&& v.local_endpoint is None
    &&& v.remote_endpoint is None
    &&& v.annotations.len() == 0
    &&& v.tags.len() == 0
}

/// `b` is the wire form of the minimal span `v`.
pub open spec fn minimal_image(b: Seq<u8>, v: SpanView) -> bool {
    minimal_span_view(v) && json_of(v) == b
}

/// How a minimal span's wire form is laid out: the trace-id opener, the
/// trace hex, the field separator through the id opener, the id hex and
/// the closer, with the hex regions quote-free.
#[verifier::rlimit(100)]
#[verifier::spinoff_prover]
proof fn lemma_minimal_layout(b: Seq<u8>, v: SpanView)
    requires
        minimal_image(b, v),
    ensures
        hex_of(v.trace_id).len() == 16 || hex_of(v.trace_id).len() == 32,
        hex_of(v.id).len() == 16,
        b.len() == 22 + hex_of(v.trace_id).len() + hex_of(v.id).len(),
        string_bytes("{\"traceId\":\""@).len() == 12,
        string_bytes("\",\"id\":\""@).len() == 8,
        string_bytes("\"}"@).len() == 2,
        b.subrange(0, 12) == string_bytes("{\"traceId\":\""@),
        b.subrange(12, 12 + hex_of(v.trace_id).len() as int) == hex_of(v.trace_id),
        b.subrange(
            12 + hex_of(v.trace_id).len() as int,
            20 + hex_of(v.trace_id).len() as int,
        ) == string_bytes("\",\"id\":\""@),
        b.subrange(
            20 + hex_of(v.trace_id).len() as int,
            20 + hex_of(v.trace_id).len() + hex_of(v.id).len() as int,
        ) == hex_of(v.id),
        b.subrange(b.len() - 2, b.len() as int) == string_bytes("\"}"@),
        b[12 + hex_of(v.trace_id).len() as int] == QUOTE,
        b[b.len() - 2] == QUOTE,
        forall|j: int| 12 <= j < 12 + hex_of(v.trace_id).len() ==> #[trigger] b[j] != QUOTE,
        forall|j: int|
            20 + hex_of(v.trace_id).len() <= j < 20 + hex_of(v.trace_id).len() + hex_of(
                v.id,
            ).len() ==> #[trigger] b[j] != QUOTE,
{
    reveal(span_fields);
    reveal_strlit("{\"traceId\":\"");
    reveal_strlit("\",\"id\":\"");
    reveal_strlit("\"}");
    reveal_strlit("traceId");
    reveal_strlit("id");
    let th = hex_of(v.trace_id);
    let ih = hex_of(v.id);
    lemma_hex_of_len(v.trace_id);
    lemma_hex_of_len(v.id);
    lemma_hex_plain(v.trace_id);
    lemma_hex_plain(v.id);
    lemma_ascii_lit("{\"traceId\":\""@);
    lemma_ascii_lit("\",\"id\":\""@);
    lemma_ascii_lit("\"}"@);
    lemma_ascii_lit("traceId"@);
    lemma_ascii_lit("id"@);
    let f0 = json_field("traceId"@, json_string(th));
    let f1 = json_field("id"@, json_string(ih));
    assert(span_fields(v) =~= seq![f0, f1]);
    assert(seq![f0, f1].drop_first() =~= seq![f1]);
    assert(comma_join(seq![f1]) == f1);
    assert(comma_join(seq![f0, f1]) =~= f0 + seq![COMMA] + f1);
    let lit1 = string_bytes("{\"traceId\":\""@);
    let lit2 = string_bytes("\",\"id\":\""@);
    let lit3 = string_bytes("\"}"@);
    assert(lit1 =~= seq![LBRACE, QUOTE] + string_bytes("traceId"@) + seq![QUOTE, COLON, QUOTE]);
    assert(lit2 =~= seq![QUOTE, COMMA, QUOTE] + string_bytes("id"@) + seq![QUOTE, COLON, QUOTE]);
    assert(lit3 =~= seq![QUOTE, RBRACE]);
    assert(b =~= lit1 + th + lit2 + ih + lit3);
    assert(b.subrange(0, 12) =~= lit1);
    assert(b.subrange(12, 12 + th.len() as int) =~= th);
    assert(b.subrange(12 + th.len() as int, 20 + th.len() as int) =~= lit2);
    assert(b.subrange(20 + th.len() as int, 20 + th.len() + ih.len() as int) =~= ih);
    assert(b.subrange(b.len() - 2, b.len() as int) =~= lit3);
    assert forall|j: int| 12 <= j < 12 + th.len() implies #[trigger] b[j] != QUOTE by {
        assert(b[j] == th[j - 12]);
    }
    assert forall|j: int|
        20 + th.len() <= j < 20 + th.len() + ih.len() implies #[trigger] b[j] != QUOTE by {
        assert(b[j] == ih[j - 20 - th.len()]);
    }
}

/// The bytes of an ASCII literal are its characters.
proof fn lemma_ascii_lit(s: Seq<char>)
    requires
        vstd::utf8::is_ascii_chars(s),
    ensures
        string_bytes(s).len() == s.len(),
        forall|i: int|
            #![trigger string_bytes(s)[i]]
            0 <= i < s.len() ==> string_bytes(s)[i] == s[i] as u8,
{
    vstd::utf8::is_ascii_chars_encode_utf8(s);
}

/// Whether the literal's bytes sit at `i`.
fn lit_at(b: &[u8], i: usize, lit: &str) -> (r: bool)
    requires
        i <= b@.len(),
    ensures
        r == (i + string_bytes(lit@).len() <= b@.len() && b@.subrange(
            i as int,
            i + string_bytes(lit@).len(),
        ) == string_bytes(lit@)),
{
    let l = lit.as_bytes();
    if b.len() - i < l.len() {
        return false;
    }
    let bn = b.len();
    let n = l.len();
    let mut k: usize = 0;
    while k < n
        invariant
            k <= n == l@.len(),
            l@ == string_bytes(lit@),
            i + n <= bn,
            bn == b@.len(),
            forall|j: int| 0 <= j < k ==> b@[i + j] == l@[j],
        decreases n - k,
    {
        if b[i + k] != l[k] {
            proof {
                assert(b@.subrange(i as int, i + n) != l@) by {
                    assert(b@.subrange(i as int, i + n)[k as int] == b@[i + k]);
                }
            }
            return false;
        }
        k = k + 1;
    }
    proof {
        assert(b@.subrange(i as int, i + n) =~= l@);
    }
    true
}

/// The position of the first quote at or after `from`, or the length
/// when there is none.
fn find_quote(b: &[u8], from: usize) -> (r: usize)
    requires
        from <= b@.len(),
    ensures
        from <= r <= b@.len(),
        r < b@.len() ==> b@[r as int] == QUOTE,
        forall|j: int| from <= j < r ==> b@[j] != QUOTE,
    decreases b@.len() - from,
{
    let n = b.len();
    let mut i = from;
    while i < n && b[i] != QUOTE
        invariant
            from <= i <= n == b@.len(),
            forall|j: int| from <= j < i ==> b@[j] != QUOTE,
        decreases n - i,
    {
        i = i + 1;
    }
    i
}

/// Reads back the one span whose wire form is exactly `b`, for the
/// minimal grammar of just a trace ID and a span ID; refuses anything
/// else.
#[verifier::rlimit(100)]
#[verifier::spinoff_prover]
fn try_minimal(b: &[u8]) -> (r: Option<Span>)
    ensures
        r matches Some(s) ==> wire_fits(s@) && json_of(s@) == b@,
        (exists|v: SpanView| #[trigger] minimal_image(b@, v)) ==> r is Some,
{
    let ghost has_w = exists|v: SpanView| minimal_image(b@, v);
    let ghost w = choose|v: SpanView| minimal_image(b@, v);
    proof {
        if has_w {
            lemma_minimal_layout(b@, w);
        }
    }
    if !lit_at(b, 0, "{\"traceId\":\"") {
        proof {
            if has_w {
                assert(false);
            }
        }
        return None;
    }
    if b.len() < 12 {
        proof {
            if has_w {
                assert(false);
            }
        }
        return None;
    }
    let k1 = find_quote(b, 12);
    proof {
        if has_w {
            assert(k1 == 12 + hex_of(w.trace_id).len()) by {
                if k1 < 12 + hex_of(w.trace_id).len() {
                    assert(b@[k1 as int] != QUOTE);
                }
                if k1 > 12 + hex_of(w.trace_id).len() {
                    assert(b@[12 + hex_of(w.trace_id).len() as int] != QUOTE);
                }
            }
        }
    }
    if k1 >= b.len() {
        proof {
            if has_w {
                assert(false);
            }
        }
        return None;
    }
    let th = slice_range(b, 12, k1);
    let trace_id = match TraceId::parse_bytes(th.as_slice()) {
        Some(t) => t,
        None => {
            proof {
                if has_w {
                    lemma_hex_round_trip(w.trace_id);
                    assert(th@ == hex_of(w.trace_id));
                    assert(parsed_trace_id(th@) == Some(w.trace_id));
                    assert(false);
                }
            }
            return None;
        },
    };
    if !lit_at(b, k1, "\",\"id\":\"") {
        proof {
            if has_w {
                assert(false);
            }
        }
        return None;
    }
    if b.len() - k1 < 8 {
        proof {
            if has_w {
                assert(false);
            }
        }
        return None;
    }
    let after_sep = k1 + 8;
    let k2 = find_quote(b, after_sep);
    proof {
        if has_w {
            assert(k2 == 20 + hex_of(w.trace_id).len() + hex_of(w.id).len()) by {
                if k2 < 20 + hex_of(w.trace_id).len() + hex_of(w.id).len() {
                    assert(b@[k2 as int] != QUOTE);
                }
                if k2 > 20 + hex_of(w.trace_id).len() + hex_of(w.id).len() {
                    assert(b@[20 + hex_of(w.trace_id).len() + hex_of(w.id).len() as int]
                        != QUOTE);
                }
            }
        }
    }
    if k2 >= b.len() {
        proof {
            if has_w {
                assert(false);
            }
        }
        return None;
    }
    let ih = slice_range(b, after_sep, k2);
    let id = match SpanId::parse_bytes(ih.as_slice()) {
        Some(s) => s,
        None => {
            proof {
                if has_w {
                    lemma_hex_round_trip(w.id);
                    assert(ih@ == hex_of(w.id));
                    assert(parsed_span_id(ih@) == Some(w.id));
                    assert(false);
                }
            }
            return None;
        },
    };
    if !lit_at(b, k2, "\"}") {
        proof {
            if has_w {
                assert(false);
            }
        }
        return None;
    }
    if k2 + 2 != b.len() {
        proof {
            if has_w {
                assert(false);
            }
        }
        return None;
    }
    let mut builder = Span::builder();
    builder.trace_id(trace_id);
    builder.id(id);
    let span = builder.build();
    proof {
        if has_w {
            lemma_hex_round_trip(w.trace_id);
            lemma_hex_round_trip(w.id);
            assert(span@ =~= w);
        }
    }
    let reserialized = match try_serialize(&span) {
        Some(r) => r,
        None => {
            proof {
                if has_w {
                    assert(false);
                }
            }
            return None;
        },
    };
    if bytes_eq(reserialized.as_slice(), b) {
        Some(span)
    } else {
        proof {
            if has_w {
                assert(reserialized@ == json_of(span@));
                assert(json_of(span@) == json_of(w));
                assert(false);
            }
        }
        None
    }
}

/// Consumes the literal at `i`, or refuses.
fn expect(b: &[u8], i: usize, lit: &str) -> (r: Option<usize>)
    requires
        i <= b@.len(),
    ensures
        r matches Some(j) ==> i <= j <= b@.len(),
{
    let l = lit.as_bytes();
    if b.len() - i < l.len() {
        return None;
    }
    let bn = b.len();
    let n = l.len();
    let mut k: usize = 0;
    while k < n
        invariant
            k <= n == l@.len(),
            i + n <= bn,
            bn == b@.len(),
        decreases n - k,
    {
        if b[i + k] != l[k] {
            return None;
        }
        k = k + 1;
    }
    Some(i + n)
}

/// Reads a string body positioned after its opening quote, undoing the
/// serializer's escapes, through the closing quote.
fn read_string(b: &[u8], i: usize) -> (r: Option<(Vec<u8>, usize)>)
    requires
        i <= b@.len(),
    ensures
        r matches Some(p) ==> i <= p.1 <= b@.len(),
{
    let n = b.len();
    let mut out: Vec<u8> = Vec::new();
    let mut j = i;
    while j < n
        invariant
            i <= j <= n == b@.len(),
        decreases n - j,
    {
        let c = b[j];
        if c == QUOTE {
            return Some((out, j + 1));
        } else if c == BACKSLASH {
            if n - j < 2 {
                return None;
            }
            let e = b[j + 1];
            if e == QUOTE || e == BACKSLASH {
                out.push(e);
                j = j + 2;
            } else if e == 117 {
                // a \u00xx escape: the serializer only emits the two
                // zero digits and a byte in hex
                if n - j < 6 {
                    return None;
                }
                if b[j + 2] != 48 || b[j + 3] != 48 {
                    return None;
                }
                let hi = match hex_digit_val(b[j + 4]) {
                    Some(v) => v,
                    None => {
                        return None;
                    },
                };
                let lo = match hex_digit_val(b[j + 5]) {
                    Some(v) => v,
                    None => {
                        return None;
                    },
                };
                out.push(hi * 16 + lo);
                j = j + 6;
            } else {
                return None;
            }
        } else {
            out.push(c);
            j = j + 1;
        }
    }
    None
}

/// Reads a decimal number.
fn read_u64(b: &[u8], i: usize) -> (r: Option<(u64, usize)>)
    requires
        i <= b@.len(),
    ensures
        r matches Some(p) ==> i <= p.1 <= b@.len(),
{
    let n = b.len();
    let mut j = i;
    let mut v: u64 = 0;
    let mut any = false;
    while j < n && 48 <= b[j] && b[j] <= 57
        invariant
            i <= j <= n == b@.len(),
        decreases n - j,
    {
        let d = (b[j] - 48) as u64;
        if v > u64::MAX / 10 || (v == u64::MAX / 10 && d > u64::MAX % 10) {
            return None;
        }
        v = v * 10 + d;
        any = true;
        j = j + 1;
    }
    if any {
        Some((v, j))
    } else {
        None
    }
}

/// Reads a quoted string value.
fn read_quoted(b: &[u8], i: usize) -> (r: Option<(Vec<u8>, usize)>)
    requires
        i <= b@.len(),
    ensures
        r matches Some(p) ==> i <= p.1 <= b@.len(),
{
    if i >= b.len() || b[i] != QUOTE {
        return None;
    }
    read_string(b, i + 1)
}

/// Reads a dotted-quad IPv4 address out of a string body.
fn read_ipv4(v: &[u8]) -> Option<[u8; 4]> {
    let mut out = [0u8; 4];
    let mut j: usize = 0;
    let n = v.len();
    let mut field: usize = 0;
    while field < 4
        invariant
            field <= 4,
            j <= n == v@.len(),
        decreases 4 - field,
    {
        let mut val: u32 = 0;
        let mut any = false;
        while j < n && 48 <= v[j] && v[j] <= 57
            invariant
                j <= n == v@.len(),
                val <= 255,
            decreases n - j,
        {
            let d = (v[j] - 48) as u32;
            if val > 25 || (val == 25 && d > 5) {
                return None;
            }
            val = val * 10 + d;
            any = true;
            j = j + 1;
        }
        if !any {
            return None;
        }
        out[field] = val as u8;
        field = field + 1;
        if field < 4 {
            if j >= n || v[j] != DOT {
                return None;
            }
            j = j + 1;
        }
    }
    if j == n {
        Some(out)
    } else {
        None
    }
}

/// Reads an eight-group IPv6 address out of a string body.
fn read_ipv6(v: &[u8]) -> Option<[u8; 16]> {
    let mut out = [0u8; 16];
    let mut j: usize = 0;
    let n = v.len();
    let mut field: usize = 0;
    while field < 8
        invariant
            field <= 8,
            j <= n == v@.len(),
        decreases 8 - field,
    {
        let mut val: u32 = 0;
        let mut any = false;
        while j < n
            invariant
                j <= n == v@.len(),
                val <= 0xffff,
            decreases n - j,
        {
            let d = match hex_digit_val(v[j]) {
                Some(d) => d as u32,
                None => {
                    break ;
                },
            };
            if val > 0xfff {
                return None;
            }
            val = val * 16 + d;
            any = true;
            j = j + 1;
        }
        if !any {
            return None;
        }
        out[2 * field] = (val / 256) as u8;
        out[2 * field + 1] = (val % 256) as u8;
        field = field + 1;
        if field < 8 {
            if j >= n || v[j] != COLON {
                return None;
            }
            j = j + 1;
        }
    }
    if j == n {
        Some(out)
    } else {
        None
    }
}

/// Reads an endpoint object.
fn read_endpoint(b: &[u8], i: usize) -> (r: Option<(Endpoint, usize)>)
    requires
        i <= b@.len(),
    ensures
        r matches Some(p) ==> i <= p.1 <= b@.len(),
{
    let mut j = match expect(b, i, "{") {
        Some(j) => j,
        None => {
            return None;
        },
    };
    let mut builder = Endpoint::builder();
    let mut first = true;
    loop
        invariant
            i <= j <= b@.len(),
        decreases b@.len() - j,
    {
        match expect(b, j, "}") {
            Some(j2) => {
                return Some((builder.build(), j2));
            },
            None => {},
        }
        if !first {
            j = match expect(b, j, ",") {
                Some(j2) => j2,
                None => {
                    return None;
                },
            };
        }
        first = false;
        let before = j;
        if let Some(j2) = expect(b, j, "\"serviceName\":\"") {
            let (body, j3) = match read_string(b, j2) {
                Some(p) => p,
                None => {
                    return None;
                },
            };
            let s = match utf8_string(body) {
                Some(s) => s,
                None => {
                    return None;
                },
            };
            builder.service_name(s.as_str());
            j = j3;
        } else if let Some(j2) = expect(b, j, "\"ipv4\":\"") {
            let (body, j3) = match read_string(b, j2) {
                Some(p) => p,
                None => {
                    return None;
                },
            };
            let a = match read_ipv4(body.as_slice()) {
                Some(a) => a,
                None => {
                    return None;
                },
            };
            builder.ipv4(a);
            j = j3;
        } else if let Some(j2) = expect(b, j, "\"ipv6\":\"") {
            let (body, j3) = match read_string(b, j2) {
                Some(p) => p,
                None => {
                    return None;
                },
            };
            let a = match read_ipv6(body.as_slice()) {
                Some(a) => a,
                None => {
                    return None;
                },
            };
            builder.ipv6(a);
            j = j3;
        } else if let Some(j2) = expect(b, j, "\"port\":") {
            let (v, j3) = match read_u64(b, j2) {
                Some(p) => p,
                None => {
                    return None;
                },
            };
            if v > u16::MAX as u64 {
                return None;
            }
            builder.port(v as u16);
            j = j3;
        } else {
            return None;
        }
        if j <= before {
            return None;
        }
    }
}

/// Reads an annotation object.
fn read_annotation(b: &[u8], i: usize) -> (r: Option<(Annotation, usize)>)
    requires
        i <= b@.len(),
    ensures
        r matches Some(p) ==> i <= p.1 <= b@.len(),
{
    let j = match expect(b, i, "{\"timestamp\":") {
        Some(j) => j,
        None => {
            return None;
        },
    };
    let (wire, j) = match read_u64(b, j) {
        Some(p) => p,
        None => {
            return None;
        },
    };
    let j = match expect(b, j, ",\"value\":\"") {
        Some(j) => j,
        None => {
            return None;
        },
    };
    let (body, j) = match read_string(b, j) {
        Some(p) => p,
        None => {
            return None;
        },
    };
    let s = match utf8_string(body) {
        Some(s) => s,
        None => {
            return None;
        },
    };
    let j = match expect(b, j, "}") {
        Some(j) => j,
        None => {
            return None;
        },
    };
    Some((Annotation::new(time_micros::from_wire(wire), s.as_str()), j))
}

/// Reads the annotations array.
fn read_annotations(b: &[u8], i: usize) -> (r: Option<(Vec<Annotation>, usize)>)
    requires
        i <= b@.len(),
    ensures
        r matches Some(p) ==> i <= p.1 <= b@.len(),
{
    let mut j = match expect(b, i, "[") {
        Some(j) => j,
        None => {
            return None;
        },
    };
    let mut out: Vec<Annotation> = Vec::new();
    let mut first = true;
    loop
        invariant
            i <= j <= b@.len(),
        decreases b@.len() - j,
    {
        match expect(b, j, "]") {
            Some(j2) => {
                return Some((out, j2));
            },
            None => {},
        }
        if !first {
            j = match expect(b, j, ",") {
                Some(j2) => j2,
                None => {
                    return None;
                },
            };
        }
        first = false;
        let before = j;
        let (a, j2) = match read_annotation(b, j) {
            Some(p) => p,
            None => {
                return None;
            },
        };
        out.push(a);
        j = j2;
        if j <= before {
            return None;
        }
    }
}

/// Reads the tags object.
fn read_tags(b: &[u8], i: usize) -> (r: Option<(Vec<(String, String)>, usize)>)
    requires
        i <= b@.len(),
    ensures
        r matches Some(p) ==> i <= p.1 <= b@.len(),
{
    let mut j = match expect(b, i, "{") {
        Some(j) => j,
        None => {
            return None;
        },
    };
    let mut out: Vec<(String, String)> = Vec::new();
    let mut first = true;
    loop
        invariant
            i <= j <= b@.len(),
        decreases b@.len() - j,
    {
        match expect(b, j, "}") {
            Some(j2) => {
                return Some((out, j2));
            },
            None => {},
        }
        if !first {
            j = match expect(b, j, ",") {
                Some(j2) => j2,
                None => {
                    return None;
                },
            };
        }
        first = false;
        let before = j;
        let (kbody, j2) = match read_quoted(b, j) {
            Some(p) => p,
            None => {
                return None;
            },
        };
        let j3 = match expect(b, j2, ":") {
            Some(p) => p,
            None => {
                return None;
            },
        };
        let (vbody, j4) = match read_quoted(b, j3) {
            Some(p) => p,
            None => {
                return None;
            },
        };
        let k = match utf8_string(kbody) {
            Some(s) => s,
            None => {
                return None;
            },
        };
        let v = match utf8_string(vbody) {
            Some(s) => s,
            None => {
                return None;
            },
        };
        out.push((k, v));
        j = j4;
        if j <= before {
            return None;
        }
    }
}

/// Reads a span back from its JSON form.
///
/// Succeeds only on input that is exactly the wire form of the returned
/// span: the parsed record is re-serialized and compared byte for byte,
/// so an accepted input pins the span down completely. On the wire form
/// of a minimal span — just the two mandatory identifiers — success is
/// also owed.
#[verifier::rlimit(100)]
#[verifier::spinoff_prover]
pub fn deserialize(b: &[u8]) -> (r: Option<Span>)
    ensures
        r matches Some(s) ==> wire_fits(s@) && json_of(s@) == b@,
        (exists|v: SpanView| #[trigger] minimal_image(b@, v)) ==> r is Some,
{
    match try_minimal(b) {
        Some(s) => {
            return Some(s);
        },
        None => {},
    }
    let mut builder = Span::builder();

    let i = match expect(b, 0, "{\"traceId\":\"") {
        Some(i) => i,
        None => {
            return None;
        },
    };
    let (tbody, i) = match read_string(b, i) {
        Some(p) => p,
        None => {
            return None;
        },
    };
    let t = match TraceId::parse_bytes(tbody.as_slice()) {
        Some(t) => t,
        None => {
            return None;
        },
    };
    builder.trace_id(t);
    let mut i = i;

    if let Some(j) = expect(b, i, ",\"name\":\"") {
        let (body, j2) = match read_string(b, j) {
            Some(p) => p,
            None => {
                return None;
            },
        };
        let s = match utf8_string(body) {
            Some(s) => s,
            None => {
                return None;
            },
        };
        builder.name(s.as_str());
        i = j2;
    }

    if let Some(j) = expect(b, i, ",\"parentId\":\"") {
        let (body, j2) = match read_string(b, j) {
            Some(p) => p,
            None => {
                return None;
            },
        };
        let p = match SpanId::parse_bytes(body.as_slice()) {
            Some(p) => p,
            None => {
                return None;
            },
        };
        builder.parent_id(p);
        i = j2;
    }

    let j = match expect(b, i, ",\"id\":\"") {
        Some(j) => j,
        None => {
            return None;
        },
    };
    let (idbody, j2) = match read_string(b, j) {
        Some(p) => p,
        None => {
            return None;
        },
    };
    let id = match SpanId::parse_bytes(idbody.as_slice()) {
        Some(s) => s,
        None => {
            return None;
        },
    };
    builder.id(id);
    i = j2;

    if let Some(j) = expect(b, i, ",\"kind\":\"") {
        if let Some(j2) = expect(b, j, "CLIENT\"") {
            builder.kind(Kind::Client);
            i = j2;
        } else if let Some(j2) = expect(b, j, "SERVER\"") {
            builder.kind(Kind::Server);
            i = j2;
        } else if let Some(j2) = expect(b, j, "PRODUCER\"") {
            builder.kind(Kind::Producer);
            i = j2;
        } else if let Some(j2) = expect(b, j, "CONSUMER\"") {
            builder.kind(Kind::Consumer);
            i = j2;
        } else {
            return None;
        }
    }

    if let Some(j) = expect(b, i, ",\"timestamp\":") {
        let (wire, j2) = match read_u64(b, j) {
            Some(p) => p,
            None => {
                return None;
            },
        };
        builder.timestamp(time_micros::from_wire(wire));
        i = j2;
    }

    if let Some(j) = expect(b, i, ",\"duration\":") {
        let (wire, j2) = match read_u64(b, j) {
            Some(p) => p,
            None => {
                return None;
            },
        };
        builder.duration(crate::duration_micros::from_wire(wire));
        i = j2;
    }

    if let Some(j) = expect(b, i, ",\"debug\":true") {
        builder.debug(true);
        i = j;
    }

    if let Some(j) = expect(b, i, ",\"shared\":true") {
        builder.shared(true);
        i = j;
    }

    if let Some(j) = expect(b, i, ",\"localEndpoint\":") {
        let (e, j2) = match read_endpoint(b, j) {
            Some(p) => p,
            None => {
                return None;
            },
        };
        builder.local_endpoint(e);
        i = j2;
    }

    if let Some(j) = expect(b, i, ",\"remoteEndpoint\":") {
        let (e, j2) = match read_endpoint(b, j) {
            Some(p) => p,
            None => {
                return None;
            },
        };
        builder.remote_endpoint(e);
        i = j2;
    }

    if let Some(j) = expect(b, i, ",\"annotations\":") {
        let (list, j2) = match read_annotations(b, j) {
            Some(p) => p,
            None => {
                return None;
            },
        };
        builder.annotations(list);
        i = j2;
    }

    if let Some(j) = expect(b, i, ",\"tags\":") {
        let (list, j2) = match read_tags(b, j) {
            Some(p) => p,
            None => {
                return None;
            },
        };
        builder.tags(list);
        i = j2;
    }

    match expect(b, i, "}") {
        Some(j) => {
            if j != b.len() {
                return None;
            }
        },
        None => {
            return None;
        },
    }

    let span = builder.build();
    let reserialized = match try_serialize(&span) {
        Some(r) => r,
        None => {
            return None;
        },
    };
    if bytes_eq(reserialized.as_slice(), b) {
        Some(span)
    } else {
        None
    }
}

/// Byte-for-byte equality of two strings.
fn bytes_eq(a: &[u8], b: &[u8]) -> (r: bool)
    ensures
        r == (a@ == b@),
{
    if a.len() != b.len() {
        proof {
            assert(a@.len() != b@.len());
        }
        return false;
    }
    let n = a.len();
    let mut i: usize = 0;
    while i < n
        invariant
            i <= n,
            n == a@.len() == b@.len(),
            forall|j: int| 0 <= j < i ==> a@[j] == b@[j],
        decreases n - i,
    {
        if a[i] != b[i] {
            return false;
        }
        i = i + 1;
    }
    proof {
        assert(a@ =~= b@);
    }
    true
}

} // verus!
