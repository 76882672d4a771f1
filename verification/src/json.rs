//! The Zipkin v2 JSON form of a span.
//!
//! One object per span, with camel-case field names in a fixed order;
//! absent fields, false flags and empty collections are omitted. The
//! serializer is verified against a byte-exact specification of the
//! form.

use crate::annotation::{Annotation, AnnotationView};
use crate::duration_micros::wire_of;
use crate::time_micros::time_wire_of;
use crate::endpoint::{Endpoint, EndpointView};
use crate::hex::{hex_encode, hex_of};
use crate::span::{Kind, Span, SpanView};
use crate::text::string_bytes;
use vstd::prelude::*;

verus! {

/// ASCII `'"'`.
pub const QUOTE: u8 = 34;

/// ASCII `'\'`.
pub const BACKSLASH: u8 = 92;

/// ASCII `','`.
pub const COMMA: u8 = 44;

/// ASCII `'.'`.
pub const DOT: u8 = 46;

/// ASCII `':'`.
pub const COLON: u8 = 58;

/// ASCII `'{'`.
pub const LBRACE: u8 = 123;

/// ASCII `'}'`.
pub const RBRACE: u8 = 125;

/// ASCII `'['`.
pub const LBRACKET: u8 = 91;

/// ASCII `']'`.
pub const RBRACKET: u8 = 93;

/// The decimal rendering of a number, most significant digit first.
pub open spec fn dec_of(n: nat) -> Seq<u8>
    decreases n,
{
    if n < 10 {
        seq![(48 + n) as u8]
    } else {
        dec_of(n / 10) + seq![(48 + n % 10) as u8]
    }
}

/// The lowercase hex rendering of a number without leading zeros.
pub open spec fn hexnum_of(n: nat) -> Seq<u8>
    decreases n,
{
    if n < 16 {
        seq![crate::hex::hex_digit_of(n as u8)]
    } else {
        hexnum_of(n / 16) + seq![crate::hex::hex_digit_of((n % 16) as u8)]
    }
}

/// The JSON escape of one byte of a string: quotes and backslashes are
/// protected, control bytes become a `\u00` escape, and everything else
/// passes through.
pub open spec fn esc_byte(b: u8) -> Seq<u8> {
    if b == QUOTE {
        seq![BACKSLASH, QUOTE]
    } else if b == BACKSLASH {
        seq![BACKSLASH, BACKSLASH]
    } else if b < 32 {
        seq![BACKSLASH, 117, 48, 48, crate::hex::hex_digit_of(b / 16), crate::hex::hex_digit_of(
            (b % 16) as u8,
        )]
    } else {
        seq![b]
    }
}

/// The JSON escape of a whole string.
pub open spec fn escaped(s: Seq<u8>) -> Seq<u8>
    decreases s.len(),
{
    if s.len() == 0 {
        Seq::empty()
    } else {
        esc_byte(s[0]) + escaped(s.drop_first())
    }
}

/// Items joined by commas.
pub open spec fn comma_join(items: Seq<Seq<u8>>) -> Seq<u8>
    decreases items.len(),
{
    if items.len() == 0 {
        Seq::empty()
    } else if items.len() == 1 {
        items[0]
    } else {
        items[0] + seq![COMMA] + comma_join(items.drop_first())
    }
}

/// A quoted, escaped JSON string.
pub open spec fn json_string(s: Seq<u8>) -> Seq<u8> {
    seq![QUOTE] + escaped(s) + seq![QUOTE]
}

/// A field: the quoted name, a colon, and the value's bytes.
pub open spec fn json_field(name: Seq<char>, value: Seq<u8>) -> Seq<u8> {
    seq![QUOTE] + string_bytes(name) + seq![QUOTE, COLON] + value
}

/// The dotted-quad rendering of an IPv4 address.
pub open spec fn ipv4_text(a: Seq<u8>) -> Seq<u8>
    recommends
        a.len() == 4,
{
    dec_of(a[0] as nat) + seq![DOT] + dec_of(a[1] as nat) + seq![DOT] + dec_of(a[2] as nat) + seq![
        DOT,
    ] + dec_of(a[3] as nat)
}

/// One 16-bit group of an IPv6 address.
pub open spec fn ipv6_group(hi: u8, lo: u8) -> nat {
    (hi * 256 + lo) as nat
}

/// The eight-group rendering of an IPv6 address: lowercase hex groups
/// without leading zeros, never compressed.
pub open spec fn ipv6_text(a: Seq<u8>) -> Seq<u8>
    recommends
        a.len() == 16,
{
    hexnum_of(ipv6_group(a[0], a[1])) + seq![COLON] + hexnum_of(ipv6_group(a[2], a[3])) + seq![
        COLON,
    ] + hexnum_of(ipv6_group(a[4], a[5])) + seq![COLON] + hexnum_of(ipv6_group(a[6], a[7])) + seq![
        COLON,
    ] + hexnum_of(ipv6_group(a[8], a[9])) + seq![COLON] + hexnum_of(ipv6_group(a[10], a[11]))
        + seq![COLON] + hexnum_of(ipv6_group(a[12], a[13])) + seq![COLON] + hexnum_of(
        ipv6_group(a[14], a[15]),
    )
}

/// The fields of an endpoint that are present, in order.
pub open spec fn endpoint_fields(e: EndpointView) -> Seq<Seq<u8>> {
    (match e.service_name {
        Some(s) => seq![json_field("serviceName"@, json_string(string_bytes(s)))],
        None => Seq::empty(),
    }) + (match e.ipv4 {
        Some(a) => seq![json_field("ipv4"@, json_string(ipv4_text(a)))],
        None => Seq::empty(),
    }) + (match e.ipv6 {
        Some(a) => seq![json_field("ipv6"@, json_string(ipv6_text(a)))],
        None => Seq::empty(),
    }) + (match e.port {
        Some(p) => seq![json_field("port"@, dec_of(p as nat))],
        None => Seq::empty(),
    })
}

/// The JSON object for an endpoint.
pub open spec fn endpoint_json(e: EndpointView) -> Seq<u8> {
    seq![LBRACE] + comma_join(endpoint_fields(e)) + seq![RBRACE]
}

/// The JSON object for an annotation.
pub open spec fn annotation_json(a: AnnotationView) -> Seq<u8> {
    seq![LBRACE] + json_field("timestamp"@, dec_of(time_wire_of(a.timestamp))) + seq![COMMA]
        + json_field("value"@, json_string(string_bytes(a.value))) + seq![RBRACE]
}

/// The uppercase name of a span kind.
pub open spec fn kind_text(k: Kind) -> Seq<char> {
    match k {
        Kind::Client => "CLIENT"@,
        Kind::Server => "SERVER"@,
        Kind::Producer => "PRODUCER"@,
        Kind::Consumer => "CONSUMER"@,
    }
}

/// One tag as a JSON object member.
pub open spec fn tag_json(t: (Seq<char>, Seq<char>)) -> Seq<u8> {
    json_string(string_bytes(t.0)) + seq![COLON] + json_string(string_bytes(t.1))
}

/// The fields of a span that are present, in order.
#[verifier::opaque]
pub open spec fn span_fields(v: SpanView) -> Seq<Seq<u8>> {
    let fs = seq![json_field("traceId"@, json_string(hex_of(v.trace_id)))];
    let fs = match v.name {
        Some(n) => fs.push(json_field("name"@, json_string(string_bytes(n)))),
        None => fs,
    };
    let fs = match v.parent_id {
        Some(p) => fs.push(json_field("parentId"@, json_string(hex_of(p)))),
        None => fs,
    };
    let fs = fs.push(json_field("id"@, json_string(hex_of(v.id))));
    let fs = match v.kind {
        Some(k) => fs.push(
            json_field("kind"@, seq![QUOTE] + string_bytes(kind_text(k)) + seq![QUOTE]),
        ),
        None => fs,
    };
    let fs = match v.timestamp {
        Some(t) => fs.push(json_field("timestamp"@, dec_of(time_wire_of(t)))),
        None => fs,
    };
    let fs = match v.duration {
        Some(d) => fs.push(json_field("duration"@, dec_of(wire_of(d)))),
        None => fs,
    };
    let fs = if v.debug {
        fs.push(json_field("debug"@, string_bytes("true"@)))
    } else {
        fs
    };
    let fs = if v.shared {
        fs.push(json_field("shared"@, string_bytes("true"@)))
    } else {
        fs
    };
    let fs = match v.local_endpoint {
        Some(e) => fs.push(json_field("localEndpoint"@, endpoint_json(e))),
        None => fs,
    };
    let fs = match v.remote_endpoint {
        Some(e) => fs.push(json_field("remoteEndpoint"@, endpoint_json(e))),
        None => fs,
    };
    let fs = if v.annotations.len() > 0 {
        fs.push(
            json_field(
                "annotations"@,
                seq![LBRACKET] + comma_join(
                    v.annotations.map_values(|a: AnnotationView| annotation_json(a)),
                ) + seq![RBRACKET],
            ),
        )
    } else {
        fs
    };
    let fs = if v.tags.len() > 0 {
        fs.push(
            json_field(
                "tags"@,
                seq![LBRACE] + comma_join(
                    v.tags.map_values(|t: (Seq<char>, Seq<char>)| tag_json(t)),
                ) + seq![RBRACE],
            ),
        )
    } else {
        fs
    };
    fs
}

/// The JSON object for a span.
pub open spec fn json_of(v: SpanView) -> Seq<u8> {
    seq![LBRACE] + comma_join(span_fields(v)) + seq![RBRACE]
}

/// Whether the span's wire numbers fit the wire's integers.
pub open spec fn wire_fits(v: SpanView) -> bool {
    &&& v.timestamp matches Some(t) ==> t / 1000 <= u64::MAX
    &&& v.duration matches Some(d) ==> (d + 999) / 1000 <= u64::MAX
    &&& forall|i: int|
        0 <= i < v.annotations.len() ==> (#[trigger] v.annotations[i]).timestamp / 1000
            <= u64::MAX
}


/// The decimal digits of a number.
fn u64_dec(n: u64) -> (r: Vec<u8>)
    ensures
        r@ == dec_of(n as nat),
    decreases n,
{
    if n < 10 {
        let mut r: Vec<u8> = Vec::new();
        r.push(48 + n as u8);
        proof {
            assert(r@ =~= dec_of(n as nat));
        }
        r
    } else {
        let mut r = u64_dec(n / 10);
        r.push(48 + (n % 10) as u8);
        proof {
            assert(r@ =~= dec_of(n as nat));
        }
        r
    }
}

/// The lowercase hex digits of a number, without leading zeros.
fn u32_hexnum(n: u32) -> (r: Vec<u8>)
    ensures
        r@ == hexnum_of(n as nat),
    decreases n,
{
    if n < 16 {
        let mut r: Vec<u8> = Vec::new();
        let d = n as u8;
        r.push(if d < 10 { 48 + d } else { 97 + (d - 10) });
        proof {
            assert(r@ =~= hexnum_of(n as nat));
        }
        r
    } else {
        let mut r = u32_hexnum(n / 16);
        let d = (n % 16) as u8;
        r.push(if d < 10 { 48 + d } else { 97 + (d - 10) });
        proof {
            assert(r@ =~= hexnum_of(n as nat));
        }
        r
    }
}

/// Appends a literal's bytes.
fn push_lit(out: &mut Vec<u8>, s: &str)
    ensures
        final(out)@ == old(out)@ + string_bytes(s@),
{
    out.extend_from_slice(s.as_bytes());
}

/// `escaped` over a string extended at the back.
proof fn lemma_escaped_push(s: Seq<u8>, x: u8)
    ensures
        escaped(s.push(x)) == escaped(s) + esc_byte(x),
    decreases s.len(),
{
    if s.len() == 0 {
        let single = s.push(x);
        assert(single[0] == x);
        assert(single.drop_first() =~= Seq::<u8>::empty());
        assert(escaped(single.drop_first()) == Seq::<u8>::empty());
        assert(escaped(single) =~= escaped(s) + esc_byte(x));
    } else {
        lemma_escaped_push(s.drop_first(), x);
        assert(s.push(x).drop_first() =~= s.drop_first().push(x));
        assert(s.push(x)[0] == s[0]);
        assert(escaped(s.push(x)) =~= escaped(s) + esc_byte(x));
    }
}

/// Appends the JSON escape of a string's bytes.
fn escape_into(out: &mut Vec<u8>, s: &[u8])
    ensures
        final(out)@ == old(out)@ + escaped(s@),
{
    let n = s.len();
    proof {
        assert(s@.take(0) =~= Seq::<u8>::empty());
        assert(old(out)@ + escaped(s@.take(0)) =~= old(out)@);
    }
    let mut i: usize = 0;
    while i < n
        invariant
            n == s@.len(),
            i <= n,
            out@ == old(out)@ + escaped(s@.take(i as int)),
        decreases n - i,
    {
        let b = s[i];
        if b == QUOTE {
            out.push(BACKSLASH);
            out.push(QUOTE);
        } else if b == BACKSLASH {
            out.push(BACKSLASH);
            out.push(BACKSLASH);
        } else if b < 32 {
            out.push(BACKSLASH);
            out.push(117);
            out.push(48);
            out.push(48);
            out.push(if b / 16 < 10 { 48 + b / 16 } else { 97 + (b / 16 - 10) });
            let lo = b % 16;
            out.push(if lo < 10 { 48 + lo } else { 97 + (lo - 10) });
        } else {
            out.push(b);
        }
        proof {
            lemma_escaped_push(s@.take(i as int), b);
            assert(s@.take(i + 1) =~= s@.take(i as int).push(b));
            assert(out@ =~= old(out)@ + escaped(s@.take(i + 1)));
        }
        i = i + 1;
    }
    proof {
        assert(s@.take(n as int) =~= s@);
    }
}

/// Appends a quoted, escaped JSON string.
fn json_string_into(out: &mut Vec<u8>, s: &[u8])
    ensures
        final(out)@ == old(out)@ + json_string(s@),
{
    out.push(QUOTE);
    escape_into(out, s);
    out.push(QUOTE);
    proof {
        assert(out@ =~= old(out)@ + json_string(s@));
    }
}

/// Appends a field name and its colon.
fn field_name_into(out: &mut Vec<u8>, name: &str)
    ensures
        final(out)@ == old(out)@ + seq![QUOTE] + string_bytes(name@) + seq![QUOTE, COLON],
{
    out.push(QUOTE);
    push_lit(out, name);
    out.push(QUOTE);
    out.push(COLON);
    proof {
        assert(out@ =~= old(out)@ + seq![QUOTE] + string_bytes(name@) + seq![QUOTE, COLON]);
    }
}

/// Escaping leaves a string of ordinary bytes unchanged.
proof fn lemma_escaped_plain(s: Seq<u8>)
    requires
        forall|i: int| 0 <= i < s.len() ==> 32 <= #[trigger] s[i] && s[i] != QUOTE && s[i]
            != BACKSLASH,
    ensures
        escaped(s) == s,
    decreases s.len(),
{
    if s.len() > 0 {
        lemma_escaped_plain(s.drop_first());
        assert(esc_byte(s[0]) =~= seq![s[0]]);
        assert(escaped(s) =~= s);
    } else {
        assert(escaped(s) =~= s);
    }
}

/// All bytes of the string are ordinary: printable and needing no
/// escape.
pub open spec fn plain(s: Seq<u8>) -> bool {
    forall|i: int| 0 <= i < s.len() ==> 32 <= #[trigger] s[i] && s[i] != QUOTE && s[i] != BACKSLASH
}

proof fn lemma_plain_concat(a: Seq<u8>, b: Seq<u8>)
    requires
        plain(a),
        plain(b),
    ensures
        plain(a + b),
{
    assert forall|i: int| 0 <= i < (a + b).len() implies 32 <= #[trigger] (a + b)[i] && (a + b)[i]
        != QUOTE && (a + b)[i] != BACKSLASH by {
        if i < a.len() {
            assert((a + b)[i] == a[i]);
        } else {
            assert((a + b)[i] == b[i - a.len()]);
        }
    }
}

proof fn lemma_dec_plain(n: nat)
    ensures
        plain(dec_of(n)),
        forall|i: int| 0 <= i < dec_of(n).len() ==> 48 <= #[trigger] dec_of(n)[i] <= 57,
    decreases n,
{
    if n >= 10 {
        lemma_dec_plain(n / 10);
        assert forall|i: int| 0 <= i < dec_of(n).len() implies 48 <= #[trigger] dec_of(n)[i]
            <= 57 by {
            if i < dec_of(n / 10).len() {
                assert(dec_of(n)[i] == dec_of(n / 10)[i]);
            } else {
                assert(dec_of(n)[i] == (48 + n % 10) as u8);
            }
        }
    }
}

proof fn lemma_hexnum_plain(n: nat)
    ensures
        plain(hexnum_of(n)),
        forall|i: int| 0 <= i < hexnum_of(n).len() ==> 48 <= #[trigger] hexnum_of(n)[i] <= 102,
    decreases n,
{
    if n >= 16 {
        lemma_hexnum_plain(n / 16);
        assert forall|i: int| 0 <= i < hexnum_of(n).len() implies 48 <= #[trigger] hexnum_of(
            n,
        )[i] <= 102 by {
            if i < hexnum_of(n / 16).len() {
                assert(hexnum_of(n)[i] == hexnum_of(n / 16)[i]);
            } else {
                assert(hexnum_of(n)[i] == crate::hex::hex_digit_of((n % 16) as u8));
            }
        }
    }
}

proof fn lemma_ipv4_plain(a: Seq<u8>)
    requires
        a.len() == 4,
    ensures
        plain(ipv4_text(a)),
        escaped(ipv4_text(a)) == ipv4_text(a),
{
    lemma_dec_plain(a[0] as nat);
    lemma_dec_plain(a[1] as nat);
    lemma_dec_plain(a[2] as nat);
    lemma_dec_plain(a[3] as nat);
    assert(plain(seq![DOT])) by {
        assert(seq![DOT][0] == DOT);
    }
    lemma_plain_concat(dec_of(a[0] as nat), seq![DOT]);
    lemma_plain_concat(dec_of(a[0] as nat) + seq![DOT], dec_of(a[1] as nat));
    lemma_plain_concat(dec_of(a[0] as nat) + seq![DOT] + dec_of(a[1] as nat), seq![DOT]);
    lemma_plain_concat(
        dec_of(a[0] as nat) + seq![DOT] + dec_of(a[1] as nat) + seq![DOT],
        dec_of(a[2] as nat),
    );
    lemma_plain_concat(
        dec_of(a[0] as nat) + seq![DOT] + dec_of(a[1] as nat) + seq![DOT] + dec_of(a[2] as nat),
        seq![DOT],
    );
    lemma_plain_concat(
        dec_of(a[0] as nat) + seq![DOT] + dec_of(a[1] as nat) + seq![DOT] + dec_of(a[2] as nat)
            + seq![DOT],
        dec_of(a[3] as nat),
    );
    lemma_escaped_plain(ipv4_text(a));
}

proof fn lemma_ipv6_plain(a: Seq<u8>)
    requires
        a.len() == 16,
    ensures
        plain(ipv6_text(a)),
        escaped(ipv6_text(a)) == ipv6_text(a),
{
    assert(plain(seq![COLON])) by {
        assert(seq![COLON][0] == COLON);
    }
    assert forall|hi: u8, lo: u8| plain(#[trigger] hexnum_of(ipv6_group(hi, lo))) by {
        lemma_hexnum_plain(ipv6_group(hi, lo));
    }
    let p1 = hexnum_of(ipv6_group(a[0], a[1]));
    let p2 = hexnum_of(ipv6_group(a[2], a[3]));
    let p3 = hexnum_of(ipv6_group(a[4], a[5]));
    let p4 = hexnum_of(ipv6_group(a[6], a[7]));
    let p5 = hexnum_of(ipv6_group(a[8], a[9]));
    let p6 = hexnum_of(ipv6_group(a[10], a[11]));
    let p7 = hexnum_of(ipv6_group(a[12], a[13]));
    let p8 = hexnum_of(ipv6_group(a[14], a[15]));
    lemma_plain_concat(p1, seq![COLON]);
    lemma_plain_concat(p1 + seq![COLON], p2);
    lemma_plain_concat(p1 + seq![COLON] + p2, seq![COLON]);
    lemma_plain_concat(p1 + seq![COLON] + p2 + seq![COLON], p3);
    lemma_plain_concat(p1 + seq![COLON] + p2 + seq![COLON] + p3, seq![COLON]);
    lemma_plain_concat(p1 + seq![COLON] + p2 + seq![COLON] + p3 + seq![COLON], p4);
    lemma_plain_concat(p1 + seq![COLON] + p2 + seq![COLON] + p3 + seq![COLON] + p4, seq![COLON]);
    lemma_plain_concat(p1 + seq![COLON] + p2 + seq![COLON] + p3 + seq![COLON] + p4 + seq![COLON], p5);
    lemma_plain_concat(
        p1 + seq![COLON] + p2 + seq![COLON] + p3 + seq![COLON] + p4 + seq![COLON] + p5,
        seq![COLON],
    );
    lemma_plain_concat(
        p1 + seq![COLON] + p2 + seq![COLON] + p3 + seq![COLON] + p4 + seq![COLON] + p5 + seq![COLON],
        p6,
    );
    lemma_plain_concat(
        p1 + seq![COLON] + p2 + seq![COLON] + p3 + seq![COLON] + p4 + seq![COLON] + p5 + seq![COLON]
            + p6,
        seq![COLON],
    );
    lemma_plain_concat(
        p1 + seq![COLON] + p2 + seq![COLON] + p3 + seq![COLON] + p4 + seq![COLON] + p5 + seq![COLON]
            + p6 + seq![COLON],
        p7,
    );
    lemma_plain_concat(
        p1 + seq![COLON] + p2 + seq![COLON] + p3 + seq![COLON] + p4 + seq![COLON] + p5 + seq![COLON]
            + p6 + seq![COLON] + p7,
        seq![COLON],
    );
    lemma_plain_concat(
        p1 + seq![COLON] + p2 + seq![COLON] + p3 + seq![COLON] + p4 + seq![COLON] + p5 + seq![COLON]
            + p6 + seq![COLON] + p7 + seq![COLON],
        p8,
    );
    lemma_escaped_plain(ipv6_text(a));
}

/// `comma_join` over a list extended at the back.
proof fn lemma_comma_join_push(items: Seq<Seq<u8>>, x: Seq<u8>)
    ensures
        comma_join(items.push(x)) == if items.len() == 0 {
            x
        } else {
            comma_join(items) + seq![COMMA] + x
        },
    decreases items.len(),
{
    if items.len() == 0 {
        let single = items.push(x);
        assert(single[0] == x);
        assert(comma_join(single) == x);
    } else if items.len() == 1 {
        let two = items.push(x);
        assert(two[0] == items[0]);
        assert(two.drop_first() =~= items.drop_first().push(x));
        assert(items.drop_first() =~= Seq::<Seq<u8>>::empty());
        assert(two.drop_first() =~= seq![x]);
        assert(comma_join(two.drop_first()) == x);
        assert(comma_join(two) =~= comma_join(items) + seq![COMMA] + x);
    } else {
        lemma_comma_join_push(items.drop_first(), x);
        assert(items.push(x).drop_first() =~= items.drop_first().push(x));
        assert(items.push(x)[0] == items[0]);
        assert(comma_join(items.push(x)) =~= comma_join(items) + seq![COMMA] + x);
    }
}

/// A growing comma-joined list: fields are appended one at a time, with
/// a comma before each but the first.
struct FieldWriter {
    out: Vec<u8>,
    any: bool,
}

impl FieldWriter {
    /// The fields written so far, as the joined bytes.
    spec fn joined(&self) -> Seq<u8> {
        self.out@
    }

    spec fn wf(&self, items: Seq<Seq<u8>>) -> bool {
        &&& self.out@ == comma_join(items)
        &&& self.any == (items.len() > 0)
    }

    fn new() -> (r: FieldWriter)
        ensures
            r.wf(Seq::<Seq<u8>>::empty()),
    {
        let r = FieldWriter { out: Vec::new(), any: false };
        proof {
            assert(r.out@ =~= comma_join(Seq::<Seq<u8>>::empty()));
        }
        r
    }

    /// Appends one item.
    fn push_item(&mut self, items: Ghost<Seq<Seq<u8>>>, item: Vec<u8>)
        requires
            old(self).wf(items@),
        ensures
            final(self).wf(items@.push(item@)),
    {
        if self.any {
            self.out.push(COMMA);
        }
        let ghost item_view = item@;
        let mut item = item;
        self.out.append(&mut item);
        self.any = true;
        proof {
            lemma_comma_join_push(items@, item_view);
            assert(self.out@ =~= comma_join(items@.push(item_view)));
        }
    }
}

/// Builds the serviceName field.
fn service_name_field(s: &str) -> (r: Vec<u8>)
    ensures
        r@ == json_field("serviceName"@, json_string(string_bytes(s@))),
{
    let mut f: Vec<u8> = Vec::new();
    field_name_into(&mut f, "serviceName");
    json_string_into(&mut f, s.as_bytes());
    proof {
        assert(f@ =~= json_field("serviceName"@, json_string(string_bytes(s@))));
    }
    f
}

/// Builds the ipv4 field.
fn ipv4_field(a: &[u8; 4]) -> (r: Vec<u8>)
    ensures
        r@ == json_field("ipv4"@, json_string(ipv4_text(a@))),
{
    let mut f: Vec<u8> = Vec::new();
    field_name_into(&mut f, "ipv4");
    f.push(QUOTE);
    let mut d = u64_dec(a[0] as u64);
    f.append(&mut d);
    f.push(DOT);
    let mut d = u64_dec(a[1] as u64);
    f.append(&mut d);
    f.push(DOT);
    let mut d = u64_dec(a[2] as u64);
    f.append(&mut d);
    f.push(DOT);
    let mut d = u64_dec(a[3] as u64);
    f.append(&mut d);
    f.push(QUOTE);
    proof {
        lemma_ipv4_plain(a@);
        assert(f@ =~= json_field("ipv4"@, json_string(ipv4_text(a@))));
    }
    f
}

/// Builds the ipv6 field.
#[verifier::rlimit(60)]
fn ipv6_field(a: &[u8; 16]) -> (r: Vec<u8>)
    ensures
        r@ == json_field("ipv6"@, json_string(ipv6_text(a@))),
{
    let mut f: Vec<u8> = Vec::new();
    field_name_into(&mut f, "ipv6");
    f.push(QUOTE);
    let mut g = u32_hexnum(a[0] as u32 * 256 + a[1] as u32);
    f.append(&mut g);
    f.push(COLON);
    let mut g = u32_hexnum(a[2] as u32 * 256 + a[3] as u32);
    f.append(&mut g);
    f.push(COLON);
    let mut g = u32_hexnum(a[4] as u32 * 256 + a[5] as u32);
    f.append(&mut g);
    f.push(COLON);
    let mut g = u32_hexnum(a[6] as u32 * 256 + a[7] as u32);
    f.append(&mut g);
    f.push(COLON);
    let mut g = u32_hexnum(a[8] as u32 * 256 + a[9] as u32);
    f.append(&mut g);
    f.push(COLON);
    let mut g = u32_hexnum(a[10] as u32 * 256 + a[11] as u32);
    f.append(&mut g);
    f.push(COLON);
    let mut g = u32_hexnum(a[12] as u32 * 256 + a[13] as u32);
    f.append(&mut g);
    f.push(COLON);
    let mut g = u32_hexnum(a[14] as u32 * 256 + a[15] as u32);
    f.append(&mut g);
    f.push(QUOTE);
    proof {
        lemma_ipv6_plain(a@);
        assert(f@ =~= json_field("ipv6"@, json_string(ipv6_text(a@))));
    }
    f
}

/// Builds the port field.
fn port_field(p: u16) -> (r: Vec<u8>)
    ensures
        r@ == json_field("port"@, dec_of(p as nat)),
{
    let mut f: Vec<u8> = Vec::new();
    field_name_into(&mut f, "port");
    let mut d = u64_dec(p as u64);
    f.append(&mut d);
    proof {
        assert(f@ =~= json_field("port"@, dec_of(p as nat)));
    }
    f
}

/// Builds the bytes of an endpoint's JSON object.
fn endpoint_json_vec(e: &Endpoint) -> (r: Vec<u8>)
    ensures
        r@ == endpoint_json(e@),
{
    let mut w = FieldWriter::new();
    let ghost items0 = Seq::<Seq<u8>>::empty();
    let ghost mut items = items0;
    match e.service_name() {
        Some(s) => {
            let f = service_name_field(s);
            let ghost fv = f@;
            w.push_item(Ghost(items), f);
            proof {
                items = items.push(fv);
            }
        },
        None => {},
    }
    match e.ipv4() {
        Some(a) => {
            let f = ipv4_field(&a);
            let ghost fv = f@;
            w.push_item(Ghost(items), f);
            proof {
                items = items.push(fv);
            }
        },
        None => {},
    }
    match e.ipv6() {
        Some(a) => {
            let f = ipv6_field(&a);
            let ghost fv = f@;
            w.push_item(Ghost(items), f);
            proof {
                items = items.push(fv);
            }
        },
        None => {},
    }
    match e.port() {
        Some(p) => {
            let f = port_field(p);
            let ghost fv = f@;
            w.push_item(Ghost(items), f);
            proof {
                items = items.push(fv);
            }
        },
        None => {},
    }
    let FieldWriter { out, any: _ } = w;
    let mut r: Vec<u8> = Vec::new();
    r.push(LBRACE);
    let mut out = out;
    r.append(&mut out);
    r.push(RBRACE);
    proof {
        assert(items =~= endpoint_fields(e@));
        assert(r@ =~= endpoint_json(e@));
    }
    r
}


/// Hex renderings hold only ordinary bytes.
pub(crate) proof fn lemma_hex_plain(bytes: Seq<u8>)
    ensures
        plain(hex_of(bytes)),
        escaped(hex_of(bytes)) == hex_of(bytes),
{
    assert forall|i: int| 0 <= i < hex_of(bytes).len() implies 32 <= #[trigger] hex_of(bytes)[i]
        && hex_of(bytes)[i] != QUOTE && hex_of(bytes)[i] != BACKSLASH by {
        crate::hex::lemma_hex_ascii(bytes, i);
    }
    lemma_escaped_plain(hex_of(bytes));
}

/// Builds an identifier field: the name and the quoted hex rendering.
fn hex_field(name: &str, id_bytes: &[u8]) -> (r: Vec<u8>)
    ensures
        r@ == json_field(name@, json_string(hex_of(id_bytes@))),
{
    let mut f: Vec<u8> = Vec::new();
    field_name_into(&mut f, name);
    f.push(QUOTE);
    let mut h = hex_encode(id_bytes);
    f.append(&mut h);
    f.push(QUOTE);
    proof {
        lemma_hex_plain(id_bytes@);
        assert(f@ =~= json_field(name@, json_string(hex_of(id_bytes@))));
    }
    f
}

/// Builds the kind field.
fn kind_field(k: Kind) -> (r: Vec<u8>)
    ensures
        r@ == json_field("kind"@, seq![QUOTE] + string_bytes(kind_text(k)) + seq![QUOTE]),
{
    let mut f: Vec<u8> = Vec::new();
    field_name_into(&mut f, "kind");
    f.push(QUOTE);
    match k {
        Kind::Client => push_lit(&mut f, "CLIENT"),
        Kind::Server => push_lit(&mut f, "SERVER"),
        Kind::Producer => push_lit(&mut f, "PRODUCER"),
        Kind::Consumer => push_lit(&mut f, "CONSUMER"),
    }
    f.push(QUOTE);
    proof {
        assert(f@ =~= json_field("kind"@, seq![QUOTE] + string_bytes(kind_text(k)) + seq![QUOTE]));
    }
    f
}

/// Builds a numeric field.
fn number_field(name: &str, n: u64) -> (r: Vec<u8>)
    ensures
        r@ == json_field(name@, dec_of(n as nat)),
{
    let mut f: Vec<u8> = Vec::new();
    field_name_into(&mut f, name);
    let mut d = u64_dec(n);
    f.append(&mut d);
    proof {
        assert(f@ =~= json_field(name@, dec_of(n as nat)));
    }
    f
}

/// Builds a flag field whose value is the literal `true`.
fn true_field(name: &str) -> (r: Vec<u8>)
    ensures
        r@ == json_field(name@, string_bytes("true"@)),
{
    let mut f: Vec<u8> = Vec::new();
    field_name_into(&mut f, name);
    push_lit(&mut f, "true");
    proof {
        assert(f@ =~= json_field(name@, string_bytes("true"@)));
    }
    f
}

/// Builds a string field, escaping the value.
fn string_field(name: &str, value: &str) -> (r: Vec<u8>)
    ensures
        r@ == json_field(name@, json_string(string_bytes(value@))),
{
    let mut f: Vec<u8> = Vec::new();
    field_name_into(&mut f, name);
    json_string_into(&mut f, value.as_bytes());
    proof {
        assert(f@ =~= json_field(name@, json_string(string_bytes(value@))));
    }
    f
}

/// Builds an endpoint field.
fn endpoint_field(name: &str, e: &Endpoint) -> (r: Vec<u8>)
    ensures
        r@ == json_field(name@, endpoint_json(e@)),
{
    let mut f: Vec<u8> = Vec::new();
    field_name_into(&mut f, name);
    let mut ej = endpoint_json_vec(e);
    f.append(&mut ej);
    proof {
        assert(f@ =~= json_field(name@, endpoint_json(e@)));
    }
    f
}

/// Builds an annotation's JSON object.
fn annotation_json_vec(a: &Annotation) -> (r: Vec<u8>)
    requires
        a@.timestamp / 1000 <= u64::MAX,
    ensures
        r@ == annotation_json(a@),
{
    let mut f: Vec<u8> = Vec::new();
    f.push(LBRACE);
    field_name_into(&mut f, "timestamp");
    let ts = a.timestamp();
    let wire = crate::time_micros::to_wire(&ts);
    let mut d = u64_dec(wire);
    f.append(&mut d);
    f.push(COMMA);
    field_name_into(&mut f, "value");
    json_string_into(&mut f, a.value().as_bytes());
    f.push(RBRACE);
    proof {
        assert(f@ =~= annotation_json(a@));
    }
    f
}

/// Builds the annotations field over a nonempty list.
fn annotations_field(v: &Vec<Annotation>) -> (r: Vec<u8>)
    requires
        v@.len() > 0,
        forall|i: int|
            0 <= i < v@.len() ==> (#[trigger] v@[i])@.timestamp / 1000 <= u64::MAX,
    ensures
        r@ == json_field(
            "annotations"@,
            seq![LBRACKET] + comma_join(
                v@.map_values(|a: Annotation| a@).map_values(|a: AnnotationView| annotation_json(a)),
            ) + seq![RBRACKET],
        ),
{
    let mut f: Vec<u8> = Vec::new();
    field_name_into(&mut f, "annotations");
    f.push(LBRACKET);
    let mut w = FieldWriter::new();
    let ghost target = v@.map_values(|a: Annotation| a@).map_values(
        |a: AnnotationView| annotation_json(a),
    );
    let n = v.len();
    let mut i: usize = 0;
    while i < n
        invariant
            n == v@.len(),
            i <= n,
            forall|j: int| 0 <= j < n ==> (#[trigger] v@[j])@.timestamp / 1000 <= u64::MAX,
            target == v@.map_values(|a: Annotation| a@).map_values(
                |a: AnnotationView| annotation_json(a),
            ),
            w.wf(target.take(i as int)),
        decreases n - i,
    {
        let item = annotation_json_vec(&v[i]);
        proof {
            assert(target[i as int] == annotation_json(v@[i as int]@));
        }
        w.push_item(Ghost(target.take(i as int)), item);
        proof {
            assert(target.take(i + 1) =~= target.take(i as int).push(target[i as int]));
        }
        i = i + 1;
    }
    proof {
        assert(target.take(n as int) =~= target);
    }
    let FieldWriter { out, any: _ } = w;
    let mut out = out;
    f.append(&mut out);
    f.push(RBRACKET);
    proof {
        assert(f@ =~= json_field(
            "annotations"@,
            seq![LBRACKET] + comma_join(target) + seq![RBRACKET],
        ));
    }
    f
}

/// Builds the tags field over a nonempty list.
fn tags_field(v: &Vec<(String, String)>) -> (r: Vec<u8>)
    requires
        v@.len() > 0,
    ensures
        r@ == json_field(
            "tags"@,
            seq![LBRACE] + comma_join(
                v@.map_values(|t: (String, String)| (t.0@, t.1@)).map_values(
                    |t: (Seq<char>, Seq<char>)| tag_json(t),
                ),
            ) + seq![RBRACE],
        ),
{
    let mut f: Vec<u8> = Vec::new();
    field_name_into(&mut f, "tags");
    f.push(LBRACE);
    let mut w = FieldWriter::new();
    let ghost target = v@.map_values(|t: (String, String)| (t.0@, t.1@)).map_values(
        |t: (Seq<char>, Seq<char>)| tag_json(t),
    );
    let n = v.len();
    let mut i: usize = 0;
    while i < n
        invariant
            n == v@.len(),
            i <= n,
            target == v@.map_values(|t: (String, String)| (t.0@, t.1@)).map_values(
                |t: (Seq<char>, Seq<char>)| tag_json(t),
            ),
            w.wf(target.take(i as int)),
        decreases n - i,
    {
        let mut item: Vec<u8> = Vec::new();
        json_string_into(&mut item, v[i].0.as_str().as_bytes());
        item.push(COLON);
        json_string_into(&mut item, v[i].1.as_str().as_bytes());
        proof {
            assert(item@ =~= tag_json((v@[i as int].0@, v@[i as int].1@)));
            assert(target[i as int] == tag_json((v@[i as int].0@, v@[i as int].1@)));
        }
        w.push_item(Ghost(target.take(i as int)), item);
        proof {
            assert(target.take(i + 1) =~= target.take(i as int).push(target[i as int]));
        }
        i = i + 1;
    }
    proof {
        assert(target.take(n as int) =~= target);
    }
    let FieldWriter { out, any: _ } = w;
    let mut out = out;
    f.append(&mut out);
    f.push(RBRACE);
    proof {
        assert(f@ =~= json_field("tags"@, seq![LBRACE] + comma_join(target) + seq![RBRACE]));
    }
    f
}

/// Serializes a span when its wire numbers fit, and says so when they do
/// not.
#[verifier::rlimit(100)]
pub fn try_serialize(span: &Span) -> (r: Option<Vec<u8>>)
    ensures
        match r {
            Some(b) => wire_fits(span@) && b@ == json_of(span@) && b@.len() >= 2,
            None => !wire_fits(span@),
        },
{
    match span.timestamp() {
        Some(t) => {
            let d = t.since_epoch();
            if !d.fits_wire() {
                return None;
            }
        },
        None => {},
    }
    match span.duration() {
        Some(d) => {
            if !d.fits_wire_up() {
                return None;
            }
        },
        None => {},
    }
    let annotations = span.annotations();
    let n_ann = annotations.len();
    let mut i: usize = 0;
    while i < n_ann
        invariant
            n_ann == annotations@.len(),
            i <= n_ann,
            annotations@.map_values(|a: Annotation| a@) == span@.annotations,
            forall|j: int|
                0 <= j < i ==> (#[trigger] annotations@[j])@.timestamp / 1000 <= u64::MAX,
        decreases n_ann - i,
    {
        let ts = annotations[i].timestamp();
        let d = ts.since_epoch();
        if !d.fits_wire() {
            proof {
                assert(span@.annotations[i as int].timestamp == annotations@[i as int]@.timestamp);
            }
            return None;
        }
        i = i + 1;
    }
    proof {
        assert forall|j: int| 0 <= j < span@.annotations.len() implies (#[trigger] span@.annotations[j]).timestamp
            / 1000 <= u64::MAX by {
            assert(span@.annotations[j] == annotations@[j]@);
        }
    }

    let ghost v = span@;
    let mut w = FieldWriter::new();
    let ghost mut items = Seq::<Seq<u8>>::empty();

    let tid = span.trace_id();
    let f = hex_field("traceId", tid.bytes());
    let ghost fv = f@;
    w.push_item(Ghost(items), f);
    proof {
        items = items.push(fv);
    }

    match span.name() {
        Some(name) => {
            let f = string_field("name", name);
            let ghost fv = f@;
            w.push_item(Ghost(items), f);
            proof {
                items = items.push(fv);
            }
        },
        None => {},
    }

    match span.parent_id() {
        Some(p) => {
            let f = hex_field("parentId", p.bytes());
            let ghost fv = f@;
            w.push_item(Ghost(items), f);
            proof {
                items = items.push(fv);
            }
        },
        None => {},
    }

    let sid = span.id();
    let f = hex_field("id", sid.bytes());
    let ghost fv = f@;
    w.push_item(Ghost(items), f);
    proof {
        items = items.push(fv);
    }

    match span.kind() {
        Some(k) => {
            let f = kind_field(k);
            let ghost fv = f@;
            w.push_item(Ghost(items), f);
            proof {
                items = items.push(fv);
            }
        },
        None => {},
    }

    match span.timestamp() {
        Some(t) => {
            let wire = crate::time_micros::to_wire(&t);
            let f = number_field("timestamp", wire);
            let ghost fv = f@;
            w.push_item(Ghost(items), f);
            proof {
                items = items.push(fv);
            }
        },
        None => {},
    }

    match span.duration() {
        Some(d) => {
            let wire = crate::duration_micros::to_wire(&d);
            let f = number_field("duration", wire);
            let ghost fv = f@;
            w.push_item(Ghost(items), f);
            proof {
                items = items.push(fv);
            }
        },
        None => {},
    }

    if span.debug() {
        let f = true_field("debug");
        let ghost fv = f@;
        w.push_item(Ghost(items), f);
        proof {
            items = items.push(fv);
        }
    }

    if span.shared() {
        let f = true_field("shared");
        let ghost fv = f@;
        w.push_item(Ghost(items), f);
        proof {
            items = items.push(fv);
        }
    }

    match span.local_endpoint() {
        Some(e) => {
            let f = endpoint_field("localEndpoint", e);
            let ghost fv = f@;
            w.push_item(Ghost(items), f);
            proof {
                items = items.push(fv);
            }
        },
        None => {},
    }

    match span.remote_endpoint() {
        Some(e) => {
            let f = endpoint_field("remoteEndpoint", e);
            let ghost fv = f@;
            w.push_item(Ghost(items), f);
            proof {
                items = items.push(fv);
            }
        },
        None => {},
    }

    if annotations.len() > 0 {
        let f = annotations_field(annotations);
        let ghost fv = f@;
        w.push_item(Ghost(items), f);
        proof {
            items = items.push(fv);
        }
    }

    let tags = span.tags();
    if tags.len() > 0 {
        let f = tags_field(tags);
        let ghost fv = f@;
        w.push_item(Ghost(items), f);
        proof {
            items = items.push(fv);
        }
    }

    let FieldWriter { out, any: _ } = w;
    let mut r: Vec<u8> = Vec::new();
    r.push(LBRACE);
    let mut out = out;
    r.append(&mut out);
    r.push(RBRACE);
    proof {
        reveal(span_fields);
        assert(v.annotations =~= annotations@.map_values(|a: Annotation| a@));
        assert(v.tags =~= tags@.map_values(|t: (String, String)| (t.0@, t.1@)));
        assert(items == span_fields(v));
        assert(r@ =~= json_of(v));
    }
    Some(r)
}

/// Serializes a span whose wire numbers fit.
pub fn serialize(span: &Span) -> (r: Vec<u8>)
    requires
        wire_fits(span@),
    ensures
        r@ == json_of(span@),
        r@.len() >= 2,
{
    match try_serialize(span) {
        Some(b) => b,
        None => {
            proof {
                assert(false);
            }
            Vec::new()
        },
    }
}

} // verus!
