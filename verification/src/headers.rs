//! B3 HTTP header propagation for trace information.
//!
//! The multi-header form writes `X-B3-TraceId`, `X-B3-SpanId`,
//! `X-B3-ParentSpanId`, `X-B3-Sampled` and `X-B3-Flags`; the single
//! header form writes everything into `b3`. Getters accept either, and
//! the single header takes precedence when present.

use crate::hex::{hex_of, lemma_hex_ascii, lemma_hex_of_len, hex_encode};
use crate::httpwrap::{
    header_entries, header_get, header_insert, header_remove, header_room, header_size,
    wf_header_name, wf_header_value,
};
use crate::sampling_flags::{FlagsView, SamplingFlags};
use crate::span_id::{parsed_span_id, SpanId};
use crate::trace_context::{ContextView, TraceContext};
use crate::trace_id::{parsed_trace_id, TraceId};
use vstd::prelude::*;

verus! {

/// ASCII `'0'`.
pub const DIGIT_ZERO: u8 = 48;

/// ASCII `'1'`.
pub const DIGIT_ONE: u8 = 49;

/// ASCII `'-'`.
pub const DASH: u8 = 45;

/// ASCII `'d'`.
pub const LETTER_D: u8 = 100;

/// The lowercase `b3` header name.
pub open spec fn k_b3() -> Seq<char> {
    "b3"@
}

/// The lowercase `X-B3-Sampled` header name.
pub open spec fn k_sampled() -> Seq<char> {
    "x-b3-sampled"@
}

/// The lowercase `X-B3-Flags` header name.
pub open spec fn k_flags() -> Seq<char> {
    "x-b3-flags"@
}

/// The lowercase `X-B3-TraceId` header name.
pub open spec fn k_trace_id() -> Seq<char> {
    "x-b3-traceid"@
}

/// The lowercase `X-B3-ParentSpanId` header name.
pub open spec fn k_parent_id() -> Seq<char> {
    "x-b3-parentspanid"@
}

/// The lowercase `X-B3-SpanId` header name.
pub open spec fn k_span_id() -> Seq<char> {
    "x-b3-spanid"@
}

/// The header names are valid and pairwise distinct.
proof fn lemma_keys()
    ensures
        wf_header_name(k_b3()),
        wf_header_name(k_sampled()),
        wf_header_name(k_flags()),
        wf_header_name(k_trace_id()),
        wf_header_name(k_parent_id()),
        wf_header_name(k_span_id()),
        k_b3() != k_sampled() && k_b3() != k_flags() && k_b3() != k_trace_id() && k_b3()
            != k_parent_id() && k_b3() != k_span_id(),
        k_sampled() != k_flags() && k_sampled() != k_trace_id() && k_sampled() != k_parent_id()
            && k_sampled() != k_span_id(),
        k_flags() != k_trace_id() && k_flags() != k_parent_id() && k_flags() != k_span_id(),
        k_trace_id() != k_parent_id() && k_trace_id() != k_span_id(),
        k_parent_id() != k_span_id(),
{
    reveal_strlit("b3");
    reveal_strlit("x-b3-sampled");
    reveal_strlit("x-b3-flags");
    reveal_strlit("x-b3-traceid");
    reveal_strlit("x-b3-parentspanid");
    reveal_strlit("x-b3-spanid");
    assert(k_sampled()[5] != k_trace_id()[5]);
}

/// The `b3` value that `set_sampling_flags_single` writes, when it
/// writes one: `d` for debug, else `1` or `0` for a decision.
pub open spec fn flags_single_bytes(flags: FlagsView) -> Option<Seq<u8>> {
    if flags.debug {
        Some(seq![LETTER_D])
    } else if flags.sampled == Some(true) {
        Some(seq![DIGIT_ONE])
    } else if flags.sampled == Some(false) {
        Some(seq![DIGIT_ZERO])
    } else {
        None
    }
}

/// What `set_sampling_flags` leaves in a header map that held `m`:
/// debug becomes `X-B3-Flags: 1`; otherwise a decision becomes
/// `X-B3-Sampled`; either way the other header is cleared.
pub open spec fn flags_multi_set(flags: FlagsView, m: Map<Seq<char>, Seq<u8>>) -> Map<
    Seq<char>,
    Seq<u8>,
> {
    if flags.debug {
        m.insert(k_flags(), seq![DIGIT_ONE]).remove(k_sampled())
    } else {
        let m1 = m.remove(k_flags());
        if flags.sampled == Some(true) {
            m1.insert(k_sampled(), seq![DIGIT_ONE])
        } else if flags.sampled == Some(false) {
            m1.insert(k_sampled(), seq![DIGIT_ZERO])
        } else {
            m1.remove(k_sampled())
        }
    }
}

/// The flags denoted by the multi-header form: `X-B3-Flags: 1` means
/// debug; otherwise `X-B3-Sampled` carries the decision; anything else
/// leaves the flags undecided.
pub open spec fn flags_of_multi(m: Map<Seq<char>, Seq<u8>>) -> FlagsView {
    if m.contains_key(k_flags()) {
        if m[k_flags()] == seq![DIGIT_ONE] {
            FlagsView { sampled: Some(true), debug: true }
        } else {
            FlagsView::undecided()
        }
    } else if m.contains_key(k_sampled()) {
        if m[k_sampled()] == seq![DIGIT_ONE] {
            FlagsView { sampled: Some(true), debug: false }
        } else if m[k_sampled()] == seq![DIGIT_ZERO] {
            FlagsView { sampled: Some(false), debug: false }
        } else {
            FlagsView::undecided()
        }
    } else {
        FlagsView::undecided()
    }
}

/// The index of the first dash at or after `from`, or the length when
/// there is none.
pub open spec fn first_dash(v: Seq<u8>, from: int) -> int
    decreases v.len() - from,
{
    if from < 0 {
        first_dash(v, 0)
    } else if from >= v.len() {
        v.len() as int
    } else if v[from] == DASH {
        from
    } else {
        first_dash(v, from + 1)
    }
}

/// The context denoted by a `b3` single-header value:
/// `{trace}-{span}[-{samp}[-{parent}]]`, where `{samp}` is `d`, `1` or
/// `0` and a third field of any other shape is read as the parent.
/// Fields past the parent are ignored.
pub open spec fn single_ctx_of(v: Seq<u8>) -> Option<ContextView> {
    let e1 = first_dash(v, 0);
    if e1 >= v.len() {
        None
    } else {
        let t = parsed_trace_id(v.subrange(0, e1));
        let e2 = first_dash(v, e1 + 1);
        let s = parsed_span_id(v.subrange(e1 + 1, e2));
        if t is None || s is None {
            None
        } else if e2 >= v.len() {
            Some(
                ContextView {
                    trace_id: t.unwrap(),
                    parent_id: None,
                    span_id: s.unwrap(),
                    flags: FlagsView::undecided(),
                },
            )
        } else {
            let e3 = first_dash(v, e2 + 1);
            let third = v.subrange(e2 + 1, e3);
            if third == seq![LETTER_D] || third == seq![DIGIT_ONE] || third == seq![DIGIT_ZERO] {
                let flags = if third == seq![LETTER_D] {
                    FlagsView { sampled: Some(true), debug: true }
                } else if third == seq![DIGIT_ONE] {
                    FlagsView { sampled: Some(true), debug: false }
                } else {
                    FlagsView { sampled: Some(false), debug: false }
                };
                if e3 >= v.len() {
                    Some(
                        ContextView {
                            trace_id: t.unwrap(),
                            parent_id: None,
                            span_id: s.unwrap(),
                            flags,
                        },
                    )
                } else {
                    let e4 = first_dash(v, e3 + 1);
                    match parsed_span_id(v.subrange(e3 + 1, e4)) {
                        Some(p) => Some(
                            ContextView {
                                trace_id: t.unwrap(),
                                parent_id: Some(p),
                                span_id: s.unwrap(),
                                flags,
                            },
                        ),
                        None => None,
                    }
                }
            } else {
                match parsed_span_id(third) {
                    Some(p) => Some(
                        ContextView {
                            trace_id: t.unwrap(),
                            parent_id: Some(p),
                            span_id: s.unwrap(),
                            flags: FlagsView::undecided(),
                        },
                    ),
                    None => None,
                }
            }
        }
    }
}

/// The flags denoted by a `b3` single-header value: a bare `d`, `1` or
/// `0`, or else the flags of a full context written there.
pub open spec fn flags_of_single(v: Seq<u8>) -> FlagsView {
    if v == seq![LETTER_D] {
        FlagsView { sampled: Some(true), debug: true }
    } else if v == seq![DIGIT_ONE] {
        FlagsView { sampled: Some(true), debug: false }
    } else if v == seq![DIGIT_ZERO] {
        FlagsView { sampled: Some(false), debug: false }
    } else {
        match single_ctx_of(v) {
            Some(c) => c.flags,
            None => FlagsView::undecided(),
        }
    }
}

/// The flags a header map denotes: the `b3` header when present, else
/// the multi-header form.
pub open spec fn flags_of(m: Map<Seq<char>, Seq<u8>>) -> FlagsView {
    if m.contains_key(k_b3()) {
        flags_of_single(m[k_b3()])
    } else {
        flags_of_multi(m)
    }
}

/// What `set_trace_context` leaves in a header map that held `m`: the
/// flags headers, the trace ID and span ID in lowercase hex, and the
/// parent span ID where there is one.
pub open spec fn ctx_multi_set(c: ContextView, m: Map<Seq<char>, Seq<u8>>) -> Map<
    Seq<char>,
    Seq<u8>,
> {
    let m1 = flags_multi_set(c.flags, m);
    let m2 = m1.insert(k_trace_id(), hex_of(c.trace_id));
    let m3 = match c.parent_id {
        Some(p) => m2.insert(k_parent_id(), hex_of(p)),
        None => m2.remove(k_parent_id()),
    };
    m3.insert(k_span_id(), hex_of(c.span_id))
}

/// The `b3` value that `set_trace_context_single` writes:
/// `{trace}-{span}`, then `-d`, `-1` or `-0` when the flags say so, then
/// `-{parent}` where there is one.
pub open spec fn ctx_single_bytes(c: ContextView) -> Seq<u8> {
    hex_of(c.trace_id) + seq![DASH] + hex_of(c.span_id) + (match flags_single_bytes(c.flags) {
        Some(f) => seq![DASH] + f,
        None => Seq::empty(),
    }) + (match c.parent_id {
        Some(p) => seq![DASH] + hex_of(p),
        None => Seq::empty(),
    })
}

/// The context denoted by the multi-header form: the trace and span IDs
/// must be present and parse; a malformed parent is ignored; the flags
/// are read as `flags_of_multi`.
pub open spec fn multi_ctx_of(m: Map<Seq<char>, Seq<u8>>) -> Option<ContextView> {
    if !m.contains_key(k_trace_id()) || !m.contains_key(k_span_id()) {
        None
    } else {
        let t = parsed_trace_id(m[k_trace_id()]);
        let s = parsed_span_id(m[k_span_id()]);
        if t is None || s is None {
            None
        } else {
            let parent = if m.contains_key(k_parent_id()) {
                parsed_span_id(m[k_parent_id()])
            } else {
                None
            };
            Some(
                ContextView {
                    trace_id: t.unwrap(),
                    parent_id: parent,
                    span_id: s.unwrap(),
                    flags: flags_of_multi(m),
                },
            )
        }
    }
}

/// The context a header map denotes: the `b3` header when present, else
/// the multi-header form.
pub open spec fn ctx_of(m: Map<Seq<char>, Seq<u8>>) -> Option<ContextView> {
    if m.contains_key(k_b3()) {
        single_ctx_of(m[k_b3()])
    } else {
        multi_ctx_of(m)
    }
}

/// Serializes sampling flags into the `b3` HTTP header.
///
/// This form is more compact than the old `X-B3-` set of headers, but
/// some implementations may not support it.
pub fn set_sampling_flags_single(flags: SamplingFlags, headers: &mut http::HeaderMap)
    requires
        header_room(*old(headers), 1),
    ensures
        header_entries(*final(headers)) == (match flags_single_bytes(flags@) {
            Some(f) => header_entries(*old(headers)).insert(k_b3(), f),
            None => header_entries(*old(headers)).remove(k_b3()),
        }),
        header_size(*final(headers)) <= header_size(*old(headers)) + 1,
{
    proof {
        lemma_keys();
    }
    if flags.debug() {
        let v: [u8; 1] = [LETTER_D];
        header_insert(headers, "b3", v.as_slice());
        proof {
            assert(v@ =~= seq![LETTER_D]);
        }
    } else {
        match flags.sampled() {
            Some(true) => {
                let v: [u8; 1] = [DIGIT_ONE];
                header_insert(headers, "b3", v.as_slice());
                proof {
                    assert(v@ =~= seq![DIGIT_ONE]);
                }
            },
            Some(false) => {
                let v: [u8; 1] = [DIGIT_ZERO];
                header_insert(headers, "b3", v.as_slice());
                proof {
                    assert(v@ =~= seq![DIGIT_ZERO]);
                }
            },
            None => {
                header_remove(headers, "b3");
            },
        }
    }
}

/// Serializes sampling flags into a set of HTTP headers.
pub fn set_sampling_flags(flags: SamplingFlags, headers: &mut http::HeaderMap)
    requires
        header_room(*old(headers), 1),
    ensures
        header_entries(*final(headers)) == flags_multi_set(flags@, header_entries(*old(headers))),
        header_size(*final(headers)) <= header_size(*old(headers)) + 1,
{
    proof {
        lemma_keys();
    }
    if flags.debug() {
        let v: [u8; 1] = [DIGIT_ONE];
        header_insert(headers, "x-b3-flags", v.as_slice());
        header_remove(headers, "x-b3-sampled");
        proof {
            assert(v@ =~= seq![DIGIT_ONE]);
        }
    } else {
        header_remove(headers, "x-b3-flags");
        match flags.sampled() {
            Some(true) => {
                let v: [u8; 1] = [DIGIT_ONE];
                header_insert(headers, "x-b3-sampled", v.as_slice());
                proof {
                    assert(v@ =~= seq![DIGIT_ONE]);
                }
            },
            Some(false) => {
                let v: [u8; 1] = [DIGIT_ZERO];
                header_insert(headers, "x-b3-sampled", v.as_slice());
                proof {
                    assert(v@ =~= seq![DIGIT_ZERO]);
                }
            },
            None => {
                header_remove(headers, "x-b3-sampled");
            },
        }
    }
}

/// Reads a one-byte value.
fn single_byte_is(v: &Vec<u8>, b: u8) -> (r: bool)
    ensures
        r == (v@ == seq![b]),
{
    let r = v.len() == 1 && v[0] == b;
    proof {
        if r {
            assert(v@ =~= seq![b]);
        }
        if v@ == seq![b] {
            assert(v@.len() == 1 && v@[0] == b);
        }
    }
    r
}

/// Deserializes sampling flags from a set of HTTP headers.
pub fn get_sampling_flags(headers: &http::HeaderMap) -> (r: SamplingFlags)
    ensures
        r@ == flags_of(header_entries(*headers)),
{
    proof {
        lemma_keys();
    }
    match header_get(headers, "b3") {
        Some(value) => get_sampling_flags_single(&value),
        None => get_sampling_flags_multi(headers),
    }
}

fn get_sampling_flags_single(value: &Vec<u8>) -> (r: SamplingFlags)
    ensures
        r@ == flags_of_single(value@),
{
    let mut builder = SamplingFlags::builder();
    if single_byte_is(value, LETTER_D) {
        builder.debug(true);
    } else if single_byte_is(value, DIGIT_ONE) {
        builder.sampled(true);
    } else if single_byte_is(value, DIGIT_ZERO) {
        builder.sampled(false);
    } else {
        match get_trace_context_single(value) {
            Some(context) => {
                return context.sampling_flags();
            },
            None => {},
        }
    }
    builder.build()
}

fn get_sampling_flags_multi(headers: &http::HeaderMap) -> (r: SamplingFlags)
    ensures
        r@ == flags_of_multi(header_entries(*headers)),
{
    proof {
        lemma_keys();
    }
    let mut builder = SamplingFlags::builder();
    match header_get(headers, "x-b3-flags") {
        Some(flags) => {
            if single_byte_is(&flags, DIGIT_ONE) {
                builder.debug(true);
            }
        },
        None => {
            match header_get(headers, "x-b3-sampled") {
                Some(sampled) => {
                    if single_byte_is(&sampled, DIGIT_ONE) {
                        builder.sampled(true);
                    } else if single_byte_is(&sampled, DIGIT_ZERO) {
                        builder.sampled(false);
                    }
                },
                None => {},
            }
        },
    }
    builder.build()
}

/// Serializes a trace context into the `b3` header.
///
/// This form is more compact than the old `X-B3-` set of headers, but
/// some implementations may not support it.
pub fn set_trace_context_single(context: TraceContext, headers: &mut http::HeaderMap)
    requires
        header_room(*old(headers), 1),
    ensures
        header_entries(*final(headers)) == header_entries(*old(headers)).insert(
            k_b3(),
            ctx_single_bytes(context@),
        ),
        header_size(*final(headers)) <= header_size(*old(headers)) + 1,
{
    proof {
        lemma_keys();
    }
    let mut value: Vec<u8> = hex_encode(context.trace_id().bytes());
    value.push(DASH);
    let mut span_hex = hex_encode(context.span_id().bytes());
    value.append(&mut span_hex);
    if context.debug() {
        value.push(DASH);
        value.push(LETTER_D);
    } else {
        match context.sampled() {
            Some(true) => {
                value.push(DASH);
                value.push(DIGIT_ONE);
            },
            Some(false) => {
                value.push(DASH);
                value.push(DIGIT_ZERO);
            },
            None => {},
        }
    }
    match context.parent_id() {
        Some(parent_id) => {
            value.push(DASH);
            let mut parent_hex = hex_encode(parent_id.bytes());
            value.append(&mut parent_hex);
        },
        None => {},
    }
    proof {
        assert(value@ =~= ctx_single_bytes(context@));
        assert forall|i: int| 0 <= i < value@.len() implies ((32 <= value@[i] && value@[i] != 127)
            || value@[i] == 9) by {
            lemma_ctx_single_bytes_wf(context@, i);
        }
    }
    header_insert(headers, "b3", value.as_slice());
}

/// Every byte of a single-header rendering is a printable ASCII byte.
proof fn lemma_ctx_single_bytes_wf(c: ContextView, i: int)
    requires
        0 <= i < ctx_single_bytes(c).len(),
    ensures
        32 <= ctx_single_bytes(c)[i] && ctx_single_bytes(c)[i] != 127,
{
    let v = ctx_single_bytes(c);
    let th = hex_of(c.trace_id);
    let sh = hex_of(c.span_id);
    if i < th.len() {
        lemma_hex_ascii(c.trace_id, i);
    } else if i < th.len() + 1 {
    } else if i < th.len() + 1 + sh.len() {
        lemma_hex_ascii(c.span_id, i - th.len() - 1);
    } else {
        let rest = i - th.len() - 1 - sh.len();
        let fpart = match flags_single_bytes(c.flags) {
            Some(f) => seq![DASH] + f,
            None => Seq::<u8>::empty(),
        };
        if rest < fpart.len() {
        } else {
            match c.parent_id {
                Some(p) => {
                    let prest = rest - fpart.len();
                    if prest >= 1 {
                        lemma_hex_ascii(p, prest - 1);
                    }
                },
                None => {},
            }
        }
    }
}

/// Serializes a trace context into a set of HTTP headers.
pub fn set_trace_context(context: TraceContext, headers: &mut http::HeaderMap)
    requires
        header_room(*old(headers), 4),
    ensures
        header_entries(*final(headers)) == ctx_multi_set(context@, header_entries(*old(headers))),
        header_size(*final(headers)) <= header_size(*old(headers)) + 4,
{
    proof {
        lemma_keys();
    }
    set_sampling_flags(context.sampling_flags(), headers);

    let trace_hex = hex_encode(context.trace_id().bytes());
    proof {
        assert forall|i: int| 0 <= i < trace_hex@.len() implies ((32 <= trace_hex@[i]
            && trace_hex@[i] != 127) || trace_hex@[i] == 9) by {
            lemma_hex_ascii(context@.trace_id, i);
        }
    }
    header_insert(headers, "x-b3-traceid", trace_hex.as_slice());

    match context.parent_id() {
        Some(parent_id) => {
            let parent_hex = hex_encode(parent_id.bytes());
            proof {
                assert forall|i: int| 0 <= i < parent_hex@.len() implies ((32 <= parent_hex@[i]
                    && parent_hex@[i] != 127) || parent_hex@[i] == 9) by {
                    lemma_hex_ascii(parent_id@, i);
                }
            }
            header_insert(headers, "x-b3-parentspanid", parent_hex.as_slice());
        },
        None => {
            header_remove(headers, "x-b3-parentspanid");
        },
    }

    let span_hex = hex_encode(context.span_id().bytes());
    proof {
        assert forall|i: int| 0 <= i < span_hex@.len() implies ((32 <= span_hex@[i] && span_hex@[i]
            != 127) || span_hex@[i] == 9) by {
            lemma_hex_ascii(context@.span_id, i);
        }
    }
    header_insert(headers, "x-b3-spanid", span_hex.as_slice());
}

/// Deserializes a trace context from a set of HTTP headers.
pub fn get_trace_context(headers: &http::HeaderMap) -> (r: Option<TraceContext>)
    ensures
        match r {
            Some(c) => ctx_of(header_entries(*headers)) == Some(c@),
            None => ctx_of(header_entries(*headers)) is None,
        },
{
    proof {
        lemma_keys();
    }
    match header_get(headers, "b3") {
        Some(value) => get_trace_context_single(&value),
        None => get_trace_context_multi(headers),
    }
}

/// The index of the first dash at or after `from`.
fn find_dash(v: &[u8], from: usize) -> (r: usize)
    requires
        from <= v@.len(),
    ensures
        r == first_dash(v@, from as int),
        from <= r <= v@.len(),
        r < v@.len() ==> v@[r as int] == DASH,
{
    let n = v.len();
    let mut i = from;
    while i < n && v[i] != DASH
        invariant
            from <= i <= n,
            n == v@.len(),
            first_dash(v@, from as int) == first_dash(v@, i as int),
            forall|j: int| from <= j < i ==> v@[j] != DASH,
        decreases n - i,
    {
        i = i + 1;
    }
    i
}

fn get_trace_context_single(value: &Vec<u8>) -> (r: Option<TraceContext>)
    ensures
        match r {
            Some(c) => single_ctx_of(value@) == Some(c@),
            None => single_ctx_of(value@) is None,
        },
{
    let v = value.as_slice();
    let n = v.len();
    let e1 = find_dash(v, 0);
    if e1 >= n {
        return None;
    }
    let trace_part = slice_range(v, 0, e1);
    let trace_id = TraceId::parse_bytes(trace_part.as_slice());
    let e2 = find_dash(v, e1 + 1);
    let span_part = slice_range(v, e1 + 1, e2);
    let span_id = SpanId::parse_bytes(span_part.as_slice());
    let (trace_id, span_id) = match (trace_id, span_id) {
        (Some(t), Some(s)) => (t, s),
        _ => {
            return None;
        },
    };

    let mut builder = TraceContext::builder();
    builder.trace_id(trace_id);
    builder.span_id(span_id);

    if e2 >= n {
        let c = builder.build();
        proof {
            assert(single_ctx_of(value@) == Some(c@)) by {
                assert(c@ =~= single_ctx_of(value@).unwrap());
            }
        }
        return Some(c);
    }

    let e3 = find_dash(v, e2 + 1);
    let third = slice_range(v, e2 + 1, e3);
    let third_is_flag = {
        if single_byte_is(&third, LETTER_D) {
            builder.debug(true);
            true
        } else if single_byte_is(&third, DIGIT_ONE) {
            builder.sampled(true);
            true
        } else if single_byte_is(&third, DIGIT_ZERO) {
            builder.sampled(false);
            true
        } else {
            false
        }
    };

    if third_is_flag {
        if e3 >= n {
            let c = builder.build();
            proof {
                assert(c@ =~= single_ctx_of(value@).unwrap());
            }
            return Some(c);
        }
        let e4 = find_dash(v, e3 + 1);
        let parent_part = slice_range(v, e3 + 1, e4);
        match SpanId::parse_bytes(parent_part.as_slice()) {
            Some(p) => {
                builder.parent_id(p);
                let c = builder.build();
                proof {
                    assert(c@ =~= single_ctx_of(value@).unwrap());
                }
                Some(c)
            },
            None => None,
        }
    } else {
        match SpanId::parse_bytes(third.as_slice()) {
            Some(p) => {
                builder.parent_id(p);
                let c = builder.build();
                proof {
                    assert(c@ =~= single_ctx_of(value@).unwrap());
                }
                Some(c)
            },
            None => None,
        }
    }
}

/// Copies the bytes of `v` from `from` up to `to`.
pub(crate) fn slice_range(v: &[u8], from: usize, to: usize) -> (r: Vec<u8>)
    requires
        from <= to <= v@.len(),
    ensures
        r@ == v@.subrange(from as int, to as int),
{
    let mut r: Vec<u8> = Vec::new();
    let mut i = from;
    while i < to
        invariant
            from <= i <= to <= v@.len(),
            r@ == v@.subrange(from as int, i as int),
        decreases to - i,
    {
        r.push(v[i]);
        proof {
            assert(r@ =~= v@.subrange(from as int, i + 1));
        }
        i = i + 1;
    }
    proof {
        assert(r@ =~= v@.subrange(from as int, to as int));
    }
    r
}

fn get_trace_context_multi(headers: &http::HeaderMap) -> (r: Option<TraceContext>)
    ensures
        match r {
            Some(c) => multi_ctx_of(header_entries(*headers)) == Some(c@),
            None => multi_ctx_of(header_entries(*headers)) is None,
        },
{
    proof {
        lemma_keys();
    }
    let trace_value = match header_get(headers, "x-b3-traceid") {
        Some(v) => v,
        None => {
            return None;
        },
    };
    let span_value = match header_get(headers, "x-b3-spanid") {
        Some(v) => v,
        None => {
            return None;
        },
    };
    let trace_id = match TraceId::parse_bytes(trace_value.as_slice()) {
        Some(t) => t,
        None => {
            return None;
        },
    };
    let span_id = match SpanId::parse_bytes(span_value.as_slice()) {
        Some(s) => s,
        None => {
            return None;
        },
    };

    let flags = get_sampling_flags_multi(headers);
    let mut builder = TraceContext::builder();
    builder.trace_id(trace_id);
    builder.span_id(span_id);
    builder.sampling_flags(flags);

    match header_get(headers, "x-b3-parentspanid") {
        Some(parent_value) => {
            match SpanId::parse_bytes(parent_value.as_slice()) {
                Some(p) => {
                    builder.parent_id(p);
                },
                None => {},
            }
        },
        None => {},
    }

    let c = builder.build();
    proof {
        assert(c@ =~= multi_ctx_of(header_entries(*headers)).unwrap());
    }
    Some(c)
}

/// `first_dash` finds `k` when everything before `k` (from `from`) is
/// dash-free and `k` is a dash or the end.
proof fn lemma_first_dash_found(v: Seq<u8>, from: int, k: int)
    requires
        0 <= from <= k <= v.len(),
        forall|j: int| from <= j < k ==> v[j] != DASH,
        k < v.len() ==> v[k] == DASH,
    ensures
        first_dash(v, from) == if k < v.len() {
            k
        } else {
            v.len() as int
        },
    decreases k - from,
{
    if from < k {
        lemma_first_dash_found(v, from + 1, k);
    }
}

/// Writing sampling flags in the multi-header form and reading the same
/// map back yields the flags, for any well-formed flags and any prior
/// headers without a `b3` entry.
pub proof fn lemma_flags_multi_round_trip(f: FlagsView, m: Map<Seq<char>, Seq<u8>>)
    requires
        f.wf(),
        !m.contains_key(k_b3()),
    ensures
        flags_of(flags_multi_set(f, m)) == f,
{
    lemma_keys();
    assert(seq![DIGIT_ONE] != seq![DIGIT_ZERO]) by {
        assert(seq![DIGIT_ONE][0] != seq![DIGIT_ZERO][0]);
    }
    let after = flags_multi_set(f, m);
    if f.debug {
        assert(flags_of(after) =~= f);
    } else {
        match f.sampled {
            Some(b) => {
                if b {
                    assert(flags_of(after) =~= f);
                } else {
                    assert(flags_of(after) =~= f);
                }
            },
            None => {
                assert(flags_of(after) =~= f);
            },
        }
    }
}

/// Writing sampling flags in the single-header form and reading the map
/// back yields the flags, for any well-formed flags and any prior
/// headers with no B3 entries of either form.
pub proof fn lemma_flags_single_round_trip(f: FlagsView, m: Map<Seq<char>, Seq<u8>>)
    requires
        f.wf(),
        !m.contains_key(k_b3()),
        !m.contains_key(k_flags()),
        !m.contains_key(k_sampled()),
    ensures
        flags_of(
            match flags_single_bytes(f) {
                Some(b) => m.insert(k_b3(), b),
                None => m.remove(k_b3()),
            },
        ) == f,
{
    lemma_keys();
    assert(seq![LETTER_D] != seq![DIGIT_ONE] && seq![LETTER_D] != seq![DIGIT_ZERO] && seq![
        DIGIT_ONE,
    ] != seq![DIGIT_ZERO]) by {
        assert(seq![LETTER_D][0] == LETTER_D && seq![DIGIT_ONE][0] == DIGIT_ONE && seq![
            DIGIT_ZERO,
        ][0] == DIGIT_ZERO);
    }
    if f.debug {
        assert(flags_of(m.insert(k_b3(), seq![LETTER_D])) =~= f);
    } else {
        match f.sampled {
            Some(b) => {
                if b {
                    assert(flags_of(m.insert(k_b3(), seq![DIGIT_ONE])) =~= f);
                } else {
                    assert(flags_of(m.insert(k_b3(), seq![DIGIT_ZERO])) =~= f);
                }
            },
            None => {
                assert(flags_of(m.remove(k_b3())) =~= f);
            },
        }
    }
}

/// Reading the flags of the multi form is unmoved by the identifier
/// headers written next to them.
proof fn lemma_flags_of_multi_ids(f: FlagsView, m: Map<Seq<char>, Seq<u8>>, c: ContextView)
    requires
        f.wf(),
    ensures
        flags_of_multi(
            (match c.parent_id {
                Some(p) => flags_multi_set(f, m).insert(k_trace_id(), hex_of(c.trace_id)).insert(
                    k_parent_id(),
                    hex_of(p),
                ),
                None => flags_multi_set(f, m).insert(k_trace_id(), hex_of(c.trace_id)).remove(
                    k_parent_id(),
                ),
            }).insert(k_span_id(), hex_of(c.span_id)),
        ) == f,
{
    lemma_keys();
    assert(seq![DIGIT_ONE] != seq![DIGIT_ZERO]) by {
        assert(seq![DIGIT_ONE][0] != seq![DIGIT_ZERO][0]);
    }
    let after = (match c.parent_id {
        Some(p) => flags_multi_set(f, m).insert(k_trace_id(), hex_of(c.trace_id)).insert(
            k_parent_id(),
            hex_of(p),
        ),
        None => flags_multi_set(f, m).insert(k_trace_id(), hex_of(c.trace_id)).remove(
            k_parent_id(),
        ),
    }).insert(k_span_id(), hex_of(c.span_id));
    if f.debug {
        assert(flags_of_multi(after) =~= f);
    } else {
        match f.sampled {
            Some(b) => {
                if b {
                    assert(flags_of_multi(after) =~= f);
                } else {
                    assert(flags_of_multi(after) =~= f);
                }
            },
            None => {
                assert(flags_of_multi(after) =~= f);
            },
        }
    }
}

/// Writing a trace context in the multi-header form and reading the same
/// map back yields the context, for any well-formed context and any
/// prior headers without a `b3` entry.
pub proof fn lemma_ctx_multi_round_trip(c: ContextView, m: Map<Seq<char>, Seq<u8>>)
    requires
        c.wf(),
        !m.contains_key(k_b3()),
    ensures
        ctx_of(ctx_multi_set(c, m)) == Some(c),
{
    lemma_keys();
    let after = ctx_multi_set(c, m);
    lemma_hex_of_len(c.trace_id);
    lemma_hex_of_len(c.span_id);
    crate::hex::lemma_hex_round_trip(c.trace_id);
    crate::hex::lemma_hex_round_trip(c.span_id);
    match c.parent_id {
        Some(p) => {
            lemma_hex_of_len(p);
            crate::hex::lemma_hex_round_trip(p);
        },
        None => {},
    }
    lemma_flags_of_multi_ids(c.flags, m, c);
    assert(!after.contains_key(k_b3()));
    assert(multi_ctx_of(after) matches Some(r) && r =~= c);
}

/// A hex rendering holds no dash.
proof fn lemma_hex_dash_free(bytes: Seq<u8>, i: int)
    requires
        0 <= i < hex_of(bytes).len(),
    ensures
        hex_of(bytes)[i] != DASH,
{
    lemma_hex_ascii(bytes, i);
}

/// Writing a trace context in the single-header form and parsing the
/// value back yields the context.
pub proof fn lemma_ctx_single_round_trip(c: ContextView)
    requires
        c.wf(),
    ensures
        single_ctx_of(ctx_single_bytes(c)) == Some(c),
{
    let v = ctx_single_bytes(c);
    let th = hex_of(c.trace_id);
    let sh = hex_of(c.span_id);
    let lt = th.len() as int;
    let ls = sh.len() as int;
    lemma_hex_of_len(c.trace_id);
    lemma_hex_of_len(c.span_id);
    crate::hex::lemma_hex_round_trip(c.trace_id);
    crate::hex::lemma_hex_round_trip(c.span_id);
    let fopt = flags_single_bytes(c.flags);
    let fpart = match fopt {
        Some(f) => seq![DASH] + f,
        None => Seq::<u8>::empty(),
    };
    let ppart = match c.parent_id {
        Some(p) => seq![DASH] + hex_of(p),
        None => Seq::<u8>::empty(),
    };
    assert(v =~= th + seq![DASH] + sh + fpart + ppart);

    assert forall|j: int| 0 <= j < lt implies v[j] != DASH by {
        lemma_hex_dash_free(c.trace_id, j);
        assert(v[j] == th[j]);
    }
    assert(v[lt] == DASH);
    lemma_first_dash_found(v, 0, lt);
    let e1 = first_dash(v, 0);
    assert(e1 == lt && e1 < v.len());
    assert(v.subrange(0, e1) =~= th);
    assert(parsed_trace_id(th) == Some(c.trace_id));

    assert forall|j: int| lt + 1 <= j < lt + 1 + ls implies v[j] != DASH by {
        lemma_hex_dash_free(c.span_id, j - (lt + 1));
        assert(v[j] == sh[j - (lt + 1)]);
    }

    match fopt {
        Some(f) => {
            assert(v[lt + 1 + ls] == DASH);
            lemma_first_dash_found(v, lt + 1, lt + 1 + ls);
            let e2 = first_dash(v, lt + 1);
            assert(e2 == lt + 1 + ls && e2 < v.len());
            assert(v.subrange(e1 + 1, e2) =~= sh);
            assert(parsed_span_id(sh) == Some(c.span_id));
            let fb = f[0];
            assert(v[e2 + 1] == fb);
            assert(fb == LETTER_D || fb == DIGIT_ONE || fb == DIGIT_ZERO);
            assert(fb != DASH);
            match c.parent_id {
                Some(p) => {
                    lemma_hex_of_len(p);
                    crate::hex::lemma_hex_round_trip(p);
                    let ph = hex_of(p);
                    assert(v[e2 + 2] == DASH);
                    lemma_first_dash_found(v, e2 + 1, e2 + 2);
                    let e3 = first_dash(v, e2 + 1);
                    assert(e3 == e2 + 2 && e3 < v.len());
                    assert(v.subrange(e2 + 1, e3) =~= seq![fb]);
                    assert forall|j: int| e3 + 1 <= j < v.len() implies v[j] != DASH by {
                        lemma_hex_dash_free(p, j - (e3 + 1));
                        assert(v[j] == ph[j - (e3 + 1)]);
                    }
                    lemma_first_dash_found(v, e3 + 1, v.len() as int);
                    let e4 = first_dash(v, e3 + 1);
                    assert(e4 == v.len());
                    assert(v.subrange(e3 + 1, e4) =~= ph);
                    assert(parsed_span_id(ph) == Some(p));
                    assert(single_ctx_of(v) matches Some(r) && r =~= c);
                },
                None => {
                    lemma_first_dash_found(v, e2 + 1, v.len() as int);
                    let e3 = first_dash(v, e2 + 1);
                    assert(e3 == v.len());
                    assert(v.subrange(e2 + 1, e3) =~= seq![fb]);
                    assert(single_ctx_of(v) matches Some(r) && r =~= c);
                },
            }
        },
        None => {
            assert(c.flags == FlagsView::undecided()) by {
                match c.flags.sampled {
                    Some(b) => {
                        if b {
                            assert(false);
                        } else {
                            assert(false);
                        }
                    },
                    None => {},
                }
            }
            match c.parent_id {
                Some(p) => {
                    lemma_hex_of_len(p);
                    crate::hex::lemma_hex_round_trip(p);
                    let ph = hex_of(p);
                    assert(v[lt + 1 + ls] == DASH);
                    lemma_first_dash_found(v, lt + 1, lt + 1 + ls);
                    let e2 = first_dash(v, lt + 1);
                    assert(e2 == lt + 1 + ls && e2 < v.len());
                    assert(v.subrange(e1 + 1, e2) =~= sh);
                    assert(parsed_span_id(sh) == Some(c.span_id));
                    assert forall|j: int| e2 + 1 <= j < v.len() implies v[j] != DASH by {
                        lemma_hex_dash_free(p, j - (e2 + 1));
                        assert(v[j] == ph[j - (e2 + 1)]);
                    }
                    lemma_first_dash_found(v, e2 + 1, v.len() as int);
                    let e3 = first_dash(v, e2 + 1);
                    assert(e3 == v.len());
                    let third = v.subrange(e2 + 1, e3);
                    assert(third =~= ph);
                    assert(ph.len() == 16);
                    assert(third != seq![LETTER_D] && third != seq![DIGIT_ONE] && third != seq![
                        DIGIT_ZERO,
                    ]);
                    assert(parsed_span_id(ph) == Some(p));
                    assert(single_ctx_of(v) matches Some(r) && r =~= c);
                },
                None => {
                    lemma_first_dash_found(v, lt + 1, v.len() as int);
                    let e2 = first_dash(v, lt + 1);
                    assert(e2 == v.len());
                    assert(v.subrange(e1 + 1, e2) =~= sh);
                    assert(parsed_span_id(sh) == Some(c.span_id));
                    assert(single_ctx_of(v) matches Some(r) && r =~= c);
                },
            }
        },
    }
}

/// Writing a trace context in the single-header form into a map and
/// reading it back yields the context.
pub proof fn lemma_ctx_single_map_round_trip(c: ContextView, m: Map<Seq<char>, Seq<u8>>)
    requires
        c.wf(),
    ensures
        ctx_of(m.insert(k_b3(), ctx_single_bytes(c))) == Some(c),
{
    lemma_ctx_single_round_trip(c);
}

/// The `X-B3-Flags` header.
///
/// Its value is always `1` if present, which indicates that the context
/// is in debug mode. It corresponds to the `debug` field of a
/// `TraceContext`.
#[derive(Copy, Clone, Debug, PartialEq, Eq, Structural)]
pub struct XB3Flags;

impl XB3Flags {
    /// The header's name.
    pub fn header_name() -> (r: &'static str)
        ensures
            r@ == "X-B3-Flags"@,
    {
        "X-B3-Flags"
    }

    /// Reads a header line: only the single byte `1` denotes the value.
    pub fn parse_value(line: &[u8]) -> (r: Option<XB3Flags>)
        ensures
            r is Some <==> line@ == seq![DIGIT_ONE],
    {
        if line.len() == 1 && line[0] == DIGIT_ONE {
            proof {
                assert(line@ =~= seq![DIGIT_ONE]);
            }
            Some(XB3Flags)
        } else {
            proof {
                if line@ == seq![DIGIT_ONE] {
                    assert(line@.len() == 1 && line@[0] == DIGIT_ONE);
                }
            }
            None
        }
    }

    /// The single line the header is written as.
    pub fn encoded_value(&self) -> (r: &'static str)
        ensures
            r@ == "1"@,
    {
        "1"
    }
}

/// The `X-B3-Sampled` header.
///
/// Its value is either `0` or `1`, and indicates if the client has
/// requested that the context be sampled or not. It corresponds to the
/// `sampled` field of a `TraceContext`.
#[derive(Copy, Clone, Debug, PartialEq, Eq, Structural)]
pub struct XB3Sampled(pub bool);

impl XB3Sampled {
    /// The header's name.
    pub fn header_name() -> (r: &'static str)
        ensures
            r@ == "X-B3-Sampled"@,
    {
        "X-B3-Sampled"
    }

    /// Reads a header line: the single byte `0` or `1` denotes the
    /// value.
    pub fn parse_value(line: &[u8]) -> (r: Option<XB3Sampled>)
        ensures
            line@ == seq![DIGIT_ONE] ==> r == Some(XB3Sampled(true)),
            line@ == seq![DIGIT_ZERO] ==> r == Some(XB3Sampled(false)),
            line@ != seq![DIGIT_ONE] && line@ != seq![DIGIT_ZERO] ==> r is None,
    {
        if line.len() == 1 && line[0] == DIGIT_ONE {
            proof {
                assert(line@ =~= seq![DIGIT_ONE]);
            }
            Some(XB3Sampled(true))
        } else if line.len() == 1 && line[0] == DIGIT_ZERO {
            proof {
                assert(line@ =~= seq![DIGIT_ZERO]);
                assert(seq![DIGIT_ZERO][0] != seq![DIGIT_ONE][0]);
            }
            Some(XB3Sampled(false))
        } else {
            proof {
                if line@ == seq![DIGIT_ONE] {
                    assert(line@.len() == 1 && line@[0] == DIGIT_ONE);
                }
                if line@ == seq![DIGIT_ZERO] {
                    assert(line@.len() == 1 && line@[0] == DIGIT_ZERO);
                }
            }
            None
        }
    }

    /// The single line the header is written as.
    pub fn encoded_value(&self) -> (r: &'static str)
        ensures
            self.0 ==> r@ == "1"@,
            !self.0 ==> r@ == "0"@,
    {
        if self.0 {
            "1"
        } else {
            "0"
        }
    }
}

} // verus!
