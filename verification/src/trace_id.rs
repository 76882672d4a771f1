//! Trace IDs.

use crate::hex::{hex_decode, hex_decoded, hex_encode, hex_of};
use crate::hex::{lemma_hex_decoded_len, lemma_hex_of_len, lemma_hex_round_trip};
use crate::text::{ascii_string, string_bytes};
use vstd::prelude::*;
use vstd::string::StringSliceAdditionalSpecFns;

verus! {

#[derive(Copy, Clone, Debug, PartialEq, Eq)]
enum Inner {
    Short([u8; 8]),
    Long([u8; 16]),
}

/// The ID of a trace.
///
/// Trace IDs are either 8 or 16 bytes, and are rendered on the wire as
/// lowercase hexadecimal strings of the exact length; the original length
/// is preserved. The view of a `TraceId` is the sequence of its meaningful
/// bytes.
#[derive(Copy, Clone, Debug, PartialEq, Eq)]
pub struct TraceId(Inner);

impl View for TraceId {
    type V = Seq<u8>;

    closed spec fn view(&self) -> Seq<u8> {
        match self.0 {
            Inner::Short(buf) => buf@,
            Inner::Long(buf) => buf@,
        }
    }
}

/// The error returned when parsing a `TraceId` from a string.
#[derive(Copy, Clone, Debug, PartialEq, Eq, Structural)]
pub enum TraceIdParseError {
    /// The input was not 16 or 32 digits long.
    InvalidLength,
    /// The input held a character that is not a hex digit.
    InvalidDigit,
}

/// The bytes a trace ID rendering denotes: 16 or 32 hex digits decode to
/// 8 or 16 bytes; anything else is no trace ID.
pub open spec fn parsed_trace_id(v: Seq<u8>) -> Option<Seq<u8>> {
    if v.len() == 16 || v.len() == 32 {
        hex_decoded(v)
    } else {
        None
    }
}

impl TraceId {
    /// A trace ID always holds 8 or 16 meaningful bytes.
    pub proof fn lemma_len(&self)
        ensures
            self@.len() == 8 || self@.len() == 16,
    {
    }

    /// Returns the byte representation of the trace ID.
    pub fn bytes(&self) -> (r: &[u8])
        ensures
            r@ == self@,
    {
        match &self.0 {
            Inner::Short(buf) => buf.as_slice(),
            Inner::Long(buf) => buf.as_slice(),
        }
    }

    /// Renders the trace ID as lowercase hex of twice its byte length.
    pub fn to_hex(&self) -> (r: String)
        ensures
            string_bytes(r@) == hex_of(self@),
            string_bytes(r@).len() == 2 * self@.len(),
    {
        proof {
            lemma_hex_of_len(self@);
        }
        let digits = hex_encode(self.bytes());
        assert forall|i: int| 0 <= i < digits@.len() implies digits@[i] < 128 by {
            crate::hex::lemma_hex_ascii(self@, i);
        }
        ascii_string(digits)
    }

    /// Parses a trace ID from 16 or 32 hex digits of either case.
    ///
    /// Returns `Ok` exactly when the input is 16 or 32 hex digits; the
    /// errors say whether the length or a digit was at fault.
    pub fn parse(s: &str) -> (r: Result<TraceId, TraceIdParseError>)
        ensures
            match r {
                Ok(t) => hex_decoded(s.spec_bytes()) == Some(t@) && (s.spec_bytes().len() == 16
                    || s.spec_bytes().len() == 32),
                Err(e) => if s.spec_bytes().len() != 16 && s.spec_bytes().len() != 32 {
                    e == TraceIdParseError::InvalidLength
                } else {
                    e == TraceIdParseError::InvalidDigit && hex_decoded(s.spec_bytes()) is None
                },
            },
    {
        let b = s.as_bytes();
        if b.len() != 16 && b.len() != 32 {
            return Err(TraceIdParseError::InvalidLength);
        }
        match TraceId::parse_bytes(b) {
            Some(t) => Ok(t),
            None => Err(TraceIdParseError::InvalidDigit),
        }
    }

    /// Parses a trace ID from the raw bytes of a rendering: 16 or 32 hex
    /// digits of either case.
    pub fn parse_bytes(b: &[u8]) -> (r: Option<TraceId>)
        ensures
            match r {
                Some(t) => parsed_trace_id(b@) == Some(t@),
                None => parsed_trace_id(b@) is None,
            },
    {
        if b.len() != 16 && b.len() != 32 {
            return None;
        }
        match hex_decode(b) {
            None => None,
            Some(v) => {
                proof {
                    lemma_hex_decoded_len(b@);
                }
                if v.len() == 8 {
                    let mut buf = [0u8; 8];
                    let mut i: usize = 0;
                    while i < 8
                        invariant
                            i <= 8,
                            v@.len() == 8,
                            forall|j: int| 0 <= j < i ==> buf@[j] == v@[j],
                        decreases 8 - i,
                    {
                        buf[i] = v[i];
                        i = i + 1;
                    }
                    let t = TraceId(Inner::Short(buf));
                    proof {
                        assert(t@ =~= v@);
                    }
                    Some(t)
                } else {
                    let mut buf = [0u8; 16];
                    let mut i: usize = 0;
                    while i < 16
                        invariant
                            i <= 16,
                            v@.len() == 16,
                            forall|j: int| 0 <= j < i ==> buf@[j] == v@[j],
                        decreases 16 - i,
                    {
                        buf[i] = v[i];
                        i = i + 1;
                    }
                    let t = TraceId(Inner::Long(buf));
                    proof {
                        assert(t@ =~= v@);
                    }
                    Some(t)
                }
            },
        }
    }
}

impl From<[u8; 8]> for TraceId {
    /// Builds a short trace ID holding exactly the given bytes.
    fn from(bytes: [u8; 8]) -> (r: TraceId)
        ensures
            r@ == bytes@,
    {
        TraceId(Inner::Short(bytes))
    }
}

impl vstd::std_specs::convert::FromSpecImpl<[u8; 8]> for TraceId {
    open spec fn obeys_from_spec() -> bool {
        false
    }

    closed spec fn from_spec(bytes: [u8; 8]) -> TraceId {
        TraceId(Inner::Short(bytes))
    }
}

impl From<[u8; 16]> for TraceId {
    /// Builds a long trace ID holding exactly the given bytes.
    fn from(bytes: [u8; 16]) -> (r: TraceId)
        ensures
            r@ == bytes@,
    {
        TraceId(Inner::Long(bytes))
    }
}

impl vstd::std_specs::convert::FromSpecImpl<[u8; 16]> for TraceId {
    open spec fn obeys_from_spec() -> bool {
        false
    }

    closed spec fn from_spec(bytes: [u8; 16]) -> TraceId {
        TraceId(Inner::Long(bytes))
    }
}

/// Rendering then parsing a trace ID gives the ID back, and the rendering
/// is 16 or 32 digits long.
pub proof fn lemma_trace_id_round_trip(t: TraceId)
    ensures
        hex_decoded(hex_of(t@)) == Some(t@),
        hex_of(t@).len() == 16 || hex_of(t@).len() == 32,
{
    t.lemma_len();
    lemma_hex_round_trip(t@);
    lemma_hex_of_len(t@);
}

} // verus!
