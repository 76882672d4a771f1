//! Span IDs.

use crate::hex::{hex_decode, hex_decoded, hex_encode, hex_of};
use crate::hex::{lemma_hex_decoded_len, lemma_hex_of_len, lemma_hex_round_trip};
use crate::text::{ascii_string, string_bytes};
use vstd::prelude::*;
use vstd::string::StringSliceAdditionalSpecFns;

verus! {

/// The ID of a span.
///
/// Span IDs are 8 bytes, and are rendered on the wire as 16 lowercase
/// hexadecimal digits. The view of a `SpanId` is the sequence of its
/// bytes.
#[derive(Copy, Clone, Debug, PartialEq, Eq)]
pub struct SpanId {
    buf: [u8; 8],
}

impl View for SpanId {
    type V = Seq<u8>;

    closed spec fn view(&self) -> Seq<u8> {
        self.buf@
    }
}

/// The error returned when parsing a `SpanId` from a string.
#[derive(Copy, Clone, Debug, PartialEq, Eq, Structural)]
pub enum SpanIdParseError {
    /// The input was not 16 digits long.
    InvalidLength,
    /// The input held a character that is not a hex digit.
    InvalidDigit,
}

/// The bytes a span ID rendering denotes: exactly 16 hex digits decode
/// to 8 bytes; anything else is no span ID.
pub open spec fn parsed_span_id(v: Seq<u8>) -> Option<Seq<u8>> {
    if v.len() == 16 {
        hex_decoded(v)
    } else {
        None
    }
}

impl SpanId {
    /// A span ID always holds 8 bytes.
    pub proof fn lemma_len(&self)
        ensures
            self@.len() == 8,
    {
    }

    /// Returns the bytes of the span ID.
    pub fn bytes(&self) -> (r: &[u8])
        ensures
            r@ == self@,
    {
        self.buf.as_slice()
    }

    /// Renders the span ID as 16 lowercase hex digits.
    pub fn to_hex(&self) -> (r: String)
        ensures
            string_bytes(r@) == hex_of(self@),
            string_bytes(r@).len() == 16,
    {
        proof {
            lemma_hex_of_len(self@);
        }
        let digits = hex_encode(self.bytes());
        assert forall|i: int| 0 <= i < digits@.len() implies digits@[i] < 128 by {
            crate::hex::lemma_hex_ascii(self@, i);
        }
        ascii_string(digits)
    }

    /// Parses a span ID from 16 hex digits of either case.
    ///
    /// Returns `Ok` exactly when the input is 16 hex digits; the errors
    /// say whether the length or a digit was at fault.
    pub fn parse(s: &str) -> (r: Result<SpanId, SpanIdParseError>)
        ensures
            match r {
                Ok(id) => hex_decoded(s.spec_bytes()) == Some(id@) && s.spec_bytes().len() == 16,
                Err(e) => if s.spec_bytes().len() != 16 {
                    e == SpanIdParseError::InvalidLength
                } else {
                    e == SpanIdParseError::InvalidDigit && hex_decoded(s.spec_bytes()) is None
                },
            },
    {
        let b = s.as_bytes();
        if b.len() != 16 {
            return Err(SpanIdParseError::InvalidLength);
        }
        match SpanId::parse_bytes(b) {
            Some(id) => Ok(id),
            None => Err(SpanIdParseError::InvalidDigit),
        }
    }

    /// Parses a span ID from the raw bytes of a rendering: exactly 16
    /// hex digits of either case.
    pub fn parse_bytes(b: &[u8]) -> (r: Option<SpanId>)
        ensures
            match r {
                Some(id) => parsed_span_id(b@) == Some(id@),
                None => parsed_span_id(b@) is None,
            },
    {
        if b.len() != 16 {
            return None;
        }
        match hex_decode(b) {
            None => None,
            Some(v) => {
                proof {
                    lemma_hex_decoded_len(b@);
                }
                let mut buf = [0u8; 8];
                let mut i: usize = 0;
                while i < 8
                    invariant
                        i <= 8,
                        v@.len() == 8,
                        forall|j: int| 0 <= j < i ==> buf@[j] == v@[j],
                    decreases 8 - i,
                {
                    buf[i] = v[i];
                    i = i + 1;
                }
                let id = SpanId { buf };
                proof {
                    assert(id@ =~= v@);
                }
                Some(id)
            },
        }
    }
}

impl From<[u8; 8]> for SpanId {
    /// Builds a span ID holding exactly the given bytes.
    fn from(bytes: [u8; 8]) -> (r: SpanId)
        ensures
            r@ == bytes@,
    {
        SpanId { buf: bytes }
    }
}

impl vstd::std_specs::convert::FromSpecImpl<[u8; 8]> for SpanId {
    open spec fn obeys_from_spec() -> bool {
        false
    }

    closed spec fn from_spec(bytes: [u8; 8]) -> SpanId {
        SpanId { buf: bytes }
    }
}

/// Rendering then parsing a span ID gives the ID back, and the rendering
/// is 16 digits long.
pub proof fn lemma_span_id_round_trip(id: SpanId)
    ensures
        hex_decoded(hex_of(id@)) == Some(id@),
        hex_of(id@).len() == 16,
{
    lemma_hex_round_trip(id@);
    lemma_hex_of_len(id@);
}

} // verus!
