//! Lowercase hexadecimal rendering and permissive parsing of byte strings.
//!
//! Trace and span identifiers travel on the wire as hex digits: two digits
//! per byte, high nibble first, rendered in lower case and parsed in either
//! case.

use vstd::prelude::*;

verus! {

/// ASCII `'0'`.
pub const ZERO: u8 = 48;

/// ASCII `'9'`.
pub const NINE: u8 = 57;

/// ASCII `'a'`.
pub const LOWER_A: u8 = 97;

/// ASCII `'f'`.
pub const LOWER_F: u8 = 102;

/// ASCII `'A'`.
pub const UPPER_A: u8 = 65;

/// ASCII `'F'`.
pub const UPPER_F: u8 = 70;

/// The numeric value of an ASCII hex digit, accepting both cases.
pub open spec fn hex_digit_value(b: u8) -> Option<u8> {
    if ZERO <= b && b <= NINE {
        Some((b - ZERO) as u8)
    } else if LOWER_A <= b && b <= LOWER_F {
        Some((b - LOWER_A + 10) as u8)
    } else if UPPER_A <= b && b <= UPPER_F {
        Some((b - UPPER_A + 10) as u8)
    } else {
        None
    }
}

/// The lowercase ASCII digit for a nibble value.
pub open spec fn hex_digit_of(n: u8) -> u8
    recommends
        n < 16,
{
    if n < 10 {
        (ZERO + n) as u8
    } else {
        (LOWER_A + (n - 10)) as u8
    }
}

/// Lowercase hex rendering of a byte string: two digits per byte, high
/// nibble first.
pub open spec fn hex_of(bytes: Seq<u8>) -> Seq<u8>
    decreases bytes.len(),
{
    if bytes.len() == 0 {
        Seq::empty()
    } else {
        seq![hex_digit_of(bytes[0] / 16), hex_digit_of((bytes[0] % 16) as u8)]
            + hex_of(bytes.drop_first())
    }
}

/// The bytes denoted by a hex string, or `None` if the string has odd
/// length or holds a non-digit.
pub open spec fn hex_decoded(s: Seq<u8>) -> Option<Seq<u8>>
    decreases s.len(),
{
    if s.len() == 0 {
        Some(Seq::empty())
    } else if s.len() == 1 {
        None
    } else {
        match (hex_digit_value(s[0]), hex_digit_value(s[1]), hex_decoded(s.skip(2))) {
            (Some(h), Some(l), Some(rest)) => Some(seq![(h * 16 + l) as u8] + rest),
            _ => None,
        }
    }
}

pub proof fn lemma_hex_of_len(bytes: Seq<u8>)
    ensures
        hex_of(bytes).len() == 2 * bytes.len(),
    decreases bytes.len(),
{
    if bytes.len() > 0 {
        lemma_hex_of_len(bytes.drop_first());
    }
}

proof fn lemma_hex_of_push(bytes: Seq<u8>, x: u8)
    ensures
        hex_of(bytes.push(x)) == hex_of(bytes) + seq![
            hex_digit_of(x / 16),
            hex_digit_of((x % 16) as u8),
        ],
    decreases bytes.len(),
{
    let digits = seq![hex_digit_of(x / 16), hex_digit_of((x % 16) as u8)];
    if bytes.len() == 0 {
        let single = bytes.push(x);
        assert(single[0] == x);
        assert(single.drop_first() =~= Seq::<u8>::empty());
        assert(hex_of(single.drop_first()) == Seq::<u8>::empty());
        assert(hex_of(single) == digits + Seq::<u8>::empty());
        assert(digits + Seq::<u8>::empty() =~= digits);
        assert(hex_of(bytes) + digits =~= digits);
    } else {
        lemma_hex_of_push(bytes.drop_first(), x);
        assert(bytes.push(x).drop_first() =~= bytes.drop_first().push(x));
        assert(bytes.push(x)[0] == bytes[0]);
        assert(hex_of(bytes.push(x)) =~= hex_of(bytes) + digits);
    }
}

proof fn lemma_hex_decoded_odd(s: Seq<u8>)
    requires
        s.len() % 2 == 1,
    ensures
        hex_decoded(s) is None,
    decreases s.len(),
{
    if s.len() > 1 {
        lemma_hex_decoded_odd(s.skip(2));
    }
}

pub proof fn lemma_hex_decoded_len(s: Seq<u8>)
    requires
        hex_decoded(s) is Some,
    ensures
        2 * hex_decoded(s).unwrap().len() == s.len(),
    decreases s.len(),
{
    if s.len() >= 2 {
        lemma_hex_decoded_len(s.skip(2));
    }
}

/// Parsing undoes rendering: the digits produced for a byte string decode
/// back to the same bytes.
pub proof fn lemma_hex_round_trip(bytes: Seq<u8>)
    ensures
        hex_decoded(hex_of(bytes)) == Some(bytes),
    decreases bytes.len(),
{
    if bytes.len() == 0 {
        assert(hex_of(bytes) =~= Seq::<u8>::empty());
        assert(hex_decoded(hex_of(bytes)) == Some(bytes)) by {
            assert(bytes =~= Seq::<u8>::empty());
        }
    } else {
        let b = bytes[0];
        let h = b / 16;
        let l = (b % 16) as u8;
        let s = hex_of(bytes);
        lemma_hex_round_trip(bytes.drop_first());
        lemma_hex_of_len(bytes.drop_first());
        assert(s[0] == hex_digit_of(h) && s[1] == hex_digit_of(l));
        assert(hex_digit_value(hex_digit_of(h)) == Some(h));
        assert(hex_digit_value(hex_digit_of(l)) == Some(l));
        assert(s.skip(2) =~= hex_of(bytes.drop_first()));
        assert(hex_decoded(s).unwrap() =~= bytes);
    }
}

/// Every digit that `hex_of` produces is a printable ASCII byte.
pub proof fn lemma_hex_ascii(bytes: Seq<u8>, i: int)
    requires
        0 <= i < hex_of(bytes).len(),
    ensures
        hex_of(bytes)[i] < 128,
        48 <= hex_of(bytes)[i] <= 102,
        (48 <= hex_of(bytes)[i] <= 57) || (97 <= hex_of(bytes)[i] <= 102),
    decreases bytes.len(),
{
    lemma_hex_of_len(bytes);
    if bytes.len() > 0 && i >= 2 {
        lemma_hex_ascii(bytes.drop_first(), i - 2);
    }
}

fn hex_digit(n: u8) -> (r: u8)
    requires
        n < 16,
    ensures
        r == hex_digit_of(n),
{
    if n < 10 {
        ZERO + n
    } else {
        LOWER_A + (n - 10)
    }
}

pub(crate) fn hex_digit_val(b: u8) -> (r: Option<u8>)
    ensures
        r == hex_digit_value(b),
{
    if ZERO <= b && b <= NINE {
        Some(b - ZERO)
    } else if LOWER_A <= b && b <= LOWER_F {
        Some(b - LOWER_A + 10)
    } else if UPPER_A <= b && b <= UPPER_F {
        Some(b - UPPER_A + 10)
    } else {
        None
    }
}

/// Renders a byte string as lowercase hex, two digits per byte.
pub fn hex_encode(bytes: &[u8]) -> (r: Vec<u8>)
    ensures
        r@ == hex_of(bytes@),
{
    let mut out: Vec<u8> = Vec::new();
    let n = bytes.len();
    assert(bytes@.take(0) =~= Seq::<u8>::empty());
    for i in 0..n
        invariant
            n == bytes@.len(),
            out@ == hex_of(bytes@.take(i as int)),
    {
        let b = bytes[i];
        out.push(hex_digit(b / 16));
        out.push(hex_digit(b % 16));
        proof {
            lemma_hex_of_push(bytes@.take(i as int), b);
            assert(bytes@.take(i + 1) =~= bytes@.take(i as int).push(b));
        }
    }
    proof {
        assert(bytes@.take(n as int) =~= bytes@);
    }
    out
}

/// The sequence `p + s` when `o == Some(s)`, else `None`.
spec fn prepended(p: Seq<u8>, o: Option<Seq<u8>>) -> Option<Seq<u8>> {
    match o {
        Some(s) => Some(p + s),
        None => None,
    }
}

/// Parses a hex string of either case back into bytes; `None` on odd
/// length or a non-digit.
pub fn hex_decode(s: &[u8]) -> (r: Option<Vec<u8>>)
    ensures
        match r {
            Some(v) => hex_decoded(s@) == Some(v@),
            None => hex_decoded(s@) is None,
        },
{
    let n = s.len();
    if n % 2 == 1 {
        proof {
            lemma_hex_decoded_odd(s@);
        }
        return None;
    }
    let mut out: Vec<u8> = Vec::new();
    let mut i: usize = 0;
    proof {
        assert(s@.skip(0) =~= s@);
        assert(hex_decoded(s@) == prepended(out@, hex_decoded(s@.skip(0))));
    }
    while i < n
        invariant
            n == s@.len(),
            n % 2 == 0,
            i % 2 == 0,
            i <= n,
            hex_decoded(s@) == prepended(out@, hex_decoded(s@.skip(i as int))),
        decreases n - i,
    {
        let h = hex_digit_val(s[i]);
        let l = hex_digit_val(s[i + 1]);
        match (h, l) {
            (Some(hv), Some(lv)) => {
                out.push(hv * 16 + lv);
                proof {
                    assert(s@.skip(i as int).skip(2) =~= s@.skip(i + 2));
                    assert(s@.skip(i as int)[0] == s@[i as int]);
                    assert(s@.skip(i as int)[1] == s@[i + 1]);
                    assert forall|rest: Seq<u8>|
                        hex_decoded(s@.skip(i + 2)) == Some(rest) implies prepended(
                        out@,
                        Some(rest),
                    ) == prepended(out@.drop_last(), hex_decoded(s@.skip(i as int))) by {
                        assert(hex_decoded(s@.skip(i as int)) == Some(
                            seq![(hv * 16 + lv) as u8] + rest,
                        ));
                        assert(out@.drop_last() + (seq![(hv * 16 + lv) as u8] + rest) =~= out@
                            + rest);
                    }
                    if hex_decoded(s@.skip(i + 2)) is None {
                        assert(hex_decoded(s@.skip(i as int)) is None);
                    }
                }
                i = i + 2;
            },
            _ => {
                proof {
                    assert(hex_decoded(s@.skip(i as int)) is None);
                }
                return None;
            },
        }
    }
    proof {
        assert(s@.skip(n as int) =~= Seq::<u8>::empty());
        assert(hex_decoded(s@) == Some(out@ + Seq::<u8>::empty()));
        assert(out@ + Seq::<u8>::empty() =~= out@);
    }
    Some(out)
}

} // verus!
