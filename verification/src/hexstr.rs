use vstd::prelude::*;

use crate::text::push_char;

verus! {

/// The lower-case hex digit for a value below 16.
pub open spec fn hex_digit_char(n: u8) -> char
    recommends
        n < 16,
{
    if n < 10 {
        (('0' as u8) + n) as char
    } else {
        (('a' as u8) + (n - 10)) as char
    }
}

/// Lower-case hex encoding of a byte sequence: two digits per byte.
pub open spec fn hex_of(bytes: Seq<u8>) -> Seq<char> {
    Seq::new(
        bytes.len() * 2,
        |i: int|
            if i % 2 == 0 {
                hex_digit_char(bytes[i / 2] / 16)
            } else {
                hex_digit_char(bytes[i / 2] % 16)
            },
    )
}

/// The upper-case hex digit for a value below 16.
pub open spec fn hex_digit_char_upper(n: u8) -> char
    recommends
        n < 16,
{
    if n < 10 {
        (('0' as u8) + n) as char
    } else {
        (('A' as u8) + (n - 10)) as char
    }
}

/// The upper-case hex digit of a value below 16.
pub fn hex_digit_upper(n: u8) -> (c: char)
    requires
        n < 16,
    ensures
        c == hex_digit_char_upper(n),
{
    if n < 10 {
        (('0' as u8) + n) as char
    } else {
        (('A' as u8) + (n - 10)) as char
    }
}

pub open spec fn is_hex_digit(c: char) -> bool {
    ('0' <= c && c <= '9') || ('a' <= c && c <= 'f') || ('A' <= c && c <= 'F')
}

/// The value of one hex digit, either case.
pub open spec fn hex_val(c: char) -> u8
    recommends
        is_hex_digit(c),
{
    if '0' <= c && c <= '9' {
        ((c as u8) - ('0' as u8)) as u8
    } else if 'a' <= c && c <= 'f' {
        ((c as u8) - ('a' as u8) + 10) as u8
    } else {
        ((c as u8) - ('A' as u8) + 10) as u8
    }
}

/// A character sequence decodes as hex when its length is even and every
/// character is a hex digit.
pub open spec fn is_hex_seq(s: Seq<char>) -> bool {
    s.len() % 2 == 0 && forall|i: int| 0 <= i < s.len() ==> is_hex_digit(#[trigger] s[i])
}

/// The bytes a hex character sequence stands for.
pub open spec fn hex_decoded(s: Seq<char>) -> Seq<u8>
    recommends
        is_hex_seq(s),
{
    Seq::new(s.len() / 2, |i: int| (hex_val(s[2 * i]) * 16 + hex_val(s[2 * i + 1])) as u8)
}

fn hex_digit(n: u8) -> (c: char)
    requires
        n < 16,
    ensures
        c == hex_digit_char(n),
{
    if n < 10 {
        (('0' as u8) + n) as char
    } else {
        (('a' as u8) + (n - 10)) as char
    }
}

/// Lower-case hex encoding of a byte slice.
pub fn hex_encode(bytes: &[u8]) -> (r: String)
    ensures
        r@ == hex_of(bytes@),
{
    let mut out = String::new();
    let mut i: usize = 0;
    while i < bytes.len()
        invariant
            0 <= i <= bytes@.len(),
            out@ == hex_of(bytes@.subrange(0, i as int)),
        decreases bytes@.len() - i,
    {
        let b = bytes[i];
        push_char(&mut out, hex_digit(b / 16));
        push_char(&mut out, hex_digit(b % 16));
        assert(out@ =~= hex_of(bytes@.subrange(0, i + 1 as int))) by {
            assert(forall|j: int|
                0 <= j <= i ==> bytes@.subrange(0, i + 1 as int)[j] == bytes@[j]);
            assert(forall|j: int| 0 <= j < i ==> bytes@.subrange(0, i as int)[j] == bytes@[j]);
        }
        i += 1;
    }
    assert(bytes@.subrange(0, bytes@.len() as int) =~= bytes@);
    out
}

fn hex_digit_value(c: char) -> (r: Option<u8>)
    ensures
        r is Some <==> is_hex_digit(c),
        r is Some ==> r->0 == hex_val(c) && r->0 < 16,
{
    if '0' <= c && c <= '9' {
        Some((c as u8) - ('0' as u8))
    } else if 'a' <= c && c <= 'f' {
        Some((c as u8) - ('a' as u8) + 10)
    } else if 'A' <= c && c <= 'F' {
        Some((c as u8) - ('A' as u8) + 10)
    } else {
        None
    }
}

/// Decodes a hex string (either case) to bytes; `None` exactly when the
/// length is odd or a character is not a hex digit.
pub fn hex_decode(s: &str) -> (r: Option<Vec<u8>>)
    ensures
        r is Some <==> is_hex_seq(s@),
        r is Some ==> r->0@ == hex_decoded(s@),
{
    let n = s.unicode_len();
    if n % 2 != 0 {
        return None;
    }
    let mut out: Vec<u8> = Vec::new();
    let mut i: usize = 0;
    while i < n
        invariant
            0 <= i <= n,
            i % 2 == 0,
            n % 2 == 0,
            n == s@.len(),
            out@.len() == i / 2,
            forall|j: int| 0 <= j < i ==> is_hex_digit(#[trigger] s@[j]),
            forall|j: int|
                0 <= j < i / 2 ==> #[trigger] out@[j] == (hex_val(s@[2 * j]) * 16 + hex_val(
                    s@[2 * j + 1],
                )) as u8,
        decreases n - i,
    {
        let hi = match hex_digit_value(s.get_char(i)) {
            Some(v) => v,
            None => {
                return None;
            },
        };
        let lo = match hex_digit_value(s.get_char(i + 1)) {
            Some(v) => v,
            None => {
                return None;
            },
        };
        out.push(hi * 16 + lo);
        i += 2;
    }
    assert(out@ =~= hex_decoded(s@));
    Some(out)
}

/// Encoding then decoding gives the bytes back: the hex form is a faithful
/// name for a hash value.
pub proof fn lemma_hex_round_trip(bytes: Seq<u8>)
    ensures
        is_hex_seq(hex_of(bytes)),
        hex_decoded(hex_of(bytes)) == bytes,
{
    let s = hex_of(bytes);
    assert forall|i: int| 0 <= i < s.len() implies is_hex_digit(#[trigger] s[i]) by {
        let b = bytes[i / 2];
        assert(b / 16 < 16 && b % 16 < 16);
    }
    assert forall|i: int| 0 <= i < bytes.len() implies hex_decoded(s)[i] == bytes[i] by {
        let b = bytes[i];
        assert(s[2 * i] == hex_digit_char(b / 16));
        assert(s[2 * i + 1] == hex_digit_char(b % 16));
        assert(hex_val(hex_digit_char(b / 16)) == b / 16);
        assert(hex_val(hex_digit_char(b % 16)) == b % 16);
    }
    assert(hex_decoded(s) =~= bytes);
}

pub open spec fn is_hex_digit_u8(b: u8) -> bool {
    (0x30 <= b && b <= 0x39) || (0x61 <= b && b <= 0x66) || (0x41 <= b && b <= 0x46)
}

/// The value of one hex digit given as an ASCII byte, either case.
pub open spec fn hex_val_u8(b: u8) -> u8
    recommends
        is_hex_digit_u8(b),
{
    if 0x30 <= b && b <= 0x39 {
        (b - 0x30) as u8
    } else if 0x61 <= b && b <= 0x66 {
        (b - 0x61 + 10) as u8
    } else {
        (b - 0x41 + 10) as u8
    }
}

/// A byte sequence decodes as hex when its length is even and every byte is
/// an ASCII hex digit.
pub open spec fn is_hex_seq_u8(s: Seq<u8>) -> bool {
    s.len() % 2 == 0 && forall|i: int| 0 <= i < s.len() ==> is_hex_digit_u8(#[trigger] s[i])
}

/// The bytes an ASCII hex byte sequence stands for.
pub open spec fn hex_decoded_u8(s: Seq<u8>) -> Seq<u8>
    recommends
        is_hex_seq_u8(s),
{
    Seq::new(s.len() / 2, |i: int| (hex_val_u8(s[2 * i]) * 16 + hex_val_u8(s[2 * i + 1])) as u8)
}

fn hex_digit_value_u8(b: u8) -> (r: Option<u8>)
    ensures
        r is Some <==> is_hex_digit_u8(b),
        r is Some ==> r->0 == hex_val_u8(b) && r->0 < 16,
{
    if 0x30 <= b && b <= 0x39 {
        Some(b - 0x30)
    } else if 0x61 <= b && b <= 0x66 {
        Some(b - 0x61 + 10)
    } else if 0x41 <= b && b <= 0x46 {
        Some(b - 0x41 + 10)
    } else {
        None
    }
}

/// Decodes ASCII hex bytes (either case); `None` exactly when the length is
/// odd or a byte is not a hex digit.
pub fn hex_decode_ascii(s: &[u8]) -> (r: Option<Vec<u8>>)
    ensures
        r is Some <==> is_hex_seq_u8(s@),
        r is Some ==> r->0@ == hex_decoded_u8(s@),
{
    let n = s.len();
    if n % 2 != 0 {
        return None;
    }
    let mut out: Vec<u8> = Vec::new();
    let mut i: usize = 0;
    while i < n
        invariant
            0 <= i <= n,
            i % 2 == 0,
            n % 2 == 0,
            n == s@.len(),
            out@.len() == i / 2,
            forall|j: int| 0 <= j < i ==> is_hex_digit_u8(#[trigger] s@[j]),
            forall|j: int|
                0 <= j < i / 2 ==> #[trigger] out@[j] == (hex_val_u8(s@[2 * j]) * 16 + hex_val_u8(
                    s@[2 * j + 1],
                )) as u8,
        decreases n - i,
    {
        let hi = match hex_digit_value_u8(s[i]) {
            Some(v) => v,
            None => {
                return None;
            },
        };
        let lo = match hex_digit_value_u8(s[i + 1]) {
            Some(v) => v,
            None => {
                return None;
            },
        };
        out.push(hi * 16 + lo);
        i += 2;
    }
    assert(out@ =~= hex_decoded_u8(s@));
    Some(out)
}

/// Case-insensitive comparison of two hex strings, ignoring surrounding
/// whitespace, as used when holding a computed digest against an expected one.
pub fn eq_hex_case_insensitive(a: &str, b: &str) -> (r: bool)
    ensures
        r == crate::text::eq_ignore_ascii_case_spec(
            crate::text::spec_trim(a@),
            crate::text::spec_trim(b@),
        ),
{
    let ta = crate::text::trim_ascii(a);
    let tb = crate::text::trim_ascii(b);
    crate::text::eq_str_ignore_ascii_case(ta.as_str(), tb.as_str())
}

/// Hex decoding is insensitive to ASCII case.
pub proof fn lemma_hex_decode_case_insensitive(a: Seq<char>, b: Seq<char>)
    requires
        crate::text::eq_ignore_ascii_case_spec(a, b),
        is_hex_seq(a),
    ensures
        is_hex_seq(b),
        hex_decoded(a) == hex_decoded(b),
{
    let la = crate::text::ascii_lower(a);
    let lb = crate::text::ascii_lower(b);
    assert(la.len() == lb.len());
    assert forall|i: int| 0 <= i < b.len() implies is_hex_digit(#[trigger] b[i]) && hex_val(b[i])
        == hex_val(a[i]) by {
        assert(la[i] == lb[i]);
    }
    assert(hex_decoded(a) =~= hex_decoded(b));
}

} // verus!
