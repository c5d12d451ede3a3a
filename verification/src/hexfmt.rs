//! Hex text at the library's edge: parsing an account address from its
//! `0x`-prefixed hex form, and rendering hashes back to that form. The
//! digit-by-digit conversion is done by the hex crate; its behaviour is
//! stated exactly here and everything around the calls is verified.

use vstd::prelude::*;

verus! {

/// A hex digit, upper or lower case.
pub open spec fn is_hex_digit(c: char) -> bool {
    (48 <= c as u32 && c as u32 <= 57) || (97 <= c as u32 && c as u32 <= 102) || (65 <= c as u32
        && c as u32 <= 70)
}

/// The value of one hex digit.
pub open spec fn hex_digit_val(c: char) -> u8 {
    if 48 <= c as u32 && c as u32 <= 57 {
        (c as u32 - 48) as u8
    } else if 97 <= c as u32 && c as u32 <= 102 {
        (c as u32 - 87) as u8
    } else {
        (c as u32 - 55) as u8
    }
}

/// Text that hex-decodes: an even number of hex digits.
pub open spec fn valid_hex(s: Seq<char>) -> bool {
    s.len() % 2 == 0 && (forall|i: int| 0 <= i < s.len() ==> is_hex_digit(#[trigger] s[i]))
}

/// The bytes encoded by a string of hex digit pairs.
pub open spec fn spec_hex_decode(s: Seq<char>) -> Seq<u8> {
    Seq::new(s.len() / 2, |i: int| (16 * hex_digit_val(s[2 * i]) + hex_digit_val(s[2 * i + 1])) as u8)
}

/// The lowercase hex digit for a value below 16.
pub open spec fn hex_char_of(v: u8) -> char {
    if v < 10 {
        ((48 + v) as u8) as char
    } else {
        ((87 + v) as u8) as char
    }
}

/// The lowercase hex rendering of a byte string: two digits per byte, high
/// nibble first.
pub open spec fn spec_hex_encode(b: Seq<u8>) -> Seq<char> {
    Seq::new(
        2 * b.len(),
        |i: int|
            if i % 2 == 0 {
                hex_char_of(b[i / 2] / 16)
            } else {
                hex_char_of(b[i / 2] % 16)
            },
    )
}

/// Relies on hex::decode: an even number of hex digits (either case)
/// decodes to one byte per pair, high nibble first; an odd-length or
/// non-hex input is an error.
#[verifier::external_body]
fn hex_decode(s: &str) -> (r: Option<Vec<u8>>)
    ensures
        (match r {
            Some(v) => valid_hex(s@) && v@ == spec_hex_decode(s@),
            None => !valid_hex(s@),
        }),
{
    match hex::decode(s) {
        Ok(v) => Some(v),
        Err(_) => None,
    }
}

/// Relies on hex::encode: two lowercase hex digits per byte, high nibble
/// first.
#[verifier::external_body]
fn hex_encode(b: &Vec<u8>) -> (r: String)
    ensures
        r@ == spec_hex_encode(b@),
{
    hex::encode(b)
}

/// `s` with its optional `0x` prefix removed.
pub open spec fn strip_0x(s: Seq<char>) -> Seq<char> {
    if s.len() >= 2 && s[0] == '0' && s[1] == 'x' {
        s.skip(2)
    } else {
        s
    }
}

/// Parses a 20-byte account address from hex text with an optional `0x`
/// prefix: `Some` exactly when what follows the prefix is 40 hex digits.
pub fn parse_account20(s: &str) -> (r: Option<Vec<u8>>)
    ensures
        (match r {
            Some(v) => {
                &&& valid_hex(strip_0x(s@))
                &&& strip_0x(s@).len() == 40
                &&& v@ == spec_hex_decode(strip_0x(s@))
                &&& v@.len() == 20
            },
            None => !(valid_hex(strip_0x(s@)) && strip_0x(s@).len() == 40),
        }),
{
    let n = s.unicode_len();
    let stripped: &str = if n >= 2 && s.get_char(0) == '0' && s.get_char(1) == 'x' {
        s.substring_char(2, n)
    } else {
        s
    };
    proof {
        assert(stripped@ =~= strip_0x(s@));
    }
    match hex_decode(stripped) {
        Some(v) => {
            if v.len() == 20 {
                Some(v)
            } else {
                None
            }
        },
        None => None,
    }
}

/// Renders bytes as `0x`-prefixed lowercase hex, the form in which
/// transaction hashes are handed back to callers.
pub fn to_hex_prefixed(b: &Vec<u8>) -> (r: String)
    ensures
        r@ == seq!['0', 'x'] + spec_hex_encode(b@),
{
    let mut out = String::from_str("0x");
    let h = hex_encode(b);
    out.append(h.as_str());
    proof {
        reveal_strlit("0x");
        assert(out@ =~= seq!['0', 'x'] + spec_hex_encode(b@));
    }
    out
}

} // verus!
