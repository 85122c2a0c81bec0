use vstd::prelude::*;

verus! {

/// True exactly for the characters `0`..`9`, `a`..`f` and `A`..`F`.
pub open spec fn is_hex_digit(c: char) -> bool {
    (48 <= c as u32 && c as u32 <= 57)  // '0'..'9'
    || (97 <= c as u32 && c as u32 <= 102)  // 'a'..'f'
    || (65 <= c as u32 && c as u32 <= 70)  // 'A'..'F'
}

/// Numeric value of one hex digit, upper or lower case.
pub open spec fn hex_digit_value(c: char) -> int
    recommends
        is_hex_digit(c),
{
    if 48 <= c as u32 && c as u32 <= 57 {
        c as u32 - 48
    } else if 97 <= c as u32 && c as u32 <= 102 {
        c as u32 - 97 + 10
    } else {
        c as u32 - 65 + 10
    }
}

/// A string decodes as hex when its length is even and every character is a
/// hex digit, in either case.
pub open spec fn valid_hex(s: Seq<char>) -> bool {
    s.len() % 2 == 0 && forall|i: int| 0 <= i < s.len() ==> is_hex_digit(#[trigger] s[i])
}

/// The byte written as the two hex digits `hi` then `lo`.
pub open spec fn hex_byte(hi: char, lo: char) -> u8
    recommends
        is_hex_digit(hi),
        is_hex_digit(lo),
{
    (hex_digit_value(hi) * 16 + hex_digit_value(lo)) as u8
}

/// The bytes denoted by a hex string, two digits per byte, in order.
pub open spec fn spec_hex_decode(s: Seq<char>) -> Seq<u8>
    decreases s.len(),
{
    if s.len() < 2 {
        Seq::empty()
    } else {
        seq![hex_byte(s[0], s[1])] + spec_hex_decode(s.skip(2))
    }
}

/// The sixteen lower-case hex digits, indexed by value.
pub open spec fn hex_digits() -> Seq<char> {
    seq!['0', '1', '2', '3', '4', '5', '6', '7', '8', '9', 'a', 'b', 'c', 'd', 'e', 'f']
}

/// The lower-case hex rendering of a byte sequence, two digits per byte, in
/// order.
pub open spec fn spec_hex_encode(b: Seq<u8>) -> Seq<char>
    decreases b.len(),
{
    if b.len() == 0 {
        Seq::empty()
    } else {
        seq![hex_digits()[b[0] as int / 16], hex_digits()[b[0] as int % 16]]
            + spec_hex_encode(b.skip(1))
    }
}

/// Relies on `hex::encode`: every byte is rendered as exactly two lower-case
/// hex digits, in input order.
#[verifier::external_body]
pub(crate) fn hex_encode(data: &[u8]) -> (r: String)
    ensures
        r@ == spec_hex_encode(data@),
{
    hex::encode(data)
}

/// Relies on `hex::decode`: pairs of hex digits decode to bytes in order,
/// accepting both cases; an odd length or a character that is not a hex digit
/// is an error.
#[verifier::external_body]
pub(crate) fn hex_decode(data: &str) -> (r: Option<Vec<u8>>)
    ensures
        r is Some <==> valid_hex(data@),
        r is Some ==> r.unwrap()@ == spec_hex_decode(data@),
{
    match hex::decode(data) {
        Ok(v) => Some(v),
        Err(_) => None,
    }
}

} // verus!
