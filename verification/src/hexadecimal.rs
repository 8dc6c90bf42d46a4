//! Bytes as hexadecimal digits.

use vstd::prelude::*;

verus! {

/// Whether `c` is a hexadecimal digit, in either case.
pub open spec fn is_hex_digit(c: char) -> bool {
    '0' <= c <= '9' || 'a' <= c <= 'f' || 'A' <= c <= 'F'
}

/// The value of a hexadecimal digit.
pub open spec fn hex_digit_value(c: char) -> int
    recommends
        is_hex_digit(c),
{
    if '0' <= c <= '9' {
        c as int - '0' as int
    } else if 'a' <= c <= 'f' {
        c as int - 'a' as int + 10
    } else {
        c as int - 'A' as int + 10
    }
}

/// The lower case hexadecimal digit of value `n`.
pub open spec fn hex_digit(n: int) -> char
    recommends
        0 <= n < 16,
{
    if n < 10 {
        ('0' as int + n) as char
    } else {
        ('a' as int + n - 10) as char
    }
}

/// Whether `text` is made of pairs of hexadecimal digits.
pub open spec fn is_hex(text: Seq<char>) -> bool {
    &&& text.len() % 2 == 0
    &&& forall|i: int| 0 <= i < text.len() ==> is_hex_digit(#[trigger] text[i])
}

/// The bytes that the pairs of hexadecimal digits of `text` stand for.
pub open spec fn hex_bytes(text: Seq<char>) -> Seq<u8> {
    Seq::new(
        text.len() / 2,
        |i: int| (16 * hex_digit_value(text[2 * i]) + hex_digit_value(text[2 * i + 1])) as u8,
    )
}

/// The bytes as pairs of lower case hexadecimal digits.
pub open spec fn hex_text(bytes: Seq<u8>) -> Seq<char> {
    Seq::new(
        2 * bytes.len(),
        |i: int|
            if i % 2 == 0 {
                hex_digit(bytes[i / 2] as int / 16)
            } else {
                hex_digit(bytes[i / 2] as int % 16)
            },
    )
}

/// The error of the hexadecimal decoder, whose content nothing here looks at.
#[verifier::external_type_specification]
#[verifier::external_body]
pub struct ExFromHexError(hex::FromHexError);

/// Calls `hex::decode`. It is trusted to accept exactly the strings that are made of pairs of
/// hexadecimal digits, in either case, and to return one byte per pair, the first digit being
/// the more significant one.
#[verifier::external_body]
fn decode_hex(text: &str) -> (r: Result<Vec<u8>, hex::FromHexError>)
    ensures
        r is Ok <==> is_hex(text@),
        r matches Ok(bytes) ==> bytes@ == hex_bytes(text@),
{
    hex::decode(text)
}

/// Calls `hex::encode`. It is trusted to write each byte as two lower case hexadecimal digits,
/// the more significant one first.
#[verifier::external_body]
fn encode_hex(bytes: &[u8]) -> (r: String)
    ensures
        r@ == hex_text(bytes@),
{
    hex::encode(bytes)
}

/// Reads bytes that are written as pairs of hexadecimal digits.
pub fn read_hex(text: &str) -> (r: Option<Vec<u8>>)
    ensures
        r is Some <==> is_hex(text@),
        r matches Some(bytes) ==> bytes@ == hex_bytes(text@),
{
    match decode_hex(text) {
        Ok(bytes) => Some(bytes),
        Err(_) => None,
    }
}

/// Writes bytes as pairs of lower case hexadecimal digits.
pub fn write_hex(bytes: &[u8]) -> (r: String)
    ensures
        r@ == hex_text(bytes@),
{
    encode_hex(bytes)
}

/// Bytes that were written as hexadecimal digits are read back as they were.
pub proof fn hex_round_trip(bytes: Seq<u8>)
    ensures
        is_hex(hex_text(bytes)),
        hex_text(bytes).len() == 2 * bytes.len(),
        hex_bytes(hex_text(bytes)) == bytes,
{
    let text = hex_text(bytes);
    assert forall|n: int| 0 <= n < 16 implies is_hex_digit(#[trigger] hex_digit(n))
        && hex_digit_value(hex_digit(n)) == n by {}
    assert forall|i: int| 0 <= i < text.len() implies is_hex_digit(#[trigger] text[i]) by {
        let n = if i % 2 == 0 {
            bytes[i / 2] as int / 16
        } else {
            bytes[i / 2] as int % 16
        };
        assert(text[i] == hex_digit(n));
    }
    assert forall|i: int| 0 <= i < bytes.len() implies hex_bytes(text)[i] == bytes[i] by {
        assert(text[2 * i] == hex_digit(bytes[i] as int / 16));
        assert((2 * i + 1) / 2 == i);
        assert(text[2 * i + 1] == hex_digit(bytes[i] as int % 16));
    }
    assert(hex_bytes(text) =~= bytes);
}

/// The hexadecimal digits are the ten decimal digits and the first six letters, in either case, and
/// each has its value.
pub proof fn hexadecimal_digits(c: char, n: int)
    requires
        0 <= n < 16,
    ensures
        is_hex_digit(c) <==> {
            ||| '0' <= c <= '9'
            ||| 'a' <= c <= 'f'
            ||| 'A' <= c <= 'F'
        },
        ({
            let lower = seq![
                '0',
                '1',
                '2',
                '3',
                '4',
                '5',
                '6',
                '7',
                '8',
                '9',
                'a',
                'b',
                'c',
                'd',
                'e',
                'f',
            ];
            let upper = seq![
                '0',
                '1',
                '2',
                '3',
                '4',
                '5',
                '6',
                '7',
                '8',
                '9',
                'A',
                'B',
                'C',
                'D',
                'E',
                'F',
            ];
            &&& hex_digit(n) == lower[n]
            &&& hex_digit_value(lower[n]) == n
            &&& hex_digit_value(upper[n]) == n
        }),
{
}

/// Each pair of digits stands for one byte, the first of them being the more significant one, and
/// each byte is written as such a pair.
pub proof fn pairs_of_digits_are_bytes(text: Seq<char>, bytes: Seq<u8>, i: int)
    requires
        is_hex(text),
    ensures
        2 * hex_bytes(text).len() == text.len(),
        0 <= i < hex_bytes(text).len() ==> hex_bytes(text)[i] == 16 * hex_digit_value(text[2 * i])
            + hex_digit_value(text[2 * i + 1]),
        0 <= i < bytes.len() ==> 16 * hex_digit_value(hex_text(bytes)[2 * i]) + hex_digit_value(
            hex_text(bytes)[2 * i + 1],
        ) == bytes[i],
{
    if 0 <= i < hex_bytes(text).len() {
        assert(is_hex_digit(text[2 * i]) && is_hex_digit(text[2 * i + 1]));
    }
    if 0 <= i < bytes.len() {
        hex_round_trip(bytes);
        let digits = hex_text(bytes);
        assert(is_hex_digit(digits[2 * i]) && is_hex_digit(digits[2 * i + 1]));
        assert(hex_bytes(digits)[i] == bytes[i]);
    }
}

} // verus!
