use crate::error::TxError;
use vstd::prelude::*;

verus! {

/// Whether `b` is the ASCII code of a hexadecimal digit.
pub open spec fn is_hex_digit(b: u8) -> bool {
    (48 <= b && b <= 57) || (97 <= b && b <= 102) || (65 <= b && b <= 70)
}

/// Numeric value of the hexadecimal digit with ASCII code `b`.
pub open spec fn hex_digit_value(b: u8) -> u8 {
    if 48 <= b && b <= 57 {
        (b - 48) as u8
    } else if 97 <= b && b <= 102 {
        (b - 87) as u8
    } else if 65 <= b && b <= 70 {
        (b - 55) as u8
    } else {
        0
    }
}

/// Whether `s` is well-formed hexadecimal text: even length, hexadecimal
/// digits throughout (either letter case).
pub open spec fn is_hex_text(s: Seq<u8>) -> bool {
    s.len() % 2 == 0 && (forall|i: int| 0 <= i < s.len() ==> is_hex_digit(s[i]))
}

/// The bytes that well-formed hexadecimal text `s` denotes, two digits per
/// byte, high digit first.
pub open spec fn hex_text_bytes(s: Seq<u8>) -> Seq<u8> {
    Seq::new((s.len() / 2) as nat, |i: int| (16 * hex_digit_value(s[2 * i]) + hex_digit_value(s[2 * i + 1])) as u8)
}

/// ASCII code of the lowercase hexadecimal digit for `n < 16`.
pub open spec fn hex_digit_ascii(n: u8) -> u8 {
    if n < 10 {
        (n + 48) as u8
    } else {
        (n + 87) as u8
    }
}

/// Lowercase hexadecimal rendering of `s` as ASCII codes, two digits per
/// byte, no prefix.
pub open spec fn hex_ascii_of(s: Seq<u8>) -> Seq<u8> {
    Seq::new(
        2 * s.len(),
        |i: int| if i % 2 == 0 {
            hex_digit_ascii(s[i / 2] / 16)
        } else {
            hex_digit_ascii(s[i / 2] % 16)
        },
    )
}

/// Lowercase hexadecimal rendering of `s` as characters.
pub open spec fn hex_str_of(s: Seq<u8>) -> Seq<char> {
    hex_ascii_of(s).map_values(|b: u8| b as char)
}

/// Numeric value of one hexadecimal digit byte, or `None` if `b` is no such
/// digit.
fn hex_digit_of(b: u8) -> (r: Option<u8>)
    ensures
        r matches Some(v) ==> is_hex_digit(b) && v == hex_digit_value(b),
        r is None ==> !is_hex_digit(b),
{
    if 48 <= b && b <= 57 {
        Some(b - 48)
    } else if 97 <= b && b <= 102 {
        Some(b - 87)
    } else if 65 <= b && b <= 70 {
        Some(b - 55)
    } else {
        None
    }
}

/// Decodes hexadecimal text (case-insensitive) into the bytes it denotes.
/// Fails with `MalformedInput` exactly when the text has odd length or holds
/// a byte that is no hexadecimal digit.
pub fn hex_decode(text: &Vec<u8>) -> (r: Result<Vec<u8>, TxError>)
    ensures
        match r {
            Ok(v) => is_hex_text(text@) && v@ == hex_text_bytes(text@),
            Err(e) => e == TxError::MalformedInput && !is_hex_text(text@),
        },
{
    if text.len() % 2 != 0 {
        return Err(TxError::MalformedInput);
    }
    let mut out: Vec<u8> = Vec::new();
    let mut i: usize = 0;
    while i < text.len()
        invariant
            i % 2 == 0,
            i <= text@.len(),
            text@.len() % 2 == 0,
            out@.len() == i / 2,
            forall|j: int| 0 <= j < i ==> is_hex_digit(text@[j]),
            forall|j: int|
                0 <= j < i / 2 ==> out@[j] == (16 * hex_digit_value(text@[2 * j])
                    + hex_digit_value(text@[2 * j + 1])) as u8,
        decreases text@.len() - i,
    {
        let hi = match hex_digit_of(text[i]) {
            Some(v) => v,
            None => {
                return Err(TxError::MalformedInput);
            },
        };
        let lo = match hex_digit_of(text[i + 1]) {
            Some(v) => v,
            None => {
                return Err(TxError::MalformedInput);
            },
        };
        out.push(16 * hi + lo);
        i = i + 2;
    }
    proof {
        assert(out@ =~= hex_text_bytes(text@));
    }
    Ok(out)
}

/// Lowercase hexadecimal rendering of `bytes` as ASCII codes.
pub fn hex_encode(bytes: &Vec<u8>) -> (r: Vec<u8>)
    ensures
        r@ == hex_ascii_of(bytes@),
{
    let mut out: Vec<u8> = Vec::new();
    let mut i: usize = 0;
    while i < bytes.len()
        invariant
            i <= bytes@.len(),
            out@.len() == 2 * i,
            forall|j: int| 0 <= j < 2 * i ==> out@[j] == hex_ascii_of(bytes@)[j],
        decreases bytes@.len() - i,
    {
        let b = bytes[i];
        let hi = b / 16;
        let lo = b % 16;
        out.push(if hi < 10 { hi + 48 } else { hi + 87 });
        out.push(if lo < 10 { lo + 48 } else { lo + 87 });
        i = i + 1;
    }
    proof {
        assert(out@ =~= hex_ascii_of(bytes@));
    }
    out
}

/// Relies on `String::from_utf8`: bytes below 128 are valid UTF-8 and decode
/// to one character per byte, each the character with that code.
#[verifier::external_body]
pub(crate) fn ascii_to_string(bytes: &Vec<u8>) -> (r: String)
    requires
        forall|i: int| 0 <= i < bytes@.len() ==> bytes@[i] < 128,
    ensures
        r@.len() == bytes@.len(),
        forall|i: int| 0 <= i < bytes@.len() ==> r@[i] == bytes@[i] as char,
{
    String::from_utf8(bytes.clone()).unwrap_or_default()
}

/// Lowercase hexadecimal rendering of `bytes` as a `String`, no prefix.
pub fn hex_string(bytes: &Vec<u8>) -> (r: String)
    ensures
        r@ == hex_str_of(bytes@),
{
    let ascii = hex_encode(bytes);
    proof {
        assert forall|i: int| 0 <= i < ascii@.len() implies ascii@[i] < 128 by {
            assert(ascii@[i] == hex_ascii_of(bytes@)[i]);
        }
    }
    let s = ascii_to_string(&ascii);
    proof {
        assert(s@ =~= hex_str_of(bytes@));
    }
    s
}

} // verus!
