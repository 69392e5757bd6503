//! The interchange form of a byte string: `0x` and two lower-case
//! hexadecimal digits per byte.

use vstd::prelude::*;
use vstd::string::*;
use crate::error::EciesError;

verus! {

/// The digit of a value below 16: `0` to `9`, then `a` to `f`.
pub open spec fn hex_digit(nibble: u8) -> char {
    if nibble < 10 {
        (48 + nibble) as char
    } else {
        (87 + nibble) as char
    }
}

/// The value of a digit, if the character is one.
pub open spec fn hex_value(digit: char) -> Option<u8> {
    if '0' <= digit <= '9' {
        Some((digit as u8 - 48) as u8)
    } else if 'a' <= digit <= 'f' {
        Some((digit as u8 - 87) as u8)
    } else {
        None
    }
}

/// Two digits per byte, the high half first.
pub open spec fn hex_of(bytes: Seq<u8>) -> Seq<char> {
    Seq::new(
        2 * bytes.len(),
        |i: int|
            if i % 2 == 0 {
                hex_digit(bytes[i / 2] / 16)
            } else {
                hex_digit(bytes[i / 2] % 16)
            },
    )
}

/// The interchange form: `0x`, then the digits.
pub open spec fn prefixed_hex(bytes: Seq<u8>) -> Seq<char> {
    seq!['0', 'x'] + hex_of(bytes)
}

/// The byte string that a text is the interchange form of, if it is one.
pub open spec fn hex_decoded(text: Seq<char>) -> Option<Seq<u8>> {
    if exists|bytes: Seq<u8>| prefixed_hex(bytes) == text {
        Some(choose|bytes: Seq<u8>| prefixed_hex(bytes) == text)
    } else {
        None
    }
}

/// A digit's value is the value it was made from, and nothing but a digit
/// comes out of `hex_digit`.
pub proof fn lemma_hex_digit_value(nibble: u8)
    requires
        nibble < 16,
    ensures
        hex_value(hex_digit(nibble)) == Some(nibble),
        '\0' <= hex_digit(nibble) <= '\u{7f}',
{
}

/// A character that has a value is the digit of that value.
pub proof fn lemma_hex_value_digit(digit: char)
    requires
        hex_value(digit) is Some,
    ensures
        hex_value(digit)->Some_0 < 16,
        hex_digit(hex_value(digit)->Some_0) == digit,
{
}

/// Two byte strings with the same interchange form are equal.
pub proof fn lemma_prefixed_hex_injective(a: Seq<u8>, b: Seq<u8>)
    requires
        prefixed_hex(a) == prefixed_hex(b),
    ensures
        a == b,
{
    assert(prefixed_hex(a).len() == 2 + 2 * a.len());
    assert(prefixed_hex(b).len() == 2 + 2 * b.len());
    assert forall|i: int| 0 <= i < a.len() implies a[i] == b[i] by {
        let high_a = prefixed_hex(a)[2 + 2 * i];
        let low_a = prefixed_hex(a)[2 + 2 * i + 1];
        assert(high_a == hex_of(a)[2 * i]);
        assert(low_a == hex_of(a)[2 * i + 1]);
        assert(prefixed_hex(b)[2 + 2 * i] == hex_of(b)[2 * i]);
        assert(prefixed_hex(b)[2 + 2 * i + 1] == hex_of(b)[2 * i + 1]);
        lemma_hex_digit_value(a[i] / 16);
        lemma_hex_digit_value(a[i] % 16);
        lemma_hex_digit_value(b[i] / 16);
        lemma_hex_digit_value(b[i] % 16);
    }
    assert(a =~= b);
}

/// Reading undoes writing.
pub proof fn lemma_hex_decoded_of_encoded(bytes: Seq<u8>)
    ensures
        hex_decoded(prefixed_hex(bytes)) == Some(bytes),
{
    let text = prefixed_hex(bytes);
    let chosen = choose|other: Seq<u8>| prefixed_hex(other) == text;
    lemma_prefixed_hex_injective(chosen, bytes);
}

/// The one-character string of a digit.
fn digit_str(nibble: u8) -> (digit: &'static str)
    requires
        nibble < 16,
    ensures
        digit@ == seq![hex_digit(nibble)],
{
    let digits = "0123456789abcdef";
    proof {
        reveal_strlit("0123456789abcdef");
        assert(digits@.len() == 16);
        assert(is_ascii(digits));
    }
    let digit = digits.substring_ascii(nibble as usize, nibble as usize + 1);
    assert(digit@ =~= seq![hex_digit(nibble)]);
    digit
}

/// Writes `bytes` in the interchange form.
pub fn to_hex(bytes: &[u8]) -> (text: String)
    ensures
        text@ == prefixed_hex(bytes@),
{
    let len = bytes.len();
    let mut text = String::from_str("0x");
    proof {
        reveal_strlit("0x");
        assert(text@ =~= seq!['0', 'x'] + hex_of(bytes@.subrange(0, 0)));
    }
    let mut i: usize = 0;
    while i < len
        invariant
            len == bytes@.len(),
            i <= len,
            text@ == seq!['0', 'x'] + hex_of(bytes@.subrange(0, i as int)),
        decreases len - i,
    {
        let byte = bytes[i];
        let ghost before = text@;
        text.append(digit_str(byte / 16));
        text.append(digit_str(byte % 16));
        proof {
            let shorter = bytes@.subrange(0, i as int);
            let longer = bytes@.subrange(0, i + 1);
            assert(text@ == before + seq![hex_digit(byte / 16)] + seq![hex_digit(byte % 16)]);
            assert forall|k: int| 0 <= k < 2 * (i + 1) implies hex_of(longer)[k] == (hex_of(shorter)
                + seq![hex_digit(byte / 16)] + seq![hex_digit(byte % 16)])[k] by {
                if k < 2 * i {
                    assert(longer[k / 2] == shorter[k / 2]);
                } else {
                    assert(longer[k / 2] == byte);
                }
            }
            assert(text@ =~= seq!['0', 'x'] + hex_of(longer));
        }
        i += 1;
    }
    assert(bytes@.subrange(0, len as int) =~= bytes@);
    text
}

/// The value of an ASCII digit, if the byte is one.
fn digit_value(digit: u8) -> (value: Option<u8>)
    requires
        digit < 128,
    ensures
        value == hex_value(digit as char),
{
    if 48 <= digit && digit <= 57 {
        Some(digit - 48)
    } else if 97 <= digit && digit <= 102 {
        Some(digit - 87)
    } else {
        None
    }
}

/// Reads the interchange form back. Exactly the strings that `to_hex`
/// writes are accepted: the prefix, then an even number of lower-case
/// digits.
pub fn from_hex(text: &str) -> (result: Result<Vec<u8>, EciesError>)
    ensures
        match hex_decoded(text@) {
            Some(bytes) => result is Ok && result->Ok_0@ == bytes,
            None => result == Err::<Vec<u8>, EciesError>(EciesError::MalformedInput),
        },
{
    let result = read_hex(text);
    proof {
        if result is Ok {
            lemma_hex_decoded_of_encoded(result->Ok_0@);
        }
    }
    result
}

/// The work of `from_hex`, with the two outcomes stated apart.
fn read_hex(text: &str) -> (result: Result<Vec<u8>, EciesError>)
    ensures
        match result {
            Ok(bytes) => text@ == prefixed_hex(bytes@),
            Err(error) => {
                &&& error == EciesError::MalformedInput
                &&& forall|bytes: Seq<u8>| prefixed_hex(bytes) != text@
            },
        },
{
    if !text.is_ascii() {
        proof {
            assert forall|bytes: Seq<u8>| prefixed_hex(bytes) != text@ by {
                lemma_prefixed_hex_ascii(bytes);
            }
        }
        return Err(EciesError::MalformedInput);
    }
    let raw = text.as_bytes();
    let len = raw.len();
    proof {
        is_ascii_spec_bytes(text);
        assert(raw@.len() == text@.len());
    }
    if len < 2 || raw[0] != 48 || raw[1] != 120 || len % 2 != 0 {
        proof {
            assert forall|bytes: Seq<u8>| prefixed_hex(bytes) != text@ by {
                assert(prefixed_hex(bytes).len() == 2 + 2 * bytes.len());
                assert(prefixed_hex(bytes)[0] == '0');
                assert(prefixed_hex(bytes)[1] == 'x');
                if len >= 2 {
                    assert(raw@[0] == text@[0] as u8);
                    assert(raw@[1] == text@[1] as u8);
                }
            }
        }
        return Err(EciesError::MalformedInput);
    }
    let count = (len - 2) / 2;
    let mut bytes: Vec<u8> = Vec::new();
    let mut i: usize = 0;
    while i < count
        invariant
            is_ascii(text),
            raw@.len() == text@.len(),
            forall|k: int| 0 <= k < raw@.len() ==> raw@[k] == text@[k] as u8,
            len == raw@.len(),
            len == 2 + 2 * count,
            i <= count,
            bytes@.len() == i,
            forall|k: int| 0 <= k < 2 * i ==> hex_of(bytes@)[k] == text@[2 + k],
        decreases count - i,
    {
        let high_digit = raw[2 + 2 * i];
        let low_digit = raw[2 + 2 * i + 1];
        proof {
            assert('\0' <= text@[2 + 2 * i] <= '\u{7f}');
            assert('\0' <= text@[2 + 2 * i + 1] <= '\u{7f}');
        }
        let high = digit_value(high_digit);
        let low = digit_value(low_digit);
        match (high, low) {
            (Some(high), Some(low)) => {
                let ghost before = bytes@;
                let byte = high * 16 + low;
                bytes.push(byte);
                proof {
                    lemma_hex_value_digit(text@[2 + 2 * i]);
                    lemma_hex_value_digit(text@[2 + 2 * i + 1]);
                    assert(byte / 16 == high && byte % 16 == low);
                    assert forall|k: int| 0 <= k < 2 * (i + 1) implies hex_of(bytes@)[k] == text@[2
                        + k] by {
                        if k < 2 * i {
                            assert(bytes@[k / 2] == before[k / 2]);
                            assert(hex_of(before)[k] == text@[2 + k]);
                        } else {
                            assert(bytes@[k / 2] == byte);
                        }
                    }
                }
            },
            _ => {
                proof {
                    assert forall|other: Seq<u8>| prefixed_hex(other) != text@ by {
                        if prefixed_hex(other).len() == text@.len() {
                            assert(other.len() == count);
                            let k = 2 * i as int;
                            assert(prefixed_hex(other)[2 + k] == hex_of(other)[k]);
                            assert(prefixed_hex(other)[2 + k + 1] == hex_of(other)[k + 1]);
                            lemma_hex_digit_value(other[i as int] / 16);
                            lemma_hex_digit_value(other[i as int] % 16);
                        }
                    }
                }
                return Err(EciesError::MalformedInput);
            },
        }
        i += 1;
    }
    proof {
        assert(text@[0] == '0' && text@[1] == 'x') by {
            assert(raw@[0] == text@[0] as u8);
            assert(raw@[1] == text@[1] as u8);
            assert('\0' <= text@[0] <= '\u{7f}');
            assert('\0' <= text@[1] <= '\u{7f}');
        }
        assert(text@ =~= prefixed_hex(bytes@));
    }
    Ok(bytes)
}

/// The interchange form holds ASCII characters only.
pub proof fn lemma_prefixed_hex_ascii(bytes: Seq<u8>)
    ensures
        vstd::utf8::is_ascii_chars(prefixed_hex(bytes)),
{
    let text = prefixed_hex(bytes);
    assert forall|i: int| 0 <= i < text.len() implies '\0' <= #[trigger] text[i] <= '\u{7f}' by {
        if i >= 2 {
            let k = i - 2;
            assert(text[i] == hex_of(bytes)[k]);
            lemma_hex_digit_value(bytes[k / 2] / 16);
            lemma_hex_digit_value(bytes[k / 2] % 16);
        }
    }
}

} // verus!
