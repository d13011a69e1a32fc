//! Identifiers of traces and spans.
use vstd::prelude::*;
use vstd::string::*;
use vstd::utf8::*;

verus! {

/// The value of a hexadecimal digit, capital or small.
pub open spec fn hex_digit(c: u8) -> Option<int> {
    if 0x30 <= c <= 0x39 {
        Some(c - 0x30)
    } else if 0x61 <= c <= 0x66 {
        Some(c - 0x61 + 10)
    } else if 0x41 <= c <= 0x46 {
        Some(c - 0x41 + 10)
    } else {
        None
    }
}

/// The bytes that a text of hexadecimal digits spells, two digits to a byte.
pub open spec fn hex_decoded(text: Seq<u8>) -> Option<Seq<u8>> {
    if text.len() % 2 == 0 && (forall|i: int|
        0 <= i < text.len() ==> hex_digit(#[trigger] text[i]) is Some) {
        Some(
            Seq::new(
                text.len() / 2,
                |i: int| (16 * hex_digit(text[2 * i])->0 + hex_digit(text[2 * i + 1])->0) as u8,
            ),
        )
    } else {
        None
    }
}

/// `hex::decode`: the bytes that the digits spell; a text of odd length, or with a character that
/// is no hexadecimal digit, is refused.
#[verifier::external_body]
fn hex_decode(text: &[u8]) -> (decoded: Option<Vec<u8>>)
    ensures
        hex_decoded(text@) == (match decoded {
            Some(bytes) => Some(bytes@),
            None => None,
        }),
{
    hex::decode(text).ok()
}

/// The bytes that a text of hexadecimal digits spells; none where it is no such text.
pub open spec fn hex_bytes(text: Seq<char>) -> Seq<u8> {
    match hex_decoded(encode_utf8(text)) {
        Some(bytes) => bytes,
        None => Seq::empty(),
    }
}

/// The bytes that a text of hexadecimal digits spells; none where it is no such text.
pub fn hex_string_to_bytes(hex_str: &str) -> (bytes: Vec<u8>)
    ensures
        bytes@ == hex_bytes(hex_str@),
{
    match hex_decode(hex_str.as_bytes()) {
        Some(bytes) => bytes,
        None => Vec::new(),
    }
}

/// An identifier of `len` bytes: the bytes themselves where there are `len` of them, else the bytes
/// that they spell in hexadecimal where there are `len` of those, else none.
pub open spec fn identifier(bytes: Seq<u8>, len: nat) -> Seq<u8> {
    if bytes.len() == len {
        bytes
    } else {
        match hex_decoded(bytes) {
            Some(decoded) => if decoded.len() == len {
                decoded
            } else {
                Seq::empty()
            },
            None => Seq::empty(),
        }
    }
}

/// Reads an identifier of `len` bytes.
pub fn read_identifier(bytes: Vec<u8>, len: usize) -> (id: Vec<u8>)
    ensures
        id@ == identifier(bytes@, len as nat),
{
    if bytes.len() == len {
        return bytes;
    }
    match hex_decode(bytes.as_slice()) {
        Some(decoded) => if decoded.len() == len {
            decoded
        } else {
            Vec::new()
        },
        None => Vec::new(),
    }
}

/// An identifier is of the length asked for, or empty.
pub proof fn law_identifier_length(bytes: Seq<u8>, len: nat)
    ensures
        identifier(bytes, len).len() == len || identifier(bytes, len).len() == 0,
{
}

/// The hexadecimal spelling of an identifier in small letters.
pub open spec fn hex_spelling(bytes: Seq<u8>) -> Seq<u8> {
    Seq::new(
        2 * bytes.len(),
        |i: int|
            {
                let digit = if i % 2 == 0 {
                    bytes[i / 2] / 16
                } else {
                    bytes[i / 2] % 16
                };
                if digit < 10 {
                    (0x30 + digit) as u8
                } else {
                    (0x61 + digit - 10) as u8
                }
            },
    )
}

/// An identifier is the same whether it comes as its bytes or as their hexadecimal spelling.
pub proof fn law_identifier_from_hex(id: Seq<u8>)
    ensures
        hex_decoded(hex_spelling(id)) == Some(id),
        id.len() > 0 ==> identifier(hex_spelling(id), id.len()) == identifier(id, id.len()),
{
    let text = hex_spelling(id);
    assert forall|i: int| 0 <= i < text.len() implies hex_digit(#[trigger] text[i]) is Some by {}
    let decoded = hex_decoded(text)->0;
    assert forall|i: int| 0 <= i < id.len() implies #[trigger] decoded[i] == id[i] by {
        assert(hex_digit(text[2 * i])->0 == id[i] / 16);
        assert(hex_digit(text[2 * i + 1])->0 == id[i] % 16);
    }
    assert(decoded =~= id);
}

/// An identifier of a length is what has this length: the bytes, or what they spell. There is none
/// where neither has it.
pub proof fn law_identifiers_have_their_length(bytes: Seq<u8>, id: Seq<u8>, len: nat)
    ensures
        bytes.len() == len ==> identifier(bytes, len) == bytes,
        bytes.len() != len && hex_decoded(bytes) == Some(id) && id.len() == len ==> identifier(
            bytes,
            len,
        ) == id,
        bytes.len() != len && (hex_decoded(bytes) is None || 2 * len != bytes.len()) ==> identifier(
            bytes,
            len,
        ).len() == 0,
{
}

}
