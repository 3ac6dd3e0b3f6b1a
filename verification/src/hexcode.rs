//! Hexadecimal text, as the `hex` crate writes and reads it.

use vstd::prelude::*;
use vstd::string::*;

verus! {

/// The lowercase hexadecimal digit of the value `v`, which is below sixteen,
/// as an ASCII byte.
pub open spec fn hex_digit(v: int) -> u8 {
    if v < 10 {
        (v + 0x30) as u8
    } else {
        (v - 10 + 0x61) as u8
    }
}

/// The lowercase hexadecimal form of `bytes` in ASCII: two digits for each
/// byte, the upper half first.
pub open spec fn hex_ascii(bytes: Seq<u8>) -> Seq<u8> {
    Seq::new(
        2 * bytes.len(),
        |i: int|
            if i % 2 == 0 {
                hex_digit(bytes[i / 2] as int / 16)
            } else {
                hex_digit(bytes[i / 2] as int % 16)
            },
    )
}

/// The lowercase hexadecimal text of `bytes`.
pub open spec fn hex_chars(bytes: Seq<u8>) -> Seq<char> {
    Seq::new(2 * bytes.len(), |i: int| hex_ascii(bytes)[i] as char)
}

/// The value of the byte `b` read as a hexadecimal digit of either case, or
/// sixteen where it is none.
pub open spec fn hex_value(b: u8) -> int {
    if 0x30 <= b <= 0x39 {
        b - 0x30
    } else if 0x61 <= b <= 0x66 {
        b - 0x61 + 10
    } else if 0x41 <= b <= 0x46 {
        b - 0x41 + 10
    } else {
        16
    }
}

/// Whether no byte among the first `n` of `text` fails to be a hexadecimal digit.
pub open spec fn hex_prefix(text: Seq<u8>, n: int) -> bool {
    forall|i: int| 0 <= i < n ==> hex_value(#[trigger] text[i]) < 16
}

/// The bytes that the hexadecimal digits `text` spell, two digits a byte.
pub open spec fn hex_bytes(text: Seq<u8>) -> Seq<u8> {
    Seq::new(
        text.len() / 2,
        |i: int| (16 * hex_value(text[2 * i]) + hex_value(text[2 * i + 1])) as u8,
    )
}

/// Why a text is not the hexadecimal form of a value of the wanted length.
#[derive(Debug, Clone, Copy, PartialEq, Eq)]
pub enum HexError {
    /// A byte that is no hexadecimal digit, as a character, and where it stands.
    InvalidHexCharacter { c: char, index: usize },
    /// The text has an odd number of bytes.
    OddLength,
    /// The text has an even number of bytes, but not two for each byte wanted.
    InvalidStringLength,
}

/// `hex::encode`. Trusted: the string it returns is the lowercase
/// hexadecimal text of `data`, two digits for each byte.
#[verifier::external_body]
pub(crate) fn encode_hex(data: &[u8]) -> (s: String)
    ensures
        s@ == hex_chars(data@),
{
    hex::encode(data)
}

/// `hex::decode_to_slice` into `N` bytes. Trusted: it refuses a text of odd
/// length, then one whose length is not `2 * N`, then reports the first byte
/// that is no hexadecimal digit; otherwise it returns the bytes that the
/// digits spell.
#[verifier::external_body]
pub(crate) fn decode_hex<const N: usize>(text: &str) -> (r: Result<[u8; N], HexError>)
    ensures
        match r {
            Ok(out) => text.spec_bytes().len() == 2 * N && hex_prefix(
                text.spec_bytes(),
                2 * N as int,
            ) && out@ == hex_bytes(text.spec_bytes()),
            Err(HexError::OddLength) => text.spec_bytes().len() % 2 == 1,
            Err(HexError::InvalidStringLength) => text.spec_bytes().len() % 2 == 0
                && text.spec_bytes().len() != 2 * N,
            Err(HexError::InvalidHexCharacter { c, index }) => text.spec_bytes().len() == 2 * N
                && index < 2 * N && hex_prefix(text.spec_bytes(), index as int) && hex_value(
                text.spec_bytes()[index as int],
            ) == 16 && c == text.spec_bytes()[index as int] as char,
        },
{
    let mut out = [0u8; N];
    match hex::decode_to_slice(text, &mut out) {
        Ok(()) => Ok(out),
        Err(hex::FromHexError::InvalidHexCharacter { c, index }) => Err(
            HexError::InvalidHexCharacter { c, index },
        ),
        Err(hex::FromHexError::OddLength) => Err(HexError::OddLength),
        Err(hex::FromHexError::InvalidStringLength) => Err(HexError::InvalidStringLength),
    }
}

/// Reading the hexadecimal form of bytes gives the bytes again: every
/// byte of the form is a digit, and the digits spell the bytes.
pub proof fn lemma_hex_round_trip(bytes: Seq<u8>)
    ensures
        hex_ascii(bytes).len() == 2 * bytes.len(),
        hex_prefix(hex_ascii(bytes), (2 * bytes.len()) as int),
        hex_bytes(hex_ascii(bytes)) == bytes,
{
    let text = hex_ascii(bytes);
    assert forall|i: int| 0 <= i < 2 * bytes.len() implies hex_value(#[trigger] text[i]) < 16 by {
        let b = bytes[i / 2];
        assert(0 <= b as int / 16 < 16 && 0 <= b as int % 16 < 16);
    }
    assert forall|i: int| 0 <= i < bytes.len() implies hex_bytes(text)[i] == bytes[i] by {
        let b = bytes[i];
        assert((2 * i) / 2 == i && (2 * i) % 2 == 0);
        assert((2 * i + 1) / 2 == i && (2 * i + 1) % 2 == 1);
        assert(text[2 * i] == hex_digit(b as int / 16));
        assert(text[2 * i + 1] == hex_digit(b as int % 16));
        assert(0 <= b as int / 16 < 16 && 0 <= b as int % 16 < 16);
        assert(16 * (b as int / 16) + b as int % 16 == b);
    }
    assert(hex_bytes(text) =~= bytes);
}

} // verus!
