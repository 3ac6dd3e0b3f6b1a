//! Block hashes, as the node names them.

use crate::address::Address;
use crate::hexcode::{
    decode_hex, encode_hex, hex_ascii, hex_bytes, hex_chars, hex_prefix, HexError,
};
use vstd::prelude::*;
use vstd::string::*;
use vstd::utf8::*;

verus! {

/// The short hash of a block: six bytes, written as twelve hexadecimal digits.
#[derive(Clone, Copy, PartialEq, Eq, Hash, Debug)]
pub struct ShortHash(pub [u8; 6]);

/// The full hash of a block: thirty-two bytes.
#[derive(Clone, Copy, PartialEq, Eq, Hash, Debug)]
pub struct Hash(pub [u8; 32]);

/// A mined block.
#[derive(Debug, Clone, Copy, PartialEq, Eq, Hash)]
pub struct Block {
    pub height: u64,
    pub value: u32,
    pub hash: Hash,
    pub short_hash: ShortHash,
    pub address: Address,
}

impl ShortHash {
    /// The length of a short hash, in bytes.
    pub const LENGTH: usize = 6;

    /// The bytes of this hash.
    pub fn bytes(self) -> (b: [u8; 6])
        ensures
            b == self.0,
    {
        self.0
    }

    /// The twelve lowercase hexadecimal digits of this hash.
    pub fn into_hex(self) -> (s: String)
        ensures
            s@ == hex_chars(self.0@),
    {
        encode_hex(self.0.as_slice())
    }

    /// The twelve lowercase hexadecimal digits of this hash, in ASCII: the
    /// form in which a block enters the hashed message.
    pub fn hex_bytes(self) -> (b: [u8; 12])
        ensures
            b@ == hex_ascii(self.0@),
    {
        let s = self.into_hex();
        let text = s.as_str().as_bytes();
        proof {
            assert(is_ascii_chars(s@)) by {
                assert forall|i: int| 0 <= i < s@.len() implies 0 <= #[trigger] (s@[i] as nat)
                    < 128 by {
                    assert(s@[i] == hex_ascii(self.0@)[i] as char);
                }
            }
            is_ascii_chars_encode_utf8(s@);
            assert(text@ =~= hex_ascii(self.0@));
        }
        let mut b: [u8; 12] = [0u8; 12];
        let mut i: usize = 0;
        while i < 12
            invariant
                i <= 12,
                text@.len() == 12,
                forall|j: int| 0 <= j < i ==> b@[j] == text@[j],
            decreases 12 - i,
        {
            b[i] = text[i];
            i += 1;
        }
        assert(b@ =~= text@);
        b
    }

    /// The short hash that twelve hexadecimal digits, of either case, spell.
    pub fn from_str(s: &str) -> (r: Result<ShortHash, HexError>)
        ensures
            r is Ok <==> s.spec_bytes().len() == 12 && hex_prefix(s.spec_bytes(), 12),
            match r {
                Ok(h) => h.0@ == hex_bytes(s.spec_bytes()),
                Err(HexError::OddLength) => s.spec_bytes().len() % 2 == 1,
                Err(HexError::InvalidStringLength) => s.spec_bytes().len() % 2 == 0
                    && s.spec_bytes().len() != 12,
                Err(HexError::InvalidHexCharacter { c, index }) => s.spec_bytes().len() == 12
                    && index < 12 && hex_prefix(s.spec_bytes(), index as int) && !hex_prefix(
                    s.spec_bytes(),
                    index + 1,
                ) && c == s.spec_bytes()[index as int] as char,
            },
    {
        match decode_hex::<6>(s) {
            Ok(bytes) => Ok(ShortHash(bytes)),
            Err(e) => Err(e),
        }
    }
}

impl Hash {
    /// The length of a hash, in bytes.
    pub const LENGTH: usize = 32;

    /// The bytes of this hash.
    pub fn bytes(self) -> (b: [u8; 32])
        ensures
            b == self.0,
    {
        self.0
    }

    /// The sixty-four lowercase hexadecimal digits of this hash.
    pub fn into_hex(self) -> (s: String)
        ensures
            s@ == hex_chars(self.0@),
    {
        encode_hex(self.0.as_slice())
    }

    /// The hash that sixty-four hexadecimal digits, of either case, spell.
    pub fn from_str(s: &str) -> (r: Result<Hash, HexError>)
        ensures
            r is Ok <==> s.spec_bytes().len() == 64 && hex_prefix(s.spec_bytes(), 64),
            match r {
                Ok(h) => h.0@ == hex_bytes(s.spec_bytes()),
                Err(HexError::OddLength) => s.spec_bytes().len() % 2 == 1,
                Err(HexError::InvalidStringLength) => s.spec_bytes().len() % 2 == 0
                    && s.spec_bytes().len() != 64,
                Err(HexError::InvalidHexCharacter { c, index }) => s.spec_bytes().len() == 64
                    && index < 64 && hex_prefix(s.spec_bytes(), index as int) && !hex_prefix(
                    s.spec_bytes(),
                    index + 1,
                ) && c == s.spec_bytes()[index as int] as char,
            },
    {
        match decode_hex::<32>(s) {
            Ok(bytes) => Ok(Hash(bytes)),
            Err(e) => Err(e),
        }
    }
}

} // verus!
