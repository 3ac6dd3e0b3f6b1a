//! Krist addresses.

use crate::text::{as_text, text_of};
use vstd::prelude::*;
use vstd::string::*;
use vstd::utf8::*;

verus! {

/// A krist address: ten bytes of text.
#[derive(Clone, Copy, PartialEq, Eq, Hash, Debug)]
pub struct Address {
    bytes: [u8; 10],
}

/// An address text of the wrong length, with the length it has in bytes.
#[derive(Debug, Clone, Copy, PartialEq, Eq)]
pub struct InvalidAddressLength(pub usize);

/// An error caused by an invalid address.
#[derive(Debug, Clone, Copy, PartialEq, Eq)]
pub enum InvalidAddress {
    /// The text is not ten bytes long; its length in bytes.
    InvalidLength(usize),
    /// A character outside the address alphabet, and its index.
    IllegalCharacter(char, usize),
}

/// Whether `c` may stand in a v1 address: a lowercase hexadecimal digit.
pub open spec fn is_v1_char(c: char) -> bool {
    ('0' <= c && c <= '9') || ('a' <= c && c <= 'f')
}

/// Whether `c` may stand in a v2 address: a digit or a lowercase letter.
pub open spec fn is_v2_char(c: char) -> bool {
    ('0' <= c && c <= '9') || ('a' <= c && c <= 'z')
}

/// Whether `c` may stand in the address text `s`: a text that starts with
/// `k` is held to the v2 alphabet, any other to the v1 alphabet.
pub open spec fn is_allowed_char(s: Seq<char>, c: char) -> bool {
    if s.len() > 0 && s[0] == 'k' {
        is_v2_char(c)
    } else {
        is_v1_char(c)
    }
}

/// Whether the first `n` characters of `s` are all allowed in it.
pub open spec fn allowed_prefix(s: Seq<char>, n: int) -> bool {
    forall|i: int| 0 <= i < n ==> is_allowed_char(s, #[trigger] s[i])
}

impl View for Address {
    type V = Seq<u8>;

    closed spec fn view(&self) -> Seq<u8> {
        self.bytes@
    }
}

impl Address {
    /// The required length of krist addresses, in bytes.
    pub const LENGTH: usize = 10;

    #[verifier::type_invariant]
    spec fn well_formed(self) -> bool {
        valid_utf8(self.bytes@)
    }

    /// Every address is ten bytes long.
    pub proof fn lemma_view(self)
        ensures
            self@.len() == 10,
    {
    }

    /// The address whose bytes are those of `s`, which must be ten.
    pub fn from_str(s: &str) -> (r: Result<Address, InvalidAddressLength>)
        ensures
            match r {
                Ok(a) => s.spec_bytes().len() == 10 && a@ == s.spec_bytes(),
                Err(e) => s.spec_bytes().len() != 10 && e.0 == s.spec_bytes().len(),
            },
    {
        let b = s.as_bytes();
        if b.len() != 10 {
            return Err(InvalidAddressLength(b.len()));
        }
        let mut bytes: [u8; 10] = [0u8; 10];
        let mut i: usize = 0;
        while i < 10
            invariant
                i <= 10,
                b@.len() == 10,
                forall|j: int| 0 <= j < i ==> bytes@[j] == b@[j],
            decreases 10 - i,
        {
            bytes[i] = b[i];
            i += 1;
        }
        proof {
            encode_utf8_valid_utf8(s@);
            assert(bytes@ =~= b@);
        }
        Ok(Address { bytes })
    }

    /// The address of ten ASCII bytes.
    pub(crate) fn from_ascii(bytes: [u8; 10]) -> (a: Address)
        requires
            forall|i: int| 0 <= i < 10 ==> bytes@[i] < 0x80,
        ensures
            a@ == bytes@,
    {
        proof {
            crate::text::lemma_ascii_text(bytes@);
        }
        Address { bytes }
    }

    /// The address that `s` spells, held to the alphabet of its version.
    /// The characters are checked before the length is.
    pub fn from_str_checked(s: &str) -> (r: Result<Address, InvalidAddress>)
        ensures
            match r {
                Ok(a) => allowed_prefix(s@, s@.len() as int) && s@.len() == 10 && a@
                    == s.spec_bytes(),
                Err(InvalidAddress::IllegalCharacter(c, i)) => i < s@.len() && allowed_prefix(
                    s@,
                    i as int,
                ) && !is_allowed_char(s@, s@[i as int]) && c == s@[i as int],
                Err(InvalidAddress::InvalidLength(n)) => allowed_prefix(s@, s@.len() as int)
                    && s@.len() != 10 && n == s@.len(),
            },
    {
        let n: usize = s.as_bytes().len();
        let mut v2: bool = false;
        let mut i: usize = 0;
        proof {
            lemma_encoding_length(s@);
        }
        for c in it: s.chars()
            invariant
                i == it.index(),
                it.seq() == s@,
                s@.len() <= n,
                i > 0 ==> v2 == (s@[0] == 'k'),
                allowed_prefix(s@, i as int),
        {
            if i == 0 {
                v2 = c == 'k';
            }
            let digit: bool = '0' <= c && c <= '9';
            let letter: bool = 'a' <= c && (if v2 {
                c <= 'z'
            } else {
                c <= 'f'
            });
            if !(digit || letter) {
                return Err(InvalidAddress::IllegalCharacter(c, i));
            }
            i += 1;
        }
        proof {
            lemma_allowed_is_ascii(s@);
            is_ascii_spec_bytes(s);
        }
        match Address::from_str(s) {
            Ok(a) => Ok(a),
            Err(e) => Err(InvalidAddress::InvalidLength(e.0)),
        }
    }

    /// Get this krist address as a string slice.
    pub fn as_str(&self) -> (s: &str)
        ensures
            s.spec_bytes() == self@,
            s@ == text_of(self@),
    {
        proof {
            use_type_invariant(self);
        }
        as_text(self.bytes.as_slice())
    }

    /// The bytes of this address.
    pub fn as_bytes(&self) -> (b: &[u8; 10])
        ensures
            b@ == self@,
    {
        &self.bytes
    }

    /// The address as an owned string.
    pub fn to_string(&self) -> (s: String)
        ensures
            s@ == text_of(self@),
    {
        self.as_str().to_owned()
    }

    /// Whether the bytes of this address are those of `other`.
    pub fn eq_str(&self, other: &str) -> (r: bool)
        ensures
            r == (self@ == other.spec_bytes()),
    {
        let b = other.as_bytes();
        if b.len() != 10 {
            return false;
        }
        let mut i: usize = 0;
        while i < 10
            invariant
                i <= 10,
                b@.len() == 10,
                b@ == other.spec_bytes(),
                forall|j: int| 0 <= j < i ==> self.bytes@[j] == b@[j],
            decreases 10 - i,
        {
            if self.bytes[i] != b[i] {
                assert(self.bytes@[i as int] != b@[i as int]);
                return false;
            }
            i += 1;
        }
        assert(self.bytes@ =~= b@);
        true
    }

    /// Whether two addresses hold the same bytes.
    pub fn same_as(&self, other: &Address) -> (r: bool)
        ensures
            r == (self@ == other@),
    {
        let mut i: usize = 0;
        while i < 10
            invariant
                i <= 10,
                forall|j: int| 0 <= j < i ==> self.bytes@[j] == other.bytes@[j],
            decreases 10 - i,
        {
            if self.bytes[i] != other.bytes[i] {
                assert(self.bytes@[i as int] != other.bytes@[i as int]);
                return false;
            }
            i += 1;
        }
        assert(self.bytes@ =~= other.bytes@);
        true
    }
}

/// A text has no more characters than its UTF-8 encoding has bytes.
pub proof fn lemma_encoding_length(chars: Seq<char>)
    ensures
        chars.len() <= encode_utf8(chars).len(),
    decreases chars.len(),
{
    if chars.len() > 0 {
        lemma_encoding_length(chars.drop_first());
        assert(encode_scalar(chars[0] as u32).len() >= 1);
    }
}

/// A text in which every character is allowed is ASCII.
proof fn lemma_allowed_is_ascii(s: Seq<char>)
    requires
        allowed_prefix(s, s.len() as int),
    ensures
        is_ascii_chars(s),
{
    assert forall|i: int| 0 <= i < s.len() implies 0 <= #[trigger] (s[i] as nat) < 128 by {
        assert(is_allowed_char(s, s[i]));
    }
}

/// Converting a text to an address and back gives the text again: where the
/// bytes of an address are the UTF-8 encoding of `s`, its text is `s`.
pub proof fn lemma_address_round_trip(s: Seq<char>, a: Address)
    requires
        a@ == encode_utf8(s),
    ensures
        text_of(a@) == s,
{
    encode_utf8_decode_utf8(s);
}

} // verus!
