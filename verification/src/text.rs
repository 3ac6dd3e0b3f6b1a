//! Byte strings as text.

use vstd::prelude::*;
use vstd::string::*;
use vstd::utf8::*;

verus! {

/// The text that the bytes `bytes` encode in UTF-8.
pub open spec fn text_of(bytes: Seq<u8>) -> Seq<char> {
    decode_utf8(bytes)
}

/// `core::str::from_utf8` on bytes that are valid UTF-8. Trusted: on such
/// bytes the call succeeds, and the string slice it returns is made of
/// exactly these bytes.
#[verifier::external_body]
pub(crate) fn str_of_utf8(bytes: &[u8]) -> (s: &str)
    requires
        valid_utf8(bytes@),
    ensures
        s.spec_bytes() == bytes@,
{
    match core::str::from_utf8(bytes) {
        Ok(s) => s,
        Err(_) => "",
    }
}

/// The string slice made of `bytes`, read as text.
pub(crate) fn as_text(bytes: &[u8]) -> (s: &str)
    requires
        valid_utf8(bytes@),
    ensures
        s.spec_bytes() == bytes@,
        s@ == text_of(bytes@),
{
    let s = str_of_utf8(bytes);
    proof {
        encode_utf8_decode_utf8(s@);
    }
    s
}

/// Whether two string slices hold the same text.
pub fn same_text(a: &str, b: &str) -> (r: bool)
    ensures
        r == (a@ == b@),
{
    let x = a.as_bytes();
    let y = b.as_bytes();
    proof {
        encode_utf8_decode_utf8(a@);
        encode_utf8_decode_utf8(b@);
    }
    if x.len() != y.len() {
        return false;
    }
    let mut i: usize = 0;
    while i < x.len()
        invariant
            i <= x@.len(),
            x@.len() == y@.len(),
            x@ == a.spec_bytes(),
            y@ == b.spec_bytes(),
            decode_utf8(a.spec_bytes()) == a@,
            decode_utf8(b.spec_bytes()) == b@,
            forall|j: int| 0 <= j < i ==> x@[j] == y@[j],
        decreases x@.len() - i,
    {
        if x[i] != y[i] {
            assert(x@[i as int] != y@[i as int]);
            return false;
        }
        i += 1;
    }
    assert(x@ =~= y@);
    true
}

/// The lowercase form that `str::to_lowercase` gives to a text.
pub uninterp spec fn lowercase(text: Seq<char>) -> Seq<char>;

/// `str::to_lowercase`. Trusted: the string it returns depends on the text
/// alone.
#[verifier::external_body]
pub(crate) fn to_lowercase(text: &str) -> (lower: String)
    ensures
        lower@ == lowercase(text@),
{
    text.to_lowercase()
}

/// Whether `needle` stands in `hay` at the place `at`.
pub open spec fn occurs_at(hay: Seq<u8>, needle: Seq<u8>, at: int) -> bool {
    0 <= at && at + needle.len() <= hay.len() && hay.subrange(at, at + needle.len()) == needle
}

/// Whether `needle` stands somewhere in `hay`.
pub open spec fn occurs_in(hay: Seq<u8>, needle: Seq<u8>) -> bool {
    exists|at: int| occurs_at(hay, needle, at)
}

/// Whether the bytes of `needle` stand somewhere in those of `hay`.
pub fn contains_text(hay: &str, needle: &str) -> (found: bool)
    ensures
        found == occurs_in(hay.spec_bytes(), needle.spec_bytes()),
{
    let h = hay.as_bytes();
    let n = needle.as_bytes();
    if n.len() > h.len() {
        assert forall|at: int| !occurs_at(h@, n@, at) by {}
        return false;
    }
    let last: usize = h.len() - n.len();
    let mut at: usize = 0;
    while at <= last
        invariant
            at <= last + 1,
            h@.len() <= usize::MAX,
            n@.len() <= h@.len(),
            last == h@.len() - n@.len(),
            h@ == hay.spec_bytes(),
            n@ == needle.spec_bytes(),
            forall|k: int| 0 <= k < at ==> !occurs_at(h@, n@, k),
        decreases last + 1 - at,
    {
        let mut i: usize = 0;
        while i < n.len() && h[at + i] == n[i]
            invariant
                i <= n@.len(),
                at <= last,
                h@.len() <= usize::MAX,
                n@.len() <= h@.len(),
                last == h@.len() - n@.len(),
                forall|j: int| 0 <= j < i ==> h@[at + j] == n@[j],
            decreases n@.len() - i,
        {
            i += 1;
        }
        if i == n.len() {
            assert(h@.subrange(at as int, at + n@.len()) =~= n@);
            assert(occurs_at(h@, n@, at as int));
            return true;
        }
        assert(!occurs_at(h@, n@, at as int)) by {
            if occurs_at(h@, n@, at as int) {
                assert(h@.subrange(at as int, at + n@.len())[i as int] == n@[i as int]);
            }
        }
        at += 1;
    }
    assert forall|k: int| !occurs_at(h@, n@, k) by {}
    false
}

/// A byte string of printable ASCII is valid UTF-8, one character per byte.
pub proof fn lemma_ascii_text(bytes: Seq<u8>)
    requires
        forall|i: int| 0 <= i < bytes.len() ==> bytes[i] < 0x80,
    ensures
        valid_utf8(bytes),
        text_of(bytes).len() == bytes.len(),
        forall|i: int| 0 <= i < bytes.len() ==> text_of(bytes)[i] == bytes[i] as char,
{
    let chars = Seq::new(bytes.len(), |i: int| bytes[i] as char);
    assert(is_ascii_chars(chars)) by {
        assert forall|i: int| 0 <= i < chars.len() implies 0 <= #[trigger] (chars[i] as nat)
            < 128 by {
            assert(bytes[i] < 0x80);
        }
    }
    is_ascii_chars_encode_utf8(chars);
    assert(encode_utf8(chars) =~= bytes);
    encode_utf8_valid_utf8(chars);
    encode_utf8_decode_utf8(chars);
}

} // verus!
