//! The width of the vectors that an OpenCL kernel works on.

use crate::decimal::{digits_end, number_at, read_number};
use vstd::prelude::*;
use vstd::string::*;

verus! {

/// A vector size: 1, 2, 4, 8 or 16.
#[derive(Debug, Clone, Copy, PartialEq, Eq)]
pub struct VectorSize(pub u8);

/// A number that is no valid vector size.
#[derive(Debug, Clone, Copy, PartialEq, Eq)]
pub struct InvalidVectorSize(pub u8);

/// Why a text is no vector size.
#[derive(Debug, Clone, Copy, PartialEq, Eq)]
pub enum VectorSizeError {
    /// The text is a number, but not one of the sizes.
    Invalid(InvalidVectorSize),
    /// The text is no number below 256.
    NotANumber,
}

/// Whether `v` is a valid vector size.
pub open spec fn is_vector_size(v: u8) -> bool {
    v == 1 || v == 2 || v == 4 || v == 8 || v == 16
}

/// The number below 256 that the bytes `s` spell: a run of ASCII digits
/// and nothing else, after a plus sign or none.
pub open spec fn spelled_byte(s: Seq<u8>) -> Option<u8> {
    let from: int = if s.len() > 0 && s[0] == 0x2b {
        1
    } else {
        0
    };
    if digits_end(s, from) != s.len() || from == s.len() {
        None
    } else {
        match number_at(s, from) {
            Some(v) => if v < 256 {
                Some(v as u8)
            } else {
                None
            },
            None => None,
        }
    }
}

impl VectorSize {
    /// The number of this size.
    pub fn value(self) -> (v: u8)
        ensures
            v == self.0,
    {
        self.0
    }

    /// The vector size that a text spells.
    pub fn from_str(s: &str) -> (r: Result<VectorSize, VectorSizeError>)
        ensures
            match r {
                Ok(size) => spelled_byte(s.spec_bytes()) == Some(size.0) && is_vector_size(size.0),
                Err(VectorSizeError::Invalid(e)) => spelled_byte(s.spec_bytes()) == Some(e.0)
                    && !is_vector_size(e.0),
                Err(VectorSizeError::NotANumber) => spelled_byte(s.spec_bytes()) is None,
            },
    {
        let b = s.as_bytes();
        let from: usize = if b.len() > 0 && b[0] == 0x2b {
            1
        } else {
            0
        };
        let (end, number) = read_number(b, from);
        if end != b.len() || from == b.len() {
            return Err(VectorSizeError::NotANumber);
        }
        match number {
            Some(n) => {
                if n >= 256 {
                    return Err(VectorSizeError::NotANumber);
                }
                let v: u8 = n as u8;
                if v == 1 || v == 2 || v == 4 || v == 8 || v == 16 {
                    Ok(VectorSize(v))
                } else {
                    Err(VectorSizeError::Invalid(InvalidVectorSize(v)))
                }
            },
            None => Err(VectorSizeError::NotANumber),
        }
    }
}

} // verus!
