//! Type tags: a number that names the type of an envelope on the wire.

use crate::cbor::{put_uint, take_uint, uint_at, uint_bytes};
use crate::codec::{malformed, DecodeError, Encode, EncodeError};
use vstd::prelude::*;

verus! {

/// A type tag represents a type as a unique numeric value.
///
/// Envelopes of different types can have the same shape on the wire. The
/// tag is an unsigned integer in the encoding, and decoding checks that it
/// is the expected one. The value itself holds nothing.
#[derive(Debug, Clone, Copy, Default)]
pub struct TypeTag<const N: usize>;

/// Reading the tag `expected` at `pos`: the position after it, or why the
/// bytes there are not that tag.
pub open spec fn tag_at(input: Seq<u8>, pos: int, expected: u64) -> Result<int, DecodeError> {
    match uint_at(input, pos) {
        None => Err(malformed(pos)),
        Some((found, end)) => if found == expected {
            Ok(end)
        } else {
            Err(DecodeError::TagMismatch { expected, found: found as u64 })
        },
    }
}

impl<const N: usize> TypeTag<N> {
    /// The number of the tag.
    pub open spec fn spec_number() -> u64 {
        N as u64
    }

    /// The number of the tag.
    #[verifier::when_used_as_spec(spec_number)]
    pub fn number() -> (r: u64)
        ensures
            r == Self::spec_number(),
    {
        N as u64
    }

    /// Appends the tag's number as an unsigned integer.
    pub fn encode(&self, buf: &mut Vec<u8>)
        ensures
            final(buf)@ == old(buf)@ + uint_bytes(Self::spec_number() as nat),
    {
        put_uint(buf, Self::number());
    }

    /// Reads an unsigned integer at `pos` and checks that it is the tag's
    /// number. Returns the position after it.
    pub fn decode(input: &[u8], pos: usize) -> (r: Result<(Self, usize), DecodeError>)
        ensures
            match r {
                Ok((_, end)) => tag_at(input@, pos as int, Self::spec_number()) == Ok::<
                    int,
                    DecodeError,
                >(end as int),
                Err(e) => tag_at(input@, pos as int, Self::spec_number()) == Err::<
                    int,
                    DecodeError,
                >(e),
            },
    {
        match take_uint(input, pos) {
            Err(_) => Err(DecodeError::Malformed { at: pos }),
            Ok((found, end)) => {
                if found == Self::number() {
                    Ok((TypeTag, end))
                } else {
                    Err(DecodeError::TagMismatch { expected: Self::number(), found })
                }
            },
        }
    }
}

/// A tag is its number on the wire.
impl<const N: usize> Encode for TypeTag<N> {
    open spec fn encoding(&self, tagged: bool) -> Result<Seq<u8>, EncodeError> {
        Ok(uint_bytes(Self::spec_number() as nat))
    }

    fn encode(&self, buf: &mut Vec<u8>, tagged: bool) -> (r: Result<(), EncodeError>) {
        put_uint(buf, Self::number());
        Ok(())
    }
}

} // verus!
