//! What can be encoded, and what encoding and decoding can fail with.

use crate::cbor::{array_bytes, put_array};
use vstd::prelude::*;

verus! {

/// Why bytes could not be decoded.
#[derive(Debug, Clone, Copy, PartialEq, Eq, Structural)]
pub enum DecodeError {
    /// The bytes at `at` are not the item that has to stand there: the input
    /// ends, the item is of another type, or it is not well formed.
    Malformed { at: usize },
    /// The type tag is that of another type.
    TagMismatch { expected: u64, found: u64 },
    /// The map has no entry for a required field.
    MissingField { index: u64 },
}

/// Why a body could not be encoded.
#[derive(Debug, Clone, PartialEq, Eq)]
pub struct EncodeError {
    /// What the body's encoder reports.
    pub message: String,
}

/// The error for an item at `pos` that cannot be read.
pub open spec fn malformed(pos: int) -> DecodeError {
    DecodeError::Malformed { at: pos as usize }
}

/// A value that can be the body of a message.
///
/// `tagged` says whether envelopes carry their type tag. A value that is no
/// envelope ignores it.
pub trait Encode {
    /// The bytes that stand for the value, or the error that encoding it
    /// ends with. A type that does not say has some encoding of which
    /// nothing is known.
    open spec fn encoding(&self, tagged: bool) -> Result<Seq<u8>, EncodeError> {
        arbitrary()
    }

    /// Appends the value's bytes to `buf`. Where it fails, what `buf` held
    /// before is still there.
    fn encode(&self, buf: &mut Vec<u8>, tagged: bool) -> (r: Result<(), EncodeError>)
        ensures
            match self.encoding(tagged) {
                Ok(bytes) => r is Ok && final(buf)@ == old(buf)@ + bytes,
                Err(e) => r == Err::<(), EncodeError>(e) && old(buf)@.is_prefix_of(final(buf)@),
            },
    ;
}

/// The unit value is an empty array.
impl Encode for () {
    open spec fn encoding(&self, tagged: bool) -> Result<Seq<u8>, EncodeError> {
        Ok(array_bytes(0))
    }

    fn encode(&self, buf: &mut Vec<u8>, tagged: bool) -> (r: Result<(), EncodeError>) {
        put_array(buf, 0);
        Ok(())
    }
}

/// The bytes of a message: the header's, and then the body's where there is
/// a body. Where the body cannot be encoded, its error.
pub open spec fn message_bytes<T: Encode>(header: Seq<u8>, body: Option<T>, tagged: bool) -> Result<
    Seq<u8>,
    EncodeError,
> {
    match body {
        None => Ok(header),
        Some(b) => match b.encoding(tagged) {
            Ok(bytes) => Ok(header + bytes),
            Err(e) => Err(e),
        },
    }
}

} // verus!
