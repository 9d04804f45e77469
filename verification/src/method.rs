//! Request methods.

use crate::cbor::{put_uint, take_uint, uint_at, uint_bytes};
use crate::codec::{malformed, DecodeError, Encode, EncodeError};
use vstd::prelude::*;

verus! {

/// Request methods.
#[derive(Debug, Copy, Clone, PartialEq, Eq, Structural)]
#[non_exhaustive]
pub enum Method {
    /// `GET`, code 0.
    Get,
    /// `POST`, code 1.
    Post,
    /// `PUT`, code 2.
    Put,
    /// `DELETE`, code 3.
    Delete,
    /// `PATCH`, code 4.
    Patch,
}

impl Method {
    /// The number that stands for the method on the wire.
    pub open spec fn spec_code(self) -> u64 {
        match self {
            Method::Get => 0,
            Method::Post => 1,
            Method::Put => 2,
            Method::Delete => 3,
            Method::Patch => 4,
        }
    }

    /// The method that a number on the wire stands for, if any.
    pub open spec fn spec_from_code(code: u64) -> Option<Method> {
        if code == 0 {
            Some(Method::Get)
        } else if code == 1 {
            Some(Method::Post)
        } else if code == 2 {
            Some(Method::Put)
        } else if code == 3 {
            Some(Method::Delete)
        } else if code == 4 {
            Some(Method::Patch)
        } else {
            None
        }
    }

    /// The number that stands for the method on the wire.
    #[verifier::when_used_as_spec(spec_code)]
    pub fn code(self) -> (r: u64)
        ensures
            r == self.spec_code(),
    {
        match self {
            Method::Get => 0,
            Method::Post => 1,
            Method::Put => 2,
            Method::Delete => 3,
            Method::Patch => 4,
        }
    }

    /// The method that a number on the wire stands for. A number that stands
    /// for none is no error: a later version of the protocol may use it.
    #[verifier::when_used_as_spec(spec_from_code)]
    pub fn from_code(code: u64) -> (r: Option<Method>)
        ensures
            r == Method::spec_from_code(code),
    {
        match code {
            0 => Some(Method::Get),
            1 => Some(Method::Post),
            2 => Some(Method::Put),
            3 => Some(Method::Delete),
            4 => Some(Method::Patch),
            _ => None,
        }
    }
}

/// Reading a method at `pos`: the method that the unsigned integer there
/// stands for, or none where it stands for none, and the position after it.
pub open spec fn method_at(input: Seq<u8>, pos: int) -> Option<(Option<Method>, int)> {
    match uint_at(input, pos) {
        Some((code, end)) => Some((Method::spec_from_code(code as u64), end)),
        None => None,
    }
}

impl Method {
    /// Reads a method at `pos`: any unsigned integer. Returns the method
    /// that it stands for, or `None` where it stands for none, and the
    /// position after it.
    pub fn decode(input: &[u8], pos: usize) -> (r: Result<(Option<Method>, usize), DecodeError>)
        ensures
            match r {
                Ok((found, end)) => method_at(input@, pos as int) == Some((found, end as int)),
                Err(e) => method_at(input@, pos as int) is None && e == malformed(pos as int),
            },
    {
        match take_uint(input, pos) {
            Ok((code, end)) => Ok((Method::from_code(code), end)),
            Err(_) => Err(DecodeError::Malformed { at: pos }),
        }
    }
}

/// A method is its code on the wire.
impl Encode for Method {
    open spec fn encoding(&self, tagged: bool) -> Result<Seq<u8>, EncodeError> {
        Ok(uint_bytes(self.spec_code() as nat))
    }

    fn encode(&self, buf: &mut Vec<u8>, tagged: bool) -> (r: Result<(), EncodeError>) {
        put_uint(buf, self.code());
        Ok(())
    }
}

/// The code of a method that may be absent.
pub open spec fn method_code(method: Option<Method>) -> Option<u64> {
    match method {
        Some(m) => Some(m.spec_code()),
        None => None,
    }
}

/// The method that a code stands for, where there is a code and it stands
/// for one.
pub open spec fn method_of(code: Option<u64>) -> Option<Method> {
    match code {
        Some(code) => Method::spec_from_code(code),
        None => None,
    }
}

/// Every method is found again from its code, and only a method's own code
/// stands for it.
pub proof fn lemma_method_code(m: Method, code: u64)
    ensures
        Method::spec_from_code(m.spec_code()) == Some(m),
        Method::spec_from_code(code) == Some(m) ==> code == m.spec_code(),
        m.spec_code() <= 4,
{
}

} // verus!
