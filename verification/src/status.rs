//! Response status codes.

use crate::cbor::{put_uint, take_uint, uint_at, uint_bytes};
use crate::codec::{malformed, DecodeError, Encode, EncodeError};
use vstd::prelude::*;

verus! {

/// The response status codes.
#[derive(Debug, Copy, Clone, PartialEq, Eq, PartialOrd, Ord, Hash, Structural)]
#[non_exhaustive]
pub enum Status {
    /// The request was carried out, code 200.
    Okay,
    /// The request was not understood, code 400.
    BadRequest,
    /// The sender may not do this, code 401.
    Unauthorized,
    /// There is nothing under the path, code 404.
    NotFound,
    /// The path does not take this method, code 405.
    MethodNotAllowed,
    /// The receiver failed, code 500.
    InternalServerError,
    /// The receiver does not support the request, code 501.
    NotImplemented,
}

impl Status {
    /// The number that stands for the status on the wire.
    pub open spec fn spec_code(self) -> u64 {
        match self {
            Status::Okay => 200,
            Status::BadRequest => 400,
            Status::Unauthorized => 401,
            Status::NotFound => 404,
            Status::MethodNotAllowed => 405,
            Status::InternalServerError => 500,
            Status::NotImplemented => 501,
        }
    }

    /// The status that a number on the wire stands for, if any.
    pub open spec fn spec_from_code(code: u64) -> Option<Status> {
        if code == 200 {
            Some(Status::Okay)
        } else if code == 400 {
            Some(Status::BadRequest)
        } else if code == 401 {
            Some(Status::Unauthorized)
        } else if code == 404 {
            Some(Status::NotFound)
        } else if code == 405 {
            Some(Status::MethodNotAllowed)
        } else if code == 500 {
            Some(Status::InternalServerError)
        } else if code == 501 {
            Some(Status::NotImplemented)
        } else {
            None
        }
    }

    /// The number that stands for the status on the wire.
    #[verifier::when_used_as_spec(spec_code)]
    pub fn code(self) -> (r: u64)
        ensures
            r == self.spec_code(),
    {
        match self {
            Status::Okay => 200,
            Status::BadRequest => 400,
            Status::Unauthorized => 401,
            Status::NotFound => 404,
            Status::MethodNotAllowed => 405,
            Status::InternalServerError => 500,
            Status::NotImplemented => 501,
        }
    }

    /// The status that a number on the wire stands for. A number that stands
    /// for none is no error: a later version of the protocol may use it.
    #[verifier::when_used_as_spec(spec_from_code)]
    pub fn from_code(code: u64) -> (r: Option<Status>)
        ensures
            r == Status::spec_from_code(code),
    {
        match code {
            200 => Some(Status::Okay),
            400 => Some(Status::BadRequest),
            401 => Some(Status::Unauthorized),
            404 => Some(Status::NotFound),
            405 => Some(Status::MethodNotAllowed),
            500 => Some(Status::InternalServerError),
            501 => Some(Status::NotImplemented),
            _ => None,
        }
    }
}

/// Reading a status at `pos`: the status that the unsigned integer there
/// stands for, or none where it stands for none, and the position after it.
pub open spec fn status_at(input: Seq<u8>, pos: int) -> Option<(Option<Status>, int)> {
    match uint_at(input, pos) {
        Some((code, end)) => Some((Status::spec_from_code(code as u64), end)),
        None => None,
    }
}

impl Status {
    /// Reads a status at `pos`: any unsigned integer. Returns the status
    /// that it stands for, or `None` where it stands for none, and the
    /// position after it.
    pub fn decode(input: &[u8], pos: usize) -> (r: Result<(Option<Status>, usize), DecodeError>)
        ensures
            match r {
                Ok((found, end)) => status_at(input@, pos as int) == Some((found, end as int)),
                Err(e) => status_at(input@, pos as int) is None && e == malformed(pos as int),
            },
    {
        match take_uint(input, pos) {
            Ok((code, end)) => Ok((Status::from_code(code), end)),
            Err(_) => Err(DecodeError::Malformed { at: pos }),
        }
    }
}

/// A status is its code on the wire.
impl Encode for Status {
    open spec fn encoding(&self, tagged: bool) -> Result<Seq<u8>, EncodeError> {
        Ok(uint_bytes(self.spec_code() as nat))
    }

    fn encode(&self, buf: &mut Vec<u8>, tagged: bool) -> (r: Result<(), EncodeError>) {
        put_uint(buf, self.code());
        Ok(())
    }
}

/// The code of a status that may be absent.
pub open spec fn status_code(status: Option<Status>) -> Option<u64> {
    match status {
        Some(s) => Some(s.spec_code()),
        None => None,
    }
}

/// The status that a code stands for, where there is a code and it stands
/// for one.
pub open spec fn status_of(code: Option<u64>) -> Option<Status> {
    match code {
        Some(code) => Status::spec_from_code(code),
        None => None,
    }
}

/// Every status is found again from its code, and only a status's own code
/// stands for it.
pub proof fn lemma_status_code(s: Status, code: u64)
    ensures
        Status::spec_from_code(s.spec_code()) == Some(s),
        Status::spec_from_code(code) == Some(s) ==> code == s.spec_code(),
        200 <= s.spec_code() <= 501,
{
}

} // verus!
