//! A compact, HTTP-shaped request/response envelope carried as CBOR maps.
//!
//! A message on the wire is a header, [`Request`] or [`Response`], followed
//! by an optional body that is encoded on its own. [`Error`] is the body of
//! a failure response. A header says whether a body follows, and not how
//! long it is or of what type: the two ends agree on that by path and
//! method.
//!
//! Every envelope can carry a type tag, a number under key 0 that names its
//! type. Whether tags are in use is the `tagged` argument of every encoder
//! and decoder. A writer with tags writes the tag. A reader with tags
//! refuses an envelope whose tag is that of another type, and accepts one
//! without a tag. A reader without tags skips key 0 like any key that it
//! does not know.
//!
//! What the encoders write and what the decoders accept is stated over the
//! bytes, in [`cbor`] for the items and in [`record`] for the maps, and
//! `lemma_request_round_trip` and its kin prove that what was written is
//! read back.

pub mod cbor;
pub mod codec;
pub mod cow;
pub mod error;
pub mod id;
pub mod method;
pub mod record;
pub mod request;
pub mod response;
pub mod segments;
pub mod status;
pub mod tag;

pub use codec::{DecodeError, Encode, EncodeError};
pub use cow::{CowBytes, CowStr};
pub use error::Error;
pub use id::Id;
pub use method::Method;
pub use request::{Request, RequestBuilder};
pub use response::{Response, ResponseBuilder};
pub use segments::Segments;
pub use status::Status;
pub use tag::TypeTag;

use vstd::prelude::*;

verus! {

/// The envelopes in CDDL.
pub const SCHEMA: &'static str = "
    request  = { ?0: 7586022, 1: id, 2: path, ?3: method, 4: has_body }
    response = { ?0: 9750358, 1: id, 2: re, ?3: status, 4: has_body }
    error    = { ?0: 5359172, 1: path, ?2: method, ?3: message }
    id       = uint
    re       = uint
    path     = text
    method   = 0   ;; GET
             / 1   ;; POST
             / 2   ;; PUT
             / 3   ;; DELETE
             / 4   ;; PATCH
    status   = 200 ;; OK
             / 400 ;; Bad request
             / 401 ;; Unauthorized
             / 404 ;; Not found
             / 405 ;; Method not allowed
             / 500 ;; Internal server error
             / 501 ;; Not implemented
    message  = text
    has_body = bool
";

} // verus!
