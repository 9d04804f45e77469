//! The response header, and the builder that joins it with a body.

use crate::cbor::map_bytes;
use crate::codec::{message_bytes, DecodeError, Encode, EncodeError};
use crate::id::Id;
use crate::record::{
    agrees, begin_record, lemma_fits_push, lemma_kept_push, lemma_record_written,
    lemma_wrong_tag, put_entry, read_record, record_at, record_bytes, Datum, Entry, Field, Kind,
    Slots,
};
use crate::status::{lemma_status_code, status_code, status_of, Status};
use vstd::prelude::*;

verus! {

/// The response header.
#[derive(Debug)]
pub struct Response {
    /// The response identifier.
    id: Id,
    /// The identifier of the request that this response answers.
    re: Id,
    /// A status code. `None` where the header was decoded and its status is
    /// one that this version does not know.
    status: Option<Status>,
    /// Whether a response body follows the header.
    has_body: bool,
}

/// What a response header holds.
pub struct ResponseView {
    pub id: u32,
    pub re: u32,
    pub status: Option<Status>,
    pub has_body: bool,
}

impl View for Response {
    type V = ResponseView;

    closed spec fn view(&self) -> ResponseView {
        ResponseView { id: self.id@, re: self.re@, status: self.status, has_body: self.has_body }
    }
}

/// The entries of a response on the wire, in their order: the tag under key
/// 0 where tags are in use, the identifier under 1, the identifier of the
/// request under 2, the code of the status under 3 where there is one, and
/// under 4 whether a body follows.
pub open spec fn response_fields(
    id: u32,
    re: u32,
    code: Option<u64>,
    has_body: bool,
    tagged: bool,
) -> Seq<Entry> {
    let tag = if tagged {
        seq![Entry { key: 0, value: Datum::Number(Kind::Response.spec_tag()) }]
    } else {
        Seq::empty()
    };
    let fixed = tag.push(Entry { key: 1, value: Datum::Number(id as u64) }).push(
        Entry { key: 2, value: Datum::Number(re as u64) },
    );
    let known = match code {
        Some(code) => fixed.push(Entry { key: 3, value: Datum::Number(code) }),
        None => fixed,
    };
    known.push(Entry { key: 4, value: Datum::Flag(has_body) })
}

/// The entries of a response header on the wire.
pub open spec fn response_entries(v: ResponseView, tagged: bool) -> Seq<Entry> {
    response_fields(v.id, v.re, status_code(v.status), v.has_body, tagged)
}

/// The bytes of a response header.
pub open spec fn response_bytes(v: ResponseView, tagged: bool) -> Seq<u8> {
    record_bytes(response_entries(v, tagged))
}

/// The response header that a reader has kept, or the first required field
/// that it has not seen. A status code that stands for no status gives a
/// header without a status.
pub open spec fn response_of(slots: Slots) -> Result<ResponseView, DecodeError> {
    match slots.s1 {
        Some(Datum::Number(id)) => match slots.s2 {
            Some(Datum::Number(re)) => match slots.s4 {
                Some(Datum::Flag(has_body)) => Ok(
                    ResponseView {
                        id: id as u32,
                        re: re as u32,
                        status: match slots.s3 {
                            Some(Datum::Number(code)) => Status::spec_from_code(code),
                            _ => None,
                        },
                        has_body,
                    },
                ),
                _ => Err(DecodeError::MissingField { index: 4 }),
            },
            _ => Err(DecodeError::MissingField { index: 2 }),
        },
        _ => Err(DecodeError::MissingField { index: 1 }),
    }
}

/// Reading a response header at `pos`: the header and the position after
/// it, or the error.
pub open spec fn response_at(input: Seq<u8>, pos: int, tagged: bool) -> Result<
    (ResponseView, int),
    DecodeError,
> {
    match record_at(input, pos, Kind::Response, tagged) {
        Ok((slots, end)) => match response_of(slots) {
            Ok(v) => Ok((v, end)),
            Err(e) => Err(e),
        },
        Err(e) => Err(e),
    }
}

impl Clone for Response {
    fn clone(&self) -> (r: Self)
        ensures
            r@ == self@,
    {
        Response { id: self.id, re: self.re, status: self.status, has_body: self.has_body }
    }
}

impl Response {
    /// A header with the given identifier, in answer to the request `re`.
    pub fn with_id(id: Id, re: Id, status: Status, has_body: bool) -> (r: Self)
        ensures
            r@ == (ResponseView { id: id@, re: re@, status: Some(status), has_body }),
    {
        Response { id, re, status: Some(status), has_body }
    }

    /// A header with a fresh identifier, in answer to the request `re`:
    /// `with_id` on an identifier that is drawn at random.
    pub fn new(re: Id, status: Status, has_body: bool) -> (r: Self)
        ensures
            r@.re == re@,
            r@.status == Some(status),
            r@.has_body == has_body,
    {
        Self::with_id(Id::fresh(), re, status, has_body)
    }

    /// A builder for a response without a body, in answer to the request
    /// `re`.
    pub fn builder(re: Id, status: Status) -> (r: ResponseBuilder)
        ensures
            r.spec_header()@.re == re@,
            r.spec_header()@.status == Some(status),
            !r.spec_header()@.has_body,
            r.spec_body() is None,
    {
        ResponseBuilder { header: Response::new(re, status, false), body: None }
    }

    /// A builder for a response that the request was carried out.
    pub fn ok(re: Id) -> (r: ResponseBuilder)
        ensures
            r.spec_header()@.re == re@,
            r.spec_header()@.status == Some(Status::Okay),
            !r.spec_header()@.has_body,
            r.spec_body() is None,
    {
        Response::builder(re, Status::Okay)
    }

    /// A builder for a response that the request was not understood.
    pub fn bad_request(re: Id) -> (r: ResponseBuilder)
        ensures
            r.spec_header()@.re == re@,
            r.spec_header()@.status == Some(Status::BadRequest),
            !r.spec_header()@.has_body,
            r.spec_body() is None,
    {
        Response::builder(re, Status::BadRequest)
    }

    /// A builder for a response that there is nothing under the path.
    pub fn not_found(re: Id) -> (r: ResponseBuilder)
        ensures
            r.spec_header()@.re == re@,
            r.spec_header()@.status == Some(Status::NotFound),
            !r.spec_header()@.has_body,
            r.spec_body() is None,
    {
        Response::builder(re, Status::NotFound)
    }

    /// A builder for a response that the request is not supported.
    pub fn not_implemented(re: Id) -> (r: ResponseBuilder)
        ensures
            r.spec_header()@.re == re@,
            r.spec_header()@.status == Some(Status::NotImplemented),
            !r.spec_header()@.has_body,
            r.spec_body() is None,
    {
        Response::builder(re, Status::NotImplemented)
    }

    /// The response identifier.
    pub fn id(&self) -> (r: Id)
        ensures
            r@ == self@.id,
    {
        self.id
    }

    /// The identifier of the request that this response answers.
    pub fn re(&self) -> (r: Id)
        ensures
            r@ == self@.re,
    {
        self.re
    }

    /// The status code.
    pub fn status(&self) -> (r: Option<Status>)
        ensures
            r == self@.status,
    {
        self.status
    }

    /// Whether a response body follows the header.
    pub fn has_body(&self) -> (r: bool)
        ensures
            r == self@.has_body,
    {
        self.has_body
    }

    /// Reads a response header at `pos`. Returns the header and the position
    /// after it.
    ///
    /// The map may come with a count or closed by a break. Entries under
    /// keys that a response does not have are skipped. With `tagged`, a type
    /// tag that is present must be that of a response; without, key 0 is a
    /// key like any other that a response does not have. A tag that is
    /// absent is no error.
    pub fn decode(input: &[u8], pos: usize, tagged: bool) -> (r: Result<
        (Response, usize),
        DecodeError,
    >)
        ensures
            agrees(r, response_at(input@, pos as int, tagged)),
    {
        let (record, end) = match read_record(input, pos, Kind::Response, tagged) {
            Ok(read) => read,
            Err(e) => return Err(e),
        };
        let id = match record.s1 {
            Some(Field::Number(id)) => Id::new(id as u32),
            _ => return Err(DecodeError::MissingField { index: 1 }),
        };
        let re = match record.s2 {
            Some(Field::Number(re)) => Id::new(re as u32),
            _ => return Err(DecodeError::MissingField { index: 2 }),
        };
        let has_body = match record.s4 {
            Some(Field::Flag(has_body)) => has_body,
            _ => return Err(DecodeError::MissingField { index: 4 }),
        };
        let status = match record.s3 {
            Some(Field::Number(code)) => Status::from_code(code),
            _ => None,
        };
        Ok((Response { id, re, status, has_body }, end))
    }
}

impl Encode for Response {
    open spec fn encoding(&self, tagged: bool) -> Result<Seq<u8>, EncodeError> {
        Ok(response_bytes(self@, tagged))
    }

    /// Appends the header as a map with a count. It cannot fail.
    fn encode(&self, buf: &mut Vec<u8>, tagged: bool) -> (r: Result<(), EncodeError>) {
        let ghost start = buf@;
        let tags: u64 = if tagged {
            1
        } else {
            0
        };
        let statuses: u64 = if self.status.is_some() {
            1
        } else {
            0
        };
        let count: u64 = 3 + tags + statuses;
        begin_record(buf, count);
        let ghost before = start + map_bytes(count as nat);
        let ghost mut entries = Seq::<Entry>::empty();
        if tagged {
            let field = Field::Number(Kind::Response.tag());
            put_entry(buf, 0, field, Ghost(before), Ghost(entries));
            proof {
                entries = entries.push(Entry { key: 0, value: field@ });
                assert(entries =~= seq![
                    Entry { key: 0, value: Datum::Number(Kind::Response.spec_tag()) },
                ]);
            }
        }
        let field = Field::Number(u32::from(self.id) as u64);
        put_entry(buf, 1, field, Ghost(before), Ghost(entries));
        proof {
            entries = entries.push(Entry { key: 1, value: field@ });
        }
        let field = Field::Number(u32::from(self.re) as u64);
        put_entry(buf, 2, field, Ghost(before), Ghost(entries));
        proof {
            entries = entries.push(Entry { key: 2, value: field@ });
        }
        if let Some(status) = self.status {
            let field = Field::Number(status.code());
            put_entry(buf, 3, field, Ghost(before), Ghost(entries));
            proof {
                entries = entries.push(Entry { key: 3, value: field@ });
            }
        }
        let field = Field::Flag(self.has_body);
        put_entry(buf, 4, field, Ghost(before), Ghost(entries));
        proof {
            entries = entries.push(Entry { key: 4, value: field@ });
            assert(entries == response_entries(self@, tagged));
            assert(buf@ =~= start + response_bytes(self@, tagged));
        }
        Ok(())
    }
}

/// Whatever number stands under the key of the status, the header is read:
/// its status is the one that the number stands for, or none where the
/// number stands for no status, and the other fields are as they were
/// written. This holds whether or not the writer used tags and whether or
/// not the reader looks for them.
pub proof fn lemma_response_any_status_code(
    id: u32,
    re: u32,
    code: Option<u64>,
    has_body: bool,
    written_tagged: bool,
    read_tagged: bool,
    input: Seq<u8>,
    pos: int,
)
    requires
        0 <= pos,
        pos + record_bytes(response_fields(id, re, code, has_body, written_tagged)).len()
            <= input.len(),
        input.subrange(
            pos,
            pos + record_bytes(response_fields(id, re, code, has_body, written_tagged)).len(),
        ) == record_bytes(response_fields(id, re, code, has_body, written_tagged)),
    ensures
        response_at(input, pos, read_tagged) == Ok::<(ResponseView, int), DecodeError>(
            (
                ResponseView { id, re, status: status_of(code), has_body },
                pos + record_bytes(
                    response_fields(id, re, code, has_body, written_tagged),
                ).len(),
            ),
        ),
{
    let kind = Kind::Response;
    let tag = if written_tagged {
        seq![Entry { key: 0, value: Datum::Number(kind.spec_tag()) }]
    } else {
        Seq::empty()
    };
    let e0 = Entry { key: 0, value: Datum::Number(kind.spec_tag()) };
    let e1 = Entry { key: 1, value: Datum::Number(id as u64) };
    let e2 = Entry { key: 2, value: Datum::Number(re as u64) };
    let e4 = Entry { key: 4, value: Datum::Flag(has_body) };
    let none = Seq::<Entry>::empty();
    if written_tagged {
        assert(tag =~= none.push(e0));
        lemma_fits_push(none, e0, kind, read_tagged);
        lemma_kept_push(Slots::empty(), none, e0, kind, read_tagged);
    }
    let a = tag.push(e1);
    lemma_fits_push(tag, e1, kind, read_tagged);
    lemma_kept_push(Slots::empty(), tag, e1, kind, read_tagged);
    let b = a.push(e2);
    lemma_fits_push(a, e2, kind, read_tagged);
    lemma_kept_push(Slots::empty(), a, e2, kind, read_tagged);
    let c = match code {
        Some(code) => b.push(Entry { key: 3, value: Datum::Number(code) }),
        None => b,
    };
    if let Some(code) = code {
        let e3 = Entry { key: 3, value: Datum::Number(code) };
        lemma_fits_push(b, e3, kind, read_tagged);
        lemma_kept_push(Slots::empty(), b, e3, kind, read_tagged);
    }
    let d = c.push(e4);
    lemma_fits_push(c, e4, kind, read_tagged);
    lemma_kept_push(Slots::empty(), c, e4, kind, read_tagged);
    assert(d == response_fields(id, re, code, has_body, written_tagged));
    lemma_record_written(input, pos, d, kind, read_tagged);
}

/// A response that was written is read back, whether or not the writer used
/// tags and whether or not the reader looks for them: reading at the place
/// where the header's bytes stand gives the header, field for field, and the
/// position after them.
pub proof fn lemma_response_round_trip(
    v: ResponseView,
    written_tagged: bool,
    read_tagged: bool,
    input: Seq<u8>,
    pos: int,
)
    requires
        0 <= pos,
        pos + response_bytes(v, written_tagged).len() <= input.len(),
        input.subrange(pos, pos + response_bytes(v, written_tagged).len()) == response_bytes(
            v,
            written_tagged,
        ),
    ensures
        response_at(input, pos, read_tagged) == Ok::<(ResponseView, int), DecodeError>(
            (v, pos + response_bytes(v, written_tagged).len()),
        ),
{
    if let Some(s) = v.status {
        lemma_status_code(s, 0);
    }
    lemma_response_any_status_code(
        v.id,
        v.re,
        status_code(v.status),
        v.has_body,
        written_tagged,
        read_tagged,
        input,
        pos,
    );
}

/// Bytes that start with the tag of another type are no response: a reader
/// that looks for tags refuses them with the tag that it found.
pub proof fn lemma_response_wrong_tag(input: Seq<u8>, pos: int, entries: Seq<Entry>)
    requires
        0 < entries.len() <= u64::MAX,
        entries[0].key == 0,
        entries[0].value is Number,
        entries[0].value->Number_0 != Kind::Response.spec_tag(),
        0 <= pos,
        pos + record_bytes(entries).len() <= input.len(),
        input.subrange(pos, pos + record_bytes(entries).len()) == record_bytes(entries),
    ensures
        response_at(input, pos, true) == Err::<(ResponseView, int), DecodeError>(
            DecodeError::TagMismatch {
                expected: Kind::Response.spec_tag(),
                found: entries[0].value->Number_0,
            },
        ),
{
    lemma_wrong_tag(input, pos, entries, Kind::Response);
}

/// A response header together with the body that goes with it.
#[derive(Debug)]
pub struct ResponseBuilder<T = ()> {
    header: Response,
    body: Option<T>,
}

impl<T> ResponseBuilder<T> {
    /// The header says that a body follows exactly where the builder has
    /// one.
    #[verifier::type_invariant]
    spec fn inv(self) -> bool {
        self.header.has_body == (self.body is Some)
    }

    /// The header.
    pub closed spec fn spec_header(&self) -> Response {
        self.header
    }

    /// The body.
    pub closed spec fn spec_body(&self) -> Option<T> {
        self.body
    }

    /// Replaces the identifier.
    pub fn id(self, id: Id) -> (r: Self)
        ensures
            r.spec_header()@ == (ResponseView { id: id@, ..self.spec_header()@ }),
            r.spec_body() == self.spec_body(),
    {
        proof {
            use_type_invariant(&self);
        }
        let mut b = self;
        b.header.id = id;
        b
    }

    /// Replaces the identifier of the request that is answered.
    pub fn re(self, re: Id) -> (r: Self)
        ensures
            r.spec_header()@ == (ResponseView { re: re@, ..self.spec_header()@ }),
            r.spec_body() == self.spec_body(),
    {
        proof {
            use_type_invariant(&self);
        }
        let mut b = self;
        b.header.re = re;
        b
    }

    /// Replaces the status.
    pub fn status(self, s: Status) -> (r: Self)
        ensures
            r.spec_header()@ == (ResponseView { status: Some(s), ..self.spec_header()@ }),
            r.spec_body() == self.spec_body(),
    {
        proof {
            use_type_invariant(&self);
        }
        let mut b = self;
        b.header.status = Some(s);
        b
    }

    /// The header. It says that a body follows exactly where the builder
    /// has one.
    pub fn header(&self) -> (r: &Response)
        ensures
            *r == self.spec_header(),
            r@.has_body == (self.spec_body() is Some),
    {
        proof {
            use_type_invariant(self);
        }
        &self.header
    }

    /// The header and the body.
    pub fn into_parts(self) -> (r: (Response, Option<T>))
        ensures
            r.0 == self.spec_header(),
            r.1 == self.spec_body(),
            r.0@.has_body == (r.1 is Some),
    {
        proof {
            use_type_invariant(&self);
        }
        (self.header, self.body)
    }
}

impl ResponseBuilder<()> {
    /// Gives the response a body. From then on the header says that a body
    /// follows.
    pub fn body<T: Encode>(self, b: T) -> (r: ResponseBuilder<T>)
        ensures
            r.spec_header()@ == (ResponseView { has_body: true, ..self.spec_header()@ }),
            r.spec_body() == Some(b),
    {
        let mut header = self.header;
        header.has_body = true;
        ResponseBuilder { header, body: Some(b) }
    }
}

impl<T: Encode> ResponseBuilder<T> {
    /// Appends the header and then, where there is a body, the body. A
    /// builder without a body appends the header and nothing else.
    ///
    /// It fails only where the body's encoder fails, with the body's error.
    /// The header is in `buf` by then.
    pub fn encode(&self, buf: &mut Vec<u8>, tagged: bool) -> (r: Result<(), EncodeError>)
        ensures
            self.spec_header()@.has_body == (self.spec_body() is Some),
            match message_bytes(
                response_bytes(self.spec_header()@, tagged),
                self.spec_body(),
                tagged,
            ) {
                Ok(bytes) => r is Ok && final(buf)@ == old(buf)@ + bytes,
                Err(e) => r == Err::<(), EncodeError>(e) && (old(buf)@ + response_bytes(
                    self.spec_header()@,
                    tagged,
                )).is_prefix_of(final(buf)@),
            },
    {
        proof {
            use_type_invariant(self);
        }
        let _ = self.header.encode(buf, tagged);
        match &self.body {
            None => Ok(()),
            Some(b) => {
                let r = b.encode(buf, tagged);
                proof {
                    if let Ok(bytes) = b.encoding(tagged) {
                        assert(buf@ =~= old(buf)@ + (response_bytes(self.spec_header()@, tagged)
                            + bytes));
                    }
                }
                r
            },
        }
    }
}

} // verus!
