//! The request header, and the builder that joins it with a body.

use crate::codec::{message_bytes, DecodeError, Encode, EncodeError};
use crate::cow::CowStr;
use crate::id::Id;
use crate::method::{lemma_method_code, method_code, method_of, Method};
use crate::record::{
    agrees, begin_record, lemma_fits_push, lemma_kept_push, lemma_record_written,
    lemma_wrong_tag, put_entry, read_record, record_at, record_bytes, Datum, Entry, Field, Kind,
    Slots,
};
use crate::cbor::map_bytes;
use crate::segments::{segments_of, Segments};
use ockam_core::compat::borrow::Cow;
use vstd::prelude::*;
use vstd::std_specs::convert::IntoSpec;
use vstd::utf8::encode_utf8;

verus! {

/// A request header.
#[derive(Debug)]
pub struct Request<'a> {
    /// The request identifier.
    id: Id,
    /// The resource path.
    path: Cow<'a, str>,
    /// The request method. `None` where the header was decoded and its
    /// method is one that this version does not know.
    method: Option<Method>,
    /// Whether a request body follows the header.
    has_body: bool,
}

/// What a request header holds.
pub struct RequestView {
    pub id: u32,
    pub path: Seq<char>,
    pub method: Option<Method>,
    pub has_body: bool,
}

impl<'a> View for Request<'a> {
    type V = RequestView;

    closed spec fn view(&self) -> RequestView {
        RequestView {
            id: self.id@,
            path: self.path@,
            method: self.method,
            has_body: self.has_body,
        }
    }
}

/// The entries of a request on the wire, in their order: the tag under key 0
/// where tags are in use, the identifier under 1, the path under 2, the
/// code of the method under 3 where there is one, and under 4 whether a body
/// follows.
pub open spec fn request_fields(
    id: u32,
    path: Seq<char>,
    code: Option<u64>,
    has_body: bool,
    tagged: bool,
) -> Seq<Entry> {
    let tag = if tagged {
        seq![Entry { key: 0, value: Datum::Number(Kind::Request.spec_tag()) }]
    } else {
        Seq::empty()
    };
    let fixed = tag.push(Entry { key: 1, value: Datum::Number(id as u64) }).push(
        Entry { key: 2, value: Datum::Text(path) },
    );
    let known = match code {
        Some(code) => fixed.push(Entry { key: 3, value: Datum::Number(code) }),
        None => fixed,
    };
    known.push(Entry { key: 4, value: Datum::Flag(has_body) })
}

/// The entries of a request header on the wire.
pub open spec fn request_entries(v: RequestView, tagged: bool) -> Seq<Entry> {
    request_fields(v.id, v.path, method_code(v.method), v.has_body, tagged)
}

/// The bytes of a request header.
pub open spec fn request_bytes(v: RequestView, tagged: bool) -> Seq<u8> {
    record_bytes(request_entries(v, tagged))
}

/// The request header that a reader has kept, or the first required field
/// that it has not seen. A method code that stands for no method gives a
/// header without a method.
pub open spec fn request_of(slots: Slots) -> Result<RequestView, DecodeError> {
    match slots.s1 {
        Some(Datum::Number(id)) => match slots.s2 {
            Some(Datum::Text(path)) => match slots.s4 {
                Some(Datum::Flag(has_body)) => Ok(
                    RequestView {
                        id: id as u32,
                        path,
                        method: match slots.s3 {
                            Some(Datum::Number(code)) => Method::spec_from_code(code),
                            _ => None,
                        },
                        has_body,
                    },
                ),
                _ => Err(DecodeError::MissingField { index: 4 }),
            },
            _ => Err(DecodeError::MissingField { index: 2 }),
        },
        _ => Err(DecodeError::MissingField { index: 1 }),
    }
}

/// Reading a request header at `pos`: the header and the position after it,
/// or the error.
pub open spec fn request_at(input: Seq<u8>, pos: int, tagged: bool) -> Result<
    (RequestView, int),
    DecodeError,
> {
    match record_at(input, pos, Kind::Request, tagged) {
        Ok((slots, end)) => match request_of(slots) {
            Ok(v) => Ok((v, end)),
            Err(e) => Err(e),
        },
        Err(e) => Err(e),
    }
}

impl<'a> Clone for Request<'a> {
    fn clone(&self) -> (r: Self)
        ensures
            r@ == self@,
    {
        Request {
            id: self.id,
            path: match &self.path {
                Cow::Borrowed(path) => Cow::Borrowed(path),
                Cow::Owned(path) => Cow::Owned(path.clone()),
            },
            method: self.method,
            has_body: self.has_body,
        }
    }
}

impl<'a> Request<'a> {
    /// A header with the given identifier.
    pub fn with_id<P: Into<CowStr<'a>>>(id: Id, method: Method, path: P, has_body: bool) -> (r:
        Self)
        ensures
            r@.id == id@,
            r@.method == Some(method),
            r@.has_body == has_body,
            P::obeys_into_spec() ==> r@.path == path.into_spec()@,
    {
        let path: CowStr<'a> = path.into();
        Request { id, path: path.0, method: Some(method), has_body }
    }

    /// A header with a fresh identifier: `with_id` on an identifier that is
    /// drawn at random.
    pub fn new<P: Into<CowStr<'a>>>(method: Method, path: P, has_body: bool) -> (r: Self)
        ensures
            r@.method == Some(method),
            r@.has_body == has_body,
            P::obeys_into_spec() ==> r@.path == path.into_spec()@,
    {
        Self::with_id(Id::fresh(), method, path, has_body)
    }

    /// A builder for a request without a body.
    pub fn builder<P: Into<CowStr<'a>>>(method: Method, path: P) -> (r: RequestBuilder<'a>)
        ensures
            r.spec_header()@.method == Some(method),
            !r.spec_header()@.has_body,
            P::obeys_into_spec() ==> r.spec_header()@.path == path.into_spec()@,
            r.spec_body() is None,
    {
        RequestBuilder { header: Request::new(method, path, false), body: None }
    }

    /// A builder for a `GET` request.
    pub fn get<P: Into<CowStr<'a>>>(path: P) -> (r: RequestBuilder<'a>)
        ensures
            r.spec_header()@.method == Some(Method::Get),
            !r.spec_header()@.has_body,
            P::obeys_into_spec() ==> r.spec_header()@.path == path.into_spec()@,
            r.spec_body() is None,
    {
        Request::builder(Method::Get, path)
    }

    /// A builder for a `POST` request.
    pub fn post<P: Into<CowStr<'a>>>(path: P) -> (r: RequestBuilder<'a>)
        ensures
            r.spec_header()@.method == Some(Method::Post),
            !r.spec_header()@.has_body,
            P::obeys_into_spec() ==> r.spec_header()@.path == path.into_spec()@,
            r.spec_body() is None,
    {
        Request::builder(Method::Post, path)
    }

    /// A builder for a `PUT` request.
    pub fn put<P: Into<CowStr<'a>>>(path: P) -> (r: RequestBuilder<'a>)
        ensures
            r.spec_header()@.method == Some(Method::Put),
            !r.spec_header()@.has_body,
            P::obeys_into_spec() ==> r.spec_header()@.path == path.into_spec()@,
            r.spec_body() is None,
    {
        Request::builder(Method::Put, path)
    }

    /// A builder for a `DELETE` request.
    pub fn delete<P: Into<CowStr<'a>>>(path: P) -> (r: RequestBuilder<'a>)
        ensures
            r.spec_header()@.method == Some(Method::Delete),
            !r.spec_header()@.has_body,
            P::obeys_into_spec() ==> r.spec_header()@.path == path.into_spec()@,
            r.spec_body() is None,
    {
        Request::builder(Method::Delete, path)
    }

    /// A builder for a `PATCH` request.
    pub fn patch<P: Into<CowStr<'a>>>(path: P) -> (r: RequestBuilder<'a>)
        ensures
            r.spec_header()@.method == Some(Method::Patch),
            !r.spec_header()@.has_body,
            P::obeys_into_spec() ==> r.spec_header()@.path == path.into_spec()@,
            r.spec_body() is None,
    {
        Request::builder(Method::Patch, path)
    }

    /// The request identifier.
    pub fn id(&self) -> (r: Id)
        ensures
            r@ == self@.id,
    {
        self.id
    }

    /// The resource path.
    pub fn path(&self) -> (r: &str)
        ensures
            r@ == self@.path,
    {
        match &self.path {
            Cow::Borrowed(path) => path,
            Cow::Owned(path) => path.as_str(),
        }
    }

    /// The path, cut into at most `N` segments.
    pub fn path_segments<const N: usize>(&self) -> (r: Segments<'_, N>)
        ensures
            r@ == segments_of(self@.path, N as nat),
    {
        Segments::parse(self.path())
    }

    /// The request method.
    pub fn method(&self) -> (r: Option<Method>)
        ensures
            r == self@.method,
    {
        self.method
    }

    /// Whether a request body follows the header.
    pub fn has_body(&self) -> (r: bool)
        ensures
            r == self@.has_body,
    {
        self.has_body
    }

    /// Whether the path is borrowed.
    pub closed spec fn borrows(&self) -> bool {
        self.path is Borrowed
    }

    /// Reads a request header at `pos`. Returns the header, whose path
    /// borrows from the input, and the position after it.
    ///
    /// The map may come with a count or closed by a break. Entries under
    /// keys that a request does not have are skipped. With `tagged`, a type
    /// tag that is present must be that of a request; without, key 0 is a
    /// key like any other that a request does not have. A tag that is absent
    /// is no error.
    pub fn decode(input: &'a [u8], pos: usize, tagged: bool) -> (r: Result<
        (Request<'a>, usize),
        DecodeError,
    >)
        ensures
            agrees(r, request_at(input@, pos as int, tagged)),
            r matches Ok((header, _)) ==> header.borrows(),
    {
        let (record, end) = match read_record(input, pos, Kind::Request, tagged) {
            Ok(read) => read,
            Err(e) => return Err(e),
        };
        let id = match record.s1 {
            Some(Field::Number(id)) => Id::new(id as u32),
            _ => return Err(DecodeError::MissingField { index: 1 }),
        };
        let path = match record.s2 {
            Some(Field::Text(path)) => Cow::Borrowed(path),
            _ => return Err(DecodeError::MissingField { index: 2 }),
        };
        let has_body = match record.s4 {
            Some(Field::Flag(has_body)) => has_body,
            _ => return Err(DecodeError::MissingField { index: 4 }),
        };
        let method = match record.s3 {
            Some(Field::Number(code)) => Method::from_code(code),
            _ => None,
        };
        Ok((Request { id, path, method, has_body }, end))
    }
}

impl<'a> Encode for Request<'a> {
    open spec fn encoding(&self, tagged: bool) -> Result<Seq<u8>, EncodeError> {
        Ok(request_bytes(self@, tagged))
    }

    /// Appends the header as a map with a count. It cannot fail.
    fn encode(&self, buf: &mut Vec<u8>, tagged: bool) -> (r: Result<(), EncodeError>) {
        let ghost start = buf@;
        let tags: u64 = if tagged {
            1
        } else {
            0
        };
        let methods: u64 = if self.method.is_some() {
            1
        } else {
            0
        };
        let count: u64 = 3 + tags + methods;
        begin_record(buf, count);
        let ghost before = start + map_bytes(count as nat);
        let ghost mut entries = Seq::<Entry>::empty();
        if tagged {
            let field = Field::Number(Kind::Request.tag());
            put_entry(buf, 0, field, Ghost(before), Ghost(entries));
            proof {
                entries = entries.push(Entry { key: 0, value: field@ });
                assert(entries =~= seq![
                    Entry { key: 0, value: Datum::Number(Kind::Request.spec_tag()) },
                ]);
            }
        }
        let field = Field::Number(u32::from(self.id) as u64);
        put_entry(buf, 1, field, Ghost(before), Ghost(entries));
        proof {
            entries = entries.push(Entry { key: 1, value: field@ });
        }
        let field = Field::Text(self.path());
        put_entry(buf, 2, field, Ghost(before), Ghost(entries));
        proof {
            entries = entries.push(Entry { key: 2, value: field@ });
        }
        if let Some(method) = self.method {
            let field = Field::Number(method.code());
            put_entry(buf, 3, field, Ghost(before), Ghost(entries));
            proof {
                entries = entries.push(Entry { key: 3, value: field@ });
            }
        }
        let field = Field::Flag(self.has_body);
        put_entry(buf, 4, field, Ghost(before), Ghost(entries));
        proof {
            entries = entries.push(Entry { key: 4, value: field@ });
            assert(entries == request_entries(self@, tagged));
            assert(buf@ =~= start + request_bytes(self@, tagged));
        }
        Ok(())
    }
}

/// Whatever number stands under the key of the method, the header is read:
/// its method is the one that the number stands for, or none where the
/// number stands for no method, and the other fields are as they were
/// written. This holds whether or not the writer used tags and whether or
/// not the reader looks for them.
pub proof fn lemma_request_any_method_code(
    id: u32,
    path: Seq<char>,
    code: Option<u64>,
    has_body: bool,
    written_tagged: bool,
    read_tagged: bool,
    input: Seq<u8>,
    pos: int,
)
    requires
        encode_utf8(path).len() <= u64::MAX,
        0 <= pos,
        pos + record_bytes(request_fields(id, path, code, has_body, written_tagged)).len()
            <= input.len(),
        input.subrange(
            pos,
            pos + record_bytes(request_fields(id, path, code, has_body, written_tagged)).len(),
        ) == record_bytes(request_fields(id, path, code, has_body, written_tagged)),
    ensures
        request_at(input, pos, read_tagged) == Ok::<(RequestView, int), DecodeError>(
            (
                RequestView { id, path, method: method_of(code), has_body },
                pos + record_bytes(
                    request_fields(id, path, code, has_body, written_tagged),
                ).len(),
            ),
        ),
{
    let kind = Kind::Request;
    let tag = if written_tagged {
        seq![Entry { key: 0, value: Datum::Number(kind.spec_tag()) }]
    } else {
        Seq::empty()
    };
    let e0 = Entry { key: 0, value: Datum::Number(kind.spec_tag()) };
    let e1 = Entry { key: 1, value: Datum::Number(id as u64) };
    let e2 = Entry { key: 2, value: Datum::Text(path) };
    let e4 = Entry { key: 4, value: Datum::Flag(has_body) };
    let none = Seq::<Entry>::empty();
    if written_tagged {
        assert(tag =~= none.push(e0));
        lemma_fits_push(none, e0, kind, read_tagged);
        lemma_kept_push(Slots::empty(), none, e0, kind, read_tagged);
    }
    let a = tag.push(e1);
    lemma_fits_push(tag, e1, kind, read_tagged);
    lemma_kept_push(Slots::empty(), tag, e1, kind, read_tagged);
    let b = a.push(e2);
    lemma_fits_push(a, e2, kind, read_tagged);
    lemma_kept_push(Slots::empty(), a, e2, kind, read_tagged);
    let c = match code {
        Some(code) => b.push(Entry { key: 3, value: Datum::Number(code) }),
        None => b,
    };
    if let Some(code) = code {
        let e3 = Entry { key: 3, value: Datum::Number(code) };
        lemma_fits_push(b, e3, kind, read_tagged);
        lemma_kept_push(Slots::empty(), b, e3, kind, read_tagged);
    }
    let d = c.push(e4);
    lemma_fits_push(c, e4, kind, read_tagged);
    lemma_kept_push(Slots::empty(), c, e4, kind, read_tagged);
    assert(d == request_fields(id, path, code, has_body, written_tagged));
    lemma_record_written(input, pos, d, kind, read_tagged);
}

/// A request that was written is read back, whether or not the writer used
/// tags and whether or not the reader looks for them: reading at the place
/// where the header's bytes stand gives the header, field for field, and the
/// position after them.
pub proof fn lemma_request_round_trip(
    v: RequestView,
    written_tagged: bool,
    read_tagged: bool,
    input: Seq<u8>,
    pos: int,
)
    requires
        encode_utf8(v.path).len() <= u64::MAX,
        0 <= pos,
        pos + request_bytes(v, written_tagged).len() <= input.len(),
        input.subrange(pos, pos + request_bytes(v, written_tagged).len()) == request_bytes(
            v,
            written_tagged,
        ),
    ensures
        request_at(input, pos, read_tagged) == Ok::<(RequestView, int), DecodeError>(
            (v, pos + request_bytes(v, written_tagged).len()),
        ),
{
    if let Some(m) = v.method {
        lemma_method_code(m, 0);
    }
    lemma_request_any_method_code(
        v.id,
        v.path,
        method_code(v.method),
        v.has_body,
        written_tagged,
        read_tagged,
        input,
        pos,
    );
}

/// Bytes that start with the tag of another type are no request: a reader
/// that looks for tags refuses them with the tag that it found.
pub proof fn lemma_request_wrong_tag(input: Seq<u8>, pos: int, entries: Seq<Entry>)
    requires
        0 < entries.len() <= u64::MAX,
        entries[0].key == 0,
        entries[0].value is Number,
        entries[0].value->Number_0 != Kind::Request.spec_tag(),
        0 <= pos,
        pos + record_bytes(entries).len() <= input.len(),
        input.subrange(pos, pos + record_bytes(entries).len()) == record_bytes(entries),
    ensures
        request_at(input, pos, true) == Err::<(RequestView, int), DecodeError>(
            DecodeError::TagMismatch {
                expected: Kind::Request.spec_tag(),
                found: entries[0].value->Number_0,
            },
        ),
{
    lemma_wrong_tag(input, pos, entries, Kind::Request);
}

/// A request header together with the body that goes with it.
#[derive(Debug)]
pub struct RequestBuilder<'a, T = ()> {
    header: Request<'a>,
    body: Option<T>,
}

impl<'a, T> RequestBuilder<'a, T> {
    /// The header says that a body follows exactly where the builder has
    /// one.
    #[verifier::type_invariant]
    spec fn inv(self) -> bool {
        self.header.has_body == (self.body is Some)
    }

    /// The header.
    pub closed spec fn spec_header(&self) -> Request<'a> {
        self.header
    }

    /// The body.
    pub closed spec fn spec_body(&self) -> Option<T> {
        self.body
    }

    /// Replaces the identifier.
    pub fn id(self, id: Id) -> (r: Self)
        ensures
            r.spec_header()@ == (RequestView { id: id@, ..self.spec_header()@ }),
            r.spec_body() == self.spec_body(),
    {
        proof {
            use_type_invariant(&self);
        }
        let mut b = self;
        b.header.id = id;
        b
    }

    /// Replaces the path.
    pub fn path<P: Into<CowStr<'a>>>(self, path: P) -> (r: Self)
        ensures
            P::obeys_into_spec() ==> r.spec_header()@ == (RequestView {
                path: path.into_spec()@,
                ..self.spec_header()@
            }),
            r.spec_header()@.id == self.spec_header()@.id,
            r.spec_header()@.method == self.spec_header()@.method,
            r.spec_header()@.has_body == self.spec_header()@.has_body,
            r.spec_body() == self.spec_body(),
    {
        proof {
            use_type_invariant(&self);
        }
        let path: CowStr<'a> = path.into();
        let mut b = self;
        b.header.path = path.0;
        b
    }

    /// Replaces the method.
    pub fn method(self, m: Method) -> (r: Self)
        ensures
            r.spec_header()@ == (RequestView { method: Some(m), ..self.spec_header()@ }),
            r.spec_body() == self.spec_body(),
    {
        proof {
            use_type_invariant(&self);
        }
        let mut b = self;
        b.header.method = Some(m);
        b
    }

    /// The header. It says that a body follows exactly where the builder
    /// has one.
    pub fn header(&self) -> (r: &Request<'a>)
        ensures
            *r == self.spec_header(),
            r@.has_body == (self.spec_body() is Some),
    {
        proof {
            use_type_invariant(self);
        }
        &self.header
    }

    /// The header and the body.
    pub fn into_parts(self) -> (r: (Request<'a>, Option<T>))
        ensures
            r.0 == self.spec_header(),
            r.1 == self.spec_body(),
            r.0@.has_body == (r.1 is Some),
    {
        proof {
            use_type_invariant(&self);
        }
        (self.header, self.body)
    }
}

impl<'a> RequestBuilder<'a, ()> {
    /// Gives the request a body. From then on the header says that a body
    /// follows.
    pub fn body<T: Encode>(self, b: T) -> (r: RequestBuilder<'a, T>)
        ensures
            r.spec_header()@ == (RequestView { has_body: true, ..self.spec_header()@ }),
            r.spec_body() == Some(b),
    {
        let mut header = self.header;
        header.has_body = true;
        RequestBuilder { header, body: Some(b) }
    }
}

impl<'a, T: Encode> RequestBuilder<'a, T> {
    /// Appends the header and then, where there is a body, the body. A
    /// builder without a body appends the header and nothing else.
    ///
    /// It fails only where the body's encoder fails, with the body's error.
    /// The header is in `buf` by then.
    pub fn encode(&self, buf: &mut Vec<u8>, tagged: bool) -> (r: Result<(), EncodeError>)
        ensures
            self.spec_header()@.has_body == (self.spec_body() is Some),
            match message_bytes(
                request_bytes(self.spec_header()@, tagged),
                self.spec_body(),
                tagged,
            ) {
                Ok(bytes) => r is Ok && final(buf)@ == old(buf)@ + bytes,
                Err(e) => r == Err::<(), EncodeError>(e) && (old(buf)@ + request_bytes(
                    self.spec_header()@,
                    tagged,
                )).is_prefix_of(final(buf)@),
            },
    {
        proof {
            use_type_invariant(self);
        }
        let _ = self.header.encode(buf, tagged);
        match &self.body {
            None => Ok(()),
            Some(b) => {
                let r = b.encode(buf, tagged);
                proof {
                    if let Ok(bytes) = b.encoding(tagged) {
                        assert(buf@ =~= old(buf)@ + (request_bytes(self.spec_header()@, tagged)
                            + bytes));
                    }
                }
                r
            },
        }
    }
}

} // verus!
