//! The error that a failure response carries as its body.

use crate::cbor::map_bytes;
use crate::codec::{DecodeError, Encode, EncodeError};
use crate::cow::CowStr;
use crate::method::{lemma_method_code, method_code, method_of, Method};
use crate::record::{
    agrees, begin_record, lemma_fits_push, lemma_kept_push, lemma_record_written,
    lemma_wrong_tag, put_entry, read_record, record_at, record_bytes, Datum, Entry, Field, Kind,
    Slots,
};
use ockam_core::compat::borrow::Cow;
use vstd::prelude::*;
use vstd::std_specs::convert::IntoSpec;
use vstd::utf8::encode_utf8;

verus! {

/// An error type used in response bodies.
#[derive(Debug)]
pub struct Error<'a> {
    /// The resource path of this error.
    path: Cow<'a, str>,
    /// The request method of this error.
    method: Option<Method>,
    /// The actual error message.
    message: Option<Cow<'a, str>>,
}

/// What an error holds.
pub struct ErrorView {
    pub path: Seq<char>,
    pub method: Option<Method>,
    pub message: Option<Seq<char>>,
}

impl<'a> View for Error<'a> {
    type V = ErrorView;

    closed spec fn view(&self) -> ErrorView {
        ErrorView {
            path: self.path@,
            method: self.method,
            message: match self.message {
                Some(message) => Some(message@),
                None => None,
            },
        }
    }
}

/// The entries of an error on the wire, in their order: the tag under key 0
/// where tags are in use, the path under 1, the code of the method under 2
/// where there is one, and the message under 3 where there is one.
pub open spec fn error_fields(
    path: Seq<char>,
    code: Option<u64>,
    message: Option<Seq<char>>,
    tagged: bool,
) -> Seq<Entry> {
    let tag = if tagged {
        seq![Entry { key: 0, value: Datum::Number(Kind::Error.spec_tag()) }]
    } else {
        Seq::empty()
    };
    let fixed = tag.push(Entry { key: 1, value: Datum::Text(path) });
    let known = match code {
        Some(code) => fixed.push(Entry { key: 2, value: Datum::Number(code) }),
        None => fixed,
    };
    match message {
        Some(message) => known.push(Entry { key: 3, value: Datum::Text(message) }),
        None => known,
    }
}

/// The entries of an error on the wire.
pub open spec fn error_entries(v: ErrorView, tagged: bool) -> Seq<Entry> {
    error_fields(v.path, method_code(v.method), v.message, tagged)
}

/// The bytes of an error.
pub open spec fn error_bytes(v: ErrorView, tagged: bool) -> Seq<u8> {
    record_bytes(error_entries(v, tagged))
}

/// The error that a reader has kept, or the required field that it has not
/// seen. A method code that stands for no method gives an error without a
/// method.
pub open spec fn error_of(slots: Slots) -> Result<ErrorView, DecodeError> {
    match slots.s1 {
        Some(Datum::Text(path)) => Ok(
            ErrorView {
                path,
                method: match slots.s2 {
                    Some(Datum::Number(code)) => Method::spec_from_code(code),
                    _ => None,
                },
                message: match slots.s3 {
                    Some(Datum::Text(message)) => Some(message),
                    _ => None,
                },
            },
        ),
        _ => Err(DecodeError::MissingField { index: 1 }),
    }
}

/// Reading an error at `pos`: the error and the position after it, or why
/// it cannot be read.
pub open spec fn error_at(input: Seq<u8>, pos: int, tagged: bool) -> Result<
    (ErrorView, int),
    DecodeError,
> {
    match record_at(input, pos, Kind::Error, tagged) {
        Ok((slots, end)) => match error_of(slots) {
            Ok(v) => Ok((v, end)),
            Err(e) => Err(e),
        },
        Err(e) => Err(e),
    }
}

/// The same text, borrowed where `text` is borrowed.
fn clone_text<'a>(text: &Cow<'a, str>) -> (r: Cow<'a, str>)
    ensures
        r@ == text@,
{
    match text {
        Cow::Borrowed(text) => Cow::Borrowed(text),
        Cow::Owned(text) => Cow::Owned(text.clone()),
    }
}

/// The text.
fn text_of<'b>(text: &'b Cow<'_, str>) -> (r: &'b str)
    ensures
        r@ == text@,
{
    match text {
        Cow::Borrowed(text) => text,
        Cow::Owned(text) => text.as_str(),
    }
}

impl<'a> Clone for Error<'a> {
    fn clone(&self) -> (r: Self)
        ensures
            r@ == self@,
    {
        Error {
            path: clone_text(&self.path),
            method: self.method,
            message: match &self.message {
                Some(message) => Some(clone_text(message)),
                None => None,
            },
        }
    }
}

impl<'a> Error<'a> {
    /// An error about the given path, without method and message.
    pub fn new<S: Into<CowStr<'a>>>(path: S) -> (r: Self)
        ensures
            S::obeys_into_spec() ==> r@ == (ErrorView {
                path: path.into_spec()@,
                method: None,
                message: None,
            }),
            r@.method is None,
            r@.message is None,
    {
        let path: CowStr<'a> = path.into();
        Error { path: path.0, method: None, message: None }
    }

    /// The error with the given method.
    pub fn with_method(self, m: Method) -> (r: Self)
        ensures
            r@ == (ErrorView { method: Some(m), ..self@ }),
    {
        let mut e = self;
        e.method = Some(m);
        e
    }

    /// The error with the given message.
    pub fn with_message<S: Into<CowStr<'a>>>(self, m: S) -> (r: Self)
        ensures
            S::obeys_into_spec() ==> r@ == (ErrorView {
                message: Some(m.into_spec()@),
                ..self@
            }),
            r@.path == self@.path,
            r@.method == self@.method,
            r@.message is Some,
    {
        let message: CowStr<'a> = m.into();
        let mut e = self;
        e.message = Some(message.0);
        e
    }

    /// The resource path of this error.
    pub fn path(&self) -> (r: &str)
        ensures
            r@ == self@.path,
    {
        text_of(&self.path)
    }

    /// The request method of this error.
    pub fn method(&self) -> (r: Option<Method>)
        ensures
            r == self@.method,
    {
        self.method
    }

    /// The actual error message.
    pub fn message(&self) -> (r: Option<&str>)
        ensures
            match r {
                Some(message) => self@.message == Some(message@),
                None => self@.message is None,
            },
    {
        match &self.message {
            Some(message) => Some(text_of(message)),
            None => None,
        }
    }

    /// Whether the path is borrowed, and the message where there is one.
    pub closed spec fn borrows(&self) -> bool {
        &&& self.path is Borrowed
        &&& self.message matches Some(message) ==> message is Borrowed
    }

    /// Reads an error at `pos`. Returns the error, whose texts borrow from
    /// the input, and the position after it.
    ///
    /// The map may come with a count or closed by a break. Entries under
    /// keys that an error does not have are skipped. With `tagged`, a type
    /// tag that is present must be that of an error; without, key 0 is a key
    /// like any other that an error does not have. A tag that is absent is
    /// no error.
    pub fn decode(input: &'a [u8], pos: usize, tagged: bool) -> (r: Result<
        (Error<'a>, usize),
        DecodeError,
    >)
        ensures
            agrees(r, error_at(input@, pos as int, tagged)),
            r matches Ok((error, _)) ==> error.borrows(),
    {
        let (record, end) = match read_record(input, pos, Kind::Error, tagged) {
            Ok(read) => read,
            Err(e) => return Err(e),
        };
        let path = match record.s1 {
            Some(Field::Text(path)) => Cow::Borrowed(path),
            _ => return Err(DecodeError::MissingField { index: 1 }),
        };
        let method = match record.s2 {
            Some(Field::Number(code)) => Method::from_code(code),
            _ => None,
        };
        let message = match record.s3 {
            Some(Field::Text(message)) => Some(Cow::Borrowed(message)),
            _ => None,
        };
        Ok((Error { path, method, message }, end))
    }
}

impl<'a> Encode for Error<'a> {
    open spec fn encoding(&self, tagged: bool) -> Result<Seq<u8>, EncodeError> {
        Ok(error_bytes(self@, tagged))
    }

    /// Appends the error as a map with a count. It cannot fail.
    fn encode(&self, buf: &mut Vec<u8>, tagged: bool) -> (r: Result<(), EncodeError>) {
        let ghost start = buf@;
        let tags: u64 = if tagged {
            1
        } else {
            0
        };
        let methods: u64 = if self.method.is_some() {
            1
        } else {
            0
        };
        let messages: u64 = if self.message.is_some() {
            1
        } else {
            0
        };
        let count: u64 = 1 + tags + methods + messages;
        begin_record(buf, count);
        let ghost before = start + map_bytes(count as nat);
        let ghost mut entries = Seq::<Entry>::empty();
        if tagged {
            let field = Field::Number(Kind::Error.tag());
            put_entry(buf, 0, field, Ghost(before), Ghost(entries));
            proof {
                entries = entries.push(Entry { key: 0, value: field@ });
                assert(entries =~= seq![
                    Entry { key: 0, value: Datum::Number(Kind::Error.spec_tag()) },
                ]);
            }
        }
        let field = Field::Text(self.path());
        put_entry(buf, 1, field, Ghost(before), Ghost(entries));
        proof {
            entries = entries.push(Entry { key: 1, value: field@ });
        }
        if let Some(method) = self.method {
            let field = Field::Number(method.code());
            put_entry(buf, 2, field, Ghost(before), Ghost(entries));
            proof {
                entries = entries.push(Entry { key: 2, value: field@ });
            }
        }
        if let Some(message) = self.message() {
            let field = Field::Text(message);
            put_entry(buf, 3, field, Ghost(before), Ghost(entries));
            proof {
                entries = entries.push(Entry { key: 3, value: field@ });
            }
        }
        proof {
            assert(entries == error_entries(self@, tagged));
            assert(buf@ =~= start + error_bytes(self@, tagged));
        }
        Ok(())
    }
}

/// Whatever number stands under the key of the method, the error is read:
/// its method is the one that the number stands for, or none where the
/// number stands for no method, and the other fields are as they were
/// written. This holds whether or not the writer used tags and whether or
/// not the reader looks for them.
pub proof fn lemma_error_any_method_code(
    path: Seq<char>,
    code: Option<u64>,
    message: Option<Seq<char>>,
    written_tagged: bool,
    read_tagged: bool,
    input: Seq<u8>,
    pos: int,
)
    requires
        encode_utf8(path).len() <= u64::MAX,
        message matches Some(text) ==> encode_utf8(text).len() <= u64::MAX,
        0 <= pos,
        pos + record_bytes(error_fields(path, code, message, written_tagged)).len()
            <= input.len(),
        input.subrange(
            pos,
            pos + record_bytes(error_fields(path, code, message, written_tagged)).len(),
        ) == record_bytes(error_fields(path, code, message, written_tagged)),
    ensures
        error_at(input, pos, read_tagged) == Ok::<(ErrorView, int), DecodeError>(
            (
                ErrorView { path, method: method_of(code), message },
                pos + record_bytes(error_fields(path, code, message, written_tagged)).len(),
            ),
        ),
{
    let kind = Kind::Error;
    let tag = if written_tagged {
        seq![Entry { key: 0, value: Datum::Number(kind.spec_tag()) }]
    } else {
        Seq::empty()
    };
    let e0 = Entry { key: 0, value: Datum::Number(kind.spec_tag()) };
    let e1 = Entry { key: 1, value: Datum::Text(path) };
    let none = Seq::<Entry>::empty();
    if written_tagged {
        assert(tag =~= none.push(e0));
        lemma_fits_push(none, e0, kind, read_tagged);
        lemma_kept_push(Slots::empty(), none, e0, kind, read_tagged);
    }
    let a = tag.push(e1);
    lemma_fits_push(tag, e1, kind, read_tagged);
    lemma_kept_push(Slots::empty(), tag, e1, kind, read_tagged);
    let b = match code {
        Some(code) => a.push(Entry { key: 2, value: Datum::Number(code) }),
        None => a,
    };
    if let Some(code) = code {
        let e2 = Entry { key: 2, value: Datum::Number(code) };
        lemma_fits_push(a, e2, kind, read_tagged);
        lemma_kept_push(Slots::empty(), a, e2, kind, read_tagged);
    }
    let c = match message {
        Some(text) => b.push(Entry { key: 3, value: Datum::Text(text) }),
        None => b,
    };
    if let Some(text) = message {
        let e3 = Entry { key: 3, value: Datum::Text(text) };
        lemma_fits_push(b, e3, kind, read_tagged);
        lemma_kept_push(Slots::empty(), b, e3, kind, read_tagged);
    }
    assert(c == error_fields(path, code, message, written_tagged));
    lemma_record_written(input, pos, c, kind, read_tagged);
}

/// An error that was written is read back, whether or not the writer used
/// tags and whether or not the reader looks for them: reading at the place
/// where the error's bytes stand gives the error, field for field, and the
/// position after them.
pub proof fn lemma_error_round_trip(
    v: ErrorView,
    written_tagged: bool,
    read_tagged: bool,
    input: Seq<u8>,
    pos: int,
)
    requires
        encode_utf8(v.path).len() <= u64::MAX,
        v.message matches Some(message) ==> encode_utf8(message).len() <= u64::MAX,
        0 <= pos,
        pos + error_bytes(v, written_tagged).len() <= input.len(),
        input.subrange(pos, pos + error_bytes(v, written_tagged).len()) == error_bytes(
            v,
            written_tagged,
        ),
    ensures
        error_at(input, pos, read_tagged) == Ok::<(ErrorView, int), DecodeError>(
            (v, pos + error_bytes(v, written_tagged).len()),
        ),
{
    if let Some(m) = v.method {
        lemma_method_code(m, 0);
    }
    lemma_error_any_method_code(
        v.path,
        method_code(v.method),
        v.message,
        written_tagged,
        read_tagged,
        input,
        pos,
    );
}

/// Bytes that start with the tag of another type are no error: a reader
/// that looks for tags refuses them with the tag that it found.
pub proof fn lemma_error_wrong_tag(input: Seq<u8>, pos: int, entries: Seq<Entry>)
    requires
        0 < entries.len() <= u64::MAX,
        entries[0].key == 0,
        entries[0].value is Number,
        entries[0].value->Number_0 != Kind::Error.spec_tag(),
        0 <= pos,
        pos + record_bytes(entries).len() <= input.len(),
        input.subrange(pos, pos + record_bytes(entries).len()) == record_bytes(entries),
    ensures
        error_at(input, pos, true) == Err::<(ErrorView, int), DecodeError>(
            DecodeError::TagMismatch {
                expected: Kind::Error.spec_tag(),
                found: entries[0].value->Number_0,
            },
        ),
{
    lemma_wrong_tag(input, pos, entries, Kind::Error);
}

} // verus!
