//! The map that an envelope is on the wire.
//!
//! Every envelope is a map from small integer keys to values. Which keys an
//! envelope knows, and what stands under each, is its schema. A reader goes
//! through the entries in the order they come, keeps the values of the keys
//! that the schema knows and skips the rest, so that a reader of one version
//! understands the maps of a later one.

use crate::cbor::{
    flag_at, flag_bytes, int_at, lead_at, lemma_flag_at, lemma_int_at, lemma_map_at,
    lemma_text_at, lemma_uint_at, map_at, map_bytes, peek, put_flag, put_map, put_text, put_uint,
    skip_item, skipped_at, take_flag, take_int, take_map, take_text, take_u32, take_uint,
    text_at, text_bytes, u32_at, uint_at, uint_bytes, Lead,
};
use crate::codec::{malformed, DecodeError};
use crate::tag::{tag_at, TypeTag};
use vstd::prelude::*;
use vstd::utf8::encode_utf8;

verus! {

/// The number that tags a request.
pub const REQUEST_TAG: usize = 7586022;

/// The number that tags a response.
pub const RESPONSE_TAG: usize = 9750358;

/// The number that tags an error.
pub const ERROR_TAG: usize = 5359172;

/// The three envelopes.
#[derive(Debug, Clone, Copy, PartialEq, Eq, Structural)]
pub enum Kind {
    /// A request header.
    Request,
    /// A response header.
    Response,
    /// An error, the body of a failure response.
    Error,
}

/// What can stand under a key.
#[derive(Debug, Clone, Copy, PartialEq, Eq, Structural)]
pub enum Shape {
    /// The envelope's type tag: an unsigned integer that must be the
    /// expected one. It is checked and not kept.
    Tag,
    /// An unsigned integer of at most 32 bits.
    Id,
    /// Any unsigned integer, or null for none.
    Code,
    /// A text string.
    Text,
    /// A text string, or null for none.
    OptionalText,
    /// A boolean.
    Flag,
}

impl Kind {
    /// The number that tags envelopes of this kind.
    pub open spec fn spec_tag(self) -> u64 {
        match self {
            Kind::Request => REQUEST_TAG as u64,
            Kind::Response => RESPONSE_TAG as u64,
            Kind::Error => ERROR_TAG as u64,
        }
    }

    /// The schema: what stands under `key` in an envelope of this kind, or
    /// `None` for a key that the envelope does not know. Key 0 is the tag
    /// where tags are in use, and unknown where they are not.
    pub open spec fn spec_shape(self, key: u64, tagged: bool) -> Option<Shape> {
        if key == 0 {
            if tagged {
                Some(Shape::Tag)
            } else {
                None
            }
        } else {
            match self {
                Kind::Request => if key == 1 {
                    Some(Shape::Id)
                } else if key == 2 {
                    Some(Shape::Text)
                } else if key == 3 {
                    Some(Shape::Code)
                } else if key == 4 {
                    Some(Shape::Flag)
                } else {
                    None
                },
                Kind::Response => if key == 1 || key == 2 {
                    Some(Shape::Id)
                } else if key == 3 {
                    Some(Shape::Code)
                } else if key == 4 {
                    Some(Shape::Flag)
                } else {
                    None
                },
                Kind::Error => if key == 1 {
                    Some(Shape::Text)
                } else if key == 2 {
                    Some(Shape::Code)
                } else if key == 3 {
                    Some(Shape::OptionalText)
                } else {
                    None
                },
            }
        }
    }

    /// The number that tags envelopes of this kind.
    #[verifier::when_used_as_spec(spec_tag)]
    pub fn tag(self) -> (r: u64)
        ensures
            r == self.spec_tag(),
    {
        match self {
            Kind::Request => TypeTag::<REQUEST_TAG>::number(),
            Kind::Response => TypeTag::<RESPONSE_TAG>::number(),
            Kind::Error => TypeTag::<ERROR_TAG>::number(),
        }
    }

    /// What stands under `key` in an envelope of this kind.
    #[verifier::when_used_as_spec(spec_shape)]
    pub fn shape(self, key: u64, tagged: bool) -> (r: Option<Shape>)
        ensures
            r == self.spec_shape(key, tagged),
    {
        if key == 0 {
            if tagged {
                Some(Shape::Tag)
            } else {
                None
            }
        } else {
            match self {
                Kind::Request => match key {
                    1 => Some(Shape::Id),
                    2 => Some(Shape::Text),
                    3 => Some(Shape::Code),
                    4 => Some(Shape::Flag),
                    _ => None,
                },
                Kind::Response => match key {
                    1 | 2 => Some(Shape::Id),
                    3 => Some(Shape::Code),
                    4 => Some(Shape::Flag),
                    _ => None,
                },
                Kind::Error => match key {
                    1 => Some(Shape::Text),
                    2 => Some(Shape::Code),
                    3 => Some(Shape::OptionalText),
                    _ => None,
                },
            }
        }
    }
}

/// A value of the map, as mathematics sees it.
pub enum Datum {
    /// An unsigned integer.
    Number(u64),
    /// A text string.
    Text(Seq<char>),
    /// A boolean.
    Flag(bool),
}

/// A value of the map. Text borrows from the input.
#[derive(Debug, Clone, Copy)]
pub enum Field<'a> {
    /// An unsigned integer.
    Number(u64),
    /// A text string.
    Text(&'a str),
    /// A boolean.
    Flag(bool),
}

impl<'a> View for Field<'a> {
    type V = Datum;

    open spec fn view(&self) -> Datum {
        match self {
            Field::Number(n) => Datum::Number(*n),
            Field::Text(s) => Datum::Text(s@),
            Field::Flag(b) => Datum::Flag(*b),
        }
    }
}

/// The view of a value that may be absent.
pub open spec fn datum_of(field: Option<Field<'_>>) -> Option<Datum> {
    match field {
        Some(f) => Some(f@),
        None => None,
    }
}

/// What a reader has kept so far: for each of the keys 1 to 4, the value last
/// seen under it.
pub struct Slots {
    pub s1: Option<Datum>,
    pub s2: Option<Datum>,
    pub s3: Option<Datum>,
    pub s4: Option<Datum>,
}

impl Slots {
    /// Nothing kept.
    pub open spec fn empty() -> Slots {
        Slots { s1: None, s2: None, s3: None, s4: None }
    }

    /// The slots with `value` under `key`. Keys other than 1 to 4 have no
    /// slot, and nothing changes.
    pub open spec fn set(self, key: u64, value: Option<Datum>) -> Slots {
        if key == 1 {
            Slots { s1: value, ..self }
        } else if key == 2 {
            Slots { s2: value, ..self }
        } else if key == 3 {
            Slots { s3: value, ..self }
        } else if key == 4 {
            Slots { s4: value, ..self }
        } else {
            self
        }
    }
}

/// The values that a reader keeps.
#[derive(Debug, Clone, Copy)]
pub struct Record<'a> {
    pub s1: Option<Field<'a>>,
    pub s2: Option<Field<'a>>,
    pub s3: Option<Field<'a>>,
    pub s4: Option<Field<'a>>,
}

impl<'a> View for Record<'a> {
    type V = Slots;

    open spec fn view(&self) -> Slots {
        Slots {
            s1: datum_of(self.s1),
            s2: datum_of(self.s2),
            s3: datum_of(self.s3),
            s4: datum_of(self.s4),
        }
    }
}

impl<'a> Record<'a> {
    /// A record with nothing in it.
    pub fn new() -> (r: Self)
        ensures
            r@ == Slots::empty(),
    {
        Record { s1: None, s2: None, s3: None, s4: None }
    }

    /// Puts `value` under `key`, if the key has a slot.
    pub fn set(&mut self, key: u64, value: Option<Field<'a>>)
        ensures
            final(self)@ == old(self)@.set(key, datum_of(value)),
    {
        if key == 1 {
            self.s1 = value;
        } else if key == 2 {
            self.s2 = value;
        } else if key == 3 {
            self.s3 = value;
        } else if key == 4 {
            self.s4 = value;
        }
    }
}

/// Reading a value of the given shape at `pos`: what to keep of it (`None`
/// for null, and for the tag) and the position after it, or the error.
pub open spec fn value_at(input: Seq<u8>, pos: int, shape: Shape, kind: Kind) -> Result<
    (Option<Datum>, int),
    DecodeError,
> {
    match shape {
        Shape::Tag => match tag_at(input, pos, kind.spec_tag()) {
            Ok(end) => Ok((None, end)),
            Err(e) => Err(e),
        },
        Shape::Id => match u32_at(input, pos) {
            Some((n, end)) => Ok((Some(Datum::Number(n as u64)), end)),
            None => Err(malformed(pos)),
        },
        Shape::Code => match lead_at(input, pos) {
            None => Err(malformed(pos)),
            Some(Lead::Null) => Ok((None, pos + 1)),
            Some(_) => match uint_at(input, pos) {
                Some((n, end)) => Ok((Some(Datum::Number(n as u64)), end)),
                None => Err(malformed(pos)),
            },
        },
        Shape::Text => match text_at(input, pos) {
            Some((text, end)) => Ok((Some(Datum::Text(text)), end)),
            None => Err(malformed(pos)),
        },
        Shape::OptionalText => match lead_at(input, pos) {
            None => Err(malformed(pos)),
            Some(Lead::Null) => Ok((None, pos + 1)),
            Some(_) => match text_at(input, pos) {
                Some((text, end)) => Ok((Some(Datum::Text(text)), end)),
                None => Err(malformed(pos)),
            },
        },
        Shape::Flag => match flag_at(input, pos) {
            Some((flag, end)) => Ok((Some(Datum::Flag(flag)), end)),
            None => Err(malformed(pos)),
        },
    }
}

/// What stands under a key as it was read: a negative key is one that no
/// envelope knows.
pub open spec fn shape_of_key(kind: Kind, key: int, tagged: bool) -> Option<Shape> {
    if key < 0 {
        None
    } else {
        kind.spec_shape(key as u64, tagged)
    }
}

/// Reading one entry at `pos`: an integer key, and then either a value of
/// the shape that the schema has for the key, which is kept, or any item at
/// all, which is skipped.
pub open spec fn entry_at(input: Seq<u8>, pos: int, kind: Kind, tagged: bool, slots: Slots) -> Result<
    (Slots, int),
    DecodeError,
> {
    match int_at(input, pos) {
        None => Err(malformed(pos)),
        Some((key, start)) => match shape_of_key(kind, key, tagged) {
            None => match skipped_at(input, start) {
                Some(end) => Ok((slots, end)),
                None => Err(malformed(start)),
            },
            Some(shape) => match value_at(input, start, shape, kind) {
                Ok((value, end)) => Ok((slots.set(key as u64, value), end)),
                Err(e) => Err(e),
            },
        },
    }
}

/// Reading `count` entries, one after the other, from `pos`.
pub open spec fn entries_at(
    input: Seq<u8>,
    pos: int,
    count: nat,
    kind: Kind,
    tagged: bool,
    slots: Slots,
) -> Result<(Slots, int), DecodeError>
    decreases count,
{
    if count == 0 {
        Ok((slots, pos))
    } else {
        match entry_at(input, pos, kind, tagged, slots) {
            Ok((next, end)) => entries_at(input, end, (count - 1) as nat, kind, tagged, next),
            Err(e) => Err(e),
        }
    }
}

/// Reading entries from `pos` up to the break that closes the map, and the
/// break.
pub open spec fn entries_to_break(
    input: Seq<u8>,
    pos: int,
    kind: Kind,
    tagged: bool,
    slots: Slots,
) -> Result<(Slots, int), DecodeError>
    decreases input.len() - pos,
    via entries_to_break_ends
{
    match lead_at(input, pos) {
        None => Err(malformed(pos)),
        Some(Lead::Break) => Ok((slots, pos + 1)),
        Some(_) => match entry_at(input, pos, kind, tagged, slots) {
            Ok((next, end)) => entries_to_break(input, end, kind, tagged, next),
            Err(e) => Err(e),
        },
    }
}

/// Every entry that is read leaves less of the input.
#[via_fn]
proof fn entries_to_break_ends(input: Seq<u8>, pos: int, kind: Kind, tagged: bool, slots: Slots) {
    lemma_entry_advances(input, pos, kind, tagged, slots);
}

/// Reading the map of an envelope at `pos`: what is kept of it and the
/// position after it, or the first error on the way.
pub open spec fn record_at(input: Seq<u8>, pos: int, kind: Kind, tagged: bool) -> Result<
    (Slots, int),
    DecodeError,
> {
    match map_at(input, pos) {
        None => Err(malformed(pos)),
        Some((Some(count), start)) => entries_at(input, start, count, kind, tagged, Slots::empty()),
        Some((None, start)) => entries_to_break(input, start, kind, tagged, Slots::empty()),
    }
}

/// A value that was read ends behind where it starts, and within the input.
pub proof fn lemma_value_advances(input: Seq<u8>, pos: int, shape: Shape, kind: Kind)
    ensures
        value_at(input, pos, shape, kind) matches Ok((_, end)) ==> pos < end <= input.len(),
{
}

/// An entry that was read ends behind where it starts, and within the input.
pub proof fn lemma_entry_advances(input: Seq<u8>, pos: int, kind: Kind, tagged: bool, slots: Slots)
    ensures
        entry_at(input, pos, kind, tagged, slots) matches Ok((_, end)) ==> pos < end
            <= input.len(),
{
    if let Some((key, start)) = int_at(input, pos) {
        if let Some(shape) = shape_of_key(kind, key, tagged) {
            lemma_value_advances(input, start, shape, kind);
        }
    }
}

/// Whether `r` is what the specification `expected` says, position and all.
pub open spec fn agrees<T: View>(r: Result<(T, usize), DecodeError>, expected: Result<
    (T::V, int),
    DecodeError,
>) -> bool {
    match r {
        Ok((value, end)) => expected == Ok::<(T::V, int), DecodeError>((value@, end as int)),
        Err(e) => expected == Err::<(T::V, int), DecodeError>(e),
    }
}

/// Reads a value of the given shape at `pos`.
fn read_value<'a>(input: &'a [u8], pos: usize, shape: Shape, kind: Kind) -> (r: Result<
    (Option<Field<'a>>, usize),
    DecodeError,
>)
    ensures
        match r {
            Ok((value, end)) => value_at(input@, pos as int, shape, kind) == Ok::<
                (Option<Datum>, int),
                DecodeError,
            >((datum_of(value), end as int)),
            Err(e) => value_at(input@, pos as int, shape, kind) == Err::<
                (Option<Datum>, int),
                DecodeError,
            >(e),
        },
{
    let len = input.len();
    match shape {
        Shape::Tag => {
            let end = match kind {
                Kind::Request => match TypeTag::<REQUEST_TAG>::decode(input, pos) {
                    Ok((_, end)) => end,
                    Err(e) => return Err(e),
                },
                Kind::Response => match TypeTag::<RESPONSE_TAG>::decode(input, pos) {
                    Ok((_, end)) => end,
                    Err(e) => return Err(e),
                },
                Kind::Error => match TypeTag::<ERROR_TAG>::decode(input, pos) {
                    Ok((_, end)) => end,
                    Err(e) => return Err(e),
                },
            };
            Ok((None, end))
        },
        Shape::Id => match take_u32(input, pos) {
            Ok((n, end)) => Ok((Some(Field::Number(n as u64)), end)),
            Err(_) => Err(DecodeError::Malformed { at: pos }),
        },
        Shape::Code => match peek(input, pos) {
            Err(_) => Err(DecodeError::Malformed { at: pos }),
            Ok(Lead::Null) => Ok((None, pos + 1)),
            Ok(_) => match take_uint(input, pos) {
                Ok((n, end)) => Ok((Some(Field::Number(n)), end)),
                Err(_) => Err(DecodeError::Malformed { at: pos }),
            },
        },
        Shape::Text => match take_text(input, pos) {
            Ok((text, end)) => Ok((Some(Field::Text(text)), end)),
            Err(_) => Err(DecodeError::Malformed { at: pos }),
        },
        Shape::OptionalText => match peek(input, pos) {
            Err(_) => Err(DecodeError::Malformed { at: pos }),
            Ok(Lead::Null) => Ok((None, pos + 1)),
            Ok(_) => match take_text(input, pos) {
                Ok((text, end)) => Ok((Some(Field::Text(text)), end)),
                Err(_) => Err(DecodeError::Malformed { at: pos }),
            },
        },
        Shape::Flag => match take_flag(input, pos) {
            Ok((flag, end)) => Ok((Some(Field::Flag(flag)), end)),
            Err(_) => Err(DecodeError::Malformed { at: pos }),
        },
    }
}

/// Reads one entry at `pos` into `record`. Returns the position after it.
fn read_entry<'a>(
    input: &'a [u8],
    pos: usize,
    kind: Kind,
    tagged: bool,
    record: &mut Record<'a>,
) -> (r: Result<usize, DecodeError>)
    ensures
        match r {
            Ok(end) => entry_at(input@, pos as int, kind, tagged, old(record)@) == Ok::<
                (Slots, int),
                DecodeError,
            >((final(record)@, end as int)),
            Err(e) => entry_at(input@, pos as int, kind, tagged, old(record)@) == Err::<
                (Slots, int),
                DecodeError,
            >(e),
        },
{
    let (key, start) = match take_int(input, pos) {
        Ok(found) => found,
        Err(_) => return Err(DecodeError::Malformed { at: pos }),
    };
    let shape = if key < 0 {
        None
    } else {
        kind.shape(key as u64, tagged)
    };
    match shape {
        None => match skip_item(input, start) {
            Ok(end) => Ok(end),
            Err(_) => Err(DecodeError::Malformed { at: start }),
        },
        Some(shape) => match read_value(input, start, shape, kind) {
            Ok((value, end)) => {
                record.set(key as u64, value);
                Ok(end)
            },
            Err(e) => Err(e),
        },
    }
}

/// Reads the map of an envelope of the given kind at `pos`: the values of
/// the keys that the kind's schema knows, and the position after the map.
///
/// Entries are read in the order they come. The first one that cannot be
/// read decides the error. Of several entries under one key the last one
/// counts.
pub fn read_record<'a>(input: &'a [u8], pos: usize, kind: Kind, tagged: bool) -> (r: Result<
    (Record<'a>, usize),
    DecodeError,
>)
    ensures
        agrees(r, record_at(input@, pos as int, kind, tagged)),
{
    let (count, start) = match take_map(input, pos) {
        Ok(found) => found,
        Err(_) => return Err(DecodeError::Malformed { at: pos }),
    };
    let len = input.len();
    let mut record = Record::new();
    let mut at: usize = start;
    match count {
        Some(count) => {
            let mut done: u64 = 0;
            while done < count
                invariant
                    done <= count,
                    record_at(input@, pos as int, kind, tagged) == entries_at(
                        input@,
                        at as int,
                        (count - done) as nat,
                        kind,
                        tagged,
                        record@,
                    ),
                decreases count - done,
            {
                match read_entry(input, at, kind, tagged, &mut record) {
                    Ok(end) => {
                        at = end;
                    },
                    Err(e) => return Err(e),
                }
                done = done + 1;
            }
            Ok((record, at))
        },
        None => {
            loop
                invariant
                    input@.len() == len,
                    record_at(input@, pos as int, kind, tagged) == entries_to_break(
                        input@,
                        at as int,
                        kind,
                        tagged,
                        record@,
                    ),
                decreases input@.len() - at,
            {
                match peek(input, at) {
                    Err(_) => return Err(DecodeError::Malformed { at }),
                    Ok(Lead::Break) => return Ok((record, at + 1)),
                    Ok(_) => {
                        proof {
                            lemma_entry_advances(input@, at as int, kind, tagged, record@);
                        }
                        match read_entry(input, at, kind, tagged, &mut record) {
                            Ok(end) => {
                                at = end;
                            },
                            Err(e) => return Err(e),
                        }
                    },
                }
            }
        },
    }
}

/// One entry of a map: a key and the value under it.
pub struct Entry {
    pub key: u64,
    pub value: Datum,
}

/// The bytes of a value.
pub open spec fn datum_bytes(value: Datum) -> Seq<u8> {
    match value {
        Datum::Number(n) => uint_bytes(n as nat),
        Datum::Text(text) => text_bytes(text),
        Datum::Flag(flag) => flag_bytes(flag),
    }
}

/// The bytes of an entry: the key as an unsigned integer, then the value.
pub open spec fn entry_bytes(entry: Entry) -> Seq<u8> {
    uint_bytes(entry.key as nat) + datum_bytes(entry.value)
}

/// The bytes of entries, one after the other.
pub open spec fn entries_bytes(entries: Seq<Entry>) -> Seq<u8>
    decreases entries.len(),
{
    if entries.len() == 0 {
        Seq::empty()
    } else {
        entry_bytes(entries[0]) + entries_bytes(entries.drop_first())
    }
}

/// The bytes of a map with these entries: the head with their number, then
/// the entries.
pub open spec fn record_bytes(entries: Seq<Entry>) -> Seq<u8> {
    map_bytes(entries.len()) + entries_bytes(entries)
}

/// The bytes of entries with one more at the end.
pub proof fn lemma_entries_push(entries: Seq<Entry>, entry: Entry)
    ensures
        entries_bytes(entries.push(entry)) == entries_bytes(entries) + entry_bytes(entry),
    decreases entries.len(),
{
    let all = entries.push(entry);
    if entries.len() == 0 {
        assert(all.drop_first() =~= Seq::<Entry>::empty());
        assert(entries_bytes(all.drop_first()) =~= Seq::<u8>::empty());
        assert(entries_bytes(all) =~= entry_bytes(entry));
        assert(entries_bytes(entries) + entry_bytes(entry) =~= entry_bytes(entry));
    } else {
        lemma_entries_push(entries.drop_first(), entry);
        assert(all.drop_first() =~= entries.drop_first().push(entry));
        assert(entries_bytes(all) =~= entries_bytes(entries) + entry_bytes(entry));
    }
}

/// Starts a map of `count` entries.
pub(crate) fn begin_record(buf: &mut Vec<u8>, count: u64)
    ensures
        final(buf)@ == old(buf)@ + map_bytes(count as nat) + entries_bytes(Seq::<Entry>::empty()),
{
    put_map(buf, count);
    assert(buf@ =~= old(buf)@ + map_bytes(count as nat) + entries_bytes(Seq::<Entry>::empty()));
}

/// Appends one entry to a map that was begun: behind `before`, which ends
/// with the map's head, `buf` holds `entries` and then holds one more.
pub(crate) fn put_entry(
    buf: &mut Vec<u8>,
    key: u64,
    field: Field<'_>,
    Ghost(before): Ghost<Seq<u8>>,
    Ghost(entries): Ghost<Seq<Entry>>,
)
    requires
        old(buf)@ == before + entries_bytes(entries),
    ensures
        final(buf)@ == before + entries_bytes(entries.push(Entry { key, value: field@ })),
{
    let ghost entry = Entry { key, value: field@ };
    put_uint(buf, key);
    match field {
        Field::Number(n) => put_uint(buf, n),
        Field::Text(text) => put_text(buf, text),
        Field::Flag(flag) => put_flag(buf, flag),
    }
    proof {
        lemma_entries_push(entries, entry);
        assert(buf@ =~= before + entries_bytes(entries.push(entry)));
    }
}

/// Whether a reader of the given kind can take the entry in: the key is
/// one that a signed reader can read, the value has the shape that the
/// kind's schema has for the key, the tag is the kind's own, and an entry
/// under a key that the schema does not know holds a number.
pub open spec fn fits(entry: Entry, kind: Kind, tagged: bool) -> bool {
    entry.key <= i64::MAX && match kind.spec_shape(entry.key, tagged) {
        None => entry.value is Number,
        Some(Shape::Tag) => entry.value == Datum::Number(kind.spec_tag()),
        Some(Shape::Id) => entry.value matches Datum::Number(n) && n <= u32::MAX,
        Some(Shape::Code) => entry.value is Number,
        Some(Shape::Text) | Some(Shape::OptionalText) => entry.value matches Datum::Text(text)
            && encode_utf8(text).len() <= u64::MAX,
        Some(Shape::Flag) => entry.value is Flag,
    }
}

/// The slots after a reader has taken the entry in.
pub open spec fn kept(slots: Slots, entry: Entry, kind: Kind, tagged: bool) -> Slots {
    match kind.spec_shape(entry.key, tagged) {
        None | Some(Shape::Tag) => slots,
        Some(_) => slots.set(entry.key, Some(entry.value)),
    }
}

/// The slots after a reader has taken the entries in, in their order.
pub open spec fn kept_all(slots: Slots, entries: Seq<Entry>, kind: Kind, tagged: bool) -> Slots
    decreases entries.len(),
{
    if entries.len() == 0 {
        slots
    } else {
        kept_all(kept(slots, entries[0], kind, tagged), entries.drop_first(), kind, tagged)
    }
}

/// Taking in one more entry at the end.
pub proof fn lemma_kept_push(
    slots: Slots,
    entries: Seq<Entry>,
    entry: Entry,
    kind: Kind,
    tagged: bool,
)
    ensures
        kept_all(slots, entries.push(entry), kind, tagged) == kept(
            kept_all(slots, entries, kind, tagged),
            entry,
            kind,
            tagged,
        ),
    decreases entries.len(),
{
    let all = entries.push(entry);
    if entries.len() == 0 {
        assert(all.drop_first() =~= Seq::<Entry>::empty());
        assert(kept_all(kept(slots, entry, kind, tagged), all.drop_first(), kind, tagged) == kept(
            slots,
            entry,
            kind,
            tagged,
        ));
    } else {
        assert(all.drop_first() =~= entries.drop_first().push(entry));
        lemma_kept_push(kept(slots, entries[0], kind, tagged), entries.drop_first(), entry, kind, tagged);
    }
}

/// Entries that fit, with one more that fits at the end, all fit.
pub proof fn lemma_fits_push(entries: Seq<Entry>, entry: Entry, kind: Kind, tagged: bool)
    requires
        forall|i: int| 0 <= i < entries.len() ==> fits(#[trigger] entries[i], kind, tagged),
        fits(entry, kind, tagged),
    ensures
        forall|i: int|
            0 <= i < entries.push(entry).len() ==> fits(
                #[trigger] entries.push(entry)[i],
                kind,
                tagged,
            ),
{
}

/// Where the input holds `a + b` at `pos`, it holds `a` there and `b` behind
/// it.
pub proof fn lemma_split(input: Seq<u8>, pos: int, a: Seq<u8>, b: Seq<u8>)
    requires
        0 <= pos,
        pos + (a + b).len() <= input.len(),
        input.subrange(pos, pos + (a + b).len()) == a + b,
    ensures
        input.subrange(pos, pos + a.len()) == a,
        input.subrange(pos + a.len(), pos + a.len() + b.len()) == b,
{
    let whole = a + b;
    assert(input.subrange(pos, pos + a.len()) =~= a) by {
        assert forall|i: int| 0 <= i < a.len() implies input[pos + i] == a[i] by {
            assert(input[pos + i] == input.subrange(pos, pos + whole.len())[i]);
        }
    }
    assert(input.subrange(pos + a.len(), pos + a.len() + b.len()) =~= b) by {
        assert forall|i: int| 0 <= i < b.len() implies input[pos + a.len() + i] == b[i] by {
            assert(input[pos + a.len() + i] == input.subrange(pos, pos + whole.len())[a.len()
                + i]);
        }
    }
}

/// An entry that was written and that fits the reader is read back.
pub proof fn lemma_entry_written(
    input: Seq<u8>,
    pos: int,
    entry: Entry,
    kind: Kind,
    tagged: bool,
    slots: Slots,
)
    requires
        fits(entry, kind, tagged),
        0 <= pos,
        pos + entry_bytes(entry).len() <= input.len(),
        input.subrange(pos, pos + entry_bytes(entry).len()) == entry_bytes(entry),
    ensures
        entry_at(input, pos, kind, tagged, slots) == Ok::<(Slots, int), DecodeError>(
            (kept(slots, entry, kind, tagged), pos + entry_bytes(entry).len()),
        ),
{
    let key = uint_bytes(entry.key as nat);
    let value = datum_bytes(entry.value);
    lemma_split(input, pos, key, value);
    lemma_int_at(input, pos, entry.key as nat);
    let start = pos + key.len();
    match entry.value {
        Datum::Number(n) => {
            lemma_uint_at(input, start, n as nat);
        },
        Datum::Text(text) => {
            lemma_text_at(input, start, text);
        },
        Datum::Flag(flag) => {
            lemma_flag_at(input, start, flag);
        },
    }
}

/// Entries that were written and that fit the reader are read back, in their
/// order.
pub proof fn lemma_entries_written(
    input: Seq<u8>,
    pos: int,
    entries: Seq<Entry>,
    kind: Kind,
    tagged: bool,
    slots: Slots,
)
    requires
        forall|i: int| 0 <= i < entries.len() ==> fits(#[trigger] entries[i], kind, tagged),
        0 <= pos,
        pos + entries_bytes(entries).len() <= input.len(),
        input.subrange(pos, pos + entries_bytes(entries).len()) == entries_bytes(entries),
    ensures
        entries_at(input, pos, entries.len(), kind, tagged, slots) == Ok::<
            (Slots, int),
            DecodeError,
        >((kept_all(slots, entries, kind, tagged), pos + entries_bytes(entries).len())),
    decreases entries.len(),
{
    if entries.len() > 0 {
        let first = entries[0];
        let rest = entries.drop_first();
        lemma_split(input, pos, entry_bytes(first), entries_bytes(rest));
        lemma_entry_written(input, pos, first, kind, tagged, slots);
        assert forall|i: int| 0 <= i < rest.len() implies fits(
            #[trigger] rest[i],
            kind,
            tagged,
        ) by {
            assert(rest[i] == entries[i + 1]);
        }
        lemma_entries_written(
            input,
            pos + entry_bytes(first).len(),
            rest,
            kind,
            tagged,
            kept(slots, first, kind, tagged),
        );
    }
}

/// A map that was written with entries that fit the reader is read back:
/// the reader keeps what the entries hold, and ends behind the map.
pub proof fn lemma_record_written(
    input: Seq<u8>,
    pos: int,
    entries: Seq<Entry>,
    kind: Kind,
    tagged: bool,
)
    requires
        entries.len() <= u64::MAX,
        forall|i: int| 0 <= i < entries.len() ==> fits(#[trigger] entries[i], kind, tagged),
        0 <= pos,
        pos + record_bytes(entries).len() <= input.len(),
        input.subrange(pos, pos + record_bytes(entries).len()) == record_bytes(entries),
    ensures
        record_at(input, pos, kind, tagged) == Ok::<(Slots, int), DecodeError>(
            (
                kept_all(Slots::empty(), entries, kind, tagged),
                pos + record_bytes(entries).len(),
            ),
        ),
{
    lemma_split(input, pos, map_bytes(entries.len()), entries_bytes(entries));
    lemma_map_at(input, pos, entries.len());
    lemma_entries_written(
        input,
        pos + map_bytes(entries.len()).len(),
        entries,
        kind,
        tagged,
        Slots::empty(),
    );
}

/// A map whose first entry is a tag other than the reader's own is refused
/// by a reader that looks for tags, whatever follows the tag.
pub proof fn lemma_wrong_tag(input: Seq<u8>, pos: int, entries: Seq<Entry>, kind: Kind)
    requires
        0 < entries.len() <= u64::MAX,
        entries[0].key == 0,
        entries[0].value is Number,
        entries[0].value->Number_0 != kind.spec_tag(),
        0 <= pos,
        pos + record_bytes(entries).len() <= input.len(),
        input.subrange(pos, pos + record_bytes(entries).len()) == record_bytes(entries),
    ensures
        record_at(input, pos, kind, true) == Err::<(Slots, int), DecodeError>(
            DecodeError::TagMismatch {
                expected: kind.spec_tag(),
                found: entries[0].value->Number_0,
            },
        ),
{
    let found = entries[0].value->Number_0;
    let first = entry_bytes(entries[0]);
    let rest = entries_bytes(entries.drop_first());
    lemma_split(input, pos, map_bytes(entries.len()), entries_bytes(entries));
    lemma_map_at(input, pos, entries.len());
    let start = pos + map_bytes(entries.len()).len();
    lemma_split(input, start, first, rest);
    lemma_split(input, start, uint_bytes(0), uint_bytes(found as nat));
    lemma_int_at(input, start, 0);
    lemma_uint_at(input, start + uint_bytes(0).len(), found as nat);
}

} // verus!
