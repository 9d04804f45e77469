//! The CBOR items that the envelopes are made of: what their bytes are, and
//! the calls into `minicbor` that write and read them.
//!
//! Each call stands in a function of its own whose contract is believed and
//! not proved. The writers write into a `Vec`, which accepts every write, so
//! that they cannot fail. The readers start a decoder at a position of the
//! input and return the position that it reached.

use minicbor::decode::Error as CborError;
use vstd::prelude::*;
use vstd::utf8::{decode_utf8, encode_utf8, valid_utf8};

verus! {

/// Major type of unsigned integers.
pub const UNSIGNED: u8 = 0;

/// Major type of negative integers.
pub const NEGATIVE: u8 = 1;

/// Major type of byte strings.
pub const BYTES: u8 = 2;

/// Major type of text strings.
pub const TEXT: u8 = 3;

/// Major type of arrays.
pub const ARRAY: u8 = 4;

/// Major type of maps.
pub const MAP: u8 = 5;

/// The `width` low-order bytes of `n`, most significant first.
pub open spec fn be_bytes(n: nat, width: nat) -> Seq<u8>
    decreases width,
{
    if width == 0 {
        Seq::empty()
    } else {
        be_bytes(n / 256, (width - 1) as nat).push((n % 256) as u8)
    }
}

/// The number that `bytes` spell, most significant byte first.
pub open spec fn be_value(bytes: Seq<u8>) -> nat
    decreases bytes.len(),
{
    if bytes.len() == 0 {
        0
    } else {
        be_value(bytes.drop_last()) * 256 + bytes.last() as nat
    }
}

/// The head of an item: the initial byte, which joins the major type with
/// either a small argument or the width of the argument that follows, and
/// then the argument in the shortest of the five widths.
pub open spec fn head(major: u8, arg: nat) -> Seq<u8> {
    if arg < 24 {
        seq![(major * 32 + arg) as u8]
    } else if arg < 0x100 {
        seq![(major * 32 + 24) as u8] + be_bytes(arg, 1)
    } else if arg < 0x1_0000 {
        seq![(major * 32 + 25) as u8] + be_bytes(arg, 2)
    } else if arg < 0x1_0000_0000 {
        seq![(major * 32 + 26) as u8] + be_bytes(arg, 4)
    } else {
        seq![(major * 32 + 27) as u8] + be_bytes(arg, 8)
    }
}

/// How many bytes of argument follow an initial byte with these low five
/// bits; `None` for the reserved values and for the indefinite marker.
pub open spec fn arg_width(info: int) -> Option<nat> {
    if 0 <= info < 24 {
        Some(0)
    } else if info == 24 {
        Some(1)
    } else if info == 25 {
        Some(2)
    } else if info == 26 {
        Some(4)
    } else if info == 27 {
        Some(8)
    } else {
        None
    }
}

/// The argument of the head that starts at `pos`, and the position after the
/// head. `None` where the low five bits are reserved or the input ends early.
pub open spec fn arg_at(input: Seq<u8>, pos: int) -> Option<(nat, int)> {
    if 0 <= pos < input.len() {
        let info = input[pos] as int % 32;
        match arg_width(info) {
            None => None,
            Some(width) => if width == 0 {
                Some((info as nat, pos + 1))
            } else if pos + 1 + width <= input.len() {
                Some((be_value(input.subrange(pos + 1, pos + 1 + width)), pos + 1 + width))
            } else {
                None
            },
        }
    } else {
        None
    }
}

/// Whether the byte at `pos` exists and carries this major type.
pub open spec fn major_at(input: Seq<u8>, pos: int, major: u8) -> bool {
    0 <= pos < input.len() && input[pos] as int / 32 == major as int
}

/// An unsigned integer at `pos`: its value and the position after it.
pub open spec fn uint_at(input: Seq<u8>, pos: int) -> Option<(nat, int)> {
    if major_at(input, pos, UNSIGNED) {
        arg_at(input, pos)
    } else {
        None
    }
}

/// The bytes of an unsigned integer.
pub open spec fn uint_bytes(n: nat) -> Seq<u8> {
    head(UNSIGNED, n)
}

/// An integer at `pos` that fits in 64 bits with a sign: its value and the
/// position after it. A head of major type 0 stands for its argument, one of
/// major type 1 for minus one minus its argument.
pub open spec fn int_at(input: Seq<u8>, pos: int) -> Option<(int, int)> {
    if major_at(input, pos, UNSIGNED) || major_at(input, pos, NEGATIVE) {
        match arg_at(input, pos) {
            Some((arg, end)) => if arg <= i64::MAX {
                if major_at(input, pos, UNSIGNED) {
                    Some((arg as int, end))
                } else {
                    Some((-1 - arg, end))
                }
            } else {
                None
            },
            None => None,
        }
    } else {
        None
    }
}

/// An unsigned integer at `pos` that fits in 32 bits.
pub open spec fn u32_at(input: Seq<u8>, pos: int) -> Option<(nat, int)> {
    match uint_at(input, pos) {
        Some((value, end)) => if value <= u32::MAX {
            Some((value, end))
        } else {
            None
        },
        None => None,
    }
}

/// The head of a map at `pos`: the number of its entries, or `None` for a
/// map that is closed by a break, and the position after the head.
pub open spec fn map_at(input: Seq<u8>, pos: int) -> Option<(Option<nat>, int)> {
    if major_at(input, pos, MAP) {
        if input[pos] as int % 32 == 31 {
            Some((None, pos + 1))
        } else {
            match arg_at(input, pos) {
                Some((count, end)) => Some((Some(count), end)),
                None => None,
            }
        }
    } else {
        None
    }
}

/// The head of a map of `count` entries.
pub open spec fn map_bytes(count: nat) -> Seq<u8> {
    head(MAP, count)
}

/// The head of an array of `count` items.
pub open spec fn array_bytes(count: nat) -> Seq<u8> {
    head(ARRAY, count)
}

/// A boolean at `pos`.
pub open spec fn flag_at(input: Seq<u8>, pos: int) -> Option<(bool, int)> {
    if 0 <= pos < input.len() && input[pos] == 0xf4 {
        Some((false, pos + 1))
    } else if 0 <= pos < input.len() && input[pos] == 0xf5 {
        Some((true, pos + 1))
    } else {
        None
    }
}

/// The byte of a boolean.
pub open spec fn flag_bytes(flag: bool) -> Seq<u8> {
    if flag {
        seq![0xf5u8]
    } else {
        seq![0xf4u8]
    }
}

/// The payload of the string head of major type `major` at `pos`: where it
/// starts and where it ends. `None` where the head is of another type or
/// incomplete, or the input ends before the payload does.
pub open spec fn payload_at(input: Seq<u8>, pos: int, major: u8) -> Option<(int, int)> {
    if major_at(input, pos, major) {
        match arg_at(input, pos) {
            Some((len, start)) => if start + len <= input.len() {
                Some((start, start + len))
            } else {
                None
            },
            None => None,
        }
    } else {
        None
    }
}

/// A byte string of definite length at `pos`.
pub open spec fn octets_at(input: Seq<u8>, pos: int) -> Option<(Seq<u8>, int)> {
    match payload_at(input, pos, BYTES) {
        Some((start, end)) => Some((input.subrange(start, end), end)),
        None => None,
    }
}

/// The bytes of a byte string.
pub open spec fn octets_bytes(octets: Seq<u8>) -> Seq<u8> {
    head(BYTES, octets.len()) + octets
}

/// A text string of definite length at `pos`: its payload must be UTF-8.
pub open spec fn text_at(input: Seq<u8>, pos: int) -> Option<(Seq<char>, int)> {
    match payload_at(input, pos, TEXT) {
        Some((start, end)) => if valid_utf8(input.subrange(start, end)) {
            Some((decode_utf8(input.subrange(start, end)), end))
        } else {
            None
        },
        None => None,
    }
}

/// The bytes of a text string.
pub open spec fn text_bytes(text: Seq<char>) -> Seq<u8> {
    head(TEXT, encode_utf8(text).len()) + encode_utf8(text)
}

/// What the decoding loops need to know of the item that comes next.
#[derive(Clone, Copy, Debug, PartialEq, Eq, Structural)]
pub enum Lead {
    /// The break that closes a map of indefinite length.
    Break,
    /// The null item.
    Null,
    /// Anything else.
    Other,
}

/// The kind of the item at `pos`. `None` at the end of the input, and where
/// a negative integer's initial byte announces an argument that is missing.
pub open spec fn lead_at(input: Seq<u8>, pos: int) -> Option<Lead> {
    if !(0 <= pos < input.len()) {
        None
    } else if 0x38 <= input[pos] <= 0x3b && pos + 1 >= input.len() {
        None
    } else if input[pos] == 0xff {
        Some(Lead::Break)
    } else if input[pos] == 0xf6 {
        Some(Lead::Null)
    } else {
        Some(Lead::Other)
    }
}

/// The position after the whole item that starts at `pos`, whatever the item
/// is and however deeply it nests; `None` where no whole item starts there.
pub uninterp spec fn item_end(input: Seq<u8>, pos: int) -> Option<int>;

/// Where skipping the item at `pos` ends. An unsigned integer ends where
/// reading it ends; any other item has at least one byte and ends within the
/// input.
pub open spec fn skipped_at(input: Seq<u8>, pos: int) -> Option<int> {
    match uint_at(input, pos) {
        Some((_, end)) => Some(end),
        None => match item_end(input, pos) {
            Some(end) => if pos < end <= input.len() {
                Some(end)
            } else {
                None
            },
            None => None,
        },
    }
}

/// `minicbor::decode::Error`: what a call of the decoder fails with. The
/// library looks at no such value; it only tells failure from success.
#[verifier::external_type_specification]
#[verifier::external_body]
pub struct ExCborError(CborError);

/// Appends an unsigned integer.
///
/// Calls `minicbor::Encoder::u64` on an encoder over `buf`. The contract
/// claims that it appends the shortest head of major type 0 for `x` and
/// nothing else. A `Vec` accepts every write, so the call cannot fail.
#[verifier::external_body]
pub(crate) fn put_uint(buf: &mut Vec<u8>, x: u64)
    ensures
        final(buf)@ == old(buf)@ + uint_bytes(x as nat),
{
    let _ = minicbor::Encoder::new(buf).u64(x);
}

/// Appends the head of a map of `count` entries.
///
/// Calls `minicbor::Encoder::map`. The contract claims that it appends the
/// shortest head of major type 5 for `count`.
#[verifier::external_body]
pub(crate) fn put_map(buf: &mut Vec<u8>, count: u64)
    ensures
        final(buf)@ == old(buf)@ + map_bytes(count as nat),
{
    let _ = minicbor::Encoder::new(buf).map(count);
}

/// Appends the head of an array of `count` items.
///
/// Calls `minicbor::Encoder::array`. The contract claims that it appends the
/// shortest head of major type 4 for `count`.
#[verifier::external_body]
pub(crate) fn put_array(buf: &mut Vec<u8>, count: u64)
    ensures
        final(buf)@ == old(buf)@ + array_bytes(count as nat),
{
    let _ = minicbor::Encoder::new(buf).array(count);
}

/// Appends a boolean.
///
/// Calls `minicbor::Encoder::bool`. The contract claims that it appends the
/// one byte 0xf5 for `true` and 0xf4 for `false`.
#[verifier::external_body]
pub(crate) fn put_flag(buf: &mut Vec<u8>, flag: bool)
    ensures
        final(buf)@ == old(buf)@ + flag_bytes(flag),
{
    let _ = minicbor::Encoder::new(buf).bool(flag);
}

/// Appends a text string.
///
/// Calls `minicbor::Encoder::str`. The contract claims that it appends the
/// shortest head of major type 3 for the length of the text in UTF-8, and
/// then the text in UTF-8.
#[verifier::external_body]
pub(crate) fn put_text(buf: &mut Vec<u8>, text: &str)
    ensures
        final(buf)@ == old(buf)@ + text_bytes(text@),
{
    let _ = minicbor::Encoder::new(buf).str(text);
}

/// Appends a byte string.
///
/// Calls `minicbor::Encoder::bytes`. The contract claims that it appends the
/// shortest head of major type 2 for the number of bytes, and then the bytes.
#[verifier::external_body]
pub(crate) fn put_octets(buf: &mut Vec<u8>, octets: &[u8])
    ensures
        final(buf)@ == old(buf)@ + octets_bytes(octets@),
{
    let _ = minicbor::Encoder::new(buf).bytes(octets);
}

/// Reads an unsigned integer.
///
/// Calls `minicbor::Decoder::u64` at `pos`. The contract claims that it
/// succeeds exactly on a head of major type 0 with a whole argument, and
/// returns the argument and the position after it.
#[verifier::external_body]
pub(crate) fn take_uint(input: &[u8], pos: usize) -> (r: Result<
    (u64, usize),
    CborError,
>)
    ensures
        match r {
            Ok((value, end)) => uint_at(input@, pos as int) == Some((value as nat, end as int)),
            Err(_) => uint_at(input@, pos as int) is None,
        },
{
    let mut d = minicbor::Decoder::new(input);
    d.set_position(pos);
    match d.u64() {
        Ok(value) => Ok((value, d.position())),
        Err(e) => Err(e),
    }
}

/// Reads an integer, of either sign.
///
/// Calls `minicbor::Decoder::i64` at `pos`. The contract claims that it
/// succeeds exactly on a head of major type 0 or 1 with a whole argument of
/// at most `i64::MAX`, and returns the argument for major type 0 and minus
/// one minus the argument for major type 1.
#[verifier::external_body]
pub(crate) fn take_int(input: &[u8], pos: usize) -> (r: Result<(i64, usize), CborError>)
    ensures
        match r {
            Ok((value, end)) => int_at(input@, pos as int) == Some((value as int, end as int)),
            Err(_) => int_at(input@, pos as int) is None,
        },
{
    let mut d = minicbor::Decoder::new(input);
    d.set_position(pos);
    match d.i64() {
        Ok(value) => Ok((value, d.position())),
        Err(e) => Err(e),
    }
}

/// Reads an unsigned integer of at most 32 bits.
///
/// Calls `minicbor::Decoder::u32` at `pos`. The contract claims that it
/// succeeds exactly where `Decoder::u64` would and the value fits in `u32`.
#[verifier::external_body]
pub(crate) fn take_u32(input: &[u8], pos: usize) -> (r: Result<
    (u32, usize),
    CborError,
>)
    ensures
        match r {
            Ok((value, end)) => u32_at(input@, pos as int) == Some((value as nat, end as int)),
            Err(_) => u32_at(input@, pos as int) is None,
        },
{
    let mut d = minicbor::Decoder::new(input);
    d.set_position(pos);
    match d.u32() {
        Ok(value) => Ok((value, d.position())),
        Err(e) => Err(e),
    }
}

/// Reads the head of a map.
///
/// Calls `minicbor::Decoder::map` at `pos`. The contract claims that it
/// succeeds exactly on a head of major type 5 that either is the indefinite
/// marker, for which it returns `None`, or has a whole argument, which it
/// returns as the number of entries.
#[verifier::external_body]
pub(crate) fn take_map(input: &[u8], pos: usize) -> (r: Result<
    (Option<u64>, usize),
    CborError,
>)
    ensures
        match r {
            Ok((count, end)) => map_at(input@, pos as int) == Some(
                (
                    match count {
                        Some(n) => Some(n as nat),
                        None => None,
                    },
                    end as int,
                ),
            ),
            Err(_) => map_at(input@, pos as int) is None,
        },
{
    let mut d = minicbor::Decoder::new(input);
    d.set_position(pos);
    match d.map() {
        Ok(count) => Ok((count, d.position())),
        Err(e) => Err(e),
    }
}

/// Reads a boolean.
///
/// Calls `minicbor::Decoder::bool` at `pos`. The contract claims that it
/// succeeds exactly on the bytes 0xf4 and 0xf5.
#[verifier::external_body]
pub(crate) fn take_flag(input: &[u8], pos: usize) -> (r: Result<
    (bool, usize),
    CborError,
>)
    ensures
        match r {
            Ok((flag, end)) => flag_at(input@, pos as int) == Some((flag, end as int)),
            Err(_) => flag_at(input@, pos as int) is None,
        },
{
    let mut d = minicbor::Decoder::new(input);
    d.set_position(pos);
    match d.bool() {
        Ok(flag) => Ok((flag, d.position())),
        Err(e) => Err(e),
    }
}

/// Reads a text string, borrowing it from the input.
///
/// Calls `minicbor::Decoder::str` at `pos`. The contract claims that it
/// succeeds exactly on a head of major type 3 with a whole argument, followed
/// by that many bytes of valid UTF-8, and returns the text they encode.
#[verifier::external_body]
pub(crate) fn take_text<'a>(input: &'a [u8], pos: usize) -> (r: Result<
    (&'a str, usize),
    CborError,
>)
    ensures
        match r {
            Ok((text, end)) => text_at(input@, pos as int) == Some((text@, end as int)),
            Err(_) => text_at(input@, pos as int) is None,
        },
{
    let mut d = minicbor::Decoder::new(input);
    d.set_position(pos);
    match d.str() {
        Ok(text) => Ok((text, d.position())),
        Err(e) => Err(e),
    }
}

/// Reads a byte string, borrowing it from the input.
///
/// Calls `minicbor::Decoder::bytes` at `pos`. The contract claims that it
/// succeeds exactly on a head of major type 2 with a whole argument, followed
/// by that many bytes, and returns those bytes.
#[verifier::external_body]
pub(crate) fn take_octets<'a>(input: &'a [u8], pos: usize) -> (r: Result<
    (&'a [u8], usize),
    CborError,
>)
    ensures
        match r {
            Ok((octets, end)) => octets_at(input@, pos as int) == Some((octets@, end as int)),
            Err(_) => octets_at(input@, pos as int) is None,
        },
{
    let mut d = minicbor::Decoder::new(input);
    d.set_position(pos);
    match d.bytes() {
        Ok(octets) => Ok((octets, d.position())),
        Err(e) => Err(e),
    }
}

/// Looks at the item that comes next without consuming it.
///
/// Calls `minicbor::Decoder::datatype` at `pos`. The contract claims that it
/// fails only at the end of the input or on a negative integer whose
/// argument is missing, and that it reports a break for the byte 0xff and
/// null for the byte 0xf6.
#[verifier::external_body]
pub(crate) fn peek(input: &[u8], pos: usize) -> (r: Result<Lead, CborError>)
    ensures
        match r {
            Ok(lead) => lead_at(input@, pos as int) == Some(lead),
            Err(_) => lead_at(input@, pos as int) is None,
        },
{
    let mut d = minicbor::Decoder::new(input);
    d.set_position(pos);
    match d.datatype() {
        Ok(minicbor::data::Type::Break) => Ok(Lead::Break),
        Ok(minicbor::data::Type::Null) => Ok(Lead::Null),
        Ok(_) => Ok(Lead::Other),
        Err(e) => Err(e),
    }
}

/// Skips the item that comes next.
///
/// Calls `minicbor::Decoder::skip` at `pos`. The contract gives the position
/// that a successful skip reaches the name `item_end`, and claims of it that
/// a skipped item has at least one byte and ends within the input, and that
/// an unsigned integer is always skipped, to where reading it ends.
#[verifier::external_body]
pub(crate) fn skip_item(input: &[u8], pos: usize) -> (r: Result<usize, CborError>)
    ensures
        match r {
            Ok(end) => {
                &&& item_end(input@, pos as int) == Some(end as int)
                &&& pos < end <= input@.len()
                &&& uint_at(input@, pos as int) matches Some((_, after)) ==> after == end
            },
            Err(_) => item_end(input@, pos as int) is None && uint_at(input@, pos as int) is None,
        },
{
    let mut d = minicbor::Decoder::new(input);
    d.set_position(pos);
    match d.skip() {
        Ok(()) => Ok(d.position()),
        Err(e) => Err(e),
    }
}

/// One more than the largest number that `width` bytes can spell.
pub open spec fn limit(width: nat) -> nat
    decreases width,
{
    if width == 0 {
        1
    } else {
        256 * limit((width - 1) as nat)
    }
}

/// The limits of the four widths that a head uses.
pub proof fn lemma_limits()
    ensures
        limit(0) == 1,
        limit(1) == 0x100,
        limit(2) == 0x1_0000,
        limit(4) == 0x1_0000_0000,
        limit(8) == 0x1_0000_0000_0000_0000,
{
    assert(limit(1) == 256 * limit(0));
    assert(limit(2) == 256 * limit(1));
    assert(limit(3) == 256 * limit(2));
    assert(limit(4) == 256 * limit(3));
    assert(limit(5) == 256 * limit(4));
    assert(limit(6) == 256 * limit(5));
    assert(limit(7) == 256 * limit(6));
    assert(limit(8) == 256 * limit(7));
}

/// Spelling a number in enough bytes and reading the bytes back gives the
/// number.
pub proof fn lemma_be_value_of_be_bytes(n: nat, width: nat)
    requires
        n < limit(width),
    ensures
        be_bytes(n, width).len() == width,
        be_value(be_bytes(n, width)) == n,
    decreases width,
{
    if width > 0 {
        let rest = be_bytes(n / 256, (width - 1) as nat);
        lemma_be_value_of_be_bytes(n / 256, (width - 1) as nat);
        assert(be_bytes(n, width).drop_last() =~= rest);
    }
}

/// The number of bytes that follow the initial byte in the head for `arg`.
pub open spec fn head_width(arg: nat) -> nat {
    if arg < 24 {
        0
    } else if arg < 0x100 {
        1
    } else if arg < 0x1_0000 {
        2
    } else if arg < 0x1_0000_0000 {
        4
    } else {
        8
    }
}

/// A head is its initial byte and then its argument, one to nine bytes.
pub proof fn lemma_head_len(major: u8, arg: nat)
    requires
        arg <= u64::MAX,
    ensures
        head(major, arg).len() == 1 + head_width(arg),
{
    lemma_limits();
    if head_width(arg) > 0 {
        lemma_be_value_of_be_bytes(arg, head_width(arg));
    }
}

/// Where the input holds the head for `arg` at `pos`, reading a head there
/// finds the major type and `arg`, and ends behind the head.
pub proof fn lemma_head_at(input: Seq<u8>, pos: int, major: u8, arg: nat)
    requires
        major < 8,
        arg <= u64::MAX,
        0 <= pos,
        pos + head(major, arg).len() <= input.len(),
        input.subrange(pos, pos + head(major, arg).len()) == head(major, arg),
    ensures
        major_at(input, pos, major),
        input[pos] as int % 32 != 31,
        arg_at(input, pos) == Some((arg, pos + head(major, arg).len())),
{
    lemma_limits();
    let h = head(major, arg);
    let width = head_width(arg);
    lemma_head_len(major, arg);
    assert(input[pos] == input.subrange(pos, pos + h.len())[0]);
    if width > 0 {
        lemma_be_value_of_be_bytes(arg, width);
        assert(input.subrange(pos + 1, pos + 1 + width) =~= be_bytes(arg, width)) by {
            assert forall|i: int| 0 <= i < width implies input[pos + 1 + i] == be_bytes(
                arg,
                width,
            )[i] by {
                assert(input[pos + 1 + i] == input.subrange(pos, pos + h.len())[1 + i]);
            }
        }
    }
}

/// An unsigned integer that was written is read back.
pub proof fn lemma_uint_at(input: Seq<u8>, pos: int, n: nat)
    requires
        n <= u64::MAX,
        0 <= pos,
        pos + uint_bytes(n).len() <= input.len(),
        input.subrange(pos, pos + uint_bytes(n).len()) == uint_bytes(n),
    ensures
        uint_at(input, pos) == Some((n, pos + uint_bytes(n).len())),
        lead_at(input, pos) == Some(Lead::Other),
{
    lemma_head_at(input, pos, UNSIGNED, n);
}

/// An unsigned integer of at most `i64::MAX` that was written is read back
/// by a reader of integers of either sign.
pub proof fn lemma_int_at(input: Seq<u8>, pos: int, n: nat)
    requires
        n <= i64::MAX,
        0 <= pos,
        pos + uint_bytes(n).len() <= input.len(),
        input.subrange(pos, pos + uint_bytes(n).len()) == uint_bytes(n),
    ensures
        int_at(input, pos) == Some((n as int, pos + uint_bytes(n).len())),
{
    lemma_head_at(input, pos, UNSIGNED, n);
}

/// A map head that was written is read back, with its count.
pub proof fn lemma_map_at(input: Seq<u8>, pos: int, count: nat)
    requires
        count <= u64::MAX,
        0 <= pos,
        pos + map_bytes(count).len() <= input.len(),
        input.subrange(pos, pos + map_bytes(count).len()) == map_bytes(count),
    ensures
        map_at(input, pos) == Some((Some(count), pos + map_bytes(count).len())),
{
    lemma_head_at(input, pos, MAP, count);
}

/// A boolean that was written is read back.
pub proof fn lemma_flag_at(input: Seq<u8>, pos: int, flag: bool)
    requires
        0 <= pos,
        pos + 1 <= input.len(),
        input.subrange(pos, pos + 1) == flag_bytes(flag),
    ensures
        flag_bytes(flag).len() == 1,
        flag_at(input, pos) == Some((flag, pos + 1)),
{
    assert(input[pos] == input.subrange(pos, pos + 1)[0]);
}

/// The payload of a string that was written: `payload` stands whole behind
/// the head for its length.
pub proof fn lemma_payload_at(input: Seq<u8>, pos: int, major: u8, payload: Seq<u8>)
    requires
        major < 8,
        payload.len() <= u64::MAX,
        0 <= pos,
        pos + (head(major, payload.len()) + payload).len() <= input.len(),
        input.subrange(pos, pos + (head(major, payload.len()) + payload).len()) == head(
            major,
            payload.len(),
        ) + payload,
    ensures
        payload_at(input, pos, major) matches Some((start, end)) && end == pos + (head(
            major,
            payload.len(),
        ) + payload).len() && input.subrange(start, end) == payload,
        major_at(input, pos, major),
{
    let h = head(major, payload.len());
    let whole = h + payload;
    lemma_head_len(major, payload.len());
    assert(input.subrange(pos, pos + h.len()) =~= h) by {
        assert forall|i: int| 0 <= i < h.len() implies input[pos + i] == h[i] by {
            assert(input[pos + i] == input.subrange(pos, pos + whole.len())[i]);
        }
    }
    lemma_head_at(input, pos, major, payload.len());
    let start = pos + h.len();
    assert(input.subrange(start, start + payload.len()) =~= payload) by {
        assert forall|i: int| 0 <= i < payload.len() implies input[start + i] == payload[i] by {
            assert(input[start + i] == input.subrange(pos, pos + whole.len())[h.len() + i]);
        }
    }
}

/// A byte string that was written is read back.
pub proof fn lemma_octets_at(input: Seq<u8>, pos: int, octets: Seq<u8>)
    requires
        octets.len() <= u64::MAX,
        0 <= pos,
        pos + octets_bytes(octets).len() <= input.len(),
        input.subrange(pos, pos + octets_bytes(octets).len()) == octets_bytes(octets),
    ensures
        octets_at(input, pos) == Some((octets, pos + octets_bytes(octets).len())),
{
    lemma_payload_at(input, pos, BYTES, octets);
}

/// A text string that was written is read back.
pub proof fn lemma_text_at(input: Seq<u8>, pos: int, text: Seq<char>)
    requires
        encode_utf8(text).len() <= u64::MAX,
        0 <= pos,
        pos + text_bytes(text).len() <= input.len(),
        input.subrange(pos, pos + text_bytes(text).len()) == text_bytes(text),
    ensures
        text_at(input, pos) == Some((text, pos + text_bytes(text).len())),
        lead_at(input, pos) == Some(Lead::Other),
{
    lemma_payload_at(input, pos, TEXT, encode_utf8(text));
    vstd::utf8::encode_utf8_valid_utf8(text);
    vstd::utf8::encode_utf8_decode_utf8(text);
}

} // verus!
