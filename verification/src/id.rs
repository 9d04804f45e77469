//! Identifiers of requests and responses.

use crate::cbor::{put_uint, take_u32, u32_at, uint_bytes};
use crate::codec::{malformed, DecodeError, Encode, EncodeError};
use vstd::prelude::*;
use vstd::std_specs::convert::FromSpecImpl;

verus! {

/// A request/response identifier: 32 bits with no meaning beyond telling
/// messages apart.
#[derive(Debug, Copy, Clone, PartialEq, Eq, PartialOrd, Ord, Hash)]
pub struct Id(u32);

impl View for Id {
    type V = u32;

    closed spec fn view(&self) -> u32 {
        self.0
    }
}

/// The sixteen digits, in order.
pub open spec fn hex_alphabet() -> Seq<char> {
    seq!['0', '1', '2', '3', '4', '5', '6', '7', '8', '9', 'a', 'b', 'c', 'd', 'e', 'f']
}

/// The `width` low-order hexadecimal digits of `n`, most significant first,
/// in lower case.
pub open spec fn hex(n: nat, width: nat) -> Seq<char>
    decreases width,
{
    if width == 0 {
        Seq::empty()
    } else {
        hex(n / 16, (width - 1) as nat).push(hex_alphabet()[(n % 16) as int])
    }
}

/// Draws 32 bits from the thread's random number generator.
///
/// Calls `ockam_core::compat::rand::random`. Nothing is claimed of the
/// result: every value can come out.
#[verifier::external_body]
fn random_u32() -> u32 {
    ockam_core::compat::rand::random()
}

/// Renders a number as eight hexadecimal digits.
///
/// Calls std's `format!` with `{:08x}`. The contract claims that the result
/// is the number in lower-case hexadecimal, padded with zeros to eight
/// digits.
#[verifier::external_body]
fn format_hex(n: u32) -> (r: String)
    ensures
        r@ == hex(n as nat, 8),
{
    format!("{:08x}", n)
}

impl Id {
    /// An identifier drawn at random from all 32-bit values. Two fresh
    /// identifiers can be equal, though they seldom are.
    pub fn fresh() -> Self {
        Id::new(random_u32())
    }

    /// The identifier with the given number.
    pub fn new(n: u32) -> (r: Self)
        ensures
            r@ == n,
    {
        Id(n)
    }

    /// Reads an identifier at `pos`: an unsigned integer of at most 32 bits.
    /// Returns the position after it.
    pub fn decode(input: &[u8], pos: usize) -> (r: Result<(Id, usize), DecodeError>)
        ensures
            match r {
                Ok((id, end)) => u32_at(input@, pos as int) == Some((id@ as nat, end as int)),
                Err(e) => u32_at(input@, pos as int) is None && e == malformed(pos as int),
            },
    {
        match take_u32(input, pos) {
            Ok((n, end)) => Ok((Id(n), end)),
            Err(_) => Err(DecodeError::Malformed { at: pos }),
        }
    }

    /// The identifier as text: eight hexadecimal digits in lower case.
    pub fn to_string(&self) -> (r: String)
        ensures
            r@ == hex(self@ as nat, 8),
    {
        format_hex(self.0)
    }
}

/// An identifier is its number on the wire.
impl Encode for Id {
    open spec fn encoding(&self, tagged: bool) -> Result<Seq<u8>, EncodeError> {
        Ok(uint_bytes(self@ as nat))
    }

    fn encode(&self, buf: &mut Vec<u8>, tagged: bool) -> (r: Result<(), EncodeError>) {
        put_uint(buf, self.0 as u64);
        Ok(())
    }
}

impl From<Id> for u32 {
    fn from(n: Id) -> (r: Self) {
        n.0
    }
}

impl FromSpecImpl<Id> for u32 {
    open spec fn obeys_from_spec() -> bool {
        true
    }

    open spec fn from_spec(n: Id) -> Self {
        n@
    }
}

} // verus!
