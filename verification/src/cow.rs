//! Text and bytes that borrow from the input they were decoded from.

use crate::cbor::{
    octets_at, octets_bytes, put_octets, put_text, take_octets, take_text, text_at, text_bytes,
};
use crate::codec::{malformed, DecodeError, Encode, EncodeError};
use ockam_core::compat::borrow::Cow;
use std::ops::{Deref, DerefMut};
use vstd::prelude::*;
use vstd::std_specs::convert::FromSpecImpl;

verus! {

/// A newtype around `Cow<'_, str>` that borrows from input.
///
/// Decoding never copies the text: the value refers to the bytes of the
/// input, also where it stands inside an `Option` or a `Vec`. A copy is made
/// only where one is asked for.
#[derive(Debug, PartialEq, Eq, PartialOrd, Ord, Hash)]
pub struct CowStr<'a>(pub Cow<'a, str>);

impl<'a> Clone for CowStr<'a> {
    /// The same text, borrowed where this one is borrowed.
    fn clone(&self) -> (r: Self)
        ensures
            r@ == self@,
            r.is_borrowed() == self.is_borrowed(),
    {
        match &self.0 {
            Cow::Borrowed(text) => CowStr(Cow::Borrowed(text)),
            Cow::Owned(text) => CowStr(Cow::Owned(text.clone())),
        }
    }
}

impl<'a> View for CowStr<'a> {
    type V = Seq<char>;

    open spec fn view(&self) -> Seq<char> {
        self.0@
    }
}

impl<'a> CowStr<'a> {
    /// Whether the text is borrowed.
    pub open spec fn spec_is_borrowed(&self) -> bool {
        self.0 is Borrowed
    }

    /// Whether the text is borrowed.
    #[verifier::when_used_as_spec(spec_is_borrowed)]
    pub fn is_borrowed(&self) -> (r: bool)
        ensures
            r == self.spec_is_borrowed(),
    {
        match &self.0 {
            Cow::Borrowed(_) => true,
            Cow::Owned(_) => false,
        }
    }

    /// The text.
    pub fn as_str(&self) -> (r: &str)
        ensures
            r@ == self@,
    {
        match &self.0 {
            Cow::Borrowed(text) => text,
            Cow::Owned(text) => text.as_str(),
        }
    }

    /// A copy that owns its text and outlives what this one borrows from.
    pub fn to_owned<'r>(&self) -> (r: CowStr<'r>)
        ensures
            r@ == self@,
            !r.is_borrowed(),
    {
        CowStr(Cow::Owned(self.as_str().to_owned()))
    }

    /// The text as a `String`, copied only where it was borrowed.
    pub fn into_owned(self) -> (r: String)
        ensures
            r@ == self@,
    {
        match self.0 {
            Cow::Borrowed(text) => text.to_owned(),
            Cow::Owned(text) => text,
        }
    }

    /// Reads a text string at `pos`, borrowing it from the input. Returns
    /// the position after it.
    pub fn decode(input: &'a [u8], pos: usize) -> (r: Result<(CowStr<'a>, usize), DecodeError>)
        ensures
            match r {
                Ok((text, end)) => text_at(input@, pos as int) == Some((text@, end as int))
                    && text.is_borrowed(),
                Err(e) => text_at(input@, pos as int) is None && e == malformed(pos as int),
            },
    {
        match take_text(input, pos) {
            Ok((text, end)) => Ok((CowStr(Cow::Borrowed(text)), end)),
            Err(_) => Err(DecodeError::Malformed { at: pos }),
        }
    }
}

impl<'a> Encode for CowStr<'a> {
    open spec fn encoding(&self, tagged: bool) -> Result<Seq<u8>, EncodeError> {
        Ok(text_bytes(self@))
    }

    fn encode(&self, buf: &mut Vec<u8>, tagged: bool) -> (r: Result<(), EncodeError>) {
        put_text(buf, self.as_str());
        Ok(())
    }
}

impl<'a> From<&'a str> for CowStr<'a> {
    fn from(s: &'a str) -> (r: Self) {
        CowStr(Cow::Borrowed(s))
    }
}

impl<'a> FromSpecImpl<&'a str> for CowStr<'a> {
    open spec fn obeys_from_spec() -> bool {
        true
    }

    open spec fn from_spec(s: &'a str) -> Self {
        CowStr(Cow::Borrowed(s))
    }
}

impl<'a> From<String> for CowStr<'a> {
    fn from(s: String) -> (r: Self) {
        CowStr(Cow::Owned(s))
    }
}

impl<'a> FromSpecImpl<String> for CowStr<'a> {
    open spec fn obeys_from_spec() -> bool {
        true
    }

    open spec fn from_spec(s: String) -> Self {
        CowStr(Cow::Owned(s))
    }
}

impl<'a> From<CowStr<'a>> for Cow<'a, str> {
    fn from(c: CowStr<'a>) -> (r: Self) {
        c.0
    }
}

impl<'a> FromSpecImpl<CowStr<'a>> for Cow<'a, str> {
    open spec fn obeys_from_spec() -> bool {
        true
    }

    open spec fn from_spec(c: CowStr<'a>) -> Self {
        c.0
    }
}

impl<'a> Deref for CowStr<'a> {
    type Target = Cow<'a, str>;

    fn deref(&self) -> (r: &Self::Target)
        ensures
            *r == self.0,
    {
        &self.0
    }
}

impl<'a> DerefMut for CowStr<'a> {
    fn deref_mut(&mut self) -> (r: &mut Self::Target)
        ensures
            *r == old(self).0,
            final(self).0 == *final(r),
    {
        &mut self.0
    }
}

/// A newtype around `Cow<'_, [u8]>` that borrows from input.
///
/// Decoding never copies the bytes: the value refers to the bytes of the
/// input, also where it stands inside an `Option` or a `Vec`. A copy is made
/// only where one is asked for.
#[derive(Debug, PartialEq, Eq, PartialOrd, Ord, Hash)]
pub struct CowBytes<'a>(pub Cow<'a, [u8]>);

impl<'a> Clone for CowBytes<'a> {
    /// The same bytes, borrowed where these are borrowed.
    fn clone(&self) -> (r: Self)
        ensures
            r@ == self@,
            r.is_borrowed() == self.is_borrowed(),
    {
        match &self.0 {
            Cow::Borrowed(octets) => CowBytes(Cow::Borrowed(octets)),
            Cow::Owned(octets) => CowBytes(Cow::Owned(octets.clone())),
        }
    }
}

impl<'a> View for CowBytes<'a> {
    type V = Seq<u8>;

    open spec fn view(&self) -> Seq<u8> {
        self.0@
    }
}

impl<'a> CowBytes<'a> {
    /// Whether the bytes are borrowed.
    pub open spec fn spec_is_borrowed(&self) -> bool {
        self.0 is Borrowed
    }

    /// Whether the bytes are borrowed.
    #[verifier::when_used_as_spec(spec_is_borrowed)]
    pub fn is_borrowed(&self) -> (r: bool)
        ensures
            r == self.spec_is_borrowed(),
    {
        match &self.0 {
            Cow::Borrowed(_) => true,
            Cow::Owned(_) => false,
        }
    }

    /// The bytes.
    pub fn as_slice(&self) -> (r: &[u8])
        ensures
            r@ == self@,
    {
        match &self.0 {
            Cow::Borrowed(octets) => octets,
            Cow::Owned(octets) => octets.as_slice(),
        }
    }

    /// A copy that owns its bytes and outlives what this one borrows from.
    pub fn to_owned<'r>(&self) -> (r: CowBytes<'r>)
        ensures
            r@ == self@,
            !r.is_borrowed(),
    {
        CowBytes(Cow::Owned(vstd::slice::slice_to_vec(self.as_slice())))
    }

    /// The bytes as a `Vec`, copied only where they were borrowed.
    pub fn into_owned(self) -> (r: Vec<u8>)
        ensures
            r@ == self@,
    {
        match self.0 {
            Cow::Borrowed(octets) => vstd::slice::slice_to_vec(octets),
            Cow::Owned(octets) => octets,
        }
    }

    /// Reads a byte string at `pos`, borrowing it from the input. Returns
    /// the position after it.
    pub fn decode(input: &'a [u8], pos: usize) -> (r: Result<(CowBytes<'a>, usize), DecodeError>)
        ensures
            match r {
                Ok((octets, end)) => octets_at(input@, pos as int) == Some((octets@, end as int))
                    && octets.is_borrowed(),
                Err(e) => octets_at(input@, pos as int) is None && e == malformed(pos as int),
            },
    {
        match take_octets(input, pos) {
            Ok((octets, end)) => Ok((CowBytes(Cow::Borrowed(octets)), end)),
            Err(_) => Err(DecodeError::Malformed { at: pos }),
        }
    }
}

impl<'a> Encode for CowBytes<'a> {
    open spec fn encoding(&self, tagged: bool) -> Result<Seq<u8>, EncodeError> {
        Ok(octets_bytes(self@))
    }

    fn encode(&self, buf: &mut Vec<u8>, tagged: bool) -> (r: Result<(), EncodeError>) {
        put_octets(buf, self.as_slice());
        Ok(())
    }
}

impl<'a> From<&'a [u8]> for CowBytes<'a> {
    fn from(s: &'a [u8]) -> (r: Self) {
        CowBytes(Cow::Borrowed(s))
    }
}

impl<'a> FromSpecImpl<&'a [u8]> for CowBytes<'a> {
    open spec fn obeys_from_spec() -> bool {
        true
    }

    open spec fn from_spec(s: &'a [u8]) -> Self {
        CowBytes(Cow::Borrowed(s))
    }
}

impl<'a> From<Vec<u8>> for CowBytes<'a> {
    fn from(s: Vec<u8>) -> (r: Self) {
        CowBytes(Cow::Owned(s))
    }
}

impl<'a> FromSpecImpl<Vec<u8>> for CowBytes<'a> {
    open spec fn obeys_from_spec() -> bool {
        true
    }

    open spec fn from_spec(s: Vec<u8>) -> Self {
        CowBytes(Cow::Owned(s))
    }
}

impl<'a> From<CowBytes<'a>> for Cow<'a, [u8]> {
    fn from(c: CowBytes<'a>) -> (r: Self) {
        c.0
    }
}

impl<'a> FromSpecImpl<CowBytes<'a>> for Cow<'a, [u8]> {
    open spec fn obeys_from_spec() -> bool {
        true
    }

    open spec fn from_spec(c: CowBytes<'a>) -> Self {
        c.0
    }
}

impl<'a> Deref for CowBytes<'a> {
    type Target = Cow<'a, [u8]>;

    fn deref(&self) -> (r: &Self::Target)
        ensures
            *r == self.0,
    {
        &self.0
    }
}

impl<'a> DerefMut for CowBytes<'a> {
    fn deref_mut(&mut self) -> (r: &mut Self::Target)
        ensures
            *r == old(self).0,
            final(self).0 == *final(r),
    {
        &mut self.0
    }
}

} // verus!
