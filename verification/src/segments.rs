//! Paths cut into segments at their slashes.

use vstd::prelude::*;
use vstd::string::StringSliceAdditionalSpecFns;
use vstd::utf8::{
    decode_utf8, encode_utf8, is_char_boundary, length_of_first_scalar, pop_first_scalar,
    take_first_scalar, valid_utf8,
};

verus! {

/// The index of the first slash of `s` at or behind `from`, or the length
/// of `s` where there is none.
pub open spec fn next_slash(s: Seq<char>, from: int) -> int
    decreases s.len() - from,
{
    if from < 0 || from >= s.len() {
        s.len() as int
    } else if s[from] == '/' {
        from
    } else {
        next_slash(s, from + 1)
    }
}

/// `s` cut at its slashes into at most `limit` pieces. The slashes that cut
/// belong to no piece; those that are left when `limit` is reached stay in
/// the last piece.
pub open spec fn split(s: Seq<char>, limit: nat) -> Seq<Seq<char>>
    decreases limit,
{
    if limit == 0 {
        Seq::empty()
    } else if limit == 1 || next_slash(s, 0) >= s.len() {
        seq![s]
    } else {
        seq![s.subrange(0, next_slash(s, 0))] + split(
            s.subrange(next_slash(s, 0) + 1, s.len() as int),
            (limit - 1) as nat,
        )
    }
}

/// The segments of a path: one slash at its start does not count, and the
/// rest is cut into at most `limit` pieces.
pub open spec fn segments_of(path: Seq<char>, limit: nat) -> Seq<Seq<char>> {
    if path.len() > 0 && path[0] == '/' {
        split(path.subrange(1, path.len() as int), limit)
    } else {
        split(path, limit)
    }
}

/// Path segments, i.e. '/'-separated string slices.
///
/// At most `N` of them, which borrow from the path they were cut from.
pub struct Segments<'a, const N: usize> {
    items: [&'a str; N],
    len: usize,
}

impl<'a, const N: usize> View for Segments<'a, N> {
    type V = Seq<Seq<char>>;

    closed spec fn view(&self) -> Seq<Seq<char>> {
        Seq::new(self.len as nat, |i: int| self.items@[i]@)
    }
}

/// Text without the byte of a slash has no slash.
proof fn lemma_no_slash(bytes: Seq<u8>)
    requires
        valid_utf8(bytes),
        forall|j: int| 0 <= j < bytes.len() ==> bytes[j] != 0x2f,
    ensures
        forall|k: int| 0 <= k < decode_utf8(bytes).len() ==> decode_utf8(bytes)[k] != '/',
    decreases bytes.len(),
{
    if bytes.len() > 0 {
        let first = decode_utf8(bytes)[0];
        let rest = pop_first_scalar(bytes);
        let width = length_of_first_scalar(bytes);
        assert(1 <= width <= bytes.len());
        assert(decode_utf8(bytes) =~= seq![first] + decode_utf8(rest));
        assert(first != '/') by {
            if first == '/' {
                vstd::utf8::decode_utf8_first_scalar(bytes);
                assert(0x2fu32 & 0x7F == 0x2f) by (bit_vector);
                assert(take_first_scalar(bytes)[0] == 0x2f);
            }
        }
        assert forall|j: int| 0 <= j < rest.len() implies rest[j] != 0x2f by {
            assert(rest[j] == bytes[width + j]);
        }
        lemma_no_slash(rest);
        assert forall|k: int| 0 <= k < decode_utf8(bytes).len() implies decode_utf8(bytes)[k]
            != '/' by {
            if k > 0 {
                assert(decode_utf8(bytes)[k] == decode_utf8(rest)[k - 1]);
            }
        }
    }
}

/// Text that starts with the byte of a slash starts with a slash, and the
/// rest of the text is what stands behind that byte.
proof fn lemma_slash_first(bytes: Seq<u8>)
    requires
        valid_utf8(bytes),
        bytes.len() > 0,
        bytes[0] == 0x2f,
    ensures
        is_char_boundary(bytes, 1),
        valid_utf8(bytes.subrange(1, bytes.len() as int)),
        decode_utf8(bytes) == seq!['/'] + decode_utf8(bytes.subrange(1, bytes.len() as int)),
{
    assert(0x2fu8 & 0x7F == 0x2f) by (bit_vector);
    assert(pop_first_scalar(bytes) == bytes.subrange(1, bytes.len() as int));
    reveal_with_fuel(is_char_boundary, 2);
}

/// The next slash is not before `from`, and it is a slash.
proof fn lemma_next_slash(s: Seq<char>, from: int)
    requires
        0 <= from <= s.len(),
    ensures
        from <= next_slash(s, from) <= s.len(),
        next_slash(s, from) < s.len() ==> s[next_slash(s, from)] == '/',
    decreases s.len() - from,
{
    if from < s.len() && s[from] != '/' {
        lemma_next_slash(s, from + 1);
    }
}

/// Where no character is a slash, there is no next slash.
proof fn lemma_next_slash_none(s: Seq<char>, from: int)
    requires
        forall|k: int| 0 <= k < s.len() ==> s[k] != '/',
    ensures
        next_slash(s, from) == s.len(),
    decreases s.len() - from,
{
    if 0 <= from < s.len() {
        lemma_next_slash_none(s, from + 1);
    }
}

/// The first slash behind a part without slashes is the next slash.
proof fn lemma_next_slash_found(s: Seq<char>, from: int, at: int)
    requires
        0 <= from <= at < s.len(),
        s[at] == '/',
        forall|k: int| 0 <= k < at ==> s[k] != '/',
    ensures
        next_slash(s, from) == at,
    decreases at - from,
{
    if from < at {
        lemma_next_slash_found(s, from + 1, at);
    }
}

/// Text whose bytes hold no slash is not cut.
proof fn lemma_uncut(s: Seq<char>)
    requires
        forall|j: int| 0 <= j < encode_utf8(s).len() ==> encode_utf8(s)[j] != 0x2f,
    ensures
        next_slash(s, 0) == s.len(),
{
    vstd::utf8::encode_utf8_valid_utf8(s);
    vstd::utf8::encode_utf8_decode_utf8(s);
    lemma_no_slash(encode_utf8(s));
    lemma_next_slash_none(s, 0);
}

/// Cutting the bytes of a text at their first slash cuts the text at its
/// first slash.
proof fn lemma_cut(s: Seq<char>, i: int)
    requires
        0 <= i < encode_utf8(s).len(),
        encode_utf8(s)[i] == 0x2f,
        forall|j: int| 0 <= j < i ==> encode_utf8(s)[j] != 0x2f,
    ensures
        ({
            let bytes = encode_utf8(s);
            let behind = bytes.subrange(i, bytes.len() as int);
            &&& valid_utf8(bytes)
            &&& is_char_boundary(bytes, i)
            &&& valid_utf8(behind)
            &&& is_char_boundary(behind, 1)
            &&& 0 <= next_slash(s, 0) < s.len()
            &&& valid_utf8(bytes.subrange(0, i))
            &&& decode_utf8(bytes.subrange(0, i)) == s.subrange(0, next_slash(s, 0))
            &&& valid_utf8(bytes.subrange(i + 1, bytes.len() as int))
            &&& decode_utf8(bytes.subrange(i + 1, bytes.len() as int)) == s.subrange(
                next_slash(s, 0) + 1,
                s.len() as int,
            )
        }),
{
    let bytes = encode_utf8(s);
    let before = bytes.subrange(0, i);
    let behind = bytes.subrange(i, bytes.len() as int);
    let after = bytes.subrange(i + 1, bytes.len() as int);
    vstd::utf8::encode_utf8_valid_utf8(s);
    vstd::utf8::encode_utf8_decode_utf8(s);
    vstd::utf8::is_char_boundary_iff_is_leading_byte(bytes, i);
    vstd::utf8::valid_utf8_split(bytes, i);
    vstd::utf8::decode_utf8_split(bytes, i);
    lemma_no_slash(before);
    lemma_slash_first(behind);
    assert(behind.subrange(1, behind.len() as int) =~= after);
    let head = decode_utf8(before);
    let tail = decode_utf8(after);
    assert(s =~= head + (seq!['/'] + tail));
    lemma_next_slash_found(s, 0, head.len() as int);
    assert(s.subrange(0, head.len() as int) =~= head);
    assert(s.subrange(head.len() as int + 1, s.len() as int) =~= tail);
}

/// The index of the first byte of `s` that is a slash.
fn find_slash(s: &str) -> (r: Option<usize>)
    ensures
        match r {
            Some(i) => {
                &&& i < s.spec_bytes().len()
                &&& s.spec_bytes()[i as int] == 0x2f
                &&& forall|j: int| 0 <= j < i ==> s.spec_bytes()[j] != 0x2f
            },
            None => forall|j: int| 0 <= j < s.spec_bytes().len() ==> s.spec_bytes()[j] != 0x2f,
        },
{
    let bytes = s.as_bytes();
    let mut i: usize = 0;
    while i < bytes.len()
        invariant
            i <= bytes@.len(),
            bytes@ == s.spec_bytes(),
            forall|j: int| 0 <= j < i ==> bytes@[j] != 0x2f,
        decreases bytes@.len() - i,
    {
        if bytes[i] == 0x2f {
            return Some(i);
        }
        i = i + 1;
    }
    None
}

/// What `s` is cut into at its first slash: the part before it and the part
/// behind it, or `None` where `s` has no slash.
fn cut<'a>(s: &'a str) -> (r: Option<(&'a str, &'a str)>)
    ensures
        match r {
            Some((before, after)) => {
                &&& 0 <= next_slash(s@, 0) < s@.len()
                &&& before@ == s@.subrange(0, next_slash(s@, 0))
                &&& after@ == s@.subrange(next_slash(s@, 0) + 1, s@.len() as int)
            },
            None => next_slash(s@, 0) == s@.len(),
        },
{
    match find_slash(s) {
        None => {
            proof {
                assert(s.spec_bytes() == encode_utf8(s@));
                lemma_uncut(s@);
            }
            None
        },
        Some(i) => {
            proof {
                lemma_cut(s@, i as int);
            }
            let (before, behind) = s.split_at(i);
            let (_, after) = behind.split_at(1);
            proof {
                let bytes = s.spec_bytes();
                assert(behind.spec_bytes().subrange(1, behind.spec_bytes().len() as int)
                    =~= bytes.subrange(i + 1, bytes.len() as int));
                vstd::utf8::encode_utf8_decode_utf8(before@);
                vstd::utf8::encode_utf8_decode_utf8(after@);
            }
            Some((before, after))
        },
    }
}

impl<'a, const N: usize> Segments<'a, N> {
    #[verifier::type_invariant]
    spec fn inv(self) -> bool {
        self.len <= N
    }

    /// No segments.
    fn new() -> (r: Self)
        ensures
            r@ == Seq::<Seq<char>>::empty(),
            r.len == 0,
    {
        let r = Segments { items: [""; N], len: 0 };
        assert(r@ =~= Seq::<Seq<char>>::empty());
        r
    }

    /// One more segment at the end.
    fn push(&mut self, s: &'a str)
        requires
            old(self).len < N,
        ensures
            final(self)@ == old(self)@.push(s@),
            final(self).len == old(self).len + 1,
    {
        self.items[self.len] = s;
        self.len = self.len + 1;
        assert(self@ =~= old(self)@.push(s@));
    }

    /// Cuts a path into at most `N` segments.
    ///
    /// One slash at the start of the path is dropped. The rest is cut at its
    /// slashes, from the left, until `N` segments are reached: the last one
    /// takes what is left, slashes and all. A path with fewer slashes gives
    /// fewer segments; the empty path gives one empty segment.
    pub fn parse(s: &'a str) -> (r: Self)
        ensures
            r@ == segments_of(s@, N as nat),
    {
        let mut segments = Self::new();
        let mut rest: &'a str = s;
        let found = find_slash(s);
        if let Some(0) = found {
            proof {
                let bytes = s.spec_bytes();
                lemma_cut(s@, 0);
                assert(bytes.subrange(0, bytes.len() as int) =~= bytes);
            }
            let (_, after) = s.split_at(1);
            proof {
                let bytes = s.spec_bytes();
                vstd::utf8::encode_utf8_decode_utf8(after@);
                assert(bytes.subrange(0, 0) =~= Seq::<u8>::empty());
                assert(decode_utf8(bytes.subrange(0, 0)).len() == 0);
                lemma_next_slash(s@, 0);
                assert(next_slash(s@, 0) == 0);
                assert(s@[0] == '/');
            }
            rest = after;
        } else {
            assert(!(s@.len() > 0 && s@[0] == '/')) by {
                if s@.len() > 0 && s@[0] == '/' {
                    assert(0x2fu32 & 0x7F == 0x2f) by (bit_vector);
                    assert(vstd::utf8::encode_scalar('/' as u32)[0] == 0x2f);
                    assert(encode_utf8(s@)[0] == 0x2f);
                    assert(s.spec_bytes()[0] == 0x2f);
                }
            }
        }
        assert(segments_of(s@, N as nat) =~= segments@ + split(rest@, N as nat));
        let mut open = true;
        while open && N - segments.len > 1
            invariant
                segments.len <= N,
                segments@.len() == segments.len,
                segments_of(s@, N as nat) == segments@ + split(
                    rest@,
                    (N - segments.len) as nat,
                ),
                !open ==> next_slash(rest@, 0) == rest@.len(),
            decreases rest@.len() + (if open { 1nat } else { 0nat }),
        {
            match cut(rest) {
                Some((before, after)) => {
                    segments.push(before);
                    rest = after;
                },
                None => {
                    open = false;
                },
            }
        }
        if segments.len < N {
            segments.push(rest);
        }
        segments
    }

    /// The segments, in their order.
    pub fn as_slice(&self) -> (r: &[&'a str])
        ensures
            r@.len() == self@.len(),
            forall|i: int| 0 <= i < r@.len() ==> r@[i]@ == self@[i],
    {
        proof {
            use_type_invariant(self);
        }
        vstd::slice::slice_subrange(self.items.as_slice(), 0, self.len)
    }
}

} // verus!
