//! What it means for a type to have a canonical encoding.

use vstd::prelude::*;
use vstd::pervasive::unreached;
use crate::error::Error;

verus! {

/// A type whose values are written as one item and read back from one.
///
/// The encoding is given as a specification on byte sequences, and the
/// executable methods are held to it. Three laws tie reading to writing:
/// reading consumes at least one byte and never more than there are;
/// reading what was written for a value returns that value and stops where
/// its encoding ends, whatever follows; and nothing but its encoding is read
/// as a value. The second law speaks of the values whose encoding a buffer
/// can hold, that is, of at most `usize::MAX` bytes.
pub trait Rlp: Sized + DeepView {
    /// Whether the value can be written: the invariant of the type.
    spec fn wf(&self) -> bool;

    /// The bytes that stand for the value.
    spec fn encoding(&self) -> Seq<u8>;

    /// What reading one item from the start of `buf` gives: the value that
    /// was read, by its view, and the number of bytes that it took.
    spec fn parse(buf: Seq<u8>) -> Result<(Self::V, nat), Error>;

    /// Reading takes at least one byte, and only bytes that are there.
    proof fn lemma_parse_bounds(buf: Seq<u8>)
        ensures
            Self::parse(buf) matches Ok((_, n)) ==> 0 < n <= buf.len(),
    ;

    /// Reading what was written for a value gives the value back.
    proof fn lemma_round_trip(&self, tail: Seq<u8>)
        requires
            self.wf(),
            self.encoding().len() <= usize::MAX,
        ensures
            Self::parse(self.encoding() + tail) == Ok::<(Self::V, nat), Error>(
                (self.deep_view(), self.encoding().len()),
            ),
    ;

    /// Only what is written for a value is read as that value: bytes that
    /// are read as the value start with its encoding, and that is all that
    /// was taken of them.
    proof fn lemma_canonical(&self, buf: Seq<u8>)
        requires
            self.wf(),
            Self::parse(buf) matches Ok((v, _)) && v == self.deep_view(),
        ensures
            Self::parse(buf) matches Ok((_, n)) && buf.take(n as int) == self.encoding(),
    ;

    /// The length of the encoding, or `None` where it exceeds `usize::MAX`.
    fn checked_length(&self) -> (r: Option<usize>)
        requires
            self.wf(),
        ensures
            match r {
                Some(n) => n == self.encoding().len(),
                None => self.encoding().len() > usize::MAX,
            },
    ;

    /// Appends the encoding of the value to `out`.
    fn encode(&self, out: &mut Vec<u8>)
        requires
            self.wf(),
            self.encoding().len() <= usize::MAX,
        ensures
            final(out)@ == old(out)@ + self.encoding(),
    ;

    /// Reads one value from the start of `buf`; the second component of the
    /// result is the number of bytes that it took.
    fn decode(buf: &[u8]) -> (r: Result<(Self, usize), Error>)
        ensures
            match r {
                Ok((v, n)) => v.wf() && Self::parse(buf@) == Ok::<(Self::V, nat), Error>(
                    (v.deep_view(), n as nat),
                ),
                Err(e) => Self::parse(buf@) == Err::<(Self::V, nat), Error>(e),
            },
    ;

    /// The length of the encoding in bytes.
    fn length(&self) -> (n: usize)
        requires
            self.wf(),
            self.encoding().len() <= usize::MAX,
        ensures
            n == self.encoding().len(),
    {
        match self.checked_length() {
            Some(n) => n,
            None => unreached(),
        }
    }
}

/// The encoding of `value` as a vector of its own.
pub fn encode<T: Rlp>(value: &T) -> (out: Vec<u8>)
    requires
        value.wf(),
        value.encoding().len() <= usize::MAX,
    ensures
        out@ == value.encoding(),
{
    let mut out: Vec<u8> = Vec::new();
    value.encode(&mut out);
    assert(out@ =~= value.encoding());
    out
}

/// The encoding of `value`, or `None` where its length exceeds `usize::MAX`.
pub fn try_encode<T: Rlp>(value: &T) -> (r: Option<Vec<u8>>)
    requires
        value.wf(),
    ensures
        match r {
            Some(out) => out@ == value.encoding(),
            None => value.encoding().len() > usize::MAX,
        },
{
    match value.checked_length() {
        Some(_) => Some(encode(value)),
        None => None,
    }
}

/// What [`decode_exact`] gives for `buf`: the value that `buf` holds when it
/// holds exactly one, by its view.
pub open spec fn parse_exact<T: Rlp>(buf: Seq<u8>) -> Result<T::V, Error> {
    match T::parse(buf) {
        Ok((v, n)) => if n == buf.len() {
            Ok(v)
        } else {
            Err(Error::TrailingBytes)
        },
        Err(e) => Err(e),
    }
}

/// Reads the one value that `buf` holds, and rejects `buf` when bytes
/// follow it.
pub fn decode_exact<T: Rlp>(buf: &[u8]) -> (r: Result<T, Error>)
    ensures
        match r {
            Ok(v) => v.wf() && parse_exact::<T>(buf@) == Ok::<T::V, Error>(v.deep_view()),
            Err(e) => parse_exact::<T>(buf@) == Err::<T::V, Error>(e),
        },
{
    match T::decode(buf) {
        Ok((v, n)) => {
            if n == buf.len() {
                Ok(v)
            } else {
                Err(Error::TrailingBytes)
            }
        },
        Err(e) => Err(e),
    }
}

/// A value is read back from its encoding, with nothing left over.
pub proof fn lemma_exact_round_trip<T: Rlp>(value: T)
    requires
        value.wf(),
        value.encoding().len() <= usize::MAX,
    ensures
        parse_exact::<T>(value.encoding()) == Ok::<T::V, Error>(value.deep_view()),
{
    value.lemma_round_trip(Seq::empty());
    assert(value.encoding() + Seq::<u8>::empty() =~= value.encoding());
}

/// No encoding is empty.
pub proof fn lemma_encoding_nonempty<T: Rlp>(value: T)
    requires
        value.wf(),
        value.encoding().len() <= usize::MAX,
    ensures
        value.encoding().len() > 0,
{
    value.lemma_round_trip(Seq::empty());
    T::lemma_parse_bounds(value.encoding() + Seq::<u8>::empty());
}

} // verus!
