//! Fields that may be missing at the end of a list.
//!
//! Such a field is not marked in any way: it is there exactly when bytes
//! remain in the payload of the list. Bytes that remain and do not decode as
//! the field are an error; they are never taken for a missing field.

use vstd::prelude::*;
use crate::error::Error;
use crate::codec::Rlp;
use crate::codec::lemma_encoding_nonempty;

verus! {

/// The field that a borrowed field borrows.
pub open spec fn owned<T>(field: Option<&T>) -> Option<T> {
    match field {
        Some(v) => Some(*v),
        None => None,
    }
}

/// Whether the field, when it is there, can be written.
pub open spec fn optional_wf<T: Rlp>(field: Option<T>) -> bool {
    match field {
        Some(v) => v.wf(),
        None => true,
    }
}

/// The bytes that stand for the field: its encoding when it is there, and no
/// bytes when it is not.
pub open spec fn optional_encoding<T: Rlp>(field: Option<T>) -> Seq<u8> {
    match field {
        Some(v) => v.encoding(),
        None => Seq::empty(),
    }
}

/// The view of the field.
pub open spec fn optional_view<T: Rlp>(field: Option<T>) -> Option<T::V> {
    match field {
        Some(v) => Some(v.deep_view()),
        None => None,
    }
}

/// Reads a field that may be missing from what remains of a payload: the
/// field, and the number of bytes that it took.
pub open spec fn parse_optional<T: Rlp>(cursor: Seq<u8>) -> Result<(Option<T::V>, nat), Error> {
    if cursor.len() == 0 {
        Ok((None, 0nat))
    } else {
        match T::parse(cursor) {
            Err(_) => Err(Error::MalformedOptionalField),
            Ok((v, n)) => Ok((Some(v), n)),
        }
    }
}

/// Reading a field that may be missing takes only bytes that are there, and
/// takes none exactly when the field is missing.
pub proof fn lemma_parse_optional_bounds<T: Rlp>(cursor: Seq<u8>)
    ensures
        parse_optional::<T>(cursor) matches Ok((field, n)) ==> {
            &&& n <= cursor.len()
            &&& (field is None <==> cursor.len() == 0)
            &&& (field is None <==> n == 0)
        },
{
    T::lemma_parse_bounds(cursor);
}

/// A field is read back as it was written, provided that nothing follows a
/// field that is missing.
pub proof fn lemma_optional_round_trip<T: Rlp>(field: Option<T>, tail: Seq<u8>)
    requires
        optional_wf(field),
        optional_encoding(field).len() <= usize::MAX,
        field is None ==> tail.len() == 0,
    ensures
        parse_optional::<T>(optional_encoding(field) + tail) == Ok::<(Option<T::V>, nat), Error>(
            (optional_view(field), optional_encoding(field).len()),
        ),
{
    match field {
        Some(v) => {
            lemma_encoding_nonempty(v);
            v.lemma_round_trip(tail);
        },
        None => {},
    }
}

/// Only the bytes that stand for a field are read as that field.
pub proof fn lemma_optional_canonical<T: Rlp>(field: Option<T>, cursor: Seq<u8>)
    requires
        optional_wf(field),
        parse_optional::<T>(cursor) matches Ok((v, _)) && v == optional_view(field),
    ensures
        parse_optional::<T>(cursor) matches Ok((_, n)) && cursor.take(n as int)
            == optional_encoding(field),
{
    match field {
        Some(v) => {
            v.lemma_canonical(cursor);
        },
        None => {
            assert(cursor.take(0) =~= Seq::<u8>::empty());
        },
    }
}

/// The number of bytes that stand for the field, or `None` where that
/// exceeds `usize::MAX`.
pub fn optional_length<T: Rlp>(field: Option<&T>) -> (r: Option<usize>)
    requires
        optional_wf(owned(field)),
    ensures
        match r {
            Some(n) => n == optional_encoding(owned(field)).len(),
            None => optional_encoding(owned(field)).len() > usize::MAX,
        },
{
    match field {
        Some(v) => v.checked_length(),
        None => Some(0),
    }
}

/// Appends the bytes that stand for the field to `out`.
pub fn encode_optional<T: Rlp>(field: Option<&T>, out: &mut Vec<u8>)
    requires
        optional_wf(owned(field)),
        optional_encoding(owned(field)).len() <= usize::MAX,
    ensures
        final(out)@ == old(out)@ + optional_encoding(owned(field)),
{
    match field {
        Some(v) => {
            v.encode(out);
        },
        None => {
            assert(out@ =~= old(out)@ + Seq::<u8>::empty());
        },
    }
}

/// Reads a field that may be missing from what remains of a payload: the
/// field, and the number of bytes that it took.
pub fn decode_optional<T: Rlp>(cursor: &[u8]) -> (r: Result<(Option<T>, usize), Error>)
    ensures
        match r {
            Ok((field, n)) => optional_wf(field) && parse_optional::<T>(cursor@) == Ok::<
                (Option<T::V>, nat),
                Error,
            >((optional_view(field), n as nat)),
            Err(e) => parse_optional::<T>(cursor@) == Err::<(Option<T::V>, nat), Error>(e),
        },
{
    if cursor.len() == 0 {
        Ok((None, 0))
    } else {
        match T::decode(cursor) {
            Err(_) => Err(Error::MalformedOptionalField),
            Ok((v, n)) => Ok((Some(v), n)),
        }
    }
}

} // verus!
