//! Lists: a prefix that announces the payload, then the items in order.

use vstd::prelude::*;
use vstd::slice::slice_subrange;
use vstd::pervasive::unreached;
use crate::error::Error;
use crate::codec::Rlp;
use crate::prefix::{Prefix, prefix_bytes, parse_prefix};
use crate::prefix::{lemma_parse_prefix_bounds, lemma_parse_prefix_bytes};
use crate::prefix::lemma_parse_prefix_canonical;

verus! {

/// The encoding of a list whose items are encoded, one after the other, as
/// `payload`.
pub open spec fn list_encoding(payload: Seq<u8>) -> Seq<u8> {
    prefix_bytes(true, payload.len()) + payload
}

/// Reads the frame of one list from the start of `buf`: the payload that
/// holds its items, and the number of bytes that prefix and payload take
/// together.
pub open spec fn parse_list(buf: Seq<u8>) -> Result<(Seq<u8>, nat), Error> {
    match parse_prefix(buf) {
        Err(e) => Err(e),
        Ok((p, n)) => if !p.list {
            Err(Error::UnexpectedString)
        } else {
            Ok((buf.subrange(n as int, n + p.payload_length), (n + p.payload_length) as nat))
        },
    }
}

/// Reading the frame of a list takes at least one byte, and only bytes that
/// are there; the payload is part of what was taken.
pub proof fn lemma_parse_list_bounds(buf: Seq<u8>)
    ensures
        parse_list(buf) matches Ok((payload, n)) ==> 0 < n <= buf.len() && payload.len() < n,
{
    lemma_parse_prefix_bounds(buf);
}

/// The frame of a list is read back from its encoding, whatever follows it.
pub proof fn lemma_list_round_trip(payload: Seq<u8>, tail: Seq<u8>)
    requires
        payload.len() <= usize::MAX,
    ensures
        parse_list(list_encoding(payload) + tail) == Ok::<(Seq<u8>, nat), Error>(
            (payload, list_encoding(payload).len()),
        ),
        payload.len() < list_encoding(payload).len() <= payload.len() + 9,
{
    let buf = list_encoding(payload) + tail;
    lemma_parse_prefix_bytes(true, payload.len(), payload + tail);
    let n = prefix_bytes(true, payload.len()).len();
    assert(buf =~= prefix_bytes(true, payload.len()) + (payload + tail));
    assert(buf.subrange(n as int, (n + payload.len()) as int) =~= payload);
}

/// Only the encoding of a list is read as the frame of that list.
pub proof fn lemma_parse_list_canonical(buf: Seq<u8>)
    ensures
        parse_list(buf) matches Ok((payload, n)) ==> buf.take(n as int) == list_encoding(payload),
{
    lemma_parse_prefix_canonical(buf);
    lemma_parse_prefix_bounds(buf);
    if let Ok((p, k)) = parse_prefix(buf) {
        if p.list {
            let payload = buf.subrange(k as int, k + p.payload_length);
            let n = k + p.payload_length;
            assert(buf.take(n as int) =~= buf.take(k as int) + payload);
        }
    }
}

/// The length of the encoding of a list with `payload_length` bytes of
/// items, or `None` where it exceeds `usize::MAX`.
pub fn list_length(payload_length: usize) -> (r: Option<usize>)
    ensures
        match r {
            Some(n) => n == prefix_bytes(true, payload_length as nat).len() + payload_length,
            None => prefix_bytes(true, payload_length as nat).len() + payload_length > usize::MAX,
        },
{
    let p = Prefix { list: true, payload_length };
    p.length().checked_add(payload_length)
}

/// Reads the frame of one list from the start of `buf`: the payload that
/// holds its items, and the number of bytes that prefix and payload take
/// together.
pub fn decode_list(buf: &[u8]) -> (r: Result<(&[u8], usize), Error>)
    ensures
        match r {
            Ok((s, n)) => parse_list(buf@) == Ok::<(Seq<u8>, nat), Error>((s@, n as nat)),
            Err(e) => parse_list(buf@) == Err::<(Seq<u8>, nat), Error>(e),
        },
{
    let available: usize = buf.len();
    match Prefix::decode(buf) {
        Err(e) => Err(e),
        Ok((p, n)) => {
            proof {
                lemma_parse_prefix_bounds(buf@);
            }
            assert(n + p.payload_length <= available);
            if !p.list {
                Err(Error::UnexpectedString)
            } else {
                let end: usize = n + p.payload_length;
                Ok((slice_subrange(buf, n, end), end))
            }
        },
    }
}

/// The encodings of `items`, one after the other.
pub open spec fn concat_encodings<T: Rlp>(items: Seq<T>) -> Seq<u8>
    decreases items.len(),
{
    if items.len() == 0 {
        Seq::empty()
    } else {
        items[0].encoding() + concat_encodings(items.skip(1))
    }
}

/// Whether every one of `items` can be written.
pub open spec fn all_wf<T: Rlp>(items: Seq<T>) -> bool {
    forall|i: int| 0 <= i < items.len() ==> (#[trigger] items[i]).wf()
}

/// The views of `items`, in order.
pub open spec fn views<T: Rlp>(items: Seq<T>) -> Seq<T::V> {
    Seq::new(items.len(), |i: int| items[i].deep_view())
}

/// What follows when `first` was read and the rest of the payload gave `rest`.
pub open spec fn after<V>(first: Seq<V>, rest: Result<Seq<V>, Error>) -> Result<Seq<V>, Error> {
    match rest {
        Ok(vs) => Ok(first + vs),
        Err(e) => Err(e),
    }
}

/// Reads items from `payload` until it is used up.
///
/// An item never takes no bytes or more than there are, so the guard on the
/// number of bytes taken never fails; it is what makes the definition
/// terminate.
pub open spec fn parse_items<T: Rlp>(payload: Seq<u8>) -> Result<Seq<T::V>, Error>
    decreases payload.len(),
{
    if payload.len() == 0 {
        Ok(Seq::empty())
    } else {
        match T::parse(payload) {
            Err(e) => Err(e),
            Ok((v, n)) => if 0 < n <= payload.len() {
                after(seq![v], parse_items::<T>(payload.skip(n as int)))
            } else {
                Err(Error::InputTooShort)
            },
        }
    }
}

/// Appending one item appends its encoding.
pub proof fn lemma_concat_push<T: Rlp>(items: Seq<T>, last: T)
    ensures
        concat_encodings(items.push(last)) == concat_encodings(items) + last.encoding(),
    decreases items.len(),
{
    let all = items.push(last);
    if items.len() == 0 {
        assert(all.skip(1) =~= Seq::<T>::empty());
        assert(concat_encodings(Seq::<T>::empty()) =~= Seq::<u8>::empty());
        assert(all[0] == last);
        assert(concat_encodings(all) =~= last.encoding());
        assert(concat_encodings(items) + last.encoding() =~= last.encoding());
    } else {
        lemma_concat_push(items.skip(1), last);
        assert(all.skip(1) =~= items.skip(1).push(last));
        assert(concat_encodings(all) =~= concat_encodings(items) + last.encoding());
    }
}

/// The encodings of the first `k` items are the start of the encodings of
/// all of them, and each item's encoding lies within the whole.
pub proof fn lemma_concat_take<T: Rlp>(items: Seq<T>, k: int)
    requires
        0 <= k <= items.len(),
    ensures
        concat_encodings(items.take(k)).len() <= concat_encodings(items).len(),
        k < items.len() ==> concat_encodings(items.take(k + 1)) == concat_encodings(
            items.take(k),
        ) + items[k].encoding(),
        k < items.len() ==> concat_encodings(items.take(k)).len() + items[k].encoding().len()
            <= concat_encodings(items).len(),
    decreases items.len() - k,
{
    if k < items.len() {
        lemma_concat_push(items.take(k), items[k]);
        assert(items.take(k + 1) =~= items.take(k).push(items[k]));
        lemma_concat_take(items, k + 1);
    } else {
        assert(items.take(k) =~= items);
    }
}

/// Items are read back, in order, from their encodings.
pub proof fn lemma_parse_items_concat<T: Rlp>(items: Seq<T>)
    requires
        all_wf(items),
        concat_encodings(items).len() <= usize::MAX,
    ensures
        parse_items::<T>(concat_encodings(items)) == Ok::<Seq<T::V>, Error>(views(items)),
    decreases items.len(),
{
    let payload = concat_encodings(items);
    if items.len() == 0 {
        assert(views(items) =~= Seq::<T::V>::empty());
    } else {
        let first = items[0];
        let rest = items.skip(1);
        let n = first.encoding().len();
        first.lemma_round_trip(concat_encodings(rest));
        T::lemma_parse_bounds(payload);
        assert(payload.skip(n as int) =~= concat_encodings(rest));
        assert(all_wf(rest)) by {
            assert forall|i: int| 0 <= i < rest.len() implies (#[trigger] rest[i]).wf() by {
                assert(items[i + 1].wf());
            }
        }
        lemma_parse_items_concat(rest);
        assert(seq![first.deep_view()] + views(rest) =~= views(items));
    }
}

/// Only the encodings of items, one after the other, are read as those items.
pub proof fn lemma_parse_items_canonical<T: Rlp>(items: Seq<T>, payload: Seq<u8>)
    requires
        all_wf(items),
        parse_items::<T>(payload) == Ok::<Seq<T::V>, Error>(views(items)),
    ensures
        payload == concat_encodings(items),
    decreases items.len(),
{
    if payload.len() == 0 {
        assert(views(items).len() == 0);
        assert(payload =~= concat_encodings(items));
    } else {
        let (v, n) = T::parse(payload).unwrap();
        let tail = parse_items::<T>(payload.skip(n as int)).unwrap();
        assert(views(items) == seq![v] + tail);
        assert(views(items).len() >= 1);
        let first = items[0];
        let rest = items.skip(1);
        assert(views(items)[0] == v);
        assert(views(rest) =~= tail) by {
            assert forall|i: int| 0 <= i < rest.len() implies views(rest)[i] == tail[i] by {
                assert(views(items)[i + 1] == tail[i]);
            }
        }
        assert(all_wf(rest)) by {
            assert forall|i: int| 0 <= i < rest.len() implies (#[trigger] rest[i]).wf() by {
                assert(items[i + 1].wf());
            }
        }
        first.lemma_canonical(payload);
        lemma_parse_items_canonical(rest, payload.skip(n as int));
        assert(payload =~= payload.take(n as int) + payload.skip(n as int));
    }
}

/// The number of bytes that the encodings of `items` take together, or
/// `None` where that exceeds `usize::MAX`.
pub fn items_length<T: Rlp>(items: &Vec<T>) -> (r: Option<usize>)
    requires
        all_wf(items@),
    ensures
        match r {
            Some(n) => n == concat_encodings(items@).len(),
            None => concat_encodings(items@).len() > usize::MAX,
        },
{
    let mut total: usize = 0;
    let mut i: usize = 0;
    while i < items.len()
        invariant
            i <= items@.len(),
            all_wf(items@),
            total == concat_encodings(items@.take(i as int)).len(),
        decreases items@.len() - i,
    {
        proof {
            lemma_concat_take(items@, i as int);
        }
        let sum: Option<usize> = match items[i].checked_length() {
            Some(n) => total.checked_add(n),
            None => None,
        };
        match sum {
            Some(t) => {
                total = t;
            },
            None => {
                return None;
            },
        }
        i = i + 1;
    }
    assert(items@.take(i as int) =~= items@);
    Some(total)
}

/// Appends the encodings of `items`, in order, to `out`.
pub fn encode_items<T: Rlp>(items: &Vec<T>, out: &mut Vec<u8>)
    requires
        all_wf(items@),
        concat_encodings(items@).len() <= usize::MAX,
    ensures
        final(out)@ == old(out)@ + concat_encodings(items@),
{
    let mut i: usize = 0;
    assert(out@ =~= old(out)@ + concat_encodings(items@.take(0)));
    while i < items.len()
        invariant
            i <= items@.len(),
            all_wf(items@),
            concat_encodings(items@).len() <= usize::MAX,
            out@ == old(out)@ + concat_encodings(items@.take(i as int)),
        decreases items@.len() - i,
    {
        proof {
            lemma_concat_take(items@, i as int);
        }
        items[i].encode(out);
        assert(out@ =~= old(out)@ + concat_encodings(items@.take(i + 1)));
        i = i + 1;
    }
    assert(items@.take(i as int) =~= items@);
}

/// Reads items from `payload` until it is used up.
pub fn decode_items<T: Rlp>(payload: &[u8]) -> (r: Result<Vec<T>, Error>)
    ensures
        match r {
            Ok(items) => all_wf(items@) && parse_items::<T>(payload@) == Ok::<Seq<T::V>, Error>(
                items.deep_view(),
            ),
            Err(e) => parse_items::<T>(payload@) == Err::<Seq<T::V>, Error>(e),
        },
{
    let mut items: Vec<T> = Vec::new();
    let mut pos: usize = 0;
    assert(payload@.skip(0) =~= payload@);
    assert(items.deep_view() =~= Seq::<T::V>::empty());
    assert(after(items.deep_view(), parse_items::<T>(payload@)) == parse_items::<T>(payload@)) by {
        match parse_items::<T>(payload@) {
            Ok(vs) => {
                assert(Seq::<T::V>::empty() + vs =~= vs);
            },
            Err(_) => {},
        }
    }
    while pos < payload.len()
        invariant
            pos <= payload@.len(),
            all_wf(items@),
            parse_items::<T>(payload@) == after(
                items.deep_view(),
                parse_items::<T>(payload@.skip(pos as int)),
            ),
        decreases payload@.len() - pos,
    {
        let rest = slice_subrange(payload, pos, payload.len());
        assert(rest@ =~= payload@.skip(pos as int));
        proof {
            T::lemma_parse_bounds(rest@);
        }
        match T::decode(rest) {
            Err(e) => {
                return Err(e);
            },
            Ok((v, n)) => {
                let ghost seen = items.deep_view();
                let ghost tail = parse_items::<T>(rest@.skip(n as int));
                items.push(v);
                assert(rest@.skip(n as int) =~= payload@.skip(pos + n));
                assert(items.deep_view() =~= seen + seq![v.deep_view()]);
                assert(after(seen, after(seq![v.deep_view()], tail)) == after(
                    items.deep_view(),
                    tail,
                )) by {
                    match tail {
                        Ok(vs) => {
                            assert(seen + (seq![v.deep_view()] + vs) =~= items.deep_view() + vs);
                        },
                        Err(_) => {},
                    }
                }
                pos = pos + n;
            },
        }
    }
    assert(payload@.skip(pos as int) =~= Seq::<u8>::empty());
    assert(items.deep_view() + Seq::<T::V>::empty() =~= items.deep_view());
    Ok(items)
}

/// A vector is written as the list of its items.
impl<T: Rlp> Rlp for Vec<T> {
    open spec fn wf(&self) -> bool {
        all_wf(self@)
    }

    open spec fn encoding(&self) -> Seq<u8> {
        list_encoding(concat_encodings(self@))
    }

    open spec fn parse(buf: Seq<u8>) -> Result<(Seq<T::V>, nat), Error> {
        match parse_list(buf) {
            Err(e) => Err(e),
            Ok((payload, n)) => match parse_items::<T>(payload) {
                Err(e) => Err(e),
                Ok(vs) => Ok((vs, n)),
            },
        }
    }

    proof fn lemma_parse_bounds(buf: Seq<u8>) {
        lemma_parse_list_bounds(buf);
    }

    proof fn lemma_round_trip(&self, tail: Seq<u8>) {
        let payload = concat_encodings(self@);
        lemma_prefix_len_positive(payload.len());
        lemma_list_round_trip(payload, tail);
        lemma_parse_items_concat(self@);
        assert(self.deep_view() =~= views(self@));
    }

    proof fn lemma_canonical(&self, buf: Seq<u8>) {
        lemma_parse_list_canonical(buf);
        let payload = parse_list(buf).unwrap().0;
        assert(self.deep_view() =~= views(self@));
        lemma_parse_items_canonical(self@, payload);
    }

    fn checked_length(&self) -> (r: Option<usize>) {
        match items_length(self) {
            Some(n) => list_length(n),
            None => {
                proof {
                    lemma_prefix_len_positive(concat_encodings(self@).len());
                }
                None
            },
        }
    }

    fn encode(&self, out: &mut Vec<u8>) {
        proof {
            lemma_prefix_len_positive(concat_encodings(self@).len());
        }
        let payload_length: usize = match items_length(self) {
            Some(n) => n,
            None => unreached(),
        };
        let p = Prefix { list: true, payload_length };
        p.encode(out);
        encode_items(self, out);
        assert(out@ =~= old(out)@ + self.encoding());
    }

    fn decode(buf: &[u8]) -> (r: Result<(Vec<T>, usize), Error>) {
        match decode_list(buf) {
            Err(e) => Err(e),
            Ok((payload, n)) => match decode_items::<T>(payload) {
                Err(e) => Err(e),
                Ok(items) => Ok((items, n)),
            },
        }
    }
}

/// A list is longer than its payload.
pub proof fn lemma_prefix_len_positive(len: nat)
    ensures
        prefix_bytes(true, len).len() >= 1,
{
}

} // verus!
