//! Byte strings, and the scalars that are written as byte strings.

use vstd::prelude::*;
use vstd::slice::slice_subrange;
use crate::error::Error;
use crate::codec::Rlp;
use crate::bigendian::{be_bytes, be_value, be_length, push_be, read_be};
use crate::bigendian::{lemma_be_bytes_len_bound, lemma_be_bytes_no_leading_zero};
use crate::bigendian::{lemma_be_value_of_be_bytes, lemma_pow256_eight};
use crate::prefix::{Prefix, prefix_bytes, parse_prefix, STRING_BASE};
use crate::prefix::{lemma_parse_prefix_bounds, lemma_parse_prefix_bytes};
use crate::prefix::lemma_parse_prefix_canonical;
use crate::bigendian::{lemma_be_value_bound, lemma_pow256_monotonic, lemma_be_bytes_of_be_value};

verus! {

/// The encoding of the byte string `payload`: a single byte below `0x80`
/// stands for itself, and any other string follows its length prefix.
pub open spec fn string_encoding(payload: Seq<u8>) -> Seq<u8> {
    if payload.len() == 1 && payload[0] < 0x80 {
        payload
    } else {
        prefix_bytes(false, payload.len()) + payload
    }
}

/// Reads one byte string from the start of `buf`: its payload, and the
/// number of bytes that prefix and payload take together.
pub open spec fn parse_string(buf: Seq<u8>) -> Result<(Seq<u8>, nat), Error> {
    match parse_prefix(buf) {
        Err(e) => Err(e),
        Ok((p, n)) => if p.list {
            Err(Error::UnexpectedList)
        } else {
            Ok((buf.subrange(n as int, n + p.payload_length), (n + p.payload_length) as nat))
        },
    }
}

/// Reading a byte string takes at least one byte, and only bytes that are
/// there; the payload is part of what was taken.
pub proof fn lemma_parse_string_bounds(buf: Seq<u8>)
    ensures
        parse_string(buf) matches Ok((s, n)) ==> 0 < n <= buf.len() && s.len() <= n,
{
    lemma_parse_prefix_bounds(buf);
}

/// A byte string is read back from its encoding, whatever follows it.
pub proof fn lemma_string_round_trip(payload: Seq<u8>, tail: Seq<u8>)
    requires
        payload.len() <= usize::MAX,
    ensures
        parse_string(string_encoding(payload) + tail) == Ok::<(Seq<u8>, nat), Error>(
            (payload, string_encoding(payload).len()),
        ),
{
    let buf = string_encoding(payload) + tail;
    if payload.len() == 1 && payload[0] < 0x80 {
        reveal(parse_prefix);
        assert(buf[0] == payload[0]);
        assert(buf.subrange(0, 1) =~= payload);
    } else {
        lemma_parse_prefix_bytes(false, payload.len(), payload + tail);
        let n = prefix_bytes(false, payload.len()).len();
        assert(buf =~= prefix_bytes(false, payload.len()) + (payload + tail));
        assert(buf.subrange(n as int, (n + payload.len()) as int) =~= payload);
    }
}

/// Only the encoding of a byte string is read as that string.
pub proof fn lemma_parse_string_canonical(buf: Seq<u8>)
    ensures
        parse_string(buf) matches Ok((s, n)) ==> buf.take(n as int) == string_encoding(s),
{
    lemma_parse_prefix_canonical(buf);
    lemma_parse_prefix_bounds(buf);
    if let Ok((p, k)) = parse_prefix(buf) {
        if !p.list {
            let s = buf.subrange(k as int, k + p.payload_length);
            let n = k + p.payload_length;
            if k == 0 {
                assert(buf.take(n as int) =~= s);
            } else {
                assert(s.len() == 1 ==> s[0] == buf[k as int]);
                assert(buf.take(n as int) =~= buf.take(k as int) + s);
            }
        }
    }
}

/// The length of the encoding of the byte string `payload`, or `None` where
/// it exceeds `usize::MAX`.
pub fn bytes_length(payload: &[u8]) -> (r: Option<usize>)
    ensures
        match r {
            Some(n) => n == string_encoding(payload@).len(),
            None => string_encoding(payload@).len() > usize::MAX,
        },
{
    if payload.len() == 1 && payload[0] < STRING_BASE {
        Some(1)
    } else {
        let p = Prefix { list: false, payload_length: payload.len() };
        p.length().checked_add(payload.len())
    }
}

/// Appends the encoding of the byte string `payload` to `out`.
pub fn encode_bytes(payload: &[u8], out: &mut Vec<u8>)
    ensures
        final(out)@ == old(out)@ + string_encoding(payload@),
{
    if payload.len() == 1 && payload[0] < STRING_BASE {
        out.push(payload[0]);
        assert(out@ =~= old(out)@ + string_encoding(payload@));
    } else {
        let p = Prefix { list: false, payload_length: payload.len() };
        p.encode(out);
        out.extend_from_slice(payload);
        assert(out@ =~= old(out)@ + string_encoding(payload@));
    }
}

/// Reads one byte string from the start of `buf`: its payload, and the
/// number of bytes that prefix and payload take together.
pub fn decode_bytes(buf: &[u8]) -> (r: Result<(&[u8], usize), Error>)
    ensures
        match r {
            Ok((s, n)) => parse_string(buf@) == Ok::<(Seq<u8>, nat), Error>((s@, n as nat)),
            Err(e) => parse_string(buf@) == Err::<(Seq<u8>, nat), Error>(e),
        },
{
    let available: usize = buf.len();
    match Prefix::decode(buf) {
        Err(e) => Err(e),
        Ok((p, n)) => {
            proof {
                lemma_parse_prefix_bounds(buf@);
            }
            assert(n + p.payload_length <= available);
            if p.list {
                Err(Error::UnexpectedList)
            } else {
                let end: usize = n + p.payload_length;
                Ok((slice_subrange(buf, n, end), end))
            }
        },
    }
}

/// The value that the payload of a byte string denotes as an unsigned
/// integer of at most eight bytes.
pub open spec fn parse_uint(buf: Seq<u8>) -> Result<(u64, nat), Error> {
    match parse_string(buf) {
        Err(e) => Err(e),
        Ok((s, n)) => if s.len() > 8 {
            Err(Error::Overflow)
        } else if s.len() > 0 && s[0] == 0 {
            Err(Error::LeadingZero)
        } else {
            Ok((be_value(s) as u64, n))
        },
    }
}

/// An unsigned integer is written as the byte string of its shortest
/// big-endian representation; zero is the empty string.
impl Rlp for u64 {
    open spec fn wf(&self) -> bool {
        true
    }

    open spec fn encoding(&self) -> Seq<u8> {
        string_encoding(be_bytes(*self as nat))
    }

    open spec fn parse(buf: Seq<u8>) -> Result<(u64, nat), Error> {
        parse_uint(buf)
    }

    proof fn lemma_parse_bounds(buf: Seq<u8>) {
        lemma_parse_string_bounds(buf);
    }

    proof fn lemma_round_trip(&self, tail: Seq<u8>) {
        let n = *self as nat;
        lemma_pow256_eight();
        lemma_be_bytes_len_bound(n, 8);
        lemma_string_round_trip(be_bytes(n), tail);
        lemma_be_value_of_be_bytes(n);
        if n > 0 {
            lemma_be_bytes_no_leading_zero(n);
        }
    }

    proof fn lemma_canonical(&self, buf: Seq<u8>) {
        lemma_parse_string_canonical(buf);
        lemma_pow256_eight();
        let s = parse_string(buf).unwrap().0;
        lemma_be_value_bound(s);
        lemma_pow256_monotonic(s.len(), 8);
        lemma_be_bytes_of_be_value(s);
    }

    fn checked_length(&self) -> (r: Option<usize>) {
        proof {
            lemma_uint_encoding(*self);
        }
        if *self < STRING_BASE as u64 {
            Some(1)
        } else {
            Some(1 + be_length(*self))
        }
    }

    fn encode(&self, out: &mut Vec<u8>) {
        proof {
            lemma_uint_encoding(*self);
        }
        if *self == 0 {
            out.push(STRING_BASE);
        } else if *self < STRING_BASE as u64 {
            out.push(*self as u8);
        } else {
            let digits: usize = be_length(*self);
            out.push(STRING_BASE + digits as u8);
            push_be(*self, out);
        }
        assert(out@ =~= old(out)@ + self.encoding());
    }

    fn decode(buf: &[u8]) -> (r: Result<(u64, usize), Error>) {
        match decode_bytes(buf) {
            Err(e) => Err(e),
            Ok((s, n)) => {
                if s.len() > 8 {
                    Err(Error::Overflow)
                } else if s.len() > 0 && s[0] == 0 {
                    Err(Error::LeadingZero)
                } else {
                    Ok((read_be(s), n))
                }
            },
        }
    }
}

/// The three shapes that the encoding of an unsigned integer takes.
pub proof fn lemma_uint_encoding(x: u64)
    ensures
        x == 0 ==> x.encoding() == seq![0x80u8],
        0 < x < 0x80 ==> x.encoding() == seq![x as u8],
        x >= 0x80 ==> x.encoding() == seq![(0x80 + be_bytes(x as nat).len()) as u8] + be_bytes(
            x as nat,
        ),
        1 <= be_bytes(x as nat).len() <= 8 || x == 0,
{
    let n = x as nat;
    lemma_pow256_eight();
    lemma_be_bytes_len_bound(n, 8);
    if n == 0 {
        assert(x.encoding() =~= seq![0x80u8]);
    } else if n < 256 {
        assert(be_bytes(n / 256) =~= Seq::<u8>::empty());
        assert(be_bytes(n) =~= seq![x as u8]);
        if n < 0x80 {
            assert(x.encoding() =~= seq![x as u8]);
        }
    } else {
        lemma_be_bytes_no_leading_zero(n);
        assert(be_bytes(n).len() >= 2) by {
            lemma_be_bytes_no_leading_zero(n / 256);
        }
    }
}

/// What reading a byte string of exactly `width` bytes gives.
pub open spec fn parse_fixed(buf: Seq<u8>, width: nat) -> Result<(Seq<u8>, nat), Error> {
    match parse_string(buf) {
        Err(e) => Err(e),
        Ok((s, n)) => if s.len() != width {
            Err(Error::UnexpectedLength)
        } else {
            Ok((s, n))
        },
    }
}

/// An array of bytes is written as the byte string of its bytes, and only a
/// string of the same length is read as one.
impl<const N: usize> Rlp for [u8; N] {
    open spec fn wf(&self) -> bool {
        true
    }

    open spec fn encoding(&self) -> Seq<u8> {
        string_encoding(self@)
    }

    open spec fn parse(buf: Seq<u8>) -> Result<(Seq<u8>, nat), Error> {
        parse_fixed(buf, N as nat)
    }

    proof fn lemma_parse_bounds(buf: Seq<u8>) {
        lemma_parse_string_bounds(buf);
    }

    proof fn lemma_round_trip(&self, tail: Seq<u8>) {
        lemma_string_round_trip(self@, tail);
        assert(self.deep_view() =~= self@);
    }

    proof fn lemma_canonical(&self, buf: Seq<u8>) {
        lemma_parse_string_canonical(buf);
        assert(self.deep_view() =~= self@);
    }

    fn checked_length(&self) -> (r: Option<usize>) {
        bytes_length(self.as_slice())
    }

    fn encode(&self, out: &mut Vec<u8>) {
        encode_bytes(self.as_slice(), out);
    }

    fn decode(buf: &[u8]) -> (r: Result<([u8; N], usize), Error>) {
        match decode_bytes(buf) {
            Err(e) => Err(e),
            Ok((s, n)) => {
                if s.len() != N {
                    Err(Error::UnexpectedLength)
                } else {
                    let mut bytes: [u8; N] = [0u8; N];
                    let mut i: usize = 0;
                    while i < N
                        invariant
                            i <= N,
                            s@.len() == N,
                            forall|j: int| 0 <= j < i ==> bytes@[j] == s@[j],
                        decreases N - i,
                    {
                        bytes[i] = s[i];
                        i = i + 1;
                    }
                    assert(bytes.deep_view() =~= s@);
                    Ok((bytes, n))
                }
            },
        }
    }
}

} // verus!
