//! The length prefix that precedes the payload of every item.
//!
//! A payload shorter than 56 bytes is announced by one byte that holds the
//! kind of the item and the length. A longer payload is announced by one
//! byte that holds the kind and the number of length bytes, followed by the
//! length itself in its shortest big-endian form. A byte string of the single
//! byte `b < 0x80` has no prefix at all: the byte announces itself.

use vstd::prelude::*;
use vstd::slice::slice_subrange;
use crate::error::Error;
use crate::bigendian::{be_bytes, be_value, be_length, push_be, read_be};
use crate::bigendian::{lemma_be_bytes_len_bound, lemma_be_bytes_no_leading_zero};
use crate::bigendian::{lemma_be_value_of_be_bytes, lemma_pow256_eight};
use crate::bigendian::lemma_be_bytes_of_be_value;

verus! {

/// Payloads of fewer bytes than this are announced in the short form.
pub const SHORT_LIMIT: usize = 56;

/// The prefix of the empty byte string; a short string of length `n` has
/// the prefix `STRING_BASE + n`.
pub const STRING_BASE: u8 = 0x80;

/// A long string with `k` length bytes has the first byte `LONG_STRING_BASE + k`.
pub const LONG_STRING_BASE: u8 = 0xB7;

/// The prefix of the empty list; a short list of payload length `n` has the
/// prefix `LIST_BASE + n`.
pub const LIST_BASE: u8 = 0xC0;

/// A long list with `k` length bytes has the first byte `LONG_LIST_BASE + k`.
pub const LONG_LIST_BASE: u8 = 0xF7;

/// What a prefix announces: the kind of the item and the length of its payload.
#[derive(Clone, Copy, Debug, PartialEq, Eq, Structural)]
pub struct Prefix {
    /// Whether the item is a list; a byte string otherwise.
    pub list: bool,
    /// The number of payload bytes that follow the prefix.
    pub payload_length: usize,
}

/// The bytes of the prefix that announces a payload of `len` bytes.
pub open spec fn prefix_bytes(list: bool, len: nat) -> Seq<u8> {
    if len < 56 {
        seq![((if list { 0xC0nat } else { 0x80nat }) + len) as u8]
    } else {
        seq![((if list { 0xF7nat } else { 0xB7nat }) + be_bytes(len).len()) as u8] + be_bytes(len)
    }
}

/// Reads a short-form prefix whose first byte announces `len` payload bytes.
pub open spec fn parse_short(buf: Seq<u8>, list: bool, len: nat) -> Result<(Prefix, nat), Error> {
    if !list && len == 1 && buf.len() < 2 {
        Err(Error::InputTooShort)
    } else if !list && len == 1 && buf[1] < 0x80 {
        Err(Error::NonCanonicalLength)
    } else if buf.len() - 1 < len {
        Err(Error::InputTooShort)
    } else {
        Ok((Prefix { list, payload_length: len as usize }, 1nat))
    }
}

/// Reads a long-form prefix whose first byte announces `digits` length bytes.
pub open spec fn parse_long(buf: Seq<u8>, list: bool, digits: nat) -> Result<(Prefix, nat), Error> {
    if buf.len() - 1 < digits {
        Err(Error::InputTooShort)
    } else {
        let len = be_value(buf.subrange(1, 1 + digits as int));
        if buf[1] == 0 {
            Err(Error::NonCanonicalLength)
        } else if len > usize::MAX {
            Err(Error::Overflow)
        } else if len < 56 {
            Err(Error::NonCanonicalLength)
        } else if buf.len() - 1 - digits < len {
            Err(Error::InputTooShort)
        } else {
            Ok((Prefix { list, payload_length: len as usize }, 1 + digits))
        }
    }
}

/// Reads the prefix at the start of `buf`.
///
/// On success the result holds what the prefix announces and the number of
/// bytes that the prefix itself takes; the payload follows it and is known
/// to lie within `buf`. A single byte below `0x80` is its own payload and
/// takes a prefix of no bytes.
///
/// The definition is opaque, so that proofs about whole records do not
/// unfold it by accident: `reveal(parse_prefix)` brings it in where a proof
/// needs it.
#[verifier::opaque]
pub open spec fn parse_prefix(buf: Seq<u8>) -> Result<(Prefix, nat), Error> {
    if buf.len() == 0 {
        Err(Error::InputTooShort)
    } else if buf[0] < 0x80 {
        Ok((Prefix { list: false, payload_length: 1 }, 0nat))
    } else if buf[0] <= 0xB7 {
        parse_short(buf, false, (buf[0] - 0x80) as nat)
    } else if buf[0] <= 0xBF {
        parse_long(buf, false, (buf[0] - 0xB7) as nat)
    } else if buf[0] <= 0xF7 {
        parse_short(buf, true, (buf[0] - 0xC0) as nat)
    } else {
        parse_long(buf, true, (buf[0] - 0xF7) as nat)
    }
}

impl Prefix {
    /// The number of bytes that the encoded prefix takes.
    pub fn length(&self) -> (n: usize)
        ensures
            n == prefix_bytes(self.list, self.payload_length as nat).len(),
            1 <= n <= 9,
    {
        if self.payload_length < SHORT_LIMIT {
            1
        } else {
            1 + be_length(self.payload_length as u64)
        }
    }

    /// Appends the encoded prefix to `out`.
    pub fn encode(&self, out: &mut Vec<u8>)
        ensures
            final(out)@ == old(out)@ + prefix_bytes(self.list, self.payload_length as nat),
    {
        if self.payload_length < SHORT_LIMIT {
            let base: u8 = if self.list { LIST_BASE } else { STRING_BASE };
            out.push(base + self.payload_length as u8);
            assert(out@ =~= old(out)@ + prefix_bytes(self.list, self.payload_length as nat));
        } else {
            let base: u8 = if self.list { LONG_LIST_BASE } else { LONG_STRING_BASE };
            let digits: usize = be_length(self.payload_length as u64);
            out.push(base + digits as u8);
            push_be(self.payload_length as u64, out);
            assert(out@ =~= old(out)@ + prefix_bytes(self.list, self.payload_length as nat));
        }
    }

    /// Reads the prefix at the start of `buf`; the second component of the
    /// result is the number of bytes that the prefix takes.
    pub fn decode(buf: &[u8]) -> (r: Result<(Prefix, usize), Error>)
        ensures
            match r {
                Ok((p, n)) => parse_prefix(buf@) == Ok::<(Prefix, nat), Error>((p, n as nat)),
                Err(e) => parse_prefix(buf@) == Err::<(Prefix, nat), Error>(e),
            },
    {
        proof {
            reveal(parse_prefix);
        }
        if buf.len() == 0 {
            return Err(Error::InputTooShort);
        }
        let first: u8 = buf[0];
        if first < STRING_BASE {
            Ok((Prefix { list: false, payload_length: 1 }, 0))
        } else if first <= LONG_STRING_BASE {
            Self::decode_short(buf, false, (first - STRING_BASE) as usize)
        } else if first < LIST_BASE {
            Self::decode_long(buf, false, (first - LONG_STRING_BASE) as usize)
        } else if first <= LONG_LIST_BASE {
            Self::decode_short(buf, true, (first - LIST_BASE) as usize)
        } else {
            Self::decode_long(buf, true, (first - LONG_LIST_BASE) as usize)
        }
    }

    fn decode_short(buf: &[u8], list: bool, len: usize) -> (r: Result<(Prefix, usize), Error>)
        requires
            buf@.len() >= 1,
            len < 56,
        ensures
            match r {
                Ok((p, n)) => parse_short(buf@, list, len as nat) == Ok::<(Prefix, nat), Error>(
                    (p, n as nat),
                ),
                Err(e) => parse_short(buf@, list, len as nat) == Err::<(Prefix, nat), Error>(e),
            },
    {
        if !list && len == 1 {
            if buf.len() < 2 {
                return Err(Error::InputTooShort);
            }
            if buf[1] < STRING_BASE {
                return Err(Error::NonCanonicalLength);
            }
        }
        if buf.len() - 1 < len {
            return Err(Error::InputTooShort);
        }
        Ok((Prefix { list, payload_length: len }, 1))
    }

    fn decode_long(buf: &[u8], list: bool, digits: usize) -> (r: Result<(Prefix, usize), Error>)
        requires
            buf@.len() >= 1,
            1 <= digits <= 8,
        ensures
            match r {
                Ok((p, n)) => parse_long(buf@, list, digits as nat) == Ok::<(Prefix, nat), Error>(
                    (p, n as nat),
                ),
                Err(e) => parse_long(buf@, list, digits as nat) == Err::<(Prefix, nat), Error>(e),
            },
    {
        if buf.len() - 1 < digits {
            return Err(Error::InputTooShort);
        }
        let len: u64 = read_be(slice_subrange(buf, 1, 1 + digits));
        if buf[1] == 0 {
            return Err(Error::NonCanonicalLength);
        }
        if len > usize::MAX as u64 {
            return Err(Error::Overflow);
        }
        if len < SHORT_LIMIT as u64 {
            return Err(Error::NonCanonicalLength);
        }
        if ((buf.len() - 1 - digits) as u64) < len {
            return Err(Error::InputTooShort);
        }
        Ok((Prefix { list, payload_length: len as usize }, 1 + digits))
    }
}

/// A prefix that was read lies, together with the payload it announces,
/// within the bytes it was read from, and the two are never both empty.
pub proof fn lemma_parse_prefix_bounds(buf: Seq<u8>)
    ensures
        parse_prefix(buf) matches Ok((p, n)) ==> {
            &&& n <= 9
            &&& 0 < n + p.payload_length <= buf.len()
            &&& (n == 0 ==> p.payload_length == 1 && !p.list)
        },
{
    reveal(parse_prefix);
}

/// Reading the prefix written for a payload gives back what was written,
/// whatever follows the payload.
pub proof fn lemma_parse_prefix_bytes(list: bool, len: nat, tail: Seq<u8>)
    requires
        len <= usize::MAX,
        tail.len() >= len,
        !list && len == 1 ==> tail[0] >= 0x80,
    ensures
        parse_prefix(prefix_bytes(list, len) + tail) == Ok::<(Prefix, nat), Error>(
            (Prefix { list, payload_length: len as usize }, prefix_bytes(list, len).len()),
        ),
        1 <= prefix_bytes(list, len).len() <= 9,
{
    reveal(parse_prefix);
    lemma_prefix_shape(list, len);
    let buf = prefix_bytes(list, len) + tail;
    if len >= 56 {
        let digits = be_bytes(len).len();
        assert(buf.subrange(1, 1 + digits as int) =~= be_bytes(len));
        lemma_be_value_of_be_bytes(len);
        lemma_be_bytes_no_leading_zero(len);
        assert(buf[1] == be_bytes(len)[0]);
    } else if !list && len == 1 {
        assert(buf[1] == tail[0]);
    }
}

/// The first byte of a written prefix tells its form, and a long form has
/// between one and eight length bytes.
pub proof fn lemma_prefix_shape(list: bool, len: nat)
    requires
        len <= usize::MAX,
    ensures
        1 <= prefix_bytes(list, len).len() <= 9,
        len < 56 ==> prefix_bytes(list, len).len() == 1,
        len < 56 ==> prefix_bytes(list, len)[0] == (if list { 0xC0nat } else { 0x80nat }) + len,
        len >= 56 ==> 1 <= be_bytes(len).len() <= 8,
        len >= 56 ==> prefix_bytes(list, len).len() == 1 + be_bytes(len).len(),
        len >= 56 ==> prefix_bytes(list, len)[0] == (if list { 0xF7nat } else { 0xB7nat })
            + be_bytes(len).len(),
{
    if len >= 56 {
        lemma_pow256_eight();
        lemma_be_bytes_len_bound(len, 8);
        lemma_be_bytes_no_leading_zero(len);
    }
}

/// A prefix is rejected as too short when fewer payload bytes follow it than
/// it announces.
pub proof fn lemma_parse_prefix_truncated(list: bool, len: nat, tail: Seq<u8>)
    requires
        len <= usize::MAX,
        tail.len() < len,
        !list && len == 1 ==> tail.len() == 0,
    ensures
        parse_prefix(prefix_bytes(list, len) + tail) == Err::<(Prefix, nat), Error>(
            Error::InputTooShort,
        ),
{
    reveal(parse_prefix);
    lemma_prefix_shape(list, len);
    let buf = prefix_bytes(list, len) + tail;
    if len >= 56 {
        let digits = be_bytes(len).len();
        assert(buf.subrange(1, 1 + digits as int) =~= be_bytes(len));
        lemma_be_value_of_be_bytes(len);
        lemma_be_bytes_no_leading_zero(len);
        assert(buf[1] == be_bytes(len)[0]);
    }
}

/// What a prefix announces does not depend on the bytes after its payload.
pub proof fn lemma_parse_prefix_extend(buf: Seq<u8>, tail: Seq<u8>)
    requires
        parse_prefix(buf) is Ok,
    ensures
        parse_prefix(buf + tail) == parse_prefix(buf),
{
    reveal(parse_prefix);
    let longer = buf + tail;
    assert(longer[0] == buf[0]);
    if buf[0] >= 0x80 {
        if buf.len() >= 2 {
            assert(longer[1] == buf[1]);
        }
        if (0xB7 < buf[0] <= 0xBF) || buf[0] > 0xF7 {
            let digits: nat = if buf[0] <= 0xBF {
                (buf[0] - 0xB7) as nat
            } else {
                (buf[0] - 0xF7) as nat
            };
            assert(longer.subrange(1, 1 + digits as int) =~= buf.subrange(1, 1 + digits as int));
        }
    }
}

/// What a prefix announces is told by the prefix and the presence of its
/// payload alone: the bytes after the payload can be cut off.
pub proof fn lemma_parse_prefix_take(buf: Seq<u8>)
    requires
        parse_prefix(buf) is Ok,
    ensures
        ({
            let (p, n) = parse_prefix(buf).unwrap();
            parse_prefix(buf.take(n + p.payload_length)) == parse_prefix(buf)
        }),
{
    reveal(parse_prefix);
    let (p, n) = parse_prefix(buf).unwrap();
    let item = buf.take(n + p.payload_length);
    assert(item[0] == buf[0]);
    if buf[0] >= 0x80 {
        if item.len() >= 2 {
            assert(item[1] == buf[1]);
        }
        if (0xB7 < buf[0] <= 0xBF) || buf[0] > 0xF7 {
            let digits: nat = if buf[0] <= 0xBF {
                (buf[0] - 0xB7) as nat
            } else {
                (buf[0] - 0xF7) as nat
            };
            assert(item.subrange(1, 1 + digits as int) =~= buf.subrange(1, 1 + digits as int));
        }
    }
}

/// A prefix is accepted only in the form in which it is written: the bytes
/// that were read as a prefix are the bytes that are written for what was
/// read. Where no byte was taken, the payload is a single byte below `0x80`,
/// and a payload of one byte that follows a prefix is not below `0x80`.
pub proof fn lemma_parse_prefix_canonical(buf: Seq<u8>)
    ensures
        parse_prefix(buf) matches Ok((p, n)) ==> {
            &&& n > 0 ==> buf.take(n as int) == prefix_bytes(p.list, p.payload_length as nat)
            &&& n == 0 ==> buf[0] < 0x80
            &&& n > 0 && !p.list && p.payload_length == 1 ==> buf[n as int] >= 0x80
        },
{
    reveal(parse_prefix);
    if let Ok((p, n)) = parse_prefix(buf) {
        if buf[0] >= 0x80 {
            if (0xB7 < buf[0] <= 0xBF) || buf[0] > 0xF7 {
                let digits: nat = if buf[0] <= 0xBF {
                    (buf[0] - 0xB7) as nat
                } else {
                    (buf[0] - 0xF7) as nat
                };
                let length = buf.subrange(1, 1 + digits as int);
                assert(length[0] == buf[1]);
                lemma_be_bytes_of_be_value(length);
                assert(buf.take(n as int) =~= prefix_bytes(p.list, p.payload_length as nat));
            } else {
                assert(buf.take(n as int) =~= prefix_bytes(p.list, p.payload_length as nat));
            }
        }
    }
}

/// A long-form prefix that announces a length which the short form could
/// hold is rejected as non-canonical, provided its length bytes are there.
pub proof fn lemma_long_form_of_short_length_rejected(buf: Seq<u8>)
    requires
        buf.len() >= 1,
        (0xB7 < buf[0] <= 0xBF) || buf[0] > 0xF7,
        ({
            let digits: nat = if buf[0] <= 0xBF {
                (buf[0] - 0xB7) as nat
            } else {
                (buf[0] - 0xF7) as nat
            };
            buf.len() - 1 >= digits && be_value(buf.subrange(1, 1 + digits as int)) < 56
        }),
    ensures
        parse_prefix(buf) == Err::<(Prefix, nat), Error>(Error::NonCanonicalLength),
{
    reveal(parse_prefix);
}

} // verus!
