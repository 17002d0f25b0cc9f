//! What holds of the encoding of blocks and bodies as a whole.
//!
//! The statements here speak of the specifications that the executable
//! encoders and decoders are held to: `encoding` is what `encode` appends,
//! and `parse` is what `decode` returns.

use vstd::prelude::*;
use crate::error::Error;
use crate::codec::{Rlp, parse_exact, lemma_exact_round_trip};
use crate::prefix::{Prefix, parse_prefix, prefix_bytes};
use crate::prefix::{lemma_parse_prefix_truncated, lemma_long_form_of_short_length_rejected};
use crate::bigendian::be_value;
use crate::list::{list_encoding, parse_list, lemma_prefix_len_positive};
use crate::optional::{parse_optional, lemma_parse_optional_bounds};
use crate::body::{BlockBody, BlockBodyView, parse_trailing};
use crate::block::{Block, BlockView};
use crate::requests::Requests;
use crate::withdrawal::Withdrawal;

verus! {

/// Reading the encoding of a block gives the block back: the decoder takes
/// the whole encoding and nothing of what follows it, and a buffer that holds
/// the encoding alone decodes to the block.
pub proof fn lemma_block_round_trip<T: Rlp>(block: Block<T>, tail: Seq<u8>)
    requires
        block.wf(),
        block.encoding().len() <= usize::MAX,
    ensures
        Block::<T>::parse(block.encoding() + tail) == Ok::<(BlockView<T::V>, nat), Error>(
            (block.deep_view(), block.encoding().len()),
        ),
        parse_exact::<Block<T>>(block.encoding()) == Ok::<BlockView<T::V>, Error>(
            block.deep_view(),
        ),
{
    block.lemma_round_trip(tail);
    lemma_exact_round_trip(block);
}

/// Reading the encoding of a body that stands alone gives the body back.
pub proof fn lemma_body_round_trip<T: Rlp>(body: BlockBody<T>, tail: Seq<u8>)
    requires
        body.wf(),
        body.encoding().len() <= usize::MAX,
    ensures
        BlockBody::<T>::parse(body.encoding() + tail) == Ok::<(BlockBodyView<T::V>, nat), Error>(
            (body.deep_view(), body.encoding().len()),
        ),
        parse_exact::<BlockBody<T>>(body.encoding()) == Ok::<BlockBodyView<T::V>, Error>(
            body.deep_view(),
        ),
{
    body.lemma_round_trip(tail);
    lemma_exact_round_trip(body);
}

/// A body without optional fields is written as the list of its two required
/// fields and nothing else, and reading that list gives a body in which both
/// optional fields are missing.
pub proof fn lemma_body_without_optional_fields<T: Rlp>(body: BlockBody<T>)
    requires
        body.wf(),
        body.encoding().len() <= usize::MAX,
        body.withdrawals is None,
        body.requests is None,
    ensures
        body.encoding() == list_encoding(body.transactions.encoding() + body.ommers.encoding()),
        parse_exact::<BlockBody<T>>(body.encoding()) matches Ok(v) && v.withdrawals is None
            && v.requests is None,
{
    assert(body.payload() =~= body.transactions.encoding() + body.ommers.encoding());
    lemma_exact_round_trip(body);
}

/// Bytes that are read as a block start with the encoding of that block, and
/// the encoding is all that was taken of them: a block has one encoding, and
/// no other bytes are taken for it.
pub proof fn lemma_block_is_read_from_its_encoding_only<T: Rlp>(block: Block<T>, buf: Seq<u8>)
    requires
        block.wf(),
        Block::<T>::parse(buf) matches Ok((v, _)) && v == block.deep_view(),
    ensures
        Block::<T>::parse(buf) matches Ok((_, n)) && buf.take(n as int) == block.encoding(),
{
    block.lemma_canonical(buf);
}

/// Bytes that are read as a body start with the encoding of that body, and
/// the encoding is all that was taken of them.
pub proof fn lemma_body_is_read_from_its_encoding_only<T: Rlp>(body: BlockBody<T>, buf: Seq<u8>)
    requires
        body.wf(),
        BlockBody::<T>::parse(buf) matches Ok((v, _)) && v == body.deep_view(),
    ensures
        BlockBody::<T>::parse(buf) matches Ok((_, n)) && buf.take(n as int) == body.encoding(),
{
    body.lemma_canonical(buf);
}

/// No decoder output holds requests without withdrawals: what the optional
/// fields are read as always respects their order.
pub proof fn lemma_parsed_trailing_is_ordered(cursor: Seq<u8>)
    ensures
        parse_trailing(cursor) matches Ok((withdrawals, requests)) ==> (requests is Some
            ==> withdrawals is Some),
{
    lemma_parse_optional_bounds::<Vec<Withdrawal>>(cursor);
    if let Ok((withdrawals, a)) = parse_optional::<Vec<Withdrawal>>(cursor) {
        lemma_parse_optional_bounds::<Requests>(cursor.skip(a as int));
    }
}

/// A body that was read never holds requests without withdrawals.
pub proof fn lemma_parsed_body_is_ordered<T: Rlp>(buf: Seq<u8>)
    ensures
        BlockBody::<T>::parse(buf) matches Ok((v, _)) ==> (v.requests is Some
            ==> v.withdrawals is Some),
{
    if let Ok((payload, _)) = parse_list(buf) {
        if let Ok((_, a)) = Vec::<T>::parse(payload) {
            if let Ok((_, b)) = Vec::<crate::header::Header>::parse(payload.skip(a as int)) {
                lemma_parsed_trailing_is_ordered(payload.skip((a + b) as int));
            }
        }
    }
}

/// A block that was read never holds requests without withdrawals.
pub proof fn lemma_parsed_block_is_ordered<T: Rlp>(buf: Seq<u8>)
    ensures
        Block::<T>::parse(buf) matches Ok((v, _)) ==> (v.body.requests is Some
            ==> v.body.withdrawals is Some),
{
    if let Ok((payload, _)) = parse_list(buf) {
        if let Ok((_, h)) = crate::header::Header::parse(payload) {
            let fields = payload.skip(h as int);
            if let Ok((_, a)) = Vec::<T>::parse(fields) {
                if let Ok((_, b)) = Vec::<crate::header::Header>::parse(fields.skip(a as int)) {
                    lemma_parsed_trailing_is_ordered(fields.skip((a + b) as int));
                }
            }
        }
    }
}

/// The encoding of a list without its last byte is rejected as too short.
pub proof fn lemma_truncated_list_is_too_short(payload: Seq<u8>)
    requires
        payload.len() <= usize::MAX,
    ensures
        parse_list(list_encoding(payload).drop_last()) == Err::<(Seq<u8>, nat), Error>(
            Error::InputTooShort,
        ),
{
    let whole = list_encoding(payload);
    let cut = whole.drop_last();
    lemma_prefix_len_positive(payload.len());
    if payload.len() == 0 {
        reveal(parse_prefix);
        assert(cut.len() == 0);
    } else {
        assert(cut =~= prefix_bytes(true, payload.len()) + payload.drop_last());
        lemma_parse_prefix_truncated(true, payload.len(), payload.drop_last());
    }
}

/// The encoding of a block without its last byte is rejected as too short:
/// a truncated block is never taken for a shorter one.
pub proof fn lemma_truncated_block_is_too_short<T: Rlp>(block: Block<T>)
    requires
        block.wf(),
        block.encoding().len() <= usize::MAX,
    ensures
        Block::<T>::parse(block.encoding().drop_last()) == Err::<(BlockView<T::V>, nat), Error>(
            Error::InputTooShort,
        ),
        parse_exact::<Block<T>>(block.encoding().drop_last()) == Err::<BlockView<T::V>, Error>(
            Error::InputTooShort,
        ),
{
    lemma_prefix_len_positive(block.payload().len());
    lemma_truncated_list_is_too_short(block.payload());
}

/// The encoding of a body without its last byte is rejected as too short.
pub proof fn lemma_truncated_body_is_too_short<T: Rlp>(body: BlockBody<T>)
    requires
        body.wf(),
        body.encoding().len() <= usize::MAX,
    ensures
        BlockBody::<T>::parse(body.encoding().drop_last()) == Err::<
            (BlockBodyView<T::V>, nat),
            Error,
        >(Error::InputTooShort),
        parse_exact::<BlockBody<T>>(body.encoding().drop_last()) == Err::<
            BlockBodyView<T::V>,
            Error,
        >(Error::InputTooShort),
{
    lemma_prefix_len_positive(body.payload().len());
    lemma_truncated_list_is_too_short(body.payload());
}

/// Whether `buf` starts with a prefix in the long form whose length bytes
/// are there and announce a length that the short form could hold.
pub open spec fn starts_with_redundant_long_form(buf: Seq<u8>) -> bool {
    &&& buf.len() >= 1
    &&& (0xB7 < buf[0] <= 0xBF || buf[0] > 0xF7)
    &&& ({
        let digits: nat = if buf[0] <= 0xBF {
            (buf[0] - 0xB7) as nat
        } else {
            (buf[0] - 0xF7) as nat
        };
        buf.len() - 1 >= digits && be_value(buf.subrange(1, 1 + digits as int)) < 56
    })
}

/// A buffer that announces, in the long form, a length that the short form
/// could hold is rejected as non-canonical, as a block and as a body.
pub proof fn lemma_redundant_long_form_rejected<T: Rlp>(buf: Seq<u8>)
    requires
        starts_with_redundant_long_form(buf),
    ensures
        parse_prefix(buf) == Err::<(Prefix, nat), Error>(Error::NonCanonicalLength),
        Block::<T>::parse(buf) == Err::<(BlockView<T::V>, nat), Error>(
            Error::NonCanonicalLength,
        ),
        BlockBody::<T>::parse(buf) == Err::<(BlockBodyView<T::V>, nat), Error>(
            Error::NonCanonicalLength,
        ),
{
    lemma_long_form_of_short_length_rejected(buf);
}

} // verus!
