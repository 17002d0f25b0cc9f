//! Canonical length-prefixed binary encoding of blocks and block bodies.
//!
//! Every value is encoded as an item: either a byte string or a list of
//! items, each preceded by a prefix that states the length of its payload.
//! A block is one flat list holding its header followed by the fields of its
//! body; the two trailing fields of a body are optional and are present
//! exactly when bytes remain in the list's payload.

pub mod error;
pub mod bigendian;
pub mod prefix;
pub mod codec;
pub mod string;
pub mod list;
pub mod raw;
pub mod header;
pub mod requests;
pub mod withdrawal;
pub mod optional;
pub mod body;
pub mod block;
pub mod laws;
pub mod response;
