//! Charset-aware decoding of an HTTP response body into text.
//!
//! `charset` picks the character encoding of a body from its `Content-Type`
//! header; `stream` holds encoding_rs's incremental decoder with a record of
//! what it was fed; `decode` turns the outcomes of reads from the body into
//! text, one at a time, for blocking and asynchronous readers alike.
pub mod charset;
pub mod decode;
pub mod stream;

pub use charset::{resolve_charset, Charset};
pub use decode::{decode_events, BodyDecoder, DecodeError, ReadEvent, Step};
pub use stream::CHUNK_SIZE;
