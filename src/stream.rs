use vstd::prelude::*;
use crate::charset::Charset;

verus! {

/// The most bytes that one read of a body hands to the decoder.
pub const CHUNK_SIZE: usize = 8192;

#[verifier::external_type_specification]
#[verifier::external_body]
pub struct ExDecoder(encoding_rs::Decoder);

/// The text that a fresh decoder for the encoding named `enc` writes when,
/// having consumed the pieces of `before` (each with its end-of-stream flag),
/// it consumes all of `piece` with end-of-stream flag `last`.
pub uninterp spec fn piece_text(
    enc: Seq<char>,
    before: Seq<(Seq<u8>, bool)>,
    piece: Seq<u8>,
    last: bool,
) -> Seq<char>;

/// The abstract state of a `StreamDecoder`: the encoding it was made for,
/// the pieces it has consumed, and whether the stream has ended.
pub struct StreamModel {
    pub encoding: Seq<char>,
    pub history: Seq<(Seq<u8>, bool)>,
    pub finished: bool,
}

/// An encoding_rs decoder together with a record of what it has been fed.
/// Only the two trusted functions below create or change it.
pub struct StreamDecoder {
    decoder: encoding_rs::Decoder,
    encoding: Ghost<Seq<char>>,
    history: Ghost<Seq<(Seq<u8>, bool)>>,
    finished: bool,
}

impl View for StreamDecoder {
    type V = StreamModel;

    closed spec fn view(&self) -> StreamModel {
        StreamModel { encoding: self.encoding@, history: self.history@, finished: self.finished }
    }
}

impl StreamDecoder {
    /// Relies on `encoding_rs::Encoding::new_decoder`: a fresh decoder for
    /// the charset's encoding, which has consumed nothing.
    #[verifier::external_body]
    pub(crate) fn new(charset: &Charset) -> (r: StreamDecoder)
        ensures
            r@.encoding == charset@,
            r@.history == Seq::<(Seq<u8>, bool)>::empty(),
            !r@.finished,
    {
        StreamDecoder {
            decoder: charset.encoding().new_decoder(),
            encoding: Ghost(charset@),
            history: Ghost(Seq::empty()),
            finished: false,
        }
    }

    /// Whether the decoder has been given the end of the stream.
    pub fn is_finished(&self) -> (r: bool)
        ensures
            r == self@.finished,
    {
        self.finished
    }

    /// Relies on `encoding_rs::Decoder::max_utf8_buffer_length` and
    /// `Decoder::decode_to_string`: once the worst-case output size for `src`
    /// is reserved in `dst` (finite for a piece of this size),
    /// `decode_to_string` consumes all of `src`, returns `InputEmpty` and
    /// appends what it decodes; with `last` the decoder then has ended. A
    /// decoder that has consumed nothing writes nothing for an empty piece.
    #[verifier::external_body]
    pub(crate) fn decode(&mut self, src: &[u8], dst: &mut String, last: bool)
        requires
            src@.len() <= CHUNK_SIZE,
            !old(self)@.finished,
        ensures
            final(dst)@ == old(dst)@ + piece_text(
                old(self)@.encoding,
                old(self)@.history,
                src@,
                last,
            ),
            old(self)@.history.len() == 0 && src@.len() == 0 ==> final(dst)@ == old(dst)@,
            final(self)@.encoding == old(self)@.encoding,
            final(self)@.history == old(self)@.history.push((src@, last)),
            final(self)@.finished == last,
    {
        if let Some(room) = self.decoder.max_utf8_buffer_length(src.len()) {
            dst.reserve(room);
        }
        let _ = self.decoder.decode_to_string(src, dst, last);
        self.finished = last;
    }
}

} // verus!
