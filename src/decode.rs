use vstd::prelude::*;
use crate::charset::Charset;
use crate::stream::{piece_text, StreamDecoder, CHUNK_SIZE};

verus! {

/// The whole text that a fresh decoder for `enc` writes on consuming the
/// pieces of `h` in order.
pub open spec fn decoded_text(enc: Seq<char>, h: Seq<(Seq<u8>, bool)>) -> Seq<char>
    decreases h.len(),
{
    if h.len() == 0 {
        Seq::empty()
    } else {
        let before = h.drop_last();
        decoded_text(enc, before) + piece_text(enc, before, h.last().0, h.last().1)
    }
}

/// The bytes of all pieces of `h`, in order.
pub open spec fn fed_bytes(h: Seq<(Seq<u8>, bool)>) -> Seq<u8>
    decreases h.len(),
{
    if h.len() == 0 {
        Seq::empty()
    } else {
        fed_bytes(h.drop_last()) + h.last().0
    }
}

/// What a read from the body gave: some bytes (none at the end of the
/// stream), a transient interruption, or a failure.
pub enum ReadEvent {
    Bytes(Vec<u8>),
    Interrupted,
    Failed,
}

/// What the reader does next.
#[derive(Debug, PartialEq, Eq, Structural)]
pub enum Step {
    /// Read again from the body.
    ReadMore,
    /// The stream has ended and the text is complete.
    Finished,
    /// The read failed; the text is dropped and the failure reported.
    Failed,
}

#[derive(Debug, PartialEq, Eq, Structural)]
pub enum DecodeError {
    /// A read from the body failed with something other than an interruption.
    ReadFailed,
}

pub open spec fn event_ok(ev: ReadEvent) -> bool {
    ev matches ReadEvent::Bytes(b) ==> b@.len() <= CHUNK_SIZE
}

/// The decoder's pieces after one read event: a non-empty read is fed as it
/// is, the end of the stream as an empty last piece; other events feed nothing.
pub open spec fn history_after(h: Seq<(Seq<u8>, bool)>, ev: ReadEvent) -> Seq<(Seq<u8>, bool)> {
    match ev {
        ReadEvent::Bytes(b) => if b@.len() == 0 {
            h.push((Seq::empty(), true))
        } else {
            h.push((b@, false))
        },
        _ => h,
    }
}

pub open spec fn step_for(ev: ReadEvent) -> Step {
    match ev {
        ReadEvent::Bytes(b) => if b@.len() == 0 {
            Step::Finished
        } else {
            Step::ReadMore
        },
        ReadEvent::Interrupted => Step::ReadMore,
        ReadEvent::Failed => Step::Failed,
    }
}

/// The decoder's pieces after a whole run of read events from `h`, or `None`
/// where a read fails first. Running out of events ends the stream.
pub open spec fn run_history(evs: Seq<ReadEvent>, h: Seq<(Seq<u8>, bool)>) -> Option<
    Seq<(Seq<u8>, bool)>,
>
    decreases evs.len(),
{
    if evs.len() == 0 {
        Some(h.push((Seq::empty(), true)))
    } else {
        match step_for(evs[0]) {
            Step::ReadMore => run_history(evs.drop_first(), history_after(h, evs[0])),
            Step::Finished => Some(history_after(h, evs[0])),
            Step::Failed => None,
        }
    }
}

/// The bytes that reads deliver before the stream ends or a read fails.
pub open spec fn delivered(evs: Seq<ReadEvent>) -> Seq<u8>
    decreases evs.len(),
{
    if evs.len() == 0 {
        Seq::empty()
    } else {
        match evs[0] {
            ReadEvent::Bytes(b) => if b@.len() == 0 {
                Seq::empty()
            } else {
                b@ + delivered(evs.drop_first())
            },
            ReadEvent::Interrupted => delivered(evs.drop_first()),
            ReadEvent::Failed => Seq::empty(),
        }
    }
}

/// The abstract state of a `BodyDecoder`.
pub struct DecoderModel {
    pub encoding: Seq<char>,
    pub history: Seq<(Seq<u8>, bool)>,
    pub text: Seq<char>,
    pub finished: bool,
}

/// Incremental decoding of one body: the decoder, and the text decoded so
/// far.
pub struct BodyDecoder {
    stream: StreamDecoder,
    text: String,
}

impl View for BodyDecoder {
    type V = DecoderModel;

    closed spec fn view(&self) -> DecoderModel {
        DecoderModel {
            encoding: self.stream@.encoding,
            history: self.stream@.history,
            text: self.text@,
            finished: self.stream@.finished,
        }
    }
}

impl BodyDecoder {
    /// The decoder is consistent: its text is what its pieces decode to, and
    /// it has finished exactly when the last piece ended the stream.
    pub closed spec fn wf(&self) -> bool {
        let m = self@;
        &&& m.text == decoded_text(m.encoding, m.history)
        &&& m.finished <==> (m.history.len() > 0 && m.history.last().1)
        &&& forall|i: int| 0 <= i < m.history.len() - 1 ==> !(#[trigger] m.history[i]).1
    }

    /// A decoder for a new body in `charset`.
    pub fn new(charset: &Charset) -> (r: BodyDecoder)
        ensures
            r.wf(),
            r@.encoding == charset@,
            r@.history == Seq::<(Seq<u8>, bool)>::empty(),
            r@.text == Seq::<char>::empty(),
            !r@.finished,
    {
        BodyDecoder { stream: StreamDecoder::new(charset), text: String::new() }
    }

    /// Whether the stream has ended.
    pub fn is_finished(&self) -> (r: bool)
        ensures
            r == self@.finished,
    {
        self.stream.is_finished()
    }

    /// Takes one read outcome and says what to do next. Bytes are decoded
    /// and appended to the text; an empty read ends the stream and flushes
    /// the decoder; an interruption changes nothing; a failure changes
    /// nothing and ends the work.
    pub fn next_step(&mut self, ev: &ReadEvent) -> (r: Step)
        requires
            old(self).wf(),
            !old(self)@.finished,
            event_ok(*ev),
        ensures
            final(self).wf(),
            r == step_for(*ev),
            final(self)@.encoding == old(self)@.encoding,
            final(self)@.history == history_after(old(self)@.history, *ev),
            final(self)@.text == decoded_text(old(self)@.encoding, final(self)@.history),
            final(self)@.finished == (r == Step::Finished),
            old(self)@.history.len() == 0 && (*ev matches ReadEvent::Bytes(b) && b@.len() == 0)
                ==> final(self)@.text.len() == 0,
    {
        match ev {
            ReadEvent::Bytes(b) => {
                let last = b.len() == 0;
                let ghost before = self@.history;
                self.stream.decode(b.as_slice(), &mut self.text, last);
                proof {
                    if last {
                        assert(b@ =~= Seq::<u8>::empty());
                    }
                    assert(self@.history.drop_last() =~= before);
                    assert forall|i: int| 0 <= i < self@.history.len() - 1 implies !(
                    #[trigger] self@.history[i]).1 by {
                        assert(self@.history[i] == before[i]);
                    }
                }
                if last {
                    Step::Finished
                } else {
                    Step::ReadMore
                }
            },
            ReadEvent::Interrupted => Step::ReadMore,
            ReadEvent::Failed => Step::Failed,
        }
    }

    /// The decoded text of a finished body.
    pub fn into_text(self) -> (r: String)
        requires
            self.wf(),
            self@.finished,
        ensures
            r@ == self@.text,
            r@ == decoded_text(self@.encoding, self@.history),
    {
        self.text
    }
}

/// Decodes a body in `charset` from the outcomes of its reads, in order,
/// until an empty read or the end of `events` ends the stream, or a read
/// fails. Interruptions are skipped.
pub fn decode_events(charset: &Charset, events: &Vec<ReadEvent>) -> (r: Result<String, DecodeError>)
    requires
        forall|i: int| 0 <= i < events@.len() ==> event_ok(#[trigger] events@[i]),
    ensures
        match run_history(events@, Seq::empty()) {
            None => r == Err::<String, DecodeError>(DecodeError::ReadFailed),
            Some(h) => r matches Ok(s) && s@ == decoded_text(charset@, h),
        },
        delivered(events@).len() == 0 && run_history(events@, Seq::empty()) is Some ==> (
        r matches Ok(s) && s@.len() == 0),
{
    proof {
        lemma_nothing_delivered(events@, Seq::empty());
    }
    let mut dec = BodyDecoder::new(charset);
    let mut i: usize = 0;
    proof {
        assert(events@.skip(0) =~= events@);
    }
    while i < events.len()
        invariant
            0 <= i <= events@.len(),
            dec.wf(),
            !dec@.finished,
            dec@.encoding == charset@,
            forall|k: int| 0 <= k < events@.len() ==> event_ok(#[trigger] events@[k]),
            run_history(events@, Seq::empty()) == run_history(events@.skip(i as int), dec@.history),
        decreases events@.len() - i,
    {
        proof {
            assert(events@.skip(i as int).drop_first() =~= events@.skip(i as int + 1));
            assert(events@.skip(i as int)[0] == events@[i as int]);
        }
        let ghost old_h = dec@.history;
        let step = dec.next_step(&events[i]);
        match step {
            Step::ReadMore => {},
            Step::Finished => {
                proof {
                    lemma_nothing_delivered(events@, Seq::empty());
                    if delivered(events@).len() == 0 {
                        assert(run_history(events@.skip(i as int), old_h) == Some(dec@.history));
                        assert(dec@.history.len() == 1);
                    }
                }
                return Ok(dec.into_text());
            },
            Step::Failed => {
                return Err(DecodeError::ReadFailed);
            },
        }
        i = i + 1;
    }
    proof {
        assert(events@.skip(i as int) =~= Seq::<ReadEvent>::empty());
    }
    let end: Vec<u8> = Vec::new();
    let ev = ReadEvent::Bytes(end);
    dec.next_step(&ev);
    Ok(dec.into_text())
}

/// Every byte that the reads deliver reaches the decoder, in order, and the
/// decoder is told of the end of the stream once, by the final piece.
pub proof fn lemma_run_feeds_every_byte(evs: Seq<ReadEvent>, h0: Seq<(Seq<u8>, bool)>)
    requires
        forall|i: int| 0 <= i < h0.len() ==> !(#[trigger] h0[i]).1,
    ensures
        run_history(evs, h0) matches Some(h) ==> {
            &&& fed_bytes(h) == fed_bytes(h0) + delivered(evs)
            &&& h.len() > h0.len() && h.subrange(0, h0.len() as int) == h0
            &&& h.last().1
            &&& forall|i: int| 0 <= i < h.len() - 1 ==> !(#[trigger] h[i]).1
        },
    decreases evs.len(),
{
    if evs.len() == 0 {
        let h = h0.push((Seq::<u8>::empty(), true));
        assert(h.drop_last() =~= h0);
        assert(fed_bytes(h) =~= fed_bytes(h0));
        assert(h.subrange(0, h0.len() as int) =~= h0);
        assert forall|i: int| 0 <= i < h.len() - 1 implies !(#[trigger] h[i]).1 by {
            assert(h[i] == h0[i]);
        }
    } else {
        let ev = evs[0];
        let h1 = history_after(h0, ev);
        match ev {
            ReadEvent::Bytes(b) => {
                assert(h1.drop_last() =~= h0);
                if b@.len() == 0 {
                    assert(fed_bytes(h1) =~= fed_bytes(h0));
                    assert(h1.subrange(0, h0.len() as int) =~= h0);
                    assert forall|i: int| 0 <= i < h1.len() - 1 implies !(#[trigger] h1[i]).1 by {
                        assert(h1[i] == h0[i]);
                    }
                } else {
                    assert forall|i: int| 0 <= i < h1.len() implies !(#[trigger] h1[i]).1 by {
                        if i < h0.len() {
                            assert(h1[i] == h0[i]);
                        }
                    }
                    lemma_run_feeds_every_byte(evs.drop_first(), h1);
                    if let Some(h) = run_history(evs, h0) {
                        assert(fed_bytes(h1) == fed_bytes(h0) + b@);
                        assert(fed_bytes(h) =~= fed_bytes(h0) + delivered(evs));
                        assert(h.subrange(0, h0.len() as int) =~= h.subrange(
                            0,
                            h1.len() as int,
                        ).subrange(0, h0.len() as int));
                        assert(h1.subrange(0, h0.len() as int) =~= h0);
                    }
                }
            },
            ReadEvent::Interrupted => {
                lemma_run_feeds_every_byte(evs.drop_first(), h0);
            },
            ReadEvent::Failed => {},
        }
    }
}

/// The read events with every interruption left out.
pub open spec fn without_interruptions(evs: Seq<ReadEvent>) -> Seq<ReadEvent>
    decreases evs.len(),
{
    if evs.len() == 0 {
        evs
    } else if evs[0] is Interrupted {
        without_interruptions(evs.drop_first())
    } else {
        seq![evs[0]] + without_interruptions(evs.drop_first())
    }
}

/// Interruptions, however many and wherever they come, have no effect on
/// what the decoder is fed, so none on the text or on success: a reader that
/// is interrupted and one that is not, given the same reads otherwise,
/// decode the same text.
pub proof fn lemma_interruptions_change_nothing(evs: Seq<ReadEvent>, h0: Seq<(Seq<u8>, bool)>)
    ensures
        run_history(evs, h0) == run_history(without_interruptions(evs), h0),
    decreases evs.len(),
{
    if evs.len() > 0 {
        lemma_interruptions_change_nothing(evs.drop_first(), history_after(h0, evs[0]));
        if !(evs[0] is Interrupted) {
            let w = seq![evs[0]] + without_interruptions(evs.drop_first());
            assert(w[0] == evs[0]);
            assert(w.drop_first() =~= without_interruptions(evs.drop_first()));
        }
    }
}

/// Where the reads deliver no bytes before the stream ends, the decoder is
/// fed only the end of the stream.
pub proof fn lemma_nothing_delivered(evs: Seq<ReadEvent>, h0: Seq<(Seq<u8>, bool)>)
    ensures
        delivered(evs).len() == 0 ==> (run_history(evs, h0) matches Some(h) ==> h == h0.push(
            (Seq::<u8>::empty(), true),
        )),
    decreases evs.len(),
{
    if evs.len() > 0 {
        match evs[0] {
            ReadEvent::Bytes(b) => {
                if b@.len() == 0 {
                    assert(b@ =~= Seq::<u8>::empty());
                }
            },
            ReadEvent::Interrupted => {
                lemma_nothing_delivered(evs.drop_first(), h0);
            },
            ReadEvent::Failed => {},
        }
    }
}

} // verus!
