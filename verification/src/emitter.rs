//! Events that travel from the sessions to the single consumer, and the step
//! function of the output pump that produces them.

use vstd::prelude::*;
use vstd::slice::*;
use vstd::utf8::*;
use crate::pty::{decode_lossy, io_text, lossy_text};

verus! {

/// What a session reports. The session's id travels beside it.
#[derive(Debug, Clone)]
pub enum Event {
    Running,
    Output { text: String },
    Stopped,
    Error { message: String },
}

/// The mathematical value of an `Event`.
pub ghost enum EventView {
    Running,
    Output { text: Seq<char> },
    Stopped,
    Error { message: Seq<char> },
}

impl View for Event {
    type V = EventView;

    open spec fn view(&self) -> EventView {
        match self {
            Event::Running => EventView::Running,
            Event::Output { text } => EventView::Output { text: text@ },
            Event::Stopped => EventView::Stopped,
            Event::Error { message } => EventView::Error { message: message@ },
        }
    }
}

/// The tag under which each kind of event is announced to the consumer.
pub open spec fn spec_kind(e: EventView) -> Seq<char> {
    match e {
        EventView::Running => "running"@,
        EventView::Output { .. } => "output"@,
        EventView::Stopped => "stopped"@,
        EventView::Error { .. } => "error"@,
    }
}

/// The text that an event carries, if its kind carries one.
pub open spec fn spec_data(e: EventView) -> Option<Seq<char>> {
    match e {
        EventView::Running => None,
        EventView::Output { text } => Some(text),
        EventView::Stopped => None,
        EventView::Error { message } => Some(message),
    }
}

impl Event {
    /// The tag of this event.
    pub fn kind(&self) -> (name: String)
        ensures
            name@ == spec_kind(self@),
    {
        match self {
            Event::Running => "running".to_owned(),
            Event::Output { .. } => "output".to_owned(),
            Event::Stopped => "stopped".to_owned(),
            Event::Error { .. } => "error".to_owned(),
        }
    }

    /// The text carried by an `Output` or an `Error`, and nothing for the others.
    pub fn data(&self) -> (data: Option<String>)
        ensures
            data.is_some() == spec_data(self@).is_some(),
            data.is_some() ==> data.unwrap()@ == spec_data(self@).unwrap(),
    {
        match self {
            Event::Running => None,
            Event::Output { text } => Some(text.clone()),
            Event::Stopped => None,
            Event::Error { message } => Some(message.clone()),
        }
    }

    /// Whether this event ends a session's stream: after `Stopped` or `Error`
    /// the pump emits nothing more.
    pub fn is_terminal(&self) -> (terminal: bool)
        ensures
            terminal == (self@ is Stopped || self@ is Error),
    {
        match self {
            Event::Stopped => true,
            Event::Error { .. } => true,
            _ => false,
        }
    }
}

/// Size of the buffer that the pump reads into.
pub const PUMP_BUFFER_SIZE: usize = 1024;

/// One turn of the output pump: the event to emit and whether the pump is done.
#[derive(Debug)]
pub struct PumpStep {
    pub event: Event,
    pub finished: bool,
}

/// The text of one chunk of output: the text that the bytes encode where they
/// are valid UTF-8, and their lossy decoding where they are not.
pub open spec fn spec_chunk_text(chunk: Seq<u8>) -> Seq<char> {
    if valid_utf8(chunk) {
        decode_utf8(chunk)
    } else {
        lossy_text(chunk)
    }
}

/// What the pump emits for the bytes of one read: `Stopped` at the end of the
/// stream, else the text of exactly those bytes.
pub open spec fn spec_chunk_event(chunk: Seq<u8>) -> EventView {
    if chunk.len() == 0 {
        EventView::Stopped
    } else {
        EventView::Output { text: spec_chunk_text(chunk) }
    }
}

/// The bytes of a run of chunks, one after the other.
pub open spec fn spec_produced(chunks: Seq<Seq<u8>>) -> Seq<u8>
    decreases chunks.len(),
{
    if chunks.len() == 0 {
        Seq::<u8>::empty()
    } else {
        spec_produced(chunks.drop_last()) + chunks.last()
    }
}

/// The texts of the outputs for a run of chunks, in the order of the reads.
pub open spec fn spec_output_text(chunks: Seq<Seq<u8>>) -> Seq<char>
    decreases chunks.len(),
{
    if chunks.len() == 0 {
        Seq::<char>::empty()
    } else {
        spec_output_text(chunks.drop_last()) + spec_chunk_text(chunks.last())
    }
}

/// Valid UTF-8 followed by valid UTF-8 decodes to the one text followed by the
/// other.
pub proof fn lemma_decode_concat(a: Seq<u8>, b: Seq<u8>)
    requires
        valid_utf8(a),
        valid_utf8(b),
    ensures
        valid_utf8(a + b),
        decode_utf8(a + b) == decode_utf8(a) + decode_utf8(b),
{
    valid_utf8_concat(a, b);
    let ab = a + b;
    if b.len() == 0 {
        assert(ab =~= a);
        assert(decode_utf8(b) =~= Seq::<char>::empty());
        assert(decode_utf8(a) + decode_utf8(b) =~= decode_utf8(a));
    } else {
        let at = a.len() as int;
        assert(is_char_boundary(b, 0));
        is_char_boundary_iff_not_is_continuation_byte(b, 0);
        assert(ab[at] == b[0]);
        is_char_boundary_iff_not_is_continuation_byte(ab, at);
        decode_utf8_split(ab, at);
        assert(ab.subrange(0, at) =~= a);
        assert(ab.subrange(at, ab.len() as int) =~= b);
    }
}

/// Output keeps the order of the bytes: where every chunk that was read is
/// valid UTF-8, the texts of the outputs, put together in the order of the
/// reads, are the text of the bytes that the process produced.
pub proof fn lemma_output_keeps_order(chunks: Seq<Seq<u8>>)
    requires
        forall|i: int| 0 <= i < chunks.len() ==> valid_utf8(#[trigger] chunks[i]),
    ensures
        valid_utf8(spec_produced(chunks)),
        spec_output_text(chunks) == decode_utf8(spec_produced(chunks)),
    decreases chunks.len(),
{
    if chunks.len() == 0 {
        assert(decode_utf8(Seq::<u8>::empty()) =~= Seq::<char>::empty());
    } else {
        let front = chunks.drop_last();
        assert forall|i: int| 0 <= i < front.len() implies valid_utf8(#[trigger] front[i]) by {
            assert(front[i] == chunks[i]);
        }
        lemma_output_keeps_order(front);
        lemma_decode_concat(spec_produced(front), chunks.last());
    }
}

/// The same for one stream read in two chunks: where the process produced
/// valid UTF-8 and the reads met at a character boundary, the text of the first
/// chunk followed by the text of the second is the text that was produced.
pub proof fn lemma_split_keeps_order(produced: Seq<u8>, cut: int)
    requires
        valid_utf8(produced),
        is_char_boundary(produced, cut),
    ensures
        spec_chunk_text(produced.subrange(0, cut)) + spec_chunk_text(
            produced.subrange(cut, produced.len() as int),
        ) == decode_utf8(produced),
{
    valid_utf8_split(produced, cut);
    decode_utf8_split(produced, cut);
}

/// Decides one turn of the pump from the outcome of one blocking read into `buf`.
///
/// A read of zero bytes is the orderly end: `Stopped`, and the pump is done.
/// A read of `n > 0` bytes gives `Output` with the lossy UTF-8 decoding of the
/// first `n` bytes, chunk by chunk and without buffering, and the pump goes on.
/// A failed read gives `Error` and the pump is done.
pub fn pump_step(read: Result<usize, std::io::Error>, buf: &[u8]) -> (step: PumpStep)
    requires
        read is Ok ==> read->Ok_0 <= buf@.len(),
    ensures
        read is Ok ==> step.event@ == spec_chunk_event(buf@.subrange(0, read->Ok_0 as int)),
        read is Err ==> step.event@ is Error,
        step.finished == !(read is Ok && read->Ok_0 > 0),
        step.finished == (step.event@ is Stopped || step.event@ is Error),
{
    match read {
        Ok(n) => {
            if n == 0 {
                PumpStep { event: Event::Stopped, finished: true }
            } else {
                let chunk = slice_subrange(buf, 0, n);
                PumpStep { event: Event::Output { text: decode_lossy(chunk) }, finished: false }
            }
        },
        Err(e) => PumpStep { event: Event::Error { message: io_text(&e) }, finished: true },
    }
}

} // verus!
