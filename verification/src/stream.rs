use crate::envelope::{decode_envelope, envelope_of};
use crate::json::{json_document, parse_json, Json};
use crate::prompt::{first_part, GeminiResponse};
use crate::text::{
    chars_of, find_line_end, line_end, range_equals, range_starts_with, split_lines, trim,
    trim_range,
};
use vstd::prelude::*;
use vstd::string::StrSliceExecFns;
use vstd::utf8::{decode_utf8, valid_utf8};

verus! {

/// Tag that opens a data line.
pub const DATA_PREFIX: &'static str = "data: ";

/// Payload that ends the stream.
pub const DONE_SENTINEL: &'static str = "[DONE]";

/// Why a payload gave no response envelope.
#[derive(Clone, Copy, Debug, PartialEq, Eq)]
pub enum PayloadError {
    /// The payload is not a JSON document.
    InvalidJson,
    /// The payload is a JSON document whose `candidates` member has another
    /// shape than the envelope's.
    NotAnEnvelope,
}

/// What the decoder reports, in the order of arrival.
#[derive(Clone, Debug, PartialEq, Eq)]
pub enum StreamEvent {
    /// A text token to show.
    Token(String),
    /// A data line was skipped because of its payload; decoding went on.
    Malformed(PayloadError),
    /// A chunk could not be read; decoding went on with the next one.
    TransportFailure,
}

/// A `StreamEvent` as mathematics.
pub enum EventView {
    Token(Seq<char>),
    Malformed(PayloadError),
    TransportFailure,
}

impl View for StreamEvent {
    type V = EventView;

    open spec fn view(&self) -> EventView {
        match self {
            StreamEvent::Token(text) => EventView::Token(text@),
            StreamEvent::Malformed(reason) => EventView::Malformed(*reason),
            StreamEvent::TransportFailure => EventView::TransportFailure,
        }
    }
}

/// The views of a sequence of events.
pub open spec fn events_view(events: Seq<StreamEvent>) -> Seq<EventView> {
    events.map_values(|e: StreamEvent| e@)
}

/// The result of decoding: the events, and whether the sentinel was met.
pub struct Decoded {
    pub events: Seq<EventView>,
    pub done: bool,
}

/// What one chunk gave.
#[derive(Clone, Debug, PartialEq, Eq)]
pub struct ChunkOutput {
    pub events: Vec<StreamEvent>,
    pub done: bool,
}

impl View for ChunkOutput {
    type V = Decoded;

    open spec fn view(&self) -> Decoded {
        Decoded { events: events_view(self.events@), done: self.done }
    }
}

/// What a line is to the decoder.
pub enum Frame {
    /// Not a data line: blank, a comment, another field.
    Ignored,
    /// The data line that carries the sentinel.
    Done,
    /// A data line with its payload.
    Data(Seq<char>),
}

/// Classifies a line: it is trimmed; a data line starts with the prefix;
/// its payload is what follows the prefix, trimmed again.
pub open spec fn frame_of(line: Seq<char>) -> Frame {
    let trimmed = trim(line);
    if DATA_PREFIX@.is_prefix_of(trimmed) {
        let payload = trim(trimmed.skip(DATA_PREFIX@.len() as int));
        if payload == DONE_SENTINEL@ {
            Frame::Done
        } else {
            Frame::Data(payload)
        }
    } else {
        Frame::Ignored
    }
}

/// The envelope in a parsed payload, or why there is none.
pub open spec fn interpret(document: Option<Json>) -> Result<Seq<Seq<Seq<char>>>, PayloadError> {
    match document {
        None => Err(PayloadError::InvalidJson),
        Some(doc) => match envelope_of(doc) {
            Some(response) => Ok(response),
            None => Err(PayloadError::NotAnEnvelope),
        },
    }
}

/// The event that a payload's outcome leads to: the first part of the first
/// candidate as a token, nothing where the envelope has none, a diagnostic
/// where there is no envelope.
pub open spec fn outcome_event(outcome: Result<Seq<Seq<Seq<char>>>, PayloadError>) -> Option<
    EventView,
> {
    match outcome {
        Ok(response) => match first_part(response) {
            Some(text) => Some(EventView::Token(text)),
            None => None,
        },
        Err(reason) => Some(EventView::Malformed(reason)),
    }
}

/// The event that a payload leads to.
pub open spec fn payload_event(payload: Seq<char>) -> Option<EventView> {
    outcome_event(interpret(json_document(payload)))
}

/// The events that a line leads to: at most one.
pub open spec fn line_events(line: Seq<char>) -> Seq<EventView> {
    match frame_of(line) {
        Frame::Data(payload) => match payload_event(payload) {
            Some(event) => seq![event],
            None => Seq::empty(),
        },
        _ => Seq::empty(),
    }
}

/// `decoded` after `events`.
pub open spec fn prepend(events: Seq<EventView>, decoded: Decoded) -> Decoded {
    Decoded { events: events + decoded.events, done: decoded.done }
}

/// Decodes lines in order, up to the sentinel: what follows it is not read.
pub open spec fn decode_lines(lines: Seq<Seq<char>>) -> Decoded
    decreases lines.len(),
{
    if lines.len() == 0 {
        Decoded { events: Seq::empty(), done: false }
    } else if frame_of(lines.first()) is Done {
        Decoded { events: Seq::empty(), done: true }
    } else {
        prepend(line_events(lines.first()), decode_lines(lines.drop_first()))
    }
}

/// What a chunk's text decodes to.
pub open spec fn decoded_text(text: Seq<char>) -> Decoded {
    decode_lines(split_lines(text))
}

/// What `String::from_utf8_lossy` makes of `bytes`.
pub uninterp spec fn lossy_text(bytes: Seq<u8>) -> Seq<char>;

/// The text of a chunk: what well-formed UTF-8 encodes, and else what the
/// lossy conversion makes of the bytes.
pub open spec fn chunk_text(bytes: Seq<u8>) -> Seq<char> {
    if valid_utf8(bytes) {
        decode_utf8(bytes)
    } else {
        lossy_text(bytes)
    }
}

/// What a chunk decodes to.
pub open spec fn decoded_chunk(bytes: Seq<u8>) -> Decoded {
    decoded_text(chunk_text(bytes))
}

/// Calls `String::from_utf8_lossy`, which never fails: it replaces each
/// invalid sequence by U+FFFD. The contract names the result, and says of
/// it only that well-formed UTF-8 comes out as the text it encodes.
#[verifier::external_body]
fn utf8_lossy(bytes: &[u8]) -> (text: String)
    ensures
        text@ == lossy_text(bytes@),
        valid_utf8(bytes@) ==> text@ == decode_utf8(bytes@),
{
    String::from_utf8_lossy(bytes).into_owned()
}

/// Reads the envelope out of a parsed payload.
pub fn interpret_document(document: Option<Json>) -> (r: Result<GeminiResponse, PayloadError>)
    ensures
        match r {
            Ok(response) => interpret(document) == Ok::<_, PayloadError>(response@),
            Err(reason) => interpret(document) == Err::<Seq<Seq<Seq<char>>>, _>(reason),
        },
{
    match document {
        None => Err(PayloadError::InvalidJson),
        Some(doc) => match decode_envelope(&doc) {
            Some(response) => Ok(response),
            None => Err(PayloadError::NotAnEnvelope),
        },
    }
}

/// Parses a payload as a response envelope.
pub fn decode_payload(payload: &str) -> (r: Result<GeminiResponse, PayloadError>)
    ensures
        match r {
            Ok(response) => interpret(json_document(payload@)) == Ok::<_, PayloadError>(
                response@,
            ),
            Err(reason) => interpret(json_document(payload@)) == Err::<Seq<Seq<Seq<char>>>, _>(
                reason,
            ),
        },
{
    interpret_document(parse_json(payload))
}

/// The event to report for a payload's outcome.
pub fn event_of(outcome: Result<GeminiResponse, PayloadError>) -> (r: Option<StreamEvent>)
    ensures
        match outcome {
            Ok(response) => match r {
                Some(event) => outcome_event(Ok(response@)) == Some(event@),
                None => outcome_event(Ok(response@)) is None,
            },
            Err(reason) => r == Some(StreamEvent::Malformed(reason)),
        },
{
    match outcome {
        Ok(response) => match response.first_text() {
            Some(text) => Some(StreamEvent::Token(text)),
            None => None,
        },
        Err(reason) => Some(StreamEvent::Malformed(reason)),
    }
}

/// Decodes the line `start..end` of `chars`, appends its event to `events`
/// and tells whether it was the sentinel.
fn decode_line(
    text: &str,
    chars: &Vec<char>,
    start: usize,
    end: usize,
    prefix: &Vec<char>,
    sentinel: &Vec<char>,
    events: &mut Vec<StreamEvent>,
) -> (done: bool)
    requires
        chars@ == text@,
        prefix@ == DATA_PREFIX@,
        sentinel@ == DONE_SENTINEL@,
        start <= end <= chars.len(),
    ensures
        done == (frame_of(chars@.subrange(start as int, end as int)) is Done),
        events_view(final(events)@) == events_view(old(events)@) + line_events(
            chars@.subrange(start as int, end as int),
        ),
{
    let ghost before = events_view(events@);
    assert(before + Seq::<EventView>::empty() =~= before);
    let (a, b) = trim_range(chars, start, end);
    if !range_starts_with(chars, a, b, prefix) {
        return false;
    }
    let rest = a + prefix.len();
    assert(chars@.subrange(a as int, b as int).skip(prefix@.len() as int) =~= chars@.subrange(
        rest as int,
        b as int,
    ));
    let (c, d) = trim_range(chars, rest, b);
    if range_equals(chars, c, d, sentinel) {
        return true;
    }
    let payload = text.substring_char(c, d);
    match event_of(decode_payload(payload)) {
        Some(event) => {
            events.push(event);
            assert(events_view(events@) =~= before + seq![event@]);
        },
        None => {},
    }
    false
}

/// Decodes the text of one chunk: its lines in order, up to the sentinel.
pub fn decode_text(text: &str) -> (out: ChunkOutput)
    ensures
        out@ == decoded_text(text@),
{
    let chars = chars_of(text);
    let prefix = chars_of(DATA_PREFIX);
    let sentinel = chars_of(DONE_SENTINEL);
    let mut events: Vec<StreamEvent> = Vec::new();
    let mut start: usize = 0;
    assert(chars@.skip(0) =~= chars@);
    assert(Seq::<EventView>::empty() + decoded_text(text@).events =~= decoded_text(text@).events);
    loop
        invariant
            chars@ == text@,
            prefix@ == DATA_PREFIX@,
            sentinel@ == DONE_SENTINEL@,
            start <= chars.len(),
            decoded_text(text@) == prepend(
                events_view(events@),
                decoded_text(chars@.skip(start as int)),
            ),
        decreases chars.len() - start,
    {
        let ghost tail = chars@.skip(start as int);
        let ghost before = events_view(events@);
        let end = find_line_end(&chars, start);
        let ghost line = chars@.subrange(start as int, end as int);
        assert(tail.take(end - start) =~= line);
        let done = decode_line(text, &chars, start, end, &prefix, &sentinel, &mut events);
        if end == chars.len() {
            proof {
                assert(line =~= tail);
                assert(split_lines(tail) =~= seq![line]);
                assert(seq![line].drop_first() =~= Seq::<Seq<char>>::empty());
                assert(decode_lines(Seq::<Seq<char>>::empty()).events =~= Seq::<EventView>::empty());
                assert(!decode_lines(Seq::<Seq<char>>::empty()).done);
                assert(before + Seq::<EventView>::empty() =~= before);
                assert(line_events(line) + Seq::<EventView>::empty() =~= line_events(line));
            }
            return ChunkOutput { events, done };
        }
        proof {
            let next = chars@.skip(end + 1);
            assert(tail.skip(end - start + 1) =~= next);
            assert(split_lines(tail) == seq![line] + split_lines(next));
            assert((seq![line] + split_lines(next)).first() == line);
            assert((seq![line] + split_lines(next)).drop_first() =~= split_lines(next));
            if !done {
                assert(before + (line_events(line) + decoded_text(next).events) =~= (before
                    + line_events(line)) + decoded_text(next).events);
            }
        }
        if done {
            return ChunkOutput { events, done: true };
        }
        start = end + 1;
    }
}

/// Decodes one chunk as it came from the transport. Bytes that are not
/// UTF-8 are replaced, never refused.
pub fn decode_chunk(chunk: &[u8]) -> (out: ChunkOutput)
    ensures
        out@ == decoded_chunk(chunk@),
{
    let text = utf8_lossy(chunk);
    decode_text(text.as_str())
}

} // verus!
