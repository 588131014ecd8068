use crate::envelope::{all_present, candidate_of, content_of, envelope_of};
use crate::json::{json_document, Json};
use crate::decoder::stream_events;
use crate::stream::{
    chunk_text, decode_lines, decoded_chunk, decoded_text, frame_of, interpret, line_events,
    outcome_event, payload_event, prepend, Decoded, EventView, Frame, PayloadError, DATA_PREFIX,
    DONE_SENTINEL,
};
use crate::text::{
    is_space, lemma_split_at_newline, lemma_split_first_line, lemma_split_single_line,
    split_lines, trim,
};
use vstd::prelude::*;
use vstd::utf8::{encode_utf8, encode_utf8_decode_utf8, encode_utf8_valid_utf8, valid_utf8};

verus! {

/// A payload as it stands on a well-formed data line: not empty, on one
/// line, with no whitespace around it.
pub open spec fn clean_payload(payload: Seq<char>) -> bool {
    &&& payload.len() > 0
    &&& !is_space(payload.first())
    &&& !is_space(payload.last())
    &&& !payload.contains('\n')
}

/// The data line that carries `payload`, with the newline that ends it.
pub open spec fn data_line(payload: Seq<char>) -> Seq<char> {
    DATA_PREFIX@ + payload + seq!['\n']
}

/// Trimming leaves alone a text that neither starts nor ends with
/// whitespace.
pub proof fn lemma_trim_clean(s: Seq<char>)
    requires
        s.len() > 0 ==> !is_space(s.first()) && !is_space(s.last()),
    ensures
        trim(s) == s,
{
}

/// A line made of the prefix and a clean payload is a data line with that
/// payload, or the end of the stream where the payload is the sentinel.
pub proof fn lemma_data_line_frame(payload: Seq<char>)
    requires
        payload.len() > 0,
        !is_space(payload.first()),
        !is_space(payload.last()),
    ensures
        frame_of(DATA_PREFIX@ + payload) == if payload == DONE_SENTINEL@ {
            Frame::Done
        } else {
            Frame::Data(payload)
        },
{
    reveal_strlit("data: ");
    let line = DATA_PREFIX@ + payload;
    assert(line.first() == 'd');
    assert(line.last() == payload.last());
    lemma_trim_clean(line);
    assert(line.subrange(0, DATA_PREFIX@.len() as int) =~= DATA_PREFIX@);
    assert(line.skip(DATA_PREFIX@.len() as int) =~= payload);
    lemma_trim_clean(payload);
}

/// A line that does not start with the prefix once trimmed is ignored: it
/// gives no event and does not end the stream.
pub proof fn lemma_other_line_ignored(line: Seq<char>)
    requires
        !DATA_PREFIX@.is_prefix_of(trim(line)),
    ensures
        frame_of(line) == Frame::Ignored,
        line_events(line) == Seq::<EventView>::empty(),
{
}

/// The first line of a text is decoded first. If it carries the sentinel,
/// nothing of the rest is decoded; else its event, if it has one, stands
/// before those of the rest.
pub proof fn lemma_decode_first_line(line: Seq<char>, rest: Seq<char>)
    requires
        !line.contains('\n'),
    ensures
        (frame_of(line) is Done) ==> decoded_text(line + seq!['\n'] + rest) == (Decoded {
            events: Seq::empty(),
            done: true,
        }),
        !(frame_of(line) is Done) ==> decoded_text(line + seq!['\n'] + rest) == prepend(
            line_events(line),
            decoded_text(rest),
        ),
{
    lemma_split_first_line(line, rest);
    let lines = seq![line] + split_lines(rest);
    assert(lines.first() == line);
    assert(lines.drop_first() =~= split_lines(rest));
}

/// A text with no newline is decoded as one line.
pub proof fn lemma_decode_last_line(line: Seq<char>)
    requires
        !line.contains('\n'),
    ensures
        decoded_text(line) == (Decoded {
            events: line_events(line),
            done: (frame_of(line) is Done),
        }),
{
    lemma_split_single_line(line);
    let lines = seq![line];
    assert(lines.first() == line);
    assert(lines.drop_first() =~= Seq::<Seq<char>>::empty());
    assert(decode_lines(lines.drop_first()).events =~= Seq::<EventView>::empty());
    assert(line_events(line) + Seq::<EventView>::empty() =~= line_events(line));
    if frame_of(line) is Done {
        assert(line_events(line) =~= Seq::<EventView>::empty());
    }
}

/// Lines are decoded one after the other: what stands behind some lines is
/// decoded after them, unless the sentinel was among them.
pub proof fn lemma_decode_lines_concat(lines: Seq<Seq<char>>, more: Seq<Seq<char>>)
    ensures
        decode_lines(lines).done ==> decode_lines(lines + more) == decode_lines(lines),
        !decode_lines(lines).done ==> decode_lines(lines + more) == prepend(
            decode_lines(lines).events,
            decode_lines(more),
        ),
    decreases lines.len(),
{
    if lines.len() == 0 {
        assert(lines + more =~= more);
        assert(Seq::<EventView>::empty() + decode_lines(more).events =~= decode_lines(more).events);
    } else {
        let rest = lines.drop_first();
        assert((lines + more).first() == lines.first());
        assert((lines + more).drop_first() =~= rest + more);
        if !(frame_of(lines.first()) is Done) {
            lemma_decode_lines_concat(rest, more);
            if !decode_lines(rest).done {
                assert(line_events(lines.first()) + (decode_lines(rest).events + decode_lines(
                    more,
                ).events) =~= (line_events(lines.first()) + decode_lines(rest).events)
                    + decode_lines(more).events);
            }
        }
    }
}

/// A text may be cut at a newline: the text before it is decoded first, and
/// the text after it is decoded behind, unless the sentinel came before.
pub proof fn lemma_decode_at_newline(before: Seq<char>, after: Seq<char>)
    ensures
        decoded_text(before).done ==> decoded_text(before + seq!['\n'] + after) == decoded_text(
            before,
        ),
        !decoded_text(before).done ==> decoded_text(before + seq!['\n'] + after) == prepend(
            decoded_text(before).events,
            decoded_text(after),
        ),
{
    lemma_split_at_newline(before, after);
    lemma_decode_lines_concat(split_lines(before), split_lines(after));
}

/// A chunk that holds the UTF-8 encoding of a text decodes as that text.
pub proof fn lemma_chunk_of_text(text: Seq<char>)
    ensures
        valid_utf8(encode_utf8(text)),
        chunk_text(encode_utf8(text)) == text,
        decoded_chunk(encode_utf8(text)) == decoded_text(text),
{
    encode_utf8_valid_utf8(text);
    encode_utf8_decode_utf8(text);
}

/// No event is lost where the transport cuts the stream behind a newline:
/// two chunks, the first of which ends with a newline, give the events of
/// the text as a whole.
pub proof fn lemma_cut_between_lines(before: Seq<char>, after: Seq<char>)
    ensures
        stream_events(seq![encode_utf8(before + seq!['\n']), encode_utf8(after)]) == decoded_text(
            before + seq!['\n'] + after,
        ).events,
{
    reveal_strlit("data: ");
    let nl = seq!['\n'];
    let end = Seq::<char>::empty();
    let first = encode_utf8(before + nl);
    let second = encode_utf8(after);
    let chunks = seq![first, second];
    lemma_chunk_of_text(before + nl);
    lemma_chunk_of_text(after);
    lemma_decode_at_newline(before, end);
    lemma_decode_at_newline(before, after);
    lemma_decode_last_line(end);
    lemma_trim_clean(end);
    assert(line_events(end) =~= Seq::<EventView>::empty());
    assert(before + nl + end =~= before + nl);
    assert(decoded_text(before).events + Seq::<EventView>::empty() =~= decoded_text(
        before,
    ).events);
    assert(decoded_text(before + nl) == decoded_text(before));
    assert(chunks.first() == first);
    assert(chunks.drop_first() =~= seq![second]);
    assert(seq![second].first() == second);
    assert(seq![second].drop_first() =~= Seq::<Seq<u8>>::empty());
    assert(stream_events(seq![second].drop_first()) =~= Seq::<EventView>::empty());
    assert(decoded_text(after).events + Seq::<EventView>::empty() =~= decoded_text(after).events);
    assert(stream_events(seq![second]) =~= decoded_text(after).events);
}

/// The sentinel ends the stream: a text that starts with the sentinel's
/// data line gives no event, whatever follows that line.
pub proof fn lemma_sentinel_stops(rest: Seq<char>)
    ensures
        decoded_text(data_line(DONE_SENTINEL@) + rest) == (Decoded {
            events: Seq::empty(),
            done: true,
        }),
{
    reveal_strlit("data: ");
    reveal_strlit("[DONE]");
    let line = DATA_PREFIX@ + DONE_SENTINEL@;
    lemma_data_line_frame(DONE_SENTINEL@);
    assert(!line.contains('\n'));
    lemma_decode_first_line(line, rest);
    assert(data_line(DONE_SENTINEL@) + rest =~= line + seq!['\n'] + rest);
}

/// A chunk that is one data line gives the event of its payload, if it has
/// one, and the stream goes on.
pub proof fn lemma_single_data_line(payload: Seq<char>)
    requires
        clean_payload(payload),
        payload != DONE_SENTINEL@,
    ensures
        decoded_text(data_line(payload)) == (Decoded {
            events: line_events(DATA_PREFIX@ + payload),
            done: false,
        }),
        line_events(DATA_PREFIX@ + payload) == match payload_event(payload) {
            Some(event) => seq![event],
            None => Seq::empty(),
        },
{
    reveal_strlit("data: ");
    let line = DATA_PREFIX@ + payload;
    let end = Seq::<char>::empty();
    lemma_data_line_frame(payload);
    assert(!line.contains('\n'));
    lemma_decode_first_line(line, end);
    lemma_decode_last_line(end);
    lemma_trim_clean(end);
    assert(line_events(end) =~= Seq::<EventView>::empty());
    assert(data_line(payload) =~= line + seq!['\n'] + end);
    assert(line_events(line) + line_events(end) =~= line_events(line));
}

/// Two data lines in one chunk give their events in the order of the
/// lines, and the stream goes on.
pub proof fn lemma_two_data_lines(first: Seq<char>, second: Seq<char>)
    requires
        clean_payload(first),
        clean_payload(second),
        first != DONE_SENTINEL@,
        second != DONE_SENTINEL@,
    ensures
        decoded_text(data_line(first) + data_line(second)) == (Decoded {
            events: line_events(DATA_PREFIX@ + first) + line_events(DATA_PREFIX@ + second),
            done: false,
        }),
        line_events(DATA_PREFIX@ + first) == match payload_event(first) {
            Some(event) => seq![event],
            None => Seq::empty(),
        },
        line_events(DATA_PREFIX@ + second) == match payload_event(second) {
            Some(event) => seq![event],
            None => Seq::empty(),
        },
{
    reveal_strlit("data: ");
    let a = DATA_PREFIX@ + first;
    let b = DATA_PREFIX@ + second;
    let end = Seq::<char>::empty();
    lemma_data_line_frame(first);
    lemma_data_line_frame(second);
    assert(!a.contains('\n'));
    assert(!b.contains('\n'));
    lemma_decode_first_line(a, b + seq!['\n'] + end);
    lemma_decode_first_line(b, end);
    lemma_decode_last_line(end);
    lemma_trim_clean(end);
    assert(line_events(end) =~= Seq::<EventView>::empty());
    assert(data_line(first) + data_line(second) =~= a + seq!['\n'] + (b + seq!['\n'] + end));
    assert(line_events(a) + (line_events(b) + line_events(end)) =~= line_events(a) + line_events(
        b,
    ));
}

/// A payload that is no JSON document gives one diagnostic and no token; a
/// payload that is a document of another shape gives the other diagnostic.
/// Neither ends the stream.
pub proof fn lemma_malformed_payload(payload: Seq<char>)
    ensures
        json_document(payload) is None ==> payload_event(payload) == Some(
            EventView::Malformed(PayloadError::InvalidJson),
        ),
        json_document(payload) matches Some(doc) && envelope_of(doc) is None ==> payload_event(
            payload,
        ) == Some(EventView::Malformed(PayloadError::NotAnEnvelope)),
{
}

/// A document with no `candidates` member, or whose `candidates` is an
/// empty array, is an envelope with no candidate. Such an envelope, and
/// every one whose first candidate has no part, gives no event at all:
/// no token and no diagnostic.
pub proof fn lemma_empty_envelope(doc: Json)
    ensures
        doc.member("candidates"@) is None ==> envelope_of(doc) == Some(
            Seq::<Seq<Seq<char>>>::empty(),
        ),
        doc.member("candidates"@) matches Some(list) && list.items() == Some(
            Seq::<Json>::empty(),
        ) ==> envelope_of(doc) == Some(Seq::<Seq<Seq<char>>>::empty()),
        envelope_of(doc) matches Some(response) && (response.len() == 0 || response[0].len() == 0)
            ==> outcome_event(interpret(Some(doc))) is None,
{
    match doc.member("candidates"@) {
        Some(list) => {
            if list.items() == Some(Seq::<Json>::empty()) {
                let found = Seq::<Json>::empty().map_values(|item: Json| candidate_of(item));
                assert(all_present(found)->Some_0 =~= Seq::<Seq<Seq<char>>>::empty());
            }
        },
        None => {},
    }
}

/// A candidate without a `content` member, and a content without a `parts`
/// member, have no part; what is no object is neither.
pub proof fn lemma_absent_members(doc: Json)
    ensures
        (doc is Object) && doc.member("content"@) is None ==> candidate_of(doc) == Some(
            Seq::<Seq<char>>::empty(),
        ),
        (doc is Object) && doc.member("parts"@) is None ==> content_of(doc) == Some(
            Seq::<Seq<char>>::empty(),
        ),
        !(doc is Object) ==> candidate_of(doc) is None && content_of(doc) is None,
{
}

/// Only the first part of the first candidate is read.
pub proof fn lemma_first_part_only(response: Seq<Seq<Seq<char>>>, other: Seq<Seq<Seq<char>>>)
    requires
        response.len() > 0,
        other.len() > 0,
        response[0].len() > 0,
        other[0].len() > 0,
        response[0][0] == other[0][0],
    ensures
        outcome_event(Ok(response)) == outcome_event(Ok(other)),
        outcome_event(Ok(response)) == Some(EventView::Token(response[0][0])),
{
}

} // verus!
