use crate::json::Json;
use crate::prompt::{Candidate, ContentResponse, GeminiResponse, ResponsePart};
use vstd::prelude::*;

verus! {

/// The values of `s`, when every one is there.
pub open spec fn all_present<A>(s: Seq<Option<A>>) -> Option<Seq<A>> {
    if forall|i: int| 0 <= i < s.len() ==> (#[trigger] s[i]) is Some {
        Some(s.map_values(|o: Option<A>| o->Some_0))
    } else {
        None
    }
}

/// A part is an object whose member `text` is a string. Other members are
/// ignored, here and in the records below.
pub open spec fn part_of(doc: Json) -> Option<Seq<char>> {
    match doc.member("text"@) {
        Some(value) => value.text(),
        None => None,
    }
}

/// A content is an object. Its member `parts` is an array of parts; a
/// content without that member has no part.
pub open spec fn content_of(doc: Json) -> Option<Seq<Seq<char>>> {
    if doc is Object {
        match doc.member("parts"@) {
            Some(value) => match value.items() {
                Some(items) => all_present(items.map_values(|item: Json| part_of(item))),
                None => None,
            },
            None => Some(Seq::empty()),
        }
    } else {
        None
    }
}

/// A candidate is an object. Its member `content` is a content; a candidate
/// without that member has no part.
pub open spec fn candidate_of(doc: Json) -> Option<Seq<Seq<char>>> {
    if doc is Object {
        match doc.member("content"@) {
            Some(value) => content_of(value),
            None => Some(Seq::empty()),
        }
    } else {
        None
    }
}

/// The response envelope in a document. Its member `candidates` is an array
/// of candidates; a document without that member, whatever else it is, is
/// an envelope with no candidate. Where the member is there, one candidate
/// or part of the wrong shape spoils the whole envelope, wherever it stands.
pub open spec fn envelope_of(doc: Json) -> Option<Seq<Seq<Seq<char>>>> {
    match doc.member("candidates"@) {
        Some(value) => match value.items() {
            Some(items) => all_present(items.map_values(|item: Json| candidate_of(item))),
            None => None,
        },
        None => Some(Seq::empty()),
    }
}

/// Reads one part.
pub fn decode_part(doc: &Json) -> (r: Option<ResponsePart>)
    ensures
        match r {
            Some(part) => part_of(*doc) == Some(part@),
            None => part_of(*doc) is None,
        },
{
    match doc.get("text") {
        Some(value) => match value.as_str() {
            Some(text) => Some(ResponsePart { text: text.to_owned() }),
            None => None,
        },
        None => None,
    }
}

/// Reads one content with all its parts.
pub fn decode_content(doc: &Json) -> (r: Option<ContentResponse>)
    ensures
        match r {
            Some(content) => content_of(*doc) == Some(content@),
            None => content_of(*doc) is None,
        },
{
    if !doc.is_object() {
        return None;
    }
    let items = match doc.get("parts") {
        Some(value) => match value.as_array() {
            Some(items) => items,
            None => {
                return None;
            },
        },
        None => {
            let content = ContentResponse { parts: Vec::new() };
            assert(content@ =~= Seq::<Seq<char>>::empty());
            return Some(content);
        },
    };
    let ghost found = items@.map_values(|item: Json| part_of(item));
    let mut parts: Vec<ResponsePart> = Vec::new();
    let mut i: usize = 0;
    while i < items.len()
        invariant
            i <= items.len(),
            parts.len() == i,
            found == items@.map_values(|item: Json| part_of(item)),
            content_of(*doc) == all_present(found),
            forall|j: int| 0 <= j < i ==> found[j] == Some(#[trigger] parts@[j]@),
        decreases items.len() - i,
    {
        match decode_part(&items[i]) {
            Some(part) => {
                parts.push(part);
            },
            None => {
                assert(found[i as int] is None);
                return None;
            },
        }
        i += 1;
    }
    assert forall|j: int| 0 <= j < found.len() implies (#[trigger] found[j]) is Some by {
        assert(found[j] == Some(parts@[j]@));
    }
    let content = ContentResponse { parts };
    assert(content@ =~= all_present(found)->Some_0);
    Some(content)
}

/// Reads one candidate.
pub fn decode_candidate(doc: &Json) -> (r: Option<Candidate>)
    ensures
        match r {
            Some(candidate) => candidate_of(*doc) == Some(candidate@),
            None => candidate_of(*doc) is None,
        },
{
    if !doc.is_object() {
        return None;
    }
    match doc.get("content") {
        Some(value) => match decode_content(value) {
            Some(content) => Some(Candidate { content }),
            None => None,
        },
        None => {
            let content = ContentResponse { parts: Vec::new() };
            assert(content@ =~= Seq::<Seq<char>>::empty());
            Some(Candidate { content })
        },
    }
}

/// Reads a whole response envelope from a JSON document.
pub fn decode_envelope(doc: &Json) -> (r: Option<GeminiResponse>)
    ensures
        match r {
            Some(response) => envelope_of(*doc) == Some(response@),
            None => envelope_of(*doc) is None,
        },
{
    let items = match doc.get("candidates") {
        Some(value) => match value.as_array() {
            Some(items) => items,
            None => {
                return None;
            },
        },
        None => {
            let response = GeminiResponse { candidates: Vec::new() };
            assert(response@ =~= Seq::<Seq<Seq<char>>>::empty());
            return Some(response);
        },
    };
    let ghost found = items@.map_values(|item: Json| candidate_of(item));
    let mut candidates: Vec<Candidate> = Vec::new();
    let mut i: usize = 0;
    while i < items.len()
        invariant
            i <= items.len(),
            candidates.len() == i,
            found == items@.map_values(|item: Json| candidate_of(item)),
            envelope_of(*doc) == all_present(found),
            forall|j: int| 0 <= j < i ==> found[j] == Some(#[trigger] candidates@[j]@),
        decreases items.len() - i,
    {
        match decode_candidate(&items[i]) {
            Some(candidate) => {
                candidates.push(candidate);
            },
            None => {
                assert(found[i as int] is None);
                return None;
            },
        }
        i += 1;
    }
    assert forall|j: int| 0 <= j < found.len() implies (#[trigger] found[j]) is Some by {
        assert(found[j] == Some(candidates@[j]@));
    }
    let response = GeminiResponse { candidates };
    assert(response@ =~= all_present(found)->Some_0);
    Some(response)
}

} // verus!
