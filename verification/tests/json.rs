use gemini_cli::envelope::{decode_candidate, decode_content, decode_envelope, decode_part};
use gemini_cli::json::{parse_json, Json};
use gemini_cli::prompt::{Candidate, ContentResponse, GeminiResponse, ResponsePart};

fn shown<T: std::fmt::Debug>(value: &T) -> String {
    format!("{:?}", value)
}

fn text(s: &str) -> Json {
    Json::Text(s.to_string())
}

fn object(fields: Vec<(&str, Json)>) -> Json {
    Json::Object(fields.into_iter().map(|(k, v)| (k.to_string(), v)).collect())
}

fn part(s: &str) -> Json {
    object(vec![("text", text(s))])
}

fn candidate(parts: Vec<Json>) -> Json {
    object(vec![("content", object(vec![("parts", Json::Array(parts))]))])
}

fn envelope(candidates: Vec<Json>) -> Json {
    object(vec![("candidates", Json::Array(candidates))])
}

fn expected_response(candidates: Vec<Vec<&str>>) -> GeminiResponse {
    GeminiResponse {
        candidates: candidates
            .into_iter()
            .map(|parts| Candidate {
                content: ContentResponse {
                    parts: parts
                        .into_iter()
                        .map(|t| ResponsePart { text: t.to_string() })
                        .collect(),
                },
            })
            .collect(),
    }
}

#[test]
fn parse_json_gives_every_kind_of_value() {
    let parsed = parse_json(r#" {"a": [1, -2, 1.5, "x", null, true, false, {}, []], "b": {"c": "d"}} "#);
    let expected = object(vec![
        (
            "a",
            Json::Array(vec![
                Json::Number("1".to_string()),
                Json::Number("-2".to_string()),
                Json::Number("1.5".to_string()),
                text("x"),
                Json::Null,
                Json::Bool(true),
                Json::Bool(false),
                Json::Object(vec![]),
                Json::Array(vec![]),
            ]),
        ),
        ("b", object(vec![("c", text("d"))])),
    ]);
    assert_eq!(shown(&parsed), shown(&Some(expected)));
}

#[test]
fn parse_json_on_scalars() {
    assert_eq!(shown(&parse_json("null")), shown(&Some(Json::Null)));
    assert_eq!(shown(&parse_json("true")), shown(&Some(Json::Bool(true))));
    assert_eq!(shown(&parse_json("42")), shown(&Some(Json::Number("42".to_string()))));
    assert_eq!(shown(&parse_json("\"hi\"")), shown(&Some(text("hi"))));
    assert_eq!(shown(&parse_json("[]")), shown(&Some(Json::Array(vec![]))));
    assert_eq!(shown(&parse_json("{}")), shown(&Some(Json::Object(vec![]))));
}

#[test]
fn parse_json_decodes_escapes() {
    assert_eq!(shown(&parse_json(r#""a\"b\\c\n\u00e9\ud83d\ude00""#)), shown(&Some(text("a\"b\\c\n\u{e9}\u{1f600}"))));
    assert_eq!(shown(&parse_json(r#"{"text": "v"}"#)), shown(&Some(object(vec![("text", text("v"))]))));
}

#[test]
fn parse_json_rejects_what_is_no_document() {
    for input in [
        "",
        " ",
        "{",
        "}",
        "{\"candidates\":",
        "[1,]",
        "{\"a\":1,}",
        "{'a':1}",
        "nul",
        "undefined",
        "1 2",
        "{} x",
        "\"open",
        "[DONE]",
        "not json",
    ] {
        assert!(parse_json(input).is_none(), "{:?}", input);
    }
}

#[test]
fn parse_json_keeps_the_last_of_repeated_keys() {
    assert_eq!(
        shown(&parse_json(r#"{"a": 1, "a": 2}"#)),
        shown(&Some(object(vec![("a", Json::Number("2".to_string()))])))
    );
}

#[test]
fn json_accessors() {
    let doc = object(vec![("a", text("x")), ("b", Json::Array(vec![Json::Null])), ("a", text("y"))]);
    assert_eq!(shown(&doc.get("a")), shown(&Some(&text("x"))));
    assert_eq!(shown(&doc.get("b")), shown(&Some(&Json::Array(vec![Json::Null]))));
    assert!(doc.get("c").is_none());
    assert!(doc.get("").is_none());
    assert!(text("x").get("a").is_none());
    assert!(Json::Array(vec![object(vec![("a", text("x"))])]).get("a").is_none());
    assert_eq!(text("x").as_str(), Some("x"));
    assert_eq!(Json::Number("1".to_string()).as_str(), None);
    assert_eq!(Json::Null.as_str(), None);
    assert_eq!(
        shown(&Json::Array(vec![Json::Null]).as_array()),
        shown(&Some(&vec![Json::Null]))
    );
    assert!(doc.as_array().is_none());
    assert!(Json::Null.as_array().is_none());
}

#[test]
fn decode_part_needs_a_text_string() {
    assert_eq!(decode_part(&part("hello")), Some(ResponsePart { text: "hello".to_string() }));
    assert_eq!(decode_part(&part("")), Some(ResponsePart { text: String::new() }));
    assert_eq!(
        decode_part(&object(vec![("role", text("model")), ("text", text("t"))])),
        Some(ResponsePart { text: "t".to_string() })
    );
    assert_eq!(decode_part(&object(vec![])), None);
    assert_eq!(decode_part(&object(vec![("text", Json::Null)])), None);
    assert_eq!(decode_part(&object(vec![("text", Json::Number("1".to_string()))])), None);
    assert_eq!(decode_part(&object(vec![("Text", text("t"))])), None);
    assert_eq!(decode_part(&text("hello")), None);
    assert_eq!(decode_part(&Json::Array(vec![text("hello")])), None);
}

#[test]
fn decode_content_needs_an_array_of_parts() {
    let content = object(vec![("parts", Json::Array(vec![part("a"), part("b")]))]);
    assert_eq!(
        decode_content(&content),
        Some(ContentResponse {
            parts: vec![
                ResponsePart { text: "a".to_string() },
                ResponsePart { text: "b".to_string() }
            ]
        })
    );
    assert_eq!(
        decode_content(&object(vec![("parts", Json::Array(vec![]))])),
        Some(ContentResponse { parts: vec![] })
    );
    assert_eq!(decode_content(&object(vec![])), Some(ContentResponse { parts: vec![] }));
    assert_eq!(
        decode_content(&object(vec![("role", text("model"))])),
        Some(ContentResponse { parts: vec![] })
    );
    assert_eq!(decode_content(&Json::Null), None);
    assert_eq!(decode_content(&text("parts")), None);
    assert_eq!(decode_content(&object(vec![("parts", Json::Null)])), None);
    assert_eq!(decode_content(&object(vec![("parts", part("a"))])), None);
    assert_eq!(
        decode_content(&object(vec![("parts", Json::Array(vec![part("a"), text("b")]))])),
        None
    );
    assert_eq!(decode_content(&Json::Array(vec![part("a")])), None);
}

#[test]
fn decode_candidate_needs_a_content() {
    assert_eq!(
        decode_candidate(&candidate(vec![part("a")])),
        Some(Candidate {
            content: ContentResponse { parts: vec![ResponsePart { text: "a".to_string() }] }
        })
    );
    assert_eq!(
        decode_candidate(&object(vec![("finishReason", text("STOP"))])),
        Some(Candidate { content: ContentResponse { parts: vec![] } })
    );
    assert_eq!(
        decode_candidate(&object(vec![("content", object(vec![]))])),
        Some(Candidate { content: ContentResponse { parts: vec![] } })
    );
    assert_eq!(decode_candidate(&object(vec![("content", Json::Array(vec![]))])), None);
    assert_eq!(decode_candidate(&object(vec![("content", Json::Null)])), None);
    assert_eq!(decode_candidate(&Json::Null), None);
    assert_eq!(decode_candidate(&Json::Array(vec![])), None);
}

#[test]
fn decode_envelope_reads_every_candidate() {
    let doc = envelope(vec![candidate(vec![part("a"), part("b")]), candidate(vec![])]);
    assert_eq!(decode_envelope(&doc), Some(expected_response(vec![vec!["a", "b"], vec![]])));
    assert_eq!(decode_envelope(&envelope(vec![])), Some(expected_response(vec![])));
}

#[test]
fn decode_envelope_ignores_other_members() {
    let doc = object(vec![
        ("usageMetadata", object(vec![("totalTokenCount", Json::Number("7".to_string()))])),
        (
            "candidates",
            Json::Array(vec![object(vec![
                ("index", Json::Number("0".to_string())),
                (
                    "content",
                    object(vec![("role", text("model")), ("parts", Json::Array(vec![part("hi")]))]),
                ),
            ])]),
        ),
        ("modelVersion", text("gemini-1.5-flash")),
    ]);
    assert_eq!(decode_envelope(&doc), Some(expected_response(vec![vec!["hi"]])));
}

#[test]
fn decode_envelope_without_candidates_member() {
    for doc in [
        object(vec![]),
        object(vec![("usageMetadata", object(vec![]))]),
        object(vec![("Candidates", Json::Null)]),
        Json::Null,
        Json::Bool(false),
        Json::Number("0".to_string()),
        text("candidates"),
        Json::Array(vec![Json::Array(vec![])]),
    ] {
        assert_eq!(decode_envelope(&doc), Some(expected_response(vec![])), "{:?}", doc);
    }
    assert_eq!(
        decode_envelope(&envelope(vec![candidate(vec![part("a")]), object(vec![])])),
        Some(expected_response(vec![vec!["a"], vec![]]))
    );
}

#[test]
fn decode_envelope_refuses_other_shapes() {
    assert_eq!(decode_envelope(&object(vec![("candidates", Json::Null)])), None);
    assert_eq!(decode_envelope(&object(vec![("candidates", text("x"))])), None);
    assert_eq!(decode_envelope(&object(vec![("candidates", candidate(vec![]))])), None);
    assert_eq!(decode_envelope(&envelope(vec![Json::Null])), None);
    assert_eq!(
        decode_envelope(&envelope(vec![candidate(vec![part("a")]), text("b")])),
        None
    );
    assert_eq!(
        decode_envelope(&envelope(vec![candidate(vec![part("a"), object(vec![])])])),
        None
    );
    assert_eq!(
        decode_envelope(&envelope(vec![object(vec![("content", Json::Null)])])),
        None
    );
}

#[test]
fn parsed_envelope_decodes() {
    let doc = parse_json(r#"{"candidates":[{"content":{"parts":[{"text":"hello"}]}}]}"#).unwrap();
    assert_eq!(shown(&doc), shown(&envelope(vec![candidate(vec![part("hello")])])));
    assert_eq!(decode_envelope(&doc), Some(expected_response(vec![vec!["hello"]])));
}
