//! Cross-checks of the crate's JSON codec against serde_json.

use agentic_coding_protocol::{AnyClientRequest, Icon, Json, PushToolCallParams, ThreadId};
use agentic_coding_protocol::parse::parse_json;

fn to_serde(j: &Json) -> serde_json::Value {
    serde_json::from_str(&j.to_text()).expect("serde_json must accept the crate's output")
}

#[test]
fn rendered_frames_are_valid_json_for_serde() {
    let params = PushToolCallParams {
        thread_id: ThreadId("0".to_string()),
        label: "test".to_string(),
        icon: Icon::FileSearch,
        content: None,
    };
    let v = to_serde(&AnyClientRequest::PushToolCallParams(params).to_json());
    assert_eq!(v["threadId"], serde_json::Value::String("0".to_string()));
    assert_eq!(v["label"], serde_json::Value::String("test".to_string()));
    assert_eq!(v["icon"], serde_json::Value::String("fileSearch".to_string()));
}

#[test]
fn escapes_agree_with_serde() {
    let tricky = "a\"b\\c\nd\te\rf\u{1}g\u{1f}h/é✓";
    let ours = Json::Text(tricky.to_string()).to_text();
    let theirs: String = serde_json::from_str(&ours).expect("serde must accept our escaping");
    assert_eq!(theirs, tricky);
    // and the crate's parser accepts serde's escaping
    let serde_text = serde_json::to_string(tricky).unwrap();
    assert_eq!(parse_json(&serde_text), Some(Json::Text(tricky.to_string())));
}

#[test]
fn integers_agree_with_serde() {
    for n in [0i64, 7, -7, i64::MAX, i64::MIN] {
        let ours = Json::Int(n as i128).to_text();
        let theirs: i64 = serde_json::from_str(&ours).unwrap();
        assert_eq!(theirs, n);
        let serde_text = serde_json::to_string(&n).unwrap();
        assert_eq!(parse_json(&serde_text), Some(Json::Int(n as i128)));
    }
    let big = u64::MAX;
    let serde_text = serde_json::to_string(&big).unwrap();
    assert_eq!(parse_json(&serde_text), Some(Json::Int(big as i128)));
}

#[test]
fn serde_compact_documents_parse_here() {
    // build a document with serde_json's own types, render it there,
    // and read it back with the crate's parser
    let mut inner = serde_json::Map::new();
    inner.insert("code".to_string(), serde_json::Value::from(-32603i64));
    inner.insert("message".to_string(), serde_json::Value::String("boom".to_string()));
    let mut outer = serde_json::Map::new();
    outer.insert("error".to_string(), serde_json::Value::Object(inner));
    outer.insert("id".to_string(), serde_json::Value::from(5i64));
    let text = serde_json::to_string(&serde_json::Value::Object(outer)).unwrap();
    let parsed = parse_json(&text).expect("serde's compact output must parse");
    // rendering the parsed tree again reproduces serde's text exactly
    assert_eq!(parsed.to_text(), text);
}
