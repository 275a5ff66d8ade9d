//! A conforming peer need not emit this crate's canonical byte form:
//! members may come in any order, unknown members are ignored, optional
//! members may be `null` or absent, and whitespace is whitespace.

use agentic_coding_protocol::{AgentConnection, AgentConnectionEvent, AnyAgentRequest,
    AnyAgentResult, ClientConnection, ClientConnectionEvent, CreateThreadParams, Icon, Json,
    PushToolCallParams, SendUserMessageParams, ThreadId, ToolCallConfirmation, ToolCallContent,
    UpdateToolCallParams, UserMessageChunk};
use agentic_coding_protocol::parse::parse_json;

fn decode<T>(text: &str, f: impl Fn(&Json) -> Option<T>) -> T {
    f(&parse_json(text).expect("the text must parse")).expect("the payload must decode")
}

#[test]
fn members_decode_in_any_order() {
    let p = decode("{\"label\":\"test\",\"icon\":\"fileSearch\",\"threadId\":\"0\"}",
        PushToolCallParams::from_json);
    assert_eq!(p, PushToolCallParams {
        thread_id: ThreadId("0".to_string()),
        label: "test".to_string(),
        icon: Icon::FileSearch,
        content: None,
    });
    let u = decode(
        "{\"content\":null,\"status\":\"running\",\"threadId\":\"t\",\"toolCallId\":7}",
        UpdateToolCallParams::from_json,
    );
    assert_eq!(u.thread_id, ThreadId("t".to_string()));
    assert_eq!(u.content, None);
}

#[test]
fn unknown_members_are_ignored() {
    let p = decode(
        "{\"threadId\":\"0\",\"futureField\":[1,2],\"label\":\"test\",\"icon\":\"hammer\",\"note\":null}",
        PushToolCallParams::from_json,
    );
    assert_eq!(p.icon, Icon::Hammer);
    let c = decode(
        "{\"extra\":true,\"type\":\"edit\"}",
        ToolCallConfirmation::from_json,
    );
    assert_eq!(c, ToolCallConfirmation::Edit { description: None });
}

#[test]
fn optional_members_accept_null_or_absence() {
    let with_null = decode(
        "{\"type\":\"edit\",\"description\":null}",
        ToolCallConfirmation::from_json,
    );
    assert_eq!(with_null, ToolCallConfirmation::Edit { description: None });
    let with_value = decode(
        "{\"description\":\"why\",\"type\":\"edit\"}",
        ToolCallConfirmation::from_json,
    );
    assert_eq!(with_value, ToolCallConfirmation::Edit { description: Some("why".to_string()) });
    // a content member may be omitted, null, or present
    let omitted = decode("{\"threadId\":\"t\",\"toolCallId\":1,\"status\":\"finished\"}",
        UpdateToolCallParams::from_json);
    assert_eq!(omitted.content, None);
    let present = decode(
        "{\"threadId\":\"t\",\"toolCallId\":1,\"status\":\"finished\",\"content\":{\"markdown\":\"m\",\"type\":\"markdown\"}}",
        UpdateToolCallParams::from_json,
    );
    assert_eq!(present.content, Some(ToolCallContent::Markdown { markdown: "m".to_string() }));
}

#[test]
fn tagged_members_decode_with_the_tag_anywhere() {
    let chunk = decode("{\"chunk\":\"hi\",\"type\":\"text\"}", UserMessageChunk::from_json);
    assert_eq!(chunk, UserMessageChunk::Text { chunk: "hi".to_string() });
    let diff = decode(
        "{\"newText\":\"x\",\"path\":\"a.txt\",\"type\":\"diff\"}",
        ToolCallContent::from_json,
    );
    match diff {
        ToolCallContent::Diff { diff } => {
            assert_eq!(diff.old_text, None);
            assert_eq!(diff.new_text, "x");
        },
        _ => panic!("expected a change record"),
    }
}

#[test]
fn required_members_are_still_required() {
    assert_eq!(
        PushToolCallParams::from_json(
            &parse_json("{\"threadId\":\"0\",\"icon\":\"hammer\"}").unwrap(),
        ),
        None,
    );
    assert_eq!(
        SendUserMessageParams::from_json(&parse_json("{\"threadId\":\"t\"}").unwrap()),
        None,
    );
    assert_eq!(
        ToolCallConfirmation::from_json(&parse_json("{\"description\":\"d\"}").unwrap()),
        None,
    );
}

#[test]
fn formatted_frames_from_a_peer_are_handled() {
    let mut agent_side = ClientConnection::new();
    // a conventionally formatted request frame, fields reordered
    let ev = agent_side.handle_line(
        "{ \"params\": null, \"method\": \"createThread\", \"id\": 1 }",
    );
    match ev {
        ClientConnectionEvent::Incoming { id, request } => {
            assert_eq!(id, 1);
            assert_eq!(request, AnyAgentRequest::CreateThreadParams(CreateThreadParams));
        },
        _ => panic!("expected an incoming request"),
    }
}

#[test]
fn crlf_terminated_frames_are_handled() {
    let mut client_side = AgentConnection::new();
    let id = client_side.request(AnyAgentRequest::CreateThreadParams(CreateThreadParams));
    let _frame = client_side.next_outgoing().unwrap();
    // a peer writing CRLF line endings leaves a trailing carriage return
    let reply = format!("{{\"id\":{},\"result\":{{\"threadId\":\"t\"}}}}\r", id);
    match client_side.handle_line(&reply) {
        AgentConnectionEvent::Resolved { id: rid, result } => {
            assert_eq!(rid, id);
            assert!(matches!(result, Ok(AnyAgentResult::CreateThreadResponse(_))));
        },
        _ => panic!("expected a resolution"),
    }
}
