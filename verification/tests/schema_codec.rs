use agentic_coding_protocol::{AnyAgentRequest, AnyAgentResult, AnyClientRequest, AnyClientResult,
    AssistantMessageChunk, CancelSendMessageParams, CreateThreadResponse, Diff, Icon,
    InitializeParams, InitializeResponse, Json, OpenThreadParams, PushToolCallParams,
    PushToolCallResponse, RequestToolCallConfirmationParams, RequestToolCallConfirmationResponse,
    SendUserMessageParams, ThreadId, ToolCallConfirmation, ToolCallConfirmationOutcome,
    ToolCallContent, ToolCallId, ToolCallStatus, UpdateToolCallParams, UserMessage,
    UserMessageChunk};
use agentic_coding_protocol::schema::{agent_methods, client_methods};

fn tid(s: &str) -> ThreadId {
    ThreadId(s.to_string())
}

#[test]
fn unit_records_are_null_on_the_wire() {
    assert_eq!(AnyAgentRequest::InitializeParams(InitializeParams).to_json().to_text(), "null");
}

#[test]
fn initialize_response_renders_exactly() {
    let r = InitializeResponse { is_authenticated: true };
    assert_eq!(r.to_json().to_text(), "{\"isAuthenticated\":true}");
    assert_eq!(InitializeResponse::from_json(&r.to_json()), Some(r));
}

#[test]
fn create_thread_response_renders_exactly() {
    let r = CreateThreadResponse { thread_id: tid("test-thread") };
    assert_eq!(r.to_json().to_text(), "{\"threadId\":\"test-thread\"}");
    assert_eq!(CreateThreadResponse::from_json(&r.to_json()), Some(r.clone()));
}

#[test]
fn open_thread_and_cancel_params_render_exactly() {
    let o = OpenThreadParams { thread_id: tid("t1") };
    assert_eq!(o.to_json().to_text(), "{\"threadId\":\"t1\"}");
    assert_eq!(OpenThreadParams::from_json(&o.to_json()), Some(o.clone()));
    let c = CancelSendMessageParams { thread_id: tid("t2") };
    assert_eq!(c.to_json().to_text(), "{\"threadId\":\"t2\"}");
    assert_eq!(CancelSendMessageParams::from_json(&c.to_json()), Some(c.clone()));
}

#[test]
fn icons_render_as_camel_case_names() {
    let cases = [
        (Icon::FileSearch, "\"fileSearch\""),
        (Icon::Folder, "\"folder\""),
        (Icon::Globe, "\"globe\""),
        (Icon::Hammer, "\"hammer\""),
        (Icon::LightBulb, "\"lightBulb\""),
        (Icon::Pencil, "\"pencil\""),
        (Icon::Regex, "\"regex\""),
        (Icon::Terminal, "\"terminal\""),
    ];
    for (icon, expected) in cases {
        assert_eq!(icon.to_json().to_text(), expected);
        assert_eq!(Icon::from_json(&icon.to_json()), Some(icon));
    }
    assert_eq!(Icon::from_json(&Json::Text("screwdriver".to_string())), None);
}

#[test]
fn outcomes_and_statuses_round_trip() {
    let outcomes = [
        ToolCallConfirmationOutcome::Allow,
        ToolCallConfirmationOutcome::AlwaysAllow,
        ToolCallConfirmationOutcome::AlwaysAllowMcpServer,
        ToolCallConfirmationOutcome::AlwaysAllowTool,
        ToolCallConfirmationOutcome::Reject,
        ToolCallConfirmationOutcome::Cancel,
    ];
    for o in outcomes {
        assert_eq!(ToolCallConfirmationOutcome::from_json(&o.to_json()), Some(o));
    }
    assert_eq!(
        ToolCallConfirmationOutcome::AlwaysAllowMcpServer.to_json().to_text(),
        "\"alwaysAllowMcpServer\"",
    );
    for s in [ToolCallStatus::Running, ToolCallStatus::Finished, ToolCallStatus::Error] {
        assert_eq!(ToolCallStatus::from_json(&s.to_json()), Some(s));
    }
    assert_eq!(ToolCallStatus::Running.to_json().to_text(), "\"running\"");
}

#[test]
fn message_chunks_are_internally_tagged() {
    let u = UserMessageChunk::Text { chunk: "hi".to_string() };
    assert_eq!(u.to_json().to_text(), "{\"type\":\"text\",\"chunk\":\"hi\"}");
    assert_eq!(UserMessageChunk::from_json(&u.to_json()), Some(u.clone()));
    let a = AssistantMessageChunk::Thought { chunk: "hm".to_string() };
    assert_eq!(a.to_json().to_text(), "{\"type\":\"thought\",\"chunk\":\"hm\"}");
    assert_eq!(AssistantMessageChunk::from_json(&a.to_json()), Some(a.clone()));
}

#[test]
fn user_message_renders_its_chunks_in_order() {
    let m = UserMessage {
        chunks: vec![
            UserMessageChunk::Text { chunk: "a".to_string() },
            UserMessageChunk::Text { chunk: "b".to_string() },
        ],
    };
    assert_eq!(
        m.to_json().to_text(),
        "{\"chunks\":[{\"type\":\"text\",\"chunk\":\"a\"},{\"type\":\"text\",\"chunk\":\"b\"}]}",
    );
    assert_eq!(UserMessage::from_json(&m.to_json()), Some(m.clone()));
    let empty = UserMessage { chunks: vec![] };
    assert_eq!(empty.to_json().to_text(), "{\"chunks\":[]}");
    assert_eq!(UserMessage::from_json(&empty.to_json()), Some(empty));
}

#[test]
fn send_user_message_params_round_trip() {
    let p = SendUserMessageParams {
        thread_id: tid("t"),
        message: UserMessage { chunks: vec![UserMessageChunk::Text { chunk: "hey".to_string() }] },
    };
    assert_eq!(
        p.to_json().to_text(),
        "{\"threadId\":\"t\",\"message\":{\"chunks\":[{\"type\":\"text\",\"chunk\":\"hey\"}]}}",
    );
    assert_eq!(SendUserMessageParams::from_json(&p.to_json()), Some(p.clone()));
}

#[test]
fn content_markdown_and_diff_render_exactly() {
    let m = ToolCallContent::Markdown { markdown: "**hi**".to_string() };
    assert_eq!(m.to_json().to_text(), "{\"type\":\"markdown\",\"markdown\":\"**hi**\"}");
    assert_eq!(ToolCallContent::from_json(&m.to_json()), Some(m.clone()));
    let d = ToolCallContent::Diff {
        diff: Diff { path: "a.txt".to_string(), old_text: None, new_text: "x".to_string() },
    };
    assert_eq!(
        d.to_json().to_text(),
        "{\"type\":\"diff\",\"path\":\"a.txt\",\"oldText\":null,\"newText\":\"x\"}",
    );
    assert_eq!(ToolCallContent::from_json(&d.to_json()), Some(d.clone()));
    let d2 = ToolCallContent::Diff {
        diff: Diff {
            path: "a.txt".to_string(),
            old_text: Some("old".to_string()),
            new_text: "new".to_string(),
        },
    };
    assert_eq!(
        d2.to_json().to_text(),
        "{\"type\":\"diff\",\"path\":\"a.txt\",\"oldText\":\"old\",\"newText\":\"new\"}",
    );
    assert_eq!(ToolCallContent::from_json(&d2.to_json()), Some(d2.clone()));
}

#[test]
fn confirmations_omit_an_absent_description() {
    let e = ToolCallConfirmation::Edit { description: None };
    assert_eq!(e.to_json().to_text(), "{\"type\":\"edit\"}");
    assert_eq!(ToolCallConfirmation::from_json(&e.to_json()), Some(e.clone()));
    let e2 = ToolCallConfirmation::Edit { description: Some("why".to_string()) };
    assert_eq!(e2.to_json().to_text(), "{\"type\":\"edit\",\"description\":\"why\"}");
    assert_eq!(ToolCallConfirmation::from_json(&e2.to_json()), Some(e2.clone()));
    let x = ToolCallConfirmation::Execute {
        command: "cargo test".to_string(),
        root_command: "cargo".to_string(),
        description: None,
    };
    assert_eq!(
        x.to_json().to_text(),
        "{\"type\":\"execute\",\"command\":\"cargo test\",\"rootCommand\":\"cargo\"}",
    );
    assert_eq!(ToolCallConfirmation::from_json(&x.to_json()), Some(x.clone()));
    let m = ToolCallConfirmation::Mcp {
        server_name: "srv".to_string(),
        tool_name: "tool".to_string(),
        tool_display_name: "Tool".to_string(),
        description: Some("d".to_string()),
    };
    assert_eq!(
        m.to_json().to_text(),
        "{\"type\":\"mcp\",\"serverName\":\"srv\",\"toolName\":\"tool\",\"toolDisplayName\":\"Tool\",\"description\":\"d\"}",
    );
    assert_eq!(ToolCallConfirmation::from_json(&m.to_json()), Some(m.clone()));
    let f = ToolCallConfirmation::Fetch {
        urls: vec!["https://example.com".to_string(), "https://example.org".to_string()],
        description: None,
    };
    assert_eq!(
        f.to_json().to_text(),
        "{\"type\":\"fetch\",\"urls\":[\"https://example.com\",\"https://example.org\"]}",
    );
    assert_eq!(ToolCallConfirmation::from_json(&f.to_json()), Some(f.clone()));
    let o = ToolCallConfirmation::Other { description: "custom".to_string() };
    assert_eq!(o.to_json().to_text(), "{\"type\":\"other\",\"description\":\"custom\"}");
    assert_eq!(ToolCallConfirmation::from_json(&o.to_json()), Some(o.clone()));
}

#[test]
fn tagged_responses_carry_their_record_name() {
    let r = RequestToolCallConfirmationResponse {
        id: ToolCallId(2),
        outcome: ToolCallConfirmationOutcome::Reject,
    };
    assert_eq!(
        r.to_json().to_text(),
        "{\"type\":\"RequestToolCallConfirmationResponse\",\"id\":2,\"outcome\":\"reject\"}",
    );
    assert_eq!(RequestToolCallConfirmationResponse::from_json(&r.to_json()), Some(r));
    let p = PushToolCallResponse { id: ToolCallId(u64::MAX) };
    assert_eq!(
        p.to_json().to_text(),
        "{\"type\":\"PushToolCallResponse\",\"id\":18446744073709551615}",
    );
    assert_eq!(PushToolCallResponse::from_json(&p.to_json()), Some(p));
}

#[test]
fn update_tool_call_params_keep_a_null_content() {
    let u = UpdateToolCallParams {
        thread_id: tid("t"),
        tool_call_id: ToolCallId(7),
        status: ToolCallStatus::Finished,
        content: None,
    };
    assert_eq!(
        u.to_json().to_text(),
        "{\"threadId\":\"t\",\"toolCallId\":7,\"status\":\"finished\",\"content\":null}",
    );
    assert_eq!(UpdateToolCallParams::from_json(&u.to_json()), Some(u.clone()));
}

#[test]
fn push_params_omit_an_absent_content() {
    let p = PushToolCallParams {
        thread_id: tid("0"),
        label: "test".to_string(),
        icon: Icon::FileSearch,
        content: None,
    };
    assert_eq!(
        p.to_json().to_text(),
        "{\"threadId\":\"0\",\"label\":\"test\",\"icon\":\"fileSearch\"}",
    );
    assert_eq!(PushToolCallParams::from_json(&p.to_json()), Some(p.clone()));
    let p2 = PushToolCallParams {
        thread_id: tid("0"),
        label: "test".to_string(),
        icon: Icon::Hammer,
        content: Some(ToolCallContent::Markdown { markdown: "m".to_string() }),
    };
    assert_eq!(
        p2.to_json().to_text(),
        "{\"threadId\":\"0\",\"label\":\"test\",\"icon\":\"hammer\",\"content\":{\"type\":\"markdown\",\"markdown\":\"m\"}}",
    );
    assert_eq!(PushToolCallParams::from_json(&p2.to_json()), Some(p2.clone()));
}

#[test]
fn request_confirmation_params_round_trip() {
    let p = RequestToolCallConfirmationParams {
        thread_id: tid("t"),
        label: "touch a file".to_string(),
        icon: Icon::Pencil,
        confirmation: ToolCallConfirmation::Edit { description: Some("edits a.txt".to_string()) },
        content: Some(ToolCallContent::Diff {
            diff: Diff { path: "a.txt".to_string(), old_text: None, new_text: "x".to_string() },
        }),
    };
    assert_eq!(RequestToolCallConfirmationParams::from_json(&p.to_json()), Some(p.clone()));
    let bare = RequestToolCallConfirmationParams { content: None, ..p };
    assert_eq!(RequestToolCallConfirmationParams::from_json(&bare.to_json()), Some(bare.clone()));
}

#[test]
fn registries_decode_their_own_encodings() {
    let reqs = vec![
        AnyAgentRequest::InitializeParams(InitializeParams),
        AnyAgentRequest::SendUserMessageParams(SendUserMessageParams {
            thread_id: tid("t"),
            message: UserMessage { chunks: vec![] },
        }),
    ];
    for r in reqs {
        let method = r.method_name().to_string();
        let raw = r.to_json();
        assert_eq!(AnyAgentRequest::from_method_and_params(&method, &raw), Ok(r.clone()));
    }
    let resps = vec![
        (
            "pushToolCall",
            AnyClientResult::PushToolCallResponse(PushToolCallResponse { id: ToolCallId(0) }),
        ),
    ];
    for (method, y) in resps {
        let raw = y.to_json();
        assert_eq!(AnyClientResult::from_method_and_result(&method.to_string(), &raw), Ok(y.clone()));
    }
}

#[test]
fn unknown_methods_are_reported_by_name() {
    let r = AnyClientRequest::from_method_and_params(&"nope".to_string(), &Json::Null);
    assert_eq!(r, Err("invalid method string nope".to_string()));
    let r = AnyAgentRequest::from_method_and_params(&"sendMessage".to_string(), &Json::Null);
    assert_eq!(r, Err("invalid method string sendMessage".to_string()));
}

#[test]
fn bad_params_are_reported_by_method() {
    let r = AnyAgentRequest::from_method_and_params(&"sendUserMessage".to_string(), &Json::Null);
    assert_eq!(r, Err("invalid params for method sendUserMessage".to_string()));
    let r = AnyAgentResult::from_method_and_result(&"initialize".to_string(), &Json::Int(3));
    assert_eq!(r, Err("invalid params for method initialize".to_string()));
}

#[test]
fn method_tables_list_the_catalog_in_order() {
    let client = client_methods();
    let names: Vec<&str> = client.iter().map(|m| m.name).collect();
    assert_eq!(names, vec![
        "streamAssistantMessageChunk",
        "requestToolCallConfirmation",
        "pushToolCall",
        "updateToolCall",
    ]);
    assert_eq!(client[2].request_type, "PushToolCallParams");
    assert_eq!(client[2].response_type, "PushToolCallResponse");
    let agent = agent_methods();
    let names: Vec<&str> = agent.iter().map(|m| m.name).collect();
    assert_eq!(names, vec![
        "initialize",
        "authenticate",
        "createThread",
        "sendUserMessage",
        "cancelSendMessage",
    ]);
    assert_eq!(agent[0].request_type, "InitializeParams");
    assert_eq!(agent[0].response_type, "InitializeResponse");
}
