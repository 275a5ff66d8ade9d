use agentic_coding_protocol::{Agent, AgentConnection, AgentConnectionEvent, AnyAgentRequest,
    AnyAgentResult, AnyClientRequest, AnyClientResult, AssistantMessageChunk, AuthenticateParams,
    AuthenticateResponse, CancelSendMessageParams, CancelSendMessageResponse, Client,
    ClientConnection, ClientConnectionEvent, CreateThreadParams, CreateThreadResponse, Envelope,
    Error, Icon, InitializeParams, InitializeResponse, PushToolCallParams, PushToolCallResponse,
    RequestToolCallConfirmationParams, SendUserMessageParams, SendUserMessageResponse,
    StreamAssistantMessageChunkParams, TestAgent, TestClient, ThreadId, ToolCallConfirmation,
    ToolCallConfirmationOutcome, ToolCallId, ToolCallStatus, UpdateToolCallParams, UserMessage,
    UserMessageChunk};
use agentic_coding_protocol::schema::{dispatch_agent, dispatch_client};

fn pump<C: Client, A: Agent>(
    client_side: &mut AgentConnection,
    agent_side: &mut ClientConnection,
    client_handler: &C,
    agent_handler: &A,
    client_resolved: &mut Vec<(i32, Result<AnyAgentResult, Error>)>,
    agent_resolved: &mut Vec<(i32, Result<AnyClientResult, Error>)>,
) {
    loop {
        let mut progressed = false;
        while let Some(line) = client_side.next_outgoing() {
            progressed = true;
            match agent_side.handle_line(&line) {
                ClientConnectionEvent::Quiet => {},
                ClientConnectionEvent::Incoming { id, request } => {
                    let outcome = dispatch_agent(agent_handler, request);
                    agent_side.respond(id, outcome);
                },
                ClientConnectionEvent::Resolved { id, result } => {
                    agent_resolved.push((id, result));
                },
            }
        }
        while let Some(line) = agent_side.next_outgoing() {
            progressed = true;
            match client_side.handle_line(&line) {
                AgentConnectionEvent::Quiet => {},
                AgentConnectionEvent::Incoming { id, request } => {
                    let outcome = dispatch_client(client_handler, request);
                    client_side.respond(id, outcome);
                },
                AgentConnectionEvent::Resolved { id, result } => {
                    client_resolved.push((id, result));
                },
            }
        }
        if !progressed {
            break;
        }
    }
}

fn push_params() -> AnyClientRequest {
    AnyClientRequest::PushToolCallParams(PushToolCallParams {
        thread_id: ThreadId("0".to_string()),
        label: "test".to_string(),
        icon: Icon::FileSearch,
        content: None,
    })
}

#[test]
fn test_client_agent_communication() {
    let mut client_side = AgentConnection::new();
    let mut agent_side = ClientConnection::new();
    let mut client_resolved = Vec::new();
    let mut agent_resolved = Vec::new();

    let push_id = agent_side.request(push_params());
    pump(
        &mut client_side,
        &mut agent_side,
        &TestClient,
        &TestAgent,
        &mut client_resolved,
        &mut agent_resolved,
    );
    assert_eq!(agent_resolved.len(), 1);
    let (id, result) = agent_resolved.pop().unwrap();
    assert_eq!(id, push_id);
    match result {
        Ok(AnyClientResult::PushToolCallResponse(r)) => assert_eq!(r.id, ToolCallId(0)),
        other => panic!("unexpected outcome: {:?}", other),
    }

    let create_id = client_side.request(AnyAgentRequest::CreateThreadParams(CreateThreadParams));
    pump(
        &mut client_side,
        &mut agent_side,
        &TestClient,
        &TestAgent,
        &mut client_resolved,
        &mut agent_resolved,
    );
    assert_eq!(client_resolved.len(), 1);
    let (id, result) = client_resolved.pop().unwrap();
    assert_eq!(id, create_id);
    match result {
        Ok(AnyAgentResult::CreateThreadResponse(r)) => {
            assert_eq!(r.thread_id, ThreadId("test-thread".to_string()));
        },
        other => panic!("unexpected outcome: {:?}", other),
    }
}

#[test]
fn first_request_frame_has_id_zero_and_the_method_name() {
    let mut agent_side = ClientConnection::new();
    let id = agent_side.request(push_params());
    assert_eq!(id, 0);
    let line = agent_side.next_outgoing().expect("a frame must be queued");
    assert_eq!(
        line,
        "{\"id\":0,\"method\":\"pushToolCall\",\"params\":{\"threadId\":\"0\",\"label\":\"test\",\"icon\":\"fileSearch\"}}",
    );
    assert!(agent_side.next_outgoing().is_none());
}

#[test]
fn correlation_ids_are_strictly_increasing() {
    let mut client_side = AgentConnection::new();
    let a = client_side.request(AnyAgentRequest::InitializeParams(InitializeParams));
    let b = client_side.request(AnyAgentRequest::AuthenticateParams(AuthenticateParams));
    let c = client_side.request(AnyAgentRequest::CreateThreadParams(CreateThreadParams));
    assert_eq!((a, b, c), (0, 1, 2));
}

#[test]
fn bidirectional_requests_resolve_independently() {
    let mut client_side = AgentConnection::new();
    let mut agent_side = ClientConnection::new();
    let mut client_resolved = Vec::new();
    let mut agent_resolved = Vec::new();

    // both endpoints fire before any frame moves
    let from_client = client_side.request(AnyAgentRequest::CreateThreadParams(CreateThreadParams));
    let from_agent = agent_side.request(push_params());
    pump(
        &mut client_side,
        &mut agent_side,
        &TestClient,
        &TestAgent,
        &mut client_resolved,
        &mut agent_resolved,
    );
    assert_eq!(client_resolved.len(), 1);
    assert_eq!(agent_resolved.len(), 1);
    let (cid, cres) = client_resolved.pop().unwrap();
    assert_eq!(cid, from_client);
    assert!(matches!(cres, Ok(AnyAgentResult::CreateThreadResponse(_))));
    let (aid, ares) = agent_resolved.pop().unwrap();
    assert_eq!(aid, from_agent);
    assert!(matches!(ares, Ok(AnyClientResult::PushToolCallResponse(_))));
}

struct BoomAgent;

impl Agent for BoomAgent {
    fn initialize(&self, _request: InitializeParams) -> Result<InitializeResponse, String> {
        Ok(InitializeResponse { is_authenticated: false })
    }

    fn authenticate(&self, _request: AuthenticateParams) -> Result<AuthenticateResponse, String> {
        Ok(AuthenticateResponse)
    }

    fn create_thread(&self, _request: CreateThreadParams) -> Result<CreateThreadResponse, String> {
        Ok(CreateThreadResponse { thread_id: ThreadId("t".to_string()) })
    }

    fn send_user_message(
        &self,
        _request: SendUserMessageParams,
    ) -> Result<SendUserMessageResponse, String> {
        Err("boom".to_string())
    }

    fn cancel_send_message(
        &self,
        _request: CancelSendMessageParams,
    ) -> Result<CancelSendMessageResponse, String> {
        Ok(CancelSendMessageResponse)
    }
}

#[test]
fn handler_errors_come_back_with_the_internal_code() {
    let mut client_side = AgentConnection::new();
    let mut agent_side = ClientConnection::new();
    let mut client_resolved = Vec::new();
    let mut agent_resolved = Vec::new();

    let id = client_side.request(AnyAgentRequest::SendUserMessageParams(SendUserMessageParams {
        thread_id: ThreadId("t".to_string()),
        message: UserMessage { chunks: vec![] },
    }));
    pump(
        &mut client_side,
        &mut agent_side,
        &TestClient,
        &BoomAgent,
        &mut client_resolved,
        &mut agent_resolved,
    );
    assert_eq!(client_resolved.len(), 1);
    let (rid, result) = client_resolved.pop().unwrap();
    assert_eq!(rid, id);
    match result {
        Err(e) => {
            assert_eq!(e.code, -32603);
            assert!(e.message.contains("boom"));
        },
        other => panic!("expected an error, got {:?}", other),
    }
}

#[test]
fn handler_error_frame_is_exactly_one_error_envelope() {
    let mut client_side = AgentConnection::new();
    let mut agent_side = ClientConnection::new();
    let id = client_side.request(AnyAgentRequest::SendUserMessageParams(SendUserMessageParams {
        thread_id: ThreadId("t".to_string()),
        message: UserMessage { chunks: vec![] },
    }));
    let line = client_side.next_outgoing().unwrap();
    match agent_side.handle_line(&line) {
        ClientConnectionEvent::Incoming { id: rid, request } => {
            let outcome = dispatch_agent(&BoomAgent, request);
            agent_side.respond(rid, outcome);
        },
        other => panic!("expected an incoming request, got nothing useful: {:?}", line_of(other)),
    }
    let reply = agent_side.next_outgoing().unwrap();
    assert_eq!(
        reply,
        format!("{{\"id\":{},\"error\":{{\"code\":-32603,\"message\":\"boom\"}}}}", id),
    );
    assert!(agent_side.next_outgoing().is_none());
}

fn line_of(ev: ClientConnectionEvent) -> &'static str {
    match ev {
        ClientConnectionEvent::Quiet => "quiet",
        ClientConnectionEvent::Incoming { .. } => "incoming",
        ClientConnectionEvent::Resolved { .. } => "resolved",
    }
}

#[test]
fn unknown_method_is_answered_with_an_error_envelope() {
    let mut agent_side = ClientConnection::new();
    let ev = agent_side.handle_line("{\"id\":7,\"method\":\"nope\",\"params\":{}}");
    assert!(matches!(ev, ClientConnectionEvent::Quiet));
    let reply = agent_side.next_outgoing().unwrap();
    assert_eq!(
        reply,
        "{\"id\":7,\"error\":{\"code\":-32603,\"message\":\"invalid method string nope\"}}",
    );
}

#[test]
fn garbage_lines_are_dropped_and_the_next_frame_still_works() {
    let mut agent_side = ClientConnection::new();
    let ev = agent_side.handle_line("this is not json");
    assert!(matches!(ev, ClientConnectionEvent::Quiet));
    assert!(agent_side.next_outgoing().is_none());
    assert_eq!(agent_side.pending_len(), 0);

    let ev = agent_side.handle_line("{\"id\":1,\"method\":\"createThread\",\"params\":null}");
    match ev {
        ClientConnectionEvent::Incoming { id, request } => {
            assert_eq!(id, 1);
            let outcome = dispatch_agent(&TestAgent, request);
            agent_side.respond(id, outcome);
        },
        other => panic!("expected an incoming request, got {}", line_of(other)),
    }
    let reply = agent_side.next_outgoing().unwrap();
    assert_eq!(reply, "{\"id\":1,\"result\":{\"threadId\":\"test-thread\"}}");
}

#[test]
fn responses_with_no_pending_entry_are_dropped_without_side_effect() {
    let mut client_side = AgentConnection::new();
    let _ = client_side.request(AnyAgentRequest::CreateThreadParams(CreateThreadParams));
    assert_eq!(client_side.pending_len(), 1);
    let ev = client_side.handle_line("{\"id\":55,\"result\":{\"threadId\":\"zombie\"}}");
    assert!(matches!(ev, AgentConnectionEvent::Quiet));
    assert_eq!(client_side.pending_len(), 1);
}

#[test]
fn a_request_resolves_at_most_once() {
    let mut client_side = AgentConnection::new();
    let id = client_side.request(AnyAgentRequest::CreateThreadParams(CreateThreadParams));
    let _frame = client_side.next_outgoing().unwrap();
    let reply = format!("{{\"id\":{},\"result\":{{\"threadId\":\"t\"}}}}", id);
    let ev = client_side.handle_line(&reply);
    assert!(matches!(ev, AgentConnectionEvent::Resolved { .. }));
    assert_eq!(client_side.pending_len(), 0);
    // the same frame again finds no pending entry and is dropped
    let ev = client_side.handle_line(&reply);
    assert!(matches!(ev, AgentConnectionEvent::Quiet));
}

#[test]
fn outgoing_frames_leave_whole_and_in_order() {
    let mut client_side = AgentConnection::new();
    client_side.request(AnyAgentRequest::InitializeParams(InitializeParams));
    client_side.request(AnyAgentRequest::AuthenticateParams(AuthenticateParams));
    let first = client_side.next_outgoing().unwrap();
    let second = client_side.next_outgoing().unwrap();
    assert_eq!(first, "{\"id\":0,\"method\":\"initialize\",\"params\":null}");
    assert_eq!(second, "{\"id\":1,\"method\":\"authenticate\",\"params\":null}");
    // each line is one whole frame
    assert!(Envelope::decode(&first).is_some());
    assert!(Envelope::decode(&second).is_some());
    assert!(client_side.next_outgoing().is_none());
}

#[test]
fn shutdown_drains_every_pending_request() {
    let mut client_side = AgentConnection::new();
    let a = client_side.request(AnyAgentRequest::CreateThreadParams(CreateThreadParams));
    let b = client_side.request(AnyAgentRequest::InitializeParams(InitializeParams));
    let drained = client_side.shutdown();
    assert_eq!(client_side.pending_len(), 0);
    let summary: Vec<(i32, String)> = drained;
    assert_eq!(summary.len(), 2);
    assert_eq!(summary[0], (a, "createThread".to_string()));
    assert_eq!(summary[1], (b, "initialize".to_string()));
    // a late response after shutdown finds nothing to resolve
    let ev = client_side.handle_line("{\"id\":0,\"result\":{\"threadId\":\"t\"}}");
    assert!(matches!(ev, AgentConnectionEvent::Quiet));
}

#[test]
fn every_method_of_the_catalog_round_trips_end_to_end() {
    let mut client_side = AgentConnection::new();
    let mut agent_side = ClientConnection::new();
    let mut client_resolved = Vec::new();
    let mut agent_resolved = Vec::new();

    let t = || ThreadId("t".to_string());
    let agent_bound = vec![
        AnyAgentRequest::InitializeParams(InitializeParams),
        AnyAgentRequest::AuthenticateParams(AuthenticateParams),
        AnyAgentRequest::CreateThreadParams(CreateThreadParams),
        AnyAgentRequest::SendUserMessageParams(SendUserMessageParams {
            thread_id: t(),
            message: UserMessage {
                chunks: vec![UserMessageChunk::Text { chunk: "hello".to_string() }],
            },
        }),
        AnyAgentRequest::CancelSendMessageParams(CancelSendMessageParams { thread_id: t() }),
    ];
    let client_bound = vec![
        AnyClientRequest::StreamAssistantMessageChunkParams(StreamAssistantMessageChunkParams {
            thread_id: t(),
            chunk: AssistantMessageChunk::Text { chunk: "hi".to_string() },
        }),
        AnyClientRequest::RequestToolCallConfirmationParams(RequestToolCallConfirmationParams {
            thread_id: t(),
            label: "run".to_string(),
            icon: Icon::Terminal,
            confirmation: ToolCallConfirmation::Execute {
                command: "make".to_string(),
                root_command: "make".to_string(),
                description: None,
            },
            content: None,
        }),
        push_params(),
        AnyClientRequest::UpdateToolCallParams(UpdateToolCallParams {
            thread_id: t(),
            tool_call_id: ToolCallId(0),
            status: ToolCallStatus::Running,
            content: None,
        }),
    ];
    for r in agent_bound {
        client_side.request(r);
    }
    for r in client_bound {
        agent_side.request(r);
    }
    pump(
        &mut client_side,
        &mut agent_side,
        &TestClient,
        &TestAgent,
        &mut client_resolved,
        &mut agent_resolved,
    );
    assert_eq!(client_resolved.len(), 5);
    assert_eq!(agent_resolved.len(), 4);
    for (_, result) in &client_resolved {
        assert!(result.is_ok(), "agent-bound request failed: {:?}", result);
    }
    for (_, result) in &agent_resolved {
        assert!(result.is_ok(), "client-bound request failed: {:?}", result);
    }
    // each resolution answers its own method
    assert!(matches!(client_resolved[0].1, Ok(AnyAgentResult::InitializeResponse(_))));
    assert!(matches!(client_resolved[1].1, Ok(AnyAgentResult::AuthenticateResponse(_))));
    assert!(matches!(client_resolved[2].1, Ok(AnyAgentResult::CreateThreadResponse(_))));
    assert!(matches!(client_resolved[3].1, Ok(AnyAgentResult::SendUserMessageResponse(_))));
    assert!(matches!(client_resolved[4].1, Ok(AnyAgentResult::CancelSendMessageResponse(_))));
    assert!(matches!(
        agent_resolved[0].1,
        Ok(AnyClientResult::StreamAssistantMessageChunkResponse(_)),
    ));
    assert!(matches!(
        agent_resolved[1].1,
        Ok(AnyClientResult::RequestToolCallConfirmationResponse(
            agentic_coding_protocol::RequestToolCallConfirmationResponse {
                id: ToolCallId(0),
                outcome: ToolCallConfirmationOutcome::Allow,
            },
        )),
    ));
    assert!(matches!(agent_resolved[2].1, Ok(AnyClientResult::PushToolCallResponse(_))));
    assert!(matches!(agent_resolved[3].1, Ok(AnyClientResult::UpdateToolCallResponse(_))));
}

#[test]
fn undecodable_response_payload_leaves_the_request_pending() {
    let mut client_side = AgentConnection::new();
    let id = client_side.request(AnyAgentRequest::CreateThreadParams(CreateThreadParams));
    let _frame = client_side.next_outgoing().unwrap();
    // a success response whose payload is not a createThread response:
    // the frame is dropped and the entry stays for the caller's deadline
    let bad_reply = format!("{{\"id\":{},\"result\":7}}", id);
    let ev = client_side.handle_line(&bad_reply);
    assert!(matches!(ev, AgentConnectionEvent::Quiet));
    assert_eq!(client_side.pending_len(), 1);
    assert!(client_side.next_outgoing().is_none());
    // a later well-formed response still resolves the request
    let good_reply = format!("{{\"id\":{},\"result\":{{\"threadId\":\"t\"}}}}", id);
    match client_side.handle_line(&good_reply) {
        AgentConnectionEvent::Resolved { id: rid, result } => {
            assert_eq!(rid, id);
            assert!(matches!(result, Ok(AnyAgentResult::CreateThreadResponse(_))));
        },
        _ => panic!("expected a resolution"),
    }
    assert_eq!(client_side.pending_len(), 0);
    // shutdown reports any entry that was never resolved
    let id2 = client_side.request(AnyAgentRequest::CreateThreadParams(CreateThreadParams));
    let _frame = client_side.next_outgoing().unwrap();
    let bad_reply2 = format!("{{\"id\":{},\"result\":7}}", id2);
    let ev = client_side.handle_line(&bad_reply2);
    assert!(matches!(ev, AgentConnectionEvent::Quiet));
    let drained = client_side.shutdown();
    assert_eq!(drained, vec![(id2, "createThread".to_string())]);
}
