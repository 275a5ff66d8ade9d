//! Ready-made handlers answering every method with a fixed response,
//! for exercising a pair of connected endpoints.

use vstd::prelude::*;
use crate::schema::{Agent, Client, InitializeParams, InitializeResponse, AuthenticateParams,
    AuthenticateResponse, CreateThreadParams, CreateThreadResponse, SendUserMessageParams,
    SendUserMessageResponse, CancelSendMessageParams, CancelSendMessageResponse,
    StreamAssistantMessageChunkParams, StreamAssistantMessageChunkResponse,
    RequestToolCallConfirmationParams, RequestToolCallConfirmationResponse, PushToolCallParams,
    PushToolCallResponse, UpdateToolCallParams, UpdateToolCallResponse, ThreadId, ToolCallId,
    ToolCallConfirmationOutcome};

verus! {

/// A client whose handlers reply with fixed values.
pub struct TestClient;

/// An agent whose handlers reply with fixed values.
pub struct TestAgent;

impl Agent for TestAgent {
    fn initialize(&self, request: InitializeParams) -> (r: Result<InitializeResponse, String>)
        ensures
            r == Ok::<InitializeResponse, String>(InitializeResponse { is_authenticated: true }),
    {
        Ok(InitializeResponse { is_authenticated: true })
    }

    fn authenticate(&self, request: AuthenticateParams) -> (r: Result<AuthenticateResponse, String>)
        ensures
            r == Ok::<AuthenticateResponse, String>(AuthenticateResponse),
    {
        Ok(AuthenticateResponse)
    }

    fn create_thread(&self, request: CreateThreadParams) -> (r: Result<CreateThreadResponse, String>)
        ensures
            r matches Ok(resp) && resp.thread_id.0@ == "test-thread"@,
    {
        Ok(CreateThreadResponse { thread_id: ThreadId(String::from_str("test-thread")) })
    }

    fn send_user_message(&self, request: SendUserMessageParams) -> (r: Result<
        SendUserMessageResponse,
        String,
    >)
        ensures
            r == Ok::<SendUserMessageResponse, String>(SendUserMessageResponse),
    {
        Ok(SendUserMessageResponse)
    }

    fn cancel_send_message(&self, request: CancelSendMessageParams) -> (r: Result<
        CancelSendMessageResponse,
        String,
    >)
        ensures
            r == Ok::<CancelSendMessageResponse, String>(CancelSendMessageResponse),
    {
        Ok(CancelSendMessageResponse)
    }
}

impl Client for TestClient {
    fn stream_assistant_message_chunk(&self, request: StreamAssistantMessageChunkParams) -> (r:
        Result<StreamAssistantMessageChunkResponse, String>)
        ensures
            r == Ok::<StreamAssistantMessageChunkResponse, String>(
                StreamAssistantMessageChunkResponse,
            ),
    {
        Ok(StreamAssistantMessageChunkResponse)
    }

    fn request_tool_call_confirmation(&self, request: RequestToolCallConfirmationParams) -> (r:
        Result<RequestToolCallConfirmationResponse, String>)
        ensures
            r == Ok::<RequestToolCallConfirmationResponse, String>(
                RequestToolCallConfirmationResponse {
                    id: ToolCallId(0),
                    outcome: ToolCallConfirmationOutcome::Allow,
                },
            ),
    {
        Ok(
            RequestToolCallConfirmationResponse {
                id: ToolCallId(0),
                outcome: ToolCallConfirmationOutcome::Allow,
            },
        )
    }

    fn push_tool_call(&self, request: PushToolCallParams) -> (r: Result<
        PushToolCallResponse,
        String,
    >)
        ensures
            r == Ok::<PushToolCallResponse, String>(PushToolCallResponse { id: ToolCallId(0) }),
    {
        Ok(PushToolCallResponse { id: ToolCallId(0) })
    }

    fn update_tool_call(&self, request: UpdateToolCallParams) -> (r: Result<
        UpdateToolCallResponse,
        String,
    >)
        ensures
            r == Ok::<UpdateToolCallResponse, String>(UpdateToolCallResponse),
    {
        Ok(UpdateToolCallResponse)
    }
}

} // verus!
