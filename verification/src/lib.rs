//! Connection engine for a symmetric, bidirectional request/response
//! protocol carried as newline-delimited JSON over a duplex byte pair.
//!
//! The crate is organised leaves first: a JSON value model and its text
//! codec, the wire envelopes, the per-role method catalog, and the
//! multiplexing connection engine with its typed facades. Every layer
//! is specified against a mathematical model, and the round-trip laws
//! between serializing and parsing are proved, not assumed.

pub mod connection;
pub mod envelope;
pub mod facade;
pub mod json;
pub mod laws;
pub mod parse;
pub mod roundtrip;
pub mod schema;
pub mod testing;
pub mod text;

pub use connection::{Connection, ConnView, FrameEvent};
pub use envelope::{Envelope, EnvVal, Error};
pub use facade::{AgentConnection, AgentConnectionEvent, ClientConnection, ClientConnectionEvent};
pub use json::{Json, JsonVal};
pub use schema::{Agent, AgentRequest, AnyRequest, AnyAgentRequest, AnyAgentResult, AnyClientRequest,
    AnyClientResult, AssistantMessageChunk, AuthenticateParams, AuthenticateResponse,
    CancelSendMessageParams, CancelSendMessageResponse, Client, ClientRequest, CreateThreadParams,
    CreateThreadResponse, Diff, Icon, InitializeParams, InitializeResponse, Method,
    OpenThreadParams, OpenThreadResponse, PushToolCallParams, PushToolCallResponse,
    RequestToolCallConfirmationParams, RequestToolCallConfirmationResponse,
    SendUserMessageParams, SendUserMessageResponse, StreamAssistantMessageChunkParams,
    StreamAssistantMessageChunkResponse, ThreadId, ThreadMetadata, Timestamp, ToolCallConfirmation,
    ToolCallConfirmationOutcome, ToolCallContent, ToolCallId, ToolCallStatus, UpdateToolCallParams,
    UpdateToolCallResponse, UserMessage, UserMessageChunk};
pub use testing::{TestAgent, TestClient};
