//! The typed facades: one engine per endpoint, with the role-specific
//! method tables swapped.
//!
//! An `AgentConnection` talks to an agent: it sends the agent-facing
//! methods and answers the client-facing ones. A `ClientConnection` is
//! its mirror image. Both decode incoming requests through their
//! received-role registry and answer undecodable requests with an error
//! envelope. Responses decode through the sent-role registry under the
//! method name retained in the pending table; a success frame whose
//! payload does not decode is dropped with its entry left in place, so
//! the caller's own deadline — or shutdown — ends the wait.

use vstd::prelude::*;
use crate::envelope::{EnvVal, Error, decode_frame, env_to_jval, fits_i32, wf_env,
    theorem_envelope_round_trip};
use crate::json::ser;
use crate::connection::{Connection, ConnView, FrameEvent, wf_conn, pending_has, pending_idx,
    request_step, respond_step, dequeue_step, internal_error_code};
use crate::schema::{AnyClientRequest, AnyClientResult, AnyAgentRequest, AnyAgentResult,
    client_request_method, enc_client_request, client_response_pairs, enc_client_result,
    is_client_method, agent_request_method, enc_agent_request, agent_response_pairs,
    enc_agent_result, is_agent_method, unknown_method_message, invalid_params_message,
    reads_client_request, reads_client_result, reads_agent_request, reads_agent_result};

verus! {

/// What one received line meant to an agent connection.
pub enum AgentConnectionEvent {
    /// Nothing to act on: the line was malformed, a response matched no
    /// pending entry, or an undecodable request was already answered
    /// with an error envelope.
    Quiet,
    /// The agent asked something; the handler layer must answer `id`.
    Incoming { id: i32, request: AnyClientRequest },
    /// The request sent under `id` concluded.
    Resolved { id: i32, result: Result<AnyAgentResult, Error> },
}

/// What one received line meant to a client connection.
pub enum ClientConnectionEvent {
    /// Nothing to act on.
    Quiet,
    /// The client asked something; the handler layer must answer `id`.
    Incoming { id: i32, request: AnyAgentRequest },
    /// The request sent under `id` concluded.
    Resolved { id: i32, result: Result<AnyClientResult, Error> },
}

/// How an agent connection treats one received line.
///
/// A request either decodes through the client-facing registry and is
/// handed to the handler layer, or is answered at once by one error
/// envelope carrying the registry's message. A success frame resolves
/// and removes its pending entry when its payload decodes through the
/// agent-facing registry under the stored method name; when the payload
/// does not decode, the frame is dropped and the entry stays in place
/// for the caller's own deadline. An error frame resolves its entry
/// with the peer's error. Responses with no pending entry, and
/// malformed lines, change nothing.
pub open spec fn agent_line_step(
    pre: ConnView,
    post: ConnView,
    line: Seq<char>,
    ev: AgentConnectionEvent,
) -> bool {
    &&& post.next_id == pre.next_id
    &&& match decode_frame(line) {
        None => ev is Quiet && post == pre,
        Some(EnvVal::Request { id, method, params }) => {
            if exists|x: AnyClientRequest|
                client_request_method(x) == method && reads_client_request(x, params) {
                &&& ev matches AgentConnectionEvent::Incoming { id: eid, request }
                    && eid as int == id && client_request_method(request) == method
                    && reads_client_request(request, params)
                &&& post == pre
            } else {
                &&& ev is Quiet
                &&& post.pending == pre.pending
                &&& post.outgoing == pre.outgoing.push(
                    EnvVal::ErrorResponse {
                        id,
                        code: internal_error_code(),
                        message: if is_client_method(method) {
                            invalid_params_message(method)
                        } else {
                            unknown_method_message(method)
                        },
                    },
                )
            }
        },
        Some(EnvVal::OkResponse { id, result }) => {
            if pending_has(pre.pending, id) {
                let method = pre.pending[pending_idx(pre.pending, id)].1;
                if exists|y: AnyAgentResult|
                    agent_response_pairs(method, y) && reads_agent_result(y, result) {
                    &&& post.pending == pre.pending.remove(pending_idx(pre.pending, id))
                    &&& post.outgoing == pre.outgoing
                    &&& ev matches AgentConnectionEvent::Resolved { id: eid, result: eresult }
                        && eid as int == id && (eresult matches Ok(y) && agent_response_pairs(
                        method,
                        y,
                    ) && reads_agent_result(y, result))
                } else {
                    // the payload does not decode as the stored method's
                    // response: the frame is dropped and the entry stays
                    // for the caller's own deadline
                    ev is Quiet && post == pre
                }
            } else {
                ev is Quiet && post == pre
            }
        },
        Some(EnvVal::ErrorResponse { id, code, message }) => {
            if pending_has(pre.pending, id) {
                &&& post.pending == pre.pending.remove(pending_idx(pre.pending, id))
                &&& post.outgoing == pre.outgoing
                &&& ev matches AgentConnectionEvent::Resolved { id: eid, result: eresult }
                    && eid as int == id && (eresult matches Err(e) && e.code as int == code
                    && e.message@ == message)
            } else {
                ev is Quiet && post == pre
            }
        },
    }
}

/// How a client connection treats one received line; the mirror image
/// of `agent_line_step` with the two registries swapped.
pub open spec fn client_line_step(
    pre: ConnView,
    post: ConnView,
    line: Seq<char>,
    ev: ClientConnectionEvent,
) -> bool {
    &&& post.next_id == pre.next_id
    &&& match decode_frame(line) {
        None => ev is Quiet && post == pre,
        Some(EnvVal::Request { id, method, params }) => {
            if exists|x: AnyAgentRequest|
                agent_request_method(x) == method && reads_agent_request(x, params) {
                &&& ev matches ClientConnectionEvent::Incoming { id: eid, request }
                    && eid as int == id && agent_request_method(request) == method
                    && reads_agent_request(request, params)
                &&& post == pre
            } else {
                &&& ev is Quiet
                &&& post.pending == pre.pending
                &&& post.outgoing == pre.outgoing.push(
                    EnvVal::ErrorResponse {
                        id,
                        code: internal_error_code(),
                        message: if is_agent_method(method) {
                            invalid_params_message(method)
                        } else {
                            unknown_method_message(method)
                        },
                    },
                )
            }
        },
        Some(EnvVal::OkResponse { id, result }) => {
            if pending_has(pre.pending, id) {
                let method = pre.pending[pending_idx(pre.pending, id)].1;
                if exists|y: AnyClientResult|
                    client_response_pairs(method, y) && reads_client_result(y, result) {
                    &&& post.pending == pre.pending.remove(pending_idx(pre.pending, id))
                    &&& post.outgoing == pre.outgoing
                    &&& ev matches ClientConnectionEvent::Resolved { id: eid, result: eresult }
                        && eid as int == id && (eresult matches Ok(y) && client_response_pairs(
                        method,
                        y,
                    ) && reads_client_result(y, result))
                } else {
                    // the payload does not decode as the stored method's
                    // response: the frame is dropped and the entry stays
                    // for the caller's own deadline
                    ev is Quiet && post == pre
                }
            } else {
                ev is Quiet && post == pre
            }
        },
        Some(EnvVal::ErrorResponse { id, code, message }) => {
            if pending_has(pre.pending, id) {
                &&& post.pending == pre.pending.remove(pending_idx(pre.pending, id))
                &&& post.outgoing == pre.outgoing
                &&& ev matches ClientConnectionEvent::Resolved { id: eid, result: eresult }
                    && eid as int == id && (eresult matches Err(e) && e.code as int == code
                    && e.message@ == message)
            } else {
                ev is Quiet && post == pre
            }
        },
    }
}

/// A connection to a separate agent process: sends agent-facing
/// requests, answers client-facing ones.
pub struct AgentConnection {
    conn: Connection,
}

impl View for AgentConnection {
    type V = ConnView;

    closed spec fn view(&self) -> ConnView {
        self.conn@
    }
}

impl AgentConnection {
    /// A fresh connection.
    pub fn new() -> (c: AgentConnection)
        ensures
            c@.next_id == 0,
            c@.pending == Seq::<(int, Seq<char>)>::empty(),
            c@.outgoing == Seq::<EnvVal>::empty(),
            wf_conn(c@),
    {
        AgentConnection { conn: Connection::new() }
    }

    /// How many requests still await a response.
    pub fn pending_len(&self) -> (n: usize)
        ensures
            n == self@.pending.len(),
    {
        self.conn.pending_len()
    }

    /// The next correlation id the allocator will hand out.
    pub fn next_id(&self) -> (n: i32)
        ensures
            n as int == self@.next_id,
    {
        self.conn.next_id()
    }

    /// Whether any frame waits to be written.
    pub fn has_outgoing(&self) -> (b: bool)
        ensures
            b == (self@.outgoing.len() > 0),
    {
        self.conn.has_outgoing()
    }

    /// Sends a typed request to the agent; the queued wire frame and the
    /// new pending entry carry the same fresh id.
    pub fn request(&mut self, params: AnyAgentRequest) -> (id: i32)
        requires
            wf_conn(old(self)@),
            old(self)@.next_id < i32::MAX,
        ensures
            request_step(
                old(self)@,
                final(self)@,
                agent_request_method(params),
                enc_agent_request(params),
                id as int,
            ),
            wf_conn(final(self)@),
    {
        let method = params.method_name();
        let pjson = params.to_json();
        self.conn.request(String::from_str(method), pjson)
    }

    /// Queues the handler's outcome for the agent's request `id`.
    pub fn respond(&mut self, id: i32, outcome: Result<AnyClientResult, String>)
        requires
            wf_conn(old(self)@),
        ensures
            respond_step(
                old(self)@,
                final(self)@,
                id as int,
                match outcome {
                    Ok(y) => Ok(enc_client_result(y)),
                    Err(m) => Err(m@),
                },
            ),
            wf_conn(final(self)@),
    {
        match outcome {
            Ok(y) => {
                let j = y.to_json();
                self.conn.respond(id, Ok(j));
            },
            Err(m) => {
                self.conn.respond(id, Err(m));
            },
        }
    }

    /// Takes the next frame to write, as one line without the newline.
    pub fn next_outgoing(&mut self) -> (r: Option<String>)
        requires
            wf_conn(old(self)@),
        ensures
            dequeue_step(
                old(self)@,
                final(self)@,
                match r {
                    Some(ref line) => Some(line@),
                    None => None,
                },
            ),
            wf_conn(final(self)@),
    {
        self.conn.next_outgoing()
    }

    /// Handles one received line.
    pub fn handle_line(&mut self, line: &str) -> (ev: AgentConnectionEvent)
        requires
            wf_conn(old(self)@),
        ensures
            agent_line_step(old(self)@, final(self)@, line@, ev),
            wf_conn(final(self)@),
    {
        match self.conn.handle_frame(line) {
            FrameEvent::Malformed => AgentConnectionEvent::Quiet,
            FrameEvent::Dropped => AgentConnectionEvent::Quiet,
            FrameEvent::Incoming { id, method, params } => {
                match AnyClientRequest::from_method_and_params(&method, &params) {
                    Ok(request) => AgentConnectionEvent::Incoming { id, request },
                    Err(message) => {
                        self.conn.respond(id, Err(message));
                        AgentConnectionEvent::Quiet
                    },
                }
            },
            FrameEvent::Response { id, method, result } => {
                match AnyAgentResult::from_method_and_result(&method, &result) {
                    Ok(y) => {
                        let taken = self.conn.take_pending(id);
                        AgentConnectionEvent::Resolved { id, result: Ok(y) }
                    },
                    Err(_) => AgentConnectionEvent::Quiet,
                }
            },
            FrameEvent::Failed { id, method, error } => AgentConnectionEvent::Resolved {
                id,
                result: Err(error),
            },
        }
    }

    /// Shuts the connection down, handing back every pending entry so
    /// the caller can resolve each with a connection-closed error.
    pub fn shutdown(&mut self) -> (drained: Vec<(i32, String)>)
        requires
            wf_conn(old(self)@),
        ensures
            crate::connection::shutdown_step(
                old(self)@,
                final(self)@,
                Seq::new(drained@.len(), |k: int| (drained@[k].0 as int, drained@[k].1@)),
            ),
            wf_conn(final(self)@),
    {
        self.conn.shutdown()
    }
}

/// A connection to a separate client process: sends client-facing
/// requests, answers agent-facing ones.
pub struct ClientConnection {
    conn: Connection,
}

impl View for ClientConnection {
    type V = ConnView;

    closed spec fn view(&self) -> ConnView {
        self.conn@
    }
}

impl ClientConnection {
    /// A fresh connection.
    pub fn new() -> (c: ClientConnection)
        ensures
            c@.next_id == 0,
            c@.pending == Seq::<(int, Seq<char>)>::empty(),
            c@.outgoing == Seq::<EnvVal>::empty(),
            wf_conn(c@),
    {
        ClientConnection { conn: Connection::new() }
    }

    /// How many requests still await a response.
    pub fn pending_len(&self) -> (n: usize)
        ensures
            n == self@.pending.len(),
    {
        self.conn.pending_len()
    }

    /// The next correlation id the allocator will hand out.
    pub fn next_id(&self) -> (n: i32)
        ensures
            n as int == self@.next_id,
    {
        self.conn.next_id()
    }

    /// Whether any frame waits to be written.
    pub fn has_outgoing(&self) -> (b: bool)
        ensures
            b == (self@.outgoing.len() > 0),
    {
        self.conn.has_outgoing()
    }

    /// Sends a typed request to the client; the queued wire frame and
    /// the new pending entry carry the same fresh id.
    pub fn request(&mut self, params: AnyClientRequest) -> (id: i32)
        requires
            wf_conn(old(self)@),
            old(self)@.next_id < i32::MAX,
        ensures
            request_step(
                old(self)@,
                final(self)@,
                client_request_method(params),
                enc_client_request(params),
                id as int,
            ),
            wf_conn(final(self)@),
    {
        let method = params.method_name();
        let pjson = params.to_json();
        self.conn.request(String::from_str(method), pjson)
    }

    /// Queues the handler's outcome for the client's request `id`.
    pub fn respond(&mut self, id: i32, outcome: Result<AnyAgentResult, String>)
        requires
            wf_conn(old(self)@),
        ensures
            respond_step(
                old(self)@,
                final(self)@,
                id as int,
                match outcome {
                    Ok(y) => Ok(enc_agent_result(y)),
                    Err(m) => Err(m@),
                },
            ),
            wf_conn(final(self)@),
    {
        match outcome {
            Ok(y) => {
                let j = y.to_json();
                self.conn.respond(id, Ok(j));
            },
            Err(m) => {
                self.conn.respond(id, Err(m));
            },
        }
    }

    /// Takes the next frame to write, as one line without the newline.
    pub fn next_outgoing(&mut self) -> (r: Option<String>)
        requires
            wf_conn(old(self)@),
        ensures
            dequeue_step(
                old(self)@,
                final(self)@,
                match r {
                    Some(ref line) => Some(line@),
                    None => None,
                },
            ),
            wf_conn(final(self)@),
    {
        self.conn.next_outgoing()
    }

    /// Handles one received line.
    pub fn handle_line(&mut self, line: &str) -> (ev: ClientConnectionEvent)
        requires
            wf_conn(old(self)@),
        ensures
            client_line_step(old(self)@, final(self)@, line@, ev),
            wf_conn(final(self)@),
    {
        match self.conn.handle_frame(line) {
            FrameEvent::Malformed => ClientConnectionEvent::Quiet,
            FrameEvent::Dropped => ClientConnectionEvent::Quiet,
            FrameEvent::Incoming { id, method, params } => {
                match AnyAgentRequest::from_method_and_params(&method, &params) {
                    Ok(request) => ClientConnectionEvent::Incoming { id, request },
                    Err(message) => {
                        self.conn.respond(id, Err(message));
                        ClientConnectionEvent::Quiet
                    },
                }
            },
            FrameEvent::Response { id, method, result } => {
                match AnyClientResult::from_method_and_result(&method, &result) {
                    Ok(y) => {
                        let taken = self.conn.take_pending(id);
                        ClientConnectionEvent::Resolved { id, result: Ok(y) }
                    },
                    Err(_) => ClientConnectionEvent::Quiet,
                }
            },
            FrameEvent::Failed { id, method, error } => ClientConnectionEvent::Resolved {
                id,
                result: Err(error),
            },
        }
    }

    /// Shuts the connection down, handing back every pending entry so
    /// the caller can resolve each with a connection-closed error.
    pub fn shutdown(&mut self) -> (drained: Vec<(i32, String)>)
        requires
            wf_conn(old(self)@),
        ensures
            crate::connection::shutdown_step(
                old(self)@,
                final(self)@,
                Seq::new(drained@.len(), |k: int| (drained@[k].0 as int, drained@[k].1@)),
            ),
            wf_conn(final(self)@),
    {
        self.conn.shutdown()
    }
}

/// The full round trip of a frame this library sends: serializing the
/// request envelope for any typed client-facing request and decoding
/// that line yields the same id, the request's method name, and the
/// request's exact payload.
pub proof fn theorem_client_request_frame_round_trip(id: int, x: AnyClientRequest)
    requires
        fits_i32(id),
    ensures
        decode_frame(
            ser(
                env_to_jval(
                    EnvVal::Request {
                        id,
                        method: client_request_method(x),
                        params: enc_client_request(x),
                    },
                ),
            ),
        ) == Some(
            EnvVal::Request { id, method: client_request_method(x), params: enc_client_request(x) },
        ),
{
    crate::schema::lemma_enc_client_request_wf(x);
    theorem_envelope_round_trip(
        EnvVal::Request { id, method: client_request_method(x), params: enc_client_request(x) },
    );
}

/// The full round trip of a frame this library sends: the mirror image
/// for typed agent-facing requests.
pub proof fn theorem_agent_request_frame_round_trip(id: int, x: AnyAgentRequest)
    requires
        fits_i32(id),
    ensures
        decode_frame(
            ser(
                env_to_jval(
                    EnvVal::Request {
                        id,
                        method: agent_request_method(x),
                        params: enc_agent_request(x),
                    },
                ),
            ),
        ) == Some(
            EnvVal::Request { id, method: agent_request_method(x), params: enc_agent_request(x) },
        ),
{
    crate::schema::lemma_enc_agent_request_wf(x);
    theorem_envelope_round_trip(
        EnvVal::Request { id, method: agent_request_method(x), params: enc_agent_request(x) },
    );
}

/// The full round trip of a success frame: serializing the response
/// envelope for any typed client response and decoding that line yields
/// the same id and the response's exact payload.
pub proof fn theorem_client_result_frame_round_trip(id: int, y: AnyClientResult)
    requires
        fits_i32(id),
    ensures
        decode_frame(
            ser(env_to_jval(EnvVal::OkResponse { id, result: enc_client_result(y) })),
        ) == Some(EnvVal::OkResponse { id, result: enc_client_result(y) }),
{
    crate::schema::lemma_enc_client_result_wf(y);
    theorem_envelope_round_trip(EnvVal::OkResponse { id, result: enc_client_result(y) });
}

/// The full round trip of a success frame: the mirror image for typed
/// agent responses.
pub proof fn theorem_agent_result_frame_round_trip(id: int, y: AnyAgentResult)
    requires
        fits_i32(id),
    ensures
        decode_frame(
            ser(env_to_jval(EnvVal::OkResponse { id, result: enc_agent_result(y) })),
        ) == Some(EnvVal::OkResponse { id, result: enc_agent_result(y) }),
{
    crate::schema::lemma_enc_agent_result_wf(y);
    theorem_envelope_round_trip(EnvVal::OkResponse { id, result: enc_agent_result(y) });
}

} // verus!
