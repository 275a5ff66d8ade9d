//! The method catalog: payload types, their wire codecs, the per-role
//! request and response sums, and the registry functions that drive
//! generic dispatch.
//!
//! Every payload has a `to_json` whose contract gives the wire shape
//! exactly: field names are `camelCase`, optional fields are omitted or
//! `null` as each record says, unit records are `null`. Every
//! `from_json` reads like the wire format asks: members are looked up
//! by key in any order, unknown members are ignored, and an absent
//! optional member equals a `null` one. The `lemma_canonical_*` proofs
//! tie the two directions together: whatever a codec writes, it reads
//! back as a value with the same wire form.

use vstd::prelude::*;
use crate::json::{Json, JsonVal, jval, jval_members, jval_seq, lemma_jval_members_model,
    lemma_jval_seq_model};
use crate::envelope::{obj_get, obj_find};

verus! {

broadcast use {vstd::std_specs::vec::group_vec_axioms, vstd::seq::group_seq_axioms,
    vstd::string::group_string_axioms};

/// The wire keys that share a record are pairwise distinct.
proof fn lemma_payload_keys_distinct()
    ensures
        "type"@ != "chunk"@,
        "type"@ != "markdown"@,
        "type"@ != "path"@ && "type"@ != "oldText"@ && "type"@ != "newText"@,
        "path"@ != "oldText"@ && "path"@ != "newText"@ && "oldText"@ != "newText"@,
        "type"@ != "command"@ && "type"@ != "rootCommand"@ && "type"@ != "description"@,
        "command"@ != "rootCommand"@ && "command"@ != "description"@,
        "rootCommand"@ != "description"@,
        "type"@ != "serverName"@ && "type"@ != "toolName"@ && "type"@ != "toolDisplayName"@,
        "serverName"@ != "toolName"@ && "serverName"@ != "toolDisplayName"@,
        "toolName"@ != "toolDisplayName"@,
        "serverName"@ != "description"@ && "toolName"@ != "description"@,
        "toolDisplayName"@ != "description"@,
        "type"@ != "urls"@ && "urls"@ != "description"@,
        "type"@ != "id"@ && "type"@ != "outcome"@ && "id"@ != "outcome"@,
        "threadId"@ != "label"@ && "threadId"@ != "icon"@ && "threadId"@ != "confirmation"@,
        "threadId"@ != "content"@ && "label"@ != "icon"@ && "label"@ != "confirmation"@,
        "label"@ != "content"@ && "icon"@ != "confirmation"@ && "icon"@ != "content"@,
        "confirmation"@ != "content"@,
        "threadId"@ != "message"@ && "threadId"@ != "chunk"@,
        "threadId"@ != "toolCallId"@ && "threadId"@ != "status"@,
        "toolCallId"@ != "status"@ && "toolCallId"@ != "content"@ && "status"@ != "content"@,
{
    reveal_strlit("type");
    reveal_strlit("chunk");
    reveal_strlit("markdown");
    reveal_strlit("path");
    reveal_strlit("oldText");
    reveal_strlit("newText");
    reveal_strlit("command");
    reveal_strlit("rootCommand");
    reveal_strlit("serverName");
    reveal_strlit("toolName");
    reveal_strlit("toolDisplayName");
    reveal_strlit("urls");
    reveal_strlit("description");
    reveal_strlit("id");
    reveal_strlit("outcome");
    reveal_strlit("threadId");
    reveal_strlit("label");
    reveal_strlit("icon");
    reveal_strlit("confirmation");
    reveal_strlit("content");
    reveal_strlit("message");
    reveal_strlit("chunks");
    reveal_strlit("toolCallId");
    reveal_strlit("status");
    assert("type"@.len() == 4 && "chunk"@.len() == 5 && "markdown"@.len() == 8);
    assert("path"@.len() == 4 && "oldText"@.len() == 7 && "newText"@.len() == 7);
    assert("command"@.len() == 7 && "rootCommand"@.len() == 11 && "description"@.len() == 11);
    assert("serverName"@.len() == 10 && "toolName"@.len() == 8 && "toolDisplayName"@.len() == 15);
    assert("urls"@.len() == 4 && "id"@.len() == 2 && "outcome"@.len() == 7);
    assert("threadId"@.len() == 8 && "label"@.len() == 5 && "icon"@.len() == 4);
    assert("confirmation"@.len() == 12 && "content"@.len() == 7 && "message"@.len() == 7);
    assert("chunks"@.len() == 6 && "toolCallId"@.len() == 10 && "status"@.len() == 6);
    assert("type"@[0] == 't' && "path"@[0] == 'p' && "urls"@[0] == 'u' && "icon"@[0] == 'i');
    assert("oldText"@[0] == 'o' && "newText"@[0] == 'n');
    assert("rootCommand"@[0] == 'r' && "description"@[0] == 'd');
    assert("command"@[0] == 'c' && "outcome"@[0] == 'o' && "content"@[0] == 'c');
    assert("message"@[0] == 'm');
    assert("content"@[1] == 'o' && "command"@[1] == 'o' && "content"@[2] == 'n');
    assert("command"@[2] == 'm');
}

/// How a decoder reads an optional string member: absent or `null`
/// stands for no value; otherwise the member must be a string.
pub open spec fn reads_opt_text(o: Option<JsonVal>, d: Option<String>) -> bool {
    match d {
        None => o is None || o == Some(JsonVal::Null),
        Some(s) => o == Some(JsonVal::Text(s@)),
    }
}

/// Reads the optional string bound to `key`: `None` in the result's
/// inner option when the member is absent or `null`.
fn opt_text_field(members: &Vec<(String, Json)>, key: &String) -> (r: Option<Option<String>>)
    ensures
        r matches Some(o) ==> reads_opt_text(obj_get(jval_members(members@), key@), o),
        r is None ==> forall|o: Option<String>|
            !reads_opt_text(obj_get(jval_members(members@), key@), o),
{
    match obj_find(members, key) {
        None => Some(None),
        Some(idx) => match &members[idx].1 {
            Json::Null => Some(None),
            Json::Text(s) => Some(Some(s.clone())),
            _ => None,
        },
    }
}

/// Reads the string bound to `key`, which must be present.
fn req_text_field(members: &Vec<(String, Json)>, key: &String) -> (r: Option<String>)
    ensures
        r matches Some(s) ==> obj_get(jval_members(members@), key@) == Some(JsonVal::Text(s@)),
        r is None ==> forall|s: Seq<char>|
            obj_get(jval_members(members@), key@) != Some(JsonVal::Text(s)),
{
    match obj_find(members, key) {
        None => None,
        Some(idx) => match &members[idx].1 {
            Json::Text(s) => Some(s.clone()),
            _ => None,
        },
    }
}

/// How a decoder reads an optional content member: absent or `null`
/// stands for no value.
pub open spec fn reads_opt_content(o: Option<JsonVal>, c: Option<ToolCallContent>) -> bool {
    match c {
        None => o is None || o == Some(JsonVal::Null),
        Some(cc) => (o matches Some(w) && reads_content(w, cc)),
    }
}

/// Reads the optional content bound to `key`: `None` in the result's
/// inner option when the member is absent or `null`.
fn opt_content_field(members: &Vec<(String, Json)>, key: &String) -> (r: Option<
    Option<ToolCallContent>,
>)
    ensures
        r matches Some(o) ==> reads_opt_content(obj_get(jval_members(members@), key@), o),
        r is None ==> forall|o: Option<ToolCallContent>|
            !reads_opt_content(obj_get(jval_members(members@), key@), o),
{
    match obj_find(members, key) {
        None => Some(None),
        Some(idx) => match &members[idx].1 {
            Json::Null => Some(None),
            _ => match ToolCallContent::from_json(&members[idx].1) {
                Some(c) => Some(Some(c)),
                None => None,
            },
        },
    }
}



/// An opaque thread identifier, a string on the wire.
#[derive(Debug, Clone, PartialEq, Eq, Hash)]
pub struct ThreadId(pub String);

/// The wire form of a thread identifier.
pub open spec fn enc_thread_id(t: ThreadId) -> JsonVal {
    JsonVal::Text(t.0@)
}

impl ThreadId {
    /// Writes this identifier as JSON.
    pub fn to_json(&self) -> (j: Json)
        ensures
            jval(j) == enc_thread_id(*self),
    {
        Json::Text(self.0.clone())
    }

    /// Reads an identifier back from JSON.
    pub fn from_json(j: &Json) -> (r: Option<ThreadId>)
        ensures
            r matches Some(x) ==> jval(*j) == enc_thread_id(x),
            r is None ==> forall|x: ThreadId| jval(*j) != enc_thread_id(x),
    {
        match j {
            Json::Text(s) => Some(ThreadId(s.clone())),
            _ => None,
        }
    }
}

/// A tool call identifier, an unsigned counter on the wire.
#[derive(Debug, Clone, Copy, PartialEq, Eq, Hash)]
pub struct ToolCallId(pub u64);

/// The wire form of a tool call identifier.
pub open spec fn enc_tool_call_id(t: ToolCallId) -> JsonVal {
    JsonVal::Int(t.0 as int)
}

impl ToolCallId {
    /// Writes this identifier as JSON.
    pub fn to_json(&self) -> (j: Json)
        ensures
            jval(j) == enc_tool_call_id(*self),
    {
        Json::Int(self.0 as i128)
    }

    /// Reads an identifier back from JSON.
    pub fn from_json(j: &Json) -> (r: Option<ToolCallId>)
        ensures
            r matches Some(x) ==> jval(*j) == enc_tool_call_id(x),
            r is None ==> forall|x: ToolCallId| jval(*j) != enc_tool_call_id(x),
    {
        match j {
            Json::Int(n) => {
                if *n >= 0 && *n <= u64::MAX as i128 {
                    Some(ToolCallId(*n as u64))
                } else {
                    None
                }
            },
            _ => None,
        }
    }
}

/// The closed set of icons a tool call may carry.
#[derive(Debug, Clone, Copy, PartialEq, Eq)]
pub enum Icon {
    FileSearch,
    Folder,
    Globe,
    Hammer,
    LightBulb,
    Pencil,
    Regex,
    Terminal,
}

/// The wire form of an icon: its `camelCase` name as a string.
pub open spec fn enc_icon(i: Icon) -> JsonVal {
    match i {
        Icon::FileSearch => JsonVal::Text("fileSearch"@),
        Icon::Folder => JsonVal::Text("folder"@),
        Icon::Globe => JsonVal::Text("globe"@),
        Icon::Hammer => JsonVal::Text("hammer"@),
        Icon::LightBulb => JsonVal::Text("lightBulb"@),
        Icon::Pencil => JsonVal::Text("pencil"@),
        Icon::Regex => JsonVal::Text("regex"@),
        Icon::Terminal => JsonVal::Text("terminal"@),
    }
}

impl Icon {
    /// Writes this icon as JSON.
    pub fn to_json(&self) -> (j: Json)
        ensures
            jval(j) == enc_icon(*self),
    {
        match self {
            Icon::FileSearch => Json::Text(String::from_str("fileSearch")),
            Icon::Folder => Json::Text(String::from_str("folder")),
            Icon::Globe => Json::Text(String::from_str("globe")),
            Icon::Hammer => Json::Text(String::from_str("hammer")),
            Icon::LightBulb => Json::Text(String::from_str("lightBulb")),
            Icon::Pencil => Json::Text(String::from_str("pencil")),
            Icon::Regex => Json::Text(String::from_str("regex")),
            Icon::Terminal => Json::Text(String::from_str("terminal")),
        }
    }

    /// Reads an icon back from JSON.
    pub fn from_json(j: &Json) -> (r: Option<Icon>)
        ensures
            r matches Some(x) ==> jval(*j) == enc_icon(x),
            r is None ==> forall|x: Icon| jval(*j) != enc_icon(x),
    {
        let t = match j {
            Json::Text(t) => t,
            _ => {
                return None;
            },
        };
        let r = if t.eq(&String::from_str("fileSearch")) {
            Some(Icon::FileSearch)
        } else if t.eq(&String::from_str("folder")) {
            Some(Icon::Folder)
        } else if t.eq(&String::from_str("globe")) {
            Some(Icon::Globe)
        } else if t.eq(&String::from_str("hammer")) {
            Some(Icon::Hammer)
        } else if t.eq(&String::from_str("lightBulb")) {
            Some(Icon::LightBulb)
        } else if t.eq(&String::from_str("pencil")) {
            Some(Icon::Pencil)
        } else if t.eq(&String::from_str("regex")) {
            Some(Icon::Regex)
        } else if t.eq(&String::from_str("terminal")) {
            Some(Icon::Terminal)
        } else {
            None
        };
        proof {
            if r is None {
                assert forall|x: Icon| jval(*j) != enc_icon(x) by {
                    match x {
                        Icon::FileSearch => {},
                        Icon::Folder => {},
                        Icon::Globe => {},
                        Icon::Hammer => {},
                        Icon::LightBulb => {},
                        Icon::Pencil => {},
                        Icon::Regex => {},
                        Icon::Terminal => {},
                    }
                }
            }
        }
        r
    }
}

/// What the user decided about a requested tool call.
#[derive(Debug, Clone, Copy, PartialEq, Eq)]
pub enum ToolCallConfirmationOutcome {
    Allow,
    AlwaysAllow,
    AlwaysAllowMcpServer,
    AlwaysAllowTool,
    Reject,
    Cancel,
}

/// The wire form of an outcome: its `camelCase` name as a string.
pub open spec fn enc_outcome(o: ToolCallConfirmationOutcome) -> JsonVal {
    match o {
        ToolCallConfirmationOutcome::Allow => JsonVal::Text("allow"@),
        ToolCallConfirmationOutcome::AlwaysAllow => JsonVal::Text("alwaysAllow"@),
        ToolCallConfirmationOutcome::AlwaysAllowMcpServer => JsonVal::Text("alwaysAllowMcpServer"@),
        ToolCallConfirmationOutcome::AlwaysAllowTool => JsonVal::Text("alwaysAllowTool"@),
        ToolCallConfirmationOutcome::Reject => JsonVal::Text("reject"@),
        ToolCallConfirmationOutcome::Cancel => JsonVal::Text("cancel"@),
    }
}

impl ToolCallConfirmationOutcome {
    /// Writes this outcome as JSON.
    pub fn to_json(&self) -> (j: Json)
        ensures
            jval(j) == enc_outcome(*self),
    {
        match self {
            ToolCallConfirmationOutcome::Allow => Json::Text(String::from_str("allow")),
            ToolCallConfirmationOutcome::AlwaysAllow => Json::Text(String::from_str("alwaysAllow")),
            ToolCallConfirmationOutcome::AlwaysAllowMcpServer => Json::Text(
                String::from_str("alwaysAllowMcpServer"),
            ),
            ToolCallConfirmationOutcome::AlwaysAllowTool => Json::Text(
                String::from_str("alwaysAllowTool"),
            ),
            ToolCallConfirmationOutcome::Reject => Json::Text(String::from_str("reject")),
            ToolCallConfirmationOutcome::Cancel => Json::Text(String::from_str("cancel")),
        }
    }

    /// Reads an outcome back from JSON.
    pub fn from_json(j: &Json) -> (r: Option<ToolCallConfirmationOutcome>)
        ensures
            r matches Some(x) ==> jval(*j) == enc_outcome(x),
            r is None ==> forall|x: ToolCallConfirmationOutcome| jval(*j) != enc_outcome(x),
    {
        let t = match j {
            Json::Text(t) => t,
            _ => {
                return None;
            },
        };
        let r = if t.eq(&String::from_str("allow")) {
            Some(ToolCallConfirmationOutcome::Allow)
        } else if t.eq(&String::from_str("alwaysAllow")) {
            Some(ToolCallConfirmationOutcome::AlwaysAllow)
        } else if t.eq(&String::from_str("alwaysAllowMcpServer")) {
            Some(ToolCallConfirmationOutcome::AlwaysAllowMcpServer)
        } else if t.eq(&String::from_str("alwaysAllowTool")) {
            Some(ToolCallConfirmationOutcome::AlwaysAllowTool)
        } else if t.eq(&String::from_str("reject")) {
            Some(ToolCallConfirmationOutcome::Reject)
        } else if t.eq(&String::from_str("cancel")) {
            Some(ToolCallConfirmationOutcome::Cancel)
        } else {
            None
        };
        proof {
            if r is None {
                assert forall|x: ToolCallConfirmationOutcome| jval(*j) != enc_outcome(x) by {
                    match x {
                        ToolCallConfirmationOutcome::Allow => {},
                        ToolCallConfirmationOutcome::AlwaysAllow => {},
                        ToolCallConfirmationOutcome::AlwaysAllowMcpServer => {},
                        ToolCallConfirmationOutcome::AlwaysAllowTool => {},
                        ToolCallConfirmationOutcome::Reject => {},
                        ToolCallConfirmationOutcome::Cancel => {},
                    }
                }
            }
        }
        r
    }
}

/// Where a pushed tool call stands.
#[derive(Debug, Clone, Copy, PartialEq, Eq)]
pub enum ToolCallStatus {
    Running,
    Finished,
    Error,
}

/// The wire form of a status: its `camelCase` name as a string.
pub open spec fn enc_status(s: ToolCallStatus) -> JsonVal {
    match s {
        ToolCallStatus::Running => JsonVal::Text("running"@),
        ToolCallStatus::Finished => JsonVal::Text("finished"@),
        ToolCallStatus::Error => JsonVal::Text("error"@),
    }
}

impl ToolCallStatus {
    /// Writes this status as JSON.
    pub fn to_json(&self) -> (j: Json)
        ensures
            jval(j) == enc_status(*self),
    {
        match self {
            ToolCallStatus::Running => Json::Text(String::from_str("running")),
            ToolCallStatus::Finished => Json::Text(String::from_str("finished")),
            ToolCallStatus::Error => Json::Text(String::from_str("error")),
        }
    }

    /// Reads a status back from JSON.
    pub fn from_json(j: &Json) -> (r: Option<ToolCallStatus>)
        ensures
            r matches Some(x) ==> jval(*j) == enc_status(x),
            r is None ==> forall|x: ToolCallStatus| jval(*j) != enc_status(x),
    {
        let t = match j {
            Json::Text(t) => t,
            _ => {
                return None;
            },
        };
        let r = if t.eq(&String::from_str("running")) {
            Some(ToolCallStatus::Running)
        } else if t.eq(&String::from_str("finished")) {
            Some(ToolCallStatus::Finished)
        } else if t.eq(&String::from_str("error")) {
            Some(ToolCallStatus::Error)
        } else {
            None
        };
        proof {
            if r is None {
                assert forall|x: ToolCallStatus| jval(*j) != enc_status(x) by {
                    match x {
                        ToolCallStatus::Running => {},
                        ToolCallStatus::Finished => {},
                        ToolCallStatus::Error => {},
                    }
                }
            }
        }
        r
    }
}

/// The wire form of every unit record: `null`.
pub open spec fn enc_unit() -> JsonVal {
    JsonVal::Null
}

/// The parameters of `initialize`, an empty record.
#[derive(Debug, Clone, Copy, PartialEq, Eq)]
pub struct InitializeParams;

/// The parameters of `authenticate`, an empty record.
#[derive(Debug, Clone, Copy, PartialEq, Eq)]
pub struct AuthenticateParams;

/// The response to `authenticate`, an empty record.
#[derive(Debug, Clone, Copy, PartialEq, Eq)]
pub struct AuthenticateResponse;

/// The parameters of `createThread`, an empty record.
#[derive(Debug, Clone, Copy, PartialEq, Eq)]
pub struct CreateThreadParams;

/// The response to `openThread`, an empty record.
#[derive(Debug, Clone, Copy, PartialEq, Eq)]
pub struct OpenThreadResponse;

/// The response to `sendUserMessage`, an empty record.
#[derive(Debug, Clone, Copy, PartialEq, Eq)]
pub struct SendUserMessageResponse;

/// The response to `streamAssistantMessageChunk`, an empty record.
#[derive(Debug, Clone, Copy, PartialEq, Eq)]
pub struct StreamAssistantMessageChunkResponse;

/// The response to `updateToolCall`, an empty record.
#[derive(Debug, Clone, Copy, PartialEq, Eq)]
pub struct UpdateToolCallResponse;

/// The response to `cancelSendMessage`, an empty record.
#[derive(Debug, Clone, Copy, PartialEq, Eq)]
pub struct CancelSendMessageResponse;

/// Writes a unit record as JSON.
pub fn unit_to_json() -> (j: Json)
    ensures
        jval(j) == enc_unit(),
{
    Json::Null
}

/// Reads a unit record back from JSON: only `null` is one.
pub fn unit_from_json(j: &Json) -> (r: bool)
    ensures
        r <==> jval(*j) == enc_unit(),
{
    match j {
        Json::Null => true,
        _ => false,
    }
}

/// The response to `initialize`.
#[derive(Debug, Clone, Copy, PartialEq, Eq)]
pub struct InitializeResponse {
    pub is_authenticated: bool,
}

/// The wire form of an `initialize` response.
pub open spec fn enc_initialize_response(x: InitializeResponse) -> JsonVal {
    JsonVal::Obj(seq![("isAuthenticated"@, JsonVal::Bool(x.is_authenticated))])
}

/// How a decoder reads an `initialize` response: by key, in any member
/// order, unknown members ignored.
pub open spec fn reads_initialize_response(v: JsonVal, x: InitializeResponse) -> bool {
    v matches JsonVal::Obj(ms) && obj_get(ms, "isAuthenticated"@) == Some(
        JsonVal::Bool(x.is_authenticated),
    )
}

/// The encoding of an `initialize` response reads back as exactly that
/// record: decoding is total and single-valued on canonical input.
pub proof fn lemma_canonical_initialize_response(x: InitializeResponse)
    ensures
        reads_initialize_response(enc_initialize_response(x), x),
        forall|y: InitializeResponse|
            reads_initialize_response(enc_initialize_response(x), y)
                ==> enc_initialize_response(y) == enc_initialize_response(x),
{
    reveal_with_fuel(obj_get, 3);
    assert forall|y: InitializeResponse|
        reads_initialize_response(enc_initialize_response(x), y)
            implies enc_initialize_response(y) == enc_initialize_response(x) by {
        assert(enc_initialize_response(y) =~~= enc_initialize_response(x));
    }
}

impl InitializeResponse {
    /// Writes this record as JSON.
    pub fn to_json(&self) -> (j: Json)
        ensures
            jval(j) == enc_initialize_response(*self),
    {
        let mut members: Vec<(String, Json)> = Vec::new();
        members.push((String::from_str("isAuthenticated"), Json::Bool(self.is_authenticated)));
        proof {
            lemma_jval_members_model(members@);
            assert(jval_members(members@) =~= seq![
                ("isAuthenticated"@, JsonVal::Bool(self.is_authenticated)),
            ]);
        }
        Json::Obj(members)
    }

    /// Reads a record back from JSON: by key, in any member order,
    /// unknown members ignored.
    pub fn from_json(j: &Json) -> (r: Option<InitializeResponse>)
        ensures
            r matches Some(x) ==> reads_initialize_response(jval(*j), x),
            r is None ==> forall|x: InitializeResponse| !reads_initialize_response(jval(*j), x),
    {
        let members = match j {
            Json::Obj(members) => members,
            _ => {
                return None;
            },
        };
        let idx = match obj_find(members, &String::from_str("isAuthenticated")) {
            None => {
                return None;
            },
            Some(idx) => idx,
        };
        match &members[idx].1 {
            Json::Bool(b) => Some(InitializeResponse { is_authenticated: *b }),
            _ => None,
        }
    }
}

/// The response to `createThread`.
#[derive(Debug, Clone, PartialEq, Eq)]
pub struct CreateThreadResponse {
    pub thread_id: ThreadId,
}

/// The wire form of a `createThread` response.
pub open spec fn enc_create_thread_response(x: CreateThreadResponse) -> JsonVal {
    JsonVal::Obj(seq![("threadId"@, enc_thread_id(x.thread_id))])
}

/// How a decoder reads CreateThreadResponse: by key, in any member order, unknown members
/// ignored.
pub open spec fn reads_create_thread_response(v: JsonVal, x: CreateThreadResponse) -> bool {
    v matches JsonVal::Obj(ms) && obj_get(ms, "threadId"@) == Some(enc_thread_id(x.thread_id))
}

/// The encoding reads back as exactly that record.
pub proof fn lemma_canonical_create_thread_response(x: CreateThreadResponse)
    ensures
        reads_create_thread_response(enc_create_thread_response(x), x),
        forall|y: CreateThreadResponse| reads_create_thread_response(enc_create_thread_response(x), y) ==> enc_create_thread_response(y) == enc_create_thread_response(x),
{
    reveal_with_fuel(obj_get, 3);
    assert forall|y: CreateThreadResponse| reads_create_thread_response(enc_create_thread_response(x), y) implies enc_create_thread_response(y) == enc_create_thread_response(x) by {
        assert(enc_create_thread_response(y) =~~= enc_create_thread_response(x));
    }
}

impl CreateThreadResponse {
    /// Writes this record as JSON.
    pub fn to_json(&self) -> (j: Json)
        ensures
            jval(j) == enc_create_thread_response(*self),
    {
        let mut members: Vec<(String, Json)> = Vec::new();
        members.push((String::from_str("threadId"), self.thread_id.to_json()));
        proof {
            lemma_jval_members_model(members@);
            assert(jval_members(members@) =~= seq![("threadId"@, enc_thread_id(self.thread_id))]);
        }
        Json::Obj(members)
    }

    /// Reads a record back from JSON: by key, in any member order,
    /// unknown members ignored.
    pub fn from_json(j: &Json) -> (r: Option<CreateThreadResponse>)
        ensures
            r matches Some(x) ==> reads_create_thread_response(jval(*j), x),
            r is None ==> forall|x: CreateThreadResponse| !reads_create_thread_response(jval(*j), x),
    {
        let members = match j {
            Json::Obj(members) => members,
            _ => {
                return None;
            },
        };
        let idx = match obj_find(members, &String::from_str("threadId")) {
            None => {
                return None;
            },
            Some(idx) => idx,
        };
        match ThreadId::from_json(&members[idx].1) {
            Some(thread_id) => Some(CreateThreadResponse { thread_id }),
            None => None,
        }
    }
}

/// The parameters of `openThread`.
#[derive(Debug, Clone, PartialEq, Eq)]
pub struct OpenThreadParams {
    pub thread_id: ThreadId,
}

/// The wire form of `openThread` parameters.
pub open spec fn enc_open_thread_params(x: OpenThreadParams) -> JsonVal {
    JsonVal::Obj(seq![("threadId"@, enc_thread_id(x.thread_id))])
}

/// How a decoder reads OpenThreadParams: by key, in any member order, unknown members
/// ignored.
pub open spec fn reads_open_thread_params(v: JsonVal, x: OpenThreadParams) -> bool {
    v matches JsonVal::Obj(ms) && obj_get(ms, "threadId"@) == Some(enc_thread_id(x.thread_id))
}

/// The encoding reads back as exactly that record.
pub proof fn lemma_canonical_open_thread_params(x: OpenThreadParams)
    ensures
        reads_open_thread_params(enc_open_thread_params(x), x),
        forall|y: OpenThreadParams| reads_open_thread_params(enc_open_thread_params(x), y) ==> enc_open_thread_params(y) == enc_open_thread_params(x),
{
    reveal_with_fuel(obj_get, 3);
    assert forall|y: OpenThreadParams| reads_open_thread_params(enc_open_thread_params(x), y) implies enc_open_thread_params(y) == enc_open_thread_params(x) by {
        assert(enc_open_thread_params(y) =~~= enc_open_thread_params(x));
    }
}

impl OpenThreadParams {
    /// Writes this record as JSON.
    pub fn to_json(&self) -> (j: Json)
        ensures
            jval(j) == enc_open_thread_params(*self),
    {
        let mut members: Vec<(String, Json)> = Vec::new();
        members.push((String::from_str("threadId"), self.thread_id.to_json()));
        proof {
            lemma_jval_members_model(members@);
            assert(jval_members(members@) =~= seq![("threadId"@, enc_thread_id(self.thread_id))]);
        }
        Json::Obj(members)
    }

    /// Reads a record back from JSON: by key, in any member order,
    /// unknown members ignored.
    pub fn from_json(j: &Json) -> (r: Option<OpenThreadParams>)
        ensures
            r matches Some(x) ==> reads_open_thread_params(jval(*j), x),
            r is None ==> forall|x: OpenThreadParams| !reads_open_thread_params(jval(*j), x),
    {
        let members = match j {
            Json::Obj(members) => members,
            _ => {
                return None;
            },
        };
        let idx = match obj_find(members, &String::from_str("threadId")) {
            None => {
                return None;
            },
            Some(idx) => idx,
        };
        match ThreadId::from_json(&members[idx].1) {
            Some(thread_id) => Some(OpenThreadParams { thread_id }),
            None => None,
        }
    }
}

/// The parameters of `cancelSendMessage`.
#[derive(Debug, Clone, PartialEq, Eq)]
pub struct CancelSendMessageParams {
    pub thread_id: ThreadId,
}

/// The wire form of `cancelSendMessage` parameters.
pub open spec fn enc_cancel_send_message_params(x: CancelSendMessageParams) -> JsonVal {
    JsonVal::Obj(seq![("threadId"@, enc_thread_id(x.thread_id))])
}

/// How a decoder reads CancelSendMessageParams: by key, in any member order, unknown members
/// ignored.
pub open spec fn reads_cancel_send_message_params(v: JsonVal, x: CancelSendMessageParams) -> bool {
    v matches JsonVal::Obj(ms) && obj_get(ms, "threadId"@) == Some(enc_thread_id(x.thread_id))
}

/// The encoding reads back as exactly that record.
pub proof fn lemma_canonical_cancel_send_message_params(x: CancelSendMessageParams)
    ensures
        reads_cancel_send_message_params(enc_cancel_send_message_params(x), x),
        forall|y: CancelSendMessageParams| reads_cancel_send_message_params(enc_cancel_send_message_params(x), y) ==> enc_cancel_send_message_params(y) == enc_cancel_send_message_params(x),
{
    reveal_with_fuel(obj_get, 3);
    assert forall|y: CancelSendMessageParams| reads_cancel_send_message_params(enc_cancel_send_message_params(x), y) implies enc_cancel_send_message_params(y) == enc_cancel_send_message_params(x) by {
        assert(enc_cancel_send_message_params(y) =~~= enc_cancel_send_message_params(x));
    }
}

impl CancelSendMessageParams {
    /// Writes this record as JSON.
    pub fn to_json(&self) -> (j: Json)
        ensures
            jval(j) == enc_cancel_send_message_params(*self),
    {
        let mut members: Vec<(String, Json)> = Vec::new();
        members.push((String::from_str("threadId"), self.thread_id.to_json()));
        proof {
            lemma_jval_members_model(members@);
            assert(jval_members(members@) =~= seq![("threadId"@, enc_thread_id(self.thread_id))]);
        }
        Json::Obj(members)
    }

    /// Reads a record back from JSON: by key, in any member order,
    /// unknown members ignored.
    pub fn from_json(j: &Json) -> (r: Option<CancelSendMessageParams>)
        ensures
            r matches Some(x) ==> reads_cancel_send_message_params(jval(*j), x),
            r is None ==> forall|x: CancelSendMessageParams| !reads_cancel_send_message_params(jval(*j), x),
    {
        let members = match j {
            Json::Obj(members) => members,
            _ => {
                return None;
            },
        };
        let idx = match obj_find(members, &String::from_str("threadId")) {
            None => {
                return None;
            },
            Some(idx) => idx,
        };
        match ThreadId::from_json(&members[idx].1) {
            Some(thread_id) => Some(CancelSendMessageParams { thread_id }),
            None => None,
        }
    }
}

/// One piece of a user message, tagged by its `type` field.
#[derive(Debug, Clone, PartialEq, Eq)]
pub enum UserMessageChunk {
    Text { chunk: String },
}

/// The wire form of a user message chunk.
pub open spec fn enc_user_chunk(c: UserMessageChunk) -> JsonVal {
    match c {
        UserMessageChunk::Text { chunk } => JsonVal::Obj(
            seq![("type"@, JsonVal::Text("text"@)), ("chunk"@, JsonVal::Text(chunk@))],
        ),
    }
}

/// How a decoder reads a user message chunk: by key, in any member
/// order, unknown members ignored.
pub open spec fn reads_user_chunk(v: JsonVal, c: UserMessageChunk) -> bool {
    match c {
        UserMessageChunk::Text { chunk } => v matches JsonVal::Obj(ms) && obj_get(ms, "type"@)
            == Some(JsonVal::Text("text"@)) && obj_get(ms, "chunk"@) == Some(
            JsonVal::Text(chunk@),
        ),
    }
}

/// The encoding of a user message chunk reads back as exactly that
/// chunk.
pub proof fn lemma_canonical_user_chunk(c: UserMessageChunk)
    ensures
        reads_user_chunk(enc_user_chunk(c), c),
        forall|y: UserMessageChunk|
            reads_user_chunk(enc_user_chunk(c), y) ==> enc_user_chunk(y) == enc_user_chunk(c),
{
    reveal_with_fuel(obj_get, 4);
    lemma_payload_keys_distinct();
    assert forall|y: UserMessageChunk|
        reads_user_chunk(enc_user_chunk(c), y) implies enc_user_chunk(y) == enc_user_chunk(c) by {
        assert(enc_user_chunk(y) =~~= enc_user_chunk(c));
    }
}

impl UserMessageChunk {
    /// Writes this chunk as JSON.
    pub fn to_json(&self) -> (j: Json)
        ensures
            jval(j) == enc_user_chunk(*self),
    {
        match self {
            UserMessageChunk::Text { chunk } => {
                let mut members: Vec<(String, Json)> = Vec::new();
                members.push((String::from_str("type"), Json::Text(String::from_str("text"))));
                members.push((String::from_str("chunk"), Json::Text(chunk.clone())));
                proof {
                    lemma_jval_members_model(members@);
                    assert(jval_members(members@) =~= seq![
                        ("type"@, JsonVal::Text("text"@)),
                        ("chunk"@, JsonVal::Text(chunk@)),
                    ]);
                }
                Json::Obj(members)
            },
        }
    }

    /// Reads a chunk back from JSON: by key, in any member order,
    /// unknown members ignored.
    pub fn from_json(j: &Json) -> (r: Option<UserMessageChunk>)
        ensures
            r matches Some(x) ==> reads_user_chunk(jval(*j), x),
            r is None ==> forall|x: UserMessageChunk| !reads_user_chunk(jval(*j), x),
    {
        let members = match j {
            Json::Obj(members) => members,
            _ => {
                return None;
            },
        };
        let tag_ok = match obj_find(members, &String::from_str("type")) {
            None => false,
            Some(idx) => match &members[idx].1 {
                Json::Text(t) => t.eq(&String::from_str("text")),
                _ => false,
            },
        };
        if !tag_ok {
            return None;
        }
        let idx = match obj_find(members, &String::from_str("chunk")) {
            None => {
                return None;
            },
            Some(idx) => idx,
        };
        match &members[idx].1 {
            Json::Text(s) => Some(UserMessageChunk::Text { chunk: s.clone() }),
            _ => None,
        }
    }
}

/// One piece of an assistant message, tagged by its `type` field.
#[derive(Debug, Clone, PartialEq, Eq)]
pub enum AssistantMessageChunk {
    Text { chunk: String },
    Thought { chunk: String },
}

/// The wire form of an assistant message chunk.
pub open spec fn enc_assistant_chunk(c: AssistantMessageChunk) -> JsonVal {
    match c {
        AssistantMessageChunk::Text { chunk } => JsonVal::Obj(
            seq![("type"@, JsonVal::Text("text"@)), ("chunk"@, JsonVal::Text(chunk@))],
        ),
        AssistantMessageChunk::Thought { chunk } => JsonVal::Obj(
            seq![("type"@, JsonVal::Text("thought"@)), ("chunk"@, JsonVal::Text(chunk@))],
        ),
    }
}

/// How a decoder reads an assistant message chunk: by key, in any
/// member order, unknown members ignored.
pub open spec fn reads_assistant_chunk(v: JsonVal, c: AssistantMessageChunk) -> bool {
    match c {
        AssistantMessageChunk::Text { chunk } => v matches JsonVal::Obj(ms) && obj_get(ms, "type"@)
            == Some(JsonVal::Text("text"@)) && obj_get(ms, "chunk"@) == Some(
            JsonVal::Text(chunk@),
        ),
        AssistantMessageChunk::Thought { chunk } => v matches JsonVal::Obj(ms) && obj_get(
            ms,
            "type"@,
        ) == Some(JsonVal::Text("thought"@)) && obj_get(ms, "chunk"@) == Some(
            JsonVal::Text(chunk@),
        ),
    }
}

/// The two assistant chunk tags are distinct.
proof fn lemma_chunk_tags_distinct()
    ensures
        "text"@ != "thought"@,
{
    reveal_strlit("text");
    reveal_strlit("thought");
    assert("text"@.len() == 4);
    assert("thought"@.len() == 7);
}

/// The encoding of an assistant message chunk reads back as exactly
/// that chunk.
pub proof fn lemma_canonical_assistant_chunk(c: AssistantMessageChunk)
    ensures
        reads_assistant_chunk(enc_assistant_chunk(c), c),
        forall|y: AssistantMessageChunk|
            reads_assistant_chunk(enc_assistant_chunk(c), y) ==> enc_assistant_chunk(y)
                == enc_assistant_chunk(c),
{
    reveal_with_fuel(obj_get, 4);
    lemma_payload_keys_distinct();
    lemma_chunk_tags_distinct();
    assert forall|y: AssistantMessageChunk|
        reads_assistant_chunk(enc_assistant_chunk(c), y) implies enc_assistant_chunk(y)
            == enc_assistant_chunk(c) by {
        assert(enc_assistant_chunk(y) =~~= enc_assistant_chunk(c));
    }
}

impl AssistantMessageChunk {
    /// Writes this chunk as JSON.
    pub fn to_json(&self) -> (j: Json)
        ensures
            jval(j) == enc_assistant_chunk(*self),
    {
        match self {
            AssistantMessageChunk::Text { chunk } => {
                let mut members: Vec<(String, Json)> = Vec::new();
                members.push((String::from_str("type"), Json::Text(String::from_str("text"))));
                members.push((String::from_str("chunk"), Json::Text(chunk.clone())));
                proof {
                    lemma_jval_members_model(members@);
                    assert(jval_members(members@) =~= seq![
                        ("type"@, JsonVal::Text("text"@)),
                        ("chunk"@, JsonVal::Text(chunk@)),
                    ]);
                }
                Json::Obj(members)
            },
            AssistantMessageChunk::Thought { chunk } => {
                let mut members: Vec<(String, Json)> = Vec::new();
                members.push((String::from_str("type"), Json::Text(String::from_str("thought"))));
                members.push((String::from_str("chunk"), Json::Text(chunk.clone())));
                proof {
                    lemma_jval_members_model(members@);
                    assert(jval_members(members@) =~= seq![
                        ("type"@, JsonVal::Text("thought"@)),
                        ("chunk"@, JsonVal::Text(chunk@)),
                    ]);
                }
                Json::Obj(members)
            },
        }
    }

    /// Reads a chunk back from JSON: by key, in any member order,
    /// unknown members ignored.
    pub fn from_json(j: &Json) -> (r: Option<AssistantMessageChunk>)
        ensures
            r matches Some(x) ==> reads_assistant_chunk(jval(*j), x),
            r is None ==> forall|x: AssistantMessageChunk| !reads_assistant_chunk(jval(*j), x),
    {
        let members = match j {
            Json::Obj(members) => members,
            _ => {
                return None;
            },
        };
        // true for `text`, false for `thought`
        let tag: Option<bool> = match obj_find(members, &String::from_str("type")) {
            None => None,
            Some(idx) => match &members[idx].1 {
                Json::Text(t) => {
                    if t.eq(&String::from_str("text")) {
                        Some(true)
                    } else if t.eq(&String::from_str("thought")) {
                        Some(false)
                    } else {
                        None
                    }
                },
                _ => None,
            },
        };
        let is_text = match tag {
            None => {
                return None;
            },
            Some(b) => b,
        };
        let idx = match obj_find(members, &String::from_str("chunk")) {
            None => {
                return None;
            },
            Some(idx) => idx,
        };
        match &members[idx].1 {
            Json::Text(s) => {
                if is_text {
                    Some(AssistantMessageChunk::Text { chunk: s.clone() })
                } else {
                    Some(AssistantMessageChunk::Thought { chunk: s.clone() })
                }
            },
            _ => None,
        }
    }
}

/// A whole user message: its chunks in order.
#[derive(Debug, Clone, PartialEq, Eq)]
pub struct UserMessage {
    pub chunks: Vec<UserMessageChunk>,
}

/// The wire forms of a row of user message chunks.
pub open spec fn enc_user_chunks(cs: Seq<UserMessageChunk>) -> Seq<JsonVal>
    decreases cs,
{
    if cs.len() == 0 {
        Seq::empty()
    } else {
        seq![enc_user_chunk(cs.first())] + enc_user_chunks(cs.drop_first())
    }
}

/// The encoded row, chunk by chunk.
pub proof fn lemma_enc_user_chunks_model(cs: Seq<UserMessageChunk>)
    ensures
        enc_user_chunks(cs).len() == cs.len(),
        forall|k: int|
            0 <= k < cs.len() ==> #[trigger] enc_user_chunks(cs)[k] == enc_user_chunk(cs[k]),
    decreases cs,
{
    if cs.len() > 0 {
        lemma_enc_user_chunks_model(cs.drop_first());
        assert forall|k: int|
            0 <= k < cs.len() implies #[trigger] enc_user_chunks(cs)[k] == enc_user_chunk(
            cs[k],
        ) by {
            if k > 0 {
                assert(enc_user_chunks(cs)[k] == enc_user_chunks(cs.drop_first())[k - 1]);
                assert(cs.drop_first()[k - 1] == cs[k]);
            }
        }
    }
}

/// The wire form of a user message.
pub open spec fn enc_user_message(m: UserMessage) -> JsonVal {
    JsonVal::Obj(seq![("chunks"@, JsonVal::Arr(enc_user_chunks(m.chunks@)))])
}

/// How a decoder reads a user message: the `chunks` member is looked up
/// by key and its elements read in order.
pub open spec fn reads_user_message(v: JsonVal, m: UserMessage) -> bool {
    v matches JsonVal::Obj(ms) && (obj_get(ms, "chunks"@) matches Some(JsonVal::Arr(items))
        && items.len() == m.chunks@.len() && (forall|k: int|
        0 <= k < items.len() ==> reads_user_chunk(#[trigger] items[k], m.chunks@[k])))
}

/// The encoding of a user message reads back as exactly that message.
pub proof fn lemma_canonical_user_message(m: UserMessage)
    ensures
        reads_user_message(enc_user_message(m), m),
        forall|y: UserMessage|
            reads_user_message(enc_user_message(m), y) ==> enc_user_message(y)
                == enc_user_message(m),
{
    reveal_with_fuel(obj_get, 3);
    lemma_enc_user_chunks_model(m.chunks@);
    assert forall|k: int|
        0 <= k < enc_user_chunks(m.chunks@).len() implies reads_user_chunk(
        #[trigger] enc_user_chunks(m.chunks@)[k],
        m.chunks@[k],
    ) by {
        lemma_canonical_user_chunk(m.chunks@[k]);
    }
    assert forall|y: UserMessage|
        reads_user_message(enc_user_message(m), y) implies enc_user_message(y)
            == enc_user_message(m) by {
        lemma_enc_user_chunks_model(y.chunks@);
        assert forall|k: int|
            0 <= k < y.chunks@.len() implies #[trigger] enc_user_chunks(y.chunks@)[k]
                == enc_user_chunks(m.chunks@)[k] by {
            assert(reads_user_chunk(enc_user_chunks(m.chunks@)[k], y.chunks@[k]));
            assert(enc_user_chunks(m.chunks@)[k] == enc_user_chunk(m.chunks@[k]));
            lemma_canonical_user_chunk(m.chunks@[k]);
        }
        assert(enc_user_chunks(y.chunks@) =~= enc_user_chunks(m.chunks@));
        assert(enc_user_message(y) =~~= enc_user_message(m));
    }
}

impl UserMessage {
    /// Writes this message as JSON.
    pub fn to_json(&self) -> (j: Json)
        ensures
            jval(j) == enc_user_message(*self),
    {
        let mut items: Vec<Json> = Vec::new();
        let mut i: usize = 0;
        proof {
            lemma_enc_user_chunks_model(self.chunks@);
        }
        while i < self.chunks.len()
            invariant
                i <= self.chunks@.len(),
                enc_user_chunks(self.chunks@).len() == self.chunks@.len(),
                forall|k: int|
                    0 <= k < self.chunks@.len() ==> #[trigger] enc_user_chunks(self.chunks@)[k]
                        == enc_user_chunk(self.chunks@[k]),
                jval_seq(items@) =~= enc_user_chunks(self.chunks@).take(i as int),
            decreases self.chunks@.len() - i,
        {
            let ghost pre = items@;
            let cj = self.chunks[i].to_json();
            items.push(cj);
            proof {
                crate::json::lemma_jval_seq_push(pre, cj);
                assert(jval_seq(items@) =~= enc_user_chunks(self.chunks@).take(i + 1 as int));
            }
            i = i + 1;
        }
        let ghost items_model = jval_seq(items@);
        proof {
            assert(enc_user_chunks(self.chunks@).take(self.chunks@.len() as int) =~= enc_user_chunks(
                self.chunks@,
            ));
            assert(items_model == enc_user_chunks(self.chunks@));
        }
        let arr = Json::Arr(items);
        proof {
            assert(jval(arr) == JsonVal::Arr(items_model));
        }
        let mut members: Vec<(String, Json)> = Vec::new();
        members.push((String::from_str("chunks"), arr));
        proof {
            lemma_jval_members_model(members@);
            assert(jval_members(members@) =~= seq![
                ("chunks"@, JsonVal::Arr(enc_user_chunks(self.chunks@))),
            ]);
        }
        Json::Obj(members)
    }

    /// Reads a message back from JSON: by key, in any member order,
    /// unknown members ignored.
    #[verifier::loop_isolation(false)]
    pub fn from_json(j: &Json) -> (r: Option<UserMessage>)
        ensures
            r matches Some(x) ==> reads_user_message(jval(*j), x),
            r is None ==> forall|x: UserMessage| !reads_user_message(jval(*j), x),
    {
        let members = match j {
            Json::Obj(members) => members,
            _ => {
                return None;
            },
        };
        let idx = match obj_find(members, &String::from_str("chunks")) {
            None => {
                return None;
            },
            Some(idx) => idx,
        };
        let items = match &members[idx].1 {
            Json::Arr(items) => items,
            _ => {
                return None;
            },
        };
        proof {
            lemma_jval_seq_model(items@);
        }
        let mut chunks: Vec<UserMessageChunk> = Vec::new();
        let mut i: usize = 0;
        while i < items.len()
            invariant
                i <= items@.len(),
                chunks@.len() == i,
                jval_seq(items@).len() == items@.len(),
                forall|k: int|
                    0 <= k < items@.len() ==> #[trigger] jval_seq(items@)[k] == jval(items@[k]),
                forall|k: int|
                    0 <= k < i ==> reads_user_chunk(
                        #[trigger] jval_seq(items@)[k],
                        chunks@[k],
                    ),
            decreases items@.len() - i,
        {
            match UserMessageChunk::from_json(&items[i]) {
                Some(c) => {
                    chunks.push(c);
                },
                None => {
                    proof {
                        assert forall|x: UserMessage| !reads_user_message(jval(*j), x) by {
                            if reads_user_message(jval(*j), x) {
                                assert(reads_user_chunk(
                                    jval_seq(items@)[i as int],
                                    x.chunks@[i as int],
                                ));
                                assert(jval_seq(items@)[i as int] == jval(items@[i as int]));
                            }
                        }
                    }
                    return None;
                },
            }
            i = i + 1;
        }
        Some(UserMessage { chunks })
    }
}

/// The parameters of `sendUserMessage`.
#[derive(Debug, Clone, PartialEq, Eq)]
pub struct SendUserMessageParams {
    pub thread_id: ThreadId,
    pub message: UserMessage,
}

/// The wire form of `sendUserMessage` parameters.
pub open spec fn enc_send_user_message_params(x: SendUserMessageParams) -> JsonVal {
    JsonVal::Obj(
        seq![("threadId"@, enc_thread_id(x.thread_id)), ("message"@, enc_user_message(x.message))],
    )
}

/// How a decoder reads `sendUserMessage` parameters: by key, in any
/// member order, unknown members ignored.
pub open spec fn reads_send_user_message_params(v: JsonVal, x: SendUserMessageParams) -> bool {
    v matches JsonVal::Obj(ms) && obj_get(ms, "threadId"@) == Some(enc_thread_id(x.thread_id))
        && (obj_get(ms, "message"@) matches Some(w) && reads_user_message(w, x.message))
}

/// The encoding of `sendUserMessage` parameters reads back as exactly
/// that record.
pub proof fn lemma_canonical_send_user_message_params(x: SendUserMessageParams)
    ensures
        reads_send_user_message_params(enc_send_user_message_params(x), x),
        forall|y: SendUserMessageParams|
            reads_send_user_message_params(enc_send_user_message_params(x), y)
                ==> enc_send_user_message_params(y) == enc_send_user_message_params(x),
{
    reveal_with_fuel(obj_get, 4);
    lemma_payload_keys_distinct();
    lemma_canonical_user_message(x.message);
    assert forall|y: SendUserMessageParams|
        reads_send_user_message_params(enc_send_user_message_params(x), y)
            implies enc_send_user_message_params(y) == enc_send_user_message_params(x) by {
        assert(reads_user_message(enc_user_message(x.message), y.message));
        assert(enc_user_message(y.message) == enc_user_message(x.message));
        assert(enc_send_user_message_params(y) =~~= enc_send_user_message_params(x));
    }
}

impl SendUserMessageParams {
    /// Writes this record as JSON.
    pub fn to_json(&self) -> (j: Json)
        ensures
            jval(j) == enc_send_user_message_params(*self),
    {
        let mut members: Vec<(String, Json)> = Vec::new();
        members.push((String::from_str("threadId"), self.thread_id.to_json()));
        members.push((String::from_str("message"), self.message.to_json()));
        proof {
            lemma_jval_members_model(members@);
            assert(jval_members(members@) =~= seq![
                ("threadId"@, enc_thread_id(self.thread_id)),
                ("message"@, enc_user_message(self.message)),
            ]);
        }
        Json::Obj(members)
    }

    /// Reads a record back from JSON: by key, in any member order,
    /// unknown members ignored.
    pub fn from_json(j: &Json) -> (r: Option<SendUserMessageParams>)
        ensures
            r matches Some(x) ==> reads_send_user_message_params(jval(*j), x),
            r is None ==> forall|x: SendUserMessageParams| !reads_send_user_message_params(
                jval(*j),
                x,
            ),
    {
        let members = match j {
            Json::Obj(members) => members,
            _ => {
                return None;
            },
        };
        let thread_id = match obj_find(members, &String::from_str("threadId")) {
            None => {
                return None;
            },
            Some(idx) => match ThreadId::from_json(&members[idx].1) {
                Some(t) => t,
                None => {
                    return None;
                },
            },
        };
        let message = match obj_find(members, &String::from_str("message")) {
            None => {
                return None;
            },
            Some(idx) => match UserMessage::from_json(&members[idx].1) {
                Some(m) => m,
                None => {
                    return None;
                },
            },
        };
        Some(SendUserMessageParams { thread_id, message })
    }
}

/// The parameters of `streamAssistantMessageChunk`.
#[derive(Debug, Clone, PartialEq, Eq)]
pub struct StreamAssistantMessageChunkParams {
    pub thread_id: ThreadId,
    pub chunk: AssistantMessageChunk,
}

/// The wire form of `streamAssistantMessageChunk` parameters.
pub open spec fn enc_stream_assistant_message_chunk_params(
    x: StreamAssistantMessageChunkParams,
) -> JsonVal {
    JsonVal::Obj(
        seq![("threadId"@, enc_thread_id(x.thread_id)), ("chunk"@, enc_assistant_chunk(x.chunk))],
    )
}

/// How a decoder reads `streamAssistantMessageChunk` parameters: by
/// key, in any member order, unknown members ignored.
pub open spec fn reads_stream_assistant_message_chunk_params(
    v: JsonVal,
    x: StreamAssistantMessageChunkParams,
) -> bool {
    v matches JsonVal::Obj(ms) && obj_get(ms, "threadId"@) == Some(enc_thread_id(x.thread_id))
        && (obj_get(ms, "chunk"@) matches Some(w) && reads_assistant_chunk(w, x.chunk))
}

/// The encoding of `streamAssistantMessageChunk` parameters reads back
/// as exactly that record.
pub proof fn lemma_canonical_stream_assistant_message_chunk_params(
    x: StreamAssistantMessageChunkParams,
)
    ensures
        reads_stream_assistant_message_chunk_params(
            enc_stream_assistant_message_chunk_params(x),
            x,
        ),
        forall|y: StreamAssistantMessageChunkParams|
            reads_stream_assistant_message_chunk_params(
                enc_stream_assistant_message_chunk_params(x),
                y,
            ) ==> enc_stream_assistant_message_chunk_params(y)
                == enc_stream_assistant_message_chunk_params(x),
{
    reveal_with_fuel(obj_get, 4);
    lemma_payload_keys_distinct();
    lemma_canonical_assistant_chunk(x.chunk);
    assert forall|y: StreamAssistantMessageChunkParams|
        reads_stream_assistant_message_chunk_params(
            enc_stream_assistant_message_chunk_params(x),
            y,
        ) implies enc_stream_assistant_message_chunk_params(y)
            == enc_stream_assistant_message_chunk_params(x) by {
        assert(reads_assistant_chunk(enc_assistant_chunk(x.chunk), y.chunk));
        assert(enc_assistant_chunk(y.chunk) == enc_assistant_chunk(x.chunk));
        assert(enc_stream_assistant_message_chunk_params(y)
            =~~= enc_stream_assistant_message_chunk_params(x));
    }
}

impl StreamAssistantMessageChunkParams {
    /// Writes this record as JSON.
    pub fn to_json(&self) -> (j: Json)
        ensures
            jval(j) == enc_stream_assistant_message_chunk_params(*self),
    {
        let mut members: Vec<(String, Json)> = Vec::new();
        members.push((String::from_str("threadId"), self.thread_id.to_json()));
        members.push((String::from_str("chunk"), self.chunk.to_json()));
        proof {
            lemma_jval_members_model(members@);
            assert(jval_members(members@) =~= seq![
                ("threadId"@, enc_thread_id(self.thread_id)),
                ("chunk"@, enc_assistant_chunk(self.chunk)),
            ]);
        }
        Json::Obj(members)
    }

    /// Reads a record back from JSON: by key, in any member order,
    /// unknown members ignored.
    pub fn from_json(j: &Json) -> (r: Option<StreamAssistantMessageChunkParams>)
        ensures
            r matches Some(x) ==> reads_stream_assistant_message_chunk_params(jval(*j), x),
            r is None ==> forall|x: StreamAssistantMessageChunkParams|
                !reads_stream_assistant_message_chunk_params(jval(*j), x),
    {
        let members = match j {
            Json::Obj(members) => members,
            _ => {
                return None;
            },
        };
        let thread_id = match obj_find(members, &String::from_str("threadId")) {
            None => {
                return None;
            },
            Some(idx) => match ThreadId::from_json(&members[idx].1) {
                Some(t) => t,
                None => {
                    return None;
                },
            },
        };
        let chunk = match obj_find(members, &String::from_str("chunk")) {
            None => {
                return None;
            },
            Some(idx) => match AssistantMessageChunk::from_json(&members[idx].1) {
                Some(c) => c,
                None => {
                    return None;
                },
            },
        };
        Some(StreamAssistantMessageChunkParams { thread_id, chunk })
    }
}

/// A text change: the touched file and its old and new contents. The
/// old text is `null` on the wire when there was none.
#[derive(Debug, Clone, PartialEq, Eq)]
pub struct Diff {
    pub path: String,
    pub old_text: Option<String>,
    pub new_text: String,
}

/// The wire form of an optional string: `null` when absent.
pub open spec fn enc_opt_text(o: Option<String>) -> JsonVal {
    match o {
        None => JsonVal::Null,
        Some(s) => JsonVal::Text(s@),
    }
}

/// The wire members of a change record, in order.
pub open spec fn enc_diff_members(d: Diff) -> Seq<(Seq<char>, JsonVal)> {
    seq![
        ("path"@, JsonVal::Text(d.path@)),
        ("oldText"@, enc_opt_text(d.old_text)),
        ("newText"@, JsonVal::Text(d.new_text@)),
    ]
}



/// What a tool call shows: rendered text, or a file change. The wire
/// form carries the change's fields beside the `type` tag.
#[derive(Debug, Clone, PartialEq, Eq)]
pub enum ToolCallContent {
    Markdown { markdown: String },
    Diff { diff: Diff },
}

/// The wire form of tool call content.
pub open spec fn enc_content(c: ToolCallContent) -> JsonVal {
    match c {
        ToolCallContent::Markdown { markdown } => JsonVal::Obj(
            seq![("type"@, JsonVal::Text("markdown"@)), ("markdown"@, JsonVal::Text(markdown@))],
        ),
        ToolCallContent::Diff { diff } => JsonVal::Obj(
            seq![("type"@, JsonVal::Text("diff"@))] + enc_diff_members(diff),
        ),
    }
}

/// How a decoder reads tool call content: by key, in any member order,
/// unknown members ignored; the change record's absent old text may be
/// `null` or missing.
pub open spec fn reads_content(v: JsonVal, c: ToolCallContent) -> bool {
    match c {
        ToolCallContent::Markdown { markdown } => v matches JsonVal::Obj(ms) && obj_get(
            ms,
            "type"@,
        ) == Some(JsonVal::Text("markdown"@)) && obj_get(ms, "markdown"@) == Some(
            JsonVal::Text(markdown@),
        ),
        ToolCallContent::Diff { diff } => v matches JsonVal::Obj(ms) && obj_get(ms, "type"@)
            == Some(JsonVal::Text("diff"@)) && obj_get(ms, "path"@) == Some(
            JsonVal::Text(diff.path@),
        ) && reads_opt_text(obj_get(ms, "oldText"@), diff.old_text) && obj_get(ms, "newText"@)
            == Some(JsonVal::Text(diff.new_text@)),
    }
}

/// The two content tags are distinct.
proof fn lemma_content_tags_distinct()
    ensures
        "markdown"@ != "diff"@,
{
    reveal_strlit("markdown");
    reveal_strlit("diff");
    assert("markdown"@.len() == 8);
    assert("diff"@.len() == 4);
}

/// The encoding of tool call content reads back as exactly that
/// content.
pub proof fn lemma_canonical_content(c: ToolCallContent)
    ensures
        reads_content(enc_content(c), c),
        forall|y: ToolCallContent|
            reads_content(enc_content(c), y) ==> enc_content(y) == enc_content(c),
{
    reveal_with_fuel(obj_get, 7);
    lemma_payload_keys_distinct();
    lemma_content_tags_distinct();
    assert forall|y: ToolCallContent|
        reads_content(enc_content(c), y) implies enc_content(y) == enc_content(c) by {
        match c {
            ToolCallContent::Markdown { markdown } => {
                assert(enc_content(y) =~~= enc_content(c));
            },
            ToolCallContent::Diff { diff } => {
                match diff.old_text {
                    None => {
                        assert(enc_content(y) =~~= enc_content(c));
                    },
                    Some(s) => {
                        assert(enc_content(y) =~~= enc_content(c));
                    },
                }
            },
        }
    }
}

impl ToolCallContent {
    /// Writes this content as JSON.
    pub fn to_json(&self) -> (j: Json)
        ensures
            jval(j) == enc_content(*self),
    {
        match self {
            ToolCallContent::Markdown { markdown } => {
                let mut members: Vec<(String, Json)> = Vec::new();
                members.push((String::from_str("type"), Json::Text(String::from_str("markdown"))));
                members.push((String::from_str("markdown"), Json::Text(markdown.clone())));
                proof {
                    lemma_jval_members_model(members@);
                    assert(jval_members(members@) =~= seq![
                        ("type"@, JsonVal::Text("markdown"@)),
                        ("markdown"@, JsonVal::Text(markdown@)),
                    ]);
                }
                Json::Obj(members)
            },
            ToolCallContent::Diff { diff } => {
                let old_text: Json = match &diff.old_text {
                    None => Json::Null,
                    Some(s) => Json::Text(s.clone()),
                };
                let mut members: Vec<(String, Json)> = Vec::new();
                members.push((String::from_str("type"), Json::Text(String::from_str("diff"))));
                members.push((String::from_str("path"), Json::Text(diff.path.clone())));
                members.push((String::from_str("oldText"), old_text));
                members.push((String::from_str("newText"), Json::Text(diff.new_text.clone())));
                proof {
                    lemma_jval_members_model(members@);
                    assert(jval_members(members@) =~= seq![("type"@, JsonVal::Text("diff"@))]
                        + enc_diff_members(*diff));
                }
                Json::Obj(members)
            },
        }
    }

    /// Reads content back from JSON: by key, in any member order,
    /// unknown members ignored.
    pub fn from_json(j: &Json) -> (r: Option<ToolCallContent>)
        ensures
            r matches Some(x) ==> reads_content(jval(*j), x),
            r is None ==> forall|x: ToolCallContent| !reads_content(jval(*j), x),
    {
        proof {
            lemma_content_tags_distinct();
        }
        let members = match j {
            Json::Obj(members) => members,
            _ => {
                return None;
            },
        };
        let tag = match req_text_field(members, &String::from_str("type")) {
            None => {
                return None;
            },
            Some(t) => t,
        };
        if tag.eq(&String::from_str("markdown")) {
            match req_text_field(members, &String::from_str("markdown")) {
                None => None,
                Some(markdown) => Some(ToolCallContent::Markdown { markdown }),
            }
        } else if tag.eq(&String::from_str("diff")) {
            let path = match req_text_field(members, &String::from_str("path")) {
                None => {
                    return None;
                },
                Some(p) => p,
            };
            let old_text = match opt_text_field(members, &String::from_str("oldText")) {
                None => {
                    return None;
                },
                Some(o) => o,
            };
            let new_text = match req_text_field(members, &String::from_str("newText")) {
                None => {
                    return None;
                },
                Some(t) => t,
            };
            Some(ToolCallContent::Diff { diff: Diff { path, old_text, new_text } })
        } else {
            None
        }
    }
}

/// The wire forms of a row of strings.
pub open spec fn enc_texts(ss: Seq<String>) -> Seq<JsonVal>
    decreases ss,
{
    if ss.len() == 0 {
        Seq::empty()
    } else {
        seq![JsonVal::Text(ss.first()@)] + enc_texts(ss.drop_first())
    }
}

/// The encoded row, string by string.
pub proof fn lemma_enc_texts_model(ss: Seq<String>)
    ensures
        enc_texts(ss).len() == ss.len(),
        forall|k: int| 0 <= k < ss.len() ==> #[trigger] enc_texts(ss)[k] == JsonVal::Text(ss[k]@),
    decreases ss,
{
    if ss.len() > 0 {
        lemma_enc_texts_model(ss.drop_first());
        assert forall|k: int|
            0 <= k < ss.len() implies #[trigger] enc_texts(ss)[k] == JsonVal::Text(ss[k]@) by {
            if k > 0 {
                assert(enc_texts(ss)[k] == enc_texts(ss.drop_first())[k - 1]);
                assert(ss.drop_first()[k - 1] == ss[k]);
            }
        }
    }
}

/// The trailing member an optional description adds: nothing, or one
/// `description` member.
pub open spec fn opt_desc_members(d: Option<String>) -> Seq<(Seq<char>, JsonVal)> {
    match d {
        None => Seq::empty(),
        Some(s) => seq![("description"@, JsonVal::Text(s@))],
    }
}

/// What the agent asks the user to confirm, tagged by its `type` field.
/// A `description` is omitted from the wire when absent.
#[derive(Debug, Clone, PartialEq, Eq)]
pub enum ToolCallConfirmation {
    Edit { description: Option<String> },
    Execute { command: String, root_command: String, description: Option<String> },
    Mcp { server_name: String, tool_name: String, tool_display_name: String, description: Option<
        String,
    > },
    Fetch { urls: Vec<String>, description: Option<String> },
    Other { description: String },
}

/// The wire members of a confirmation, in order.
pub open spec fn enc_confirmation_members(c: ToolCallConfirmation) -> Seq<(Seq<char>, JsonVal)> {
    match c {
        ToolCallConfirmation::Edit { description } => seq![("type"@, JsonVal::Text("edit"@))]
            + opt_desc_members(description),
        ToolCallConfirmation::Execute { command, root_command, description } => seq![
            ("type"@, JsonVal::Text("execute"@)),
            ("command"@, JsonVal::Text(command@)),
            ("rootCommand"@, JsonVal::Text(root_command@)),
        ] + opt_desc_members(description),
        ToolCallConfirmation::Mcp { server_name, tool_name, tool_display_name, description } => seq![
            ("type"@, JsonVal::Text("mcp"@)),
            ("serverName"@, JsonVal::Text(server_name@)),
            ("toolName"@, JsonVal::Text(tool_name@)),
            ("toolDisplayName"@, JsonVal::Text(tool_display_name@)),
        ] + opt_desc_members(description),
        ToolCallConfirmation::Fetch { urls, description } => seq![
            ("type"@, JsonVal::Text("fetch"@)),
            ("urls"@, JsonVal::Arr(enc_texts(urls@))),
        ] + opt_desc_members(description),
        ToolCallConfirmation::Other { description } => seq![
            ("type"@, JsonVal::Text("other"@)),
            ("description"@, JsonVal::Text(description@)),
        ],
    }
}

/// The wire form of a confirmation.
pub open spec fn enc_confirmation(c: ToolCallConfirmation) -> JsonVal {
    JsonVal::Obj(enc_confirmation_members(c))
}

/// The five confirmation tags are pairwise distinct.
proof fn lemma_confirmation_tags_distinct()
    ensures
        "edit"@ != "execute"@ && "edit"@ != "mcp"@ && "edit"@ != "fetch"@ && "edit"@ != "other"@,
        "execute"@ != "mcp"@ && "execute"@ != "fetch"@ && "execute"@ != "other"@,
        "mcp"@ != "fetch"@ && "mcp"@ != "other"@,
        "fetch"@ != "other"@,
{
    reveal_strlit("edit");
    reveal_strlit("execute");
    reveal_strlit("mcp");
    reveal_strlit("fetch");
    reveal_strlit("other");
    assert("edit"@.len() == 4);
    assert("execute"@.len() == 7);
    assert("mcp"@.len() == 3);
    assert("fetch"@.len() == 5);
    assert("other"@.len() == 5);
    assert("fetch"@[0] == 'f');
    assert("other"@[0] == 'o');
}

/// How a decoder reads a confirmation: the `type` tag picks the
/// variant, fields are looked up by key in any order, unknown members
/// ignored, and an absent description may also be `null`.
pub open spec fn reads_confirmation(v: JsonVal, c: ToolCallConfirmation) -> bool {
    v matches JsonVal::Obj(ms) && (match c {
        ToolCallConfirmation::Edit { description } => obj_get(ms, "type"@) == Some(
            JsonVal::Text("edit"@),
        ) && reads_opt_text(obj_get(ms, "description"@), description),
        ToolCallConfirmation::Execute { command, root_command, description } => obj_get(
            ms,
            "type"@,
        ) == Some(JsonVal::Text("execute"@)) && obj_get(ms, "command"@) == Some(
            JsonVal::Text(command@),
        ) && obj_get(ms, "rootCommand"@) == Some(JsonVal::Text(root_command@)) && reads_opt_text(
            obj_get(ms, "description"@),
            description,
        ),
        ToolCallConfirmation::Mcp { server_name, tool_name, tool_display_name, description } =>
            obj_get(ms, "type"@) == Some(JsonVal::Text("mcp"@)) && obj_get(ms, "serverName"@)
            == Some(JsonVal::Text(server_name@)) && obj_get(ms, "toolName"@) == Some(
            JsonVal::Text(tool_name@),
        ) && obj_get(ms, "toolDisplayName"@) == Some(JsonVal::Text(tool_display_name@))
            && reads_opt_text(obj_get(ms, "description"@), description),
        ToolCallConfirmation::Fetch { urls, description } => obj_get(ms, "type"@) == Some(
            JsonVal::Text("fetch"@),
        ) && (obj_get(ms, "urls"@) matches Some(JsonVal::Arr(items)) && items.len()
            == urls@.len() && (forall|k: int|
            0 <= k < items.len() ==> #[trigger] items[k] == JsonVal::Text(urls@[k]@)))
            && reads_opt_text(obj_get(ms, "description"@), description),
        ToolCallConfirmation::Other { description } => obj_get(ms, "type"@) == Some(
            JsonVal::Text("other"@),
        ) && obj_get(ms, "description"@) == Some(JsonVal::Text(description@)),
    })
}

/// The encoding of a confirmation reads back as exactly that
/// confirmation.
pub proof fn lemma_canonical_confirmation(c: ToolCallConfirmation)
    ensures
        reads_confirmation(enc_confirmation(c), c),
        forall|y: ToolCallConfirmation|
            reads_confirmation(enc_confirmation(c), y) ==> enc_confirmation(y)
                == enc_confirmation(c),
{
    reveal_with_fuel(obj_get, 8);
    lemma_payload_keys_distinct();
    lemma_confirmation_tags_distinct();
    match c {
        ToolCallConfirmation::Fetch { urls, description } => {
            lemma_enc_texts_model(urls@);
        },
        _ => {},
    }
    assert(reads_confirmation(enc_confirmation(c), c)) by {
        match c {
            ToolCallConfirmation::Edit { description } => {
                match description {
                    None => {},
                    Some(s) => {},
                }
            },
            ToolCallConfirmation::Execute { command, root_command, description } => {
                match description {
                    None => {},
                    Some(s) => {},
                }
            },
            ToolCallConfirmation::Mcp { server_name, tool_name, tool_display_name, description } => {
                match description {
                    None => {},
                    Some(s) => {},
                }
            },
            ToolCallConfirmation::Fetch { urls, description } => {
                match description {
                    None => {},
                    Some(s) => {},
                }
            },
            ToolCallConfirmation::Other { description } => {},
        }
    }
    assert forall|y: ToolCallConfirmation|
        reads_confirmation(enc_confirmation(c), y) implies enc_confirmation(y)
            == enc_confirmation(c) by {
        match y {
            ToolCallConfirmation::Fetch { urls: yurls, description: ydesc } => {
                lemma_enc_texts_model(yurls@);
                if let ToolCallConfirmation::Fetch { urls: curls, description: cdesc } = c {
                    assert(enc_texts(yurls@) =~= enc_texts(curls@));
                }
            },
            _ => {},
        }
        assert(enc_confirmation(y) =~~= enc_confirmation(c));
    }
}

impl ToolCallConfirmation {
    /// Writes this confirmation as JSON.
    pub fn to_json(&self) -> (j: Json)
        ensures
            jval(j) == enc_confirmation(*self),
    {
        let mut members: Vec<(String, Json)> = Vec::new();
        let description: &Option<String> = match self {
            ToolCallConfirmation::Edit { description } => {
                members.push((String::from_str("type"), Json::Text(String::from_str("edit"))));
                description
            },
            ToolCallConfirmation::Execute { command, root_command, description } => {
                members.push((String::from_str("type"), Json::Text(String::from_str("execute"))));
                members.push((String::from_str("command"), Json::Text(command.clone())));
                members.push((String::from_str("rootCommand"), Json::Text(root_command.clone())));
                description
            },
            ToolCallConfirmation::Mcp { server_name, tool_name, tool_display_name, description } => {
                members.push((String::from_str("type"), Json::Text(String::from_str("mcp"))));
                members.push((String::from_str("serverName"), Json::Text(server_name.clone())));
                members.push((String::from_str("toolName"), Json::Text(tool_name.clone())));
                members.push(
                    (String::from_str("toolDisplayName"), Json::Text(tool_display_name.clone())),
                );
                description
            },
            ToolCallConfirmation::Fetch { urls, description } => {
                members.push((String::from_str("type"), Json::Text(String::from_str("fetch"))));
                let mut items: Vec<Json> = Vec::new();
                let mut i: usize = 0;
                proof {
                    lemma_enc_texts_model(urls@);
                }
                while i < urls.len()
                    invariant
                        i <= urls@.len(),
                        enc_texts(urls@).len() == urls@.len(),
                        forall|k: int|
                            0 <= k < urls@.len() ==> #[trigger] enc_texts(urls@)[k]
                                == JsonVal::Text(urls@[k]@),
                        jval_seq(items@) =~= enc_texts(urls@).take(i as int),
                    decreases urls@.len() - i,
                {
                    let ghost pre = items@;
                    let item = Json::Text(urls[i].clone());
                    items.push(item);
                    proof {
                        crate::json::lemma_jval_seq_push(pre, item);
                        assert(jval_seq(items@) =~= enc_texts(urls@).take(i + 1 as int));
                    }
                    i = i + 1;
                }
                proof {
                    assert(enc_texts(urls@).take(urls@.len() as int) =~= enc_texts(urls@));
                }
                members.push((String::from_str("urls"), Json::Arr(items)));
                description
            },
            ToolCallConfirmation::Other { description } => {
                members.push((String::from_str("type"), Json::Text(String::from_str("other"))));
                members.push((String::from_str("description"), Json::Text(description.clone())));
                proof {
                    lemma_jval_members_model(members@);
                    assert(jval_members(members@) =~= enc_confirmation_members(*self));
                }
                return Json::Obj(members);
            },
        };
        match description {
            None => {},
            Some(d) => {
                members.push((String::from_str("description"), Json::Text(d.clone())));
            },
        }
        proof {
            lemma_jval_members_model(members@);
            assert(jval_members(members@) =~= enc_confirmation_members(*self));
        }
        Json::Obj(members)
    }

    /// Reads a confirmation back from JSON: by key, in any member
    /// order, unknown members ignored.
    #[verifier::loop_isolation(false)]
    pub fn from_json(j: &Json) -> (r: Option<ToolCallConfirmation>)
        ensures
            r matches Some(x) ==> reads_confirmation(jval(*j), x),
            r is None ==> forall|x: ToolCallConfirmation| !reads_confirmation(jval(*j), x),
    {
        proof {
            lemma_confirmation_tags_distinct();
        }
        let members = match j {
            Json::Obj(members) => members,
            _ => {
                return None;
            },
        };
        let tag = match req_text_field(members, &String::from_str("type")) {
            None => {
                return None;
            },
            Some(t) => t,
        };
        if tag.eq(&String::from_str("edit")) {
            match opt_text_field(members, &String::from_str("description")) {
                None => None,
                Some(description) => Some(ToolCallConfirmation::Edit { description }),
            }
        } else if tag.eq(&String::from_str("execute")) {
            let command = match req_text_field(members, &String::from_str("command")) {
                None => {
                    return None;
                },
                Some(s) => s,
            };
            let root_command = match req_text_field(members, &String::from_str("rootCommand")) {
                None => {
                    return None;
                },
                Some(s) => s,
            };
            match opt_text_field(members, &String::from_str("description")) {
                None => None,
                Some(description) => Some(
                    ToolCallConfirmation::Execute { command, root_command, description },
                ),
            }
        } else if tag.eq(&String::from_str("mcp")) {
            let server_name = match req_text_field(members, &String::from_str("serverName")) {
                None => {
                    return None;
                },
                Some(s) => s,
            };
            let tool_name = match req_text_field(members, &String::from_str("toolName")) {
                None => {
                    return None;
                },
                Some(s) => s,
            };
            let tool_display_name = match req_text_field(
                members,
                &String::from_str("toolDisplayName"),
            ) {
                None => {
                    return None;
                },
                Some(s) => s,
            };
            match opt_text_field(members, &String::from_str("description")) {
                None => None,
                Some(description) => Some(
                    ToolCallConfirmation::Mcp {
                        server_name,
                        tool_name,
                        tool_display_name,
                        description,
                    },
                ),
            }
        } else if tag.eq(&String::from_str("fetch")) {
            let uidx = match obj_find(members, &String::from_str("urls")) {
                None => {
                    return None;
                },
                Some(idx) => idx,
            };
            let items = match &members[uidx].1 {
                Json::Arr(items) => items,
                _ => {
                    return None;
                },
            };
            proof {
                lemma_jval_seq_model(items@);
            }
            let mut urls: Vec<String> = Vec::new();
            let mut i: usize = 0;
            while i < items.len()
                invariant
                    i <= items@.len(),
                    urls@.len() == i,
                    forall|k: int|
                        0 <= k < i ==> #[trigger] jval_seq(items@)[k] == JsonVal::Text(urls@[k]@),
                decreases items@.len() - i,
            {
                match &items[i] {
                    Json::Text(s) => {
                        urls.push(s.clone());
                    },
                    _ => {
                        proof {
                            assert forall|x: ToolCallConfirmation| !reads_confirmation(
                                jval(*j),
                                x,
                            ) by {
                                if let ToolCallConfirmation::Fetch {
                                    urls: xurls,
                                    description: xdesc,
                                } = x {
                                    if reads_confirmation(jval(*j), x) {
                                        assert(jval_seq(items@)[i as int] == JsonVal::Text(
                                            xurls@[i as int]@,
                                        ));
                                        assert(jval_seq(items@)[i as int] == jval(
                                            items@[i as int],
                                        ));
                                    }
                                }
                            }
                        }
                        return None;
                    },
                }
                i = i + 1;
            }
            match opt_text_field(members, &String::from_str("description")) {
                None => None,
                Some(description) => Some(ToolCallConfirmation::Fetch { urls, description }),
            }
        } else if tag.eq(&String::from_str("other")) {
            match req_text_field(members, &String::from_str("description")) {
                None => None,
                Some(description) => Some(ToolCallConfirmation::Other { description }),
            }
        } else {
            None
        }
    }






}

/// The trailing member an optional content adds: nothing, or one
/// `content` member.
pub open spec fn opt_content_members(c: Option<ToolCallContent>) -> Seq<(Seq<char>, JsonVal)> {
    match c {
        None => Seq::empty(),
        Some(cc) => seq![("content"@, enc_content(cc))],
    }
}





/// The parameters of `requestToolCallConfirmation`. The `content`
/// member is omitted from the wire when absent.
#[derive(Debug, Clone, PartialEq, Eq)]
pub struct RequestToolCallConfirmationParams {
    pub thread_id: ThreadId,
    pub label: String,
    pub icon: Icon,
    pub confirmation: ToolCallConfirmation,
    pub content: Option<ToolCallContent>,
}

/// The wire members of `requestToolCallConfirmation` parameters.
pub open spec fn enc_rtcc_params_members(x: RequestToolCallConfirmationParams) -> Seq<
    (Seq<char>, JsonVal),
> {
    seq![
        ("threadId"@, enc_thread_id(x.thread_id)),
        ("label"@, JsonVal::Text(x.label@)),
        ("icon"@, enc_icon(x.icon)),
        ("confirmation"@, enc_confirmation(x.confirmation)),
    ] + opt_content_members(x.content)
}

/// The wire form of `requestToolCallConfirmation` parameters.
pub open spec fn enc_rtcc_params(x: RequestToolCallConfirmationParams) -> JsonVal {
    JsonVal::Obj(enc_rtcc_params_members(x))
}

/// How a decoder reads `requestToolCallConfirmation` parameters: by
/// key, in any member order, unknown members ignored.
pub open spec fn reads_rtcc_params(v: JsonVal, x: RequestToolCallConfirmationParams) -> bool {
    v matches JsonVal::Obj(ms) && obj_get(ms, "threadId"@) == Some(enc_thread_id(x.thread_id))
        && obj_get(ms, "label"@) == Some(JsonVal::Text(x.label@)) && obj_get(ms, "icon"@) == Some(
        enc_icon(x.icon),
    ) && (obj_get(ms, "confirmation"@) matches Some(w) && reads_confirmation(w, x.confirmation))
        && reads_opt_content(obj_get(ms, "content"@), x.content)
}

/// The encoding of `requestToolCallConfirmation` parameters reads back
/// as exactly that record.
pub proof fn lemma_canonical_rtcc_params(x: RequestToolCallConfirmationParams)
    ensures
        reads_rtcc_params(enc_rtcc_params(x), x),
        forall|y: RequestToolCallConfirmationParams|
            reads_rtcc_params(enc_rtcc_params(x), y) ==> enc_rtcc_params(y) == enc_rtcc_params(x),
{
    reveal_with_fuel(obj_get, 7);
    lemma_payload_keys_distinct();
    lemma_canonical_confirmation(x.confirmation);
    match x.content {
        None => {},
        Some(cc) => {
            lemma_canonical_content(cc);
        },
    }
    assert forall|y: RequestToolCallConfirmationParams|
        reads_rtcc_params(enc_rtcc_params(x), y) implies enc_rtcc_params(y) == enc_rtcc_params(
        x,
    ) by {
        assert(reads_confirmation(enc_confirmation(x.confirmation), y.confirmation));
        assert(enc_confirmation(y.confirmation) == enc_confirmation(x.confirmation));
        match x.content {
            None => {},
            Some(cc) => {
                assert(reads_content(enc_content(cc), y.content->0));
                assert(enc_content(y.content->0) == enc_content(cc));
            },
        }
        assert(enc_rtcc_params_members(y) =~~= enc_rtcc_params_members(x));
        assert(enc_rtcc_params(y) =~~= enc_rtcc_params(x));
    }
}

impl RequestToolCallConfirmationParams {
    /// Writes this record as JSON.
    pub fn to_json(&self) -> (j: Json)
        ensures
            jval(j) == enc_rtcc_params(*self),
    {
        let mut members: Vec<(String, Json)> = Vec::new();
        members.push((String::from_str("threadId"), self.thread_id.to_json()));
        members.push((String::from_str("label"), Json::Text(self.label.clone())));
        members.push((String::from_str("icon"), self.icon.to_json()));
        members.push((String::from_str("confirmation"), self.confirmation.to_json()));
        match &self.content {
            None => {},
            Some(c) => {
                members.push((String::from_str("content"), c.to_json()));
            },
        }
        proof {
            lemma_jval_members_model(members@);
            assert(jval_members(members@) =~= enc_rtcc_params_members(*self));
        }
        Json::Obj(members)
    }

    /// Reads a record back from JSON: by key, in any member order,
    /// unknown members ignored.
    pub fn from_json(j: &Json) -> (r: Option<RequestToolCallConfirmationParams>)
        ensures
            r matches Some(x) ==> reads_rtcc_params(jval(*j), x),
            r is None ==> forall|x: RequestToolCallConfirmationParams| !reads_rtcc_params(
                jval(*j),
                x,
            ),
    {
        let members = match j {
            Json::Obj(members) => members,
            _ => {
                return None;
            },
        };
        let thread_id = match obj_find(members, &String::from_str("threadId")) {
            None => {
                return None;
            },
            Some(idx) => match ThreadId::from_json(&members[idx].1) {
                Some(t) => t,
                None => {
                    return None;
                },
            },
        };
        let label = match req_text_field(members, &String::from_str("label")) {
            None => {
                return None;
            },
            Some(s) => s,
        };
        let icon = match obj_find(members, &String::from_str("icon")) {
            None => {
                return None;
            },
            Some(idx) => match Icon::from_json(&members[idx].1) {
                Some(i) => i,
                None => {
                    return None;
                },
            },
        };
        let confirmation = match obj_find(members, &String::from_str("confirmation")) {
            None => {
                return None;
            },
            Some(idx) => match ToolCallConfirmation::from_json(&members[idx].1) {
                Some(c) => c,
                None => {
                    return None;
                },
            },
        };
        let content = match opt_content_field(members, &String::from_str("content")) {
            None => {
                return None;
            },
            Some(c) => c,
        };
        Some(RequestToolCallConfirmationParams { thread_id, label, icon, confirmation, content })
    }


}

/// The parameters of `pushToolCall`. The `content` member is omitted
/// from the wire when absent.
#[derive(Debug, Clone, PartialEq, Eq)]
pub struct PushToolCallParams {
    pub thread_id: ThreadId,
    pub label: String,
    pub icon: Icon,
    pub content: Option<ToolCallContent>,
}

/// The wire members of `pushToolCall` parameters.
pub open spec fn enc_push_params_members(x: PushToolCallParams) -> Seq<(Seq<char>, JsonVal)> {
    seq![
        ("threadId"@, enc_thread_id(x.thread_id)),
        ("label"@, JsonVal::Text(x.label@)),
        ("icon"@, enc_icon(x.icon)),
    ] + opt_content_members(x.content)
}

/// The wire form of `pushToolCall` parameters.
pub open spec fn enc_push_params(x: PushToolCallParams) -> JsonVal {
    JsonVal::Obj(enc_push_params_members(x))
}

/// How a decoder reads `pushToolCall` parameters: by key, in any member
/// order, unknown members ignored.
pub open spec fn reads_push_params(v: JsonVal, x: PushToolCallParams) -> bool {
    v matches JsonVal::Obj(ms) && obj_get(ms, "threadId"@) == Some(enc_thread_id(x.thread_id))
        && obj_get(ms, "label"@) == Some(JsonVal::Text(x.label@)) && obj_get(ms, "icon"@) == Some(
        enc_icon(x.icon),
    ) && reads_opt_content(obj_get(ms, "content"@), x.content)
}

/// The encoding of `pushToolCall` parameters reads back as exactly that
/// record.
pub proof fn lemma_canonical_push_params(x: PushToolCallParams)
    ensures
        reads_push_params(enc_push_params(x), x),
        forall|y: PushToolCallParams|
            reads_push_params(enc_push_params(x), y) ==> enc_push_params(y) == enc_push_params(x),
{
    reveal_with_fuel(obj_get, 6);
    lemma_payload_keys_distinct();
    match x.content {
        None => {},
        Some(cc) => {
            lemma_canonical_content(cc);
        },
    }
    assert forall|y: PushToolCallParams|
        reads_push_params(enc_push_params(x), y) implies enc_push_params(y) == enc_push_params(
        x,
    ) by {
        match x.content {
            None => {},
            Some(cc) => {
                assert(reads_content(enc_content(cc), y.content->0));
                assert(enc_content(y.content->0) == enc_content(cc));
            },
        }
        assert(enc_push_params_members(y) =~~= enc_push_params_members(x));
        assert(enc_push_params(y) =~~= enc_push_params(x));
    }
}

impl PushToolCallParams {
    /// Writes this record as JSON.
    pub fn to_json(&self) -> (j: Json)
        ensures
            jval(j) == enc_push_params(*self),
    {
        let mut members: Vec<(String, Json)> = Vec::new();
        members.push((String::from_str("threadId"), self.thread_id.to_json()));
        members.push((String::from_str("label"), Json::Text(self.label.clone())));
        members.push((String::from_str("icon"), self.icon.to_json()));
        match &self.content {
            None => {},
            Some(c) => {
                members.push((String::from_str("content"), c.to_json()));
            },
        }
        proof {
            lemma_jval_members_model(members@);
            assert(jval_members(members@) =~= enc_push_params_members(*self));
        }
        Json::Obj(members)
    }

    /// Reads a record back from JSON: by key, in any member order,
    /// unknown members ignored.
    pub fn from_json(j: &Json) -> (r: Option<PushToolCallParams>)
        ensures
            r matches Some(x) ==> reads_push_params(jval(*j), x),
            r is None ==> forall|x: PushToolCallParams| !reads_push_params(jval(*j), x),
    {
        let members = match j {
            Json::Obj(members) => members,
            _ => {
                return None;
            },
        };
        let thread_id = match obj_find(members, &String::from_str("threadId")) {
            None => {
                return None;
            },
            Some(idx) => match ThreadId::from_json(&members[idx].1) {
                Some(t) => t,
                None => {
                    return None;
                },
            },
        };
        let label = match req_text_field(members, &String::from_str("label")) {
            None => {
                return None;
            },
            Some(s) => s,
        };
        let icon = match obj_find(members, &String::from_str("icon")) {
            None => {
                return None;
            },
            Some(idx) => match Icon::from_json(&members[idx].1) {
                Some(i) => i,
                None => {
                    return None;
                },
            },
        };
        let content = match opt_content_field(members, &String::from_str("content")) {
            None => {
                return None;
            },
            Some(c) => c,
        };
        Some(PushToolCallParams { thread_id, label, icon, content })
    }


}

/// The wire form of an optional content value standing alone: `null`
/// when absent.
pub open spec fn enc_opt_content(c: Option<ToolCallContent>) -> JsonVal {
    match c {
        None => JsonVal::Null,
        Some(cc) => enc_content(cc),
    }
}



/// The parameters of `updateToolCall`. The `content` member is always
/// present, `null` when there is none.
#[derive(Debug, Clone, PartialEq, Eq)]
pub struct UpdateToolCallParams {
    pub thread_id: ThreadId,
    pub tool_call_id: ToolCallId,
    pub status: ToolCallStatus,
    pub content: Option<ToolCallContent>,
}

/// The wire members of `updateToolCall` parameters.
pub open spec fn enc_update_params_members(x: UpdateToolCallParams) -> Seq<(Seq<char>, JsonVal)> {
    seq![
        ("threadId"@, enc_thread_id(x.thread_id)),
        ("toolCallId"@, enc_tool_call_id(x.tool_call_id)),
        ("status"@, enc_status(x.status)),
        ("content"@, enc_opt_content(x.content)),
    ]
}

/// The wire form of `updateToolCall` parameters.
pub open spec fn enc_update_params(x: UpdateToolCallParams) -> JsonVal {
    JsonVal::Obj(enc_update_params_members(x))
}

/// How a decoder reads `updateToolCall` parameters: by key, in any
/// member order, unknown members ignored.
pub open spec fn reads_update_params(v: JsonVal, x: UpdateToolCallParams) -> bool {
    v matches JsonVal::Obj(ms) && obj_get(ms, "threadId"@) == Some(enc_thread_id(x.thread_id))
        && obj_get(ms, "toolCallId"@) == Some(enc_tool_call_id(x.tool_call_id)) && obj_get(
        ms,
        "status"@,
    ) == Some(enc_status(x.status)) && reads_opt_content(obj_get(ms, "content"@), x.content)
}

/// The encoding of `updateToolCall` parameters reads back as exactly
/// that record.
pub proof fn lemma_canonical_update_params(x: UpdateToolCallParams)
    ensures
        reads_update_params(enc_update_params(x), x),
        forall|y: UpdateToolCallParams|
            reads_update_params(enc_update_params(x), y) ==> enc_update_params(y)
                == enc_update_params(x),
{
    reveal_with_fuel(obj_get, 6);
    lemma_payload_keys_distinct();
    match x.content {
        None => {},
        Some(cc) => {
            lemma_canonical_content(cc);
        },
    }
    assert forall|y: UpdateToolCallParams|
        reads_update_params(enc_update_params(x), y) implies enc_update_params(y)
            == enc_update_params(x) by {
        match x.content {
            None => {},
            Some(cc) => {
                assert(reads_content(enc_content(cc), y.content->0));
                assert(enc_content(y.content->0) == enc_content(cc));
            },
        }
        assert(enc_update_params_members(y) =~~= enc_update_params_members(x));
        assert(enc_update_params(y) =~~= enc_update_params(x));
    }
}

impl UpdateToolCallParams {
    /// Writes this record as JSON.
    pub fn to_json(&self) -> (j: Json)
        ensures
            jval(j) == enc_update_params(*self),
    {
        let content: Json = match &self.content {
            None => Json::Null,
            Some(c) => c.to_json(),
        };
        let mut members: Vec<(String, Json)> = Vec::new();
        members.push((String::from_str("threadId"), self.thread_id.to_json()));
        members.push((String::from_str("toolCallId"), self.tool_call_id.to_json()));
        members.push((String::from_str("status"), self.status.to_json()));
        members.push((String::from_str("content"), content));
        proof {
            lemma_jval_members_model(members@);
            assert(jval_members(members@) =~= enc_update_params_members(*self));
        }
        Json::Obj(members)
    }

    /// Reads a record back from JSON: by key, in any member order,
    /// unknown members ignored.
    pub fn from_json(j: &Json) -> (r: Option<UpdateToolCallParams>)
        ensures
            r matches Some(x) ==> reads_update_params(jval(*j), x),
            r is None ==> forall|x: UpdateToolCallParams| !reads_update_params(jval(*j), x),
    {
        let members = match j {
            Json::Obj(members) => members,
            _ => {
                return None;
            },
        };
        let thread_id = match obj_find(members, &String::from_str("threadId")) {
            None => {
                return None;
            },
            Some(idx) => match ThreadId::from_json(&members[idx].1) {
                Some(t) => t,
                None => {
                    return None;
                },
            },
        };
        let tool_call_id = match obj_find(members, &String::from_str("toolCallId")) {
            None => {
                return None;
            },
            Some(idx) => match ToolCallId::from_json(&members[idx].1) {
                Some(t) => t,
                None => {
                    return None;
                },
            },
        };
        let status = match obj_find(members, &String::from_str("status")) {
            None => {
                return None;
            },
            Some(idx) => match ToolCallStatus::from_json(&members[idx].1) {
                Some(s) => s,
                None => {
                    return None;
                },
            },
        };
        let content = match opt_content_field(members, &String::from_str("content")) {
            None => {
                return None;
            },
            Some(c) => c,
        };
        Some(UpdateToolCallParams { thread_id, tool_call_id, status, content })
    }
}

/// The response to `requestToolCallConfirmation`, tagged with its own
/// record name on the wire.
#[derive(Debug, Clone, Copy, PartialEq, Eq)]
pub struct RequestToolCallConfirmationResponse {
    pub id: ToolCallId,
    pub outcome: ToolCallConfirmationOutcome,
}

/// The wire form of a `requestToolCallConfirmation` response.
pub open spec fn enc_rtcc_response(x: RequestToolCallConfirmationResponse) -> JsonVal {
    JsonVal::Obj(
        seq![
            ("type"@, JsonVal::Text("RequestToolCallConfirmationResponse"@)),
            ("id"@, enc_tool_call_id(x.id)),
            ("outcome"@, enc_outcome(x.outcome)),
        ],
    )
}

/// How a decoder reads a `requestToolCallConfirmation` response: by
/// key, in any member order, unknown members ignored; the record-name
/// tag must be present.
pub open spec fn reads_rtcc_response(v: JsonVal, x: RequestToolCallConfirmationResponse) -> bool {
    v matches JsonVal::Obj(ms) && obj_get(ms, "type"@) == Some(
        JsonVal::Text("RequestToolCallConfirmationResponse"@),
    ) && obj_get(ms, "id"@) == Some(enc_tool_call_id(x.id)) && obj_get(ms, "outcome"@) == Some(
        enc_outcome(x.outcome),
    )
}

/// The encoding of a `requestToolCallConfirmation` response reads back
/// as exactly that record.
pub proof fn lemma_canonical_rtcc_response(x: RequestToolCallConfirmationResponse)
    ensures
        reads_rtcc_response(enc_rtcc_response(x), x),
        forall|y: RequestToolCallConfirmationResponse|
            reads_rtcc_response(enc_rtcc_response(x), y) ==> enc_rtcc_response(y)
                == enc_rtcc_response(x),
{
    reveal_with_fuel(obj_get, 5);
    lemma_payload_keys_distinct();
    assert forall|y: RequestToolCallConfirmationResponse|
        reads_rtcc_response(enc_rtcc_response(x), y) implies enc_rtcc_response(y)
            == enc_rtcc_response(x) by {
        assert(enc_rtcc_response(y) =~~= enc_rtcc_response(x));
    }
}

impl RequestToolCallConfirmationResponse {
    /// Writes this record as JSON.
    pub fn to_json(&self) -> (j: Json)
        ensures
            jval(j) == enc_rtcc_response(*self),
    {
        let mut members: Vec<(String, Json)> = Vec::new();
        members.push(
            (
                String::from_str("type"),
                Json::Text(String::from_str("RequestToolCallConfirmationResponse")),
            ),
        );
        members.push((String::from_str("id"), self.id.to_json()));
        members.push((String::from_str("outcome"), self.outcome.to_json()));
        proof {
            lemma_jval_members_model(members@);
            assert(jval_members(members@) =~= seq![
                ("type"@, JsonVal::Text("RequestToolCallConfirmationResponse"@)),
                ("id"@, enc_tool_call_id(self.id)),
                ("outcome"@, enc_outcome(self.outcome)),
            ]);
        }
        Json::Obj(members)
    }

    /// Reads a record back from JSON: by key, in any member order,
    /// unknown members ignored.
    pub fn from_json(j: &Json) -> (r: Option<RequestToolCallConfirmationResponse>)
        ensures
            r matches Some(x) ==> reads_rtcc_response(jval(*j), x),
            r is None ==> forall|x: RequestToolCallConfirmationResponse| !reads_rtcc_response(
                jval(*j),
                x,
            ),
    {
        let members = match j {
            Json::Obj(members) => members,
            _ => {
                return None;
            },
        };
        let tag_ok = match req_text_field(members, &String::from_str("type")) {
            None => false,
            Some(t) => t.eq(&String::from_str("RequestToolCallConfirmationResponse")),
        };
        if !tag_ok {
            return None;
        }
        let id = match obj_find(members, &String::from_str("id")) {
            None => {
                return None;
            },
            Some(idx) => match ToolCallId::from_json(&members[idx].1) {
                Some(t) => t,
                None => {
                    return None;
                },
            },
        };
        let outcome = match obj_find(members, &String::from_str("outcome")) {
            None => {
                return None;
            },
            Some(idx) => match ToolCallConfirmationOutcome::from_json(&members[idx].1) {
                Some(o) => o,
                None => {
                    return None;
                },
            },
        };
        Some(RequestToolCallConfirmationResponse { id, outcome })
    }
}

/// The response to `pushToolCall`, tagged with its own record name on
/// the wire.
#[derive(Debug, Clone, Copy, PartialEq, Eq)]
pub struct PushToolCallResponse {
    pub id: ToolCallId,
}

/// The wire form of a `pushToolCall` response.
pub open spec fn enc_push_response(x: PushToolCallResponse) -> JsonVal {
    JsonVal::Obj(
        seq![
            ("type"@, JsonVal::Text("PushToolCallResponse"@)),
            ("id"@, enc_tool_call_id(x.id)),
        ],
    )
}

/// How a decoder reads a `pushToolCall` response: by key, in any
/// member order, unknown members ignored; the record-name tag must be
/// present.
pub open spec fn reads_push_response(v: JsonVal, x: PushToolCallResponse) -> bool {
    v matches JsonVal::Obj(ms) && obj_get(ms, "type"@) == Some(
        JsonVal::Text("PushToolCallResponse"@),
    ) && obj_get(ms, "id"@) == Some(enc_tool_call_id(x.id))
}

/// The encoding of a `pushToolCall` response reads back as exactly that
/// record.
pub proof fn lemma_canonical_push_response(x: PushToolCallResponse)
    ensures
        reads_push_response(enc_push_response(x), x),
        forall|y: PushToolCallResponse|
            reads_push_response(enc_push_response(x), y) ==> enc_push_response(y)
                == enc_push_response(x),
{
    reveal_with_fuel(obj_get, 4);
    lemma_payload_keys_distinct();
    assert forall|y: PushToolCallResponse|
        reads_push_response(enc_push_response(x), y) implies enc_push_response(y)
            == enc_push_response(x) by {
        assert(enc_push_response(y) =~~= enc_push_response(x));
    }
}

impl PushToolCallResponse {
    /// Writes this record as JSON.
    pub fn to_json(&self) -> (j: Json)
        ensures
            jval(j) == enc_push_response(*self),
    {
        let mut members: Vec<(String, Json)> = Vec::new();
        members.push(
            (String::from_str("type"), Json::Text(String::from_str("PushToolCallResponse"))),
        );
        members.push((String::from_str("id"), self.id.to_json()));
        proof {
            lemma_jval_members_model(members@);
            assert(jval_members(members@) =~= seq![
                ("type"@, JsonVal::Text("PushToolCallResponse"@)),
                ("id"@, enc_tool_call_id(self.id)),
            ]);
        }
        Json::Obj(members)
    }

    /// Reads a record back from JSON: by key, in any member order,
    /// unknown members ignored.
    pub fn from_json(j: &Json) -> (r: Option<PushToolCallResponse>)
        ensures
            r matches Some(x) ==> reads_push_response(jval(*j), x),
            r is None ==> forall|x: PushToolCallResponse| !reads_push_response(jval(*j), x),
    {
        let members = match j {
            Json::Obj(members) => members,
            _ => {
                return None;
            },
        };
        let tag_ok = match req_text_field(members, &String::from_str("type")) {
            None => false,
            Some(t) => t.eq(&String::from_str("PushToolCallResponse")),
        };
        if !tag_ok {
            return None;
        }
        let id = match obj_find(members, &String::from_str("id")) {
            None => {
                return None;
            },
            Some(idx) => match ToolCallId::from_json(&members[idx].1) {
                Some(t) => t,
                None => {
                    return None;
                },
            },
        };
        Some(PushToolCallResponse { id })
    }
}

/// A point in time, held as milliseconds since the Unix epoch. It
/// stands in for the calendar timestamp a thread listing carries.
#[derive(Debug, Clone, Copy, PartialEq, Eq)]
pub struct Timestamp {
    pub unix_millis: i64,
}

/// What a thread listing says about one thread. No method of the
/// current catalog carries it on the wire.
#[derive(Debug, Clone, PartialEq, Eq)]
pub struct ThreadMetadata {
    pub id: ThreadId,
    pub title: String,
    pub modified_at: Timestamp,
}

/// A member list is well formed when each member's value is.
proof fn lemma_wf_members_of(ms: Seq<(Seq<char>, JsonVal)>)
    requires
        forall|k: int| 0 <= k < ms.len() ==> crate::roundtrip::wf_jval(#[trigger] ms[k].1),
    ensures
        crate::roundtrip::wf_members(ms),
    decreases ms,
{
    if ms.len() > 0 {
        assert(forall|k: int|
            0 <= k < ms.drop_first().len() ==> #[trigger] ms.drop_first()[k] == ms[k + 1]);
        lemma_wf_members_of(ms.drop_first());
    }
}

/// An element list is well formed when each element is.
proof fn lemma_wf_elems_of(items: Seq<JsonVal>)
    requires
        forall|k: int| 0 <= k < items.len() ==> crate::roundtrip::wf_jval(#[trigger] items[k]),
    ensures
        crate::roundtrip::wf_elems(items),
    decreases items,
{
    if items.len() > 0 {
        assert(forall|k: int|
            0 <= k < items.drop_first().len() ==> #[trigger] items.drop_first()[k] == items[k
                + 1]);
        lemma_wf_elems_of(items.drop_first());
    }
}

/// The wire form of any thread identifier is well formed.
proof fn lemma_wf_thread_id(t: ThreadId)
    ensures
        crate::roundtrip::wf_jval(enc_thread_id(t)),
{
}

/// The wire form of any tool call identifier is well formed: an
/// unsigned counter always fits the JSON number range.
proof fn lemma_wf_tool_call_id(t: ToolCallId)
    ensures
        crate::roundtrip::wf_jval(enc_tool_call_id(t)),
{
}

/// The wire form of any user message is well formed.
proof fn lemma_wf_user_message(m: UserMessage)
    ensures
        crate::roundtrip::wf_jval(enc_user_message(m)),
{
    lemma_enc_user_chunks_model(m.chunks@);
    assert forall|k: int|
        0 <= k < enc_user_chunks(m.chunks@).len() implies crate::roundtrip::wf_jval(
        #[trigger] enc_user_chunks(m.chunks@)[k],
    ) by {
        assert(enc_user_chunks(m.chunks@)[k] == enc_user_chunk(m.chunks@[k]));
        match m.chunks@[k] {
            UserMessageChunk::Text { chunk } => {
                let ms = seq![("type"@, JsonVal::Text("text"@)), ("chunk"@, JsonVal::Text(chunk@))];
                lemma_wf_members_of(ms);
            },
        }
    }
    lemma_wf_elems_of(enc_user_chunks(m.chunks@));
    let ms = seq![("chunks"@, JsonVal::Arr(enc_user_chunks(m.chunks@)))];
    lemma_wf_members_of(ms);
}

/// The wire form of any assistant message chunk is well formed.
proof fn lemma_wf_assistant_chunk(c: AssistantMessageChunk)
    ensures
        crate::roundtrip::wf_jval(enc_assistant_chunk(c)),
{
    match c {
        AssistantMessageChunk::Text { chunk } => {
            lemma_wf_members_of(
                seq![("type"@, JsonVal::Text("text"@)), ("chunk"@, JsonVal::Text(chunk@))],
            );
        },
        AssistantMessageChunk::Thought { chunk } => {
            lemma_wf_members_of(
                seq![("type"@, JsonVal::Text("thought"@)), ("chunk"@, JsonVal::Text(chunk@))],
            );
        },
    }
}

/// The wire form of any tool call content is well formed.
proof fn lemma_wf_content(c: ToolCallContent)
    ensures
        crate::roundtrip::wf_jval(enc_content(c)),
{
    match c {
        ToolCallContent::Markdown { markdown } => {
            lemma_wf_members_of(
                seq![
                    ("type"@, JsonVal::Text("markdown"@)),
                    ("markdown"@, JsonVal::Text(markdown@)),
                ],
            );
        },
        ToolCallContent::Diff { diff } => {
            let ms = seq![("type"@, JsonVal::Text("diff"@))] + enc_diff_members(diff);
            assert forall|k: int| 0 <= k < ms.len() implies crate::roundtrip::wf_jval(
                #[trigger] ms[k].1,
            ) by {
                match diff.old_text {
                    None => {},
                    Some(s) => {},
                }
            }
            lemma_wf_members_of(ms);
        },
    }
}

/// The wire form of any optional content member list is well formed,
/// member by member.
proof fn lemma_wf_opt_content(c: Option<ToolCallContent>)
    ensures
        forall|k: int|
            0 <= k < opt_content_members(c).len() ==> crate::roundtrip::wf_jval(
                #[trigger] opt_content_members(c)[k].1,
            ),
{
    match c {
        None => {},
        Some(cc) => {
            lemma_wf_content(cc);
        },
    }
}

/// The wire form of any confirmation is well formed.
proof fn lemma_wf_confirmation(c: ToolCallConfirmation)
    ensures
        crate::roundtrip::wf_jval(enc_confirmation(c)),
{
    let ms = enc_confirmation_members(c);
    assert forall|k: int| 0 <= k < ms.len() implies crate::roundtrip::wf_jval(
        #[trigger] ms[k].1,
    ) by {
        match c {
            ToolCallConfirmation::Edit { description } => {
                match description {
                    None => {},
                    Some(s) => {},
                }
            },
            ToolCallConfirmation::Execute { command, root_command, description } => {
                match description {
                    None => {},
                    Some(s) => {},
                }
            },
            ToolCallConfirmation::Mcp {
                server_name,
                tool_name,
                tool_display_name,
                description,
            } => {
                match description {
                    None => {},
                    Some(s) => {},
                }
            },
            ToolCallConfirmation::Fetch { urls, description } => {
                lemma_enc_texts_model(urls@);
                assert forall|i: int|
                    0 <= i < enc_texts(urls@).len() implies crate::roundtrip::wf_jval(
                    #[trigger] enc_texts(urls@)[i],
                ) by {
                    assert(enc_texts(urls@)[i] == JsonVal::Text(urls@[i]@));
                }
                lemma_wf_elems_of(enc_texts(urls@));
                match description {
                    None => {},
                    Some(s) => {},
                }
            },
            ToolCallConfirmation::Other { description } => {},
        }
    }
    lemma_wf_members_of(ms);
}

/// The wire form of any client-facing request is well formed: every
/// frame this library sends carries a payload the codec can reproduce.
pub proof fn lemma_enc_client_request_wf(x: AnyClientRequest)
    ensures
        crate::roundtrip::wf_jval(enc_client_request(x)),
{
    match x {
        AnyClientRequest::StreamAssistantMessageChunkParams(p) => {
            lemma_wf_thread_id(p.thread_id);
            lemma_wf_assistant_chunk(p.chunk);
            lemma_wf_members_of(
                seq![
                    ("threadId"@, enc_thread_id(p.thread_id)),
                    ("chunk"@, enc_assistant_chunk(p.chunk)),
                ],
            );
        },
        AnyClientRequest::RequestToolCallConfirmationParams(p) => {
            let ms = enc_rtcc_params_members(p);
            assert forall|k: int| 0 <= k < ms.len() implies crate::roundtrip::wf_jval(
                #[trigger] ms[k].1,
            ) by {
                lemma_wf_confirmation(p.confirmation);
                lemma_wf_opt_content(p.content);
            }
            lemma_wf_members_of(ms);
        },
        AnyClientRequest::PushToolCallParams(p) => {
            let ms = enc_push_params_members(p);
            assert forall|k: int| 0 <= k < ms.len() implies crate::roundtrip::wf_jval(
                #[trigger] ms[k].1,
            ) by {
                lemma_wf_opt_content(p.content);
            }
            lemma_wf_members_of(ms);
        },
        AnyClientRequest::UpdateToolCallParams(p) => {
            let ms = enc_update_params_members(p);
            assert forall|k: int| 0 <= k < ms.len() implies crate::roundtrip::wf_jval(
                #[trigger] ms[k].1,
            ) by {
                lemma_wf_tool_call_id(p.tool_call_id);
                match p.content {
                    None => {},
                    Some(cc) => {
                        lemma_wf_content(cc);
                    },
                }
            }
            lemma_wf_members_of(ms);
        },
    }
}

/// The wire form of any client response is well formed.
pub proof fn lemma_enc_client_result_wf(y: AnyClientResult)
    ensures
        crate::roundtrip::wf_jval(enc_client_result(y)),
{
    match y {
        AnyClientResult::StreamAssistantMessageChunkResponse(_) => {},
        AnyClientResult::RequestToolCallConfirmationResponse(p) => {
            lemma_wf_tool_call_id(p.id);
            lemma_wf_members_of(
                seq![
                    ("type"@, JsonVal::Text("RequestToolCallConfirmationResponse"@)),
                    ("id"@, enc_tool_call_id(p.id)),
                    ("outcome"@, enc_outcome(p.outcome)),
                ],
            );
        },
        AnyClientResult::PushToolCallResponse(p) => {
            lemma_wf_tool_call_id(p.id);
            lemma_wf_members_of(
                seq![
                    ("type"@, JsonVal::Text("PushToolCallResponse"@)),
                    ("id"@, enc_tool_call_id(p.id)),
                ],
            );
        },
        AnyClientResult::UpdateToolCallResponse(_) => {},
    }
}

/// The wire form of any agent-facing request is well formed.
pub proof fn lemma_enc_agent_request_wf(x: AnyAgentRequest)
    ensures
        crate::roundtrip::wf_jval(enc_agent_request(x)),
{
    match x {
        AnyAgentRequest::InitializeParams(_) => {},
        AnyAgentRequest::AuthenticateParams(_) => {},
        AnyAgentRequest::CreateThreadParams(_) => {},
        AnyAgentRequest::SendUserMessageParams(p) => {
            lemma_wf_user_message(p.message);
            lemma_wf_members_of(
                seq![
                    ("threadId"@, enc_thread_id(p.thread_id)),
                    ("message"@, enc_user_message(p.message)),
                ],
            );
        },
        AnyAgentRequest::CancelSendMessageParams(p) => {
            lemma_wf_members_of(seq![("threadId"@, enc_thread_id(p.thread_id))]);
        },
    }
}

/// The wire form of any agent response is well formed.
pub proof fn lemma_enc_agent_result_wf(y: AnyAgentResult)
    ensures
        crate::roundtrip::wf_jval(enc_agent_result(y)),
{
    match y {
        AnyAgentResult::InitializeResponse(p) => {
            lemma_wf_members_of(seq![("isAuthenticated"@, JsonVal::Bool(p.is_authenticated))]);
        },
        AnyAgentResult::AuthenticateResponse(_) => {},
        AnyAgentResult::CreateThreadResponse(p) => {
            lemma_wf_members_of(seq![("threadId"@, enc_thread_id(p.thread_id))]);
        },
        AnyAgentResult::SendUserMessageResponse(_) => {},
        AnyAgentResult::CancelSendMessageResponse(_) => {},
    }
}

/// Every encoded client-facing request reads back as a request with
/// the same method and the same wire form: the registry decoder is
/// total and single-valued on canonical input.
pub proof fn lemma_canonical_client_request(x: AnyClientRequest)
    ensures
        reads_client_request(x, enc_client_request(x)),
        forall|y: AnyClientRequest|
            client_request_method(y) == client_request_method(x) && reads_client_request(
                y,
                enc_client_request(x),
            ) ==> enc_client_request(y) == enc_client_request(x),
{
    lemma_client_methods_distinct();
    match x {
        AnyClientRequest::StreamAssistantMessageChunkParams(p) => {
            lemma_canonical_stream_assistant_message_chunk_params(p);
        },
        AnyClientRequest::RequestToolCallConfirmationParams(p) => {
            lemma_canonical_rtcc_params(p);
        },
        AnyClientRequest::PushToolCallParams(p) => {
            lemma_canonical_push_params(p);
        },
        AnyClientRequest::UpdateToolCallParams(p) => {
            lemma_canonical_update_params(p);
        },
    }
}

/// Every encoded client response reads back, under its own method, as
/// a response with the same wire form.
pub proof fn lemma_canonical_client_result(y: AnyClientResult)
    ensures
        reads_client_result(y, enc_client_result(y)),
        forall|z: AnyClientResult, m: Seq<char>|
            client_response_pairs(m, y) && client_response_pairs(m, z) && reads_client_result(
                z,
                enc_client_result(y),
            ) ==> enc_client_result(z) == enc_client_result(y),
{
    lemma_client_methods_distinct();
    match y {
        AnyClientResult::StreamAssistantMessageChunkResponse(_) => {},
        AnyClientResult::RequestToolCallConfirmationResponse(p) => {
            lemma_canonical_rtcc_response(p);
        },
        AnyClientResult::PushToolCallResponse(p) => {
            lemma_canonical_push_response(p);
        },
        AnyClientResult::UpdateToolCallResponse(_) => {},
    }
}

/// Every encoded agent-facing request reads back as a request with the
/// same method and the same wire form.
pub proof fn lemma_canonical_agent_request(x: AnyAgentRequest)
    ensures
        reads_agent_request(x, enc_agent_request(x)),
        forall|y: AnyAgentRequest|
            agent_request_method(y) == agent_request_method(x) && reads_agent_request(
                y,
                enc_agent_request(x),
            ) ==> enc_agent_request(y) == enc_agent_request(x),
{
    lemma_agent_methods_distinct();
    match x {
        AnyAgentRequest::InitializeParams(_) => {},
        AnyAgentRequest::AuthenticateParams(_) => {},
        AnyAgentRequest::CreateThreadParams(_) => {},
        AnyAgentRequest::SendUserMessageParams(p) => {
            lemma_canonical_send_user_message_params(p);
        },
        AnyAgentRequest::CancelSendMessageParams(p) => {
            lemma_canonical_cancel_send_message_params(p);
        },
    }
}

/// Every encoded agent response reads back, under its own method, as a
/// response with the same wire form.
pub proof fn lemma_canonical_agent_result(y: AnyAgentResult)
    ensures
        reads_agent_result(y, enc_agent_result(y)),
        forall|z: AnyAgentResult, m: Seq<char>|
            agent_response_pairs(m, y) && agent_response_pairs(m, z) && reads_agent_result(
                z,
                enc_agent_result(y),
            ) ==> enc_agent_result(z) == enc_agent_result(y),
{
    lemma_agent_methods_distinct();
    match y {
        AnyAgentResult::InitializeResponse(p) => {
            lemma_canonical_initialize_response(p);
        },
        AnyAgentResult::AuthenticateResponse(_) => {},
        AnyAgentResult::CreateThreadResponse(p) => {
            lemma_canonical_create_thread_response(p);
        },
        AnyAgentResult::SendUserMessageResponse(_) => {},
        AnyAgentResult::CancelSendMessageResponse(_) => {},
    }
}

/// One row of a method table: the wire name and the payload type names.
#[derive(Debug, Clone, Copy)]
pub struct Method {
    pub name: &'static str,
    pub request_type: &'static str,
    pub response_type: &'static str,
}

/// Every request a client may receive (agent-initiated methods).
#[derive(Debug, Clone, PartialEq, Eq)]
pub enum AnyClientRequest {
    StreamAssistantMessageChunkParams(StreamAssistantMessageChunkParams),
    RequestToolCallConfirmationParams(RequestToolCallConfirmationParams),
    PushToolCallParams(PushToolCallParams),
    UpdateToolCallParams(UpdateToolCallParams),
}

/// Every response a client may send back.
#[derive(Debug, Clone, PartialEq, Eq)]
pub enum AnyClientResult {
    StreamAssistantMessageChunkResponse(StreamAssistantMessageChunkResponse),
    RequestToolCallConfirmationResponse(RequestToolCallConfirmationResponse),
    PushToolCallResponse(PushToolCallResponse),
    UpdateToolCallResponse(UpdateToolCallResponse),
}

/// Every request an agent may receive (client-initiated methods).
#[derive(Debug, Clone, PartialEq, Eq)]
pub enum AnyAgentRequest {
    InitializeParams(InitializeParams),
    AuthenticateParams(AuthenticateParams),
    CreateThreadParams(CreateThreadParams),
    SendUserMessageParams(SendUserMessageParams),
    CancelSendMessageParams(CancelSendMessageParams),
}

/// Every response an agent may send back.
#[derive(Debug, Clone, PartialEq, Eq)]
pub enum AnyAgentResult {
    InitializeResponse(InitializeResponse),
    AuthenticateResponse(AuthenticateResponse),
    CreateThreadResponse(CreateThreadResponse),
    SendUserMessageResponse(SendUserMessageResponse),
    CancelSendMessageResponse(CancelSendMessageResponse),
}

/// The wire method name of a client-facing request.
pub open spec fn client_request_method(x: AnyClientRequest) -> Seq<char> {
    match x {
        AnyClientRequest::StreamAssistantMessageChunkParams(_) => "streamAssistantMessageChunk"@,
        AnyClientRequest::RequestToolCallConfirmationParams(_) => "requestToolCallConfirmation"@,
        AnyClientRequest::PushToolCallParams(_) => "pushToolCall"@,
        AnyClientRequest::UpdateToolCallParams(_) => "updateToolCall"@,
    }
}

/// The wire form of a client-facing request's parameters.
pub open spec fn enc_client_request(x: AnyClientRequest) -> JsonVal {
    match x {
        AnyClientRequest::StreamAssistantMessageChunkParams(p) =>
            enc_stream_assistant_message_chunk_params(p),
        AnyClientRequest::RequestToolCallConfirmationParams(p) => enc_rtcc_params(p),
        AnyClientRequest::PushToolCallParams(p) => enc_push_params(p),
        AnyClientRequest::UpdateToolCallParams(p) => enc_update_params(p),
    }
}

/// The wire form of a client's response payload.
pub open spec fn enc_client_result(x: AnyClientResult) -> JsonVal {
    match x {
        AnyClientResult::StreamAssistantMessageChunkResponse(_) => enc_unit(),
        AnyClientResult::RequestToolCallConfirmationResponse(p) => enc_rtcc_response(p),
        AnyClientResult::PushToolCallResponse(p) => enc_push_response(p),
        AnyClientResult::UpdateToolCallResponse(_) => enc_unit(),
    }
}

/// Which client response answers which method.
pub open spec fn client_response_pairs(m: Seq<char>, y: AnyClientResult) -> bool {
    match y {
        AnyClientResult::StreamAssistantMessageChunkResponse(_) => m
            == "streamAssistantMessageChunk"@,
        AnyClientResult::RequestToolCallConfirmationResponse(_) => m
            == "requestToolCallConfirmation"@,
        AnyClientResult::PushToolCallResponse(_) => m == "pushToolCall"@,
        AnyClientResult::UpdateToolCallResponse(_) => m == "updateToolCall"@,
    }
}

/// How a decoder reads a client-facing request's parameters, variant
/// by variant.
pub open spec fn reads_client_request(x: AnyClientRequest, v: JsonVal) -> bool {
    match x {
        AnyClientRequest::StreamAssistantMessageChunkParams(p) =>
            reads_stream_assistant_message_chunk_params(v, p),
        AnyClientRequest::RequestToolCallConfirmationParams(p) => reads_rtcc_params(v, p),
        AnyClientRequest::PushToolCallParams(p) => reads_push_params(v, p),
        AnyClientRequest::UpdateToolCallParams(p) => reads_update_params(v, p),
    }
}

/// How a decoder reads a client response's payload, variant by variant.
pub open spec fn reads_client_result(y: AnyClientResult, v: JsonVal) -> bool {
    match y {
        AnyClientResult::StreamAssistantMessageChunkResponse(_) => v == enc_unit(),
        AnyClientResult::RequestToolCallConfirmationResponse(p) => reads_rtcc_response(v, p),
        AnyClientResult::PushToolCallResponse(p) => reads_push_response(v, p),
        AnyClientResult::UpdateToolCallResponse(_) => v == enc_unit(),
    }
}

/// Whether `m` names a client-facing method.
pub open spec fn is_client_method(m: Seq<char>) -> bool {
    m == "streamAssistantMessageChunk"@ || m == "requestToolCallConfirmation"@ || m
        == "pushToolCall"@ || m == "updateToolCall"@
}

/// The wire method name of an agent-facing request.
pub open spec fn agent_request_method(x: AnyAgentRequest) -> Seq<char> {
    match x {
        AnyAgentRequest::InitializeParams(_) => "initialize"@,
        AnyAgentRequest::AuthenticateParams(_) => "authenticate"@,
        AnyAgentRequest::CreateThreadParams(_) => "createThread"@,
        AnyAgentRequest::SendUserMessageParams(_) => "sendUserMessage"@,
        AnyAgentRequest::CancelSendMessageParams(_) => "cancelSendMessage"@,
    }
}

/// The wire form of an agent-facing request's parameters.
pub open spec fn enc_agent_request(x: AnyAgentRequest) -> JsonVal {
    match x {
        AnyAgentRequest::InitializeParams(_) => enc_unit(),
        AnyAgentRequest::AuthenticateParams(_) => enc_unit(),
        AnyAgentRequest::CreateThreadParams(_) => enc_unit(),
        AnyAgentRequest::SendUserMessageParams(p) => enc_send_user_message_params(p),
        AnyAgentRequest::CancelSendMessageParams(p) => enc_cancel_send_message_params(p),
    }
}

/// The wire form of an agent's response payload.
pub open spec fn enc_agent_result(x: AnyAgentResult) -> JsonVal {
    match x {
        AnyAgentResult::InitializeResponse(p) => enc_initialize_response(p),
        AnyAgentResult::AuthenticateResponse(_) => enc_unit(),
        AnyAgentResult::CreateThreadResponse(p) => enc_create_thread_response(p),
        AnyAgentResult::SendUserMessageResponse(_) => enc_unit(),
        AnyAgentResult::CancelSendMessageResponse(_) => enc_unit(),
    }
}

/// Which agent response answers which method.
pub open spec fn agent_response_pairs(m: Seq<char>, y: AnyAgentResult) -> bool {
    match y {
        AnyAgentResult::InitializeResponse(_) => m == "initialize"@,
        AnyAgentResult::AuthenticateResponse(_) => m == "authenticate"@,
        AnyAgentResult::CreateThreadResponse(_) => m == "createThread"@,
        AnyAgentResult::SendUserMessageResponse(_) => m == "sendUserMessage"@,
        AnyAgentResult::CancelSendMessageResponse(_) => m == "cancelSendMessage"@,
    }
}

/// How a decoder reads an agent-facing request's parameters, variant
/// by variant.
pub open spec fn reads_agent_request(x: AnyAgentRequest, v: JsonVal) -> bool {
    match x {
        AnyAgentRequest::InitializeParams(_) => v == enc_unit(),
        AnyAgentRequest::AuthenticateParams(_) => v == enc_unit(),
        AnyAgentRequest::CreateThreadParams(_) => v == enc_unit(),
        AnyAgentRequest::SendUserMessageParams(p) => reads_send_user_message_params(v, p),
        AnyAgentRequest::CancelSendMessageParams(p) => reads_cancel_send_message_params(v, p),
    }
}

/// How a decoder reads an agent response's payload, variant by variant.
pub open spec fn reads_agent_result(y: AnyAgentResult, v: JsonVal) -> bool {
    match y {
        AnyAgentResult::InitializeResponse(p) => reads_initialize_response(v, p),
        AnyAgentResult::AuthenticateResponse(_) => v == enc_unit(),
        AnyAgentResult::CreateThreadResponse(p) => reads_create_thread_response(v, p),
        AnyAgentResult::SendUserMessageResponse(_) => v == enc_unit(),
        AnyAgentResult::CancelSendMessageResponse(_) => v == enc_unit(),
    }
}

/// Whether `m` names an agent-facing method.
pub open spec fn is_agent_method(m: Seq<char>) -> bool {
    m == "initialize"@ || m == "authenticate"@ || m == "createThread"@ || m == "sendUserMessage"@
        || m == "cancelSendMessage"@
}

/// The client-facing method names are pairwise distinct.
proof fn lemma_client_methods_distinct()
    ensures
        "streamAssistantMessageChunk"@ != "requestToolCallConfirmation"@,
        "streamAssistantMessageChunk"@ != "pushToolCall"@,
        "streamAssistantMessageChunk"@ != "updateToolCall"@,
        "requestToolCallConfirmation"@ != "pushToolCall"@,
        "requestToolCallConfirmation"@ != "updateToolCall"@,
        "pushToolCall"@ != "updateToolCall"@,
{
    reveal_strlit("streamAssistantMessageChunk");
    reveal_strlit("requestToolCallConfirmation");
    reveal_strlit("pushToolCall");
    reveal_strlit("updateToolCall");
    assert("streamAssistantMessageChunk"@.len() == 27);
    assert("requestToolCallConfirmation"@.len() == 27);
    assert("pushToolCall"@.len() == 12);
    assert("updateToolCall"@.len() == 14);
    assert("streamAssistantMessageChunk"@[0] == 's');
    assert("requestToolCallConfirmation"@[0] == 'r');
}

/// The agent-facing method names are pairwise distinct.
proof fn lemma_agent_methods_distinct()
    ensures
        "initialize"@ != "authenticate"@,
        "initialize"@ != "createThread"@,
        "initialize"@ != "sendUserMessage"@,
        "initialize"@ != "cancelSendMessage"@,
        "authenticate"@ != "createThread"@,
        "authenticate"@ != "sendUserMessage"@,
        "authenticate"@ != "cancelSendMessage"@,
        "createThread"@ != "sendUserMessage"@,
        "createThread"@ != "cancelSendMessage"@,
        "sendUserMessage"@ != "cancelSendMessage"@,
{
    reveal_strlit("initialize");
    reveal_strlit("authenticate");
    reveal_strlit("createThread");
    reveal_strlit("sendUserMessage");
    reveal_strlit("cancelSendMessage");
    assert("initialize"@.len() == 10);
    assert("authenticate"@.len() == 12);
    assert("createThread"@.len() == 12);
    assert("sendUserMessage"@.len() == 15);
    assert("cancelSendMessage"@.len() == 17);
    assert("authenticate"@[0] == 'a');
    assert("createThread"@[0] == 'c');
}

/// The unknown-method failure message.
pub open spec fn unknown_method_message(m: Seq<char>) -> Seq<char> {
    "invalid method string "@ + m
}

/// The bad-parameters failure message.
pub open spec fn invalid_params_message(m: Seq<char>) -> Seq<char> {
    "invalid params for method "@ + m
}

impl AnyClientRequest {
    /// The wire name of this request's method.
    pub fn method_name(&self) -> (m: &'static str)
        ensures
            m@ == client_request_method(*self),
    {
        match self {
            AnyClientRequest::StreamAssistantMessageChunkParams(_) => "streamAssistantMessageChunk",
            AnyClientRequest::RequestToolCallConfirmationParams(_) => "requestToolCallConfirmation",
            AnyClientRequest::PushToolCallParams(_) => "pushToolCall",
            AnyClientRequest::UpdateToolCallParams(_) => "updateToolCall",
        }
    }

    /// Writes this request's parameters as JSON.
    pub fn to_json(&self) -> (j: Json)
        ensures
            jval(j) == enc_client_request(*self),
    {
        match self {
            AnyClientRequest::StreamAssistantMessageChunkParams(p) => p.to_json(),
            AnyClientRequest::RequestToolCallConfirmationParams(p) => p.to_json(),
            AnyClientRequest::PushToolCallParams(p) => p.to_json(),
            AnyClientRequest::UpdateToolCallParams(p) => p.to_json(),
        }
    }

    /// Decodes a request from its method name and raw parameters. The
    /// failure message says whether the method is unknown to this role
    /// or its parameters did not decode.
    pub fn from_method_and_params(method: &String, params: &Json) -> (r: Result<
        AnyClientRequest,
        String,
    >)
        ensures
            r matches Ok(x) ==> client_request_method(x) == method@ && reads_client_request(
                x,
                jval(*params),
            ),
            r is Err ==> forall|x: AnyClientRequest|
                !(client_request_method(x) == method@ && reads_client_request(x, jval(*params))),
            r matches Err(m) ==> m@ == if is_client_method(method@) {
                invalid_params_message(method@)
            } else {
                unknown_method_message(method@)
            },
    {
        proof {
            lemma_client_methods_distinct();
        }
        if method.eq(&String::from_str("streamAssistantMessageChunk")) {
            match StreamAssistantMessageChunkParams::from_json(params) {
                Some(p) => Ok(AnyClientRequest::StreamAssistantMessageChunkParams(p)),
                None => Err(
                    String::from_str("invalid params for method ").concat(method.as_str()),
                ),
            }
        } else if method.eq(&String::from_str("requestToolCallConfirmation")) {
            match RequestToolCallConfirmationParams::from_json(params) {
                Some(p) => Ok(AnyClientRequest::RequestToolCallConfirmationParams(p)),
                None => Err(
                    String::from_str("invalid params for method ").concat(method.as_str()),
                ),
            }
        } else if method.eq(&String::from_str("pushToolCall")) {
            match PushToolCallParams::from_json(params) {
                Some(p) => Ok(AnyClientRequest::PushToolCallParams(p)),
                None => Err(
                    String::from_str("invalid params for method ").concat(method.as_str()),
                ),
            }
        } else if method.eq(&String::from_str("updateToolCall")) {
            match UpdateToolCallParams::from_json(params) {
                Some(p) => Ok(AnyClientRequest::UpdateToolCallParams(p)),
                None => Err(
                    String::from_str("invalid params for method ").concat(method.as_str()),
                ),
            }
        } else {
            Err(String::from_str("invalid method string ").concat(method.as_str()))
        }
    }
}

impl AnyClientResult {
    /// Writes this response's payload as JSON.
    pub fn to_json(&self) -> (j: Json)
        ensures
            jval(j) == enc_client_result(*self),
    {
        match self {
            AnyClientResult::StreamAssistantMessageChunkResponse(_) => unit_to_json(),
            AnyClientResult::RequestToolCallConfirmationResponse(p) => p.to_json(),
            AnyClientResult::PushToolCallResponse(p) => p.to_json(),
            AnyClientResult::UpdateToolCallResponse(_) => unit_to_json(),
        }
    }

    /// Decodes a response from the method it answers and its raw
    /// payload.
    pub fn from_method_and_result(method: &String, result: &Json) -> (r: Result<
        AnyClientResult,
        String,
    >)
        ensures
            r matches Ok(y) ==> client_response_pairs(method@, y) && reads_client_result(
                y,
                jval(*result),
            ),
            r is Err ==> forall|y: AnyClientResult|
                !(client_response_pairs(method@, y) && reads_client_result(y, jval(*result))),
            r matches Err(m) ==> m@ == if is_client_method(method@) {
                invalid_params_message(method@)
            } else {
                unknown_method_message(method@)
            },
    {
        proof {
            lemma_client_methods_distinct();
        }
        if method.eq(&String::from_str("streamAssistantMessageChunk")) {
            if unit_from_json(result) {
                Ok(
                    AnyClientResult::StreamAssistantMessageChunkResponse(
                        StreamAssistantMessageChunkResponse,
                    ),
                )
            } else {
                Err(String::from_str("invalid params for method ").concat(method.as_str()))
            }
        } else if method.eq(&String::from_str("requestToolCallConfirmation")) {
            match RequestToolCallConfirmationResponse::from_json(result) {
                Some(p) => Ok(AnyClientResult::RequestToolCallConfirmationResponse(p)),
                None => Err(
                    String::from_str("invalid params for method ").concat(method.as_str()),
                ),
            }
        } else if method.eq(&String::from_str("pushToolCall")) {
            match PushToolCallResponse::from_json(result) {
                Some(p) => Ok(AnyClientResult::PushToolCallResponse(p)),
                None => Err(
                    String::from_str("invalid params for method ").concat(method.as_str()),
                ),
            }
        } else if method.eq(&String::from_str("updateToolCall")) {
            if unit_from_json(result) {
                Ok(AnyClientResult::UpdateToolCallResponse(UpdateToolCallResponse))
            } else {
                Err(String::from_str("invalid params for method ").concat(method.as_str()))
            }
        } else {
            Err(String::from_str("invalid method string ").concat(method.as_str()))
        }
    }
}

impl AnyAgentRequest {
    /// The wire name of this request's method.
    pub fn method_name(&self) -> (m: &'static str)
        ensures
            m@ == agent_request_method(*self),
    {
        match self {
            AnyAgentRequest::InitializeParams(_) => "initialize",
            AnyAgentRequest::AuthenticateParams(_) => "authenticate",
            AnyAgentRequest::CreateThreadParams(_) => "createThread",
            AnyAgentRequest::SendUserMessageParams(_) => "sendUserMessage",
            AnyAgentRequest::CancelSendMessageParams(_) => "cancelSendMessage",
        }
    }

    /// Writes this request's parameters as JSON.
    pub fn to_json(&self) -> (j: Json)
        ensures
            jval(j) == enc_agent_request(*self),
    {
        match self {
            AnyAgentRequest::InitializeParams(_) => unit_to_json(),
            AnyAgentRequest::AuthenticateParams(_) => unit_to_json(),
            AnyAgentRequest::CreateThreadParams(_) => unit_to_json(),
            AnyAgentRequest::SendUserMessageParams(p) => p.to_json(),
            AnyAgentRequest::CancelSendMessageParams(p) => p.to_json(),
        }
    }

    /// Decodes a request from its method name and raw parameters.
    pub fn from_method_and_params(method: &String, params: &Json) -> (r: Result<
        AnyAgentRequest,
        String,
    >)
        ensures
            r matches Ok(x) ==> agent_request_method(x) == method@ && reads_agent_request(
                x,
                jval(*params),
            ),
            r is Err ==> forall|x: AnyAgentRequest|
                !(agent_request_method(x) == method@ && reads_agent_request(x, jval(*params))),
            r matches Err(m) ==> m@ == if is_agent_method(method@) {
                invalid_params_message(method@)
            } else {
                unknown_method_message(method@)
            },
    {
        proof {
            lemma_agent_methods_distinct();
        }
        if method.eq(&String::from_str("initialize")) {
            if unit_from_json(params) {
                Ok(AnyAgentRequest::InitializeParams(InitializeParams))
            } else {
                Err(String::from_str("invalid params for method ").concat(method.as_str()))
            }
        } else if method.eq(&String::from_str("authenticate")) {
            if unit_from_json(params) {
                Ok(AnyAgentRequest::AuthenticateParams(AuthenticateParams))
            } else {
                Err(String::from_str("invalid params for method ").concat(method.as_str()))
            }
        } else if method.eq(&String::from_str("createThread")) {
            if unit_from_json(params) {
                Ok(AnyAgentRequest::CreateThreadParams(CreateThreadParams))
            } else {
                Err(String::from_str("invalid params for method ").concat(method.as_str()))
            }
        } else if method.eq(&String::from_str("sendUserMessage")) {
            match SendUserMessageParams::from_json(params) {
                Some(p) => Ok(AnyAgentRequest::SendUserMessageParams(p)),
                None => Err(
                    String::from_str("invalid params for method ").concat(method.as_str()),
                ),
            }
        } else if method.eq(&String::from_str("cancelSendMessage")) {
            match CancelSendMessageParams::from_json(params) {
                Some(p) => Ok(AnyAgentRequest::CancelSendMessageParams(p)),
                None => Err(
                    String::from_str("invalid params for method ").concat(method.as_str()),
                ),
            }
        } else {
            Err(String::from_str("invalid method string ").concat(method.as_str()))
        }
    }
}

impl AnyAgentResult {
    /// Writes this response's payload as JSON.
    pub fn to_json(&self) -> (j: Json)
        ensures
            jval(j) == enc_agent_result(*self),
    {
        match self {
            AnyAgentResult::InitializeResponse(p) => p.to_json(),
            AnyAgentResult::AuthenticateResponse(_) => unit_to_json(),
            AnyAgentResult::CreateThreadResponse(p) => p.to_json(),
            AnyAgentResult::SendUserMessageResponse(_) => unit_to_json(),
            AnyAgentResult::CancelSendMessageResponse(_) => unit_to_json(),
        }
    }

    /// Decodes a response from the method it answers and its raw
    /// payload.
    pub fn from_method_and_result(method: &String, result: &Json) -> (r: Result<
        AnyAgentResult,
        String,
    >)
        ensures
            r matches Ok(y) ==> agent_response_pairs(method@, y) && reads_agent_result(
                y,
                jval(*result),
            ),
            r is Err ==> forall|y: AnyAgentResult|
                !(agent_response_pairs(method@, y) && reads_agent_result(y, jval(*result))),
            r matches Err(m) ==> m@ == if is_agent_method(method@) {
                invalid_params_message(method@)
            } else {
                unknown_method_message(method@)
            },
    {
        proof {
            lemma_agent_methods_distinct();
        }
        if method.eq(&String::from_str("initialize")) {
            match InitializeResponse::from_json(result) {
                Some(p) => Ok(AnyAgentResult::InitializeResponse(p)),
                None => Err(
                    String::from_str("invalid params for method ").concat(method.as_str()),
                ),
            }
        } else if method.eq(&String::from_str("authenticate")) {
            if unit_from_json(result) {
                Ok(AnyAgentResult::AuthenticateResponse(AuthenticateResponse))
            } else {
                Err(String::from_str("invalid params for method ").concat(method.as_str()))
            }
        } else if method.eq(&String::from_str("createThread")) {
            match CreateThreadResponse::from_json(result) {
                Some(p) => Ok(AnyAgentResult::CreateThreadResponse(p)),
                None => Err(
                    String::from_str("invalid params for method ").concat(method.as_str()),
                ),
            }
        } else if method.eq(&String::from_str("sendUserMessage")) {
            if unit_from_json(result) {
                Ok(AnyAgentResult::SendUserMessageResponse(SendUserMessageResponse))
            } else {
                Err(String::from_str("invalid params for method ").concat(method.as_str()))
            }
        } else if method.eq(&String::from_str("cancelSendMessage")) {
            if unit_from_json(result) {
                Ok(AnyAgentResult::CancelSendMessageResponse(CancelSendMessageResponse))
            } else {
                Err(String::from_str("invalid params for method ").concat(method.as_str()))
            }
        } else {
            Err(String::from_str("invalid method string ").concat(method.as_str()))
        }
    }
}

/// One role's request sum, as the generic surface a registry offers: a
/// method-keyed decoder for requests, one for the responses that answer
/// them, and the wire form of each request. The two role sums implement
/// it by delegating to their contract-carrying inherent functions.
pub trait AnyRequest: Sized {
    type Response;

    /// Decodes a request of this role from its method name and raw
    /// parameters.
    fn from_method_and_params(method: &String, params: &Json) -> Result<Self, String>;

    /// Decodes a response of this role from the method it answers and
    /// its raw payload.
    fn response_from_method_and_result(method: &String, result: &Json) -> Result<
        Self::Response,
        String,
    >;

    /// The wire name of this request's method.
    fn method_name(&self) -> &'static str;

    /// Writes this request's parameters as JSON.
    fn to_json(&self) -> Json;
}

impl AnyRequest for AnyClientRequest {
    type Response = AnyClientResult;

    fn from_method_and_params(method: &String, params: &Json) -> (r: Result<Self, String>)
        ensures
            r matches Ok(x) ==> client_request_method(x) == method@ && reads_client_request(
                x,
                jval(*params),
            ),
            r is Err ==> forall|x: AnyClientRequest|
                !(client_request_method(x) == method@ && reads_client_request(x, jval(*params))),
    {
        AnyClientRequest::from_method_and_params(method, params)
    }

    fn response_from_method_and_result(method: &String, result: &Json) -> (r: Result<
        Self::Response,
        String,
    >)
        ensures
            r matches Ok(y) ==> client_response_pairs(method@, y) && reads_client_result(
                y,
                jval(*result),
            ),
            r is Err ==> forall|y: AnyClientResult|
                !(client_response_pairs(method@, y) && reads_client_result(y, jval(*result))),
    {
        AnyClientResult::from_method_and_result(method, result)
    }

    fn method_name(&self) -> (m: &'static str)
        ensures
            m@ == client_request_method(*self),
    {
        AnyClientRequest::method_name(self)
    }

    fn to_json(&self) -> (j: Json)
        ensures
            jval(j) == enc_client_request(*self),
    {
        AnyClientRequest::to_json(self)
    }
}

impl AnyRequest for AnyAgentRequest {
    type Response = AnyAgentResult;

    fn from_method_and_params(method: &String, params: &Json) -> (r: Result<Self, String>)
        ensures
            r matches Ok(x) ==> agent_request_method(x) == method@ && reads_agent_request(
                x,
                jval(*params),
            ),
            r is Err ==> forall|x: AnyAgentRequest|
                !(agent_request_method(x) == method@ && reads_agent_request(x, jval(*params))),
    {
        AnyAgentRequest::from_method_and_params(method, params)
    }

    fn response_from_method_and_result(method: &String, result: &Json) -> (r: Result<
        Self::Response,
        String,
    >)
        ensures
            r matches Ok(y) ==> agent_response_pairs(method@, y) && reads_agent_result(
                y,
                jval(*result),
            ),
            r is Err ==> forall|y: AnyAgentResult|
                !(agent_response_pairs(method@, y) && reads_agent_result(y, jval(*result))),
    {
        AnyAgentResult::from_method_and_result(method, result)
    }

    fn method_name(&self) -> (m: &'static str)
        ensures
            m@ == agent_request_method(*self),
    {
        AnyAgentRequest::method_name(self)
    }

    fn to_json(&self) -> (j: Json)
        ensures
            jval(j) == enc_agent_request(*self),
    {
        AnyAgentRequest::to_json(self)
    }
}

/// A typed request the connection's client side may send: it knows its
/// sum variant and which response variant answers it.
pub trait ClientRequest: Sized {
    type Response;

    /// Lifts this request into the client-facing sum.
    fn into_any(self) -> AnyClientRequest;

    /// Projects the response sum back to this request's response type.
    fn response_from_any(any: AnyClientResult) -> Option<Self::Response>;
}

/// A typed request the connection's agent side may send.
pub trait AgentRequest: Sized {
    type Response;

    /// Lifts this request into the agent-facing sum.
    fn into_any(self) -> AnyAgentRequest;

    /// Projects the response sum back to this request's response type.
    fn response_from_any(any: AnyAgentResult) -> Option<Self::Response>;
}

impl ClientRequest for StreamAssistantMessageChunkParams {
    type Response = StreamAssistantMessageChunkResponse;

    fn into_any(self) -> (r: AnyClientRequest)
        ensures
            r == AnyClientRequest::StreamAssistantMessageChunkParams(self),
    {
        AnyClientRequest::StreamAssistantMessageChunkParams(self)
    }

    fn response_from_any(any: AnyClientResult) -> (r: Option<Self::Response>)
        ensures
            match any {
                AnyClientResult::StreamAssistantMessageChunkResponse(resp) => r == Some(resp),
                _ => r is None,
            },
    {
        match any {
            AnyClientResult::StreamAssistantMessageChunkResponse(r) => Some(r),
            _ => None,
        }
    }
}

impl ClientRequest for RequestToolCallConfirmationParams {
    type Response = RequestToolCallConfirmationResponse;

    fn into_any(self) -> (r: AnyClientRequest)
        ensures
            r == AnyClientRequest::RequestToolCallConfirmationParams(self),
    {
        AnyClientRequest::RequestToolCallConfirmationParams(self)
    }

    fn response_from_any(any: AnyClientResult) -> (r: Option<Self::Response>)
        ensures
            match any {
                AnyClientResult::RequestToolCallConfirmationResponse(resp) => r == Some(resp),
                _ => r is None,
            },
    {
        match any {
            AnyClientResult::RequestToolCallConfirmationResponse(r) => Some(r),
            _ => None,
        }
    }
}

impl ClientRequest for PushToolCallParams {
    type Response = PushToolCallResponse;

    fn into_any(self) -> (r: AnyClientRequest)
        ensures
            r == AnyClientRequest::PushToolCallParams(self),
    {
        AnyClientRequest::PushToolCallParams(self)
    }

    fn response_from_any(any: AnyClientResult) -> (r: Option<Self::Response>)
        ensures
            match any {
                AnyClientResult::PushToolCallResponse(resp) => r == Some(resp),
                _ => r is None,
            },
    {
        match any {
            AnyClientResult::PushToolCallResponse(r) => Some(r),
            _ => None,
        }
    }
}

impl ClientRequest for UpdateToolCallParams {
    type Response = UpdateToolCallResponse;

    fn into_any(self) -> (r: AnyClientRequest)
        ensures
            r == AnyClientRequest::UpdateToolCallParams(self),
    {
        AnyClientRequest::UpdateToolCallParams(self)
    }

    fn response_from_any(any: AnyClientResult) -> (r: Option<Self::Response>)
        ensures
            match any {
                AnyClientResult::UpdateToolCallResponse(resp) => r == Some(resp),
                _ => r is None,
            },
    {
        match any {
            AnyClientResult::UpdateToolCallResponse(r) => Some(r),
            _ => None,
        }
    }
}

impl AgentRequest for InitializeParams {
    type Response = InitializeResponse;

    fn into_any(self) -> (r: AnyAgentRequest)
        ensures
            r == AnyAgentRequest::InitializeParams(self),
    {
        AnyAgentRequest::InitializeParams(self)
    }

    fn response_from_any(any: AnyAgentResult) -> (r: Option<Self::Response>)
        ensures
            match any {
                AnyAgentResult::InitializeResponse(resp) => r == Some(resp),
                _ => r is None,
            },
    {
        match any {
            AnyAgentResult::InitializeResponse(r) => Some(r),
            _ => None,
        }
    }
}

impl AgentRequest for AuthenticateParams {
    type Response = AuthenticateResponse;

    fn into_any(self) -> (r: AnyAgentRequest)
        ensures
            r == AnyAgentRequest::AuthenticateParams(self),
    {
        AnyAgentRequest::AuthenticateParams(self)
    }

    fn response_from_any(any: AnyAgentResult) -> (r: Option<Self::Response>)
        ensures
            match any {
                AnyAgentResult::AuthenticateResponse(resp) => r == Some(resp),
                _ => r is None,
            },
    {
        match any {
            AnyAgentResult::AuthenticateResponse(r) => Some(r),
            _ => None,
        }
    }
}

impl AgentRequest for CreateThreadParams {
    type Response = CreateThreadResponse;

    fn into_any(self) -> (r: AnyAgentRequest)
        ensures
            r == AnyAgentRequest::CreateThreadParams(self),
    {
        AnyAgentRequest::CreateThreadParams(self)
    }

    fn response_from_any(any: AnyAgentResult) -> (r: Option<Self::Response>)
        ensures
            match any {
                AnyAgentResult::CreateThreadResponse(resp) => r == Some(resp),
                _ => r is None,
            },
    {
        match any {
            AnyAgentResult::CreateThreadResponse(r) => Some(r),
            _ => None,
        }
    }
}

impl AgentRequest for SendUserMessageParams {
    type Response = SendUserMessageResponse;

    fn into_any(self) -> (r: AnyAgentRequest)
        ensures
            r == AnyAgentRequest::SendUserMessageParams(self),
    {
        AnyAgentRequest::SendUserMessageParams(self)
    }

    fn response_from_any(any: AnyAgentResult) -> (r: Option<Self::Response>)
        ensures
            match any {
                AnyAgentResult::SendUserMessageResponse(resp) => r == Some(resp),
                _ => r is None,
            },
    {
        match any {
            AnyAgentResult::SendUserMessageResponse(r) => Some(r),
            _ => None,
        }
    }
}

impl AgentRequest for CancelSendMessageParams {
    type Response = CancelSendMessageResponse;

    fn into_any(self) -> (r: AnyAgentRequest)
        ensures
            r == AnyAgentRequest::CancelSendMessageParams(self),
    {
        AnyAgentRequest::CancelSendMessageParams(self)
    }

    fn response_from_any(any: AnyAgentResult) -> (r: Option<Self::Response>)
        ensures
            match any {
                AnyAgentResult::CancelSendMessageResponse(resp) => r == Some(resp),
                _ => r is None,
            },
    {
        match any {
            AnyAgentResult::CancelSendMessageResponse(r) => Some(r),
            _ => None,
        }
    }
}

/// A handler for the client-facing methods.
pub trait Client {
    fn stream_assistant_message_chunk(&self, request: StreamAssistantMessageChunkParams) -> Result<
        StreamAssistantMessageChunkResponse,
        String,
    >;

    fn request_tool_call_confirmation(&self, request: RequestToolCallConfirmationParams) -> Result<
        RequestToolCallConfirmationResponse,
        String,
    >;

    fn push_tool_call(&self, request: PushToolCallParams) -> Result<PushToolCallResponse, String>;

    fn update_tool_call(&self, request: UpdateToolCallParams) -> Result<
        UpdateToolCallResponse,
        String,
    >;
}

/// A handler for the agent-facing methods.
pub trait Agent {
    fn initialize(&self, request: InitializeParams) -> Result<InitializeResponse, String>;

    fn authenticate(&self, request: AuthenticateParams) -> Result<AuthenticateResponse, String>;

    fn create_thread(&self, request: CreateThreadParams) -> Result<CreateThreadResponse, String>;

    fn send_user_message(&self, request: SendUserMessageParams) -> Result<
        SendUserMessageResponse,
        String,
    >;

    fn cancel_send_message(&self, request: CancelSendMessageParams) -> Result<
        CancelSendMessageResponse,
        String,
    >;
}

/// Which client response variant answers which client request variant.
pub open spec fn client_call_pairs(req: AnyClientRequest, resp: AnyClientResult) -> bool {
    client_response_pairs(client_request_method(req), resp)
}

/// Dispatches one client-facing request to its handler method and lifts
/// the outcome back into the response sum: a success always answers
/// with the variant that pairs with the request's method.
pub fn dispatch_client<H: Client>(handler: &H, request: AnyClientRequest) -> (r: Result<
    AnyClientResult,
    String,
>)
    ensures
        r matches Ok(y) ==> client_call_pairs(request, y),
{
    match request {
        AnyClientRequest::StreamAssistantMessageChunkParams(p) => {
            match handler.stream_assistant_message_chunk(p) {
                Ok(resp) => Ok(AnyClientResult::StreamAssistantMessageChunkResponse(resp)),
                Err(e) => Err(e),
            }
        },
        AnyClientRequest::RequestToolCallConfirmationParams(p) => {
            match handler.request_tool_call_confirmation(p) {
                Ok(resp) => Ok(AnyClientResult::RequestToolCallConfirmationResponse(resp)),
                Err(e) => Err(e),
            }
        },
        AnyClientRequest::PushToolCallParams(p) => {
            match handler.push_tool_call(p) {
                Ok(resp) => Ok(AnyClientResult::PushToolCallResponse(resp)),
                Err(e) => Err(e),
            }
        },
        AnyClientRequest::UpdateToolCallParams(p) => {
            match handler.update_tool_call(p) {
                Ok(resp) => Ok(AnyClientResult::UpdateToolCallResponse(resp)),
                Err(e) => Err(e),
            }
        },
    }
}

/// Which agent response variant answers which agent request variant.
pub open spec fn agent_call_pairs(req: AnyAgentRequest, resp: AnyAgentResult) -> bool {
    agent_response_pairs(agent_request_method(req), resp)
}

/// Dispatches one agent-facing request to its handler method and lifts
/// the outcome back into the response sum.
pub fn dispatch_agent<H: Agent>(handler: &H, request: AnyAgentRequest) -> (r: Result<
    AnyAgentResult,
    String,
>)
    ensures
        r matches Ok(y) ==> agent_call_pairs(request, y),
{
    match request {
        AnyAgentRequest::InitializeParams(p) => {
            match handler.initialize(p) {
                Ok(resp) => Ok(AnyAgentResult::InitializeResponse(resp)),
                Err(e) => Err(e),
            }
        },
        AnyAgentRequest::AuthenticateParams(p) => {
            match handler.authenticate(p) {
                Ok(resp) => Ok(AnyAgentResult::AuthenticateResponse(resp)),
                Err(e) => Err(e),
            }
        },
        AnyAgentRequest::CreateThreadParams(p) => {
            match handler.create_thread(p) {
                Ok(resp) => Ok(AnyAgentResult::CreateThreadResponse(resp)),
                Err(e) => Err(e),
            }
        },
        AnyAgentRequest::SendUserMessageParams(p) => {
            match handler.send_user_message(p) {
                Ok(resp) => Ok(AnyAgentResult::SendUserMessageResponse(resp)),
                Err(e) => Err(e),
            }
        },
        AnyAgentRequest::CancelSendMessageParams(p) => {
            match handler.cancel_send_message(p) {
                Ok(resp) => Ok(AnyAgentResult::CancelSendMessageResponse(resp)),
                Err(e) => Err(e),
            }
        },
    }
}

/// The client-facing method table, in catalog order.
pub fn client_methods() -> (v: Vec<Method>)
    ensures
        v@.len() == 4,
        v@[0].name@ == "streamAssistantMessageChunk"@,
        v@[0].request_type@ == "StreamAssistantMessageChunkParams"@,
        v@[0].response_type@ == "StreamAssistantMessageChunkResponse"@,
        v@[1].name@ == "requestToolCallConfirmation"@,
        v@[1].request_type@ == "RequestToolCallConfirmationParams"@,
        v@[1].response_type@ == "RequestToolCallConfirmationResponse"@,
        v@[2].name@ == "pushToolCall"@,
        v@[2].request_type@ == "PushToolCallParams"@,
        v@[2].response_type@ == "PushToolCallResponse"@,
        v@[3].name@ == "updateToolCall"@,
        v@[3].request_type@ == "UpdateToolCallParams"@,
        v@[3].response_type@ == "UpdateToolCallResponse"@,
{
    let mut v: Vec<Method> = Vec::new();
    v.push(
        Method {
            name: "streamAssistantMessageChunk",
            request_type: "StreamAssistantMessageChunkParams",
            response_type: "StreamAssistantMessageChunkResponse",
        },
    );
    v.push(
        Method {
            name: "requestToolCallConfirmation",
            request_type: "RequestToolCallConfirmationParams",
            response_type: "RequestToolCallConfirmationResponse",
        },
    );
    v.push(
        Method {
            name: "pushToolCall",
            request_type: "PushToolCallParams",
            response_type: "PushToolCallResponse",
        },
    );
    v.push(
        Method {
            name: "updateToolCall",
            request_type: "UpdateToolCallParams",
            response_type: "UpdateToolCallResponse",
        },
    );
    v
}

/// The agent-facing method table, in catalog order.
pub fn agent_methods() -> (v: Vec<Method>)
    ensures
        v@.len() == 5,
        v@[0].name@ == "initialize"@,
        v@[0].request_type@ == "InitializeParams"@,
        v@[0].response_type@ == "InitializeResponse"@,
        v@[1].name@ == "authenticate"@,
        v@[1].request_type@ == "AuthenticateParams"@,
        v@[1].response_type@ == "AuthenticateResponse"@,
        v@[2].name@ == "createThread"@,
        v@[2].request_type@ == "CreateThreadParams"@,
        v@[2].response_type@ == "CreateThreadResponse"@,
        v@[3].name@ == "sendUserMessage"@,
        v@[3].request_type@ == "SendUserMessageParams"@,
        v@[3].response_type@ == "SendUserMessageResponse"@,
        v@[4].name@ == "cancelSendMessage"@,
        v@[4].request_type@ == "CancelSendMessageParams"@,
        v@[4].response_type@ == "CancelSendMessageResponse"@,
{
    let mut v: Vec<Method> = Vec::new();
    v.push(
        Method {
            name: "initialize",
            request_type: "InitializeParams",
            response_type: "InitializeResponse",
        },
    );
    v.push(
        Method {
            name: "authenticate",
            request_type: "AuthenticateParams",
            response_type: "AuthenticateResponse",
        },
    );
    v.push(
        Method {
            name: "createThread",
            request_type: "CreateThreadParams",
            response_type: "CreateThreadResponse",
        },
    );
    v.push(
        Method {
            name: "sendUserMessage",
            request_type: "SendUserMessageParams",
            response_type: "SendUserMessageResponse",
        },
    );
    v.push(
        Method {
            name: "cancelSendMessage",
            request_type: "CancelSendMessageParams",
            response_type: "CancelSendMessageResponse",
        },
    );
    v
}

} // verus!
