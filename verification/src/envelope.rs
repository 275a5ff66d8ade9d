//! Wire envelopes.
//!
//! Every frame is one JSON object: a request (it has a `method` field),
//! an error response (no `method`, but an `error` field), or a success
//! response (neither). The correlation id is required; absent `params`
//! or `result` fields stand for `null`.

use vstd::prelude::*;
use crate::json::{Json, JsonVal, jval, ser};
use crate::parse::parse_doc;
use crate::roundtrip::{wf_jval, lemma_exec_jval_wf, theorem_json_round_trip};

verus! {

broadcast use {vstd::std_specs::vec::group_vec_axioms, vstd::seq::group_seq_axioms};

/// A protocol error: an opaque code and a free-form message.
#[derive(Debug, Clone, PartialEq, Eq)]
pub struct Error {
    pub code: i32,
    pub message: String,
}

/// One frame of the protocol, already classified.
#[derive(Debug, PartialEq, Eq)]
pub enum Envelope {
    Request { id: i32, method: String, params: Json },
    OkResponse { id: i32, result: Json },
    ErrorResponse { id: i32, error: Error },
}

/// The mathematical model of a frame.
pub enum EnvVal {
    Request { id: int, method: Seq<char>, params: JsonVal },
    OkResponse { id: int, result: JsonVal },
    ErrorResponse { id: int, code: int, message: Seq<char> },
}

impl View for Envelope {
    type V = EnvVal;

    open spec fn view(&self) -> EnvVal {
        match self {
            Envelope::Request { id, method, params } => EnvVal::Request {
                id: *id as int,
                method: method@,
                params: params@,
            },
            Envelope::OkResponse { id, result } => EnvVal::OkResponse {
                id: *id as int,
                result: result@,
            },
            Envelope::ErrorResponse { id, error } => EnvVal::ErrorResponse {
                id: *id as int,
                code: error.code as int,
                message: error.message@,
            },
        }
    }
}

/// The correlation id of a frame.
pub open spec fn env_id(e: EnvVal) -> int {
    match e {
        EnvVal::Request { id, .. } => id,
        EnvVal::OkResponse { id, .. } => id,
        EnvVal::ErrorResponse { id, .. } => id,
    }
}

/// The `id` key.
pub open spec fn key_id() -> Seq<char> {
    seq!['i', 'd']
}

/// The `method` key.
pub open spec fn key_method() -> Seq<char> {
    seq!['m', 'e', 't', 'h', 'o', 'd']
}

/// The `params` key.
pub open spec fn key_params() -> Seq<char> {
    seq!['p', 'a', 'r', 'a', 'm', 's']
}

/// The `result` key.
pub open spec fn key_result() -> Seq<char> {
    seq!['r', 'e', 's', 'u', 'l', 't']
}

/// The `error` key.
pub open spec fn key_error() -> Seq<char> {
    seq!['e', 'r', 'r', 'o', 'r']
}

/// The `code` key.
pub open spec fn key_code() -> Seq<char> {
    seq!['c', 'o', 'd', 'e']
}

/// The `message` key.
pub open spec fn key_message() -> Seq<char> {
    seq!['m', 'e', 's', 's', 'a', 'g', 'e']
}

/// The first binding of `key` among the members, if any.
pub open spec fn obj_get(members: Seq<(Seq<char>, JsonVal)>, key: Seq<char>) -> Option<JsonVal>
    decreases members,
{
    if members.len() == 0 {
        None
    } else if members.first().0 == key {
        Some(members.first().1)
    } else {
        obj_get(members.drop_first(), key)
    }
}

/// Whether `n` fits a correlation id or an error code.
pub open spec fn fits_i32(n: int) -> bool {
    i32::MIN <= n <= i32::MAX
}

/// The JSON object a frame is written as. Requests carry `id`, `method`
/// and `params`; successes `id` and `result`; errors `id` and an
/// `error` object with `code` and `message`.
pub open spec fn env_to_jval(e: EnvVal) -> JsonVal {
    match e {
        EnvVal::Request { id, method, params } => JsonVal::Obj(
            seq![
                (key_id(), JsonVal::Int(id)),
                (key_method(), JsonVal::Text(method)),
                (key_params(), params),
            ],
        ),
        EnvVal::OkResponse { id, result } => JsonVal::Obj(
            seq![(key_id(), JsonVal::Int(id)), (key_result(), result)],
        ),
        EnvVal::ErrorResponse { id, code, message } => JsonVal::Obj(
            seq![
                (key_id(), JsonVal::Int(id)),
                (
                    key_error(),
                    JsonVal::Obj(
                        seq![
                            (key_code(), JsonVal::Int(code)),
                            (key_message(), JsonVal::Text(message)),
                        ],
                    ),
                ),
            ],
        ),
    }
}

/// Classifies a parsed JSON value as a frame, by which fields are
/// present: a request has `method`, else an error response has `error`,
/// else the frame is a success response.
pub open spec fn classify(v: JsonVal) -> Option<EnvVal> {
    match v {
        JsonVal::Obj(members) => match obj_get(members, key_id()) {
            Some(JsonVal::Int(id)) => if fits_i32(id) {
                match obj_get(members, key_method()) {
                    Some(JsonVal::Text(method)) => Some(
                        EnvVal::Request {
                            id,
                            method,
                            params: match obj_get(members, key_params()) {
                                Some(p) => p,
                                None => JsonVal::Null,
                            },
                        },
                    ),
                    Some(_) => None,
                    None => match obj_get(members, key_error()) {
                        Some(JsonVal::Obj(emembers)) => match (
                            obj_get(emembers, key_code()),
                            obj_get(emembers, key_message()),
                        ) {
                            (Some(JsonVal::Int(code)), Some(JsonVal::Text(message))) => if fits_i32(
                                code,
                            ) {
                                Some(EnvVal::ErrorResponse { id, code, message })
                            } else {
                                None
                            },
                            _ => None,
                        },
                        Some(_) => None,
                        None => Some(
                            EnvVal::OkResponse {
                                id,
                                result: match obj_get(members, key_result()) {
                                    Some(r) => r,
                                    None => JsonVal::Null,
                                },
                            },
                        ),
                    },
                }
            } else {
                None
            },
            _ => None,
        },
        _ => None,
    }
}

/// Decodes one line of wire text into a frame: parse, then classify.
pub open spec fn decode_frame(s: Seq<char>) -> Option<EnvVal> {
    match parse_doc(s) {
        None => None,
        Some(v) => classify(v),
    }
}

/// A frame whose numbers the executable representation can hold.
pub open spec fn wf_env(e: EnvVal) -> bool {
    match e {
        EnvVal::Request { id, method, params } => fits_i32(id) && wf_jval(params),
        EnvVal::OkResponse { id, result } => fits_i32(id) && wf_jval(result),
        EnvVal::ErrorResponse { id, code, message } => fits_i32(id) && fits_i32(code),
    }
}

/// The model of any executable envelope is well formed.
pub proof fn lemma_exec_env_wf(e: Envelope)
    ensures
        wf_env(e@),
{
    match e {
        Envelope::Request { id, method, params } => {
            lemma_exec_jval_wf(params);
        },
        Envelope::OkResponse { id, result } => {
            lemma_exec_jval_wf(result);
        },
        Envelope::ErrorResponse { .. } => {},
    }
}

/// The JSON object of a frame is well formed.
pub proof fn lemma_env_jval_wf(e: EnvVal)
    requires
        wf_env(e),
    ensures
        wf_jval(env_to_jval(e)),
{
    reveal_with_fuel(crate::roundtrip::wf_members, 5);
    reveal_with_fuel(crate::roundtrip::wf_jval, 3);
    match e {
        EnvVal::Request { id, method, params } => {
            let ms = seq![
                (key_id(), JsonVal::Int(id)),
                (key_method(), JsonVal::Text(method)),
                (key_params(), params),
            ];
            assert(ms.drop_first() =~= seq![(key_method(), JsonVal::Text(method)), (key_params(), params)]);
            assert(ms.drop_first().drop_first() =~= seq![(key_params(), params)]);
            assert(ms.drop_first().drop_first().drop_first() =~= Seq::<(Seq<char>, JsonVal)>::empty());
            assert(crate::roundtrip::wf_members(ms));
        },
        EnvVal::OkResponse { id, result } => {
            let ms = seq![(key_id(), JsonVal::Int(id)), (key_result(), result)];
            assert(ms.drop_first() =~= seq![(key_result(), result)]);
            assert(ms.drop_first().drop_first() =~= Seq::<(Seq<char>, JsonVal)>::empty());
            assert(crate::roundtrip::wf_members(ms));
        },
        EnvVal::ErrorResponse { id, code, message } => {
            let es = seq![(key_code(), JsonVal::Int(code)), (key_message(), JsonVal::Text(message))];
            assert(es.drop_first() =~= seq![(key_message(), JsonVal::Text(message))]);
            assert(es.drop_first().drop_first() =~= Seq::<(Seq<char>, JsonVal)>::empty());
            assert(crate::roundtrip::wf_members(es));
            let ms = seq![
                (key_id(), JsonVal::Int(id)),
                (key_error(), JsonVal::Obj(es)),
            ];
            assert(ms.drop_first() =~= seq![(key_error(), JsonVal::Obj(es))]);
            assert(ms.drop_first().drop_first() =~= Seq::<(Seq<char>, JsonVal)>::empty());
            assert(crate::roundtrip::wf_members(ms));
        },
    }
}

/// Classifying the JSON object of a frame yields the frame back.
pub proof fn lemma_classify_env(e: EnvVal)
    requires
        wf_env(e),
    ensures
        classify(env_to_jval(e)) == Some(e),
{
    reveal_with_fuel(obj_get, 6);
    match e {
        EnvVal::Request { id, method, params } => {
            let ms = seq![
                (key_id(), JsonVal::Int(id)),
                (key_method(), JsonVal::Text(method)),
                (key_params(), params),
            ];
            assert(key_method()[0] != key_id()[0]);
            assert(key_params()[0] != key_id()[0]);
            assert(ms.drop_first() =~= seq![(key_method(), JsonVal::Text(method)), (key_params(), params)]);
            assert(ms.drop_first().drop_first() =~= seq![(key_params(), params)]);
            assert(obj_get(ms, key_id()) == Some(JsonVal::Int(id)));
            assert(obj_get(ms, key_method()) == Some(JsonVal::Text(method)));
            assert(obj_get(ms, key_params()) == Some(params));
        },
        EnvVal::OkResponse { id, result } => {
            let ms = seq![(key_id(), JsonVal::Int(id)), (key_result(), result)];
            assert(key_result()[0] != key_id()[0]);
            assert(key_method().len() != key_id().len());
            assert(key_method()[0] != key_result()[0]);
            assert(key_error()[0] != key_id()[0]);
            assert(key_error()[0] != key_result()[0]);
            assert(ms.drop_first() =~= seq![(key_result(), result)]);
            assert(ms.drop_first().drop_first() =~= Seq::<(Seq<char>, JsonVal)>::empty());
            assert(obj_get(ms, key_id()) == Some(JsonVal::Int(id)));
            assert(obj_get(ms, key_method()) is None);
            assert(obj_get(ms, key_error()) is None);
            assert(obj_get(ms, key_result()) == Some(result));
        },
        EnvVal::ErrorResponse { id, code, message } => {
            let es = seq![(key_code(), JsonVal::Int(code)), (key_message(), JsonVal::Text(message))];
            let ms = seq![
                (key_id(), JsonVal::Int(id)),
                (key_error(), JsonVal::Obj(es)),
            ];
            assert(key_error()[0] != key_id()[0]);
            assert(key_method()[0] != key_id()[0]);
            assert(key_method()[0] != key_error()[0]);
            assert(key_message()[2] != key_method()[2]);
            assert(key_message()[0] != key_code()[0]);
            assert(ms.drop_first() =~= seq![(key_error(), JsonVal::Obj(es))]);
            assert(ms.drop_first().drop_first() =~= Seq::<(Seq<char>, JsonVal)>::empty());
            assert(es.drop_first() =~= seq![(key_message(), JsonVal::Text(message))]);
            assert(es.drop_first().drop_first() =~= Seq::<(Seq<char>, JsonVal)>::empty());
            assert(obj_get(ms, key_id()) == Some(JsonVal::Int(id)));
            assert(key_method().len() == 6 && key_id().len() == 2 && key_error().len() == 5);
            assert(obj_get(ms, key_method()) is None);
            assert(obj_get(ms, key_error()) == Some(JsonVal::Obj(es)));
            assert(obj_get(es, key_code()) == Some(JsonVal::Int(code)));
            assert(obj_get(es, key_message()) == Some(JsonVal::Text(message)));
        },
    }
}

/// The envelope round trip: decoding the serialized frame of any
/// well-formed envelope yields that envelope.
pub proof fn theorem_envelope_round_trip(e: EnvVal)
    requires
        wf_env(e),
    ensures
        decode_frame(ser(env_to_jval(e))) == Some(e),
{
    lemma_env_jval_wf(e);
    theorem_json_round_trip(env_to_jval(e));
    lemma_classify_env(e);
}

/// When the first match for `key` among executable members stands at
/// `idx`, the modelled lookup finds that member's value.
proof fn lemma_obj_get_index(members: Seq<(String, Json)>, key: Seq<char>, idx: int)
    requires
        0 <= idx < members.len(),
        members[idx].0@ == key,
        forall|k: int| 0 <= k < idx ==> members[k].0@ != key,
    ensures
        obj_get(crate::json::jval_members(members), key) == Some(jval(members[idx].1)),
    decreases idx,
{
    crate::json::lemma_jval_members_len(members);
    if idx == 0 {
    } else {
        assert(members.drop_first()[idx - 1] == members[idx]);
        assert(forall|k: int|
            0 <= k < idx - 1 ==> members.drop_first()[k] == members[k + 1]
                && members.drop_first()[k].0@ != key);
        lemma_obj_get_index(members.drop_first(), key, idx - 1);
        assert(crate::json::jval_members(members).drop_first() =~= crate::json::jval_members(
            members.drop_first(),
        ));
    }
}

/// When no executable member carries `key`, the modelled lookup fails.
proof fn lemma_obj_get_none(members: Seq<(String, Json)>, key: Seq<char>)
    requires
        forall|k: int| 0 <= k < members.len() ==> members[k].0@ != key,
    ensures
        obj_get(crate::json::jval_members(members), key) is None,
    decreases members,
{
    crate::json::lemma_jval_members_len(members);
    if members.len() > 0 {
        assert(forall|k: int|
            0 <= k < members.drop_first().len() ==> members.drop_first()[k] == members[k + 1]
                && members.drop_first()[k].0@ != key);
        lemma_obj_get_none(members.drop_first(), key);
        assert(crate::json::jval_members(members).drop_first() =~= crate::json::jval_members(
            members.drop_first(),
        ));
    }
}

/// The index of the first member bound to `key`, if any.
pub(crate) fn obj_find(members: &Vec<(String, Json)>, key: &String) -> (r: Option<usize>)
    ensures
        match r {
            Some(idx) => idx < members@.len() && members@[idx as int].0@ == key@ && obj_get(
                crate::json::jval_members(members@),
                key@,
            ) == Some(jval(members@[idx as int].1)),
            None => obj_get(crate::json::jval_members(members@), key@) is None,
        },
{
    let mut i: usize = 0;
    while i < members.len()
        invariant
            i <= members@.len(),
            forall|k: int| 0 <= k < i ==> members@[k].0@ != key@,
        decreases members@.len() - i,
    {
        if members[i].0.eq(key) {
            proof {
                lemma_obj_get_index(members@, key@, i as int);
            }
            return Some(i);
        }
        i = i + 1;
    }
    proof {
        lemma_obj_get_none(members@, key@);
    }
    None
}

impl Envelope {
    /// Builds the JSON object this frame is written as.
    pub fn into_json(self) -> (j: Json)
        ensures
            j@ == env_to_jval(self@),
    {
        proof {
            reveal_strlit("id");
            reveal_strlit("method");
            reveal_strlit("params");
            reveal_strlit("result");
            reveal_strlit("error");
            reveal_strlit("code");
            reveal_strlit("message");
        }
        match self {
            Envelope::Request { id, method, params } => {
                let ghost model = EnvVal::Request {
                    id: id as int,
                    method: method@,
                    params: params@,
                };
                let mut members: Vec<(String, Json)> = Vec::new();
                members.push((String::from_str("id"), Json::Int(id as i128)));
                members.push((String::from_str("method"), Json::Text(method)));
                members.push((String::from_str("params"), params));
                proof {
                    assert(("id")@ =~= key_id());
                    assert(("method")@ =~= key_method());
                    assert(("params")@ =~= key_params());
                    lemma_members_model_3(members@, key_id(), key_method(), key_params());
                    assert(jval(Json::Obj(members)) =~~= env_to_jval(model));
                }
                Json::Obj(members)
            },
            Envelope::OkResponse { id, result } => {
                let ghost model = EnvVal::OkResponse { id: id as int, result: result@ };
                let mut members: Vec<(String, Json)> = Vec::new();
                members.push((String::from_str("id"), Json::Int(id as i128)));
                members.push((String::from_str("result"), result));
                proof {
                    assert(("id")@ =~= key_id());
                    assert(("result")@ =~= key_result());
                    lemma_members_model_2(members@, key_id(), key_result());
                    assert(jval(Json::Obj(members)) =~~= env_to_jval(model));
                }
                Json::Obj(members)
            },
            Envelope::ErrorResponse { id, error } => {
                let ghost model = EnvVal::ErrorResponse {
                    id: id as int,
                    code: error.code as int,
                    message: error.message@,
                };
                let mut emembers: Vec<(String, Json)> = Vec::new();
                emembers.push((String::from_str("code"), Json::Int(error.code as i128)));
                emembers.push((String::from_str("message"), Json::Text(error.message)));
                let mut members: Vec<(String, Json)> = Vec::new();
                members.push((String::from_str("id"), Json::Int(id as i128)));
                members.push((String::from_str("error"), Json::Obj(emembers)));
                proof {
                    assert(("id")@ =~= key_id());
                    assert(("error")@ =~= key_error());
                    assert(("code")@ =~= key_code());
                    assert(("message")@ =~= key_message());
                    lemma_members_model_2(emembers@, key_code(), key_message());
                    lemma_members_model_2(members@, key_id(), key_error());
                    assert(jval(Json::Obj(members)) =~~= env_to_jval(model));
                }
                Json::Obj(members)
            },
        }
    }

    /// Serializes this frame as one line of wire text, without the
    /// newline.
    pub fn encode(self) -> (s: String)
        ensures
            s@ == ser(env_to_jval(self@)),
    {
        let j = self.into_json();
        j.to_text()
    }

    /// Decodes one line of wire text: parse the JSON, then classify the
    /// object by which fields are present. `None` reports a malformed
    /// frame, which the engine drops.
    pub fn decode(line: &str) -> (r: Option<Envelope>)
        ensures
            match r {
                Some(e) => decode_frame(line@) == Some(e@),
                None => decode_frame(line@) is None,
            },
    {
        match crate::parse::parse_json(line) {
            None => None,
            Some(j) => Envelope::classify_json(j),
        }
    }

    /// Classifies a parsed JSON value as a frame.
    pub fn classify_json(j: Json) -> (r: Option<Envelope>)
        ensures
            match r {
                Some(e) => classify(jval(j)) == Some(e@),
                None => classify(jval(j)) is None,
            },
    {
        proof {
            reveal_strlit("id");
            reveal_strlit("method");
            reveal_strlit("params");
            reveal_strlit("result");
            reveal_strlit("error");
            reveal_strlit("code");
            reveal_strlit("message");
        }
        let key_id_s = String::from_str("id");
        let key_method_s = String::from_str("method");
        let key_params_s = String::from_str("params");
        let key_result_s = String::from_str("result");
        let key_error_s = String::from_str("error");
        let key_code_s = String::from_str("code");
        let key_message_s = String::from_str("message");
        proof {
            assert(key_id_s@ =~= key_id());
            assert(key_method_s@ =~= key_method());
            assert(key_params_s@ =~= key_params());
            assert(key_result_s@ =~= key_result());
            assert(key_error_s@ =~= key_error());
            assert(key_code_s@ =~= key_code());
            assert(key_message_s@ =~= key_message());
        }
        let mut members: Vec<(String, Json)> = match j {
            Json::Obj(members) => members,
            _ => {
                return None;
            },
        };
        let id: i32 = match obj_find(&members, &key_id_s) {
            None => {
                return None;
            },
            Some(idx) => match &members[idx].1 {
                Json::Int(n) => {
                    if *n < i32::MIN as i128 || *n > i32::MAX as i128 {
                        return None;
                    }
                    *n as i32
                },
                _ => {
                    return None;
                },
            },
        };
        match obj_find(&members, &key_method_s) {
            Some(midx) => {
                let method: String = match &members[midx].1 {
                    Json::Text(m) => m.clone(),
                    _ => {
                        return None;
                    },
                };
                let params: Json = match obj_find(&members, &key_params_s) {
                    Some(pidx) => members.swap_remove(pidx).1,
                    None => Json::Null,
                };
                Some(Envelope::Request { id, method, params })
            },
            None => {
                match obj_find(&members, &key_error_s) {
                    Some(eidx) => match &members[eidx].1 {
                        Json::Obj(emembers) => {
                            let code: i32 = match obj_find(emembers, &key_code_s) {
                                None => {
                                    return None;
                                },
                                Some(cidx) => match &emembers[cidx].1 {
                                    Json::Int(n) => {
                                        if *n < i32::MIN as i128 || *n > i32::MAX as i128 {
                                            return None;
                                        }
                                        *n as i32
                                    },
                                    _ => {
                                        return None;
                                    },
                                },
                            };
                            let message: String = match obj_find(emembers, &key_message_s) {
                                None => {
                                    return None;
                                },
                                Some(midx2) => match &emembers[midx2].1 {
                                    Json::Text(m) => m.clone(),
                                    _ => {
                                        return None;
                                    },
                                },
                            };
                            Some(Envelope::ErrorResponse { id, error: Error { code, message } })
                        },
                        _ => None,
                    },
                    None => {
                        let result: Json = match obj_find(&members, &key_result_s) {
                            Some(ridx) => members.swap_remove(ridx).1,
                            None => Json::Null,
                        };
                        Some(Envelope::OkResponse { id, result })
                    },
                }
            },
        }
    }
}

/// The model of a two-member executable object.
proof fn lemma_members_model_2(members: Seq<(String, Json)>, k0: Seq<char>, k1: Seq<char>)
    requires
        members.len() == 2,
        members[0].0@ == k0,
        members[1].0@ == k1,
    ensures
        crate::json::jval_members(members) =~= seq![
            (k0, jval(members[0].1)),
            (k1, jval(members[1].1)),
        ],
{
    reveal_with_fuel(crate::json::jval_members, 3);
    assert(members.drop_first()[0] == members[1]);
    assert(members.drop_first().drop_first() =~= Seq::<(String, Json)>::empty());
}

/// The model of a three-member executable object.
proof fn lemma_members_model_3(
    members: Seq<(String, Json)>,
    k0: Seq<char>,
    k1: Seq<char>,
    k2: Seq<char>,
)
    requires
        members.len() == 3,
        members[0].0@ == k0,
        members[1].0@ == k1,
        members[2].0@ == k2,
    ensures
        crate::json::jval_members(members) =~= seq![
            (k0, jval(members[0].1)),
            (k1, jval(members[1].1)),
            (k2, jval(members[2].1)),
        ],
{
    reveal_with_fuel(crate::json::jval_members, 4);
    assert(members.drop_first()[0] == members[1]);
    assert(members.drop_first()[1] == members[2]);
    assert(members.drop_first().drop_first()[0] == members[2]);
    assert(members.drop_first().drop_first().drop_first() =~= Seq::<(String, Json)>::empty());
}

} // verus!
