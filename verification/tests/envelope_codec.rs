use agentic_coding_protocol::{Envelope, Error, Json};

fn obj(members: Vec<(&str, Json)>) -> Json {
    Json::Obj(members.into_iter().map(|(k, v)| (k.to_string(), v)).collect())
}

#[test]
fn request_envelope_renders_exactly() {
    let env = Envelope::Request {
        id: 0,
        method: "pushToolCall".to_string(),
        params: obj(vec![("threadId", Json::Text("0".to_string()))]),
    };
    assert_eq!(env.encode(), "{\"id\":0,\"method\":\"pushToolCall\",\"params\":{\"threadId\":\"0\"}}");
}

#[test]
fn ok_response_envelope_renders_exactly() {
    let env = Envelope::OkResponse { id: 3, result: Json::Null };
    assert_eq!(env.encode(), "{\"id\":3,\"result\":null}");
}

#[test]
fn error_response_envelope_renders_exactly() {
    let env = Envelope::ErrorResponse {
        id: 5,
        error: Error { code: -32603, message: "boom".to_string() },
    };
    assert_eq!(env.encode(), "{\"id\":5,\"error\":{\"code\":-32603,\"message\":\"boom\"}}");
}

#[test]
fn classification_is_by_field_presence() {
    // a `method` field makes the frame a request
    let r = Envelope::decode("{\"id\":7,\"method\":\"nope\",\"params\":{}}").unwrap();
    match r {
        Envelope::Request { id, method, params } => {
            assert_eq!(id, 7);
            assert_eq!(method, "nope");
            assert_eq!(params, Json::Obj(vec![]));
        },
        _ => panic!("expected a request"),
    }
    // otherwise an `error` field makes it an error response
    let r = Envelope::decode("{\"id\":2,\"error\":{\"code\":-1,\"message\":\"m\"}}").unwrap();
    match r {
        Envelope::ErrorResponse { id, error } => {
            assert_eq!(id, 2);
            assert_eq!(error.code, -1);
            assert_eq!(error.message, "m");
        },
        _ => panic!("expected an error response"),
    }
    // otherwise it is a success response
    let r = Envelope::decode("{\"id\":9,\"result\":true}").unwrap();
    match r {
        Envelope::OkResponse { id, result } => {
            assert_eq!(id, 9);
            assert_eq!(result, Json::Bool(true));
        },
        _ => panic!("expected a success response"),
    }
}

#[test]
fn absent_params_and_result_stand_for_null() {
    let r = Envelope::decode("{\"id\":1,\"method\":\"initialize\"}").unwrap();
    match r {
        Envelope::Request { params, .. } => assert_eq!(params, Json::Null),
        _ => panic!("expected a request"),
    }
    let r = Envelope::decode("{\"id\":1}").unwrap();
    match r {
        Envelope::OkResponse { result, .. } => assert_eq!(result, Json::Null),
        _ => panic!("expected a success response"),
    }
}

#[test]
fn frames_without_a_usable_id_are_malformed() {
    assert!(Envelope::decode("{\"method\":\"initialize\"}").is_none());
    assert!(Envelope::decode("{\"id\":\"seven\",\"method\":\"x\"}").is_none());
    assert!(Envelope::decode("{\"id\":4294967296,\"method\":\"x\"}").is_none());
    assert!(Envelope::decode("[]").is_none());
    assert!(Envelope::decode("null").is_none());
    assert!(Envelope::decode("not json at all").is_none());
}

#[test]
fn envelopes_round_trip() {
    let envs = vec![
        Envelope::Request {
            id: i32::MAX,
            method: "updateToolCall".to_string(),
            params: obj(vec![("x", Json::Int(1))]),
        },
        Envelope::OkResponse { id: -1, result: Json::Arr(vec![Json::Null]) },
        Envelope::ErrorResponse {
            id: 0,
            error: Error { code: i32::MIN, message: "sad \"quote\"".to_string() },
        },
    ];
    for env in envs {
        let line = env.encode();
        let back = Envelope::decode(&line).expect("own frames must decode");
        assert_eq!(back.encode(), line);
    }
}
