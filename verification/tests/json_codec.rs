use agentic_coding_protocol::Json;
use agentic_coding_protocol::parse::parse_json;

fn obj(members: Vec<(&str, Json)>) -> Json {
    Json::Obj(members.into_iter().map(|(k, v)| (k.to_string(), v)).collect())
}

fn text(s: &str) -> Json {
    Json::Text(s.to_string())
}

fn roundtrip(j: &Json) -> Json {
    let rendered = j.to_text();
    parse_json(&rendered).expect("canonical text must parse")
}

#[test]
fn scalars_render_exactly() {
    assert_eq!(Json::Null.to_text(), "null");
    assert_eq!(Json::Bool(true).to_text(), "true");
    assert_eq!(Json::Bool(false).to_text(), "false");
    assert_eq!(Json::Int(0).to_text(), "0");
    assert_eq!(Json::Int(42).to_text(), "42");
    assert_eq!(Json::Int(-42).to_text(), "-42");
    assert_eq!(Json::Int(i128::MAX).to_text(), "170141183460469231731687303715884105727");
    assert_eq!(Json::Int(i128::MIN).to_text(), "-170141183460469231731687303715884105728");
}

#[test]
fn strings_escape_exactly() {
    assert_eq!(text("hello").to_text(), "\"hello\"");
    assert_eq!(text("a\"b\\c\nd").to_text(), "\"a\\\"b\\\\c\\nd\"");
    assert_eq!(text("tab\there").to_text(), "\"tab\\there\"");
    assert_eq!(text("cr\rhere").to_text(), "\"cr\\rhere\"");
    assert_eq!(text("\u{1}").to_text(), "\"\\u0001\"");
    assert_eq!(text("\u{1f}").to_text(), "\"\\u001f\"");
    // non-ASCII passes through unescaped
    assert_eq!(text("héllo ✓").to_text(), "\"héllo ✓\"");
}

#[test]
fn containers_render_exactly() {
    assert_eq!(Json::Arr(vec![]).to_text(), "[]");
    assert_eq!(Json::Arr(vec![Json::Int(1), Json::Int(2)]).to_text(), "[1,2]");
    assert_eq!(obj(vec![]).to_text(), "{}");
    let j = obj(vec![("a", Json::Int(1)), ("b", Json::Arr(vec![Json::Null, Json::Bool(true)]))]);
    assert_eq!(j.to_text(), "{\"a\":1,\"b\":[null,true]}");
}

#[test]
fn parse_scalars() {
    assert_eq!(parse_json("null"), Some(Json::Null));
    assert_eq!(parse_json("true"), Some(Json::Bool(true)));
    assert_eq!(parse_json("false"), Some(Json::Bool(false)));
    assert_eq!(parse_json("42"), Some(Json::Int(42)));
    assert_eq!(parse_json("-7"), Some(Json::Int(-7)));
    assert_eq!(parse_json("0"), Some(Json::Int(0)));
}

#[test]
fn parse_strings_and_escapes() {
    assert_eq!(parse_json("\"hi\""), Some(text("hi")));
    assert_eq!(parse_json("\"a\\\"b\""), Some(text("a\"b")));
    assert_eq!(parse_json("\"a\\\\b\""), Some(text("a\\b")));
    assert_eq!(parse_json("\"a\\/b\""), Some(text("a/b")));
    assert_eq!(parse_json("\"a\\nb\\tc\\rd\\be\\ff\""), Some(text("a\nb\tc\rd\u{8}e\u{c}f")));
    assert_eq!(parse_json("\"\\u0041\""), Some(text("A")));
    assert_eq!(parse_json("\"\\u00e9\""), Some(text("é")));
    assert_eq!(parse_json("\"\\u2713\""), Some(text("✓")));
}

#[test]
fn parse_containers() {
    assert_eq!(parse_json("[]"), Some(Json::Arr(vec![])));
    assert_eq!(parse_json("[1,[2],\"x\"]"), Some(Json::Arr(vec![
        Json::Int(1),
        Json::Arr(vec![Json::Int(2)]),
        text("x"),
    ])));
    assert_eq!(parse_json("{}"), Some(obj(vec![])));
    assert_eq!(
        parse_json("{\"k\":null,\"m\":{\"n\":-1}}"),
        Some(obj(vec![("k", Json::Null), ("m", obj(vec![("n", Json::Int(-1))]))]))
    );
}

#[test]
fn malformed_documents_are_rejected() {
    assert_eq!(parse_json(""), None);
    assert_eq!(parse_json("nul"), None);
    assert_eq!(parse_json("truthy"), None);
    assert_eq!(parse_json("{"), None);
    assert_eq!(parse_json("[1,]"), None);
    assert_eq!(parse_json("{\"a\"}"), None);
    assert_eq!(parse_json("\"unterminated"), None);
    assert_eq!(parse_json("\"bad\\qescape\""), None);
    assert_eq!(parse_json("01"), None);
    assert_eq!(parse_json("-"), None);
    assert_eq!(parse_json("1.5"), None);
    assert_eq!(parse_json("1e3"), None);
    assert_eq!(parse_json("null extra"), None);
    assert_eq!(parse_json("[1 2]"), None);
    // a surrogate code point is not a scalar value
    assert_eq!(parse_json("\"\\ud800\""), None);
    // past either end of the signed 128-bit range
    assert_eq!(parse_json("170141183460469231731687303715884105728"), None);
    assert_eq!(parse_json("-170141183460469231731687303715884105729"), None);
}

#[test]
fn boundary_integers_round_trip() {
    for n in [0i128, 1, -1, 9, 10, -10, i128::MAX, i128::MIN, u64::MAX as i128] {
        let j = Json::Int(n);
        assert_eq!(roundtrip(&j), j);
    }
}

#[test]
fn nested_values_round_trip() {
    let j = obj(vec![
        ("id", Json::Int(7)),
        ("name", text("line\none\t\"two\"")),
        ("flags", Json::Arr(vec![Json::Bool(true), Json::Null])),
        ("inner", obj(vec![("deep", Json::Arr(vec![obj(vec![("k", Json::Int(-3))])]))])),
    ]);
    assert_eq!(roundtrip(&j), j);
}

#[test]
fn whitespace_between_tokens_is_accepted() {
    assert_eq!(parse_json(" null "), Some(Json::Null));
    assert_eq!(parse_json("42 "), Some(Json::Int(42)));
    assert_eq!(parse_json("\t-7\n"), Some(Json::Int(-7)));
    assert_eq!(parse_json("[ ]"), Some(Json::Arr(vec![])));
    assert_eq!(parse_json("[ 1 , 2 ]"), Some(Json::Arr(vec![Json::Int(1), Json::Int(2)])));
    assert_eq!(parse_json("{ }"), Some(obj(vec![])));
    assert_eq!(
        parse_json("{ \"a\" : 1 ,\n  \"b\" : [ true ] }"),
        Some(obj(vec![("a", Json::Int(1)), ("b", Json::Arr(vec![Json::Bool(true)]))]))
    );
    // a trailing carriage return from a CRLF line ending is whitespace
    assert_eq!(parse_json("{\"a\":1}\r"), Some(obj(vec![("a", Json::Int(1))])));
    // whitespace never appears inside tokens
    assert_eq!(parse_json("nu ll"), None);
    assert_eq!(parse_json("- 7"), None);
    assert_eq!(parse_json("1 2"), None);
}

#[test]
fn duplicate_keys_are_preserved_in_order() {
    let j = obj(vec![("a", Json::Int(1)), ("a", Json::Int(2))]);
    assert_eq!(j.to_text(), "{\"a\":1,\"a\":2}");
    assert_eq!(roundtrip(&j), j);
}
