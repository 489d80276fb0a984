use mcp_gateway::envelope::{create_error_response, create_success_response, fallback_error_response};
use mcp_gateway::json::{json_eq, JNum, Json};
use mcp_gateway::parse::parse_json;
use mcp_gateway::ser::{json_to_string, json_to_string_pretty};
use mcp_gateway::{extract_server_id_from_path, read_request_body, validate_content_type};

fn s(x: &str) -> Json {
    Json::Str(x.to_string())
}

fn obj(ms: Vec<(&str, Json)>) -> Json {
    Json::Obj(ms.into_iter().map(|(k, v)| (k.to_string(), v)).collect())
}

#[test]
fn parse_handles_escapes_and_code_points() {
    let v = parse_json("\"a\\n\\\"\\u0041\\uD83D\\uDE00b\"").unwrap();
    match v {
        Json::Str(t) => assert_eq!(t, "a\n\"A\u{1F600}b"),
        _ => panic!("expected a string"),
    }
    assert!(parse_json("\"\\uD83D\"").is_none());
    assert!(parse_json("\"tab\tinside\"").is_none());
}

#[test]
fn parse_normalizes_numbers() {
    let v = parse_json("[120.0, -0.50, 1e2, 0.3, -0]").unwrap();
    match v {
        Json::Arr(xs) => {
            let expect = [(120, 0), (-5, 1), (100, 0), (3, 1), (0, 0)];
            assert_eq!(xs.len(), expect.len());
            for (x, (m, sc)) in xs.iter().zip(expect.iter()) {
                match x {
                    Json::Num(n) => assert_eq!((n.m, n.s), (*m, *sc)),
                    _ => panic!("expected a number"),
                }
            }
        }
        _ => panic!("expected an array"),
    }
    assert!(parse_json("01").is_none());
    assert!(parse_json("1.").is_none());
    assert!(parse_json("9223372036854775807").is_some());
    assert!(parse_json("9223372036854775808").is_none());
}

#[test]
fn parse_objects_keep_first_position_last_value() {
    let v = parse_json(r#"{"a": 1, "b": 2, "a": 3}"#).unwrap();
    let expected = obj(vec![
        ("a", Json::Num(JNum { m: 3, s: 0 })),
        ("b", Json::Num(JNum { m: 2, s: 0 })),
    ]);
    assert!(json_eq(&v, &expected));
}

#[test]
fn parse_rejects_trailing_input_and_deep_nesting() {
    assert!(parse_json("{} x").is_none());
    assert!(parse_json("").is_none());
    let deep = format!("{}1{}", "[".repeat(200), "]".repeat(200));
    assert!(parse_json(&deep).is_none());
    let shallow = format!("{}1{}", "[".repeat(50), "]".repeat(50));
    assert!(parse_json(&shallow).is_some());
}

#[test]
fn serialize_round_trips_through_parse() {
    let text = r#"{"a": [1, 2.5, true, null, "x\n"], "b": {"c": "d"}}"#;
    let v = parse_json(text).unwrap();
    let out = json_to_string(&v);
    assert_eq!(out, "{\"a\":[1,2.5,true,null,\"x\\n\"],\"b\":{\"c\":\"d\"}}");
    let back = parse_json(&out).unwrap();
    assert!(json_eq(&v, &back));
}

#[test]
fn pretty_rendering_indents_two_spaces() {
    let v = parse_json(r#"{"a": [1, 2]}"#).unwrap();
    assert_eq!(json_to_string_pretty(&v), "{\n  \"a\": [\n    1,\n    2\n  ]\n}");
}

#[test]
fn success_envelope_round_trips() {
    let id = Json::Num(JNum { m: 41, s: 0 });
    let result = obj(vec![("ok", Json::Bool(true))]);
    let env = create_success_response(Some(id), result).unwrap();
    match env.get("id").unwrap() {
        Json::Num(n) => assert_eq!((n.m, n.s), (41, 0)),
        _ => panic!("the identifier must round-trip"),
    }
    assert!(env.get("result").unwrap().get("ok").is_some());
    match env.get("jsonrpc").unwrap() {
        Json::Str(v) => assert_eq!(v, "2.0"),
        _ => panic!("the protocol tag must be present"),
    }
}

#[test]
fn success_envelope_requires_an_object_result() {
    assert!(create_success_response(None, s("bare")).is_err());
}

#[test]
fn error_builder_falls_back_for_odd_identifiers() {
    let odd = Json::Arr(vec![Json::Bool(true)]);
    assert!(create_error_response(Some(Json::Arr(vec![Json::Bool(true)])), -32600, "m").is_err());
    let env = fallback_error_response(Some(odd), -32600, "m");
    match env.get("id").unwrap() {
        Json::Arr(_) => {}
        _ => panic!("the fallback echoes the identifier verbatim"),
    }
    let err = env.get("error").unwrap();
    match err.get("message").unwrap() {
        Json::Str(m) => assert_eq!(m, "m"),
        _ => panic!("the message must be present"),
    }
}

#[test]
fn content_type_header_is_found_case_insensitively() {
    let headers = vec![
        ("Accept".to_string(), b"*/*".to_vec()),
        (
            "Content-Type".to_string(),
            b"application/json; charset=utf-8".to_vec(),
        ),
    ];
    assert!(validate_content_type(&headers).is_ok());

    let wrong = vec![("content-type".to_string(), b"text/plain".to_vec())];
    let err = validate_content_type(&wrong).unwrap_err();
    assert_eq!(err, "Content-Type must be application/json");
}

#[test]
fn server_id_is_cut_from_the_path() {
    assert_eq!(extract_server_id_from_path("/mcp/weather-1").unwrap(), "weather-1");
    assert_eq!(extract_server_id_from_path("/mcp/w?q=1").unwrap(), "w");
    assert_eq!(extract_server_id_from_path("/mcp/w/extra").unwrap(), "w");
    assert_eq!(
        extract_server_id_from_path("/other/w").unwrap_err(),
        "Invalid path format. Expected /mcp/{server-id}"
    );
    assert_eq!(
        extract_server_id_from_path("/mcp").unwrap_err(),
        "Invalid path format. Expected /mcp/{server-id}"
    );
    assert_eq!(
        extract_server_id_from_path("/mcp//rest").unwrap_err(),
        "Server ID cannot be empty. Expected /mcp/{server-id}"
    );
}

#[test]
fn request_body_must_be_utf8() {
    assert_eq!(read_request_body(b"{\"a\": 1}".to_vec()).unwrap(), "{\"a\": 1}");
    assert_eq!(
        read_request_body(vec![0xff, 0xfe]).unwrap_err(),
        "Invalid UTF-8 in body"
    );
}
