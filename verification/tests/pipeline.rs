use mcp_gateway::actions::ActionResponse;
use mcp_gateway::dispatch::{complete_tool_call, process_rpc, RpcOutcome};
use mcp_gateway::json::{JNum, Json};

fn s(x: &str) -> Json {
    Json::Str(x.to_string())
}

fn obj(ms: Vec<(&str, Json)>) -> Json {
    Json::Obj(ms.into_iter().map(|(k, v)| (k.to_string(), v)).collect())
}

fn config_pairs() -> Vec<(String, String)> {
    let cfg = r#"{
        "mcp-servers": [
            {
                "id": "weather-server-001",
                "tools": [
                    {
                        "action-id": "action-weather-get",
                        "name": "get_weather",
                        "description": "Current weather for a location.",
                        "inputSchema": {
                            "type": "object",
                            "properties": {
                                "location": { "type": "string" },
                                "unit": { "type": "string", "enum": ["celsius", "fahrenheit"] }
                            },
                            "required": ["location"]
                        }
                    },
                    {
                        "action-id": "action-weather-forecast",
                        "name": "get_forecast",
                        "description": "Forecast for the days ahead.",
                        "inputSchema": {
                            "type": "object",
                            "properties": {
                                "days": { "type": "integer", "minimum": 1, "maximum": 14 }
                            }
                        }
                    }
                ]
            }
        ]
    }"#;
    vec![("mcp_servers".to_string(), cfg.to_string())]
}

fn text_of(v: &Json) -> &str {
    match v {
        Json::Str(t) => t.as_str(),
        _ => panic!("expected a string value"),
    }
}

#[test]
fn malformed_body_yields_parse_error() {
    match process_rpc("weather-server-001", "{", &config_pairs()) {
        RpcOutcome::Failure { envelope, code, .. } => {
            assert_eq!(code, -32700);
            let err = envelope.get("error").unwrap();
            match err.get("code").unwrap() {
                Json::Num(n) => assert_eq!((n.m, n.s), (-32700, 0)),
                _ => panic!("error code must be a number"),
            }
            match envelope.get("id").unwrap() {
                Json::Null => {}
                _ => panic!("a parse error carries a null identifier"),
            }
        }
        _ => panic!("a malformed body must fail"),
    }
}

#[test]
fn tools_list_has_two_entries_without_action_ids() {
    let body = r#"{"jsonrpc": "2.0", "id": 7, "method": "tools/list"}"#;
    match process_rpc("weather-server-001", body, &config_pairs()) {
        RpcOutcome::Success(env) => {
            let result = env.get("result").unwrap();
            let tools = match result.get("tools").unwrap() {
                Json::Arr(ts) => ts,
                _ => panic!("tools must be an array"),
            };
            assert_eq!(tools.len(), 2);
            for t in tools {
                assert!(t.get("action-id").is_none());
                assert!(t.get("name").is_some());
                assert!(t.get("inputSchema").is_some());
            }
            assert_eq!(text_of(tools[0].get("name").unwrap()), "get_weather");
            match env.get("id").unwrap() {
                Json::Num(n) => assert_eq!((n.m, n.s), (7, 0)),
                _ => panic!("the identifier must be echoed"),
            }
        }
        _ => panic!("tools/list must succeed"),
    }
}

#[test]
fn tool_call_missing_required_argument_fails() {
    let body = r#"{"jsonrpc": "2.0", "id": 3, "method": "tools/call",
                   "params": {"name": "get_weather", "arguments": {}}}"#;
    match process_rpc("weather-server-001", body, &config_pairs()) {
        RpcOutcome::Failure { code, message, .. } => {
            assert_eq!(code, -32000);
            assert_eq!(message, "Missing required argument: location");
        }
        _ => panic!("a call without its required argument must fail"),
    }
}

#[test]
fn unknown_method_yields_method_not_found() {
    let body = r#"{"jsonrpc": "2.0", "id": 1, "method": "foo/bar"}"#;
    match process_rpc("weather-server-001", body, &config_pairs()) {
        RpcOutcome::Failure { code, message, .. } => {
            assert_eq!(code, -32601);
            assert!(message.contains("Method not found: foo/bar"));
        }
        _ => panic!("an unknown method must fail"),
    }
}

#[test]
fn backend_text_payload_becomes_one_text_block() {
    let backend = Ok(ActionResponse {
        success: true,
        data: Some(obj(vec![("text", s("sunny"))])),
        error: None,
    });
    match complete_tool_call(Some(Json::Num(JNum { m: 9, s: 0 })), backend) {
        RpcOutcome::Success(env) => {
            let result = env.get("result").unwrap();
            let content = match result.get("content").unwrap() {
                Json::Arr(cs) => cs,
                _ => panic!("content must be an array"),
            };
            assert_eq!(content.len(), 1);
            assert_eq!(text_of(content[0].get("type").unwrap()), "text");
            assert_eq!(text_of(content[0].get("text").unwrap()), "sunny");
            match result.get("isError").unwrap() {
                Json::Bool(b) => assert!(!b),
                _ => panic!("isError must be a boolean"),
            }
        }
        _ => panic!("a successful backend call must succeed"),
    }
}

#[test]
fn valid_tool_call_yields_prepared_action() {
    let body = r#"{"jsonrpc": "2.0", "id": 5, "method": "tools/call",
                   "params": {"name": "get_weather", "arguments": {"location": "Amsterdam"}}}"#;
    match process_rpc("weather-server-001", body, &config_pairs()) {
        RpcOutcome::NeedsAction { id, payload } => {
            assert_eq!(payload.action_id, "action-weather-get");
            match id {
                Some(Json::Num(n)) => assert_eq!((n.m, n.s), (5, 0)),
                _ => panic!("the identifier must be carried through"),
            }
            assert!(payload.arguments.get("location").is_some());
        }
        _ => panic!("a valid call must reach the backend"),
    }
}

#[test]
fn unknown_tool_yields_domain_error() {
    let body = r#"{"jsonrpc": "2.0", "id": 5, "method": "tools/call",
                   "params": {"name": "get_wind"}}"#;
    match process_rpc("weather-server-001", body, &config_pairs()) {
        RpcOutcome::Failure { code, message, .. } => {
            assert_eq!(code, -32000);
            assert_eq!(message, "Tool 'get_wind' not found");
        }
        _ => panic!("an unknown tool must fail"),
    }
}

#[test]
fn unknown_server_yields_config_error() {
    let body = r#"{"jsonrpc": "2.0", "id": 1, "method": "tools/list"}"#;
    match process_rpc("no-such-server", body, &config_pairs()) {
        RpcOutcome::Failure { code, message, .. } => {
            assert_eq!(code, -32000);
            assert_eq!(
                message,
                "Failed to load server config: MCP server 'no-such-server' not found in configuration"
            );
        }
        _ => panic!("an unknown server must fail"),
    }
}

#[test]
fn wrong_protocol_tag_is_invalid_request() {
    let body = r#"{"jsonrpc": "1.0", "id": 1, "method": "tools/list"}"#;
    match process_rpc("weather-server-001", body, &config_pairs()) {
        RpcOutcome::Failure { code, message, .. } => {
            assert_eq!(code, -32600);
            assert_eq!(message, "Invalid Request: jsonrpc must be '2.0'");
        }
        _ => panic!("a wrong protocol tag must fail"),
    }
}

#[test]
fn missing_method_is_invalid_request() {
    let body = r#"{"jsonrpc": "2.0", "id": 1}"#;
    match process_rpc("weather-server-001", body, &config_pairs()) {
        RpcOutcome::Failure { code, .. } => assert_eq!(code, -32600),
        _ => panic!("a body without a method must fail"),
    }
}

#[test]
fn null_identifier_is_echoed() {
    let body = r#"{"jsonrpc": "2.0", "id": null, "method": "initialize"}"#;
    match process_rpc("weather-server-001", body, &config_pairs()) {
        RpcOutcome::Success(env) => match env.get("id").unwrap() {
            Json::Null => {}
            _ => panic!("a null identifier must be echoed as null"),
        },
        _ => panic!("initialize must succeed"),
    }
}

#[test]
fn absent_identifier_becomes_null() {
    let body = r#"{"jsonrpc": "2.0", "method": "initialize"}"#;
    match process_rpc("weather-server-001", body, &config_pairs()) {
        RpcOutcome::Success(env) => match env.get("id").unwrap() {
            Json::Null => {}
            _ => panic!("an absent identifier defaults to null"),
        },
        _ => panic!("initialize must succeed"),
    }
}

#[test]
fn string_identifier_is_echoed_on_errors() {
    let body = r#"{"jsonrpc": "2.0", "id": "req-1", "method": "foo/bar"}"#;
    match process_rpc("weather-server-001", body, &config_pairs()) {
        RpcOutcome::Failure { envelope, .. } => {
            assert_eq!(text_of(envelope.get("id").unwrap()), "req-1");
        }
        _ => panic!("an unknown method must fail"),
    }
}

#[test]
fn initialize_echoes_protocol_version_and_capabilities() {
    let body = r#"{"jsonrpc": "2.0", "id": 1, "method": "initialize",
                   "params": {"protocolVersion": "2024-11-05", "capabilities": {"roots": {}}}}"#;
    match process_rpc("weather-server-001", body, &config_pairs()) {
        RpcOutcome::Success(env) => {
            let result = env.get("result").unwrap();
            assert_eq!(text_of(result.get("protocolVersion").unwrap()), "2024-11-05");
            assert!(result.get("capabilities").unwrap().get("roots").is_some());
            let info = result.get("serverInfo").unwrap();
            assert!(info.get("name").is_some());
            assert!(info.get("version").is_some());
        }
        _ => panic!("initialize must succeed"),
    }
}

#[test]
fn backend_failure_becomes_error_text_block() {
    let backend = Ok(ActionResponse {
        success: false,
        data: None,
        error: Some("Something went wrong".to_string()),
    });
    match complete_tool_call(None, backend) {
        RpcOutcome::Success(env) => {
            let result = env.get("result").unwrap();
            let content = match result.get("content").unwrap() {
                Json::Arr(cs) => cs,
                _ => panic!("content must be an array"),
            };
            assert_eq!(content.len(), 1);
            assert_eq!(
                text_of(content[0].get("text").unwrap()),
                "Error: Something went wrong"
            );
        }
        _ => panic!("a failed backend call still yields a success envelope"),
    }
}

#[test]
fn backend_transport_failure_becomes_domain_error() {
    match complete_tool_call(None, Err("HTTP request failed".to_string())) {
        RpcOutcome::Failure { code, message, .. } => {
            assert_eq!(code, -32000);
            assert_eq!(message, "HTTP request failed");
        }
        _ => panic!("a backend transport failure must fail the call"),
    }
}
