use mcp_gateway::actions::{parse_action_output, ActionResponse, ContentBlock};
use mcp_gateway::json::{JNum, Json};

fn s(x: &str) -> Json {
    Json::Str(x.to_string())
}

fn obj(ms: Vec<(&str, Json)>) -> Json {
    Json::Obj(ms.into_iter().map(|(k, v)| (k.to_string(), v)).collect())
}

fn arr(vs: Vec<Json>) -> Json {
    Json::Arr(vs)
}

#[test]
fn test_parse_text_output() {
    let response = ActionResponse {
        success: true,
        data: Some(obj(vec![("text", s("Hello, world!"))])),
        error: None,
    };

    let content = parse_action_output(&response).unwrap();
    assert_eq!(content.len(), 1);
}

#[test]
fn bare_string_payload_is_one_text_block() {
    let response = ActionResponse {
        success: true,
        data: Some(s("plain answer")),
        error: None,
    };
    let content = parse_action_output(&response).unwrap();
    assert_eq!(content.len(), 1);
    match &content[0] {
        ContentBlock::Text(t) => assert_eq!(t, "plain answer"),
        _ => panic!("expected a text block"),
    }
}

#[test]
fn missing_payload_yields_completion_notice() {
    let response = ActionResponse { success: true, data: None, error: None };
    let content = parse_action_output(&response).unwrap();
    assert_eq!(content.len(), 1);
    match &content[0] {
        ContentBlock::Text(t) => assert_eq!(t, "Action completed successfully"),
        _ => panic!("expected a text block"),
    }
}

#[test]
fn missing_error_message_yields_unknown_error() {
    let response = ActionResponse { success: false, data: None, error: None };
    let content = parse_action_output(&response).unwrap();
    assert_eq!(content.len(), 1);
    match &content[0] {
        ContentBlock::Text(t) => assert_eq!(t, "Error: Unknown error"),
        _ => panic!("expected a text block"),
    }
}

#[test]
fn content_array_skips_partial_elements() {
    let response = ActionResponse {
        success: true,
        data: Some(obj(vec![(
            "content",
            arr(vec![
                obj(vec![("type", s("text")), ("text", s("first"))]),
                obj(vec![("type", s("text"))]),
                obj(vec![("type", s("image")), ("data", s("aGk="))]),
                obj(vec![
                    ("type", s("image")),
                    ("data", s("aGk=")),
                    ("mimeType", s("image/png")),
                ]),
                obj(vec![("type", s("audio")), ("data", s("x"))]),
            ]),
        )])),
        error: None,
    };
    let content = parse_action_output(&response).unwrap();
    assert_eq!(content.len(), 2);
    match &content[0] {
        ContentBlock::Text(t) => assert_eq!(t, "first"),
        _ => panic!("expected a text block"),
    }
    match &content[1] {
        ContentBlock::Image { data, mime_type } => {
            assert_eq!(data, "aGk=");
            assert_eq!(mime_type, "image/png");
        }
        _ => panic!("expected an image block"),
    }
}

#[test]
fn other_payload_is_rendered_whole() {
    let response = ActionResponse {
        success: true,
        data: Some(obj(vec![("answer", Json::Num(JNum { m: 42, s: 0 }))])),
        error: None,
    };
    let content = parse_action_output(&response).unwrap();
    assert_eq!(content.len(), 1);
    match &content[0] {
        ContentBlock::Text(t) => assert_eq!(t, "{\n  \"answer\": 42\n}"),
        _ => panic!("expected a text block"),
    }
}
