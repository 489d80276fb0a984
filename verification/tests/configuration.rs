use mcp_gateway::config::{check_server_id_exists, load_server_config};

fn pairs() -> Vec<(String, String)> {
    let cfg = r#"{"mcp-servers": [
        {"id": "alpha", "tools": [
            {"action-id": "act-1", "name": "one", "description": "first", "inputSchema": {"type": "object"}}
        ]},
        {"id": "beta", "tools": []}
    ]}"#;
    vec![
        ("unrelated".to_string(), "x".to_string()),
        ("mcp_servers".to_string(), cfg.to_string()),
    ]
}

#[test]
fn loads_the_named_server() {
    let cfg = load_server_config("alpha", &pairs()).unwrap();
    assert_eq!(cfg.id, "alpha");
    assert_eq!(cfg.tools.len(), 1);
    assert_eq!(cfg.tools[0].tool.name, "one");
    assert_eq!(cfg.tools[0].action_id, "act-1");
}

#[test]
fn unknown_server_is_reported() {
    let err = load_server_config("gamma", &pairs()).unwrap_err();
    assert_eq!(err, "MCP server 'gamma' not found in configuration");
}

#[test]
fn missing_key_is_reported() {
    let empty: Vec<(String, String)> = vec![];
    let err = load_server_config("alpha", &empty).unwrap_err();
    assert_eq!(err, "mcp_servers key not found in runtime configuration");
}

#[test]
fn unparsable_configuration_is_reported() {
    let broken = vec![("mcp_servers".to_string(), "{".to_string())];
    let err = load_server_config("alpha", &broken).unwrap_err();
    assert_eq!(err, "Failed to parse mcp_servers config: invalid JSON");
}

#[test]
fn existence_check_follows_the_lookup() {
    assert!(check_server_id_exists("beta", &pairs()).is_ok());
    assert!(check_server_id_exists("gamma", &pairs()).is_err());
}
