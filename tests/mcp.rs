use agent_core::mcp::{McpConfig, McpManager, McpServerConfig};

fn server(name: &str, url: &str, enabled: bool) -> McpServerConfig {
    McpServerConfig {
        name: name.to_string(),
        description: String::new(),
        url: url.to_string(),
        timeout: 30,
        retry_attempts: 3,
        enabled,
    }
}

#[test]
fn mcp_manager_registers_enabled_servers() {
    let config = McpConfig {
        servers: vec![
            ("a".to_string(), server("A", "http://a", true)),
            ("b".to_string(), server("B", "http://b", false)),
        ],
        enabled: true,
    };
    let m = McpManager::from_config(&config);
    assert!(m.get_server_capabilities("a").is_some());
    assert!(m.get_server_capabilities("b").is_none());
    assert!(m.get_connected_servers().is_empty());
}

#[test]
fn mcp_manager_tracks_connections() {
    let mut m = McpManager::new(McpConfig { servers: vec![], enabled: true });
    m.add_server("a".to_string(), server("A", "http://a", true)).unwrap();
    m.add_server("b".to_string(), server("B", "http://b", true)).unwrap();
    assert_eq!(
        m.call_target("a"),
        Err("MCP server a is not connected".to_string())
    );
    assert_eq!(m.call_target("zz"), Err("MCP server zz not found".to_string()));
    m.set_connection("b", Some(vec!["t1".to_string(), "t2".to_string()]));
    m.set_connection("a", None);
    assert_eq!(m.get_connected_servers(), vec!["b".to_string()]);
    assert_eq!(
        m.get_server_capabilities("b"),
        Some(&vec!["t1".to_string(), "t2".to_string()])
    );
    assert_eq!(
        m.list_tools(),
        vec![("b".to_string(), vec!["t1".to_string(), "t2".to_string()])]
    );
    assert_eq!(m.call_target("b"), Ok("http://b".to_string()));
    m.disconnect_all();
    assert!(m.get_connected_servers().is_empty());
    assert!(m.list_tools().is_empty());
}
