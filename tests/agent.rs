use agent_core::agent::AgentBuilder;

#[test]
fn builder_collects_settings() {
    let b = AgentBuilder::new("test-agent", "A test agent")
        .version("1.0.0")
        .add_mcp("mcp1", "http://localhost:1")
        .add_a2a("a2a1", "http://localhost:2");
    assert_eq!(b.config().name, "test-agent");
    assert_eq!(b.config().description, "A test agent");
    assert_eq!(b.config().version, "1.0.0");
    assert_eq!(
        b.mcp_endpoints(),
        &vec![("mcp1".to_string(), "http://localhost:1".to_string())]
    );
    assert_eq!(
        b.a2a_endpoints(),
        &vec![("a2a1".to_string(), "http://localhost:2".to_string())]
    );
}

#[test]
fn builder_default_version_and_replacement() {
    let b = AgentBuilder::new("a", "b")
        .add_mcp("x", "u1")
        .add_mcp("y", "u2")
        .add_mcp("x", "u3");
    assert_eq!(b.config().version, "0.1.0");
    assert_eq!(
        b.mcp_endpoints(),
        &vec![("x".to_string(), "u3".to_string()), ("y".to_string(), "u2".to_string())]
    );
    assert!(b.a2a_endpoints().is_empty());
}
