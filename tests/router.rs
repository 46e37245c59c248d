use agent_core::router::{IntelligentRouter, RouteTarget};

#[test]
fn test_route_message_to_local_llm() {
    let router = IntelligentRouter::new();
    let decision = router.route_message("普通问题");

    assert_eq!(decision.target, RouteTarget::LocalLLM);
    assert!(decision.confidence > 0);
    assert!(!decision.reasoning.is_empty());
}

#[test]
fn test_route_message_to_a2a_agent() {
    let router = IntelligentRouter::new();
    let decision = router.route_message("查询天气");

    match decision.target {
        RouteTarget::A2AAgent(agent_name) => {
            assert_eq!(agent_name, "info_agent");
        }
        _ => panic!("Expected A2AAgent route target"),
    }
    assert!(decision.confidence > 0);
}

#[test]
fn test_route_message_to_mcp_tool() {
    let router = IntelligentRouter::new();
    let decision = router.route_message("处理文件");

    match decision.target {
        RouteTarget::MCPTool(tool_name) => {
            assert_eq!(tool_name, "file_processor");
        }
        _ => panic!("Expected MCPTool route target"),
    }
    assert!(decision.confidence > 0);
}

#[test]
fn route_confidences_and_reasons() {
    let router = IntelligentRouter::new();
    let info = router.route_message("现在几点，时间是多少");
    assert_eq!(info.confidence, 700);
    assert_eq!(info.reasoning, "匹配到信息查询关键词");
    let tool = router.route_message("帮我计算一下");
    assert_eq!(tool.target, RouteTarget::MCPTool("file_processor".to_string()));
    assert_eq!(tool.confidence, 800);
    assert_eq!(tool.reasoning, "匹配到工具处理关键词");
    let local = router.route_message("hello");
    assert_eq!(local.confidence, 900);
    assert_eq!(local.reasoning, "默认路由到本地LLM");
}

#[test]
fn route_information_rule_wins_over_tool_rule() {
    let router = IntelligentRouter::new();
    let d = router.route_message("把天气写进文件");
    assert_eq!(d.target, RouteTarget::A2AAgent("info_agent".to_string()));
}

#[test]
fn route_is_repeatable() {
    let router = IntelligentRouter::new();
    for text in ["天气", "文件", "", "随便聊聊"] {
        let a = router.route_message(text);
        let b = router.route_message(text);
        assert_eq!(a.target, b.target);
        assert_eq!(a.confidence, b.confidence);
        assert_eq!(a.reasoning, b.reasoning);
    }
}

#[test]
fn route_split_keyword_does_not_match() {
    let router = IntelligentRouter::new();
    let d = router.route_message("天 气");
    assert_eq!(d.target, RouteTarget::LocalLLM);
}
