use agent_core::memory::{ContextData, MemoryService};

#[test]
fn test_compress_context() {
    let memory_service = MemoryService::new();
    let context = ContextData {
        messages: vec![
            "用户: 你好".to_string(),
            "助手: 你好！有什么可以帮助你的吗？".to_string(),
        ],
    };
    let compressed = memory_service.compress_context(context);
    assert_eq!(compressed.original_token_count, 6);
    assert_eq!(compressed.compressed_token_count, 6);
    assert!(!compressed.summary.is_empty());
    assert!(compressed.summary.contains("用户: 你好"));
    assert!(compressed.summary.contains("助手: 你好！有什么可以帮助你的吗？"));
}

#[test]
fn test_compress_empty_context() {
    let memory_service = MemoryService::new();
    let context = ContextData { messages: vec![] };
    let compressed = memory_service.compress_context(context);
    assert_eq!(compressed.original_token_count, 0);
    assert_eq!(compressed.compressed_token_count, 0);
    assert_eq!(compressed.summary, "");
}

#[test]
fn test_context_data_fields() {
    let messages = vec!["消息1".to_string(), "消息2".to_string(), "消息3".to_string()];
    let context = ContextData { messages };
    assert_eq!(context.messages.len(), 3);
    assert_eq!(context.messages[0], "消息1");
    assert_eq!(context.messages[1], "消息2");
    assert_eq!(context.messages[2], "消息3");
}

#[test]
fn long_context_is_cut_to_a_hundred_characters() {
    let memory_service = MemoryService::new();
    let context = ContextData { messages: vec!["a".repeat(150), "b".repeat(10)] };
    let compressed = memory_service.compress_context(context);
    assert_eq!(compressed.summary, format!("{}...", "a".repeat(100)));
    assert_eq!(compressed.original_token_count, 161 / 4);
    assert_eq!(compressed.compressed_token_count, 103 / 4);
}

#[test]
fn messages_are_joined_with_line_breaks() {
    let memory_service = MemoryService::new();
    let context = ContextData { messages: vec!["ab".to_string(), "cd".to_string()] };
    assert_eq!(memory_service.compress_context(context).summary, "ab\ncd");
}
