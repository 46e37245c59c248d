use agent_core::state::{BufferedMessage, ConversationBuffer, MessageType, StateManager};

fn msg(content: &str, message_type: MessageType) -> BufferedMessage {
    BufferedMessage {
        id: uuid::Uuid::new_v4().to_string(),
        content: content.to_string(),
        timestamp_ms: chrono::Utc::now().timestamp_millis(),
        message_type,
        context_relevance: 800,
    }
}

#[test]
fn test_add_message_to_buffer() {
    let mut state_manager = StateManager::new();
    let result = state_manager.add_to_buffer(msg("测试消息", MessageType::UserMessage));
    assert!(result.is_ok());

    let messages = state_manager.get_buffer_messages();
    assert_eq!(messages.len(), 1);
    assert_eq!(messages[0].content, "测试消息");
}

#[test]
fn test_get_buffer_messages() {
    let mut state_manager = StateManager::new();
    for i in 0..3 {
        state_manager
            .add_to_buffer(msg(&format!("测试消息 {}", i), MessageType::UserMessage))
            .unwrap();
    }
    let messages = state_manager.get_buffer_messages();
    assert_eq!(messages.len(), 3);
    assert_eq!(messages[0].content, "测试消息 0");
    assert_eq!(messages[1].content, "测试消息 1");
    assert_eq!(messages[2].content, "测试消息 2");
}

#[test]
fn test_buffer_size_limit() {
    let mut state_manager = StateManager::new();
    for i in 0..15 {
        state_manager
            .add_to_buffer(msg(&format!("测试消息 {}", i), MessageType::UserMessage))
            .unwrap();
    }
    assert_eq!(state_manager.buffer_size(), 10);
    let messages = state_manager.get_buffer_messages();
    assert_eq!(messages.len(), 10);
    assert_eq!(messages[9].content, "测试消息 14");
}

#[test]
fn test_clear_buffer() {
    let mut state_manager = StateManager::new();
    for i in 0..5 {
        state_manager
            .add_to_buffer(msg(&format!("测试消息 {}", i), MessageType::UserMessage))
            .unwrap();
    }
    assert_eq!(state_manager.buffer_size(), 5);
    let result = state_manager.clear_buffer();
    assert!(result.is_ok());
    assert_eq!(state_manager.buffer_size(), 0);
    assert_eq!(state_manager.get_buffer_messages().len(), 0);
}

#[test]
fn test_buffered_message_fields() {
    let mut state_manager = StateManager::new();
    let timestamp = chrono::Utc::now().timestamp_millis();
    let message = BufferedMessage {
        id: uuid::Uuid::new_v4().to_string(),
        content: "完整测试消息".to_string(),
        timestamp_ms: timestamp,
        message_type: MessageType::LLMResponse,
        context_relevance: 900,
    };
    state_manager.add_to_buffer(message.clone()).unwrap();
    let messages = state_manager.get_buffer_messages();
    assert_eq!(messages.len(), 1);
    let buffered_message = &messages[0];
    assert!(!buffered_message.id.is_empty());
    assert_eq!(buffered_message.id, message.id);
    assert_eq!(buffered_message.content, "完整测试消息");
    assert_eq!(buffered_message.timestamp_ms, timestamp);
    assert_eq!(buffered_message.message_type, MessageType::LLMResponse);
    assert_eq!(buffered_message.context_relevance, 900);
}

#[test]
fn test_conversation_buffer_capacity_management() {
    let mut state_manager = StateManager::new();
    let capacity = 10;
    for i in 0..(capacity + 5) {
        state_manager
            .add_to_buffer(msg(&format!("消息 {}", i), MessageType::UserMessage))
            .unwrap();
    }
    assert_eq!(state_manager.buffer_size(), capacity);
    let messages = state_manager.get_buffer_messages();
    assert_eq!(messages.len(), capacity);
    assert_eq!(messages[0].content, "消息 5");
    assert_eq!(messages[capacity - 1].content, "消息 14");
}

#[test]
fn test_conversation_buffer_message_order() {
    let mut state_manager = StateManager::new();
    let messages_content = vec!["第一", "第二", "第三", "第四", "第五"];
    for content in &messages_content {
        state_manager.add_to_buffer(msg(content, MessageType::UserMessage)).unwrap();
    }
    let messages = state_manager.get_buffer_messages();
    assert_eq!(messages.len(), 5);
    for (i, message) in messages.iter().enumerate() {
        assert_eq!(message.content, messages_content[i]);
    }
}

#[test]
fn test_conversation_buffer_clear_and_reset() {
    let mut state_manager = StateManager::new();
    for i in 0..3 {
        state_manager
            .add_to_buffer(msg(&format!("测试消息 {}", i), MessageType::UserMessage))
            .unwrap();
    }
    assert_eq!(state_manager.buffer_size(), 3);
    state_manager.clear_buffer().unwrap();
    assert_eq!(state_manager.buffer_size(), 0);
    state_manager.add_to_buffer(msg("新的消息", MessageType::UserMessage)).unwrap();
    assert_eq!(state_manager.buffer_size(), 1);
    let messages = state_manager.get_buffer_messages();
    assert_eq!(messages[0].content, "新的消息");
}

#[test]
fn test_conversation_buffer_message_types() {
    let mut state_manager = StateManager::new();
    let kinds = [
        MessageType::UserMessage,
        MessageType::SystemMessage,
        MessageType::ToolResponse,
        MessageType::LLMResponse,
    ];
    for (i, k) in kinds.iter().enumerate() {
        state_manager.add_to_buffer(msg(&format!("m{}", i), *k)).unwrap();
    }
    let messages = state_manager.get_buffer_messages();
    assert_eq!(messages.len(), 4);
    for (i, k) in kinds.iter().enumerate() {
        assert_eq!(messages[i].message_type, *k);
    }
}

#[test]
fn buffer_keeps_last_insertions_in_order() {
    let mut buffer = ConversationBuffer::new(3);
    for i in 0..7 {
        buffer.add_message(msg(&format!("m{}", i), MessageType::UserMessage)).unwrap();
    }
    let snapshot = buffer.get_messages();
    let contents: Vec<&str> = snapshot.iter().map(|m| m.content.as_str()).collect();
    assert_eq!(contents, vec!["m4", "m5", "m6"]);
    assert_eq!(buffer.len(), 3);
    assert_eq!(buffer.max_size(), 3);
}

#[test]
fn buffer_snapshot_is_a_copy() {
    let mut buffer = ConversationBuffer::new(2);
    buffer.add_message(msg("a", MessageType::UserMessage)).unwrap();
    let snapshot = buffer.get_messages();
    buffer.add_message(msg("b", MessageType::UserMessage)).unwrap();
    buffer.add_message(msg("c", MessageType::UserMessage)).unwrap();
    assert_eq!(snapshot.len(), 1);
    assert_eq!(snapshot[0].content, "a");
    let now: Vec<String> = buffer.get_messages().into_iter().map(|m| m.content).collect();
    assert_eq!(now, vec!["b".to_string(), "c".to_string()]);
}

#[test]
fn buffer_of_zero_capacity_keeps_nothing() {
    let mut buffer = ConversationBuffer::new(0);
    assert!(buffer.add_message(msg("a", MessageType::UserMessage)).is_ok());
    assert!(buffer.add_message(msg("b", MessageType::UserMessage)).is_ok());
    assert!(buffer.get_messages().is_empty());
    assert_eq!(buffer.len(), 0);
}

#[test]
fn buffer_under_capacity_keeps_everything() {
    let mut buffer = ConversationBuffer::new(5);
    buffer.add_message(msg("a", MessageType::SystemMessage)).unwrap();
    buffer.add_message(msg("b", MessageType::ToolResponse)).unwrap();
    assert_eq!(buffer.len(), 2);
    buffer.clear().unwrap();
    assert_eq!(buffer.len(), 0);
}
