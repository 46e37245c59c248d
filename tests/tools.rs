use agent_core::tools::{
    cache_key, check_permissions, validate_input, Admission, EnhancedToolExecutionEngine,
    ExecutionContext, ExecutionResult, ExecutionStatus, ToolError,
};
use serde_json::Value;

fn obj(k: &str, v: &str) -> Value {
    let mut m = serde_json::Map::new();
    m.insert(k.to_string(), Value::String(v.to_string()));
    Value::Object(m)
}

fn echo(parameters: Value) -> Result<Value, ToolError> {
    let mut m = serde_json::Map::new();
    m.insert("echo".to_string(), parameters);
    Ok(Value::Object(m))
}

fn ctx(permissions: Vec<&str>) -> ExecutionContext {
    ExecutionContext {
        user_id: "test_user".to_string(),
        session_id: "test_session".to_string(),
        permissions: permissions.into_iter().map(|p| p.to_string()).collect(),
        max_concurrent: 5,
        cache_ttl_ms: 300_000,
    }
}

/// Runs one call to completion; returns the result and how often the tool ran.
fn run(
    engine: &mut EnhancedToolExecutionEngine,
    name: &str,
    params: Value,
    context: &ExecutionContext,
    now: u64,
    tool: &dyn Fn(Value) -> Result<Value, ToolError>,
) -> (Result<ExecutionResult, ToolError>, usize) {
    match engine.start_execution(name, &params, context, now) {
        Err(e) => (Err(e), 0),
        Ok(Admission::Busy) => panic!("no free slot"),
        Ok(Admission::Done(r)) => (Ok(r), 0),
        Ok(Admission::Invoke(p)) => {
            let out = tool(params);
            (engine.finish(p, out, now), 1)
        }
    }
}

#[test]
fn test_enhanced_engine_creation() {
    let mut engine = EnhancedToolExecutionEngine::new(5, 300_000);
    let (r, _) = run(&mut engine, "nonexistent", Value::Object(serde_json::Map::new()), &ctx(vec![]), 0, &echo);
    assert!(r.is_err());
}

#[test]
fn test_tool_registration_and_execution() {
    let mut engine = EnhancedToolExecutionEngine::new(5, 300_000);
    engine.register_tool("mock_tool").unwrap();
    let (result, _) = run(&mut engine, "mock_tool", obj("test", "data"), &ctx(vec!["user"]), 0, &echo);
    assert!(result.is_ok());
    let execution = result.unwrap();
    assert!(matches!(execution.status, ExecutionStatus::Completed));
    assert!(execution.result.is_some());
    assert_eq!(execution.tool_name, "mock_tool");
}

#[test]
fn unknown_tool_fails_and_frees_its_slot() {
    let mut engine = EnhancedToolExecutionEngine::new(2, 1000);
    let before = engine.available_slots();
    let r = engine.start_execution("ghost", &obj("a", "b"), &ctx(vec![]), 5);
    assert_eq!(r.err(), Some(ToolError::ToolNotFound("ghost".to_string())));
    assert_eq!(engine.available_slots(), before);
    assert_eq!(before, 2);
}

#[test]
fn repeat_within_ttl_is_served_from_cache() {
    let mut engine = EnhancedToolExecutionEngine::new(2, 1000);
    engine.register_tool("t").unwrap();
    let c = ctx(vec![]);
    let (first, ran1) = run(&mut engine, "t", obj("x", "1"), &c, 100, &echo);
    let (second, ran2) = run(&mut engine, "t", obj("x", "1"), &c, 1099, &echo);
    assert_eq!(ran1, 1);
    assert_eq!(ran2, 0);
    assert_eq!(first.unwrap().result, second.unwrap().result);
    assert_eq!(engine.available_slots(), 2);
}

#[test]
fn repeat_after_ttl_runs_tool_again() {
    let mut engine = EnhancedToolExecutionEngine::new(2, 1000);
    engine.register_tool("t").unwrap();
    let c = ctx(vec![]);
    let (_, ran1) = run(&mut engine, "t", obj("x", "1"), &c, 100, &echo);
    let (r, ran2) = run(&mut engine, "t", obj("x", "1"), &c, 1100, &echo);
    assert_eq!(ran1, 1);
    assert_eq!(ran2, 1);
    assert!(r.is_ok());
}

#[test]
fn different_parameters_miss_the_cache() {
    let mut engine = EnhancedToolExecutionEngine::new(2, 1000);
    engine.register_tool("t").unwrap();
    let c = ctx(vec![]);
    let (_, ran1) = run(&mut engine, "t", obj("x", "1"), &c, 0, &echo);
    let (_, ran2) = run(&mut engine, "t", obj("x", "2"), &c, 0, &echo);
    assert_eq!((ran1, ran2), (1, 1));
    assert_eq!(engine.cache_len(), 2);
}

#[test]
fn gate_admits_at_most_max_concurrent() {
    let mut engine = EnhancedToolExecutionEngine::new(2, 1000);
    engine.register_tool("slow").unwrap();
    let c = ctx(vec![]);
    let mut held = Vec::new();
    let mut busy = 0;
    for i in 0..10 {
        match engine.start_execution("slow", &obj("i", &i.to_string()), &c, 0).unwrap() {
            Admission::Invoke(p) => held.push(p),
            Admission::Busy => busy += 1,
            Admission::Done(_) => panic!("unexpected cache hit"),
        }
        assert!(held.len() <= 2);
    }
    assert_eq!(held.len(), 2);
    assert_eq!(busy, 8);
    assert_eq!(engine.available_slots(), 0);
    let p = held.pop().unwrap();
    engine.finish(p, Ok(obj("ok", "1")), 1).unwrap();
    assert_eq!(engine.available_slots(), 1);
}

#[test]
fn validation_errors() {
    assert_eq!(
        validate_input("", true),
        Err(ToolError::ValidationFailed("工具名称不能为空".to_string()))
    );
    assert_eq!(
        validate_input("t", false),
        Err(ToolError::ValidationFailed("参数必须是对象".to_string()))
    );
    assert_eq!(validate_input("t", true), Ok(()));
    let mut engine = EnhancedToolExecutionEngine::new(1, 10);
    engine.register_tool("t").unwrap();
    let r = engine.start_execution("t", &Value::String("x".to_string()), &ctx(vec![]), 0);
    assert!(matches!(r, Err(ToolError::ValidationFailed(_))));
    let r = engine.start_execution("t", &Value::Null, &ctx(vec![]), 0);
    assert!(matches!(r, Err(ToolError::ValidationFailed(_))));
}

#[test]
fn restricted_tool_needs_admin() {
    assert_eq!(
        check_permissions("admin_reset", &ctx(vec!["user"])),
        Err(ToolError::PermissionDenied("需要管理员权限".to_string()))
    );
    assert_eq!(check_permissions("admin_reset", &ctx(vec!["user", "admin"])), Ok(()));
    assert_eq!(check_permissions("reset", &ctx(vec![])), Ok(()));
    let mut engine = EnhancedToolExecutionEngine::new(1, 10);
    engine.register_tool("sysadmin").unwrap();
    let r = engine.start_execution("sysadmin", &obj("a", "b"), &ctx(vec![]), 0);
    assert!(matches!(r, Err(ToolError::PermissionDenied(_))));
    assert_eq!(engine.available_slots(), 1);
}

#[test]
fn null_result_is_rejected_and_not_cached() {
    let mut engine = EnhancedToolExecutionEngine::new(1, 1000);
    engine.register_tool("t").unwrap();
    let c = ctx(vec![]);
    let (r, _) = run(&mut engine, "t", obj("a", "b"), &c, 0, &|_| Ok(Value::Null));
    assert_eq!(r.err(), Some(ToolError::ValidationFailed("结果不能为空".to_string())));
    assert_eq!(engine.cache_len(), 0);
    assert_eq!(engine.available_slots(), 1);
}

#[test]
fn tool_error_surfaces_as_execution_failed() {
    let mut engine = EnhancedToolExecutionEngine::new(1, 1000);
    engine.register_tool("t").unwrap();
    let c = ctx(vec![]);
    let fail = |_: Value| Err(ToolError::ValidationFailed("bad input".to_string()));
    let (r, _) = run(&mut engine, "t", obj("a", "b"), &c, 0, &fail);
    assert_eq!(r.err(), Some(ToolError::ExecutionFailed("bad input".to_string())));
    assert_eq!(engine.available_slots(), 1);
}

#[test]
fn cleanup_drops_expired_entries() {
    let mut engine = EnhancedToolExecutionEngine::new(1, 100);
    engine.store_in_cache("a".to_string(), obj("v", "1"), 0);
    engine.store_in_cache("b".to_string(), obj("v", "2"), 50);
    engine.cleanup_expired_cache(120);
    assert_eq!(engine.cache_len(), 1);
    assert_eq!(engine.get_from_cache("b", 120), Some(obj("v", "2")));
    assert_eq!(engine.get_from_cache("a", 120), None);
    assert_eq!(engine.get_from_cache("b", 150), None);
    assert_eq!(engine.cache_len(), 0);
}

#[test]
fn cache_key_joins_name_and_text() {
    assert_eq!(cache_key("tool", "{\"a\":1}"), "tool:{\"a\":1}");
}

#[test]
fn execution_time_is_measured() {
    let mut engine = EnhancedToolExecutionEngine::new(1, 1000);
    engine.register_tool("t").unwrap();
    let p = match engine.start_execution("t", &obj("a", "b"), &ctx(vec![]), 10).unwrap() {
        Admission::Invoke(p) => p,
        _ => panic!("expected invoke"),
    };
    assert_eq!(p.tool_name(), "t");
    let r = engine.finish(p, Ok(obj("r", "1")), 35).unwrap();
    assert_eq!(r.execution_time_ms, 25);
    assert!(r.error.is_none());
}

#[test]
fn empty_result_is_rejected_and_not_cached() {
    let mut engine = EnhancedToolExecutionEngine::new(1, 1000);
    engine.register_tool("t").unwrap();
    let c = ctx(vec![]);
    let empty_obj = |_: Value| Ok(Value::Object(serde_json::Map::new()));
    let (r, _) = run(&mut engine, "t", obj("a", "b"), &c, 0, &empty_obj);
    assert_eq!(r.err(), Some(ToolError::ValidationFailed("结果不能为空".to_string())));
    let empty_arr = |_: Value| Ok(Value::Array(vec![]));
    let (r, _) = run(&mut engine, "t", obj("a", "b"), &c, 0, &empty_arr);
    assert!(matches!(r, Err(ToolError::ValidationFailed(_))));
    let empty_str = |_: Value| Ok(Value::String(String::new()));
    let (r, _) = run(&mut engine, "t", obj("a", "b"), &c, 0, &empty_str);
    assert!(matches!(r, Err(ToolError::ValidationFailed(_))));
    assert_eq!(engine.cache_len(), 0);
    assert_eq!(engine.in_flight(), 0);
    assert!(agent_core::tools::is_empty_json_text("{}"));
    assert!(!agent_core::tools::is_empty_json_text("{\"a\":1}"));
}
