use agent_core::router::RouteTarget;
use agent_core::orchestration::OrchestrationEngine;
use agent_core::router::IntelligentRouter;
use agent_core::workflow::{Workflow, WorkflowEngine, WorkflowStatus, WorkflowStep};

fn step(id: &str) -> WorkflowStep {
    WorkflowStep {
        id: id.to_string(),
        name: format!("step {}", id),
        description: String::new(),
        task_id: None,
        dependencies: vec![],
        condition: None,
    }
}

fn workflow(id: &str, steps: Vec<WorkflowStep>) -> Workflow {
    Workflow {
        id: id.to_string(),
        name: "测试工作流".to_string(),
        description: "用于测试的工作流".to_string(),
        steps,
        status: WorkflowStatus::Pending,
        results: Vec::new(),
    }
}

fn engine() -> WorkflowEngine {
    WorkflowEngine::new(OrchestrationEngine::new(IntelligentRouter::new()))
}

#[test]
fn test_workflow_engine_creation() {
    let engine = engine();
    assert_eq!(engine.get_all_workflows().len(), 0);
}

#[test]
fn test_workflow_registration() {
    let mut engine = engine();
    assert!(engine.register_workflow(workflow("test_workflow", vec![])).is_ok());
    assert_eq!(engine.get_all_workflows().len(), 1);
}

#[test]
fn workflow_chains_three_steps() {
    let mut engine = engine();
    engine
        .register_workflow(workflow("w", vec![step("s1"), step("s2"), step("s3")]))
        .unwrap();
    let mut run = engine.start_run("w", "start").unwrap();
    let mut inputs = Vec::new();
    let mut n = 0;
    while let Some(input) = run.next_input() {
        inputs.push(input.clone());
        n += 1;
        engine.run_step(&mut run, format!("task{}", n), Ok(format!("out{}", n)));
    }
    assert_eq!(inputs, vec!["start", "out1", "out2"]);
    assert_eq!(engine.finish_run(run), Ok("out3".to_string()));
    assert_eq!(engine.get_workflow_status("w"), Some(WorkflowStatus::Completed));
    let all = engine.get_all_workflows();
    assert_eq!(
        all[0].results,
        vec![
            ("s1".to_string(), "out1".to_string()),
            ("s2".to_string(), "out2".to_string()),
            ("s3".to_string(), "out3".to_string()),
        ]
    );
}

#[test]
fn workflow_stops_at_failing_step() {
    let mut engine = engine();
    engine
        .register_workflow(workflow("w", vec![step("s1"), step("s2"), step("s3")]))
        .unwrap();
    let mut run = engine.start_run("w", "start").unwrap();
    assert_eq!(engine.get_workflow_status("w"), Some(WorkflowStatus::Running));
    engine.run_step(&mut run, "t1".to_string(), Ok("out1".to_string()));
    engine.run_step(&mut run, "t2".to_string(), Err("boom".to_string()));
    assert!(run.next_input().is_none());
    assert_eq!(engine.finish_run(run), Err("boom".to_string()));
    assert_eq!(engine.get_workflow_status("w"), Some(WorkflowStatus::Failed));
    assert!(engine.get_all_workflows()[0].results.is_empty());
}

#[test]
fn execute_workflow_runs_reference_chain() {
    let mut engine = engine();
    engine.register_workflow(workflow("w", vec![step("a"), step("b")])).unwrap();
    let r = engine.execute_workflow("w", "你好");
    assert_eq!(r, Ok("LLM处理结果: LLM处理结果: 你好".to_string()));
    assert_eq!(engine.get_workflow_status("w"), Some(WorkflowStatus::Completed));
}

#[test]
fn execute_workflow_without_steps_returns_input() {
    let mut engine = engine();
    engine.register_workflow(workflow("empty", vec![])).unwrap();
    assert_eq!(engine.execute_workflow("empty", "in"), Ok("in".to_string()));
}

#[test]
fn execute_unknown_workflow_fails() {
    let mut engine = engine();
    assert_eq!(engine.execute_workflow("missing", "x"), Err("工作流未找到".to_string()));
    assert_eq!(engine.get_workflow_status("missing"), None);
}

#[test]
fn register_same_id_overwrites() {
    let mut engine = engine();
    engine.register_workflow(workflow("w", vec![step("a")])).unwrap();
    engine.register_workflow(workflow("w", vec![step("a"), step("b")])).unwrap();
    assert_eq!(engine.workflow_count(), 1);
    assert_eq!(engine.get_all_workflows()[0].steps.len(), 2);
}

#[test]
fn execute_workflow_stores_results_and_completes() {
    let mut engine = engine();
    engine
        .register_workflow(workflow("wf", vec![step("s1"), step("s2"), step("s3")]))
        .unwrap();
    let r = engine.execute_workflow("wf", "hello");
    assert_eq!(r, Ok("LLM处理结果: LLM处理结果: LLM处理结果: hello".to_string()));
    assert_eq!(engine.get_workflow_status("wf"), Some(WorkflowStatus::Completed));
    let all = engine.get_all_workflows();
    assert_eq!(all[0].results.len(), 3);
    assert_eq!(all[0].results[0], ("s1".to_string(), "LLM处理结果: hello".to_string()));
}

#[test]
fn run_reports_next_target() {
    let mut engine = engine();
    engine.register_workflow(workflow("w", vec![step("a")])).unwrap();
    let mut run = engine.start_run("w", "查询天气").unwrap();
    assert_eq!(run.next_target(), Some(RouteTarget::A2AAgent("info_agent".to_string())));
    let id = engine.new_task_id();
    engine.run_step(&mut run, id, Ok("unused".to_string()));
    assert_eq!(run.next_target(), None);
    assert_eq!(
        engine.finish_run(run),
        Ok("A2A智能体 info_agent 处理结果: 查询天气".to_string())
    );
}
