use agents_framework::agents_workflows::context::{OutgoingMessage, resolve_scope};
use agents_framework::agents_workflows::edge::{Edge, EdgeId, EdgeInfo, EdgeType};
use agents_framework::agents_workflows::error::WorkflowError;
use agents_framework::agents_workflows::events::{WorkflowEvent, WorkflowEventKind};
use agents_framework::agents_workflows::execution::{
    LoopDecision, after_super_step, completion_event, delivery_outcome, final_status, forward_message,
    next_deliveries, step_id,
};
use agents_framework::agents_workflows::executor::{ExecutorOptions, FunctionExecutor};
use agents_framework::agents_workflows::message_router::MessageRouter;
use agents_framework::agents_workflows::run::{RunStatus, SuperStepInfo};
use agents_framework::text::join_strings;
use serde_json::Value;

#[test]
fn step_ids_are_decimal() {
    assert_eq!(step_id(0), "step_0");
    assert_eq!(step_id(7), "step_7");
    assert_eq!(step_id(10), "step_10");
    assert_eq!(step_id(1203), "step_1203");
    assert_eq!(step_id(u64::MAX), "step_18446744073709551615");
}

#[test]
fn loop_decisions_follow_priority() {
    assert_eq!(after_super_step(true, true, 0), LoopDecision::Halt);
    assert_eq!(after_super_step(false, true, 3), LoopDecision::Cancel);
    assert_eq!(after_super_step(false, false, 0), LoopDecision::Complete);
    assert_eq!(after_super_step(false, false, 2), LoopDecision::Continue);
}

#[test]
fn final_status_is_terminal() {
    assert_eq!(final_status(true, LoopDecision::Complete), RunStatus::Completed);
    assert_eq!(final_status(true, LoopDecision::Cancel), RunStatus::Cancelled);
    assert_eq!(final_status(true, LoopDecision::Halt), RunStatus::Completed);
    assert_eq!(final_status(false, LoopDecision::Cancel), RunStatus::Failed);
    for d in [LoopDecision::Complete, LoopDecision::Cancel, LoopDecision::Halt, LoopDecision::Continue] {
        assert!(final_status(true, d).is_terminal());
    }
}

#[test]
fn completion_events_report_failure() {
    match completion_event(RunStatus::Failed, "w".to_string(), "r".to_string()) {
        WorkflowEventKind::WorkflowFailed { error, .. } => assert_eq!(error, "Execution failed"),
        _ => panic!("expected a failure event"),
    }
    assert!(matches!(
        completion_event(RunStatus::Cancelled, "w".to_string(), "r".to_string()),
        WorkflowEventKind::WorkflowCompleted { .. }
    ));
}

#[test]
fn a_sent_message_is_delivered_once_and_the_run_ends() {
    let mut router = MessageRouter::new();
    router.add_edge(Edge::direct("A".to_string(), "B".to_string(), EdgeId::new(0)));
    let sent = vec![OutgoingMessage { message: Value::from(7), target_id: None, source_id: "A".to_string() }];
    let next = next_deliveries(&router, &sent, None, "A");
    assert_eq!(next.len(), 1);
    assert_eq!(next[0].target_id.as_deref(), Some("B"));
    assert_eq!(next[0].message, Value::from(7));
    assert_eq!(after_super_step(false, false, next.len()), LoopDecision::Continue);
    let after_b = next_deliveries(&router, &Vec::new(), None, "A");
    assert!(after_b.is_empty());
    assert_eq!(after_super_step(false, false, after_b.len()), LoopDecision::Complete);
}

#[test]
fn responses_go_to_the_start_executor() {
    let router = MessageRouter::new();
    let next = next_deliveries(&router, &Vec::new(), Some(Value::from("ok")), "start");
    assert_eq!(next.len(), 1);
    assert_eq!(next[0].target_id.as_deref(), Some("start"));
    assert_eq!(next[0].source_id, "external");
}

#[test]
fn run_status_names_and_classes() {
    assert_eq!(RunStatus::WaitingForInput.to_string(), "Waiting for Input");
    assert_eq!(RunStatus::Halted.to_string(), "Halted");
    assert_eq!(RunStatus::Running.to_string(), "Running");
    for s in [RunStatus::Completed, RunStatus::Failed, RunStatus::Cancelled] {
        assert!(s.is_terminal());
        assert!(!s.is_active());
    }
    for s in [RunStatus::Running, RunStatus::WaitingForInput] {
        assert!(s.is_active());
        assert!(!s.is_terminal());
    }
    assert!(!RunStatus::Halted.is_active() && !RunStatus::Halted.is_terminal());
}

#[test]
fn super_step_info_builders() {
    let info = SuperStepInfo::new(step_id(2))
        .with_message_count(4)
        .with_executors(vec!["a".to_string()])
        .with_duration(std::time::Duration::from_millis(5));
    assert_eq!(info.step_id, "step_2");
    assert_eq!(info.message_count, 4);
    assert_eq!(info.executor_ids, vec!["a".to_string()]);
    assert_eq!(info.duration, Some(std::time::Duration::from_millis(5)));
}

#[test]
fn forwarded_messages_name_source_and_target() {
    let mut router = MessageRouter::new();
    router.add_edge(Edge::fan_out("a".to_string(), vec!["b".to_string(), "c".to_string()], EdgeId::new(0)));
    let msg = OutgoingMessage { message: Value::from(1), target_id: None, source_id: "a".to_string() };
    let out = forward_message(&router, &msg);
    assert_eq!(out.len(), 2);
    assert_eq!(out[0].target_id.as_deref(), Some("b"));
    assert_eq!(out[1].target_id.as_deref(), Some("c"));
    assert!(out.iter().all(|m| m.source_id == "a" && m.message == Value::from(1)));
    let targeted = OutgoingMessage { message: Value::from(2), target_id: Some("c".to_string()), source_id: "a".to_string() };
    let out = forward_message(&router, &targeted);
    assert_eq!(out.len(), 1);
    assert_eq!(out[0].target_id.as_deref(), Some("c"));
}

#[test]
fn scope_defaults_to_executor() {
    assert_eq!(resolve_scope("exec", None), "exec");
    assert_eq!(resolve_scope("exec", Some("shared")), "shared");
}

#[test]
fn edge_info_describes_edges() {
    let direct = Edge::direct_with_condition("a".to_string(), "b".to_string(), EdgeId::new(3), |_m: &Value| true);
    let info = EdgeInfo::from(&direct);
    assert_eq!(info.id, 3);
    assert_eq!(info.edge_type, EdgeType::Direct);
    assert!(info.has_condition && !info.has_partitioner);
    assert_eq!(info.source_ids, vec!["a".to_string()]);
    let fan_in = Edge::fan_in(vec!["a".to_string(), "b".to_string()], "c".to_string(), EdgeId::new(4));
    let info = EdgeInfo::from(&fan_in);
    assert_eq!(info.edge_type, EdgeType::FanIn);
    assert_eq!(info.source_ids, vec!["a".to_string(), "b".to_string()]);
    assert_eq!(info.target_ids, vec!["c".to_string()]);
    assert_eq!(fan_in.source_ids(), vec!["a", "b"]);
    assert_eq!(fan_in.target_ids(), vec!["c"]);
    assert_eq!(fan_in.id(), EdgeId(4));
}

#[test]
fn workflow_errors_carry_messages() {
    match WorkflowError::invalid_configuration("bad") {
        WorkflowError::InvalidConfiguration { message } => assert_eq!(message, "bad"),
        _ => panic!("wrong variant"),
    }
    match WorkflowError::state_error("s".to_string()) {
        WorkflowError::StateError { message } => assert_eq!(message, "s"),
        _ => panic!("wrong variant"),
    }
    assert!(matches!(WorkflowError::run_failed("r"), WorkflowError::RunFailed { .. }));
    assert!(matches!(WorkflowError::async_error("r"), WorkflowError::AsyncError { .. }));
    assert!(matches!(WorkflowError::ownership_error("r"), WorkflowError::OwnershipError { .. }));
    let parse = serde_json::from_str::<Value>("[").unwrap_err();
    assert!(matches!(WorkflowError::from(parse), WorkflowError::SerializationError { .. }));
}

#[test]
fn events_take_metadata() {
    let e = WorkflowEvent::new(WorkflowEventKind::SuperStepStarted { step_id: step_id(1) });
    assert!(e.metadata.is_none());
    let e = e.with_metadata(Value::from("m"));
    assert_eq!(e.metadata, Some(Value::from("m")));
    assert_eq!(e.id.to_string().len(), 36);
}

#[test]
fn function_executor_keeps_id_and_options() {
    let f: FunctionExecutor<Value, Value> = FunctionExecutor::new("f".to_string(), |v: Value| Ok(v));
    assert_eq!(f.executor_id(), "f");
    assert!(f.executor_options().auto_yield_output_handler_result);
    let f = f.with_options(ExecutorOptions { auto_yield_output_handler_result: false, custom_config: None });
    assert!(!f.executor_options().auto_yield_output_handler_result);
    assert_eq!(f.function().call(Value::from(3)).ok(), Some(Value::from(3)));
    assert!(ExecutorOptions::default().auto_yield_output_handler_result);
}

#[test]
fn text_helpers() {
    assert_eq!(join_strings(&vec!["a".to_string(), "b".to_string(), "c".to_string()], ", "), "a, b, c");
    assert_eq!(join_strings(&Vec::new(), ", "), "");
}

#[test]
fn deliveries_count_when_the_executor_succeeds() {
    let (kind, n) = delivery_outcome("b".to_string(), None);
    assert_eq!(n, 1);
    assert!(matches!(kind, WorkflowEventKind::ExecutorCompleted { ref executor_id, success: true } if executor_id == "b"));
    let (kind, n) = delivery_outcome("b".to_string(), Some("boom".to_string()));
    assert_eq!(n, 0);
    assert!(matches!(kind, WorkflowEventKind::ExecutorFailed { ref error, .. } if error == "boom"));
}
