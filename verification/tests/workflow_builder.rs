use agents_framework::agents_workflows::edge::EdgeType;
use agents_framework::agents_workflows::error::WorkflowError;
use agents_framework::agents_workflows::executor::{ExecutorRegistration, FunctionExecutor};
use agents_framework::agents_workflows::workflow::OwnershipToken;
use agents_framework::agents_workflows::workflow_builder::{ExecutorIsh, WorkflowBuilder};
use serde_json::Value;

type Exec = Box<FunctionExecutor<Value, Value>>;

fn registration(id: &str, executor_type: &str) -> ExecutorRegistration<Exec> {
    let owned = id.to_string();
    ExecutorRegistration::new(id.to_string(), executor_type.to_string(), move || {
        Ok(Box::new(FunctionExecutor::new(owned.clone(), |input: Value| Ok(input))))
    })
}

fn config_message(e: WorkflowError) -> String {
    match e {
        WorkflowError::InvalidConfiguration { message } => message,
        other => panic!("unexpected error {:?}", other),
    }
}

#[test]
fn test_workflow_builder_basic() {
    let start_executor: ExecutorIsh<Exec> = ExecutorIsh::unbound("start");
    let builder = WorkflowBuilder::new(start_executor).unwrap();

    let result = builder.build();
    assert!(result.is_err()); // Should fail because executor is unbound
}

#[test]
fn test_workflow_builder_with_bound_executor() {
    let registration = ExecutorRegistration::new("test".to_string(), "TestExecutor".to_string(), || {
        Ok(Box::new(FunctionExecutor::new("test".to_string(), |input: serde_json::Value| Ok(input))))
    });

    let start_executor = ExecutorIsh::bound(registration);
    let builder = WorkflowBuilder::new(start_executor).unwrap();

    let workflow = builder.build().unwrap();
    assert_eq!(workflow.start_executor_id(), "test");
}

#[test]
fn test_add_edge() {
    let reg1 = ExecutorRegistration::new("executor1".to_string(), "TestExecutor".to_string(), || {
        Ok(Box::new(FunctionExecutor::new("executor1".to_string(), |input: serde_json::Value| Ok(input))))
    });

    let reg2 = ExecutorRegistration::new("executor2".to_string(), "TestExecutor".to_string(), || {
        Ok(Box::new(FunctionExecutor::new("executor2".to_string(), |input: serde_json::Value| Ok(input))))
    });

    let executor1 = ExecutorIsh::bound(reg1);
    let executor2 = ExecutorIsh::bound(reg2);

    let builder = WorkflowBuilder::new(executor1.clone()).unwrap().add_edge(executor1, executor2).unwrap();

    let workflow = builder.build().unwrap();
    let edges = workflow.reflect_edges();
    assert!(edges.iter().any(|(source, _)| source == "executor1"));
}

#[test]
fn unbound_executors_are_reported_by_build() {
    let start: ExecutorIsh<Exec> = ExecutorIsh::unbound("start");
    let err = WorkflowBuilder::new(start).unwrap().build().err().unwrap();
    assert_eq!(config_message(err), "Unbound executors: start");
}

#[test]
fn binding_the_placeholder_lets_the_workflow_build() {
    let start: ExecutorIsh<Exec> = ExecutorIsh::unbound("start");
    assert!(start.is_unbound());
    let workflow = WorkflowBuilder::new(start)
        .unwrap()
        .bind_executor(ExecutorIsh::bound(registration("start", "Echo")))
        .unwrap()
        .with_name("named")
        .with_description("described")
        .build()
        .unwrap();
    assert_eq!(workflow.name(), Some("named"));
    assert_eq!(workflow.description(), Some("described"));
    assert_eq!(workflow.executor_ids(), vec!["start".to_string()]);
}

#[test]
fn binding_an_unknown_executor_is_refused() {
    let builder = WorkflowBuilder::new(ExecutorIsh::bound(registration("a", "Echo"))).unwrap();
    let err = builder.bind_executor(ExecutorIsh::bound(registration("a", "Echo"))).err().unwrap();
    assert_eq!(config_message(err), "Executor 'a' is already bound or does not exist");
}

#[test]
fn duplicate_plain_edge_is_refused() {
    let a = ExecutorIsh::bound(registration("a", "Echo"));
    let b = ExecutorIsh::bound(registration("b", "Echo"));
    let builder = WorkflowBuilder::new(a.clone()).unwrap().add_edge(a.clone(), b.clone()).unwrap();
    match builder.add_edge(a, b).err().unwrap() {
        WorkflowError::EdgeAlreadyExists(s, t) => {
            assert_eq!(s, "a");
            assert_eq!(t, "b");
        },
        other => panic!("unexpected error {:?}", other),
    }
}

#[test]
fn idempotent_edge_is_added_once() {
    let a = ExecutorIsh::bound(registration("a", "Echo"));
    let b = ExecutorIsh::bound(registration("b", "Echo"));
    let workflow = WorkflowBuilder::new(a.clone())
        .unwrap()
        .add_edge_idempotent(a.clone(), b.clone())
        .unwrap()
        .add_edge_idempotent(a.clone(), b.clone())
        .unwrap()
        .build()
        .unwrap();
    let edges = workflow.reflect_edges();
    assert_eq!(edges.len(), 1);
    assert_eq!(edges[0].1.len(), 1);
    assert_eq!(edges[0].1[0].id, 0);
}

#[test]
fn conditional_edges_may_repeat() {
    let a = ExecutorIsh::bound(registration("a", "Echo"));
    let b = ExecutorIsh::bound(registration("b", "Echo"));
    let workflow = WorkflowBuilder::new(a.clone())
        .unwrap()
        .add_edge_with_condition(a.clone(), b.clone(), |_m: &Value| true)
        .unwrap()
        .add_edge_with_condition(a.clone(), b.clone(), |_m: &Value| false)
        .unwrap()
        .add_edge(a, b)
        .unwrap()
        .build()
        .unwrap();
    let edges = workflow.reflect_edges();
    let infos = &edges[0].1;
    assert_eq!(infos.len(), 3);
    assert!(infos[0].has_condition && infos[1].has_condition && !infos[2].has_condition);
    assert_eq!(infos.iter().map(|e| e.id).collect::<Vec<_>>(), vec![0, 1, 2]);
}

#[test]
fn type_mismatch_is_refused() {
    let a = ExecutorIsh::bound(registration("a", "Echo"));
    let a_other = ExecutorIsh::bound(registration("a", "Other"));
    let b = ExecutorIsh::bound(registration("b", "Echo"));
    let err = WorkflowBuilder::new(a).unwrap().add_edge(a_other, b).err().unwrap();
    assert_eq!(config_message(err), "Executor 'a' type mismatch: Echo vs Other");
}

#[test]
fn fan_edges_need_members() {
    let a = ExecutorIsh::bound(registration("a", "Echo"));
    let builder = WorkflowBuilder::new(a.clone()).unwrap();
    let err = builder.add_fan_out_edge(a.clone(), &[]).err().unwrap();
    assert_eq!(config_message(err), "Fan-out edge must have at least one target");
    let builder = WorkflowBuilder::new(a.clone()).unwrap();
    let err = builder.add_fan_in_edge(a, &[]).err().unwrap();
    assert_eq!(config_message(err), "Fan-in edge must have at least one source");
}

#[test]
fn fan_edges_are_reflected() {
    let a = ExecutorIsh::bound(registration("a", "Echo"));
    let b = ExecutorIsh::bound(registration("b", "Echo"));
    let c = ExecutorIsh::bound(registration("c", "Echo"));
    let workflow = WorkflowBuilder::new(a.clone())
        .unwrap()
        .add_fan_out_edge(a.clone(), &[b.clone(), c.clone()])
        .unwrap()
        .add_fan_in_edge(a.clone(), &[b.clone(), c.clone()])
        .unwrap()
        .with_output_from(&[a.clone()])
        .unwrap()
        .build()
        .unwrap();
    let edges = workflow.reflect_edges();
    let from_a = &edges.iter().find(|(s, _)| s == "a").unwrap().1;
    assert_eq!(from_a.len(), 1);
    assert_eq!(from_a[0].edge_type, EdgeType::FanOut);
    assert_eq!(from_a[0].target_ids, vec!["b".to_string(), "c".to_string()]);
    let from_b = &edges.iter().find(|(s, _)| s == "b").unwrap().1;
    assert_eq!(from_b[0].edge_type, EdgeType::FanIn);
    assert_eq!(from_b[0].id, 1);
    let info = workflow.to_workflow_info();
    assert_eq!(info.output_executor_ids, vec!["a".to_string()]);
    assert_eq!(info.start_executor_id, "a");
    assert!(!info.allows_concurrent);
}

#[test]
fn concurrency_needs_every_executor() {
    let a = ExecutorIsh::bound(registration("a", "Echo").with_concurrent_support(true));
    let b = ExecutorIsh::bound(registration("b", "Echo"));
    let workflow = WorkflowBuilder::new(a.clone()).unwrap().build().unwrap();
    assert!(workflow.allow_concurrent());
    let workflow = WorkflowBuilder::new(a.clone()).unwrap().add_edge(a, b).unwrap().build().unwrap();
    assert!(!workflow.allow_concurrent());
    assert_eq!(workflow.non_concurrent_executor_ids(), vec!["b"]);
}

fn ownership_message(e: WorkflowError) -> String {
    match e {
        WorkflowError::OwnershipError { message } => message,
        other => panic!("unexpected error {:?}", other),
    }
}

#[test]
fn ownership_is_exclusive_until_released() {
    let a = ExecutorIsh::bound(registration("a", "Echo"));
    let mut workflow = WorkflowBuilder::new(a).unwrap().build().unwrap();
    let run1 = OwnershipToken::new("run1".to_string());
    let run2 = OwnershipToken::new("run2".to_string());
    assert!(workflow.check_ownership(None).is_ok());
    assert!(workflow.take_ownership(run1.clone()).is_ok());
    assert!(workflow.check_ownership(Some(&run1)).is_ok());
    assert!(workflow.take_ownership(run1.clone()).is_ok());
    assert_eq!(
        ownership_message(workflow.take_ownership(run2.clone()).err().unwrap()),
        "Workflow is already owned by 'run1'"
    );
    assert_eq!(
        ownership_message(workflow.check_ownership(Some(&run2)).err().unwrap()),
        "Ownership mismatch: expected 'run2', actual 'run1'"
    );
    assert_eq!(
        ownership_message(workflow.check_ownership(None).err().unwrap()),
        "Workflow is owned by 'run1' but no ownership expected"
    );
    assert_eq!(
        ownership_message(workflow.release_ownership(&run2).err().unwrap()),
        "Cannot release ownership: owned by 'run1', not 'run2'"
    );
    assert!(workflow.release_ownership(&run1).is_ok());
    assert!(workflow.check_ownership(None).is_ok());
    assert_eq!(
        ownership_message(workflow.check_ownership(Some(&run1)).err().unwrap()),
        "Expected ownership by 'run1' but workflow is unowned"
    );
    assert_eq!(
        ownership_message(workflow.release_ownership(&run1).err().unwrap()),
        "Workflow is not currently owned"
    );
    assert!(workflow.take_ownership(OwnershipToken::subworkflow("run2".to_string())).is_ok());
}

#[test]
fn start_registration_is_found() {
    let a = ExecutorIsh::bound(registration("a", "Echo"));
    let workflow = WorkflowBuilder::new(a).unwrap().build().unwrap();
    let reg = workflow.start_registration().unwrap();
    assert_eq!(reg.id, "a");
    assert_eq!(reg.executor_type, "Echo");
    assert!(reg.supports_resetting);
    assert!(reg.create_instance().is_ok());
}

#[test]
fn binding_to_a_placeholder_leaves_it_unbound() {
    let s = ExecutorIsh::bound(registration("s", "T"));
    let x: ExecutorIsh<Exec> = ExecutorIsh::unbound("x");
    let b = WorkflowBuilder::new(s.clone()).unwrap().add_edge(s, x).unwrap();
    let b2 = b.bind_executor(ExecutorIsh::unbound("x")).unwrap();
    let err = b2.build().err().unwrap();
    assert_eq!(config_message(err), "Unbound executors: x");
}

#[test]
fn output_sources_are_marked() {
    let a = ExecutorIsh::bound(registration("a", "Echo"));
    let b = ExecutorIsh::bound(registration("b", "Echo"));
    let workflow = WorkflowBuilder::new(a.clone())
        .unwrap()
        .with_output_from(&[a.clone(), b.clone()])
        .unwrap()
        .with_output_from(&[b])
        .unwrap()
        .build()
        .unwrap();
    let mut outputs = workflow.to_workflow_info().output_executor_ids;
    outputs.sort();
    assert_eq!(outputs, vec!["a".to_string(), "b".to_string()]);
}

fn chain_with_placeholder() -> WorkflowBuilder<Exec> {
    let a_first = ExecutorIsh::bound(registration("a", "Echo"));
    let a_again = ExecutorIsh::bound(registration("a", "Echo").with_concurrent_support(true));
    let b: ExecutorIsh<Exec> = ExecutorIsh::unbound("b");
    let c = ExecutorIsh::bound(registration("c", "Echo"));
    WorkflowBuilder::new(a_first)
        .unwrap()
        .add_edge(a_again, b.clone())
        .unwrap()
        .add_fan_out_edge(b.clone(), &[c.clone(), b])
        .unwrap()
        .with_output_from(&[c])
        .unwrap()
}

#[test]
fn named_executors_are_registered_or_unbound_with_their_first_registration() {
    let err = chain_with_placeholder().build().err().unwrap();
    assert_eq!(config_message(err), "Unbound executors: b");

    let workflow = chain_with_placeholder()
        .bind_executor(ExecutorIsh::bound(registration("b", "Echo")))
        .unwrap()
        .build()
        .unwrap();
    let mut ids = workflow.executor_ids();
    ids.sort();
    assert_eq!(ids, vec!["a".to_string(), "b".to_string(), "c".to_string()]);
    assert!(!workflow.registration("a").unwrap().supports_concurrent);
    assert_eq!(workflow.registration("b").unwrap().executor_type, "Echo");

    let err = chain_with_placeholder()
        .bind_executor(ExecutorIsh::bound(registration("b", "Echo")))
        .unwrap()
        .bind_executor(ExecutorIsh::bound(registration("b", "Echo")))
        .err()
        .unwrap();
    assert_eq!(config_message(err), "Executor 'b' is already bound or does not exist");
}
