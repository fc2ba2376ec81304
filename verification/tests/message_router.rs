use agents_framework::agents_workflows::edge::{Edge, EdgeId};
use agents_framework::agents_workflows::message_router::MessageRouter;
use serde_json::Value;

fn object(key: &str, value: Value) -> Value {
    let mut m = serde_json::Map::new();
    m.insert(key.to_string(), value);
    Value::Object(m)
}

fn ids(targets: &[agents_framework::agents_workflows::edge::RouteTarget]) -> Vec<String> {
    targets.iter().map(|t| t.executor_id.clone()).collect()
}

#[test]
fn test_direct_routing() {
    let mut router = MessageRouter::new();
    let edge = Edge::direct("A".to_string(), "B".to_string(), EdgeId::new(1));
    router.add_edge(edge);

    let message = object("test", Value::String("data".to_string()));
    let targets = router.route_message("A", &message, None).unwrap();

    assert_eq!(targets.len(), 1);
    assert_eq!(targets[0].executor_id, "B");
}

#[test]
fn test_fan_out_routing() {
    let mut router = MessageRouter::new();
    let edge = Edge::fan_out("A".to_string(), vec!["B".to_string(), "C".to_string()], EdgeId::new(1));
    router.add_edge(edge);

    let message = object("test", Value::String("data".to_string()));
    let targets = router.route_message("A", &message, None).unwrap();

    assert_eq!(targets.len(), 2);
    let target_ids = ids(&targets);
    assert!(target_ids.contains(&"B".to_string()));
    assert!(target_ids.contains(&"C".to_string()));
}

#[test]
fn test_conditional_routing() {
    let mut router = MessageRouter::new();
    let edge = Edge::direct_with_condition("A".to_string(), "B".to_string(), EdgeId::new(1), |msg: &Value| {
        msg.get("condition").and_then(|v| v.as_bool()).unwrap_or(false)
    });
    router.add_edge(edge);

    let message_pass = object("condition", Value::Bool(true));
    let targets = router.route_message("A", &message_pass, None).unwrap();
    assert_eq!(targets.len(), 1);

    let message_fail = object("condition", Value::Bool(false));
    let targets = router.route_message("A", &message_fail, None).unwrap();
    assert_eq!(targets.len(), 0);
}

#[test]
fn routed_messages_carry_the_sent_message() {
    let mut router = MessageRouter::new();
    router.add_edge(Edge::fan_out("A".to_string(), vec!["B".to_string(), "C".to_string()], EdgeId::new(1)));
    let message = object("n", Value::from(7));
    let targets = router.route_message("A", &message, None).unwrap();
    assert_eq!(ids(&targets), vec!["B".to_string(), "C".to_string()]);
    for t in &targets {
        assert_eq!(t.message, message);
    }
}

#[test]
fn routing_from_unknown_source_routes_nothing() {
    let mut router = MessageRouter::new();
    router.add_edge(Edge::direct("A".to_string(), "B".to_string(), EdgeId::new(1)));
    let targets = router.route_message("Z", &Value::Null, None).unwrap();
    assert!(targets.is_empty());
}

#[test]
fn requested_target_filters_routes() {
    let mut router = MessageRouter::new();
    router.add_edge(Edge::fan_out("A".to_string(), vec!["B".to_string(), "C".to_string()], EdgeId::new(1)));
    router.add_edge(Edge::direct("A".to_string(), "D".to_string(), EdgeId::new(2)));
    let targets = router.route_message("A", &Value::Null, Some("C")).unwrap();
    assert_eq!(ids(&targets), vec!["C".to_string()]);
    let targets = router.route_message("A", &Value::Null, Some("D")).unwrap();
    assert_eq!(ids(&targets), vec!["D".to_string()]);
    let targets = router.route_message("A", &Value::Null, Some("X")).unwrap();
    assert!(targets.is_empty());
}

#[test]
fn partitioner_picks_targets_in_its_order() {
    let mut router = MessageRouter::new();
    router.add_edge(Edge::fan_out_with_partitioner(
        "A".to_string(),
        vec!["B".to_string(), "C".to_string(), "D".to_string()],
        EdgeId::new(1),
        |_msg: &Value, n: usize| vec![n - 1, 0, 17],
    ));
    let targets = router.route_message("A", &Value::Null, None).unwrap();
    assert_eq!(ids(&targets), vec!["D".to_string(), "B".to_string()]);
}

#[test]
fn fan_in_routes_from_each_source() {
    let mut router = MessageRouter::new();
    router.add_edge(Edge::fan_in(vec!["A".to_string(), "B".to_string()], "C".to_string(), EdgeId::new(1)));
    assert_eq!(ids(&router.route_message("A", &Value::Null, None).unwrap()), vec!["C".to_string()]);
    assert_eq!(ids(&router.route_message("B", &Value::Null, None).unwrap()), vec!["C".to_string()]);
    assert!(router.route_message("C", &Value::Null, None).unwrap().is_empty());
    let mut sources = router.get_sources("C");
    sources.sort();
    assert_eq!(sources, vec!["A".to_string(), "B".to_string()]);
}

#[test]
fn targets_and_paths_follow_edges() {
    let mut router = MessageRouter::new();
    router.add_edge(Edge::direct("A".to_string(), "B".to_string(), EdgeId::new(1)));
    router.add_edge(Edge::fan_out("A".to_string(), vec!["B".to_string(), "C".to_string()], EdgeId::new(2)));
    let mut targets = router.get_targets("A");
    targets.sort();
    assert_eq!(targets, vec!["B".to_string(), "C".to_string()]);
    assert!(router.has_path("A", "C"));
    assert!(!router.has_path("B", "A"));
    assert!(!router.has_path("A", "A"));
    assert_eq!(router.get_edges_from("A").len(), 2);
    assert_eq!(router.get_edges_from("A")[1].id(), EdgeId::new(2));
    assert!(router.get_edges_from("B").is_empty());
}

#[test]
fn stats_count_entries_sources_and_targets() {
    let mut router = MessageRouter::default();
    router.add_edge(Edge::direct("A".to_string(), "B".to_string(), EdgeId::new(1)));
    router.add_edge(Edge::fan_in(vec!["A".to_string(), "C".to_string()], "B".to_string(), EdgeId::new(2)));
    let stats = router.get_stats();
    assert_eq!(stats.total_edges, 3);
    assert_eq!(stats.executors_with_outgoing, 2);
    assert_eq!(stats.total_target_executors, 1);
}

#[test]
fn sources_and_targets_agree() {
    let mut router = MessageRouter::new();
    router.add_edge(Edge::fan_out("A".to_string(), vec!["B".to_string(), "C".to_string()], EdgeId::new(1)));
    router.add_edge(Edge::direct("D".to_string(), "B".to_string(), EdgeId::new(2)));
    for s in ["A", "B", "C", "D"] {
        for t in ["A", "B", "C", "D"] {
            let forward = router.get_targets(s).contains(&t.to_string());
            let backward = router.get_sources(t).contains(&s.to_string());
            assert_eq!(forward, backward);
            assert_eq!(forward, router.has_path(s, t));
        }
    }
}

#[test]
fn paths_follow_edges_transitively() {
    let mut router = MessageRouter::new();
    router.add_edge(Edge::direct("A".into(), "B".into(), EdgeId::new(1)));
    router.add_edge(Edge::direct("B".into(), "C".into(), EdgeId::new(2)));
    assert!(router.has_path("A", "C"));
    assert!(router.has_path("A", "B"));
    assert!(!router.has_path("C", "A"));
    assert!(!router.has_path("A", "A"));
    router.add_edge(Edge::direct("C".into(), "A".into(), EdgeId::new(3)));
    assert!(router.has_path("A", "A"));
    assert!(router.has_path("C", "B"));
}

#[test]
fn partitioner_output_keeps_order_and_repeats() {
    let mut router = MessageRouter::new();
    router.add_edge(Edge::fan_out_with_partitioner(
        "A".to_string(),
        vec!["B".to_string(), "C".to_string()],
        EdgeId::new(1),
        |_m: &Value, n: usize| {
            assert_eq!(n, 2);
            vec![1, 5, 1]
        },
    ));
    let targets = router.route_message("A", &Value::Null, None).unwrap();
    assert_eq!(ids(&targets), vec!["C".to_string(), "C".to_string()]);
}
