//! Whether a workstream may pause while its handoff is pending.
use merge_steward::disposition::{
    evaluate_pause_graph, load_pause_proof, proof_integrity, reject_cycles, valid_digest, valid_id,
    AgentDisposition, StoredDispositionProofV1, TaskGraphV1, TaskNodeV1, TaskStateV1,
};
use merge_steward::model::CliFailure;
use merge_steward::outside::hex_digest;

fn graph(nodes: Vec<TaskNodeV1>) -> TaskGraphV1 {
    TaskGraphV1 {
        schema_version: 1,
        workstream_id: "GEN-14".to_owned(),
        revision: 7,
        handoff_task_id: "pr-148".to_owned(),
        nodes,
    }
}

fn node(id: &str, state: TaskStateV1, dependencies: &[&str]) -> TaskNodeV1 {
    TaskNodeV1 {
        id: id.to_owned(),
        state,
        depends_on: dependencies.iter().map(|value| (*value).to_owned()).collect(),
    }
}

fn evaluate(graph: TaskGraphV1) -> Result<StoredDispositionProofV1, CliFailure> {
    let canonical = format!("{graph:?}").into_bytes();
    evaluate_pause_graph(graph, "GEN-14", &canonical)
}

#[test]
fn one_blocked_child_does_not_hide_an_independent_runnable_node() {
    let error = evaluate(graph(vec![
        node("pr-148", TaskStateV1::HandedOff, &[]),
        node("blocked-child", TaskStateV1::Blocked, &["pr-148"]),
        node("independent-docs", TaskStateV1::Pending, &[]),
    ]))
    .expect_err("independent work must force continue");
    assert!(error.message().contains("independent-docs"));
}

#[test]
fn exact_dependency_boundary_produces_a_digest_bound_pause_proof() {
    let proof = evaluate(graph(vec![
        node("pr-148", TaskStateV1::HandedOff, &[]),
        node("release", TaskStateV1::Pending, &["pr-148"]),
        node("docs", TaskStateV1::Complete, &[]),
    ]))
    .expect("true dependency boundary");
    assert_eq!(proof.blocked_nodes, 1);
    assert!(proof.valid_for("GEN-14"));
}

#[test]
fn cycles_and_unjustified_blocked_states_fail_closed() {
    let cyclic = graph(vec![
        node("pr-148", TaskStateV1::HandedOff, &[]),
        node("one", TaskStateV1::Pending, &["two"]),
        node("two", TaskStateV1::Pending, &["one"]),
    ]);
    assert!(evaluate(cyclic).is_err());
    let unjustified = graph(vec![
        node("pr-148", TaskStateV1::HandedOff, &[]),
        node("blocked", TaskStateV1::Blocked, &[]),
    ]);
    assert!(evaluate(unjustified).is_err());
}

#[test]
fn a_proof_is_bound_to_its_graph_and_workstream() {
    let tasks = || {
        graph(vec![
            node("pr-148", TaskStateV1::HandedOff, &[]),
            node("release", TaskStateV1::Pending, &["pr-148"]),
        ])
    };
    let canonical = b"the graph".to_vec();
    let proof = evaluate_pause_graph(tasks(), "GEN-14", &canonical).expect("a boundary");
    assert_eq!(proof.graph_digest, hex_digest(&canonical));
    assert_eq!(proof.graph_revision, 7);
    assert_eq!(proof.integrity_hash, proof_integrity(&proof));
    assert!(!proof.valid_for("GEN-15"));
    let mut tampered = proof.clone();
    tampered.blocked_nodes = 2;
    assert!(!tampered.valid_for("GEN-14"));
    assert!(evaluate_pause_graph(tasks(), "GEN-15", &canonical).is_err());
}

#[test]
fn a_cycle_is_found_at_any_length() {
    let ring = vec![
        node("a", TaskStateV1::Pending, &["c"]),
        node("b", TaskStateV1::Pending, &["a"]),
        node("c", TaskStateV1::Pending, &["b"]),
    ];
    assert!(reject_cycles(&ring).is_err());
    let line = vec![
        node("a", TaskStateV1::Pending, &[]),
        node("b", TaskStateV1::Pending, &["a"]),
        node("c", TaskStateV1::Pending, &["a", "b"]),
    ];
    assert!(reject_cycles(&line).is_ok());
    assert!(reject_cycles(&vec![node("a", TaskStateV1::Pending, &["a"])]).is_err());
}

#[test]
fn malformed_graphs_are_refused() {
    let mut future = graph(vec![node("pr-148", TaskStateV1::HandedOff, &[])]);
    future.schema_version = 2;
    assert!(evaluate(future).is_err());
    assert!(evaluate(graph(Vec::new())).is_err());
    let twice = graph(vec![
        node("pr-148", TaskStateV1::HandedOff, &[]),
        node("pr-148", TaskStateV1::HandedOff, &[]),
    ]);
    assert!(evaluate(twice).is_err());
    let dangling = graph(vec![
        node("pr-148", TaskStateV1::HandedOff, &[]),
        node("release", TaskStateV1::Pending, &["nowhere"]),
    ]);
    assert!(evaluate(dangling).is_err());
    let running = graph(vec![
        node("pr-148", TaskStateV1::HandedOff, &[]),
        node("release", TaskStateV1::Running, &["pr-148"]),
    ]);
    assert!(evaluate(running).is_err());
}

#[test]
fn identities_and_digests_have_one_shape() {
    assert!(valid_id("pr-148"));
    for id in ["", " padded", "two words"] {
        assert!(!valid_id(id), "{id:?}");
    }
    assert!(valid_id(&"a".repeat(124)));
    assert!(!valid_id(&"a".repeat(125)));
    assert!(valid_digest(&"0a".repeat(32)));
    assert!(!valid_digest(&"0A".repeat(32)));
    assert!(!valid_digest("0a"));
}

#[test]
fn dispositions_are_read_by_name() {
    for name in ["continue", "pause"] {
        assert_eq!(AgentDisposition::parse(name).expect("a disposition").as_str(), name);
    }
    assert!(AgentDisposition::parse("Pause").is_err());
}

#[test]
fn a_task_graph_is_a_bounded_regular_file() {
    assert!(load_pause_proof(false, true, 10).is_ok());
    assert!(load_pause_proof(true, true, 10).is_err());
    assert!(load_pause_proof(false, false, 10).is_err());
    assert!(load_pause_proof(false, true, u64::MAX).is_err());
}
