use llama_mesh::coord::CoordEvent;
use llama_mesh::coordinator::{CoordAction, CoordInput, Coordinator};
use llama_mesh::protocol::{GpuType, WorkerAnnounce};
use llama_mesh::topology::TopologyPlan;

fn joined(conn_id: u64, node: &str, port: u16) -> CoordInput {
    CoordInput::Report(CoordEvent::Joined {
        conn_id,
        node_id: node.to_string(),
        announce: WorkerAnnounce {
            node_id: node.to_string(),
            gpu: GpuType::Rocm,
            vram_mb: port as u64,
            rpc_port: 1,
            preemptible: false,
        },
        proxy_port: port,
    })
}

fn left(conn_id: u64, node: &str) -> CoordInput {
    CoordInput::Report(CoordEvent::Left { conn_id, node_id: node.to_string() })
}

fn step(c: &mut Coordinator, input: CoordInput) -> CoordAction {
    assert!(c.awaits(&input));
    c.coordinator_task(input)
}

fn plan_of(action: CoordAction) -> TopologyPlan {
    match action {
        CoordAction::Reload(plan) => plan,
        _ => panic!("expected a reload"),
    }
}

fn idle() -> Coordinator {
    let (mut c, action) = Coordinator::start(0);
    assert!(plan_of(action).rpc_endpoints.is_empty());
    assert!(matches!(step(&mut c, CoordInput::Reloaded), CoordAction::Receive));
    c
}

#[test]
fn first_reload_must_succeed() {
    let (mut c, action) = Coordinator::start(0);
    assert!(matches!(action, CoordAction::Reload(_)));
    assert!(!c.awaits(&CoordInput::Closed));
    assert!(matches!(step(&mut c, CoordInput::ReloadFailed), CoordAction::Fail));
    assert!(!c.awaits(&CoordInput::Reloaded));
}

#[test]
fn changes_are_batched() {
    let mut c = idle();
    assert!(matches!(step(&mut c, joined(1, "a", 4001)), CoordAction::Settle(500)));
    assert!(!c.awaits(&joined(2, "b", 4002)));
    assert!(matches!(step(&mut c, CoordInput::Settled), CoordAction::Poll));
    assert!(matches!(step(&mut c, joined(2, "b", 4002)), CoordAction::Poll));
    assert!(matches!(step(&mut c, joined(3, "c", 4003)), CoordAction::Poll));
    assert!(matches!(step(&mut c, left(1, "a")), CoordAction::Poll));
    let plan = plan_of(step(&mut c, CoordInput::NoMore));
    assert_eq!(plan.rpc_endpoints, vec!["127.0.0.1:4003", "127.0.0.1:4002"]);
    assert!(matches!(step(&mut c, CoordInput::Reloaded), CoordAction::Receive));
}

#[test]
fn reports_without_effect_reload_nothing() {
    let mut c = idle();
    assert!(matches!(step(&mut c, left(1, "a")), CoordAction::Receive));
    assert!(matches!(step(&mut c, CoordInput::Closed), CoordAction::Finish));
}

#[test]
fn later_reload_may_fail() {
    let mut c = idle();
    step(&mut c, joined(1, "a", 4001));
    step(&mut c, CoordInput::Settled);
    step(&mut c, CoordInput::NoMore);
    assert!(matches!(step(&mut c, CoordInput::ReloadFailed), CoordAction::Receive));
    assert!(matches!(step(&mut c, left(1, "a")), CoordAction::Settle(500)));
    step(&mut c, CoordInput::Settled);
    assert!(plan_of(step(&mut c, CoordInput::NoMore)).rpc_endpoints.is_empty());
}

#[test]
fn changes_that_cancel_out_still_reload() {
    let mut c = idle();
    step(&mut c, joined(1, "a", 4001));
    step(&mut c, CoordInput::Settled);
    step(&mut c, left(1, "a"));
    assert!(plan_of(step(&mut c, CoordInput::NoMore)).rpc_endpoints.is_empty());
}
