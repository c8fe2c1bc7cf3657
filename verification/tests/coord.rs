use llama_mesh::coord::{
    apply_event, default_model_args, default_ttl, generate_swap_config, Config, CoordEvent,
    ModelConfig,
};
use llama_mesh::protocol::{GpuType, WorkerAnnounce};
use llama_mesh::reload::{
    begin_reload, swap_command, ReloadAction, ReloadError, ReloadEvent, Swap,
};
use llama_mesh::table::Table;
use llama_mesh::topology::{plan_topology, ConnectedWorker, TopologyPlan};

fn announce(node: &str, vram_mb: u64, preemptible: bool) -> WorkerAnnounce {
    WorkerAnnounce {
        node_id: node.to_string(),
        gpu: GpuType::Cuda,
        vram_mb,
        rpc_port: 50052,
        preemptible,
    }
}

fn joined(conn_id: u64, node: &str, vram_mb: u64, preemptible: bool, port: u16) -> CoordEvent {
    CoordEvent::Joined {
        conn_id,
        node_id: node.to_string(),
        announce: announce(node, vram_mb, preemptible),
        proxy_port: port,
    }
}

fn left(conn_id: u64, node: &str) -> CoordEvent {
    CoordEvent::Left { conn_id, node_id: node.to_string() }
}

fn draining(conn_id: u64, node: &str) -> CoordEvent {
    CoordEvent::Draining { conn_id, node_id: node.to_string() }
}

fn resuming(conn_id: u64, node: &str) -> CoordEvent {
    CoordEvent::Resuming { conn_id, node_id: node.to_string() }
}

fn mesh() -> Table<ConnectedWorker> {
    let mut workers = Table::new();
    assert!(apply_event(&mut workers, joined(1, "desktop", 24576, true, 4001)));
    assert!(apply_event(&mut workers, joined(2, "small", 8192, false, 4002)));
    assert!(apply_event(&mut workers, joined(3, "large", 16384, false, 4003)));
    workers
}

fn empty_plan() -> TopologyPlan {
    TopologyPlan { rpc_endpoints: Vec::new(), tensor_split: None }
}

fn config(models: Vec<ModelConfig>) -> Config {
    Config {
        swap_bin: "/bin/llama-swap".to_string(),
        swap_listen: ":8080".to_string(),
        llama_server_bin: "/bin/llama-server".to_string(),
        swap_config_path: "/run/swap.yaml".to_string(),
        local_vram_mb: 0,
        models,
    }
}

fn model(name: &str, path: &str, args: &[&str], ttl: u64) -> ModelConfig {
    ModelConfig {
        name: name.to_string(),
        path: path.to_string(),
        args: args.iter().map(|a| a.to_string()).collect(),
        ttl,
    }
}

#[test]
fn model_defaults() {
    assert_eq!(default_model_args(), vec!["-ngl", "999", "-c", "16384", "--flash-attn", "on"]);
    assert_eq!(default_ttl(), 300);
}

#[test]
fn plan_without_workers() {
    let plan = plan_topology(8192, &Table::new());
    assert!(plan.rpc_endpoints.is_empty());
    assert!(plan.tensor_split.is_none());
}

#[test]
fn plan_prefers_workers_that_stay_and_have_memory() {
    let plan = plan_topology(4096, &mesh());
    assert_eq!(plan.rpc_endpoints, vec!["127.0.0.1:4003", "127.0.0.1:4002", "127.0.0.1:4001"]);
    assert_eq!(plan.tensor_split, Some("4096,16384,8192,24576".to_string()));
}

#[test]
fn plan_without_local_memory_has_no_local_share() {
    let plan = plan_topology(0, &mesh());
    assert_eq!(plan.tensor_split, Some("16384,8192,24576".to_string()));
}

#[test]
fn draining_workers_take_no_part() {
    let mut drained = mesh();
    assert!(apply_event(&mut drained, draining(3, "large")));
    let mut gone = mesh();
    assert!(apply_event(&mut gone, left(3, "large")));
    let a = plan_topology(0, &drained);
    let b = plan_topology(0, &gone);
    assert_eq!(a.rpc_endpoints, vec!["127.0.0.1:4002", "127.0.0.1:4001"]);
    assert_eq!(a.rpc_endpoints, b.rpc_endpoints);
    assert_eq!(a.tensor_split, b.tensor_split);
}

#[test]
fn tensor_split_does_not_depend_on_who_joined_first() {
    let mut other = Table::new();
    apply_event(&mut other, joined(3, "large", 16384, false, 4003));
    apply_event(&mut other, joined(1, "desktop", 24576, true, 4001));
    apply_event(&mut other, joined(2, "small", 8192, false, 4002));
    assert_eq!(plan_topology(1, &mesh()).tensor_split, plan_topology(1, &other).tensor_split);
}

#[test]
fn equal_workers_are_all_served() {
    let mut workers = Table::new();
    for i in 0..5u16 {
        apply_event(&mut workers, joined(i as u64, &format!("n{i}"), 100, false, 5000 + i));
    }
    let mut plan = plan_topology(0, &workers);
    plan.rpc_endpoints.sort();
    let expected: Vec<String> = (0..5).map(|i| format!("127.0.0.1:500{i}")).collect();
    assert_eq!(plan.rpc_endpoints, expected);
    assert_eq!(plan.tensor_split, Some("100,100,100,100,100".to_string()));
}

#[test]
fn leaving_undoes_joining() {
    let mut workers = mesh();
    assert!(apply_event(&mut workers, left(1, "desktop")));
    assert!(workers.get("desktop").is_none());
    assert_eq!(workers.len(), 2);
    assert!(!apply_event(&mut workers, left(1, "desktop")));
}

#[test]
fn replaced_connection_is_ignored() {
    let mut workers = mesh();
    assert!(apply_event(&mut workers, joined(9, "small", 8000, false, 4009)));
    assert_eq!(workers.len(), 3);
    assert!(!apply_event(&mut workers, left(2, "small")));
    assert!(!apply_event(&mut workers, draining(2, "small")));
    let w = workers.get("small").unwrap();
    assert_eq!(w.conn_id, 9);
    assert_eq!(w.proxy_port, 4009);
    assert_eq!(w.announce.vram_mb, 8000);
    assert!(!w.draining);
    assert!(apply_event(&mut workers, left(9, "small")));
}

#[test]
fn resuming_undoes_draining() {
    let mut workers = mesh();
    assert!(!apply_event(&mut workers, resuming(2, "small")));
    assert!(apply_event(&mut workers, draining(2, "small")));
    assert!(workers.get("small").unwrap().draining);
    assert!(!apply_event(&mut workers, draining(2, "small")));
    assert!(apply_event(&mut workers, resuming(2, "small")));
    assert!(!workers.get("small").unwrap().draining);
    assert!(!apply_event(&mut workers, resuming(2, "small")));
}

#[test]
fn rejoining_ends_draining() {
    let mut workers = mesh();
    assert!(apply_event(&mut workers, draining(2, "small")));
    assert!(apply_event(&mut workers, joined(2, "small", 8192, false, 4002)));
    assert!(!workers.get("small").unwrap().draining);
}

#[test]
fn unknown_nodes_change_nothing() {
    let mut workers = mesh();
    assert!(!apply_event(&mut workers, left(1, "nobody")));
    assert!(!apply_event(&mut workers, draining(1, "nobody")));
    assert!(!apply_event(&mut workers, resuming(1, "nobody")));
    assert_eq!(workers.len(), 3);
}

#[test]
fn swap_config_without_workers() {
    let c = config(vec![model("m", "/models/m.gguf", &["-ngl", "999"], 60)]);
    let swap = generate_swap_config(&c, &empty_plan());
    assert_eq!(swap.health_check_timeout, 600);
    assert_eq!(swap.log_level, "info");
    assert_eq!(swap.models.len(), 1);
    let entry = swap.models.get("m").unwrap();
    assert_eq!(entry.ttl, 60);
    assert_eq!(
        entry.cmd,
        "/bin/llama-server --model /models/m.gguf --port ${PORT} --host 127.0.0.1 -ngl 999"
    );
}

#[test]
fn swap_config_with_workers() {
    let c = config(vec![model("m", "/m", &[], 1)]);
    let swap = generate_swap_config(&c, &plan_topology(4096, &mesh()));
    assert_eq!(
        swap.models.get("m").unwrap().cmd,
        "/bin/llama-server --model /m --port ${PORT} --host 127.0.0.1 \
         --rpc 127.0.0.1:4003,127.0.0.1:4002,127.0.0.1:4001 \
         --tensor-split 4096,16384,8192,24576"
    );
}

#[test]
fn last_model_of_a_name_wins() {
    let c = config(vec![model("a", "/1", &[], 1), model("b", "/2", &[], 2), model("a", "/3", &[], 3)]);
    let swap = generate_swap_config(&c, &empty_plan());
    assert_eq!(swap.models.len(), 2);
    assert_eq!(swap.models.get("a").unwrap().ttl, 3);
    assert!(swap.models.get("a").unwrap().cmd.contains("--model /3 "));
    assert_eq!(swap.models.get("b").unwrap().ttl, 2);
}

/// An instance was started.
fn started() -> Swap {
    let mut swap = Swap::new();
    swap.write_and_reload_swap(&config(Vec::new()), ReloadEvent::Started);
    swap
}

#[test]
fn reload_errors() {
    assert_eq!(ReloadError::Render("no text".to_string()).message(), "no text");
    assert_eq!(ReloadError::Write.message(), "failed to write swap config");
    assert_eq!(ReloadError::Start.message(), "failed to start llama-swap");
}

#[test]
fn plan_takes_only_kind_memory_and_port() {
    let mut a = Table::new();
    let mut b = Table::new();
    apply_event(&mut a, joined(1, "x", 100, true, 4001));
    apply_event(&mut a, joined(2, "y", 200, false, 4002));
    apply_event(&mut b, joined(9, "p", 200, false, 4002));
    apply_event(&mut b, joined(8, "gone", 500, false, 4009));
    apply_event(&mut b, draining(8, "gone"));
    apply_event(&mut b, joined(7, "q", 100, true, 4001));
    let (pa, pb) = (plan_topology(50, &a), plan_topology(50, &b));
    assert_eq!(pa.rpc_endpoints, vec!["127.0.0.1:4002", "127.0.0.1:4001"]);
    assert_eq!(pa.rpc_endpoints, pb.rpc_endpoints);
    assert_eq!(pa.tensor_split, Some("50,200,100".to_string()));
    assert_eq!(pa.tensor_split, pb.tensor_split);
}

#[test]
fn failed_start_leaves_nothing_to_run_beside() {
    let c = config(Vec::new());
    let mut swap = Swap::new();
    swap.write_and_reload_swap(&c, ReloadEvent::StartFailed);
    let action = swap.write_and_reload_swap(&c, ReloadEvent::Written);
    assert!(matches!(action, ReloadAction::Start(_)));
    swap.write_and_reload_swap(&c, ReloadEvent::Started);
    let action = swap.write_and_reload_swap(&c, ReloadEvent::Written);
    assert!(matches!(action, ReloadAction::Stop));
}

#[test]
fn reload_writes_first() {
    let c = config(vec![model("m", "/m", &[], 1)]);
    match begin_reload(&c, &empty_plan()) {
        ReloadAction::Write { path, config } => {
            assert_eq!(path, "/run/swap.yaml");
            assert!(config.models.get("m").is_some());
        }
        _ => panic!("expected a write"),
    }
}

#[test]
fn reload_starts_swap() {
    let command = swap_command(&config(Vec::new()));
    assert_eq!(command.program, "/bin/llama-swap");
    assert_eq!(command.args, vec!["-config", "/run/swap.yaml", "-listen", ":8080"]);
    match Swap::new().write_and_reload_swap(&config(Vec::new()), ReloadEvent::Written) {
        ReloadAction::Start(command) => assert_eq!(command.program, "/bin/llama-swap"),
        _ => panic!("expected a start"),
    }
}

#[test]
fn reload_replaces_the_running_instance() {
    let c = config(Vec::new());
    let mut swap = started();
    assert!(matches!(swap.write_and_reload_swap(&c, ReloadEvent::Written), ReloadAction::Stop));
    assert!(matches!(swap.write_and_reload_swap(&c, ReloadEvent::Stopped), ReloadAction::Start(_)));
    assert!(matches!(swap.write_and_reload_swap(&c, ReloadEvent::Started), ReloadAction::Done));
}

/// Runs a reload whose write and start go as told. Gives its steps by their names.
fn run_reload(has_child: bool, writes: bool, starts: bool) -> Vec<&'static str> {
    let c = config(Vec::new());
    let mut swap = if has_child { started() } else { Swap::new() };
    let mut steps = Vec::new();
    let mut action = begin_reload(&c, &empty_plan());
    loop {
        let (step, event) = match action {
            ReloadAction::Write { .. } if writes => ("write", ReloadEvent::Written),
            ReloadAction::Write { .. } => ("write", ReloadEvent::WriteFailed),
            ReloadAction::Stop => ("stop", ReloadEvent::Stopped),
            ReloadAction::Start(_) if starts => ("start", ReloadEvent::Started),
            ReloadAction::Start(_) => ("start", ReloadEvent::StartFailed),
            ReloadAction::Done => {
                steps.push("done");
                return steps;
            }
            ReloadAction::Fail(_) => {
                steps.push("fail");
                return steps;
            }
        };
        steps.push(step);
        action = swap.write_and_reload_swap(&c, event);
    }
}

#[test]
fn reload_goes_in_order() {
    assert_eq!(run_reload(false, true, true), vec!["write", "start", "done"]);
    assert_eq!(run_reload(true, true, true), vec!["write", "stop", "start", "done"]);
    assert_eq!(run_reload(true, true, false), vec!["write", "stop", "start", "fail"]);
    assert_eq!(run_reload(true, false, true), vec!["write", "fail"]);
    assert_eq!(run_reload(false, false, true), vec!["write", "fail"]);
}

#[test]
fn failed_reload_stops_nothing() {
    let c = config(Vec::new());
    let mut swap = started();
    assert!(matches!(
        swap.write_and_reload_swap(&c, ReloadEvent::RenderFailed("no text".to_string())),
        ReloadAction::Fail(ReloadError::Render(reason)) if reason == "no text"
    ));
    assert!(matches!(
        swap.write_and_reload_swap(&c, ReloadEvent::WriteFailed),
        ReloadAction::Fail(ReloadError::Write)
    ));
    assert!(matches!(
        swap.write_and_reload_swap(&c, ReloadEvent::StartFailed),
        ReloadAction::Fail(ReloadError::Start)
    ));
}

#[test]
fn other_nodes_are_untouched() {
    let mut workers = mesh();
    apply_event(&mut workers, draining(2, "small"));
    apply_event(&mut workers, left(1, "desktop"));
    let w = workers.get("large").unwrap();
    assert_eq!(w.conn_id, 3);
    assert_eq!(w.proxy_port, 4003);
    assert_eq!(w.announce.vram_mb, 16384);
    assert!(!w.draining);
}
