use llama_mesh::child_worker::{
    start_rpc_server, Args, ChildAction, ChildError, ChildInput, ChildSession,
};
use llama_mesh::ffi::DeviceInfo;
use llama_mesh::protocol::{CoordinatorMsg, GpuType, Incoming, WorkerAnnounce, WorkerMsg};
use llama_mesh::worker::{
    announcement, any_trigger_running, get_hostname, identify,
    is_process_running, launch_notice, parse_gpu, plan_offer, wait_for_preempt_clear,
    watch_triggers, Args as WorkerArgs, Backoff, Clearance, ProcEntry, RunAction, RunInput,
    Session, SessionAction, SessionError, SessionInput, Watch, Worker,
};

fn entry(name: Option<&str>, comm: Option<&str>) -> ProcEntry {
    ProcEntry { name: name.map(|s| s.to_string()), comm: comm.map(|s| s.to_string()) }
}

fn processes() -> Vec<ProcEntry> {
    vec![
        entry(Some("1"), Some("systemd\n")),
        entry(Some("cpuinfo"), Some("fakegame\n")),
        entry(None, Some("othergame\n")),
        entry(Some("42"), None),
        entry(Some("4711"), Some("game\n")),
    ]
}

fn names(list: &[&str]) -> Vec<String> {
    list.iter().map(|s| s.to_string()).collect()
}

fn device(index: usize, dev_type: i32, vram_total_mb: u64) -> DeviceInfo {
    DeviceInfo {
        index,
        name: "d".to_string(),
        description: "d".to_string(),
        dev_type,
        vram_free_mb: 0,
        vram_total_mb,
    }
}

fn me(triggers: &[&str]) -> WorkerAnnounce {
    announcement(&"node1".to_string(), GpuType::Rocm, 16384, 50052, &names(triggers))
}

fn url() -> String {
    "ws://10.0.0.1:50050".to_string()
}

fn drain_reason(msg: WorkerMsg) -> String {
    match msg {
        WorkerMsg::Draining { reason } => reason,
        _ => panic!("expected Draining"),
    }
}

fn args() -> Args {
    Args {
        coordinator: "ws://host:50050".to_string(),
        gpu: "cuda".to_string(),
        rpc_port: 50052,
        rpc_host: "0.0.0.0".to_string(),
        rpc_bin: "/bin/llama-rpc-server".to_string(),
        preempt_triggers: Vec::new(),
        rocm_version: Some("10.3.0".to_string()),
        visible_devices: Some("0,1".to_string()),
        vram_mb: 8192,
        node_id: None,
        extra_rpc_args: names(&["-c", "-v"]),
    }
}

fn child_step(s: &mut ChildSession, input: ChildInput) -> ChildAction {
    assert!(s.expects(&input));
    s.run_session(input)
}

fn step(s: &mut Session, input: SessionInput) -> SessionAction {
    assert!(s.expects(&input));
    s.run_session(input)
}

#[test]
fn gpu_names_are_read_back() {
    for gpu in [GpuType::Cuda, GpuType::Rocm, GpuType::Cpu] {
        assert_eq!(parse_gpu(&gpu.to_string()).unwrap(), gpu);
    }
    for bad in ["", "CUDA", "cuda ", "metal"] {
        let e = parse_gpu(bad).unwrap_err();
        assert_eq!(e.given, bad);
        assert_eq!(e.message(), format!("unknown GPU type: {bad} (expected cuda, rocm, or cpu)"));
    }
}

#[test]
fn hostname_is_trimmed() {
    assert_eq!(get_hostname(Some("box\n".to_string())), "box");
    assert_eq!(get_hostname(Some("\n".to_string())), "");
    assert_eq!(get_hostname(None), "unknown");
}

#[test]
fn processes_are_found_by_name() {
    let p = processes();
    assert!(is_process_running(&p, "game"));
    assert!(is_process_running(&p, "systemd"));
    assert!(!is_process_running(&p, "fakegame"));
    assert!(!is_process_running(&p, "othergame"));
    assert!(!is_process_running(&p, "gam"));
    assert!(!is_process_running(&Vec::new(), "game"));
}

#[test]
fn first_trigger_that_runs() {
    let p = processes();
    assert_eq!(any_trigger_running(&names(&["x", "game", "systemd"]), &p), Some("game".to_string()));
    assert_eq!(any_trigger_running(&names(&["systemd", "game"]), &p), Some("systemd".to_string()));
    assert_eq!(any_trigger_running(&names(&["x"]), &p), None);
    assert_eq!(any_trigger_running(&Vec::new(), &p), None);
}

#[test]
fn start_waits_for_triggers() {
    match wait_for_preempt_clear(&names(&["game"]), &processes()) {
        Clearance::Wait(name, secs) => {
            assert_eq!(name, "game");
            assert_eq!(secs, 5);
        }
        Clearance::Clear => panic!("the game still runs"),
    }
    assert!(matches!(wait_for_preempt_clear(&names(&["x"]), &processes()), Clearance::Clear));
}

#[test]
fn watcher_looks_until_a_trigger_runs() {
    assert!(matches!(watch_triggers(&names(&["x"]), &processes()), Watch::Again(2)));
    assert!(matches!(watch_triggers(&names(&["game"]), &Vec::new()), Watch::Again(2)));
    match watch_triggers(&names(&["x", "game", "systemd"]), &processes()) {
        Watch::Found(name) => assert_eq!(name, "game"),
        Watch::Again(_) => panic!("the game runs"),
    }
}

#[test]
fn identity_of_a_worker() {
    let id = identify("rocm", Some("me".to_string()), Some("box\n".to_string())).unwrap();
    assert_eq!(id.gpu, GpuType::Rocm);
    assert_eq!(id.node_id, "me");
    assert_eq!(identify("cpu", None, Some("box\n".to_string())).unwrap().node_id, "box");
    assert_eq!(identify("cpu", None, None).unwrap().node_id, "unknown");
    assert!(matches!(identify("tpu", None, None), Err(e) if e.given == "tpu"));
}

#[test]
fn offer_of_a_worker() {
    let devices = vec![device(0, 0, 64000), device(1, 1, 8192), device(2, 1, 100)];
    let offer = plan_offer("0.0.0.0", 50052, &devices).unwrap();
    assert_eq!(offer.endpoint, "0.0.0.0:50052");
    assert_eq!(offer.gpu_indices, vec![1, 2]);
    assert_eq!(offer.total_vram_mb, 8292);
    match plan_offer("0.0.0.0", 50052, &vec![device(0, 0, 64000)]) {
        Err(e) => {
            assert_eq!(e.message(), "no GPU devices found — nothing to serve over RPC")
        }
        Ok(_) => panic!("there is no GPU"),
    }
}

#[test]
fn backoff_doubles_and_starts_over() {
    let mut b = Backoff::new();
    let waits: Vec<u64> = (0..7).map(|_| b.after_session(false)).collect();
    assert_eq!(waits, vec![1, 2, 4, 8, 16, 30, 30]);
    assert_eq!(b.after_session(true), 1);
    assert_eq!(b.after_session(false), 2);
    assert_eq!(b.after_session(true), 1);
    assert_eq!(b.after_session(true), 1);
}

#[test]
fn announcements() {
    let a = me(&["game"]);
    assert_eq!(a.node_id, "node1");
    assert_eq!(a.gpu, GpuType::Rocm);
    assert_eq!(a.vram_mb, 16384);
    assert_eq!(a.rpc_port, 50052);
    assert!(a.preemptible);
    assert!(!me(&[]).preemptible);
    assert_eq!(a.clone().node_id, "node1");
    assert_eq!(drain_reason(launch_notice("game")), "game launched");
}

#[test]
fn session_announces_and_listens() {
    let mut s = Session::new(me(&["game"]));
    match step(&mut s, SessionInput::Connected) {
        SessionAction::Announce(WorkerMsg::Announce(a)) => assert_eq!(a.node_id, "node1"),
        _ => panic!("expected Announce"),
    }
    assert!(matches!(step(&mut s, SessionInput::AnnounceSent), SessionAction::Listen(true)));
    let ack = CoordinatorMsg::Ack { node_id: "node1".to_string() };
    let quiet = vec![Incoming::Control(ack), Incoming::BadText, Incoming::Binary(vec![1]), Incoming::Other];
    for incoming in quiet {
        assert!(matches!(step(&mut s, SessionInput::Received(incoming)), SessionAction::Wait));
    }
    match step(&mut s, SessionInput::Received(Incoming::Ping(vec![3]))) {
        SessionAction::Pong(data) => assert_eq!(data, vec![3]),
        _ => panic!("expected a pong"),
    }
    assert!(matches!(step(&mut s, SessionInput::NoWatcher), SessionAction::Wait));
    let end = SessionInput::Received(Incoming::Ended);
    assert!(matches!(step(&mut s, end), SessionAction::End));
    assert!(!s.expects(&SessionInput::NoWatcher));
}

#[test]
fn session_without_triggers_does_not_watch() {
    let mut s = Session::new(me(&[]));
    step(&mut s, SessionInput::Connected);
    assert!(matches!(step(&mut s, SessionInput::AnnounceSent), SessionAction::Listen(false)));
}

#[test]
fn preempted_session_quits() {
    let mut s = Session::new(me(&["game"]));
    step(&mut s, SessionInput::Connected);
    step(&mut s, SessionInput::AnnounceSent);
    match step(&mut s, SessionInput::Preempted("game".to_string())) {
        SessionAction::Quit(msg, ms) => {
            assert_eq!(drain_reason(msg), "game launched");
            assert_eq!(ms, 200);
        }
        _ => panic!("expected Quit"),
    }
}

#[test]
fn session_errors() {
    let mut s = Session::new(me(&[]));
    assert!(matches!(
        step(&mut s, SessionInput::ConnectFailed),
        SessionAction::Fail(SessionError::Connect)
    ));
    let mut s = Session::new(me(&[]));
    step(&mut s, SessionInput::Connected);
    assert!(!s.expects(&SessionInput::Connected));
    assert!(matches!(
        step(&mut s, SessionInput::AnnounceFailed),
        SessionAction::Fail(SessionError::Announce)
    ));
    let mut s = Session::new(me(&[]));
    step(&mut s, SessionInput::Connected);
    match step(&mut s, SessionInput::RenderFailed("no text".to_string())) {
        SessionAction::Fail(e) => assert_eq!(e.message(), "no text"),
        _ => panic!("expected Fail"),
    }
    assert_eq!(SessionError::Connect.message(), "failed to connect to coordinator");
    assert_eq!(SessionError::Announce.message(), "failed to send announce");
}

#[test]
fn rpc_server_command() {
    let c = start_rpc_server(&args(), GpuType::Cuda);
    assert_eq!(c.program, "/bin/llama-rpc-server");
    assert_eq!(c.args, names(&["-H", "0.0.0.0", "-p", "50052", "-c", "-v"]));
    assert_eq!(c.env, vec![("CUDA_VISIBLE_DEVICES".to_string(), "0,1".to_string())]);
    let c = start_rpc_server(&args(), GpuType::Rocm);
    assert_eq!(
        c.env,
        vec![
            ("ROCR_VISIBLE_DEVICES".to_string(), "0,1".to_string()),
            ("HSA_OVERRIDE_GFX_VERSION".to_string(), "10.3.0".to_string()),
        ]
    );
    assert!(start_rpc_server(&args(), GpuType::Cpu).env.is_empty());
    let mut bare = args();
    bare.visible_devices = None;
    bare.rocm_version = None;
    assert!(start_rpc_server(&bare, GpuType::Rocm).env.is_empty());
}

#[test]
fn sessions_announce_before_anything_else() {
    let received = || Incoming::Ping(vec![1]);
    let s = Session::new(me(&["game"]));
    assert!(!s.expects(&SessionInput::Received(received())));
    assert!(!s.expects(&SessionInput::AnnounceSent));
    let mut c = ChildSession::new(me(&["game"]), url());
    assert!(!c.expects(&ChildInput::Connected));
    child_step(&mut c, ChildInput::RpcStarted);
    assert!(!c.expects(&ChildInput::Received(received())));
    child_step(&mut c, ChildInput::Connected);
    assert!(!c.expects(&ChildInput::Received(received())));
    child_step(&mut c, ChildInput::AnnounceSent);
    assert!(c.expects(&ChildInput::Received(received())));
    assert!(!c.expects(&ChildInput::Connected));
}

#[test]
fn child_session_makes_room_and_comes_back() {
    let mut s = ChildSession::new(me(&["game"]), url());
    match child_step(&mut s, ChildInput::RpcStarted) {
        ChildAction::Connect(secs, to) => assert_eq!((secs, to), (1, url())),
        _ => panic!("expected Connect"),
    }
    assert!(matches!(child_step(&mut s, ChildInput::Connected), ChildAction::Announce(_)));
    assert!(matches!(child_step(&mut s, ChildInput::AnnounceSent), ChildAction::Listen(true)));
    match child_step(&mut s, ChildInput::Preempted("game".to_string())) {
        ChildAction::Vacate(msg) => assert_eq!(drain_reason(msg), "game launched"),
        _ => panic!("expected Vacate"),
    }
    assert!(matches!(child_step(&mut s, ChildInput::Vacated), ChildAction::Look(5)));
    assert!(matches!(child_step(&mut s, ChildInput::Looked(processes())), ChildAction::Look(5)));
    assert!(matches!(child_step(&mut s, ChildInput::Looked(Vec::new())), ChildAction::End));
    assert!(!s.expects(&ChildInput::Looked(Vec::new())));
}

#[test]
fn child_session_ends_with_its_server_or_connection() {
    for end in [
        ChildInput::RpcExited,
        ChildInput::Received(Incoming::Close),
        ChildInput::Received(Incoming::Ended),
        ChildInput::Received(Incoming::Failed),
    ] {
        let mut s = ChildSession::new(me(&[]), url());
        child_step(&mut s, ChildInput::RpcStarted);
        child_step(&mut s, ChildInput::Connected);
        assert!(matches!(child_step(&mut s, ChildInput::AnnounceSent), ChildAction::Listen(false)));
        match child_step(&mut s, ChildInput::Received(Incoming::Ping(vec![9]))) {
            ChildAction::Pong(data) => assert_eq!(data, vec![9]),
            _ => panic!("expected a pong"),
        }
        assert!(matches!(child_step(&mut s, ChildInput::NoWatcher), ChildAction::Wait));
        assert!(matches!(child_step(&mut s, end), ChildAction::End));
    }
}

#[test]
fn child_session_errors() {
    let mut s = ChildSession::new(me(&[]), url());
    assert!(matches!(
        child_step(&mut s, ChildInput::RpcStartFailed),
        ChildAction::Fail(ChildError::StartRpc)
    ));
    let mut s = ChildSession::new(me(&[]), url());
    child_step(&mut s, ChildInput::RpcStarted);
    assert!(matches!(
        child_step(&mut s, ChildInput::ConnectFailed),
        ChildAction::Fail(ChildError::Connect)
    ));
    let mut s = ChildSession::new(me(&[]), url());
    child_step(&mut s, ChildInput::RpcStarted);
    child_step(&mut s, ChildInput::Connected);
    assert!(matches!(
        child_step(&mut s, ChildInput::AnnounceFailed),
        ChildAction::Fail(ChildError::Announce)
    ));
    let mut s = ChildSession::new(me(&[]), url());
    child_step(&mut s, ChildInput::RpcStarted);
    child_step(&mut s, ChildInput::Connected);
    match child_step(&mut s, ChildInput::RenderFailed("no text".to_string())) {
        ChildAction::Fail(e) => assert_eq!(e.message(), "no text"),
        _ => panic!("expected Fail"),
    }
    assert_eq!(ChildError::StartRpc.message(), "failed to start llama-rpc-server");
    assert_eq!(ChildError::Connect.message(), "failed to connect to coordinator");
    assert_eq!(ChildError::Announce.message(), "failed to send announce");
}

fn worker_args(gpu: &str, triggers: &[&str]) -> WorkerArgs {
    WorkerArgs {
        coordinator: url(),
        gpu: gpu.to_string(),
        rpc_port: 50052,
        rpc_host: "0.0.0.0".to_string(),
        preempt_triggers: names(triggers),
        node_id: None,
    }
}

fn run_step(w: &mut Worker, input: RunInput) -> RunAction {
    assert!(w.expects(&input));
    w.run(input)
}

#[test]
fn worker_waits_serves_and_connects() {
    let host = Some("node1\n".to_string());
    let (mut w, first) = Worker::start(worker_args("cuda", &["game"]), host).ok().unwrap();
    assert_eq!(w.identity().node_id, "node1");
    assert!(matches!(first, RunAction::Look));
    match run_step(&mut w, RunInput::Looked(processes())) {
        RunAction::WaitAndLook(name, secs) => assert_eq!((name.as_str(), secs), ("game", 5)),
        _ => panic!("the game still runs"),
    }
    assert!(matches!(run_step(&mut w, RunInput::Looked(Vec::new())), RunAction::Survey));
    let huge = vec![device(0, 1, u64::MAX), device(1, 1, 1)];
    assert!(!w.expects(&RunInput::Surveyed(huge)));
    let devices = vec![device(0, 0, 9), device(1, 1, 100), device(2, 1, 20)];
    match run_step(&mut w, RunInput::Surveyed(devices)) {
        RunAction::Serve(offer, secs) => {
            assert_eq!(offer.endpoint, "0.0.0.0:50052");
            assert_eq!(offer.gpu_indices, vec![1, 2]);
            assert_eq!(offer.total_vram_mb, 120);
            assert_eq!(secs, 1);
        }
        _ => panic!("expected Serve"),
    }
    match run_step(&mut w, RunInput::Bound) {
        RunAction::Connect(to, me) => {
            assert_eq!(to, url());
            assert_eq!(me.node_id, "node1");
            assert_eq!(me.vram_mb, 120);
            assert!(me.preemptible);
        }
        _ => panic!("expected Connect"),
    }
    let mut pauses = Vec::new();
    for clean in [false, false, false, true, false, false, false, false, false, false] {
        match run_step(&mut w, RunInput::SessionEnded(clean)) {
            RunAction::Pause(secs) => pauses.push(secs),
            _ => panic!("expected Pause"),
        }
        assert!(matches!(run_step(&mut w, RunInput::Paused), RunAction::Connect(..)));
    }
    assert_eq!(pauses, vec![1, 2, 4, 1, 2, 4, 8, 16, 30, 30]);
}

#[test]
fn worker_without_triggers_or_gpus() {
    let (mut w, first) = Worker::start(worker_args("cpu", &[]), None).ok().unwrap();
    assert_eq!(w.identity().node_id, "unknown");
    assert!(matches!(first, RunAction::Survey));
    match run_step(&mut w, RunInput::Surveyed(vec![device(0, 0, 9)])) {
        RunAction::Fail(e) => {
            assert_eq!(e.message(), "no GPU devices found — nothing to serve over RPC");
        }
        _ => panic!("expected Fail"),
    }
    assert!(!w.expects(&RunInput::Bound));
    match Worker::start(worker_args("tpu", &[]), None) {
        Err(e) => assert_eq!(e.given, "tpu"),
        Ok(_) => panic!("there is no such GPU"),
    }
}
