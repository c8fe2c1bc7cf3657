use llama_mesh::connection::{
    ConnAction, ConnIds, ConnInput, Connection, Proxy, ProxyAction, ProxyInput,
};
use llama_mesh::coord::apply_event;
use llama_mesh::protocol::{CoordinatorMsg, GpuType, Incoming, WorkerMsg};
use llama_mesh::table::Table;
use llama_mesh::topology::plan_topology;
use llama_mesh::tunnel::{tcp_to_ws, ws_to_tcp, Streams, TcpAction, TcpEvent, WsAction, WsEvent};
use llama_mesh::worker::{announcement, Session, SessionAction, SessionInput};

fn frame_of(stream_id: u32, data: &[u8]) -> Vec<u8> {
    match tcp_to_ws(stream_id, TcpEvent::Read(data.to_vec())) {
        TcpAction::Send(frame) => frame,
        _ => panic!("expected a frame"),
    }
}

fn written(data: Vec<u8>) -> Vec<u8> {
    match ws_to_tcp(WsEvent::Received(data)) {
        WsAction::Write(data) => data,
        _ => panic!("expected a write"),
    }
}

fn session() -> Session {
    let triggers = vec!["game".to_string()];
    Session::new(announcement(&"desktop".to_string(), GpuType::Cuda, 24576, 50052, &triggers))
}

/// A connection that has joined, and its worker's session.
fn joined(streams: &mut Streams<u8>) -> (Connection, Session, ConnAction) {
    let mut session = session();
    let mut connection = Connection::new(&mut ConnIds::new());
    connection.handle_connection(streams, ConnInput::Accepted);
    let msg = match session.run_session(SessionInput::Connected) {
        SessionAction::Announce(msg) => msg,
        _ => panic!("expected Announce"),
    };
    session.run_session(SessionInput::AnnounceSent);
    connection.handle_connection(streams, ConnInput::Received(Incoming::Control(msg)));
    let welcome = connection.handle_connection(streams, ConnInput::Bound(4001));
    (connection, session, welcome)
}

#[test]
fn announced_worker_is_planned_and_preempted_worker_is_not() {
    let mut workers = Table::new();
    let mut streams = Streams::new();
    let (mut connection, mut session, welcome) = joined(&mut streams);
    match welcome {
        ConnAction::Welcome(event, CoordinatorMsg::Ack { node_id }) => {
            assert_eq!(node_id, "desktop");
            assert!(apply_event(&mut workers, event));
        }
        _ => panic!("expected a welcome"),
    }
    let plan = plan_topology(0, &workers);
    assert_eq!(plan.rpc_endpoints, vec!["127.0.0.1:4001"]);
    assert_eq!(plan.tensor_split, Some("24576".to_string()));
    assert!(workers.get("desktop").unwrap().announce.preemptible);

    let notice = match session.run_session(SessionInput::Preempted("game".to_string())) {
        SessionAction::Quit(msg, _) => msg,
        _ => panic!("expected Quit"),
    };
    assert!(matches!(&notice, WorkerMsg::Draining { reason } if reason == "game launched"));
    let input = ConnInput::Received(Incoming::Control(notice));
    match connection.handle_connection(&mut streams, input) {
        ConnAction::Report(event) => assert!(apply_event(&mut workers, event)),
        _ => panic!("expected a report"),
    }
    assert!(workers.get("desktop").unwrap().draining);
    assert!(plan_topology(0, &workers).rpc_endpoints.is_empty());
}

#[test]
fn bytes_go_through_the_tunnel_and_back() {
    let mut proxy_side: Streams<u8> = Streams::new();
    let mut worker_side: Streams<u8> = Streams::new();
    let (mut connection, _, _) = joined(&mut proxy_side);

    let mut proxy = Proxy::new();
    match proxy.proxy_accept_task(ProxyInput::Accepted) {
        ProxyAction::Send(CoordinatorMsg::TunnelOpen { stream_id }) => worker_side.open(stream_id, 0),
        _ => panic!("expected TunnelOpen"),
    }
    let stream_id = match proxy.proxy_accept_task(ProxyInput::OpenQueued) {
        ProxyAction::Attach(stream_id) => stream_id,
        _ => panic!("expected a stream"),
    };
    proxy_side.open(stream_id, 0);

    for data in ["hello through the tunnel!", "second message through tunnel"] {
        let (id, payload) = worker_side.route(&frame_of(stream_id, data.as_bytes())).unwrap();
        assert_eq!(id, stream_id);
        let echoed = written(payload);
        let input = ConnInput::Received(Incoming::Binary(frame_of(id, &echoed)));
        match connection.handle_connection(&mut proxy_side, input) {
            ConnAction::Deliver(id, payload) => {
                assert_eq!(id, stream_id);
                assert_eq!(written(payload), data.as_bytes().to_vec());
            }
            _ => panic!("expected a delivery"),
        }
    }
}
