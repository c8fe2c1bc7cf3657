use llama_mesh::connection::{
    ConnAction, ConnIds, ConnInput, Connection, Proxy, ProxyAction, ProxyInput,
};
use llama_mesh::coord::{apply_event, CoordEvent};
use llama_mesh::protocol::{CoordinatorMsg, GpuType, Incoming, WorkerAnnounce, WorkerMsg};
use llama_mesh::table::Table;
use llama_mesh::tunnel::{encode_frame, Streams};

fn announce() -> WorkerAnnounce {
    WorkerAnnounce {
        node_id: "node1".to_string(),
        gpu: GpuType::Cuda,
        vram_mb: 8192,
        rpc_port: 50052,
        preemptible: true,
    }
}

fn control(msg: WorkerMsg) -> ConnInput {
    ConnInput::Received(Incoming::Control(msg))
}

fn step(c: &mut Connection, streams: &mut Streams<u8>, input: ConnInput) -> ConnAction {
    assert!(c.expects(&input));
    c.handle_connection(streams, input)
}

/// The connection with this ID: those before it failed.
fn connection(conn_id: u64) -> Connection {
    let mut ids = ConnIds::new();
    for _ in 1..conn_id {
        Connection::new(&mut ids);
    }
    Connection::new(&mut ids)
}

fn serving(streams: &mut Streams<u8>) -> Connection {
    let mut c = connection(7);
    step(&mut c, streams, ConnInput::Accepted);
    step(&mut c, streams, control(WorkerMsg::Announce(announce())));
    step(&mut c, streams, ConnInput::Bound(4001));
    c
}

#[test]
fn connection_ids_count_up_from_one() {
    let mut ids = ConnIds::new();
    assert!(ids.has_next());
    assert_eq!(ids.next(), 1);
    assert_eq!(ids.next(), 2);
    assert_eq!(ids.next(), 3);
    assert!(ids.has_next());
    assert_eq!(Connection::new(&mut ids).conn_id(), 4);
    assert_eq!(Connection::new(&mut ids).conn_id(), 5);
}

#[test]
fn finished_connection_is_gone_whatever_others_report() {
    let report = |conn_id: u64, node: &str, kind: u8| {
        let node_id = node.to_string();
        match kind {
            0 => {
                let announce = announce();
                CoordEvent::Joined { conn_id, node_id, announce, proxy_port: conn_id as u16 }
            }
            1 => CoordEvent::Draining { conn_id, node_id },
            2 => CoordEvent::Resuming { conn_id, node_id },
            _ => CoordEvent::Left { conn_id, node_id },
        }
    };
    let mut workers = Table::new();
    for (conn_id, node, kind) in [
        (1, "a", 0),
        (2, "b", 0),
        (3, "a", 0),
        (1, "a", 1),
        (2, "b", 1),
        (1, "a", 3),
        (3, "a", 1),
        (3, "a", 2),
    ] {
        apply_event(&mut workers, report(conn_id, node, kind));
    }
    assert_eq!(workers.len(), 2);
    assert_eq!(workers.get("a").unwrap().conn_id, 3);
    assert!(!workers.get("a").unwrap().draining);
    assert_eq!(workers.get("b").unwrap().conn_id, 2);
    assert!(workers.get("b").unwrap().draining);
}

#[test]
fn stream_is_delivered_whole() {
    let mut streams = Streams::new();
    let mut c = serving(&mut streams);
    streams.open(1, 10);
    let mut got: Vec<u8> = Vec::new();
    let inputs = vec![
        ConnInput::Received(Incoming::Binary(encode_frame(1, b"he"))),
        control(WorkerMsg::Draining { reason: "x".to_string() }),
        ConnInput::Received(Incoming::Binary(encode_frame(2, b"??"))),
        ConnInput::StreamClosed(2),
        ConnInput::Received(Incoming::Binary(vec![0, 0])),
        ConnInput::Received(Incoming::Binary(encode_frame(1, b"llo"))),
    ];
    for input in inputs {
        if let ConnAction::Deliver(1, payload) = step(&mut c, &mut streams, input) {
            got.extend(payload);
        }
    }
    assert_eq!(got, b"hello".to_vec());
}

#[test]
fn lost_connection_does_not_evict_the_one_that_came_back() {
    let mut ids = ConnIds::new();
    let (old, new) = (ids.next(), ids.next());
    let mut workers = Table::new();
    for (conn_id, proxy_port) in [(old, 40001), (new, 40002)] {
        let node_id = announce().node_id;
        apply_event(
            &mut workers,
            CoordEvent::Joined { conn_id, node_id, announce: announce(), proxy_port },
        );
    }
    let node_id = announce().node_id;
    assert!(!apply_event(&mut workers, CoordEvent::Left { conn_id: old, node_id: node_id.clone() }));
    assert_eq!(workers.get(&node_id).unwrap().proxy_port, 40002);
    assert!(apply_event(&mut workers, CoordEvent::Left { conn_id: new, node_id: node_id.clone() }));
    assert!(workers.get(&node_id).is_none());
}

#[test]
fn announcement_opens_a_connection() {
    let mut streams = Streams::new();
    let mut c = connection(7);
    assert!(matches!(step(&mut c, &mut streams, ConnInput::Accepted), ConnAction::Wait));
    let action = step(&mut c, &mut streams, control(WorkerMsg::Announce(announce())));
    match action {
        ConnAction::Bind(address) => assert_eq!(address, "127.0.0.1:0"),
        _ => panic!("expected a bind"),
    }
    match step(&mut c, &mut streams, ConnInput::Bound(4001)) {
        ConnAction::Welcome(
            CoordEvent::Joined { conn_id, node_id, announce, proxy_port },
            CoordinatorMsg::Ack { node_id: acked },
        ) => {
            assert_eq!(conn_id, 7);
            assert_eq!(node_id, "node1");
            assert_eq!(acked, "node1");
            assert_eq!(proxy_port, 4001);
            assert_eq!(announce.node_id, "node1");
            assert_eq!(announce.gpu, GpuType::Cuda);
            assert_eq!(announce.vram_mb, 8192);
            assert_eq!(announce.rpc_port, 50052);
            assert!(announce.preemptible);
        }
        _ => panic!("expected a welcome"),
    }
}

#[test]
fn anything_else_first_is_dropped() {
    let firsts = vec![
        Incoming::Control(WorkerMsg::Resuming),
        Incoming::BadText,
        Incoming::Binary(vec![0, 0, 0, 1]),
        Incoming::Ping(Vec::new()),
        Incoming::Other,
        Incoming::Close,
        Incoming::Ended,
        Incoming::Failed,
    ];
    for first in firsts {
        let mut streams = Streams::new();
        let mut c = connection(1);
        step(&mut c, &mut streams, ConnInput::Accepted);
        let action = step(&mut c, &mut streams, ConnInput::Received(first));
        assert!(matches!(action, ConnAction::Drop));
        assert!(!c.expects(&ConnInput::Received(Incoming::Ended)));
    }
}

#[test]
fn failures_before_joining_report_nothing() {
    let mut streams = Streams::new();
    let mut c = connection(1);
    assert!(!c.expects(&ConnInput::Bound(1)));
    assert!(matches!(step(&mut c, &mut streams, ConnInput::HandshakeFailed), ConnAction::Drop));
    let mut c = connection(1);
    step(&mut c, &mut streams, ConnInput::Accepted);
    step(&mut c, &mut streams, control(WorkerMsg::Announce(announce())));
    assert!(matches!(step(&mut c, &mut streams, ConnInput::BindFailed), ConnAction::Drop));
}

#[test]
fn control_messages_become_reports() {
    let mut streams = Streams::new();
    let mut c = serving(&mut streams);
    let msg = WorkerMsg::Draining { reason: "game launched".to_string() };
    match step(&mut c, &mut streams, control(msg)) {
        ConnAction::Report(CoordEvent::Draining { conn_id, node_id }) => {
            assert_eq!(conn_id, 7);
            assert_eq!(node_id, "node1");
        }
        _ => panic!("expected a report"),
    }
    match step(&mut c, &mut streams, control(WorkerMsg::Resuming)) {
        ConnAction::Report(CoordEvent::Resuming { conn_id, node_id }) => {
            assert_eq!(conn_id, 7);
            assert_eq!(node_id, "node1");
        }
        _ => panic!("expected a report"),
    }
    let again = control(WorkerMsg::Announce(announce()));
    assert!(matches!(step(&mut c, &mut streams, again), ConnAction::Wait));
    let bad = ConnInput::Received(Incoming::BadText);
    assert!(matches!(step(&mut c, &mut streams, bad), ConnAction::Wait));
    assert!(matches!(step(&mut c, &mut streams, ConnInput::NoStreams), ConnAction::Wait));
}

#[test]
fn frames_are_delivered_to_open_streams() {
    let mut streams = Streams::new();
    let mut c = serving(&mut streams);
    streams.open(1, 0);
    let frame = ConnInput::Received(Incoming::Binary(encode_frame(1, b"hello")));
    match step(&mut c, &mut streams, frame) {
        ConnAction::Deliver(stream_id, payload) => {
            assert_eq!(stream_id, 1);
            assert_eq!(payload, b"hello".to_vec());
        }
        _ => panic!("expected a delivery"),
    }
    let frame = ConnInput::Received(Incoming::Binary(encode_frame(2, b"hello")));
    assert!(matches!(step(&mut c, &mut streams, frame), ConnAction::Wait));
    let short = ConnInput::Received(Incoming::Binary(vec![0, 0, 1]));
    assert!(matches!(step(&mut c, &mut streams, short), ConnAction::Wait));
}

#[test]
fn either_side_closes_a_stream() {
    let mut streams = Streams::new();
    let mut c = serving(&mut streams);
    streams.open(1, 0);
    streams.open(2, 0);
    let close = control(WorkerMsg::TunnelClose { stream_id: 1 });
    assert!(matches!(step(&mut c, &mut streams, close), ConnAction::Wait));
    assert!(streams.handle(1).is_none());
    assert!(streams.handle(2).is_some());
    match step(&mut c, &mut streams, ConnInput::StreamClosed(2)) {
        ConnAction::Send(CoordinatorMsg::TunnelClose { stream_id }) => assert_eq!(stream_id, 2),
        _ => panic!("expected a message"),
    }
    assert!(streams.handle(2).is_none());
}

#[test]
fn pings_are_answered() {
    let mut streams = Streams::new();
    let mut c = serving(&mut streams);
    match step(&mut c, &mut streams, ConnInput::Received(Incoming::Ping(vec![1, 2]))) {
        ConnAction::Pong(data) => assert_eq!(data, vec![1, 2]),
        _ => panic!("expected a pong"),
    }
}

#[test]
fn every_end_is_reported_once() {
    for end in [Incoming::Close, Incoming::Ended, Incoming::Failed] {
        let mut streams = Streams::new();
        let mut c = serving(&mut streams);
        match step(&mut c, &mut streams, ConnInput::Received(end)) {
            ConnAction::HangUp(CoordEvent::Left { conn_id, node_id }) => {
                assert_eq!(conn_id, 7);
                assert_eq!(node_id, "node1");
            }
            _ => panic!("expected the end"),
        }
        assert!(!c.expects(&ConnInput::StreamClosed(1)));
    }
}

#[test]
fn finished_connection_leaves_no_trace() {
    let mut workers = Table::new();
    let mut streams = Streams::new();
    let mut c = connection(7);
    let inputs = vec![
        ConnInput::Accepted,
        control(WorkerMsg::Announce(announce())),
        ConnInput::Bound(4001),
        control(WorkerMsg::Draining { reason: "x".to_string() }),
        ConnInput::Received(Incoming::Close),
    ];
    let mut sizes: Vec<usize> = Vec::new();
    for input in inputs {
        match step(&mut c, &mut streams, input) {
            ConnAction::Welcome(event, _) => {
                apply_event(&mut workers, event);
            }
            ConnAction::Report(event) => {
                apply_event(&mut workers, event);
            }
            ConnAction::HangUp(event) => {
                apply_event(&mut workers, event);
            }
            _ => {}
        }
        sizes.push(workers.len());
    }
    assert_eq!(sizes, vec![0, 0, 1, 1, 0]);
}

#[test]
fn streams_are_announced_before_they_are_attached() {
    let mut proxy = Proxy::new();
    for expected in 1..4u32 {
        assert!(!proxy.expects(&ProxyInput::OpenQueued));
        assert!(proxy.expects(&ProxyInput::Accepted));
        match proxy.proxy_accept_task(ProxyInput::Accepted) {
            ProxyAction::Send(CoordinatorMsg::TunnelOpen { stream_id }) => {
                assert_eq!(stream_id, expected)
            }
            _ => panic!("expected a message"),
        }
        assert!(!proxy.expects(&ProxyInput::Accepted));
        match proxy.proxy_accept_task(ProxyInput::OpenQueued) {
            ProxyAction::Attach(stream_id) => assert_eq!(stream_id, expected),
            _ => panic!("expected the stream"),
        }
        assert!(matches!(proxy.proxy_accept_task(ProxyInput::Attached), ProxyAction::Accept));
    }
}

#[test]
fn proxy_stops_with_its_sockets() {
    let mut proxy = Proxy::new();
    assert!(matches!(proxy.proxy_accept_task(ProxyInput::AcceptFailed), ProxyAction::Stop));
    assert!(!proxy.expects(&ProxyInput::Accepted));
    let mut proxy = Proxy::new();
    proxy.proxy_accept_task(ProxyInput::Accepted);
    assert!(matches!(proxy.proxy_accept_task(ProxyInput::OpenRefused), ProxyAction::Stop));
    assert!(!proxy.expects(&ProxyInput::Attached));
}
