use llama_mesh::tunnel::{
    decode_frame, encode_frame, tcp_to_ws, ws_to_tcp, Streams, TcpAction, TcpEvent, WsAction, WsEvent,
};

#[test]
fn encode_decode_roundtrip() {
    let data = b"test payload";
    let frame = encode_frame(42, data);
    let (id, payload) = decode_frame(&frame).unwrap();
    assert_eq!(id, 42);
    assert_eq!(payload, data);
}

#[test]
fn decode_rejects_short_frames() {
    assert!(decode_frame(&[]).is_none());
    assert!(decode_frame(&[1]).is_none());
    assert!(decode_frame(&[1, 2]).is_none());
    assert!(decode_frame(&[1, 2, 3]).is_none());
}

#[test]
fn decode_accepts_header_only() {
    let (id, data) = decode_frame(&[0, 0, 0, 1]).unwrap();
    assert_eq!(id, 1);
    assert!(data.is_empty());
}

#[test]
fn stream_id_is_big_endian() {
    let frame = encode_frame(0x01020304, &[]);
    assert_eq!(&frame[..4], &[1, 2, 3, 4]);
}

#[test]
fn encoding_what_was_decoded_gives_the_frame_back() {
    let frame = [0xde, 0xad, 0xbe, 0xef, 9, 8, 7];
    let (id, payload) = decode_frame(&frame).unwrap();
    assert_eq!(id, 0xdeadbeef);
    assert_eq!(encode_frame(id, payload), frame.to_vec());
}

#[test]
fn header_covers_the_whole_range() {
    assert_eq!(encode_frame(u32::MAX, &[5]), vec![255, 255, 255, 255, 5]);
    assert_eq!(encode_frame(0, &[5]), vec![0, 0, 0, 0, 5]);
    assert_eq!(decode_frame(&[255, 255, 255, 255]).unwrap().0, u32::MAX);
}

#[test]
fn interleaved_streams_come_out_whole() {
    let chunks: Vec<(u32, &[u8])> = vec![(1, b"he"), (2, b"wo"), (1, b"llo"), (2, b"rld")];
    let wire: Vec<Vec<u8>> = chunks.iter().map(|c| encode_frame(c.0, c.1)).collect();
    let mut streams: Streams<u8> = Streams::new();
    streams.open(1, 10);
    streams.open(2, 20);
    let mut one: Vec<u8> = Vec::new();
    let mut two: Vec<u8> = Vec::new();
    for frame in &wire {
        match streams.route(frame) {
            Some((1, payload)) => one.extend(payload),
            Some((2, payload)) => two.extend(payload),
            _ => panic!("a frame went astray"),
        }
    }
    assert_eq!(one, b"hello".to_vec());
    assert_eq!(two, b"world".to_vec());
}

#[test]
fn frames_of_unknown_streams_go_nowhere() {
    let mut streams: Streams<u8> = Streams::new();
    assert!(streams.route(&encode_frame(1, b"x")).is_none());
    streams.open(1, 10);
    assert_eq!(streams.handle(1), Some(&10));
    assert_eq!(streams.route(&encode_frame(1, b"x")), Some((1, b"x".to_vec())));
    assert!(streams.route(&[0, 0, 0]).is_none());
    streams.open(1, 11);
    assert_eq!(streams.handle(1), Some(&11));
    streams.close(1);
    assert!(streams.handle(1).is_none());
    assert!(streams.route(&encode_frame(1, b"x")).is_none());
    streams.close(1);
}

#[test]
fn tcp_reader_frames_data_and_reports_its_end() {
    assert!(matches!(tcp_to_ws(7, TcpEvent::Started), TcpAction::Read));
    match tcp_to_ws(7, TcpEvent::Read(b"hi".to_vec())) {
        TcpAction::Send(frame) => assert_eq!(frame, vec![0, 0, 0, 7, b'h', b'i']),
        _ => panic!("expected a frame"),
    }
    assert!(matches!(tcp_to_ws(7, TcpEvent::Queued), TcpAction::Read));
    assert!(matches!(tcp_to_ws(7, TcpEvent::Read(Vec::new())), TcpAction::Close(7)));
    assert!(matches!(tcp_to_ws(7, TcpEvent::ReadFailed), TcpAction::Close(7)));
    assert!(matches!(tcp_to_ws(7, TcpEvent::QueueClosed), TcpAction::Close(7)));
}

#[test]
fn tcp_writer_writes_until_it_is_done() {
    assert!(matches!(ws_to_tcp(WsEvent::Started), WsAction::Receive));
    match ws_to_tcp(WsEvent::Received(b"data".to_vec())) {
        WsAction::Write(data) => assert_eq!(data, b"data".to_vec()),
        _ => panic!("expected a write"),
    }
    assert!(matches!(ws_to_tcp(WsEvent::Written), WsAction::Receive));
    assert!(matches!(ws_to_tcp(WsEvent::WriteFailed), WsAction::Stop));
    assert!(matches!(ws_to_tcp(WsEvent::Finished), WsAction::Stop));
}

/// Runs the reader of stream 7 on `reads`; the queue takes `room` frames. Gives the
/// frames it took, how many were handed to it, and the streams reported as closed.
fn run_reader(reads: &[&[u8]], room: usize) -> (Vec<Vec<u8>>, usize, Vec<u32>) {
    let (mut queued, mut handed, mut closed) = (Vec::new(), 0, Vec::new());
    let mut reads = reads.iter();
    let mut event = TcpEvent::Started;
    loop {
        event = match tcp_to_ws(7, event) {
            TcpAction::Read => match reads.next() {
                Some(data) => TcpEvent::Read(data.to_vec()),
                None => TcpEvent::ReadFailed,
            },
            TcpAction::Send(frame) => {
                handed += 1;
                if queued.len() < room {
                    queued.push(frame);
                    TcpEvent::Queued
                } else {
                    TcpEvent::QueueClosed
                }
            }
            TcpAction::Close(stream_id) => {
                closed.push(stream_id);
                return (queued, handed, closed);
            }
        };
    }
}

#[test]
fn reader_carries_all_bytes_and_closes_once() {
    let (queued, handed, closed) = run_reader(&[b"he", b"llo", b"", b"late"], 9);
    let carried: Vec<u8> = queued
        .iter()
        .flat_map(|frame| {
            let (id, payload) = decode_frame(frame).unwrap();
            assert_eq!(id, 7);
            payload.to_vec()
        })
        .collect();
    assert_eq!(carried, b"hello".to_vec());
    assert_eq!(handed, 2);
    assert_eq!(closed, vec![7]);
}

#[test]
fn reader_ends_with_a_failed_read_or_a_lost_websocket() {
    let (queued, handed, closed) = run_reader(&[b"x"], 9);
    assert_eq!((queued.len(), handed, closed), (1, 1, vec![7]));
    let (queued, handed, closed) = run_reader(&[b"a", b"b", b"c"], 1);
    assert_eq!((queued.len(), handed, closed), (1, 2, vec![7]));
}

#[test]
fn writer_writes_all_it_receives_and_stops_once() {
    for (refuse_at, expected) in [(9, &b"abcd"[..]), (1, &b"ab"[..])] {
        let mut chunks = vec![b"ab".to_vec(), b"cd".to_vec()].into_iter();
        let (mut written, mut stops, mut writes): (Vec<u8>, i32, i32) = (Vec::new(), 0, 0);
        let mut event = WsEvent::Started;
        while stops == 0 {
            event = match ws_to_tcp(event) {
                WsAction::Receive => match chunks.next() {
                    Some(data) => WsEvent::Received(data),
                    None => WsEvent::Finished,
                },
                WsAction::Write(data) => {
                    if writes < refuse_at {
                        writes += 1;
                        written.extend(data);
                        WsEvent::Written
                    } else {
                        WsEvent::WriteFailed
                    }
                }
                WsAction::Stop => {
                    stops += 1;
                    WsEvent::Started
                }
            };
        }
        assert_eq!(written, expected.to_vec());
    }
}
