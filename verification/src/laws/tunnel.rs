//! Frames, the streams they belong to, and the tasks that carry their bytes.
use crate::tunnel::decode_frame;
use crate::tunnel::decode_inverts_encode;
use crate::tunnel::encode_frame;
use crate::tunnel::tcp_to_ws;
use crate::tunnel::ws_to_tcp;
use crate::tunnel::Streams;
use crate::tunnel::TcpAction;
use crate::tunnel::TcpEvent;
use crate::tunnel::WsAction;
use crate::tunnel::WsEvent;
use crate::tunnel::STREAM_QUEUE;
use crate::tunnel::TCP_BUF_SIZE;
use vstd::prelude::*;

verus! {

/// The number that the first four of `bytes` make, the most significant first.
pub open spec fn big_endian(bytes: Seq<u8>) -> int {
    ((bytes[0] * 256 + bytes[1]) * 256 + bytes[2]) * 256 + bytes[3]
}

/// `frame` carries exactly `data`, on stream `stream_id`.
pub open spec fn carries(frame: Seq<u8>, stream_id: u32, data: Seq<u8>) -> bool {
    &&& frame.len() == data.len() + 4
    &&& big_endian(frame) == stream_id
    &&& forall|i: int| 0 <= i < data.len() ==> #[trigger] data[i] == frame[i + 4]
}

/// TCP is read by 2^16 bytes at a time, and 32 chunks may wait to be written to it.
pub proof fn streams_are_buffered()
    ensures
        TCP_BUF_SIZE == 65536,
        STREAM_QUEUE == 32,
{
}

/// A frame carries the data that it was made of, after the four bytes of its stream.
pub proof fn frame_carries_its_data(stream_id: u32, data: &[u8], frame: Vec<u8>)
    requires
        call_ensures(encode_frame, (stream_id, data), frame),
    ensures
        carries(frame@, stream_id, data@),
{
    decode_inverts_encode(stream_id, data@);
}

/// Four bytes or more are a frame, and what is found in it is what it carries.
pub proof fn decoding_finds_what_is_carried(frame: &[u8], res: Option<(u32, &[u8])>)
    requires
        call_ensures(decode_frame, (frame,), res),
    ensures
        res is None <==> frame@.len() < 4,
        res matches Some((stream_id, payload)) ==> carries(frame@, stream_id, payload@),
{
}

/// Two frames are the same only if their streams and their data are.
pub proof fn frames_tell_apart(
    a: u32,
    data_a: &[u8],
    frame_a: Vec<u8>,
    b: u32,
    data_b: &[u8],
    frame_b: Vec<u8>,
)
    requires
        call_ensures(encode_frame, (a, data_a), frame_a),
        call_ensures(encode_frame, (b, data_b), frame_b),
    ensures
        frame_a@ == frame_b@ <==> a == b && data_a@ == data_b@,
{
    decode_inverts_encode(a, data_a@);
    decode_inverts_encode(b, data_b@);
}

/// Bytes read from TCP leave as one frame that carries exactly them, on the stream that
/// they were read from.
pub proof fn bytes_read_are_sent(stream_id: u32, data: Vec<u8>, action: TcpAction)
    requires
        call_ensures(tcp_to_ws, (stream_id, TcpEvent::Read(data)), action),
        data@.len() > 0,
    ensures
        action matches TcpAction::Send(frame) && carries(frame@, stream_id, data@),
{
    decode_inverts_encode(stream_id, data@);
}

/// A reader reads on after its start and after every frame that was taken, and in no
/// other case. It closes its own stream at the end of TCP, and where TCP or the
/// WebSocket fails.
pub proof fn reader_reads_until_its_end(stream_id: u32, event: TcpEvent, action: TcpAction)
    requires
        call_ensures(tcp_to_ws, (stream_id, event), action),
    ensures
        action is Read <==> event is Started || event is Queued,
        action is Close <==> event is ReadFailed || event is QueueClosed || (event matches TcpEvent::Read(
            data,
        ) && data@.len() == 0),
        action matches TcpAction::Close(id) ==> id == stream_id,
{
}

/// A writer writes every chunk as it is, waits for the next after each that was written,
/// and stops when there are no more or one could not be written.
pub proof fn writer_writes_every_chunk(event: WsEvent, action: WsAction)
    requires
        call_ensures(ws_to_tcp, (event,), action),
    ensures
        event matches WsEvent::Received(data) ==> (action matches WsAction::Write(written)
            && written@ == data@),
        action is Write ==> event is Received,
        action is Receive <==> event is Started || event is Written,
        action is Stop <==> event is Finished || event is WriteFailed,
{
}

/// No stream is open at first.
pub proof fn no_stream_is_open_at_first<S>(
    streams: Streams<S>,
    stream_id: u32,
    handle: Option<&S>,
)
    requires
        call_ensures(Streams::<S>::new, (), streams),
        call_ensures(Streams::<S>::handle, (&streams, stream_id), handle),
    ensures
        handle is None,
{
}

/// A stream that was opened is found by its handle; all others are as they were.
pub proof fn opened_stream_is_found<S>(
    streams: &mut Streams<S>,
    opened: u32,
    handle: S,
    asked: u32,
    before: Option<&S>,
    after: Option<&S>,
)
    requires
        call_ensures(Streams::<S>::handle, (&*old(streams), asked), before),
        call_ensures(Streams::<S>::open, (streams, opened, handle), ()),
        call_ensures(Streams::<S>::handle, (&*final(streams), asked), after),
    ensures
        asked == opened ==> after == Some(&handle),
        asked != opened ==> after == before,
{
}

/// A stream that was closed is found no more; all others are as they were.
pub proof fn closed_stream_is_gone<S>(
    streams: &mut Streams<S>,
    closed: u32,
    asked: u32,
    before: Option<&S>,
    after: Option<&S>,
)
    requires
        call_ensures(Streams::<S>::handle, (&*old(streams), asked), before),
        call_ensures(Streams::<S>::close, (streams, closed), ()),
        call_ensures(Streams::<S>::handle, (&*final(streams), asked), after),
    ensures
        asked == closed ==> after is None,
        asked != closed ==> after == before,
{
}

/// A message goes to the stream that it names, with what it carries, exactly if that
/// stream is open.
pub proof fn frames_go_to_the_stream_they_name<S>(
    streams: &Streams<S>,
    frame: &[u8],
    stream_id: u32,
    handle: Option<&S>,
    res: Option<(u32, Vec<u8>)>,
)
    requires
        call_ensures(Streams::<S>::handle, (streams, stream_id), handle),
        call_ensures(Streams::<S>::route, (streams, frame), res),
    ensures
        frame@.len() < 4 ==> res is None,
        frame@.len() >= 4 && big_endian(frame@) == stream_id ==> (res is Some <==> handle is Some),
        res matches Some((id, payload)) ==> carries(frame@, id, payload@),
{
}

} // verus!
