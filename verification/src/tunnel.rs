//! TCP streams multiplexed over one WebSocket.
//!
//! A binary WebSocket message is a frame: a stream ID of four bytes, most
//! significant byte first, then the payload. Text messages carry the control
//! protocol and never pass through here.
use std::collections::HashMap;
use vstd::prelude::*;
use vstd::slice::slice_subrange;
use vstd::slice::slice_to_vec;

verus! {

/// Bytes read from a TCP stream at a time.
pub const TCP_BUF_SIZE: usize = 65536;

/// Chunks that may wait for the TCP side of one stream.
pub const STREAM_QUEUE: usize = 32;

/// The four header bytes of a stream ID, most significant first.
pub open spec fn header(stream_id: u32) -> Seq<u8> {
    seq![
        (stream_id / 0x100_0000) as u8,
        ((stream_id / 0x1_0000) % 0x100) as u8,
        ((stream_id / 0x100) % 0x100) as u8,
        (stream_id % 0x100) as u8,
    ]
}

/// The stream ID that four header bytes stand for.
pub open spec fn header_value(bytes: Seq<u8>) -> int {
    bytes[0] * 0x100_0000 + bytes[1] * 0x1_0000 + bytes[2] * 0x100 + bytes[3]
}

/// The frame that carries `data` on stream `stream_id`.
pub open spec fn frame_of(stream_id: u32, data: Seq<u8>) -> Seq<u8> {
    header(stream_id) + data
}

/// What a binary message says: its stream and its payload. Nothing, where it is
/// shorter than a header.
pub open spec fn parsed(frame: Seq<u8>) -> Option<(u32, Seq<u8>)> {
    if frame.len() < 4 {
        None
    } else {
        Some((header_value(frame) as u32, frame.skip(4)))
    }
}

/// Prefix `data` with a big-endian stream ID.
pub fn encode_frame(stream_id: u32, data: &[u8]) -> (frame: Vec<u8>)
    ensures
        frame@ == frame_of(stream_id, data@),
{
    let mut frame: Vec<u8> = Vec::new();
    frame.push((stream_id / 0x100_0000) as u8);
    frame.push(((stream_id / 0x1_0000) % 0x100) as u8);
    frame.push(((stream_id / 0x100) % 0x100) as u8);
    frame.push((stream_id % 0x100) as u8);
    frame.extend_from_slice(data);
    frame
}

/// Extract stream ID and payload from a binary frame.
pub fn decode_frame(frame: &[u8]) -> (res: Option<(u32, &[u8])>)
    ensures
        match res {
            Some((stream_id, payload)) => parsed(frame@) == Some((stream_id, payload@)),
            None => parsed(frame@) is None,
        },
{
    if frame.len() < 4 {
        return None;
    }
    let stream_id: u32 = frame[0] as u32 * 0x100_0000 + frame[1] as u32 * 0x1_0000 + frame[2] as u32
        * 0x100 + frame[3] as u32;
    Some((stream_id, slice_subrange(frame, 4, frame.len())))
}

/// Decoding a frame gives back the stream and the payload it was made of.
pub proof fn decode_inverts_encode(stream_id: u32, data: Seq<u8>)
    ensures
        parsed(frame_of(stream_id, data)) == Some((stream_id, data)),
{
    let frame = frame_of(stream_id, data);
    assert(frame.skip(4) == data);
    assert(header_value(frame) == header_value(header(stream_id)));
    assert(header_value(header(stream_id)) == stream_id) by {
        let n = stream_id as int;
        assert(n / 0x100 / 0x100 == n / 0x1_0000);
        assert(n / 0x1_0000 / 0x100 == n / 0x100_0000);
    }
}

/// A message that decodes is the frame of what it decodes to.
pub proof fn encode_inverts_decode(frame: Seq<u8>)
    ensures
        parsed(frame) matches Some((stream_id, data)) ==> frame_of(stream_id, data) == frame,
{
    if frame.len() >= 4 {
        let stream_id = header_value(frame) as u32;
        assert(stream_id / 0x100_0000 == frame[0]);
        assert((stream_id / 0x1_0000) % 0x100 == frame[1]);
        assert((stream_id / 0x100) % 0x100 == frame[2]);
        assert(stream_id % 0x100 == frame[3]);
        assert(frame_of(stream_id, frame.skip(4)) =~= frame);
    }
}

/// The frames that carry the given chunks, each on its stream, in order.
pub open spec fn wire(sent: Seq<(u32, Seq<u8>)>) -> Seq<Seq<u8>> {
    sent.map_values(|item: (u32, Seq<u8>)| frame_of(item.0, item.1))
}

/// The bytes that entered stream `stream_id`, in order.
pub open spec fn entered(sent: Seq<(u32, Seq<u8>)>, stream_id: u32) -> Seq<u8>
    decreases sent.len(),
{
    if sent.len() == 0 {
        Seq::empty()
    } else {
        let before = entered(sent.drop_last(), stream_id);
        if sent.last().0 == stream_id {
            before + sent.last().1
        } else {
            before
        }
    }
}

/// The bytes that a sequence of binary messages brings for stream `stream_id`.
pub open spec fn arrived(frames: Seq<Seq<u8>>, stream_id: u32) -> Seq<u8>
    decreases frames.len(),
{
    if frames.len() == 0 {
        Seq::empty()
    } else {
        let before = arrived(frames.drop_last(), stream_id);
        match parsed(frames.last()) {
            Some((id, payload)) => if id == stream_id {
                before + payload
            } else {
                before
            },
            None => before,
        }
    }
}

/// Those of `frames` that belong to stream `stream_id`, in order.
pub open spec fn on_stream(frames: Seq<Seq<u8>>, stream_id: u32) -> Seq<Seq<u8>> {
    frames.filter(
        |frame: Seq<u8>| parsed(frame) matches Some((id, _)) && id == stream_id,
    )
}

/// What arrives for a stream is what its own frames bring.
pub proof fn arrived_on_stream(frames: Seq<Seq<u8>>, stream_id: u32)
    ensures
        arrived(on_stream(frames, stream_id), stream_id) == arrived(frames, stream_id),
    decreases frames.len(),
{
    reveal(Seq::filter);
    if frames.len() > 0 {
        let front = on_stream(frames.drop_last(), stream_id);
        arrived_on_stream(frames.drop_last(), stream_id);
        assert(front.push(frames.last()).drop_last() == front);
    }
}

/// What the first `n` of `frames` bring for a stream is the beginning of what they all
/// bring.
pub proof fn arrived_grows(frames: Seq<Seq<u8>>, stream_id: u32, n: int)
    requires
        0 <= n <= frames.len(),
    ensures
        arrived(frames.take(n), stream_id).is_prefix_of(arrived(frames, stream_id)),
    decreases frames.len(),
{
    if n < frames.len() {
        arrived_grows(frames.drop_last(), stream_id, n);
        assert(frames.drop_last().take(n) == frames.take(n));
    } else {
        assert(frames.take(n) == frames);
    }
}

/// However the chunks of several streams are interleaved on the WebSocket, each
/// stream brings out the bytes that went into it, in order, and no others.
pub proof fn tunnel_preserves_streams(sent: Seq<(u32, Seq<u8>)>, stream_id: u32)
    ensures
        arrived(wire(sent), stream_id) == entered(sent, stream_id),
    decreases sent.len(),
{
    if sent.len() > 0 {
        tunnel_preserves_streams(sent.drop_last(), stream_id);
        decode_inverts_encode(sent.last().0, sent.last().1);
        assert(wire(sent).drop_last() == wire(sent.drop_last()));
    }
}

/// What happened on the TCP side of a stream that is being read.
pub enum TcpEvent {
    /// The reader is in place.
    Started,
    /// A read returned these bytes. None of them means the end of the stream.
    Read(Vec<u8>),
    /// A read failed.
    ReadFailed,
    /// The last frame was queued for the WebSocket.
    Queued,
    /// The WebSocket is gone.
    QueueClosed,
}

/// What the reader of a TCP stream does next.
pub enum TcpAction {
    /// Read from TCP.
    Read,
    /// Queue a binary message for the WebSocket.
    Send(Vec<u8>),
    /// Report the stream as closed and stop.
    Close(u32),
}

/// What is to follow each event of the TCP reader of stream `stream_id`.
pub open spec fn tcp_reaction(stream_id: u32, event: TcpEvent, action: TcpAction) -> bool {
    match event {
        TcpEvent::Started | TcpEvent::Queued => action is Read,
        TcpEvent::Read(data) => if data@.len() == 0 {
            action == TcpAction::Close(stream_id)
        } else {
            action is Send && action->Send_0@ == frame_of(stream_id, data@)
        },
        TcpEvent::ReadFailed | TcpEvent::QueueClosed => action == TcpAction::Close(stream_id),
    }
}

/// One step of the task that carries bytes from TCP to the WebSocket.
pub fn tcp_to_ws(stream_id: u32, event: TcpEvent) -> (action: TcpAction)
    ensures
        tcp_reaction(stream_id, event, action),
{
    match event {
        TcpEvent::Started => TcpAction::Read,
        TcpEvent::Queued => TcpAction::Read,
        TcpEvent::Read(data) => {
            if data.len() == 0 {
                TcpAction::Close(stream_id)
            } else {
                TcpAction::Send(encode_frame(stream_id, data.as_slice()))
            }
        },
        TcpEvent::ReadFailed => TcpAction::Close(stream_id),
        TcpEvent::QueueClosed => TcpAction::Close(stream_id),
    }
}

/// Whether `event` can be what came of `action`.
pub open spec fn tcp_outcome(action: TcpAction, event: TcpEvent) -> bool {
    match action {
        TcpAction::Read => event is Read || event is ReadFailed,
        TcpAction::Send(_) => event is Queued || event is QueueClosed,
        TcpAction::Close(_) => false,
    }
}

/// `events` are what happened to the reader of stream `stream_id` from its start, and
/// `actions` are what it did about each of them.
pub open spec fn tcp_run(
    stream_id: u32,
    events: Seq<TcpEvent>,
    actions: Seq<TcpAction>,
) -> bool {
    &&& events.len() == actions.len()
    &&& events.len() > 0 ==> events[0] is Started
    &&& forall|i: int|
        0 <= i < events.len() ==> tcp_reaction(stream_id, #[trigger] events[i], actions[i])
    &&& forall|i: int|
        0 < i < events.len() ==> tcp_outcome(actions[i - 1], #[trigger] events[i])
}

/// All bytes that the reads among `events` returned, in order.
pub open spec fn bytes_read(events: Seq<TcpEvent>) -> Seq<u8>
    decreases events.len(),
{
    if events.len() == 0 {
        Seq::empty()
    } else {
        match events.last() {
            TcpEvent::Read(data) => bytes_read(events.drop_last()) + data@,
            _ => bytes_read(events.drop_last()),
        }
    }
}

/// The frames that `actions` hand to the queue, in order.
pub open spec fn frames_sent(actions: Seq<TcpAction>) -> Seq<Seq<u8>>
    decreases actions.len(),
{
    if actions.len() == 0 {
        Seq::empty()
    } else {
        match actions.last() {
            TcpAction::Send(frame) => frames_sent(actions.drop_last()).push(frame@),
            _ => frames_sent(actions.drop_last()),
        }
    }
}

/// The number of frames that the queue took.
pub open spec fn frames_queued(events: Seq<TcpEvent>) -> nat
    decreases events.len(),
{
    if events.len() == 0 {
        0
    } else if events.last() is Queued {
        frames_queued(events.drop_last()) + 1
    } else {
        frames_queued(events.drop_last())
    }
}

/// Whether `event` is the last that a reader sees.
pub open spec fn ends_reader(event: TcpEvent) -> bool {
    match event {
        TcpEvent::Read(data) => data@.len() == 0,
        TcpEvent::ReadFailed | TcpEvent::QueueClosed => true,
        TcpEvent::Started | TcpEvent::Queued => false,
    }
}

/// Whatever befalls the reader of a stream, its frames carry, on its own stream and no
/// other, exactly the bytes that it read, in order. The queue takes all of them but
/// one that it has yet to take or has refused.
pub proof fn reader_loses_nothing(
    stream_id: u32,
    events: Seq<TcpEvent>,
    actions: Seq<TcpAction>,
)
    requires
        tcp_run(stream_id, events, actions),
    ensures
        arrived(frames_sent(actions), stream_id) == bytes_read(events),
        forall|other: u32|
            other != stream_id ==> #[trigger] arrived(frames_sent(actions), other)
                == Seq::<u8>::empty(),
        frames_queued(events) == frames_sent(actions).len() - if events.len() > 0 && (
        actions.last() is Send || events.last() is QueueClosed) {
            1int
        } else {
            0int
        },
    decreases events.len(),
{
    if events.len() > 0 {
        let n = events.len() - 1;
        let front = events.drop_last();
        let done = actions.drop_last();
        assert(tcp_run(stream_id, front, done)) by {
            assert forall|i: int| 0 <= i < front.len() implies tcp_reaction(
                stream_id,
                #[trigger] front[i],
                done[i],
            ) by {
                assert(front[i] == events[i]);
            }
            assert forall|i: int| 0 < i < front.len() implies tcp_outcome(
                done[i - 1],
                #[trigger] front[i],
            ) by {
                assert(front[i] == events[i]);
            }
        }
        reader_loses_nothing(stream_id, front, done);
        assert(tcp_reaction(stream_id, events[n], actions[n]));
        if n > 0 {
            assert(tcp_outcome(actions[n - 1], events[n]));
            assert(tcp_reaction(stream_id, events[n - 1], actions[n - 1]));
        }
        if let TcpAction::Send(frame) = actions[n] {
            assert(frames_sent(actions).drop_last() == frames_sent(done));
            decode_inverts_encode(stream_id, events[n]->Read_0@);
        }
        assert forall|other: u32| other != stream_id implies #[trigger] arrived(
            frames_sent(actions),
            other,
        ) == Seq::<u8>::empty() by {
            assert(arrived(frames_sent(done), other) == Seq::<u8>::empty());
        }
    }
}

/// A reader reports its stream as closed once, at the very end, and whatever ended it:
/// the end of the TCP stream, a failed read, or a WebSocket that is gone.
pub proof fn reader_closes_once(stream_id: u32, events: Seq<TcpEvent>, actions: Seq<TcpAction>)
    requires
        tcp_run(stream_id, events, actions),
    ensures
        forall|i: int|
            0 <= i < actions.len() ==> ((#[trigger] actions[i]) is Close <==> i == actions.len() - 1
                && ends_reader(events.last())),
        events.len() > 0 && ends_reader(events.last()) ==> actions.last() == TcpAction::Close(
            stream_id,
        ),
{
    assert forall|i: int| 0 <= i < actions.len() implies ((#[trigger] actions[i]) is Close <==> i
        == actions.len() - 1 && ends_reader(events.last())) by {
        assert(tcp_reaction(stream_id, events[i], actions[i]));
        if i < actions.len() - 1 {
            assert(tcp_outcome(actions[i], events[i + 1]));
        }
    }
    if events.len() > 0 {
        assert(tcp_reaction(stream_id, events[events.len() - 1], actions[events.len() - 1]));
    }
}

/// What happened on the WebSocket side of a stream that is being written.
pub enum WsEvent {
    /// The writer is in place.
    Started,
    /// A chunk arrived for this stream.
    Received(Vec<u8>),
    /// No more chunks will arrive.
    Finished,
    /// The last chunk was written.
    Written,
    /// The last chunk could not be written.
    WriteFailed,
}

/// What the writer of a TCP stream does next.
pub enum WsAction {
    /// Wait for a chunk.
    Receive,
    /// Write these bytes to TCP.
    Write(Vec<u8>),
    /// Close the TCP side and stop.
    Stop,
}

/// What is to follow each event of the TCP writer.
pub open spec fn ws_reaction(event: WsEvent, action: WsAction) -> bool {
    match event {
        WsEvent::Started | WsEvent::Written => action is Receive,
        WsEvent::Received(data) => action == WsAction::Write(data),
        WsEvent::Finished | WsEvent::WriteFailed => action is Stop,
    }
}

/// One step of the task that carries bytes from the WebSocket to TCP.
pub fn ws_to_tcp(event: WsEvent) -> (action: WsAction)
    ensures
        ws_reaction(event, action),
{
    match event {
        WsEvent::Started => WsAction::Receive,
        WsEvent::Written => WsAction::Receive,
        WsEvent::Received(data) => WsAction::Write(data),
        WsEvent::Finished => WsAction::Stop,
        WsEvent::WriteFailed => WsAction::Stop,
    }
}

/// Whether `event` can be what came of `action`.
pub open spec fn ws_outcome(action: WsAction, event: WsEvent) -> bool {
    match action {
        WsAction::Receive => event is Received || event is Finished,
        WsAction::Write(_) => event is Written || event is WriteFailed,
        WsAction::Stop => false,
    }
}

/// `events` are what happened to the writer of a stream from its start, and `actions`
/// are what it did about each of them.
pub open spec fn ws_run(events: Seq<WsEvent>, actions: Seq<WsAction>) -> bool {
    &&& events.len() == actions.len()
    &&& events.len() > 0 ==> events[0] is Started
    &&& forall|i: int| 0 <= i < events.len() ==> ws_reaction(#[trigger] events[i], actions[i])
    &&& forall|i: int|
        0 < i < events.len() ==> ws_outcome(actions[i - 1], #[trigger] events[i])
}

/// All bytes of the chunks among `events`, in order.
pub open spec fn bytes_received(events: Seq<WsEvent>) -> Seq<u8>
    decreases events.len(),
{
    if events.len() == 0 {
        Seq::empty()
    } else {
        match events.last() {
            WsEvent::Received(data) => bytes_received(events.drop_last()) + data@,
            _ => bytes_received(events.drop_last()),
        }
    }
}

/// All bytes that `actions` write to TCP, in order.
pub open spec fn bytes_written(actions: Seq<WsAction>) -> Seq<u8>
    decreases actions.len(),
{
    if actions.len() == 0 {
        Seq::empty()
    } else {
        match actions.last() {
            WsAction::Write(data) => bytes_written(actions.drop_last()) + data@,
            _ => bytes_written(actions.drop_last()),
        }
    }
}

/// The writer of a stream writes exactly the bytes that it received, in order.
pub proof fn writer_loses_nothing(events: Seq<WsEvent>, actions: Seq<WsAction>)
    requires
        ws_run(events, actions),
    ensures
        bytes_written(actions) == bytes_received(events),
    decreases events.len(),
{
    if events.len() > 0 {
        let n = events.len() - 1;
        let front = events.drop_last();
        let done = actions.drop_last();
        assert(ws_run(front, done)) by {
            assert forall|i: int| 0 <= i < front.len() implies ws_reaction(
                #[trigger] front[i],
                done[i],
            ) by {
                assert(front[i] == events[i]);
            }
            assert forall|i: int| 0 < i < front.len() implies ws_outcome(
                done[i - 1],
                #[trigger] front[i],
            ) by {
                assert(front[i] == events[i]);
            }
        }
        writer_loses_nothing(front, done);
        assert(ws_reaction(events[n], actions[n]));
    }
}

/// A writer stops once, at the very end: when no more chunks arrive, or when one could
/// not be written.
pub proof fn writer_stops_once(events: Seq<WsEvent>, actions: Seq<WsAction>)
    requires
        ws_run(events, actions),
    ensures
        forall|i: int|
            0 <= i < actions.len() ==> ((#[trigger] actions[i]) is Stop <==> i == actions.len() - 1
                && (events.last() is Finished || events.last() is WriteFailed)),
{
    assert forall|i: int| 0 <= i < actions.len() implies ((#[trigger] actions[i]) is Stop <==> i
        == actions.len() - 1 && (events.last() is Finished || events.last() is WriteFailed)) by {
        assert(ws_reaction(events[i], actions[i]));
        if i < actions.len() - 1 {
            assert(ws_outcome(actions[i], events[i + 1]));
        }
    }
}

/// The open streams of one WebSocket, each with the handle `S` by which its TCP
/// writer is fed.
#[verifier::reject_recursive_types(S)]
pub struct Streams<S> {
    handles: HashMap<u32, S>,
}

impl<S> View for Streams<S> {
    type V = Map<u32, S>;

    closed spec fn view(&self) -> Map<u32, S> {
        self.handles@
    }
}

impl<S> Streams<S> {
    /// No stream is open.
    pub fn new() -> (res: Self)
        ensures
            res@ == Map::<u32, S>::empty(),
    {
        Streams { handles: HashMap::new() }
    }

    /// Opens `stream_id`. A stream that was open under this ID is replaced.
    pub fn open(&mut self, stream_id: u32, handle: S)
        ensures
            final(self)@ == old(self)@.insert(stream_id, handle),
    {
        broadcast use vstd::std_specs::hash::group_hash_axioms;

        self.handles.insert(stream_id, handle);
    }

    /// Forgets `stream_id`, where it is open.
    pub fn close(&mut self, stream_id: u32)
        ensures
            final(self)@ == old(self)@.remove(stream_id),
    {
        broadcast use vstd::std_specs::hash::group_hash_axioms;

        self.handles.remove(&stream_id);
    }

    /// The handle of `stream_id`, where it is open.
    pub fn handle(&self, stream_id: u32) -> (res: Option<&S>)
        ensures
            match res {
                Some(handle) => self@.contains_key(stream_id) && *handle == self@[stream_id],
                None => !self@.contains_key(stream_id),
            },
    {
        broadcast use vstd::std_specs::hash::group_hash_axioms;

        self.handles.get(&stream_id)
    }

    /// Where a binary message goes: the open stream it names, and its payload.
    /// A message that is no frame, or names no open stream, goes nowhere.
    pub fn route(&self, frame: &[u8]) -> (res: Option<(u32, Vec<u8>)>)
        ensures
            match res {
                Some((stream_id, payload)) => parsed(frame@) == Some((stream_id, payload@))
                    && self@.contains_key(stream_id),
                None => match parsed(frame@) {
                    Some((stream_id, payload)) => !self@.contains_key(stream_id),
                    None => true,
                },
            },
    {
        match decode_frame(frame) {
            Some((stream_id, payload)) => {
                if self.handle(stream_id).is_some() {
                    Some((stream_id, slice_to_vec(payload)))
                } else {
                    None
                }
            },
            None => None,
        }
    }
}

} // verus!
