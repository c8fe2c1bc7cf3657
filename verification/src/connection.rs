//! One worker's connection, as the coordinator sees it: the announcement that opens
//! it, the control messages and tunnel frames that follow, and the proxy port whose
//! TCP connections are tunnelled to the worker.
use crate::coord::after_event;
use crate::coord::changes;
use crate::coord::replaced_connection_is_ignored;
use crate::coord::CoordEvent;
use crate::coord::Workers;
use crate::protocol::CoordinatorMsg;
use crate::protocol::Incoming;
use crate::protocol::WorkerAnnounce;
use crate::protocol::WorkerMsg;
use crate::topology::endpoint_at;
use crate::topology::local_endpoint;
use crate::topology::ConnectedWorker;
use crate::tunnel::arrived;
use crate::tunnel::arrived_grows;
use crate::tunnel::arrived_on_stream;
use crate::tunnel::bytes_read;
use crate::tunnel::bytes_received;
use crate::tunnel::bytes_written;
use crate::tunnel::decode_inverts_encode;
use crate::tunnel::frames_sent;
use crate::tunnel::on_stream;
use crate::tunnel::parsed;
use crate::tunnel::reader_loses_nothing;
use crate::tunnel::tcp_reaction;
use crate::tunnel::tcp_run;
use crate::tunnel::writer_loses_nothing;
use crate::tunnel::ws_run;
use crate::tunnel::Streams;
use crate::tunnel::TcpAction;
use crate::tunnel::TcpEvent;
use crate::tunnel::WsAction;
use crate::tunnel::WsEvent;
use crate::worker::tells_of_launch;
use vstd::prelude::*;

verus! {

/// Messages that may wait for the WebSocket of one connection.
pub const WS_QUEUE: usize = 64;

/// The counter stands at `before`, gives out `id`, and then stands at `after`.
pub open spec fn gives_id(before: int, id: u64, after: int) -> bool {
    id == before && after == before + 1
}

/// The IDs of connections, which count up from one. A connection takes its ID as soon
/// as it is accepted, so one whose handshake fails uses an ID up, too.
pub struct ConnIds {
    /// The ID that is given out next. There is none after the last one.
    next: Option<u64>,
}

impl View for ConnIds {
    type V = int;

    /// The ID that is given out next, or the number beyond the last ID.
    closed spec fn view(&self) -> int {
        match self.next {
            Some(id) => id as int,
            None => u64::MAX + 1,
        }
    }
}

impl ConnIds {
    /// No connection has an ID.
    pub fn new() -> (res: Self)
        ensures
            res@ == 1,
    {
        ConnIds { next: Some(1) }
    }

    /// Whether there is an ID for another connection.
    pub fn has_next(&self) -> (res: bool)
        ensures
            res == (self@ <= u64::MAX),
    {
        self.next.is_some()
    }

    /// Gives out an ID.
    pub fn next(&mut self) -> (id: u64)
        requires
            old(self)@ <= u64::MAX,
        ensures
            gives_id(old(self)@, id, final(self)@),
    {
        let id: u64 = self.next.unwrap();
        self.next = id.checked_add(1);
        id
    }
}

/// `ids` were given out one after the other by a counter that was new, and that stood
/// at `counts[i]` before it gave out `ids[i]`.
pub open spec fn given_out(counts: Seq<int>, ids: Seq<u64>) -> bool {
    &&& counts.len() == ids.len() + 1
    &&& counts[0] == 1
    &&& forall|i: int| 0 <= i < ids.len() ==> gives_id(counts[i], #[trigger] ids[i], counts[i + 1])
}

/// Connections are numbered from one, in the order in which they were accepted: a
/// later one has a greater ID, and no two of them have the same.
pub proof fn connection_ids_are_unique(counts: Seq<int>, ids: Seq<u64>)
    requires
        given_out(counts, ids),
    ensures
        forall|i: int| 0 <= i < ids.len() ==> #[trigger] ids[i] == i + 1,
        forall|i: int, j: int| 0 <= i < j < ids.len() ==> #[trigger] ids[i] < #[trigger] ids[j],
        ids.no_duplicates(),
    decreases ids.len(),
{
    if ids.len() > 0 {
        let front = ids.drop_last();
        assert(given_out(counts.drop_last(), front)) by {
            assert forall|i: int| 0 <= i < front.len() implies gives_id(
                counts.drop_last()[i],
                #[trigger] front[i],
                counts.drop_last()[i + 1],
            ) by {
                assert(front[i] == ids[i]);
            }
        }
        connection_ids_are_unique(counts.drop_last(), front);
        let last = ids.len() - 1;
        assert(gives_id(counts[last], ids[last], counts[last + 1]));
        if last > 0 {
            assert(front[last - 1] == ids[last - 1]);
            assert(gives_id(counts[last - 1], ids[last - 1], counts[last]));
        }
        assert forall|i: int| 0 <= i < ids.len() implies #[trigger] ids[i] == i + 1 by {
            if i < last {
                assert(front[i] == ids[i]);
            }
        }
    }
}

/// Once a node has joined by one connection, whatever any other connection drains,
/// resumes or leaves in the name of that node changes nothing: a connection that is
/// lost late does not take away the worker that has come back.
pub proof fn other_connection_cannot_evict(
    counts: Seq<int>,
    ids: Seq<u64>,
    i: int,
    j: int,
    workers: Workers,
    join: CoordEvent,
    event: CoordEvent,
)
    requires
        given_out(counts, ids),
        0 <= i < ids.len(),
        0 <= j < ids.len(),
        i != j,
        join is Joined,
        join.conn() == ids[j],
        !(event is Joined),
        event.conn() == ids[i],
        event.node() == join.node(),
    ensures
        !changes(after_event(workers, join), event),
        after_event(after_event(workers, join), event) == after_event(workers, join),
{
    connection_ids_are_unique(counts, ids);
    replaced_connection_is_ignored(after_event(workers, join), event);
}

/// How far a connection has come.
#[derive(Debug, Clone, Copy, PartialEq, Eq, Structural)]
pub enum ConnStage {
    /// The WebSocket handshake is under way.
    Handshake,
    /// The worker is to announce itself.
    Opening,
    /// A proxy port is being bound for the worker.
    Binding,
    /// The worker has joined.
    Serving,
    /// The connection is over.
    Over,
}

/// What can happen to a connection.
pub enum ConnInput {
    /// The handshake is done.
    Accepted,
    /// The handshake failed.
    HandshakeFailed,
    /// The WebSocket was read.
    Received(Incoming<WorkerMsg>),
    /// The proxy port is bound.
    Bound(u16),
    /// No proxy port could be bound.
    BindFailed,
    /// The TCP side of a stream closed.
    StreamClosed(u32),
    /// No stream can close any more.
    NoStreams,
}

/// What is to be done about it.
pub enum ConnAction {
    /// Nothing: wait for what comes next.
    Wait,
    /// Give the connection up. It never joined.
    Drop,
    /// Bind a proxy port at this address.
    Bind(String),
    /// Report, reply, and accept connections on the proxy port.
    Welcome(CoordEvent, CoordinatorMsg),
    /// Report to the coordinator.
    Report(CoordEvent),
    /// Send a control message to the worker.
    Send(CoordinatorMsg),
    /// Answer a ping.
    Pong(Vec<u8>),
    /// Hand a payload to the TCP writer of a stream.
    Deliver(u32, Vec<u8>),
    /// Stop the proxy and the WebSocket writer, then report.
    HangUp(CoordEvent),
}

/// What is known of a connection.
pub struct ConnState {
    pub stage: ConnStage,
    pub conn_id: u64,
    /// The announcement, from its arrival until the worker joins.
    pub announce: Option<WorkerAnnounce>,
    /// The node that announced itself.
    pub node_id: String,
}

/// Whether `input` can happen in `stage`.
pub open spec fn can_happen(stage: ConnStage, input: ConnInput) -> bool {
    match stage {
        ConnStage::Handshake => input is Accepted || input is HandshakeFailed,
        ConnStage::Opening => input is Received,
        ConnStage::Binding => input is Bound || input is BindFailed,
        ConnStage::Serving => input is Received || input is StreamClosed || input is NoStreams,
        ConnStage::Over => false,
    }
}

/// A WebSocket read after which nothing more can come.
pub open spec fn is_end<M>(incoming: Incoming<M>) -> bool {
    incoming is Close || incoming is Ended || incoming is Failed
}

/// The stage after `input`. A connection opens only with an announcement.
pub open spec fn next_stage(stage: ConnStage, input: ConnInput) -> ConnStage {
    match stage {
        ConnStage::Handshake => if input is Accepted {
            ConnStage::Opening
        } else {
            ConnStage::Over
        },
        ConnStage::Opening => match input {
            ConnInput::Received(Incoming::Control(WorkerMsg::Announce(_))) => ConnStage::Binding,
            _ => ConnStage::Over,
        },
        ConnStage::Binding => if input is Bound {
            ConnStage::Serving
        } else {
            ConnStage::Over
        },
        ConnStage::Serving => match input {
            ConnInput::Received(incoming) => if is_end(incoming) {
                ConnStage::Over
            } else {
                ConnStage::Serving
            },
            _ => ConnStage::Serving,
        },
        ConnStage::Over => ConnStage::Over,
    }
}

/// The state after `input`.
pub open spec fn next_state(state: ConnState, input: ConnInput) -> ConnState {
    let stage = next_stage(state.stage, input);
    match (state.stage, input) {
        (ConnStage::Opening, ConnInput::Received(Incoming::Control(WorkerMsg::Announce(announce)))) => {
            ConnState { stage, announce: Some(announce), node_id: announce.node_id, ..state }
        },
        (ConnStage::Binding, ConnInput::Bound(_)) => ConnState { stage, announce: None, ..state },
        _ => ConnState { stage, ..state },
    }
}

/// What is reported to the coordinator on `input`. Joining is reported once the proxy
/// port is bound, and leaving when the connection of a worker that joined ends.
pub open spec fn report_on(state: ConnState, input: ConnInput) -> Option<CoordEvent> {
    let conn_id = state.conn_id;
    let node_id = state.node_id;
    match (state.stage, input) {
        (ConnStage::Binding, ConnInput::Bound(proxy_port)) => Some(
            CoordEvent::Joined { conn_id, node_id, announce: state.announce->0, proxy_port },
        ),
        (ConnStage::Serving, ConnInput::Received(Incoming::Control(WorkerMsg::Draining { .. }))) => {
            Some(CoordEvent::Draining { conn_id, node_id })
        },
        (ConnStage::Serving, ConnInput::Received(Incoming::Control(WorkerMsg::Resuming))) => Some(
            CoordEvent::Resuming { conn_id, node_id },
        ),
        (ConnStage::Serving, ConnInput::Received(incoming)) => if is_end(incoming) {
            Some(CoordEvent::Left { conn_id, node_id })
        } else {
            None
        },
        _ => None,
    }
}

/// The open streams after `input`. A stream is forgotten when either side closes it.
pub open spec fn streams_on<S>(stage: ConnStage, streams: Map<u32, S>, input: ConnInput) -> Map<
    u32,
    S,
> {
    match (stage, input) {
        (
            ConnStage::Serving,
            ConnInput::Received(Incoming::Control(WorkerMsg::TunnelClose { stream_id })),
        ) => streams.remove(stream_id),
        (ConnStage::Serving, ConnInput::StreamClosed(stream_id)) => streams.remove(stream_id),
        _ => streams,
    }
}

/// `action` is what is to be done about `input`.
pub open spec fn answers<S>(
    state: ConnState,
    streams: Map<u32, S>,
    input: ConnInput,
    action: ConnAction,
) -> bool {
    let report = report_on(state, input);
    match state.stage {
        ConnStage::Handshake => if input is Accepted {
            action is Wait
        } else {
            action is Drop
        },
        ConnStage::Opening => if next_stage(state.stage, input) is Binding {
            action is Bind && action->Bind_0@ == endpoint_at(0)
        } else {
            action is Drop
        },
        ConnStage::Binding => if input is Bound {
            action == ConnAction::Welcome(
                report->0,
                CoordinatorMsg::Ack { node_id: state.node_id },
            )
        } else {
            action is Drop
        },
        ConnStage::Serving => match input {
            ConnInput::Received(incoming) => match incoming {
                Incoming::Control(WorkerMsg::Draining { .. })
                | Incoming::Control(WorkerMsg::Resuming) => action == ConnAction::Report(report->0),
                Incoming::Control(_) | Incoming::BadText | Incoming::Other => action is Wait,
                Incoming::Binary(frame) => match parsed(frame@) {
                    Some((stream_id, payload)) => if streams.contains_key(stream_id) {
                        action is Deliver && action->Deliver_0 == stream_id
                            && action->Deliver_1@ == payload
                    } else {
                        action is Wait
                    },
                    None => action is Wait,
                },
                Incoming::Ping(data) => action == ConnAction::Pong(data),
                Incoming::Close | Incoming::Ended | Incoming::Failed => action
                    == ConnAction::HangUp(report->0),
            },
            ConnInput::StreamClosed(stream_id) => action == ConnAction::Send(
                CoordinatorMsg::TunnelClose { stream_id },
            ),
            _ => action is Wait,
        },
        ConnStage::Over => action is Drop,
    }
}

/// A connection.
pub struct Connection {
    state: ConnState,
}

impl View for Connection {
    type V = ConnState;

    closed spec fn view(&self) -> ConnState {
        self.state
    }
}

impl Connection {
    /// The announcement is kept from its arrival until the worker joins.
    pub open spec fn wf(&self) -> bool {
        self@.stage is Binding ==> self@.announce is Some && self@.announce->0.node_id
            == self@.node_id
    }

    /// A connection that has just been accepted on the listening socket. It takes the
    /// next ID.
    pub fn new(ids: &mut ConnIds) -> (res: Self)
        requires
            old(ids)@ <= u64::MAX,
        ensures
            gives_id(old(ids)@, res@.conn_id, final(ids)@),
            res.wf(),
            res@.stage is Handshake,
            res@.announce is None,
            res@.node_id@.len() == 0,
    {
        Connection {
            state: ConnState {
                stage: ConnStage::Handshake,
                conn_id: ids.next(),
                announce: None,
                node_id: String::new(),
            },
        }
    }

    /// The ID of this connection.
    pub fn conn_id(&self) -> (res: u64)
        ensures
            res == self@.conn_id,
    {
        self.state.conn_id
    }

    /// Whether `input` can happen now.
    pub fn expects(&self, input: &ConnInput) -> (res: bool)
        ensures
            res == can_happen(self@.stage, *input),
    {
        match self.state.stage {
            ConnStage::Handshake => matches!(
                input,
                ConnInput::Accepted | ConnInput::HandshakeFailed
            ),
            ConnStage::Opening => matches!(input, ConnInput::Received(_)),
            ConnStage::Binding => matches!(input, ConnInput::Bound(_) | ConnInput::BindFailed),
            ConnStage::Serving => matches!(
                input,
                ConnInput::Received(_) | ConnInput::StreamClosed(_) | ConnInput::NoStreams
            ),
            ConnStage::Over => false,
        }
    }

    /// A read of the WebSocket of a worker that has joined.
    fn serve<S>(&mut self, streams: &mut Streams<S>, incoming: Incoming<WorkerMsg>) -> (action:
        ConnAction)
        requires
            old(self)@.stage is Serving,
        ensures
            final(self)@ == next_state(old(self)@, ConnInput::Received(incoming)),
            final(streams)@ == streams_on(
                old(self)@.stage,
                old(streams)@,
                ConnInput::Received(incoming),
            ),
            answers(old(self)@, old(streams)@, ConnInput::Received(incoming), action),
    {
        let conn_id: u64 = self.state.conn_id;
        match incoming {
            Incoming::Control(WorkerMsg::Draining { .. }) => ConnAction::Report(
                CoordEvent::Draining { conn_id, node_id: self.state.node_id.clone() },
            ),
            Incoming::Control(WorkerMsg::Resuming) => ConnAction::Report(
                CoordEvent::Resuming { conn_id, node_id: self.state.node_id.clone() },
            ),
            Incoming::Control(WorkerMsg::TunnelClose { stream_id }) => {
                streams.close(stream_id);
                ConnAction::Wait
            },
            Incoming::Control(WorkerMsg::Announce(_)) => ConnAction::Wait,
            Incoming::BadText => ConnAction::Wait,
            Incoming::Other => ConnAction::Wait,
            Incoming::Binary(frame) => match streams.route(frame.as_slice()) {
                Some((stream_id, payload)) => ConnAction::Deliver(stream_id, payload),
                None => ConnAction::Wait,
            },
            Incoming::Ping(data) => ConnAction::Pong(data),
            Incoming::Close => {
                self.state.stage = ConnStage::Over;
                ConnAction::HangUp(CoordEvent::Left { conn_id, node_id: self.state.node_id.clone() })
            },
            Incoming::Ended => {
                self.state.stage = ConnStage::Over;
                ConnAction::HangUp(CoordEvent::Left { conn_id, node_id: self.state.node_id.clone() })
            },
            Incoming::Failed => {
                self.state.stage = ConnStage::Over;
                ConnAction::HangUp(CoordEvent::Left { conn_id, node_id: self.state.node_id.clone() })
            },
        }
    }

    /// One step of a connection.
    pub fn handle_connection<S>(&mut self, streams: &mut Streams<S>, input: ConnInput) -> (action:
        ConnAction)
        requires
            old(self).wf(),
            can_happen(old(self)@.stage, input),
        ensures
            final(self).wf(),
            final(self)@ == next_state(old(self)@, input),
            final(streams)@ == streams_on(old(self)@.stage, old(streams)@, input),
            answers(old(self)@, old(streams)@, input, action),
    {
        match input {
            ConnInput::Accepted => {
                self.state.stage = ConnStage::Opening;
                ConnAction::Wait
            },
            ConnInput::Received(incoming) => {
                if self.state.stage == ConnStage::Serving {
                    return self.serve(streams, incoming);
                }
                match incoming {
                    Incoming::Control(WorkerMsg::Announce(announce)) => {
                        self.state.node_id = announce.node_id.clone();
                        self.state.announce = Some(announce);
                        self.state.stage = ConnStage::Binding;
                        ConnAction::Bind(local_endpoint(0))
                    },
                    _ => {
                        self.state.stage = ConnStage::Over;
                        ConnAction::Drop
                    },
                }
            },
            ConnInput::Bound(proxy_port) => {
                self.state.stage = ConnStage::Serving;
                match self.state.announce.take() {
                    Some(announce) => {
                        let event = CoordEvent::Joined {
                            conn_id: self.state.conn_id,
                            node_id: self.state.node_id.clone(),
                            announce,
                            proxy_port,
                        };
                        let ack = CoordinatorMsg::Ack { node_id: self.state.node_id.clone() };
                        ConnAction::Welcome(event, ack)
                    },
                    None => ConnAction::Drop,
                }
            },
            ConnInput::StreamClosed(stream_id) => {
                streams.close(stream_id);
                ConnAction::Send(CoordinatorMsg::TunnelClose { stream_id })
            },
            ConnInput::NoStreams => ConnAction::Wait,
            ConnInput::HandshakeFailed => {
                self.state.stage = ConnStage::Over;
                ConnAction::Drop
            },
            ConnInput::BindFailed => {
                self.state.stage = ConnStage::Over;
                ConnAction::Drop
            },
        }
    }
}

/// The state of a connection after `inputs`.
pub open spec fn state_after(start: ConnState, inputs: Seq<ConnInput>) -> ConnState
    decreases inputs.len(),
{
    if inputs.len() == 0 {
        start
    } else {
        next_state(state_after(start, inputs.drop_last()), inputs.last())
    }
}

/// Whether all of `inputs`, in order, can happen to a connection.
pub open spec fn all_can_happen(start: ConnState, inputs: Seq<ConnInput>) -> bool
    decreases inputs.len(),
{
    inputs.len() == 0 || (all_can_happen(start, inputs.drop_last()) && can_happen(
        state_after(start, inputs.drop_last()).stage,
        inputs.last(),
    ))
}

/// What a connection reports on `inputs`, in order.
pub open spec fn reports_on(start: ConnState, inputs: Seq<ConnInput>) -> Seq<CoordEvent>
    decreases inputs.len(),
{
    if inputs.len() == 0 {
        Seq::empty()
    } else {
        let before = reports_on(start, inputs.drop_last());
        match report_on(state_after(start, inputs.drop_last()), inputs.last()) {
            Some(event) => before.push(event),
            None => before,
        }
    }
}

/// The workers after `events`, in order.
pub open spec fn after_events(workers: Workers, events: Seq<CoordEvent>) -> Workers
    decreases events.len(),
{
    if events.len() == 0 {
        workers
    } else {
        after_event(after_events(workers, events.drop_last()), events.last())
    }
}

/// `events` tell of a worker that joined and is still there.
pub open spec fn tells_of_stay(events: Seq<CoordEvent>) -> bool {
    &&& events.len() > 0
    &&& events[0] is Joined
    &&& forall|i: int|
        0 < i < events.len() ==> (#[trigger] events[i]) is Draining || events[i] is Resuming
}

/// A connection reports nothing until its worker has joined. It then reports one
/// joining, what drains and resumes after it, and, when it ends, one leaving; all of
/// it under its own connection ID and the node that announced itself.
pub proof fn reports_are_bracketed(start: ConnState, inputs: Seq<ConnInput>)
    requires
        start.stage is Handshake,
        all_can_happen(start, inputs),
    ensures
        ({
            let end = state_after(start, inputs);
            let events = reports_on(start, inputs);
            &&& end.stage is Handshake || end.stage is Opening || end.stage is Binding
                ==> events.len() == 0
            &&& end.stage is Serving ==> tells_of_stay(events)
            &&& end.stage is Over ==> events.len() == 0 || (tells_of_stay(events.drop_last())
                && events.last() is Left)
            &&& forall|i: int|
                0 <= i < events.len() ==> (#[trigger] events[i]).conn() == start.conn_id
                    && events[i].node() == end.node_id@
        }),
    decreases inputs.len(),
{
    connection_id_is_kept(start, inputs);
    if inputs.len() > 0 {
        let front = inputs.drop_last();
        reports_are_bracketed(start, front);
        connection_id_is_kept(start, front);
        let before = reports_on(start, front);
        let after = reports_on(start, inputs);
        match report_on(state_after(start, front), inputs.last()) {
            Some(event) => {
                assert(after == before.push(event));
                assert(after.drop_last() == before);
            },
            None => {
                assert(after == before);
            },
        }
    }
}

/// A connection keeps its ID.
proof fn connection_id_is_kept(start: ConnState, inputs: Seq<ConnInput>)
    ensures
        state_after(start, inputs).conn_id == start.conn_id,
    decreases inputs.len(),
{
    if inputs.len() > 0 {
        connection_id_is_kept(start, inputs.drop_last());
    }
}

/// The reports of a worker's stay leave its node, and no other, in the table.
proof fn stay_keeps_node(workers: Workers, events: Seq<CoordEvent>, conn_id: u64, node: Seq<char>)
    requires
        tells_of_stay(events),
        forall|i: int|
            0 <= i < events.len() ==> (#[trigger] events[i]).conn() == conn_id && events[i].node()
                == node,
    ensures
        after_events(workers, events).contains_key(node),
        after_events(workers, events)[node].conn_id == conn_id,
        after_events(workers, events).remove(node) == workers.remove(node),
    decreases events.len(),
{
    let last = events.last();
    let before = after_events(workers, events.drop_last());
    if events.len() == 1 {
        assert(before == workers);
    } else {
        stay_keeps_node(workers, events.drop_last(), conn_id, node);
    }
    assert(after_event(before, last).remove(node) =~= before.remove(node));
}

/// When a connection is over, its node is gone from the table, and the table holds
/// nothing else of it: whatever the worker said in between, as long as no other
/// connection reported.
pub proof fn finished_connection_leaves_no_trace(
    start: ConnState,
    inputs: Seq<ConnInput>,
    workers: Workers,
)
    requires
        start.stage is Handshake,
        all_can_happen(start, inputs),
        state_after(start, inputs).stage is Over,
    ensures
        ({
            let node = state_after(start, inputs).node_id@;
            let events = reports_on(start, inputs);
            after_events(workers, events) == if events.len() == 0 {
                workers
            } else {
                workers.remove(node)
            }
        }),
{
    reports_are_bracketed(start, inputs);
    let events = reports_on(start, inputs);
    if events.len() > 0 {
        let node = state_after(start, inputs).node_id@;
        assert forall|i: int| 0 <= i < events.drop_last().len() implies (
        #[trigger] events.drop_last()[i]).conn() == start.conn_id && events.drop_last()[i].node()
            == node by {
            assert(events.drop_last()[i] == events[i]);
        }
        stay_keeps_node(workers, events.drop_last(), start.conn_id, node);
        assert(events.last() == events[events.len() - 1]);
    }
}

/// No entry of `workers` is there by connection `conn_id`.
pub open spec fn carries_none(workers: Workers, conn_id: u64) -> bool {
    forall|node: Seq<char>| #[trigger]
        workers.contains_key(node) ==> workers[node].conn_id != conn_id
}

/// The reports of one connection enter it under its node only, however those of others
/// come in between.
proof fn carried_under_one_node(
    workers: Workers,
    events: Seq<CoordEvent>,
    conn_id: u64,
    node: Seq<char>,
)
    requires
        carries_none(workers, conn_id),
        forall|i: int|
            0 <= i < events.len() && (#[trigger] events[i]).conn() == conn_id ==> events[i].node()
                == node,
    ensures
        forall|other: Seq<char>| #[trigger]
            after_events(workers, events).contains_key(other) && after_events(
                workers,
                events,
            )[other].conn_id == conn_id ==> other == node,
    decreases events.len(),
{
    if events.len() > 0 {
        let front = events.drop_last();
        assert forall|i: int| 0 <= i < front.len() && (#[trigger] front[i]).conn()
            == conn_id implies front[i].node() == node by {
            assert(front[i] == events[i]);
        }
        carried_under_one_node(workers, front, conn_id, node);
        assert(events.last() == events[events.len() - 1]);
    }
}

/// Once a connection is over and its reports have been applied, no entry of the table
/// is there by it: however the reports of other connections, which have other IDs, came
/// in between.
pub proof fn finished_connection_is_gone(
    start: ConnState,
    inputs: Seq<ConnInput>,
    workers: Workers,
    events: Seq<CoordEvent>,
)
    requires
        start.stage is Handshake,
        all_can_happen(start, inputs),
        state_after(start, inputs).stage is Over,
        carries_none(workers, start.conn_id),
        events.filter(|event: CoordEvent| event.conn() == start.conn_id) == reports_on(
            start,
            inputs,
        ),
    ensures
        carries_none(after_events(workers, events), start.conn_id),
{
    reports_are_bracketed(start, inputs);
    left_connection_is_gone(
        workers,
        events,
        start.conn_id,
        state_after(start, inputs).node_id@,
    );
}

/// A connection that reported nothing, or its leaving last, has no entry in the table.
proof fn left_connection_is_gone(
    workers: Workers,
    events: Seq<CoordEvent>,
    conn_id: u64,
    node: Seq<char>,
)
    requires
        carries_none(workers, conn_id),
        ({
            let own = events.filter(|event: CoordEvent| event.conn() == conn_id);
            &&& own.len() > 0 ==> own.last() is Left
            &&& forall|i: int| 0 <= i < own.len() ==> (#[trigger] own[i]).node() == node
        }),
    ensures
        carries_none(after_events(workers, events), conn_id),
    decreases events.len(),
{
    reveal(Seq::filter);
    if events.len() > 0 {
        let is_own = |event: CoordEvent| event.conn() == conn_id;
        let front = events.drop_last();
        let last = events.last();
        if last.conn() == conn_id {
            let own = events.filter(is_own);
            assert(own == front.filter(is_own).push(last));
            assert(own[own.len() - 1] == last);
            assert forall|i: int| 0 <= i < front.len() && (#[trigger] front[i]).conn()
                == conn_id implies front[i].node() == node by {
                events.lemma_filter_contains(is_own, i);
                assert(front[i] == events[i]);
                let k = own.index_of(events[i]);
                assert(own[k].node() == node);
            }
            carried_under_one_node(workers, front, conn_id, node);
        } else {
            left_connection_is_gone(workers, front, conn_id, node);
        }
    }
}

/// Whether the last that connection `conn_id` reported is that its worker drains.
pub open spec fn last_said_draining(events: Seq<CoordEvent>, conn_id: u64) -> bool
    decreases events.len(),
{
    if events.len() == 0 {
        false
    } else if events.last().conn() == conn_id {
        events.last() is Draining
    } else {
        last_said_draining(events.drop_last(), conn_id)
    }
}

/// From when a worker joins, and while its connection has not reported its leaving and
/// its node has not joined anew, the table holds the worker as it announced itself. It
/// is draining exactly if that is the last that its connection reported.
pub proof fn serving_worker_stays(workers: Workers, join: CoordEvent, events: Seq<CoordEvent>)
    requires
        join is Joined,
        forall|i: int|
            0 <= i < events.len() ==> {
                let event = #[trigger] events[i];
                &&& event is Joined ==> event.node() != join.node()
                &&& event.conn() == join.conn() ==> event.node() == join.node() && (
                event is Draining || event is Resuming)
            },
    ensures
        ({
            let table = after_events(after_event(workers, join), events);
            &&& table.contains_key(join.node())
            &&& table[join.node()] == (ConnectedWorker {
                conn_id: join.conn(),
                announce: join->announce,
                proxy_port: join->proxy_port,
                draining: last_said_draining(events, join.conn()),
            })
        }),
    decreases events.len(),
{
    if events.len() > 0 {
        let front = events.drop_last();
        assert forall|i: int| 0 <= i < front.len() implies {
            let event = #[trigger] front[i];
            &&& event is Joined ==> event.node() != join.node()
            &&& event.conn() == join.conn() ==> event.node() == join.node() && (event is Draining
                || event is Resuming)
        } by {
            assert(front[i] == events[i]);
        }
        serving_worker_stays(workers, join, front);
        assert(events.last() == events[events.len() - 1]);
    }
}

/// A worker that announces itself is entered in the table just as it announced
/// itself, under its node ID, once its proxy port is bound.
pub proof fn announced_worker_joins(
    state: ConnState,
    me: WorkerAnnounce,
    proxy_port: u16,
    workers: Workers,
)
    requires
        state.stage is Opening,
    ensures
        ({
            let announced = next_state(
                state,
                ConnInput::Received(Incoming::Control(WorkerMsg::Announce(me))),
            );
            let event = report_on(announced, ConnInput::Bound(proxy_port));
            &&& announced.stage is Binding
            &&& event is Some
            &&& after_event(workers, event->0) == workers.insert(
                me.node_id@,
                ConnectedWorker {
                    conn_id: state.conn_id,
                    announce: me,
                    proxy_port,
                    draining: false,
                },
            )
        }),
{
}

/// When a worker tells that it makes room for a program, its entry in the table
/// drains.
pub proof fn launch_notice_drains_worker(
    state: ConnState,
    msg: WorkerMsg,
    program: Seq<char>,
    workers: Workers,
)
    requires
        state.stage is Serving,
        tells_of_launch(msg, program),
        workers.contains_key(state.node_id@),
        workers[state.node_id@].conn_id == state.conn_id,
    ensures
        ({
            let event = report_on(state, ConnInput::Received(Incoming::Control(msg)));
            &&& event is Some
            &&& after_event(workers, event->0).contains_key(state.node_id@)
            &&& after_event(workers, event->0)[state.node_id@].draining
        }),
{
}

/// What the far end of the tunnel reads from TCP is delivered, unchanged, to the
/// stream of the same ID, where that is open.
pub proof fn chunk_is_delivered<S>(
    stream_id: u32,
    data: Vec<u8>,
    sent: TcpAction,
    state: ConnState,
    streams: Map<u32, S>,
    action: ConnAction,
)
    requires
        data@.len() > 0,
        tcp_reaction(stream_id, TcpEvent::Read(data), sent),
        state.stage is Serving,
        streams.contains_key(stream_id),
        answers(
            state,
            streams,
            ConnInput::Received(Incoming::Binary(sent->Send_0)),
            action,
        ),
    ensures
        action is Deliver,
        action->Deliver_0 == stream_id,
        action->Deliver_1@ == data@,
{
    decode_inverts_encode(stream_id, data@);
}

/// The binary messages among `inputs`, in order.
pub open spec fn frames_in(inputs: Seq<ConnInput>) -> Seq<Seq<u8>>
    decreases inputs.len(),
{
    if inputs.len() == 0 {
        Seq::empty()
    } else {
        match inputs.last() {
            ConnInput::Received(Incoming::Binary(frame)) => frames_in(inputs.drop_last()).push(
                frame@,
            ),
            _ => frames_in(inputs.drop_last()),
        }
    }
}

/// The bytes that `actions` deliver to stream `stream_id`, in order.
pub open spec fn delivered(actions: Seq<ConnAction>, stream_id: u32) -> Seq<u8>
    decreases actions.len(),
{
    if actions.len() == 0 {
        Seq::empty()
    } else {
        let before = delivered(actions.drop_last(), stream_id);
        match actions.last() {
            ConnAction::Deliver(id, payload) => if id == stream_id {
                before + payload@
            } else {
                before
            },
            _ => before,
        }
    }
}

/// Whether `input` closes stream `stream_id`, from either side.
pub open spec fn closes(input: ConnInput, stream_id: u32) -> bool {
    match input {
        ConnInput::Received(Incoming::Control(WorkerMsg::TunnelClose { stream_id: id })) => id
            == stream_id,
        ConnInput::StreamClosed(id) => id == stream_id,
        _ => false,
    }
}

/// `inputs` are what happened to a connection whose worker has joined, `actions` are
/// what was done about each of them, and `streams` are the open streams before each of
/// them and after the last. Between two inputs the proxy may open more streams.
pub open spec fn serving_run<S>(
    start: ConnState,
    inputs: Seq<ConnInput>,
    streams: Seq<Map<u32, S>>,
    actions: Seq<ConnAction>,
) -> bool {
    &&& start.stage is Serving
    &&& all_can_happen(start, inputs)
    &&& actions.len() == inputs.len()
    &&& streams.len() == inputs.len() + 1
    &&& forall|i: int|
        0 <= i < inputs.len() ==> answers(
            state_after(start, inputs.take(i)),
            streams[i],
            #[trigger] inputs[i],
            actions[i],
        )
    &&& forall|i: int|
        0 <= i < inputs.len() ==> streams_on(
            ConnStage::Serving,
            streams[i],
            #[trigger] inputs[i],
        ).dom().subset_of(streams[i + 1].dom())
}

/// While a stream is open, it is delivered exactly the bytes that the binary messages
/// bring for it, in order, whatever else happens on the connection.
pub proof fn stream_is_delivered_whole<S>(
    start: ConnState,
    inputs: Seq<ConnInput>,
    streams: Seq<Map<u32, S>>,
    actions: Seq<ConnAction>,
    stream_id: u32,
)
    requires
        serving_run(start, inputs, streams, actions),
        streams[0].contains_key(stream_id),
        forall|i: int| 0 <= i < inputs.len() ==> !closes(#[trigger] inputs[i], stream_id),
    ensures
        delivered(actions, stream_id) == arrived(frames_in(inputs), stream_id),
        streams.last().contains_key(stream_id),
    decreases inputs.len(),
{
    if inputs.len() > 0 {
        let n = inputs.len() - 1;
        let front = inputs.drop_last();
        let done = actions.drop_last();
        let before = streams.drop_last();
        assert(serving_run(start, front, before, done)) by {
            assert forall|i: int| 0 <= i < front.len() implies answers(
                state_after(start, front.take(i)),
                before[i],
                #[trigger] front[i],
                done[i],
            ) by {
                assert(front[i] == inputs[i] && front.take(i) == inputs.take(i));
            }
            assert forall|i: int| 0 <= i < front.len() implies streams_on(
                ConnStage::Serving,
                before[i],
                #[trigger] front[i],
            ).dom().subset_of(before[i + 1].dom()) by {
                assert(front[i] == inputs[i]);
            }
        }
        assert forall|i: int| 0 <= i < front.len() implies !closes(
            #[trigger] front[i],
            stream_id,
        ) by {
            assert(front[i] == inputs[i]);
        }
        stream_is_delivered_whole(start, front, before, done, stream_id);
        assert(before.last() == streams[n]);
        assert(inputs.take(n) == front);
        serving_until_over(start, front);
        assert(!closes(inputs[n], stream_id));
        assert(streams_on(ConnStage::Serving, streams[n], inputs[n]).dom().contains(stream_id));
        if let ConnInput::Received(Incoming::Binary(frame)) = inputs[n] {
            assert(frames_in(inputs).drop_last() == frames_in(front));
        }
    }
}

/// A connection whose worker has joined serves until it is over.
proof fn serving_until_over(start: ConnState, inputs: Seq<ConnInput>)
    requires
        start.stage is Serving,
        all_can_happen(start, inputs),
    ensures
        state_after(start, inputs).stage is Serving || state_after(start, inputs).stage is Over,
    decreases inputs.len(),
{
    if inputs.len() > 0 {
        serving_until_over(start, inputs.drop_last());
    }
}

/// The tunnel end to end: what is written to TCP at this end is what was read from TCP
/// at the far end, as far as it has come, and all of it once all of it has come. The
/// WebSocket has brought the first `came` frames of the reader, mixed with anything
/// else, and the writer has received a first part of what was delivered to it.
pub proof fn bytes_survive_the_tunnel<S>(
    stream_id: u32,
    tcp_events: Seq<TcpEvent>,
    tcp_actions: Seq<TcpAction>,
    came: int,
    start: ConnState,
    inputs: Seq<ConnInput>,
    streams: Seq<Map<u32, S>>,
    actions: Seq<ConnAction>,
    ws_events: Seq<WsEvent>,
    ws_actions: Seq<WsAction>,
)
    requires
        tcp_run(stream_id, tcp_events, tcp_actions),
        0 <= came <= frames_sent(tcp_actions).len(),
        on_stream(frames_in(inputs), stream_id) == frames_sent(tcp_actions).take(came),
        serving_run(start, inputs, streams, actions),
        streams[0].contains_key(stream_id),
        forall|i: int| 0 <= i < inputs.len() ==> !closes(#[trigger] inputs[i], stream_id),
        ws_run(ws_events, ws_actions),
        bytes_received(ws_events).is_prefix_of(delivered(actions, stream_id)),
    ensures
        bytes_written(ws_actions).is_prefix_of(bytes_read(tcp_events)),
        came == frames_sent(tcp_actions).len() && bytes_received(ws_events) == delivered(
            actions,
            stream_id,
        ) ==> bytes_written(ws_actions) == bytes_read(tcp_events),
{
    let sent = frames_sent(tcp_actions);
    reader_loses_nothing(stream_id, tcp_events, tcp_actions);
    stream_is_delivered_whole(start, inputs, streams, actions, stream_id);
    arrived_on_stream(frames_in(inputs), stream_id);
    arrived_grows(sent, stream_id, came);
    writer_loses_nothing(ws_events, ws_actions);
    assert(sent.take(sent.len() as int) == sent);
}

// ---------------------------------------------------------------------------
// Proxy port
// ---------------------------------------------------------------------------

/// How far the proxy has come with a TCP connection.
#[derive(Debug, Clone, Copy, PartialEq, Eq, Structural)]
pub enum ProxyStage {
    /// It waits for one.
    Accepting,
    /// The worker is being told of the stream.
    Opening,
    /// The stream is being attached to the tunnel.
    Attaching,
    /// It has stopped.
    Stopped,
}

/// What can happen to the proxy.
pub enum ProxyInput {
    /// llama-server connected.
    Accepted,
    /// Accepting failed.
    AcceptFailed,
    /// The message that opens the stream is queued for the WebSocket.
    OpenQueued,
    /// The WebSocket is gone.
    OpenRefused,
    /// The stream is attached.
    Attached,
}

/// What the proxy does next.
pub enum ProxyAction {
    /// Accept a connection.
    Accept,
    /// Queue a control message for the worker.
    Send(CoordinatorMsg),
    /// Forward between the connection and the tunnel under this stream ID, and
    /// enter it among the open streams.
    Attach(u32),
    /// Stop accepting.
    Stop,
}

/// The proxy's stage and the ID of the next stream.
pub struct ProxyState {
    pub stage: ProxyStage,
    pub next_id: u32,
}

/// Whether `input` can happen, and there is an ID for a stream that it brings.
pub open spec fn proxy_can(state: ProxyState, input: ProxyInput) -> bool {
    match state.stage {
        ProxyStage::Accepting => (input is Accepted && state.next_id < u32::MAX)
            || input is AcceptFailed,
        ProxyStage::Opening => input is OpenQueued || input is OpenRefused,
        ProxyStage::Attaching => input is Attached,
        ProxyStage::Stopped => false,
    }
}

/// The proxy's state after `input`.
pub open spec fn proxy_next(state: ProxyState, input: ProxyInput) -> ProxyState {
    match input {
        ProxyInput::Accepted => ProxyState {
            stage: ProxyStage::Opening,
            next_id: (state.next_id + 1) as u32,
        },
        ProxyInput::OpenQueued => ProxyState { stage: ProxyStage::Attaching, ..state },
        ProxyInput::Attached => ProxyState { stage: ProxyStage::Accepting, ..state },
        ProxyInput::AcceptFailed | ProxyInput::OpenRefused => ProxyState {
            stage: ProxyStage::Stopped,
            ..state
        },
    }
}

/// The stream that `input` makes known to the worker.
pub open spec fn announced_on(state: ProxyState, input: ProxyInput) -> Option<u32> {
    if input is Accepted {
        Some(state.next_id)
    } else {
        None
    }
}

/// The stream that is attached after `input`.
pub open spec fn attached_on(state: ProxyState, input: ProxyInput) -> Option<u32> {
    if input is OpenQueued {
        Some((state.next_id - 1) as u32)
    } else {
        None
    }
}

/// The proxy of one connection. Its stream IDs count up from one.
pub struct Proxy {
    state: ProxyState,
}

impl View for Proxy {
    type V = ProxyState;

    closed spec fn view(&self) -> ProxyState {
        self.state
    }
}

impl Proxy {
    /// While a stream is on its way, it has an ID.
    pub open spec fn wf(&self) -> bool {
        self@.next_id >= 1 && (self@.stage is Opening || self@.stage is Attaching ==> self@.next_id
            >= 2)
    }

    /// A proxy that has not accepted anything.
    pub fn new() -> (res: Self)
        ensures
            res.wf(),
            res@ == (ProxyState { stage: ProxyStage::Accepting, next_id: 1 }),
    {
        Proxy { state: ProxyState { stage: ProxyStage::Accepting, next_id: 1 } }
    }

    /// Whether `input` can happen now, and there is an ID for the stream it brings.
    pub fn expects(&self, input: &ProxyInput) -> (res: bool)
        ensures
            res == proxy_can(self@, *input),
    {
        match self.state.stage {
            ProxyStage::Accepting => match input {
                ProxyInput::Accepted => self.state.next_id < u32::MAX,
                ProxyInput::AcceptFailed => true,
                _ => false,
            },
            ProxyStage::Opening => matches!(
                input,
                ProxyInput::OpenQueued | ProxyInput::OpenRefused
            ),
            ProxyStage::Attaching => matches!(input, ProxyInput::Attached),
            ProxyStage::Stopped => false,
        }
    }

    /// One step of the proxy. The worker is told of a stream before the stream is
    /// attached, so that it knows the stream when the first frame arrives.
    pub fn proxy_accept_task(&mut self, input: ProxyInput) -> (action: ProxyAction)
        requires
            old(self).wf(),
            proxy_can(old(self)@, input),
        ensures
            final(self).wf(),
            final(self)@ == proxy_next(old(self)@, input),
            match input {
                ProxyInput::Accepted => action == ProxyAction::Send(
                    CoordinatorMsg::TunnelOpen { stream_id: announced_on(old(self)@, input)->0 },
                ),
                ProxyInput::OpenQueued => action == ProxyAction::Attach(
                    attached_on(old(self)@, input)->0,
                ),
                ProxyInput::Attached => action is Accept,
                ProxyInput::AcceptFailed | ProxyInput::OpenRefused => action is Stop,
            },
    {
        match input {
            ProxyInput::Accepted => {
                let stream_id: u32 = self.state.next_id;
                self.state.next_id = stream_id + 1;
                self.state.stage = ProxyStage::Opening;
                ProxyAction::Send(CoordinatorMsg::TunnelOpen { stream_id })
            },
            ProxyInput::OpenQueued => {
                self.state.stage = ProxyStage::Attaching;
                ProxyAction::Attach(self.state.next_id - 1)
            },
            ProxyInput::Attached => {
                self.state.stage = ProxyStage::Accepting;
                ProxyAction::Accept
            },
            ProxyInput::AcceptFailed => {
                self.state.stage = ProxyStage::Stopped;
                ProxyAction::Stop
            },
            ProxyInput::OpenRefused => {
                self.state.stage = ProxyStage::Stopped;
                ProxyAction::Stop
            },
        }
    }
}

/// A proxy's history: its state, the streams that the worker was told of, and the
/// streams that were attached, each in order.
pub struct ProxyHistory {
    pub state: ProxyState,
    pub announced: Seq<u32>,
    pub attached: Seq<u32>,
}

/// The history after `inputs`.
pub open spec fn proxy_history(inputs: Seq<ProxyInput>) -> ProxyHistory
    decreases inputs.len(),
{
    if inputs.len() == 0 {
        ProxyHistory {
            state: ProxyState { stage: ProxyStage::Accepting, next_id: 1 },
            announced: Seq::empty(),
            attached: Seq::empty(),
        }
    } else {
        let before = proxy_history(inputs.drop_last());
        let input = inputs.last();
        ProxyHistory {
            state: proxy_next(before.state, input),
            announced: match announced_on(before.state, input) {
                Some(stream_id) => before.announced.push(stream_id),
                None => before.announced,
            },
            attached: match attached_on(before.state, input) {
                Some(stream_id) => before.attached.push(stream_id),
                None => before.attached,
            },
        }
    }
}

/// Whether all of `inputs`, in order, can happen to a proxy.
pub open spec fn proxy_possible(inputs: Seq<ProxyInput>) -> bool
    decreases inputs.len(),
{
    inputs.len() == 0 || (proxy_possible(inputs.drop_last()) && proxy_can(
        proxy_history(inputs.drop_last()).state,
        inputs.last(),
    ))
}

/// The streams of a proxy are numbered from one, without a gap or a repetition, and
/// none is attached that the worker was not told of before.
pub proof fn streams_are_announced_first(inputs: Seq<ProxyInput>)
    requires
        proxy_possible(inputs),
    ensures
        ({
            let h = proxy_history(inputs);
            &&& h.announced.len() == h.state.next_id - 1
            &&& forall|i: int| 0 <= i < h.announced.len() ==> #[trigger] h.announced[i] == i + 1
            &&& h.attached.len() <= h.announced.len()
            &&& h.attached == h.announced.take(h.attached.len() as int)
            &&& h.state.stage is Opening ==> h.attached.len() + 1 == h.announced.len()
            &&& h.state.stage is Accepting || h.state.stage is Attaching ==> h.attached.len()
                == h.announced.len()
        }),
    decreases inputs.len(),
{
    if inputs.len() > 0 {
        streams_are_announced_first(inputs.drop_last());
        let after = proxy_history(inputs);
        assert(after.attached =~= after.announced.take(after.attached.len() as int));
    }
}

} // verus!
