//! One worker's connection, and the streams of its proxy port.
use crate::connection::ConnAction;
use crate::connection::ConnIds;
use crate::connection::ConnInput;
use crate::connection::Connection;
use crate::connection::Proxy;
use crate::connection::ProxyAction;
use crate::connection::ProxyInput;
use crate::connection::WS_QUEUE;
use crate::coord::CoordEvent;
use crate::laws::plan::endpoint_names_the_port;
use crate::laws::plan::is_endpoint;
use crate::laws::tunnel::big_endian;
use crate::laws::tunnel::carries;
use crate::laws::worker::hangs_up;
use crate::protocol::CoordinatorMsg;
use crate::protocol::Incoming;
use crate::protocol::WorkerAnnounce;
use crate::protocol::WorkerMsg;
use crate::tunnel::Streams;
use vstd::prelude::*;

verus! {

/// The first connection has the ID one, and each has the next ID after the one before,
/// up to the last that there is.
pub proof fn connections_are_numbered_in_a_row(
    fresh: ConnIds,
    first_ids: &mut ConnIds,
    first: Connection,
    ids: &mut ConnIds,
    one: Connection,
    next_ids: &mut ConnIds,
    next: Connection,
    has_next: bool,
)
    requires
        call_ensures(ConnIds::new, (), fresh),
        *old(first_ids) == fresh,
        call_ensures(Connection::new, (first_ids,), first),
        call_ensures(Connection::new, (ids,), one),
        call_ensures(ConnIds::has_next, (&*final(ids),), has_next),
        *old(next_ids) == *final(ids),
        has_next ==> call_ensures(Connection::new, (next_ids,), next),
    ensures
        first@.conn_id == 1,
        has_next <==> one@.conn_id < u64::MAX,
        has_next ==> next@.conn_id == one@.conn_id + 1,
{
}

/// IDs that are given out by themselves count up from one, too.
pub proof fn ids_count_up(
    fresh: ConnIds,
    first_ids: &mut ConnIds,
    first: u64,
    ids: &mut ConnIds,
    one: u64,
    next_ids: &mut ConnIds,
    next: u64,
)
    requires
        call_ensures(ConnIds::new, (), fresh),
        *old(first_ids) == fresh,
        call_ensures(ConnIds::next, (first_ids,), first),
        call_ensures(ConnIds::next, (ids,), one),
        *old(next_ids) == *final(ids),
        call_ensures(ConnIds::next, (next_ids,), next),
    ensures
        first == 1,
        next == one + 1,
{
}

/// Sixty-four messages may wait for the WebSocket of a connection.
pub proof fn websocket_queue_is_bounded()
    ensures
        WS_QUEUE == 64,
{
}

/// A connection tells the ID that it has.
pub proof fn connection_tells_its_id(connection: &Connection, res: u64)
    requires
        call_ensures(Connection::conn_id, (connection,), res),
    ensures
        res == connection@.conn_id,
{
}

/// What can come after a connection has been answered with `action`. The first wait is
/// for the announcement.
pub open spec fn may_follow(action: ConnAction, input: ConnInput, opening: bool) -> bool {
    match action {
        ConnAction::Drop | ConnAction::HangUp(_) => false,
        ConnAction::Bind(_) => input is Bound || input is BindFailed,
        _ => if opening {
            input is Received
        } else {
            input is Received || input is StreamClosed || input is NoStreams
        },
    }
}

/// A connection begins with the handshake.
pub proof fn connection_begins_with_the_handshake(
    ids: &mut ConnIds,
    connection: Connection,
    asked: ConnInput,
    expected: bool,
)
    requires
        call_ensures(Connection::new, (ids,), connection),
        call_ensures(Connection::expects, (&connection, &asked), expected),
    ensures
        connection.wf(),
        expected == (asked is Accepted || asked is HandshakeFailed),
{
}

/// The announcement in `input`, where there is one.
pub open spec fn announces(input: ConnInput) -> Option<WorkerAnnounce> {
    match input {
        ConnInput::Received(Incoming::Control(WorkerMsg::Announce(announce))) => Some(announce),
        _ => None,
    }
}

/// Until its worker has joined, a connection goes through the handshake, the
/// announcement and the binding of a local port, and is dropped without a word where one
/// of them fails: it is opened by nothing but an announcement.
pub proof fn connection_is_opened_by_an_announcement<S>(
    connection: &mut Connection,
    streams: &mut Streams<S>,
    input: ConnInput,
    action: ConnAction,
    serving: bool,
    asked: ConnInput,
    expected: bool,
)
    requires
        old(connection).wf(),
        call_ensures(Connection::expects, (&*old(connection), &input), true),
        call_ensures(Connection::expects, (&*old(connection), &ConnInput::NoStreams), serving),
        !serving,
        call_ensures(
            Connection::handle_connection::<S>,
            (connection, streams, input),
            action,
        ),
        call_ensures(Connection::expects, (&*final(connection), &asked), expected),
    ensures
        final(connection).wf(),
        final(connection)@.conn_id == old(connection)@.conn_id,
        final(streams)@ == old(streams)@,
        expected == may_follow(action, asked, input is Accepted),
        match input {
            ConnInput::Accepted => action is Wait,
            ConnInput::HandshakeFailed | ConnInput::BindFailed => action is Drop,
            ConnInput::Received(_) => match announces(input) {
                Some(announce) => action matches ConnAction::Bind(address) && is_endpoint(
                    address@,
                    0,
                ) && final(connection)@.announce == Some(announce)
                    && final(connection)@.node_id@ == announce.node_id@,
                None => action is Drop,
            },
            ConnInput::Bound(port) => action matches ConnAction::Welcome(
                CoordEvent::Joined { conn_id, node_id, announce, proxy_port },
                CoordinatorMsg::Ack { node_id: acked },
            ) && conn_id == old(connection)@.conn_id && node_id@ == old(connection)@.node_id@
                && Some(announce) == old(connection)@.announce && proxy_port == port && acked@
                == old(connection)@.node_id@,
            ConnInput::StreamClosed(_) | ConnInput::NoStreams => false,
        },
        announces(input) is None ==> final(connection)@.node_id == old(connection)@.node_id,
{
    endpoint_names_the_port(0);
}

/// A worker that announces itself joins as it announced itself, by its own connection
/// and with the port that was bound for it, and that is acknowledged to it.
pub proof fn announced_worker_is_welcomed<S>(
    opening: &mut Connection,
    binding: &mut Connection,
    first_streams: &mut Streams<S>,
    streams: &mut Streams<S>,
    announce: WorkerAnnounce,
    bind: ConnAction,
    port: u16,
    welcome: ConnAction,
)
    requires
        old(opening).wf(),
        call_ensures(Connection::expects, (&*old(opening), &ConnInput::NoStreams), false),
        call_ensures(
            Connection::handle_connection::<S>,
            (
                opening,
                first_streams,
                ConnInput::Received(Incoming::Control(WorkerMsg::Announce(announce))),
            ),
            bind,
        ),
        call_ensures(
            Connection::expects,
            (
                &*old(opening),
                &ConnInput::Received(Incoming::Control(WorkerMsg::Announce(announce))),
            ),
            true,
        ),
        *old(binding) == *final(opening),
        call_ensures(
            Connection::handle_connection::<S>,
            (binding, streams, ConnInput::Bound(port)),
            welcome,
        ),
    ensures
        bind is Bind,
        welcome matches ConnAction::Welcome(
            CoordEvent::Joined { conn_id, node_id, announce: told, proxy_port },
            CoordinatorMsg::Ack { node_id: acked },
        ) && conn_id == old(opening)@.conn_id && node_id@ == announce.node_id@ && told == announce
            && proxy_port == port && acked@ == announce.node_id@,
{
}

/// While its worker has joined, a connection reports what the worker says of itself,
/// delivers what binary messages carry to the streams that they name, answers pings with
/// what they hold, tells the worker of streams that closed at this end, and ignores the
/// rest. When it ends, it reports that the worker left. All that it reports is of its
/// own ID and node.
pub proof fn connection_serves_its_worker<S>(
    connection: &mut Connection,
    streams: &mut Streams<S>,
    input: ConnInput,
    action: ConnAction,
    asked: ConnInput,
    expected: bool,
)
    requires
        old(connection).wf(),
        call_ensures(Connection::expects, (&*old(connection), &ConnInput::NoStreams), true),
        call_ensures(Connection::expects, (&*old(connection), &input), true),
        call_ensures(
            Connection::handle_connection::<S>,
            (connection, streams, input),
            action,
        ),
        call_ensures(Connection::expects, (&*final(connection), &asked), expected),
    ensures
        final(connection).wf(),
        final(connection)@.conn_id == old(connection)@.conn_id,
        final(connection)@.node_id == old(connection)@.node_id,
        expected == may_follow(action, asked, false),
        ({
            let id = old(connection)@.conn_id;
            let node = old(connection)@.node_id@;
            match input {
                ConnInput::StreamClosed(closed) => action matches ConnAction::Send(
                    CoordinatorMsg::TunnelClose { stream_id },
                ) && stream_id == closed,
                ConnInput::Received(incoming) => match incoming {
                    Incoming::Control(WorkerMsg::Draining { .. }) => action
                        matches ConnAction::Report(CoordEvent::Draining { conn_id, node_id })
                        && conn_id == id && node_id@ == node,
                    Incoming::Control(WorkerMsg::Resuming) => action matches ConnAction::Report(
                        CoordEvent::Resuming { conn_id, node_id },
                    ) && conn_id == id && node_id@ == node,
                    Incoming::Ping(asked) => action matches ConnAction::Pong(data) && data@
                        == asked@,
                    Incoming::Binary(frame) => {
                        &&& action is Deliver || action is Wait
                        &&& action is Deliver <==> frame@.len() >= 4 && old(
                            streams,
                        )@.contains_key(big_endian(frame@) as u32)
                        &&& action matches ConnAction::Deliver(stream_id, payload) ==> carries(
                            frame@,
                            stream_id,
                            payload@,
                        )
                    },
                    _ => if hangs_up(incoming) {
                        action matches ConnAction::HangUp(CoordEvent::Left { conn_id, node_id })
                            && conn_id == id && node_id@ == node
                    } else {
                        action is Wait
                    },
                },
                _ => action is Wait,
            }
        }),
        match input {
            ConnInput::StreamClosed(closed) => final(streams)@ == old(streams)@.remove(closed),
            ConnInput::Received(Incoming::Control(WorkerMsg::TunnelClose { stream_id })) => {
                final(streams)@ == old(streams)@.remove(stream_id)
            },
            _ => final(streams)@ == old(streams)@,
        },
{
}

/// What can come after the proxy has done `action`, in the order in which it works.
pub open spec fn proxy_may_see(action: ProxyAction, input: ProxyInput, ids_left: bool) -> bool {
    match action {
        ProxyAction::Accept => input is AcceptFailed || (input is Accepted && ids_left),
        ProxyAction::Send(_) => input is OpenQueued || input is OpenRefused,
        ProxyAction::Attach(_) => input is Attached,
        ProxyAction::Stop => false,
    }
}

/// The proxy tells the worker of each stream, attaches exactly that stream once the
/// worker was told, and then accepts the next. It stops when accepting fails or the
/// WebSocket is gone.
pub proof fn proxy_announces_then_attaches(
    proxy: &mut Proxy,
    input: ProxyInput,
    action: ProxyAction,
    asked: ProxyInput,
    expected: bool,
)
    requires
        old(proxy).wf(),
        call_ensures(Proxy::expects, (&*old(proxy), &input), true),
        call_ensures(Proxy::proxy_accept_task, (proxy, input), action),
        call_ensures(Proxy::expects, (&*final(proxy), &asked), expected),
    ensures
        final(proxy).wf(),
        expected == proxy_may_see(action, asked, final(proxy)@.next_id < u32::MAX),
        match input {
            ProxyInput::Accepted => action matches ProxyAction::Send(
                CoordinatorMsg::TunnelOpen { stream_id },
            ) && stream_id == old(proxy)@.next_id && final(proxy)@.next_id == old(proxy)@.next_id
                + 1,
            ProxyInput::OpenQueued => action matches ProxyAction::Attach(stream_id) && stream_id
                == old(proxy)@.next_id - 1 && final(proxy)@.next_id == old(proxy)@.next_id,
            ProxyInput::Attached => action is Accept && final(proxy)@.next_id == old(
                proxy,
            )@.next_id,
            ProxyInput::AcceptFailed | ProxyInput::OpenRefused => action is Stop,
        },
{
}

/// The stream that is attached is the one that the worker was just told of.
pub proof fn told_stream_is_attached(
    accepting: &mut Proxy,
    send: ProxyAction,
    opening: &mut Proxy,
    attach: ProxyAction,
)
    requires
        call_ensures(Proxy::proxy_accept_task, (accepting, ProxyInput::Accepted), send),
        call_ensures(Proxy::expects, (&*old(accepting), &ProxyInput::Accepted), true),
        *old(opening) == *final(accepting),
        call_ensures(Proxy::proxy_accept_task, (opening, ProxyInput::OpenQueued), attach),
    ensures
        send matches ProxyAction::Send(CoordinatorMsg::TunnelOpen { stream_id }) && attach
            == ProxyAction::Attach(stream_id),
{
}

/// The streams of a proxy count up from one.
pub proof fn streams_count_up_from_one(proxy: Proxy, asked: ProxyInput, expected: bool)
    requires
        call_ensures(Proxy::new, (), proxy),
        call_ensures(Proxy::expects, (&proxy, &asked), expected),
    ensures
        proxy.wf(),
        proxy@.next_id == 1,
        expected == (asked is Accepted || asked is AcceptFailed),
{
}

} // verus!
