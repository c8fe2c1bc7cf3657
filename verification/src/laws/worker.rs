//! What a worker tells of itself, when it makes room, and how it lives.
use crate::ffi::gpu_indices;
use crate::ffi::DeviceInfo;
use crate::laws::devices::memory_from;
use crate::laws::devices::memory_is_the_sum;
use crate::laws::devices::none_selected;
use crate::laws::text::blank;
use crate::laws::text::cut_from;
use crate::laws::text::cut_is_unique;
use crate::laws::text::decimal_is_numeral;
use crate::laws::text::is_digits;
use crate::laws::text::is_numeral;
use crate::laws::text::padding_is_cut_off;
use crate::laws::text::trimmed_is_cut_from;
use crate::protocol::GpuType;
use crate::protocol::Incoming;
use crate::protocol::WorkerAnnounce;
use crate::protocol::WorkerMsg;
use crate::text::decimal;
use crate::text::trimmed;
use crate::worker::all_clear;
use crate::worker::announcement;
use crate::worker::any_trigger_running;
use crate::worker::endpoint_on;
use crate::worker::first_running;
use crate::worker::get_hostname;
use crate::worker::identify;
use crate::worker::is_process_running;
use crate::worker::launch_notice;
use crate::worker::parse_gpu;
use crate::worker::plan_offer;
use crate::worker::running;
use crate::worker::runs;
use crate::worker::wait_for_preempt_clear;
use crate::worker::watch_triggers;
use crate::worker::Args;
use crate::worker::Backoff;
use crate::worker::Clearance;
use crate::worker::Identity;
use crate::worker::NothingToServe;
use crate::worker::Offer;
use crate::worker::ProcEntry;
use crate::worker::RunAction;
use crate::worker::RunInput;
use crate::worker::Session;
use crate::worker::SessionAction;
use crate::worker::SessionError;
use crate::worker::SessionInput;
use crate::worker::UnknownGpu;
use crate::worker::Watch;
use crate::worker::Worker;
use crate::worker::WATCH_SECS;
use vstd::prelude::*;

verus! {

// ---------------------------------------------------------------------------
// Identity
// ---------------------------------------------------------------------------

/// The name of a kind of accelerator.
pub open spec fn kind_name(gpu: GpuType) -> Seq<char> {
    match gpu {
        GpuType::Cuda => "cuda"@,
        GpuType::Rocm => "rocm"@,
        GpuType::Cpu => "cpu"@,
    }
}

/// Each kind has its own lowercase name.
pub proof fn kinds_are_named(gpu: &GpuType, name: String)
    requires
        call_ensures(GpuType::to_string, (gpu,), name),
    ensures
        name@ == kind_name(*gpu),
{
}

/// A name is read as the kind that has it, and any other text is refused.
pub proof fn kinds_are_read_by_their_names(s: &str, res: Result<GpuType, UnknownGpu>)
    requires
        call_ensures(parse_gpu, (s,), res),
    ensures
        res matches Ok(gpu) ==> s@ == kind_name(gpu),
        res matches Err(unknown) ==> unknown.given@ == s@,
        res is Err <==> s@ != "cuda"@ && s@ != "rocm"@ && s@ != "cpu"@,
{
    if res is Err {
        assert(s@ != GpuType::Cuda.name());
        assert(s@ != GpuType::Rocm.name());
        assert(s@ != GpuType::Cpu.name());
    }
}

/// What is said of a kind that is not known.
pub proof fn unknown_kind_is_said(error: &UnknownGpu, res: String)
    requires
        call_ensures(UnknownGpu::message, (error,), res),
    ensures
        res@ == "unknown GPU type: "@ + error.given@ + " (expected cuda, rocm, or cpu)"@,
{
}

/// The name of the machine is what its file holds, without the white space around it; a
/// machine whose file cannot be read has the name `unknown`.
pub proof fn hostname_is_what_the_file_holds(contents: Option<String>, res: String)
    requires
        call_ensures(get_hostname, (contents,), res),
    ensures
        contents matches Some(text) ==> cut_from(res@, text@),
        contents is None ==> res@ == "unknown"@,
{
    if let Some(text) = contents {
        trimmed_is_cut_from(text@);
    } else {
        unknown_is_cut();
    }
}

/// There is no white space around `unknown`.
proof fn unknown_is_cut()
    ensures
        trimmed("unknown"@) == "unknown"@,
{
    reveal_strlit("unknown");
    let s = "unknown"@;
    assert(s.len() == 7 && s[0] == 'u' && s[6] == 'n');
}

/// A worker has the node ID that it was told, or else the name of its machine, and the
/// kind that it was told; it is refused exactly if there is no such kind.
pub proof fn worker_is_who_it_was_told(
    gpu: &str,
    node_id: Option<String>,
    hostname_file: Option<String>,
    hostname: String,
    res: Result<Identity, UnknownGpu>,
)
    requires
        call_ensures(identify, (gpu, node_id, hostname_file), res),
        call_ensures(get_hostname, (hostname_file,), hostname),
    ensures
        res is Err <==> gpu@ != "cuda"@ && gpu@ != "rocm"@ && gpu@ != "cpu"@,
        res matches Err(unknown) ==> unknown.given@ == gpu@,
        res matches Ok(me) ==> gpu@ == kind_name(me.gpu),
        res matches Ok(me) ==> me.node_id@ == match node_id {
            Some(asked) => asked@,
            None => hostname@,
        },
{
    if res is Err {
        assert(gpu@ != GpuType::Cuda.name());
        assert(gpu@ != GpuType::Rocm.name());
        assert(gpu@ != GpuType::Cpu.name());
    }
}

// ---------------------------------------------------------------------------
// Preemption
// ---------------------------------------------------------------------------

/// `entry` is a process, by its name of ASCII digits, and what it tells of its program
/// is `name` with nothing but white space around it.
pub open spec fn shows(entry: ProcEntry, name: Seq<char>) -> bool {
    &&& entry.name matches Some(pid) && is_digits(pid@)
    &&& entry.comm matches Some(comm) && cut_from(name, comm@)
}

/// What an entry runs is what it shows.
proof fn runs_is_shows(entry: ProcEntry, name: Seq<char>)
    ensures
        runs(entry, name) == shows(entry, name),
{
    if let Some(comm) = entry.comm {
        trimmed_is_cut_from(comm@);
        if cut_from(name, comm@) {
            cut_is_unique(comm@, name, trimmed(comm@));
        }
    }
}

/// One of `processes` shows the program `name`.
pub open spec fn any_shows(processes: Seq<ProcEntry>, name: Seq<char>) -> bool {
    exists|i: int| 0 <= i < processes.len() && shows(#[trigger] processes[i], name)
}

/// What runs among processes is what one of them shows.
pub proof fn running_is_shown(processes: Seq<ProcEntry>, name: Seq<char>)
    ensures
        running(processes, name) == any_shows(processes, name),
{
    assert forall|i: int| 0 <= i < processes.len() implies runs(#[trigger] processes[i], name)
        == shows(processes[i], name) by {
        runs_is_shows(processes[i], name);
    }
    if running(processes, name) {
        let i = choose|i: int| 0 <= i < processes.len() && runs(#[trigger] processes[i], name);
        assert(shows(processes[i], name));
    }
    if any_shows(processes, name) {
        let i = choose|i: int| 0 <= i < processes.len() && shows(#[trigger] processes[i], name);
        assert(runs(processes[i], name));
    }
}

/// A program is running exactly if some process shows it: whatever its position and the
/// length of its process ID.
pub proof fn program_runs_if_a_process_shows_it(
    processes: &Vec<ProcEntry>,
    name: &str,
    res: bool,
)
    requires
        call_ensures(is_process_running, (processes, name), res),
    ensures
        res == any_shows(processes@, name@),
{
    running_is_shown(processes@, name@);
}

/// A process with any process ID, whose program is followed by a newline, is found by
/// the name of the program.
pub proof fn process_is_found_by_its_program(
    processes: &Vec<ProcEntry>,
    name: &str,
    res: bool,
    i: int,
    pid: String,
    comm: String,
)
    requires
        call_ensures(is_process_running, (processes, name), res),
        0 <= i < processes@.len(),
        processes@[i].name == Some(pid),
        pid@.len() > 0,
        forall|k: int| 0 <= k < pid@.len() ==> 48 <= (#[trigger] pid@[k]) as int <= 57,
        processes@[i].comm == Some(comm),
        comm@ == name@.push('\n'),
        name@.len() > 0 ==> !blank(name@.first()) && !blank(name@.last()),
    ensures
        res,
{
    program_runs_if_a_process_shows_it(processes, name, res);
    padding_is_cut_off(Seq::empty(), name@, seq!['\n']);
    assert(Seq::<char>::empty() + name@ + seq!['\n'] =~= comm@);
    assert(shows(processes@[i], name@));
}

/// `name` is the first of `triggers` that a process shows.
pub open spec fn first_shown(
    triggers: Seq<String>,
    processes: Seq<ProcEntry>,
    name: Seq<char>,
    i: int,
) -> bool {
    &&& 0 <= i < triggers.len()
    &&& triggers[i]@ == name
    &&& any_shows(processes, name)
    &&& forall|j: int| 0 <= j < i ==> !any_shows(processes, (#[trigger] triggers[j])@)
}

/// No process shows any of `triggers`.
pub open spec fn none_shown(triggers: Seq<String>, processes: Seq<ProcEntry>) -> bool {
    forall|i: int| 0 <= i < triggers.len() ==> !any_shows(processes, (#[trigger] triggers[i])@)
}

/// What is clear and what runs first, by what the processes show.
proof fn triggers_by_what_is_shown(triggers: Seq<String>, processes: Seq<ProcEntry>)
    ensures
        all_clear(triggers, processes) == none_shown(triggers, processes),
        forall|name: String| #[trigger]
            first_running(triggers, processes, name) ==> exists|i: int| #[trigger]
                first_shown(triggers, processes, name@, i),
{
    assert forall|i: int| 0 <= i < triggers.len() implies running(
        processes,
        (#[trigger] triggers[i])@,
    ) == any_shows(processes, triggers[i]@) by {
        running_is_shown(processes, triggers[i]@);
    }
    assert forall|name: String| #[trigger]
        first_running(triggers, processes, name) implies exists|i: int| #[trigger]
        first_shown(triggers, processes, name@, i) by {
        let i = choose|i: int|
            {
                &&& 0 <= i < triggers.len()
                &&& name == #[trigger] triggers[i]
                &&& running(processes, triggers[i]@)
                &&& forall|j: int| 0 <= j < i ==> !running(processes, (#[trigger] triggers[j])@)
            };
        assert(first_shown(triggers, processes, name@, i));
    }
    if all_clear(triggers, processes) {
        assert forall|i: int| 0 <= i < triggers.len() implies !any_shows(
            processes,
            (#[trigger] triggers[i])@,
        ) by {
            assert(!running(processes, triggers[i]@));
        }
    }
    if none_shown(triggers, processes) {
        assert forall|i: int| 0 <= i < triggers.len() implies !running(
            processes,
            (#[trigger] triggers[i])@,
        ) by {
            assert(!any_shows(processes, triggers[i]@));
        }
    }
}

/// The first trigger that a process shows is found, and nothing is found exactly if
/// none is shown.
pub proof fn first_trigger_is_found(
    triggers: &Vec<String>,
    processes: &Vec<ProcEntry>,
    res: Option<String>,
)
    requires
        call_ensures(any_trigger_running, (triggers, processes), res),
    ensures
        res matches Some(name) ==> exists|i: int| #[trigger]
            first_shown(triggers@, processes@, name@, i),
        res is None <==> none_shown(triggers@, processes@),
{
    triggers_by_what_is_shown(triggers@, processes@);
}

/// A worker does not start while a process shows a trigger: it looks again after five
/// seconds. It starts as soon as none does.
pub proof fn start_waits_for_triggers(
    triggers: &Vec<String>,
    processes: &Vec<ProcEntry>,
    res: Clearance,
)
    requires
        call_ensures(wait_for_preempt_clear, (triggers, processes), res),
    ensures
        res is Clear <==> none_shown(triggers@, processes@),
        res matches Clearance::Wait(name, secs) ==> secs == 5 && exists|i: int| #[trigger]
            first_shown(triggers@, processes@, name@, i),
{
    triggers_by_what_is_shown(triggers@, processes@);
}

/// A session is preempted as soon as a look shows a trigger; until then there is a look
/// every two seconds.
pub proof fn watcher_finds_triggers(
    triggers: &Vec<String>,
    processes: &Vec<ProcEntry>,
    res: Watch,
)
    requires
        call_ensures(watch_triggers, (triggers, processes), res),
    ensures
        WATCH_SECS == 2,
        res is Again <==> none_shown(triggers@, processes@),
        res matches Watch::Again(secs) ==> secs == 2,
        res matches Watch::Found(name) ==> exists|i: int| #[trigger]
            first_shown(triggers@, processes@, name@, i),
{
    triggers_by_what_is_shown(triggers@, processes@);
}

// ---------------------------------------------------------------------------
// Offer
// ---------------------------------------------------------------------------

/// `s` is `host`, a colon, and the digits that read as `port`.
pub open spec fn is_address(s: Seq<char>, host: Seq<char>, port: u16) -> bool {
    &&& s.len() > host.len() + 1
    &&& s.take(host.len() as int) == host
    &&& s[host.len() as int] == ':'
    &&& is_numeral(s.skip(host.len() as int + 1), port as int)
}

/// The endpoint on a host and port is its address.
proof fn endpoint_is_address(host: Seq<char>, port: u16)
    ensures
        is_address(endpoint_on(host, port), host, port),
{
    reveal_strlit(":");
    decimal_is_numeral(port as nat);
    let s = endpoint_on(host, port);
    assert(s.take(host.len() as int) =~= host);
    assert(s.skip(host.len() as int + 1) =~= decimal(port as nat));
}

/// A worker offers all of its GPUs with all of their memory, on the address that it was
/// told. It has nothing to offer exactly if none of its devices is a GPU.
pub proof fn offer_is_all_gpus(
    rpc_host: &str,
    rpc_port: u16,
    devices: &Vec<DeviceInfo>,
    indices: Vec<usize>,
    res: Result<Offer, NothingToServe>,
)
    requires
        call_ensures(plan_offer, (rpc_host, rpc_port, devices), res),
        call_ensures(gpu_indices, (devices,), indices),
    ensures
        res is Err <==> forall|i: int|
            0 <= i < devices@.len() ==> (#[trigger] devices@[i]).dev_type != 1,
        res matches Ok(offer) ==> {
            &&& is_address(offer.endpoint@, rpc_host@, rpc_port)
            &&& offer.gpu_indices@ == indices@
            &&& offer.total_vram_mb == memory_from(devices@, 0)
        },
{
    none_selected(devices@);
    memory_is_the_sum(devices@);
    endpoint_is_address(rpc_host@, rpc_port);
}

/// What is said where there is nothing to offer.
pub proof fn nothing_to_serve_is_said(error: &NothingToServe, res: String)
    requires
        call_ensures(NothingToServe::message, (error,), res),
    ensures
        res@ == "no GPU devices found — nothing to serve over RPC"@,
{
}

/// A worker announces what it was told and has; it may be preempted exactly if there is
/// a trigger.
pub proof fn announcement_tells_all(
    node_id: &String,
    gpu: GpuType,
    vram_mb: u64,
    rpc_port: u16,
    triggers: &Vec<String>,
    res: WorkerAnnounce,
)
    requires
        call_ensures(announcement, (node_id, gpu, vram_mb, rpc_port, triggers), res),
    ensures
        res.node_id@ == node_id@,
        res.gpu == gpu,
        res.vram_mb == vram_mb,
        res.rpc_port == rpc_port,
        res.preemptible <==> triggers@.len() != 0,
{
}

/// `msg` tells the coordinator that the worker drains, since `program` was launched.
pub open spec fn says_launched(msg: WorkerMsg, program: Seq<char>) -> bool {
    msg matches WorkerMsg::Draining { reason } && reason@ == program + " launched"@
}

/// A worker that makes room says for which program.
pub proof fn notice_names_the_program(program: &str, msg: WorkerMsg)
    requires
        call_ensures(launch_notice, (program,), msg),
    ensures
        says_launched(msg, program@),
{
}

// ---------------------------------------------------------------------------
// Reconnecting
// ---------------------------------------------------------------------------

/// After the first session the wait is a second.
pub proof fn first_wait_is_a_second(
    fresh: Backoff,
    backoff: &mut Backoff,
    clean: bool,
    wait: u64,
)
    requires
        call_ensures(Backoff::new, (), fresh),
        *old(backoff) == fresh,
        call_ensures(Backoff::after_session, (backoff, clean), wait),
    ensures
        wait == 1,
{
}

/// Of two waits, one after the other, the second is a second if the session before it
/// ended well, and else twice as long as the first, but no longer than thirty seconds.
pub proof fn each_wait_follows_from_the_one_before(
    first: &mut Backoff,
    first_clean: bool,
    first_wait: u64,
    second: &mut Backoff,
    second_clean: bool,
    second_wait: u64,
)
    requires
        call_ensures(Backoff::after_session, (first, first_clean), first_wait),
        *old(second) == *final(first),
        call_ensures(Backoff::after_session, (second, second_clean), second_wait),
    ensures
        first_clean ==> first_wait == 1,
        second_wait == if second_clean {
            1int
        } else if first_wait <= 15 {
            2 * first_wait
        } else {
            30int
        },
{
}

// ---------------------------------------------------------------------------
// Session
// ---------------------------------------------------------------------------

/// What can come after a session has done `action`.
pub open spec fn may_follow(action: SessionAction, input: SessionInput) -> bool {
    match action {
        SessionAction::Announce(_) => input is AnnounceSent || input is AnnounceFailed
            || input is RenderFailed,
        SessionAction::Listen(_) | SessionAction::Wait | SessionAction::Pong(_) => input is Received
            || input is Preempted || input is NoWatcher,
        SessionAction::Quit(_, _) | SessionAction::End | SessionAction::Fail(_) => false,
    }
}

/// A session connects first, for the worker that it is for.
pub proof fn session_connects_first(
    me: WorkerAnnounce,
    session: Session,
    asked: SessionInput,
    expected: bool,
)
    requires
        call_ensures(Session::new, (me,), session),
        call_ensures(Session::expects, (&session, &asked), expected),
    ensures
        session.me() == me,
        expected == (asked is Connected || asked is ConnectFailed),
{
}

/// Whether what was read ends a connection.
pub open spec fn hangs_up<M>(incoming: Incoming<M>) -> bool {
    incoming is Close || incoming is Ended || incoming is Failed
}

/// A session announces its worker, listens, answers pings with what they hold, and
/// watches exactly if the worker may be preempted. When a program preempts it, it says
/// so, gives that two tenths of a second, and quits. It ends when the connection does.
pub proof fn session_does_what_is_due(
    session: &mut Session,
    input: SessionInput,
    action: SessionAction,
    asked: SessionInput,
    expected: bool,
)
    requires
        call_ensures(Session::expects, (&*old(session), &input), true),
        call_ensures(Session::run_session, (session, input), action),
        call_ensures(Session::expects, (&*final(session), &asked), expected),
    ensures
        final(session).me() == old(session).me(),
        expected == may_follow(action, asked),
        match input {
            SessionInput::Connected => action matches SessionAction::Announce(
                WorkerMsg::Announce(announced),
            ) && announced == old(session).me(),
            SessionInput::ConnectFailed => action matches SessionAction::Fail(SessionError::Connect),
            SessionInput::RenderFailed(reason) => action matches SessionAction::Fail(
                SessionError::Render(given),
            ) && given@ == reason@,
            SessionInput::AnnounceSent => action == SessionAction::Listen(
                old(session).me().preemptible,
            ),
            SessionInput::AnnounceFailed => action matches SessionAction::Fail(
                SessionError::Announce,
            ),
            SessionInput::Received(incoming) => if hangs_up(incoming) {
                action is End
            } else if incoming is Ping {
                action matches SessionAction::Pong(data) && data@ == incoming->Ping_0@
            } else {
                action is Wait
            },
            SessionInput::Preempted(program) => action matches SessionAction::Quit(msg, ms)
                && says_launched(msg, program@) && ms == 200,
            SessionInput::NoWatcher => action is Wait,
        },
{
}

/// What is said of a session that failed.
pub proof fn session_errors_are_said(error: &SessionError, res: String)
    requires
        call_ensures(SessionError::message, (error,), res),
    ensures
        match *error {
            SessionError::Connect => res@ == "failed to connect to coordinator"@,
            SessionError::Render(reason) => res@ == reason@,
            SessionError::Announce => res@ == "failed to send announce"@,
        },
{
}

// ---------------------------------------------------------------------------
// Life of a worker
// ---------------------------------------------------------------------------

/// A worker starts as who it was told to be. It looks for triggers first, where it has
/// any, and else for its devices.
pub proof fn worker_starts_by_looking(
    args: Args,
    hostname_file: Option<String>,
    hostname: String,
    res: Result<(Worker, RunAction), UnknownGpu>,
    asked: RunInput,
    expected: bool,
)
    requires
        call_ensures(Worker::start, (args, hostname_file), res),
        call_ensures(get_hostname, (hostname_file,), hostname),
        res matches Ok((worker, _)) ==> call_ensures(Worker::expects, (&worker, &asked), expected),
    ensures
        res is Err <==> args.gpu@ != "cuda"@ && args.gpu@ != "rocm"@ && args.gpu@ != "cpu"@,
        res matches Err(unknown) ==> unknown.given@ == args.gpu@,
        res matches Ok((worker, action)) ==> {
            &&& worker.wf()
            &&& worker@.args == args
            &&& args.gpu@ == kind_name(worker@.me.gpu)
            &&& worker@.me.node_id@ == match args.node_id {
                Some(asked) => asked@,
                None => hostname@,
            }
            &&& args.preempt_triggers@.len() > 0 ==> action is Look
            &&& args.preempt_triggers@.len() == 0 ==> action is Survey
            &&& expected == may_come(action, asked)
        },
{
    if let RunInput::Surveyed(devices) = asked {
        memory_is_the_sum(devices@);
    }
    if res is Err {
        assert(args.gpu@ != GpuType::Cuda.name());
        assert(args.gpu@ != GpuType::Rocm.name());
        assert(args.gpu@ != GpuType::Cpu.name());
    }
}

/// A worker tells who it is.
pub proof fn worker_tells_who_it_is(worker: &Worker, me: &Identity)
    requires
        call_ensures(Worker::identity, (worker,), me),
    ensures
        *me == worker@.me,
{
}

/// What can come after a worker has done `action`. The memory of its GPUs must fit into
/// 64 bits.
pub open spec fn may_come(action: RunAction, input: RunInput) -> bool {
    match action {
        RunAction::Look | RunAction::WaitAndLook(_, _) => input is Looked,
        RunAction::Survey => input matches RunInput::Surveyed(devices) && memory_from(devices@, 0)
            <= u64::MAX,
        RunAction::Serve(_, _) => input is Bound,
        RunAction::Connect(_, _) => input is SessionEnded,
        RunAction::Pause(_) => input is Paused,
        RunAction::Fail(_) => false,
    }
}

/// A worker waits while a process shows a trigger, then lists its devices, serves all
/// GPUs on the address that it was told and gives that a second, and then runs sessions
/// with pauses between them, in each of which it announces itself with the memory that
/// it serves. It gives up exactly if it has no GPU.
pub proof fn worker_does_what_is_due(
    worker: &mut Worker,
    input: RunInput,
    action: RunAction,
    asked: RunInput,
    expected: bool,
)
    requires
        old(worker).wf(),
        call_ensures(Worker::expects, (&*old(worker), &input), true),
        call_ensures(Worker::run, (worker, input), action),
        call_ensures(Worker::expects, (&*final(worker), &asked), expected),
    ensures
        final(worker).wf(),
        final(worker)@.args == old(worker)@.args,
        final(worker)@.me == old(worker)@.me,
        expected == may_come(action, asked),
        ({
            let args = old(worker)@.args;
            let me = old(worker)@.me;
            let triggers = args.preempt_triggers@;
            match input {
                RunInput::Looked(processes) => {
                    &&& action is Survey <==> none_shown(triggers, processes@)
                    &&& action is Survey || action is WaitAndLook
                    &&& action matches RunAction::WaitAndLook(name, secs) ==> secs == 5
                        && exists|i: int| #[trigger]
                        first_shown(triggers, processes@, name@, i)
                },
                RunInput::Surveyed(devices) => {
                    &&& action is Fail <==> forall|i: int|
                        0 <= i < devices@.len() ==> (#[trigger] devices@[i]).dev_type != 1
                    &&& action is Fail || action is Serve
                    &&& action matches RunAction::Serve(offer, secs) ==> {
                        &&& is_address(offer.endpoint@, args.rpc_host@, args.rpc_port)
                        &&& forall|indices: Vec<usize>| #[trigger]
                            call_ensures(gpu_indices, (&devices,), indices)
                                ==> offer.gpu_indices@ == indices@
                        &&& offer.total_vram_mb == memory_from(devices@, 0)
                        &&& final(worker)@.vram_mb == memory_from(devices@, 0)
                        &&& secs == 1
                    }
                },
                RunInput::Bound | RunInput::Paused => {
                    action matches RunAction::Connect(url, announced) && {
                        &&& url@ == args.coordinator@
                        &&& announced.node_id@ == me.node_id@
                        &&& announced.gpu == me.gpu
                        &&& announced.vram_mb == old(worker)@.vram_mb
                        &&& announced.rpc_port == args.rpc_port
                        &&& announced.preemptible <==> triggers.len() != 0
                    }
                },
                RunInput::SessionEnded(clean) => action matches RunAction::Pause(secs) && (clean
                    ==> secs == 1),
            }
        }),
        !(input is Surveyed) ==> final(worker)@.vram_mb == old(worker)@.vram_mb,
{
    if let RunInput::Looked(processes) = input {
        triggers_by_what_is_shown(old(worker)@.args.preempt_triggers@, processes@);
    }
    if let RunInput::Surveyed(devices) = input {
        none_selected(devices@);
        memory_is_the_sum(devices@);
        endpoint_is_address(old(worker)@.args.rpc_host@, old(worker)@.args.rpc_port);
    }
    if let RunInput::Surveyed(devices) = asked {
        memory_is_the_sum(devices@);
    }
}

/// Of two pauses of a worker, one after the other, the second is a second if the session
/// before it ended well, and else twice as long as the first, but no longer than thirty
/// seconds.
pub proof fn each_pause_follows_from_the_one_before(
    first: &mut Worker,
    first_clean: bool,
    first_pause: RunAction,
    between: &mut Worker,
    connect: RunAction,
    second: &mut Worker,
    second_clean: bool,
    second_pause: RunAction,
)
    requires
        call_ensures(Worker::run, (first, RunInput::SessionEnded(first_clean)), first_pause),
        *old(between) == *final(first),
        call_ensures(Worker::run, (between, RunInput::Paused), connect),
        *old(second) == *final(between),
        call_ensures(Worker::run, (second, RunInput::SessionEnded(second_clean)), second_pause),
    ensures
        first_pause is Pause,
        second_pause is Pause,
        second_pause->Pause_0 == if second_clean {
            1int
        } else if first_pause->Pause_0 <= 15 {
            2 * first_pause->Pause_0
        } else {
            30int
        },
{
}

/// The first pause of a worker is a second: nothing before its first session changes
/// that.
pub proof fn first_pause_is_a_second(
    args: Args,
    hostname_file: Option<String>,
    started: (Worker, RunAction),
    worker: &mut Worker,
    input: RunInput,
    action: RunAction,
    clean: bool,
)
    requires
        call_ensures(Worker::start, (args, hostname_file), Ok(started)),
        old(worker)@.backoff == started.0@.backoff,
        call_ensures(Worker::run, (worker, input), action),
    ensures
        input is SessionEnded ==> (action matches RunAction::Pause(secs) && secs == 1),
        !(input is SessionEnded) ==> final(worker)@.backoff == started.0@.backoff,
{
}

} // verus!
