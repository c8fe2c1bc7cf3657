//! The stand-alone worker, whose RPC server is a child process: it is stopped when
//! another program needs the GPU, and the worker joins again when that program ends.
use crate::protocol::CoordinatorMsg;
use crate::protocol::GpuType;
use crate::protocol::Incoming;
use crate::protocol::WorkerAnnounce;
use crate::protocol::WorkerMsg;
use crate::text::decimal;
use crate::text::to_decimal;
use crate::text::views;
use crate::text::views_push;
use crate::worker::is_process_running;
use crate::worker::launch_notice;
use crate::worker::running;
use crate::worker::tells_of_launch;
use crate::worker::ProcEntry;
use crate::worker::CLEAR_SECS;
use crate::worker::RPC_BIND_SECS;
use vstd::prelude::*;

verus! {

/// Arguments of the program.
pub struct Args {
    /// WebSocket URL of the coordinator (e.g. ws://192.168.178.24:50050)
    pub coordinator: String,
    /// GPU type: cuda, rocm, or cpu
    pub gpu: String,
    /// Port for llama-rpc-server to listen on
    pub rpc_port: u16,
    /// Bind address for llama-rpc-server
    pub rpc_host: String,
    /// Path to llama-rpc-server binary
    pub rpc_bin: String,
    /// Process names that trigger GPU preemption
    pub preempt_triggers: Vec<String>,
    /// ROCm GFX version override (HSA_OVERRIDE_GFX_VERSION)
    pub rocm_version: Option<String>,
    /// GPU device visibility (CUDA_VISIBLE_DEVICES or ROCR_VISIBLE_DEVICES)
    pub visible_devices: Option<String>,
    /// Total GPU VRAM in MB
    pub vram_mb: u64,
    /// Node identifier (defaults to hostname)
    pub node_id: Option<String>,
    /// Extra arguments passed to llama-rpc-server
    pub extra_rpc_args: Vec<String>,
}

/// A program, its arguments, and what is set in its environment.
pub struct RpcCommand {
    pub program: String,
    pub args: Vec<String>,
    pub env: Vec<(String, String)>,
}

/// The text of a list of settings.
pub open spec fn settings(env: Seq<(String, String)>) -> Seq<(Seq<char>, Seq<char>)> {
    env.map_values(|setting: (String, String)| (setting.0@, setting.1@))
}

/// The setting of `key`, where there is a value for it.
pub open spec fn setting(key: Seq<char>, value: Option<String>) -> Seq<(Seq<char>, Seq<char>)> {
    match value {
        Some(value) => seq![(key, value@)],
        None => Seq::empty(),
    }
}

/// The environment of the RPC server: the visible devices, under the name that the
/// kind of GPU gives them, and for ROCm the version override.
pub open spec fn rpc_env(args: Args, gpu: GpuType) -> Seq<(Seq<char>, Seq<char>)> {
    match gpu {
        GpuType::Cuda => setting("CUDA_VISIBLE_DEVICES"@, args.visible_devices),
        GpuType::Rocm => setting("ROCR_VISIBLE_DEVICES"@, args.visible_devices) + setting(
            "HSA_OVERRIDE_GFX_VERSION"@,
            args.rocm_version,
        ),
        GpuType::Cpu => Seq::empty(),
    }
}

/// The arguments of the RPC server.
pub open spec fn rpc_args(args: Args) -> Seq<Seq<char>> {
    seq!["-H"@, args.rpc_host@, "-p"@, decimal(args.rpc_port as nat)] + views(
        args.extra_rpc_args@,
    )
}

/// `command` starts the RPC server as `args` say.
pub open spec fn starts_rpc_server(command: RpcCommand, args: Args, gpu: GpuType) -> bool {
    &&& command.program == args.rpc_bin
    &&& views(command.args@) == rpc_args(args)
    &&& settings(command.env@) == rpc_env(args, gpu)
}

/// Adds the setting of `key`, where there is a value for it.
fn set(env: &mut Vec<(String, String)>, key: &str, value: &Option<String>)
    ensures
        settings(final(env)@) == settings(old(env)@) + setting(key@, *value),
{
    if let Some(value) = value {
        env.push((key.to_owned(), value.clone()));
    }
}

/// The command that starts the RPC server.
pub fn start_rpc_server(args: &Args, gpu: GpuType) -> (command: RpcCommand)
    ensures
        starts_rpc_server(command, *args, gpu),
{
    let mut words: Vec<String> = vec![
        "-H".to_owned(),
        args.rpc_host.clone(),
        "-p".to_owned(),
        to_decimal(args.rpc_port as u64),
    ];
    let ghost fixed = seq!["-H"@, args.rpc_host@, "-p"@, decimal(args.rpc_port as nat)];
    let mut i: usize = 0;
    while i < args.extra_rpc_args.len()
        invariant
            i <= args.extra_rpc_args.len(),
            views(words@) == fixed + views(args.extra_rpc_args@.take(i as int)),
        decreases args.extra_rpc_args.len() - i,
    {
        let word = args.extra_rpc_args[i].clone();
        proof {
            let extra = args.extra_rpc_args@;
            views_push(words@, word);
            views_push(extra.take(i as int), extra[i as int]);
        }
        words.push(word);
        i += 1;
    }
    proof {
        assert(args.extra_rpc_args@.take(i as int) == args.extra_rpc_args@);
    }
    let mut env: Vec<(String, String)> = Vec::new();
    match gpu {
        GpuType::Cuda => {
            set(&mut env, "CUDA_VISIBLE_DEVICES", &args.visible_devices);
        },
        GpuType::Rocm => {
            set(&mut env, "ROCR_VISIBLE_DEVICES", &args.visible_devices);
            set(&mut env, "HSA_OVERRIDE_GFX_VERSION", &args.rocm_version);
        },
        GpuType::Cpu => {},
    }
    proof {
        assert(settings(env@) =~= rpc_env(*args, gpu));
    }
    RpcCommand { program: args.rpc_bin.clone(), args: words, env }
}

// ---------------------------------------------------------------------------
// Session
// ---------------------------------------------------------------------------

/// How far a session has come.
#[derive(Debug, Clone, Copy, PartialEq, Eq, Structural)]
pub enum ChildStage {
    /// The RPC server is being started.
    Launching,
    /// The coordinator is being reached.
    Connecting,
    /// The announcement is being sent.
    Announcing,
    /// The worker has joined.
    Running,
    /// The GPU is being freed for a program that preempts.
    Vacating,
    /// That program is waited for.
    Yielding,
    /// The session is over.
    Over,
}

/// What can happen in a session.
pub enum ChildInput {
    /// The RPC server runs.
    RpcStarted,
    /// The RPC server could not be started.
    RpcStartFailed,
    /// The WebSocket is connected.
    Connected,
    /// The coordinator could not be reached.
    ConnectFailed,
    /// The announcement could not be rendered, for this reason.
    RenderFailed(String),
    /// The announcement is sent.
    AnnounceSent,
    /// The announcement could not be sent.
    AnnounceFailed,
    /// The WebSocket was read.
    Received(Incoming<CoordinatorMsg>),
    /// This program, which preempts, was launched.
    Preempted(String),
    /// No one looks for programs that preempt.
    NoWatcher,
    /// The RPC server ended by itself.
    RpcExited,
    /// The RPC server is stopped.
    Vacated,
    /// The process directory was read.
    Looked(Vec<ProcEntry>),
}

/// Why a session failed.
#[derive(Debug)]
pub enum ChildError {
    StartRpc,
    Connect,
    /// The announcement could not be rendered, for this reason.
    Render(String),
    Announce,
}

impl ChildError {
    /// The text of the message for the user.
    pub open spec fn text(self) -> Seq<char> {
        match self {
            ChildError::StartRpc => "failed to start llama-rpc-server"@,
            ChildError::Connect => "failed to connect to coordinator"@,
            ChildError::Render(reason) => reason@,
            ChildError::Announce => "failed to send announce"@,
        }
    }

    /// The message for the user.
    pub fn message(&self) -> (res: String)
        ensures
            res@ == self.text(),
    {
        match self {
            ChildError::StartRpc => "failed to start llama-rpc-server".to_owned(),
            ChildError::Connect => "failed to connect to coordinator".to_owned(),
            ChildError::Render(reason) => reason.clone(),
            ChildError::Announce => "failed to send announce".to_owned(),
        }
    }
}

/// What a session does next.
pub enum ChildAction {
    /// Wait so many seconds for the RPC server to bind its port, then connect to the
    /// coordinator at this URL.
    Connect(u64, String),
    /// Announce this worker.
    Announce(WorkerMsg),
    /// Read the WebSocket and, if so told, look for programs that preempt.
    Listen(bool),
    /// Wait for what comes next.
    Wait,
    /// Answer a ping.
    Pong(Vec<u8>),
    /// Send this message, then stop the RPC server and wait for its end.
    Vacate(WorkerMsg),
    /// Wait so many seconds, then read the process directory.
    Look(u64),
    /// Stop what is left of the session, the RPC server included, and end it.
    End,
    /// Stop the RPC server, where it runs, and end the session with an error.
    Fail(ChildError),
}

/// What is known of a session.
pub struct ChildState {
    pub stage: ChildStage,
    pub me: WorkerAnnounce,
    /// WebSocket URL of the coordinator.
    pub coordinator: String,
    /// The program that the worker makes room for, once there is one.
    pub program: String,
}

/// Whether `input` can happen in `stage`.
pub open spec fn child_can(stage: ChildStage, input: ChildInput) -> bool {
    match stage {
        ChildStage::Launching => input is RpcStarted || input is RpcStartFailed,
        ChildStage::Connecting => input is Connected || input is ConnectFailed,
        ChildStage::Announcing => input is RenderFailed || input is AnnounceSent
            || input is AnnounceFailed,
        ChildStage::Running => input is Received || input is Preempted || input is NoWatcher
            || input is RpcExited,
        ChildStage::Vacating => input is Vacated,
        ChildStage::Yielding => input is Looked,
        ChildStage::Over => false,
    }
}

/// The stage after `input`, where the worker may have made room for `program`.
pub open spec fn child_next_stage(program: Seq<char>, input: ChildInput) -> ChildStage {
    match input {
        ChildInput::RpcStarted => ChildStage::Connecting,
        ChildInput::Connected => ChildStage::Announcing,
        ChildInput::AnnounceSent | ChildInput::NoWatcher => ChildStage::Running,
        ChildInput::Received(incoming) => match incoming {
            Incoming::Close | Incoming::Ended | Incoming::Failed => ChildStage::Over,
            _ => ChildStage::Running,
        },
        ChildInput::Preempted(_) => ChildStage::Vacating,
        ChildInput::Vacated => ChildStage::Yielding,
        ChildInput::Looked(processes) => if running(processes@, program) {
            ChildStage::Yielding
        } else {
            ChildStage::Over
        },
        ChildInput::RpcStartFailed
        | ChildInput::ConnectFailed
        | ChildInput::RenderFailed(_)
        | ChildInput::AnnounceFailed
        | ChildInput::RpcExited => ChildStage::Over,
    }
}

/// The state after `input`.
pub open spec fn child_next(state: ChildState, input: ChildInput) -> ChildState {
    let stage = child_next_stage(state.program@, input);
    match input {
        ChildInput::Preempted(program) => ChildState { stage, program, ..state },
        _ => ChildState { stage, ..state },
    }
}

/// `action` is what a session does on `input`.
pub open spec fn child_acts(state: ChildState, input: ChildInput, action: ChildAction) -> bool {
    match input {
        ChildInput::RpcStarted => action == ChildAction::Connect(
            RPC_BIND_SECS,
            state.coordinator,
        ),
        ChildInput::RpcStartFailed => action == ChildAction::Fail(ChildError::StartRpc),
        ChildInput::Connected => action == ChildAction::Announce(WorkerMsg::Announce(state.me)),
        ChildInput::ConnectFailed => action == ChildAction::Fail(ChildError::Connect),
        ChildInput::RenderFailed(reason) => action == ChildAction::Fail(
            ChildError::Render(reason),
        ),
        ChildInput::AnnounceSent => action == ChildAction::Listen(state.me.preemptible),
        ChildInput::AnnounceFailed => action == ChildAction::Fail(ChildError::Announce),
        ChildInput::Received(incoming) => match incoming {
            Incoming::Ping(data) => action == ChildAction::Pong(data),
            Incoming::Close | Incoming::Ended | Incoming::Failed => action is End,
            _ => action is Wait,
        },
        ChildInput::Preempted(program) => action is Vacate && tells_of_launch(
            action->Vacate_0,
            program@,
        ),
        ChildInput::NoWatcher => action is Wait,
        ChildInput::RpcExited => action is End,
        ChildInput::Vacated => action == ChildAction::Look(CLEAR_SECS),
        ChildInput::Looked(processes) => if running(processes@, state.program@) {
            action == ChildAction::Look(CLEAR_SECS)
        } else {
            action is End
        },
    }
}

/// A session of a worker whose RPC server is a child process.
pub struct ChildSession {
    state: ChildState,
}

impl View for ChildSession {
    type V = ChildState;

    closed spec fn view(&self) -> ChildState {
        self.state
    }
}

impl ChildSession {
    /// A session of the worker `me` with the coordinator at the URL `coordinator`. The
    /// RPC server is to be started first.
    pub fn new(me: WorkerAnnounce, coordinator: String) -> (res: Self)
        ensures
            res@.stage is Launching,
            res@.me == me,
            res@.coordinator == coordinator,
            res@.program@.len() == 0,
    {
        ChildSession {
            state: ChildState {
                stage: ChildStage::Launching,
                me,
                coordinator,
                program: String::new(),
            },
        }
    }

    /// Whether `input` can happen now.
    pub fn expects(&self, input: &ChildInput) -> (res: bool)
        ensures
            res == child_can(self@.stage, *input),
    {
        match self.state.stage {
            ChildStage::Launching => matches!(
                input,
                ChildInput::RpcStarted | ChildInput::RpcStartFailed
            ),
            ChildStage::Connecting => matches!(
                input,
                ChildInput::Connected | ChildInput::ConnectFailed
            ),
            ChildStage::Announcing => matches!(
                input,
                ChildInput::RenderFailed(_)
                | ChildInput::AnnounceSent
                | ChildInput::AnnounceFailed
            ),
            ChildStage::Running => matches!(
                input,
                ChildInput::Received(_)
                | ChildInput::Preempted(_)
                | ChildInput::NoWatcher
                | ChildInput::RpcExited
            ),
            ChildStage::Vacating => matches!(input, ChildInput::Vacated),
            ChildStage::Yielding => matches!(input, ChildInput::Looked(_)),
            ChildStage::Over => false,
        }
    }

    /// One step of the session.
    pub fn run_session(&mut self, input: ChildInput) -> (action: ChildAction)
        requires
            child_can(old(self)@.stage, input),
        ensures
            final(self)@ == child_next(old(self)@, input),
            child_acts(old(self)@, input, action),
    {
        match input {
            ChildInput::RpcStarted => {
                self.state.stage = ChildStage::Connecting;
                ChildAction::Connect(RPC_BIND_SECS, self.state.coordinator.clone())
            },
            ChildInput::RpcStartFailed => {
                self.state.stage = ChildStage::Over;
                ChildAction::Fail(ChildError::StartRpc)
            },
            ChildInput::Connected => {
                self.state.stage = ChildStage::Announcing;
                ChildAction::Announce(WorkerMsg::Announce(self.state.me.clone()))
            },
            ChildInput::ConnectFailed => {
                self.state.stage = ChildStage::Over;
                ChildAction::Fail(ChildError::Connect)
            },
            ChildInput::RenderFailed(reason) => {
                self.state.stage = ChildStage::Over;
                ChildAction::Fail(ChildError::Render(reason))
            },
            ChildInput::AnnounceSent => {
                self.state.stage = ChildStage::Running;
                ChildAction::Listen(self.state.me.preemptible)
            },
            ChildInput::AnnounceFailed => {
                self.state.stage = ChildStage::Over;
                ChildAction::Fail(ChildError::Announce)
            },
            ChildInput::Received(incoming) => match incoming {
                Incoming::Ping(data) => ChildAction::Pong(data),
                Incoming::Close => {
                    self.state.stage = ChildStage::Over;
                    ChildAction::End
                },
                Incoming::Ended => {
                    self.state.stage = ChildStage::Over;
                    ChildAction::End
                },
                Incoming::Failed => {
                    self.state.stage = ChildStage::Over;
                    ChildAction::End
                },
                _ => ChildAction::Wait,
            },
            ChildInput::Preempted(program) => {
                let notice = launch_notice(program.as_str());
                self.state.stage = ChildStage::Vacating;
                self.state.program = program;
                ChildAction::Vacate(notice)
            },
            ChildInput::NoWatcher => ChildAction::Wait,
            ChildInput::RpcExited => {
                self.state.stage = ChildStage::Over;
                ChildAction::End
            },
            ChildInput::Vacated => {
                self.state.stage = ChildStage::Yielding;
                ChildAction::Look(CLEAR_SECS)
            },
            ChildInput::Looked(processes) => {
                if is_process_running(&processes, self.state.program.as_str()) {
                    ChildAction::Look(CLEAR_SECS)
                } else {
                    self.state.stage = ChildStage::Over;
                    ChildAction::End
                }
            },
        }
    }
}

/// The state of a session after `inputs`.
pub open spec fn child_after(start: ChildState, inputs: Seq<ChildInput>) -> ChildState
    decreases inputs.len(),
{
    if inputs.len() == 0 {
        start
    } else {
        child_next(child_after(start, inputs.drop_last()), inputs.last())
    }
}

/// Whether all of `inputs`, in order, can happen in a session.
pub open spec fn child_possible(start: ChildState, inputs: Seq<ChildInput>) -> bool
    decreases inputs.len(),
{
    inputs.len() == 0 || (child_possible(start, inputs.drop_last()) && child_can(
        child_after(start, inputs.drop_last()).stage,
        inputs.last(),
    ))
}

/// A session that made room for a program does not end, and so the worker does not
/// join again, before a look at the processes shows that program gone.
pub proof fn preempted_session_outlasts_program(
    start: ChildState,
    inputs: Seq<ChildInput>,
    i: int,
    program: String,
)
    requires
        start.stage is Launching,
        child_possible(start, inputs),
        0 <= i < inputs.len(),
        inputs[i] == ChildInput::Preempted(program),
    ensures
        ({
            let end = child_after(start, inputs);
            &&& end.program == program
            &&& end.stage is Vacating || end.stage is Yielding || end.stage is Over
            &&& end.stage is Over ==> (inputs.last() matches ChildInput::Looked(processes)
                && !running(processes@, program@))
        }),
    decreases inputs.len(),
{
    if i < inputs.len() - 1 {
        preempted_session_outlasts_program(start, inputs.drop_last(), i, program);
    }
}

/// A session starts the RPC server before it connects, connects before it announces
/// its worker, and announces it once and before anything else happens between it and
/// the coordinator.
pub proof fn child_session_announces_first(start: ChildState, inputs: Seq<ChildInput>)
    requires
        start.stage is Launching,
        child_possible(start, inputs),
    ensures
        inputs.len() > 1 ==> inputs[0] is RpcStarted,
        inputs.len() > 2 ==> inputs[1] is Connected,
        inputs.len() > 3 ==> inputs[2] is AnnounceSent,
        forall|i: int|
            0 <= i < inputs.len() ==> ((#[trigger] inputs[i]) is Connected ==> i == 1) && (
            inputs[i] is AnnounceSent ==> i == 2) && (inputs[i] is Received || inputs[i] is Preempted
                ==> i > 2),
        child_after(start, inputs).me == start.me,
{
    child_stages_in_order(start, inputs);
}

/// The stages of a session come in order, each after the input that leads to it.
proof fn child_stages_in_order(start: ChildState, inputs: Seq<ChildInput>)
    requires
        start.stage is Launching,
        child_possible(start, inputs),
    ensures
        inputs.len() > 1 ==> inputs[0] is RpcStarted,
        inputs.len() > 2 ==> inputs[1] is Connected,
        inputs.len() > 3 ==> inputs[2] is AnnounceSent,
        forall|i: int|
            0 <= i < inputs.len() ==> ((#[trigger] inputs[i]) is Connected ==> i == 1) && (
            inputs[i] is AnnounceSent ==> i == 2) && (inputs[i] is Received || inputs[i] is Preempted
                ==> i > 2),
        child_after(start, inputs).me == start.me,
        ({
            let stage = child_after(start, inputs).stage;
            &&& stage is Launching <==> inputs.len() == 0
            &&& stage is Connecting ==> inputs.len() == 1
            &&& stage is Announcing ==> inputs.len() == 2
            &&& stage is Running || stage is Vacating || stage is Yielding ==> inputs.len() > 2
            &&& stage is Connecting ==> inputs[0] is RpcStarted
            &&& stage is Announcing ==> inputs[1] is Connected
            &&& stage is Running || stage is Vacating || stage is Yielding
                ==> inputs[2] is AnnounceSent
        }),
    decreases inputs.len(),
{
    if inputs.len() > 0 {
        let front = inputs.drop_last();
        child_stages_in_order(start, front);
        assert forall|i: int| 0 <= i < inputs.len() - 1 implies (#[trigger] inputs[i])
            == front[i] by {}
    }
}

} // verus!
