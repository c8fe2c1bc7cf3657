//! A worker: what it offers, when it must make room for other programs, and how a
//! session with the coordinator runs.
use crate::ffi::gpu_indices;
use crate::ffi::gpu_indices_of;
use crate::ffi::gpu_vram_of;
use crate::ffi::total_gpu_vram_mb;
use crate::ffi::DeviceInfo;
use crate::protocol::CoordinatorMsg;
use crate::protocol::GpuType;
use crate::protocol::Incoming;
use crate::protocol::WorkerAnnounce;
use crate::protocol::WorkerMsg;
use crate::text::all_digits;
use crate::text::decimal;
use crate::text::is_all_digits;
use crate::text::same_text;
use crate::text::to_decimal;
use crate::text::trim;
use crate::text::trimmed;
use vstd::arithmetic::power2::lemma2_to64;
use vstd::arithmetic::power2::lemma_pow2_unfold;
use vstd::arithmetic::power2::pow2;
use vstd::prelude::*;
use vstd::string::*;

verus! {

/// Seconds between two looks for a program that preempts.
pub const WATCH_SECS: u64 = 2;

/// Seconds between two looks for the end of a program that preempts.
pub const CLEAR_SECS: u64 = 5;

/// Seconds that the RPC server is given to bind its port.
pub const RPC_BIND_SECS: u64 = 1;

/// Milliseconds that the last message is given before the process ends.
pub const QUIT_PAUSE_MS: u64 = 200;

/// Arguments of the subcommand.
pub struct Args {
    /// WebSocket URL of the coordinator (e.g. ws://192.168.178.24:50050)
    pub coordinator: String,
    /// GPU type reported to coordinator: cuda, rocm, or cpu
    pub gpu: String,
    /// Port for the RPC server
    pub rpc_port: u16,
    /// Bind address for the RPC server
    pub rpc_host: String,
    /// Process names that trigger GPU preemption
    pub preempt_triggers: Vec<String>,
    /// Node identifier (defaults to hostname)
    pub node_id: Option<String>,
}

/// The text names no kind of accelerator.
#[derive(Debug)]
pub struct UnknownGpu {
    pub given: String,
}

impl UnknownGpu {
    /// The message for the user.
    pub fn message(&self) -> (res: String)
        ensures
            res@ == "unknown GPU type: "@ + self.given@ + " (expected cuda, rocm, or cpu)"@,
    {
        "unknown GPU type: ".to_owned().concat(self.given.as_str()).concat(
            " (expected cuda, rocm, or cpu)",
        )
    }
}

/// Reads the lowercase name of a kind of accelerator.
pub fn parse_gpu(s: &str) -> (res: Result<GpuType, UnknownGpu>)
    ensures
        match res {
            Ok(gpu) => s@ == gpu.name(),
            Err(unknown) => unknown.given@ == s@ && forall|kind: GpuType|
                s@ != #[trigger] kind.name(),
        },
{
    if same_text(s, "cuda") {
        Ok(GpuType::Cuda)
    } else if same_text(s, "rocm") {
        Ok(GpuType::Rocm)
    } else if same_text(s, "cpu") {
        Ok(GpuType::Cpu)
    } else {
        Err(UnknownGpu { given: s.to_owned() })
    }
}

/// The name of this machine, by the contents of its host name file, where it can be
/// read.
pub fn get_hostname(contents: Option<String>) -> (res: String)
    ensures
        res@ == (match contents {
            Some(text) => trimmed(text@),
            None => trimmed("unknown"@),
        }),
{
    match contents {
        Some(text) => trim(text.as_str()),
        None => trim("unknown"),
    }
}

// ---------------------------------------------------------------------------
// Preemption
// ---------------------------------------------------------------------------

/// An entry of the process directory.
pub struct ProcEntry {
    /// Its name, where it is valid text.
    pub name: Option<String>,
    /// The contents of its `comm` file, where it can be read.
    pub comm: Option<String>,
}

/// Whether `entry` is a process that runs the program `name`.
pub open spec fn runs(entry: ProcEntry, name: Seq<char>) -> bool {
    &&& entry.name matches Some(pid) && all_digits(pid@)
    &&& entry.comm matches Some(comm) && trimmed(comm@) == name
}

/// Whether one of `processes` runs the program `name`.
pub open spec fn running(processes: Seq<ProcEntry>, name: Seq<char>) -> bool {
    exists|i: int| 0 <= i < processes.len() && runs(#[trigger] processes[i], name)
}

/// Whether the process directory shows the program `name` running.
pub fn is_process_running(processes: &Vec<ProcEntry>, name: &str) -> (res: bool)
    ensures
        res == running(processes@, name@),
{
    let mut i: usize = 0;
    while i < processes.len()
        invariant
            i <= processes.len(),
            forall|j: int| 0 <= j < i ==> !runs(#[trigger] processes@[j], name@),
        decreases processes.len() - i,
    {
        let is_process = match &processes[i].name {
            Some(pid) => is_all_digits(pid.as_str()),
            None => false,
        };
        let is_named = match &processes[i].comm {
            Some(comm) => same_text(trim(comm.as_str()).as_str(), name),
            None => false,
        };
        if is_process && is_named {
            return true;
        }
        i += 1;
    }
    false
}

/// `name` is the first of `triggers` that runs.
pub open spec fn first_running(
    triggers: Seq<String>,
    processes: Seq<ProcEntry>,
    name: String,
) -> bool {
    exists|i: int|
        {
            &&& 0 <= i < triggers.len()
            &&& name == #[trigger] triggers[i]
            &&& running(processes, triggers[i]@)
            &&& forall|j: int| 0 <= j < i ==> !running(processes, (#[trigger] triggers[j])@)
        }
}

/// Whether none of `triggers` runs.
pub open spec fn all_clear(triggers: Seq<String>, processes: Seq<ProcEntry>) -> bool {
    forall|i: int| 0 <= i < triggers.len() ==> !running(processes, (#[trigger] triggers[i])@)
}

/// The first of `triggers` that runs.
pub fn any_trigger_running(triggers: &Vec<String>, processes: &Vec<ProcEntry>) -> (res: Option<
    String,
>)
    ensures
        match res {
            Some(name) => first_running(triggers@, processes@, name),
            None => all_clear(triggers@, processes@),
        },
{
    let mut i: usize = 0;
    while i < triggers.len()
        invariant
            i <= triggers.len(),
            forall|j: int| 0 <= j < i ==> !running(processes@, (#[trigger] triggers@[j])@),
        decreases triggers.len() - i,
    {
        if is_process_running(processes, triggers[i].as_str()) {
            return Some(triggers[i].clone());
        }
        i += 1;
    }
    None
}

/// What a worker does before it may start.
pub enum Clearance {
    /// Wait so many seconds for this program to end, then look again.
    Wait(String, u64),
    /// Start.
    Clear,
}

/// One look at the processes before the start.
pub fn wait_for_preempt_clear(triggers: &Vec<String>, processes: &Vec<ProcEntry>) -> (res:
    Clearance)
    ensures
        match res {
            Clearance::Wait(name, secs) => first_running(triggers@, processes@, name) && secs
                == CLEAR_SECS,
            Clearance::Clear => all_clear(triggers@, processes@),
        },
{
    match any_trigger_running(triggers, processes) {
        Some(name) => Clearance::Wait(name, CLEAR_SECS),
        None => Clearance::Clear,
    }
}

/// What the watcher of a session does after a look at the processes.
pub enum Watch {
    /// Report this program, which preempts, and stop.
    Found(String),
    /// Look again after so many seconds.
    Again(u64),
}

/// One look at the processes while a session runs. The first one comes
/// `WATCH_SECS` seconds after the watcher starts.
pub fn watch_triggers(triggers: &Vec<String>, processes: &Vec<ProcEntry>) -> (res: Watch)
    ensures
        match res {
            Watch::Found(name) => first_running(triggers@, processes@, name),
            Watch::Again(secs) => all_clear(triggers@, processes@) && secs == WATCH_SECS,
        },
{
    match any_trigger_running(triggers, processes) {
        Some(name) => Watch::Found(name),
        None => Watch::Again(WATCH_SECS),
    }
}

// ---------------------------------------------------------------------------
// Start
// ---------------------------------------------------------------------------

/// Who a worker is to the coordinator.
pub struct Identity {
    pub gpu: GpuType,
    pub node_id: String,
}

/// The node ID: the one that was asked for, or else the name of the machine.
pub open spec fn node_id_of(asked: Option<String>, hostname_file: Option<String>) -> Seq<char> {
    match asked {
        Some(node_id) => node_id@,
        None => match hostname_file {
            Some(text) => trimmed(text@),
            None => trimmed("unknown"@),
        },
    }
}

/// Works out who this worker is. `hostname_file` holds the contents of the host name
/// file, where it can be read.
pub fn identify(gpu: &str, node_id: Option<String>, hostname_file: Option<String>) -> (res: Result<
    Identity,
    UnknownGpu,
>)
    ensures
        match res {
            Ok(identity) => gpu@ == identity.gpu.name() && identity.node_id@ == node_id_of(
                node_id,
                hostname_file,
            ),
            Err(unknown) => unknown.given@ == gpu@ && forall|kind: GpuType|
                gpu@ != #[trigger] kind.name(),
        },
{
    match parse_gpu(gpu) {
        Ok(gpu) => {
            let node_id = match node_id {
                Some(node_id) => node_id,
                None => get_hostname(hostname_file),
            };
            Ok(Identity { gpu, node_id })
        },
        Err(unknown) => Err(unknown),
    }
}

/// What a worker serves.
pub struct Offer {
    pub endpoint: String,
    pub gpu_indices: Vec<usize>,
    pub total_vram_mb: u64,
}

/// The machine has no GPU, so a worker has nothing to offer.
#[derive(Debug)]
pub struct NothingToServe;

impl NothingToServe {
    /// The message for the user.
    pub fn message(&self) -> (res: String)
        ensures
            res@ == "no GPU devices found — nothing to serve over RPC"@,
    {
        "no GPU devices found — nothing to serve over RPC".to_owned()
    }
}

/// The endpoint on `host` and `port`.
pub open spec fn endpoint_on(host: Seq<char>, port: u16) -> Seq<char> {
    host + ":"@ + decimal(port as nat)
}

/// Works out what a worker with these devices serves: all of its GPUs, on one
/// endpoint. The memory of the GPUs must add up to a number of 64 bits.
pub fn plan_offer(rpc_host: &str, rpc_port: u16, devices: &Vec<DeviceInfo>) -> (res: Result<
    Offer,
    NothingToServe,
>)
    requires
        gpu_vram_of(devices@) <= u64::MAX,
    ensures
        res is Err <==> gpu_indices_of(devices@).len() == 0,
        match res {
            Ok(offer) => {
                &&& offer.endpoint@ == endpoint_on(rpc_host@, rpc_port)
                &&& offer.gpu_indices@ == gpu_indices_of(devices@)
                &&& offer.total_vram_mb == gpu_vram_of(devices@)
            },
            Err(_) => true,
        },
{
    let gpu_indices = gpu_indices(devices);
    if gpu_indices.len() == 0 {
        return Err(NothingToServe);
    }
    let total_vram_mb: u64 = total_gpu_vram_mb(devices).unwrap();
    let endpoint = rpc_host.to_owned().concat(":").concat(to_decimal(rpc_port as u64).as_str());
    Ok(Offer { endpoint, gpu_indices, total_vram_mb })
}

// ---------------------------------------------------------------------------
// Reconnecting
// ---------------------------------------------------------------------------

/// Seconds to wait after the first session that failed.
pub const MIN_BACKOFF_SECS: u64 = 1;

/// Seconds to wait at most.
pub const MAX_BACKOFF_SECS: u64 = 30;

/// The wait after a session, where a failed one calls for `secs` seconds.
pub open spec fn wait_on(secs: int, clean: bool) -> int {
    if clean {
        MIN_BACKOFF_SECS as int
    } else {
        secs
    }
}

/// What the next failed session calls for after a wait of `wait` seconds.
pub open spec fn longer(wait: int) -> int {
    if 2 * wait <= MAX_BACKOFF_SECS {
        2 * wait
    } else {
        MAX_BACKOFF_SECS as int
    }
}

/// How long a worker waits before it connects again.
pub struct Backoff {
    secs: u64,
}

impl View for Backoff {
    type V = int;

    /// Seconds to wait if the next session fails.
    closed spec fn view(&self) -> int {
        self.secs as int
    }
}

impl Backoff {
    /// The wait stays within its bounds.
    pub open spec fn wf(&self) -> bool {
        MIN_BACKOFF_SECS <= self@ <= MAX_BACKOFF_SECS
    }

    /// No session has run.
    pub fn new() -> (res: Self)
        ensures
            res.wf(),
            res@ == MIN_BACKOFF_SECS,
    {
        Backoff { secs: MIN_BACKOFF_SECS }
    }

    /// The seconds to wait after a session, which ended well or not.
    pub fn after_session(&mut self, clean: bool) -> (wait: u64)
        requires
            old(self).wf(),
        ensures
            final(self).wf(),
            wait == wait_on(old(self)@, clean),
            final(self)@ == longer(wait as int),
    {
        let wait: u64 = if clean {
            MIN_BACKOFF_SECS
        } else {
            self.secs
        };
        self.secs = if 2 * wait <= MAX_BACKOFF_SECS {
            2 * wait
        } else {
            MAX_BACKOFF_SECS
        };
        wait
    }
}

/// What the next failed session calls for after `sessions`, each of which ended well
/// or not.
pub open spec fn backoff_after(sessions: Seq<bool>) -> int
    decreases sessions.len(),
{
    if sessions.len() == 0 {
        MIN_BACKOFF_SECS as int
    } else {
        longer(wait_on(backoff_after(sessions.drop_last()), sessions.last()))
    }
}

/// The wait after the last of `sessions`.
pub open spec fn wait_after(sessions: Seq<bool>) -> int
    recommends
        sessions.len() > 0,
{
    wait_on(backoff_after(sessions.drop_last()), sessions.last())
}

/// `2^n` seconds, or the longest wait where that is less.
pub open spec fn capped_power(n: nat) -> int {
    if pow2(n) <= MAX_BACKOFF_SECS {
        pow2(n) as int
    } else {
        MAX_BACKOFF_SECS as int
    }
}

/// The wait doubles with every session that fails, from one second up to its bound,
/// and starts over after a session that ended well.
pub proof fn wait_doubles_up_to_its_bound(sessions: Seq<bool>, failed: nat)
    requires
        failed < sessions.len(),
        forall|i: int|
            sessions.len() - failed <= i < sessions.len() ==> !(#[trigger] sessions[i]),
        sessions[sessions.len() - failed - 1] || sessions.len() == failed + 1,
    ensures
        wait_after(sessions) == capped_power(failed),
    decreases failed,
{
    lemma2_to64();
    if failed > 0 {
        let before = sessions.drop_last();
        wait_doubles_up_to_its_bound(before, (failed - 1) as nat);
        lemma_pow2_unfold(failed);
    }
}

/// The wait after session `i` by that after the one before: the least after a session
/// that ended well, and otherwise twice as long as the one before, within its bound.
pub open spec fn delay_rule(sessions: Seq<bool>, waits: Seq<u64>, i: int) -> bool {
    waits[i] == if sessions[i] || i == 0 {
        MIN_BACKOFF_SECS as int
    } else {
        longer(waits[i - 1] as int)
    }
}

/// `waits` are the waits after each of `sessions`, which ended well or not, where the
/// back-off was new and stood at `steps[i]` when session `i` ended.
pub open spec fn backoff_run(steps: Seq<int>, sessions: Seq<bool>, waits: Seq<u64>) -> bool {
    &&& steps.len() == sessions.len() + 1
    &&& waits.len() == sessions.len()
    &&& steps[0] == MIN_BACKOFF_SECS
    &&& forall|i: int|
        0 <= i < sessions.len() ==> waits[i] == wait_on(steps[i], #[trigger] sessions[i])
            && steps[i + 1] == longer(waits[i] as int)
}

/// A worker waits a second after a session that ended well, and after the first one.
/// After any other that failed it waits twice as long as before, but never longer than
/// the bound.
pub proof fn reconnect_delays(steps: Seq<int>, sessions: Seq<bool>, waits: Seq<u64>)
    requires
        backoff_run(steps, sessions, waits),
    ensures
        forall|i: int| 0 <= i < waits.len() ==> #[trigger] delay_rule(sessions, waits, i),
        forall|i: int|
            0 <= i < waits.len() ==> MIN_BACKOFF_SECS <= #[trigger] waits[i] <= MAX_BACKOFF_SECS,
        forall|i: int|
            0 <= i < waits.len() ==> #[trigger] waits[i] == wait_after(sessions.take(i + 1)),
        steps.last() == backoff_after(sessions),
    decreases sessions.len(),
{
    if sessions.len() > 0 {
        let n = sessions.len() - 1;
        let front = sessions.drop_last();
        let done = waits.drop_last();
        let before = steps.drop_last();
        assert(backoff_run(before, front, done)) by {
            assert forall|i: int| 0 <= i < front.len() implies done[i] == wait_on(
                before[i],
                #[trigger] front[i],
            ) && before[i + 1] == longer(done[i] as int) by {
                assert(front[i] == sessions[i]);
            }
        }
        reconnect_delays(before, front, done);
        assert(waits[n] == wait_on(steps[n], sessions[n]));
        if n > 0 {
            assert(done[n - 1] == waits[n - 1]);
            assert(waits[n - 1] == wait_on(steps[n - 1], sessions[n - 1]));
        }
        assert forall|i: int| 0 <= i < waits.len() implies #[trigger] delay_rule(
            sessions,
            waits,
            i,
        ) by {
            if i < n {
                assert(delay_rule(front, done, i));
            }
        }
        assert forall|i: int| 0 <= i < waits.len() implies MIN_BACKOFF_SECS <= #[trigger] waits[i]
            <= MAX_BACKOFF_SECS && waits[i] == wait_after(sessions.take(i + 1)) by {
            if i < n {
                assert(done[i] == waits[i]);
                assert(front.take(i + 1) == sessions.take(i + 1));
            } else {
                assert(sessions.take(i + 1) == sessions);
            }
        }
    }
}

// ---------------------------------------------------------------------------
// Session
// ---------------------------------------------------------------------------

/// How far a session has come.
#[derive(Debug, Clone, Copy, PartialEq, Eq, Structural)]
pub enum SessionStage {
    Connecting,
    Announcing,
    Running,
    Over,
}

/// What can happen in a session.
pub enum SessionInput {
    /// The WebSocket is connected.
    Connected,
    /// The coordinator could not be reached.
    ConnectFailed,
    /// The announcement could not be rendered, for this reason.
    RenderFailed(String),
    /// The announcement is sent.
    AnnounceSent,
    /// The announcement could not be sent.
    AnnounceFailed,
    /// The WebSocket was read.
    Received(Incoming<CoordinatorMsg>),
    /// This program, which preempts, was launched.
    Preempted(String),
    /// No one looks for programs that preempt.
    NoWatcher,
}

/// Why a session failed.
#[derive(Debug)]
pub enum SessionError {
    Connect,
    /// The announcement could not be rendered, for this reason.
    Render(String),
    Announce,
}

impl SessionError {
    /// The text of the message for the user.
    pub open spec fn text(self) -> Seq<char> {
        match self {
            SessionError::Connect => "failed to connect to coordinator"@,
            SessionError::Render(reason) => reason@,
            SessionError::Announce => "failed to send announce"@,
        }
    }

    /// The message for the user.
    pub fn message(&self) -> (res: String)
        ensures
            res@ == self.text(),
    {
        match self {
            SessionError::Connect => "failed to connect to coordinator".to_owned(),
            SessionError::Render(reason) => reason.clone(),
            SessionError::Announce => "failed to send announce".to_owned(),
        }
    }
}

/// What a session does next.
pub enum SessionAction {
    /// Announce this worker.
    Announce(WorkerMsg),
    /// Read the WebSocket and, if so told, look for programs that preempt.
    Listen(bool),
    /// Wait for what comes next.
    Wait,
    /// Answer a ping.
    Pong(Vec<u8>),
    /// Send this message, give it so many milliseconds, and end the process: only that
    /// frees the GPU.
    Quit(WorkerMsg, u64),
    /// End the session.
    End,
    /// End the session with an error.
    Fail(SessionError),
}

/// Whether `input` can happen in `stage`.
pub open spec fn session_can(stage: SessionStage, input: SessionInput) -> bool {
    match stage {
        SessionStage::Connecting => input is Connected || input is ConnectFailed,
        SessionStage::Announcing => input is RenderFailed || input is AnnounceSent
            || input is AnnounceFailed,
        SessionStage::Running => input is Received || input is Preempted || input is NoWatcher,
        SessionStage::Over => false,
    }
}

/// The stage after `input`.
pub open spec fn session_next(input: SessionInput) -> SessionStage {
    match input {
        SessionInput::Connected => SessionStage::Announcing,
        SessionInput::AnnounceSent | SessionInput::NoWatcher => SessionStage::Running,
        SessionInput::Received(incoming) => match incoming {
            Incoming::Close | Incoming::Ended | Incoming::Failed => SessionStage::Over,
            _ => SessionStage::Running,
        },
        SessionInput::ConnectFailed
        | SessionInput::RenderFailed(_)
        | SessionInput::AnnounceFailed
        | SessionInput::Preempted(_) => SessionStage::Over,
    }
}

/// `msg` tells that `program` was launched and the worker makes room.
pub open spec fn tells_of_launch(msg: WorkerMsg, program: Seq<char>) -> bool {
    msg matches WorkerMsg::Draining { reason } && reason@ == program + " launched"@
}

/// `action` is what the session of the worker `me` does on `input`.
pub open spec fn session_acts(me: WorkerAnnounce, input: SessionInput, action: SessionAction) -> bool {
    match input {
        SessionInput::Connected => action == SessionAction::Announce(WorkerMsg::Announce(me)),
        SessionInput::ConnectFailed => action == SessionAction::Fail(SessionError::Connect),
        SessionInput::RenderFailed(reason) => action == SessionAction::Fail(
            SessionError::Render(reason),
        ),
        SessionInput::AnnounceSent => action == SessionAction::Listen(me.preemptible),
        SessionInput::AnnounceFailed => action == SessionAction::Fail(SessionError::Announce),
        SessionInput::Received(incoming) => match incoming {
            Incoming::Ping(data) => action == SessionAction::Pong(data),
            Incoming::Close | Incoming::Ended | Incoming::Failed => action is End,
            _ => action is Wait,
        },
        SessionInput::Preempted(program) => action is Quit && tells_of_launch(
            action->Quit_0,
            program@,
        ) && action->Quit_1 == QUIT_PAUSE_MS,
        SessionInput::NoWatcher => action is Wait,
    }
}

/// What a worker announces. It may be preempted exactly if some program is to
/// preempt it.
pub fn announcement(
    node_id: &String,
    gpu: GpuType,
    vram_mb: u64,
    rpc_port: u16,
    preempt_triggers: &Vec<String>,
) -> (res: WorkerAnnounce)
    ensures
        res == (WorkerAnnounce {
            node_id: *node_id,
            gpu,
            vram_mb,
            rpc_port,
            preemptible: preempt_triggers@.len() > 0,
        }),
{
    WorkerAnnounce {
        node_id: node_id.clone(),
        gpu,
        vram_mb,
        rpc_port,
        preemptible: preempt_triggers.len() > 0,
    }
}

/// The message of a worker that makes room for `program`.
pub fn launch_notice(program: &str) -> (msg: WorkerMsg)
    ensures
        tells_of_launch(msg, program@),
{
    WorkerMsg::Draining { reason: program.to_owned().concat(" launched") }
}

/// A session of a worker whose RPC server lives in its own process.
pub struct Session {
    stage: SessionStage,
    me: WorkerAnnounce,
}

impl Session {
    /// How far the session has come.
    pub closed spec fn stage(&self) -> SessionStage {
        self.stage
    }

    /// Who this worker is.
    pub closed spec fn me(&self) -> WorkerAnnounce {
        self.me
    }

    /// A session of the worker `me`, which is to connect first.
    pub fn new(me: WorkerAnnounce) -> (res: Self)
        ensures
            res.stage() is Connecting,
            res.me() == me,
    {
        Session { stage: SessionStage::Connecting, me }
    }

    /// Whether `input` can happen now.
    pub fn expects(&self, input: &SessionInput) -> (res: bool)
        ensures
            res == session_can(self.stage(), *input),
    {
        match self.stage {
            SessionStage::Connecting => matches!(
                input,
                SessionInput::Connected | SessionInput::ConnectFailed
            ),
            SessionStage::Announcing => matches!(
                input,
                SessionInput::RenderFailed(_)
                | SessionInput::AnnounceSent
                | SessionInput::AnnounceFailed
            ),
            SessionStage::Running => matches!(
                input,
                SessionInput::Received(_) | SessionInput::Preempted(_) | SessionInput::NoWatcher
            ),
            SessionStage::Over => false,
        }
    }

    /// One step of the session.
    pub fn run_session(&mut self, input: SessionInput) -> (action: SessionAction)
        requires
            session_can(old(self).stage(), input),
        ensures
            final(self).me() == old(self).me(),
            final(self).stage() == session_next(input),
            session_acts(old(self).me(), input, action),
    {
        match input {
            SessionInput::Connected => {
                self.stage = SessionStage::Announcing;
                SessionAction::Announce(WorkerMsg::Announce(self.me.clone()))
            },
            SessionInput::ConnectFailed => {
                self.stage = SessionStage::Over;
                SessionAction::Fail(SessionError::Connect)
            },
            SessionInput::RenderFailed(reason) => {
                self.stage = SessionStage::Over;
                SessionAction::Fail(SessionError::Render(reason))
            },
            SessionInput::AnnounceSent => {
                self.stage = SessionStage::Running;
                SessionAction::Listen(self.me.preemptible)
            },
            SessionInput::AnnounceFailed => {
                self.stage = SessionStage::Over;
                SessionAction::Fail(SessionError::Announce)
            },
            SessionInput::Received(incoming) => match incoming {
                Incoming::Ping(data) => SessionAction::Pong(data),
                Incoming::Close => {
                    self.stage = SessionStage::Over;
                    SessionAction::End
                },
                Incoming::Ended => {
                    self.stage = SessionStage::Over;
                    SessionAction::End
                },
                Incoming::Failed => {
                    self.stage = SessionStage::Over;
                    SessionAction::End
                },
                _ => SessionAction::Wait,
            },
            SessionInput::Preempted(program) => {
                self.stage = SessionStage::Over;
                SessionAction::Quit(launch_notice(program.as_str()), QUIT_PAUSE_MS)
            },
            SessionInput::NoWatcher => SessionAction::Wait,
        }
    }
}

/// The stage of a session before input `i`.
pub open spec fn stage_before(inputs: Seq<SessionInput>, i: int) -> SessionStage {
    if i == 0 {
        SessionStage::Connecting
    } else {
        session_next(inputs[i - 1])
    }
}

/// `inputs` are what happened in a session of the worker `me` from its start, and
/// `actions` are what it did about each of them.
pub open spec fn session_run(
    me: WorkerAnnounce,
    inputs: Seq<SessionInput>,
    actions: Seq<SessionAction>,
) -> bool {
    &&& inputs.len() == actions.len()
    &&& forall|i: int|
        0 <= i < inputs.len() ==> session_can(#[trigger] stage_before(inputs, i), inputs[i])
    &&& forall|i: int|
        0 <= i < inputs.len() ==> session_acts(me, #[trigger] inputs[i], actions[i])
}

/// The first thing that a session sends is the announcement of its worker, and it
/// announces nothing else. It then listens, and after it has ended, failed or quit it
/// does nothing more. It quits exactly when a program preempts it.
pub proof fn session_announces_first(
    me: WorkerAnnounce,
    inputs: Seq<SessionInput>,
    actions: Seq<SessionAction>,
)
    requires
        session_run(me, inputs, actions),
    ensures
        forall|i: int|
            0 <= i < actions.len() && (#[trigger] actions[i]) is Announce ==> i == 0 && actions[i]
                == SessionAction::Announce(WorkerMsg::Announce(me)),
        actions.len() > 1 ==> actions[0] is Announce,
        forall|i: int| 0 <= i < actions.len() && (#[trigger] actions[i]) is Listen ==> i == 1,
        actions.len() > 2 ==> actions[1] == SessionAction::Listen(me.preemptible),
        forall|i: int|
            0 <= i < actions.len() && ((#[trigger] actions[i]) is End || actions[i] is Fail
                || actions[i] is Quit) ==> i == actions.len() - 1,
        forall|i: int|
            0 <= i < actions.len() ==> ((#[trigger] actions[i]) is Quit
                <==> inputs[i] is Preempted),
{
    assert forall|i: int| 0 <= i < inputs.len() implies session_acts(me, inputs[i], #[trigger] actions[i])
        && session_at(inputs, i) by {
        assert(session_acts(me, inputs[i], actions[i]));
        session_keeps_its_course(me, inputs, actions, i);
    }
    if actions.len() > 1 {
        assert(session_acts(me, inputs[0], actions[0]));
        session_keeps_its_course(me, inputs, actions, 1);
    }
    if actions.len() > 2 {
        assert(session_acts(me, inputs[1], actions[1]));
        session_keeps_its_course(me, inputs, actions, 2);
    }
    assert forall|i: int| 0 <= i < actions.len() && ((#[trigger] actions[i]) is End
        || actions[i] is Fail || actions[i] is Quit) implies i == actions.len() - 1 by {
        assert(session_acts(me, inputs[i], actions[i]));
        if i < actions.len() - 1 {
            assert(session_can(stage_before(inputs, i + 1), inputs[i + 1]));
        }
    }
}

/// Input `i` of a session comes at its place, after those that must come before it.
spec fn session_at(inputs: Seq<SessionInput>, i: int) -> bool {
    let input = inputs[i];
    if i == 0 {
        session_can(SessionStage::Connecting, input)
    } else if i == 1 {
        inputs[0] is Connected && session_can(SessionStage::Announcing, input)
    } else {
        inputs[0] is Connected && inputs[1] is AnnounceSent && session_can(
            SessionStage::Running,
            input,
        )
    }
}

/// Every input of a session comes at its place.
proof fn session_keeps_its_course(
    me: WorkerAnnounce,
    inputs: Seq<SessionInput>,
    actions: Seq<SessionAction>,
    i: int,
)
    requires
        session_run(me, inputs, actions),
        0 <= i < inputs.len(),
    ensures
        session_at(inputs, i),
    decreases i,
{
    assert(session_can(stage_before(inputs, i), inputs[i]));
    if i > 0 {
        session_keeps_its_course(me, inputs, actions, i - 1);
    }
}

// ---------------------------------------------------------------------------
// Life of a worker
// ---------------------------------------------------------------------------

/// How far a worker has come.
#[derive(Debug, Clone, Copy, PartialEq, Eq, Structural)]
pub enum RunPhase {
    /// It waits until no program that preempts runs.
    Clearing,
    /// It looks for its devices.
    Surveying,
    /// Its RPC server binds its port.
    Binding,
    /// It is in a session.
    InSession,
    /// It waits before the next session.
    Pausing,
    /// It has given up.
    Over,
}

/// What can happen to a worker.
pub enum RunInput {
    /// The process directory was read.
    Looked(Vec<ProcEntry>),
    /// The devices were listed.
    Surveyed(Vec<DeviceInfo>),
    /// The RPC server had its time to bind.
    Bound,
    /// A session ended, well or not.
    SessionEnded(bool),
    /// The pause is over.
    Paused,
}

/// What a worker does next.
pub enum RunAction {
    /// Read the process directory.
    Look,
    /// Wait so many seconds for this program to end, then read the process directory.
    WaitAndLook(String, u64),
    /// List the devices.
    Survey,
    /// Serve this offer from a thread of its own, and give that so many seconds to bind.
    Serve(Offer, u64),
    /// Run a session with the coordinator at this URL.
    Connect(String, WorkerAnnounce),
    /// Wait so many seconds.
    Pause(u64),
    /// Give up.
    Fail(NothingToServe),
}

/// What is known of a worker.
pub struct RunState {
    pub phase: RunPhase,
    pub args: Args,
    pub me: Identity,
    /// The memory of its GPUs, once they are known.
    pub vram_mb: u64,
    /// Seconds to wait if the next session fails.
    pub backoff: int,
}

/// Whether `input` can happen in `state`. The memory of the GPUs must add up to a
/// number of 64 bits.
pub open spec fn run_can(state: RunState, input: RunInput) -> bool {
    match state.phase {
        RunPhase::Clearing => input is Looked,
        RunPhase::Surveying => input matches RunInput::Surveyed(devices) && gpu_vram_of(devices@)
            <= u64::MAX,
        RunPhase::Binding => input is Bound,
        RunPhase::InSession => input is SessionEnded,
        RunPhase::Pausing => input is Paused,
        RunPhase::Over => false,
    }
}

/// The state after `input`.
pub open spec fn run_next(state: RunState, input: RunInput) -> RunState {
    match input {
        RunInput::Looked(processes) => RunState {
            phase: if all_clear(state.args.preempt_triggers@, processes@) {
                RunPhase::Surveying
            } else {
                RunPhase::Clearing
            },
            ..state
        },
        RunInput::Surveyed(devices) => if gpu_indices_of(devices@).len() == 0 {
            RunState { phase: RunPhase::Over, ..state }
        } else {
            RunState {
                phase: RunPhase::Binding,
                vram_mb: gpu_vram_of(devices@) as u64,
                ..state
            }
        },
        RunInput::Bound | RunInput::Paused => RunState { phase: RunPhase::InSession, ..state },
        RunInput::SessionEnded(clean) => RunState {
            phase: RunPhase::Pausing,
            backoff: longer(wait_on(state.backoff, clean)),
            ..state
        },
    }
}

/// What the worker announces to the coordinator.
pub open spec fn announced(state: RunState) -> WorkerAnnounce {
    WorkerAnnounce {
        node_id: state.me.node_id,
        gpu: state.me.gpu,
        vram_mb: state.vram_mb,
        rpc_port: state.args.rpc_port,
        preemptible: state.args.preempt_triggers@.len() > 0,
    }
}

/// `action` is what the worker does on `input`.
pub open spec fn run_acts(state: RunState, input: RunInput, action: RunAction) -> bool {
    let triggers = state.args.preempt_triggers@;
    match input {
        RunInput::Looked(processes) => if all_clear(triggers, processes@) {
            action is Survey
        } else {
            action is WaitAndLook && first_running(
                triggers,
                processes@,
                action->WaitAndLook_0,
            ) && action->WaitAndLook_1 == CLEAR_SECS
        },
        RunInput::Surveyed(devices) => if gpu_indices_of(devices@).len() == 0 {
            action is Fail
        } else {
            action matches RunAction::Serve(offer, secs) && {
                &&& offer.endpoint@ == endpoint_on(state.args.rpc_host@, state.args.rpc_port)
                &&& offer.gpu_indices@ == gpu_indices_of(devices@)
                &&& offer.total_vram_mb == gpu_vram_of(devices@)
                &&& secs == RPC_BIND_SECS
            }
        },
        RunInput::Bound | RunInput::Paused => action == RunAction::Connect(
            state.args.coordinator,
            announced(state),
        ),
        RunInput::SessionEnded(clean) => action is Pause && action->Pause_0 == wait_on(
            state.backoff,
            clean,
        ),
    }
}

/// A worker whose RPC server lives in its own process.
pub struct Worker {
    phase: RunPhase,
    args: Args,
    me: Identity,
    vram_mb: u64,
    backoff: Backoff,
}

impl View for Worker {
    type V = RunState;

    closed spec fn view(&self) -> RunState {
        RunState {
            phase: self.phase,
            args: self.args,
            me: self.me,
            vram_mb: self.vram_mb,
            backoff: self.backoff@,
        }
    }
}

impl Worker {
    /// The wait stays within its bounds.
    pub open spec fn wf(&self) -> bool {
        MIN_BACKOFF_SECS <= self@.backoff <= MAX_BACKOFF_SECS
    }

    /// A worker that starts, and the first that it does. It looks for programs that
    /// preempt only where there are some to look for. `hostname_file` holds the contents
    /// of the host name file, where it can be read.
    pub fn start(args: Args, hostname_file: Option<String>) -> (res: Result<
        (Worker, RunAction),
        UnknownGpu,
    >)
        ensures
            match res {
                Ok((worker, action)) => {
                    &&& worker.wf()
                    &&& worker@.args == args
                    &&& args.gpu@ == worker@.me.gpu.name()
                    &&& worker@.me.node_id@ == node_id_of(args.node_id, hostname_file)
                    &&& worker@.backoff == MIN_BACKOFF_SECS
                    &&& if args.preempt_triggers@.len() > 0 {
                        worker@.phase is Clearing && action is Look
                    } else {
                        worker@.phase is Surveying && action is Survey
                    }
                },
                Err(unknown) => unknown.given@ == args.gpu@ && forall|kind: GpuType|
                    args.gpu@ != #[trigger] kind.name(),
            },
    {
        let asked = args.node_id.clone();
        match identify(args.gpu.as_str(), asked, hostname_file) {
            Ok(me) => {
                let backoff = Backoff::new();
                if args.preempt_triggers.len() > 0 {
                    let phase = RunPhase::Clearing;
                    Ok((Worker { phase, args, me, vram_mb: 0, backoff }, RunAction::Look))
                } else {
                    let phase = RunPhase::Surveying;
                    Ok((Worker { phase, args, me, vram_mb: 0, backoff }, RunAction::Survey))
                }
            },
            Err(unknown) => Err(unknown),
        }
    }

    /// Who this worker is.
    pub fn identity(&self) -> (res: &Identity)
        ensures
            *res == self@.me,
    {
        &self.me
    }

    /// Whether `input` can happen now.
    pub fn expects(&self, input: &RunInput) -> (res: bool)
        ensures
            res == run_can(self@, *input),
    {
        match self.phase {
            RunPhase::Clearing => matches!(input, RunInput::Looked(_)),
            RunPhase::Surveying => match input {
                RunInput::Surveyed(devices) => total_gpu_vram_mb(devices).is_some(),
                _ => false,
            },
            RunPhase::Binding => matches!(input, RunInput::Bound),
            RunPhase::InSession => matches!(input, RunInput::SessionEnded(_)),
            RunPhase::Pausing => matches!(input, RunInput::Paused),
            RunPhase::Over => false,
        }
    }

    /// What the worker does to open a session.
    fn connect(&self) -> (action: RunAction)
        ensures
            action == RunAction::Connect(self@.args.coordinator, announced(self@)),
    {
        let me = announcement(
            &self.me.node_id,
            self.me.gpu,
            self.vram_mb,
            self.args.rpc_port,
            &self.args.preempt_triggers,
        );
        RunAction::Connect(self.args.coordinator.clone(), me)
    }

    /// One step of the worker. Its RPC server stays up across sessions.
    pub fn run(&mut self, input: RunInput) -> (action: RunAction)
        requires
            old(self).wf(),
            run_can(old(self)@, input),
        ensures
            final(self).wf(),
            final(self)@ == run_next(old(self)@, input),
            run_acts(old(self)@, input, action),
    {
        match input {
            RunInput::Looked(processes) => {
                match wait_for_preempt_clear(&self.args.preempt_triggers, &processes) {
                    Clearance::Wait(name, secs) => RunAction::WaitAndLook(name, secs),
                    Clearance::Clear => {
                        self.phase = RunPhase::Surveying;
                        RunAction::Survey
                    },
                }
            },
            RunInput::Surveyed(devices) => {
                match plan_offer(self.args.rpc_host.as_str(), self.args.rpc_port, &devices) {
                    Ok(offer) => {
                        self.phase = RunPhase::Binding;
                        self.vram_mb = offer.total_vram_mb;
                        RunAction::Serve(offer, RPC_BIND_SECS)
                    },
                    Err(nothing) => {
                        self.phase = RunPhase::Over;
                        RunAction::Fail(nothing)
                    },
                }
            },
            RunInput::Bound => {
                self.phase = RunPhase::InSession;
                self.connect()
            },
            RunInput::Paused => {
                self.phase = RunPhase::InSession;
                self.connect()
            },
            RunInput::SessionEnded(clean) => {
                self.phase = RunPhase::Pausing;
                RunAction::Pause(self.backoff.after_session(clean))
            },
        }
    }
}

/// `inputs` are what happened to a worker, `actions` are what it did about each of
/// them, and `states` are its states before each of them and after the last.
pub open spec fn worker_run(
    states: Seq<RunState>,
    inputs: Seq<RunInput>,
    actions: Seq<RunAction>,
) -> bool {
    &&& states.len() == inputs.len() + 1
    &&& actions.len() == inputs.len()
    &&& states[0].backoff == MIN_BACKOFF_SECS
    &&& states[0].phase is Clearing || states[0].phase is Surveying
    &&& forall|i: int|
        0 <= i < inputs.len() ==> run_can(states[i], #[trigger] inputs[i]) && states[i + 1]
            == run_next(states[i], inputs[i]) && run_acts(states[i], inputs[i], actions[i])
}

/// How the sessions among `inputs` ended, in order.
pub open spec fn sessions_of(inputs: Seq<RunInput>) -> Seq<bool>
    decreases inputs.len(),
{
    if inputs.len() == 0 {
        Seq::empty()
    } else {
        match inputs.last() {
            RunInput::SessionEnded(clean) => sessions_of(inputs.drop_last()).push(clean),
            _ => sessions_of(inputs.drop_last()),
        }
    }
}

/// The pauses among `actions`, in order.
pub open spec fn pauses_of(actions: Seq<RunAction>) -> Seq<u64>
    decreases actions.len(),
{
    if actions.len() == 0 {
        Seq::empty()
    } else {
        match actions.last() {
            RunAction::Pause(secs) => pauses_of(actions.drop_last()).push(secs),
            _ => pauses_of(actions.drop_last()),
        }
    }
}

/// A run of a worker without its last step is a run.
proof fn worker_run_shorter(
    states: Seq<RunState>,
    inputs: Seq<RunInput>,
    actions: Seq<RunAction>,
)
    requires
        worker_run(states, inputs, actions),
        inputs.len() > 0,
    ensures
        worker_run(states.drop_last(), inputs.drop_last(), actions.drop_last()),
{
    let front = inputs.drop_last();
    let done = actions.drop_last();
    let before = states.drop_last();
    assert forall|i: int| 0 <= i < front.len() implies run_can(before[i], #[trigger] front[i])
        && before[i + 1] == run_next(before[i], front[i]) && run_acts(
        before[i],
        front[i],
        done[i],
    ) by {
        assert(front[i] == inputs[i]);
    }
}

/// The pauses of a worker are those of its back-off. It gives the values that the
/// back-off went through.
proof fn pauses_back_off(
    states: Seq<RunState>,
    inputs: Seq<RunInput>,
    actions: Seq<RunAction>,
) -> (steps: Seq<int>)
    requires
        worker_run(states, inputs, actions),
    ensures
        backoff_run(steps, sessions_of(inputs), pauses_of(actions)),
        steps.last() == states.last().backoff,
    decreases inputs.len(),
{
    if inputs.len() == 0 {
        seq![states[0].backoff]
    } else {
        let n = inputs.len() - 1;
        worker_run_shorter(states, inputs, actions);
        let steps = pauses_back_off(states.drop_last(), inputs.drop_last(), actions.drop_last());
        assert(run_acts(states[n], inputs[n], actions[n]) && states[n + 1] == run_next(
            states[n],
            inputs[n],
        ));
        if let RunInput::SessionEnded(clean) = inputs[n] {
            let sessions = sessions_of(inputs);
            let waits = pauses_of(actions);
            let front = sessions_of(inputs.drop_last());
            let longer_steps = steps.push(states[n + 1].backoff);
            assert forall|i: int| 0 <= i < sessions.len() implies waits[i] == wait_on(
                longer_steps[i],
                #[trigger] sessions[i],
            ) && longer_steps[i + 1] == longer(waits[i] as int) by {
                if i < front.len() {
                    assert(front[i] == sessions[i]);
                }
            }
            longer_steps
        } else {
            steps
        }
    }
}

/// Between two sessions a worker pauses once: a second after a session that ended well
/// and after the first one, and otherwise twice as long as before, but never longer than
/// the bound.
pub proof fn worker_pauses_by_the_rule(
    states: Seq<RunState>,
    inputs: Seq<RunInput>,
    actions: Seq<RunAction>,
)
    requires
        worker_run(states, inputs, actions),
    ensures
        ({
            let sessions = sessions_of(inputs);
            let pauses = pauses_of(actions);
            &&& pauses.len() == sessions.len()
            &&& forall|i: int| 0 <= i < pauses.len() ==> #[trigger] delay_rule(sessions, pauses, i)
            &&& forall|i: int|
                0 <= i < pauses.len() ==> MIN_BACKOFF_SECS <= #[trigger] pauses[i]
                    <= MAX_BACKOFF_SECS
        }),
{
    let steps = pauses_back_off(states, inputs, actions);
    reconnect_delays(steps, sessions_of(inputs), pauses_of(actions));
}

/// A worker starts its RPC server once, before its first session, and offers the
/// coordinator in every session the memory of the GPUs that it serves.
pub proof fn worker_serves_before_it_connects(
    states: Seq<RunState>,
    inputs: Seq<RunInput>,
    actions: Seq<RunAction>,
)
    requires
        worker_run(states, inputs, actions),
    ensures
        forall|i: int, j: int|
            0 <= i < j < actions.len() ==> !((#[trigger] actions[i]) is Serve && (
            #[trigger] actions[j]) is Serve),
        forall|i: int|
            0 <= i < actions.len() && (#[trigger] actions[i]) is Connect ==> exists|j: int|
                0 <= j < i && (#[trigger] actions[j]) is Serve
                    && actions[j]->Serve_0.total_vram_mb == actions[i]->Connect_1.vram_mb,
{
    serving_in_order(states, inputs, actions);
}

/// What the phases of a worker tell of what it has done.
proof fn serving_in_order(states: Seq<RunState>, inputs: Seq<RunInput>, actions: Seq<RunAction>)
    requires
        worker_run(states, inputs, actions),
    ensures
        forall|i: int, j: int|
            0 <= i < j < actions.len() ==> !((#[trigger] actions[i]) is Serve && (
            #[trigger] actions[j]) is Serve),
        forall|i: int|
            0 <= i < actions.len() && (#[trigger] actions[i]) is Connect ==> exists|j: int|
                0 <= j < i && (#[trigger] actions[j]) is Serve
                    && actions[j]->Serve_0.total_vram_mb == actions[i]->Connect_1.vram_mb,
        ({
            let end = states.last();
            if end.phase is Clearing || end.phase is Surveying || end.phase is Over {
                forall|j: int| 0 <= j < actions.len() ==> !((#[trigger] actions[j]) is Serve)
            } else {
                exists|j: int|
                    0 <= j < actions.len() && (#[trigger] actions[j]) is Serve
                        && actions[j]->Serve_0.total_vram_mb == end.vram_mb
            }
        }),
    decreases inputs.len(),
{
    if inputs.len() > 0 {
        let n = inputs.len() - 1;
        let done = actions.drop_last();
        worker_run_shorter(states, inputs, actions);
        serving_in_order(states.drop_last(), inputs.drop_last(), done);
        assert(run_can(states[n], inputs[n]) && run_acts(states[n], inputs[n], actions[n]));
        assert forall|i: int| 0 <= i < n implies #[trigger] actions[i] == done[i] by {}
        let before = states[n];
        if before.phase is Clearing || before.phase is Surveying || before.phase is Over {
            assert forall|j: int| 0 <= j < n implies !((#[trigger] actions[j]) is Serve) by {
                assert(actions[j] == done[j]);
            }
        } else {
            let j = choose|j: int|
                0 <= j < done.len() && (#[trigger] done[j]) is Serve
                    && done[j]->Serve_0.total_vram_mb == before.vram_mb;
            assert(actions[j] == done[j]);
        }
        assert forall|i: int| 0 <= i < actions.len() && (
        #[trigger] actions[i]) is Connect implies exists|j: int|
            0 <= j < i && (#[trigger] actions[j]) is Serve && actions[j]->Serve_0.total_vram_mb
                == actions[i]->Connect_1.vram_mb by {
            if i < n {
                assert(done[i] is Connect);
                let j = choose|j: int|
                    0 <= j < i && (#[trigger] done[j]) is Serve
                        && done[j]->Serve_0.total_vram_mb == done[i]->Connect_1.vram_mb;
                assert(actions[j] == done[j]);
            }
        }
    }
}

} // verus!
