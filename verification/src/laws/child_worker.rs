//! The worker whose RPC server is a child process.
use crate::child_worker::settings;
use crate::child_worker::start_rpc_server;
use crate::child_worker::Args;
use crate::child_worker::ChildAction;
use crate::child_worker::ChildError;
use crate::child_worker::ChildInput;
use crate::child_worker::ChildSession;
use crate::child_worker::RpcCommand;
use crate::laws::text::decimal_is_numeral;
use crate::laws::text::is_numeral;
use crate::laws::text::texts;
use crate::laws::text::views_are_texts;
use crate::laws::worker::any_shows;
use crate::laws::worker::hangs_up;
use crate::laws::worker::running_is_shown;
use crate::laws::worker::says_launched;
use crate::protocol::GpuType;
use crate::protocol::WorkerAnnounce;
use crate::protocol::WorkerMsg;
use vstd::prelude::*;

verus! {

/// The RPC server is started on the host and port that were told, with the extra
/// arguments behind, in order. It sees the devices that it was told to, where it was
/// told, by the variable of its kind of GPU, and for ROCm takes the version override.
pub proof fn rpc_server_is_started_as_told(args: &Args, gpu: GpuType, command: RpcCommand)
    requires
        call_ensures(start_rpc_server, (args, gpu), command),
    ensures
        command.program@ == args.rpc_bin@,
        ({
            let words = texts(command.args@);
            &&& words.len() == 4 + args.extra_rpc_args@.len()
            &&& words[0] == "-H"@
            &&& words[1] == args.rpc_host@
            &&& words[2] == "-p"@
            &&& is_numeral(words[3], args.rpc_port as int)
            &&& forall|i: int|
                0 <= i < args.extra_rpc_args@.len() ==> words[4 + i] == (
                #[trigger] args.extra_rpc_args@[i])@
        }),
        ({
            let env = command.env@;
            let devices = if args.visible_devices is Some {
                1int
            } else {
                0
            };
            let version = if args.rocm_version is Some {
                1int
            } else {
                0
            };
            match gpu {
                GpuType::Cuda => {
                    &&& env.len() == devices
                    &&& args.visible_devices matches Some(value) ==> env[0].0@
                        == "CUDA_VISIBLE_DEVICES"@ && env[0].1@ == value@
                },
                GpuType::Rocm => {
                    &&& env.len() == devices + version
                    &&& args.visible_devices matches Some(value) ==> env[0].0@
                        == "ROCR_VISIBLE_DEVICES"@ && env[0].1@ == value@
                    &&& args.rocm_version matches Some(value) ==> env[devices].0@
                        == "HSA_OVERRIDE_GFX_VERSION"@ && env[devices].1@ == value@
                },
                GpuType::Cpu => env.len() == 0,
            }
        }),
{
    views_are_texts(command.args@);
    views_are_texts(args.extra_rpc_args@);
    decimal_is_numeral(args.rpc_port as nat);
    let words = texts(command.args@);
    assert forall|i: int| 0 <= i < args.extra_rpc_args@.len() implies words[4 + i] == (
    #[trigger] args.extra_rpc_args@[i])@ by {
        assert(texts(args.extra_rpc_args@)[i] == args.extra_rpc_args@[i]@);
    }
    let env = command.env@;
    assert(settings(env).len() == env.len());
    assert forall|i: int| 0 <= i < env.len() implies (#[trigger] settings(env)[i]) == (
        env[i].0@,
        env[i].1@,
    ) by {}
    if env.len() > 0 {
        assert(settings(env)[0] == (env[0].0@, env[0].1@));
    }
    if env.len() > 1 {
        assert(settings(env)[1] == (env[1].0@, env[1].1@));
    }
}

/// What can come after a session has done `action`.
pub open spec fn may_follow(action: ChildAction, input: ChildInput) -> bool {
    match action {
        ChildAction::Connect(_, _) => input is Connected || input is ConnectFailed,
        ChildAction::Announce(_) => input is AnnounceSent || input is AnnounceFailed
            || input is RenderFailed,
        ChildAction::Listen(_) | ChildAction::Wait | ChildAction::Pong(_) => input is Received
            || input is Preempted || input is NoWatcher || input is RpcExited,
        ChildAction::Vacate(_) => input is Vacated,
        ChildAction::Look(_) => input is Looked,
        ChildAction::End | ChildAction::Fail(_) => false,
    }
}

/// A session starts the RPC server first, for the worker and the coordinator that it is
/// for.
pub proof fn session_starts_the_server_first(
    me: WorkerAnnounce,
    coordinator: String,
    session: ChildSession,
    asked: ChildInput,
    expected: bool,
)
    requires
        call_ensures(ChildSession::new, (me, coordinator), session),
        call_ensures(ChildSession::expects, (&session, &asked), expected),
    ensures
        session@.me == me,
        session@.coordinator == coordinator,
        expected == (asked is RpcStarted || asked is RpcStartFailed),
{
}

/// A session gives the RPC server a second, connects to its coordinator, announces its
/// worker, and listens, as long as the connection and the RPC server last. When a
/// program preempts it, it says so, stops the RPC server, and ends only after a look,
/// one every five seconds, at which no process shows that program.
pub proof fn session_does_what_is_due(
    session: &mut ChildSession,
    input: ChildInput,
    action: ChildAction,
    asked: ChildInput,
    expected: bool,
)
    requires
        call_ensures(ChildSession::expects, (&*old(session), &input), true),
        call_ensures(ChildSession::run_session, (session, input), action),
        call_ensures(ChildSession::expects, (&*final(session), &asked), expected),
    ensures
        final(session)@.me == old(session)@.me,
        final(session)@.coordinator == old(session)@.coordinator,
        expected == may_follow(action, asked),
        !(input is Preempted) ==> final(session)@.program == old(session)@.program,
        match input {
            ChildInput::RpcStarted => action matches ChildAction::Connect(secs, url) && secs == 1
                && url@ == old(session)@.coordinator@,
            ChildInput::RpcStartFailed => action matches ChildAction::Fail(ChildError::StartRpc),
            ChildInput::Connected => action matches ChildAction::Announce(
                WorkerMsg::Announce(announced),
            ) && announced == old(session)@.me,
            ChildInput::ConnectFailed => action matches ChildAction::Fail(ChildError::Connect),
            ChildInput::RenderFailed(reason) => action matches ChildAction::Fail(
                ChildError::Render(given),
            ) && given@ == reason@,
            ChildInput::AnnounceSent => action == ChildAction::Listen(old(session)@.me.preemptible),
            ChildInput::AnnounceFailed => action matches ChildAction::Fail(ChildError::Announce),
            ChildInput::Received(incoming) => if hangs_up(incoming) {
                action is End
            } else if incoming is Ping {
                action matches ChildAction::Pong(data) && data@ == incoming->Ping_0@
            } else {
                action is Wait
            },
            ChildInput::Preempted(program) => action matches ChildAction::Vacate(msg)
                && says_launched(msg, program@) && final(session)@.program@ == program@,
            ChildInput::NoWatcher => action is Wait,
            ChildInput::RpcExited => action is End,
            ChildInput::Vacated => action == ChildAction::Look(5),
            ChildInput::Looked(processes) => if any_shows(
                processes@,
                old(session)@.program@,
            ) {
                action == ChildAction::Look(5)
            } else {
                action is End
            },
        },
{
    if let ChildInput::Looked(processes) = input {
        running_is_shown(processes@, old(session)@.program@);
    }
}

/// What is said of a session that failed.
pub proof fn session_errors_are_said(error: &ChildError, res: String)
    requires
        call_ensures(ChildError::message, (error,), res),
    ensures
        match *error {
            ChildError::StartRpc => res@ == "failed to start llama-rpc-server"@,
            ChildError::Connect => res@ == "failed to connect to coordinator"@,
            ChildError::Render(reason) => res@ == reason@,
            ChildError::Announce => res@ == "failed to send announce"@,
        },
{
}

} // verus!
