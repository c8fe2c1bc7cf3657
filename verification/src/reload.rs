//! How llama-swap is brought to a new plan: its configuration is written, the
//! instance that runs is stopped, and another one is started.
use crate::coord::generate_swap_config;
use crate::coord::offers;
use crate::coord::Config;
use crate::coord::SwapConfig;
use crate::text::views;
use crate::topology::TopologyPlan;
use vstd::prelude::*;

verus! {

/// A program and its arguments.
pub struct SwapCommand {
    pub program: String,
    pub args: Vec<String>,
}

/// The outcome of a step of a reload.
pub enum ReloadEvent {
    /// The configuration could not be rendered, for this reason.
    RenderFailed(String),
    /// The configuration file could not be written.
    WriteFailed,
    /// The configuration file is written.
    Written,
    /// The instance that ran is stopped.
    Stopped,
    /// The new instance could not be started.
    StartFailed,
    /// The new instance runs.
    Started,
}

/// Why a reload failed.
#[derive(Debug)]
pub enum ReloadError {
    /// The configuration could not be rendered, for this reason.
    Render(String),
    Write,
    Start,
}

impl ReloadError {
    /// The text of the message for the user.
    pub open spec fn text(self) -> Seq<char> {
        match self {
            ReloadError::Render(reason) => reason@,
            ReloadError::Write => "failed to write swap config"@,
            ReloadError::Start => "failed to start llama-swap"@,
        }
    }

    /// The message for the user.
    pub fn message(&self) -> (res: String)
        ensures
            res@ == self.text(),
    {
        match self {
            ReloadError::Render(reason) => reason.clone(),
            ReloadError::Write => "failed to write swap config".to_owned(),
            ReloadError::Start => "failed to start llama-swap".to_owned(),
        }
    }
}

/// The next step of a reload.
pub enum ReloadAction {
    /// Make the directory of this file, and write the configuration to the file.
    Write { path: String, config: SwapConfig },
    /// Stop the instance that runs and wait for its end.
    Stop,
    /// Start an instance and keep hold of it.
    Start(SwapCommand),
    /// The reload is complete.
    Done,
    /// The reload is given up.
    Fail(ReloadError),
}

/// `command` starts llama-swap as `config` says.
pub open spec fn starts_swap(command: SwapCommand, config: Config) -> bool {
    &&& command.program == config.swap_bin
    &&& views(command.args@) == seq![
        "-config"@,
        config.swap_config_path@,
        "-listen"@,
        config.swap_listen@,
    ]
}

/// The step that follows `event`, where `has_child` tells whether an instance was
/// started before.
pub open spec fn reload_continues(
    config: Config,
    has_child: bool,
    event: ReloadEvent,
    action: ReloadAction,
) -> bool {
    match event {
        ReloadEvent::RenderFailed(reason) => action == ReloadAction::Fail(
            ReloadError::Render(reason),
        ),
        ReloadEvent::WriteFailed => action == ReloadAction::Fail(ReloadError::Write),
        ReloadEvent::Written => if has_child {
            action is Stop
        } else {
            action is Start && starts_swap(action->Start_0, config)
        },
        ReloadEvent::Stopped => action is Start && starts_swap(action->Start_0, config),
        ReloadEvent::StartFailed => action == ReloadAction::Fail(ReloadError::Start),
        ReloadEvent::Started => action is Done,
    }
}

/// The command that starts llama-swap.
pub fn swap_command(config: &Config) -> (command: SwapCommand)
    ensures
        starts_swap(command, *config),
{
    let args = vec![
        "-config".to_owned(),
        config.swap_config_path.clone(),
        "-listen".to_owned(),
        config.swap_listen.clone(),
    ];
    proof {
        assert(views(args@) =~= seq![
            "-config"@,
            config.swap_config_path@,
            "-listen"@,
            config.swap_listen@,
        ]);
    }
    SwapCommand { program: config.swap_bin.clone(), args }
}

/// The first step of a reload: the configuration for `plan` is written.
pub fn begin_reload(config: &Config, plan: &TopologyPlan) -> (action: ReloadAction)
    ensures
        action is Write,
        action->path == config.swap_config_path,
        action->config.health_check_timeout == 600,
        action->config.log_level@ == "info"@,
        action->config.models.wf(),
        offers(action->config.models@, *config, plan@, config.models@.len() as int),
{
    ReloadAction::Write {
        path: config.swap_config_path.clone(),
        config: generate_swap_config(config, plan),
    }
}

/// Whether an instance has been started, by the outcome of one more step.
pub open spec fn holds_child(has_child: bool, event: ReloadEvent) -> bool {
    has_child || event is Started
}

/// Whether an instance of llama-swap has been started.
pub struct Swap {
    has_child: bool,
}

impl View for Swap {
    type V = bool;

    closed spec fn view(&self) -> bool {
        self.has_child
    }
}

impl Swap {
    /// No instance has been started.
    pub fn new() -> (res: Self)
        ensures
            !res@,
    {
        Swap { has_child: false }
    }

    /// The further steps of a reload. The instance that runs is stopped only once the
    /// new configuration is written, and a new one is started only once the old one is
    /// gone.
    pub fn write_and_reload_swap(&mut self, config: &Config, event: ReloadEvent) -> (action:
        ReloadAction)
        ensures
            final(self)@ == holds_child(old(self)@, event),
            reload_continues(*config, old(self)@, event, action),
    {
        match event {
            ReloadEvent::RenderFailed(reason) => ReloadAction::Fail(ReloadError::Render(reason)),
            ReloadEvent::WriteFailed => ReloadAction::Fail(ReloadError::Write),
            ReloadEvent::Written => {
                if self.has_child {
                    ReloadAction::Stop
                } else {
                    ReloadAction::Start(swap_command(config))
                }
            },
            ReloadEvent::Stopped => ReloadAction::Start(swap_command(config)),
            ReloadEvent::StartFailed => ReloadAction::Fail(ReloadError::Start),
            ReloadEvent::Started => {
                self.has_child = true;
                ReloadAction::Done
            },
        }
    }
}

/// Whether an instance has been started after `events`.
pub open spec fn held_after(has_child: bool, events: Seq<ReloadEvent>) -> bool
    decreases events.len(),
{
    if events.len() == 0 {
        has_child
    } else {
        holds_child(held_after(has_child, events.drop_last()), events.last())
    }
}

/// Whether `event` can be what came of `action`.
pub open spec fn reload_outcome(action: ReloadAction, event: ReloadEvent) -> bool {
    match action {
        ReloadAction::Write { .. } => event is RenderFailed || event is WriteFailed || event is Written,
        ReloadAction::Stop => event is Stopped,
        ReloadAction::Start(_) => event is StartFailed || event is Started,
        ReloadAction::Done | ReloadAction::Fail(_) => false,
    }
}

/// `actions` are the steps of a reload so far, and `events` are what came of all of
/// them but the last. `has_child` tells whether an instance was started before it.
pub open spec fn reload_run(
    config: Config,
    has_child: bool,
    actions: Seq<ReloadAction>,
    events: Seq<ReloadEvent>,
) -> bool {
    &&& actions.len() == events.len() + 1
    &&& actions[0] is Write
    &&& forall|i: int|
        0 <= i < events.len() ==> reload_outcome(actions[i], #[trigger] events[i])
            && reload_continues(
            config,
            held_after(has_child, events.take(i)),
            events[i],
            actions[i + 1],
        )
}

/// How a reload goes, whatever comes of its steps. At most one instance is started:
/// after the configuration is written and, where an instance was started before, after
/// that one is stopped. Only such an instance is stopped, once, and only after the
/// configuration is written. A reload that cannot write it stops and starts nothing, so
/// the old instance outlives it. A reload is complete exactly once the new instance
/// runs, and is given up exactly where a step fails.
pub proof fn reload_goes_in_order(
    config: Config,
    has_child: bool,
    actions: Seq<ReloadAction>,
    events: Seq<ReloadEvent>,
)
    requires
        reload_run(config, has_child, actions, events),
    ensures
        forall|i: int, j: int|
            0 <= i < j < actions.len() ==> !((#[trigger] actions[i]) is Start && (
            #[trigger] actions[j]) is Start),
        forall|i: int, j: int|
            0 <= i < j < actions.len() ==> !((#[trigger] actions[i]) is Stop && (
            #[trigger] actions[j]) is Stop),
        forall|i: int|
            0 <= i < actions.len() && (#[trigger] actions[i]) is Start ==> {
                &&& starts_swap(actions[i]->Start_0, config)
                &&& i > 0 && events[0] is Written
                &&& has_child ==> i > 1 && events[1] is Stopped
            },
        forall|i: int|
            0 <= i < actions.len() && (#[trigger] actions[i]) is Stop ==> has_child && i > 0
                && events[0] is Written,
        events.len() > 0 && !(events[0] is Written) ==> forall|i: int|
            0 <= i < actions.len() ==> !((#[trigger] actions[i]) is Stop) && !(
            actions[i] is Start),
        actions.last() is Done <==> events.len() > 0 && events.last() is Started,
        actions.last() is Done ==> actions[actions.len() - 2] is Start,
        actions.last() is Fail <==> events.len() > 0 && (events.last() is RenderFailed
            || events.last() is WriteFailed || events.last() is StartFailed),
{
    assert forall|i: int| 0 <= i < actions.len() implies on_course(
        config,
        has_child,
        #[trigger] actions[i],
        events,
        i,
    ) by {
        reload_stays_on_course(config, has_child, actions, events, i);
    }
    if events.len() > 0 {
        let n = events.len() - 1;
        assert(reload_outcome(actions[n], events[n]));
        reload_stays_on_course(config, has_child, actions, events, n);
    }
}

/// The place of a step in a reload in which no step fails.
spec fn step_of(has_child: bool, action: ReloadAction) -> int {
    let stops: int = if has_child {
        1
    } else {
        0
    };
    match action {
        ReloadAction::Write { .. } => 0,
        ReloadAction::Stop => 1,
        ReloadAction::Start(_) => 1 + stops,
        ReloadAction::Done => 2 + stops,
        ReloadAction::Fail(_) => 3 + stops,
    }
}

/// Step `i` of a reload, `action`, comes at its place, after what must come before it.
spec fn on_course(
    config: Config,
    has_child: bool,
    action: ReloadAction,
    events: Seq<ReloadEvent>,
    i: int,
) -> bool {
    &&& action is Done || held_after(has_child, events.take(i)) == has_child
    &&& action is Fail || step_of(has_child, action) == i
    &&& action is Fail ==> i > 0
    &&& action is Stop ==> has_child
    &&& action is Stop || action is Start || action is Done ==> events[0] is Written
    &&& action is Start ==> starts_swap(action->Start_0, config)
    &&& has_child && (action is Start || action is Done) ==> events[1] is Stopped
}

/// Every step of a reload comes at its place.
proof fn reload_stays_on_course(
    config: Config,
    has_child: bool,
    actions: Seq<ReloadAction>,
    events: Seq<ReloadEvent>,
    i: int,
)
    requires
        reload_run(config, has_child, actions, events),
        0 <= i < actions.len(),
    ensures
        on_course(config, has_child, actions[i], events, i),
    decreases i,
{
    if i > 0 {
        reload_stays_on_course(config, has_child, actions, events, i - 1);
        assert(reload_outcome(actions[i - 1], events[i - 1]));
        assert(events.take(i).drop_last() == events.take(i - 1));
    }
}

/// Whether the instance that was started last has yet to be stopped, after `events`.
pub open spec fn left_running(running: bool, events: Seq<ReloadEvent>) -> bool
    decreases events.len(),
{
    if events.len() == 0 {
        running
    } else {
        match events.last() {
            ReloadEvent::Started => true,
            ReloadEvent::Stopped => false,
            _ => left_running(running, events.drop_last()),
        }
    }
}

/// However often llama-swap is reloaded, an instance is started only where none was
/// left running. What is required of the start of a reload holds at its end, and so
/// at the start of the next one.
pub proof fn one_instance_at_a_time(
    config: Config,
    has_child: bool,
    running: bool,
    actions: Seq<ReloadAction>,
    events: Seq<ReloadEvent>,
)
    requires
        reload_run(config, has_child, actions, events),
        running ==> has_child,
    ensures
        actions.last() is Start ==> !left_running(running, events),
        left_running(running, events) ==> held_after(has_child, events),
    decreases events.len(),
{
    let n = events.len() as int;
    reload_stays_on_course(config, has_child, actions, events, n);
    assert(events.take(n) == events);
    if n > 0 {
        let front = events.drop_last();
        let done = actions.drop_last();
        assert(reload_run(config, has_child, done, front)) by {
            assert forall|i: int| 0 <= i < front.len() implies reload_outcome(
                done[i],
                #[trigger] front[i],
            ) && reload_continues(
                config,
                held_after(has_child, front.take(i)),
                front[i],
                done[i + 1],
            ) by {
                assert(front[i] == events[i] && front.take(i) == events.take(i));
            }
        }
        one_instance_at_a_time(config, has_child, running, done, front);
        reload_stays_on_course(config, has_child, actions, events, n - 1);
        assert(reload_outcome(actions[n - 1], events[n - 1]));
        assert(events.take(n - 1) == front);
    }
}

} // verus!
