//! What reports do to the workers, and when and how llama-swap is reloaded.
use crate::coord::apply_event;
use crate::coord::unchanged_means_untouched;
use crate::coord::Config;
use crate::coord::CoordEvent;
use crate::coord::Workers;
use crate::coordinator::CoordAction;
use crate::coordinator::CoordInput;
use crate::coordinator::Coordinator;
use crate::laws::plan::offered_models_are_offered;
use crate::laws::plan::offers_models;
use crate::laws::plan::plan_follows;
use crate::laws::plan::planned_is_spread;
use crate::laws::plan::splits;
use crate::laws::plan::spreads;
use crate::laws::text::is_numeral;
use crate::laws::text::strung;
use crate::laws::text::texts;
use crate::laws::text::views_are_texts;
use crate::reload::begin_reload;
use crate::reload::swap_command;
use crate::reload::ReloadAction;
use crate::reload::ReloadError;
use crate::reload::ReloadEvent;
use crate::reload::Swap;
use crate::reload::SwapCommand;
use crate::table::entry_is_content;
use crate::table::Table;
use crate::topology::values_of;
use crate::topology::ConnectedWorker;
use crate::topology::TopologyPlan;
use vstd::prelude::*;

verus! {

/// `after` is `before` but for what `node` holds.
pub open spec fn others_kept(before: Workers, after: Workers, node: Seq<char>) -> bool {
    forall|other: Seq<char>|
        #![trigger after.contains_key(other)]
        #![trigger before.contains_key(other)]
        other != node ==> after.contains_key(other) == before.contains_key(other) && (
        before.contains_key(other) ==> after[other] == before[other])
}

/// The worker under `node` is there by connection `conn_id`.
pub open spec fn is_there_by(workers: Workers, node: Seq<char>, conn_id: u64) -> bool {
    workers.contains_key(node) && workers[node].conn_id == conn_id
}

/// `after` is what `event` makes of `before`, and `changed` tells whether it calls for a
/// new plan.
pub open spec fn event_does(
    before: Workers,
    event: CoordEvent,
    after: Workers,
    changed: bool,
) -> bool {
    match event {
        CoordEvent::Joined { conn_id, node_id, announce, proxy_port } => {
            &&& changed
            &&& others_kept(before, after, node_id@)
            &&& after.contains_key(node_id@)
            &&& after[node_id@].conn_id == conn_id
            &&& after[node_id@].announce == announce
            &&& after[node_id@].proxy_port == proxy_port
            &&& !after[node_id@].draining
        },
        CoordEvent::Left { conn_id, node_id } => {
            &&& changed == is_there_by(before, node_id@, conn_id)
            &&& others_kept(before, after, node_id@)
            &&& changed ==> !after.contains_key(node_id@)
            &&& !changed ==> after == before
        },
        CoordEvent::Draining { conn_id, node_id } => {
            &&& changed == (is_there_by(before, node_id@, conn_id) && !before[node_id@].draining)
            &&& others_kept(before, after, node_id@)
            &&& changed ==> only_draining_differs(before, after, node_id@, true)
            &&& !changed ==> after == before
        },
        CoordEvent::Resuming { conn_id, node_id } => {
            &&& changed == (is_there_by(before, node_id@, conn_id) && before[node_id@].draining)
            &&& others_kept(before, after, node_id@)
            &&& changed ==> only_draining_differs(before, after, node_id@, false)
            &&& !changed ==> after == before
        },
    }
}

/// The worker under `node` is as it was, but that it is draining or not, as told.
pub open spec fn only_draining_differs(
    before: Workers,
    after: Workers,
    node: Seq<char>,
    draining: bool,
) -> bool {
    &&& after.contains_key(node)
    &&& after[node].conn_id == before[node].conn_id
    &&& after[node].announce == before[node].announce
    &&& after[node].proxy_port == before[node].proxy_port
    &&& after[node].draining == draining
}

/// A report changes the entry of its node, and no other: joining enters the worker as it
/// announced itself and ready; leaving, draining and resuming count only from the
/// connection by which the worker is there, and only where they say something new.
pub proof fn report_changes_its_node_only(
    workers: &mut Table<ConnectedWorker>,
    event: CoordEvent,
    changed: bool,
)
    requires
        call_ensures(apply_event, (workers, event), changed),
    ensures
        final(workers).wf(),
        event_does(old(workers)@, event, final(workers)@, changed),
{
}

/// `entries` lists the workers, each once, under its name.
pub open spec fn lists_workers(
    entries: Seq<(Seq<char>, ConnectedWorker)>,
    workers: Workers,
) -> bool {
    &&& forall|i: int|
        0 <= i < entries.len() ==> workers.contains_key((#[trigger] entries[i]).0)
            && workers[entries[i].0] == entries[i].1
    &&& forall|i: int, j: int|
        0 <= i < j < entries.len() ==> (#[trigger] entries[i]).0 != (#[trigger] entries[j]).0
    &&& forall|name: Seq<char>| #[trigger]
        workers.contains_key(name) ==> exists|i: int|
            0 <= i < entries.len() && (#[trigger] entries[i]).0 == name
}

/// The workers of a list, without their names.
pub open spec fn unnamed(entries: Seq<(Seq<char>, ConnectedWorker)>) -> Seq<ConnectedWorker> {
    Seq::new(entries.len(), |i: int| entries[i].1)
}

/// `plan` is for the coordinator as it is: it spreads a model over all of its workers
/// that are ready, by the memory of the coordinator's own machine and theirs.
pub open spec fn plan_is_for(plan: TopologyPlan, coordinator: Coordinator) -> bool {
    &&& lists_workers(coordinator.entries(), coordinator.state().workers)
    &&& spreads(coordinator.local_vram_mb(), unnamed(coordinator.entries()), plan)
}

/// A coordinator whose loop is in order lists its workers.
proof fn coordinator_lists_its_workers(coordinator: Coordinator)
    requires
        coordinator.wf(),
    ensures
        lists_workers(coordinator.entries(), coordinator.state().workers),
        values_of(coordinator.entries()) == unnamed(coordinator.entries()),
{
    let entries = coordinator.entries();
    assert forall|i: int| 0 <= i < entries.len() implies coordinator.state().workers.contains_key(
        (#[trigger] entries[i]).0,
    ) && coordinator.state().workers[entries[i].0] == entries[i].1 by {
        entry_is_content(entries, i);
    }
    assert(values_of(entries) =~= unnamed(entries));
}

/// The coordinator starts without workers, with the local memory that it was given, and
/// loads llama-swap before anything else.
pub proof fn coordinator_starts_with_a_reload(
    local_vram_mb: u64,
    res: (Coordinator, CoordAction),
    asked: CoordInput,
    expected: bool,
)
    requires
        call_ensures(Coordinator::start, (local_vram_mb,), res),
        call_ensures(Coordinator::awaits, (&res.0, &asked), expected),
    ensures
        res.0.wf(),
        res.0.local_vram_mb() == local_vram_mb,
        forall|name: Seq<char>| !(#[trigger] res.0.state().workers.contains_key(name)),
        res.1 matches CoordAction::Reload(plan) && plan_is_for(plan, res.0),
        expected == (asked is Reloaded || asked is ReloadFailed),
{
    coordinator_lists_its_workers(res.0);
    if let CoordAction::Reload(plan) = res.1 {
        planned_is_spread(local_vram_mb, values_of(res.0.entries()), plan);
    }
}

/// Whatever a coordinator reloads with is a plan for exactly the workers that are there
/// then, with the local memory. Nothing changes the local memory, and nothing but
/// reports changes the workers: each report does what it does to a table.
pub proof fn coordinator_reloads_with_the_current_plan(
    coordinator: &mut Coordinator,
    input: CoordInput,
    action: CoordAction,
)
    requires
        old(coordinator).wf(),
        call_ensures(Coordinator::awaits, (&*old(coordinator), &input), true),
        call_ensures(Coordinator::coordinator_task, (coordinator, input), action),
    ensures
        final(coordinator).wf(),
        final(coordinator).local_vram_mb() == old(coordinator).local_vram_mb(),
        action matches CoordAction::Reload(plan) ==> plan_is_for(plan, *final(coordinator)),
        match input {
            CoordInput::Report(event) => exists|changed: bool| #[trigger]
                event_does(
                    old(coordinator).state().workers,
                    event,
                    final(coordinator).state().workers,
                    changed,
                ),
            _ => final(coordinator).state().workers == old(coordinator).state().workers,
        },
{
    coordinator_lists_its_workers(*final(coordinator));
    if let CoordAction::Reload(plan) = action {
        planned_is_spread(
            final(coordinator).local_vram_mb(),
            values_of(final(coordinator).entries()),
            plan,
        );
    }
    if let CoordInput::Report(event) = input {
        let before = old(coordinator).state().workers;
        let after = final(coordinator).state().workers;
        assert(event_does(before, event, after, true) || event_does(before, event, after, false));
    }
}

/// Where there is local memory and a worker is ready, the first share of the split is
/// the local memory, and there is one share more than there are endpoints.
pub proof fn local_memory_is_the_first_share(
    coordinator: &mut Coordinator,
    input: CoordInput,
    action: CoordAction,
    name: Seq<char>,
)
    requires
        old(coordinator).wf(),
        old(coordinator).local_vram_mb() > 0,
        call_ensures(Coordinator::awaits, (&*old(coordinator), &input), true),
        call_ensures(Coordinator::coordinator_task, (coordinator, input), action),
        action is Reload,
        final(coordinator).state().workers.contains_key(name),
        !final(coordinator).state().workers[name].draining,
    ensures
        ({
            let plan = action->Reload_0;
            &&& plan.rpc_endpoints@.len() > 0
            &&& plan.tensor_split is Some
            &&& exists|shares: Seq<Seq<char>>| #[trigger]
                strung(shares, ","@) == plan.tensor_split->0@ && shares.len()
                    == plan.rpc_endpoints@.len() + 1 && is_numeral(
                    shares[0],
                    old(coordinator).local_vram_mb() as int,
                )
        }),
{
    coordinator_reloads_with_the_current_plan(coordinator, input, action);
    let plan = action->Reload_0;
    let local = final(coordinator).local_vram_mb();
    let entries = final(coordinator).entries();
    let workers = unnamed(entries);
    let order = choose|order: Seq<int>| #[trigger] plan_follows(local, workers, plan, order);
    let p = choose|p: int| 0 <= p < entries.len() && (#[trigger] entries[p]).0 == name;
    assert(!workers[p].draining);
    let k = choose|k: int| 0 <= k < order.len() && #[trigger] order[k] == p;
    let split = plan.tensor_split->0;
    let shares = choose|shares: Seq<Seq<char>>| #[trigger]
        splits(local, workers, order, split@, shares);
    assert(strung(shares, ","@) == split@);
}

/// A report that changes something starts a pause of half a second, one that changes
/// nothing does not; what is reported by the end of the pause is gathered without
/// another pause, and then follows one reload, whatever was gathered.
pub proof fn coordinator_lets_reports_settle(
    coordinator: &mut Coordinator,
    input: CoordInput,
    action: CoordAction,
    idle: bool,
    gathering: bool,
)
    requires
        old(coordinator).wf(),
        call_ensures(Coordinator::awaits, (&*old(coordinator), &input), true),
        call_ensures(Coordinator::awaits, (&*old(coordinator), &CoordInput::Closed), idle),
        call_ensures(Coordinator::awaits, (&*old(coordinator), &CoordInput::NoMore), gathering),
        call_ensures(Coordinator::coordinator_task, (coordinator, input), action),
    ensures
        input is Report ==> idle || gathering,
        input matches CoordInput::Report(event) ==> if gathering {
            action is Poll
        } else if event is Joined || final(coordinator).state().workers != old(
            coordinator,
        ).state().workers {
            action == CoordAction::Settle(500)
        } else {
            action is Receive
        },
        input is Settled ==> action is Poll,
        action is Settle ==> input is Report,
        action is Reload <==> input is NoMore,
        input is Closed ==> action is Finish,
        input is Reloaded ==> action is Receive,
        input is ReloadFailed ==> action is Receive || action is Fail,
{
    if let CoordInput::Report(event) = input {
        unchanged_means_untouched(old(coordinator).state().workers, event);
    }
}

/// What a coordinator awaits after each of its actions.
pub proof fn coordinator_awaits_what_it_acts_for(
    coordinator: &mut Coordinator,
    input: CoordInput,
    action: CoordAction,
    asked: CoordInput,
    expected: bool,
)
    requires
        old(coordinator).wf(),
        call_ensures(Coordinator::awaits, (&*old(coordinator), &input), true),
        call_ensures(Coordinator::coordinator_task, (coordinator, input), action),
        call_ensures(Coordinator::awaits, (&*final(coordinator), &asked), expected),
    ensures
        expected == match action {
            CoordAction::Reload(_) => asked is Reloaded || asked is ReloadFailed,
            CoordAction::Receive => asked is Report || asked is Closed,
            CoordAction::Settle(_) => asked is Settled,
            CoordAction::Poll => asked is Report || asked is NoMore,
            CoordAction::Finish | CoordAction::Fail => false,
        },
{
}

/// A coordinator that cannot load llama-swap at its start gives up.
pub proof fn first_reload_must_succeed(
    local_vram_mb: u64,
    started: (Coordinator, CoordAction),
    coordinator: &mut Coordinator,
    input: CoordInput,
    action: CoordAction,
)
    requires
        call_ensures(Coordinator::start, (local_vram_mb,), started),
        *old(coordinator) == started.0,
        call_ensures(Coordinator::awaits, (&*old(coordinator), &input), true),
        call_ensures(Coordinator::coordinator_task, (coordinator, input), action),
    ensures
        action is Fail <==> input is ReloadFailed,
        action is Receive <==> input is Reloaded,
{
}

/// After a reload that was not the first, the loop goes on, whether it failed or not.
pub proof fn failed_reload_is_survived(
    coordinator: &mut Coordinator,
    again: &mut Coordinator,
    action: CoordAction,
    outcome: CoordInput,
    next: CoordAction,
)
    requires
        old(coordinator).wf(),
        call_ensures(Coordinator::awaits, (&*old(coordinator), &CoordInput::NoMore), true),
        call_ensures(Coordinator::coordinator_task, (coordinator, CoordInput::NoMore), action),
        *old(again) == *final(coordinator),
        outcome is Reloaded || outcome is ReloadFailed,
        call_ensures(Coordinator::coordinator_task, (again, outcome), next),
    ensures
        action is Reload,
        next is Receive,
{
}

/// A reload writes the configuration for the plan to the file that is configured.
pub proof fn reload_writes_the_plan(
    config: &Config,
    plan: &TopologyPlan,
    action: ReloadAction,
)
    requires
        call_ensures(begin_reload, (config, plan), action),
    ensures
        action matches ReloadAction::Write { path, config: swap } && path@
            == config.swap_config_path@ && offers_models(swap, *config, *plan),
{
    offered_models_are_offered(action->config, *config, *plan);
}

/// `command` starts llama-swap with the file that is configured, on the address that is
/// configured.
pub open spec fn runs_swap(command: SwapCommand, config: Config) -> bool {
    &&& command.program@ == config.swap_bin@
    &&& texts(command.args@) == seq![
        "-config"@,
        config.swap_config_path@,
        "-listen"@,
        config.swap_listen@,
    ]
}

/// The command starts llama-swap as configured.
pub proof fn swap_command_runs_swap(config: &Config, command: SwapCommand)
    requires
        call_ensures(swap_command, (config,), command),
    ensures
        runs_swap(command, *config),
{
    views_are_texts(command.args@);
}

/// What follows each outcome of a reload's steps. Once an instance was started, it is
/// stopped before another is.
pub proof fn reload_follows_its_outcomes(
    swap: &mut Swap,
    config: &Config,
    event: ReloadEvent,
    action: ReloadAction,
)
    requires
        call_ensures(Swap::write_and_reload_swap, (swap, config, event), action),
    ensures
        match event {
            ReloadEvent::RenderFailed(reason) => action matches ReloadAction::Fail(
                ReloadError::Render(given),
            ) && given@ == reason@,
            ReloadEvent::WriteFailed => action matches ReloadAction::Fail(ReloadError::Write),
            ReloadEvent::Written => if old(swap)@ {
                action is Stop
            } else {
                action matches ReloadAction::Start(command) && runs_swap(command, *config)
            },
            ReloadEvent::Stopped => action matches ReloadAction::Start(command) && runs_swap(
                command,
                *config,
            ),
            ReloadEvent::StartFailed => action matches ReloadAction::Fail(ReloadError::Start),
            ReloadEvent::Started => action is Done,
        },
        final(swap)@ == (old(swap)@ || event is Started),
{
    if let ReloadAction::Start(command) = action {
        views_are_texts(command.args@);
    }
}

/// At first no instance was started.
pub proof fn nothing_runs_at_first(swap: Swap)
    requires
        call_ensures(Swap::new, (), swap),
    ensures
        !swap@,
{
}

/// What is said of a reload that failed.
pub proof fn reload_errors_are_said(error: &ReloadError, res: String)
    requires
        call_ensures(ReloadError::message, (error,), res),
    ensures
        match *error {
            ReloadError::Render(reason) => res@ == reason@,
            ReloadError::Write => res@ == "failed to write swap config"@,
            ReloadError::Start => res@ == "failed to start llama-swap"@,
        },
{
}

} // verus!
