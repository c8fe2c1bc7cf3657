//! The coordinator: its configuration, the llama-swap configuration that follows
//! from a plan, and what the events of the mesh do to the table of workers.
use crate::protocol::WorkerAnnounce;
use crate::table::contents;
use crate::table::distinct_names;
use crate::table::entry_is_content;
use crate::table::take_out_is_remove;
use crate::table::Table;
use crate::text::join;
use crate::text::joined;
use crate::text::views;
use crate::text::views_push;
use crate::topology::draining_is_absence;
use crate::topology::plan_for;
use crate::topology::plan_ignores_table_order;
use crate::topology::values_of;
use crate::topology::ConnectedWorker;
use crate::topology::PlanView;
use crate::topology::TopologyPlan;
use vstd::prelude::*;

verus! {

/// Arguments of the subcommand.
pub struct Args {
    /// Address to listen for worker WebSocket connections
    pub listen: String,
    /// Path to coordinator config file (TOML)
    pub config: String,
}

/// The coordinator's configuration. Paths are held as text.
pub struct Config {
    pub swap_bin: String,
    pub swap_listen: String,
    pub llama_server_bin: String,
    pub swap_config_path: String,
    pub local_vram_mb: u64,
    pub models: Vec<ModelConfig>,
}

/// One model that llama-swap is to offer.
pub struct ModelConfig {
    pub name: String,
    pub path: String,
    pub args: Vec<String>,
    pub ttl: u64,
}

/// The server arguments of a model that configures none.
pub open spec fn model_args_by_default() -> Seq<Seq<char>> {
    seq!["-ngl"@, "999"@, "-c"@, "16384"@, "--flash-attn"@, "on"@]
}

/// The server arguments of a model that configures none.
pub fn default_model_args() -> (res: Vec<String>)
    ensures
        views(res@) == model_args_by_default(),
{
    vec![
        "-ngl".to_owned(),
        "999".to_owned(),
        "-c".to_owned(),
        "16384".to_owned(),
        "--flash-attn".to_owned(),
        "on".to_owned(),
    ]
}

/// The idle time, in seconds, of a model that configures none.
pub fn default_ttl() -> (res: u64)
    ensures
        res == 300,
{
    300
}

// ---------------------------------------------------------------------------
// llama-swap configuration
// ---------------------------------------------------------------------------

/// The configuration file of llama-swap.
pub struct SwapConfig {
    pub health_check_timeout: u64,
    pub log_level: String,
    pub models: Table<SwapModelEntry>,
}

/// How llama-swap starts one model, and when it stops it.
pub struct SwapModelEntry {
    pub cmd: String,
    pub ttl: u64,
}

/// The words of the command that serves a model at `path` with `args`.
pub open spec fn command_words(
    server: Seq<char>,
    path: Seq<char>,
    plan: PlanView,
    args: Seq<Seq<char>>,
) -> Seq<Seq<char>> {
    let fixed = seq![
        server,
        "--model"@,
        path,
        "--port"@,
        "${PORT}"@,
        "--host"@,
        "127.0.0.1"@,
    ];
    let rpc = if plan.rpc_endpoints.len() > 0 {
        seq!["--rpc"@, joined(plan.rpc_endpoints, ","@)]
    } else {
        Seq::empty()
    };
    let split = match plan.tensor_split {
        Some(split) => seq!["--tensor-split"@, split],
        None => Seq::empty(),
    };
    fixed + rpc + split + args
}

/// The command that serves `model` under `plan`.
pub open spec fn command_of(config: Config, plan: PlanView, model: ModelConfig) -> Seq<char> {
    joined(
        command_words(config.llama_server_bin@, model.path@, plan, views(model.args@)),
        " "@,
    )
}

/// No model among the first `n` after position `i` has the name of the one there.
pub open spec fn last_of_name(models: Seq<ModelConfig>, n: int, i: int) -> bool {
    forall|j: int| i < j < n ==> (#[trigger] models[j]).name@ != models[i].name@
}

/// `entries` offers the first `n` models of `config` under `plan`, each by its
/// name. Of several models with one name the last is offered.
pub open spec fn offers(
    entries: Map<Seq<char>, SwapModelEntry>,
    config: Config,
    plan: PlanView,
    n: int,
) -> bool {
    let models = config.models@;
    &&& forall|name: Seq<char>| #[trigger]
        entries.contains_key(name) <==> exists|i: int|
            0 <= i < n && (#[trigger] models[i]).name@ == name
    &&& forall|i: int|
        0 <= i < n && last_of_name(models, n, i) ==> {
            let entry = entries[(#[trigger] models[i]).name@];
            entry.cmd@ == command_of(config, plan, models[i]) && entry.ttl == models[i].ttl
        }
}

/// Writes the command that serves `model` under `plan`.
fn model_command(config: &Config, plan: &TopologyPlan, model: &ModelConfig) -> (cmd: String)
    ensures
        cmd@ == command_of(*config, plan@, *model),
{
    let mut words: Vec<String> = vec![
        config.llama_server_bin.clone(),
        "--model".to_owned(),
        model.path.clone(),
        "--port".to_owned(),
        "${PORT}".to_owned(),
        "--host".to_owned(),
        "127.0.0.1".to_owned(),
    ];
    let ghost fixed = seq![
        config.llama_server_bin@,
        "--model"@,
        model.path@,
        "--port"@,
        "${PORT}"@,
        "--host"@,
        "127.0.0.1"@,
    ];
    let ghost mut expected = fixed;
    if plan.rpc_endpoints.len() > 0 {
        let flag = "--rpc".to_owned();
        let list = join(&plan.rpc_endpoints, ",");
        proof {
            views_push(words@, flag);
            views_push(words@.push(flag), list);
            expected = expected + seq![flag@, list@];
        }
        words.push(flag);
        words.push(list);
    } else {
        proof {
            expected = expected + Seq::empty();
        }
    }
    match &plan.tensor_split {
        Some(split) => {
            let flag = "--tensor-split".to_owned();
            let list = split.clone();
            proof {
                views_push(words@, flag);
                views_push(words@.push(flag), list);
                expected = expected + seq![flag@, list@];
            }
            words.push(flag);
            words.push(list);
        },
        None => {},
    }
    let mut i: usize = 0;
    while i < model.args.len()
        invariant
            i <= model.args.len(),
            views(words@) == expected + views(model.args@.take(i as int)),
        decreases model.args.len() - i,
    {
        let word = model.args[i].clone();
        proof {
            views_push(words@, word);
            views_push(model.args@.take(i as int), model.args@[i as int]);
            assert(model.args@.take(i as int).push(model.args@[i as int]) == model.args@.take(
                i + 1,
            ));
        }
        words.push(word);
        i += 1;
    }
    proof {
        assert(model.args@.take(i as int) == model.args@);
    }
    join(&words, " ")
}

/// Writes the configuration of llama-swap for the models of `config` under `plan`.
pub fn generate_swap_config(config: &Config, plan: &TopologyPlan) -> (res: SwapConfig)
    ensures
        res.health_check_timeout == 600,
        res.log_level@ == "info"@,
        res.models.wf(),
        offers(res.models@, *config, plan@, config.models@.len() as int),
{
    let mut models: Table<SwapModelEntry> = Table::new();
    let mut i: usize = 0;
    while i < config.models.len()
        invariant
            i <= config.models.len(),
            models.wf(),
            offers(models@, *config, plan@, i as int),
        decreases config.models.len() - i,
    {
        let model = &config.models[i];
        let entry = SwapModelEntry { cmd: model_command(config, plan, model), ttl: model.ttl };
        let ghost before = models@;
        models.insert(model.name.clone(), entry);
        proof {
            let all = config.models@;
            let after = models@;
            assert forall|name: Seq<char>| #[trigger] after.contains_key(name) <==> exists|j: int|
                0 <= j < i + 1 && (#[trigger] all[j]).name@ == name by {
                if name == all[i as int].name@ {
                    assert(after.contains_key(name));
                } else {
                    assert(after.contains_key(name) == before.contains_key(name));
                }
            }
            assert forall|j: int| 0 <= j < i + 1 && last_of_name(all, i + 1, j) implies {
                let entry = after[(#[trigger] all[j]).name@];
                entry.cmd@ == command_of(*config, plan@, all[j]) && entry.ttl == all[j].ttl
            } by {
                if j < i {
                    assert(all[i as int].name@ != all[j].name@);
                    assert(last_of_name(all, i as int, j));
                }
            }
        }
        i += 1;
    }
    SwapConfig { health_check_timeout: 600, log_level: "info".to_owned(), models }
}

// ---------------------------------------------------------------------------
// Events
// ---------------------------------------------------------------------------

/// What the connection handlers report to the coordinator.
pub enum CoordEvent {
    Joined { conn_id: u64, node_id: String, announce: WorkerAnnounce, proxy_port: u16 },
    Left { conn_id: u64, node_id: String },
    Draining { conn_id: u64, node_id: String },
    Resuming { conn_id: u64, node_id: String },
}

/// The workers by node ID.
pub type Workers = Map<Seq<char>, ConnectedWorker>;

impl CoordEvent {
    /// The connection that reports.
    pub open spec fn conn(self) -> u64 {
        match self {
            CoordEvent::Joined { conn_id, .. } => conn_id,
            CoordEvent::Left { conn_id, .. } => conn_id,
            CoordEvent::Draining { conn_id, .. } => conn_id,
            CoordEvent::Resuming { conn_id, .. } => conn_id,
        }
    }

    /// The node that the event is about.
    pub open spec fn node(self) -> Seq<char> {
        match self {
            CoordEvent::Joined { node_id, .. } => node_id@,
            CoordEvent::Left { node_id, .. } => node_id@,
            CoordEvent::Draining { node_id, .. } => node_id@,
            CoordEvent::Resuming { node_id, .. } => node_id@,
        }
    }
}

/// Whether the worker under `event`'s node joined by `event`'s connection.
pub open spec fn concerns(workers: Workers, event: CoordEvent) -> bool {
    workers.contains_key(event.node()) && workers[event.node()].conn_id == event.conn()
}

/// Whether `event` calls for a new plan.
pub open spec fn changes(workers: Workers, event: CoordEvent) -> bool {
    match event {
        CoordEvent::Joined { .. } => true,
        CoordEvent::Left { .. } => concerns(workers, event),
        CoordEvent::Draining { .. } => concerns(workers, event)
            && !workers[event.node()].draining,
        CoordEvent::Resuming { .. } => concerns(workers, event) && workers[event.node()].draining,
    }
}

/// The workers after `event`. An event that does not call for a new plan leaves
/// them as they are.
pub open spec fn after_event(workers: Workers, event: CoordEvent) -> Workers {
    if !changes(workers, event) {
        workers
    } else {
        match event {
            CoordEvent::Joined { conn_id, node_id, announce, proxy_port } => workers.insert(
                node_id@,
                ConnectedWorker { conn_id, announce, proxy_port, draining: false },
            ),
            CoordEvent::Left { node_id, .. } => workers.remove(node_id@),
            CoordEvent::Draining { node_id, .. } => workers.insert(
                node_id@,
                ConnectedWorker { draining: true, ..workers[node_id@] },
            ),
            CoordEvent::Resuming { node_id, .. } => workers.insert(
                node_id@,
                ConnectedWorker { draining: false, ..workers[node_id@] },
            ),
        }
    }
}

/// Applies `event` to the table of workers, and tells whether it calls for a new
/// plan. An event of a connection that a newer one of the same node has replaced
/// changes nothing.
pub fn apply_event(workers: &mut Table<ConnectedWorker>, event: CoordEvent) -> (changed: bool)
    requires
        old(workers).wf(),
    ensures
        final(workers).wf(),
        changed == changes(old(workers)@, event),
        final(workers)@ == after_event(old(workers)@, event),
{
    match event {
        CoordEvent::Joined { conn_id, node_id, announce, proxy_port } => {
            workers.insert(
                node_id,
                ConnectedWorker { conn_id, announce, proxy_port, draining: false },
            );
            true
        },
        CoordEvent::Left { conn_id, node_id } => {
            let concerned = match workers.get(node_id.as_str()) {
                Some(worker) => worker.conn_id == conn_id,
                None => false,
            };
            if concerned {
                workers.remove(node_id.as_str());
            }
            concerned
        },
        CoordEvent::Draining { conn_id, node_id } => {
            let concerned = match workers.get(node_id.as_str()) {
                Some(worker) => worker.conn_id == conn_id && !worker.draining,
                None => false,
            };
            if concerned {
                if let Some(worker) = workers.get_mut(node_id.as_str()) {
                    worker.draining = true;
                }
            }
            concerned
        },
        CoordEvent::Resuming { conn_id, node_id } => {
            let concerned = match workers.get(node_id.as_str()) {
                Some(worker) => worker.conn_id == conn_id && worker.draining,
                None => false,
            };
            if concerned {
                if let Some(worker) = workers.get_mut(node_id.as_str()) {
                    worker.draining = false;
                }
            }
            concerned
        },
    }
}

/// An event calls for no new plan exactly where it leaves the workers alone, except
/// that joining always calls for one.
pub proof fn unchanged_means_untouched(workers: Workers, event: CoordEvent)
    ensures
        !changes(workers, event) ==> after_event(workers, event) == workers,
        changes(workers, event) && !(event is Joined) ==> after_event(workers, event) != workers,
{
    let after = after_event(workers, event);
    if changes(workers, event) && !(event is Joined) {
        assert(workers.contains_key(event.node()));
        if after == workers {
            assert(after.contains_key(event.node()));
            assert(after[event.node()] == workers[event.node()]);
        }
    }
}

/// A connection speaks for its node only until another connection of that node
/// joins: whatever it reports later is ignored.
pub proof fn replaced_connection_is_ignored(workers: Workers, event: CoordEvent)
    requires
        !(event is Joined),
        workers.contains_key(event.node()) ==> workers[event.node()].conn_id != event.conn(),
    ensures
        !changes(workers, event),
        after_event(workers, event) == workers,
{
}

/// An event touches no node but its own.
pub proof fn other_nodes_untouched(workers: Workers, event: CoordEvent, node: Seq<char>)
    requires
        node != event.node(),
    ensures
        after_event(workers, event).contains_key(node) == workers.contains_key(node),
        workers.contains_key(node) ==> after_event(workers, event)[node] == workers[node],
{
}

/// After a node has joined, it is there as it announced itself, and not draining.
pub proof fn joined_worker_is_ready(workers: Workers, event: CoordEvent)
    requires
        event is Joined,
    ensures
        after_event(workers, event).contains_key(event.node()),
        after_event(workers, event)[event.node()].conn_id == event.conn(),
        after_event(workers, event)[event.node()].announce == event->announce,
        after_event(workers, event)[event.node()].proxy_port == event->proxy_port,
        !after_event(workers, event)[event.node()].draining,
{
}

/// A node that joins and leaves by one connection is gone.
pub proof fn leaving_undoes_joining(workers: Workers, join: CoordEvent, leave: CoordEvent)
    requires
        join is Joined,
        leave is Left,
        join.node() == leave.node(),
        join.conn() == leave.conn(),
    ensures
        changes(after_event(workers, join), leave),
        after_event(after_event(workers, join), leave) == workers.remove(join.node()),
{
}

/// A worker that drains and resumes is as it was.
pub proof fn resuming_undoes_draining(workers: Workers, drain: CoordEvent, resume: CoordEvent)
    requires
        drain is Draining,
        resume is Resuming,
        drain.node() == resume.node(),
        drain.conn() == resume.conn(),
        changes(workers, drain),
    ensures
        changes(after_event(workers, drain), resume),
        after_event(after_event(workers, drain), resume) == workers,
{
}

/// To report the same departure, draining or resumption twice is to report it once.
pub proof fn repeated_report_is_ignored(workers: Workers, event: CoordEvent)
    requires
        !(event is Joined),
    ensures
        !changes(after_event(workers, event), event),
        after_event(after_event(workers, event), event) == after_event(workers, event),
{
}

/// A worker that drains and one that leaves make for the same tensor split and the
/// same endpoints, however the table lists the workers in either case.
pub proof fn draining_plans_like_leaving(
    local_vram_mb: u64,
    workers: Workers,
    drain: CoordEvent,
    leave: CoordEvent,
    a: Seq<(Seq<char>, ConnectedWorker)>,
    b: Seq<(Seq<char>, ConnectedWorker)>,
)
    requires
        drain is Draining,
        leave is Left,
        drain.node() == leave.node(),
        drain.conn() == leave.conn(),
        changes(workers, drain),
        distinct_names(a),
        distinct_names(b),
        contents(a) == after_event(workers, drain),
        contents(b) == after_event(workers, leave),
    ensures
        plan_for(local_vram_mb, values_of(a)).tensor_split == plan_for(
            local_vram_mb,
            values_of(b),
        ).tensor_split,
        plan_for(local_vram_mb, values_of(a)).rpc_endpoints.to_multiset() == plan_for(
            local_vram_mb,
            values_of(b),
        ).rpc_endpoints.to_multiset(),
{
    let node = drain.node();
    assert(contents(a).contains_key(node));
    let p = choose|p: int| 0 <= p < a.len() && (#[trigger] a[p]).0 == node;
    entry_is_content(a, p);
    take_out_is_remove(a, p);
    assert(contents(a.remove(p)) =~= contents(b));
    let listed = values_of(a);
    assert(listed.update(p, ConnectedWorker { draining: true, ..listed[p] }) =~= listed);
    assert(listed.remove(p) =~= values_of(a.remove(p)));
    draining_is_absence(local_vram_mb, listed, p);
    plan_ignores_table_order(local_vram_mb, a.remove(p), b);
}

} // verus!
