//! How a model is spread over the workers, and the configuration that says so.
use crate::coord::command_words;
use crate::coord::default_model_args;
use crate::coord::default_ttl;
use crate::coord::generate_swap_config;
use crate::coord::last_of_name;
use crate::coord::offers;
use crate::coord::Config;
use crate::coord::ModelConfig;
use crate::coord::SwapConfig;
use crate::laws::text::decimal_is_numeral;
use crate::laws::text::is_numeral;
use crate::laws::text::joined_is_strung;
use crate::laws::text::numerals_are_unique;
use crate::laws::text::strung;
use crate::laws::text::texts;
use crate::laws::text::views_are_texts;
use crate::table::Table;
use crate::text::decimal;
use crate::text::views;
use crate::topology::endpoint_at;
use crate::topology::endpoint_of;
use crate::topology::goes_before;
use crate::topology::local_endpoint;
use crate::topology::plan_for;
use crate::topology::plan_topology;
use crate::topology::serving_order;
use crate::topology::serving_order_exists;
use crate::topology::split_shares;
use crate::topology::workers_of;
use crate::topology::ConnectedWorker;
use crate::topology::TopologyPlan;
use vstd::prelude::*;

verus! {

/// `s` is the address of `port` on this machine: behind `127.0.0.1:` stand digits that
/// read as the port.
pub open spec fn is_endpoint(s: Seq<char>, port: u16) -> bool {
    &&& s.len() > 10
    &&& s.take(10) == "127.0.0.1:"@
    &&& is_numeral(s.skip(10), port as int)
}

/// The address of a port is an address of that port.
pub proof fn endpoint_names_the_port(port: u16)
    ensures
        is_endpoint(endpoint_at(port), port),
{
    reveal_strlit("127.0.0.1:");
    decimal_is_numeral(port as nat);
    assert(endpoint_at(port).skip(10) =~= decimal(port as nat));
    assert(endpoint_at(port).take(10) =~= "127.0.0.1:"@);
}

/// The address of a port says which port it is.
pub proof fn local_endpoint_names_the_port(port: u16, res: String)
    requires
        call_ensures(local_endpoint, (port,), res),
    ensures
        is_endpoint(res@, port),
{
    endpoint_names_the_port(port);
}

/// Different ports have different addresses.
pub proof fn endpoints_tell_ports_apart(a: u16, at_a: Seq<char>, b: u16, at_b: Seq<char>)
    requires
        is_endpoint(at_a, a),
        is_endpoint(at_b, b),
    ensures
        at_a == at_b <==> a == b,
{
    numerals_are_unique(at_a.skip(10), a as int, at_b.skip(10), b as int);
    assert(at_a =~= at_a.take(10) + at_a.skip(10));
    assert(at_b =~= at_b.take(10) + at_b.skip(10));
}

/// Of two workers, the one at `p` is to be served before the one at `q`: one that stays
/// before one that may be preempted, more memory before less, and else by position.
pub open spec fn comes_first(workers: Seq<ConnectedWorker>, p: int, q: int) -> bool {
    let a = workers[p].announce;
    let b = workers[q].announce;
    if a.preemptible != b.preemptible {
        b.preemptible
    } else if a.vram_mb != b.vram_mb {
        a.vram_mb > b.vram_mb
    } else {
        p < q
    }
}

/// `order` lists the positions of all workers that are not draining, and of no others,
/// each before those that are to be served after it.
pub open spec fn serves_all_ready(workers: Seq<ConnectedWorker>, order: Seq<int>) -> bool {
    &&& forall|k: int|
        0 <= k < order.len() ==> 0 <= (#[trigger] order[k]) < workers.len()
            && !workers[order[k]].draining
    &&& forall|p: int|
        0 <= p < workers.len() && !(#[trigger] workers[p]).draining ==> exists|k: int|
            0 <= k < order.len() && #[trigger] order[k] == p
    &&& forall|k: int, l: int|
        0 <= k < l < order.len() ==> comes_first(workers, #[trigger] order[k], #[trigger] order[l])
}

/// The number of places before the workers in a tensor split: one for local memory.
pub open spec fn local_places(local_vram_mb: u64) -> int {
    if local_vram_mb > 0 {
        1
    } else {
        0
    }
}

/// `split` lists the local memory, where there is any, and then the memory of the
/// workers at the positions of `order`, with commas between.
pub open spec fn splits(
    local_vram_mb: u64,
    workers: Seq<ConnectedWorker>,
    order: Seq<int>,
    split: Seq<char>,
    shares: Seq<Seq<char>>,
) -> bool {
    let local = local_places(local_vram_mb);
    &&& split == strung(shares, ","@)
    &&& shares.len() == order.len() + local
    &&& local_vram_mb > 0 ==> is_numeral(shares[0], local_vram_mb as int)
    &&& forall|k: int|
        0 <= k < order.len() ==> is_numeral(
            shares[k + local],
            workers[#[trigger] order[k]].announce.vram_mb as int,
        )
}

/// `plan` serves the workers at the positions of `order`, each by the address of its
/// proxy port and with its memory as its share.
pub open spec fn plan_follows(
    local_vram_mb: u64,
    workers: Seq<ConnectedWorker>,
    plan: TopologyPlan,
    order: Seq<int>,
) -> bool {
    &&& serves_all_ready(workers, order)
    &&& plan.rpc_endpoints@.len() == order.len()
    &&& forall|k: int|
        0 <= k < order.len() ==> is_endpoint(
            plan.rpc_endpoints@[k]@,
            workers[#[trigger] order[k]].proxy_port,
        )
    &&& plan.tensor_split is None <==> order.len() == 0
    &&& plan.tensor_split matches Some(split) ==> exists|shares: Seq<Seq<char>>| #[trigger]
        splits(local_vram_mb, workers, order, split@, shares)
}

/// `plan` spreads a model over those of `workers` that are not draining.
pub open spec fn spreads(
    local_vram_mb: u64,
    workers: Seq<ConnectedWorker>,
    plan: TopologyPlan,
) -> bool {
    exists|order: Seq<int>| #[trigger] plan_follows(local_vram_mb, workers, plan, order)
}

/// A plan for some workers spreads a model over them.
pub proof fn planned_is_spread(
    local_vram_mb: u64,
    workers: Seq<ConnectedWorker>,
    plan: TopologyPlan,
)
    requires
        plan@ == plan_for(local_vram_mb, workers),
    ensures
        spreads(local_vram_mb, workers, plan),
{
    let order = serving_order(workers);
    serving_order_exists(workers);
    assert(serves_all_ready(workers, order)) by {
        assert forall|p: int| 0 <= p < workers.len() && !(
        #[trigger] workers[p]).draining implies exists|k: int|
            0 <= k < order.len() && #[trigger] order[k] == p by {
            assert(order.contains(p));
            let k = order.index_of(p);
            assert(order[k] == p);
        }
        assert forall|k: int, l: int| 0 <= k < l < order.len() implies comes_first(
            workers,
            #[trigger] order[k],
            #[trigger] order[l],
        ) by {
            assert(goes_before(workers, order[k], order[l]));
        }
    }
    let endpoints = order.map_values(|p: int| endpoint_of(workers[p]));
    assert(views(plan.rpc_endpoints@) == endpoints);
    views_are_texts(plan.rpc_endpoints@);
    assert(plan.rpc_endpoints@.len() == order.len()) by {
        assert(texts(plan.rpc_endpoints@).len() == endpoints.len());
    }
    assert forall|k: int| 0 <= k < order.len() implies is_endpoint(
        plan.rpc_endpoints@[k]@,
        workers[#[trigger] order[k]].proxy_port,
    ) by {
        assert(texts(plan.rpc_endpoints@)[k] == endpoints[k]);
        endpoint_names_the_port(workers[order[k]].proxy_port);
    }
    if let Some(split) = plan.tensor_split {
        let shares = split_shares(local_vram_mb, workers, order);
        joined_is_strung(shares, ","@);
        decimal_is_numeral(local_vram_mb as nat);
        assert forall|k: int| 0 <= k < order.len() implies is_numeral(
            shares[k + local_places(local_vram_mb)],
            workers[#[trigger] order[k]].announce.vram_mb as int,
        ) by {
            decimal_is_numeral(workers[order[k]].announce.vram_mb as nat);
        }
        assert(splits(local_vram_mb, workers, order, split@, shares));
    }
    assert(plan_follows(local_vram_mb, workers, plan, order));
}

/// The values of a table, in the order of its positions.
pub open spec fn listed(table: Table<ConnectedWorker>) -> Seq<ConnectedWorker> {
    Seq::new(table.pairs().len(), |i: int| table.pairs()[i].1)
}

/// A plan serves all workers of the table that are not draining and no others, stable
/// ones first and then larger ones first, each by the address of its own proxy port. It
/// splits the tensors by the local memory and that of the workers, in that order.
pub proof fn plan_serves_the_table(
    local_vram_mb: u64,
    table: &Table<ConnectedWorker>,
    plan: TopologyPlan,
)
    requires
        call_ensures(plan_topology, (local_vram_mb, table), plan),
    ensures
        spreads(local_vram_mb, listed(*table), plan),
{
    assert(workers_of(*table) =~= listed(*table));
    planned_is_spread(local_vram_mb, listed(*table), plan);
}

/// Workers with different proxy ports are reached at different addresses.
pub proof fn planned_endpoints_differ(
    local_vram_mb: u64,
    workers: Seq<ConnectedWorker>,
    plan: TopologyPlan,
    order: Seq<int>,
    k: int,
    l: int,
)
    requires
        plan_follows(local_vram_mb, workers, plan, order),
        0 <= k < order.len(),
        0 <= l < order.len(),
    ensures
        plan.rpc_endpoints@[k]@ == plan.rpc_endpoints@[l]@ <==> workers[order[k]].proxy_port
            == workers[order[l]].proxy_port,
{
    endpoints_tell_ports_apart(
        workers[order[k]].proxy_port,
        plan.rpc_endpoints@[k]@,
        workers[order[l]].proxy_port,
        plan.rpc_endpoints@[l]@,
    );
}

/// The number of words that an option takes.
pub open spec fn option_words(given: bool) -> int {
    if given {
        2
    } else {
        0
    }
}

/// `words` are those of the command that serves `model` under `plan`: the server with
/// its fixed options, the workers where there are any, the split where there is one, and
/// at the end exactly the arguments of the model.
pub open spec fn words_serve(
    words: Seq<Seq<char>>,
    config: Config,
    plan: TopologyPlan,
    model: ModelConfig,
) -> bool {
    let rpc = option_words(plan.rpc_endpoints@.len() > 0);
    let split = option_words(plan.tensor_split is Some);
    &&& words.len() == 7 + rpc + split + model.args@.len()
    &&& words[0] == config.llama_server_bin@
    &&& words[1] == "--model"@
    &&& words[2] == model.path@
    &&& words[3] == "--port"@
    &&& words[4] == "${PORT}"@
    &&& words[5] == "--host"@
    &&& words[6] == "127.0.0.1"@
    &&& rpc > 0 ==> words[7] == "--rpc"@ && words[8] == strung(texts(plan.rpc_endpoints@), ","@)
    &&& plan.tensor_split matches Some(shares) ==> words[7 + rpc] == "--tensor-split"@ && words[8
        + rpc] == shares@
    &&& forall|i: int|
        0 <= i < model.args@.len() ==> words[7 + rpc + split + i] == (#[trigger] model.args@[i])@
}

/// `cmd` is the command that serves `model` under `plan`.
pub open spec fn serves_model(
    cmd: Seq<char>,
    config: Config,
    plan: TopologyPlan,
    model: ModelConfig,
) -> bool {
    exists|words: Seq<Seq<char>>| #[trigger] words_serve(words, config, plan, model) && cmd
        == strung(words, " "@)
}

/// `swap` offers each of the models of `config` under its name, and nothing else: with
/// the command that serves it under `plan` and its own idle time. Of models with the
/// same name it offers the last.
pub open spec fn offers_models(swap: SwapConfig, config: Config, plan: TopologyPlan) -> bool {
    let models = config.models@;
    &&& swap.health_check_timeout == 600
    &&& swap.log_level@ == "info"@
    &&& forall|name: Seq<char>| #[trigger]
        swap.models@.contains_key(name) ==> exists|i: int|
            0 <= i < models.len() && (#[trigger] models[i]).name@ == name
    &&& forall|i: int|
        0 <= i < models.len() ==> swap.models@.contains_key((#[trigger] models[i]).name@)
    &&& forall|i: int|
        #![trigger models[i]]
        0 <= i < models.len() && (forall|j: int|
            i < j < models.len() ==> (#[trigger] models[j]).name@ != models[i].name@) ==> {
            let entry = swap.models@[models[i].name@];
            entry.ttl == models[i].ttl && serves_model(entry.cmd@, config, plan, models[i])
        }
}

/// The words of a model's command serve it.
proof fn command_words_serve(config: Config, plan: TopologyPlan, model: ModelConfig)
    ensures
        words_serve(
            command_words(config.llama_server_bin@, model.path@, plan@, views(model.args@)),
            config,
            plan,
            model,
        ),
{
    views_are_texts(plan.rpc_endpoints@);
    views_are_texts(model.args@);
    joined_is_strung(texts(plan.rpc_endpoints@), ","@);
    let words = command_words(config.llama_server_bin@, model.path@, plan@, views(model.args@));
    let rpc = option_words(plan.rpc_endpoints@.len() > 0);
    let split = option_words(plan.tensor_split is Some);
    assert(plan@.rpc_endpoints.len() == plan.rpc_endpoints@.len());
    assert forall|i: int| 0 <= i < model.args@.len() implies words[7 + rpc + split + i] == (
    #[trigger] model.args@[i])@ by {
        assert(texts(model.args@)[i] == model.args@[i]@);
    }
}

/// What offers the models of a configuration, one by one, offers them all.
pub proof fn offered_models_are_offered(swap: SwapConfig, config: Config, plan: TopologyPlan)
    requires
        swap.health_check_timeout == 600,
        swap.log_level@ == "info"@,
        offers(swap.models@, config, plan@, config.models@.len() as int),
    ensures
        offers_models(swap, config, plan),
{
    let models = config.models@;
    assert forall|i: int|
        #![trigger models[i]]
        0 <= i < models.len() && (forall|j: int|
            i < j < models.len() ==> (#[trigger] models[j]).name@ != models[i].name@) implies {
        let entry = swap.models@[models[i].name@];
        entry.ttl == models[i].ttl && serves_model(entry.cmd@, config, plan, models[i])
    } by {
        assert(last_of_name(models, models.len() as int, i));
        let words = command_words(
            config.llama_server_bin@,
            models[i].path@,
            plan@,
            views(models[i].args@),
        );
        command_words_serve(config, plan, models[i]);
        joined_is_strung(words, " "@);
    }
}

/// The configuration of llama-swap offers all models, each served by the workers of the
/// plan and with its own arguments, under every plan.
pub proof fn swap_config_offers_all_models(
    config: &Config,
    plan: &TopologyPlan,
    swap: SwapConfig,
)
    requires
        call_ensures(generate_swap_config, (config, plan), swap),
    ensures
        swap.models.wf(),
        offers_models(swap, *config, *plan),
{
    offered_models_are_offered(swap, *config, *plan);
}

/// A model that configures no arguments is loaded onto the GPU with a context of 16384
/// and flash attention, and one that configures no idle time has five minutes.
pub proof fn model_defaults(args: Vec<String>, ttl: u64)
    requires
        call_ensures(default_model_args, (), args),
        call_ensures(default_ttl, (), ttl),
    ensures
        texts(args@) == seq!["-ngl"@, "999"@, "-c"@, "16384"@, "--flash-attn"@, "on"@],
        ttl == 300,
{
    views_are_texts(args@);
}

} // verus!
