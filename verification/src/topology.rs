//! How a model is spread over the workers of the mesh.
use crate::protocol::WorkerAnnounce;
use crate::table::contents;
use crate::table::distinct_names;
use crate::table::entry_is_content;
use crate::table::Table;
use crate::text::decimal;
use crate::text::join;
use crate::text::joined;
use crate::text::to_decimal;
use crate::text::views;
use crate::text::views_push;
use vstd::prelude::*;
use vstd::relations::sorted_by;
use vstd::seq_lib::lemma_sorted_unique;
use vstd::seq_lib::to_multiset_build;
use vstd::seq_lib::to_multiset_insert;
use vstd::string::*;

verus! {

/// A worker whose connection is up.
pub struct ConnectedWorker {
    pub conn_id: u64,
    pub announce: WorkerAnnounce,
    /// Local port whose connections are tunnelled to this worker.
    pub proxy_port: u16,
    pub draining: bool,
}

/// How a model is spread over the workers.
pub struct TopologyPlan {
    pub rpc_endpoints: Vec<String>,
    pub tensor_split: Option<String>,
}

/// The text of a plan.
pub struct PlanView {
    pub rpc_endpoints: Seq<Seq<char>>,
    pub tensor_split: Option<Seq<char>>,
}

impl View for TopologyPlan {
    type V = PlanView;

    open spec fn view(&self) -> PlanView {
        PlanView {
            rpc_endpoints: views(self.rpc_endpoints@),
            tensor_split: match self.tensor_split {
                Some(split) => Some(split@),
                None => None,
            },
        }
    }
}

/// Workers that stay come before those that may be preempted; among equals, more
/// memory comes first.
pub open spec fn ranks_before(a: ConnectedWorker, b: ConnectedWorker) -> bool {
    ||| !a.announce.preemptible && b.announce.preemptible
    ||| a.announce.preemptible == b.announce.preemptible && a.announce.vram_mb > b.announce.vram_mb
}

/// Of two positions, the one to be served first: by rank, then by position.
pub open spec fn goes_before(workers: Seq<ConnectedWorker>, p: int, q: int) -> bool {
    ||| ranks_before(workers[p], workers[q])
    ||| !ranks_before(workers[q], workers[p]) && p < q
}

/// `order` lists the positions of the workers that are not draining, each once,
/// in the order in which they are to be served.
pub open spec fn is_serving_order(workers: Seq<ConnectedWorker>, order: Seq<int>) -> bool {
    &&& forall|k: int|
        0 <= k < order.len() ==> 0 <= (#[trigger] order[k]) < workers.len()
            && !workers[order[k]].draining
    &&& forall|p: int|
        0 <= p < workers.len() && !(#[trigger] workers[p]).draining ==> order.contains(p)
    &&& forall|k: int, l: int|
        0 <= k < l < order.len() ==> goes_before(workers, #[trigger] order[k], #[trigger] order[l])
}

/// The serving order of `workers`.
pub open spec fn serving_order(workers: Seq<ConnectedWorker>) -> Seq<int> {
    choose|order: Seq<int>| is_serving_order(workers, order)
}

/// The address of a port of the coordinator's own machine, which no other machine can
/// reach.
pub open spec fn endpoint_at(port: u16) -> Seq<char> {
    "127.0.0.1:"@ + decimal(port as nat)
}

/// The address under which llama-server reaches a worker.
pub open spec fn endpoint_of(worker: ConnectedWorker) -> Seq<char> {
    endpoint_at(worker.proxy_port)
}

/// The address of a port of this machine.
pub fn local_endpoint(port: u16) -> (res: String)
    ensures
        res@ == endpoint_at(port),
{
    "127.0.0.1:".to_owned().concat(to_decimal(port as u64).as_str())
}

/// The shares of the tensor split: the local one, where there is local memory,
/// then those of the workers in serving order.
pub open spec fn split_shares(
    local_vram_mb: u64,
    workers: Seq<ConnectedWorker>,
    order: Seq<int>,
) -> Seq<Seq<char>> {
    let local = if local_vram_mb > 0 {
        seq![decimal(local_vram_mb as nat)]
    } else {
        Seq::empty()
    };
    local + order.map_values(|p: int| decimal(workers[p].announce.vram_mb as nat))
}

/// The plan for `workers`.
pub open spec fn plan_for(local_vram_mb: u64, workers: Seq<ConnectedWorker>) -> PlanView {
    let order = serving_order(workers);
    PlanView {
        rpc_endpoints: order.map_values(|p: int| endpoint_of(workers[p])),
        tensor_split: if order.len() == 0 {
            None
        } else {
            Some(joined(split_shares(local_vram_mb, workers, order), ","@))
        },
    }
}

/// The workers of a table, in its order.
pub open spec fn workers_of(table: Table<ConnectedWorker>) -> Seq<ConnectedWorker> {
    values_of(table.pairs())
}

/// A list of workers has one serving order.
pub proof fn serving_order_unique(workers: Seq<ConnectedWorker>, a: Seq<int>, b: Seq<int>)
    requires
        is_serving_order(workers, a),
        is_serving_order(workers, b),
    ensures
        a == b,
{
    let n = if a.len() <= b.len() {
        a.len() as int
    } else {
        b.len() as int
    };
    orders_agree(workers, a, b, n);
    if a.len() < b.len() {
        assert(a.contains(b[n]));
        let i = a.index_of(b[n]);
        assert(goes_before(workers, b[i], b[n]));
    }
    if b.len() < a.len() {
        assert(b.contains(a[n]));
        let i = b.index_of(a[n]);
        assert(goes_before(workers, a[i], a[n]));
    }
}

/// Two serving orders of one list agree wherever both are defined.
proof fn orders_agree(workers: Seq<ConnectedWorker>, a: Seq<int>, b: Seq<int>, n: int)
    requires
        is_serving_order(workers, a),
        is_serving_order(workers, b),
        0 <= n <= a.len(),
        n <= b.len(),
    ensures
        forall|k: int| 0 <= k < n ==> a[k] == b[k],
    decreases n,
{
    if n > 0 {
        let k = n - 1;
        orders_agree(workers, a, b, k);
        assert(b.contains(a[k]));
        assert(a.contains(b[k]));
        let j = b.index_of(a[k]);
        let i = a.index_of(b[k]);
        if j < k {
            assert(goes_before(workers, a[j], a[k]));
        }
        if i < k {
            assert(goes_before(workers, b[i], b[k]));
        }
        if j > k && i > k {
            assert(goes_before(workers, b[k], b[j]));
            assert(goes_before(workers, a[k], a[i]));
        }
    }
}

/// The serving order of a list with one more worker, which is draining.
proof fn order_skips(workers: Seq<ConnectedWorker>, n: int, order: Seq<int>)
    requires
        0 <= n < workers.len(),
        workers[n].draining,
        is_serving_order(workers.take(n), order),
    ensures
        is_serving_order(workers.take(n + 1), order),
{
    let old_workers = workers.take(n);
    let new_workers = workers.take(n + 1);
    assert forall|p: int| 0 <= p < new_workers.len() && !(
    #[trigger] new_workers[p]).draining implies order.contains(p) by {
        assert(!old_workers[p].draining);
    }
    assert forall|k: int, l: int| 0 <= k < l < order.len() implies goes_before(
        new_workers,
        #[trigger] order[k],
        #[trigger] order[l],
    ) by {
        assert(goes_before(old_workers, order[k], order[l]));
    }
}

/// The serving order of a list with one more worker, which is put behind those that
/// it does not outrank.
proof fn order_inserts(workers: Seq<ConnectedWorker>, n: int, order: Seq<int>, at: int)
    requires
        0 <= n < workers.len(),
        !workers[n].draining,
        is_serving_order(workers.take(n), order),
        0 <= at <= order.len(),
        forall|k: int|
            0 <= k < at ==> !ranks_before(workers[n], workers[#[trigger] order[k]]),
        at < order.len() ==> ranks_before(workers[n], workers[order[at]]),
    ensures
        is_serving_order(workers.take(n + 1), order.insert(at, n)),
{
    let old_workers = workers.take(n);
    let new_workers = workers.take(n + 1);
    let new_order = order.insert(at, n);
    assert forall|k: int| 0 <= k < new_order.len() implies 0 <= (#[trigger] new_order[k])
        < new_workers.len() && !new_workers[new_order[k]].draining by {
        if k < at {
            assert(new_order[k] == order[k]);
            assert(!old_workers[order[k]].draining);
        } else if k > at {
            assert(new_order[k] == order[k - 1]);
            assert(!old_workers[order[k - 1]].draining);
        }
    }
    assert forall|p: int| 0 <= p < new_workers.len() && !(
    #[trigger] new_workers[p]).draining implies new_order.contains(p) by {
        if p < n {
            assert(!old_workers[p].draining);
            let k = order.index_of(p);
            let l = if k < at {
                k
            } else {
                k + 1
            };
            assert(new_order[l] == p);
        } else {
            assert(new_order[at] == p);
        }
    }
    assert forall|k: int, l: int| 0 <= k < l < new_order.len() implies goes_before(
        new_workers,
        #[trigger] new_order[k],
        #[trigger] new_order[l],
    ) by {
        let ko = if k < at {
            k
        } else {
            k - 1
        };
        let lo = if l < at {
            l
        } else {
            l - 1
        };
        if k != at && l != at {
            assert(new_order[k] == order[ko] && new_order[l] == order[lo]);
            assert(goes_before(old_workers, order[ko], order[lo]));
        } else if l == at {
            assert(new_order[k] == order[k]);
            assert(0 <= order[k] < n);
        } else {
            assert(new_order[l] == order[lo]);
            if lo > at {
                assert(goes_before(old_workers, order[at], order[lo]));
            }
            assert(ranks_before(workers[n], workers[order[lo]]));
        }
    }
}

/// Every list of workers has a serving order, and it has as many places as there
/// are workers that are not draining.
pub proof fn serving_order_exists(workers: Seq<ConnectedWorker>)
    ensures
        is_serving_order(workers, serving_order(workers)),
        serving_order(workers).len() == workers.filter(|w: ConnectedWorker| !w.draining).len(),
{
    let n = workers.len() as int;
    let order = some_order(workers, n);
    assert(workers.take(n) == workers);
    serving_order_unique(workers, order, serving_order(workers));
}

/// A serving order of the first `n` workers.
proof fn some_order(workers: Seq<ConnectedWorker>, n: int) -> (order: Seq<int>)
    requires
        0 <= n <= workers.len(),
    ensures
        is_serving_order(workers.take(n), order),
        order.len() == workers.take(n).filter(|w: ConnectedWorker| !w.draining).len(),
        order.map_values(|p: int| share_of(workers[p])) == by_rank(ready_shares(workers.take(n))),
    decreases n,
{
    reveal(Seq::filter);
    let f = |p: int| share_of(workers[p]);
    if n == 0 {
        let order = Seq::<int>::empty();
        assert(ready_shares(workers.take(0)) =~= Seq::empty());
        assert(order.map_values(f) =~= by_rank(ready_shares(workers.take(0))));
        order
    } else {
        let order = some_order(workers, n - 1);
        let shares = ready_shares(workers.take(n - 1));
        assert(workers.take(n).drop_last() == workers.take(n - 1));
        if workers[n - 1].draining {
            order_skips(workers, n - 1, order);
            order
        } else {
            let share = share_of(workers[n - 1]);
            let served = order.map_values(f);
            let at = place_of(served, share, 0);
            place_is_first_outranked(served, share, 0);
            assert forall|k: int| 0 <= k < at implies !ranks_before(
                workers[n - 1],
                workers[#[trigger] order[k]],
            ) by {
                assert(!outranks_share(share, served[k]));
            }
            order_inserts(workers, n - 1, order, at);
            let longer = order.insert(at, n - 1);
            assert(ready_shares(workers.take(n)) =~= shares.push(share));
            assert(shares.push(share).drop_last() =~= shares);
            assert(longer.map_values(f) =~= served.insert(at, share));
            longer
        }
    }
}

/// All that a plan takes from a worker.
pub struct Share {
    pub preemptible: bool,
    pub vram_mb: u64,
    pub proxy_port: u16,
}

/// What a plan takes from `worker`.
pub open spec fn share_of(worker: ConnectedWorker) -> Share {
    Share {
        preemptible: worker.announce.preemptible,
        vram_mb: worker.announce.vram_mb,
        proxy_port: worker.proxy_port,
    }
}

/// What a plan takes from those of `workers` that are not draining.
pub open spec fn ready_shares(workers: Seq<ConnectedWorker>) -> Seq<Share> {
    workers.filter(|w: ConnectedWorker| !w.draining).map_values(
        |w: ConnectedWorker| share_of(w),
    )
}

/// Whether a worker with share `a` ranks before one with share `b`.
spec fn outranks_share(a: Share, b: Share) -> bool {
    (!a.preemptible && b.preemptible) || (a.preemptible == b.preemptible && a.vram_mb > b.vram_mb)
}

/// The first place in `served`, from `from` on, that `share` outranks.
spec fn place_of(served: Seq<Share>, share: Share, from: int) -> int
    decreases served.len() - from,
{
    if from >= served.len() || outranks_share(share, served[from]) {
        from
    } else {
        place_of(served, share, from + 1)
    }
}

/// `shares` in serving order.
spec fn by_rank(shares: Seq<Share>) -> Seq<Share>
    decreases shares.len(),
{
    if shares.len() == 0 {
        Seq::empty()
    } else {
        let served = by_rank(shares.drop_last());
        served.insert(place_of(served, shares.last(), 0), shares.last())
    }
}

/// What comes before the place of `share` is not outranked by it, and what is there is.
proof fn place_is_first_outranked(served: Seq<Share>, share: Share, from: int)
    requires
        0 <= from <= served.len(),
        forall|k: int| 0 <= k < from ==> !outranks_share(share, #[trigger] served[k]),
    ensures
        ({
            let at = place_of(served, share, from);
            &&& 0 <= at <= served.len()
            &&& forall|k: int| 0 <= k < at ==> !outranks_share(share, #[trigger] served[k])
            &&& at < served.len() ==> outranks_share(share, served[at])
        }),
    decreases served.len() - from,
{
    if from < served.len() && !outranks_share(share, served[from]) {
        place_is_first_outranked(served, share, from + 1);
    }
}

/// To put shares in serving order is to permute them.
proof fn by_rank_permutes(shares: Seq<Share>)
    ensures
        by_rank(shares).to_multiset() == shares.to_multiset(),
    decreases shares.len(),
{
    if shares.len() == 0 {
        assert(shares =~= Seq::empty());
    } else {
        let front = shares.drop_last();
        let served = by_rank(front);
        by_rank_permutes(front);
        place_is_first_outranked(served, shares.last(), 0);
        to_multiset_insert(served, place_of(served, shares.last(), 0), shares.last());
        to_multiset_build(front, shares.last());
        assert(front.push(shares.last()) =~= shares);
    }
}

/// The shares of `workers` in serving order.
spec fn served_shares(workers: Seq<ConnectedWorker>) -> Seq<Share> {
    serving_order(workers).map_values(|p: int| share_of(workers[p]))
}

/// The shares that a plan serves are those of the workers that are not draining, put
/// in serving order.
proof fn served_by_rank(workers: Seq<ConnectedWorker>)
    ensures
        served_shares(workers) == by_rank(ready_shares(workers)),
        served_shares(workers).to_multiset() == ready_shares(workers).to_multiset(),
{
    let n = workers.len() as int;
    let order = some_order(workers, n);
    assert(workers.take(n) == workers);
    serving_order_unique(workers, order, serving_order(workers));
    by_rank_permutes(ready_shares(workers));
}

/// A plan is made of the served shares.
proof fn plan_of_served(local_vram_mb: u64, workers: Seq<ConnectedWorker>)
    ensures
        ({
            let plan = plan_for(local_vram_mb, workers);
            let served = served_shares(workers);
            let local = if local_vram_mb > 0 {
                seq![decimal(local_vram_mb as nat)]
            } else {
                Seq::empty()
            };
            &&& plan.rpc_endpoints == served.map_values(|s: Share| endpoint_at(s.proxy_port))
            &&& plan.tensor_split == if served.len() == 0 {
                None
            } else {
                Some(
                    joined(
                        local + served.map_values(|s: Share| decimal(s.vram_mb as nat)),
                        ","@,
                    ),
                )
            }
        }),
{
    let order = serving_order(workers);
    let served = served_shares(workers);
    assert(order.map_values(|p: int| endpoint_of(workers[p])) =~= served.map_values(
        |s: Share| endpoint_at(s.proxy_port),
    ));
    assert(order.map_values(|p: int| decimal(workers[p].announce.vram_mb as nat))
        =~= served.map_values(|s: Share| decimal(s.vram_mb as nat)));
}

/// Whether `a` ranks before `b`.
fn outranks(a: &ConnectedWorker, b: &ConnectedWorker) -> (res: bool)
    ensures
        res == ranks_before(*a, *b),
{
    if a.announce.preemptible == b.announce.preemptible {
        a.announce.vram_mb > b.announce.vram_mb
    } else {
        !a.announce.preemptible
    }
}

/// Lists the positions of the workers that are not draining, in serving order.
fn order_of(workers: &Table<ConnectedWorker>) -> (res: Vec<usize>)
    ensures
        is_serving_order(workers_of(*workers), res@.map_values(|p: usize| p as int)),
{
    let ghost all = workers_of(*workers);
    let mut order: Vec<usize> = Vec::new();
    let mut n: usize = 0;
    let ghost mut positions: Seq<int> = Seq::empty();
    while n < workers.len()
        invariant
            n <= all.len(),
            all == workers_of(*workers),
            positions == order@.map_values(|p: usize| p as int),
            is_serving_order(all.take(n as int), positions),
        decreases workers.pairs().len() - n,
    {
        let worker = workers.value_at(n);
        if worker.draining {
            proof {
                order_skips(all, n as int, positions);
            }
        } else {
            let mut at: usize = 0;
            while at < order.len() && !outranks(worker, workers.value_at(order[at]))
                invariant
                    at <= order.len(),
                    all == workers_of(*workers),
                    n < all.len(),
                    *worker == all[n as int],
                    positions == order@.map_values(|p: usize| p as int),
                    is_serving_order(all.take(n as int), positions),
                    forall|k: int|
                        0 <= k < order@.len() ==> (#[trigger] order@[k]) as int == positions[k]
                            && order@[k] < workers.pairs().len(),
                    forall|k: int|
                        0 <= k < at ==> !ranks_before(all[n as int], all[#[trigger] positions[k]]),
                ensures
                    at <= order.len(),
                    at < order.len() ==> ranks_before(all[n as int], all[positions[at as int]]),
                    forall|k: int|
                        0 <= k < at ==> !ranks_before(all[n as int], all[#[trigger] positions[k]]),
                decreases order.len() - at,
            {
                at += 1;
            }
            proof {
                order_inserts(all, n as int, positions, at as int);
            }
            order.insert(at, n);
            proof {
                positions = positions.insert(at as int, n as int);
                assert(positions =~= order@.map_values(|p: usize| p as int));
            }
        }
        n += 1;
    }
    proof {
        assert(all.take(n as int) == all);
    }
    order
}

/// Plans how a model is spread over the workers: those that are draining take no
/// part, those that may be preempted come last, and more memory comes first.
pub fn plan_topology(local_vram_mb: u64, workers: &Table<ConnectedWorker>) -> (plan: TopologyPlan)
    ensures
        plan@ == plan_for(local_vram_mb, workers_of(*workers)),
{
    let ghost all = workers_of(*workers);
    let ready = order_of(workers);
    let ghost order = ready@.map_values(|p: usize| p as int);
    proof {
        serving_order_unique(all, order, serving_order(all));
    }
    if ready.len() == 0 {
        let plan = TopologyPlan { rpc_endpoints: Vec::new(), tensor_split: None };
        proof {
            assert(plan@.rpc_endpoints =~= plan_for(local_vram_mb, all).rpc_endpoints);
        }
        return plan;
    }
    let mut rpc_endpoints: Vec<String> = Vec::new();
    let mut splits: Vec<String> = Vec::new();
    if local_vram_mb > 0 {
        splits.push(to_decimal(local_vram_mb));
    }
    let ghost local = views(splits@);
    let mut k: usize = 0;
    while k < ready.len()
        invariant
            k <= ready.len(),
            all == workers_of(*workers),
            order == ready@.map_values(|p: usize| p as int),
            is_serving_order(all, order),
            forall|j: int|
                0 <= j < ready@.len() ==> (#[trigger] ready@[j]) as int == order[j] && ready@[j]
                    < workers.pairs().len(),
            views(rpc_endpoints@) == order.take(k as int).map_values(
                |p: int| endpoint_of(all[p]),
            ),
            views(splits@) == local + order.take(k as int).map_values(
                |p: int| decimal(all[p].announce.vram_mb as nat),
            ),
        decreases ready.len() - k,
    {
        let worker = workers.value_at(ready[k]);
        proof {
            assert(order.take(k + 1) == order.take(k as int).push(order[k as int]));
        }
        let endpoint = local_endpoint(worker.proxy_port);
        let share = to_decimal(worker.announce.vram_mb);
        proof {
            views_push(rpc_endpoints@, endpoint);
            views_push(splits@, share);
            assert(views(rpc_endpoints@).push(endpoint@) =~= order.take(k + 1).map_values(
                |p: int| endpoint_of(all[p]),
            ));
            assert(views(splits@).push(share@) =~= local + order.take(k + 1).map_values(
                |p: int| decimal(all[p].announce.vram_mb as nat),
            ));
        }
        rpc_endpoints.push(endpoint);
        splits.push(share);
        k += 1;
    }
    proof {
        assert(order.take(k as int) == order);
        assert(views(splits@) =~= split_shares(local_vram_mb, all, order));
    }
    TopologyPlan { rpc_endpoints, tensor_split: Some(join(&splits, ",")) }
}

// ---------------------------------------------------------------------------
// Properties of plans
// ---------------------------------------------------------------------------

/// A plan names one endpoint for each worker that is not draining, and splits the
/// tensors into as many shares as there are devices: one more than the endpoints
/// where there is local memory. It splits nothing where no worker takes part.
pub proof fn plan_covers_ready_workers(local_vram_mb: u64, workers: Seq<ConnectedWorker>)
    ensures
        ({
            let plan = plan_for(local_vram_mb, workers);
            let ready = workers.filter(|w: ConnectedWorker| !w.draining).len();
            let shares = split_shares(local_vram_mb, workers, serving_order(workers));
            &&& plan.rpc_endpoints.len() == ready
            &&& plan.tensor_split is None <==> ready == 0
            &&& plan.tensor_split matches Some(split) ==> split == joined(shares, ","@)
            &&& shares.len() == ready + (if local_vram_mb > 0 {
                1nat
            } else {
                0nat
            })
        }),
{
    serving_order_exists(workers);
}

/// In a plan, no worker that may be preempted comes before one that stays, and
/// among workers of the same kind the memory does not grow.
pub proof fn plan_prefers_stable_and_large(workers: Seq<ConnectedWorker>, k: int, l: int)
    requires
        0 <= k < l < serving_order(workers).len(),
    ensures
        ({
            let a = workers[serving_order(workers)[k]].announce;
            let b = workers[serving_order(workers)[l]].announce;
            &&& a.preemptible ==> b.preemptible
            &&& a.preemptible == b.preemptible ==> a.vram_mb >= b.vram_mb
        }),
{
    serving_order_exists(workers);
    assert(goes_before(workers, serving_order(workers)[k], serving_order(workers)[l]));
}

/// A plan takes from the workers only whether they may be preempted, their memory and
/// their proxy ports, and only from those that are not draining. Where two lists agree
/// in that, in order, they have the same plan.
pub proof fn plan_depends_on_ready_shares(
    local_vram_mb: u64,
    a: Seq<ConnectedWorker>,
    b: Seq<ConnectedWorker>,
)
    requires
        ready_shares(a) == ready_shares(b),
    ensures
        plan_for(local_vram_mb, a) == plan_for(local_vram_mb, b),
{
    served_by_rank(a);
    served_by_rank(b);
    plan_of_served(local_vram_mb, a);
    plan_of_served(local_vram_mb, b);
}

/// To a plan, a worker that drains is as good as gone.
pub proof fn draining_is_absence(local_vram_mb: u64, workers: Seq<ConnectedWorker>, p: int)
    requires
        0 <= p < workers.len(),
    ensures
        plan_for(
            local_vram_mb,
            workers.update(p, ConnectedWorker { draining: true, ..workers[p] }),
        ) == plan_for(local_vram_mb, workers.remove(p)),
{
    let drained = workers.update(p, ConnectedWorker { draining: true, ..workers[p] });
    let gone = workers.remove(p);
    let ready = |w: ConnectedWorker| !w.draining;
    let left = workers.take(p);
    let right = workers.skip(p + 1);
    assert(drained =~= left + seq![drained[p]] + right);
    assert(gone =~= left + right);
    Seq::filter_distributes_over_add(left + seq![drained[p]], right, ready);
    Seq::filter_distributes_over_add(left, seq![drained[p]], ready);
    Seq::filter_distributes_over_add(left, right, ready);
    assert(seq![drained[p]].filter(ready) =~= Seq::empty()) by {
        reveal_with_fuel(Seq::<ConnectedWorker>::filter, 2);
        assert(seq![drained[p]].drop_last() =~= Seq::empty());
    }
    assert(drained.filter(ready) =~= gone.filter(ready));
    plan_depends_on_ready_shares(local_vram_mb, drained, gone);
}

/// What decides the rank of a worker.
pub open spec fn rank_of(share: Share) -> (bool, u64) {
    (share.preemptible, share.vram_mb)
}

/// The order of ranks.
spec fn rank_le(a: (bool, u64), b: (bool, u64)) -> bool {
    (!a.0 && b.0) || (a.0 == b.0 && a.1 >= b.1)
}

/// The values of a list of named workers.
pub open spec fn values_of(pairs: Seq<(Seq<char>, ConnectedWorker)>) -> Seq<ConnectedWorker> {
    pairs.map_values(|entry: (Seq<char>, ConnectedWorker)| entry.1)
}

/// Permuted sequences stay permuted under a map.
proof fn permuted_under_map<A, B>(x: Seq<A>, y: Seq<A>, f: spec_fn(A) -> B)
    requires
        x.to_multiset() == y.to_multiset(),
    ensures
        x.map_values(f).to_multiset() == y.map_values(f).to_multiset(),
    decreases x.len(),
{
    broadcast use vstd::multiset::group_multiset_axioms;
    broadcast use vstd::seq_lib::group_to_multiset_ensures;

    if x.len() == 0 {
        x.to_multiset_ensures();
        y.to_multiset_ensures();
        assert(x.map_values(f) =~= y.map_values(f));
    } else {
        let last = x.len() - 1;
        assert(x.to_multiset().contains(x[last]));
        assert(y.contains(x[last]));
        let i = y.index_of(x[last]);
        let fx = x.map_values(f);
        let fy = y.map_values(f);
        assert(x.remove(last).to_multiset() == y.remove(i).to_multiset());
        permuted_under_map(x.remove(last), y.remove(i), f);
        assert(fx.remove(last) =~= x.remove(last).map_values(f));
        assert(fy.remove(i) =~= y.remove(i).map_values(f));
        assert(fx.to_multiset().remove(f(x[last])) == fy.to_multiset().remove(f(x[last])));
        assert(fx.contains(fx[last]) && fy.contains(fy[i]));
        assert(fx.to_multiset().count(f(x[last])) > 0 && fy.to_multiset().count(f(x[last])) > 0);
        assert(fx.to_multiset() =~= fx.to_multiset().remove(f(x[last])).insert(f(x[last])));
        assert(fy.to_multiset() =~= fy.to_multiset().remove(f(x[last])).insert(f(x[last])));
    }
}

/// Sequences without repetition that hold the same elements are permuted.
proof fn same_elements_permuted<A>(x: Seq<A>, y: Seq<A>)
    requires
        x.no_duplicates(),
        y.no_duplicates(),
        forall|a: A| x.contains(a) <==> y.contains(a),
    ensures
        x.to_multiset() == y.to_multiset(),
{
    broadcast use vstd::multiset::group_multiset_axioms;
    broadcast use vstd::seq_lib::group_to_multiset_ensures;

    x.lemma_multiset_has_no_duplicates();
    y.lemma_multiset_has_no_duplicates();
    assert forall|a: A| x.to_multiset().count(a) == y.to_multiset().count(a) by {
        assert(x.contains(a) <==> y.contains(a));
        assert(x.to_multiset().contains(a) <==> x.to_multiset().count(a) > 0);
        assert(y.to_multiset().contains(a) <==> y.to_multiset().count(a) > 0);
    }
    assert(x.to_multiset() =~= y.to_multiset());
}

/// A serving order lists no position twice.
proof fn serving_order_no_duplicates(workers: Seq<ConnectedWorker>, order: Seq<int>)
    requires
        is_serving_order(workers, order),
    ensures
        order.no_duplicates(),
{
    assert forall|k: int, l: int| 0 <= k < order.len() && 0 <= l < order.len() && k
        != l implies order[k] != order[l] by {
        if k < l {
            assert(goes_before(workers, order[k], order[l]));
        } else {
            assert(goes_before(workers, order[l], order[k]));
        }
    }
}

/// The served shares come in the order of their ranks, and so two lists whose shares
/// are permuted serve the same ranks.
proof fn permuted_shares_rank_alike(a: Seq<ConnectedWorker>, b: Seq<ConnectedWorker>)
    requires
        ready_shares(a).to_multiset() == ready_shares(b).to_multiset(),
    ensures
        served_shares(a).to_multiset() == served_shares(b).to_multiset(),
        served_shares(a).len() == served_shares(b).len(),
        forall|k: int|
            0 <= k < served_shares(a).len() ==> rank_of(#[trigger] served_shares(a)[k]) == rank_of(
                served_shares(b)[k],
            ),
{
    served_by_rank(a);
    served_by_rank(b);
    let sa = served_shares(a);
    let sb = served_shares(b);
    sa.to_multiset_ensures();
    sb.to_multiset_ensures();
    let rank = |s: Share| rank_of(s);
    let leq = |x: (bool, u64), y: (bool, u64)| rank_le(x, y);
    permuted_under_map(sa, sb, rank);
    let ra = sa.map_values(rank);
    let rb = sb.map_values(rank);
    served_ranks_are_sorted(a);
    served_ranks_are_sorted(b);
    lemma_sorted_unique(ra, rb, leq);
    assert forall|k: int| 0 <= k < sa.len() implies rank_of(#[trigger] sa[k]) == rank_of(sb[k]) by {
        assert(ra[k] == rb[k]);
    }
}

/// The served shares come in the order of their ranks.
proof fn served_ranks_are_sorted(workers: Seq<ConnectedWorker>)
    ensures
        sorted_by(
            served_shares(workers).map_values(|s: Share| rank_of(s)),
            |x: (bool, u64), y: (bool, u64)| rank_le(x, y),
        ),
{
    serving_order_exists(workers);
    let order = serving_order(workers);
    let ranks = served_shares(workers).map_values(|s: Share| rank_of(s));
    let leq = |x: (bool, u64), y: (bool, u64)| rank_le(x, y);
    assert forall|k: int, l: int| 0 <= k < l < ranks.len() implies #[trigger] leq(
        ranks[k],
        ranks[l],
    ) by {
        assert(goes_before(workers, order[k], order[l]));
    }
}

/// The tensor split depends on which shares the ready workers have, and not on the
/// order in which the workers are listed; and so it is with which endpoints there are.
pub proof fn plan_ignores_order_of_shares(
    local_vram_mb: u64,
    a: Seq<ConnectedWorker>,
    b: Seq<ConnectedWorker>,
)
    requires
        ready_shares(a).to_multiset() == ready_shares(b).to_multiset(),
    ensures
        plan_for(local_vram_mb, a).tensor_split == plan_for(local_vram_mb, b).tensor_split,
        plan_for(local_vram_mb, a).rpc_endpoints.to_multiset() == plan_for(
            local_vram_mb,
            b,
        ).rpc_endpoints.to_multiset(),
{
    permuted_shares_rank_alike(a, b);
    plan_of_served(local_vram_mb, a);
    plan_of_served(local_vram_mb, b);
    let sa = served_shares(a);
    let sb = served_shares(b);
    permuted_under_map(sa, sb, |s: Share| endpoint_at(s.proxy_port));
    assert(sa.map_values(|s: Share| decimal(s.vram_mb as nat)) =~= sb.map_values(
        |s: Share| decimal(s.vram_mb as nat),
    )) by {
        assert forall|k: int| 0 <= k < sa.len() implies (#[trigger] sa[k]).vram_mb
            == sb[k].vram_mb by {
            assert(rank_of(sa[k]) == rank_of(sb[k]));
        }
    }
}

/// Where no two ready workers rank the same, the whole plan depends only on which
/// shares they have.
pub proof fn plan_without_ties_ignores_order(
    local_vram_mb: u64,
    a: Seq<ConnectedWorker>,
    b: Seq<ConnectedWorker>,
)
    requires
        ready_shares(a).to_multiset() == ready_shares(b).to_multiset(),
        forall|k: int, l: int|
            0 <= k < l < ready_shares(b).len() ==> rank_of(#[trigger] ready_shares(b)[k])
                != rank_of(#[trigger] ready_shares(b)[l]),
    ensures
        plan_for(local_vram_mb, a) == plan_for(local_vram_mb, b),
{
    permuted_shares_rank_alike(a, b);
    plan_of_served(local_vram_mb, a);
    plan_of_served(local_vram_mb, b);
    served_by_rank(b);
    let sa = served_shares(a);
    let sb = served_shares(b);
    let shares = ready_shares(b);
    sa.to_multiset_ensures();
    sb.to_multiset_ensures();
    shares.to_multiset_ensures();
    assert forall|k: int| 0 <= k < sa.len() implies sa[k] == sb[k] by {
        assert(rank_of(sa[k]) == rank_of(sb[k]));
        assert(sa.contains(sa[k]) && sb.contains(sb[k]));
        assert(shares.to_multiset().count(sa[k]) > 0 && shares.to_multiset().count(sb[k]) > 0);
        let i = shares.index_of(sa[k]);
        let j = shares.index_of(sb[k]);
        assert(rank_of(shares[i]) == rank_of(shares[j]));
        assert(i == j);
    }
    assert(sa =~= sb);
}

/// Two listings of the same workers have the same ready shares, in one order or
/// another.
proof fn listings_share_alike(
    a: Seq<(Seq<char>, ConnectedWorker)>,
    b: Seq<(Seq<char>, ConnectedWorker)>,
)
    requires
        distinct_names(a),
        distinct_names(b),
        contents(a) == contents(b),
    ensures
        ready_shares(values_of(a)).to_multiset() == ready_shares(values_of(b)).to_multiset(),
{
    let va = values_of(a);
    let vb = values_of(b);
    serving_order_exists(va);
    serving_order_exists(vb);
    let oa = serving_order(va);
    let ob = serving_order(vb);
    serving_order_no_duplicates(va, oa);
    serving_order_no_duplicates(vb, ob);
    let place = |p: int| choose|q: int| 0 <= q < b.len() && (#[trigger] b[q]).0 == a[p].0;
    assert forall|p: int| 0 <= p < a.len() implies 0 <= #[trigger] place(p) < b.len()
        && b[place(p)].0 == a[p].0 && vb[place(p)] == va[p] by {
        entry_is_content(a, p);
        assert(contents(b).contains_key(a[p].0));
        entry_is_content(b, place(p));
    }
    let t = oa.map_values(place);
    assert forall|k: int| 0 <= k < t.len() implies 0 <= (#[trigger] t[k]) < b.len()
        && !vb[t[k]].draining && vb[t[k]] == va[oa[k]] by {
        assert(t[k] == place(oa[k]) && 0 <= oa[k] < a.len());
    }
    assert(t.no_duplicates()) by {
        assert forall|k: int, l: int| 0 <= k < t.len() && 0 <= l < t.len() && k != l implies t[k]
            != t[l] by {
            assert(0 <= oa[k] < a.len() && 0 <= oa[l] < a.len());
            assert(t[k] == place(oa[k]) && t[l] == place(oa[l]));
            assert(a[oa[k]].0 != a[oa[l]].0);
        }
    }
    assert forall|q: int| t.contains(q) <==> ob.contains(q) by {
        if t.contains(q) {
            assert(!vb[q].draining);
        }
        if ob.contains(q) {
            let k = ob.index_of(q);
            assert(!vb[ob[k]].draining);
            entry_is_content(b, q);
            assert(contents(a).contains_key(b[q].0));
            let p = choose|p: int| 0 <= p < a.len() && (#[trigger] a[p]).0 == b[q].0;
            entry_is_content(a, p);
            assert(!va[p].draining);
            assert(oa.contains(p));
            assert(b[place(p)].0 == b[q].0);
            assert(place(p) == q);
            assert(t[oa.index_of(p)] == q);
        }
    }
    same_elements_permuted(t, ob);
    let share = |q: int| share_of(vb[q]);
    permuted_under_map(t, ob, share);
    assert(served_shares(va) =~= t.map_values(share)) by {
        assert forall|k: int| 0 <= k < oa.len() implies share_of(va[#[trigger] oa[k]])
            == share(t[k]) by {
            assert(vb[t[k]] == va[oa[k]]);
        }
    }
    assert(served_shares(vb) =~= ob.map_values(share));
    served_by_rank(va);
    served_by_rank(vb);
}

/// The tensor split depends on which workers are there, and not on the order in
/// which the table lists them; and so it is with which endpoints there are.
pub proof fn plan_ignores_table_order(
    local_vram_mb: u64,
    a: Seq<(Seq<char>, ConnectedWorker)>,
    b: Seq<(Seq<char>, ConnectedWorker)>,
)
    requires
        distinct_names(a),
        distinct_names(b),
        contents(a) == contents(b),
    ensures
        plan_for(local_vram_mb, values_of(a)).tensor_split == plan_for(
            local_vram_mb,
            values_of(b),
        ).tensor_split,
        plan_for(local_vram_mb, values_of(a)).rpc_endpoints.to_multiset() == plan_for(
            local_vram_mb,
            values_of(b),
        ).rpc_endpoints.to_multiset(),
{
    listings_share_alike(a, b);
    plan_ignores_order_of_shares(local_vram_mb, values_of(a), values_of(b));
}

/// Where no two ready workers rank the same, the whole plan depends only on which
/// workers are there.
pub proof fn plan_without_ties_ignores_table_order(
    local_vram_mb: u64,
    a: Seq<(Seq<char>, ConnectedWorker)>,
    b: Seq<(Seq<char>, ConnectedWorker)>,
)
    requires
        distinct_names(a),
        distinct_names(b),
        contents(a) == contents(b),
        forall|k: int, l: int|
            0 <= k < l < ready_shares(values_of(b)).len() ==> rank_of(
                #[trigger] ready_shares(values_of(b))[k],
            ) != rank_of(#[trigger] ready_shares(values_of(b))[l]),
    ensures
        plan_for(local_vram_mb, values_of(a)) == plan_for(local_vram_mb, values_of(b)),
{
    listings_share_alike(a, b);
    plan_without_ties_ignores_order(local_vram_mb, values_of(a), values_of(b));
}

} // verus!
