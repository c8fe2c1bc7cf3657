//! The coordinator's main loop: it takes the reports of the connections, lets a
//! burst of them settle, and reloads llama-swap with a plan for what is there.
use crate::coord::after_event;
use crate::coord::apply_event;
use crate::coord::changes;
use crate::coord::CoordEvent;
use crate::coord::Workers;
use crate::table::contents;
use crate::table::distinct_names;
use crate::table::Table;
use crate::topology::plan_for;
use crate::topology::plan_topology;
use crate::topology::values_of;
use crate::topology::ConnectedWorker;
use crate::topology::TopologyPlan;
use vstd::prelude::*;

verus! {

/// Milliseconds to wait, after a change, for more of them.
pub const SETTLE_MS: u64 = 500;

/// What the loop is waiting for.
#[derive(Debug, Clone, Copy, PartialEq, Eq, Structural)]
pub enum CoordPhase {
    /// The end of the first reload.
    Booting,
    /// A report.
    Idle,
    /// The end of the pause after a change.
    Settling,
    /// The reports that arrived meanwhile.
    Gathering,
    /// The end of a reload.
    Reloading,
    /// Nothing: the loop is over.
    Over,
}

/// What can happen to the loop.
pub enum CoordInput {
    /// llama-swap runs with the last plan.
    Reloaded,
    /// llama-swap could not be reloaded.
    ReloadFailed,
    /// A connection reports.
    Report(CoordEvent),
    /// No connection will report any more.
    Closed,
    /// The pause is over.
    Settled,
    /// No further report is at hand.
    NoMore,
}

/// What the loop does next.
pub enum CoordAction {
    /// Reload llama-swap with this plan.
    Reload(TopologyPlan),
    /// Wait for a report.
    Receive,
    /// Pause for so many milliseconds.
    Settle(u64),
    /// Take a report, if one is at hand.
    Poll,
    /// End the loop.
    Finish,
    /// End the loop: llama-swap never ran.
    Fail,
}

/// The state of the loop as far as it decides what follows.
pub struct CoordState {
    pub phase: CoordPhase,
    pub workers: Workers,
}

/// Whether `input` can happen in `phase`.
pub open spec fn awaited(phase: CoordPhase, input: CoordInput) -> bool {
    match phase {
        CoordPhase::Booting | CoordPhase::Reloading => input is Reloaded || input is ReloadFailed,
        CoordPhase::Idle => input is Report || input is Closed,
        CoordPhase::Settling => input is Settled,
        CoordPhase::Gathering => input is Report || input is NoMore,
        CoordPhase::Over => false,
    }
}

/// The state after `input`. Every report is applied; a change starts a pause, the
/// reports that arrive in it are gathered, and a reload follows whatever they say.
pub open spec fn advanced(state: CoordState, input: CoordInput) -> CoordState {
    let workers = match input {
        CoordInput::Report(event) => after_event(state.workers, event),
        _ => state.workers,
    };
    let phase = match (state.phase, input) {
        (CoordPhase::Booting, CoordInput::ReloadFailed) => CoordPhase::Over,
        (CoordPhase::Booting, _) => CoordPhase::Idle,
        (CoordPhase::Idle, CoordInput::Report(event)) => if changes(state.workers, event) {
            CoordPhase::Settling
        } else {
            CoordPhase::Idle
        },
        (CoordPhase::Idle, _) => CoordPhase::Over,
        (CoordPhase::Settling, _) => CoordPhase::Gathering,
        (CoordPhase::Gathering, CoordInput::Report(_)) => CoordPhase::Gathering,
        (CoordPhase::Gathering, _) => CoordPhase::Reloading,
        (CoordPhase::Reloading, _) => CoordPhase::Idle,
        (CoordPhase::Over, _) => CoordPhase::Over,
    };
    CoordState { phase, workers }
}

/// The loop of one coordinator.
pub struct Coordinator {
    local_vram_mb: u64,
    workers: Table<ConnectedWorker>,
    phase: CoordPhase,
}

impl Coordinator {
    /// The loop's invariant: the table lists each of the workers once.
    pub open spec fn wf(&self) -> bool {
        &&& distinct_names(self.entries())
        &&& contents(self.entries()) == self.state().workers
    }

    /// The state of the loop.
    pub closed spec fn state(&self) -> CoordState {
        CoordState { phase: self.phase, workers: self.workers@ }
    }

    /// The workers with their names, in the order of the table.
    pub closed spec fn entries(&self) -> Seq<(Seq<char>, ConnectedWorker)> {
        self.workers.pairs()
    }

    /// The memory of the coordinator's own machine.
    pub closed spec fn local_vram_mb(&self) -> u64 {
        self.local_vram_mb
    }

    /// `action` is what the loop does in its present state.
    pub open spec fn acts(&self, action: CoordAction, booted: bool) -> bool {
        match self.state().phase {
            CoordPhase::Booting | CoordPhase::Reloading => action is Reload && action->Reload_0@
                == plan_for(self.local_vram_mb(), values_of(self.entries())),
            CoordPhase::Idle => action is Receive,
            CoordPhase::Settling => action == CoordAction::Settle(SETTLE_MS),
            CoordPhase::Gathering => action is Poll,
            CoordPhase::Over => if booted {
                action is Finish
            } else {
                action is Fail
            },
        }
    }

    /// Starts the loop without workers. llama-swap is to run before anything else.
    pub fn start(local_vram_mb: u64) -> (res: (Coordinator, CoordAction))
        ensures
            res.0.wf(),
            res.0.local_vram_mb() == local_vram_mb,
            res.0.state() == (CoordState { phase: CoordPhase::Booting, workers: Map::empty() }),
            res.0.entries().len() == 0,
            res.0.acts(res.1, false),
    {
        let workers: Table<ConnectedWorker> = Table::new();
        let plan = plan_topology(local_vram_mb, &workers);
        (Coordinator { local_vram_mb, workers, phase: CoordPhase::Booting }, CoordAction::Reload(plan))
    }

    /// Whether `input` can happen now.
    pub fn awaits(&self, input: &CoordInput) -> (res: bool)
        ensures
            res == awaited(self.state().phase, *input),
    {
        match self.phase {
            CoordPhase::Booting => matches!(input, CoordInput::Reloaded | CoordInput::ReloadFailed),
            CoordPhase::Reloading => matches!(
                input,
                CoordInput::Reloaded | CoordInput::ReloadFailed
            ),
            CoordPhase::Idle => matches!(input, CoordInput::Report(_) | CoordInput::Closed),
            CoordPhase::Settling => matches!(input, CoordInput::Settled),
            CoordPhase::Gathering => matches!(input, CoordInput::Report(_) | CoordInput::NoMore),
            CoordPhase::Over => false,
        }
    }

    /// One step of the loop.
    pub fn coordinator_task(&mut self, input: CoordInput) -> (action: CoordAction)
        requires
            old(self).wf(),
            awaited(old(self).state().phase, input),
        ensures
            final(self).wf(),
            final(self).local_vram_mb() == old(self).local_vram_mb(),
            final(self).state() == advanced(old(self).state(), input),
            final(self).acts(action, !(old(self).state().phase is Booting)),
    {
        match input {
            CoordInput::Report(event) => {
                let changed = apply_event(&mut self.workers, event);
                if self.phase == CoordPhase::Gathering {
                    CoordAction::Poll
                } else if changed {
                    self.phase = CoordPhase::Settling;
                    CoordAction::Settle(SETTLE_MS)
                } else {
                    CoordAction::Receive
                }
            },
            CoordInput::Closed => {
                self.phase = CoordPhase::Over;
                CoordAction::Finish
            },
            CoordInput::Settled => {
                self.phase = CoordPhase::Gathering;
                CoordAction::Poll
            },
            CoordInput::NoMore => {
                self.phase = CoordPhase::Reloading;
                CoordAction::Reload(plan_topology(self.local_vram_mb, &self.workers))
            },
            CoordInput::Reloaded => {
                self.phase = CoordPhase::Idle;
                CoordAction::Receive
            },
            CoordInput::ReloadFailed => {
                if self.phase == CoordPhase::Booting {
                    self.phase = CoordPhase::Over;
                    CoordAction::Fail
                } else {
                    self.phase = CoordPhase::Idle;
                    CoordAction::Receive
                }
            },
        }
    }
}

/// A coordinator's history: its state, and the workers that the last reload was
/// planned for.
pub struct History {
    pub state: CoordState,
    pub planned: Workers,
}

/// Whether all of `inputs`, in order, can happen to a coordinator that starts.
pub open spec fn possible(inputs: Seq<CoordInput>) -> bool
    decreases inputs.len(),
{
    inputs.len() == 0 || (possible(inputs.drop_last()) && awaited(
        history(inputs.drop_last()).state.phase,
        inputs.last(),
    ))
}

/// The history after `inputs`.
pub open spec fn history(inputs: Seq<CoordInput>) -> History
    decreases inputs.len(),
{
    if inputs.len() == 0 {
        History {
            state: CoordState { phase: CoordPhase::Booting, workers: Map::empty() },
            planned: Map::empty(),
        }
    } else {
        let before = history(inputs.drop_last());
        let state = advanced(before.state, inputs.last());
        History {
            state,
            planned: if state.phase is Reloading {
                state.workers
            } else {
                before.planned
            },
        }
    }
}

/// The workers after all reports among `inputs`.
pub open spec fn reported(inputs: Seq<CoordInput>) -> Workers
    decreases inputs.len(),
{
    if inputs.len() == 0 {
        Map::empty()
    } else {
        match inputs.last() {
            CoordInput::Report(event) => after_event(reported(inputs.drop_last()), event),
            _ => reported(inputs.drop_last()),
        }
    }
}

/// No report is lost: whenever it arrives, it is applied, in order.
pub proof fn every_report_is_applied(inputs: Seq<CoordInput>)
    ensures
        history(inputs).state.workers == reported(inputs),
    decreases inputs.len(),
{
    if inputs.len() > 0 {
        every_report_is_applied(inputs.drop_last());
    }
}

/// Whenever the coordinator waits for reports, or is about to see a reload end, the
/// last plan was made for exactly the workers that are there.
pub proof fn resting_plan_is_current(inputs: Seq<CoordInput>)
    requires
        possible(inputs),
    ensures
        ({
            let phase = history(inputs).state.phase;
            phase is Booting || phase is Idle || phase is Reloading || phase is Over
                ==> history(inputs).planned == history(inputs).state.workers
        }),
    decreases inputs.len(),
{
    if inputs.len() > 0 {
        resting_plan_is_current(inputs.drop_last());
    }
}

} // verus!
