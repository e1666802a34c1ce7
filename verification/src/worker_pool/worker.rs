//! A worker that keeps a market graph up to date and answers orders.
use vstd::prelude::*;

use crate::feed::market_data::{MarketEvent, MarketState, Topology};
use crate::feed::permission::PermissionContext;
use crate::text::name_is_among;
use crate::types::options::SolveParams;
use crate::types::order::Order;
use crate::types::route::ProtocolComponent;
use crate::worker_pool::quoting::QuoteRun;

verus! {

/// A worker, as far as it decides what it does.
#[derive(Debug)]
pub struct SolverWorker<F> {
    /// Identifier of the worker.
    pub worker_id: usize,
    /// Name of the algorithm.
    pub algorithm: String,
    /// The computations that the algorithm needs.
    pub requirements: Vec<String>,
    /// Whether the graph has been built.
    pub initialized: bool,
    /// Which components the worker's graph may hold.
    pub permission: PermissionContext<F>,
}

/// What a worker hears. Where several things have happened, they are told in this order: shutdown,
/// market, derived data, tasks.
#[derive(Debug)]
pub enum WorkerEvent {
    /// The pool shuts down.
    Shutdown,
    /// The market has changed.
    Market,
    /// There will be no news of the market any more.
    MarketClosed,
    /// Some changes of the market were missed.
    MarketLagged,
    /// A computation is complete.
    ComputationComplete(String),
    /// Something else has become of the computations.
    Derived,
    /// There will be no news of the computations any more.
    DerivedClosed,
    /// Some news of the computations were missed.
    DerivedLagged,
    /// There is an order to solve.
    Task,
    /// There will be no orders any more.
    TasksClosed,
}

/// What a worker does.
#[derive(Debug, Clone, Copy, PartialEq, Eq, Structural)]
pub enum WorkerAction {
    /// Stop.
    Stop,
    /// Take the change into the graph.
    ProcessEvent,
    /// Build the graph anew from the market as it is.
    InitializeGraph,
    /// Take the news of the computations in, tell who waits for them, and update the weights of the
    /// graph where told to.
    TrackReadiness { update_weights: bool },
    /// Update the weights of the graph.
    UpdateWeights,
    /// Wait for readiness, solve the order and answer it.
    Solve,
    /// Go on.
    Continue,
}

/// What a worker does on what it hears.
pub open spec fn reaction(requirements: Seq<String>, event: WorkerEvent) -> WorkerAction {
    match event {
        WorkerEvent::Shutdown => WorkerAction::Stop,
        WorkerEvent::Market => WorkerAction::ProcessEvent,
        WorkerEvent::MarketClosed => WorkerAction::Stop,
        WorkerEvent::MarketLagged => WorkerAction::InitializeGraph,
        WorkerEvent::ComputationComplete(id) => WorkerAction::TrackReadiness {
            update_weights: crate::text::is_named(requirements, id@),
        },
        WorkerEvent::Derived => WorkerAction::TrackReadiness { update_weights: false },
        WorkerEvent::DerivedClosed => WorkerAction::Continue,
        WorkerEvent::DerivedLagged => WorkerAction::UpdateWeights,
        WorkerEvent::Task => WorkerAction::Solve,
        WorkerEvent::TasksClosed => WorkerAction::Stop,
    }
}

impl<F: Fn(&ProtocolComponent) -> bool> SolverWorker<F> {
    /// Creates a worker that sees every component and whose graph is not built.
    pub fn new(algorithm: String, requirements: Vec<String>, worker_id: usize) -> (r: Self)
        ensures
            r == (SolverWorker::<F> {
                worker_id,
                algorithm,
                requirements,
                initialized: false,
                permission: PermissionContext {
                    scope: crate::feed::permission::ComponentScope::IncludeAll,
                    policy: None,
                },
            }),
    {
        SolverWorker {
            worker_id,
            algorithm,
            requirements,
            initialized: false,
            permission: PermissionContext::include_all(),
        }
    }

    /// Restricts the components that the worker's graph may hold.
    pub fn with_permission(self, permission: PermissionContext<F>) -> (r: Self)
        ensures
            r == (SolverWorker { permission: permission, ..self }),
    {
        SolverWorker { permission: permission, ..self }
    }

    /// The components to build the graph of: those of the market that the worker may see.
    pub fn initialize_graph(&mut self, market: &MarketState) -> (r: Topology)
        requires
            old(self).permission.enforced() matches Some(policy) ==> policy.is_total(),
        ensures
            *final(self) == (SolverWorker { initialized: true, ..*old(self) }),
            crate::feed::permission::is_visible_topology(
                old(self).permission,
                *market,
                crate::feed::market_data::topology_of(market.components.entries@),
                r.entries@,
            ),
    {
        let topology: Topology = market.component_topology();
        self.initialized = true;
        self.permission.filter_topology(market, topology)
    }

    /// A change of the market, as far as the worker may see it.
    pub fn process_event(&self, market: &MarketState, event: MarketEvent) -> (r: MarketEvent)
        requires
            self.permission.enforced() matches Some(policy) ==> policy.is_total(),
        ensures
            crate::feed::permission::is_visible_event(self.permission, *market, event, r),
    {
        self.permission.scope_event(market, event)
    }

    /// What the worker does on what it hears.
    pub fn react(&self, event: &WorkerEvent) -> (r: WorkerAction)
        ensures
            r == reaction(self.requirements@, *event),
    {
        match event {
            WorkerEvent::Shutdown => WorkerAction::Stop,
            WorkerEvent::Market => WorkerAction::ProcessEvent,
            WorkerEvent::MarketClosed => WorkerAction::Stop,
            WorkerEvent::MarketLagged => WorkerAction::InitializeGraph,
            WorkerEvent::ComputationComplete(id) => WorkerAction::TrackReadiness {
                update_weights: self.requires_computation(id),
            },
            WorkerEvent::Derived => WorkerAction::TrackReadiness { update_weights: false },
            WorkerEvent::DerivedClosed => WorkerAction::Continue,
            WorkerEvent::DerivedLagged => WorkerAction::UpdateWeights,
            WorkerEvent::Task => WorkerAction::Solve,
            WorkerEvent::TasksClosed => WorkerAction::Stop,
        }
    }

    /// Whether the algorithm needs a computation.
    pub fn requires_computation(&self, id: &String) -> (r: bool)
        ensures
            r == crate::text::is_named(self.requirements@, id@),
    {
        name_is_among(&self.requirements, id)
    }

    /// Takes an order on, to be solved against a named state overlay or the base state.
    pub fn quote(&self, order: &Order, params: SolveParams) -> (r: QuoteRun)
        ensures
            r == (QuoteRun {
                order: *order,
                params,
                algorithm: self.algorithm,
                initialized: self.initialized,
                stage: crate::worker_pool::quoting::QuoteStage::Taken,
            }),
    {
        QuoteRun::new(order.clone(), params, self.algorithm.clone(), self.initialized)
    }
}

/// A worker stops exactly on shutdown or where nothing more will come of the market or of orders. It takes
/// every change of the market into its graph, builds it anew where it missed some, and solves every order.
pub proof fn workers_keep_up_with_the_market(requirements: Seq<String>, event: WorkerEvent)
    ensures
        reaction(requirements, event) is Stop <==> event is Shutdown || event is MarketClosed
            || event is TasksClosed,
        reaction(requirements, event) is ProcessEvent <==> event is Market,
        reaction(requirements, event) is InitializeGraph <==> event is MarketLagged,
        reaction(requirements, event) is Solve <==> event is Task,
        reaction(requirements, event) is Continue <==> event is DerivedClosed,
{
}

/// A worker updates the weights of its graph where it missed news of the computations, and where one that
/// its algorithm needs is complete; of all other news it only keeps track.
pub proof fn weights_follow_the_needed_computations(requirements: Seq<String>, event: WorkerEvent)
    ensures
        reaction(requirements, event) is UpdateWeights <==> event is DerivedLagged,
        reaction(requirements, event) is TrackReadiness <==> event is Derived
            || event is ComputationComplete,
        event is Derived ==> reaction(requirements, event) == (WorkerAction::TrackReadiness {
            update_weights: false,
        }),
        event matches WorkerEvent::ComputationComplete(id) ==> (reaction(requirements, event) == (
        WorkerAction::TrackReadiness { update_weights: true }) <==> exists|i: int|
            0 <= i < requirements.len() && (#[trigger] requirements[i])@ == id@),
{
    match event {
        WorkerEvent::ComputationComplete(id) => {
            if crate::text::is_named(requirements, id@) {
                let i = choose|i: int|
                    0 <= i < requirements.len() && #[trigger] requirements[i]@ == id@;
                assert(requirements[i]@ == id@);
            }
        },
        _ => {},
    }
}

} // verus!
