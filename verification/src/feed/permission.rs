//! Per-worker permission scoping for permissioned pools.
//!
//! Some pools are exclusive: they must never appear in a public quote, yet a dedicated worker may
//! route through them to capture the surplus that they offer above the public rate. Each worker's
//! topology and events are filtered by a policy, according to the worker's scope; the market itself
//! is shared.
use std::sync::Arc;

use vstd::prelude::*;

use crate::bytes::Address;
use crate::feed::market_data::{MarketEvent, MarketState, Topology};
use crate::table::Table;
use crate::types::route::{ComponentId, ProtocolComponent};

verus! {

/// Classifies a component as permissioned or public, by a predicate of the caller. The predicate is
/// shared, so a copy of a policy is the policy itself.
#[derive(Debug)]
pub struct PermissionPolicy<F> {
    pub predicate: Arc<F>,
}

impl<F> Clone for PermissionPolicy<F> {
    fn clone(&self) -> (r: Self)
        ensures
            r == *self,
    {
        PermissionPolicy { predicate: self.predicate.clone() }
    }
}

impl<F: Fn(&ProtocolComponent) -> bool> PermissionPolicy<F> {
    /// The predicate can be asked about every component.
    pub open spec fn is_total(self) -> bool {
        forall|component: &ProtocolComponent| #[trigger]
            call_requires(*self.predicate, (component,))
    }

    /// The predicate may give this answer about a component.
    pub open spec fn says(self, component: ProtocolComponent, permissioned: bool) -> bool {
        call_ensures(*self.predicate, (&component,), permissioned)
    }

    /// Creates a policy from a predicate identifying permissioned components.
    pub fn new(predicate: F) -> (r: Self)
        ensures
            *r.predicate == predicate,
    {
        PermissionPolicy { predicate: Arc::new(predicate) }
    }

    /// Whether a component is permissioned.
    pub fn is_permissioned(&self, component: &ProtocolComponent) -> (r: bool)
        requires
            self.is_total(),
        ensures
            self.says(*component, r),
    {
        let predicate: &F = &self.predicate;
        predicate(component)
    }
}

/// The set of components a worker is allowed to see in its local graph.
#[derive(Debug, Clone, Copy, PartialEq, Eq, Structural)]
pub enum ComponentScope {
    /// Public workers: permissioned components are dropped, so they can never appear in a quote.
    ExcludePermissioned,
    /// Surplus workers: every component is visible.
    IncludeAll,
}

/// Which components a worker may ingest into its local graph: a scope and, optionally, a policy.
#[derive(Debug)]
pub struct PermissionContext<F> {
    pub scope: ComponentScope,
    /// Without a policy nothing is ever filtered.
    pub policy: Option<PermissionPolicy<F>>,
}

/// Whether a policy may call the component behind an id permissioned, or not. Ids that the market
/// does not know are not permissioned.
pub open spec fn judges<F: Fn(&ProtocolComponent) -> bool>(
    policy: PermissionPolicy<F>,
    market: MarketState,
    id: ComponentId,
    permissioned: bool,
) -> bool {
    if market.components@.dom().contains(id@) {
        policy.says(market.components@[id@], permissioned)
    } else {
        !permissioned
    }
}

/// Whether `flags` are what a policy says about ids.
pub open spec fn are_verdicts<F: Fn(&ProtocolComponent) -> bool>(
    policy: PermissionPolicy<F>,
    market: MarketState,
    ids: Seq<ComponentId>,
    flags: Seq<bool>,
) -> bool {
    &&& flags.len() == ids.len()
    &&& forall|i: int| 0 <= i < ids.len() ==> judges(policy, market, ids[i], #[trigger] flags[i])
}

/// The items that are not flagged.
pub open spec fn unflagged<T>(items: Seq<T>, flags: Seq<bool>) -> Seq<T>
    decreases items.len(),
{
    if items.len() == 0 {
        seq![]
    } else {
        let before = unflagged(items.drop_last(), flags.drop_last());
        if flags.last() {
            before
        } else {
            before.push(items.last())
        }
    }
}

/// The ids of a topology.
pub open spec fn ids_of(topology: Seq<(ComponentId, Arc<Vec<Address>>)>) -> Seq<ComponentId> {
    topology.map_values(|e: (ComponentId, Arc<Vec<Address>>)| e.0)
}

/// Whether ids are what is left of others without those that a policy calls permissioned.
pub open spec fn is_public_part<F: Fn(&ProtocolComponent) -> bool>(
    policy: PermissionPolicy<F>,
    market: MarketState,
    ids: Seq<ComponentId>,
    left: Seq<ComponentId>,
) -> bool {
    exists|flags: Seq<bool>| #[trigger]
        are_verdicts(policy, market, ids, flags) && left == unflagged(ids, flags)
}

/// Whether a topology is what is left of another without what a policy calls permissioned.
pub open spec fn is_public_topology<F: Fn(&ProtocolComponent) -> bool>(
    policy: PermissionPolicy<F>,
    market: MarketState,
    topology: Seq<(ComponentId, Arc<Vec<Address>>)>,
    left: Seq<(ComponentId, Arc<Vec<Address>>)>,
) -> bool {
    exists|flags: Seq<bool>| #[trigger]
        are_verdicts(policy, market, ids_of(topology), flags) && left == unflagged(topology, flags)
}

/// Whether a topology is what a worker may see of another.
pub open spec fn is_visible_topology<F: Fn(&ProtocolComponent) -> bool>(
    permission: PermissionContext<F>,
    market: MarketState,
    topology: Seq<(ComponentId, Arc<Vec<Address>>)>,
    left: Seq<(ComponentId, Arc<Vec<Address>>)>,
) -> bool {
    match permission.enforced() {
        Some(policy) => is_public_topology(policy, market, topology, left),
        None => left == topology,
    }
}

/// Whether an event is what a worker may see of another.
pub open spec fn is_visible_event<F: Fn(&ProtocolComponent) -> bool>(
    permission: PermissionContext<F>,
    market: MarketState,
    event: MarketEvent,
    seen: MarketEvent,
) -> bool {
    match permission.enforced() {
        Some(policy) => {
            let MarketEvent::MarketUpdated {
                added_components,
                removed_components,
                updated_components,
            } = event;
            let MarketEvent::MarketUpdated {
                added_components: added,
                removed_components: gone,
                updated_components: changed,
            } = seen;
            &&& is_public_topology(policy, market, added_components.entries@, added.entries@)
            &&& is_public_part(policy, market, removed_components@, gone@)
            &&& is_public_part(policy, market, updated_components@, changed@)
        },
        None => seen == event,
    }
}

impl<F> PermissionContext<F> {
    /// Sees every component.
    pub fn include_all() -> (r: Self)
        ensures
            r == (PermissionContext::<F> { scope: ComponentScope::IncludeAll, policy: None }),
    {
        PermissionContext { scope: ComponentScope::IncludeAll, policy: None }
    }

    /// A scope and, optionally, a policy.
    pub fn new(scope: ComponentScope, policy: Option<PermissionPolicy<F>>) -> (r: Self)
        ensures
            r == (PermissionContext { scope, policy }),
    {
        PermissionContext { scope, policy }
    }
}

impl<F: Fn(&ProtocolComponent) -> bool> PermissionContext<F> {
    /// The policy to enforce, where this worker filters anything.
    pub open spec fn enforced(self) -> Option<PermissionPolicy<F>> {
        if self.scope == ComponentScope::ExcludePermissioned {
            self.policy
        } else {
            None
        }
    }

    /// The policy to enforce, or `None` when this worker filters nothing: it sees everything, or
    /// there is no policy.
    pub fn active_policy(&self) -> (r: Option<&PermissionPolicy<F>>)
        ensures
            match self.enforced() {
                Some(policy) => r == Some(&policy),
                None => r is None,
            },
    {
        match self.scope {
            ComponentScope::ExcludePermissioned => self.policy.as_ref(),
            ComponentScope::IncludeAll => None,
        }
    }

    /// Filters a topology to the components this worker may see. Workers that filter nothing receive
    /// it unchanged.
    pub fn filter_topology(&self, market: &MarketState, topology: Topology) -> (r: Topology)
        requires
            self.enforced() matches Some(policy) ==> policy.is_total(),
        ensures
            is_visible_topology(*self, *market, topology.entries@, r.entries@),
            self.enforced() is None ==> r == topology,
    {
        match self.active_policy() {
            None => topology,
            Some(policy) => public_topology(policy, market, &topology),
        }
    }

    /// Restricts an event to the components this worker may see, so that a permissioned component is
    /// never ingested mid-stream. Workers that filter nothing see it unchanged.
    pub fn scope_event(&self, market: &MarketState, event: MarketEvent) -> (r: MarketEvent)
        requires
            self.enforced() matches Some(policy) ==> policy.is_total(),
        ensures
            is_visible_event(*self, *market, event, r),
    {
        match self.active_policy() {
            None => event,
            Some(policy) => {
                let MarketEvent::MarketUpdated {
                    added_components,
                    removed_components,
                    updated_components,
                } = event;
                MarketEvent::MarketUpdated {
                    added_components: public_topology(policy, market, &added_components),
                    removed_components: filter_component_ids(policy, market, &removed_components),
                    updated_components: filter_component_ids(policy, market, &updated_components),
                }
            },
        }
    }
}

/// Whether the component behind an id is permissioned.
fn judge<F: Fn(&ProtocolComponent) -> bool>(
    policy: &PermissionPolicy<F>,
    market: &MarketState,
    id: &ComponentId,
) -> (r: bool)
    requires
        policy.is_total(),
    ensures
        judges(*policy, *market, *id, r),
{
    match market.get_component(id) {
        Some(component) => policy.is_permissioned(component),
        None => false,
    }
}

/// Keeps only the ids that are not permissioned.
pub fn filter_component_ids<F: Fn(&ProtocolComponent) -> bool>(
    policy: &PermissionPolicy<F>,
    market: &MarketState,
    ids: &Vec<ComponentId>,
) -> (r: Vec<ComponentId>)
    requires
        policy.is_total(),
    ensures
        is_public_part(*policy, *market, ids@, r@),
{
    let ghost mut flags: Seq<bool> = Seq::empty();
    let mut kept: Vec<ComponentId> = Vec::new();
    let mut i: usize = 0;
    while i < ids.len()
        invariant
            i <= ids@.len(),
            policy.is_total(),
            are_verdicts(*policy, *market, ids@.take(i as int), flags),
            kept@ == unflagged(ids@.take(i as int), flags),
        decreases ids@.len() - i,
    {
        let permissioned: bool = judge(policy, market, &ids[i]);
        if !permissioned {
            kept.push(ids[i].clone());
        }
        proof {
            let before = flags;
            flags = flags.push(permissioned);
            let next = ids@.take(i + 1);
            assert(next.drop_last() == ids@.take(i as int));
            assert(flags.drop_last() == before);
            assert forall|j: int| 0 <= j < next.len() implies judges(
                *policy,
                *market,
                next[j],
                #[trigger] flags[j],
            ) by {
                if j < i {
                    assert(judges(*policy, *market, ids@.take(i as int)[j], before[j]));
                }
            }
        }
        i += 1;
    }
    assert(ids@.take(i as int) == ids@);
    assert(are_verdicts(*policy, *market, ids@, flags));
    kept
}

/// Keeps only the components that are not permissioned.
fn public_topology<F: Fn(&ProtocolComponent) -> bool>(
    policy: &PermissionPolicy<F>,
    market: &MarketState,
    topology: &Topology,
) -> (r: Topology)
    requires
        policy.is_total(),
    ensures
        is_public_topology(*policy, *market, topology.entries@, r.entries@),
{
    let ghost entries = topology.entries@;
    let ghost ids = ids_of(topology.entries@);
    let ghost mut flags: Seq<bool> = Seq::empty();
    let mut kept: Vec<(ComponentId, Arc<Vec<Address>>)> = Vec::new();
    let mut i: usize = 0;
    while i < topology.entries.len()
        invariant
            i <= topology.entries@.len(),
            entries == topology.entries@,
            ids == ids_of(topology.entries@),
            policy.is_total(),
            are_verdicts(*policy, *market, ids.take(i as int), flags),
            kept@ == unflagged(entries.take(i as int), flags),
        decreases topology.entries@.len() - i,
    {
        let entry: &(ComponentId, Arc<Vec<Address>>) = &topology.entries[i];
        let permissioned: bool = judge(policy, market, &entry.0);
        if !permissioned {
            kept.push((entry.0.clone(), entry.1.clone()));
        }
        proof {
            let before = flags;
            flags = flags.push(permissioned);
            let next = ids.take(i + 1);
            assert(entries.take(i + 1).drop_last() == entries.take(i as int));
            assert(flags.drop_last() == before);
            assert forall|j: int| 0 <= j < next.len() implies judges(
                *policy,
                *market,
                next[j],
                #[trigger] flags[j],
            ) by {
                if j < i {
                    assert(judges(*policy, *market, ids.take(i as int)[j], before[j]));
                }
            }
        }
        i += 1;
    }
    assert(ids.take(i as int) == ids);
    assert(entries.take(i as int) == entries);
    assert(are_verdicts(*policy, *market, ids, flags));
    Table { entries: kept }
}

/// The ids of components that a policy flags.
pub open spec fn flagged_ids(components: Seq<ProtocolComponent>, flags: Seq<bool>) -> Seq<
    ComponentId,
>
    decreases components.len(),
{
    if components.len() == 0 {
        seq![]
    } else {
        let before = flagged_ids(components.drop_last(), flags.drop_last());
        if flags.last() {
            before.push(components.last().id)
        } else {
            before
        }
    }
}

/// Whether `flags` are what a policy says about components.
pub open spec fn are_answers<F: Fn(&ProtocolComponent) -> bool>(
    policy: PermissionPolicy<F>,
    components: Seq<ProtocolComponent>,
    flags: Seq<bool>,
) -> bool {
    &&& flags.len() == components.len()
    &&& forall|i: int| 0 <= i < components.len() ==> policy.says(components[i], #[trigger] flags[i])
}

/// The ids of the components that a policy calls permissioned.
pub fn permissioned_ids<F: Fn(&ProtocolComponent) -> bool>(
    policy: &PermissionPolicy<F>,
    components: &Vec<ProtocolComponent>,
) -> (r: Vec<ComponentId>)
    requires
        policy.is_total(),
    ensures
        exists|flags: Seq<bool>| #[trigger]
            are_answers(*policy, components@, flags) && r@ == flagged_ids(components@, flags),
{
    let ghost mut flags: Seq<bool> = Seq::empty();
    let mut ids: Vec<ComponentId> = Vec::new();
    let mut i: usize = 0;
    while i < components.len()
        invariant
            i <= components@.len(),
            policy.is_total(),
            are_answers(*policy, components@.take(i as int), flags),
            ids@ == flagged_ids(components@.take(i as int), flags),
        decreases components@.len() - i,
    {
        let permissioned: bool = policy.is_permissioned(&components[i]);
        if permissioned {
            ids.push(components[i].id.clone());
        }
        proof {
            let before = flags;
            flags = flags.push(permissioned);
            let next = components@.take(i + 1);
            assert(next.drop_last() == components@.take(i as int));
            assert(flags.drop_last() == before);
            assert forall|j: int| 0 <= j < next.len() implies policy.says(
                next[j],
                #[trigger] flags[j],
            ) by {
                if j < i {
                    assert(policy.says(components@.take(i as int)[j], before[j]));
                }
            }
        }
        i += 1;
    }
    assert(components@.take(i as int) == components@);
    assert(are_answers(*policy, components@, flags));
    ids
}

/// What a public worker is left with is not permissioned: the predicate did not say so of any
/// component that stays, and none but permissioned ones are dropped.
pub proof fn public_part_excludes_permissioned<F: Fn(&ProtocolComponent) -> bool>(
    policy: PermissionPolicy<F>,
    market: MarketState,
    ids: Seq<ComponentId>,
    left: Seq<ComponentId>,
)
    requires
        is_public_part(policy, market, ids, left),
    ensures
        forall|i: int| 0 <= i < left.len() ==> judges(policy, market, #[trigger] left[i], false),
        forall|i: int|
            0 <= i < ids.len() ==> left.contains(#[trigger] ids[i]) || judges(
                policy,
                market,
                ids[i],
                true,
            ),
{
    let flags = choose|flags: Seq<bool>| #[trigger]
        are_verdicts(policy, market, ids, flags) && left == unflagged(ids, flags);
    unflagged_is_public(policy, market, ids, flags);
}

/// The topology that a public worker builds its graph from holds no permissioned component: its ids
/// are the public part of all ids.
pub proof fn public_topology_excludes_permissioned<F: Fn(&ProtocolComponent) -> bool>(
    policy: PermissionPolicy<F>,
    market: MarketState,
    topology: Seq<(ComponentId, Arc<Vec<Address>>)>,
    left: Seq<(ComponentId, Arc<Vec<Address>>)>,
)
    requires
        is_public_topology(policy, market, topology, left),
    ensures
        is_public_part(policy, market, ids_of(topology), ids_of(left)),
        forall|i: int|
            0 <= i < left.len() ==> judges(policy, market, (#[trigger] left[i]).0, false),
{
    let flags = choose|flags: Seq<bool>| #[trigger]
        are_verdicts(policy, market, ids_of(topology), flags) && left == unflagged(topology, flags);
    ids_of_unflagged(topology, flags);
    public_part_excludes_permissioned(policy, market, ids_of(topology), ids_of(left));
    assert forall|i: int| 0 <= i < left.len() implies judges(
        policy,
        market,
        (#[trigger] left[i]).0,
        false,
    ) by {
        assert(judges(policy, market, ids_of(left)[i], false));
    }
}

proof fn ids_of_unflagged(topology: Seq<(ComponentId, Arc<Vec<Address>>)>, flags: Seq<bool>)
    requires
        flags.len() == topology.len(),
    ensures
        ids_of(unflagged(topology, flags)) == unflagged(ids_of(topology), flags),
    decreases topology.len(),
{
    if topology.len() > 0 {
        ids_of_unflagged(topology.drop_last(), flags.drop_last());
        assert(ids_of(topology).drop_last() == ids_of(topology.drop_last()));
        assert(ids_of(unflagged(topology, flags)) =~= unflagged(ids_of(topology), flags));
    }
}

proof fn unflagged_is_public<F: Fn(&ProtocolComponent) -> bool>(
    policy: PermissionPolicy<F>,
    market: MarketState,
    ids: Seq<ComponentId>,
    flags: Seq<bool>,
)
    requires
        are_verdicts(policy, market, ids, flags),
    ensures
        forall|i: int|
            0 <= i < unflagged(ids, flags).len() ==> judges(
                policy,
                market,
                #[trigger] unflagged(ids, flags)[i],
                false,
            ),
        forall|i: int|
            0 <= i < ids.len() ==> unflagged(ids, flags).contains(#[trigger] ids[i]) || judges(
                policy,
                market,
                ids[i],
                true,
            ),
    decreases ids.len(),
{
    if ids.len() > 0 {
        let n = ids.len() - 1;
        let front = ids.drop_last();
        let verdicts = flags.drop_last();
        assert forall|i: int| 0 <= i < front.len() implies judges(
            policy,
            market,
            front[i],
            #[trigger] verdicts[i],
        ) by {
            assert(judges(policy, market, ids[i], flags[i]));
        }
        unflagged_is_public(policy, market, front, verdicts);
        assert(judges(policy, market, ids[n], flags[n]));
        let before = unflagged(front, verdicts);
        let after = unflagged(ids, flags);
        assert forall|i: int| 0 <= i < ids.len() implies after.contains(
            #[trigger] ids[i],
        ) || judges(policy, market, ids[i], true) by {
            if i < n {
                assert(ids[i] == front[i]);
                if before.contains(front[i]) {
                    let k = choose|k: int| 0 <= k < before.len() && before[k] == front[i];
                    assert(after[k] == ids[i]);
                }
            } else if !flags[n] {
                assert(after[before.len() as int] == ids[i]);
            }
        }
    }
}

/// An id of which the market knows nothing stays in sight of every worker.
pub proof fn unknown_components_are_public<F: Fn(&ProtocolComponent) -> bool>(
    policy: PermissionPolicy<F>,
    market: MarketState,
    ids: Seq<ComponentId>,
    left: Seq<ComponentId>,
    i: int,
)
    requires
        is_public_part(policy, market, ids, left),
        0 <= i < ids.len(),
        !market.components@.dom().contains(ids[i]@),
    ensures
        left.contains(ids[i]),
{
    public_part_excludes_permissioned(policy, market, ids, left);
}

/// A known component stays in sight of a public worker only where the predicate can say that it is not
/// permissioned, and goes out of sight only where it can say that it is.
pub proof fn predicate_decides_on_known_components<F: Fn(&ProtocolComponent) -> bool>(
    policy: PermissionPolicy<F>,
    market: MarketState,
    ids: Seq<ComponentId>,
    left: Seq<ComponentId>,
    i: int,
)
    requires
        is_public_part(policy, market, ids, left),
        0 <= i < ids.len(),
        market.components@.dom().contains(ids[i]@),
    ensures
        left.contains(ids[i]) ==> call_ensures(
            *policy.predicate,
            (&market.components@[ids[i]@],),
            false,
        ),
        !left.contains(ids[i]) ==> call_ensures(
            *policy.predicate,
            (&market.components@[ids[i]@],),
            true,
        ),
{
    public_part_excludes_permissioned(policy, market, ids, left);
    if left.contains(ids[i]) {
        let k = choose|k: int| 0 <= k < left.len() && left[k] == ids[i];
        assert(judges(policy, market, left[k], false));
    }
}

/// What stays in sight keeps its order: it stands at growing places of what there was.
pub proof fn visible_ids_keep_their_order<F: Fn(&ProtocolComponent) -> bool>(
    policy: PermissionPolicy<F>,
    market: MarketState,
    ids: Seq<ComponentId>,
    left: Seq<ComponentId>,
) -> (places: Seq<int>)
    requires
        is_public_part(policy, market, ids, left),
    ensures
        places.len() == left.len(),
        forall|k: int| 0 <= k < places.len() ==> 0 <= #[trigger] places[k] < ids.len(),
        forall|k: int| 0 <= k < left.len() ==> #[trigger] left[k] == ids[places[k]],
        forall|k: int, l: int| 0 <= k < l < places.len() ==> places[k] < places[l],
{
    let flags = choose|flags: Seq<bool>| #[trigger]
        are_verdicts(policy, market, ids, flags) && left == unflagged(ids, flags);
    places_of_unflagged(ids, flags)
}

/// The topology that a public worker builds its graph from keeps its order and the tokens of what stays.
pub proof fn visible_topology_keeps_its_order<F: Fn(&ProtocolComponent) -> bool>(
    policy: PermissionPolicy<F>,
    market: MarketState,
    topology: Seq<(ComponentId, Arc<Vec<Address>>)>,
    left: Seq<(ComponentId, Arc<Vec<Address>>)>,
) -> (places: Seq<int>)
    requires
        is_public_topology(policy, market, topology, left),
    ensures
        places.len() == left.len(),
        forall|k: int| 0 <= k < places.len() ==> 0 <= #[trigger] places[k] < topology.len(),
        forall|k: int| 0 <= k < left.len() ==> #[trigger] left[k] == topology[places[k]],
        forall|k: int, l: int| 0 <= k < l < places.len() ==> places[k] < places[l],
{
    let flags = choose|flags: Seq<bool>| #[trigger]
        are_verdicts(policy, market, ids_of(topology), flags) && left == unflagged(topology, flags);
    places_of_unflagged(topology, flags)
}

proof fn places_of_unflagged<T>(items: Seq<T>, flags: Seq<bool>) -> (places: Seq<int>)
    requires
        flags.len() == items.len(),
    ensures
        places.len() == unflagged(items, flags).len(),
        forall|k: int| 0 <= k < places.len() ==> 0 <= #[trigger] places[k] < items.len(),
        forall|k: int|
            0 <= k < places.len() ==> #[trigger] unflagged(items, flags)[k] == items[places[k]],
        forall|k: int, l: int| 0 <= k < l < places.len() ==> places[k] < places[l],
    decreases items.len(),
{
    if items.len() == 0 {
        seq![]
    } else {
        let before = places_of_unflagged(items.drop_last(), flags.drop_last());
        if flags.last() {
            before
        } else {
            before.push(items.len() - 1)
        }
    }
}

/// A worker that sees all components, or for which there is no policy, sees every topology and event as
/// it is.
pub proof fn workers_without_limits_see_everything<F: Fn(&ProtocolComponent) -> bool>(
    permission: PermissionContext<F>,
    market: MarketState,
    event: MarketEvent,
    seen: MarketEvent,
    topology: Seq<(ComponentId, Arc<Vec<Address>>)>,
    left: Seq<(ComponentId, Arc<Vec<Address>>)>,
)
    requires
        permission.scope == ComponentScope::IncludeAll || permission.policy is None,
        is_visible_event(permission, market, event, seen),
        is_visible_topology(permission, market, topology, left),
    ensures
        seen == event,
        left == topology,
{
}

/// A public worker under a policy sees of an event, in each of its lists, what the policy leaves: no
/// component that the market knows and the predicate always calls permissioned.
pub proof fn public_workers_never_see_permissioned<F: Fn(&ProtocolComponent) -> bool>(
    permission: PermissionContext<F>,
    market: MarketState,
    event: MarketEvent,
    seen: MarketEvent,
    id: ComponentId,
)
    requires
        permission.scope == ComponentScope::ExcludePermissioned,
        permission.policy is Some,
        is_visible_event(permission, market, event, seen),
        market.components@.dom().contains(id@),
        !call_ensures(
            *permission.policy->Some_0.predicate,
            (&market.components@[id@],),
            false,
        ),
    ensures
        ({
            let MarketEvent::MarketUpdated {
                added_components: added,
                removed_components: gone,
                updated_components: changed,
            } = seen;
            &&& forall|i: int| 0 <= i < added.entries@.len() ==> (#[trigger] added.entries@[i]).0 != id
            &&& !gone@.contains(id)
            &&& !changed@.contains(id)
        }),
{
    let policy = permission.policy->Some_0;
    let MarketEvent::MarketUpdated {
        added_components: all_added,
        removed_components: all_gone,
        updated_components: all_changed,
    } = event;
    let MarketEvent::MarketUpdated {
        added_components: added,
        removed_components: gone,
        updated_components: changed,
    } = seen;
    public_topology_excludes_permissioned(policy, market, all_added.entries@, added.entries@);
    public_part_excludes_permissioned(policy, market, all_gone@, gone@);
    public_part_excludes_permissioned(policy, market, all_changed@, changed@);
    assert(!judges(policy, market, id, false));
}

/// The ids of permissioned components are exactly those of the components that were called so.
pub proof fn permissioned_ids_are_flagged(
    components: Seq<ProtocolComponent>,
    flags: Seq<bool>,
    id: ComponentId,
)
    requires
        flags.len() == components.len(),
    ensures
        flagged_ids(components, flags).contains(id) <==> exists|i: int|
            0 <= i < components.len() && (#[trigger] components[i]).id == id && flags[i],
    decreases components.len(),
{
    if components.len() > 0 {
        let n = components.len() - 1;
        let front = components.drop_last();
        let before = flagged_ids(front, flags.drop_last());
        let after = flagged_ids(components, flags);
        permissioned_ids_are_flagged(front, flags.drop_last(), id);
        if after.contains(id) {
            let k = choose|k: int| 0 <= k < after.len() && after[k] == id;
            if k < before.len() {
                assert(before[k] == id);
                let i = choose|i: int|
                    0 <= i < front.len() && (#[trigger] front[i]).id == id && flags.drop_last()[i];
                assert(components[i].id == id && flags[i]);
            } else {
                assert(components[n].id == id && flags[n]);
            }
        }
        if exists|i: int| 0 <= i < components.len() && (#[trigger] components[i]).id == id && flags[i] {
            let i = choose|i: int|
                0 <= i < components.len() && (#[trigger] components[i]).id == id && flags[i];
            if i < n {
                assert(front[i].id == id && flags.drop_last()[i]);
                let k = choose|k: int| 0 <= k < before.len() && before[k] == id;
                assert(after[k] == id);
            } else {
                assert(after[before.len() as int] == id);
            }
        }
    }
}

/// An id is listed as permissioned only where the predicate can say so of a component with it, and every
/// component of which it can say nothing else is listed.
pub proof fn listed_ids_are_permissioned<F: Fn(&ProtocolComponent) -> bool>(
    policy: PermissionPolicy<F>,
    components: Seq<ProtocolComponent>,
    flags: Seq<bool>,
    listed: Seq<ComponentId>,
    id: ComponentId,
    i: int,
)
    requires
        are_answers(policy, components, flags),
        listed == flagged_ids(components, flags),
    ensures
        listed.contains(id) ==> exists|k: int|
            0 <= k < components.len() && (#[trigger] components[k]).id == id && call_ensures(
                *policy.predicate,
                (&components[k],),
                true,
            ),
        0 <= i < components.len() && !call_ensures(*policy.predicate, (&components[i],), false)
            ==> listed.contains(components[i].id),
{
    permissioned_ids_are_flagged(components, flags, id);
    if listed.contains(id) {
        let k = choose|k: int|
            0 <= k < components.len() && (#[trigger] components[k]).id == id && flags[k];
        assert(policy.says(components[k], flags[k]));
        assert(components[k].id == id);
    }
    if 0 <= i < components.len() && !policy.says(components[i], false) {
        assert(policy.says(components[i], flags[i]));
        permissioned_ids_are_flagged(components, flags, components[i].id);
        assert(flags[i] && components[i].id == components[i].id);
    }
}

} // verus!
