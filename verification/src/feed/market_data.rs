//! The market: components, tokens and states, as the feed reports them.
use std::sync::Arc;

use vstd::prelude::*;

use crate::bytes::Address;
use crate::table::{Key, Table};
use crate::types::quote::BlockInfo;
use crate::types::route::{ComponentId, ProtocolComponent, Token};

verus! {

/// A component as the stream reports it, with its tokens in full.
#[derive(Debug)]
pub struct PairComponent {
    pub id: ComponentId,
    pub protocol_system: String,
    pub tokens: Arc<Vec<Token>>,
}

/// How far a protocol's stream has come.
#[derive(Debug)]
pub enum SynchronizerState {
    /// The stream has delivered this block.
    Ready(BlockInfo),
    /// The stream is not up to date, for the reason given.
    Behind(String),
}

impl Clone for SynchronizerState {
    fn clone(&self) -> (r: Self)
        ensures
            r == *self,
    {
        match self {
            SynchronizerState::Ready(block) => SynchronizerState::Ready(block.clone()),
            SynchronizerState::Behind(reason) => SynchronizerState::Behind(reason.clone()),
        }
    }
}

/// A state of a component, by a handle under which its simulation is kept.
pub type StateHandle = u64;

/// An update from the stream.
#[derive(Debug)]
pub struct Update {
    pub block_number_or_timestamp: u64,
    /// Components that are new.
    pub new_pairs: Table<ComponentId, PairComponent>,
    /// Components that are gone.
    pub removed_pairs: Vec<ComponentId>,
    /// States that are new or have changed.
    pub states: Table<ComponentId, StateHandle>,
    /// How far each protocol's stream has come.
    pub sync_states: Vec<(String, SynchronizerState)>,
}

/// Tokens of components, by component.
pub type Topology = Table<ComponentId, Arc<Vec<Address>>>;

/// Tells solvers what has changed in the market.
#[derive(Debug)]
pub enum MarketEvent {
    MarketUpdated {
        added_components: Topology,
        removed_components: Vec<ComponentId>,
        updated_components: Vec<ComponentId>,
    },
}

/// A snapshot of the market.
#[derive(Debug)]
pub struct MarketState {
    pub components: Table<ComponentId, ProtocolComponent>,
    pub tokens: Table<Address, Token>,
    pub states: Table<ComponentId, StateHandle>,
    /// How far each protocol's stream has come, by what it reported last.
    pub sync_states: Table<String, SynchronizerState>,
    /// The block up to which the market is known.
    pub last_updated: Option<BlockInfo>,
}

/// A table after pairs of keys and values have been put in, in their order.
pub open spec fn inserted<K: Key, V>(table: Map<K::Id, V>, pairs: Seq<(K, V)>) -> Map<K::Id, V>
    decreases pairs.len(),
{
    if pairs.len() == 0 {
        table
    } else {
        inserted(table, pairs.drop_last()).insert(pairs.last().0.id(), pairs.last().1)
    }
}

/// A table after keys have been taken out.
pub open spec fn removed<K: Key, V>(table: Map<K::Id, V>, keys: Seq<K>) -> Map<K::Id, V>
    decreases keys.len(),
{
    if keys.len() == 0 {
        table
    } else {
        removed(table, keys.drop_last()).remove(keys.last().id())
    }
}

/// The addresses of tokens.
pub open spec fn addresses(tokens: Seq<Token>) -> Seq<Address> {
    tokens.map_values(|t: Token| t.address)
}

/// Whether a component of the market is the one that the stream reported.
pub open spec fn is_component_of(pair: PairComponent, component: ProtocolComponent) -> bool {
    &&& component.id == pair.id
    &&& component.protocol_system == pair.protocol_system
    &&& component.tokens@ == addresses(pair.tokens@)
}

/// Components keyed by their own ids.
pub open spec fn keyed(components: Seq<ProtocolComponent>) -> Seq<(ComponentId, ProtocolComponent)> {
    components.map_values(|c: ProtocolComponent| (c.id, c))
}

/// Tokens keyed by their own addresses.
pub open spec fn keyed_tokens(tokens: Seq<Token>) -> Seq<(Address, Token)> {
    tokens.map_values(|t: Token| (t.address, t))
}

/// Whether the market is another one after components, tokens and states have come and gone.
pub open spec fn is_applied(
    before: MarketState,
    added: Seq<ProtocolComponent>,
    gone: Seq<ComponentId>,
    tokens: Seq<Token>,
    states: Seq<(ComponentId, StateHandle)>,
    sync_states: Seq<(String, SynchronizerState)>,
    block: Option<BlockInfo>,
    after: MarketState,
) -> bool {
    &&& after.components@ == removed(inserted(before.components@, keyed(added)), gone)
    &&& after.tokens@ == inserted(before.tokens@, keyed_tokens(tokens))
    &&& after.states@ == inserted(removed(before.states@, gone), states)
    &&& after.sync_states@ == inserted(before.sync_states@, sync_states)
    &&& after.last_updated == if block is Some {
        block
    } else {
        before.last_updated
    }
}

/// The tokens of components.
pub open spec fn topology_of(components: Seq<(ComponentId, ProtocolComponent)>) -> Seq<
    (ComponentId, Arc<Vec<Address>>),
> {
    components.map_values(|e: (ComponentId, ProtocolComponent)| (e.0, e.1.tokens))
}

impl MarketState {
    /// An empty market.
    pub fn new() -> (r: Self)
        ensures
            r.components@ == Map::<Seq<char>, ProtocolComponent>::empty(),
            r.tokens@ == Map::<Seq<u8>, Token>::empty(),
            r.states@ == Map::<Seq<char>, StateHandle>::empty(),
            r.sync_states@ == Map::<Seq<char>, SynchronizerState>::empty(),
            r.last_updated is None,
    {
        MarketState {
            components: Table::new(),
            tokens: Table::new(),
            states: Table::new(),
            sync_states: Table::new(),
            last_updated: None,
        }
    }

    /// A component by its id.
    pub fn get_component(&self, id: &ComponentId) -> (r: Option<&ProtocolComponent>)
        ensures
            match r {
                Some(component) => self.components@.dom().contains(id@) && *component
                    == self.components@[id@],
                None => !self.components@.dom().contains(id@),
            },
    {
        self.components.get(id)
    }

    /// The state of a component.
    pub fn get_simulation_state(&self, id: &ComponentId) -> (r: Option<&StateHandle>)
        ensures
            match r {
                Some(state) => self.states@.dom().contains(id@) && *state == self.states@[id@],
                None => !self.states@.dom().contains(id@),
            },
    {
        self.states.get(id)
    }

    /// The block up to which the market is known.
    pub fn last_updated(&self) -> (r: Option<&BlockInfo>)
        ensures
            match self.last_updated {
                Some(block) => r == Some(&block),
                None => r is None,
            },
    {
        self.last_updated.as_ref()
    }

    /// Puts components in, each in place of one with the same id.
    pub fn upsert_components(&mut self, components: &Vec<ProtocolComponent>)
        ensures
            final(self).components@ == inserted(old(self).components@, keyed(components@)),
            final(self).tokens == old(self).tokens,
            final(self).states == old(self).states,
            final(self).sync_states == old(self).sync_states,
            final(self).last_updated == old(self).last_updated,
    {
        let ghost before = *self;
        let ghost pairs = keyed(components@);
        let mut i: usize = 0;
        while i < components.len()
            invariant
                i <= components@.len(),
                pairs == keyed(components@),
                self.components@ == inserted(before.components@, pairs.take(i as int)),
                self.tokens == before.tokens,
                self.states == before.states,
                self.sync_states == before.sync_states,
                self.last_updated == before.last_updated,
            decreases components@.len() - i,
        {
            self.components.insert(components[i].id.clone(), components[i].clone());
            i += 1;
            assert(pairs.take(i as int).drop_last() == pairs.take(i - 1));
        }
        assert(pairs.take(i as int) == pairs);
    }

    /// Takes components out, with their states.
    pub fn remove_components(&mut self, ids: &Vec<ComponentId>)
        ensures
            final(self).components@ == removed(old(self).components@, ids@),
            final(self).states@ == removed(old(self).states@, ids@),
            final(self).tokens == old(self).tokens,
            final(self).sync_states == old(self).sync_states,
            final(self).last_updated == old(self).last_updated,
    {
        let ghost before = *self;
        let mut i: usize = 0;
        while i < ids.len()
            invariant
                i <= ids@.len(),
                self.components@ == removed(before.components@, ids@.take(i as int)),
                self.states@ == removed(before.states@, ids@.take(i as int)),
                self.tokens == before.tokens,
                self.sync_states == before.sync_states,
                self.last_updated == before.last_updated,
            decreases ids@.len() - i,
        {
            self.components.remove(&ids[i]);
            self.states.remove(&ids[i]);
            i += 1;
            assert(ids@.take(i as int).drop_last() == ids@.take(i - 1));
        }
        assert(ids@.take(i as int) == ids@);
    }

    /// Puts tokens in, each in place of one with the same address.
    pub fn upsert_tokens(&mut self, tokens: &Vec<Token>)
        ensures
            final(self).tokens@ == inserted(old(self).tokens@, keyed_tokens(tokens@)),
            final(self).components == old(self).components,
            final(self).states == old(self).states,
            final(self).sync_states == old(self).sync_states,
            final(self).last_updated == old(self).last_updated,
    {
        let ghost before = *self;
        let ghost pairs = keyed_tokens(tokens@);
        let mut i: usize = 0;
        while i < tokens.len()
            invariant
                i <= tokens@.len(),
                pairs == keyed_tokens(tokens@),
                self.tokens@ == inserted(before.tokens@, pairs.take(i as int)),
                self.components == before.components,
                self.states == before.states,
                self.sync_states == before.sync_states,
                self.last_updated == before.last_updated,
            decreases tokens@.len() - i,
        {
            self.tokens.insert(tokens[i].address.clone(), tokens[i].clone());
            i += 1;
            assert(pairs.take(i as int).drop_last() == pairs.take(i - 1));
        }
        assert(pairs.take(i as int) == pairs);
    }

    /// Sets the states of components.
    pub fn update_states(&mut self, states: &Table<ComponentId, StateHandle>)
        ensures
            final(self).states@ == inserted(old(self).states@, states.entries@),
            final(self).components == old(self).components,
            final(self).tokens == old(self).tokens,
            final(self).sync_states == old(self).sync_states,
            final(self).last_updated == old(self).last_updated,
    {
        let ghost before = *self;
        let ghost pairs = states.entries@;
        let mut i: usize = 0;
        while i < states.entries.len()
            invariant
                i <= states.entries@.len(),
                pairs == states.entries@,
                self.states@ == inserted(before.states@, pairs.take(i as int)),
                self.components == before.components,
                self.tokens == before.tokens,
                self.sync_states == before.sync_states,
                self.last_updated == before.last_updated,
            decreases states.entries@.len() - i,
        {
            self.states.insert(states.entries[i].0.clone(), states.entries[i].1);
            i += 1;
            assert(pairs.take(i as int).drop_last() == pairs.take(i - 1));
        }
        assert(pairs.take(i as int) == pairs);
    }

    /// Takes note of how far protocols' streams have come.
    pub fn update_protocol_sync_status(&mut self, sync_states: &Vec<(String, SynchronizerState)>)
        ensures
            final(self).sync_states@ == inserted(old(self).sync_states@, sync_states@),
            final(self).components == old(self).components,
            final(self).tokens == old(self).tokens,
            final(self).states == old(self).states,
            final(self).last_updated == old(self).last_updated,
    {
        let ghost before = *self;
        let ghost pairs = sync_states@;
        let mut i: usize = 0;
        while i < sync_states.len()
            invariant
                i <= sync_states@.len(),
                pairs == sync_states@,
                self.sync_states@ == inserted(before.sync_states@, pairs.take(i as int)),
                self.components == before.components,
                self.tokens == before.tokens,
                self.states == before.states,
                self.last_updated == before.last_updated,
            decreases sync_states@.len() - i,
        {
            self.sync_states.insert(sync_states[i].0.clone(), sync_states[i].1.clone());
            i += 1;
            assert(pairs.take(i as int).drop_last() == pairs.take(i - 1));
        }
        assert(pairs.take(i as int) == pairs);
    }

    /// Sets the block up to which the market is known.
    pub fn update_last_updated(&mut self, block: BlockInfo)
        ensures
            *final(self) == (MarketState { last_updated: Some(block), ..*old(self) }),
    {
        self.last_updated = Some(block);
    }

    /// The tokens of all components.
    pub fn component_topology(&self) -> (r: Topology)
        ensures
            r.entries@ == topology_of(self.components.entries@),
    {
        let mut entries: Vec<(ComponentId, Arc<Vec<Address>>)> = Vec::new();
        let mut i: usize = 0;
        while i < self.components.entries.len()
            invariant
                i <= self.components.entries@.len(),
                entries@ == topology_of(self.components.entries@.take(i as int)),
            decreases self.components.entries@.len() - i,
        {
            let entry: &(ComponentId, ProtocolComponent) = &self.components.entries[i];
            entries.push((entry.0.clone(), entry.1.tokens.clone()));
            i += 1;
        }
        assert(self.components.entries@.take(i as int) == self.components.entries@);
        Table { entries }
    }
}

/// After pairs have been put into a table, a key that none of them has is as it was before.
pub proof fn other_keys_stay<K: Key, V>(table: Map<K::Id, V>, pairs: Seq<(K, V)>, id: K::Id)
    requires
        forall|i: int| 0 <= i < pairs.len() ==> (#[trigger] pairs[i]).0.id() != id,
    ensures
        inserted(table, pairs).dom().contains(id) <==> table.dom().contains(id),
        table.dom().contains(id) ==> inserted(table, pairs)[id] == table[id],
    decreases pairs.len(),
{
    if pairs.len() > 0 {
        let front = pairs.drop_last();
        assert forall|i: int| 0 <= i < front.len() implies (#[trigger] front[i]).0.id() != id by {
            assert(pairs[i].0.id() != id);
        }
        other_keys_stay(table, front, id);
        assert(pairs[pairs.len() - 1].0.id() != id);
    }
}

/// After pairs have been put into a table, a key has the value of the last pair with it.
pub proof fn last_insertion_counts<K: Key, V>(table: Map<K::Id, V>, pairs: Seq<(K, V)>, i: int)
    requires
        0 <= i < pairs.len(),
        forall|j: int| i < j < pairs.len() ==> (#[trigger] pairs[j]).0.id() != pairs[i].0.id(),
    ensures
        inserted(table, pairs).dom().contains(pairs[i].0.id()),
        inserted(table, pairs)[pairs[i].0.id()] == pairs[i].1,
    decreases pairs.len(),
{
    let n = pairs.len() - 1;
    if i < n {
        let front = pairs.drop_last();
        assert forall|j: int| i < j < front.len() implies (#[trigger] front[j]).0.id()
            != front[i].0.id() by {
            assert(pairs[j].0.id() != pairs[i].0.id());
        }
        last_insertion_counts(table, front, i);
        assert(pairs[n].0.id() != pairs[i].0.id());
    }
}

/// Whatever is put into a table keeps the keys that it knows.
pub proof fn insertion_forgets_nothing<K: Key, V>(table: Map<K::Id, V>, pairs: Seq<(K, V)>, id: K::Id)
    requires
        table.dom().contains(id),
    ensures
        inserted(table, pairs).dom().contains(id),
    decreases pairs.len(),
{
    if pairs.len() > 0 {
        insertion_forgets_nothing(table, pairs.drop_last(), id);
    }
}

/// A key that is put into a table is known, by the value of a pair with it.
pub proof fn inserted_keys_are_known<K: Key, V>(
    table: Map<K::Id, V>,
    pairs: Seq<(K, V)>,
    i: int,
) -> (k: int)
    requires
        0 <= i < pairs.len(),
    ensures
        i <= k < pairs.len(),
        pairs[k].0.id() == pairs[i].0.id(),
        inserted(table, pairs).dom().contains(pairs[i].0.id()),
        inserted(table, pairs)[pairs[i].0.id()] == pairs[k].1,
    decreases pairs.len() - i,
{
    if exists|j: int| i < j < pairs.len() && (#[trigger] pairs[j]).0.id() == pairs[i].0.id() {
        let j = choose|j: int|
            i < j < pairs.len() && (#[trigger] pairs[j]).0.id() == pairs[i].0.id();
        inserted_keys_are_known(table, pairs, j)
    } else {
        last_insertion_counts(table, pairs, i);
        i
    }
}

/// After keys have been taken out of a table, it does not know any of them.
pub proof fn removed_keys_are_gone<K: Key, V>(table: Map<K::Id, V>, keys: Seq<K>, i: int)
    requires
        0 <= i < keys.len(),
    ensures
        !removed(table, keys).dom().contains(keys[i].id()),
    decreases keys.len(),
{
    if i < keys.len() - 1 {
        removed_keys_are_gone(table, keys.drop_last(), i);
    }
}

/// After keys have been taken out of a table, it knows of every other key what it knew before.
pub proof fn kept_keys_stay<K: Key, V>(table: Map<K::Id, V>, keys: Seq<K>, id: K::Id)
    requires
        forall|i: int| 0 <= i < keys.len() ==> (#[trigger] keys[i]).id() != id,
    ensures
        removed(table, keys).dom().contains(id) <==> table.dom().contains(id),
        table.dom().contains(id) ==> removed(table, keys)[id] == table[id],
    decreases keys.len(),
{
    if keys.len() > 0 {
        let front = keys.drop_last();
        assert forall|i: int| 0 <= i < front.len() implies (#[trigger] front[i]).id() != id by {
            assert(keys[i].id() != id);
        }
        kept_keys_stay(table, front, id);
        assert(keys[keys.len() - 1].id() != id);
    }
}

/// A topology lists every component under its id, with its tokens, in the order of the market.
pub proof fn topology_lists_every_component(components: Seq<(ComponentId, ProtocolComponent)>, i: int)
    requires
        0 <= i < components.len(),
    ensures
        topology_of(components).len() == components.len(),
        topology_of(components)[i].0 == components[i].0,
        topology_of(components)[i].1@ == components[i].1.tokens@,
{
}

/// A component of the market keeps the id and the protocol that were reported, and lists the addresses of
/// the reported tokens in their order.
pub proof fn components_are_as_reported(pair: PairComponent, component: ProtocolComponent, i: int)
    requires
        is_component_of(pair, component),
    ensures
        component.id == pair.id && component.protocol_system == pair.protocol_system,
        component.tokens@.len() == pair.tokens@.len(),
        0 <= i < pair.tokens@.len() ==> component.tokens@[i] == pair.tokens@[i].address,
{
}

} // verus!
