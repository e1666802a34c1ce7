//! What an update from the stream does to the market, and what solvers are told of it.
use std::sync::Arc;

use vstd::prelude::*;

use crate::bytes::Address;
use crate::feed::market_data::{
    MarketEvent, MarketState, PairComponent, StateHandle, SynchronizerState, Update,
};
use crate::table::Table;
use crate::types::quote::BlockInfo;
use crate::types::route::{ComponentId, ProtocolComponent, Token};

verus! {

/// The latest block that any protocol's stream has delivered; the last one of those with the same
/// number.
pub open spec fn latest_block(sync_states: Seq<(String, SynchronizerState)>) -> Option<BlockInfo>
    decreases sync_states.len(),
{
    if sync_states.len() == 0 {
        None
    } else {
        let before = latest_block(sync_states.drop_last());
        match sync_states.last().1 {
            SynchronizerState::Ready(block) => match before {
                Some(best) if best.number > block.number => before,
                _ => Some(block),
            },
            SynchronizerState::Behind(_) => before,
        }
    }
}

/// The components whose states have changed: those with a state in the update that are not new.
pub open spec fn updated_ids(update: Update) -> Seq<ComponentId> {
    update.states.entries@.filter(
        |e: (ComponentId, StateHandle)| !update.new_pairs@.dom().contains(e.0@),
    ).map_values(|e: (ComponentId, StateHandle)| e.0)
}

/// The tokens of new components.
pub open spec fn new_tokens(pairs: Seq<(ComponentId, PairComponent)>) -> Seq<Token>
    decreases pairs.len(),
{
    if pairs.len() == 0 {
        seq![]
    } else {
        new_tokens(pairs.drop_last()) + pairs.last().1.tokens@
    }
}

/// Whether components are those that the stream reported as new.
pub open spec fn are_components_of(
    pairs: Seq<(ComponentId, PairComponent)>,
    components: Seq<ProtocolComponent>,
) -> bool {
    &&& components.len() == pairs.len()
    &&& forall|i: int|
        0 <= i < pairs.len() ==> crate::feed::market_data::is_component_of(
            pairs[i].1,
            #[trigger] components[i],
        )
}

/// Whether the market is another one after an update: its new components have come in before others
/// went, its tokens and states have followed, it is on record how far each stream has come, and the
/// latest block that a stream has delivered is the block of the market.
pub open spec fn is_updated(before: MarketState, update: Update, after: MarketState) -> bool {
    exists|added: Seq<ProtocolComponent>| #[trigger]
        are_components_of(update.new_pairs.entries@, added)
            && crate::feed::market_data::is_applied(
            before,
            added,
            update.removed_pairs@,
            new_tokens(update.new_pairs.entries@),
            update.states.entries@,
            update.sync_states@,
            latest_block(update.sync_states@),
            after,
        )
}

/// Whether an update changes anything that solvers are told of.
pub open spec fn has_changes(update: Update) -> bool {
    update.new_pairs.entries@.len() > 0 || update.removed_pairs@.len() > 0 || updated_ids(
        update,
    ).len() > 0
}

/// Whether an event tells what an update changes.
pub open spec fn is_event_of(update: Update, event: MarketEvent) -> bool {
    let pairs = update.new_pairs.entries@;
    let MarketEvent::MarketUpdated { added_components, removed_components, updated_components } =
        event;
    &&& added_components.entries@.len() == pairs.len()
    &&& forall|i: int|
        0 <= i < pairs.len() ==> (#[trigger] added_components.entries@[i]).0 == pairs[i].0
            && added_components.entries@[i].1@ == crate::feed::market_data::addresses(
            pairs[i].1.tokens@,
        )
    &&& removed_components@ == update.removed_pairs@
    &&& updated_components@ == updated_ids(update)
}

fn token_addresses(tokens: &Vec<Token>) -> (r: Vec<Address>)
    ensures
        r@ == crate::feed::market_data::addresses(tokens@),
{
    let mut found: Vec<Address> = Vec::new();
    let mut i: usize = 0;
    while i < tokens.len()
        invariant
            i <= tokens@.len(),
            found@ == crate::feed::market_data::addresses(tokens@.take(i as int)),
        decreases tokens@.len() - i,
    {
        found.push(tokens[i].address.clone());
        i += 1;
    }
    assert(tokens@.take(i as int) == tokens@);
    found
}

fn find_latest_block(sync_states: &Vec<(String, SynchronizerState)>) -> (r: Option<BlockInfo>)
    ensures
        r == latest_block(sync_states@),
{
    let mut best: Option<BlockInfo> = None;
    let mut i: usize = 0;
    while i < sync_states.len()
        invariant
            i <= sync_states@.len(),
            best == latest_block(sync_states@.take(i as int)),
        decreases sync_states@.len() - i,
    {
        assert(sync_states@.take(i + 1).drop_last() == sync_states@.take(i as int));
        match &sync_states[i].1 {
            SynchronizerState::Ready(block) => {
                let later: bool = match &best {
                    Some(b) => b.number > block.number,
                    None => false,
                };
                if !later {
                    best = Some(block.clone());
                }
            },
            SynchronizerState::Behind(_) => {},
        }
        i += 1;
    }
    assert(sync_states@.take(i as int) == sync_states@);
    best
}

fn collect_updated(update: &Update) -> (r: Vec<ComponentId>)
    ensures
        r@ == updated_ids(*update),
{
    let ghost known = |e: (ComponentId, StateHandle)| !update.new_pairs@.dom().contains(e.0@);
    let ghost id = |e: (ComponentId, StateHandle)| e.0;
    let ghost entries = update.states.entries@;
    let mut ids: Vec<ComponentId> = Vec::new();
    let mut i: usize = 0;
    assert(entries.take(0).filter(known).map_values(id) =~= Seq::<ComponentId>::empty()) by {
        reveal(Seq::filter);
    }
    while i < update.states.entries.len()
        invariant
            i <= update.states.entries@.len(),
            known == (|e: (ComponentId, StateHandle)| !update.new_pairs@.dom().contains(e.0@)),
            id == (|e: (ComponentId, StateHandle)| e.0),
            entries == update.states.entries@,
            ids@ == entries.take(i as int).filter(known).map_values(id),
        decreases update.states.entries@.len() - i,
    {
        proof {
            entries.take(i as int).lemma_filter_push(entries[i as int], known);
            assert(entries.take(i as int).push(entries[i as int]) == entries.take(i + 1));
        }
        let entry: &(ComponentId, StateHandle) = &update.states.entries[i];
        if !update.new_pairs.contains(&entry.0) {
            ids.push(entry.0.clone());
        }
        i += 1;
        assert(ids@ =~= entries.take(i as int).filter(known).map_values(id));
    }
    assert(entries.take(i as int) == entries);
    ids
}

fn collect_tokens(pairs: &Table<ComponentId, PairComponent>) -> (r: Vec<Token>)
    ensures
        r@ == new_tokens(pairs.entries@),
{
    let ghost entries = pairs.entries@;
    let mut tokens: Vec<Token> = Vec::new();
    let mut i: usize = 0;
    while i < pairs.entries.len()
        invariant
            i <= pairs.entries@.len(),
            entries == pairs.entries@,
            tokens@ == new_tokens(entries.take(i as int)),
        decreases pairs.entries@.len() - i,
    {
        let ghost before = tokens@;
        let mut k: usize = 0;
        let own: &Vec<Token> = &pairs.entries[i].1.tokens;
        while k < own.len()
            invariant
                k <= own@.len(),
                tokens@ == before + own@.take(k as int),
            decreases own@.len() - k,
        {
            tokens.push(own[k].clone());
            k += 1;
        }
        assert(own@.take(k as int) == own@);
        i += 1;
        assert(entries.take(i as int).drop_last() == entries.take(i - 1));
    }
    assert(entries.take(i as int) == entries);
    tokens
}

fn copy_ids(ids: &Vec<ComponentId>) -> (r: Vec<ComponentId>)
    ensures
        r@ == ids@,
{
    let mut copy: Vec<ComponentId> = Vec::new();
    let mut i: usize = 0;
    while i < ids.len()
        invariant
            i <= ids@.len(),
            copy@ == ids@.take(i as int),
        decreases ids@.len() - i,
    {
        copy.push(ids[i].clone());
        i += 1;
    }
    assert(ids@.take(i as int) == ids@);
    copy
}

/// Applies an update to the market: new components come in before others go, then tokens and states
/// follow, and the latest block that a stream has delivered becomes the block of the market. Returns
/// what solvers are told, where anything has changed for them.
pub fn handle_tycho_message(market: &mut MarketState, update: &Update) -> (r: Option<MarketEvent>)
    ensures
        is_updated(*old(market), *update, *final(market)),
        match r {
            Some(event) => has_changes(*update) && is_event_of(*update, event),
            None => !has_changes(*update),
        },
{
    let ghost before = *market;
    let ghost pairs = update.new_pairs.entries@;
    let updated: Vec<ComponentId> = collect_updated(update);
    let tokens: Vec<Token> = collect_tokens(&update.new_pairs);
    let latest: Option<BlockInfo> = find_latest_block(&update.sync_states);
    let mut components: Vec<ProtocolComponent> = Vec::new();
    let mut topology: Vec<(ComponentId, Arc<Vec<Address>>)> = Vec::new();
    let mut i: usize = 0;
    while i < update.new_pairs.entries.len()
        invariant
            i <= update.new_pairs.entries@.len(),
            pairs == update.new_pairs.entries@,
            components@.len() == i,
            topology@.len() == i,
            forall|j: int|
                0 <= j < i ==> crate::feed::market_data::is_component_of(
                    pairs[j].1,
                    #[trigger] components@[j],
                ),
            forall|j: int|
                0 <= j < i ==> (#[trigger] topology@[j]).0 == pairs[j].0 && topology@[j].1@
                    == crate::feed::market_data::addresses(pairs[j].1.tokens@),
        decreases update.new_pairs.entries@.len() - i,
    {
        let entry: &(ComponentId, PairComponent) = &update.new_pairs.entries[i];
        let found: Arc<Vec<Address>> = Arc::new(token_addresses(&entry.1.tokens));
        components.push(
            ProtocolComponent {
                id: entry.1.id.clone(),
                protocol_system: entry.1.protocol_system.clone(),
                tokens: found.clone(),
            },
        );
        topology.push((entry.0.clone(), found));
        i += 1;
    }
    market.upsert_components(&components);
    market.remove_components(&update.removed_pairs);
    market.upsert_tokens(&tokens);
    market.update_states(&update.states);
    market.update_protocol_sync_status(&update.sync_states);
    match latest {
        Some(block) => {
            market.update_last_updated(block);
        },
        None => {},
    }
    assert(are_components_of(pairs, components@));
    if topology.len() == 0 && update.removed_pairs.len() == 0 && updated.len() == 0 {
        None
    } else {
        Some(
            MarketEvent::MarketUpdated {
                added_components: Table { entries: topology },
                removed_components: copy_ids(&update.removed_pairs),
                updated_components: updated,
            },
        )
    }
}

/// No component is told of as both new and changed.
pub proof fn new_components_are_not_updated(update: Update, i: int)
    requires
        0 <= i < updated_ids(update).len(),
    ensures
        !update.new_pairs@.dom().contains(updated_ids(update)[i]@),
{
    let known = |e: (ComponentId, StateHandle)| !update.new_pairs@.dom().contains(e.0@);
    let kept = update.states.entries@.filter(known);
    update.states.entries@.lemma_filter_pred(known, i);
    assert(known(kept[i]));
}

/// A component that one update both adds and removes is gone afterwards.
pub proof fn removal_wins(
    before: MarketState,
    added: Seq<ProtocolComponent>,
    gone: Seq<ComponentId>,
    tokens: Seq<Token>,
    states: Seq<(ComponentId, StateHandle)>,
    sync_states: Seq<(String, SynchronizerState)>,
    block: Option<BlockInfo>,
    after: MarketState,
    i: int,
)
    requires
        crate::feed::market_data::is_applied(
            before,
            added,
            gone,
            tokens,
            states,
            sync_states,
            block,
            after,
        ),
        0 <= i < gone.len(),
    ensures
        !after.components@.dom().contains(gone[i]@),
{
    removed_is_gone(
        crate::feed::market_data::inserted(
            before.components@,
            crate::feed::market_data::keyed(added),
        ),
        gone,
        i,
    );
}

proof fn removed_is_gone(
    table: Map<Seq<char>, ProtocolComponent>,
    gone: Seq<ComponentId>,
    i: int,
)
    requires
        0 <= i < gone.len(),
    ensures
        !crate::feed::market_data::removed(table, gone).dom().contains(gone[i]@),
    decreases gone.len(),
{
    if i < gone.len() - 1 {
        removed_is_gone(table, gone.drop_last(), i);
    }
}

/// After an update every token of every new component is on record, as that or another new component
/// has it.
pub proof fn new_tokens_are_on_record(
    before: MarketState,
    update: Update,
    after: MarketState,
    i: int,
    j: int,
)
    requires
        is_updated(before, update, after),
        0 <= i < update.new_pairs.entries@.len(),
        0 <= j < update.new_pairs.entries@[i].1.tokens@.len(),
    ensures
        after.tokens@.dom().contains(update.new_pairs.entries@[i].1.tokens@[j].address@),
        exists|k: int, l: int|
            0 <= k < update.new_pairs.entries@.len() && 0 <= l
                < update.new_pairs.entries@[k].1.tokens@.len()
                && #[trigger] update.new_pairs.entries@[k].1.tokens@[l]
                == after.tokens@[update.new_pairs.entries@[i].1.tokens@[j].address@]
                && update.new_pairs.entries@[k].1.tokens@[l].address@
                == update.new_pairs.entries@[i].1.tokens@[j].address@,
{
    let entries = update.new_pairs.entries@;
    let tokens = new_tokens(entries);
    let pairs = crate::feed::market_data::keyed_tokens(tokens);
    let at = new_token_is_listed(entries, i, j);
    assert(pairs[at].0@ == entries[i].1.tokens@[j].address@);
    let k = crate::feed::market_data::inserted_keys_are_known::<Address, Token>(
        before.tokens@,
        pairs,
        at,
    );
    let (m, l) = listed_token_is_new(entries, k);
    assert(entries[m].1.tokens@[l] == pairs[k].1);
}

/// No token that was known before an update is forgotten, and one that no new component has stays as it
/// was; nor does any token come on record that no new component has.
pub proof fn known_tokens_stay(
    before: MarketState,
    update: Update,
    after: MarketState,
    address: Seq<u8>,
)
    requires
        is_updated(before, update, after),
    ensures
        before.tokens@.dom().contains(address) ==> after.tokens@.dom().contains(address),
        (forall|i: int, j: int|
            0 <= i < update.new_pairs.entries@.len() && 0 <= j
                < update.new_pairs.entries@[i].1.tokens@.len() ==> (
            #[trigger] update.new_pairs.entries@[i].1.tokens@[j]).address@ != address) ==> (
        after.tokens@.dom().contains(address) <==> before.tokens@.dom().contains(address)) && (
        before.tokens@.dom().contains(address) ==> after.tokens@[address]
            == before.tokens@[address]),
{
    let entries = update.new_pairs.entries@;
    let tokens = new_tokens(entries);
    let pairs = crate::feed::market_data::keyed_tokens(tokens);
    if before.tokens@.dom().contains(address) {
        crate::feed::market_data::insertion_forgets_nothing::<Address, Token>(
            before.tokens@,
            pairs,
            address,
        );
    }
    if forall|i: int, j: int|
        0 <= i < entries.len() && 0 <= j < entries[i].1.tokens@.len() ==> (
        #[trigger] entries[i].1.tokens@[j]).address@ != address {
        assert forall|k: int| 0 <= k < pairs.len() implies crate::table::Key::id(
            &(#[trigger] pairs[k]).0,
        ) != address by {
            let (i, j) = listed_token_is_new(entries, k);
            assert(entries[i].1.tokens@[j].address@ != address);
        }
        crate::feed::market_data::other_keys_stay::<Address, Token>(
            before.tokens@,
            pairs,
            address,
        );
    }
}

proof fn new_token_is_listed(
    pairs: Seq<(ComponentId, PairComponent)>,
    i: int,
    j: int,
) -> (k: int)
    requires
        0 <= i < pairs.len(),
        0 <= j < pairs[i].1.tokens@.len(),
    ensures
        0 <= k < new_tokens(pairs).len(),
        new_tokens(pairs)[k] == pairs[i].1.tokens@[j],
    decreases pairs.len(),
{
    let front = pairs.drop_last();
    if i < pairs.len() - 1 {
        new_token_is_listed(front, i, j)
    } else {
        new_tokens(front).len() + j
    }
}

proof fn listed_token_is_new(pairs: Seq<(ComponentId, PairComponent)>, k: int) -> (r: (int, int))
    requires
        0 <= k < new_tokens(pairs).len(),
    ensures
        0 <= r.0 < pairs.len(),
        0 <= r.1 < pairs[r.0].1.tokens@.len(),
        pairs[r.0].1.tokens@[r.1] == new_tokens(pairs)[k],
    decreases pairs.len(),
{
    let front = pairs.drop_last();
    if k < new_tokens(front).len() {
        listed_token_is_new(front, k)
    } else {
        (pairs.len() - 1, k - new_tokens(front).len())
    }
}

proof fn components_of(before: MarketState, update: Update, after: MarketState) -> (added: Seq<
    ProtocolComponent,
>)
    requires
        is_updated(before, update, after),
    ensures
        are_components_of(update.new_pairs.entries@, added),
        after.components@ == crate::feed::market_data::removed(
            crate::feed::market_data::inserted(
                before.components@,
                crate::feed::market_data::keyed(added),
            ),
            update.removed_pairs@,
        ),
{
    choose|added: Seq<ProtocolComponent>| #[trigger]
        are_components_of(update.new_pairs.entries@, added)
            && crate::feed::market_data::is_applied(
            before,
            added,
            update.removed_pairs@,
            new_tokens(update.new_pairs.entries@),
            update.states.entries@,
            update.sync_states@,
            latest_block(update.sync_states@),
            after,
        )
}

/// After an update the market knows a new component by its id, with its protocol and the addresses of
/// its tokens in their order, unless the same update takes it away.
pub proof fn new_components_come_in(
    before: MarketState,
    update: Update,
    after: MarketState,
    i: int,
)
    requires
        is_updated(before, update, after),
        0 <= i < update.new_pairs.entries@.len(),
        forall|k: int|
            0 <= k < update.removed_pairs@.len() ==> (#[trigger] update.removed_pairs@[k])@
                != update.new_pairs.entries@[i].1.id@,
        forall|j: int|
            i < j < update.new_pairs.entries@.len() ==> (
            #[trigger] update.new_pairs.entries@[j]).1.id@ != update.new_pairs.entries@[i].1.id@,
    ensures
        ({
            let pair = update.new_pairs.entries@[i].1;
            &&& after.components@.dom().contains(pair.id@)
            &&& after.components@[pair.id@].id == pair.id
            &&& after.components@[pair.id@].protocol_system == pair.protocol_system
            &&& after.components@[pair.id@].tokens@.len() == pair.tokens@.len()
            &&& forall|j: int|
                0 <= j < pair.tokens@.len() ==> #[trigger] after.components@[pair.id@].tokens@[j]
                    == pair.tokens@[j].address
        }),
{
    let entries = update.new_pairs.entries@;
    let gone = update.removed_pairs@;
    let added = components_of(before, update, after);
    let pairs = crate::feed::market_data::keyed(added);
    let id = entries[i].1.id@;
    assert(crate::feed::market_data::is_component_of(entries[i].1, added[i]));
    assert forall|j: int| i < j < pairs.len() implies crate::table::Key::id(&(#[trigger] pairs[j]).0)
        != id by {
        assert(crate::feed::market_data::is_component_of(entries[j].1, added[j]));
        assert(entries[j].1.id@ != id);
    }
    crate::feed::market_data::last_insertion_counts(before.components@, pairs, i);
    assert forall|k: int| 0 <= k < gone.len() implies crate::table::Key::id(&(#[trigger] gone[k]))
        != id by {
        assert(gone[k]@ != id);
    }
    crate::feed::market_data::kept_keys_stay(
        crate::feed::market_data::inserted(before.components@, pairs),
        gone,
        id,
    );
}

/// After an update the market knows no component that the update takes away.
pub proof fn gone_components_are_unknown(
    before: MarketState,
    update: Update,
    after: MarketState,
    k: int,
)
    requires
        is_updated(before, update, after),
        0 <= k < update.removed_pairs@.len(),
    ensures
        !after.components@.dom().contains(update.removed_pairs@[k]@),
{
    let added = components_of(before, update, after);
    crate::feed::market_data::removed_keys_are_gone(
        crate::feed::market_data::inserted(
            before.components@,
            crate::feed::market_data::keyed(added),
        ),
        update.removed_pairs@,
        k,
    );
}

/// A component that an update neither brings nor takes away is as it was before.
pub proof fn other_components_stay(
    before: MarketState,
    update: Update,
    after: MarketState,
    id: Seq<char>,
)
    requires
        is_updated(before, update, after),
        forall|k: int|
            0 <= k < update.removed_pairs@.len() ==> (#[trigger] update.removed_pairs@[k])@ != id,
        forall|i: int|
            0 <= i < update.new_pairs.entries@.len() ==> (
            #[trigger] update.new_pairs.entries@[i]).1.id@ != id,
    ensures
        after.components@.dom().contains(id) <==> before.components@.dom().contains(id),
        before.components@.dom().contains(id) ==> after.components@[id] == before.components@[id],
{
    let entries = update.new_pairs.entries@;
    let gone = update.removed_pairs@;
    let added = components_of(before, update, after);
    let pairs = crate::feed::market_data::keyed(added);
    assert forall|j: int| 0 <= j < pairs.len() implies crate::table::Key::id(&(#[trigger] pairs[j]).0)
        != id by {
        assert(crate::feed::market_data::is_component_of(entries[j].1, added[j]));
        assert(entries[j].1.id@ != id);
    }
    assert forall|k: int| 0 <= k < gone.len() implies crate::table::Key::id(&(#[trigger] gone[k]))
        != id by {
        assert(gone[k]@ != id);
    }
    crate::feed::market_data::other_keys_stay(before.components@, pairs, id);
    crate::feed::market_data::kept_keys_stay(
        crate::feed::market_data::inserted(before.components@, pairs),
        gone,
        id,
    );
}

/// After an update a component has the state that the update gives it last.
pub proof fn states_are_set(before: MarketState, update: Update, after: MarketState, i: int)
    requires
        is_updated(before, update, after),
        0 <= i < update.states.entries@.len(),
        forall|j: int|
            i < j < update.states.entries@.len() ==> (#[trigger] update.states.entries@[j]).0@
                != update.states.entries@[i].0@,
    ensures
        after.states@.dom().contains(update.states.entries@[i].0@),
        after.states@[update.states.entries@[i].0@] == update.states.entries@[i].1,
{
    let pairs = update.states.entries@;
    assert forall|j: int| i < j < pairs.len() implies crate::table::Key::id(&(#[trigger] pairs[j]).0)
        != crate::table::Key::id(&pairs[i].0) by {
        assert(pairs[j].0@ != pairs[i].0@);
    }
    crate::feed::market_data::last_insertion_counts(
        crate::feed::market_data::removed(before.states@, update.removed_pairs@),
        pairs,
        i,
    );
}

/// A component that an update gives no state has none where the update takes it away, and else keeps the
/// one that it had.
pub proof fn other_states_go_or_stay(
    before: MarketState,
    update: Update,
    after: MarketState,
    id: Seq<char>,
)
    requires
        is_updated(before, update, after),
        forall|i: int|
            0 <= i < update.states.entries@.len() ==> (#[trigger] update.states.entries@[i]).0@ != id,
    ensures
        (exists|k: int|
            0 <= k < update.removed_pairs@.len() && (#[trigger] update.removed_pairs@[k])@ == id)
            ==> !after.states@.dom().contains(id),
        (forall|k: int|
            0 <= k < update.removed_pairs@.len() ==> (#[trigger] update.removed_pairs@[k])@ != id)
            ==> (after.states@.dom().contains(id) <==> before.states@.dom().contains(id)) && (
        before.states@.dom().contains(id) ==> after.states@[id] == before.states@[id]),
{
    let pairs = update.states.entries@;
    let gone = update.removed_pairs@;
    assert forall|j: int| 0 <= j < pairs.len() implies crate::table::Key::id(&(#[trigger] pairs[j]).0)
        != id by {
        assert(pairs[j].0@ != id);
    }
    crate::feed::market_data::other_keys_stay(
        crate::feed::market_data::removed(before.states@, gone),
        pairs,
        id,
    );
    if exists|k: int| 0 <= k < gone.len() && (#[trigger] gone[k])@ == id {
        let k = choose|k: int| 0 <= k < gone.len() && (#[trigger] gone[k])@ == id;
        crate::feed::market_data::removed_keys_are_gone(before.states@, gone, k);
    }
    if forall|k: int| 0 <= k < gone.len() ==> (#[trigger] gone[k])@ != id {
        assert forall|k: int| 0 <= k < gone.len() implies crate::table::Key::id(&(#[trigger] gone[k]))
            != id by {
            assert(gone[k]@ != id);
        }
        crate::feed::market_data::kept_keys_stay(before.states@, gone, id);
    }
}

/// After an update it is on record of a stream what it reported last.
pub proof fn streams_are_known_by_their_last_report(
    before: MarketState,
    update: Update,
    after: MarketState,
    i: int,
)
    requires
        is_updated(before, update, after),
        0 <= i < update.sync_states@.len(),
        forall|j: int|
            i < j < update.sync_states@.len() ==> (#[trigger] update.sync_states@[j]).0@
                != update.sync_states@[i].0@,
    ensures
        after.sync_states@.dom().contains(update.sync_states@[i].0@),
        after.sync_states@[update.sync_states@[i].0@] == update.sync_states@[i].1,
{
    let pairs = update.sync_states@;
    assert forall|j: int| i < j < pairs.len() implies crate::table::Key::id(&(#[trigger] pairs[j]).0)
        != crate::table::Key::id(&pairs[i].0) by {
        assert(pairs[j].0@ != pairs[i].0@);
    }
    crate::feed::market_data::last_insertion_counts(before.sync_states@, pairs, i);
}

/// A stream that an update does not mention is known by what it reported before.
pub proof fn other_streams_stay(
    before: MarketState,
    update: Update,
    after: MarketState,
    name: Seq<char>,
)
    requires
        is_updated(before, update, after),
        forall|i: int|
            0 <= i < update.sync_states@.len() ==> (#[trigger] update.sync_states@[i]).0@ != name,
    ensures
        after.sync_states@.dom().contains(name) <==> before.sync_states@.dom().contains(name),
        before.sync_states@.dom().contains(name) ==> after.sync_states@[name]
            == before.sync_states@[name],
{
    let pairs = update.sync_states@;
    assert forall|j: int| 0 <= j < pairs.len() implies crate::table::Key::id(&(#[trigger] pairs[j]).0)
        != name by {
        assert(pairs[j].0@ != name);
    }
    crate::feed::market_data::other_keys_stay(before.sync_states@, pairs, name);
}

proof fn latest_block_is_latest(sync_states: Seq<(String, SynchronizerState)>)
    ensures
        latest_block(sync_states) is None ==> forall|j: int|
            0 <= j < sync_states.len() ==> (#[trigger] sync_states[j]).1 is Behind,
        latest_block(sync_states) is Some ==> exists|i: int|
            0 <= i < sync_states.len() && (#[trigger] sync_states[i]).1 == SynchronizerState::Ready(
                latest_block(sync_states)->Some_0,
            ) && forall|j: int|
                0 <= j < sync_states.len() ==> ((#[trigger] sync_states[j]).1
                    matches SynchronizerState::Ready(other) ==> other.number <= latest_block(
                    sync_states,
                )->Some_0.number && (j > i ==> other.number < latest_block(
                    sync_states,
                )->Some_0.number)),
    decreases sync_states.len(),
{
    if sync_states.len() > 0 {
        let front = sync_states.drop_last();
        let n = sync_states.len() - 1;
        latest_block_is_latest(front);
        assert(forall|j: int| 0 <= j < n ==> (#[trigger] front[j]) == sync_states[j]);
        assert(sync_states[n] == sync_states.last());
        if latest_block(sync_states) is None {
            assert forall|j: int| 0 <= j < sync_states.len() implies (
            #[trigger] sync_states[j]).1 is Behind by {
                if j < n {
                    assert(front[j].1 is Behind);
                }
            }
        } else {
            let best = latest_block(sync_states)->Some_0;
            if sync_states[n].1 == SynchronizerState::Ready(best) && !(latest_block(front)
                matches Some(b) && b.number > best.number) {
                assert forall|j: int| 0 <= j < sync_states.len() implies ((
                #[trigger] sync_states[j]).1 matches SynchronizerState::Ready(other) ==> other.number
                    <= best.number && (j > n ==> other.number < best.number)) by {
                    if j < n {
                        assert(front[j] == sync_states[j]);
                    }
                }
            } else {
                let i = choose|i: int|
                    0 <= i < front.len() && (#[trigger] front[i]).1 == SynchronizerState::Ready(best)
                        && forall|j: int|
                        0 <= j < front.len() ==> ((#[trigger] front[j]).1
                            matches SynchronizerState::Ready(other) ==> other.number <= best.number
                            && (j > i ==> other.number < best.number));
                assert(sync_states[i].1 == SynchronizerState::Ready(best));
                assert forall|j: int| 0 <= j < sync_states.len() implies ((
                #[trigger] sync_states[j]).1 matches SynchronizerState::Ready(other) ==> other.number
                    <= best.number && (j > i ==> other.number < best.number)) by {
                    if j < n {
                        assert(front[j] == sync_states[j]);
                    }
                }
            }
        }
    }
}

/// After an update the block of the market is the one with the highest number that a stream reports as
/// delivered, the last such; where no stream does, it stays what it was.
pub proof fn market_is_known_up_to_the_latest_block(
    before: MarketState,
    update: Update,
    after: MarketState,
)
    requires
        is_updated(before, update, after),
    ensures
        (forall|j: int|
            0 <= j < update.sync_states@.len() ==> (#[trigger] update.sync_states@[j]).1 is Behind)
            ==> after.last_updated == before.last_updated,
        (exists|j: int|
            0 <= j < update.sync_states@.len() && (#[trigger] update.sync_states@[j]).1 is Ready)
            ==> after.last_updated is Some && exists|i: int|
            0 <= i < update.sync_states@.len() && (#[trigger] update.sync_states@[i]).1
                == SynchronizerState::Ready(after.last_updated->Some_0) && forall|j: int|
                0 <= j < update.sync_states@.len() ==> ((#[trigger] update.sync_states@[j]).1
                    matches SynchronizerState::Ready(other) ==> other.number
                    <= after.last_updated->Some_0.number && (j > i ==> other.number
                    < after.last_updated->Some_0.number)),
{
    latest_block_is_latest(update.sync_states@);
}

/// Solvers are told of every new component, with the addresses of its tokens, and of every one that is
/// gone.
pub proof fn solvers_are_told_what_came_and_went(update: Update, event: MarketEvent)
    requires
        is_event_of(update, event),
    ensures
        ({
            let MarketEvent::MarketUpdated { added_components, removed_components, .. } = event;
            let pairs = update.new_pairs.entries@;
            &&& added_components.entries@.len() == pairs.len()
            &&& forall|i: int|
                0 <= i < pairs.len() ==> {
                    &&& (#[trigger] added_components.entries@[i]).0 == pairs[i].0
                    &&& added_components.entries@[i].1@.len() == pairs[i].1.tokens@.len()
                }
            &&& forall|i: int, j: int|
                0 <= i < pairs.len() && 0 <= j < pairs[i].1.tokens@.len()
                    ==> #[trigger] added_components.entries@[i].1@[j] == pairs[i].1.tokens@[j].address
            &&& removed_components@ == update.removed_pairs@
        }),
{
}

/// Solvers are told that a component with a state in the update has changed exactly where it is not new.
pub proof fn solvers_are_told_what_changed(update: Update, event: MarketEvent, i: int)
    requires
        is_event_of(update, event),
        0 <= i < update.states.entries@.len(),
    ensures
        ({
            let MarketEvent::MarketUpdated { updated_components, .. } = event;
            updated_components@.contains(update.states.entries@[i].0) <==> forall|j: int|
                0 <= j < update.new_pairs.entries@.len() ==> (
                #[trigger] update.new_pairs.entries@[j]).0@ != update.states.entries@[i].0@
        }),
{
    known_components_change(update, i);
}

/// Solvers are told that a component has changed only where it has a state in the update.
pub proof fn solvers_are_told_of_no_other_change(update: Update, event: MarketEvent, k: int)
    requires
        is_event_of(update, event),
        0 <= k < event->updated_components@.len(),
    ensures
        exists|i: int|
            0 <= i < update.states.entries@.len() && (#[trigger] update.states.entries@[i]).0
                == event->updated_components@[k],
{
    let i = changed_component_has_a_state(update, k);
    assert(update.states.entries@[i].0 == event->updated_components@[k]);
}

proof fn changed_component_has_a_state(update: Update, k: int) -> (i: int)
    requires
        0 <= k < updated_ids(update).len(),
    ensures
        0 <= i < update.states.entries@.len(),
        update.states.entries@[i].0 == updated_ids(update)[k],
{
    let states = update.states.entries@;
    let known = |e: (ComponentId, StateHandle)| !update.new_pairs@.dom().contains(e.0@);
    let kept = states.filter(known);
    states.lemma_filter_pred(known, k);
    states.lemma_filter_contains_rev(known, kept[k]);
    choose|i: int| 0 <= i < states.len() && states[i] == kept[k]
}

proof fn known_components_change(update: Update, i: int)
    requires
        0 <= i < update.states.entries@.len(),
    ensures
        updated_ids(update).contains(update.states.entries@[i].0) <==> forall|j: int|
            0 <= j < update.new_pairs.entries@.len() ==> (
            #[trigger] update.new_pairs.entries@[j]).0@ != update.states.entries@[i].0@,
{
    let states = update.states.entries@;
    let pairs = update.new_pairs.entries@;
    let ids = updated_ids(update);
    let known = |e: (ComponentId, StateHandle)| !update.new_pairs@.dom().contains(e.0@);
    let kept = states.filter(known);
    crate::table::tables_answer_by_their_first_entry(update.new_pairs, states[i].0@);
    if ids.contains(states[i].0) {
        let k = choose|k: int| 0 <= k < ids.len() && ids[k] == states[i].0;
        new_components_are_not_updated(update, k);
        assert forall|j: int| 0 <= j < pairs.len() implies (#[trigger] pairs[j]).0@
            != states[i].0@ by {
            assert(crate::table::Key::id(&pairs[j].0) == pairs[j].0@);
        }
    }
    if forall|j: int| 0 <= j < pairs.len() ==> (#[trigger] pairs[j]).0@ != states[i].0@ {
        assert forall|j: int| 0 <= j < pairs.len() implies crate::table::Key::id(
            &(#[trigger] pairs[j]).0,
        ) != states[i].0@ by {
            assert(pairs[j].0@ != states[i].0@);
        }
        assert(known(states[i]));
        states.lemma_filter_contains(known, i);
        let k = choose|k: int| 0 <= k < kept.len() && kept[k] == states[i];
        assert(ids[k] == states[i].0);
    }
}

/// Solvers are told something exactly where a component is new, gone, or has a state in the update.
pub proof fn nothing_is_told_of_an_update_without_changes(update: Update)
    ensures
        has_changes(update) <==> update.new_pairs.entries@.len() > 0 || update.removed_pairs@.len() > 0
            || update.states.entries@.len() > 0,
{
    if update.states.entries@.len() > 0 && update.new_pairs.entries@.len() == 0 {
        known_components_change(update, 0);
    }
    if updated_ids(update).len() > 0 {
        let _ = changed_component_has_a_state(update, 0);
    }
}

} // verus!
