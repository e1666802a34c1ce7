//! Collecting the answers of solver pools to one order.
use vstd::prelude::*;

use crate::error::SolveError;
use crate::text::name_is_among;
use crate::types::quote::OrderQuote;
use crate::worker_pool_router::ranking::OrderResponses;

verus! {

/// What happens while answers are collected.
#[derive(Debug)]
pub enum PoolEvent {
    /// The time for the order is up.
    Deadline { elapsed_ms: u64 },
    /// A pool has found a quote.
    Quote { pool: String, quote: OrderQuote },
    /// A pool has failed.
    Failure { pool: String, error: SolveError },
    /// All pools have answered.
    Exhausted,
}

/// The answers to one order so far.
#[derive(Debug)]
pub struct Collection {
    pub order_id: String,
    /// Number of quotes after which no more are awaited; zero awaits all pools.
    pub min_responses: usize,
    /// Pools that have not answered.
    pub remaining: Vec<String>,
    pub quotes: Vec<(String, OrderQuote)>,
    pub failed_solvers: Vec<(String, SolveError)>,
    /// Whether no more answers are awaited.
    pub done: bool,
}

/// The names other than one.
pub open spec fn without(names: Seq<String>, name: Seq<char>) -> Seq<String> {
    names.filter(|n: String| n@ != name)
}

impl Collection {
    /// Whether the collection knows what has become of a pool: it has answered, or is awaited.
    pub open spec fn accounts_for(self, pool: Seq<char>) -> bool {
        crate::text::is_named(self.remaining@, pool) || self.is_settled(pool)
    }

    /// Whether a pool has answered: it has found a quote, or has failed.
    pub open spec fn is_settled(self, pool: Seq<char>) -> bool {
        ||| exists|i: int| 0 <= i < self.quotes@.len() && (#[trigger] self.quotes@[i]).0@ == pool
        ||| exists|i: int|
            0 <= i < self.failed_solvers@.len() && (#[trigger] self.failed_solvers@[i]).0@ == pool
    }

    /// There are as many quotes as are awaited.
    pub open spec fn has_enough(self) -> bool {
        self.min_responses > 0 && self.quotes@.len() >= self.min_responses
    }

    /// The pools that have found a quote.
    pub open spec fn quote_names(self) -> Seq<Seq<char>> {
        self.quotes@.map_values(|p: (String, OrderQuote)| p.0@)
    }

    /// The pools that have failed.
    pub open spec fn failure_names(self) -> Seq<Seq<char>> {
        self.failed_solvers@.map_values(|p: (String, SolveError)| p.0@)
    }

    /// Every pool occurs at most once: it is awaited, has found one quote, or has failed once.
    pub open spec fn answers_once(self) -> bool {
        let awaited = crate::text::names_of(self.remaining@);
        &&& awaited.no_duplicates()
        &&& self.quote_names().no_duplicates()
        &&& self.failure_names().no_duplicates()
        &&& forall|pool: Seq<char>| #[trigger]
            awaited.contains(pool) ==> !self.quote_names().contains(pool)
                && !self.failure_names().contains(pool)
        &&& forall|pool: Seq<char>| #[trigger]
            self.quote_names().contains(pool) ==> !self.failure_names().contains(pool)
    }

    /// There are at most as many quotes as are awaited, and no more are once there are as many.
    pub open spec fn is_bounded(self) -> bool {
        self.min_responses > 0 ==> self.quotes@.len() <= self.min_responses && (self.done
            || self.quotes@.len() < self.min_responses)
    }

    /// All quotes are for the order.
    pub open spec fn is_for_order(self) -> bool {
        forall|i: int|
            0 <= i < self.quotes@.len() ==> (#[trigger] self.quotes@[i]).1.order_id@
                == self.order_id@
    }

    /// An event that pools bring about, each of which answers once and about the order: a quote or a
    /// failure comes from a pool that is awaited, and all have answered where none is.
    pub open spec fn expects(self, event: PoolEvent) -> bool {
        match event {
            PoolEvent::Quote { pool, quote } => {
                &&& crate::text::is_named(self.remaining@, pool@)
                &&& quote.order_id@ == self.order_id@
            },
            PoolEvent::Failure { pool, .. } => crate::text::is_named(self.remaining@, pool@),
            PoolEvent::Exhausted => self.remaining@.len() == 0,
            PoolEvent::Deadline { .. } => true,
        }
    }

    /// What the collection becomes by an event. Once no more answers are awaited nothing changes.
    pub open spec fn follows(self, event: PoolEvent, next: Collection) -> bool {
        &&& next.order_id == self.order_id
        &&& next.min_responses == self.min_responses
        &&& if self.done {
            next == self
        } else {
            self.takes_in(event, next)
        }
    }

    /// What a collection that awaits answers becomes by an event.
    pub open spec fn takes_in(self, event: PoolEvent, next: Collection) -> bool {
        match event {
            PoolEvent::Deadline { elapsed_ms } => {
                &&& next.done
                &&& next.remaining@.len() == 0
                &&& next.quotes@ == self.quotes@
                &&& next.failed_solvers@ == self.failed_solvers@ + self.remaining@.map_values(
                    |pool: String| (pool, SolveError::Timeout { elapsed_ms }),
                )
            },
            PoolEvent::Quote { pool, quote } => {
                &&& next.remaining@ == without(self.remaining@, pool@)
                &&& next.quotes@ == self.quotes@.push((pool, quote))
                &&& next.failed_solvers@ == self.failed_solvers@
                &&& next.done == next.has_enough()
            },
            PoolEvent::Failure { pool, error } => {
                &&& next.remaining@ == without(self.remaining@, pool@)
                &&& next.quotes@ == self.quotes@
                &&& next.failed_solvers@ == self.failed_solvers@.push((pool, error))
                &&& !next.done
            },
            PoolEvent::Exhausted => {
                &&& next.remaining@ == self.remaining@
                &&& next.quotes@ == self.quotes@
                &&& next.failed_solvers@ == self.failed_solvers@
                &&& next.done
            },
        }
    }

    /// Starts to collect the answers of pools.
    pub fn new(order_id: String, pools: &Vec<String>, min_responses: usize) -> (r: Self)
        ensures
            r.order_id == order_id,
            r.min_responses == min_responses,
            crate::text::names_of(r.remaining@) == crate::table::distinct(
                crate::text::names_of(pools@),
            ),
            r.quotes@.len() == 0,
            r.failed_solvers@.len() == 0,
            !r.done,
            r.answers_once(),
            r.is_bounded(),
            forall|i: int| 0 <= i < pools@.len() ==> r.accounts_for((#[trigger] pools@[i])@),
    {
        let mut remaining: Vec<String> = Vec::new();
        let mut i: usize = 0;
        while i < pools.len()
            invariant
                i <= pools@.len(),
                crate::text::names_of(remaining@) == crate::table::distinct(
                    crate::text::names_of(pools@.take(i as int)),
                ),
                forall|j: int| 0 <= j < i ==> crate::text::is_named(remaining@, (#[trigger] pools@[j])@),
            decreases pools@.len() - i,
        {
            let ghost before = remaining@;
            proof {
                let texts = crate::text::names_of(pools@.take(i + 1));
                assert(texts.drop_last() == crate::text::names_of(pools@.take(i as int)));
                assert(texts.last() == pools@[i as int]@);
                crate::text::named_by_text(before, pools@[i as int]@);
            }
            if !name_is_among(&remaining, &pools[i]) {
                remaining.push(pools[i].clone());
                assert(remaining@[before.len() as int]@ == pools@[i as int]@);
                assert(crate::text::names_of(remaining@) == crate::text::names_of(before).push(
                    pools@[i as int]@,
                ));
            }
            proof {
                assert forall|j: int| 0 <= j < i + 1 implies crate::text::is_named(
                    remaining@,
                    (#[trigger] pools@[j])@,
                ) by {
                    if j < i {
                        let k = choose|k: int|
                            0 <= k < before.len() && #[trigger] before[k]@ == pools@[j]@;
                        assert(remaining@[k]@ == pools@[j]@);
                    }
                }
            }
            i += 1;
        }
        assert(pools@.take(i as int) == pools@);
        let r = Collection {
            order_id,
            min_responses,
            remaining,
            quotes: Vec::new(),
            failed_solvers: Vec::new(),
            done: false,
        };
        proof {
            crate::table::distinct_values_are_distinct(crate::text::names_of(pools@));
            assert(r.quote_names() =~= Seq::<Seq<char>>::empty());
            assert(r.failure_names() =~= Seq::<Seq<char>>::empty());
        }
        r
    }

    /// Takes note of an event. The deadline turns the pools that have not answered into timeouts; a
    /// quote may be the last that is awaited.
    pub fn step(&mut self, event: PoolEvent)
        ensures
            old(self).follows(event, *final(self)),
            forall|pool: Seq<char>| #[trigger]
                old(self).accounts_for(pool) ==> final(self).accounts_for(pool),
            old(self).is_bounded() ==> final(self).is_bounded(),
            old(self).answers_once() && old(self).expects(event) ==> final(self).answers_once(),
    {
        if self.done {
            return;
        }
        let ghost before = *self;
        let ghost happened = event;
        match event {
            PoolEvent::Deadline { elapsed_ms } => {
                let ghost late = self.remaining@.map_values(
                    |pool: String| (pool, SolveError::Timeout { elapsed_ms }),
                );
                let mut failed: Vec<(String, SolveError)> = Vec::new();
                let mut i: usize = 0;
                while i < self.remaining.len()
                    invariant
                        i <= self.remaining@.len(),
                        *self == before,
                        late == self.remaining@.map_values(
                            |pool: String| (pool, SolveError::Timeout { elapsed_ms }),
                        ),
                        failed@ == late.take(i as int),
                    decreases self.remaining@.len() - i,
                {
                    failed.push((self.remaining[i].clone(), SolveError::Timeout { elapsed_ms }));
                    i += 1;
                }
                assert(late.take(i as int) == late);
                self.failed_solvers.append(&mut failed);
                self.remaining = Vec::new();
                self.done = true;
            },
            PoolEvent::Quote { pool, quote } => {
                self.remaining = names_without(&self.remaining, &pool);
                self.quotes.push((pool, quote));
                self.done = self.min_responses > 0 && self.quotes.len() >= self.min_responses;
            },
            PoolEvent::Failure { pool, error } => {
                self.remaining = names_without(&self.remaining, &pool);
                self.failed_solvers.push((pool, error));
                self.done = false;
            },
            PoolEvent::Exhausted => {
                self.done = true;
            },
        }
        proof {
            assert(before.follows(happened, *self));
            if before.answers_once() && before.expects(happened) {
                pools_answer_once(before, happened);
            }
            assert forall|pool: Seq<char>| #[trigger] before.accounts_for(pool) implies self.accounts_for(
                pool,
            ) by {
                no_pool_is_forgotten(before, happened, *self, pool);
            }
        }
    }

    /// The answers that were collected.
    pub fn into_responses(self) -> (r: OrderResponses)
        ensures
            r.order_id == self.order_id,
            r.quotes@ == self.quotes@,
            r.failed_solvers@ == self.failed_solvers@,
            self.is_for_order() ==> r.are_for(self.order_id@),
    {
        OrderResponses {
            order_id: self.order_id,
            quotes: self.quotes,
            failed_solvers: self.failed_solvers,
        }
    }
}

fn names_without(names: &Vec<String>, name: &String) -> (r: Vec<String>)
    ensures
        r@ == without(names@, name@),
{
    let ghost keep = |n: String| n@ != name@;
    let mut kept: Vec<String> = Vec::new();
    let mut i: usize = 0;
    assert(names@.take(0).filter(keep) =~= Seq::<String>::empty()) by {
        reveal(Seq::filter);
    }
    while i < names.len()
        invariant
            i <= names@.len(),
            keep == (|n: String| n@ != name@),
            kept@ == names@.take(i as int).filter(keep),
        decreases names@.len() - i,
    {
        proof {
            names@.take(i as int).lemma_filter_push(names@[i as int], keep);
            assert(names@.take(i as int).push(names@[i as int]) == names@.take(i + 1));
        }
        if names[i] != *name {
            kept.push(names[i].clone());
        }
        i += 1;
    }
    assert(names@.take(i as int) == names@);
    kept
}

proof fn named_without(names: Seq<String>, removed: Seq<char>, name: Seq<char>)
    requires
        crate::text::is_named(names, name),
        name != removed,
    ensures
        crate::text::is_named(without(names, removed), name),
{
    let keep = |n: String| n@ != removed;
    let i = choose|i: int| 0 <= i < names.len() && #[trigger] names[i]@ == name;
    names.lemma_filter_contains(keep, i);
    let left = without(names, removed);
    assert(left.contains(names[i]));
    let k = choose|k: int| 0 <= k < left.len() && left[k] == names[i];
    assert(left[k]@ == name);
}

/// The kind of a failure, for counting failures by kind.
pub fn failure_kind(error: &SolveError) -> (r: &'static str)
    ensures
        r@ == match error {
            SolveError::Timeout { .. } => "timeout"@,
            SolveError::NoRouteFound { .. } => "no_route"@,
            SolveError::QueueFull => "queue_full"@,
            SolveError::Internal(_) => "internal"@,
            SolveError::PriceCheckFailed { .. } => "price_check_failed"@,
            _ => "other"@,
        },
{
    match error {
        SolveError::Timeout { .. } => "timeout",
        SolveError::NoRouteFound { .. } => "no_route",
        SolveError::QueueFull => "queue_full",
        SolveError::Internal(_) => "internal",
        SolveError::PriceCheckFailed { .. } => "price_check_failed",
        _ => "other",
    }
}

/// Whatever happens, a pool that the collection knows of stays known: it is awaited, has found a quote,
/// or has failed.
pub proof fn no_pool_is_forgotten(
    collection: Collection,
    event: PoolEvent,
    next: Collection,
    pool: Seq<char>,
)
    requires
        collection.follows(event, next),
        collection.accounts_for(pool),
    ensures
        next.accounts_for(pool),
{
    let quotes = collection.quotes@;
    let failed = collection.failed_solvers@;
    if !collection.done {
        if exists|k: int| 0 <= k < quotes.len() && (#[trigger] quotes[k]).0@ == pool {
            let k = choose|k: int| 0 <= k < quotes.len() && (#[trigger] quotes[k]).0@ == pool;
            assert(next.quotes@[k].0@ == pool);
        } else if exists|k: int| 0 <= k < failed.len() && (#[trigger] failed[k]).0@ == pool {
            let k = choose|k: int| 0 <= k < failed.len() && (#[trigger] failed[k]).0@ == pool;
            assert(next.failed_solvers@[k].0@ == pool);
        } else {
            match event {
                PoolEvent::Deadline { .. } => {
                    let k = choose|k: int|
                        0 <= k < collection.remaining@.len() && #[trigger] collection.remaining@[k]@
                            == pool;
                    assert(next.failed_solvers@[failed.len() + k].0@ == pool);
                },
                PoolEvent::Quote { pool: name, .. } => {
                    if name@ == pool {
                        assert(next.quotes@[quotes.len() as int].0@ == pool);
                    } else {
                        named_without(collection.remaining@, name@, pool);
                    }
                },
                PoolEvent::Failure { pool: name, .. } => {
                    if name@ == pool {
                        assert(next.failed_solvers@[failed.len() as int].0@ == pool);
                    } else {
                        named_without(collection.remaining@, name@, pool);
                    }
                },
                PoolEvent::Exhausted => {},
            }
        }
    }
}

/// No pool is awaited once the deadline has passed: each has answered or counts as failed.
pub proof fn deadline_settles_every_pool(
    collection: Collection,
    elapsed_ms: u64,
    next: Collection,
    pool: Seq<char>,
)
    requires
        !collection.done,
        collection.follows(PoolEvent::Deadline { elapsed_ms }, next),
        collection.accounts_for(pool),
    ensures
        next.remaining@.len() == 0,
        next.is_settled(pool),
{
    no_pool_is_forgotten(collection, PoolEvent::Deadline { elapsed_ms }, next, pool);
}

/// Leaving a name out keeps names distinct, and leaves all others in.
proof fn without_keeps_distinct(names: Seq<String>, name: Seq<char>)
    requires
        crate::text::names_of(names).no_duplicates(),
    ensures
        crate::text::names_of(without(names, name)).no_duplicates(),
        forall|x: Seq<char>| #[trigger]
            crate::text::names_of(without(names, name)).contains(x) == (crate::text::names_of(
                names,
            ).contains(x) && x != name),
    decreases names.len(),
{
    reveal(Seq::filter);
    let texts = crate::text::names_of(names);
    let left = crate::text::names_of(without(names, name));
    if names.len() > 0 {
        let front = names.drop_last();
        let front_texts = crate::text::names_of(front);
        let front_left = crate::text::names_of(without(front, name));
        let last = names.last()@;
        assert(front_texts =~= texts.drop_last());
        without_keeps_distinct(front, name);
        assert(texts =~= front_texts.push(last));
        assert(!front_texts.contains(last)) by {
            if front_texts.contains(last) {
                let i = choose|i: int| 0 <= i < front_texts.len() && front_texts[i] == last;
                assert(texts[i] == texts[texts.len() - 1]);
            }
        }
        if last != name {
            assert(without(names, name) == without(front, name).push(names.last()));
            assert(left =~= front_left.push(last));
            assert(!front_left.contains(last));
        } else {
            assert(without(names, name) == without(front, name));
        }
        assert forall|x: Seq<char>| #[trigger] left.contains(x) == (texts.contains(x) && x != name) by {
            assert(front_left.contains(x) == (front_texts.contains(x) && x != name));
            if texts.contains(x) && x != name {
                if x == last {
                    assert(left[left.len() - 1] == x);
                } else {
                    let i = choose|i: int| 0 <= i < texts.len() && texts[i] == x;
                    assert(front_texts[i] == x);
                    let k = choose|k: int| 0 <= k < front_left.len() && front_left[k] == x;
                    assert(left[k] == x);
                }
            }
            if left.contains(x) {
                let k = choose|k: int| 0 <= k < left.len() && left[k] == x;
                if k < front_left.len() {
                    assert(front_left[k] == x);
                    let i = choose|i: int| 0 <= i < front_texts.len() && front_texts[i] == x;
                    assert(texts[i] == x);
                } else {
                    assert(texts[texts.len() - 1] == x);
                }
            }
        }
    }
}

/// A pool that is awaited and answers does so once: every pool still occurs at most once.
pub proof fn pools_answer_once(collection: Collection, event: PoolEvent)
    requires
        collection.answers_once(),
        collection.expects(event),
    ensures
        forall|next: Collection| #[trigger]
            collection.follows(event, next) ==> next.answers_once(),
{
    let awaited = crate::text::names_of(collection.remaining@);
    let quoted = collection.quote_names();
    let failed = collection.failure_names();
    assert forall|next: Collection| #[trigger]
        collection.follows(event, next) implies next.answers_once() by {
        if !collection.done {
            let left = crate::text::names_of(next.remaining@);
            match event {
                PoolEvent::Deadline { elapsed_ms } => {
                    assert(left =~= Seq::<Seq<char>>::empty());
                    assert(next.quote_names() == quoted);
                    assert(next.failure_names() =~= failed + awaited);
                    assert forall|i: int, j: int|
                        0 <= i < failed.len() && 0 <= j < awaited.len() implies failed[i]
                        != awaited[j] by {
                        assert(awaited.contains(awaited[j]));
                        assert(failed.contains(failed[i]));
                    }
                    vstd::seq_lib::lemma_no_dup_in_concat(failed, awaited);
                    assert forall|pool: Seq<char>| #[trigger]
                        next.quote_names().contains(pool) implies !next.failure_names().contains(
                        pool,
                    ) by {
                        if next.failure_names().contains(pool) {
                            let k = choose|k: int|
                                0 <= k < next.failure_names().len() && next.failure_names()[k]
                                    == pool;
                            if k < failed.len() {
                                assert(failed[k] == pool);
                            } else {
                                assert(awaited[k - failed.len()] == pool);
                                assert(awaited.contains(pool));
                            }
                        }
                    }
                },
                PoolEvent::Quote { pool, quote } => {
                    crate::text::named_by_text(collection.remaining@, pool@);
                    without_keeps_distinct(collection.remaining@, pool@);
                    assert(next.quote_names() =~= quoted.push(pool@));
                    assert(next.failure_names() == failed);
                    assert forall|x: Seq<char>| #[trigger]
                        next.quote_names().contains(x) implies x == pool@ || quoted.contains(x) by {
                        let k = choose|k: int|
                            0 <= k < next.quote_names().len() && next.quote_names()[k] == x;
                        if k < quoted.len() {
                            assert(quoted[k] == x);
                        }
                    }
                },
                PoolEvent::Failure { pool, error } => {
                    crate::text::named_by_text(collection.remaining@, pool@);
                    without_keeps_distinct(collection.remaining@, pool@);
                    assert(next.failure_names() =~= failed.push(pool@));
                    assert(next.quote_names() == quoted);
                    assert forall|x: Seq<char>| #[trigger]
                        next.failure_names().contains(x) implies x == pool@ || failed.contains(x) by {
                        let k = choose|k: int|
                            0 <= k < next.failure_names().len() && next.failure_names()[k] == x;
                        if k < failed.len() {
                            assert(failed[k] == x);
                        }
                    }
                },
                PoolEvent::Exhausted => {
                    assert(left == awaited);
                    assert(next.quote_names() == quoted);
                    assert(next.failure_names() == failed);
                },
            }
        }
    }
}

/// Whether collections follow each other by events that pools bring about.
pub open spec fn is_course(collections: Seq<Collection>, events: Seq<PoolEvent>) -> bool {
    &&& collections.len() == events.len() + 1
    &&& forall|i: int|
        0 <= i < events.len() ==> collections[i].expects(#[trigger] events[i])
            && collections[i].follows(events[i], collections[i + 1])
}

/// From its beginning to its end a collection holds every pool at most once, only quotes for its order,
/// and never more quotes than are awaited.
pub proof fn courses_are_sound(collections: Seq<Collection>, events: Seq<PoolEvent>, n: int)
    requires
        is_course(collections, events),
        collections[0].answers_once(),
        collections[0].is_bounded(),
        collections[0].is_for_order(),
        0 <= n < collections.len(),
    ensures
        collections[n].order_id == collections[0].order_id,
        collections[n].answers_once(),
        collections[n].is_bounded(),
        collections[n].is_for_order(),
    decreases n,
{
    if n > 0 {
        courses_are_sound(collections, events, n - 1);
        let before = collections[n - 1];
        let event = events[n - 1];
        assert(before.expects(event) && before.follows(event, collections[n - 1 + 1]));
        pools_answer_once(before, event);
        assert forall|i: int| 0 <= i < collections[n].quotes@.len() implies (
        #[trigger] collections[n].quotes@[i]).1.order_id@ == collections[n].order_id@ by {
            if i < before.quotes@.len() {
                assert(collections[n].quotes@[i] == before.quotes@[i]);
            }
        }
    }
}

proof fn pools_stay_known(
    collections: Seq<Collection>,
    events: Seq<PoolEvent>,
    n: int,
    pool: Seq<char>,
)
    requires
        is_course(collections, events),
        !collections[0].done,
        collections[0].accounts_for(pool),
        0 <= n < collections.len(),
    ensures
        collections[n].accounts_for(pool),
        collections[n].done ==> collections[n].remaining@.len() == 0 || collections[n].has_enough(),
    decreases n,
{
    if n > 0 {
        pools_stay_known(collections, events, n - 1, pool);
        let before = collections[n - 1];
        let event = events[n - 1];
        assert(before.expects(event) && before.follows(event, collections[n - 1 + 1]));
        no_pool_is_forgotten(before, event, collections[n], pool);
    }
}

/// However a collection ends without as many quotes as are awaited, every pool that was asked is among
/// the quotes or the failures, and none is awaited.
pub proof fn ends_with_every_pool_settled(
    collections: Seq<Collection>,
    events: Seq<PoolEvent>,
    n: int,
    pool: Seq<char>,
)
    requires
        is_course(collections, events),
        !collections[0].done,
        collections[0].accounts_for(pool),
        0 <= n < collections.len(),
        collections[n].done,
        !collections[n].has_enough(),
    ensures
        collections[n].is_settled(pool),
        collections[n].remaining@.len() == 0,
{
    pools_stay_known(collections, events, n, pool);
}

/// A collection that awaits no more answers stays as it is.
pub proof fn finished_collection_stays(collection: Collection, event: PoolEvent, next: Collection)
    requires
        collection.done,
        collection.follows(event, next),
    ensures
        next == collection,
{
}

/// The deadline adds a timeout, after the time that has passed, for every pool that is still awaited, in
/// their order and behind the failures so far. It changes no quote and ends the collection.
pub proof fn awaited_pools_time_out(
    collection: Collection,
    elapsed_ms: u64,
    next: Collection,
    i: int,
)
    requires
        !collection.done,
        collection.follows(PoolEvent::Deadline { elapsed_ms }, next),
        0 <= i < collection.remaining@.len(),
    ensures
        next.done,
        next.quotes@ == collection.quotes@,
        next.failed_solvers@.len() == collection.failed_solvers@.len()
            + collection.remaining@.len(),
        next.failed_solvers@.take(collection.failed_solvers@.len() as int)
            == collection.failed_solvers@,
        next.failed_solvers@[collection.failed_solvers@.len() + i] == (
            collection.remaining@[i],
            SolveError::Timeout { elapsed_ms },
        ),
{
    assert(next.failed_solvers@.take(collection.failed_solvers@.len() as int)
        =~= collection.failed_solvers@);
}

/// A quote joins those before it, its pool is no longer awaited while all others are, and the collection
/// ends exactly where a number of quotes was asked for and they are as many.
pub proof fn quotes_are_taken_in(
    collection: Collection,
    pool: String,
    quote: OrderQuote,
    next: Collection,
    i: int,
)
    requires
        !collection.done,
        collection.follows(PoolEvent::Quote { pool, quote }, next),
        0 <= i < collection.remaining@.len(),
    ensures
        next.quotes@.len() == collection.quotes@.len() + 1,
        next.quotes@.drop_last() == collection.quotes@,
        next.quotes@.last() == (pool, quote),
        next.failed_solvers@ == collection.failed_solvers@,
        next.remaining@.contains(collection.remaining@[i]) <==> collection.remaining@[i]@ != pool@,
        next.done <==> collection.min_responses >= 1 && collection.quotes@.len() + 1
            >= collection.min_responses,
{
    assert(next.quotes@.drop_last() =~= collection.quotes@);
    others_are_awaited(collection.remaining@, pool@, i);
}

/// A failure joins those before it, its pool is no longer awaited while all others are, and the collection
/// goes on.
pub proof fn failures_are_taken_in(
    collection: Collection,
    pool: String,
    error: SolveError,
    next: Collection,
    i: int,
)
    requires
        !collection.done,
        collection.follows(PoolEvent::Failure { pool, error }, next),
        0 <= i < collection.remaining@.len(),
    ensures
        next.failed_solvers@.len() == collection.failed_solvers@.len() + 1,
        next.failed_solvers@.drop_last() == collection.failed_solvers@,
        next.failed_solvers@.last() == (pool, error),
        next.quotes@ == collection.quotes@,
        next.remaining@.contains(collection.remaining@[i]) <==> collection.remaining@[i]@ != pool@,
        !next.done,
{
    assert(next.failed_solvers@.drop_last() =~= collection.failed_solvers@);
    others_are_awaited(collection.remaining@, pool@, i);
}

proof fn others_are_awaited(names: Seq<String>, removed: Seq<char>, i: int)
    requires
        0 <= i < names.len(),
    ensures
        without(names, removed).contains(names[i]) <==> names[i]@ != removed,
{
    others_are_left(names, removed, names[i]);
}

proof fn others_are_left(names: Seq<String>, removed: Seq<char>, name: String)
    ensures
        without(names, removed).contains(name) <==> names.contains(name) && name@ != removed,
    decreases names.len(),
{
    reveal(Seq::filter);
    let left = without(names, removed);
    if names.len() > 0 {
        let front = names.drop_last();
        let before = without(front, removed);
        others_are_left(front, removed, name);
        if names.last()@ != removed {
            assert(left == before.push(names.last()));
        } else {
            assert(left == before);
        }
        if left.contains(name) {
            let k = choose|k: int| 0 <= k < left.len() && left[k] == name;
            if k < before.len() {
                assert(before[k] == name);
                let j = choose|j: int| 0 <= j < front.len() && front[j] == name;
                assert(names[j] == name);
            } else {
                assert(names[names.len() - 1] == name);
            }
        }
        if names.contains(name) && name@ != removed {
            let j = choose|j: int| 0 <= j < names.len() && names[j] == name;
            if j < front.len() {
                assert(front[j] == name);
                let k = choose|k: int| 0 <= k < before.len() && before[k] == name;
                assert(left[k] == name);
            } else {
                assert(left[before.len() as int] == name);
            }
        }
    }
}

/// Once all pools have answered the collection ends with what it holds.
pub proof fn exhausted_pools_end_the_collection(collection: Collection, next: Collection)
    requires
        !collection.done,
        collection.follows(PoolEvent::Exhausted, next),
    ensures
        next.done,
        next.quotes@ == collection.quotes@,
        next.failed_solvers@ == collection.failed_solvers@,
        next.order_id == collection.order_id,
{
}

/// A collection begins with every pool awaited, each once, and without an answer.
pub proof fn collections_begin_with_every_pool(
    order_id: String,
    pools: Vec<String>,
    min_responses: usize,
    r: Collection,
    i: int,
)
    requires
        call_ensures(Collection::new, (order_id, &pools, min_responses), r),
        0 <= i < pools@.len(),
    ensures
        r.order_id == order_id && r.min_responses == min_responses,
        r.quotes@.len() == 0 && r.failed_solvers@.len() == 0 && !r.done,
        exists|k: int| 0 <= k < r.remaining@.len() && (#[trigger] r.remaining@[k])@ == pools@[i]@,
        forall|k: int, l: int|
            0 <= k < l < r.remaining@.len() ==> (#[trigger] r.remaining@[k])@ != (
            #[trigger] r.remaining@[l])@,
        r.remaining@.len() <= pools@.len(),
{
    let names = crate::text::names_of(pools@);
    let left = crate::text::names_of(r.remaining@);
    crate::table::distinct_values_are_distinct(names);
    assert(names[i] == pools@[i]@);
    assert(names.contains(names[i]));
    assert(left.contains(names[i]));
    let k = choose|k: int| 0 <= k < left.len() && left[k] == names[i];
    assert(r.remaining@[k]@ == left[k]);
    assert forall|k: int, l: int| 0 <= k < l < r.remaining@.len() implies (
    #[trigger] r.remaining@[k])@ != (#[trigger] r.remaining@[l])@ by {
        assert(left[k] != left[l]);
    }
    distinct_values_are_no_more(names);
}

proof fn distinct_values_are_no_more<T>(values: Seq<T>)
    ensures
        crate::table::distinct(values).len() <= values.len(),
    decreases values.len(),
{
    if values.len() > 0 {
        distinct_values_are_no_more(values.drop_last());
    }
}

/// Failures are counted under these kinds.
pub proof fn failures_are_counted_by_kind(error: SolveError, r: &'static str)
    requires
        call_ensures(failure_kind, (&error,), r),
    ensures
        error is Timeout ==> r@ == "timeout"@,
        error is NoRouteFound ==> r@ == "no_route"@,
        error is QueueFull ==> r@ == "queue_full"@,
        error is Internal ==> r@ == "internal"@,
        error is PriceCheckFailed ==> r@ == "price_check_failed"@,
        error is NotReady || error is AlgorithmError || error is ComputationFailed
            || error is FailedEncoding ==> r@ == "other"@,
{
}

} // verus!
