//! The asynchronous write path of one store as a state machine: producers
//! enqueue records on a bounded queue, the shutdown flag is raised once, and
//! one writer thread drains the queue turn by turn and does what the store
//! adapter decides. The machine states what the path guarantees while every
//! write that reaches the store succeeds.

use crate::cache::lru_cache::pairs;
use crate::cache::recency::Entry;
use crate::db::config::RocksDbConfig;
use crate::db::rocks_db::{after_writes, drains, lemma_writes_observable, writes_of, WriterStep};
use crate::keyval::KeyVal;
use vstd::prelude::*;

verus! {

/// The queue, the store and the two flags.
pub struct Pipeline {
    /// The records that wait in the queue, oldest first.
    pub queue: Seq<KeyVal>,
    /// The contents of the store.
    pub store: Map<Seq<u8>, Seq<u8>>,
    /// Whether shutdown has been signalled.
    pub shutdown: bool,
    /// Whether the writer thread has left its loop.
    pub exited: bool,
}

/// What happens to the pipeline.
pub enum Event {
    /// A producer's enqueue succeeds.
    Enqueue(KeyVal),
    /// Shutdown is signalled.
    Signal,
    /// The writer thread drains the queue and takes the step decided for
    /// what it drained.
    Turn(Vec<KeyVal>, WriterStep),
}

/// Whether the event can happen in the state. An enqueue succeeds only while
/// the writer thread is there and the queue has room. A turn drains the
/// whole queue and takes the step that the store adapter decides.
pub open spec fn allowed(config: RocksDbConfig, state: Pipeline, event: Event) -> bool {
    match event {
        Event::Enqueue(_) => !state.exited && state.queue.len() < config.async_write_queue_length,
        Event::Signal => true,
        Event::Turn(data, step) => !state.exited && data@ == state.queue && drains(
            config,
            data,
            state.shutdown,
            step,
        ),
    }
}

/// The state after the event.
pub open spec fn next(state: Pipeline, event: Event) -> Pipeline {
    match event {
        Event::Enqueue(kv) => Pipeline { queue: state.queue.push(kv), ..state },
        Event::Signal => Pipeline { shutdown: true, ..state },
        Event::Turn(_, step) => if step is Exit {
            Pipeline { exited: true, ..state }
        } else {
            Pipeline {
                queue: Seq::empty(),
                store: after_writes(state.store, writes_of(step)),
                ..state
            }
        },
    }
}

/// The state after the events, in order.
pub open spec fn run(state: Pipeline, events: Seq<Event>) -> Pipeline
    decreases events.len(),
{
    if events.len() == 0 {
        state
    } else {
        next(run(state, events.drop_last()), events.last())
    }
}

/// Whether every event can happen in the state it meets.
pub open spec fn valid(config: RocksDbConfig, state: Pipeline, events: Seq<Event>) -> bool
    decreases events.len(),
{
    events.len() == 0 || (valid(config, state, events.drop_last()) && allowed(
        config,
        run(state, events.drop_last()),
        events.last(),
    ))
}

/// The records whose enqueue succeeded, in order.
pub open spec fn enqueued(events: Seq<Event>) -> Seq<Entry>
    decreases events.len(),
{
    if events.len() == 0 {
        Seq::empty()
    } else {
        match events.last() {
            Event::Enqueue(kv) => enqueued(events.drop_last()).push((kv.key@, kv.val@)),
            _ => enqueued(events.drop_last()),
        }
    }
}

/// Applying one more write is applying it after the others.
pub proof fn lemma_writes_push(store: Map<Seq<u8>, Seq<u8>>, writes: Seq<Entry>, last: Entry)
    ensures
        after_writes(store, writes.push(last)) == after_writes(store, writes).insert(last.0, last.1),
{
    assert(writes.push(last).drop_last() == writes);
}

/// The shutdown flag never clears, and the writer thread never comes back.
pub proof fn lemma_flags_are_monotonic(state: Pipeline, events: Seq<Event>)
    ensures
        state.shutdown ==> run(state, events).shutdown,
        state.exited ==> run(state, events).exited,
    decreases events.len(),
{
    if events.len() > 0 {
        lemma_flags_are_monotonic(state, events.drop_last());
    }
}

/// Nothing is lost and nothing is reordered: the store with the waiting
/// records applied to it is the store it started from with every enqueued
/// record applied, in the order of enqueueing. The queue stays within its
/// bound, and the writer thread leaves only an empty queue, after shutdown
/// was signalled.
pub proof fn lemma_pipeline_conserves(config: RocksDbConfig, state: Pipeline, events: Seq<Event>)
    requires
        valid(config, state, events),
        state.queue.len() == 0,
        !state.exited,
    ensures
        after_writes(run(state, events).store, pairs(run(state, events).queue)) == after_writes(
            state.store,
            enqueued(events),
        ),
        run(state, events).queue.len() <= config.async_write_queue_length,
        run(state, events).exited ==> run(state, events).queue.len() == 0 && run(
            state,
            events,
        ).shutdown,
    decreases events.len(),
{
    if events.len() == 0 {
        assert(pairs(state.queue) =~= Seq::<Entry>::empty());
    } else {
        let before = run(state, events.drop_last());
        let after = run(state, events);
        lemma_pipeline_conserves(config, state, events.drop_last());
        match events.last() {
            Event::Enqueue(kv) => {
                assert(pairs(after.queue) == pairs(before.queue).push((kv.key@, kv.val@)));
                lemma_writes_push(before.store, pairs(before.queue), (kv.key@, kv.val@));
                lemma_writes_push(state.store, enqueued(events.drop_last()), (kv.key@, kv.val@));
            },
            Event::Signal => {},
            Event::Turn(data, step) => {
                if step is Exit {
                } else {
                    assert(writes_of(step) == pairs(before.queue));
                    assert(pairs(after.queue) =~= Seq::<Entry>::empty());
                }
            },
        }
    }
}

/// Drain at shutdown: once the writer thread has left, the queue is empty
/// and the store holds the key of every record whose enqueue succeeded, and
/// under it the value of the last such record with that key.
pub proof fn lemma_drain_at_shutdown(
    config: RocksDbConfig,
    state: Pipeline,
    events: Seq<Event>,
    i: int,
)
    requires
        valid(config, state, events),
        state.queue.len() == 0,
        !state.exited,
        run(state, events).exited,
        0 <= i < enqueued(events).len(),
    ensures
        run(state, events).queue.len() == 0,
        run(state, events).store == after_writes(state.store, enqueued(events)),
        run(state, events).store.dom().contains(enqueued(events)[i].0),
        (forall|j: int| i < j < enqueued(events).len() ==> enqueued(events)[j].0 != enqueued(
            events,
        )[i].0) ==> run(state, events).store[enqueued(events)[i].0] == enqueued(events)[i].1,
{
    lemma_pipeline_conserves(config, state, events);
    assert(pairs(run(state, events).queue) =~= Seq::<Entry>::empty());
    lemma_writes_observable(state.store, enqueued(events), i);
}

} // verus!
