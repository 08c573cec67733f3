//! The engine's cross-operation guarantees, stated once and proved over the
//! abstract state: bounds that always hold, losslessness while acquisition
//! is allowed, what a pause or a shutdown quiesces, what a flush leaves
//! behind, and which operations are idempotent.

use vstd::prelude::*;

use crate::engine::{
    create_view, flush_spec, read_spec, shutdown_spec, start_spec, stop_spec, valid_channel,
    worker_step_rel, worker_stored, AoldaqArgs, EngineView, WorkerStatus,
};

verus! {

/// Law: at every moment, every ring holds between zero and capacity
/// samples.
pub proof fn lemma_ring_len_bounded(s: EngineView, c: int)
    requires
        s.wf(),
        valid_channel(s, c),
    ensures
        0 <= s.rings[c].len() <= s.capacity,
{
}

/// Law: on a channel that never dropped samples and was never flushed,
/// the samples that have emerged from the reads are a contiguous prefix
/// of the samples the device blocks produced — no reordering, no
/// duplication, no gap — and the ring plus the producer's pending residue
/// hold exactly the rest.
pub proof fn lemma_delivered_is_prefix_of_produced(s: EngineView, c: int)
    requires
        s.wf(),
        valid_channel(s, c),
        s.clean[c],
    ensures
        s.delivered[c].len() <= s.produced[c].len(),
        s.delivered[c] == s.produced[c].take(s.delivered[c].len() as int),
        s.produced[c] == s.delivered[c] + s.rings[c] + s.pending[c],
{
    assert(s.delivered[c] + s.rings[c] + s.pending[c] == s.produced[c]);
    assert(s.delivered[c] =~= s.produced[c].take(s.delivered[c].len() as int));
}

/// Law: while acquisition is allowed, a producer step loses nothing: what
/// a block could not fit into the ring stays pending for the next attempt,
/// and a clean channel stays clean.
pub proof fn lemma_acquiring_step_loses_nothing(
    pre: EngineView,
    post: EngineView,
    c: int,
    k: usize,
)
    requires
        worker_step_rel(pre, post, c, WorkerStatus::Stored(k)),
        pre.can_acquire,
    ensures
        post.clean[c] == pre.clean[c],
        post.delivered == pre.delivered,
{
    let block = choose|b: Seq<u32>| worker_stored(pre, post, c, b, k as int);
    assert(worker_stored(pre, post, c, block, k as int));
}

/// Law: a worker between blocks changes nothing while the engine is
/// paused: no ring grows until `start` publishes the running state again.
pub proof fn lemma_paused_worker_is_noop(
    pre: EngineView,
    post: EngineView,
    c: int,
    st: WorkerStatus,
)
    requires
        worker_step_rel(pre, post, c, st),
        pre.pause,
        pre.pending[c].len() == 0,
    ensures
        post == pre,
{
    assert(st is Exited || st is Parked);
}

/// Law: in the state `stop` publishes — paused, acquisition fenced — a
/// producer step never adds a sample to any ring: a worker still mid-block
/// drops its residue at the fence, every other worker parks.
pub proof fn lemma_stopped_worker_grows_no_ring(
    pre: EngineView,
    post: EngineView,
    c: int,
    st: WorkerStatus,
)
    requires
        worker_step_rel(pre, post, c, st),
        pre.pause,
        !pre.can_acquire,
    ensures
        post.rings == pre.rings,
        post.delivered == pre.delivered,
{
    match st {
        WorkerStatus::Stored(k) => {
            let block = choose|b: Seq<u32>| worker_stored(pre, post, c, b, k as int);
            assert(worker_stored(pre, post, c, block, k as int));
            assert(post.rings[c] == pre.rings[c]);
        },
        _ => {
        },
    }
    assert(post.rings =~~= pre.rings);
}

/// Law: once the shutdown flags are published, every worker whose block is
/// done exits at once and touches nothing; a worker still mid-block first
/// finishes that block, as the teardown's final start signal intends.
pub proof fn lemma_shutdown_halts_workers(
    s: EngineView,
    post: EngineView,
    c: int,
    st: WorkerStatus,
)
    requires
        worker_step_rel(shutdown_spec(s), post, c, st),
        s.pending[c].len() == 0,
    ensures
        st is Exited,
        post == shutdown_spec(s),
{
}

/// Law: between creation and the first `start`, a producer step parks
/// without touching the device, so a fresh engine that is torn down again
/// has read nothing and produced nothing.
pub proof fn lemma_fresh_engine_reads_nothing(
    args: AoldaqArgs,
    post: EngineView,
    c: int,
    st: WorkerStatus,
)
    requires
        worker_step_rel(create_view(args), post, c, st),
        0 <= c < args.n_channels,
    ensures
        st is Parked,
        post == create_view(args),
        post.produced[c].len() == 0,
{
}

/// Law: starting twice is the same as starting once.
pub proof fn lemma_start_idempotent(s: EngineView)
    ensures
        start_spec(start_spec(s)) == start_spec(s),
{
    assert(start_spec(start_spec(s)) =~~= start_spec(s));
}

/// Law: stopping twice is the same as stopping once.
pub proof fn lemma_stop_idempotent(s: EngineView)
    ensures
        stop_spec(stop_spec(s)) == stop_spec(s),
{
    assert(stop_spec(stop_spec(s)) =~~= stop_spec(s));
}

/// Law: a flush leaves the flushed ring empty with no residue pending for
/// it, and flushing again with no start in between leaves it empty again.
pub proof fn lemma_flush_twice_empty(s: EngineView, c: int)
    requires
        s.wf(),
        valid_channel(s, c),
    ensures
        flush_spec(s, c).rings[c].len() == 0,
        flush_spec(s, c).pending[c].len() == 0,
        flush_spec(flush_spec(s, c), c).rings[c].len() == 0,
{
}

/// Law: the consumer-side operations only ever shrink a ring; with the
/// producers paused, every fill level is non-increasing.
pub proof fn lemma_consumer_never_grows(s: EngineView, c: int, want: nat, d: int)
    requires
        s.wf(),
        valid_channel(s, d),
    ensures
        read_spec(s, c, want).rings[d].len() <= s.rings[d].len(),
        flush_spec(s, c).rings[d].len() <= s.rings[d].len(),
{
}

/// Law: in every reachable flag state — paused, running, or mid-drain — a
/// flush puts the flags back exactly as it found them.
pub proof fn lemma_flush_preserves_flags(s: EngineView, c: int)
    requires
        s.pause || s.can_acquire,
    ensures
        flush_spec(s, c).pause == s.pause,
        flush_spec(s, c).can_acquire == s.can_acquire,
        flush_spec(s, c).run == s.run,
        flush_spec(s, c).delivered == s.delivered,
{
}

} // verus!
