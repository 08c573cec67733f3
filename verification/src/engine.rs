//! The acquisition engine: one bounded sample ring per channel, three
//! control flags (`run`, `pause`, `can_acquire`), a producer step that moves
//! one device block into a ring, and the consumer-side operations (read,
//! blocking read, fill-level poll, flush).
//!
//! The engine is driven sequentially: a host calls [`Aoldaq::worker_step`]
//! for a channel where a concurrent deployment runs a dedicated thread, so
//! every hand-off between producer and consumer is observed exactly. The
//! engine also keeps a ghost history per channel — the samples accepted into
//! the ring (`produced`), the samples handed to the consumer (`delivered`),
//! and whether the channel has dropped anything (`clean`) — which states the
//! no-loss, no-reorder guarantee of a channel that never overflowed.

use vstd::prelude::*;

use crate::device::Device;
use crate::ring::Ring;

verus! {

/// Which sample source the engine was created for.
#[derive(Copy, Clone, Debug, PartialEq, Eq, Structural)]
pub enum AoldaqMode {
    NiFpga,
    Random,
}

/// Construction arguments: samples per producer block, number of channels,
/// the fixed per-channel ring capacity, and the source variant.
pub struct AoldaqArgs {
    pub block_size: usize,
    pub n_channels: usize,
    pub ring_capacity: usize,
    pub mode: AoldaqMode,
}

/// What one producer step did for its channel.
#[derive(Copy, Clone, Debug, PartialEq, Eq, Structural)]
pub enum WorkerStatus {
    /// `run` was false: the worker is done and will exit.
    Exited,
    /// `pause` was true: the worker parks without touching the device.
    Parked,
    /// The device refused the read; the block is skipped and the ring is
    /// untouched.
    ReadError(i32),
    /// A block was read; the count says how many of its samples entered the
    /// ring. A short count is an overflow: the residue is dropped.
    Stored(usize),
}

/// The engine's abstract state: the plain fields, the three flags, each
/// ring's contents, and the per-channel ghost history.
#[verifier::ext_equal]
pub struct EngineView {
    pub n_channels: nat,
    pub block_size: nat,
    pub capacity: nat,
    pub mode: AoldaqMode,
    pub run: bool,
    pub pause: bool,
    pub can_acquire: bool,
    pub rings: Seq<Seq<u32>>,
    pub pending: Seq<Seq<u32>>,
    pub delivered: Seq<Seq<u32>>,
    pub produced: Seq<Seq<u32>>,
    pub clean: Seq<bool>,
}

impl EngineView {
    /// Well-formedness: one ring, one pending block residue and one
    /// history per channel, every ring within its capacity, and on every
    /// clean channel the produced samples are exactly those delivered,
    /// those still in the ring, and those a worker still holds pending.
    pub open spec fn wf(self) -> bool {
        &&& 1 <= self.n_channels
        &&& 1 <= self.block_size
        &&& self.rings.len() == self.n_channels
        &&& self.pending.len() == self.n_channels
        &&& self.delivered.len() == self.n_channels
        &&& self.produced.len() == self.n_channels
        &&& self.clean.len() == self.n_channels
        &&& forall|c: int|
            0 <= c < self.n_channels ==> (#[trigger] self.rings[c]).len() <= self.capacity
        &&& forall|c: int|
            0 <= c < self.n_channels ==> ((#[trigger] self.clean[c]) ==> self.delivered[c]
                + self.rings[c] + self.pending[c] == self.produced[c])
    }
}

pub open spec fn valid_channel(s: EngineView, c: int) -> bool {
    0 <= c < s.n_channels
}

/// The state `create` leaves the engine in: paused, allowed to acquire,
/// running, with every ring and every history empty.
pub open spec fn create_view(args: AoldaqArgs) -> EngineView {
    EngineView {
        n_channels: args.n_channels as nat,
        block_size: args.block_size as nat,
        capacity: args.ring_capacity as nat,
        mode: args.mode,
        run: true,
        pause: true,
        can_acquire: true,
        rings: Seq::new(args.n_channels as nat, |c: int| Seq::<u32>::empty()),
        pending: Seq::new(args.n_channels as nat, |c: int| Seq::<u32>::empty()),
        delivered: Seq::new(args.n_channels as nat, |c: int| Seq::<u32>::empty()),
        produced: Seq::new(args.n_channels as nat, |c: int| Seq::<u32>::empty()),
        clean: Seq::new(args.n_channels as nat, |c: int| true),
    }
}

/// `start`: unpause and allow acquisition; everything else is untouched.
pub open spec fn start_spec(s: EngineView) -> EngineView {
    EngineView { pause: false, can_acquire: true, ..s }
}

/// `stop`: pause and forbid acquisition; everything else is untouched.
pub open spec fn stop_spec(s: EngineView) -> EngineView {
    EngineView { pause: true, can_acquire: false, ..s }
}

/// Teardown's flag half: clear `run`, then reissue the start signal so a
/// parked worker wakes and observes that `run` is gone.
pub open spec fn shutdown_spec(s: EngineView) -> EngineView {
    EngineView { run: false, pause: false, can_acquire: true, ..s }
}

/// How many samples a non-blocking read of `want` pops from channel `c`.
pub open spec fn read_count(s: EngineView, c: int, want: nat) -> nat {
    if want <= s.rings[c].len() {
        want
    } else {
        s.rings[c].len()
    }
}

/// A non-blocking read: pop up to `want` samples from channel `c`; they
/// move from the ring to the delivered history. An invalid channel changes
/// nothing.
pub open spec fn read_spec(s: EngineView, c: int, want: nat) -> EngineView {
    if valid_channel(s, c) {
        let k = read_count(s, c, want) as int;
        EngineView {
            rings: s.rings.update(c, s.rings[c].skip(k)),
            delivered: s.delivered.update(c, s.delivered[c] + s.rings[c].take(k)),
            ..s
        }
    } else {
        s
    }
}

/// A flush: channel `c`'s ring is drained whole, and the acquisition
/// fence makes the channel's producer drop any block residue it still
/// held, so nothing from before the flush can enter the ring afterwards.
/// The discarded samples leave the produced history, never having been
/// delivered. The flags end as they began, except that a caller who was
/// mid-drain of a running engine has acquisition restored together with
/// the restart.
pub open spec fn flush_spec(s: EngineView, c: int) -> EngineView {
    if valid_channel(s, c) {
        EngineView {
            rings: s.rings.update(c, Seq::<u32>::empty()),
            pending: s.pending.update(c, Seq::<u32>::empty()),
            produced: s.produced.update(c, s.delivered[c]),
            can_acquire: s.can_acquire || !s.pause,
            ..s
        }
    } else {
        s
    }
}

/// The block a storing step works on: the residue the worker already
/// holds, or, when none is pending, the freshly read `block`.
pub open spec fn step_buffer(pre: EngineView, c: int, block: Seq<u32>) -> Seq<u32> {
    if pre.pending[c].len() > 0 {
        pre.pending[c]
    } else {
        block
    }
}

/// A producer step on channel `c` made one push attempt. When no residue
/// was pending, the step first read `block` from the device, which joins
/// the produced history. With acquisition allowed, exactly as many samples
/// enter the ring as it has room for, the rest stays pending for the next
/// attempt, and nothing is lost; with acquisition fenced, the whole buffer
/// in hand is dropped and the channel is marked, unless there was nothing
/// to drop.
pub open spec fn worker_stored(
    pre: EngineView,
    post: EngineView,
    c: int,
    block: Seq<u32>,
    k: int,
) -> bool {
    let fresh = pre.pending[c].len() == 0;
    let buf = step_buffer(pre, c, block);
    &&& fresh ==> pre.run && !pre.pause && block.len() == pre.block_size
    &&& post.produced[c] == if fresh {
        pre.produced[c] + buf
    } else {
        pre.produced[c]
    }
    &&& if pre.can_acquire {
        &&& k == vstd::math::min(buf.len() as int, pre.capacity - pre.rings[c].len())
        &&& post.rings[c] == pre.rings[c] + buf.take(k)
        &&& post.pending[c] == buf.skip(k)
        &&& post.clean[c] == pre.clean[c]
    } else {
        &&& k == 0
        &&& post.rings[c] == pre.rings[c]
        &&& post.pending[c] == Seq::<u32>::empty()
        &&& post.clean[c] == (pre.clean[c] && buf.len() == 0)
    }
}

/// A producer step touches nothing but channel `c`'s ring, residue and
/// history.
pub open spec fn frame_except(pre: EngineView, post: EngineView, c: int) -> bool {
    &&& post.n_channels == pre.n_channels
    &&& post.block_size == pre.block_size
    &&& post.capacity == pre.capacity
    &&& post.mode == pre.mode
    &&& post.run == pre.run
    &&& post.pause == pre.pause
    &&& post.can_acquire == pre.can_acquire
    &&& post.rings.len() == pre.rings.len()
    &&& post.pending.len() == pre.pending.len()
    &&& post.delivered == pre.delivered
    &&& post.produced.len() == pre.produced.len()
    &&& post.clean.len() == pre.clean.len()
    &&& forall|d: int|
        0 <= d < pre.rings.len() && d != c ==> (#[trigger] post.rings[d]) == pre.rings[d]
    &&& forall|d: int|
        0 <= d < pre.pending.len() && d != c ==> (#[trigger] post.pending[d]) == pre.pending[d]
    &&& forall|d: int|
        0 <= d < pre.produced.len() && d != c ==> (#[trigger] post.produced[d]) == pre.produced[d]
    &&& forall|d: int|
        0 <= d < pre.clean.len() && d != c ==> (#[trigger] post.clean[d]) == pre.clean[d]
}

/// Everything one producer step may do, mirroring the worker loop's
/// control flow: a worker holding a block residue finishes that block
/// first (one push attempt per step, dropping the residue only when the
/// acquisition fence is observed); only a worker with empty hands checks
/// `run` and `pause`, exits or parks, and otherwise reads the next block
/// and makes its first push attempt.
pub open spec fn worker_step_rel(
    pre: EngineView,
    post: EngineView,
    c: int,
    st: WorkerStatus,
) -> bool {
    &&& frame_except(pre, post, c)
    &&& (st is Exited <==> !pre.run && pre.pending[c].len() == 0)
    &&& (st is Parked <==> pre.run && pre.pause && pre.pending[c].len() == 0)
    &&& (st is ReadError ==> pre.run && !pre.pause && pre.pending[c].len() == 0)
    &&& (st is Exited || st is Parked || st is ReadError ==> post == pre)
    &&& (st matches WorkerStatus::Stored(k) ==> exists|block: Seq<u32>|
        worker_stored(pre, post, c, block, k as int))
}

/// Packaging of a store outcome into the step relation.
proof fn lemma_step_rel_stored(
    pre: EngineView,
    post: EngineView,
    c: int,
    block: Seq<u32>,
    k: usize,
)
    requires
        frame_except(pre, post, c),
        pre.pending[c].len() == 0 ==> pre.run && !pre.pause,
        worker_stored(pre, post, c, block, k as int),
    ensures
        worker_step_rel(pre, post, c, WorkerStatus::Stored(k)),
{
    let st = WorkerStatus::Stored(k);
    assert(st is Exited <==> !pre.run && pre.pending[c].len() == 0);
    assert(st is Parked <==> pre.run && pre.pause && pre.pending[c].len() == 0);
    assert(st is Exited || st is Parked || st is ReadError ==> post == pre);
    assert(st matches WorkerStatus::Stored(kk) ==> kk == k);
    assert(exists|b: Seq<u32>| worker_stored(pre, post, c, b, k as int));
    assert(st matches WorkerStatus::Stored(kk) ==> exists|b: Seq<u32>|
        worker_stored(pre, post, c, b, kk as int));
}

/// A step that keeps the frame of every channel but `c` and leaves channel
/// `c` within capacity and consistent keeps the engine well formed.
proof fn lemma_wf_frame(pre: EngineView, post: EngineView, c: int)
    requires
        pre.wf(),
        frame_except(pre, post, c),
        0 <= c < pre.n_channels,
        post.rings[c].len() <= post.capacity,
        post.clean[c] ==> post.delivered[c] + post.rings[c] + post.pending[c]
            == post.produced[c],
    ensures
        post.wf(),
{
    assert forall|d: int| 0 <= d < post.n_channels implies (#[trigger] post.rings[d]).len()
        <= post.capacity by {
        if d != c {
            assert(post.rings[d] == pre.rings[d]);
        }
    }
    assert forall|d: int| 0 <= d < post.n_channels && (#[trigger] post.clean[d]) implies post
        .delivered[d] + post.rings[d] + post.pending[d] == post.produced[d] by {
        if d != c {
            assert(post.clean[d] == pre.clean[d]);
            assert(post.rings[d] == pre.rings[d]);
            assert(post.pending[d] == pre.pending[d]);
            assert(post.produced[d] == pre.produced[d]);
        }
    }
}

/// The polling condition of the blocking read: keep waiting while the
/// timeout has not been slept away and the ring still holds fewer samples
/// than wanted. A threaded host sleeps one millisecond between polls of
/// this condition.
pub fn should_keep_waiting(
    available: usize,
    wanted: usize,
    time_spent_ms: u64,
    timeout_ms: u64,
) -> (keep: bool)
    ensures
        keep == (time_spent_ms < timeout_ms && available < wanted),
{
    time_spent_ms < timeout_ms && available < wanted
}

/// The continuation test of the producer's push loop: the block in hand is
/// unfinished while samples remain unstored, and the loop may go on only
/// while acquisition is allowed — observing the fence ends the block and
/// drops its residue. A threaded host drives its inner copy loop with
/// this condition.
pub fn push_loop_goes_on(written: usize, block_size: usize, can_acquire: bool) -> (go: bool)
    ensures
        go == (written < block_size && can_acquire),
{
    written < block_size && can_acquire
}

/// The acquisition engine. It owns one [`Ring`] per channel whole — both
/// endpoints — and the shared control flags; the device is borrowed by the
/// producer steps and queried for its session by the consumer side.
pub struct Aoldaq<D: Device> {
    n_channels: usize,
    block_size: usize,
    ring_capacity: usize,
    mode: AoldaqMode,
    run: bool,
    pause: bool,
    can_acquire: bool,
    device: D,
    rings: Vec<Ring>,
    pending: Vec<Vec<u32>>,
    delivered: Ghost<Seq<Seq<u32>>>,
    produced: Ghost<Seq<Seq<u32>>>,
    clean: Ghost<Seq<bool>>,
}

impl<D: Device> View for Aoldaq<D> {
    type V = EngineView;

    closed spec fn view(&self) -> EngineView {
        EngineView {
            n_channels: self.n_channels as nat,
            block_size: self.block_size as nat,
            capacity: self.ring_capacity as nat,
            mode: self.mode,
            run: self.run,
            pause: self.pause,
            can_acquire: self.can_acquire,
            rings: Seq::new(self.rings@.len(), |i: int| self.rings@[i]@),
            pending: Seq::new(self.pending@.len(), |i: int| self.pending@[i]@),
            delivered: self.delivered@,
            produced: self.produced@,
            clean: self.clean@,
        }
    }
}

impl<D: Device> Aoldaq<D> {
    /// Each ring was created with the engine's fixed per-channel capacity.
    pub closed spec fn rings_wf(&self) -> bool {
        &&& self.rings@.len() == self.n_channels
        &&& forall|i: int|
            0 <= i < self.rings@.len() ==> (#[trigger] self.rings@[i]).cap() == self.ring_capacity
    }

    pub open spec fn wf(&self) -> bool {
        &&& self.rings_wf()
        &&& self@.wf()
    }

    /// Builds the engine: one empty ring per channel, flags set so that the
    /// engine is paused, acquisition is allowed and shutdown has not been
    /// requested. Workers read nothing until `start`.
    pub fn create(args: &AoldaqArgs, device: D) -> (engine: Aoldaq<D>)
        requires
            1 <= args.n_channels,
            1 <= args.block_size,
        ensures
            engine.wf(),
            engine@ == create_view(*args),
    {
        let mut rings: Vec<Ring> = Vec::new();
        let mut pending: Vec<Vec<u32>> = Vec::new();
        let mut i: usize = 0;
        while i < args.n_channels
            invariant
                i <= args.n_channels,
                rings@.len() == i,
                pending@.len() == i,
                forall|j: int| 0 <= j < i ==> (#[trigger] rings@[j])@ == Seq::<u32>::empty(),
                forall|j: int| 0 <= j < i ==> (#[trigger] rings@[j]).cap() == args.ring_capacity,
                forall|j: int| 0 <= j < i ==> (#[trigger] pending@[j])@ == Seq::<u32>::empty(),
            decreases args.n_channels - i,
        {
            rings.push(Ring::new(args.ring_capacity));
            pending.push(Vec::new());
            i = i + 1;
        }
        let ghost n = args.n_channels as nat;
        let engine = Aoldaq {
            n_channels: args.n_channels,
            block_size: args.block_size,
            ring_capacity: args.ring_capacity,
            mode: args.mode,
            run: true,
            pause: true,
            can_acquire: true,
            device,
            rings,
            pending,
            delivered: Ghost(Seq::new(n, |c: int| Seq::<u32>::empty())),
            produced: Ghost(Seq::new(n, |c: int| Seq::<u32>::empty())),
            clean: Ghost(Seq::new(n, |c: int| true)),
        };
        proof {
            assert(engine@ =~~= create_view(*args));
        }
        engine
    }

    /// Publishes the running state: clear `pause`, allow acquisition. A
    /// threaded host unparks its workers right after. Calling it on a
    /// running engine changes nothing.
    pub fn start(&mut self)
        requires
            old(self).wf(),
        ensures
            final(self).wf(),
            final(self)@ == start_spec(old(self)@),
    {
        self.pause = false;
        self.can_acquire = true;
        proof {
            assert(self@ =~~= start_spec(old(self)@));
        }
    }

    /// Publishes the paused state: set `pause`, fence acquisition. It does
    /// not wait for a worker mid-block; that worker's residue is dropped by
    /// its own step once it observes the fence.
    pub fn stop(&mut self)
        requires
            old(self).wf(),
        ensures
            final(self).wf(),
            final(self)@ == stop_spec(old(self)@),
    {
        self.pause = true;
        self.can_acquire = false;
        proof {
            assert(self@ =~~= stop_spec(old(self)@));
        }
    }

    /// The flag half of teardown: clear `run`, then reissue the start
    /// signal so that every parked worker wakes, observes `run` cleared,
    /// and exits. A threaded host then joins the workers and frees the
    /// rings by dropping the engine.
    pub fn shutdown(&mut self)
        requires
            old(self).wf(),
        ensures
            final(self).wf(),
            final(self)@ == shutdown_spec(old(self)@),
    {
        self.run = false;
        self.start();
        proof {
            assert(self@ =~~= shutdown_spec(old(self)@));
        }
    }

    /// The current fill level of a channel's ring.
    pub fn get_fifo_size(&self, channel: usize) -> (n: usize)
        requires
            self.wf(),
            channel < self@.n_channels,
        ensures
            n == self@.rings[channel as int].len(),
    {
        self.rings[channel].len()
    }

    /// One iteration of the producer loop for `channel`, at the grain of a
    /// single push attempt. A worker still holding the residue of a block
    /// finishes that block first: while acquisition is allowed it pushes as
    /// much as fits and keeps the rest pending — nothing is dropped — and
    /// only when the acquisition fence is observed is the residue dropped,
    /// an overflow, and the channel marked. A worker with empty hands
    /// exits when `run` is cleared, parks while paused, and otherwise reads
    /// one block from the device and makes its first push attempt.
    #[verifier::rlimit(60)]
    pub fn worker_step(&mut self, channel: usize) -> (st: WorkerStatus)
        requires
            old(self).wf(),
            channel < old(self)@.n_channels,
        ensures
            final(self).wf(),
            worker_step_rel(old(self)@, final(self)@, channel as int, st),
    {
        let ghost pre = self@;
        let ghost pre_rings = self.rings@;
        let ghost pre_pending = self.pending@;
        let ghost c = channel as int;
        if self.pending[channel].len() == 0 {
            if !self.run {
                proof {
                    assert(self@ == pre);
                    assert(worker_step_rel(pre, self@, c, WorkerStatus::Exited));
                }
                return WorkerStatus::Exited;
            }
            if self.pause {
                proof {
                    assert(self@ == pre);
                    assert(worker_step_rel(pre, self@, c, WorkerStatus::Parked));
                }
                return WorkerStatus::Parked;
            }
            let mut staging: Vec<u32> = vec![0u32; self.block_size];
            let read = self.device.read_into(channel, &mut staging);
            match read {
                Result::Err(e) => {
                    proof {
                        assert(self@ == pre);
                        assert(worker_step_rel(pre, self@, c, WorkerStatus::ReadError(e)));
                    }
                    return WorkerStatus::ReadError(e);
                },
                Result::Ok(_n) => {
                    self.pending[channel] = staging;
                    self.produced = Ghost(
                        self.produced@.update(c, self.produced@[c] + self.pending@[c]@),
                    );
                },
            }
        }
        let ghost buf = self.pending@[c]@;
        proof {
            assert(buf == step_buffer(pre, c, buf));
            assert(self@.produced[c] == if pre.pending[c].len() == 0 {
                pre.produced[c] + buf
            } else {
                pre.produced[c]
            });
        }
        if self.can_acquire {
            proof {
                assert(pre.rings[c] == pre_rings[c]@);
                assert(pre.rings[c].len() <= pre.capacity);
                assert(pre_rings[c].cap() == self.ring_capacity);
            }
            let mut work = self.pending[channel].split_off(0);
            let k = self.rings[channel].push_from(&work, 0);
            let rest = work.split_off(k);
            self.pending[channel] = rest;
            proof {
                assert(buf.take(k as int) =~= buf.subrange(0, k as int));
                assert(self.pending@[c]@ =~= buf.skip(k as int));
                assert forall|d: int| 0 <= d < pre.rings.len() && d != c implies (
                #[trigger] self@.rings[d]) == pre.rings[d] by {
                    assert(self.rings@[d] == pre_rings[d]);
                }
                assert forall|d: int| 0 <= d < pre.pending.len() && d != c implies (
                #[trigger] self@.pending[d]) == pre.pending[d] by {
                    assert(self.pending@[d] == pre_pending[d]);
                }
                assert(self@.rings[c] == pre.rings[c] + buf.take(k as int));
                assert(worker_stored(pre, self@, c, buf, k as int));
                assert(pre.delivered[c] + (pre.rings[c] + buf.take(k as int)) + buf.skip(
                k as int) =~= pre.delivered[c] + pre.rings[c] + buf);
                if pre.pending[c].len() == 0 {
                    assert(pre.delivered[c] + pre.rings[c] + pre.pending[c] =~= pre.delivered[c]
                        + pre.rings[c]);
                    assert(pre.clean[c] ==> pre.delivered[c] + pre.rings[c] + buf =~= pre
                        .produced[c] + buf);
                }
                lemma_wf_frame(pre, self@, c);
                lemma_step_rel_stored(pre, self@, c, buf, k);
            }
            WorkerStatus::Stored(k)
        } else {
            let dropped = self.pending[channel].len();
            self.pending[channel] = Vec::new();
            self.clean = Ghost(self.clean@.update(c, self.clean@[c] && dropped == 0));
            proof {
                assert forall|d: int| 0 <= d < pre.rings.len() implies (
                #[trigger] self@.rings[d]) == pre.rings[d] by {
                    assert(self.rings@[d] == pre_rings[d]);
                }
                assert forall|d: int| 0 <= d < pre.pending.len() && d != c implies (
                #[trigger] self@.pending[d]) == pre.pending[d] by {
                    assert(self.pending@[d] == pre_pending[d]);
                }
                assert(self@.pending[c] =~= Seq::<u32>::empty());
                assert(worker_stored(pre, self@, c, buf, 0));
                if dropped == 0 {
                    assert(pre.clean[c] ==> pre.delivered[c] + pre.rings[c] + buf =~= pre
                        .delivered[c] + pre.rings[c] + Seq::<u32>::empty());
                }
                lemma_wf_frame(pre, self@, c);
                lemma_step_rel_stored(pre, self@, c, buf, 0);
            }
            WorkerStatus::Stored(0)
        }
    }

    /// Pops up to `buf.len()` samples of `channel` into the front of `buf`
    /// without blocking. The count may be short — an underflow, never an
    /// error. An invalid channel pops nothing and returns 0.
    pub fn get_data_into(&mut self, channel: usize, buf: &mut Vec<u32>) -> (n: usize)
        requires
            old(self).wf(),
        ensures
            final(self).wf(),
            final(self)@ == read_spec(old(self)@, channel as int, old(buf)@.len()),
            n == if valid_channel(old(self)@, channel as int) {
                read_count(old(self)@, channel as int, old(buf)@.len())
            } else {
                0
            },
            valid_channel(old(self)@, channel as int) ==> final(buf)@ == old(self)@.rings[
                channel as int].take(n as int) + old(buf)@.skip(n as int),
            !valid_channel(old(self)@, channel as int) ==> final(buf)@ == old(buf)@,
    {
        let ghost pre = self@;
        let ghost c = channel as int;
        if channel >= self.n_channels {
            return 0;
        }
        let n = self.rings[channel].pop_into(buf);
        self.delivered = Ghost(
            self.delivered@.update(c, self.delivered@[c] + pre.rings[c].take(n as int)),
        );
        proof {
            assert(self@ =~~= read_spec(pre, c, old(buf)@.len()));
            assert(pre.clean[c] ==> (pre.delivered[c] + pre.rings[c].take(n as int))
                + pre.rings[c].skip(n as int) =~= pre.delivered[c] + pre.rings[c]);
        }
        n
    }

    /// The blocking read: the fill level of `channel` is re-polled until
    /// the ring holds `buf.len()` samples or the wait has used up
    /// `timeout_ms`, then one non-blocking pop ends the call; a lapsed
    /// timeout is no error, the pop simply comes back short, and a zero
    /// timeout means exactly one pop with no wait at all. A concurrent
    /// host sleeps one millisecond between polls; held sequentially, a
    /// ring cannot gain samples while its caller holds the engine, so the
    /// first poll decides and the whole timeout is accounted at once.
    pub fn get_data_into_blocking(
        &mut self,
        channel: usize,
        buf: &mut Vec<u32>,
        timeout_ms: u64,
    ) -> (n: usize)
        requires
            old(self).wf(),
        ensures
            final(self).wf(),
            final(self)@ == read_spec(old(self)@, channel as int, old(buf)@.len()),
            n == if valid_channel(old(self)@, channel as int) {
                read_count(old(self)@, channel as int, old(buf)@.len())
            } else {
                0
            },
            valid_channel(old(self)@, channel as int) ==> final(buf)@ == old(self)@.rings[
                channel as int].take(n as int) + old(buf)@.skip(n as int),
            !valid_channel(old(self)@, channel as int) ==> final(buf)@ == old(buf)@,
    {
        if channel >= self.n_channels {
            return self.get_data_into(channel, buf);
        }
        let want = buf.len();
        let mut slept_ms: u64 = 0;
        while should_keep_waiting(self.get_fifo_size(channel), want, slept_ms, timeout_ms)
            invariant
                self.wf(),
                channel < self@.n_channels,
            decreases timeout_ms - slept_ms,
        {
            // A concurrent host sleeps one millisecond here and re-polls;
            // the sequential engine's fill level cannot change, so the
            // remaining wait is used up in one step.
            slept_ms = timeout_ms;
        }
        self.get_data_into(channel, buf)
    }

    /// The consumer surface in one call: a zero count asks for the fill
    /// level and touches nothing; otherwise up to `n` samples are popped
    /// into `buf`. An invalid channel yields 0 and touches nothing.
    pub fn get_data(&mut self, channel: usize, n: usize, buf: &mut Vec<u32>) -> (k: usize)
        requires
            old(self).wf(),
            n > 0 ==> old(buf)@.len() == n,
        ensures
            final(self).wf(),
            !valid_channel(old(self)@, channel as int) ==> k == 0 && final(self)@ == old(self)@
                && final(buf)@ == old(buf)@,
            valid_channel(old(self)@, channel as int) && n == 0 ==> k == old(self)@.rings[
                channel as int].len() && final(self)@ == old(self)@ && final(buf)@ == old(buf)@,
            valid_channel(old(self)@, channel as int) && n > 0 ==> {
                &&& final(self)@ == read_spec(old(self)@, channel as int, n as nat)
                &&& k == read_count(old(self)@, channel as int, n as nat)
                &&& final(buf)@ == old(self)@.rings[channel as int].take(k as int)
                    + old(buf)@.skip(k as int)
            },
    {
        if channel >= self.n_channels {
            return 0;
        }
        if n == 0 {
            return self.get_fifo_size(channel);
        }
        self.get_data_into(channel, buf)
    }

    /// Drains channel `channel`'s ring while the producer is provably held
    /// off: remember whether the engine was running and acquiring, stop it
    /// if it ran, fence acquisition, discard until the ring reports empty,
    /// then restore what was found. An invalid channel is a no-op.
    pub fn flush_fifo(&mut self, channel: usize)
        requires
            old(self).wf(),
        ensures
            final(self).wf(),
            final(self)@ == flush_spec(old(self)@, channel as int),
    {
        let ghost pre = self@;
        let ghost c = channel as int;
        if channel >= self.n_channels {
            return;
        }
        let should_restart = !self.pause;
        let was_acquiring = self.can_acquire;
        if should_restart {
            self.stop();
        }
        if was_acquiring {
            self.can_acquire = false;
        }
        self.pending[channel] = Vec::new();
        let ghost mid: Aoldaq<D> = *self;
        let mut n = self.rings[channel].len();
        while n > 0
            invariant
                c == channel as int,
                0 <= c < self.rings@.len(),
                n == self.rings@[c]@.len(),
                self.n_channels == mid.n_channels,
                self.block_size == mid.block_size,
                self.ring_capacity == mid.ring_capacity,
                self.mode == mid.mode,
                self.run == mid.run,
                self.pause == mid.pause,
                self.can_acquire == mid.can_acquire,
                self.device == mid.device,
                self.pending == mid.pending,
                self.delivered == mid.delivered,
                self.produced == mid.produced,
                self.clean == mid.clean,
                self.rings@.len() == mid.rings@.len(),
                self.rings@[c].cap() == mid.rings@[c].cap(),
                forall|d: int|
                    0 <= d < self.rings@.len() && d != c ==> (#[trigger] self.rings@[d])
                        == mid.rings@[d],
            decreases n,
        {
            let _discarded = self.rings[channel].discard(n);
            n = self.rings[channel].len();
        }
        self.produced = Ghost(self.produced@.update(c, self.delivered@[c]));
        proof {
            assert(self.rings@[c]@ =~= Seq::<u32>::empty());
            assert(self.pending@[c]@ =~= Seq::<u32>::empty());
            assert forall|d: int| 0 <= d < pre.rings.len() && d != c implies (
            #[trigger] self@.rings[d]) == pre.rings[d] by {
                assert(self.rings@[d] == mid.rings@[d]);
            }
            assert forall|d: int| 0 <= d < pre.pending.len() && d != c implies (
            #[trigger] self@.pending[d]) == pre.pending[d] by {
                assert(self.pending@[d] == mid.pending@[d]);
            }
            assert forall|i: int| 0 <= i < self.rings@.len() implies (#[trigger] self.rings@[i])
                .cap() == self.ring_capacity by {
                if i != c {
                    assert(self.rings@[i] == mid.rings@[i]);
                }
            }
            assert forall|d: int| 0 <= d < self@.n_channels implies (#[trigger] self@.rings[d])
                .len() <= self@.capacity by {
                if d != c {
                    assert(self@.rings[d] == pre.rings[d]);
                }
            }
            assert forall|d: int| 0 <= d < self@.n_channels && (#[trigger] self@.clean[d])
                implies self@.delivered[d] + self@.rings[d] + self@.pending[d]
                == self@.produced[d] by {
                if d == c {
                    assert(self@.delivered[c] + self@.rings[c] + self@.pending[c]
                        =~= self@.delivered[c]);
                } else {
                    assert(self@.rings[d] == pre.rings[d]);
                    assert(self@.pending[d] == pre.pending[d]);
                    assert(pre.clean[d] ==> pre.delivered[d] + pre.rings[d] + pre.pending[d]
                        == pre.produced[d]);
                }
            }
            assert(self.wf());
        }
        if was_acquiring {
            self.can_acquire = true;
        }
        if should_restart {
            self.start();
        }
        proof {
            assert(self@ =~~= flush_spec(pre, c));
        }
    }

    /// The session the engine's device reports for itself.
    pub closed spec fn device_session(&self) -> Option<u32> {
        self.device.session_spec()
    }

    /// The hardware session identifier: in hardware mode, exactly what the
    /// device reports; the synthetic source has none. No state changes.
    pub fn get_nifpga_session(&self) -> (s: Option<u32>)
        ensures
            self@.mode is Random ==> s is None,
            self@.mode is NiFpga ==> s == self.device_session(),
    {
        match self.mode {
            AoldaqMode::Random => None,
            AoldaqMode::NiFpga => self.device.nifpga_session(),
        }
    }
}

} // verus!
