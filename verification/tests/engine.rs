//! The acquisition engine driven step by step: worker lifecycle, overflow
//! and underflow policy, the flush protocol, and the consumer surface.

use std::cell::Cell;
use std::rc::Rc;

use aoldaq::{Aoldaq, AoldaqArgs, AoldaqMode, Device, RandomDevice, WorkerStatus};

/// A deterministic source: hands out 1, 2, 3, ... across all reads, and
/// counts how many samples it was asked for.
struct CountingDevice {
    next: Cell<u32>,
    reads: Rc<Cell<usize>>,
}

impl CountingDevice {
    fn new() -> CountingDevice {
        CountingDevice { next: Cell::new(0), reads: Rc::new(Cell::new(0)) }
    }

    fn with_read_counter(reads: Rc<Cell<usize>>) -> CountingDevice {
        CountingDevice { next: Cell::new(0), reads }
    }

    fn bump(&self) -> u32 {
        let v = self.next.get() + 1;
        self.next.set(v);
        v
    }
}

impl Device for CountingDevice {
    // The trait's specification-level session function; never called at
    // run time, the counting source has no session.
    fn session_spec(&self) -> Option<u32> {
        None
    }

    fn read_data(&self, _channel: usize, n: usize) -> Vec<u32> {
        (0..n).map(|_| self.bump()).collect()
    }

    fn read_into(&self, _channel: usize, buf: &mut Vec<u32>) -> Result<usize, i32> {
        self.reads.set(self.reads.get() + 1);
        for x in buf.iter_mut() {
            *x = self.bump();
        }
        Ok(buf.len())
    }

    fn poll(&self, _channel: usize) -> Option<usize> {
        None
    }

    fn nifpga_session(&self) -> Option<u32> {
        None
    }
}

/// A source whose reads always fail with one status code.
struct FailingDevice;

impl Device for FailingDevice {
    // As above: no session.
    fn session_spec(&self) -> Option<u32> {
        None
    }

    fn read_data(&self, _channel: usize, n: usize) -> Vec<u32> {
        vec![0; n]
    }

    fn read_into(&self, _channel: usize, _buf: &mut Vec<u32>) -> Result<usize, i32> {
        Err(-7)
    }

    fn poll(&self, _channel: usize) -> Option<usize> {
        None
    }

    fn nifpga_session(&self) -> Option<u32> {
        None
    }
}

fn args(block_size: usize, n_channels: usize, ring_capacity: usize) -> AoldaqArgs {
    AoldaqArgs { block_size, n_channels, ring_capacity, mode: AoldaqMode::Random }
}

#[test]
fn created_engine_is_paused_and_empty() {
    let mut e = Aoldaq::create(&args(4, 2, 16), CountingDevice::new());
    assert_eq!(e.get_fifo_size(0), 0);
    assert_eq!(e.get_fifo_size(1), 0);
    assert_eq!(e.worker_step(0), WorkerStatus::Parked);
    assert_eq!(e.worker_step(1), WorkerStatus::Parked);
}

#[test]
fn fresh_engine_reads_nothing_before_start() {
    let reads = Rc::new(Cell::new(0));
    let dev = CountingDevice::with_read_counter(reads.clone());
    let mut e = Aoldaq::create(&args(4, 1, 16), dev);
    assert_eq!(e.worker_step(0), WorkerStatus::Parked);
    assert_eq!(e.worker_step(0), WorkerStatus::Parked);
    e.shutdown();
    assert_eq!(e.worker_step(0), WorkerStatus::Exited);
    assert_eq!(e.get_fifo_size(0), 0);
    drop(e);
    assert_eq!(reads.get(), 0);
}

#[test]
fn start_fills_and_drain_keeps_order() {
    let mut e = Aoldaq::create(&args(4, 1, 100), CountingDevice::new());
    e.start();
    assert_eq!(e.worker_step(0), WorkerStatus::Stored(4));
    assert_eq!(e.get_fifo_size(0), 4);

    let mut buf: Vec<u32> = vec![0; 4];
    assert_eq!(e.get_data_into(0, &mut buf), 4);
    assert_eq!(buf, vec![1, 2, 3, 4]);

    assert_eq!(e.worker_step(0), WorkerStatus::Stored(4));
    assert_eq!(e.get_data_into(0, &mut buf), 4);
    assert_eq!(buf, vec![5, 6, 7, 8]);
}

#[test]
fn full_ring_keeps_level_and_retries_block() {
    let mut e = Aoldaq::create(&args(5, 1, 5), CountingDevice::new());
    e.start();
    assert_eq!(e.worker_step(0), WorkerStatus::Stored(5));
    assert_eq!(e.worker_step(0), WorkerStatus::Stored(0));
    assert_eq!(e.get_fifo_size(0), 5);

    let mut buf: Vec<u32> = vec![0; 5];
    assert_eq!(e.get_data_into(0, &mut buf), 5);
    assert_eq!(buf, vec![1, 2, 3, 4, 5]);

    // The block the full ring refused stayed pending while acquisition
    // was allowed: once there is room again it goes in whole, unharmed.
    assert_eq!(e.worker_step(0), WorkerStatus::Stored(5));
    assert_eq!(e.get_data_into(0, &mut buf), 5);
    assert_eq!(buf, vec![6, 7, 8, 9, 10]);
}

#[test]
fn partial_block_residue_survives_until_space() {
    let mut e = Aoldaq::create(&args(5, 1, 3), CountingDevice::new());
    e.start();
    assert_eq!(e.worker_step(0), WorkerStatus::Stored(3));
    let mut buf: Vec<u32> = vec![0; 3];
    assert_eq!(e.get_data_into(0, &mut buf), 3);
    assert_eq!(buf, vec![1, 2, 3]);

    // The remaining two samples of the block were not dropped: the next
    // attempt stores them before any new device read.
    assert_eq!(e.worker_step(0), WorkerStatus::Stored(2));
    let mut rest: Vec<u32> = vec![0; 2];
    assert_eq!(e.get_data_into(0, &mut rest), 2);
    assert_eq!(rest, vec![4, 5]);
}

#[test]
fn stop_fence_drops_midblock_residue() {
    let mut e = Aoldaq::create(&args(5, 1, 3), CountingDevice::new());
    e.start();
    assert_eq!(e.worker_step(0), WorkerStatus::Stored(3));
    e.stop();
    // The worker still holds two samples of its block; at the fence it
    // drops them — the overflow of the stop path — and then parks.
    assert_eq!(e.worker_step(0), WorkerStatus::Stored(0));
    assert_eq!(e.worker_step(0), WorkerStatus::Parked);
    assert_eq!(e.get_fifo_size(0), 3);
}

#[test]
fn flush_clears_pending_residue_too() {
    let mut e = Aoldaq::create(&args(4, 1, 2), CountingDevice::new());
    e.start();
    assert_eq!(e.worker_step(0), WorkerStatus::Stored(2));
    e.flush_fifo(0);
    assert_eq!(e.get_fifo_size(0), 0);

    // The two unstored samples of the first block were dropped by the
    // flush fence: the next step reads a fresh block.
    assert_eq!(e.worker_step(0), WorkerStatus::Stored(2));
    let mut buf: Vec<u32> = vec![0; 2];
    assert_eq!(e.get_data_into(0, &mut buf), 2);
    assert_eq!(buf, vec![5, 6]);
}

#[test]
fn stop_preserves_data() {
    let mut e = Aoldaq::create(&args(4, 1, 100), CountingDevice::new());
    e.start();
    assert_eq!(e.worker_step(0), WorkerStatus::Stored(4));
    e.stop();
    let level = e.get_fifo_size(0);
    assert_eq!(level, 4);
    assert_eq!(e.worker_step(0), WorkerStatus::Parked);
    assert_eq!(e.worker_step(0), WorkerStatus::Parked);
    assert_eq!(e.get_fifo_size(0), level);
}

#[test]
fn start_twice_behaves_like_start() {
    let mut e = Aoldaq::create(&args(4, 1, 100), CountingDevice::new());
    e.start();
    e.start();
    assert_eq!(e.worker_step(0), WorkerStatus::Stored(4));
    assert_eq!(e.get_fifo_size(0), 4);
}

#[test]
fn stop_twice_behaves_like_stop() {
    let mut e = Aoldaq::create(&args(4, 1, 100), CountingDevice::new());
    e.start();
    assert_eq!(e.worker_step(0), WorkerStatus::Stored(4));
    e.stop();
    e.stop();
    assert_eq!(e.worker_step(0), WorkerStatus::Parked);
    assert_eq!(e.get_fifo_size(0), 4);
}

#[test]
fn flush_empties_one_channel_and_engine_keeps_running() {
    let mut e = Aoldaq::create(&args(4, 2, 100), CountingDevice::new());
    e.start();
    assert_eq!(e.worker_step(0), WorkerStatus::Stored(4));
    assert_eq!(e.worker_step(1), WorkerStatus::Stored(4));

    e.flush_fifo(0);
    assert_eq!(e.get_fifo_size(0), 0);
    assert_eq!(e.get_fifo_size(1), 4);

    assert_eq!(e.worker_step(0), WorkerStatus::Stored(4));
    assert_eq!(e.get_fifo_size(0), 4);
}

#[test]
fn flush_twice_without_start_leaves_empty_both_times() {
    let mut e = Aoldaq::create(&args(4, 1, 100), CountingDevice::new());
    e.start();
    assert_eq!(e.worker_step(0), WorkerStatus::Stored(4));
    e.stop();
    e.flush_fifo(0);
    assert_eq!(e.get_fifo_size(0), 0);
    e.flush_fifo(0);
    assert_eq!(e.get_fifo_size(0), 0);
    assert_eq!(e.worker_step(0), WorkerStatus::Parked);
}

#[test]
fn get_data_zero_count_polls_without_mutating() {
    let mut e = Aoldaq::create(&args(4, 1, 100), CountingDevice::new());
    e.start();
    assert_eq!(e.worker_step(0), WorkerStatus::Stored(4));
    let mut empty: Vec<u32> = Vec::new();
    assert_eq!(e.get_data(0, 0, &mut empty), 4);
    assert_eq!(e.get_data(0, 0, &mut empty), 4);
    assert_eq!(e.get_fifo_size(0), 4);
}

#[test]
fn invalid_channel_reads_zero_and_flush_is_noop() {
    let mut e = Aoldaq::create(&args(4, 2, 100), CountingDevice::new());
    e.start();
    assert_eq!(e.worker_step(0), WorkerStatus::Stored(4));

    let mut buf: Vec<u32> = vec![0; 4];
    assert_eq!(e.get_data_into(2, &mut buf), 0);
    assert_eq!(e.get_data_into(usize::MAX, &mut buf), 0);
    assert_eq!(buf, vec![0, 0, 0, 0]);
    assert_eq!(e.get_data(7, 4, &mut buf), 0);

    e.flush_fifo(7);
    assert_eq!(e.get_fifo_size(0), 4);
    assert_eq!(e.worker_step(1), WorkerStatus::Stored(4));
}

#[test]
fn blocking_read_timeout_zero_pops_once() {
    let mut e = Aoldaq::create(&args(10, 1, 100), CountingDevice::new());
    let mut buf: Vec<u32> = vec![0; 1000];
    assert_eq!(e.get_data_into_blocking(0, &mut buf, 0), 0);
    assert_eq!(buf[0], 0);
}

#[test]
fn blocking_read_times_out_with_short_count() {
    let mut e = Aoldaq::create(&args(10, 1, 100), CountingDevice::new());
    e.start();
    assert_eq!(e.worker_step(0), WorkerStatus::Stored(10));
    let mut buf: Vec<u32> = vec![0; 1000];
    assert_eq!(e.get_data_into_blocking(0, &mut buf, 20), 10);
    assert_eq!(&buf[..10], &[1, 2, 3, 4, 5, 6, 7, 8, 9, 10]);
    assert_eq!(&buf[10..12], &[0, 0]);
}

#[test]
fn device_error_skips_block() {
    let mut e = Aoldaq::create(&args(4, 1, 100), FailingDevice);
    e.start();
    assert_eq!(e.worker_step(0), WorkerStatus::ReadError(-7));
    assert_eq!(e.get_fifo_size(0), 0);
    assert_eq!(e.worker_step(0), WorkerStatus::ReadError(-7));
    assert_eq!(e.get_fifo_size(0), 0);
}

#[test]
fn underflow_returns_short_count() {
    let mut e = Aoldaq::create(&args(4, 1, 100), CountingDevice::new());
    e.start();
    assert_eq!(e.worker_step(0), WorkerStatus::Stored(4));
    let mut buf: Vec<u32> = vec![0; 10];
    assert_eq!(e.get_data_into(0, &mut buf), 4);
    assert_eq!(&buf[..4], &[1, 2, 3, 4]);
    assert_eq!(e.get_fifo_size(0), 0);
}

#[test]
fn shutdown_halts_every_worker() {
    let mut e = Aoldaq::create(&args(4, 2, 100), CountingDevice::new());
    e.start();
    assert_eq!(e.worker_step(0), WorkerStatus::Stored(4));
    e.shutdown();
    assert_eq!(e.worker_step(0), WorkerStatus::Exited);
    assert_eq!(e.worker_step(1), WorkerStatus::Exited);
}

#[test]
fn random_device_fills_whole_buffers() {
    let d = RandomDevice::new();
    let v = d.read_data(0, 7);
    assert_eq!(v.len(), 7);
    let mut buf: Vec<u32> = vec![0; 3];
    assert_eq!(d.read_into(1, &mut buf), Ok(3));
    assert_eq!(buf.len(), 3);
}

#[test]
fn random_mode_has_no_session() {
    let e = Aoldaq::create(&args(4, 1, 16), RandomDevice::new());
    assert_eq!(e.get_nifpga_session(), None);
}
