//! A multi-channel data-acquisition engine: per-channel producer workers
//! pull fixed-size blocks of 32-bit samples from a device and hand them to
//! a consumer through bounded single-producer/single-consumer ring buffers.
//!
//! The engine here is the sequential core: it owns every ring whole and is
//! driven one step at a time, so every hand-off is observed exactly. A
//! threaded host runs the same decisions concurrently, sleeping and parking
//! where this core merely reports the decision it took.

pub mod device;
pub mod engine;
pub mod laws;
pub mod ring;

pub use device::{Device, RandomDevice};
pub use engine::{
    push_loop_goes_on, should_keep_waiting, Aoldaq, AoldaqArgs, AoldaqMode, WorkerStatus,
};
pub use ring::Ring;
