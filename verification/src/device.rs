//! The device capability the acquisition core consumes: per channel, an
//! operation that fills a buffer with fresh samples. The synthetic random
//! source lives here; a hardware variant is a host-side concern and plugs
//! into the same trait.

use vstd::prelude::*;

verus! {

/// What any sample source promises the engine: `read_into` keeps the
/// buffer's size and, when it succeeds, has filled all of it; `read_data`
/// hands back exactly the requested number of samples. A failing variant
/// reports a device status code, which the engine survives: the block is
/// skipped and the worker goes on.
pub trait Device {
    /// The session identifier this source reports: the hardware driver
    /// context's identifier, or `None` for a source that has no session.
    spec fn session_spec(&self) -> Option<u32>;

    /// Reads `n` fresh samples from `channel` into a new vector.
    fn read_data(&self, channel: usize, n: usize) -> (r: Vec<u32>)
        ensures
            r@.len() == n,
    ;

    /// Fills `buf` with fresh samples from `channel`. On success the whole
    /// buffer was filled and the count is returned; on failure the device's
    /// status code comes back and the buffer contents are unspecified.
    fn read_into(&self, channel: usize, buf: &mut Vec<u32>) -> (r: Result<usize, i32>)
        ensures
            final(buf)@.len() == old(buf)@.len(),
            r matches Ok(n) ==> n == old(buf)@.len(),
    ;

    /// The device-side FIFO fill level for `channel`, without consuming;
    /// a source that cannot report one answers `None`. Diagnostics only.
    fn poll(&self, channel: usize) -> (r: Option<usize>)
    ;

    /// The session identifier of the underlying hardware driver context,
    /// when there is one.
    fn nifpga_session(&self) -> (s: Option<u32>)
        ensures
            s == self.session_spec(),
    ;
}

/// Relies on `rand::random::<u32>`: yields one sample; nothing is promised
/// of its value.
#[verifier::external_body]
fn random_u32() -> (s: u32)
    ensures
        s <= u32::MAX,
{
    rand::random()
}

/// The synthetic test source: every read succeeds at once and hands back
/// arbitrary samples.
pub struct RandomDevice;

impl RandomDevice {
    pub fn new() -> (d: RandomDevice)
    {
        RandomDevice
    }
}

impl Device for RandomDevice {
    open spec fn session_spec(&self) -> Option<u32> {
        None
    }

    fn read_data(&self, channel: usize, n: usize) -> (r: Vec<u32>)
    {
        let mut r: Vec<u32> = Vec::new();
        let mut i: usize = 0;
        while i < n
            invariant
                i <= n,
                r@.len() == i,
            decreases n - i,
        {
            r.push(random_u32());
            i = i + 1;
        }
        r
    }

    fn read_into(&self, channel: usize, buf: &mut Vec<u32>) -> (r: Result<usize, i32>)
        ensures
            r matches Ok(k) && k == old(buf)@.len(),
    {
        let n = buf.len();
        let mut i: usize = 0;
        while i < n
            invariant
                i <= n,
                buf@.len() == n,
            decreases n - i,
        {
            let s = random_u32();
            buf[i] = s;
            i = i + 1;
        }
        Ok(n)
    }

    fn poll(&self, channel: usize) -> (r: Option<usize>)
        ensures
            r is None,
    {
        None
    }

    fn nifpga_session(&self) -> (s: Option<u32>)
    {
        None
    }
}

} // verus!
