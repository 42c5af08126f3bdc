//! The counter record that the traffic-accounting hook and the monitor share.
//!
//! The record has a fixed layout agreed on by offset: the consumed-bytes
//! counter at offset 0, the quota limit at offset 8, sixteen bytes in all.
//! [`Globals`] is the monitor's image of it in plain values.

use vstd::prelude::*;

verus! {

/// Offset of the consumed-bytes counter within the record.
pub const BYTE_COUNT_OFFSET: usize = 0;

/// Offset of the quota limit within the record.
pub const HARD_QUOTA_OFFSET: usize = 8;

/// Size of the record in bytes.
pub const RECORD_SIZE: usize = 16;

/// The monitor's image of the shared counter record.
#[derive(Clone, Copy, Debug, PartialEq, Eq, Structural)]
pub struct Globals {
    /// Bytes counted by the hook since the last reset.
    pub byte_count: u64,
    /// The quota that the hook and the monitor measure the count against.
    pub hard_quota: u64,
}

impl Globals {
    /// A record as it is mapped first: nothing counted, no quota written.
    pub fn new() -> (g: Globals)
        ensures
            g.byte_count == 0,
            g.hard_quota == 0,
    {
        Globals { byte_count: 0, hard_quota: 0 }
    }

    /// The consumed-bytes counter.
    pub fn byte_count(&self) -> (n: u64)
        ensures
            n == self.byte_count,
    {
        self.byte_count
    }

    /// The quota limit.
    pub fn hard_quota(&self) -> (n: u64)
        ensures
            n == self.hard_quota,
    {
        self.hard_quota
    }

    /// Writes the quota limit; the counter is left alone.
    pub fn set_hard_quota(&mut self, quota: u64)
        ensures
            final(self).hard_quota == quota,
            final(self).byte_count == old(self).byte_count,
    {
        self.hard_quota = quota;
    }

    /// Takes a fresh reading of the counter into the image.
    pub fn observe(&mut self, byte_count: u64)
        ensures
            final(self).byte_count == byte_count,
            final(self).hard_quota == old(self).hard_quota,
    {
        self.byte_count = byte_count;
    }

    /// Zeroes the counter, whatever it held; the quota limit is left alone.
    pub fn reset(&mut self)
        ensures
            final(self).byte_count == 0,
            final(self).hard_quota == old(self).hard_quota,
    {
        self.byte_count = 0;
    }
}

} // verus!
