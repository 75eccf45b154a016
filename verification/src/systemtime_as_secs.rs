//! Timestamps as the engine sees them: a point in time is its distance from
//! the epoch, split into whole seconds and the nanoseconds within the
//! second. The conversion from the platform clock happens outside the
//! library.

use vstd::prelude::*;

verus! {

/// A point in time: seconds since the epoch plus nanoseconds within the
/// second.
#[derive(Debug, Clone, Copy, PartialEq, Eq, Structural)]
pub struct SysTime {
    pub secs: u64,
    pub nanos: u32,
}

impl SysTime {
    /// The nanosecond part names a place within one second.
    pub open spec fn wf(&self) -> bool {
        self.nanos < 1_000_000_000
    }
}

/// A timestamp's whole seconds since the epoch.
pub fn as_secs(t: SysTime) -> (r: u64)
    ensures
        r == t.secs,
{
    t.secs
}

/// A timestamp's whole milliseconds since the epoch.
pub fn as_millis(t: SysTime) -> (r: u128)
    ensures
        r == t.secs * 1000 + t.nanos / 1_000_000,
{
    (t.secs as u128) * 1000 + (t.nanos / 1_000_000) as u128
}

} // verus!
