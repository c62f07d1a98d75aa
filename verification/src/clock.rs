//! The system clock.

use vstd::prelude::*;

verus! {

/// Calls `std::time::SystemTime::elapsed` on the Unix epoch: the whole seconds since then, or
/// `None` where the clock stands before it. The time is whatever the machine says, so nothing is
/// promised of it. A WebAssembly build may have no clock; its licenses are granted without one.
#[verifier::external_body]
pub(crate) fn unix_time() -> (r: Option<u64>)
{
    std::time::UNIX_EPOCH.elapsed().ok().map(|elapsed| elapsed.as_secs())
}

/// Whether the system clock may have shown this when it was read. Nothing else is known to be
/// shown than what a reading gave.
pub closed spec fn shown(clock: Option<u64>) -> bool {
    call_ensures(unix_time, (), clock)
}

/// Takes a reading of something that can be read.
fn reading_of<C: FnOnce() -> Option<u64>>(source: C) -> (r: Option<u64>)
    requires
        call_requires(source, ()),
    ensures
        call_ensures(source, (), r),
{
    source()
}

/// Reads the system clock.
pub fn read() -> (r: Option<u64>)
    ensures
        shown(r),
{
    reading_of(unix_time)
}

} // verus!
