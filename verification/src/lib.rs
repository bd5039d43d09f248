//! Latency/jitter benchmarking core: a drift-compensating publish scheduler,
//! a subscriber-side event multiplexer, and the binary codec for the wire
//! message the two sides exchange.

pub mod codec;
pub mod mux;
pub mod scheduler;

use vstd::prelude::*;

verus! {

/// Splits a duration given as whole seconds plus a sub-second nanosecond
/// remainder into the signed pair carried in the wire message's timestamp.
pub fn to_secs_and_nanos(secs: u64, subsec_nanos: u32) -> (r: (i64, i32))
    requires
        secs <= i64::MAX,
        subsec_nanos < 1_000_000_000,
    ensures
        r.0 == secs as int,
        r.1 == subsec_nanos as int,
{
    (secs as i64, subsec_nanos as i32)
}

} // verus!
