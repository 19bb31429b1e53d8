//! What a live session measures, and how raw counters become measurements.
use vstd::prelude::*;

pub mod cpu_source;
pub mod live_monitor;
pub mod types;

verus! {

} // verus!
