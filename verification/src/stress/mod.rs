//! Stress kernels and phase orchestration.
//!
//! A cancelled or aborted run always ends unloaded, and a missing telemetry driver degrades
//! every affected sample field rather than the run itself.
use vstd::prelude::*;

pub mod cpu_kernel;
pub mod gpu_kernel;
pub mod gpu_orchestrator;
pub mod orchestrator;

verus! {

} // verus!
