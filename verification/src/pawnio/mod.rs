//! Ring-0 hardware access through PawnIO: a signed driver that runs small, auditable
//! bytecode modules instead of exposing raw ring-0 primitives to user space.
//!
//! See [`bootstrap`] for how its presence is judged and [`intel_msr`]/[`amd_msr`] for what
//! each vendor's module permits.
use vstd::prelude::*;

pub mod amd_msr;
pub mod bootstrap;
pub mod ffi;
pub mod intel_msr;

pub use bootstrap::{status, PawnIoStatus};

verus! {

} // verus!
