//! Pre-purchase hardware inspection for used machines: decoding what the hardware
//! reports, and turning those measurements into conclusions a buyer can defend.
use vstd::prelude::*;

pub mod analysis;
pub mod bytes;
pub mod clock;
pub mod measure;
pub mod model;
pub mod natural;
pub mod pawnio;
pub mod probes;
pub mod scan;
pub mod session;
pub mod stress;
pub mod telemetry;
pub mod text;
pub mod win;

pub use scan::{BatteryScanData, ComponentScan};

verus! {

} // verus!
