//! Turning measurements into conclusions.
//!
//! The rules rest on facts that are true of any machine: a drive that reports unreadable
//! sectors is failing, firmware-persistent anti-theft is a liability, memory that runs
//! below its own rated speed is misconfigured.
//!
//! Every rule states what it saw, what it expected, and where that expectation comes
//! from. A buyer has to defend these conclusions to a seller, so a finding that cannot
//! explain itself does not belong here.
use vstd::prelude::*;

pub mod findings;
pub mod laws;
pub mod order;
pub mod rule_laws;
pub mod stress_findings;
pub mod stress_laws;

pub use findings::evaluate;

verus! {

} // verus!
