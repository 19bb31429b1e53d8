//! The outcome of waiting for the machine-wide PCI mutex.
//!
//! A register read through PCI config space is a two-step transaction on an index/data pair
//! that every process on the machine shares. `Global\Access_PCI` is the mutex by which
//! hardware-monitoring tools serialise that pair.
use vstd::prelude::*;

use crate::win::{WinError, WinResult};

verus! {

pub const PCI_MUTEX_NAME: &'static str = "Global\\Access_PCI";

/// Long enough to ride out another tool's transaction, short enough that a stuck peer
/// degrades one sample instead of stalling the sampler.
pub const DEFAULT_TIMEOUT_MS: u32 = 50;

/// The wait ended with the mutex owned.
pub const WAIT_OBJECT_0: u32 = 0;

/// The previous owner died holding the mutex; it is owned now, and has to be released.
pub const WAIT_ABANDONED: u32 = 0x80;

/// Whether the lock was acquired. A timeout is a real error rather than a silent "go ahead
/// anyway": proceeding unlocked is exactly the case that produces a corrupted reading.
pub fn acquired(wait: u32) -> (r: WinResult<()>)
    ensures
        r is Ok <==> wait == WAIT_OBJECT_0 || wait == WAIT_ABANDONED,
        r matches Err(e) ==> e.context@
            == "PCI bus busy — another hardware-monitoring tool is holding it"@ && e.code == wait,
{
    if wait == WAIT_OBJECT_0 || wait == WAIT_ABANDONED {
        Ok(())
    } else {
        Err(WinError::new("PCI bus busy — another hardware-monitoring tool is holding it", wait))
    }
}

} // verus!
