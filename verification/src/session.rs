//! Which CPU session may run: the stress test and the live monitor exclude each other, because
//! both open the same telemetry driver.
use vstd::prelude::*;

verus! {

/// What is running.
#[derive(Debug, Clone, Copy, PartialEq, Eq, Structural)]
pub struct CpuSessions {
    pub stress_running: bool,
    pub monitor_running: bool,
}

impl Default for CpuSessions {
    fn default() -> (s: Self)
        ensures
            s == (CpuSessions { stress_running: false, monitor_running: false }),
            s.exclusive(),
    {
        CpuSessions { stress_running: false, monitor_running: false }
    }
}

impl CpuSessions {
    /// At most one of the two runs.
    pub open spec fn exclusive(self) -> bool {
        !(self.stress_running && self.monitor_running)
    }

    /// Start a stress test. Hands back whether a monitor has to be stopped, and waited for,
    /// first: its session has to be closed, not merely told to close.
    pub fn start_stress(&mut self) -> (stop_monitor: bool)
        ensures
            stop_monitor == old(self).monitor_running,
            *final(self) == (CpuSessions { stress_running: true, monitor_running: false }),
            final(self).exclusive(),
    {
        let stop_monitor = self.monitor_running;
        self.monitor_running = false;
        self.stress_running = true;
        stop_monitor
    }

    /// A stress test has finished.
    pub fn stress_finished(&mut self)
        ensures
            *final(self) == (CpuSessions { stress_running: false, ..*old(self) }),
            final(self).exclusive(),
    {
        self.stress_running = false;
    }

    /// Start the monitor, unless a stress test is running: that takes priority. Hands back
    /// whether an earlier monitor has to be stopped, and waited for, first.
    pub fn start_monitor(&mut self) -> (r: Result<bool, String>)
        requires
            old(self).exclusive(),
        ensures
            if old(self).stress_running {
                &&& r matches Err(e) && e@ == "a CPU stress test is already running"@
                &&& *final(self) == *old(self)
            } else {
                &&& r == Ok::<bool, String>(old(self).monitor_running)
                &&& *final(self) == (CpuSessions { monitor_running: true, ..*old(self) })
            },
            final(self).exclusive(),
    {
        if self.stress_running {
            return Err(String::from_str("a CPU stress test is already running"));
        }
        let restart = self.monitor_running;
        self.monitor_running = true;
        Ok(restart)
    }

    /// Stop the monitor. Hands back whether there is one to stop.
    pub fn stop_monitor(&mut self) -> (running: bool)
        ensures
            running == old(self).monitor_running,
            *final(self) == (CpuSessions { monitor_running: false, ..*old(self) }),
            final(self).exclusive(),
    {
        let running = self.monitor_running;
        self.monitor_running = false;
        running
    }
}

} // verus!
