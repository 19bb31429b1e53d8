//! The decisions of the GPU stress worker: how large a batch is, when to verify the result,
//! and what counts as a fault.
//!
//! The worker never waits for the GPU in its steady state. It submits batches ahead and polls
//! for the self-check result, so verification costs no load.
use vstd::prelude::*;

use crate::win::WinResult;

verus! {

/// Target GPU work per batch, in microseconds: long enough that bookkeeping is negligible,
/// short enough that a cancellation still feels immediate.
pub const TARGET_BATCH_MICROS: u64 = 250_000;

/// Ceiling on the size of a batch.
pub const MAX_DISPATCHES_PER_BATCH: u32 = 64;

/// How often to verify the result, in nanoseconds.
pub const SELF_CHECK_INTERVAL_NANOS: u64 = 2_000_000_000;

/// The size of a batch on hardware where one dispatch takes this many nanoseconds.
pub open spec fn batch_of(per_dispatch_nanos: u64) -> u32 {
    let micros = per_dispatch_nanos / 1000;
    let n = if micros == 0 {
        TARGET_BATCH_MICROS
    } else {
        TARGET_BATCH_MICROS / micros
    };
    if n < 1 {
        1
    } else if n > MAX_DISPATCHES_PER_BATCH {
        MAX_DISPATCHES_PER_BATCH
    } else {
        n as u32
    }
}

/// Dispatches per batch such that a batch is about [`TARGET_BATCH_MICROS`] of work on
/// hardware where one dispatch takes this many nanoseconds.
pub fn batch_size_for(per_dispatch_nanos: u64) -> (n: u32)
    ensures
        n == batch_of(per_dispatch_nanos),
{
    let micros: u64 = per_dispatch_nanos / 1000;
    let n: u64 = if micros == 0 {
        TARGET_BATCH_MICROS
    } else {
        TARGET_BATCH_MICROS / micros
    };
    if n < 1 {
        1
    } else if n > MAX_DISPATCHES_PER_BATCH as u64 {
        MAX_DISPATCHES_PER_BATCH
    } else {
        n as u32
    }
}

/// The counters of a worker that a sampler reads.
#[derive(Debug, Clone, Copy, PartialEq, Eq, Structural)]
pub struct GpuWorkerStats {
    /// Dispatches submitted. Some batches may still be in flight, so this leads actual
    /// completion slightly.
    pub dispatches: u64,
    pub fault: bool,
}

/// What the worker has done so far, and the self-check that is under way.
#[derive(Debug, Clone, Copy, PartialEq, Eq, Structural)]
pub struct GpuWorker {
    /// Dispatches submitted.
    pub dispatches: u64,
    /// Set, and left set, on the first fault.
    pub fault: bool,
    /// The checksums that every result has to have.
    pub reference: u64,
    pub graphics_reference: u64,
    /// The fence value of the batch whose result is to be verified.
    pub pending: Option<u64>,
    /// When the last verification ended, in nanoseconds of a monotonic clock.
    pub last_check: u64,
}

impl GpuWorker {
    /// A worker whose first batch gave these checksums, at the time `now`.
    pub fn new(reference: u64, graphics_reference: u64, now: u64) -> (w: Self)
        ensures
            w == (GpuWorker {
                dispatches: 0,
                fault: false,
                reference,
                graphics_reference,
                pending: None,
                last_check: now,
            }),
    {
        GpuWorker {
            dispatches: 0,
            fault: false,
            reference,
            graphics_reference,
            pending: None,
            last_check: now,
        }
    }

    /// The counters that a sampler reads.
    pub fn stats(&self) -> (s: GpuWorkerStats)
        ensures
            s == (GpuWorkerStats { dispatches: self.dispatches, fault: self.fault }),
    {
        GpuWorkerStats { dispatches: self.dispatches, fault: self.fault }
    }

    /// A verification is due: none is under way, and the last one is long enough ago.
    pub open spec fn check_due(self, now: u64) -> bool {
        self.pending is None && now - self.last_check >= SELF_CHECK_INTERVAL_NANOS
    }

    /// Whether the next batch is to copy its result for verification.
    pub fn wants_capture(&self, now: u64) -> (b: bool)
        ensures
            b == self.check_due(now),
    {
        self.pending.is_none() && now >= self.last_check && now - self.last_check
            >= SELF_CHECK_INTERVAL_NANOS
    }

    /// The worker after a batch was submitted, with or without success.
    pub open spec fn after_submission(self, submitted: Option<u64>, batch: u32, capture: bool) -> GpuWorker {
        match submitted {
            Some(fence) => GpuWorker {
                dispatches: self.dispatches.wrapping_add(batch as u64),
                pending: if capture {
                    Some(fence)
                } else {
                    self.pending
                },
                ..self
            },
            None => GpuWorker { fault: true, ..self },
        }
    }

    /// Count a submission of `batch` dispatches, which returned its fence value or an error.
    /// Hands back whether to go on: submission only fails when the device is gone, and more
    /// submissions cannot succeed.
    pub fn submitted(&mut self, result: &WinResult<u64>, batch: u32, capture: bool) -> (go_on: bool)
        ensures
            go_on == result is Ok,
            *final(self) == old(self).after_submission(
                match *result {
                    Ok(fence) => Some(fence),
                    Err(_) => None,
                },
                batch,
                capture,
            ),
    {
        match result {
            Ok(fence) => {
                self.dispatches = self.dispatches.wrapping_add(batch as u64);
                if capture {
                    self.pending = Some(*fence);
                }
                true
            },
            Err(_) => {
                self.fault = true;
                false
            },
        }
    }

    /// The result is the one that every batch has to have.
    pub open spec fn matches(self, sum: WinResult<u64>, graphics: WinResult<u64>) -> bool {
        sum matches Ok(s) && s == self.reference && (graphics matches Ok(g) && g
            == self.graphics_reference)
    }

    /// Verify the pending result: a checksum that differs, of either pass, or that cannot be
    /// read is a fault.
    pub fn verify(&mut self, sum: &WinResult<u64>, graphics: &WinResult<u64>, now: u64)
        ensures
            *final(self) == (GpuWorker {
                fault: old(self).fault || !old(self).matches(*sum, *graphics),
                pending: None,
                last_check: now,
                ..*old(self)
            }),
    {
        let computed = match sum {
            Ok(s) => *s == self.reference,
            Err(_) => false,
        };
        let drawn = match graphics {
            Ok(g) => *g == self.graphics_reference,
            Err(_) => false,
        };
        if !computed || !drawn {
            self.fault = true;
        }
        self.pending = None;
        self.last_check = now;
    }
}

// ---------------------------------------------------------------------------
// Laws
// ---------------------------------------------------------------------------

/// A batch never collapses to nothing and never runs away.
pub proof fn batches_are_bounded(per_dispatch_nanos: u64)
    ensures
        1 <= batch_of(per_dispatch_nanos) <= MAX_DISPATCHES_PER_BATCH,
{
}

/// A batch of more than one dispatch is no more than the target amount of work.
pub proof fn batches_stay_within_the_target(per_dispatch_nanos: u64)
    requires
        batch_of(per_dispatch_nanos) > 1,
    ensures
        batch_of(per_dispatch_nanos) * (per_dispatch_nanos / 1000) <= TARGET_BATCH_MICROS,
{
    let micros = per_dispatch_nanos / 1000;
    if micros > 0 {
        let n = TARGET_BATCH_MICROS / micros;
        assert(n * micros <= TARGET_BATCH_MICROS) by (nonlinear_arith)
            requires
                n == TARGET_BATCH_MICROS / micros,
                micros > 0,
        ;
        assert(batch_of(per_dispatch_nanos) * micros <= n * micros) by (nonlinear_arith)
            requires
                batch_of(per_dispatch_nanos) <= n,
                micros >= 0,
        ;
    }
}

/// A fault is never forgotten.
pub proof fn faults_stay(w: GpuWorker, submitted: Option<u64>, batch: u32, capture: bool)
    requires
        w.fault,
    ensures
        w.after_submission(submitted, batch, capture).fault,
{
}

/// While one verification is under way no other is asked for.
pub proof fn one_verification_at_a_time(w: GpuWorker, fence: u64, batch: u32, now: u64)
    ensures
        !w.after_submission(Some(fence), batch, true).check_due(now),
{
}

/// A batch is the largest that stays within a quarter of a second, counting whole microseconds,
/// between one dispatch and sixty-four.
pub proof fn batches_fill_a_quarter_of_a_second(per_dispatch_nanos: u64)
    ensures
        ({
            let n = batch_of(per_dispatch_nanos) as int;
            let micros = per_dispatch_nanos as int / 1000;
            &&& 1 <= n <= 64
            &&& n > 1 ==> n * micros <= 250_000
            &&& n < 64 ==> (n + 1) * micros > 250_000
        }),
{
    let micros = per_dispatch_nanos as int / 1000;
    let n = batch_of(per_dispatch_nanos) as int;
    if micros > 0 {
        let q = 250_000int / micros;
        assert(q * micros <= 250_000 && 250_000 < (q + 1) * micros) by (nonlinear_arith)
            requires
                q == 250_000int / micros,
                micros > 0,
        ;
        if n < 64 {
            assert((q + 1) * micros <= (n + 1) * micros) by (nonlinear_arith)
                requires
                    q <= n,
                    micros > 0,
            ;
        }
        if n > 1 {
            assert(n * micros <= q * micros) by (nonlinear_arith)
                requires
                    n <= q,
                    micros > 0,
            ;
        }
    }
}

/// A verification is due from two seconds after the last one on, unless one is under way.
pub proof fn a_check_is_due_every_two_seconds(w: GpuWorker, now: u64)
    ensures
        w.check_due(now) <==> w.pending is None && now >= w.last_check + 2_000_000_000,
{
}

/// A result is right exactly where both passes could be read and both gave the reference.
pub proof fn both_passes_have_to_match(w: GpuWorker, sum: WinResult<u64>, graphics: WinResult<u64>)
    ensures
        w.matches(sum, graphics) <==> sum == Ok::<u64, crate::win::WinError>(w.reference)
            && graphics == Ok::<u64, crate::win::WinError>(w.graphics_reference),
{
}

/// A submission that went through counts its dispatches and, where its result is to be verified,
/// waits for its fence; one that failed is a fault and changes nothing else.
pub proof fn submissions_are_counted(w: GpuWorker, fence: u64, batch: u32, capture: bool)
    ensures
        ({
            let t = w.after_submission(Some(fence), batch, capture);
            &&& w.dispatches + batch <= u64::MAX ==> t.dispatches == w.dispatches + batch
            &&& t.pending == if capture {
                Some(fence)
            } else {
                w.pending
            }
            &&& t.fault == w.fault && t.reference == w.reference && t.graphics_reference
                == w.graphics_reference && t.last_check == w.last_check
        }),
        ({
            let t = w.after_submission(None, batch, capture);
            &&& t.fault
            &&& t.dispatches == w.dispatches && t.pending == w.pending && t.last_check
                == w.last_check && t.reference == w.reference && t.graphics_reference
                == w.graphics_reference
        }),
{
}

} // verus!
