//! The CPU stress schedule: which phase comes next, how many workers it loads, when it ends
//! or aborts, and what a tick of the sampler records.
//!
//! All durations and times are in nanoseconds; times are of one monotonic clock.
use vstd::prelude::*;

use crate::stress::cpu_kernel::WorkerStats;
use crate::telemetry::cpu_source::CpuTelemetryReadings;
use crate::telemetry::types::{
    CpuSample, CpuSampleView, CpuStressResult, CpuStressResultView, Phase,
};
use crate::text::number::{dec, push_dec};

verus! {

pub const SECOND: u64 = 1_000_000_000;

/// The lengths of the phases, and the sampler's interval.
#[derive(Debug, Clone, Copy, PartialEq, Eq, Structural)]
pub struct StressConfig {
    pub idle_baseline: u64,
    pub single_thread_boost: u64,
    pub all_core_sustained: u64,
    pub cooldown: u64,
    pub sample_interval: u64,
}

/// A sixth of the run, but no less than fifteen seconds and no more than two minutes.
pub open spec fn cooldown_of(total: u64) -> u64 {
    let sixth = total / 6;
    if sixth < 15 * SECOND {
        (15 * SECOND) as u64
    } else if sixth > 120 * SECOND {
        (120 * SECOND) as u64
    } else {
        sixth
    }
}

impl StressConfig {
    /// The schedule that targets an overall run length.
    pub open spec fn of_total(total: u64) -> StressConfig {
        let cooldown = cooldown_of(total);
        StressConfig {
            idle_baseline: (5 * SECOND) as u64,
            single_thread_boost: (10 * SECOND) as u64,
            all_core_sustained: if total - 15 * SECOND - cooldown > 30 * SECOND {
                (total - 15 * SECOND - cooldown) as u64
            } else {
                (30 * SECOND) as u64
            },
            cooldown,
            sample_interval: 250_000_000,
        }
    }

    /// The usual schedule: twelve minutes in total. Pressing start means that the machine is
    /// under real load within seconds.
    pub fn standard() -> (c: Self)
        ensures
            c == Self::of_total((12 * 60 * SECOND) as u64),
            c.total() == 12 * 60 * SECOND,
            c.idle_baseline + c.single_thread_boost == 15 * SECOND,
    {
        Self::for_duration(12 * 60 * SECOND)
    }

    /// Build a schedule that targets `total` overall run length. The idle baseline and the
    /// single-thread boost keep their calibration lengths; the cooldown is a bounded fraction
    /// of the total; whatever remains goes to the sustained phase, but no less than thirty
    /// seconds.
    pub fn for_duration(total: u64) -> (c: Self)
        ensures
            c == Self::of_total(total),
    {
        let idle_baseline: u64 = 5 * SECOND;
        let single_thread_boost: u64 = 10 * SECOND;
        let sixth: u64 = total / 6;
        let cooldown: u64 = if sixth < 15 * SECOND {
            15 * SECOND
        } else if sixth > 120 * SECOND {
            120 * SECOND
        } else {
            sixth
        };
        let fixed: u64 = idle_baseline + single_thread_boost + cooldown;
        let rest: u64 = if total >= fixed {
            total - fixed
        } else {
            0
        };
        let all_core_sustained: u64 = if rest > 30 * SECOND {
            rest
        } else {
            30 * SECOND
        };
        StressConfig {
            idle_baseline,
            single_thread_boost,
            all_core_sustained,
            cooldown,
            sample_interval: 250_000_000,
        }
    }

    /// The overall length of a run.
    pub open spec fn total(self) -> int {
        self.idle_baseline + self.single_thread_boost + self.all_core_sustained + self.cooldown
    }
}

/// Battery below this percentage, on disconnected power, aborts a run: a stranger's battery
/// is not to be drained past the point of a safe shutdown.
pub const MIN_BATTERY_PERCENT_ON_DC: u8 = 20;

/// What the operating system says of the power supply.
#[derive(Debug, Clone, Copy, PartialEq, Eq, Structural)]
pub struct PowerStatus {
    /// Zero when the machine runs on battery.
    pub ac_line_status: u8,
    /// 255 when the charge is not known.
    pub battery_life_percent: u8,
}

/// Why a run has to be aborted in this power state; nothing where it may go on, or where the
/// state could not be read.
pub open spec fn abort_text(power: Option<PowerStatus>) -> Option<Seq<char>> {
    match power {
        Some(p) if p.ac_line_status == 0 && p.battery_life_percent != 255 && p.battery_life_percent
            < MIN_BATTERY_PERCENT_ON_DC => Some(
            "battery at "@ + dec(p.battery_life_percent as nat)
                + "% on DC power — aborting before it drops further"@,
        ),
        _ => None,
    }
}

/// Why a run has to be aborted in this power state.
pub fn check_abort_conditions(power: Option<PowerStatus>) -> (r: Option<String>)
    ensures
        r.deep_view() == abort_text(power),
{
    let p = match power {
        Some(p) => p,
        None => {
            return None;
        },
    };
    if p.ac_line_status == 0 && p.battery_life_percent != 255 && p.battery_life_percent
        < MIN_BATTERY_PERCENT_ON_DC {
        let mut s = String::from_str("battery at ");
        push_dec(&mut s, p.battery_life_percent as u128);
        s.append("% on DC power — aborting before it drops further");
        return Some(s);
    }
    None
}

/// A phase that is about to run: what it is, how long it lasts, and how many workers it
/// loads.
#[derive(Debug, Clone, Copy, PartialEq, Eq, Structural)]
pub struct PhasePlan {
    pub phase: Phase,
    pub duration: u64,
    pub workers: u32,
}

/// The phases of a run, in order. Only the two in the middle load the machine.
pub open spec fn plan_of(config: StressConfig, logical: u32, i: int) -> PhasePlan {
    if i == 0 {
        PhasePlan { phase: Phase::IdleBaseline, duration: config.idle_baseline, workers: 0 }
    } else if i == 1 {
        PhasePlan {
            phase: Phase::SingleThreadBoost,
            duration: config.single_thread_boost,
            workers: 1,
        }
    } else if i == 2 {
        PhasePlan {
            phase: Phase::AllCoreSustained,
            duration: config.all_core_sustained,
            workers: logical,
        }
    } else {
        PhasePlan { phase: Phase::Cooldown, duration: config.cooldown, workers: 0 }
    }
}

/// What to do at a tick of the sampler.
#[derive(Debug, Clone, Copy, PartialEq, Eq, Structural)]
pub enum Tick {
    /// The phase is over: join its workers.
    PhaseOver,
    /// The run is aborted: stop its workers.
    Stop,
    /// Take a sample.
    Sample,
}

/// A run under way.
pub struct CpuRun {
    pub config: StressConfig,
    /// Logical processors, at least one.
    pub logical: u32,
    /// How many phases have begun.
    pub begun: u8,
    /// When the current phase began.
    pub phase_start: u64,
    pub samples: Vec<CpuSample>,
    pub abort: Option<String>,
    pub self_check_failed: bool,
    /// Some block of the run has been compared with its reference.
    pub checked: bool,
}

/// The mathematical model of [`CpuRun`].
#[verifier::ext_equal]
pub struct CpuRunView {
    pub config: StressConfig,
    pub logical: u32,
    pub begun: int,
    pub phase_start: u64,
    pub samples: Seq<CpuSampleView>,
    pub abort: Option<Seq<char>>,
    pub self_check_failed: bool,
    pub checked: bool,
}

impl DeepView for CpuRun {
    type V = CpuRunView;

    open spec fn deep_view(&self) -> CpuRunView {
        CpuRunView {
            config: self.config,
            logical: self.logical,
            begun: self.begun as int,
            phase_start: self.phase_start,
            samples: self.samples.deep_view(),
            abort: self.abort.deep_view(),
            self_check_failed: self.self_check_failed,
            checked: self.checked,
        }
    }
}

impl CpuRunView {
    /// At most four phases have begun, and there is a processor to load.
    pub open spec fn wf(self) -> bool {
        0 <= self.begun <= 4 && self.logical > 0
    }

    /// A run before its first phase.
    pub open spec fn fresh(config: StressConfig, logical: u32) -> CpuRunView {
        CpuRunView {
            config,
            logical: if logical == 0 {
                1
            } else {
                logical
            },
            begun: 0,
            phase_start: 0,
            samples: seq![],
            abort: None,
            self_check_failed: false,
            checked: false,
        }
    }

    /// The phase that has begun last.
    pub open spec fn current(self) -> PhasePlan {
        plan_of(self.config, self.logical, self.begun - 1)
    }

    /// The phase to run next: none after an abort, after the last phase, or when the run was
    /// cancelled.
    pub open spec fn next_plan(self, cancelled: bool) -> Option<PhasePlan> {
        if self.abort is Some || self.begun >= 4 || cancelled {
            None
        } else {
            Some(plan_of(self.config, self.logical, self.begun))
        }
    }

    /// The run after it was asked for its next phase.
    pub open spec fn after_next(self, cancelled: bool, now: u64) -> CpuRunView {
        if self.abort is Some || self.begun >= 4 {
            self
        } else if cancelled {
            CpuRunView { abort: Some("cancelled by user"@), ..self }
        } else {
            CpuRunView { begun: self.begun + 1, phase_start: now, ..self }
        }
    }

    /// What to do at a tick. The end of the phase comes before an abort, and cancellation
    /// before the state of the battery.
    pub open spec fn tick(self, now: u64, cancelled: bool, power: Option<PowerStatus>) -> Tick {
        if now - self.phase_start >= self.current().duration {
            Tick::PhaseOver
        } else if cancelled || abort_text(power) is Some {
            Tick::Stop
        } else {
            Tick::Sample
        }
    }

    /// The run after a tick.
    pub open spec fn after_tick(self, now: u64, cancelled: bool, power: Option<PowerStatus>) -> CpuRunView {
        if self.tick(now, cancelled, power) != Tick::Stop {
            self
        } else if cancelled {
            CpuRunView { abort: Some("cancelled by user"@), ..self }
        } else {
            CpuRunView { abort: abort_text(power), ..self }
        }
    }
}

/// The iterations of all workers.
pub open spec fn iterations_of(workers: Seq<WorkerStats>) -> nat
    decreases workers.len(),
{
    if workers.len() == 0 {
        0
    } else {
        iterations_of(workers.drop_last()) + workers.last().iterations as nat
    }
}

/// Some worker has seen a fault.
pub open spec fn any_fault(workers: Seq<WorkerStats>) -> bool {
    exists|i: int| 0 <= i < workers.len() && (#[trigger] workers[i]).fault
}

/// The worker has compared a block: every block counts iterations.
pub open spec fn has_compared(w: WorkerStats) -> bool {
    w.iterations > 0 || w.fault
}

/// Some worker has compared a block.
pub open spec fn any_compared(workers: Seq<WorkerStats>) -> bool {
    exists|i: int| 0 <= i < workers.len() && has_compared(#[trigger] workers[i])
}

proof fn iterations_grow(workers: Seq<WorkerStats>, n: int)
    requires
        0 <= n <= workers.len(),
    ensures
        iterations_of(workers.take(n)) <= iterations_of(workers),
    decreases workers.len(),
{
    if n < workers.len() {
        iterations_grow(workers.drop_last(), n);
        assert(workers.drop_last().take(n) == workers.take(n));
    } else {
        assert(workers.take(n) == workers);
    }
}

fn tally(workers: &[WorkerStats]) -> (r: (u64, bool, bool))
    requires
        iterations_of(workers@) <= u64::MAX,
    ensures
        r.0 == iterations_of(workers@),
        r.1 == any_fault(workers@),
        r.2 == any_compared(workers@),
{
    let mut total: u64 = 0;
    let mut fault = false;
    let mut compared = false;
    for i in 0..workers.len()
        invariant
            iterations_of(workers@) <= u64::MAX,
            total == iterations_of(workers@.take(i as int)),
            fault == (exists|j: int| 0 <= j < i && (#[trigger] workers@[j]).fault),
            compared == (exists|j: int| 0 <= j < i && has_compared(#[trigger] workers@[j])),
    {
        proof {
            iterations_grow(workers@, i + 1);
        }
        assert(workers@.take(i + 1).drop_last() == workers@.take(i as int));
        assert(workers@.take(i + 1).last() == workers@[i as int]);
        total = total + workers[i].iterations;
        if workers[i].fault {
            assert(workers@[i as int].fault);
            fault = true;
        }
        if workers[i].iterations > 0 || workers[i].fault {
            assert(has_compared(workers@[i as int]));
            compared = true;
        }
    }
    assert(workers@.take(workers@.len() as int) == workers@);
    (total, fault, compared)
}

/// The sample that a tick records. There is no verdict of the self-check before the first block
/// of the run has been compared, nor while no worker is running.
pub open spec fn sample_at(
    run: CpuRunView,
    elapsed_ms: u64,
    readings: crate::telemetry::cpu_source::CpuTelemetryView,
    workers: Seq<WorkerStats>,
) -> CpuSampleView {
    CpuSampleView {
        elapsed_ms,
        phase: run.current().phase,
        effective_clock: readings.effective_clock,
        package_power: readings.package_power,
        configured_pl1: readings.configured_pl1,
        configured_pl2: readings.configured_pl2,
        package_temperature_c: readings.package_temperature_c,
        thermal_throttling: readings.thermal_throttling,
        self_check_ok: if workers.len() == 0 || !(run.checked || any_compared(workers)) {
            None
        } else {
            Some(!any_fault(workers))
        },
        total_iterations: iterations_of(workers) as u64,
    }
}

impl CpuRun {
    /// A run on a machine with this many logical processors.
    pub fn new(config: StressConfig, logical_processors: u32) -> (r: Self)
        ensures
            r.deep_view() == CpuRunView::fresh(config, logical_processors),
            r.deep_view().wf(),
    {
        let r = CpuRun {
            config,
            logical: if logical_processors == 0 {
                1
            } else {
                logical_processors
            },
            begun: 0,
            phase_start: 0,
            samples: Vec::new(),
            abort: None,
            self_check_failed: false,
            checked: false,
        };
        assert(r.deep_view() == CpuRunView::fresh(config, logical_processors));
        r
    }

    fn plan(&self, i: u8) -> (p: PhasePlan)
        requires
            i < 4,
        ensures
            p == plan_of(self.config, self.logical, i as int),
    {
        if i == 0 {
            PhasePlan {
                phase: Phase::IdleBaseline,
                duration: self.config.idle_baseline,
                workers: 0,
            }
        } else if i == 1 {
            PhasePlan {
                phase: Phase::SingleThreadBoost,
                duration: self.config.single_thread_boost,
                workers: 1,
            }
        } else if i == 2 {
            PhasePlan {
                phase: Phase::AllCoreSustained,
                duration: self.config.all_core_sustained,
                workers: self.logical,
            }
        } else {
            PhasePlan { phase: Phase::Cooldown, duration: self.config.cooldown, workers: 0 }
        }
    }

    /// The phase to run next, which begins at `now`; nothing when the run is over.
    pub fn next_phase(&mut self, cancelled: bool, now: u64) -> (r: Option<PhasePlan>)
        requires
            old(self).deep_view().wf(),
        ensures
            r == old(self).deep_view().next_plan(cancelled),
            final(self).deep_view() == old(self).deep_view().after_next(cancelled, now),
            final(self).deep_view().wf(),
    {
        if self.abort.is_some() || self.begun >= 4 {
            return None;
        }
        if cancelled {
            self.abort = Some(String::from_str("cancelled by user"));
            return None;
        }
        let p = self.plan(self.begun);
        self.begun = self.begun + 1;
        self.phase_start = now;
        Some(p)
    }

    /// What to do at a tick of the sampler.
    pub fn tick(&mut self, now: u64, cancelled: bool, power: Option<PowerStatus>) -> (t: Tick)
        requires
            old(self).deep_view().wf(),
            old(self).begun > 0,
        ensures
            t == old(self).deep_view().tick(now, cancelled, power),
            final(self).deep_view() == old(self).deep_view().after_tick(now, cancelled, power),
            final(self).deep_view().wf(),
    {
        let p = self.plan(self.begun - 1);
        if now >= self.phase_start && now - self.phase_start >= p.duration {
            return Tick::PhaseOver;
        }
        if cancelled {
            self.abort = Some(String::from_str("cancelled by user"));
            return Tick::Stop;
        }
        match check_abort_conditions(power) {
            Some(reason) => {
                self.abort = Some(reason);
                Tick::Stop
            },
            None => Tick::Sample,
        }
    }

    /// Record a sample, `elapsed_ms` after the run began. `workers` are the counters of the
    /// workers of the current phase.
    pub fn record(&mut self, elapsed_ms: u64, readings: CpuTelemetryReadings, workers: &[WorkerStats])
        requires
            old(self).deep_view().wf(),
            old(self).begun > 0,
            iterations_of(workers@) <= u64::MAX,
        ensures
            final(self).deep_view() == (CpuRunView {
                samples: old(self).deep_view().samples.push(
                    sample_at(old(self).deep_view(), elapsed_ms, readings.deep_view(), workers@),
                ),
                self_check_failed: old(self).self_check_failed || any_fault(workers@),
                checked: old(self).checked || any_compared(workers@),
                ..old(self).deep_view()
            }),
            final(self).deep_view().wf(),
    {
        let (total_iterations, fault, compared) = tally(workers);
        if fault {
            self.self_check_failed = true;
        }
        if compared {
            self.checked = true;
        }
        let phase = self.plan(self.begun - 1).phase;
        let ghost before = self.samples.deep_view();
        let sample = CpuSample {
            elapsed_ms,
            phase,
            effective_clock: readings.effective_clock,
            package_power: readings.package_power,
            configured_pl1: readings.configured_pl1,
            configured_pl2: readings.configured_pl2,
            package_temperature_c: readings.package_temperature_c,
            thermal_throttling: readings.thermal_throttling,
            self_check_ok: if workers.len() == 0 || !self.checked {
                None
            } else {
                Some(!fault)
            },
            total_iterations,
        };
        let ghost added = sample.deep_view();
        self.samples.push(sample);
        assert(self.samples.deep_view() == before.push(added));
    }

    /// The result of the run.
    pub fn finish(self) -> (r: CpuStressResult)
        ensures
            r.deep_view() == (CpuStressResultView {
                samples: self.deep_view().samples,
                aborted: self.abort is Some,
                abort_reason: self.deep_view().abort,
                self_check_failed: self.self_check_failed,
            }),
    {
        CpuStressResult {
            samples: self.samples,
            aborted: self.abort.is_some(),
            abort_reason: self.abort,
            self_check_failed: self.self_check_failed,
        }
    }
}

// ---------------------------------------------------------------------------
// Laws
// ---------------------------------------------------------------------------

/// A self-check has no verdict before its first checkpoint: a run in which no block has been
/// compared, now or before, says nothing, and one in which a worker has seen a fault never
/// says that all is well.
pub proof fn no_verdict_before_the_first_checkpoint(
    run: CpuRunView,
    elapsed_ms: u64,
    readings: crate::telemetry::cpu_source::CpuTelemetryView,
    workers: Seq<WorkerStats>,
)
    ensures
        !run.checked && iterations_of(workers) == 0 && !any_fault(workers) ==> sample_at(
            run,
            elapsed_ms,
            readings,
            workers,
        ).self_check_ok is None,
        any_fault(workers) ==> sample_at(run, elapsed_ms, readings, workers).self_check_ok == Some(
            false,
        ),
        !CpuRunView::fresh(run.config, run.logical).checked,
{
    if iterations_of(workers) == 0 {
        no_iterations_at_all(workers);
    }
    if any_fault(workers) {
        let i = choose|i: int| 0 <= i < workers.len() && (#[trigger] workers[i]).fault;
        assert(has_compared(workers[i]));
    }
}

proof fn no_iterations_at_all(workers: Seq<WorkerStats>)
    requires
        iterations_of(workers) == 0,
    ensures
        forall|i: int| 0 <= i < workers.len() ==> (#[trigger] workers[i]).iterations == 0,
    decreases workers.len(),
{
    if workers.len() > 0 {
        no_iterations_at_all(workers.drop_last());
        assert forall|i: int| 0 <= i < workers.len() implies (#[trigger] workers[i]).iterations
            == 0 by {
            if i < workers.len() - 1 {
                assert(workers.drop_last()[i] == workers[i]);
            }
        }
    }
}

/// A schedule of a minute or more lasts exactly as long as was asked for; a shorter one is
/// lengthened to a minute, to keep its phases meaningful.
pub proof fn schedules_last_as_long_as_asked(total: u64)
    ensures
        total >= 60 * SECOND ==> StressConfig::of_total(total).total() == total,
        total < 60 * SECOND ==> StressConfig::of_total(total).total() == 60 * SECOND,
{
}

/// Every schedule ends with a cooldown of fifteen seconds to two minutes, and keeps at least
/// thirty seconds of sustained load.
pub proof fn schedules_keep_their_bounds(total: u64)
    ensures
        15 * SECOND <= StressConfig::of_total(total).cooldown <= 120 * SECOND,
        StressConfig::of_total(total).all_core_sustained >= 30 * SECOND,
{
}

/// The machine is loaded neither before nor after the test proper: the first and the last
/// phase have no workers, and the sustained phase loads every logical processor.
pub proof fn a_run_begins_and_ends_unloaded(config: StressConfig, logical: u32)
    ensures
        plan_of(config, logical, 0).workers == 0,
        plan_of(config, logical, 2).workers == logical,
        plan_of(config, logical, 3).workers == 0,
        plan_of(config, logical, 3).phase == Phase::Cooldown,
{
}

/// A run that nobody cancels goes through its four phases in order, and then is over.
pub proof fn an_undisturbed_run_goes_through_every_phase(
    config: StressConfig,
    logical: u32,
    t0: u64,
    t1: u64,
    t2: u64,
    t3: u64,
)
    ensures
        ({
            let r0 = CpuRunView::fresh(config, logical);
            let r1 = r0.after_next(false, t0);
            let r2 = r1.after_next(false, t1);
            let r3 = r2.after_next(false, t2);
            let r4 = r3.after_next(false, t3);
            &&& (r0.next_plan(false) matches Some(p) && p.phase == Phase::IdleBaseline)
            &&& (r1.next_plan(false) matches Some(p) && p.phase == Phase::SingleThreadBoost)
            &&& (r2.next_plan(false) matches Some(p) && p.phase == Phase::AllCoreSustained)
            &&& (r3.next_plan(false) matches Some(p) && p.phase == Phase::Cooldown)
            &&& r4.next_plan(false) is None
            &&& r4.abort is None
        }),
{
}

/// An aborted run starts no further phase, and its reason stands.
pub proof fn an_abort_is_final(run: CpuRunView, cancelled: bool, now: u64)
    requires
        run.abort is Some,
    ensures
        run.next_plan(cancelled) is None,
        run.after_next(cancelled, now) == run,
{
}

/// A cancelled run starts no phase, and says who ended it.
pub proof fn cancelling_stops_the_run(run: CpuRunView, now: u64, power: Option<PowerStatus>)
    requires
        run.abort is None,
        run.begun < 4,
    ensures
        run.next_plan(true) is None,
        run.after_next(true, now).abort == Some("cancelled by user"@),
        run.tick(now, true, power) != Tick::Sample,
        run.tick(now, true, power) == Tick::Stop ==> run.after_tick(now, true, power).abort == Some(
            "cancelled by user"@,
        ),
{
}

/// A machine on mains power, or one whose charge is not known, is never aborted for its
/// battery.
pub proof fn mains_power_never_aborts(p: PowerStatus)
    requires
        p.ac_line_status != 0 || p.battery_life_percent == 255 || p.battery_life_percent
            >= MIN_BATTERY_PERCENT_ON_DC,
    ensures
        abort_text(Some(p)) is None,
        abort_text(None) is None,
{
}

// ---------------------------------------------------------------------------
// The schedule in numbers
// ---------------------------------------------------------------------------

/// Every schedule begins with five seconds idle and ten seconds on one thread, samples four times
/// a second, and cools down for a sixth of the whole: fifteen seconds for a whole of up to a
/// minute and a half, and two minutes for one of twelve minutes or more.
pub proof fn schedules_in_numbers(total: u64)
    ensures
        ({
            let c = StressConfig::of_total(total);
            &&& c.idle_baseline == 5_000_000_000
            &&& c.single_thread_boost == 10_000_000_000
            &&& c.sample_interval == 250_000_000
            &&& total <= 90_000_000_000 ==> c.cooldown == 15_000_000_000
            &&& total >= 720_000_000_000 ==> c.cooldown == 120_000_000_000
            &&& 90_000_000_000 <= total <= 720_000_000_000 ==> 6 * c.cooldown <= total && total < 6
                * c.cooldown + 6
            &&& c.all_core_sustained >= 30_000_000_000
            &&& total >= 60_000_000_000 ==> c.idle_baseline + c.single_thread_boost
                + c.all_core_sustained + c.cooldown == total
            &&& total < 60_000_000_000 ==> c.all_core_sustained == 30_000_000_000
        }),
{
}

/// The phases of a run, by how many have begun: idle, one thread, every processor, and cooling
/// down, each for as long as the schedule says.
pub proof fn every_phase_is_as_scheduled(run: CpuRunView)
    requires
        1 <= run.begun <= 4,
    ensures
        ({
            let p = run.current();
            let c = run.config;
            &&& run.begun == 1 ==> p.phase == Phase::IdleBaseline && p.duration == c.idle_baseline
                && p.workers == 0
            &&& run.begun == 2 ==> p.phase == Phase::SingleThreadBoost && p.duration
                == c.single_thread_boost && p.workers == 1
            &&& run.begun == 3 ==> p.phase == Phase::AllCoreSustained && p.duration
                == c.all_core_sustained && p.workers == run.logical
            &&& run.begun == 4 ==> p.phase == Phase::Cooldown && p.duration == c.cooldown
                && p.workers == 0
        }),
        forall|c: StressConfig, n: u32|
            (#[trigger] CpuRunView::fresh(c, n)).logical == if n == 0 {
                1
            } else {
                n
            },
{
}

/// A run is aborted for its battery exactly where the machine is not on mains power and its charge
/// is known to be below a fifth, and the reason names the charge.
pub proof fn a_low_battery_aborts(p: PowerStatus)
    ensures
        abort_text(Some(p)) is Some <==> p.ac_line_status == 0 && p.battery_life_percent <= 19,
        abort_text(Some(p)) matches Some(text) ==> text == "battery at "@ + dec(
            p.battery_life_percent as nat,
        ) + "% on DC power — aborting before it drops further"@,
{
}

/// What a tick does: at the end of the phase the phase is over, whatever else; before that a
/// cancelled run stops and says so, a run on a low battery stops and says that, and any other
/// takes a sample and is left as it is.
pub proof fn a_tick_decides_in_order(
    run: CpuRunView,
    now: u64,
    cancelled: bool,
    power: Option<PowerStatus>,
)
    ensures
        ({
            let over = now >= run.phase_start + run.current().duration;
            let low = power matches Some(p) && p.ac_line_status == 0 && p.battery_life_percent < 20;
            let t = run.tick(now, cancelled, power);
            let after = run.after_tick(now, cancelled, power);
            &&& t == Tick::PhaseOver <==> over
            &&& t == Tick::Stop <==> !over && (cancelled || low)
            &&& t == Tick::Sample <==> !over && !cancelled && !low
            &&& t != Tick::Stop ==> after == run
            &&& t == Tick::Stop && cancelled ==> after.abort == Some("cancelled by user"@)
            &&& t == Tick::Stop && !cancelled ==> after.abort is Some && after.abort == abort_text(
                power,
            )
            &&& after.begun == run.begun && after.phase_start == run.phase_start && after.samples
                == run.samples && after.self_check_failed == run.self_check_failed && after.checked
                == run.checked && after.config == run.config && after.logical == run.logical
        }),
{
}

/// Asking for the next phase begins it now, once and only while phases are left.
pub proof fn the_next_phase_begins_now(run: CpuRunView, now: u64)
    requires
        run.abort is None,
        0 <= run.begun < 4,
    ensures
        ({
            let after = run.after_next(false, now);
            &&& after.begun == run.begun + 1
            &&& after.phase_start == now
            &&& run.next_plan(false) == Some(after.current())
            &&& after.samples == run.samples && after.abort is None && after.self_check_failed
                == run.self_check_failed && after.checked == run.checked
        }),
{
}

/// What a sample records: the time, the phase, every reading as it is, and the work of all workers
/// together.
pub proof fn a_sample_records_what_was_read(
    run: CpuRunView,
    elapsed_ms: u64,
    readings: crate::telemetry::cpu_source::CpuTelemetryView,
    workers: Seq<WorkerStats>,
)
    requires
        iterations_of(workers) <= u64::MAX,
    ensures
        ({
            let s = sample_at(run, elapsed_ms, readings, workers);
            &&& s.elapsed_ms == elapsed_ms
            &&& s.phase == run.current().phase
            &&& s.effective_clock == readings.effective_clock
            &&& s.package_power == readings.package_power
            &&& s.configured_pl1 == readings.configured_pl1
            &&& s.configured_pl2 == readings.configured_pl2
            &&& s.package_temperature_c == readings.package_temperature_c
            &&& s.thermal_throttling == readings.thermal_throttling
            &&& s.total_iterations == iterations_of(workers)
        }),
        iterations_of(Seq::empty()) == 0,
        forall|w: WorkerStats|
            #![trigger workers.push(w)]
            iterations_of(workers.push(w)) == iterations_of(workers) + w.iterations,
{
    assert forall|w: WorkerStats| #![trigger workers.push(w)] iterations_of(workers.push(w))
        == iterations_of(workers) + w.iterations by {
        assert(workers.push(w).drop_last() =~= workers);
    }
}

/// The verdict of the self-check: wrong where some worker has seen a fault, right where workers
/// run without one and a block has been compared by them or before, and none otherwise.
pub proof fn the_verdict_of_the_self_check(
    run: CpuRunView,
    elapsed_ms: u64,
    readings: crate::telemetry::cpu_source::CpuTelemetryView,
    workers: Seq<WorkerStats>,
)
    ensures
        ({
            let verdict = sample_at(run, elapsed_ms, readings, workers).self_check_ok;
            let wrong = exists|i: int| 0 <= i < workers.len() && (#[trigger] workers[i]).fault;
            let worked = exists|i: int|
                0 <= i < workers.len() && (#[trigger] workers[i]).iterations > 0;
            &&& verdict == Some(false) <==> wrong
            &&& verdict == Some(true) <==> workers.len() > 0 && !wrong && (run.checked || worked)
        }),
{
    let wrong = exists|i: int| 0 <= i < workers.len() && (#[trigger] workers[i]).fault;
    let worked = exists|i: int| 0 <= i < workers.len() && (#[trigger] workers[i]).iterations > 0;
    if wrong {
        let i = choose|i: int| 0 <= i < workers.len() && (#[trigger] workers[i]).fault;
        assert(has_compared(workers[i]));
    }
    if worked {
        let i = choose|i: int| 0 <= i < workers.len() && (#[trigger] workers[i]).iterations > 0;
        assert(has_compared(workers[i]));
    }
    if any_compared(workers) {
        let i = choose|i: int| 0 <= i < workers.len() && has_compared(#[trigger] workers[i]);
        assert(workers[i].fault || workers[i].iterations > 0);
    }
}

/// A finished run hands out every sample that it recorded, and is aborted exactly where it has a
/// reason for it.
pub proof fn a_run_ends_with_what_it_recorded(run: CpuRun, r: CpuStressResult)
    requires
        call_ensures(CpuRun::finish, (run,), r),
    ensures
        r.deep_view().samples == run.deep_view().samples,
        r.aborted <==> r.abort_reason is Some,
        r.deep_view().abort_reason == run.deep_view().abort,
        r.self_check_failed == run.self_check_failed,
{
}

/// A fresh run has its schedule, one worker at least, and nothing else: no phase, no sample, no
/// fault and no reason to stop.
pub proof fn a_fresh_run_has_only_its_schedule(config: StressConfig, logical: u32)
    ensures
        ({
            let run = CpuRunView::fresh(config, logical);
            &&& run.config == config
            &&& run.logical >= 1 && (logical > 0 ==> run.logical == logical)
            &&& logical == 0 ==> run.logical == 1
            &&& run.begun == 0 && run.phase_start == 0
            &&& run.samples.len() == 0
            &&& run.abort is None && !run.self_check_failed && !run.checked
        }),
{
}

/// A run that is over stays as it is, whatever it is asked; one that is cancelled between two
/// phases ends with that as its reason, and loses nothing that it recorded.
pub proof fn a_run_that_is_over_stays_as_it_is(run: CpuRunView, cancelled: bool, now: u64)
    ensures
        run.abort is Some || run.begun >= 4 ==> run.after_next(cancelled, now) == run
            && run.next_plan(cancelled) is None,
        run.abort is None && run.begun < 4 ==> {
            let after = run.after_next(true, now);
            &&& after.abort == Some("cancelled by user"@)
            &&& run.next_plan(true) is None
            &&& after.begun == run.begun && after.samples == run.samples
        },
{
}

} // verus!
