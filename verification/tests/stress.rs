use pc_checker::model::{Reading, Unavailable};
use pc_checker::probes::adl::Snapshot;
use pc_checker::stress::cpu_kernel::{core_mask, goes_on, WorkerStats, CHECKPOINT_ITERS};
use pc_checker::stress::gpu_kernel::{
    batch_size_for, GpuWorker, GpuWorkerStats, MAX_DISPATCHES_PER_BATCH, SELF_CHECK_INTERVAL_NANOS,
};
use pc_checker::stress::gpu_orchestrator::{
    sample_telemetry, telemetry_vendor, GpuReads, GpuRun, GpuStressConfig, NvmlReads,
    TelemetryVendor,
};
use pc_checker::stress::orchestrator::{
    check_abort_conditions, CpuRun, PowerStatus, StressConfig, Tick, SECOND,
};
use pc_checker::telemetry::cpu_source::CpuTelemetryReadings;
use pc_checker::telemetry::types::{GpuPhase, Phase};
use pc_checker::win::WinError;

const MILLI: u64 = 1_000_000;

#[test]
fn batch_size_targets_a_quarter_second_of_gpu_work() {
    assert_eq!(batch_size_for(25 * MILLI), 10);
    assert_eq!(batch_size_for(250 * MILLI), 1);
}

#[test]
fn batch_size_never_collapses_to_zero_or_runs_away() {
    assert_eq!(batch_size_for(SECOND), 1);
    assert_eq!(batch_size_for(1), MAX_DISPATCHES_PER_BATCH);
}

/// The recurrence of the stress kernel never diverges, or every run would fault on
/// bookkeeping rather than on the CPU.
#[test]
fn sequence_constants_stay_bounded_over_many_blocks() {
    let mut v = 3.0f64;
    for _ in 0..(CHECKPOINT_ITERS as u64 * 50) {
        v = v.mul_add(0.999_999_1, 1.000_000_3);
        assert!(v.is_finite(), "sequence diverged: {v}");
    }
}

#[test]
fn the_standard_schedule_lasts_twelve_minutes() {
    let c = StressConfig::standard();
    assert_eq!(c.idle_baseline, 5 * SECOND);
    assert_eq!(c.single_thread_boost, 10 * SECOND);
    assert_eq!(c.all_core_sustained, 585 * SECOND);
    assert_eq!(c.cooldown, 120 * SECOND);
    assert_eq!(c.sample_interval, 250 * MILLI);
    let total = c.idle_baseline + c.single_thread_boost + c.all_core_sustained + c.cooldown;
    assert_eq!(total, 12 * 60 * SECOND);
}

#[test]
fn short_schedules_keep_their_phases_meaningful() {
    let c = StressConfig::for_duration(0);
    assert_eq!(c.all_core_sustained, 30 * SECOND);
    assert_eq!(c.cooldown, 15 * SECOND);
    let c = StressConfig::for_duration(300 * SECOND);
    assert_eq!(c.cooldown, 50 * SECOND);
    assert_eq!(c.all_core_sustained, 235 * SECOND);
}

#[test]
fn the_gpu_schedule_is_ten_minutes_and_a_cooldown() {
    let c = GpuStressConfig::standard();
    assert_eq!(c.idle_baseline, 5 * SECOND);
    assert_eq!(c.compute_sustained, 565 * SECOND);
    assert_eq!(c.cooldown, 90 * SECOND);
    assert_eq!(c.sample_interval, 250 * MILLI);
}

fn on_battery(percent: u8) -> Option<PowerStatus> {
    Some(PowerStatus { ac_line_status: 0, battery_life_percent: percent })
}

#[test]
fn a_low_battery_aborts_only_off_mains() {
    assert_eq!(
        check_abort_conditions(on_battery(19)),
        Some("battery at 19% on DC power — aborting before it drops further".to_string())
    );
    assert_eq!(check_abort_conditions(on_battery(20)), None);
    assert_eq!(check_abort_conditions(on_battery(255)), None);
    assert_eq!(
        check_abort_conditions(Some(PowerStatus { ac_line_status: 1, battery_life_percent: 3 })),
        None
    );
    assert_eq!(check_abort_conditions(None), None);
}

fn no_readings() -> CpuTelemetryReadings {
    let reason = || Unavailable::DriverMissing("PawnIO".to_string());
    CpuTelemetryReadings {
        effective_clock: Reading::missing(reason()),
        package_power: Reading::missing(reason()),
        configured_pl1: Reading::missing(reason()),
        configured_pl2: Reading::missing(reason()),
        package_temperature_c: Reading::missing(reason()),
        thermal_throttling: Reading::missing(reason()),
    }
}

fn quick() -> StressConfig {
    StressConfig {
        idle_baseline: 150 * MILLI,
        single_thread_boost: 150 * MILLI,
        all_core_sustained: 800 * MILLI,
        cooldown: 150 * MILLI,
        sample_interval: 50 * MILLI,
    }
}

/// Drive a run with a clock that advances by one sample interval per tick.
#[test]
fn full_schedule_runs_and_degrades_cleanly_without_pawnio() {
    let config = quick();
    let mut count: usize = 0;
    let mut run = CpuRun::new(config, 6);
    let mut now: u64 = 0;
    let mut loads: Vec<(Phase, u32)> = Vec::new();
    while let Some(plan) = run.next_phase(false, now) {
        loads.push((plan.phase, plan.workers));
        let mut workers = vec![WorkerStats::default(); plan.workers as usize];
        loop {
            match run.tick(now, false, on_battery(80)) {
                Tick::PhaseOver => break,
                Tick::Stop => panic!("nothing aborts this run"),
                Tick::Sample => {}
            }
            run.record(now / MILLI, no_readings(), &workers);
            count += 1;
            for w in workers.iter_mut() {
                w.record(7, 7);
            }
            now += config.sample_interval;
        }
    }
    let result = run.finish();
    assert!(!result.aborted, "unexpected abort: {:?}", result.abort_reason);
    assert!(!result.self_check_failed, "self-check must not fail on healthy hardware");
    assert!(!result.samples.is_empty());
    assert_eq!(count, result.samples.len());
    for phase in [
        Phase::IdleBaseline,
        Phase::SingleThreadBoost,
        Phase::AllCoreSustained,
        Phase::Cooldown,
    ] {
        assert!(
            result.samples.iter().any(|s| s.phase == phase),
            "missing samples for {phase:?}"
        );
    }
    assert_eq!(
        loads,
        vec![
            (Phase::IdleBaseline, 0),
            (Phase::SingleThreadBoost, 1),
            (Phase::AllCoreSustained, 6),
            (Phase::Cooldown, 0),
        ]
    );
    assert_eq!(result.samples.len(), 3 + 3 + 16 + 3);
    let sustained_max = result
        .samples
        .iter()
        .filter(|s| s.phase == Phase::AllCoreSustained)
        .map(|s| s.total_iterations)
        .max()
        .unwrap_or(0);
    assert!(sustained_max > 0, "no work recorded during the sustained phase");
    assert_eq!(sustained_max, 15 * 6 * CHECKPOINT_ITERS as u64);
    assert_eq!(result.samples[0].self_check_ok, None);
    assert_eq!(result.samples[3].phase, Phase::SingleThreadBoost);
    assert_eq!(result.samples[3].total_iterations, 0);
    assert_eq!(result.samples[3].self_check_ok, None);
    assert_eq!(result.samples[4].self_check_ok, Some(true));
    let any_sample = &result.samples[result.samples.len() / 2];
    assert!(!any_sample.effective_clock.is_ok());
    assert!(!any_sample.package_power.is_ok());
}

#[test]
fn cancellation_stops_the_run_promptly_and_marks_it_aborted() {
    let mut run = CpuRun::new(StressConfig::standard(), 0);
    let plan = run.next_phase(false, 0).unwrap();
    assert_eq!(plan.phase, Phase::IdleBaseline);
    assert_eq!(run.tick(80 * MILLI, true, None), Tick::Stop);
    assert!(run.next_phase(false, 90 * MILLI).is_none());
    let result = run.finish();
    assert!(result.aborted);
    assert_eq!(result.abort_reason.as_deref(), Some("cancelled by user"));

    let mut early = CpuRun::new(StressConfig::standard(), 4);
    assert!(early.next_phase(true, 0).is_none());
    assert!(early.finish().aborted);
}

#[test]
fn a_draining_battery_ends_the_run() {
    let mut run = CpuRun::new(quick(), 2);
    let _ = run.next_phase(false, 0);
    assert_eq!(run.tick(0, false, on_battery(5)), Tick::Stop);
    let result = run.finish();
    assert_eq!(
        result.abort_reason.as_deref(),
        Some("battery at 5% on DC power — aborting before it drops further")
    );
}

#[test]
fn a_fault_is_remembered_for_the_whole_run() {
    let mut run = CpuRun::new(quick(), 2);
    let _ = run.next_phase(false, 0);
    let _ = run.next_phase(false, 0);
    let mut bad = WorkerStats::default();
    bad.record(1, 2);
    run.record(0, no_readings(), &[bad, WorkerStats::default()]);
    run.record(1, no_readings(), &[WorkerStats::default()]);
    let result = run.finish();
    assert!(result.self_check_failed);
    assert_eq!(result.samples[0].self_check_ok, Some(false));
    assert_eq!(result.samples[1].self_check_ok, Some(true));
}

#[test]
fn a_self_check_has_no_verdict_before_its_first_checkpoint() {
    let mut run = CpuRun::new(quick(), 2);
    let _ = run.next_phase(false, 0);
    let _ = run.next_phase(false, 0);
    let idle = WorkerStats::default();
    let mut busy = WorkerStats::default();
    busy.record(7, 7);
    run.record(0, no_readings(), &[idle]);
    run.record(1, no_readings(), &[busy]);
    let _ = run.next_phase(false, 0);
    run.record(2, no_readings(), &[idle, idle]);
    run.record(3, no_readings(), &[]);
    let result = run.finish();
    let verdicts: Vec<Option<bool>> = result.samples.iter().map(|s| s.self_check_ok).collect();
    assert_eq!(verdicts, vec![None, Some(true), Some(true), None]);
}

#[test]
fn workers_count_blocks_and_keep_their_faults() {
    let mut w = WorkerStats::default();
    w.record(5, 5);
    assert!(!w.fault);
    w.record(5, 6);
    w.record(5, 5);
    assert!(w.fault);
    assert_eq!(w.iterations, 3 * CHECKPOINT_ITERS as u64);
}

#[test]
fn workers_stop_at_their_deadline_or_when_cancelled() {
    assert!(goes_on(1, 2, false));
    assert!(!goes_on(2, 2, false));
    assert!(!goes_on(1, 2, true));
}

#[test]
fn only_the_first_64_processors_are_pinned() {
    assert_eq!(core_mask(0), Some(1));
    assert_eq!(core_mask(63), Some(1 << 63));
    assert_eq!(core_mask(64), None);
}

#[test]
fn gpu_verification_is_sampled_and_never_doubled() {
    let mut w = GpuWorker::new(11, 22, 0);
    assert!(!w.wants_capture(SELF_CHECK_INTERVAL_NANOS - 1));
    assert!(w.wants_capture(SELF_CHECK_INTERVAL_NANOS));
    assert!(w.submitted(&Ok(9), 4, true));
    assert_eq!(w.pending, Some(9));
    assert!(!w.wants_capture(10 * SELF_CHECK_INTERVAL_NANOS));
    w.verify(&Ok(11), &Ok(22), 3 * SELF_CHECK_INTERVAL_NANOS);
    assert!(!w.fault);
    assert!(!w.wants_capture(4 * SELF_CHECK_INTERVAL_NANOS - 1));
    assert_eq!(w.stats(), GpuWorkerStats { dispatches: 4, fault: false });
}

#[test]
fn gpu_faults_come_from_either_pass_and_from_lost_devices() {
    let mut compute = GpuWorker::new(11, 22, 0);
    compute.verify(&Ok(12), &Ok(22), 1);
    assert!(compute.fault);
    let mut graphics = GpuWorker::new(11, 22, 0);
    graphics.verify(&Ok(11), &Ok(23), 1);
    assert!(graphics.fault);
    let mut unreadable = GpuWorker::new(11, 22, 0);
    unreadable.verify(&Ok(11), &Err(WinError::new("Map(readback_gfx)", 1)), 1);
    assert!(unreadable.fault);
    let mut lost = GpuWorker::new(11, 22, 0);
    assert!(!lost.submitted(&Err(WinError::new("Close", 1)), 4, false));
    assert_eq!(lost.stats(), GpuWorkerStats { dispatches: 0, fault: true });
}

#[test]
fn a_gpu_schedule_loads_only_its_middle_phase() {
    let mut run = GpuRun::new(GpuStressConfig::standard());
    let mut phases: Vec<(GpuPhase, bool)> = Vec::new();
    let mut now: u64 = 0;
    while let Some(plan) = run.next_phase(false, now) {
        phases.push((plan.phase, plan.load));
        assert_eq!(run.tick(now, false, None), Tick::Sample);
        let worker = if plan.load {
            Some(GpuWorkerStats { dispatches: 8, fault: false })
        } else {
            None
        };
        run.record(1, sample_telemetry(GpuReads::Unavailable), worker);
        now += plan.duration;
        assert_eq!(run.tick(now, false, None), Tick::PhaseOver);
    }
    assert_eq!(
        phases,
        vec![
            (GpuPhase::IdleBaseline, false),
            (GpuPhase::ComputeSustained, true),
            (GpuPhase::Cooldown, false),
        ]
    );
    let result = run.finish();
    assert!(!result.aborted);
    assert_eq!(result.samples[0].self_check_ok, None);
    assert_eq!(result.samples[1].self_check_ok, Some(true));
    assert_eq!(result.samples[1].dispatches_completed, 8);
    match &result.samples[1].graphics_clock_mhz {
        Reading::Missing { note, .. } => {
            assert!(note.starts_with("vendor library missing (no vendor telemetry available"))
        }
        Reading::Value { .. } => panic!("expected missing"),
    }
}

#[test]
fn cancellation_stops_the_run_promptly() {
    let mut run = GpuRun::new(GpuStressConfig::standard());
    let _ = run.next_phase(false, 0);
    assert_eq!(run.tick(80 * MILLI, true, None), Tick::Stop);
    assert!(run.finish().aborted);

    let mut faulty = GpuRun::new(GpuStressConfig::standard());
    let _ = faulty.next_phase(false, 0);
    faulty.record(
        0,
        sample_telemetry(GpuReads::Unavailable),
        Some(GpuWorkerStats { dispatches: 0, fault: true }),
    );
    assert!(faulty.finish().self_check_failed);
}

#[test]
fn vendors_have_their_own_telemetry() {
    assert_eq!(telemetry_vendor(0x10DE), TelemetryVendor::Nvidia);
    assert_eq!(telemetry_vendor(0x1002), TelemetryVendor::Amd);
    assert_eq!(telemetry_vendor(0x8086), TelemetryVendor::Neither);
}

#[test]
fn nvidia_samples_carry_reasons_and_errors() {
    let t = sample_telemetry(GpuReads::Nvidia(NvmlReads {
        reasons: Some(0x40),
        clock: Ok(1500),
        power_mw: Ok(230_500),
        temperature: Ok(71),
        fan_percent: Err(WinError::new("nvmlDeviceGetFanSpeed failed", 3)),
    }));
    assert_eq!(t.graphics_clock_mhz.get(), Some(&1500));
    assert_eq!(t.power.get().unwrap().microwatts, 230_500_000);
    assert_eq!(t.edge_temperature_c.get(), Some(&71));
    assert!(!t.hotspot_temperature_c.is_ok());
    assert!(!t.fan_percent.is_ok());
    assert_eq!(t.hw_thermal_slowdown.get(), Some(&true));
    assert_eq!(t.sw_power_cap.get(), Some(&false));
}

#[test]
fn amd_samples_come_from_the_snapshot() {
    let t = sample_telemetry(GpuReads::Amd(Snapshot {
        values: Some(vec![(1, 2562), (8, 64), (27, 81), (14, 1400), (30, 139), (35, 4), (0, 0)]),
    }));
    assert_eq!(t.graphics_clock_mhz.get(), Some(&2562));
    assert_eq!(t.edge_temperature_c.get(), Some(&64));
    assert_eq!(t.hotspot_temperature_c.get(), Some(&81));
    assert_eq!(t.fan_rpm.get(), Some(&1400));
    assert!(!t.fan_percent.is_ok());
    assert_eq!(t.power.get().unwrap().microwatts, 139_000_000);
    assert_eq!(t.hw_thermal_slowdown.get(), Some(&true));
    assert!(!t.sw_power_cap.is_ok());
}

#[test]
fn full_schedule_runs_and_reads_real_amd_telemetry_on_this_machine() {
    let config = GpuStressConfig {
        idle_baseline: 100 * MILLI,
        compute_sustained: 2 * SECOND,
        cooldown: 100 * MILLI,
        sample_interval: 50 * MILLI,
    };
    let mut run = GpuRun::new(config);
    let mut now: u64 = 0;
    let mut count: usize = 0;
    while let Some(plan) = run.next_phase(false, now) {
        let mut dispatches: u64 = 0;
        while run.tick(now, false, None) == Tick::Sample {
            let snapshot = Snapshot { values: Some(vec![(1, 2562), (0, 0)]) };
            let worker = if plan.load {
                dispatches += 10;
                Some(GpuWorkerStats { dispatches, fault: false })
            } else {
                None
            };
            run.record(now / MILLI, sample_telemetry(GpuReads::Amd(snapshot)), worker);
            count += 1;
            now += config.sample_interval;
        }
    }
    let result = run.finish();
    assert!(!result.aborted, "unexpected abort: {:?}", result.abort_reason);
    assert!(!result.self_check_failed, "self-check must not fail on healthy hardware");
    assert!(!result.samples.is_empty());
    assert_eq!(count, result.samples.len());
    for phase in [GpuPhase::IdleBaseline, GpuPhase::ComputeSustained, GpuPhase::Cooldown] {
        assert!(result.samples.iter().any(|s| s.phase == phase), "missing samples for {phase:?}");
    }
    let sustained_max = result
        .samples
        .iter()
        .filter(|s| s.phase == GpuPhase::ComputeSustained)
        .map(|s| s.dispatches_completed)
        .max()
        .unwrap_or(0);
    assert!(sustained_max > 0, "no dispatches recorded during the sustained phase");
    let mid = &result.samples[result.samples.len() / 2];
    let clock = *mid.graphics_clock_mhz.get().expect("expected a clock reading");
    assert!(clock > 0 && clock < 5000, "implausible graphics clock: {clock} MHz");
}
