//! What holds of every report on a stress run.
use vstd::prelude::*;

use crate::analysis::laws::{all_justified, justified, ordering_keeps_justification};
use crate::analysis::order::{
    a_report_is_worst_first, count_id, counts_add_up, of_severity, ordering_keeps_ids, worst_first,
};
use crate::analysis::stress_findings::{
    base_clock_of, clock_count, clock_finding, clock_floor_findings, clock_total, cpu_findings,
    gpu_self_check_findings, gpu_stress_findings, gpu_throttle_findings, limited_count, rating_of,
    reasons_known, self_check_findings, sustained_clock, sustained_throttle,
    spec_for, spec_of, thermal_throttle_findings, thermally_limited, throttle_known, throttle_set, CpuSpecView,
    Rating,
};
use crate::model::{Confidence, FindingView, ReadingView, Severity};
use crate::probes::cpu::CpuTopologyView;
use crate::telemetry::types::{
    CpuSampleView, CpuStressResultView, GpuPhase, GpuSampleView, GpuStressResultView, Phase,
};
use crate::text::number::{dec, nearest, nearest_is_near};
use crate::text::{containing_is_standing_somewhere, contains_text, lowercase, stands_at};

verus! {

proof fn self_check_findings_are_justified(r: CpuStressResultView)
    ensures
        all_justified(self_check_findings(r)),
{
    reveal_strlit("cpu.self_check_failed");
    reveal_strlit("CPU produced an incorrect result under sustained load");
    reveal_strlit("the stress kernel's deterministic checkpoint replay did not match its own reference result");
    reveal_strlit("bit-identical results every time, since the computation is deterministic");
    reveal_strlit("a fixed FMA sequence run from the same seed must always produce the same answer on correct hardware — a mismatch is a computation error, not a threshold judgement");
    reveal_strlit("Treat this as a hardware fault, not a cooling issue. Do not buy this machine on the assumption it is stable, even if temperatures looked fine.");
}

proof fn clock_finding_is_justified(total: nat, count: nat, rating: Rating)
    requires
        rating.basis.len() > 0,
    ensures
        justified(clock_finding(total, count, rating)),
{
    reveal_strlit("averaged ");
    reveal_strlit(" MHz across the sustained all-core phase");
    reveal_strlit("cpu.sustained_below_base");
    reveal_strlit("CPU could not sustain its own rated base clock");
    reveal_strlit("at least ");
    reveal_strlit(" MHz — base clock is the manufacturer's guarantee at rated TDP");
    reveal_strlit("% below its own rated floor under sustained load points at a cooling or power-delivery fault, not normal turbo behaviour. Budget for a repaste/cleaning, or negotiate accordingly.");
    reveal_strlit("CPU held its rated base clock under sustained load");
    reveal_strlit(" MHz");
    reveal_strlit("No cooling or power-delivery concern from this check.");
}

proof fn ratings_have_a_basis(brand: Seq<char>, reported: ReadingView<u32>, spec: Option<CpuSpecView>)
    ensures
        rating_of(brand, reported, spec) matches Some(r) ==> r.basis.len() > 0,
{
    reveal_strlit("'s manufacturer-rated base clock (");
    reveal_strlit(" MHz)");
    reveal_strlit(" is not in the local spec dataset yet — compared against CPUID's own reported base clock (");
    reveal_strlit(" MHz) instead of a verified manufacturer figure");
}

proof fn thermal_throttle_findings_are_justified(r: CpuStressResultView)
    ensures
        all_justified(thermal_throttle_findings(r)),
{
    reveal_strlit("cpu.thermal_throttling_observed");
    reveal_strlit("CPU package reported thermal throttling during the sustained phase");
    reveal_strlit("thermal-throttle bit set on ");
    reveal_strlit("% of sustained-phase samples");
    reveal_strlit("the bit clear for the great majority of a sustained run");
    reveal_strlit("Intel package thermal status register (MSR 0x1B1) — reported by the silicon itself, not inferred from a temperature threshold");
    reveal_strlit("This is the CPU's own hardware confirming it is thermally limited. Cooling service is warranted before relying on sustained performance.");
}

proof fn gpu_self_check_findings_are_justified(r: GpuStressResultView)
    ensures
        all_justified(gpu_self_check_findings(r)),
{
    reveal_strlit("gpu.self_check_failed");
    reveal_strlit("GPU produced an incorrect result under sustained load");
    reveal_strlit("the compute kernel's checkpoint readback did not match its own reference result");
    reveal_strlit("bit-identical results every time — the shader and input are fixed and deterministic");
    reveal_strlit("the checked buffer is written, computed on, and read back through VRAM every checkpoint, so this catches both a compute-unit fault and VRAM corruption");
    reveal_strlit("Treat this as a hardware fault. This is the same failure signature a degraded-memory ex-mining GPU produces — do not buy on the assumption this GPU is reliable.");
}

proof fn gpu_throttle_findings_are_justified(r: GpuStressResultView)
    ensures
        all_justified(gpu_throttle_findings(r)),
{
    reveal_strlit("gpu.throttling_observed");
    reveal_strlit("GPU reported ");
    reveal_strlit("thermal limiting");
    reveal_strlit("power-cap limiting");
    reveal_strlit(" during the sustained phase");
    reveal_strlit("a throttle-reason bit was set on ");
    reveal_strlit("% of sustained-phase samples");
    reveal_strlit("throttle reasons clear for the great majority of a sustained run");
    reveal_strlit("NVIDIA's own nvmlDeviceGetCurrentClocksEventReasons bitmask — the driver naming the exact cause, not an inferred threshold");
    reveal_strlit("This is the GPU's own driver confirming it is limited during sustained load. If thermal, cooling service is warranted; if power-cap, this may simply be the card's configured limit rather than a defect — check against the model's rated behaviour.");
}

/// Every finding on a CPU stress run can justify itself.
pub proof fn cpu_stress_findings_justify_themselves(
    r: CpuStressResultView,
    topology: CpuTopologyView,
    spec: Option<CpuSpecView>,
)
    ensures
        all_justified(worst_first(cpu_findings(r, topology, spec))),
{
    self_check_findings_are_justified(r);
    thermal_throttle_findings_are_justified(r);
    if let Some(brand) = topology.brand_string.get() {
        ratings_have_a_basis(brand, topology.base_clock_mhz, spec);
        if let Some(rating) = rating_of(brand, topology.base_clock_mhz, spec) {
            clock_finding_is_justified(
                crate::analysis::stress_findings::clock_total(r.samples),
                clock_count(r.samples),
                rating,
            );
        }
    }
    assert(all_justified(clock_floor_findings(r, topology, spec)));
    ordering_keeps_justification(cpu_findings(r, topology, spec));
}

/// Every finding on a GPU stress run can justify itself.
pub proof fn gpu_stress_findings_justify_themselves(r: GpuStressResultView)
    ensures
        all_justified(worst_first(gpu_stress_findings(r))),
{
    gpu_self_check_findings_are_justified(r);
    gpu_throttle_findings_are_justified(r);
    ordering_keeps_justification(gpu_stress_findings(r));
}

proof fn a_critical_finding_leads(s: Seq<FindingView>)
    requires
        s.len() > 0,
        s[0].severity == Severity::Critical,
    ensures
        worst_first(s).len() > 0,
        worst_first(s)[0] == s[0],
{
    assert(of_severity(s, Severity::Critical)[0] == s[0]);
}

/// A CPU that computed something wrong is always critical, and that finding leads the report.
pub proof fn a_failed_cpu_self_check_leads_the_report(
    r: CpuStressResultView,
    topology: CpuTopologyView,
    spec: Option<CpuSpecView>,
)
    requires
        r.self_check_failed,
    ensures
        ({
            let report = worst_first(cpu_findings(r, topology, spec));
            &&& report.len() > 0
            &&& report[0].severity == Severity::Critical
            &&& report[0].id == "cpu.self_check_failed"@
        }),
{
    let s = cpu_findings(r, topology, spec);
    assert(s[0] == self_check_findings(r)[0]);
    a_critical_finding_leads(s);
}

/// A GPU that computed something wrong is always critical, and that finding leads the report.
pub proof fn a_failed_gpu_self_check_leads_the_report(r: GpuStressResultView)
    requires
        r.self_check_failed,
    ensures
        ({
            let report = worst_first(gpu_stress_findings(r));
            &&& report.len() > 0
            &&& report[0].severity == Severity::Critical
            &&& report[0].id == "gpu.self_check_failed"@
        }),
{
    let s = gpu_stress_findings(r);
    assert(s[0] == gpu_self_check_findings(r)[0]);
    a_critical_finding_leads(s);
}

proof fn no_clock_counts_nothing(samples: Seq<CpuSampleView>)
    requires
        forall|i: int| 0 <= i < samples.len() ==> sustained_clock(#[trigger] samples[i]) is None,
    ensures
        clock_count(samples) == 0,
    decreases samples.len(),
{
    if samples.len() > 0 {
        no_clock_counts_nothing(samples.drop_last());
    }
}

proof fn no_throttle_bit_counts_nothing(samples: Seq<CpuSampleView>)
    requires
        forall|i: int| 0 <= i < samples.len() ==> sustained_throttle(#[trigger] samples[i]) is None,
    ensures
        throttle_known(samples) == 0,
    decreases samples.len(),
{
    if samples.len() > 0 {
        no_throttle_bit_counts_nothing(samples.drop_last());
    }
}

/// A run without telemetry raises no finding at all, unless the machine computed something
/// wrong: a scan limitation is not a defect.
pub proof fn missing_telemetry_is_not_a_defect(
    r: CpuStressResultView,
    topology: CpuTopologyView,
    spec: Option<CpuSpecView>,
)
    requires
        forall|i: int| 0 <= i < r.samples.len() ==> sustained_clock(#[trigger] r.samples[i]) is None,
        forall|i: int|
            0 <= i < r.samples.len() ==> sustained_throttle(#[trigger] r.samples[i]) is None,
        !r.self_check_failed,
    ensures
        cpu_findings(r, topology, spec).len() == 0,
{
    no_clock_counts_nothing(r.samples);
    no_throttle_bit_counts_nothing(r.samples);
}

/// A part that nothing is known of raises no clock finding, whatever it measured.
pub proof fn an_unrated_part_is_not_judged_by_its_clock(
    r: CpuStressResultView,
    topology: CpuTopologyView,
)
    requires
        topology.base_clock_mhz.get() is None,
    ensures
        clock_floor_findings(r, topology, None).len() == 0,
{
}

/// A part whose sustained average reaches its base clock is reported as holding it, not
/// passed over.
pub proof fn holding_the_base_clock_is_reported(
    r: CpuStressResultView,
    topology: CpuTopologyView,
    spec: CpuSpecView,
)
    requires
        clock_count(r.samples) > 0,
        topology.brand_string.get() is Some,
        crate::analysis::stress_findings::clock_total(r.samples) >= spec.base_clock_mhz * 1_000_000
            * clock_count(r.samples),
    ensures
        clock_floor_findings(r, topology, Some(spec)).len() == 1,
        clock_floor_findings(r, topology, Some(spec))[0].severity == Severity::Fine,
{
    let base = spec.base_clock_mhz;
    let n = clock_count(r.samples);
    assert(base * 950_000 * n <= base * 1_000_000 * n) by (nonlinear_arith)
        requires
            base >= 0,
            n >= 0,
    ;
}

/// Isolated throttle ticks are not flagged: it takes a tenth of the sustained samples.
pub proof fn brief_throttle_ticks_are_not_flagged(r: CpuStressResultView)
    requires
        10 * throttle_set(r.samples) < throttle_known(r.samples),
    ensures
        thermal_throttle_findings(r).len() == 0,
{
}

/// A report on a stress run is ordered worst first.
pub proof fn stress_reports_are_worst_first(
    r: CpuStressResultView,
    topology: CpuTopologyView,
    spec: Option<CpuSpecView>,
    g: GpuStressResultView,
)
    ensures
        crate::analysis::order::is_worst_first(worst_first(cpu_findings(r, topology, spec))),
        crate::analysis::order::is_worst_first(worst_first(gpu_stress_findings(g))),
{
    a_report_is_worst_first(cpu_findings(r, topology, spec));
    a_report_is_worst_first(gpu_stress_findings(g));
}

// ---------------------------------------------------------------------------
// What a run has to be blamed for
// ---------------------------------------------------------------------------

/// The report holds one finding with this id, of this severity and with this confidence.
pub open spec fn says_once(
    report: Seq<FindingView>,
    id: Seq<char>,
    severity: Severity,
    confidence: Confidence,
) -> bool {
    &&& count_id(report, id) == 1
    &&& exists|i: int|
        0 <= i < report.len() && (#[trigger] report[i]).id == id && report[i].severity == severity
            && report[i].confidence == confidence
}

/// The report says this of the finding with an id.
pub open spec fn observes(report: Seq<FindingView>, id: Seq<char>, observed: Seq<char>) -> bool {
    exists|i: int|
        0 <= i < report.len() && (#[trigger] report[i]).id == id && report[i].observed == observed
}

/// A whole percentage is the share of `part` in `whole`, to the nearest percent.
pub open spec fn is_percentage(p: nat, part: nat, whole: nat) -> bool {
    -(whole as int) <= 2 * (p * whole - 100 * part) <= whole
}

/// A sample of the all-core phase whose throttle bit was read.
pub open spec fn bit_read() -> spec_fn(CpuSampleView) -> bool {
    |s: CpuSampleView| s.phase == Phase::AllCoreSustained && s.thermal_throttling.get() is Some
}

/// A sample of the all-core phase whose throttle bit was read as set.
pub open spec fn bit_set() -> spec_fn(CpuSampleView) -> bool {
    |s: CpuSampleView|
        s.phase == Phase::AllCoreSustained && s.thermal_throttling.get() == Some(true)
}

proof fn throttle_counts(samples: Seq<CpuSampleView>)
    ensures
        throttle_known(samples) == samples.filter(bit_read()).len(),
        throttle_set(samples) == samples.filter(bit_set()).len(),
        throttle_set(samples) <= throttle_known(samples),
    decreases samples.len(),
{
    reveal(Seq::filter);
    if samples.len() > 0 {
        throttle_counts(samples.drop_last());
    }
}

proof fn cpu_ids_differ()
    ensures
        "cpu.self_check_failed"@ != "cpu.sustained_below_base"@,
        "cpu.self_check_failed"@ != "cpu.thermal_throttling_observed"@,
        "cpu.sustained_below_base"@ != "cpu.thermal_throttling_observed"@,
{
    reveal_strlit("cpu.self_check_failed");
    reveal_strlit("cpu.sustained_below_base");
    reveal_strlit("cpu.thermal_throttling_observed");
    assert("cpu.self_check_failed"@.len() == 21);
    assert("cpu.sustained_below_base"@.len() == 24);
    assert("cpu.thermal_throttling_observed"@.len() == 31);
}

proof fn count_of_one(s: Seq<FindingView>, id: Seq<char>)
    requires
        s.len() == 1,
    ensures
        count_id(s, id) == if s[0].id == id {
            1nat
        } else {
            0
        },
{
    assert(s.drop_first() =~= Seq::<FindingView>::empty());
    assert(count_id(s.drop_first(), id) == 0);
}

/// How often each id occurs in the findings on a CPU run.
proof fn cpu_id_counts(
    r: CpuStressResultView,
    topology: CpuTopologyView,
    spec: Option<CpuSpecView>,
    id: Seq<char>,
)
    ensures
        count_id(worst_first(cpu_findings(r, topology, spec)), id) == count_id(
            self_check_findings(r),
            id,
        ) + count_id(clock_floor_findings(r, topology, spec), id) + count_id(
            thermal_throttle_findings(r),
            id,
        ),
{
    let a = self_check_findings(r);
    let b = clock_floor_findings(r, topology, spec);
    let c = thermal_throttle_findings(r);
    counts_add_up(a + b, c, id);
    counts_add_up(a, b, id);
    ordering_keeps_ids(cpu_findings(r, topology, spec), id, arbitrary());
    if a.len() == 1 {
        count_of_one(a, id);
    }
    if b.len() == 1 {
        count_of_one(b, id);
    }
    if c.len() == 1 {
        count_of_one(c, id);
    }
}

/// A CPU whose silicon reported throttling on at least a tenth of the all-core samples with a
/// known bit is reported for it, exactly once and as a problem, with the percentage; on fewer,
/// or where no bit is known, it is not.
pub proof fn sustained_throttling_is_reported(
    r: CpuStressResultView,
    topology: CpuTopologyView,
    spec: Option<CpuSpecView>,
)
    ensures
        ({
            let known = r.samples.filter(bit_read()).len();
            let set = r.samples.filter(bit_set()).len();
            let report = worst_first(cpu_findings(r, topology, spec));
            let id = "cpu.thermal_throttling_observed"@;
            if known > 0 && 10 * set >= known {
                &&& says_once(report, id, Severity::Problem, Confidence::SpecGrounded)
                &&& exists|p: nat|
                    #[trigger] is_percentage(p, set, known) && observes(
                        report,
                        id,
                        "thermal-throttle bit set on "@ + dec(p) + "% of sustained-phase samples"@,
                    )
            } else {
                count_id(report, id) == 0
            }
        }),
{
    let id = "cpu.thermal_throttling_observed"@;
    let all = cpu_findings(r, topology, spec);
    let found = thermal_throttle_findings(r);
    let report = worst_first(all);
    let known = throttle_known(r.samples);
    let set = throttle_set(r.samples);
    throttle_counts(r.samples);
    cpu_ids_differ();
    cpu_id_counts(r, topology, spec, id);
    let checks = self_check_findings(r);
    let clocks = clock_floor_findings(r, topology, spec);
    if checks.len() == 1 {
        count_of_one(checks, id);
    }
    if clocks.len() == 1 {
        count_of_one(clocks, id);
    }
    if known > 0 && 10 * set >= known {
        count_of_one(found, id);
        let f = found[0];
        assert(all[all.len() - 1] == f);
        assert(all.contains(f));
        ordering_keeps_ids(all, id, f);
        let i = choose|i: int| 0 <= i < report.len() && report[i] == f;
        assert(report[i].id == id);
        let p = nearest(100 * set, known);
        nearest_is_near(100 * set, known);
        assert(is_percentage(p, set, known));
    }
}

/// A CPU run raises a finding on its self-check exactly when a checkpoint did not match: one,
/// and a critical one.
pub proof fn a_wrong_result_is_reported_once(
    r: CpuStressResultView,
    topology: CpuTopologyView,
    spec: Option<CpuSpecView>,
)
    ensures
        ({
            let report = worst_first(cpu_findings(r, topology, spec));
            let id = "cpu.self_check_failed"@;
            if r.self_check_failed {
                says_once(report, id, Severity::Critical, Confidence::SpecGrounded)
            } else {
                count_id(report, id) == 0
            }
        }),
{
    let id = "cpu.self_check_failed"@;
    cpu_ids_differ();
    cpu_id_counts(r, topology, spec, id);
    let clocks = clock_floor_findings(r, topology, spec);
    let hot = thermal_throttle_findings(r);
    if clocks.len() == 1 {
        count_of_one(clocks, id);
    }
    if hot.len() == 1 {
        count_of_one(hot, id);
    }
    let all = cpu_findings(r, topology, spec);
    if r.self_check_failed {
        count_of_one(self_check_findings(r), id);
        let f = all[0];
        assert(f == self_check_findings(r)[0]);
        assert(all.contains(f));
        ordering_keeps_ids(all, id, f);
        let report = worst_first(all);
        let i = choose|i: int| 0 <= i < report.len() && report[i] == f;
        assert(report[i].id == id);
    }
}

proof fn clocks_between(samples: Seq<CpuSampleView>, low: int, high: int)
    requires
        forall|i: int|
            0 <= i < samples.len() && (#[trigger] samples[i]).phase == Phase::AllCoreSustained ==> (
            samples[i].effective_clock.get() matches Some(f) ==> low <= f.hertz <= high),
    ensures
        low * clock_count(samples) <= clock_total(samples) <= high * clock_count(samples),
        clock_count(samples) > 0 <==> exists|i: int|
            0 <= i < samples.len() && (#[trigger] samples[i]).phase == Phase::AllCoreSustained
                && samples[i].effective_clock.get() is Some,
    decreases samples.len(),
{
    if samples.len() > 0 {
        let head = samples.drop_last();
        assert forall|i: int|
            0 <= i < head.len() && (#[trigger] head[i]).phase == Phase::AllCoreSustained implies (
        head[i].effective_clock.get() matches Some(f) ==> low <= f.hertz <= high) by {
            assert(head[i] == samples[i]);
        }
        clocks_between(head, low, high);
        let n = clock_count(head) as int;
        assert(low * (n + 1) == low * n + low) by (nonlinear_arith);
        assert(high * (n + 1) == high * n + high) by (nonlinear_arith);
        let last = samples[samples.len() - 1];
        if clock_count(samples) > 0 {
            if sustained_clock(samples.last()) is Some {
                assert(last.phase == Phase::AllCoreSustained && last.effective_clock.get() is Some);
            } else {
                let i = choose|i: int|
                    0 <= i < head.len() && (#[trigger] head[i]).phase == Phase::AllCoreSustained
                        && head[i].effective_clock.get() is Some;
                assert(samples[i] == head[i]);
            }
        }
        if exists|i: int|
            0 <= i < samples.len() && (#[trigger] samples[i]).phase == Phase::AllCoreSustained
                && samples[i].effective_clock.get() is Some {
            let i = choose|i: int|
                0 <= i < samples.len() && (#[trigger] samples[i]).phase == Phase::AllCoreSustained
                    && samples[i].effective_clock.get() is Some;
            if i < head.len() {
                assert(head[i] == samples[i]);
            }
        }
    } else {
        assert(low * 0 == 0 && high * 0 == 0) by (nonlinear_arith);
    }
}

/// Some clock of the all-core phase was measured.
pub open spec fn some_clock(samples: Seq<CpuSampleView>) -> bool {
    exists|i: int|
        0 <= i < samples.len() && (#[trigger] samples[i]).phase == Phase::AllCoreSustained
            && samples[i].effective_clock.get() is Some
}

/// Every clock that was measured in the all-core phase lies between two frequencies, in hertz.
pub open spec fn all_clocks_between(samples: Seq<CpuSampleView>, low: int, high: int) -> bool {
    forall|i: int|
        0 <= i < samples.len() && (#[trigger] samples[i]).phase == Phase::AllCoreSustained ==> (
        samples[i].effective_clock.get() matches Some(f) ==> low <= f.hertz <= high)
}

/// Whether a part is judged by its clock at all: only where a clock of the all-core phase was
/// measured, the part has a name, and there is a figure to hold it to. A part in the table is
/// held to the table's figure, with full confidence; another to its own, as a heuristic.
pub proof fn a_clock_is_judged_where_there_is_a_figure(
    r: CpuStressResultView,
    topology: CpuTopologyView,
    spec: Option<CpuSpecView>,
)
    ensures
        ({
            let report = worst_first(cpu_findings(r, topology, spec));
            let id = "cpu.sustained_below_base"@;
            if some_clock(r.samples) && topology.brand_string.get() is Some && (spec is Some
                || topology.base_clock_mhz.get() is Some) {
                let confidence = if spec is Some {
                    Confidence::SpecGrounded
                } else {
                    Confidence::Heuristic
                };
                says_once(report, id, Severity::Problem, confidence) || says_once(
                    report,
                    id,
                    Severity::Fine,
                    confidence,
                )
            } else {
                count_id(report, id) == 0
            }
        }),
{
    let id = "cpu.sustained_below_base"@;
    clocks_between(r.samples, 0, u64::MAX as int);
    cpu_ids_differ();
    cpu_id_counts(r, topology, spec, id);
    let checks = self_check_findings(r);
    let hot = thermal_throttle_findings(r);
    if checks.len() == 1 {
        count_of_one(checks, id);
    }
    if hot.len() == 1 {
        count_of_one(hot, id);
    }
    let all = cpu_findings(r, topology, spec);
    let clocks = clock_floor_findings(r, topology, spec);
    if clocks.len() == 1 {
        count_of_one(clocks, id);
        let f = clocks[0];
        assert(all[checks.len() as int] == f);
        assert(all.contains(f));
        ordering_keeps_ids(all, id, f);
        let report = worst_first(all);
        let i = choose|i: int| 0 <= i < report.len() && report[i] == f;
        assert(report[i].id == id);
    }
}

/// The verdict on a part whose all-core clocks all lie between `low` and `high` hertz, and that
/// is held to a base clock: a problem where even the highest is more than five percent below
/// the base clock, fine where even the lowest is not; and the average that is shown lies between
/// the two, to the megahertz.
pub proof fn the_clock_verdict_follows_the_clocks(
    r: CpuStressResultView,
    topology: CpuTopologyView,
    spec: Option<CpuSpecView>,
    base_mhz: u32,
    low: int,
    high: int,
)
    requires
        some_clock(r.samples),
        topology.brand_string.get() is Some,
        spec matches Some(s) ==> s.base_clock_mhz == base_mhz,
        spec is None ==> topology.base_clock_mhz.get() == Some(base_mhz),
        0 <= low <= high,
        all_clocks_between(r.samples, low, high),
    ensures
        ({
            let report = worst_first(cpu_findings(r, topology, spec));
            let id = "cpu.sustained_below_base"@;
            let confidence = if spec is Some {
                Confidence::SpecGrounded
            } else {
                Confidence::Heuristic
            };
            &&& 100 * high < 95 * (base_mhz * 1_000_000) ==> says_once(
                report,
                id,
                Severity::Problem,
                confidence,
            )
            &&& 100 * low >= 95 * (base_mhz * 1_000_000) ==> says_once(
                report,
                id,
                Severity::Fine,
                confidence,
            )
            &&& exists|m: nat|
                2 * low - 1_000_000 <= 2_000_000 * m <= 2 * high + 1_000_000 && #[trigger] observes(
                    report,
                    id,
                    "averaged "@ + dec(m) + " MHz across the sustained all-core phase"@,
                )
        }),
{
    let id = "cpu.sustained_below_base"@;
    clocks_between(r.samples, low, high);
    a_clock_is_judged_where_there_is_a_figure(r, topology, spec);
    let n = clock_count(r.samples) as int;
    let total = clock_total(r.samples) as int;
    let b = base_mhz as int;
    assert(100 * high < 95 * (b * 1_000_000) ==> high * n < b * 950_000 * n) by (nonlinear_arith)
        requires
            n > 0,
    ;
    assert(100 * low >= 95 * (b * 1_000_000) ==> low * n >= b * 950_000 * n) by (nonlinear_arith)
        requires
            n > 0,
    ;
    let m = nearest(total as nat, (n * 1_000_000) as nat);
    nearest_is_near(total as nat, (n * 1_000_000) as nat);
    assert(2 * low - 1_000_000 <= 2_000_000 * m <= 2 * high + 1_000_000) by (nonlinear_arith)
        requires
            n > 0,
            low * n <= total <= high * n,
            -(n * 1_000_000) <= 2 * (m * (n * 1_000_000) - total) <= n * 1_000_000,
    ;
    let all = cpu_findings(r, topology, spec);
    let checks = self_check_findings(r);
    let f = clock_floor_findings(r, topology, spec)[0];
    assert(all[checks.len() as int] == f);
    assert(all.contains(f));
    ordering_keeps_ids(all, id, f);
    let report = worst_first(all);
    let i = choose|i: int| 0 <= i < report.len() && report[i] == f;
    assert(report[i].id == id);
    assert(observes(
        report,
        id,
        "averaged "@ + dec(m) + " MHz across the sustained all-core phase"@,
    ));
}

// ---------------------------------------------------------------------------
// GPU
// ---------------------------------------------------------------------------

/// A sample of the loaded phase whose throttle reasons were read.
pub open spec fn reasons_read() -> spec_fn(GpuSampleView) -> bool {
    |s: GpuSampleView|
        s.phase == GpuPhase::ComputeSustained && s.sw_thermal_slowdown.get() is Some
}

/// A sample of the loaded phase on which the driver named one of the four reasons.
pub open spec fn some_reason() -> spec_fn(GpuSampleView) -> bool {
    |s: GpuSampleView|
        s.phase == GpuPhase::ComputeSustained && (s.sw_thermal_slowdown.get() == Some(true)
            || s.hw_thermal_slowdown.get() == Some(true) || s.sw_power_cap.get() == Some(true)
            || s.hw_power_brake.get() == Some(true))
}

/// A sample of the loaded phase with a software thermal slowdown.
pub open spec fn sw_thermal() -> spec_fn(GpuSampleView) -> bool {
    |s: GpuSampleView|
        s.phase == GpuPhase::ComputeSustained && s.sw_thermal_slowdown.get() == Some(true)
}

/// A sample of the loaded phase with a hardware thermal slowdown.
pub open spec fn hw_thermal() -> spec_fn(GpuSampleView) -> bool {
    |s: GpuSampleView|
        s.phase == GpuPhase::ComputeSustained && s.hw_thermal_slowdown.get() == Some(true)
}

/// A sample of the loaded phase at a software power cap.
pub open spec fn power_cap() -> spec_fn(GpuSampleView) -> bool {
    |s: GpuSampleView|
        s.phase == GpuPhase::ComputeSustained && s.sw_power_cap.get() == Some(true)
}

/// A sample of the loaded phase under the hardware's power brake.
pub open spec fn power_brake() -> spec_fn(GpuSampleView) -> bool {
    |s: GpuSampleView|
        s.phase == GpuPhase::ComputeSustained && s.hw_power_brake.get() == Some(true)
}

proof fn limit_counts(samples: Seq<GpuSampleView>)
    ensures
        reasons_known(samples) == samples.filter(reasons_read()).len(),
        limited_count(samples) == samples.filter(some_reason()).len(),
        samples.filter(sw_thermal()).len() <= limited_count(samples),
        samples.filter(hw_thermal()).len() <= limited_count(samples),
        samples.filter(power_cap()).len() <= limited_count(samples),
        samples.filter(power_brake()).len() <= limited_count(samples),
        thermally_limited(samples) <==> samples.filter(hw_thermal()).len() > 0,
    decreases samples.len(),
{
    reveal(Seq::filter);
    if samples.len() > 0 {
        let head = samples.drop_last();
        limit_counts(head);
        if thermally_limited(samples) {
            let i = choose|i: int|
                0 <= i < samples.len() && crate::analysis::stress_findings::sustained(
                    #[trigger] samples[i],
                ) && samples[i].hw_thermal_slowdown.get() == Some(true);
            if i < head.len() {
                assert(head[i] == samples[i]);
                assert(thermally_limited(head));
            }
        }
        if thermally_limited(head) {
            let i = choose|i: int|
                0 <= i < head.len() && crate::analysis::stress_findings::sustained(
                    #[trigger] head[i],
                ) && head[i].hw_thermal_slowdown.get() == Some(true);
            assert(samples[i] == head[i]);
        }
        let last = samples[samples.len() - 1];
        assert(last == samples.last());
        if last.phase == GpuPhase::ComputeSustained && last.hw_thermal_slowdown.get() == Some(true) {
            assert(crate::analysis::stress_findings::sustained(last));
            assert(thermally_limited(samples));
        }
    }
}

proof fn gpu_ids_differ()
    ensures
        "gpu.self_check_failed"@ != "gpu.throttling_observed"@,
{
    reveal_strlit("gpu.self_check_failed");
    reveal_strlit("gpu.throttling_observed");
    assert("gpu.self_check_failed"@.len() == 21);
    assert("gpu.throttling_observed"@.len() == 23);
}

/// A GPU whose driver named a reason for limiting the clocks, any of the four, on at least a
/// tenth as many loaded samples as have their reasons known, is reported for it: once, as a
/// problem, with the percentage, and as thermal where the hardware's own protection was among
/// the reasons. Otherwise it is not.
pub proof fn driver_reported_limits_are_reported(r: GpuStressResultView)
    ensures
        ({
            let known = r.samples.filter(reasons_read()).len();
            let hit = r.samples.filter(some_reason()).len();
            let report = worst_first(gpu_stress_findings(r));
            let id = "gpu.throttling_observed"@;
            if known > 0 && 10 * hit >= known {
                &&& says_once(report, id, Severity::Problem, Confidence::SpecGrounded)
                &&& exists|p: nat|
                    #[trigger] is_percentage(p, hit, known) && observes(
                        report,
                        id,
                        "a throttle-reason bit was set on "@ + dec(p)
                            + "% of sustained-phase samples"@,
                    )
                &&& exists|i: int|
                    0 <= i < report.len() && (#[trigger] report[i]).id == id && report[i].title
                        == "GPU reported "@ + (if r.samples.filter(hw_thermal()).len() > 0 {
                        "thermal limiting"@
                    } else {
                        "power-cap limiting"@
                    }) + " during the sustained phase"@
            } else {
                count_id(report, id) == 0
            }
        }),
{
    let id = "gpu.throttling_observed"@;
    limit_counts(r.samples);
    gpu_ids_differ();
    let checks = gpu_self_check_findings(r);
    let found = gpu_throttle_findings(r);
    let all = gpu_stress_findings(r);
    let report = worst_first(all);
    counts_add_up(checks, found, id);
    ordering_keeps_ids(all, id, arbitrary());
    if checks.len() == 1 {
        count_of_one(checks, id);
    }
    let known = reasons_known(r.samples);
    let hit = limited_count(r.samples);
    if known > 0 && 10 * hit >= known {
        count_of_one(found, id);
        let f = found[0];
        assert(all[all.len() - 1] == f);
        assert(all.contains(f));
        ordering_keeps_ids(all, id, f);
        let i = choose|i: int| 0 <= i < report.len() && report[i] == f;
        assert(report[i].id == id);
        nearest_is_near(100 * hit, known);
        assert(is_percentage(nearest(100 * hit, known), hit, known));
    }
}

/// Each of the four reasons suffices on its own: one that is set on at least a tenth as many
/// loaded samples as have their reasons known makes the report a problem.
pub proof fn every_reason_counts_on_its_own(r: GpuStressResultView)
    requires
        r.samples.filter(reasons_read()).len() > 0,
        ({
            let known = r.samples.filter(reasons_read()).len();
            ||| 10 * r.samples.filter(sw_thermal()).len() >= known
            ||| 10 * r.samples.filter(hw_thermal()).len() >= known
            ||| 10 * r.samples.filter(power_cap()).len() >= known
            ||| 10 * r.samples.filter(power_brake()).len() >= known
        }),
    ensures
        says_once(
            worst_first(gpu_stress_findings(r)),
            "gpu.throttling_observed"@,
            Severity::Problem,
            Confidence::SpecGrounded,
        ),
{
    limit_counts(r.samples);
    driver_reported_limits_are_reported(r);
}

/// A GPU run raises a finding on its self-check exactly when a readback did not match: one, and
/// a critical one.
pub proof fn a_wrong_readback_is_reported_once(r: GpuStressResultView)
    ensures
        ({
            let report = worst_first(gpu_stress_findings(r));
            let id = "gpu.self_check_failed"@;
            if r.self_check_failed {
                says_once(report, id, Severity::Critical, Confidence::SpecGrounded)
            } else {
                count_id(report, id) == 0
            }
        }),
{
    let id = "gpu.self_check_failed"@;
    gpu_ids_differ();
    let checks = gpu_self_check_findings(r);
    let found = gpu_throttle_findings(r);
    let all = gpu_stress_findings(r);
    counts_add_up(checks, found, id);
    ordering_keeps_ids(all, id, arbitrary());
    if found.len() == 1 {
        count_of_one(found, id);
    }
    if r.self_check_failed {
        count_of_one(checks, id);
        let f = all[0];
        assert(f == checks[0]);
        assert(all.contains(f));
        ordering_keeps_ids(all, id, f);
        let report = worst_first(all);
        let i = choose|i: int| 0 <= i < report.len() && report[i] == f;
        assert(report[i].id == id);
    }
}

// ---------------------------------------------------------------------------
// The averaged clock
// ---------------------------------------------------------------------------

/// A sample of the all-core phase whose clock was measured.
pub open spec fn clock_measured() -> spec_fn(CpuSampleView) -> bool {
    |s: CpuSampleView| s.phase == Phase::AllCoreSustained && s.effective_clock.get() is Some
}

/// The clocks of these samples together, in hertz.
pub open spec fn hertz_together(samples: Seq<CpuSampleView>) -> int
    decreases samples.len(),
{
    if samples.len() == 0 {
        0
    } else {
        hertz_together(samples.drop_last()) + (match samples.last().effective_clock.get() {
            Some(f) => f.hertz as int,
            None => 0,
        })
    }
}

proof fn clocks_add_up(samples: Seq<CpuSampleView>)
    ensures
        clock_count(samples) == samples.filter(clock_measured()).len(),
        clock_total(samples) == hertz_together(samples.filter(clock_measured())),
    decreases samples.len(),
{
    reveal(Seq::filter);
    if samples.len() > 0 {
        clocks_add_up(samples.drop_last());
        let kept = samples.drop_last().filter(clock_measured());
        let last = samples.last();
        if clock_measured()(last) {
            assert(kept.push(last).drop_last() =~= kept);
        }
    }
}

/// The number of megahertz that is nearest to the average of `n` clocks.
pub open spec fn is_average_clock(mhz: nat, hertz: int, n: int) -> bool {
    -(1_000_000 * n) <= 2 * (1_000_000 * n * mhz - hertz) <= 1_000_000 * n
}

/// The number of percent that is nearest to how far `hertz` is below `whole`.
pub open spec fn is_shortfall(percent: nat, hertz: int, whole: int) -> bool {
    -whole <= 2 * (percent * whole - 100 * (whole - hertz)) <= whole
}

/// A finding judges the average of `n` clocks, `hertz` together, against a base clock: a problem
/// where it is more than five percent below, and fine otherwise.
pub open spec fn judges_clock(
    f: FindingView,
    hertz: int,
    n: int,
    base_mhz: u32,
    spec: Option<CpuSpecView>,
    brand: Seq<char>,
) -> bool {
    let whole = base_mhz * 1_000_000 * n;
    &&& exists|m: nat|
        #[trigger] is_average_clock(m, hertz, n) && f.observed == "averaged "@ + dec(m)
            + " MHz across the sustained all-core phase"@
    &&& match spec {
        Some(s) => f.confidence == Confidence::SpecGrounded && f.basis == s.display_name
            + "'s manufacturer-rated base clock ("@ + dec(base_mhz as nat) + " MHz)"@,
        None => f.confidence == Confidence::Heuristic && f.basis == brand
            + " is not in the local spec dataset yet — compared against CPUID's own reported base clock ("@
            + dec(base_mhz as nat) + " MHz) instead of a verified manufacturer figure"@,
    }
    &&& if 100 * hertz < 95 * whole {
        &&& f.severity == Severity::Problem
        &&& f.title == "CPU could not sustain its own rated base clock"@
        &&& f.expected == "at least "@ + dec(base_mhz as nat)
            + " MHz — base clock is the manufacturer's guarantee at rated TDP"@
        &&& exists|q: nat|
            #[trigger] is_shortfall(q, hertz, whole) && f.recommendation == dec(q)
                + "% below its own rated floor under sustained load points at a cooling or power-delivery fault, not normal turbo behaviour. Budget for a repaste/cleaning, or negotiate accordingly."@
    } else {
        &&& f.severity == Severity::Fine
        &&& f.title == "CPU held its rated base clock under sustained load"@
        &&& f.expected == "at least "@ + dec(base_mhz as nat) + " MHz"@
    }
}

/// What a report says of the sustained clock of a part that is held to a figure: whether the
/// average over the measured clocks, not any single one, is more than five percent below it. The
/// average and the figure are named, and so is the shortfall, where there is one.
pub proof fn the_average_clock_decides(
    r: CpuStressResultView,
    topology: CpuTopologyView,
    spec: Option<CpuSpecView>,
    base_mhz: u32,
)
    requires
        r.samples.filter(clock_measured()).len() > 0,
        topology.brand_string.get() is Some,
        spec matches Some(s) ==> s.base_clock_mhz == base_mhz,
        spec is None ==> topology.base_clock_mhz.get() == Some(base_mhz),
    ensures
        ({
            let report = worst_first(cpu_findings(r, topology, spec));
            let id = "cpu.sustained_below_base"@;
            let clocks = r.samples.filter(clock_measured());
            let n = clocks.len() as int;
            let hertz = hertz_together(clocks);
            &&& count_id(report, id) == 1
            &&& exists|i: int|
                0 <= i < report.len() && (#[trigger] report[i]).id == id && judges_clock(
                    report[i],
                    hertz,
                    n,
                    base_mhz,
                    spec,
                    topology.brand_string.get()->0,
                )
        }),
{
    let id = "cpu.sustained_below_base"@;
    let clocks = r.samples.filter(clock_measured());
    clocks_add_up(r.samples);
    let n = clock_count(r.samples);
    let total = clock_total(r.samples);
    let whole = base_mhz * 1_000_000 * n;
    assert(base_mhz * 950_000 * n * 100 == 95 * (base_mhz * 1_000_000 * n)) by (nonlinear_arith);
    let m = nearest(total, (n * 1_000_000) as nat);
    nearest_is_near(total, (n * 1_000_000) as nat);
    assert(m * (n * 1_000_000) == 1_000_000 * n * m) by (nonlinear_arith);
    assert(is_average_clock(m, total as int, n as int));
    cpu_ids_differ();
    cpu_id_counts(r, topology, spec, id);
    let checks = self_check_findings(r);
    let hot = thermal_throttle_findings(r);
    let found = clock_floor_findings(r, topology, spec);
    if checks.len() == 1 {
        count_of_one(checks, id);
    }
    if hot.len() == 1 {
        count_of_one(hot, id);
    }
    count_of_one(found, id);
    let all = cpu_findings(r, topology, spec);
    let f = found[0];
    assert(all[checks.len() as int] == f);
    assert(all.contains(f));
    ordering_keeps_ids(all, id, f);
    let report = worst_first(all);
    let i = choose|i: int| 0 <= i < report.len() && report[i] == f;
    assert(report[i].id == id);
    if 100 * total < 95 * whole {
        assert(whole > 0);
        nearest_is_near((100 * (whole - total)) as nat, whole as nat);
        let q = nearest((100 * (whole - total)) as nat, whole as nat);
        assert(is_shortfall(q, total as int, whole));
    }
    assert(judges_clock(
        f,
        total as int,
        n as int,
        base_mhz,
        spec,
        topology.brand_string.get()->0,
    ));
}

/// Entry `k` of the table is the first whose key stands in a brand string.
pub open spec fn first_rated_at(specs: Seq<CpuSpecView>, brand: Seq<char>, k: int) -> bool {
    0 <= k < specs.len() && (exists|p: int| #[trigger] stands_at(brand, specs[k].match_key, p))
        && forall|j: int, p: int|
        0 <= j < k ==> !#[trigger] stands_at(brand, (#[trigger] specs[j]).match_key, p)
}

/// A part is looked up by its brand: the first entry of the table whose key stands in it, and none
/// where no key does.
pub proof fn a_part_is_found_by_its_key(specs: Seq<CpuSpecView>, brand: Seq<char>, k: int)
    ensures
        first_rated_at(specs, brand, k) ==> spec_of(specs, brand) == Some(specs[k])
            && base_clock_of(specs, brand) == Some(specs[k].base_clock_mhz),
        (forall|j: int, p: int|
            0 <= j < specs.len() ==> !#[trigger] stands_at(
                brand,
                (#[trigger] specs[j]).match_key,
                p,
            )) ==> spec_of(specs, brand) is None && base_clock_of(specs, brand) is None,
    decreases specs.len(),
{
    if specs.len() > 0 {
        let rest = specs.drop_first();
        a_part_is_found_by_its_key(rest, brand, k - 1);
        containing_is_standing_somewhere(brand, specs[0].match_key);
        if contains_text(brand, specs[0].match_key) {
            let p = choose|p: int| #[trigger] stands_at(brand, specs[0].match_key, p);
            assert(stands_at(brand, specs[0].match_key, p));
        }
        if first_rated_at(specs, brand, k) && k > 0 {
            assert forall|j: int, p: int| 0 <= j < k - 1 implies !#[trigger] stands_at(
                brand,
                (#[trigger] rest[j]).match_key,
                p,
            ) by {
                assert(rest[j] == specs[j + 1]);
            }
            assert(rest[k - 1] == specs[k]);
            assert(first_rated_at(rest, brand, k - 1));
        }
        if forall|j: int, p: int|
            0 <= j < specs.len() ==> !#[trigger] stands_at(
                brand,
                (#[trigger] specs[j]).match_key,
                p,
            ) {
            assert forall|j: int, p: int| 0 <= j < rest.len() implies !#[trigger] stands_at(
                brand,
                (#[trigger] rest[j]).match_key,
                p,
            ) by {
                assert(rest[j] == specs[j + 1]);
            }
        }
    }
}

/// A run is judged by the table's entry for the part's brand, in lower case; a part without a brand
/// has none.
pub proof fn the_brand_picks_the_entry(specs: Seq<CpuSpecView>, topology: CpuTopologyView)
    ensures
        topology.brand_string.get() matches Some(brand) ==> spec_for(specs, topology) == spec_of(
            specs,
            lowercase(brand),
        ),
        topology.brand_string.get() is None ==> spec_for(specs, topology) is None,
{
}

} // verus!
