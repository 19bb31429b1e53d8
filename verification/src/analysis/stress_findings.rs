//! Turning a completed stress run into findings.
//!
//! Each rule is grounded in what was actually measured rather than inferred: a failed
//! self-check is a hardware fault caught directly; a sustained clock below the rated base
//! clock breaks the manufacturer's own guarantee; a thermal-status bit is reported by the
//! silicon itself.
//!
//! A missing telemetry driver is not a finding: a buyer negotiates over what is wrong with
//! the machine, and a scan limitation is not that.
use vstd::prelude::*;

use crate::analysis::findings::{finding, labelled, numbered};
use crate::analysis::order::{sorted, worst_first};
use crate::measure::Frequency;
use crate::model::{Confidence, Finding, FindingView, Reading, ReadingView, Severity};
use crate::probes::cpu::{CpuTopology, CpuTopologyView};
use crate::telemetry::types::{
    CpuSample, CpuSampleView, CpuStressResult, CpuStressResultView, GpuPhase, GpuSample,
    GpuSampleView, GpuStressResult, GpuStressResultView, Phase,
};
use crate::text::number::{dec, nearest, push_dec, round_ratio};
use crate::text::{contains, contains_text, lowercase, to_lowercase};

verus! {

/// A part in the table of rated parts.
#[derive(Debug, Clone)]
pub struct CpuSpec {
    /// A text in lower case that the brand strings of this part contain.
    pub match_key: String,
    pub display_name: String,
    pub base_clock_mhz: u32,
    pub boost_clock_mhz: u32,
    pub tdp_watts: u32,
}

/// The mathematical model of [`CpuSpec`].
#[verifier::ext_equal]
pub struct CpuSpecView {
    pub match_key: Seq<char>,
    pub display_name: Seq<char>,
    pub base_clock_mhz: u32,
    pub boost_clock_mhz: u32,
    pub tdp_watts: u32,
}

impl DeepView for CpuSpec {
    type V = CpuSpecView;

    open spec fn deep_view(&self) -> CpuSpecView {
        CpuSpecView {
            match_key: self.match_key@,
            display_name: self.display_name@,
            base_clock_mhz: self.base_clock_mhz,
            boost_clock_mhz: self.boost_clock_mhz,
            tdp_watts: self.tdp_watts,
        }
    }
}

/// The first part whose key occurs in a brand string in lower case.
pub open spec fn spec_of(specs: Seq<CpuSpecView>, normalized: Seq<char>) -> Option<CpuSpecView>
    decreases specs.len(),
{
    if specs.len() == 0 {
        None
    } else if contains_text(normalized, specs[0].match_key) {
        Some(specs[0])
    } else {
        spec_of(specs.drop_first(), normalized)
    }
}

/// The rated base clock of the part with a brand string in lower case.
pub open spec fn base_clock_of(specs: Seq<CpuSpecView>, normalized: Seq<char>) -> Option<u32> {
    match spec_of(specs, normalized) {
        Some(s) => Some(s.base_clock_mhz),
        None => None,
    }
}

/// The first part whose key occurs in a brand string that is already in lower case.
pub fn find_normalized<'a>(specs: &'a [CpuSpec], normalized: &str) -> (r: Option<&'a CpuSpec>)
    ensures
        r.deep_view() == spec_of(specs.deep_view(), normalized@),
{
    let ghost all = specs.deep_view();
    let mut i: usize = 0;
    assert(all.skip(0) == all);
    while i < specs.len()
        invariant
            i <= specs.len(),
            all == specs.deep_view(),
            spec_of(all, normalized@) == spec_of(all.skip(i as int), normalized@),
        decreases specs.len() - i,
    {
        assert(all.skip(i as int)[0] == specs[i as int].deep_view());
        assert(all.skip(i as int).drop_first() == all.skip(i + 1));
        if contains(normalized, specs[i].match_key.as_str()) {
            return Some(&specs[i]);
        }
        i += 1;
    }
    None
}

/// The part with a brand string.
pub fn find_spec<'a>(specs: &'a [CpuSpec], brand_string: &str) -> (r: Option<&'a CpuSpec>)
    ensures
        r.deep_view() == spec_of(specs.deep_view(), lowercase(brand_string@)),
{
    let normalized = to_lowercase(brand_string);
    find_normalized(specs, normalized.as_str())
}

/// The rated base clock for a CPU brand string.
///
/// The telemetry layer needs it too: a ratio of counters only becomes megahertz by the
/// nominal frequency, and some parts do not report theirs.
pub fn base_clock_mhz_for(specs: &[CpuSpec], brand_string: &str) -> (r: Option<u32>)
    ensures
        r == base_clock_of(specs.deep_view(), lowercase(brand_string@)),
{
    match find_spec(specs, brand_string) {
        Some(s) => Some(s.base_clock_mhz),
        None => None,
    }
}

// ---------------------------------------------------------------------------
// CPU
// ---------------------------------------------------------------------------

/// A computation that came out wrong.
pub open spec fn self_check_findings(r: CpuStressResultView) -> Seq<FindingView> {
    if r.self_check_failed {
        seq![
            finding(
                "cpu.self_check_failed"@,
                "CPU produced an incorrect result under sustained load"@,
                Severity::Critical,
                Confidence::SpecGrounded,
                "the stress kernel's deterministic checkpoint replay did not match its own reference result"@,
                "bit-identical results every time, since the computation is deterministic"@,
                "a fixed FMA sequence run from the same seed must always produce the same answer on correct hardware — a mismatch is a computation error, not a threshold judgement"@,
                "Treat this as a hardware fault, not a cooling issue. Do not buy this machine on the assumption it is stable, even if temperatures looked fine."@,
            ),
        ]
    } else {
        seq![]
    }
}

/// The clock that a sample contributes to the sustained average.
pub open spec fn sustained_clock(s: CpuSampleView) -> Option<Frequency> {
    if s.phase == Phase::AllCoreSustained {
        s.effective_clock.get()
    } else {
        None
    }
}

/// How many samples contribute to the sustained average.
pub open spec fn clock_count(samples: Seq<CpuSampleView>) -> nat
    decreases samples.len(),
{
    if samples.len() == 0 {
        0
    } else {
        clock_count(samples.drop_last()) + (if sustained_clock(samples.last()) is Some {
            1nat
        } else {
            0
        })
    }
}

/// The sum of the clocks that contribute to the sustained average, in hertz.
pub open spec fn clock_total(samples: Seq<CpuSampleView>) -> nat
    decreases samples.len(),
{
    if samples.len() == 0 {
        0
    } else {
        clock_total(samples.drop_last()) + (match sustained_clock(samples.last()) {
            Some(f) => f.hertz as nat,
            None => 0,
        })
    }
}

fn sum_clocks(samples: &[CpuSample]) -> (r: (usize, u128))
    ensures
        r.0 == clock_count(samples.deep_view()),
        r.1 == clock_total(samples.deep_view()),
        r.1 <= r.0 * u64::MAX,
{
    let ghost all = samples.deep_view();
    let mut count: usize = 0;
    let mut total: u128 = 0;
    for i in 0..samples.len()
        invariant
            all == samples.deep_view(),
            samples.len() <= usize::MAX,
            count <= i,
            count == clock_count(all.take(i as int)),
            total == clock_total(all.take(i as int)),
            total <= count * u64::MAX,
    {
        assert(all.take(i + 1).drop_last() == all.take(i as int));
        assert(all.take(i + 1).last() == samples[i as int].deep_view());
        match samples[i].phase {
            Phase::AllCoreSustained => {
                if let Some(f) = samples[i].effective_clock.get() {
                    assert(count * u64::MAX + u64::MAX <= u64::MAX * u64::MAX) by (nonlinear_arith)
                        requires
                            count + 1 <= u64::MAX,
                    ;
                    total = total + f.hertz as u128;
                    count = count + 1;
                }
            },
            _ => {},
        }
    }
    assert(all.take(all.len() as int) == all);
    (count, total)
}

/// The base clock that a part is held to, how far that figure can be trusted, and why.
#[verifier::ext_equal]
pub struct Rating {
    pub base_clock_mhz: u32,
    pub confidence: Confidence,
    pub basis: Seq<char>,
}

/// The rating of a part: the manufacturer's figure where the part is in the table, else the
/// figure that the part reports of itself.
pub open spec fn rating_of(
    brand: Seq<char>,
    reported: ReadingView<u32>,
    spec: Option<CpuSpecView>,
) -> Option<Rating> {
    match spec {
        Some(s) => Some(
            Rating {
                base_clock_mhz: s.base_clock_mhz,
                confidence: Confidence::SpecGrounded,
                basis: s.display_name + "'s manufacturer-rated base clock ("@ + dec(
                    s.base_clock_mhz as nat,
                ) + " MHz)"@,
            },
        ),
        None => match reported.get() {
            Some(mhz) => Some(
                Rating {
                    base_clock_mhz: mhz,
                    confidence: Confidence::Heuristic,
                    basis: brand
                        + " is not in the local spec dataset yet — compared against CPUID's own reported base clock ("@
                        + dec(mhz as nat)
                        + " MHz) instead of a verified manufacturer figure"@,
                },
            ),
            None => None,
        },
    }
}

/// An average over `count` clocks is more than five percent below the base clock. The
/// tolerance absorbs normal measurement noise without hiding a real cooling problem.
pub open spec fn below_floor(total: nat, count: nat, base_clock_mhz: u32) -> bool {
    total < base_clock_mhz * 950_000 * count
}

/// The judgement on an average over `count` clocks.
pub open spec fn clock_finding(total: nat, count: nat, rating: Rating) -> FindingView {
    let observed = "averaged "@ + dec(nearest(total, count * 1_000_000))
        + " MHz across the sustained all-core phase"@;
    let whole = (rating.base_clock_mhz * 1_000_000 * count) as nat;
    if below_floor(total, count, rating.base_clock_mhz) {
        finding(
            "cpu.sustained_below_base"@,
            "CPU could not sustain its own rated base clock"@,
            Severity::Problem,
            rating.confidence,
            observed,
            "at least "@ + dec(rating.base_clock_mhz as nat)
                + " MHz — base clock is the manufacturer's guarantee at rated TDP"@,
            rating.basis,
            dec(nearest((100 * (whole - total)) as nat, whole))
                + "% below its own rated floor under sustained load points at a cooling or power-delivery fault, not normal turbo behaviour. Budget for a repaste/cleaning, or negotiate accordingly."@,
        )
    } else {
        finding(
            "cpu.sustained_below_base"@,
            "CPU held its rated base clock under sustained load"@,
            Severity::Fine,
            rating.confidence,
            observed,
            "at least "@ + dec(rating.base_clock_mhz as nat) + " MHz"@,
            rating.basis,
            "No cooling or power-delivery concern from this check."@,
        )
    }
}

/// Whether the part held its base clock. Nothing without telemetry or without a figure to
/// compare against: that is a gap in the scan, not a finding.
pub open spec fn clock_floor_findings(
    r: CpuStressResultView,
    topology: CpuTopologyView,
    spec: Option<CpuSpecView>,
) -> Seq<FindingView> {
    if clock_count(r.samples) == 0 {
        seq![]
    } else {
        match topology.brand_string.get() {
            None => seq![],
            Some(brand) => match rating_of(brand, topology.base_clock_mhz, spec) {
                None => seq![],
                Some(rating) => seq![
                    clock_finding(clock_total(r.samples), clock_count(r.samples), rating),
                ],
            },
        }
    }
}

fn judge_clock(total: u128, count: usize, base_clock_mhz: u32, confidence: Confidence, basis: String) -> (f:
    Finding)
    requires
        count > 0,
        total <= count * u64::MAX,
    ensures
        f.deep_view() == clock_finding(
            total as nat,
            count as nat,
            Rating { base_clock_mhz, confidence, basis: basis@ },
        ),
{
    assert(count * u64::MAX <= u64::MAX * u64::MAX) by (nonlinear_arith)
        requires
            count <= u64::MAX,
    ;
    assert(base_clock_mhz * 1_000_000 * count <= 0xFFFF_FFFF * 1_000_000 * 0xFFFF_FFFF_FFFF_FFFF)
        by (nonlinear_arith)
        requires
            base_clock_mhz <= 0xFFFF_FFFF,
            count <= 0xFFFF_FFFF_FFFF_FFFF,
    ;
    assert(base_clock_mhz * 950_000 * count <= base_clock_mhz * 1_000_000 * count) by (nonlinear_arith);
    let mut observed = String::from_str("averaged ");
    push_dec(&mut observed, round_ratio(total, count as u128 * 1_000_000));
    observed.append(" MHz across the sustained all-core phase");
    let whole: u128 = base_clock_mhz as u128 * 1_000_000 * count as u128;
    let floor: u128 = base_clock_mhz as u128 * 950_000 * count as u128;
    if total < floor {
        let mut expected = labelled("at least ", base_clock_mhz as u128);
        expected.append(" MHz — base clock is the manufacturer's guarantee at rated TDP");
        let advice = numbered(
            round_ratio(100 * (whole - total), whole),
            "% below its own rated floor under sustained load points at a cooling or power-delivery fault, not normal turbo behaviour. Budget for a repaste/cleaning, or negotiate accordingly.",
        );
        Finding::new(
            "cpu.sustained_below_base",
            "CPU could not sustain its own rated base clock",
            Severity::Problem,
            confidence,
        ).observed(observed.as_str()).expected(expected.as_str()).basis(basis.as_str()).recommend(
            advice.as_str(),
        )
    } else {
        let expected = labelled("at least ", base_clock_mhz as u128).concat(" MHz");
        Finding::new(
            "cpu.sustained_below_base",
            "CPU held its rated base clock under sustained load",
            Severity::Fine,
            confidence,
        ).observed(observed.as_str()).expected(expected.as_str()).basis(basis.as_str()).recommend(
            "No cooling or power-delivery concern from this check.",
        )
    }
}

fn clock_floor_finding(result: &CpuStressResult, topology: &CpuTopology, spec: Option<&CpuSpec>) -> (r:
    Option<Finding>)
    ensures
        clock_floor_findings(result.deep_view(), topology.deep_view(), spec.deep_view()) == (match r {
            Some(f) => seq![f.deep_view()],
            None => seq![],
        }),
{
    let samples = result.samples.as_slice();
    assert(samples.deep_view() == result.samples.deep_view());
    let (count, total) = sum_clocks(samples);
    if count == 0 {
        return None;
    }
    let brand = match topology.brand_string.get() {
        Some(b) => b,
        None => {
            return None;
        },
    };
    match spec {
        Some(s) => {
            let mut basis = s.display_name.clone();
            basis.append("'s manufacturer-rated base clock (");
            push_dec(&mut basis, s.base_clock_mhz as u128);
            basis.append(" MHz)");
            Some(judge_clock(total, count, s.base_clock_mhz, Confidence::SpecGrounded, basis))
        },
        None => match topology.base_clock_mhz.get() {
            Some(mhz) => {
                let mut basis = brand.clone();
                basis.append(
                    " is not in the local spec dataset yet — compared against CPUID's own reported base clock (",
                );
                push_dec(&mut basis, *mhz as u128);
                basis.append(" MHz) instead of a verified manufacturer figure");
                Some(judge_clock(total, count, *mhz, Confidence::Heuristic, basis))
            },
            None => None,
        },
    }
}

/// The throttle bit of a sample of the sustained phase.
pub open spec fn sustained_throttle(s: CpuSampleView) -> Option<bool> {
    if s.phase == Phase::AllCoreSustained {
        s.thermal_throttling.get()
    } else {
        None
    }
}

/// How many samples of the sustained phase have a throttle bit.
pub open spec fn throttle_known(samples: Seq<CpuSampleView>) -> nat
    decreases samples.len(),
{
    if samples.len() == 0 {
        0
    } else {
        throttle_known(samples.drop_last()) + (if sustained_throttle(samples.last()) is Some {
            1nat
        } else {
            0
        })
    }
}

/// How many samples of the sustained phase have the throttle bit set.
pub open spec fn throttle_set(samples: Seq<CpuSampleView>) -> nat
    decreases samples.len(),
{
    if samples.len() == 0 {
        0
    } else {
        throttle_set(samples.drop_last()) + (if sustained_throttle(samples.last()) == Some(true) {
            1nat
        } else {
            0
        })
    }
}

fn count_throttle(samples: &[CpuSample]) -> (r: (usize, usize))
    ensures
        r.0 == throttle_known(samples.deep_view()),
        r.1 == throttle_set(samples.deep_view()),
{
    let ghost all = samples.deep_view();
    let mut known: usize = 0;
    let mut set: usize = 0;
    for i in 0..samples.len()
        invariant
            all == samples.deep_view(),
            known <= i,
            set <= i,
            known == throttle_known(all.take(i as int)),
            set == throttle_set(all.take(i as int)),
    {
        assert(all.take(i + 1).drop_last() == all.take(i as int));
        assert(all.take(i + 1).last() == samples[i as int].deep_view());
        match samples[i].phase {
            Phase::AllCoreSustained => {
                if let Some(b) = samples[i].thermal_throttling.get() {
                    known = known + 1;
                    if *b {
                        set = set + 1;
                    }
                }
            },
            _ => {},
        }
    }
    assert(all.take(all.len() as int) == all);
    (known, set)
}

/// A bit that is set on at least a tenth of the samples counts as observed, rather than as
/// one noisy tick.
pub open spec fn observed_throttling(set: nat, known: nat) -> bool {
    known > 0 && 10 * set >= known
}

/// Thermal throttling that the silicon itself reported. Brief, isolated ticks are normal
/// turbo behaviour.
pub open spec fn thermal_throttle_findings(r: CpuStressResultView) -> Seq<FindingView> {
    let known = throttle_known(r.samples);
    let set = throttle_set(r.samples);
    if observed_throttling(set, known) {
        seq![
            finding(
                "cpu.thermal_throttling_observed"@,
                "CPU package reported thermal throttling during the sustained phase"@,
                Severity::Problem,
                Confidence::SpecGrounded,
                "thermal-throttle bit set on "@ + dec(nearest(100 * set, known))
                    + "% of sustained-phase samples"@,
                "the bit clear for the great majority of a sustained run"@,
                "Intel package thermal status register (MSR 0x1B1) — reported by the silicon itself, not inferred from a temperature threshold"@,
                "This is the CPU's own hardware confirming it is thermally limited. Cooling service is warranted before relying on sustained performance."@,
            ),
        ]
    } else {
        seq![]
    }
}

fn thermal_throttle_finding(result: &CpuStressResult) -> (r: Option<Finding>)
    ensures
        thermal_throttle_findings(result.deep_view()) == (match r {
            Some(f) => seq![f.deep_view()],
            None => seq![],
        }),
{
    let samples = result.samples.as_slice();
    assert(samples.deep_view() == result.samples.deep_view());
    let (known, set) = count_throttle(samples);
    if known == 0 || 10u128 * (set as u128) < known as u128 {
        return None;
    }
    let mut observed = String::from_str("thermal-throttle bit set on ");
    push_dec(&mut observed, round_ratio(100u128 * set as u128, known as u128));
    observed.append("% of sustained-phase samples");
    Some(
        Finding::new(
            "cpu.thermal_throttling_observed",
            "CPU package reported thermal throttling during the sustained phase",
            Severity::Problem,
            Confidence::SpecGrounded,
        ).observed(observed.as_str()).expected("the bit clear for the great majority of a sustained run").basis(
            "Intel package thermal status register (MSR 0x1B1) — reported by the silicon itself, not inferred from a temperature threshold",
        ).recommend(
            "This is the CPU's own hardware confirming it is thermally limited. Cooling service is warranted before relying on sustained performance.",
        ),
    )
}

/// What follows from a CPU stress run on a part that is, or is not, in the table of rated
/// parts.
pub open spec fn cpu_findings(
    r: CpuStressResultView,
    topology: CpuTopologyView,
    spec: Option<CpuSpecView>,
) -> Seq<FindingView> {
    self_check_findings(r) + clock_floor_findings(r, topology, spec) + thermal_throttle_findings(r)
}

/// The table entry that a part is judged by.
pub open spec fn spec_for(specs: Seq<CpuSpecView>, topology: CpuTopologyView) -> Option<CpuSpecView> {
    match topology.brand_string.get() {
        Some(brand) => spec_of(specs, lowercase(brand)),
        None => None,
    }
}

/// Judge a CPU stress run on a part whose table entry is `spec`, or that has none.
pub fn evaluate_rated_cpu(result: &CpuStressResult, topology: &CpuTopology, spec: Option<&CpuSpec>) -> (r:
    Vec<Finding>)
    ensures
        r.deep_view() == worst_first(
            cpu_findings(result.deep_view(), topology.deep_view(), spec.deep_view()),
        ),
{
    let mut out: Vec<Finding> = Vec::new();
    if result.self_check_failed {
        let f = Finding::new(
            "cpu.self_check_failed",
            "CPU produced an incorrect result under sustained load",
            Severity::Critical,
            Confidence::SpecGrounded,
        ).observed(
            "the stress kernel's deterministic checkpoint replay did not match its own reference result",
        ).expected("bit-identical results every time, since the computation is deterministic").basis(
            "a fixed FMA sequence run from the same seed must always produce the same answer on correct hardware — a mismatch is a computation error, not a threshold judgement",
        ).recommend(
            "Treat this as a hardware fault, not a cooling issue. Do not buy this machine on the assumption it is stable, even if temperatures looked fine.",
        );
        out.push(f);
    }
    let ghost r0 = result.deep_view();
    let ghost s1 = self_check_findings(r0);
    assert(out.deep_view() == s1);
    if let Some(f) = clock_floor_finding(result, topology, spec) {
        out.push(f);
    }
    let ghost s2 = clock_floor_findings(r0, topology.deep_view(), spec.deep_view());
    assert(out.deep_view() == s1 + s2);
    if let Some(f) = thermal_throttle_finding(result) {
        out.push(f);
    }
    assert(out.deep_view() == cpu_findings(r0, topology.deep_view(), spec.deep_view()));
    sorted(out)
}

/// Judge a CPU stress run.
pub fn evaluate_cpu(result: &CpuStressResult, topology: &CpuTopology, specs: &[CpuSpec]) -> (r: Vec<
    Finding,
>)
    ensures
        r.deep_view() == worst_first(
            cpu_findings(
                result.deep_view(),
                topology.deep_view(),
                spec_for(specs.deep_view(), topology.deep_view()),
            ),
        ),
{
    let spec = match topology.brand_string.get() {
        Some(brand) => find_spec(specs, brand.as_str()),
        None => None,
    };
    evaluate_rated_cpu(result, topology, spec)
}

// ---------------------------------------------------------------------------
// GPU
// ---------------------------------------------------------------------------

/// The driver named a reason for limiting the clocks.
pub open spec fn limited(s: GpuSampleView) -> bool {
    s.sw_thermal_slowdown.get() == Some(true) || s.hw_thermal_slowdown.get() == Some(true)
        || s.sw_power_cap.get() == Some(true) || s.hw_power_brake.get() == Some(true)
}

/// A sample of the sustained phase.
pub open spec fn sustained(s: GpuSampleView) -> bool {
    s.phase == GpuPhase::ComputeSustained
}

/// How many samples of the sustained phase carry throttle reasons.
pub open spec fn reasons_known(samples: Seq<GpuSampleView>) -> nat
    decreases samples.len(),
{
    if samples.len() == 0 {
        0
    } else {
        reasons_known(samples.drop_last()) + (if sustained(samples.last())
            && samples.last().sw_thermal_slowdown.get() is Some {
            1nat
        } else {
            0
        })
    }
}

/// How many samples of the sustained phase were limited.
pub open spec fn limited_count(samples: Seq<GpuSampleView>) -> nat
    decreases samples.len(),
{
    if samples.len() == 0 {
        0
    } else {
        limited_count(samples.drop_last()) + (if sustained(samples.last()) && limited(samples.last()) {
            1nat
        } else {
            0
        })
    }
}

/// Some sample of the sustained phase was limited by the hardware's own thermal protection.
pub open spec fn thermally_limited(samples: Seq<GpuSampleView>) -> bool {
    exists|i: int|
        0 <= i < samples.len() && sustained(#[trigger] samples[i])
            && samples[i].hw_thermal_slowdown.get() == Some(true)
}

fn is_set(r: &Reading<bool>) -> (b: bool)
    ensures
        b == (r.deep_view().get() == Some(true)),
{
    match r.get() {
        Some(b) => *b,
        None => false,
    }
}

fn count_limits(samples: &[GpuSample]) -> (r: (usize, usize, bool))
    ensures
        r.0 == reasons_known(samples.deep_view()),
        r.1 == limited_count(samples.deep_view()),
        r.2 == thermally_limited(samples.deep_view()),
{
    let ghost all = samples.deep_view();
    let mut known: usize = 0;
    let mut hit: usize = 0;
    let mut thermal = false;
    for i in 0..samples.len()
        invariant
            all == samples.deep_view(),
            known <= i,
            hit <= i,
            known == reasons_known(all.take(i as int)),
            hit == limited_count(all.take(i as int)),
            thermal == (exists|j: int|
                0 <= j < i && sustained(#[trigger] all[j]) && all[j].hw_thermal_slowdown.get()
                    == Some(true)),
    {
        assert(all.take(i + 1).drop_last() == all.take(i as int));
        let ghost now = samples[i as int].deep_view();
        assert(all[i as int] == now);
        assert(all.take(i + 1).last() == now);
        let s = &samples[i];
        match s.phase {
            GpuPhase::ComputeSustained => {
                if s.sw_thermal_slowdown.is_ok() {
                    known = known + 1;
                }
                if is_set(&s.sw_thermal_slowdown) || is_set(&s.hw_thermal_slowdown) || is_set(
                    &s.sw_power_cap,
                ) || is_set(&s.hw_power_brake) {
                    hit = hit + 1;
                }
                if is_set(&s.hw_thermal_slowdown) {
                    assert(sustained(all[i as int]));
                    thermal = true;
                }
            },
            _ => {},
        }
    }
    assert(all.take(all.len() as int) == all);
    (known, hit, thermal)
}

/// A computation on the GPU that came out wrong.
pub open spec fn gpu_self_check_findings(r: GpuStressResultView) -> Seq<FindingView> {
    if r.self_check_failed {
        seq![
            finding(
                "gpu.self_check_failed"@,
                "GPU produced an incorrect result under sustained load"@,
                Severity::Critical,
                Confidence::SpecGrounded,
                "the compute kernel's checkpoint readback did not match its own reference result"@,
                "bit-identical results every time — the shader and input are fixed and deterministic"@,
                "the checked buffer is written, computed on, and read back through VRAM every checkpoint, so this catches both a compute-unit fault and VRAM corruption"@,
                "Treat this as a hardware fault. This is the same failure signature a degraded-memory ex-mining GPU produces — do not buy on the assumption this GPU is reliable."@,
            ),
        ]
    } else {
        seq![]
    }
}

/// Throttling that the driver itself reported.
pub open spec fn gpu_throttle_findings(r: GpuStressResultView) -> Seq<FindingView> {
    let known = reasons_known(r.samples);
    let hit = limited_count(r.samples);
    if observed_throttling(hit, known) {
        seq![
            finding(
                "gpu.throttling_observed"@,
                "GPU reported "@ + (if thermally_limited(r.samples) {
                    "thermal limiting"@
                } else {
                    "power-cap limiting"@
                }) + " during the sustained phase"@,
                Severity::Problem,
                Confidence::SpecGrounded,
                "a throttle-reason bit was set on "@ + dec(nearest(100 * hit, known))
                    + "% of sustained-phase samples"@,
                "throttle reasons clear for the great majority of a sustained run"@,
                "NVIDIA's own nvmlDeviceGetCurrentClocksEventReasons bitmask — the driver naming the exact cause, not an inferred threshold"@,
                "This is the GPU's own driver confirming it is limited during sustained load. If thermal, cooling service is warranted; if power-cap, this may simply be the card's configured limit rather than a defect — check against the model's rated behaviour."@,
            ),
        ]
    } else {
        seq![]
    }
}

/// What follows from a GPU stress run.
pub open spec fn gpu_stress_findings(r: GpuStressResultView) -> Seq<FindingView> {
    gpu_self_check_findings(r) + gpu_throttle_findings(r)
}

/// Judge a GPU stress run: a failed self-check, and throttling that the driver reported.
pub fn evaluate_gpu(result: &GpuStressResult) -> (r: Vec<Finding>)
    ensures
        r.deep_view() == worst_first(gpu_stress_findings(result.deep_view())),
{
    let mut out: Vec<Finding> = Vec::new();
    if result.self_check_failed {
        let f = Finding::new(
            "gpu.self_check_failed",
            "GPU produced an incorrect result under sustained load",
            Severity::Critical,
            Confidence::SpecGrounded,
        ).observed(
            "the compute kernel's checkpoint readback did not match its own reference result",
        ).expected(
            "bit-identical results every time — the shader and input are fixed and deterministic",
        ).basis(
            "the checked buffer is written, computed on, and read back through VRAM every checkpoint, so this catches both a compute-unit fault and VRAM corruption",
        ).recommend(
            "Treat this as a hardware fault. This is the same failure signature a degraded-memory ex-mining GPU produces — do not buy on the assumption this GPU is reliable.",
        );
        out.push(f);
    }
    let ghost checked = gpu_self_check_findings(result.deep_view());
    assert(out.deep_view() == checked);
    let samples = result.samples.as_slice();
    assert(samples.deep_view() == result.samples.deep_view());
    let (known, hit, thermal) = count_limits(samples);
    if known > 0 && 10u128 * (hit as u128) >= known as u128 {
        let cause = if thermal {
            "thermal limiting"
        } else {
            "power-cap limiting"
        };
        let title = String::from_str("GPU reported ").concat(cause).concat(
            " during the sustained phase",
        );
        let mut observed = String::from_str("a throttle-reason bit was set on ");
        push_dec(&mut observed, round_ratio(100u128 * hit as u128, known as u128));
        observed.append("% of sustained-phase samples");
        let f = Finding::new(
            "gpu.throttling_observed",
            title.as_str(),
            Severity::Problem,
            Confidence::SpecGrounded,
        ).observed(observed.as_str()).expected(
            "throttle reasons clear for the great majority of a sustained run",
        ).basis(
            "NVIDIA's own nvmlDeviceGetCurrentClocksEventReasons bitmask — the driver naming the exact cause, not an inferred threshold",
        ).recommend(
            "This is the GPU's own driver confirming it is limited during sustained load. If thermal, cooling service is warranted; if power-cap, this may simply be the card's configured limit rather than a defect — check against the model's rated behaviour.",
        );
        out.push(f);
    }
    assert(out.deep_view() == checked + gpu_throttle_findings(result.deep_view()));
    sorted(out)
}

} // verus!
