//! Battery capacity history, from the XML of the system's battery report.
//!
//! A live health reading is a point with no context. A pack sitting at 85% that was 95%
//! three months ago is failing fast; a pack stable at 85% for two years is simply
//! middle-aged and fine. Only the trend separates them.
//!
//! The capacity series lives in `HistoryEntry` attributes, not child elements.
use vstd::prelude::*;

use crate::measure::Share;
use crate::model::{Reading, ReadingView, Unavailable, UnavailableView};
use crate::natural::Natural;
use crate::text::number::{nearest, nearest_is_near, number_of, parse_u64, signed_nearest};
use crate::text::{eq_text, trim, trimmed};

verus! {

// ---------------------------------------------------------------------------
// The document
// ---------------------------------------------------------------------------

/// An attribute of an XML element.
#[derive(Debug, Clone)]
pub struct XmlAttribute {
    pub namespace: Option<String>,
    pub name: String,
    pub value: String,
}

/// A node of an XML document.
#[derive(Debug, Clone)]
pub struct XmlNode {
    pub is_element: bool,
    /// The local name of an element; empty for any other node.
    pub name: String,
    pub attributes: Vec<XmlAttribute>,
}

/// The mathematical model of [`XmlAttribute`].
#[verifier::ext_equal]
pub struct XmlAttributeView {
    pub namespace: Option<Seq<char>>,
    pub name: Seq<char>,
    pub value: Seq<char>,
}

/// The mathematical model of [`XmlNode`].
#[verifier::ext_equal]
pub struct XmlNodeView {
    pub is_element: bool,
    pub name: Seq<char>,
    pub attributes: Seq<XmlAttributeView>,
}

impl DeepView for XmlAttribute {
    type V = XmlAttributeView;

    open spec fn deep_view(&self) -> XmlAttributeView {
        XmlAttributeView {
            namespace: self.namespace.deep_view(),
            name: self.name@,
            value: self.value@,
        }
    }
}

impl DeepView for XmlNode {
    type V = XmlNodeView;

    open spec fn deep_view(&self) -> XmlNodeView {
        XmlNodeView {
            is_element: self.is_element,
            name: self.name@,
            attributes: self.attributes.deep_view(),
        }
    }
}

/// The nodes of the document that `roxmltree::Document::parse` makes of a text, in document
/// order; none where it returns an error.
pub uninterp spec fn xml_nodes(xml: Seq<char>) -> Option<Seq<XmlNodeView>>;

/// The time stamp that `chrono::DateTime::parse_from_rfc3339` makes of a text; none where it
/// returns an error.
pub uninterp spec fn rfc3339_seconds(s: Seq<char>) -> Option<i64>;

/// `roxmltree::Document::parse`, with every node of the document as a plain value. Whether a
/// text parses, and into which nodes, is a function of the text.
#[verifier::external_body]
fn parse_xml(xml: &str) -> (r: Option<Vec<XmlNode>>)
    ensures
        r.deep_view() == xml_nodes(xml@),
{
    let doc = roxmltree::Document::parse(xml).ok()?;
    Some(doc.descendants().map(|n| XmlNode {
        is_element: n.is_element(),
        name: n.tag_name().name().to_string(),
        attributes: n.attributes().map(|a| XmlAttribute {
            namespace: a.namespace().map(|s| s.to_string()),
            name: a.name().to_string(),
            value: a.value().to_string(),
        }).collect(),
    }).collect())
}

/// `chrono::DateTime::parse_from_rfc3339`, as seconds since 1970-01-01 in UTC. A function of
/// the text.
#[verifier::external_body]
fn parse_date(s: &str) -> (r: Option<i64>)
    ensures
        r == rfc3339_seconds(s@),
{
    chrono::DateTime::parse_from_rfc3339(s).ok().map(|d| d.timestamp())
}

// ---------------------------------------------------------------------------
// Public shape
// ---------------------------------------------------------------------------

/// One weekly-ish observation of the pack's capacity.
#[derive(Debug, Clone)]
pub struct CapacitySample {
    pub period_start: String,
    pub period_end: String,
    pub design_capacity_mwh: u64,
    pub full_charge_capacity_mwh: u64,
    /// Full-charge capacity against design capacity.
    pub health: Share,
    pub cycle_count: Option<u32>,
    /// A different pack was seen in this period.
    pub battery_changed: bool,
}

/// The mathematical model of [`CapacitySample`].
#[verifier::ext_equal]
pub struct CapacitySampleView {
    pub period_start: Seq<char>,
    pub period_end: Seq<char>,
    pub design_capacity_mwh: u64,
    pub full_charge_capacity_mwh: u64,
    pub health: Share,
    pub cycle_count: Option<u32>,
    pub battery_changed: bool,
}

impl DeepView for CapacitySample {
    type V = CapacitySampleView;

    open spec fn deep_view(&self) -> CapacitySampleView {
        CapacitySampleView {
            period_start: self.period_start@,
            period_end: self.period_end@,
            design_capacity_mwh: self.design_capacity_mwh,
            full_charge_capacity_mwh: self.full_charge_capacity_mwh,
            health: self.health,
            cycle_count: self.cycle_count,
            battery_changed: self.battery_changed,
        }
    }
}

#[derive(Debug, Clone)]
pub struct BatteryHistory {
    pub samples: Vec<CapacitySample>,
    /// The report recorded a pack swap: either the battery was replaced, or the seller has
    /// already had to deal with a failure.
    pub battery_swap_detected: bool,
    pub health_first: Reading<Share>,
    pub health_last: Reading<Share>,
    /// Fitted slope of health over time, in millionths of a percent per year. Negative
    /// means degrading.
    pub degradation_micro_percent_per_year: Reading<i128>,
    pub observation_days: u32,
}

/// The mathematical model of [`BatteryHistory`].
#[verifier::ext_equal]
pub struct BatteryHistoryView {
    pub samples: Seq<CapacitySampleView>,
    pub battery_swap_detected: bool,
    pub health_first: ReadingView<Share>,
    pub health_last: ReadingView<Share>,
    pub degradation_micro_percent_per_year: ReadingView<i128>,
    pub observation_days: u32,
}

impl DeepView for BatteryHistory {
    type V = BatteryHistoryView;

    open spec fn deep_view(&self) -> BatteryHistoryView {
        BatteryHistoryView {
            samples: self.samples.deep_view(),
            battery_swap_detected: self.battery_swap_detected,
            health_first: self.health_first.deep_view(),
            health_last: self.health_last.deep_view(),
            degradation_micro_percent_per_year: self.degradation_micro_percent_per_year.deep_view(),
            observation_days: self.observation_days,
        }
    }
}

// ---------------------------------------------------------------------------
// Samples
// ---------------------------------------------------------------------------

/// The value of the first attribute with this name and no namespace.
pub open spec fn attribute_of(attrs: Seq<XmlAttributeView>, name: Seq<char>) -> Option<Seq<char>>
    decreases attrs.len(),
{
    if attrs.len() == 0 {
        None
    } else if attrs[0].namespace is None && attrs[0].name == name {
        Some(attrs[0].value)
    } else {
        attribute_of(attrs.drop_first(), name)
    }
}

/// The number in an attribute; 0 where it is absent or no number.
pub open spec fn number_or_zero(n: XmlNodeView, name: Seq<char>) -> u64 {
    match attribute_of(n.attributes, name) {
        Some(v) => match number_of(trimmed(v)) {
            Some(k) => k,
            None => 0,
        },
        None => 0,
    }
}

/// The text of an attribute; empty where it is absent.
pub open spec fn text_or_empty(n: XmlNodeView, name: Seq<char>) -> Seq<char> {
    match attribute_of(n.attributes, name) {
        Some(v) => v,
        None => seq![],
    }
}

/// The node is an entry of the capacity history. Namespaces do not matter.
pub open spec fn is_entry(n: XmlNodeView) -> bool {
    n.is_element && n.name == "HistoryEntry"@
}

/// The entry records that a different pack was seen.
pub open spec fn records_change(n: XmlNodeView) -> bool {
    number_or_zero(n, "BatteryChanged"@) != 0
}

/// The entry is a data point: periods without a battery report zeros.
pub open spec fn is_sample(n: XmlNodeView) -> bool {
    is_entry(n) && number_or_zero(n, "DesignCapacity"@) != 0 && number_or_zero(
        n,
        "FullChargeCapacity"@,
    ) != 0
}

/// The cycle count of an entry. Zero means that none is known, and a number that no cycle
/// counter holds says nothing either.
pub open spec fn entry_cycles(n: XmlNodeView) -> Option<u32> {
    let c = number_or_zero(n, "CycleCount"@);
    if 0 < c <= u32::MAX {
        Some(c as u32)
    } else {
        None
    }
}

/// What a data point says.
pub open spec fn sample_of(n: XmlNodeView) -> CapacitySampleView {
    let design = number_or_zero(n, "DesignCapacity"@);
    let full = number_or_zero(n, "FullChargeCapacity"@);
    CapacitySampleView {
        period_start: text_or_empty(n, "StartDate"@),
        period_end: text_or_empty(n, "EndDate"@),
        design_capacity_mwh: design,
        full_charge_capacity_mwh: full,
        health: Share { part: full, whole: design },
        cycle_count: entry_cycles(n),
        battery_changed: records_change(n),
    }
}

/// The data points of a document, in order.
pub open spec fn samples_of(nodes: Seq<XmlNodeView>) -> Seq<CapacitySampleView>
    decreases nodes.len(),
{
    if nodes.len() == 0 {
        seq![]
    } else if is_sample(nodes.last()) {
        samples_of(nodes.drop_last()).push(sample_of(nodes.last()))
    } else {
        samples_of(nodes.drop_last())
    }
}

/// Some entry of the document records a different pack, data point or not.
pub open spec fn swap_in(nodes: Seq<XmlNodeView>) -> bool {
    exists|i: int|
        0 <= i < nodes.len() && is_entry(#[trigger] nodes[i]) && records_change(nodes[i])
}

// ---------------------------------------------------------------------------
// The trend
// ---------------------------------------------------------------------------

/// The entry at which the latest pack begins: the last one that records a different pack, data
/// point or not; the first of all where none does.
pub open spec fn pack_start(nodes: Seq<XmlNodeView>) -> int
    decreases nodes.len(),
{
    if nodes.len() == 0 {
        0
    } else if is_entry(nodes.last()) && records_change(nodes.last()) {
        nodes.len() - 1
    } else {
        pack_start(nodes.drop_last())
    }
}

/// The data points of the latest pack, in order.
pub open spec fn latest_pack(nodes: Seq<XmlNodeView>) -> Seq<CapacitySampleView> {
    samples_of(nodes.skip(pack_start(nodes)))
}

/// The points of a trend: time in seconds, and health in millionths of a percent, of every
/// sample whose start date can be read.
pub open spec fn points_of(samples: Seq<CapacitySampleView>) -> Seq<(int, int)>
    decreases samples.len(),
{
    if samples.len() == 0 {
        seq![]
    } else {
        let s = samples.last();
        match rfc3339_seconds(s.period_start) {
            Some(t) => points_of(samples.drop_last()).push((t as int, s.health.micro_percent() as int)),
            None => points_of(samples.drop_last()),
        }
    }
}

/// The number of days from the first point to the last, rounded, as far as a `u32` goes;
/// none where time runs backwards.
pub open spec fn span_days(points: Seq<(int, int)>) -> int {
    let seconds = points.last().0 - points[0].0;
    let days = (seconds + 43_200) / 86_400;
    if seconds <= 0 {
        0
    } else if days > u32::MAX {
        u32::MAX as int
    } else {
        days
    }
}

/// Sum of the times since the first point.
pub open spec fn sum_x(points: Seq<(int, int)>, t0: int) -> int
    decreases points.len(),
{
    if points.len() == 0 {
        0
    } else {
        sum_x(points.drop_last(), t0) + (points.last().0 - t0)
    }
}

/// Sum of the health figures.
pub open spec fn sum_y(points: Seq<(int, int)>) -> int
    decreases points.len(),
{
    if points.len() == 0 {
        0
    } else {
        sum_y(points.drop_last()) + points.last().1
    }
}

/// Sum of the products of time and health.
pub open spec fn sum_xy(points: Seq<(int, int)>, t0: int) -> int
    decreases points.len(),
{
    if points.len() == 0 {
        0
    } else {
        sum_xy(points.drop_last(), t0) + (points.last().0 - t0) * points.last().1
    }
}

/// Sum of the squares of the times.
pub open spec fn sum_xx(points: Seq<(int, int)>, t0: int) -> int
    decreases points.len(),
{
    if points.len() == 0 {
        0
    } else {
        sum_xx(points.drop_last(), t0) + (points.last().0 - t0) * (points.last().0 - t0)
    }
}

/// The numerator of the least-squares slope.
pub open spec fn slope_numerator(points: Seq<(int, int)>) -> int {
    let t0 = points[0].0;
    points.len() * sum_xy(points, t0) - sum_x(points, t0) * sum_y(points)
}

/// The denominator of the least-squares slope.
pub open spec fn slope_denominator(points: Seq<(int, int)>) -> int {
    let t0 = points[0].0;
    points.len() * sum_xx(points, t0) - sum_x(points, t0) * sum_x(points, t0)
}

/// Seconds in a year of 365.25 days.
pub const SECONDS_PER_YEAR: i128 = 31_557_600;

/// The least-squares fit of health against time, in millionths of a percent per year, and the
/// days that it covers. There is no rate for too few points, nor under a month of observation:
/// an honest "unknown" beats an extrapolation from two weeks of data.
pub open spec fn fit(points: Seq<(int, int)>) -> (Option<int>, int) {
    if points.len() < 2 {
        (None, 0)
    } else if span_days(points) < 28 {
        (None, span_days(points))
    } else {
        (
            Some(
                signed_nearest(
                    slope_numerator(points) * SECONDS_PER_YEAR,
                    slope_denominator(points) as nat,
                ),
            ),
            span_days(points),
        )
    }
}

/// Sum of the squared distances of the times from `x`.
spec fn sum_sq_dist(points: Seq<(int, int)>, t0: int, x: int) -> int
    decreases points.len(),
{
    if points.len() == 0 {
        0
    } else {
        let d = points.last().0 - t0 - x;
        sum_sq_dist(points.drop_last(), t0, x) + d * d
    }
}

proof fn sum_sq_dist_expands(points: Seq<(int, int)>, t0: int, x: int)
    ensures
        sum_sq_dist(points, t0, x) == sum_xx(points, t0) - 2 * (x * sum_x(points, t0))
            + points.len() * (x * x),
    decreases points.len(),
{
    if points.len() > 0 {
        let head = points.drop_last();
        sum_sq_dist_expands(head, t0, x);
        let a = points.last().0 - t0;
        let s = sum_x(head, t0);
        let n = head.len() as int;
        assert((a - x) * (a - x) == a * a - 2 * (x * a) + x * x) by (nonlinear_arith);
        assert(x * (s + a) == x * s + x * a) by (nonlinear_arith);
        assert((n + 1) * (x * x) == n * (x * x) + x * x) by (nonlinear_arith);
    }
}

proof fn sum_sq_dist_bound(points: Seq<(int, int)>, t0: int, x: int)
    requires
        points.len() > 0,
    ensures
        sum_sq_dist(points, t0, x) >= (points[0].0 - t0 - x) * (points[0].0 - t0 - x),
    decreases points.len(),
{
    let head = points.drop_last();
    let d = points.last().0 - t0 - x;
    assert(d * d >= 0) by (nonlinear_arith);
    if head.len() > 0 {
        sum_sq_dist_bound(head, t0, x);
    } else {
        assert(sum_sq_dist(head, t0, x) == 0);
    }
}

proof fn one_more_point_in_the_numerator(n: int, sx: int, sy: int, sxy: int, x: int, y: int)
    ensures
        (n + 1) * (sxy + x * y) - (sx + x) * (sy + y) == (n * sxy - sx * sy) + (sxy - x * sy - y * sx
            + n * (x * y)),
{
    let p = x * y;
    assert((n + 1) * (sxy + p) == n * sxy + n * p + sxy + p) by (nonlinear_arith);
    assert((sx + x) * (sy + y) == sx * sy + y * sx + x * sy + x * y) by (nonlinear_arith);
}

proof fn one_more_point_in_the_denominator(n: int, sx: int, sxx: int, x: int)
    ensures
        (n + 1) * (sxx + x * x) - (sx + x) * (sx + x) == (n * sxx - sx * sx) + (sxx - 2 * (x * sx)
            + n * (x * x)),
{
    let p = x * x;
    assert((n + 1) * (sxx + p) == n * sxx + n * p + sxx + p) by (nonlinear_arith);
    assert((sx + x) * (sx + x) == sx * sx + 2 * (x * sx) + x * x) by (nonlinear_arith);
}

proof fn spread_is_never_negative(points: Seq<(int, int)>, t0: int)
    ensures
        points.len() * sum_xx(points, t0) - sum_x(points, t0) * sum_x(points, t0) >= 0,
        points.len() > 0 ==> points.len() * sum_xx(points, t0) - sum_x(points, t0) * sum_x(points, t0)
            >= sum_sq_dist(points.drop_last(), t0, points.last().0 - t0),
    decreases points.len(),
{
    if points.len() == 0 {
    } else {
        let head = points.drop_last();
        let x = points.last().0 - t0;
        spread_is_never_negative(head, t0);
        sum_sq_dist_expands(head, t0, x);
        let n = head.len() as int;
        let sx = sum_x(head, t0);
        let sxx = sum_xx(head, t0);
        one_more_point_in_the_denominator(n, sx, sxx, x);
        if head.len() > 0 {
            sum_sq_dist_bound(head, t0, x);
            let d = head[0].0 - t0 - x;
            assert(d * d >= 0) by (nonlinear_arith);
        }
    }
}

/// Points that span a month determine a slope.
pub proof fn a_month_of_points_determines_a_slope(points: Seq<(int, int)>)
    requires
        points.len() >= 2,
        span_days(points) >= 28,
    ensures
        slope_denominator(points) > 0,
{
    let t0 = points[0].0;
    let x = points.last().0 - t0;
    spread_is_never_negative(points, t0);
    sum_sq_dist_bound(points.drop_last(), t0, x);
    assert((0 - x) * (0 - x) > 0) by (nonlinear_arith)
        requires
            x > 0,
    ;
}

/// The slope does not depend on the moment that times are counted from.
proof fn the_origin_does_not_matter(points: Seq<(int, int)>, s: int, t: int)
    ensures
        points.len() * sum_xy(points, s) - sum_x(points, s) * sum_y(points) == points.len()
            * sum_xy(points, t) - sum_x(points, t) * sum_y(points),
        points.len() * sum_xx(points, s) - sum_x(points, s) * sum_x(points, s) == points.len()
            * sum_xx(points, t) - sum_x(points, t) * sum_x(points, t),
{
    let c = t - s;
    sums_move_with_the_origin(points, s, t);
    let n = points.len() as int;
    let sx = sum_x(points, t);
    let sy = sum_y(points);
    let sxy = sum_xy(points, t);
    let sxx = sum_xx(points, t);
    assert(n * (sxy + c * sy) - (sx + c * n) * sy == n * sxy - sx * sy) by (nonlinear_arith);
    assert(n * (sxx + 2 * (c * sx) + (c * c) * n) - (sx + c * n) * (sx + c * n) == n * sxx - sx * sx)
        by (nonlinear_arith);
}

proof fn sums_move_with_the_origin(points: Seq<(int, int)>, s: int, t: int)
    ensures
        sum_x(points, s) == sum_x(points, t) + (t - s) * points.len(),
        sum_xy(points, s) == sum_xy(points, t) + (t - s) * sum_y(points),
        sum_xx(points, s) == sum_xx(points, t) + 2 * ((t - s) * sum_x(points, t)) + ((t - s) * (t
            - s)) * points.len(),
    decreases points.len(),
{
    let c = t - s;
    if points.len() > 0 {
        let head = points.drop_last();
        sums_move_with_the_origin(head, s, t);
        let x = points.last().0 - t;
        let y = points.last().1;
        let n = head.len() as int;
        let sx = sum_x(head, t);
        let sy = sum_y(head);
        assert(points.last().0 - s == x + c);
        assert(c * n + c == c * (n + 1)) by (nonlinear_arith);
        assert((x + c) * y == x * y + c * y) by (nonlinear_arith);
        assert(c * sy + c * y == c * (sy + y)) by (nonlinear_arith);
        assert((x + c) * (x + c) == x * x + 2 * (c * x) + c * c) by (nonlinear_arith);
        assert(c * sx + c * x == c * (sx + x)) by (nonlinear_arith);
        assert((c * c) * n + c * c == (c * c) * (n + 1)) by (nonlinear_arith);
    } else {
        assert(c * 0 == 0) by (nonlinear_arith);
        assert((c * c) * 0 == 0) by (nonlinear_arith);
    }
}

/// Sum of the products of the distances from a point.
spec fn sum_cross(points: Seq<(int, int)>, t0: int, x: int, y: int) -> int
    decreases points.len(),
{
    if points.len() == 0 {
        0
    } else {
        sum_cross(points.drop_last(), t0, x, y) + (points.last().0 - t0 - x) * (points.last().1 - y)
    }
}

proof fn sum_cross_expands(points: Seq<(int, int)>, t0: int, x: int, y: int)
    ensures
        sum_cross(points, t0, x, y) == sum_xy(points, t0) - x * sum_y(points) - y * sum_x(points, t0)
            + points.len() * (x * y),
    decreases points.len(),
{
    if points.len() > 0 {
        let head = points.drop_last();
        sum_cross_expands(head, t0, x, y);
        let a = points.last().0 - t0;
        let b = points.last().1;
        let n = head.len() as int;
        let sx = sum_x(head, t0);
        let sy = sum_y(head);
        assert((a - x) * (b - y) == a * b - x * b - y * a + x * y) by (nonlinear_arith);
        assert(x * (sy + b) == x * sy + x * b) by (nonlinear_arith);
        assert(y * (sx + a) == y * sx + y * a) by (nonlinear_arith);
        assert((n + 1) * (x * y) == n * (x * y) + x * y) by (nonlinear_arith);
    } else {
        assert(x * 0 == 0 && y * 0 == 0 && 0 * (x * y) == 0) by (nonlinear_arith);
    }
}

/// Times are whole seconds, so that a distance is no longer than its square.
proof fn sum_cross_bound(points: Seq<(int, int)>, t0: int, x: int, y: int, top: int)
    requires
        0 <= y <= top,
        forall|i: int| 0 <= i < points.len() ==> 0 <= (#[trigger] points[i]).1 <= top,
    ensures
        -(top * sum_sq_dist(points, t0, x)) <= sum_cross(points, t0, x, y) <= top * sum_sq_dist(
            points,
            t0,
            x,
        ),
    decreases points.len(),
{
    if points.len() > 0 {
        let head = points.drop_last();
        assert forall|i: int| 0 <= i < head.len() implies 0 <= (#[trigger] head[i]).1 <= top by {
            assert(head[i] == points[i]);
        }
        sum_cross_bound(head, t0, x, y, top);
        let last = points[points.len() - 1];
        let d = last.0 - t0 - x;
        let e = last.1 - y;
        assert(-(d * d) <= d <= d * d) by (nonlinear_arith);
        assert(-(top * (d * d)) <= d * e <= top * (d * d)) by (nonlinear_arith)
            requires
                -(d * d) <= d <= d * d,
                -top <= e <= top,
                top >= 0,
        ;
        let q = sum_sq_dist(head, t0, x);
        assert(top * (q + d * d) == top * q + top * (d * d)) by (nonlinear_arith);
    } else {
        assert(top * 0 == 0) by (nonlinear_arith);
    }
}

proof fn slope_bound(points: Seq<(int, int)>, t0: int, top: int)
    requires
        forall|i: int| 0 <= i < points.len() ==> 0 <= (#[trigger] points[i]).1 <= top,
    ensures
        ({
            let num = points.len() * sum_xy(points, t0) - sum_x(points, t0) * sum_y(points);
            let den = points.len() * sum_xx(points, t0) - sum_x(points, t0) * sum_x(points, t0);
            -(top * den) <= num <= top * den
        }),
    decreases points.len(),
{
    if points.len() > 0 {
        let head = points.drop_last();
        assert forall|i: int| 0 <= i < head.len() implies 0 <= (#[trigger] head[i]).1 <= top by {
            assert(head[i] == points[i]);
        }
        slope_bound(head, t0, top);
        let last = points[points.len() - 1];
        let x = last.0 - t0;
        let y = last.1;
        sum_cross_expands(head, t0, x, y);
        sum_cross_bound(head, t0, x, y, top);
        sum_sq_dist_expands(head, t0, x);
        let n = head.len() as int;
        let sx = sum_x(head, t0);
        let sy = sum_y(head);
        let sxy = sum_xy(head, t0);
        let sxx = sum_xx(head, t0);
        let q = sum_sq_dist(head, t0, x);
        let den = n * sxx - sx * sx;
        one_more_point_in_the_numerator(n, sx, sy, sxy, x, y);
        one_more_point_in_the_denominator(n, sx, sxx, x);
        assert(top * (den + q) == top * den + top * q) by (nonlinear_arith);
    } else {
        assert(0 * sum_xy(points, t0) == 0 && 0 * sum_xx(points, t0) == 0) by (nonlinear_arith);
        assert(top * 0 == 0) by (nonlinear_arith);
    }
}

/// The highest health that a share can stand for, in millionths of a percent.
pub const MAX_HEALTH: u128 = 1_844_674_407_370_955_161_500_000_000;

/// No rate is steeper than the whole of the highest health, in a second.
pub const MAX_RATE: u128 = 58_213_497_078_049_654_604_552_400_000_000_000;

/// The points as whole numbers: seconds, and millionths of a percent.
pub open spec fn whole_points(points: Seq<(i64, Share)>) -> Seq<(int, int)> {
    Seq::new(points.len(), |i: int| (points[i].0 as int, points[i].1.micro_percent() as int))
}

/// The four sums over points.
struct Sums {
    x: Natural,
    y: Natural,
    xy: Natural,
    xx: Natural,
}

impl Sums {
    spec fn over(&self, points: Seq<(int, int)>, t0: int) -> bool {
        &&& self.x@ == sum_x(points, t0)
        &&& self.y@ == sum_y(points)
        &&& self.xy@ == sum_xy(points, t0)
        &&& self.xx@ == sum_xx(points, t0)
    }
}

/// The sums over the points, with times counted from the earliest that there is.
fn sums_over(points: &[(i64, Share)]) -> (s: Sums)
    requires
        forall|i: int| 0 <= i < points@.len() ==> (#[trigger] points@[i]).1.wf(),
    ensures
        s.over(whole_points(points@), i64::MIN as int),
{
    let ghost all = whole_points(points@);
    let mut s = Sums {
        x: Natural::from_u128(0),
        y: Natural::from_u128(0),
        xy: Natural::from_u128(0),
        xx: Natural::from_u128(0),
    };
    let mut i: usize = 0;
    while i < points.len()
        invariant
            i <= points.len(),
            all == whole_points(points@),
            forall|i: int| 0 <= i < points@.len() ==> (#[trigger] points@[i]).1.wf(),
            s.over(all.take(i as int), i64::MIN as int),
        decreases points.len() - i,
    {
        let ghost head = all.take(i + 1);
        assert(head.drop_last() == all.take(i as int));
        assert(head.last() == all[i as int]);
        let x = Natural::from_u128((points[i].0 as i128 - i64::MIN as i128) as u128);
        let y = Natural::from_u128(points[i].1.to_micro_percent());
        s = Sums {
            x: s.x.plus(&x),
            y: s.y.plus(&y),
            xy: s.xy.plus(&x.times(&y)),
            xx: s.xx.plus(&x.times(&x)),
        };
        i += 1;
    }
    assert(all.take(all.len() as int) == all);
    s
}

proof fn healths_are_bounded(points: Seq<(i64, Share)>)
    requires
        forall|i: int| 0 <= i < points.len() ==> (#[trigger] points[i]).1.wf(),
    ensures
        forall|i: int|
            0 <= i < points.len() ==> 0 <= (#[trigger] whole_points(points)[i]).1 <= MAX_HEALTH,
{
    assert forall|i: int| 0 <= i < points.len() implies 0 <= (#[trigger] whole_points(points)[i]).1
        <= MAX_HEALTH by {
        let s = points[i].1;
        assert(s.wf());
        let k = (100_000_000 * s.part) as nat;
        assert(k <= k * s.whole as nat) by (nonlinear_arith)
            requires
                s.whole >= 1,
                k >= 0,
        ;
        nearest_bound(k, s.whole as nat, k);
    }
}

/// The slope of points that determine one.
fn fit_exactly(points: &[(i64, Share)]) -> (r: i128)
    requires
        points@.len() > 0,
        forall|i: int| 0 <= i < points@.len() ==> (#[trigger] points@[i]).1.wf(),
        slope_denominator(whole_points(points@)) > 0,
    ensures
        r == signed_nearest(
            slope_numerator(whole_points(points@)) * SECONDS_PER_YEAR,
            slope_denominator(whole_points(points@)) as nat,
        ),
{
    let ghost all = whole_points(points@);
    let ghost num = slope_numerator(all);
    let ghost den = slope_denominator(all);
    let s = sums_over(points);
    let n = Natural::from_u128(points.len() as u128);
    let kxy = n.times(&s.xy);
    let xy = s.x.times(&s.y);
    let kxx = n.times(&s.xx);
    let xx = s.x.times(&s.x);
    proof {
        the_origin_does_not_matter(all, i64::MIN as int, all[0].0);
        healths_are_bounded(points@);
        slope_bound(all, all[0].0, MAX_HEALTH as int);
        assert(kxy@ - xy@ == num);
        assert(kxx@ - xx@ == den);
    }
    let spread = kxx.minus(&xx);
    let year = Natural::from_u128(SECONDS_PER_YEAR as u128);
    let falling = !kxy.at_least(&xy);
    let size = if falling {
        xy.minus(&kxy)
    } else {
        kxy.minus(&xy)
    };
    let scaled = size.times(&year);
    proof {
        let m = size@ as int;
        let top = MAX_HEALTH as int;
        let sec = SECONDS_PER_YEAR as int;
        assert(m <= top * den);
        assert(m * sec <= (top * sec) * den) by (nonlinear_arith)
            requires
                m <= top * den,
                sec >= 0,
        ;
        assert(top * sec == MAX_RATE);
        assert((top * sec) * den < (top * sec + 1) * den) by (nonlinear_arith)
            requires
                den > 0,
        ;
        nearest_bound(scaled@, den as nat, MAX_RATE as nat);
        assert(falling ==> num * sec == -(m * sec)) by (nonlinear_arith)
            requires
                falling ==> num == -m,
        ;
        assert(m == 0 ==> m * sec == 0) by (nonlinear_arith);
        assert(m > 0 ==> m * sec > 0) by (nonlinear_arith)
            requires
                sec > 0,
        ;
    }
    let r = Natural::round_quotient(&scaled, &spread, MAX_RATE + 1);
    if falling {
        -(r as i128)
    } else {
        r as i128
    }
}

proof fn nearest_bound(num: nat, den: nat, top: nat)
    requires
        den > 0,
        num <= top * den,
    ensures
        nearest(num, den) <= top,
{
    let q = num / den;
    let r = num % den;
    vstd::arithmetic::div_mod::lemma_fundamental_div_mod(num as int, den as int);
    assert(num == q * den + r && r < den) by (nonlinear_arith)
        requires
            num == den * (num as int / den as int) + (num as int % den as int),
            q == num / den,
            r == num % den,
            r < den,
    ;
    if q >= top {
        assert(q * den >= top * den + (q - top) * den) by (nonlinear_arith);
        assert((q - top) * den >= q - top) by (nonlinear_arith)
            requires
                q >= top,
                den >= 1,
        ;
        assert(r == 0);
    }
}

/// Least-squares fit of health against time, and the days that it covers. A point is a time
/// in seconds and a health.
pub fn fit_points(points: &[(i64, Share)]) -> (r: (Option<i128>, u32))
    requires
        forall|i: int| 0 <= i < points@.len() ==> (#[trigger] points@[i]).1.wf(),
    ensures
        match fit(whole_points(points@)).0 {
            Some(rate) => r.0 matches Some(v) && v == rate,
            None => r.0 is None,
        },
        r.1 == fit(whole_points(points@)).1,
{
    let ghost all = whole_points(points@);
    if points.len() < 2 {
        return (None, 0);
    }
    let seconds: i128 = points[points.len() - 1].0 as i128 - points[0].0 as i128;
    let span: u32 = if seconds <= 0 {
        0
    } else {
        let days: i128 = (seconds + 43_200) / 86_400;
        if days > 0xFFFF_FFFF {
            0xFFFF_FFFF
        } else {
            days as u32
        }
    };
    assert(span == span_days(all));
    // Under a month of observation cannot support a per-year rate.
    if span < 28 {
        return (None, span);
    }
    proof {
        a_month_of_points_determines_a_slope(all);
    }
    (Some(fit_exactly(points)), span)
}

/// The trend of the latest pack, and the days that it covers.
pub open spec fn trend_of(nodes: Seq<XmlNodeView>) -> (Option<int>, int) {
    fit(points_of(latest_pack(nodes)))
}

/// The last sample that records a different pack; the first of all where none does.
pub open spec fn last_change(samples: Seq<CapacitySampleView>) -> int
    decreases samples.len(),
{
    if samples.len() == 0 {
        0
    } else if samples.last().battery_changed {
        samples.len() - 1
    } else {
        last_change(samples.drop_last())
    }
}

/// The trend of the samples from the last that records a different pack on, and the days that
/// it covers.
pub open spec fn samples_trend(samples: Seq<CapacitySampleView>) -> (Option<int>, int) {
    fit(points_of(samples.skip(last_change(samples))))
}

proof fn changes_lie_within(samples: Seq<CapacitySampleView>)
    ensures
        0 <= last_change(samples) <= samples.len(),
    decreases samples.len(),
{
    if samples.len() > 0 {
        changes_lie_within(samples.drop_last());
    }
}

/// Least-squares fit of health against time. Only a continuous run of the same pack is fitted;
/// a swap resets the baseline and would otherwise show up as a huge fake improvement.
pub fn fit_degradation(samples: &[CapacitySample]) -> (r: (Option<i128>, u32))
    requires
        forall|i: int| 0 <= i < samples@.len() ==> (#[trigger] samples@[i]).health.wf(),
    ensures
        match samples_trend(samples.deep_view()).0 {
            Some(rate) => r.0 matches Some(v) && v == rate,
            None => r.0 is None,
        },
        r.1 == samples_trend(samples.deep_view()).1,
{
    let ghost all = samples.deep_view();
    let mut start: usize = 0;
    for i in 0..samples.len()
        invariant
            all == samples.deep_view(),
            start <= i,
            start == last_change(all.take(i as int)),
    {
        assert(all.take(i + 1).drop_last() == all.take(i as int));
        assert(all.take(i + 1).last() == all[i as int]);
        if samples[i].battery_changed {
            start = i;
        }
    }
    assert(all.take(all.len() as int) == all);
    proof {
        changes_lie_within(all);
    }
    let ghost run = all.skip(start as int);
    let mut points: Vec<(i64, Share)> = Vec::new();
    let mut i: usize = start;
    assert(whole_points(points@) =~= points_of(run.take(0)));
    while i < samples.len()
        invariant
            start <= i <= samples.len(),
            all == samples.deep_view(),
            run == all.skip(start as int),
            forall|i: int| 0 <= i < samples@.len() ==> (#[trigger] samples@[i]).health.wf(),
            forall|i: int| 0 <= i < points@.len() ==> (#[trigger] points@[i]).1.wf(),
            whole_points(points@) == points_of(run.take(i - start)),
        decreases samples.len() - i,
    {
        let ghost head = run.take(i - start + 1);
        assert(head.drop_last() == run.take(i - start));
        assert(head.last() == all[i as int]);
        let s = &samples[i];
        let ghost before = points@;
        if let Some(t) = parse_date(s.period_start.as_str()) {
            points.push((t, s.health));
            assert(whole_points(points@) =~= whole_points(before).push(
                (t as int, s.health.micro_percent() as int),
            ));
        }
        i += 1;
    }
    assert(run.take(run.len() as int) == run);
    fit_points(points.as_slice())
}

// ---------------------------------------------------------------------------
// Reading the report
// ---------------------------------------------------------------------------

/// The reading of the trend.
pub open spec fn trend_reading(t: Option<int>) -> ReadingView<i128> {
    match t {
        Some(rate) => ReadingView::value(rate as i128),
        None => ReadingView::failed("not enough history to establish a trend"@),
    }
}

/// The history that a document tells.
pub open spec fn history_in(nodes: Seq<XmlNodeView>) -> BatteryHistoryView {
    let samples = samples_of(nodes);
    let trend = trend_of(nodes);
    BatteryHistoryView {
        samples,
        battery_swap_detected: swap_in(nodes),
        health_first: if samples.len() > 0 {
            ReadingView::value(samples[0].health)
        } else {
            ReadingView::unsupported()
        },
        health_last: if samples.len() > 0 {
            ReadingView::value(samples.last().health)
        } else {
            ReadingView::unsupported()
        },
        degradation_micro_percent_per_year: trend_reading(trend.0),
        observation_days: trend.1 as u32,
    }
}

fn attribute_value<'a>(n: &'a XmlNode, name: &str) -> (r: Option<&'a str>)
    ensures
        r.deep_view() == attribute_of(n.deep_view().attributes, name@),
{
    let ghost all = n.deep_view().attributes;
    let mut i: usize = 0;
    assert(all.skip(0) == all);
    while i < n.attributes.len()
        invariant
            i <= n.attributes.len(),
            all == n.deep_view().attributes,
            attribute_of(all, name@) == attribute_of(all.skip(i as int), name@),
        decreases n.attributes.len() - i,
    {
        let a = &n.attributes[i];
        assert(all.skip(i as int)[0] == a.deep_view());
        if a.namespace.is_none() && eq_text(a.name.as_str(), name) {
            return Some(a.value.as_str());
        }
        assert(all.skip(i as int).drop_first() == all.skip(i + 1));
        i += 1;
    }
    None
}

fn attr_u64(n: &XmlNode, name: &str) -> (r: u64)
    ensures
        r == number_or_zero(n.deep_view(), name@),
{
    match attribute_value(n, name) {
        Some(v) => {
            let t = trim(v);
            match parse_u64(t.as_str()) {
                Some(k) => k,
                None => 0,
            }
        },
        None => 0,
    }
}

fn attr_text(n: &XmlNode, name: &str) -> (r: String)
    ensures
        r@ == text_or_empty(n.deep_view(), name@),
{
    match attribute_value(n, name) {
        Some(v) => String::from_str(v),
        None => String::new(),
    }
}

fn read_sample(n: &XmlNode, design: u64, full: u64) -> (r: CapacitySample)
    requires
        design == number_or_zero(n.deep_view(), "DesignCapacity"@),
        full == number_or_zero(n.deep_view(), "FullChargeCapacity"@),
    ensures
        r.deep_view() == sample_of(n.deep_view()),
        r.health.whole == design,
{
    let cycles = attr_u64(n, "CycleCount");
    CapacitySample {
        period_start: attr_text(n, "StartDate"),
        period_end: attr_text(n, "EndDate"),
        design_capacity_mwh: design,
        full_charge_capacity_mwh: full,
        health: Share { part: full, whole: design },
        cycle_count: if cycles > 0 && cycles <= 0xFFFF_FFFF {
            Some(cycles as u32)
        } else {
            None
        },
        battery_changed: attr_u64(n, "BatteryChanged") != 0,
    }
}

proof fn pack_starts_within(nodes: Seq<XmlNodeView>)
    ensures
        0 <= pack_start(nodes) <= nodes.len(),
        nodes.len() > 0 ==> pack_start(nodes) < nodes.len(),
    decreases nodes.len(),
{
    if nodes.len() > 0 {
        pack_starts_within(nodes.drop_last());
    }
}

/// What one more entry makes of the latest pack.
proof fn a_pack_grows_by_its_samples(nodes: Seq<XmlNodeView>, n: XmlNodeView)
    ensures
        latest_pack(nodes.push(n)) == (if is_entry(n) && records_change(n) {
            seq![]
        } else {
            latest_pack(nodes)
        }) + (if is_sample(n) {
            seq![sample_of(n)]
        } else {
            seq![]
        }),
{
    let all = nodes.push(n);
    pack_starts_within(nodes);
    assert(all.drop_last() == nodes);
    let tail = all.skip(pack_start(all));
    assert(tail.last() == n);
    if is_entry(n) && records_change(n) {
        assert(tail.drop_last() =~= Seq::<XmlNodeView>::empty());
        assert(samples_of(tail.drop_last()) =~= Seq::<CapacitySampleView>::empty());
    } else {
        assert(tail.drop_last() == nodes.skip(pack_start(nodes)));
    }
    assert(samples_of(tail) =~= samples_of(tail.drop_last()) + (if is_sample(n) {
        seq![sample_of(n)]
    } else {
        seq![]
    }));
}

/// Of the samples of a pack, none but the first records a change.
proof fn a_pack_changes_at_most_at_its_first(nodes: Seq<XmlNodeView>)
    ensures
        forall|i: int|
            1 <= i < latest_pack(nodes).len() ==> !(#[trigger] latest_pack(nodes)[i]).battery_changed,
    decreases nodes.len(),
{
    if nodes.len() > 0 {
        let head = nodes.drop_last();
        a_pack_changes_at_most_at_its_first(head);
        a_pack_grows_by_its_samples(head, nodes.last());
        assert(head.push(nodes.last()) == nodes);
    } else {
        assert(nodes.skip(0) == nodes);
    }
}

proof fn no_later_change(samples: Seq<CapacitySampleView>)
    requires
        forall|i: int| 1 <= i < samples.len() ==> !(#[trigger] samples[i]).battery_changed,
    ensures
        last_change(samples) == 0,
    decreases samples.len(),
{
    if samples.len() > 0 {
        assert(samples.last() == samples[samples.len() - 1]);
        no_later_change(samples.drop_last());
    }
}

/// The capacity history in the nodes of a battery report.
pub fn history_of(nodes: &[XmlNode]) -> (h: BatteryHistory)
    ensures
        h.deep_view() == history_in(nodes.deep_view()),
{
    let ghost all = nodes.deep_view();
    let mut samples: Vec<CapacitySample> = Vec::new();
    let mut battery_swap_detected = false;
    // Where the samples of the latest pack begin.
    let mut start: usize = 0;
    let mut i: usize = 0;
    assert(samples.deep_view().skip(0) =~= latest_pack(all.take(0)));
    while i < nodes.len()
        invariant
            start <= samples@.len(),
            samples.deep_view().skip(start as int) == latest_pack(all.take(i as int)),
            i <= nodes.len(),
            all == nodes.deep_view(),
            samples.deep_view() == samples_of(all.take(i as int)),
            forall|j: int| 0 <= j < samples@.len() ==> (#[trigger] samples@[j]).health.wf(),
            battery_swap_detected == exists|j: int|
                0 <= j < i && is_entry(#[trigger] all[j]) && records_change(all[j]),
        decreases nodes.len() - i,
    {
        assert(all.take(i + 1).drop_last() == all.take(i as int));
        let n = &nodes[i];
        assert(all[i as int] == n.deep_view());
        let ghost seen = all.take(i as int);
        proof {
            pack_starts_within(seen);
            a_pack_grows_by_its_samples(seen, all[i as int]);
            assert(all.take(i + 1) == seen.push(all[i as int]));
        }
        if n.is_element && eq_text(n.name.as_str(), "HistoryEntry") {
            let design = attr_u64(n, "DesignCapacity");
            let full = attr_u64(n, "FullChargeCapacity");
            if attr_u64(n, "BatteryChanged") != 0 {
                assert(is_entry(all[i as int]) && records_change(all[i as int]));
                battery_swap_detected = true;
                // A different pack, whether or not this entry is a data point.
                start = samples.len();
                assert(samples.deep_view().skip(start as int) =~= Seq::<CapacitySampleView>::empty());
            }
            let ghost kept = samples.deep_view().skip(start as int);
            // Periods with no battery present report zeroes: no data point.
            if design != 0 && full != 0 {
                let sample = read_sample(n, design, full);
                let ghost before = samples.deep_view();
                let ghost added = sample.deep_view();
                samples.push(sample);
                assert(samples.deep_view() == before.push(added));
                assert(samples.deep_view().skip(start as int) =~= kept.push(added));
            }
        }
        i += 1;
    }
    assert(all.take(all.len() as int) == all);
    let run = vstd::slice::slice_subrange(samples.as_slice(), start, samples.len());
    assert(run@ =~= samples@.skip(start as int));
    assert(run.deep_view() =~= samples.deep_view().skip(start as int));
    proof {
        the_latest_pack_is_fitted_whole(all);
    }
    let (trend, observation_days) = fit_degradation(run);
    let (health_first, health_last) = if samples.len() > 0 {
        (
            Reading::value(samples[0].health),
            Reading::value(samples[samples.len() - 1].health),
        )
    } else {
        (Reading::unsupported(), Reading::unsupported())
    };
    let degradation: Reading<i128> = match trend {
        Some(rate) => Reading::value(rate),
        None => Reading::failed(String::from_str("not enough history to establish a trend")),
    };
    BatteryHistory {
        samples,
        battery_swap_detected,
        health_first,
        health_last,
        degradation_micro_percent_per_year: degradation,
        observation_days,
    }
}

/// Parse the battery report XML; nothing where it is no XML.
///
/// Matches on local tag names, so that the report's namespace does not matter.
pub fn parse(xml: &str) -> (r: Option<BatteryHistory>)
    ensures
        r.deep_view() == match xml_nodes(xml@) {
            Some(nodes) => Some(history_in(nodes)),
            None => None,
        },
{
    match parse_xml(xml) {
        Some(nodes) => {
            let all = nodes.as_slice();
            assert(all.deep_view() == nodes.deep_view());
            Some(history_of(all))
        },
        None => None,
    }
}

/// The reading that a parsed report gives: one without any data point does not apply to this
/// machine.
pub open spec fn reading_of(parsed: Option<BatteryHistoryView>) -> ReadingView<BatteryHistoryView> {
    match parsed {
        Some(h) => if h.samples.len() > 0 {
            ReadingView::value(h)
        } else {
            ReadingView::missing(UnavailableView::NotApplicable)
        },
        None => ReadingView::failed("battery report XML did not parse"@),
    }
}

/// The reading that a parsed report gives.
pub fn reading_from(parsed: Option<BatteryHistory>) -> (r: Reading<BatteryHistory>)
    ensures
        r.deep_view() == reading_of(parsed.deep_view()),
{
    match parsed {
        Some(h) => if h.samples.len() > 0 {
            Reading::value(h)
        } else {
            Reading::missing(Unavailable::NotApplicable)
        },
        None => Reading::failed(String::from_str("battery report XML did not parse")),
    }
}

/// The capacity history, from the text of the battery report or from the error that kept it
/// from being read.
pub fn probe(report: Result<String, String>) -> (r: Reading<BatteryHistory>)
    ensures
        match report {
            Ok(xml) => r.deep_view() == reading_of(
                match xml_nodes(xml@) {
                    Some(nodes) => Some(history_in(nodes)),
                    None => None,
                },
            ),
            Err(e) => r.lacks(UnavailableView::QueryFailed(e@)),
        },
{
    match report {
        Ok(xml) => reading_from(parse(xml.as_str())),
        Err(e) => Reading::failed(e),
    }
}

// ---------------------------------------------------------------------------
// Laws
// ---------------------------------------------------------------------------

/// A row without a capacity is never a data point, so every sample has a health figure.
pub proof fn zero_capacity_rows_are_never_samples(nodes: Seq<XmlNodeView>)
    ensures
        forall|i: int|
            0 <= i < samples_of(nodes).len() ==> {
                &&& (#[trigger] samples_of(nodes)[i]).design_capacity_mwh > 0
                &&& samples_of(nodes)[i].full_charge_capacity_mwh > 0
                &&& samples_of(nodes)[i].health.wf()
            },
    decreases nodes.len(),
{
    if nodes.len() > 0 {
        zero_capacity_rows_are_never_samples(nodes.drop_last());
    }
}

/// What was observed before a swap has no effect on the trend, whether or not the entry that
/// records the swap is a data point.
pub proof fn history_before_a_swap_is_ignored(
    before: Seq<XmlNodeView>,
    after: Seq<XmlNodeView>,
)
    requires
        after.len() > 0,
        is_entry(after[0]),
        records_change(after[0]),
    ensures
        latest_pack(before + after) == latest_pack(after),
        trend_of(before + after) == trend_of(after),
{
    packs_start_alike(before, after);
    pack_starts_within(after);
    assert((before + after).skip(pack_start(before + after)) == after.skip(pack_start(after)));
}

proof fn packs_start_alike(before: Seq<XmlNodeView>, after: Seq<XmlNodeView>)
    requires
        after.len() > 0,
        is_entry(after[0]),
        records_change(after[0]),
    ensures
        pack_start(before + after) == before.len() + pack_start(after),
    decreases after.len(),
{
    let all = before + after;
    assert(all.last() == after.last());
    if !(is_entry(after.last()) && records_change(after.last())) {
        assert(all.drop_last() == before + after.drop_last());
        packs_start_alike(before, after.drop_last());
    }
}

/// Nothing before a sample that records a different pack counts: the fit of samples with a swap
/// among them is the fit of those from the swap on.
pub proof fn samples_before_a_swap_are_not_fitted(
    before: Seq<CapacitySampleView>,
    after: Seq<CapacitySampleView>,
)
    requires
        after.len() > 0,
        after[0].battery_changed,
    ensures
        last_change(before + after) == before.len() + last_change(after),
        samples_trend(before + after) == samples_trend(after),
    decreases after.len(),
{
    let all = before + after;
    assert(all.last() == after.last());
    if !after.last().battery_changed {
        assert(all.drop_last() == before + after.drop_last());
        samples_before_a_swap_are_not_fitted(before, after.drop_last());
    }
    changes_lie_within(after);
    assert(all.skip(last_change(all)) == after.skip(last_change(after)));
}

/// The samples of the latest pack are fitted as they are: no change is left among them to cut at.
pub proof fn the_latest_pack_is_fitted_whole(nodes: Seq<XmlNodeView>)
    ensures
        samples_trend(latest_pack(nodes)) == trend_of(nodes),
{
    a_pack_changes_at_most_at_its_first(nodes);
    no_later_change(latest_pack(nodes));
    assert(latest_pack(nodes).skip(0) == latest_pack(nodes));
}

/// An entry that records a swap and holds no capacity is no data point, yet it ends the old
/// pack: the trend is that of the samples behind it alone.
pub proof fn a_swap_without_capacity_ends_the_pack(
    before: Seq<XmlNodeView>,
    swap: XmlNodeView,
    after: Seq<XmlNodeView>,
)
    requires
        is_entry(swap),
        records_change(swap),
        !is_sample(swap),
        forall|i: int|
            0 <= i < after.len() ==> !(is_entry(#[trigger] after[i]) && records_change(after[i])),
    ensures
        swap_in(before.push(swap) + after),
        samples_of(before.push(swap) + after) == samples_of(before) + samples_of(after),
        latest_pack(before.push(swap) + after) == samples_of(after),
        trend_of(before.push(swap) + after) == trend_of(after),
{
    let all = before.push(swap) + after;
    assert(all[before.len() as int] == swap);
    samples_join(before.push(swap), after);
    assert(before.push(swap).drop_last() == before);
    no_swap_no_boundary(after);
    assert(after.skip(0) == after);
    let tail = seq![swap] + after;
    assert(all == before + tail);
    history_before_a_swap_is_ignored(before, tail);
    packs_start_alike_after(swap, after);
    assert(tail.skip(0) == tail);
    samples_join(seq![swap], after);
    assert(seq![swap].drop_last() =~= Seq::<XmlNodeView>::empty());
    assert(samples_of(Seq::<XmlNodeView>::empty()) =~= Seq::<CapacitySampleView>::empty());
    assert(seq![swap].last() == swap);
    assert(samples_of(seq![swap]) =~= Seq::<CapacitySampleView>::empty());
    assert(samples_of(tail) =~= samples_of(after));
}

proof fn packs_start_alike_after(swap: XmlNodeView, after: Seq<XmlNodeView>)
    requires
        is_entry(swap),
        records_change(swap),
        forall|i: int|
            0 <= i < after.len() ==> !(is_entry(#[trigger] after[i]) && records_change(after[i])),
    ensures
        pack_start(seq![swap] + after) == 0,
    decreases after.len(),
{
    let all = seq![swap] + after;
    if after.len() > 0 {
        assert(all.last() == after[after.len() - 1]);
        assert(all.drop_last() == seq![swap] + after.drop_last());
        packs_start_alike_after(swap, after.drop_last());
    } else {
        assert(all.last() == swap);
    }
}

proof fn no_swap_no_boundary(nodes: Seq<XmlNodeView>)
    requires
        forall|i: int|
            0 <= i < nodes.len() ==> !(is_entry(#[trigger] nodes[i]) && records_change(nodes[i])),
    ensures
        pack_start(nodes) == 0,
    decreases nodes.len(),
{
    if nodes.len() > 0 {
        assert(nodes.last() == nodes[nodes.len() - 1]);
        no_swap_no_boundary(nodes.drop_last());
    }
}

proof fn samples_join(a: Seq<XmlNodeView>, b: Seq<XmlNodeView>)
    ensures
        samples_of(a + b) == samples_of(a) + samples_of(b),
    decreases b.len(),
{
    if b.len() > 0 {
        assert((a + b).last() == b.last());
        assert((a + b).drop_last() == a + b.drop_last());
        samples_join(a, b.drop_last());
        assert(samples_of(a + b) =~= samples_of(a) + samples_of(b));
    } else {
        assert(a + b == a);
        assert(samples_of(a + b) =~= samples_of(a) + samples_of(b));
    }
}

/// The trend is fitted to one pack alone: behind the entry at which it begins, no entry, data
/// point or not, records a change; and that entry records one, unless none does.
pub proof fn the_trend_covers_one_pack(nodes: Seq<XmlNodeView>)
    ensures
        0 <= pack_start(nodes) <= nodes.len(),
        forall|i: int|
            pack_start(nodes) < i < nodes.len() ==> !(is_entry(#[trigger] nodes[i])
                && records_change(nodes[i])),
        swap_in(nodes) ==> is_entry(nodes[pack_start(nodes)]) && records_change(
            nodes[pack_start(nodes)],
        ),
        !swap_in(nodes) ==> pack_start(nodes) == 0 && latest_pack(nodes) == samples_of(nodes),
        trend_of(nodes) == fit(points_of(samples_of(nodes.skip(pack_start(nodes))))),
    decreases nodes.len(),
{
    pack_starts_within(nodes);
    if nodes.len() > 0 && !(is_entry(nodes.last()) && records_change(nodes.last())) {
        let head = nodes.drop_last();
        the_trend_covers_one_pack(head);
        pack_starts_within(head);
        assert forall|i: int| pack_start(nodes) < i < nodes.len() implies !(is_entry(
            #[trigger] nodes[i],
        ) && records_change(nodes[i])) by {
            if i < head.len() {
                assert(head[i] == nodes[i]);
            }
        }
        if swap_in(nodes) {
            let i = choose|i: int|
                0 <= i < nodes.len() && is_entry(#[trigger] nodes[i]) && records_change(nodes[i]);
            assert(head[i] == nodes[i]);
            assert(swap_in(head));
        }
    } else if nodes.len() > 0 {
        assert(nodes[nodes.len() - 1] == nodes.last());
    }
    if !swap_in(nodes) {
        no_swap_no_boundary(nodes);
        assert(nodes.skip(0) == nodes);
    }
}

/// A window of under four weeks never gives a rate.
pub proof fn a_short_window_gives_no_rate(points: Seq<(int, int)>)
    requires
        points.len() < 2 || span_days(points) < 28,
    ensures
        fit(points).0 is None,
{
}

/// Every history that spans a month gives a rate, however many points it has, and no health of
/// any pack makes it too large to tell.
pub proof fn a_month_of_history_gives_a_rate(points: Seq<(i64, Share)>)
    requires
        forall|i: int| 0 <= i < points.len() ==> (#[trigger] points[i]).1.wf(),
        points.len() >= 2,
        span_days(whole_points(points)) >= 28,
    ensures
        fit(whole_points(points)).0 matches Some(rate) && -MAX_RATE <= rate <= MAX_RATE,
{
    let all = whole_points(points);
    let num = slope_numerator(all);
    let den = slope_denominator(all);
    a_month_of_points_determines_a_slope(all);
    healths_are_bounded(points);
    slope_bound(all, all[0].0, MAX_HEALTH as int);
    let top = MAX_HEALTH as int;
    let sec = SECONDS_PER_YEAR as int;
    assert(top * sec == MAX_RATE);
    assert(-((top * sec) * den) <= num * sec <= (top * sec) * den) by (nonlinear_arith)
        requires
            -(top * den) <= num <= top * den,
            sec >= 0,
    ;
    if num * sec < 0 {
        nearest_bound((-(num * sec)) as nat, den as nat, MAX_RATE as nat);
    } else {
        nearest_bound((num * sec) as nat, den as nat, MAX_RATE as nat);
    }
}

proof fn sums_on_a_line(points: Seq<(int, int)>, t0: int, a: int, b: int)
    requires
        forall|i: int|
            0 <= i < points.len() ==> (#[trigger] points[i]).1 == a + b * (points[i].0 - t0),
    ensures
        sum_y(points) == a * points.len() + b * sum_x(points, t0),
        sum_xy(points, t0) == a * sum_x(points, t0) + b * sum_xx(points, t0),
    decreases points.len(),
{
    if points.len() > 0 {
        let head = points.drop_last();
        assert forall|i: int| 0 <= i < head.len() implies (#[trigger] head[i]).1 == a + b * (head[i].0
            - t0) by {
            assert(head[i] == points[i]);
        }
        sums_on_a_line(head, t0, a, b);
        let x = points.last().0 - t0;
        let n = head.len() as int;
        let sx = sum_x(head, t0);
        let sxx = sum_xx(head, t0);
        assert(points[points.len() - 1].1 == a + b * x);
        assert(a * n + b * sx + (a + b * x) == a * (n + 1) + b * (sx + x)) by (nonlinear_arith);
        assert(a * sx + b * sxx + x * (a + b * x) == a * (sx + x) + b * (sxx + x * x))
            by (nonlinear_arith);
    } else {
        assert(a * 0 + b * 0 == 0) by (nonlinear_arith);
    }
}

/// Points that lie on a straight line are fitted by exactly that line.
pub proof fn a_straight_line_is_fitted_exactly(points: Seq<(int, int)>, a: int, b: int)
    requires
        points.len() >= 2,
        forall|i: int|
            0 <= i < points.len() ==> (#[trigger] points[i]).1 == a + b * (points[i].0 - points[0].0),
    ensures
        slope_numerator(points) == b * slope_denominator(points),
{
    let t0 = points[0].0;
    sums_on_a_line(points, t0, a, b);
    let n = points.len() as int;
    let sx = sum_x(points, t0);
    let sxx = sum_xx(points, t0);
    assert(n * (a * sx + b * sxx) - sx * (a * n + b * sx) == b * (n * sxx - sx * sx))
        by (nonlinear_arith);
}

/// An attribute of this name, in no namespace, first stands at place `i`.
pub open spec fn first_named(attrs: Seq<XmlAttributeView>, name: Seq<char>, i: int) -> bool {
    &&& 0 <= i < attrs.len()
    &&& attrs[i].namespace is None
    &&& attrs[i].name == name
    &&& forall|j: int|
        0 <= j < i ==> (#[trigger] attrs[j]).namespace is Some || attrs[j].name != name
}

/// The node gives this text under this name; nothing where it has no such attribute.
pub open spec fn gives(n: XmlNodeView, name: Seq<char>, text: Option<Seq<char>>) -> bool {
    match text {
        Some(t) => exists|i: int| #[trigger]
            first_named(n.attributes, name, i) && n.attributes[i].value == t,
        None => forall|j: int|
            0 <= j < n.attributes.len() ==> (#[trigger] n.attributes[j]).namespace is Some
                || n.attributes[j].name != name,
    }
}

/// The number that a text stands for; none, or no number, is 0.
pub open spec fn reads_as(text: Option<Seq<char>>, k: u64) -> bool {
    match text {
        Some(t) => match number_of(trimmed(t)) {
            Some(m) => k == m,
            None => k == 0,
        },
        None => k == 0,
    }
}

proof fn attributes_are_found_by_name(attrs: Seq<XmlAttributeView>, name: Seq<char>)
    ensures
        match attribute_of(attrs, name) {
            Some(t) => exists|i: int| #[trigger] first_named(attrs, name, i) && attrs[i].value == t,
            None => forall|j: int|
                0 <= j < attrs.len() ==> (#[trigger] attrs[j]).namespace is Some || attrs[j].name
                    != name,
        },
    decreases attrs.len(),
{
    if attrs.len() > 0 {
        if attrs[0].namespace is None && attrs[0].name == name {
            assert(first_named(attrs, name, 0));
        } else {
            let rest = attrs.drop_first();
            attributes_are_found_by_name(rest, name);
            match attribute_of(rest, name) {
                Some(t) => {
                    let i = choose|i: int| #[trigger]
                        first_named(rest, name, i) && rest[i].value == t;
                    assert forall|j: int| 0 <= j < i + 1 implies (#[trigger] attrs[j]).namespace is Some
                        || attrs[j].name != name by {
                        if j > 0 {
                            assert(rest[j - 1] == attrs[j]);
                        }
                    }
                    assert(rest[i] == attrs[i + 1]);
                    assert(first_named(attrs, name, i + 1));
                },
                None => {
                    assert forall|j: int| 0 <= j < attrs.len() implies (
                    #[trigger] attrs[j]).namespace is Some || attrs[j].name != name by {
                        if j > 0 {
                            assert(rest[j - 1] == attrs[j]);
                        }
                    }
                },
            }
        }
    }
}

proof fn what_is_given_is_found(n: XmlNodeView, name: Seq<char>, text: Option<Seq<char>>)
    requires
        gives(n, name, text),
    ensures
        attribute_of(n.attributes, name) == text,
{
    attributes_are_found_by_name(n.attributes, name);
    if text is Some && attribute_of(n.attributes, name) is Some {
        let a = choose|i: int| #[trigger]
            first_named(n.attributes, name, i) && n.attributes[i].value == text->0;
        let b = choose|i: int| #[trigger]
            first_named(n.attributes, name, i) && n.attributes[i].value == attribute_of(
                n.attributes,
                name,
            )->0;
        assert(a == b);
    }
}

/// One more entry adds one sample, where both its capacities are more than zero: each figure is
/// the one that its own attribute gives, the health is full charge against design, and a cycle
/// count of zero is none. It counts as a swap where its flag is not zero, sample or not.
pub proof fn an_entry_says_what_its_attributes_give(
    before: Seq<XmlNodeView>,
    n: XmlNodeView,
    texts: Seq<Option<Seq<char>>>,
    design: u64,
    full: u64,
    cycles: u64,
    changed: u64,
)
    requires
        n.is_element,
        n.name == "HistoryEntry"@,
        texts.len() == 6,
        gives(n, "DesignCapacity"@, texts[0]),
        gives(n, "FullChargeCapacity"@, texts[1]),
        gives(n, "CycleCount"@, texts[2]),
        gives(n, "BatteryChanged"@, texts[3]),
        gives(n, "StartDate"@, texts[4]),
        gives(n, "EndDate"@, texts[5]),
        reads_as(texts[0], design),
        reads_as(texts[1], full),
        reads_as(texts[2], cycles),
        reads_as(texts[3], changed),
    ensures
        design > 0 && full > 0 ==> history_in(before.push(n)).samples == history_in(
            before,
        ).samples.push(
            CapacitySampleView {
                period_start: if texts[4] is Some {
                    texts[4]->0
                } else {
                    seq![]
                },
                period_end: if texts[5] is Some {
                    texts[5]->0
                } else {
                    seq![]
                },
                design_capacity_mwh: design,
                full_charge_capacity_mwh: full,
                health: Share { part: full, whole: design },
                cycle_count: if 1 <= cycles <= 4_294_967_295 {
                    Some(cycles as u32)
                } else {
                    None
                },
                battery_changed: changed > 0,
            },
        ),
        design == 0 || full == 0 ==> history_in(before.push(n)).samples == history_in(
            before,
        ).samples,
        history_in(before.push(n)).battery_swap_detected == (history_in(before).battery_swap_detected
            || changed > 0),
{
    let all = before.push(n);
    assert(all.drop_last() == before);
    what_is_given_is_found(n, "DesignCapacity"@, texts[0]);
    what_is_given_is_found(n, "FullChargeCapacity"@, texts[1]);
    what_is_given_is_found(n, "CycleCount"@, texts[2]);
    what_is_given_is_found(n, "BatteryChanged"@, texts[3]);
    what_is_given_is_found(n, "StartDate"@, texts[4]);
    what_is_given_is_found(n, "EndDate"@, texts[5]);
    one_more_node_may_be_a_swap(before, n);
}

proof fn one_more_node_may_be_a_swap(before: Seq<XmlNodeView>, n: XmlNodeView)
    ensures
        swap_in(before.push(n)) == (swap_in(before) || is_entry(n) && records_change(n)),
{
    let all = before.push(n);
    if swap_in(before) {
        let i = choose|i: int|
            0 <= i < before.len() && is_entry(#[trigger] before[i]) && records_change(before[i]);
        assert(all[i] == before[i]);
    }
    if is_entry(n) && records_change(n) {
        assert(all[before.len() as int] == n);
    }
    if swap_in(all) && !swap_in(before) {
        let i = choose|i: int|
            0 <= i < all.len() && is_entry(#[trigger] all[i]) && records_change(all[i]);
        if i < before.len() {
            assert(all[i] == before[i]);
        }
    }
}

/// A node that is no element, or an element of another name, adds nothing to a history; and a
/// document without nodes tells none.
pub proof fn other_nodes_add_nothing(before: Seq<XmlNodeView>, n: XmlNodeView)
    requires
        !n.is_element || n.name != "HistoryEntry"@,
    ensures
        history_in(before.push(n)) == history_in(before),
        history_in(seq![]).samples.len() == 0,
        !history_in(seq![]).battery_swap_detected,
{
    let all = before.push(n);
    assert(all.drop_last() == before);
    one_more_node_may_be_a_swap(before, n);
    a_pack_grows_by_its_samples(before, n);
    assert(latest_pack(all) =~= latest_pack(before));
}

/// A history begins with the health of its first sample and ends with that of its last.
pub proof fn a_history_sums_its_samples_up(nodes: Seq<XmlNodeView>)
    ensures
        ({
            let h = history_in(nodes);
            let n = h.samples.len();
            &&& n > 0 ==> h.health_first.get() == Some(h.samples[0].health)
            &&& n > 0 ==> h.health_last.get() == Some(h.samples[n - 1].health)
            &&& n == 0 ==> h.health_first.is_not_offered() && h.health_last.is_not_offered()
        }),
{
}

/// As long as no entry but the first records a different pack, the trend of a history is that
/// of all its samples.
pub proof fn one_pack_is_fitted_whole(nodes: Seq<XmlNodeView>)
    requires
        forall|i: int|
            1 <= i < nodes.len() ==> !(#[trigger] nodes[i]).is_element || nodes[i].name
                != "HistoryEntry"@ || number_or_zero(nodes[i], "BatteryChanged"@) == 0,
    ensures
        ({
            let h = history_in(nodes);
            let t = samples_trend(h.samples);
            &&& t.0 is None ==> h.degradation_micro_percent_per_year.is_without(
                UnavailableView::QueryFailed("not enough history to establish a trend"@),
            )
            &&& t.0 is Some ==> h.degradation_micro_percent_per_year.get() == Some(t.0->0 as i128)
            &&& h.observation_days == t.1 as u32
        }),
{
    pack_starts_within(nodes);
    the_trend_covers_one_pack(nodes);
    the_latest_pack_is_fitted_whole(nodes);
    if pack_start(nodes) != 0 {
        assert(swap_in(nodes));
        assert(false);
    }
    assert(nodes.skip(0) == nodes);
}

/// An entry that records a different pack starts the trend over: whatever came before it, the
/// rate and the days are those of the document that begins with it.
pub proof fn a_different_pack_starts_over(
    before: Seq<XmlNodeView>,
    swap: XmlNodeView,
    after: Seq<XmlNodeView>,
)
    requires
        swap.is_element,
        swap.name == "HistoryEntry"@,
        number_or_zero(swap, "BatteryChanged"@) > 0,
    ensures
        history_in(before + (seq![swap] + after)).degradation_micro_percent_per_year == history_in(
            seq![swap] + after,
        ).degradation_micro_percent_per_year,
        history_in(before + (seq![swap] + after)).observation_days == history_in(
            seq![swap] + after,
        ).observation_days,
{
    history_before_a_swap_is_ignored(before, seq![swap] + after);
}

proof fn dated_samples_are_points(samples: Seq<CapacitySampleView>)
    requires
        forall|i: int|
            0 <= i < samples.len() ==> rfc3339_seconds((#[trigger] samples[i]).period_start) is Some,
    ensures
        points_of(samples) == Seq::new(
            samples.len(),
            |i: int|
                (
                    rfc3339_seconds(samples[i].period_start)->0 as int,
                    samples[i].health.micro_percent() as int,
                ),
        ),
    decreases samples.len(),
{
    if samples.len() > 0 {
        let head = samples.drop_last();
        assert forall|i: int| 0 <= i < head.len() implies rfc3339_seconds(
            (#[trigger] head[i]).period_start,
        ) is Some by {
            assert(head[i] == samples[i]);
        }
        dated_samples_are_points(head);
        assert(samples.last() == samples[samples.len() - 1]);
    }
}

/// The samples of one pack are fitted by the time at which each period begins, and by the
/// health that it records.
pub proof fn samples_are_placed_by_their_start(samples: Seq<CapacitySampleView>)
    requires
        forall|i: int|
            0 <= i < samples.len() ==> rfc3339_seconds((#[trigger] samples[i]).period_start) is Some,
        forall|i: int| 1 <= i < samples.len() ==> !(#[trigger] samples[i]).battery_changed,
    ensures
        samples_trend(samples) == fit(
            Seq::new(
                samples.len(),
                |i: int|
                    (
                        rfc3339_seconds(samples[i].period_start)->0 as int,
                        samples[i].health.micro_percent() as int,
                    ),
            ),
        ),
{
    no_later_change(samples);
    assert(samples.skip(0) == samples);
    dated_samples_are_points(samples);
}

proof fn points_join(a: Seq<CapacitySampleView>, b: Seq<CapacitySampleView>)
    ensures
        points_of(a + b) == points_of(a) + points_of(b),
    decreases b.len(),
{
    if b.len() > 0 {
        assert((a + b).last() == b.last());
        assert((a + b).drop_last() == a + b.drop_last());
        points_join(a, b.drop_last());
        assert(points_of(a + b) =~= points_of(a) + points_of(b));
    } else {
        assert(a + b == a);
        assert(points_of(a + b) =~= points_of(a) + points_of(b));
    }
}

/// A sample whose start cannot be read as a time has no place in the fit: without it the
/// samples of the pack give the same rate and the same days.
pub proof fn undated_samples_are_left_out(
    before: Seq<CapacitySampleView>,
    s: CapacitySampleView,
    after: Seq<CapacitySampleView>,
)
    requires
        rfc3339_seconds(s.period_start) is None,
        !s.battery_changed,
        forall|i: int| 1 <= i < before.len() ==> !(#[trigger] before[i]).battery_changed,
        forall|i: int| 0 <= i < after.len() ==> !(#[trigger] after[i]).battery_changed,
    ensures
        samples_trend(before.push(s) + after) == samples_trend(before + after),
{
    let with = before.push(s) + after;
    let without = before + after;
    no_later_change(with);
    no_later_change(without);
    assert(with.skip(0) == with);
    assert(without.skip(0) == without);
    points_join(before.push(s), after);
    points_join(before, after);
    assert(before.push(s).drop_last() == before);
}

/// Sum of the squared distances in time between a point and each of the others.
pub open spec fn squares_with(points: Seq<(int, int)>, p: (int, int)) -> int
    decreases points.len(),
{
    if points.len() == 0 {
        0
    } else {
        squares_with(points.drop_last(), p) + (p.0 - points.last().0) * (p.0 - points.last().0)
    }
}

/// Sum of the products of the distances in time and in health between a point and each of the
/// others.
pub open spec fn products_with(points: Seq<(int, int)>, p: (int, int)) -> int
    decreases points.len(),
{
    if points.len() == 0 {
        0
    } else {
        products_with(points.drop_last(), p) + (p.0 - points.last().0) * (p.1 - points.last().1)
    }
}

/// Sum of the squared distances in time over every pair of points.
pub open spec fn squares_of_pairs(points: Seq<(int, int)>) -> int
    decreases points.len(),
{
    if points.len() == 0 {
        0
    } else {
        squares_of_pairs(points.drop_last()) + squares_with(points.drop_last(), points.last())
    }
}

/// Sum of the products of the distances in time and in health over every pair of points.
pub open spec fn products_of_pairs(points: Seq<(int, int)>) -> int
    decreases points.len(),
{
    if points.len() == 0 {
        0
    } else {
        products_of_pairs(points.drop_last()) + products_with(points.drop_last(), points.last())
    }
}

proof fn distances_with_one_point(points: Seq<(int, int)>, t0: int, p: (int, int))
    ensures
        squares_with(points, p) == sum_sq_dist(points, t0, p.0 - t0),
        products_with(points, p) == sum_cross(points, t0, p.0 - t0, p.1),
    decreases points.len(),
{
    if points.len() > 0 {
        distances_with_one_point(points.drop_last(), t0, p);
        let q = points.last();
        let d = q.0 - t0 - (p.0 - t0);
        assert(d == -(p.0 - q.0));
        assert((p.0 - q.0) * (p.0 - q.0) == d * d) by (nonlinear_arith)
            requires
                d == -(p.0 - q.0),
        ;
        assert((p.0 - q.0) * (p.1 - q.1) == d * (q.1 - p.1)) by (nonlinear_arith)
            requires
                d == -(p.0 - q.0),
        ;
    }
}

proof fn the_slope_is_made_of_pairs(points: Seq<(int, int)>, t0: int)
    ensures
        products_of_pairs(points) == points.len() * sum_xy(points, t0) - sum_x(points, t0) * sum_y(
            points,
        ),
        squares_of_pairs(points) == points.len() * sum_xx(points, t0) - sum_x(points, t0) * sum_x(
            points,
            t0,
        ),
    decreases points.len(),
{
    if points.len() > 0 {
        let head = points.drop_last();
        the_slope_is_made_of_pairs(head, t0);
        let x = points.last().0 - t0;
        let y = points.last().1;
        distances_with_one_point(head, t0, points.last());
        sum_cross_expands(head, t0, x, y);
        sum_sq_dist_expands(head, t0, x);
        let n = head.len() as int;
        let sx = sum_x(head, t0);
        let sy = sum_y(head);
        let sxy = sum_xy(head, t0);
        let sxx = sum_xx(head, t0);
        one_more_point_in_the_numerator(n, sx, sy, sxy, x, y);
        one_more_point_in_the_denominator(n, sx, sxx, x);
    } else {
        assert(0 * sum_xy(points, t0) == 0 && 0 * sum_xx(points, t0) == 0) by (nonlinear_arith);
    }
}

/// The rate is the least-squares slope. That is the average of the slopes between any two of
/// the points, in which a pair counts by the square of the time between the two; the rate is
/// the whole number of millionths of a percent per year, of 365.25 days, nearest to it.
pub proof fn the_rate_is_the_least_squares_slope(points: Seq<(int, int)>)
    requires
        points.len() >= 2,
        points.last().0 - points[0].0 >= 2_376_000,
    ensures
        squares_of_pairs(points) > 0,
        fit(points).0 matches Some(rate) && -squares_of_pairs(points) <= 2 * (rate
            * squares_of_pairs(points) - products_of_pairs(points) * 31_557_600)
            <= squares_of_pairs(points),
{
    the_slope_is_made_of_pairs(points, points[0].0);
    a_month_of_points_determines_a_slope(points);
    let w = squares_of_pairs(points);
    let num = products_of_pairs(points) * 31_557_600;
    if num < 0 {
        nearest_is_near((-num) as nat, w as nat);
        let q = nearest((-num) as nat, w as nat) as int;
        assert((-q) * w == -(q * w)) by (nonlinear_arith);
    } else {
        nearest_is_near(num as nat, w as nat);
    }
}

/// The days of a fit are the whole number nearest to the time from its first point to its last;
/// a rate needs two points and 28 of them. Points that end before they begin cover no day.
pub proof fn a_fit_covers_the_days_between_its_ends(points: Seq<(int, int)>)
    ensures
        points.len() < 2 ==> fit(points) == (None::<int>, 0int),
        points.len() >= 2 ==> ({
            let seconds = points.last().0 - points[0].0;
            let days = fit(points).1;
            &&& fit(points).0 is Some <==> seconds >= 2_376_000
            &&& seconds <= 0 ==> days == 0
            &&& 0 < seconds < 371_085_174_331_200 ==> -86_400 <= 2 * (days * 86_400
                - seconds) <= 86_400
            &&& seconds >= 371_085_174_331_200 ==> days == 4_294_967_295
        }),
{
}

/// A report that tells of a sample is a reading, as it is. One that tells of none does not apply
/// to this machine, and a text that is no report at all has failed.
pub proof fn a_history_needs_a_sample(parsed: Option<BatteryHistoryView>)
    ensures
        match parsed {
            Some(h) => if h.samples.len() == 0 {
                reading_of(parsed).is_without(UnavailableView::NotApplicable)
            } else {
                reading_of(parsed).shows(parsed)
            },
            None => reading_of(parsed).is_without(
                UnavailableView::QueryFailed("battery report XML did not parse"@),
            ),
        },
{
}

} // verus!
