//! Core types shared by every probe.
//!
//! Hardware inspection is full of metrics that legitimately do not exist on a given
//! machine. Rendering those as `0` misleads the person deciding whether to hand over
//! money, so no probe returns a bare value: it returns a [`Reading`], which holds
//! either the value or the specific reason it could not be taken.
use vstd::prelude::*;

verus! {

/// Why a metric could not be read.
#[derive(Debug, PartialEq, Eq)]
pub enum Unavailable {
    /// The silicon genuinely does not expose this. Not an error.
    NotSupportedByHardware,
    /// Exists, but the process is not elevated.
    RequiresElevation,
    /// Exists, but the kernel driver or a required module is not loaded.
    DriverMissing(String),
    /// Vendor runtime absent.
    VendorLibraryMissing(String),
    /// The call was made and failed. Carries the OS-level detail.
    QueryFailed(String),
    /// Reported by the source but self-evidently wrong.
    ImplausibleValue(String),
    /// Meaningless in this context (e.g. battery metrics on a desktop).
    NotApplicable,
}

/// The mathematical model of [`Unavailable`].
#[verifier::ext_equal]
pub enum UnavailableView {
    NotSupportedByHardware,
    RequiresElevation,
    DriverMissing(Seq<char>),
    VendorLibraryMissing(Seq<char>),
    QueryFailed(Seq<char>),
    ImplausibleValue(Seq<char>),
    NotApplicable,
}

impl UnavailableView {
    /// The phrase that stands for this reason in a report.
    pub open spec fn describe(self) -> Seq<char> {
        match self {
            UnavailableView::NotSupportedByHardware => "not supported by this hardware"@,
            UnavailableView::RequiresElevation => "requires administrator"@,
            UnavailableView::DriverMissing(m) => "driver not loaded ("@ + m + ")"@,
            UnavailableView::VendorLibraryMissing(l) => "vendor library missing ("@ + l + ")"@,
            UnavailableView::QueryFailed(e) => "query failed: "@ + e,
            UnavailableView::ImplausibleValue(v) => "reported an implausible value ("@ + v + ")"@,
            UnavailableView::NotApplicable => "not applicable"@,
        }
    }
}

impl DeepView for Unavailable {
    type V = UnavailableView;

    open spec fn deep_view(&self) -> UnavailableView {
        match self {
            Unavailable::NotSupportedByHardware => UnavailableView::NotSupportedByHardware,
            Unavailable::RequiresElevation => UnavailableView::RequiresElevation,
            Unavailable::DriverMissing(m) => UnavailableView::DriverMissing(m@),
            Unavailable::VendorLibraryMissing(l) => UnavailableView::VendorLibraryMissing(l@),
            Unavailable::QueryFailed(e) => UnavailableView::QueryFailed(e@),
            Unavailable::ImplausibleValue(v) => UnavailableView::ImplausibleValue(v@),
            Unavailable::NotApplicable => UnavailableView::NotApplicable,
        }
    }
}

impl Clone for Unavailable {
    fn clone(&self) -> (r: Self)
        ensures
            r.deep_view() == self.deep_view(),
    {
        match self {
            Unavailable::NotSupportedByHardware => Unavailable::NotSupportedByHardware,
            Unavailable::RequiresElevation => Unavailable::RequiresElevation,
            Unavailable::DriverMissing(m) => Unavailable::DriverMissing(m.clone()),
            Unavailable::VendorLibraryMissing(l) => Unavailable::VendorLibraryMissing(l.clone()),
            Unavailable::QueryFailed(e) => Unavailable::QueryFailed(e.clone()),
            Unavailable::ImplausibleValue(v) => Unavailable::ImplausibleValue(v.clone()),
            Unavailable::NotApplicable => Unavailable::NotApplicable,
        }
    }
}

impl Unavailable {
    /// Short human-readable phrase for the report.
    pub fn describe(&self) -> (phrase: String)
        ensures
            phrase@ == self.deep_view().describe(),
    {
        match self {
            Unavailable::NotSupportedByHardware => String::from_str("not supported by this hardware"),
            Unavailable::RequiresElevation => String::from_str("requires administrator"),
            Unavailable::DriverMissing(m) => {
                String::from_str("driver not loaded (").concat(m.as_str()).concat(")")
            },
            Unavailable::VendorLibraryMissing(l) => {
                String::from_str("vendor library missing (").concat(l.as_str()).concat(")")
            },
            Unavailable::QueryFailed(e) => String::from_str("query failed: ").concat(e.as_str()),
            Unavailable::ImplausibleValue(v) => {
                String::from_str("reported an implausible value (").concat(v.as_str()).concat(")")
            },
            Unavailable::NotApplicable => String::from_str("not applicable"),
        }
    }
}

/// A metric that may or may not be readable on this machine.
#[derive(Debug, Clone, PartialEq)]
pub enum Reading<T> {
    Value { ok: bool, value: T },
    Missing { ok: bool, reason: Unavailable, note: String },
}

/// The mathematical model of [`Reading`].
#[verifier::ext_equal]
pub enum ReadingView<V> {
    Value { ok: bool, value: V },
    Missing { ok: bool, reason: UnavailableView, note: Seq<char> },
}

impl<V> ReadingView<V> {
    /// A reading that was taken.
    pub open spec fn value(v: V) -> ReadingView<V> {
        ReadingView::Value { ok: true, value: v }
    }

    /// A reading that could not be taken, with the phrase that explains why.
    pub open spec fn missing(reason: UnavailableView) -> ReadingView<V> {
        ReadingView::Missing { ok: false, reason, note: reason.describe() }
    }

    /// A reading that the hardware does not offer.
    pub open spec fn unsupported() -> ReadingView<V> {
        Self::missing(UnavailableView::NotSupportedByHardware)
    }

    /// A reading whose query failed with the given text.
    pub open spec fn failed(e: Seq<char>) -> ReadingView<V> {
        Self::missing(UnavailableView::QueryFailed(e))
    }

    /// A reading from an optional value: nothing means unsupported.
    pub open spec fn from_option(o: Option<V>) -> ReadingView<V> {
        match o {
            Some(v) => Self::value(v),
            None => Self::unsupported(),
        }
    }

    /// The value, where there is one.
    pub open spec fn get(self) -> Option<V> {
        match self {
            ReadingView::Value { value, .. } => Some(value),
            ReadingView::Missing { .. } => None,
        }
    }
}

impl<T: DeepView> DeepView for Reading<T> {
    type V = ReadingView<T::V>;

    open spec fn deep_view(&self) -> ReadingView<T::V> {
        match self {
            Reading::Value { ok, value } => ReadingView::Value { ok: *ok, value: value.deep_view() },
            Reading::Missing { ok, reason, note } => ReadingView::Missing {
                ok: *ok,
                reason: reason.deep_view(),
                note: note@,
            },
        }
    }
}

impl<T> Reading<T> {
    /// This is the reading that holds `v`.
    pub open spec fn holds(self, v: T) -> bool {
        self == (Reading::Value { ok: true, value: v })
    }

    /// This is the reading that lacks a value for `reason`, and its note says so.
    pub open spec fn lacks(self, reason: UnavailableView) -> bool {
        match self {
            Reading::Value { .. } => false,
            Reading::Missing { ok, reason: r, note } => {
                &&& !ok
                &&& r.deep_view() == reason
                &&& note@ == reason.describe()
            },
        }
    }

    pub fn value(v: T) -> (r: Self)
        ensures
            r.holds(v),
    {
        Reading::Value { ok: true, value: v }
    }

    pub fn missing(reason: Unavailable) -> (r: Self)
        ensures
            r.lacks(reason.deep_view()),
    {
        let note = reason.describe();
        Reading::Missing { ok: false, reason, note }
    }

    pub fn unsupported() -> (r: Self)
        ensures
            r.lacks(UnavailableView::NotSupportedByHardware),
    {
        Self::missing(Unavailable::NotSupportedByHardware)
    }

    /// A reading whose query failed; `e` is the text of the error.
    pub fn failed(e: String) -> (r: Self)
        ensures
            r.lacks(UnavailableView::QueryFailed(e@)),
    {
        Self::missing(Unavailable::QueryFailed(e))
    }

    pub fn get(&self) -> (v: Option<&T>)
        ensures
            match *self {
                Reading::Value { value, .. } => v == Some(&value),
                Reading::Missing { .. } => v is None,
            },
    {
        match self {
            Reading::Value { value, .. } => Some(value),
            Reading::Missing { .. } => None,
        }
    }

    pub fn is_ok(&self) -> (b: bool)
        ensures
            b == (*self is Value),
    {
        matches!(self, Reading::Value { .. })
    }

    /// Apply `f` to the value of a reading; a missing reading keeps its reason and note.
    pub fn map<U, F: FnOnce(T) -> U>(self, f: F) -> (r: Reading<U>)
        requires
            self matches Reading::Value { value, .. } ==> call_requires(f, (value,)),
        ensures
            match self {
                Reading::Value { value, .. } => r matches Reading::Value { ok, value: mapped } && ok
                    && call_ensures(f, (value,), mapped),
                Reading::Missing { reason, note, .. } => r == (Reading::<U>::Missing {
                    ok: false,
                    reason,
                    note,
                }),
            },
    {
        match self {
            Reading::Value { value, .. } => Reading::value(f(value)),
            Reading::Missing { reason, note, .. } => Reading::Missing { ok: false, reason, note },
        }
    }
}

impl<T> vstd::std_specs::convert::FromSpecImpl<Option<T>> for Reading<T> {
    open spec fn obeys_from_spec() -> bool {
        false
    }

    open spec fn from_spec(o: Option<T>) -> Self {
        arbitrary()
    }
}

impl<T> From<Option<T>> for Reading<T> {
    /// `None` means the hardware did not offer it. Use [`Reading::failed`] when a call
    /// actually errored: the distinction matters to the person reading the report.
    fn from(o: Option<T>) -> (r: Self)
        ensures
            match o {
                Some(v) => r.holds(v),
                None => r.lacks(UnavailableView::NotSupportedByHardware),
            },
    {
        match o {
            Some(v) => Reading::value(v),
            None => Reading::unsupported(),
        }
    }
}

impl<T> vstd::std_specs::convert::FromSpecImpl<Result<T, String>> for Reading<T> {
    open spec fn obeys_from_spec() -> bool {
        false
    }

    open spec fn from_spec(o: Result<T, String>) -> Self {
        arbitrary()
    }
}

impl<T> From<Result<T, String>> for Reading<T> {
    /// Treat a `Result` as a reading, recording the error text on failure.
    fn from(o: Result<T, String>) -> (r: Self)
        ensures
            match o {
                Ok(v) => r.holds(v),
                Err(e) => r.lacks(UnavailableView::QueryFailed(e@)),
            },
    {
        match o {
            Ok(v) => Reading::value(v),
            Err(e) => Reading::failed(e),
        }
    }
}

/// How seriously a buyer should take a finding.
#[derive(Debug, Clone, Copy, PartialEq, Eq, PartialOrd, Ord, Structural)]
pub enum Severity {
    /// Nothing to negotiate over.
    Fine,
    /// Worth knowing and worth mentioning, but not disqualifying.
    Watch,
    /// A real defect with a cost attached.
    Problem,
    /// Walk away, or do not proceed until resolved.
    Critical,
}

impl Severity {
    /// The position of a severity in the order from harmless to worst.
    pub open spec fn level(self) -> int {
        match self {
            Severity::Fine => 0,
            Severity::Watch => 1,
            Severity::Problem => 2,
            Severity::Critical => 3,
        }
    }

    /// Rank of this severity, for ordering a report.
    pub fn rank(self) -> (n: u8)
        ensures
            n == self.level(),
    {
        match self {
            Severity::Fine => 0,
            Severity::Watch => 1,
            Severity::Problem => 2,
            Severity::Critical => 3,
        }
    }
}

/// How much the threshold behind a finding can be trusted.
#[derive(Debug, Clone, Copy, PartialEq, Eq, Structural)]
pub enum Confidence {
    /// Compared against a manufacturer-guaranteed figure.
    SpecGrounded,
    /// Compared against a cohort of real runs on this laptop model.
    CohortGrounded,
    /// Inferred from behaviour without an authoritative threshold.
    Heuristic,
}

/// One conclusion in the report: what was measured, what it was compared against, and
/// where that comparison value came from.
#[derive(Debug, Clone)]
pub struct Finding {
    pub id: String,
    pub title: String,
    pub severity: Severity,
    pub confidence: Confidence,
    /// What was actually measured, phrased for a human.
    pub observed: String,
    /// The threshold or reference it was judged against.
    pub expected: String,
    /// Where `expected` came from.
    pub basis: String,
    /// What the buyer should do about it.
    pub recommendation: String,
    /// Rough remediation cost in USD, when it is a known repair.
    pub estimated_cost_usd: Option<u32>,
}

/// The mathematical model of [`Finding`].
#[verifier::ext_equal]
pub struct FindingView {
    pub id: Seq<char>,
    pub title: Seq<char>,
    pub severity: Severity,
    pub confidence: Confidence,
    pub observed: Seq<char>,
    pub expected: Seq<char>,
    pub basis: Seq<char>,
    pub recommendation: Seq<char>,
    pub estimated_cost_usd: Option<u32>,
}

impl DeepView for Finding {
    type V = FindingView;

    open spec fn deep_view(&self) -> FindingView {
        FindingView {
            id: self.id@,
            title: self.title@,
            severity: self.severity,
            confidence: self.confidence,
            observed: self.observed@,
            expected: self.expected@,
            basis: self.basis@,
            recommendation: self.recommendation@,
            estimated_cost_usd: self.estimated_cost_usd,
        }
    }
}

impl Finding {
    /// A finding with its headline; the texts that justify it are added one by one.
    pub fn new(id: &str, title: &str, severity: Severity, confidence: Confidence) -> (f: Self)
        ensures
            f.deep_view() == (FindingView {
                id: id@,
                title: title@,
                severity,
                confidence,
                observed: seq![],
                expected: seq![],
                basis: seq![],
                recommendation: seq![],
                estimated_cost_usd: None,
            }),
    {
        Finding {
            id: String::from_str(id),
            title: String::from_str(title),
            severity,
            confidence,
            observed: String::new(),
            expected: String::new(),
            basis: String::new(),
            recommendation: String::new(),
            estimated_cost_usd: None,
        }
    }

    pub fn observed(self, s: &str) -> (f: Self)
        ensures
            f.deep_view() == (FindingView { observed: s@, ..self.deep_view() }),
    {
        Finding { observed: String::from_str(s), ..self }
    }

    pub fn expected(self, s: &str) -> (f: Self)
        ensures
            f.deep_view() == (FindingView { expected: s@, ..self.deep_view() }),
    {
        Finding { expected: String::from_str(s), ..self }
    }

    pub fn basis(self, s: &str) -> (f: Self)
        ensures
            f.deep_view() == (FindingView { basis: s@, ..self.deep_view() }),
    {
        Finding { basis: String::from_str(s), ..self }
    }

    pub fn recommend(self, s: &str) -> (f: Self)
        ensures
            f.deep_view() == (FindingView { recommendation: s@, ..self.deep_view() }),
    {
        Finding { recommendation: String::from_str(s), ..self }
    }

    pub fn cost(self, usd: u32) -> (f: Self)
        ensures
            f.deep_view() == (FindingView { estimated_cost_usd: Some(usd), ..self.deep_view() }),
    {
        Finding { estimated_cost_usd: Some(usd), ..self }
    }
}

// ---------------------------------------------------------------------------
// Laws
// ---------------------------------------------------------------------------

impl<V> ReadingView<V> {
    /// There is no value, and this is the reason; the note puts it in words.
    pub open spec fn is_without(self, why: UnavailableView) -> bool {
        match self {
            ReadingView::Value { .. } => false,
            ReadingView::Missing { ok, reason, note } => !ok && reason == why && note
                == why.describe(),
        }
    }

    /// The reading shows this value, where there is one, and else that none is offered.
    pub open spec fn shows(self, value: Option<V>) -> bool {
        match value {
            Some(v) => self matches ReadingView::Value { ok, value } && ok && value == v,
            None => self.is_not_offered(),
        }
    }

    /// There is no value, because the hardware offers none.
    pub open spec fn is_not_offered(self) -> bool {
        self.is_without(UnavailableView::NotSupportedByHardware)
    }
}

/// A reading is marked as taken exactly where it has a value. Where it has none it keeps the
/// reason, with the words for it: a value that the hardware does not offer is one thing, and a
/// query that failed, with its error, is another.
pub proof fn readings_say_whether_they_were_taken<V>(v: V, why: UnavailableView, e: Seq<char>)
    ensures
        ReadingView::value(v) matches ReadingView::Value { ok, value } && ok && value == v,
        ReadingView::value(v).get() == Some(v),
        ReadingView::<V>::missing(why).is_without(why),
        ReadingView::<V>::missing(why).get() is None,
        ReadingView::<V>::unsupported().is_not_offered(),
        ReadingView::<V>::failed(e).is_without(UnavailableView::QueryFailed(e)),
        ReadingView::from_option(Some(v)).shows(Some(v)),
        ReadingView::<V>::from_option(None).shows(None),
{
}

/// The words for a reason name its detail, and every reason has words of its own.
pub proof fn reasons_are_told_apart(a: UnavailableView, b: UnavailableView)
    ensures
        a.describe() == b.describe() ==> a == b,
        a matches UnavailableView::DriverMissing(m) ==> a.describe() == "driver not loaded ("@ + m
            + ")"@,
        a matches UnavailableView::VendorLibraryMissing(l) ==> a.describe()
            == "vendor library missing ("@ + l + ")"@,
        a matches UnavailableView::QueryFailed(e) ==> a.describe() == "query failed: "@ + e,
        a matches UnavailableView::ImplausibleValue(v) ==> a.describe()
            == "reported an implausible value ("@ + v + ")"@,
{
    reveal_strlit("not supported by this hardware");
    reveal_strlit("requires administrator");
    reveal_strlit("driver not loaded (");
    reveal_strlit("vendor library missing (");
    reveal_strlit("query failed: ");
    reveal_strlit("reported an implausible value (");
    reveal_strlit("not applicable");
    reveal_strlit(")");
    reason_begins(a);
    reason_begins(b);
    if a.describe() == b.describe() {
        let x = a.describe();
        let n = x.len() as int;
        match (a, b) {
            (UnavailableView::DriverMissing(m), UnavailableView::DriverMissing(k)) => {
                assert(m =~= x.subrange(19, n - 1));
                assert(k =~= x.subrange(19, n - 1));
            },
            (UnavailableView::VendorLibraryMissing(m), UnavailableView::VendorLibraryMissing(k)) => {
                assert(m =~= x.subrange(24, n - 1));
                assert(k =~= x.subrange(24, n - 1));
            },
            (UnavailableView::QueryFailed(m), UnavailableView::QueryFailed(k)) => {
                assert(m =~= x.subrange(14, n));
                assert(k =~= x.subrange(14, n));
            },
            (UnavailableView::ImplausibleValue(m), UnavailableView::ImplausibleValue(k)) => {
                assert(m =~= x.subrange(31, n - 1));
                assert(k =~= x.subrange(31, n - 1));
            },
            _ => {},
        }
    }
}

proof fn reason_begins(a: UnavailableView)
    ensures
        ({
            let x = a.describe();
            &&& x.len() >= 14
            &&& x[0] == match a {
                UnavailableView::NotSupportedByHardware => 'n',
                UnavailableView::RequiresElevation => 'r',
                UnavailableView::DriverMissing(_) => 'd',
                UnavailableView::VendorLibraryMissing(_) => 'v',
                UnavailableView::QueryFailed(_) => 'q',
                UnavailableView::ImplausibleValue(_) => 'r',
                UnavailableView::NotApplicable => 'n',
            }
            &&& a is NotSupportedByHardware ==> x[4] == 's'
            &&& a is NotApplicable ==> x[4] == 'a'
            &&& a is RequiresElevation ==> x[2] == 'q'
            &&& a is ImplausibleValue ==> x[2] == 'p'
        }),
{
    reveal_strlit("not supported by this hardware");
    reveal_strlit("requires administrator");
    reveal_strlit("driver not loaded (");
    reveal_strlit("vendor library missing (");
    reveal_strlit("query failed: ");
    reveal_strlit("reported an implausible value (");
    reveal_strlit("not applicable");
}

/// Severities rank from harmless to worst: nothing, worth watching, a problem, critical.
pub proof fn severities_rank_from_harmless_to_worst()
    ensures
        Severity::Fine.level() < Severity::Watch.level(),
        Severity::Watch.level() < Severity::Problem.level(),
        Severity::Problem.level() < Severity::Critical.level(),
{
}

} // verus!
