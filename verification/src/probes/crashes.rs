//! Crash and hardware-error history.
//!
//! This is the part of a machine's past a seller cannot tidy up by wiping the desktop. Two
//! independent sources: the minidumps that each blue screen leaves behind, and the hardware
//! errors in the system's event log.
use vstd::prelude::*;

use crate::clock::{format_rfc3339, rfc3339_text, Timestamp};
use crate::model::{Reading, ReadingView, Unavailable, UnavailableView};
use crate::text::number::{dec, number_of, parse_u64, push_dec};
use crate::text::{
    ascii_lower, chars_of, containing_is_standing_somewhere, contains_text, eq_text, find,
    find_after, find_from, find_text, found_where_it_stands_first_from, nowhere_from, slice_of,
    stands_at, stands_first_from, string_of, to_ascii_lower, trim, trimmed,
};
use crate::win::wide::{before_nul, read_units, units_of, utf16_text};
use crate::win::{error_text, wide_to_string, WinError};

verus! {

#[derive(Debug, Clone)]
pub struct CrashEvent {
    /// ISO-8601 UTC.
    pub timestamp: String,
    pub source: String,
    pub event_id: u32,
    pub level: String,
}

/// The mathematical model of [`CrashEvent`].
#[verifier::ext_equal]
pub struct CrashEventView {
    pub timestamp: Seq<char>,
    pub source: Seq<char>,
    pub event_id: u32,
    pub level: Seq<char>,
}

impl DeepView for CrashEvent {
    type V = CrashEventView;

    open spec fn deep_view(&self) -> CrashEventView {
        CrashEventView {
            timestamp: self.timestamp@,
            source: self.source@,
            event_id: self.event_id,
            level: self.level@,
        }
    }
}

#[derive(Debug, Clone)]
pub struct CrashHistory {
    /// One per blue screen, from the minidump directory.
    pub minidump_count: usize,
    pub most_recent_minidump: Reading<String>,
    /// Minidumps written in the last 30 days: recent instability, not ancient history.
    pub minidumps_last_30_days: usize,
    /// A full kernel dump is present.
    pub full_memory_dump_present: bool,
    /// Hardware errors from the WHEA-Logger provider.
    pub whea_events: Reading<Vec<CrashEvent>>,
    /// WHEA entries logged as errors, critical ones among them, rather than
    /// warnings/informational.
    pub whea_uncorrected_count: usize,
    /// Kernel-Power event 41: the machine lost power or halted without a clean shutdown. A
    /// high count points at a failing PSU, battery, or overheating.
    pub unexpected_shutdowns: Reading<Vec<CrashEvent>>,
}

/// The mathematical model of [`CrashHistory`].
#[verifier::ext_equal]
pub struct CrashHistoryView {
    pub minidump_count: nat,
    pub most_recent_minidump: ReadingView<Seq<char>>,
    pub minidumps_last_30_days: nat,
    pub full_memory_dump_present: bool,
    pub whea_events: ReadingView<Seq<CrashEventView>>,
    pub whea_uncorrected_count: nat,
    pub unexpected_shutdowns: ReadingView<Seq<CrashEventView>>,
}

impl DeepView for CrashHistory {
    type V = CrashHistoryView;

    open spec fn deep_view(&self) -> CrashHistoryView {
        CrashHistoryView {
            minidump_count: self.minidump_count as nat,
            most_recent_minidump: self.most_recent_minidump.deep_view(),
            minidumps_last_30_days: self.minidumps_last_30_days as nat,
            full_memory_dump_present: self.full_memory_dump_present,
            whea_events: self.whea_events.deep_view(),
            whea_uncorrected_count: self.whea_uncorrected_count as nat,
            unexpected_shutdowns: self.unexpected_shutdowns.deep_view(),
        }
    }
}

// ---------------------------------------------------------------------------
// Minidumps
// ---------------------------------------------------------------------------

/// Where minidumps are written.
pub const MINIDUMP_DIRECTORY: &'static str = "C:\\Windows\\Minidump";

/// Where a full kernel dump is written.
pub const FULL_MEMORY_DUMP: &'static str = "C:\\Windows\\MEMORY.DMP";

/// The provider of hardware errors.
pub const WHEA_PROVIDER: &'static str = "Microsoft-Windows-WHEA-Logger";

/// The provider of power transitions.
pub const KERNEL_POWER_PROVIDER: &'static str = "Microsoft-Windows-Kernel-Power";

/// The event of [`KERNEL_POWER_PROVIDER`] for a halt without a clean shutdown.
pub const UNEXPECTED_SHUTDOWN_EVENT: u32 = 41;

/// A file in the minidump directory: its extension, where it has one, and when it was last
/// modified, where that could be read.
#[derive(Debug, Clone)]
pub struct DumpFile {
    pub extension: Option<String>,
    pub modified: Option<Timestamp>,
}

/// The mathematical model of [`DumpFile`].
#[verifier::ext_equal]
pub struct DumpFileView {
    pub extension: Option<Seq<char>>,
    pub modified: Option<Timestamp>,
}

impl DeepView for DumpFile {
    type V = DumpFileView;

    open spec fn deep_view(&self) -> DumpFileView {
        DumpFileView { extension: self.extension.deep_view(), modified: self.modified }
    }
}

/// The file is a dump, by its extension in any case.
pub open spec fn is_dump(f: DumpFileView) -> bool {
    f.extension matches Some(e) && ascii_lower(e) == "dmp"@
}

/// Thirty days, in nanoseconds.
pub const THIRTY_DAYS_NANOS: i128 = 2_592_000_000_000_000;

/// The file is a dump written within the last 30 days.
pub open spec fn is_recent_dump(f: DumpFileView, now: Timestamp) -> bool {
    is_dump(f) && (f.modified matches Some(m) && 0 <= now.total_nanos() - m.total_nanos()
        < THIRTY_DAYS_NANOS)
}

/// The number of dumps.
pub open spec fn dump_count(files: Seq<DumpFileView>) -> nat
    decreases files.len(),
{
    if files.len() == 0 {
        0
    } else {
        dump_count(files.drop_last()) + if is_dump(files.last()) {
            1nat
        } else {
            0nat
        }
    }
}

/// The number of recent dumps.
pub open spec fn recent_count(files: Seq<DumpFileView>, now: Timestamp) -> nat
    decreases files.len(),
{
    if files.len() == 0 {
        0
    } else {
        recent_count(files.drop_last(), now) + if is_recent_dump(files.last(), now) {
            1nat
        } else {
            0nat
        }
    }
}

/// When the newest dump was written.
pub open spec fn newest_dump(files: Seq<DumpFileView>) -> Option<Timestamp>
    decreases files.len(),
{
    if files.len() == 0 {
        None
    } else {
        let before = newest_dump(files.drop_last());
        match files.last().modified {
            Some(m) => if !is_dump(files.last()) || (before matches Some(b) && m.total_nanos()
                <= b.total_nanos()) {
                before
            } else {
                Some(m)
            },
            None => before,
        }
    }
}

/// When the newest dump was written, as text.
pub open spec fn newest_text(files: Seq<DumpFileView>) -> Option<Seq<char>> {
    match newest_dump(files) {
        Some(t) => rfc3339_text(t.seconds, t.nanos),
        None => None,
    }
}

/// Count minidumps, find the newest, and count those within 30 days.
pub fn scan_minidumps(files: &[DumpFile], now: Timestamp) -> (r: (usize, Option<Timestamp>, usize))
    ensures
        r.0 == dump_count(files.deep_view()),
        r.1 == newest_dump(files.deep_view()),
        r.2 == recent_count(files.deep_view(), now),
        r.2 <= r.0,
{
    let ghost all = files.deep_view();
    let mut count: usize = 0;
    let mut recent: usize = 0;
    let mut newest: Option<Timestamp> = None;
    let mut i: usize = 0;
    while i < files.len()
        invariant
            i <= files.len(),
            all == files.deep_view(),
            count == dump_count(all.take(i as int)),
            newest == newest_dump(all.take(i as int)),
            recent == recent_count(all.take(i as int), now),
            recent <= count <= i,
        decreases files.len() - i,
    {
        assert(all.take(i + 1).drop_last() == all.take(i as int));
        assert(all.take(i + 1).last() == files@[i as int].deep_view());
        let dump = match &files[i].extension {
            Some(e) => {
                let lower = to_ascii_lower(e.as_str());
                eq_text(lower.as_str(), "dmp")
            },
            None => false,
        };
        if dump {
            count += 1;
            if let Some(m) = files[i].modified {
                let age: i128 = now.in_nanos() - m.in_nanos();
                if 0 <= age && age < THIRTY_DAYS_NANOS {
                    recent += 1;
                }
                let newer = match newest {
                    Some(n) => m.in_nanos() > n.in_nanos(),
                    None => true,
                };
                if newer {
                    newest = Some(m);
                }
            }
        }
        i += 1;
    }
    assert(all.take(all.len() as int) == all);
    (count, newest, recent)
}

// ---------------------------------------------------------------------------
// Events
// ---------------------------------------------------------------------------

/// Cap on events pulled back. A machine with thousands of corrected errors is already
/// conclusively diagnosed by the first few hundred.
pub const MAX_EVENTS: usize = 200;

/// The XPath query for one provider, optionally narrowed to an event ID.
pub open spec fn query_text(provider: Seq<char>, event_id: Option<u32>) -> Seq<char> {
    match event_id {
        Some(id) => "*[System[Provider[@Name='"@ + provider + "'] and (EventID="@ + dec(id as nat)
            + ")]]"@,
        None => "*[System[Provider[@Name='"@ + provider + "']]]"@,
    }
}

/// Build an XPath event query for one provider, optionally narrowed to an event ID.
pub fn build_query(provider: &str, event_id: Option<u32>) -> (s: String)
    ensures
        s@ == query_text(provider@, event_id),
{
    let mut s = String::from_str("*[System[Provider[@Name='");
    s.append(provider);
    match event_id {
        Some(id) => {
            s.append("'] and (EventID=");
            push_dec(&mut s, id as u128);
            s.append(")]]");
        },
        None => {
            s.append("']]]");
        },
    }
    s
}

/// The text of the first element with a tag: from the end of its opening tag up to the next
/// closing tag, without the white space around it.
pub open spec fn element_text(xml: Seq<char>, tag: Seq<char>) -> Option<Seq<char>> {
    match find_text(xml, "<"@ + tag) {
        None => None,
        Some(start) => match find_from(xml, ">"@, start) {
            None => None,
            Some(gt) => match find_from(xml, "</"@ + tag + ">"@, gt + 1) {
                None => None,
                Some(end) => Some(trimmed(xml.subrange(gt + 1, end))),
            },
        },
    }
}

/// The value between `quote` marks after the first `needle` in an opening tag.
pub open spec fn quoted_value(element: Seq<char>, needle: Seq<char>, quote: Seq<char>) -> Option<
    Seq<char>,
> {
    match find_text(element, needle) {
        None => None,
        Some(at) => match find_from(element, quote, at + needle.len()) {
            None => None,
            Some(end) => Some(element.subrange(at + needle.len(), end)),
        },
    }
}

/// The value of an attribute of the first element with a tag, in single quotes where there
/// are any, else in double quotes.
pub open spec fn attribute_text(xml: Seq<char>, tag: Seq<char>, attribute: Seq<char>) -> Option<
    Seq<char>,
> {
    match find_text(xml, "<"@ + tag) {
        None => None,
        Some(start) => match find_from(xml, ">"@, start) {
            None => None,
            Some(end) => {
                let element = xml.subrange(start, end);
                if contains_text(element, attribute + "='"@) {
                    quoted_value(element, attribute + "='"@, "'"@)
                } else {
                    quoted_value(element, attribute + "=\""@, "\""@)
                }
            },
        },
    }
}

/// The name of an event level.
pub open spec fn level_text(raw: Seq<char>) -> Seq<char> {
    if raw == "1"@ {
        "Critical"@
    } else if raw == "2"@ {
        "Error"@
    } else if raw == "3"@ {
        "Warning"@
    } else if raw == "4"@ {
        "Information"@
    } else {
        raw
    }
}

/// The event that a rendered document describes; none where it has no time stamp.
pub open spec fn event_of(xml: Seq<char>) -> Option<CrashEventView> {
    match attribute_text(xml, "TimeCreated"@, "SystemTime"@) {
        None => None,
        Some(timestamp) => Some(
            CrashEventView {
                timestamp,
                source: match attribute_text(xml, "Provider"@, "Name"@) {
                    Some(s) => s,
                    None => "Microsoft-Windows-WHEA-Logger"@,
                },
                event_id: match element_text(xml, "EventID"@) {
                    Some(t) => match number_of(t) {
                        Some(n) => if n <= u32::MAX {
                            n as u32
                        } else {
                            0
                        },
                        None => 0,
                    },
                    None => 0,
                },
                level: level_text(
                    match element_text(xml, "Level"@) {
                        Some(l) => l,
                        None => "Unknown"@,
                    },
                ),
            },
        ),
    }
}

/// Windows event levels: 1 Critical, 2 Error, 3 Warning, 4 Information.
pub fn level_name(raw: &str) -> (r: String)
    ensures
        r@ == level_text(raw@),
{
    if eq_text(raw, "1") {
        String::from_str("Critical")
    } else if eq_text(raw, "2") {
        String::from_str("Error")
    } else if eq_text(raw, "3") {
        String::from_str("Warning")
    } else if eq_text(raw, "4") {
        String::from_str("Information")
    } else {
        String::from_str(raw)
    }
}

/// The characters of three texts, one after another.
fn joined(a: &str, b: &str, c: &str) -> (r: Vec<char>)
    ensures
        r@ == a@ + b@ + c@,
{
    let s = String::from_str(a).concat(b).concat(c);
    chars_of(s.as_str())
}

/// The characters of two texts, one after another.
fn joined2(a: &str, b: &str) -> (r: Vec<char>)
    ensures
        r@ == a@ + b@,
{
    let s = String::from_str(a).concat(b);
    chars_of(s.as_str())
}

proof fn one_char_literals()
    ensures
        ">"@.len() == 1,
        "'"@.len() == 1,
        "\""@.len() == 1,
{
    reveal_strlit(">");
    reveal_strlit("'");
    reveal_strlit("\"");
}

fn extract_element(xml: &Vec<char>, tag: &str) -> (r: Option<String>)
    ensures
        r.deep_view() == element_text(xml@, tag@),
{
    proof {
        one_char_literals();
        crate::text::find_from_is_first(xml@, "<"@ + tag@, 0);
    }
    let open = joined2("<", tag);
    let start = match find(xml.as_slice(), open.as_slice()) {
        Some(i) => i,
        None => return None,
    };
    proof {
        crate::text::find_from_is_first(xml@, ">"@, start as int);
    }
    let gt = match find_after(xml.as_slice(), chars_of(">").as_slice(), start) {
        Some(i) => i,
        None => return None,
    };
    assert(gt + 1 <= xml.len());
    proof {
        crate::text::find_from_is_first(xml@, "</"@ + tag@ + ">"@, gt + 1);
    }
    let close = joined("</", tag, ">");
    let end = match find_after(xml.as_slice(), close.as_slice(), gt + 1) {
        Some(i) => i,
        None => return None,
    };
    let inner = string_of(slice_of(xml, gt + 1, end));
    Some(trim(inner.as_str()))
}

fn extract_quoted(element: &Vec<char>, needle: &Vec<char>, quote: &str) -> (r: Option<String>)
    ensures
        r.deep_view() == quoted_value(element@, needle@, quote@),
{
    proof {
        crate::text::find_from_is_first(element@, needle@, 0);
    }
    let at = match find(element.as_slice(), needle.as_slice()) {
        Some(i) => i,
        None => return None,
    };
    assert(at + needle.len() <= element.len());
    let value_start = at + needle.len();
    proof {
        crate::text::find_from_is_first(element@, quote@, value_start as int);
    }
    let end = match find_after(element.as_slice(), chars_of(quote).as_slice(), value_start) {
        Some(i) => i,
        None => return None,
    };
    Some(string_of(slice_of(element, value_start, end)))
}

fn extract_attribute(xml: &Vec<char>, tag: &str, attribute: &str) -> (r: Option<String>)
    ensures
        r.deep_view() == attribute_text(xml@, tag@, attribute@),
{
    proof {
        one_char_literals();
        crate::text::find_from_is_first(xml@, "<"@ + tag@, 0);
    }
    let open = joined2("<", tag);
    let start = match find(xml.as_slice(), open.as_slice()) {
        Some(i) => i,
        None => return None,
    };
    proof {
        crate::text::find_from_is_first(xml@, ">"@, start as int);
    }
    let end = match find_after(xml.as_slice(), chars_of(">").as_slice(), start) {
        Some(i) => i,
        None => return None,
    };
    let element = vstd::slice::slice_to_vec(slice_of(xml, start, end));
    let single = joined2(attribute, "='");
    let found = find(element.as_slice(), single.as_slice());
    proof {
        crate::text::find_from_is_first(element@, single@, 0);
        if found is None {
            assert forall|j: int| !crate::text::occurs_at(element@, single@, j) by {}
        }
        assert(found is Some == contains_text(element@, single@));
    }
    if found.is_some() {
        extract_quoted(&element, &single, "'")
    } else {
        let double = joined2(attribute, "=\"");
        extract_quoted(&element, &double, "\"")
    }
}

/// Pull the wanted fields out of a rendered event XML document; nothing where it has no
/// time stamp.
///
/// Deliberately attribute-scraping rather than full XML parsing: the System block has a
/// fixed shape, and there may be hundreds of events.
pub fn parse_event_xml(xml: &str) -> (r: Option<CrashEvent>)
    ensures
        r.deep_view() == event_of(xml@),
{
    let text = chars_of(xml);
    let timestamp = match extract_attribute(&text, "TimeCreated", "SystemTime") {
        Some(t) => t,
        None => return None,
    };
    let event_id: u32 = match extract_element(&text, "EventID") {
        Some(t) => match parse_u64(t.as_str()) {
            Some(n) => if n <= 0xFFFF_FFFF {
                n as u32
            } else {
                0
            },
            None => 0,
        },
        None => 0,
    };
    let level = match extract_element(&text, "Level") {
        Some(l) => l,
        None => String::from_str("Unknown"),
    };
    let source = match extract_attribute(&text, "Provider", "Name") {
        Some(s) => s,
        None => String::from_str("Microsoft-Windows-WHEA-Logger"),
    };
    Some(CrashEvent { timestamp, source, event_id, level: level_name(level.as_str()) })
}

/// The events of a provider, collected newest first from the documents that the event log
/// renders, up to the cap.
#[derive(Debug)]
pub struct EventCollector {
    pub events: Vec<CrashEvent>,
}

/// The event in a rendered document, which is UTF-16 in bytes.
pub open spec fn rendered_event(document: Seq<u8>) -> Option<CrashEventView> {
    event_of(utf16_text(before_nul(units_of(document))))
}

/// The events once a document has been taken in: its event is added, if it has one and the
/// cap allows it.
pub open spec fn taken_in(before: Seq<CrashEventView>, document: Seq<u8>) -> Seq<CrashEventView> {
    match rendered_event(document) {
        Some(e) => if before.len() < MAX_EVENTS {
            before.push(e)
        } else {
            before
        },
        None => before,
    }
}

/// The events in these documents, in order, up to the cap.
pub open spec fn collected(documents: Seq<Seq<u8>>) -> Seq<CrashEventView>
    decreases documents.len(),
{
    if documents.len() == 0 {
        seq![]
    } else {
        taken_in(collected(documents.drop_last()), documents.last())
    }
}

impl EventCollector {
    pub fn new() -> (c: Self)
        ensures
            c.events.deep_view() == collected(seq![]),
    {
        let c = EventCollector { events: Vec::new() };
        assert(c.events.deep_view() =~= Seq::<CrashEventView>::empty());
        c
    }

    /// Whether another event would still be kept.
    pub fn wants_more(&self) -> (r: bool)
        ensures
            r == (self.events@.len() < MAX_EVENTS),
    {
        self.events.len() < MAX_EVENTS
    }

    /// Take in a rendered document. One that describes no event is passed over.
    pub fn add_document(&mut self, document: &[u8])
        ensures
            final(self).events.deep_view() == taken_in(old(self).events.deep_view(), document@),
    {
        let ghost before = self.events.deep_view();
        if self.events.len() < MAX_EVENTS {
            let units = read_units(document);
            let xml = wide_to_string(units.as_slice());
            if let Some(e) = parse_event_xml(xml.as_str()) {
                let ghost added = e.deep_view();
                self.events.push(e);
                assert(self.events.deep_view() == before.push(added));
            }
        }
    }
}

/// What a failed event query means: the log may need elevation to read.
pub fn query_failure(e: &WinError) -> (r: Reading<Vec<CrashEvent>>)
    ensures
        r.lacks(
            if e.code == 5 {
                UnavailableView::RequiresElevation
            } else {
                UnavailableView::QueryFailed(error_text(e.context@, e.code))
            },
        ),
{
    if e.code == 5 {
        Reading::missing(Unavailable::RequiresElevation)
    } else {
        Reading::failed(e.describe())
    }
}

// ---------------------------------------------------------------------------
// The history
// ---------------------------------------------------------------------------

/// The event was logged as an error rather than as a warning or for information: its level is
/// critical or error, by name in any case or by number.
pub open spec fn is_error(e: CrashEventView) -> bool {
    ascii_lower(e.level) == "error"@ || ascii_lower(e.level) == "critical"@ || e.level == "1"@
        || e.level == "2"@
}

/// The number of events logged as errors.
pub open spec fn error_count(events: Seq<CrashEventView>) -> nat
    decreases events.len(),
{
    if events.len() == 0 {
        0
    } else {
        error_count(events.drop_last()) + if is_error(events.last()) {
            1nat
        } else {
            0nat
        }
    }
}

fn count_errors(events: &Vec<CrashEvent>) -> (n: usize)
    ensures
        n == error_count(events.deep_view()),
        n <= events@.len(),
{
    let ghost all = events.deep_view();
    let mut n: usize = 0;
    let mut i: usize = 0;
    while i < events.len()
        invariant
            i <= events.len(),
            all == events.deep_view(),
            n == error_count(all.take(i as int)),
            n <= i,
        decreases events.len() - i,
    {
        assert(all.take(i + 1).drop_last() == all.take(i as int));
        assert(all.take(i + 1).last() == events@[i as int].deep_view());
        let level = events[i].level.as_str();
        let lower = to_ascii_lower(level);
        if eq_text(lower.as_str(), "error") || eq_text(lower.as_str(), "critical") || eq_text(
            level,
            "1",
        ) || eq_text(level, "2") {
            n += 1;
        }
        i += 1;
    }
    assert(all.take(all.len() as int) == all);
    n
}

/// The crash history that the minidump directory, the full dump and the event log give.
/// "No crashes recorded" is a fact about the machine's history, not a missing capability.
pub open spec fn crash_history(
    files: Seq<DumpFileView>,
    now: Timestamp,
    full_dump_exists: bool,
    whea: ReadingView<Seq<CrashEventView>>,
    shutdowns: ReadingView<Seq<CrashEventView>>,
) -> CrashHistoryView {
    CrashHistoryView {
        minidump_count: dump_count(files),
        most_recent_minidump: match newest_text(files) {
            Some(ts) => ReadingView::value(ts),
            None => ReadingView::missing(UnavailableView::NotApplicable),
        },
        minidumps_last_30_days: recent_count(files, now),
        full_memory_dump_present: full_dump_exists,
        whea_events: whea,
        whea_uncorrected_count: match whea.get() {
            Some(events) => error_count(events),
            None => 0,
        },
        unexpected_shutdowns: shutdowns,
    }
}

/// The crash history. `files` are those in the minidump directory, none where it cannot be
/// read: no directory usually means that no crash has ever been recorded.
pub fn probe(
    files: &[DumpFile],
    now: Timestamp,
    full_dump_exists: bool,
    whea: Reading<Vec<CrashEvent>>,
    shutdowns: Reading<Vec<CrashEvent>>,
) -> (r: CrashHistory)
    ensures
        r.deep_view() == crash_history(
            files.deep_view(),
            now,
            full_dump_exists,
            whea.deep_view(),
            shutdowns.deep_view(),
        ),
{
    let (minidump_count, newest, recent) = scan_minidumps(files, now);
    let newest_iso = match newest {
        Some(t) => format_rfc3339(t.seconds, t.nanos),
        None => None,
    };
    let whea_uncorrected_count = match whea.get() {
        Some(events) => count_errors(events),
        None => 0,
    };
    CrashHistory {
        minidump_count,
        most_recent_minidump: match newest_iso {
            Some(ts) => Reading::value(ts),
            None => Reading::missing(Unavailable::NotApplicable),
        },
        minidumps_last_30_days: recent,
        full_memory_dump_present: full_dump_exists,
        whea_events: whea,
        whea_uncorrected_count,
        unexpected_shutdowns: shutdowns,
    }
}

// ---------------------------------------------------------------------------
// Laws
// ---------------------------------------------------------------------------

/// There are never more recent dumps than dumps, nor more dumps than files.
pub proof fn recent_dumps_are_dumps(files: Seq<DumpFileView>, now: Timestamp)
    ensures
        recent_count(files, now) <= dump_count(files) <= files.len(),
    decreases files.len(),
{
    if files.len() > 0 {
        recent_dumps_are_dumps(files.drop_last(), now);
    }
}

/// The newest dump is a dump, and no dump is newer.
pub proof fn no_dump_is_newer_than_the_newest(files: Seq<DumpFileView>, i: int)
    requires
        0 <= i < files.len(),
        is_dump(files[i]),
        files[i].modified is Some,
    ensures
        newest_dump(files) matches Some(n) && files[i].modified->0.total_nanos() <= n.total_nanos(),
    decreases files.len(),
{
    if i < files.len() - 1 {
        no_dump_is_newer_than_the_newest(files.drop_last(), i);
    }
}

/// The cap holds: never more events are kept than it allows.
pub proof fn the_event_cap_holds(documents: Seq<Seq<u8>>)
    ensures
        collected(documents).len() <= MAX_EVENTS,
    decreases documents.len(),
{
    if documents.len() > 0 {
        the_event_cap_holds(documents.drop_last());
    }
}

/// Of the events with a named level, exactly those are errors that are neither a warning nor
/// informational.
pub proof fn critical_events_are_errors(e: CrashEventView)
    requires
        e.level == "Critical"@ || e.level == "Error"@ || e.level == "Warning"@ || e.level
            == "Information"@,
    ensures
        is_error(e) <==> e.level != "Warning"@ && e.level != "Information"@,
{
    reveal_strlit("Critical");
    reveal_strlit("Error");
    reveal_strlit("Warning");
    reveal_strlit("Information");
    reveal_strlit("critical");
    reveal_strlit("error");
    reveal_strlit("1");
    reveal_strlit("2");
    let lower = ascii_lower(e.level);
    if e.level == "Critical"@ {
        assert(lower =~= "critical"@);
    } else if e.level == "Error"@ {
        assert(lower =~= "error"@);
    }
    assert(lower.len() == e.level.len());
    assert(e.level.len() == 8 || e.level.len() == 5 || e.level.len() == 7 || e.level.len() == 11);
    assert("Critical"@.len() == 8 && "Error"@.len() == 5 && "Warning"@.len() == 7
        && "Information"@.len() == 11);
}

/// A document without a time stamp is no event.
pub proof fn no_timestamp_no_event(xml: Seq<char>)
    requires
        !contains_text(xml, "<"@ + "TimeCreated"@),
    ensures
        event_of(xml) is None,
{
    crate::text::find_from_is_first(xml, "<"@ + "TimeCreated"@, 0);
}

// ---------------------------------------------------------------------------
// What counts
// ---------------------------------------------------------------------------

/// The extension is "dmp", in capital or small letters.
pub open spec fn spells_dmp(e: Seq<char>) -> bool {
    e.len() == 3 && (e[0] == 'd' || e[0] == 'D') && (e[1] == 'm' || e[1] == 'M') && (e[2] == 'p'
        || e[2] == 'P')
}

/// How long before `now` a point in time lies, in nanoseconds.
pub open spec fn age_in_nanos(now: Timestamp, then: Timestamp) -> int {
    (now.seconds - then.seconds) * 1_000_000_000 + now.nanos - then.nanos
}

proof fn dumps_are_spelt(f: DumpFileView)
    ensures
        is_dump(f) == (f.extension matches Some(e) && spells_dmp(e)),
{
    reveal_strlit("dmp");
    assert("dmp"@.len() == 3 && "dmp"@[0] == 'd' && "dmp"@[1] == 'm' && "dmp"@[2] == 'p');
    if let Some(e) = f.extension {
        let l = ascii_lower(e);
        if spells_dmp(e) {
            assert(l =~= "dmp"@);
        }
        if l == "dmp"@ {
            assert(l[0] == 'd' && l[1] == 'm' && l[2] == 'p');
        }
    }
}

/// Every file counts for itself: one with the extension adds a dump, and a recent one where it was
/// written no later than now and less than thirty days ago; any other file adds nothing.
pub proof fn every_dump_counts(
    files: Seq<DumpFileView>,
    f: DumpFileView,
    now: Timestamp,
    full: bool,
    whea: ReadingView<Seq<CrashEventView>>,
    shutdowns: ReadingView<Seq<CrashEventView>>,
)
    ensures
        ({
            let before = crash_history(files, now, full, whea, shutdowns);
            let after = crash_history(files.push(f), now, full, whea, shutdowns);
            let dump = f.extension matches Some(e) && spells_dmp(e);
            let recent = dump && (f.modified matches Some(m) && 0 <= age_in_nanos(now, m)
                < 2_592_000_000_000_000);
            &&& after.minidump_count == before.minidump_count + (if dump {
                1nat
            } else {
                0
            })
            &&& after.minidumps_last_30_days == before.minidumps_last_30_days + (if recent {
                1nat
            } else {
                0
            })
            &&& !dump || f.modified is None ==> after.most_recent_minidump
                == before.most_recent_minidump
        }),
        ({
            let none = crash_history(Seq::empty(), now, full, whea, shutdowns);
            none.minidump_count == 0 && none.minidumps_last_30_days == 0
                && none.most_recent_minidump.is_without(UnavailableView::NotApplicable)
        }),
{
    dumps_are_spelt(f);
    assert(files.push(f).drop_last() =~= files);
}

/// The newest dump's time is shown: that of a dump than which none is newer, as text; without a
/// dump whose time is known there is none.
pub proof fn the_newest_dump_is_shown(
    files: Seq<DumpFileView>,
    now: Timestamp,
    full: bool,
    whea: ReadingView<Seq<CrashEventView>>,
    shutdowns: ReadingView<Seq<CrashEventView>>,
    i: int,
    t: Timestamp,
)
    requires
        0 <= i < files.len(),
        files[i].extension matches Some(e) && spells_dmp(e),
        files[i].modified == Some(t),
        forall|j: int|
            0 <= j < files.len() && j != i ==> ((#[trigger] files[j]).extension matches Some(e)
                && spells_dmp(e) ==> (files[j].modified matches Some(m) ==> age_in_nanos(t, m) > 0)),
    ensures
        crash_history(files, now, full, whea, shutdowns).most_recent_minidump.get() == rfc3339_text(
            t.seconds,
            t.nanos,
        ),
{
    newest_is(files, i, t);
}

proof fn newest_is(files: Seq<DumpFileView>, i: int, t: Timestamp)
    requires
        0 <= i < files.len(),
        files[i].extension matches Some(e) && spells_dmp(e),
        files[i].modified == Some(t),
        forall|j: int|
            0 <= j < files.len() && j != i ==> ((#[trigger] files[j]).extension matches Some(e)
                && spells_dmp(e) ==> (files[j].modified matches Some(m) ==> age_in_nanos(t, m) > 0)),
    ensures
        newest_dump(files) == Some(t),
    decreases files.len(),
{
    let head = files.drop_last();
    let n = files.len() - 1;
    dumps_are_spelt(files[n]);
    if i < n {
        newest_is(head, i, t);
    } else {
        assert forall|j: int| 0 <= j < head.len() implies is_older(#[trigger] head[j], t) by {
            assert(head[j] == files[j]);
        }
        all_older(head, t);
    }
}

/// The file is no dump with a time, or one older than `t`.
spec fn is_older(f: DumpFileView, t: Timestamp) -> bool {
    f.extension matches Some(e) && spells_dmp(e) ==> (f.modified matches Some(m) ==> age_in_nanos(
        t,
        m,
    ) > 0)
}

proof fn all_older(files: Seq<DumpFileView>, t: Timestamp)
    requires
        forall|j: int| 0 <= j < files.len() ==> is_older(#[trigger] files[j], t),
    ensures
        newest_dump(files) matches Some(m) ==> m.total_nanos() < t.total_nanos(),
    decreases files.len(),
{
    if files.len() > 0 {
        let head = files.drop_last();
        assert forall|j: int| 0 <= j < head.len() implies is_older(#[trigger] head[j], t) by {
            assert(head[j] == files[j]);
        }
        all_older(head, t);
        dumps_are_spelt(files[files.len() - 1]);
    }
}

/// The hardware errors that count are those logged as errors or as critical: by the name of the
/// level in any case, or by its number. Every one counts, and no other event does.
pub proof fn every_error_counts(
    files: Seq<DumpFileView>,
    now: Timestamp,
    full: bool,
    events: Seq<CrashEventView>,
    e: CrashEventView,
    shutdowns: ReadingView<Seq<CrashEventView>>,
)
    ensures
        ({
            let before = crash_history(files, now, full, ReadingView::value(events), shutdowns);
            let after = crash_history(
                files,
                now,
                full,
                ReadingView::value(events.push(e)),
                shutdowns,
            );
            let l = ascii_lower(e.level);
            after.whea_uncorrected_count == before.whea_uncorrected_count + (if l == "error"@ || l
                == "critical"@ || e.level == "1"@ || e.level == "2"@ {
                1nat
            } else {
                0
            })
        }),
        crash_history(
            files,
            now,
            full,
            ReadingView::value(Seq::empty()),
            shutdowns,
        ).whea_uncorrected_count == 0,
{
    assert(events.push(e).drop_last() =~= events);
}

/// What the history passes on as it is: both lists of events and whether there is a full dump.
/// Without a list of hardware errors none are counted.
pub proof fn the_history_passes_its_sources_on(
    files: Seq<DumpFileView>,
    now: Timestamp,
    full: bool,
    whea: ReadingView<Seq<CrashEventView>>,
    shutdowns: ReadingView<Seq<CrashEventView>>,
)
    ensures
        ({
            let h = crash_history(files, now, full, whea, shutdowns);
            &&& h.full_memory_dump_present == full
            &&& h.whea_events == whea
            &&& h.unexpected_shutdowns == shutdowns
            &&& whea.get() is None ==> h.whea_uncorrected_count == 0
        }),
{
}

// ---------------------------------------------------------------------------
// Reading a document
// ---------------------------------------------------------------------------

/// The text of an element: from the end of the first opening tag with its name up to the first
/// closing tag behind it, without the blanks around it. Without any of the three there is none.
pub proof fn an_element_is_between_its_tags(
    xml: Seq<char>,
    tag: Seq<char>,
    s: int,
    g: int,
    e: int,
)
    ensures
        stands_first_from(xml, "<"@ + tag, 0, s) && stands_first_from(xml, ">"@, s, g)
            && stands_first_from(xml, "</"@ + tag + ">"@, g + 1, e) ==> element_text(xml, tag)
            == Some(trimmed(xml.subrange(g + 1, e))),
        nowhere_from(xml, "<"@ + tag, 0) ==> element_text(xml, tag) is None,
        stands_first_from(xml, "<"@ + tag, 0, s) && nowhere_from(xml, ">"@, s) ==> element_text(
            xml,
            tag,
        ) is None,
        stands_first_from(xml, "<"@ + tag, 0, s) && stands_first_from(xml, ">"@, s, g)
            && nowhere_from(xml, "</"@ + tag + ">"@, g + 1) ==> element_text(xml, tag) is None,
{
    found_where_it_stands_first_from(xml, "<"@ + tag, 0, s);
    if stands_first_from(xml, "<"@ + tag, 0, s) {
        found_where_it_stands_first_from(xml, ">"@, s, g);
        if stands_first_from(xml, ">"@, s, g) {
            found_where_it_stands_first_from(xml, "</"@ + tag + ">"@, g + 1, e);
        }
    }
}

/// The value of an attribute: it stands in the first opening tag with the element's name, behind
/// the attribute's name, an equals sign and a quotation mark, up to the next such mark. Single
/// marks are looked for first, and double ones where there is no value in single ones.
pub proof fn an_attribute_is_between_its_marks(
    xml: Seq<char>,
    tag: Seq<char>,
    name: Seq<char>,
    s: int,
    g: int,
    a: int,
    e: int,
)
    requires
        stands_first_from(xml, "<"@ + tag, 0, s),
        stands_first_from(xml, ">"@, s, g),
    ensures
        ({
            let open = xml.subrange(s, g);
            let single = name + "='"@;
            let double = name + "=\""@;
            &&& stands_first_from(open, single, 0, a) && stands_first_from(
                open,
                "'"@,
                a + single.len(),
                e,
            ) ==> attribute_text(xml, tag, name) == Some(open.subrange(a + single.len(), e))
            &&& nowhere_from(open, single, 0) && stands_first_from(open, double, 0, a)
                && stands_first_from(open, "\""@, a + double.len(), e) ==> attribute_text(
                xml,
                tag,
                name,
            ) == Some(open.subrange(a + double.len(), e))
            &&& nowhere_from(open, single, 0) && nowhere_from(open, double, 0) ==> attribute_text(
                xml,
                tag,
                name,
            ) is None
        }),
{
    let open = xml.subrange(s, g);
    let single = name + "='"@;
    let double = name + "=\""@;
    found_where_it_stands_first_from(xml, "<"@ + tag, 0, s);
    found_where_it_stands_first_from(xml, ">"@, s, g);
    containing_is_standing_somewhere(open, single);
    found_where_it_stands_first_from(open, single, 0, a);
    found_where_it_stands_first_from(open, double, 0, a);
    if stands_first_from(open, single, 0, a) {
        assert(stands_at(open, single, a));
        found_where_it_stands_first_from(open, "'"@, a + single.len(), e);
    }
    if stands_first_from(open, double, 0, a) {
        found_where_it_stands_first_from(open, "\""@, a + double.len(), e);
    }
    if nowhere_from(open, single, 0) {
        assert forall|p: int| !#[trigger] stands_at(open, single, p) by {}
    }
}

/// The names of the four levels; any other text stands for itself.
pub proof fn levels_are_told_apart(raw: Seq<char>, other: Seq<char>)
    ensures
        ({
            let numbered = |t: Seq<char>| t == "1"@ || t == "2"@ || t == "3"@ || t == "4"@;
            &&& numbered(raw) && numbered(other) && raw != other ==> level_text(raw) != level_text(
                other,
            )
            &&& !numbered(raw) ==> level_text(raw) == raw
            &&& level_text(raw) == "Critical"@ <==> raw == "1"@ || raw == "Critical"@
            &&& level_text(raw) == "Error"@ <==> raw == "2"@ || raw == "Error"@
            &&& level_text(raw) == "Warning"@ <==> raw == "3"@ || raw == "Warning"@
            &&& level_text(raw) == "Information"@ <==> raw == "4"@ || raw == "Information"@
        }),
        forall|e: CrashEventView|
            (#[trigger] e.level) == level_text(raw) ==> (is_error(e) <==> raw == "1"@ || raw == "2"@
                || ascii_lower(raw) == "error"@ || ascii_lower(raw) == "critical"@),
{
    reveal_strlit("1");
    reveal_strlit("2");
    reveal_strlit("3");
    reveal_strlit("4");
    reveal_strlit("Critical");
    reveal_strlit("Error");
    reveal_strlit("Warning");
    reveal_strlit("Information");
    reveal_strlit("critical");
    reveal_strlit("error");
    assert("1"@.len() == 1 && "1"@[0] == '1');
    assert("2"@.len() == 1 && "2"@[0] == '2');
    assert("3"@.len() == 1 && "3"@[0] == '3');
    assert("4"@.len() == 1 && "4"@[0] == '4');
    assert("Critical"@.len() == 8 && "Error"@.len() == 5 && "Warning"@.len() == 7
        && "Information"@.len() == 11);
    assert(ascii_lower("Critical"@) =~= "critical"@);
    assert(ascii_lower("Error"@) =~= "error"@);
    assert("critical"@.len() == 8 && "error"@.len() == 5);
    assert(ascii_lower(raw).len() == raw.len());
    assert(ascii_lower("Warning"@).len() == 7);
    assert(ascii_lower("Information"@).len() == 11);
}

/// What an event says: its time from the attribute SystemTime of TimeCreated, its source from the
/// attribute Name of Provider, its number from EventID and its level from Level. Without a time it
/// is no event; without a source it is one of the hardware error logger; and a number that is not
/// there, is no number or does not fit is 0.
pub proof fn an_event_is_read_from_its_document(xml: Seq<char>)
    ensures
        ({
            let time = attribute_text(xml, "TimeCreated"@, "SystemTime"@);
            let source = attribute_text(xml, "Provider"@, "Name"@);
            let level = element_text(xml, "Level"@);
            match event_of(xml) {
                Some(e) => {
                    &&& time == Some(e.timestamp)
                    &&& source is Some ==> source == Some(e.source)
                    &&& source is None ==> e.source == "Microsoft-Windows-WHEA-Logger"@
                    &&& level matches Some(raw) ==> e.level == level_text(raw)
                    &&& level is None ==> e.level == level_text("Unknown"@)
                    &&& match element_text(xml, "EventID"@) {
                        Some(t) => match number_of(t) {
                            Some(n) => e.event_id == n || n > 0xFFFF_FFFF && e.event_id == 0,
                            None => e.event_id == 0,
                        },
                        None => e.event_id == 0,
                    }
                },
                None => time is None,
            }
        }),
{
}

/// Every document with an event adds it at the end, until two hundred are kept; a document without
/// one adds nothing.
pub proof fn every_event_is_kept_up_to_the_cap(documents: Seq<Seq<u8>>, d: Seq<u8>)
    ensures
        collected(Seq::empty()).len() == 0,
        collected(documents.push(d)) == match event_of(utf16_text(before_nul(units_of(d)))) {
            Some(e) => if collected(documents).len() < 200 {
                collected(documents).push(e)
            } else {
                collected(documents)
            },
            None => collected(documents),
        },
{
    assert(documents.push(d).drop_last() =~= documents);
}

/// A query names its provider in single quotes, and the event's number where one is asked for.
pub proof fn a_query_names_what_it_asks_for(provider: Seq<char>, id: u32)
    ensures
        ({
            let named = "*[System[Provider[@Name="@ + "'"@ + provider + "'"@ + "]"@;
            &&& query_text(provider, None) == named + "]]"@
            &&& query_text(provider, Some(id)) == named + " and (EventID="@ + dec(id as nat) + ")"@
                + "]]"@
        }),
{
    reveal_strlit("*[System[Provider[@Name='");
    reveal_strlit("*[System[Provider[@Name=");
    reveal_strlit("'] and (EventID=");
    reveal_strlit(" and (EventID=");
    reveal_strlit(")]]");
    reveal_strlit("']]]");
    reveal_strlit("]]");
    reveal_strlit("]");
    reveal_strlit(")");
    reveal_strlit("'");
    let named = "*[System[Provider[@Name="@ + "'"@ + provider + "'"@ + "]"@;
    assert("*[System[Provider[@Name='"@ =~= "*[System[Provider[@Name="@ + "'"@);
    assert("'] and (EventID="@ =~= "'"@ + "]"@ + " and (EventID="@);
    assert(")]]"@ =~= ")"@ + "]]"@);
    assert("']]]"@ =~= "'"@ + "]"@ + "]]"@);
    assert(query_text(provider, None) =~= named + "]]"@);
    assert(query_text(provider, Some(id)) =~= named + " and (EventID="@ + dec(id as nat) + ")"@
        + "]]"@);
}

} // verus!
