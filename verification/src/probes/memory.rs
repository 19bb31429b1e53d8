//! Memory configuration probe, decoded from SMBIOS Type 17 (Memory Device).
//!
//! This is configuration, not a memory test. Three things here matter to a buyer:
//! single-channel population, memory running below its rated speed, and soldered memory,
//! which means that the RAM you see is the RAM you will always have.
use vstd::prelude::*;

use crate::model::{Reading, ReadingView};
use crate::probes::firmware::{SmbiosStructure, SmbiosView};
use crate::text::{
    alphabetic, alphanumeric, ascii_upper, chars_of, eq_text, find, find_text, first_alphabetic,
    first_alphanumeric, found_where_it_stands_first, next_alphabetic, next_alphanumeric, nowhere_in,
    stands_first_at, the_first_letter_is_first, the_first_letter_or_digit_is_first, to_ascii_upper,
};

verus! {

// SMBIOS Type 17 field offsets (SMBIOS spec 7.18).
pub const OFF_SIZE: usize = 0x0C;

pub const OFF_FORM_FACTOR: usize = 0x0E;

pub const OFF_DEVICE_LOCATOR: usize = 0x10;

pub const OFF_BANK_LOCATOR: usize = 0x11;

pub const OFF_MEMORY_TYPE: usize = 0x12;

pub const OFF_SPEED: usize = 0x15;

pub const OFF_MANUFACTURER: usize = 0x17;

pub const OFF_SERIAL: usize = 0x18;

pub const OFF_PART_NUMBER: usize = 0x1A;

pub const OFF_EXTENDED_SIZE: usize = 0x1C;

pub const OFF_CONFIGURED_SPEED: usize = 0x20;

/// The name of a memory type code.
pub open spec fn kind_name(code: u8) -> Seq<char> {
    match code {
        0x12 => "DDR"@,
        0x13 => "DDR2"@,
        0x14 => "DDR2 FB-DIMM"@,
        0x18 => "DDR3"@,
        0x1A => "DDR4"@,
        0x1B => "LPDDR"@,
        0x1C => "LPDDR2"@,
        0x1D => "LPDDR3"@,
        0x1E => "LPDDR4"@,
        0x20 => "HBM"@,
        0x21 => "HBM2"@,
        0x22 => "DDR5"@,
        0x23 => "LPDDR5"@,
        0x24 => "HBM3"@,
        _ => "Unknown"@,
    }
}

pub fn memory_type_name(code: u8) -> (r: &'static str)
    ensures
        r@ == kind_name(code),
{
    match code {
        0x12 => "DDR",
        0x13 => "DDR2",
        0x14 => "DDR2 FB-DIMM",
        0x18 => "DDR3",
        0x1A => "DDR4",
        0x1B => "LPDDR",
        0x1C => "LPDDR2",
        0x1D => "LPDDR3",
        0x1E => "LPDDR4",
        0x20 => "HBM",
        0x21 => "HBM2",
        0x22 => "DDR5",
        0x23 => "LPDDR5",
        0x24 => "HBM3",
        _ => "Unknown",
    }
}

/// The name of a form factor code. The code of a SODIMM is 0x0D; firmware also writes 0x0C
/// for one.
pub open spec fn factor_name(code: u8) -> Seq<char> {
    match code {
        0x08 => "DIMM"@,
        0x09 => "TSOP"@,
        0x0B => "RIMM"@,
        0x0C => "SODIMM"@,
        0x0D => "SODIMM"@,
        0x0F => "Soldered (row of chips)"@,
        _ => "Unknown"@,
    }
}

pub fn form_factor_name(code: u8) -> (r: &'static str)
    ensures
        r@ == factor_name(code),
{
    match code {
        0x08 => "DIMM",
        0x09 => "TSOP",
        0x0B => "RIMM",
        0x0C => "SODIMM",
        0x0D => "SODIMM",
        0x0F => "Soldered (row of chips)",
        _ => "Unknown",
    }
}

/// 0x0F ("row of chips") is how OEMs encode memory soldered to the board.
pub fn is_soldered(form_factor: u8) -> (r: bool)
    ensures
        r == (form_factor == 0x0F),
{
    form_factor == 0x0F
}

#[derive(Debug, Clone)]
pub struct MemoryModule {
    pub slot: Reading<String>,
    pub bank: Reading<String>,
    pub size_mb: u64,
    pub memory_type: String,
    pub form_factor: String,
    pub soldered: bool,
    /// The module's rated speed in MT/s.
    pub rated_speed_mts: Reading<u16>,
    /// What it is actually running at. Lower than rated means XMP/EXPO is off.
    pub configured_speed_mts: Reading<u16>,
    pub manufacturer: Reading<String>,
    pub part_number: Reading<String>,
    pub serial: Reading<String>,
}

/// The mathematical model of [`MemoryModule`].
#[verifier::ext_equal]
pub struct MemoryModuleView {
    pub slot: ReadingView<Seq<char>>,
    pub bank: ReadingView<Seq<char>>,
    pub size_mb: u64,
    pub memory_type: Seq<char>,
    pub form_factor: Seq<char>,
    pub soldered: bool,
    pub rated_speed_mts: ReadingView<u16>,
    pub configured_speed_mts: ReadingView<u16>,
    pub manufacturer: ReadingView<Seq<char>>,
    pub part_number: ReadingView<Seq<char>>,
    pub serial: ReadingView<Seq<char>>,
}

impl DeepView for MemoryModule {
    type V = MemoryModuleView;

    open spec fn deep_view(&self) -> MemoryModuleView {
        MemoryModuleView {
            slot: self.slot.deep_view(),
            bank: self.bank.deep_view(),
            size_mb: self.size_mb,
            memory_type: self.memory_type@,
            form_factor: self.form_factor@,
            soldered: self.soldered,
            rated_speed_mts: self.rated_speed_mts.deep_view(),
            configured_speed_mts: self.configured_speed_mts.deep_view(),
            manufacturer: self.manufacturer.deep_view(),
            part_number: self.part_number.deep_view(),
            serial: self.serial.deep_view(),
        }
    }
}

#[derive(Debug, Clone, Copy, PartialEq, Eq, Structural)]
pub enum ChannelConfig {
    Single,
    Dual,
    Quad,
    /// Populated asymmetrically: runs partly in single-channel (flex mode).
    Asymmetric,
    Unknown,
}

#[derive(Debug, Clone)]
pub struct MemoryReport {
    pub modules: Vec<MemoryModule>,
    pub total_mb: u64,
    pub populated_slots: usize,
    pub total_slots: usize,
    pub channel_config: ChannelConfig,
    /// True when any module runs below its own rated speed.
    pub running_below_rated_speed: bool,
    /// True when all populated memory is soldered: no upgrade path.
    pub all_soldered: bool,
    /// True when populated modules differ in size, speed or part number.
    pub mismatched_modules: bool,
}

/// The mathematical model of [`MemoryReport`].
#[verifier::ext_equal]
pub struct MemoryReportView {
    pub modules: Seq<MemoryModuleView>,
    pub total_mb: nat,
    pub populated_slots: nat,
    pub total_slots: nat,
    pub channel_config: ChannelConfig,
    pub running_below_rated_speed: bool,
    pub all_soldered: bool,
    pub mismatched_modules: bool,
}

impl DeepView for MemoryReport {
    type V = MemoryReportView;

    open spec fn deep_view(&self) -> MemoryReportView {
        MemoryReportView {
            modules: self.modules.deep_view(),
            total_mb: self.total_mb as nat,
            populated_slots: self.populated_slots as nat,
            total_slots: self.total_slots as nat,
            channel_config: self.channel_config,
            running_below_rated_speed: self.running_below_rated_speed,
            all_soldered: self.all_soldered,
            mismatched_modules: self.mismatched_modules,
        }
    }
}

// ---------------------------------------------------------------------------
// One device
// ---------------------------------------------------------------------------

/// A word that is set: neither 0 nor the "unknown" sentinel 0xFFFF.
pub open spec fn set_word(d: SmbiosView, off: int) -> Option<u16> {
    match d.word_at(off) {
        Some(v) => if v == 0 || v == 0xFFFF {
            None
        } else {
            Some(v)
        },
        None => None,
    }
}

pub fn nonzero_word(d: &SmbiosStructure, off: usize) -> (r: Option<u16>)
    ensures
        r == set_word(d.deep_view(), off as int),
{
    match d.word_at(off) {
        Some(v) => if v == 0 || v == 0xFFFF {
            None
        } else {
            Some(v)
        },
        None => None,
    }
}

/// The size of a memory device in MB; 0 where the slot is empty or says nothing.
pub open spec fn device_size(d: SmbiosView) -> int {
    match d.word_at(OFF_SIZE as int) {
        None => 0,
        Some(raw) => if raw == 0 || raw == 0xFFFF {
            0
        } else if raw == 0x7FFF {
            // Extended Size is a DWORD in MB, with bit 31 reserved.
            match d.dword_at(OFF_EXTENDED_SIZE as int) {
                Some(v) => v as int % 0x8000_0000,
                None => 0,
            }
        } else if raw >= 0x8000 {
            // Bit 15 flags kilobytes.
            (raw - 0x8000) / 1024
        } else {
            raw as int
        },
    }
}

/// Size is in MB, except bit 15 flags KB units, and 0x7FFF defers to Extended Size.
pub fn decode_size(d: &SmbiosStructure) -> (r: u64)
    ensures
        r == device_size(d.deep_view()),
        r <= 0x7FFF_FFFF,
{
    match d.word_at(OFF_SIZE) {
        None => 0,
        Some(raw) => if raw == 0 || raw == 0xFFFF {
            0
        } else if raw == 0x7FFF {
            match d.dword_at(OFF_EXTENDED_SIZE) {
                Some(v) => (v % 0x8000_0000u32) as u64,
                None => 0,
            }
        } else if raw >= 0x8000 {
            ((raw - 0x8000) / 1024) as u64
        } else {
            raw as u64
        },
    }
}

/// A byte of a structure, 0 where it has none at that offset.
pub open spec fn byte_or_zero(d: SmbiosView, off: int) -> u8 {
    match d.byte_at(off) {
        Some(b) => b,
        None => 0,
    }
}

/// What a memory device says of the module in its slot.
pub open spec fn module_of(d: SmbiosView) -> MemoryModuleView {
    let form_factor = byte_or_zero(d, OFF_FORM_FACTOR as int);
    MemoryModuleView {
        slot: ReadingView::from_option(d.string_at(OFF_DEVICE_LOCATOR as int)),
        bank: ReadingView::from_option(d.string_at(OFF_BANK_LOCATOR as int)),
        size_mb: device_size(d) as u64,
        memory_type: kind_name(byte_or_zero(d, OFF_MEMORY_TYPE as int)),
        form_factor: factor_name(form_factor),
        soldered: form_factor == 0x0F,
        rated_speed_mts: ReadingView::from_option(set_word(d, OFF_SPEED as int)),
        configured_speed_mts: ReadingView::from_option(set_word(d, OFF_CONFIGURED_SPEED as int)),
        manufacturer: ReadingView::from_option(d.string_at(OFF_MANUFACTURER as int)),
        part_number: ReadingView::from_option(d.string_at(OFF_PART_NUMBER as int)),
        serial: ReadingView::from_option(d.string_at(OFF_SERIAL as int)),
    }
}

fn decode_module(d: &SmbiosStructure) -> (r: MemoryModule)
    ensures
        r.size_mb <= 0x7FFF_FFFF,
        r.deep_view() == module_of(d.deep_view()),
{
    let form_factor: u8 = match d.byte_at(OFF_FORM_FACTOR) {
        Some(b) => b,
        None => 0,
    };
    let memory_type: u8 = match d.byte_at(OFF_MEMORY_TYPE) {
        Some(b) => b,
        None => 0,
    };
    MemoryModule {
        slot: Reading::from(d.string_at(OFF_DEVICE_LOCATOR)),
        bank: Reading::from(d.string_at(OFF_BANK_LOCATOR)),
        size_mb: decode_size(d),
        memory_type: String::from_str(memory_type_name(memory_type)),
        form_factor: String::from_str(form_factor_name(form_factor)),
        soldered: is_soldered(form_factor),
        rated_speed_mts: Reading::from(nonzero_word(d, OFF_SPEED)),
        configured_speed_mts: Reading::from(nonzero_word(d, OFF_CONFIGURED_SPEED)),
        manufacturer: Reading::from(d.string_at(OFF_MANUFACTURER)),
        part_number: Reading::from(d.string_at(OFF_PART_NUMBER)),
        serial: Reading::from(d.string_at(OFF_SERIAL)),
    }
}

// ---------------------------------------------------------------------------
// The whole configuration
// ---------------------------------------------------------------------------

/// How many memory slots the machine has.
pub open spec fn slot_count(structs: Seq<SmbiosView>) -> nat
    decreases structs.len(),
{
    if structs.len() == 0 {
        0
    } else {
        slot_count(structs.drop_last()) + if structs.last().struct_type == 17 {
            1nat
        } else {
            0nat
        }
    }
}

/// The modules in the populated slots, in table order.
pub open spec fn modules_in(structs: Seq<SmbiosView>) -> Seq<MemoryModuleView>
    decreases structs.len(),
{
    if structs.len() == 0 {
        seq![]
    } else if structs.last().struct_type == 17 && device_size(structs.last()) != 0 {
        modules_in(structs.drop_last()).push(module_of(structs.last()))
    } else {
        modules_in(structs.drop_last())
    }
}

/// The capacity of all modules together.
pub open spec fn capacity(modules: Seq<MemoryModuleView>) -> nat
    decreases modules.len(),
{
    if modules.len() == 0 {
        0
    } else {
        capacity(modules.drop_last()) + modules.last().size_mb as nat
    }
}

/// The module runs more than 50 MT/s below its own rated speed. The tolerance is there
/// because firmware often reports e.g. 3200 against 3199.
pub open spec fn below_rated(m: MemoryModuleView) -> bool {
    match (m.rated_speed_mts.get(), m.configured_speed_mts.get()) {
        (Some(rated), Some(configured)) => configured + 50 < rated,
        _ => false,
    }
}

/// The two modules differ in size, rated speed or part number.
pub open spec fn differ(a: MemoryModuleView, b: MemoryModuleView) -> bool {
    ||| a.size_mb != b.size_mb
    ||| a.rated_speed_mts.get() != b.rated_speed_mts.get()
    ||| a.part_number.get() != b.part_number.get()
}

/// Some module differs from the first.
pub open spec fn mismatched(modules: Seq<MemoryModuleView>) -> bool {
    exists|i: int| 0 <= i < modules.len() && differ(#[trigger] modules[i], modules[0])
}

/// The text in which a module's channel is looked for: its slot and bank names, capital.
pub open spec fn locator_text(m: MemoryModuleView) -> Seq<char> {
    let slot = match m.slot.get() {
        Some(s) => s,
        None => seq![],
    };
    let bank = match m.bank.get() {
        Some(s) => s,
        None => seq![],
    };
    ascii_upper(slot + " "@ + bank)
}

/// The mark of a channel in a locator: the first alphanumeric character after "CHANNEL",
/// else the first letter after "DIMM".
pub open spec fn channel_mark(text: Seq<char>) -> Option<char> {
    let named = match find_text(text, "CHANNEL"@) {
        Some(i) => first_alphanumeric(text.skip(i + "CHANNEL"@.len())),
        None => None,
    };
    match named {
        Some(c) => Some(c),
        None => match find_text(text, "DIMM"@) {
            Some(i) => first_alphabetic(text.skip(i + "DIMM"@.len())),
            None => None,
        },
    }
}

/// The channel marks that occur among the modules.
pub open spec fn channel_marks(modules: Seq<MemoryModuleView>) -> Set<char>
    decreases modules.len(),
{
    if modules.len() == 0 {
        Set::empty()
    } else {
        match channel_mark(locator_text(modules.last())) {
            Some(c) => channel_marks(modules.drop_last()).insert(c),
            None => channel_marks(modules.drop_last()),
        }
    }
}

/// How the modules populate the memory channels. Unequal modules on two or more channels
/// run in flex mode, not true dual channel; where no locator names a channel the number of
/// modules decides.
pub open spec fn channels_of(modules: Seq<MemoryModuleView>) -> ChannelConfig {
    let marks = channel_marks(modules).len();
    if modules.len() == 0 {
        ChannelConfig::Unknown
    } else if modules.len() == 1 {
        ChannelConfig::Single
    } else if marks >= 2 && mismatched(modules) {
        ChannelConfig::Asymmetric
    } else if marks == 0 {
        if modules.len() >= 4 {
            ChannelConfig::Quad
        } else {
            ChannelConfig::Dual
        }
    } else if marks == 1 {
        ChannelConfig::Single
    } else if marks == 2 {
        ChannelConfig::Dual
    } else {
        ChannelConfig::Quad
    }
}

/// The memory report that an SMBIOS table gives.
pub open spec fn memory_report(structs: Seq<SmbiosView>) -> MemoryReportView {
    let modules = modules_in(structs);
    MemoryReportView {
        modules,
        total_mb: capacity(modules),
        populated_slots: modules.len(),
        total_slots: slot_count(structs),
        channel_config: channels_of(modules),
        running_below_rated_speed: exists|i: int|
            0 <= i < modules.len() && below_rated(#[trigger] modules[i]),
        all_soldered: modules.len() > 0 && forall|i: int|
            0 <= i < modules.len() ==> (#[trigger] modules[i]).soldered,
        mismatched_modules: mismatched(modules),
    }
}

/// The modules in the populated slots, and the number of slots.
fn populated(structs: &[SmbiosStructure]) -> (r: (Vec<MemoryModule>, usize))
    ensures
        r.0.deep_view() == modules_in(structs.deep_view()),
        r.0@.len() <= structs@.len(),
        forall|j: int| 0 <= j < r.0@.len() ==> (#[trigger] r.0@[j]).size_mb <= 0x7FFF_FFFF,
        r.1 == slot_count(structs.deep_view()),
{
    let ghost all = structs.deep_view();
    let mut slots: usize = 0;
    let mut modules: Vec<MemoryModule> = Vec::new();
    let mut i: usize = 0;
    while i < structs.len()
        invariant
            i <= structs.len(),
            all == structs.deep_view(),
            slots == slot_count(all.take(i as int)),
            slots <= i,
            modules.deep_view() == modules_in(all.take(i as int)),
            modules@.len() <= i,
            forall|j: int| 0 <= j < modules@.len() ==> (#[trigger] modules@[j]).size_mb <= 0x7FFF_FFFF,
        decreases structs.len() - i,
    {
        assert(all.take(i + 1).drop_last() == all.take(i as int));
        if structs[i].struct_type == 17 {
            slots += 1;
            // Size 0 means the slot exists but is empty.
            if decode_size(&structs[i]) != 0 {
                let m = decode_module(&structs[i]);
                let ghost before = modules.deep_view();
                let ghost added = m.deep_view();
                modules.push(m);
                assert(modules.deep_view() == before.push(added));
            }
        }
        i += 1;
    }
    assert(all.take(all.len() as int) == all);
    (modules, slots)
}

fn total_capacity(modules: &[MemoryModule]) -> (r: u64)
    requires
        modules@.len() <= u32::MAX,
        forall|j: int| 0 <= j < modules@.len() ==> (#[trigger] modules@[j]).size_mb <= 0x7FFF_FFFF,
    ensures
        r == capacity(modules.deep_view()),
{
    let ghost all = modules.deep_view();
    let mut total: u64 = 0;
    let mut i: usize = 0;
    while i < modules.len()
        invariant
            i <= modules.len() <= u32::MAX,
            all == modules.deep_view(),
            forall|j: int| 0 <= j < modules@.len() ==> (#[trigger] modules@[j]).size_mb <= 0x7FFF_FFFF,
            total == capacity(all.take(i as int)),
            total <= 0x7FFF_FFFF * i,
        decreases modules.len() - i,
    {
        assert(all.take(i + 1).drop_last() == all.take(i as int));
        total += modules[i].size_mb;
        i += 1;
    }
    assert(all.take(all.len() as int) == all);
    total
}

fn any_below_rated(modules: &[MemoryModule]) -> (r: bool)
    ensures
        r == exists|i: int|
            0 <= i < modules@.len() && below_rated(#[trigger] modules.deep_view()[i]),
{
    let mut i: usize = 0;
    while i < modules.len()
        invariant
            i <= modules.len(),
            forall|j: int| 0 <= j < i ==> !below_rated(#[trigger] modules.deep_view()[j]),
        decreases modules.len() - i,
    {
        let m = &modules[i];
        let below = match (m.rated_speed_mts.get(), m.configured_speed_mts.get()) {
            (Some(rated), Some(configured)) => *configured as u32 + 50 < *rated as u32,
            _ => false,
        };
        assert(below == below_rated(modules.deep_view()[i as int]));
        if below {
            return true;
        }
        i += 1;
    }
    false
}

fn every_soldered(modules: &[MemoryModule]) -> (r: bool)
    ensures
        r == forall|i: int| 0 <= i < modules@.len() ==> (#[trigger] modules.deep_view()[i]).soldered,
{
    let mut i: usize = 0;
    while i < modules.len()
        invariant
            i <= modules.len(),
            forall|j: int| 0 <= j < i ==> (#[trigger] modules.deep_view()[j]).soldered,
        decreases modules.len() - i,
    {
        if !modules[i].soldered {
            assert(!modules.deep_view()[i as int].soldered);
            return false;
        }
        i += 1;
    }
    true
}

/// Decode all Type 17 structures from an already-parsed SMBIOS table.
pub fn from_smbios(structs: &[SmbiosStructure]) -> (r: MemoryReport)
    requires
        structs@.len() <= u32::MAX,
    ensures
        r.deep_view() == memory_report(structs.deep_view()),
{
    let (modules, total_slots) = populated(structs);
    let all = modules.as_slice();
    assert(all.deep_view() == modules.deep_view());
    let total_mb = total_capacity(all);
    let populated_slots = modules.len();
    let running_below_rated_speed = any_below_rated(all);
    let all_soldered = populated_slots > 0 && every_soldered(all);
    let mismatched_modules = detect_mismatch(all);
    let channel_config = infer_channels(all);
    MemoryReport {
        modules,
        total_mb,
        populated_slots,
        total_slots,
        channel_config,
        running_below_rated_speed,
        all_soldered,
        mismatched_modules,
    }
}

fn same_word(a: &Reading<u16>, b: &Reading<u16>) -> (r: bool)
    ensures
        r == (a.deep_view().get() == b.deep_view().get()),
{
    match (a.get(), b.get()) {
        (Some(x), Some(y)) => *x == *y,
        (None, None) => true,
        _ => false,
    }
}

fn same_text(a: &Reading<String>, b: &Reading<String>) -> (r: bool)
    ensures
        r == (a.deep_view().get() == b.deep_view().get()),
{
    match (a.get(), b.get()) {
        (Some(x), Some(y)) => eq_text(x.as_str(), y.as_str()),
        (None, None) => true,
        _ => false,
    }
}

/// Whether populated modules differ in size, speed or part number.
pub fn detect_mismatch(modules: &[MemoryModule]) -> (r: bool)
    ensures
        r == mismatched(modules.deep_view()),
{
    let ghost all = modules.deep_view();
    let mut i: usize = 0;
    while i < modules.len()
        invariant
            i <= modules.len(),
            all == modules.deep_view(),
            forall|j: int| 0 <= j < i ==> !differ(#[trigger] all[j], all[0]),
        decreases modules.len() - i,
    {
        let m = &modules[i];
        let first = &modules[0];
        if m.size_mb != first.size_mb || !same_word(&m.rated_speed_mts, &first.rated_speed_mts)
            || !same_text(&m.part_number, &first.part_number) {
            assert(differ(all[i as int], all[0]));
            return true;
        }
        assert(!differ(all[i as int], all[0]));
        i += 1;
    }
    false
}

fn text_or_empty(r: &Reading<String>) -> (s: &str)
    ensures
        s@ == match r.deep_view().get() {
            Some(t) => t,
            None => seq![],
        },
{
    match r.get() {
        Some(s) => s.as_str(),
        None => {
            proof {
                reveal_strlit("");
            }
            assert(""@ =~= seq![]);
            ""
        },
    }
}

/// The channel mark in a module's locators.
fn mark_of(m: &MemoryModule) -> (r: Option<char>)
    ensures
        r == channel_mark(locator_text(m.deep_view())),
{
    let mut joined = String::from_str(text_or_empty(&m.slot));
    joined.append(" ");
    joined.append(text_or_empty(&m.bank));
    let upper = to_ascii_upper(joined.as_str());
    let text = chars_of(upper.as_str());
    let channel = chars_of("CHANNEL");
    if let Some(pos) = find(text.as_slice(), channel.as_slice()) {
        assert(pos + channel.len() <= text.len());
        // Take the first alphanumeric after "CHANNEL", skipping separators.
        let mark = next_alphanumeric(text.as_slice(), pos + channel.len());
        if mark.is_some() {
            return mark;
        }
    }
    // Fall back to patterns like "DIMM A1" / "DIMMA".
    let dimm = chars_of("DIMM");
    if let Some(pos) = find(text.as_slice(), dimm.as_slice()) {
        assert(pos + dimm.len() <= text.len());
        return next_alphabetic(text.as_slice(), pos + dimm.len());
    }
    None
}

/// Infer channel population from the device locators.
///
/// OEMs name slots inconsistently ("ChannelA-DIMM0", "DIMM A1", "Controller0-ChannelA"),
/// so this parses what it can and falls back to a module count. It is a strong hint, not a
/// hardware readout.
pub fn infer_channels(modules: &[MemoryModule]) -> (r: ChannelConfig)
    ensures
        r == channels_of(modules.deep_view()),
{
    let ghost all = modules.deep_view();
    if modules.len() == 0 {
        return ChannelConfig::Unknown;
    }
    if modules.len() == 1 {
        return ChannelConfig::Single;
    }
    // The channel marks seen so far, each once.
    let mut distinct: Vec<char> = Vec::new();
    let mut i: usize = 0;
    assert(distinct@.to_set() =~= channel_marks(all.take(0)));
    while i < modules.len()
        invariant
            i <= modules.len(),
            all == modules.deep_view(),
            distinct@.no_duplicates(),
            distinct@.to_set() == channel_marks(all.take(i as int)),
        decreases modules.len() - i,
    {
        assert(all.take(i + 1).drop_last() == all.take(i as int));
        let mark = mark_of(&modules[i]);
        if let Some(c) = mark {
            let ghost before = distinct@;
            if !holds_char(&distinct, c) {
                distinct.push(c);
                assert(distinct@.to_set() =~= before.to_set().insert(c)) by {
                    assert(distinct@ == before.push(c));
                    assert forall|x: char| #[trigger] before.to_set().insert(c).contains(x) implies distinct@.contains(x) by {
                        if x == c {
                            assert(distinct@[before.len() as int] == c);
                        } else {
                            let k = choose|k: int| 0 <= k < before.len() && before[k] == x;
                            assert(distinct@[k] == x);
                        }
                    }
                }
            } else {
                assert(distinct@.to_set() =~= before.to_set().insert(c));
            }
        }
        i += 1;
    }
    assert(all.take(all.len() as int) == all);
    proof {
        distinct@.unique_seq_to_set();
    }
    // Unequal modules across channels mean flex mode, not true dual channel.
    if distinct.len() >= 2 && detect_mismatch(modules) {
        return ChannelConfig::Asymmetric;
    }
    if distinct.len() == 0 {
        // No usable locator naming: fall back on module count.
        if modules.len() >= 4 {
            ChannelConfig::Quad
        } else {
            ChannelConfig::Dual
        }
    } else if distinct.len() == 1 {
        ChannelConfig::Single
    } else if distinct.len() == 2 {
        ChannelConfig::Dual
    } else {
        ChannelConfig::Quad
    }
}

fn holds_char(v: &Vec<char>, c: char) -> (r: bool)
    ensures
        r == v@.contains(c),
{
    let mut i: usize = 0;
    while i < v.len()
        invariant
            i <= v.len(),
            forall|j: int| 0 <= j < i ==> v@[j] != c,
        decreases v.len() - i,
    {
        if v[i] == c {
            return true;
        }
        i += 1;
    }
    false
}

// ---------------------------------------------------------------------------
// Laws
// ---------------------------------------------------------------------------

/// An empty slot counts as a slot but never as a module: there are at most as many modules
/// as slots, and every module has a size.
pub proof fn empty_slots_are_slots_but_not_modules(structs: Seq<SmbiosView>)
    ensures
        modules_in(structs).len() <= slot_count(structs) <= structs.len(),
        forall|i: int|
            0 <= i < modules_in(structs).len() ==> (#[trigger] modules_in(structs)[i]).size_mb != 0,
    decreases structs.len(),
{
    if structs.len() > 0 {
        empty_slots_are_slots_but_not_modules(structs.drop_last());
        size_is_bounded(structs.last());
    }
}

proof fn size_is_bounded(d: SmbiosView)
    ensures
        0 <= device_size(d) <= 0x7FFF_FFFF,
{
}

/// Modules are mismatched exactly when some two of them differ in size, speed or part
/// number.
pub proof fn mismatched_means_some_two_differ(modules: Seq<MemoryModuleView>)
    ensures
        mismatched(modules) <==> exists|i: int, j: int|
            0 <= i < modules.len() && 0 <= j < modules.len() && differ(
                #[trigger] modules[i],
                #[trigger] modules[j],
            ),
{
    if exists|i: int, j: int|
        0 <= i < modules.len() && 0 <= j < modules.len() && differ(
            #[trigger] modules[i],
            #[trigger] modules[j],
        ) {
        let (i, j) = choose|i: int, j: int|
            0 <= i < modules.len() && 0 <= j < modules.len() && differ(
                #[trigger] modules[i],
                #[trigger] modules[j],
            );
        assert(differ(modules[i], modules[0]) || differ(modules[j], modules[0]));
    }
    if mismatched(modules) {
        let i = choose|i: int| 0 <= i < modules.len() && differ(#[trigger] modules[i], modules[0]);
        assert(differ(modules[i], modules[0]));
    }
}

/// Modules that differ are never reported as plain dual or quad channel where the locators
/// name two channels or more.
pub proof fn unequal_modules_are_never_plain_dual(modules: Seq<MemoryModuleView>)
    requires
        modules.len() >= 2,
        channel_marks(modules).len() >= 2,
        mismatched(modules),
    ensures
        channels_of(modules) == ChannelConfig::Asymmetric,
{
}

// ---------------------------------------------------------------------------
// Which channel a locator names
// ---------------------------------------------------------------------------

/// A module's slot and bank names as one text, with a blank between them.
pub open spec fn names_joined(m: MemoryModuleView) -> Seq<char> {
    let slot = match m.slot {
        ReadingView::Value { value, .. } => value,
        ReadingView::Missing { .. } => Seq::<char>::empty(),
    };
    let bank = match m.bank {
        ReadingView::Value { value, .. } => value,
        ReadingView::Missing { .. } => Seq::<char>::empty(),
    };
    slot.push(' ') + bank
}

/// The first letter or digit of `text` at or behind `from` is at `q`.
pub open spec fn first_mark_at(text: Seq<char>, from: int, q: int) -> bool {
    from <= q < text.len() && alphanumeric(text[q]) && forall|j: int|
        from <= j < q ==> !alphanumeric(#[trigger] text[j])
}

/// The first letter of `text` at or behind `from` is at `q`.
pub open spec fn first_letter_at(text: Seq<char>, from: int, q: int) -> bool {
    from <= q < text.len() && alphabetic(text[q]) && forall|j: int|
        from <= j < q ==> !alphabetic(#[trigger] text[j])
}

/// Nothing behind the word "CHANNEL" can be a channel's mark: the word does not occur, or only
/// separators follow it.
pub open spec fn names_no_channel(text: Seq<char>) -> bool {
    nowhere_in(text, "CHANNEL"@) || exists|p: int|
        #[trigger] stands_first_at(text, "CHANNEL"@, p) && forall|j: int|
            p + 7 <= j < text.len() ==> !alphanumeric(#[trigger] text[j])
}

/// The names of a module put it on this channel; nothing where they name none. The channel is
/// the letter or digit behind "CHANNEL", or else the letter behind "DIMM".
pub open spec fn is_on(m: MemoryModuleView, mark: Option<char>) -> bool {
    let text = ascii_upper(names_joined(m));
    match mark {
        Some(c) => {
            ||| exists|p: int, q: int|
                #[trigger] stands_first_at(text, "CHANNEL"@, p) && #[trigger] first_mark_at(
                    text,
                    p + 7,
                    q,
                ) && text[q] == c
            ||| names_no_channel(text) && exists|p: int, q: int|
                #[trigger] stands_first_at(text, "DIMM"@, p) && #[trigger] first_letter_at(
                    text,
                    p + 4,
                    q,
                ) && text[q] == c
        },
        None => names_no_channel(text) && (nowhere_in(text, "DIMM"@) || exists|p: int|
            #[trigger] stands_first_at(text, "DIMM"@, p) && forall|j: int|
                p + 4 <= j < text.len() ==> !alphabetic(#[trigger] text[j])),
    }
}

proof fn first_mark_found(text: Seq<char>, from: int, q: int)
    requires
        0 <= from <= text.len(),
    ensures
        first_mark_at(text, from, q) ==> first_alphanumeric(text.skip(from)) == Some(text[q]),
        (forall|j: int| from <= j < text.len() ==> !alphanumeric(#[trigger] text[j]))
            ==> first_alphanumeric(text.skip(from)) is None,
        first_letter_at(text, from, q) ==> first_alphabetic(text.skip(from)) == Some(text[q]),
        (forall|j: int| from <= j < text.len() ==> !alphabetic(#[trigger] text[j]))
            ==> first_alphabetic(text.skip(from)) is None,
{
    let rest = text.skip(from);
    the_first_letter_or_digit_is_first(rest);
    the_first_letter_is_first(rest);
    if let Some(c) = first_alphanumeric(rest) {
        let k = choose|k: int|
            0 <= k < rest.len() && #[trigger] rest[k] == c && alphanumeric(c) && forall|j: int|
                0 <= j < k ==> !alphanumeric(#[trigger] rest[j]);
        assert(rest[k] == text[from + k]);
        if first_mark_at(text, from, q) {
            assert(rest[q - from] == text[q]);
        }
    } else if first_mark_at(text, from, q) {
        assert(rest[q - from] == text[q]);
    }
    if let Some(c) = first_alphabetic(rest) {
        let k = choose|k: int|
            0 <= k < rest.len() && #[trigger] rest[k] == c && alphabetic(c) && forall|j: int|
                0 <= j < k ==> !alphabetic(#[trigger] rest[j]);
        assert(rest[k] == text[from + k]);
        if first_letter_at(text, from, q) {
            assert(rest[q - from] == text[q]);
        }
    } else if first_letter_at(text, from, q) {
        assert(rest[q - from] == text[q]);
    }
}

proof fn no_channel_named(text: Seq<char>)
    requires
        names_no_channel(text),
    ensures
        match find_text(text, "CHANNEL"@) {
            Some(i) => first_alphanumeric(text.skip(i + "CHANNEL"@.len())) is None,
            None => true,
        },
{
    reveal_strlit("CHANNEL");
    if nowhere_in(text, "CHANNEL"@) {
        found_where_it_stands_first(text, "CHANNEL"@, 0);
    } else {
        let p = choose|p: int|
            #[trigger] stands_first_at(text, "CHANNEL"@, p) && forall|j: int|
                p + 7 <= j < text.len() ==> !alphanumeric(#[trigger] text[j]);
        found_where_it_stands_first(text, "CHANNEL"@, p);
        first_mark_found(text, p + 7, p + 7);
    }
}

/// A module whose names put it on a channel has that channel's mark, and one whose names put it
/// on none has no mark. A word's own letters are never its mark: the search for the mark starts
/// behind the word.
pub proof fn the_mark_is_what_the_names_say(m: MemoryModuleView, mark: Option<char>)
    requires
        is_on(m, mark),
    ensures
        channel_mark(locator_text(m)) == mark,
{
    reveal_strlit("CHANNEL");
    reveal_strlit("DIMM");
    reveal_strlit(" ");
    let text = ascii_upper(names_joined(m));
    assert(text == locator_text(m)) by {
        assert(names_joined(m) =~= (match m.slot.get() {
            Some(s) => s,
            None => seq![],
        }) + " "@ + (match m.bank.get() {
            Some(s) => s,
            None => seq![],
        }));
    }
    match mark {
        Some(c) => {
            if exists|p: int, q: int|
                #[trigger] stands_first_at(text, "CHANNEL"@, p) && #[trigger] first_mark_at(
                    text,
                    p + 7,
                    q,
                ) && text[q] == c {
                let (p, q) = choose|p: int, q: int|
                    #[trigger] stands_first_at(text, "CHANNEL"@, p) && #[trigger] first_mark_at(
                        text,
                        p + 7,
                        q,
                    ) && text[q] == c;
                found_where_it_stands_first(text, "CHANNEL"@, p);
                first_mark_found(text, p + 7, q);
            } else {
                no_channel_named(text);
                let (p, q) = choose|p: int, q: int|
                    #[trigger] stands_first_at(text, "DIMM"@, p) && #[trigger] first_letter_at(
                        text,
                        p + 4,
                        q,
                    ) && text[q] == c;
                found_where_it_stands_first(text, "DIMM"@, p);
                first_mark_found(text, p + 4, q);
            }
        },
        None => {
            no_channel_named(text);
            if nowhere_in(text, "DIMM"@) {
                found_where_it_stands_first(text, "DIMM"@, 0);
            } else {
                let p = choose|p: int|
                    #[trigger] stands_first_at(text, "DIMM"@, p) && forall|j: int|
                        p + 4 <= j < text.len() ==> !alphabetic(#[trigger] text[j]);
                found_where_it_stands_first(text, "DIMM"@, p);
                first_mark_found(text, p + 4, p + 4);
            }
        },
    }
}

/// Two modules are alike where a buyer would call them a matched pair: the same size, the same
/// rated speed and the same part number.
pub open spec fn alike(a: MemoryModuleView, b: MemoryModuleView) -> bool {
    a.size_mb == b.size_mb && a.rated_speed_mts.get() == b.rated_speed_mts.get()
        && a.part_number.get() == b.part_number.get()
}

/// Every two of the modules are alike.
pub open spec fn all_alike(modules: Seq<MemoryModuleView>) -> bool {
    forall|i: int, j: int|
        0 <= i < modules.len() && 0 <= j < modules.len() ==> alike(
            #[trigger] modules[i],
            #[trigger] modules[j],
        )
}

/// The names of the modules put them on these channels, one for each module.
pub open spec fn are_on(modules: Seq<MemoryModuleView>, marks: Seq<Option<char>>) -> bool {
    marks.len() == modules.len() && forall|i: int|
        0 <= i < modules.len() ==> is_on(#[trigger] modules[i], marks[i])
}

/// The marks that occur among the modules are those of the modules.
proof fn marks_are_those_of_the_modules(
    modules: Seq<MemoryModuleView>,
    marks: Seq<Option<char>>,
    c: char,
)
    requires
        are_on(modules, marks),
    ensures
        channel_marks(modules).finite(),
        channel_marks(modules).contains(c) <==> exists|i: int|
            0 <= i < marks.len() && #[trigger] marks[i] == Some(c),
    decreases modules.len(),
{
    if modules.len() > 0 {
        let n = modules.len() - 1;
        let head = modules.drop_last();
        let some = marks.drop_last();
        assert forall|i: int| 0 <= i < head.len() implies is_on(#[trigger] head[i], some[i]) by {
            assert(head[i] == modules[i]);
        }
        marks_are_those_of_the_modules(head, some, c);
        the_mark_is_what_the_names_say(modules[n], marks[n]);
        if exists|i: int| 0 <= i < marks.len() && #[trigger] marks[i] == Some(c) {
            let i = choose|i: int| 0 <= i < marks.len() && #[trigger] marks[i] == Some(c);
            if i < n {
                assert(some[i] == Some(c));
            }
        }
        if exists|i: int| 0 <= i < some.len() && #[trigger] some[i] == Some(c) {
            let i = choose|i: int| 0 <= i < some.len() && #[trigger] some[i] == Some(c);
            assert(marks[i] == Some(c));
        }
        if channel_mark(locator_text(modules.last())) == Some(c) {
            assert(marks[n] == Some(c));
        }
    }
}

proof fn mismatched_unless_alike(modules: Seq<MemoryModuleView>)
    ensures
        mismatched(modules) == !all_alike(modules),
{
    mismatched_means_some_two_differ(modules);
    if !all_alike(modules) {
        let (i, j) = choose|i: int, j: int|
            0 <= i < modules.len() && 0 <= j < modules.len() && !alike(
                #[trigger] modules[i],
                #[trigger] modules[j],
            );
        assert(differ(modules[i], modules[j]));
    }
    if mismatched(modules) {
        let (i, j) = choose|i: int, j: int|
            0 <= i < modules.len() && 0 <= j < modules.len() && differ(
                #[trigger] modules[i],
                #[trigger] modules[j],
            );
        assert(!alike(modules[i], modules[j]));
    }
}

/// Two channels hold the modules, by their names: matched modules run in dual channel, others in
/// flex mode.
pub proof fn modules_on_two_channels(
    modules: Seq<MemoryModuleView>,
    marks: Seq<Option<char>>,
    c: char,
    d: char,
)
    requires
        are_on(modules, marks),
        c != d,
        marks.contains(Some(c)),
        marks.contains(Some(d)),
        forall|i: int|
            0 <= i < marks.len() ==> #[trigger] marks[i] is None || marks[i] == Some(c) || marks[i]
                == Some(d),
    ensures
        channels_of(modules) == if all_alike(modules) {
            ChannelConfig::Dual
        } else {
            ChannelConfig::Asymmetric
        },
{
    mismatched_unless_alike(modules);
    let all = channel_marks(modules);
    assert forall|x: char| #[trigger] all.contains(x) <==> (x == c || x == d) by {
        marks_are_those_of_the_modules(modules, marks, x);
    }
    assert(all =~= Set::empty().insert(c).insert(d));
}

/// All marks are the same: the modules share one channel, however many they are and however
/// well they match.
pub proof fn modules_on_one_channel(
    modules: Seq<MemoryModuleView>,
    marks: Seq<Option<char>>,
    c: char,
)
    requires
        are_on(modules, marks),
        marks.contains(Some(c)),
        forall|i: int| 0 <= i < marks.len() ==> #[trigger] marks[i] is None || marks[i] == Some(c),
    ensures
        channels_of(modules) == ChannelConfig::Single,
{
    let all = channel_marks(modules);
    assert forall|x: char| #[trigger] all.contains(x) <==> x == c by {
        marks_are_those_of_the_modules(modules, marks, x);
    }
    assert(all =~= Set::empty().insert(c));
}

/// Three channels or more hold the modules: matched modules run in quad channel, others in flex
/// mode.
pub proof fn modules_on_many_channels(
    modules: Seq<MemoryModuleView>,
    marks: Seq<Option<char>>,
    c: char,
    d: char,
    e: char,
)
    requires
        are_on(modules, marks),
        c != d,
        c != e,
        d != e,
        marks.contains(Some(c)),
        marks.contains(Some(d)),
        marks.contains(Some(e)),
    ensures
        channels_of(modules) == if all_alike(modules) {
            ChannelConfig::Quad
        } else {
            ChannelConfig::Asymmetric
        },
{
    mismatched_unless_alike(modules);
    let all = channel_marks(modules);
    marks_are_those_of_the_modules(modules, marks, c);
    marks_are_those_of_the_modules(modules, marks, d);
    marks_are_those_of_the_modules(modules, marks, e);
    let three = Set::empty().insert(c).insert(d).insert(e);
    assert(three.len() == 3);
    vstd::set_lib::lemma_len_subset(three, all);
}

/// No name says which channel a module is on: their number decides.
pub proof fn modules_without_a_channel_name(
    modules: Seq<MemoryModuleView>,
    marks: Seq<Option<char>>,
)
    requires
        are_on(modules, marks),
        forall|i: int| 0 <= i < marks.len() ==> #[trigger] marks[i] is None,
    ensures
        channels_of(modules) == if modules.len() == 0 {
            ChannelConfig::Unknown
        } else if modules.len() == 1 {
            ChannelConfig::Single
        } else if modules.len() < 4 {
            ChannelConfig::Dual
        } else {
            ChannelConfig::Quad
        },
{
    let all = channel_marks(modules);
    assert forall|x: char| !#[trigger] all.contains(x) by {
        marks_are_those_of_the_modules(modules, marks, x);
    }
    assert(all =~= Set::empty());
}

/// Slots that are named "DIMM" and a letter: two matched modules behind different letters run in
/// dual channel, and behind the same letter in a single one. What stands between the word and
/// its letter does not matter, as long as it is no letter.
pub proof fn dimm_letters_tell_the_channels(
    a: MemoryModuleView,
    b: MemoryModuleView,
    p: int,
    q: int,
    u: int,
    v: int,
)
    requires
        ({
            let s = ascii_upper(names_joined(a));
            let t = ascii_upper(names_joined(b));
            &&& nowhere_in(s, "CHANNEL"@) && nowhere_in(t, "CHANNEL"@)
            &&& stands_first_at(s, "DIMM"@, p) && first_letter_at(s, p + 4, q)
            &&& stands_first_at(t, "DIMM"@, u) && first_letter_at(t, u + 4, v)
        }),
    ensures
        ({
            let s = ascii_upper(names_joined(a));
            let t = ascii_upper(names_joined(b));
            channels_of(seq![a, b]) == if s[q] == t[v] {
                ChannelConfig::Single
            } else if alike(a, b) {
                ChannelConfig::Dual
            } else {
                ChannelConfig::Asymmetric
            }
        }),
{
    let s = ascii_upper(names_joined(a));
    let t = ascii_upper(names_joined(b));
    let modules = seq![a, b];
    let marks = seq![Some(s[q]), Some(t[v])];
    assert(is_on(a, Some(s[q])));
    assert(is_on(b, Some(t[v])));
    assert(are_on(modules, marks));
    assert(marks[0] == Some(s[q]) && marks[1] == Some(t[v]));
    if s[q] == t[v] {
        modules_on_one_channel(modules, marks, s[q]);
    } else {
        modules_on_two_channels(modules, marks, s[q], t[v]);
        assert(modules[0] == a && modules[1] == b);
        assert(all_alike(modules) == alike(a, b));
    }
}

// ---------------------------------------------------------------------------
// From the bytes of a memory device to the report
// ---------------------------------------------------------------------------

/// The 16-bit number at a place of a device's formatted area.
pub open spec fn word_in(d: SmbiosView, off: int) -> int {
    d.formatted[off] + 256 * d.formatted[off + 1]
}

/// The size of a device in MB, from its bytes. The word at 12 counts MB; with its highest bit set
/// it counts KB; 0 and all ones mean that there is none; and 0x7FFF means that the four bytes at
/// 28 hold it, without their highest bit.
pub proof fn the_size_is_in_its_bytes(d: SmbiosView)
    ensures
        ({
            let size = device_size(d);
            let raw = word_in(d, 12);
            &&& d.formatted.len() < 14 ==> size == 0
            &&& d.formatted.len() >= 14 && (raw == 0 || raw == 65535) ==> size == 0
            &&& d.formatted.len() >= 14 && 0 < raw < 32767 ==> size == raw
            &&& d.formatted.len() >= 14 && 32768 <= raw < 65535 ==> size == (raw - 32768) / 1024
            &&& d.formatted.len() >= 14 && raw == 32767 ==> size == if d.formatted.len() < 32 {
                0
            } else {
                d.formatted[28] + 256 * d.formatted[29] + 65536 * d.formatted[30] + 16777216 * (
                d.formatted[31] as int % 128)
            }
        }),
{
}

/// A speed from its bytes: the word at a place, unless it is 0 or all ones.
pub open spec fn speed_in(d: SmbiosView, off: int) -> Option<u16> {
    if d.formatted.len() < off + 2 || word_in(d, off) == 0 || word_in(d, off) == 65535 {
        None
    } else {
        Some(word_in(d, off) as u16)
    }
}

/// What a module's fields hold: each comes from its own place in the device's bytes.
pub proof fn a_module_is_in_its_bytes(d: SmbiosView)
    ensures
        ({
            let m = module_of(d);
            &&& m.size_mb == device_size(d)
            &&& m.slot.shows(d.string_at(16))
            &&& m.bank.shows(d.string_at(17))
            &&& m.manufacturer.shows(d.string_at(23))
            &&& m.serial.shows(d.string_at(24))
            &&& m.part_number.shows(d.string_at(26))
            &&& m.rated_speed_mts.shows(speed_in(d, 21))
            &&& m.configured_speed_mts.shows(speed_in(d, 32))
            &&& m.soldered <==> d.formatted.len() > 14 && d.formatted[14] == 15
            &&& d.formatted.len() > 14 ==> m.form_factor == factor_name(d.formatted[14])
            &&& d.formatted.len() > 18 ==> m.memory_type == kind_name(d.formatted[18])
        }),
{
    size_is_bounded(d);
}

/// The report grows with the table: a device of type 17 adds a slot, and a module with its size
/// where it has one; any other structure adds nothing.
pub proof fn every_device_counts(structs: Seq<SmbiosView>, d: SmbiosView)
    ensures
        ({
            let before = memory_report(structs);
            let after = memory_report(structs.push(d));
            let slot = d.struct_type == 17;
            let module = slot && device_size(d) > 0;
            &&& after.total_slots == before.total_slots + (if slot {
                1nat
            } else {
                0
            })
            &&& after.populated_slots == before.populated_slots + (if module {
                1nat
            } else {
                0
            })
            &&& after.total_mb == before.total_mb + (if module {
                device_size(d)
            } else {
                0
            })
            &&& after.modules == if module {
                before.modules.push(module_of(d))
            } else {
                before.modules
            }
        }),
        ({
            let none = memory_report(Seq::empty());
            none.total_slots == 0 && none.populated_slots == 0 && none.total_mb == 0
                && none.modules.len() == 0
        }),
{
    let all = structs.push(d);
    assert(all.drop_last() =~= structs);
    size_is_bounded(d);
    if d.struct_type == 17 && device_size(d) > 0 {
        let modules = modules_in(all);
        assert(modules.drop_last() =~= modules_in(structs));
    }
}

/// The report's verdicts are those on its modules: memory runs below its rated speed exactly
/// where some module's rated speed exceeds its configured one by more than 50 MT/s, all of it is
/// soldered where there is a module and every one is, and the modules do not match where some two
/// are not alike.
pub proof fn verdicts_follow_the_modules(structs: Seq<SmbiosView>)
    ensures
        ({
            let r = memory_report(structs);
            &&& r.running_below_rated_speed <==> exists|i: int|
                0 <= i < r.modules.len() && {
                    let m = #[trigger] r.modules[i];
                    m.rated_speed_mts.get() matches Some(rated)
                        && m.configured_speed_mts.get() matches Some(runs) && rated - runs > 50
                }
            &&& r.all_soldered <==> r.modules.len() > 0 && !exists|i: int|
                0 <= i < r.modules.len() && !(#[trigger] r.modules[i]).soldered
            &&& r.mismatched_modules <==> !all_alike(r.modules)
            &&& r.channel_config == channels_of(r.modules)
            &&& r.populated_slots == r.modules.len()
        }),
{
    let r = memory_report(structs);
    mismatched_unless_alike(r.modules);
    if r.running_below_rated_speed {
        let i = choose|i: int| 0 <= i < r.modules.len() && below_rated(#[trigger] r.modules[i]);
        let m = r.modules[i];
        assert(m.rated_speed_mts.get() matches Some(rated)
            && m.configured_speed_mts.get() matches Some(runs) && rated - runs > 50);
    }
    if exists|i: int|
        0 <= i < r.modules.len() && {
            let m = #[trigger] r.modules[i];
            m.rated_speed_mts.get() matches Some(rated)
                && m.configured_speed_mts.get() matches Some(runs) && rated - runs > 50
        } {
        let i = choose|i: int|
            0 <= i < r.modules.len() && {
                let m = #[trigger] r.modules[i];
                m.rated_speed_mts.get() matches Some(rated)
                    && m.configured_speed_mts.get() matches Some(runs) && rated - runs > 50
            };
        assert(below_rated(r.modules[i]));
    }
}

/// The memory type codes that have a name of their own.
pub open spec fn has_type_name(code: u8) -> bool {
    0x12 <= code <= 0x14 || code == 0x18 || 0x1A <= code <= 0x1E || 0x20 <= code <= 0x24
}

/// Memory types are told apart: two codes that are known have two different names, and none of
/// them is called unknown; all others are.
pub proof fn memory_types_are_told_apart(a: u8, b: u8)
    ensures
        has_type_name(a) && has_type_name(b) && a != b ==> kind_name(a) != kind_name(b),
        has_type_name(a) <==> kind_name(a) != "Unknown"@,
{
    reveal_strlit("DDR");
    reveal_strlit("DDR2");
    reveal_strlit("DDR2 FB-DIMM");
    reveal_strlit("DDR3");
    reveal_strlit("DDR4");
    reveal_strlit("LPDDR");
    reveal_strlit("LPDDR2");
    reveal_strlit("LPDDR3");
    reveal_strlit("LPDDR4");
    reveal_strlit("HBM");
    reveal_strlit("HBM2");
    reveal_strlit("DDR5");
    reveal_strlit("LPDDR5");
    reveal_strlit("HBM3");
    reveal_strlit("Unknown");
    let x = kind_name(a);
    let y = kind_name(b);
    assert("Unknown"@.len() == 7);
    if has_type_name(a) && has_type_name(b) && a != b {
        assert(x.len() != y.len() || x[0] != y[0] || x[x.len() - 1] != y[y.len() - 1]);
    }
}

/// The name of a memory type stands for its code, and for no other.
pub proof fn memory_names_stand_for_their_codes(code: u8)
    ensures
        kind_name(code) == "DDR"@ <==> code == 0x12,
        kind_name(code) == "DDR2"@ <==> code == 0x13,
        kind_name(code) == "DDR2 FB-DIMM"@ <==> code == 0x14,
        kind_name(code) == "DDR3"@ <==> code == 0x18,
        kind_name(code) == "DDR4"@ <==> code == 0x1A,
        kind_name(code) == "LPDDR"@ <==> code == 0x1B,
        kind_name(code) == "LPDDR2"@ <==> code == 0x1C,
        kind_name(code) == "LPDDR3"@ <==> code == 0x1D,
        kind_name(code) == "LPDDR4"@ <==> code == 0x1E,
        kind_name(code) == "HBM"@ <==> code == 0x20,
        kind_name(code) == "HBM2"@ <==> code == 0x21,
        kind_name(code) == "DDR5"@ <==> code == 0x22,
        kind_name(code) == "LPDDR5"@ <==> code == 0x23,
        kind_name(code) == "HBM3"@ <==> code == 0x24,
{
    memory_types_are_told_apart(code, 0x12);
    memory_types_are_told_apart(0x12, code);
    memory_types_are_told_apart(code, 0x13);
    memory_types_are_told_apart(0x13, code);
    memory_types_are_told_apart(code, 0x14);
    memory_types_are_told_apart(0x14, code);
    memory_types_are_told_apart(code, 0x18);
    memory_types_are_told_apart(0x18, code);
    memory_types_are_told_apart(code, 0x1A);
    memory_types_are_told_apart(0x1A, code);
    memory_types_are_told_apart(code, 0x1B);
    memory_types_are_told_apart(0x1B, code);
    memory_types_are_told_apart(code, 0x1C);
    memory_types_are_told_apart(0x1C, code);
    memory_types_are_told_apart(code, 0x1D);
    memory_types_are_told_apart(0x1D, code);
    memory_types_are_told_apart(code, 0x1E);
    memory_types_are_told_apart(0x1E, code);
    memory_types_are_told_apart(code, 0x20);
    memory_types_are_told_apart(0x20, code);
    memory_types_are_told_apart(code, 0x21);
    memory_types_are_told_apart(0x21, code);
    memory_types_are_told_apart(code, 0x22);
    memory_types_are_told_apart(0x22, code);
    memory_types_are_told_apart(code, 0x23);
    memory_types_are_told_apart(0x23, code);
    memory_types_are_told_apart(code, 0x24);
    memory_types_are_told_apart(0x24, code);
}

/// The name of a form factor stands for its code; both codes of a SODIMM have one name, and a
/// code without a name is unknown.
pub proof fn form_factors_stand_for_their_codes(code: u8)
    ensures
        factor_name(code) == "DIMM"@ <==> code == 8,
        factor_name(code) == "TSOP"@ <==> code == 9,
        factor_name(code) == "RIMM"@ <==> code == 11,
        factor_name(code) == "SODIMM"@ <==> code == 12 || code == 13,
        factor_name(code) == "Soldered (row of chips)"@ <==> code == 15,
        factor_name(code) == "Unknown"@ <==> code < 8 || code == 10 || code == 14 || code > 15,
{
    reveal_strlit("DIMM");
    reveal_strlit("TSOP");
    reveal_strlit("RIMM");
    reveal_strlit("SODIMM");
    reveal_strlit("Soldered (row of chips)");
    reveal_strlit("Unknown");
    assert("DIMM"@.len() == 4 && "DIMM"@[0] == 'D');
    assert("TSOP"@.len() == 4 && "TSOP"@[0] == 'T');
    assert("RIMM"@.len() == 4 && "RIMM"@[0] == 'R');
    assert("SODIMM"@.len() == 6 && "Soldered (row of chips)"@.len() == 23 && "Unknown"@.len() == 7);
}

/// Memory is soldered exactly where its form factor is called so.
pub proof fn soldered_memory_is_called_so(code: u8, r: bool)
    requires
        call_ensures(is_soldered, (code,), r),
    ensures
        r <==> factor_name(code) == "Soldered (row of chips)"@,
{
    form_factors_stand_for_their_codes(code);
}

} // verus!
