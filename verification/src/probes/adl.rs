//! AMD telemetry: which sensors to subscribe to, and what the driver's snapshot says.
//!
//! After a one-time subscription that names the sensors of interest, the driver keeps a
//! region of shared memory current; a sample is a read of that region.
use vstd::prelude::*;

use crate::measure::Power;
use crate::win::WinError;

verus! {

/// The result of a call that succeeded.
pub const ADL_OK: i32 = 0;

/// How many sensors a subscription and a snapshot have room for.
pub const ADL_PMLOG_MAX_SENSORS: usize = 256;

// Sensors. Zero ends a list and is not a sensor.
pub const ADL_SENSOR_MAXTYPES: u16 = 0;

pub const ADL_PMLOG_CLK_GFXCLK: u16 = 1;

pub const ADL_PMLOG_TEMPERATURE_EDGE: u16 = 8;

pub const ADL_PMLOG_FAN_RPM: u16 = 14;

pub const ADL_PMLOG_FAN_PERCENTAGE: u16 = 15;

pub const ADL_PMLOG_ASIC_POWER: u16 = 23;

pub const ADL_PMLOG_TEMPERATURE_HOTSPOT: u16 = 27;

pub const ADL_PMLOG_GFX_POWER: u16 = 30;

pub const ADL_PMLOG_THROTTLER_STATUS: u16 = 35;

/// The size of one entry of the adapter list: nine words and six 256-byte texts.
pub const ADAPTER_INFO_SIZE: usize = 1572;

/// What an entry of the adapter list says of an adapter.
#[derive(Debug, Clone, Copy, PartialEq, Eq, Structural)]
pub struct AdapterEntry {
    pub adapter_index: i32,
    pub present: i32,
}

/// The index of the first adapter that is present.
pub open spec fn first_present(adapters: Seq<AdapterEntry>) -> Option<i32>
    decreases adapters.len(),
{
    if adapters.len() == 0 {
        None
    } else if adapters[0].present != 0 {
        Some(adapters[0].adapter_index)
    } else {
        first_present(adapters.drop_first())
    }
}

/// The adapter to subscribe to. Every adapter that the library lists is an AMD adapter, and
/// several entries may stand for one card; any of them opens the same device.
pub fn find_amd_adapter(adapters: &[AdapterEntry]) -> (r: Option<i32>)
    ensures
        r == first_present(adapters@),
{
    let mut i: usize = 0;
    assert(adapters@.skip(0) == adapters@);
    while i < adapters.len()
        invariant
            i <= adapters.len(),
            first_present(adapters@) == first_present(adapters@.skip(i as int)),
        decreases adapters.len() - i,
    {
        assert(adapters@.skip(i as int)[0] == adapters@[i as int]);
        assert(adapters@.skip(i as int).drop_first() == adapters@.skip(i + 1));
        if adapters[i].present != 0 {
            return Some(adapters[i].adapter_index);
        }
        i += 1;
    }
    None
}

/// The sensors that a sample reads, in the order in which they are asked for.
pub open spec fn wanted() -> Seq<u16> {
    seq![
        ADL_PMLOG_CLK_GFXCLK,
        ADL_PMLOG_TEMPERATURE_EDGE,
        ADL_PMLOG_TEMPERATURE_HOTSPOT,
        ADL_PMLOG_FAN_RPM,
        ADL_PMLOG_FAN_PERCENTAGE,
        ADL_PMLOG_GFX_POWER,
        ADL_PMLOG_ASIC_POWER,
        ADL_PMLOG_THROTTLER_STATUS,
    ]
}

/// A list of sensors, up to the zero that ends it, names this one.
pub open spec fn lists(sensors: Seq<u16>, id: u16) -> bool
    decreases sensors.len(),
{
    if sensors.len() == 0 || sensors[0] == ADL_SENSOR_MAXTYPES {
        false
    } else {
        sensors[0] == id || lists(sensors.drop_first(), id)
    }
}

/// Those of `ids` that a list of sensors names.
pub open spec fn listed(sensors: Seq<u16>, ids: Seq<u16>) -> Seq<u16>
    decreases ids.len(),
{
    if ids.len() == 0 {
        seq![]
    } else {
        let before = listed(sensors, ids.drop_last());
        if lists(sensors, ids.last()) {
            before.push(ids.last())
        } else {
            before
        }
    }
}

/// The subscription: the wanted sensors that the adapter supports, then zeros.
pub open spec fn subscription(supported: Seq<u16>) -> Seq<u16> {
    let chosen = listed(supported, wanted());
    Seq::new(
        ADL_PMLOG_MAX_SENSORS as nat,
        |i: int| {
            if i < chosen.len() {
                chosen[i]
            } else {
                ADL_SENSOR_MAXTYPES
            }
        },
    )
}

fn is_listed(sensors: &[u16], id: u16) -> (r: bool)
    ensures
        r == lists(sensors@, id),
{
    let mut i: usize = 0;
    assert(sensors@.skip(0) == sensors@);
    while i < sensors.len() && sensors[i] != ADL_SENSOR_MAXTYPES
        invariant
            i <= sensors.len(),
            lists(sensors@, id) == lists(sensors@.skip(i as int), id),
        decreases sensors.len() - i,
    {
        assert(sensors@.skip(i as int)[0] == sensors@[i as int]);
        assert(sensors@.skip(i as int).drop_first() == sensors@.skip(i + 1));
        if sensors[i] == id {
            return true;
        }
        i += 1;
    }
    assert(i < sensors.len() ==> sensors@.skip(i as int)[0] == ADL_SENSOR_MAXTYPES);
    false
}

proof fn listed_is_short(sensors: Seq<u16>, ids: Seq<u16>)
    ensures
        listed(sensors, ids).len() <= ids.len(),
    decreases ids.len(),
{
    if ids.len() > 0 {
        listed_is_short(sensors, ids.drop_last());
    }
}

/// The sensors to subscribe to: only those that are read, and only those that the adapter
/// supports. Naming an unsupported sensor makes the subscription fail.
pub fn sensors_to_start(supported: &[u16]) -> (v: Vec<u16>)
    ensures
        v@ == subscription(supported@),
{
    let ids: Vec<u16> = vec![
        ADL_PMLOG_CLK_GFXCLK,
        ADL_PMLOG_TEMPERATURE_EDGE,
        ADL_PMLOG_TEMPERATURE_HOTSPOT,
        ADL_PMLOG_FAN_RPM,
        ADL_PMLOG_FAN_PERCENTAGE,
        ADL_PMLOG_GFX_POWER,
        ADL_PMLOG_ASIC_POWER,
        ADL_PMLOG_THROTTLER_STATUS,
    ];
    assert(ids@ == wanted());
    let mut v: Vec<u16> = Vec::new();
    assert(v@ == listed(supported@, ids@.take(0)));
    for i in 0..ids.len()
        invariant
            v@ == listed(supported@, ids@.take(i as int)),
    {
        assert(ids@.take(i + 1).drop_last() == ids@.take(i as int));
        assert(ids@.take(i + 1).last() == ids@[i as int]);
        if is_listed(supported, ids[i]) {
            v.push(ids[i]);
        }
    }
    assert(ids@.take(ids@.len() as int) == ids@);
    proof {
        listed_is_short(supported@, wanted());
    }
    let ghost chosen = v@;
    while v.len() < ADL_PMLOG_MAX_SENSORS
        invariant
            chosen.len() <= v.len() <= ADL_PMLOG_MAX_SENSORS,
            forall|i: int|
                0 <= i < v.len() ==> #[trigger] v@[i] == (if i < chosen.len() {
                    chosen[i]
                } else {
                    ADL_SENSOR_MAXTYPES
                }),
        decreases ADL_PMLOG_MAX_SENSORS - v.len(),
    {
        v.push(ADL_SENSOR_MAXTYPES);
    }
    v
}

/// The value of a sensor in a snapshot of (sensor, value) pairs, which a zero ends.
pub open spec fn sensor_value(values: Seq<(u32, u32)>, id: u16) -> Option<u32>
    decreases values.len(),
{
    if values.len() == 0 || values[0].0 == ADL_SENSOR_MAXTYPES {
        None
    } else if values[0].0 == id {
        Some(values[0].1)
    } else {
        sensor_value(values.drop_first(), id)
    }
}

/// What the throttle sensor says. It is a single coarse figure, not broken into causes.
#[derive(Debug, Clone, Copy, PartialEq, Eq, Structural)]
pub struct AdlThrottleStatus {
    pub any_throttling: bool,
}

/// The driver's sensor snapshot: nothing where it has no region to read.
pub struct Snapshot {
    pub values: Option<Vec<(u32, u32)>>,
}

impl Snapshot {
    /// The value of a sensor.
    pub open spec fn value_of(self, id: u16) -> Option<u32> {
        match self.values {
            Some(v) => sensor_value(v@, id),
            None => None,
        }
    }

    /// The value of a sensor: nothing where the snapshot does not hold it.
    pub fn sensor(&self, id: u16) -> (r: Option<u32>)
        ensures
            r == self.value_of(id),
    {
        let values = match &self.values {
            Some(v) => v,
            None => {
                return None;
            },
        };
        let mut i: usize = 0;
        assert(values@.skip(0) == values@);
        while i < values.len() && values[i].0 != ADL_SENSOR_MAXTYPES as u32
            invariant
                i <= values.len(),
                self.value_of(id) == sensor_value(values@.skip(i as int), id),
            decreases values.len() - i,
        {
            assert(values@.skip(i as int)[0] == values@[i as int]);
            assert(values@.skip(i as int).drop_first() == values@.skip(i + 1));
            if values[i].0 == id as u32 {
                return Some(values[i].1);
            }
            i += 1;
        }
        assert(i < values.len() ==> values@.skip(i as int)[0].0 == 0);
        None
    }

    pub fn graphics_clock_mhz(&self) -> (r: Option<u32>)
        ensures
            r == self.value_of(ADL_PMLOG_CLK_GFXCLK),
    {
        self.sensor(ADL_PMLOG_CLK_GFXCLK)
    }

    pub fn edge_temperature_c(&self) -> (r: Option<u32>)
        ensures
            r == self.value_of(ADL_PMLOG_TEMPERATURE_EDGE),
    {
        self.sensor(ADL_PMLOG_TEMPERATURE_EDGE)
    }

    pub fn hotspot_temperature_c(&self) -> (r: Option<u32>)
        ensures
            r == self.value_of(ADL_PMLOG_TEMPERATURE_HOTSPOT),
    {
        self.sensor(ADL_PMLOG_TEMPERATURE_HOTSPOT)
    }

    /// Tachometer reading. Some boards report a fan percentage and no speed.
    pub fn fan_rpm(&self) -> (r: Option<u32>)
        ensures
            r == self.value_of(ADL_PMLOG_FAN_RPM),
    {
        self.sensor(ADL_PMLOG_FAN_RPM)
    }

    pub fn fan_percent(&self) -> (r: Option<u32>)
        ensures
            r == self.value_of(ADL_PMLOG_FAN_PERCENTAGE),
    {
        self.sensor(ADL_PMLOG_FAN_PERCENTAGE)
    }

    /// Board power in watts where the adapter reports it, else that of the graphics rail.
    pub open spec fn watts(self) -> Option<u32> {
        match self.value_of(ADL_PMLOG_ASIC_POWER) {
            Some(w) => Some(w),
            None => self.value_of(ADL_PMLOG_GFX_POWER),
        }
    }

    /// Total board power where the adapter reports it, falling back to the graphics rail
    /// alone. Board power comes first because it is the only figure that can be compared to
    /// the rating of the card.
    pub fn power_watts(&self) -> (r: Option<Power>)
        ensures
            match self.watts() {
                Some(w) => r == Some(Power { microwatts: (w * 1_000_000) as u64 }),
                None => r is None,
            },
    {
        let w = match self.sensor(ADL_PMLOG_ASIC_POWER) {
            Some(w) => w,
            None => match self.sensor(ADL_PMLOG_GFX_POWER) {
                Some(w) => w,
                None => {
                    return None;
                },
            },
        };
        Some(Power { microwatts: w as u64 * 1_000_000 })
    }

    pub fn throttle_status(&self) -> (r: Option<AdlThrottleStatus>)
        ensures
            r == match self.value_of(ADL_PMLOG_THROTTLER_STATUS) {
                Some(bits) => Some(AdlThrottleStatus { any_throttling: bits != 0 }),
                None => None,
            },
    {
        match self.sensor(ADL_PMLOG_THROTTLER_STATUS) {
            Some(bits) => Some(AdlThrottleStatus { any_throttling: bits != 0 }),
            None => None,
        }
    }
}

// ---------------------------------------------------------------------------
// Opening a session
// ---------------------------------------------------------------------------

/// How far the opening of a session has come: what is open, and has to be closed again.
#[derive(Debug, Clone, Copy, PartialEq, Eq, Structural)]
pub struct Open {
    pub control: bool,
    pub device: bool,
}

/// What to do next to open a session.
pub enum AdlStep {
    /// List the adapters.
    ListAdapters,
    /// Create a logging device for this adapter.
    CreateDevice { adapter: i32 },
    /// Ask which sensors this adapter supports.
    QuerySupport { adapter: i32 },
    /// Subscribe to these sensors.
    Start { adapter: i32, sensors: Vec<u16> },
    /// The session is open.
    Ready { adapter: i32 },
    /// Close what is open, the device before the control session, and report the error.
    Fail { close: Open, error: WinError },
}

/// After the control session was asked for.
pub fn after_create(rc: i32) -> (s: AdlStep)
    ensures
        rc == ADL_OK ==> s is ListAdapters,
        rc != ADL_OK ==> (s matches AdlStep::Fail { close, error } && close == (Open {
            control: false,
            device: false,
        }) && error.context@ == "ADL_Main_Control_Create failed"@ && error.code == 0),
{
    if rc != ADL_OK {
        return AdlStep::Fail {
            close: Open { control: false, device: false },
            error: WinError::new("ADL_Main_Control_Create failed", 0),
        };
    }
    AdlStep::ListAdapters
}

/// After the adapters were listed; nothing where they could not be.
pub fn after_list(adapters: &Option<Vec<AdapterEntry>>) -> (s: AdlStep)
    ensures
        match (match *adapters {
            Some(list) => first_present(list@),
            None => None,
        }) {
            Some(index) => s matches AdlStep::CreateDevice { adapter } && adapter == index,
            None => s matches AdlStep::Fail { close, error } && close == (Open {
                control: true,
                device: false,
            }) && error.context@ == "no AMD adapter found via ADL"@ && error.code == 0,
        },
{
    let found = match adapters {
        Some(list) => find_amd_adapter(list.as_slice()),
        None => None,
    };
    match found {
        Some(adapter) => AdlStep::CreateDevice { adapter },
        None => AdlStep::Fail {
            close: Open { control: true, device: false },
            error: WinError::new("no AMD adapter found via ADL", 0),
        },
    }
}

/// After the logging device was asked for.
pub fn after_device(rc: i32, adapter: i32) -> (s: AdlStep)
    ensures
        rc == ADL_OK ==> (s matches AdlStep::QuerySupport { adapter: a } && a == adapter),
        rc != ADL_OK ==> (s matches AdlStep::Fail { close, error } && close == (Open {
            control: true,
            device: false,
        }) && error.context@ == "ADL2_Device_PMLog_Device_Create failed"@ && error.code == 0),
{
    if rc != ADL_OK {
        return AdlStep::Fail {
            close: Open { control: true, device: false },
            error: WinError::new("ADL2_Device_PMLog_Device_Create failed", 0),
        };
    }
    AdlStep::QuerySupport { adapter }
}

/// After the supported sensors were asked for.
pub fn after_support(rc: i32, adapter: i32, supported: &[u16]) -> (s: AdlStep)
    ensures
        rc == ADL_OK ==> (s matches AdlStep::Start { adapter: a, sensors } && a == adapter
            && sensors@ == subscription(supported@)),
        rc != ADL_OK ==> (s matches AdlStep::Fail { close, error } && close == (Open {
            control: true,
            device: true,
        }) && error.context@ == "ADL2_Adapter_PMLog_Support_Get failed"@ && error.code == 0),
{
    if rc != ADL_OK {
        return AdlStep::Fail {
            close: Open { control: true, device: true },
            error: WinError::new("ADL2_Adapter_PMLog_Support_Get failed", 0),
        };
    }
    AdlStep::Start { adapter, sensors: sensors_to_start(supported) }
}

/// After the subscription was asked for.
pub fn after_start(rc: i32, adapter: i32) -> (s: AdlStep)
    ensures
        rc == ADL_OK ==> (s matches AdlStep::Ready { adapter: a } && a == adapter),
        rc != ADL_OK ==> (s matches AdlStep::Fail { close, error } && close == (Open {
            control: true,
            device: true,
        }) && error.context@ == "ADL2_Adapter_PMLog_Start failed"@ && error.code == 0),
{
    if rc != ADL_OK {
        return AdlStep::Fail {
            close: Open { control: true, device: true },
            error: WinError::new("ADL2_Adapter_PMLog_Start failed", 0),
        };
    }
    AdlStep::Ready { adapter }
}

// ---------------------------------------------------------------------------
// Laws
// ---------------------------------------------------------------------------

proof fn listed_sensors_are_supported(supported: Seq<u16>, ids: Seq<u16>)
    ensures
        forall|i: int|
            0 <= i < listed(supported, ids).len() ==> lists(
                supported,
                #[trigger] listed(supported, ids)[i],
            ) && ids.contains(listed(supported, ids)[i]),
    decreases ids.len(),
{
    if ids.len() > 0 {
        let before = listed(supported, ids.drop_last());
        listed_sensors_are_supported(supported, ids.drop_last());
        assert forall|i: int| 0 <= i < listed(supported, ids).len() implies lists(
            supported,
            #[trigger] listed(supported, ids)[i],
        ) && ids.contains(listed(supported, ids)[i]) by {
            if i < before.len() {
                assert(listed(supported, ids)[i] == before[i]);
                assert(ids.drop_last().contains(before[i]));
                let k = choose|k: int| 0 <= k < ids.len() - 1 && ids.drop_last()[k] == before[i];
                assert(ids[k] == before[i]);
            } else {
                assert(ids[ids.len() - 1] == ids.last());
            }
        }
    }
}

/// A subscription names nothing but wanted sensors that the adapter supports, and it is ended
/// by a zero.
pub proof fn subscriptions_are_supported(supported: Seq<u16>, i: int)
    requires
        0 <= i < ADL_PMLOG_MAX_SENSORS,
    ensures
        subscription(supported)[i] == ADL_SENSOR_MAXTYPES || (lists(
            supported,
            subscription(supported)[i],
        ) && wanted().contains(subscription(supported)[i])),
        subscription(supported)[8] == ADL_SENSOR_MAXTYPES,
        subscription(supported).len() == ADL_PMLOG_MAX_SENSORS,
{
    listed_sensors_are_supported(supported, wanted());
    listed_is_short(supported, wanted());
}

/// Zero is never a sensor.
pub proof fn zero_is_never_a_sensor(values: Seq<(u32, u32)>)
    ensures
        sensor_value(values, ADL_SENSOR_MAXTYPES) is None,
    decreases values.len(),
{
    if values.len() > 0 {
        zero_is_never_a_sensor(values.drop_first());
    }
}

/// The sensors have the numbers of the driver's interface.
pub proof fn sensors_have_their_numbers()
    ensures
        ADL_PMLOG_CLK_GFXCLK == 1,
        ADL_PMLOG_TEMPERATURE_EDGE == 8,
        ADL_PMLOG_FAN_RPM == 14,
        ADL_PMLOG_FAN_PERCENTAGE == 15,
        ADL_PMLOG_ASIC_POWER == 23,
        ADL_PMLOG_TEMPERATURE_HOTSPOT == 27,
        ADL_PMLOG_GFX_POWER == 30,
        ADL_PMLOG_THROTTLER_STATUS == 35,
{
}

/// Entry `k` of a snapshot is the first for a sensor, and no zero ends the snapshot before it.
pub open spec fn first_entry_at(values: Seq<(u32, u32)>, id: u16, k: int) -> bool {
    0 <= k < values.len() && values[k].0 == id && forall|j: int|
        0 <= j < k ==> (#[trigger] values[j]).0 != id && values[j].0 != 0
}

/// The snapshot ends, by a zero or by its length, without an entry for a sensor.
pub open spec fn ends_without(values: Seq<(u32, u32)>, id: u16, k: int) -> bool {
    0 <= k <= values.len() && (k == values.len() || values[k].0 == 0) && forall|j: int|
        0 <= j < k ==> (#[trigger] values[j]).0 != id && values[j].0 != 0
}

/// A sensor's value is that of its first entry before the end of the snapshot, and is not there
/// without one.
pub proof fn a_sensor_is_read_from_its_first_entry(values: Seq<(u32, u32)>, id: u16, k: int)
    requires
        id != 0,
    ensures
        first_entry_at(values, id, k) ==> sensor_value(values, id) == Some(values[k].1),
        ends_without(values, id, k) ==> sensor_value(values, id) is None,
    decreases values.len(),
{
    if values.len() > 0 {
        let rest = values.drop_first();
        a_sensor_is_read_from_its_first_entry(rest, id, k - 1);
        if k > 0 && (first_entry_at(values, id, k) || ends_without(values, id, k)) {
            assert(values[0].0 != id && values[0].0 != 0);
            assert forall|j: int| 0 <= j < k - 1 implies (#[trigger] rest[j]).0 != id && rest[j].0
                != 0 by {
                assert(rest[j] == values[j + 1]);
            }
            if k < values.len() {
                assert(rest[k - 1] == values[k]);
            }
        }
    }
}

/// Power is that of the whole board (sensor 23) where it is reported, and that of the graphics
/// rail (30) where it is not.
pub proof fn board_power_comes_first(s: Snapshot)
    ensures
        s.value_of(23) is Some ==> s.watts() == s.value_of(23),
        s.value_of(23) is None ==> s.watts() == s.value_of(30),
        s.values is None ==> s.watts() is None,
{
}

/// The list of supported sensors names this one before the zero that ends it.
pub open spec fn names_sensor(supported: Seq<u16>, id: u16) -> bool {
    exists|k: int|
        0 <= k < supported.len() && #[trigger] supported[k] == id && forall|j: int|
            0 <= j <= k ==> #[trigger] supported[j] != 0
}

proof fn listing_is_naming(supported: Seq<u16>, id: u16)
    ensures
        lists(supported, id) == names_sensor(supported, id),
    decreases supported.len(),
{
    if supported.len() > 0 && supported[0] != 0 {
        let rest = supported.drop_first();
        listing_is_naming(rest, id);
        if names_sensor(rest, id) {
            let k = choose|k: int|
                0 <= k < rest.len() && #[trigger] rest[k] == id && forall|j: int|
                    0 <= j <= k ==> #[trigger] rest[j] != 0;
            assert(supported[k + 1] == id);
            assert forall|j: int| 0 <= j <= k + 1 implies #[trigger] supported[j] != 0 by {
                if j > 0 {
                    assert(supported[j] == rest[j - 1]);
                }
            }
        }
        if supported[0] == id {
            assert forall|j: int| 0 <= j <= 0 implies #[trigger] supported[j] != 0 by {}
            assert(names_sensor(supported, id));
        }
        if names_sensor(supported, id) && supported[0] != id {
            let k = choose|k: int|
                0 <= k < supported.len() && #[trigger] supported[k] == id && forall|j: int|
                    0 <= j <= k ==> #[trigger] supported[j] != 0;
            assert(rest[k - 1] == id);
            assert forall|j: int| 0 <= j <= k - 1 implies #[trigger] rest[j] != 0 by {
                assert(rest[j] == supported[j + 1]);
            }
        }
    }
}

proof fn every_listed_id_is_kept(supported: Seq<u16>, ids: Seq<u16>, id: u16)
    requires
        ids.contains(id),
        lists(supported, id),
    ensures
        listed(supported, ids).contains(id),
    decreases ids.len(),
{
    if ids.len() > 0 {
        let head = ids.drop_last();
        let before = listed(supported, head);
        let all = listed(supported, ids);
        if ids.last() == id {
            assert(all[all.len() - 1] == id);
        } else {
            let k = choose|k: int| 0 <= k < ids.len() && ids[k] == id;
            assert(head[k] == id);
            every_listed_id_is_kept(supported, head, id);
            let m = choose|m: int| 0 <= m < before.len() && before[m] == id;
            assert(all[m] == id);
        }
    }
}

/// The subscription names a sensor exactly where it is one of the eight that are read and the
/// adapter names it as supported.
pub proof fn the_subscription_names_what_is_read_and_supported(supported: Seq<u16>, id: u16)
    requires
        id != 0,
    ensures
        subscription(supported).contains(id) <==> set![
            1u16,
            8u16,
            14u16,
            15u16,
            23u16,
            27u16,
            30u16,
            35u16,
        ].contains(id) && names_sensor(supported, id),
{
    listing_is_naming(supported, id);
    listed_sensors_are_supported(supported, wanted());
    listed_is_short(supported, wanted());
    let chosen = listed(supported, wanted());
    let all = subscription(supported);
    let w = wanted();
    assert(w[0] == 1 && w[1] == 8 && w[2] == 27 && w[3] == 14 && w[4] == 15 && w[5] == 30 && w[6]
        == 23 && w[7] == 35);
    if all.contains(id) {
        let k = choose|k: int| 0 <= k < all.len() && all[k] == id;
        assert(chosen[k] == id);
        assert(lists(supported, chosen[k]) && w.contains(chosen[k]));
    }
    if set![1u16, 8u16, 14u16, 15u16, 23u16, 27u16, 30u16, 35u16].contains(id) && names_sensor(
        supported,
        id,
    ) {
        assert(w.contains(id));
        every_listed_id_is_kept(supported, w, id);
        let k = choose|k: int| 0 <= k < chosen.len() && chosen[k] == id;
        assert(all[k] == id);
    }
}

/// The adapter that is opened is the first that is present; without one there is none.
pub proof fn the_first_present_adapter_is_opened(adapters: Seq<AdapterEntry>, k: int)
    requires
        0 <= k <= adapters.len(),
        forall|j: int| 0 <= j < k ==> (#[trigger] adapters[j]).present == 0,
    ensures
        k < adapters.len() && adapters[k].present != 0 ==> first_present(adapters) == Some(
            adapters[k].adapter_index,
        ),
        k == adapters.len() ==> first_present(adapters) is None,
    decreases k,
{
    if k > 0 {
        let rest = adapters.drop_first();
        assert(adapters[0].present == 0);
        assert forall|j: int| 0 <= j < k - 1 implies (#[trigger] rest[j]).present == 0 by {
            assert(rest[j] == adapters[j + 1]);
        }
        the_first_present_adapter_is_opened(rest, k - 1);
        if k < adapters.len() {
            assert(rest[k - 1] == adapters[k]);
        }
    }
}

} // verus!
