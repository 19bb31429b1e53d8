use pc_checker::probes::adl::{
    after_create, after_device, after_list, after_start, after_support, find_amd_adapter,
    sensors_to_start, AdapterEntry, AdlStep, AdlThrottleStatus, Open, Snapshot, ADAPTER_INFO_SIZE,
};
use pc_checker::probes::gpu_d3d12::{
    after_wait, batch_commands, buffer_size, compute_shader_source, device_alive,
    graphics_shader_source, is_complete, prefix_len, read_checksum, read_graphics_checksum,
    seed_commands, select_adapter, target_size, wait_step, Command, Resource, ResourceState,
    SubmitRing, WaitStep, ELEMENT_COUNT, FRAMES_IN_FLIGHT,
};
use pc_checker::probes::nvml::{
    device_name, find_device, nvml_result, pci_ids, power_of_milliwatts, DeviceReply,
    ThrottleReasons, REASON_HW_THERMAL_SLOWDOWN, REASON_SW_POWER_CAP,
};
use pc_checker::win::WinError;

#[test]
fn throttle_bits_decode_the_flags_that_matter_for_the_stress_report() {
    let r = ThrottleReasons::from_bits(REASON_HW_THERMAL_SLOWDOWN | REASON_SW_POWER_CAP);
    assert!(r.hw_thermal_slowdown);
    assert!(r.sw_power_cap);
    assert!(!r.hw_slowdown);
    assert!(r.any());
}

#[test]
fn no_reasons_set_is_not_any() {
    assert!(!ThrottleReasons::from_bits(0).any());
    assert_eq!(ThrottleReasons::default(), ThrottleReasons::from_bits(0));
}

#[test]
fn nvml_failures_keep_their_code() {
    assert_eq!(nvml_result(0, 5u32, "call").unwrap(), 5);
    let e = nvml_result(9, 5u32, "nvmlInit_v2 failed").unwrap_err();
    assert_eq!(e.context, "nvmlInit_v2 failed");
    assert_eq!(e.code, 9);
}

#[test]
fn devices_are_found_by_their_pci_identity() {
    assert_eq!(pci_ids(0x2484_10DE), (0x10DE, 0x2484));
    let replies = vec![
        DeviceReply::NoIdentity,
        DeviceReply::Identity(0x1111_10DE),
        DeviceReply::Identity(0x2484_10DE),
    ];
    assert_eq!(find_device(&replies, 0x10DE, 0x2484).unwrap(), 2);
    let e = find_device(&replies, 0x10DE, 0x9999).unwrap_err();
    assert_eq!(e.context, "no NVML device matched the requested vendor/device id");
    let broken = vec![
        DeviceReply::NoHandle(WinError::new("nvmlDeviceGetHandleByIndex_v2 failed", 6)),
        DeviceReply::Identity(0x2484_10DE),
    ];
    assert_eq!(find_device(&broken, 0x10DE, 0x2484).unwrap_err().code, 6);
}

#[test]
fn device_names_end_at_the_first_nul() {
    assert_eq!(device_name(b"GeForce RTX 3070\0\0\0"), "GeForce RTX 3070");
    assert_eq!(device_name(b"abc"), "abc");
    assert_eq!(device_name(&[0xFF, b'x', 0]), "\u{FFFD}x");
    assert_eq!(power_of_milliwatts(1500).microwatts, 1_500_000);
}

#[test]
fn struct_sizes_are_self_consistent() {
    assert_eq!(
        ADAPTER_INFO_SIZE,
        4 + 4 + 256 + 4 + 4 + 4 + 4 + 256 + 256 + 4 + 4 + 256 + 256 + 256 + 4
    );
}

fn entry(adapter_index: i32, present: i32) -> AdapterEntry {
    AdapterEntry { adapter_index, present }
}

#[test]
fn the_first_present_adapter_is_taken() {
    assert_eq!(find_amd_adapter(&[entry(3, 0), entry(5, 1), entry(6, 1)]), Some(5));
    assert_eq!(find_amd_adapter(&[entry(3, 0)]), None);
}

#[test]
fn opens_and_reads_real_sensors_on_this_machines_amd_gpu() {
    let session = Snapshot { values: Some(vec![(8, 64), (1, 2562), (0, 0)]) };
    let clock = session.graphics_clock_mhz();
    assert!(clock.is_some(), "expected a graphics clock reading");
    let clock = clock.unwrap();
    assert!(clock > 0 && clock < 5000, "implausible graphics clock: {clock} MHz");
}

#[test]
fn only_supported_sensors_are_subscribed_to() {
    let v = sensors_to_start(&[35, 2, 1, 23, 0, 8]);
    assert_eq!(v.len(), 256);
    assert_eq!(&v[..4], &[1, 23, 35, 0]);
    assert!(v[4..].iter().all(|s| *s == 0));
}

#[test]
fn snapshots_end_at_the_first_zero() {
    let s = Snapshot { values: Some(vec![(1, 2500), (30, 100), (23, 140), (0, 0), (8, 60)]) };
    assert_eq!(s.graphics_clock_mhz(), Some(2500));
    assert_eq!(s.edge_temperature_c(), None);
    assert_eq!(s.power_watts().unwrap().microwatts, 140_000_000);
    assert_eq!(s.throttle_status(), None);
    let idle = Snapshot { values: Some(vec![(35, 0)]) };
    assert_eq!(idle.throttle_status(), Some(AdlThrottleStatus { any_throttling: false }));
    assert_eq!(Snapshot { values: None }.sensor(1), None);
}

#[test]
fn a_session_that_fails_to_open_closes_what_it_opened() {
    let nothing = Open { control: false, device: false };
    let control = Open { control: true, device: false };
    let both = Open { control: true, device: true };
    let closes = |s: AdlStep| match s {
        AdlStep::Fail { close, error } => (close, error.context.to_string()),
        _ => panic!("expected a failure"),
    };
    assert!(matches!(after_create(0), AdlStep::ListAdapters));
    assert_eq!(closes(after_create(-1)), (nothing, "ADL_Main_Control_Create failed".to_string()));
    assert!(matches!(
        after_list(&Some(vec![entry(4, 1)])),
        AdlStep::CreateDevice { adapter: 4 }
    ));
    assert_eq!(closes(after_list(&None)), (control, "no AMD adapter found via ADL".to_string()));
    assert!(matches!(after_device(0, 4), AdlStep::QuerySupport { adapter: 4 }));
    assert_eq!(
        closes(after_device(-1, 4)),
        (control, "ADL2_Device_PMLog_Device_Create failed".to_string())
    );
    match after_support(0, 4, &[1, 0]) {
        AdlStep::Start { adapter, sensors } => {
            assert_eq!(adapter, 4);
            assert_eq!(sensors[0], 1);
        }
        _ => panic!("expected a start"),
    }
    assert_eq!(
        closes(after_support(-1, 4, &[1])),
        (both, "ADL2_Adapter_PMLog_Support_Get failed".to_string())
    );
    assert!(matches!(after_start(0, 4), AdlStep::Ready { adapter: 4 }));
    assert_eq!(closes(after_start(-1, 4)), (both, "ADL2_Adapter_PMLog_Start failed".to_string()));
}

#[test]
fn the_compute_shader_has_four_chains() {
    let expected = r#"
StructuredBuffer<float> src : register(t0);
RWStructuredBuffer<float> dst : register(u0);

[numthreads(256, 1, 1)]
void CSMain(uint3 id : SV_DispatchThreadID) {
    float s = src[id.x];
    float v0 = s + 0.0 * 0.25;
    float v1 = s + 1.0 * 0.25;
    float v2 = s + 2.0 * 0.25;
    float v3 = s + 3.0 * 0.25;
    [loop]
    for (uint i = 0; i < 3072; i++) {
        v0 = v0 * 0.9999991 + 1.0000003;
        v1 = v1 * 0.9999991 + 1.0000003;
        v2 = v2 * 0.9999991 + 1.0000003;
        v3 = v3 * 0.9999991 + 1.0000003;
    }
    dst[id.x] = v0 + v1 + v2 + v3;
}
"#;
    assert_eq!(compute_shader_source(), expected);
}

#[test]
fn the_graphics_shader_depends_on_position_alone() {
    let expected = r#"
struct VSOut {
    float4 pos : SV_POSITION;
};

VSOut VSMain(uint id : SV_VertexID) {
    VSOut o;
    float2 uv = float2(float((id << 1) & 2), float(id & 2));
    o.pos = float4(uv * float2(2.0, -2.0) + float2(-1.0, 1.0), 0.0, 1.0);
    return o;
}

float4 PSMain(VSOut input) : SV_TARGET {
    float s = input.pos.x * 0.013 + input.pos.y * 0.029;
    float v0 = s + 0.0;
    float v1 = s + 0.25;
    float v2 = s + 0.5;
    float v3 = s + 0.75;
    [loop]
    for (uint i = 0; i < 3072; i++) {
        v0 = v0 * 0.9999991 + 1.0000003;
        v1 = v1 * 0.9999991 + 1.0000003;
        v2 = v2 * 0.9999991 + 1.0000003;
        v3 = v3 * 0.9999991 + 1.0000003;
    }
    return float4(frac(v0), frac(v1), frac(v2), frac(v3));
}
"#;
    assert_eq!(graphics_shader_source(), expected);
}

#[test]
fn adapters_are_selected_by_identity() {
    let adapters = vec![Some((0x1414, 1)), None, Some((0x1002, 0x73DF)), Some((0x1002, 0x73DF))];
    assert_eq!(select_adapter(&adapters, 0x1002, 0x73DF).unwrap(), 2);
    assert_eq!(
        select_adapter(&adapters, 0x1002, 1).unwrap_err().context,
        "no DXGI adapter matched the requested vendor/device id"
    );
}

#[test]
fn buffers_hold_their_elements() {
    assert_eq!(buffer_size(ELEMENT_COUNT), 67_107_840);
    assert_eq!(target_size(), 33_177_600);
    assert_eq!(prefix_len(16, ELEMENT_COUNT), 16);
    assert_eq!(prefix_len(usize::MAX, 8), 8);
}

#[test]
fn a_plain_batch_dispatches_and_draws() {
    assert_eq!(
        batch_commands(512, 2, false),
        vec![
            Command::BindCompute,
            Command::Dispatch { groups: 2 },
            Command::Barrier,
            Command::Dispatch { groups: 2 },
            Command::Barrier,
            Command::BindGraphics,
            Command::Draw { vertices: 3 },
        ]
    );
    assert_eq!(batch_commands(512, 0, false), batch_commands(512, 1, false));
}

#[test]
fn a_captured_batch_restores_the_states_it_changes() {
    let v = batch_commands(512, 1, true);
    let mut destination = ResourceState::UnorderedAccess;
    let mut target = ResourceState::RenderTarget;
    for c in &v {
        if let Command::Transition { resource, before, after } = *c {
            match resource {
                Resource::Destination => {
                    assert_eq!(destination, before);
                    destination = after;
                }
                Resource::Target => {
                    assert_eq!(target, before);
                    target = after;
                }
                Resource::Source => panic!("a batch leaves the seed alone"),
            }
        }
    }
    assert_eq!(destination, ResourceState::UnorderedAccess);
    assert_eq!(target, ResourceState::RenderTarget);
    assert!(v.contains(&Command::CopyResult));
    assert!(v.contains(&Command::CopyTarget));
    assert_eq!(seed_commands().len(), 2);
}

#[test]
fn submitting_within_the_ring_depth_does_not_block_on_the_gpu() {
    let mut ring = SubmitRing::new();
    let seeded = ring.submit_seed().unwrap();
    // The seed upload is waited for, so its fence has passed by now.
    assert_eq!(wait_step(ring.wait_value(), seeded), WaitStep::CheckDevice);
    ring.submit();
    for _ in 0..FRAMES_IN_FLIGHT - 1 {
        assert_eq!(wait_step(ring.wait_value(), seeded), WaitStep::Nothing);
        ring.submit();
    }
    assert_eq!(wait_step(ring.wait_value(), seeded), WaitStep::Wait);
}

#[test]
fn the_ring_waits_only_when_it_is_full() {
    let mut ring = SubmitRing::new();
    assert_eq!(ring.submit_seed().unwrap(), 1);
    // An upload that did not arrive may be tried again.
    assert_eq!(ring.submit_seed().unwrap(), 2);
    ring.seed_arrived();
    assert_eq!(ring.submit_seed().unwrap_err().context, "seed already uploaded");
    assert_eq!(ring.wait_value(), 2);
    assert_eq!(ring.submit(), 3);
    assert_eq!(ring.wait_value(), 0);
    assert_eq!(ring.submit(), 4);
    assert_eq!(ring.wait_value(), 0);
    assert_eq!(ring.submit(), 5);
    assert_eq!(ring.wait_value(), 3);
    assert_eq!(ring.submit(), 6);
    assert_eq!(ring.wait_value(), 4);
}

#[test]
fn a_completed_fence_is_not_proof_of_a_live_device() {
    assert_eq!(wait_step(0, 0), WaitStep::Nothing);
    assert_eq!(wait_step(5, 4), WaitStep::Wait);
    assert_eq!(wait_step(5, u64::MAX), WaitStep::CheckDevice);
    assert_eq!(after_wait(true).unwrap(), WaitStep::CheckDevice);
    assert!(after_wait(false).unwrap_err().context.contains("the device is hung"));
    assert!(device_alive(0).is_ok());
    let e = device_alive(0x887A_0006).unwrap_err();
    assert_eq!(e.code, 0x887A_0006);
    assert!(e.context.contains("did not survive the load"));
    assert!(is_complete(3, 3));
    assert!(!is_complete(2, 3));
}

#[test]
fn checksums_change_with_any_single_value() {
    let data: Vec<u32> = vec![1.0f32.to_bits(), 2.5f32.to_bits(), 0];
    let sum = read_checksum(&data);
    let expected = data
        .iter()
        .fold(0u64, |acc, x| acc ^ (*x as u64).wrapping_mul(0x9E37_79B9));
    assert_eq!(sum, expected);
    for i in 0..data.len() {
        let mut corrupted = data.clone();
        corrupted[i] ^= 1 << 7;
        assert_ne!(read_checksum(&corrupted), sum);
    }
    let bytes: Vec<u8> = vec![7, 8, 9, 255];
    let sum = read_graphics_checksum(&bytes);
    let expected = bytes
        .iter()
        .fold(0u64, |acc, x| acc ^ (*x as u64).wrapping_mul(0x9E37_79B9));
    assert_eq!(sum, expected);
    for i in 0..bytes.len() {
        let mut corrupted = bytes.clone();
        corrupted[i] ^= 1;
        assert_ne!(read_graphics_checksum(&corrupted), sum);
    }
}
