//! The GPU load: its shaders, the commands of a batch, the ring of batches in flight, and the
//! checksums that tell a healthy GPU from a faulty one.
//!
//! A GPU drops to idle clocks within milliseconds of its queue running dry, so batches are
//! submitted ahead and the queue is never waited for while it has room. The input is fixed
//! and the shaders are deterministic, so a healthy GPU gives the same result every time.
use vstd::prelude::*;

use crate::text::number::{dec, push_dec};
use crate::win::{WinError, WinResult};

verus! {

/// Threads in one group of the compute shader.
pub const THREADS_PER_GROUP: u32 = 256;

/// Elements of the buffer that one dispatch reads and rewrites: 64 MiB of 32-bit values, and
/// the largest whole number of groups that one dispatch may launch.
pub const ELEMENT_COUNT: u32 = 16_776_960;

/// Iterations per thread. A dispatch has to stay well inside the driver's watchdog on slow
/// hardware too.
pub const SHADER_ITERS: u32 = 3_072;

/// Independent chains per thread, so that throughput rather than latency is the limit.
pub const FMA_CHAINS: u32 = 4;

/// Batches queued ahead of the GPU: one executing, one queued, one being recorded.
pub const FRAMES_IN_FLIGHT: usize = 3;

/// Render target dimensions. A row is a multiple of 256 bytes, so that the readback copy
/// needs no padding.
pub const RT_WIDTH: u32 = 3840;

pub const RT_HEIGHT: u32 = 2160;

/// Iterations per pixel.
pub const PS_ITERS: u32 = 3_072;

/// A healthy dispatch finishes in tens of milliseconds; ten seconds mean a hung device.
pub const GPU_WAIT_TIMEOUT_MS: u32 = 10_000;

// ---------------------------------------------------------------------------
// Shaders
// ---------------------------------------------------------------------------

/// The declarations of the first `n` chains.
pub open spec fn chain_declarations(n: nat) -> Seq<char>
    decreases n,
{
    if n == 0 {
        seq![]
    } else {
        chain_declarations((n - 1) as nat) + "    float v"@ + dec((n - 1) as nat) + " = s + "@
            + dec((n - 1) as nat) + ".0 * 0.25;\n"@
    }
}

/// One step of the first `n` chains.
pub open spec fn chain_steps(n: nat) -> Seq<char>
    decreases n,
{
    if n == 0 {
        seq![]
    } else {
        chain_steps((n - 1) as nat) + "        v"@ + dec((n - 1) as nat) + " = v"@ + dec(
            (n - 1) as nat,
        ) + " * 0.9999991 + 1.0000003;\n"@
    }
}

/// The sum of the first `n` chains.
pub open spec fn chain_sum(n: nat) -> Seq<char>
    decreases n,
{
    if n == 0 {
        seq![]
    } else if n == 1 {
        "v0"@
    } else {
        chain_sum((n - 1) as nat) + " + v"@ + dec((n - 1) as nat)
    }
}

/// The source of the compute shader. Chains are generated from their number, so that changing
/// it changes the shader.
pub open spec fn compute_source() -> Seq<char> {
    "\nStructuredBuffer<float> src : register(t0);\nRWStructuredBuffer<float> dst : register(u0);\n\n[numthreads("@
        + dec(THREADS_PER_GROUP as nat)
        + ", 1, 1)]\nvoid CSMain(uint3 id : SV_DispatchThreadID) {\n    float s = src[id.x];\n"@
        + chain_declarations(FMA_CHAINS as nat) + "    [loop]\n    for (uint i = 0; i < "@ + dec(
        SHADER_ITERS as nat,
    ) + "; i++) {\n"@ + chain_steps(FMA_CHAINS as nat) + "    }\n    dst[id.x] = "@ + chain_sum(
        FMA_CHAINS as nat,
    ) + ";\n}\n"@
}

fn push_declarations(s: &mut String, n: u32)
    ensures
        final(s)@ == old(s)@ + chain_declarations(n as nat),
{
    let ghost before = s@;
    assert(s@ == before + chain_declarations(0));
    for i in 0..n
        invariant
            s@ == before + chain_declarations(i as nat),
    {
        s.append("    float v");
        push_dec(s, i as u128);
        s.append(" = s + ");
        push_dec(s, i as u128);
        s.append(".0 * 0.25;\n");
        assert(s@ == before + chain_declarations((i + 1) as nat));
    }
}

fn push_steps(s: &mut String, n: u32)
    ensures
        final(s)@ == old(s)@ + chain_steps(n as nat),
{
    let ghost before = s@;
    assert(s@ == before + chain_steps(0));
    for i in 0..n
        invariant
            s@ == before + chain_steps(i as nat),
    {
        s.append("        v");
        push_dec(s, i as u128);
        s.append(" = v");
        push_dec(s, i as u128);
        s.append(" * 0.9999991 + 1.0000003;\n");
        assert(s@ == before + chain_steps((i + 1) as nat));
    }
}

fn push_sum(s: &mut String, n: u32)
    requires
        n > 0,
    ensures
        final(s)@ == old(s)@ + chain_sum(n as nat),
{
    let ghost before = s@;
    s.append("v0");
    for i in 1..n
        invariant
            s@ == before + chain_sum(i as nat),
    {
        s.append(" + v");
        push_dec(s, i as u128);
        assert(s@ == before + chain_sum((i + 1) as nat));
    }
}

/// The source of the compute shader.
pub fn compute_shader_source() -> (r: String)
    ensures
        r@ == compute_source(),
{
    let mut s = String::from_str(
        "\nStructuredBuffer<float> src : register(t0);\nRWStructuredBuffer<float> dst : register(u0);\n\n[numthreads(",
    );
    push_dec(&mut s, THREADS_PER_GROUP as u128);
    s.append(
        ", 1, 1)]\nvoid CSMain(uint3 id : SV_DispatchThreadID) {\n    float s = src[id.x];\n",
    );
    push_declarations(&mut s, FMA_CHAINS);
    s.append("    [loop]\n    for (uint i = 0; i < ");
    push_dec(&mut s, SHADER_ITERS as u128);
    s.append("; i++) {\n");
    push_steps(&mut s, FMA_CHAINS);
    s.append("    }\n    dst[id.x] = ");
    push_sum(&mut s, FMA_CHAINS);
    s.append(";\n}\n");
    s
}

/// The source of the vertex and pixel shaders: one triangle over the whole viewport, and a
/// colour that depends on the position of the pixel alone.
pub open spec fn graphics_source() -> Seq<char> {
    "\nstruct VSOut {\n    float4 pos : SV_POSITION;\n};\n\nVSOut VSMain(uint id : SV_VertexID) {\n    VSOut o;\n    float2 uv = float2(float((id << 1) & 2), float(id & 2));\n    o.pos = float4(uv * float2(2.0, -2.0) + float2(-1.0, 1.0), 0.0, 1.0);\n    return o;\n}\n\nfloat4 PSMain(VSOut input) : SV_TARGET {\n    float s = input.pos.x * 0.013 + input.pos.y * 0.029;\n    float v0 = s + 0.0;\n    float v1 = s + 0.25;\n    float v2 = s + 0.5;\n    float v3 = s + 0.75;\n    [loop]\n    for (uint i = 0; i < "@
        + dec(PS_ITERS as nat) + "; i++) {\n"@ + chain_steps(4)
        + "    }\n    return float4(frac(v0), frac(v1), frac(v2), frac(v3));\n}\n"@
}

/// The source of the vertex and pixel shaders.
pub fn graphics_shader_source() -> (r: String)
    ensures
        r@ == graphics_source(),
{
    let mut s = String::from_str(
        "\nstruct VSOut {\n    float4 pos : SV_POSITION;\n};\n\nVSOut VSMain(uint id : SV_VertexID) {\n    VSOut o;\n    float2 uv = float2(float((id << 1) & 2), float(id & 2));\n    o.pos = float4(uv * float2(2.0, -2.0) + float2(-1.0, 1.0), 0.0, 1.0);\n    return o;\n}\n\nfloat4 PSMain(VSOut input) : SV_TARGET {\n    float s = input.pos.x * 0.013 + input.pos.y * 0.029;\n    float v0 = s + 0.0;\n    float v1 = s + 0.25;\n    float v2 = s + 0.5;\n    float v3 = s + 0.75;\n    [loop]\n    for (uint i = 0; i < ",
    );
    push_dec(&mut s, PS_ITERS as u128);
    s.append("; i++) {\n");
    push_steps(&mut s, 4);
    s.append("    }\n    return float4(frac(v0), frac(v1), frac(v2), frac(v3));\n}\n");
    s
}

// ---------------------------------------------------------------------------
// Adapter selection
// ---------------------------------------------------------------------------

/// The first adapter with this vendor and device ID. `adapters` are the identities in
/// enumeration order, nothing where an adapter would not describe itself.
pub open spec fn matching_adapter(
    adapters: Seq<Option<(u32, u32)>>,
    vendor_id: u32,
    device_id: u32,
) -> Option<int>
    decreases adapters.len(),
{
    if adapters.len() == 0 {
        None
    } else {
        match matching_adapter(adapters.drop_last(), vendor_id, device_id) {
            Some(i) => Some(i),
            None => if adapters.last() == Some((vendor_id, device_id)) {
                Some(adapters.len() - 1)
            } else {
                None
            },
        }
    }
}

/// The adapter that the inventory showed.
pub fn select_adapter(adapters: &[Option<(u32, u32)>], vendor_id: u32, device_id: u32) -> (r: WinResult<
    usize,
>)
    ensures
        match matching_adapter(adapters@, vendor_id, device_id) {
            Some(i) => r matches Ok(k) && k == i,
            None => r matches Err(e) && e.context@
                == "no DXGI adapter matched the requested vendor/device id"@ && e.code == 0,
        },
{
    let mut found: Option<usize> = None;
    for i in 0..adapters.len()
        invariant
            match matching_adapter(adapters@.take(i as int), vendor_id, device_id) {
                Some(k) => found matches Some(f) && f == k,
                None => found is None,
            },
    {
        assert(adapters@.take(i + 1).drop_last() == adapters@.take(i as int));
        assert(adapters@.take(i + 1).last() == adapters@[i as int]);
        if found.is_none() {
            if let Some((v, d)) = adapters[i] {
                if v == vendor_id && d == device_id {
                    found = Some(i);
                }
            }
        }
    }
    assert(adapters@.take(adapters@.len() as int) == adapters@);
    match found {
        Some(i) => Ok(i),
        None => Err(WinError::new("no DXGI adapter matched the requested vendor/device id", 0)),
    }
}

/// The size of a buffer of 32-bit elements, in bytes.
pub fn buffer_size(elements: u32) -> (bytes: u64)
    ensures
        bytes == elements * 4,
{
    elements as u64 * 4
}

/// The size of the render target, in bytes: four for each pixel.
pub fn target_size() -> (bytes: u64)
    ensures
        bytes == RT_WIDTH * RT_HEIGHT * 4,
{
    RT_WIDTH as u64 * RT_HEIGHT as u64 * 4
}

// ---------------------------------------------------------------------------
// Commands
// ---------------------------------------------------------------------------

/// The GPU resources whose state the commands change.
#[derive(Debug, Clone, Copy, PartialEq, Eq, Structural)]
pub enum Resource {
    /// The seed, read by every dispatch.
    Source,
    /// The result, rewritten by every dispatch.
    Destination,
    /// The render target.
    Target,
}

/// The states of a GPU resource.
#[derive(Debug, Clone, Copy, PartialEq, Eq, Structural)]
pub enum ResourceState {
    CopyDest,
    CopySource,
    ShaderResource,
    UnorderedAccess,
    RenderTarget,
}

/// A command of a list.
#[derive(Debug, Clone, Copy, PartialEq, Eq, Structural)]
pub enum Command {
    /// Copy the staged seed into the source buffer.
    CopySeed,
    /// Bind the compute pipeline and its buffers.
    BindCompute,
    /// Launch this many groups.
    Dispatch { groups: u32 },
    /// Make the writes of a dispatch visible to the next.
    Barrier,
    /// Move a resource from one state to another.
    Transition { resource: Resource, before: ResourceState, after: ResourceState },
    /// Copy the result into its readback buffer.
    CopyResult,
    /// Bind the graphics pipeline, the viewport and the render target.
    BindGraphics,
    /// Draw the fullscreen triangle.
    Draw { vertices: u32 },
    /// Copy the render target into its readback buffer.
    CopyTarget,
}

/// The states of the resources.
#[verifier::ext_equal]
pub struct States {
    pub source: ResourceState,
    pub destination: ResourceState,
    pub target: ResourceState,
}

impl States {
    /// The states in which the resources are created.
    pub open spec fn created() -> States {
        States {
            source: ResourceState::CopyDest,
            destination: ResourceState::UnorderedAccess,
            target: ResourceState::RenderTarget,
        }
    }

    /// The states between batches.
    pub open spec fn ready() -> States {
        States { source: ResourceState::ShaderResource, ..States::created() }
    }

    pub open spec fn of(self, r: Resource) -> ResourceState {
        match r {
            Resource::Source => self.source,
            Resource::Destination => self.destination,
            Resource::Target => self.target,
        }
    }

    pub open spec fn with(self, r: Resource, s: ResourceState) -> States {
        match r {
            Resource::Source => States { source: s, ..self },
            Resource::Destination => States { destination: s, ..self },
            Resource::Target => States { target: s, ..self },
        }
    }

    /// The states after a command, where the resources are in the states that it needs.
    pub open spec fn step(self, c: Command) -> Option<States> {
        let fits = match c {
            Command::CopySeed => self.source == ResourceState::CopyDest,
            Command::BindCompute => self.source == ResourceState::ShaderResource,
            Command::Dispatch { .. } => self.source == ResourceState::ShaderResource
                && self.destination == ResourceState::UnorderedAccess,
            Command::Barrier => self.destination == ResourceState::UnorderedAccess,
            Command::Transition { resource, before, .. } => self.of(resource) == before,
            Command::CopyResult => self.destination == ResourceState::CopySource,
            Command::BindGraphics => self.target == ResourceState::RenderTarget,
            Command::Draw { .. } => self.target == ResourceState::RenderTarget,
            Command::CopyTarget => self.target == ResourceState::CopySource,
        };
        if !fits {
            None
        } else {
            match c {
                Command::Transition { resource, after, .. } => Some(self.with(resource, after)),
                _ => Some(self),
            }
        }
    }

    /// The states after a list of commands, where each finds the states that it needs.
    pub open spec fn run(self, commands: Seq<Command>) -> Option<States>
        decreases commands.len(),
    {
        if commands.len() == 0 {
            Some(self)
        } else {
            match self.run(commands.drop_last()) {
                Some(s) => s.step(commands.last()),
                None => None,
            }
        }
    }
}

/// The commands that bring the seed to the GPU.
pub open spec fn seed_list() -> Seq<Command> {
    seq![
        Command::CopySeed,
        Command::Transition {
            resource: Resource::Source,
            before: ResourceState::CopyDest,
            after: ResourceState::ShaderResource,
        },
    ]
}

/// The commands that bring the seed to the GPU, once: every later dispatch reads the same
/// resident data.
pub fn seed_commands() -> (v: Vec<Command>)
    ensures
        v@ == seed_list(),
{
    let v = vec![
        Command::CopySeed,
        Command::Transition {
            resource: Resource::Source,
            before: ResourceState::CopyDest,
            after: ResourceState::ShaderResource,
        },
    ];
    assert(v@ == seed_list());
    v
}

/// This many dispatches, each followed by a barrier.
pub open spec fn dispatch_list(groups: u32, n: nat) -> Seq<Command>
    decreases n,
{
    if n == 0 {
        seq![]
    } else {
        dispatch_list(groups, (n - 1) as nat).push(Command::Dispatch { groups }).push(
            Command::Barrier,
        )
    }
}

/// The copy of the result, between the transitions that it needs.
pub open spec fn result_capture() -> Seq<Command> {
    seq![
        Command::Transition {
            resource: Resource::Destination,
            before: ResourceState::UnorderedAccess,
            after: ResourceState::CopySource,
        },
        Command::CopyResult,
        Command::Transition {
            resource: Resource::Destination,
            before: ResourceState::CopySource,
            after: ResourceState::UnorderedAccess,
        },
    ]
}

/// The copy of the render target, between the transitions that it needs.
pub open spec fn target_capture() -> Seq<Command> {
    seq![
        Command::Transition {
            resource: Resource::Target,
            before: ResourceState::RenderTarget,
            after: ResourceState::CopySource,
        },
        Command::CopyTarget,
        Command::Transition {
            resource: Resource::Target,
            before: ResourceState::CopySource,
            after: ResourceState::RenderTarget,
        },
    ]
}

/// The commands of a batch: the dispatches, then one draw, each followed by a copy of its
/// result where that is asked for. A batch has at least one dispatch.
pub open spec fn batch_list(elements: u32, dispatches: u32, capture: bool) -> Seq<Command> {
    let n = if dispatches == 0 {
        1nat
    } else {
        dispatches as nat
    };
    seq![Command::BindCompute] + dispatch_list(elements / THREADS_PER_GROUP, n) + (if capture {
        result_capture()
    } else {
        seq![]
    }) + seq![Command::BindGraphics, Command::Draw { vertices: 3 }] + (if capture {
        target_capture()
    } else {
        seq![]
    })
}

/// The commands of a batch over `elements` elements.
pub fn batch_commands(elements: u32, dispatches: u32, capture: bool) -> (v: Vec<Command>)
    ensures
        v@ == batch_list(elements, dispatches, capture),
{
    let mut v: Vec<Command> = Vec::new();
    v.push(Command::BindCompute);
    let groups: u32 = elements / THREADS_PER_GROUP;
    let n: u32 = if dispatches == 0 {
        1
    } else {
        dispatches
    };
    let ghost head = v@;
    assert(v@ == head + dispatch_list(groups, 0));
    for i in 0..n
        invariant
            v@ == head + dispatch_list(groups, i as nat),
    {
        v.push(Command::Dispatch { groups });
        v.push(Command::Barrier);
        assert(v@ == head + dispatch_list(groups, (i + 1) as nat));
    }
    let ghost computed = v@;
    if capture {
        v.push(
            Command::Transition {
                resource: Resource::Destination,
                before: ResourceState::UnorderedAccess,
                after: ResourceState::CopySource,
            },
        );
        v.push(Command::CopyResult);
        v.push(
            Command::Transition {
                resource: Resource::Destination,
                before: ResourceState::CopySource,
                after: ResourceState::UnorderedAccess,
            },
        );
        assert(v@ == computed + result_capture());
    } else {
        assert(v@ == computed + Seq::<Command>::empty());
    }
    let ghost copied = v@;
    v.push(Command::BindGraphics);
    v.push(Command::Draw { vertices: 3 });
    assert(v@ == copied + seq![Command::BindGraphics, Command::Draw { vertices: 3 }]);
    let ghost drawn = v@;
    if capture {
        v.push(
            Command::Transition {
                resource: Resource::Target,
                before: ResourceState::RenderTarget,
                after: ResourceState::CopySource,
            },
        );
        v.push(Command::CopyTarget);
        v.push(
            Command::Transition {
                resource: Resource::Target,
                before: ResourceState::CopySource,
                after: ResourceState::RenderTarget,
            },
        );
        assert(v@ == drawn + target_capture());
    } else {
        assert(v@ == drawn + Seq::<Command>::empty());
    }
    assert(v@ == batch_list(elements, dispatches, capture));
    v
}

// ---------------------------------------------------------------------------
// The ring of batches in flight
// ---------------------------------------------------------------------------

/// Which slot the next batch takes, and which fence value each slot was last submitted with.
/// A slot's command memory may be reused only once the GPU has passed that value.
#[derive(Debug, Clone, Copy, PartialEq, Eq, Structural)]
pub struct SubmitRing {
    pub next: u8,
    pub fence_value: u64,
    /// The fence value of the latest seed upload, which is waited for; zero before it.
    pub seed: u64,
    /// The GPU has finished reading the seed.
    pub seeded: bool,
    pub slot0: u64,
    pub slot1: u64,
    pub slot2: u64,
}

impl SubmitRing {
    /// The fence value of a slot.
    pub open spec fn slot(self, i: int) -> u64 {
        if i % 3 == 0 {
            self.slot0
        } else if i % 3 == 1 {
            self.slot1
        } else {
            self.slot2
        }
    }

    /// The larger of a slot's fence value and that of the seed upload.
    pub open spec fn passed(self, i: int) -> u64 {
        if self.slot(i) > self.seed {
            self.slot(i)
        } else {
            self.seed
        }
    }

    /// The slots hold the latest submissions, oldest first from the next slot on.
    pub open spec fn wf(self) -> bool {
        &&& self.next < 3
        &&& self.seed <= self.fence_value
        &&& self.slot(0) <= self.fence_value
        &&& self.slot(1) <= self.fence_value
        &&& self.slot(2) <= self.fence_value
        &&& self.passed(self.next as int) + 2 >= self.fence_value
        &&& self.passed(self.next + 1) + 1 >= self.fence_value
        &&& self.passed(self.next + 2) >= self.fence_value
    }

    /// A ring with nothing submitted.
    pub fn new() -> (r: Self)
        ensures
            r.wf(),
            r.next == 0,
            r.fence_value == 0,
            r.seed == 0,
            !r.seeded,
            forall|i: int| #[trigger] r.slot(i) == 0,
    {
        SubmitRing { next: 0, fence_value: 0, seed: 0, seeded: false, slot0: 0, slot1: 0, slot2: 0 }
    }

    /// The fence value to wait for before the next slot is reused.
    pub fn wait_value(&self) -> (v: u64)
        requires
            self.wf(),
        ensures
            v == self.slot(self.next as int),
    {
        if self.next == 0 {
            self.slot0
        } else if self.next == 1 {
            self.slot1
        } else {
            self.slot2
        }
    }

    /// The ring after the seed was submitted in the first slot; an error where the GPU already
    /// has it. An upload that did not arrive may be tried again.
    pub fn submit_seed(&mut self) -> (r: WinResult<u64>)
        requires
            old(self).wf(),
            old(self).fence_value < u64::MAX,
        ensures
            final(self).wf(),
            if old(self).seeded {
                &&& r matches Err(e) && e.context@ == "seed already uploaded"@ && e.code == 0
                &&& *final(self) == *old(self)
            } else {
                &&& r == Ok::<u64, WinError>((old(self).fence_value + 1) as u64)
                &&& final(self).fence_value == old(self).fence_value + 1
                &&& final(self).seed == final(self).fence_value
                &&& final(self).slot0 == final(self).fence_value
                &&& final(self).slot1 == old(self).slot1
                &&& final(self).slot2 == old(self).slot2
                &&& final(self).next == old(self).next
                &&& !final(self).seeded
            },
    {
        if self.seeded {
            return Err(WinError::new("seed already uploaded", 0));
        }
        self.fence_value = self.fence_value + 1;
        self.slot0 = self.fence_value;
        self.seed = self.fence_value;
        Ok(self.fence_value)
    }

    /// The ring after the GPU has passed the fence value of the seed upload.
    pub fn seed_arrived(&mut self)
        requires
            old(self).wf(),
        ensures
            final(self).wf(),
            *final(self) == (SubmitRing { seeded: true, ..*old(self) }),
    {
        self.seeded = true;
    }

    /// The ring after a batch was submitted in the next slot. Hands out the fence value that
    /// the submission signals.
    pub fn submit(&mut self) -> (v: u64)
        requires
            old(self).wf(),
            old(self).fence_value < u64::MAX,
        ensures
            final(self).wf(),
            v == old(self).fence_value + 1,
            final(self).fence_value == v,
            final(self).seed == old(self).seed,
            final(self).seeded == old(self).seeded,
            final(self).next == (old(self).next + 1) % 3,
            final(self).slot(old(self).next as int) == v,
            final(self).slot(old(self).next + 1) == old(self).slot(old(self).next + 1),
            final(self).slot(old(self).next + 2) == old(self).slot(old(self).next + 2),
    {
        let v: u64 = self.fence_value + 1;
        self.fence_value = v;
        if self.next == 0 {
            self.slot0 = v;
            self.next = 1;
        } else if self.next == 1 {
            self.slot1 = v;
            self.next = 2;
        } else {
            self.slot2 = v;
            self.next = 0;
        }
        v
    }
}

/// What to do before work on a fence value may be relied on.
#[derive(Debug, Clone, Copy, PartialEq, Eq, Structural)]
pub enum WaitStep {
    /// Nothing was submitted.
    Nothing,
    /// The GPU has passed the value. Every fence of a dead device reads as passed, so ask
    /// whether the device is still there.
    CheckDevice,
    /// Wait, for [`GPU_WAIT_TIMEOUT_MS`] at most.
    Wait,
}

/// What to do before work on a fence value may be relied on, when the GPU has reached
/// `completed`.
pub fn wait_step(value: u64, completed: u64) -> (s: WaitStep)
    ensures
        s == if value == 0 {
            WaitStep::Nothing
        } else if completed < value {
            WaitStep::Wait
        } else {
            WaitStep::CheckDevice
        },
{
    if value == 0 {
        WaitStep::Nothing
    } else if completed < value {
        WaitStep::Wait
    } else {
        WaitStep::CheckDevice
    }
}

/// What to do after a wait that did, or did not, end by the GPU's signal.
pub fn after_wait(signalled: bool) -> (r: WinResult<WaitStep>)
    ensures
        if signalled {
            r == Ok::<WaitStep, WinError>(WaitStep::CheckDevice)
        } else {
            r matches Err(e) && e.context@
                == "GPU did not signal completion within 10s — the device is hung"@ && e.code == 0
        },
{
    if !signalled {
        return Err(
            WinError::new("GPU did not signal completion within 10s — the device is hung", 0),
        );
    }
    Ok(WaitStep::CheckDevice)
}

/// What a device that was asked why it is gone means; zero is the answer of a live one.
pub fn device_alive(removed_reason: u32) -> (r: WinResult<()>)
    ensures
        if removed_reason == 0 {
            r is Ok
        } else {
            r matches Err(e) && e.context@
                == "GPU was reset or removed mid-run (TDR) — it did not survive the load"@ && e.code
                == removed_reason
        },
{
    if removed_reason != 0 {
        return Err(
            WinError::new(
                "GPU was reset or removed mid-run (TDR) — it did not survive the load",
                removed_reason,
            ),
        );
    }
    Ok(())
}

/// Whether the GPU has passed a fence value.
pub fn is_complete(completed: u64, fence_value: u64) -> (b: bool)
    ensures
        b == (completed >= fence_value),
{
    completed >= fence_value
}

// ---------------------------------------------------------------------------
// Checksums
// ---------------------------------------------------------------------------

/// What a value contributes to a checksum.
pub open spec fn term(x: u32) -> u64 {
    (x * 0x9E37_79B9) as u64
}

/// The checksum of a result: the contributions of its values, folded together.
pub open spec fn checksum(data: Seq<u32>) -> u64
    decreases data.len(),
{
    if data.len() == 0 {
        0
    } else {
        checksum(data.drop_last()) ^ term(data.last())
    }
}

fn scaled(x: u32) -> (t: u64)
    ensures
        t == term(x),
{
    assert(x * 0x9E37_79B9 <= 0xFFFF_FFFF * 0x9E37_79B9);
    x as u64 * 0x9E37_79B9
}

/// The checksum of the compute result, over the bit patterns of its values.
pub fn read_checksum(data: &[u32]) -> (sum: u64)
    ensures
        sum == checksum(data@),
{
    let mut acc: u64 = 0;
    for i in 0..data.len()
        invariant
            acc == checksum(data@.take(i as int)),
    {
        assert(data@.take(i + 1).drop_last() == data@.take(i as int));
        acc = acc ^ scaled(data[i]);
    }
    assert(data@.take(data@.len() as int) == data@);
    acc
}

/// The bytes of the render target as values.
pub open spec fn widened(bytes: Seq<u8>) -> Seq<u32> {
    bytes.map_values(|b: u8| b as u32)
}

/// The checksum of the render target, over its bytes.
pub fn read_graphics_checksum(data: &[u8]) -> (sum: u64)
    ensures
        sum == checksum(widened(data@)),
{
    let mut acc: u64 = 0;
    assert(widened(data@.take(0)) == Seq::<u32>::empty());
    for i in 0..data.len()
        invariant
            acc == checksum(widened(data@.take(i as int))),
    {
        assert(widened(data@.take(i + 1)).drop_last() == widened(data@.take(i as int)));
        assert(widened(data@.take(i + 1)).last() == data@[i as int] as u32);
        acc = acc ^ scaled(data[i] as u32);
    }
    assert(data@.take(data@.len() as int) == data@);
    acc
}

/// How many values a prefix of `n` values holds.
pub fn prefix_len(n: usize, elements: u32) -> (r: usize)
    ensures
        r == if n <= elements {
            n as int
        } else {
            elements as int
        },
{
    if n <= elements as usize {
        n
    } else {
        elements as usize
    }
}

// ---------------------------------------------------------------------------
// Laws
// ---------------------------------------------------------------------------

proof fn running_splits(s: States, a: Seq<Command>, b: Seq<Command>)
    ensures
        s.run(a + b) == (match s.run(a) {
            Some(mid) => mid.run(b),
            None => None,
        }),
    decreases b.len(),
{
    if b.len() == 0 {
        assert(a + b == a);
    } else {
        running_splits(s, a, b.drop_last());
        assert((a + b).drop_last() == a + b.drop_last());
        assert((a + b).last() == b.last());
    }
}

proof fn dispatches_leave_the_states(groups: u32, n: nat)
    ensures
        States::ready().run(dispatch_list(groups, n)) == Some(States::ready()),
    decreases n,
{
    if n > 0 {
        dispatches_leave_the_states(groups, (n - 1) as nat);
        let before = dispatch_list(groups, (n - 1) as nat);
        let one = before.push(Command::Dispatch { groups });
        assert(one.drop_last() == before);
        assert(States::ready().run(one) == Some(States::ready()));
        assert(one.push(Command::Barrier).drop_last() == one);
        assert(States::ready().run(one.push(Command::Barrier)) == Some(States::ready()));
    }
}

/// The seed upload finds the resources as they are created, and leaves them as batches need
/// them.
pub proof fn the_seed_upload_prepares_the_batches()
    ensures
        States::created().run(seed_list()) == Some(States::ready()),
{
    let a = seed_list();
    assert(a.drop_last() == seq![Command::CopySeed]);
    assert(a.drop_last().drop_last() == Seq::<Command>::empty());
    reveal_with_fuel(States::run, 3);
}

/// Every command of a batch finds its resources in the state that it needs, and a batch
/// leaves them as it found them: batches can follow each other without end.
pub proof fn batches_restore_the_states(elements: u32, dispatches: u32, capture: bool)
    ensures
        States::ready().run(batch_list(elements, dispatches, capture)) == Some(States::ready()),
{
    let ready = States::ready();
    let groups = elements / THREADS_PER_GROUP;
    let n = if dispatches == 0 {
        1nat
    } else {
        dispatches as nat
    };
    let bind = seq![Command::BindCompute];
    let work = dispatch_list(groups, n);
    let copy = if capture {
        result_capture()
    } else {
        seq![]
    };
    let draw = seq![Command::BindGraphics, Command::Draw { vertices: 3 }];
    let grab = if capture {
        target_capture()
    } else {
        seq![]
    };
    reveal_with_fuel(States::run, 4);
    assert(bind.drop_last() == Seq::<Command>::empty());
    assert(ready.run(bind) == Some(ready));
    dispatches_leave_the_states(groups, n);
    running_splits(ready, bind, work);
    let rc = result_capture();
    assert(rc.drop_last() == seq![rc[0], rc[1]]);
    assert(rc.drop_last().drop_last() == seq![rc[0]]);
    assert(rc.drop_last().drop_last().drop_last() == Seq::<Command>::empty());
    assert(ready.run(copy) == Some(ready));
    running_splits(ready, bind + work, copy);
    assert(draw.drop_last() == seq![Command::BindGraphics]);
    assert(draw.drop_last().drop_last() == Seq::<Command>::empty());
    assert(ready.run(draw) == Some(ready));
    running_splits(ready, bind + work + copy, draw);
    let tc = target_capture();
    assert(tc.drop_last() == seq![tc[0], tc[1]]);
    assert(tc.drop_last().drop_last() == seq![tc[0]]);
    assert(tc.drop_last().drop_last().drop_last() == Seq::<Command>::empty());
    assert(ready.run(grab) == Some(ready));
    running_splits(ready, bind + work + copy + draw, grab);
}

/// Once the GPU has passed the seed upload and the fence value of the next slot, at most two
/// batches are outstanding: with the one about to be submitted, no more than the ring holds.
pub proof fn no_more_batches_in_flight_than_slots(ring: SubmitRing, completed: u64)
    requires
        ring.wf(),
        completed >= ring.seed,
        completed >= ring.slot(ring.next as int),
    ensures
        ring.fence_value - completed < FRAMES_IN_FLIGHT,
{
}

proof fn folds_keep_a_difference(a: u64, b: u64, t: u64)
    requires
        a != b,
    ensures
        a ^ t != b ^ t,
{
    assert(a != b ==> a ^ t != b ^ t) by (bit_vector);
}

proof fn folds_tell_terms_apart(a: u64, s: u64, t: u64)
    requires
        s != t,
    ensures
        a ^ s != a ^ t,
{
    assert(s != t ==> a ^ s != a ^ t) by (bit_vector);
}

/// Any single corrupted value, anywhere in a result, changes its checksum.
pub proof fn one_corrupted_value_changes_the_checksum(data: Seq<u32>, i: int, x: u32)
    requires
        0 <= i < data.len(),
        x != data[i],
    ensures
        checksum(data.update(i, x)) != checksum(data),
    decreases data.len(),
{
    let changed = data.update(i, x);
    if i == data.len() - 1 {
        assert(changed.drop_last() == data.drop_last());
        assert(changed.last() == x);
        folds_tell_terms_apart(checksum(data.drop_last()), term(x), term(data[i]));
    } else {
        one_corrupted_value_changes_the_checksum(data.drop_last(), i, x);
        assert(changed.drop_last() == data.drop_last().update(i, x));
        assert(changed.last() == data.last());
        folds_keep_a_difference(
            checksum(changed.drop_last()),
            checksum(data.drop_last()),
            term(data.last()),
        );
    }
}

/// Any single corrupted byte, anywhere in the render target, changes its checksum.
pub proof fn one_corrupted_byte_changes_the_checksum(bytes: Seq<u8>, i: int, b: u8)
    requires
        0 <= i < bytes.len(),
        b != bytes[i],
    ensures
        checksum(widened(bytes.update(i, b))) != checksum(widened(bytes)),
{
    assert(widened(bytes.update(i, b)) == widened(bytes).update(i, b as u32));
    one_corrupted_value_changes_the_checksum(widened(bytes), i, b as u32);
}

/// A row of the render target is a multiple of the alignment that a texture copy needs, and
/// the elements are a whole number of groups.
pub proof fn sizes_are_aligned()
    ensures
        RT_WIDTH * 4 % 256 == 0,
        ELEMENT_COUNT % THREADS_PER_GROUP == 0,
        ELEMENT_COUNT / THREADS_PER_GROUP <= 65535,
{
}

/// The adapter is the first whose vendor and device are both those that were asked for; there
/// is none where no adapter has both.
pub proof fn the_first_match_is_selected(adapters: Seq<Option<(u32, u32)>>, vendor: u32, device: u32)
    ensures
        match matching_adapter(adapters, vendor, device) {
            Some(i) => 0 <= i < adapters.len() && adapters[i] == Some((vendor, device)) && forall|
                j: int,
            |
                0 <= j < i ==> #[trigger] adapters[j] != Some((vendor, device)),
            None => forall|j: int|
                0 <= j < adapters.len() ==> #[trigger] adapters[j] != Some((vendor, device)),
        },
    decreases adapters.len(),
{
    if adapters.len() > 0 {
        let head = adapters.drop_last();
        the_first_match_is_selected(head, vendor, device);
        assert(forall|j: int| 0 <= j < head.len() ==> head[j] == #[trigger] adapters[j]);
        assert(adapters.last() == adapters[adapters.len() - 1]);
    }
}

proof fn dispatches_alternate_with_barriers(groups: u32, n: nat)
    ensures
        dispatch_list(groups, n).len() == 2 * n,
        forall|i: int|
            0 <= i < 2 * n ==> #[trigger] dispatch_list(groups, n)[i] == (if i % 2 == 0 {
                Command::Dispatch { groups }
            } else {
                Command::Barrier
            }),
    decreases n,
{
    if n > 0 {
        dispatches_alternate_with_barriers(groups, (n - 1) as nat);
    }
}

/// A batch launches every whole group of 256 elements, as often as it is asked to and once at
/// least, with a barrier behind each launch; then it draws one triangle. Where the results are
/// asked for, each is copied between its work and the next.
pub proof fn a_batch_does_what_it_is_asked_for(
    elements: u32,
    dispatches: u32,
    capture: bool,
    n: int,
    groups: u32,
)
    requires
        dispatches == 0 ==> n == 1,
        dispatches > 0 ==> n == dispatches,
        256 * groups <= elements < 256 * (groups + 1),
    ensures
        ({
            let b = batch_list(elements, dispatches, capture);
            let drawn = if capture {
                2 * n + 4
            } else {
                2 * n + 1
            };
            &&& b.len() == if capture {
                2 * n + 9
            } else {
                2 * n + 3
            }
            &&& b[0] == Command::BindCompute
            &&& forall|i: int|
                1 <= i <= 2 * n ==> #[trigger] b[i] == (if i % 2 == 1 {
                    Command::Dispatch { groups }
                } else {
                    Command::Barrier
                })
            &&& capture ==> b[2 * n + 2] == Command::CopyResult
            &&& b[drawn] == Command::BindGraphics
            &&& b[drawn + 1] == (Command::Draw { vertices: 3 })
            &&& capture ==> b[2 * n + 7] == Command::CopyTarget
        }),
{
    assert(elements / 256 == groups);
    dispatches_alternate_with_barriers(groups, n as nat);
    let b = batch_list(elements, dispatches, capture);
    let work = dispatch_list(groups, n as nat);
    assert forall|i: int| 1 <= i <= 2 * n implies #[trigger] b[i] == (if i % 2 == 1 {
        Command::Dispatch { groups }
    } else {
        Command::Barrier
    }) by {
        assert(b[i] == work[i - 1]);
    }
}

/// The checksum of one value is that value times an odd constant, and a result in two parts
/// has the checksums of the parts folded together, whichever comes first.
pub proof fn checksums_of_parts_fold_together(a: Seq<u32>, b: Seq<u32>, x: u32)
    ensures
        checksum(seq![]) == 0,
        checksum(seq![x]) == x * 2_654_435_769,
        checksum(a + b) == checksum(a) ^ checksum(b),
        checksum(a + b) == checksum(b + a),
{
    assert(x * 0x9E37_79B9 <= 0xFFFF_FFFF * 0x9E37_79B9);
    let (r, s, t) = (term(x), checksum(a), checksum(b));
    assert(0u64 ^ r == r && s ^ t == t ^ s) by (bit_vector);
    assert(seq![x].drop_last() == Seq::<u32>::empty());
    checksums_fold(a, b);
    checksums_fold(b, a);
}

proof fn checksums_fold(a: Seq<u32>, b: Seq<u32>)
    ensures
        checksum(a + b) == checksum(a) ^ checksum(b),
    decreases b.len(),
{
    let s = checksum(a);
    if b.len() == 0 {
        assert(a + b == a);
        assert(s ^ 0 == s) by (bit_vector);
    } else {
        assert((a + b).last() == b.last());
        assert((a + b).drop_last() == a + b.drop_last());
        checksums_fold(a, b.drop_last());
        let h = checksum(b.drop_last());
        let t = term(b.last());
        assert((s ^ h) ^ t == s ^ (h ^ t)) by (bit_vector);
    }
}

/// Every byte of the render target counts as the number that it is, in its place.
pub proof fn bytes_count_as_numbers(bytes: Seq<u8>)
    ensures
        widened(bytes).len() == bytes.len(),
        forall|i: int| 0 <= i < bytes.len() ==> #[trigger] widened(bytes)[i] == bytes[i],
{
}

/// Work may be relied on only once the GPU has passed its fence value, and then the device is
/// asked whether it is still there: the answer of a live one is zero, and any other is the error.
pub proof fn work_is_relied_on_once_it_is_done(
    value: u64,
    completed: u64,
    s: WaitStep,
    done: bool,
    removed: u32,
    alive: WinResult<()>,
)
    requires
        call_ensures(wait_step, (value, completed), s),
        call_ensures(is_complete, (completed, value), done),
        call_ensures(device_alive, (removed,), alive),
    ensures
        done <==> completed >= value,
        s == WaitStep::Nothing <==> value == 0,
        value > 0 ==> (s == WaitStep::CheckDevice <==> done),
        value > 0 ==> (s == WaitStep::Wait <==> !done),
        alive is Ok <==> removed == 0,
        alive matches Err(e) ==> e.code == removed,
{
}

/// A wait that the GPU did not end is an error.
pub proof fn a_wait_without_a_signal_is_an_error(signalled: bool, r: WinResult<WaitStep>)
    requires
        call_ensures(after_wait, (signalled,), r),
    ensures
        r is Ok <==> signalled,
        r matches Ok(s) ==> s == WaitStep::CheckDevice,
{
}

/// A prefix holds as many values as it was asked for, or all that there are; and sizes are counted
/// in bytes, four to an element and four to a pixel.
pub proof fn sizes_are_counted_in_bytes(n: usize, elements: u32, r: usize, bytes: u64, pixels: u64)
    requires
        call_ensures(prefix_len, (n, elements), r),
        call_ensures(buffer_size, (elements,), bytes),
        call_ensures(target_size, (), pixels),
    ensures
        r <= n && r <= elements,
        r == n || r == elements,
        bytes == 4 * elements,
        pixels == 4 * 3840 * 2160,
{
}

} // verus!
