//! The bookkeeping of a CPU stress worker.
//!
//! The workload is the self-check: each block repeats the same deterministic computation from
//! the same seed, and its checksum is compared bit for bit with that of the first block. A
//! mismatch is an actual computation error, not one inferred from temperature or clock.
use vstd::prelude::*;

verus! {

/// Operations per lane in one block.
pub const CHECKPOINT_ITERS: u32 = 200_000;

/// What a worker has done so far.
#[derive(Debug, Clone, Copy, PartialEq, Eq, Structural)]
pub struct WorkerStats {
    pub iterations: u64,
    /// Set, and left set, the first time that a block does not match.
    pub fault: bool,
}

impl Default for WorkerStats {
    fn default() -> (s: Self)
        ensures
            s == (WorkerStats { iterations: 0, fault: false }),
    {
        WorkerStats { iterations: 0, fault: false }
    }
}

impl WorkerStats {
    /// The counters after a block.
    pub open spec fn after_block(self, reference: u64, current: u64) -> WorkerStats {
        WorkerStats {
            iterations: self.iterations.wrapping_add(CHECKPOINT_ITERS as u64),
            fault: self.fault || current != reference,
        }
    }

    /// Count a block whose checksum is `current`, where the first block's was `reference`.
    pub fn record(&mut self, reference: u64, current: u64)
        ensures
            *final(self) == old(self).after_block(reference, current),
    {
        self.iterations = self.iterations.wrapping_add(CHECKPOINT_ITERS as u64);
        if current != reference {
            self.fault = true;
        }
    }

    /// The counters after a list of blocks.
    pub open spec fn after_blocks(self, reference: u64, blocks: Seq<u64>) -> WorkerStats
        decreases blocks.len(),
    {
        if blocks.len() == 0 {
            self
        } else {
            self.after_blocks(reference, blocks.drop_last()).after_block(reference, blocks.last())
        }
    }
}

/// Whether a worker goes on to another block. Times are in nanoseconds of one clock.
pub fn goes_on(now: u64, deadline: u64, cancelled: bool) -> (b: bool)
    ensures
        b == (now < deadline && !cancelled),
{
    now < deadline && !cancelled
}

/// The affinity mask that pins a thread to a logical processor. A mask only reaches the
/// first 64 processors; a thread on a later one is not pinned.
pub fn core_mask(logical_processor: u32) -> (r: Option<u64>)
    ensures
        r == if logical_processor < 64 {
            Some(1u64 << logical_processor)
        } else {
            None::<u64>
        },
{
    if logical_processor < 64 {
        Some(1u64 << logical_processor)
    } else {
        None
    }
}

// ---------------------------------------------------------------------------
// Laws
// ---------------------------------------------------------------------------

/// A worker is faulty exactly when it was faulty before or some block did not match: no
/// mismatch is ever forgotten, and none is made up.
pub proof fn a_fault_is_a_mismatch(s: WorkerStats, reference: u64, blocks: Seq<u64>)
    ensures
        s.after_blocks(reference, blocks).fault <==> s.fault || exists|i: int|
            0 <= i < blocks.len() && #[trigger] blocks[i] != reference,
    decreases blocks.len(),
{
    if blocks.len() > 0 {
        a_fault_is_a_mismatch(s, reference, blocks.drop_last());
        let rest = blocks.drop_last();
        if s.after_blocks(reference, rest).fault && !s.fault {
            let i = choose|i: int| 0 <= i < rest.len() && #[trigger] rest[i] != reference;
            assert(blocks[i] == rest[i]);
        }
        if exists|i: int| 0 <= i < blocks.len() && #[trigger] blocks[i] != reference {
            let i = choose|i: int| 0 <= i < blocks.len() && #[trigger] blocks[i] != reference;
            if i < rest.len() {
                assert(rest[i] == blocks[i]);
            } else {
                assert(blocks.last() != reference);
            }
        }
        if blocks.last() != reference {
            assert(blocks[blocks.len() - 1] != reference);
        }
    }
}

/// Each pinned processor has a mask of its own.
pub proof fn masks_are_distinct(a: u32, b: u32)
    requires
        a < b < 64,
    ensures
        1u64 << a != 1u64 << b,
{
    assert(a < b && b < 64 ==> 1u64 << a != 1u64 << b) by (bit_vector);
}

/// Every block counts 200,000 operations, whether it matched or not.
pub proof fn every_block_is_counted(s: WorkerStats, reference: u64, blocks: Seq<u64>)
    requires
        s.iterations + 200_000 * blocks.len() <= u64::MAX,
    ensures
        s.after_blocks(reference, blocks).iterations == s.iterations + 200_000 * blocks.len(),
    decreases blocks.len(),
{
    if blocks.len() > 0 {
        every_block_is_counted(s, reference, blocks.drop_last());
    }
}

/// A mask stands for one processor: those of two different ones have no bit in common, and none
/// is empty. There is a mask for the first 64.
pub proof fn a_mask_stands_for_one_processor(a: u32, b: u32, x: Option<u64>, y: Option<u64>)
    requires
        call_ensures(core_mask, (a,), x),
        call_ensures(core_mask, (b,), y),
    ensures
        x is Some <==> a < 64,
        x matches Some(m) ==> m != 0,
        a == 0 ==> x == Some(1u64),
        a != b && x is Some && y is Some ==> x->0 & y->0 == 0,
        b == a + 1 && y is Some ==> y->0 == 2 * x->0,
{
    if a < 64 {
        assert(a < 64 ==> 1u64 << a != 0 && (a == 0 ==> 1u64 << a == 1)) by (bit_vector);
    }
    if a < 64 && b < 64 {
        assert(a < 64 && b < 64 ==> (a != b ==> (1u64 << a) & (1u64 << b) == 0) && (b == a + 1 ==> (
        1u64 << b) == 2 * (1u64 << a))) by (bit_vector);
    }
}

/// A worker stops at its deadline, and before it when it is told to.
pub proof fn a_worker_stops_in_time(now: u64, deadline: u64, cancelled: bool, b: bool)
    requires
        call_ensures(goes_on, (now, deadline, cancelled), b),
    ensures
        now >= deadline ==> !b,
        cancelled ==> !b,
        now < deadline && !cancelled ==> b,
{
}

} // verus!
