//! Reference counts that keep trim away from blocks with active I/O.

use vstd::prelude::*;

use super::bat::TRIM_SENTINEL;

verus! {

/// One count per payload block: zero for an idle block, [`TRIM_SENTINEL`] for
/// a block that trim has claimed, the number of active requests otherwise.
#[derive(Debug)]
pub struct IoRefcounts {
    counts: Vec<u32>,
}

/// A range of blocks whose counts a request holds.
#[derive(Debug, Clone, Copy, PartialEq, Eq, Structural)]
pub struct BatGuard {
    /// First block.
    pub start_block: u32,
    /// Number of blocks.
    pub block_count: u32,
}

/// A block that trim has claimed.
#[derive(Debug, Clone, Copy, PartialEq, Eq, Structural)]
pub struct TrimGuard {
    /// The block.
    pub block_number: u32,
}

impl BatGuard {
    /// A guard that holds nothing.
    pub fn empty() -> (r: BatGuard)
        ensures
            r.start_block == 0,
            r.block_count == 0,
    {
        BatGuard { start_block: 0, block_count: 0 }
    }

    /// Whether the guard holds a block.
    pub open spec fn holds(self, block: int) -> bool {
        self.start_block <= block < self.start_block + self.block_count
    }
}

/// `counts` with the count of every block of the guard changed by `delta`.
pub open spec fn shifted(counts: Seq<u32>, guard: BatGuard, delta: int) -> Seq<u32> {
    Seq::new(
        counts.len(),
        |i: int|
            if guard.holds(i) {
                (counts[i] + delta) as u32
            } else {
                counts[i]
            },
    )
}

/// Whether trim has claimed a block of the guard.
pub open spec fn trim_overlaps(counts: Seq<u32>, guard: BatGuard) -> bool {
    exists|i: int| guard.holds(i) && #[trigger] counts[i] == TRIM_SENTINEL
}

impl IoRefcounts {
    /// The counts.
    pub closed spec fn view(&self) -> Seq<u32> {
        self.counts@
    }

    /// Counts of `block_count` idle blocks.
    pub fn new(block_count: u32) -> (r: IoRefcounts)
        ensures
            r@ == Seq::new(block_count as nat, |i: int| 0u32),
    {
        let mut counts: Vec<u32> = Vec::new();
        let mut i: u32 = 0;
        while i < block_count
            invariant
                i <= block_count,
                counts@ == Seq::new(i as nat, |k: int| 0u32),
            decreases block_count - i,
        {
            counts.push(0);
            i += 1;
        }
        IoRefcounts { counts }
    }

    /// The count of a block.
    pub fn io_refcount(&self, block_number: u32) -> (r: u32)
        requires
            block_number < self@.len(),
        ensures
            r == self@[block_number as int],
    {
        self.counts[block_number as usize]
    }

    /// Counts one more request on a block, unless trim has claimed it.
    pub fn try_increment_io_refcount(&mut self, block_number: u32) -> (r: bool)
        requires
            block_number < old(self)@.len(),
        ensures
            r == (old(self)@[block_number as int] != TRIM_SENTINEL),
            final(self)@ == (if r {
                old(self)@.update(
                    block_number as int,
                    (old(self)@[block_number as int] + 1) as u32,
                )
            } else {
                old(self)@
            }),
    {
        let count: u32 = self.counts[block_number as usize];
        if count == TRIM_SENTINEL {
            return false;
        }
        self.counts.set(block_number as usize, count + 1);
        true
    }

    /// Counts one request less on a block. Returns the count before.
    pub fn decrement_io_refcount(&mut self, block_number: u32) -> (r: u32)
        requires
            block_number < old(self)@.len(),
            0 < old(self)@[block_number as int] < TRIM_SENTINEL,
        ensures
            r == old(self)@[block_number as int],
            final(self)@ == old(self)@.update(block_number as int, (r - 1) as u32),
    {
        let count: u32 = self.counts[block_number as usize];
        self.counts.set(block_number as usize, count - 1);
        count
    }

    /// Claims an idle block for trim. If the block is not idle, the caller
    /// waits until a block becomes idle and tries again.
    pub fn claim_for_trim(&mut self, block_number: u32) -> (r: Option<TrimGuard>)
        requires
            block_number < old(self)@.len(),
        ensures
            if old(self)@[block_number as int] == 0 {
                &&& r == Some(TrimGuard { block_number })
                &&& final(self)@ == old(self)@.update(block_number as int, TRIM_SENTINEL)
            } else {
                r is None && final(self)@ == old(self)@
            },
    {
        if self.counts[block_number as usize] == 0 {
            self.counts.set(block_number as usize, TRIM_SENTINEL);
            Some(TrimGuard { block_number })
        } else {
            None
        }
    }

    /// Gives up the claim of trim on a block. The caller wakes whoever waits
    /// for it.
    pub fn release_trim_claim(&mut self, guard: TrimGuard)
        requires
            guard.block_number < old(self)@.len(),
            old(self)@[guard.block_number as int] == TRIM_SENTINEL,
        ensures
            final(self)@ == old(self)@.update(guard.block_number as int, 0),
    {
        self.counts.set(guard.block_number as usize, 0);
    }

    /// Counts one more request on each block of a range. If trim has claimed
    /// one of them, nothing is changed, and the caller waits for trim to
    /// release it and tries again.
    pub fn acquire_io_refcounts(&mut self, start_block: u32, block_count: u32) -> (r: Option<
        BatGuard,
    >)
        requires
            start_block + block_count <= old(self)@.len() <= u32::MAX,
            forall|i: int|
                start_block <= i < start_block + block_count ==> #[trigger] old(self)@[i]
                    != TRIM_SENTINEL - 1,
        ensures
            ({
                let guard = BatGuard { start_block, block_count };
                if trim_overlaps(old(self)@, guard) {
                    r is None && final(self)@ == old(self)@
                } else {
                    r == Some(guard) && final(self)@ == shifted(old(self)@, guard, 1)
                }
            }),
    {
        let ghost before = self@;
        let mut held: u32 = 0;
        while held < block_count
            invariant
                held <= block_count,
                start_block + block_count <= before.len() <= u32::MAX,
                self@ == shifted(before, BatGuard { start_block, block_count: held }, 1),
                forall|i: int|
                    start_block <= i < start_block + block_count ==> #[trigger] before[i]
                        != TRIM_SENTINEL - 1,
                forall|i: int|
                    start_block <= i < start_block + held ==> #[trigger] before[i]
                        != TRIM_SENTINEL,
                before == old(self)@,
            decreases block_count - held,
        {
            let guard = BatGuard { start_block, block_count: held };
            if !self.try_increment_io_refcount(start_block + held) {
                proof {
                    assert(before[start_block + held] == TRIM_SENTINEL);
                    assert(BatGuard { start_block, block_count }.holds(start_block + held as int));
                }
                self.release(guard);
                assert(self@ == before);
                return None;
            }
            held += 1;
        }
        Some(BatGuard { start_block, block_count })
    }

    /// Counts one request less on each block of a guard. Returns whether a
    /// block became idle, so that trim may be waiting for it.
    pub fn release(&mut self, guard: BatGuard) -> (r: bool)
        requires
            guard.start_block + guard.block_count <= old(self)@.len() <= u32::MAX,
            forall|i: int| guard.holds(i) ==> 0 < #[trigger] old(self)@[i] < TRIM_SENTINEL,
        ensures
            final(self)@ == shifted(old(self)@, guard, -1),
            r == exists|i: int| guard.holds(i) && #[trigger] old(self)@[i] == 1,
    {
        let ghost before = self@;
        let mut any_idle = false;
        let mut done: u32 = 0;
        while done < guard.block_count
            invariant
                done <= guard.block_count,
                guard.start_block + guard.block_count <= before.len() <= u32::MAX,
                forall|i: int| guard.holds(i) ==> 0 < #[trigger] before[i] < TRIM_SENTINEL,
                self@ == shifted(
                    before,
                    BatGuard { start_block: guard.start_block, block_count: done },
                    -1,
                ),
                any_idle == exists|i: int|
                    guard.start_block <= i < guard.start_block + done && #[trigger] before[i] == 1,
            decreases guard.block_count - done,
        {
            assert(guard.holds(guard.start_block + done as int));
            if self.decrement_io_refcount(guard.start_block + done) == 1 {
                any_idle = true;
            }
            done += 1;
        }
        any_idle
    }
}

/// Releasing what was acquired restores the counts.
pub proof fn law_release_undoes_acquire(counts: Seq<u32>, guard: BatGuard)
    requires
        forall|i: int| guard.holds(i) ==> #[trigger] counts[i] < TRIM_SENTINEL - 1,
    ensures
        shifted(shifted(counts, guard, 1), guard, -1) == counts,
        forall|i: int|
            0 <= i < counts.len() && guard.holds(i) ==> 0 < #[trigger] shifted(
                counts,
                guard,
                1,
            )[i] < TRIM_SENTINEL,
{
    assert(shifted(shifted(counts, guard, 1), guard, -1) =~= counts);
}

/// A block that a request holds cannot be claimed by trim, and a request that
/// reaches a claimed block is held back.
pub proof fn law_trim_and_requests_exclude_each_other(
    counts: Seq<u32>,
    guard: BatGuard,
    block: int,
)
    requires
        0 <= block < counts.len(),
        guard.holds(block),
        forall|i: int| guard.holds(i) ==> #[trigger] counts[i] < TRIM_SENTINEL - 1,
    ensures
        shifted(counts, guard, 1)[block] != 0,
        trim_overlaps(counts.update(block, TRIM_SENTINEL), guard),
{
    assert(counts.update(block, TRIM_SENTINEL)[block] == TRIM_SENTINEL);
}

/// Holding blocks counts them, and only them: the count of a block changes by
/// one exactly if the block is one of those that are held, from the first on.
pub proof fn law_guard_counts_its_blocks(counts: Seq<u32>, guard: BatGuard, i: int)
    requires
        0 <= i < counts.len(),
    ensures
        guard.start_block <= i < guard.start_block + guard.block_count ==> {
            &&& counts[i] < 0xffff_ffff ==> shifted(counts, guard, 1)[i] == counts[i] + 1
            &&& counts[i] > 0 ==> shifted(counts, guard, -1)[i] == counts[i] - 1
            &&& counts[i] == 0xffff_ffff ==> trim_overlaps(counts, guard)
        },
        !(guard.start_block <= i < guard.start_block + guard.block_count) ==> {
            &&& shifted(counts, guard, 1)[i] == counts[i]
            &&& shifted(counts, guard, -1)[i] == counts[i]
        },
{
}

/// A block is claimed for trimming exactly if nothing uses it, and then no
/// request gets it; the count of no other block changes.
pub proof fn law_unused_block_is_claimed(
    counts: &mut IoRefcounts,
    block_number: u32,
    r: Option<TrimGuard>,
    other: int,
)
    requires
        block_number < old(counts)@.len(),
        0 <= other < old(counts)@.len(),
        call_ensures(IoRefcounts::claim_for_trim, (counts, block_number), r),
    ensures
        r is Some <==> old(counts)@[block_number as int] == 0,
        r matches Some(guard) ==> guard.block_number == block_number,
        r is Some ==> final(counts)@[block_number as int] == 0xffff_ffff,
        r is None || other != block_number ==> final(counts)@[other] == old(counts)@[other],
{
}

/// A claim that is released leaves the block unused.
pub proof fn law_released_claim_leaves_the_block_unused(
    counts: &mut IoRefcounts,
    guard: TrimGuard,
    other: int,
)
    requires
        guard.block_number < old(counts)@.len(),
        0 <= other < old(counts)@.len(),
        call_ensures(IoRefcounts::release_trim_claim, (counts, guard), ()),
    ensures
        final(counts)@[guard.block_number as int] == 0,
        other != guard.block_number ==> final(counts)@[other] == old(counts)@[other],
{
}

/// A user of a block is counted unless the block is claimed.
pub proof fn law_user_of_a_block_is_counted(
    counts: &mut IoRefcounts,
    block_number: u32,
    r: bool,
    other: int,
)
    requires
        block_number < old(counts)@.len(),
        0 <= other < old(counts)@.len(),
        call_ensures(IoRefcounts::try_increment_io_refcount, (counts, block_number), r),
    ensures
        r <==> old(counts)@[block_number as int] != 0xffff_ffff,
        r ==> final(counts)@[block_number as int] == old(counts)@[block_number as int] + 1,
        !r || other != block_number ==> final(counts)@[other] == old(counts)@[other],
{
}

/// A user that leaves a block is counted no more, and learns how many there
/// were.
pub proof fn law_user_that_leaves_is_not_counted(
    counts: &mut IoRefcounts,
    block_number: u32,
    r: u32,
    other: int,
)
    requires
        block_number < old(counts)@.len(),
        0 < old(counts)@[block_number as int],
        0 <= other < old(counts)@.len(),
        call_ensures(IoRefcounts::decrement_io_refcount, (counts, block_number), r),
    ensures
        r == old(counts)@[block_number as int],
        final(counts)@[block_number as int] == r - 1,
        other != block_number ==> final(counts)@[other] == old(counts)@[other],
{
}

} // verus!
