//! Bootstrap physical frame allocator over the boot memory map.
//!
//! Frames are handed out in map order and are never given back.
use vstd::prelude::*;

verus! {

/// Size in bytes of one physical frame (and one virtual page).
pub const FRAME_SIZE: u64 = 4096;

/// What a region of the boot memory map may be used for.
#[derive(Clone, Copy, Debug, PartialEq, Eq, Structural)]
pub enum RegionKind {
    /// Free memory that the kernel may hand out.
    Usable,
    /// Anything else (firmware, kernel image, boot structures, ...).
    Reserved,
}

/// One entry `[start, end)` of the boot memory map.
#[derive(Clone, Copy, Debug, PartialEq, Eq, Structural)]
pub struct MemoryRegion {
    pub start: u64,
    pub end: u64,
    pub kind: RegionKind,
}

/// The start of the frame that contains `addr`.
pub open spec fn frame_containing(addr: int) -> int {
    addr - addr % (FRAME_SIZE as int)
}

/// Number of frame addresses a region contributes: one per 4096-byte step
/// from its start while below its end; none for a region that is not usable.
pub open spec fn region_frame_count(r: MemoryRegion) -> nat {
    if r.kind == RegionKind::Usable && r.start < r.end {
        ((r.end - r.start + 4095) / 4096) as nat
    } else {
        0
    }
}

/// The frames of one region, in address order.
pub open spec fn region_frames(r: MemoryRegion) -> Seq<u64> {
    Seq::new(region_frame_count(r), |k: int| frame_containing(r.start + 4096 * k) as u64)
}

/// All usable frames of a memory map, region after region.
pub open spec fn usable_frames(rs: Seq<MemoryRegion>) -> Seq<u64>
    decreases rs.len(),
{
    if rs.len() == 0 {
        Seq::empty()
    } else {
        usable_frames(rs.drop_last()) + region_frames(rs.last())
    }
}

/// A memory map whose usable regions start on frame boundaries and do not
/// overlap one another.
pub open spec fn disjoint_map(rs: Seq<MemoryRegion>) -> bool {
    &&& forall|i: int|
        0 <= i < rs.len() && #[trigger] rs[i].kind == RegionKind::Usable ==> rs[i].start % 4096
            == 0
    &&& forall|i: int, j: int|
        0 <= i < rs.len() && 0 <= j < rs.len() && i != j && #[trigger] rs[i].kind
            == RegionKind::Usable && #[trigger] rs[j].kind == RegionKind::Usable ==> rs[i].end
            <= rs[j].start || rs[j].end <= rs[i].start
}

/// Number of frames in one region, computed without overflow.
fn frame_count(r: &MemoryRegion) -> (n: u64)
    ensures
        n == region_frame_count(*r),
{
    match r.kind {
        RegionKind::Usable => {
            if r.start < r.end {
                let len = r.end - r.start;
                let whole = len / 4096;
                if len % 4096 == 0 {
                    whole
                } else {
                    whole + 1
                }
            } else {
                0
            }
        },
        RegionKind::Reserved => 0,
    }
}

proof fn lemma_usable_frames_prefix(rs: Seq<MemoryRegion>, i: int)
    requires
        0 <= i < rs.len(),
    ensures
        usable_frames(rs.take(i + 1)) == usable_frames(rs.take(i)) + region_frames(rs[i]),
{
    assert(rs.take(i + 1).drop_last() =~= rs.take(i));
}

proof fn lemma_usable_frames_extend(rs: Seq<MemoryRegion>, i: int, j: int)
    requires
        0 <= i <= j <= rs.len(),
    ensures
        usable_frames(rs.take(i)).len() <= usable_frames(rs.take(j)).len(),
        forall|k: int|
            0 <= k < usable_frames(rs.take(i)).len() ==> #[trigger] usable_frames(rs.take(j))[k]
                == usable_frames(rs.take(i))[k],
    decreases j - i,
{
    if i < j {
        lemma_usable_frames_extend(rs, i, j - 1);
        lemma_usable_frames_prefix(rs, j - 1);
    }
}

proof fn lemma_region_frames_exact(r: MemoryRegion, k: int)
    requires
        r.kind == RegionKind::Usable,
        r.start % 4096 == 0,
        0 <= k < region_frame_count(r),
    ensures
        region_frames(r)[k] == r.start + 4096 * k,
        r.start <= region_frames(r)[k] < r.end,
{
    let n = region_frame_count(r);
    assert((r.start + 4096 * k) % 4096 == 0) by (nonlinear_arith)
        requires
            r.start % 4096 == 0,
    ;
    assert(r.start + 4096 * k < r.end) by (nonlinear_arith)
        requires
            k < n,
            r.start < r.end,
            n == (r.end - r.start + 4095) / 4096,
            0 <= k,
    ;
}

proof fn lemma_frames_avoid(rs: Seq<MemoryRegion>, lo: int, hi: int)
    requires
        forall|i: int|
            0 <= i < rs.len() && #[trigger] rs[i].kind == RegionKind::Usable ==> rs[i].start % 4096
                == 0 && (rs[i].end <= lo || hi <= rs[i].start),
    ensures
        forall|k: int|
            0 <= k < usable_frames(rs).len() ==> #[trigger] usable_frames(rs)[k] < lo || hi
                <= usable_frames(rs)[k],
    decreases rs.len(),
{
    if rs.len() > 0 {
        let pre = rs.drop_last();
        let last = rs.last();
        assert forall|i: int|
            0 <= i < pre.len() && #[trigger] pre[i].kind == RegionKind::Usable implies pre[i].start
                % 4096 == 0 && (pre[i].end <= lo || hi <= pre[i].start) by {
            assert(rs[i] == pre[i]);
        }
        lemma_frames_avoid(pre, lo, hi);
        assert forall|k: int| 0 <= k < usable_frames(rs).len() implies #[trigger] usable_frames(
            rs,
        )[k] < lo || hi <= usable_frames(rs)[k] by {
            let n = usable_frames(pre).len();
            if k >= n {
                lemma_region_frames_exact(last, k - n);
            }
        }
    }
}

/// In a memory map whose usable regions are frame-aligned and do not
/// overlap, the usable frames are 4096-aligned and pairwise distinct, so
/// successive `allocate_frame` calls never return the same frame twice.
pub proof fn lemma_distinct_aligned_frames(rs: Seq<MemoryRegion>)
    requires
        disjoint_map(rs),
    ensures
        forall|k: int|
            0 <= k < usable_frames(rs).len() ==> #[trigger] usable_frames(rs)[k] % 4096 == 0,
        forall|i: int, j: int|
            0 <= i < usable_frames(rs).len() && 0 <= j < usable_frames(rs).len() && i != j
                ==> #[trigger] usable_frames(rs)[i] != #[trigger] usable_frames(rs)[j],
    decreases rs.len(),
{
    if rs.len() > 0 {
        let pre = rs.drop_last();
        let last = rs.last();
        let f = usable_frames(rs);
        let fp = usable_frames(pre);
        let n = fp.len();
        assert(disjoint_map(pre)) by {
            assert forall|i: int|
                0 <= i < pre.len() && #[trigger] pre[i].kind == RegionKind::Usable implies pre[i].start
                    % 4096 == 0 by {
                assert(rs[i] == pre[i]);
            }
            assert forall|i: int, j: int|
                0 <= i < pre.len() && 0 <= j < pre.len() && i != j && #[trigger] pre[i].kind
                    == RegionKind::Usable && #[trigger] pre[j].kind
                    == RegionKind::Usable implies pre[i].end <= pre[j].start || pre[j].end
                    <= pre[i].start by {
                assert(rs[i] == pre[i] && rs[j] == pre[j]);
            }
        }
        lemma_distinct_aligned_frames(pre);
        if last.kind == RegionKind::Usable {
            assert forall|i: int|
                0 <= i < pre.len() && #[trigger] pre[i].kind == RegionKind::Usable implies pre[i].start
                    % 4096 == 0 && (pre[i].end <= last.start || last.end <= pre[i].start) by {
                assert(rs[i] == pre[i]);
                assert(rs[rs.len() - 1] == last);
            }
            lemma_frames_avoid(pre, last.start as int, last.end as int);
            assert forall|k: int| 0 <= k < f.len() implies #[trigger] f[k] % 4096 == 0 by {
                if k >= n {
                    lemma_region_frames_exact(last, k - n);
                    assert((last.start + 4096 * (k - n)) % 4096 == 0) by (nonlinear_arith)
                        requires
                            last.start % 4096 == 0,
                    ;
                } else {
                    assert(f[k] == fp[k]);
                }
            }
            assert forall|i: int, j: int|
                0 <= i < f.len() && 0 <= j < f.len() && i != j implies #[trigger] f[i]
                != #[trigger] f[j] by {
                if i >= n {
                    lemma_region_frames_exact(last, i - n);
                }
                if j >= n {
                    lemma_region_frames_exact(last, j - n);
                }
                if i < n {
                    assert(f[i] == fp[i]);
                }
                if j < n {
                    assert(f[j] == fp[j]);
                }
            }
        } else {
            assert(region_frames(last) =~= Seq::<u64>::empty());
            assert(f =~= fp);
        }
    }
}

proof fn lemma_frame_count_bound(rs: Seq<MemoryRegion>)
    ensures
        usable_frames(rs).len() <= rs.len() * 0x10_0000_0000_0000,
    decreases rs.len(),
{
    if rs.len() > 0 {
        lemma_frame_count_bound(rs.drop_last());
        let r = rs.last();
        if r.kind == RegionKind::Usable && r.start < r.end {
            assert((r.end - r.start + 4095) / 4096 <= 0x10_0000_0000_0000) by (nonlinear_arith)
                requires
                    r.end - r.start + 4095 <= 0xffff_ffff_ffff_ffff + 4095,
            ;
        }
    }
}

/// Most regions a boot memory map holds.
pub const MAX_REGIONS: usize = 64;

/// Hands out the usable frames of a boot memory map one after another.
pub struct MemoryMapFrameAllocator {
    memory_map: [MemoryRegion; MAX_REGIONS],
    len: usize,
    next: u64,
}

impl MemoryMapFrameAllocator {
    /// The memory map this allocator draws from.
    pub closed spec fn regions(&self) -> Seq<MemoryRegion> {
        self.memory_map@.take(self.len as int)
    }

    /// How many frames have been handed out so far.
    pub closed spec fn handed_out(&self) -> nat {
        self.next as nat
    }

    /// The map has at most `MAX_REGIONS` entries, its frame count fits in
    /// 64 bits and no more frames were handed out than the map has.
    pub closed spec fn wf(&self) -> bool {
        &&& self.len <= MAX_REGIONS
        &&& usable_frames(self.regions()).len() <= u64::MAX
        &&& self.next <= usable_frames(self.regions()).len()
    }

    /// A well-formed allocator never handed out more frames than it has.
    pub proof fn lemma_handed_out_bound(&self)
        requires
            self.wf(),
        ensures
            self.handed_out() <= usable_frames(self.regions()).len(),
    {
    }

    /// Starts at the first usable frame of the first `len` entries of
    /// `memory_map`.
    pub fn new(memory_map: [MemoryRegion; MAX_REGIONS], len: usize) -> (r: Self)
        requires
            len <= MAX_REGIONS,
        ensures
            r.wf(),
            r.regions() == memory_map@.take(len as int),
            r.handed_out() == 0,
    {
        proof {
            lemma_frame_count_bound(memory_map@.take(len as int));
        }
        MemoryMapFrameAllocator { memory_map, len, next: 0 }
    }

    /// All usable frames of the map, in the order they are handed out.
    pub fn get_usable_frames(&self) -> (r: Vec<u64>)
        requires
            self.wf(),
        ensures
            r@ == usable_frames(self.regions()),
    {
        let ghost rs = self.regions();
        let mut out: Vec<u64> = Vec::new();
        let mut i: usize = 0;
        while i < self.len
            invariant
                self.wf(),
                rs == self.regions(),
                i <= rs.len(),
                out@ == usable_frames(rs.take(i as int)),
            decreases rs.len() - i,
        {
            let r = self.memory_map[i];
            assert(r == rs[i as int]);
            let n = frame_count(&r);
            let mut k: u64 = 0;
            proof {
                lemma_usable_frames_prefix(rs, i as int);
            }
            while k < n
                invariant
                    i < rs.len(),
                    r == rs[i as int],
                    n == region_frame_count(r),
                    k <= n,
                    out@ == usable_frames(rs.take(i as int)) + region_frames(r).take(k as int),
                decreases n - k,
            {
                proof {
                    assert(r.start + 4096 * k < r.end) by (nonlinear_arith)
                        requires
                            k < n,
                            r.start < r.end,
                            n == (r.end - r.start + 4095) / 4096,
                    ;
                }
                let addr = r.start + 4096 * k;
                out.push(addr - addr % FRAME_SIZE);
                proof {
                    assert(region_frames(r).take(k + 1) =~= region_frames(r).take(k as int).push(
                        (addr - addr % FRAME_SIZE) as u64,
                    ));
                }
                k = k + 1;
            }
            assert(region_frames(r).take(n as int) =~= region_frames(r));
            i = i + 1;
        }
        assert(rs.take(rs.len() as int) =~= rs);
        out
    }

    /// The next unused usable frame, or `None` once every usable frame has
    /// been handed out.
    pub fn allocate_frame(&mut self) -> (r: Option<u64>)
        requires
            old(self).wf(),
        ensures
            final(self).wf(),
            final(self).regions() == old(self).regions(),
            old(self).handed_out() < usable_frames(old(self).regions()).len() ==> {
                &&& r == Some(usable_frames(old(self).regions())[old(self).handed_out() as int])
                &&& final(self).handed_out() == old(self).handed_out() + 1
            },
            old(self).handed_out() >= usable_frames(old(self).regions()).len() ==> {
                &&& r.is_none()
                &&& final(self).handed_out() == old(self).handed_out()
            },
    {
        let ghost rs = self.regions();
        let mut remaining: u64 = self.next;
        let mut i: usize = 0;
        while i < self.len
            invariant
                *self == *old(self),
                self.wf(),
                rs == self.regions(),
                i <= rs.len(),
                remaining + usable_frames(rs.take(i as int)).len() == self.next,
            decreases rs.len() - i,
        {
            let r = self.memory_map[i];
            assert(r == rs[i as int]);
            let n = frame_count(&r);
            proof {
                lemma_usable_frames_prefix(rs, i as int);
            }
            if remaining < n {
                proof {
                    assert(r.start + 4096 * remaining < r.end) by (nonlinear_arith)
                        requires
                            remaining < n,
                            r.start < r.end,
                            n == (r.end - r.start + 4095) / 4096,
                    ;
                    lemma_usable_frames_extend(rs, i as int + 1, rs.len() as int);
                    assert(rs.take(rs.len() as int) =~= rs);
                }
                let addr = r.start + 4096 * remaining;
                self.next = self.next + 1;
                return Some(addr - addr % FRAME_SIZE);
            }
            remaining = remaining - n;
            i = i + 1;
        }
        assert(rs.take(rs.len() as int) =~= rs);
        None
    }
}

} // verus!
