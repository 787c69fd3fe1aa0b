//! Which virtual pages to map onto which physical frames.
//!
//! A requested range is widened to whole pages, so the mapped range is never
//! smaller than asked. Writing the page-table entries (and flushing the
//! translation cache after each) is left to the caller.
use vstd::prelude::*;
use crate::frame::{frame_containing, usable_frames, MemoryMapFrameAllocator, FRAME_SIZE};

verus! {

/// Start of the kernel heap in virtual memory.
pub const HEAP_START: u64 = 0x4444_4444_0000;

/// Size of the kernel heap in bytes.
pub const HEAP_SIZE: u64 = 1024 * 1024;

/// Why a mapping plan could not be made.
#[derive(Clone, Copy, Debug, PartialEq, Eq, Structural)]
pub enum MapError {
    /// No physical frame was left.
    FrameAllocationFailed,
}

/// The pages from `first` to `last`, both included, by their start
/// addresses.
#[derive(Clone, Copy, Debug, PartialEq, Eq, Structural)]
pub struct PageRange {
    pub first: u64,
    pub last: u64,
}

/// Number of pages in a range.
pub open spec fn page_count(r: PageRange) -> nat {
    if r.first <= r.last {
        ((r.last - r.first) / 4096 + 1) as nat
    } else {
        0
    }
}

/// Start address of the `i`-th page of a range.
pub open spec fn nth_page(r: PageRange, i: int) -> int {
    r.first + 4096 * i
}

/// The pages that cover `[start, start + size)`.
pub open spec fn covering_pages(start: int, size: int) -> PageRange {
    PageRange {
        first: frame_containing(start) as u64,
        last: frame_containing(start + size - 1) as u64,
    }
}

/// The whole pages that cover `[start, start + size)`.
pub fn page_range(start: u64, size: u64) -> (r: PageRange)
    requires
        size > 0,
        start + size - 1 <= u64::MAX,
    ensures
        r == covering_pages(start as int, size as int),
        r.first % 4096 == 0,
        r.last % 4096 == 0,
        r.first <= start,
        start + size <= r.last + 4096,
        r.first <= r.last,
{
    let end = start + (size - 1);
    let r = PageRange { first: start - start % FRAME_SIZE, last: end - end % FRAME_SIZE };
    proof {
        lemma_page_start(start as int);
        lemma_page_start(end as int);
    }
    r
}

proof fn lemma_page_start(x: int)
    requires
        x >= 0,
    ensures
        frame_containing(x) % 4096 == 0,
        x - 4096 < frame_containing(x) <= x,
        forall|y: int| y >= x ==> frame_containing(x) <= #[trigger] frame_containing(y),
{
    assert(frame_containing(x) % 4096 == 0) by (nonlinear_arith)
        requires
            frame_containing(x) == x - x % 4096,
            x >= 0,
    ;
    assert forall|y: int| y >= x implies frame_containing(x) <= #[trigger] frame_containing(y) by {
        assert(x - x % 4096 <= y - y % 4096) by (nonlinear_arith)
            requires
                y >= x,
                x >= 0,
        ;
    }
}

proof fn lemma_nth_page_bound(r: PageRange, i: int)
    requires
        r.first <= r.last,
        r.first % 4096 == 0,
        r.last % 4096 == 0,
        0 <= i < page_count(r),
    ensures
        nth_page(r, i) <= r.last,
        nth_page(r, i) % 4096 == 0,
{
    assert(r.first + 4096 * i <= r.last) by (nonlinear_arith)
        requires
            i < (r.last - r.first) / 4096 + 1,
            (r.last - r.first) % 4096 == 0,
            0 <= i,
            r.first <= r.last,
    ;
    assert((r.first + 4096 * i) % 4096 == 0) by (nonlinear_arith)
        requires
            r.first % 4096 == 0,
    ;
}

/// Pairs each page of `range` with a fresh frame from `frames`, in order.
/// Fails once no frame is left; the frames taken until then stay taken.
pub fn plan_range_mapping(range: &PageRange, frames: &mut MemoryMapFrameAllocator) -> (r: Result<
    Vec<(u64, u64)>,
    MapError,
>)
    requires
        old(frames).wf(),
        range.first <= range.last,
        range.first % 4096 == 0,
        range.last % 4096 == 0,
    ensures
        final(frames).wf(),
        final(frames).regions() == old(frames).regions(),
        ({
            let all = usable_frames(old(frames).regions());
            let n = old(frames).handed_out();
            if n + page_count(*range) <= all.len() {
                &&& r matches Ok(v) && v@.len() == page_count(*range) && forall|i: int|
                    0 <= i < v@.len() ==> #[trigger] v@[i] == (
                        nth_page(*range, i) as u64,
                        all[n + i],
                    )
                &&& final(frames).handed_out() == n + page_count(*range)
            } else {
                &&& r == Err::<Vec<(u64, u64)>, MapError>(MapError::FrameAllocationFailed)
                &&& final(frames).handed_out() == all.len()
            }
        }),
{
    let ghost all = usable_frames(frames.regions());
    let ghost n = frames.handed_out();
    proof {
        frames.lemma_handed_out_bound();
    }
    let count = (range.last - range.first) / FRAME_SIZE + 1;
    let mut out: Vec<(u64, u64)> = Vec::new();
    let mut i: u64 = 0;
    while i < count
        invariant
            frames.wf(),
            frames.regions() == old(frames).regions(),
            all == usable_frames(frames.regions()),
            n == old(frames).handed_out(),
            count == page_count(*range),
            range.first <= range.last,
            range.first % 4096 == 0,
            range.last % 4096 == 0,
            i <= count,
            out@.len() == i,
            frames.handed_out() == n + i,
            n + i <= all.len(),
            forall|j: int|
                0 <= j < i ==> #[trigger] out@[j] == (nth_page(*range, j) as u64, all[n + j]),
        decreases count - i,
    {
        proof {
            lemma_nth_page_bound(*range, i as int);
        }
        match frames.allocate_frame() {
            Some(frame) => {
                out.push((range.first + 4096 * i, frame));
            },
            None => {
                return Err(MapError::FrameAllocationFailed);
            },
        }
        i = i + 1;
    }
    Ok(out)
}

/// Pairs each page that covers `[start, start + size)` with the frame at the
/// same address.
pub fn plan_identity_mapping(start: u64, size: u64) -> (r: Vec<(u64, u64)>)
    requires
        size > 0,
        start + size - 1 <= u64::MAX,
    ensures
        r@.len() == page_count(covering_pages(start as int, size as int)),
        forall|i: int|
            0 <= i < r@.len() ==> #[trigger] r@[i] == (
                nth_page(covering_pages(start as int, size as int), i) as u64,
                nth_page(covering_pages(start as int, size as int), i) as u64,
            ),
{
    let range = page_range(start, size);
    let count = (range.last - range.first) / FRAME_SIZE + 1;
    let mut out: Vec<(u64, u64)> = Vec::new();
    let mut i: u64 = 0;
    while i < count
        invariant
            count == page_count(range),
            range == covering_pages(start as int, size as int),
            range.first <= range.last,
            range.first % 4096 == 0,
            range.last % 4096 == 0,
            i <= count,
            out@.len() == i,
            forall|j: int|
                0 <= j < i ==> #[trigger] out@[j] == (
                    nth_page(range, j) as u64,
                    nth_page(range, j) as u64,
                ),
        decreases count - i,
    {
        proof {
            lemma_nth_page_bound(range, i as int);
        }
        let page = range.first + 4096 * i;
        out.push((page, page));
        i = i + 1;
    }
    out
}

/// Index of `addr` into the page table of `level` (4 is the top level, 1
/// the last): nine address bits per level above the 12-bit page offset.
pub open spec fn table_index(addr: u64, level: int) -> int {
    (addr as int / pow2_of_shift(12 + 9 * (level - 1))) % 512
}

/// Two to the power `n`, for the shifts used by `table_index`.
pub open spec fn pow2_of_shift(n: int) -> int {
    if n == 12 {
        0x1000
    } else if n == 21 {
        0x20_0000
    } else if n == 30 {
        0x4000_0000
    } else {
        0x80_0000_0000
    }
}

/// The four table indexes of `addr`, top level first.
pub fn table_indexes(addr: u64) -> (r: [u16; 4])
    ensures
        r@ == seq![
            table_index(addr, 4) as u16,
            table_index(addr, 3) as u16,
            table_index(addr, 2) as u16,
            table_index(addr, 1) as u16,
        ],
{
    let r: [u16; 4] = [
        ((addr >> 39u64) & 0x1ff) as u16,
        ((addr >> 30u64) & 0x1ff) as u16,
        ((addr >> 21u64) & 0x1ff) as u16,
        ((addr >> 12u64) & 0x1ff) as u16,
    ];
    proof {
        assert((addr >> 39u64) & 0x1ff == (addr / 0x80_0000_0000u64) % 512) by (bit_vector);
        assert((addr >> 30u64) & 0x1ff == (addr / 0x4000_0000u64) % 512) by (bit_vector);
        assert((addr >> 21u64) & 0x1ff == (addr / 0x20_0000u64) % 512) by (bit_vector);
        assert((addr >> 12u64) & 0x1ff == (addr / 0x1000u64) % 512) by (bit_vector);
    }
    assert(r@ =~= seq![
        table_index(addr, 4) as u16,
        table_index(addr, 3) as u16,
        table_index(addr, 2) as u16,
        table_index(addr, 1) as u16,
    ]);
    r
}

/// The physical address of `addr` once the walk reached the frame at
/// `frame_start`: the frame plus the offset of `addr` within its page.
pub fn translate(frame_start: u64, addr: u64) -> (r: u64)
    requires
        frame_start % 4096 == 0,
        frame_start + 4096 <= u64::MAX,
    ensures
        r == frame_start + addr % 4096,
{
    frame_start + addr % FRAME_SIZE
}

} // verus!
