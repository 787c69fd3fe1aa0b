//! First-fit free-list heap allocator.
//!
//! The free list is kept in list order: the most recently freed block comes
//! first. Blocks are never merged with their neighbours, so fragmentation can
//! only grow. A request is rounded up to at least the size and alignment of
//! one free-list node, and a tail that is left over after carving becomes a
//! new free block at the front of the list.
use vstd::prelude::*;
use vstd::arithmetic::div_mod::{lemma_fundamental_div_mod, lemma_mod_multiples_basic};

verus! {

/// Smallest block the allocator tracks: the bytes of one free-list node.
pub const NODE_SIZE: usize = 16;

/// Alignment of every free-list node.
pub const NODE_ALIGN: usize = 8;

/// `a` is a power of two.
pub open spec fn is_power_of_two(a: usize) -> bool {
    a > 0 && a & ((a - 1) as usize) == 0
}

/// The least multiple of `align` that is at least `addr`.
pub open spec fn align_up(addr: int, align: int) -> int {
    if addr % align == 0 {
        addr
    } else {
        addr - addr % align + align
    }
}

/// A block of free memory `[start, start + size)`.
#[derive(Clone, Copy, Debug, PartialEq, Eq, Structural)]
pub struct FreeRegion {
    pub start: usize,
    pub size: usize,
}

/// One past the last byte of a free block.
pub open spec fn region_end(r: FreeRegion) -> int {
    r.start + r.size
}

/// The byte ranges `[a, a + n)` and `[b, b + m)` do not overlap.
pub open spec fn ranges_disjoint(a: int, n: int, b: int, m: int) -> bool {
    a + n <= b || b + m <= a
}

/// Every block is a valid node (aligned, large enough, inside the address
/// space) and no two blocks overlap.
pub open spec fn free_list_wf(rs: Seq<FreeRegion>) -> bool {
    &&& forall|i: int|
        0 <= i < rs.len() ==> {
            &&& #[trigger] rs[i].start % 8 == 0
            &&& rs[i].size >= NODE_SIZE
            &&& region_end(rs[i]) <= usize::MAX
        }
    &&& forall|i: int, j: int|
        0 <= i < rs.len() && 0 <= j < rs.len() && i != j ==> ranges_disjoint(
            #[trigger] rs[i].start as int,
            rs[i].size as int,
            #[trigger] rs[j].start as int,
            rs[j].size as int,
        )
}

/// The block `[start, start + size)` overlaps no block of the free list.
pub open spec fn apart_from_list(rs: Seq<FreeRegion>, start: int, size: int) -> bool {
    forall|i: int|
        0 <= i < rs.len() ==> ranges_disjoint(
            start,
            size,
            #[trigger] rs[i].start as int,
            rs[i].size as int,
        )
}

/// A request of `size` bytes aligned to `align` can be carved out of `r`,
/// leaving either nothing or a tail large enough to be a node.
pub open spec fn fits(r: FreeRegion, size: int, align: int) -> bool {
    let end = align_up(r.start as int, align) + size;
    &&& end <= region_end(r)
    &&& (end == region_end(r) || region_end(r) - end >= NODE_SIZE)
}

/// Index of the first block at or after `i` that fits, or the list length.
pub open spec fn first_fit_from(rs: Seq<FreeRegion>, size: int, align: int, i: int) -> int
    decreases rs.len() - i,
{
    if i < 0 || i >= rs.len() {
        rs.len() as int
    } else if fits(rs[i], size, align) {
        i
    } else {
        first_fit_from(rs, size, align, i + 1)
    }
}

/// Index of the first fitting block in list order, or the list length.
pub open spec fn first_fit(rs: Seq<FreeRegion>, size: int, align: int) -> int {
    first_fit_from(rs, size, align, 0)
}

/// The size and alignment actually used for a request: the alignment is
/// raised to the node alignment, the size padded to a multiple of it and
/// raised to at least one node.
pub open spec fn adjusted(size: int, align: int) -> (int, int) {
    let a = if align > NODE_ALIGN { align } else { NODE_ALIGN as int };
    let padded = align_up(size, a);
    (if padded > NODE_SIZE { padded } else { NODE_SIZE as int }, a)
}

/// A request that a memory layout can describe: a power-of-two alignment
/// and a padded size that does not exceed `isize::MAX`.
pub open spec fn valid_request(size: int, align: int) -> bool {
    &&& 0 < align <= usize::MAX
    &&& is_power_of_two(align as usize)
    &&& 0 <= size
    &&& align_up(size, adjusted(size, align).1) <= isize::MAX
}

/// First-fit carving of an already adjusted request: the address handed out
/// and the free list afterwards, or `None` when no block fits.
pub open spec fn carve(rs: Seq<FreeRegion>, size: int, align: int) -> Option<(usize, Seq<FreeRegion>)> {
    let i = first_fit(rs, size, align);
    if i >= rs.len() {
        None
    } else {
        let r = rs[i];
        let addr = align_up(r.start as int, align);
        let end = addr + size;
        let rest = rs.remove(i);
        if end < region_end(r) {
            Some(
                (
                    addr as usize,
                    seq![FreeRegion { start: end as usize, size: (region_end(r) - end) as usize }]
                        + rest,
                ),
            )
        } else {
            Some((addr as usize, rest))
        }
    }
}

/// Every block of `rs` lies inside the arena `[lo, lo + size)`.
pub open spec fn within_arena(rs: Seq<FreeRegion>, lo: int, size: int) -> bool {
    forall|i: int|
        0 <= i < rs.len() ==> lo <= #[trigger] rs[i].start && region_end(rs[i]) <= lo + size
}

/// The outcome of `allocate(size, align)` on free list `rs`.
pub open spec fn alloc_spec(rs: Seq<FreeRegion>, size: int, align: int) -> Option<(usize, Seq<FreeRegion>)> {
    carve(rs, adjusted(size, align).0, adjusted(size, align).1)
}

/// The free list after `deallocate` hands back `[start, start + size)`.
pub open spec fn dealloc_spec(rs: Seq<FreeRegion>, start: int, size: int, align: int) -> Seq<FreeRegion> {
    seq![FreeRegion { start: start as usize, size: adjusted(size, align).0 as usize }] + rs
}

/// Total number of free bytes.
pub open spec fn total_free(rs: Seq<FreeRegion>) -> int
    decreases rs.len(),
{
    if rs.len() == 0 {
        0
    } else {
        total_free(rs.drop_last()) + rs.last().size
    }
}

/// `addr` rounded up to a multiple of `align`, or `None` when that does not
/// fit in `usize`.
fn align_up_power2(addr: usize, align: usize) -> (r: Option<usize>)
    requires
        align > 0,
    ensures
        align_up(addr as int, align as int) <= usize::MAX ==> r == Some(
            align_up(addr as int, align as int) as usize,
        ),
        align_up(addr as int, align as int) > usize::MAX ==> r.is_none(),
{
    let rem = addr % align;
    assert(rem <= addr) by (nonlinear_arith)
        requires
            rem == addr % align,
            align > 0,
    ;
    if rem == 0 {
        Some(addr)
    } else if addr - rem > usize::MAX - align {
        None
    } else {
        Some(addr - rem + align)
    }
}

/// A first-fit free-list allocator over one arena handed to it with `init`.
///
/// The free list lives in a table of `N` entries, so the allocator never
/// allocates for itself; the head of the list is the last used entry of the
/// table. An arena of at most `N` nodes' worth of bytes can never have more
/// than `N` free blocks, since free blocks do not overlap.
pub struct LinkedListAllocator<const N: usize> {
    regions: [FreeRegion; N],
    len: usize,
    arena_start: usize,
    arena_size: usize,
}

impl<const N: usize> LinkedListAllocator<N> {
    /// The free blocks, most recently freed first.
    pub closed spec fn free_list(&self) -> Seq<FreeRegion> {
        Seq::new(self.len as nat, |k: int| self.regions@[self.len - 1 - k])
    }

    /// First byte of the arena.
    pub closed spec fn arena_start(&self) -> int {
        self.arena_start as int
    }

    /// Size of the arena in bytes; zero before `init`.
    pub closed spec fn arena_size(&self) -> int {
        self.arena_size as int
    }

    /// The table holds the list, the arena fits the table and the address
    /// space, and every free block lies inside the arena.
    pub closed spec fn wf(&self) -> bool {
        &&& self.len <= N
        &&& self.arena_start + self.arena_size <= usize::MAX
        &&& self.arena_size <= N * NODE_SIZE
        &&& within_arena(self.free_list(), self.arena_start as int, self.arena_size as int)
    }

    /// Number of free blocks.
    fn count(&self) -> (r: usize)
        requires
            self.wf(),
        ensures
            r == self.free_list().len(),
    {
        self.len
    }

    /// The `i`-th free block in list order.
    fn get(&self, i: usize) -> (r: FreeRegion)
        requires
            self.wf(),
            i < self.free_list().len(),
        ensures
            r == self.free_list()[i as int],
    {
        self.regions[self.len - 1 - i]
    }

    /// Puts `r` at the head of the list.
    fn push_front(&mut self, r: FreeRegion)
        requires
            old(self).wf(),
            old(self).free_list().len() < N,
            old(self).arena_start() <= r.start,
            region_end(r) <= old(self).arena_start() + old(self).arena_size(),
        ensures
            final(self).wf(),
            final(self).free_list() == seq![r] + old(self).free_list(),
            final(self).arena_start() == old(self).arena_start(),
            final(self).arena_size() == old(self).arena_size(),
    {
        let ghost before = self.free_list();
        let n = self.len;
        self.regions[n] = r;
        self.len = n + 1;
        assert(self.free_list() =~= seq![r] + before);
        assert forall|i: int| 0 <= i < self.free_list().len() implies self.arena_start
            <= #[trigger] self.free_list()[i].start && region_end(self.free_list()[i])
            <= self.arena_start + self.arena_size by {
            if i > 0 {
                assert(self.free_list()[i] == before[i - 1]);
            }
        }
    }

    /// Takes the `i`-th block out of the list.
    fn remove_at(&mut self, i: usize) -> (r: FreeRegion)
        requires
            old(self).wf(),
            i < old(self).free_list().len(),
        ensures
            final(self).wf(),
            r == old(self).free_list()[i as int],
            final(self).free_list() == old(self).free_list().remove(i as int),
            final(self).arena_start() == old(self).arena_start(),
            final(self).arena_size() == old(self).arena_size(),
    {
        let ghost before = self.free_list();
        let j = self.len - 1 - i;
        let r = self.regions[j];
        let mut k = j;
        while k + 1 < self.len
            invariant
                self.len <= N,
                self.arena_start == old(self).arena_start,
                self.arena_size == old(self).arena_size,
                self.len == old(self).len,
                j <= k < self.len,
                before == old(self).free_list(),
                forall|m: int| 0 <= m < j ==> #[trigger] self.regions@[m] == old(self).regions@[m],
                forall|m: int| j <= m < k ==> #[trigger] self.regions@[m] == old(self).regions@[m + 1],
                forall|m: int| k < m < self.len ==> #[trigger] self.regions@[m] == old(self).regions@[m],
            decreases self.len - k,
        {
            let next = self.regions[k + 1];
            self.regions[k] = next;
            k = k + 1;
        }
        self.len = self.len - 1;
        assert(self.free_list() =~= before.remove(i as int)) by {
            assert forall|m: int| 0 <= m < self.free_list().len() implies #[trigger] self.free_list()[m]
                == before.remove(i as int)[m] by {
                if m < i {
                    assert(self.free_list()[m] == self.regions@[self.len - 1 - m]);
                } else {
                    assert(self.free_list()[m] == self.regions@[self.len - 1 - m]);
                }
            }
        }
        assert forall|m: int| 0 <= m < self.free_list().len() implies self.arena_start
            <= #[trigger] self.free_list()[m].start && region_end(self.free_list()[m])
            <= self.arena_start + self.arena_size by {
            if m < i {
                assert(self.free_list()[m] == before[m]);
            } else {
                assert(self.free_list()[m] == before[m + 1]);
            }
        }
        r
    }

    /// An allocator with no memory to hand out.
    pub fn new() -> (r: Self)
        ensures
            r.wf(),
            r.free_list() == Seq::<FreeRegion>::empty(),
            r.arena_size() == 0,
    {
        let r = LinkedListAllocator {
            regions: [FreeRegion { start: 0, size: 0 }; N],
            len: 0,
            arena_start: 0,
            arena_size: 0,
        };
        assert(r.free_list() =~= Seq::<FreeRegion>::empty());
        r
    }

    /// Pushes `[start, start + size)` to the front of the free list.
    fn free_region(&mut self, start: usize, size: usize)
        requires
            old(self).wf(),
            free_list_wf(old(self).free_list()),
            start % 8 == 0,
            size >= NODE_SIZE,
            old(self).arena_start() <= start,
            start + size <= old(self).arena_start() + old(self).arena_size(),
            apart_from_list(old(self).free_list(), start as int, size as int),
        ensures
            final(self).wf(),
            final(self).free_list() == seq![FreeRegion { start, size }] + old(self).free_list(),
            free_list_wf(final(self).free_list()),
            final(self).arena_start() == old(self).arena_start(),
            final(self).arena_size() == old(self).arena_size(),
    {
        let ghost before = self.free_list();
        proof {
            lemma_room(
                before,
                FreeRegion { start, size },
                self.arena_start as int,
                self.arena_size as int,
                N as int,
            );
            lemma_push_wf(before, FreeRegion { start, size });
        }
        self.push_front(FreeRegion { start, size });
    }

    /// Where a request of `size` bytes aligned to `align` would start inside
    /// `region`, or `Err` when it does not fit there.
    fn alloc_region(region: &FreeRegion, size: usize, align: usize) -> (r: Result<usize, ()>)
        requires
            align > 0,
            region_end(*region) <= usize::MAX,
        ensures
            r.is_ok() == fits(*region, size as int, align as int),
            r.is_ok() ==> r == Ok::<usize, ()>(align_up(region.start as int, align as int) as usize),
    {
        let start = match align_up_power2(region.start, align) {
            Some(s) => s,
            None => return Err(()),
        };
        if start > usize::MAX - size {
            return Err(());
        }
        let end = start + size;
        let region_end = region.start + region.size;
        if end > region_end {
            return Err(());
        }
        let excess_size = region_end - end;
        if excess_size > 0 && excess_size < NODE_SIZE {
            return Err(());
        }
        Ok(start)
    }

    /// Removes the first block in list order that fits the request and
    /// returns it with the address the request starts at.
    fn next_free_region(&mut self, size: usize, align: usize) -> (r: Option<(FreeRegion, usize)>)
        requires
            old(self).wf(),
            align > 0,
            free_list_wf(old(self).free_list()),
        ensures
            final(self).wf(),
            final(self).arena_start() == old(self).arena_start(),
            final(self).arena_size() == old(self).arena_size(),
            ({
                let i = first_fit(old(self).free_list(), size as int, align as int);
                if i < old(self).free_list().len() {
                    &&& r == Some(
                        (
                            old(self).free_list()[i],
                            align_up(old(self).free_list()[i].start as int, align as int) as usize,
                        ),
                    )
                    &&& final(self).free_list() == old(self).free_list().remove(i)
                    &&& fits(old(self).free_list()[i], size as int, align as int)
                } else {
                    &&& r.is_none()
                    &&& final(self).free_list() == old(self).free_list()
                }
            }),
    {
        let ghost rs = self.free_list();
        let mut i: usize = 0;
        while i < self.count()
            invariant
                self.wf(),
                self.arena_start == old(self).arena_start,
                self.arena_size == old(self).arena_size,
                self.free_list() == rs,
                rs == old(self).free_list(),
                free_list_wf(rs),
                i <= rs.len(),
                align > 0,
                first_fit(rs, size as int, align as int) == first_fit_from(
                    rs,
                    size as int,
                    align as int,
                    i as int,
                ),
            decreases rs.len() - i,
        {
            let fit = Self::alloc_region(&self.get(i), size, align);
            match fit {
                Ok(address) => {
                    assert(first_fit_from(rs, size as int, align as int, i as int) == i);
                    let region = self.remove_at(i);
                    return Some((region, address));
                },
                Err(()) => {},
            }
            i = i + 1;
        }
        None
    }

    /// The size and alignment used for a request of `size` bytes aligned to
    /// `align`.
    pub fn size_align(size: usize, align: usize) -> (r: (usize, usize))
        requires
            valid_request(size as int, align as int),
        ensures
            r.0 == adjusted(size as int, align as int).0,
            r.1 == adjusted(size as int, align as int).1,
    {
        let a = if align > NODE_ALIGN {
            align
        } else {
            NODE_ALIGN
        };
        let rem = size % a;
        assert(rem <= size) by (nonlinear_arith)
            requires
                rem == size % a,
                a > 0,
        ;
        let padded = if rem == 0 {
            size
        } else {
            size - rem + a
        };
        let s = if padded > NODE_SIZE {
            padded
        } else {
            NODE_SIZE
        };
        (s, a)
    }

    /// The arena's first byte and size; the size is zero before `init`.
    pub fn arena_bounds(&self) -> (r: (usize, usize))
        ensures
            r.0 == self.arena_start(),
            r.1 == self.arena_size(),
    {
        (self.arena_start, self.arena_size)
    }

    /// Makes `[heap_start, heap_start + heap_size)` the arena, as one free
    /// block. The arena must fit the table: at most `N` nodes' worth of bytes.
    pub fn init(&mut self, heap_start: usize, heap_size: usize)
        requires
            old(self).wf(),
            free_list_wf(old(self).free_list()),
            old(self).arena_size() == 0,
            heap_start % 8 == 0,
            heap_size >= NODE_SIZE,
            heap_start + heap_size <= usize::MAX,
            heap_size <= N * NODE_SIZE,
        ensures
            final(self).wf(),
            final(self).free_list() == seq![FreeRegion { start: heap_start, size: heap_size }],
            free_list_wf(final(self).free_list()),
            final(self).arena_start() == heap_start,
            final(self).arena_size() == heap_size,
    {
        // no free block fits in an arena of size zero
        assert(self.free_list().len() == 0) by {
            if self.free_list().len() > 0 {
                assert(self.free_list()[0].start % 8 == 0);
                assert(self.arena_start <= self.free_list()[0].start);
            }
        }
        self.arena_start = heap_start;
        self.arena_size = heap_size;
        assert(within_arena(self.free_list(), heap_start as int, heap_size as int));
        assert(free_list_wf(self.free_list()));
        self.free_region(heap_start, heap_size);
        assert(self.free_list() =~= seq![FreeRegion { start: heap_start, size: heap_size }]);
    }

    /// Allocates `size` bytes aligned to `align` by first fit in list order.
    /// `None` when no free block fits.
    ///
    /// Free blocks are never merged, so after many small blocks are handed
    /// back a large request can fail even though enough bytes are free in
    /// total: once most of an arena has been carved into small blocks and
    /// freed again, a request for most of the arena returns `None`.
    pub fn allocate(&mut self, size: usize, align: usize) -> (r: Option<usize>)
        requires
            old(self).wf(),
            free_list_wf(old(self).free_list()),
            valid_request(size as int, align as int),
        ensures
            final(self).wf(),
            free_list_wf(final(self).free_list()),
            final(self).arena_start() == old(self).arena_start(),
            final(self).arena_size() == old(self).arena_size(),
            match alloc_spec(old(self).free_list(), size as int, align as int) {
                Some((a, rs)) => r == Some(a) && final(self).free_list() == rs,
                None => r.is_none() && final(self).free_list() == old(self).free_list(),
            },
            r.is_none() <==> forall|i: int|
                0 <= i < old(self).free_list().len() ==> !fits(
                    #[trigger] old(self).free_list()[i],
                    adjusted(size as int, align as int).0,
                    adjusted(size as int, align as int).1,
                ),
            r matches Some(a) ==> {
                &&& a % align == 0
                &&& old(self).arena_start() <= a
                &&& a + adjusted(size as int, align as int).0 <= old(self).arena_start() + old(
                    self,
                ).arena_size()
                &&& exists|i: int|
                    0 <= i < old(self).free_list().len() && #[trigger] old(self).free_list()[i].start
                        <= a && a + adjusted(size as int, align as int).0 <= region_end(
                        old(self).free_list()[i],
                    )
                &&& apart_from_list(
                    final(self).free_list(),
                    a as int,
                    adjusted(size as int, align as int).0,
                )
            },
    {
        let ghost rs = self.free_list();
        proof {
            lemma_adjusted(size as int, align as int);
        }
        let (size, align) = Self::size_align(size, align);
        proof {
            lemma_first_fit(rs, size as int, align as int, 0);
        }
        match self.next_free_region(size, align) {
            Some((region, start)) => {
                let ghost i = first_fit(rs, size as int, align as int);
                proof {
                    lemma_align_up(region.start as int, align as int);
                    lemma_mod_trans(start as int, align as int);
                    assert(rs[i] == region);
                    assert forall|k: int| 0 <= k < self.free_list().len() implies ranges_disjoint(
                        start as int,
                        region.size as int,
                        #[trigger] self.free_list()[k].start as int,
                        self.free_list()[k].size as int,
                    ) || ranges_disjoint(
                        region.start as int,
                        region.size as int,
                        self.free_list()[k].start as int,
                        self.free_list()[k].size as int,
                    ) by {
                        if k < i {
                            assert(self.free_list()[k] == rs[k]);
                        } else {
                            assert(self.free_list()[k] == rs[k + 1]);
                        }
                    }
                    assert(free_list_wf(self.free_list())) by {
                        assert forall|k: int| 0 <= k < self.free_list().len() implies {
                            &&& #[trigger] self.free_list()[k].start % 8 == 0
                            &&& self.free_list()[k].size >= NODE_SIZE
                            &&& region_end(self.free_list()[k]) <= usize::MAX
                        } by {
                            if k < i {
                                assert(self.free_list()[k] == rs[k]);
                            } else {
                                assert(self.free_list()[k] == rs[k + 1]);
                            }
                        }
                        assert forall|k: int, l: int|
                            0 <= k < self.free_list().len() && 0 <= l < self.free_list().len() && k
                                != l implies ranges_disjoint(
                            #[trigger] self.free_list()[k].start as int,
                            self.free_list()[k].size as int,
                            #[trigger] self.free_list()[l].start as int,
                            self.free_list()[l].size as int,
                        ) by {
                            let k0 = if k < i { k } else { k + 1 };
                            let l0 = if l < i { l } else { l + 1 };
                            assert(self.free_list()[k] == rs[k0]);
                            assert(self.free_list()[l] == rs[l0]);
                        }
                    }
                }
                let end = start + size;
                let excess_size = region.start + region.size - end;
                if excess_size > 0 {
                    proof {
                        assert forall|k: int| 0 <= k < self.free_list().len() implies ranges_disjoint(
                            end as int,
                            excess_size as int,
                            #[trigger] self.free_list()[k].start as int,
                            self.free_list()[k].size as int,
                        ) by {
                            if k < i {
                                assert(self.free_list()[k] == rs[k]);
                            } else {
                                assert(self.free_list()[k] == rs[k + 1]);
                            }
                        }
                    }
                    self.free_region(end, excess_size);
                    proof {
                        assert(self.free_list()[0] == FreeRegion { start: end, size: excess_size });
                        assert forall|k: int| 0 <= k < self.free_list().len() implies ranges_disjoint(
                            start as int,
                            size as int,
                            #[trigger] self.free_list()[k].start as int,
                            self.free_list()[k].size as int,
                        ) by {
                            if k > 0 {
                                let k0 = if k - 1 < i { k - 1 } else { k };
                                assert(self.free_list()[k] == rs[k0]);
                            }
                        }
                    }
                } else {
                    proof {
                        assert forall|k: int| 0 <= k < self.free_list().len() implies ranges_disjoint(
                            start as int,
                            size as int,
                            #[trigger] self.free_list()[k].start as int,
                            self.free_list()[k].size as int,
                        ) by {
                            let k0 = if k < i { k } else { k + 1 };
                            assert(self.free_list()[k] == rs[k0]);
                        }
                    }
                }
                proof {
                    assert(rs[i].start <= start && start + size <= region_end(rs[i]));
                }
                Some(start)
            },
            None => None,
        }
    }

    /// Hands back a block that `allocate(size, align)` returned: it becomes the
    /// first block of the free list. The block is not merged with its
    /// neighbours.
    pub fn deallocate(&mut self, ptr: usize, size: usize, align: usize)
        requires
            old(self).wf(),
            free_list_wf(old(self).free_list()),
            valid_request(size as int, align as int),
            ptr % 8 == 0,
            old(self).arena_start() <= ptr,
            ptr + adjusted(size as int, align as int).0 <= old(self).arena_start() + old(
                self,
            ).arena_size(),
            apart_from_list(old(self).free_list(), ptr as int, adjusted(size as int, align as int).0),
        ensures
            final(self).wf(),
            final(self).arena_start() == old(self).arena_start(),
            final(self).arena_size() == old(self).arena_size(),
            final(self).free_list() == dealloc_spec(old(self).free_list(), ptr as int, size as int, align as int),
            free_list_wf(final(self).free_list()),
    {
        proof {
            lemma_adjusted(size as int, align as int);
        }
        let (size, _) = Self::size_align(size, align);
        self.free_region(ptr, size);
    }
}

/// Handing a block back and then asking again with the same size and
/// alignment returns the same address: the freed block is first in list
/// order and fits exactly.
pub proof fn lemma_lifo_reuse(rs: Seq<FreeRegion>, size: int, align: int)
    requires
        free_list_wf(rs),
        valid_request(size, align),
        alloc_spec(rs, size, align) is Some,
    ensures
        ({
            let (a, after) = alloc_spec(rs, size, align).unwrap();
            alloc_spec(dealloc_spec(after, a as int, size, align), size, align) == Some((a, after))
        }),
{
    let (s, al) = adjusted(size, align);
    lemma_adjusted(size, align);
    lemma_first_fit(rs, s, al, 0);
    let i = first_fit(rs, s, al);
    let (a, after) = alloc_spec(rs, size, align).unwrap();
    lemma_align_up(rs[i].start as int, al);
    let back = dealloc_spec(after, a as int, size, align);
    assert(align_up(a as int, al) == a);
    assert(fits(back[0], s, al));
    assert(first_fit(back, s, al) == 0);
    assert(back.remove(0) =~= after);
}

/// A request whose adjusted size exceeds all free bytes together fails.
pub proof fn lemma_oversized_request_fails(rs: Seq<FreeRegion>, size: int, align: int)
    requires
        valid_request(size, align),
        adjusted(size, align).0 > total_free(rs),
    ensures
        alloc_spec(rs, size, align) is None,
{
    let (s, al) = adjusted(size, align);
    lemma_adjusted(size, align);
    lemma_first_fit(rs, s, al, 0);
    let i = first_fit(rs, s, al);
    if i < rs.len() {
        lemma_fits_size(rs[i], s, al);
        lemma_region_within_total(rs, i);
    }
}

proof fn lemma_push_back_wf(rs: Seq<FreeRegion>, x: FreeRegion)
    requires
        free_list_wf(rs),
        x.start % 8 == 0,
        x.size >= NODE_SIZE,
        region_end(x) <= usize::MAX,
        apart_from_list(rs, x.start as int, x.size as int),
    ensures
        free_list_wf(rs.push(x)),
{
    let c = rs.push(x);
    assert forall|k: int| 0 <= k < c.len() implies {
        &&& #[trigger] c[k].start % 8 == 0
        &&& c[k].size >= NODE_SIZE
        &&& region_end(c[k]) <= usize::MAX
    } by {
        if k < rs.len() {
            assert(c[k] == rs[k]);
        }
    }
    assert forall|k: int, l: int|
        0 <= k < c.len() && 0 <= l < c.len() && k != l implies ranges_disjoint(
        #[trigger] c[k].start as int,
        c[k].size as int,
        #[trigger] c[l].start as int,
        c[l].size as int,
    ) by {
        if k < rs.len() {
            assert(c[k] == rs[k]);
        }
        if l < rs.len() {
            assert(c[l] == rs[l]);
        }
    }
}

/// One step of any run of allocations: when the blocks in use (`live`) and
/// the free blocks are all valid, non-overlapping and inside the arena
/// `[lo, lo + size)`, the next allocation is aligned as asked, and the new
/// block joins the blocks in use with all of them still apart from one
/// another and from the free list, and inside the arena. So a block in use
/// is never handed out again, whatever happened before.
pub proof fn lemma_allocation_keeps_blocks_apart(
    rs: Seq<FreeRegion>,
    live: Seq<FreeRegion>,
    lo: int,
    size: int,
    req_size: int,
    align: int,
)
    requires
        free_list_wf(rs + live),
        within_arena(rs + live, lo, size),
        valid_request(req_size, align),
        alloc_spec(rs, req_size, align) is Some,
    ensures
        ({
            let (a, after) = alloc_spec(rs, req_size, align).unwrap();
            let block = FreeRegion { start: a, size: adjusted(req_size, align).0 as usize };
            &&& (a as int) % align == 0
            &&& free_list_wf(after + live.push(block))
            &&& within_arena(after + live.push(block), lo, size)
        }),
{
    let (s, al) = adjusted(req_size, align);
    lemma_adjusted(req_size, align);
    lemma_first_fit(rs, s, al, 0);
    let i = first_fit(rs, s, al);
    let r = rs[i];
    let (a, after) = alloc_spec(rs, req_size, align).unwrap();
    lemma_align_up(r.start as int, al);
    assert(i < rs.len());
    let c = rs + live;
    assert(c[i] == r);
    assert(c[i].start % 8 == 0);
    assert(fits(r, s, al));
    assert(a as int == align_up(r.start as int, al));
    lemma_mod_trans(a as int, al);
    let block = FreeRegion { start: a, size: s as usize };
    let d = c.remove(i);
    assert(d =~= rs.remove(i) + live);
    lemma_remove_wf(c, i);
    assert forall|k: int| 0 <= k < d.len() implies ranges_disjoint(
        r.start as int,
        r.size as int,
        #[trigger] d[k].start as int,
        d[k].size as int,
    ) && lo <= d[k].start && region_end(d[k]) <= lo + size by {
        let k0 = if k < i { k } else { k + 1 };
        assert(d[k] == c[k0]);
    }
    let end = a + s;
    if end < region_end(r) {
        let t = FreeRegion { start: end as usize, size: (region_end(r) - end) as usize };
        lemma_push_wf(d, t);
        let d1 = seq![t] + d;
        assert forall|k: int| 0 <= k < d1.len() implies ranges_disjoint(
            a as int,
            s,
            #[trigger] d1[k].start as int,
            d1[k].size as int,
        ) && lo <= d1[k].start && region_end(d1[k]) <= lo + size by {
            if k > 0 {
                assert(d1[k] == d[k - 1]);
            }
        }
        lemma_push_back_wf(d1, block);
        assert(after + live.push(block) =~= d1.push(block));
        assert forall|k: int| 0 <= k < d1.push(block).len() implies lo <= #[trigger] d1.push(
            block,
        )[k].start && region_end(d1.push(block)[k]) <= lo + size by {
            if k < d1.len() {
                assert(d1.push(block)[k] == d1[k]);
            }
        }
    } else {
        assert forall|k: int| 0 <= k < d.len() implies ranges_disjoint(
            a as int,
            s,
            #[trigger] d[k].start as int,
            d[k].size as int,
        ) by {}
        lemma_push_back_wf(d, block);
        assert(after + live.push(block) =~= d.push(block));
        assert forall|k: int| 0 <= k < d.push(block).len() implies lo <= #[trigger] d.push(
            block,
        )[k].start && region_end(d.push(block)[k]) <= lo + size by {
            if k < d.len() {
                assert(d.push(block)[k] == d[k]);
            }
        }
    }
}

/// Handing back block `j` of the blocks in use keeps every block valid,
/// apart from the others and inside the arena: the block moves to the front
/// of the free list.
pub proof fn lemma_deallocation_keeps_blocks_apart(
    rs: Seq<FreeRegion>,
    live: Seq<FreeRegion>,
    lo: int,
    size: int,
    j: int,
)
    requires
        free_list_wf(rs + live),
        within_arena(rs + live, lo, size),
        0 <= j < live.len(),
    ensures
        free_list_wf((seq![live[j]] + rs) + live.remove(j)),
        within_arena((seq![live[j]] + rs) + live.remove(j), lo, size),
{
    let c = rs + live;
    let m = rs.len() + j;
    assert(c[m] == live[j]);
    let d = c.remove(m);
    assert(d =~= rs + live.remove(j));
    lemma_remove_wf(c, m);
    assert forall|k: int| 0 <= k < d.len() implies ranges_disjoint(
        live[j].start as int,
        live[j].size as int,
        #[trigger] d[k].start as int,
        d[k].size as int,
    ) && lo <= d[k].start && region_end(d[k]) <= lo + size by {
        let k0 = if k < m { k } else { k + 1 };
        assert(d[k] == c[k0]);
    }
    assert(live[j].start % 8 == 0);
    lemma_push_wf(d, live[j]);
    assert((seq![live[j]] + rs) + live.remove(j) =~= seq![live[j]] + d);
    assert forall|k: int| 0 <= k < (seq![live[j]] + d).len() implies lo <= #[trigger] (seq![
        live[j],
    ] + d)[k].start && region_end((seq![live[j]] + d)[k]) <= lo + size by {
        if k > 0 {
            assert((seq![live[j]] + d)[k] == d[k - 1]);
        }
    }
}

/// With the blocks in use and the free blocks valid, non-overlapping and
/// inside an arena of `size` bytes, a request whose adjusted size exceeds
/// what the blocks in use leave of the arena fails.
pub proof fn lemma_request_over_arena_fails(
    rs: Seq<FreeRegion>,
    live: Seq<FreeRegion>,
    lo: int,
    size: int,
    req_size: int,
    align: int,
)
    requires
        free_list_wf(rs + live),
        within_arena(rs + live, lo, size),
        0 <= size,
        valid_request(req_size, align),
        total_free(live) + adjusted(req_size, align).0 > size,
    ensures
        alloc_spec(rs, req_size, align) is None,
{
    lemma_disjoint_total(rs + live, lo, lo + size);
    lemma_total_concat(rs, live);
    lemma_oversized_request_fails(rs, req_size, align);
}

proof fn lemma_total_prepend(x: FreeRegion, rs: Seq<FreeRegion>)
    ensures
        total_free(seq![x] + rs) == x.size + total_free(rs),
    decreases rs.len(),
{
    if rs.len() > 0 {
        lemma_total_prepend(x, rs.drop_last());
        assert((seq![x] + rs).drop_last() =~= seq![x] + rs.drop_last());
    } else {
        assert((seq![x] + rs).drop_last() =~= rs);
    }
}

proof fn lemma_total_remove(rs: Seq<FreeRegion>, i: int)
    requires
        0 <= i < rs.len(),
    ensures
        total_free(rs) == total_free(rs.remove(i)) + rs[i].size,
    decreases rs.len(),
{
    if i < rs.len() - 1 {
        lemma_total_remove(rs.drop_last(), i);
        assert(rs.remove(i).drop_last() =~= rs.drop_last().remove(i));
        assert(rs.remove(i).last() == rs.last());
        assert(rs.drop_last()[i] == rs[i]);
    } else {
        assert(rs.remove(i) =~= rs.drop_last());
    }
}

/// Every successful allocation takes at least its adjusted size out of the
/// free bytes, so a run of requests whose sizes add up to more than the free
/// bytes cannot all succeed.
pub proof fn lemma_allocation_consumes_free_bytes(rs: Seq<FreeRegion>, size: int, align: int)
    requires
        valid_request(size, align),
        alloc_spec(rs, size, align) is Some,
    ensures
        total_free(alloc_spec(rs, size, align).unwrap().1) + adjusted(size, align).0 <= total_free(
            rs,
        ),
{
    let (s, al) = adjusted(size, align);
    lemma_adjusted(size, align);
    lemma_first_fit(rs, s, al, 0);
    let i = first_fit(rs, s, al);
    let r = rs[i];
    lemma_align_up(r.start as int, al);
    lemma_total_remove(rs, i);
    let addr = align_up(r.start as int, al);
    let end = addr + s;
    if end < region_end(r) {
        lemma_total_prepend(
            FreeRegion { start: end as usize, size: (region_end(r) - end) as usize },
            rs.remove(i),
        );
    }
}

/// Index of a block with the lowest start address.
spec fn min_start_index(rs: Seq<FreeRegion>) -> int
    decreases rs.len(),
{
    if rs.len() <= 1 {
        0
    } else {
        let m = min_start_index(rs.drop_last());
        if rs.last().start < rs[m].start {
            rs.len() - 1
        } else {
            m
        }
    }
}

proof fn lemma_min_start(rs: Seq<FreeRegion>)
    requires
        rs.len() > 0,
    ensures
        0 <= min_start_index(rs) < rs.len(),
        forall|k: int| 0 <= k < rs.len() ==> rs[min_start_index(rs)].start <= #[trigger] rs[k].start,
    decreases rs.len(),
{
    if rs.len() > 1 {
        let pre = rs.drop_last();
        lemma_min_start(pre);
        assert forall|k: int| 0 <= k < rs.len() implies rs[min_start_index(rs)].start
            <= #[trigger] rs[k].start by {
            if k < rs.len() - 1 {
                assert(rs[k] == pre[k]);
            }
            assert(rs[min_start_index(pre)] == pre[min_start_index(pre)]);
        }
    }
}

proof fn lemma_remove_wf(rs: Seq<FreeRegion>, m: int)
    requires
        free_list_wf(rs),
        0 <= m < rs.len(),
    ensures
        free_list_wf(rs.remove(m)),
{
    let rest = rs.remove(m);
    assert forall|k: int| 0 <= k < rest.len() implies {
        &&& #[trigger] rest[k].start % 8 == 0
        &&& rest[k].size >= NODE_SIZE
        &&& region_end(rest[k]) <= usize::MAX
    } by {
        let k0 = if k < m { k } else { k + 1 };
        assert(rest[k] == rs[k0]);
    }
    assert forall|k: int, l: int|
        0 <= k < rest.len() && 0 <= l < rest.len() && k != l implies ranges_disjoint(
        #[trigger] rest[k].start as int,
        rest[k].size as int,
        #[trigger] rest[l].start as int,
        rest[l].size as int,
    ) by {
        let k0 = if k < m { k } else { k + 1 };
        let l0 = if l < m { l } else { l + 1 };
        assert(rest[k] == rs[k0]);
        assert(rest[l] == rs[l0]);
    }
}

proof fn lemma_push_wf(rs: Seq<FreeRegion>, x: FreeRegion)
    requires
        free_list_wf(rs),
        x.start % 8 == 0,
        x.size >= NODE_SIZE,
        region_end(x) <= usize::MAX,
        apart_from_list(rs, x.start as int, x.size as int),
    ensures
        free_list_wf(seq![x] + rs),
{
    let c = seq![x] + rs;
    assert forall|k: int| 0 <= k < c.len() implies {
        &&& #[trigger] c[k].start % 8 == 0
        &&& c[k].size >= NODE_SIZE
        &&& region_end(c[k]) <= usize::MAX
    } by {
        if k > 0 {
            assert(c[k] == rs[k - 1]);
        }
    }
    assert forall|k: int, l: int|
        0 <= k < c.len() && 0 <= l < c.len() && k != l implies ranges_disjoint(
        #[trigger] c[k].start as int,
        c[k].size as int,
        #[trigger] c[l].start as int,
        c[l].size as int,
    ) by {
        if k > 0 {
            assert(c[k] == rs[k - 1]);
        }
        if l > 0 {
            assert(c[l] == rs[l - 1]);
        }
    }
}

/// Non-overlapping blocks inside `[lo, hi)` hold at most `hi - lo` bytes.
proof fn lemma_disjoint_total(rs: Seq<FreeRegion>, lo: int, hi: int)
    requires
        free_list_wf(rs),
        lo <= hi,
        within_arena(rs, lo, hi - lo),
    ensures
        total_free(rs) <= hi - lo,
    decreases rs.len(),
{
    if rs.len() > 0 {
        lemma_min_start(rs);
        let m = min_start_index(rs);
        let first = rs[m];
        let rest = rs.remove(m);
        lemma_remove_wf(rs, m);
        assert forall|k: int| 0 <= k < rest.len() implies region_end(first) <= #[trigger] rest[k].start
            && region_end(rest[k]) <= hi by {
            let k0 = if k < m { k } else { k + 1 };
            assert(rest[k] == rs[k0]);
        }
        lemma_disjoint_total(rest, region_end(first), hi);
        lemma_total_remove(rs, m);
    }
}

proof fn lemma_total_lower(rs: Seq<FreeRegion>)
    requires
        forall|i: int| 0 <= i < rs.len() ==> #[trigger] rs[i].size >= NODE_SIZE,
    ensures
        total_free(rs) >= 16 * rs.len(),
    decreases rs.len(),
{
    if rs.len() > 0 {
        let pre = rs.drop_last();
        assert forall|i: int| 0 <= i < pre.len() implies #[trigger] pre[i].size >= NODE_SIZE by {
            assert(pre[i] == rs[i]);
        }
        lemma_total_lower(pre);
    }
}

proof fn lemma_total_concat(a: Seq<FreeRegion>, b: Seq<FreeRegion>)
    ensures
        total_free(a + b) == total_free(a) + total_free(b),
    decreases b.len(),
{
    if b.len() > 0 {
        lemma_total_concat(a, b.drop_last());
        assert((a + b).drop_last() =~= a + b.drop_last());
    } else {
        assert(a + b =~= a);
    }
}

/// A block that can be added to a well-formed list inside an arena of at
/// most `n` nodes' worth of bytes leaves the list shorter than `n` before.
proof fn lemma_room(rs: Seq<FreeRegion>, x: FreeRegion, lo: int, size: int, n: int)
    requires
        free_list_wf(rs),
        within_arena(rs, lo, size),
        x.start % 8 == 0,
        x.size >= NODE_SIZE,
        lo <= x.start,
        region_end(x) <= lo + size,
        lo + size <= usize::MAX,
        apart_from_list(rs, x.start as int, x.size as int),
        size <= n * NODE_SIZE,
    ensures
        rs.len() < n,
{
    let c = seq![x] + rs;
    lemma_push_wf(rs, x);
    assert(within_arena(c, lo, size)) by {
        assert forall|i: int| 0 <= i < c.len() implies lo <= #[trigger] c[i].start && region_end(c[i])
            <= lo + size by {
            if i > 0 {
                assert(c[i] == rs[i - 1]);
            }
        }
    }
    lemma_disjoint_total(c, lo, lo + size);
    assert forall|i: int| 0 <= i < c.len() implies #[trigger] c[i].size >= NODE_SIZE by {
        assert(c[i].start % 8 == 0);
    }
    lemma_total_lower(c);
}

proof fn lemma_align_up(x: int, a: int)
    requires
        0 <= x,
        0 < a,
    ensures
        align_up(x, a) % a == 0,
        x <= align_up(x, a) < x + a,
{
    lemma_fundamental_div_mod(x, a);
    if x % a != 0 {
        lemma_mod_multiples_basic(x / a + 1, a);
        assert(x - x % a + a == (x / a + 1) * a) by (nonlinear_arith)
            requires
                x == a * (x / a) + x % a,
        ;
    }
}

proof fn lemma_power_of_two_vs_node_align(a: usize)
    requires
        is_power_of_two(a),
    ensures
        a >= 8 ==> a % 8 == 0,
        a < 8 ==> a == 1 || a == 2 || a == 4,
{
    assert(a > 0 && a & ((a - 1) as usize) == 0 ==> (a >= 8 ==> a % 8 == 0)) by (bit_vector);
    assert(a > 0 && a & ((a - 1) as usize) == 0 ==> (a < 8 ==> a == 1 || a == 2 || a == 4))
        by (bit_vector);
}

proof fn lemma_multiple_of_8(x: int, align: int)
    requires
        x % 8 == 0,
        align == 1 || align == 2 || align == 4,
    ensures
        x % align == 0,
{
    lemma_fundamental_div_mod(x, 8);
    if align == 2 {
        lemma_mod_multiples_basic(4 * (x / 8), 2);
        assert(x == (4 * (x / 8)) * 2);
    } else if align == 4 {
        lemma_mod_multiples_basic(2 * (x / 8), 4);
        assert(x == (2 * (x / 8)) * 4);
    }
}

proof fn lemma_mod_trans(x: int, a: int)
    requires
        x % a == 0,
        a % 8 == 0,
        a > 0,
        x >= 0,
    ensures
        x % 8 == 0,
{
    lemma_fundamental_div_mod(x, a);
    lemma_fundamental_div_mod(a, 8);
    lemma_mod_multiples_basic((x / a) * (a / 8), 8);
    assert(x == ((x / a) * (a / 8)) * 8) by (nonlinear_arith)
        requires
            x == a * (x / a) + x % a,
            a == 8 * (a / 8) + a % 8,
            x % a == 0,
            a % 8 == 0,
    ;
}

/// Facts about an adjusted request: node-aligned alignment and size, size at
/// least one node, and the adjusted alignment is a multiple of the asked one.
proof fn lemma_adjusted(size: int, align: int)
    requires
        valid_request(size, align),
    ensures
        adjusted(size, align).1 % 8 == 0,
        adjusted(size, align).1 >= align,
        adjusted(size, align).0 % 8 == 0,
        adjusted(size, align).0 >= NODE_SIZE,
        adjusted(size, align).0 >= size,
        adjusted(size, align).0 <= isize::MAX,
        forall|x: int| x >= 0 && #[trigger] (x % adjusted(size, align).1) == 0 ==> x % align == 0,
{
    let (s, a) = adjusted(size, align);
    lemma_power_of_two_vs_node_align(align as usize);
    lemma_align_up(size, a);
    if s != NODE_SIZE as int {
        lemma_mod_trans(s, a);
    }
    assert forall|x: int| x >= 0 && #[trigger] (x % adjusted(size, align).1) == 0 implies x % align
        == 0 by {
        if align < 8 {
            lemma_multiple_of_8(x, align);
        }
    }
}

proof fn lemma_fits_size(r: FreeRegion, size: int, align: int)
    requires
        fits(r, size, align),
        align > 0,
    ensures
        size <= r.size,
{
    lemma_align_up(r.start as int, align);
}

proof fn lemma_first_fit(rs: Seq<FreeRegion>, size: int, align: int, i: int)
    requires
        0 <= i <= rs.len(),
    ensures
        i <= first_fit_from(rs, size, align, i) <= rs.len(),
        first_fit_from(rs, size, align, i) < rs.len() ==> fits(
            rs[first_fit_from(rs, size, align, i)],
            size,
            align,
        ),
        forall|j: int| i <= j < first_fit_from(rs, size, align, i) ==> !fits(#[trigger] rs[j], size, align),
    decreases rs.len() - i,
{
    if i < rs.len() && !fits(rs[i], size, align) {
        lemma_first_fit(rs, size, align, i + 1);
    }
}

proof fn lemma_region_within_total(rs: Seq<FreeRegion>, i: int)
    requires
        0 <= i < rs.len(),
    ensures
        rs[i].size <= total_free(rs),
    decreases rs.len(),
{
    if i < rs.len() - 1 {
        lemma_region_within_total(rs.drop_last(), i);
        assert(rs.drop_last()[i] == rs[i]);
    }
    lemma_total_nonneg(rs.drop_last());
}

proof fn lemma_total_nonneg(rs: Seq<FreeRegion>)
    ensures
        total_free(rs) >= 0,
    decreases rs.len(),
{
    if rs.len() > 0 {
        lemma_total_nonneg(rs.drop_last());
    }
}

} // verus!
