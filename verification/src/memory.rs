//! The physical frame source and the virtual memory mapper model.
//!
//! The frame source turns the firmware-supplied list of physical memory
//! regions into the ascending sequence of usable 4 KiB frames and hands them
//! out one by one, forward-only: this core never frees physical memory. The
//! mapper records virtual-page-to-physical-frame translations; the platform
//! installs each recorded translation in the hardware page tables.
use vstd::prelude::*;

verus! {

/// Size of a physical frame and of a virtual page, in bytes.
pub const FRAME_SIZE: u64 = 4096;

/// One region of the firmware-supplied physical memory map: a half-open
/// byte range tagged usable or reserved.
#[derive(Clone, Copy, Debug, PartialEq, Eq, Structural)]
pub struct MemoryRegion {
    pub start: u64,
    pub end: u64,
    pub usable: bool,
}

/// How many frame-sized steps from `start` stay below `end`: the number of
/// frames the region contributes when it is usable.
pub open spec fn region_frame_count(r: MemoryRegion) -> int {
    if r.usable && r.start < r.end {
        (r.end - r.start - 1) / (FRAME_SIZE as int) + 1
    } else {
        0
    }
}

/// The base address of the frame containing the given address.
pub open spec fn frame_containing(addr: int) -> int {
    (addr / (FRAME_SIZE as int)) * (FRAME_SIZE as int)
}

/// The frames of one region, in ascending address order: every frame-sized
/// step from the region's start that stays inside the region, each mapped to
/// the frame containing it.
pub open spec fn region_frames(r: MemoryRegion) -> Seq<u64> {
    Seq::new(
        region_frame_count(r) as nat,
        |k: int| frame_containing(r.start + k * (FRAME_SIZE as int)) as u64,
    )
}

/// Every usable frame of the memory map, region by region in the map's
/// order, ascending within each region.
pub open spec fn usable_frames(regions: Seq<MemoryRegion>) -> Seq<u64>
    decreases regions.len(),
{
    if regions.len() == 0 {
        Seq::<u64>::empty()
    } else {
        region_frames(regions[0]) + usable_frames(regions.skip(1))
    }
}

proof fn lemma_usable_frames_decompose(regions: Seq<MemoryRegion>, i: int)
    requires
        0 <= i < regions.len(),
    ensures
        usable_frames(regions.skip(i)) == region_frames(regions[i]) + usable_frames(
            regions.skip(i + 1),
        ),
{
    assert(regions.skip(i)[0] == regions[i]);
    assert(regions.skip(i).skip(1) =~= regions.skip(i + 1));
}

/// The forward-only allocator over the usable frames of a bootloader
/// memory map. It walks the regions in order, handing out one frame per
/// step; no frame is ever handed out twice.
pub struct BootloaderFrameAllocator {
    regions: Vec<MemoryRegion>,
    region_idx: usize,
    taken: u64,
}

/// The frames still to be handed out when the walk stands at region `idx`
/// with `taken` frames of that region already gone.
pub open spec fn frames_from(regions: Seq<MemoryRegion>, idx: int, taken: int) -> Seq<u64> {
    if 0 <= idx < regions.len() {
        region_frames(regions[idx]).skip(taken) + usable_frames(regions.skip(idx + 1))
    } else {
        Seq::<u64>::empty()
    }
}

impl BootloaderFrameAllocator {
    #[verifier::type_invariant]
    spec fn inv(self) -> bool {
        &&& self.region_idx <= self.regions@.len()
        &&& self.region_idx < self.regions@.len() ==> self.taken <= region_frame_count(
            self.regions@[self.region_idx as int],
        )
        &&& self.region_idx == self.regions@.len() ==> self.taken == 0
    }

    /// The usable frames not yet handed out, in the order they will come.
    pub closed spec fn remaining(self) -> Seq<u64> {
        frames_from(self.regions@, self.region_idx as int, self.taken as int)
    }

    /// Hands out the next usable frame, or reports exhaustion. The frames
    /// come in ascending order within each region, regions in map order.
    pub fn allocate_frame(&mut self) -> (r: Option<u64>)
        ensures
            old(self).remaining().len() == 0 ==> r is None && final(self).remaining() == old(self).remaining(),
            old(self).remaining().len() > 0 ==> r == Some(old(self).remaining()[0]) && final(self).remaining() == old(self).remaining().skip(1) && old(self).remaining()[0] % FRAME_SIZE == 0,
    {
        proof {
            use_type_invariant(&*self);
        }
        while self.region_idx < self.regions.len()
            invariant
                self.inv(),
                self.remaining() == old(self).remaining(),
            decreases self.regions@.len() - self.region_idx,
        {
            let r = self.regions[self.region_idx];
            let ghost pre = *self;
            if r.usable && r.start < r.end {
                let count = (r.end - r.start - 1) / FRAME_SIZE + 1;
                proof {
                    assert(count == region_frame_count(r));
                }
                if self.taken < count {
                    proof {
                        assert(self.taken * (FRAME_SIZE as int) <= (count - 1) * (
                        FRAME_SIZE as int)) by (nonlinear_arith)
                            requires
                                self.taken <= count - 1,
                                FRAME_SIZE > 0,
                        ;
                        assert((count - 1) * (FRAME_SIZE as int) <= r.end - r.start - 1);
                    }
                    let addr = r.start + self.taken * FRAME_SIZE;
                    let frame = addr / FRAME_SIZE * FRAME_SIZE;
                    let ghost rem = self.remaining();
                    self.taken = self.taken + 1;
                    proof {
                        assert(rem == region_frames(r).skip(pre.taken as int) + usable_frames(
                            pre.regions@.skip(pre.region_idx + 1),
                        ));
                        assert(region_frames(r).skip(pre.taken as int).len() > 0);
                        assert(rem[0] == region_frames(r)[pre.taken as int]);
                        assert(frame == rem[0]);
                        vstd::arithmetic::div_mod::lemma_mod_multiples_basic(
                            addr as int / (FRAME_SIZE as int),
                            FRAME_SIZE as int,
                        );
                        assert(frame % FRAME_SIZE == 0);
                        assert(region_frames(r).skip(pre.taken as int + 1) =~= region_frames(
                            r,
                        ).skip(pre.taken as int).skip(1));
                        assert(self.remaining() =~= rem.skip(1));
                    }
                    return Some(frame);
                } else {
                    self.taken = 0;
                    self.region_idx = self.region_idx + 1;
                    proof {
                        assert(region_frames(r).skip(pre.taken as int) =~= Seq::<u64>::empty());
                        if self.region_idx < self.regions@.len() {
                            lemma_usable_frames_decompose(
                                pre.regions@,
                                pre.region_idx as int + 1,
                            );
                            assert(region_frames(self.regions@[self.region_idx as int]).skip(0)
                                =~= region_frames(self.regions@[self.region_idx as int]));
                        } else {
                            assert(pre.regions@.skip(pre.region_idx + 1).len() == 0);
                            assert(pre.regions@.skip(pre.region_idx + 1)
                                =~= Seq::<MemoryRegion>::empty());
                        }
                        assert(self.remaining() =~= pre.remaining());
                    }
                }
            } else {
                proof {
                    assert(region_frames(r).len() == 0);
                    assert(region_frames(r).skip(self.taken as int) =~= Seq::<u64>::empty());
                }
                self.taken = 0;
                self.region_idx = self.region_idx + 1;
                proof {
                    if self.region_idx < self.regions@.len() {
                        lemma_usable_frames_decompose(pre.regions@, pre.region_idx as int + 1);
                        assert(region_frames(self.regions@[self.region_idx as int]).skip(0)
                            =~= region_frames(self.regions@[self.region_idx as int]));
                    } else {
                        assert(pre.regions@.skip(pre.region_idx + 1).len() == 0);
                        assert(pre.regions@.skip(pre.region_idx + 1)
                            =~= Seq::<MemoryRegion>::empty());
                    }
                    assert(self.remaining() =~= pre.remaining());
                }
            }
        }
        proof {
            use_type_invariant(&*self);
        }
        None
    }
}

/// Builds the frame source from the firmware memory map: the allocator will
/// hand out exactly the usable frames of the given regions, in order.
pub fn init_bootloader_frame_allocator(regions: Vec<MemoryRegion>) -> (fa:
    BootloaderFrameAllocator)
    ensures
        fa.remaining() == usable_frames(regions@),
{
    let fa = BootloaderFrameAllocator { regions, region_idx: 0, taken: 0 };
    proof {
        if fa.regions@.len() > 0 {
            lemma_usable_frames_decompose(fa.regions@, 0);
            assert(fa.regions@.skip(0) =~= fa.regions@);
            assert(region_frames(fa.regions@[0]).skip(0) =~= region_frames(fa.regions@[0]));
            assert(fa.remaining() =~= usable_frames(fa.regions@));
        } else {
            assert(fa.remaining() =~= usable_frames(fa.regions@));
        }
    }
    fa
}

/// Why a mapping request failed: the frame source was exhausted while an
/// intermediate structure needed memory, or the target page already has an
/// incompatible translation installed.
#[derive(Clone, Copy, Debug, PartialEq, Eq, Structural)]
pub enum MapError {
    FrameAllocationFailed,
    PageAlreadyMapped,
}

/// One installed translation: a virtual page, the physical frame backing
/// it, and whether the page is writable (it is always present).
#[derive(Clone, Copy, Debug, PartialEq, Eq, Structural)]
pub struct PageMapping {
    pub page: u64,
    pub frame: u64,
    pub writable: bool,
}

/// The virtual memory mapper: a thin editor of the active translation
/// table. It records which virtual pages map to which physical frames; the
/// platform installs each recorded translation in the hardware page tables
/// and flushes the stale cached translation. Once installed, a translation
/// is never removed: this core has no unmapping path.
pub struct PageMapper {
    entries: Vec<PageMapping>,
}

impl PageMapper {
    /// The installed translations, in installation order.
    pub closed spec fn entries_view(self) -> Seq<PageMapping> {
        self.entries@
    }

    /// Whether the page already has a translation.
    pub open spec fn is_mapped(self, page: u64) -> bool {
        exists|k: int|
            0 <= k < self.entries_view().len() && #[trigger] self.entries_view()[k].page == page
    }

    /// No page has two translations.
    pub open spec fn pages_distinct(self) -> bool {
        forall|i: int, j: int|
            0 <= i < j < self.entries_view().len() ==> #[trigger] self.entries_view()[i].page
                != #[trigger] self.entries_view()[j].page
    }

    /// A mapper with no translations installed yet.
    pub fn new() -> (m: PageMapper)
        ensures
            m.entries_view() == Seq::<PageMapping>::empty(),
    {
        PageMapper { entries: Vec::new() }
    }

    /// Installs a mapping of the given virtual page to the given physical
    /// frame, present and with the requested write permission.
    /// Fails, leaving the table unchanged, exactly when the page is already
    /// mapped. Page and frame must be frame-aligned, as the hardware
    /// requires.
    pub fn map_to(&mut self, page: u64, frame: u64, writable: bool) -> (r: Result<(), MapError>)
        requires
            page % FRAME_SIZE == 0,
            frame % FRAME_SIZE == 0,
        ensures
            old(self).is_mapped(page) ==> r == Err::<(), MapError>(MapError::PageAlreadyMapped)
                && final(self).entries_view() == old(self).entries_view(),
            !old(self).is_mapped(page) ==> r is Ok && final(self).entries_view() == old(
                self,
            ).entries_view().push(PageMapping { page, frame, writable }),
            old(self).pages_distinct() ==> final(self).pages_distinct(),
    {
        let mut k: usize = 0;
        while k < self.entries.len()
            invariant
                k <= self.entries_view().len(),
                self == old(self),
                forall|j: int| 0 <= j < k ==> #[trigger] self.entries_view()[j].page != page,
            decreases self.entries_view().len() - k,
        {
            if self.entries[k].page == page {
                proof {
                    assert(self.entries_view()[k as int].page == page);
                }
                return Err(MapError::PageAlreadyMapped);
            }
            k = k + 1;
        }
        self.entries.push(PageMapping { page, frame, writable });
        proof {
            assert(!old(self).is_mapped(page));
            if old(self).pages_distinct() {
                assert forall|i: int, j: int|
                    0 <= i < j < self.entries_view().len() implies #[trigger] self.entries_view()[i].page != #[trigger] self.entries_view()[j].page by {
                    if j < self.entries_view().len() - 1 {
                        assert(old(self).entries_view()[i].page != old(
                            self,
                        ).entries_view()[j].page);
                    } else {
                        assert(self.entries_view()[j].page == page);
                    }
                }
            }
        }
        Ok(())
    }

    /// The frame a page is mapped to, if any: the lookup the hardware walk
    /// would perform on the recorded table.
    pub fn translation(&self, page: u64) -> (r: Option<u64>)
        ensures
            r is None <==> !self.is_mapped(page),
            r is Some ==> exists|k: int|
                0 <= k < self.entries_view().len() && #[trigger] self.entries_view()[k].page
                    == page && self.entries_view()[k].frame == r->0,
    {
        let mut k: usize = 0;
        while k < self.entries.len()
            invariant
                k <= self.entries_view().len(),
                forall|j: int| 0 <= j < k ==> #[trigger] self.entries_view()[j].page != page,
            decreases self.entries_view().len() - k,
        {
            if self.entries[k].page == page {
                proof {
                    assert(self.entries_view()[k as int].page == page);
                }
                return Some(self.entries[k].frame);
            }
            k = k + 1;
        }
        None
    }
}

} // verus!
