//! The heap arena: reserves the fixed virtual address range of the kernel
//! heap and maps it page by page, drawing one physical frame per page from
//! the frame source.
//!
//! On full success the now-mapped, zeroed range is handed to the
//! general-purpose allocator that backs every later dynamic allocation;
//! that hand-over, and the hardware installation of each mapping, is the
//! platform's part. Mapping must run to completion exactly once before any
//! component that allocates — task spawning, the executor's tables, the
//! event channel — is used.
use vstd::prelude::*;

use crate::memory::{BootloaderFrameAllocator, FRAME_SIZE, MapError, PageMapper, PageMapping};

verus! {

/// First virtual address of the heap range.
pub const HEAP_START: u64 = 0x4444_4444_0000;

/// Size of the heap range in bytes.
pub const HEAP_SIZE: u64 = 100 * 1024;

/// Number of pages the heap range spans: the pages containing every byte
/// from `HEAP_START` to `HEAP_START + HEAP_SIZE - 1`.
pub const HEAP_PAGE_COUNT: u64 = (HEAP_SIZE - 1) / FRAME_SIZE + 1;

/// The page that the heap's i-th mapping targets.
pub open spec fn heap_page(i: int) -> u64 {
    (HEAP_START + i * (FRAME_SIZE as int)) as u64
}

/// Maps every page of the fixed heap range, present and writable, to one
/// freshly allocated physical frame each, in ascending page order.
///
/// This succeeds exactly when the frame source still holds at least
/// `HEAP_PAGE_COUNT` frames. When it runs dry midway, the caller receives
/// an explicit exhaustion signal, every page up to the last one that got a
/// frame stays mapped, and no page beyond it is touched: a boot-time fatal
/// condition, never retried.
pub fn init_heap(mapper: &mut PageMapper, frame_allocator: &mut BootloaderFrameAllocator) -> (r:
    Result<(), MapError>)
    requires
        forall|i: int| 0 <= i < HEAP_PAGE_COUNT ==> !old(mapper).is_mapped(#[trigger] heap_page(i)),
    ensures
        r is Ok <==> old(frame_allocator).remaining().len() >= HEAP_PAGE_COUNT,
        r is Err ==> r == Err::<(), MapError>(MapError::FrameAllocationFailed),
        final(mapper).entries_view() == old(mapper).entries_view() + Seq::new(
            vstd::math::min(
                HEAP_PAGE_COUNT as int,
                old(frame_allocator).remaining().len() as int,
            ) as nat,
            |i: int|
                PageMapping {
                    page: heap_page(i),
                    frame: old(frame_allocator).remaining()[i],
                    writable: true,
                },
        ),
        final(frame_allocator).remaining() == old(frame_allocator).remaining().skip(
            vstd::math::min(HEAP_PAGE_COUNT as int, old(frame_allocator).remaining().len() as int),
        ),
{
    let ghost rem0 = frame_allocator.remaining();
    let mut i: u64 = 0;
    while i < HEAP_PAGE_COUNT
        invariant
            0 <= i <= HEAP_PAGE_COUNT,
            i <= rem0.len(),
            rem0 == old(frame_allocator).remaining(),
            frame_allocator.remaining() == rem0.skip(i as int),
            mapper.entries_view() == old(mapper).entries_view() + Seq::new(
                i as nat,
                |j: int|
                    PageMapping { page: heap_page(j), frame: rem0[j], writable: true },
            ),
            forall|j: int| 0 <= j < HEAP_PAGE_COUNT ==> !old(mapper).is_mapped(#[trigger] heap_page(j)),
        decreases HEAP_PAGE_COUNT - i,
    {
        let ghost pre_rem = frame_allocator.remaining();
        let frame = match frame_allocator.allocate_frame() {
            Some(frame) => frame,
            None => {
                proof {
                    assert(pre_rem.len() == 0);
                    assert(rem0.len() - i == 0);
                    let m = vstd::math::min(HEAP_PAGE_COUNT as int, rem0.len() as int);
                    assert(m == i);
                    assert(frame_allocator.remaining() =~= rem0.skip(m));
                    assert(mapper.entries_view() =~= old(mapper).entries_view() + Seq::new(
                        m as nat,
                        |j: int|
                            PageMapping { page: heap_page(j), frame: rem0[j], writable: true },
                    ));
                }
                return Err(MapError::FrameAllocationFailed);
            },
        };
        let page = HEAP_START + i * FRAME_SIZE;
        proof {
            assert(frame == rem0[i as int]);
            vstd::arithmetic::div_mod::lemma_mod_multiples_vanish(
                i as int,
                HEAP_START as int,
                FRAME_SIZE as int,
            );
            assert((HEAP_START as int) % (FRAME_SIZE as int) == 0);
            assert(page % FRAME_SIZE == 0);
            assert(!old(mapper).is_mapped(heap_page(i as int)));
            assert forall|k: int|
                0 <= k < mapper.entries_view().len() implies #[trigger] mapper.entries_view()[k].page != page by {
                if k < old(mapper).entries_view().len() {
                    assert(!old(mapper).is_mapped(heap_page(i as int)));
                    assert(old(mapper).entries_view()[k].page != heap_page(i as int));
                } else {
                    let j = k - old(mapper).entries_view().len();
                    assert(mapper.entries_view()[k].page == heap_page(j));
                    assert(heap_page(j) != heap_page(i as int));
                }
            }
            assert(!mapper.is_mapped(page));
        }
        let ghost entries_pre = mapper.entries_view();
        let mapped = mapper.map_to(page, frame, true);
        proof {
            assert(mapped is Ok);
            assert(frame_allocator.remaining() =~= rem0.skip(i as int + 1));
            assert(mapper.entries_view() =~= old(mapper).entries_view() + Seq::new(
                (i + 1) as nat,
                |j: int|
                    PageMapping { page: heap_page(j), frame: rem0[j], writable: true },
            ));
        }
        i = i + 1;
    }
    proof {
        let m = vstd::math::min(HEAP_PAGE_COUNT as int, rem0.len() as int);
        assert(m == HEAP_PAGE_COUNT);
        assert(frame_allocator.remaining() =~= rem0.skip(m));
    }
    Ok(())
}

} // verus!
