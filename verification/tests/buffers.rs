use raw_vec::allocator::{AllocErr, AllocRef, BlockInfo, MemoryBlock};
use raw_vec::error::{OutOfMemory, TryReserveError};
use raw_vec::heap::{Global, HeapBlock};
use raw_vec::layout::Layout;
use raw_vec::raw_vec::{AllocInit, RawVec};

/// A layout, as it is written in expected values.
fn layout(size: usize, align: usize) -> Layout {
    Layout { size, align }
}

/// An allocator that consumes a fixed amount of fuel before its requests start failing, and counts
/// the blocks that it gets back.
struct BoundedAlloc {
    heap: Global,
    fuel: usize,
    returned: usize,
}

impl BoundedAlloc {
    fn new(fuel: usize) -> Self {
        BoundedAlloc { heap: Global::new(), fuel, returned: 0 }
    }

    fn burn(&mut self, size: usize) -> Result<(), AllocErr> {
        if size > self.fuel {
            Err(AllocErr)
        } else {
            self.fuel -= size;
            Ok(())
        }
    }
}

impl AllocRef for BoundedAlloc {
    type Block = HeapBlock;

    fn allocate(&mut self, layout: Layout) -> Result<HeapBlock, AllocErr> {
        self.burn(layout.size)?;
        self.heap.allocate(layout)
    }

    fn allocate_zeroed(&mut self, layout: Layout) -> Result<HeapBlock, AllocErr> {
        self.burn(layout.size)?;
        self.heap.allocate_zeroed(layout)
    }

    fn deallocate(&mut self, block: HeapBlock, layout: Layout) {
        self.returned += 1;
        self.heap.deallocate(block, layout)
    }

    fn grow(
        &mut self,
        block: &mut HeapBlock,
        old_layout: Layout,
        new_layout: Layout,
    ) -> Result<(), AllocErr> {
        self.burn(new_layout.size)?;
        self.heap.grow(block, old_layout, new_layout)
    }

    fn shrink(
        &mut self,
        block: &mut HeapBlock,
        old_layout: Layout,
        new_layout: Layout,
    ) -> Result<(), AllocErr> {
        self.burn(new_layout.size)?;
        self.heap.shrink(block, old_layout, new_layout)
    }
}

/// A block without memory behind it, of any length.
struct HollowBlock {
    info: BlockInfo,
}

impl MemoryBlock for HollowBlock {
    fn addr(&self) -> usize {
        self.info.addr
    }

    fn len(&self) -> usize {
        self.info.len
    }

    fn read(&self, _offset: usize) -> u8 {
        0
    }

    fn write(&mut self, _offset: usize, _byte: u8) {}
}

/// An allocator that serves every request with `excess` more bytes than it asks for, and keeps
/// the layouts that it is asked for.
struct HollowAlloc {
    excess: usize,
    asked: Vec<Layout>,
    given_back: Vec<Layout>,
}

impl HollowAlloc {
    fn new(excess: usize) -> Self {
        HollowAlloc { excess, asked: Vec::new(), given_back: Vec::new() }
    }

    fn block(&mut self, layout: Layout) -> HollowBlock {
        self.asked.push(layout);
        HollowBlock { info: BlockInfo { addr: 4096, len: layout.size + self.excess, layout } }
    }
}

impl AllocRef for HollowAlloc {
    type Block = HollowBlock;

    fn allocate(&mut self, layout: Layout) -> Result<HollowBlock, AllocErr> {
        Ok(self.block(layout))
    }

    fn allocate_zeroed(&mut self, layout: Layout) -> Result<HollowBlock, AllocErr> {
        Ok(self.block(layout))
    }

    fn deallocate(&mut self, _block: HollowBlock, layout: Layout) {
        self.given_back.push(layout);
    }

    fn grow(
        &mut self,
        block: &mut HollowBlock,
        old_layout: Layout,
        new_layout: Layout,
    ) -> Result<(), AllocErr> {
        self.given_back.push(old_layout);
        *block = self.block(new_layout);
        Ok(())
    }

    fn shrink(
        &mut self,
        block: &mut HollowBlock,
        old_layout: Layout,
        new_layout: Layout,
    ) -> Result<(), AllocErr> {
        self.given_back.push(old_layout);
        *block = self.block(new_layout);
        Ok(())
    }
}

/// A vector of bytes on top of a buffer.
struct ByteVec {
    buf: RawVec<u8>,
    len: usize,
}

impl ByteVec {
    fn push_all(&mut self, elems: &[u8]) {
        self.buf.reserve(self.len, elems.len()).unwrap();
        for x in elems {
            self.buf.memory_mut().unwrap().write(self.len, *x);
            self.len += 1;
        }
    }

    fn bytes(&self) -> Vec<u8> {
        (0..self.len).map(|i| self.buf.memory().unwrap().read(i)).collect()
    }
}

#[test]
fn allocator_param() {
    let a = BoundedAlloc::new(500);
    let mut v: RawVec<u8, BoundedAlloc> = RawVec::with_capacity_in(50, a).ok().unwrap();
    assert_eq!(v.allocator().fuel, 450);
    v.reserve(50, 150).unwrap();
    assert_eq!(v.allocator().fuel, 250);
    assert_eq!(v.capacity(), 200);
}

#[test]
fn reserve_does_not_overallocate() {
    {
        let mut v: RawVec<u32> = RawVec::new();
        v.reserve(0, 9).unwrap();
        assert_eq!(9, v.capacity());
    }
    {
        let mut v: RawVec<u32> = RawVec::new();
        v.reserve(0, 7).unwrap();
        assert_eq!(7, v.capacity());
        v.reserve(7, 90).unwrap();
        assert_eq!(97, v.capacity());
    }
    {
        let mut v: RawVec<u32> = RawVec::new();
        v.reserve(0, 12).unwrap();
        assert_eq!(12, v.capacity());
        v.reserve(12, 3).unwrap();
        assert_eq!(24, v.capacity());
    }
}

#[test]
fn pushes_all_elements() {
    let mut vector = ByteVec { buf: RawVec::new(), len: 0 };
    vector.push_all(&[1, 3, 5, 7, 9]);
    assert_eq!(vector.buf.capacity(), 8);
    vector.push_all(&[2, 4, 6, 8, 10]);
    assert_eq!(vector.buf.capacity(), 16);
    assert_eq!(vector.bytes(), vec![1, 3, 5, 7, 9, 2, 4, 6, 8, 10]);
}

#[test]
fn pushes_move_few_elements() {
    let mut v: RawVec<u32> = RawVec::new();
    let mut moved = 0;
    for len in 0..10_000 {
        let before = v.capacity();
        v.reserve(len, 1).unwrap();
        if v.capacity() != before {
            moved += before;
            assert!(v.capacity() >= 2 * before);
        }
        assert!(v.capacity() > len);
    }
    assert!(moved <= 2 * 10_000);
}

#[test]
fn new_takes_no_memory() {
    let v: RawVec<u64> = RawVec::new();
    assert_eq!(v.capacity(), 0);
    assert_eq!(v.ptr(), core::mem::align_of::<u64>());
    assert!(v.memory().is_none());
}

#[test]
fn zero_capacity_is_new() {
    let v: RawVec<u64, BoundedAlloc> = RawVec::with_capacity_in(0, BoundedAlloc::new(0)).ok().unwrap();
    assert_eq!(v.capacity(), 0);
    assert_eq!(v.ptr(), core::mem::align_of::<u64>());
    assert!(v.memory().is_none());
    let v: RawVec<u64> = RawVec::with_capacity(0).ok().unwrap();
    assert_eq!(v.capacity(), 0);
    assert_eq!(v.ptr(), core::mem::align_of::<u64>());
}

#[test]
fn with_capacity_is_exact_and_aligned() {
    let v: RawVec<u128> = RawVec::with_capacity(5).ok().unwrap();
    assert_eq!(v.capacity(), 5);
    assert_eq!(v.memory().unwrap().len(), 80);
    assert_eq!(v.ptr() % core::mem::align_of::<u128>(), 0);
    let w: RawVec<u128> = RawVec::with_capacity(5).ok().unwrap();
    assert!(v.ptr() + 80 <= w.ptr() || w.ptr() + 80 <= v.ptr());
    assert_eq!(v.ptr(), v.memory().unwrap().addr());
}

#[test]
fn with_capacity_zeroed_holds_zeros() {
    let v: RawVec<u32> = RawVec::with_capacity_zeroed(7).ok().unwrap();
    assert_eq!(v.capacity(), 7);
    assert!((0..28).all(|i| v.memory().unwrap().read(i) == 0));
    let v: RawVec<u32, BoundedAlloc> =
        RawVec::with_capacity_zeroed_in(7, BoundedAlloc::new(100)).ok().unwrap();
    assert_eq!(v.capacity(), 7);
    assert_eq!(v.allocator().fuel, 72);
    assert!((0..28).all(|i| v.memory().unwrap().read(i) == 0));
}

#[test]
fn zero_sized_elements() {
    let mut v: RawVec<()> = RawVec::new();
    assert_eq!(v.capacity(), usize::MAX);
    assert_eq!(v.ptr(), 1);
    assert_eq!(v.try_reserve(5, 100), Ok(()));
    assert_eq!(v.try_reserve(0, usize::MAX), Ok(()));
    assert_eq!(v.try_reserve(1, usize::MAX), Err(TryReserveError::CapacityOverflow));
    assert_eq!(v.try_reserve_exact(usize::MAX, 1), Err(TryReserveError::CapacityOverflow));
    assert_eq!(v.shrink_to_fit(3), Ok(()));
    assert_eq!(v.capacity(), usize::MAX);
    let mut w: RawVec<(), BoundedAlloc> =
        RawVec::with_capacity_in(1000, BoundedAlloc::new(0)).ok().unwrap();
    assert_eq!(w.capacity(), usize::MAX);
    w.drop();
    assert_eq!(w.capacity(), usize::MAX);
    assert_eq!(w.allocator().returned, 0);
}

#[test]
fn tiny_buffers_are_skipped() {
    let mut v: RawVec<u8> = RawVec::new();
    v.reserve(0, 1).unwrap();
    assert_eq!(v.capacity(), 8);
    let mut v: RawVec<u16> = RawVec::new();
    v.reserve(0, 1).unwrap();
    assert_eq!(v.capacity(), 4);
    let mut v: RawVec<[u8; 1024]> = RawVec::new();
    v.reserve(0, 1).unwrap();
    assert_eq!(v.capacity(), 4);
    let mut v: RawVec<[u8; 1025]> = RawVec::new();
    v.reserve(0, 1).unwrap();
    assert_eq!(v.capacity(), 1);
    let mut v: RawVec<u8> = RawVec::new();
    v.reserve_exact(0, 1).unwrap();
    assert_eq!(v.capacity(), 1);
}

#[test]
fn reserve_exact_takes_no_slack() {
    let mut v: RawVec<u32> = RawVec::with_capacity(10).ok().unwrap();
    v.reserve_exact(10, 1).unwrap();
    assert_eq!(v.capacity(), 11);
    v.reserve_exact(3, 8).unwrap();
    assert_eq!(v.capacity(), 11);
    assert_eq!(v.try_reserve_exact(11, 0), Ok(()));
    assert_eq!(v.try_reserve_exact(11, 5), Ok(()));
    assert_eq!(v.capacity(), 16);
}

#[test]
fn second_request_changes_nothing() {
    let mut v: RawVec<u32, BoundedAlloc> = RawVec::new_in(BoundedAlloc::new(1000));
    v.reserve(0, 10).unwrap();
    assert_eq!(v.allocator().fuel, 960);
    v.reserve(0, 10).unwrap();
    v.reserve(4, 6).unwrap();
    v.reserve_exact(10, 0).unwrap();
    assert_eq!(v.allocator().fuel, 960);
    assert_eq!(v.capacity(), 10);
}

#[test]
fn overflows_are_reported() {
    let mut v: RawVec<u32> = RawVec::with_capacity(3).ok().unwrap();
    let most = isize::MAX as usize / 4;
    assert_eq!(v.try_reserve(3, usize::MAX), Err(TryReserveError::CapacityOverflow));
    assert_eq!(v.try_reserve(3, most), Err(TryReserveError::CapacityOverflow));
    assert_eq!(v.try_reserve_exact(3, usize::MAX - 2), Err(TryReserveError::CapacityOverflow));
    assert_eq!(v.try_reserve_exact(0, most + 1), Err(TryReserveError::CapacityOverflow));
    assert_eq!(v.capacity(), 3);
    let result = RawVec::<u32>::allocate_in(most + 1, AllocInit::Uninitialized, Global::new());
    assert_eq!(result.err(), Some(TryReserveError::CapacityOverflow));
    let result = RawVec::<u32>::allocate_in(usize::MAX, AllocInit::Zeroed, Global::new());
    assert_eq!(result.err(), Some(TryReserveError::CapacityOverflow));
}

#[test]
fn largest_array_is_asked_for() {
    let most = isize::MAX as usize / 4;
    let v: RawVec<u32, HollowAlloc> =
        RawVec::with_capacity_in(most, HollowAlloc::new(0)).ok().unwrap();
    assert_eq!(v.capacity(), most);
    assert_eq!(v.allocator().asked, vec![layout(most * 4, 4)]);
    let result = RawVec::<u32>::with_capacity(most);
    assert_eq!(result.err(), Some(OutOfMemory { layout: layout(most * 4, 4) }));
}

#[test]
fn slack_is_limited() {
    let half = isize::MAX as usize / 2 + 1;
    let mut v: RawVec<u8, HollowAlloc> =
        RawVec::with_capacity_in(half, HollowAlloc::new(0)).ok().unwrap();
    assert_eq!(v.try_reserve(half, 1), Ok(()));
    assert_eq!(v.capacity(), half + 1);
    assert_eq!(v.try_reserve(half + 1, half - 2), Ok(()));
    assert_eq!(v.capacity(), isize::MAX as usize);
    assert_eq!(
        v.try_reserve(isize::MAX as usize, 1),
        Err(TryReserveError::CapacityOverflow)
    );
}

#[test]
fn length_beyond_capacity_makes_no_room() {
    let mut v: RawVec<u32> = RawVec::with_capacity(3).ok().unwrap();
    assert_eq!(v.try_reserve(10, 100), Ok(()));
    assert_eq!(v.capacity(), 3);
    assert_eq!(v.try_reserve_exact(10, 100), Ok(()));
    assert_eq!(v.capacity(), 3);
    assert_eq!(v.try_reserve(10, usize::MAX), Err(TryReserveError::CapacityOverflow));
}

#[test]
fn failed_requests_change_nothing() {
    let mut v: RawVec<u16, BoundedAlloc> =
        RawVec::with_capacity_in(4, BoundedAlloc::new(20)).ok().unwrap();
    for i in 0..8 {
        v.memory_mut().unwrap().write(i, i as u8 + 1);
    }
    let addr = v.ptr();
    assert_eq!(v.try_reserve(4, 4), Err(TryReserveError::AllocError { layout: layout(16, 2) }));
    assert_eq!(v.reserve(4, 4), Err(OutOfMemory { layout: layout(16, 2) }));
    assert_eq!(v.reserve_exact(4, 3), Err(OutOfMemory { layout: layout(14, 2) }));
    assert_eq!(v.ptr(), addr);
    assert_eq!(v.capacity(), 4);
    assert_eq!(v.allocator().fuel, 12);
    assert!((0..8).all(|i| v.memory().unwrap().read(i) == i as u8 + 1));
    v.alloc_mut().fuel = 0;
    assert_eq!(v.shrink_to_fit(2), Err(OutOfMemory { layout: layout(4, 2) }));
    assert_eq!(v.capacity(), 4);
    let result = RawVec::<u16, BoundedAlloc>::with_capacity_in(4, BoundedAlloc::new(7));
    assert_eq!(result.err(), Some(OutOfMemory { layout: layout(8, 2) }));
    let result = RawVec::<u16, BoundedAlloc>::with_capacity_zeroed_in(4, BoundedAlloc::new(7));
    assert_eq!(result.err(), Some(OutOfMemory { layout: layout(8, 2) }));
}

#[test]
fn growing_and_shrinking_keep_contents() {
    let mut v: RawVec<u32> = RawVec::with_capacity(4).ok().unwrap();
    for i in 0..16 {
        v.memory_mut().unwrap().write(i, 100 + i as u8);
    }
    v.reserve(4, 50).unwrap();
    assert_eq!(v.capacity(), 54);
    assert!((0..16).all(|i| v.memory().unwrap().read(i) == 100 + i as u8));
    v.shrink_to_fit(2).unwrap();
    assert_eq!(v.capacity(), 2);
    assert_eq!(v.memory().unwrap().len(), 8);
    assert!((0..8).all(|i| v.memory().unwrap().read(i) == 100 + i as u8));
}

#[test]
fn shrinking_to_nothing_gives_back() {
    let mut v: RawVec<u32, BoundedAlloc> =
        RawVec::with_capacity_in(4, BoundedAlloc::new(16)).ok().unwrap();
    assert_eq!(v.shrink_to_fit(0), Ok(()));
    assert_eq!(v.allocator().returned, 1);
    assert_eq!(v.capacity(), 0);
    assert_eq!(v.ptr(), core::mem::align_of::<u32>());
    assert_eq!(v.shrink_to_fit(0), Ok(()));
    assert_eq!(v.allocator().returned, 1);
    v.alloc_mut().fuel = 12;
    v.reserve_exact(0, 3).unwrap();
    assert_eq!(v.capacity(), 3);
}

#[test]
fn dropping_gives_back_once() {
    let mut v: RawVec<u32, HollowAlloc> =
        RawVec::with_capacity_in(4, HollowAlloc::new(0)).ok().unwrap();
    v.reserve(4, 1).unwrap();
    v.drop();
    assert_eq!(v.allocator().asked, vec![layout(16, 4), layout(32, 4)]);
    assert_eq!(v.allocator().given_back, vec![layout(16, 4), layout(32, 4)]);
    v.drop();
    assert_eq!(v.allocator().given_back.len(), 2);
    assert_eq!(v.capacity(), 0);
}

#[test]
fn excess_is_used() {
    let mut v: RawVec<u32, HollowAlloc> =
        RawVec::with_capacity_in(4, HollowAlloc::new(11)).ok().unwrap();
    assert_eq!(v.capacity(), 6);
    v.reserve_exact(6, 1).unwrap();
    assert_eq!(v.capacity(), 9);
    v.shrink_to_fit(1).unwrap();
    assert_eq!(v.capacity(), 3);
    assert_eq!(v.allocator().asked, vec![layout(16, 4), layout(28, 4), layout(4, 4)]);
    assert_eq!(v.allocator().given_back, vec![layout(24, 4), layout(36, 4)]);
}

#[test]
fn boxes_round_trip() {
    let mut v: RawVec<u32> = RawVec::with_capacity(6).ok().unwrap();
    v.memory_mut().unwrap().write(5, 77);
    let addr = v.ptr();
    let slice = v.into_box(6);
    assert_eq!(slice.len(), 6);
    assert_eq!(slice.ptr(), addr);
    let v = RawVec::from_box(slice);
    assert_eq!(v.capacity(), 6);
    assert_eq!(v.ptr(), addr);
    assert_eq!(v.memory().unwrap().read(5), 77);

    let v: RawVec<u32, HollowAlloc> =
        RawVec::with_capacity_in(4, HollowAlloc::new(11)).ok().unwrap();
    let v = RawVec::from_box(v.into_box(5));
    assert_eq!(v.capacity(), 5);

    let v: RawVec<()> = RawVec::new();
    let slice = v.into_box(17);
    assert_eq!(slice.len(), 17);
    assert_eq!(RawVec::from_box(slice).capacity(), usize::MAX);
}

#[test]
fn raw_parts_round_trip() {
    let v: RawVec<u64> = RawVec::with_capacity(3).ok().unwrap();
    let addr = v.ptr();
    let (block, capacity, _) = v.into_raw_parts();
    let mut v: RawVec<u64> = RawVec::from_raw_parts(block, capacity);
    assert_eq!(v.capacity(), 3);
    assert_eq!(v.ptr(), addr);
    v.reserve(3, 1).unwrap();
    assert_eq!(v.capacity(), 6);

    let v: RawVec<u64, BoundedAlloc> =
        RawVec::with_capacity_in(3, BoundedAlloc::new(24)).ok().unwrap();
    let (block, capacity, alloc) = v.into_raw_parts();
    let mut v: RawVec<u64, BoundedAlloc> = RawVec::from_raw_parts_in(block, capacity, alloc);
    assert_eq!(v.capacity(), 3);
    v.drop();
    assert_eq!(v.allocator().returned, 1);

    let v: RawVec<()> = RawVec::from_raw_parts(None, 5);
    assert_eq!(v.capacity(), usize::MAX);
}

#[test]
fn pushes_make_few_requests() {
    let mut v: RawVec<u32, HollowAlloc> = RawVec::new_in(HollowAlloc::new(0));
    for len in 0..1000 {
        v.reserve(len, 1).unwrap();
    }
    let sizes: Vec<usize> = v.allocator().asked.iter().map(|asked| asked.size / 4).collect();
    assert_eq!(sizes, vec![4, 8, 16, 32, 64, 128, 256, 512, 1024]);
    assert!(sizes.len() <= 9 + 2);
    let mut v: RawVec<(), HollowAlloc> = RawVec::new_in(HollowAlloc::new(0));
    for len in 0..1000 {
        v.reserve(len, 1).unwrap();
    }
    assert!(v.allocator().asked.is_empty());
}

#[test]
fn less_than_one_element_is_unused() {
    for excess in 0..9 {
        let mut v: RawVec<u32, HollowAlloc> =
            RawVec::with_capacity_in(3, HollowAlloc::new(excess)).ok().unwrap();
        assert_eq!(v.capacity(), (12 + excess) / 4);
        v.reserve(v.capacity(), 1).unwrap();
        assert!(v.memory().unwrap().len() - 4 * v.capacity() < 4);
        v.shrink_to_fit(2).unwrap();
        assert_eq!(v.capacity(), (8 + excess) / 4);
        assert!(v.memory().unwrap().len() - 4 * v.capacity() < 4);
    }
}

#[test]
fn try_reserve_agrees_with_reserve() {
    for fuel in 0..64 {
        for additional in 0..10 {
            let mut a: RawVec<u16, BoundedAlloc> = RawVec::new_in(BoundedAlloc::new(fuel));
            let mut b: RawVec<u16, BoundedAlloc> = RawVec::new_in(BoundedAlloc::new(fuel));
            let tried = a.try_reserve(0, additional);
            let done = b.reserve(0, additional);
            assert_eq!(
                tried,
                done.map_err(|error| TryReserveError::AllocError { layout: error.layout })
            );
            assert_eq!(a.capacity(), b.capacity());
            assert_eq!(a.allocator().fuel, b.allocator().fuel);
            let tried = a.try_reserve_exact(a.capacity(), additional);
            let done = b.reserve_exact(b.capacity(), additional);
            assert_eq!(
                tried,
                done.map_err(|error| TryReserveError::AllocError { layout: error.layout })
            );
            assert_eq!(a.capacity(), b.capacity());
            assert_eq!(a.allocator().fuel, b.allocator().fuel);
        }
    }
}

#[test]
fn granted_block_becomes_the_buffer() {
    let v: RawVec<u32, HollowAlloc> =
        RawVec::allocate_in(5, AllocInit::Uninitialized, HollowAlloc::new(4)).ok().unwrap();
    assert_eq!(v.allocator().asked, vec![layout(20, 4)]);
    assert_eq!(v.capacity(), 6);
    assert_eq!(v.ptr(), 4096);

    let mut alloc = HollowAlloc::new(4);
    let memory = alloc.allocate(layout(20, 4));
    let v: RawVec<u32, HollowAlloc> = RawVec::from_answer(memory, 5, alloc).ok().unwrap();
    assert_eq!(v.capacity(), 6);
    assert_eq!(v.ptr(), 4096);
}

#[test]
fn refused_request_becomes_an_error() {
    let result =
        RawVec::<u32, HollowAlloc>::from_answer(Err(AllocErr), 5, HollowAlloc::new(0));
    assert_eq!(result.err(), Some(TryReserveError::AllocError { layout: layout(20, 4) }));
    let result =
        RawVec::<u32, BoundedAlloc>::allocate_in(5, AllocInit::Zeroed, BoundedAlloc::new(19));
    assert_eq!(result.err(), Some(TryReserveError::AllocError { layout: layout(20, 4) }));
}
