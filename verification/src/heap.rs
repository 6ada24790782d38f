use crate::allocator;
use crate::allocator::{AllocErr, AllocRef, BlockInfo, Call, MemoryBlock};
use crate::layout::Layout;
use std::collections::TryReserveError;
use vstd::multiset::Multiset;
use vstd::prelude::*;

verus! {

/// A block of memory on the system heap. It lies within `storage`, and begins after the `start`
/// bytes that it takes to reach a suitably aligned address, which is `addr`.
pub struct HeapBlock {
    storage: Vec<u8>,
    start: usize,
    addr: usize,
    len: usize,
    layout: Layout,
}

impl HeapBlock {
    /// The vector whose memory the block lies in.
    pub closed spec fn storage(&self) -> Vec<u8> {
        self.storage
    }

    /// The number of bytes of the vector before the block.
    pub closed spec fn offset(&self) -> usize {
        self.start
    }

    /// The block stands at the first suitable address within its vector, which has just as many
    /// bytes as it takes.
    pub open spec fn at_its_address(&self, layout: Layout) -> bool {
        &&& self.storage()@.len() == layout.size + layout.align - 1
        &&& self.offset() < layout.align
        &&& self.contents() == self.storage()@.subrange(
            self.offset() as int,
            self.offset() + layout.size,
        )
        &&& exists|base: usize|
            #[trigger] lies_at(self.storage(), base) && self.info().addr == base + self.offset()
    }
}

/// The system heap has been asked, by `Vec::try_reserve` on an empty vector, for this many bytes,
/// and has granted or refused them.
pub open spec fn heap_answers(bytes: usize, granted: bool) -> bool {
    exists|empty: &mut Vec<u8>, answer: Result<(), TryReserveError>|
        {
            &&& #[trigger] call_ensures(Vec::<u8>::try_reserve, (empty, bytes), answer)
            &&& (*empty)@.len() == 0
            &&& answer is Ok == granted
        }
}

/// `base` is what `address_of` has returned as the address of the first byte of `storage`.
pub closed spec fn lies_at(storage: Vec<u8>, base: usize) -> bool {
    call_ensures(address_of, (&storage,), base)
}

/// A vector has been handed to `Result::ok` as an error, which that discards: its memory has gone
/// back to the system heap.
pub open spec fn freed(storage: Vec<u8>) -> bool {
    call_ensures(Result::<(), Vec<u8>>::ok, (Err(storage),), None)
}

impl MemoryBlock for HeapBlock {
    closed spec fn info(&self) -> BlockInfo {
        BlockInfo { addr: self.addr, len: self.len, layout: self.layout }
    }

    closed spec fn contents(&self) -> Seq<u8> {
        if self.start + self.len <= self.storage@.len() {
            self.storage@.subrange(self.start as int, self.start + self.len)
        } else {
            Seq::empty()
        }
    }

    fn addr(&self) -> (addr: usize) {
        self.addr
    }

    fn len(&self) -> (len: usize) {
        self.len
    }

    fn read(&self, offset: usize) -> (byte: u8) {
        assert(self.start + offset < self.storage.len());
        self.storage[self.start + offset]
    }

    fn write(&mut self, offset: usize, byte: u8)
        ensures
            final(self).offset() == old(self).offset(),
            final(self).storage()@ == old(self).storage()@.update(
                old(self).offset() + offset,
                byte,
            ),
    {
        assert(self.start + offset < self.storage.len());
        self.storage.set(self.start + offset, byte);
        assert(final(self).contents() =~= old(self).contents().update(offset as int, byte));
    }
}

/// The address of the first byte of a vector, which is where `Vec::as_ptr` points. The address of
/// a vector's buffer is never null, and the buffer does not wrap around the address space. Which
/// address it is depends on the heap, and is left unsaid.
#[verifier::external_body]
pub(crate) fn address_of(bytes: &Vec<u8>) -> (addr: usize)
    ensures
        addr != 0,
        addr + bytes@.len() <= usize::MAX + 1,
{
    bytes.as_ptr() as usize
}

/// How many bytes to skip from `addr` to reach a multiple of `align`.
fn padding_for(addr: usize, align: usize) -> (padding: usize)
    requires
        align > 0,
    ensures
        padding < align,
        (addr + padding) % align as int == 0,
{
    let over: usize = addr % align;
    proof {
        vstd::arithmetic::div_mod::lemma_fundamental_div_mod(addr as int, align as int);
    }
    if over == 0 {
        0
    } else {
        let padding: usize = align - over;
        proof {
            let steps = addr as int / align as int;
            assert(addr + padding == (steps + 1) * align) by (nonlinear_arith)
                requires
                    addr == align * steps + over,
                    padding == align - over,
            ;
            vstd::arithmetic::div_mod::lemma_mod_multiples_basic(steps + 1, align as int);
        }
        padding
    }
}

/// Places a block for `layout` in `storage`, at the first suitably aligned address.
fn carve(storage: Vec<u8>, layout: Layout) -> (block: HeapBlock)
    requires
        layout.valid(),
        layout.size > 0,
        storage@.len() >= layout.size + layout.align - 1,
    ensures
        allocator::serves(block, layout),
        block.info().len == layout.size,
        exists|start: int|
            0 <= start < layout.align && #[trigger] storage@.subrange(start, start + layout.size)
                == block.contents(),
        block.storage() == storage,
        block.offset() < layout.align,
        block.contents() == storage@.subrange(block.offset() as int, block.offset() + layout.size),
        exists|base: usize|
            #[trigger] lies_at(storage, base) && block.info().addr == base + block.offset(),
{
    proof {
        layout.lemma_valid_bounds();
    }
    let base: usize = address_of(&storage);
    let start: usize = padding_for(base, layout.align);
    let addr: usize = base + start;
    assert(lies_at(storage, base));
    let block = HeapBlock { storage, start, addr, len: layout.size, layout };
    assert(storage@.subrange(start as int, start + layout.size) == block.contents());
    block
}

/// The number of bytes within which there is a block for `layout` wherever they lie.
fn bytes_for(layout: Layout) -> (bytes: usize)
    requires
        layout.valid(),
        layout.size > 0,
    ensures
        bytes == layout.size + layout.align - 1,
{
    proof {
        layout.lemma_valid_bounds();
        layout.lemma_room_to_align();
    }
    layout.size + (layout.align - 1)
}

/// What the system heap's answer to a request for the bytes of a block for `layout` comes to: the
/// block, zeroed, if `storage` has got the room, and else a failure.
fn place(
    reserved: Result<(), TryReserveError>,
    storage: Vec<u8>,
    layout: Layout,
) -> (memory: Result<HeapBlock, AllocErr>)
    requires
        layout.valid(),
        layout.size > 0,
        storage@.len() == 0,
    ensures
        match reserved {
            Ok(_) => memory matches Ok(block) && {
                &&& allocator::serves(block, layout)
                &&& block.info().len == layout.size
                &&& block.at_its_address(layout)
                &&& forall|i: int| 0 <= i < block.info().len ==> #[trigger] block.contents()[i] == 0
            },
            Err(_) => memory is Err,
        },
{
    match reserved {
        Ok(_) => {
            let mut storage = storage;
            storage.resize(bytes_for(layout), 0);
            Ok(carve(storage, layout))
        },
        Err(_) => Err(AllocErr),
    }
}

/// Takes zeroed memory for `layout` from the system heap. It asks the heap for as many bytes as it
/// takes to hold the block wherever they lie, and fails only if the heap cannot reserve them.
fn heap_block(layout: Layout) -> (memory: Result<HeapBlock, AllocErr>)
    requires
        layout.valid(),
        layout.size > 0,
    ensures
        heap_answers((layout.size + layout.align - 1) as usize, memory is Ok),
        memory matches Ok(block) ==> {
            &&& allocator::serves(block, layout)
            &&& block.info().len == layout.size
            &&& block.at_its_address(layout)
            &&& forall|i: int| 0 <= i < block.info().len ==> #[trigger] block.contents()[i] == 0
        },
{
    let mut storage: Vec<u8> = Vec::new();
    let reserved = storage.try_reserve(bytes_for(layout));
    place(reserved, storage, layout)
}

/// The address of a block that the system heap grants is what `address_of` has returned for the
/// vector that the block lies in, and the number of bytes of the vector before the block; and the
/// block's contents are the bytes that follow these.
pub(crate) proof fn law_block_starts_at_its_address(
    heap: &mut Global,
    layout: Layout,
    block: HeapBlock,
)
    requires
        call_ensures(<Global as AllocRef>::allocate, (heap, layout), Ok(block)) || call_ensures(
            <Global as AllocRef>::allocate_zeroed,
            (heap, layout),
            Ok(block),
        ),
    ensures
        exists|base: usize|
            {
                &&& #[trigger] call_ensures(address_of, (&block.storage(),), base)
                &&& block.info().addr == base + block.offset()
            },
        block.contents() == block.storage()@.subrange(
            block.offset() as int,
            block.offset() + layout.size,
        ),
{
    let base = choose|base: usize| #[trigger]
        lies_at(block.storage(), base) && block.info().addr == base + block.offset();
    assert(call_ensures(address_of, (&block.storage(),), base));
}

/// A handle on the system heap. It takes no space itself: the blocks that it has handed out and
/// the requests that were made through it are kept account of in proofs only.
pub struct Global {
    live: Ghost<Multiset<BlockInfo>>,
    log: Ghost<Seq<Call>>,
}

impl Global {
    /// The handle through which nothing has been allocated yet.
    pub closed spec fn unused() -> Global {
        Global { live: Ghost(Multiset::empty()), log: Ghost(Seq::empty()) }
    }

    /// Nothing has been asked of an unused handle, and no block is to be given back to it.
    pub proof fn lemma_unused()
        ensures
            Self::unused().live() == Multiset::<BlockInfo>::empty(),
            Self::unused().log() == Seq::<Call>::empty(),
    {
    }

    /// A handle through which nothing has been allocated yet.
    pub fn new() -> (global: Global)
        ensures
            global == Self::unused(),
            global.live() == Multiset::<BlockInfo>::empty(),
            global.log() == Seq::<Call>::empty(),
    {
        Global { live: Ghost(Multiset::empty()), log: Ghost(Seq::empty()) }
    }

    /// A handle that is to take back a block of the system heap.
    pub(crate) fn owning(block: &Option<HeapBlock>) -> (global: Global)
        ensures
            global.live() == match *block {
                Some(block) => Multiset::<BlockInfo>::empty().insert(block.info()),
                None => Multiset::<BlockInfo>::empty(),
            },
            global.log() == Seq::<Call>::empty(),
    {
        Global {
            live: Ghost(
                match block {
                    Some(block) => Multiset::empty().insert(block.info()),
                    None => Multiset::empty(),
                },
            ),
            log: Ghost(Seq::empty()),
        }
    }

    /// Takes the system heap's answer to a request for a block into account.
    fn obtain(&mut self, fresh: Result<HeapBlock, AllocErr>) -> (memory: Result<
        HeapBlock,
        AllocErr,
    >)
        ensures
            memory == fresh,
            final(self).log() == old(self).log(),
            final(self).live() == match fresh {
                Ok(block) => old(self).live().insert(block.info()),
                Err(_) => old(self).live(),
            },
    {
        match fresh {
            Ok(block) => {
                self.live = Ghost(self.live@.insert(block.info()));
                Ok(block)
            },
            Err(error) => Err(error),
        }
    }

    /// Gives the memory of a block back to the system heap.
    fn release(&mut self, block: HeapBlock)
        ensures
            final(self).live() == old(self).live().remove(block.info()),
            final(self).log() == old(self).log(),
            freed(block.storage()),
    {
        let ghost info = block.info();
        let unused: Result<(), Vec<u8>> = Err(block.storage);
        let _: Option<()> = unused.ok();
        self.live = Ghost(self.live@.remove(info));
    }

    /// Moves the first `kept` bytes of a block to the fresh one that the system heap has answered
    /// a request with, which then takes the block's place. If the answer is a failure, nothing is
    /// moved.
    fn relocate(
        &mut self,
        block: &mut HeapBlock,
        kept: usize,
        fresh: Result<HeapBlock, AllocErr>,
    ) -> (memory: Result<(), AllocErr>)
        requires
            kept <= old(block).contents().len(),
            fresh matches Ok(fresh) ==> kept <= fresh.contents().len(),
        ensures
            match fresh {
                Ok(fresh) => {
                    &&& memory is Ok
                    &&& final(block).info() == fresh.info()
                    &&& final(block).contents() == old(block).contents().take(kept as int)
                        + fresh.contents().skip(kept as int)
                    &&& final(block).offset() == fresh.offset()
                    &&& final(block).storage()@.len() == fresh.storage()@.len()
                    &&& freed(old(block).storage())
                    &&& final(self).live() == old(self).live().remove(old(block).info()).insert(
                        fresh.info(),
                    )
                    &&& final(self).log() == old(self).log()
                },
                Err(error) => {
                    &&& memory == Err::<(), AllocErr>(error)
                    &&& *final(block) == *old(block)
                    &&& *final(self) == *old(self)
                },
            },
    {
        let mut moved = match fresh {
            Ok(moved) => moved,
            Err(error) => {
                return Err(error);
            },
        };
        let ghost info = moved.info();
        let ghost bytes = moved.contents();
        let ghost room = moved.storage()@.len();
        let ghost offset = moved.offset();
        let mut i: usize = 0;
        while i < kept
            invariant
                i <= kept,
                kept <= block.contents().len(),
                kept <= bytes.len(),
                *block == *old(block),
                moved.info() == info,
                moved.offset() == offset,
                moved.storage()@.len() == room,
                moved.contents() == block.contents().take(i as int) + bytes.skip(i as int),
            decreases kept - i,
        {
            moved.write(i, block.read(i));
            i = i + 1;
            assert(moved.contents() =~= block.contents().take(i as int) + bytes.skip(i as int));
        }
        core::mem::swap(block, &mut moved);
        self.release(moved);
        self.live = Ghost(self.live@.insert(block.info()));
        Ok(())
    }
}

impl AllocRef for Global {
    type Block = HeapBlock;

    closed spec fn live(&self) -> Multiset<BlockInfo> {
        self.live@
    }

    closed spec fn log(&self) -> Seq<Call> {
        self.log@
    }

    open spec fn exact() -> bool {
        true
    }

    fn allocate(&mut self, layout: Layout) -> (memory: Result<HeapBlock, AllocErr>) {
        let memory = self.obtain(heap_block(layout));
        self.log = Ghost(
            self.log@.push(Call::Allocate { layout, zeroed: false, served: memory is Ok }),
        );
        memory
    }

    fn allocate_zeroed(&mut self, layout: Layout) -> (memory: Result<HeapBlock, AllocErr>) {
        let memory = self.obtain(heap_block(layout));
        self.log = Ghost(
            self.log@.push(Call::Allocate { layout, zeroed: true, served: memory is Ok }),
        );
        memory
    }

    open spec fn may_refuse(layout: Layout) -> bool {
        heap_answers((layout.size + layout.align - 1) as usize, false)
    }

    open spec fn granted(block: HeapBlock, layout: Layout) -> bool {
        &&& heap_answers((layout.size + layout.align - 1) as usize, true)
        &&& block.at_its_address(layout)
    }

    open spec fn given_up(block: HeapBlock) -> bool {
        freed(block.storage())
    }

    fn deallocate(&mut self, block: HeapBlock, layout: Layout) {
        let ghost info = block.info();
        self.release(block);
        self.log = Ghost(self.log@.push(Call::Deallocate { block: info, layout }));
    }

    fn grow(&mut self, block: &mut HeapBlock, old_layout: Layout, new_layout: Layout) -> (memory:
        Result<(), AllocErr>)
        ensures
            memory is Ok ==> exists|fresh: HeapBlock|
                {
                    &&& #[trigger] Self::granted(fresh, new_layout)
                    &&& fresh.info() == final(block).info()
                    &&& fresh.offset() == final(block).offset()
                    &&& fresh.storage()@.len() == final(block).storage()@.len()
                },
    {
        let ghost info = block.info();
        let fresh = heap_block(new_layout);
        let ghost granted = fresh;
        let memory = self.relocate(block, old_layout.size, fresh);
        proof {
            if memory is Ok {
                assert(Self::granted(granted->Ok_0, new_layout));
                assert(block.contents().take(old_layout.size as int) =~= old(block).contents().take(
                    old_layout.size as int,
                ));
            }
        }
        self.log = Ghost(
            self.log@.push(
                Call::Grow { block: info, old_layout, new_layout, served: memory is Ok },
            ),
        );
        memory
    }

    fn shrink(&mut self, block: &mut HeapBlock, old_layout: Layout, new_layout: Layout) -> (memory:
        Result<(), AllocErr>)
        ensures
            memory is Ok ==> exists|fresh: HeapBlock|
                {
                    &&& #[trigger] Self::granted(fresh, new_layout)
                    &&& fresh.info() == final(block).info()
                    &&& fresh.offset() == final(block).offset()
                    &&& fresh.storage()@.len() == final(block).storage()@.len()
                },
    {
        let ghost info = block.info();
        let fresh = heap_block(new_layout);
        let ghost granted = fresh;
        let memory = self.relocate(block, new_layout.size, fresh);
        proof {
            if memory is Ok {
                assert(Self::granted(granted->Ok_0, new_layout));
                assert(block.contents().take(new_layout.size as int) =~= old(block).contents().take(
                    new_layout.size as int,
                ));
            }
        }
        self.log = Ghost(
            self.log@.push(
                Call::Shrink { block: info, old_layout, new_layout, served: memory is Ok },
            ),
        );
        memory
    }
}

} // verus!
