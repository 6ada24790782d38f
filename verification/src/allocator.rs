use crate::layout::Layout;
use vstd::multiset::Multiset;
use vstd::prelude::*;

verus! {

/// The allocator could not serve a request.
#[derive(Clone, Copy, PartialEq, Eq, Debug, Structural)]
pub struct AllocErr;

/// What identifies a block of memory: where it starts, how many bytes it has, and the layout of
/// the request that it was last allocated, grown or shrunk for.
#[derive(Clone, Copy, PartialEq, Eq, Debug, Structural)]
pub struct BlockInfo {
    pub addr: usize,
    pub len: usize,
    pub layout: Layout,
}

impl BlockInfo {
    /// The block has at least the bytes that were asked for, at most `isize::MAX`, and starts at
    /// a suitably aligned address that is not null; its last byte has an address too.
    pub open spec fn valid(self) -> bool {
        &&& self.layout.valid()
        &&& 0 < self.layout.size <= self.len <= isize::MAX
        &&& self.addr != 0
        &&& self.addr as int % self.layout.align as int == 0
        &&& self.addr + self.len <= usize::MAX + 1
    }

    /// Whether the block may be given back, grown or shrunk under `layout`: the alignment is that
    /// of the request, and the size lies between the size of the request and the block's length.
    pub open spec fn fits(self, layout: Layout) -> bool {
        &&& layout.align == self.layout.align
        &&& self.layout.size <= layout.size <= self.len
    }
}

/// A request to an allocator, and whether it was served.
pub enum Call {
    /// A block for `layout`, zeroed or not.
    Allocate { layout: Layout, zeroed: bool, served: bool },
    /// A block is given back under `layout`.
    Deallocate { block: BlockInfo, layout: Layout },
    /// A block that is used under `old_layout` is to be replaced by a larger one.
    Grow { block: BlockInfo, old_layout: Layout, new_layout: Layout, served: bool },
    /// A block that is used under `old_layout` is to be replaced by a smaller one.
    Shrink { block: BlockInfo, old_layout: Layout, new_layout: Layout, served: bool },
}

impl Call {
    /// Whether the request was served.
    pub open spec fn served(self) -> bool {
        match self {
            Call::Allocate { served, .. } => served,
            Call::Deallocate { .. } => true,
            Call::Grow { served, .. } => served,
            Call::Shrink { served, .. } => served,
        }
    }

    /// The request as it looks if it is served.
    pub open spec fn request(self) -> Call {
        match self {
            Call::Allocate { layout, zeroed, .. } => Call::Allocate {
                layout,
                zeroed,
                served: true,
            },
            Call::Deallocate { .. } => self,
            Call::Grow { block, old_layout, new_layout, .. } => Call::Grow {
                block,
                old_layout,
                new_layout,
                served: true,
            },
            Call::Shrink { block, old_layout, new_layout, .. } => Call::Shrink {
                block,
                old_layout,
                new_layout,
                served: true,
            },
        }
    }
}

/// A block of memory that an allocator has handed out. Whoever holds the value owns the memory.
///
/// An implementation says what `info` and `contents` are; by default nothing is said of them.
pub trait MemoryBlock {
    /// Where and how large the block is.
    open spec fn info(&self) -> BlockInfo {
        arbitrary()
    }

    /// The bytes that the block holds.
    open spec fn contents(&self) -> Seq<u8> {
        arbitrary()
    }

    /// The address of the first byte.
    fn addr(&self) -> (addr: usize)
        ensures
            addr == self.info().addr,
    ;

    /// The number of bytes, which may exceed what was asked for.
    fn len(&self) -> (len: usize)
        ensures
            len == self.info().len,
    ;

    /// Reads the byte at an offset from the start.
    fn read(&self, offset: usize) -> (byte: u8)
        requires
            offset < self.contents().len(),
        ensures
            byte == self.contents()[offset as int],
    ;

    /// Writes the byte at an offset from the start.
    fn write(&mut self, offset: usize, byte: u8)
        requires
            offset < old(self).contents().len(),
        ensures
            final(self).info() == old(self).info(),
            final(self).contents() == old(self).contents().update(offset as int, byte),
    ;
}

/// A block as an allocator hands it out in answer to `layout`.
pub open spec fn serves<B: MemoryBlock>(block: B, layout: Layout) -> bool {
    &&& block.info().valid()
    &&& block.info().layout == layout
    &&& block.contents().len() == block.info().len
}

/// An allocator of memory. It never sees a request for zero bytes.
///
/// An implementation says what `live` and `log` are; by default nothing is said of them.
pub trait AllocRef {
    /// The blocks of memory that this allocator hands out.
    type Block: MemoryBlock;

    /// The blocks handed out through this value and not yet given back.
    open spec fn live(&self) -> Multiset<BlockInfo> {
        arbitrary()
    }

    /// The requests made through this value, in order.
    open spec fn log(&self) -> Seq<Call> {
        arbitrary()
    }

    /// Whether every block has exactly the size that was asked for.
    open spec fn exact() -> bool {
        false
    }

    /// What it takes for a request for `layout` to be refused. By default nothing is said of it.
    open spec fn may_refuse(layout: Layout) -> bool {
        true
    }

    /// What is behind a block that has just been granted for `layout`. By default nothing is said
    /// of it.
    open spec fn granted(block: Self::Block, layout: Layout) -> bool {
        true
    }

    /// What has become of the memory behind a block that was given back or replaced. By default
    /// nothing is said of it.
    open spec fn given_up(block: Self::Block) -> bool {
        true
    }

    /// Allocates a block of memory, whose contents may be anything.
    fn allocate(&mut self, layout: Layout) -> (memory: Result<Self::Block, AllocErr>)
        requires
            layout.valid(),
            layout.size > 0,
        ensures
            final(self).log() == old(self).log().push(
                Call::Allocate { layout, zeroed: false, served: memory is Ok },
            ),
            match memory {
                Ok(block) => {
                    &&& serves(block, layout)
                    &&& Self::exact() ==> block.info().len == layout.size
                    &&& Self::granted(block, layout)
                    &&& final(self).live() == old(self).live().insert(block.info())
                },
                Err(_) => {
                    &&& Self::may_refuse(layout)
                    &&& final(self).live() == old(self).live()
                },
            },
    ;

    /// Like `allocate`, but every byte of the block is zero.
    fn allocate_zeroed(&mut self, layout: Layout) -> (memory: Result<Self::Block, AllocErr>)
        requires
            layout.valid(),
            layout.size > 0,
        ensures
            final(self).log() == old(self).log().push(
                Call::Allocate { layout, zeroed: true, served: memory is Ok },
            ),
            match memory {
                Ok(block) => {
                    &&& serves(block, layout)
                    &&& Self::exact() ==> block.info().len == layout.size
                    &&& Self::granted(block, layout)
                    &&& final(self).live() == old(self).live().insert(block.info())
                    &&& forall|i: int|
                        0 <= i < block.info().len ==> #[trigger] block.contents()[i] == 0
                },
                Err(_) => {
                    &&& Self::may_refuse(layout)
                    &&& final(self).live() == old(self).live()
                },
            },
    ;

    /// Takes a block back.
    fn deallocate(&mut self, block: Self::Block, layout: Layout)
        requires
            old(self).live().contains(block.info()),
            block.info().fits(layout),
        ensures
            final(self).log() == old(self).log().push(
                Call::Deallocate { block: block.info(), layout },
            ),
            final(self).live() == old(self).live().remove(block.info()),
            Self::given_up(block),
    ;

    /// Replaces a block by one that is at least as large and starts with the same
    /// `old_layout.size` bytes. On an error the block stays as it is.
    fn grow(&mut self, block: &mut Self::Block, old_layout: Layout, new_layout: Layout) -> (memory:
        Result<(), AllocErr>)
        requires
            old(self).live().contains(old(block).info()),
            old(block).info().valid(),
            old(block).info().fits(old_layout),
            old(block).contents().len() == old(block).info().len,
            new_layout.valid(),
            new_layout.size >= old_layout.size,
        ensures
            final(self).log() == old(self).log().push(
                Call::Grow {
                    block: old(block).info(),
                    old_layout,
                    new_layout,
                    served: memory is Ok,
                },
            ),
            match memory {
                Ok(_) => {
                    &&& serves(*final(block), new_layout)
                    &&& Self::exact() ==> final(block).info().len == new_layout.size
                    &&& exists|fresh: Self::Block| #[trigger]
                        Self::granted(fresh, new_layout) && fresh.info() == final(block).info()
                    &&& Self::given_up(*old(block))
                    &&& final(self).live() == old(self).live().remove(old(block).info()).insert(
                        final(block).info(),
                    )
                    &&& final(block).contents().take(old_layout.size as int) == old(
                        block,
                    ).contents().take(old_layout.size as int)
                },
                Err(_) => {
                    &&& Self::may_refuse(new_layout)
                    &&& final(block).info() == old(block).info()
                    &&& final(block).contents() == old(block).contents()
                    &&& final(self).live() == old(self).live()
                },
            },
    ;

    /// Replaces a block by one that need only have `new_layout.size` bytes and starts with the
    /// same ones. On an error the block stays as it is.
    fn shrink(&mut self, block: &mut Self::Block, old_layout: Layout, new_layout: Layout) -> (memory:
        Result<(), AllocErr>)
        requires
            old(self).live().contains(old(block).info()),
            old(block).info().valid(),
            old(block).info().fits(old_layout),
            old(block).contents().len() == old(block).info().len,
            new_layout.valid(),
            0 < new_layout.size <= old_layout.size,
        ensures
            final(self).log() == old(self).log().push(
                Call::Shrink {
                    block: old(block).info(),
                    old_layout,
                    new_layout,
                    served: memory is Ok,
                },
            ),
            match memory {
                Ok(_) => {
                    &&& serves(*final(block), new_layout)
                    &&& Self::exact() ==> final(block).info().len == new_layout.size
                    &&& exists|fresh: Self::Block| #[trigger]
                        Self::granted(fresh, new_layout) && fresh.info() == final(block).info()
                    &&& Self::given_up(*old(block))
                    &&& final(self).live() == old(self).live().remove(old(block).info()).insert(
                        final(block).info(),
                    )
                    &&& final(block).contents().take(new_layout.size as int) == old(
                        block,
                    ).contents().take(new_layout.size as int)
                },
                Err(_) => {
                    &&& Self::may_refuse(new_layout)
                    &&& final(block).info() == old(block).info()
                    &&& final(block).contents() == old(block).contents()
                    &&& final(self).live() == old(self).live()
                },
            },
    ;
}

} // verus!
