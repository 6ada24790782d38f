use crate::allocator;
use crate::allocator::{AllocErr, AllocRef, BlockInfo, Call, MemoryBlock};
use crate::boxed::BoxedSlice;
use crate::error::{alloc_guard, answer, handle_reserve, OutOfMemory, TryReserveError};
use crate::growth;
use crate::growth::Plan;
use crate::heap::{Global, HeapBlock};
use crate::layout;
use crate::layout::{Layout, LayoutErr};
use core::marker::PhantomData;
use vstd::multiset::Multiset;
use vstd::prelude::*;

verus! {

/// What a new buffer is to hold.
#[derive(Clone, Copy, PartialEq, Eq, Debug, Structural)]
pub enum AllocInit {
    /// The contents of the new memory are uninitialized.
    Uninitialized,
    /// The new memory is guaranteed to be zeroed.
    Zeroed,
}

/// A low-level utility for allocating, reallocating and deallocating a buffer of memory on the
/// heap without having to worry about all the corner cases involved. It is meant for building
/// data structures such as vectors and deques. In particular:
///
/// * It holds no block, and points to a dangling address, for elements of size zero.
/// * It holds no block, and points to a dangling address, while its capacity is zero.
/// * It never gives back a block that it does not hold.
/// * It catches all overflows in capacity computations.
/// * It never asks for more than `isize::MAX` bytes.
/// * It uses the excess that the allocator returns.
///
/// It does not look at the memory that it manages, and does not drop what is stored there. Its
/// memory goes back to the allocator by `drop`: an owner calls it before the buffer goes out of
/// scope.
///
/// The capacity of a buffer for elements of size zero is always `usize::MAX`.
pub struct RawVec<T, A: AllocRef = Global> {
    block: Option<A::Block>,
    cap: usize,
    alloc: A,
    marker: PhantomData<T>,
}

impl<T, A: AllocRef> RawVec<T, A> {
    /// The size of an element in bytes.
    pub open spec fn elem_size() -> nat {
        vstd::layout::size_of::<T>()
    }

    /// The alignment of an element.
    pub open spec fn elem_align() -> nat {
        vstd::layout::align_of::<T>()
    }

    /// The block of memory that the buffer holds.
    pub closed spec fn block(&self) -> Option<A::Block> {
        self.block
    }

    /// The number of elements that the block is used for. It has no meaning for elements of size
    /// zero.
    pub closed spec fn cap(&self) -> usize {
        self.cap
    }

    /// The allocator that backs the buffer.
    pub closed spec fn spec_allocator(&self) -> A {
        self.alloc
    }

    /// The number of elements that the buffer has room for.
    pub open spec fn spec_capacity(&self) -> usize {
        if Self::elem_size() == 0 {
            usize::MAX
        } else {
            self.cap()
        }
    }

    /// The address of the first element.
    pub open spec fn spec_ptr(&self) -> usize {
        match self.block() {
            Some(block) => block.info().addr,
            None => Self::elem_align() as usize,
        }
    }

    /// The bytes of all elements that the buffer has room for.
    pub open spec fn bytes(&self) -> Seq<u8> {
        match self.block() {
            Some(block) => block.contents().take(layout::array_bytes::<T>(self.cap() as int)),
            None => Seq::empty(),
        }
    }

    /// The block that the buffer holds, as its address and the layout that it is used under, if
    /// it holds one.
    pub open spec fn spec_current_memory(&self) -> Option<(usize, Layout)> {
        match self.block() {
            Some(block) => Some(
                (block.info().addr, layout::array_layout::<T>(self.cap() as int)),
            ),
            None => None,
        }
    }

    /// The capacity counts all elements that there is room for in the block.
    pub open spec fn uses_whole_block(&self) -> bool {
        self.block() matches Some(block) ==> self.cap() == block.info().len as int
            / Self::elem_size() as int
    }

    /// Whether a buffer can be put together from these parts: there is a block if and only if
    /// there is a capacity and the elements have a size; it fits the layout of an array with that
    /// capacity, and `alloc` has handed it out.
    pub open spec fn valid_parts(block: Option<A::Block>, capacity: usize, alloc: A) -> bool {
        match block {
            Some(block) => {
                &&& Self::elem_size() > 0
                &&& block.info().valid()
                &&& block.contents().len() == block.info().len
                &&& layout::array_fits::<T>(capacity as int)
                &&& block.info().fits(layout::array_layout::<T>(capacity as int))
                &&& alloc.live().contains(block.info())
            },
            None => Self::elem_size() == 0 || capacity == 0,
        }
    }

    /// The invariant of a buffer.
    pub open spec fn wf(&self) -> bool {
        Self::valid_parts(self.block(), self.cap(), self.spec_allocator())
    }

    /// The blocks that the allocator has handed out apart from the one that the buffer holds.
    pub open spec fn other_blocks(&self) -> Multiset<BlockInfo> {
        match self.block() {
            Some(block) => self.spec_allocator().live().remove(block.info()),
            None => self.spec_allocator().live(),
        }
    }

    /// The buffer holds the same memory as `before`, and has the same capacity.
    pub open spec fn same_memory(&self, before: &Self) -> bool {
        &&& self.cap() == before.cap()
        &&& self.spec_allocator().live() == before.spec_allocator().live()
        &&& match (self.block(), before.block()) {
            (Some(block), Some(old_block)) => {
                &&& block.info() == old_block.info()
                &&& block.contents() == old_block.contents()
            },
            (None, None) => true,
            _ => false,
        }
    }

    /// The buffer holds a block that was asked for as an array of `capacity` elements, and uses
    /// all of it.
    pub open spec fn holds_array(&self, capacity: int) -> bool {
        &&& self.wf()
        &&& layout::array_fits::<T>(capacity)
        &&& self.block() matches Some(block) && {
            &&& block.info().layout == layout::array_layout::<T>(capacity)
            &&& self.uses_whole_block()
            &&& self.cap() >= capacity
            &&& A::exact() ==> self.cap() == capacity
        }
    }

    /// The request to the allocator by which this buffer grows to `capacity` elements.
    pub open spec fn grow_call(&self, capacity: int, served: bool) -> Call {
        match self.block() {
            Some(block) => Call::Grow {
                block: block.info(),
                old_layout: layout::array_layout::<T>(self.cap() as int),
                new_layout: layout::array_layout::<T>(capacity),
                served,
            },
            None => Call::Allocate {
                layout: layout::array_layout::<T>(capacity),
                zeroed: false,
                served,
            },
        }
    }

    /// The request to the allocator by which this buffer shrinks to `amount` elements.
    pub open spec fn shrink_call(&self, amount: int, served: bool) -> Call {
        Call::Shrink {
            block: self.block()->0.info(),
            old_layout: layout::array_layout::<T>(self.cap() as int),
            new_layout: layout::array_layout::<T>(amount),
            served,
        }
    }

    /// The request to the allocator by which this buffer gives its block back.
    pub open spec fn drop_call(&self) -> Call {
        Call::Deallocate {
            block: self.block()->0.info(),
            layout: layout::array_layout::<T>(self.cap() as int),
        }
    }

    /// The allocator of this buffer has got one request more than that of `before`.
    pub open spec fn has_called(&self, before: &Self, call: Call) -> bool {
        self.spec_allocator().log() == before.spec_allocator().log().push(call)
    }

    /// What the buffer `before` becomes when it is asked to hold `capacity` elements and the
    /// allocator decides.
    pub open spec fn resized(
        &self,
        before: &Self,
        capacity: int,
        kept: int,
        result: Result<(), TryReserveError>,
    ) -> bool {
        match result {
            Ok(_) => {
                &&& self.holds_array(capacity)
                &&& freshly_granted::<A>(
                    self.block()->0,
                    layout::array_layout::<T>(capacity),
                )
                &&& before.block() matches Some(block) ==> A::given_up(block)
                &&& self.bytes().take(kept) == before.bytes().take(kept)
                &&& self.spec_allocator().live() == before.other_blocks().insert(
                    self.block()->0.info(),
                )
            },
            Err(error) => {
                &&& self.same_memory(before)
                &&& A::may_refuse(layout::array_layout::<T>(capacity))
                &&& error == (TryReserveError::AllocError {
                    layout: layout::array_layout::<T>(capacity),
                })
            },
        }
    }

    /// What the buffer `before` becomes when it frees its memory: the block, if there is one, is
    /// given back under the layout that it was used under.
    pub open spec fn dropped(&self, before: &Self) -> bool {
        &&& self.wf()
        &&& self.block() is None
        &&& self.cap() == 0
        &&& match before.block() {
            Some(block) => {
                &&& self.has_called(before, before.drop_call())
                &&& A::given_up(block)
                &&& self.spec_allocator().live() == before.other_blocks()
            },
            None => self.spec_allocator() == before.spec_allocator(),
        }
    }

    /// What the buffer `before` becomes when it is reduced to `amount` elements: nothing happens if
    /// it holds no block; it gives its block back if `amount` is zero; and else the allocator
    /// decides.
    pub open spec fn shrunk(
        &self,
        before: &Self,
        amount: usize,
        result: Result<(), TryReserveError>,
    ) -> bool {
        match before.block() {
            None => result is Ok && *self == *before,
            Some(_) => if amount == 0 {
                result is Ok && self.dropped(before)
            } else {
                &&& self.has_called(before, before.shrink_call(amount as int, result is Ok))
                &&& self.resized(
                    before,
                    amount as int,
                    layout::array_bytes::<T>(amount as int),
                    result,
                )
            },
        }
    }

    /// What becomes of a request for room for `additional` elements beyond `len`, with slack.
    pub open spec fn amortized_plan(&self, len: usize, additional: usize) -> Plan {
        growth::amortized_plan(
            Self::elem_size() as int,
            self.spec_capacity() as int,
            len as int,
            additional as int,
        )
    }

    /// What becomes of a request for room for `additional` elements beyond `len`, without slack.
    pub open spec fn exact_plan(&self, len: usize, additional: usize) -> Plan {
        growth::exact_plan(
            Self::elem_size() as int,
            self.spec_capacity() as int,
            len as int,
            additional as int,
        )
    }

    /// What the buffer `before` becomes when `plan` is carried out.
    pub open spec fn follows(
        &self,
        before: &Self,
        plan: Plan,
        result: Result<(), TryReserveError>,
    ) -> bool {
        match plan {
            Plan::Stay => result is Ok && *self == *before,
            Plan::Overflow => {
                &&& result == Err::<(), TryReserveError>(TryReserveError::CapacityOverflow)
                &&& *self == *before
            },
            Plan::Grow { capacity } => {
                &&& self.has_called(before, before.grow_call(capacity, result is Ok))
                &&& self.resized(before, capacity, before.bytes().len() as int, result)
            },
        }
    }
}

impl<T, A: AllocRef> RawVec<T, A> {
    /// A buffer that is backed by `alloc` and has asked nothing of it: the largest buffer that
    /// takes no memory. Its capacity is zero, or `usize::MAX` for elements of size zero.
    pub fn new_in(alloc: A) -> (vec: Self)
        ensures
            vec.wf(),
            vec.block() is None,
            vec.cap() == 0,
            vec.spec_allocator() == alloc,
    {
        RawVec { block: None, cap: 0, alloc, marker: PhantomData }
    }

    /// The number of elements that the buffer has room for: always `usize::MAX` for elements of
    /// size zero.
    pub fn capacity(&self) -> (capacity: usize)
        ensures
            capacity == self.spec_capacity(),
    {
        if core::mem::size_of::<T>() == 0 {
            usize::MAX
        } else {
            self.cap
        }
    }

    /// The address of the first element. It is dangling, that is, just the alignment of an
    /// element, if the capacity is zero or the elements have size zero.
    pub fn ptr(&self) -> (addr: usize)
        requires
            self.wf(),
        ensures
            addr == self.spec_ptr(),
            addr != 0,
            addr as int % Self::elem_align() as int == 0,
            self.block() is None ==> addr == Self::elem_align(),
    {
        vstd::layout::layout_for_type_is_valid::<T>();
        proof {
            vstd::arithmetic::div_mod::lemma_mod_self_0(Self::elem_align() as int);
        }
        match &self.block {
            Some(block) => block.addr(),
            None => core::mem::align_of::<T>(),
        }
    }

    /// The block that the buffer holds, as its address and the layout that it is used under, if
    /// it holds one.
    fn current_memory(&self) -> (memory: Option<(usize, Layout)>)
        requires
            self.wf(),
        ensures
            memory == self.spec_current_memory(),
            memory matches Some((_, layout)) ==> {
                &&& self.block() is Some
                &&& layout.valid()
                &&& layout.size == layout::array_bytes::<T>(self.cap() as int)
                &&& layout.align == Self::elem_align()
                &&& self.block()->0.info().fits(layout)
                &&& self.uses_whole_block() ==> self.block()->0.info().len - layout.size
                    < Self::elem_size()
            },
    {
        vstd::layout::layout_for_type_is_valid::<T>();
        match &self.block {
            Some(block) => {
                proof {
                    layout::lemma_array_layout_valid::<T>(self.cap as int);
                    vstd::arithmetic::div_mod::lemma_fundamental_div_mod(
                        block.info().len as int,
                        Self::elem_size() as int,
                    );
                    vstd::arithmetic::mul::lemma_mul_is_commutative(
                        self.cap as int,
                        Self::elem_size() as int,
                    );
                }
                let align: usize = core::mem::align_of::<T>();
                let size: usize = core::mem::size_of::<T>() * self.cap;
                let layout = Layout::from_size_align_unchecked(size, align);
                Some((block.addr(), layout))
            },
            None => None,
        }
    }

    /// Whether the buffer has to grow to take `additional` elements beyond `len`.
    fn needs_to_grow(&self, len: usize, additional: usize) -> (grow: bool)
        ensures
            grow == growth::needs_to_grow(
                self.spec_capacity() as int,
                len as int,
                additional as int,
            ),
    {
        additional > self.capacity().wrapping_sub(len)
    }

    /// The number of whole elements that fit into `excess` bytes.
    fn capacity_from_bytes(excess: usize) -> (capacity: usize)
        requires
            Self::elem_size() > 0,
        ensures
            capacity == excess as int / Self::elem_size() as int,
    {
        excess / core::mem::size_of::<T>()
    }
}

/// A block that stands where one was granted for `layout`, and may have been written to since.
pub open spec fn freshly_granted<A: AllocRef>(block: A::Block, layout: Layout) -> bool {
    exists|fresh: A::Block| #[trigger] A::granted(fresh, layout) && fresh.info() == block.info()
}

/// A block of `len` bytes that serves `count` elements holds a number of whole elements that is at
/// least `count`, and is used under a layout that fits it.
proof fn lemma_whole_elements(len: int, elem_size: int, count: int)
    requires
        elem_size > 0,
        0 <= len,
        count * elem_size <= len,
    ensures
        count <= len / elem_size <= len,
        count * elem_size <= (len / elem_size) * elem_size <= len,
        len == count * elem_size ==> len / elem_size == count,
{
    let whole = len / elem_size;
    vstd::arithmetic::div_mod::lemma_fundamental_div_mod(len, elem_size);
    assert(count <= whole <= len && count * elem_size <= whole * elem_size <= len && (len == count
        * elem_size ==> whole == count)) by (nonlinear_arith)
        requires
            len == elem_size * whole + len % elem_size,
            0 <= len % elem_size < elem_size,
            count * elem_size <= len,
            elem_size > 0,
            0 <= len,
    ;
}

impl<T, A: AllocRef> RawVec<T, A> {
    /// Takes the block that the allocator has returned for `capacity` elements into use, with all
    /// the capacity that it offers.
    fn set_ptr(&mut self, Ghost(capacity): Ghost<int>)
        requires
            Self::elem_size() > 0,
            0 < capacity,
            layout::array_fits::<T>(capacity),
            old(self).block() matches Some(block) && {
                &&& allocator::serves(block, layout::array_layout::<T>(capacity))
                &&& A::exact() ==> block.info().len == layout::array_bytes::<T>(capacity)
                &&& old(self).spec_allocator().live().contains(block.info())
            },
        ensures
            final(self).holds_array(capacity),
            final(self).block() == old(self).block(),
            final(self).spec_allocator() == old(self).spec_allocator(),
    {
        vstd::layout::layout_for_type_is_valid::<T>();
        let len: usize = match &self.block {
            Some(block) => block.len(),
            None => 0,
        };
        proof {
            layout::lemma_array_layout_valid::<T>(capacity);
            lemma_whole_elements(len as int, Self::elem_size() as int, capacity);
        }
        self.cap = Self::capacity_from_bytes(len);
        proof {
            layout::lemma_array_layout_valid::<T>(self.cap as int);
        }
    }

    /// Replaces the block by one for `capacity` elements, whose layout is `new_layout`.
    fn grow_to(&mut self, Ghost(capacity): Ghost<int>, new_layout: Result<Layout, LayoutErr>)
        -> (result: Result<(), TryReserveError>)
        requires
            old(self).wf(),
            Self::elem_size() > 0,
            0 < capacity,
            old(self).cap() <= capacity,
            match new_layout {
                Ok(new_layout) => {
                    &&& layout::array_fits::<T>(capacity)
                    &&& new_layout == layout::array_layout::<T>(capacity)
                },
                Err(_) => !layout::array_fits::<T>(capacity),
            },
        ensures
            match new_layout {
                Ok(_) => {
                    &&& final(self).has_called(
                        old(self),
                        old(self).grow_call(capacity, result is Ok),
                    )
                    &&& final(self).resized(
                        old(self),
                        capacity,
                        old(self).bytes().len() as int,
                        result,
                    )
                },
                Err(_) => {
                    &&& result == Err::<(), TryReserveError>(TryReserveError::CapacityOverflow)
                    &&& *final(self) == *old(self)
                },
            },
    {
        vstd::layout::layout_for_type_is_valid::<T>();
        proof {
            growth::lemma_more_bytes(Self::elem_size() as int, self.cap as int, capacity);
            growth::lemma_more_bytes(Self::elem_size() as int, 0, capacity);
            if new_layout is Ok {
                layout::lemma_array_layout_valid::<T>(capacity);
            }
        }
        let current_memory = self.current_memory();
        let result = finish_grow(new_layout, &mut self.block, current_memory, &mut self.alloc);
        match result {
            Ok(_) => {
                self.set_ptr(Ghost(capacity));
                proof {
                    growth::lemma_more_bytes(
                        Self::elem_size() as int,
                        old(self).cap() as int,
                        self.cap as int,
                    );
                    assert(self.bytes().take(old(self).bytes().len() as int) =~= old(
                        self,
                    ).bytes().take(old(self).bytes().len() as int));
                }
                Ok(())
            },
            Err(error) => Err(error),
        }
    }

    /// Makes room for `additional` elements beyond `len`, with slack. The allocator is asked even if
    /// the buffer has the room already.
    fn grow_amortized(&mut self, len: usize, additional: usize) -> (result: Result<
        (),
        TryReserveError,
    >)
        requires
            old(self).wf(),
            additional > 0,
        ensures
            final(self).follows(
                old(self),
                growth::amortized_growth(
                    Self::elem_size() as int,
                    old(self).spec_capacity() as int,
                    len + additional,
                ),
                result,
            ),
    {
        vstd::layout::layout_for_type_is_valid::<T>();
        let elem_size: usize = core::mem::size_of::<T>();
        if elem_size == 0 {
            // The capacity is `usize::MAX`, so the buffer is overfull.
            return Err(TryReserveError::CapacityOverflow);
        }
        let required_cap: usize = match len.checked_add(additional) {
            Some(required_cap) => required_cap,
            None => {
                proof {
                    growth::lemma_more_bytes(elem_size as int, 0, len + additional);
                }
                return Err(TryReserveError::CapacityOverflow);
            },
        };
        proof {
            growth::lemma_more_bytes(elem_size as int, 0, self.cap as int);
        }
        // This guarantees exponential growth. The doubling cannot overflow, because the block has
        // at most `isize::MAX` bytes.
        let doubled: usize = self.cap * 2;
        let cap: usize = if doubled >= required_cap {
            doubled
        } else {
            required_cap
        };
        // Tiny buffers are not worth it.
        let min_non_zero_cap: usize = if elem_size == 1 {
            8
        } else if elem_size <= 1024 {
            4
        } else {
            1
        };
        let cap: usize = if min_non_zero_cap >= cap {
            min_non_zero_cap
        } else {
            cap
        };
        proof {
            growth::lemma_more_bytes(elem_size as int, required_cap as int, cap as int);
            if self.cap >= required_cap {
                growth::lemma_more_bytes(elem_size as int, required_cap as int, self.cap as int);
            } else {
                growth::lemma_more_bytes(elem_size as int, self.cap as int, required_cap as int);
            }
        }
        // The slack is no reason to fail, and growing never shrinks.
        let (cap, new_layout): (usize, Result<Layout, LayoutErr>) = match Layout::array::<T>(cap) {
            Ok(new_layout) => (cap, Ok(new_layout)),
            Err(_) => {
                let least: usize = if self.cap >= required_cap {
                    self.cap
                } else {
                    required_cap
                };
                (least, Layout::array::<T>(least))
            },
        };
        self.grow_to(Ghost(cap as int), new_layout)
    }

    /// Makes room for `additional` elements beyond `len`, without slack.
    fn grow_exact(&mut self, len: usize, additional: usize) -> (result: Result<
        (),
        TryReserveError,
    >)
        requires
            old(self).wf(),
            growth::needs_to_grow(
                old(self).spec_capacity() as int,
                len as int,
                additional as int,
            ),
        ensures
            final(self).follows(old(self), old(self).exact_plan(len, additional), result),
    {
        let elem_size: usize = core::mem::size_of::<T>();
        if elem_size == 0 {
            // The capacity is `usize::MAX`, so the buffer is overfull.
            return Err(TryReserveError::CapacityOverflow);
        }
        let cap: usize = match len.checked_add(additional) {
            Some(cap) => cap,
            None => {
                proof {
                    growth::lemma_more_bytes(elem_size as int, 0, len + additional);
                }
                return Err(TryReserveError::CapacityOverflow);
            },
        };
        let new_layout = Layout::array::<T>(cap);
        self.grow_to(Ghost(cap as int), new_layout)
    }

    /// Reduces the block to `amount` elements. For no elements at all it is given back.
    fn shrink(&mut self, amount: usize) -> (result: Result<(), TryReserveError>)
        requires
            old(self).wf(),
            amount <= old(self).spec_capacity(),
        ensures
            final(self).shrunk(old(self), amount, result),
    {
        vstd::layout::layout_for_type_is_valid::<T>();
        let layout = match self.current_memory() {
            Some((_, layout)) => layout,
            None => {
                return Ok(());
            },
        };
        if amount == 0 {
            self.drop();
            return Ok(());
        }
        proof {
            growth::lemma_more_bytes(Self::elem_size() as int, amount as int, self.cap as int);
            growth::lemma_more_bytes(Self::elem_size() as int, 0, amount as int);
            layout::lemma_array_layout_valid::<T>(amount as int);
        }
        let new_size: usize = amount * core::mem::size_of::<T>();
        let new_layout = Layout::from_size_align_unchecked(new_size, layout.align);
        let memory = match &mut self.block {
            Some(block) => self.alloc.shrink(block, layout, new_layout),
            None => Ok(()),
        };
        match answer(memory, new_layout) {
            Ok(_) => {
                self.set_ptr(Ghost(amount as int));
                proof {
                    growth::lemma_more_bytes(Self::elem_size() as int, amount as int, self.cap as int);
                    assert(self.bytes().take(new_size as int) =~= old(self).bytes().take(
                        new_size as int,
                    ));
                }
                Ok(())
            },
            Err(error) => Err(error),
        }
    }
}

impl<T, A: AllocRef> RawVec<T, A> {
    /// What comes of a new buffer for `capacity` elements, backed by `alloc`: without elements of
    /// a size it takes no memory, and else the allocator decides.
    pub open spec fn created(
        result: Result<Self, TryReserveError>,
        capacity: usize,
        init: AllocInit,
        alloc: A,
    ) -> bool {
        match result {
            Ok(vec) => if Self::elem_size() == 0 || capacity == 0 {
                &&& vec.wf()
                &&& vec.block() is None
                &&& vec.cap() == 0
                &&& vec.spec_allocator() == alloc
            } else {
                &&& vec.holds_array(capacity as int)
                &&& vec.spec_allocator().log() == alloc.log().push(
                    Call::Allocate {
                        layout: layout::array_layout::<T>(capacity as int),
                        zeroed: init is Zeroed,
                        served: true,
                    },
                )
                &&& A::granted(vec.block()->0, layout::array_layout::<T>(capacity as int))
                &&& vec.spec_allocator().live() == alloc.live().insert(vec.block()->0.info())
                &&& init is Zeroed ==> forall|i: int|
                    0 <= i < vec.bytes().len() ==> #[trigger] vec.bytes()[i] == 0
            },
            Err(TryReserveError::CapacityOverflow) => !layout::array_fits::<T>(capacity as int),
            Err(TryReserveError::AllocError { layout }) => {
                &&& Self::elem_size() > 0
                &&& capacity > 0
                &&& layout::array_fits::<T>(capacity as int)
                &&& layout == layout::array_layout::<T>(capacity as int)
                &&& A::may_refuse(layout)
                &&& Self::refused(alloc, layout, init)
            },
        }
    }

    /// The allocator `alloc` has been asked for memory for `layout`, has refused it, and has then
    /// handed out the same blocks as before.
    pub open spec fn refused(alloc: A, layout: Layout, init: AllocInit) -> bool {
        exists|after: A|
            #[trigger] after.log() == alloc.log().push(
                Call::Allocate { layout, zeroed: init is Zeroed, served: false },
            ) && after.live() == alloc.live()
    }

    /// The buffer for `capacity` elements that comes of the allocator's answer to a request for
    /// them: if a block was granted, the buffer over it, with all the capacity that it offers.
    pub fn from_answer(memory: Result<A::Block, AllocErr>, capacity: usize, alloc: A) -> (result:
        Result<Self, TryReserveError>)
        requires
            Self::elem_size() > 0,
            capacity > 0,
            layout::array_fits::<T>(capacity as int),
            memory matches Ok(block) ==> {
                &&& allocator::serves(block, layout::array_layout::<T>(capacity as int))
                &&& A::exact() ==> block.info().len == layout::array_bytes::<T>(capacity as int)
                &&& alloc.live().contains(block.info())
            },
        ensures
            match memory {
                Ok(block) => result matches Ok(vec) && {
                    &&& vec.holds_array(capacity as int)
                    &&& vec.block() == Some(block)
                    &&& vec.spec_ptr() == block.info().addr
                    &&& vec.spec_capacity() == block.info().len as int / Self::elem_size() as int
                    &&& vec.spec_allocator() == alloc
                },
                Err(_) => result == Err::<Self, TryReserveError>(
                    TryReserveError::AllocError {
                        layout: layout::array_layout::<T>(capacity as int),
                    },
                ),
            },
    {
        vstd::layout::layout_for_type_is_valid::<T>();
        proof {
            growth::lemma_more_bytes(Self::elem_size() as int, 0, capacity as int);
            layout::lemma_array_layout_valid::<T>(capacity as int);
        }
        let size: usize = capacity * core::mem::size_of::<T>();
        let layout = Layout::from_size_align_unchecked(size, core::mem::align_of::<T>());
        match answer(memory, layout) {
            Ok(block) => {
                let mut vec = RawVec { block: Some(block), cap: 0, alloc, marker: PhantomData };
                vec.set_ptr(Ghost(capacity as int));
                Ok(vec)
            },
            Err(error) => Err(error),
        }
    }

    /// A new buffer for `capacity` elements.
    pub fn allocate_in(capacity: usize, init: AllocInit, alloc: A) -> (result: Result<
        Self,
        TryReserveError,
    >)
        ensures
            Self::created(result, capacity, init, alloc),
    {
        vstd::layout::layout_for_type_is_valid::<T>();
        if core::mem::size_of::<T>() == 0 || capacity == 0 {
            return Ok(Self::new_in(alloc));
        }
        let layout = match Layout::array::<T>(capacity) {
            Ok(layout) => layout,
            Err(_) => {
                return Err(TryReserveError::CapacityOverflow);
            },
        };
        proof {
            layout.lemma_valid_bounds();
            growth::lemma_more_bytes(Self::elem_size() as int, 0, capacity as int);
        }
        match alloc_guard(layout.size) {
            Ok(_) => {},
            Err(error) => {
                return Err(error);
            },
        }
        let mut alloc = alloc;
        let memory = new_block(layout, init, &mut alloc);
        Self::from_answer(memory, capacity, alloc)
    }

    /// Like `with_capacity`, but parameterized over the choice of allocator.
    pub fn with_capacity_in(capacity: usize, alloc: A) -> (result: Result<Self, OutOfMemory>)
        requires
            layout::array_fits::<T>(capacity as int),
        ensures
            Self::created(unhandled(result), capacity, AllocInit::Uninitialized, alloc),
    {
        handle_reserve(Self::allocate_in(capacity, AllocInit::Uninitialized, alloc))
    }

    /// Like `with_capacity_zeroed`, but parameterized over the choice of allocator.
    pub fn with_capacity_zeroed_in(capacity: usize, alloc: A) -> (result: Result<Self, OutOfMemory>)
        requires
            layout::array_fits::<T>(capacity as int),
        ensures
            Self::created(unhandled(result), capacity, AllocInit::Zeroed, alloc),
    {
        handle_reserve(Self::allocate_in(capacity, AllocInit::Zeroed, alloc))
    }

    /// Puts a buffer together from a block of memory, a capacity and the allocator that has
    /// handed the block out.
    pub fn from_raw_parts_in(block: Option<A::Block>, capacity: usize, alloc: A) -> (vec: Self)
        requires
            Self::valid_parts(block, capacity, alloc),
        ensures
            vec.wf(),
            vec.block() == block,
            vec.cap() == capacity,
            vec.spec_allocator() == alloc,
    {
        RawVec { block, cap: capacity, alloc, marker: PhantomData }
    }

    /// Takes a buffer apart: its block of memory, its capacity and its allocator.
    pub fn into_raw_parts(self) -> (parts: (Option<A::Block>, usize, A))
        requires
            self.wf(),
        ensures
            Self::valid_parts(parts.0, parts.1, parts.2),
            parts.0 == self.block(),
            parts.1 == self.spec_capacity(),
            parts.2 == self.spec_allocator(),
    {
        let capacity: usize = self.capacity();
        (self.block, capacity, self.alloc)
    }

    /// Converts an owned slice into a buffer.
    pub fn from_box(slice: BoxedSlice<T, A>) -> (vec: Self)
        requires
            slice.wf(),
        ensures
            vec.wf(),
            vec == slice.raw(),
            Self::elem_size() > 0 ==> vec.spec_capacity() == slice.spec_len(),
    {
        slice.into_raw()
    }

    /// Converts the entire buffer into an owned slice of `len` elements, which may be
    /// uninitialized. `len` is at least the capacity that was last asked for, and at most the
    /// capacity; the two may differ, as an allocator may return more memory than was asked for.
    pub fn into_box(self, len: usize) -> (slice: BoxedSlice<T, A>)
        requires
            self.wf(),
            len <= self.spec_capacity(),
            self.block() matches Some(block) ==> block.info().layout.size <= layout::array_bytes::<
                T,
            >(len as int),
        ensures
            slice.wf(),
            slice.spec_len() == len,
            slice.raw().block() == self.block(),
            slice.raw().spec_allocator() == self.spec_allocator(),
    {
        let mut me = self;
        vstd::layout::layout_for_type_is_valid::<T>();
        if core::mem::size_of::<T>() != 0 {
            proof {
                growth::lemma_more_bytes(Self::elem_size() as int, len as int, me.cap as int);
            }
            me.cap = len;
        }
        BoxedSlice::from_raw(me, len)
    }

    /// The allocator that backs the buffer.
    pub fn allocator(&self) -> (alloc: &A)
        ensures
            *alloc == self.spec_allocator(),
    {
        &self.alloc
    }

    /// The allocator that backs the buffer, to be changed. The buffer stays well-formed as long
    /// as the allocator still counts the buffer's block among those it has handed out.
    pub fn alloc_mut(&mut self) -> (alloc: &mut A)
        ensures
            *alloc == old(self).spec_allocator(),
            final(self).spec_allocator() == *final(alloc),
            final(self).block() == old(self).block(),
            final(self).cap() == old(self).cap(),
    {
        &mut self.alloc
    }

    /// The block of memory that the buffer holds.
    pub fn memory(&self) -> (block: Option<&A::Block>)
        ensures
            match block {
                Some(block) => self.block() == Some(*block),
                None => self.block() is None,
            },
    {
        match &self.block {
            Some(block) => Some(block),
            None => None,
        }
    }

    /// The block of memory that the buffer holds, to be written to.
    pub fn memory_mut(&mut self) -> (block: Option<&mut A::Block>)
        ensures
            match block {
                Some(block) => {
                    &&& old(self).block() == Some(*block)
                    &&& final(self).block() == Some(*final(block))
                    &&& final(self).cap() == old(self).cap()
                    &&& final(self).spec_allocator() == old(self).spec_allocator()
                },
                None => old(self).block() is None && *final(self) == *old(self),
            },
    {
        match &mut self.block {
            Some(block) => Some(block),
            None => None,
        }
    }

    /// Makes sure that the buffer has room for `additional` elements beyond `len`. If it does not
    /// have it yet, reallocates with enough slack for amortized constant time per element. The
    /// slack is limited where it would needlessly exceed the largest possible size.
    ///
    /// If `len` exceeds the capacity, this may fail to actually make room.
    pub fn reserve(&mut self, len: usize, additional: usize) -> (result: Result<(), OutOfMemory>)
        requires
            old(self).wf(),
            !(old(self).amortized_plan(len, additional) is Overflow),
        ensures
            final(self).wf(),
            final(self).follows(
                old(self),
                old(self).amortized_plan(len, additional),
                unhandled(result),
            ),
    {
        handle_reserve(self.try_reserve(len, additional))
    }

    /// The same as `reserve`, but for any request: it also reports that the new capacity would
    /// exceed `isize::MAX` bytes.
    pub fn try_reserve(&mut self, len: usize, additional: usize) -> (result: Result<
        (),
        TryReserveError,
    >)
        requires
            old(self).wf(),
        ensures
            final(self).wf(),
            final(self).follows(old(self), old(self).amortized_plan(len, additional), result),
    {
        if self.needs_to_grow(len, additional) {
            self.grow_amortized(len, additional)
        } else {
            Ok(())
        }
    }

    /// Makes sure that the buffer has room for `additional` elements beyond `len`. If it does not
    /// have it yet, asks for exactly the memory that is necessary, though the allocator is free
    /// to return more.
    ///
    /// If `len` exceeds the capacity, this may fail to actually make room.
    pub fn reserve_exact(&mut self, len: usize, additional: usize) -> (result: Result<
        (),
        OutOfMemory,
    >)
        requires
            old(self).wf(),
            !(old(self).exact_plan(len, additional) is Overflow),
        ensures
            final(self).wf(),
            final(self).follows(
                old(self),
                old(self).exact_plan(len, additional),
                unhandled(result),
            ),
    {
        handle_reserve(self.try_reserve_exact(len, additional))
    }

    /// The same as `reserve_exact`, but for any request: it also reports that the new capacity
    /// would exceed `isize::MAX` bytes.
    pub fn try_reserve_exact(&mut self, len: usize, additional: usize) -> (result: Result<
        (),
        TryReserveError,
    >)
        requires
            old(self).wf(),
        ensures
            final(self).wf(),
            final(self).follows(old(self), old(self).exact_plan(len, additional), result),
    {
        if self.needs_to_grow(len, additional) {
            self.grow_exact(len, additional)
        } else {
            Ok(())
        }
    }

    /// Shrinks the buffer to `amount` elements, which is at most its capacity. If `amount` is
    /// zero, gives all its memory back.
    pub fn shrink_to_fit(&mut self, amount: usize) -> (result: Result<(), OutOfMemory>)
        requires
            old(self).wf(),
            amount <= old(self).spec_capacity(),
        ensures
            final(self).wf(),
            final(self).shrunk(old(self), amount, unhandled(result)),
    {
        handle_reserve(self.shrink(amount))
    }

    /// Frees the memory that the buffer holds, without dropping what is stored there. What is left
    /// is a buffer without memory.
    pub fn drop(&mut self)
        requires
            old(self).wf(),
        ensures
            final(self).dropped(old(self)),
    {
        let current_memory = self.current_memory();
        let block = self.block.take();
        self.cap = 0;
        match (block, current_memory) {
            (Some(block), Some((_, layout))) => {
                self.alloc.deallocate(block, layout);
            },
            _ => {},
        }
    }
}

/// A result in which a capacity overflow is ruled out, as one in which it is not.
pub open spec fn unhandled<M>(result: Result<M, OutOfMemory>) -> Result<M, TryReserveError> {
    match result {
        Ok(value) => Ok(value),
        Err(error) => Err(TryReserveError::AllocError { layout: error.layout }),
    }
}

impl<T> RawVec<T, Global> {
    /// The largest buffer on the system heap that takes no memory. Its capacity is zero, or
    /// `usize::MAX` for elements of size zero.
    pub fn new() -> (vec: Self)
        ensures
            vec.wf(),
            vec.block() is None,
            vec.cap() == 0,
            vec.spec_allocator() == Global::unused(),
    {
        Self::new_in(Global::new())
    }

    /// A buffer on the system heap with exactly the size and alignment of `[T; capacity]`. This is
    /// the same as `new` if `capacity` is zero or the elements have size zero.
    pub fn with_capacity(capacity: usize) -> (result: Result<Self, OutOfMemory>)
        requires
            layout::array_fits::<T>(capacity as int),
        ensures
            Self::created(unhandled(result), capacity, AllocInit::Uninitialized, Global::unused()),
            result matches Ok(vec) ==> (Self::elem_size() > 0 ==> vec.spec_capacity() == capacity),
    {
        Self::with_capacity_in(capacity, Global::new())
    }

    /// Like `with_capacity`, but the buffer is guaranteed to be zeroed.
    pub fn with_capacity_zeroed(capacity: usize) -> (result: Result<Self, OutOfMemory>)
        requires
            layout::array_fits::<T>(capacity as int),
        ensures
            Self::created(unhandled(result), capacity, AllocInit::Zeroed, Global::unused()),
            result matches Ok(vec) ==> (Self::elem_size() > 0 ==> vec.spec_capacity() == capacity),
    {
        Self::with_capacity_zeroed_in(capacity, Global::new())
    }

    /// Puts a buffer together from a block of memory on the system heap and a capacity.
    pub fn from_raw_parts(block: Option<HeapBlock>, capacity: usize) -> (vec: Self)
        requires
            match block {
                Some(block) => {
                    &&& Self::elem_size() > 0
                    &&& block.info().valid()
                    &&& block.contents().len() == block.info().len
                    &&& layout::array_fits::<T>(capacity as int)
                    &&& block.info().fits(layout::array_layout::<T>(capacity as int))
                },
                None => Self::elem_size() == 0 || capacity == 0,
            },
        ensures
            vec.wf(),
            vec.block() == block,
            vec.cap() == capacity,
            vec.spec_allocator().live() == match block {
                Some(block) => Multiset::<BlockInfo>::empty().insert(block.info()),
                None => Multiset::<BlockInfo>::empty(),
            },
            vec.spec_allocator().log() == Seq::<Call>::empty(),
    {
        let alloc = Global::owning(&block);
        Self::from_raw_parts_in(block, capacity, alloc)
    }
}

/// Asks `alloc` once for memory for `layout`.
fn new_block<A: AllocRef>(layout: Layout, init: AllocInit, alloc: &mut A) -> (memory: Result<
    A::Block,
    AllocErr,
>)
    requires
        layout.valid(),
        layout.size > 0,
    ensures
        final(alloc).log() == old(alloc).log().push(
            Call::Allocate { layout, zeroed: init is Zeroed, served: memory is Ok },
        ),
        match memory {
            Ok(block) => {
                &&& allocator::serves(block, layout)
                &&& A::exact() ==> block.info().len == layout.size
                &&& A::granted(block, layout)
                &&& final(alloc).live() == old(alloc).live().insert(block.info())
                &&& init is Zeroed ==> forall|i: int|
                    0 <= i < block.info().len ==> #[trigger] block.contents()[i] == 0
            },
            Err(_) => A::may_refuse(layout) && final(alloc).live() == old(alloc).live(),
        },
{
    match init {
        AllocInit::Uninitialized => alloc.allocate(layout),
        AllocInit::Zeroed => alloc.allocate_zeroed(layout),
    }
}

/// Asks `alloc` for memory for `new_layout` in place of what `block` holds now, which is used under
/// the layout in `current_memory`.
fn finish_grow<A: AllocRef>(
    new_layout: Result<Layout, LayoutErr>,
    block: &mut Option<A::Block>,
    current_memory: Option<(usize, Layout)>,
    alloc: &mut A,
) -> (result: Result<(), TryReserveError>)
    requires
        new_layout matches Ok(new_layout) ==> new_layout.valid() && new_layout.size > 0,
        match (*old(block), current_memory) {
            (Some(block), Some((_, old_layout))) => {
                &&& block.info().valid()
                &&& block.contents().len() == block.info().len
                &&& block.info().fits(old_layout)
                &&& old(alloc).live().contains(block.info())
                &&& new_layout matches Ok(new_layout) ==> {
                    &&& new_layout.size >= old_layout.size
                    &&& new_layout.align == old_layout.align
                }
            },
            (None, None) => true,
            _ => false,
        },
    ensures
        match new_layout {
            Err(_) => {
                &&& result == Err::<(), TryReserveError>(TryReserveError::CapacityOverflow)
                &&& *final(block) == *old(block)
                &&& *final(alloc) == *old(alloc)
            },
            Ok(new_layout) => final(alloc).log() == old(alloc).log().push(
                match (*old(block), current_memory) {
                    (Some(block), Some((_, old_layout))) => Call::Grow {
                        block: block.info(),
                        old_layout,
                        new_layout,
                        served: result is Ok,
                    },
                    _ => Call::Allocate {
                        layout: new_layout,
                        zeroed: false,
                        served: result is Ok,
                    },
                },
            ) && match result {
                Ok(_) => {
                    &&& *final(block) matches Some(new_block) && {
                        &&& allocator::serves(new_block, new_layout)
                        &&& A::exact() ==> new_block.info().len == new_layout.size
                        &&& freshly_granted::<A>(new_block, new_layout)
                        &&& *old(block) matches Some(block) ==> A::given_up(block)
                        &&& final(alloc).live() == match *old(block) {
                            Some(block) => old(alloc).live().remove(block.info()),
                            None => old(alloc).live(),
                        }.insert(new_block.info())
                        &&& match (*old(block), current_memory) {
                            (Some(block), Some((_, old_layout))) => new_block.contents().take(
                                old_layout.size as int,
                            ) == block.contents().take(old_layout.size as int),
                            _ => true,
                        }
                    }
                },
                Err(error) => {
                    &&& error == (TryReserveError::AllocError { layout: new_layout })
                    &&& A::may_refuse(new_layout)
                    &&& final(alloc).live() == old(alloc).live()
                    &&& match (*old(block), *final(block)) {
                        (Some(block), Some(new_block)) => {
                            &&& new_block.info() == block.info()
                            &&& new_block.contents() == block.contents()
                        },
                        (None, None) => true,
                        _ => false,
                    }
                },
            },
        },
{
    let new_layout = match new_layout {
        Ok(new_layout) => new_layout,
        Err(_) => {
            return Err(TryReserveError::CapacityOverflow);
        },
    };
    proof {
        new_layout.lemma_valid_bounds();
    }
    match alloc_guard(new_layout.size) {
        Ok(_) => {},
        Err(error) => {
            return Err(error);
        },
    }
    match (block, current_memory) {
        (Some(block), Some((_, old_layout))) => {
            let memory = alloc.grow(block, old_layout, new_layout);
            answer(memory, new_layout)
        },
        (block, _) => {
            let memory = match alloc.allocate(new_layout) {
                Ok(new_block) => {
                    *block = Some(new_block);
                    Ok(())
                },
                Err(error) => Err(error),
            };
            answer(memory, new_layout)
        },
    }
}

} // verus!
