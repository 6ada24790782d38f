use crate::allocator::AllocRef;
use crate::heap::Global;
use crate::raw_vec::RawVec;
use vstd::prelude::*;

verus! {

/// An owned slice of `len` elements, which may be uninitialized, in memory of an allocator.
pub struct BoxedSlice<T, A: AllocRef = Global> {
    raw: RawVec<T, A>,
    len: usize,
}

impl<T, A: AllocRef> BoxedSlice<T, A> {
    /// The buffer that the slice fills.
    pub closed spec fn raw(&self) -> RawVec<T, A> {
        self.raw
    }

    /// The number of elements.
    pub closed spec fn spec_len(&self) -> usize {
        self.len
    }

    /// The elements, if they have a size, fill the buffer.
    pub open spec fn wf(&self) -> bool {
        &&& self.raw().wf()
        &&& RawVec::<T, A>::elem_size() > 0 ==> self.raw().cap() == self.spec_len()
    }

    /// The slice that fills a buffer.
    pub(crate) fn from_raw(raw: RawVec<T, A>, len: usize) -> (slice: Self)
        ensures
            slice.raw() == raw,
            slice.spec_len() == len,
    {
        BoxedSlice { raw, len }
    }

    /// The buffer that the slice fills.
    pub(crate) fn into_raw(self) -> (raw: RawVec<T, A>)
        ensures
            raw == self.raw(),
    {
        self.raw
    }

    /// The number of elements.
    pub fn len(&self) -> (len: usize)
        ensures
            len == self.spec_len(),
    {
        self.len
    }

    /// The address of the first element.
    pub fn ptr(&self) -> (addr: usize)
        requires
            self.wf(),
        ensures
            addr == self.raw().spec_ptr(),
    {
        self.raw.ptr()
    }
}

} // verus!
