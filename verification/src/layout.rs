use vstd::layout;
use vstd::prelude::*;

verus! {

/// The size and alignment of a block of memory.
#[derive(Clone, Copy, PartialEq, Eq, Debug, Structural)]
pub struct Layout {
    pub size: usize,
    pub align: usize,
}

/// A size and alignment that no block of memory can have.
#[derive(Clone, Copy, PartialEq, Eq, Debug, Structural)]
pub struct LayoutErr;

/// The number of bytes that `count` elements of type `T` take up.
pub open spec fn array_bytes<T>(count: int) -> int {
    count * layout::size_of::<T>()
}

/// Whether an array of `count` elements of type `T` is small enough to exist at all: no object is
/// larger than `isize::MAX` bytes.
pub open spec fn array_fits<T>(count: int) -> bool {
    array_bytes::<T>(count) <= isize::MAX
}

/// The layout of `[T; count]`.
pub open spec fn array_layout<T>(count: int) -> Layout {
    Layout { size: array_bytes::<T>(count) as usize, align: layout::align_of::<T>() as usize }
}

impl Layout {
    /// The alignment is a power of two, and the size, rounded up to a multiple of the alignment,
    /// is at most `isize::MAX`.
    pub open spec fn valid(&self) -> bool {
        layout::valid_layout(self.size, self.align)
    }

    /// A valid layout has an alignment, and at most `isize::MAX` bytes.
    pub proof fn lemma_valid_bounds(&self)
        requires
            self.valid(),
        ensures
            self.align > 0,
            self.size <= isize::MAX,
    {
        reveal(vstd::arithmetic::power2::is_pow2);
    }

    /// A block of a valid layout, with what it may take to align it, has a size in bytes.
    pub proof fn lemma_room_to_align(&self)
        requires
            self.valid(),
            self.size > 0,
        ensures
            self.align <= isize::MAX,
            self.size + self.align - 1 <= usize::MAX,
    {
        self.lemma_valid_bounds();
        if self.align > isize::MAX {
            vstd::arithmetic::div_mod::lemma_small_mod(isize::MAX as nat, self.align as nat);
        }
    }

    /// Creates a layout from its two components.
    pub fn from_size_align_unchecked(size: usize, align: usize) -> (layout: Layout)
        requires
            layout::valid_layout(size, align),
        ensures
            layout.valid(),
            layout == (Layout { size, align }),
    {
        Layout { size, align }
    }

    /// The layout of `[T; count]`, or an error where that array would be larger than
    /// `isize::MAX` bytes.
    pub fn array<T>(count: usize) -> (layout: Result<Layout, LayoutErr>)
        ensures
            match layout {
                Ok(layout) => {
                    &&& array_fits::<T>(count as int)
                    &&& layout == array_layout::<T>(count as int)
                    &&& layout.size == array_bytes::<T>(count as int)
                    &&& layout.align == layout::align_of::<T>()
                    &&& layout.valid()
                },
                Err(_) => !array_fits::<T>(count as int),
            },
    {
        layout::layout_for_type_is_valid::<T>();
        let elem_size: usize = core::mem::size_of::<T>();
        let align: usize = core::mem::align_of::<T>();
        match count.checked_mul(elem_size) {
            None => Err(LayoutErr),
            Some(size) => {
                if size > isize::MAX as usize {
                    Err(LayoutErr)
                } else {
                    proof {
                        lemma_array_layout_valid::<T>(count as int);
                    }
                    Ok(Layout { size, align })
                }
            },
        }
    }
}

/// An array that is small enough to exist has a valid layout.
pub proof fn lemma_array_layout_valid<T>(count: int)
    requires
        0 <= count,
        array_fits::<T>(count),
        layout::size_of::<T>() <= usize::MAX,
        0 < layout::align_of::<T>() <= usize::MAX,
        layout::valid_layout(layout::size_of::<T>() as usize, layout::align_of::<T>() as usize),
        layout::size_of::<T>() % layout::align_of::<T>() == 0,
    ensures
        array_layout::<T>(count).valid(),
        array_layout::<T>(count).size == array_bytes::<T>(count),
        array_layout::<T>(count).align == layout::align_of::<T>(),
{
    let size = layout::size_of::<T>() as int;
    let align = layout::align_of::<T>() as int;
    let bytes = array_bytes::<T>(count);
    let max = isize::MAX as int;
    assert(0 <= bytes) by (nonlinear_arith)
        requires
            bytes == count * size,
            0 <= count,
            0 <= size,
    ;
    let per_elem = size / align;
    vstd::arithmetic::div_mod::lemma_fundamental_div_mod(size, align);
    vstd::arithmetic::div_mod::lemma_fundamental_div_mod(max, align);
    assert(bytes == align * (count * per_elem)) by (nonlinear_arith)
        requires
            bytes == count * size,
            size == align * per_elem,
    ;
    let most = max / align;
    assert(count * per_elem <= most) by (nonlinear_arith)
        requires
            align * (count * per_elem) <= max,
            max == align * most + max % align,
            0 <= max % align < align,
            0 < align,
    ;
    assert(align * (count * per_elem) <= align * most) by (nonlinear_arith)
        requires
            count * per_elem <= most,
            0 < align,
    ;
}

} // verus!
