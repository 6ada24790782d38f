use raw_vec::allocator::AllocErr;
use raw_vec::error::{alloc_guard, answer, handle_reserve, OutOfMemory, TryReserveError};
use raw_vec::layout::{Layout, LayoutErr};

#[test]
fn array_layouts() {
    assert_eq!(Layout::array::<u32>(7), Ok(Layout { size: 28, align: 4 }));
    assert_eq!(Layout::array::<u8>(0), Ok(Layout { size: 0, align: 1 }));
    assert_eq!(Layout::array::<()>(usize::MAX), Ok(Layout { size: 0, align: 1 }));
    let most = isize::MAX as usize;
    assert_eq!(Layout::array::<u8>(most), Ok(Layout { size: most, align: 1 }));
    assert_eq!(Layout::array::<u8>(most + 1), Err(LayoutErr));
    assert_eq!(Layout::array::<u16>(most / 2 + 1), Err(LayoutErr));
    assert_eq!(Layout::array::<u16>(usize::MAX), Err(LayoutErr));
    assert_eq!(Layout::from_size_align_unchecked(6, 2), Layout { size: 6, align: 2 });
}

#[test]
fn guarded_sizes() {
    assert_eq!(alloc_guard(0), Ok(()));
    assert_eq!(alloc_guard(isize::MAX as usize), Ok(()));
    let expected = if usize::BITS < 64 { Err(TryReserveError::CapacityOverflow) } else { Ok(()) };
    assert_eq!(alloc_guard(isize::MAX as usize + 1), expected);
}

#[test]
fn answers_of_an_allocator() {
    let layout = Layout { size: 12, align: 4 };
    assert_eq!(answer(Ok(5), layout), Ok(5));
    let refused: Result<i32, AllocErr> = Err(AllocErr);
    assert_eq!(answer(refused, layout), Err(TryReserveError::AllocError { layout }));
}

#[test]
fn handled_results() {
    let layout = Layout { size: 12, align: 4 };
    assert_eq!(handle_reserve(Ok(5)), Ok(5));
    let failed: Result<i32, TryReserveError> = Err(TryReserveError::AllocError { layout });
    assert_eq!(handle_reserve(failed), Err(OutOfMemory { layout }));
}
