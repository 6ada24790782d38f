use crate::allocator::AllocErr;
use crate::layout::Layout;
use vstd::prelude::*;

verus! {

/// Why a buffer could not be made larger or smaller.
#[derive(Clone, Copy, PartialEq, Eq, Debug, Structural)]
pub enum TryReserveError {
    /// The buffer would exceed the largest possible size.
    CapacityOverflow,
    /// The allocator failed to serve a request for `layout`.
    AllocError { layout: Layout },
}

/// The allocator failed to serve a request for `layout`. There is nothing left to do but to
/// report this and abort.
#[derive(Clone, Copy, PartialEq, Eq, Debug, Structural)]
pub struct OutOfMemory {
    pub layout: Layout,
}

/// The allocator's answer to a request for `layout`, as the answer of a buffer.
pub fn answer<M>(memory: Result<M, AllocErr>, layout: Layout) -> (result: Result<
    M,
    TryReserveError,
>)
    ensures
        result == match memory {
            Ok(memory) => Ok::<M, TryReserveError>(memory),
            Err(_) => Err(TryReserveError::AllocError { layout }),
        },
{
    match memory {
        Ok(memory) => Ok(memory),
        Err(_) => Err(TryReserveError::AllocError { layout }),
    }
}

/// Central function for error handling where a capacity overflow is ruled out: what remains is
/// that the allocator failed.
pub fn handle_reserve<M>(result: Result<M, TryReserveError>) -> (handled: Result<M, OutOfMemory>)
    requires
        !(result matches Err(TryReserveError::CapacityOverflow)),
    ensures
        handled == match result {
            Ok(value) => Ok::<M, OutOfMemory>(value),
            Err(error) => Err(OutOfMemory { layout: error->layout }),
        },
{
    match result {
        Ok(value) => Ok(value),
        Err(TryReserveError::AllocError { layout }) => Err(OutOfMemory { layout }),
        Err(TryReserveError::CapacityOverflow) => vstd::pervasive::unreached(),
    }
}

/// Guards against a request for more than `isize::MAX` bytes. Where `usize` has 64 bits, no
/// allocator serves such a request anyway, and it need not be ruled out here.
pub fn alloc_guard(alloc_size: usize) -> (result: Result<(), TryReserveError>)
    ensures
        result == if usize::BITS < 64 && alloc_size > isize::MAX {
            Err::<(), TryReserveError>(TryReserveError::CapacityOverflow)
        } else {
            Ok(())
        },
{
    if usize::BITS < 64 && alloc_size > isize::MAX as usize {
        Err(TryReserveError::CapacityOverflow)
    } else {
        Ok(())
    }
}

} // verus!
