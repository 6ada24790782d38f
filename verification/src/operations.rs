use crate::allocator::{AllocErr, AllocRef, Call, MemoryBlock};
use crate::boxed::BoxedSlice;
use crate::error::{OutOfMemory, TryReserveError};
use crate::growth;
use crate::heap;
use crate::heap::{Global, HeapBlock};
use crate::laws;
use crate::layout::{Layout, LayoutErr};
use crate::raw_vec;
use crate::raw_vec::{AllocInit, RawVec};
use std::collections::TryReserveError as HeapRefusal;
use vstd::layout::{align_of, size_of};
use vstd::math::max;
use vstd::prelude::*;

verus! {

/// Twice a capacity, or a tiny number of small elements, stays within the limit or does not, and
/// the slack is the largest of what it is made of.
proof fn lemma_slack(size: int, capacity: int, required: int)
    requires
        0 < size,
        0 <= capacity < required,
    ensures
        growth::with_slack(size, capacity, required) == max(
            if size == 1 {
                8
            } else if size <= 1024 {
                4
            } else {
                1
            },
            max(2 * capacity, required),
        ),
        required <= growth::with_slack(size, capacity, required),
        0 < required * size <= growth::with_slack(size, capacity, required) * size,
{
    growth::lemma_more_bytes(size, required, growth::with_slack(size, capacity, required));
    growth::lemma_more_bytes(size, 0, required);
}

/// Bytes that are a prefix of a buffer's bytes stand at the start of its block.
proof fn lemma_kept<T, A: AllocRef>(before: &RawVec<T, A>, after: &RawVec<T, A>)
    requires
        before.wf(),
        after.wf(),
        size_of::<T>() > 0,
        before.block() is Some,
        after.block() is Some,
        before.bytes().is_prefix_of(after.bytes()),
    ensures
        forall|i: int|
            0 <= i < before.cap() * size_of::<T>() ==> #[trigger] after.block()->0.contents()[i]
                == before.block()->0.contents()[i],
{
    laws::law_block_has_room(before);
    laws::law_block_has_room(after);
    let old_block = before.block()->0;
    let block = after.block()->0;
    assert forall|i: int| 0 <= i < before.cap() * size_of::<T>() implies
        #[trigger] block.contents()[i] == old_block.contents()[i] by {
        assert(before.bytes()[i] == after.bytes()[i]);
    }
}

/// What `try_reserve` does. With the room there already it does nothing. A request that no buffer
/// can serve is an overflow. Else it makes one request to the allocator: for the largest of twice
/// the capacity, what is needed, and 8 elements of one byte or 4 of up to 1024 bytes; or, if that
/// exceeds `isize::MAX` bytes, for just what is needed. The capacity is then what the granted block
/// has room for, and the elements keep their bytes; a refusal changes nothing.
pub proof fn law_try_reserve<T, A: AllocRef>(
    vec: &mut RawVec<T, A>,
    len: usize,
    additional: usize,
    result: Result<(), TryReserveError>,
    before: usize,
    after: usize,
)
    requires
        (*vec).wf(),
        call_ensures(RawVec::<T, A>::try_reserve, (vec, len, additional), result),
        call_ensures(RawVec::<T, A>::capacity, (&*vec,), before),
        call_ensures(RawVec::<T, A>::capacity, (&*final(vec),), after),
    ensures
        ({
            let size = size_of::<T>() as int;
            let needed = len + additional;
            if needed <= before {
                result is Ok && *final(vec) == *old(vec)
            } else if len > before {
                &&& *final(vec) == *old(vec)
                &&& result is Ok <==> needed <= before + usize::MAX + 1
                &&& result matches Err(error) ==> error == TryReserveError::CapacityOverflow
            } else if size == 0 || needed * size > isize::MAX {
                &&& *final(vec) == *old(vec)
                &&& result == Err::<(), TryReserveError>(TryReserveError::CapacityOverflow)
            } else {
                let least: int = if size == 1 {
                    8
                } else if size <= 1024 {
                    4
                } else {
                    1
                };
                let slack = max(least, max(2 * before, needed));
                let asked = if slack * size <= isize::MAX {
                    slack
                } else {
                    needed
                };
                let new_layout = Layout {
                    size: (asked * size) as usize,
                    align: align_of::<T>() as usize,
                };
                &&& 0 < asked * size <= isize::MAX
                &&& final(vec).spec_allocator().log() == old(vec).spec_allocator().log().push(
                    match old(vec).block() {
                        Some(block) => Call::Grow {
                            block: block.info(),
                            old_layout: Layout {
                                size: (before * size) as usize,
                                align: align_of::<T>() as usize,
                            },
                            new_layout,
                            served: result is Ok,
                        },
                        None => Call::Allocate {
                            layout: new_layout,
                            zeroed: false,
                            served: result is Ok,
                        },
                    },
                )
                &&& old(vec).block() is None <==> before == 0
                &&& match result {
                    Ok(_) => final(vec).block() matches Some(block) && {
                        &&& block.info().layout == new_layout
                        &&& block.info().len >= asked * size
                        &&& after == block.info().len as int / size
                        &&& after >= asked
                        &&& A::exact() ==> after == asked
                        &&& old(vec).block() matches Some(old_block) ==> forall|i: int|
                            0 <= i < before * size ==> #[trigger] block.contents()[i]
                                == old_block.contents()[i]
                        &&& final(vec).spec_allocator().live() == match old(vec).block() {
                            Some(old_block) => old(vec).spec_allocator().live().remove(
                                old_block.info(),
                            ),
                            None => old(vec).spec_allocator().live(),
                        }.insert(block.info())
                    },
                    Err(error) => {
                        &&& error == (TryReserveError::AllocError { layout: new_layout })
                        &&& after == before
                        &&& final(vec).spec_allocator().live() == old(vec).spec_allocator().live()
                        &&& match (final(vec).block(), old(vec).block()) {
                            (Some(block), Some(old_block)) => {
                                &&& block.info() == old_block.info()
                                &&& block.contents() == old_block.contents()
                            },
                            (None, None) => true,
                            _ => false,
                        }
                    },
                }
            }
        }),
{
    let size = size_of::<T>() as int;
    if size > 0 {
        laws::law_capacity_can_be_doubled(&*vec);
        laws::law_growth_makes_room(size, before as int, len as int, additional as int);
        growth::lemma_more_bytes(size, 0, len + additional);
        growth::lemma_more_bytes(size, 0, before as int);
        if before <= after {
            growth::lemma_more_bytes(size, before as int, after as int);
        }
        if len <= before < len + additional && (len + additional) * size <= isize::MAX {
            lemma_slack(size, before as int, len + additional);
            if result is Ok && vec.block() is Some {
                laws::law_reserve_keeps_contents(&*vec, &*final(vec), len, additional, result);
                lemma_kept(&*vec, &*final(vec));
            }
        }
    }
}

/// What `try_reserve_exact` does: as `try_reserve`, but it asks for just what is needed.
pub proof fn law_try_reserve_exact<T, A: AllocRef>(
    vec: &mut RawVec<T, A>,
    len: usize,
    additional: usize,
    result: Result<(), TryReserveError>,
    before: usize,
    after: usize,
)
    requires
        (*vec).wf(),
        call_ensures(RawVec::<T, A>::try_reserve_exact, (vec, len, additional), result),
        call_ensures(RawVec::<T, A>::capacity, (&*vec,), before),
        call_ensures(RawVec::<T, A>::capacity, (&*final(vec),), after),
    ensures
        ({
            let size = size_of::<T>() as int;
            let needed = len + additional;
            if needed <= before {
                result is Ok && *final(vec) == *old(vec)
            } else if len > before {
                &&& *final(vec) == *old(vec)
                &&& result is Ok <==> needed <= before + usize::MAX + 1
                &&& result matches Err(error) ==> error == TryReserveError::CapacityOverflow
            } else if size == 0 || needed * size > isize::MAX {
                &&& *final(vec) == *old(vec)
                &&& result == Err::<(), TryReserveError>(TryReserveError::CapacityOverflow)
            } else {
                let asked = needed;
                let new_layout = Layout {
                    size: (asked * size) as usize,
                    align: align_of::<T>() as usize,
                };
                &&& 0 < asked * size <= isize::MAX
                &&& final(vec).spec_allocator().log() == old(vec).spec_allocator().log().push(
                    match old(vec).block() {
                        Some(block) => Call::Grow {
                            block: block.info(),
                            old_layout: Layout {
                                size: (before * size) as usize,
                                align: align_of::<T>() as usize,
                            },
                            new_layout,
                            served: result is Ok,
                        },
                        None => Call::Allocate {
                            layout: new_layout,
                            zeroed: false,
                            served: result is Ok,
                        },
                    },
                )
                &&& old(vec).block() is None <==> before == 0
                &&& match result {
                    Ok(_) => final(vec).block() matches Some(block) && {
                        &&& block.info().layout == new_layout
                        &&& block.info().len >= asked * size
                        &&& after == block.info().len as int / size
                        &&& after >= asked
                        &&& A::exact() ==> after == asked
                        &&& old(vec).block() matches Some(old_block) ==> forall|i: int|
                            0 <= i < before * size ==> #[trigger] block.contents()[i]
                                == old_block.contents()[i]
                        &&& final(vec).spec_allocator().live() == match old(vec).block() {
                            Some(old_block) => old(vec).spec_allocator().live().remove(
                                old_block.info(),
                            ),
                            None => old(vec).spec_allocator().live(),
                        }.insert(block.info())
                    },
                    Err(error) => {
                        &&& error == (TryReserveError::AllocError { layout: new_layout })
                        &&& after == before
                        &&& final(vec).spec_allocator().live() == old(vec).spec_allocator().live()
                        &&& match (final(vec).block(), old(vec).block()) {
                            (Some(block), Some(old_block)) => {
                                &&& block.info() == old_block.info()
                                &&& block.contents() == old_block.contents()
                            },
                            (None, None) => true,
                            _ => false,
                        }
                    },
                }
            }
        }),
{
    let size = size_of::<T>() as int;
    if size > 0 {
        laws::law_capacity_can_be_doubled(&*vec);
        laws::law_growth_makes_room(size, before as int, len as int, additional as int);
        growth::lemma_more_bytes(size, 0, len + additional);
        growth::lemma_more_bytes(size, 0, before as int);
        if before <= after {
            growth::lemma_more_bytes(size, before as int, after as int);
        }
        if len <= before < len + additional && (len + additional) * size <= isize::MAX {
            lemma_slack(size, before as int, len + additional);
            if result is Ok && vec.block() is Some {
                laws::law_reserve_keeps_contents(&*vec, &*final(vec), len, additional, result);
                lemma_kept(&*vec, &*final(vec));
            }
        }
    }
}

/// What `reserve` does, where it may be called: the same as `try_reserve`.
pub proof fn law_reserve<T, A: AllocRef>(
    vec: &mut RawVec<T, A>,
    len: usize,
    additional: usize,
    result: Result<(), OutOfMemory>,
    before: usize,
    after: usize,
)
    requires
        (*vec).wf(),
        call_ensures(RawVec::<T, A>::reserve, (vec, len, additional), result),
        call_ensures(RawVec::<T, A>::capacity, (&*vec,), before),
        call_ensures(RawVec::<T, A>::capacity, (&*final(vec),), after),
        len <= before,
        len + additional > before ==> size_of::<T>() > 0 && (len + additional) * size_of::<T>()
            <= isize::MAX,
    ensures
        ({
            let size = size_of::<T>() as int;
            let needed = len + additional;
            if needed <= before {
                result is Ok && *final(vec) == *old(vec)
            } else {
                let least: int = if size == 1 {
                    8
                } else if size <= 1024 {
                    4
                } else {
                    1
                };
                let slack = max(least, max(2 * before, needed));
                let asked = if slack * size <= isize::MAX {
                    slack
                } else {
                    needed
                };
                let new_layout = Layout {
                    size: (asked * size) as usize,
                    align: align_of::<T>() as usize,
                };
                &&& 0 < asked * size <= isize::MAX
                &&& final(vec).spec_allocator().log() == old(vec).spec_allocator().log().push(
                    match old(vec).block() {
                        Some(block) => Call::Grow {
                            block: block.info(),
                            old_layout: Layout {
                                size: (before * size) as usize,
                                align: align_of::<T>() as usize,
                            },
                            new_layout,
                            served: result is Ok,
                        },
                        None => Call::Allocate {
                            layout: new_layout,
                            zeroed: false,
                            served: result is Ok,
                        },
                    },
                )
                &&& old(vec).block() is None <==> before == 0
                &&& match result {
                    Ok(_) => final(vec).block() matches Some(block) && {
                        &&& block.info().layout == new_layout
                        &&& block.info().len >= asked * size
                        &&& after == block.info().len as int / size
                        &&& after >= asked
                        &&& A::exact() ==> after == asked
                        &&& old(vec).block() matches Some(old_block) ==> forall|i: int|
                            0 <= i < before * size ==> #[trigger] block.contents()[i]
                                == old_block.contents()[i]
                        &&& final(vec).spec_allocator().live() == match old(vec).block() {
                            Some(old_block) => old(vec).spec_allocator().live().remove(
                                old_block.info(),
                            ),
                            None => old(vec).spec_allocator().live(),
                        }.insert(block.info())
                    },
                    Err(error) => {
                        &&& error == (OutOfMemory { layout: new_layout })
                        &&& after == before
                        &&& final(vec).spec_allocator().live() == old(vec).spec_allocator().live()
                        &&& match (final(vec).block(), old(vec).block()) {
                            (Some(block), Some(old_block)) => {
                                &&& block.info() == old_block.info()
                                &&& block.contents() == old_block.contents()
                            },
                            (None, None) => true,
                            _ => false,
                        }
                    },
                }
            }
        }),
{
    let size = size_of::<T>() as int;
    let result = raw_vec::unhandled(result);
    if size > 0 {
        laws::law_capacity_can_be_doubled(&*vec);
        laws::law_growth_makes_room(size, before as int, len as int, additional as int);
        growth::lemma_more_bytes(size, 0, len + additional);
        growth::lemma_more_bytes(size, 0, before as int);
        if before <= after {
            growth::lemma_more_bytes(size, before as int, after as int);
        }
        if len <= before < len + additional && (len + additional) * size <= isize::MAX {
            lemma_slack(size, before as int, len + additional);
            if result is Ok && vec.block() is Some {
                laws::law_reserve_keeps_contents(&*vec, &*final(vec), len, additional, result);
                lemma_kept(&*vec, &*final(vec));
            }
        }
    }
}

/// What `reserve_exact` does, where it may be called: the same as `try_reserve_exact`.
pub proof fn law_reserve_exact<T, A: AllocRef>(
    vec: &mut RawVec<T, A>,
    len: usize,
    additional: usize,
    result: Result<(), OutOfMemory>,
    before: usize,
    after: usize,
)
    requires
        (*vec).wf(),
        call_ensures(RawVec::<T, A>::reserve_exact, (vec, len, additional), result),
        call_ensures(RawVec::<T, A>::capacity, (&*vec,), before),
        call_ensures(RawVec::<T, A>::capacity, (&*final(vec),), after),
        len <= before,
        len + additional > before ==> size_of::<T>() > 0 && (len + additional) * size_of::<T>()
            <= isize::MAX,
    ensures
        ({
            let size = size_of::<T>() as int;
            let needed = len + additional;
            if needed <= before {
                result is Ok && *final(vec) == *old(vec)
            } else {
                let asked = needed;
                let new_layout = Layout {
                    size: (asked * size) as usize,
                    align: align_of::<T>() as usize,
                };
                &&& 0 < asked * size <= isize::MAX
                &&& final(vec).spec_allocator().log() == old(vec).spec_allocator().log().push(
                    match old(vec).block() {
                        Some(block) => Call::Grow {
                            block: block.info(),
                            old_layout: Layout {
                                size: (before * size) as usize,
                                align: align_of::<T>() as usize,
                            },
                            new_layout,
                            served: result is Ok,
                        },
                        None => Call::Allocate {
                            layout: new_layout,
                            zeroed: false,
                            served: result is Ok,
                        },
                    },
                )
                &&& old(vec).block() is None <==> before == 0
                &&& match result {
                    Ok(_) => final(vec).block() matches Some(block) && {
                        &&& block.info().layout == new_layout
                        &&& block.info().len >= asked * size
                        &&& after == block.info().len as int / size
                        &&& after >= asked
                        &&& A::exact() ==> after == asked
                        &&& old(vec).block() matches Some(old_block) ==> forall|i: int|
                            0 <= i < before * size ==> #[trigger] block.contents()[i]
                                == old_block.contents()[i]
                        &&& final(vec).spec_allocator().live() == match old(vec).block() {
                            Some(old_block) => old(vec).spec_allocator().live().remove(
                                old_block.info(),
                            ),
                            None => old(vec).spec_allocator().live(),
                        }.insert(block.info())
                    },
                    Err(error) => {
                        &&& error == (OutOfMemory { layout: new_layout })
                        &&& after == before
                        &&& final(vec).spec_allocator().live() == old(vec).spec_allocator().live()
                        &&& match (final(vec).block(), old(vec).block()) {
                            (Some(block), Some(old_block)) => {
                                &&& block.info() == old_block.info()
                                &&& block.contents() == old_block.contents()
                            },
                            (None, None) => true,
                            _ => false,
                        }
                    },
                }
            }
        }),
{
    let size = size_of::<T>() as int;
    let result = raw_vec::unhandled(result);
    if size > 0 {
        laws::law_capacity_can_be_doubled(&*vec);
        laws::law_growth_makes_room(size, before as int, len as int, additional as int);
        growth::lemma_more_bytes(size, 0, len + additional);
        growth::lemma_more_bytes(size, 0, before as int);
        if before <= after {
            growth::lemma_more_bytes(size, before as int, after as int);
        }
        if len <= before < len + additional && (len + additional) * size <= isize::MAX {
            lemma_slack(size, before as int, len + additional);
            if result is Ok && vec.block() is Some {
                laws::law_reserve_keeps_contents(&*vec, &*final(vec), len, additional, result);
                lemma_kept(&*vec, &*final(vec));
            }
        }
    }
}

/// What growth with slack asks for is never more than the largest of what is needed, twice the
/// capacity, and 8 elements of one byte or 4 of up to 1024 bytes; it is one of these, and never
/// less than what is needed.
pub proof fn law_slack_is_bounded(elem_size: int, capacity: int, len: int, additional: int)
    requires
        laws::request(elem_size, capacity, len, additional),
    ensures
        growth::amortized_plan(elem_size, capacity, len, additional) matches growth::Plan::Grow {
            capacity: asked,
        } ==> {
            let largest = max(2 * capacity, len + additional);
            &&& len + additional <= asked
            &&& elem_size == 1 ==> asked <= max(largest, 8)
            &&& 1 < elem_size <= 1024 ==> asked <= max(largest, 4)
            &&& elem_size > 1024 ==> asked <= largest
            &&& asked == len + additional || asked == 2 * capacity || (elem_size == 1 && asked
                == 8) || (1 < elem_size <= 1024 && asked == 4)
            &&& asked * elem_size <= isize::MAX
        },
{
    laws::law_growth_makes_room(elem_size, capacity, len, additional);
}

/// What `shrink_to_fit` does. Without a block it does nothing. For an amount of zero it gives the
/// block back and keeps none. Else it makes one request to the allocator, for an array of that
/// amount; the capacity is then what the granted block has room for, and the elements that remain
/// keep their bytes; a refusal changes nothing.
pub proof fn law_shrink_to_fit<T, A: AllocRef>(
    vec: &mut RawVec<T, A>,
    amount: usize,
    result: Result<(), OutOfMemory>,
    before: usize,
    after: usize,
)
    requires
        (*vec).wf(),
        amount <= before,
        call_ensures(RawVec::<T, A>::shrink_to_fit, (vec, amount), result),
        call_ensures(RawVec::<T, A>::capacity, (&*vec,), before),
        call_ensures(RawVec::<T, A>::capacity, (&*final(vec),), after),
    ensures
        ({
            let size = size_of::<T>() as int;
            let align = align_of::<T>() as usize;
            let old_log = old(vec).spec_allocator().log();
            let old_live = old(vec).spec_allocator().live();
            let old_layout = Layout { size: (before * size) as usize, align };
            let new_layout = Layout { size: (amount * size) as usize, align };
            match old(vec).block() {
                None => {
                    &&& size == 0 || before == 0
                    &&& result is Ok
                    &&& *final(vec) == *old(vec)
                },
                Some(old_block) => if amount == 0 {
                    &&& result is Ok
                    &&& after == 0
                    &&& final(vec).block() is None
                    &&& final(vec).spec_allocator().log() == old_log.push(
                        Call::Deallocate { block: old_block.info(), layout: old_layout },
                    )
                    &&& final(vec).spec_allocator().live() == old_live.remove(old_block.info())
                } else {
                    &&& final(vec).spec_allocator().log() == old_log.push(
                        Call::Shrink {
                            block: old_block.info(),
                            old_layout,
                            new_layout,
                            served: result is Ok,
                        },
                    )
                    &&& final(vec).block() matches Some(block) && match result {
                        Ok(_) => {
                            &&& block.info().layout == new_layout
                            &&& block.info().len >= amount * size
                            &&& after == block.info().len as int / size
                            &&& after >= amount
                            &&& A::exact() ==> after == amount
                            &&& forall|i: int|
                                0 <= i < amount * size ==> #[trigger] block.contents()[i]
                                    == old_block.contents()[i]
                            &&& final(vec).spec_allocator().live() == old_live.remove(
                                old_block.info(),
                            ).insert(block.info())
                        },
                        Err(error) => {
                            &&& error == (OutOfMemory { layout: new_layout })
                            &&& after == before
                            &&& block.info() == old_block.info()
                            &&& block.contents() == old_block.contents()
                            &&& final(vec).spec_allocator().live() == old_live
                        },
                    }
                },
            }
        }),
{
    if vec.block() is Some {
        let size = size_of::<T>() as int;
        growth::lemma_more_bytes(size, amount as int, before as int);
        growth::lemma_more_bytes(size, 0, before as int);
        growth::lemma_more_bytes(size, 0, amount as int);
        if amount <= after {
            growth::lemma_more_bytes(size, amount as int, after as int);
        }
        if amount > 0 && result is Ok {
            laws::law_block_has_room(&*vec);
            laws::law_block_has_room(&*final(vec));
            let kept = amount * size;
            let old_block = vec.block()->0;
            let block = final(vec).block()->0;
            assert forall|i: int| 0 <= i < kept implies #[trigger] block.contents()[i]
                == old_block.contents()[i] by {
                assert(final(vec).bytes().take(kept)[i] == vec.bytes().take(kept)[i]);
            }
        }
    }
}

/// What `drop` does: the block, if there is one, is given back, under the layout that it was used
/// under, and nothing else is asked of the allocator; the buffer keeps no memory.
pub proof fn law_drop<T, A: AllocRef>(vec: &mut RawVec<T, A>, before: usize)
    requires
        (*vec).wf(),
        call_ensures(RawVec::<T, A>::drop, (vec,), ()),
        call_ensures(RawVec::<T, A>::capacity, (&*vec,), before),
    ensures
        final(vec).block() is None,
        size_of::<T>() > 0 ==> final(vec).cap() == 0,
        match old(vec).block() {
            Some(block) => {
                &&& final(vec).spec_allocator().log() == old(vec).spec_allocator().log().push(
                    Call::Deallocate {
                        block: block.info(),
                        layout: Layout {
                            size: (before * size_of::<T>()) as usize,
                            align: align_of::<T>() as usize,
                        },
                    },
                )
                &&& final(vec).spec_allocator().live() == old(vec).spec_allocator().live().remove(
                    block.info(),
                )
            },
            None => final(vec).spec_allocator() == old(vec).spec_allocator(),
        },
{
}

/// What `allocate_in` does. Without elements, or for elements of size zero, it takes no memory. An
/// array of more than `isize::MAX` bytes is an overflow. Else it makes one request to the
/// allocator, for the array, zeroed if that is asked for; the buffer is over the granted block,
/// with all the capacity that it offers; and it fails only if the allocator has refused.
pub proof fn law_allocate_in<T, A: AllocRef>(
    capacity: usize,
    init: AllocInit,
    alloc: A,
    result: Result<RawVec<T, A>, TryReserveError>,
)
    requires
        call_ensures(RawVec::<T, A>::allocate_in, (capacity, init, alloc), result),
    ensures
        ({
            let size = size_of::<T>() as int;
            let asked = Layout {
                size: (capacity * size) as usize,
                align: align_of::<T>() as usize,
            };
            match result {
                Ok(vec) => if size == 0 || capacity == 0 {
                    &&& vec.block() is None
                    &&& vec.cap() == 0
                    &&& vec.spec_allocator() == alloc
                } else {
                    &&& vec.block() matches Some(block) && {
                        &&& block.info().layout == asked
                        &&& capacity * size <= block.info().len <= isize::MAX
                        &&& vec.cap() == block.info().len as int / size
                        &&& vec.cap() >= capacity
                        &&& A::exact() ==> vec.cap() == capacity
                        &&& block.info().addr != 0
                        &&& block.info().addr as int % asked.align as int == 0
                        &&& block.contents().len() == block.info().len
                        &&& init is Zeroed ==> forall|i: int|
                            0 <= i < vec.cap() * size ==> #[trigger] block.contents()[i] == 0
                        &&& vec.spec_allocator().log() == alloc.log().push(
                            Call::Allocate {
                                layout: asked,
                                zeroed: init is Zeroed,
                                served: true,
                            },
                        )
                        &&& vec.spec_allocator().live() == alloc.live().insert(block.info())
                    }
                },
                Err(TryReserveError::CapacityOverflow) => capacity * size > isize::MAX,
                Err(TryReserveError::AllocError { layout }) => {
                    &&& size > 0
                    &&& capacity > 0
                    &&& capacity * size <= isize::MAX
                    &&& layout == asked
                    &&& exists|after: A| #[trigger]
                        after.log() == alloc.log().push(
                            Call::Allocate {
                                layout: asked,
                                zeroed: init is Zeroed,
                                served: false,
                            },
                        ) && after.live() == alloc.live()
                },
            }
        }),
{
    let size = size_of::<T>() as int;
    if let Ok(vec) = result {
        if size > 0 && capacity > 0 {
            growth::lemma_more_bytes(size, capacity as int, vec.cap() as int);
            laws::law_block_has_room(&vec);
            let block = vec.block()->0;
            if init is Zeroed {
                assert forall|i: int| 0 <= i < vec.cap() * size implies
                    #[trigger] block.contents()[i] == 0 by {
                    assert(vec.bytes()[i] == 0);
                }
            }
        }
    }
}

/// What `with_capacity_in` does: as `allocate_in`, for an array that is not too large.
pub proof fn law_with_capacity_in<T, A: AllocRef>(
    capacity: usize,
    alloc: A,
    result: Result<RawVec<T, A>, OutOfMemory>,
)
    requires
        capacity * size_of::<T>() <= isize::MAX,
        call_ensures(RawVec::<T, A>::with_capacity_in, (capacity, alloc), result),
    ensures
        ({
            let size = size_of::<T>() as int;
            let asked = Layout {
                size: (capacity * size) as usize,
                align: align_of::<T>() as usize,
            };
            match result {
                Ok(vec) => if size == 0 || capacity == 0 {
                    &&& vec.block() is None
                    &&& vec.cap() == 0
                    &&& vec.spec_allocator() == alloc
                } else {
                    &&& vec.block() matches Some(block) && {
                        &&& block.info().layout == asked
                        &&& capacity * size <= block.info().len <= isize::MAX
                        &&& vec.cap() == block.info().len as int / size
                        &&& vec.cap() >= capacity
                        &&& A::exact() ==> vec.cap() == capacity
                        &&& block.info().addr != 0
                        &&& block.info().addr as int % asked.align as int == 0
                        &&& block.contents().len() == block.info().len
                        &&& vec.spec_allocator().log() == alloc.log().push(
                            Call::Allocate { layout: asked, zeroed: false, served: true },
                        )
                        &&& vec.spec_allocator().live() == alloc.live().insert(block.info())
                    }
                },
                Err(error) => {
                    &&& size > 0
                    &&& capacity > 0
                    &&& error.layout == asked
                    &&& exists|after: A| #[trigger]
                        after.log() == alloc.log().push(
                            Call::Allocate { layout: asked, zeroed: false, served: false },
                        ) && after.live() == alloc.live()
                },
            }
        }),
{
    let size = size_of::<T>() as int;
    if let Ok(vec) = result {
        if size > 0 && capacity > 0 {
            growth::lemma_more_bytes(size, capacity as int, vec.cap() as int);
            laws::law_block_has_room(&vec);
            let block = vec.block()->0;
            if false {
                assert forall|i: int| 0 <= i < vec.cap() * size implies
                    #[trigger] block.contents()[i] == 0 by {
                    assert(vec.bytes()[i] == 0);
                }
            }
        }
    }
}

/// What `with_capacity_zeroed_in` does: as `with_capacity_in`, and every byte is zero.
pub proof fn law_with_capacity_zeroed_in<T, A: AllocRef>(
    capacity: usize,
    alloc: A,
    result: Result<RawVec<T, A>, OutOfMemory>,
)
    requires
        capacity * size_of::<T>() <= isize::MAX,
        call_ensures(RawVec::<T, A>::with_capacity_zeroed_in, (capacity, alloc), result),
    ensures
        ({
            let size = size_of::<T>() as int;
            let asked = Layout {
                size: (capacity * size) as usize,
                align: align_of::<T>() as usize,
            };
            match result {
                Ok(vec) => if size == 0 || capacity == 0 {
                    &&& vec.block() is None
                    &&& vec.cap() == 0
                    &&& vec.spec_allocator() == alloc
                } else {
                    &&& vec.block() matches Some(block) && {
                        &&& block.info().layout == asked
                        &&& capacity * size <= block.info().len <= isize::MAX
                        &&& vec.cap() == block.info().len as int / size
                        &&& vec.cap() >= capacity
                        &&& A::exact() ==> vec.cap() == capacity
                        &&& block.info().addr != 0
                        &&& block.info().addr as int % asked.align as int == 0
                        &&& block.contents().len() == block.info().len
                        &&& forall|i: int|
                            0 <= i < vec.cap() * size ==> #[trigger] block.contents()[i] == 0
                        &&& vec.spec_allocator().log() == alloc.log().push(
                            Call::Allocate { layout: asked, zeroed: true, served: true },
                        )
                        &&& vec.spec_allocator().live() == alloc.live().insert(block.info())
                    }
                },
                Err(error) => {
                    &&& size > 0
                    &&& capacity > 0
                    &&& error.layout == asked
                    &&& exists|after: A| #[trigger]
                        after.log() == alloc.log().push(
                            Call::Allocate { layout: asked, zeroed: true, served: false },
                        ) && after.live() == alloc.live()
                },
            }
        }),
{
    let size = size_of::<T>() as int;
    if let Ok(vec) = result {
        if size > 0 && capacity > 0 {
            growth::lemma_more_bytes(size, capacity as int, vec.cap() as int);
            laws::law_block_has_room(&vec);
            let block = vec.block()->0;
            assert forall|i: int| 0 <= i < vec.cap() * size implies
                #[trigger] block.contents()[i] == 0 by {
                assert(vec.bytes()[i] == 0);
            }
        }
    }
}

/// What `with_capacity` does: the buffer has exactly the capacity that is asked for, and is only
/// not to be had if the system heap, asked for the bytes of the array and what it takes to align
/// it, has refused them.
pub proof fn law_with_capacity<T>(
    capacity: usize,
    result: Result<RawVec<T, Global>, OutOfMemory>,
)
    requires
        capacity * size_of::<T>() <= isize::MAX,
        call_ensures(RawVec::<T, Global>::with_capacity, (capacity,), result),
    ensures
        ({
            let size = size_of::<T>() as int;
            let asked = Layout {
                size: (capacity * size) as usize,
                align: align_of::<T>() as usize,
            };
            match result {
                Ok(vec) => if size == 0 || capacity == 0 {
                    &&& vec.block() is None
                    &&& vec.cap() == 0
                    &&& vec.spec_allocator() == Global::unused()
                } else {
                    &&& vec.block() matches Some(block) && {
                        &&& block.info().layout == asked
                        &&& capacity * size <= block.info().len <= isize::MAX
                        &&& vec.cap() == block.info().len as int / size
                        &&& vec.cap() >= capacity
                        &&& vec.cap() == capacity
                        &&& block.info().len == capacity * size
                        &&& block.info().addr != 0
                        &&& block.info().addr as int % asked.align as int == 0
                        &&& block.contents().len() == block.info().len
                        &&& vec.spec_allocator().log() == Global::unused().log().push(
                            Call::Allocate { layout: asked, zeroed: false, served: true },
                        )
                        &&& vec.spec_allocator().live() == Global::unused().live().insert(
                            block.info(),
                        )
                    }
                },
                Err(error) => {
                    &&& size > 0
                    &&& capacity > 0
                    &&& error.layout == asked
                    &&& exists|empty: &mut Vec<u8>, answer: Result<(), HeapRefusal>|
                        {
                            &&& #[trigger] call_ensures(
                                Vec::<u8>::try_reserve,
                                (empty, (asked.size + asked.align - 1) as usize),
                                answer,
                            )
                            &&& (*empty)@.len() == 0
                            &&& answer is Err
                        }
                },
            }
        }),
{
    let size = size_of::<T>() as int;
    if let Ok(vec) = result {
        if size > 0 && capacity > 0 {
            growth::lemma_more_bytes(size, capacity as int, vec.cap() as int);
            laws::law_block_has_room(&vec);
            let block = vec.block()->0;
            if false {
                assert forall|i: int| 0 <= i < vec.cap() * size implies
                    #[trigger] block.contents()[i] == 0 by {
                    assert(vec.bytes()[i] == 0);
                }
            }
        }
    }
}

/// What `with_capacity_zeroed` does: as `with_capacity`, and every byte is zero.
pub proof fn law_with_capacity_zeroed<T>(
    capacity: usize,
    result: Result<RawVec<T, Global>, OutOfMemory>,
)
    requires
        capacity * size_of::<T>() <= isize::MAX,
        call_ensures(RawVec::<T, Global>::with_capacity_zeroed, (capacity,), result),
    ensures
        ({
            let size = size_of::<T>() as int;
            let asked = Layout {
                size: (capacity * size) as usize,
                align: align_of::<T>() as usize,
            };
            match result {
                Ok(vec) => if size == 0 || capacity == 0 {
                    &&& vec.block() is None
                    &&& vec.cap() == 0
                    &&& vec.spec_allocator() == Global::unused()
                } else {
                    &&& vec.block() matches Some(block) && {
                        &&& block.info().layout == asked
                        &&& capacity * size <= block.info().len <= isize::MAX
                        &&& vec.cap() == block.info().len as int / size
                        &&& vec.cap() >= capacity
                        &&& vec.cap() == capacity
                        &&& block.info().len == capacity * size
                        &&& block.info().addr != 0
                        &&& block.info().addr as int % asked.align as int == 0
                        &&& block.contents().len() == block.info().len
                        &&& forall|i: int|
                            0 <= i < vec.cap() * size ==> #[trigger] block.contents()[i] == 0
                        &&& vec.spec_allocator().log() == Global::unused().log().push(
                            Call::Allocate { layout: asked, zeroed: true, served: true },
                        )
                        &&& vec.spec_allocator().live() == Global::unused().live().insert(
                            block.info(),
                        )
                    }
                },
                Err(error) => {
                    &&& size > 0
                    &&& capacity > 0
                    &&& error.layout == asked
                    &&& exists|empty: &mut Vec<u8>, answer: Result<(), HeapRefusal>|
                        {
                            &&& #[trigger] call_ensures(
                                Vec::<u8>::try_reserve,
                                (empty, (asked.size + asked.align - 1) as usize),
                                answer,
                            )
                            &&& (*empty)@.len() == 0
                            &&& answer is Err
                        }
                },
            }
        }),
{
    let size = size_of::<T>() as int;
    if let Ok(vec) = result {
        if size > 0 && capacity > 0 {
            growth::lemma_more_bytes(size, capacity as int, vec.cap() as int);
            laws::law_block_has_room(&vec);
            let block = vec.block()->0;
            assert forall|i: int| 0 <= i < vec.cap() * size implies
                #[trigger] block.contents()[i] == 0 by {
                assert(vec.bytes()[i] == 0);
            }
        }
    }
}

/// What a request to the system heap for a block does: it asks for the bytes of the block and what
/// it takes to align it, and fails exactly if these are refused. The block's address is that of its
/// first byte: the address of the vector that it lies in, and the bytes before it. So it lies
/// within the memory of that vector.
pub proof fn law_heap_allocate(
    heap: &mut Global,
    layout: Layout,
    memory: Result<HeapBlock, AllocErr>,
)
    requires
        call_ensures(<Global as AllocRef>::allocate, (heap, layout), memory),
    ensures
        exists|empty: &mut Vec<u8>, answer: Result<(), HeapRefusal>|
            {
                &&& #[trigger] call_ensures(
                    Vec::<u8>::try_reserve,
                    (empty, (layout.size + layout.align - 1) as usize),
                    answer,
                )
                &&& (*empty)@.len() == 0
                &&& answer is Ok <==> memory is Ok
            },
        memory matches Ok(block) ==> {
            &&& block.storage()@.len() == layout.size + layout.align - 1
            &&& block.info().len == layout.size
            &&& block.contents() == block.storage()@.subrange(
                block.offset() as int,
                block.offset() + layout.size,
            )
            &&& exists|base: usize|
                {
                    &&& #[trigger] heap::lies_at(block.storage(), base)
                    &&& block.info().addr == base + block.offset()
                    &&& base <= block.info().addr
                    &&& block.info().addr + block.info().len <= base + block.storage()@.len()
                }
        },
{
}

/// What a request to the system heap for a zeroed block does: the same, and see
/// `law_heap_is_zeroed`.
pub proof fn law_heap_allocate_zeroed(
    heap: &mut Global,
    layout: Layout,
    memory: Result<HeapBlock, AllocErr>,
)
    requires
        call_ensures(<Global as AllocRef>::allocate_zeroed, (heap, layout), memory),
    ensures
        exists|empty: &mut Vec<u8>, answer: Result<(), HeapRefusal>|
            {
                &&& #[trigger] call_ensures(
                    Vec::<u8>::try_reserve,
                    (empty, (layout.size + layout.align - 1) as usize),
                    answer,
                )
                &&& (*empty)@.len() == 0
                &&& answer is Ok <==> memory is Ok
            },
        memory matches Ok(block) ==> {
            &&& block.storage()@.len() == layout.size + layout.align - 1
            &&& block.info().len == layout.size
            &&& block.contents() == block.storage()@.subrange(
                block.offset() as int,
                block.offset() + layout.size,
            )
            &&& exists|base: usize|
                {
                    &&& #[trigger] heap::lies_at(block.storage(), base)
                    &&& block.info().addr == base + block.offset()
                    &&& base <= block.info().addr
                    &&& block.info().addr + block.info().len <= base + block.storage()@.len()
                }
        },
{
}

/// What a request to the system heap for a larger block does: it fails exactly if the heap refuses
/// the bytes of the new block. If it succeeds, the vector of the old block has been freed, and the
/// new block stands at its address within a vector of its own.
pub proof fn law_heap_grow(
    heap: &mut Global,
    block: &mut HeapBlock,
    old_layout: Layout,
    new_layout: Layout,
    memory: Result<(), AllocErr>,
)
    requires
        call_ensures(<Global as AllocRef>::grow, (heap, block, old_layout, new_layout), memory),
    ensures
        exists|empty: &mut Vec<u8>, answer: Result<(), HeapRefusal>|
            {
                &&& #[trigger] call_ensures(
                    Vec::<u8>::try_reserve,
                    (empty, (new_layout.size + new_layout.align - 1) as usize),
                    answer,
                )
                &&& (*empty)@.len() == 0
                &&& answer is Ok <==> memory is Ok
            },
        memory is Ok ==> {
            &&& call_ensures(Result::<(), Vec<u8>>::ok, (Err(old(block).storage()),), None)
            &&& final(block).info().len == new_layout.size
            &&& final(block).contents().len() == new_layout.size
            &&& exists|storage: Vec<u8>, base: usize|
                {
                    &&& #[trigger] heap::lies_at(storage, base)
                    &&& storage@.len() == new_layout.size + new_layout.align - 1
                    &&& final(block).storage()@.len() == storage@.len()
                    &&& final(block).info().addr == base + final(block).offset()
                    &&& final(block).info().addr + new_layout.size <= base + storage@.len()
                }
        },
        memory is Err ==> {
            &&& final(block).info() == old(block).info()
            &&& final(block).contents() == old(block).contents()
        },
{
}

/// What a request to the system heap for a smaller block does: it fails exactly if the heap refuses
/// the bytes of the new block. If it succeeds, the vector of the old block has been freed, and the
/// new block stands at its address within a vector of its own.
pub proof fn law_heap_shrink(
    heap: &mut Global,
    block: &mut HeapBlock,
    old_layout: Layout,
    new_layout: Layout,
    memory: Result<(), AllocErr>,
)
    requires
        call_ensures(<Global as AllocRef>::shrink, (heap, block, old_layout, new_layout), memory),
    ensures
        exists|empty: &mut Vec<u8>, answer: Result<(), HeapRefusal>|
            {
                &&& #[trigger] call_ensures(
                    Vec::<u8>::try_reserve,
                    (empty, (new_layout.size + new_layout.align - 1) as usize),
                    answer,
                )
                &&& (*empty)@.len() == 0
                &&& answer is Ok <==> memory is Ok
            },
        memory is Ok ==> {
            &&& call_ensures(Result::<(), Vec<u8>>::ok, (Err(old(block).storage()),), None)
            &&& final(block).info().len == new_layout.size
            &&& final(block).contents().len() == new_layout.size
            &&& exists|storage: Vec<u8>, base: usize|
                {
                    &&& #[trigger] heap::lies_at(storage, base)
                    &&& storage@.len() == new_layout.size + new_layout.align - 1
                    &&& final(block).storage()@.len() == storage@.len()
                    &&& final(block).info().addr == base + final(block).offset()
                    &&& final(block).info().addr + new_layout.size <= base + storage@.len()
                }
        },
        memory is Err ==> {
            &&& final(block).info() == old(block).info()
            &&& final(block).contents() == old(block).contents()
        },
{
}

/// A zeroed block of the system heap holds nothing but zeros.
pub proof fn law_heap_is_zeroed(
    heap: &mut Global,
    layout: Layout,
    block: HeapBlock,
    offset: usize,
    byte: u8,
)
    requires
        call_ensures(<Global as AllocRef>::allocate_zeroed, (heap, layout), Ok(block)),
        call_ensures(<HeapBlock as MemoryBlock>::read, (&block, offset), byte),
        offset < layout.size,
    ensures
        byte == 0,
{
}

/// A block leaves the blocks that the system heap has handed out only as its memory is freed: the
/// vector that it lies in has been handed, once, to the operation that discards it.
pub proof fn law_heap_deallocate(heap: &mut Global, block: HeapBlock, layout: Layout)
    requires
        call_ensures(<Global as AllocRef>::deallocate, (heap, block, layout), ()),
    ensures
        call_ensures(Result::<(), Vec<u8>>::ok, (Err(block.storage()),), None),
        final(heap).live() == old(heap).live().remove(block.info()),
{
}

/// Dropping a buffer on the system heap, or shrinking it to nothing, frees the memory that its
/// block lies in.
pub proof fn law_drop_frees<T>(vec: &mut RawVec<T, Global>, result: Result<(), OutOfMemory>)
    requires
        (*vec).wf(),
        call_ensures(RawVec::<T, Global>::drop, (vec,), ()) || call_ensures(
            RawVec::<T, Global>::shrink_to_fit,
            (vec, 0usize),
            result,
        ),
    ensures
        old(vec).block() matches Some(block) ==> call_ensures(
            Result::<(), Vec<u8>>::ok,
            (Err(block.storage()),),
            None,
        ),
        final(vec).block() is None,
{
}

/// On the system heap, `try_reserve` reports that the allocator failed only if the heap has refused
/// the bytes of the array that is reported and what it takes to align it; and where it moves the
/// elements to a new block, the memory that the old one lies in is freed.
pub proof fn law_try_reserve_on_the_heap<T>(
    vec: &mut RawVec<T, Global>,
    len: usize,
    additional: usize,
    result: Result<(), TryReserveError>,
)
    requires
        (*vec).wf(),
        call_ensures(RawVec::<T, Global>::try_reserve, (vec, len, additional), result),
    ensures
        result matches Err(TryReserveError::AllocError { layout }) ==> exists|
            empty: &mut Vec<u8>,
            answer: Result<(), HeapRefusal>,
        |
            {
                &&& #[trigger] call_ensures(
                    Vec::<u8>::try_reserve,
                    (empty, (layout.size + layout.align - 1) as usize),
                    answer,
                )
                &&& (*empty)@.len() == 0
                &&& answer is Err
            },
        result is Ok && *final(vec) != *old(vec) ==> (old(vec).block() matches Some(block)
            ==> call_ensures(Result::<(), Vec<u8>>::ok, (Err(block.storage()),), None)),
{
    if let Err(TryReserveError::AllocError { layout }) = result {
        assert(Global::may_refuse(layout));
    }
}

/// On the system heap, `try_reserve_exact` reports that the allocator failed only if the heap has
/// refused the bytes of the array that is reported and what it takes to align it; and where it
/// moves the elements to a new block, the memory that the old one lies in is freed.
pub proof fn law_try_reserve_exact_on_the_heap<T>(
    vec: &mut RawVec<T, Global>,
    len: usize,
    additional: usize,
    result: Result<(), TryReserveError>,
)
    requires
        (*vec).wf(),
        call_ensures(RawVec::<T, Global>::try_reserve_exact, (vec, len, additional), result),
    ensures
        result matches Err(TryReserveError::AllocError { layout }) ==> exists|
            empty: &mut Vec<u8>,
            answer: Result<(), HeapRefusal>,
        |
            {
                &&& #[trigger] call_ensures(
                    Vec::<u8>::try_reserve,
                    (empty, (layout.size + layout.align - 1) as usize),
                    answer,
                )
                &&& (*empty)@.len() == 0
                &&& answer is Err
            },
        result is Ok && *final(vec) != *old(vec) ==> (old(vec).block() matches Some(block)
            ==> call_ensures(Result::<(), Vec<u8>>::ok, (Err(block.storage()),), None)),
{
    if let Err(TryReserveError::AllocError { layout }) = result {
        assert(Global::may_refuse(layout));
    }
}

/// On the system heap, `shrink_to_fit` fails only if the heap has refused the bytes of the smaller
/// array and what it takes to align it; and where it succeeds, the memory that the old block lies
/// in is freed.
pub proof fn law_shrink_to_fit_on_the_heap<T>(
    vec: &mut RawVec<T, Global>,
    amount: usize,
    result: Result<(), OutOfMemory>,
)
    requires
        (*vec).wf(),
        call_ensures(RawVec::<T, Global>::shrink_to_fit, (vec, amount), result),
    ensures
        result matches Err(error) ==> exists|
            empty: &mut Vec<u8>,
            answer: Result<(), HeapRefusal>,
        |
            {
                &&& #[trigger] call_ensures(
                    Vec::<u8>::try_reserve,
                    (empty, (error.layout.size + error.layout.align - 1) as usize),
                    answer,
                )
                &&& (*empty)@.len() == 0
                &&& answer is Err
            },
        result is Ok ==> (old(vec).block() matches Some(block) ==> call_ensures(
            Result::<(), Vec<u8>>::ok,
            (Err(block.storage()),),
            None,
        )),
{
}

/// What is written to a block is read back, and every other byte stays what it was.
pub proof fn law_write_is_read_back<B: MemoryBlock>(
    block: &mut B,
    offset: usize,
    byte: u8,
    other: usize,
    before: u8,
    after: u8,
)
    requires
        offset < (*block).contents().len(),
        other < (*block).contents().len(),
        call_ensures(B::write, (block, offset, byte), ()),
        call_ensures(B::read, (&*block, other), before),
        call_ensures(B::read, (&*final(block), other), after),
    ensures
        after == if other == offset {
            byte
        } else {
            before
        },
{
}

/// Every byte of the elements that a buffer has room for reads the same after a request for more
/// room as before.
pub proof fn law_reserve_reads_the_same<T, A: AllocRef>(
    vec: &mut RawVec<T, A>,
    len: usize,
    additional: usize,
    result: Result<(), TryReserveError>,
    old_block: A::Block,
    block: A::Block,
    offset: usize,
    before: u8,
    after: u8,
)
    requires
        (*vec).wf(),
        call_ensures(RawVec::<T, A>::try_reserve, (vec, len, additional), result) || call_ensures(
            RawVec::<T, A>::try_reserve_exact,
            (vec, len, additional),
            result,
        ),
        (*vec).block() == Some(old_block),
        final(vec).block() == Some(block),
        offset < (*vec).cap() * size_of::<T>(),
        call_ensures(<A::Block as MemoryBlock>::read, (&old_block, offset), before),
        call_ensures(<A::Block as MemoryBlock>::read, (&block, offset), after),
    ensures
        before == after,
{
    laws::law_reserve_keeps_contents(&*vec, &*final(vec), len, additional, result);
    lemma_kept(&*vec, &*final(vec));
}

/// The capacity is `usize::MAX` for elements of size zero, and else what the buffer uses its block
/// for; the address is that of the block, or, without one, the alignment of an element.
pub proof fn law_capacity_and_ptr<T, A: AllocRef>(vec: RawVec<T, A>, capacity: usize, addr: usize)
    requires
        vec.wf(),
        call_ensures(RawVec::<T, A>::capacity, (&vec,), capacity),
        call_ensures(RawVec::<T, A>::ptr, (&vec,), addr),
    ensures
        size_of::<T>() == 0 ==> capacity == usize::MAX && addr == align_of::<T>(),
        size_of::<T>() > 0 ==> capacity == vec.cap() && capacity * size_of::<T>() <= isize::MAX,
        capacity == 0 ==> addr == align_of::<T>(),
        capacity > 0 && size_of::<T>() > 0 ==> (vec.block() matches Some(block) && {
            &&& addr == block.info().addr
            &&& block.info().layout.size <= capacity * size_of::<T>() <= block.info().len
        }),
        addr != 0,
        addr as int % align_of::<T>() as int == 0,
{
    if size_of::<T>() > 0 {
        growth::lemma_more_bytes(size_of::<T>() as int, 0, capacity as int);
    }
}

/// The layout of an array is the size of an element, as many times as there are elements, and the
/// alignment of an element; there is none beyond `isize::MAX` bytes.
pub proof fn law_layout_of_an_array<T>(count: usize, result: Result<Layout, LayoutErr>)
    requires
        call_ensures(Layout::array::<T>, (count,), result),
    ensures
        result is Ok <==> count * size_of::<T>() <= isize::MAX,
        result matches Ok(layout) ==> layout.size == count * size_of::<T>() && layout.align
            == align_of::<T>(),
{
}

/// Turning a buffer into an owned slice and back keeps its block, its address and its allocator;
/// the capacity is then the length of the slice, unless the elements have size zero.
pub proof fn law_into_box_and_from_box<T, A: AllocRef>(
    vec: RawVec<T, A>,
    len: usize,
    slice: BoxedSlice<T, A>,
    back: RawVec<T, A>,
    before: usize,
    addr: usize,
    back_capacity: usize,
    back_addr: usize,
)
    requires
        vec.wf(),
        len <= before,
        vec.block() matches Some(block) ==> block.info().layout.size <= len * size_of::<T>(),
        call_ensures(RawVec::<T, A>::capacity, (&vec,), before),
        call_ensures(RawVec::<T, A>::ptr, (&vec,), addr),
        call_ensures(RawVec::<T, A>::into_box, (vec, len), slice),
        call_ensures(RawVec::<T, A>::from_box, (slice,), back),
        call_ensures(RawVec::<T, A>::capacity, (&back,), back_capacity),
        call_ensures(RawVec::<T, A>::ptr, (&back,), back_addr),
    ensures
        back.block() == vec.block(),
        back.spec_allocator() == vec.spec_allocator(),
        back_addr == addr,
        back_capacity == if size_of::<T>() == 0 {
            usize::MAX
        } else {
            len
        },
{
}

/// Taking a buffer apart and putting it together again keeps its block, its capacity and its
/// allocator.
pub proof fn law_raw_parts<T, A: AllocRef>(
    vec: RawVec<T, A>,
    parts: (Option<A::Block>, usize, A),
    back: RawVec<T, A>,
    before: usize,
    after: usize,
)
    requires
        vec.wf(),
        call_ensures(RawVec::<T, A>::into_raw_parts, (vec,), parts),
        call_ensures(RawVec::<T, A>::from_raw_parts_in, parts, back),
        call_ensures(RawVec::<T, A>::capacity, (&vec,), before),
        call_ensures(RawVec::<T, A>::capacity, (&back,), after),
    ensures
        back.block() == vec.block(),
        back.spec_allocator() == vec.spec_allocator(),
        after == before,
{
}

/// A new buffer has no capacity, or `usize::MAX` for elements of size zero; its address is the
/// alignment of an element; and nothing has been asked of its allocator.
pub proof fn law_new<T, A: AllocRef>(
    alloc: A,
    vec: RawVec<T, A>,
    global_vec: RawVec<T, Global>,
    capacity: usize,
    addr: usize,
)
    requires
        call_ensures(RawVec::<T, A>::new_in, (alloc,), vec),
        call_ensures(RawVec::<T, Global>::new, (), global_vec),
        call_ensures(RawVec::<T, A>::capacity, (&vec,), capacity),
        call_ensures(RawVec::<T, A>::ptr, (&vec,), addr),
    ensures
        capacity == if size_of::<T>() == 0 {
            usize::MAX
        } else {
            0
        },
        addr == align_of::<T>(),
        vec.block() is None,
        vec.spec_allocator() == alloc,
        global_vec.block() is None,
        global_vec.cap() == 0,
        global_vec.spec_allocator().log() == Seq::<Call>::empty(),
{
    Global::lemma_unused();
}

/// A granted block becomes the buffer, with as many elements as the block has room for, and a
/// refusal becomes an error that names what was asked for.
pub proof fn law_from_answer<T, A: AllocRef>(
    memory: Result<A::Block, AllocErr>,
    capacity: usize,
    alloc: A,
    result: Result<RawVec<T, A>, TryReserveError>,
)
    requires
        size_of::<T>() > 0,
        capacity > 0,
        capacity * size_of::<T>() <= isize::MAX,
        call_ensures(RawVec::<T, A>::from_answer, (memory, capacity, alloc), result),
    ensures
        match memory {
            Ok(block) => result matches Ok(vec) && {
                &&& vec.block() == Some(block)
                &&& vec.cap() == block.info().len as int / size_of::<T>() as int
                &&& vec.spec_allocator() == alloc
            },
            Err(_) => result == Err::<RawVec<T, A>, TryReserveError>(
                TryReserveError::AllocError {
                    layout: Layout {
                        size: (capacity * size_of::<T>()) as usize,
                        align: align_of::<T>() as usize,
                    },
                },
            ),
        },
{
}

/// An owned slice has the length that it was made with, and the address of the buffer.
pub proof fn law_into_box_keeps_the_address<T, A: AllocRef>(
    vec: RawVec<T, A>,
    len: usize,
    slice: BoxedSlice<T, A>,
    addr: usize,
    slice_addr: usize,
    slice_len: usize,
)
    requires
        vec.wf(),
        call_ensures(RawVec::<T, A>::into_box, (vec, len), slice),
        call_ensures(RawVec::<T, A>::ptr, (&vec,), addr),
        call_ensures(BoxedSlice::<T, A>::ptr, (&slice,), slice_addr),
        call_ensures(BoxedSlice::<T, A>::len, (&slice,), slice_len),
    ensures
        slice_addr == addr,
        slice_len == len,
{
}

} // verus!
