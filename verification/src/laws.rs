use crate::allocator::{AllocRef, MemoryBlock};
use crate::boxed::BoxedSlice;
use crate::error::{OutOfMemory, TryReserveError};
use crate::growth;
use crate::growth::Plan;
use crate::layout;
use crate::raw_vec;
use crate::raw_vec::{AllocInit, RawVec};
use vstd::arithmetic::logarithm;
use vstd::arithmetic::power2;
use vstd::prelude::*;

verus! {

/// A request as one can be made: of a buffer whose bytes stay within the limit, with numbers that
/// a `usize` can hold.
pub open spec fn request(elem_size: int, capacity: int, len: int, additional: int) -> bool {
    &&& 0 <= elem_size
    &&& 0 <= capacity <= usize::MAX
    &&& 0 <= len <= usize::MAX
    &&& 0 <= additional <= usize::MAX
    &&& elem_size == 0 ==> capacity == usize::MAX
    &&& growth::within_limit(elem_size, capacity)
}

/// As long as the length does not exceed the capacity, a buffer stays as it is exactly if it has
/// the room already.
pub proof fn law_no_needless_growth(elem_size: int, capacity: int, len: int, additional: int)
    requires
        request(elem_size, capacity, len, additional),
        len <= capacity,
    ensures
        growth::amortized_plan(elem_size, capacity, len, additional) is Stay <==> len + additional
            <= capacity,
        growth::exact_plan(elem_size, capacity, len, additional) is Stay <==> len + additional
            <= capacity,
{
}

/// A length beyond the capacity never leads to a reallocation.
pub proof fn law_length_beyond_capacity(elem_size: int, capacity: int, len: int, additional: int)
    requires
        request(elem_size, capacity, len, additional),
        len > capacity,
    ensures
        growth::amortized_plan(elem_size, capacity, len, additional) !is Grow,
        growth::exact_plan(elem_size, capacity, len, additional) !is Grow,
{
    if elem_size > 0 {
        growth::lemma_more_bytes(elem_size, 0, len + additional);
    }
}

/// Slack never makes a request fail: with and without it, an overflow is reported exactly if the
/// elements that are asked for exceed `isize::MAX` bytes, or have size zero.
pub proof fn law_slack_is_no_reason_to_fail(
    elem_size: int,
    capacity: int,
    len: int,
    additional: int,
)
    requires
        request(elem_size, capacity, len, additional),
    ensures
        growth::amortized_plan(elem_size, capacity, len, additional) is Overflow
            <==> growth::exact_plan(elem_size, capacity, len, additional) is Overflow,
        growth::exact_plan(elem_size, capacity, len, additional) is Overflow
            <==> growth::needs_to_grow(capacity, len, additional) && (elem_size == 0 || (len
            + additional) * elem_size > isize::MAX),
{
}

/// As long as the length does not exceed the capacity, every request whose number of elements, or
/// whose size in bytes, cannot be had is reported as an overflow.
pub proof fn law_overflows_are_caught(elem_size: int, capacity: int, len: int, additional: int)
    requires
        request(elem_size, capacity, len, additional),
        len <= capacity,
        len + additional > usize::MAX || (len + additional) * elem_size > isize::MAX,
    ensures
        growth::amortized_plan(elem_size, capacity, len, additional) is Overflow,
        growth::exact_plan(elem_size, capacity, len, additional) is Overflow,
{
    if elem_size > 0 {
        growth::lemma_more_bytes(elem_size, 0, len + additional);
        if len + additional <= capacity {
            growth::lemma_more_bytes(elem_size, len + additional, capacity);
        }
    }
}

/// What is asked of the allocator has at least one element, has room for all that was asked for,
/// is larger than the buffer was, and stays within `isize::MAX` bytes.
pub proof fn law_growth_makes_room(elem_size: int, capacity: int, len: int, additional: int)
    requires
        request(elem_size, capacity, len, additional),
    ensures
        growth::amortized_plan(elem_size, capacity, len, additional) matches Plan::Grow {
            capacity: asked,
        } ==> {
            &&& len <= capacity < len + additional <= asked
            &&& growth::within_limit(elem_size, asked)
        },
        growth::exact_plan(elem_size, capacity, len, additional) matches Plan::Grow {
            capacity: asked,
        } ==> {
            &&& len <= capacity < len + additional == asked
            &&& growth::within_limit(elem_size, asked)
        },
{
    if elem_size > 0 {
        growth::lemma_more_bytes(elem_size, 0, len + additional);
    }
}

/// Making the same room twice changes nothing the second time: whatever capacity the allocator
/// grants from what was asked for upwards, the request then finds the room that it needs.
pub proof fn law_second_request_finds_room(
    elem_size: int,
    capacity: int,
    len: int,
    additional: int,
    granted: int,
)
    requires
        request(elem_size, capacity, len, additional),
        growth::exact_plan(elem_size, capacity, len, additional) is Grow,
        growth::exact_plan(elem_size, capacity, len, additional)->capacity <= granted,
    ensures
        growth::amortized_plan(elem_size, granted, len, additional) is Stay,
        growth::exact_plan(elem_size, granted, len, additional) is Stay,
{
    law_growth_makes_room(elem_size, capacity, len, additional);
}

/// Without slack, the buffer asks for the smallest capacity that has the room; with slack, for at
/// least as much.
pub proof fn law_exact_is_smallest(
    elem_size: int,
    capacity: int,
    len: int,
    additional: int,
    other: int,
)
    requires
        request(elem_size, capacity, len, additional),
        growth::exact_plan(elem_size, capacity, len, additional) is Grow,
        len <= other,
        !growth::needs_to_grow(other, len, additional),
    ensures
        growth::exact_plan(elem_size, capacity, len, additional)->capacity <= other,
        growth::amortized_plan(elem_size, capacity, len, additional) is Grow,
        growth::exact_plan(elem_size, capacity, len, additional)->capacity
            <= growth::amortized_plan(elem_size, capacity, len, additional)->capacity,
{
}

/// Growth with slack at least doubles the capacity, and never asks for less than the smallest
/// capacity that is worth it, unless that alone would exceed `isize::MAX` bytes.
pub proof fn law_exponential_growth(elem_size: int, capacity: int, len: int, additional: int)
    requires
        request(elem_size, capacity, len, additional),
    ensures
        growth::amortized_plan(elem_size, capacity, len, additional) matches Plan::Grow {
            capacity: asked,
        } ==> {
            ||| asked >= 2 * capacity && asked >= growth::min_non_zero_cap(elem_size)
            ||| asked == len + additional && !growth::within_limit(
                elem_size,
                growth::larger(2 * capacity, growth::min_non_zero_cap(elem_size)),
            )
        },
{
    law_growth_makes_room(elem_size, capacity, len, additional);
}

/// The capacity of a buffer, and the number of elements that were moved from one block to another
/// along the way, after `pushes` elements have been added one by one to an empty buffer with slack.
/// `excess` says how much more than it was asked for the allocator grants at each growth.
pub open spec fn after_pushes(elem_size: int, pushes: nat, excess: spec_fn(nat) -> nat) -> (
    int,
    int,
)
    decreases pushes,
{
    if pushes == 0 {
        (0, 0)
    } else {
        let len = (pushes - 1) as nat;
        let (capacity, moved) = after_pushes(elem_size, len, excess);
        match growth::amortized_plan(elem_size, capacity, len as int, 1) {
            Plan::Grow { capacity: asked } => (asked + excess(pushes), moved + capacity),
            _ => (capacity, moved),
        }
    }
}

/// Adding elements one by one takes amortized constant time: at most two moves per element,
/// whatever excess the allocator grants, as long as doubling stays within the limit.
pub proof fn law_pushes_take_amortized_constant_time(
    elem_size: int,
    pushes: nat,
    excess: spec_fn(nat) -> nat,
)
    requires
        elem_size > 0,
        growth::within_limit(elem_size, pushes as int),
        growth::within_limit(elem_size, 2 * (pushes - 1)),
    ensures
        after_pushes(elem_size, pushes, excess).0 >= pushes,
        after_pushes(elem_size, pushes, excess).1 <= 2 * pushes,
{
    lemma_pushes(elem_size, pushes, excess);
}

proof fn lemma_pushes(elem_size: int, pushes: nat, excess: spec_fn(nat) -> nat)
    requires
        elem_size > 0,
        growth::within_limit(elem_size, pushes as int),
        growth::within_limit(elem_size, 2 * (pushes - 1)),
    ensures
        after_pushes(elem_size, pushes, excess).0 >= pushes,
        after_pushes(elem_size, pushes, excess).1 <= after_pushes(elem_size, pushes, excess).0,
        0 <= after_pushes(elem_size, pushes, excess).1 <= 2 * pushes,
    decreases pushes,
{
    if pushes > 0 {
        let len = (pushes - 1) as nat;
        growth::lemma_more_bytes(elem_size, len as int, pushes as int);
        if len > 0 {
            growth::lemma_more_bytes(elem_size, 2 * (len - 1), 2 * (pushes - 1));
        } else {
            assert(2 * (len - 1) * elem_size <= 0) by (nonlinear_arith)
                requires
                    len == 0,
                    elem_size > 0,
            ;
        }
        lemma_pushes(elem_size, len, excess);
        let (capacity, moved) = after_pushes(elem_size, len, excess);
        if capacity == len {
            lemma_slack_fits(elem_size, capacity, pushes as int);
        }
    }
}

/// The slack stays within the limit if twice the capacity does.
proof fn lemma_slack_fits(elem_size: int, capacity: int, required: int)
    requires
        elem_size > 0,
        0 <= capacity,
        0 < required,
        growth::within_limit(elem_size, required),
        growth::within_limit(elem_size, 2 * capacity),
    ensures
        growth::within_limit(elem_size, growth::with_slack(elem_size, capacity, required)),
{
    if elem_size <= 1024 {
        assert(growth::min_non_zero_cap(elem_size) * elem_size <= 4096) by (nonlinear_arith)
            requires
                0 < elem_size <= 1024,
                elem_size == 1 ==> growth::min_non_zero_cap(elem_size) == 8,
                elem_size > 1 ==> growth::min_non_zero_cap(elem_size) == 4,
        ;
    }
}

/// A request with slack that makes a buffer grow at least doubles its capacity, if twice the
/// capacity stays within `isize::MAX` bytes.
pub proof fn law_reserve_doubles<T, A: AllocRef>(
    before: &RawVec<T, A>,
    after: &RawVec<T, A>,
    len: usize,
    additional: usize,
    result: Result<(), TryReserveError>,
)
    requires
        before.wf(),
        RawVec::<T, A>::elem_size() > 0,
        len <= before.spec_capacity() < len + additional,
        after.follows(before, before.amortized_plan(len, additional), result),
        result is Ok,
        layout::array_fits::<T>(2 * before.spec_capacity()),
    ensures
        after.spec_capacity() >= 2 * before.spec_capacity(),
{
    let elem_size = RawVec::<T, A>::elem_size() as int;
    let capacity = before.spec_capacity() as int;
    if growth::within_limit(elem_size, len + additional) {
        lemma_slack_fits(elem_size, capacity, len + additional);
    }
}

/// The life of a buffer to which elements are added one by one: `life` holds it at first, when it
/// has no capacity, unless its elements have size zero, and after room has been made, with slack,
/// for each element.
pub open spec fn pushed_to<T, A: AllocRef>(life: Seq<RawVec<T, A>>) -> bool {
    &&& life.len() > 0
    &&& life[0].wf()
    &&& life[0].cap() == 0
    &&& forall|i: int|
        0 < i < life.len() ==> (#[trigger] life[i]).follows(
            &life[i - 1],
            life[i - 1].amortized_plan((i - 1) as usize, 1),
            Ok(()),
        )
}

/// The number of requests that the allocator of a buffer has got between two states of it.
pub open spec fn calls_between<T, A: AllocRef>(before: RawVec<T, A>, after: RawVec<T, A>) -> int {
    after.spec_allocator().log().len() - before.spec_allocator().log().len()
}

/// Adding `n` elements one by one to an empty buffer makes at most `log2(n) + 2` requests to its
/// allocator, whatever excess that grants, as long as doubling stays within the limit; and none
/// if the elements have size zero.
pub proof fn law_pushes_make_few_calls<T, A: AllocRef>(life: Seq<RawVec<T, A>>)
    requires
        life.len() > 1,
        pushed_to(life),
        layout::array_fits::<T>(life.len() - 1),
        layout::array_fits::<T>(2 * (life.len() - 2)),
    ensures
        0 <= calls_between(life[0], life.last()) <= logarithm::log(2, life.len() - 1) + 2,
        RawVec::<T, A>::elem_size() == 0 ==> calls_between(life[0], life.last()) == 0,
        life.last().spec_capacity() >= life.len() - 1 || RawVec::<T, A>::elem_size() == 0,
{
    let pushes = life.len() - 1;
    lemma_calls(life);
    logarithm::lemma_log_nonnegative(2, pushes);
    let calls = calls_between(life[0], life.last());
    if calls >= 2 {
        let doublings = (calls - 2) as nat;
        power2::lemma_pow2(doublings);
        logarithm::lemma_log_pow(2, doublings);
        logarithm::lemma_log_is_ordered(2, power2::pow2(doublings) as int, pushes);
    }
}

proof fn lemma_calls<T, A: AllocRef>(life: Seq<RawVec<T, A>>)
    requires
        pushed_to(life),
        layout::array_fits::<T>(life.len() - 1),
        layout::array_fits::<T>(2 * (life.len() - 2)),
    ensures
        life.last().wf(),
        0 <= calls_between(life[0], life.last()),
        RawVec::<T, A>::elem_size() == 0 ==> calls_between(life[0], life.last()) == 0,
        RawVec::<T, A>::elem_size() > 0 ==> {
            let calls = calls_between(life[0], life.last());
            &&& life.last().cap() >= life.len() - 1
            &&& calls >= 1 ==> power2::pow2((calls - 1) as nat) <= life.last().cap()
            &&& calls >= 2 ==> power2::pow2((calls - 2) as nat) < life.len() - 1
        },
    decreases life.len(),
{
    if life.len() > 1 {
        let elem_size = RawVec::<T, A>::elem_size() as int;
        let pushes = life.len() - 1;
        let earlier = life.drop_last();
        assert forall|i: int| 0 < i < earlier.len() implies (#[trigger] earlier[i]).follows(
            &earlier[i - 1],
            earlier[i - 1].amortized_plan((i - 1) as usize, 1),
            Ok(()),
        ) by {
            assert(life[i].follows(
                &life[i - 1],
                life[i - 1].amortized_plan((i - 1) as usize, 1),
                Ok(()),
            ));
        }
        assert((pushes - 1) * elem_size <= pushes * elem_size && 2 * (pushes - 2) * elem_size <= 2
            * (pushes - 1) * elem_size) by (nonlinear_arith)
            requires
                0 <= elem_size,
        ;
        lemma_calls(earlier);
        let before = earlier.last();
        let after = life.last();
        assert(life[pushes].follows(
            &life[pushes - 1],
            life[pushes - 1].amortized_plan((pushes - 1) as usize, 1),
            Ok(()),
        ));
        if elem_size > 0 {
            growth::lemma_more_bytes(elem_size, 0, pushes);
            if before.cap() == pushes - 1 {
                lemma_slack_fits(elem_size, pushes - 1, pushes);
                power2::lemma_pow2(0);
                reveal(vstd::arithmetic::power::pow);
                let calls = calls_between(earlier[0], before);
                if calls >= 1 {
                    power2::lemma_pow2_unfold(calls as nat);
                }
            }
        }
    }
}

/// The capacity of a buffer takes up at most `isize::MAX` bytes, so it can be doubled without
/// overflow, unless the elements have size zero.
pub proof fn law_capacity_can_be_doubled<T, A: AllocRef>(vec: &RawVec<T, A>)
    requires
        vec.wf(),
        RawVec::<T, A>::elem_size() > 0,
    ensures
        layout::array_bytes::<T>(vec.spec_capacity() as int) <= isize::MAX,
        2 * vec.spec_capacity() <= usize::MAX,
{
    growth::lemma_more_bytes(RawVec::<T, A>::elem_size() as int, 0, vec.spec_capacity() as int);
}

/// A buffer holds no block, and its address is dangling, exactly if its capacity is zero or its
/// elements have size zero.
pub proof fn law_dangling<T, A: AllocRef>(vec: &RawVec<T, A>)
    requires
        vec.wf(),
    ensures
        vec.block() is None <==> RawVec::<T, A>::elem_size() == 0 || vec.spec_capacity() == 0,
        vec.block() is None ==> vec.spec_ptr() == RawVec::<T, A>::elem_align() as usize,
{
}

/// The block of a buffer has room for the elements of its whole capacity, may be given back, grown
/// or shrunk under the layout of an array with that capacity, and is one that the allocator has
/// handed out.
pub proof fn law_block_has_room<T, A: AllocRef>(vec: &RawVec<T, A>)
    requires
        vec.wf(),
    ensures
        vec.block() matches Some(block) ==> {
            &&& vec.bytes().len() == layout::array_bytes::<T>(vec.spec_capacity() as int)
            &&& vec.bytes().len() <= block.info().len
            &&& block.info().fits(layout::array_layout::<T>(vec.spec_capacity() as int))
            &&& vec.spec_allocator().live().contains(block.info())
        },
{
    if vec.block() is Some {
        growth::lemma_more_bytes(RawVec::<T, A>::elem_size() as int, 0, vec.spec_capacity() as int);
    }
}

/// As long as the capacity counts all that the block has room for, the layout that the block is
/// used under fits it, and leaves less than one element of it unused.
pub proof fn law_little_is_wasted<T, A: AllocRef>(vec: &RawVec<T, A>)
    requires
        vec.wf(),
        vec.uses_whole_block(),
    ensures
        vec.spec_current_memory() is Some <==> RawVec::<T, A>::elem_size() > 0
            && vec.spec_capacity() > 0,
        vec.spec_current_memory() matches Some((addr, layout)) ==> {
            let block = vec.block()->0.info();
            &&& addr == block.addr
            &&& layout.align == block.layout.align
            &&& block.layout.size <= layout.size <= block.len
            &&& block.len - layout.size < RawVec::<T, A>::elem_size()
        },
{
    if let Some(block) = vec.block() {
        let elem_size = RawVec::<T, A>::elem_size() as int;
        growth::lemma_more_bytes(elem_size, 0, vec.spec_capacity() as int);
        vstd::arithmetic::div_mod::lemma_fundamental_div_mod(block.info().len as int, elem_size);
        vstd::arithmetic::mul::lemma_mul_is_commutative(vec.spec_capacity() as int, elem_size);
    }
}

/// A new buffer takes at most one block from its allocator.
pub proof fn law_creation_takes_one_block<T, A: AllocRef>(
    vec: RawVec<T, A>,
    capacity: usize,
    init: AllocInit,
    alloc: A,
)
    requires
        RawVec::created(Ok(vec), capacity, init, alloc),
    ensures
        vec.wf(),
        vec.other_blocks() == alloc.live(),
{
    if vec.block() is Some {
        assert(alloc.live().insert(vec.block()->0.info()).remove(vec.block()->0.info())
            =~= alloc.live());
    }
}

/// A request for room, whether it succeeds or not, touches no block of the allocator but the
/// buffer's own: none is leaked, and none is given back that the buffer does not hold.
pub proof fn law_reserve_leaks_nothing<T, A: AllocRef>(
    before: &RawVec<T, A>,
    after: &RawVec<T, A>,
    len: usize,
    additional: usize,
    result: Result<(), TryReserveError>,
)
    requires
        before.wf(),
        reserved(before, after, len, additional, result),
    ensures
        after.wf(),
        after.other_blocks() == before.other_blocks(),
{
    lemma_replaced(before, after);
}

/// Shrinking, whether it succeeds or not, touches no block of the allocator but the buffer's own.
pub proof fn law_shrink_leaks_nothing<T, A: AllocRef>(
    before: &RawVec<T, A>,
    after: &RawVec<T, A>,
    amount: usize,
    result: Result<(), TryReserveError>,
)
    requires
        before.wf(),
        after.shrunk(before, amount, result),
    ensures
        after.wf(),
        after.other_blocks() == before.other_blocks(),
{
    lemma_replaced(before, after);
}

proof fn lemma_replaced<T, A: AllocRef>(before: &RawVec<T, A>, after: &RawVec<T, A>)
    ensures
        after.block() matches Some(block) ==> before.other_blocks().insert(block.info()).remove(
            block.info(),
        ) == before.other_blocks(),
{
    if let Some(block) = after.block() {
        assert(before.other_blocks().insert(block.info()).remove(block.info())
            =~= before.other_blocks());
    }
}

/// What `try_reserve` or `try_reserve_exact` does with a request.
pub open spec fn reserved<T, A: AllocRef>(
    before: &RawVec<T, A>,
    after: &RawVec<T, A>,
    len: usize,
    additional: usize,
    result: Result<(), TryReserveError>,
) -> bool {
    ||| after.follows(before, before.amortized_plan(len, additional), result)
    ||| after.follows(before, before.exact_plan(len, additional), result)
}

/// A request for room, whether it succeeds or not, keeps all bytes that the buffer has room for.
pub proof fn law_reserve_keeps_contents<T, A: AllocRef>(
    before: &RawVec<T, A>,
    after: &RawVec<T, A>,
    len: usize,
    additional: usize,
    result: Result<(), TryReserveError>,
)
    requires
        before.wf(),
        reserved(before, after, len, additional, result),
    ensures
        before.bytes().is_prefix_of(after.bytes()),
{
    let elem_size = RawVec::<T, A>::elem_size() as int;
    assert(before.bytes().take(before.bytes().len() as int) =~= before.bytes());
    if elem_size > 0 && result is Ok {
        law_capacity_can_be_doubled(before);
        law_growth_makes_room(
            elem_size,
            before.spec_capacity() as int,
            len as int,
            additional as int,
        );
        if before.spec_capacity() <= after.spec_capacity() {
            growth::lemma_more_bytes(
                elem_size,
                before.spec_capacity() as int,
                after.spec_capacity() as int,
            );
        }
    }
}

/// A request that succeeds leaves room for what was asked for, as long as the length does not
/// exceed the capacity.
pub proof fn law_reserve_makes_room<T, A: AllocRef>(
    before: &RawVec<T, A>,
    after: &RawVec<T, A>,
    len: usize,
    additional: usize,
    result: Result<(), TryReserveError>,
)
    requires
        before.wf(),
        reserved(before, after, len, additional, result),
        result is Ok,
        len <= before.spec_capacity(),
    ensures
        len + additional <= after.spec_capacity(),
        before.spec_capacity() <= after.spec_capacity(),
{
    let elem_size = RawVec::<T, A>::elem_size() as int;
    if elem_size > 0 {
        law_capacity_can_be_doubled(before);
        law_growth_makes_room(
            elem_size,
            before.spec_capacity() as int,
            len as int,
            additional as int,
        );
    }
}

/// A buffer for elements of size zero never changes and never asks anything of its allocator.
pub proof fn law_zero_sized_elements<T, A: AllocRef>(
    before: &RawVec<T, A>,
    after: &RawVec<T, A>,
    len: usize,
    additional: usize,
    amount: usize,
    result: Result<(), TryReserveError>,
)
    requires
        before.wf(),
        RawVec::<T, A>::elem_size() == 0,
        reserved(before, after, len, additional, result) || after.shrunk(before, amount, result),
    ensures
        *after == *before,
        after.spec_capacity() == usize::MAX,
{
}

/// A request, to grow or to shrink, that fails leaves the buffer with the address, the capacity and
/// the contents that it had.
pub proof fn law_failure_changes_nothing<T, A: AllocRef>(
    before: &RawVec<T, A>,
    after: &RawVec<T, A>,
    len: usize,
    additional: usize,
    amount: usize,
    result: Result<(), TryReserveError>,
)
    requires
        reserved(before, after, len, additional, result) || after.shrunk(before, amount, result),
        result is Err,
    ensures
        after.spec_ptr() == before.spec_ptr(),
        after.spec_capacity() == before.spec_capacity(),
        after.bytes() == before.bytes(),
{
}

/// Making the same room twice changes nothing the second time.
pub proof fn law_reserving_twice<T, A: AllocRef>(
    before: &RawVec<T, A>,
    after: &RawVec<T, A>,
    again: &RawVec<T, A>,
    len: usize,
    additional: usize,
    result: Result<(), TryReserveError>,
    second_result: Result<(), TryReserveError>,
)
    requires
        before.wf(),
        len <= before.spec_capacity(),
        reserved(before, after, len, additional, result),
        result is Ok,
        reserved(after, again, len, additional, second_result),
    ensures
        second_result is Ok,
        *again == *after,
{
    law_reserve_makes_room(before, after, len, additional, result);
}

/// Shrinking leaves room for the amount that was asked for, and takes none beyond it if the
/// allocator returns what it is asked for; the elements that remain keep their bytes.
pub proof fn law_shrink_keeps_amount<T, A: AllocRef>(
    before: &RawVec<T, A>,
    after: &RawVec<T, A>,
    amount: usize,
    result: Result<(), TryReserveError>,
)
    requires
        before.wf(),
        amount <= before.spec_capacity(),
        after.shrunk(before, amount, result),
        result is Ok,
    ensures
        after.spec_capacity() >= amount,
        RawVec::<T, A>::elem_size() > 0 && (A::exact() || amount == 0) ==> after.spec_capacity()
            == amount,
        before.block() is Some ==> before.bytes().take(
            layout::array_bytes::<T>(amount as int),
        ).is_prefix_of(after.bytes()),
{
    let kept = layout::array_bytes::<T>(amount as int);
    if before.block() is Some {
        let elem_size = RawVec::<T, A>::elem_size() as int;
        growth::lemma_more_bytes(elem_size, amount as int, before.spec_capacity() as int);
        growth::lemma_more_bytes(elem_size, amount as int, after.spec_capacity() as int);
    }
}

/// Dropping a buffer leaves its allocator with the blocks that are not the buffer's.
pub proof fn law_drop_gives_back<T, A: AllocRef>(before: &RawVec<T, A>, after: &RawVec<T, A>)
    requires
        before.wf(),
        after.dropped(before),
    ensures
        after.spec_allocator().live() == before.other_blocks(),
{
}

/// One step in the life of a buffer: a request for room, or for less of it.
pub open spec fn step<T, A: AllocRef>(before: &RawVec<T, A>, after: &RawVec<T, A>) -> bool {
    ||| exists|len: usize, additional: usize, result: Result<(), TryReserveError>|
        reserved(before, after, len, additional, result)
    ||| exists|amount: usize, result: Result<(), TryReserveError>|
        after.shrunk(before, amount, result)
}

/// What is taken is given back: after a buffer has been created, has gone through any number of
/// requests, served or not, and has been dropped, its allocator has handed out the same blocks as
/// before. `life` holds the buffer after its creation and after each request.
pub proof fn law_life_leaks_nothing<T, A: AllocRef>(
    capacity: usize,
    init: AllocInit,
    alloc: A,
    life: Seq<RawVec<T, A>>,
    end: &RawVec<T, A>,
)
    requires
        life.len() > 0,
        RawVec::created(Ok(life[0]), capacity, init, alloc),
        forall|i: int| 0 < i < life.len() ==> step(&life[i - 1], #[trigger] &life[i]),
        end.dropped(&life.last()),
    ensures
        end.spec_allocator().live() == alloc.live(),
{
    lemma_life(capacity, init, alloc, life);
}

proof fn lemma_life<T, A: AllocRef>(
    capacity: usize,
    init: AllocInit,
    alloc: A,
    life: Seq<RawVec<T, A>>,
)
    requires
        life.len() > 0,
        RawVec::created(Ok(life[0]), capacity, init, alloc),
        forall|i: int| 0 < i < life.len() ==> step(&life[i - 1], #[trigger] &life[i]),
    ensures
        life.last().wf(),
        life.last().other_blocks() == alloc.live(),
    decreases life.len(),
{
    if life.len() == 1 {
        law_creation_takes_one_block(life[0], capacity, init, alloc);
    } else {
        let earlier = life.drop_last();
        assert forall|i: int| 0 < i < earlier.len() implies step(
            &earlier[i - 1],
            #[trigger] &earlier[i],
        ) by {
            assert(step(&life[i - 1], &life[i]));
        }
        lemma_life(capacity, init, alloc, earlier);
        let before = earlier.last();
        let after = life.last();
        assert(step(&life[life.len() - 2], &life[life.len() - 1]));
        lemma_replaced(&before, &after);
    }
}

/// From its creation on, through any number of requests, served or not, a buffer uses all of its
/// block: the layout that it is used under always fits it, and leaves less than one element of it
/// unused. `life` holds the buffer after its creation and after each request.
pub proof fn law_life_wastes_little<T, A: AllocRef>(
    capacity: usize,
    init: AllocInit,
    alloc: A,
    life: Seq<RawVec<T, A>>,
)
    requires
        life.len() > 0,
        RawVec::created(Ok(life[0]), capacity, init, alloc),
        forall|i: int| 0 < i < life.len() ==> step(&life[i - 1], #[trigger] &life[i]),
    ensures
        life.last().wf(),
        life.last().uses_whole_block(),
        life.last().spec_current_memory() matches Some((_, layout)) ==> {
            let block = life.last().block()->0.info();
            &&& block.layout.size <= layout.size <= block.len
            &&& block.len - layout.size < RawVec::<T, A>::elem_size()
        },
    decreases life.len(),
{
    if life.len() > 1 {
        let earlier = life.drop_last();
        assert forall|i: int| 0 < i < earlier.len() implies step(
            &earlier[i - 1],
            #[trigger] &earlier[i],
        ) by {
            assert(step(&life[i - 1], &life[i]));
        }
        law_life_wastes_little(capacity, init, alloc, earlier);
        assert(step(&life[life.len() - 2], &life[life.len() - 1]));
    }
    law_little_is_wasted(&life.last());
}

/// Two buffers in the same state, whose allocators have got the same requests.
pub open spec fn same_state<T, A: AllocRef>(a: &RawVec<T, A>, b: &RawVec<T, A>) -> bool {
    &&& a.same_memory(b)
    &&& a.spec_allocator().log() == b.spec_allocator().log()
}

/// The allocators of two buffers behave equally: where the last request to both was the same, they
/// have both served it or both refused it, and where they served it, they have granted blocks at
/// the same place and of the same length.
pub open spec fn answer_alike<T, A: AllocRef>(a: &RawVec<T, A>, b: &RawVec<T, A>) -> bool {
    let a_log = a.spec_allocator().log();
    let b_log = b.spec_allocator().log();
    a_log.len() > 0 && b_log.len() > 0 && a_log.last().request() == b_log.last().request() ==> {
        &&& a_log.last().served() == b_log.last().served()
        &&& a_log.last().served() ==> match (a.block(), b.block()) {
            (Some(a_block), Some(b_block)) => a_block.info() == b_block.info(),
            (None, None) => true,
            _ => false,
        }
    }
}

/// What two requests have in common that come out the same: the capacity, the address, the blocks
/// that the allocators have handed out, and the requests that they have got.
pub open spec fn same_outcome<T, A: AllocRef>(a: &RawVec<T, A>, b: &RawVec<T, A>) -> bool {
    &&& a.spec_capacity() == b.spec_capacity()
    &&& a.spec_ptr() == b.spec_ptr()
    &&& a.spec_current_memory() == b.spec_current_memory()
    &&& a.spec_allocator().live() == b.spec_allocator().live()
    &&& a.spec_allocator().log() == b.spec_allocator().log()
}

/// `try_reserve` reports an overflow exactly where `reserve` must not be called. Everywhere else,
/// on buffers in the same state with allocators that behave equally, the two come out the same:
/// `try_reserve` succeeds exactly if `reserve` does, and else they report the same layout.
pub proof fn law_try_reserve_agrees<T, A: AllocRef>(
    a_before: &RawVec<T, A>,
    a_after: &RawVec<T, A>,
    a_result: Result<(), TryReserveError>,
    b_before: &RawVec<T, A>,
    b_after: &RawVec<T, A>,
    b_result: Result<(), OutOfMemory>,
    len: usize,
    additional: usize,
)
    requires
        a_before.wf(),
        b_before.wf(),
        same_state(a_before, b_before),
        a_after.follows(a_before, a_before.amortized_plan(len, additional), a_result),
    ensures
        a_result == Err::<(), TryReserveError>(TryReserveError::CapacityOverflow)
            <==> b_before.amortized_plan(len, additional) is Overflow,
        b_after.follows(
            b_before,
            b_before.amortized_plan(len, additional),
            raw_vec::unhandled(b_result),
        ) && answer_alike(a_after, b_after) && !(b_before.amortized_plan(
            len,
            additional,
        ) is Overflow) ==> {
            &&& a_result is Ok <==> b_result is Ok
            &&& forall|layout: layout::Layout|
                a_result == Err::<(), TryReserveError>(TryReserveError::AllocError { layout })
                    <==> b_result == Err::<(), OutOfMemory>(OutOfMemory { layout })
            &&& same_outcome(a_after, b_after)
        },
{
    let plan = b_before.amortized_plan(len, additional);
    if b_after.follows(b_before, plan, raw_vec::unhandled(b_result)) && answer_alike(
        a_after,
        b_after,
    ) && !(plan is Overflow) {
        lemma_follow_alike(a_before, a_after, a_result, b_before, b_after, b_result, plan);
    }
}

/// `try_reserve_exact` reports an overflow exactly where `reserve_exact` must not be called, and
/// everywhere else the two come out the same, as `try_reserve` and `reserve` do.
pub proof fn law_try_reserve_exact_agrees<T, A: AllocRef>(
    a_before: &RawVec<T, A>,
    a_after: &RawVec<T, A>,
    a_result: Result<(), TryReserveError>,
    b_before: &RawVec<T, A>,
    b_after: &RawVec<T, A>,
    b_result: Result<(), OutOfMemory>,
    len: usize,
    additional: usize,
)
    requires
        a_before.wf(),
        b_before.wf(),
        same_state(a_before, b_before),
        a_after.follows(a_before, a_before.exact_plan(len, additional), a_result),
    ensures
        a_result == Err::<(), TryReserveError>(TryReserveError::CapacityOverflow)
            <==> b_before.exact_plan(len, additional) is Overflow,
        b_after.follows(
            b_before,
            b_before.exact_plan(len, additional),
            raw_vec::unhandled(b_result),
        ) && answer_alike(a_after, b_after) && !(b_before.exact_plan(
            len,
            additional,
        ) is Overflow) ==> {
            &&& a_result is Ok <==> b_result is Ok
            &&& forall|layout: layout::Layout|
                a_result == Err::<(), TryReserveError>(TryReserveError::AllocError { layout })
                    <==> b_result == Err::<(), OutOfMemory>(OutOfMemory { layout })
            &&& same_outcome(a_after, b_after)
        },
{
    let plan = b_before.exact_plan(len, additional);
    if b_after.follows(b_before, plan, raw_vec::unhandled(b_result)) && answer_alike(
        a_after,
        b_after,
    ) && !(plan is Overflow) {
        lemma_follow_alike(a_before, a_after, a_result, b_before, b_after, b_result, plan);
    }
}

proof fn lemma_follow_alike<T, A: AllocRef>(
    a_before: &RawVec<T, A>,
    a_after: &RawVec<T, A>,
    a_result: Result<(), TryReserveError>,
    b_before: &RawVec<T, A>,
    b_after: &RawVec<T, A>,
    b_result: Result<(), OutOfMemory>,
    plan: Plan,
)
    requires
        same_state(a_before, b_before),
        a_after.follows(a_before, plan, a_result),
        b_after.follows(b_before, plan, raw_vec::unhandled(b_result)),
        answer_alike(a_after, b_after),
        !(plan is Overflow),
    ensures
        a_result is Ok <==> b_result is Ok,
        a_result is Err ==> a_result == raw_vec::unhandled(b_result),
        same_outcome(a_after, b_after),
{
    if let Plan::Grow { capacity } = plan {
        let a_log = a_after.spec_allocator().log();
        let b_log = b_after.spec_allocator().log();
        assert(a_log.last() == a_before.grow_call(capacity, a_result is Ok));
        assert(b_log.last() == b_before.grow_call(capacity, b_result is Ok));
        assert(a_before.other_blocks() == b_before.other_blocks());
    }
}

/// Turning a buffer into an owned slice and back keeps its block and its allocator. The capacity
/// is then the length of the slice, except for elements of size zero, whose capacity does not
/// yield the length.
pub proof fn law_box_round_trip<T, A: AllocRef>(
    vec: &RawVec<T, A>,
    len: usize,
    slice: &BoxedSlice<T, A>,
    back: &RawVec<T, A>,
)
    requires
        vec.wf(),
        slice.wf(),
        slice.spec_len() == len,
        slice.raw().block() == vec.block(),
        slice.raw().spec_allocator() == vec.spec_allocator(),
        *back == slice.raw(),
    ensures
        back.wf(),
        back.block() == vec.block(),
        back.spec_ptr() == vec.spec_ptr(),
        back.spec_allocator() == vec.spec_allocator(),
        back.spec_capacity() == if RawVec::<T, A>::elem_size() == 0 {
            usize::MAX
        } else {
            len
        },
{
}

} // verus!
