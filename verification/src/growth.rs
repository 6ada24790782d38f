use vstd::prelude::*;

verus! {

/// What becomes of a buffer that is asked to make room.
pub enum Plan {
    /// There is room already: nothing happens.
    Stay,
    /// There is no room, and no buffer could have it.
    Overflow,
    /// A buffer for this many elements is asked of the allocator.
    Grow { capacity: int },
}

/// How many more elements a buffer with `len` elements takes, modulo the range of `usize`. A
/// length beyond the capacity wraps around to a number so large that only a request that
/// overflows exceeds it.
pub open spec fn room(capacity: int, len: int) -> int {
    if len <= capacity {
        capacity - len
    } else {
        capacity - len + usize::MAX + 1
    }
}

/// Whether `additional` more elements take a larger buffer.
pub open spec fn needs_to_grow(capacity: int, len: int, additional: int) -> bool {
    additional > room(capacity, len)
}

/// Whether `count` elements of `elem_size` bytes stay within `isize::MAX` bytes.
pub open spec fn within_limit(elem_size: int, count: int) -> bool {
    count * elem_size <= isize::MAX
}

/// The smallest capacity that is worth a request to the allocator: 8 elements of one byte, since
/// allocators round smaller requests up to 8 bytes; 4 elements of up to 1 KiB; else 1.
pub open spec fn min_non_zero_cap(elem_size: int) -> int {
    if elem_size == 1 {
        8
    } else if elem_size <= 1024 {
        4
    } else {
        1
    }
}

/// The larger of two numbers.
pub open spec fn larger(a: int, b: int) -> int {
    if a >= b {
        a
    } else {
        b
    }
}

/// The required capacity with the slack that makes growth exponential.
pub open spec fn with_slack(elem_size: int, capacity: int, required: int) -> int {
    larger(min_non_zero_cap(elem_size), larger(2 * capacity, required))
}

/// The capacity to ask for when growth is to be amortized. The slack is given up where it alone
/// would exceed the limit.
pub open spec fn amortized_capacity(elem_size: int, capacity: int, required: int) -> int {
    if within_limit(elem_size, with_slack(elem_size, capacity, required)) {
        with_slack(elem_size, capacity, required)
    } else {
        larger(capacity, required)
    }
}

/// What becomes of a buffer that grows so that it has the required capacity, with slack, whether
/// it has that capacity already or not.
pub open spec fn amortized_growth(elem_size: int, capacity: int, required: int) -> Plan {
    if elem_size == 0 || !within_limit(elem_size, required) {
        Plan::Overflow
    } else {
        Plan::Grow { capacity: amortized_capacity(elem_size, capacity, required) }
    }
}

/// What becomes of a request for room for `additional` elements beyond `len`, with slack.
pub open spec fn amortized_plan(elem_size: int, capacity: int, len: int, additional: int) -> Plan {
    if !needs_to_grow(capacity, len, additional) {
        Plan::Stay
    } else {
        amortized_growth(elem_size, capacity, len + additional)
    }
}

/// What becomes of a request for room for `additional` elements beyond `len`, without slack.
pub open spec fn exact_plan(elem_size: int, capacity: int, len: int, additional: int) -> Plan {
    if !needs_to_grow(capacity, len, additional) {
        Plan::Stay
    } else if elem_size == 0 || !within_limit(elem_size, len + additional) {
        Plan::Overflow
    } else {
        Plan::Grow { capacity: len + additional }
    }
}

/// Fewer elements take fewer bytes.
pub proof fn lemma_more_bytes(elem_size: int, fewer: int, more: int)
    requires
        0 < elem_size,
        0 <= fewer <= more,
    ensures
        0 <= fewer * elem_size <= more * elem_size,
        fewer < more ==> fewer * elem_size < more * elem_size,
        more <= more * elem_size,
{
    assert(0 <= fewer * elem_size <= more * elem_size && more <= more * elem_size && (fewer < more
        ==> fewer * elem_size < more * elem_size)) by (nonlinear_arith)
        requires
            0 < elem_size,
            0 <= fewer <= more,
    ;
}

} // verus!
