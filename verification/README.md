# raw_vec

A growable buffer of raw memory, the part of a vector that allocates, reallocates and deallocates,
verified with Verus.

- `src/layout.rs`: sizes and alignments of arrays.
- `src/allocator.rs`: what a block of memory is, and what an allocator promises.
- `src/heap.rs`: the allocator over the system heap.
- `src/growth.rs`: when a buffer grows, and to which capacity.
- `src/error.rs`: how requests fail.
- `src/raw_vec.rs`: the buffer.
- `src/boxed.rs`: owned slices, which buffers are converted to and from.
- `src/laws.rs`: what holds of the buffer as a whole.
- `app/`: buffers over raw pointers, which free themselves, and panic or abort where the library
  returns an error.
