pub mod allocator;
pub mod boxed;
pub mod error;
pub mod growth;
pub mod heap;
pub mod laws;
pub mod layout;
pub mod operations;
pub mod raw_vec;
