//! Book-keeping for memory that lives in the target process.

pub mod dynamic_allocator;
pub mod extent;
pub mod memory;
pub mod raw_allocator;
pub mod remote_box;

pub use self::dynamic_allocator::DynamicMultiBufferAllocator;
pub use self::raw_allocator::{Allocation, RawAllocator};
pub use self::remote_box::{ProcessMemorySlice, RemoteBox, RemoteBoxAllocator};
