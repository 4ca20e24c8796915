//! Virtual memory: page numbers, frame states and the per-region frame table.

pub mod address;
pub mod areas;
pub mod fault;
pub mod frame;
pub mod frame_allocator;
pub mod linear_map;
pub mod memory_set;
pub mod mmap;

pub use address::{PhysPageNum, VPNRange, VirtPageNum};
pub use frame::{Frame, FrameTracker};
pub use frame_allocator::StackFrameAllocator;
pub use linear_map::LinearMap;
pub use memory_set::{MapArea, MapPermission, MemorySet};
pub use mmap::MapFlags;
