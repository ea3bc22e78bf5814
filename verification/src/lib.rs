//! A sub-allocator for graphics-API device memory, with the small verified
//! cores of the engine around it.
//!
//! Coarse backing allocations are expensive and limited in number, so the
//! allocator carves many small, aligned spans out of few large allocations.
//! Free spans are kept per arena, reused first-fit, and merged forward on
//! release; new backing allocations are requested from the platform layer
//! only when no existing span fits.

pub mod allocator;
pub mod canvas;
pub mod cli;
pub mod engine;
pub mod phys_device;
pub mod region;
pub mod resource;
pub mod window;

pub use allocator::{
    AllocError, Allocation, ArenaRequest, MemoryBlock, MemoryRequirements, MemoryType, VkAllocator,
};
pub use engine::start_engine;
pub use region::{MemoryRegion, padding};
