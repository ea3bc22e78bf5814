//! Resource classification: which memory kind backs a buffer, and how many
//! samples an image carries. The platform layer turns these into concrete
//! graphics-API formats and usage flags.

use vstd::prelude::*;

use crate::allocator::MemoryType;

verus! {

/// Multisampling level of a render target.
#[derive(Clone, Copy, Debug, PartialEq, Eq, Structural)]
pub enum MSAALevel {
    Off,
    Two,
    Four,
    Eight,
}

impl MSAALevel {
    /// The sample count the level stands for.
    pub open spec fn spec_samples(self) -> u32 {
        match self {
            MSAALevel::Off => 1,
            MSAALevel::Two => 2,
            MSAALevel::Four => 4,
            MSAALevel::Eight => 8,
        }
    }

    /// Samples per pixel: one when multisampling is off.
    pub fn samples(&self) -> (n: u32)
        ensures
            n == self.spec_samples(),
    {
        match self {
            MSAALevel::Off => 1,
            MSAALevel::Two => 2,
            MSAALevel::Four => 4,
            MSAALevel::Eight => 8,
        }
    }
}

/// What a buffer is for; decides its memory kind and usage.
#[derive(Clone, Copy, Debug, PartialEq, Eq, Structural)]
pub enum BufferType {
    /// Storage read and written by compute passes; lives in device memory.
    ComputeStorage,
    /// Staging source for transfers; lives in host-visible memory.
    Staging,
}

impl BufferType {
    /// The memory kind that backs this buffer type.
    pub open spec fn spec_mem_type(self) -> MemoryType {
        match self {
            BufferType::ComputeStorage => MemoryType::Device,
            BufferType::Staging => MemoryType::Host,
        }
    }

    /// Which pool a buffer of this type is allocated from: compute storage
    /// from device memory, staging from host-visible memory.
    pub fn mem_type(&self) -> (t: MemoryType)
        ensures
            t == self.spec_mem_type(),
    {
        match self {
            BufferType::ComputeStorage => MemoryType::Device,
            BufferType::Staging => MemoryType::Host,
        }
    }

    /// Whether a buffer of this type may be the target of an upload: a
    /// staging buffer is the source of uploads and may not be their target.
    pub fn valid_upload_target(&self) -> (r: bool)
        ensures
            r == (self is ComputeStorage),
    {
        match self {
            BufferType::ComputeStorage => true,
            BufferType::Staging => false,
        }
    }
}

/// What an image is for; decides its format, usage and sample count.
#[derive(Clone, Copy, Debug, PartialEq, Eq, Structural)]
pub enum ImageType {
    DepthImage(MSAALevel),
    RenderImage(MSAALevel),
    SwapchainImage,
    FourChannelTexture,
    OneChannelTexture,
    NkGuiImage,
}

impl ImageType {
    /// The sample count of the image: the multisampling level for depth and
    /// render targets, one for everything else.
    pub open spec fn spec_samples(self) -> u32 {
        match self {
            ImageType::DepthImage(level) => level.spec_samples(),
            ImageType::RenderImage(level) => level.spec_samples(),
            _ => 1,
        }
    }

    /// Samples per pixel of an image of this type.
    pub fn samples(&self) -> (n: u32)
        ensures
            n == self.spec_samples(),
    {
        match self {
            ImageType::DepthImage(level) => level.samples(),
            ImageType::RenderImage(level) => level.samples(),
            _ => 1,
        }
    }
}

} // verus!
