//! Memory region and memory access types.

use vstd::prelude::*;

use crate::lion_core::id::RegionId;

verus! {

/// Type of memory region.
#[derive(Debug, Clone, Copy, PartialEq, Eq, Structural)]
pub enum MemoryRegionType {
    /// Private memory region, accessible only to the creator.
    Private,
    /// Shared memory region, can be shared with other plugins.
    Shared,
    /// Read-only memory region, can be shared with read-only access.
    ReadOnly,
    /// Ring buffer memory region, used for efficient message passing.
    RingBuffer,
    /// Direct memory region, maps to a host memory address.
    Direct,
}

impl MemoryRegionType {
    /// Whether a region of this type can be shared with other plugins.
    pub open spec fn spec_is_shareable(self) -> bool {
        !(self is Private)
    }

    /// Whether a region of this type may be written.
    pub open spec fn spec_allows_write(self) -> bool {
        !(self is ReadOnly)
    }

    /// Checks if this memory region type can be shared with other plugins.
    pub fn is_shareable(&self) -> (r: bool)
        ensures
            r == self.spec_is_shareable(),
    {
        match self {
            Self::Private => false,
            Self::Shared | Self::ReadOnly | Self::RingBuffer | Self::Direct => true,
        }
    }

    /// Checks if this memory region type allows write access.
    pub fn allows_write(&self) -> (r: bool)
        ensures
            r == self.spec_allows_write(),
    {
        match self {
            Self::Private | Self::Shared | Self::RingBuffer | Self::Direct => true,
            Self::ReadOnly => false,
        }
    }

    /// The name of this memory region type.
    pub open spec fn name(self) -> Seq<char> {
        match self {
            Self::Private => "Private"@,
            Self::Shared => "Shared"@,
            Self::ReadOnly => "ReadOnly"@,
            Self::RingBuffer => "RingBuffer"@,
            Self::Direct => "Direct"@,
        }
    }

    /// A human-readable name for this memory region type.
    pub fn as_str(&self) -> (r: &'static str)
        ensures
            r@ == self.name(),
    {
        match self {
            Self::Private => "Private",
            Self::Shared => "Shared",
            Self::ReadOnly => "ReadOnly",
            Self::RingBuffer => "RingBuffer",
            Self::Direct => "Direct",
        }
    }
}

/// A memory region in the system.
#[derive(Debug, Clone, PartialEq, Eq)]
pub struct MemoryRegion {
    /// Unique identifier for this memory region.
    pub id: RegionId,
    /// Size of the memory region in bytes.
    pub size: usize,
    /// Type of memory region.
    pub region_type: MemoryRegionType,
}

impl MemoryRegion {
    /// Create a new memory region with a fresh random identifier.
    pub fn new(size: usize, region_type: MemoryRegionType) -> (r: Self)
        ensures
            r.size == size,
            r.region_type == region_type,
    {
        Self { id: RegionId::new(), size, region_type }
    }

    /// Create a new private memory region.
    pub fn new_private(size: usize) -> (r: Self)
        ensures
            r.size == size,
            r.region_type == MemoryRegionType::Private,
    {
        Self::new(size, MemoryRegionType::Private)
    }

    /// Create a new shared memory region.
    pub fn new_shared(size: usize) -> (r: Self)
        ensures
            r.size == size,
            r.region_type == MemoryRegionType::Shared,
    {
        Self::new(size, MemoryRegionType::Shared)
    }

    /// Create a new read-only memory region.
    pub fn new_read_only(size: usize) -> (r: Self)
        ensures
            r.size == size,
            r.region_type == MemoryRegionType::ReadOnly,
    {
        Self::new(size, MemoryRegionType::ReadOnly)
    }

    /// Create a new ring buffer memory region.
    pub fn new_ring_buffer(size: usize) -> (r: Self)
        ensures
            r.size == size,
            r.region_type == MemoryRegionType::RingBuffer,
    {
        Self::new(size, MemoryRegionType::RingBuffer)
    }

    /// Whether this memory region can be shared with other plugins.
    pub fn is_shareable(&self) -> (r: bool)
        ensures
            r == self.region_type.spec_is_shareable(),
    {
        self.region_type.is_shareable()
    }

    /// Whether this memory region allows write access.
    pub fn allows_write(&self) -> (r: bool)
        ensures
            r == self.region_type.spec_allows_write(),
    {
        self.region_type.allows_write()
    }
}

/// Memory access permission.
#[derive(Debug, Clone, Copy, PartialEq, Eq, Structural)]
pub enum MemoryAccess {
    /// Read-only access.
    ReadOnly,
    /// Read-write access.
    ReadWrite,
}

impl MemoryAccess {
    /// Every access permission allows reading.
    pub fn can_read(&self) -> (r: bool)
        ensures
            r,
    {
        match self {
            Self::ReadOnly | Self::ReadWrite => true,
        }
    }

    /// Only read-write access allows writing.
    pub fn can_write(&self) -> (r: bool)
        ensures
            r == (*self is ReadWrite),
    {
        match self {
            Self::ReadOnly => false,
            Self::ReadWrite => true,
        }
    }
}

} // verus!
