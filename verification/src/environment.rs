//! What a process knows about where it runs: how it was loaded, the version
//! of the system, and its memory map.

use vstd::prelude::*;

verus! {

/// How the process was loaded.
#[derive(Clone, Copy, PartialEq, Eq, PartialOrd, Ord, Hash, Debug, Structural)]
pub enum EnvironmentType {
    Nro,
    Nso,
}

/// A version of the system.
#[derive(Clone, Copy, PartialEq, Eq, PartialOrd, Ord, Hash, Debug, Structural)]
pub struct HorizonVersion {
    pub major: u8,
    pub minor: u8,
    pub micro: u8,
}

impl HorizonVersion {
    pub fn new(major: u8, minor: u8, micro: u8) -> (r: Self)
        ensures
            r == (HorizonVersion { major, minor, micro }),
    {
        Self { major, minor, micro }
    }
}

/// What the loader tells a process about its environment.
#[derive(Clone, Copy, PartialEq, Eq, PartialOrd, Ord, Hash, Debug, Structural)]
pub struct Environment {
    pub environment_type: EnvironmentType,
    pub main_thread_handle: u32,
    pub hos_version: HorizonVersion,
}

/// A range of the address space, by its start address and size.
#[derive(Clone, Copy, PartialEq, Eq, PartialOrd, Ord, Hash, Debug, Structural)]
pub struct MemoryRegion {
    pub start: usize,
    pub size: usize,
}

/// The regions of a process's address space.
#[derive(Clone, Copy, PartialEq, Eq, Debug, Structural)]
pub struct MemoryMap {
    /// The region that holds the others.
    pub aslr_region: MemoryRegion,
    /// The region where stacks are mapped.
    pub stack_region: MemoryRegion,
    /// The region where physical memory and aliases of mapped memory may be mapped.
    pub alias_region: MemoryRegion,
    /// The region where the heap is mapped.
    pub heap_region: MemoryRegion,
}

} // verus!
