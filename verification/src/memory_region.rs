//! The structured form of one record of a process's memory map.

use vstd::prelude::*;

verus! {

/// How the pages of a region may be accessed.
///
/// A region whose permission field reads `r-xp` has `readable` and
/// `executable` set, and `writeable` and `shared` clear.
#[derive(Clone, Copy, Debug, PartialEq, Eq, Structural)]
pub struct RegionPermissions {
    pub readable: bool,
    pub writeable: bool,
    pub executable: bool,
    pub shared: bool,
}

/// One contiguous span of a process's virtual address space.
#[derive(Debug, PartialEq, Eq)]
pub struct MemoryRegion {
    /// First address of the region.
    pub start: usize,
    /// Last address of the region; queries treat it as part of the region.
    pub end: usize,
    /// Access permissions of the region's pages.
    pub permissions: RegionPermissions,
    /// Offset into the mapped file, 0 for an anonymous region.
    pub offset: usize,
    /// Major number of the device that holds the mapped file.
    pub dev_major: u8,
    /// Minor number of the device that holds the mapped file.
    pub dev_minor: u8,
    /// Inode of the mapped file, 0 for an anonymous region.
    pub inode: usize,
    /// Path of the mapped file or name of a special region such as
    /// `[heap]`; `None` for an anonymous region.
    pub path: Option<String>,
}

/// A region as a mathematical value: the path is a sequence of characters.
pub struct RegionView {
    pub start: usize,
    pub end: usize,
    pub permissions: RegionPermissions,
    pub offset: usize,
    pub dev_major: u8,
    pub dev_minor: u8,
    pub inode: usize,
    pub path: Option<Seq<char>>,
}

impl RegionView {
    /// The bounds are in order.
    pub open spec fn well_formed(self) -> bool {
        self.start <= self.end
    }

    /// Whether `address` lies in the region, both bounds included.
    pub open spec fn contains(self, address: usize) -> bool {
        self.start <= address <= self.end
    }
}

impl View for MemoryRegion {
    type V = RegionView;

    open spec fn view(&self) -> RegionView {
        RegionView {
            start: self.start,
            end: self.end,
            permissions: self.permissions,
            offset: self.offset,
            dev_major: self.dev_major,
            dev_minor: self.dev_minor,
            inode: self.inode,
            path: match self.path {
                Some(p) => Some(p@),
                None => None,
            },
        }
    }
}

impl Clone for MemoryRegion {
    fn clone(&self) -> (copy: MemoryRegion)
        ensures
            copy == *self,
    {
        MemoryRegion {
            start: self.start,
            end: self.end,
            permissions: self.permissions,
            offset: self.offset,
            dev_major: self.dev_major,
            dev_minor: self.dev_minor,
            inode: self.inode,
            path: match &self.path {
                Some(p) => Some(p.clone()),
                None => None,
            },
        }
    }
}

impl MemoryRegion {
    /// Whether `address` lies in the region, both bounds included.
    pub fn contains(&self, address: usize) -> (inside: bool)
        ensures
            inside == self@.contains(address),
    {
        self.start <= address && address <= self.end
    }
}

/// The views of the regions of `regions`, in order.
pub open spec fn region_views(regions: Seq<MemoryRegion>) -> Seq<RegionView> {
    regions.map_values(|r: MemoryRegion| r@)
}

} // verus!
