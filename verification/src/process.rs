//! A process found by name, with the snapshot of its memory map.

use vstd::prelude::*;

use crate::address::{
    displacement_address,
    little_endian_u32,
    resolve_bytes,
    resolved_address,
};
use crate::error::{FindError, LookupError, ParseError, ResolveError, StateError, TransferError};
use crate::locator::{entry_verdict, locate, lookup, NameRead, ProcessTable, Verdict};
use crate::maps::lines::{maps_regions, MapsRead};
use crate::memory_region::{region_views, MemoryRegion, RegionPermissions, RegionView};
use crate::region_index::{index_address_query, index_name_query, RegionIndex};
use crate::transfer::{judged, read_bytes, write_over, TransferOutcome};

verus! {

/// A process of the process table.
///
/// The pid and the name are fixed when the process is found. The regions
/// are absent until a memory map is taken over with `parse_maps`, and each
/// map that is taken over replaces them as a whole.
#[derive(Debug)]
pub struct Process {
    pid: i32,
    name: String,
    memory_regions: RegionIndex,
}

/// A process as a mathematical value.
pub struct ProcessView {
    /// The pid, a positive number.
    pub pid: i32,
    /// The short name as it was recorded, line end included.
    pub name: Seq<char>,
    /// The regions of the memory map that was taken over last.
    pub regions: Option<Seq<RegionView>>,
}

impl View for Process {
    type V = ProcessView;

    closed spec fn view(&self) -> ProcessView {
        ProcessView {
            pid: self.pid,
            name: self.name@,
            regions: self.memory_regions@,
        }
    }
}

impl Process {
    #[verifier::type_invariant]
    spec fn pid_is_positive(&self) -> bool {
        self.pid > 0
    }

    /// Finds the process named `process_name` in `table`.
    ///
    /// The entries are taken in their order, and the first one that is not
    /// passed over decides: a match gives the process, with the name as it
    /// was recorded and without regions; a failed read ends the search. A
    /// table that could not be listed fails the search too.
    pub fn new(process_name: &str, table: &ProcessTable) -> (found: Result<Process, LookupError>)
        ensures
            match lookup(*table, process_name@) {
                Ok(i) => found matches Ok(process) && table matches ProcessTable::Listed(entries)
                    && {
                    &&& entry_verdict(entries@[i], process_name@) == Verdict::Match(process@.pid)
                    &&& entries@[i].comm matches NameRead::Recorded(recorded) && process@.name
                        == recorded@
                    &&& process@.regions is None
                },
                Err(e) => found matches Err(failure) && failure == e,
            },
    {
        let entries = match table {
            ProcessTable::Unlisted => {
                return Err(LookupError::EnumerationFailed);
            },
            ProcessTable::Listed(entries) => entries,
        };
        let (index, pid) = match locate(entries, process_name) {
            Ok(located) => located,
            Err(e) => {
                return Err(e);
            },
        };
        match &entries[index].comm {
            NameRead::Recorded(recorded) => Ok(
                Process { pid, name: recorded.clone(), memory_regions: RegionIndex::Unmapped },
            ),
            _ => vstd::pervasive::unreached(),
        }
    }

    /// Takes over the memory map that `maps` holds: one region for each
    /// line of its text, in the order of the lines.
    ///
    /// All or nothing: a map that could not be read, or one line that is no
    /// record, leaves the process as it was.
    pub fn parse_maps(&mut self, maps: &MapsRead) -> (parsed: Result<(), ParseError>)
        ensures
            match maps_regions(*maps) {
                Ok(described) => parsed is Ok && final(self)@ == (ProcessView {
                    regions: Some(described),
                    ..old(self)@
                }),
                Err(e) => parsed == Err::<(), ParseError>(e) && final(self)@ == old(self)@,
            },
    {
        proof {
            use_type_invariant(&*self);
        }
        match RegionIndex::from_maps(maps) {
            Ok(index) => {
                self.memory_regions = index;
                Ok(())
            },
            Err(e) => Err(e),
        }
    }

    /// The pid of the process.
    pub fn get_pid(&self) -> (pid: i32)
        ensures
            pid == self@.pid,
            pid > 0,
    {
        proof {
            use_type_invariant(self);
        }
        self.pid
    }

    /// The short name of the process as it was recorded.
    pub fn get_name(&self) -> (name: &String)
        ensures
            name@ == self@.name,
    {
        &self.name
    }

    /// The regions of the memory map that was taken over last.
    pub fn get_memory_regions(&self) -> (regions: Result<&Vec<MemoryRegion>, StateError>)
        ensures
            match self@.regions {
                Some(views) => regions matches Ok(regions) && region_views(regions@) == views,
                None => regions == Err::<&Vec<MemoryRegion>, StateError>(StateError::NotMapped),
            },
    {
        self.memory_regions.regions()
    }

    /// The first region whose name is `region_name`: the base name of its
    /// path, or `[anonymous_region]` where it has none.
    ///
    /// With `permissions_eq`, that region must have exactly these
    /// permissions. Where it has others the search fails there: a later
    /// region of the same name is not looked at.
    pub fn region_find_first_by_name(
        &self,
        region_name: &str,
        permissions_eq: Option<RegionPermissions>,
    ) -> (found: Result<&MemoryRegion, FindError>)
        ensures
            match index_name_query(self@.regions, region_name@, permissions_eq) {
                Ok(i) => found matches Ok(region) && 0 <= i < self@.regions->0.len() && region@
                    == self@.regions->0[i],
                Err(e) => found == Err::<&MemoryRegion, FindError>(e),
            },
    {
        self.memory_regions.find_first_by_name(region_name, permissions_eq)
    }

    /// The first region that holds `address`. Both bounds of a region
    /// belong to it.
    pub fn get_address_region(&self, address: usize) -> (found: Result<&MemoryRegion, FindError>)
        ensures
            match index_address_query(self@.regions, address) {
                Ok(i) => found matches Ok(region) && 0 <= i < self@.regions->0.len() && region@
                    == self@.regions->0[i],
                Err(e) => found == Err::<&MemoryRegion, FindError>(e),
            },
    {
        self.memory_regions.find_containing(address)
    }

    /// Reads as many bytes as a value of type `T` takes from `address` in
    /// the process, in one request.
    ///
    /// The read counts only if the operating system moved exactly that
    /// many bytes: a shorter transfer is an error and hands out no bytes.
    pub fn read_memory<T>(&self, address: usize) -> (read: Result<Vec<u8>, TransferError>)
        ensures
            match read {
                Ok(bytes) => bytes@.len() == vstd::layout::size_of::<T>(),
                Err(e) => exists|outcome: TransferOutcome|
                    #[trigger] judged(address, core::mem::size_of::<T>(), outcome) == Err::<
                        (),
                        TransferError,
                    >(e),
            },
    {
        vstd::layout::layout_for_type_is_valid::<T>();
        let size: usize = core::mem::size_of::<T>();
        let read = read_bytes(self.pid, address, size);
        proof {
            if let Err(e) = read {
                let outcome = choose|outcome: TransferOutcome|
                    #[trigger] judged(address, size, outcome) == Err::<(), TransferError>(e);
                assert(judged(address, core::mem::size_of::<T>(), outcome) == Err::<
                    (),
                    TransferError,
                >(e));
            }
        }
        read
    }

    /// Writes `buffer` over the bytes that a value of type `T` takes at
    /// `address` in the process, in one request.
    ///
    /// The write counts only if the operating system moved exactly as
    /// many bytes as a value of type `T` takes.
    pub fn write_memory<T>(&self, address: usize, buffer: Vec<u8>) -> (written: Result<
        (),
        TransferError,
    >)
        ensures
            exists|outcome: TransferOutcome|
                #[trigger] judged(address, core::mem::size_of::<T>(), outcome) == written,
    {
        let size: usize = core::mem::size_of::<T>();
        let written = write_over(self.pid, address, size, &buffer);
        proof {
            let outcome = choose|outcome: TransferOutcome|
                #[trigger] judged(address, size, outcome) == written;
            assert(judged(address, core::mem::size_of::<T>(), outcome) == written);
        }
        written
    }

    /// The absolute address to which the instruction of `size` bytes at
    /// `address` leads: its displacement, four bytes in little-endian
    /// order at `address + offset` in the process, added to `address` and
    /// `size`.
    ///
    /// Fails with `Overflow`, before anything is read, where
    /// `address + offset` does not fit the address width, and after the
    /// read where the sum does not.
    pub fn abs_addr(&self, address: usize, offset: usize, size: usize) -> (target: Result<
        usize,
        ResolveError,
    >)
        ensures
            address + offset > usize::MAX ==> target == Err::<usize, ResolveError>(
                ResolveError::Overflow,
            ),
            match target {
                Ok(t) => exists|displacement: u32|
                    t == #[trigger] resolved_address(address, size, displacement),
                Err(ResolveError::Overflow) => address + offset > usize::MAX || exists|
                    displacement: u32,
                |
                    #[trigger] resolved_address(address, size, displacement) > usize::MAX,
                Err(ResolveError::Transfer(e)) => address + offset <= usize::MAX && exists|
                    outcome: TransferOutcome,
                |
                    #[trigger] judged((address + offset) as usize, 4, outcome) == Err::<
                        (),
                        TransferError,
                    >(e),
            },
    {
        broadcast use vstd::layout::layout_of_primitives;

        let at = match displacement_address(address, offset) {
            Ok(at) => at,
            Err(e) => {
                return Err(e);
            },
        };
        let bytes = match self.read_memory::<u32>(at) {
            Ok(bytes) => bytes,
            Err(e) => {
                proof {
                    let outcome = choose|outcome: TransferOutcome|
                        #[trigger] judged(at, core::mem::size_of::<u32>(), outcome) == Err::<
                            (),
                            TransferError,
                        >(e);
                    assert(judged((address + offset) as usize, 4, outcome) == Err::<
                        (),
                        TransferError,
                    >(e));
                }
                return Err(ResolveError::Transfer(e));
            },
        };
        let stored: [u8; 4] = [bytes[0], bytes[1], bytes[2], bytes[3]];
        let target = resolve_bytes(address, size, stored);
        proof {
            let displacement = little_endian_u32(stored@) as u32;
            assert(resolved_address(address, size, displacement) == resolved_address(
                address,
                size,
                displacement,
            ));
        }
        target
    }

    /// The address that the call instruction at `address` calls: an
    /// instruction of five bytes whose displacement stands one byte into
    /// it.
    pub fn call_addr(&self, address: usize) -> (target: Result<usize, ResolveError>)
        ensures
            address + 1 > usize::MAX ==> target == Err::<usize, ResolveError>(
                ResolveError::Overflow,
            ),
            match target {
                Ok(t) => exists|displacement: u32|
                    t == #[trigger] resolved_address(address, 5, displacement),
                Err(ResolveError::Overflow) => address + 1 > usize::MAX || exists|
                    displacement: u32,
                |
                    #[trigger] resolved_address(address, 5, displacement) > usize::MAX,
                Err(ResolveError::Transfer(e)) => address + 1 <= usize::MAX && exists|
                    outcome: TransferOutcome,
                |
                    #[trigger] judged((address + 1) as usize, 4, outcome) == Err::<
                        (),
                        TransferError,
                    >(e),
            },
    {
        self.abs_addr(address, 1, 5)
    }
}

} // verus!
