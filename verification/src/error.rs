//! The closed set of failures that the library reports.

use vstd::prelude::*;

use crate::memory_region::RegionPermissions;

verus! {

/// Why no process was found by name.
#[derive(Clone, Copy, Debug, PartialEq, Eq, Structural)]
pub enum LookupError {
    /// No entry of the process table carries the name.
    NotFound,
    /// The process table could not be listed, or broke while it was read.
    EnumerationFailed,
}

/// Why a memory map was not taken over.
#[derive(Clone, Copy, Debug, PartialEq, Eq, Structural)]
pub enum ParseError {
    /// The line with this index, counted from 0, is no record.
    MalformedLine { line: usize },
    /// The text of the memory map could not be read.
    IoFailure,
}

/// Why a transfer of memory did not complete.
#[derive(Clone, Copy, Debug, PartialEq, Eq, Structural)]
pub enum TransferError {
    /// The caller may not touch the address space of the target.
    Permission { address: usize },
    /// The operating system moved `transferred` bytes where `requested`
    /// were asked for.
    PartialTransfer { address: usize, requested: usize, transferred: usize },
    /// The transfer failed with this error number.
    SyscallFailure { address: usize, errno: i32 },
}

/// A query met a process whose memory map was never taken over.
#[derive(Clone, Copy, Debug, PartialEq, Eq, Structural)]
pub enum StateError {
    /// No memory map was taken over yet.
    NotMapped,
}

/// Why a query over the regions gave no region.
#[derive(Clone, Copy, Debug, PartialEq, Eq, Structural)]
pub enum QueryError {
    /// No region answers the query.
    NotFound,
    /// The first region of the name has `actual` permissions where
    /// `expected` were asked for.
    PermissionMismatch { expected: RegionPermissions, actual: RegionPermissions },
}

/// Why a query on a process gave no region.
#[derive(Clone, Copy, Debug, PartialEq, Eq, Structural)]
pub enum FindError {
    /// The process has no regions to search.
    State(StateError),
    /// The regions hold no answer.
    Query(QueryError),
}

/// Why an address could not be resolved.
#[derive(Clone, Copy, Debug, PartialEq, Eq, Structural)]
pub enum ResolveError {
    /// The displacement could not be read.
    Transfer(TransferError),
    /// The address does not fit the address width.
    Overflow,
}

} // verus!
