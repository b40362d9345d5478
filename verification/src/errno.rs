//! The error numbers of the operating system that the library tells
//! apart.

use vstd::prelude::*;

verus! {

/// Operation not permitted.
pub const EPERM: i32 = 1;

/// No such file or directory.
pub const ENOENT: i32 = 2;

/// No such process.
pub const ESRCH: i32 = 3;

/// Permission denied.
pub const EACCES: i32 = 13;

} // verus!
