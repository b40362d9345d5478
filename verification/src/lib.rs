//! Locating a running process by name, modelling its virtual-memory regions
//! and moving bytes in and out of its address space.
//!
//! The library decides and the caller reads: a listing of the process
//! table and the text of a memory map are handed over as plain values,
//! and what they mean is stated in contracts and proved.
//!
//! - [`locator`] walks over a process table in search of a name.
//! - [`maps`] holds the grammar of the memory-map text and reads it.
//! - [`region_index`] keeps the regions of a map and answers queries by
//!   name and by address.
//! - [`transfer`] reads and writes the memory of a process and judges what
//!   each transfer gave.
//! - [`address`] resolves displacements stored in the target.
//! - [`process`] ties them together in [`Process`].

pub mod address;
pub mod errno;
pub mod error;
pub mod locator;
pub mod maps;
pub mod memory_region;
pub mod number;
pub mod process;
pub mod region_index;
pub mod text;
pub mod transfer;

pub use memory_region::{MemoryRegion, RegionPermissions};
pub use process::Process;
