//! The memory map of a process as text: one record per line,
//!
//! ```text
//! start-end perms offset major:minor inode [path]
//! ```
//!
//! `start`, `end` and `offset` are hexadecimal and may carry a `0x` prefix,
//! `major` and `minor` are hexadecimal, `inode` is decimal, and a `+` may
//! stand before the digits of the last three. Blanks between the fields are
//! skipped, also where there are none, and whatever follows the path is
//! ignored.

pub mod grammar;
pub mod lines;
pub mod scanner;

pub use self::lines::{parse_text, MapsRead};
