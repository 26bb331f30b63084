//! A verified model of the filesystem-object layer of a small teaching
//! kernel: open-file handles with private offsets, a flat root directory
//! of byte files, and an in-memory link registry that emulates POSIX hard
//! links (and their link counts) on top of a storage layer that has none.

pub mod disk;
pub mod flags;
pub mod fs;
pub mod inode;
pub mod kernel;
pub mod process;
pub mod registry;
pub mod stat;
pub mod syscall;
