use vstd::prelude::*;

verus! {

/// What kind of object a metadata record describes. Every object this
/// layer creates under the flat root directory is a regular file; the
/// kind is fixed at creation and never guessed from the object's
/// leading bytes.
#[derive(Clone, Copy, Debug, PartialEq, Eq, Structural)]
pub enum StatMode {
    File,
    Dir,
}

/// The metadata record a handle caches and `stat` reports: device id,
/// inode number, object kind and link count, plus reserved padding.
///
/// The registry keeps the `nlink` of every record it holds equal to the
/// number of registry records that share the record's `ino`; a copy of a
/// record cached inside a handle may fall behind that authoritative count.
#[derive(Clone, Copy, Debug)]
pub struct Stat {
    pub dev: u32,
    pub ino: u64,
    pub mode: StatMode,
    pub nlink: u32,
    pub pad: [u64; 7],
}

} // verus!
