use vstd::prelude::*;

verus! {

/// The flag word handed to `open`: zero or more of the bits below, ORed
/// together. An empty word asks for read-only access.
#[derive(Clone, Copy, Debug, PartialEq, Eq, Structural)]
pub struct OpenFlags {
    pub bits: u32,
}

impl OpenFlags {
    /// Read-only access (the empty flag word).
    pub const RDONLY: u32 = 0;

    /// Write-only access.
    pub const WRONLY: u32 = 1;

    /// Read-write access.
    pub const RDWR: u32 = 2;

    /// Create the file if it does not exist; truncate it if it does.
    pub const CREATE: u32 = 512;

    /// Truncate the file to zero length.
    pub const TRUNC: u32 = 1024;

    /// Every bit that some flag above uses.
    pub const ALL: u32 = 1 + 2 + 512 + 1024;

    pub open spec fn spec_contains(self, bits: u32) -> bool {
        self.bits & bits == bits
    }

    /// The (readable, writable) capabilities a flag word grants: empty
    /// means read-only, a set write-only bit means write-only, and
    /// anything else means read-write. No further validity check is made.
    pub open spec fn spec_read_write(self) -> (bool, bool) {
        if self.bits == 0 {
            (true, false)
        } else if self.bits & OpenFlags::WRONLY == OpenFlags::WRONLY {
            (false, true)
        } else {
            (true, true)
        }
    }

    /// Accepts a raw word only if every set bit belongs to a known flag.
    pub fn from_bits(bits: u32) -> (r: Option<OpenFlags>)
        ensures
            (r is Some) <==> bits & OpenFlags::ALL == bits,
            (r is Some) ==> r->0 == (OpenFlags { bits }),
    {
        if bits & OpenFlags::ALL == bits {
            Some(OpenFlags { bits })
        } else {
            None
        }
    }

    pub fn is_empty(&self) -> (r: bool)
        ensures
            r == (self.bits == 0),
    {
        self.bits == 0
    }

    pub fn contains(&self, bits: u32) -> (r: bool)
        ensures
            r == self.spec_contains(bits),
    {
        self.bits & bits == bits
    }

    /// Return (readable, writable) for this flag word.
    pub fn read_write(&self) -> (r: (bool, bool))
        ensures
            r == self.spec_read_write(),
    {
        if self.is_empty() {
            (true, false)
        } else if self.contains(OpenFlags::WRONLY) {
            (false, true)
        } else {
            (true, true)
        }
    }
}

} // verus!
