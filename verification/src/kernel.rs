use crate::disk::Disk;
use crate::fs::{fs_inv, fs_tracked};
use crate::inode::OSInode;
use crate::registry::OSInodeManager;
use vstd::prelude::*;

verus! {

/// What a file descriptor slot holds: one of the two reserved console
/// ends, or an open-file handle.
pub enum FdEntry {
    Stdin,
    Stdout,
    File(OSInode),
}

impl FdEntry {
    pub open spec fn spec_readable(self) -> bool {
        match self {
            FdEntry::Stdin => true,
            FdEntry::Stdout => false,
            FdEntry::File(h) => h.readable,
        }
    }

    pub open spec fn spec_writable(self) -> bool {
        match self {
            FdEntry::Stdin => false,
            FdEntry::Stdout => true,
            FdEntry::File(h) => h.writable,
        }
    }
}

/// The kernel-side state the file-descriptor syscalls act on: the
/// storage model, the link registry, one descriptor table, and the two
/// console streams as byte buffers that the surrounding program feeds
/// and drains.
pub struct Kernel {
    pub disk: Disk,
    pub manager: OSInodeManager,
    pub fd_table: Vec<Option<FdEntry>>,
    pub stdin_buf: Vec<u8>,
    pub stdout_buf: Vec<u8>,
}

impl Kernel {
    /// The descriptor at `fd` exists and may be read.
    pub open spec fn fd_readable(self, fd: usize) -> bool {
        &&& fd < self.fd_table@.len()
        &&& self.fd_table@[fd as int] is Some
        &&& self.fd_table@[fd as int]->Some_0.spec_readable()
    }

    /// The descriptor at `fd` exists and may be written.
    pub open spec fn fd_writable(self, fd: usize) -> bool {
        &&& fd < self.fd_table@.len()
        &&& self.fd_table@[fd as int] is Some
        &&& self.fd_table@[fd as int]->Some_0.spec_writable()
    }

    /// Every handle in the table points at an existing storage object.
    pub open spec fn fds_ok(self) -> bool {
        forall|k: int|
            0 <= k < self.fd_table@.len() ==> ((#[trigger] self.fd_table@[k]) matches Some(
                FdEntry::File(h),
            ) ==> h.ino() < self.disk.files@.len())
    }

    /// What every syscall preserves: the filesystem invariant and a
    /// descriptor table whose handles point at existing objects.
    pub open spec fn wf(self) -> bool {
        &&& fs_inv(self.disk, self.manager)
        &&& self.fds_ok()
    }

    /// What every syscall but close also preserves: the registry
    /// tracks every directory name. A close drops a registry record
    /// while the directory keeps the name, so this part does not
    /// survive a close.
    pub open spec fn covers(self) -> bool {
        fs_tracked(self.disk, self.manager)
    }

    /// A fresh kernel: empty storage, empty registry, and a descriptor
    /// table holding only the two reserved console descriptors.
    pub fn new() -> (r: Kernel)
        ensures
            r.wf(),
            r.covers(),
            r.disk.files@.len() == 0,
            r.disk.root_dir@.len() == 0,
            r.manager.inodes@.len() == 0,
            r.fd_table@.len() == 2,
            r.fd_table@[0] == Some(FdEntry::Stdin),
            r.fd_table@[1] == Some(FdEntry::Stdout),
            r.stdin_buf@.len() == 0,
            r.stdout_buf@.len() == 0,
    {
        let mut fd_table: Vec<Option<FdEntry>> = Vec::new();
        fd_table.push(Some(FdEntry::Stdin));
        fd_table.push(Some(FdEntry::Stdout));
        Kernel {
            disk: Disk::new(),
            manager: OSInodeManager::new(),
            fd_table,
            stdin_buf: Vec::new(),
            stdout_buf: Vec::new(),
        }
    }

    /// Queue bytes on the console input, where a read of descriptor
    /// zero will take them from.
    pub fn feed_stdin(&mut self, data: &Vec<u8>)
        ensures
            final(self).stdin_buf@ == old(self).stdin_buf@ + data@,
            *final(self) == (Kernel { stdin_buf: final(self).stdin_buf, ..*old(self) }),
    {
        let n = data.len();
        for i in 0..n
            invariant
                n == data@.len(),
                self.stdin_buf@ == old(self).stdin_buf@ + data@.take(i as int),
                *self == (Kernel { stdin_buf: self.stdin_buf, ..*old(self) }),
        {
            self.stdin_buf.push(data[i]);
            proof {
                assert(self.stdin_buf@ =~= old(self).stdin_buf@ + data@.take(i + 1));
            }
        }
        proof {
            assert(data@.take(n as int) =~= data@);
        }
    }

    /// Drain everything a write to descriptor one has queued on the
    /// console output.
    pub fn take_stdout(&mut self) -> (r: Vec<u8>)
        ensures
            r@ == old(self).stdout_buf@,
            final(self).stdout_buf@.len() == 0,
            *final(self) == (Kernel { stdout_buf: final(self).stdout_buf, ..*old(self) }),
    {
        let mut r: Vec<u8> = Vec::new();
        core::mem::swap(&mut r, &mut self.stdout_buf);
        r
    }

    /// The slot index a fresh descriptor gets: the lowest free slot,
    /// or a new slot at the end of the table.
    pub fn alloc_fd(&mut self) -> (fd: usize)
        requires
            old(self).fd_table@.len() < usize::MAX,
        ensures
            fd < final(self).fd_table@.len(),
            final(self).fd_table@[fd as int] is None,
            *final(self) == (Kernel { fd_table: final(self).fd_table, ..*old(self) }),
            (fd < old(self).fd_table@.len() && *final(self) == *old(self)) || (fd == old(
                self,
            ).fd_table@.len() && final(self).fd_table@ == old(self).fd_table@.push(None)),
    {
        let n = self.fd_table.len();
        for i in 0..n
            invariant
                n == self.fd_table@.len(),
                *self == *old(self),
        {
            if self.fd_table[i].is_none() {
                return i;
            }
        }
        self.fd_table.push(None);
        n
    }
}

} // verus!
