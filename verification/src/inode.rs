use crate::disk::{read_bytes, write_bytes, Disk};
use crate::stat::{Stat, StatMode};
use vstd::prelude::*;

verus! {

/// One open-file handle: capability flags, the name it was opened
/// under, a private offset, and a cached metadata record whose `ino`
/// field names the storage object the handle wraps.
///
/// Two handles opened for the same name share the storage object but
/// never an offset. The cached record is a snapshot: the registry keeps
/// the authoritative link count.
pub struct OSInode {
    pub readable: bool,
    pub writable: bool,
    pub offset: usize,
    pub name: String,
    pub stat: Stat,
}

impl OSInode {
    /// The inode number of the storage object this handle wraps.
    pub open spec fn ino(self) -> u64 {
        self.stat.ino
    }

    /// The same handle with the cached link count replaced.
    pub open spec fn with_nlink(self, n: u32) -> OSInode {
        OSInode { stat: Stat { nlink: n, ..self.stat }, ..self }
    }

    /// Build a handle for the object numbered `ino`, opened under
    /// `name`, with the offset at the start. Everything this layer
    /// hands out wraps a regular file, so the cached record starts as a
    /// file bearing one link; the registry corrects the count when the
    /// record joins it.
    pub fn new(readable: bool, writable: bool, ino: u64, name: &String) -> (r: OSInode)
        ensures
            r.readable == readable,
            r.writable == writable,
            r.offset == 0,
            r.name@ == name@,
            r.stat.dev == 0,
            r.stat.ino == ino,
            r.ino() == ino,
            r.stat.mode == StatMode::File,
            r.stat.nlink == 1,
    {
        OSInode {
            readable,
            writable,
            offset: 0,
            name: name.clone(),
            stat: Stat { dev: 0, ino, mode: StatMode::File, nlink: 1, pad: [0; 7] },
        }
    }

    /// Read up to `len` bytes starting at this handle's private offset,
    /// advancing the offset by exactly what was read. Nothing besides
    /// the offset changes, so reading through one handle never moves
    /// another handle's offset.
    pub fn read(&mut self, disk: &Disk, len: usize) -> (r: Vec<u8>)
        requires
            disk.wf(),
            disk.valid_ino(old(self).ino()),
        ensures
            r@ == read_bytes(disk.file_at(old(self).ino()), old(self).offset as int, len as int),
            final(self).offset == old(self).offset + r@.len(),
            *final(self) == (OSInode { offset: final(self).offset, ..*old(self) }),
    {
        let nf = disk.files.len();
        proof {
            assert(self.stat.ino < nf);
        }
        let flen = disk.files[self.stat.ino as usize].len();
        let r = disk.read_at(self.stat.ino, self.offset, len);
        proof {
            assert(self.offset + r@.len() <= usize::MAX);
        }
        self.offset = self.offset + r.len();
        r
    }

    /// Read everything from this handle's private offset to the end of
    /// the file, advancing the offset to the end.
    pub fn read_all(&mut self, disk: &Disk) -> (r: Vec<u8>)
        requires
            disk.wf(),
            disk.valid_ino(old(self).ino()),
        ensures
            r@ == read_bytes(
                disk.file_at(old(self).ino()),
                old(self).offset as int,
                disk.file_at(old(self).ino()).len() as int,
            ),
            final(self).offset == old(self).offset + r@.len(),
            *final(self) == (OSInode { offset: final(self).offset, ..*old(self) }),
    {
        let nf = disk.files.len();
        proof {
            assert(self.stat.ino < nf);
        }
        let flen = disk.files[self.stat.ino as usize].len();
        self.read(disk, flen)
    }

    /// Write all of `data` at this handle's private offset, advancing
    /// the offset by the count written. The storage layer consumes the
    /// whole slice, so the count equals the slice's length: a short
    /// write cannot happen.
    pub fn write(&mut self, disk: &mut Disk, data: &Vec<u8>) -> (n: usize)
        requires
            old(disk).wf(),
            old(disk).valid_ino(old(self).ino()),
            old(self).offset + data@.len() <= usize::MAX,
        ensures
            n == data@.len(),
            final(disk).wf(),
            final(disk).root_dir@ == old(disk).root_dir@,
            final(disk).files@.len() == old(disk).files@.len(),
            final(disk).file_at(old(self).ino()) == write_bytes(
                old(disk).file_at(old(self).ino()),
                old(self).offset as int,
                data@,
            ),
            forall|k: int|
                0 <= k < old(disk).files@.len() && k != old(self).ino()
                    ==> final(disk).files@[k] == old(disk).files@[k],
            final(self).offset == old(self).offset + n,
            *final(self) == (OSInode { offset: final(self).offset, ..*old(self) }),
    {
        let n = disk.write_at(self.stat.ino, self.offset, data);
        self.offset = self.offset + n;
        n
    }

    pub fn get_ino(&self) -> (r: u64)
        ensures
            r == self.ino(),
    {
        self.stat.ino
    }

    pub fn set_link(&mut self, nlink: u32)
        ensures
            *final(self) == old(self).with_nlink(nlink),
    {
        self.stat.nlink = nlink;
    }

    pub fn get_stat(&self) -> (r: &Stat)
        ensures
            *r == self.stat,
    {
        &self.stat
    }

    pub fn set_readable(&mut self, readable: bool)
        ensures
            *final(self) == (OSInode { readable, ..*old(self) }),
    {
        self.readable = readable;
    }

    pub fn set_writable(&mut self, writable: bool)
        ensures
            *final(self) == (OSInode { writable, ..*old(self) }),
    {
        self.writable = writable;
    }

    pub fn readable(&self) -> (r: bool)
        ensures
            r == self.readable,
    {
        self.readable
    }

    pub fn writable(&self) -> (r: bool)
        ensures
            r == self.writable,
    {
        self.writable
    }

    pub fn get_name(&self) -> (r: String)
        ensures
            r@ == self.name@,
    {
        self.name.clone()
    }
}

} // verus!
