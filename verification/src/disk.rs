use vstd::prelude::*;

verus! {

/// One entry of the flat root directory: a name bound to the inode
/// number of a storage object.
pub struct DirEntry {
    pub name: String,
    pub ino: u64,
}

/// The bytes that reading up to `len` bytes at offset `off` from a file
/// with the given content yields: the slice starting at `off` that is
/// `len` bytes long, or shorter when the content ends before that.
pub open spec fn read_bytes(content: Seq<u8>, off: int, len: int) -> Seq<u8> {
    if off >= content.len() || len <= 0 {
        Seq::empty()
    } else if off + len >= content.len() {
        content.subrange(off, content.len() as int)
    } else {
        content.subrange(off, off + len)
    }
}

/// The content of a file after writing `data` at offset `off`: bytes
/// below `off` are kept (zero-filled where the file was shorter), the
/// written range holds `data`, and bytes past it are kept.
pub open spec fn write_bytes(content: Seq<u8>, off: int, data: Seq<u8>) -> Seq<u8> {
    Seq::new(
        if content.len() >= off + data.len() {
            content.len()
        } else {
            (off + data.len()) as nat
        },
        |i: int|
            if off <= i < off + data.len() {
                data[i - off]
            } else if i < content.len() {
                content[i]
            } else {
                0u8
            },
    )
}

/// Law: bytes written at an offset are read back unchanged from that
/// offset, whatever the file held before.
pub proof fn lemma_read_back_written(content: Seq<u8>, off: int, data: Seq<u8>)
    requires
        0 <= off,
    ensures
        read_bytes(write_bytes(content, off, data), off, data.len() as int) == data,
{
    let w = write_bytes(content, off, data);
    if data.len() == 0 {
        assert(read_bytes(w, off, 0) =~= data);
    } else {
        assert(read_bytes(w, off, data.len() as int) =~= data);
    }
}

/// Law: a read of a file without content yields no bytes, whatever the
/// offset and length asked for.
pub proof fn lemma_read_empty(off: int, len: int)
    requires
        0 <= off,
    ensures
        read_bytes(Seq::empty(), off, len) == Seq::<u8>::empty(),
{
}

/// The in-memory model of the storage layer: every storage object ever
/// created, indexed by inode number, and the flat root directory that
/// binds at most one name to an object. Removing a name orphans the
/// object rather than destroying it, so handles that still refer to it
/// keep working.
pub struct Disk {
    pub files: Vec<Vec<u8>>,
    pub root_dir: Vec<DirEntry>,
}

impl Disk {
    /// Every directory name is bound once, and every entry points at an
    /// existing object.
    pub open spec fn wf(self) -> bool {
        &&& forall|i: int, j: int|
            0 <= i < self.root_dir@.len() && 0 <= j < self.root_dir@.len() && i != j
                ==> #[trigger] self.root_dir@[i].name@ != #[trigger] self.root_dir@[j].name@
        &&& forall|i: int|
            0 <= i < self.root_dir@.len() ==> #[trigger] self.root_dir@[i].ino
                < self.files@.len()
    }

    pub open spec fn dir_has(self, name: Seq<char>) -> bool {
        exists|i: int| 0 <= i < self.root_dir@.len() && #[trigger] self.root_dir@[i].name@ == name
    }

    pub open spec fn valid_ino(self, ino: u64) -> bool {
        ino < self.files@.len()
    }

    /// The byte content of the object numbered `ino`.
    pub open spec fn file_at(self, ino: u64) -> Seq<u8> {
        self.files@[ino as int]@
    }

    pub fn new() -> (r: Disk)
        ensures
            r.wf(),
            r.files@.len() == 0,
            r.root_dir@.len() == 0,
    {
        Disk { files: Vec::new(), root_dir: Vec::new() }
    }

    /// Resolve a name through the root directory.
    pub fn find(&self, name: &String) -> (r: Option<u64>)
        requires
            self.wf(),
        ensures
            (r is Some) <==> self.dir_has(name@),
            r is Some ==> exists|i: int|
                0 <= i < self.root_dir@.len() && #[trigger] self.root_dir@[i].name@ == name@
                    && self.root_dir@[i].ino == r->Some_0,
            r is Some ==> self.valid_ino(r->Some_0),
    {
        let n = self.root_dir.len();
        for i in 0..n
            invariant
                n == self.root_dir@.len(),
                self.wf(),
                forall|j: int| 0 <= j < i ==> #[trigger] self.root_dir@[j].name@ != name@,
        {
            if self.root_dir[i].name == *name {
                return Some(self.root_dir[i].ino);
            }
        }
        None
    }

    /// Create an empty storage object bound to `name`. A name that is
    /// already bound is refused, as the underlying directory refuses it.
    pub fn create(&mut self, name: &String) -> (r: Option<u64>)
        requires
            old(self).wf(),
        ensures
            final(self).wf(),
            (r is Some) <==> !old(self).dir_has(name@),
            r is None ==> *final(self) == *old(self),
            r is Some ==> {
                &&& r->Some_0 == old(self).files@.len()
                &&& final(self).files@.len() == old(self).files@.len() + 1
                &&& final(self).file_at(r->Some_0) == Seq::<u8>::empty()
                &&& (forall|k: int|
                    0 <= k < old(self).files@.len() ==> final(self).files@[k] == old(
                        self,
                    ).files@[k])
                &&& final(self).root_dir@.len() == old(self).root_dir@.len() + 1
                &&& (forall|k: int|
                    0 <= k < old(self).root_dir@.len() ==> final(self).root_dir@[k] == old(
                        self,
                    ).root_dir@[k])
                &&& final(self).root_dir@.last().name@ == name@
                &&& final(self).root_dir@.last().ino == r->Some_0
                &&& final(self).dir_has(name@)
                &&& final(self).valid_ino(r->Some_0)
            },
    {
        if self.find(name).is_some() {
            return None;
        }
        let ino = self.files.len() as u64;
        self.files.push(Vec::new());
        self.root_dir.push(DirEntry { name: name.clone(), ino });
        Some(ino)
    }

    /// Drop the binding of `name` in the root directory, handing back
    /// the inode number it was bound to. The object itself stays.
    pub fn remove(&mut self, name: &String) -> (r: Option<u64>)
        requires
            old(self).wf(),
        ensures
            final(self).wf(),
            (r is Some) <==> old(self).dir_has(name@),
            final(self).files@ == old(self).files@,
            r is None ==> final(self).root_dir@ == old(self).root_dir@,
            r is Some ==> exists|i: int|
                {
                    &&& 0 <= i < old(self).root_dir@.len()
                    &&& (#[trigger] old(self).root_dir@[i]).name@ == name@
                    &&& r->Some_0 == old(self).root_dir@[i].ino
                    &&& final(self).root_dir@ == old(self).root_dir@.remove(i)
                },
            !final(self).dir_has(name@),
            forall|nm: Seq<char>|
                nm != name@ ==> #[trigger] final(self).dir_has(nm) == old(self).dir_has(nm),
    {
        let ghost pre = *self;
        let n = self.root_dir.len();
        let mut idx: usize = 0;
        let mut found = false;
        for i in 0..n
            invariant
                n == self.root_dir@.len(),
                self.wf(),
                found ==> idx < i && self.root_dir@[idx as int].name@ == name@,
                !found ==> forall|j: int|
                    0 <= j < i ==> #[trigger] self.root_dir@[j].name@ != name@,
        {
            if !found && self.root_dir[i].name == *name {
                idx = i;
                found = true;
            }
        }
        if !found {
            return None;
        }
        let entry = self.root_dir.remove(idx);
        proof {
            assert forall|nm: Seq<char>| nm != name@ implies #[trigger] self.dir_has(nm) == pre.dir_has(
                nm,
            ) by {
                if pre.dir_has(nm) {
                    let w = choose|i: int|
                        0 <= i < pre.root_dir@.len() && #[trigger] pre.root_dir@[i].name@ == nm;
                    if w < idx {
                        assert(self.root_dir@[w].name@ == nm);
                    } else {
                        assert(self.root_dir@[w - 1].name@ == nm);
                    }
                }
                if self.dir_has(nm) {
                    let w = choose|i: int|
                        0 <= i < self.root_dir@.len() && #[trigger] self.root_dir@[i].name@ == nm;
                    if w < idx {
                        assert(pre.root_dir@[w].name@ == nm);
                    } else {
                        assert(pre.root_dir@[w + 1].name@ == nm);
                    }
                }
            }
            assert forall|i: int| 0 <= i < self.root_dir@.len() implies #[trigger] self.root_dir@[i].name@
                != name@ by {
                if i < idx {
                    assert(self.root_dir@[i] == pre.root_dir@[i]);
                } else {
                    assert(self.root_dir@[i] == pre.root_dir@[i + 1]);
                }
            }
        }
        Some(entry.ino)
    }

    /// Truncate the object numbered `ino` to zero length.
    pub fn clear(&mut self, ino: u64)
        requires
            old(self).wf(),
            old(self).valid_ino(ino),
        ensures
            final(self).wf(),
            final(self).root_dir@ == old(self).root_dir@,
            final(self).files@.len() == old(self).files@.len(),
            final(self).file_at(ino) == Seq::<u8>::empty(),
            forall|k: int|
                0 <= k < old(self).files@.len() && k != ino ==> final(self).files@[k] == old(
                    self,
                ).files@[k],
    {
        let nfiles = self.files.len();
        proof {
            assert(ino < nfiles);
        }
        self.files[ino as usize] = Vec::new();
    }

    /// Read up to `len` bytes at offset `off` from the object numbered
    /// `ino`.
    pub fn read_at(&self, ino: u64, off: usize, len: usize) -> (r: Vec<u8>)
        requires
            self.wf(),
            self.valid_ino(ino),
        ensures
            r@ == read_bytes(self.file_at(ino), off as int, len as int),
    {
        let nfiles = self.files.len();
        proof {
            assert(ino < nfiles);
        }
        let flen = self.files[ino as usize].len();
        if off >= flen || len == 0 {
            let r: Vec<u8> = Vec::new();
            assert(r@ =~= read_bytes(self.file_at(ino), off as int, len as int));
            return r;
        }
        let end = if len < flen - off {
            off + len
        } else {
            flen
        };
        let mut r: Vec<u8> = Vec::new();
        for j in off..end
            invariant
                self.wf(),
                self.valid_ino(ino),
                nfiles == self.files.len(),
                ino < nfiles,
                off <= j <= end <= flen,
                flen == self.file_at(ino).len(),
                r@.len() == j - off,
                forall|k: int| 0 <= k < r@.len() ==> #[trigger] r@[k] == self.file_at(ino)[off + k],
        {
            let b = self.files[ino as usize][j];
            r.push(b);
        }
        proof {
            assert(r@ =~= read_bytes(self.file_at(ino), off as int, len as int));
        }
        r
    }

    /// Write all of `data` at offset `off` into the object numbered
    /// `ino`. The underlying layer always consumes the whole slice, so
    /// the count written equals the slice's length.
    pub fn write_at(&mut self, ino: u64, off: usize, data: &Vec<u8>) -> (n: usize)
        requires
            old(self).wf(),
            old(self).valid_ino(ino),
            off + data@.len() <= usize::MAX,
        ensures
            n == data@.len(),
            final(self).wf(),
            final(self).root_dir@ == old(self).root_dir@,
            final(self).files@.len() == old(self).files@.len(),
            final(self).file_at(ino) == write_bytes(old(self).file_at(ino), off as int, data@),
            forall|k: int|
                0 <= k < old(self).files@.len() && k != ino ==> final(self).files@[k] == old(
                    self,
                ).files@[k],
    {
        let ghost target = write_bytes(old(self).file_at(ino), off as int, data@);
        let nfiles = self.files.len();
        proof {
            assert(ino < nfiles);
        }
        let flen = self.files[ino as usize].len();
        let end = off + data.len();
        let new_len = if flen > end {
            flen
        } else {
            end
        };
        let mut w: Vec<u8> = Vec::new();
        for i in 0..new_len
            invariant
                self == old(self),
                self.valid_ino(ino),
                nfiles == self.files.len(),
                ino < nfiles,
                flen == self.file_at(ino).len(),
                target == write_bytes(old(self).file_at(ino), off as int, data@),
                end == off + data@.len(),
                end <= new_len,
                flen <= new_len,
                new_len == target.len(),
                w@.len() == i,
                forall|k: int| 0 <= k < w@.len() ==> #[trigger] w@[k] == target[k],
        {
            let b: u8 = if off <= i && i < end {
                data[i - off]
            } else if i < flen {
                self.files[ino as usize][i]
            } else {
                0
            };
            proof {
                assert(b == target[i as int]);
            }
            w.push(b);
        }
        self.files[ino as usize] = w;
        proof {
            assert(self.file_at(ino) =~= target);
        }
        data.len()
    }

    /// The names the root directory currently lists, in directory order.
    pub fn ls(&self) -> (r: Vec<String>)
        ensures
            r@.len() == self.root_dir@.len(),
            forall|i: int| 0 <= i < r@.len() ==> #[trigger] r@[i]@ == self.root_dir@[i].name@,
    {
        let n = self.root_dir.len();
        let mut r: Vec<String> = Vec::new();
        for i in 0..n
            invariant
                n == self.root_dir@.len(),
                r@.len() == i,
                forall|k: int| 0 <= k < i ==> #[trigger] r@[k]@ == self.root_dir@[k].name@,
        {
            r.push(self.root_dir[i].name.clone());
        }
        r
    }
}

} // verus!
