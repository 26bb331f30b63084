use crate::disk::{read_bytes, write_bytes};
use crate::flags::OpenFlags;
use crate::fs::{
    fresh_handle, link_transition, new_fromname, open_file, open_transition, rmv_fromna,
    rmv_fromno, unlink_transition,
};
use crate::inode::OSInode;
use crate::kernel::{FdEntry, Kernel};
use crate::registry::{has_name, inos_below, lemma_prune_keeps_consistency, with_count_for};
use crate::stat::Stat;
use vstd::prelude::*;

verus! {

/// Open `path` with the given flag word and store the fresh handle in
/// the lowest free descriptor slot. The open fails exactly when the
/// name is known neither to the root directory nor to the link
/// registry and the create flag is not set; the caller sees the new
/// descriptor on success and a negative result on failure.
pub fn sys_open(k: &mut Kernel, path: &String, flags: u32) -> (r: isize)
    requires
        old(k).wf(),
        old(k).covers(),
        flags & OpenFlags::ALL == flags,
        old(k).manager.inodes@.len() < u32::MAX,
        old(k).fd_table@.len() < isize::MAX,
    ensures
        final(k).wf(),
        final(k).covers(),
        (r == -1) <==> !((OpenFlags { bits: flags }).spec_contains(OpenFlags::CREATE) || old(
            k,
        ).disk.dir_has(path@) || has_name(old(k).manager.inodes@, path@)),
        r == -1 ==> *final(k) == *old(k),
        r != -1 ==> {
            &&& 0 <= r < final(k).fd_table@.len()
            &&& (final(k).fd_table@[r as int] matches Some(FdEntry::File(h)) && fresh_handle(
                h,
                (OpenFlags { bits: flags }),
                path@,
                h.ino(),
            ) && open_transition(
                old(k).disk,
                old(k).manager,
                final(k).disk,
                final(k).manager,
                path@,
                (OpenFlags { bits: flags }),
                Some(h),
            ))
            &&& (forall|j: int|
                0 <= j < old(k).fd_table@.len() && j != r ==> final(k).fd_table@[j] == old(
                    k,
                ).fd_table@[j])
            &&& final(k).stdin_buf == old(k).stdin_buf
            &&& final(k).stdout_buf == old(k).stdout_buf
        },
{
    let fl = match OpenFlags::from_bits(flags) {
        Some(f) => f,
        None => {
            proof {
                assert(false);
            }
            return -1;
        },
    };
    match open_file(&mut k.disk, &mut k.manager, path, fl) {
        Some(h) => {
            let ghost d0 = old(k).disk;
            let fd = k.alloc_fd();
            k.fd_table[fd] = Some(FdEntry::File(h));
            proof {
                assert(k.disk.files@.len() >= d0.files@.len());
                assert forall|j: int|
                    0 <= j < k.fd_table@.len() implies ((#[trigger] k.fd_table@[j]) matches Some(
                    FdEntry::File(g),
                ) ==> g.ino() < k.disk.files@.len()) by {
                    if j != fd && j < old(k).fd_table@.len() {
                        assert(k.fd_table@[j] == old(k).fd_table@[j]);
                    }
                }
            }
            fd as isize
        },
        None => -1,
    }
}

/// Release descriptor `fd`. Closing a file descriptor also runs the
/// same reconciliation as an unlink of the handle's name: the shared
/// link count of the object drops by one and the name's registry
/// record is pruned, so an open reference and a hard link are counted
/// by one and the same counter. The reserved console descriptors are
/// simply released, and a file descriptor whose name the registry no
/// longer knows is left in place with success reported.
pub fn sys_close(k: &mut Kernel, fd: usize) -> (r: isize)
    requires
        old(k).wf(),
    ensures
        final(k).wf(),
        fd >= old(k).fd_table@.len() ==> r == -1 && *final(k) == *old(k),
        (fd < old(k).fd_table@.len() && (fd == 0 || fd == 1)) ==> r == 0 && final(k).fd_table@
            == old(k).fd_table@.update(fd as int, None) && (*final(k) == (Kernel {
            fd_table: final(k).fd_table,
            ..*old(k)
        })),
        (2 <= fd < old(k).fd_table@.len() && old(k).fd_table@[fd as int] is None) ==> r == -1
            && *final(k) == *old(k),
        old(k).fd_table@[fd as int] matches Some(FdEntry::File(h)) ==> ((2 <= fd < old(
            k,
        ).fd_table@.len()) ==> {
            &&& r == 0
            &&& final(k).disk == old(k).disk
            &&& final(k).stdin_buf == old(k).stdin_buf
            &&& final(k).stdout_buf == old(k).stdout_buf
            &&& (!has_name(old(k).manager.inodes@, h.name@) ==> *final(k) == *old(k))
            &&& (has_name(old(k).manager.inodes@, h.name@) ==> {
                &&& final(k).fd_table@ == old(k).fd_table@.update(fd as int, None)
                &&& (exists|i: int|
                    {
                        &&& 0 <= i < old(k).manager.inodes@.len()
                        &&& (#[trigger] old(k).manager.inodes@[i]).name@ == h.name@
                        &&& final(k).manager.inodes@ == with_count_for(
                            old(k).manager.inodes@,
                            old(k).manager.inodes@[i].ino(),
                            (old(k).manager.inodes@[i].stat.nlink - 1) as u32,
                        ).remove(i)
                    })
            })
        }),
        (2 <= fd < old(k).fd_table@.len() && (old(k).fd_table@[fd as int] matches Some(e)
            && !(e is File))) ==> r == 0 && *final(k) == *old(k),
{
    let n = k.fd_table.len();
    if fd >= n {
        return -1;
    }
    if fd == 0 || fd == 1 {
        k.fd_table[fd] = None;
        return 0;
    }
    if k.fd_table[fd].is_none() {
        return -1;
    }
    let nm: Option<String> = match &k.fd_table[fd] {
        Some(FdEntry::File(h)) => Some(h.name.clone()),
        _ => None,
    };
    match nm {
        None => 0,
        Some(name) => {
            let looked: Option<(u64, u32)> = match k.manager.find_inode(&name) {
                Some(rec) => Some((rec.get_ino(), rec.get_stat().nlink)),
                None => None,
            };
            match looked {
                None => 0,
                Some((ino, lik)) => {
                    let ghost s = k.manager.inodes@;
                    let ghost j = choose|j: int|
                        0 <= j < s.len() && (#[trigger] s[j]).name@ == name@ && s[j].ino() == ino
                            && s[j].stat.nlink == lik;
                    proof {
                        lemma_prune_keeps_consistency(s, j, k.disk.files@.len() as int);
                    }
                    rmv_fromno(&mut k.manager, ino, lik - 1, name);
                    k.fd_table[fd] = None;
                    proof {
                        let i = choose|i: int|
                            0 <= i < s.len() && (#[trigger] s[i]).name@ == name@
                                && k.manager.inodes@ == with_count_for(s, ino, (lik - 1) as u32,
                            ).remove(i);
                        assert(i == j);
                        assert forall|j2: int|
                            0 <= j2 < k.fd_table@.len() implies ((#[trigger] k.fd_table@[j2])
                            matches Some(FdEntry::File(g)) ==> g.ino()
                            < k.disk.files@.len()) by {
                            if j2 != fd {
                                assert(k.fd_table@[j2] == old(k).fd_table@[j2]);
                            }
                        }
                    }
                    0
                },
            }
        },
    }
}

/// Write the whole buffer through descriptor `fd`: to the console
/// output for the reserved console descriptor, else through the
/// descriptor's own handle at the handle's private offset. A
/// descriptor that is absent or not writable refuses the write; an
/// accepted write consumes the whole buffer and moves no state but the
/// written file and the one handle's offset, so no other handle's
/// offset moves.
pub fn sys_write(k: &mut Kernel, fd: usize, buf: &Vec<u8>) -> (r: isize)
    requires
        old(k).wf(),
        buf@.len() <= isize::MAX,
        fd < old(k).fd_table@.len() ==> (old(k).fd_table@[fd as int] matches Some(FdEntry::File(h))
            ==> h.offset + buf@.len() <= usize::MAX),
    ensures
        final(k).wf(),
        old(k).covers() ==> final(k).covers(),
        (r == -1) <==> !old(k).fd_writable(fd),
        r == -1 ==> *final(k) == *old(k),
        r != -1 ==> r == buf@.len(),
        (old(k).fd_writable(fd) && old(k).fd_table@[fd as int]->Some_0 is Stdout)
            ==> final(k).stdout_buf@ == old(k).stdout_buf@ + buf@ && (*final(k) == (Kernel {
            stdout_buf: final(k).stdout_buf,
            ..*old(k)
        })),
        old(k).fd_table@[fd as int] matches Some(FdEntry::File(h)) ==> (old(k).fd_writable(fd)
            ==> {
            &&& final(k).disk.file_at(h.ino()) == write_bytes(
                old(k).disk.file_at(h.ino()),
                h.offset as int,
                buf@,
            )
            &&& final(k).disk.files@.len() == old(k).disk.files@.len()
            &&& (forall|m: int|
                0 <= m < old(k).disk.files@.len() && m != h.ino() ==> final(k).disk.files@[m]
                    == old(k).disk.files@[m])
            &&& final(k).disk.root_dir@ == old(k).disk.root_dir@
            &&& final(k).manager == old(k).manager
            &&& final(k).stdin_buf == old(k).stdin_buf
            &&& final(k).stdout_buf == old(k).stdout_buf
            &&& final(k).fd_table@ == old(k).fd_table@.update(
                fd as int,
                Some(
                    FdEntry::File(
                        (OSInode { offset: (h.offset + buf@.len()) as usize, ..h }),
                    ),
                ),
            )
        }),
{
    let n = k.fd_table.len();
    if fd >= n {
        return -1;
    }
    let mut is_stdout = false;
    match &k.fd_table[fd] {
        None => {
            return -1;
        },
        Some(FdEntry::Stdin) => {
            return -1;
        },
        Some(FdEntry::Stdout) => {
            is_stdout = true;
        },
        Some(FdEntry::File(h)) => {
            if !h.writable {
                return -1;
            }
        },
    }
    if is_stdout {
        let m = buf.len();
        for i in 0..m
            invariant
                m == buf@.len(),
                k.stdout_buf@ == old(k).stdout_buf@ + buf@.take(i as int),
                *k == (Kernel { stdout_buf: k.stdout_buf, ..*old(k) }),
        {
            k.stdout_buf.push(buf[i]);
            proof {
                assert(k.stdout_buf@ =~= old(k).stdout_buf@ + buf@.take(i + 1));
            }
        }
        proof {
            assert(buf@.take(m as int) =~= buf@);
        }
        return m as isize;
    }
    let parts: (bool, bool, usize, Stat, String) = match &k.fd_table[fd] {
        Some(FdEntry::File(h)) => (h.readable, h.writable, h.offset, h.stat, h.name.clone()),
        _ => {
            proof {
                assert(false);
            }
            (false, false, 0, (Stat { dev: 0, ino: 0, mode: crate::stat::StatMode::File, nlink: 0, pad: [0; 7] }), String::new())
        },
    };
    let mut h2 = OSInode {
        readable: parts.0,
        writable: parts.1,
        offset: parts.2,
        stat: parts.3,
        name: parts.4,
    };
    let nbytes = h2.write(&mut k.disk, buf);
    k.fd_table[fd] = Some(FdEntry::File(h2));
    proof {
        assert forall|j2: int|
            0 <= j2 < k.fd_table@.len() implies ((#[trigger] k.fd_table@[j2]) matches Some(
            FdEntry::File(g),
        ) ==> g.ino() < k.disk.files@.len()) by {
            if j2 != fd {
                assert(k.fd_table@[j2] == old(k).fd_table@[j2]);
            }
        }
    }
    nbytes as isize
}

/// Read up to `len` bytes through descriptor `fd`: from the console
/// input for the reserved console descriptor, else through the
/// descriptor's own handle at the handle's private offset, which
/// advances by exactly what was read while every other handle stays
/// put. The bytes read come back beside the count; a descriptor that
/// is absent or not readable refuses the read.
pub fn sys_read(k: &mut Kernel, fd: usize, len: usize) -> (r: (isize, Vec<u8>))
    requires
        old(k).wf(),
        len <= isize::MAX,
    ensures
        final(k).wf(),
        old(k).covers() ==> final(k).covers(),
        (r.0 == -1) <==> !old(k).fd_readable(fd),
        r.0 == -1 ==> *final(k) == *old(k) && r.1@.len() == 0,
        r.0 != -1 ==> r.0 == r.1@.len() && r.1@.len() <= len,
        (old(k).fd_readable(fd) && old(k).fd_table@[fd as int]->Some_0 is Stdin) ==> {
            &&& r.1@ == old(k).stdin_buf@.take(r.1@.len() as int)
            &&& r.1@.len() == (if len <= old(k).stdin_buf@.len() {
                len as int
            } else {
                old(k).stdin_buf@.len() as int
            })
            &&& final(k).stdin_buf@ == old(k).stdin_buf@.skip(r.1@.len() as int)
            &&& (*final(k) == (Kernel { stdin_buf: final(k).stdin_buf, ..*old(k) }))
        },
        old(k).fd_table@[fd as int] matches Some(FdEntry::File(h)) ==> (old(k).fd_readable(fd)
            ==> {
            &&& r.1@ == read_bytes(old(k).disk.file_at(h.ino()), h.offset as int, len as int)
            &&& final(k).disk == old(k).disk
            &&& final(k).manager == old(k).manager
            &&& final(k).stdin_buf == old(k).stdin_buf
            &&& final(k).stdout_buf == old(k).stdout_buf
            &&& final(k).fd_table@ == old(k).fd_table@.update(
                fd as int,
                Some(
                    FdEntry::File(
                        (OSInode { offset: (h.offset + r.1@.len()) as usize, ..h }),
                    ),
                ),
            )
        }),
{
    let n = k.fd_table.len();
    if fd >= n {
        return (-1, Vec::new());
    }
    let mut is_stdin = false;
    match &k.fd_table[fd] {
        None => {
            return (-1, Vec::new());
        },
        Some(FdEntry::Stdin) => {
            is_stdin = true;
        },
        Some(FdEntry::Stdout) => {
            return (-1, Vec::new());
        },
        Some(FdEntry::File(h)) => {
            if !h.readable {
                return (-1, Vec::new());
            }
        },
    }
    if is_stdin {
        let avail = k.stdin_buf.len();
        let m = if len <= avail {
            len
        } else {
            avail
        };
        let mut out: Vec<u8> = Vec::new();
        for i in 0..m
            invariant
                m <= avail,
                avail == k.stdin_buf@.len(),
                out@.len() == i,
                forall|q: int| 0 <= q < i ==> #[trigger] out@[q] == k.stdin_buf@[q],
                *k == *old(k),
        {
            out.push(k.stdin_buf[i]);
        }
        let mut rest: Vec<u8> = Vec::new();
        for i in m..avail
            invariant
                m <= avail,
                avail == k.stdin_buf@.len(),
                rest@.len() == i - m,
                forall|q: int| 0 <= q < i - m ==> #[trigger] rest@[q] == k.stdin_buf@[m + q],
                *k == *old(k),
        {
            rest.push(k.stdin_buf[i]);
        }
        k.stdin_buf = rest;
        proof {
            assert(out@ =~= old(k).stdin_buf@.take(out@.len() as int));
            assert(k.stdin_buf@ =~= old(k).stdin_buf@.skip(out@.len() as int));
        }
        return (m as isize, out);
    }
    let parts: (bool, bool, usize, Stat, String) = match &k.fd_table[fd] {
        Some(FdEntry::File(h)) => (h.readable, h.writable, h.offset, h.stat, h.name.clone()),
        _ => {
            proof {
                assert(false);
            }
            (false, false, 0, (Stat { dev: 0, ino: 0, mode: crate::stat::StatMode::File, nlink: 0, pad: [0; 7] }), String::new())
        },
    };
    let mut h2 = OSInode {
        readable: parts.0,
        writable: parts.1,
        offset: parts.2,
        stat: parts.3,
        name: parts.4,
    };
    let data = h2.read(&k.disk, len);
    k.fd_table[fd] = Some(FdEntry::File(h2));
    proof {
        assert forall|j2: int|
            0 <= j2 < k.fd_table@.len() implies ((#[trigger] k.fd_table@[j2]) matches Some(
            FdEntry::File(g),
        ) ==> g.ino() < k.disk.files@.len()) by {
            if j2 != fd {
                assert(k.fd_table@[j2] == old(k).fd_table@[j2]);
            }
        }
    }
    let count = data.len();
    (count as isize, data)
}

/// Create the hard link `new_name` for the object `old_name` resolves
/// to in the registry. Succeeds exactly when `old_name` is registered
/// and `new_name` is not; afterwards every name of the object,
/// `new_name` included, reports the grown shared link count.
pub fn sys_linkat(k: &mut Kernel, old_name: &String, new_name: &String) -> (r: isize)
    requires
        old(k).wf(),
        old(k).covers(),
        old(k).manager.inodes@.len() < u32::MAX,
    ensures
        final(k).wf(),
        final(k).covers(),
        (r == 0) <==> (has_name(old(k).manager.inodes@, old_name@) && !has_name(
            old(k).manager.inodes@,
            new_name@,
        )),
        r == 0 || r == -1,
        r == -1 ==> *final(k) == *old(k),
        exists|res: Option<OSInode>|
            {
                &&& #[trigger] link_transition(
                    old(k).manager,
                    final(k).manager,
                    old_name@,
                    new_name@,
                    res,
                )
                &&& ((res is Some) <==> r == 0)
            },
        final(k).disk == old(k).disk,
        final(k).fd_table == old(k).fd_table,
        final(k).stdin_buf == old(k).stdin_buf,
        final(k).stdout_buf == old(k).stdout_buf,
{
    let res = new_fromname(&mut k.manager, old_name, new_name);
    match res {
        Some(_) => {
            proof {
                assert(inos_below(k.manager.inodes@, k.disk.files@.len() as int));
                assert forall|i2: int|
                    0 <= i2 < k.disk.root_dir@.len() implies has_name(
                    k.manager.inodes@,
                    (#[trigger] k.disk.root_dir@[i2]).name@,
                ) by {
                    assert(has_name(old(k).manager.inodes@, k.disk.root_dir@[i2].name@));
                }
                assert forall|j2: int|
                    0 <= j2 < k.fd_table@.len() implies ((#[trigger] k.fd_table@[j2]) matches Some(
                    FdEntry::File(g),
                ) ==> g.ino() < k.disk.files@.len()) by {}
            }
            0
        },
        None => -1,
    }
}

/// Remove the name `name`: its directory entry goes, surviving names
/// of the same object drop to a link count one lower, and the name's
/// registry record goes with it. Success is reported whether or not
/// the name was known: this call has no failure result.
pub fn sys_unlinkat(k: &mut Kernel, name: &String) -> (r: isize)
    requires
        old(k).wf(),
        old(k).covers(),
    ensures
        final(k).wf(),
        final(k).covers(),
        r == 0,
        unlink_transition(old(k).disk, old(k).manager, final(k).disk, final(k).manager, name@),
        final(k).fd_table == old(k).fd_table,
        final(k).stdin_buf == old(k).stdin_buf,
        final(k).stdout_buf == old(k).stdout_buf,
{
    let r = rmv_fromna(&mut k.disk, &mut k.manager, name);
    proof {
        assert forall|j2: int|
            0 <= j2 < k.fd_table@.len() implies ((#[trigger] k.fd_table@[j2]) matches Some(
            FdEntry::File(g),
        ) ==> g.ino() < k.disk.files@.len()) by {}
    }
    r
}

/// Report the authoritative metadata for descriptor `fd`: the stat
/// record of the registry record bearing the handle's name, whose
/// link count the registry keeps equal to the number of names sharing
/// the object. Fails when the descriptor does not name a file the
/// registry knows.
pub fn sys_fstat(k: &Kernel, fd: usize) -> (r: Option<Stat>)
    ensures
        (r is Some) <==> (fd < k.fd_table@.len() && (k.fd_table@[fd as int] matches Some(
            FdEntry::File(h),
        ) && has_name(k.manager.inodes@, h.name@))),
        r is Some ==> (k.fd_table@[fd as int] matches Some(FdEntry::File(h)) && exists|i: int|
            0 <= i < k.manager.inodes@.len() && (#[trigger] k.manager.inodes@[i]).name@ == h.name@
                && r->Some_0 == k.manager.inodes@[i].stat),
{
    if fd >= k.fd_table.len() {
        return None;
    }
    match &k.fd_table[fd] {
        Some(FdEntry::File(h)) => {
            match k.manager.find_inode(&h.name) {
                Some(rec) => Some(*rec.get_stat()),
                None => None,
            }
        },
        _ => None,
    }
}

} // verus!
