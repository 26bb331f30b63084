use crate::disk::Disk;
use crate::flags::OpenFlags;
use crate::inode::OSInode;
use crate::registry::{
    counts_consistent, count_ino, has_name, inos_below, lemma_count_absent, lemma_count_push,
    lemma_prune_keeps_consistency, lemma_with_counts_consistent, names_unique, with_count_for,
    with_counts, OSInodeManager,
};
use crate::stat::StatMode;
use vstd::prelude::*;

verus! {

/// Every name the root directory lists has a registry record, so a
/// directory name can always be resolved to the record that carries its
/// authoritative link count.
pub open spec fn dir_tracked(disk: Disk, s: Seq<OSInode>) -> bool {
    forall|i: int|
        0 <= i < disk.root_dir@.len() ==> has_name(s, (#[trigger] disk.root_dir@[i]).name@)
}

/// What every operation of this layer preserves: a well-formed
/// directory, unique registry names, records that point at existing
/// storage objects, a registry small enough for 32-bit link counts, and
/// the central invariant that every record's link count equals the size
/// of its inode group.
pub open spec fn fs_inv(disk: Disk, m: OSInodeManager) -> bool {
    &&& disk.wf()
    &&& m.inodes@.len() <= u32::MAX
    &&& names_unique(m.inodes@)
    &&& inos_below(m.inodes@, disk.files@.len() as int)
    &&& counts_consistent(m.inodes@)
}

/// What create, open, link and unlink additionally preserve: the
/// registry tracks every directory name. Closing a descriptor drops a
/// registry record while the directory keeps the name, so a close does
/// not preserve this part.
pub open spec fn fs_tracked(disk: Disk, m: OSInodeManager) -> bool {
    dir_tracked(disk, m.inodes@)
}

/// The shape of every handle a successful open hands out: capabilities
/// derived from the flag word, the offset at the start, and a cached
/// metadata record for a regular file bearing one link.
pub open spec fn fresh_handle(h: OSInode, flags: OpenFlags, name: Seq<char>, ino: u64) -> bool {
    &&& h.readable == flags.spec_read_write().0
    &&& h.writable == flags.spec_read_write().1
    &&& h.offset == 0
    &&& h.name@ == name
    &&& h.stat.dev == 0
    &&& h.ino() == ino
    &&& h.stat.mode == StatMode::File
    &&& h.stat.nlink == 1
}

/// How an open call takes the filesystem state `(d0, m0)` to
/// `(d1, m1)` and hands back `r`, for the name and flag word given.
pub open spec fn open_transition(
    d0: Disk,
    m0: OSInodeManager,
    d1: Disk,
    m1: OSInodeManager,
    name: Seq<char>,
    flags: OpenFlags,
    r: Option<OSInode>,
) -> bool {
    &&& ((r is Some) <==> (flags.spec_contains(OpenFlags::CREATE) || d0.dir_has(name) || has_name(
        m0.inodes@,
        name,
    )))
    &&& (r is None ==> d1 == d0 && m1 == m0)
    &&& (r is Some ==> fresh_handle(r->Some_0, flags, name, r->Some_0.ino()) && d1.valid_ino(
        r->Some_0.ino(),
    ))
    // creating an unknown name: a new, empty storage object under a
    // new directory entry, and a registry record unless the name was
    // already registered as a hard link
    &&& ((flags.spec_contains(OpenFlags::CREATE) && !d0.dir_has(name)) ==> {
        &&& r->Some_0.ino() == d0.files@.len()
        &&& d1.files@.len() == d0.files@.len() + 1
        &&& d1.file_at(r->Some_0.ino()) == Seq::<u8>::empty()
        &&& (forall|k: int| 0 <= k < d0.files@.len() ==> d1.files@[k] == d0.files@[k])
        &&& d1.root_dir@.len() == d0.root_dir@.len() + 1
        &&& (forall|k: int| 0 <= k < d0.root_dir@.len() ==> d1.root_dir@[k] == d0.root_dir@[k])
        &&& d1.root_dir@.last().name@ == name
        &&& d1.root_dir@.last().ino == r->Some_0.ino()
        &&& (has_name(m0.inodes@, name) ==> m1 == m0)
        &&& (!has_name(m0.inodes@, name) ==> {
            &&& m1.inodes@.len() == m0.inodes@.len() + 1
            &&& (forall|k: int| 0 <= k < m0.inodes@.len() ==> m1.inodes@[k] == m0.inodes@[k])
            &&& fresh_handle(m1.inodes@.last(), flags, name, r->Some_0.ino())
        })
    })
    // a known directory name: the registry already tracks it and stays
    // as it is; the object is truncated exactly when the create or
    // truncate flag asks for it
    &&& (d0.dir_has(name) ==> {
        &&& m1 == m0
        &&& d1.root_dir@ == d0.root_dir@
        &&& d1.files@.len() == d0.files@.len()
        &&& (exists|i: int|
            0 <= i < d0.root_dir@.len() && (#[trigger] d0.root_dir@[i]).name@ == name
                && r->Some_0.ino() == d0.root_dir@[i].ino)
        &&& ((flags.spec_contains(OpenFlags::CREATE) || flags.spec_contains(OpenFlags::TRUNC))
            ==> d1.file_at(r->Some_0.ino()) == Seq::<u8>::empty() && (forall|k: int|
            0 <= k < d0.files@.len() && k != r->Some_0.ino() ==> d1.files@[k] == d0.files@[k]))
        &&& ((!flags.spec_contains(OpenFlags::CREATE) && !flags.spec_contains(OpenFlags::TRUNC))
            ==> d1.files@ == d0.files@)
    })
    // a name known only to the registry: a fresh handle on the linked
    // object, nothing changed
    &&& ((!flags.spec_contains(OpenFlags::CREATE) && !d0.dir_has(name) && has_name(
        m0.inodes@,
        name,
    )) ==> {
        &&& d1 == d0
        &&& m1 == m0
        &&& (exists|i: int|
            0 <= i < m0.inodes@.len() && (#[trigger] m0.inodes@[i]).name@ == name
                && r->Some_0.ino() == m0.inodes@[i].ino())
    })
}

/// How a link call takes the registry `m0` to `m1` and hands back `r`,
/// for the existing name and the new name given.
pub open spec fn link_transition(
    m0: OSInodeManager,
    m1: OSInodeManager,
    name: Seq<char>,
    newname: Seq<char>,
    r: Option<OSInode>,
) -> bool {
    &&& ((r is Some) <==> (has_name(m0.inodes@, name) && !has_name(m0.inodes@, newname)))
    &&& (r is None ==> m1 == m0)
    &&& (r is Some ==> {
        &&& counts_consistent(m1.inodes@)
        &&& m1.inodes@.len() == m0.inodes@.len() + 1
        &&& (forall|k: int|
            0 <= k < m0.inodes@.len() ==> (#[trigger] m1.inodes@[k]) == m0.inodes@[k].with_nlink(
                m1.inodes@[k].stat.nlink,
            ))
        &&& m1.inodes@.last().name@ == newname
        &&& m1.inodes@.last().offset == 0
        &&& m1.inodes@.last().stat.mode == StatMode::File
        &&& m1.inodes@.last().stat.dev == 0
        &&& (exists|i: int|
            {
                &&& 0 <= i < m0.inodes@.len()
                &&& (#[trigger] m0.inodes@[i]).name@ == name
                &&& m1.inodes@.last().ino() == m0.inodes@[i].ino()
                &&& m1.inodes@.last().readable == m0.inodes@[i].readable
                &&& m1.inodes@.last().writable == m0.inodes@[i].writable
                &&& r->Some_0.ino() == m0.inodes@[i].ino()
                &&& r->Some_0.readable == m0.inodes@[i].readable
                &&& r->Some_0.writable == m0.inodes@[i].writable
            })
        &&& r->Some_0.offset == 0
        &&& r->Some_0.name@ == newname
        &&& r->Some_0.stat.dev == 0
        &&& r->Some_0.stat.mode == StatMode::File
        &&& r->Some_0.stat.nlink == 1
        &&& (names_unique(m0.inodes@) ==> names_unique(m1.inodes@))
        &&& (forall|nf: int|
            #![trigger inos_below(m1.inodes@, nf)]
            inos_below(m0.inodes@, nf) ==> inos_below(m1.inodes@, nf))
        &&& (forall|nm: Seq<char>|
            #![trigger has_name(m1.inodes@, nm)]
            has_name(m0.inodes@, nm) ==> has_name(m1.inodes@, nm))
        &&& has_name(m1.inodes@, newname)
    })
}

/// How an unlink call takes the filesystem state `(d0, m0)` to
/// `(d1, m1)`, for the name given.
pub open spec fn unlink_transition(
    d0: Disk,
    m0: OSInodeManager,
    d1: Disk,
    m1: OSInodeManager,
    name: Seq<char>,
) -> bool {
    &&& d1.files@ == d0.files@
    &&& !d1.dir_has(name)
    &&& (forall|nm: Seq<char>| nm != name ==> #[trigger] d1.dir_has(nm) == d0.dir_has(nm))
    &&& (!has_name(m0.inodes@, name) ==> m1 == m0)
    &&& (has_name(m0.inodes@, name) ==> exists|i: int|
        {
            &&& 0 <= i < m0.inodes@.len()
            &&& (#[trigger] m0.inodes@[i]).name@ == name
            &&& m1.inodes@ == with_count_for(
                m0.inodes@,
                m0.inodes@[i].ino(),
                (m0.inodes@[i].stat.nlink - 1) as u32,
            ).remove(i)
        })
    &&& !has_name(m1.inodes@, name)
}

/// Add `rec` to the registry unless its name is already registered:
/// the registry holds at most one record per name.
fn register_new_name(mgr: &mut OSInodeManager, name: &String, rec: OSInode) -> (added: bool)
    requires
        rec.name@ == name@,
    ensures
        added == !has_name(old(mgr).inodes@, name@),
        added ==> final(mgr).inodes@ == old(mgr).inodes@.push(rec),
        !added ==> *final(mgr) == *old(mgr),
{
    if mgr.find_inode(name).is_none() {
        mgr.add_inode(rec);
        true
    } else {
        false
    }
}

/// Open `name`, resolving it against the root directory first and the
/// link registry second, and hand out a fresh handle.
///
/// With the create flag, an unknown name gets a new empty storage
/// object and a known one is truncated; without it, an unknown
/// directory name may still resolve through the registry to an object
/// reachable only as a hard link. Only a name known to neither fails.
/// Each successful open of a name not yet registered also registers a
/// record for it, so the registry keeps covering every open name.
pub fn open_file(disk: &mut Disk, mgr: &mut OSInodeManager, name: &String, flags: OpenFlags) -> (r:
    Option<OSInode>)
    requires
        fs_inv(*old(disk), *old(mgr)),
        fs_tracked(*old(disk), *old(mgr)),
        old(mgr).inodes@.len() < u32::MAX,
    ensures
        fs_inv(*final(disk), *final(mgr)),
        fs_tracked(*final(disk), *final(mgr)),
        open_transition(*old(disk), *old(mgr), *final(disk), *final(mgr), name@, flags, r),
{
    let rw = flags.read_write();
    let readable = rw.0;
    let writable = rw.1;
    if flags.contains(OpenFlags::CREATE) {
        match disk.find(name) {
            Some(ino) => {
                disk.clear(ino);
                let rec = OSInode::new(readable, writable, ino, name);
                register_new_name(mgr, name, rec);
                Some(OSInode::new(readable, writable, ino, name))
            },
            None => {
                match disk.create(name) {
                    Some(ino) => {
                        let ghost s = mgr.inodes@;
                        let rec = OSInode::new(readable, writable, ino, name);
                        let ghost grec = rec;
                        let added = register_new_name(mgr, name, rec);
                        proof {
                            let t = mgr.inodes@;
                            if added {
                                assert forall|k: int| 0 <= k < t.len() implies (
                                #[trigger] t[k].stat.nlink) == count_ino(t, t[k].ino()) by {
                                    lemma_count_push(s, grec, t[k].ino());
                                    if t[k].ino() == grec.ino() && k < s.len() {
                                        assert(s[k].ino() < old(disk).files@.len());
                                    }
                                    if k == s.len() {
                                        lemma_count_absent(s, grec.ino(), s.len() as int);
                                    }
                                }
                                assert forall|i: int, j: int|
                                    0 <= i < t.len() && 0 <= j < t.len() && i != j implies (
                                #[trigger] t[i].name@) != (#[trigger] t[j].name@) by {
                                    if i == s.len() {
                                        assert(s[j].name@ != name@);
                                    }
                                    if j == s.len() {
                                        assert(s[i].name@ != name@);
                                    }
                                }
                            }
                            assert forall|k: int| 0 <= k < disk.root_dir@.len() implies has_name(
                                t,
                                (#[trigger] disk.root_dir@[k]).name@,
                            ) by {
                                if k < old(disk).root_dir@.len() {
                                    let nm = old(disk).root_dir@[k].name@;
                                    let w = choose|w: int|
                                        0 <= w < s.len() && #[trigger] s[w].name@ == nm;
                                    assert(t[w].name@ == nm);
                                } else {
                                    if added {
                                        assert(t[s.len() as int].name@ == name@);
                                    } else {
                                        let w = choose|w: int|
                                            0 <= w < s.len() && #[trigger] s[w].name@ == name@;
                                        assert(t[w].name@ == name@);
                                    }
                                }
                            }
                        }
                        Some(OSInode::new(readable, writable, ino, name))
                    },
                    None => {
                        proof {
                            assert(false);
                        }
                        None
                    },
                }
            },
        }
    } else {
        match disk.find(name) {
            Some(ino) => {
                if flags.contains(OpenFlags::TRUNC) {
                    disk.clear(ino);
                }
                let rec = OSInode::new(readable, writable, ino, name);
                register_new_name(mgr, name, rec);
                Some(OSInode::new(readable, writable, ino, name))
            },
            None => {
                let linked: Option<u64> = match mgr.find_inode(name) {
                    Some(rec) => Some(rec.get_ino()),
                    None => None,
                };
                match linked {
                    Some(ino) => Some(OSInode::new(readable, writable, ino, name)),
                    None => None,
                }
            },
        }
    }
}

/// Make `newname` a hard link to whatever `name` resolves to in the
/// registry: a new record sharing the storage object joins the
/// registry, and the canonical recomputation then gives every name of
/// that object the same, grown link count.
///
/// The link fails when `name` is unknown to the registry, and also
/// when `newname` is already registered: the registry holds at most
/// one record per name.
pub fn new_fromname(mgr: &mut OSInodeManager, name: &String, newname: &String) -> (r: Option<
    OSInode,
>)
    requires
        old(mgr).inodes@.len() < u32::MAX,
    ensures
        link_transition(*old(mgr), *final(mgr), name@, newname@, r),
{
    let src: Option<(bool, bool, u64)> = match mgr.find_inode(name) {
        Some(node) => Some((node.readable(), node.writable(), node.get_ino())),
        None => None,
    };
    match src {
        None => None,
        Some((rd, wr, ino)) => {
            if mgr.find_inode(newname).is_some() {
                return None;
            }
            let ghost s = mgr.inodes@;
            let rec = OSInode::new(rd, wr, ino, newname);
            let ghost grec = rec;
            mgr.add_inode(rec);
            mgr.fresh();
            proof {
                let u = s.push(grec);
                let t = mgr.inodes@;
                let wi = choose|wi: int|
                    0 <= wi < s.len() && (#[trigger] s[wi]).name@ == name@ && s[wi].ino() == ino
                        && s[wi].readable == rd && s[wi].writable == wr;
                lemma_with_counts_consistent(u);
                assert forall|nf: int|
                    inos_below(s, nf) implies #[trigger] inos_below(t, nf) by {
                    assert forall|k: int| 0 <= k < t.len() implies (#[trigger] t[k].ino())
                        < nf by {
                        if k < s.len() {
                            assert(u[k] == s[k]);
                        } else {
                            assert(u[k] == grec);
                            assert(s[wi].ino() < nf);
                        }
                    }
                }
                assert forall|k: int|
                    0 <= k < s.len() implies (#[trigger] t[k]) == s[k].with_nlink(
                    t[k].stat.nlink,
                ) by {
                    assert(u[k] == s[k]);
                }
                assert(u.last() == grec);
                if names_unique(s) {
                    assert forall|i: int, j: int|
                        0 <= i < t.len() && 0 <= j < t.len() && i != j implies (
                    #[trigger] t[i].name@) != (#[trigger] t[j].name@) by {
                        if i == s.len() {
                            assert(s[j].name@ != newname@);
                        }
                        if j == s.len() {
                            assert(s[i].name@ != newname@);
                        }
                    }
                }
                assert forall|nm: Seq<char>|
                    has_name(s, nm) implies #[trigger] has_name(t, nm) by {
                    let w = choose|w: int| 0 <= w < s.len() && #[trigger] s[w].name@ == nm;
                    assert(t[w].name@ == nm);
                }
                assert(t[s.len() as int].name@ == newname@);
            }
            Some(OSInode::new(rd, wr, ino, newname))
        },
    }
}

/// Unlink `name`: drop its directory entry, and reconcile the registry
/// by lowering the link count of every surviving name of the same
/// object by one and dropping the record for `name` itself. A name the
/// registry does not know needs no reconciling, and the layer reports
/// success whether or not anything was removed.
pub fn rmv_fromna(disk: &mut Disk, mgr: &mut OSInodeManager, name: &String) -> (r: isize)
    requires
        fs_inv(*old(disk), *old(mgr)),
        fs_tracked(*old(disk), *old(mgr)),
    ensures
        r == 0,
        fs_inv(*final(disk), *final(mgr)),
        fs_tracked(*final(disk), *final(mgr)),
        unlink_transition(*old(disk), *old(mgr), *final(disk), *final(mgr), name@),
{
    disk.remove(name);
    let info: Option<(u64, u32)> = match mgr.find_inode(name) {
        Some(node) => Some((node.get_ino(), node.get_stat().nlink)),
        None => None,
    };
    match info {
        None => {
        },
        Some((ino, lik)) => {
            let ghost s = mgr.inodes@;
            let ghost j = choose|j: int|
                0 <= j < s.len() && (#[trigger] s[j]).name@ == name@ && s[j].ino() == ino
                    && s[j].stat.nlink == lik;
            proof {
                lemma_prune_keeps_consistency(s, j, disk.files@.len() as int);
            }
            mgr.fresh_one(ino, lik - 1, name.clone());
            proof {
                let u = with_count_for(s, ino, (lik - 1) as u32);
                let i = choose|i: int|
                    0 <= i < s.len() && (#[trigger] s[i]).name@ == name@ && mgr.inodes@ == u.remove(
                        i,
                    );
                assert(i == j);
                let t = mgr.inodes@;
                assert forall|k: int|
                    0 <= k < disk.root_dir@.len() implies has_name(
                    t,
                    (#[trigger] disk.root_dir@[k]).name@,
                ) by {
                    let nm = disk.root_dir@[k].name@;
                    assert(disk.dir_has(nm));
                    assert(nm != name@);
                    assert(old(disk).dir_has(nm));
                    assert(has_name(s, nm));
                }
            }
        },
    }
    proof {
        if !has_name(old(mgr).inodes@, name@) {
            assert forall|k: int|
                0 <= k < disk.root_dir@.len() implies has_name(
                mgr.inodes@,
                (#[trigger] disk.root_dir@[k]).name@,
            ) by {
                let nm = disk.root_dir@[k].name@;
                assert(disk.dir_has(nm));
                assert(nm != name@);
                assert(old(disk).dir_has(nm));
            }
        }
    }
    0
}

/// The close-time reconciliation: reset the shared link count of every
/// record bearing `ino` and drop the record for `name`, exactly as the
/// registry's targeted recomputation does.
pub fn rmv_fromno(mgr: &mut OSInodeManager, ino: u64, lik: u32, name: String)
    ensures
        !has_name(old(mgr).inodes@, name@) ==> final(mgr).inodes@ == with_count_for(
            old(mgr).inodes@,
            ino,
            lik,
        ),
        has_name(old(mgr).inodes@, name@) ==> exists|i: int|
            {
                &&& 0 <= i < old(mgr).inodes@.len()
                &&& (#[trigger] old(mgr).inodes@[i]).name@ == name@
                &&& final(mgr).inodes@ == with_count_for(old(mgr).inodes@, ino, lik).remove(i)
            },
{
    mgr.fresh_one(ino, lik, name);
}

} // verus!
