use crate::inode::OSInode;
use crate::stat::Stat;
use vstd::prelude::*;

verus! {

/// How many of the first `k` records of `s` bear inode number `ino`.
pub open spec fn count_ino_upto(s: Seq<OSInode>, ino: u64, k: int) -> int
    decreases k,
{
    if k <= 0 {
        0
    } else {
        count_ino_upto(s, ino, k - 1) + if s[k - 1].ino() == ino {
            1int
        } else {
            0int
        }
    }
}

/// How many records of `s` bear inode number `ino`: the number of
/// distinct names the registry currently resolves to that storage
/// object.
pub open spec fn count_ino(s: Seq<OSInode>, ino: u64) -> int {
    count_ino_upto(s, ino, s.len() as int)
}

/// At most one record per name.
pub open spec fn names_unique(s: Seq<OSInode>) -> bool {
    forall|i: int, j: int|
        0 <= i < s.len() && 0 <= j < s.len() && i != j ==> #[trigger] s[i].name@
            != #[trigger] s[j].name@
}

/// Some record of `s` bears `name`.
pub open spec fn has_name(s: Seq<OSInode>, name: Seq<char>) -> bool {
    exists|i: int| 0 <= i < s.len() && #[trigger] s[i].name@ == name
}

/// Every record's inode number lies below `nfiles`, so every record
/// points at an existing storage object.
pub open spec fn inos_below(s: Seq<OSInode>, nfiles: int) -> bool {
    forall|i: int| 0 <= i < s.len() ==> #[trigger] s[i].ino() < nfiles
}

/// The central invariant of the layer: every record's cached link
/// count equals the number of registry records sharing its inode
/// number.
pub open spec fn counts_consistent(s: Seq<OSInode>) -> bool {
    forall|i: int|
        0 <= i < s.len() ==> (#[trigger] s[i].stat.nlink) == count_ino(s, s[i].ino())
}

/// `s` with every record's link count set to the size of its inode
/// group: the canonical recomputation.
pub open spec fn with_counts(s: Seq<OSInode>) -> Seq<OSInode> {
    Seq::new(s.len(), |i: int| s[i].with_nlink(count_ino(s, s[i].ino()) as u32))
}

/// `s` with every record sharing `ino` reset to link count `n`.
pub open spec fn with_count_for(s: Seq<OSInode>, ino: u64, n: u32) -> Seq<OSInode> {
    Seq::new(
        s.len(),
        |i: int|
            if s[i].ino() == ino {
                s[i].with_nlink(n)
            } else {
                s[i]
            },
    )
}

/// Counting ignores every field but the inode number: two sequences
/// whose first `k` records bear the same inode numbers count alike.
pub proof fn lemma_count_upto_agree(s: Seq<OSInode>, t: Seq<OSInode>, ino: u64, k: int)
    requires
        forall|i: int| 0 <= i < k ==> #[trigger] s[i].ino() == t[i].ino(),
    ensures
        count_ino_upto(s, ino, k) == count_ino_upto(t, ino, k),
    decreases k,
{
    if k > 0 {
        lemma_count_upto_agree(s, t, ino, k - 1);
    }
}

/// Counting over whole sequences that bear the same inode numbers.
pub proof fn lemma_count_agree(s: Seq<OSInode>, t: Seq<OSInode>, ino: u64)
    requires
        s.len() == t.len(),
        forall|i: int| 0 <= i < s.len() ==> #[trigger] s[i].ino() == t[i].ino(),
    ensures
        count_ino(s, ino) == count_ino(t, ino),
{
    lemma_count_upto_agree(s, t, ino, s.len() as int);
}

/// A prefix count lies between zero and the prefix's length.
pub proof fn lemma_count_upto_bounds(s: Seq<OSInode>, ino: u64, k: int)
    ensures
        0 <= count_ino_upto(s, ino, k),
        k >= 0 ==> count_ino_upto(s, ino, k) <= k,
    decreases k,
{
    if k > 0 {
        lemma_count_upto_bounds(s, ino, k - 1);
    }
}

/// Appending one record raises its own group's count by one and no
/// other group's at all.
pub proof fn lemma_count_push(s: Seq<OSInode>, r: OSInode, ino: u64)
    ensures
        count_ino(s.push(r), ino) == count_ino(s, ino) + if r.ino() == ino {
            1int
        } else {
            0int
        },
{
    lemma_count_upto_agree(s.push(r), s, ino, s.len() as int);
    assert(s.push(r)[s.len() as int] == r);
}

/// A record with inode number `ino` inside `s` makes the group's count
/// at least one.
pub proof fn lemma_count_upto_member(s: Seq<OSInode>, ino: u64, i: int, k: int)
    requires
        0 <= i < k,
        s[i].ino() == ino,
    ensures
        count_ino_upto(s, ino, k) >= 1,
    decreases k,
{
    lemma_count_upto_bounds(s, ino, k - 1);
    if i < k - 1 {
        lemma_count_upto_member(s, ino, i, k - 1);
    }
}

/// A group nobody belongs to counts zero.
pub proof fn lemma_count_absent(s: Seq<OSInode>, ino: u64, k: int)
    requires
        forall|i: int| 0 <= i < k ==> #[trigger] s[i].ino() != ino,
    ensures
        count_ino_upto(s, ino, k) == 0,
    decreases k,
{
    if k > 0 {
        lemma_count_absent(s, ino, k - 1);
    }
}

/// Removing one record lowers its own group's count by one and no
/// other group's at all.
pub proof fn lemma_count_remove(s: Seq<OSInode>, idx: int, ino: u64)
    requires
        0 <= idx < s.len(),
    ensures
        count_ino(s.remove(idx), ino) == count_ino(s, ino) - if s[idx].ino() == ino {
            1int
        } else {
            0int
        },
    decreases s.len(),
{
    let t = s.remove(idx);
    if idx == s.len() - 1 {
        lemma_count_upto_agree(t, s, ino, s.len() - 1);
    } else {
        let d = s.drop_last();
        lemma_count_remove(d, idx, ino);
        lemma_count_upto_agree(d, s, ino, s.len() - 1);
        lemma_count_upto_agree(t, d.remove(idx), ino, s.len() - 2);
        assert(t[s.len() - 2] == s[s.len() - 1]);
    }
}

/// After the canonical recomputation every count is consistent.
pub proof fn lemma_with_counts_consistent(s: Seq<OSInode>)
    requires
        s.len() <= u32::MAX,
    ensures
        counts_consistent(with_counts(s)),
{
    let t = with_counts(s);
    assert forall|i: int| 0 <= i < t.len() implies (#[trigger] t[i].stat.nlink) == count_ino(
        t,
        t[i].ino(),
    ) by {
        lemma_count_upto_bounds(s, s[i].ino(), s.len() as int);
        lemma_count_upto_member(s, s[i].ino(), i, s.len() as int);
        lemma_count_agree(t, s, t[i].ino());
    }
}

/// Resetting a group's count to one less and then removing one of the
/// group's records keeps the registry consistent: the removed record's
/// group shrinks by exactly one, every other group is untouched.
pub proof fn lemma_prune_keeps_consistency(s: Seq<OSInode>, i: int, nfiles: int)
    requires
        names_unique(s),
        counts_consistent(s),
        0 <= i < s.len(),
    ensures
        s[i].stat.nlink >= 1,
        ({
            let t = with_count_for(s, s[i].ino(), (s[i].stat.nlink - 1) as u32).remove(i);
            &&& counts_consistent(t)
            &&& names_unique(t)
            &&& (inos_below(s, nfiles) ==> inos_below(t, nfiles))
            &&& !has_name(t, s[i].name@)
            &&& (forall|nm: Seq<char>|
                nm != s[i].name@ ==> (#[trigger] has_name(t, nm)) == has_name(s, nm))
            &&& t.len() == s.len() - 1
        }),
{
    let ino = s[i].ino();
    let lik = s[i].stat.nlink;
    assert(s[i].stat.nlink == count_ino(s, s[i].ino()));
    lemma_count_upto_member(s, ino, i, s.len() as int);
    let u = with_count_for(s, ino, (lik - 1) as u32);
    let t = u.remove(i);
    assert forall|k: int| 0 <= k < t.len() implies (#[trigger] t[k].stat.nlink) == count_ino(
        t,
        t[k].ino(),
    ) by {
        lemma_count_agree(u, s, t[k].ino());
        lemma_count_remove(u, i, t[k].ino());
        if k < i {
            assert(t[k] == u[k]);
        } else {
            assert(t[k] == u[k + 1]);
        }
    }
    assert forall|i2: int, j2: int|
        0 <= i2 < t.len() && 0 <= j2 < t.len() && i2 != j2 implies (#[trigger] t[i2].name@) != (
    #[trigger] t[j2].name@) by {
        let m1: int = if i2 < i {
            i2
        } else {
            i2 + 1
        };
        let m2: int = if j2 < i {
            j2
        } else {
            j2 + 1
        };
        assert(t[i2] == u[m1]);
        assert(t[j2] == u[m2]);
        assert(s[m1].name@ != s[m2].name@);
    }
    if inos_below(s, nfiles) {
        assert forall|k: int| 0 <= k < t.len() implies (#[trigger] t[k].ino()) < nfiles by {
            if k < i {
                assert(t[k] == u[k]);
            } else {
                assert(t[k] == u[k + 1]);
            }
        }
    }
    assert forall|k: int| 0 <= k < t.len() implies (#[trigger] t[k].name@) != s[i].name@ by {
        if k < i {
            assert(t[k] == u[k]);
            assert(s[k].name@ != s[i].name@);
        } else {
            assert(t[k] == u[k + 1]);
            assert(s[k + 1].name@ != s[i].name@);
        }
    }
    assert forall|nm: Seq<char>|
        nm != s[i].name@ implies (#[trigger] has_name(t, nm)) == has_name(s, nm) by {
        if has_name(t, nm) {
            let w = choose|w: int| 0 <= w < t.len() && #[trigger] t[w].name@ == nm;
            if w < i {
                assert(s[w].name@ == nm);
            } else {
                assert(t[w] == u[w + 1]);
                assert(s[w + 1].name@ == nm);
            }
        }
        if has_name(s, nm) {
            let w = choose|w: int| 0 <= w < s.len() && #[trigger] s[w].name@ == nm;
            assert(w != i);
            if w < i {
                assert(t[w] == u[w]);
                assert(t[w].name@ == nm);
            } else {
                assert(t[w - 1] == u[w]);
                assert(t[w - 1].name@ == nm);
            }
        }
    }
}

/// Law: link then unlink restores singularity. A lone record of an
/// object is consistent reporting one link; after a second name joins
/// and the canonical recomputation runs, both records report two;
/// pruning the first name with the lowered count leaves the second
/// reporting one; pruning the second as well leaves no record of the
/// object at all.
pub proof fn lemma_link_then_unlink_restores_singularity(ra: OSInode, rb: OSInode)
    requires
        ra.stat.nlink == 1,
        rb.ino() == ra.ino(),
    ensures
        ({
            let s0 = seq![ra];
            let s1 = with_counts(s0.push(rb));
            let s2 = with_count_for(s1, ra.ino(), (s1[0].stat.nlink - 1) as u32).remove(0);
            let s3 = with_count_for(s2, ra.ino(), (s2[0].stat.nlink - 1) as u32).remove(0);
            &&& counts_consistent(s0)
            &&& s1[0].stat.nlink == 2 && s1[1].stat.nlink == 2
            &&& counts_consistent(s1)
            &&& s2.len() == 1 && s2[0].name@ == rb.name@ && s2[0].stat.nlink == 1
            &&& counts_consistent(s2)
            &&& s3.len() == 0 && count_ino(s3, ra.ino()) == 0
        }),
{
    let ino = ra.ino();
    let s0 = seq![ra];
    assert(count_ino_upto(s0, ino, 1) == count_ino_upto(s0, ino, 0) + 1);
    assert(count_ino(s0, ino) == 1);
    let u = s0.push(rb);
    assert(u.len() == 2 && u[0] == ra && u[1] == rb);
    assert(count_ino_upto(u, ino, 2) == count_ino_upto(u, ino, 1) + 1);
    assert(count_ino_upto(u, ino, 1) == count_ino_upto(u, ino, 0) + 1);
    assert(count_ino(u, ino) == 2);
    let s1 = with_counts(u);
    assert(s1[0] == ra.with_nlink(2) && s1[1] == rb.with_nlink(2));
    lemma_with_counts_consistent(u);
    let v = with_count_for(s1, ino, 1u32);
    assert(v[0] == ra.with_nlink(1) && v[1] == rb.with_nlink(1));
    let s2 = v.remove(0);
    assert(s2.len() == 1 && s2[0] == rb.with_nlink(1));
    assert(count_ino_upto(s2, ino, 1) == count_ino_upto(s2, ino, 0) + 1);
    assert(counts_consistent(s2));
    let w = with_count_for(s2, ino, 0u32);
    assert(w[0] == rb.with_nlink(0));
    let s3 = w.remove(0);
    assert(s3.len() == 0);
    assert(count_ino(s3, ino) == 0);
}

/// The in-memory link registry: one record per currently known name,
/// the sole source of truth for link counts. Several records may share
/// an inode number; that sharing is exactly what a hard link is.
pub struct OSInodeManager {
    pub inodes: Vec<OSInode>,
}

impl OSInodeManager {
    pub fn new() -> (r: Self)
        ensures
            r.inodes@.len() == 0,
    {
        OSInodeManager { inodes: Vec::new() }
    }

    /// Append a record. Callers keep names unique by looking the name
    /// up first; this layer's own callers all do.
    pub fn add_inode(&mut self, inode: OSInode)
        ensures
            final(self).inodes@ == old(self).inodes@.push(inode),
    {
        self.inodes.push(inode);
    }

    /// Resolve a name to its registry record by linear scan.
    pub fn find_inode(&self, name: &String) -> (r: Option<&OSInode>)
        ensures
            (r is Some) <==> has_name(self.inodes@, name@),
            r is Some ==> exists|i: int|
                0 <= i < self.inodes@.len() && #[trigger] self.inodes@[i] == *(r->Some_0)
                    && self.inodes@[i].name@ == name@,
    {
        let n = self.inodes.len();
        for i in 0..n
            invariant
                n == self.inodes@.len(),
                forall|j: int| 0 <= j < i ==> #[trigger] self.inodes@[j].name@ != name@,
        {
            if self.inodes[i].name == *name {
                return Some(&self.inodes[i]);
            }
        }
        None
    }

    /// The canonical, authoritative recomputation: group the records by
    /// inode number and give every record its group's size as its link
    /// count. Invoked after a structural change to restore the central
    /// invariant.
    pub fn fresh(&mut self)
        requires
            old(self).inodes@.len() <= u32::MAX,
        ensures
            final(self).inodes@ == with_counts(old(self).inodes@),
            counts_consistent(final(self).inodes@),
    {
        let ghost s0 = self.inodes@;
        let n = self.inodes.len();
        let mut counts: Vec<u32> = Vec::new();
        for i in 0..n
            invariant
                n == self.inodes@.len(),
                n <= u32::MAX,
                self.inodes@ == s0,
                counts@.len() == i,
                forall|j: int|
                    0 <= j < i ==> #[trigger] counts@[j] as int == count_ino(s0, s0[j].ino()),
        {
            let ino = self.inodes[i].stat.ino;
            let mut c: u32 = 0;
            for j in 0..n
                invariant
                    n == self.inodes@.len(),
                    n <= u32::MAX,
                    self.inodes@ == s0,
                    ino == s0[i as int].ino(),
                    c as int == count_ino_upto(s0, ino, j as int),
                    c <= j,
            {
                if self.inodes[j].stat.ino == ino {
                    c = c + 1;
                }
            }
            counts.push(c);
        }
        for i in 0..n
            invariant
                n == self.inodes@.len(),
                n <= u32::MAX,
                counts@.len() == n,
                forall|j: int|
                    0 <= j < n ==> #[trigger] counts@[j] as int == count_ino(s0, s0[j].ino()),
                forall|j: int|
                    0 <= j < i ==> #[trigger] self.inodes@[j] == s0[j].with_nlink(counts@[j]),
                forall|j: int| i <= j < n ==> #[trigger] self.inodes@[j] == s0[j],
        {
            let c = counts[i];
            let rd = self.inodes[i].readable;
            let wr = self.inodes[i].writable;
            let off = self.inodes[i].offset;
            let st = self.inodes[i].stat;
            let nm = self.inodes[i].name.clone();
            self.inodes[i] = OSInode {
                readable: rd,
                writable: wr,
                offset: off,
                name: nm,
                stat: Stat { nlink: c, ..st },
            };
        }
        proof {
            assert(self.inodes@ =~= with_counts(s0));
            lemma_with_counts_consistent(s0);
        }
    }

    /// The targeted variant used after an unlink or a close: set the
    /// link count of every record sharing `ino` to `lik`, and drop the
    /// record bearing `name` if there is one. The drop is unconditional
    /// whenever the name is present, even when the caller only meant to
    /// reset the shared count.
    pub fn fresh_one(&mut self, ino: u64, lik: u32, name: String)
        ensures
            !has_name(old(self).inodes@, name@) ==> final(self).inodes@ == with_count_for(
                old(self).inodes@,
                ino,
                lik,
            ),
            has_name(old(self).inodes@, name@) ==> exists|i: int|
                {
                    &&& 0 <= i < old(self).inodes@.len()
                    &&& (#[trigger] old(self).inodes@[i]).name@ == name@
                    &&& final(self).inodes@ == with_count_for(old(self).inodes@, ino, lik).remove(
                        i,
                    )
                },
    {
        let ghost s0 = self.inodes@;
        let n = self.inodes.len();
        let mut idx: usize = 0;
        let mut found = false;
        for i in 0..n
            invariant
                n == self.inodes@.len(),
                found ==> idx < i && s0[idx as int].name@ == name@,
                !found ==> forall|j: int| 0 <= j < i ==> #[trigger] s0[j].name@ != name@,
                forall|j: int|
                    0 <= j < i ==> #[trigger] self.inodes@[j] == (if s0[j].ino() == ino {
                        s0[j].with_nlink(lik)
                    } else {
                        s0[j]
                    }),
                forall|j: int| i <= j < n ==> #[trigger] self.inodes@[j] == s0[j],
        {
            if !found && self.inodes[i].name == name {
                idx = i;
                found = true;
            }
            if self.inodes[i].stat.ino == ino {
                let rd = self.inodes[i].readable;
                let wr = self.inodes[i].writable;
                let off = self.inodes[i].offset;
                let st = self.inodes[i].stat;
                let nm = self.inodes[i].name.clone();
                self.inodes[i] = OSInode {
                    readable: rd,
                    writable: wr,
                    offset: off,
                    name: nm,
                    stat: Stat { nlink: lik, ..st },
                };
            }
        }
        proof {
            assert(self.inodes@ =~= with_count_for(s0, ino, lik));
        }
        if found {
            self.inodes.remove(idx);
            proof {
                assert(0 <= idx < s0.len() && s0[idx as int].name@ == name@);
            }
        }
    }
}

} // verus!
