use linkfs::disk::Disk;
use linkfs::flags::OpenFlags;
use linkfs::fs::{new_fromname, open_file, rmv_fromna, rmv_fromno};
use linkfs::inode::OSInode;
use linkfs::registry::OSInodeManager;

fn name(s: &str) -> String {
    String::from(s)
}

fn nlink_of(m: &OSInodeManager, n: &str) -> u32 {
    m.find_inode(&name(n)).unwrap().get_stat().nlink
}

#[test]
fn find_inode_resolves_by_name() {
    let mut m = OSInodeManager::new();
    assert!(m.find_inode(&name("x")).is_none());
    m.add_inode(OSInode::new(true, true, 7, &name("x")));
    let rec = m.find_inode(&name("x")).unwrap();
    assert_eq!(rec.get_ino(), 7);
    assert!(m.find_inode(&name("y")).is_none());
}

#[test]
fn fresh_recomputes_every_group_count() {
    let mut m = OSInodeManager::new();
    m.add_inode(OSInode::new(true, true, 7, &name("a")));
    m.add_inode(OSInode::new(true, true, 7, &name("b")));
    m.add_inode(OSInode::new(true, true, 9, &name("c")));
    m.fresh();
    assert_eq!(nlink_of(&m, "a"), 2);
    assert_eq!(nlink_of(&m, "b"), 2);
    assert_eq!(nlink_of(&m, "c"), 1);
}

#[test]
fn fresh_one_resets_a_group_and_prunes_the_name() {
    let mut m = OSInodeManager::new();
    m.add_inode(OSInode::new(true, true, 7, &name("a")));
    m.add_inode(OSInode::new(true, true, 7, &name("b")));
    m.fresh();
    m.fresh_one(7, 1, name("a"));
    assert!(m.find_inode(&name("a")).is_none());
    assert_eq!(nlink_of(&m, "b"), 1);
}

#[test]
fn fresh_one_without_the_name_only_resets_counts() {
    let mut m = OSInodeManager::new();
    m.add_inode(OSInode::new(true, true, 7, &name("a")));
    m.fresh_one(7, 4, name("ghost"));
    assert_eq!(nlink_of(&m, "a"), 4);
}

#[test]
fn open_file_registers_each_new_name_once() {
    let mut d = Disk::new();
    let mut m = OSInodeManager::new();
    let h = open_file(&mut d, &mut m, &name("a"), OpenFlags::from_bits(OpenFlags::CREATE).unwrap())
        .unwrap();
    assert!(h.readable());
    assert!(h.writable());
    assert_eq!(nlink_of(&m, "a"), 1);
    // a second open of the same name adds no second record
    let _ = open_file(&mut d, &mut m, &name("a"), OpenFlags::from_bits(OpenFlags::RDONLY).unwrap())
        .unwrap();
    assert_eq!(m.find_inode(&name("a")).unwrap().get_ino(), h.get_ino());
    assert_eq!(nlink_of(&m, "a"), 1);
}

#[test]
fn open_file_capabilities_follow_the_flags() {
    let mut d = Disk::new();
    let mut m = OSInodeManager::new();
    let _ = open_file(&mut d, &mut m, &name("a"), OpenFlags::from_bits(OpenFlags::CREATE).unwrap());
    let ro = open_file(&mut d, &mut m, &name("a"), OpenFlags::from_bits(0).unwrap()).unwrap();
    assert!(ro.readable() && !ro.writable());
    let wo = open_file(&mut d, &mut m, &name("a"), OpenFlags::from_bits(OpenFlags::WRONLY).unwrap())
        .unwrap();
    assert!(!wo.readable() && wo.writable());
    let rw = open_file(&mut d, &mut m, &name("a"), OpenFlags::from_bits(OpenFlags::RDWR).unwrap())
        .unwrap();
    assert!(rw.readable() && rw.writable());
}

#[test]
fn link_and_unlink_keep_counts_equal_to_group_sizes() {
    let mut d = Disk::new();
    let mut m = OSInodeManager::new();
    let _ = open_file(&mut d, &mut m, &name("a"), OpenFlags::from_bits(OpenFlags::CREATE).unwrap());
    let h = new_fromname(&mut m, &name("a"), &name("b")).unwrap();
    assert_eq!(h.get_name(), name("b"));
    assert_eq!(nlink_of(&m, "a"), 2);
    assert_eq!(nlink_of(&m, "b"), 2);
    // linking to a taken name fails, as does linking from an unknown one
    assert!(new_fromname(&mut m, &name("a"), &name("b")).is_none());
    assert!(new_fromname(&mut m, &name("ghost"), &name("c")).is_none());
    assert_eq!(rmv_fromna(&mut d, &mut m, &name("a")), 0);
    assert!(m.find_inode(&name("a")).is_none());
    assert_eq!(nlink_of(&m, "b"), 1);
    assert_eq!(rmv_fromna(&mut d, &mut m, &name("b")), 0);
    assert!(m.find_inode(&name("b")).is_none());
}

#[test]
fn rmv_fromno_runs_the_targeted_reconciliation() {
    let mut m = OSInodeManager::new();
    m.add_inode(OSInode::new(true, true, 7, &name("a")));
    m.add_inode(OSInode::new(true, true, 7, &name("b")));
    m.fresh();
    rmv_fromno(&mut m, 7, 1, name("b"));
    assert!(m.find_inode(&name("b")).is_none());
    assert_eq!(nlink_of(&m, "a"), 1);
}

#[test]
fn open_file_resolves_a_pure_link_name_through_the_registry() {
    let mut d = Disk::new();
    let mut m = OSInodeManager::new();
    let a = open_file(&mut d, &mut m, &name("a"), OpenFlags::from_bits(OpenFlags::CREATE).unwrap())
        .unwrap();
    let _ = new_fromname(&mut m, &name("a"), &name("b"));
    // "b" has no directory entry, only a registry record
    assert!(d.find(&name("b")).is_none());
    let b = open_file(&mut d, &mut m, &name("b"), OpenFlags::from_bits(0).unwrap()).unwrap();
    assert_eq!(b.get_ino(), a.get_ino());
}
