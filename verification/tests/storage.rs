use linkfs::disk::Disk;
use linkfs::inode::OSInode;

fn name(s: &str) -> String {
    String::from(s)
}

#[test]
fn create_find_remove() {
    let mut d = Disk::new();
    assert!(d.find(&name("a")).is_none());
    let ino = d.create(&name("a")).unwrap();
    assert_eq!(ino, 0);
    assert_eq!(d.find(&name("a")), Some(0));
    // a bound name cannot be created again
    assert!(d.create(&name("a")).is_none());
    let ino_b = d.create(&name("b")).unwrap();
    assert_eq!(ino_b, 1);
    assert_eq!(d.remove(&name("a")), Some(0));
    assert!(d.find(&name("a")).is_none());
    assert_eq!(d.find(&name("b")), Some(1));
    assert!(d.remove(&name("a")).is_none());
}

#[test]
fn ls_lists_names_in_order() {
    let mut d = Disk::new();
    d.create(&name("x")).unwrap();
    d.create(&name("y")).unwrap();
    let names = d.ls();
    assert_eq!(names, vec![name("x"), name("y")]);
}

#[test]
fn write_at_pads_with_zeros_and_read_at_stops_at_the_end() {
    let mut d = Disk::new();
    let ino = d.create(&name("a")).unwrap();
    let n = d.write_at(ino, 2, &vec![97u8, 98]);
    assert_eq!(n, 2);
    assert_eq!(d.read_at(ino, 0, 10), vec![0, 0, 97, 98]);
    assert_eq!(d.read_at(ino, 3, 10), vec![98]);
    assert_eq!(d.read_at(ino, 4, 10), Vec::<u8>::new());
    // overwriting inside keeps the tail
    let n = d.write_at(ino, 0, &vec![7u8]);
    assert_eq!(n, 1);
    assert_eq!(d.read_at(ino, 0, 10), vec![7, 0, 97, 98]);
}

#[test]
fn clear_truncates_to_empty() {
    let mut d = Disk::new();
    let ino = d.create(&name("a")).unwrap();
    d.write_at(ino, 0, &vec![1u8, 2, 3]);
    d.clear(ino);
    assert_eq!(d.read_at(ino, 0, 10), Vec::<u8>::new());
}

#[test]
fn removed_name_orphans_the_object_but_keeps_its_bytes() {
    let mut d = Disk::new();
    let ino = d.create(&name("a")).unwrap();
    d.write_at(ino, 0, &vec![5u8, 6]);
    d.remove(&name("a"));
    assert_eq!(d.read_at(ino, 0, 10), vec![5, 6]);
}

#[test]
fn handle_reads_and_writes_at_its_private_offset() {
    let mut d = Disk::new();
    let ino = d.create(&name("a")).unwrap();
    let mut h = OSInode::new(true, true, ino, &name("a"));
    assert_eq!(h.write(&mut d, &vec![1u8, 2, 3, 4]), 4);
    // the offset advanced: the next write appends
    assert_eq!(h.write(&mut d, &vec![5u8]), 1);
    let mut h2 = OSInode::new(true, false, ino, &name("a"));
    assert_eq!(h2.read(&d, 2), vec![1, 2]);
    assert_eq!(h2.read(&d, 10), vec![3, 4, 5]);
    assert_eq!(h2.read(&d, 10), Vec::<u8>::new());
}

#[test]
fn read_all_drains_from_the_offset_to_the_end() {
    let mut d = Disk::new();
    let ino = d.create(&name("a")).unwrap();
    d.write_at(ino, 0, &vec![9u8, 8, 7]);
    let mut h = OSInode::new(true, false, ino, &name("a"));
    assert_eq!(h.read(&d, 1), vec![9]);
    assert_eq!(h.read_all(&d), vec![8, 7]);
    assert_eq!(h.read_all(&d), Vec::<u8>::new());
}

#[test]
fn handle_accessors() {
    let mut h = OSInode::new(true, false, 3, &name("f"));
    assert_eq!(h.get_ino(), 3);
    assert_eq!(h.get_name(), name("f"));
    assert!(h.readable());
    assert!(!h.writable());
    h.set_writable(true);
    assert!(h.writable());
    h.set_readable(false);
    assert!(!h.readable());
    assert_eq!(h.get_stat().nlink, 1);
    h.set_link(5);
    assert_eq!(h.get_stat().nlink, 5);
    assert_eq!(h.get_stat().ino, 3);
    assert_eq!(h.get_stat().mode, linkfs::stat::StatMode::File);
}
