use linkfs::flags::OpenFlags;
use linkfs::process::{sys_mmap, sys_munmap, TimeVal};

#[test]
fn flag_words_decode_to_capabilities() {
    let f = OpenFlags::from_bits(OpenFlags::RDONLY).unwrap();
    assert_eq!(f.read_write(), (true, false));
    let f = OpenFlags::from_bits(OpenFlags::WRONLY).unwrap();
    assert_eq!(f.read_write(), (false, true));
    let f = OpenFlags::from_bits(OpenFlags::RDWR).unwrap();
    assert_eq!(f.read_write(), (true, true));
    let f = OpenFlags::from_bits(OpenFlags::CREATE | OpenFlags::WRONLY).unwrap();
    assert_eq!(f.read_write(), (false, true));
    let f = OpenFlags::from_bits(OpenFlags::CREATE | OpenFlags::TRUNC).unwrap();
    assert_eq!(f.read_write(), (true, true));
}

#[test]
fn unknown_flag_bits_are_refused() {
    assert!(OpenFlags::from_bits(4).is_none());
    assert!(OpenFlags::from_bits(OpenFlags::CREATE | 8).is_none());
    assert!(OpenFlags::from_bits(OpenFlags::ALL).is_some());
}

#[test]
fn flag_membership() {
    let f = OpenFlags::from_bits(OpenFlags::CREATE | OpenFlags::WRONLY).unwrap();
    assert!(f.contains(OpenFlags::CREATE));
    assert!(f.contains(OpenFlags::WRONLY));
    assert!(!f.contains(OpenFlags::TRUNC));
    assert!(!f.is_empty());
    assert!(OpenFlags::from_bits(0).unwrap().is_empty());
}

#[test]
fn mmap_decision_checks_port_and_alignment() {
    assert_eq!(sys_mmap(4096, 100, 3), Some((4096, 4096, 3)));
    assert_eq!(sys_mmap(0, 4097, 1), Some((0, 8192, 1)));
    assert_eq!(sys_mmap(0, 8192, 7), Some((0, 8192, 7)));
    // a port with bits beyond the permission bits
    assert_eq!(sys_mmap(4096, 100, 8), None);
    // a port granting nothing
    assert_eq!(sys_mmap(4096, 100, 0), None);
    // an unaligned start
    assert_eq!(sys_mmap(4095, 100, 3), None);
}

#[test]
fn munmap_decision_checks_alignment() {
    assert_eq!(sys_munmap(4096, 100), Some((4096, 4096)));
    assert_eq!(sys_munmap(0, 0), Some((0, 0)));
    assert_eq!(sys_munmap(123, 100), None);
}

#[test]
fn time_splits_into_seconds_and_microseconds() {
    let t = TimeVal::from_us(2500000);
    assert_eq!(t.sec, 2);
    assert_eq!(t.usec, 500000);
    let t = TimeVal::from_us(999999);
    assert_eq!(t.sec, 0);
    assert_eq!(t.usec, 999999);
}
