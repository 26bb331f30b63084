use linkfs::flags::OpenFlags;
use linkfs::kernel::Kernel;
use linkfs::syscall::{sys_close, sys_fstat, sys_linkat, sys_open, sys_read, sys_write};

fn name(s: &str) -> String {
    String::from(s)
}

#[test]
fn unknown_name_open_fails() {
    let mut k = Kernel::new();
    let r = sys_open(&mut k, &name("nope"), OpenFlags::RDONLY);
    assert_eq!(r, -1);
}

#[test]
fn create_then_open_succeeds() {
    let mut k = Kernel::new();
    let fd = sys_open(&mut k, &name("a"), OpenFlags::CREATE);
    assert!(fd >= 2);
    let fd2 = sys_open(&mut k, &name("a"), OpenFlags::RDONLY);
    assert!(fd2 >= 2);
    assert_ne!(fd, fd2);
}

#[test]
fn round_trip_write_then_reopen_and_read() {
    let mut k = Kernel::new();
    let fd = sys_open(&mut k, &name("a"), OpenFlags::CREATE) as usize;
    let payload = vec![104u8, 101, 108, 108, 111];
    let w = sys_write(&mut k, fd, &payload);
    assert_eq!(w, 5);
    let fd2 = sys_open(&mut k, &name("a"), OpenFlags::RDONLY) as usize;
    let (n, data) = sys_read(&mut k, fd2, 100);
    assert_eq!(n, 5);
    assert_eq!(data, payload);
}

#[test]
fn truncate_on_create_clears_content() {
    let mut k = Kernel::new();
    let fd = sys_open(&mut k, &name("a"), OpenFlags::CREATE) as usize;
    let payload = vec![1u8, 2, 3, 4];
    assert_eq!(sys_write(&mut k, fd, &payload), 4);
    let fd2 = sys_open(&mut k, &name("a"), OpenFlags::CREATE) as usize;
    let (n, data) = sys_read(&mut k, fd2, 100);
    assert_eq!(n, 0);
    assert!(data.is_empty());
}

#[test]
fn truncate_flag_clears_content() {
    let mut k = Kernel::new();
    let fd = sys_open(&mut k, &name("a"), OpenFlags::CREATE) as usize;
    assert_eq!(sys_write(&mut k, fd, &vec![9u8, 9, 9]), 3);
    let _ = sys_open(&mut k, &name("a"), OpenFlags::TRUNC);
    let fd2 = sys_open(&mut k, &name("a"), OpenFlags::RDONLY) as usize;
    let (n, _) = sys_read(&mut k, fd2, 100);
    assert_eq!(n, 0);
}

#[test]
fn independent_offsets_for_two_handles() {
    let mut k = Kernel::new();
    let fd = sys_open(&mut k, &name("a"), OpenFlags::CREATE | OpenFlags::RDWR) as usize;
    let payload = vec![97u8, 98, 99, 100, 101, 102];
    assert_eq!(sys_write(&mut k, fd, &payload), 6);
    let fd1 = sys_open(&mut k, &name("a"), OpenFlags::RDONLY) as usize;
    let fd2 = sys_open(&mut k, &name("a"), OpenFlags::RDONLY) as usize;
    let (n1, d1) = sys_read(&mut k, fd1, 3);
    assert_eq!(n1, 3);
    assert_eq!(d1, vec![97, 98, 99]);
    // the second handle still starts at the beginning
    let (n2, d2) = sys_read(&mut k, fd2, 3);
    assert_eq!(n2, 3);
    assert_eq!(d2, vec![97, 98, 99]);
    // and the first continues where it left off
    let (n3, d3) = sys_read(&mut k, fd1, 3);
    assert_eq!(n3, 3);
    assert_eq!(d3, vec![100, 101, 102]);
}

#[test]
fn link_then_unlink_restores_singularity() {
    let mut k = Kernel::new();
    let fd_a = sys_open(&mut k, &name("a"), OpenFlags::CREATE) as usize;
    let st = sys_fstat(&k, fd_a).unwrap();
    assert_eq!(st.nlink, 1);
    assert_eq!(sys_linkat(&mut k, &name("a"), &name("b")), 0);
    let st = sys_fstat(&k, fd_a).unwrap();
    assert_eq!(st.nlink, 2);
    // a name that exists only as a link opens through the registry
    let fd_b = sys_open(&mut k, &name("b"), OpenFlags::RDONLY) as usize;
    let st = sys_fstat(&k, fd_b).unwrap();
    assert_eq!(st.nlink, 2);
    assert_eq!(sys_linkat(&mut k, &name("b"), &name("c")), 0);
    let st = sys_fstat(&k, fd_b).unwrap();
    assert_eq!(st.nlink, 3);
    // unlinking one name lowers every surviving name's count
    assert_eq!(sys_linkat(&mut k, &name("a"), &name("b")), -1); // b already exists
    let _ = linkfs::syscall::sys_unlinkat(&mut k, &name("c"));
    let st = sys_fstat(&k, fd_b).unwrap();
    assert_eq!(st.nlink, 2);
    let _ = linkfs::syscall::sys_unlinkat(&mut k, &name("a"));
    let st = sys_fstat(&k, fd_b).unwrap();
    assert_eq!(st.nlink, 1);
    let _ = linkfs::syscall::sys_unlinkat(&mut k, &name("b"));
    // no record of the object remains: neither name opens
    assert_eq!(sys_open(&mut k, &name("a"), OpenFlags::RDONLY), -1);
    assert_eq!(sys_open(&mut k, &name("b"), OpenFlags::RDONLY), -1);
}

#[test]
fn link_content_shared_through_either_name() {
    let mut k = Kernel::new();
    let fd_a = sys_open(&mut k, &name("a"), OpenFlags::CREATE) as usize;
    assert_eq!(sys_linkat(&mut k, &name("a"), &name("b")), 0);
    let payload = vec![42u8, 43, 44];
    assert_eq!(sys_write(&mut k, fd_a, &payload), 3);
    let fd_b = sys_open(&mut k, &name("b"), OpenFlags::RDONLY) as usize;
    let (n, data) = sys_read(&mut k, fd_b, 10);
    assert_eq!(n, 3);
    assert_eq!(data, payload);
}

#[test]
fn link_of_unknown_name_fails() {
    let mut k = Kernel::new();
    assert_eq!(sys_linkat(&mut k, &name("ghost"), &name("b")), -1);
}

#[test]
fn unlink_always_reports_success() {
    let mut k = Kernel::new();
    assert_eq!(linkfs::syscall::sys_unlinkat(&mut k, &name("ghost")), 0);
}

#[test]
fn permission_denied_on_wrong_capability() {
    let mut k = Kernel::new();
    let fd = sys_open(&mut k, &name("a"), OpenFlags::CREATE) as usize;
    // created read-write by default flags derivation? CREATE alone means read-write
    assert_eq!(sys_write(&mut k, fd, &vec![1u8]), 1);
    let ro = sys_open(&mut k, &name("a"), OpenFlags::RDONLY) as usize;
    assert_eq!(sys_write(&mut k, ro, &vec![1u8]), -1);
    let wo = sys_open(&mut k, &name("a"), OpenFlags::WRONLY) as usize;
    let (n, _) = sys_read(&mut k, wo, 1);
    assert_eq!(n, -1);
}

#[test]
fn invalid_descriptor_is_refused() {
    let mut k = Kernel::new();
    assert_eq!(sys_close(&mut k, 99), -1);
    assert_eq!(sys_write(&mut k, 99, &vec![1u8]), -1);
    let (n, _) = sys_read(&mut k, 99, 1);
    assert_eq!(n, -1);
    assert!(sys_fstat(&k, 99).is_none());
}

#[test]
fn closed_slot_is_refused_and_reused() {
    let mut k = Kernel::new();
    let fd = sys_open(&mut k, &name("a"), OpenFlags::CREATE) as usize;
    assert_eq!(sys_close(&mut k, fd), 0);
    assert_eq!(sys_write(&mut k, fd, &vec![1u8]), -1);
    let fd2 = sys_open(&mut k, &name("b"), OpenFlags::CREATE) as usize;
    assert_eq!(fd, fd2);
}

#[test]
fn close_decrements_the_shared_link_count() {
    let mut k = Kernel::new();
    let fd_a = sys_open(&mut k, &name("a"), OpenFlags::CREATE) as usize;
    assert_eq!(sys_linkat(&mut k, &name("a"), &name("b")), 0);
    let fd_b = sys_open(&mut k, &name("b"), OpenFlags::RDONLY) as usize;
    // closing a descriptor runs the same reconciliation as an unlink
    // of its name: the surviving name drops to one link
    assert_eq!(sys_close(&mut k, fd_a), 0);
    let st = sys_fstat(&k, fd_b).unwrap();
    assert_eq!(st.nlink, 1);
}

#[test]
fn console_descriptors() {
    let mut k = Kernel::new();
    k.feed_stdin(&vec![104u8, 105]);
    let (n, data) = sys_read(&mut k, 0, 10);
    assert_eq!(n, 2);
    assert_eq!(data, vec![104, 105]);
    let (n2, _) = sys_read(&mut k, 0, 10);
    assert_eq!(n2, 0);
    assert_eq!(sys_write(&mut k, 1, &vec![111u8, 107]), 2);
    assert_eq!(k.take_stdout(), vec![111, 107]);
    // stdin cannot be written, stdout cannot be read
    assert_eq!(sys_write(&mut k, 0, &vec![1u8]), -1);
    let (n3, _) = sys_read(&mut k, 1, 1);
    assert_eq!(n3, -1);
    assert_eq!(sys_close(&mut k, 0), 0);
    let (n4, _) = sys_read(&mut k, 0, 1);
    assert_eq!(n4, -1);
}

#[test]
fn fstat_reports_the_registry_record() {
    let mut k = Kernel::new();
    let fd = sys_open(&mut k, &name("a"), OpenFlags::CREATE) as usize;
    let st = sys_fstat(&k, fd).unwrap();
    assert_eq!(st.dev, 0);
    assert_eq!(st.nlink, 1);
    assert_eq!(st.mode, linkfs::stat::StatMode::File);
    assert!(sys_fstat(&k, 0).is_none());
    assert!(sys_fstat(&k, 1).is_none());
}
