use oskernel::syscall::{
    path_in_fs, resolve_path, sys_chdir, sys_close, sys_fstat, sys_getcwd, sys_mount, sys_open,
    sys_openat, sys_pipe2, sys_read, sys_umount2, sys_unlinkat, sys_write, syscall, FdEntry,
    ProcessFsState, AT_FDCWD, OPEN_CLOEXEC, OPEN_CREATE, OPEN_DIRECTORY, OPEN_NONBLOCK,
};

fn file(readable: bool, writable: bool, is_dir: bool, path: &str) -> FdEntry {
    FdEntry {
        readable,
        writable,
        is_dir,
        nonblocking: false,
        path: String::from(path),
    }
}

fn proc_with(entries: Vec<Option<FdEntry>>) -> ProcessFsState {
    let mut p = ProcessFsState::new();
    p.fd_table = entries;
    p
}

#[test]
fn getcwd_rejects_short_buffers() {
    let p = ProcessFsState::new();
    // cwd is "/": one byte plus the terminator needs two
    assert_eq!(sys_getcwd(&p, 0x5000, 1), -34);
    assert_eq!(sys_getcwd(&p, 0x5000, 2), 0x5000);
}

#[test]
fn read_checks_the_descriptor() {
    let p = proc_with(vec![
        Some(file(true, false, false, "a")),
        None,
        Some(file(false, true, false, "b")),
    ]);
    assert_eq!(sys_read(&p, 9, 0x7000, 64, 10), -1); // out of range
    assert_eq!(sys_read(&p, 1, 0x7000, 64, 10), -1); // empty slot
    assert_eq!(sys_read(&p, 2, 0x7000, 64, 10), -1); // not readable
    assert_eq!(sys_read(&p, 0, 0x7000, 64, 10), 10);
    assert_eq!(sys_read(&p, 0, 0x7000, 64, 0), 0);
}

#[test]
fn write_checks_the_descriptor() {
    let p = proc_with(vec![
        Some(file(true, false, false, "a")),
        Some(file(false, true, false, "b")),
    ]);
    assert_eq!(sys_write(&p, 5, 0x7000, 64, 10), -1);
    assert_eq!(sys_write(&p, 0, 0x7000, 64, 10), -1);
    assert_eq!(sys_write(&p, 1, 0x7000, 64, 33), 33);
}

#[test]
fn close_empties_exactly_one_slot() {
    let mut p = proc_with(vec![
        Some(file(true, true, false, "a")),
        Some(file(true, true, false, "b")),
    ]);
    assert_eq!(sys_close(&mut p, 7), -1);
    assert_eq!(sys_close(&mut p, 0), 0);
    assert_eq!(sys_close(&mut p, 0), -1); // already closed
    assert_eq!(sys_read(&p, 1, 0, 8, 4), 4); // the other survives
}

#[test]
fn open_validates_flags_and_takes_the_lowest_fd() {
    let mut p = ProcessFsState::new();
    let path = String::from("log");
    assert_eq!(sys_open(&mut p, &path, 0x4, Some(file(true, false, false, "log"))), -1);
    assert_eq!(sys_open(&mut p, &path, OPEN_CREATE, None), -1);
    assert_eq!(sys_open(&mut p, &path, OPEN_CREATE, Some(file(true, false, false, "log"))), 0);
    assert_eq!(sys_open(&mut p, &path, 0, Some(file(true, false, false, "log2"))), 1);
    // a closed low slot is reused first
    assert_eq!(sys_close(&mut p, 0), 0);
    assert_eq!(sys_open(&mut p, &path, 0, Some(file(true, false, false, "log3"))), 0);
}

#[test]
fn openat_validates_the_base_directory() {
    let mut p = proc_with(vec![
        Some(file(true, false, true, "/etc")),
        Some(file(true, false, false, "/etc/motd")),
    ]);
    let path = String::from("x");
    let opened = || Some(file(true, false, false, "/etc/x"));
    assert_eq!(sys_openat(&mut p, 0, &path, 0x4, 0, opened()), -1); // bad flags
    assert_eq!(sys_openat(&mut p, 9, &path, 0, 0, opened()), -1); // no such fd
    assert_eq!(sys_openat(&mut p, 1, &path, 0, 0, opened()), -1); // not a directory
    assert_eq!(sys_openat(&mut p, 0, &path, 0, 0, None), -1); // open failed
    assert_eq!(sys_openat(&mut p, 0, &path, 0, 0, opened()), 2);
    assert_eq!(sys_openat(&mut p, AT_FDCWD, &path, 0, 0, opened()), 3);
}

#[test]
fn openat_directory_flag_demands_a_directory() {
    let mut p = ProcessFsState::new();
    let path = String::from("d");
    let dir = Some(file(true, false, true, "/d"));
    let plain = Some(file(true, false, false, "/d"));
    assert_eq!(sys_openat(&mut p, AT_FDCWD, &path, OPEN_DIRECTORY, 0, plain), -1);
    assert_eq!(sys_openat(&mut p, AT_FDCWD, &path, OPEN_DIRECTORY, 0, dir), 0);
}

#[test]
fn fstat_answers_for_cwd_and_open_files() {
    let p = proc_with(vec![Some(file(true, false, false, "a")), None]);
    assert_eq!(sys_fstat(&p, AT_FDCWD, true), 0);
    assert_eq!(sys_fstat(&p, AT_FDCWD, false), -1);
    assert_eq!(sys_fstat(&p, 0, true), 0);
    assert_eq!(sys_fstat(&p, 0, false), -1);
    assert_eq!(sys_fstat(&p, 1, true), -1);
}

#[test]
fn pipe2_creates_a_read_end_and_a_write_end() {
    let mut p = ProcessFsState::new();
    assert_eq!(sys_pipe2(&mut p, 0x6000, 0x4), -1); // undefined bit is refused
    assert_eq!(sys_pipe2(&mut p, 0x6000, OPEN_CREATE), -1); // defined but disallowed
    assert_eq!(sys_pipe2(&mut p, 0x6000, 0), 0);
    let read_end = p.fd_table[0].as_ref().unwrap();
    let write_end = p.fd_table[1].as_ref().unwrap();
    assert!(read_end.readable && !read_end.writable && !read_end.nonblocking);
    assert!(!write_end.readable && write_end.writable);
    // a non-blocking pipe marks both ends
    let mut q = ProcessFsState::new();
    assert_eq!(sys_pipe2(&mut q, 0x6000, OPEN_NONBLOCK | OPEN_CLOEXEC), 0);
    assert!(q.fd_table[0].as_ref().unwrap().nonblocking);
    assert!(q.fd_table[1].as_ref().unwrap().nonblocking);
}

#[test]
fn unlinkat_needs_a_usable_base() {
    let p = proc_with(vec![Some(file(true, false, false, "plain"))]);
    let path = String::from("victim");
    assert_eq!(sys_unlinkat(&p, 4, &path, 0, true), -1);
    assert_eq!(sys_unlinkat(&p, 0, &path, 0, true), -1);
    assert_eq!(sys_unlinkat(&p, AT_FDCWD, &path, 0, true), 0);
    assert_eq!(sys_unlinkat(&p, AT_FDCWD, &path, 0, false), -1);
}

#[test]
fn chdir_resolves_against_the_old_directory() {
    let mut p = ProcessFsState::new();
    let bad = String::from("nowhere");
    assert_eq!(sys_chdir(&mut p, &bad, false, false), -1);
    assert_eq!(p.cwd, "/");
    let tmp = String::from("/tmp");
    assert_eq!(sys_chdir(&mut p, &tmp, true, true), 0);
    assert_eq!(p.cwd, "/tmp");
    let rel = String::from("work");
    assert_eq!(sys_chdir(&mut p, &rel, true, true), 0);
    assert_eq!(p.cwd, "/tmp/work");
}

#[test]
fn umount_checks_only_the_target_directory() {
    let target = String::from("/mnt");
    assert_eq!(sys_umount2(&target, 0x2, true), 0);
    assert_eq!(sys_umount2(&target, 0, false), -1);
}

#[test]
fn mount_accepts_only_the_fat_family() {
    let src = String::from("/dev/sda");
    let target = String::from("/mnt");
    let vfat = String::from("vfat");
    let fat32 = String::from("fat32");
    let ext4 = String::from("ext4");
    assert_eq!(sys_mount(&src, &target, &vfat, 1, 0, true), 0);
    assert_eq!(sys_mount(&src, &target, &fat32, 0, 0, true), 0);
    assert_eq!(sys_mount(&src, &target, &ext4, 0, 0, true), -1);
    assert_eq!(sys_mount(&src, &target, &vfat, 0, 0, false), -1);
}

#[test]
fn dispatcher_stub_answers_zero() {
    assert_eq!(syscall(63, [3, 0x8000, 128, 0, 0, 0]), 0);
}

#[test]
fn path_resolution() {
    let abs = String::from("/etc/motd");
    let rel = String::from("notes/today");
    let base = String::from("/home/user");
    assert_eq!(resolve_path(&abs, &base), "/etc/motd");
    assert_eq!(resolve_path(&rel, &base), "/home/user/notes/today");
    assert_eq!(path_in_fs(&String::from("/a/b")), "a/b");
    assert_eq!(path_in_fs(&String::from("a/b")), "a/b");
    assert_eq!(path_in_fs(&String::from("")), "");
}
