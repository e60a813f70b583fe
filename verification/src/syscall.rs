//! The file-related syscall layer: the decisions the kernel makes over the
//! current process's open-file table and working directory. User pointers
//! arrive already translated to plain values (addresses as integers,
//! strings copied out of user memory) by the trap path, and the outcomes of
//! the file-system collaborator — whether an open, a removal or a directory
//! probe succeeded, how many bytes a file transferred — enter as plain
//! parameters; every return value is then determined for each such outcome.
//! Error returns use the kernel's convention of `-1` (or a specific
//! negative errno), never a panic: inputs that would be a fatal kernel
//! defect rather than a user-triggerable error are excluded by
//! precondition.

use vstd::prelude::*;

verus! {

use vstd::string::StrSliceExecFns;
use vstd::string::StringExecFns;

/// The pseudo file descriptor naming the current working directory.
pub const AT_FDCWD: usize = usize::MAX - 99;

/// Open flag: write-only access.
pub const OPEN_WRONLY: u32 = 0x1;

/// Open flag: read/write access.
pub const OPEN_RDWR: u32 = 0x2;

/// Open flag: create the file if absent.
pub const OPEN_CREATE: u32 = 0x40;

/// Open flag: truncate on open.
pub const OPEN_TRUNC: u32 = 0x200;

/// Open flag: non-blocking access.
pub const OPEN_NONBLOCK: u32 = 0x800;

/// Open flag: fail unless the path names a directory.
pub const OPEN_DIRECTORY: u32 = 0x10000;

/// Open flag: close the descriptor across an exec.
pub const OPEN_CLOEXEC: u32 = 0x80000;

/// Every defined open flag.
pub const OPEN_FLAGS_ALL: u32 = 0x90a43;

/// Every defined file-mode bit (type and permission fields).
pub const STAT_MODE_ALL: u32 = 0xffff;

/// Every defined unmount flag.
pub const UMOUNT_FLAGS_ALL: u32 = 0xf;

/// Every defined mount flag.
pub const MOUNT_FLAGS_ALL: usize = 0xfbfffcff;

/// `flags` holds only defined open flags.
pub open spec fn open_flags_valid(flags: u32) -> bool {
    flags & !OPEN_FLAGS_ALL == 0
}

/// `mode` holds only defined file-mode bits.
pub open spec fn stat_mode_valid(mode: u32) -> bool {
    mode & !STAT_MODE_ALL == 0
}

/// `flags` holds only defined mount flags.
pub open spec fn mount_flags_valid(flags: usize) -> bool {
    flags & !MOUNT_FLAGS_ALL == 0
}

/// What the syscall layer reads of an open file: access modes, whether it
/// is a directory, its blocking behaviour and its path. The file's contents
/// belong to the file-system collaborator.
pub struct FdEntry {
    /// The file may be read.
    pub readable: bool,
    /// The file may be written.
    pub writable: bool,
    /// The entry names a directory.
    pub is_dir: bool,
    /// Reads and writes do not block.
    pub nonblocking: bool,
    /// The path the entry was opened under.
    pub path: String,
}

/// The file-related state of one process: its open-file table, indexed by
/// file descriptor, and its working directory.
pub struct ProcessFsState {
    /// Slot `fd` holds the open file with that descriptor, if any.
    pub fd_table: Vec<Option<FdEntry>>,
    /// The current working directory, an absolute path.
    pub cwd: String,
}

/// `fd` is the lowest free slot of `t` (or one past the end when full).
pub open spec fn is_first_free(t: Seq<Option<FdEntry>>, fd: int) -> bool {
    &&& 0 <= fd <= t.len()
    &&& forall|i: int| 0 <= i < fd ==> (#[trigger] t[i]) is Some
    &&& fd < t.len() ==> t[fd] is None
}

/// `t` with slot `fd` holding `e`, the table growing by one when `fd` is
/// one past the end.
pub open spec fn table_with(t: Seq<Option<FdEntry>>, fd: int, e: FdEntry) -> Seq<
    Option<FdEntry>,
> {
    if fd < t.len() {
        t.update(fd, Some(e))
    } else {
        t.push(Some(e))
    }
}

/// The fields of a pipe end: the read end is readable only, the write end
/// writable only; neither is a directory; both are non-blocking exactly
/// when the pipe was opened non-blocking; a pipe has no path.
pub open spec fn pipe_end_fields(e: FdEntry, read_end: bool, flags: u32) -> bool {
    &&& e.readable == read_end
    &&& e.writable == !read_end
    &&& !e.is_dir
    &&& e.nonblocking == (flags & OPEN_NONBLOCK != 0)
    &&& e.path@ == Seq::<char>::empty()
}

/// `dirfd` names a usable base directory: the working directory, or an
/// open descriptor of a directory.
pub open spec fn base_dir_ok(proc: &ProcessFsState, dirfd: usize) -> bool {
    ||| dirfd == AT_FDCWD
    ||| ((dirfd as int) < proc.fd_table@.len() && (proc.fd_table@[dirfd as int] matches Some(f)
        && f.is_dir))
}

impl ProcessFsState {
    /// A fresh process starts with an empty file table and the root
    /// working directory.
    pub fn new() -> (r: Self)
        ensures
            r.fd_table@.len() == 0,
            r.cwd@ == "/"@,
    {
        ProcessFsState { fd_table: Vec::new(), cwd: String::from_str("/") }
    }

    /// The lowest free file descriptor, extending the table by one empty
    /// slot when every slot is taken.
    pub fn alloc_fd(&mut self) -> (fd: usize)
        requires
            old(self).fd_table@.len() < usize::MAX,
        ensures
            is_first_free(old(self).fd_table@, fd as int),
            fd < final(self).fd_table@.len(),
            final(self).fd_table@[fd as int] is None,
            (fd as int) < old(self).fd_table@.len() ==> final(self).fd_table@ == old(
                self,
            ).fd_table@,
            fd == old(self).fd_table@.len() ==> final(self).fd_table@ == old(
                self,
            ).fd_table@.push(None),
            final(self).cwd == old(self).cwd,
    {
        let n = self.fd_table.len();
        let mut i: usize = 0;
        while i < n
            invariant
                n == self.fd_table@.len(),
                i <= n,
                self == old(self),
                forall|j: int| 0 <= j < i ==> (#[trigger] self.fd_table@[j]) is Some,
            decreases n - i,
        {
            if self.fd_table[i].is_none() {
                return i;
            }
            i += 1;
        }
        self.fd_table.push(None);
        n
    }
}

/// Report the working directory. The caller copies the path into the user
/// buffer at `buf` afterwards; this decision only checks that the buffer
/// can hold the path and its terminator, answering `-34` (out of range)
/// when it cannot and the buffer address otherwise.
#[allow(unused_variables)]
pub fn sys_getcwd(proc: &ProcessFsState, buf: usize, len: usize) -> (r: isize)
    requires
        proc.cwd@.len() < usize::MAX,
    ensures
        r == if proc.cwd@.len() + 1 > len {
            -34isize
        } else {
            buf as isize
        },
{
    if proc.cwd.as_str().unicode_len() + 1 > len {
        return  -34;
    }
    #[verifier::truncate]
    (buf as isize)
}

/// Read from an open file. `transferred` is the byte count the file
/// reported for the user buffer `[buf, buf + len)`: an unknown or
/// non-readable descriptor answers `-1`, otherwise the count is returned.
#[allow(unused_variables)]
pub fn sys_read(proc: &ProcessFsState, fd: usize, buf: usize, len: usize, transferred: usize) -> (
    r: isize)
    requires
        transferred <= len,
        transferred <= isize::MAX as usize,
    ensures
        (fd as int) >= proc.fd_table@.len() ==> r == -1,
        (fd as int) < proc.fd_table@.len() && proc.fd_table@[fd as int] is None ==> r == -1,
        (fd as int) < proc.fd_table@.len() && (proc.fd_table@[fd as int] matches Some(f)) ==> r
            == if proc.fd_table@[fd as int]->0.readable {
            transferred as isize
        } else {
            -1isize
        },
{
    if fd >= self_len(proc) {
        return  -1;
    }
    match &proc.fd_table[fd] {
        Some(file) => {
            if !file.readable {
                -1
            } else {
                transferred as isize
            }
        },
        None => -1,
    }
}

/// Write to an open file. `transferred` is the byte count the file
/// accepted from the user buffer: an unknown or non-writable descriptor
/// answers `-1`, otherwise the count is returned.
#[allow(unused_variables)]
pub fn sys_write(proc: &ProcessFsState, fd: usize, buf: usize, len: usize, transferred: usize) -> (
    r: isize)
    requires
        transferred <= len,
        transferred <= isize::MAX as usize,
    ensures
        (fd as int) >= proc.fd_table@.len() ==> r == -1,
        (fd as int) < proc.fd_table@.len() && proc.fd_table@[fd as int] is None ==> r == -1,
        (fd as int) < proc.fd_table@.len() && (proc.fd_table@[fd as int] matches Some(f)) ==> r
            == if proc.fd_table@[fd as int]->0.writable {
            transferred as isize
        } else {
            -1isize
        },
{
    if fd >= self_len(proc) {
        return  -1;
    }
    match &proc.fd_table[fd] {
        Some(file) => {
            if !file.writable {
                -1
            } else {
                transferred as isize
            }
        },
        None => -1,
    }
}

/// Length of the process's file table.
fn self_len(proc: &ProcessFsState) -> (r: usize)
    ensures
        r == proc.fd_table@.len(),
{
    proc.fd_table.len()
}

/// Close a file descriptor: the slot is emptied. An out-of-range or
/// already-empty descriptor answers `-1` and changes nothing.
pub fn sys_close(proc: &mut ProcessFsState, fd: usize) -> (r: isize)
    ensures
        final(proc).cwd == old(proc).cwd,
        (fd as int) >= old(proc).fd_table@.len() ==> r == -1 && final(proc).fd_table@ == old(proc).fd_table@,
        (fd as int) < old(proc).fd_table@.len() && old(proc).fd_table@[fd as int] is None ==> r
            == -1 && final(proc).fd_table@ == old(proc).fd_table@,
        (fd as int) < old(proc).fd_table@.len() && old(proc).fd_table@[fd as int] is Some ==> r
            == 0 && final(proc).fd_table@ == old(proc).fd_table@.update(fd as int, None),
{
    if fd >= proc.fd_table.len() {
        return  -1;
    }
    if proc.fd_table[fd].is_none() {
        return  -1;
    }
    proc.fd_table[fd] = None;
    0
}

/// Open a file in the current working directory. `opened` is the
/// file-system collaborator's outcome for `path` under `flags`: undefined
/// flag bits or a failed open answer `-1` and change nothing; a successful
/// open takes the lowest free descriptor.
#[allow(unused_variables)]
pub fn sys_open(proc: &mut ProcessFsState, path: &String, flags: u32, opened: Option<FdEntry>) -> (
    r: isize)
    requires
        old(proc).fd_table@.len() < isize::MAX as usize,
    ensures
        final(proc).cwd == old(proc).cwd,
        !open_flags_valid(flags) ==> r == -1 && final(proc).fd_table@ == old(proc).fd_table@,
        open_flags_valid(flags) && opened is None ==> r == -1 && final(proc).fd_table@ == old(proc).fd_table@,
        opened matches Some(e) ==> (open_flags_valid(flags) ==> r >= 0 && is_first_free(
            old(proc).fd_table@,
            r as int,
        ) && final(proc).fd_table@ == table_with(old(proc).fd_table@, r as int, e)),
{
    if flags & !OPEN_FLAGS_ALL != 0 {
        return  -1;
    }
    match opened {
        Some(inode) => {
            let fd = proc.alloc_fd();
            proc.fd_table[fd] = Some(inode);
            proof {
                if (fd as int) < old(proc).fd_table@.len() {
                    assert(final(proc).fd_table@ == old(proc).fd_table@.update(
                        fd as int,
                        Some(inode),
                    ));
                } else {
                    assert(final(proc).fd_table@ == old(proc).fd_table@.push(None).update(
                        fd as int,
                        Some(inode),
                    ));
                    assert(final(proc).fd_table@ =~= old(proc).fd_table@.push(Some(inode)));
                }
            }
            #[verifier::truncate]
            (fd as isize)
        },
        None => -1,
    }
}

/// Open a file relative to a base directory: the working directory for
/// `AT_FDCWD`, else an open directory descriptor. `opened` is the
/// collaborator's outcome for the path under that base. Undefined flag
/// bits, an unusable base, a failed open, or a non-directory result when
/// `OPEN_DIRECTORY` was demanded answer `-1` and change nothing. A mode
/// word with undefined bits is a fatal kernel condition once the open is
/// attempted, so it is excluded by precondition there.
#[allow(unused_variables)]
pub fn sys_openat(
    proc: &mut ProcessFsState,
    dirfd: usize,
    path: &String,
    flags: u32,
    mode: u32,
    opened: Option<FdEntry>,
) -> (r: isize)
    requires
        old(proc).fd_table@.len() < isize::MAX as usize,
        open_flags_valid(flags) && base_dir_ok(old(proc), dirfd) ==> stat_mode_valid(mode),
    ensures
        final(proc).cwd == old(proc).cwd,
        !open_flags_valid(flags) ==> r == -1 && final(proc).fd_table@ == old(proc).fd_table@,
        open_flags_valid(flags) && !base_dir_ok(old(proc), dirfd) ==> r == -1 && final(proc).fd_table@ == old(proc).fd_table@,
        open_flags_valid(flags) && base_dir_ok(old(proc), dirfd) && opened is None ==> r == -1
            && final(proc).fd_table@ == old(proc).fd_table@,
        opened matches Some(e) ==> (open_flags_valid(flags) && base_dir_ok(old(proc), dirfd)
            && flags & OPEN_DIRECTORY != 0 && !e.is_dir ==> r == -1 && final(proc).fd_table@
            == old(proc).fd_table@),
        opened matches Some(e) ==> (open_flags_valid(flags) && base_dir_ok(old(proc), dirfd) && (
        flags & OPEN_DIRECTORY == 0 || e.is_dir) ==> r >= 0 && is_first_free(
            old(proc).fd_table@,
            r as int,
        ) && final(proc).fd_table@ == table_with(old(proc).fd_table@, r as int, e)),
{
    if flags & !OPEN_FLAGS_ALL != 0 {
        return  -1;
    }
    if dirfd != AT_FDCWD {
        if dirfd >= proc.fd_table.len() {
            return  -1;
        }
        match &proc.fd_table[dirfd] {
            Some(f) => {
                if !f.is_dir {
                    return  -1;
                }
            },
            None => {
                return  -1;
            },
        }
    }
    match opened {
        Some(inode) => {
            if flags & OPEN_DIRECTORY != 0 && !inode.is_dir {
                return  -1;
            }
            let fd = proc.alloc_fd();
            proc.fd_table[fd] = Some(inode);
            proof {
                if (fd as int) < old(proc).fd_table@.len() {
                    assert(final(proc).fd_table@ == old(proc).fd_table@.update(
                        fd as int,
                        Some(inode),
                    ));
                } else {
                    assert(final(proc).fd_table@ =~= old(proc).fd_table@.push(Some(inode)));
                }
            }
            #[verifier::truncate]
            (fd as isize)
        },
        None => -1,
    }
}

/// Report file status. `copied` is whether the status record reached the
/// user buffer: `AT_FDCWD` stats the working directory, any other
/// descriptor must name an open file (an empty slot answers `-1`); a
/// failed copy answers `-1`. A descriptor beyond the table is a fatal
/// kernel condition and is excluded by precondition.
pub fn sys_fstat(proc: &ProcessFsState, fd: usize, copied: bool) -> (r: isize)
    requires
        fd == AT_FDCWD || (fd as int) < proc.fd_table@.len(),
    ensures
        fd == AT_FDCWD ==> r == if copied {
            0isize
        } else {
            -1isize
        },
        fd != AT_FDCWD && proc.fd_table@[fd as int] is None ==> r == -1,
        fd != AT_FDCWD && proc.fd_table@[fd as int] is Some ==> r == if copied {
            0isize
        } else {
            -1isize
        },
{
    if fd != AT_FDCWD {
        match &proc.fd_table[fd] {
            Some(_) => {},
            None => {
                return  -1;
            },
        }
    }
    if copied {
        0
    } else {
        -1
    }
}

/// Create a pipe: undefined or disallowed flag bits (only non-blocking and
/// close-on-exec are accepted) answer `-1` and change nothing; otherwise
/// the read end and then the write end take the two lowest free
/// descriptors, and the caller stores the pair into the user words at
/// `pipefd`.
#[allow(unused_variables)]
pub fn sys_pipe2(proc: &mut ProcessFsState, pipefd: usize, flags: u32) -> (r: isize)
    requires
        old(proc).fd_table@.len() + 2 < isize::MAX as usize,
    ensures
        final(proc).cwd == old(proc).cwd,
        !open_flags_valid(flags) ==> r == -1 && final(proc).fd_table@ == old(proc).fd_table@,
        open_flags_valid(flags) && flags & !(OPEN_NONBLOCK | OPEN_CLOEXEC) != 0 ==> r == -1
            && final(proc).fd_table@ == old(proc).fd_table@,
        open_flags_valid(flags) && flags & !(OPEN_NONBLOCK | OPEN_CLOEXEC) == 0 ==> r == 0 && (
        exists|rfd: int, wfd: int|
            {
                &&& is_first_free(old(proc).fd_table@, rfd)
                &&& #[trigger] final(proc).fd_table@[rfd] matches Some(re) && pipe_end_fields(
                    re,
                    true,
                    flags,
                )
                &&& exists|mid: Seq<Option<FdEntry>>|
                    {
                        &&& (final(proc).fd_table@[rfd] matches Some(re2) && mid == table_with(
                            old(proc).fd_table@,
                            rfd,
                            re2,
                        ))
                        &&& is_first_free(mid, wfd)
                        &&& (#[trigger] final(proc).fd_table@[wfd] matches Some(we)
                            && pipe_end_fields(we, false, flags) && final(proc).fd_table@
                            == table_with(mid, wfd, we))
                    }
            }),
{
    if flags & !OPEN_FLAGS_ALL != 0 {
        return  -1;
    }
    let allowed = OPEN_NONBLOCK | OPEN_CLOEXEC;
    if flags & !allowed != 0 {
        return  -1;
    }
    let nonblocking = flags & OPEN_NONBLOCK != 0;
    let pipe_read = FdEntry {
        readable: true,
        writable: false,
        is_dir: false,
        nonblocking,
        path: String::new(),
    };
    let pipe_write = FdEntry {
        readable: false,
        writable: true,
        is_dir: false,
        nonblocking,
        path: String::new(),
    };
    let read_fd = proc.alloc_fd();
    proc.fd_table[read_fd] = Some(pipe_read);
    let ghost mid = proc.fd_table@;
    proof {
        if (read_fd as int) < old(proc).fd_table@.len() {
            assert(mid == old(proc).fd_table@.update(read_fd as int, proc.fd_table@[
                read_fd as int]));
        } else {
            assert(mid =~= old(proc).fd_table@.push(proc.fd_table@[read_fd as int]));
        }
    }
    let write_fd = proc.alloc_fd();
    proc.fd_table[write_fd] = Some(pipe_write);
    proof {
        assert(final(proc).fd_table@[read_fd as int] == mid[read_fd as int]);
        if (write_fd as int) < mid.len() {
            assert(final(proc).fd_table@ == mid.update(write_fd as int, final(proc).fd_table@[
                write_fd as int]));
        } else {
            assert(final(proc).fd_table@ =~= mid.push(final(proc).fd_table@[write_fd as int]));
        }
    }
    0
}

/// Remove a directory entry. The base directory comes from `dirfd` as in
/// `sys_openat`; `removed` is the file system's outcome for the resolved
/// path (built by `resolve_path` and `path_in_fs`). An unusable base
/// answers `-1`; otherwise the outcome decides between `0` and `-1`.
#[allow(unused_variables)]
pub fn sys_unlinkat(proc: &ProcessFsState, dirfd: usize, path: &String, flags: u32, removed: bool) -> (
    r: isize)
    ensures
        !base_dir_ok(proc, dirfd) ==> r == -1,
        base_dir_ok(proc, dirfd) ==> r == if removed {
            0isize
        } else {
            -1isize
        },
{
    if dirfd != AT_FDCWD {
        if dirfd >= proc.fd_table.len() {
            return  -1;
        }
        match &proc.fd_table[dirfd] {
            Some(f) => {
                if !f.is_dir {
                    return  -1;
                }
            },
            None => {
                return  -1;
            },
        }
    }
    if removed {
        0
    } else {
        -1
    }
}

/// Change the working directory. `dir_ok` is whether the named path opened
/// as a directory: failure answers `-1` and changes nothing; success
/// resolves the path against the old working directory and installs it.
/// `resolved_ok` is the re-open of the resolved path, whose failure is a
/// fatal kernel condition, so it is excluded by precondition.
#[allow(unused_variables)]
pub fn sys_chdir(proc: &mut ProcessFsState, path: &String, dir_ok: bool, resolved_ok: bool) -> (r:
    isize)
    requires
        dir_ok ==> resolved_ok,
    ensures
        final(proc).fd_table@ == old(proc).fd_table@,
        !dir_ok ==> r == -1 && final(proc).cwd == old(proc).cwd,
        dir_ok ==> r == 0 && final(proc).cwd@ == spec_resolve_path(path@, old(proc).cwd@),
{
    if !dir_ok {
        return  -1;
    }
    let new_cwd = resolve_path(path, &proc.cwd);
    proc.cwd = new_cwd;
    0
}

/// Unmount a filesystem. The flag word is accepted but does not influence
/// the outcome; `dir_ok` is whether the target opened as a directory, and
/// alone decides the result.
#[allow(unused_variables)]
pub fn sys_umount2(target: &String, flags: u32, dir_ok: bool) -> (r: isize)
    ensures
        r == if dir_ok {
            0isize
        } else {
            -1isize
        },
{
    if dir_ok {
        0
    } else {
        -1
    }
}

/// Mount a filesystem. A mount-flag word with undefined bits is a fatal
/// kernel condition and is excluded by precondition. The
/// target must have opened as a directory (`dir_ok`), and only the
/// filesystem types `vfat` and `fat32` are accepted; no mount table is
/// mutated.
#[allow(unused_variables)]
pub fn sys_mount(
    source: &String,
    target: &String,
    filesystemtype: &String,
    mountflags: usize,
    data: usize,
    dir_ok: bool,
) -> (r: isize)
    requires
        mount_flags_valid(mountflags),
    ensures
        !dir_ok ==> r == -1,
        dir_ok ==> r == if filesystemtype@ == "vfat"@ || filesystemtype@ == "fat32"@ {
            0isize
        } else {
            -1isize
        },
{
    if !dir_ok {
        return  -1;
    }
    let vfat = String::from_str("vfat");
    let fat32 = String::from_str("fat32");
    if *filesystemtype == vfat || *filesystemtype == fat32 {
        0
    } else {
        -1
    }
}

/// The numeric syscall dispatch table is a collaborator above this core;
/// the dispatcher itself is a stub answering `0`.
#[allow(unused_variables)]
pub fn syscall(syscall_id: usize, args: [usize; 6]) -> (r: isize)
    ensures
        r == 0,
{
    0
}

/// The resolved form of `path` against the base directory `base`: an
/// absolute path stands as it is, a relative one is joined to the base
/// with a separator.
pub open spec fn spec_resolve_path(path: Seq<char>, base: Seq<char>) -> Seq<char> {
    if path.len() > 0 && path[0] == '/' {
        path
    } else {
        base + "/"@ + path
    }
}

/// Resolve `path` against the base directory `base`: absolute paths stand,
/// relative ones are joined to the base with a separator.
pub fn resolve_path(path: &String, base: &String) -> (r: String)
    ensures
        r@ == spec_resolve_path(path@, base@),
{
    let n = path.as_str().unicode_len();
    if n > 0 && path.as_str().get_char(0) == '/' {
        path.clone()
    } else {
        let mut r = base.clone();
        r.append("/");
        r.append(path.as_str());
        r
    }
}

/// The in-filesystem form of a resolved path: one leading separator is
/// stripped before the path is handed to the root directory for removal.
pub open spec fn spec_path_in_fs(path: Seq<char>) -> Seq<char> {
    if path.len() > 0 && path[0] == '/' {
        path.subrange(1, path.len() as int)
    } else {
        path
    }
}

/// Strip one leading separator from a resolved path, as the removal path
/// of `sys_unlinkat` does before consulting the root directory.
pub fn path_in_fs(path: &String) -> (r: String)
    ensures
        r@ == spec_path_in_fs(path@),
{
    let n = path.as_str().unicode_len();
    if n > 0 && path.as_str().get_char(0) == '/' {
        let tail = path.as_str().substring_char(1, n);
        String::from_str(tail)
    } else {
        path.clone()
    }
}

} // verus!
