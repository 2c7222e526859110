//! The filesystem layer: thin trusted wrappers over the system calls the
//! rotation needs, and the verified primitives built on them -- the
//! sparse-aware copy-truncate, recursive tree removal, directory listing,
//! digesting, and the helpers that read a path's metadata.

use vstd::prelude::*;
use vstd::string::StringExecFns;

use crate::RotateError;
use crate::path_rule::path_views;

verus! {

#[verifier::external_type_specification]
#[verifier::external_body]
pub struct ExErrno(nix::errno::Errno);

/// What `stat` reports of a path: the raw mode bits and the allocated
/// 512-byte block count.
#[derive(Clone, Copy, Debug, PartialEq, Eq, Structural)]
pub struct FileMeta {
    pub mode: u32,
    pub blocks: u64,
}

/// The file-type bits of a mode.
pub const MODE_TYPE_MASK: u32 = 0o170000;

/// The file-type bits of a regular file.
pub const MODE_REGULAR: u32 = 0o100000;

/// The file-type bits of a directory.
pub const MODE_DIRECTORY: u32 = 0o040000;

/// Whether the mode bits denote a regular file.
pub open spec fn spec_is_file(m: FileMeta) -> bool {
    m.mode & MODE_TYPE_MASK == MODE_REGULAR
}

/// Whether the mode bits denote a directory.
pub open spec fn spec_is_dir(m: FileMeta) -> bool {
    m.mode & MODE_TYPE_MASK == MODE_DIRECTORY
}

/// Whether the metadata denotes a regular file.
pub fn is_file(m: &FileMeta) -> (r: bool)
    ensures
        r == spec_is_file(*m),
{
    m.mode & MODE_TYPE_MASK == MODE_REGULAR
}

/// Whether the metadata denotes a directory.
pub fn is_dir(m: &FileMeta) -> (r: bool)
    ensures
        r == spec_is_dir(*m),
{
    m.mode & MODE_TYPE_MASK == MODE_DIRECTORY
}

/// The storage footprint: allocated block count times the 512-byte unit.
/// Distinct from apparent length; a sparse file can be long yet occupy
/// nothing.
pub fn stat_size(m: &FileMeta) -> (r: u128)
    ensures
        r == m.blocks as int * 512,
{
    (m.blocks as u128) * 512
}

/// Relies on nix::sys::stat::stat: reads the path's metadata, following
/// symbolic links; the mode and block count describe what is at the path.
#[verifier::external_body]
fn stat_raw(path: &str) -> (r: Result<FileMeta, nix::errno::Errno>)
{
    nix::sys::stat::stat(path).map(
        |st| FileMeta { mode: st.st_mode as u32, blocks: st.st_blocks as u64 },
    )
}

/// Relies on nix::fcntl::renameat (with no directory descriptors): renames
/// `old` onto `new`, replacing `new` if it exists.
#[verifier::external_body]
fn rename_raw(old: &str, new: &str) -> (r: Result<(), nix::errno::Errno>)
{
    nix::fcntl::renameat(None, old, None, new)
}

/// Relies on nix::unistd::unlink: removes the directory entry.
#[verifier::external_body]
fn unlink_raw(path: &str) -> (r: Result<(), nix::errno::Errno>)
{
    nix::unistd::unlink(path)
}

/// Relies on nix::unistd::unlinkat with RemoveDir: removes an empty
/// directory.
#[verifier::external_body]
fn rmdir_raw(path: &str) -> (r: Result<(), nix::errno::Errno>)
{
    nix::unistd::unlinkat(None, path, nix::unistd::UnlinkatFlags::RemoveDir)
}

/// Relies on nix::unistd::mkdir: creates a directory with mode 0o777 (the
/// process umask applies).
#[verifier::external_body]
fn mkdir_raw(path: &str) -> (r: Result<(), nix::errno::Errno>)
{
    nix::unistd::mkdir(path, nix::sys::stat::Mode::from_bits_truncate(0o777))
}

/// How a descriptor is opened.
#[derive(Clone, Copy, Debug)]
pub enum OpenKind {
    /// Read-only.
    Read,
    /// Read and write, the file must exist.
    ReadWrite,
    /// Write-only; created with mode 0o666 if absent, truncated if present.
    CreateTruncate,
}

/// Relies on nix::fcntl::open: opens the path as the kind asks and returns
/// the raw descriptor.
#[verifier::external_body]
fn open_raw(path: &str, kind: OpenKind) -> (r: Result<i32, nix::errno::Errno>)
{
    let (flags, mode) = match kind {
        OpenKind::Read => (nix::fcntl::OFlag::O_RDONLY, nix::sys::stat::Mode::empty()),
        OpenKind::ReadWrite => (nix::fcntl::OFlag::O_RDWR, nix::sys::stat::Mode::empty()),
        OpenKind::CreateTruncate => (
            nix::fcntl::OFlag::O_WRONLY | nix::fcntl::OFlag::O_CREAT | nix::fcntl::OFlag::O_TRUNC,
            nix::sys::stat::Mode::from_bits_truncate(0o666),
        ),
    };
    nix::fcntl::open(path, flags, mode)
}

/// Relies on nix::unistd::close: releases the descriptor.
#[verifier::external_body]
fn close_raw(fd: i32) -> (r: Result<(), nix::errno::Errno>)
{
    nix::unistd::close(fd)
}

/// Relies on nix::unistd::fsync: flushes the descriptor's data and metadata
/// to durable storage before returning success.
#[verifier::external_body]
fn fsync_raw(fd: i32) -> (r: Result<(), nix::errno::Errno>)
{
    nix::unistd::fsync(fd)
}

/// Relies on nix::unistd::ftruncate: sets the open file's length.
#[verifier::external_body]
fn ftruncate_raw(fd: i32, len: i64) -> (r: Result<(), nix::errno::Errno>)
{
    nix::unistd::ftruncate(fd, len)
}

/// Where a seek positions the descriptor.
#[derive(Clone, Copy, Debug)]
pub enum SeekKind {
    /// The given absolute offset.
    Absolute,
    /// The smallest offset at or after the given one that lies in a data
    /// (allocated) region; fails when no data region follows.
    NextData,
}

/// Relies on nix::unistd::lseek: with SEEK_SET the new position is the
/// requested offset; with SEEK_DATA it is the first data offset at or after
/// the requested one.  The returned position is never negative.
#[verifier::external_body]
fn seek_raw(fd: i32, offset: i64, kind: SeekKind) -> (r: Result<i64, nix::errno::Errno>)
    ensures
        r matches Ok(pos) ==> pos >= 0,
        kind is Absolute ==> (r matches Ok(pos) ==> pos == offset),
        kind is NextData ==> (r matches Ok(pos) ==> pos >= offset),
{
    let whence = match kind {
        SeekKind::Absolute => nix::unistd::Whence::SeekSet,
        SeekKind::NextData => nix::unistd::Whence::SeekData,
    };
    nix::unistd::lseek(fd, offset, whence)
}

/// Relies on nix::sys::sendfile::sendfile: moves up to `count` bytes from
/// the source descriptor's offset to the destination without user-space
/// buffering, returning how many moved -- zero once no data remains.
#[verifier::external_body]
fn sendfile_raw(dst_fd: i32, src_fd: i32, count: usize) -> (r: Result<usize, nix::errno::Errno>)
    ensures
        r matches Ok(n) ==> n <= count,
{
    nix::sys::sendfile::sendfile(dst_fd, src_fd, None, count)
}

/// Relies on nix::unistd::write: writes from the buffer, returning how many
/// bytes were accepted.
#[verifier::external_body]
fn write_raw(fd: i32, buf: &Vec<u8>) -> (r: Result<usize, nix::errno::Errno>)
    ensures
        r matches Ok(n) ==> n <= buf@.len(),
{
    nix::unistd::write(fd, buf.as_slice())
}

/// Relies on nix::unistd::read: reads into the buffer in place, returning
/// how many bytes arrived -- zero at end of file.  The length is unchanged.
#[verifier::external_body]
fn read_raw(fd: i32, buf: &mut Vec<u8>) -> (r: Result<usize, nix::errno::Errno>)
    ensures
        final(buf)@.len() == old(buf)@.len(),
        r matches Ok(n) ==> n <= old(buf)@.len(),
{
    nix::unistd::read(fd, buf.as_mut_slice())
}

/// Relies on nix::dir::Dir: opens the directory and collects every entry's
/// name, the dot entries included; a failed entry read fails the listing.
/// Names are converted lossily: the library models paths as `String`, so a
/// non-UTF-8 entry name yields a path that later operations on it fail on
/// with a filesystem error rather than proceed.
#[verifier::external_body]
fn read_dir_raw(path: &str) -> (r: Result<Vec<String>, nix::errno::Errno>)
{
    let mut dir = nix::dir::Dir::open(
        path,
        nix::fcntl::OFlag::O_RDONLY | nix::fcntl::OFlag::O_DIRECTORY,
        nix::sys::stat::Mode::empty(),
    )?;
    let mut names: Vec<String> = Vec::new();
    for entry in dir.iter() {
        names.push(entry?.file_name().to_string_lossy().into_owned());
    }
    Ok(names)
}

/// Relies on rand::Rng::fill on the thread rng: overwrites the buffer with
/// random bytes; the length is unchanged.
#[verifier::external_body]
fn fill_random(buf: &mut Vec<u8>)
    ensures
        final(buf)@.len() == old(buf)@.len(),
{
    rand::Rng::fill(&mut rand::thread_rng(), buf.as_mut_slice());
}

/// The SHA-256 digest of a byte sequence; a function of the bytes alone.
pub uninterp spec fn sha256_of(data: Seq<u8>) -> Seq<u8>;

/// Relies on sha2::Sha256: the digest is a function of the bytes alone and
/// is 32 bytes long.
#[verifier::external_body]
fn sha256_raw(data: &Vec<u8>) -> (r: Vec<u8>)
    ensures
        r@ == sha256_of(data@),
        r@.len() == 32,
{
    <sha2::Sha256 as sha2::Digest>::digest(data.as_slice()).to_vec()
}

/// Reads the path's metadata.
pub fn stat_meta(path: &str) -> (r: Result<FileMeta, RotateError>)
    ensures
        r matches Err(e) ==> e == RotateError::Filesystem,
{
    match stat_raw(path) {
        Ok(m) => Ok(m),
        Err(_) => Err(RotateError::Filesystem),
    }
}

/// The storage footprint of the path: allocated blocks times 512 bytes.
pub fn storage_size(path: &str) -> (r: Result<u128, RotateError>)
    ensures
        r matches Err(e) ==> e == RotateError::Filesystem,
{
    match stat_meta(path) {
        Ok(m) => Ok(stat_size(&m)),
        Err(e) => Err(e),
    }
}

/// Renames `old` onto `new`, replacing `new` if it exists.
pub fn rename_path(old: &str, new: &str) -> (r: Result<(), RotateError>)
    ensures
        r matches Err(e) ==> e == RotateError::Filesystem,
{
    match rename_raw(old, new) {
        Ok(u) => Ok(u),
        Err(_) => Err(RotateError::Filesystem),
    }
}

/// Removes the file (or other non-directory entry) at the path.
pub fn remove_file(path: &str) -> (r: Result<(), RotateError>)
    ensures
        r matches Err(e) ==> e == RotateError::Filesystem,
{
    match unlink_raw(path) {
        Ok(u) => Ok(u),
        Err(_) => Err(RotateError::Filesystem),
    }
}

/// Creates a directory at the path.
pub fn make_dir(path: &str) -> (r: Result<(), RotateError>)
    ensures
        r matches Err(e) ==> e == RotateError::Filesystem,
{
    match mkdir_raw(path) {
        Ok(u) => Ok(u),
        Err(_) => Err(RotateError::Filesystem),
    }
}

/// Creates an empty file at the path, truncating an existing one.
pub fn create_empty(path: &str) -> (r: Result<(), RotateError>)
    ensures
        r matches Err(e) ==> e == RotateError::Filesystem,
{
    match open_raw(path, OpenKind::CreateTruncate) {
        Ok(fd) => {
            let _ = close_raw(fd);
            Ok(())
        },
        Err(_) => Err(RotateError::Filesystem),
    }
}

/// Joining a directory and an entry name: a separator goes between them
/// unless the directory already ends with one.
pub open spec fn spec_dir_join(dir: Seq<char>, name: Seq<char>) -> Seq<char> {
    if dir.len() > 0 && dir.last() == '/' {
        dir + name
    } else {
        dir + seq!['/'] + name
    }
}

/// Joins a directory path and an entry name.
pub fn dir_join(dir: &str, name: &str) -> (r: String)
    ensures
        r@ == spec_dir_join(dir@, name@),
{
    let n = dir.unicode_len();
    let mut s = dir.to_owned();
    if n == 0 || dir.get_char(n - 1) != '/' {
        s.append("/");
        proof {
            reveal_strlit("/");
            assert(s@ =~= dir@ + seq!['/']);
        }
    }
    s.append(name);
    proof {
        assert(s@ =~= spec_dir_join(dir@, name@));
    }
    s
}

/// The file-name component of a path: what follows the last separator, the
/// whole path when it has none, and empty for a path ending in a separator.
pub open spec fn spec_file_name(p: Seq<char>) -> Seq<char>
    decreases p.len(),
{
    if p.len() == 0 || p.last() == '/' {
        Seq::empty()
    } else {
        spec_file_name(p.drop_last()).push(p.last())
    }
}

proof fn lemma_file_name_skip(p: Seq<char>, cut: int)
    requires
        0 <= cut <= p.len(),
        forall|k: int| cut <= k < p.len() ==> p[k] != '/',
        cut > 0 ==> p[cut - 1] == '/',
    ensures
        spec_file_name(p) == p.skip(cut),
    decreases p.len(),
{
    if cut == p.len() {
        assert(p.skip(cut) =~= Seq::empty());
    } else {
        assert(p.last() != '/');
        lemma_file_name_skip(p.drop_last(), cut);
        assert(p.drop_last().skip(cut).push(p.last()) =~= p.skip(cut));
    }
}

/// The file-name component of the path.
pub fn file_name_part(p: &str) -> (r: String)
    ensures
        r@ == spec_file_name(p@),
{
    let n = p.unicode_len();
    let mut cut: usize = 0;
    let mut i: usize = 0;
    while i < n
        invariant
            cut <= i <= n,
            n == p@.len(),
            forall|k: int| cut <= k < i ==> p@[k] != '/',
            cut > 0 ==> p@[cut - 1] == '/',
        decreases n - i,
    {
        if p.get_char(i) == '/' {
            cut = i + 1;
        }
        i += 1;
    }
    proof {
        lemma_file_name_skip(p@, cut as int);
        assert(p@.subrange(cut as int, n as int) =~= p@.skip(cut as int));
    }
    p.substring_char(cut, n).to_owned()
}

/// The directory part of a path: what precedes the file name, the root when
/// the last separator is the first character, and `.` for a path with no
/// separator.
pub open spec fn spec_parent_dir(p: Seq<char>) -> Seq<char> {
    let cut = p.len() - spec_file_name(p).len();
    if cut == 0 {
        seq!['.']
    } else if cut == 1 {
        seq!['/']
    } else {
        p.take(cut - 1)
    }
}

/// The directory part of the path.
pub fn parent_dir(p: &str) -> (r: String)
    ensures
        r@ == spec_parent_dir(p@),
{
    let n = p.unicode_len();
    let mut cut: usize = 0;
    let mut i: usize = 0;
    while i < n
        invariant
            cut <= i <= n,
            n == p@.len(),
            forall|k: int| cut <= k < i ==> p@[k] != '/',
            cut > 0 ==> p@[cut - 1] == '/',
        decreases n - i,
    {
        if p.get_char(i) == '/' {
            cut = i + 1;
        }
        i += 1;
    }
    proof {
        lemma_file_name_skip(p@, cut as int);
        assert(p@.skip(cut as int).len() == n - cut);
    }
    if cut == 0 {
        let r = String::from_str(".");
        proof {
            reveal_strlit(".");
            assert(r@ =~= seq!['.']);
        }
        r
    } else if cut == 1 {
        let r = String::from_str("/");
        proof {
            reveal_strlit("/");
            assert(r@ =~= seq!['/']);
        }
        r
    } else {
        let r = p.substring_char(0, cut - 1).to_owned();
        proof {
            assert(p@.subrange(0, cut - 1) =~= p@.take(cut as int - 1));
        }
        r
    }
}

/// Drops the `.` and `..` entries from a raw directory listing, keeping
/// every other name in its order.
pub fn drop_dot_entries(names: Vec<String>) -> (r: Vec<String>)
    ensures
        path_views(r@) == path_views(names@).filter((|p: Seq<char>| p != "."@ && p != ".."@)),
        forall|i: int| 0 <= i < r@.len() ==> #[trigger] r@[i]@ != "."@ && r@[i]@ != ".."@,
{
    let ghost pred = |p: Seq<char>| p != "."@ && p != ".."@;
    let dot = String::from_str(".");
    let dotdot = String::from_str("..");
    let mut out: Vec<String> = Vec::new();
    let mut i: usize = 0;
    while i < names.len()
        invariant
            i <= names@.len(),
            path_views(out@) == path_views(names@.take(i as int)).filter(pred),
            forall|k: int| 0 <= k < out@.len() ==> #[trigger] out@[k]@ != "."@ && out@[k]@ != ".."@,
        decreases names@.len() - i,
    {
        let ghost prefix = path_views(names@.take(i as int));
        let ghost extended = path_views(names@.take(i + 1 as int));
        proof {
            assert(extended.drop_last() =~= prefix);
            assert(extended.last() == names@[i as int]@);
            reveal(Seq::filter);
        }
        if !(names[i] == dot) && !(names[i] == dotdot) {
            out.push(names[i].clone());
            proof {
                assert(path_views(out@) =~= extended.filter(pred));
            }
        } else {
            proof {
                assert(path_views(out@) =~= extended.filter(pred));
            }
        }
        i += 1;
    }
    proof {
        assert(names@.take(names@.len() as int) =~= names@);
    }
    out
}

/// Lists a directory's entry names with the dot entries dropped: exactly
/// the raw listing filtered by `drop_dot_entries`.
pub fn list_dir(path: &str) -> (r: Result<Vec<String>, RotateError>)
    ensures
        r matches Err(e) ==> e == RotateError::Filesystem,
        r matches Ok(v) ==> forall|i: int|
            0 <= i < v@.len() ==> #[trigger] v@[i]@ != "."@ && v@[i]@ != ".."@,
{
    match read_dir_raw(path) {
        Ok(names) => Ok(drop_dot_entries(names)),
        Err(_) => Err(RotateError::Filesystem),
    }
}

/// Sparse-aware duplication between descriptors: seeks to the source's
/// first data region, positions the destination identically so the leading
/// hole is reproduced without writing zeroes, then moves bytes in bounded
/// chunks until a transfer reports zero.  Fails on a fully sparse source,
/// which has no data region -- callers skip such files.  Returns the bytes
/// transferred.  Holes between data regions are preserved only as far as
/// the transfer mechanism preserves them.
pub fn sparse_copy(src_fd: i32, dst_fd: i32) -> (r: Result<usize, RotateError>)
    ensures
        r matches Err(e) ==> e == RotateError::Filesystem,
{
    let offset = match seek_raw(src_fd, 0, SeekKind::NextData) {
        Ok(pos) => pos,
        Err(_) => {
            return Err(RotateError::Filesystem);
        },
    };
    match seek_raw(dst_fd, offset, SeekKind::Absolute) {
        Ok(_) => (),
        Err(_) => {
            return Err(RotateError::Filesystem);
        },
    }
    let mut sz: usize = 0;
    loop
        decreases usize::MAX - sz,
    {
        let n = match sendfile_raw(dst_fd, src_fd, 4096 * 256) {
            Ok(moved) => moved,
            Err(_) => {
                return Err(RotateError::Filesystem);
            },
        };
        if n == 0 {
            break ;
        }
        sz = match sz.checked_add(n) {
            Some(total) => total,
            None => {
                return Err(RotateError::Filesystem);
            },
        };
    }
    Ok(sz)
}

/// Copy-truncate primitive: duplicates `src`'s bytes into `dst` with the
/// leading hole preserved, syncs `dst` to durable storage, and only after
/// that truncates `src` to zero length in place -- so the source's content
/// is never destroyed before the copy is durable.  Both descriptors are
/// released on every path.
pub fn copy_truncate(src: &str, dst: &str) -> (r: Result<(), RotateError>)
    ensures
        r matches Err(e) ==> e == RotateError::Filesystem,
{
    let src_fd = match open_raw(src, OpenKind::ReadWrite) {
        Ok(fd) => fd,
        Err(_) => {
            return Err(RotateError::Filesystem);
        },
    };
    let dst_fd = match open_raw(dst, OpenKind::CreateTruncate) {
        Ok(fd) => fd,
        Err(_) => {
            let _ = close_raw(src_fd);
            return Err(RotateError::Filesystem);
        },
    };
    match sparse_copy(src_fd, dst_fd) {
        Ok(_) => (),
        Err(e) => {
            let _ = close_raw(src_fd);
            let _ = close_raw(dst_fd);
            return Err(e);
        },
    }
    match fsync_raw(dst_fd) {
        Ok(_) => (),
        Err(_) => {
            let _ = close_raw(src_fd);
            let _ = close_raw(dst_fd);
            return Err(RotateError::Filesystem);
        },
    }
    match ftruncate_raw(src_fd, 0) {
        Ok(_) => (),
        Err(_) => {
            let _ = close_raw(src_fd);
            let _ = close_raw(dst_fd);
            return Err(RotateError::Filesystem);
        },
    }
    let _ = close_raw(src_fd);
    let _ = close_raw(dst_fd);
    Ok(())
}

/// Creates a file whose storage starts with an unallocated hole of
/// `hole_size` bytes followed by `data_size` random bytes, written in
/// bounded chunks.
pub fn create_with_leading_hole(path: &str, hole_size: usize, data_size: usize) -> (r: Result<
    (),
    RotateError,
>)
    requires
        hole_size <= i64::MAX,
    ensures
        r matches Err(e) ==> e == RotateError::Filesystem,
{
    let fd = match open_raw(path, OpenKind::CreateTruncate) {
        Ok(fd) => fd,
        Err(_) => {
            return Err(RotateError::Filesystem);
        },
    };
    match seek_raw(fd, hole_size as i64, SeekKind::Absolute) {
        Ok(_) => (),
        Err(_) => {
            let _ = close_raw(fd);
            return Err(RotateError::Filesystem);
        },
    }
    let mut i: usize = 0;
    while i < data_size
        invariant
            i <= data_size,
        decreases data_size - i,
    {
        let end = if data_size - i < 4096 {
            data_size - i
        } else {
            4096
        };
        let mut chunk: Vec<u8> = Vec::new();
        let mut j: usize = 0;
        while j < end
            invariant
                j <= end,
            decreases end - j,
        {
            chunk.push(0u8);
            j += 1;
        }
        fill_random(&mut chunk);
        match write_raw(fd, &chunk) {
            Ok(_) => (),
            Err(_) => {
                let _ = close_raw(fd);
                return Err(RotateError::Filesystem);
            },
        }
        i += end;
    }
    let _ = close_raw(fd);
    Ok(())
}

/// The SHA-256 digest of the file's bytes, 32 bytes long.
pub fn file_digest(path: &str) -> (r: Result<Vec<u8>, RotateError>)
    ensures
        r matches Err(e) ==> e == RotateError::Filesystem,
        r matches Ok(d) ==> d@.len() == 32,
{
    let fd = match open_raw(path, OpenKind::Read) {
        Ok(fd) => fd,
        Err(_) => {
            return Err(RotateError::Filesystem);
        },
    };
    let mut content: Vec<u8> = Vec::new();
    // A read loop over a file has no intrinsic bound; the step budget makes
    // termination checkable and is never reached in practice.
    let mut rounds: u64 = 0;
    loop
        decreases u64::MAX - rounds,
    {
        if rounds == u64::MAX {
            let _ = close_raw(fd);
            return Err(RotateError::Filesystem);
        }
        rounds += 1;
        let mut buf: Vec<u8> = Vec::new();
        let mut j: usize = 0;
        while j < 4096
            invariant
                j <= 4096,
                buf@.len() == j,
            decreases 4096 - j,
        {
            buf.push(0u8);
            j += 1;
        }
        let n = match read_raw(fd, &mut buf) {
            Ok(n) => n,
            Err(_) => {
                let _ = close_raw(fd);
                return Err(RotateError::Filesystem);
            },
        };
        if n == 0 {
            break ;
        }
        let mut k: usize = 0;
        while k < n
            invariant
                k <= n,
                n <= buf@.len(),
            decreases n - k,
        {
            content.push(buf[k]);
            k += 1;
        }
    }
    let _ = close_raw(fd);
    Ok(sha256_raw(&content))
}

/// Removes whatever is at the path: a directory is removed recursively,
/// children before their parent; anything else is unlinked.
pub fn remove_tree(path: &str) -> (r: Result<(), RotateError>)
    ensures
        r matches Err(e) ==> e == RotateError::Filesystem,
{
    let meta = match stat_meta(path) {
        Ok(m) => m,
        Err(e) => {
            return Err(e);
        },
    };
    if !is_dir(&meta) {
        return remove_file(path);
    }
    let mut stack: Vec<String> = Vec::new();
    stack.push(path.to_owned());
    // A walk over filesystem state has no intrinsic bound; the step budget
    // makes termination checkable and is never reached in practice.
    let mut rounds: u64 = 0;
    loop
        decreases u64::MAX - rounds,
    {
        if stack.len() == 0 {
            break ;
        }
        if rounds == u64::MAX {
            return Err(RotateError::Filesystem);
        }
        rounds += 1;
        let top = stack[stack.len() - 1].clone();
        let entries = match list_dir(top.as_str()) {
            Ok(v) => v,
            Err(e) => {
                return Err(e);
            },
        };
        if entries.len() == 0 {
            match rmdir_raw(top.as_str()) {
                Ok(_) => (),
                Err(_) => {
                    return Err(RotateError::Filesystem);
                },
            }
            let _ = stack.pop();
        } else {
            let mut i: usize = 0;
            while i < entries.len()
                invariant
                    i <= entries@.len(),
                decreases entries@.len() - i,
            {
                let child = dir_join(top.as_str(), entries[i].as_str());
                let cm = match stat_meta(child.as_str()) {
                    Ok(m) => m,
                    Err(e) => {
                        return Err(e);
                    },
                };
                if is_dir(&cm) {
                    stack.push(child);
                } else {
                    match remove_file(child.as_str()) {
                        Ok(_) => (),
                        Err(e) => {
                            return Err(e);
                        },
                    }
                }
                i += 1;
            }
        }
    }
    Ok(())
}

} // verus!
