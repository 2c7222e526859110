//! Tests for the storage primitives: footprint measurement, sparse-aware
//! duplication, and the copy-truncate primitive.

use file_rotate::util::{copy_truncate, create_with_leading_hole, file_digest, sparse_copy,
                        storage_size};

const KIB: usize = 1024;

fn path_str(dir: &tempfile::TempDir, name: &str) -> String {
    dir.path().join(name).to_str().unwrap().to_string()
}

fn open_read(path: &str) -> i32 {
    nix::fcntl::open(
        path,
        nix::fcntl::OFlag::O_RDONLY,
        nix::sys::stat::Mode::empty(),
    )
    .unwrap()
}

fn open_create(path: &str) -> i32 {
    nix::fcntl::open(
        path,
        nix::fcntl::OFlag::O_WRONLY | nix::fcntl::OFlag::O_CREAT | nix::fcntl::OFlag::O_TRUNC,
        nix::sys::stat::Mode::from_bits_truncate(0o666),
    )
    .unwrap()
}

#[test]
fn util_storage_size_test() {
    let dir = tempfile::tempdir().unwrap();
    let path = path_str(&dir, "a");
    create_with_leading_hole(&path, 16 * KIB, 8 * KIB).unwrap();
    let sz = storage_size(&path).unwrap();
    assert_eq!(sz, (8 * KIB) as u128);
}

#[test]
fn fs_storage_size_test() {
    let dir = tempfile::tempdir().unwrap();
    let path = path_str(&dir, "a");
    create_with_leading_hole(&path, 16 * KIB, 8 * KIB).unwrap();
    let sz = storage_size(&path).unwrap();
    assert_eq!(sz, (8 * KIB) as u128);
}

#[test]
fn util_sparse_copy_test() {
    let dir = tempfile::tempdir().unwrap();
    let path_a = path_str(&dir, "a");
    let path_b = path_str(&dir, "b");
    create_with_leading_hole(&path_a, 16 * KIB, 8 * KIB).unwrap();
    let fd_a = open_read(&path_a);
    let fd_b = open_create(&path_b);
    sparse_copy(fd_a, fd_b).unwrap();
    nix::unistd::close(fd_a).unwrap();
    nix::unistd::close(fd_b).unwrap();
    let size_a = storage_size(&path_a).unwrap();
    let size_b = storage_size(&path_b).unwrap();
    let digest_a = file_digest(&path_a).unwrap();
    let digest_b = file_digest(&path_b).unwrap();
    assert_eq!(size_a, (8 * KIB) as u128);
    assert_eq!(size_b, (8 * KIB) as u128);
    assert_eq!(digest_a, digest_b);
}

#[test]
fn fs_sparse_copy_test() {
    let dir = tempfile::tempdir().unwrap();
    let path_a = path_str(&dir, "a");
    let path_b = path_str(&dir, "b");
    create_with_leading_hole(&path_a, 16 * KIB, 8 * KIB).unwrap();
    let fd_a = open_read(&path_a);
    let fd_b = open_create(&path_b);
    sparse_copy(fd_a, fd_b).unwrap();
    nix::unistd::close(fd_a).unwrap();
    nix::unistd::close(fd_b).unwrap();
    let size_a = storage_size(&path_a).unwrap();
    let size_b = storage_size(&path_b).unwrap();
    let digest_a = file_digest(&path_a).unwrap();
    let digest_b = file_digest(&path_b).unwrap();
    assert_eq!(size_a, (8 * KIB) as u128);
    assert_eq!(size_b, (8 * KIB) as u128);
    assert_eq!(digest_a, digest_b);
}

#[test]
fn util_copy_truncate_test() {
    let dir = tempfile::tempdir().unwrap();
    let path_a = path_str(&dir, "a");
    let path_b = path_str(&dir, "b");
    create_with_leading_hole(&path_a, 16 * KIB, 8 * KIB).unwrap();
    let digest_a = file_digest(&path_a).unwrap();
    copy_truncate(&path_a, &path_b).unwrap();
    let size_a = storage_size(&path_a).unwrap();
    let size_b = storage_size(&path_b).unwrap();
    let digest_b = file_digest(&path_b).unwrap();
    assert_eq!(size_a, 0);
    assert_eq!(size_b, (8 * KIB) as u128);
    assert_eq!(digest_a, digest_b);
}

#[test]
fn fs_copy_truncate_test() {
    let dir = tempfile::tempdir().unwrap();
    let path_a = path_str(&dir, "a");
    let path_b = path_str(&dir, "b");
    create_with_leading_hole(&path_a, 16 * KIB, 8 * KIB).unwrap();
    let digest_a = file_digest(&path_a).unwrap();
    copy_truncate(&path_a, &path_b).unwrap();
    let size_a = storage_size(&path_a).unwrap();
    let size_b = storage_size(&path_b).unwrap();
    let digest_b = file_digest(&path_b).unwrap();
    assert_eq!(size_a, 0);
    assert_eq!(size_b, (8 * KIB) as u128);
    assert_eq!(digest_a, digest_b);
}

#[test]
fn sparse_round_trip_8k_test() {
    // An 8 KiB leading hole followed by 8 KiB of random data: after sparse
    // duplication the copy has the source's digest and its 8 KiB footprint;
    // after copy-truncate the source's footprint is 0 and the destination
    // keeps the pre-truncation digest.
    let dir = tempfile::tempdir().unwrap();
    let path_a = path_str(&dir, "a");
    let path_b = path_str(&dir, "b");
    create_with_leading_hole(&path_a, 8 * KIB, 8 * KIB).unwrap();
    let digest_before = file_digest(&path_a).unwrap();
    assert_eq!(storage_size(&path_a).unwrap(), (8 * KIB) as u128);
    copy_truncate(&path_a, &path_b).unwrap();
    assert_eq!(storage_size(&path_a).unwrap(), 0);
    assert_eq!(storage_size(&path_b).unwrap(), (8 * KIB) as u128);
    assert_eq!(file_digest(&path_b).unwrap(), digest_before);
}

#[test]
fn digest_is_a_digest_test() {
    // The digest is 32 bytes whatever the input size, and distinct contents
    // give distinct digests: handing the content back would fail both.
    let dir = tempfile::tempdir().unwrap();
    let path_a = path_str(&dir, "a");
    let path_b = path_str(&dir, "b");
    create_with_leading_hole(&path_a, 0, 8 * KIB).unwrap();
    create_with_leading_hole(&path_b, 0, 0).unwrap();
    let digest_a = file_digest(&path_a).unwrap();
    let digest_b = file_digest(&path_b).unwrap();
    assert_eq!(digest_a.len(), 32);
    assert_eq!(digest_b.len(), 32);
    assert_ne!(digest_a, digest_b);
}
