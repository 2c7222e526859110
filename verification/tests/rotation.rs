//! Tests for the rotation orchestrator and the migration engine.

use file_rotate::byte_size::ByteSize;
use file_rotate::matcher::Matcher;
use file_rotate::rotate::{copy_truncate, move_create, Mode, Rotate};
use file_rotate::util::{create_with_leading_hole, is_dir, is_file, list_dir, make_dir, stat_meta,
                        storage_size};
use file_rotate::RotateError;

#[derive(Eq, PartialEq, Debug)]
enum Node {
    File { name: String },
    Dir { name: String, children: Vec<Node> },
}

fn join(dir: &str, name: &str) -> String {
    if dir.ends_with('/') {
        format!("{}{}", dir, name)
    } else {
        format!("{}/{}", dir, name)
    }
}

fn path_present(path: &str) -> bool {
    stat_meta(path).is_ok()
}

fn build_tree(dir: &str, root: &Node) {
    match root {
        Node::File { name } => {
            let path = join(dir, name);
            create_with_leading_hole(&path, 4096, 4096).unwrap();
        }
        Node::Dir { name, children } => {
            let path = join(dir, name);
            make_dir(&path).unwrap();
            for node in children.iter() {
                build_tree(&path, node)
            }
        }
    }
}

fn inspect_tree(root: &Node, path: &str) -> bool {
    let meta = stat_meta(path).unwrap();
    let base = path.rsplit('/').next().unwrap();
    match (is_file(&meta), root) {
        (true, Node::File { name }) => base == name,
        (false, Node::Dir { name, children }) => {
            if base != name {
                return false;
            }
            if !is_dir(&meta) {
                return false;
            }

            let entries = list_dir(path).unwrap();
            if entries.len() != children.len() {
                return false;
            }

            let mut cnt = 0;
            for node in children.iter() {
                for entry in entries.iter() {
                    if inspect_tree(node, &join(path, entry)) {
                        cnt += 1;
                    }
                }
            }

            cnt == children.len()
        }
        _ => false,
    }
}

fn gen_tree(root: &str) -> Node {
    Node::Dir {
        name: root.to_string(),
        children: vec![
            Node::File {
                name: "file0.txt".to_string(),
            },
            Node::File {
                name: "file1.log".to_string(),
            },
            Node::Dir {
                name: "dir1".to_string(),
                children: vec![Node::File {
                    name: "file2.log".to_string(),
                }],
            },
        ],
    }
}

fn temp_root() -> (tempfile::TempDir, String) {
    let dir = tempfile::tempdir().unwrap();
    let path = dir.path().to_str().unwrap().to_string();
    (dir, path)
}

fn simple_job(path: String) -> Rotate {
    Rotate {
        path,
        keep: 2,
        depth_opt: None,
        sz_opt: None,
        re_opt: None,
        mode: Mode::MoveCreate,
    }
}

#[test]
fn build_and_inspect_tree_test() {
    let (_guard, path) = temp_root();
    let tree = gen_tree("dir0");

    build_tree(&path, &tree);
    assert!(inspect_tree(&tree, &join(&path, "dir0")));
}

#[test]
fn move_create_simple_test() {
    let (_guard, path) = temp_root();

    let tree0 = gen_tree("dir0");
    let tree1 = gen_tree("dir0.1");
    let path0 = join(&path, "dir0");
    let path1 = join(&path, "dir0.1");

    build_tree(&path, &tree0);
    move_create(&path0, &path1, None, None, None).unwrap();

    assert!(inspect_tree(&tree1, &path1));
}

#[test]
fn move_create_dir_recursive_test() {
    let (_guard, path) = temp_root();

    let tree0 = gen_tree("dir0");
    let tree1 = Node::Dir {
        name: "dir0.1".to_string(),
        children: vec![
            Node::File {
                name: "file0.txt".to_string(),
            },
            Node::File {
                name: "file1.log".to_string(),
            },
            Node::Dir {
                name: "dir1".to_string(),
                children: vec![],
            },
        ],
    };

    let path0 = join(&path, "dir0");
    let path1 = join(&path, "dir0.1");

    build_tree(&path, &tree0);
    move_create(&path0, &path1, Some(2), None, None).unwrap();

    assert!(inspect_tree(&tree1, &path1));
}

#[test]
fn move_create_dir_regex_test() {
    let (_guard, path) = temp_root();

    let tree0 = gen_tree("dir0");
    let tree1 = Node::Dir {
        name: "dir0.1".to_string(),
        children: vec![
            Node::File {
                name: "file1.log".to_string(),
            },
            Node::Dir {
                name: "dir1".to_string(),
                children: vec![Node::File {
                    name: "file2.log".to_string(),
                }],
            },
        ],
    };

    let path0 = join(&path, "dir0");
    let path1 = join(&path, "dir0.1");

    build_tree(&path, &tree0);
    let re = Matcher::new(r".*\.log$").unwrap();

    move_create(&path0, &path1, Some(3), None, Some(&re)).unwrap();

    assert!(inspect_tree(&tree1, &path1));
}

#[test]
fn copy_truncate_dir_simple_test() {
    let (_guard, path) = temp_root();

    let tree0 = gen_tree("dir0");
    let tree1 = gen_tree("dir0.1");
    let path0 = join(&path, "dir0");
    let path1 = join(&path, "dir0.1");

    build_tree(&path, &tree0);
    copy_truncate(&path0, &path1, None, None, None).unwrap();

    assert!(inspect_tree(&tree1, &path1));
}

#[test]
fn rotate_file_simple_test() {
    let (_guard, path) = temp_root();

    let path0 = join(&path, "file");
    let path1 = join(&path, "file.1");
    let path2 = join(&path, "file.2");
    let path3 = join(&path, "file.3");

    create_with_leading_hole(&path0, 4096, 4096).unwrap();

    let ro = simple_job(path0.clone());

    ro.rotate().unwrap();
    assert!(path_present(&path0));
    assert!(path_present(&path1));
    assert!(!path_present(&path2));

    ro.rotate().unwrap();
    assert!(path_present(&path0));
    assert!(path_present(&path1));
    assert!(!path_present(&path2));

    ro.rotate().unwrap();
    assert!(path_present(&path0));
    assert!(path_present(&path1));
    assert!(!path_present(&path2));
    assert!(!path_present(&path3));

    ro.rotate().unwrap();
    assert!(path_present(&path0));
    assert!(path_present(&path1));
    assert!(!path_present(&path2));
    assert!(!path_present(&path3));
}

#[test]
fn rotate_file_size_test() {
    let (_guard, path) = temp_root();

    let path0 = join(&path, "file");
    let path1 = join(&path, "file.1");
    let path2 = join(&path, "file.2");
    let path3 = join(&path, "file.3");

    create_with_leading_hole(&path0, 4096, 4096).unwrap();

    let ro = Rotate {
        path: path0.clone(),
        keep: 2,
        depth_opt: None,
        sz_opt: Some(ByteSize::new(2048)),
        re_opt: None,
        mode: Mode::MoveCreate,
    };

    ro.rotate().unwrap();
    assert!(path_present(&path0));
    assert!(path_present(&path1));

    ro.rotate().unwrap();
    assert!(path_present(&path0));
    assert!(path_present(&path1));
    assert!(!path_present(&path2));

    ro.rotate().unwrap();
    assert!(path_present(&path0));
    assert!(path_present(&path1));
    assert!(!path_present(&path2));
    assert!(!path_present(&path3));

    ro.rotate().unwrap();
    assert!(path_present(&path0));
    assert!(path_present(&path1));
    assert!(!path_present(&path2));
    assert!(!path_present(&path3));
}

#[test]
fn rotate_dir_simple_test() {
    let (_guard, path) = temp_root();

    let tree0 = gen_tree("dir0");
    let tree1 = gen_tree("dir0.1");
    let path0 = join(&path, "dir0");
    let path1 = join(&path, "dir0.1");
    let path2 = join(&path, "dir0.2");
    let path3 = join(&path, "dir0.3");

    build_tree(&path, &tree0);

    let ro = simple_job(path0.clone());

    ro.rotate().unwrap();
    assert!(inspect_tree(&tree0, &path0));
    assert!(inspect_tree(&tree1, &path1));
    assert!(!path_present(&path2));

    ro.rotate().unwrap();
    assert!(inspect_tree(&tree0, &path0));
    assert!(inspect_tree(&tree1, &path1));
    assert!(!path_present(&path2));

    ro.rotate().unwrap();
    assert!(inspect_tree(&tree0, &path0));
    assert!(inspect_tree(&tree1, &path1));
    assert!(!path_present(&path2));
    assert!(!path_present(&path3));

    ro.rotate().unwrap();
    assert!(inspect_tree(&tree0, &path0));
    assert!(inspect_tree(&tree1, &path1));
    assert!(!path_present(&path2));
    assert!(!path_present(&path3));
}

#[test]
fn rotate_missing_test() {
    let (_guard, path) = temp_root();

    let path0 = join(&path, "file0");

    let ro = simple_job(path0);

    assert!(ro.rotate().is_ok());
}

#[test]
fn rotate_missing_grooms_history_test() {
    // Without a live file the numbered history is still groomed: the
    // existing generation shifts down the chain and the call succeeds.
    let (_guard, path) = temp_root();
    let path0 = join(&path, "file");
    let path1 = join(&path, "file.1");
    let path2 = join(&path, "file.2");
    create_with_leading_hole(&path1, 0, 4096).unwrap();

    let mut ro = simple_job(path0.clone());
    ro.keep = 3;
    ro.rotate().unwrap();

    assert!(!path_present(&path0));
    assert!(!path_present(&path1));
    assert!(path_present(&path2));
}

#[test]
fn rotate_relative_path_test() {
    let ro = simple_job("relative/file".to_string());
    assert_eq!(ro.rotate(), Err(RotateError::InvalidConfiguration));
}

#[test]
fn rotate_keep_out_of_bounds_test() {
    let (_guard, path) = temp_root();
    let path0 = join(&path, "file");
    create_with_leading_hole(&path0, 0, 512).unwrap();
    let mut ro = simple_job(path0);
    ro.keep = 1;
    assert_eq!(ro.rotate(), Err(RotateError::InvalidConfiguration));
    ro.keep = 10;
    assert_eq!(ro.rotate(), Err(RotateError::InvalidConfiguration));
    ro.keep = 2;
    assert!(ro.rotate().is_ok());
}

#[test]
fn zero_size_copy_truncate_test() {
    // A file with zero allocated storage is copy-truncate-migrated into an
    // empty destination without invoking the duplication primitive, which
    // would fail to find a data region.
    let (_guard, path) = temp_root();
    let path0 = join(&path, "empty");
    let path1 = join(&path, "empty.copy");
    create_with_leading_hole(&path0, 0, 0).unwrap();
    assert_eq!(storage_size(&path0).unwrap(), 0);
    copy_truncate(&path0, &path1, None, None, None).unwrap();
    assert!(path_present(&path1));
    assert_eq!(storage_size(&path1).unwrap(), 0);
}

#[test]
fn depth_bound_test() {
    // A depth bound of 1 replicates only the tree's root at the destination;
    // deeper descendants are absent there and untouched at the source.
    let (_guard, path) = temp_root();
    let tree0 = gen_tree("dir0");
    let path0 = join(&path, "dir0");
    let path1 = join(&path, "dir0.1");
    build_tree(&path, &tree0);

    move_create(&path0, &path1, Some(1), None, None).unwrap();

    assert!(path_present(&path1));
    assert!(list_dir(&path1).unwrap().is_empty());
    assert!(inspect_tree(&tree0, &path0));
}

#[test]
fn filter_interaction_test() {
    // A file below the size threshold and a file whose name the matcher
    // rejects stay at the source with no destination created, while a
    // sibling that passes both filters migrates in the same invocation:
    // its bytes move to the destination and an empty file replaces it.
    let (_guard, path) = temp_root();
    let path0 = join(&path, "dir0");
    let path1 = join(&path, "dir0.1");
    make_dir(&path0).unwrap();
    create_with_leading_hole(&join(&path0, "small.log"), 0, 4096).unwrap();
    create_with_leading_hole(&join(&path0, "big.txt"), 0, 8192).unwrap();
    create_with_leading_hole(&join(&path0, "big.log"), 0, 8192).unwrap();

    let re = Matcher::new(r".*\.log$").unwrap();
    move_create(&path0, &path1, None, Some(4096), Some(&re)).unwrap();

    assert_eq!(storage_size(&join(&path0, "small.log")).unwrap(), 4096);
    assert_eq!(storage_size(&join(&path0, "big.txt")).unwrap(), 8192);
    assert_eq!(storage_size(&join(&path0, "big.log")).unwrap(), 0);
    assert!(!path_present(&join(&path1, "small.log")));
    assert!(!path_present(&join(&path1, "big.txt")));
    assert_eq!(storage_size(&join(&path1, "big.log")).unwrap(), 8192);
}
