//! Tests for byte-size rendering and parsing, pattern matching, and the
//! pure decision functions.

use file_rotate::byte_size::ByteSize;
use file_rotate::matcher::Matcher;
use file_rotate::rotate::{plan_file_action, regex_check, size_check, FileAction, Mode};
use file_rotate::util::{dir_join, file_name_part, is_dir, is_file, parent_dir, FileMeta};
use file_rotate::RotateError;

#[test]
fn byte_size_new_test() {
    assert_eq!(ByteSize::new(0).raw, "0B");
    assert_eq!(ByteSize::new(1023).raw, "1023B");
    assert_eq!(ByteSize::new(1024).raw, "1KiB");
    assert_eq!(ByteSize::new(2048).raw, "2KiB");
    assert_eq!(ByteSize::new(1024 * 1024).raw, "1MiB");
    assert_eq!(ByteSize::new(3 * 1024 * 1024 * 1024).raw, "3GiB");
    assert_eq!(ByteSize::new(123456).bytes, 123456);
}

#[test]
fn byte_size_from_str_test() {
    assert_eq!(ByteSize::from_str("17").unwrap().bytes, 17);
    assert_eq!(ByteSize::from_str("17b").unwrap().bytes, 17);
    assert_eq!(ByteSize::from_str("2k").unwrap().bytes, 2048);
    assert_eq!(ByteSize::from_str("2KB").unwrap().bytes, 2048);
    assert_eq!(ByteSize::from_str("2KiB").unwrap().bytes, 2048);
    assert_eq!(ByteSize::from_str("5m").unwrap().bytes, 5 * 1024 * 1024);
    assert_eq!(ByteSize::from_str("5mb").unwrap().bytes, 5 * 1024 * 1024);
    assert_eq!(
        ByteSize::from_str("1gib").unwrap().bytes,
        1024 * 1024 * 1024
    );
    assert_eq!(ByteSize::from_str("4096").unwrap().raw, "4KiB");
}

#[test]
fn byte_size_from_str_rejects_test() {
    assert!(matches!(
        ByteSize::from_str(""),
        Err(RotateError::InvalidConfiguration)
    ));
    assert!(matches!(
        ByteSize::from_str("kb"),
        Err(RotateError::InvalidConfiguration)
    ));
    assert!(matches!(
        ByteSize::from_str("12x"),
        Err(RotateError::InvalidConfiguration)
    ));
    assert!(matches!(
        ByteSize::from_str("99999999999999999999999999"),
        Err(RotateError::InvalidConfiguration)
    ));
}

#[test]
fn matcher_test() {
    let re = Matcher::new(r".*\.log$").unwrap();
    assert!(re.is_match("file1.log"));
    assert!(!re.is_match("file0.txt"));
    assert!(Matcher::new(r"([").is_err());
}

#[test]
fn regex_check_test() {
    let re = Matcher::new(r"^app\.").unwrap();
    assert!(regex_check(Some(&re), "/var/log/app.log"));
    assert!(!regex_check(Some(&re), "/var/log/other.log"));
    assert!(regex_check(None, "/var/log/other.log"));
}

#[test]
fn size_check_test() {
    let small = FileMeta {
        mode: 0o100644,
        blocks: 2,
    };
    let big = FileMeta {
        mode: 0o100644,
        blocks: 64,
    };
    assert!(size_check(None, &small));
    assert!(!size_check(Some(1024), &small));
    assert!(size_check(Some(1024), &big));
    assert!(!size_check(Some(64 * 512), &big));
}

#[test]
fn file_meta_kind_test() {
    let file = FileMeta {
        mode: 0o100644,
        blocks: 0,
    };
    let dir = FileMeta {
        mode: 0o040755,
        blocks: 8,
    };
    let link = FileMeta {
        mode: 0o120777,
        blocks: 0,
    };
    assert!(is_file(&file) && !is_dir(&file));
    assert!(!is_file(&dir) && is_dir(&dir));
    assert!(!is_file(&link) && !is_dir(&link));
}

#[test]
fn plan_file_action_test() {
    let empty = FileMeta {
        mode: 0o100644,
        blocks: 0,
    };
    let full = FileMeta {
        mode: 0o100644,
        blocks: 16,
    };
    assert_eq!(
        plan_file_action(&Mode::MoveCreate, &full, None, true),
        FileAction::RenameCreate
    );
    assert_eq!(
        plan_file_action(&Mode::CopyTruncate, &full, None, true),
        FileAction::CopyData
    );
    assert_eq!(
        plan_file_action(&Mode::CopyTruncate, &empty, None, true),
        FileAction::CreateEmpty
    );
    assert_eq!(
        plan_file_action(&Mode::CopyTruncate, &full, None, false),
        FileAction::Skip
    );
    assert_eq!(
        plan_file_action(&Mode::MoveCreate, &full, Some(16 * 512), true),
        FileAction::Skip
    );
    assert_eq!(
        plan_file_action(&Mode::MoveCreate, &full, Some(16 * 512 - 1), true),
        FileAction::RenameCreate
    );
}

#[test]
fn path_parts_test() {
    assert_eq!(file_name_part("/var/lib/log"), "log");
    assert_eq!(file_name_part("log"), "log");
    assert_eq!(parent_dir("/var/lib/log"), "/var/lib");
    assert_eq!(parent_dir("/log"), "/");
    assert_eq!(parent_dir("log"), ".");
    assert_eq!(dir_join("/var", "log"), "/var/log");
    assert_eq!(dir_join("/", "log"), "/log");
}

#[test]
fn error_message_test() {
    assert_eq!(
        RotateError::InvalidConfiguration.message(),
        "invalid configuration"
    );
    assert_eq!(RotateError::Filesystem.message(), "filesystem operation failed");
}
