//! Tests for the path lifecycle rule.

use file_rotate::path_rule::{DefaultRule, PathRule};

#[test]
fn default_rule_simple_test() {
    let init = String::from("/var/lib/log");
    let paths = vec![
        String::from("/var/lib/log"),
        String::from("/var/lib/log.1"),
        String::from("/var/lib/log.2"),
        String::from("/var/lib/log.3"),
        String::from("/var/lib/log.4"),
    ];
    let rule = DefaultRule::new(init, paths, 3);
    assert_eq!(rule.renames, vec![String::from("/var/lib/log.1")]);

    assert_eq!(
        rule.deletes,
        vec![
            String::from("/var/lib/log.2"),
            String::from("/var/lib/log.3"),
            String::from("/var/lib/log.4"),
        ]
    );

    assert_eq!(rule.init_path(), Some(String::from("/var/lib/log")));
    assert_eq!(
        rule.next_path("/var/lib/log"),
        Some(String::from("/var/lib/log.1"))
    );
    assert_eq!(
        rule.next_path("/var/lib/log.1"),
        Some(String::from("/var/lib/log.2"))
    );
    assert_eq!(rule.next_path("/var/lib/log.9"), None);
}

#[test]
fn default_rule_missing_test() {
    let init = String::from("/var/lib/log");
    let paths = vec![
        String::from("/var/lib/log.1"),
        String::from("/var/lib/log.2"),
        String::from("/var/lib/log.5"),
        String::from("/var/lib/log.6"),
    ];
    let rule = DefaultRule::new(init, paths, 2);
    assert!(rule.renames.is_empty());

    assert_eq!(
        rule.deletes,
        vec![
            String::from("/var/lib/log.1"),
            String::from("/var/lib/log.2"),
            String::from("/var/lib/log.5"),
            String::from("/var/lib/log.6"),
        ]
    );

    assert_eq!(rule.init_path(), None);
    assert_eq!(
        rule.next_path("/var/lib/log.1"),
        Some(String::from("/var/lib/log.2"))
    );
    assert_eq!(
        rule.next_path("/var/lib/log.3"),
        Some(String::from("/var/lib/log.4"))
    );
}

#[test]
fn full_sequence_test() {
    let init = String::from("/data/app.log");
    let rule = DefaultRule::new(init, Vec::new(), 4);
    assert_eq!(rule.set.len(), 10);
    assert_eq!(rule.set[0], "/data/app.log");
    assert_eq!(rule.set[1], "/data/app.log.1");
    assert_eq!(rule.set[9], "/data/app.log.9");
    assert!(rule.deletes.is_empty());
    assert!(rule.renames.is_empty());
    assert_eq!(rule.init_path(), None);
    assert_eq!(rule.next_path("/data/app.log.9"), None);
    assert_eq!(rule.next_path("/elsewhere"), None);
}

#[test]
fn rename_order_descending_test() {
    // Listing order must not leak into the rename order: the rename list is
    // highest generation first whatever order the listing has.
    let init = String::from("/var/lib/log");
    let paths = vec![
        String::from("/var/lib/log.1"),
        String::from("/var/lib/log.3"),
        String::from("/var/lib/log.2"),
        String::from("/var/lib/log"),
    ];
    let rule = DefaultRule::new(init, paths, 5);
    assert_eq!(
        rule.renames,
        vec![
            String::from("/var/lib/log.3"),
            String::from("/var/lib/log.2"),
            String::from("/var/lib/log.1"),
        ]
    );
    assert!(rule.deletes.is_empty());
    assert_eq!(rule.init_path(), Some(String::from("/var/lib/log")));
}
