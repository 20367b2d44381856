use key_share::persist::{seed_location, trim_line_endings};
use key_share::share_store::{AddResult, ShareStore};

#[test]
fn store_refuses_duplicates_and_overflow() {
    let mut s = ShareStore::new(2);
    assert_eq!(s.capacity(), 2);
    assert_eq!(s.try_add(vec![1], 1), AddResult::Added);
    assert_eq!(s.try_add(vec![1], 2), AddResult::Duplicate);
    assert_eq!(s.try_add(vec![2], 1), AddResult::Duplicate);
    assert_eq!(s.try_add(vec![2], 2), AddResult::Added);
    assert_eq!(s.try_add(vec![3], 3), AddResult::Full);
    assert_eq!(s.try_add(vec![1], 1), AddResult::Full);
    assert_eq!(s.len(), 2);
    assert_eq!(s.snapshot(), vec![vec![1], vec![2]]);
    assert_eq!(s.indexes(), vec![1usize, 2]);
}

#[test]
fn store_starts_empty() {
    let s = ShareStore::new(3);
    assert_eq!(s.len(), 0);
    assert!(s.snapshot().is_empty());
}

#[test]
fn trims_trailing_line_endings_only() {
    assert_eq!(trim_line_endings("abcd\r\n\n"), "abcd");
    assert_eq!(trim_line_endings("ab\ncd"), "ab\ncd");
    assert_eq!(trim_line_endings("\r\n"), "");
    assert_eq!(trim_line_endings(""), "");
    assert_eq!(trim_line_endings("ab \r"), "ab ");
}

#[test]
fn seed_location_joins_directory_and_name() {
    assert_eq!(seed_location("/var/seed", "node.seed"), "/var/seed/node.seed");
}
