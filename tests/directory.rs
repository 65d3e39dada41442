use ncp::directory::{calculate_total_size, order_entries, path_precedes, FileEntry};

fn entry(rel: &str, is_dir: bool, size: u64) -> FileEntry {
    FileEntry { path: format!("root/{}", rel), relative_path: rel.to_string(), is_dir, size }
}

#[test]
fn enumeration_ordering() {
    let entries = vec![entry("a.txt", false, 3), entry("b/c.txt", false, 4), entry("b", true, 0), entry("", true, 0)];
    let ordered = order_entries(entries);
    let names: Vec<&str> = ordered.iter().map(|e| e.relative_path.as_str()).collect();
    assert_eq!(names, vec!["", "b", "a.txt", "b/c.txt"]);
    let b = names.iter().position(|n| *n == "b").unwrap();
    let c = names.iter().position(|n| *n == "b/c.txt").unwrap();
    assert!(b < c);
}

#[test]
fn ordering_is_deterministic() {
    let a = order_entries(vec![entry("z", true, 0), entry("y.txt", false, 1), entry("a", true, 0), entry("b.txt", false, 1)]);
    let b = order_entries(vec![entry("b.txt", false, 1), entry("a", true, 0), entry("y.txt", false, 1), entry("z", true, 0)]);
    let na: Vec<String> = a.into_iter().map(|e| e.relative_path).collect();
    let nb: Vec<String> = b.into_iter().map(|e| e.relative_path).collect();
    assert_eq!(na, vec!["a", "z", "b.txt", "y.txt"]);
    assert_eq!(na, nb);
}

#[test]
fn paths_compare_by_component() {
    assert!(path_precedes("a/c", "a-b"));
    assert!(!path_precedes("a-b", "a/c"));
    assert!(path_precedes("a", "a/b"));
    assert!(path_precedes("abc", "abc"));
    assert!(path_precedes("", "x"));
}

#[test]
fn total_size_counts_files_only() {
    let entries = vec![entry("d", true, 999), entry("d/x", false, 10), entry("y", false, 32)];
    assert_eq!(calculate_total_size(&entries), 42);
    assert_eq!(calculate_total_size(&vec![entry("x", false, u64::MAX), entry("y", false, 1)]), u64::MAX);
    assert_eq!(calculate_total_size(&Vec::new()), 0);
}
