use name_lint::matcher::is_ignored;
use name_lint::paths::base_name;
use name_lint::paths::relate_path;
use name_lint::paths::with_file_name;

#[test]
fn relate_strips_working_directory_prefix() {
    assert_eq!(relate_path("/home/u/x.txt", "/home/u"), "x.txt");
    assert_eq!(relate_path("/home/u/d/x.txt", "/home/u"), "d/x.txt");
}

#[test]
fn relate_strips_consecutive_separators_with_the_prefix() {
    // The remainder of a strip is relative, as with path components.
    assert_eq!(relate_path("/a//a", "/a"), "a");
    assert_eq!(relate_path("/a///b/c", "/a"), "b/c");
    assert_eq!(relate_path("/a///", "/a"), "");
}

#[test]
fn relate_is_idempotent_for_an_absolute_working_directory() {
    let once = relate_path("/a//a", "/a");
    assert_eq!(relate_path(&once, "/a"), once);
    let once = relate_path("/home/u/d/x.txt", "/home/u");
    assert_eq!(relate_path(&once, "/home/u"), once);
}

#[test]
fn relate_leaves_other_paths_unchanged() {
    assert_eq!(relate_path("/etc/x", "/home/u"), "/etc/x");
    // A shared string prefix that is not a path prefix is not stripped.
    assert_eq!(relate_path("/home/ux/file", "/home/u"), "/home/ux/file");
    // No known working directory: nothing is stripped.
    assert_eq!(relate_path("/home/u/x.txt", ""), "/home/u/x.txt");
}

#[test]
fn relate_maps_the_working_directory_itself_to_empty() {
    assert_eq!(relate_path("/home/u", "/home/u"), "");
}

#[test]
fn with_file_name_replaces_the_base_name() {
    assert_eq!(with_file_name("a/b/c.txt", "d.txt"), "a/b/d.txt");
    assert_eq!(with_file_name("c.txt", "d"), "d");
    // A trailing separator does not start an empty segment.
    assert_eq!(with_file_name("a/b/", "c"), "a/c");
}

#[test]
fn base_name_is_the_final_segment() {
    assert_eq!(base_name("a/b/c.txt"), "c.txt");
    assert_eq!(base_name("c.txt"), "c.txt");
    // Trailing separators do not count: the final segment stays.
    assert_eq!(base_name("a/b/"), "b");
    assert_eq!(base_name("bad name/"), "bad name");
    assert_eq!(base_name("/"), "");
}

#[test]
fn ignore_matcher_follows_glob_patterns() {
    let pats = vec!["*.tmp".to_owned()];
    assert!(is_ignored(&pats, "a.tmp"));
    assert!(!is_ignored(&pats, "b.txt"));
    let several = vec!["*.tmp".to_owned(), "target".to_owned(), "?.log".to_owned()];
    assert!(is_ignored(&several, "target"));
    assert!(is_ignored(&several, "x.log"));
    assert!(!is_ignored(&several, "xx.log"));
}

#[test]
fn no_pattern_ignores_nothing() {
    let none: Vec<String> = Vec::new();
    assert!(!is_ignored(&none, "anything"));
}

#[test]
fn invalid_pattern_matches_nothing() {
    let pats = vec!["[".to_owned()];
    assert!(!is_ignored(&pats, "["));
    assert!(!is_ignored(&pats, "x"));
}
