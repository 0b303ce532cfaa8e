use name_lint::lint::lint_name;
use name_lint::lint::lint_path;

#[test]
fn space_and_hyphen_become_underscores() {
    assert_eq!(
        lint_name("My File-1.txt"),
        Some("My_File_1.txt".to_owned())
    );
}

#[test]
fn accented_letter_and_bang_are_dropped() {
    assert_eq!(lint_name("héllo!.txt"), Some("hllo.txt".to_owned()));
}

#[test]
fn linting_is_idempotent_on_examples() {
    let once = lint_name("My File-1.txt").unwrap();
    assert_eq!(lint_name(&once), None);
    let once = lint_name("héllo!.txt").unwrap();
    assert_eq!(lint_name(&once), None);
}

#[test]
fn clean_names_are_reported_unchanged() {
    assert_eq!(lint_name("good_name.txt"), None);
    assert_eq!(lint_name("UPPER.lower.123"), None);
    assert_eq!(lint_name(""), None);
}

#[test]
fn fully_filtered_name_becomes_empty() {
    assert_eq!(lint_name("!!!"), Some("".to_owned()));
}

#[test]
fn unicode_whitespace_becomes_underscore() {
    assert_eq!(lint_name("a\u{00A0}b"), Some("a_b".to_owned()));
    assert_eq!(lint_name("a\tb c"), Some("a_b_c".to_owned()));
}

#[test]
fn lint_path_works_on_base_name_only() {
    assert_eq!(
        lint_path("some dir/My File-1.txt"),
        Some("My_File_1.txt".to_owned())
    );
    assert_eq!(lint_path("bad dir!/good_name.txt"), None);
    assert_eq!(lint_path("a/b/"), None);
    // A trailing separator does not hide the final segment.
    assert_eq!(lint_path("bad name/"), Some("bad_name".to_owned()));
}
