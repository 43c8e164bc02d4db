use stowlink::ignore::{control_file_name, is_ignored, split_lines};

#[test]
fn control_file_is_named() {
    assert_eq!(control_file_name(), ".stow-local-ignore");
}

#[test]
fn lines_split_at_newlines() {
    assert_eq!(split_lines("build\nnode_modules\n"), vec!["build", "node_modules"]);
}

#[test]
fn last_line_kept_without_newline() {
    assert_eq!(split_lines("build\nnode_modules"), vec!["build", "node_modules"]);
}

#[test]
fn crlf_pairs_stripped() {
    assert_eq!(split_lines("a\r\nb\r\n"), vec!["a", "b"]);
}

#[test]
fn lone_carriage_return_kept() {
    assert_eq!(split_lines("a\r"), vec!["a\r"]);
}

#[test]
fn empty_content_has_no_lines() {
    assert_eq!(split_lines(""), Vec::<String>::new());
}

#[test]
fn blank_lines_kept() {
    assert_eq!(split_lines("\n"), vec![""]);
    assert_eq!(split_lines("a\n\nb"), vec!["a", "", "b"]);
}

#[test]
fn prefix_patterns_ignore_matching_names() {
    let patterns = vec![String::from("build"), String::from("node_modules")];
    assert!(is_ignored("build/output.txt", &patterns));
    assert!(is_ignored("build", &patterns));
    assert!(is_ignored("builder/x", &patterns));
    assert!(is_ignored("node_modules/pkg/index.js", &patterns));
    assert!(!is_ignored("src/build.rs", &patterns));
    assert!(!is_ignored("lib/output.txt", &patterns));
}

#[test]
fn empty_pattern_set_ignores_nothing() {
    let patterns: Vec<String> = Vec::new();
    assert!(!is_ignored("anything", &patterns));
}

#[test]
fn empty_pattern_line_ignores_everything() {
    let patterns = vec![String::from("")];
    assert!(is_ignored("anything", &patterns));
    assert!(is_ignored("", &patterns));
}
