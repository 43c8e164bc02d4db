use stowlink::linker::{classify_entry, EntryAction, SourceKind};

fn no_patterns() -> Vec<String> {
    Vec::new()
}

#[test]
fn map_file_to_target() {
    let a = classify_entry(
        "/src/a/b.txt",
        "/src",
        "/dst",
        true,
        false,
        &no_patterns(),
        SourceKind::File,
    );
    assert_eq!(a, EntryAction::MakeLink(String::from("/dst/a/b.txt")));
}

#[test]
fn map_dir_to_target() {
    let a = classify_entry("/src/a", "/src", "/dst", true, false, &no_patterns(), SourceKind::Directory);
    assert_eq!(a, EntryAction::MakeDir(String::from("/dst/a")));
}

#[test]
fn map_with_trailing_slash_on_target() {
    let a = classify_entry("/src/a", "/src", "/dst/", true, false, &no_patterns(), SourceKind::File);
    assert_eq!(a, EntryAction::MakeLink(String::from("/dst/a")));
}

#[test]
fn git_directory_skipped() {
    let a = classify_entry(
        "/src/.git/config",
        "/src",
        "/dst",
        true,
        false,
        &no_patterns(),
        SourceKind::File,
    );
    assert_eq!(a, EntryAction::SkipVcs);
}

#[test]
fn git_at_end_skipped() {
    let a = classify_entry("/src/.git", "/src", "/dst", true, false, &no_patterns(), SourceKind::Directory);
    assert_eq!(a, EntryAction::SkipVcs);
}

#[test]
fn git_like_names_not_skipped() {
    let a = classify_entry("/src/a.gitty", "/src", "/dst", true, false, &no_patterns(), SourceKind::File);
    assert_eq!(a, EntryAction::MakeLink(String::from("/dst/a.gitty")));
    let b = classify_entry("/src/agit", "/src", "/dst", true, false, &no_patterns(), SourceKind::File);
    assert_eq!(b, EntryAction::MakeLink(String::from("/dst/agit")));
}

#[test]
fn git_filter_can_be_disabled() {
    let a = classify_entry(
        "/src/.git/config",
        "/src",
        "/dst",
        false,
        false,
        &no_patterns(),
        SourceKind::File,
    );
    assert_eq!(a, EntryAction::MakeLink(String::from("/dst/.git/config")));
}

#[test]
fn entry_outside_root_skipped() {
    let a = classify_entry("/elsewhere/x", "/src", "/dst", true, false, &no_patterns(), SourceKind::File);
    assert_eq!(a, EntryAction::SkipOutsideRoot);
}

#[test]
fn control_file_skipped_when_filtering() {
    let a = classify_entry(
        "/src/.stow-local-ignore",
        "/src",
        "/dst",
        true,
        true,
        &no_patterns(),
        SourceKind::File,
    );
    assert_eq!(a, EntryAction::SkipControlFile);
}

#[test]
fn control_file_linked_without_filtering() {
    let a = classify_entry(
        "/src/.stow-local-ignore",
        "/src",
        "/dst",
        true,
        false,
        &no_patterns(),
        SourceKind::File,
    );
    assert_eq!(a, EntryAction::MakeLink(String::from("/dst/.stow-local-ignore")));
}

#[test]
fn ignored_prefix_skipped() {
    let patterns = vec![String::from("build"), String::from("node_modules")];
    let a = classify_entry(
        "/src/build/output.txt",
        "/src",
        "/dst",
        true,
        true,
        &patterns,
        SourceKind::File,
    );
    assert_eq!(a, EntryAction::SkipIgnored);
    let b = classify_entry(
        "/src/node_modules",
        "/src",
        "/dst",
        true,
        true,
        &patterns,
        SourceKind::Directory,
    );
    assert_eq!(b, EntryAction::SkipIgnored);
}

#[test]
fn path_outside_ignore_prefixes_linked() {
    let patterns = vec![String::from("build"), String::from("node_modules")];
    let a = classify_entry(
        "/src/lib/output.txt",
        "/src",
        "/dst",
        true,
        true,
        &patterns,
        SourceKind::File,
    );
    assert_eq!(a, EntryAction::MakeLink(String::from("/dst/lib/output.txt")));
}

#[test]
fn ignore_patterns_inactive_without_filter() {
    let patterns = vec![String::from("build")];
    let a = classify_entry(
        "/src/build/output.txt",
        "/src",
        "/dst",
        true,
        false,
        &patterns,
        SourceKind::File,
    );
    assert_eq!(a, EntryAction::MakeLink(String::from("/dst/build/output.txt")));
}

#[test]
fn other_entry_kind_skipped() {
    let a = classify_entry("/src/pipe", "/src", "/dst", true, false, &no_patterns(), SourceKind::Other);
    assert_eq!(a, EntryAction::SkipOther);
}
