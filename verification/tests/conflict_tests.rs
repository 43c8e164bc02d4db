use stowlink::linker::{backup_name, resolve_conflict, ConflictChoice};

#[test]
fn absent_target_taken() {
    assert_eq!(resolve_conflict(false, false, false), ConflictChoice::CreateLink);
    assert_eq!(resolve_conflict(false, false, true), ConflictChoice::CreateLink);
}

#[test]
fn existing_symlink_always_replaced() {
    assert_eq!(resolve_conflict(true, true, false), ConflictChoice::ReplaceSymlink);
    assert_eq!(resolve_conflict(true, true, true), ConflictChoice::ReplaceSymlink);
}

#[test]
fn plain_file_without_force_skipped() {
    assert_eq!(resolve_conflict(true, false, false), ConflictChoice::SkipExisting);
}

#[test]
fn plain_file_with_force_backed_up() {
    assert_eq!(resolve_conflict(true, false, true), ConflictChoice::BackupAndReplace);
}

#[test]
fn second_run_replaces_own_link_without_backup() {
    // First run: nothing stands at the target path, so a link is created.
    assert_eq!(resolve_conflict(false, false, false), ConflictChoice::CreateLink);
    // Second run with identical arguments: the link from the first run
    // stands there and is replaced in place; no backup is made whether
    // or not overwriting is forced.
    assert_eq!(resolve_conflict(true, true, false), ConflictChoice::ReplaceSymlink);
    assert_eq!(resolve_conflict(true, true, true), ConflictChoice::ReplaceSymlink);
}

#[test]
fn backup_name_appends_bak() {
    assert_eq!(backup_name("/dst/foo.txt"), String::from("/dst/foo.txt.bak"));
    assert_eq!(backup_name(""), String::from(".bak"));
}
