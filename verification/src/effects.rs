//! What placing one link does to the target path: a model of the entry
//! standing there before and after, driven by the conflict rule, and
//! the idempotence of the whole placement.

use vstd::prelude::*;
use crate::linker::{conflict_decision, ConflictChoice};

verus! {

/// What stands at a filesystem path in the target tree.
pub enum FsEntry {
    Directory,
    RegularFile,
    /// A symbolic link and the path it points to.
    Symlink(Seq<char>),
}

/// The effect of placing one link at a target path.
pub struct LinkOutcome {
    /// What stands at the target path afterwards.
    pub entry: Option<FsEntry>,
    /// What was moved to the backup name, if anything.
    pub backup: Option<FsEntry>,
    /// Whether a fresh link was created.
    pub linked: bool,
}

/// Whether the entry at the target path is a symbolic link.
pub open spec fn entry_is_symlink(e: Option<FsEntry>) -> bool {
    e matches Option::Some(FsEntry::Symlink(_))
}

/// Placing a link to `canon` at a path where `existing` stands: the
/// conflict rule picks the action, and the action rewrites the path.
pub open spec fn link_step(existing: Option<FsEntry>, force: bool, canon: Seq<char>) -> LinkOutcome {
    match conflict_decision(existing is Some, entry_is_symlink(existing), force) {
        ConflictChoice::CreateLink => LinkOutcome {
            entry: Some(FsEntry::Symlink(canon)),
            backup: None,
            linked: true,
        },
        ConflictChoice::ReplaceSymlink => LinkOutcome {
            entry: Some(FsEntry::Symlink(canon)),
            backup: None,
            linked: true,
        },
        ConflictChoice::BackupAndReplace => LinkOutcome {
            entry: Some(FsEntry::Symlink(canon)),
            backup: existing,
            linked: true,
        },
        ConflictChoice::SkipExisting => LinkOutcome { entry: existing, backup: None, linked: false },
    }
}

/// Idempotence: placing the same link twice leaves the target path as
/// the first placement left it, and the second placement moves nothing
/// to a backup name.
pub proof fn lemma_link_step_idempotent(existing: Option<FsEntry>, force: bool, canon: Seq<char>)
    ensures
        ({
            let first = link_step(existing, force, canon);
            let second = link_step(first.entry, force, canon);
            &&& second.entry == first.entry
            &&& second.backup is None
        }),
{
}

/// A slice of the target tree: what stands at each path.
pub type TargetTree = Map<Seq<char>, FsEntry>;

/// The target tree after one link placement at `path`: the conflict
/// rule rewrites the entry at `path`, and whatever was backed up moves
/// to the backup name of `path`.
pub open spec fn place_link(state: TargetTree, path: Seq<char>, force: bool, canon: Seq<char>) -> TargetTree {
    let existing = if state.dom().contains(path) {
        Some(state[path])
    } else {
        None
    };
    let out = link_step(existing, force, canon);
    let after_entry = match out.entry {
        Some(e) => state.insert(path, e),
        None => state.remove(path),
    };
    match out.backup {
        Some(b) => after_entry.insert(crate::linker::backup_name_spec(path), b),
        None => after_entry,
    }
}

/// Idempotence over the tree: placing the same link at the same path a
/// second time leaves the whole target tree exactly as the first
/// placement left it.
pub proof fn lemma_place_link_idempotent(
    state: TargetTree,
    path: Seq<char>,
    force: bool,
    canon: Seq<char>,
)
    ensures
        place_link(place_link(state, path, force, canon), path, force, canon) == place_link(
            state,
            path,
            force,
            canon,
        ),
{
    let bak = crate::linker::backup_name_spec(path);
    assert(bak.len() == path.len() + 4);
    let once = place_link(state, path, force, canon);
    let twice = place_link(once, path, force, canon);
    let existing = if state.dom().contains(path) {
        Some(state[path])
    } else {
        None
    };
    let out = link_step(existing, force, canon);
    if out.linked {
        assert(once.dom().contains(path) && once[path] == FsEntry::Symlink(canon));
        assert(twice =~= once);
    } else {
        assert(once =~= state);
        assert(twice =~= once);
    }
}

/// A canonical target: whenever a link is created, the entry left at
/// the target path is a symbolic link to exactly the canonical source
/// path that was handed in.
pub proof fn lemma_link_targets_canonical(existing: Option<FsEntry>, force: bool, canon: Seq<char>)
    ensures
        link_step(existing, force, canon).linked ==> link_step(existing, force, canon).entry
            == Some(FsEntry::Symlink(canon)),
        !link_step(existing, force, canon).linked ==> link_step(existing, force, canon).entry
            == existing,
{
}

} // verus!
