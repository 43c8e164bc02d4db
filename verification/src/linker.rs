//! The per-entry decision of the tree linker: for an entry of the source
//! tree, whether to skip it, recreate it as a directory, or link it, and
//! how a conflicting entry already standing at the target path is
//! resolved.

use vstd::prelude::*;
use vstd::string::StringExecFns;
use crate::paths::{is_prefix_of, is_suffix_of, normalized, joined};
use crate::ignore::{control_file_chars, ignored_spec};
use crate::vcs::is_git_path;

verus! {

/// What a source entry is: a real directory, a linkable file (a symbolic
/// link in the source counts as a file), or anything else, which the
/// walk passes over.
#[derive(Clone, Copy, Debug, PartialEq, Eq, Structural)]
pub enum SourceKind {
    Directory,
    File,
    Other,
}

/// The decision for one source entry, with target paths as character
/// sequences.
pub enum ActionSpec {
    /// The path holds a version-control component; nothing is done and
    /// nothing is reported.
    SkipVcs,
    /// The path does not lie under the source root.
    SkipOutsideRoot,
    /// The entry is the control file itself.
    SkipControlFile,
    /// The normalized relative name starts with an ignore pattern; an
    /// ignore notice is reported.
    SkipIgnored,
    /// The entry is neither a directory nor a file.
    SkipOther,
    /// Create this directory in the target tree (with its ancestors) and
    /// recurse into the source entry.
    MakeDir(Seq<char>),
    /// Place a link to the entry's canonical path at this target path.
    MakeLink(Seq<char>),
}

/// The decision for one source entry.
#[derive(Debug, PartialEq, Eq, Clone)]
pub enum EntryAction {
    SkipVcs,
    SkipOutsideRoot,
    SkipControlFile,
    SkipIgnored,
    SkipOther,
    MakeDir(String),
    MakeLink(String),
}

impl View for EntryAction {
    type V = ActionSpec;

    open spec fn view(&self) -> ActionSpec {
        match self {
            EntryAction::SkipVcs => ActionSpec::SkipVcs,
            EntryAction::SkipOutsideRoot => ActionSpec::SkipOutsideRoot,
            EntryAction::SkipControlFile => ActionSpec::SkipControlFile,
            EntryAction::SkipIgnored => ActionSpec::SkipIgnored,
            EntryAction::SkipOther => ActionSpec::SkipOther,
            EntryAction::MakeDir(t) => ActionSpec::MakeDir(t@),
            EntryAction::MakeLink(t) => ActionSpec::MakeLink(t@),
        }
    }
}

/// The relative name of `path` under `base`, normalized by dropping at
/// most one leading separator.
pub open spec fn relative_name(path: Seq<char>, base: Seq<char>) -> Seq<char> {
    normalized(path.skip(base.len() as int))
}

/// The target path an entry maps to: the target root joined with the
/// entry's normalized relative name. It depends on the relative name
/// alone, never on the order of the walk.
pub open spec fn mapped_target(path: Seq<char>, base: Seq<char>, target: Seq<char>) -> Seq<char> {
    joined(target, relative_name(path, base))
}

/// The decision for a source entry at `path`, in the order the linker
/// tests: the version-control filter, the source-root prefix, the
/// control file, the ignore-pattern set, and only then the entry's kind.
pub open spec fn entry_action_spec(
    path: Seq<char>,
    base: Seq<char>,
    target: Seq<char>,
    ignore_git: bool,
    filter: bool,
    patterns: Seq<Seq<char>>,
    kind: SourceKind,
) -> ActionSpec {
    if ignore_git && is_git_path(path) {
        ActionSpec::SkipVcs
    } else if !is_prefix_of(base, path) {
        ActionSpec::SkipOutsideRoot
    } else if filter && is_suffix_of(control_file_chars(), path) {
        ActionSpec::SkipControlFile
    } else if filter && ignored_spec(relative_name(path, base), patterns) {
        ActionSpec::SkipIgnored
    } else {
        match kind {
            SourceKind::Directory => ActionSpec::MakeDir(mapped_target(path, base, target)),
            SourceKind::File => ActionSpec::MakeLink(mapped_target(path, base, target)),
            SourceKind::Other => ActionSpec::SkipOther,
        }
    }
}

/// Decides what the linker does with one source entry.
///
/// `path` is the entry's absolute path, `base` the source root, `target`
/// the target root; `kind` says what the entry is on disk. With
/// `ignore_git` set, paths holding a version-control component are
/// skipped outright; with `filter` set, the control file and every entry
/// whose normalized relative name starts with a pattern are skipped.
pub fn classify_entry(
    path: &str,
    base: &str,
    target: &str,
    ignore_git: bool,
    filter: bool,
    patterns: &Vec<String>,
    kind: SourceKind,
) -> (a: EntryAction)
    ensures
        a@ == entry_action_spec(
            path@,
            base@,
            target@,
            ignore_git,
            filter,
            patterns.deep_view(),
            kind,
        ),
{
    if ignore_git && crate::vcs::git_pattern_match(path) {
        return EntryAction::SkipVcs;
    }
    let stripped = match crate::paths::strip_prefix_chars(path, base) {
        Some(rest) => rest,
        None => { return EntryAction::SkipOutsideRoot },
    };
    if filter && crate::paths::ends_with_chars(path, crate::ignore::control_file_name()) {
        return EntryAction::SkipControlFile;
    }
    let name = crate::paths::strip_one_leading_slash(stripped);
    assert(name@ == relative_name(path@, base@));
    if filter && crate::ignore::is_ignored(name, patterns) {
        return EntryAction::SkipIgnored;
    }
    match kind {
        SourceKind::Directory => EntryAction::MakeDir(crate::paths::join_path(target, name)),
        SourceKind::File => EntryAction::MakeLink(crate::paths::join_path(target, name)),
        SourceKind::Other => EntryAction::SkipOther,
    }
}

/// Mapping correctness: every entry under the source root that the
/// version-control rule and the ignore set let through is placed at the
/// target root joined with its normalized relative name — a file as a
/// link there, a directory as a directory there. The placement depends
/// on the relative name alone, never on the order of the walk.
pub proof fn lemma_mapping_correct(
    path: Seq<char>,
    base: Seq<char>,
    target: Seq<char>,
    filter: bool,
    patterns: Seq<Seq<char>>,
)
    requires
        is_prefix_of(base, path),
        !is_git_path(path),
        filter ==> !is_suffix_of(control_file_chars(), path),
        filter ==> !ignored_spec(relative_name(path, base), patterns),
    ensures
        entry_action_spec(path, base, target, true, filter, patterns, SourceKind::File)
            == ActionSpec::MakeLink(joined(target, relative_name(path, base))),
        entry_action_spec(path, base, target, true, filter, patterns, SourceKind::Directory)
            == ActionSpec::MakeDir(joined(target, relative_name(path, base))),
{
}

/// Ignore containment: an entry is skipped with an ignore notice only
/// when filtering is on and some pattern of the set is a prefix of its
/// normalized relative name; a name no pattern prefixes is never the
/// subject of such a notice.
pub proof fn lemma_ignore_containment(
    path: Seq<char>,
    base: Seq<char>,
    target: Seq<char>,
    ignore_git: bool,
    filter: bool,
    patterns: Seq<Seq<char>>,
    kind: SourceKind,
)
    ensures
        entry_action_spec(path, base, target, ignore_git, filter, patterns, kind)
            == ActionSpec::SkipIgnored ==> filter && ignored_spec(
            relative_name(path, base),
            patterns,
        ),
{
}

/// How a link placement treats whatever already stands at the target
/// path.
#[derive(Clone, Copy, Debug, PartialEq, Eq, Structural)]
pub enum ConflictChoice {
    /// Nothing stands there: create the link.
    CreateLink,
    /// A symbolic link stands there: remove it, then create the link.
    ReplaceSymlink,
    /// A non-link entry stands there and overwriting is forced: rename
    /// it to its backup name, then create the link.
    BackupAndReplace,
    /// A non-link entry stands there and overwriting is not forced:
    /// leave it, create nothing, report a skip.
    SkipExisting,
}

/// The conflict rule: an absent target is taken, a symbolic link is
/// always replaced, and any other entry is backed up only under force.
pub open spec fn conflict_decision(
    target_exists: bool,
    target_is_symlink: bool,
    force: bool,
) -> ConflictChoice {
    if !target_exists {
        ConflictChoice::CreateLink
    } else if target_is_symlink {
        ConflictChoice::ReplaceSymlink
    } else if force {
        ConflictChoice::BackupAndReplace
    } else {
        ConflictChoice::SkipExisting
    }
}

/// Resolves a conflict at a target path from what stands there and
/// whether overwriting is forced.
pub fn resolve_conflict(target_exists: bool, target_is_symlink: bool, force: bool) -> (c:
    ConflictChoice)
    ensures
        c == conflict_decision(target_exists, target_is_symlink, force),
{
    if !target_exists {
        ConflictChoice::CreateLink
    } else if target_is_symlink {
        ConflictChoice::ReplaceSymlink
    } else if force {
        ConflictChoice::BackupAndReplace
    } else {
        ConflictChoice::SkipExisting
    }
}

/// The characters of the backup suffix, `.bak`.
pub open spec fn backup_suffix() -> Seq<char> {
    seq!['.', 'b', 'a', 'k']
}

/// The backup name of a target path: the path with `.bak` appended.
pub open spec fn backup_name_spec(path: Seq<char>) -> Seq<char> {
    path + backup_suffix()
}

/// The name a conflicting entry is renamed to before it is replaced.
pub fn backup_name(path: &str) -> (r: String)
    ensures
        r@ == backup_name_spec(path@),
{
    let mut out = String::from_str(path);
    out.append(".bak");
    proof {
        reveal_strlit(".bak");
        assert(out@ =~= backup_name_spec(path@));
    }
    out
}

} // verus!
