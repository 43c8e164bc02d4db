//! The dead-link pruner's decision: for an entry of the target tree,
//! whether to recurse, remove a dead symbolic link, or leave the entry
//! alone — and the guarantee that one pass removes exactly the dead
//! links.

use vstd::prelude::*;

verus! {

/// What the pruner does with one target-tree entry.
#[derive(Clone, Copy, Debug, PartialEq, Eq, Structural)]
pub enum PruneAction {
    /// A non-link directory: walk into it.
    Recurse,
    /// A dead symbolic link: remove it at once.
    RemoveLink,
    /// Anything else: leave it untouched.
    Leave,
}

/// A symbolic link is dead when it can be read but the path it points
/// to does not exist.
pub open spec fn dead_link(is_symlink: bool, link_readable: bool, referent_exists: bool) -> bool {
    is_symlink && link_readable && !referent_exists
}

/// Decides what the pruner does with one entry of the target tree.
///
/// The symbolic-link test comes first, so a link to a directory is
/// never walked into: only a real, non-link directory is recursed.
pub fn prune_action(
    is_symlink: bool,
    is_dir: bool,
    link_readable: bool,
    referent_exists: bool,
) -> (a: PruneAction)
    ensures
        a == PruneAction::RemoveLink <==> dead_link(is_symlink, link_readable, referent_exists),
        a == PruneAction::Recurse <==> !is_symlink && is_dir,
        a == PruneAction::Leave <==> !dead_link(is_symlink, link_readable, referent_exists) && !(
        !is_symlink && is_dir),
{
    if is_symlink {
        if link_readable && !referent_exists {
            PruneAction::RemoveLink
        } else {
            PruneAction::Leave
        }
    } else if is_dir {
        PruneAction::Recurse
    } else {
        PruneAction::Leave
    }
}

/// One entry of a target directory, as the pruner sees it.
#[derive(Clone, Copy, Debug, PartialEq, Eq, Structural)]
pub struct TargetNode {
    pub is_symlink: bool,
    pub is_dir: bool,
    pub link_readable: bool,
    pub referent_exists: bool,
}

/// Whether a node is a dead symbolic link.
pub open spec fn node_dead(n: TargetNode) -> bool {
    dead_link(n.is_symlink, n.link_readable, n.referent_exists)
}

/// The entries of a directory after one pruning pass: the dead links
/// are gone, everything else stays, in order.
pub open spec fn pruned(s: Seq<TargetNode>) -> Seq<TargetNode> {
    s.filter(|n: TargetNode| !node_dead(n))
}

/// Dead-link convergence: one pruning pass removes exactly the dead
/// links — every surviving entry is live and was present before, every
/// live entry survives — and a second pass changes nothing.
pub proof fn lemma_prune_convergent(s: Seq<TargetNode>)
    ensures
        forall|i: int| 0 <= i < pruned(s).len() ==> !node_dead(#[trigger] pruned(s)[i]),
        forall|i: int| 0 <= i < pruned(s).len() ==> s.contains(#[trigger] pruned(s)[i]),
        forall|i: int|
            0 <= i < s.len() && !node_dead(#[trigger] s[i]) ==> pruned(s).contains(s[i]),
        pruned(pruned(s)) == pruned(s),
    decreases s.len(),
{
    broadcast use vstd::seq_lib::group_filter_ensures;

    lemma_pruned_subset(s);
    lemma_filter_of_all_kept(pruned(s));
}

/// Every entry that survives a pruning pass stood in the directory
/// before it.
proof fn lemma_pruned_subset(s: Seq<TargetNode>)
    ensures
        forall|i: int| 0 <= i < pruned(s).len() ==> s.contains(#[trigger] pruned(s)[i]),
    decreases s.len(),
{
    reveal(Seq::filter);
    if s.len() != 0 {
        lemma_pruned_subset(s.drop_last());
        assert forall|i: int| 0 <= i < pruned(s).len() implies s.contains(#[trigger] pruned(s)[i]) by {
            if i < pruned(s.drop_last()).len() {
                assert(pruned(s)[i] == pruned(s.drop_last())[i]);
                let j = choose|j: int|
                    0 <= j < s.drop_last().len() && s.drop_last()[j] == pruned(s.drop_last())[i];
                assert(s[j] == pruned(s)[i]);
            } else {
                assert(pruned(s)[i] == s.last());
            }
        }
    }
}

/// A pass over entries that are all live removes nothing.
proof fn lemma_filter_of_all_kept(s: Seq<TargetNode>)
    requires
        forall|i: int| 0 <= i < s.len() ==> !node_dead(#[trigger] s[i]),
    ensures
        pruned(s) == s,
    decreases s.len(),
{
    reveal(Seq::filter);
    if s.len() != 0 {
        assert(forall|i: int|
            0 <= i < s.drop_last().len() ==> !node_dead(#[trigger] s.drop_last()[i]));
        lemma_filter_of_all_kept(s.drop_last());
        assert(!node_dead(s.last()));
        assert(pruned(s) =~= s.drop_last().push(s.last()));
        assert(s.drop_last().push(s.last()) =~= s);
    } else {
        assert(pruned(s) =~= s);
    }
}

} // verus!
