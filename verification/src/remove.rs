//! Deletion rules.  A delete request is classified after the stat: a file is
//! removed directly; a directory is removed with the empty-directory
//! operation — which the channel refuses for a non-empty directory — unless
//! the recursive flag was given, in which case the subtree is walked
//! depth-first and everything beneath a directory is removed before the
//! directory itself.

use vstd::prelude::*;

verus! {

use crate::paths::{join_child, join_child_path};

/// What a delete request performs once the target was stat-ed.
#[derive(Clone, Copy, Debug, PartialEq, Eq, Structural)]
pub enum DeleteAction {
    /// Remove the file.
    RemoveFile,
    /// Remove the directory with the empty-directory operation; the channel
    /// refuses it for a non-empty directory, which surfaces as an operation
    /// error rather than being silently ignored.
    RemoveEmptyDir,
    /// Walk the directory depth-first and remove everything beneath it
    /// first.
    RecurseIntoDir,
}

/// The classification of `delete(path, recursive)` after the stat of `path`.
pub fn classify_delete(is_dir: bool, recursive: bool) -> (r: DeleteAction)
    ensures
        r == DeleteAction::RemoveFile <==> !is_dir,
        r == DeleteAction::RecurseIntoDir <==> is_dir && recursive,
        r == DeleteAction::RemoveEmptyDir <==> is_dir && !recursive,
{
    if !is_dir {
        DeleteAction::RemoveFile
    } else if recursive {
        DeleteAction::RecurseIntoDir
    } else {
        DeleteAction::RemoveEmptyDir
    }
}

/// A snapshot of a remote subtree, as the channel reported it while walking:
/// each directory holds its children in reading order.
#[derive(Debug)]
pub enum FsNode {
    File { name: String },
    Dir { name: String, children: Vec<FsNode> },
}

/// The name of a node.
pub open spec fn node_name(n: FsNode) -> Seq<char> {
    match n {
        FsNode::File { name } => name@,
        FsNode::Dir { name, .. } => name@,
    }
}

/// One planned removal: the absolute path, and whether the directory-removal
/// operation is the one to use.
#[derive(Clone, Debug)]
pub struct Removal {
    pub path: String,
    pub is_dir: bool,
}

/// The views of a sequence of removals.
pub open spec fn removal_views(s: Seq<Removal>) -> Seq<(Seq<char>, bool)> {
    s.map_values(|r: Removal| (r.path@, r.is_dir))
}

/// The removal order of the subtree `node` standing at `base`: depth-first,
/// everything beneath a directory before the directory, the node itself
/// last.
pub open spec fn plan_of(base: Seq<char>, node: FsNode) -> Seq<(Seq<char>, bool)>
    decreases node,
{
    match node {
        FsNode::File { .. } => seq![(base, false)],
        FsNode::Dir { children, .. } => child_plans(base, children@) + seq![(base, true)],
    }
}

/// The concatenated removal orders of the children of a directory at `base`,
/// in reading order.
pub open spec fn child_plans(base: Seq<char>, cs: Seq<FsNode>) -> Seq<(Seq<char>, bool)>
    decreases cs,
{
    if cs.len() == 0 {
        Seq::empty()
    } else {
        plan_of(join_child(base, node_name(cs.first())), cs.first()) + child_plans(
            base,
            cs.drop_first(),
        )
    }
}

proof fn lemma_child_plans_snoc(base: Seq<char>, cs: Seq<FsNode>, c: FsNode)
    ensures
        child_plans(base, cs.push(c)) == child_plans(base, cs) + plan_of(
            join_child(base, node_name(c)),
            c,
        ),
    decreases cs.len(),
{
    if cs.len() == 0 {
        assert(cs.push(c).first() == c);
        assert(cs.push(c).drop_first() =~= Seq::<FsNode>::empty());
        assert(child_plans(base, cs.push(c)) == plan_of(join_child(base, node_name(c)), c)
            + child_plans(base, cs.push(c).drop_first()));
        assert(child_plans(base, cs.push(c).drop_first()) == Seq::<(Seq<char>, bool)>::empty());
        assert(child_plans(base, cs) == Seq::<(Seq<char>, bool)>::empty());
        assert(child_plans(base, cs.push(c)) =~= child_plans(base, cs) + plan_of(
            join_child(base, node_name(c)),
            c,
        ));
    } else {
        assert(cs.push(c).first() == cs.first());
        assert(cs.push(c).drop_first() =~= cs.drop_first().push(c));
        lemma_child_plans_snoc(base, cs.drop_first(), c);
        assert(child_plans(base, cs.push(c)) =~= child_plans(base, cs) + plan_of(
            join_child(base, node_name(c)),
            c,
        ));
    }
}

/// The name of a node.
fn node_name_exec(n: &FsNode) -> (r: &str)
    ensures
        r@ == node_name(*n),
{
    match n {
        FsNode::File { name } => name.as_str(),
        FsNode::Dir { name, .. } => name.as_str(),
    }
}

/// The removal order of the subtree `node` standing at `base`: the re-entrant
/// depth-first walk of the recursive delete, computed over the snapshot so
/// the channel operations can be issued one by one, files and subtrees
/// before each directory, through arbitrarily nested subdirectories.
#[verifier::loop_isolation(false)]
pub fn recursive_delete_plan(base: &str, node: &FsNode) -> (r: Vec<Removal>)
    ensures
        removal_views(r@) == plan_of(base@, *node),
    decreases *node,
{
    match node {
        FsNode::File { .. } => {
            let mut out: Vec<Removal> = Vec::new();
            out.push(Removal { path: base.to_owned(), is_dir: false });
            proof {
                assert(removal_views(out@) =~= plan_of(base@, *node));
            }
            out
        },
        FsNode::Dir { children, .. } => {
            let mut out: Vec<Removal> = Vec::new();
            let n = children.len();
            let mut i: usize = 0;
            proof {
                assert(children@.take(0) =~= Seq::<FsNode>::empty());
                assert(removal_views(out@) =~= child_plans(base@, children@.take(0)));
            }
            while i < n
                invariant
                    i <= n,
                    n == children@.len(),
                    removal_views(out@) == child_plans(base@, children@.take(i as int)),
                decreases n - i,
            {
                let child = &children[i];
                let cb = join_child_path(base, node_name_exec(child));
                let mut sub = recursive_delete_plan(cb.as_str(), child);
                let ghost done = out@;
                let ghost subv = sub@;
                out.append(&mut sub);
                proof {
                    lemma_child_plans_snoc(base@, children@.take(i as int), children@[i as int]);
                    assert(children@.take(i as int).push(children@[i as int]) =~= children@.take(
                        i as int + 1,
                    ));
                    assert(removal_views(out@) =~= removal_views(done) + removal_views(subv));
                    assert(removal_views(out@) =~= child_plans(base@, children@.take(i as int + 1)));
                }
                i = i + 1;
            }
            let ghost done = out@;
            out.push(Removal { path: base.to_owned(), is_dir: true });
            proof {
                assert(children@.take(n as int) =~= children@);
                assert(removal_views(out@) =~= removal_views(done).push((base@, true)));
                assert(removal_views(out@) =~= child_plans(base@, children@) + seq![
                    (base@, true),
                ]);
            }
            out
        },
    }
}

/// How many nodes the subtree holds, the node itself included.
pub open spec fn node_count(n: FsNode) -> nat
    decreases n,
{
    match n {
        FsNode::File { .. } => 1,
        FsNode::Dir { children, .. } => child_count(children@) + 1,
    }
}

/// How many nodes the subtrees of `cs` hold together.
pub open spec fn child_count(cs: Seq<FsNode>) -> nat
    decreases cs,
{
    if cs.len() == 0 {
        0
    } else {
        node_count(cs.first()) + child_count(cs.drop_first())
    }
}

/// A recursive-delete plan removes the whole subtree and nothing else: it
/// holds exactly one removal per node.
pub proof fn lemma_plan_covers_subtree(base: Seq<char>, node: FsNode)
    ensures
        plan_of(base, node).len() == node_count(node),
    decreases node,
{
    match node {
        FsNode::File { .. } => {},
        FsNode::Dir { children, .. } => {
            lemma_child_plans_cover(base, children@);
        },
    }
}

proof fn lemma_child_plans_cover(base: Seq<char>, cs: Seq<FsNode>)
    ensures
        child_plans(base, cs).len() == child_count(cs),
    decreases cs,
{
    if cs.len() > 0 {
        lemma_plan_covers_subtree(join_child(base, node_name(cs.first())), cs.first());
        lemma_child_plans_cover(base, cs.drop_first());
    }
}

/// A directory's own removal is the last step of its plan: everything the
/// plan holds for the subtree beneath it — recursively, through arbitrarily
/// nested subdirectories — comes before the directory itself.
pub proof fn lemma_dir_removed_last(base: Seq<char>, node: FsNode)
    requires
        node is Dir,
    ensures
        plan_of(base, node).len() > 0,
        plan_of(base, node).last() == (base, true),
{
}

} // verus!
