//! The effect of a sync's actions on a destination tree, and what follows
//! from it: running the same actions twice gives what running them once does,
//! and nothing that was there before is taken away.
use vstd::prelude::*;

use crate::path_filter::{is_prefix_of, PathModel};
use crate::sync::ActionModel;

verus! {

/// What stands at a path of a tree.
pub enum NodeModel {
    Dir,
    File(Seq<u8>),
}

/// A tree: what stands at each path that exists.
pub type TreeModel = Map<PathModel, NodeModel>;

/// `q` is one of the directories that creating `dir` with all its ancestors
/// makes sure of.
pub open spec fn ensured_by(dir: PathModel, q: PathModel) -> bool {
    q.len() > 0 && is_prefix_of(q, dir)
}

/// `tree` after making sure that `dir` and all its ancestors exist: paths that
/// exist keep what stands there, missing ones become directories.
pub open spec fn ensure_dirs(tree: TreeModel, dir: PathModel) -> TreeModel {
    Map::new(
        |q: PathModel| tree.contains_key(q) || ensured_by(dir, q),
        |q: PathModel| if tree.contains_key(q) { tree[q] } else { NodeModel::Dir },
    )
}

/// `tree` after one action, with `files` the contents of the source's files.
pub open spec fn apply_action(tree: TreeModel, files: Map<PathModel, Seq<u8>>, a: ActionModel) -> TreeModel {
    match a {
        ActionModel::Skip => tree,
        ActionModel::CreateDir { target } => ensure_dirs(tree, target),
        ActionModel::CopyFile { source, parent, target } => {
            let with_parent = match parent {
                Some(p) => ensure_dirs(tree, p),
                None => tree,
            };
            with_parent.insert(target, NodeModel::File(files[source]))
        },
    }
}

/// `tree` after the actions `actions`, in order.
pub open spec fn apply_all(tree: TreeModel, files: Map<PathModel, Seq<u8>>, actions: Seq<ActionModel>) -> TreeModel
    decreases actions.len(),
{
    if actions.len() == 0 {
        tree
    } else {
        apply_all(apply_action(tree, files, actions[0]), files, actions.subrange(1, actions.len() as int))
    }
}

/// What stands at `q` in `tree`, if anything.
pub open spec fn lookup(tree: TreeModel, q: PathModel) -> Option<NodeModel> {
    if tree.contains_key(q) {
        Some(tree[q])
    } else {
        None
    }
}

/// Whether action `a` makes sure that the directory `q` exists.
pub open spec fn action_ensures(a: ActionModel, q: PathModel) -> bool {
    match a {
        ActionModel::Skip => false,
        ActionModel::CreateDir { target } => ensured_by(target, q),
        ActionModel::CopyFile { parent, .. } => parent matches Some(p) && ensured_by(p, q),
    }
}

/// Whether some action of `actions` makes sure that the directory `q` exists.
pub open spec fn any_ensures(actions: Seq<ActionModel>, q: PathModel) -> bool {
    exists|i: int| 0 <= i < actions.len() && action_ensures(#[trigger] actions[i], q)
}

/// The contents that the last copy onto `q` among `actions` writes, if any copies onto it.
pub open spec fn last_copy(actions: Seq<ActionModel>, files: Map<PathModel, Seq<u8>>, q: PathModel) -> Option<Seq<u8>>
    decreases actions.len(),
{
    if actions.len() == 0 {
        None
    } else {
        match last_copy(actions.subrange(1, actions.len() as int), files, q) {
            Some(c) => Some(c),
            None => match actions[0] {
                ActionModel::CopyFile { source, target, .. } => if target == q {
                    Some(files[source])
                } else {
                    None
                },
                _ => None,
            },
        }
    }
}

/// What stands at `q` after the actions: the last copy onto it; else what
/// stood there; else a directory where some action made sure of one.
pub open spec fn outcome(
    tree: TreeModel,
    files: Map<PathModel, Seq<u8>>,
    actions: Seq<ActionModel>,
    q: PathModel,
) -> Option<NodeModel> {
    match last_copy(actions, files, q) {
        Some(c) => Some(NodeModel::File(c)),
        None => if tree.contains_key(q) {
            Some(tree[q])
        } else if any_ensures(actions, q) {
            Some(NodeModel::Dir)
        } else {
            None
        },
    }
}

proof fn lemma_any_ensures_split(actions: Seq<ActionModel>, q: PathModel)
    requires
        actions.len() > 0,
    ensures
        any_ensures(actions, q) <==> (action_ensures(actions[0], q) || any_ensures(
            actions.subrange(1, actions.len() as int),
            q,
        )),
{
    let tail = actions.subrange(1, actions.len() as int);
    if any_ensures(actions, q) {
        let i = choose|i: int| 0 <= i < actions.len() && action_ensures(#[trigger] actions[i], q);
        if i > 0 {
            assert(tail[i - 1] == actions[i]);
        }
    }
    if any_ensures(tail, q) {
        let i = choose|i: int| 0 <= i < tail.len() && action_ensures(#[trigger] tail[i], q);
        assert(tail[i] == actions[i + 1]);
    }
}

/// What stands at each path after the actions is [`outcome`].
pub proof fn lemma_apply_all_outcome(
    tree: TreeModel,
    files: Map<PathModel, Seq<u8>>,
    actions: Seq<ActionModel>,
    q: PathModel,
)
    ensures
        lookup(apply_all(tree, files, actions), q) == outcome(tree, files, actions, q),
    decreases actions.len(),
{
    if actions.len() > 0 {
        let tail = actions.subrange(1, actions.len() as int);
        let next = apply_action(tree, files, actions[0]);
        lemma_apply_all_outcome(next, files, tail, q);
        lemma_any_ensures_split(actions, q);
    }
}

/// Running a sync's actions a second time, over an unchanged source, leaves
/// the destination tree as the first run left it.
pub proof fn lemma_sync_idempotent(tree: TreeModel, files: Map<PathModel, Seq<u8>>, actions: Seq<ActionModel>)
    ensures
        apply_all(apply_all(tree, files, actions), files, actions) == apply_all(tree, files, actions),
{
    let once = apply_all(tree, files, actions);
    let twice = apply_all(once, files, actions);
    assert forall|q: PathModel| #[trigger] lookup(twice, q) == lookup(once, q) by {
        lemma_apply_all_outcome(tree, files, actions, q);
        lemma_apply_all_outcome(once, files, actions, q);
    }
    assert forall|q: PathModel| twice.contains_key(q) <==> #[trigger] once.contains_key(q) by {
        assert(lookup(twice, q) == lookup(once, q));
    }
    assert forall|q: PathModel| #[trigger] twice.contains_key(q) implies twice[q] == once[q] by {
        assert(lookup(twice, q) == lookup(once, q));
    }
    assert(twice =~= once);
}

/// A sync removes nothing: every path of the destination tree still exists
/// afterwards, and one that no action copies onto keeps what stood there.
pub proof fn lemma_sync_keeps_existing(
    tree: TreeModel,
    files: Map<PathModel, Seq<u8>>,
    actions: Seq<ActionModel>,
    q: PathModel,
)
    requires
        tree.contains_key(q),
    ensures
        apply_all(tree, files, actions).contains_key(q),
        last_copy(actions, files, q) is None ==> apply_all(tree, files, actions)[q] == tree[q],
{
    lemma_apply_all_outcome(tree, files, actions, q);
}

} // verus!
