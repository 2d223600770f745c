//! What a sync does with each entry met while walking a source tree.
use vstd::prelude::*;

use crate::path_filter::{is_prefix_of, passes, rules_model, should_include, PathModel};

verus! {

/// The root component that starts an absolute path.
pub open spec fn root_component() -> Seq<char> {
    seq!['/']
}

/// Whether a path starts at the root.
pub open spec fn is_absolute(p: PathModel) -> bool {
    p.len() > 0 && p[0] == root_component()
}

/// `base` joined with `rel`: `rel` appended to `base`, or `rel` alone where it
/// is absolute.
pub open spec fn join_model(base: PathModel, rel: PathModel) -> PathModel {
    if is_absolute(rel) {
        rel
    } else {
        base + rel
    }
}

/// The parent of a path: all but its last component; none for the empty path
/// and for the root alone.
pub open spec fn parent_model(p: PathModel) -> Option<PathModel> {
    if p.len() == 0 || (p.len() == 1 && is_absolute(p)) {
        None
    } else {
        Some(p.drop_last())
    }
}

/// What stripping `base` off `path` gives: the components after it, where
/// `base` is a prefix of `path`.
pub open spec fn strip_model(path: PathModel, base: PathModel) -> Option<PathModel> {
    if is_prefix_of(base, path) {
        Some(path.subrange(base.len() as int, path.len() as int))
    } else {
        None
    }
}

/// Whether a component is the root component.
fn is_root(c: &String) -> (r: bool)
    ensures
        r == (c@ == root_component()),
{
    let s = c.as_str();
    if s.unicode_len() != 1 {
        return false;
    }
    let first = s.get_char(0);
    if first == '/' {
        assert(c@ =~= root_component());
        true
    } else {
        false
    }
}

/// Whether a path starts at the root.
pub fn path_is_absolute(p: &Vec<String>) -> (r: bool)
    ensures
        r == is_absolute(p.deep_view()),
{
    p.len() > 0 && is_root(&p[0])
}

/// Copies the components `from[start..]` onto the end of `out`.
pub(crate) fn append_components(out: &mut Vec<String>, from: &Vec<String>, start: usize)
    requires
        start <= from.len(),
    ensures
        final(out).deep_view() == old(out).deep_view() + from.deep_view().subrange(start as int, from.len() as int),
{
    let ghost first = out.deep_view();
    let mut k: usize = start;
    while k < from.len()
        invariant
            start <= k <= from.len(),
            out.deep_view() == first + from.deep_view().subrange(start as int, k as int),
        decreases from.len() - k,
    {
        let ghost prev = out.deep_view();
        let c = from[k].clone();
        out.push(c);
        assert(out.deep_view() =~= prev.push(from.deep_view()[k as int]));
        k = k + 1;
        assert(out.deep_view() =~= first + from.deep_view().subrange(start as int, k as int));
    }
}

/// `base` joined with `rel`, as `Path::join` does it.
pub fn join(base: &Vec<String>, rel: &Vec<String>) -> (r: Vec<String>)
    ensures
        r.deep_view() == join_model(base.deep_view(), rel.deep_view()),
{
    let mut out: Vec<String> = Vec::new();
    if path_is_absolute(rel) {
        append_components(&mut out, rel, 0);
        assert(out.deep_view() =~= rel.deep_view());
    } else {
        append_components(&mut out, base, 0);
        append_components(&mut out, rel, 0);
        assert(out.deep_view() =~= base.deep_view() + rel.deep_view());
    }
    out
}

/// The parent directory of `p`, as `Path::parent` gives it.
pub fn parent(p: &Vec<String>) -> (r: Option<Vec<String>>)
    ensures
        match r {
            Some(q) => parent_model(p.deep_view()) == Some(q.deep_view()),
            None => parent_model(p.deep_view()) is None,
        },
{
    if p.len() == 0 || (p.len() == 1 && path_is_absolute(p)) {
        return None;
    }
    let mut out: Vec<String> = Vec::new();
    let mut k: usize = 0;
    while k + 1 < p.len()
        invariant
            p.len() >= 1,
            k + 1 <= p.len(),
            out.deep_view() == p.deep_view().subrange(0, k as int),
        decreases p.len() - k,
    {
        let ghost prev = out.deep_view();
        out.push(p[k].clone());
        assert(out.deep_view() =~= prev.push(p.deep_view()[k as int]));
        k = k + 1;
        assert(out.deep_view() =~= p.deep_view().subrange(0, k as int));
    }
    assert(out.deep_view() =~= p.deep_view().drop_last());
    Some(out)
}

/// `path` with the leading components `base` taken off, as
/// `Path::strip_prefix` gives it; `None` where `base` is not a prefix of `path`.
pub fn strip_prefix(path: &Vec<String>, base: &Vec<String>) -> (r: Option<Vec<String>>)
    ensures
        match r {
            Some(q) => strip_model(path.deep_view(), base.deep_view()) == Some(q.deep_view()),
            None => strip_model(path.deep_view(), base.deep_view()) is None,
        },
{
    if !crate::path_filter::starts_with(path, base) {
        return None;
    }
    let mut out: Vec<String> = Vec::new();
    append_components(&mut out, path, base.len());
    assert(out.deep_view() =~= path.deep_view().subrange(base.len() as int, path.len() as int));
    Some(out)
}

/// What to do with one entry met while walking a source tree.
pub enum EntryAction {
    /// The entry does not pass the filter: leave it alone.
    Skip,
    /// Ensure that the directory `target` exists, with all its ancestors.
    CreateDir { target: Vec<String> },
    /// Ensure that `parent` exists (where there is one), then copy the bytes of
    /// `source` to `target`, overwriting what is there.
    CopyFile { source: Vec<String>, parent: Option<Vec<String>>, target: Vec<String> },
}

/// The mathematical value of an [`EntryAction`].
pub enum ActionModel {
    Skip,
    CreateDir { target: PathModel },
    CopyFile { source: PathModel, parent: Option<PathModel>, target: PathModel },
}

impl View for EntryAction {
    type V = ActionModel;

    open spec fn view(&self) -> ActionModel {
        match self {
            EntryAction::Skip => ActionModel::Skip,
            EntryAction::CreateDir { target } => ActionModel::CreateDir { target: target.deep_view() },
            EntryAction::CopyFile { source, parent, target } => ActionModel::CopyFile {
                source: source.deep_view(),
                parent: match parent {
                    Some(q) => Some(q.deep_view()),
                    None => None,
                },
                target: target.deep_view(),
            },
        }
    }
}

/// Why an entry could not be handled.
#[derive(PartialEq, Eq, Structural, Debug, Clone, Copy)]
pub enum SyncError {
    /// The entry's path does not lie under the source base.
    NotUnderSourceBase,
}

/// The action owed to the entry at `path` (a directory where `is_dir`), whose
/// path relative to the source base is `rel`.
pub open spec fn action_for(
    path: PathModel,
    rel: PathModel,
    is_dir: bool,
    dest_base: PathModel,
    excludes: Option<Seq<PathModel>>,
    includes: Option<Seq<PathModel>>,
) -> ActionModel {
    if !passes(rel, excludes, includes) {
        ActionModel::Skip
    } else if is_dir {
        ActionModel::CreateDir { target: join_model(dest_base, rel) }
    } else {
        ActionModel::CopyFile {
            source: path,
            parent: parent_model(join_model(dest_base, rel)),
            target: join_model(dest_base, rel),
        }
    }
}

/// What a sync from `source_base` into `dest_base` does with the walked entry
/// at `path`: strip the source base off it, filter the relative path, and
/// create the matching directory or copy the file under `dest_base`.
/// An entry outside the source base is an error.
pub fn plan_entry(
    source_base: &Vec<String>,
    dest_base: &Vec<String>,
    path: &Vec<String>,
    is_dir: bool,
    includes: Option<&Vec<Vec<String>>>,
    excludes: Option<&Vec<Vec<String>>>,
) -> (r: Result<EntryAction, SyncError>)
    ensures
        r is Err <==> !is_prefix_of(source_base.deep_view(), path.deep_view()),
        r matches Err(e) ==> e == SyncError::NotUnderSourceBase,
        r matches Ok(a) ==> a@ == action_for(
            path.deep_view(),
            path.deep_view().subrange(source_base.deep_view().len() as int, path.deep_view().len() as int),
            is_dir,
            dest_base.deep_view(),
            rules_model(excludes),
            rules_model(includes),
        ),
{
    let rel = match strip_prefix(path, source_base) {
        Some(rel) => rel,
        None => return Err(SyncError::NotUnderSourceBase),
    };
    if !should_include(&rel, excludes, includes) {
        return Ok(EntryAction::Skip);
    }
    let target = join(dest_base, &rel);
    if is_dir {
        Ok(EntryAction::CreateDir { target })
    } else {
        let parent = parent(&target);
        let mut source: Vec<String> = Vec::new();
        append_components(&mut source, path, 0);
        assert(source.deep_view() =~= path.deep_view());
        Ok(EntryAction::CopyFile { source, parent, target })
    }
}

} // verus!
