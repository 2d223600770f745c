//! Include / exclude rules over paths relative to a source base.
use vstd::prelude::*;

verus! {

/// The mathematical value of a path: its components as character sequences.
pub type PathModel = Seq<Seq<char>>;

/// `prefix` is a leading run of whole components of `path`.
pub open spec fn is_prefix_of(prefix: PathModel, path: PathModel) -> bool {
    prefix.len() <= path.len() && path.subrange(0, prefix.len() as int) == prefix
}

/// Some rule of `rules` is a prefix of `path` (`path` lies at or under it).
pub open spec fn under_some(path: PathModel, rules: Seq<PathModel>) -> bool {
    exists|i: int| 0 <= i < rules.len() && #[trigger] is_prefix_of(rules[i], path)
}

/// Some rule of `rules` is a prefix of `path`, or `path` is a prefix of it
/// (`path` is an ancestor directory of an included subtree).
pub open spec fn related_to_some(path: PathModel, rules: Seq<PathModel>) -> bool {
    exists|i: int|
        0 <= i < rules.len() && (#[trigger] is_prefix_of(rules[i], path) || is_prefix_of(path, rules[i]))
}

/// Whether `path` passes the filter: excludes are checked first and always
/// win; then, where includes are given, the path must be inside an included
/// subtree or lead down to one; with no includes every non-excluded path passes.
pub open spec fn passes(path: PathModel, excludes: Option<Seq<PathModel>>, includes: Option<Seq<PathModel>>) -> bool {
    let excluded = match excludes {
        Some(e) => under_some(path, e),
        None => false,
    };
    !excluded && match includes {
        Some(i) => related_to_some(path, i),
        None => true,
    }
}

/// The model of an optional rule list.
pub open spec fn rules_model(rules: Option<&Vec<Vec<String>>>) -> Option<Seq<PathModel>> {
    match rules {
        Some(r) => Some(r.deep_view()),
        None => None,
    }
}

/// Whether the components of `prefix` are the first components of `path`.
/// Components are compared whole: `addons2` does not start with `addons`.
pub fn starts_with(path: &Vec<String>, prefix: &Vec<String>) -> (r: bool)
    ensures
        r == is_prefix_of(prefix.deep_view(), path.deep_view()),
{
    if prefix.len() > path.len() {
        return false;
    }
    let mut k: usize = 0;
    while k < prefix.len()
        invariant
            prefix.len() <= path.len(),
            0 <= k <= prefix.len(),
            forall|j: int| 0 <= j < k ==> path.deep_view()[j] == prefix.deep_view()[j],
        decreases prefix.len() - k,
    {
        if path[k] != prefix[k] {
            assert(path.deep_view().subrange(0, prefix.len() as int)[k as int] != prefix.deep_view()[k as int]);
            return false;
        }
        k = k + 1;
    }
    assert(path.deep_view().subrange(0, prefix.len() as int) =~= prefix.deep_view());
    true
}

/// Whether some rule of `rules` is a prefix of `path`.
fn any_prefix_of(path: &Vec<String>, rules: &Vec<Vec<String>>) -> (r: bool)
    ensures
        r == under_some(path.deep_view(), rules.deep_view()),
{
    let mut k: usize = 0;
    while k < rules.len()
        invariant
            0 <= k <= rules.len(),
            forall|j: int| 0 <= j < k ==> !is_prefix_of(#[trigger] rules.deep_view()[j], path.deep_view()),
        decreases rules.len() - k,
    {
        if starts_with(path, &rules[k]) {
            assert(is_prefix_of(rules.deep_view()[k as int], path.deep_view()));
            return true;
        }
        k = k + 1;
    }
    false
}

/// Whether some rule of `rules` is a prefix of `path`, or has `path` as a prefix.
fn any_related(path: &Vec<String>, rules: &Vec<Vec<String>>) -> (r: bool)
    ensures
        r == related_to_some(path.deep_view(), rules.deep_view()),
{
    let mut k: usize = 0;
    while k < rules.len()
        invariant
            0 <= k <= rules.len(),
            forall|j: int|
                0 <= j < k ==> !(is_prefix_of(#[trigger] rules.deep_view()[j], path.deep_view())
                    || is_prefix_of(path.deep_view(), rules.deep_view()[j])),
        decreases rules.len() - k,
    {
        if starts_with(path, &rules[k]) || starts_with(&rules[k], path) {
            assert(is_prefix_of(rules.deep_view()[k as int], path.deep_view())
                || is_prefix_of(path.deep_view(), rules.deep_view()[k as int]));
            return true;
        }
        k = k + 1;
    }
    false
}

/// Whether the relative path `rel_path` takes part in a sync under the given
/// exclude and include rules (see [`passes`]).
pub fn should_include(
    rel_path: &Vec<String>,
    excludes: Option<&Vec<Vec<String>>>,
    includes: Option<&Vec<Vec<String>>>,
) -> (r: bool)
    ensures
        r == passes(rel_path.deep_view(), rules_model(excludes), rules_model(includes)),
{
    if let Some(excludes) = excludes {
        if any_prefix_of(rel_path, excludes) {
            return false;
        }
    }
    match includes {
        Some(includes) => any_related(rel_path, includes),
        None => true,
    }
}

/// An exclude rule that is a prefix of a path rejects it, whatever the include
/// rules say.
pub proof fn lemma_exclude_is_authoritative(
    path: PathModel,
    excludes: Seq<PathModel>,
    includes: Option<Seq<PathModel>>,
    e: int,
)
    requires
        0 <= e < excludes.len(),
        is_prefix_of(excludes[e], path),
    ensures
        !passes(path, Some(excludes), includes),
{
}

/// When no exclude rule matches, a path passes a list of include rules exactly
/// when some include rule is a prefix of it or it is a prefix of some include rule.
pub proof fn lemma_include_matches_either_way(
    path: PathModel,
    excludes: Option<Seq<PathModel>>,
    includes: Seq<PathModel>,
)
    requires
        excludes matches Some(e) ==> !under_some(path, e),
    ensures
        passes(path, excludes, Some(includes)) <==> exists|i: int|
            0 <= i < includes.len() && (#[trigger] is_prefix_of(includes[i], path)
                || is_prefix_of(path, includes[i])),
{
}

/// With neither exclude nor include rules, every path passes.
pub proof fn lemma_no_rules_passes_all(path: PathModel)
    ensures
        passes(path, None, None),
{
}

} // verus!
