//! Fanning a project's addons out into one sync each.
use vstd::prelude::*;

use crate::path_filter::PathModel;
use crate::sync::{append_components, join, join_model};

verus! {

/// One addon of a project: where its content lives and which part of it to take.
pub struct AddonSpec {
    pub name: String,
    /// The addon's source directory, relative to the working directory (or
    /// absolute); the working directory itself where absent.
    pub path: Option<Vec<String>>,
    pub includes: Option<Vec<Vec<String>>>,
    pub excludes: Option<Vec<Vec<String>>>,
}

/// A project: the directory its addons go into, and the addons.
pub struct ProjectSpecification {
    pub project_path: Vec<String>,
    pub addons: Vec<AddonSpec>,
}

/// One sync of a source tree into a destination tree.
pub struct SyncRequest {
    pub name: String,
    pub source_base: Vec<String>,
    pub dest_base: Vec<String>,
    pub includes: Option<Vec<Vec<String>>>,
    pub excludes: Option<Vec<Vec<String>>>,
}

/// What becomes of one addon.
pub enum AddonStep {
    /// Its source directory does not exist: warn and go on with the next addon.
    Skip { name: String, source_base: Vec<String> },
    /// Sync it.
    Sync(SyncRequest),
}

/// Where an addon's content is read from: its path joined to the working
/// directory, or the working directory itself.
pub open spec fn source_base_model(path: Option<PathModel>, working_dir: PathModel) -> PathModel {
    match path {
        Some(p) => join_model(working_dir, p),
        None => working_dir,
    }
}

/// `step` is what becomes of `addon` of a project whose destination is
/// `project_path`, given whether the addon's source directory exists.
pub open spec fn is_step_for(
    step: AddonStep,
    addon: AddonSpec,
    project_path: PathModel,
    working_dir: PathModel,
    source_exists: bool,
) -> bool {
    let source_base = source_base_model(addon.path.deep_view(), working_dir);
    if source_exists {
        step matches AddonStep::Sync(req) && req.name@ == addon.name@
            && req.source_base.deep_view() == source_base
            && req.dest_base.deep_view() == join_model(working_dir, project_path)
            && req.includes.deep_view() == addon.includes.deep_view()
            && req.excludes.deep_view() == addon.excludes.deep_view()
    } else {
        step matches AddonStep::Skip { name, source_base: s } && name@ == addon.name@
            && s.deep_view() == source_base
    }
}

/// A copy of the path `p`.
fn copy_path(p: &Vec<String>) -> (r: Vec<String>)
    ensures
        r.deep_view() == p.deep_view(),
{
    let mut out: Vec<String> = Vec::new();
    append_components(&mut out, p, 0);
    assert(out.deep_view() =~= p.deep_view());
    out
}

/// A copy of an optional rule list.
fn copy_rules(rules: &Option<Vec<Vec<String>>>) -> (r: Option<Vec<Vec<String>>>)
    ensures
        r.deep_view() == rules.deep_view(),
{
    match rules {
        None => None,
        Some(rules) => {
            let mut out: Vec<Vec<String>> = Vec::new();
            let mut k: usize = 0;
            while k < rules.len()
                invariant
                    k <= rules.len(),
                    out.deep_view() == rules.deep_view().subrange(0, k as int),
                decreases rules.len() - k,
            {
                let ghost prev = out.deep_view();
                out.push(copy_path(&rules[k]));
                assert(out.deep_view() =~= prev.push(rules.deep_view()[k as int]));
                k = k + 1;
                assert(out.deep_view() =~= rules.deep_view().subrange(0, k as int));
            }
            assert(out.deep_view() =~= rules.deep_view());
            Some(out)
        },
    }
}

/// The directory that `addon`'s content is read from, under `working_dir`.
pub fn addon_source_base(addon: &AddonSpec, working_dir: &Vec<String>) -> (r: Vec<String>)
    ensures
        r.deep_view() == source_base_model(addon.path.deep_view(), working_dir.deep_view()),
{
    match &addon.path {
        Some(p) => join(working_dir, p),
        None => copy_path(working_dir),
    }
}

/// What becomes of each addon of `project`, in order: an addon whose source
/// directory does not exist (`source_exists[i]` false) is skipped, every other
/// one is synced from its source directory into the project's directory,
/// both resolved against `working_dir`.
pub fn sync_addons(
    project: &ProjectSpecification,
    working_dir: &Vec<String>,
    source_exists: &Vec<bool>,
) -> (r: Vec<AddonStep>)
    requires
        source_exists.len() == project.addons.len(),
    ensures
        r.len() == project.addons.len(),
        forall|i: int|
            0 <= i < r.len() ==> is_step_for(
                #[trigger] r[i],
                project.addons[i],
                project.project_path.deep_view(),
                working_dir.deep_view(),
                source_exists[i],
            ),
{
    let mut steps: Vec<AddonStep> = Vec::new();
    let mut k: usize = 0;
    while k < project.addons.len()
        invariant
            k <= project.addons.len(),
            source_exists.len() == project.addons.len(),
            steps.len() == k,
            forall|i: int|
                0 <= i < k ==> is_step_for(
                    #[trigger] steps[i],
                    project.addons[i],
                    project.project_path.deep_view(),
                    working_dir.deep_view(),
                    source_exists[i],
                ),
        decreases project.addons.len() - k,
    {
        let addon = &project.addons[k];
        let source_base = addon_source_base(addon, working_dir);
        let name = addon.name.clone();
        let step = if source_exists[k] {
            AddonStep::Sync(SyncRequest {
                name,
                source_base,
                dest_base: join(working_dir, &project.project_path),
                includes: copy_rules(&addon.includes),
                excludes: copy_rules(&addon.excludes),
            })
        } else {
            AddonStep::Skip { name, source_base }
        };
        steps.push(step);
        k = k + 1;
    }
    steps
}

} // verus!
