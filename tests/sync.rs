use gdenv_addons::path_filter::should_include;
use gdenv_addons::sync::{join, parent, path_is_absolute, plan_entry, strip_prefix, EntryAction, SyncError};

fn p(s: &str) -> Vec<String> {
    let mut out: Vec<String> = Vec::new();
    if s.starts_with('/') {
        out.push("/".to_string());
    }
    out.extend(s.split('/').filter(|c| !c.is_empty()).map(|c| c.to_string()));
    out
}

fn rules(list: &[&str]) -> Vec<Vec<String>> {
    list.iter().map(|s| p(s)).collect()
}

fn plan(path: &str, is_dir: bool, inc: Option<&Vec<Vec<String>>>, ex: Option<&Vec<Vec<String>>>) -> EntryAction {
    plan_entry(&p("/src"), &p("/dest"), &p(path), is_dir, inc, ex).unwrap()
}

fn is_dir_at(a: &EntryAction, dir: &str) -> bool {
    matches!(a, EntryAction::CreateDir { target } if *target == p(dir))
}

fn is_copy(a: &EntryAction, from: &str, to: &str) -> bool {
    match a {
        EntryAction::CopyFile { source, parent: Some(par), target } => {
            *source == p(from) && *target == p(to) && par[..] == p(to)[..p(to).len() - 1]
        }
        _ => false,
    }
}

#[test]
fn join_appends_or_replaces() {
    assert_eq!(join(&p("/work"), &p("addons/foo")), p("/work/addons/foo"));
    assert_eq!(join(&p("/work"), &p("/elsewhere/repo")), p("/elsewhere/repo"));
    assert_eq!(join(&p("/work"), &p("")), p("/work"));
    assert!(path_is_absolute(&p("/a")));
    assert!(!path_is_absolute(&p("a")));
}

#[test]
fn parent_drops_last_component() {
    assert_eq!(parent(&p("/a/b")), Some(p("/a")));
    assert_eq!(parent(&p("a")), Some(p("")));
    assert_eq!(parent(&p("/")), None);
    assert_eq!(parent(&p("")), None);
}

#[test]
fn strip_prefix_gives_relative_path() {
    assert_eq!(strip_prefix(&p("/src/addons/foo"), &p("/src")), Some(p("addons/foo")));
    assert_eq!(strip_prefix(&p("/src"), &p("/src")), Some(p("")));
    assert_eq!(strip_prefix(&p("/srcx/a"), &p("/src")), None);
}

#[test]
fn entry_outside_source_base_is_an_error() {
    let r = plan_entry(&p("/src"), &p("/dest"), &p("/other/a.txt"), false, None, None);
    assert_eq!(r.err(), Some(SyncError::NotUnderSourceBase));
}

#[test]
fn include_scenario_copies_only_the_addon() {
    let inc = rules(&["addons"]);
    assert!(is_dir_at(&plan("/src", true, Some(&inc), None), "/dest"));
    assert!(is_dir_at(&plan("/src/addons", true, Some(&inc), None), "/dest/addons"));
    assert!(is_dir_at(&plan("/src/addons/foo", true, Some(&inc), None), "/dest/addons/foo"));
    assert!(is_copy(
        &plan("/src/addons/foo/plugin.cfg", false, Some(&inc), None),
        "/src/addons/foo/plugin.cfg",
        "/dest/addons/foo/plugin.cfg"
    ));
    assert!(matches!(plan("/src/notes.txt", false, Some(&inc), None), EntryAction::Skip));
}

#[test]
fn exclude_scenario_leaves_out_the_secret() {
    let ex = rules(&["secret.txt"]);
    assert!(is_dir_at(&plan("/src/addons/bar", true, None, Some(&ex)), "/dest/addons/bar"));
    assert!(is_copy(
        &plan("/src/addons/bar/plugin.cfg", false, None, Some(&ex)),
        "/src/addons/bar/plugin.cfg",
        "/dest/addons/bar/plugin.cfg"
    ));
    assert!(matches!(plan("/src/secret.txt", false, None, Some(&ex)), EntryAction::Skip));
}

#[test]
fn existing_destination_file_is_copied_over() {
    // The action for a file does not depend on what the destination holds:
    // it is always a copy onto the destination path.
    let inc = rules(&["addons"]);
    let a = plan("/src/addons/foo/plugin.cfg", false, Some(&inc), None);
    assert!(is_copy(&a, "/src/addons/foo/plugin.cfg", "/dest/addons/foo/plugin.cfg"));
}

#[test]
fn same_entry_planned_twice_gives_same_action() {
    let inc = rules(&["addons"]);
    let a = plan("/src/addons/foo/plugin.cfg", false, Some(&inc), None);
    let b = plan("/src/addons/foo/plugin.cfg", false, Some(&inc), None);
    assert!(is_copy(&a, "/src/addons/foo/plugin.cfg", "/dest/addons/foo/plugin.cfg"));
    assert!(is_copy(&b, "/src/addons/foo/plugin.cfg", "/dest/addons/foo/plugin.cfg"));
}

#[test]
fn plan_agrees_with_filter() {
    let inc = rules(&["addons/foo"]);
    let ex = rules(&["addons/foo/tmp"]);
    for rel in ["", "addons", "addons/foo", "addons/foo/tmp", "addons/foo/tmp/x", "addons/bar", "x"] {
        let passes = should_include(&p(rel), Some(&ex), Some(&inc));
        let path = format!("/src/{}", rel);
        let skipped = matches!(plan(&path, true, Some(&inc), Some(&ex)), EntryAction::Skip);
        assert_eq!(passes, !skipped, "{}", rel);
    }
}
