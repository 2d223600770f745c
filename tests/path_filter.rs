use gdenv_addons::path_filter::{should_include, starts_with};

fn p(s: &str) -> Vec<String> {
    s.split('/').filter(|c| !c.is_empty()).map(|c| c.to_string()).collect()
}

fn rules(list: &[&str]) -> Vec<Vec<String>> {
    list.iter().map(|s| p(s)).collect()
}

#[test]
fn starts_with_is_component_wise() {
    assert!(starts_with(&p("addons/foo"), &p("addons")));
    assert!(starts_with(&p("addons"), &p("addons")));
    assert!(starts_with(&p("addons"), &p("")));
    assert!(!starts_with(&p("addons2/foo"), &p("addons")));
    assert!(!starts_with(&p("addons"), &p("addons/foo")));
}

#[test]
fn exclude_wins_over_include() {
    let ex = rules(&["addons/foo"]);
    let inc = rules(&["addons"]);
    assert!(!should_include(&p("addons/foo"), Some(&ex), Some(&inc)));
    assert!(!should_include(&p("addons/foo/plugin.cfg"), Some(&ex), Some(&inc)));
    assert!(!should_include(&p("addons/foo/plugin.cfg"), Some(&ex), None));
    assert!(should_include(&p("addons/bar"), Some(&ex), Some(&inc)));
}

#[test]
fn include_matches_descendants_and_ancestors() {
    let inc = rules(&["addons/foo"]);
    assert!(should_include(&p("addons/foo/plugin.cfg"), None, Some(&inc)));
    assert!(should_include(&p("addons/foo"), None, Some(&inc)));
    assert!(should_include(&p("addons"), None, Some(&inc)));
    assert!(should_include(&p(""), None, Some(&inc)));
    assert!(!should_include(&p("addons/bar"), None, Some(&inc)));
    assert!(!should_include(&p("notes.txt"), None, Some(&inc)));
}

#[test]
fn include_does_not_match_longer_name() {
    let inc = rules(&["addons"]);
    assert!(!should_include(&p("addons2"), None, Some(&inc)));
    assert!(!should_include(&p("addons2/foo"), None, Some(&inc)));
    let ex = rules(&["addons"]);
    assert!(should_include(&p("addons2"), Some(&ex), None));
}

#[test]
fn empty_include_list_rejects_everything() {
    let inc: Vec<Vec<String>> = Vec::new();
    assert!(!should_include(&p(""), None, Some(&inc)));
    assert!(!should_include(&p("a"), None, Some(&inc)));
}

#[test]
fn no_rules_include_everything() {
    assert!(should_include(&p(""), None, None));
    assert!(should_include(&p("a/b/c.txt"), None, None));
    let empty: Vec<Vec<String>> = Vec::new();
    assert!(should_include(&p("a/b/c.txt"), Some(&empty), None));
}
