use syncr::project::{removal_pattern, NamePlan, ProjectFiles, Projects, project_file_name};
use syncr::util::SORRY_MESSAGE;

fn list(v: &[&str]) -> ProjectFiles {
    ProjectFiles { file_names: v.iter().map(|s| s.to_string()).collect() }
}

#[test]
fn project_file_name_adds_extension() {
    assert_eq!(project_file_name("web".to_string()), "web.aeon");
    assert_eq!(project_file_name("web.aeon".to_string()), "web.aeon");
}

#[test]
fn numbered_name_takes_first_free_number() {
    let l = list(&["p.aeon", "p_2.aeon", "p_3.aeon", "q_4.aeon"]);
    assert_eq!(l.numbered_name(&"p".to_string()), "p_4");
    assert_eq!(list(&["p.aeon"]).numbered_name(&"p".to_string()), "p_2");
    let many: Vec<String> = (2..15).map(|n| format!("x_{}.aeon", n)).collect();
    assert_eq!(ProjectFiles { file_names: many }.numbered_name(&"x".to_string()), "x_15");
}

#[test]
fn plan_name_free_or_taken() {
    let l = list(&["p.aeon", "p_2.aeon"]);
    match l.plan_name("q".to_string()) {
        NamePlan::Free(n) => assert_eq!(n, "q"),
        other => panic!("unexpected {:?}", other),
    }
    match l.plan_name("p".to_string()) {
        NamePlan::Taken { numbered } => assert_eq!(numbered, "p_3"),
        other => panic!("unexpected {:?}", other),
    }
    match l.plan_name("p.aeon".to_string()) {
        NamePlan::Taken { numbered } => assert_eq!(numbered, "p.aeon_2"),
        other => panic!("unexpected {:?}", other),
    }
}

#[test]
fn contains_and_add() {
    let mut l = ProjectFiles::empty();
    assert!(!l.contains_file(&"a.aeon".to_string()));
    l.add("a.aeon".to_string());
    assert!(l.contains_file(&"a.aeon".to_string()));
}

#[test]
fn removal_pattern_adds_extension_unless_glob() {
    assert_eq!(removal_pattern("proj"), "proj.aeon");
    assert_eq!(removal_pattern("proj.aeon"), "proj.aeon");
    assert_eq!(removal_pattern("pro*"), "pro*");
}

#[test]
fn find_matching_returns_first_match() {
    let l = list(&["alpha.aeon", "beta.aeon", "beta2.aeon"]);
    assert_eq!(l.find_matching("beta*").unwrap(), Some(1));
    assert_eq!(l.find_matching("gamma.aeon").unwrap(), None);
    assert_eq!(l.find_matching("alpha.aeon").unwrap(), Some(0));
}

#[test]
fn find_matching_refused_pattern() {
    let l = list(&["a.aeon"]);
    assert_eq!(l.find_matching("[a").err().unwrap().pattern, "[a");
    assert_eq!(ProjectFiles::empty().find_matching("[a").unwrap(), None);
}

#[test]
fn forget_swaps_last_into_place() {
    let mut l = list(&["a.aeon", "b.aeon", "c.aeon", "b.aeon"]);
    assert!(l.forget(&"b.aeon".to_string()));
    assert_eq!(l.file_names, vec!["a.aeon", "b.aeon", "c.aeon"]);
    assert!(l.forget(&"a.aeon".to_string()));
    assert_eq!(l.file_names, vec!["c.aeon", "b.aeon"]);
    assert!(!l.forget(&"z.aeon".to_string()));
    assert_eq!(l.file_names, vec!["c.aeon", "b.aeon"]);
}

#[test]
fn new_project_has_placeholder_destination() {
    let p = Projects::new_project("n".to_string(), "/src".to_string(), Vec::new());
    assert_eq!(p.destination, SORRY_MESSAGE);
    assert_eq!(p.name, "n");
    assert_eq!(p.source, "/src");
    assert!(p.ignored_projects.is_empty());
}

#[test]
fn all_project_files_lists_every_project_in_order() {
    let l = list(&["web.aeon", "notes", "b.aeon"]);
    assert_eq!(l.all_project_files(), vec!["web.aeon".to_string(), "notes.aeon".to_string(), "b.aeon".to_string()]);
    assert!(list(&[]).all_project_files().is_empty());
}
