use syncr::glob::{GlobList, GlobPattern};

fn strings(v: &[&str]) -> Vec<String> {
    v.iter().map(|s| s.to_string()).collect()
}

#[test]
fn pattern_matches_by_glob() {
    let p = GlobPattern::new("*.rs").unwrap();
    assert!(p.matches("main.rs"));
    assert!(!p.matches("main.c"));
    assert_eq!(p.as_str(), "*.rs");
    let q = p.duplicate();
    assert!(q.matches("lib.rs"));
    assert_eq!(q.as_str(), "*.rs");
}

#[test]
fn pattern_refused_by_globber() {
    let e = GlobPattern::new("[abc").err().unwrap();
    assert_eq!(e.pattern, "[abc");
}

#[test]
fn list_matches_when_any_pattern_matches() {
    let l = GlobList::build(&strings(&["target", "*.tmp"])).unwrap();
    assert_eq!(l.len(), 2);
    assert!(l.any_match("target"));
    assert!(l.any_match("a.tmp"));
    assert!(!l.any_match("src"));
    assert!(!GlobList::new().any_match("anything"));
}

#[test]
fn list_build_reports_first_refused_pattern() {
    let e = GlobList::build(&strings(&["ok", "[x", "[y"])).err().unwrap();
    assert_eq!(e.pattern, "[x");
}

#[test]
fn combined_list_matches_what_a_part_matches() {
    let a = GlobList::build(&strings(&["node_modules"])).unwrap();
    let b = GlobList::build(&strings(&["*.o", "build"])).unwrap();
    let c = GlobList::combine(vec![a.duplicate(), b.duplicate()]);
    assert_eq!(c.len(), 3);
    for name in ["node_modules", "x.o", "build", "src", "main.c"] {
        assert_eq!(c.any_match(name), a.any_match(name) || b.any_match(name));
    }
    assert_eq!(GlobList::combine(Vec::new()).len(), 0);
}
