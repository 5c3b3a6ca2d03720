use syncr::config::{Config, Heuristic, Heuristics, ProjectType, ReadyConfig, ReadyHeuristics, ReadyProjectType, ReadySyncProfile, SyncProfile, ReadyHeuristic};
use syncr::dir_tree::{DirectoryTree, Entry, EntryKind, Visit};
use syncr::glob::GlobList;
use syncr::init::{Classifier, UNDETERMINED};

fn strings(v: &[&str]) -> Vec<String> {
    v.iter().map(|s| s.to_string()).collect()
}

fn entry(path: &str, name: Option<&str>, kind: EntryKind) -> Entry {
    Entry { path: path.as_bytes().to_vec(), name: name.map(|n| n.to_string()), kind }
}

fn bytes(p: &str) -> Vec<u8> {
    p.as_bytes().to_vec()
}

fn profile(name: &str, folders: &[&str], files: &[&str]) -> SyncProfile {
    SyncProfile { name: name.to_string(), skip_folders: strings(folders), skip_files: strings(files) }
}

fn rust_type() -> ProjectType {
    ProjectType {
        name: "rust".to_string(),
        folders: vec![Heuristic { value: "src".to_string(), weight: 10 }, Heuristic { value: "target".to_string(), weight: 15 }],
        files: vec![Heuristic { value: "Cargo.toml".to_string(), weight: 30 }, Heuristic { value: "*.rs".to_string(), weight: 5 }],
    }
}

fn config() -> Config {
    Config {
        heuristic_skip_folders: strings(&[".git"]),
        global_profile: profile("global", &[".git"], &["*.swp"]),
        profiles: vec![profile("rust", &["target"], &[]), profile("node", &["node_modules"], &["*.log"])],
        heuristics: vec![rust_type()],
    }
}

#[test]
fn tree_queues_unskipped_folders_in_recursive_walk() {
    let folders = GlobList::build(&strings(&["target"])).unwrap();
    let files = GlobList::build(&strings(&["*.tmp"])).unwrap();
    let mut t = DirectoryTree::recursive_skip_folders_and_files(bytes("/p"), folders, files);
    assert_eq!(t.next_dir(), Some(bytes("/p")));
    assert_eq!(t.visit(entry("/p/src", Some("src"), EntryKind::Dir)), Visit::Yield);
    assert_eq!(t.visit(entry("/p/target", Some("target"), EntryKind::Dir)), Visit::Skip);
    assert_eq!(t.visit(entry("/p/a.tmp", Some("a.tmp"), EntryKind::File)), Visit::Skip);
    assert_eq!(t.visit(entry("/p/a.rs", Some("a.rs"), EntryKind::File)), Visit::Yield);
    assert_eq!(t.visit(entry("/p/link", Some("link"), EntryKind::Other)), Visit::Yield);
    assert_eq!(t.visit(entry("/p/x", None, EntryKind::File)), Visit::Skip);
    assert_eq!(t.remaining_len(), 1);
    assert_eq!(t.next_dir(), Some(bytes("/p/src")));
    assert_eq!(t.next_dir(), None);
}

#[test]
fn tree_does_not_descend_in_flat_walk() {
    let folders = GlobList::build(&strings(&["target"])).unwrap();
    let files = GlobList::build(&strings(&["*.tmp"])).unwrap();
    let mut t = DirectoryTree::skip_folders_and_files(bytes("/p"), folders, files);
    assert_eq!(t.visit(entry("/p/target", Some("target"), EntryKind::Dir)), Visit::Yield);
    assert_eq!(t.visit(entry("/p/a.tmp", Some("a.tmp"), EntryKind::File)), Visit::Skip);
    assert_eq!(t.remaining_len(), 1);
    let mut n = DirectoryTree::new(bytes("/q"));
    assert_eq!(n.visit(entry("/q/d", Some("d"), EntryKind::Dir)), Visit::Yield);
    assert_eq!(n.remaining_len(), 1);
    let mut r = DirectoryTree::recursive(bytes("/q"));
    assert_eq!(r.visit(entry("/q/d", Some("d"), EntryKind::Dir)), Visit::Yield);
    assert_eq!(r.remaining_len(), 2);
    let mut s = DirectoryTree::recursive_skip_folders(bytes("/q"), GlobList::build(&strings(&["d"])).unwrap());
    assert_eq!(s.visit(entry("/q/d", Some("d"), EntryKind::Dir)), Visit::Skip);
    assert_eq!(s.root, bytes("/q"));
}

#[test]
fn ready_config_keeps_everything() {
    let c = config();
    let r = ReadyConfig::build(&c).unwrap();
    assert_eq!(r.profiles.len(), 2);
    assert_eq!(r.profiles[1].name, "node");
    assert!(r.profiles[1].skip_files.any_match("x.log"));
    assert!(r.global_profile.skip_folders.any_match(".git"));
    assert!(r.heuristic_skip_folders.any_match(".git"));
    assert_eq!(r.heuristics[0].files[0].weight, 30);
    assert_eq!(r.heuristics[0].files[0].value.as_str(), "Cargo.toml");
}

#[test]
fn ready_config_refuses_bad_pattern() {
    let mut c = config();
    c.profiles[1].skip_files.push("[oops".to_string());
    assert_eq!(ReadyConfig::build(&c).err().unwrap().pattern, "[oops");
    let bad = Heuristic { value: "[".to_string(), weight: 1 };
    assert_eq!(ReadyHeuristic::build(&bad).err().unwrap().pattern, "[");
    assert!(ReadySyncProfile::build(&profile("x", &["[q"], &[])).is_err());
    let mut t = rust_type();
    t.files.push(bad);
    assert!(ReadyProjectType::build(&t).is_err());
    assert!(ReadyHeuristics::build(&Heuristics::new(vec![t])).is_err());
    assert!(ReadyHeuristics::build(&Heuristics::new(vec![rust_type()])).is_ok());
}

#[test]
fn config_parts() {
    let (skip, types) = config().heuristic_parts();
    assert_eq!(skip, vec![".git".to_string()]);
    assert_eq!(types.len(), 1);
    let (global, profiles) = config().profile_parts();
    assert_eq!(global.name, "global");
    assert_eq!(profiles.len(), 2);
}

#[test]
fn classifier_recognises_weighted_project() {
    let types = ReadyConfig::build(&config()).unwrap().heuristics;
    let mut c = Classifier::new(0);
    c.observe(Some("src"), EntryKind::Dir, &types, 1).unwrap();
    c.observe(Some("main.rs"), EntryKind::File, &types, 1).unwrap();
    assert!(c.profiles().is_empty());
    c.observe(Some("target"), EntryKind::Dir, &types, 2).unwrap();
    assert_eq!(c.profiles(), vec!["rust".to_string()]);
    let (dir, determined) = c.finish("proj".to_string());
    assert!(determined);
    assert_eq!(dir.root, "proj");
    assert_eq!(dir.profiles, vec!["rust".to_string()]);
}

#[test]
fn classifier_undetermined_without_enough_weight() {
    let types = ReadyConfig::build(&config()).unwrap().heuristics;
    let mut c = Classifier::new(0);
    c.observe(Some("src"), EntryKind::File, &types, 0).unwrap();
    c.observe(Some("Cargo.toml"), EntryKind::Dir, &types, 0).unwrap();
    c.observe(None, EntryKind::File, &types, 0).unwrap();
    let (dir, determined) = c.finish("d".to_string());
    assert!(!determined);
    assert_eq!(dir.profiles, vec![UNDETERMINED.to_string()]);
}

#[test]
fn classifier_stops_after_seven_folder_steps() {
    let types = ReadyConfig::build(&config()).unwrap().heuristics;
    let mut c = Classifier::new(8);
    for remaining in (1..8).rev() {
        assert!(!c.is_done());
        c.observe(Some("x"), EntryKind::Other, &types, remaining).unwrap();
    }
    assert!(c.is_done());
}

#[test]
fn classifier_reports_weight_overflow() {
    let big = ProjectType {
        name: "big".to_string(),
        folders: Vec::new(),
        files: vec![Heuristic { value: "*".to_string(), weight: i32::MAX }],
    };
    let types = ReadyConfig::build(&Config { heuristics: vec![big], ..config() }).unwrap().heuristics;
    let mut c = Classifier::new(0);
    assert!(c.observe(Some("a"), EntryKind::File, &types, 0).is_ok());
    assert!(c.observe(Some("b"), EntryKind::File, &types, 0).is_err());
}

#[test]
fn tree_queues_folder_paths_byte_for_byte() {
    let mut t = DirectoryTree::recursive(bytes("/p"));
    assert_eq!(t.next_dir(), Some(bytes("/p")));
    let odd = Entry { path: b"/p/d\xff".to_vec(), name: Some("d\u{fffd}".to_string()), kind: EntryKind::Dir };
    assert_eq!(t.visit(odd), Visit::Yield);
    assert_eq!(t.next_dir(), Some(b"/p/d\xff".to_vec()));
}
