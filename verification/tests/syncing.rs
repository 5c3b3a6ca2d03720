use syncr::config::{Config, ReadyConfig, SyncProfile};
use syncr::sync::{destination_unset, project_skip_lists, should_copy};
use syncr::util::SORRY_MESSAGE;

fn strings(v: &[&str]) -> Vec<String> {
    v.iter().map(|s| s.to_string()).collect()
}

fn profile(name: &str, folders: &[&str], files: &[&str]) -> SyncProfile {
    SyncProfile { name: name.to_string(), skip_folders: strings(folders), skip_files: strings(files) }
}

fn ready() -> ReadyConfig {
    ReadyConfig::build(&Config {
        heuristic_skip_folders: Vec::new(),
        global_profile: profile("global", &[".git"], &["*.swp"]),
        profiles: vec![
            profile("rust", &["target"], &[]),
            profile("node", &["node_modules"], &["*.log"]),
            profile("rust", &["never"], &["never"]),
        ],
        heuristics: Vec::new(),
    })
    .unwrap()
}

#[test]
fn destination_placeholder_detected_after_trim() {
    assert!(destination_unset(SORRY_MESSAGE));
    assert!(destination_unset(&format!("  {}\n\t", SORRY_MESSAGE)));
    assert!(!destination_unset("/backup"));
    assert!(!destination_unset(""));
    assert!(!destination_unset(&format!("x{}", SORRY_MESSAGE)));
}

#[test]
fn skip_lists_combine_profiles_and_global() {
    let c = ready();
    let (folders, files) = project_skip_lists(&strings(&["rust", "node"]), &c).unwrap();
    assert_eq!(folders.len(), 3);
    assert!(folders.any_match("target"));
    assert!(folders.any_match("node_modules"));
    assert!(folders.any_match(".git"));
    assert!(!folders.any_match("never"));
    assert!(files.any_match("a.log"));
    assert!(files.any_match("a.swp"));
    assert!(!files.any_match("a.rs"));
    let (only_global, _) = project_skip_lists(&Vec::new(), &c).unwrap();
    assert_eq!(only_global.len(), 1);
}

#[test]
fn skip_lists_missing_profile() {
    let c = ready();
    let e = project_skip_lists(&strings(&["rust", "go", "zig"]), &c).err().unwrap();
    assert_eq!(e.name, "go");
}

#[test]
fn copy_unless_destination_is_newer() {
    assert!(should_copy(10, Some(5)));
    assert!(should_copy(10, Some(10)));
    assert!(!should_copy(10, Some(11)));
    assert!(should_copy(0, None));
    assert!(!should_copy(-1, None));
}
