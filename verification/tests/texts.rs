use syncr::args::Topic;
use syncr::config::{Config, Heuristic, ProjectType, SyncProfile};
use syncr::help::{command_list, full_help, name_of, remaining_args, version_line};
use syncr::project::{ProjectDir, ProjectFiles, Projects};
use syncr::report::{
    config_report, debug_list_text, heuristics_report, int_to_text, join_texts, profile_to_text,
    profiles_report, project_list_report, project_paths_report, project_report, project_type_to_text,
};

fn strings(v: &[&str]) -> Vec<String> {
    v.iter().map(|s| s.to_string()).collect()
}

fn config() -> Config {
    Config {
        heuristic_skip_folders: strings(&[".git"]),
        global_profile: SyncProfile { name: "global".to_string(), skip_folders: strings(&[".git"]), skip_files: Vec::new() },
        profiles: vec![SyncProfile { name: "rust".to_string(), skip_folders: strings(&["target"]), skip_files: strings(&["*.o"]) }],
        heuristics: vec![ProjectType {
            name: "rust".to_string(),
            folders: vec![Heuristic { value: "src".to_string(), weight: 10 }],
            files: vec![Heuristic { value: "Cargo.toml".to_string(), weight: -3 }],
        }],
    }
}

#[test]
fn texts_match_std_formatting() {
    assert_eq!(int_to_text(-42), "-42");
    assert_eq!(int_to_text(0), "0");
    assert_eq!(int_to_text(i32::MIN), i32::MIN.to_string());
    assert_eq!(int_to_text(i32::MAX), i32::MAX.to_string());
    let v = strings(&["a", "b\"c", "tab\there"]);
    assert_eq!(debug_list_text(&v), format!("{:?}", v));
    assert_eq!(debug_list_text(&Vec::new()), "[]");
    assert_eq!(join_texts(&strings(&["x", "y", "z"]), ", "), "x, y, z");
    assert_eq!(join_texts(&Vec::new(), ", "), "");
}

#[test]
fn profile_and_type_texts() {
    let c = config();
    assert_eq!(
        profile_to_text(&c.profiles[0], false),
        "{ name: \"rust\", skip_folders: [\"target\"], skip_files: [\"*.o\"] }"
    );
    assert_eq!(
        profile_to_text(&c.profiles[0], true),
        "{ name: \"rust\",\n  skip_folders: [\"target\"],\n  skip_files: [\"*.o\"]\n}"
    );
    assert_eq!(
        project_type_to_text(&c.heuristics[0], false),
        "{ name: \"rust\", folders: [{ value: \"src\", weight: 10 }], files: [{ value: \"Cargo.toml\", weight: -3 }] }"
    );
}

#[test]
fn config_reports() {
    let c = config();
    let files = ProjectFiles { file_names: strings(&["a.aeon", "b.aeon"]) };
    let expected = format!(
        "[Config]\nProjects: [a.aeon, b.aeon]\nHeuristics skip folders: [\".git\"]\n\n[Profile heuristics]\n{}\n\n[Sync profiles]\n{}\n{}\n\n",
        project_type_to_text(&c.heuristics[0], false),
        profile_to_text(&c.global_profile, false),
        profile_to_text(&c.profiles[0], false)
    );
    assert_eq!(config_report(&c, &files), expected);
    assert_eq!(
        heuristics_report(&c),
        format!(
            "[Global]\nHeuristics skip folders: [\".git\"]\n\n[Profile heuristics]\n{}\n",
            project_type_to_text(&c.heuristics[0], true)
        )
    );
    assert_eq!(
        profiles_report(&c),
        format!(
            "[Global]\n{}\n\n[Sync profiles]\n{}\n",
            profile_to_text(&c.global_profile, false),
            profile_to_text(&c.profiles[0], true)
        )
    );
}

#[test]
fn project_list_reports() {
    let files = ProjectFiles { file_names: strings(&["a.aeon", "b.aeon"]) };
    assert_eq!(project_list_report(&files), "[Projects]\nproject_files: [\n  \"a.aeon\",\n  \"b.aeon\",\n]\n");
    assert_eq!(project_list_report(&ProjectFiles::empty()), "[Projects]\nproject_files: []\n");
}

#[test]
fn project_reports() {
    let p = Projects {
        name: "p".to_string(),
        source: "/src".to_string(),
        destination: "/dst".to_string(),
        ignored_projects: strings(&["old"]),
        projects: vec![ProjectDir { root: "web".to_string(), profiles: strings(&["node"]) }],
    };
    assert_eq!(
        project_report(&p),
        "[p]\nSource: \"/src\"\nDestination: \"/dst\"\nIgnored projects:\n{ \"old\" }\n\nProjects:\n{ root: \"web\", profiles: [\"node\"] }\n"
    );
    assert_eq!(project_paths_report(&p), "[p]\nSource: \"/src\"\nDestination: \"/dst\"\n\n");
}

#[test]
fn help_texts() {
    assert_eq!(version_line("1.2.3"), "Syncr 1.2.3\n\n");
    let list = command_list();
    assert!(list.starts_with("args:\n  config\n  \tprint config.aeon\n  init\n"));
    assert!(list.ends_with("  version\n  \tprint version number\n  help, --help\n  \tprint help text\n"));
    assert_eq!(
        full_help(Topic::Config),
        "commands:\n  heuristics\n  \tprint full heuristics\n  profiles\n  \tprint full profiles\n\nargs:\n  config\n  \tprint config.aeon\n  config help, --help\n  \tprint help text\n"
    );
    assert_eq!(
        full_help(Topic::Sync),
        "args:\n  sync [NAME]\n  \tsync the current directory or the specified sync project\n  sync --all\n  \tsync all sync projects\n  sync --help\n  \tprint help text\n"
    );
    assert_eq!(
        full_help(Topic::Remove),
        "args:\n  remove NAME\n  \tremove a specific sync project (not synced files)\n  remove --help\n  \tprint help text\n"
    );
    assert_eq!(
        full_help(Topic::ConfigProfiles),
        "args:\n  profiles\n  \tprint full profiles\n  profiles global\n  \tprint global profile\n  profiles names\n  \tprint only profile names\n  profiles help, --help\n  \tprint help text\n"
    );
    assert_eq!(name_of(Topic::ShowPaths), "paths");
    assert_eq!(remaining_args(&["a", "b", "c"], 1), "b', 'c");
}

#[test]
fn missing_args_prints_notice_then_command_list() {
    let t = syncr::help::missing_args_text();
    assert!(t.starts_with("Syncr requires at least one arg\n\nargs:\n  config\n  \tprint config.aeon\n"));
    assert!(t.ends_with("  help, --help\n  \tprint help text\n"));
    assert_eq!(t, format!("Syncr requires at least one arg\n\n{}", syncr::help::command_list()));
}

#[test]
fn unknown_args_quotes_every_argument() {
    let t = syncr::help::unknown_args_text(&["bogus", "x"], 0);
    assert!(t.starts_with("Unknown args: 'bogus', 'x'\n\nargs:\n"));
    assert_eq!(t, format!("Unknown args: 'bogus', 'x'\n\n{}", syncr::help::command_list()));
}

#[test]
fn command_unknown_args_names_command_and_prints_its_help() {
    let t = syncr::help::command_unknown_args_text(Topic::Remove, &["remove"], 1);
    assert!(t.starts_with("Unknown args to remove: ''\n\nargs:\n  remove NAME\n"));
    let u = syncr::help::command_unknown_args_text(Topic::Config, &["config", "nope", "more"], 1);
    assert_eq!(u, format!("Unknown args to config: 'nope', 'more'\n\n{}", syncr::help::full_help(Topic::Config)));
}

#[test]
fn usage_and_command_help_texts() {
    let u = syncr::help::usage_text("1.2.3");
    assert!(u.starts_with("Syncr 1.2.3\n\nargs:\n  config\n"));
    let h = syncr::help::command_help_text(Topic::Sync, true, "1.2.3");
    assert!(h.starts_with("Syncr 1.2.3\n\nargs:\n  sync [NAME]\n"));
    assert!(h.contains("  sync --all\n  \tsync all sync projects\n"));
    assert_eq!(syncr::help::command_help_text(Topic::Sync, false, "1.2.3"), syncr::help::full_help(Topic::Sync));
}
