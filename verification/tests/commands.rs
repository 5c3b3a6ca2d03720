use syncr::args::{handle_args, Action, Topic};

#[test]
fn no_args_is_missing_args() {
    assert_eq!(handle_args(&[]), Action::MissingArgs);
}

#[test]
fn top_level_help_and_unknown() {
    assert_eq!(handle_args(&["help"]), Action::Usage);
    assert_eq!(handle_args(&["--help", "bogus"]), Action::Usage);
    assert_eq!(handle_args(&["--help", "sync"]), Action::CommandHelp { topic: Topic::Sync, with_version: false });
    assert_eq!(handle_args(&["help", "config", "x"]), Action::CommandHelp { topic: Topic::Config, with_version: false });
    assert_eq!(handle_args(&["bogus", "x"]), Action::UnknownArgs { from: 0 });
}

#[test]
fn config_commands() {
    assert_eq!(handle_args(&["config"]), Action::PrintConfig);
    assert_eq!(handle_args(&["config", "heuristics"]), Action::PrintHeuristics);
    assert_eq!(handle_args(&["config", "heuristics", "names"]), Action::PrintHeuristicNames);
    assert_eq!(handle_args(&["config", "profiles"]), Action::PrintProfiles);
    assert_eq!(handle_args(&["config", "profiles", "global"]), Action::PrintGlobalProfile);
    assert_eq!(handle_args(&["config", "profiles", "names"]), Action::PrintProfileNames);
    assert_eq!(handle_args(&["config", "help"]), Action::CommandHelp { topic: Topic::Config, with_version: true });
    assert_eq!(
        handle_args(&["config", "profiles", "names", "x"]),
        Action::CommandUnknownArgs { topic: Topic::ConfigProfiles, from: 2 }
    );
    assert_eq!(handle_args(&["config", "nope"]), Action::CommandUnknownArgs { topic: Topic::Config, from: 1 });
}

#[test]
fn init_takes_an_optional_name() {
    assert_eq!(handle_args(&["init"]), Action::Init { name: None });
    assert_eq!(handle_args(&["init", "proj"]), Action::Init { name: Some(1) });
    assert_eq!(handle_args(&["init", "help"]), Action::Init { name: Some(1) });
    assert_eq!(handle_args(&["init", "--help"]), Action::CommandHelp { topic: Topic::Init, with_version: true });
    assert_eq!(handle_args(&["init", "a", "b"]), Action::CommandUnknownArgs { topic: Topic::Init, from: 1 });
}

#[test]
fn list_refresh_remove_commands() {
    assert_eq!(handle_args(&["list"]), Action::PrintProjectList);
    assert_eq!(handle_args(&["list", "names"]), Action::PrintProjectListNames);
    assert_eq!(handle_args(&["refresh"]), Action::Refresh { name: None });
    assert_eq!(handle_args(&["refresh", "--all"]), Action::RefreshAll);
    assert_eq!(handle_args(&["refresh", "p"]), Action::Refresh { name: Some(1) });
    assert_eq!(handle_args(&["remove", "p"]), Action::Remove { name: 1 });
    assert_eq!(handle_args(&["remove"]), Action::CommandUnknownArgs { topic: Topic::Remove, from: 1 });
}

#[test]
fn show_sync_version_commands() {
    assert_eq!(handle_args(&["show"]), Action::ShowProjects { name: None });
    assert_eq!(handle_args(&["show", "full", "p"]), Action::ShowProjects { name: Some(2) });
    assert_eq!(handle_args(&["show", "full"]), Action::CommandUnknownArgs { topic: Topic::ShowFull, from: 2 });
    assert_eq!(handle_args(&["show", "paths"]), Action::ShowPaths { name: None });
    assert_eq!(handle_args(&["show", "paths", "p"]), Action::ShowPaths { name: Some(2) });
    assert_eq!(handle_args(&["sync"]), Action::Sync { name: None });
    assert_eq!(handle_args(&["sync", "--all"]), Action::SyncAll);
    assert_eq!(handle_args(&["sync", "p"]), Action::Sync { name: Some(1) });
    assert_eq!(handle_args(&["version"]), Action::PrintVersion);
    assert_eq!(handle_args(&["version", "x"]), Action::CommandUnknownArgs { topic: Topic::Version, from: 1 });
}
