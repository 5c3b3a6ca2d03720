//! The command line: which action a list of arguments asks for.
//!
//! Commands nest: `config`, `init`, `list`, `refresh`, `remove`, `show`,
//! `sync` and `version` at the top, `config heuristics`,
//! `config profiles`, `show full` and `show paths` below.  Where an action
//! takes a value (a project name), the action holds the index of that
//! argument.

use vstd::prelude::*;
use crate::util::text_eq;

verus! {

/// A command whose help can be printed.
#[derive(Debug, Clone, Copy, PartialEq, Eq, Structural)]
pub enum Topic {
    Config,
    ConfigHeuristics,
    ConfigProfiles,
    Init,
    List,
    Refresh,
    Remove,
    Show,
    ShowFull,
    ShowPaths,
    Sync,
    Version,
}

/// What the command line asks for.
#[derive(Debug, Clone, Copy, PartialEq, Eq, Structural)]
#[allow(inconsistent_fields)]
pub enum Action {
    /// `config`: print the whole configuration.
    PrintConfig,
    /// `config heuristics`: print the heuristics section.
    PrintHeuristics,
    /// `config heuristics names`: print the project type names.
    PrintHeuristicNames,
    /// `config profiles`: print the profiles section.
    PrintProfiles,
    /// `config profiles global`: print the global profile.
    PrintGlobalProfile,
    /// `config profiles names`: print the profile names.
    PrintProfileNames,
    /// `init [NAME]`: start a sync project in the current folder.
    Init { name: Option<usize> },
    /// `list`: print the list of project files.
    PrintProjectList,
    /// `list names`: print the project file names.
    PrintProjectListNames,
    /// `refresh [NAME]`.
    Refresh { name: Option<usize> },
    /// `refresh --all`.
    RefreshAll,
    /// `remove NAME`: remove a sync project.
    Remove { name: usize },
    /// `show` (no name) or `show full NAME`: print projects in full.
    ShowProjects { name: Option<usize> },
    /// `show paths [NAME]`: print project paths.
    ShowPaths { name: Option<usize> },
    /// `sync [NAME]`: sync a project.
    Sync { name: Option<usize> },
    /// `sync --all`.
    SyncAll,
    /// `version`: print the version number.
    PrintVersion,
    /// `help` or `--help` alone: the version and the list of commands.
    Usage,
    /// No argument at all.
    MissingArgs,
    /// An unknown top-level command; the arguments from `from` on.
    UnknownArgs { from: usize },
    /// The help of a command, after the version when `with_version`.
    CommandHelp { topic: Topic, with_version: bool },
    /// Arguments a command does not know, from `from` on, then its help.
    CommandUnknownArgs { topic: Topic, from: usize },
}

/// The texts of the arguments.
pub open spec fn arg_texts(args: Seq<&str>) -> Seq<Seq<char>> {
    args.map_values(|a: &str| a@)
}

/// `help` or `--help`.
pub open spec fn is_help_word(w: Seq<char>) -> bool {
    w == "--help"@ || w == "help"@
}

/// The top-level command called `w`, if any.
pub open spec fn top_topic(w: Seq<char>) -> Option<Topic> {
    if w == "config"@ {
        Some(Topic::Config)
    } else if w == "init"@ {
        Some(Topic::Init)
    } else if w == "list"@ {
        Some(Topic::List)
    } else if w == "refresh"@ {
        Some(Topic::Refresh)
    } else if w == "remove"@ {
        Some(Topic::Remove)
    } else if w == "show"@ {
        Some(Topic::Show)
    } else if w == "sync"@ {
        Some(Topic::Sync)
    } else if w == "version"@ {
        Some(Topic::Version)
    } else {
        None
    }
}

/// Whether the arguments from `o` on are exactly the word of `entry`.
pub open spec fn only_word(a: Seq<Seq<char>>, o: int, entry: Option<(Seq<char>, Action)>) -> bool {
    match entry {
        Some((w, _)) => a.len() - o == 1 && a[o] == w,
        None => false,
    }
}

/// The action of `entry`, when it has one.
pub open spec fn entry_action(entry: Option<(Seq<char>, Action)>) -> Action {
    match entry {
        Some((_, act)) => act,
        None => Action::Usage,
    }
}

/// The action of the arguments of a command with the value-less form,
/// given the action of its bare form and its one-word arguments
/// (`word1`/`action1`, `word2`/`action2`; absent ones are `None`).
pub open spec fn plain_command(
    a: Seq<Seq<char>>,
    o: int,
    topic: Topic,
    bare: Action,
    word1: Option<(Seq<char>, Action)>,
    word2: Option<(Seq<char>, Action)>,
) -> Action {
    let n = a.len() - o;
    if only_word(a, o, word1) {
        entry_action(word1)
    } else if only_word(a, o, word2) {
        entry_action(word2)
    } else if n >= 1 && is_help_word(a[o]) {
        Action::CommandHelp { topic, with_version: true }
    } else if n == 0 {
        bare
    } else {
        Action::CommandUnknownArgs { topic, from: o as usize }
    }
}

/// The commands that take a value.
#[derive(Debug, Clone, Copy, PartialEq, Eq, Structural)]
pub enum ValueCommand {
    Init,
    Refresh,
    Remove,
    ShowFull,
    ShowPaths,
    Sync,
}

/// The action of a command that takes a value, given the value's index
/// (`remove` and `show full` are only ever given one).
pub open spec fn valued_action(cmd: ValueCommand, v: Option<usize>) -> Action {
    match cmd {
        ValueCommand::Init => Action::Init { name: v },
        ValueCommand::Refresh => Action::Refresh { name: v },
        ValueCommand::Remove => Action::Remove {
            name: match v {
                Some(i) => i,
                None => 0,
            },
        },
        ValueCommand::ShowFull => Action::ShowProjects { name: v },
        ValueCommand::ShowPaths => Action::ShowPaths { name: v },
        ValueCommand::Sync => Action::Sync { name: v },
    }
}

/// The action of a command that takes a value.
fn make_valued(cmd: ValueCommand, v: Option<usize>) -> (r: Action)
    ensures
        r == valued_action(cmd, v),
{
    match cmd {
        ValueCommand::Init => Action::Init { name: v },
        ValueCommand::Refresh => Action::Refresh { name: v },
        ValueCommand::Remove => Action::Remove {
            name: match v {
                Some(i) => i,
                None => 0,
            },
        },
        ValueCommand::ShowFull => Action::ShowProjects { name: v },
        ValueCommand::ShowPaths => Action::ShowPaths { name: v },
        ValueCommand::Sync => Action::Sync { name: v },
    }
}

/// The action of the arguments of a command that takes a value: `flag`
/// (such as `--all`) and its action, the action with an optional value
/// (`optional`), or with a required one.
pub open spec fn value_command(
    a: Seq<Seq<char>>,
    o: int,
    topic: Topic,
    flag: Option<(Seq<char>, Action)>,
    optional: bool,
    cmd: ValueCommand,
) -> Action {
    let n = a.len() - o;
    if only_word(a, o, flag) {
        entry_action(flag)
    } else if n >= 1 && a[o] == "--help"@ {
        Action::CommandHelp { topic, with_version: true }
    } else if optional && n == 0 {
        valued_action(cmd, None)
    } else if n == 1 {
        valued_action(cmd, Some(o as usize))
    } else {
        Action::CommandUnknownArgs { topic, from: o as usize }
    }
}

/// The action asked for by the arguments `a`.
pub open spec fn dispatch(a: Seq<Seq<char>>) -> Action {
    if a.len() >= 1 && a[0] == "config"@ {
        if a.len() >= 2 && a[1] == "heuristics"@ {
            plain_command(
                a,
                2,
                Topic::ConfigHeuristics,
                Action::PrintHeuristics,
                Some(("names"@, Action::PrintHeuristicNames)),
                None,
            )
        } else if a.len() >= 2 && a[1] == "profiles"@ {
            plain_command(
                a,
                2,
                Topic::ConfigProfiles,
                Action::PrintProfiles,
                Some(("global"@, Action::PrintGlobalProfile)),
                Some(("names"@, Action::PrintProfileNames)),
            )
        } else {
            plain_command(a, 1, Topic::Config, Action::PrintConfig, None, None)
        }
    } else if a.len() >= 1 && a[0] == "init"@ {
        value_command(a, 1, Topic::Init, None, true, ValueCommand::Init)
    } else if a.len() >= 1 && a[0] == "list"@ {
        plain_command(
            a,
            1,
            Topic::List,
            Action::PrintProjectList,
            Some(("names"@, Action::PrintProjectListNames)),
            None,
        )
    } else if a.len() >= 1 && a[0] == "refresh"@ {
        value_command(
            a,
            1,
            Topic::Refresh,
            Some(("--all"@, Action::RefreshAll)),
            true,
            ValueCommand::Refresh,
        )
    } else if a.len() >= 1 && a[0] == "remove"@ {
        value_command(a, 1, Topic::Remove, None, false, ValueCommand::Remove)
    } else if a.len() >= 1 && a[0] == "show"@ {
        if a.len() >= 2 && a[1] == "full"@ {
            value_command(
                a,
                2,
                Topic::ShowFull,
                None,
                false,
                ValueCommand::ShowFull,
            )
        } else if a.len() >= 2 && a[1] == "paths"@ {
            value_command(
                a,
                2,
                Topic::ShowPaths,
                None,
                true,
                ValueCommand::ShowPaths,
            )
        } else {
            plain_command(a, 1, Topic::Show, Action::ShowProjects { name: None }, None, None)
        }
    } else if a.len() >= 1 && a[0] == "sync"@ {
        value_command(
            a,
            1,
            Topic::Sync,
            Some(("--all"@, Action::SyncAll)),
            true,
            ValueCommand::Sync,
        )
    } else if a.len() >= 1 && a[0] == "version"@ {
        plain_command(a, 1, Topic::Version, Action::PrintVersion, None, None)
    } else if a.len() >= 2 && is_help_word(a[0]) && top_topic(a[1]) is Some {
        Action::CommandHelp { topic: top_topic(a[1])->0, with_version: false }
    } else if a.len() >= 1 && is_help_word(a[0]) {
        Action::Usage
    } else if a.len() == 0 {
        Action::MissingArgs
    } else {
        Action::UnknownArgs { from: 0 }
    }
}

/// The words of the command line that call command `t`.
pub open spec fn command_words(t: Topic) -> Seq<Seq<char>> {
    match t {
        Topic::Config => seq!["config"@],
        Topic::ConfigHeuristics => seq!["config"@, "heuristics"@],
        Topic::ConfigProfiles => seq!["config"@, "profiles"@],
        Topic::Init => seq!["init"@],
        Topic::List => seq!["list"@],
        Topic::Refresh => seq!["refresh"@],
        Topic::Remove => seq!["remove"@],
        Topic::Show => seq!["show"@],
        Topic::ShowFull => seq!["show"@, "full"@],
        Topic::ShowPaths => seq!["show"@, "paths"@],
        Topic::Sync => seq!["sync"@],
        Topic::Version => seq!["version"@],
    }
}

/// `--help` right after the words of any command asks for the version and
/// that command's help, whatever follows; it is never taken as the value of
/// a command that takes one.
pub proof fn law_help_after_command(a: Seq<Seq<char>>, t: Topic)
    requires
        a.len() > command_words(t).len(),
        a.subrange(0, command_words(t).len() as int) == command_words(t),
        a[command_words(t).len() as int] == "--help"@,
    ensures
        dispatch(a) == (Action::CommandHelp { topic: t, with_version: true }),
{
    reveal_strlit("config");
    reveal_strlit("heuristics");
    reveal_strlit("profiles");
    reveal_strlit("init");
    reveal_strlit("list");
    reveal_strlit("refresh");
    reveal_strlit("remove");
    reveal_strlit("show");
    reveal_strlit("full");
    reveal_strlit("paths");
    reveal_strlit("sync");
    reveal_strlit("version");
    reveal_strlit("--help");
    reveal_strlit("--all");
    reveal_strlit("names");
    reveal_strlit("global");
    let w = command_words(t);
    assert(a[0] == w[0]) by {
        assert(a.subrange(0, w.len() as int)[0] == a[0]);
    }
    if w.len() == 2 {
        assert(a[1] == w[1]) by {
            assert(a.subrange(0, w.len() as int)[1] == a[1]);
        }
    }
    let h = "--help"@;
    assert(h[0] != "config"@[0] && h[0] != "heuristics"@[0] && h[0] != "profiles"@[0]);
    assert(h[0] != "full"@[0] && h[0] != "paths"@[0] && h[0] != "names"@[0] && h[0] != "global"@[0]);
    assert(h.len() != "--all"@.len());
    assert(is_help_word(h));
    let ws = seq!["config"@, "init"@, "list"@, "refresh"@, "remove"@, "show"@, "sync"@, "version"@];
    assert(ws[3][2] != ws[4][2]);
    assert(ws[5][1] != ws[6][1]);
    assert forall|i: int, j: int| 0 <= i < j < ws.len() implies ws[i] != ws[j] by {
        if !((i == 3 && j == 4) || (i == 5 && j == 6)) {
            assert(ws[i][0] != ws[j][0]);
        } else if i == 3 {
            assert(ws[i][2] != ws[j][2]);
        } else {
            assert(ws[i][1] != ws[j][1]);
        }
    }
    assert("heuristics"@[0] != "profiles"@[0]);
    assert("full"@[0] != "paths"@[0]);
    assert(ws[0] == "config"@ && ws[1] == "init"@ && ws[2] == "list"@ && ws[3] == "refresh"@);
    assert(ws[4] == "remove"@ && ws[5] == "show"@ && ws[6] == "sync"@ && ws[7] == "version"@);
}

/// The words of the command line, with the distinctions between them that
/// the laws below rely on.
proof fn lemma_command_words_differ()
    ensures
        "config"@ != "init"@, "config"@ != "list"@, "config"@ != "refresh"@, "config"@ != "remove"@,
        "config"@ != "show"@, "config"@ != "sync"@, "config"@ != "version"@,
        "init"@ != "list"@, "init"@ != "refresh"@, "init"@ != "remove"@, "init"@ != "show"@,
        "init"@ != "sync"@, "init"@ != "version"@,
        "list"@ != "refresh"@, "list"@ != "remove"@, "list"@ != "show"@, "list"@ != "sync"@,
        "list"@ != "version"@,
        "refresh"@ != "remove"@, "refresh"@ != "show"@, "refresh"@ != "sync"@, "refresh"@ != "version"@,
        "remove"@ != "show"@, "remove"@ != "sync"@, "remove"@ != "version"@,
        "show"@ != "sync"@, "show"@ != "version"@, "sync"@ != "version"@,
        "heuristics"@ != "profiles"@, "full"@ != "paths"@,
        "help"@ != "names"@, "help"@ != "global"@, "help"@ != "heuristics"@, "help"@ != "profiles"@,
        "help"@ != "full"@, "help"@ != "paths"@,
        "--help"@ != "names"@, "--help"@ != "global"@, "--help"@ != "heuristics"@,
        "--help"@ != "profiles"@, "--help"@ != "full"@, "--help"@ != "paths"@,
{
    reveal_strlit("config");
    reveal_strlit("heuristics");
    reveal_strlit("profiles");
    reveal_strlit("init");
    reveal_strlit("list");
    reveal_strlit("refresh");
    reveal_strlit("remove");
    reveal_strlit("show");
    reveal_strlit("full");
    reveal_strlit("paths");
    reveal_strlit("sync");
    reveal_strlit("version");
    reveal_strlit("--help");
    reveal_strlit("help");
    reveal_strlit("names");
    reveal_strlit("global");
    let ws = seq!["config"@, "init"@, "list"@, "refresh"@, "remove"@, "show"@, "sync"@, "version"@];
    assert forall|i: int, j: int| 0 <= i < j < ws.len() implies ws[i] != ws[j] by {
        if i == 3 && j == 4 {
            assert(ws[i][2] != ws[j][2]);
        } else if i == 5 && j == 6 {
            assert(ws[i][1] != ws[j][1]);
        } else {
            assert(ws[i][0] != ws[j][0]);
        }
    }
    assert(ws[0] == "config"@ && ws[1] == "init"@ && ws[2] == "list"@ && ws[3] == "refresh"@);
    assert(ws[4] == "remove"@ && ws[5] == "show"@ && ws[6] == "sync"@ && ws[7] == "version"@);
    assert("heuristics"@[0] != "profiles"@[0]);
    assert("full"@[0] != "paths"@[0]);
    let hs = seq!["names"@, "global"@, "heuristics"@, "profiles"@, "full"@, "paths"@];
    assert(hs[0] == "names"@ && hs[1] == "global"@ && hs[2] == "heuristics"@);
    assert(hs[3] == "profiles"@ && hs[4] == "full"@ && hs[5] == "paths"@);
    assert forall|i: int| 0 <= i < hs.len() implies hs[i] != "help"@ && hs[i] != "--help"@ by {
        assert(hs[i][0] != "--help"@[0]);
        if i == 2 {
            assert(hs[i].len() != "help"@.len());
        } else {
            assert(hs[i][0] != "help"@[0]);
        }
    }
}

/// A command that takes a value, given the command's words and nothing
/// else, acts without a value when the value is optional (`init`,
/// `refresh`, `show paths`, `sync`), and given one more word that is
/// neither `--help` nor the command's flag (`--all`), acts on that word.
pub proof fn law_value_commands_take_their_value(x: Seq<char>)
    ensures
        dispatch(seq!["init"@]) == (Action::Init { name: None }),
        dispatch(seq!["refresh"@]) == (Action::Refresh { name: None }),
        dispatch(seq!["show"@, "paths"@]) == (Action::ShowPaths { name: None }),
        dispatch(seq!["sync"@]) == (Action::Sync { name: None }),
        x != "--help"@ ==> dispatch(seq!["init"@, x]) == (Action::Init { name: Some(1) }),
        x != "--help"@ ==> dispatch(seq!["remove"@, x]) == (Action::Remove { name: 1 }),
        x != "--help"@ ==> dispatch(seq!["show"@, "full"@, x]) == (Action::ShowProjects { name: Some(2) }),
        x != "--help"@ ==> dispatch(seq!["show"@, "paths"@, x]) == (Action::ShowPaths { name: Some(2) }),
        x != "--help"@ && x != "--all"@ ==> dispatch(seq!["refresh"@, x]) == (Action::Refresh { name: Some(1) }),
        x != "--help"@ && x != "--all"@ ==> dispatch(seq!["sync"@, x]) == (Action::Sync { name: Some(1) }),
        dispatch(seq!["refresh"@, "--all"@]) == Action::RefreshAll,
        dispatch(seq!["sync"@, "--all"@]) == Action::SyncAll,
{
    lemma_command_words_differ();
    reveal_strlit("--help");
    reveal_strlit("--all");
    assert("--all"@.len() != "--help"@.len());
}

/// `help` or `--help` right after the words of a command without a value
/// asks for the version and that command's help.
pub proof fn law_help_word_after_plain_command(a: Seq<Seq<char>>, t: Topic)
    requires
        t == Topic::Config || t == Topic::ConfigHeuristics || t == Topic::ConfigProfiles || t == Topic::List
            || t == Topic::Show || t == Topic::Version,
        a.len() > command_words(t).len(),
        a.subrange(0, command_words(t).len() as int) == command_words(t),
        is_help_word(a[command_words(t).len() as int]),
    ensures
        dispatch(a) == (Action::CommandHelp { topic: t, with_version: true }),
{
    lemma_command_words_differ();
    reveal_strlit("names");
    let w = command_words(t);
    assert(a[0] == w[0]) by {
        assert(a.subrange(0, w.len() as int)[0] == a[0]);
    }
    if w.len() == 2 {
        assert(a[1] == w[1]) by {
            assert(a.subrange(0, w.len() as int)[1] == a[1]);
        }
    }
}

/// Whether argument `i` exists and reads `w`.
fn arg_is(args: &[&str], i: usize, w: &str) -> (r: bool)
    ensures
        r == (i < args@.len() && args@[i as int]@ == w@),
{
    i < args.len() && text_eq(args[i], w)
}

/// Whether argument `i` exists and is `help` or `--help`.
fn arg_is_help(args: &[&str], i: usize) -> (r: bool)
    ensures
        r == (i < args@.len() && is_help_word(args@[i as int]@)),
{
    arg_is(args, i, "--help") || arg_is(args, i, "help")
}

/// The action of a command with the value-less form (see
/// `plain_command`).
fn plain(
    args: &[&str],
    o: usize,
    topic: Topic,
    bare: Action,
    word1: Option<(&str, Action)>,
    word2: Option<(&str, Action)>,
) -> (r: Action)
    requires
        o <= args@.len(),
    ensures
        r == plain_command(
            arg_texts(args@),
            o as int,
            topic,
            bare,
            match word1 {
                Some(p) => Some((p.0@, p.1)),
                None => None,
            },
            match word2 {
                Some(p) => Some((p.0@, p.1)),
                None => None,
            },
        ),
{
    let n = args.len() - o;
    let ghost a = arg_texts(args@);
    assert(o < args@.len() ==> a[o as int] == args@[o as int]@);
    if let Some((w, act)) = word1 {
        if n == 1 && arg_is(args, o, w) {
            return act;
        }
    }
    if let Some((w, act)) = word2 {
        if n == 1 && arg_is(args, o, w) {
            return act;
        }
    }
    if n >= 1 && arg_is_help(args, o) {
        Action::CommandHelp { topic, with_version: true }
    } else if n == 0 {
        bare
    } else {
        Action::CommandUnknownArgs { topic, from: o }
    }
}

/// The action of a command that takes a value (see `value_command`).
fn valued(
    args: &[&str],
    o: usize,
    topic: Topic,
    flag: Option<(&str, Action)>,
    optional: bool,
    cmd: ValueCommand,
) -> (r: Action)
    requires
        o <= args@.len(),
    ensures
        r == value_command(
            arg_texts(args@),
            o as int,
            topic,
            match flag {
                Some(p) => Some((p.0@, p.1)),
                None => None,
            },
            optional,
            cmd,
        ),
{
    let n = args.len() - o;
    let ghost a = arg_texts(args@);
    assert(o < args@.len() ==> a[o as int] == args@[o as int]@);
    if let Some((w, act)) = flag {
        if n == 1 && arg_is(args, o, w) {
            return act;
        }
    }
    if n >= 1 && arg_is(args, o, "--help") {
        Action::CommandHelp { topic, with_version: true }
    } else if optional && n == 0 {
        make_valued(cmd, None)
    } else if n == 1 {
        make_valued(cmd, Some(o))
    } else {
        Action::CommandUnknownArgs { topic, from: o }
    }
}

/// The top-level command called by argument `i`, if any.
fn topic_at(args: &[&str], i: usize) -> (r: Option<Topic>)
    requires
        i < args@.len(),
    ensures
        r == top_topic(args@[i as int]@),
{
    if arg_is(args, i, "config") {
        Some(Topic::Config)
    } else if arg_is(args, i, "init") {
        Some(Topic::Init)
    } else if arg_is(args, i, "list") {
        Some(Topic::List)
    } else if arg_is(args, i, "refresh") {
        Some(Topic::Refresh)
    } else if arg_is(args, i, "remove") {
        Some(Topic::Remove)
    } else if arg_is(args, i, "show") {
        Some(Topic::Show)
    } else if arg_is(args, i, "sync") {
        Some(Topic::Sync)
    } else if arg_is(args, i, "version") {
        Some(Topic::Version)
    } else {
        None
    }
}

/// The action that the command line `args` (without the program name) asks
/// for.
pub fn handle_args(args: &[&str]) -> (r: Action)
    ensures
        r == dispatch(arg_texts(args@)),
{
    let ghost a = arg_texts(args@);
    assert(args@.len() >= 1 ==> a[0] == args@[0]@);
    assert(args@.len() >= 2 ==> a[1] == args@[1]@);
    if arg_is(args, 0, "config") {
        if arg_is(args, 1, "heuristics") {
            plain(args, 2, Topic::ConfigHeuristics, Action::PrintHeuristics, Some(("names", Action::PrintHeuristicNames)), None)
        } else if arg_is(args, 1, "profiles") {
            plain(
                args,
                2,
                Topic::ConfigProfiles,
                Action::PrintProfiles,
                Some(("global", Action::PrintGlobalProfile)),
                Some(("names", Action::PrintProfileNames)),
            )
        } else {
            plain(args, 1, Topic::Config, Action::PrintConfig, None, None)
        }
    } else if arg_is(args, 0, "init") {
        valued(
            args,
            1,
            Topic::Init,
            None,
            true,
            ValueCommand::Init,
        )
    } else if arg_is(args, 0, "list") {
        plain(args, 1, Topic::List, Action::PrintProjectList, Some(("names", Action::PrintProjectListNames)), None)
    } else if arg_is(args, 0, "refresh") {
        valued(
            args,
            1,
            Topic::Refresh,
            Some(("--all", Action::RefreshAll)),
            true,
            ValueCommand::Refresh,
        )
    } else if arg_is(args, 0, "remove") {
        valued(
            args,
            1,
            Topic::Remove,
            None,
            false,
            ValueCommand::Remove,
        )
    } else if arg_is(args, 0, "show") {
        if arg_is(args, 1, "full") {
            valued(
                args,
                2,
                Topic::ShowFull,
                None,
                false,
            ValueCommand::ShowFull,
            )
        } else if arg_is(args, 1, "paths") {
            valued(
                args,
                2,
                Topic::ShowPaths,
                None,
                true,
            ValueCommand::ShowPaths,
            )
        } else {
            plain(args, 1, Topic::Show, Action::ShowProjects { name: None }, None, None)
        }
    } else if arg_is(args, 0, "sync") {
        valued(
            args,
            1,
            Topic::Sync,
            Some(("--all", Action::SyncAll)),
            true,
            ValueCommand::Sync,
        )
    } else if arg_is(args, 0, "version") {
        plain(args, 1, Topic::Version, Action::PrintVersion, None, None)
    } else if args.len() >= 2 && arg_is_help(args, 0) && topic_at(args, 1).is_some() {
        match topic_at(args, 1) {
            Some(t) => Action::CommandHelp { topic: t, with_version: false },
            None => Action::Usage,
        }
    } else if arg_is_help(args, 0) {
        Action::Usage
    } else if args.len() == 0 {
        Action::MissingArgs
    } else {
        Action::UnknownArgs { from: 0 }
    }
}

} // verus!
