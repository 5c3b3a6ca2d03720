//! The help texts of the command line.

use vstd::prelude::*;
use crate::args::{Topic, arg_texts, top_topic};
use crate::report::{join, join_texts};
use crate::glob::texts;

verus! {

/// The name of a command.
pub open spec fn topic_name(t: Topic) -> Seq<char> {
    match t {
        Topic::Config => "config"@,
        Topic::ConfigHeuristics => "heuristics"@,
        Topic::ConfigProfiles => "profiles"@,
        Topic::Init => "init"@,
        Topic::List => "list"@,
        Topic::Refresh => "refresh"@,
        Topic::Remove => "remove"@,
        Topic::Show => "show"@,
        Topic::ShowFull => "full"@,
        Topic::ShowPaths => "paths"@,
        Topic::Sync => "sync"@,
        Topic::Version => "version"@,
    }
}

/// The one-line help of a command.
pub open spec fn topic_help(t: Topic) -> Seq<char> {
    match t {
        Topic::Config => "print config.aeon"@,
        Topic::ConfigHeuristics => "print full heuristics"@,
        Topic::ConfigProfiles => "print full profiles"@,
        Topic::Init => "initialize sync project in current dir"@,
        Topic::List => "print project_files.aeon"@,
        Topic::Refresh => "refreshes all projects or specified project (update project folder list)"@,
        Topic::Remove => "remove a specific sync project (not synced files)"@,
        Topic::Show => "print all projects in full"@,
        Topic::ShowFull => "print project in full"@,
        Topic::ShowPaths => "print all or specific project paths (source and destination)"@,
        Topic::Sync => "sync the current directory or the specified sync project"@,
        Topic::Version => "print version number"@,
    }
}

/// A usage line and its explanation.
pub open spec fn help_line(usage: Seq<char>, text: Seq<char>) -> Seq<char> {
    "  "@ + usage + "\n  \t"@ + text + "\n"@
}

/// The short help of a command.
pub open spec fn cmd_help_text(t: Topic) -> Seq<char> {
    help_line(topic_name(t), topic_help(t))
}

/// The list of the top-level commands.
pub open spec fn command_list_text() -> Seq<char> {
    "args:\n"@ + cmd_help_text(Topic::Config) + cmd_help_text(Topic::Init) + cmd_help_text(Topic::List)
        + cmd_help_text(Topic::Refresh) + cmd_help_text(Topic::Remove) + cmd_help_text(Topic::Show)
        + cmd_help_text(Topic::Sync) + cmd_help_text(Topic::Version) + help_line("help, --help"@, "print help text"@)
}

/// The full help of a command without a value: its sub-commands, its
/// bare form, its one-word arguments, and its help.
pub open spec fn plain_help_text(t: Topic, subs: Seq<char>, args: Seq<char>) -> Seq<char> {
    let name = topic_name(t);
    (if subs.len() > 0 {
        "commands:\n"@ + subs + "\n"@
    } else {
        Seq::empty()
    }) + "args:\n"@ + help_line(name, topic_help(t)) + args + help_line(name + " help, --help"@, "print help text"@)
}

/// The full help of a command with a value (`value` is its placeholder).
pub open spec fn valued_help_text(t: Topic, value: Seq<char>, args: Seq<char>) -> Seq<char> {
    let name = topic_name(t);
    "args:\n"@ + help_line(name + " "@ + value, topic_help(t)) + args + help_line(name + " --help"@, "print help text"@)
}

/// The full help of a command.
pub open spec fn full_help_text(t: Topic) -> Seq<char> {
    match t {
        Topic::Config => plain_help_text(
            t,
            cmd_help_text(Topic::ConfigHeuristics) + cmd_help_text(Topic::ConfigProfiles),
            Seq::empty(),
        ),
        Topic::ConfigHeuristics => plain_help_text(
            t,
            Seq::empty(),
            help_line("heuristics names"@, "print only heuristic names"@),
        ),
        Topic::ConfigProfiles => plain_help_text(
            t,
            Seq::empty(),
            help_line("profiles global"@, "print global profile"@) + help_line(
                "profiles names"@,
                "print only profile names"@,
            ),
        ),
        Topic::Init => valued_help_text(t, "[TRUE]"@, Seq::empty()),
        Topic::List => plain_help_text(t, Seq::empty(), help_line("list names"@, "print only file names"@)),
        Topic::Refresh => valued_help_text(t, "[NAME]"@, help_line("refresh --all"@, "refresh all sync projects"@)),
        Topic::Remove => valued_help_text(t, "NAME"@, Seq::empty()),
        Topic::Show => plain_help_text(
            t,
            cmd_help_text(Topic::ShowFull) + cmd_help_text(Topic::ShowPaths),
            Seq::empty(),
        ),
        Topic::ShowFull => valued_help_text(t, "NAME"@, Seq::empty()),
        Topic::ShowPaths => valued_help_text(t, "[NAME]"@, Seq::empty()),
        Topic::Sync => valued_help_text(t, "[NAME]"@, help_line("sync --all"@, "sync all sync projects"@)),
        Topic::Version => plain_help_text(t, Seq::empty(), Seq::empty()),
    }
}

/// The first line of the help that shows the version.
pub open spec fn version_header(version: Seq<char>) -> Seq<char> {
    "Syncr "@ + version + "\n\n"@
}

/// The top-level commands, in the order in which the command list shows
/// them.
pub open spec fn top_commands() -> Seq<Topic> {
    seq![
        Topic::Config,
        Topic::Init,
        Topic::List,
        Topic::Refresh,
        Topic::Remove,
        Topic::Show,
        Topic::Sync,
        Topic::Version,
    ]
}

/// `needle` appears in `hay` at position `k`.
pub open spec fn occurs_at(needle: Seq<char>, hay: Seq<char>, k: int) -> bool {
    0 <= k && k + needle.len() <= hay.len() && hay.subrange(k, k + needle.len()) == needle
}

/// The top-level commands are exactly the commands that the command line
/// reaches by their own name.
pub proof fn law_top_commands_are_dispatched(t: Topic)
    ensures
        top_topic(topic_name(t)) == Some(t) <==> top_commands().contains(t),
{
    reveal_strlit("config");
    reveal_strlit("heuristics");
    reveal_strlit("profiles");
    reveal_strlit("init");
    reveal_strlit("list");
    reveal_strlit("refresh");
    reveal_strlit("remove");
    reveal_strlit("show");
    reveal_strlit("full");
    reveal_strlit("paths");
    reveal_strlit("sync");
    reveal_strlit("version");
    let tc = top_commands();
    assert(tc[0] == Topic::Config && tc[1] == Topic::Init && tc[2] == Topic::List && tc[3] == Topic::Refresh);
    assert(tc[4] == Topic::Remove && tc[5] == Topic::Show && tc[6] == Topic::Sync && tc[7] == Topic::Version);
    let ws = seq!["config"@, "init"@, "list"@, "refresh"@, "remove"@, "show"@, "sync"@, "version"@];
    let subs = seq!["heuristics"@, "profiles"@, "full"@, "paths"@];
    assert forall|i: int, j: int| 0 <= i < j < ws.len() implies ws[i] != ws[j] by {
        if i == 3 && j == 4 {
            assert(ws[i][2] != ws[j][2]);
        } else if i == 5 && j == 6 {
            assert(ws[i][1] != ws[j][1]);
        } else {
            assert(ws[i][0] != ws[j][0]);
        }
    }
    assert forall|i: int, j: int| 0 <= i < subs.len() && 0 <= j < ws.len() implies subs[i] != ws[j] by {
        if i == 3 && j == 2 {
            assert(subs[i].len() != ws[j].len());
        } else if i == 1 && j == 3 {
            assert(subs[i][1] != ws[j][1]);
        } else if i == 1 && j == 4 {
            assert(subs[i][1] != ws[j][1]);
        } else {
            assert(subs[i][0] != ws[j][0]);
        }
    }
    assert(ws[0] == "config"@ && ws[1] == "init"@ && ws[2] == "list"@ && ws[3] == "refresh"@);
    assert(ws[4] == "remove"@ && ws[5] == "show"@ && ws[6] == "sync"@ && ws[7] == "version"@);
    assert(subs[0] == "heuristics"@ && subs[1] == "profiles"@ && subs[2] == "full"@ && subs[3] == "paths"@);
    match t {
        Topic::ConfigHeuristics | Topic::ConfigProfiles | Topic::ShowFull | Topic::ShowPaths => {
            assert(!tc.contains(t)) by {
                if tc.contains(t) {
                    let k = choose|k: int| 0 <= k < tc.len() && tc[k] == t;
                    assert(tc[k] != t);
                }
            }
        },
        _ => {
            let k: int = match t {
                Topic::Config => 0,
                Topic::Init => 1,
                Topic::List => 2,
                Topic::Refresh => 3,
                Topic::Remove => 4,
                Topic::Show => 5,
                Topic::Sync => 6,
                _ => 7,
            };
            assert(tc[k] == t);
        },
    }
}

/// A help line is never empty.
proof fn lemma_help_line_nonempty(usage: Seq<char>, text: Seq<char>)
    ensures
        help_line(usage, text).len() > 0,
{
    reveal_strlit("  ");
}

/// `x` sits right after `a` in `a + x + b`.
proof fn lemma_occurs_after(a: Seq<char>, x: Seq<char>, b: Seq<char>)
    ensures
        occurs_at(x, a + x + b, a.len() as int),
{
    assert((a + x + b).subrange(a.len() as int, a.len() as int + x.len()) =~= x);
}

/// The command list shows the short help of the `i`-th top-level command at
/// position `ks[i]`, and these positions increase.
pub open spec fn lists_commands_at(ks: Seq<int>) -> bool {
    &&& ks.len() == top_commands().len()
    &&& forall|i: int, j: int| 0 <= i < j < ks.len() ==> #[trigger] ks[i] < #[trigger] ks[j]
    &&& forall|i: int| 0 <= i < ks.len() ==> occurs_at(
        cmd_help_text(#[trigger] top_commands()[i]),
        command_list_text(),
        ks[i],
    )
}

/// The command list shows the short help of every top-level command, one
/// after the other, in the order of `top_commands`.
#[verifier::rlimit(60)]
pub proof fn law_command_list_shows_every_command()
    ensures
        exists|ks: Seq<int>| #[trigger] lists_commands_at(ks),
{
    let tc = top_commands();
    let c0 = cmd_help_text(Topic::Config);
    let c1 = cmd_help_text(Topic::Init);
    let c2 = cmd_help_text(Topic::List);
    let c3 = cmd_help_text(Topic::Refresh);
    let c4 = cmd_help_text(Topic::Remove);
    let c5 = cmd_help_text(Topic::Show);
    let c6 = cmd_help_text(Topic::Sync);
    let c7 = cmd_help_text(Topic::Version);
    let hl = help_line("help, --help"@, "print help text"@);
    let h = "args:\n"@;
    let t = command_list_text();
    lemma_help_line_nonempty(topic_name(Topic::Config), topic_help(Topic::Config));
    lemma_help_line_nonempty(topic_name(Topic::Init), topic_help(Topic::Init));
    lemma_help_line_nonempty(topic_name(Topic::List), topic_help(Topic::List));
    lemma_help_line_nonempty(topic_name(Topic::Refresh), topic_help(Topic::Refresh));
    lemma_help_line_nonempty(topic_name(Topic::Remove), topic_help(Topic::Remove));
    lemma_help_line_nonempty(topic_name(Topic::Show), topic_help(Topic::Show));
    lemma_help_line_nonempty(topic_name(Topic::Sync), topic_help(Topic::Sync));
    let p0 = h;
    let p1 = p0 + c0;
    let p2 = p1 + c1;
    let p3 = p2 + c2;
    let p4 = p3 + c3;
    let p5 = p4 + c4;
    let p6 = p5 + c5;
    let p7 = p6 + c6;
    assert(t == p7 + c7 + hl);
    lemma_occurs_after(p0, c0, c1 + c2 + c3 + c4 + c5 + c6 + c7 + hl);
    assert(t =~= p0 + c0 + (c1 + c2 + c3 + c4 + c5 + c6 + c7 + hl));
    lemma_occurs_after(p1, c1, c2 + c3 + c4 + c5 + c6 + c7 + hl);
    assert(t =~= p1 + c1 + (c2 + c3 + c4 + c5 + c6 + c7 + hl));
    lemma_occurs_after(p2, c2, c3 + c4 + c5 + c6 + c7 + hl);
    assert(t =~= p2 + c2 + (c3 + c4 + c5 + c6 + c7 + hl));
    lemma_occurs_after(p3, c3, c4 + c5 + c6 + c7 + hl);
    assert(t =~= p3 + c3 + (c4 + c5 + c6 + c7 + hl));
    lemma_occurs_after(p4, c4, c5 + c6 + c7 + hl);
    assert(t =~= p4 + c4 + (c5 + c6 + c7 + hl));
    lemma_occurs_after(p5, c5, c6 + c7 + hl);
    assert(t =~= p5 + c5 + (c6 + c7 + hl));
    lemma_occurs_after(p6, c6, c7 + hl);
    assert(t =~= p6 + c6 + (c7 + hl));
    lemma_occurs_after(p7, c7, hl);
    let ks = seq![
        p0.len() as int,
        p1.len() as int,
        p2.len() as int,
        p3.len() as int,
        p4.len() as int,
        p5.len() as int,
        p6.len() as int,
        p7.len() as int,
    ];
    assert(tc[0] == Topic::Config && tc[1] == Topic::Init && tc[2] == Topic::List && tc[3] == Topic::Refresh);
    assert(tc[4] == Topic::Remove && tc[5] == Topic::Show && tc[6] == Topic::Sync && tc[7] == Topic::Version);
    assert forall|i: int, j: int| 0 <= i < j < ks.len() implies #[trigger] ks[i] < #[trigger] ks[j] by {}
    assert forall|i: int| 0 <= i < ks.len() implies occurs_at(cmd_help_text(#[trigger] tc[i]), t, ks[i]) by {}
    assert(lists_commands_at(ks));
}

// ------------------------------------------------------------------------

/// The name of a command.
pub fn name_of(t: Topic) -> (r: &'static str)
    ensures
        r@ == topic_name(t),
{
    match t {
        Topic::Config => "config",
        Topic::ConfigHeuristics => "heuristics",
        Topic::ConfigProfiles => "profiles",
        Topic::Init => "init",
        Topic::List => "list",
        Topic::Refresh => "refresh",
        Topic::Remove => "remove",
        Topic::Show => "show",
        Topic::ShowFull => "full",
        Topic::ShowPaths => "paths",
        Topic::Sync => "sync",
        Topic::Version => "version",
    }
}

fn help_of(t: Topic) -> (r: &'static str)
    ensures
        r@ == topic_help(t),
{
    match t {
        Topic::Config => "print config.aeon",
        Topic::ConfigHeuristics => "print full heuristics",
        Topic::ConfigProfiles => "print full profiles",
        Topic::Init => "initialize sync project in current dir",
        Topic::List => "print project_files.aeon",
        Topic::Refresh => "refreshes all projects or specified project (update project folder list)",
        Topic::Remove => "remove a specific sync project (not synced files)",
        Topic::Show => "print all projects in full",
        Topic::ShowFull => "print project in full",
        Topic::ShowPaths => "print all or specific project paths (source and destination)",
        Topic::Sync => "sync the current directory or the specified sync project",
        Topic::Version => "print version number",
    }
}

fn push_help_line(s: &mut String, usage: &str, text: &str)
    ensures
        final(s)@ == old(s)@ + help_line(usage@, text@),
{
    s.append("  ");
    s.append(usage);
    s.append("\n  \t");
    s.append(text);
    s.append("\n");
}

fn push_cmd_help(s: &mut String, t: Topic)
    ensures
        final(s)@ == old(s)@ + cmd_help_text(t),
{
    push_help_line(s, name_of(t), help_of(t));
}

/// The list of the top-level commands.
pub fn command_list() -> (r: String)
    ensures
        r@ == command_list_text(),
{
    let mut s = String::new();
    s.append("args:\n");
    push_cmd_help(&mut s, Topic::Config);
    push_cmd_help(&mut s, Topic::Init);
    push_cmd_help(&mut s, Topic::List);
    push_cmd_help(&mut s, Topic::Refresh);
    push_cmd_help(&mut s, Topic::Remove);
    push_cmd_help(&mut s, Topic::Show);
    push_cmd_help(&mut s, Topic::Sync);
    push_cmd_help(&mut s, Topic::Version);
    push_help_line(&mut s, "help, --help", "print help text");
    s
}

fn plain_help(t: Topic, subs: &str, args: &str) -> (r: String)
    ensures
        r@ == plain_help_text(t, subs@, args@),
{
    let name = name_of(t);
    let mut s = String::new();
    if subs.unicode_len() > 0 {
        s.append("commands:\n");
        s.append(subs);
        s.append("\n");
    }
    s.append("args:\n");
    push_help_line(&mut s, name, help_of(t));
    s.append(args);
    let mut usage = String::from_str(name);
    usage.append(" help, --help");
    push_help_line(&mut s, usage.as_str(), "print help text");
    s
}

fn valued_help(t: Topic, value: &str, args: &str) -> (r: String)
    ensures
        r@ == valued_help_text(t, value@, args@),
{
    let name = name_of(t);
    let mut s = String::new();
    s.append("args:\n");
    let mut usage = String::from_str(name);
    usage.append(" ");
    usage.append(value);
    push_help_line(&mut s, usage.as_str(), help_of(t));
    s.append(args);
    let mut help_usage = String::from_str(name);
    help_usage.append(" --help");
    push_help_line(&mut s, help_usage.as_str(), "print help text");
    s
}

fn lines2(t1: Topic, t2: Topic) -> (r: String)
    ensures
        r@ == cmd_help_text(t1) + cmd_help_text(t2),
{
    let mut s = String::new();
    push_cmd_help(&mut s, t1);
    push_cmd_help(&mut s, t2);
    s
}

fn arg_lines(usage: &str, text: &str) -> (r: String)
    ensures
        r@ == help_line(usage@, text@),
{
    let mut s = String::new();
    push_help_line(&mut s, usage, text);
    s
}

/// The full help of a command.
pub fn full_help(t: Topic) -> (r: String)
    ensures
        r@ == full_help_text(t),
{
    proof {
        reveal_strlit("");
    }
    assert(""@ =~= Seq::<char>::empty());
    match t {
        Topic::Config => plain_help(t, lines2(Topic::ConfigHeuristics, Topic::ConfigProfiles).as_str(), ""),
        Topic::ConfigHeuristics => plain_help(
            t,
            "",
            arg_lines("heuristics names", "print only heuristic names").as_str(),
        ),
        Topic::ConfigProfiles => {
            let mut a = arg_lines("profiles global", "print global profile");
            push_help_line(&mut a, "profiles names", "print only profile names");
            plain_help(t, "", a.as_str())
        },
        Topic::Init => valued_help(t, "[TRUE]", ""),
        Topic::List => plain_help(t, "", arg_lines("list names", "print only file names").as_str()),
        Topic::Refresh => valued_help(t, "[NAME]", arg_lines("refresh --all", "refresh all sync projects").as_str()),
        Topic::Remove => valued_help(t, "NAME", ""),
        Topic::Show => plain_help(t, lines2(Topic::ShowFull, Topic::ShowPaths).as_str(), ""),
        Topic::ShowFull => valued_help(t, "NAME", ""),
        Topic::ShowPaths => valued_help(t, "[NAME]", ""),
        Topic::Sync => valued_help(t, "[NAME]", arg_lines("sync --all", "sync all sync projects").as_str()),
        Topic::Version => plain_help(t, "", ""),
    }
}

/// The first line of the help that shows the version.
pub fn version_line(version: &str) -> (r: String)
    ensures
        r@ == version_header(version@),
{
    let mut s = String::from_str("Syncr ");
    s.append(version);
    s.append("\n\n");
    s
}

/// The arguments from `from` on, separated by `', '`.
pub fn remaining_args(args: &[&str], from: usize) -> (r: String)
    requires
        from <= args@.len(),
    ensures
        r@ == join(arg_texts(args@).subrange(from as int, args@.len() as int), "', '"@),
{
    let mut v: Vec<String> = Vec::new();
    let mut i: usize = from;
    let ghost a = arg_texts(args@);
    while i < args.len()
        invariant
            a == arg_texts(args@),
            a.len() == args@.len(),
            from <= i <= args@.len(),
            texts(v@) == a.subrange(from as int, i as int),
        decreases args.len() - i,
    {
        v.push(String::from_str(args[i]));
        assert(a[i as int] == args@[i as int]@);
        assert(a.subrange(from as int, i + 1) == a.subrange(from as int, i as int).push(a[i as int]));
        i = i + 1;
    }
    join_texts(&v, "', '")
}


/// What is printed when no argument is given: a notice, then the list of
/// commands.
pub open spec fn missing_args_message() -> Seq<char> {
    "Syncr requires at least one arg\n\n"@ + command_list_text()
}

/// What is printed for an unknown top-level command: the arguments from
/// `from` on, quoted and separated by commas, then the list of commands.
pub open spec fn unknown_args_message(a: Seq<Seq<char>>, from: int) -> Seq<char> {
    "Unknown args: '"@ + join(a.subrange(from, a.len() as int), "', '"@) + "'\n\n"@ + command_list_text()
}

/// What is printed for arguments that a command does not know: the
/// command's name and the arguments from `from` on, then its full help.
pub open spec fn command_unknown_args_message(t: Topic, a: Seq<Seq<char>>, from: int) -> Seq<char> {
    "Unknown args to "@ + topic_name(t) + ": '"@ + join(a.subrange(from, a.len() as int), "', '"@)
        + "'\n\n"@ + full_help_text(t)
}

/// What `help` or `--help` alone prints: the version, then the list of
/// commands.
pub open spec fn usage_message(version: Seq<char>) -> Seq<char> {
    version_header(version) + command_list_text()
}

/// What the help of a command prints: the version first when asked for,
/// then the command's full help.
pub open spec fn command_help_message(t: Topic, with_version: bool, version: Seq<char>) -> Seq<char> {
    (if with_version {
        version_header(version)
    } else {
        Seq::empty()
    }) + full_help_text(t)
}

/// What is printed when no argument is given.
pub fn missing_args_text() -> (r: String)
    ensures
        r@ == missing_args_message(),
{
    let mut s = String::from_str("Syncr requires at least one arg\n\n");
    let list = command_list();
    s.append(list.as_str());
    s
}

/// What is printed for an unknown top-level command, whose arguments start
/// at `from`.
pub fn unknown_args_text(args: &[&str], from: usize) -> (r: String)
    requires
        from <= args@.len(),
    ensures
        r@ == unknown_args_message(arg_texts(args@), from as int),
{
    let mut s = String::from_str("Unknown args: '");
    let rest = remaining_args(args, from);
    s.append(rest.as_str());
    s.append("'\n\n");
    let list = command_list();
    s.append(list.as_str());
    s
}

/// What is printed for arguments from `from` on that command `t` does not
/// know.
pub fn command_unknown_args_text(t: Topic, args: &[&str], from: usize) -> (r: String)
    requires
        from <= args@.len(),
    ensures
        r@ == command_unknown_args_message(t, arg_texts(args@), from as int),
{
    let mut s = String::from_str("Unknown args to ");
    s.append(name_of(t));
    s.append(": '");
    let rest = remaining_args(args, from);
    s.append(rest.as_str());
    s.append("'\n\n");
    let help = full_help(t);
    s.append(help.as_str());
    s
}

/// What `help` or `--help` alone prints.
pub fn usage_text(version: &str) -> (r: String)
    ensures
        r@ == usage_message(version@),
{
    let mut s = version_line(version);
    let list = command_list();
    s.append(list.as_str());
    s
}

/// What the help of command `t` prints.
pub fn command_help_text(t: Topic, with_version: bool, version: &str) -> (r: String)
    ensures
        r@ == command_help_message(t, with_version, version@),
{
    let help = full_help(t);
    if with_version {
        let mut s = version_line(version);
        s.append(help.as_str());
        s
    } else {
        assert(Seq::<char>::empty() + help@ == help@);
        help
    }
}

} // verus!
