//! The texts that the program prints about the configuration and the sync
//! projects.
//!
//! Strings are shown as std's `Debug` shows them (quoted and escaped); that
//! form is named here (`debug_quoted`), not restated.  Lists of strings are
//! shown as `[` + the shown items separated by `, ` + `]`, as std's `Debug`
//! for slices does.

use vstd::prelude::*;
use crate::config::{Config, Heuristic, ProjectType, SyncProfile};
use crate::glob::texts;
use crate::project::{ProjectDir, ProjectFiles, Projects};
use crate::util::{decimal, push_decimal};

verus! {

/// How std's `Debug` shows the string `s`.
pub uninterp spec fn debug_quoted(s: Seq<char>) -> Seq<char>;

/// `s` as std's `Debug` for `str` shows it.
///
/// Trusted: the result is `debug_quoted` of the text, a function of the text
/// alone (`format!("{:?}", s)` quotes it and escapes with
/// `char::escape_debug`).  The escaping rules are left unsaid.
#[verifier::external_body]
fn debug_text(s: &str) -> (r: String)
    ensures
        r@ == debug_quoted(s@),
{
    format!("{:?}", s)
}

/// `parts` separated by `sep`.
pub open spec fn join(parts: Seq<Seq<char>>, sep: Seq<char>) -> Seq<char>
    decreases parts.len(),
{
    if parts.len() == 0 {
        Seq::empty()
    } else if parts.len() == 1 {
        parts[0]
    } else {
        join(parts.drop_last(), sep) + sep + parts.last()
    }
}

/// A list of strings as std's `Debug` shows it.
pub open spec fn debug_list(items: Seq<Seq<char>>) -> Seq<char> {
    "["@ + join(items.map_values(|s: Seq<char>| debug_quoted(s)), ", "@) + "]"@
}

/// The decimal text of `i`, with a `-` when it is negative.
pub open spec fn int_text(i: int) -> Seq<char> {
    if i < 0 {
        seq!['-'] + decimal((-i) as nat)
    } else {
        decimal(i as nat)
    }
}

/// A weighted pattern: `{ value: "v", weight: w }`.
pub open spec fn heuristic_text(h: Heuristic) -> Seq<char> {
    "{ value: "@ + debug_quoted(h.value@) + ", weight: "@ + int_text(h.weight as int) + " }"@
}

/// The heuristics of a project type, separated by `, `.
pub open spec fn heuristics_text(hs: Seq<Heuristic>) -> Seq<char> {
    join(hs.map_values(|h: Heuristic| heuristic_text(h)), ", "@)
}

/// A project type, on one line or (`block`) one field per line.
pub open spec fn project_type_text(p: ProjectType, block: bool) -> Seq<char> {
    let sep = if block { ",\n  "@ } else { ", "@ };
    let end = if block { "\n}"@ } else { " }"@ };
    "{ name: "@ + debug_quoted(p.name@) + sep + "folders: ["@ + heuristics_text(p.folders@) + "]"@ + sep
        + "files: ["@ + heuristics_text(p.files@) + "]"@ + end
}

/// A sync profile, on one line or (`block`) one field per line.
pub open spec fn profile_text(p: SyncProfile, block: bool) -> Seq<char> {
    let sep = if block { ",\n  "@ } else { ", "@ };
    let end = if block { "\n}"@ } else { " }"@ };
    "{ name: "@ + debug_quoted(p.name@) + sep + "skip_folders: "@ + debug_list(texts(p.skip_folders@)) + sep
        + "skip_files: "@ + debug_list(texts(p.skip_files@)) + end
}

/// What `config` prints.
pub open spec fn config_report_text(config: Config, files: Seq<Seq<char>>) -> Seq<char> {
    "[Config]\nProjects: ["@ + join(files, ", "@) + "]\n"@
        + "Heuristics skip folders: "@ + debug_list(texts(config.heuristic_skip_folders@)) + "\n\n"@
        + "[Profile heuristics]\n"@ + join(config.heuristics@.map_values(|p: ProjectType| project_type_text(p, false)), "\n"@) + "\n\n"@
        + "[Sync profiles]\n"@ + profile_text(config.global_profile, false) + "\n"@
        + join(config.profiles@.map_values(|p: SyncProfile| profile_text(p, false)), "\n"@) + "\n\n"@
}

/// What `config heuristics` prints.
pub open spec fn heuristics_report_text(config: Config) -> Seq<char> {
    "[Global]\nHeuristics skip folders: "@ + debug_list(texts(config.heuristic_skip_folders@)) + "\n\n"@
        + "[Profile heuristics]\n"@ + join(config.heuristics@.map_values(|p: ProjectType| project_type_text(p, true)), "\n"@) + "\n"@
}

/// What `config profiles` prints.
pub open spec fn profiles_report_text(config: Config) -> Seq<char> {
    "[Global]\n"@ + profile_text(config.global_profile, false) + "\n\n"@
        + "[Sync profiles]\n"@ + join(config.profiles@.map_values(|p: SyncProfile| profile_text(p, true)), "\n"@) + "\n"@
}

/// What `list` prints.
pub open spec fn project_list_text(files: Seq<Seq<char>>) -> Seq<char> {
    "[Projects]\n"@ + if files.len() > 0 {
        "project_files: [\n  \""@ + join(files, "\",\n  \""@) + "\",\n]\n"@
    } else {
        "project_files: []\n"@
    }
}

/// An ignored folder of a project: `{ "name" }`.
pub open spec fn ignored_text(name: Seq<char>) -> Seq<char> {
    "{ \""@ + name + "\" }"@
}

/// A project folder: `{ root: "r", profiles: [..] }`.
pub open spec fn project_dir_text(d: ProjectDir) -> Seq<char> {
    "{ root: "@ + debug_quoted(d.root@) + ", profiles: "@ + debug_list(texts(d.profiles@)) + " }"@
}

/// What `show` prints for one project.
pub open spec fn project_text(p: Projects) -> Seq<char> {
    "["@ + p.name@ + "]\nSource: "@ + debug_quoted(p.source@) + "\nDestination: "@ + debug_quoted(p.destination@)
        + "\nIgnored projects:\n"@ + join(texts(p.ignored_projects@).map_values(|n: Seq<char>| ignored_text(n)), "\n"@)
        + "\n\nProjects:\n"@ + join(p.projects@.map_values(|d: ProjectDir| project_dir_text(d)), "\n"@) + "\n"@
}

/// What `show paths` prints for one project.
pub open spec fn project_paths_text(p: Projects) -> Seq<char> {
    "["@ + p.name@ + "]\nSource: "@ + debug_quoted(p.source@) + "\nDestination: "@ + debug_quoted(p.destination@)
        + "\n\n"@
}

// ------------------------------------------------------------------------
// Laws of the reports.

/// `needle` appears somewhere in `hay`.
pub open spec fn occurs_in(needle: Seq<char>, hay: Seq<char>) -> bool {
    exists|k: int| 0 <= k && k + needle.len() <= hay.len() && #[trigger] hay.subrange(k, k + needle.len()) == needle
}

/// A text occurs in itself.
proof fn lemma_occurs_in_itself(x: Seq<char>)
    ensures
        occurs_in(x, x),
{
    let k: int = 0;
    assert(x.subrange(k, k + x.len()) =~= x);
}

/// Text found in `x` is found in `a + x + b`.
proof fn lemma_occurs_between(needle: Seq<char>, a: Seq<char>, x: Seq<char>, b: Seq<char>)
    requires
        occurs_in(needle, x),
    ensures
        occurs_in(needle, a + x + b),
{
    let k = choose|k: int| 0 <= k && k + needle.len() <= x.len() && #[trigger] x.subrange(k, k + needle.len()) == needle;
    let h = a + x + b;
    let k2 = k + a.len();
    assert(h.subrange(k2, k2 + needle.len()) =~= needle) by {
        assert forall|i: int| 0 <= i < needle.len() implies h.subrange(k2, k2 + needle.len())[i] == needle[i] by {
            assert(h[k2 + i] == x[k + i]);
            assert(x.subrange(k, k + needle.len())[i] == x[k + i]);
        }
    }
}

/// Every part of a join appears in it.
proof fn lemma_occurs_in_join(parts: Seq<Seq<char>>, sep: Seq<char>, i: int)
    requires
        0 <= i < parts.len(),
    ensures
        occurs_in(parts[i], join(parts, sep)),
    decreases parts.len(),
{
    let j = join(parts, sep);
    if parts.len() == 1 {
        lemma_occurs_in_itself(parts[i]);
    } else {
        let d = parts.drop_last();
        let jd = join(d, sep);
        assert(j == jd + sep + parts.last());
        if i == parts.len() - 1 {
            lemma_occurs_in_itself(parts[i]);
            lemma_occurs_between(parts[i], jd + sep, parts[i], Seq::<char>::empty());
            assert(jd + sep + parts[i] + Seq::<char>::empty() =~= j);
        } else {
            lemma_occurs_in_join(d, sep, i);
            assert(d[i] == parts[i]);
            lemma_occurs_between(parts[i], Seq::<char>::empty(), jd, sep + parts.last());
            assert(Seq::<char>::empty() + jd + (sep + parts.last()) =~= j);
        }
    }
}

/// The report of a project shows every one of its project folders and
/// every one of its ignored folders.
pub proof fn law_project_report_shows_every_folder(p: Projects)
    ensures
        forall|i: int| 0 <= i < p.projects@.len() ==> occurs_in(project_dir_text(#[trigger] p.projects@[i]), project_text(p)),
        forall|i: int| 0 <= i < p.ignored_projects@.len() ==> occurs_in(ignored_text((#[trigger] p.ignored_projects@[i])@), project_text(p)),
{
    let dirs = p.projects@.map_values(|d: ProjectDir| project_dir_text(d));
    let ign = texts(p.ignored_projects@).map_values(|n: Seq<char>| ignored_text(n));
    let a1 = "["@ + p.name@ + "]\nSource: "@ + debug_quoted(p.source@) + "\nDestination: "@ + debug_quoted(p.destination@)
        + "\nIgnored projects:\n"@;
    let b1 = "\n\nProjects:\n"@ + join(dirs, "\n"@) + "\n"@;
    let a2 = a1 + join(ign, "\n"@) + "\n\nProjects:\n"@;
    assert(project_text(p) =~= a1 + join(ign, "\n"@) + b1);
    assert(project_text(p) =~= a2 + join(dirs, "\n"@) + "\n"@);
    assert forall|i: int| 0 <= i < p.projects@.len() implies occurs_in(project_dir_text(#[trigger] p.projects@[i]), project_text(p)) by {
        lemma_occurs_in_join(dirs, "\n"@, i);
        lemma_occurs_between(dirs[i], a2, join(dirs, "\n"@), "\n"@);
    }
    assert forall|i: int| 0 <= i < p.ignored_projects@.len() implies occurs_in(ignored_text((#[trigger] p.ignored_projects@[i])@), project_text(p)) by {
        assert(texts(p.ignored_projects@)[i] == p.ignored_projects@[i]@);
        lemma_occurs_in_join(ign, "\n"@, i);
        lemma_occurs_between(ign[i], a1, join(ign, "\n"@), b1);
    }
}

/// A project with one more project folder `d` is reported as before, with
/// the line of `d` added after the last folder's line.
pub proof fn law_project_report_grows(p: Projects, q: Projects, d: ProjectDir)
    requires
        q.name@ == p.name@,
        q.source@ == p.source@,
        q.destination@ == p.destination@,
        q.ignored_projects@ == p.ignored_projects@,
        q.projects@ == p.projects@.push(d),
        p.projects@.len() > 0,
    ensures
        project_text(q) == project_text(p).drop_last() + "\n"@ + project_dir_text(d) + "\n"@,
{
    reveal_strlit("\n");
    let dp = p.projects@.map_values(|x: ProjectDir| project_dir_text(x));
    let dq = q.projects@.map_values(|x: ProjectDir| project_dir_text(x));
    assert(dq =~= dp.push(project_dir_text(d)));
    assert(dq.drop_last() =~= dp);
    assert(join(dq, "\n"@) == join(dp, "\n"@) + "\n"@ + project_dir_text(d));
    let a = "["@ + p.name@ + "]\nSource: "@ + debug_quoted(p.source@) + "\nDestination: "@ + debug_quoted(p.destination@)
        + "\nIgnored projects:\n"@ + join(texts(p.ignored_projects@).map_values(|n: Seq<char>| ignored_text(n)), "\n"@)
        + "\n\nProjects:\n"@;
    assert(project_text(p) =~= a + join(dp, "\n"@) + "\n"@);
    assert(project_text(q) =~= a + join(dq, "\n"@) + "\n"@);
    assert((a + join(dp, "\n"@) + "\n"@).drop_last() =~= a + join(dp, "\n"@));
}

/// A shown list of strings shows every one of its strings, quoted.
pub proof fn law_debug_list_shows_every_item(items: Seq<Seq<char>>)
    ensures
        forall|i: int| 0 <= i < items.len() ==> occurs_in(debug_quoted(#[trigger] items[i]), debug_list(items)),
{
    let q = items.map_values(|s: Seq<char>| debug_quoted(s));
    assert forall|i: int| 0 <= i < items.len() implies occurs_in(debug_quoted(#[trigger] items[i]), debug_list(items)) by {
        lemma_occurs_in_join(q, ", "@, i);
        lemma_occurs_between(q[i], "["@, join(q, ", "@), "]"@);
    }
}

/// A shown project type shows every one of its folder and file heuristics.
pub proof fn law_project_type_shows_every_heuristic(p: ProjectType, block: bool)
    ensures
        forall|i: int| 0 <= i < p.folders@.len() ==> occurs_in(heuristic_text(#[trigger] p.folders@[i]), project_type_text(p, block)),
        forall|i: int| 0 <= i < p.files@.len() ==> occurs_in(heuristic_text(#[trigger] p.files@[i]), project_type_text(p, block)),
{
    let sep = if block { ",\n  "@ } else { ", "@ };
    let end = if block { "\n}"@ } else { " }"@ };
    let fo = p.folders@.map_values(|h: Heuristic| heuristic_text(h));
    let fi = p.files@.map_values(|h: Heuristic| heuristic_text(h));
    let a1 = "{ name: "@ + debug_quoted(p.name@) + sep + "folders: ["@;
    let b1 = "]"@ + sep + "files: ["@ + heuristics_text(p.files@) + "]"@ + end;
    let a2 = a1 + heuristics_text(p.folders@) + "]"@ + sep + "files: ["@;
    let b2 = "]"@ + end;
    assert(project_type_text(p, block) =~= a1 + join(fo, ", "@) + b1);
    assert(project_type_text(p, block) =~= a2 + join(fi, ", "@) + b2);
    assert forall|i: int| 0 <= i < p.folders@.len() implies occurs_in(heuristic_text(#[trigger] p.folders@[i]), project_type_text(p, block)) by {
        lemma_occurs_in_join(fo, ", "@, i);
        lemma_occurs_between(fo[i], a1, join(fo, ", "@), b1);
    }
    assert forall|i: int| 0 <= i < p.files@.len() implies occurs_in(heuristic_text(#[trigger] p.files@[i]), project_type_text(p, block)) by {
        lemma_occurs_in_join(fi, ", "@, i);
        lemma_occurs_between(fi[i], a2, join(fi, ", "@), b2);
    }
}

/// The configuration report shows every project file, every project type
/// and every sync profile of the configuration.
#[verifier::rlimit(60)]
pub proof fn law_config_report_shows_everything(config: Config, files: Seq<Seq<char>>)
    ensures
        forall|i: int| 0 <= i < files.len() ==> occurs_in(#[trigger] files[i], config_report_text(config, files)),
        forall|i: int| 0 <= i < config.heuristics@.len() ==> occurs_in(
            project_type_text(#[trigger] config.heuristics@[i], false),
            config_report_text(config, files),
        ),
        forall|i: int| 0 <= i < config.profiles@.len() ==> occurs_in(
            profile_text(#[trigger] config.profiles@[i], false),
            config_report_text(config, files),
        ),
{
    let hs = config.heuristics@.map_values(|p: ProjectType| project_type_text(p, false));
    let ps = config.profiles@.map_values(|p: SyncProfile| profile_text(p, false));
    let t = config_report_text(config, files);
    let a0 = "[Config]\nProjects: ["@;
    let b0 = "]\n"@ + "Heuristics skip folders: "@ + debug_list(texts(config.heuristic_skip_folders@)) + "\n\n"@
        + "[Profile heuristics]\n"@ + join(hs, "\n"@) + "\n\n"@
        + "[Sync profiles]\n"@ + profile_text(config.global_profile, false) + "\n"@
        + join(ps, "\n"@) + "\n\n"@;
    let a1 = a0 + join(files, ", "@) + "]\n"@ + "Heuristics skip folders: "@ + debug_list(texts(config.heuristic_skip_folders@))
        + "\n\n"@ + "[Profile heuristics]\n"@;
    let b1 = "\n\n"@ + "[Sync profiles]\n"@ + profile_text(config.global_profile, false) + "\n"@
        + join(ps, "\n"@) + "\n\n"@;
    let a2 = a1 + join(hs, "\n"@) + "\n\n"@ + "[Sync profiles]\n"@ + profile_text(config.global_profile, false) + "\n"@;
    let b2 = "\n\n"@;
    assert(t =~= a0 + join(files, ", "@) + b0);
    assert(t =~= a1 + join(hs, "\n"@) + b1);
    assert(t =~= a2 + join(ps, "\n"@) + b2);
    assert forall|i: int| 0 <= i < files.len() implies occurs_in(#[trigger] files[i], t) by {
        lemma_occurs_in_join(files, ", "@, i);
        lemma_occurs_between(files[i], a0, join(files, ", "@), b0);
    }
    assert forall|i: int| 0 <= i < config.heuristics@.len() implies occurs_in(
        project_type_text(#[trigger] config.heuristics@[i], false),
        t,
    ) by {
        lemma_occurs_in_join(hs, "\n"@, i);
        lemma_occurs_between(hs[i], a1, join(hs, "\n"@), b1);
    }
    assert forall|i: int| 0 <= i < config.profiles@.len() implies occurs_in(
        profile_text(#[trigger] config.profiles@[i], false),
        t,
    ) by {
        lemma_occurs_in_join(ps, "\n"@, i);
        lemma_occurs_between(ps[i], a2, join(ps, "\n"@), b2);
    }
}

/// A configuration with one more sync profile `q` is reported as before,
/// with the line of `q` added after the last profile's line.
pub proof fn law_config_report_grows(c: Config, c2: Config, q: SyncProfile, files: Seq<Seq<char>>)
    requires
        c2.heuristic_skip_folders@ == c.heuristic_skip_folders@,
        c2.heuristics@ == c.heuristics@,
        c2.global_profile == c.global_profile,
        c2.profiles@ == c.profiles@.push(q),
        c.profiles@.len() > 0,
    ensures
        config_report_text(c2, files) == config_report_text(c, files).subrange(
            0,
            config_report_text(c, files).len() - 2,
        ) + "\n"@ + profile_text(q, false) + "\n\n"@,
{
    reveal_strlit("\n\n");
    let p1 = c.profiles@.map_values(|p: SyncProfile| profile_text(p, false));
    let p2 = c2.profiles@.map_values(|p: SyncProfile| profile_text(p, false));
    assert(p2 =~= p1.push(profile_text(q, false)));
    assert(p2.drop_last() =~= p1);
    assert(join(p2, "\n"@) == join(p1, "\n"@) + "\n"@ + profile_text(q, false));
    let a = "[Config]\nProjects: ["@ + join(files, ", "@) + "]\n"@
        + "Heuristics skip folders: "@ + debug_list(texts(c.heuristic_skip_folders@)) + "\n\n"@
        + "[Profile heuristics]\n"@ + join(c.heuristics@.map_values(|p: ProjectType| project_type_text(p, false)), "\n"@) + "\n\n"@
        + "[Sync profiles]\n"@ + profile_text(c.global_profile, false) + "\n"@;
    assert(config_report_text(c, files) =~= a + join(p1, "\n"@) + "\n\n"@);
    assert(config_report_text(c2, files) =~= a + join(p2, "\n"@) + "\n\n"@);
    let t = a + join(p1, "\n"@) + "\n\n"@;
    assert(t.subrange(0, t.len() - 2) =~= a + join(p1, "\n"@));
}

/// The profiles report shows every sync profile, and the heuristics report
/// every project type.
pub proof fn law_section_reports_show_everything(config: Config)
    ensures
        forall|i: int| 0 <= i < config.profiles@.len() ==> occurs_in(
            profile_text(#[trigger] config.profiles@[i], true),
            profiles_report_text(config),
        ),
        forall|i: int| 0 <= i < config.heuristics@.len() ==> occurs_in(
            project_type_text(#[trigger] config.heuristics@[i], true),
            heuristics_report_text(config),
        ),
{
    let ps = config.profiles@.map_values(|p: SyncProfile| profile_text(p, true));
    let hs = config.heuristics@.map_values(|p: ProjectType| project_type_text(p, true));
    let ap = "[Global]\n"@ + profile_text(config.global_profile, false) + "\n\n"@ + "[Sync profiles]\n"@;
    let ah = "[Global]\nHeuristics skip folders: "@ + debug_list(texts(config.heuristic_skip_folders@)) + "\n\n"@
        + "[Profile heuristics]\n"@;
    assert(profiles_report_text(config) =~= ap + join(ps, "\n"@) + "\n"@);
    assert(heuristics_report_text(config) =~= ah + join(hs, "\n"@) + "\n"@);
    assert forall|i: int| 0 <= i < config.profiles@.len() implies occurs_in(
        profile_text(#[trigger] config.profiles@[i], true),
        profiles_report_text(config),
    ) by {
        lemma_occurs_in_join(ps, "\n"@, i);
        lemma_occurs_between(ps[i], ap, join(ps, "\n"@), "\n"@);
    }
    assert forall|i: int| 0 <= i < config.heuristics@.len() implies occurs_in(
        project_type_text(#[trigger] config.heuristics@[i], true),
        heuristics_report_text(config),
    ) by {
        lemma_occurs_in_join(hs, "\n"@, i);
        lemma_occurs_between(hs[i], ah, join(hs, "\n"@), "\n"@);
    }
}

/// The list report shows every project file.
pub proof fn law_project_list_shows_every_file(files: Seq<Seq<char>>)
    ensures
        forall|i: int| 0 <= i < files.len() ==> occurs_in(#[trigger] files[i], project_list_text(files)),
{
    let a = "[Projects]\n"@ + "project_files: [\n  \""@;
    let b = "\",\n]\n"@;
    assert forall|i: int| 0 <= i < files.len() implies occurs_in(#[trigger] files[i], project_list_text(files)) by {
        assert(project_list_text(files) =~= a + join(files, "\",\n  \""@) + b);
        lemma_occurs_in_join(files, "\",\n  \""@, i);
        lemma_occurs_between(files[i], a, join(files, "\",\n  \""@), b);
    }
}

// ------------------------------------------------------------------------

/// `parts` separated by `sep`.
pub fn join_texts(parts: &Vec<String>, sep: &str) -> (r: String)
    ensures
        r@ == join(texts(parts@), sep@),
{
    let ghost ts = texts(parts@);
    let mut s = String::new();
    let mut i: usize = 0;
    while i < parts.len()
        invariant
            ts == texts(parts@),
            ts.len() == parts@.len(),
            i <= parts@.len(),
            s@ == join(ts.subrange(0, i as int), sep@),
        decreases parts.len() - i,
    {
        if i > 0 {
            s.append(sep);
        }
        s.append(parts[i].as_str());
        let ghost t = ts.subrange(0, i + 1);
        assert(ts[i as int] == parts@[i as int]@);
        if i == 0 {
            assert(t.len() == 1);
        } else {
            assert(t.drop_last() == ts.subrange(0, i as int));
        }
        i = i + 1;
    }
    assert(ts.subrange(0, ts.len() as int) == ts);
    s
}

/// A list of strings as std's `Debug` shows it.
pub fn debug_list_text(items: &Vec<String>) -> (r: String)
    ensures
        r@ == debug_list(texts(items@)),
{
    let ghost want = texts(items@).map_values(|s: Seq<char>| debug_quoted(s));
    let mut shown: Vec<String> = Vec::new();
    let mut i: usize = 0;
    while i < items.len()
        invariant
            want == texts(items@).map_values(|s: Seq<char>| debug_quoted(s)),
            want.len() == items@.len(),
            i <= items@.len(),
            texts(shown@) == want.subrange(0, i as int),
        decreases items.len() - i,
    {
        shown.push(debug_text(items[i].as_str()));
        assert(want[i as int] == debug_quoted(items@[i as int]@));
        assert(texts(shown@) == want.subrange(0, i as int).push(want[i as int]));
        i = i + 1;
    }
    assert(want.subrange(0, want.len() as int) == want);
    let mut s = String::new();
    s.append("[");
    let inner = join_texts(&shown, ", ");
    s.append(inner.as_str());
    s.append("]");
    s
}

/// The decimal text of `i`.
pub fn int_to_text(i: i32) -> (r: String)
    ensures
        r@ == int_text(i as int),
{
    let mut s = String::new();
    if i < 0 {
        s.append("-");
        let m: i64 = -(i as i64);
        push_decimal(&mut s, m as u64);
        proof {
            reveal_strlit("-");
        }
        assert(s@ == seq!['-'] + decimal((-(i as int)) as nat));
    } else {
        push_decimal(&mut s, i as u64);
        assert(s@ == decimal(i as nat));
    }
    s
}

fn heuristic_to_text(h: &Heuristic) -> (r: String)
    ensures
        r@ == heuristic_text(*h),
{
    let mut s = String::new();
    s.append("{ value: ");
    s.append(debug_text(h.value.as_str()).as_str());
    s.append(", weight: ");
    s.append(int_to_text(h.weight).as_str());
    s.append(" }");
    s
}

fn heuristics_to_text(hs: &Vec<Heuristic>) -> (r: String)
    ensures
        r@ == heuristics_text(hs@),
{
    let ghost want = hs@.map_values(|h: Heuristic| heuristic_text(h));
    let mut parts: Vec<String> = Vec::new();
    let mut i: usize = 0;
    while i < hs.len()
        invariant
            want == hs@.map_values(|h: Heuristic| heuristic_text(h)),
            want.len() == hs@.len(),
            i <= hs@.len(),
            texts(parts@) == want.subrange(0, i as int),
        decreases hs.len() - i,
    {
        parts.push(heuristic_to_text(&hs[i]));
        assert(texts(parts@) == want.subrange(0, i as int).push(want[i as int]));
        i = i + 1;
    }
    assert(want.subrange(0, want.len() as int) == want);
    join_texts(&parts, ", ")
}

/// A project type, on one line or (`block`) one field per line.
pub fn project_type_to_text(p: &ProjectType, block: bool) -> (r: String)
    ensures
        r@ == project_type_text(*p, block),
{
    let sep = if block { ",\n  " } else { ", " };
    let end = if block { "\n}" } else { " }" };
    let mut s = String::new();
    s.append("{ name: ");
    s.append(debug_text(p.name.as_str()).as_str());
    s.append(sep);
    s.append("folders: [");
    s.append(heuristics_to_text(&p.folders).as_str());
    s.append("]");
    s.append(sep);
    s.append("files: [");
    s.append(heuristics_to_text(&p.files).as_str());
    s.append("]");
    s.append(end);
    s
}

/// A sync profile, on one line or (`block`) one field per line.
pub fn profile_to_text(p: &SyncProfile, block: bool) -> (r: String)
    ensures
        r@ == profile_text(*p, block),
{
    let sep = if block { ",\n  " } else { ", " };
    let end = if block { "\n}" } else { " }" };
    let mut s = String::new();
    s.append("{ name: ");
    s.append(debug_text(p.name.as_str()).as_str());
    s.append(sep);
    s.append("skip_folders: ");
    s.append(debug_list_text(&p.skip_folders).as_str());
    s.append(sep);
    s.append("skip_files: ");
    s.append(debug_list_text(&p.skip_files).as_str());
    s.append(end);
    s
}

fn project_types_to_text(ps: &Vec<ProjectType>, block: bool) -> (r: String)
    ensures
        r@ == join(ps@.map_values(|p: ProjectType| project_type_text(p, block)), "\n"@),
{
    let ghost want = ps@.map_values(|p: ProjectType| project_type_text(p, block));
    let mut parts: Vec<String> = Vec::new();
    let mut i: usize = 0;
    while i < ps.len()
        invariant
            want == ps@.map_values(|p: ProjectType| project_type_text(p, block)),
            want.len() == ps@.len(),
            i <= ps@.len(),
            texts(parts@) == want.subrange(0, i as int),
        decreases ps.len() - i,
    {
        parts.push(project_type_to_text(&ps[i], block));
        assert(texts(parts@) == want.subrange(0, i as int).push(want[i as int]));
        i = i + 1;
    }
    assert(want.subrange(0, want.len() as int) == want);
    join_texts(&parts, "\n")
}

fn profiles_to_text(ps: &Vec<SyncProfile>, block: bool) -> (r: String)
    ensures
        r@ == join(ps@.map_values(|p: SyncProfile| profile_text(p, block)), "\n"@),
{
    let ghost want = ps@.map_values(|p: SyncProfile| profile_text(p, block));
    let mut parts: Vec<String> = Vec::new();
    let mut i: usize = 0;
    while i < ps.len()
        invariant
            want == ps@.map_values(|p: SyncProfile| profile_text(p, block)),
            want.len() == ps@.len(),
            i <= ps@.len(),
            texts(parts@) == want.subrange(0, i as int),
        decreases ps.len() - i,
    {
        parts.push(profile_to_text(&ps[i], block));
        assert(texts(parts@) == want.subrange(0, i as int).push(want[i as int]));
        i = i + 1;
    }
    assert(want.subrange(0, want.len() as int) == want);
    join_texts(&parts, "\n")
}

/// What `config` prints: the project files, the heuristic skip folders,
/// the project types and the profiles.
pub fn config_report(config: &Config, files: &ProjectFiles) -> (r: String)
    ensures
        r@ == config_report_text(*config, files.names()),
{
    let mut s = String::new();
    s.append("[Config]\nProjects: [");
    s.append(join_texts(&files.file_names, ", ").as_str());
    s.append("]\n");
    s.append("Heuristics skip folders: ");
    s.append(debug_list_text(&config.heuristic_skip_folders).as_str());
    s.append("\n\n");
    s.append("[Profile heuristics]\n");
    s.append(project_types_to_text(&config.heuristics, false).as_str());
    s.append("\n\n");
    s.append("[Sync profiles]\n");
    s.append(profile_to_text(&config.global_profile, false).as_str());
    s.append("\n");
    s.append(profiles_to_text(&config.profiles, false).as_str());
    s.append("\n\n");
    s
}

/// What `config heuristics` prints.
pub fn heuristics_report(config: &Config) -> (r: String)
    ensures
        r@ == heuristics_report_text(*config),
{
    let mut s = String::new();
    s.append("[Global]\nHeuristics skip folders: ");
    s.append(debug_list_text(&config.heuristic_skip_folders).as_str());
    s.append("\n\n");
    s.append("[Profile heuristics]\n");
    s.append(project_types_to_text(&config.heuristics, true).as_str());
    s.append("\n");
    s
}

/// What `config profiles` prints.
pub fn profiles_report(config: &Config) -> (r: String)
    ensures
        r@ == profiles_report_text(*config),
{
    let mut s = String::new();
    s.append("[Global]\n");
    s.append(profile_to_text(&config.global_profile, false).as_str());
    s.append("\n\n");
    s.append("[Sync profiles]\n");
    s.append(profiles_to_text(&config.profiles, true).as_str());
    s.append("\n");
    s
}

/// What `list` prints.
pub fn project_list_report(files: &ProjectFiles) -> (r: String)
    ensures
        r@ == project_list_text(files.names()),
{
    let mut s = String::new();
    s.append("[Projects]\n");
    if files.file_names.len() > 0 {
        s.append("project_files: [\n  \"");
        s.append(join_texts(&files.file_names, "\",\n  \"").as_str());
        s.append("\",\n]\n");
    } else {
        s.append("project_files: []\n");
    }
    s
}

/// What `show` prints for one project.
pub fn project_report(p: &Projects) -> (r: String)
    ensures
        r@ == project_text(*p),
{
    let ghost ign = texts(p.ignored_projects@).map_values(|n: Seq<char>| ignored_text(n));
    let mut ignored: Vec<String> = Vec::new();
    let mut i: usize = 0;
    while i < p.ignored_projects.len()
        invariant
            ign == texts(p.ignored_projects@).map_values(|n: Seq<char>| ignored_text(n)),
            ign.len() == p.ignored_projects@.len(),
            i <= p.ignored_projects@.len(),
            texts(ignored@) == ign.subrange(0, i as int),
        decreases p.ignored_projects.len() - i,
    {
        let mut t = String::new();
        t.append("{ \"");
        t.append(p.ignored_projects[i].as_str());
        t.append("\" }");
        ignored.push(t);
        assert(ign[i as int] == ignored_text(p.ignored_projects@[i as int]@));
        assert(texts(ignored@) == ign.subrange(0, i as int).push(ign[i as int]));
        i = i + 1;
    }
    assert(ign.subrange(0, ign.len() as int) == ign);
    let ghost dirs = p.projects@.map_values(|d: ProjectDir| project_dir_text(d));
    let mut shown: Vec<String> = Vec::new();
    let mut j: usize = 0;
    while j < p.projects.len()
        invariant
            dirs == p.projects@.map_values(|d: ProjectDir| project_dir_text(d)),
            dirs.len() == p.projects@.len(),
            j <= p.projects@.len(),
            texts(shown@) == dirs.subrange(0, j as int),
        decreases p.projects.len() - j,
    {
        let d = &p.projects[j];
        let mut t = String::new();
        t.append("{ root: ");
        t.append(debug_text(d.root.as_str()).as_str());
        t.append(", profiles: ");
        t.append(debug_list_text(&d.profiles).as_str());
        t.append(" }");
        shown.push(t);
        assert(texts(shown@) == dirs.subrange(0, j as int).push(dirs[j as int]));
        j = j + 1;
    }
    assert(dirs.subrange(0, dirs.len() as int) == dirs);
    let mut s = String::new();
    s.append("[");
    s.append(p.name.as_str());
    s.append("]\nSource: ");
    s.append(debug_text(p.source.as_str()).as_str());
    s.append("\nDestination: ");
    s.append(debug_text(p.destination.as_str()).as_str());
    s.append("\nIgnored projects:\n");
    s.append(join_texts(&ignored, "\n").as_str());
    s.append("\n\nProjects:\n");
    s.append(join_texts(&shown, "\n").as_str());
    s.append("\n");
    s
}

/// What `show paths` prints for one project.
pub fn project_paths_report(p: &Projects) -> (r: String)
    ensures
        r@ == project_paths_text(*p),
{
    let mut s = String::new();
    s.append("[");
    s.append(p.name.as_str());
    s.append("]\nSource: ");
    s.append(debug_text(p.source.as_str()).as_str());
    s.append("\nDestination: ");
    s.append(debug_text(p.destination.as_str()).as_str());
    s.append("\n\n");
    s
}

} // verus!
