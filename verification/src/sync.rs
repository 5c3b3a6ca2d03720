//! The rules of a sync run: whether the destination is set, and which
//! skip lists apply to each folder of a project.

use vstd::prelude::*;
use crate::config::{ReadyConfig, ReadySyncProfile};
use crate::glob::{GlobList, concat_lists, any_matches, law_combined_lists_match};
use crate::util::{chars_of, chars_eq, trim_chars, trimmed, SORRY_MESSAGE};

verus! {

/// Whether `destination`, without surrounding white space, is still the
/// placeholder of a new project.
pub fn destination_unset(destination: &str) -> (r: bool)
    ensures
        r == (trimmed(destination@) == SORRY_MESSAGE@),
{
    let t = trim_chars(destination);
    let m = chars_of(SORRY_MESSAGE);
    chars_eq(t.as_slice(), m.as_slice())
}

/// `i` is the first profile of `ps` called `name`.
pub open spec fn is_first_named(ps: Seq<ReadySyncProfile>, name: Seq<char>, i: int) -> bool {
    &&& 0 <= i < ps.len()
    &&& ps[i].name@ == name
    &&& forall|j: int| 0 <= j < i ==> (#[trigger] ps[j]).name@ != name
}

/// Some profile of `ps` is called `name`.
pub open spec fn has_profile(ps: Seq<ReadySyncProfile>, name: Seq<char>) -> bool {
    exists|i: int| 0 <= i < ps.len() && (#[trigger] ps[i]).name@ == name
}

/// The first profile of `ps` called `name`.
pub open spec fn named_profile(ps: Seq<ReadySyncProfile>, name: Seq<char>) -> ReadySyncProfile {
    ps[choose|i: int| is_first_named(ps, name, i)]
}

/// The folder skip lists that apply to a folder with the profiles `names`:
/// those of the named profiles, in order, then the global one.
pub open spec fn folder_lists(config: ReadyConfig, names: Seq<Seq<char>>) -> Seq<Seq<Seq<char>>> {
    Seq::new(
        names.len() + 1,
        |j: int|
            if j < names.len() {
                named_profile(config.profiles@, names[j]).skip_folders@
            } else {
                config.global_profile.skip_folders@
            },
    )
}

/// The file skip lists that apply to a folder with the profiles `names`:
/// those of the named profiles, in order, then the global one.
pub open spec fn file_lists(config: ReadyConfig, names: Seq<Seq<char>>) -> Seq<Seq<Seq<char>>> {
    Seq::new(
        names.len() + 1,
        |j: int|
            if j < names.len() {
                named_profile(config.profiles@, names[j]).skip_files@
            } else {
                config.global_profile.skip_files@
            },
    )
}

/// A name is skipped in a project folder exactly when the global profile or
/// one of the folder's profiles skips it (for files and for folders alike).
pub proof fn law_skipped_by_some_profile(config: ReadyConfig, names: Seq<Seq<char>>, name: Seq<char>)
    ensures
        any_matches(concat_lists(file_lists(config, names)), name) <==> (any_matches(
            config.global_profile.skip_files@,
            name,
        ) || exists|j: int|
            0 <= j < names.len() && any_matches(
                #[trigger] named_profile(config.profiles@, names[j]).skip_files@,
                name,
            )),
        any_matches(concat_lists(folder_lists(config, names)), name) <==> (any_matches(
            config.global_profile.skip_folders@,
            name,
        ) || exists|j: int|
            0 <= j < names.len() && any_matches(
                #[trigger] named_profile(config.profiles@, names[j]).skip_folders@,
                name,
            )),
{
    let xl = file_lists(config, names);
    let fl = folder_lists(config, names);
    law_combined_lists_match(xl, name);
    law_combined_lists_match(fl, name);
    if exists|k: int| 0 <= k < xl.len() && any_matches(#[trigger] xl[k], name) {
        let k = choose|k: int| 0 <= k < xl.len() && any_matches(#[trigger] xl[k], name);
        if k < names.len() {
            assert(xl[k] == named_profile(config.profiles@, names[k]).skip_files@);
        }
    }
    if exists|j: int|
        0 <= j < names.len() && any_matches(#[trigger] named_profile(config.profiles@, names[j]).skip_files@, name) {
        let j = choose|j: int|
            0 <= j < names.len() && any_matches(#[trigger] named_profile(config.profiles@, names[j]).skip_files@, name);
        assert(xl[j] == named_profile(config.profiles@, names[j]).skip_files@);
    }
    if any_matches(config.global_profile.skip_files@, name) {
        assert(xl[names.len() as int] == config.global_profile.skip_files@);
    }
    if exists|k: int| 0 <= k < fl.len() && any_matches(#[trigger] fl[k], name) {
        let k = choose|k: int| 0 <= k < fl.len() && any_matches(#[trigger] fl[k], name);
        if k < names.len() {
            assert(fl[k] == named_profile(config.profiles@, names[k]).skip_folders@);
        }
    }
    if exists|j: int|
        0 <= j < names.len() && any_matches(#[trigger] named_profile(config.profiles@, names[j]).skip_folders@, name) {
        let j = choose|j: int|
            0 <= j < names.len() && any_matches(#[trigger] named_profile(config.profiles@, names[j]).skip_folders@, name);
        assert(fl[j] == named_profile(config.profiles@, names[j]).skip_folders@);
    }
    if any_matches(config.global_profile.skip_folders@, name) {
        assert(fl[names.len() as int] == config.global_profile.skip_folders@);
    }
}

/// A project folder names a profile that the configuration lacks.
#[derive(Debug)]
pub struct MissingProfile {
    pub name: String,
}

/// The first profile of `profiles` called `name`, if any.
fn find_profile<'a>(profiles: &'a Vec<ReadySyncProfile>, name: &String) -> (r: Option<&'a ReadySyncProfile>)
    ensures
        r is None <==> !has_profile(profiles@, name@),
        r matches Some(p) ==> *p == named_profile(profiles@, name@),
{
    let mut i: usize = 0;
    while i < profiles.len()
        invariant
            i <= profiles@.len(),
            forall|j: int| 0 <= j < i ==> (#[trigger] profiles@[j]).name@ != name@,
        decreases profiles.len() - i,
    {
        if profiles[i].name == *name {
            proof {
                assert(is_first_named(profiles@, name@, i as int));
                let k = choose|k: int| is_first_named(profiles@, name@, k);
                if k < i {
                    assert(profiles@[k].name@ != name@);
                }
                if k > i {
                    assert(profiles@[i as int].name@ != name@);
                }
            }
            return Some(&profiles[i]);
        }
        i = i + 1;
    }
    None
}

/// The combined folder and file skip lists for a project folder with the
/// profiles `profile_names`: the lists of each named profile (the first
/// profile of that name), in order, followed by those of the global
/// profile.  Fails on the first name that no profile has.
pub fn project_skip_lists(profile_names: &Vec<String>, config: &ReadyConfig) -> (r: Result<(GlobList, GlobList), MissingProfile>)
    ensures
        r is Ok <==> forall|j: int| 0 <= j < profile_names@.len() ==> has_profile(config.profiles@, #[trigger] profile_names@[j]@),
        r matches Ok(lists) ==> lists.0@ == concat_lists(folder_lists(*config, profile_names@.map_values(|s: String| s@)))
            && lists.1@ == concat_lists(file_lists(*config, profile_names@.map_values(|s: String| s@))),
        r matches Err(e) ==> exists|j: int|
            0 <= j < profile_names@.len() && e.name@ == (#[trigger] profile_names@[j])@ && !has_profile(config.profiles@, e.name@)
                && forall|k: int| 0 <= k < j ==> has_profile(config.profiles@, #[trigger] profile_names@[k]@),
{
    let ghost names = profile_names@.map_values(|s: String| s@);
    let ghost fl = folder_lists(*config, names);
    let ghost xl = file_lists(*config, names);
    let mut folders: Vec<GlobList> = Vec::new();
    let mut files: Vec<GlobList> = Vec::new();
    let mut i: usize = 0;
    while i < profile_names.len()
        invariant
            names == profile_names@.map_values(|s: String| s@),
            names.len() == profile_names@.len(),
            fl == folder_lists(*config, names),
            xl == file_lists(*config, names),
            i <= profile_names@.len(),
            folders@.map_values(|l: GlobList| l@) == fl.subrange(0, i as int),
            files@.map_values(|l: GlobList| l@) == xl.subrange(0, i as int),
            forall|k: int| 0 <= k < i ==> has_profile(config.profiles@, #[trigger] profile_names@[k]@),
        decreases profile_names.len() - i,
    {
        assert(names[i as int] == profile_names@[i as int]@);
        match find_profile(&config.profiles, &profile_names[i]) {
            Some(p) => {
                folders.push(p.skip_folders.duplicate());
                files.push(p.skip_files.duplicate());
                assert(fl[i as int] == p.skip_folders@);
                assert(xl[i as int] == p.skip_files@);
                assert(fl.subrange(0, i + 1) == fl.subrange(0, i as int).push(fl[i as int]));
                assert(xl.subrange(0, i + 1) == xl.subrange(0, i as int).push(xl[i as int]));
                assert(folders@.map_values(|l: GlobList| l@) == fl.subrange(0, i as int).push(fl[i as int]));
                assert(files@.map_values(|l: GlobList| l@) == xl.subrange(0, i as int).push(xl[i as int]));
            },
            None => {
                return Err(MissingProfile { name: profile_names[i].clone() });
            },
        }
        i = i + 1;
    }
    folders.push(config.global_profile.skip_folders.duplicate());
    files.push(config.global_profile.skip_files.duplicate());
    let n = profile_names.len();
    assert(fl.subrange(0, n as int).push(fl[n as int]) == fl);
    assert(xl.subrange(0, n as int).push(xl[n as int]) == xl);
    assert(folders@.map_values(|l: GlobList| l@) == fl.subrange(0, n as int).push(fl[n as int]));
    assert(files@.map_values(|l: GlobList| l@) == xl.subrange(0, n as int).push(xl[n as int]));
    let f = GlobList::combine(folders);
    let x = GlobList::combine(files);
    Ok((f, x))
}

/// Whether a file is copied: unless its source was modified before its
/// copy at the destination.  Times are nanoseconds from the Unix epoch; a
/// destination without a known time counts as modified at the epoch.
pub fn should_copy(source_modified: i128, destination_modified: Option<i128>) -> (r: bool)
    ensures
        r == (source_modified >= match destination_modified {
            Some(t) => t,
            None => 0,
        }),
{
    let to = match destination_modified {
        Some(t) => t,
        None => 0,
    };
    !(source_modified < to)
}

} // verus!
