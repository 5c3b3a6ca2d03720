//! Sync projects: what a project file holds, the list of project files, and
//! the rules for naming, finding and removing projects.

use vstd::prelude::*;
use vstd::relations::injective_on;
use vstd::set_lib::{set_int_range, lemma_int_range, lemma_map_size, lemma_len_subset};
use crate::util::{
    add_extension_if_missing, with_extension, ends_with, decimal, is_digit, digit_char,
    lemma_decimal_shape, lemma_decimal_injective, push_decimal, push_char, chars_of,
};
use crate::glob::{GlobPattern, GlobError, glob_compiles, glob_matches, texts};

verus! {

/// A folder of a sync project and the sync profiles that apply to it.
#[derive(Debug)]
pub struct ProjectDir {
    pub root: String,
    pub profiles: Vec<String>,
}

/// A sync project.
#[derive(Debug)]
pub struct Projects {
    /// Profile name
    pub name: String,
    /// Source folder
    pub source: String,
    /// Destination to sync to
    pub destination: String,
    /// Ignored project directories
    pub ignored_projects: Vec<String>,
    /// Project directories and their sync profiles
    pub projects: Vec<ProjectDir>,
}

/// The list of project files.
#[derive(Debug)]
pub struct ProjectFiles {
    pub file_names: Vec<String>,
}

/// The extension of project files, `.aeon`.
pub open spec fn project_extension() -> Seq<char> {
    seq!['.', 'a', 'e', 'o', 'n']
}

/// The file name of the project called `name`.
pub open spec fn project_file(name: Seq<char>) -> Seq<char> {
    with_extension(name, project_extension())
}

/// `name` followed by `_` and the decimal text of `n`.
pub open spec fn numbered(name: Seq<char>, n: nat) -> Seq<char> {
    name + seq!['_'] + decimal(n)
}

/// The file name of the project called `name`: `name`, with `.aeon` added
/// unless it already ends with it.
pub fn project_file_name(name: String) -> (r: String)
    ensures
        r@ == project_file(name@),
{
    proof {
        reveal_strlit(".aeon");
    }
    assert(".aeon"@ =~= project_extension());
    add_extension_if_missing(name, ".aeon")
}

/// A numbered name never ends with `.aeon`, so its file name is the name
/// followed by `.aeon`.
proof fn lemma_numbered_file(name: Seq<char>, n: nat)
    ensures
        project_file(numbered(name, n)) == numbered(name, n) + project_extension(),
{
    let x = numbered(name, n);
    lemma_decimal_shape(n);
    assert(x.last() == decimal(n).last());
    let d = choose|d: int| 0 <= d < 10 && x.last() == #[trigger] digit_char(d);
    if ends_with(x, project_extension()) {
        assert(x.subrange(x.len() - 5, x.len() as int)[4] == x.last());
        assert(project_extension()[4] == 'n');
    }
}

/// Distinct numbers give distinct file names.
proof fn lemma_numbered_file_injective(name: Seq<char>, a: nat, b: nat)
    requires
        project_file(numbered(name, a)) == project_file(numbered(name, b)),
    ensures
        a == b,
{
    lemma_numbered_file(name, a);
    lemma_numbered_file(name, b);
    let xa = numbered(name, a);
    let xb = numbered(name, b);
    assert(xa.len() == xb.len()) by {
        assert((xa + project_extension()).len() == (xb + project_extension()).len());
    }
    assert(xa == (xa + project_extension()).subrange(0, xa.len() as int));
    assert(xb == (xb + project_extension()).subrange(0, xb.len() as int));
    let k = name.len() as int + 1;
    assert(decimal(a) == xa.subrange(k, xa.len() as int));
    assert(decimal(b) == xb.subrange(k, xb.len() as int));
    lemma_decimal_injective(a, b);
}

/// When the file names of the numbered names `lo .. hi` are all in `list`,
/// there are at most as many of them as `list` has entries.
proof fn lemma_numbered_files_fit(list: Seq<Seq<char>>, name: Seq<char>, lo: nat, hi: nat)
    requires
        lo <= hi,
        forall|m: nat| lo <= m < hi ==> list.contains(#[trigger] project_file(numbered(name, m))),
    ensures
        hi - lo <= list.len(),
{
    let x = set_int_range(lo as int, hi as int);
    let f = |m: int| project_file(numbered(name, m as nat));
    lemma_int_range(lo as int, hi as int);
    assert(injective_on(f, x)) by {
        assert forall|a: int, b: int| x.contains(a) && x.contains(b) && #[trigger] f(a) == #[trigger] f(b)
            implies a == b by {
            lemma_numbered_file_injective(name, a as nat, b as nat);
        }
    }
    let y = x.map(f);
    lemma_map_size(x, y, f);
    let s = list.to_set();
    vstd::seq_lib::seq_to_set_is_finite(list);
    assert(y.subset_of(s)) by {
        assert forall|b: Seq<char>| y.contains(b) implies s.contains(b) by {
            let a = choose|a: int| x.contains(a) && f(a) == b;
            assert(list.contains(project_file(numbered(name, a as nat))));
        }
    }
    lemma_len_subset(y, s);
    list.lemma_cardinality_of_set();
}

impl ProjectFiles {
    /// An empty list.
    pub fn empty() -> (r: ProjectFiles)
        ensures
            r.file_names@.len() == 0,
    {
        ProjectFiles { file_names: Vec::new() }
    }

    /// The file names of the list.
    pub open spec fn names(&self) -> Seq<Seq<char>> {
        texts(self.file_names@)
    }

    /// Whether `file` is one of the file names of the list.
    pub fn contains_file(&self, file: &String) -> (r: bool)
        ensures
            r == self.names().contains(file@),
    {
        let mut i: usize = 0;
        while i < self.file_names.len()
            invariant
                i <= self.file_names@.len(),
                forall|j: int| 0 <= j < i ==> self.file_names@[j]@ != file@,
            decreases self.file_names.len() - i,
        {
            if self.file_names[i] == *file {
                assert(self.names()[i as int] == file@);
                return true;
            }
            i = i + 1;
        }
        assert forall|j: int| 0 <= j < self.names().len() implies self.names()[j] != file@ by {
            assert(self.names()[j] == self.file_names@[j]@);
        }
        false
    }

    /// The first name `name_N` (for `N` counting up from 2) whose project
    /// file is not in the list.
    pub fn numbered_name(&self, name: &String) -> (r: String)
        requires
            self.file_names@.len() + 3 <= u64::MAX,
        ensures
            exists|n: nat|
                {
                    &&& n >= 2
                    &&& r@ == numbered(name@, n)
                    &&& !self.names().contains(project_file(r@))
                    &&& forall|m: nat| 2 <= m < n ==> self.names().contains(
                        #[trigger] project_file(numbered(name@, m)),
                    )
                },
    {
        let mut num: u64 = 2;
        loop
            invariant
                self.file_names@.len() + 3 <= u64::MAX,
                2 <= num,
                num - 2 <= self.file_names@.len(),
                forall|m: nat| 2 <= m < num ==> self.names().contains(
                    #[trigger] project_file(numbered(name@, m)),
                ),
            decreases self.file_names@.len() + 2 - num,
        {
            let mut candidate = name.clone();
            push_char(&mut candidate, '_');
            push_decimal(&mut candidate, num);
            assert(candidate@ == numbered(name@, num as nat));
            let file = project_file_name(candidate.clone());
            if !self.contains_file(&file) {
                return candidate;
            }
            proof {
                assert forall|m: nat| 2 <= m < num + 1 implies self.names().contains(
                    #[trigger] project_file(numbered(name@, m)),
                ) by {}
                lemma_numbered_files_fit(self.names(), name@, 2, (num + 1) as nat);
            }
            num = num + 1;
        }
    }

    /// The index of the first file name that the glob `pattern` matches;
    /// fails when the list is not empty and `globber` refuses the pattern.
    pub fn find_matching(&self, pattern: &str) -> (r: Result<Option<usize>, GlobError>)
        ensures
            r is Err <==> (self.file_names@.len() > 0 && !glob_compiles(pattern@)),
            r matches Err(e) ==> e.pattern@ == pattern@,
            r matches Ok(Some(i)) ==> i < self.file_names@.len() && glob_matches(
                pattern@,
                self.names()[i as int],
            ) && forall|j: int| 0 <= j < i ==> !glob_matches(pattern@, #[trigger] self.names()[j]),
            r matches Ok(None) ==> forall|j: int|
                0 <= j < self.file_names@.len() ==> !glob_matches(pattern@, #[trigger] self.names()[j]),
    {
        if self.file_names.len() == 0 {
            return Ok(None);
        }
        let compiled = match GlobPattern::new(pattern) {
            Ok(p) => p,
            Err(e) => return Err(e),
        };
        let mut i: usize = 0;
        while i < self.file_names.len()
            invariant
                compiled@ == pattern@,
                glob_compiles(pattern@),
                self.file_names@.len() > 0,
                i <= self.file_names@.len(),
                forall|j: int| 0 <= j < i ==> !glob_matches(pattern@, #[trigger] self.names()[j]),
            decreases self.file_names.len() - i,
        {
            assert(self.names()[i as int] == self.file_names@[i as int]@);
            if compiled.matches(self.file_names[i].as_str()) {
                return Ok(Some(i));
            }
            i = i + 1;
        }
        Ok(None)
    }

    /// Takes the first occurrence of `file` out of the list, moving the last
    /// name into its place; returns whether `file` was there.
    pub fn forget(&mut self, file: &String) -> (r: bool)
        ensures
            r == old(self).names().contains(file@),
            !r ==> final(self).file_names@ == old(self).file_names@,
            r ==> exists|i: int|
                {
                    &&& 0 <= i < old(self).file_names@.len()
                    &&& old(self).file_names@[i]@ == file@
                    &&& forall|j: int| 0 <= j < i ==> (#[trigger] old(self).file_names@[j])@ != file@
                    &&& final(self).file_names@ == old(self).file_names@.update(
                        i,
                        old(self).file_names@.last(),
                    ).drop_last()
                },
    {
        let mut i: usize = 0;
        while i < self.file_names.len()
            invariant
                self.file_names@ == old(self).file_names@,
                i <= self.file_names@.len(),
                forall|j: int| 0 <= j < i ==> self.file_names@[j]@ != file@,
            decreases self.file_names.len() - i,
        {
            if self.file_names[i] == *file {
                let ghost before = self.file_names@;
                assert(self.names()[i as int] == file@);
                self.file_names.swap_remove(i);
                assert(self.file_names@ == before.update(i as int, before.last()).drop_last());
                return true;
            }
            i = i + 1;
        }
        assert forall|j: int| 0 <= j < old(self).names().len() implies old(self).names()[j] != file@ by {
            assert(old(self).names()[j] == old(self).file_names@[j]@);
        }
        false
    }
}

/// The pattern that `remove` looks for: a name with a `*` is used as it is,
/// any other name gets the project file extension.
pub open spec fn removal_pattern_of(project_name: Seq<char>) -> Seq<char> {
    if project_name.contains('*') {
        project_name
    } else {
        project_file(project_name)
    }
}

/// The glob pattern that removing the project `project_name` looks for.
pub fn removal_pattern(project_name: &str) -> (r: String)
    ensures
        r@ == removal_pattern_of(project_name@),
{
    let cs = chars_of(project_name);
    let mut i: usize = 0;
    while i < cs.len()
        invariant
            cs@ == project_name@,
            i <= cs@.len(),
            forall|j: int| 0 <= j < i ==> cs@[j] != '*',
        decreases cs.len() - i,
    {
        if cs[i] == '*' {
            assert(project_name@[i as int] == '*');
            return String::from_str(project_name);
        }
        i = i + 1;
    }
    project_file_name(String::from_str(project_name))
}

/// What the name of a new project turns out to be.
#[derive(Debug)]
pub enum NamePlan {
    /// No project file has the name: it is used as it is.
    Free(String),
    /// A project file has the name; `numbered` is the first free numbered
    /// form of it.
    Taken { numbered: String },
}

/// Whether `numbered` is the first free numbered form of `name` in `list`.
pub open spec fn first_free_numbered(list: Seq<Seq<char>>, name: Seq<char>, numbered_name: Seq<char>) -> bool {
    exists|n: nat|
        {
            &&& n >= 2
            &&& numbered_name == numbered(name, n)
            &&& !list.contains(project_file(numbered_name))
            &&& forall|m: nat| 2 <= m < n ==> list.contains(#[trigger] project_file(numbered(name, m)))
        }
}

/// The project file of a planned name is not in the list yet: a new
/// project never takes the file of an existing one.
pub proof fn law_planned_file_is_new(list: Seq<Seq<char>>, name: Seq<char>, numbered_name: Seq<char>)
    requires
        first_free_numbered(list, name, numbered_name),
    ensures
        !list.contains(project_file(numbered_name)),
{
}

impl ProjectFiles {
    /// The name a new project called `name` gets: `name` itself when no
    /// project file has it, else its first free numbered form.
    pub fn plan_name(&self, name: String) -> (r: NamePlan)
        requires
            self.file_names@.len() + 3 <= u64::MAX,
        ensures
            r matches NamePlan::Free(n) ==> !self.names().contains(project_file(name@)) && n == name,
            r matches NamePlan::Taken { numbered } ==> self.names().contains(project_file(name@))
                && first_free_numbered(self.names(), name@, numbered@),
    {
        let file = project_file_name(name.clone());
        if !self.contains_file(&file) {
            NamePlan::Free(name)
        } else {
            let numbered = self.numbered_name(&name);
            NamePlan::Taken { numbered }
        }
    }

    /// Adds `file` at the end of the list.
    pub fn add(&mut self, file: String)
        ensures
            final(self).file_names@ == old(self).file_names@.push(file),
    {
        self.file_names.push(file);
    }

    /// The project files that `sync --all` and `refresh --all` go through:
    /// every entry of the list, in order, as a project file name.
    pub fn all_project_files(&self) -> (r: Vec<String>)
        ensures
            r@.len() == self.names().len(),
            forall|i: int| 0 <= i < r@.len() ==> (#[trigger] r@[i])@ == project_file(self.names()[i]),
    {
        let mut out: Vec<String> = Vec::new();
        let mut i: usize = 0;
        while i < self.file_names.len()
            invariant
                i <= self.file_names@.len(),
                out@.len() == i,
                self.names().len() == self.file_names@.len(),
                forall|j: int| 0 <= j < i ==> (#[trigger] out@[j])@ == project_file(self.names()[j]),
            decreases self.file_names.len() - i,
        {
            let name = self.file_names[i].clone();
            assert(self.names()[i as int] == self.file_names@[i as int]@);
            out.push(project_file_name(name));
            i = i + 1;
        }
        out
    }
}

impl Projects {
    /// A new project called `name` syncing `source`, with the given project
    /// folders, no ignored folders, and the placeholder destination.
    pub fn new_project(name: String, source: String, projects: Vec<ProjectDir>) -> (r: Projects)
        ensures
            r.name == name,
            r.source == source,
            r.destination@ == crate::util::SORRY_MESSAGE@,
            r.ignored_projects@.len() == 0,
            r.projects == projects,
    {
        Projects {
            name,
            source,
            destination: String::from_str(crate::util::SORRY_MESSAGE),
            ignored_projects: Vec::new(),
            projects,
        }
    }
}

} // verus!
