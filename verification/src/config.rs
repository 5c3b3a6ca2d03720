//! The configuration: sync profiles (what to skip when copying) and project
//! type heuristics (how to recognise what kind of project a folder holds).
//!
//! The plain types hold the configuration as written; the `Ready` types hold
//! it with every glob pattern compiled.

use vstd::prelude::*;
use crate::glob::{GlobError, GlobList, GlobPattern, glob_compiles, all_compile, first_refused, texts};

verus! {

/// The configuration as written.
#[derive(Debug)]
pub struct Config {
    pub heuristic_skip_folders: Vec<String>,
    pub global_profile: SyncProfile,
    pub profiles: Vec<SyncProfile>,
    pub heuristics: Vec<ProjectType>,
}

/// A sync profile as written.
#[derive(Debug)]
pub struct SyncProfile {
    /// Profile name
    pub name: String,
    /// Folders to skip
    pub skip_folders: Vec<String>,
    /// File patterns to skip
    pub skip_files: Vec<String>,
}

/// One weighted pattern of a project type, as written.
#[derive(Debug)]
pub struct Heuristic {
    pub value: String,
    pub weight: i32,
}

/// Heuristics to determine project type, as written.
#[derive(Debug)]
pub struct ProjectType {
    pub name: String,
    /// Folders likely present in project type
    pub folders: Vec<Heuristic>,
    /// Files likely present in project type
    pub files: Vec<Heuristic>,
}

/// A list of project types, as written.
#[derive(Debug)]
pub struct Heuristics {
    heuristics: Vec<ProjectType>,
}

/// The configuration with its patterns compiled.
pub struct ReadyConfig {
    pub heuristic_skip_folders: GlobList,
    pub global_profile: ReadySyncProfile,
    pub profiles: Vec<ReadySyncProfile>,
    pub heuristics: Vec<ReadyProjectType>,
}

/// A sync profile with its patterns compiled.
pub struct ReadySyncProfile {
    /// Profile name
    pub name: String,
    /// Folders to skip
    pub skip_folders: GlobList,
    /// File patterns to skip
    pub skip_files: GlobList,
}

/// A weighted, compiled pattern.
pub struct ReadyHeuristic {
    pub value: GlobPattern,
    pub weight: i32,
}

/// A project type with its patterns compiled.
pub struct ReadyProjectType {
    pub name: String,
    /// Folders likely present in project type
    pub folders: Vec<ReadyHeuristic>,
    /// Files likely present in project type
    pub files: Vec<ReadyHeuristic>,
}

/// A list of project types with their patterns compiled.
pub struct ReadyHeuristics {
    heuristics: Vec<ReadyProjectType>,
}

// ------------------------------------------------------------------------
// The patterns of a configuration, and what a compiled value was built from.

/// The patterns of `hs`, in order.
pub open spec fn heuristic_patterns(hs: Seq<Heuristic>) -> Seq<Seq<char>> {
    hs.map_values(|h: Heuristic| h.value@)
}

/// The patterns of every item of `items` (`f` gives those of one item),
/// item after item.
pub open spec fn flat_patterns<T>(items: Seq<T>, f: spec_fn(T) -> Seq<Seq<char>>) -> Seq<Seq<char>>
    decreases items.len(),
{
    if items.len() == 0 {
        Seq::empty()
    } else {
        flat_patterns(items.drop_last(), f) + f(items.last())
    }
}

impl SyncProfile {
    /// The profile's patterns: folders, then files.
    pub open spec fn patterns(&self) -> Seq<Seq<char>> {
        texts(self.skip_folders@) + texts(self.skip_files@)
    }

    /// Every pattern of the profile compiles.
    pub open spec fn compiles(&self) -> bool {
        all_compile(self.patterns())
    }
}

impl ProjectType {
    /// The project type's patterns: folders, then files.
    pub open spec fn patterns(&self) -> Seq<Seq<char>> {
        heuristic_patterns(self.folders@) + heuristic_patterns(self.files@)
    }

    /// Every pattern of the project type compiles.
    pub open spec fn compiles(&self) -> bool {
        all_compile(self.patterns())
    }
}

/// The patterns of the profiles `ps`, profile after profile.
pub open spec fn profiles_patterns(ps: Seq<SyncProfile>) -> Seq<Seq<char>> {
    flat_patterns(ps, |p: SyncProfile| p.patterns())
}

/// The patterns of the project types `ts`, type after type.
pub open spec fn project_types_patterns(ts: Seq<ProjectType>) -> Seq<Seq<char>> {
    flat_patterns(ts, |t: ProjectType| t.patterns())
}

impl Config {
    /// The configuration's patterns, in the order they are compiled: the
    /// heuristic skip folders, the global profile, the profiles, then the
    /// project types.
    pub open spec fn patterns(&self) -> Seq<Seq<char>> {
        texts(self.heuristic_skip_folders@) + self.global_profile.patterns() + profiles_patterns(self.profiles@)
            + project_types_patterns(self.heuristics@)
    }

    /// Every pattern of the configuration compiles.
    pub open spec fn compiles(&self) -> bool {
        all_compile(self.patterns())
    }
}

impl Heuristics {
    /// The project types.
    pub closed spec fn types(&self) -> Seq<ProjectType> {
        self.heuristics@
    }

    /// Every pattern of every project type compiles.
    pub open spec fn compiles(&self) -> bool {
        all_compile(project_types_patterns(self.types()))
    }

    pub fn new(heuristics: Vec<ProjectType>) -> (r: Heuristics)
        ensures
            r.types() == heuristics@,
    {
        Heuristics { heuristics }
    }
}

/// `e` is the first pattern of `patterns` that `globber` refuses.
pub open spec fn reports_first_refused(patterns: Seq<Seq<char>>, e: GlobError) -> bool {
    exists|i: int| first_refused(patterns, i) && e.pattern@ == #[trigger] patterns[i]
}

proof fn lemma_all_compile_concat(a: Seq<Seq<char>>, b: Seq<Seq<char>>)
    ensures
        all_compile(a + b) <==> all_compile(a) && all_compile(b),
{
    if all_compile(a + b) {
        assert forall|i: int| 0 <= i < a.len() implies glob_compiles(#[trigger] a[i]) by {
            assert((a + b)[i] == a[i]);
        }
        assert forall|i: int| 0 <= i < b.len() implies glob_compiles(#[trigger] b[i]) by {
            assert((a + b)[a.len() + i] == b[i]);
        }
    }
    if all_compile(a) && all_compile(b) {
        assert forall|i: int| 0 <= i < (a + b).len() implies glob_compiles(#[trigger] (a + b)[i]) by {
            if i < a.len() {
                assert((a + b)[i] == a[i]);
            } else {
                assert((a + b)[i] == b[i - a.len()]);
            }
        }
    }
}

proof fn lemma_first_refused_left(a: Seq<Seq<char>>, b: Seq<Seq<char>>, e: GlobError)
    requires
        reports_first_refused(a, e),
    ensures
        reports_first_refused(a + b, e),
{
    let i = choose|i: int| first_refused(a, i) && e.pattern@ == #[trigger] a[i];
    assert((a + b)[i] == a[i]);
    assert forall|j: int| 0 <= j < i implies glob_compiles(#[trigger] (a + b)[j]) by {
        assert((a + b)[j] == a[j]);
    }
    assert(first_refused(a + b, i));
}

proof fn lemma_first_refused_right(a: Seq<Seq<char>>, b: Seq<Seq<char>>, e: GlobError)
    requires
        all_compile(a),
        reports_first_refused(b, e),
    ensures
        reports_first_refused(a + b, e),
{
    let i = choose|i: int| first_refused(b, i) && e.pattern@ == #[trigger] b[i];
    let k = a.len() + i;
    assert((a + b)[k] == b[i]);
    assert forall|j: int| 0 <= j < k implies glob_compiles(#[trigger] (a + b)[j]) by {
        if j < a.len() {
            assert((a + b)[j] == a[j]);
        } else {
            assert((a + b)[j] == b[j - a.len()]);
        }
    }
    assert(first_refused(a + b, k));
}

proof fn lemma_flat_step<T>(items: Seq<T>, f: spec_fn(T) -> Seq<Seq<char>>, k: int)
    requires
        0 <= k < items.len(),
    ensures
        flat_patterns(items.subrange(0, k + 1), f) == flat_patterns(items.subrange(0, k), f) + f(items[k]),
{
    let t = items.subrange(0, k + 1);
    assert(t.drop_last() == items.subrange(0, k));
    assert(t.last() == items[k]);
}

proof fn lemma_flat_prefix_refused<T>(items: Seq<T>, f: spec_fn(T) -> Seq<Seq<char>>, k: int, e: GlobError)
    requires
        0 <= k <= items.len(),
        reports_first_refused(flat_patterns(items.subrange(0, k), f), e),
    ensures
        reports_first_refused(flat_patterns(items, f), e),
    decreases items.len() - k,
{
    if k == items.len() {
        assert(items.subrange(0, k) == items);
    } else {
        lemma_flat_step(items, f, k);
        lemma_first_refused_left(flat_patterns(items.subrange(0, k), f), f(items[k]), e);
        lemma_flat_prefix_refused(items, f, k + 1, e);
    }
}

impl ReadyHeuristic {
    /// Compiled from `h`: same pattern text, same weight.
    pub open spec fn built_from(&self, h: Heuristic) -> bool {
        self.value@ == h.value@ && self.weight == h.weight
    }
}

/// Each of `rs` was compiled from the heuristic at the same place in `hs`.
pub open spec fn heuristics_built_from(rs: Seq<ReadyHeuristic>, hs: Seq<Heuristic>) -> bool {
    rs.len() == hs.len() && forall|i: int| 0 <= i < rs.len() ==> (#[trigger] rs[i]).built_from(hs[i])
}

impl ReadyProjectType {
    /// Compiled from `pt`.
    pub open spec fn built_from(&self, pt: ProjectType) -> bool {
        &&& self.name@ == pt.name@
        &&& heuristics_built_from(self.folders@, pt.folders@)
        &&& heuristics_built_from(self.files@, pt.files@)
    }
}

/// Each of `rs` was compiled from the project type at the same place in `ts`.
pub open spec fn project_types_built_from(rs: Seq<ReadyProjectType>, ts: Seq<ProjectType>) -> bool {
    rs.len() == ts.len() && forall|i: int| 0 <= i < rs.len() ==> (#[trigger] rs[i]).built_from(ts[i])
}

impl ReadySyncProfile {
    /// Compiled from `p`.
    pub open spec fn built_from(&self, p: SyncProfile) -> bool {
        &&& self.name@ == p.name@
        &&& self.skip_folders@ == texts(p.skip_folders@)
        &&& self.skip_files@ == texts(p.skip_files@)
    }
}

/// Each of `rs` was compiled from the profile at the same place in `ps`.
pub open spec fn profiles_built_from(rs: Seq<ReadySyncProfile>, ps: Seq<SyncProfile>) -> bool {
    rs.len() == ps.len() && forall|i: int| 0 <= i < rs.len() ==> (#[trigger] rs[i]).built_from(ps[i])
}

impl ReadyConfig {
    /// Compiled from `c`.
    pub open spec fn built_from(&self, c: Config) -> bool {
        &&& self.heuristic_skip_folders@ == texts(c.heuristic_skip_folders@)
        &&& self.global_profile.built_from(c.global_profile)
        &&& profiles_built_from(self.profiles@, c.profiles@)
        &&& project_types_built_from(self.heuristics@, c.heuristics@)
    }
}

impl ReadyHeuristics {
    /// The compiled project types.
    pub closed spec fn types(&self) -> Seq<ReadyProjectType> {
        self.heuristics@
    }

    /// Compiled from `h`.
    pub open spec fn built_from(&self, h: Heuristics) -> bool {
        project_types_built_from(self.types(), h.types())
    }
}

// ------------------------------------------------------------------------
// Compiling.

impl ReadyHeuristic {
    /// Compiles the pattern of `h`.
    pub fn build(h: &Heuristic) -> (r: Result<ReadyHeuristic, GlobError>)
        ensures
            r is Ok <==> glob_compiles(h.value@),
            r matches Ok(x) ==> x.built_from(*h),
            r matches Err(e) ==> e.pattern@ == h.value@ && !glob_compiles(e.pattern@),
    {
        match GlobPattern::new(h.value.as_str()) {
            Ok(value) => Ok(ReadyHeuristic { value, weight: h.weight }),
            Err(e) => Err(e),
        }
    }
}

/// Compiles every heuristic of `hs`, in order.
fn build_heuristics(hs: &Vec<Heuristic>) -> (r: Result<Vec<ReadyHeuristic>, GlobError>)
    ensures
        r is Ok <==> all_compile(heuristic_patterns(hs@)),
        r matches Ok(v) ==> heuristics_built_from(v@, hs@),
        r matches Err(e) ==> reports_first_refused(heuristic_patterns(hs@), e),
{
    let ghost ps = heuristic_patterns(hs@);
    let mut out: Vec<ReadyHeuristic> = Vec::new();
    let mut i: usize = 0;
    while i < hs.len()
        invariant
            ps == heuristic_patterns(hs@),
            ps.len() == hs@.len(),
            i <= hs@.len(),
            out@.len() == i,
            forall|j: int| 0 <= j < i ==> (#[trigger] out@[j]).built_from(hs@[j]),
            forall|j: int| 0 <= j < i ==> glob_compiles(#[trigger] ps[j]),
        decreases hs.len() - i,
    {
        assert(ps[i as int] == hs@[i as int].value@);
        match ReadyHeuristic::build(&hs[i]) {
            Ok(x) => out.push(x),
            Err(e) => {
                assert(first_refused(ps, i as int));
                return Err(e);
            },
        }
        i = i + 1;
    }
    Ok(out)
}

impl ReadyProjectType {
    /// Compiles the patterns of `pt`: its folders, then its files.
    pub fn build(pt: &ProjectType) -> (r: Result<ReadyProjectType, GlobError>)
        ensures
            r is Ok <==> pt.compiles(),
            r matches Ok(x) ==> x.built_from(*pt),
            r matches Err(e) ==> reports_first_refused(pt.patterns(), e),
    {
        let ghost a = heuristic_patterns(pt.folders@);
        let ghost b = heuristic_patterns(pt.files@);
        proof {
            lemma_all_compile_concat(a, b);
        }
        let folders = match build_heuristics(&pt.folders) {
            Ok(v) => v,
            Err(e) => {
                proof {
                    lemma_first_refused_left(a, b, e);
                }
                return Err(e);
            },
        };
        let files = match build_heuristics(&pt.files) {
            Ok(v) => v,
            Err(e) => {
                proof {
                    lemma_first_refused_right(a, b, e);
                }
                return Err(e);
            },
        };
        Ok(ReadyProjectType { name: pt.name.clone(), folders, files })
    }
}

/// Compiles every project type of `ts`, in order.
fn build_project_types(ts: &Vec<ProjectType>) -> (r: Result<Vec<ReadyProjectType>, GlobError>)
    ensures
        r is Ok <==> all_compile(project_types_patterns(ts@)),
        r matches Ok(v) ==> project_types_built_from(v@, ts@),
        r matches Err(e) ==> reports_first_refused(project_types_patterns(ts@), e),
{
    let ghost f = |t: ProjectType| t.patterns();
    let mut out: Vec<ReadyProjectType> = Vec::new();
    let mut i: usize = 0;
    assert(ts@.subrange(0, 0) == Seq::<ProjectType>::empty());
    while i < ts.len()
        invariant
            f == (|t: ProjectType| t.patterns()),
            i <= ts@.len(),
            out@.len() == i,
            forall|j: int| 0 <= j < i ==> (#[trigger] out@[j]).built_from(ts@[j]),
            all_compile(flat_patterns(ts@.subrange(0, i as int), f)),
        decreases ts.len() - i,
    {
        proof {
            lemma_flat_step(ts@, f, i as int);
            lemma_all_compile_concat(flat_patterns(ts@.subrange(0, i as int), f), ts@[i as int].patterns());
        }
        match ReadyProjectType::build(&ts[i]) {
            Ok(x) => out.push(x),
            Err(e) => {
                proof {
                    lemma_first_refused_right(flat_patterns(ts@.subrange(0, i as int), f), ts@[i as int].patterns(), e);
                    lemma_flat_prefix_refused(ts@, f, i + 1, e);
                    assert(!all_compile(project_types_patterns(ts@)));
                }
                return Err(e);
            },
        }
        i = i + 1;
    }
    assert(ts@.subrange(0, ts@.len() as int) == ts@);
    Ok(out)
}

impl ReadySyncProfile {
    /// Compiles the patterns of `p`: its folders, then its files.
    pub fn build(p: &SyncProfile) -> (r: Result<ReadySyncProfile, GlobError>)
        ensures
            r is Ok <==> p.compiles(),
            r matches Ok(x) ==> x.built_from(*p),
            r matches Err(e) ==> reports_first_refused(p.patterns(), e),
    {
        let ghost a = texts(p.skip_folders@);
        let ghost b = texts(p.skip_files@);
        proof {
            lemma_all_compile_concat(a, b);
        }
        let skip_folders = match GlobList::build(&p.skip_folders) {
            Ok(l) => l,
            Err(e) => {
                proof {
                    lemma_first_refused_left(a, b, e);
                }
                return Err(e);
            },
        };
        let skip_files = match GlobList::build(&p.skip_files) {
            Ok(l) => l,
            Err(e) => {
                proof {
                    lemma_first_refused_right(a, b, e);
                }
                return Err(e);
            },
        };
        Ok(ReadySyncProfile { name: p.name.clone(), skip_folders, skip_files })
    }
}

/// Compiles every profile of `ps`, in order.
fn build_profiles(ps: &Vec<SyncProfile>) -> (r: Result<Vec<ReadySyncProfile>, GlobError>)
    ensures
        r is Ok <==> all_compile(profiles_patterns(ps@)),
        r matches Ok(v) ==> profiles_built_from(v@, ps@),
        r matches Err(e) ==> reports_first_refused(profiles_patterns(ps@), e),
{
    let ghost f = |p: SyncProfile| p.patterns();
    let mut out: Vec<ReadySyncProfile> = Vec::new();
    let mut i: usize = 0;
    assert(ps@.subrange(0, 0) == Seq::<SyncProfile>::empty());
    while i < ps.len()
        invariant
            f == (|p: SyncProfile| p.patterns()),
            i <= ps@.len(),
            out@.len() == i,
            forall|j: int| 0 <= j < i ==> (#[trigger] out@[j]).built_from(ps@[j]),
            all_compile(flat_patterns(ps@.subrange(0, i as int), f)),
        decreases ps.len() - i,
    {
        proof {
            lemma_flat_step(ps@, f, i as int);
            lemma_all_compile_concat(flat_patterns(ps@.subrange(0, i as int), f), ps@[i as int].patterns());
        }
        match ReadySyncProfile::build(&ps[i]) {
            Ok(x) => out.push(x),
            Err(e) => {
                proof {
                    lemma_first_refused_right(flat_patterns(ps@.subrange(0, i as int), f), ps@[i as int].patterns(), e);
                    lemma_flat_prefix_refused(ps@, f, i + 1, e);
                    assert(!all_compile(profiles_patterns(ps@)));
                }
                return Err(e);
            },
        }
        i = i + 1;
    }
    assert(ps@.subrange(0, ps@.len() as int) == ps@);
    Ok(out)
}

impl ReadyConfig {
    /// Compiles every pattern of `conf`: the heuristic skip folders, the
    /// global profile, the profiles, then the project types.  Fails on the
    /// first pattern that `globber` refuses.
    pub fn build(conf: &Config) -> (r: Result<ReadyConfig, GlobError>)
        ensures
            r is Ok <==> conf.compiles(),
            r matches Ok(x) ==> x.built_from(*conf),
            r matches Err(e) ==> reports_first_refused(conf.patterns(), e),
    {
        let ghost a = texts(conf.heuristic_skip_folders@);
        let ghost b = conf.global_profile.patterns();
        let ghost c = profiles_patterns(conf.profiles@);
        let ghost d = project_types_patterns(conf.heuristics@);
        assert(conf.patterns() == ((a + b) + c) + d);
        proof {
            lemma_all_compile_concat(a, b);
            lemma_all_compile_concat(a + b, c);
            lemma_all_compile_concat((a + b) + c, d);
        }
        let heuristic_skip_folders = match GlobList::build(&conf.heuristic_skip_folders) {
            Ok(l) => l,
            Err(e) => {
                proof {
                    lemma_first_refused_left(a, b, e);
                    lemma_first_refused_left(a + b, c, e);
                    lemma_first_refused_left((a + b) + c, d, e);
                }
                return Err(e);
            },
        };
        let global_profile = match ReadySyncProfile::build(&conf.global_profile) {
            Ok(p) => p,
            Err(e) => {
                proof {
                    lemma_first_refused_right(a, b, e);
                    lemma_first_refused_left(a + b, c, e);
                    lemma_first_refused_left((a + b) + c, d, e);
                }
                return Err(e);
            },
        };
        let profiles = match build_profiles(&conf.profiles) {
            Ok(v) => v,
            Err(e) => {
                proof {
                    lemma_first_refused_right(a + b, c, e);
                    lemma_first_refused_left((a + b) + c, d, e);
                }
                return Err(e);
            },
        };
        let heuristics = match build_project_types(&conf.heuristics) {
            Ok(v) => v,
            Err(e) => {
                proof {
                    lemma_first_refused_right((a + b) + c, d, e);
                }
                return Err(e);
            },
        };
        Ok(ReadyConfig { heuristic_skip_folders, global_profile, profiles, heuristics })
    }
}

impl ReadyHeuristics {
    /// Compiles every project type of `h`, in order.
    pub fn build(h: &Heuristics) -> (r: Result<ReadyHeuristics, GlobError>)
        ensures
            r is Ok <==> h.compiles(),
            r matches Ok(x) ==> x.built_from(*h),
            r matches Err(e) ==> reports_first_refused(project_types_patterns(h.types()), e),
    {
        match build_project_types(&h.heuristics) {
            Ok(v) => Ok(ReadyHeuristics { heuristics: v }),
            Err(e) => Err(e),
        }
    }
}

impl Config {
    /// The heuristic skip folders and the project types.
    pub fn heuristic_parts(self) -> (r: (Vec<String>, Vec<ProjectType>))
        ensures
            r.0 == self.heuristic_skip_folders,
            r.1 == self.heuristics,
    {
        (self.heuristic_skip_folders, self.heuristics)
    }

    /// The global profile and the other profiles.
    pub fn profile_parts(self) -> (r: (SyncProfile, Vec<SyncProfile>))
        ensures
            r.0 == self.global_profile,
            r.1 == self.profiles,
    {
        (self.global_profile, self.profiles)
    }
}

} // verus!
