//! Classifying the folders of a new sync project.
//!
//! While the folders below a project folder are walked, every entry found
//! adds, for every project type, the weights of that type's heuristics whose
//! patterns match the entry's name.  A project type reaching a total weight
//! of 30 becomes a sync profile of the folder.  The walk stops once it has
//! moved on to a new folder more than six times.

use vstd::prelude::*;
use crate::config::{ReadyHeuristic, ReadyProjectType};
use crate::dir_tree::EntryKind;
use crate::glob::{glob_matches, texts};
use crate::project::ProjectDir;

verus! {

/// The profile given to a folder whose project type was not recognised.
pub const UNDETERMINED: &'static str = "<undetermined>";

/// The total weight at which a project type is recognised.
pub const PROFILE_THRESHOLD: i32 = 30;

/// How many times the walk may move on to a new folder before it stops.
pub const MAX_FOLDER_STEPS: u32 = 6;

/// The sum of the weights of the first `n` heuristics of `hs` whose patterns
/// match `name`.
pub open spec fn matched_weight(hs: Seq<ReadyHeuristic>, name: Seq<char>, n: int) -> int
    decreases n,
{
    if n <= 0 {
        0
    } else {
        matched_weight(hs, name, n - 1) + (if glob_matches(hs[n - 1].value@, name) {
            hs[n - 1].weight as int
        } else {
            0
        })
    }
}

/// `matched_weight` over the first `n` heuristics only looks at those `n`.
proof fn lemma_matched_weight_prefix(a: Seq<ReadyHeuristic>, b: Seq<ReadyHeuristic>, name: Seq<char>, n: int)
    requires
        0 <= n <= a.len(),
        n <= b.len(),
        a.subrange(0, n) == b.subrange(0, n),
    ensures
        matched_weight(a, name, n) == matched_weight(b, name, n),
    decreases n,
{
    if n > 0 {
        assert(a[n - 1] == a.subrange(0, n)[n - 1]);
        assert(b[n - 1] == b.subrange(0, n)[n - 1]);
        assert(a.subrange(0, n - 1) == a.subrange(0, n).subrange(0, n - 1));
        assert(b.subrange(0, n - 1) == b.subrange(0, n).subrange(0, n - 1));
        lemma_matched_weight_prefix(a, b, name, n - 1);
    }
}

/// The weight of a list of heuristics is additive: the heuristics of `hs1`
/// followed by those of `hs2` weigh what `hs1` and `hs2` weigh together,
/// so every matching heuristic counts, not only the first one.
pub proof fn law_matched_weight_additive(hs1: Seq<ReadyHeuristic>, hs2: Seq<ReadyHeuristic>, name: Seq<char>)
    ensures
        matched_weight(hs1 + hs2, name, (hs1 + hs2).len() as int) == matched_weight(hs1, name, hs1.len() as int)
            + matched_weight(hs2, name, hs2.len() as int),
    decreases hs2.len(),
{
    let s = hs1 + hs2;
    if hs2.len() == 0 {
        assert(s == hs1);
    } else {
        let d = hs2.drop_last();
        law_matched_weight_additive(hs1, d, name);
        assert(s.subrange(0, s.len() - 1) == (hs1 + d).subrange(0, s.len() - 1));
        lemma_matched_weight_prefix(s, hs1 + d, name, s.len() - 1);
        assert(hs2.subrange(0, hs2.len() - 1) == d.subrange(0, d.len() as int));
        lemma_matched_weight_prefix(hs2, d, name, hs2.len() - 1);
        assert(s[s.len() - 1] == hs2[hs2.len() - 1]);
        assert((hs1 + d).len() == s.len() - 1);
        assert(matched_weight(hs2, name, hs2.len() as int) == matched_weight(hs2, name, hs2.len() - 1) + (
        if glob_matches(hs2[hs2.len() - 1].value@, name) {
            hs2[hs2.len() - 1].weight as int
        } else {
            0
        }));
        assert(matched_weight(s, name, s.len() as int) == matched_weight(s, name, s.len() - 1) + (
        if glob_matches(s[s.len() - 1].value@, name) {
            s[s.len() - 1].weight as int
        } else {
            0
        }));
    }
}

/// No heuristic weighs nothing, and a single heuristic weighs its weight
/// when its pattern matches the name and nothing otherwise.
pub proof fn law_matched_weight_single(h: ReadyHeuristic, name: Seq<char>)
    ensures
        matched_weight(Seq::<ReadyHeuristic>::empty(), name, 0) == 0,
        matched_weight(seq![h], name, 1) == (if glob_matches(h.value@, name) {
            h.weight as int
        } else {
            0
        }),
{
    assert(seq![h][0] == h);
    assert(matched_weight(seq![h], name, 0) == 0);
}

/// Every partial sum of `matched_weight` fits in an `i32`.
pub open spec fn sum_fits(hs: Seq<ReadyHeuristic>, name: Seq<char>) -> bool {
    forall|k: int| 0 <= k <= hs.len() ==> i32::MIN <= #[trigger] matched_weight(hs, name, k) <= i32::MAX
}

/// What an entry called `name` of kind `kind` adds to project type `pt`:
/// the matched folder weights for a folder, the matched file weights for a
/// file, nothing otherwise.
pub open spec fn entry_weight(pt: ReadyProjectType, name: Seq<char>, kind: EntryKind) -> int {
    match kind {
        EntryKind::Dir => matched_weight(pt.folders@, name, pt.folders@.len() as int),
        EntryKind::File => matched_weight(pt.files@, name, pt.files@.len() as int),
        EntryKind::Other => 0,
    }
}

/// The sums behind `entry_weight` fit in an `i32`.
pub open spec fn entry_fits(pt: ReadyProjectType, name: Seq<char>, kind: EntryKind) -> bool {
    match kind {
        EntryKind::Dir => sum_fits(pt.folders@, name),
        EntryKind::File => sum_fits(pt.files@, name),
        EntryKind::Other => true,
    }
}

/// The weight recorded for `key`, zero when none is.
pub open spec fn recorded(m: Map<Seq<char>, int>, key: Seq<char>) -> int {
    if m.contains_key(key) {
        m[key]
    } else {
        0
    }
}

/// Adds a positive weight `w` to the total of `key`.
pub open spec fn add_weight(m: Map<Seq<char>, int>, key: Seq<char>, w: int) -> Map<Seq<char>, int> {
    if w > 0 {
        m.insert(key, recorded(m, key) + w)
    } else {
        m
    }
}

/// The totals after the first `k` project types of `types` have scored an
/// entry called `name` of kind `kind`.
pub open spec fn weights_after(
    m: Map<Seq<char>, int>,
    types: Seq<ReadyProjectType>,
    name: Seq<char>,
    kind: EntryKind,
    k: int,
) -> Map<Seq<char>, int>
    decreases k,
{
    if k <= 0 {
        m
    } else {
        add_weight(
            weights_after(m, types, name, kind, k - 1),
            types[k - 1].name@,
            entry_weight(types[k - 1], name, kind),
        )
    }
}

/// Scoring with the first `k` project types stays within `i32` (where it
/// does not, the `i32` sums overflow).
pub open spec fn scoring_fits(
    m: Map<Seq<char>, int>,
    types: Seq<ReadyProjectType>,
    name: Seq<char>,
    kind: EntryKind,
    k: int,
) -> bool
    decreases k,
{
    if k <= 0 {
        true
    } else {
        &&& scoring_fits(m, types, name, kind, k - 1)
        &&& entry_fits(types[k - 1], name, kind)
        &&& (entry_weight(types[k - 1], name, kind) > 0 ==> recorded(
            weights_after(m, types, name, kind, k - 1),
            types[k - 1].name@,
        ) + entry_weight(types[k - 1], name, kind) <= i32::MAX)
    }
}

/// The map whose entries are `names[i] -> totals[i]` (later entries win).
pub open spec fn table(names: Seq<Seq<char>>, totals: Seq<i32>) -> Map<Seq<char>, int>
    decreases names.len(),
{
    if names.len() == 0 || totals.len() == 0 {
        Map::empty()
    } else {
        table(names.drop_last(), totals.drop_last()).insert(names.last(), totals.last() as int)
    }
}

proof fn lemma_table_keys(names: Seq<Seq<char>>, totals: Seq<i32>, key: Seq<char>)
    requires
        names.len() == totals.len(),
    ensures
        table(names, totals).contains_key(key) <==> names.contains(key),
    decreases names.len(),
{
    if names.len() > 0 {
        lemma_table_keys(names.drop_last(), totals.drop_last(), key);
        if names.drop_last().contains(key) {
            let i = choose|i: int| 0 <= i < names.drop_last().len() && names.drop_last()[i] == key;
            assert(names[i] == key);
        }
        if names.contains(key) && key != names.last() {
            let i = choose|i: int| 0 <= i < names.len() && names[i] == key;
            assert(i != names.len() - 1);
            assert(names.drop_last()[i] == key);
        }
        if key == names.last() {
            assert(names[names.len() - 1] == key);
        }
    }
}

proof fn lemma_table_lookup(names: Seq<Seq<char>>, totals: Seq<i32>, i: int)
    requires
        names.len() == totals.len(),
        names.no_duplicates(),
        0 <= i < names.len(),
    ensures
        table(names, totals).contains_key(names[i]),
        table(names, totals)[names[i]] == totals[i] as int,
    decreases names.len(),
{
    if i < names.len() - 1 {
        let d = names.drop_last();
        assert(d.no_duplicates());
        lemma_table_lookup(d, totals.drop_last(), i);
        assert(d[i] == names[i]);
        assert(names[i] != names.last());
    }
}

proof fn lemma_table_update(names: Seq<Seq<char>>, totals: Seq<i32>, i: int, v: i32)
    requires
        names.len() == totals.len(),
        names.no_duplicates(),
        0 <= i < names.len(),
    ensures
        table(names, totals.update(i, v)) == table(names, totals).insert(names[i], v as int),
    decreases names.len(),
{
    let u = totals.update(i, v);
    let d = names.drop_last();
    if i == names.len() - 1 {
        assert(u.drop_last() == totals.drop_last());
        assert(table(names, u) =~= table(names, totals).insert(names[i], v as int));
    } else {
        assert(d.no_duplicates());
        lemma_table_update(d, totals.drop_last(), i, v);
        assert(u.drop_last() == totals.drop_last().update(i, v));
        assert(d[i] == names[i]);
        assert(names[i] != names.last());
        assert(table(names, u) =~= table(names, totals).insert(names[i], v as int));
    }
}

proof fn lemma_table_push(names: Seq<Seq<char>>, totals: Seq<i32>, key: Seq<char>, v: i32)
    requires
        names.len() == totals.len(),
    ensures
        table(names.push(key), totals.push(v)) == table(names, totals).insert(key, v as int),
{
    assert(names.push(key).drop_last() == names);
    assert(totals.push(v).drop_last() == totals);
}

/// A positive weight could not be added without overflowing an `i32`.
#[derive(Debug)]
pub struct WeightOverflow;

/// The running state of the classification of one project folder.
pub struct Classifier {
    names: Vec<String>,
    totals: Vec<i32>,
    steps: u32,
    last_dir_count: usize,
}

impl Classifier {
    pub closed spec fn wf(&self) -> bool {
        &&& self.names@.len() == self.totals@.len()
        &&& texts(self.names@).no_duplicates()
    }

    /// The total weight of every project type name that has scored.
    pub closed spec fn weights(&self) -> Map<Seq<char>, int> {
        table(texts(self.names@), self.totals@)
    }

    /// How many times the walk has moved on to a new folder.
    pub closed spec fn steps(&self) -> nat {
        self.steps as nat
    }

    /// The number of queued folders seen after the last entry.
    pub closed spec fn last_dir_count(&self) -> nat {
        self.last_dir_count as nat
    }

    /// A fresh classification of a walk whose queue holds `remaining`
    /// folders.
    pub fn new(remaining: usize) -> (r: Classifier)
        ensures
            r.wf(),
            r.weights() == Map::<Seq<char>, int>::empty(),
            r.steps() == 0,
            r.last_dir_count() == remaining,
    {
        let r = Classifier { names: Vec::new(), totals: Vec::new(), steps: 0, last_dir_count: remaining };
        assert(texts(r.names@) =~= Seq::<Seq<char>>::empty());
        r
    }

    /// Whether the walk has moved on to a new folder too often and stops.
    pub fn is_done(&self) -> (r: bool)
        ensures
            r == (self.steps() > MAX_FOLDER_STEPS),
    {
        self.steps > MAX_FOLDER_STEPS
    }

    /// The sum of the weights of the heuristics of `hs` whose patterns match
    /// `name`, or `None` when a partial sum leaves the `i32` range.
    fn heuristic_sum(hs: &Vec<ReadyHeuristic>, name: &str) -> (r: Option<i32>)
        ensures
            r is Some <==> sum_fits(hs@, name@),
            r matches Some(w) ==> w as int == matched_weight(hs@, name@, hs@.len() as int),
    {
        let mut total: i32 = 0;
        let mut i: usize = 0;
        while i < hs.len()
            invariant
                i <= hs@.len(),
                total as int == matched_weight(hs@, name@, i as int),
                forall|k: int| 0 <= k <= i ==> i32::MIN <= #[trigger] matched_weight(hs@, name@, k)
                    <= i32::MAX,
            decreases hs.len() - i,
        {
            if hs[i].value.matches(name) {
                match total.checked_add(hs[i].weight) {
                    Some(t) => total = t,
                    None => {
                        assert(!(i32::MIN <= matched_weight(hs@, name@, i + 1) <= i32::MAX));
                        return None;
                    },
                }
            }
            assert(total as int == matched_weight(hs@, name@, i + 1));
            i = i + 1;
        }
        Some(total)
    }

    /// The weight that an entry adds to project type `pt`, or `None` on
    /// overflow.
    fn entry_score(pt: &ReadyProjectType, name: &str, kind: EntryKind) -> (r: Option<i32>)
        ensures
            r is Some <==> entry_fits(*pt, name@, kind),
            r matches Some(w) ==> w as int == entry_weight(*pt, name@, kind),
    {
        match kind {
            EntryKind::Dir => Classifier::heuristic_sum(&pt.folders, name),
            EntryKind::File => Classifier::heuristic_sum(&pt.files, name),
            EntryKind::Other => Some(0),
        }
    }

    /// Adds `w` to the total of `key`.
    fn add(&mut self, key: &String, w: i32) -> (r: Result<(), WeightOverflow>)
        requires
            old(self).wf(),
            w > 0,
        ensures
            r is Ok <==> recorded(old(self).weights(), key@) + w <= i32::MAX,
            final(self).wf(),
            r is Err ==> *final(self) == *old(self),
            r is Ok ==> final(self).weights() == add_weight(
                old(self).weights(),
                key@,
                w as int,
            ),
            final(self).steps() == old(self).steps(),
            final(self).last_dir_count() == old(self).last_dir_count(),
    {
        let ghost ns = texts(self.names@);
        let mut i: usize = 0;
        while i < self.names.len()
            invariant
                ns == texts(self.names@),
                *self == *old(self),
                w > 0,
                self.wf(),
                ns.no_duplicates(),
                i <= self.names@.len(),
                forall|j: int| 0 <= j < i ==> ns[j] != key@,
            decreases self.names.len() - i,
        {
            if self.names[i] == *key {
                proof {
                    lemma_table_lookup(ns, self.totals@, i as int);
                    assert(ns[i as int] == self.names@[i as int]@);
                    assert(ns[i as int] == key@);
                    assert(recorded(self.weights(), key@) == self.totals@[i as int] as int);
                }
                let cur = self.totals[i];
                match cur.checked_add(w) {
                    Some(t) => {
                        assert(t as int == cur as int + w as int);
                        proof {
                            lemma_table_update(ns, self.totals@, i as int, t);
                        }
                        self.totals.set(i, t);
                        assert(self.totals@ == old(self).totals@.update(i as int, t));
                        assert(self.names@ == old(self).names@);
                        assert(self.weights() == old(self).weights().insert(key@, t as int));
                        return Ok(());
                    },
                    None => {
                        assert(cur as int + w as int > i32::MAX);
                        return Err(WeightOverflow);
                    },
                }
            }
            i = i + 1;
        }
        proof {
            lemma_table_keys(ns, self.totals@, key@);
            assert(!ns.contains(key@));
            lemma_table_push(ns, self.totals@, key@, w);
            assert(ns.push(key@).no_duplicates());
        }
        self.names.push(key.clone());
        self.totals.push(w);
        assert(texts(self.names@) == ns.push(key@));
        Ok(())
    }

    /// Scores an entry found by the walk and notes how many folders are
    /// queued after it.  An entry without a name is passed over entirely.
    /// Every project type adds the matched weights of the entry to its
    /// total; when the queue has shrunk since the last entry the walk has
    /// moved on to a new folder.  Fails when a sum leaves the `i32` range.
    pub fn observe(
        &mut self,
        name: Option<&str>,
        kind: EntryKind,
        types: &Vec<ReadyProjectType>,
        remaining: usize,
    ) -> (r: Result<(), WeightOverflow>)
        requires
            old(self).wf(),
            old(self).steps() <= MAX_FOLDER_STEPS,
        ensures
            final(self).wf(),
            name is None ==> r is Ok && *final(self) == *old(self),
            name matches Some(n) ==> (r is Ok <==> scoring_fits(
                old(self).weights(),
                types@,
                n@,
                kind,
                types@.len() as int,
            )),
            name matches Some(n) ==> r is Ok ==> {
                &&& final(self).wf()
                &&& final(self).weights() == weights_after(
                    old(self).weights(),
                    types@,
                    n@,
                    kind,
                    types@.len() as int,
                )
                &&& final(self).steps() == old(self).steps() + (if remaining < old(self).last_dir_count() {
                    1nat
                } else {
                    0nat
                })
                &&& final(self).last_dir_count() == remaining
            },
    {
        let n = match name {
            Some(n) => n,
            None => return Ok(()),
        };
        let ghost m0 = self.weights();
        let mut k: usize = 0;
        while k < types.len()
            invariant
                self.wf(),
                k <= types@.len(),
                self.weights() == weights_after(m0, types@, n@, kind, k as int),
                scoring_fits(m0, types@, n@, kind, k as int),
                self.steps() == old(self).steps(),
                self.last_dir_count() == old(self).last_dir_count(),
                self.steps() <= MAX_FOLDER_STEPS,
                name == Some(n),
                m0 == old(self).weights(),
            decreases types.len() - k,
        {
            let pt = &types[k];
            let w = match Classifier::entry_score(pt, n, kind) {
                Some(w) => w,
                None => {
                    proof {
                        assert(!scoring_fits(m0, types@, n@, kind, k as int + 1));
                        lemma_scoring_fits_prefix(m0, types@, n@, kind, k as int + 1, types@.len() as int);
                    }
                    return Err(WeightOverflow);
                },
            };
            if w > 0 {
                match self.add(&pt.name, w) {
                    Ok(()) => {},
                    Err(e) => {
                        proof {
                            assert(!scoring_fits(m0, types@, n@, kind, k as int + 1));
                            lemma_scoring_fits_prefix(m0, types@, n@, kind, k as int + 1, types@.len() as int);
                        }
                        return Err(e);
                    },
                }
            }
            k = k + 1;
        }
        if remaining < self.last_dir_count {
            self.steps = self.steps + 1;
        }
        self.last_dir_count = remaining;
        Ok(())
    }

    /// The names of the project types whose total weight reached the
    /// threshold, each once.
    pub fn profiles(&self) -> (r: Vec<String>)
        requires
            self.wf(),
        ensures
            texts(r@).no_duplicates(),
            forall|key: Seq<char>|
                texts(r@).contains(key) <==> (self.weights().contains_key(key)
                    && self.weights()[key] >= PROFILE_THRESHOLD),
    {
        let ghost ns = texts(self.names@);
        let mut out: Vec<String> = Vec::new();
        let mut i: usize = 0;
        while i < self.names.len()
            invariant
                self.wf(),
                ns == texts(self.names@),
                i <= self.names@.len(),
                texts(out@).no_duplicates(),
                forall|key: Seq<char>|
                    #[trigger] texts(out@).contains(key) <==> exists|j: int|
                        0 <= j < i && #[trigger] ns[j] == key && self.totals@[j] >= PROFILE_THRESHOLD,
            decreases self.names.len() - i,
        {
            let ghost before = texts(out@);
            if self.totals[i] >= PROFILE_THRESHOLD {
                assert(!before.contains(ns[i as int])) by {
                    if before.contains(ns[i as int]) {
                        let j = choose|j: int| 0 <= j < i && ns[j] == ns[i as int] && self.totals@[j]
                            >= PROFILE_THRESHOLD;
                    }
                }
                out.push(self.names[i].clone());
                assert(texts(out@) == before.push(ns[i as int]));
                assert forall|key: Seq<char>|
                    #[trigger] texts(out@).contains(key) <==> exists|j: int|
                        0 <= j < i + 1 && #[trigger] ns[j] == key && self.totals@[j] >= PROFILE_THRESHOLD by {
                    if texts(out@).contains(key) {
                        let k = choose|k: int| 0 <= k < texts(out@).len() && texts(out@)[k] == key;
                        if k < before.len() {
                            assert(before[k] == key);
                            assert(before.contains(key));
                        } else {
                            assert(ns[i as int] == key);
                        }
                    }
                    if exists|j: int| 0 <= j < i + 1 && #[trigger] ns[j] == key && self.totals@[j] >= PROFILE_THRESHOLD {
                        let j = choose|j: int| 0 <= j < i + 1 && #[trigger] ns[j] == key && self.totals@[j] >= PROFILE_THRESHOLD;
                        if j < i {
                            assert(before.contains(key));
                            let k = choose|k: int| 0 <= k < before.len() && before[k] == key;
                            assert(texts(out@)[k] == key);
                        } else {
                            assert(texts(out@)[before.len() as int] == key);
                        }
                    }
                }
            } else {
                assert forall|key: Seq<char>|
                    #[trigger] texts(out@).contains(key) <==> exists|j: int|
                        0 <= j < i + 1 && #[trigger] ns[j] == key && self.totals@[j] >= PROFILE_THRESHOLD by {
                    if exists|j: int| 0 <= j < i + 1 && #[trigger] ns[j] == key && self.totals@[j] >= PROFILE_THRESHOLD {
                        let j = choose|j: int| 0 <= j < i + 1 && #[trigger] ns[j] == key && self.totals@[j] >= PROFILE_THRESHOLD;
                        assert(j < i);
                    }
                }
            }
            i = i + 1;
        }
        assert forall|key: Seq<char>|
            texts(out@).contains(key) <==> (self.weights().contains_key(key)
                && self.weights()[key] >= PROFILE_THRESHOLD) by {
            lemma_table_keys(ns, self.totals@, key);
            if self.weights().contains_key(key) {
                let j = choose|j: int| 0 <= j < ns.len() && ns[j] == key;
                lemma_table_lookup(ns, self.totals@, j);
                if self.weights()[key] >= PROFILE_THRESHOLD {
                    assert(ns[j] == key && self.totals@[j] >= PROFILE_THRESHOLD);
                }
                if texts(out@).contains(key) {
                    let j2 = choose|j2: int| 0 <= j2 < ns.len() && ns[j2] == key && self.totals@[j2]
                        >= PROFILE_THRESHOLD;
                    assert(j2 == j);
                }
            } else {
                if texts(out@).contains(key) {
                    let j2 = choose|j2: int| 0 <= j2 < ns.len() && ns[j2] == key && self.totals@[j2]
                        >= PROFILE_THRESHOLD;
                    assert(ns.contains(key));
                }
            }
        }
        out
    }

    /// The classified folder `root`: its profiles are the recognised
    /// project types, or the undetermined profile alone when none was
    /// recognised; also whether any was.
    pub fn finish(&self, root: String) -> (r: (ProjectDir, bool))
        requires
            self.wf(),
        ensures
            r.0.root == root,
            r.1 <==> exists|key: Seq<char>| self.weights().contains_key(key) && self.weights()[key]
                >= PROFILE_THRESHOLD,
            r.1 ==> forall|key: Seq<char>|
                texts(r.0.profiles@).contains(key) <==> (self.weights().contains_key(
                    key,
                ) && self.weights()[key] >= PROFILE_THRESHOLD),
            r.1 ==> texts(r.0.profiles@).no_duplicates(),
            !r.1 ==> r.0.profiles@.len() == 1 && r.0.profiles@[0]@ == UNDETERMINED@,
    {
        let profiles = self.profiles();
        if profiles.len() > 0 {
            proof {
                let key = profiles@[0]@;
                assert(texts(profiles@)[0] == key);
                assert(texts(profiles@).contains(key));
                assert(self.weights().contains_key(key) && self.weights()[key] >= PROFILE_THRESHOLD);
            }
            (ProjectDir { root, profiles }, true)
        } else {
            proof {
                assert forall|key: Seq<char>|
                    !(self.weights().contains_key(key) && self.weights()[key] >= PROFILE_THRESHOLD) by {
                    if self.weights().contains_key(key) && self.weights()[key] >= PROFILE_THRESHOLD {
                        assert(texts(profiles@).contains(key));
                    }
                }
            }
            let mut profiles = Vec::new();
            profiles.push(String::from_str(UNDETERMINED));
            (ProjectDir { root, profiles }, false)
        }
    }
}

/// Failing to fit at step `k` means failing to fit at every later step.
proof fn lemma_scoring_fits_prefix(
    m: Map<Seq<char>, int>,
    types: Seq<ReadyProjectType>,
    name: Seq<char>,
    kind: EntryKind,
    k: int,
    n: int,
)
    requires
        0 <= k <= n,
        !scoring_fits(m, types, name, kind, k),
    ensures
        !scoring_fits(m, types, name, kind, n),
    decreases n - k,
{
    if k < n {
        lemma_scoring_fits_prefix(m, types, name, kind, k + 1, n);
    }
}

} // verus!
