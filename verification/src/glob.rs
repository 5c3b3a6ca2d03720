//! Glob patterns and lists of them, as used for skip lists and heuristics.
//!
//! Patterns are compiled and matched by the `globber` crate.  What a pattern
//! matches is named here (`glob_matches`), not restated: the library's
//! contracts are stated over that name.

use vstd::prelude::*;

verus! {

#[verifier::external_type_specification]
#[verifier::external_body]
pub struct ExGlobberPattern(globber::Pattern);

#[verifier::external_type_specification]
#[verifier::external_body]
pub struct ExGlobberError(globber::Error);

/// Whether `globber` accepts `pattern` as a glob pattern.
pub uninterp spec fn glob_compiles(pattern: Seq<char>) -> bool;

/// Whether the glob `pattern`, once compiled by `globber`, matches `input`.
pub uninterp spec fn glob_matches(pattern: Seq<char>, input: Seq<char>) -> bool;

/// A compiled glob pattern, together with the text it was compiled from.
pub struct GlobPattern {
    source: String,
    compiled: globber::Pattern,
}

impl View for GlobPattern {
    type V = Seq<char>;

    /// The text the pattern was compiled from.
    closed spec fn view(&self) -> Seq<char> {
        self.source@
    }
}

/// Compiles `pattern` with `globber::Pattern::new`.
///
/// Trusted: the call succeeds exactly when `globber` accepts the pattern
/// (named `glob_compiles`), and the compiled pattern keeps `pattern` as its
/// text.  Which syntax `globber` accepts is left unsaid.
#[verifier::external_body]
fn compile_pattern(pattern: &str) -> (r: Result<GlobPattern, globber::Error>)
    ensures
        r is Ok <==> glob_compiles(pattern@),
        r matches Ok(p) ==> p@ == pattern@,
{
    match globber::Pattern::new(pattern) {
        Ok(compiled) => Ok(GlobPattern { source: pattern.to_string(), compiled }),
        Err(e) => Err(e),
    }
}

/// Matches `input` against `pattern` with `globber::Pattern::matches`.
///
/// Trusted: the answer is `glob_matches` of the pattern's text and the input.
/// This rests on every `GlobPattern` holding what `globber::Pattern::new`
/// made of its text (only `compile_pattern` and `clone_pattern` build one),
/// and on `matches` reading nothing but the compiled pattern and the input.
/// What a pattern matches is left unsaid.
#[verifier::external_body]
fn match_pattern(pattern: &GlobPattern, input: &str) -> (r: bool)
    ensures
        r == glob_matches(pattern@, input@),
{
    pattern.compiled.matches(input)
}

/// Copies a compiled pattern with `globber::Pattern`'s `Clone`.
///
/// Trusted: the copy has the same text as the pattern copied (the compiled form is
/// copied field by field by the derived `Clone`).
#[verifier::external_body]
fn clone_pattern(pattern: &GlobPattern) -> (r: GlobPattern)
    ensures
        r@ == pattern@,
{
    GlobPattern { source: pattern.source.clone(), compiled: pattern.compiled.clone() }
}

/// A glob pattern that `globber` refused.
#[derive(Debug)]
pub struct GlobError {
    /// The refused pattern.
    pub pattern: String,
}

impl GlobPattern {
    /// Compiles `pattern`; fails exactly when `globber` refuses it.
    pub fn new(pattern: &str) -> (r: Result<GlobPattern, GlobError>)
        ensures
            r is Ok <==> glob_compiles(pattern@),
            r matches Ok(p) ==> p@ == pattern@,
            r matches Err(e) ==> e.pattern@ == pattern@,
    {
        match compile_pattern(pattern) {
            Ok(p) => Ok(p),
            Err(_) => Err(GlobError { pattern: String::from_str(pattern) }),
        }
    }

    /// Whether the pattern matches `input`.
    pub fn matches(&self, input: &str) -> (r: bool)
        ensures
            r == glob_matches(self@, input@),
    {
        match_pattern(self, input)
    }

    /// A copy of the pattern.
    pub fn duplicate(&self) -> (r: GlobPattern)
        ensures
            r@ == self@,
    {
        clone_pattern(self)
    }

    /// The text the pattern was compiled from.
    pub fn as_str(&self) -> (r: &str)
        ensures
            r@ == self@,
    {
        self.source.as_str()
    }
}

/// The texts of a sequence of strings.
pub open spec fn texts(v: Seq<String>) -> Seq<Seq<char>> {
    v.map_values(|s: String| s@)
}

/// Some pattern of `patterns` matches `input`.
pub open spec fn any_matches(patterns: Seq<Seq<char>>, input: Seq<char>) -> bool {
    exists|i: int| 0 <= i < patterns.len() && glob_matches(#[trigger] patterns[i], input)
}

/// Every pattern of `patterns` compiles.
pub open spec fn all_compile(patterns: Seq<Seq<char>>) -> bool {
    forall|i: int| 0 <= i < patterns.len() ==> glob_compiles(#[trigger] patterns[i])
}

/// The index of the first pattern of `patterns` that does not compile.
pub open spec fn first_refused(patterns: Seq<Seq<char>>, i: int) -> bool {
    &&& 0 <= i < patterns.len()
    &&& !glob_compiles(patterns[i])
    &&& forall|j: int| 0 <= j < i ==> glob_compiles(#[trigger] patterns[j])
}

/// A list of compiled glob patterns; a name is matched by the list when any
/// of its patterns matches it.
pub struct GlobList {
    patterns: Vec<GlobPattern>,
}

impl View for GlobList {
    type V = Seq<Seq<char>>;

    /// The texts of the patterns, in order.
    closed spec fn view(&self) -> Seq<Seq<char>> {
        self.patterns@.map_values(|p: GlobPattern| p@)
    }
}

/// The patterns of `lists`, one list after the other.
pub open spec fn concat_lists(lists: Seq<Seq<Seq<char>>>) -> Seq<Seq<char>>
    decreases lists.len(),
{
    if lists.len() == 0 {
        Seq::empty()
    } else {
        concat_lists(lists.drop_last()) + lists.last()
    }
}

impl GlobList {
    /// The empty list, which matches nothing.
    pub fn new() -> (r: GlobList)
        ensures
            r@ == Seq::<Seq<char>>::empty(),
    {
        let r = GlobList { patterns: Vec::new() };
        assert(r@ =~= Seq::<Seq<char>>::empty());
        r
    }

    /// Compiles every pattern of `patterns`, in order; fails on the first one
    /// that `globber` refuses.
    pub fn build(patterns: &Vec<String>) -> (r: Result<GlobList, GlobError>)
        ensures
            r is Ok <==> all_compile(texts(patterns@)),
            r matches Ok(l) ==> l@ == texts(patterns@),
            r matches Err(e) ==> exists|i: int|
                first_refused(texts(patterns@), i) && e.pattern@ == #[trigger] texts(patterns@)[i],
    {
        let ghost ts = texts(patterns@);
        let mut out: Vec<GlobPattern> = Vec::new();
        let mut i: usize = 0;
        while i < patterns.len()
            invariant
                ts == texts(patterns@),
                ts.len() == patterns@.len(),
                i <= patterns@.len(),
                out@.map_values(|p: GlobPattern| p@) == ts.subrange(0, i as int),
                forall|j: int| 0 <= j < i ==> glob_compiles(#[trigger] ts[j]),
            decreases patterns.len() - i,
        {
            assert(ts[i as int] == patterns@[i as int]@);
            match GlobPattern::new(patterns[i].as_str()) {
                Ok(p) => {
                    out.push(p);
                    assert(ts.subrange(0, i + 1) == ts.subrange(0, i as int).push(ts[i as int]));
                    assert(out@.map_values(|p: GlobPattern| p@) == ts.subrange(0, i as int).push(ts[i as int]));
                },
                Err(e) => {
                    assert(first_refused(ts, i as int));
                    assert(!all_compile(ts));
                    return Err(e);
                },
            }
            i = i + 1;
        }
        assert(ts.subrange(0, patterns@.len() as int) == ts);
        Ok(GlobList { patterns: out })
    }

    /// Whether some pattern of the list matches `input`.
    pub fn any_match(&self, input: &str) -> (r: bool)
        ensures
            r == any_matches(self@, input@),
    {
        let ghost ps = self@;
        let mut i: usize = 0;
        while i < self.patterns.len()
            invariant
                ps == self@,
                ps == self.patterns@.map_values(|p: GlobPattern| p@),
                ps.len() == self.patterns@.len(),
                i <= self.patterns@.len(),
                forall|j: int| 0 <= j < i ==> !glob_matches(#[trigger] ps[j], input@),
            decreases self.patterns.len() - i,
        {
            if self.patterns[i].matches(input) {
                assert(glob_matches(ps[i as int], input@));
                return true;
            }
            i = i + 1;
        }
        false
    }

    /// The number of patterns.
    pub fn len(&self) -> (r: usize)
        ensures
            r == self@.len(),
    {
        self.patterns.len()
    }

    /// A copy of the list.
    pub fn duplicate(&self) -> (r: GlobList)
        ensures
            r@ == self@,
    {
        let ghost ps = self@;
        let mut out: Vec<GlobPattern> = Vec::new();
        let mut i: usize = 0;
        while i < self.patterns.len()
            invariant
                ps == self.patterns@.map_values(|p: GlobPattern| p@),
                ps.len() == self.patterns@.len(),
                i <= self.patterns@.len(),
                out@.map_values(|p: GlobPattern| p@) == ps.subrange(0, i as int),
            decreases self.patterns.len() - i,
        {
            out.push(self.patterns[i].duplicate());
            assert(ps.subrange(0, i + 1) == ps.subrange(0, i as int).push(ps[i as int]));
            assert(out@.map_values(|p: GlobPattern| p@) == ps.subrange(0, i as int).push(ps[i as int]));
            i = i + 1;
        }
        assert(ps.subrange(0, ps.len() as int) == ps);
        GlobList { patterns: out }
    }

    /// One list holding the patterns of `lists`, one list after the other.
    pub fn combine(lists: Vec<GlobList>) -> (r: GlobList)
        ensures
            r@ == concat_lists(lists@.map_values(|l: GlobList| l@)),
    {
        let ghost ls = lists@.map_values(|l: GlobList| l@);
        let mut out: Vec<GlobPattern> = Vec::new();
        let mut i: usize = 0;
        assert(ls.subrange(0, 0) == Seq::<Seq<Seq<char>>>::empty());
        while i < lists.len()
            invariant
                ls == lists@.map_values(|l: GlobList| l@),
                ls.len() == lists@.len(),
                i <= lists@.len(),
                out@.map_values(|p: GlobPattern| p@) == concat_lists(ls.subrange(0, i as int)),
            decreases lists.len() - i,
        {
            let l = &lists[i];
            let ghost before = out@.map_values(|p: GlobPattern| p@);
            let ghost lp = l@;
            assert(lp == ls[i as int]);
            let mut j: usize = 0;
            while j < l.patterns.len()
                invariant
                    lp == l.patterns@.map_values(|p: GlobPattern| p@),
                    lp.len() == l.patterns@.len(),
                    j <= l.patterns@.len(),
                    out@.map_values(|p: GlobPattern| p@) == before + lp.subrange(0, j as int),
                decreases l.patterns.len() - j,
            {
                out.push(l.patterns[j].duplicate());
                assert(lp.subrange(0, j + 1) == lp.subrange(0, j as int).push(lp[j as int]));
                assert(out@.map_values(|p: GlobPattern| p@) == (before + lp.subrange(0, j as int)).push(lp[j as int]));
                j = j + 1;
            }
            assert(lp.subrange(0, lp.len() as int) == lp);
            let ghost pre = ls.subrange(0, i + 1);
            assert(pre.drop_last() == ls.subrange(0, i as int));
            assert(pre.last() == lp);
            i = i + 1;
        }
        assert(ls.subrange(0, ls.len() as int) == ls);
        GlobList { patterns: out }
    }
}

/// A combined list matches a name exactly when one of the lists it was made
/// from matches it.
pub proof fn law_combined_lists_match(lists: Seq<Seq<Seq<char>>>, input: Seq<char>)
    ensures
        any_matches(concat_lists(lists), input) <==> exists|k: int|
            0 <= k < lists.len() && any_matches(#[trigger] lists[k], input),
    decreases lists.len(),
{
    if lists.len() > 0 {
        let d = lists.drop_last();
        law_combined_lists_match(d, input);
        let a = concat_lists(d);
        let b = lists.last();
        let c = a + b;
        assert(c == concat_lists(lists));
        if any_matches(c, input) {
            let i = choose|i: int| 0 <= i < c.len() && glob_matches(#[trigger] c[i], input);
            if i < a.len() {
                assert(c[i] == a[i]);
                assert(any_matches(a, input));
                let k = choose|k: int| 0 <= k < d.len() && any_matches(#[trigger] d[k], input);
                assert(lists[k] == d[k]);
            } else {
                assert(c[i] == b[i - a.len()]);
                assert(any_matches(b, input));
                assert(lists[lists.len() - 1] == b);
            }
        }
        if exists|k: int| 0 <= k < lists.len() && any_matches(#[trigger] lists[k], input) {
            let k = choose|k: int| 0 <= k < lists.len() && any_matches(#[trigger] lists[k], input);
            let lk = lists[k];
            let i = choose|i: int| 0 <= i < lk.len() && glob_matches(#[trigger] lk[i], input);
            if k < lists.len() - 1 {
                assert(d[k] == lk);
                assert(any_matches(a, input));
                let i2 = choose|i2: int| 0 <= i2 < a.len() && glob_matches(#[trigger] a[i2], input);
                assert(c[i2] == a[i2]);
            } else {
                assert(lk == b);
                assert(c[a.len() + i] == b[i]);
            }
        }
    }
}

} // verus!
