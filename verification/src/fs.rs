//! Lexical path handling: normalising a path without touching the file
//! system, and moving a path from one root folder to another.
//!
//! Paths are Unix paths held as their bytes, so that names that are not
//! UTF-8 pass through unchanged.  A path is read as its components: a
//! leading `/` makes it rooted; the bytes between separators give the
//! segments, where empty segments and `.` are ignored and `..` steps back
//! over the last kept name (never above the start).

use vstd::prelude::*;
use vstd::utf8::encode_utf8;

verus! {

/// The byte of the path separator, `/`.
pub const SEPARATOR: u8 = 47;

/// The byte of `.`.
pub const DOT: u8 = 46;

/// The bytes of `p` cut at every `/`, empty pieces included; there is always
/// at least one piece.
pub open spec fn split_slash(p: Seq<u8>) -> Seq<Seq<u8>>
    decreases p.len(),
{
    if p.len() == 0 {
        seq![Seq::<u8>::empty()]
    } else {
        let init = split_slash(p.drop_last());
        if p.last() == SEPARATOR {
            init.push(Seq::<u8>::empty())
        } else {
            init.update(init.len() - 1, init.last().push(p.last()))
        }
    }
}

/// A name that a normalised path can hold: not empty, free of `/`, and
/// neither `.` nor `..`.
pub open spec fn is_normal_name(seg: Seq<u8>) -> bool {
    &&& seg.len() > 0
    &&& !seg.contains(SEPARATOR)
    &&& seg != seq![DOT]
    &&& seg != seq![DOT, DOT]
}

/// The names kept after reading one more segment.
pub open spec fn step_segment(names: Seq<Seq<u8>>, seg: Seq<u8>) -> Seq<Seq<u8>> {
    if seg.len() == 0 || seg == seq![DOT] {
        names
    } else if seg == seq![DOT, DOT] {
        if names.len() > 0 {
            names.drop_last()
        } else {
            names
        }
    } else {
        names.push(seg)
    }
}

/// The names kept after reading all of `segs` from the left.
pub open spec fn resolve(segs: Seq<Seq<u8>>) -> Seq<Seq<u8>>
    decreases segs.len(),
{
    if segs.len() == 0 {
        Seq::empty()
    } else {
        step_segment(resolve(segs.drop_last()), segs.last())
    }
}

/// Whether `p` starts at the root.
pub open spec fn is_rooted(p: Seq<u8>) -> bool {
    p.len() > 0 && p[0] == SEPARATOR
}

/// The names of the normalised form of `p`.
pub open spec fn path_names(p: Seq<u8>) -> Seq<Seq<u8>> {
    resolve(split_slash(p))
}

/// The bytes of the path made of a root (when `rooted`) and `names`,
/// separated by `/`.
pub open spec fn render(rooted: bool, names: Seq<Seq<u8>>) -> Seq<u8>
    decreases names.len(),
{
    if names.len() == 0 {
        if rooted {
            seq![SEPARATOR]
        } else {
            Seq::empty()
        }
    } else if names.len() == 1 {
        (if rooted {
            seq![SEPARATOR]
        } else {
            Seq::<u8>::empty()
        }) + names[0]
    } else {
        render(rooted, names.drop_last()).push(SEPARATOR) + names.last()
    }
}

/// The normalised form of `p`.
pub open spec fn canonical(p: Seq<u8>) -> Seq<u8> {
    render(is_rooted(p), path_names(p))
}

/// `Path::strip_prefix` succeeds on the normalised forms of `root` and
/// `item`: the components of `root` (its root, then its names) begin the
/// components of `item`.
pub open spec fn strips(root: Seq<u8>, item: Seq<u8>) -> bool {
    let rn = path_names(root);
    let ino = path_names(item);
    &&& (is_rooted(root) == is_rooted(item) || (!is_rooted(root) && rn.len() == 0))
    &&& rn.len() <= ino.len()
    &&& ino.subrange(0, rn.len() as int) == rn
}

/// Where `item`, found under `source_root`, goes under `destination_root`.
/// When `source_root` is empty and `item` rooted, what is left after the
/// prefix is itself rooted and replaces the destination.
pub open spec fn rerooted(
    source_root: Seq<u8>,
    item: Seq<u8>,
    destination_root: Seq<u8>,
) -> Seq<u8> {
    let rn = path_names(source_root);
    let ino = path_names(item);
    if !is_rooted(source_root) && is_rooted(item) {
        render(true, ino)
    } else {
        render(
            is_rooted(destination_root),
            path_names(destination_root) + ino.subrange(rn.len() as int, ino.len() as int),
        )
    }
}

// ------------------------------------------------------------------------
// Lemmas on the definitions above.

proof fn lemma_split_nonempty(p: Seq<u8>)
    ensures
        split_slash(p).len() >= 1,
    decreases p.len(),
{
    if p.len() > 0 {
        lemma_split_nonempty(p.drop_last());
    }
}

/// Appending bytes free of `/` extends the last piece.
proof fn lemma_split_append_plain(y: Seq<u8>, seg: Seq<u8>)
    requires
        !seg.contains(SEPARATOR),
    ensures
        split_slash(y + seg) == split_slash(y).update(
            split_slash(y).len() - 1,
            split_slash(y).last() + seg,
        ),
    decreases seg.len(),
{
    lemma_split_nonempty(y);
    if seg.len() == 0 {
        assert(y + seg == y);
        assert(split_slash(y).last() + seg == split_slash(y).last());
        assert(split_slash(y).update(split_slash(y).len() - 1, split_slash(y).last())
            == split_slash(y));
    } else {
        let s0 = seg.drop_last();
        assert(!s0.contains(SEPARATOR)) by {
            if s0.contains(SEPARATOR) {
                let k = choose|k: int| 0 <= k < s0.len() && s0[k] == SEPARATOR;
                assert(seg[k] == SEPARATOR);
            }
        }
        assert(seg.last() != SEPARATOR) by {
            assert(seg[seg.len() - 1] == seg.last());
        }
        lemma_split_append_plain(y, s0);
        assert((y + seg).drop_last() == y + s0);
        assert((y + seg).last() == seg.last());
        assert(s0.push(seg.last()) == seg);
    }
}

/// Every piece of a split is free of `/`.
proof fn lemma_split_pieces_plain(p: Seq<u8>)
    ensures
        forall|i: int| 0 <= i < split_slash(p).len() ==> !(#[trigger] split_slash(p)[i]).contains(SEPARATOR),
    decreases p.len(),
{
    if p.len() > 0 {
        lemma_split_pieces_plain(p.drop_last());
        lemma_split_nonempty(p.drop_last());
        let init = split_slash(p.drop_last());
        if p.last() != SEPARATOR {
            let last = init.last().push(p.last());
            assert(!last.contains(SEPARATOR)) by {
                if last.contains(SEPARATOR) {
                    let k = choose|k: int| 0 <= k < last.len() && last[k] == SEPARATOR;
                    if k < last.len() - 1 {
                        assert(init.last()[k] == SEPARATOR);
                        assert(init[init.len() - 1] == init.last());
                    }
                }
            }
        }
    }
}

/// Every kept name is a normal name.
proof fn lemma_resolve_normal(segs: Seq<Seq<u8>>)
    requires
        forall|i: int| 0 <= i < segs.len() ==> !(#[trigger] segs[i]).contains(SEPARATOR),
    ensures
        forall|i: int| 0 <= i < resolve(segs).len() ==> is_normal_name(#[trigger] resolve(segs)[i]),
    decreases segs.len(),
{
    if segs.len() > 0 {
        let d = segs.drop_last();
        assert forall|i: int| 0 <= i < d.len() implies !(#[trigger] d[i]).contains(SEPARATOR) by {
            assert(d[i] == segs[i]);
        }
        lemma_resolve_normal(d);
        assert(segs.last() == segs[segs.len() - 1]);
        let r = resolve(d);
        let sg = segs.last();
        let out = step_segment(r, sg);
        assert(out == resolve(segs));
        assert forall|i: int| 0 <= i < out.len() implies is_normal_name(#[trigger] out[i]) by {
            if i < r.len() {
                assert(out[i] == r[i]);
            } else {
                assert(out[i] == sg);
            }
        }
    }
}

/// The names of any path are normal names.
pub proof fn lemma_path_names_normal(p: Seq<u8>)
    ensures
        forall|i: int| 0 <= i < path_names(p).len() ==> is_normal_name(#[trigger] path_names(p)[i]),
{
    lemma_split_pieces_plain(p);
    lemma_resolve_normal(split_slash(p));
}

/// Reading normal names keeps them all.
proof fn lemma_resolve_of_normal(prefix: Seq<Seq<u8>>, names: Seq<Seq<u8>>)
    requires
        prefix == Seq::<Seq<u8>>::empty() || prefix == seq![Seq::<u8>::empty()],
        forall|i: int| 0 <= i < names.len() ==> is_normal_name(#[trigger] names[i]),
    ensures
        resolve(prefix + names) == names,
    decreases names.len(),
{
    if names.len() == 0 {
        assert(prefix + names == prefix);
        if prefix.len() == 1 {
            assert(prefix.drop_last() == Seq::<Seq<u8>>::empty());
            assert(resolve(Seq::<Seq<u8>>::empty()) == Seq::<Seq<u8>>::empty());
            assert(prefix.last() == Seq::<u8>::empty());
            assert(resolve(prefix) == step_segment(resolve(prefix.drop_last()), prefix.last()));
        } else {
            assert(prefix == Seq::<Seq<u8>>::empty());
        }
    } else {
        let d = names.drop_last();
        assert forall|i: int| 0 <= i < d.len() implies is_normal_name(#[trigger] d[i]) by {
            assert(d[i] == names[i]);
        }
        lemma_resolve_of_normal(prefix, d);
        assert((prefix + names).drop_last() == prefix + d);
        assert((prefix + names).last() == names.last());
        assert(is_normal_name(names[names.len() - 1]));
        assert(d.push(names.last()) == names);
        let nl = names.last();
        assert(nl.len() > 0 && nl != seq![DOT] && nl != seq![DOT, DOT]);
        assert(resolve(prefix + names) == step_segment(resolve(prefix + d), nl));
    }
}

/// The split of the path `/`.
proof fn lemma_split_root()
    ensures
        split_slash(seq![SEPARATOR]) == seq![Seq::<u8>::empty(), Seq::<u8>::empty()],
        split_slash(Seq::<u8>::empty()) == seq![Seq::<u8>::empty()],
        resolve(seq![Seq::<u8>::empty(), Seq::<u8>::empty()]) == Seq::<Seq<u8>>::empty(),
{
    let e = Seq::<u8>::empty();
    assert(seq![SEPARATOR].drop_last() == e);
    assert(split_slash(e) == seq![e]);
    assert(seq![SEPARATOR].last() == SEPARATOR);
    assert(seq![e].push(e) == seq![e, e]);
    let ss: Seq<Seq<u8>> = seq![e, e];
    assert(ss.drop_last() == seq![e]);
    assert(seq![e].drop_last() == Seq::<Seq<u8>>::empty());
    assert(resolve(Seq::<Seq<u8>>::empty()) == Seq::<Seq<u8>>::empty());
    assert(resolve(seq![e]) == step_segment(resolve(Seq::<Seq<u8>>::empty()), e));
    assert(resolve(seq![e]) == Seq::<Seq<u8>>::empty());
    assert(resolve(ss) == step_segment(resolve(seq![e]), e));
}

/// Splitting the bytes of normal names gives back the names (after an empty
/// piece for the root).
proof fn lemma_split_render(rooted: bool, names: Seq<Seq<u8>>)
    requires
        names.len() >= 1,
        forall|i: int| 0 <= i < names.len() ==> is_normal_name(#[trigger] names[i]),
    ensures
        split_slash(render(rooted, names)) == (if rooted {
            seq![Seq::<u8>::empty()]
        } else {
            Seq::<Seq<u8>>::empty()
        }) + names,
    decreases names.len(),
{
    let pre: Seq<u8> = if rooted {
        seq![SEPARATOR]
    } else {
        Seq::<u8>::empty()
    };
    let pre_segs: Seq<Seq<u8>> = if rooted {
        seq![Seq::<u8>::empty()]
    } else {
        Seq::<Seq<u8>>::empty()
    };
    if names.len() == 1 {
        assert(is_normal_name(names[0]));
        lemma_split_append_plain(pre, names[0]);
        lemma_split_root();
        if rooted {
            assert(pre == seq![SEPARATOR]);
        } else {
            assert(split_slash(pre) == seq![Seq::<u8>::empty()]);
        }
        assert(Seq::<u8>::empty() + names[0] == names[0]);
        assert(pre_segs + names == split_slash(pre).update(split_slash(pre).len() - 1, names[0]));
    } else {
        let d = names.drop_last();
        assert forall|i: int| 0 <= i < d.len() implies is_normal_name(#[trigger] d[i]) by {
            assert(d[i] == names[i]);
        }
        lemma_split_render(rooted, d);
        let r0 = render(rooted, d);
        let r1 = r0.push(SEPARATOR);
        assert(r1.drop_last() == r0);
        assert(split_slash(r1) == split_slash(r0).push(Seq::<u8>::empty()));
        assert(is_normal_name(names[names.len() - 1]));
        lemma_split_append_plain(r1, names.last());
        assert(Seq::<u8>::empty() + names.last() == names.last());
        assert((pre_segs + d).push(names.last()) == pre_segs + names);
    }
}

/// A rendered path reads back as itself.
pub proof fn lemma_render_reads_back(rooted: bool, names: Seq<Seq<u8>>)
    requires
        forall|i: int| 0 <= i < names.len() ==> is_normal_name(#[trigger] names[i]),
    ensures
        is_rooted(render(rooted, names)) == rooted,
        path_names(render(rooted, names)) == names,
    decreases names.len(),
{
    if names.len() == 0 {
        lemma_split_root();
        let e = Seq::<u8>::empty();
        assert(seq![e].drop_last() == Seq::<Seq<u8>>::empty());
        assert(resolve(seq![e]) == step_segment(resolve(Seq::<Seq<u8>>::empty()), e));
    } else {
        lemma_split_render(rooted, names);
        let pre_segs: Seq<Seq<u8>> = if rooted {
            seq![Seq::<u8>::empty()]
        } else {
            Seq::<Seq<u8>>::empty()
        };
        lemma_resolve_of_normal(pre_segs, names);
        lemma_render_first(rooted, names);
    }
}

/// The first character of a rendered path tells whether it is rooted.
proof fn lemma_render_first(rooted: bool, names: Seq<Seq<u8>>)
    requires
        names.len() >= 1,
        forall|i: int| 0 <= i < names.len() ==> is_normal_name(#[trigger] names[i]),
    ensures
        render(rooted, names).len() > 0,
        render(rooted, names)[0] == (if rooted {
            SEPARATOR
        } else {
            names[0][0]
        }),
        names[0][0] != SEPARATOR,
    decreases names.len(),
{
    assert(is_normal_name(names[0]));
    assert(names[0][0] != SEPARATOR) by {
        if names[0][0] == SEPARATOR {
            assert(names[0].contains(SEPARATOR));
        }
    }
    if names.len() > 1 {
        let d = names.drop_last();
        assert forall|i: int| 0 <= i < d.len() implies is_normal_name(#[trigger] d[i]) by {
            assert(d[i] == names[i]);
        }
        lemma_render_first(rooted, d);
        assert(d[0] == names[0]);
    }
}

/// Normalising twice gives what normalising once gives.
pub proof fn law_canonicalize_idempotent(p: Seq<u8>)
    ensures
        canonical(canonical(p)) == canonical(p),
        is_rooted(canonical(p)) == is_rooted(p),
        path_names(canonical(p)) == path_names(p),
{
    lemma_path_names_normal(p);
    lemma_render_reads_back(is_rooted(p), path_names(p));
}

// ------------------------------------------------------------------------
// Executable code.

/// The root flag and the names of the normalised form of `p`.
fn path_parts(p: &[u8]) -> (r: (bool, Vec<Vec<u8>>))
    ensures
        r.0 == is_rooted(p@),
        r.1@.map_values(|v: Vec<u8>| v@) == path_names(p@),
{
    let cs = p;
    let n = cs.len();
    let rooted = n > 0 && cs[0] == SEPARATOR;
    let mut names: Vec<Vec<u8>> = Vec::new();
    let mut cur: Vec<u8> = Vec::new();
    let ghost mut done: Seq<Seq<u8>> = Seq::empty();
    let mut i: usize = 0;
    assert(cs@.subrange(0, 0) == Seq::<u8>::empty());
    while i < n
        invariant
            n == cs@.len(),
            cs@ == p@,
            i <= n,
            split_slash(cs@.subrange(0, i as int)) == done.push(cur@),
            names@.map_values(|v: Vec<u8>| v@) == resolve(done),
        decreases n - i,
    {
        let c = cs[i];
        let ghost pre = cs@.subrange(0, i as int);
        assert(cs@.subrange(0, i + 1).drop_last() == pre);
        assert(cs@.subrange(0, i + 1).last() == c);
        if c == SEPARATOR {
            proof {
                assert(resolve(done.push(cur@)) == step_segment(resolve(done), cur@)) by {
                    assert(done.push(cur@).drop_last() == done);
                }
            }
            take_segment(&mut names, cur, Ghost(resolve(done)));
            proof {
                done = done.push(cur@);
            }
            cur = Vec::new();
        } else {
            cur.push(c);
        }
        i = i + 1;
    }
    assert(cs@.subrange(0, n as int) == cs@);
    proof {
        assert(resolve(done.push(cur@)) == step_segment(resolve(done), cur@)) by {
            assert(done.push(cur@).drop_last() == done);
        }
    }
    take_segment(&mut names, cur, Ghost(resolve(done)));
    (rooted, names)
}

/// Reads one segment into the kept names.
fn take_segment(names: &mut Vec<Vec<u8>>, seg: Vec<u8>, Ghost(before): Ghost<Seq<Seq<u8>>>)
    requires
        old(names)@.map_values(|v: Vec<u8>| v@) == before,
    ensures
        final(names)@.map_values(|v: Vec<u8>| v@) == step_segment(before, seg@),
{
    let k = seg.len();
    let is_dot = k == 1 && seg[0] == DOT;
    let is_dotdot = k == 2 && seg[0] == DOT && seg[1] == DOT;
    proof {
        if k == 1 {
            assert(seg@ == seq![DOT] <==> seg@[0] == DOT) by {
                if seg@[0] == DOT {
                    assert(seg@ =~= seq![DOT]);
                }
            }
        }
        if k == 2 {
            assert(seg@ == seq![DOT, DOT] <==> (seg@[0] == DOT && seg@[1] == DOT)) by {
                if seg@[0] == DOT && seg@[1] == DOT {
                    assert(seg@ =~= seq![DOT, DOT]);
                }
            }
        }
        if k != 1 {
            assert(seg@ != seq![DOT]) by {
                assert(seq![DOT].len() == 1);
            }
        }
        if k != 2 {
            assert(seg@ != seq![DOT, DOT]) by {
                assert(seq![DOT, DOT].len() == 2);
            }
        }
    }
    if k == 0 || is_dot {
    } else if is_dotdot {
        if names.len() > 0 {
            names.pop();
            assert(names@.map_values(|v: Vec<u8>| v@) == before.drop_last());
        }
    } else {
        names.push(seg);
        assert(names@.map_values(|v: Vec<u8>| v@) == before.push(seg@));
    }
}

/// The bytes of a path made of a root (when `rooted`) and `names`.
fn render_path(rooted: bool, names: &Vec<Vec<u8>>) -> (r: Vec<u8>)
    ensures
        r@ == render(rooted, names@.map_values(|v: Vec<u8>| v@)),
{
    let ghost ns = names@.map_values(|v: Vec<u8>| v@);
    let mut s: Vec<u8> = Vec::new();
    if rooted {
        s.push(SEPARATOR);
    }
    let ghost pre: Seq<u8> = s@;
    let mut j: usize = 0;
    while j < names.len()
        invariant
            ns == names@.map_values(|v: Vec<u8>| v@),
            j <= names@.len(),
            pre == (if rooted {
                seq![SEPARATOR]
            } else {
                Seq::<u8>::empty()
            }),
            j == 0 ==> s@ == pre,
            j > 0 ==> s@ == render(rooted, ns.subrange(0, j as int)),
        decreases names.len() - j,
    {
        let ghost before = s@;
        if j > 0 {
            s.push(SEPARATOR);
        }
        let name = &names[j];
        let mut k: usize = 0;
        let ghost mid = s@;
        while k < name.len()
            invariant
                k <= name@.len(),
                s@ == mid + name@.subrange(0, k as int),
            decreases name.len() - k,
        {
            s.push(name[k]);
            k = k + 1;
            assert(name@.subrange(0, k as int) == name@.subrange(0, k - 1).push(name@[k - 1]));
        }
        assert(name@.subrange(0, name@.len() as int) == name@);
        assert(ns[j as int] == name@);
        let ghost t = ns.subrange(0, j + 1);
        assert(t.len() == j + 1);
        if j == 0 {
            assert(t[0] == name@);
        } else {
            assert(t.drop_last() == ns.subrange(0, j as int));
            assert(t.last() == name@);
        }
        j = j + 1;
    }
    if names.len() == 0 {
        assert(ns.len() == 0);
    } else {
        assert(ns.subrange(0, names@.len() as int) == ns);
    }
    s
}

/// Whether two byte sequences are equal.
fn bytes_eq(a: &[u8], b: &[u8]) -> (r: bool)
    ensures
        r == (a@ == b@),
{
    if a.len() != b.len() {
        return false;
    }
    let mut i: usize = 0;
    while i < a.len()
        invariant
            a@.len() == b@.len(),
            i <= a@.len(),
            a@.subrange(0, i as int) == b@.subrange(0, i as int),
        decreases a.len() - i,
    {
        if a[i] != b[i] {
            assert(a@[i as int] != b@[i as int]);
            return false;
        }
        assert(a@.subrange(0, i + 1) == a@.subrange(0, i as int).push(a@[i as int]));
        assert(b@.subrange(0, i + 1) == b@.subrange(0, i as int).push(b@[i as int]));
        i = i + 1;
    }
    assert(a@ == a@.subrange(0, a@.len() as int));
    assert(b@ == b@.subrange(0, b@.len() as int));
    true
}

/// The normalised form of `path`, found without looking at the file
/// system: `.` and empty segments are dropped and `..` removes the name
/// before it (a `..` with nothing before it is dropped).
pub fn canonicalize_any(path: &[u8]) -> (r: Vec<u8>)
    ensures
        r@ == canonical(path@),
{
    let (rooted, names) = path_parts(path);
    render_path(rooted, &names)
}

/// Whether `source_root` is, once both are normalised, a component-wise
/// prefix of `source_item_path` (what `change_root` needs).
pub fn strips_prefix(source_root: &[u8], source_item_path: &[u8]) -> (r: bool)
    ensures
        r == strips(source_root@, source_item_path@),
{
    let (root_rooted, root_names) = path_parts(source_root);
    let (item_rooted, item_names) = path_parts(source_item_path);
    let ghost rn = root_names@.map_values(|v: Vec<u8>| v@);
    let ghost ino = item_names@.map_values(|v: Vec<u8>| v@);
    if !(root_rooted == item_rooted || (!root_rooted && root_names.len() == 0)) {
        return false;
    }
    if root_names.len() > item_names.len() {
        return false;
    }
    let mut i: usize = 0;
    while i < root_names.len()
        invariant
            rn == root_names@.map_values(|v: Vec<u8>| v@),
            ino == item_names@.map_values(|v: Vec<u8>| v@),
            rn == path_names(source_root@),
            ino == path_names(source_item_path@),
            rn.len() == root_names@.len(),
            ino.len() == item_names@.len(),
            root_names@.len() <= item_names@.len(),
            i <= root_names@.len(),
            forall|j: int| 0 <= j < i ==> rn[j] == ino[j],
        decreases root_names.len() - i,
    {
        if !bytes_eq(root_names[i].as_slice(), item_names[i].as_slice()) {
            assert(rn[i as int] != ino.subrange(0, rn.len() as int)[i as int]);
            return false;
        }
        i = i + 1;
    }
    assert(ino.subrange(0, rn.len() as int) =~= rn);
    true
}

/// The path that `source_item_path`, found under `source_root`, takes under
/// `destination_root`; the result is normalised.  `source_root` must be a
/// component-wise prefix of `source_item_path` once both are normalised.
pub fn change_root(source_root: &[u8], source_item_path: &[u8], destination_root: &[u8]) -> (r: Vec<u8>)
    requires
        strips(source_root@, source_item_path@),
    ensures
        r@ == rerooted(source_root@, source_item_path@, destination_root@),
{
    let (root_rooted, root_names) = path_parts(source_root);
    let (item_rooted, item_names) = path_parts(source_item_path);
    if !root_rooted && item_rooted {
        return render_path(true, &item_names);
    }
    let (dest_rooted, mut out) = path_parts(destination_root);
    let ghost dn = out@.map_values(|v: Vec<u8>| v@);
    let ghost ino = item_names@.map_values(|v: Vec<u8>| v@);
    let ghost k = root_names@.len() as int;
    assert(root_names@.map_values(|v: Vec<u8>| v@).len() == root_names@.len());
    let mut j: usize = root_names.len();
    while j < item_names.len()
        invariant
            ino == item_names@.map_values(|v: Vec<u8>| v@),
            ino.len() == item_names@.len(),
            0 <= k <= j <= item_names@.len(),
            out@.map_values(|v: Vec<u8>| v@) == dn + ino.subrange(k, j as int),
        decreases item_names.len() - j,
    {
        out.push(item_names[j].clone());
        assert(ino.subrange(k, j + 1) == ino.subrange(k, j as int).push(ino[j as int]));
        assert(out@.map_values(|v: Vec<u8>| v@) == (dn + ino.subrange(k, j as int)).push(ino[j as int]));
        j = j + 1;
    }
    render_path(dest_rooted, &out)
}

} // verus!

verus! {

/// Moving a path onto a new root leaves it under that root: the new root's
/// components begin the result, which holds the new root's names followed by
/// the names of the item below the old root.
pub proof fn law_change_root_lands_under_destination(
    source_root: Seq<u8>,
    item: Seq<u8>,
    destination_root: Seq<u8>,
)
    requires
        strips(source_root, item),
        is_rooted(source_root) == is_rooted(item),
    ensures
        strips(destination_root, rerooted(source_root, item, destination_root)),
        path_names(rerooted(source_root, item, destination_root)) == path_names(destination_root)
            + path_names(item).subrange(path_names(source_root).len() as int, path_names(item).len() as int),
{
    let dn = path_names(destination_root);
    let ino = path_names(item);
    let k = path_names(source_root).len() as int;
    let rest = ino.subrange(k, ino.len() as int);
    lemma_path_names_normal(destination_root);
    lemma_path_names_normal(item);
    let all = dn + rest;
    assert forall|i: int| 0 <= i < all.len() implies is_normal_name(#[trigger] all[i]) by {
        if i < dn.len() {
            assert(all[i] == dn[i]);
        } else {
            assert(all[i] == ino[k + i - dn.len()]);
        }
    }
    lemma_render_reads_back(is_rooted(destination_root), all);
    assert(all.subrange(0, dn.len() as int) == dn);
}

/// Moving an item from one root to another and back gives the item's
/// normalised form.
pub proof fn law_change_root_round_trip(
    source_root: Seq<u8>,
    item: Seq<u8>,
    destination_root: Seq<u8>,
)
    requires
        strips(source_root, item),
        is_rooted(source_root) == is_rooted(item),
    ensures
        strips(destination_root, rerooted(source_root, item, destination_root)),
        rerooted(destination_root, rerooted(source_root, item, destination_root), source_root)
            == canonical(item),
{
    law_change_root_lands_under_destination(source_root, item, destination_root);
    let r = rerooted(source_root, item, destination_root);
    let dn = path_names(destination_root);
    let sn = path_names(source_root);
    let ino = path_names(item);
    let rest = ino.subrange(sn.len() as int, ino.len() as int);
    lemma_path_names_normal(destination_root);
    let all = dn + rest;
    assert forall|i: int| 0 <= i < all.len() implies is_normal_name(#[trigger] all[i]) by {
        lemma_path_names_normal(item);
        if i < dn.len() {
            assert(all[i] == dn[i]);
        } else {
            assert(all[i] == ino[sn.len() + i - dn.len()]);
        }
    }
    lemma_render_reads_back(is_rooted(destination_root), all);
    assert(is_rooted(r) == is_rooted(destination_root));
    assert(path_names(r) == all);
    assert(all.subrange(dn.len() as int, all.len() as int) == rest);
    assert(sn + rest == ino);
}

/// An item that is the old root itself lands on the new root.
pub proof fn law_change_root_of_root(source_root: Seq<u8>, destination_root: Seq<u8>)
    ensures
        strips(source_root, source_root),
        rerooted(source_root, source_root, destination_root) == canonical(destination_root),
{
    let sn = path_names(source_root);
    assert(sn.subrange(0, sn.len() as int) == sn);
    assert(sn.subrange(sn.len() as int, sn.len() as int) == Seq::<Seq<u8>>::empty());
    assert(path_names(destination_root) + Seq::<Seq<u8>>::empty() == path_names(destination_root));
}

/// A pair of paths for a file system operation.
#[derive(Debug, Clone)]
pub struct FsOp {
    pub source: String,
    pub target: String,
}

/// A pair of normalised paths for a file system operation, as bytes.
#[derive(Debug, Clone)]
pub struct CanonicalFsOp {
    pub source: Vec<u8>,
    pub target: Vec<u8>,
}

impl FsOp {
    pub fn new(source: String, target: String) -> (r: FsOp)
        ensures
            r.source == source,
            r.target == target,
    {
        FsOp { source, target }
    }

    /// The two paths, source first.
    pub fn destructure(self) -> (r: (String, String))
        ensures
            r.0 == self.source,
            r.1 == self.target,
    {
        (self.source, self.target)
    }

    /// Both paths in normalised form.
    pub fn canonicalize(&self) -> (r: CanonicalFsOp)
        ensures
            r.source@ == canonical(encode_utf8(self.source@)),
            r.target@ == canonical(encode_utf8(self.target@)),
    {
        let source = canonicalize_any(self.source.as_str().as_bytes());
        let target = canonicalize_any(self.target.as_str().as_bytes());
        CanonicalFsOp { source, target }
    }
}

impl CanonicalFsOp {
    pub fn new(source: Vec<u8>, target: Vec<u8>) -> (r: CanonicalFsOp)
        ensures
            r.source == source,
            r.target == target,
    {
        CanonicalFsOp { source, target }
    }

    /// The two paths, source first.
    pub fn destructure(self) -> (r: (Vec<u8>, Vec<u8>))
        ensures
            r.0 == self.source,
            r.1 == self.target,
    {
        (self.source, self.target)
    }
}

} // verus!

verus! {

/// The segments of `segs` that name something: all but the empty ones and
/// `.`.
pub open spec fn named_segments(segs: Seq<Seq<u8>>) -> Seq<Seq<u8>>
    decreases segs.len(),
{
    if segs.len() == 0 {
        Seq::empty()
    } else {
        let d = named_segments(segs.drop_last());
        let l = segs.last();
        if l.len() == 0 || l == seq![DOT] {
            d
        } else {
            d.push(l)
        }
    }
}

/// The components of `p` as `Path::components` gives them: the root (as
/// `/`), or a leading `.` of a path that starts with `.`, then every other
/// segment but the empty ones and `.` (`..` included).
pub open spec fn components(p: Seq<u8>) -> Seq<Seq<u8>> {
    let segs = split_slash(p);
    (if is_rooted(p) {
        seq![seq![SEPARATOR]]
    } else if segs[0] == seq![DOT] {
        seq![seq![DOT]]
    } else {
        Seq::empty()
    }) + named_segments(segs)
}

/// The pieces of `p` between the separators.
fn split_path(p: &[u8]) -> (r: Vec<Vec<u8>>)
    ensures
        r@.map_values(|v: Vec<u8>| v@) == split_slash(p@),
{
    let n = p.len();
    let mut done: Vec<Vec<u8>> = Vec::new();
    let mut cur: Vec<u8> = Vec::new();
    let mut i: usize = 0;
    assert(p@.subrange(0, 0) == Seq::<u8>::empty());
    assert(done@.map_values(|v: Vec<u8>| v@) == Seq::<Seq<u8>>::empty());
    while i < n
        invariant
            n == p@.len(),
            i <= n,
            split_slash(p@.subrange(0, i as int)) == done@.map_values(|v: Vec<u8>| v@).push(cur@),
        decreases n - i,
    {
        let c = p[i];
        assert(p@.subrange(0, i + 1).drop_last() == p@.subrange(0, i as int));
        assert(p@.subrange(0, i + 1).last() == c);
        if c == SEPARATOR {
            let ghost before = done@.map_values(|v: Vec<u8>| v@);
            done.push(cur);
            assert(done@.map_values(|v: Vec<u8>| v@) == before.push(cur@));
            cur = Vec::new();
        } else {
            cur.push(c);
        }
        i = i + 1;
    }
    assert(p@.subrange(0, n as int) == p@);
    let ghost before = done@.map_values(|v: Vec<u8>| v@);
    done.push(cur);
    assert(done@.map_values(|v: Vec<u8>| v@) == before.push(cur@));
    done
}

/// Whether a piece is `.`.
fn is_dot(seg: &Vec<u8>) -> (r: bool)
    ensures
        r == (seg@ == seq![DOT]),
{
    if seg.len() == 1 && seg[0] == DOT {
        assert(seg@ =~= seq![DOT]);
        true
    } else {
        assert(seg@.len() != 1 ==> seg@ != seq![DOT]);
        false
    }
}

/// The components of `p` (see `components`).
fn path_components(p: &[u8]) -> (r: Vec<Vec<u8>>)
    ensures
        r@.map_values(|v: Vec<u8>| v@) == components(p@),
{
    let cs = p;
    let segs = split_path(cs);
    let ghost sv = segs@.map_values(|v: Vec<u8>| v@);
    proof {
        lemma_split_nonempty(p@);
    }
    let mut out: Vec<Vec<u8>> = Vec::new();
    let rooted = cs.len() > 0 && cs[0] == SEPARATOR;
    if rooted {
        let mut root: Vec<u8> = Vec::new();
        root.push(SEPARATOR);
        out.push(root);
        assert(out@.map_values(|v: Vec<u8>| v@) == seq![seq![SEPARATOR]]);
    } else if is_dot(&segs[0]) {
        let mut dot: Vec<u8> = Vec::new();
        dot.push(DOT);
        out.push(dot);
        assert(sv[0] == segs@[0]@);
        assert(out@.map_values(|v: Vec<u8>| v@) == seq![seq![DOT]]);
    } else {
        assert(sv[0] == segs@[0]@);
        assert(out@.map_values(|v: Vec<u8>| v@) == Seq::<Seq<u8>>::empty());
    }
    let ghost pre = out@.map_values(|v: Vec<u8>| v@);
    let mut i: usize = 0;
    assert(sv.subrange(0, 0) == Seq::<Seq<u8>>::empty());
    assert(pre + named_segments(Seq::<Seq<u8>>::empty()) == pre);
    while i < segs.len()
        invariant
            sv == segs@.map_values(|v: Vec<u8>| v@),
            sv.len() == segs@.len(),
            i <= segs@.len(),
            out@.map_values(|v: Vec<u8>| v@) == pre + named_segments(sv.subrange(0, i as int)),
        decreases segs.len() - i,
    {
        let ghost t = sv.subrange(0, i + 1);
        assert(t.drop_last() == sv.subrange(0, i as int));
        assert(t.last() == segs@[i as int]@);
        if segs[i].len() == 0 || is_dot(&segs[i]) {
        } else {
            let ghost before = out@.map_values(|v: Vec<u8>| v@);
            out.push(segs[i].clone());
            assert(out@.map_values(|v: Vec<u8>| v@) == before.push(segs@[i as int]@));
        }
        i = i + 1;
    }
    assert(sv.subrange(0, sv.len() as int) == sv);
    out
}

/// Whether two lists of pieces are equal.
fn pieces_eq(a: &Vec<Vec<u8>>, b: &Vec<Vec<u8>>) -> (r: bool)
    ensures
        r == (a@.map_values(|v: Vec<u8>| v@) == b@.map_values(|v: Vec<u8>| v@)),
{
    let ghost av = a@.map_values(|v: Vec<u8>| v@);
    let ghost bv = b@.map_values(|v: Vec<u8>| v@);
    if a.len() != b.len() {
        assert(av.len() != bv.len());
        return false;
    }
    let mut i: usize = 0;
    while i < a.len()
        invariant
            av == a@.map_values(|v: Vec<u8>| v@),
            bv == b@.map_values(|v: Vec<u8>| v@),
            a@.len() == b@.len(),
            i <= a@.len(),
            forall|j: int| 0 <= j < i ==> av[j] == bv[j],
        decreases a.len() - i,
    {
        if !bytes_eq(a[i].as_slice(), b[i].as_slice()) {
            assert(av[i as int] != bv[i as int]);
            return false;
        }
        i = i + 1;
    }
    assert(av =~= bv);
    true
}

/// Whether two paths are equal as `Path`s: they have the same components.
pub fn same_path(a: &[u8], b: &[u8]) -> (r: bool)
    ensures
        r == (components(a@) == components(b@)),
{
    let ca = path_components(a);
    let cb = path_components(b);
    pieces_eq(&ca, &cb)
}

} // verus!
