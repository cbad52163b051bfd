//! Pure path algebra: paths as component sequences, longest common
//! ancestor of a path set, and prefix-stripping relativization.
use vstd::prelude::*;

verus! {

/// One component of a path: the filesystem root, or a named part.
pub enum PComp {
    Root,
    Part(Seq<char>),
}

/// A filesystem path: whether it starts at the root, and its named
/// components in order. A part never spans a separator.
#[derive(Clone, Debug)]
pub struct PathRep {
    pub rooted: bool,
    pub parts: Vec<String>,
}

/// The component sequence that a (rooted, parts) pair denotes.
pub open spec fn comps_of(rooted: bool, parts: Seq<Seq<char>>) -> Seq<PComp> {
    let tail = parts.map_values(|p: Seq<char>| PComp::Part(p));
    if rooted {
        seq![PComp::Root] + tail
    } else {
        tail
    }
}

/// Copies the parts of a part vector from index `from` up to `to`.
fn clone_parts_range(v: &Vec<String>, from: usize, to: usize) -> (r: Vec<String>)
    requires
        from <= to <= v@.len(),
    ensures
        r.deep_view() == v.deep_view().subrange(from as int, to as int),
        r@.len() == to - from,
{
    let mut parts: Vec<String> = Vec::new();
    let mut j: usize = from;
    while j < to
        invariant
            from <= j <= to <= v@.len(),
            parts@.len() == j - from,
            parts.deep_view() == v.deep_view().subrange(from as int, j as int),
        decreases to - j,
    {
        let ghost prev = parts@;
        let c = v[j].clone();
        proof {
            assert(c == v@[j as int]);
        }
        parts.push(c);
        proof {
            assert forall|i: int| 0 <= i < j + 1 - from implies parts.deep_view()[i]
                == v.deep_view()[i + from] by {
                if i < j - from {
                    assert(parts@[i] == prev[i]);
                    assert(v.deep_view().subrange(from as int, j as int)[i] == v.deep_view()[
                        i + from
                    ]);
                } else {
                    assert(parts@[i] == v@[i + from]);
                }
            }
            assert(parts.deep_view() =~= v.deep_view().subrange(from as int, j + 1));
        }
        j += 1;
    }
    parts
}

/// Copies the first `n` parts of a part vector.
fn clone_parts_prefix(v: &Vec<String>, n: usize) -> (r: Vec<String>)
    requires
        n <= v@.len(),
    ensures
        r.deep_view() == v.deep_view().subrange(0, n as int),
        r@.len() == n,
{
    clone_parts_range(v, 0, n)
}

impl PathRep {
    /// The path as its component sequence; all contracts speak of this.
    pub open spec fn comps(&self) -> Seq<PComp> {
        comps_of(self.rooted, self.parts.deep_view())
    }

    /// The components of the path's parent directory; meaningful only
    /// when the path has at least one named part.
    pub open spec fn parent_comps(&self) -> Seq<PComp> {
        self.comps().drop_last()
    }

    /// Structurally copies the path.
    pub fn duplicate(&self) -> (r: PathRep)
        ensures
            r.comps() == self.comps(),
            r.rooted == self.rooted,
            r.parts.deep_view() == self.parts.deep_view(),
    {
        let parts = clone_parts_prefix(&self.parts, self.parts.len());
        proof {
            assert(parts.deep_view() =~= self.parts.deep_view());
        }
        PathRep { rooted: self.rooted, parts }
    }

    /// The parent directory: the path minus its last part, or nothing
    /// when there is no part to drop.
    pub fn parent(&self) -> (r: Option<PathRep>)
        ensures
            r is Some <==> self.parts.len() > 0,
            r matches Some(p) ==> p.comps() == self.parent_comps() && p.rooted == self.rooted,
    {
        if self.parts.len() == 0 {
            None
        } else {
            let parts = clone_parts_prefix(&self.parts, self.parts.len() - 1);
            let p = PathRep { rooted: self.rooted, parts };
            proof {
                assert(p.comps() =~= self.comps().drop_last());
            }
            Some(p)
        }
    }
}

/// `a` is a component-wise prefix of `b`.
pub open spec fn is_prefix_of(a: Seq<PComp>, b: Seq<PComp>) -> bool {
    a.len() <= b.len() && a == b.subrange(0, a.len() as int)
}

/// The longest common prefix of two component sequences.
pub open spec fn lcp(a: Seq<PComp>, b: Seq<PComp>) -> Seq<PComp>
    decreases a.len(),
{
    if a.len() == 0 || b.len() == 0 || a[0] != b[0] {
        Seq::empty()
    } else {
        seq![a[0]] + lcp(a.subrange(1, a.len() as int), b.subrange(1, b.len() as int))
    }
}

/// The longest common prefix is exactly the sequence up to the first
/// divergence point `k`.
pub proof fn lemma_lcp_at_divergence(a: Seq<PComp>, b: Seq<PComp>, k: int)
    requires
        0 <= k <= a.len(),
        k <= b.len(),
        forall|j: int| 0 <= j < k ==> a[j] == b[j],
        k == a.len() || k == b.len() || a[k] != b[k],
    ensures
        lcp(a, b) == a.subrange(0, k),
    decreases k,
{
    if k == 0 {
        assert(lcp(a, b) =~= a.subrange(0, 0));
    } else {
        let a1 = a.subrange(1, a.len() as int);
        let b1 = b.subrange(1, b.len() as int);
        lemma_lcp_at_divergence(a1, b1, k - 1);
        assert(seq![a[0]] + a1.subrange(0, k - 1) =~= a.subrange(0, k));
    }
}

/// The longest common prefix is a prefix of both arguments.
pub proof fn lemma_lcp_is_prefix(a: Seq<PComp>, b: Seq<PComp>)
    ensures
        is_prefix_of(lcp(a, b), a),
        is_prefix_of(lcp(a, b), b),
    decreases a.len(),
{
    if a.len() == 0 || b.len() == 0 || a[0] != b[0] {
        assert(lcp(a, b) =~= a.subrange(0, 0));
        assert(lcp(a, b) =~= b.subrange(0, 0));
    } else {
        let a1 = a.subrange(1, a.len() as int);
        let b1 = b.subrange(1, b.len() as int);
        lemma_lcp_is_prefix(a1, b1);
        let c = lcp(a, b);
        let c1 = lcp(a1, b1);
        assert(c =~= a.subrange(0, c.len() as int)) by {
            assert(c1 == a1.subrange(0, c1.len() as int));
            assert forall|j: int| 0 <= j < c.len() implies c[j] == a[j] by {
                if j > 0 {
                    assert(c[j] == c1[j - 1]);
                    assert(a1[j - 1] == a[j]);
                }
            }
        }
        assert(c =~= b.subrange(0, c.len() as int)) by {
            assert(c1 == b1.subrange(0, c1.len() as int));
            assert forall|j: int| 0 <= j < c.len() implies c[j] == b[j] by {
                if j > 0 {
                    assert(c[j] == c1[j - 1]);
                    assert(b1[j - 1] == b[j]);
                }
            }
        }
    }
}

/// Any common prefix of both arguments is a prefix of their longest
/// common prefix.
pub proof fn lemma_lcp_is_longest(a: Seq<PComp>, b: Seq<PComp>, d: Seq<PComp>)
    requires
        is_prefix_of(d, a),
        is_prefix_of(d, b),
    ensures
        is_prefix_of(d, lcp(a, b)),
    decreases d.len(),
{
    if d.len() == 0 {
        assert(d =~= lcp(a, b).subrange(0, 0));
    } else {
        assert(d[0] == a[0]) by {
            assert(d == a.subrange(0, d.len() as int));
        }
        assert(d[0] == b[0]) by {
            assert(d == b.subrange(0, d.len() as int));
        }
        let a1 = a.subrange(1, a.len() as int);
        let b1 = b.subrange(1, b.len() as int);
        let d1 = d.subrange(1, d.len() as int);
        assert(is_prefix_of(d1, a1)) by {
            assert(d == a.subrange(0, d.len() as int));
            assert(d1 =~= a1.subrange(0, d1.len() as int));
        }
        assert(is_prefix_of(d1, b1)) by {
            assert(d == b.subrange(0, d.len() as int));
            assert(d1 =~= b1.subrange(0, d1.len() as int));
        }
        lemma_lcp_is_longest(a1, b1, d1);
        let c = lcp(a, b);
        assert(c == seq![a[0]] + lcp(a1, b1));
        assert(d =~= c.subrange(0, d.len() as int)) by {
            assert(d1 == lcp(a1, b1).subrange(0, d1.len() as int));
            assert forall|j: int| 0 <= j < d.len() implies d[j] == c[j] by {
                if j > 0 {
                    assert(d[j] == d1[j - 1]);
                    assert(c[j] == lcp(a1, b1)[j - 1]);
                }
            }
        }
    }
}

/// Keeps the longest shared leading run of components of the two paths.
pub fn find_common_prefix(path1: &PathRep, path2: &PathRep) -> (r: PathRep)
    ensures
        r.comps() == lcp(path1.comps(), path2.comps()),
{
    if path1.rooted != path2.rooted {
        let r = PathRep { rooted: false, parts: Vec::new() };
        proof {
            let a = path1.comps();
            let b = path2.comps();
            if a.len() == 0 || b.len() == 0 {
                assert(r.comps() =~= lcp(a, b));
            } else {
                assert(a[0] != b[0]);
                assert(r.comps() =~= lcp(a, b));
            }
        }
        return r;
    }
    let n = if path1.parts.len() <= path2.parts.len() {
        path1.parts.len()
    } else {
        path2.parts.len()
    };
    let mut parts: Vec<String> = Vec::new();
    let mut k: usize = 0;
    let mut mismatch = false;
    while k < n && !mismatch
        invariant
            path1.rooted == path2.rooted,
            n <= path1.parts.len(),
            n <= path2.parts.len(),
            n == path1.parts.len() || n == path2.parts.len(),
            k <= n,
            forall|j: int| 0 <= j < k ==> path1.parts.deep_view()[j] == path2.parts.deep_view()[j],
            parts@.len() == k,
            parts.deep_view() == path1.parts.deep_view().subrange(0, k as int),
            mismatch ==> k < n && path1.parts.deep_view()[k as int] != path2.parts.deep_view()[
                k as int
            ],
        decreases n - k + (if mismatch { 0int } else { 1 }),
    {
        if path1.parts[k].eq(&path2.parts[k]) {
            let ghost prev = parts@;
            let c = path1.parts[k].clone();
            proof {
                assert(c == path1.parts@[k as int]);
            }
            parts.push(c);
            proof {
                assert forall|i: int| 0 <= i < k + 1 implies parts.deep_view()[i]
                    == path1.parts.deep_view()[i] by {
                    if i < k {
                        assert(parts@[i] == prev[i]);
                        assert(path1.parts.deep_view().subrange(0, k as int)[i]
                            == path1.parts.deep_view()[i]);
                    } else {
                        assert(parts@[i] == path1.parts@[i]);
                    }
                }
                assert(parts.deep_view() =~= path1.parts.deep_view().subrange(0, k + 1));
            }
            k += 1;
        } else {
            mismatch = true;
        }
    }
    let r = PathRep { rooted: path1.rooted, parts };
    proof {
        let a = path1.comps();
        let b = path2.comps();
        let off: int = if path1.rooted {
            1
        } else {
            0
        };
        let kk = k as int + off;
        assert forall|j: int| 0 <= j < kk implies a[j] == b[j] by {
            if j >= off {
                assert(path1.parts.deep_view()[j - off] == path2.parts.deep_view()[j - off]);
            }
        }
        if mismatch {
            assert(a[kk] != b[kk]) by {
                assert(path1.parts.deep_view()[k as int] != path2.parts.deep_view()[k as int]);
            }
            lemma_lcp_at_divergence(a, b, kk);
        } else {
            assert(k == n);
            assert(kk == a.len() || kk == b.len());
            lemma_lcp_at_divergence(a, b, kk);
        }
        assert(r.comps() =~= a.subrange(0, kk));
    }
    r
}

/// The accumulator after folding `find_common_prefix` over the paths
/// from index `i` on.
pub open spec fn fold_lcp(acc: Seq<PComp>, paths: Seq<PathRep>, i: int) -> Seq<PComp>
    decreases paths.len() - i,
{
    if i < 0 || i >= paths.len() {
        acc
    } else {
        fold_lcp(lcp(acc, paths[i].comps()), paths, i + 1)
    }
}

/// The common ancestor of a nonempty path set: the first path's parent
/// directory, shrunk to the longest prefix shared with every other
/// path. A first path without a parent yields the root. When nothing is
/// shared and the set touches the filesystem root, the ancestor falls
/// back to the root itself; a set of purely relative paths keeps the
/// empty ancestor, beneath which every relative path lies.
pub open spec fn spec_common_ancestor(paths: Seq<PathRep>) -> Seq<PComp> {
    if paths[0].parts.len() == 0 {
        seq![PComp::Root]
    } else {
        let a = fold_lcp(paths[0].parent_comps(), paths, 1);
        if a.len() == 0 && (exists|i: int| 0 <= i < paths.len() && (#[trigger] paths[i]).rooted) {
            seq![PComp::Root]
        } else {
            a
        }
    }
}

/// The deepest directory shared by every path in the set, or nothing
/// for an empty set.
pub fn common_ancestor(paths: &Vec<PathRep>) -> (r: Option<PathRep>)
    ensures
        r is Some <==> paths@.len() > 0,
        r matches Some(a) ==> a.comps() == spec_common_ancestor(paths@),
{
    if paths.len() == 0 {
        return None;
    }
    let first = &paths[0];
    if first.parts.len() == 0 {
        return Some(PathRep { rooted: true, parts: Vec::new() });
    }
    let mut acc = match first.parent() {
        Some(p) => p,
        None => {
            return None;  // unreachable: first has at least one part
        },
    };
    let ghost target = fold_lcp(paths@[0].parent_comps(), paths@, 1);
    let mut i: usize = 1;
    while i < paths.len()
        invariant
            1 <= i <= paths@.len(),
            fold_lcp(acc.comps(), paths@, i as int) == target,
        decreases paths@.len() - i,
    {
        acc = find_common_prefix(&acc, &paths[i]);
        i += 1;
    }
    if acc.parts.len() == 0 && !acc.rooted {
        let mut j: usize = 0;
        while j < paths.len()
            invariant
                j <= paths@.len(),
                paths@.len() > 0,
                paths@[0].parts.len() > 0,
                acc.comps() == target,
                acc.comps().len() == 0,
                target == fold_lcp(paths@[0].parent_comps(), paths@, 1),
                forall|m: int| 0 <= m < j ==> !(#[trigger] paths@[m]).rooted,
            decreases paths@.len() - j,
        {
            if paths[j].rooted {
                let root = PathRep { rooted: true, parts: Vec::new() };
                proof {
                    assert(root.comps() =~= seq![PComp::Root]);
                }
                return Some(root);
            }
            j += 1;
        }
    } else {
        proof {
            assert(acc.parts.deep_view().len() == acc.parts@.len());
            assert(acc.comps().len() > 0);
        }
    }
    Some(acc)
}

/// How joining `b` onto `a` composes: a rooted right side replaces the
/// left side entirely, as filesystem path joining does.
pub open spec fn spec_join(a: Seq<PComp>, b: Seq<PComp>) -> Seq<PComp> {
    if b.len() > 0 && b[0] is Root {
        b
    } else {
        a + b
    }
}

/// Joins a relative path onto a base directory; a rooted right side
/// replaces the base.
pub fn join(base: &PathRep, rel: &PathRep) -> (r: PathRep)
    ensures
        r.comps() == spec_join(base.comps(), rel.comps()),
{
    if rel.rooted {
        let r = rel.duplicate();
        proof {
            assert(r.comps() == spec_join(base.comps(), rel.comps()));
        }
        r
    } else {
        let mut parts = clone_parts_prefix(&base.parts, base.parts.len());
        let ghost cbv = parts@;
        let ghost cbd = parts.deep_view();
        proof {
            assert(cbd =~= base.parts.deep_view());
        }
        let mut j: usize = 0;
        while j < rel.parts.len()
            invariant
                j <= rel.parts@.len(),
                parts@ == cbv + rel.parts@.subrange(0, j as int),
                cbv.len() == base.parts@.len(),
            decreases rel.parts@.len() - j,
        {
            let c = rel.parts[j].clone();
            proof {
                assert(c == rel.parts@[j as int]);
            }
            parts.push(c);
            proof {
                assert(parts@ =~= cbv + rel.parts@.subrange(0, j + 1));
            }
            j += 1;
        }
        proof {
            assert(rel.parts@.subrange(0, rel.parts@.len() as int) =~= rel.parts@);
        }
        let r = PathRep { rooted: base.rooted, parts };
        proof {
            assert forall|i: int| 0 <= i < r.parts@.len() implies r.parts.deep_view()[i] == (
            base.parts.deep_view() + rel.parts.deep_view())[i] by {
                if i < cbv.len() {
                    assert(r.parts@[i] == cbv[i]);
                    assert(r.parts.deep_view()[i] == cbd[i]);
                    assert(cbd[i] == base.parts.deep_view()[i]);
                } else {
                    assert(r.parts@[i] == rel.parts@[i - cbv.len()]);
                    assert(r.parts.deep_view()[i] == rel.parts.deep_view()[i - cbv.len()]);
                }
            }
            assert(r.parts.deep_view() =~= base.parts.deep_view() + rel.parts.deep_view());
            assert(r.comps() =~= base.comps() + rel.comps());
        }
        r
    }
}

/// Appends one more part to a path.
pub fn push_part(base: &PathRep, name: String) -> (r: PathRep)
    ensures
        r.comps() == base.comps().push(PComp::Part(name@)),
{
    let mut dup = base.duplicate();
    let ghost prev = dup.parts@;
    dup.parts.push(name);
    proof {
        assert forall|i: int| 0 <= i < dup.parts@.len() implies dup.parts.deep_view()[i]
            == base.parts.deep_view().push(name@)[i] by {
            if i < prev.len() {
                assert(dup.parts@[i] == prev[i]);
            } else {
                assert(dup.parts@[i] == name);
            }
        }
        assert(dup.parts.deep_view() =~= base.parts.deep_view().push(name@));
        assert(dup.comps() =~= base.comps().push(PComp::Part(name@)));
    }
    dup
}

/// Every sequence is a prefix of itself.
pub proof fn lemma_prefix_reflexive(a: Seq<PComp>)
    ensures
        is_prefix_of(a, a),
{
    assert(a =~= a.subrange(0, a.len() as int));
}

/// A prefix of a prefix is a prefix of the whole.
pub proof fn lemma_prefix_transitive(d: Seq<PComp>, a: Seq<PComp>, b: Seq<PComp>)
    requires
        is_prefix_of(d, a),
        is_prefix_of(a, b),
    ensures
        is_prefix_of(d, b),
{
    assert(d =~= b.subrange(0, d.len() as int)) by {
        assert forall|j: int| 0 <= j < d.len() implies d[j] == b[j] by {
            assert(d[j] == a.subrange(0, d.len() as int)[j]);
            assert(a[j] == b.subrange(0, a.len() as int)[j]);
        }
    }
}

/// Dropping the last component leaves a prefix.
pub proof fn lemma_drop_last_prefix(a: Seq<PComp>)
    requires
        a.len() > 0,
    ensures
        is_prefix_of(a.drop_last(), a),
{
    assert(a.drop_last() =~= a.subrange(0, a.len() - 1));
}

/// A prefix that is as long as the whole is the whole.
pub proof fn lemma_full_prefix_is_equal(d: Seq<PComp>, s: Seq<PComp>)
    requires
        is_prefix_of(d, s),
        d.len() == s.len(),
    ensures
        d == s,
{
    assert(d =~= s);
}

/// A strictly shorter prefix is a prefix of the parent as well.
pub proof fn lemma_proper_prefix_of_parent(d: Seq<PComp>, s: Seq<PComp>)
    requires
        is_prefix_of(d, s),
        d.len() < s.len(),
    ensures
        is_prefix_of(d, s.drop_last()),
{
    assert(d =~= s.drop_last().subrange(0, d.len() as int)) by {
        assert forall|j: int| 0 <= j < d.len() implies d[j] == s.drop_last()[j] by {
            assert(d[j] == s.subrange(0, d.len() as int)[j]);
        }
    }
}

/// The folded accumulator is a prefix of its seed and of every path it
/// was folded over.
proof fn lemma_fold_lcp_is_prefix(acc: Seq<PComp>, paths: Seq<PathRep>, i: int)
    requires
        0 <= i,
    ensures
        is_prefix_of(fold_lcp(acc, paths, i), acc),
        forall|j: int|
            i <= j < paths.len() ==> is_prefix_of(
                fold_lcp(acc, paths, i),
                #[trigger] paths[j].comps(),
            ),
    decreases paths.len() - i,
{
    if i < 0 || i >= paths.len() {
        lemma_prefix_reflexive(acc);
    } else {
        let acc2 = lcp(acc, paths[i].comps());
        lemma_lcp_is_prefix(acc, paths[i].comps());
        lemma_fold_lcp_is_prefix(acc2, paths, i + 1);
        let f = fold_lcp(acc, paths, i);
        assert(f == fold_lcp(acc2, paths, i + 1));
        lemma_prefix_transitive(f, acc2, acc);
        lemma_prefix_transitive(f, acc2, paths[i].comps());
        assert forall|j: int| i <= j < paths.len() implies is_prefix_of(
            f,
            #[trigger] paths[j].comps(),
        ) by {
            if j > i {
                assert(is_prefix_of(fold_lcp(acc2, paths, i + 1), paths[j].comps()));
            }
        }
    }
}

/// Anything that is a prefix of the seed and of every folded path is a
/// prefix of the folded accumulator.
proof fn lemma_fold_lcp_longest(acc: Seq<PComp>, paths: Seq<PathRep>, i: int, d: Seq<PComp>)
    requires
        0 <= i,
        is_prefix_of(d, acc),
        forall|j: int| i <= j < paths.len() ==> is_prefix_of(d, #[trigger] paths[j].comps()),
    ensures
        is_prefix_of(d, fold_lcp(acc, paths, i)),
    decreases paths.len() - i,
{
    if 0 <= i < paths.len() {
        lemma_lcp_is_longest(acc, paths[i].comps(), d);
        lemma_fold_lcp_longest(lcp(acc, paths[i].comps()), paths, i + 1, d);
    }
}

/// When every path in the set starts with the root, the folded
/// accumulator keeps the root at its head and never becomes empty.
proof fn lemma_fold_lcp_keeps_root(acc: Seq<PComp>, paths: Seq<PathRep>, i: int)
    requires
        0 <= i,
        acc.len() > 0,
        acc[0] is Root,
        forall|j: int|
            i <= j < paths.len() ==> (#[trigger] paths[j]).comps().len() > 0
                && paths[j].comps()[0] is Root,
    ensures
        fold_lcp(acc, paths, i).len() > 0,
        fold_lcp(acc, paths, i)[0] is Root,
    decreases paths.len() - i,
{
    if i < paths.len() {
        let c = lcp(acc, paths[i].comps());
        assert(acc[0] == paths[i].comps()[0]);
        assert(c == seq![acc[0]] + lcp(
            acc.subrange(1, acc.len() as int),
            paths[i].comps().subrange(1, paths[i].comps().len() as int),
        ));
        assert(c.len() > 0 && c[0] is Root);
        lemma_fold_lcp_keeps_root(c, paths, i + 1);
    }
}

/// For a set whose members are all rooted or all relative, the common
/// ancestor is exactly the folded longest common prefix: the fallback
/// to the filesystem root never fires.
pub proof fn lemma_uniform_ancestor_is_fold(paths: Seq<PathRep>)
    requires
        paths.len() > 0,
        paths[0].parts.len() > 0,
        forall|i: int| 0 <= i < paths.len() ==> (#[trigger] paths[i]).rooted == paths[0].rooted,
    ensures
        spec_common_ancestor(paths) == fold_lcp(paths[0].parent_comps(), paths, 1),
{
    let seed = paths[0].parent_comps();
    if paths[0].rooted {
        assert(paths[0].parts.deep_view().len() == paths[0].parts@.len());
        assert(paths[0].comps().len() > 1);
        assert(paths[0].comps()[0] is Root);
        assert(seed.len() > 0 && seed[0] is Root) by {
            assert(seed[0] == paths[0].comps()[0]);
        }
        assert forall|j: int|
            1 <= j < paths.len() implies (#[trigger] paths[j]).comps().len() > 0
            && paths[j].comps()[0] is Root by {
            assert(paths[j].rooted);
        }
        lemma_fold_lcp_keeps_root(seed, paths, 1);
    } else {
        assert(!(exists|i: int| 0 <= i < paths.len() && (#[trigger] paths[i]).rooted));
    }
}

/// The common ancestor lies above every member: each member has the
/// ancestor as a component prefix, which is exactly the condition under
/// which `relativize` of the member against the ancestor succeeds. The
/// members must be all rooted or all relative: in a mixed set the
/// ancestor is the filesystem root, and a relative member does not lie
/// beneath it.
pub proof fn lemma_members_under_common_ancestor(paths: Seq<PathRep>)
    requires
        paths.len() > 0,
        paths[0].parts.len() > 0,
        forall|i: int| 0 <= i < paths.len() ==> (#[trigger] paths[i]).rooted == paths[0].rooted,
    ensures
        forall|i: int|
            0 <= i < paths.len() ==> is_prefix_of(
                spec_common_ancestor(paths),
                #[trigger] paths[i].comps(),
            ),
{
    let seed = paths[0].parent_comps();
    let a = spec_common_ancestor(paths);
    lemma_uniform_ancestor_is_fold(paths);
    lemma_fold_lcp_is_prefix(seed, paths, 1);
    lemma_drop_last_prefix(paths[0].comps());
    lemma_prefix_transitive(a, seed, paths[0].comps());
}

/// For a nonempty path set, all rooted or all relative, in which no
/// member is a component prefix of another, the common ancestor is a
/// shared prefix of every member's parent directory, and no deeper
/// directory is common to all of them.
pub proof fn lemma_common_ancestor_longest_shared_prefix(paths: Seq<PathRep>)
    requires
        paths.len() > 0,
        forall|i: int| 0 <= i < paths.len() ==> (#[trigger] paths[i].parts).len() > 0,
        forall|i: int| 0 <= i < paths.len() ==> (#[trigger] paths[i]).rooted == paths[0].rooted,
        forall|i: int, j: int|
            0 <= i < paths.len() && 0 <= j < paths.len() && i != j ==> !is_prefix_of(
                #[trigger] paths[i].comps(),
                #[trigger] paths[j].comps(),
            ),
    ensures
        forall|i: int|
            0 <= i < paths.len() ==> is_prefix_of(
                spec_common_ancestor(paths),
                #[trigger] paths[i].parent_comps(),
            ),
        forall|d: Seq<PComp>|
            (forall|i: int|
                0 <= i < paths.len() ==> is_prefix_of(d, #[trigger] paths[i].parent_comps()))
                ==> is_prefix_of(d, spec_common_ancestor(paths)),
{
    let seed = paths[0].parent_comps();
    let a = spec_common_ancestor(paths);
    lemma_uniform_ancestor_is_fold(paths);
    lemma_fold_lcp_is_prefix(seed, paths, 1);
    lemma_drop_last_prefix(paths[0].comps());
    lemma_prefix_transitive(a, seed, paths[0].comps());
    lemma_members_under_common_ancestor(paths);
    assert forall|i: int| 0 <= i < paths.len() implies is_prefix_of(
        a,
        paths[i].parent_comps(),
    ) by {
        if i == 0 {
            lemma_proper_prefix_of_parent(a, paths[0].comps());
        } else {
            if a.len() == paths[i].comps().len() {
                lemma_full_prefix_is_equal(a, paths[i].comps());
                lemma_prefix_transitive(paths[i].comps(), seed, paths[0].comps());
                assert(false);
            }
            lemma_proper_prefix_of_parent(a, paths[i].comps());
        }
    }
    assert forall|d: Seq<PComp>|
        (forall|i: int|
            0 <= i < paths.len() ==> is_prefix_of(
                d,
                #[trigger] paths[i].parent_comps(),
            )) implies is_prefix_of(d, a) by {
        assert forall|j: int| 1 <= j < paths.len() implies is_prefix_of(
            d,
            #[trigger] paths[j].comps(),
        ) by {
            lemma_drop_last_prefix(paths[j].comps());
            lemma_prefix_transitive(d, paths[j].parent_comps(), paths[j].comps());
        }
        assert(is_prefix_of(d, seed));
        lemma_fold_lcp_longest(seed, paths, 1, d);
    }
}

/// Error: a path was expected to lie under an ancestor directory but
/// does not.
#[derive(Debug)]
pub struct PathRelationError;

/// Compares the first `n` parts of two part vectors.
fn parts_prefix_eq(a: &Vec<String>, b: &Vec<String>, n: usize) -> (r: bool)
    requires
        n <= a@.len(),
        n <= b@.len(),
    ensures
        r <==> (forall|j: int| 0 <= j < n ==> a.deep_view()[j] == b.deep_view()[j]),
{
    let mut k: usize = 0;
    let mut mismatch = false;
    while k < n && !mismatch
        invariant
            k <= n <= a@.len(),
            n <= b@.len(),
            !mismatch ==> forall|j: int| 0 <= j < k ==> a.deep_view()[j] == b.deep_view()[j],
            mismatch ==> k < n && a.deep_view()[k as int] != b.deep_view()[k as int],
        decreases n - k + (if mismatch {
            0int
        } else {
            1int
        }),
    {
        if a[k].eq(&b[k]) {
            k += 1;
        } else {
            mismatch = true;
        }
    }
    !mismatch
}

/// Equal component sequences come only from an equal root flag and
/// equal parts.
pub proof fn lemma_comps_determine(a: PathRep, b: PathRep)
    requires
        a.comps() == b.comps(),
    ensures
        a.rooted == b.rooted,
        a.parts.deep_view() == b.parts.deep_view(),
{
    let pa = a.parts.deep_view();
    let pb = b.parts.deep_view();
    assert(a.comps().len() == (if a.rooted {
        1int
    } else {
        0int
    }) + pa.len());
    assert(b.comps().len() == (if b.rooted {
        1int
    } else {
        0int
    }) + pb.len());
    assert(a.rooted == b.rooted) by {
        if a.rooted && !b.rooted {
            assert(a.comps()[0] is Root);
            if pb.len() > 0 {
                assert(b.comps()[0] == PComp::Part(pb[0]));
            }
            assert(false);
        }
        if !a.rooted && b.rooted {
            assert(b.comps()[0] is Root);
            if pa.len() > 0 {
                assert(a.comps()[0] == PComp::Part(pa[0]));
            }
            assert(false);
        }
    }
    let off: int = if a.rooted {
        1
    } else {
        0
    };
    assert(pa =~= pb) by {
        assert forall|i: int| 0 <= i < pa.len() implies pa[i] == pb[i] by {
            assert(a.comps()[i + off] == b.comps()[i + off]);
            assert(a.comps()[i + off] == PComp::Part(pa[i]));
            assert(b.comps()[i + off] == PComp::Part(pb[i]));
        }
    }
}

/// Compares two paths by their component sequences.
pub fn paths_equal(a: &PathRep, b: &PathRep) -> (r: bool)
    ensures
        r == (a.comps() == b.comps()),
{
    if a.rooted != b.rooted {
        proof {
            if a.comps() == b.comps() {
                lemma_comps_determine(*a, *b);
            }
        }
        false
    } else if a.parts.len() != b.parts.len() {
        proof {
            assert(a.parts.deep_view().len() == a.parts@.len());
            assert(b.parts.deep_view().len() == b.parts@.len());
        }
        false
    } else if parts_prefix_eq(&a.parts, &b.parts, a.parts.len()) {
        proof {
            assert(a.comps() =~= b.comps());
        }
        true
    } else {
        proof {
            if a.comps() == b.comps() {
                lemma_comps_determine(*a, *b);
            }
        }
        false
    }
}

/// Strips the ancestor prefix from the path, leaving the relative
/// remainder; fails exactly when the path is not rooted under the
/// ancestor.
pub fn relativize(path: &PathRep, ancestor: &PathRep) -> (r: Result<PathRep, PathRelationError>)
    ensures
        r is Ok <==> is_prefix_of(ancestor.comps(), path.comps()),
        r matches Ok(rel) ==> rel.comps() == path.comps().subrange(
            ancestor.comps().len() as int,
            path.comps().len() as int,
        ),
{
    let ghost ac = ancestor.comps();
    let ghost pc = path.comps();
    if ancestor.rooted && !path.rooted {
        proof {
            if is_prefix_of(ac, pc) {
                assert(ac[0] == pc.subrange(0, ac.len() as int)[0]);
                assert(ac[0] is Root && pc[0] is Part);
            }
        }
        Err(PathRelationError)
    } else if ancestor.rooted == path.rooted {
        if ancestor.parts.len() > path.parts.len() {
            proof {
                assert(ac.len() > pc.len());
            }
            Err(PathRelationError)
        } else if parts_prefix_eq(&ancestor.parts, &path.parts, ancestor.parts.len()) {
            let parts = clone_parts_range(&path.parts, ancestor.parts.len(), path.parts.len());
            let rel = PathRep { rooted: false, parts };
            proof {
                let off: int = if path.rooted {
                    1
                } else {
                    0
                };
                assert(ac =~= pc.subrange(0, ac.len() as int)) by {
                    assert forall|j: int| 0 <= j < ac.len() implies ac[j] == pc[j] by {
                        if j >= off {
                            assert(ancestor.parts.deep_view()[j - off] == path.parts.deep_view()[
                                j - off
                            ]);
                        }
                    }
                }
                assert(rel.comps() =~= pc.subrange(ac.len() as int, pc.len() as int)) by {
                    assert forall|i: int| 0 <= i < rel.comps().len() implies rel.comps()[i] == pc[
                        ac.len() + i
                    ] by {
                        assert(rel.parts.deep_view()[i] == path.parts.deep_view()[
                            ancestor.parts@.len() + i
                        ]);
                    }
                }
            }
            Ok(rel)
        } else {
            proof {
                let off: int = if path.rooted {
                    1
                } else {
                    0
                };
                let j = choose|j: int|
                    0 <= j < ancestor.parts@.len() && ancestor.parts.deep_view()[j]
                        != path.parts.deep_view()[j];
                if is_prefix_of(ac, pc) {
                    assert(ac[j + off] == pc.subrange(0, ac.len() as int)[j + off]);
                }
            }
            Err(PathRelationError)
        }
    } else {
        if ancestor.parts.len() == 0 {
            let rel = path.duplicate();
            proof {
                assert(ac.len() == 0);
                assert(ac =~= pc.subrange(0, 0));
                assert(rel.comps() =~= pc.subrange(0, pc.len() as int));
            }
            Ok(rel)
        } else {
            proof {
                if is_prefix_of(ac, pc) {
                    assert(ac[0] == pc.subrange(0, ac.len() as int)[0]);
                    assert(ac[0] is Part && pc[0] is Root);
                }
            }
            Err(PathRelationError)
        }
    }
}

} // verus!
