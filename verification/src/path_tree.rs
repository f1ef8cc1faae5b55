//! A per-segment trie over the path strings of one spec.
//!
//! Every path segment is its own node.  A node that ends a path but also has
//! children gets a synthetic `"."` child that stands for the path itself.
use vstd::multiset::Multiset;
use vstd::prelude::*;

use crate::text::push_char;

verus! {

broadcast use vstd::multiset::group_multiset_axioms;

/// One node of the path trie.
#[derive(Debug)]
pub struct PathNode {
    /// Single path segment label, e.g. `"api"`, `"v2"`, `"{id}"`.
    pub label: String,
    /// Index into the spec's path list; only leaves carry one.
    pub path_index: Option<usize>,
    /// Children, sorted once the trie is complete.
    pub children: Vec<PathNode>,
}

// ─── Model ───────────────────────────────────────────────────────────────────

/// The label of the synthetic self-endpoint child.
pub open spec fn dot() -> Seq<char> {
    seq!['.']
}

/// The views of a list of segment strings.
pub open spec fn seg_views(v: Seq<String>) -> Seq<Seq<char>> {
    v.map_values(|s: String| s@)
}

pub open spec fn opt_ms(o: Option<usize>) -> Multiset<usize> {
    match o {
        Some(i) => Multiset::singleton(i),
        None => Multiset::empty(),
    }
}

/// Every path index stored in the subtree rooted at `n`.
pub open spec fn node_indices(n: PathNode) -> Multiset<usize>
    decreases n,
{
    opt_ms(n.path_index).add(seq_indices(n.children@))
}

/// Every path index stored below `n` is less than `bound`.
pub open spec fn indices_below(n: PathNode, bound: int) -> bool {
    forall|v: usize| #[trigger] node_indices(n).count(v) > 0 ==> v < bound
}

/// Every path index stored in a list of subtrees.
pub open spec fn seq_indices(s: Seq<PathNode>) -> Multiset<usize>
    decreases s,
{
    if s.len() == 0 {
        Multiset::empty()
    } else {
        seq_indices(s.drop_last()).add(node_indices(s.last()))
    }
}

/// Position of the first node labelled `l`, or -1.
pub open spec fn find_label(s: Seq<PathNode>, l: Seq<char>) -> int
    decreases s.len(),
{
    if s.len() == 0 {
        -1
    } else {
        let k = find_label(s.drop_last(), l);
        if k >= 0 {
            k
        } else if s.last().label@ == l {
            s.len() - 1
        } else {
            -1
        }
    }
}

/// The path index reached by following `segs` from `n`: the node reached
/// either carries the index itself or holds it in its `"."` child.
pub open spec fn lookup(n: PathNode, segs: Seq<Seq<char>>) -> Option<usize>
    decreases segs.len(),
{
    if segs.len() == 0 {
        if n.path_index.is_some() {
            n.path_index
        } else {
            let k = find_label(n.children@, dot());
            if k >= 0 {
                n.children@[k].path_index
            } else {
                None
            }
        }
    } else {
        let k = find_label(n.children@, segs[0]);
        if k >= 0 {
            lookup(n.children@[k], segs.drop_first())
        } else {
            None
        }
    }
}

pub open spec fn labels_unique(s: Seq<PathNode>) -> bool {
    forall|i: int, j: int| 0 <= i < j < s.len() ==> s[i].label@ != s[j].label@
}

/// Structural invariant of a trie built from distinct paths: only childless
/// nodes carry an index, sibling labels are distinct, every `"."` child is a
/// leaf with an index, and no subtree is empty.
pub open spec fn well_formed(n: PathNode) -> bool
    decreases n,
{
    &&& (n.path_index.is_some() ==> n.children.len() == 0)
    &&& labels_unique(n.children@)
    &&& forall|i: int|
        0 <= i < n.children.len() ==> {
            &&& (#[trigger] n.children@[i]).label@ == dot() ==> (n.children@[i].path_index.is_some()
                && n.children@[i].children.len() == 0)
            &&& node_indices(n.children@[i]).len() > 0
            &&& well_formed(n.children@[i])
        }
}

/// Some node of `s` is labelled `"."`.
pub open spec fn has_dot(s: Seq<PathNode>) -> bool {
    exists|i: int| 0 <= i < s.len() && (#[trigger] s[i]).label@ == dot()
}

/// Shape of the trie: in every node, a `"."` child (the endpoint of a path
/// that is also a prefix of longer paths) occurs only beside other
/// children, so a path that no longer path extends ends in a leaf that
/// carries its index.
pub open spec fn dots_beside(n: PathNode) -> bool
    decreases n,
{
    &&& has_dot(n.children@) ==> n.children@.len() >= 2
    &&& forall|i: int| 0 <= i < n.children.len() ==> dots_beside(#[trigger] n.children@[i])
}

pub open spec fn all_dots_beside(s: Seq<PathNode>) -> bool {
    forall|i: int| 0 <= i < s.len() ==> dots_beside(#[trigger] s[i])
}

proof fn lemma_dots_leaf(n: PathNode)
    requires
        n.children@.len() == 0,
    ensures
        dots_beside(n),
{
}

proof fn lemma_swap_dots(s: Seq<PathNode>, i: int)
    requires
        0 <= i < s.len() - 1,
    ensures
        s.len() == swap_adj(s, i).len(),
        all_dots_beside(s) ==> all_dots_beside(swap_adj(s, i)),
        has_dot(swap_adj(s, i)) == has_dot(s),
{
    let t = swap_adj(s, i);
    if all_dots_beside(s) {
        assert forall|k: int| 0 <= k < t.len() implies dots_beside(#[trigger] t[k]) by {
            if k == i {
                assert(t[k] == s[i + 1]);
            } else if k == i + 1 {
                assert(t[k] == s[i]);
            } else {
                assert(t[k] == s[k]);
            }
        }
    }
    if has_dot(s) {
        let k = choose|k: int| 0 <= k < s.len() && (#[trigger] s[k]).label@ == dot();
        let k2 = if k == i { i + 1 } else if k == i + 1 { i } else { k };
        assert(t[k2] == s[k]);
    }
    if has_dot(t) {
        let k = choose|k: int| 0 <= k < t.len() && (#[trigger] t[k]).label@ == dot();
        let k2 = if k == i { i + 1 } else if k == i + 1 { i } else { k };
        assert(s[k2] == t[k]);
    }
}

pub open spec fn no_dot_segment(segs: Seq<Seq<char>>) -> bool {
    forall|i: int| 0 <= i < segs.len() ==> segs[i] != dot()
}

// ─── Lemmas ──────────────────────────────────────────────────────────────────

pub proof fn lemma_find_label(s: Seq<PathNode>, l: Seq<char>)
    ensures
        -1 <= find_label(s, l) < s.len(),
        find_label(s, l) >= 0 ==> s[find_label(s, l)].label@ == l,
        find_label(s, l) >= 0 ==> forall|j: int| 0 <= j < find_label(s, l) ==> s[j].label@ != l,
        find_label(s, l) == -1 ==> forall|j: int| 0 <= j < s.len() ==> s[j].label@ != l,
    decreases s.len(),
{
    if s.len() > 0 {
        let d = s.drop_last();
        lemma_find_label(d, l);
        assert forall|j: int| 0 <= j < d.len() implies d[j] == s[j] by {}
    }
}

/// With distinct labels, `find_label` is the unique position holding `l`.
pub proof fn lemma_find_unique(s: Seq<PathNode>, l: Seq<char>, k: int)
    requires
        labels_unique(s),
        0 <= k < s.len(),
        s[k].label@ == l,
    ensures
        find_label(s, l) == k,
{
    lemma_find_label(s, l);
}

pub proof fn lemma_seq_indices_push(s: Seq<PathNode>, x: PathNode)
    ensures
        seq_indices(s.push(x)) == seq_indices(s).add(node_indices(x)),
{
    assert(s.push(x).drop_last() =~= s);
}

/// The indices below one node of a list are among the list's indices.
proof fn lemma_seq_indices_member(s: Seq<PathNode>, k: int)
    requires
        0 <= k < s.len(),
    ensures
        forall|v: usize| node_indices(s[k]).count(v) <= #[trigger] seq_indices(s).count(v),
    decreases s.len(),
{
    assert(seq_indices(s) == seq_indices(s.drop_last()).add(node_indices(s.last())));
    if k < s.len() - 1 {
        lemma_seq_indices_member(s.drop_last(), k);
        assert(s.drop_last()[k] == s[k]);
    }
    assert forall|v: usize| node_indices(s[k]).count(v) <= #[trigger] seq_indices(s).count(v) by {
        assert(seq_indices(s).count(v) == seq_indices(s.drop_last()).count(v) + node_indices(s.last()).count(v));
        if k < s.len() - 1 {
            assert(node_indices(s[k]).count(v) <= seq_indices(s.drop_last()).count(v));
        }
    }
}

pub proof fn lemma_seq_indices_update(s: Seq<PathNode>, k: int, x: PathNode)
    requires
        0 <= k < s.len(),
    ensures
        seq_indices(s.update(k, x)).add(node_indices(s[k])) == seq_indices(s).add(node_indices(x)),
    decreases s.len(),
{
    let t = s.update(k, x);
    if k == s.len() - 1 {
        assert(t.drop_last() =~= s.drop_last());
        assert(seq_indices(t).add(node_indices(s[k])) =~= seq_indices(s).add(node_indices(x)));
    } else {
        let d = s.drop_last();
        lemma_seq_indices_update(d, k, x);
        assert(t.drop_last() =~= d.update(k, x));
        assert(t.last() == s.last());
        assert(d[k] == s[k]);
        let a = seq_indices(d.update(k, x));
        let b = node_indices(s.last());
        let c = node_indices(s[k]);
        let e = seq_indices(d);
        let f = node_indices(x);
        assert(seq_indices(t) == a.add(b));
        assert(seq_indices(s) == e.add(b));
        assert forall|v: usize| #[trigger] a.add(b).add(c).count(v) == e.add(b).add(f).count(v) by {
            assert(a.add(c).count(v) == e.add(f).count(v));
        }
        assert(a.add(b).add(c) =~= e.add(b).add(f));
    }
}

} // verus!

verus! {

/// Replacing child `k` by a node with the same label changes only the
/// lookups that go through that child.
pub proof fn lemma_lookup_replace(
    n: PathNode,
    n2: PathNode,
    k: int,
    x: PathNode,
    segs: Seq<Seq<char>>,
)
    requires
        labels_unique(n.children@),
        0 <= k < n.children@.len(),
        x.label@ == n.children@[k].label@,
        n2.children@ == n.children@.update(k, x),
        n2.path_index == n.path_index,
    ensures
        labels_unique(n2.children@),
        segs.len() > 0 && segs[0] == x.label@ ==> lookup(n2, segs) == lookup(x, segs.drop_first()),
        segs.len() > 0 && segs[0] == x.label@ ==> lookup(n, segs) == lookup(
            n.children@[k],
            segs.drop_first(),
        ),
        segs.len() > 0 && segs[0] != x.label@ ==> lookup(n2, segs) == lookup(n, segs),
        segs.len() == 0 && x.label@ != dot() ==> lookup(n2, segs) == lookup(n, segs),
        segs.len() == 0 && x.path_index == n.children@[k].path_index ==> lookup(n2, segs) == lookup(
            n,
            segs,
        ),
{
    let s = n.children@;
    let s2 = n2.children@;
    if segs.len() == 0 && x.path_index == s[k].path_index {
        lemma_find_label(s, dot());
        lemma_find_label(s2, dot());
        let a = find_label(s, dot());
        let b = find_label(s2, dot());
        if a >= 0 {
            assert(s2[a].label@ == s[a].label@);
        }
        if b >= 0 {
            assert(s2[b].label@ == s[b].label@);
        }
    }
    assert forall|i: int, j: int| 0 <= i < j < s2.len() implies s2[i].label@ != s2[j].label@ by {
        assert(s2[i].label@ == s[i].label@);
        assert(s2[j].label@ == s[j].label@);
    }
    if segs.len() > 0 {
        let l = segs[0];
        if l == x.label@ {
            lemma_find_unique(s2, l, k);
            lemma_find_unique(s, l, k);
        } else {
            lemma_find_label(s, l);
            lemma_find_label(s2, l);
            let a = find_label(s, l);
            let b = find_label(s2, l);
            if a >= 0 {
                lemma_find_unique(s2, l, a);
            } else if b >= 0 {
                assert(s[b].label@ == s2[b].label@);
            }
        }
    } else if x.label@ != dot() {
        let l = dot();
        lemma_find_label(s, l);
        lemma_find_label(s2, l);
        let a = find_label(s, l);
        let b = find_label(s2, l);
        if a >= 0 {
            lemma_find_unique(s2, l, a);
        } else if b >= 0 {
            assert(s[b].label@ == s2[b].label@);
        }
    }
}

/// Appending a child with a fresh label changes only the lookups that go
/// through that child.
pub proof fn lemma_lookup_push(n: PathNode, n2: PathNode, x: PathNode, segs: Seq<Seq<char>>)
    requires
        find_label(n.children@, x.label@) == -1,
        n2.children@ == n.children@.push(x),
        n2.path_index == n.path_index,
    ensures
        labels_unique(n.children@) ==> labels_unique(n2.children@),
        segs.len() > 0 && segs[0] != x.label@ ==> lookup(n2, segs) == lookup(n, segs),
        segs.len() > 0 && segs[0] == x.label@ ==> lookup(n2, segs) == lookup(x, segs.drop_first()),
        segs.len() > 0 && segs[0] == x.label@ ==> lookup(n, segs) is None,
        segs.len() == 0 && x.label@ != dot() ==> lookup(n2, segs) == lookup(n, segs),
        segs.len() == 0 && x.label@ == dot() && n.path_index is None ==> lookup(n2, segs)
            == x.path_index,
        segs.len() == 0 && x.label@ == dot() ==> lookup(n, segs) == n.path_index,
{
    let s = n.children@;
    let s2 = n2.children@;
    assert(s2.drop_last() =~= s);
    lemma_find_label(s, x.label@);
    if segs.len() > 0 {
        let l = segs[0];
        assert(find_label(s2, l) == if l == x.label@ {
            s.len() as int
        } else {
            find_label(s, l)
        });
        lemma_find_label(s, l);
        let a = find_label(s, l);
        if a >= 0 {
            assert(s2[a] == s[a]);
        }
    } else {
        assert(find_label(s2, dot()) == if dot() == x.label@ {
            s.len() as int
        } else {
            find_label(s, dot())
        });
        lemma_find_label(s, dot());
        let a = find_label(s, dot());
        if a >= 0 {
            assert(s2[a] == s[a]);
        }
    }
}

proof fn lemma_wf_leaf(n: PathNode)
    requires
        n.children@.len() == 0,
    ensures
        well_formed(n),
        node_indices(n) == opt_ms(n.path_index),
{
    assert(seq_indices(n.children@) == Multiset::<usize>::empty());
    assert(node_indices(n) =~= opt_ms(n.path_index));
}

// ─── Construction ────────────────────────────────────────────────────────────

/// The one-character string `"."`.
fn dot_string() -> (s: String)
    ensures
        s@ == dot(),
{
    let mut s = String::new();
    push_char(&mut s, '.');
    assert(s@ =~= dot());
    s
}

impl PathNode {
    /// An interior node with the given label, no index and no children.
    pub fn new_interior(label: String) -> (n: PathNode)
        ensures
            n.label == label,
            n.path_index is None,
            n.children@.len() == 0,
    {
        PathNode { label, path_index: None, children: Vec::new() }
    }

    /// A node is a leaf when it has no children.
    pub fn is_leaf(&self) -> (b: bool)
        ensures
            b == (self.children@.len() == 0),
    {
        self.children.len() == 0
    }
}

/// Position of the first child labelled `label`.
fn position_of(children: &Vec<PathNode>, label: &String) -> (r: Option<usize>)
    ensures
        match r {
            Some(k) => find_label(children@, label@) == k as int,
            None => find_label(children@, label@) == -1,
        },
{
    let n = children.len();
    let mut i: usize = 0;
    while i < n
        invariant
            n == children@.len(),
            i <= n,
            forall|j: int| 0 <= j < i ==> children@[j].label@ != label@,
        decreases n - i,
    {
        if children[i].label == *label {
            proof {
                lemma_find_label(children@, label@);
            }
            return Some(i);
        }
        i += 1;
    }
    proof {
        lemma_find_label(children@, label@);
    }
    None
}

} // verus!

verus! {

/// What `insert` guarantees for a node built from dot-free, distinct paths.
pub open spec fn insert_post(
    old_n: PathNode,
    new_n: PathNode,
    rest: Seq<Seq<char>>,
    path_index: usize,
) -> bool {
    &&& well_formed(new_n)
    &&& new_n.label == old_n.label
    &&& node_indices(new_n).len() >= node_indices(old_n).len()
    &&& (lookup(old_n, rest) is None ==> {
        &&& node_indices(new_n) == node_indices(old_n).insert(path_index)
        &&& lookup(new_n, rest) == Some(path_index)
    })
    &&& (lookup(new_n, rest) == lookup(old_n, rest) || lookup(new_n, rest) == Some(path_index))
    &&& forall|s2: Seq<Seq<char>>|
        #![trigger lookup(new_n, s2)]
        no_dot_segment(s2) && s2 != rest && lookup(old_n, s2) is Some ==> lookup(new_n, s2)
            == lookup(old_n, s2)
    &&& forall|s2: Seq<Seq<char>>|
        #![trigger lookup(new_n, s2)]
        no_dot_segment(s2) && lookup(new_n, s2) is Some ==> s2 == rest || lookup(old_n, s2) is Some
}

} // verus!

verus! {

proof fn lemma_seq_cons_eq(a: Seq<Seq<char>>, b: Seq<Seq<char>>)
    requires
        a.len() > 0,
        b.len() > 0,
        a[0] == b[0],
        a.drop_first() == b.drop_first(),
    ensures
        a == b,
{
    assert(a.drop_first().len() == a.len() - 1);
    assert(b.drop_first().len() == b.len() - 1);
    assert(a.len() == b.len());
    assert forall|i: int| 0 <= i < a.len() implies a[i] == b[i] by {
        if i > 0 {
            assert(a[i] == a.drop_first()[i - 1]);
            assert(b[i] == b.drop_first()[i - 1]);
        }
    }
    assert(a =~= b);
}

proof fn lemma_no_dot_tail(a: Seq<Seq<char>>)
    requires
        a.len() > 0,
        no_dot_segment(a),
    ensures
        no_dot_segment(a.drop_first()),
        a[0] != dot(),
{
    assert forall|i: int| 0 <= i < a.drop_first().len() implies a.drop_first()[i] != dot() by {
        assert(a.drop_first()[i] == a[i + 1]);
    }
}

/// The situation inside `insert` after the child for `rest[0]` has been
/// found or created (`n1` → `n2`) and updated recursively (`c0` → `c1`).
pub open spec fn descend_setup(
    n1: PathNode,
    n2: PathNode,
    fin: PathNode,
    k: int,
    c0: PathNode,
    c1: PathNode,
    rest: Seq<Seq<char>>,
    fresh: bool,
    pi: usize,
) -> bool {
    &&& well_formed(n1)
    &&& n1.path_index is None
    &&& no_dot_segment(rest)
    &&& rest.len() > 0
    &&& 0 <= k < n2.children@.len()
    &&& c0 == n2.children@[k]
    &&& c0.label@ == rest[0]
    &&& (fresh ==> {
        &&& find_label(n1.children@, rest[0]) == -1
        &&& n2.children@ == n1.children@.push(c0)
        &&& n2.path_index == n1.path_index
        &&& c0.children@.len() == 0
        &&& c0.path_index is None
    })
    &&& (!fresh ==> n2 == n1 && find_label(n1.children@, rest[0]) == k)
    &&& well_formed(c0)
    &&& insert_post(c0, c1, rest.drop_first(), pi)
    &&& fin.children@ == n2.children@.update(k, c1)
    &&& fin.path_index == n2.path_index
    &&& fin.label == n1.label
}

proof fn lemma_descend_n2(
    n1: PathNode,
    n2: PathNode,
    fin: PathNode,
    k: int,
    c0: PathNode,
    c1: PathNode,
    rest: Seq<Seq<char>>,
    fresh: bool,
    pi: usize,
)
    requires
        descend_setup(n1, n2, fin, k, c0, c1, rest, fresh, pi),
    ensures
        labels_unique(n2.children@),
        lookup(n1, rest) == lookup(c0, rest.drop_first()),
        forall|s2: Seq<Seq<char>>|
            #![trigger lookup(n2, s2)]
            no_dot_segment(s2) && (s2.len() == 0 || s2[0] != rest[0]) ==> lookup(n2, s2) == lookup(
                n1,
                s2,
            ),
        forall|s2: Seq<Seq<char>>|
            #![trigger lookup(n2, s2)]
            s2.len() > 0 && s2[0] == rest[0] ==> lookup(n2, s2) == lookup(c0, s2.drop_first()),
        fresh ==> seq_indices(n2.children@) == seq_indices(n1.children@),
        node_indices(c0).len() == 0 ==> fresh,
{
    lemma_no_dot_tail(rest);
    if fresh {
        lemma_wf_leaf(c0);
        lemma_seq_indices_push(n1.children@, c0);
        assert(seq_indices(n2.children@) =~= seq_indices(n1.children@));
        lemma_lookup_push(n1, n2, c0, rest);
        assert(lookup(c0, rest.drop_first()) is None) by {
            let r2 = rest.drop_first();
            if r2.len() > 0 {
                lemma_find_label(c0.children@, r2[0]);
            } else {
                lemma_find_label(c0.children@, dot());
            }
        }
        assert forall|s2: Seq<Seq<char>>|
            no_dot_segment(s2) && (s2.len() == 0 || s2[0] != rest[0]) implies lookup(n2, s2)
            == lookup(n1, s2) by {
            lemma_lookup_push(n1, n2, c0, s2);
        }
        assert forall|s2: Seq<Seq<char>>| s2.len() > 0 && s2[0] == rest[0] implies lookup(n2, s2)
            == lookup(c0, s2.drop_first()) by {
            lemma_lookup_push(n1, n2, c0, s2);
        }
    } else {
        lemma_find_label(n1.children@, rest[0]);
        assert forall|s2: Seq<Seq<char>>| s2.len() > 0 && s2[0] == rest[0] implies lookup(n2, s2)
            == lookup(c0, s2.drop_first()) by {
            lemma_find_unique(n2.children@, s2[0], k);
        }
    }
}

proof fn lemma_descend_indices(
    n1: PathNode,
    n2: PathNode,
    fin: PathNode,
    k: int,
    c0: PathNode,
    c1: PathNode,
    rest: Seq<Seq<char>>,
    fresh: bool,
    pi: usize,
)
    requires
        descend_setup(n1, n2, fin, k, c0, c1, rest, fresh, pi),
    ensures
        node_indices(fin).len() >= node_indices(n1).len(),
        lookup(n1, rest) is None ==> node_indices(fin) == node_indices(n1).insert(pi),
        lookup(n1, rest) is None ==> node_indices(c1).len() > 0,
{
    lemma_descend_n2(n1, n2, fin, k, c0, c1, rest, fresh, pi);
    lemma_seq_indices_update(n2.children@, k, c1);
    let a = seq_indices(fin.children@);
    let b = seq_indices(n2.children@);
    assert(a.add(node_indices(c0)) == b.add(node_indices(c1)));
    assert(node_indices(fin) =~= a);
    if !fresh {
        assert(node_indices(n1) =~= b);
    } else {
        assert(node_indices(n1) =~= seq_indices(n1.children@));
    }
    assert(node_indices(n1) == b);
    assert(a.add(node_indices(c0)).len() == a.len() + node_indices(c0).len());
    assert(b.add(node_indices(c1)).len() == b.len() + node_indices(c1).len());
    assert(node_indices(c1).len() >= node_indices(c0).len());
    if lookup(n1, rest) is None {
        assert(node_indices(c1) == node_indices(c0).insert(pi));
        assert forall|v: usize| #[trigger] a.count(v) == b.insert(pi).count(v) by {
            assert(a.add(node_indices(c0)).count(v) == b.add(node_indices(c1)).count(v));
        }
        assert(a =~= b.insert(pi));
    }
}

proof fn lemma_descend_lookups(
    n1: PathNode,
    n2: PathNode,
    fin: PathNode,
    k: int,
    c0: PathNode,
    c1: PathNode,
    rest: Seq<Seq<char>>,
    fresh: bool,
    pi: usize,
)
    requires
        descend_setup(n1, n2, fin, k, c0, c1, rest, fresh, pi),
    ensures
        lookup(n1, rest) is None ==> lookup(fin, rest) == Some(pi),
        lookup(fin, rest) == lookup(n1, rest) || lookup(fin, rest) == Some(pi),
        forall|s2: Seq<Seq<char>>|
            #![trigger lookup(fin, s2)]
            no_dot_segment(s2) && s2 != rest && lookup(n1, s2) is Some ==> lookup(fin, s2)
                == lookup(n1, s2),
        forall|s2: Seq<Seq<char>>|
            #![trigger lookup(fin, s2)]
            no_dot_segment(s2) && lookup(fin, s2) is Some ==> s2 == rest || lookup(n1, s2) is Some,
{
    lemma_descend_n2(n1, n2, fin, k, c0, c1, rest, fresh, pi);
    lemma_no_dot_tail(rest);
    let r2 = rest.drop_first();
    lemma_lookup_replace(n2, fin, k, c1, rest);
    assert forall|s2: Seq<Seq<char>>|
        no_dot_segment(s2) && s2 != rest && lookup(n1, s2) is Some implies lookup(fin, s2) == lookup(
        n1,
        s2,
    ) by {
        lemma_lookup_replace(n2, fin, k, c1, s2);
        if s2.len() > 0 && s2[0] == rest[0] {
            lemma_no_dot_tail(s2);
            if s2.drop_first() == r2 {
                lemma_seq_cons_eq(s2, rest);
            }
            assert(lookup(n2, s2) == lookup(c0, s2.drop_first()));
            assert(lookup(fin, s2) == lookup(c1, s2.drop_first()));
        } else {
            assert(lookup(n2, s2) == lookup(n1, s2));
        }
    }
    assert forall|s2: Seq<Seq<char>>| no_dot_segment(s2) && lookup(fin, s2) is Some implies s2
        == rest || lookup(n1, s2) is Some by {
        lemma_lookup_replace(n2, fin, k, c1, s2);
        if s2.len() > 0 && s2[0] == rest[0] {
            lemma_no_dot_tail(s2);
            if s2.drop_first() == r2 {
                lemma_seq_cons_eq(s2, rest);
            } else {
                assert(lookup(fin, s2) == lookup(c1, s2.drop_first()));
                assert(lookup(n2, s2) == lookup(c0, s2.drop_first()));
            }
        } else {
            assert(lookup(n2, s2) == lookup(n1, s2));
        }
    }
}

proof fn lemma_descend_wf(
    n1: PathNode,
    n2: PathNode,
    fin: PathNode,
    k: int,
    c0: PathNode,
    c1: PathNode,
    rest: Seq<Seq<char>>,
    fresh: bool,
    pi: usize,
)
    requires
        descend_setup(n1, n2, fin, k, c0, c1, rest, fresh, pi),
        lookup(n1, rest) is None || node_indices(c0).len() > 0,
    ensures
        well_formed(fin),
{
    lemma_descend_n2(n1, n2, fin, k, c0, c1, rest, fresh, pi);
    lemma_descend_indices(n1, n2, fin, k, c0, c1, rest, fresh, pi);
    lemma_lookup_replace(n2, fin, k, c1, rest);
    lemma_no_dot_tail(rest);
    let s = fin.children@;
    assert forall|i: int| 0 <= i < s.len() implies {
        &&& (#[trigger] s[i]).label@ == dot() ==> (s[i].path_index.is_some() && s[i].children.len()
            == 0)
        &&& node_indices(s[i]).len() > 0
        &&& well_formed(s[i])
    } by {
        if i != k {
            assert(s[i] == n2.children@[i]);
            if fresh {
                assert(s[i] == n1.children@[i]);
            }
        } else {
            assert(s[i] == c1);
        }
    }
}

} // verus!

verus! {

/// Record `path_index` on `node` itself: the path's segments are used up.
fn insert_here(node: &mut PathNode, path_index: usize)
    ensures
        final(node).label == old(node).label,
        well_formed(*old(node)) ==> insert_post(*old(node), *final(node), seq![], path_index),
        dots_beside(*old(node)) ==> dots_beside(*final(node)),
        forall|bound: int| indices_below(*old(node), bound) && path_index < bound ==> #[trigger] indices_below(*final(node), bound),
{
    let ghost n0 = *node;
    let ghost rest: Seq<Seq<char>> = seq![];
    if node.children.len() == 0 {
        node.path_index = Some(path_index);
        proof {
            assert(seq_indices(node.children@) =~= Multiset::<usize>::empty());
            assert(node_indices(*node) =~= Multiset::singleton(path_index));
            lemma_dots_leaf(*node);
            lemma_wf_leaf(n0);
            lemma_wf_leaf(*node);
            assert forall|s2: Seq<Seq<char>>| s2.len() > 0 implies lookup(*node, s2) is None
                && lookup(n0, s2) is None by {
                lemma_find_label(node.children@, s2[0]);
                lemma_find_label(n0.children@, s2[0]);
            }
            assert(lookup(*node, rest) == Some(path_index));
            assert forall|s2: Seq<Seq<char>>|
                no_dot_segment(s2) && lookup(*node, s2) is Some implies s2 == rest || lookup(
                n0,
                s2,
            ) is Some by {
                if s2.len() == 0 {
                    assert(s2 =~= rest);
                }
            }
            assert forall|s2: Seq<Seq<char>>|
                no_dot_segment(s2) && s2 != rest && lookup(n0, s2) is Some implies lookup(*node, s2)
                == lookup(n0, s2) by {
                if s2.len() == 0 {
                    assert(s2 =~= rest);
                }
            }
            assert(node_indices(*node).len() >= node_indices(n0).len());
            if lookup(n0, rest) is None {
                assert(node_indices(*node) =~= node_indices(n0).insert(path_index));
            }
        }
    } else {
        let dot_label = dot_string();
        let found = position_of(&node.children, &dot_label);
        if found.is_none() {
            let leaf = PathNode { label: dot_label, path_index: Some(path_index), children: Vec::new() };
            let ghost lf = leaf;
            node.children.push(leaf);
            proof {
                lemma_seq_indices_push(n0.children@, lf);
                assert(seq_indices(lf.children@) =~= Multiset::<usize>::empty());
                assert(node_indices(*node) =~= node_indices(n0).insert(path_index));
                if dots_beside(n0) {
                    lemma_dots_leaf(lf);
                    let s = node.children@;
                    assert forall|i: int| 0 <= i < s.len() implies dots_beside(#[trigger] s[i]) by {
                        if i < s.len() - 1 {
                            assert(s[i] == n0.children@[i]);
                        }
                    }
                    assert(dots_beside(*node));
                }
                lemma_wf_leaf(lf);
                lemma_seq_indices_push(n0.children@, lf);
                if well_formed(n0) {
                    lemma_lookup_push(n0, *node, lf, rest);
                    assert(node_indices(*node) =~= node_indices(n0).insert(path_index));
                    assert forall|s2: Seq<Seq<char>>|
                        no_dot_segment(s2) && lookup(*node, s2) is Some implies s2 == rest
                        || lookup(n0, s2) is Some by {
                        lemma_lookup_push(n0, *node, lf, s2);
                        if s2.len() > 0 {
                            assert(s2[0] != dot());
                        } else {
                            assert(s2 =~= rest);
                        }
                    }
                    assert forall|s2: Seq<Seq<char>>|
                        no_dot_segment(s2) && s2 != rest && lookup(n0, s2) is Some implies lookup(
                        *node,
                        s2,
                    ) == lookup(n0, s2) by {
                        lemma_lookup_push(n0, *node, lf, s2);
                        if s2.len() > 0 {
                            assert(s2[0] != dot());
                        } else {
                            assert(s2 =~= rest);
                        }
                    }
                    let s = node.children@;
                    assert forall|i: int| 0 <= i < s.len() implies {
                        &&& (#[trigger] s[i]).label@ == dot() ==> (s[i].path_index.is_some()
                            && s[i].children.len() == 0)
                        &&& node_indices(s[i]).len() > 0
                        &&& well_formed(s[i])
                    } by {
                        if i < s.len() - 1 {
                            assert(s[i] == n0.children@[i]);
                        }
                    }
                    assert(well_formed(*node));
                }
            }
        } else {
            proof {
                if well_formed(n0) {
                    lemma_find_label(n0.children@, dot());
                }
            }
        }
    }
}

/// A pure leaf that is about to gain children keeps its endpoint as a
/// `"."` child.
fn demote_endpoint(node: &mut PathNode)
    ensures
        final(node).path_index is None,
        final(node).label == old(node).label,
        old(node).path_index is None ==> *final(node) == *old(node),
        node_indices(*final(node)) == node_indices(*old(node)),
        old(node).path_index is Some ==> {
            &&& final(node).children@.len() == old(node).children@.len() + 1
            &&& forall|j: int| 0 <= j < old(node).children@.len() ==> final(node).children@[j] == old(node).children@[j]
            &&& final(node).children@.last().label@ == dot()
            &&& final(node).children@.last().children@.len() == 0
        },
        well_formed(*old(node)) ==> {
            &&& well_formed(*final(node))
            &&& node_indices(*final(node)) == node_indices(*old(node))
            &&& forall|s2: Seq<Seq<char>>|
                #![trigger lookup(*final(node), s2)]
                no_dot_segment(s2) ==> lookup(*final(node), s2) == lookup(*old(node), s2)
        },
{
    let ghost n0 = *node;
    if node.path_index.is_some() {
        let demoted = node.path_index.unwrap();
        node.path_index = None;
        let leaf = PathNode { label: dot_string(), path_index: Some(demoted), children: Vec::new() };
        let ghost lf = leaf;
        node.children.push(leaf);
        proof {
            lemma_seq_indices_push(n0.children@, lf);
            assert(seq_indices(lf.children@) =~= Multiset::<usize>::empty());
            assert(node_indices(*node) =~= node_indices(n0));
            lemma_wf_leaf(lf);
            if well_formed(n0) {
                lemma_wf_leaf(n0);
                lemma_seq_indices_push(n0.children@, lf);
                assert(seq_indices(n0.children@) =~= Multiset::<usize>::empty());
                assert(node_indices(*node) =~= node_indices(n0));
                assert(well_formed(*node));
                assert forall|s2: Seq<Seq<char>>| no_dot_segment(s2) implies lookup(*node, s2)
                    == lookup(n0, s2) by {
                    lemma_find_label(node.children@, dot());
                    if s2.len() > 0 {
                        assert(s2[0] != dot());
                        lemma_find_label(n0.children@, s2[0]);
                        lemma_find_label(node.children@, s2[0]);
                    }
                }
            }
        }
    }
}

/// Insert the path made of `segs[pos..]` with `path_index` below `node`.
fn insert(node: &mut PathNode, segs: &Vec<String>, pos: usize, path_index: usize)
    requires
        pos <= segs@.len(),
    ensures
        final(node).label == old(node).label,
        well_formed(*old(node)) && no_dot_segment(seg_views(segs@).skip(pos as int)) ==> insert_post(
            *old(node),
            *final(node),
            seg_views(segs@).skip(pos as int),
            path_index,
        ),
        well_formed(*old(node)) && no_dot_segment(seg_views(segs@).skip(pos as int)) && dots_beside(*old(node))
            ==> dots_beside(*final(node)),
        forall|bound: int| indices_below(*old(node), bound) && path_index < bound ==> #[trigger] indices_below(*final(node), bound),
    decreases segs@.len() - pos,
{
    let ghost rest = seg_views(segs@).skip(pos as int);
    let ghost n0 = *node;
    if pos == segs.len() {
        assert(rest =~= seq![]);
        insert_here(node, path_index);
        return;
    }
    demote_endpoint(node);
    let ghost n1 = *node;
    let head = &segs[pos];
    let found = position_of(&node.children, head);
    let k: usize = match found {
        Some(k) => k,
        None => {
            let fresh = PathNode::new_interior(head.clone());
            node.children.push(fresh);
            node.children.len() - 1
        },
    };
    proof {
        if found is Some {
            lemma_find_label(n1.children@, head@);
        }
    }
    let ghost n2 = *node;
    let mut child = node.children.remove(k);
    let ghost c0 = child;
    insert(&mut child, segs, pos + 1, path_index);
    let ghost c1 = child;
    node.children.insert(k, child);
    proof {
        assert(node.children@ =~= n2.children@.update(k as int, c1));
        lemma_seq_indices_update(n2.children@, k as int, c1);
        if found is None {
            lemma_seq_indices_push(n1.children@, n2.children@[k as int]);
            assert(seq_indices(n2.children@[k as int].children@) =~= Multiset::<usize>::empty());
            assert(node_indices(n2.children@[k as int]) =~= Multiset::<usize>::empty());
            assert(seq_indices(n2.children@) =~= seq_indices(n1.children@));
        }
        assert(node_indices(n2) =~= node_indices(n0));
        lemma_seq_indices_member(n2.children@, k as int);
        assert forall|bound: int| indices_below(n0, bound) && path_index < bound implies #[trigger] indices_below(*node, bound) by {
            assert(indices_below(c0, bound)) by {
                assert forall|v: usize| #[trigger] node_indices(c0).count(v) > 0 implies v < bound by {
                    assert(seq_indices(n2.children@).count(v) > 0);
                    assert(node_indices(n0).count(v) > 0);
                }
            }
            assert(indices_below(c1, bound));
            assert forall|v: usize| #[trigger] node_indices(*node).count(v) > 0 implies v < bound by {
                assert(seq_indices(node.children@).add(node_indices(c0)).count(v)
                    == seq_indices(n2.children@).add(node_indices(c1)).count(v));
                if node_indices(c1).count(v) == 0 {
                    assert(seq_indices(n2.children@).count(v) > 0);
                    assert(node_indices(n0).count(v) > 0);
                }
            }
        }
        if well_formed(n0) && no_dot_segment(rest) {
            let rest2 = seg_views(segs@).skip(pos + 1);
            assert(rest2 =~= rest.drop_first());
            assert(rest[0] == segs@[pos as int]@);
            lemma_no_dot_tail(rest);
            assert(c0 == n2.children@[k as int]);
            if found is None {
                lemma_wf_leaf(c0);
            } else {
                lemma_find_label(n1.children@, rest[0]);
            }
            let fresh = found is None;
            assert(descend_setup(n1, n2, *node, k as int, c0, c1, rest, fresh, path_index));
            lemma_descend_n2(n1, n2, *node, k as int, c0, c1, rest, fresh, path_index);
            lemma_descend_indices(n1, n2, *node, k as int, c0, c1, rest, fresh, path_index);
            lemma_descend_lookups(n1, n2, *node, k as int, c0, c1, rest, fresh, path_index);
            lemma_descend_wf(n1, n2, *node, k as int, c0, c1, rest, fresh, path_index);
            if dots_beside(n0) {
                let s0 = n0.children@;
                let s2 = n2.children@;
                let ns = node.children@;
                assert(forall|j: int| 0 <= j < s0.len() ==> s2[j] == s0[j]);
                assert forall|j: int| 0 <= j < s2.len() implies dots_beside(#[trigger] s2[j]) by {
                    if j < s0.len() {
                        assert(s2[j] == s0[j]);
                    } else {
                        lemma_dots_leaf(s2[j]);
                    }
                }
                assert(dots_beside(c0));
                assert(well_formed(c0));
                assert(dots_beside(c1));
                assert forall|j: int| 0 <= j < ns.len() implies dots_beside(#[trigger] ns[j]) by {
                    if j != k {
                        assert(ns[j] == s2[j]);
                    }
                }
                if has_dot(ns) {
                    let jj = choose|j: int| 0 <= j < ns.len() && (#[trigger] ns[j]).label@ == dot();
                    assert(s2[jj].label@ == dot()) by {
                        if jj == k {
                            assert(c1.label == c0.label);
                        } else {
                            assert(ns[jj] == s2[jj]);
                        }
                    }
                    if jj < s0.len() {
                        assert(s0[jj].label@ == dot());
                        assert(has_dot(s0));
                    } else {
                        assert(rest[0] != dot());
                        if found is Some {
                            assert(n1.children@[k as int].label@ == rest[0]);
                        }
                        if n0.path_index is None {
                            assert(n1 == n0);
                            assert(jj == s2.len() - 1 && found is None);
                            assert(s2[jj].label@ == rest[0]);
                        } else {
                            assert(s0.len() == 0);
                            assert(n1.children@.len() == 1);
                            assert(found is None);
                        }
                    }
                }
                assert(dots_beside(*node));
            }
            assert(lookup(n1, rest) == lookup(n0, rest));
            assert forall|s2: Seq<Seq<char>>|
                #![trigger lookup(*node, s2)]
                no_dot_segment(s2) && s2 != rest && lookup(n0, s2) is Some implies lookup(*node, s2)
                == lookup(n0, s2) by {
                assert(lookup(n1, s2) == lookup(n0, s2));
            }
            assert forall|s2: Seq<Seq<char>>|
                #![trigger lookup(*node, s2)]
                no_dot_segment(s2) && lookup(*node, s2) is Some implies s2 == rest || lookup(
                n0,
                s2,
            ) is Some by {
                assert(lookup(n1, s2) == lookup(n0, s2));
            }
        }
    }
}

} // verus!

verus! {

// ─── Ordering ────────────────────────────────────────────────────────────────

/// Lexicographic order on character sequences (by code point), the order of
/// `String`'s `Ord`.
pub open spec fn lex_le(a: Seq<char>, b: Seq<char>) -> bool
    decreases a.len(),
{
    if a.len() == 0 {
        true
    } else if b.len() == 0 {
        false
    } else if a[0] != b[0] {
        (a[0] as int) < (b[0] as int)
    } else {
        lex_le(a.drop_first(), b.drop_first())
    }
}

/// Sibling order: the `"."` child first, then the others lexicographically.
pub open spec fn label_le(a: Seq<char>, b: Seq<char>) -> bool {
    a == dot() || (b != dot() && lex_le(a, b))
}

pub open spec fn children_sorted(s: Seq<PathNode>) -> bool {
    forall|i: int, j: int| 0 <= i < j < s.len() ==> label_le(s[i].label@, s[j].label@)
}

/// Every node's children are in sibling order.
pub open spec fn tree_sorted(n: PathNode) -> bool
    decreases n,
{
    &&& children_sorted(n.children@)
    &&& forall|i: int| 0 <= i < n.children.len() ==> tree_sorted(#[trigger] n.children@[i])
}

proof fn lemma_lex_total(a: Seq<char>, b: Seq<char>)
    ensures
        lex_le(a, b) || lex_le(b, a),
    decreases a.len(),
{
    if a.len() > 0 && b.len() > 0 && a[0] == b[0] {
        lemma_lex_total(a.drop_first(), b.drop_first());
    }
}

proof fn lemma_lex_antisym(a: Seq<char>, b: Seq<char>)
    requires
        lex_le(a, b),
        lex_le(b, a),
    ensures
        a == b,
    decreases a.len(),
{
    if a.len() > 0 && b.len() > 0 {
        lemma_lex_antisym(a.drop_first(), b.drop_first());
        assert(a =~= seq![a[0]] + a.drop_first());
        assert(b =~= seq![b[0]] + b.drop_first());
    } else {
        assert(a =~= b);
    }
}

proof fn lemma_lex_trans(a: Seq<char>, b: Seq<char>, c: Seq<char>)
    requires
        lex_le(a, b),
        lex_le(b, c),
    ensures
        lex_le(a, c),
    decreases a.len(),
{
    if a.len() > 0 && b.len() > 0 && c.len() > 0 && a[0] == b[0] && b[0] == c[0] {
        lemma_lex_trans(a.drop_first(), b.drop_first(), c.drop_first());
    }
}

proof fn lemma_label_total(a: Seq<char>, b: Seq<char>)
    ensures
        label_le(a, b) || label_le(b, a),
{
    lemma_lex_total(a, b);
}

proof fn lemma_label_trans(a: Seq<char>, b: Seq<char>, c: Seq<char>)
    requires
        label_le(a, b),
        label_le(b, c),
    ensures
        label_le(a, c),
{
    if a != dot() {
        lemma_lex_trans(a, b, c);
    }
}

/// Exec comparison: `true` exactly when `b` sorts strictly before `a`.
fn label_less(b: &String, a: &String) -> (r: bool)
    ensures
        r == !label_le(a@, b@),
{
    let av = crate::text::chars_of(a.as_str());
    let bv = crate::text::chars_of(b.as_str());
    let a_dot = av.len() == 1 && av[0] == '.';
    let b_dot = bv.len() == 1 && bv[0] == '.';
    proof {
        assert(a_dot == (a@ == dot())) by {
            if a@.len() == 1 && a@[0] == '.' {
                assert(a@ =~= dot());
            }
        }
        assert(b_dot == (b@ == dot())) by {
            if b@.len() == 1 && b@[0] == '.' {
                assert(b@ =~= dot());
            }
        }
    }
    if a_dot {
        return false;
    }
    if b_dot {
        return true;
    }
    // lexicographic comparison of a and b
    let n = if av.len() < bv.len() {
        av.len()
    } else {
        bv.len()
    };
    let mut i: usize = 0;
    assert(a@.skip(0) =~= a@);
    assert(b@.skip(0) =~= b@);
    while i < n
        invariant
            n <= av@.len(),
            n <= bv@.len(),
            n == av@.len() || n == bv@.len(),
            i <= n,
            av@ == a@,
            bv@ == b@,
            a@ != dot(),
            b@ != dot(),
            lex_le(a@, b@) == lex_le(a@.skip(i as int), b@.skip(i as int)),
        decreases n - i,
    {
        let ca = av[i];
        let cb = bv[i];
        assert(a@.skip(i as int)[0] == ca);
        assert(b@.skip(i as int)[0] == cb);
        if ca != cb {
            assert(lex_le(a@.skip(i as int), b@.skip(i as int)) == ((ca as int) < (cb as int)));
            let r = cb < ca;
            assert(r == ((cb as int) < (ca as int)));
            assert((ca as int) != (cb as int));
            assert(r == !lex_le(a@, b@));
            return r;
        }
        assert(a@.skip(i as int).drop_first() =~= a@.skip(i + 1));
        assert(b@.skip(i as int).drop_first() =~= b@.skip(i + 1));
        i += 1;
    }
    !(av.len() <= bv.len())
}

} // verus!

verus! {

/// The per-child part of `well_formed`.
pub open spec fn child_ok(c: PathNode) -> bool {
    &&& c.label@ == dot() ==> (c.path_index.is_some() && c.children.len() == 0)
    &&& node_indices(c).len() > 0
    &&& well_formed(c)
}

pub open spec fn all_ok(s: Seq<PathNode>) -> bool {
    forall|i: int| 0 <= i < s.len() ==> child_ok(#[trigger] s[i])
}

pub open spec fn all_sorted(s: Seq<PathNode>) -> bool {
    forall|i: int| 0 <= i < s.len() ==> tree_sorted(#[trigger] s[i])
}

pub open spec fn swap_adj(s: Seq<PathNode>, i: int) -> Seq<PathNode> {
    s.update(i, s[i + 1]).update(i + 1, s[i])
}

proof fn lemma_wf_from_parts(n: PathNode)
    requires
        n.path_index.is_some() ==> n.children.len() == 0,
        labels_unique(n.children@),
        all_ok(n.children@),
    ensures
        well_formed(n),
{
    assert forall|i: int| 0 <= i < n.children.len() implies {
        &&& (#[trigger] n.children@[i]).label@ == dot() ==> (n.children@[i].path_index.is_some()
            && n.children@[i].children.len() == 0)
        &&& node_indices(n.children@[i]).len() > 0
        &&& well_formed(n.children@[i])
    } by {
        assert(child_ok(n.children@[i]));
    }
}

proof fn lemma_wf_parts(n: PathNode)
    requires
        well_formed(n),
    ensures
        n.path_index.is_some() ==> n.children.len() == 0,
        labels_unique(n.children@),
        all_ok(n.children@),
{
    assert forall|i: int| 0 <= i < n.children.len() implies child_ok(#[trigger] n.children@[i]) by {
    }
}

/// Swapping two neighbouring children changes neither the stored indices
/// nor, with distinct labels, any lookup.
proof fn lemma_swap(n: PathNode, n2: PathNode, i: int)
    requires
        0 <= i,
        i + 1 < n.children@.len(),
        n2.children@ == swap_adj(n.children@, i),
        n2.path_index == n.path_index,
    ensures
        seq_indices(n2.children@) == seq_indices(n.children@),
        labels_unique(n.children@) ==> labels_unique(n2.children@),
        labels_unique(n.children@) ==> forall|segs: Seq<Seq<char>>|
            #![trigger lookup(n2, segs)]
            lookup(n2, segs) == lookup(n, segs),
        all_ok(n.children@) ==> all_ok(n2.children@),
        all_sorted(n.children@) ==> all_sorted(n2.children@),
{
    let s = n.children@;
    let t = s.update(i, s[i + 1]);
    let u = n2.children@;
    lemma_seq_indices_update(s, i, s[i + 1]);
    lemma_seq_indices_update(t, i + 1, s[i]);
    assert(t[i + 1] == s[i + 1]);
    assert(seq_indices(u) =~= seq_indices(s)) by {
        assert forall|v: usize| #[trigger] seq_indices(u).count(v) == seq_indices(s).count(v) by {
            assert(seq_indices(t).add(node_indices(s[i])).count(v) == seq_indices(s).add(
                node_indices(s[i + 1]),
            ).count(v));
            assert(seq_indices(u).add(node_indices(t[i + 1])).count(v) == seq_indices(t).add(
                node_indices(s[i]),
            ).count(v));
        }
    }
    assert(forall|j: int| 0 <= j < s.len() && j != i && j != i + 1 ==> u[j] == s[j]);
    assert(u[i] == s[i + 1] && u[i + 1] == s[i]);
    if labels_unique(s) {
        assert forall|a: int, b: int| 0 <= a < b < u.len() implies u[a].label@ != u[b].label@ by {
            let pa = if a == i {
                i + 1
            } else if a == i + 1 {
                i
            } else {
                a
            };
            let pb = if b == i {
                i + 1
            } else if b == i + 1 {
                i
            } else {
                b
            };
            assert(u[a] == s[pa]);
            assert(u[b] == s[pb]);
        }
        assert forall|segs: Seq<Seq<char>>| #![trigger lookup(n2, segs)] lookup(n2, segs) == lookup(n, segs) by {
            let l = if segs.len() == 0 {
                dot()
            } else {
                segs[0]
            };
            lemma_find_label(s, l);
            lemma_find_label(u, l);
            let k = find_label(s, l);
            if k >= 0 {
                let pk = if k == i {
                    i + 1
                } else if k == i + 1 {
                    i
                } else {
                    k
                };
                lemma_find_unique(u, l, pk);
            } else {
                let k2 = find_label(u, l);
                if k2 >= 0 {
                    let p2 = if k2 == i {
                        i + 1
                    } else if k2 == i + 1 {
                        i
                    } else {
                        k2
                    };
                    assert(u[k2] == s[p2]);
                }
            }
        }
    }
    if all_ok(s) {
        assert forall|j: int| 0 <= j < u.len() implies child_ok(#[trigger] u[j]) by {
            if j == i {
                assert(child_ok(s[i + 1]));
            } else if j == i + 1 {
                assert(child_ok(s[i]));
            } else {
                assert(child_ok(s[j]));
            }
        }
    }
    if all_sorted(s) {
        assert forall|j: int| 0 <= j < u.len() implies tree_sorted(#[trigger] u[j]) by {
            if j == i {
                assert(tree_sorted(s[i + 1]));
            } else if j == i + 1 {
                assert(tree_sorted(s[i]));
            } else {
                assert(tree_sorted(s[j]));
            }
        }
    }
}

/// Put the children of `node` in sibling order (insertion sort by
/// neighbour swaps).
fn sort_level(node: &mut PathNode)
    ensures
        final(node).label == old(node).label,
        final(node).path_index == old(node).path_index,
        final(node).children@.len() == old(node).children@.len(),
        children_sorted(final(node).children@),
        seq_indices(final(node).children@) == seq_indices(old(node).children@),
        labels_unique(old(node).children@) ==> labels_unique(final(node).children@),
        labels_unique(old(node).children@) ==> forall|segs: Seq<Seq<char>>|
            #![trigger lookup(*final(node), segs)]
            lookup(*final(node), segs) == lookup(*old(node), segs),
        all_ok(old(node).children@) ==> all_ok(final(node).children@),
        all_sorted(old(node).children@) ==> all_sorted(final(node).children@),
        all_dots_beside(old(node).children@) ==> all_dots_beside(final(node).children@),
        has_dot(final(node).children@) == has_dot(old(node).children@),
{
    let ghost n0 = *node;
    let n = node.children.len();
    let mut i: usize = 1;
    while i < n
        invariant
            n == node.children@.len(),
            1 <= i,
            node.label == n0.label,
            node.path_index == n0.path_index,
            n == n0.children@.len(),
            n > 0 ==> i <= n,
            forall|a: int, b: int|
                0 <= a < b < i && b < n ==> label_le(
                    node.children@[a].label@,
                    node.children@[b].label@,
                ),
            seq_indices(node.children@) == seq_indices(n0.children@),
            labels_unique(n0.children@) ==> labels_unique(node.children@),
            labels_unique(n0.children@) ==> forall|segs: Seq<Seq<char>>|
                #![trigger lookup(*node, segs)]
                lookup(*node, segs) == lookup(n0, segs),
            all_ok(n0.children@) ==> all_ok(node.children@),
            all_sorted(n0.children@) ==> all_sorted(node.children@),
            all_dots_beside(n0.children@) ==> all_dots_beside(node.children@),
            has_dot(node.children@) == has_dot(n0.children@),
        decreases n - i,
    {
        let mut j: usize = i;
        while j > 0 && label_less(&node.children[j].label, &node.children[j - 1].label)
            invariant
                n == node.children@.len(),
                1 <= i < n,
                j <= i,
                node.label == n0.label,
                node.path_index == n0.path_index,
                // prefix [0, j) sorted, suffix (j, i] sorted, prefix <= suffix,
                // element j <= suffix
                forall|a: int, b: int|
                    0 <= a < b < j ==> label_le(node.children@[a].label@, node.children@[b].label@),
                forall|a: int, b: int|
                    j < a < b <= i ==> label_le(node.children@[a].label@, node.children@[b].label@),
                forall|a: int, b: int|
                    0 <= a < j && j < b <= i ==> label_le(
                        node.children@[a].label@,
                        node.children@[b].label@,
                    ),
                forall|b: int|
                    j < b <= i ==> label_le(node.children@[j as int].label@, node.children@[b].label@),
                seq_indices(node.children@) == seq_indices(n0.children@),
                labels_unique(n0.children@) ==> labels_unique(node.children@),
                labels_unique(n0.children@) ==> forall|segs: Seq<Seq<char>>|
                    #![trigger lookup(*node, segs)]
                    lookup(*node, segs) == lookup(n0, segs),
                all_ok(n0.children@) ==> all_ok(node.children@),
                all_sorted(n0.children@) ==> all_sorted(node.children@),
                all_dots_beside(n0.children@) ==> all_dots_beside(node.children@),
                has_dot(node.children@) == has_dot(n0.children@),
            decreases j,
        {
            let ghost before = *node;
            let x = node.children.remove(j);
            node.children.insert(j - 1, x);
            proof {
                let s = before.children@;
                assert(node.children@ =~= swap_adj(s, j - 1));
                lemma_swap(before, *node, j - 1);
                lemma_swap_dots(s, j - 1);
                // the moved-up element y = s[j-1] is >= the prefix and <= the suffix
                let y = s[j - 1].label@;
                let xl = s[j as int].label@;
                lemma_label_total(xl, y);
                assert(label_le(xl, y));
                let u = node.children@;
                assert forall|b: int| j - 1 < b <= i implies label_le(u[j - 1].label@, #[trigger] u[b].label@) by {
                    if b > j {
                        assert(u[b] == s[b]);
                    }
                }
                assert forall|a: int, b: int| j - 1 < a < b <= i implies label_le(
                    u[a].label@,
                    u[b].label@,
                ) by {
                    if a == j {
                        assert(u[a] == s[j - 1]);
                        assert(u[b] == s[b]);
                    } else {
                        assert(u[a] == s[a]);
                        assert(u[b] == s[b]);
                    }
                }
                assert forall|a: int, b: int| 0 <= a < j - 1 && j - 1 < b <= i implies label_le(
                    u[a].label@,
                    u[b].label@,
                ) by {
                    assert(u[a] == s[a]);
                    if b == j {
                        assert(u[b] == s[j - 1]);
                    } else {
                        assert(u[b] == s[b]);
                    }
                }
                assert forall|a: int, b: int| 0 <= a < b < j - 1 implies label_le(
                    u[a].label@,
                    u[b].label@,
                ) by {
                    assert(u[a] == s[a]);
                    assert(u[b] == s[b]);
                }
            }
            j -= 1;
        }
        proof {
            let u = node.children@;
            if j > 0 {
                lemma_label_total(u[j as int].label@, u[j - 1].label@);
            }
            assert forall|a: int, b: int| 0 <= a < b < i + 1 && b < n implies label_le(
                u[a].label@,
                u[b].label@,
            ) by {
                if a < j && b > j {
                } else if a < j && b == j {
                    if a < j - 1 {
                        lemma_label_trans(u[a].label@, u[j - 1].label@, u[j as int].label@);
                    }
                } else if a == j {
                } else {
                }
            }
        }
        i += 1;
    }
}

} // verus!

verus! {

/// Sort every node's children into sibling order.
fn sort_children(node: &mut PathNode)
    ensures
        final(node).label == old(node).label,
        final(node).path_index == old(node).path_index,
        final(node).children@.len() == old(node).children@.len(),
        node_indices(*final(node)) == node_indices(*old(node)),
        tree_sorted(*final(node)),
        well_formed(*old(node)) ==> well_formed(*final(node)),
        well_formed(*old(node)) ==> forall|segs: Seq<Seq<char>>|
            #![trigger lookup(*final(node), segs)]
            lookup(*final(node), segs) == lookup(*old(node), segs),
        dots_beside(*old(node)) ==> dots_beside(*final(node)),
    decreases *old(node),
{
    let ghost n0 = *node;
    let n = node.children.len();
    proof {
        if well_formed(n0) {
            lemma_wf_parts(n0);
        }
    }
    for i in 0..n
        invariant
            n == node.children@.len(),
            n == n0.children@.len(),
            n0 == *old(node),
            node.label == n0.label,
            node.path_index == n0.path_index,
            forall|j: int| i <= j < n ==> node.children@[j] == n0.children@[j],
            forall|j: int| 0 <= j < i ==> {
                &&& (#[trigger] node.children@[j]).label == n0.children@[j].label
                &&& node.children@[j].path_index == n0.children@[j].path_index
                &&& node.children@[j].children@.len() == n0.children@[j].children@.len()
                &&& node_indices(node.children@[j]) == node_indices(n0.children@[j])
                &&& tree_sorted(node.children@[j])
            },
            seq_indices(node.children@) == seq_indices(n0.children@),
            dots_beside(n0) ==> all_dots_beside(node.children@),
            has_dot(node.children@) == has_dot(n0.children@),
            well_formed(n0) ==> {
                &&& labels_unique(node.children@)
                &&& all_ok(node.children@)
                &&& forall|segs: Seq<Seq<char>>|
                    #![trigger lookup(*node, segs)]
                    lookup(*node, segs) == lookup(n0, segs)
            },
    {
        let ghost before = *node;
        let mut c = node.children.remove(i);
        let ghost c0 = c;
        assert(c0 == n0.children@[i as int]);
        assert(decreases_to!(n0 => n0.children));
        assert(decreases_to!(n0.children => n0.children@));
        assert(decreases_to!(n0.children@ => n0.children@[i as int]));
        assert(decreases_to!(n0 => c0));
        sort_children(&mut c);
        let ghost c1 = c;
        node.children.insert(i, c);
        proof {
            assert(node.children@ =~= before.children@.update(i as int, c1));
            lemma_seq_indices_update(before.children@, i as int, c1);
            let bs = before.children@;
            let ns = node.children@;
            if dots_beside(n0) {
                assert(dots_beside(c0));
                assert forall|k: int| 0 <= k < ns.len() implies dots_beside(#[trigger] ns[k]) by {
                    if k != i {
                        assert(ns[k] == bs[k]);
                    }
                }
            }
            if has_dot(bs) {
                let k = choose|k: int| 0 <= k < bs.len() && (#[trigger] bs[k]).label@ == dot();
                if k != i {
                    assert(ns[k] == bs[k]);
                } else {
                    assert(ns[k].label == c1.label);
                }
            }
            if has_dot(ns) {
                let k = choose|k: int| 0 <= k < ns.len() && (#[trigger] ns[k]).label@ == dot();
                if k != i {
                    assert(ns[k] == bs[k]);
                } else {
                    assert(bs[k].label == c0.label);
                }
            }
            assert(seq_indices(node.children@) =~= seq_indices(before.children@)) by {
                assert forall|v: usize| #[trigger] seq_indices(node.children@).count(v)
                    == seq_indices(before.children@).count(v) by {
                    assert(seq_indices(node.children@).add(node_indices(c0)).count(v)
                        == seq_indices(before.children@).add(node_indices(c1)).count(v));
                }
            }
            if well_formed(n0) {
                assert(child_ok(c0));
                assert forall|segs: Seq<Seq<char>>| #![trigger lookup(*node, segs)] lookup(*node, segs)
                    == lookup(n0, segs) by {
                    lemma_lookup_replace(before, *node, i as int, c1, segs);
                    if segs.len() > 0 && segs[0] == c1.label@ {
                        assert(lookup(c1, segs.drop_first()) == lookup(c0, segs.drop_first()));
                    }
                    assert(lookup(before, segs) == lookup(n0, segs));
                }
                lemma_lookup_replace(before, *node, i as int, c1, seq![]);
                assert forall|j: int| 0 <= j < n implies child_ok(#[trigger] node.children@[j]) by {
                    if j != i {
                        assert(node.children@[j] == before.children@[j]);
                    }
                }
            }
        }
    }
    let ghost n1 = *node;
    proof {
        assert(all_sorted(n1.children@));
    }
    sort_level(node);
    proof {
        assert(node_indices(*node) =~= node_indices(n0));
        if dots_beside(n0) {
            assert(dots_beside(*node));
        }
        if well_formed(n0) {
            lemma_wf_from_parts(*node);
            assert forall|segs: Seq<Seq<char>>| #![trigger lookup(*node, segs)] lookup(*node, segs)
                == lookup(n0, segs) by {
                assert(lookup(*node, segs) == lookup(n1, segs));
            }
        }
        assert(all_sorted(node.children@));
    }
}

// ─── Path splitting ──────────────────────────────────────────────────────────

/// The non-empty `/`-separated segments of `s`, left to right.
pub open spec fn split_segments(s: Seq<char>) -> Seq<Seq<char>>
    decreases s.len(),
{
    if s.len() == 0 {
        seq![]
    } else {
        let prev = split_segments(s.drop_last());
        let c = s.last();
        if c == '/' {
            prev
        } else if s.len() >= 2 && s[s.len() - 2] != '/' {
            prev.drop_last().push(prev.last().push(c))
        } else {
            prev.push(seq![c])
        }
    }
}

/// Split `path` on `/`, dropping empty segments.
pub fn path_segments(path: &String) -> (out: Vec<String>)
    ensures
        seg_views(out@) == split_segments(path@),
{
    let chars = crate::text::chars_of(path.as_str());
    let n = chars.len();
    let mut out: Vec<String> = Vec::new();
    let mut cur = String::new();
    for i in 0..n
        invariant
            n == chars@.len(),
            chars@ == path@,
            seg_views(out@) + (if cur@.len() > 0 {
                seq![cur@]
            } else {
                seq![]
            }) == split_segments(chars@.take(i as int)),
            cur@.len() > 0 ==> i > 0 && chars@[i - 1] != '/',
            cur@.len() == 0 ==> (i == 0 || chars@[i - 1] == '/'),
    {
        let c = chars[i];
        let ghost pre = chars@.take(i as int);
        let ghost prev = split_segments(pre);
        assert(chars@.take(i + 1).drop_last() =~= pre);
        assert(chars@.take(i + 1).last() == c);
        assert(chars@.take(i + 1).len() == i + 1);
        assert(i >= 1 ==> chars@.take(i + 1)[i - 1] == chars@[i - 1]);
        if c == '/' {
            if cur.unicode_len() > 0 {
                let done = cur;
                out.push(done);
                cur = String::new();
                proof {
                    assert(seg_views(out@) =~= seg_views(out@.drop_last()).push(done@));
                }
            }
            proof {
                assert(seg_views(out@) + seq![] =~= seg_views(out@));
            }
        } else {
            let ghost old_cur = cur@;
            push_char(&mut cur, c);
            proof {
                if old_cur.len() > 0 {
                    assert(prev =~= seg_views(out@) + seq![old_cur]);
                    assert(prev.drop_last() =~= seg_views(out@));
                    assert(prev.last() == old_cur);
                    assert(seg_views(out@) + seq![cur@] =~= prev.drop_last().push(prev.last().push(c)));
                } else {
                    assert(prev =~= seg_views(out@) + seq![]);
                    assert(cur@ =~= seq![c]);
                    assert(seg_views(out@) + seq![cur@] =~= prev.push(seq![c]));
                }
            }
        }
    }
    assert(chars@.take(n as int) =~= chars@);
    if cur.unicode_len() > 0 {
        let ghost before = out@;
        out.push(cur);
        assert(seg_views(out@) =~= seg_views(before) + seq![out@.last()@]);
    } else {
        assert(seg_views(out@) + seq![] =~= seg_views(out@));
    }
    out
}

} // verus!

verus! {

/// `{0, 1, …, n-1}`.
pub open spec fn range_ms(n: nat) -> Multiset<usize>
    decreases n,
{
    if n == 0 {
        Multiset::empty()
    } else {
        range_ms((n - 1) as nat).insert((n - 1) as usize)
    }
}

/// No path has a `"."` segment.
pub open spec fn dot_free(paths: Seq<Seq<char>>) -> bool {
    forall|i: int| 0 <= i < paths.len() ==> no_dot_segment(split_segments(#[trigger] paths[i]))
}

/// The paths split into pairwise distinct segment lists, none of which
/// holds a `"."` segment.
pub open spec fn distinct_dot_free(paths: Seq<Seq<char>>) -> bool {
    &&& dot_free(paths)
    &&& forall|i: int, j: int|
        0 <= i < j < paths.len() ==> split_segments(#[trigger] paths[i]) != split_segments(
            #[trigger] paths[j],
        )
}

/// What `build_tree` builds from distinct, dot-free paths: a well-formed
/// trie holding each index once, where following the segments of path `i`
/// reaches index `i`, and nothing else is reachable.
pub open spec fn trie_of(root: PathNode, paths: Seq<Seq<char>>) -> bool {
    &&& well_formed(root)
    &&& node_indices(root) == range_ms(paths.len())
    &&& forall|i: int|
        0 <= i < paths.len() ==> lookup(root, split_segments(#[trigger] paths[i])) == Some(
            i as usize,
        )
    &&& forall|segs: Seq<Seq<char>>|
        #![trigger lookup(root, segs)]
        no_dot_segment(segs) && lookup(root, segs) is Some ==> exists|i: int|
            0 <= i < paths.len() && segs == split_segments(#[trigger] paths[i])
}

/// Following the segments of path `i` reaches the index of one of the
/// first `n` paths with the same segments.
pub open spec fn reaches_own(root: PathNode, paths: Seq<Seq<char>>, n: int, i: int) -> bool {
    match lookup(root, split_segments(paths[i])) {
        Some(j) => j < n && split_segments(paths[j as int]) == split_segments(paths[i]),
        None => false,
    }
}

/// Whatever index `segs` reaches is one of the first `n` paths, and that
/// path has the segments `segs`.
pub open spec fn reached_own(root: PathNode, paths: Seq<Seq<char>>, n: int, segs: Seq<Seq<char>>) -> bool {
    match lookup(root, segs) {
        Some(j) => j < n && split_segments(paths[j as int]) == segs,
        None => true,
    }
}

/// What `build_tree` builds from `paths`: an unlabelled root whose children
/// are sorted at every level (a `"."` child first), holding only indices of
/// `paths`, whatever the paths; for paths without `"."`
/// segments a well-formed trie where a `"."` child occurs only beside other
/// children (so a path that no longer path extends ends in a leaf carrying
/// its index); and for distinct such paths, the trie holding exactly their
/// indices, path `i` leading to index `i`.
pub open spec fn built_from(root: PathNode, paths: Seq<Seq<char>>) -> bool {
    &&& root.label@ == Seq::<char>::empty()
    &&& tree_sorted(root)
    &&& paths.len() == 0 ==> root.children@.len() == 0 && root.path_index is None
    &&& indices_below(root, paths.len() as int)
    &&& dot_free(paths) ==> well_formed(root) && dots_beside(root)
    &&& dot_free(paths) ==> forall|i: int|
        #![trigger paths[i]]
        0 <= i < paths.len() ==> reaches_own(root, paths, paths.len() as int, i)
    &&& dot_free(paths) ==> forall|segs: Seq<Seq<char>>|
        #![trigger lookup(root, segs)]
        no_dot_segment(segs) ==> reached_own(root, paths, paths.len() as int, segs)
    &&& distinct_dot_free(paths) ==> trie_of(root, paths)
}

/// Build a per-segment trie from a slice of path strings.
pub fn build_tree(paths: &[String]) -> (root: PathNode)
    ensures
        built_from(root, paths@.map_values(|p: String| p@)),
{
    let ghost pv = paths@.map_values(|p: String| p@);
    let mut root = PathNode::new_interior(String::new());
    let n = paths.len();
    proof {
        lemma_wf_leaf(root);
        assert(node_indices(root) =~= range_ms(0));
        assert forall|segs: Seq<Seq<char>>| lookup(root, segs) is None by {
            if segs.len() > 0 {
                lemma_find_label(root.children@, segs[0]);
            } else {
                lemma_find_label(root.children@, dot());
            }
        }
    }
    for idx in 0..n
        invariant
            n == paths@.len(),
            root.label@ == Seq::<char>::empty(),
            idx == 0 ==> root.children@.len() == 0 && root.path_index is None,
            pv == paths@.map_values(|p: String| p@),
            indices_below(root, idx as int),
            dot_free(pv) ==> well_formed(root) && dots_beside(root),
            dot_free(pv) ==> forall|i: int|
                #![trigger pv[i]]
                0 <= i < idx ==> reaches_own(root, pv, idx as int, i),
            dot_free(pv) ==> forall|segs: Seq<Seq<char>>|
                #![trigger lookup(root, segs)]
                no_dot_segment(segs) ==> reached_own(root, pv, idx as int, segs),
            distinct_dot_free(pv) ==> {
                &&& well_formed(root)
                &&& node_indices(root) == range_ms(idx as nat)
                &&& forall|i: int|
                    0 <= i < idx ==> lookup(root, split_segments(#[trigger] pv[i])) == Some(
                        i as usize,
                    )
                &&& forall|segs: Seq<Seq<char>>|
                    #![trigger lookup(root, segs)]
                    no_dot_segment(segs) && lookup(root, segs) is Some ==> exists|i: int|
                        0 <= i < idx && segs == split_segments(#[trigger] pv[i])
            },
    {
        let segs = path_segments(&paths[idx]);
        let ghost r0 = root;
        insert(&mut root, &segs, 0, idx);
        proof {
            assert(indices_below(r0, idx + 1));
            assert(indices_below(root, idx + 1));
            if dot_free(pv) {
                let sv = split_segments(pv[idx as int]);
                assert(seg_views(segs@).skip(0) =~= sv);
                assert(no_dot_segment(sv));
                assert(insert_post(r0, root, sv, idx));
                let m = idx + 1;
                assert forall|s2: Seq<Seq<char>>| #![trigger lookup(root, s2)] no_dot_segment(s2) implies reached_own(root, pv, m as int, s2) by {
                    assert(lookup(r0, s2) == lookup(r0, s2));
                    if lookup(root, s2) is Some {
                        assert(reached_own(r0, pv, idx as int, s2));
                        if s2 != sv {
                            assert(lookup(r0, s2) is Some);
                            assert(lookup(root, s2) == lookup(r0, s2));
                        }
                    }
                }
                assert forall|i: int| #![trigger pv[i]] 0 <= i < m implies reaches_own(root, pv, m as int, i) by {
                    let si = split_segments(pv[i]);
                    assert(lookup(root, si) == lookup(root, si));
                    assert(lookup(r0, si) == lookup(r0, si));
                    assert(no_dot_segment(si));
                    assert(reached_own(root, pv, m as int, si));
                    if i < idx {
                        assert(reaches_own(r0, pv, idx as int, i));
                        if si != sv {
                            assert(lookup(root, si) == lookup(r0, si));
                        }
                    }
                }
            }
            if distinct_dot_free(pv) {
                let sv = split_segments(pv[idx as int]);
                assert(seg_views(segs@).skip(0) =~= sv);
                assert(no_dot_segment(sv));
                assert(lookup(r0, sv) is None) by {
                    if lookup(r0, sv) is Some {
                        let i = choose|i: int|
                            0 <= i < idx && sv == split_segments(#[trigger] pv[i]);
                        assert(split_segments(pv[i]) != split_segments(pv[idx as int]));
                    }
                }
                assert(insert_post(r0, root, sv, idx));
                assert(node_indices(root) =~= range_ms((idx + 1) as nat));
                assert forall|i: int| 0 <= i < idx + 1 implies lookup(
                    root,
                    split_segments(#[trigger] pv[i]),
                ) == Some(i as usize) by {
                    if i < idx {
                        let si = split_segments(pv[i]);
                        assert(no_dot_segment(si));
                        assert(si != sv);
                        assert(lookup(r0, si) == Some(i as usize));
                    }
                }
                assert forall|s2: Seq<Seq<char>>|
                    #![trigger lookup(root, s2)]
                    no_dot_segment(s2) && lookup(root, s2) is Some implies exists|i: int|
                        0 <= i < idx + 1 && s2 == split_segments(#[trigger] pv[i]) by {
                    if s2 == sv {
                        assert(s2 == split_segments(pv[idx as int]));
                    } else {
                        assert(lookup(r0, s2) is Some);
                    }
                }
            }
        }
    }
    let ghost r1 = root;
    sort_children(&mut root);
    proof {
        assert(indices_below(root, n as int)) by {
            assert(node_indices(root) == node_indices(r1));
            assert(indices_below(r1, n as int));
        }
        if n == 0 {
            assert(r1.children@.len() == 0);
        }
        if distinct_dot_free(pv) {
            assert forall|i: int| 0 <= i < paths@.len() implies lookup(
                root,
                split_segments(#[trigger] pv[i]),
            ) == Some(i as usize) by {
                assert(lookup(r1, split_segments(pv[i])) == Some(i as usize));
            }
            assert forall|segs: Seq<Seq<char>>|
                #![trigger lookup(root, segs)]
                no_dot_segment(segs) && lookup(root, segs) is Some implies exists|i: int|
                    0 <= i < paths@.len() && segs == split_segments(#[trigger] pv[i]) by {
                assert(lookup(r1, segs) == lookup(root, segs));
            }
        }
    }
    root
}

/// `perm` lists each of `0..n` exactly once.
pub open spec fn is_permutation(perm: Seq<int>, n: int) -> bool {
    &&& perm.len() == n
    &&& forall|j: int| 0 <= j < n ==> 0 <= #[trigger] perm[j] < n
    &&& forall|i: int, j: int| 0 <= i < j < n ==> #[trigger] perm[i] != #[trigger] perm[j]
    &&& forall|i: int| 0 <= i < n ==> #[trigger] listed(perm, i)
}

/// `i` occurs in `perm`.
pub open spec fn listed(perm: Seq<int>, i: int) -> bool {
    exists|j: int| 0 <= j < perm.len() && #[trigger] perm[j] == i
}

/// The order of the paths does not change where their segments lead: for
/// distinct, `"."`-free paths and the same paths in another order (`q[j]`
/// is `paths[perm[j]]`), the two built tries reach, along any `"."`-free
/// segment list, either nothing in both or index `j` in the one from `q`
/// and index `perm[j]` in the one from `paths`.
pub proof fn lemma_permuted_paths_same_lookups(
    paths: Seq<Seq<char>>,
    q: Seq<Seq<char>>,
    perm: Seq<int>,
    a: PathNode,
    b: PathNode,
)
    requires
        distinct_dot_free(paths),
        is_permutation(perm, paths.len() as int),
        q.len() == paths.len(),
        forall|j: int| 0 <= j < q.len() ==> #[trigger] q[j] == paths[perm[j]],
        built_from(a, paths),
        built_from(b, q),
    ensures
        forall|segs: Seq<Seq<char>>|
            #![trigger lookup(b, segs)]
            #![trigger lookup(a, segs)]
            no_dot_segment(segs) ==> match lookup(b, segs) {
                Some(j) => 0 <= j < q.len() && lookup(a, segs) == Some(perm[j as int] as usize),
                None => lookup(a, segs) is None,
            },
{
    assert forall|j: int| 0 <= j < q.len() implies no_dot_segment(split_segments(#[trigger] q[j])) by {
        assert(q[j] == paths[perm[j]]);
    }
    assert forall|i: int, j: int| 0 <= i < j < q.len() implies split_segments(#[trigger] q[i])
        != split_segments(#[trigger] q[j]) by {
        assert(q[i] == paths[perm[i]]);
        assert(q[j] == paths[perm[j]]);
        assert(perm[i] != perm[j]);
        if perm[i] < perm[j] {
            assert(split_segments(paths[perm[i]]) != split_segments(paths[perm[j]]));
        } else {
            assert(split_segments(paths[perm[j]]) != split_segments(paths[perm[i]]));
        }
    }
    assert(distinct_dot_free(q));
    assert(trie_of(a, paths));
    assert(trie_of(b, q));
    assert forall|segs: Seq<Seq<char>>| no_dot_segment(segs) implies match lookup(b, segs) {
        Some(j) => 0 <= j < q.len() && lookup(a, segs) == Some(perm[j as int] as usize),
        None => lookup(a, segs) is None,
    } by {
        match lookup(b, segs) {
            Some(j) => {
                let i = choose|i: int| 0 <= i < q.len() && segs == split_segments(#[trigger] q[i]);
                assert(lookup(b, split_segments(q[i])) == Some(i as usize));
                assert(q[i] == paths[perm[i]]);
                let k = perm[i];
                assert(0 <= k < paths.len());
                assert(lookup(a, split_segments(paths[k])) == Some(k as usize));
            },
            None => {
                if lookup(a, segs) is Some {
                    let i = choose|i: int| 0 <= i < paths.len() && segs == split_segments(#[trigger] paths[i]);
                    assert(listed(perm, i));
                    let j = choose|j: int| 0 <= j < perm.len() && #[trigger] perm[j] == i;
                    assert(q[j] == paths[perm[j]]);
                    assert(lookup(b, split_segments(q[j])) == Some(j as usize));
                }
            },
        }
    }
}

} // verus!
