//! Selection state of the navigator: incremental search, the operations
//! list and the Miller-column cursor over the path tree.
use vstd::prelude::*;

use crate::path_tree::PathNode;
use crate::text::{chars_of, contains, contains_exec, lower, lower_chars, push_char};

verus! {

// ─── Search ──────────────────────────────────────────────────────────────────

/// Case-insensitive substring test: the empty query matches everything.
pub open spec fn query_matches(query: Seq<char>, label: Seq<char>) -> bool {
    query.len() == 0 || contains(lower(label), lower(query))
}

/// Incremental search state attached to a panel.
#[derive(Clone)]
pub struct Search {
    /// The query the user is typing.
    pub query: String,
    /// True while the `/` input box is open.
    pub active: bool,
}

impl Default for Search {
    fn default() -> (s: Self)
        ensures
            s.query@.len() == 0,
            !s.active,
    {
        Search { query: String::new(), active: false }
    }
}

/// Removes the last character of a string, if any.
/// Wraps `String::pop`: the view loses its last character; an empty string
/// stays empty.
#[verifier::external_body]
pub(crate) fn pop_char(s: &mut String) -> (r: Option<char>)
    ensures
        old(s)@.len() == 0 ==> final(s)@.len() == 0 && r is None,
        old(s)@.len() > 0 ==> final(s)@ == old(s)@.drop_last() && r == Some(old(s)@.last()),
{
    s.pop()
}

impl Search {
    pub fn is_empty(&self) -> (b: bool)
        ensures
            b == (self.query@.len() == 0),
    {
        self.query.as_str().is_empty()
    }

    /// Case-insensitive substring match.
    pub fn matches(&self, label: &str) -> (b: bool)
        ensures
            b == query_matches(self.query@, label@),
    {
        if self.query.as_str().is_empty() {
            return true;
        }
        let l = lower_chars(&chars_of(label));
        let q = lower_chars(&chars_of(self.query.as_str()));
        contains_exec(&l, &q)
    }

    /// Appends a character to the query.
    pub fn push(&mut self, ch: char)
        ensures
            final(self).query@ == old(self).query@.push(ch),
            final(self).active == old(self).active,
    {
        push_char(&mut self.query, ch);
    }

    /// Removes the last character of the query.
    pub fn pop(&mut self)
        ensures
            final(self).query@ == (if old(self).query@.len() == 0 {
                old(self).query@
            } else {
                old(self).query@.drop_last()
            }),
            final(self).active == old(self).active,
    {
        let _ = pop_char(&mut self.query);
    }

    /// Empties the query.
    pub fn clear(&mut self)
        ensures
            final(self).query@.len() == 0,
            final(self).active == old(self).active,
    {
        self.query = String::new();
    }
}


// ─── Path-tree cursor: model ─────────────────────────────────────────────────

/// Selection state of one column: an index into the unfiltered children.
#[derive(Clone, Copy, Debug)]
pub struct Level {
    pub selected: usize,
}

/// Miller-column cursor over a path tree.
pub struct TreeCursor {
    pub root: PathNode,
    /// Per-column selection, from the leftmost column.
    pub levels: Vec<Level>,
    /// The column that has keyboard focus.
    pub active_col: usize,
    /// Search state of the active column.
    pub search: Search,
}

pub open spec fn sels(l: Seq<Level>) -> Seq<usize> {
    l.map_values(|x: Level| x.selected)
}

/// The node reached from `n` by following the child indices `s`.
pub open spec fn walk(n: PathNode, s: Seq<usize>) -> Option<PathNode>
    decreases s.len(),
{
    if s.len() == 0 {
        Some(n)
    } else if s[0] < n.children@.len() {
        walk(n.children@[s[0] as int], s.drop_first())
    } else {
        None
    }
}

/// The node selected in column `depth`.
pub open spec fn node_at(root: PathNode, levels: Seq<Level>, depth: int) -> Option<PathNode> {
    if 0 <= depth < levels.len() {
        walk(root, sels(levels).take(depth + 1))
    } else {
        None
    }
}

/// The node exists and has children.
pub open spec fn opens(n: Option<PathNode>) -> bool {
    n is Some && n->0.children@.len() > 0
}

/// Well-formedness of a cursor: every selection lies inside its column, the
/// cursor has a column exactly when the tree is not empty, and the focused
/// column is one of them.
pub open spec fn cursor_wf(c: TreeCursor) -> bool {
    &&& walk(c.root, sels(c.levels@)) is Some
    &&& (c.levels@.len() > 0 <==> c.root.children@.len() > 0)
    &&& (c.levels@.len() == 0 ==> c.active_col == 0)
    &&& (c.levels@.len() > 0 ==> c.active_col < c.levels@.len())
}

/// The path index found by descending from `n` while there is exactly one
/// child.
pub open spec fn single(n: PathNode) -> Option<usize>
    decreases n,
{
    if n.children@.len() == 0 {
        n.path_index
    } else if n.children@.len() != 1 {
        None
    } else {
        single(n.children@[0])
    }
}

/// The path index below the selection in column `depth`.
pub open spec fn deepest(root: PathNode, levels: Seq<Level>, depth: int) -> Option<usize>
    decreases levels.len() - depth,
{
    match node_at(root, levels, depth) {
        None => None,
        Some(n) => if n.children@.len() == 0 {
            n.path_index
        } else if levels.len() > depth + 1 {
            deepest(root, levels, depth + 1)
        } else {
            single(n)
        },
    }
}

pub proof fn lemma_walk_snoc(n: PathNode, s: Seq<usize>, x: usize)
    ensures
        walk(n, s.push(x)) == (match walk(n, s) {
            Some(m) => if x < m.children@.len() {
                Some(m.children@[x as int])
            } else {
                None
            },
            None => None,
        }),
    decreases s.len(),
{
    if s.len() == 0 {
        assert(s.push(x).drop_first() =~= Seq::<usize>::empty());
        if x < n.children@.len() {
            assert(walk(n.children@[x as int], Seq::<usize>::empty()) == Some(n.children@[x as int]));
        }
    } else {
        assert(s.push(x).drop_first() =~= s.drop_first().push(x));
        if s[0] < n.children@.len() {
            lemma_walk_snoc(n.children@[s[0] as int], s.drop_first(), x);
        }
    }
}

pub proof fn lemma_walk_take_none(n: PathNode, s: Seq<usize>, i: int, j: int)
    requires
        0 <= i <= j <= s.len(),
        walk(n, s.take(i)) is None,
    ensures
        walk(n, s.take(j)) is None,
    decreases j - i,
{
    if j > i {
        lemma_walk_take_none(n, s, i, j - 1);
        assert(s.take(j) =~= s.take(j - 1).push(s[j - 1]));
        lemma_walk_snoc(n, s.take(j - 1), s[j - 1]);
    }
}

/// A walk along a prefix succeeds whenever the whole walk does.
pub proof fn lemma_walk_take_some(n: PathNode, s: Seq<usize>, i: int)
    requires
        0 <= i <= s.len(),
        walk(n, s) is Some,
    ensures
        walk(n, s.take(i)) is Some,
{
    if walk(n, s.take(i)) is None {
        lemma_walk_take_none(n, s, i, s.len() as int);
        assert(s.take(s.len() as int) =~= s);
    }
}

/// The children listed in column `col`: those of the node selected in the
/// column to its left, or the root's for the first column.
pub open spec fn col_children(root: PathNode, levels: Seq<Level>, col: int) -> Seq<PathNode> {
    if col == 0 {
        root.children@
    } else {
        match node_at(root, levels, col - 1) {
            Some(n) => n.children@,
            None => Seq::empty(),
        }
    }
}

/// Positions, in order, of the children whose label matches the query.
pub open spec fn filter_idx(ch: Seq<PathNode>, q: Seq<char>) -> Seq<int>
    decreases ch.len(),
{
    if ch.len() == 0 {
        Seq::empty()
    } else {
        let prev = filter_idx(ch.drop_last(), q);
        if query_matches(q, ch.last().label@) {
            prev.push(ch.len() - 1)
        } else {
            prev
        }
    }
}

/// The filtered positions of the focused column.
pub open spec fn col_filter(c: TreeCursor) -> Seq<int> {
    filter_idx(col_children(c.root, c.levels@, c.active_col as int), c.search.query@)
}

/// First position of `x` in `s`, or -1.
pub open spec fn first_pos(s: Seq<int>, x: int) -> int
    decreases s.len(),
{
    if s.len() == 0 {
        -1
    } else {
        let k = first_pos(s.drop_last(), x);
        if k >= 0 {
            k
        } else if s.last() == x {
            s.len() - 1
        } else {
            -1
        }
    }
}

/// The unfiltered selection of column `col` (0 when the column is closed).
pub open spec fn raw_sel(levels: Seq<Level>, col: int) -> int {
    if 0 <= col < levels.len() {
        levels[col].selected as int
    } else {
        0
    }
}

/// Where the selection stands in the filtered list (0 when it is filtered out).
pub open spec fn cursor_pos(f: Seq<int>, raw: int) -> int {
    if first_pos(f, raw) >= 0 {
        first_pos(f, raw)
    } else {
        0
    }
}

/// `x` clamped into `lo..=hi`.
pub open spec fn clamp(x: int, lo: int, hi: int) -> int {
    if x < lo {
        lo
    } else if x > hi {
        hi
    } else {
        x
    }
}

/// Opens the column right of `col` (selecting its first entry) when `col` is
/// the last open column and its selection has children.
pub open spec fn after_open(root: PathNode, levels: Seq<Level>, col: int) -> Seq<Level> {
    if levels.len() == col + 1 && opens(node_at(root, levels, col)) {
        levels.push(Level { selected: 0 })
    } else {
        levels
    }
}

/// Selects unfiltered entry `raw` in column `col`, closes the columns to its
/// right and opens the next one if the new selection has children.
pub open spec fn reselect(root: PathNode, levels: Seq<Level>, col: int, raw: int) -> Seq<Level> {
    after_open(root, levels.take(col).push(Level { selected: raw as usize }), col)
}

/// Reselecting entry `raw` in column `col` keeps the columns to its left,
/// selects `raw` there, and leaves exactly one more column open (at its
/// first entry) when the new selection has children, none otherwise.
pub proof fn lemma_reselect_levels(root: PathNode, levels: Seq<Level>, col: int, raw: int)
    requires
        0 <= col < levels.len(),
        0 <= raw <= usize::MAX,
    ensures
        ({
            let r = reselect(root, levels, col, raw);
            let picked = node_at(root, levels.take(col).push(Level { selected: raw as usize }), col);
            &&& r.take(col) == levels.take(col)
            &&& r[col].selected == raw
            &&& r.len() == col + 1 + (if opens(picked) { 1int } else { 0 })
            &&& r.len() == col + 2 ==> r[col + 1].selected == 0
        }),
{
    let l2 = levels.take(col).push(Level { selected: raw as usize });
    assert(l2.len() == col + 1);
    let r = reselect(root, levels, col, raw);
    assert(r.take(col) =~= levels.take(col));
}

/// The selection after the query changed: kept while it still matches,
/// otherwise moved to the first match; unchanged when nothing matches.
pub open spec fn clamped(root: PathNode, levels: Seq<Level>, col: int, q: Seq<char>) -> Seq<Level> {
    let f = filter_idx(col_children(root, levels, col), q);
    if f.len() == 0 || f.contains(raw_sel(levels, col)) || col >= levels.len() {
        levels
    } else {
        reselect(root, levels, col, f[0])
    }
}

pub proof fn lemma_filter_idx(ch: Seq<PathNode>, q: Seq<char>)
    ensures
        filter_idx(ch, q).len() <= ch.len(),
        forall|k: int|
            0 <= k < filter_idx(ch, q).len() ==> 0 <= #[trigger] filter_idx(ch, q)[k] < ch.len()
                && query_matches(q, ch[filter_idx(ch, q)[k]].label@),
        forall|j: int, k: int|
            0 <= j < k < filter_idx(ch, q).len() ==> filter_idx(ch, q)[j] < filter_idx(ch, q)[k],
        forall|i: int|
            0 <= i < ch.len() && query_matches(q, #[trigger] ch[i].label@) ==> filter_idx(
                ch,
                q,
            ).contains(i),
    decreases ch.len(),
{
    if ch.len() > 0 {
        lemma_filter_idx(ch.drop_last(), q);
        let prev = filter_idx(ch.drop_last(), q);
        assert forall|i: int|
            0 <= i < ch.len() && query_matches(q, #[trigger] ch[i].label@) implies filter_idx(
            ch,
            q,
        ).contains(i) by {
            if i < ch.len() - 1 {
                assert(ch.drop_last()[i] == ch[i]);
                let w = choose|w: int| 0 <= w < prev.len() && prev[w] == i;
                assert(filter_idx(ch, q)[w] == i);
            } else {
                assert(filter_idx(ch, q)[prev.len() as int] == i);
            }
        }
    }
}

pub proof fn lemma_first_pos(s: Seq<int>, x: int)
    ensures
        -1 <= first_pos(s, x) < s.len(),
        first_pos(s, x) >= 0 ==> s[first_pos(s, x)] == x,
        forall|j: int| 0 <= j < s.len() && (first_pos(s, x) < 0 || j < first_pos(s, x)) ==> s[j] != x,
        first_pos(s, x) < 0 <==> !s.contains(x),
    decreases s.len(),
{
    if s.len() > 0 {
        lemma_first_pos(s.drop_last(), x);
        assert forall|j: int| 0 <= j < s.len() - 1 implies s.drop_last()[j] == s[j] by {}
    }
}

pub proof fn lemma_sels_take_push(levels: Seq<Level>, col: int, raw: usize)
    requires
        0 <= col <= levels.len(),
    ensures
        sels(levels.take(col).push(Level { selected: raw })) == sels(levels).take(col).push(raw),
        sels(levels).take(col) == sels(levels.take(col)),
{
    assert(sels(levels.take(col).push(Level { selected: raw })) =~= sels(levels).take(col).push(raw));
    assert(sels(levels).take(col) =~= sels(levels.take(col)));
}

/// The children of column `col` are those of the node reached by the
/// selections left of it.
pub proof fn lemma_col_children(root: PathNode, levels: Seq<Level>, col: int)
    requires
        0 <= col <= levels.len(),
        walk(root, sels(levels).take(col)) is Some,
    ensures
        col_children(root, levels, col) == walk(root, sels(levels).take(col))->0.children@,
{
    if col == 0 {
        assert(sels(levels).take(0) =~= Seq::<usize>::empty());
    }
}

pub proof fn lemma_after_open(root: PathNode, levels: Seq<Level>, col: int)
    requires
        0 <= col < levels.len(),
        walk(root, sels(levels)) is Some,
    ensures
        walk(root, sels(after_open(root, levels, col))) is Some,
        after_open(root, levels, col).len() >= levels.len(),
        after_open(root, levels, col).take(levels.len() as int) == levels,
{
    let l2 = after_open(root, levels, col);
    if l2.len() > levels.len() {
        assert(sels(levels).take(col + 1) =~= sels(levels));
        assert(sels(l2) =~= sels(levels).push(0));
        lemma_walk_snoc(root, sels(levels), 0);
        assert(l2.take(levels.len() as int) =~= levels);
    } else {
        assert(l2.take(levels.len() as int) =~= levels);
    }
}

/// Reselecting inside a valid column keeps the cursor valid and leaves the
/// columns to the left untouched.
pub proof fn lemma_reselect(root: PathNode, levels: Seq<Level>, col: int, raw: int)
    requires
        0 <= col < levels.len(),
        walk(root, sels(levels)) is Some,
        0 <= raw < col_children(root, levels, col).len(),
    ensures
        walk(root, sels(reselect(root, levels, col, raw))) is Some,
        reselect(root, levels, col, raw).len() > col,
        reselect(root, levels, col, raw).take(col) == levels.take(col),
        reselect(root, levels, col, raw)[col] == (Level { selected: raw as usize }),
{
    let l1 = levels.take(col).push(Level { selected: raw as usize });
    lemma_walk_take_some(root, sels(levels), col);
    lemma_col_children(root, levels, col);
    lemma_sels_take_push(levels, col, raw as usize);
    lemma_walk_snoc(root, sels(levels).take(col), raw as usize);
    lemma_after_open(root, l1, col);
    let l2 = reselect(root, levels, col, raw);
    assert(l2.take(col) =~= l2.take(l1.len() as int).take(col));
    assert(l1.take(col) =~= levels.take(col));
    assert(l2[col] == l2.take(l1.len() as int)[col]);
}

// ─── Path-tree cursor: effects of the operations ─────────────────────────────

/// Only the selections changed.
pub open spec fn same_but_levels(a: TreeCursor, b: TreeCursor) -> bool {
    b.root == a.root && b.active_col == a.active_col && b.search == a.search
}

/// `b` is `a` with the selection moved by `delta` within the filtered list.
pub open spec fn moved_by(a: TreeCursor, b: TreeCursor, delta: int) -> bool {
    &&& same_but_levels(a, b)
    &&& ({
        let f = col_filter(a);
        let col = a.active_col as int;
        if f.len() == 0 || col >= a.levels@.len() {
            b.levels@ == a.levels@
        } else {
            b.levels@ == reselect(
                a.root,
                a.levels@,
                col,
                f[clamp(cursor_pos(f, raw_sel(a.levels@, col)) + delta, 0, f.len() - 1)],
            )
        }
    })
}

/// `b` is `a` with the first (or last) filtered entry selected.
pub open spec fn moved_to_end(a: TreeCursor, b: TreeCursor, last: bool) -> bool {
    &&& same_but_levels(a, b)
    &&& ({
        let f = col_filter(a);
        let col = a.active_col as int;
        if f.len() == 0 || col >= a.levels@.len() {
            b.levels@ == a.levels@
        } else {
            b.levels@ == reselect(a.root, a.levels@, col, if last { f.last() } else { f[0] })
        }
    })
}

/// `b` is `a` after drilling right (when `moved`).
pub open spec fn moved_right(a: TreeCursor, b: TreeCursor, moved: bool) -> bool {
    &&& moved == opens(node_at(a.root, a.levels@, a.active_col as int))
    &&& b.root == a.root
    &&& !moved ==> b.levels@ == a.levels@ && b.active_col == a.active_col && b.search == a.search
    &&& moved ==> {
        let next = a.active_col + 1;
        let grown = if a.levels@.len() <= next {
            a.levels@.push(Level { selected: 0 })
        } else {
            a.levels@
        };
        &&& b.active_col == next
        &&& b.levels@ == after_open(a.root, grown, next)
        &&& b.search.query@.len() == 0
        &&& !b.search.active
    }
}

/// `b` is `a` after moving the focus left (when `moved`).
pub open spec fn moved_left(a: TreeCursor, b: TreeCursor, moved: bool) -> bool {
    &&& moved == (a.active_col > 0)
    &&& b.root == a.root
    &&& b.levels@ == a.levels@
    &&& !moved ==> b.search == a.search && b.active_col == a.active_col
    &&& moved ==> b.active_col == a.active_col - 1 && b.search.query@.len() == 0 && !b.search.active
}

/// `b` is `a` with query `q`, search box `active`, and the selection kept
/// visible.
pub open spec fn searched(a: TreeCursor, b: TreeCursor, q: Seq<char>, active: bool) -> bool {
    &&& b.search.query@ == q
    &&& b.search.active == active
    &&& b.root == a.root
    &&& b.active_col == a.active_col
    &&& b.levels@ == clamped(a.root, a.levels@, a.active_col as int, q)
}

/// A query with its last character removed (unchanged when empty).
pub open spec fn popped(q: Seq<char>) -> Seq<char> {
    if q.len() == 0 {
        q
    } else {
        q.drop_last()
    }
}

// ─── Path-tree cursor: operations ────────────────────────────────────────────

/// The index of the single leaf below `node`, following only-children.
pub fn single_leaf(node: &PathNode) -> (r: Option<usize>)
    ensures
        r == single(*node),
    decreases node,
{
    if node.is_leaf() {
        return node.path_index;
    }
    if node.children.len() != 1 {
        return None;
    }
    single_leaf(&node.children[0])
}

impl TreeCursor {
    pub fn new(root: PathNode) -> (c: Self)
        ensures
            c.root == root,
            c.levels@ == (if root.children@.len() == 0 {
                Seq::<Level>::empty()
            } else {
                seq![Level { selected: 0 }]
            }),
            c.active_col == 0,
            c.search.query@.len() == 0,
            !c.search.active,
            cursor_wf(c),
    {
        let levels: Vec<Level> = if root.children.len() == 0 {
            Vec::new()
        } else {
            vec![Level { selected: 0 }]
        };
        let c = TreeCursor { root, levels, active_col: 0, search: Search::default() };
        proof {
            if c.levels@.len() > 0 {
                assert(sels(c.levels@).drop_first() =~= Seq::<usize>::empty());
                assert(walk(c.root.children@[0], Seq::<usize>::empty()) is Some);
            } else {
                assert(sels(c.levels@) =~= Seq::<usize>::empty());
            }
        }
        c
    }

    /// The node selected in column `depth`, walking from the root.
    pub fn node_at_depth(&self, depth: usize) -> (r: Option<&PathNode>)
        ensures
            match r {
                Some(n) => node_at(self.root, self.levels@, depth as int) == Some(*n),
                None => node_at(self.root, self.levels@, depth as int) is None,
            },
    {
        let n = self.levels.len();
        if depth >= n {
            return None;
        }
        let ghost s = sels(self.levels@);
        let mut node: &PathNode = &self.root;
        let mut d: usize = 0;
        assert(s.take(0) =~= Seq::<usize>::empty());
        while d <= depth
            invariant
                s == sels(self.levels@),
                n == self.levels@.len(),
                depth < n,
                d <= depth + 1,
                walk(self.root, s.take(d as int)) == Some(*node),
            decreases depth + 1 - d,
        {
            let sel = self.levels[d].selected;
            proof {
                assert(s.take(d + 1) =~= s.take(d as int).push(s[d as int]));
                lemma_walk_snoc(self.root, s.take(d as int), s[d as int]);
            }
            if sel >= node.children.len() {
                proof {
                    lemma_walk_take_none(self.root, s, d + 1, depth + 1);
                }
                return None;
            }
            node = &node.children[sel];
            d += 1;
        }
        Some(node)
    }

    pub fn focused_node(&self) -> (r: Option<&PathNode>)
        ensures
            match r {
                Some(n) => node_at(self.root, self.levels@, self.active_col as int) == Some(*n),
                None => node_at(self.root, self.levels@, self.active_col as int) is None,
            },
    {
        self.node_at_depth(self.active_col)
    }

    /// The path index below the selection in column `depth`: the index of
    /// the selected leaf, or of the only leaf below the last open column.
    pub fn deepest_leaf(&self, depth: usize) -> (r: Option<usize>)
        ensures
            r == deepest(self.root, self.levels@, depth as int),
        decreases self.levels@.len() - depth,
    {
        let node = match self.node_at_depth(depth) {
            Some(n) => n,
            None => return None,
        };
        assert(depth < self.levels@.len());
        if node.is_leaf() {
            return node.path_index;
        }
        if self.levels.len() > depth + 1 {
            return self.deepest_leaf(depth + 1);
        }
        single_leaf(node)
    }

    /// The path index of the current selection, if it designates one path.
    pub fn selected_path_index(&self) -> (r: Option<usize>)
        ensures
            r == deepest(
                self.root,
                self.levels@,
                if self.levels@.len() > 0 {
                    self.levels@.len() - 1
                } else {
                    0
                },
            ),
    {
        let depth = if self.levels.len() > 0 {
            self.levels.len() - 1
        } else {
            0
        };
        self.deepest_leaf(depth)
    }

    // ── Children helpers ─────────────────────────────────────────────────────

    /// Unfiltered children of column `col` (`None` when the column to its
    /// left has no selection).
    pub fn children_of_col(&self, col: usize) -> (r: Option<&Vec<PathNode>>)
        ensures
            match r {
                Some(v) => v@ == col_children(self.root, self.levels@, col as int),
                None => col_children(self.root, self.levels@, col as int).len() == 0,
            },
    {
        if col == 0 {
            Some(&self.root.children)
        } else {
            match self.node_at_depth(col - 1) {
                Some(n) => Some(&n.children),
                None => None,
            }
        }
    }

    /// The children of the active column that match the search, as
    /// `(unfiltered index, label, is_leaf)`.
    pub fn filtered_children(&self) -> (out: Vec<(usize, &str, bool)>)
        ensures
            out@.len() == col_filter(*self).len(),
            forall|k: int|
                0 <= k < out@.len() ==> {
                    let ch = col_children(self.root, self.levels@, self.active_col as int);
                    &&& (#[trigger] out@[k]).0 as int == col_filter(*self)[k]
                    &&& out@[k].1@ == ch[out@[k].0 as int].label@
                    &&& out@[k].2 == (ch[out@[k].0 as int].children@.len() == 0)
                },
    {
        let mut out: Vec<(usize, &str, bool)> = Vec::new();
        let ghost q = self.search.query@;
        match self.children_of_col(self.active_col) {
            None => {
                return out;
            },
            Some(ch) => {
                let n = ch.len();
                for i in 0..n
                    invariant
                        n == ch@.len(),
                        q == self.search.query@,
                        out@.len() == filter_idx(ch@.take(i as int), q).len(),
                        forall|k: int|
                            0 <= k < out@.len() ==> {
                                &&& (#[trigger] out@[k]).0 as int == filter_idx(ch@.take(i as int), q)[k]
                                &&& out@[k].1@ == ch@[out@[k].0 as int].label@
                                &&& out@[k].2 == (ch@[out@[k].0 as int].children@.len() == 0)
                            },
                {
                    let c = &ch[i];
                    proof {
                        assert(ch@.take(i + 1).drop_last() =~= ch@.take(i as int));
                        lemma_filter_idx(ch@.take(i as int), q);
                    }
                    if self.search.matches(c.label.as_str()) {
                        out.push((i, c.label.as_str(), c.is_leaf()));
                    }
                }
                assert(ch@.take(n as int) =~= ch@);
            },
        }
        out
    }

    /// Position of the current selection within the filtered list (0 when
    /// it is filtered out).
    pub fn filtered_cursor(&self) -> (r: usize)
        ensures
            r as int == cursor_pos(col_filter(*self), raw_sel(self.levels@, self.active_col as int)),
    {
        let raw = if self.active_col < self.levels.len() {
            self.levels[self.active_col].selected
        } else {
            0
        };
        let f = self.filtered_children();
        let ghost fs = col_filter(*self);
        proof {
            lemma_first_pos(fs, raw as int);
        }
        let mut k: usize = 0;
        while k < f.len()
            invariant
                fs == col_filter(*self),
                raw as int == raw_sel(self.levels@, self.active_col as int),
                f@.len() == fs.len(),
                forall|j: int| 0 <= j < f@.len() ==> (#[trigger] f@[j]).0 as int == fs[j],
                k <= f@.len(),
                forall|j: int| 0 <= j < k ==> fs[j] != raw as int,
            decreases f@.len() - k,
        {
            if f[k].0 == raw {
                proof {
                    assert(fs[k as int] == raw as int);
                    assert(fs.contains(raw as int));
                    lemma_first_pos(fs, raw as int);
                    let fp = first_pos(fs, raw as int);
                    assert(fp >= 0);
                    if fp < k {
                        assert(fs[fp] != raw as int);
                    }
                    if fp > k {
                        assert(fs[k as int] != raw as int);
                    }
                }
                return k;
            }
            k += 1;
        }
        0
    }

    // ── Navigation ───────────────────────────────────────────────────────────

    /// Opens the column right of the focused one when the focused column is
    /// the last open one and its selection has children.
    pub fn open_next_level(&mut self)
        ensures
            final(self).levels@ == after_open(old(self).root, old(self).levels@, old(self).active_col as int),
            final(self).root == old(self).root,
            final(self).active_col == old(self).active_col,
            final(self).search == old(self).search,
            cursor_wf(*old(self)) ==> cursor_wf(*final(self)),
    {
        let has_children = match self.focused_node() {
            Some(n) => n.children.len() > 0,
            None => false,
        };
        if has_children && self.levels.len() == self.active_col + 1 {
            self.levels.push(Level { selected: 0 });
        }
        proof {
            if cursor_wf(*old(self)) && old(self).levels@.len() > 0 {
                lemma_after_open(old(self).root, old(self).levels@, old(self).active_col as int);
            }
        }
    }

    /// Selects unfiltered entry `raw` in the focused column.
    fn select_raw(&mut self, raw: usize)
        requires
            old(self).active_col < old(self).levels@.len(),
        ensures
            final(self).levels@ == reselect(old(self).root, old(self).levels@, old(self).active_col as int, raw as int),
            final(self).root == old(self).root,
            final(self).active_col == old(self).active_col,
            final(self).search == old(self).search,
    {
        let col = self.active_col;
        let n = self.levels.len();
        self.levels.set(col, Level { selected: raw });
        self.levels.truncate(col + 1);
        proof {
            assert(self.levels@ =~= old(self).levels@.take(col as int).push(Level { selected: raw }));
        }
        self.open_next_level();
    }

    /// Moves the selection by `delta` entries within the filtered list,
    /// stopping at either end.
    pub fn apply_filtered_move(&mut self, delta: isize)
        ensures
            final(self).root == old(self).root,
            final(self).active_col == old(self).active_col,
            final(self).search == old(self).search,
            ({
                let f = col_filter(*old(self));
                let col = old(self).active_col as int;
                if f.len() == 0 || col >= old(self).levels@.len() {
                    final(self).levels@ == old(self).levels@
                } else {
                    let next = clamp(
                        cursor_pos(f, raw_sel(old(self).levels@, col)) + delta,
                        0,
                        f.len() - 1,
                    );
                    final(self).levels@ == reselect(old(self).root, old(self).levels@, col, f[next])
                }
            }),
            cursor_wf(*old(self)) ==> cursor_wf(*final(self)),
    {
        let filtered = self.filtered_children();
        if filtered.len() == 0 {
            return;
        }
        let cur = self.filtered_cursor();
        let last: i128 = filtered.len() as i128 - 1;
        let mut next: i128 = cur as i128 + delta as i128;
        if next < 0 {
            next = 0;
        }
        if next > last {
            next = last;
        }
        let raw_idx = filtered[next as usize].0;
        if self.active_col < self.levels.len() {
            proof {
                self.lemma_filter_in_range();
            }
            self.select_raw(raw_idx);
            proof {
                if cursor_wf(*old(self)) {
                    lemma_reselect(old(self).root, old(self).levels@, old(self).active_col as int, raw_idx as int);
                }
            }
        }
    }

    /// Every filtered position of the focused column is one of its children.
    proof fn lemma_filter_in_range(&self)
        ensures
            forall|k: int|
                0 <= k < col_filter(*self).len() ==> 0 <= #[trigger] col_filter(*self)[k] < col_children(
                    self.root,
                    self.levels@,
                    self.active_col as int,
                ).len(),
    {
        lemma_filter_idx(col_children(self.root, self.levels@, self.active_col as int), self.search.query@);
    }

    pub fn move_down(&mut self)
        ensures
            final(self).root == old(self).root,
            final(self).active_col == old(self).active_col,
            final(self).search == old(self).search,
            ({
                let f = col_filter(*old(self));
                let col = old(self).active_col as int;
                if f.len() == 0 || col >= old(self).levels@.len() {
                    final(self).levels@ == old(self).levels@
                } else {
                    let next = clamp(cursor_pos(f, raw_sel(old(self).levels@, col)) + 1, 0, f.len() - 1);
                    final(self).levels@ == reselect(old(self).root, old(self).levels@, col, f[next])
                }
            }),
            cursor_wf(*old(self)) ==> cursor_wf(*final(self)),
    {
        self.apply_filtered_move(1);
    }

    pub fn move_up(&mut self)
        ensures
            final(self).root == old(self).root,
            final(self).active_col == old(self).active_col,
            final(self).search == old(self).search,
            ({
                let f = col_filter(*old(self));
                let col = old(self).active_col as int;
                if f.len() == 0 || col >= old(self).levels@.len() {
                    final(self).levels@ == old(self).levels@
                } else {
                    let next = clamp(cursor_pos(f, raw_sel(old(self).levels@, col)) - 1, 0, f.len() - 1);
                    final(self).levels@ == reselect(old(self).root, old(self).levels@, col, f[next])
                }
            }),
            cursor_wf(*old(self)) ==> cursor_wf(*final(self)),
    {
        self.apply_filtered_move(-1);
    }

    /// Selects the first entry of the filtered list.
    pub fn move_top(&mut self)
        ensures
            final(self).root == old(self).root,
            final(self).active_col == old(self).active_col,
            final(self).search == old(self).search,
            ({
                let f = col_filter(*old(self));
                let col = old(self).active_col as int;
                if f.len() == 0 || col >= old(self).levels@.len() {
                    final(self).levels@ == old(self).levels@
                } else {
                    final(self).levels@ == reselect(old(self).root, old(self).levels@, col, f[0])
                }
            }),
            cursor_wf(*old(self)) ==> cursor_wf(*final(self)),
    {
        let filtered = self.filtered_children();
        if filtered.len() > 0 && self.active_col < self.levels.len() {
            let raw_idx = filtered[0].0;
            proof {
                self.lemma_filter_in_range();
            }
            self.select_raw(raw_idx);
            proof {
                if cursor_wf(*old(self)) {
                    lemma_reselect(old(self).root, old(self).levels@, old(self).active_col as int, raw_idx as int);
                }
            }
        }
    }

    /// Selects the last entry of the filtered list.
    pub fn move_bottom(&mut self)
        ensures
            final(self).root == old(self).root,
            final(self).active_col == old(self).active_col,
            final(self).search == old(self).search,
            ({
                let f = col_filter(*old(self));
                let col = old(self).active_col as int;
                if f.len() == 0 || col >= old(self).levels@.len() {
                    final(self).levels@ == old(self).levels@
                } else {
                    final(self).levels@ == reselect(old(self).root, old(self).levels@, col, f.last())
                }
            }),
            cursor_wf(*old(self)) ==> cursor_wf(*final(self)),
    {
        let filtered = self.filtered_children();
        if filtered.len() > 0 && self.active_col < self.levels.len() {
            let raw_idx = filtered[filtered.len() - 1].0;
            proof {
                self.lemma_filter_in_range();
            }
            self.select_raw(raw_idx);
            proof {
                if cursor_wf(*old(self)) {
                    lemma_reselect(old(self).root, old(self).levels@, old(self).active_col as int, raw_idx as int);
                }
            }
        }
    }

    /// Drills into the children of the focused selection.  Returns whether
    /// the focus moved.
    pub fn move_right(&mut self) -> (moved: bool)
        ensures
            moved == opens(node_at(old(self).root, old(self).levels@, old(self).active_col as int)),
            final(self).root == old(self).root,
            !moved ==> final(self).levels@ == old(self).levels@ && final(self).active_col
                == old(self).active_col && final(self).search == old(self).search,
            moved ==> {
                let next = old(self).active_col + 1;
                let grown = if old(self).levels@.len() <= next {
                    old(self).levels@.push(Level { selected: 0 })
                } else {
                    old(self).levels@
                };
                &&& final(self).active_col == next
                &&& final(self).levels@ == after_open(old(self).root, grown, next)
                &&& final(self).search.query@.len() == 0
                &&& !final(self).search.active
            },
            cursor_wf(*old(self)) ==> cursor_wf(*final(self)),
    {
        let has_children = match self.focused_node() {
            Some(n) => n.children.len() > 0,
            None => false,
        };
        if !has_children {
            return false;
        }
        let n = self.levels.len();
        assert(opens(node_at(self.root, self.levels@, self.active_col as int)));
        assert(self.active_col < n);
        let next_col = self.active_col + 1;
        if self.levels.len() <= next_col {
            self.levels.push(Level { selected: 0 });
        }
        proof {
            let ol = old(self).levels@;
            let col = old(self).active_col as int;
            if cursor_wf(*old(self)) && ol.len() <= next_col {
                assert(sels(ol).take(col + 1) =~= sels(ol));
                assert(sels(self.levels@) =~= sels(ol).push(0));
                lemma_walk_snoc(old(self).root, sels(ol), 0);
            }
        }
        self.active_col = next_col;
        self.search = Search::default();
        self.open_next_level();
        true
    }

    /// Moves the focus one column to the left.  Returns whether it moved.
    pub fn move_left(&mut self) -> (moved: bool)
        ensures
            moved == (old(self).active_col > 0),
            final(self).root == old(self).root,
            final(self).levels@ == old(self).levels@,
            !moved ==> final(self).search == old(self).search && final(self).active_col == old(self).active_col,
            moved ==> final(self).active_col == old(self).active_col - 1 && final(self).search.query@.len()
                == 0 && !final(self).search.active,
            cursor_wf(*old(self)) ==> cursor_wf(*final(self)),
    {
        if self.active_col == 0 {
            return false;
        }
        self.active_col = self.active_col - 1;
        self.search = Search::default();
        true
    }

    /// Number of open columns.
    pub fn col_count(&self) -> (n: usize)
        ensures
            n == self.levels@.len(),
    {
        self.levels.len()
    }

    // ── Search helpers ───────────────────────────────────────────────────────

    /// After the query changed: keeps the selection while it still matches,
    /// otherwise moves it to the first match.
    pub fn search_clamp_selection(&mut self)
        ensures
            final(self).levels@ == clamped(
                old(self).root,
                old(self).levels@,
                old(self).active_col as int,
                old(self).search.query@,
            ),
            final(self).root == old(self).root,
            final(self).active_col == old(self).active_col,
            final(self).search == old(self).search,
            cursor_wf(*old(self)) ==> cursor_wf(*final(self)),
            cursor_wf(*old(self)) && col_filter(*old(self)).len() > 0 ==> col_filter(
                *old(self),
            ).contains(final(self).levels@[final(self).active_col as int].selected as int),
    {
        let filtered = self.filtered_children();
        let ghost f = col_filter(*self);
        if filtered.len() == 0 {
            return;
        }
        let raw = if self.active_col < self.levels.len() {
            self.levels[self.active_col].selected
        } else {
            0
        };
        let mut k: usize = 0;
        while k < filtered.len()
            invariant
                f == col_filter(*self),
                *self == *old(self),
                raw as int == raw_sel(self.levels@, self.active_col as int),
                filtered@.len() == f.len(),
                forall|j: int| 0 <= j < filtered@.len() ==> (#[trigger] filtered@[j]).0 as int == f[j],
                k <= filtered@.len(),
                forall|j: int| 0 <= j < k ==> f[j] != raw as int,
            decreases filtered@.len() - k,
        {
            if filtered[k].0 == raw {
                proof {
                    assert(f[k as int] == raw as int);
                    assert(f.contains(raw as int));
                }
                return;
            }
            k += 1;
        }
        proof {
            assert(!f.contains(raw as int));
        }
        if self.active_col < self.levels.len() {
            let first = filtered[0].0;
            proof {
                self.lemma_filter_in_range();
            }
            self.select_raw(first);
            proof {
                if cursor_wf(*old(self)) {
                    lemma_reselect(old(self).root, old(self).levels@, old(self).active_col as int, first as int);
                    assert(f.contains(first as int));
                }
            }
        }
    }

    pub fn search_push(&mut self, ch: char)
        ensures
            final(self).search.query@ == old(self).search.query@.push(ch),
            final(self).search.active == old(self).search.active,
            final(self).levels@ == clamped(
                old(self).root,
                old(self).levels@,
                old(self).active_col as int,
                old(self).search.query@.push(ch),
            ),
            final(self).root == old(self).root,
            final(self).active_col == old(self).active_col,
            cursor_wf(*old(self)) ==> cursor_wf(*final(self)),
    {
        self.search.push(ch);
        self.search_clamp_selection();
    }

    pub fn search_pop(&mut self)
        ensures
            final(self).search.query@ == (if old(self).search.query@.len() == 0 {
                old(self).search.query@
            } else {
                old(self).search.query@.drop_last()
            }),
            final(self).search.active == old(self).search.active,
            final(self).levels@ == clamped(
                old(self).root,
                old(self).levels@,
                old(self).active_col as int,
                final(self).search.query@,
            ),
            final(self).root == old(self).root,
            final(self).active_col == old(self).active_col,
            cursor_wf(*old(self)) ==> cursor_wf(*final(self)),
    {
        self.search.pop();
        self.search_clamp_selection();
    }

    /// Closes the search box, keeping the query and the selection.
    pub fn search_commit(&mut self)
        ensures
            final(self).search.query@ == old(self).search.query@,
            !final(self).search.active,
            final(self).levels@ == old(self).levels@,
            final(self).root == old(self).root,
            final(self).active_col == old(self).active_col,
            cursor_wf(*old(self)) ==> cursor_wf(*final(self)),
    {
        self.search.active = false;
    }

    /// Closes the search box and clears the query.
    pub fn search_cancel(&mut self)
        ensures
            final(self).search.query@ == Seq::<char>::empty(),
            !final(self).search.active,
            final(self).levels@ == clamped(
                old(self).root,
                old(self).levels@,
                old(self).active_col as int,
                Seq::empty(),
            ),
            final(self).root == old(self).root,
            final(self).active_col == old(self).active_col,
            cursor_wf(*old(self)) ==> cursor_wf(*final(self)),
    {
        self.search.active = false;
        self.search.clear();
        proof {
            assert(self.search.query@ =~= Seq::<char>::empty());
        }
        self.search_clamp_selection();
    }

    /// The labels of the selections left of column `col`, joined with `/`.
    pub fn breadcrumb(&self, col: usize) -> (out: String)
        ensures
            out@ == join_slash(crumbs(self.root, self.levels@, col as int)),
    {
        let mut out = String::new();
        let mut first = true;
        for d in 0..col
            invariant
                out@ == join_slash(crumbs(self.root, self.levels@, d as int)),
                first == (crumbs(self.root, self.levels@, d as int).len() == 0),
        {
            match self.node_at_depth(d) {
                Some(n) => {
                    let ghost p = crumbs(self.root, self.levels@, d as int);
                    proof {
                        let q = crumbs(self.root, self.levels@, d + 1);
                        assert(q == p.push(n.label@));
                        assert(q.drop_last() =~= p);
                    }
                    if !first {
                        push_char(&mut out, '/');
                    }
                    out.append(n.label.as_str());
                    first = false;
                },
                None => {},
            }
        }
        out
    }
}

/// The labels of the selected nodes in the columns left of `col`.
pub open spec fn crumbs(root: PathNode, levels: Seq<Level>, col: int) -> Seq<Seq<char>>
    decreases col,
{
    if col <= 0 {
        Seq::empty()
    } else {
        let prev = crumbs(root, levels, col - 1);
        match node_at(root, levels, col - 1) {
            Some(n) => prev.push(n.label@),
            None => prev,
        }
    }
}

/// `parts` joined with `/`.
pub open spec fn join_slash(parts: Seq<Seq<char>>) -> Seq<char>
    decreases parts.len(),
{
    if parts.len() == 0 {
        Seq::empty()
    } else if parts.len() == 1 {
        parts[0]
    } else {
        join_slash(parts.drop_last()) + seq!['/'] + parts.last()
    }
}

// ─── Operations list ─────────────────────────────────────────────────────────

/// Selection and search state of the operations panel.
pub struct OpsState {
    /// Selected row of the (filtered) list.
    pub selected: Option<usize>,
    pub search: Search,
    /// The path this state belongs to; a different path resets it.
    pub path_index: Option<usize>,
}

impl Default for OpsState {
    fn default() -> (s: Self)
        ensures
            s.selected is None,
            s.search.query@.len() == 0,
            !s.search.active,
            s.path_index is None,
    {
        OpsState { selected: None, search: Search::default(), path_index: None }
    }
}

/// The row a list selection stands for (the first when none is selected).
pub open spec fn sel_or_zero(s: Option<usize>) -> int {
    match s {
        Some(i) => i as int,
        None => 0,
    }
}

/// The selection after the list shrank to `len` rows.
pub open spec fn clamp_sel(s: Option<usize>, len: int) -> Option<usize> {
    if len == 0 {
        None
    } else if sel_or_zero(s) >= len {
        Some((len - 1) as usize)
    } else {
        s
    }
}

/// `b` is `a` after syncing with path `p` holding `n` operations.
pub open spec fn synced(a: OpsState, b: OpsState, p: Option<usize>, n: int) -> bool {
    &&& a.path_index == p ==> b == a
    &&& a.path_index != p ==> {
        &&& b.path_index == p
        &&& b.search.query@.len() == 0
        &&& !b.search.active
        &&& b.selected == (if n > 0 {
            Some(0usize)
        } else {
            None
        })
    }
}

impl OpsState {
    /// Resets the state when the selected path changed.
    pub fn sync(&mut self, current_path_index: Option<usize>, op_count: usize)
        ensures
            synced(*old(self), *final(self), current_path_index, op_count as int),
            old(self).path_index == current_path_index ==> final(self).selected == old(self).selected
                && final(self).search == old(self).search && final(self).path_index
                == old(self).path_index,
            old(self).path_index != current_path_index ==> {
                &&& final(self).path_index == current_path_index
                &&& final(self).search.query@.len() == 0
                &&& !final(self).search.active
                &&& final(self).selected == (if op_count > 0 {
                    Some(0usize)
                } else {
                    None
                })
            },
    {
        if self.path_index != current_path_index {
            self.path_index = current_path_index;
            self.search = Search::default();
            self.selected = if op_count > 0 {
                Some(0)
            } else {
                None
            };
        }
    }

    pub fn selected(&self) -> (i: usize)
        ensures
            i == sel_or_zero(self.selected),
    {
        match self.selected {
            Some(i) => i,
            None => 0,
        }
    }

    pub fn move_down(&mut self, filtered_len: usize)
        ensures
            final(self).search == old(self).search,
            final(self).path_index == old(self).path_index,
            final(self).selected == (if filtered_len == 0 {
                old(self).selected
            } else if sel_or_zero(old(self).selected) + 1 < filtered_len {
                Some((sel_or_zero(old(self).selected) + 1) as usize)
            } else {
                Some((filtered_len - 1) as usize)
            }),
    {
        if filtered_len == 0 {
            return;
        }
        let cur = self.selected();
        let next = if cur < filtered_len - 1 {
            cur + 1
        } else {
            filtered_len - 1
        };
        self.selected = Some(next);
    }

    pub fn move_up(&mut self)
        ensures
            final(self).search == old(self).search,
            final(self).path_index == old(self).path_index,
            final(self).selected == Some(
                (if sel_or_zero(old(self).selected) > 0 {
                    sel_or_zero(old(self).selected) - 1
                } else {
                    0
                }) as usize,
            ),
    {
        let cur = self.selected();
        let next = if cur > 0 {
            cur - 1
        } else {
            0
        };
        self.selected = Some(next);
    }

    pub fn move_top(&mut self)
        ensures
            final(self).search == old(self).search,
            final(self).path_index == old(self).path_index,
            final(self).selected == Some(0usize),
    {
        self.selected = Some(0);
    }

    pub fn move_bottom(&mut self, filtered_len: usize)
        ensures
            final(self).search == old(self).search,
            final(self).path_index == old(self).path_index,
            final(self).selected == (if filtered_len == 0 {
                old(self).selected
            } else {
                Some((filtered_len - 1) as usize)
            }),
    {
        if filtered_len == 0 {
            return;
        }
        self.selected = Some(filtered_len - 1);
    }

    /// Keeps the selection inside a list of `filtered_len` rows.
    pub fn clamp(&mut self, filtered_len: usize)
        ensures
            final(self).search == old(self).search,
            final(self).path_index == old(self).path_index,
            final(self).selected == clamp_sel(old(self).selected, filtered_len as int),
    {
        let sel = self.selected();
        if filtered_len == 0 {
            self.selected = None;
        } else if sel >= filtered_len {
            self.selected = Some(filtered_len - 1);
        }
    }

    pub fn search_push(&mut self, ch: char)
        ensures
            final(self).search.query@ == old(self).search.query@.push(ch),
            final(self).search.active == old(self).search.active,
            final(self).path_index == old(self).path_index,
            final(self).selected is None,
    {
        self.search.push(ch);
        self.clamp(0);
    }

    pub fn search_pop(&mut self)
        ensures
            final(self).search.query@ == (if old(self).search.query@.len() == 0 {
                old(self).search.query@
            } else {
                old(self).search.query@.drop_last()
            }),
            final(self).search.active == old(self).search.active,
            final(self).path_index == old(self).path_index,
            final(self).selected is None,
    {
        self.search.pop();
        self.clamp(0);
    }

    pub fn search_commit(&mut self)
        ensures
            final(self).search.query@ == old(self).search.query@,
            !final(self).search.active,
            final(self).path_index == old(self).path_index,
            final(self).selected == old(self).selected,
    {
        self.search.active = false;
    }

    pub fn search_cancel(&mut self)
        ensures
            final(self).search.query@.len() == 0,
            !final(self).search.active,
            final(self).path_index == old(self).path_index,
            final(self).selected is None,
    {
        self.search.active = false;
        self.search.clear();
        self.clamp(0);
    }
}

} // verus!
