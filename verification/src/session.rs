//! The navigator's state: the loaded specs, which panel has focus, and the
//! selection in each panel, with every action the key bindings trigger.
use vstd::prelude::*;

use crate::detail::{offset_of, opened_of, selected_of, DetailView, OpKey};
use crate::model::{Operation, PathEntry, Spec};
use crate::nav::{
    clamp_sel, cursor_wf, moved_by, moved_left, moved_right, moved_to_end, popped, query_matches,
    searched, sel_or_zero, synced, OpsState, Search, TreeCursor,
};
use crate::path_tree::{build_tree, built_from, PathNode};

verus! {

/// The panel that has keyboard focus.
#[derive(Debug, Clone, Copy, PartialEq, Eq, Structural)]
pub enum Focus {
    /// The list of loaded specs (shown with more than one spec).
    Specs,
    /// The path-tree columns.
    Tree,
    /// The operations of the selected path.
    Ops,
    /// The full-screen detail of the selected operation.
    Detail,
}

/// All state of the navigator.
pub struct ApinApp {
    pub specs: Vec<Spec>,
    pub focus: Focus,
    /// Selected row of the spec list.
    pub specs_selected: Option<usize>,
    /// One path-tree cursor per spec.
    pub trees: Vec<TreeCursor>,
    pub ops: OpsState,
    pub detail: DetailView,
    /// Set once every input has been loaded.
    pub specs_done: bool,
    /// Frame of the loading spinner.
    pub spinner: usize,
}

/// Every tree cursor is well formed and there is one per spec.
pub open spec fn app_wf(a: ApinApp) -> bool {
    &&& a.trees@.len() == a.specs@.len()
    &&& forall|i: int| 0 <= i < a.trees@.len() ==> cursor_wf(#[trigger] a.trees@[i])
}

/// Index of the selected spec (the first when none is selected).
pub open spec fn spec_index(a: ApinApp) -> int {
    match a.specs_selected {
        Some(i) => i as int,
        None => 0,
    }
}

/// The label an operation is searched by: its summary, else its id, else
/// its method.
pub open spec fn op_search_label(o: Operation) -> Seq<char> {
    match o.summary {
        Some(s) => s@,
        None => match o.operation_id {
            Some(i) => i@,
            None => o.method@,
        },
    }
}

/// The label an operation is listed with: its summary, else its id.
pub open spec fn op_list_label(o: Operation) -> Seq<char> {
    match o.summary {
        Some(s) => s@,
        None => match o.operation_id {
            Some(i) => i@,
            None => Seq::empty(),
        },
    }
}

/// Whether an operation passes the operations search.
pub open spec fn op_matches(q: Seq<char>, o: Operation) -> bool {
    query_matches(q, o.method@) || query_matches(q, op_search_label(o))
}

/// Positions of the operations that pass the search.
pub open spec fn op_filter(ops: Seq<Operation>, q: Seq<char>) -> Seq<int>
    decreases ops.len(),
{
    if ops.len() == 0 {
        Seq::empty()
    } else if op_matches(q, ops.last()) {
        op_filter(ops.drop_last(), q).push(ops.len() - 1)
    } else {
        op_filter(ops.drop_last(), q)
    }
}

/// The positions the filter keeps are positions of the list.
pub proof fn lemma_op_filter_bounds(ops: Seq<Operation>, q: Seq<char>)
    ensures
        op_filter(ops, q).len() <= ops.len(),
        forall|j: int| 0 <= j < op_filter(ops, q).len() ==> 0 <= #[trigger] op_filter(ops, q)[j] < ops.len(),
    decreases ops.len(),
{
    if ops.len() > 0 {
        lemma_op_filter_bounds(ops.drop_last(), q);
    }
}

/// The path index selected in the tree of the selected spec.
pub open spec fn selected_path(a: ApinApp) -> Option<usize> {
    let i = spec_index(a);
    if 0 <= i < a.trees@.len() {
        crate::nav::deepest(
            a.trees@[i].root,
            a.trees@[i].levels@,
            if a.trees@[i].levels@.len() > 0 {
                a.trees@[i].levels@.len() - 1
            } else {
                0
            },
        )
    } else {
        None
    }
}

/// The operations of the selected path.
pub open spec fn selected_ops(a: ApinApp) -> Seq<Operation> {
    let i = spec_index(a);
    match selected_path(a) {
        Some(p) => if 0 <= i < a.specs@.len() && p < a.specs@[i].paths@.len() {
            a.specs@[i].paths@[p as int].operations@
        } else {
            Seq::empty()
        },
        None => Seq::empty(),
    }
}

/// A detail view with nothing shown yet: top of the page, no tree focus,
/// no search, no response trees, a closed request-body tree.
pub open spec fn fresh_detail(d: DetailView) -> bool {
    &&& d.scroll == 0
    &&& !d.in_tree
    &&& d.tree_start == 0
    &&& d.tree_len == 0
    &&& d.schema_tree_op_key is None
    &&& d.view_height == 0
    &&& d.search.query@.len() == 0
    &&& !d.search.active
    &&& d.search_matches@.len() == 0
    &&& d.search_cursor == 0
    &&& d.resp_tree_states@.len() == 0
    &&& d.resp_tree_starts@.len() == 0
    &&& d.resp_tree_lens@.len() == 0
    &&& d.focused_resp_tree is None
    &&& opened_of(d.schema_tree_state) == Set::<Seq<usize>>::empty()
    &&& selected_of(d.schema_tree_state) == Seq::<usize>::empty()
    &&& offset_of(d.schema_tree_state) == 0
}

/// The filtered operations list of the ops panel.
pub open spec fn ops_list(a: ApinApp) -> Seq<int> {
    op_filter(selected_ops(a), a.ops.search.query@)
}

impl ApinApp {
    pub fn new() -> (a: Self)
        ensures
            a.specs@.len() == 0,
            a.trees@.len() == 0,
            a.focus == Focus::Specs,
            a.specs_selected is None,
            !a.specs_done,
            app_wf(a),
            a.spinner == 0,
            a.ops.selected is None,
            a.ops.path_index is None,
            a.ops.search.query@.len() == 0,
            !a.ops.search.active,
            fresh_detail(a.detail),
    {
        ApinApp {
            specs: Vec::new(),
            focus: Focus::Specs,
            specs_selected: None,
            trees: Vec::new(),
            ops: OpsState::default(),
            detail: DetailView::default(),
            specs_done: false,
            spinner: 0,
        }
    }

    pub fn selected_spec_index(&self) -> (i: usize)
        ensures
            i == spec_index(*self),
    {
        match self.specs_selected {
            Some(i) => i,
            None => 0,
        }
    }

    pub fn selected_spec(&self) -> (r: Option<&Spec>)
        ensures
            match r {
                Some(s) => 0 <= spec_index(*self) < self.specs@.len() && *s == self.specs@[spec_index(*self)],
                None => !(0 <= spec_index(*self) < self.specs@.len()),
            },
    {
        let i = self.selected_spec_index();
        if i < self.specs.len() {
            Some(&self.specs[i])
        } else {
            None
        }
    }

    pub fn tree(&self) -> (r: Option<&TreeCursor>)
        ensures
            match r {
                Some(t) => 0 <= spec_index(*self) < self.trees@.len() && *t == self.trees@[spec_index(*self)],
                None => !(0 <= spec_index(*self) < self.trees@.len()),
            },
    {
        let i = self.selected_spec_index();
        if i < self.trees.len() {
            Some(&self.trees[i])
        } else {
            None
        }
    }

    /// Whether the focused panel's search box is open.
    pub fn is_searching(&self) -> (b: bool)
        ensures
            b == match self.focus {
                Focus::Tree => 0 <= spec_index(*self) < self.trees@.len() && self.trees@[spec_index(
                    *self,
                )].search.active,
                Focus::Ops => self.ops.search.active,
                Focus::Detail => self.detail.search.active,
                Focus::Specs => false,
            },
    {
        match self.focus {
            Focus::Tree => match self.tree() {
                Some(t) => t.search.active,
                None => false,
            },
            Focus::Ops => self.ops.search.active,
            Focus::Detail => self.detail.search.active,
            Focus::Specs => false,
        }
    }

    /// Whether the loading screen is shown: nothing loaded yet and inputs
    /// still pending.
    pub fn is_loading(&self) -> (b: bool)
        ensures
            b == (self.specs@.len() == 0 && !self.specs_done),
    {
        self.specs.len() == 0 && !self.specs_done
    }

    /// Advances the loading spinner.
    pub fn spinner_tick(&mut self)
        ensures
            final(self).spinner == (if old(self).spinner == usize::MAX {
                0
            } else {
                old(self).spinner + 1
            }),
            final(self).specs@ == old(self).specs@,
            final(self).trees@ == old(self).trees@,
            final(self).focus == old(self).focus,
    {
        self.spinner = if self.spinner == usize::MAX {
            0
        } else {
            self.spinner + 1
        };
    }

    /// Records that every input has been loaded.
    pub fn finish_loading(&mut self)
        ensures
            final(self).specs_done,
            final(self).specs@ == old(self).specs@,
            final(self).trees@ == old(self).trees@,
            final(self).focus == old(self).focus,
    {
        self.specs_done = true;
    }

    /// Adds a loaded spec and builds its path tree; the first spec becomes
    /// selected, later ones leave the selection alone.
    pub fn push_spec(&mut self, spec: Spec)
        requires
            app_wf(*old(self)),
        ensures
            app_wf(*final(self)),
            final(self).specs@ == old(self).specs@.push(spec),
            final(self).trees@.len() == old(self).trees@.len() + 1,
            forall|i: int| 0 <= i < old(self).trees@.len() ==> final(self).trees@[i] == old(self).trees@[i],
            final(self).specs_selected == (if old(self).specs@.len() == 0 {
                Some(0usize)
            } else {
                old(self).specs_selected
            }),
            final(self).focus == old(self).focus,
            built_from(
                final(self).trees@[old(self).trees@.len() as int].root,
                spec.paths@.map_values(|e: PathEntry| e.path@),
            ),
    {
        let mut path_strings: Vec<String> = Vec::new();
        let n = spec.paths.len();
        for i in 0..n
            invariant
                n == spec.paths@.len(),
                path_strings@.len() == i,
                forall|k: int| 0 <= k < i ==> (#[trigger] path_strings@[k])@ == spec.paths@[k].path@,
        {
            path_strings.push(spec.paths[i].path.clone());
        }
        let root = build_tree(path_strings.as_slice());
        proof {
            assert(path_strings@.map_values(|p: String| p@) =~= spec.paths@.map_values(|e: PathEntry| e.path@));
        }
        let mut cursor = TreeCursor::new(root);
        cursor.open_next_level();
        self.trees.push(cursor);
        self.specs.push(spec);
        if self.specs.len() == 1 {
            self.specs_selected = Some(0);
        }
        proof {
            assert forall|i: int| 0 <= i < self.trees@.len() implies cursor_wf(#[trigger] self.trees@[i]) by {
                if i < old(self).trees@.len() {
                    assert(self.trees@[i] == old(self).trees@[i]);
                }
            }
        }
    }

    /// The operations of the selected path that pass the operations search,
    /// as `(index, method, label)`.
    pub fn filtered_ops(&self) -> (out: Vec<(usize, &str, &str)>)
        ensures
            out@.len() == ops_list(*self).len(),
            forall|k: int|
                0 <= k < out@.len() ==> {
                    let o = selected_ops(*self)[(#[trigger] out@[k]).0 as int];
                    &&& out@[k].0 as int == ops_list(*self)[k]
                    &&& out@[k].1@ == o.method@
                    &&& out@[k].2@ == op_list_label(o)
                },
    {
        let mut out: Vec<(usize, &str, &str)> = Vec::new();
        let spec = match self.selected_spec() {
            Some(s) => s,
            None => {
                return out;
            },
        };
        let tree = match self.tree() {
            Some(t) => t,
            None => {
                return out;
            },
        };
        let idx = match tree.selected_path_index() {
            Some(i) => i,
            None => {
                return out;
            },
        };
        if idx >= spec.paths.len() {
            return out;
        }
        let ops = &spec.paths[idx].operations;
        assert(selected_path(*self) == Some(idx));
        assert(ops@ == selected_ops(*self));
        let ghost q = self.ops.search.query@;
        let n = ops.len();
        for i in 0..n
            invariant
                n == ops@.len(),
                ops@ == selected_ops(*self),
                q == self.ops.search.query@,
                out@.len() == op_filter(ops@.take(i as int), q).len(),
                forall|k: int|
                    0 <= k < out@.len() ==> {
                        let o = ops@[(#[trigger] out@[k]).0 as int];
                        &&& out@[k].0 as int == op_filter(ops@.take(i as int), q)[k]
                        &&& out@[k].0 < i
                        &&& out@[k].1@ == o.method@
                        &&& out@[k].2@ == op_list_label(o)
                    },
        {
            let o = &ops[i];
            let label: &str = match &o.summary {
                Some(s) => s.as_str(),
                None => match &o.operation_id {
                    Some(id) => id.as_str(),
                    None => o.method.as_str(),
                },
            };
            proof {
                assert(ops@.take(i + 1).drop_last() =~= ops@.take(i as int));
                assert(ops@.take(i + 1).last() == ops@[i as int]);
                assert(label@ == op_search_label(*o));
            }
            let ghost before = out@;
            if self.ops.search.matches(o.method.as_str()) || self.ops.search.matches(label) {
                let shown: &str = match &o.summary {
                    Some(s) => s.as_str(),
                    None => match &o.operation_id {
                        Some(id) => id.as_str(),
                        None => "",
                    },
                };
                out.push((i, o.method.as_str(), shown));
                proof {
                    reveal_strlit("");
                    let f = op_filter(ops@.take(i + 1), q);
                    assert(op_matches(q, ops@[i as int]));
                    assert(f == op_filter(ops@.take(i as int), q).push(i as int));
                    assert forall|k: int| 0 <= k < out@.len() implies {
                        let o2 = ops@[(#[trigger] out@[k]).0 as int];
                        &&& out@[k].0 as int == f[k]
                        &&& out@[k].0 < i + 1
                        &&& out@[k].1@ == o2.method@
                        &&& out@[k].2@ == op_list_label(o2)
                    } by {
                        if k < before.len() {
                            assert(out@[k] == before[k]);
                        }
                    }
                }
            } else {
                proof {
                    let f = op_filter(ops@.take(i + 1), q);
                    assert(!op_matches(q, ops@[i as int]));
                    assert(f == op_filter(ops@.take(i as int), q));
                }
            }
        }
        assert(ops@.take(n as int) =~= ops@);
        out
    }

    // ── Spec list ────────────────────────────────────────────────────────────

    pub fn specs_move_down(&mut self)
        ensures
            final(self).specs_selected == (if old(self).specs@.len() == 0 {
                old(self).specs_selected
            } else {
                match old(self).specs_selected {
                    Some(i) => Some(
                        (if i + 1 < old(self).specs@.len() {
                            i + 1
                        } else {
                            old(self).specs@.len() - 1
                        }) as usize,
                    ),
                    None => Some(0usize),
                }
            }),
            only_selection_changed(*old(self), *final(self)),
    {
        let len = self.specs.len();
        if len == 0 {
            return;
        }
        let next = match self.specs_selected {
            Some(i) => if i < len - 1 {
                i + 1
            } else {
                len - 1
            },
            None => 0,
        };
        self.specs_selected = Some(next);
    }

    pub fn specs_move_up(&mut self)
        ensures
            final(self).specs_selected == Some(
                (match old(self).specs_selected {
                    Some(i) => if i > 0 {
                        i - 1
                    } else {
                        0
                    },
                    None => 0,
                }) as usize,
            ),
            only_selection_changed(*old(self), *final(self)),
    {
        let next = match self.specs_selected {
            Some(i) => if i > 0 {
                i - 1
            } else {
                0
            },
            None => 0,
        };
        self.specs_selected = Some(next);
    }

    pub fn specs_move_top(&mut self)
        ensures
            final(self).specs_selected == Some(0usize),
            only_selection_changed(*old(self), *final(self)),
    {
        self.specs_selected = Some(0);
    }

    pub fn specs_move_bottom(&mut self)
        ensures
            final(self).specs_selected == Some(
                (if old(self).specs@.len() > 0 {
                    old(self).specs@.len() - 1
                } else {
                    0
                }) as usize,
            ),
            only_selection_changed(*old(self), *final(self)),
    {
        let last = if self.specs.len() > 0 {
            self.specs.len() - 1
        } else {
            0
        };
        self.specs_selected = Some(last);
    }

    // ── Tree navigation ──────────────────────────────────────────────────────

    pub fn tree_move_down(&mut self)
        requires
            app_wf(*old(self)),
        ensures
            app_wf(*final(self)),
            final(self).focus == old(self).focus,
            tree_step(*old(self), *final(self), |a: TreeCursor, b: TreeCursor| moved_by(a, b, 1)),
    {
        let i = self.selected_spec_index();
        if i < self.trees.len() {
            self.trees[i].move_down();
        }
        proof {
            self.lemma_wf_after_tree_step(*old(self));
        }
    }

    pub fn tree_move_up(&mut self)
        requires
            app_wf(*old(self)),
        ensures
            app_wf(*final(self)),
            final(self).focus == old(self).focus,
            tree_step(*old(self), *final(self), |a: TreeCursor, b: TreeCursor| moved_by(a, b, -1)),
    {
        let i = self.selected_spec_index();
        if i < self.trees.len() {
            self.trees[i].move_up();
        }
        proof {
            self.lemma_wf_after_tree_step(*old(self));
        }
    }

    pub fn tree_move_top(&mut self)
        requires
            app_wf(*old(self)),
        ensures
            app_wf(*final(self)),
            final(self).focus == old(self).focus,
            tree_step(*old(self), *final(self), |a: TreeCursor, b: TreeCursor| moved_to_end(a, b, false)),
    {
        let i = self.selected_spec_index();
        if i < self.trees.len() {
            self.trees[i].move_top();
        }
        proof {
            self.lemma_wf_after_tree_step(*old(self));
        }
    }

    pub fn tree_move_bottom(&mut self)
        requires
            app_wf(*old(self)),
        ensures
            app_wf(*final(self)),
            final(self).focus == old(self).focus,
            tree_step(*old(self), *final(self), |a: TreeCursor, b: TreeCursor| moved_to_end(a, b, true)),
    {
        let i = self.selected_spec_index();
        if i < self.trees.len() {
            self.trees[i].move_bottom();
        }
        proof {
            self.lemma_wf_after_tree_step(*old(self));
        }
    }

    /// Drills right in the tree; at a leaf, moves the focus to the
    /// operations of the selected path when it has some.
    pub fn tree_move_right_or_ops(&mut self)
        requires
            app_wf(*old(self)),
        ensures
            app_wf(*final(self)),
            went_right_or_ops(*old(self), *final(self)),
    {
        let i = self.selected_spec_index();
        let moved = if i < self.trees.len() {
            self.trees[i].move_right()
        } else {
            false
        };
        proof {
            self.lemma_wf_after_tree_step(*old(self));
        }
        if !moved {
            let n = self.op_count();
            if n > 0 {
                let p = match self.tree() {
                    Some(t) => t.selected_path_index(),
                    None => None,
                };
                self.ops.sync(p, n);
                self.focus = Focus::Ops;
            }
        }
    }

    /// Number of operations of the selected path.
    pub fn op_count(&self) -> (n: usize)
        ensures
            n == selected_ops(*self).len(),
    {
        let spec = match self.selected_spec() {
            Some(s) => s,
            None => return 0,
        };
        let tree = match self.tree() {
            Some(t) => t,
            None => return 0,
        };
        match tree.selected_path_index() {
            Some(p) => if p < spec.paths.len() {
                spec.paths[p].operations.len()
            } else {
                0
            },
            None => 0,
        }
    }

    /// Moves left in the tree; from the first column, moves the focus to the
    /// spec list when several specs are loaded.
    pub fn tree_move_left_or_specs(&mut self)
        requires
            app_wf(*old(self)),
        ensures
            app_wf(*final(self)),
            went_left_or_specs(*old(self), *final(self)),
    {
        let i = self.selected_spec_index();
        let moved = if i < self.trees.len() {
            self.trees[i].move_left()
        } else {
            false
        };
        proof {
            self.lemma_wf_after_tree_step(*old(self));
        }
        if !moved && self.specs.len() > 1 {
            self.focus = Focus::Specs;
        }
    }

    // ── Tree search ──────────────────────────────────────────────────────────

    pub fn tree_search_open(&mut self)
        requires
            app_wf(*old(self)),
        ensures
            app_wf(*final(self)),
            final(self).focus == old(self).focus,
            tree_step(
                *old(self),
                *final(self),
                |a: TreeCursor, b: TreeCursor| b.search.active && b.search.query@ == a.search.query@
                    && b.root == a.root && b.levels@ == a.levels@ && b.active_col == a.active_col,
            ),
    {
        let i = self.selected_spec_index();
        if i < self.trees.len() {
            self.trees[i].search.active = true;
        }
        proof {
            self.lemma_wf_after_tree_step(*old(self));
        }
    }

    pub fn tree_search_push(&mut self, ch: char)
        requires
            app_wf(*old(self)),
        ensures
            app_wf(*final(self)),
            final(self).focus == old(self).focus,
            tree_step(
                *old(self),
                *final(self),
                |a: TreeCursor, b: TreeCursor| searched(a, b, a.search.query@.push(ch), a.search.active),
            ),
    {
        let i = self.selected_spec_index();
        if i < self.trees.len() {
            self.trees[i].search_push(ch);
        }
        proof {
            self.lemma_wf_after_tree_step(*old(self));
        }
    }

    pub fn tree_search_pop(&mut self)
        requires
            app_wf(*old(self)),
        ensures
            app_wf(*final(self)),
            final(self).focus == old(self).focus,
            tree_step(
                *old(self),
                *final(self),
                |a: TreeCursor, b: TreeCursor| searched(a, b, popped(a.search.query@), a.search.active),
            ),
    {
        let i = self.selected_spec_index();
        if i < self.trees.len() {
            self.trees[i].search_pop();
        }
        proof {
            self.lemma_wf_after_tree_step(*old(self));
        }
    }

    pub fn tree_search_clear(&mut self)
        requires
            app_wf(*old(self)),
        ensures
            app_wf(*final(self)),
            final(self).focus == old(self).focus,
            tree_step(
                *old(self),
                *final(self),
                |a: TreeCursor, b: TreeCursor| searched(a, b, Seq::empty(), a.search.active),
            ),
    {
        let i = self.selected_spec_index();
        if i < self.trees.len() {
            self.trees[i].search.clear();
            proof {
                assert(self.trees@[i as int].search.query@ =~= Seq::<char>::empty());
            }
            self.trees[i].search_clamp_selection();
        }
        proof {
            self.lemma_wf_after_tree_step(*old(self));
        }
    }

    pub fn tree_search_commit(&mut self)
        requires
            app_wf(*old(self)),
        ensures
            app_wf(*final(self)),
            final(self).focus == old(self).focus,
            tree_step(
                *old(self),
                *final(self),
                |a: TreeCursor, b: TreeCursor| !b.search.active && b.search.query@ == a.search.query@
                    && b.root == a.root && b.levels@ == a.levels@ && b.active_col == a.active_col,
            ),
    {
        let i = self.selected_spec_index();
        if i < self.trees.len() {
            self.trees[i].search_commit();
        }
        proof {
            self.lemma_wf_after_tree_step(*old(self));
        }
    }

    pub fn tree_search_cancel(&mut self)
        requires
            app_wf(*old(self)),
        ensures
            app_wf(*final(self)),
            final(self).focus == old(self).focus,
            tree_step(
                *old(self),
                *final(self),
                |a: TreeCursor, b: TreeCursor| searched(a, b, Seq::empty(), false),
            ),
    {
        let i = self.selected_spec_index();
        if i < self.trees.len() {
            self.trees[i].search_cancel();
        }
        proof {
            self.lemma_wf_after_tree_step(*old(self));
        }
    }

    // ── Operations list ──────────────────────────────────────────────────────

    pub fn ops_move_down(&mut self)
        ensures
            only_ops_changed(*old(self), *final(self)),
            final(self).ops.search == old(self).ops.search,
            final(self).ops.path_index == old(self).ops.path_index,
            final(self).ops.selected == (if ops_list(*old(self)).len() == 0 {
                old(self).ops.selected
            } else if sel_or_zero(old(self).ops.selected) + 1 < ops_list(*old(self)).len() {
                Some((sel_or_zero(old(self).ops.selected) + 1) as usize)
            } else {
                Some((ops_list(*old(self)).len() - 1) as usize)
            }),
    {
        let flen = self.filtered_ops().len();
        self.ops.move_down(flen);
    }

    pub fn ops_move_up(&mut self)
        ensures
            only_ops_changed(*old(self), *final(self)),
            final(self).ops.search == old(self).ops.search,
            final(self).ops.selected == Some(
                (if sel_or_zero(old(self).ops.selected) > 0 {
                    sel_or_zero(old(self).ops.selected) - 1
                } else {
                    0
                }) as usize,
            ),
    {
        self.ops.move_up();
    }

    pub fn ops_move_top(&mut self)
        ensures
            only_ops_changed(*old(self), *final(self)),
            final(self).ops.search == old(self).ops.search,
            final(self).ops.selected == Some(0usize),
    {
        self.ops.move_top();
    }

    pub fn ops_move_bottom(&mut self)
        ensures
            only_ops_changed(*old(self), *final(self)),
            final(self).ops.search == old(self).ops.search,
            final(self).ops.selected == (if ops_list(*old(self)).len() == 0 {
                old(self).ops.selected
            } else {
                Some((ops_list(*old(self)).len() - 1) as usize)
            }),
    {
        let flen = self.filtered_ops().len();
        self.ops.move_bottom(flen);
    }

    pub fn ops_search_open(&mut self)
        ensures
            only_ops_changed(*old(self), *final(self)),
            final(self).ops.search.active,
            final(self).ops.search.query@ == old(self).ops.search.query@,
            final(self).ops.selected == old(self).ops.selected,
    {
        self.ops.search.active = true;
    }

    /// Extends the operations query; the selection is reset and kept inside
    /// the new filtered list.
    pub fn ops_search_push(&mut self, ch: char)
        ensures
            only_ops_changed(*old(self), *final(self)),
            final(self).ops.search.query@ == old(self).ops.search.query@.push(ch),
            final(self).ops.search.active == old(self).ops.search.active,
            final(self).ops.selected is None,
    {
        self.ops.search_push(ch);
        let flen = self.filtered_ops().len();
        self.ops.clamp(flen);
    }

    pub fn ops_search_pop(&mut self)
        ensures
            only_ops_changed(*old(self), *final(self)),
            final(self).ops.search.query@ == popped(old(self).ops.search.query@),
            final(self).ops.search.active == old(self).ops.search.active,
            final(self).ops.selected is None,
    {
        self.ops.search_pop();
        let flen = self.filtered_ops().len();
        self.ops.clamp(flen);
    }

    pub fn ops_search_clear(&mut self)
        ensures
            only_ops_changed(*old(self), *final(self)),
            final(self).ops.search.query@.len() == 0,
            final(self).ops.search.active == old(self).ops.search.active,
            final(self).ops.selected == clamp_sel(old(self).ops.selected, ops_list(*final(self)).len() as int),
    {
        self.ops.search.clear();
        let flen = self.filtered_ops().len();
        self.ops.clamp(flen);
    }

    pub fn ops_search_commit(&mut self)
        ensures
            only_ops_changed(*old(self), *final(self)),
            !final(self).ops.search.active,
            final(self).ops.search.query@ == old(self).ops.search.query@,
            final(self).ops.selected == old(self).ops.selected,
    {
        self.ops.search_commit();
    }

    pub fn ops_search_cancel(&mut self)
        ensures
            only_ops_changed(*old(self), *final(self)),
            !final(self).ops.search.active,
            final(self).ops.search.query@.len() == 0,
            final(self).ops.selected is None,
    {
        self.ops.search_cancel();
    }

    // ── Focus and detail transitions ─────────────────────────────────────────

    /// Focuses the first tree column.
    pub fn focus_tree(&mut self)
        requires
            app_wf(*old(self)),
        ensures
            app_wf(*final(self)),
            tree_focused(*old(self), *final(self)),
    {
        self.focus = Focus::Tree;
        let i = self.selected_spec_index();
        if i < self.trees.len() {
            self.trees[i].active_col = 0;
        }
        proof {
            self.lemma_wf_after_tree_step(*old(self));
        }
    }

    /// The operation selected in the (filtered) operations panel.
    pub fn selected_operation_index(&self) -> (r: Option<usize>)
        ensures
            r == (if 0 <= sel_or_zero(self.ops.selected) < ops_list(*self).len() {
                Some(ops_list(*self)[sel_or_zero(self.ops.selected)] as usize)
            } else {
                None
            }),
    {
        let filtered = self.filtered_ops();
        let k = self.ops.selected();
        if k < filtered.len() {
            Some(filtered[k].0)
        } else {
            None
        }
    }

    /// `(spec, path, operation)` of the selected operation.
    pub fn current_op_key(&self) -> (r: Option<OpKey>)
        ensures
            r == op_key(*self),
    {
        let spec_idx = self.selected_spec_index();
        let path_idx = match self.tree() {
            Some(t) => match t.selected_path_index() {
                Some(p) => p,
                None => return None,
            },
            None => return None,
        };
        let op_idx = match self.selected_operation_index() {
            Some(o) => o,
            None => return None,
        };
        Some((spec_idx, path_idx, op_idx))
    }

    /// Resets the detail trees when the selected operation changed.
    pub fn sync_schema_tree_state(&mut self)
        ensures
            final(self).specs@ == old(self).specs@,
            final(self).trees@ == old(self).trees@,
            final(self).focus == old(self).focus,
            final(self).ops == old(self).ops,
            final(self).specs_selected == old(self).specs_selected,
            final(self).detail.schema_tree_op_key == op_key(*old(self)),
            final(self).detail.scroll == old(self).detail.scroll,
    {
        let key = self.current_op_key();
        self.detail.sync_schema_tree(key);
    }

    /// Opens the detail of the selected operation, if any.
    pub fn enter_detail_from_ops(&mut self)
        ensures
            entered_from_ops(*old(self), *final(self)),
    {
        if self.current_op_key().is_some() {
            self.focus = Focus::Detail;
            self.detail.scroll = 0;
            self.sync_schema_tree_state();
        }
    }

    /// Opens the detail of the selected path's first operation when the path
    /// has operations.
    pub fn enter_detail_from_tree(&mut self)
        ensures
            entered_from_tree(*old(self), *final(self)),
    {
        let n = self.op_count();
        if n > 0 {
            let p = match self.tree() {
                Some(t) => t.selected_path_index(),
                None => None,
            };
            self.ops.sync(p, n);
            self.focus = Focus::Detail;
            self.detail.scroll = 0;
            self.sync_schema_tree_state();
        }
    }

    /// Leaves the detail view for the operations panel.
    pub fn detail_back(&mut self)
        ensures
            went_back(*old(self), *final(self)),
    {
        self.focus = Focus::Ops;
        self.detail.back();
    }

    /// `self` differs from `a` only in the selected tree, which stays well
    /// formed.
    proof fn lemma_wf_after_tree_step(&self, a: ApinApp)
        requires
            app_wf(a),
            self.trees@.len() == a.trees@.len(),
            self.specs@.len() == a.specs@.len(),
            forall|j: int| 0 <= j < a.trees@.len() && j != spec_index(a) ==> self.trees@[j] == a.trees@[j],
            0 <= spec_index(a) < a.trees@.len() ==> cursor_wf(self.trees@[spec_index(a)]),
        ensures
            app_wf(*self),
    {
        assert forall|j: int| 0 <= j < self.trees@.len() implies cursor_wf(#[trigger] self.trees@[j]) by {
            if j != spec_index(a) {
                assert(self.trees@[j] == a.trees@[j]);
            }
        }
    }
}

/// The key of the selected operation: `(spec, path, operation)`.
pub open spec fn op_key(a: ApinApp) -> Option<OpKey> {
    match selected_path(a) {
        Some(p) => if 0 <= sel_or_zero(a.ops.selected) < ops_list(a).len() {
            Some((spec_index(a) as usize, p, ops_list(a)[sel_or_zero(a.ops.selected)] as usize))
        } else {
            None
        },
        None => None,
    }
}

/// Only the operations panel changed.
pub open spec fn only_ops_changed(a: ApinApp, b: ApinApp) -> bool {
    &&& b.specs@ == a.specs@
    &&& b.trees@ == a.trees@
    &&& b.focus == a.focus
    &&& b.specs_selected == a.specs_selected
    &&& b.detail == a.detail
    &&& b.specs_done == a.specs_done
}

/// What moving right from the tree does: drill into the selected node, or
/// at a leaf move the focus to the operations of the selected path.
pub open spec fn went_right_or_ops(a: ApinApp, b: ApinApp) -> bool {
    &&& b.specs@ == a.specs@
    &&& b.specs_selected == a.specs_selected
    &&& b.detail == a.detail
    &&& ({
        let i = spec_index(a);
        let moved = 0 <= i < a.trees@.len() && crate::nav::opens(
            crate::nav::node_at(a.trees@[i].root, a.trees@[i].levels@, a.trees@[i].active_col as int),
        );
        &&& 0 <= i < a.trees@.len() ==> moved_right(a.trees@[i], b.trees@[i], moved)
        &&& moved ==> b.focus == a.focus && b.ops == a.ops
        &&& !moved && selected_ops(a).len() > 0 ==> b.focus == Focus::Ops
            && synced(a.ops, b.ops, selected_path(a), selected_ops(a).len() as int)
        &&& !moved && selected_ops(a).len() == 0 ==> b.focus == a.focus && b.ops == a.ops
    })
    &&& forall|j: int| 0 <= j < a.trees@.len() && j != spec_index(a) ==> b.trees@[j] == a.trees@[j]
    &&& b.trees@.len() == a.trees@.len()
}

/// What moving left from the tree does: back one column, or from the first
/// column to the spec list when several specs are loaded.
pub open spec fn went_left_or_specs(a: ApinApp, b: ApinApp) -> bool {
    &&& b.specs@ == a.specs@
    &&& b.ops == a.ops
    &&& b.detail == a.detail
    &&& b.specs_selected == a.specs_selected
    &&& ({
        let i = spec_index(a);
        let moved = 0 <= i < a.trees@.len() && a.trees@[i].active_col > 0;
        &&& 0 <= i < a.trees@.len() ==> moved_left(a.trees@[i], b.trees@[i], moved)
        &&& moved ==> b.focus == a.focus
        &&& !moved ==> b.focus == (if a.specs@.len() > 1 {
            Focus::Specs
        } else {
            a.focus
        })
    })
    &&& forall|j: int| 0 <= j < a.trees@.len() && j != spec_index(a) ==> b.trees@[j] == a.trees@[j]
    &&& b.trees@.len() == a.trees@.len()
}

/// What focusing the tree does: the focus goes to the first column of the
/// selected tree.
pub open spec fn tree_focused(a: ApinApp, b: ApinApp) -> bool {
    &&& b.focus == Focus::Tree
    &&& tree_step(
        a,
        b,
        |x: TreeCursor, y: TreeCursor| y.active_col == 0 && y.root == x.root && y.levels@ == x.levels@
            && y.search == x.search,
    )
}

/// What opening the detail from the operations list does: with an
/// operation selected, the detail of it is shown from the top.
pub open spec fn entered_from_ops(a: ApinApp, b: ApinApp) -> bool {
    &&& b.specs@ == a.specs@
    &&& b.trees@ == a.trees@
    &&& b.ops == a.ops
    &&& op_key(a) is Some ==> b.focus == Focus::Detail && b.detail.scroll == 0
        && b.detail.schema_tree_op_key == op_key(a)
    &&& op_key(a) is None ==> b.focus == a.focus && b.detail == a.detail
}

/// What opening the detail from the tree does: when the selected path has
/// operations, the operations list is synced to it and the detail of its
/// selected operation is shown from the top.
pub open spec fn entered_from_tree(a: ApinApp, b: ApinApp) -> bool {
    &&& b.specs@ == a.specs@
    &&& b.trees@ == a.trees@
    &&& selected_ops(a).len() > 0 ==> {
        &&& b.focus == Focus::Detail
        &&& b.detail.scroll == 0
        &&& synced(a.ops, b.ops, selected_path(a), selected_ops(a).len() as int)
    }
    &&& selected_ops(a).len() == 0 ==> b.focus == a.focus && b.detail == a.detail && b.ops == a.ops
}

/// What leaving the detail view does: focus on the operations, top of the
/// page, no tree focus.
pub open spec fn went_back(a: ApinApp, b: ApinApp) -> bool {
    &&& b.focus == Focus::Ops
    &&& b.detail.scroll == 0
    &&& !b.detail.in_tree
    &&& b.detail.focused_resp_tree is None
    &&& b.specs@ == a.specs@
    &&& b.trees@ == a.trees@
    &&& b.ops == a.ops
}

/// Only the spec-list selection changed.
pub open spec fn only_selection_changed(a: ApinApp, b: ApinApp) -> bool {
    &&& b.specs@ == a.specs@
    &&& b.trees@ == a.trees@
    &&& b.focus == a.focus
    &&& b.ops == a.ops
    &&& b.detail == a.detail
    &&& b.specs_done == a.specs_done
}

/// Only the tree of the selected spec changed, as `rel` relates it.
pub open spec fn tree_step(a: ApinApp, b: ApinApp, rel: spec_fn(TreeCursor, TreeCursor) -> bool) -> bool {
    &&& b.trees@.len() == a.trees@.len()
    &&& forall|j: int| 0 <= j < a.trees@.len() && j != spec_index(a) ==> b.trees@[j] == a.trees@[j]
    &&& (0 <= spec_index(a) < a.trees@.len() ==> rel(a.trees@[spec_index(a)], b.trees@[spec_index(a)]))
    &&& b.specs@ == a.specs@
    &&& b.specs_selected == a.specs_selected
    &&& b.ops == a.ops
    &&& b.detail == a.detail
    &&& b.specs_done == a.specs_done
}

} // verus!
