//! State of the full-screen operation detail view: scrolling, focus of the
//! collapsible schema trees, and incremental search over the rendered lines.
use vstd::prelude::*;

use tui_tree_widget::TreeState;

use crate::nav::Search;

verus! {

// ─── Tree widget state ───────────────────────────────────────────────────────

#[verifier::external_type_specification]
#[verifier::external_body]
#[verifier::reject_recursive_types(Identifier)]
pub struct ExTreeState<Identifier>(TreeState<Identifier>);

/// The nodes a tree state holds open, each by its identifier path.
pub uninterp spec fn opened_of(s: TreeState<usize>) -> Set<Seq<usize>>;

/// The identifier path of the node a tree state has selected (empty when
/// none is).
pub uninterp spec fn selected_of(s: TreeState<usize>) -> Seq<usize>;

/// The first row a tree state shows.
pub uninterp spec fn offset_of(s: TreeState<usize>) -> usize;

/// The identifier paths of the rows of the last rendering, top to bottom.
pub uninterp spec fn last_rows_of(s: TreeState<usize>) -> Seq<Seq<usize>>;

/// The largest row index of the last rendering (0 when nothing was drawn).
pub uninterp spec fn last_biggest_of(s: TreeState<usize>) -> usize;

/// Position of the first row equal to `sel`, or -1.
pub open spec fn row_pos(rows: Seq<Seq<usize>>, sel: Seq<usize>) -> int
    decreases rows.len(),
{
    if rows.len() == 0 {
        -1
    } else if rows[0] == sel {
        0
    } else {
        let r = row_pos(rows.drop_first(), sel);
        if r < 0 {
            -1
        } else {
            r + 1
        }
    }
}

/// The row at `i`, or the empty path when there is none.
pub open spec fn row_at(rows: Seq<Seq<usize>>, i: int) -> Seq<usize> {
    if 0 <= i < rows.len() {
        rows[i]
    } else {
        Seq::empty()
    }
}

/// The row index a key moves to from row position `pos` (-1 when the
/// selection is not a row of the last rendering): down goes one row on
/// (to the first row from nowhere), up one row back (to the last row from
/// nowhere); both stop at 0 and at `biggest`.
pub open spec fn moved_index(down: bool, pos: int, biggest: usize) -> int {
    let wanted: int = if down {
        if pos < 0 {
            0
        } else if pos + 1 > usize::MAX {
            usize::MAX as int
        } else {
            pos + 1
        }
    } else {
        if pos < 0 {
            usize::MAX as int
        } else if pos > 0 {
            pos - 1
        } else {
            0
        }
    };
    if wanted < biggest {
        wanted
    } else {
        biggest as int
    }
}

/// The selection after an up or down key on a tree state.
pub open spec fn selected_moved(down: bool, s: TreeState<usize>) -> Seq<usize> {
    row_at(last_rows_of(s), moved_index(down, row_pos(last_rows_of(s), selected_of(s)), last_biggest_of(s)))
}

/// Wraps `TreeState::default`: nothing opened, nothing selected, no scroll,
/// nothing rendered yet.
#[verifier::external_body]
pub(crate) fn new_tree_state() -> (s: TreeState<usize>)
    ensures
        opened_of(s) == Set::<Seq<usize>>::empty(),
        selected_of(s) == Seq::<usize>::empty(),
        offset_of(s) == 0,
        last_rows_of(s) == Seq::<Seq<usize>>::empty(),
        last_biggest_of(s) == 0,
{
    TreeState::default()
}

/// Wraps `TreeState::select_first`: selects the first row of the last
/// rendering (nothing when none was drawn); the open nodes and the last
/// rendering stay as they were.
#[verifier::external_body]
fn tree_select_first(s: &mut TreeState<usize>)
    ensures
        opened_of(*final(s)) == opened_of(*old(s)),
        selected_of(*final(s)) == row_at(last_rows_of(*old(s)), 0),
        last_rows_of(*final(s)) == last_rows_of(*old(s)),
        last_biggest_of(*final(s)) == last_biggest_of(*old(s)),
{
    s.select_first();
}

/// Wraps `TreeState::key_down`: selects the row after the selected one in
/// the last rendering (the first row when the selection is not one of its
/// rows), not past its largest index; the open nodes and the last
/// rendering stay as they were.
#[verifier::external_body]
fn tree_key_down(s: &mut TreeState<usize>)
    ensures
        opened_of(*final(s)) == opened_of(*old(s)),
        selected_of(*final(s)) == selected_moved(true, *old(s)),
        last_rows_of(*final(s)) == last_rows_of(*old(s)),
        last_biggest_of(*final(s)) == last_biggest_of(*old(s)),
{
    s.key_down();
}

/// Wraps `TreeState::key_up`: selects the row before the selected one in
/// the last rendering (its largest index when the selection is not one of
/// its rows), stopping at the first row; the open nodes and the last
/// rendering stay as they were.
#[verifier::external_body]
fn tree_key_up(s: &mut TreeState<usize>)
    ensures
        opened_of(*final(s)) == opened_of(*old(s)),
        selected_of(*final(s)) == selected_moved(false, *old(s)),
        last_rows_of(*final(s)) == last_rows_of(*old(s)),
        last_biggest_of(*final(s)) == last_biggest_of(*old(s)),
{
    s.key_up();
}

/// Wraps `TreeState::key_left`: closes the selected node when it is open,
/// otherwise selects its parent.
#[verifier::external_body]
fn tree_key_left(s: &mut TreeState<usize>)
    ensures
        opened_of(*final(s)) == opened_of(*old(s)).remove(selected_of(*old(s))),
        opened_of(*old(s)).contains(selected_of(*old(s))) ==> selected_of(*final(s)) == selected_of(*old(s)),
        !opened_of(*old(s)).contains(selected_of(*old(s))) ==> selected_of(*final(s)) == (if selected_of(
            *old(s),
        ).len() > 0 {
            selected_of(*old(s)).drop_last()
        } else {
            selected_of(*old(s))
        }),
{
    s.key_left();
}

/// Wraps `TreeState::key_right`: opens the selected node, if any.
#[verifier::external_body]
fn tree_key_right(s: &mut TreeState<usize>)
    ensures
        selected_of(*final(s)) == selected_of(*old(s)),
        opened_of(*final(s)) == (if selected_of(*old(s)).len() > 0 {
            opened_of(*old(s)).insert(selected_of(*old(s)))
        } else {
            opened_of(*old(s))
        }),
{
    s.key_right();
}

/// Wraps `TreeState::opened`, listing the open nodes (in no stated order).
#[verifier::external_body]
pub(crate) fn tree_opened(s: &TreeState<usize>) -> (r: Vec<Vec<usize>>)
    ensures
        r@.map_values(|v: Vec<usize>| v@).to_set() == opened_of(*s),
{
    s.opened().iter().cloned().collect()
}

/// Wraps `TreeState::get_offset`.
#[verifier::external_body]
pub(crate) fn tree_offset(s: &TreeState<usize>) -> (r: usize)
    ensures
        r == offset_of(*s),
{
    s.get_offset()
}

/// Wraps `TreeState::scroll_up`: the offset goes back by `lines`, stopping
/// at the first row.
#[verifier::external_body]
pub(crate) fn tree_scroll_up(s: &mut TreeState<usize>, lines: usize)
    ensures
        offset_of(*final(s)) == (if offset_of(*old(s)) >= lines {
            offset_of(*old(s)) - lines
        } else {
            0
        }),
        opened_of(*final(s)) == opened_of(*old(s)),
{
    s.scroll_up(lines);
}

/// Wraps `TreeState::scroll_down`: the offset goes forward by `lines`
/// (saturating), but not past the largest row index of the last rendering.
#[verifier::external_body]
pub(crate) fn tree_scroll_down(s: &mut TreeState<usize>, lines: usize)
    ensures
        offset_of(*final(s)) == ({
            let wanted = if offset_of(*old(s)) + lines > usize::MAX {
                usize::MAX as int
            } else {
                offset_of(*old(s)) + lines
            };
            if wanted < last_biggest_of(*old(s)) {
                wanted
            } else {
                last_biggest_of(*old(s)) as int
            }
        }),
        opened_of(*final(s)) == opened_of(*old(s)),
{
    s.scroll_down(lines);
}

/// A navigation key of a tree widget.
#[derive(Debug, Clone, Copy, PartialEq, Eq, Structural)]
pub enum TreeKey {
    Up,
    Down,
    Left,
    Right,
}

/// What a navigation key does to the open nodes of a tree: right opens the
/// selected node, left closes it, up and down change nothing.
pub open spec fn opened_after(key: TreeKey, opened: Set<Seq<usize>>, selected: Seq<usize>) -> Set<Seq<usize>> {
    match key {
        TreeKey::Up | TreeKey::Down => opened,
        TreeKey::Left => opened.remove(selected),
        TreeKey::Right => if selected.len() > 0 {
            opened.insert(selected)
        } else {
            opened
        },
    }
}

fn tree_key(s: &mut TreeState<usize>, key: TreeKey)
    ensures
        opened_of(*final(s)) == opened_after(key, opened_of(*old(s)), selected_of(*old(s))),
        key == TreeKey::Down ==> selected_of(*final(s)) == selected_moved(true, *old(s)),
        key == TreeKey::Up ==> selected_of(*final(s)) == selected_moved(false, *old(s)),
{
    match key {
        TreeKey::Up => tree_key_up(s),
        TreeKey::Down => tree_key_down(s),
        TreeKey::Left => tree_key_left(s),
        TreeKey::Right => tree_key_right(s),
    }
}

// ─── Detail view ─────────────────────────────────────────────────────────────

/// The operation a detail view shows: (spec, path, operation) indices.
pub type OpKey = (usize, usize, usize);

/// All state of the full-screen operation detail panel.
pub struct DetailView {
    /// Scroll offset, in rendered lines.
    pub scroll: usize,
    /// Whether the request-body schema tree has keyboard focus.
    pub in_tree: bool,
    /// First rendered line of the request-body schema tree (from the last draw).
    pub tree_start: usize,
    /// Visible rows of the request-body schema tree (from the last draw).
    pub tree_len: usize,
    /// Fold and selection state of the request-body schema tree.
    pub schema_tree_state: TreeState<usize>,
    /// The operation `schema_tree_state` belongs to.
    pub schema_tree_op_key: Option<OpKey>,
    /// Visible height of the view (from the last draw).
    pub view_height: usize,
    pub search: Search,
    /// Rendered lines that match the search query, ascending.
    pub search_matches: Vec<usize>,
    /// The match the cursor is on (an index into `search_matches`).
    pub search_cursor: usize,
    /// One tree state per response that has a schema tree.
    pub resp_tree_states: Vec<TreeState<usize>>,
    /// First rendered line of each response tree (from the last draw).
    pub resp_tree_starts: Vec<usize>,
    /// Visible rows of each response tree (from the last draw).
    pub resp_tree_lens: Vec<usize>,
    /// The response tree that has keyboard focus.
    pub focused_resp_tree: Option<usize>,
}

impl Default for DetailView {
    fn default() -> (d: Self)
        ensures
            d.scroll == 0,
            !d.in_tree,
            d.tree_start == 0,
            d.tree_len == 0,
            d.schema_tree_op_key is None,
            d.view_height == 0,
            d.search.query@.len() == 0,
            !d.search.active,
            d.search_matches@.len() == 0,
            d.search_cursor == 0,
            d.resp_tree_states@.len() == 0,
            d.resp_tree_starts@.len() == 0,
            d.resp_tree_lens@.len() == 0,
            d.focused_resp_tree is None,
            opened_of(d.schema_tree_state) == Set::<Seq<usize>>::empty(),
            selected_of(d.schema_tree_state) == Seq::<usize>::empty(),
            offset_of(d.schema_tree_state) == 0,
    {
        DetailView {
            scroll: 0,
            in_tree: false,
            tree_start: 0,
            tree_len: 0,
            schema_tree_state: new_tree_state(),
            schema_tree_op_key: None,
            view_height: 0,
            search: Search::default(),
            search_matches: Vec::new(),
            search_cursor: 0,
            resp_tree_states: Vec::new(),
            resp_tree_starts: Vec::new(),
            resp_tree_lens: Vec::new(),
            focused_resp_tree: None,
        }
    }
}

/// The search cursor points at a match whenever there is one.
pub open spec fn cursor_ok(d: DetailView) -> bool {
    d.search_matches@.len() > 0 ==> d.search_cursor < d.search_matches@.len()
}

/// Half a page, at least one line.
pub open spec fn half_page(h: usize) -> int {
    if h / 2 >= 1 {
        (h / 2) as int
    } else {
        1
    }
}

impl DetailView {
    // ── State sync ───────────────────────────────────────────────────────────

    /// Resets the tree state when the shown operation changes.
    pub fn sync_schema_tree(&mut self, op_key: Option<OpKey>)
        ensures
            old(self).schema_tree_op_key == op_key ==> *final(self) == *old(self),
            old(self).schema_tree_op_key != op_key ==> {
                &&& final(self).schema_tree_op_key == op_key
                &&& !final(self).in_tree
                &&& final(self).tree_start == 0
                &&& final(self).tree_len == 0
                &&& final(self).resp_tree_states@.len() == 0
                &&& final(self).resp_tree_starts@.len() == 0
                &&& final(self).resp_tree_lens@.len() == 0
                &&& final(self).focused_resp_tree is None
                &&& final(self).scroll == old(self).scroll
                &&& final(self).search == old(self).search
                &&& final(self).search_matches@ == old(self).search_matches@
                &&& final(self).search_cursor == old(self).search_cursor
                &&& final(self).view_height == old(self).view_height
                &&& opened_of(final(self).schema_tree_state) == Set::<Seq<usize>>::empty()
                &&& selected_of(final(self).schema_tree_state) == Seq::<usize>::empty()
                &&& offset_of(final(self).schema_tree_state) == 0
            },
    {
        if self.schema_tree_op_key != op_key {
            self.schema_tree_op_key = op_key;
            self.schema_tree_state = new_tree_state();
            self.in_tree = false;
            self.tree_start = 0;
            self.tree_len = 0;
            self.resp_tree_states = Vec::new();
            self.resp_tree_starts = Vec::new();
            self.resp_tree_lens = Vec::new();
            self.focused_resp_tree = None;
        }
    }

    // ── Actions ──────────────────────────────────────────────────────────────

    pub fn in_tree(&self) -> (b: bool)
        ensures
            b == self.in_tree,
    {
        self.in_tree
    }

    /// Leaves the view: scroll to the top and drop tree focus.
    pub fn back(&mut self)
        ensures
            final(self).scroll == 0,
            !final(self).in_tree,
            final(self).focused_resp_tree is None,
            final(self).search == old(self).search,
            final(self).search_matches@ == old(self).search_matches@,
            final(self).search_cursor == old(self).search_cursor,
    {
        self.scroll = 0;
        self.in_tree = false;
        self.focused_resp_tree = None;
    }

    pub fn scroll_down(&mut self, n: usize)
        ensures
            *final(self) == (DetailView { scroll: final(self).scroll, ..*old(self) }),
            final(self).scroll == (if old(self).scroll + n > usize::MAX {
                usize::MAX as int
            } else {
                old(self).scroll + n
            }),
            final(self).in_tree == old(self).in_tree,
            final(self).search_cursor == old(self).search_cursor,
            final(self).search_matches@ == old(self).search_matches@,
    {
        self.scroll = self.scroll.saturating_add(n);
    }

    pub fn scroll_up(&mut self, n: usize)
        ensures
            *final(self) == (DetailView { scroll: final(self).scroll, ..*old(self) }),
            final(self).scroll == (if old(self).scroll >= n {
                old(self).scroll - n
            } else {
                0
            }),
            final(self).in_tree == old(self).in_tree,
            final(self).search_cursor == old(self).search_cursor,
            final(self).search_matches@ == old(self).search_matches@,
    {
        self.scroll = self.scroll.saturating_sub(n);
    }

    pub fn scroll_half_down(&mut self)
        requires
            old(self).scroll + half_page(old(self).view_height) <= usize::MAX,
        ensures
            *final(self) == (DetailView { scroll: final(self).scroll, ..*old(self) }),
            final(self).scroll == old(self).scroll + half_page(old(self).view_height),
            final(self).in_tree == old(self).in_tree,
            final(self).search_cursor == old(self).search_cursor,
            final(self).search_matches@ == old(self).search_matches@,
    {
        let half = if self.view_height / 2 >= 1 {
            self.view_height / 2
        } else {
            1
        };
        self.scroll = self.scroll + half;
    }

    pub fn scroll_half_up(&mut self)
        ensures
            *final(self) == (DetailView { scroll: final(self).scroll, ..*old(self) }),
            final(self).scroll == (if old(self).scroll >= half_page(old(self).view_height) {
                old(self).scroll - half_page(old(self).view_height)
            } else {
                0
            }),
            final(self).in_tree == old(self).in_tree,
            final(self).search_cursor == old(self).search_cursor,
            final(self).search_matches@ == old(self).search_matches@,
    {
        let half = if self.view_height / 2 >= 1 {
            self.view_height / 2
        } else {
            1
        };
        self.scroll = self.scroll.saturating_sub(half);
    }

    pub fn scroll_top(&mut self)
        ensures
            *final(self) == (DetailView { scroll: final(self).scroll, ..*old(self) }),
            final(self).scroll == 0,
            final(self).in_tree == old(self).in_tree,
            final(self).search_cursor == old(self).search_cursor,
            final(self).search_matches@ == old(self).search_matches@,
    {
        self.scroll = 0;
    }

    /// Scrolls past the end; drawing clamps the offset.
    pub fn scroll_bottom(&mut self)
        ensures
            *final(self) == (DetailView { scroll: final(self).scroll, ..*old(self) }),
            final(self).scroll == usize::MAX / 2,
            final(self).in_tree == old(self).in_tree,
            final(self).search_cursor == old(self).search_cursor,
            final(self).search_matches@ == old(self).search_matches@,
    {
        self.scroll = usize::MAX / 2;
    }

    /// Gives keyboard focus to the request-body tree when it has rows.
    pub fn focus_tree(&mut self)
        ensures
            final(self).in_tree == (old(self).in_tree || old(self).tree_len > 0),
            final(self).scroll == old(self).scroll,
            final(self).focused_resp_tree == old(self).focused_resp_tree,
            old(self).tree_len > 0 ==> selected_of(final(self).schema_tree_state) == row_at(
                last_rows_of(old(self).schema_tree_state),
                0,
            ) && opened_of(final(self).schema_tree_state) == opened_of(old(self).schema_tree_state),
            old(self).tree_len == 0 ==> *final(self) == *old(self),
    {
        if self.tree_len > 0 {
            self.in_tree = true;
            tree_select_first(&mut self.schema_tree_state);
        }
    }

    pub fn unfocus_tree(&mut self)
        ensures
            !final(self).in_tree,
            final(self).scroll == old(self).scroll,
            final(self).focused_resp_tree == old(self).focused_resp_tree,
    {
        self.in_tree = false;
    }

    // ── Response trees ───────────────────────────────────────────────────────

    pub fn in_resp_tree(&self) -> (b: bool)
        ensures
            b == self.focused_resp_tree is Some,
    {
        self.focused_resp_tree.is_some()
    }

    /// Focuses response tree `idx` and scrolls to it; ignored when out of
    /// range.
    pub fn focus_resp_tree(&mut self, idx: usize)
        ensures
            idx >= old(self).resp_tree_states@.len() ==> final(self).focused_resp_tree
                == old(self).focused_resp_tree && final(self).scroll == old(self).scroll
                && final(self).in_tree == old(self).in_tree,
            idx < old(self).resp_tree_states@.len() ==> {
                &&& final(self).focused_resp_tree == Some(idx)
                &&& !final(self).in_tree
                &&& final(self).scroll == (if idx < old(self).resp_tree_starts@.len() {
                    old(self).resp_tree_starts@[idx as int]
                } else {
                    old(self).scroll
                })
                &&& selected_of(final(self).resp_tree_states@[idx as int]) == row_at(
                    last_rows_of(old(self).resp_tree_states@[idx as int]),
                    0,
                )
                &&& forall|j: int|
                    0 <= j < old(self).resp_tree_states@.len() && j != idx
                        ==> #[trigger] final(self).resp_tree_states@[j] == old(self).resp_tree_states@[j]
            },
            final(self).resp_tree_states@.len() == old(self).resp_tree_states@.len(),
    {
        if idx < self.resp_tree_states.len() {
            self.focused_resp_tree = Some(idx);
            self.in_tree = false;
            let mut states: Vec<TreeState<usize>> = Vec::new();
            std::mem::swap(&mut states, &mut self.resp_tree_states);
            tree_select_first(&mut states[idx]);
            self.resp_tree_states = states;
            if idx < self.resp_tree_starts.len() {
                self.scroll = self.resp_tree_starts[idx];
            }
        }
    }

    pub fn unfocus_resp_tree(&mut self)
        ensures
            final(self).focused_resp_tree is None,
            final(self).scroll == old(self).scroll,
            final(self).in_tree == old(self).in_tree,
    {
        self.focused_resp_tree = None;
    }

    /// Applies a key to the focused response tree, if any.
    fn resp_tree_key(&mut self, key: TreeKey)
        ensures
            forall|j: int|
                0 <= j < old(self).resp_tree_states@.len() ==> opened_of(#[trigger] final(self).resp_tree_states@[j])
                    == if old(self).focused_resp_tree == Some(j as usize) {
                    opened_after(key, opened_of(old(self).resp_tree_states@[j]), selected_of(old(self).resp_tree_states@[j]))
                } else {
                    opened_of(old(self).resp_tree_states@[j])
                },
            forall|j: int|
                0 <= j < old(self).resp_tree_states@.len() && old(self).focused_resp_tree != Some(j as usize)
                    ==> selected_of(#[trigger] final(self).resp_tree_states@[j]) == selected_of(old(self).resp_tree_states@[j]),
            forall|j: int|
                0 <= j < old(self).resp_tree_states@.len() && old(self).focused_resp_tree == Some(j as usize)
                    && key == TreeKey::Down ==> selected_of(#[trigger] final(self).resp_tree_states@[j])
                    == selected_moved(true, old(self).resp_tree_states@[j]),
            forall|j: int|
                0 <= j < old(self).resp_tree_states@.len() && old(self).focused_resp_tree == Some(j as usize)
                    && key == TreeKey::Up ==> selected_of(#[trigger] final(self).resp_tree_states@[j])
                    == selected_moved(false, old(self).resp_tree_states@[j]),
            final(self).focused_resp_tree == old(self).focused_resp_tree,
            final(self).resp_tree_states@.len() == old(self).resp_tree_states@.len(),
            final(self).scroll == old(self).scroll,
            final(self).in_tree == old(self).in_tree,
    {
        match self.focused_resp_tree {
            Some(i) => {
                if i < self.resp_tree_states.len() {
                    let mut states: Vec<TreeState<usize>> = Vec::new();
                    std::mem::swap(&mut states, &mut self.resp_tree_states);
                    tree_key(&mut states[i], key);
                    self.resp_tree_states = states;
                }
            },
            None => {},
        }
    }

    pub fn resp_tree_key_down(&mut self)
        ensures
            final(self).resp_tree_states@.len() == old(self).resp_tree_states@.len(),
            forall|j: int|
                0 <= j < old(self).resp_tree_states@.len() ==> opened_of(#[trigger] final(self).resp_tree_states@[j])
                    == if old(self).focused_resp_tree == Some(j as usize) {
                    opened_after(TreeKey::Down, opened_of(old(self).resp_tree_states@[j]), selected_of(old(self).resp_tree_states@[j]))
                } else {
                    opened_of(old(self).resp_tree_states@[j])
                },
            forall|j: int|
                0 <= j < old(self).resp_tree_states@.len() ==> selected_of(#[trigger] final(self).resp_tree_states@[j])
                    == if old(self).focused_resp_tree == Some(j as usize) {
                    selected_moved(true, old(self).resp_tree_states@[j])
                } else {
                    selected_of(old(self).resp_tree_states@[j])
                },
            final(self).focused_resp_tree == old(self).focused_resp_tree,
            final(self).scroll == old(self).scroll,
    {
        self.resp_tree_key(TreeKey::Down);
    }

    pub fn resp_tree_key_up(&mut self)
        ensures
            final(self).resp_tree_states@.len() == old(self).resp_tree_states@.len(),
            forall|j: int|
                0 <= j < old(self).resp_tree_states@.len() ==> opened_of(#[trigger] final(self).resp_tree_states@[j])
                    == if old(self).focused_resp_tree == Some(j as usize) {
                    opened_after(TreeKey::Up, opened_of(old(self).resp_tree_states@[j]), selected_of(old(self).resp_tree_states@[j]))
                } else {
                    opened_of(old(self).resp_tree_states@[j])
                },
            forall|j: int|
                0 <= j < old(self).resp_tree_states@.len() ==> selected_of(#[trigger] final(self).resp_tree_states@[j])
                    == if old(self).focused_resp_tree == Some(j as usize) {
                    selected_moved(false, old(self).resp_tree_states@[j])
                } else {
                    selected_of(old(self).resp_tree_states@[j])
                },
            final(self).focused_resp_tree == old(self).focused_resp_tree,
            final(self).scroll == old(self).scroll,
    {
        self.resp_tree_key(TreeKey::Up);
    }

    pub fn resp_tree_key_left(&mut self)
        ensures
            final(self).resp_tree_states@.len() == old(self).resp_tree_states@.len(),
            forall|j: int|
                0 <= j < old(self).resp_tree_states@.len() ==> opened_of(#[trigger] final(self).resp_tree_states@[j])
                    == if old(self).focused_resp_tree == Some(j as usize) {
                    opened_after(TreeKey::Left, opened_of(old(self).resp_tree_states@[j]), selected_of(old(self).resp_tree_states@[j]))
                } else {
                    opened_of(old(self).resp_tree_states@[j])
                },
            final(self).focused_resp_tree == old(self).focused_resp_tree,
            final(self).scroll == old(self).scroll,
    {
        self.resp_tree_key(TreeKey::Left);
    }

    pub fn resp_tree_key_right(&mut self)
        ensures
            final(self).resp_tree_states@.len() == old(self).resp_tree_states@.len(),
            forall|j: int|
                0 <= j < old(self).resp_tree_states@.len() ==> opened_of(#[trigger] final(self).resp_tree_states@[j])
                    == if old(self).focused_resp_tree == Some(j as usize) {
                    opened_after(TreeKey::Right, opened_of(old(self).resp_tree_states@[j]), selected_of(old(self).resp_tree_states@[j]))
                } else {
                    opened_of(old(self).resp_tree_states@[j])
                },
            final(self).focused_resp_tree == old(self).focused_resp_tree,
            final(self).scroll == old(self).scroll,
    {
        self.resp_tree_key(TreeKey::Right);
    }

    // ── Request-body tree ────────────────────────────────────────────────────

    pub fn schema_tree_key_down(&mut self)
        ensures
            final(self).in_tree == old(self).in_tree,
            final(self).scroll == old(self).scroll,
            opened_of(final(self).schema_tree_state) == opened_after(
                TreeKey::Down,
                opened_of(old(self).schema_tree_state),
                selected_of(old(self).schema_tree_state),
            ),
            selected_of(final(self).schema_tree_state) == selected_moved(true, old(self).schema_tree_state),
    {
        tree_key(&mut self.schema_tree_state, TreeKey::Down);
    }

    pub fn schema_tree_key_up(&mut self)
        ensures
            final(self).in_tree == old(self).in_tree,
            final(self).scroll == old(self).scroll,
            opened_of(final(self).schema_tree_state) == opened_after(
                TreeKey::Up,
                opened_of(old(self).schema_tree_state),
                selected_of(old(self).schema_tree_state),
            ),
            selected_of(final(self).schema_tree_state) == selected_moved(false, old(self).schema_tree_state),
    {
        tree_key(&mut self.schema_tree_state, TreeKey::Up);
    }

    pub fn schema_tree_key_left(&mut self)
        ensures
            final(self).in_tree == old(self).in_tree,
            final(self).scroll == old(self).scroll,
            opened_of(final(self).schema_tree_state) == opened_after(
                TreeKey::Left,
                opened_of(old(self).schema_tree_state),
                selected_of(old(self).schema_tree_state),
            ),
    {
        tree_key(&mut self.schema_tree_state, TreeKey::Left);
    }

    pub fn schema_tree_key_right(&mut self)
        ensures
            final(self).in_tree == old(self).in_tree,
            final(self).scroll == old(self).scroll,
            opened_of(final(self).schema_tree_state) == opened_after(
                TreeKey::Right,
                opened_of(old(self).schema_tree_state),
                selected_of(old(self).schema_tree_state),
            ),
    {
        tree_key(&mut self.schema_tree_state, TreeKey::Right);
    }

    // ── Search ───────────────────────────────────────────────────────────────

    /// Opens the search box with an empty query.
    pub fn search_open(&mut self)
        ensures
            final(self).search.active,
            final(self).search.query@.len() == 0,
            final(self).search_matches@.len() == 0,
            final(self).search_cursor == 0,
            final(self).scroll == old(self).scroll,
    {
        self.search.active = true;
        self.search.clear();
        self.search_matches = Vec::new();
        self.search_cursor = 0;
    }

    /// Appends to the query and jumps to the first match found so far.
    pub fn search_push(&mut self, ch: char)
        ensures
            final(self).search.query@ == old(self).search.query@.push(ch),
            final(self).search.active == old(self).search.active,
            final(self).search_matches@ == old(self).search_matches@,
            old(self).search_matches@.len() > 0 ==> final(self).scroll == old(self).search_matches@[0]
                && final(self).search_cursor == 0,
            old(self).search_matches@.len() == 0 ==> final(self).scroll == old(self).scroll
                && final(self).search_cursor == old(self).search_cursor,
    {
        self.search.push(ch);
        self.jump_to_first();
    }

    /// Removes the last query character and jumps to the first match.
    pub fn search_pop(&mut self)
        ensures
            final(self).search.query@ == (if old(self).search.query@.len() == 0 {
                old(self).search.query@
            } else {
                old(self).search.query@.drop_last()
            }),
            final(self).search.active == old(self).search.active,
            final(self).search_matches@ == old(self).search_matches@,
            old(self).search_matches@.len() > 0 ==> final(self).scroll == old(self).search_matches@[0]
                && final(self).search_cursor == 0,
            old(self).search_matches@.len() == 0 ==> final(self).scroll == old(self).scroll
                && final(self).search_cursor == old(self).search_cursor,
    {
        self.search.pop();
        self.jump_to_first();
    }

    fn jump_to_first(&mut self)
        ensures
            final(self).search == old(self).search,
            final(self).search_matches@ == old(self).search_matches@,
            old(self).search_matches@.len() > 0 ==> final(self).scroll == old(self).search_matches@[0]
                && final(self).search_cursor == 0,
            old(self).search_matches@.len() == 0 ==> final(self).scroll == old(self).scroll
                && final(self).search_cursor == old(self).search_cursor,
    {
        if self.search_matches.len() > 0 {
            self.scroll = self.search_matches[0];
            self.search_cursor = 0;
        }
    }

    /// Empties the query and forgets the matches.
    pub fn search_clear(&mut self)
        ensures
            final(self).search.query@.len() == 0,
            final(self).search.active == old(self).search.active,
            final(self).search_matches@.len() == 0,
            final(self).search_cursor == 0,
            final(self).scroll == old(self).scroll,
    {
        self.search.clear();
        self.search_matches = Vec::new();
        self.search_cursor = 0;
    }

    /// Closes the search box, clearing the query and the matches.
    pub fn search_cancel(&mut self)
        ensures
            !final(self).search.active,
            final(self).search.query@.len() == 0,
            final(self).search_matches@.len() == 0,
            final(self).search_cursor == 0,
            final(self).scroll == old(self).scroll,
    {
        self.search.active = false;
        self.search.clear();
        self.search_matches = Vec::new();
        self.search_cursor = 0;
    }

    /// Closes the search box and jumps to the first match.
    pub fn search_enter(&mut self)
        ensures
            !final(self).search.active,
            final(self).search.query@ == old(self).search.query@,
            final(self).search_matches@ == old(self).search_matches@,
            final(self).search_cursor == old(self).search_cursor,
            final(self).scroll == (if old(self).search_matches@.len() > 0 {
                old(self).search_matches@[0]
            } else {
                old(self).scroll
            }),
    {
        self.search.active = false;
        if self.search_matches.len() > 0 {
            self.scroll = self.search_matches[0];
        }
    }

    /// Moves to the next match, wrapping around, and scrolls to it.
    pub fn search_next(&mut self)
        ensures
            final(self).search_matches@ == old(self).search_matches@,
            final(self).search == old(self).search,
            old(self).search_matches@.len() == 0 ==> *final(self) == *old(self),
            old(self).search_matches@.len() > 0 ==> {
                &&& final(self).search_cursor == next_match(
                    old(self).search_cursor as int,
                    old(self).search_matches@.len() as int,
                )
                &&& final(self).scroll == old(self).search_matches@[final(self).search_cursor as int]
            },
            cursor_ok(*final(self)),
    {
        let n = self.search_matches.len();
        if n > 0 {
            let c = if self.search_cursor < n {
                (self.search_cursor + 1) % n
            } else {
                ((self.search_cursor % n) + 1) % n
            };
            proof {
                let o = old(self).search_cursor as int;
                if o >= n {
                    assert((o + 1) % (n as int) == ((o % (n as int)) + 1) % (n as int)) by (nonlinear_arith)
                        requires n > 0, o >= 0;
                }
            }
            self.search_cursor = c;
            self.scroll = self.search_matches[c];
        }
    }

    /// Moves to the previous match, wrapping around, and scrolls to it.
    pub fn search_prev(&mut self)
        ensures
            final(self).search_matches@ == old(self).search_matches@,
            final(self).search == old(self).search,
            old(self).search_matches@.len() == 0 ==> final(self).scroll == old(self).scroll
                && final(self).search_cursor == old(self).search_cursor,
            old(self).search_matches@.len() > 0 ==> {
                &&& final(self).search_cursor == prev_match(
                    old(self).search_cursor as int,
                    old(self).search_matches@.len() as int,
                )
                &&& final(self).search_cursor < old(self).search_matches@.len() ==> final(self).scroll
                    == old(self).search_matches@[final(self).search_cursor as int]
            },
            cursor_ok(*old(self)) ==> cursor_ok(*final(self)),
    {
        let n = self.search_matches.len();
        if n > 0 {
            let c = if self.search_cursor == 0 {
                n - 1
            } else {
                self.search_cursor - 1
            };
            self.search_cursor = c;
            if c < n {
                self.scroll = self.search_matches[c];
            }
        }
    }
} // impl DetailView

/// The match after `c` among `len`, wrapping to the first.
pub open spec fn next_match(c: int, len: int) -> int {
    (c + 1) % len
}

/// The match before `c` among `len`, wrapping to the last.
pub open spec fn prev_match(c: int, len: int) -> int {
    if c == 0 {
        len - 1
    } else {
        c - 1
    }
}

/// Stepping to the next match and back returns to the same match, and so
/// does stepping back and then forward.
pub proof fn lemma_next_prev_inverse(c: int, len: int)
    requires
        0 <= c < len,
    ensures
        prev_match(next_match(c, len), len) == c,
        next_match(prev_match(c, len), len) == c,
{
    if c + 1 < len {
        assert((c + 1) % len == c + 1) by (nonlinear_arith)
            requires 0 <= c + 1 < len;
    } else {
        assert((c + 1) % len == 0) by (nonlinear_arith)
            requires c + 1 == len, len > 0;
    }
    if c == 0 {
        assert(len % len == 0) by (nonlinear_arith)
            requires len > 0;
    } else {
        assert(c % len == c) by (nonlinear_arith)
            requires 0 <= c < len;
    }
}

/// `len` steps forward from any match come back to it.
pub proof fn lemma_next_cycles(c: int, len: int, k: nat)
    requires
        0 <= c < len,
    ensures
        iterate_next(c, len, k) == (c + k) % len,
    decreases k,
{
    if k > 0 {
        lemma_next_cycles(c, len, (k - 1) as nat);
        let p = (c + k - 1) % len;
        assert((p + 1) % len == (c + k) % len) by (nonlinear_arith)
            requires p == (c + k - 1) % len, len > 0, c + k >= 1;
    } else {
        assert(c % len == c) by (nonlinear_arith)
            requires 0 <= c < len;
    }
}

/// The match reached after `k` steps forward from `c`.
pub open spec fn iterate_next(c: int, len: int, k: nat) -> int
    decreases k,
{
    if k == 0 {
        c
    } else {
        next_match(iterate_next(c, len, (k - 1) as nat), len)
    }
}

} // verus!
