//! What the panels around the detail show: the key hints, the spec list,
//! the operation summary below the tree, and the tree columns with the
//! methods column.
use vstd::prelude::*;

use crate::detail_page::{fg, fg_bold, unstyled, with_bold};
use crate::inputs::{file_name_of, path_file_name};
use crate::lines::{line_v, lines_v, raw, styled, summary_lines, summary_spans, Line, Span};
use crate::model::{Operation, PathKind, Spec};
use crate::nav::{
    clamp_sel, col_children, col_filter, crumbs, cursor_pos, join_slash, node_at, query_matches, raw_sel,
    sel_or_zero, Search, TreeCursor,
};
use crate::path_tree::PathNode;
use crate::session::{ops_list, selected_ops, selected_path, spec_index, ApinApp, Focus};
use crate::styles::{
    border_style, highlight_style, method_color, method_style, style, Color, Modifier, Style,
};
use crate::text::{chars_of, string_of, trim_end, trim_end_chars};

verus! {

/// The style of a panel border: cyan when the panel is active.
pub open spec fn border_of(active: bool) -> Style {
    style(
        Some(
            if active {
                Color::Cyan
            } else {
                Color::DarkGray
            },
        ),
        None,
        false,
        false,
    )
}

/// The style of the selected row: black on cyan, bold, when the panel is
/// active.
pub open spec fn highlight_of(active: bool) -> Style {
    if active {
        style(Some(Color::Black), Some(Color::Cyan), true, false)
    } else {
        style(Some(Color::White), Some(Color::DarkGray), false, false)
    }
}

/// A bordered list: its title, rows, selected row and styles.
pub struct ListView {
    pub title: String,
    pub items: Vec<Line>,
    pub selected: Option<usize>,
    pub border: Style,
    pub highlight: Style,
}

pub struct ListV {
    pub title: Seq<char>,
    pub items: Seq<Seq<(Seq<char>, Style)>>,
    pub selected: Option<usize>,
    pub border: Style,
    pub highlight: Style,
}

pub open spec fn list_v(l: ListView) -> ListV {
    ListV { title: l.title@, items: lines_v(l.items@), selected: l.selected, border: l.border, highlight: l.highlight }
}

fn sp(text: &str, st: Style) -> (s: Span)
    ensures
        (s.content@, s.style) == (text@, st),
{
    Span { content: text.to_owned(), style: st }
}

fn cat(a: &str, b: &str, c: &str) -> (s: String)
    ensures
        s@ == a@ + b@ + c@,
{
    let mut s = a.to_owned();
    s.append(b);
    s.append(c);
    s
}

// ─── Key hints ───────────────────────────────────────────────────────────────

/// The hint line for the focused panel.
pub open spec fn hint_v(focus: Focus, in_tree: bool, searching: bool) -> Seq<char> {
    if searching && focus == Focus::Detail {
        " type to search  Enter: jump to first  Esc: cancel  Backspace: delete  Ctrl+U: clear"@
    } else {
        match focus {
            Focus::Detail => if in_tree {
                " j/k: navigate  h/l: collapse/expand  f: unfocus  q: quit"@
            } else {
                " j/k: scroll  Ctrl-D/U: half-page  f: focus schema  /: search  n/N: next/prev  gg/G: top/bottom  Esc/h: back  q: quit"@
            },
            Focus::Ops => " j/k: navigate  Ctrl-D/U: half-page  gg/G: top/bottom  /: search  Enter: expand  h: back  q/Esc: quit"@,
            _ => " j/k: navigate  Ctrl-D/U: half-page  gg/G: top/bottom  h/l: columns  /: search  Enter: detail  q/Esc: quit"@,
        }
    }
}

/// The key hints shown at the bottom.
pub fn hint_text(focus: Focus, detail_in_tree: bool, detail_search: &Search) -> (s: &'static str)
    ensures
        s@ == hint_v(focus, detail_in_tree, detail_search.active),
{
    if detail_search.active && focus == Focus::Detail {
        " type to search  Enter: jump to first  Esc: cancel  Backspace: delete  Ctrl+U: clear"
    } else {
        match focus {
            Focus::Detail => if detail_in_tree {
                " j/k: navigate  h/l: collapse/expand  f: unfocus  q: quit"
            } else {
                " j/k: scroll  Ctrl-D/U: half-page  f: focus schema  /: search  n/N: next/prev  gg/G: top/bottom  Esc/h: back  q: quit"
            },
            Focus::Ops => " j/k: navigate  Ctrl-D/U: half-page  gg/G: top/bottom  /: search  Enter: expand  h: back  q/Esc: quit",
            _ => " j/k: navigate  Ctrl-D/U: half-page  gg/G: top/bottom  h/l: columns  /: search  Enter: detail  q/Esc: quit",
        }
    }
}

// ─── Spec list ───────────────────────────────────────────────────────────────

/// The file name of a spec's path, `?` when it has none.
pub open spec fn file_label(p: Seq<char>) -> Seq<char> {
    match file_name_of(p) {
        Some(n) => n,
        None => "?"@,
    }
}

fn file_label_exec(p: &str) -> (s: String)
    ensures
        s@ == file_label(p@),
{
    match path_file_name(p) {
        Some(n) => n,
        None => "?".to_owned(),
    }
}

/// `title v<version> [file]`.
pub open spec fn spec_item_v(s: Spec) -> Seq<(Seq<char>, Style)> {
    seq![
        (s.title@, fg_bold(Color::White)),
        (" "@, unstyled()),
        ("v"@ + s.version@, fg(Color::Cyan)),
        (" "@, unstyled()),
        ("["@ + file_label(s.file_path@) + "]"@, fg(Color::DarkGray)),
    ]
}

pub open spec fn spec_items_v(specs: Seq<Spec>) -> Seq<Seq<(Seq<char>, Style)>> {
    specs.map_values(|s: Spec| spec_item_v(s))
}

fn spec_item(s: &Spec) -> (l: Line)
    ensures
        line_v(l) == spec_item_v(*s),
{
    let mut spans: Vec<Span> = Vec::new();
    spans.push(styled(s.title.clone(), Style::new().fg(Color::White).add_modifier(Modifier::bold())));
    spans.push(raw(" "));
    spans.push(styled(cat("v", s.version.as_str(), ""), Style::new().fg(Color::Cyan)));
    spans.push(raw(" "));
    let f = file_label_exec(s.file_path.as_str());
    spans.push(styled(cat("[", f.as_str(), "]"), Style::new().fg(Color::DarkGray)));
    proof {
        reveal_strlit("");
    }
    let l = Line { spans };
    assert(line_v(l) =~= spec_item_v(*s));
    l
}

// ─── Operation summary ───────────────────────────────────────────────────────

/// The summary panel below the tree.
pub enum SummaryView {
    /// No path is selected: a `Detail` panel saying so.
    NoPath,
    /// The path has no operation: its title and a note.
    NoOperations { title: Line, border: Style },
    /// Nothing is drawn.
    Nothing,
    /// The summary of the selected operation under the path's title.
    Shown { title: Line, lines: Vec<Line>, border: Style },
}

pub enum SummaryV {
    NoPath,
    NoOperations(Seq<(Seq<char>, Style)>, Style),
    Nothing,
    Shown(Seq<(Seq<char>, Style)>, Seq<Seq<(Seq<char>, Style)>>, Style),
}

pub open spec fn summary_v(s: SummaryView) -> SummaryV {
    match s {
        SummaryView::NoPath => SummaryV::NoPath,
        SummaryView::NoOperations { title, border } => SummaryV::NoOperations(line_v(title), border),
        SummaryView::Nothing => SummaryV::Nothing,
        SummaryView::Shown { title, lines, border } => SummaryV::Shown(line_v(title), lines_v(lines@), border),
    }
}

/// ` path ` followed by a `[WH]` badge for webhooks.
pub open spec fn path_title_v(path: Seq<char>, kind: PathKind) -> Seq<(Seq<char>, Style)> {
    let t = seq![(" "@ + path + " "@, unstyled())];
    if kind == PathKind::Webhook {
        t.push(("[WH] "@, style(Some(Color::Black), Some(Color::Magenta), true, false)))
    } else {
        t
    }
}

/// The operation the panels show: the one selected in the filtered
/// operations list, the path's first when the selection is past its end.
pub open spec fn shown_op(a: ApinApp) -> int {
    if 0 <= sel_or_zero(a.ops.selected) < ops_list(a).len() {
        ops_list(a)[sel_or_zero(a.ops.selected)]
    } else {
        0
    }
}

/// The summary panel for the app's selection, `width` cells wide.
pub open spec fn summary_panel(a: ApinApp, width: u16) -> SummaryV {
    let i = spec_index(a);
    let focused = a.focus == Focus::Ops || a.focus == Focus::Tree;
    match selected_path(a) {
        Some(p) => if 0 <= i < a.specs@.len() && p < a.specs@[i].paths@.len() {
            let e = a.specs@[i].paths@[p as int];
            let title = path_title_v(e.path@, e.kind);
            if e.operations@.len() == 0 {
                SummaryV::NoOperations(title, border_of(focused))
            } else if shown_op(a) < e.operations@.len() {
                SummaryV::Shown(title, summary_spans(e.operations@[shown_op(a)], width as nat), border_of(focused))
            } else {
                SummaryV::Nothing
            }
        } else {
            SummaryV::NoPath
        },
        None => SummaryV::NoPath,
    }
}

impl ApinApp {
    /// The rows of the spec list.
    pub fn spec_list_view(&self) -> (r: ListView)
        ensures
            list_v(r) == (ListV {
                title: " Specs "@,
                items: spec_items_v(self.specs@),
                selected: self.specs_selected,
                border: border_of(self.focus == Focus::Specs),
                highlight: highlight_of(self.focus == Focus::Specs),
            }),
    {
        let active = self.focus == Focus::Specs;
        let mut items: Vec<Line> = Vec::new();
        let n = self.specs.len();
        for i in 0..n
            invariant
                n == self.specs@.len(),
                lines_v(items@) == spec_items_v(self.specs@.take(i as int)),
        {
            let ghost before = lines_v(items@);
            items.push(spec_item(&self.specs[i]));
            assert(spec_items_v(self.specs@.take(i + 1)) =~= spec_items_v(self.specs@.take(i as int)).push(
                spec_item_v(self.specs@[i as int]),
            ));
            assert(lines_v(items@) =~= before.push(spec_item_v(self.specs@[i as int])));
        }
        assert(self.specs@.take(n as int) =~= self.specs@);
        ListView {
            title: " Specs ".to_owned(),
            items,
            selected: self.specs_selected,
            border: border_style(active),
            highlight: highlight_style(active),
        }
    }

    /// The summary of the selected operation shown below the tree, for a
    /// panel `width` cells wide.
    pub fn summary_view(&self, width: u16) -> (r: SummaryView)
        ensures
            summary_v(r) == summary_panel(*self, width),
    {
        let focused = self.focus == Focus::Ops || self.focus == Focus::Tree;
        let i = self.selected_spec_index();
        let p = match self.tree() {
            Some(t) => match t.selected_path_index() {
                Some(p) => p,
                None => {
                    return SummaryView::NoPath;
                },
            },
            None => {
                return SummaryView::NoPath;
            },
        };
        if i >= self.specs.len() || p >= self.specs[i].paths.len() {
            return SummaryView::NoPath;
        }
        let entry = &self.specs[i].paths[p];
        let mut spans: Vec<Span> = Vec::new();
        spans.push(styled(cat(" ", entry.path.as_str(), " "), Style::new()));
        if entry.kind == PathKind::Webhook {
            spans.push(sp("[WH] ", Style::new().fg(Color::Black).bg(Color::Magenta).add_modifier(Modifier::bold())));
        }
        let title = Line { spans };
        assert(line_v(title) =~= path_title_v(entry.path@, entry.kind));
        let n_ops = entry.operations.len();
        if n_ops == 0 {
            return SummaryView::NoOperations { title, border: border_style(focused) };
        }
        assert(selected_path(*self) == Some(p));
        assert(selected_ops(*self) == entry.operations@);
        proof {
            crate::session::lemma_op_filter_bounds(selected_ops(*self), self.ops.search.query@);
        }
        let k = match self.selected_operation_index() {
            Some(k) => k,
            None => 0,
        };
        assert(k as int == shown_op(*self));
        if k >= n_ops {
            return SummaryView::Nothing;
        }
        let lines = summary_lines(&entry.operations[k], width);
        SummaryView::Shown { title, lines, border: border_style(focused) }
    }
}


// ─── Tree columns ────────────────────────────────────────────────────────────

/// Narrowest column, in cells.
pub const MIN_COL_WIDTH: u16 = 14;

/// ` title v<version> [file] `, the first column's title.
pub open spec fn spec_title_v(s: Spec) -> Seq<char> {
    " "@ + s.title@ + " v"@ + s.version@ + " ["@ + file_label(s.file_path@) + "] "@
}

/// The row of a tree node: `(self)` for a path's own endpoint, group
/// badges for the `[PATHS]` and `[WEBHOOKS]` groups, an arrow after nodes
/// with children.
pub open spec fn col_item_v(label: Seq<char>, leaf: bool) -> Seq<(Seq<char>, Style)> {
    let shown = if label == "."@ {
        "(self)"@
    } else {
        label
    };
    if label == "__paths__"@ {
        seq![("[PATHS]"@, fg_bold(Color::Cyan)), (" ›"@, fg(Color::DarkGray))]
    } else if label == "__webhooks__"@ {
        seq![("[WEBHOOKS]"@, fg_bold(Color::Magenta)), (" ›"@, fg(Color::DarkGray))]
    } else if leaf {
        seq![(shown, fg(Color::White))]
    } else {
        seq![(shown, unstyled()), (" ›"@, fg(Color::DarkGray))]
    }
}

fn col_item(label: &str, leaf: bool) -> (l: Line)
    ensures
        line_v(l) == col_item_v(label@, leaf),
{
    let lv = chars_of(label);
    let is_self = crate::text::chars_eq(&lv, &chars_of("."));
    let shown: &str = if is_self {
        "(self)"
    } else {
        label
    };
    let mut spans: Vec<Span> = Vec::new();
    if crate::text::chars_eq(&lv, &chars_of("__paths__")) {
        spans.push(sp("[PATHS]", Style::new().fg(Color::Cyan).add_modifier(Modifier::bold())));
        spans.push(sp(" ›", Style::new().fg(Color::DarkGray)));
    } else if crate::text::chars_eq(&lv, &chars_of("__webhooks__")) {
        spans.push(sp("[WEBHOOKS]", Style::new().fg(Color::Magenta).add_modifier(Modifier::bold())));
        spans.push(sp(" ›", Style::new().fg(Color::DarkGray)));
    } else if leaf {
        spans.push(sp(shown, Style::new().fg(Color::White)));
    } else {
        spans.push(raw(shown));
        spans.push(sp(" ›", Style::new().fg(Color::DarkGray)));
    }
    let l = Line { spans };
    assert(line_v(l) =~= col_item_v(label@, leaf));
    l
}

/// A column's title while its search is shown: ` /query_` after the
/// title.
pub open spec fn col_title_v(title: Seq<char>, active: bool, q: Seq<char>, search_active: bool) -> Seq<char> {
    if active && (q.len() > 0 || search_active) {
        trim_end(title) + " /"@ + q + (if search_active {
            "_"@
        } else {
            ""@
        }) + " "@
    } else {
        title
    }
}

/// The rows of the children of a node.
pub open spec fn child_items_v(ch: Seq<PathNode>) -> Seq<Seq<(Seq<char>, Style)>> {
    ch.map_values(|n: PathNode| col_item_v(n.label@, n.children@.len() == 0))
}

/// The rows of the children kept by the search, in order.
pub open spec fn filtered_items_v(ch: Seq<PathNode>, f: Seq<int>) -> Seq<Seq<(Seq<char>, Style)>> {
    f.map_values(|i: int| col_item_v(ch[i].label@, ch[i].children@.len() == 0))
}

/// Tree column `c` of cursor `t`; `None` when the column has no parent
/// node to list.
pub open spec fn tree_col_v(t: TreeCursor, c: int, first_title: Seq<char>, tree_focused: bool) -> Option<ListV> {
    let active = tree_focused && c == t.active_col;
    let title = if c == 0 {
        first_title
    } else {
        " /"@ + join_slash(crumbs(t.root, t.levels@, c)) + " "@
    };
    let q = t.search.query@;
    if active && q.len() > 0 {
        let f = col_filter(t);
        Some(
            ListV {
                title: col_title_v(title, active, q, t.search.active),
                items: filtered_items_v(col_children(t.root, t.levels@, t.active_col as int), f),
                selected: Some(cursor_pos(f, raw_sel(t.levels@, t.active_col as int)) as usize),
                border: if t.search.active {
                    fg(Color::Yellow)
                } else {
                    border_of(active)
                },
                highlight: highlight_of(active),
            },
        )
    } else {
        let parent = if c == 0 {
            Some(t.root)
        } else {
            node_at(t.root, t.levels@, c - 1)
        };
        let search_active = active && t.search.active;
        match parent {
            Some(p) => Some(
                ListV {
                    title: col_title_v(
                        title,
                        active,
                        if active {
                            q
                        } else {
                            Seq::empty()
                        },
                        search_active,
                    ),
                    items: child_items_v(p.children@),
                    selected: Some(raw_sel(t.levels@, c) as usize),
                    border: if search_active {
                        fg(Color::Yellow)
                    } else {
                        border_of(active)
                    },
                    highlight: highlight_of(active),
                },
            ),
            None => None,
        }
    }
}

fn col_title(title: String, active: bool, q: &str, search_active: bool) -> (s: String)
    ensures
        s@ == col_title_v(title@, active, q@, search_active),
{
    if active && (chars_of(q).len() > 0 || search_active) {
        let t = string_of(&trim_end_chars(&chars_of(title.as_str())));
        let mut s = cat(t.as_str(), " /", q);
        if search_active {
            s.append("_");
        } else {
            s.append("");
        }
        s.append(" ");
        proof {
            reveal_strlit("");
        }
        s
    } else {
        title
    }
}

fn tree_column(t: &TreeCursor, c: usize, first_title: &str, tree_focused: bool) -> (r: Option<ListView>)
    ensures
        match r {
            Some(l) => tree_col_v(*t, c as int, first_title@, tree_focused) == Some(list_v(l)),
            None => tree_col_v(*t, c as int, first_title@, tree_focused) is None,
        },
{
    let active = tree_focused && c == t.active_col;
    let title = if c == 0 {
        first_title.to_owned()
    } else {
        cat(" /", t.breadcrumb(c).as_str(), " ")
    };
    let qv = chars_of(t.search.query.as_str());
    let raw_selected = if c < t.levels.len() {
        t.levels[c].selected
    } else {
        0
    };
    if active && qv.len() > 0 {
        let filtered = t.filtered_children();
        let cursor = t.filtered_cursor();
        let ghost ch = col_children(t.root, t.levels@, t.active_col as int);
        let ghost f = col_filter(*t);
        let mut items: Vec<Line> = Vec::new();
        let n = filtered.len();
        for k in 0..n
            invariant
                n == filtered@.len(),
                n == f.len(),
                f == col_filter(*t),
                ch == col_children(t.root, t.levels@, t.active_col as int),
                forall|j: int|
                    0 <= j < n ==> {
                        &&& (#[trigger] filtered@[j]).0 as int == f[j]
                        &&& filtered@[j].1@ == ch[filtered@[j].0 as int].label@
                        &&& filtered@[j].2 == (ch[filtered@[j].0 as int].children@.len() == 0)
                    },
                lines_v(items@) == filtered_items_v(ch, f.take(k as int)),
        {
            let (_, label, leaf) = filtered[k];
            let ghost before = lines_v(items@);
            items.push(col_item(label, leaf));
            assert(filtered_items_v(ch, f.take(k + 1)) =~= filtered_items_v(ch, f.take(k as int)).push(
                col_item_v(label@, leaf),
            ));
            assert(lines_v(items@) =~= before.push(col_item_v(label@, leaf)));
        }
        assert(f.take(n as int) =~= f);
        let border = if t.search.active {
            Style::new().fg(Color::Yellow)
        } else {
            border_style(active)
        };
        let title = col_title(title, active, t.search.query.as_str(), t.search.active);
        return Some(ListView { title, items, selected: Some(cursor), border, highlight: highlight_style(active) });
    }
    let parent: &PathNode = if c == 0 {
        &t.root
    } else {
        match t.node_at_depth(c - 1) {
            Some(n) => n,
            None => {
                return None;
            },
        }
    };
    let search_active = active && t.search.active;
    let mut items: Vec<Line> = Vec::new();
    let n = parent.children.len();
    for k in 0..n
        invariant
            n == parent.children@.len(),
            lines_v(items@) == child_items_v(parent.children@.take(k as int)),
    {
        let child = &parent.children[k];
        let ghost before = lines_v(items@);
        items.push(col_item(child.label.as_str(), child.is_leaf()));
        assert(child_items_v(parent.children@.take(k + 1)) =~= child_items_v(parent.children@.take(k as int)).push(
            col_item_v(child.label@, child.children@.len() == 0),
        ));
        assert(lines_v(items@) =~= before.push(col_item_v(child.label@, child.children@.len() == 0)));
    }
    assert(parent.children@.take(n as int) =~= parent.children@);
    let border = if search_active {
        Style::new().fg(Color::Yellow)
    } else {
        border_style(active)
    };
    let q: &str = if active {
        t.search.query.as_str()
    } else {
        ""
    };
    proof {
        reveal_strlit("");
    }
    let title = col_title(title, active, q, search_active);
    Some(ListView { title, items, selected: Some(raw_selected), border, highlight: highlight_style(active) })
}

// ─── Methods column ──────────────────────────────────────────────────────────

/// Positions of the operations whose method matches the query.
pub open spec fn method_filter(ops: Seq<Operation>, q: Seq<char>) -> Seq<int>
    decreases ops.len(),
{
    if ops.len() == 0 {
        Seq::empty()
    } else if query_matches(q, ops.last().method@) {
        method_filter(ops.drop_last(), q).push(ops.len() - 1)
    } else {
        method_filter(ops.drop_last(), q)
    }
}

/// One of the methods with a badge colour of its own.
pub open spec fn known_method(m: Seq<char>) -> bool {
    m == "GET"@ || m == "POST"@ || m == "PUT"@ || m == "PATCH"@ || m == "DELETE"@
}

/// The style of a method badge; deprecated ones are struck through, and
/// dimmed when their badge is coloured.
pub open spec fn method_item_style(o: Operation) -> Style {
    let base = with_bold(method_style(o.method@));
    if o.deprecated {
        let crossed = Style { add_modifier: Modifier { crossed_out: true, ..base.add_modifier }, ..base };
        if known_method(o.method@) {
            Style { fg: Some(Color::DarkGray), ..crossed }
        } else {
            crossed
        }
    } else {
        base
    }
}

/// ` METHOD ` with ` [deprecated]` after deprecated operations.
pub open spec fn method_item_v(o: Operation) -> Seq<(Seq<char>, Style)> {
    let badge = seq![(" "@ + o.method@ + " "@, method_item_style(o))];
    if o.deprecated {
        badge.push((" [deprecated]"@, fg(Color::DarkGray)))
    } else {
        badge
    }
}

pub open spec fn method_items_v(ops: Seq<Operation>, f: Seq<int>) -> Seq<Seq<(Seq<char>, Style)>> {
    f.map_values(|i: int| method_item_v(ops[i]))
}

/// ` Methods ` with ` /query_` while its search is shown.
pub open spec fn methods_title_v(q: Seq<char>, active: bool) -> Seq<char> {
    if q.len() > 0 || active {
        " Methods /"@ + q + (if active {
            "_"@
        } else {
            ""@
        }) + " "@
    } else {
        " Methods "@
    }
}

fn method_item(o: &Operation) -> (l: Line)
    ensures
        line_v(l) == method_item_v(*o),
{
    let base = method_color(o.method.as_str()).add_modifier(Modifier::bold());
    let st = if o.deprecated {
        let m = o.method.as_str();
        let known = crate::text::str_eq(m, "GET") || crate::text::str_eq(m, "POST") || crate::text::str_eq(m, "PUT")
            || crate::text::str_eq(m, "PATCH") || crate::text::str_eq(m, "DELETE");
        if known {
            base.add_modifier(Modifier::crossed_out()).fg(Color::DarkGray)
        } else {
            base.add_modifier(Modifier::crossed_out())
        }
    } else {
        base
    };
    let mut spans: Vec<Span> = Vec::new();
    spans.push(styled(cat(" ", o.method.as_str(), " "), st));
    if o.deprecated {
        spans.push(sp(" [deprecated]", Style::new().fg(Color::DarkGray)));
    }
    let l = Line { spans };
    assert(line_v(l) =~= method_item_v(*o));
    l
}

fn methods_title(q: &str, active: bool) -> (s: String)
    ensures
        s@ == methods_title_v(q@, active),
{
    proof {
        reveal_strlit("");
    }
    if chars_of(q).len() > 0 || active {
        let mut s = cat(" Methods /", q, "");
        if active {
            s.append("_");
        } else {
            s.append("");
        }
        s.append(" ");
        s
    } else {
        " Methods ".to_owned()
    }
}

/// The methods column for the operations `ops` under the search `search`.
fn methods_column(ops: &Vec<Operation>, search: &Search, focused: bool) -> (r: (ListView, usize))
    ensures
        r.1 == method_filter(ops@, search.query@).len(),
        list_v(r.0).title == methods_title_v(search.query@, search.active),
        list_v(r.0).items == method_items_v(ops@, method_filter(ops@, search.query@)),
        r.0.border == (if search.active {
            fg(Color::Yellow)
        } else {
            border_of(focused)
        }),
        r.0.highlight == highlight_of(focused),
{
    let mut items: Vec<Line> = Vec::new();
    let mut count: usize = 0;
    let n = ops.len();
    for i in 0..n
        invariant
            n == ops@.len(),
            count == method_filter(ops@.take(i as int), search.query@).len(),
            count <= i,
            lines_v(items@) == method_items_v(ops@, method_filter(ops@.take(i as int), search.query@)),
    {
        let ghost f0 = method_filter(ops@.take(i as int), search.query@);
        proof {
            assert(ops@.take(i + 1).drop_last() =~= ops@.take(i as int));
            assert(ops@.take(i + 1).last() == ops@[i as int]);
        }
        if search.matches(ops[i].method.as_str()) {
            let ghost before = lines_v(items@);
            items.push(method_item(&ops[i]));
            count = count + 1;
            proof {
                let f1 = method_filter(ops@.take(i + 1), search.query@);
                assert(f1 == f0.push(i as int));
                assert(method_items_v(ops@, f1) =~= method_items_v(ops@, f0).push(method_item_v(ops@[i as int])));
                assert(lines_v(items@) =~= before.push(method_item_v(ops@[i as int])));
            }
        }
    }
    assert(ops@.take(n as int) =~= ops@);
    let border = if search.active {
        Style::new().fg(Color::Yellow)
    } else {
        border_style(focused)
    };
    let title = methods_title(search.query.as_str(), search.active);
    (ListView { title, items, selected: None, border, highlight: highlight_style(focused) }, count)
}


// ─── The tree area ───────────────────────────────────────────────────────────

/// What the tree area shows.
pub enum ColumnsView {
    /// No column: a panel with this title saying there are no paths.
    Empty { title: String },
    /// `slots` equal columns, filled from the left with these (a `None`
    /// column is left blank).
    Columns { slots: usize, columns: Vec<Option<ListView>> },
}

pub enum ColumnsV {
    Empty(Seq<char>),
    Columns(nat, Seq<Option<ListV>>),
}

pub open spec fn opt_list_v(o: Option<ListView>) -> Option<ListV> {
    match o {
        Some(l) => Some(list_v(l)),
        None => None,
    }
}

pub open spec fn columns_v(c: ColumnsView) -> ColumnsV {
    match c {
        ColumnsView::Empty { title } => ColumnsV::Empty(title@),
        ColumnsView::Columns { slots, columns } => ColumnsV::Columns(
            slots as nat,
            columns@.map_values(|o: Option<ListView>| opt_list_v(o)),
        ),
    }
}

/// The title of the first column.
pub open spec fn first_title(a: ApinApp) -> Seq<char> {
    if 0 <= spec_index(a) < a.specs@.len() {
        spec_title_v(a.specs@[spec_index(a)])
    } else {
        " Paths "@
    }
}

/// Which columns are shown: the tree's columns and, when the selected path
/// has operations, the methods column after them; a window of as many as
/// fit (at least one) that keeps the active column in view.
pub struct ColLayout {
    pub tcols: int,
    pub total: int,
    pub visible: int,
    pub start: int,
    pub end: int,
    pub show_ops: bool,
}

/// The column the focus is on: the methods column (after the tree's
/// columns) when the operations panel has it, else the tree's active
/// column.
pub open spec fn active_column(a: ApinApp) -> int {
    let i = spec_index(a);
    if 0 <= i < a.trees@.len() {
        if a.focus == Focus::Ops {
            a.trees@[i].levels@.len() as int
        } else {
            a.trees@[i].active_col as int
        }
    } else {
        0
    }
}

pub open spec fn col_layout(a: ApinApp, width: u16) -> ColLayout {
    let i = spec_index(a);
    let has_tree = 0 <= i < a.trees@.len();
    let tcols = if has_tree {
        a.trees@[i].levels@.len() as int
    } else {
        0
    };
    let tactive = if has_tree {
        a.trees@[i].active_col as int
    } else {
        0
    };
    let show_ops = selected_ops(a).len() > 0;
    let total = if show_ops {
        if tcols + 1 > usize::MAX {
            usize::MAX as int
        } else {
            tcols + 1
        }
    } else {
        tcols
    };
    let logical = active_column(a);
    let max_visible = if width / MIN_COL_WIDTH >= 1 {
        (width / MIN_COL_WIDTH) as int
    } else {
        1
    };
    let visible = if total < max_visible {
        total
    } else {
        max_visible
    };
    let next = if logical + 1 > usize::MAX {
        usize::MAX as int
    } else {
        logical + 1
    };
    let start = if next >= visible {
        next - visible
    } else {
        0
    };
    let fitted = if start + visible < total {
        start + visible
    } else {
        total
    };
    let end = if fitted >= start {
        fitted
    } else {
        start
    };
    ColLayout { tcols, total, visible, start, end, show_ops }
}

/// Whether the methods column is among the shown columns.
pub open spec fn shows_methods(c: ColLayout) -> bool {
    c.show_ops && c.start <= c.tcols < c.end
}

/// The methods column of the operations `ops` with the operations state
/// `o`.
pub open spec fn methods_list_v(ops: Seq<Operation>, o: crate::nav::OpsState, focused: bool) -> ListV {
    ListV {
        title: methods_title_v(o.search.query@, o.search.active),
        items: method_items_v(ops, method_filter(ops, o.search.query@)),
        selected: o.selected,
        border: if o.search.active {
            fg(Color::Yellow)
        } else {
            border_of(focused)
        },
        highlight: highlight_of(focused),
    }
}

/// Column `col` of the tree area.
pub open spec fn column_at(a: ApinApp, o: crate::nav::OpsState, c: ColLayout, col: int) -> Option<ListV> {
    if c.show_ops && col == c.tcols {
        Some(methods_list_v(selected_ops(a), o, a.focus == Focus::Ops))
    } else if 0 <= spec_index(a) < a.trees@.len() {
        tree_col_v(a.trees@[spec_index(a)], col, first_title(a), a.focus == Focus::Tree)
    } else {
        None
    }
}

/// The tree area of `a`, `width` cells wide, drawn with the operations
/// state `o` (the state after drawing).
pub open spec fn columns_spec(a: ApinApp, o: crate::nav::OpsState, width: u16) -> ColumnsV {
    let c = col_layout(a, width);
    if c.total == 0 {
        ColumnsV::Empty(first_title(a))
    } else {
        ColumnsV::Columns(c.visible as nat, Seq::new((c.end - c.start) as nat, |j: int| column_at(a, o, c, c.start + j)))
    }
}

/// The selection of the operations list once synced with the selected
/// path: kept for the same path, reset to the first row for another.
pub open spec fn synced_selection(a: ApinApp) -> Option<usize> {
    if a.ops.path_index == selected_path(a) {
        a.ops.selected
    } else if selected_ops(a).len() > 0 {
        Some(0usize)
    } else {
        None
    }
}

fn spec_title(s: &Spec) -> (t: String)
    ensures
        t@ == spec_title_v(*s),
{
    let mut t = cat(" ", s.title.as_str(), " v");
    t.append(s.version.as_str());
    t.append(" [");
    let f = file_label_exec(s.file_path.as_str());
    t.append(f.as_str());
    t.append("] ");
    t
}

impl ApinApp {
    /// Works out the tree columns and the methods column for an area
    /// `width` cells wide; syncs the operations state with the selected
    /// path and keeps its selection inside the methods shown.
    #[verifier::rlimit(40)]
    pub fn columns_view(&mut self, width: u16) -> (r: ColumnsView)
        ensures
            final(self).specs == old(self).specs,
            final(self).trees == old(self).trees,
            final(self).focus == old(self).focus,
            final(self).specs_selected == old(self).specs_selected,
            final(self).detail == old(self).detail,
            final(self).specs_done == old(self).specs_done,
            final(self).spinner == old(self).spinner,
            final(self).ops.path_index == selected_path(*old(self)),
            old(self).ops.path_index == selected_path(*old(self)) ==> final(self).ops.search == old(self).ops.search,
            old(self).ops.path_index != selected_path(*old(self)) ==> final(self).ops.search.query@.len() == 0
                && !final(self).ops.search.active,
            final(self).ops.selected == (if shows_methods(col_layout(*old(self), width)) {
                clamp_sel(
                    synced_selection(*old(self)),
                    method_filter(selected_ops(*old(self)), final(self).ops.search.query@).len() as int,
                )
            } else {
                synced_selection(*old(self))
            }),
            columns_v(r) == columns_spec(*old(self), final(self).ops, width),
    {
        let ghost a = *self;
        let i = self.selected_spec_index();
        let tree_focused = self.focus == Focus::Tree;
        let ops_focused = self.focus == Focus::Ops;
        let (tcols, tactive) = match self.tree() {
            Some(t) => (t.col_count(), t.active_col),
            None => (0, 0),
        };
        let first: String = if i < self.specs.len() {
            spec_title(&self.specs[i])
        } else {
            " Paths ".to_owned()
        };
        let p = match self.tree() {
            Some(t) => t.selected_path_index(),
            None => None,
        };
        assert(p == selected_path(a));
        let n_ops: usize = match p {
            Some(pi) => if i < self.specs.len() && pi < self.specs[i].paths.len() {
                self.specs[i].paths[pi].operations.len()
            } else {
                0
            },
            None => 0,
        };
        assert(n_ops == selected_ops(a).len());
        self.ops.sync(p, n_ops);
        let ghost mid = self.ops;
        let show_ops = n_ops > 0;
        let total = if show_ops {
            tcols.saturating_add(1)
        } else {
            tcols
        };
        let ghost c = col_layout(a, width);
        if total == 0 {
            let r = ColumnsView::Empty { title: first };
            assert(columns_v(r) == columns_spec(a, self.ops, width));
            return r;
        }
        let logical = if ops_focused {
            tcols
        } else {
            tactive
        };
        let per = (width / MIN_COL_WIDTH) as usize;
        let max_visible = if per >= 1 {
            per
        } else {
            1
        };
        let visible = if total < max_visible {
            total
        } else {
            max_visible
        };
        let start = logical.saturating_add(1).saturating_sub(visible);
        let fitted = if start + visible < total {
            start + visible
        } else {
            total
        };
        let end = if fitted >= start {
            fitted
        } else {
            start
        };
        assert(c.tcols == tcols && c.total == total && c.visible == visible && c.start == start && c.end == end
            && c.show_ops == show_ops);
        let mut cols: Vec<Option<ListView>> = Vec::new();
        let ghost first_v = first@;
        assert(first_v == first_title(a));
        for col in start..end
            invariant
                a.specs == self.specs,
                a.trees == self.trees,
                a.focus == self.focus,
                a.specs_selected == self.specs_selected,
                a.detail == self.detail,
                a.specs_done == self.specs_done,
                a.spinner == self.spinner,
                i == spec_index(a),
                first@ == first_title(a),
                tree_focused == (a.focus == Focus::Tree),
                ops_focused == (a.focus == Focus::Ops),
                c == col_layout(a, width),
                c.tcols == tcols,
                c.start == start,
                c.end == end,
                c.show_ops == show_ops,
                show_ops == (n_ops > 0),
                n_ops == selected_ops(a).len(),
                p == selected_path(a),
                self.ops.path_index == mid.path_index,
                self.ops.search == mid.search,
                self.ops.selected == (if show_ops && start <= tcols < col {
                    clamp_sel(mid.selected, method_filter(selected_ops(a), mid.search.query@).len() as int)
                } else {
                    mid.selected
                }),
                cols@.len() == col - start,
                forall|j: int|
                    0 <= j < cols@.len() ==> opt_list_v(#[trigger] cols@[j]) == column_at(
                        a,
                        if show_ops && start <= tcols < end {
                            crate::nav::OpsState {
                                selected: clamp_sel(
                                    mid.selected,
                                    method_filter(selected_ops(a), mid.search.query@).len() as int,
                                ),
                                ..mid
                            }
                        } else {
                            mid
                        },
                        c,
                        start + j,
                    ),
        {
            let ghost before = cols@;
            if show_ops && col == tcols {
                match p {
                    Some(pi) => {
                        assert(i < self.specs.len() && pi < self.specs[i as int].paths@.len());
                        let ops_vec = &self.specs[i].paths[pi].operations;
                        assert(ops_vec@ == selected_ops(a));
                        let (lv, len) = methods_column(ops_vec, &self.ops.search, ops_focused);
                        self.ops.clamp(len);
                        let l = ListView { selected: self.ops.selected, ..lv };
                        cols.push(Some(l));
                    },
                    None => {
                        cols.push(None);
                    },
                }
            } else {
                match self.tree() {
                    Some(t) => cols.push(tree_column(t, col, first.as_str(), tree_focused)),
                    None => cols.push(None),
                }
            }
            proof {
                assert forall|j: int| 0 <= j < cols@.len() implies opt_list_v(#[trigger] cols@[j]) == column_at(
                    a,
                    if show_ops && start <= tcols < end {
                        crate::nav::OpsState {
                            selected: clamp_sel(
                                mid.selected,
                                method_filter(selected_ops(a), mid.search.query@).len() as int,
                            ),
                            ..mid
                        }
                    } else {
                        mid
                    },
                    c,
                    start + j,
                ) by {
                    if j < before.len() {
                        assert(cols@[j] == before[j]);
                    }
                }
            }
        }
        let r = ColumnsView::Columns { slots: visible, columns: cols };
        proof {
            assert(self.ops == (if show_ops && start <= tcols < end {
                crate::nav::OpsState {
                    selected: clamp_sel(mid.selected, method_filter(selected_ops(a), mid.search.query@).len() as int),
                    ..mid
                }
            } else {
                mid
            }));
            if let ColumnsV::Columns(_, s) = columns_v(r) {
                assert(s =~= Seq::new((c.end - c.start) as nat, |j: int| column_at(a, self.ops, c, c.start + j)));
            }
        }
        r
    }
}


// ─── The whole screen ────────────────────────────────────────────────────────

/// How the screen is divided.
#[derive(Debug, Clone, Copy, PartialEq, Eq, Structural)]
pub enum FrameKind {
    /// The detail fills the screen above the hint line.
    Detail,
    /// Tree columns above the summary, with the spec list on the left
    /// when more than one spec is loaded.
    Panels { spec_list: bool },
}

impl ApinApp {
    /// How the screen is divided for the current focus and spec count.
    pub fn frame_kind(&self) -> (k: FrameKind)
        ensures
            k == (if self.focus == Focus::Detail {
                FrameKind::Detail
            } else {
                FrameKind::Panels { spec_list: self.specs@.len() > 1 }
            }),
    {
        if self.focus == Focus::Detail {
            FrameKind::Detail
        } else {
            FrameKind::Panels { spec_list: self.specs.len() > 1 }
        }
    }
}


/// The window of shown columns always holds the column the focus is on,
/// shows at least one column, and never more than fit.
pub proof fn lemma_active_column_shown(a: ApinApp, width: u16)
    requires
        col_layout(a, width).tcols <= usize::MAX,
        active_column(a) < col_layout(a, width).total,
    ensures
        col_layout(a, width).start <= active_column(a) < col_layout(a, width).end,
        col_layout(a, width).visible >= 1,
        col_layout(a, width).end - col_layout(a, width).start <= col_layout(a, width).visible,
{
    let c = col_layout(a, width);
    let act = active_column(a);
    assert(act >= 0);
    assert(c.total >= 1);
    assert(c.visible >= 1);
    assert(c.total <= usize::MAX);
    let next = act + 1;
    if next >= c.visible {
        assert(c.start == next - c.visible);
    } else {
        assert(c.start == 0);
    }
    assert(c.start <= act);
    assert(c.start + c.visible > act);
}
} // verus!
