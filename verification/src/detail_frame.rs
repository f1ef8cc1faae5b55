//! Everything the full-screen detail shows, worked out before drawing: the
//! virtual layout of text and schema trees, the search matches, the title,
//! the clamped scroll offset and the visible segments.
use vstd::prelude::*;

use tui_tree_widget::TreeState;

use crate::detail::{
    last_biggest_of, new_tree_state, offset_of, opened_of, selected_of, tree_offset, tree_opened, tree_scroll_down,
    tree_scroll_up, DetailView,
};
use crate::detail_page::{detail_text, fg, has_schema, text_above, text_below};
use crate::lines::{line_v, lines_v, Line};
use crate::model::{Operation, PathKind, Response, SchemaNode, Spec};
use crate::nav::{query_matches, sel_or_zero, OpsState, TreeCursor};
use crate::schema_view::{
    count_visible_tree_rows, highlight_all, highlight_matched_lines, ids_fit, items_v, line_plain_text,
    plain, rows_seq, schema_children_to_tree_items, schema_effective_roots, shows_items, sizes,
    to_items, ItemV, SchemaItem,
};
use crate::session::{ops_list, selected_path, spec_index, ApinApp};
use crate::styles::{style, Color, Style};
use crate::text::{chars_of, contains, contains_exec, dec, lower, lower_chars, push_dec};

verus! {

// ─── Schema trees ────────────────────────────────────────────────────────────

/// The nodes a schema tree lists (an array lists its items' children) and
/// the identifier of the first.
pub open spec fn tree_roots(n: SchemaNode) -> (Seq<SchemaNode>, nat) {
    if shows_items(n) {
        (n.children@[0].children@, 2nat)
    } else {
        (n.children@, 1nat)
    }
}

/// The rows a tree with these roots shows; none when it has no root (or its
/// identifiers would not fit a `usize`).
pub open spec fn tree_rows(roots: Seq<SchemaNode>, id: nat, opened: Set<Seq<usize>>) -> nat {
    if roots.len() > 0 && id + sizes(roots) <= usize::MAX {
        rows_seq(roots, Seq::empty(), id, opened)
    } else {
        0
    }
}

/// The roots of the request-body tree, when there is one.
pub open spec fn req_tree(o: Operation) -> Option<(Seq<SchemaNode>, nat)> {
    match o.request_body {
        Some(rb) => match rb.schema_tree {
            Some(t) => Some(tree_roots(t)),
            None => None,
        },
        None => None,
    }
}

/// The rows of the request-body tree.
pub open spec fn req_rows(o: Operation, opened: Set<Seq<usize>>) -> nat {
    match req_tree(o) {
        Some(p) => tree_rows(p.0, p.1, opened),
        None => 0,
    }
}

/// The trees of the responses that have one, in order.
pub open spec fn slots_of(rs: Seq<Response>) -> Seq<(Seq<SchemaNode>, nat)>
    decreases rs.len(),
{
    if rs.len() == 0 {
        Seq::empty()
    } else {
        match rs.last().schema_tree {
            Some(t) => slots_of(rs.drop_last()).push(tree_roots(t)),
            None => slots_of(rs.drop_last()),
        }
    }
}

pub open spec fn slots_v(s: Seq<(&Vec<SchemaNode>, usize)>) -> Seq<(Seq<SchemaNode>, nat)> {
    s.map_values(|p: (&Vec<SchemaNode>, usize)| (p.0@, p.1 as nat))
}

fn tree_rows_exec(roots: &Vec<SchemaNode>, id: usize, state: &TreeState<usize>) -> (r: usize)
    ensures
        r == tree_rows(roots@, id as nat, opened_of(*state)),
{
    if roots.len() > 0 && ids_fit(roots, id) {
        let opened = tree_opened(state);
        count_visible_tree_rows(roots, id, &opened)
    } else {
        0
    }
}

fn resp_slots(rs: &Vec<Response>) -> (r: Vec<(&Vec<SchemaNode>, usize)>)
    ensures
        slots_v(r@) == slots_of(rs@),
{
    let mut out: Vec<(&Vec<SchemaNode>, usize)> = Vec::new();
    let n = rs.len();
    for i in 0..n
        invariant
            n == rs@.len(),
            slots_v(out@) == slots_of(rs@.take(i as int)),
    {
        proof {
            assert(rs@.take(i + 1).drop_last() =~= rs@.take(i as int));
            assert(rs@.take(i + 1).last() == rs@[i as int]);
        }
        match &rs[i].schema_tree {
            Some(t) => {
                let (_, ch, id) = schema_effective_roots(t);
                let ghost before = slots_v(out@);
                out.push((ch, id));
                assert(slots_v(out@) =~= before.push(tree_roots(*t)));
            },
            None => {},
        }
    }
    assert(rs@.take(n as int) =~= rs@);
    out
}

// ─── Virtual layout ──────────────────────────────────────────────────────────

/// `x`, at most `usize::MAX`.
pub open spec fn sat(x: int) -> int {
    if x > usize::MAX {
        usize::MAX as int
    } else {
        x
    }
}

/// Where a run of blocks of these heights ends when it starts at `base`.
pub open spec fn end_of(base: int, lens: Seq<nat>) -> int
    decreases lens.len(),
{
    if lens.len() == 0 {
        base
    } else {
        sat(end_of(base, lens.drop_last()) + lens.last())
    }
}

/// The open nodes of state `k`, none for a state not created yet.
pub open spec fn opened_at(states: Seq<TreeState<usize>>, k: int) -> Set<Seq<usize>> {
    if 0 <= k < states.len() {
        opened_of(states[k])
    } else {
        Set::empty()
    }
}

/// The rows of each response tree: only the focused one is shown.
pub open spec fn slot_lens(slots: Seq<(Seq<SchemaNode>, nat)>, focused: Option<usize>, states: Seq<
    TreeState<usize>,
>) -> Seq<nat> {
    Seq::new(
        slots.len(),
        |k: int|
            if focused == Some(k as usize) {
                tree_rows(slots[k].0, slots[k].1, opened_at(states, k))
            } else {
                0
            },
    )
}

/// Whether some response tree shows a row.
pub open spec fn any_rows(lens: Seq<nat>) -> bool {
    exists|k: int| 0 <= k < lens.len() && lens[k] > 0
}

/// Blank rows kept below a focused response tree.
pub const FOOTER_PAD: usize = 3;

/// The numbers of the virtual layout: text above, request tree, text
/// below, each response tree, padding.
pub struct LayoutV {
    pub above: nat,
    pub req: nat,
    pub below_start: int,
    pub below_end: int,
    pub lens: Seq<nat>,
    pub starts: Seq<int>,
    pub pad_start: int,
    pub total: int,
}

/// The layout of the detail of `o` in a view `w` columns wide, given the
/// view's state before drawing.
#[verifier::opaque]
pub open spec fn layout_of(d: DetailView, o: Operation, path: Seq<char>, webhook: bool, w: nat) -> LayoutV {
    let above = text_above(o, path, webhook, w).len();
    let req = req_rows(o, opened_of(d.schema_tree_state));
    let below_start = sat((above + req) as int);
    let below_end = sat(below_start + text_below(o, w).len());
    let lens = slot_lens(slots_of(o.responses@), d.focused_resp_tree, d.resp_tree_states@);
    let pad_start = end_of(below_end, lens);
    LayoutV {
        above,
        req,
        below_start,
        below_end,
        lens,
        starts: Seq::new(lens.len(), |k: int| end_of(below_end, lens.take(k))),
        pad_start,
        total: if d.focused_resp_tree is Some && any_rows(lens) {
            sat(pad_start + FOOTER_PAD)
        } else {
            pad_start
        },
    }
}

proof fn lemma_end_of_bounds(base: int, lens: Seq<nat>)
    requires
        0 <= base <= usize::MAX,
    ensures
        base <= end_of(base, lens) <= usize::MAX,
    decreases lens.len(),
{
    if lens.len() > 0 {
        lemma_end_of_bounds(base, lens.drop_last());
    }
}

// ─── Search ──────────────────────────────────────────────────────────────────

/// Positions (from `off`) of the lines whose text contains the query,
/// ignoring ASCII case.
pub open spec fn hits(ls: Seq<Seq<(Seq<char>, Style)>>, q: Seq<char>, off: int) -> Seq<usize>
    decreases ls.len(),
{
    if ls.len() == 0 {
        Seq::empty()
    } else if contains(lower(plain(ls.last())), lower(q)) {
        hits(ls.drop_last(), q, off).push(sat(off + ls.len() - 1) as usize)
    } else {
        hits(ls.drop_last(), q, off)
    }
}

/// The search matches after drawing: the hits above and below the request
/// tree, none when the query is empty.
#[verifier::opaque]
pub open spec fn matches_after(d: DetailView, o: Operation, path: Seq<char>, webhook: bool, w: nat) -> Seq<
    usize,
> {
    if d.search.query@.len() == 0 {
        Seq::empty()
    } else {
        hits(text_above(o, path, webhook, w), d.search.query@, 0) + hits(
            text_below(o, w),
            d.search.query@,
            layout_of(d, o, path, webhook, w).below_start,
        )
    }
}

fn line_hits(ls: &Vec<Line>, q: &Vec<char>, off: usize, out: &mut Vec<usize>)
    ensures
        final(out)@ == old(out)@ + hits(lines_v(ls@), q@, off as int),
{
    let lq = lower_chars(q);
    let n = ls.len();
    let ghost lv = lines_v(ls@);
    for i in 0..n
        invariant
            n == ls@.len(),
            lv == lines_v(ls@),
            lq@ == lower(q@),
            out@ == old(out)@ + hits(lv.take(i as int), q@, off as int),
    {
        proof {
            assert(lv.take(i + 1).drop_last() =~= lv.take(i as int));
            assert(lv.take(i + 1).last() == line_v(ls@[i as int]));
        }
        let text = line_plain_text(&ls[i]);
        let lt = lower_chars(&chars_of(text.as_str()));
        if contains_exec(&lt, &lq) {
            let ghost before = out@;
            out.push(off.saturating_add(i));
            assert(out@ =~= before.push(sat(off + (i + 1) - 1) as usize));
        }
    }
    assert(lv.take(n as int) =~= lv);
}

fn same_positions(a: &Vec<usize>, b: &Vec<usize>) -> (r: bool)
    ensures
        r == (a@ == b@),
{
    if a.len() != b.len() {
        return false;
    }
    let n = a.len();
    for i in 0..n
        invariant
            n == a@.len(),
            n == b@.len(),
            forall|k: int| 0 <= k < i ==> a@[k] == b@[k],
    {
        if a[i] != b[i] {
            return false;
        }
    }
    assert(a@ =~= b@);
    true
}

// ─── Title ───────────────────────────────────────────────────────────────────

/// `●` with the request tree focused, `◆` with a response tree focused,
/// `○` otherwise.
pub open spec fn focus_mark(d: DetailView) -> Seq<char> {
    if d.in_tree {
        "●"@
    } else if d.focused_resp_tree is Some {
        "◆"@
    } else {
        "○"@
    }
}

/// `  /query_ [i/n]` while searching, `  /_` with an empty open box.
pub open spec fn search_mark(query: Seq<char>, active: bool, cursor: usize, n: nat) -> Seq<char> {
    if query.len() > 0 {
        "  /"@ + query + (if active {
            "_"@
        } else {
            ""@
        }) + " ["@ + dec(
            if n > 0 {
                sat(cursor + 1) as nat
            } else {
                0
            },
        ) + "/"@ + dec(n) + "]"@
    } else if active {
        "  /_"@
    } else {
        ""@
    }
}

/// ` METHOD path  [line a/b] <focus><search>`.
pub open spec fn title_text(
    method: Seq<char>,
    path: Seq<char>,
    scroll: usize,
    total: int,
    mark: Seq<char>,
    search: Seq<char>,
) -> Seq<char> {
    " "@ + method + " "@ + path + "  [line "@ + dec(
        (if sat(scroll + 1) <= total {
            sat(scroll + 1)
        } else {
            total
        }) as nat,
    ) + "/"@ + dec(
        (if total >= 1 {
            total
        } else {
            1
        }) as nat,
    ) + "] "@ + mark + search
}

fn push_str(s: &mut String, t: &str)
    ensures
        final(s)@ == old(s)@ + t@,
{
    s.append(t);
}

fn search_mark_string(query: &str, active: bool, cursor: usize, n: usize) -> (s: String)
    ensures
        s@ == search_mark(query@, active, cursor, n as nat),
{
    proof {
        reveal_strlit("");
    }
    let query_chars = chars_of(query);
    if query_chars.len() > 0 {
        let mut s = "  /".to_owned();
        push_str(&mut s, query);
        if active {
            push_str(&mut s, "_");
        } else {
            push_str(&mut s, "");
        }
        push_str(&mut s, " [");
        let shown = if n > 0 {
            cursor.saturating_add(1)
        } else {
            0
        };
        assert(shown as nat == (if n > 0 {
            sat(cursor + 1) as nat
        } else {
            0
        }));
        push_dec(&mut s, shown);
        push_str(&mut s, "/");
        push_dec(&mut s, n);
        push_str(&mut s, "]");
        s
    } else if active {
        "  /_".to_owned()
    } else {
        let s = String::new();
        assert(s@ =~= ""@);
        s
    }
}

fn title_string(
    method: &str,
    path: &str,
    scroll: usize,
    total: usize,
    mark: &str,
    query: &str,
    active: bool,
    cursor: usize,
    n: usize,
) -> (s: String)
    ensures
        s@ == title_text(method@, path@, scroll, total as int, mark@, search_mark(query@, active, cursor, n as nat)),
{
    let mut s = " ".to_owned();
    push_str(&mut s, method);
    push_str(&mut s, " ");
    push_str(&mut s, path);
    push_str(&mut s, "  [line ");
    let line = scroll.saturating_add(1);
    push_dec(&mut s, if line <= total { line } else { total });
    push_str(&mut s, "/");
    push_dec(&mut s, if total >= 1 { total } else { 1 });
    push_str(&mut s, "] ");
    push_str(&mut s, mark);
    let sm = search_mark_string(query, active, cursor, n);
    push_str(&mut s, sm.as_str());
    s
}

// ─── Segments ────────────────────────────────────────────────────────────────

/// What a segment of the detail shows.
pub enum SegmentView {
    /// Lines of text, scrolled by `scroll` lines.
    Text { lines: Vec<Line>, scroll: usize },
    /// A schema tree: the request body's (`slot` is `None`) or that of the
    /// response tree `slot`.
    Tree { items: Vec<SchemaItem>, slot: Option<usize>, border: Style, highlight: Style },
    /// Blank rows.
    Pad,
}

/// A segment and the rows it takes on screen.
pub struct Segment {
    pub rows: usize,
    pub view: SegmentView,
}

/// The inside of the detail panel.
pub enum DetailBody {
    /// Nothing (no room, or nothing visible).
    Blank,
    /// All text, no tree: one paragraph scrolled by `scroll` lines.
    Text { lines: Vec<Line>, scroll: usize },
    /// The visible segments, top to bottom.
    Segments(Vec<Segment>),
}

/// The detail panel: its title and inside.
pub struct DetailFrame {
    pub title: String,
    pub body: DetailBody,
}

pub enum SegV {
    Text(Seq<Seq<(Seq<char>, Style)>>, nat),
    Tree(Seq<ItemV>, Option<nat>, Style, Style),
    Pad,
}

pub enum BodyV {
    Blank,
    Text(Seq<Seq<(Seq<char>, Style)>>, nat),
    Segments(Seq<(nat, SegV)>),
}

pub open spec fn seg_v(s: SegmentView) -> SegV {
    match s {
        SegmentView::Text { lines, scroll } => SegV::Text(lines_v(lines@), scroll as nat),
        SegmentView::Tree { items, slot, border, highlight } => SegV::Tree(
            items_v(items@),
            match slot {
                Some(k) => Some(k as nat),
                None => None,
            },
            border,
            highlight,
        ),
        SegmentView::Pad => SegV::Pad,
    }
}

pub open spec fn segs_v(s: Seq<Segment>) -> Seq<(nat, SegV)> {
    s.map_values(|g: Segment| (g.rows as nat, seg_v(g.view)))
}

pub open spec fn body_v(b: DetailBody) -> BodyV {
    match b {
        DetailBody::Blank => BodyV::Blank,
        DetailBody::Text { lines, scroll } => BodyV::Text(lines_v(lines@), scroll as nat),
        DetailBody::Segments(s) => BodyV::Segments(segs_v(s@)),
    }
}

/// The rows of the virtual range `[vs, ve)` inside the window `[top, bottom)`.
pub open spec fn seg_rows(vs: int, ve: int, top: int, bottom: int) -> int {
    let a = if vs > top {
        vs
    } else {
        top
    };
    let b = if ve < bottom {
        ve
    } else {
        bottom
    };
    if b > a {
        b - a
    } else {
        0
    }
}

/// The candidates that show at least one row, with their row counts.
pub open spec fn keep_visible(c: Seq<(int, int, SegV)>, top: int, bottom: int) -> Seq<(nat, SegV)>
    decreases c.len(),
{
    if c.len() == 0 {
        Seq::empty()
    } else {
        let v = keep_visible(c.drop_last(), top, bottom);
        let r = seg_rows(c.last().0, c.last().1, top, bottom);
        if r > 0 {
            v.push((r as nat, c.last().2))
        } else {
            v
        }
    }
}

pub open spec fn opt_seg(cond: bool, s: (int, int, SegV)) -> Seq<(int, int, SegV)> {
    if cond {
        seq![s]
    } else {
        Seq::empty()
    }
}

/// Border of a tree: coloured when it has the focus.
pub open spec fn tree_border(focused: bool, c: Color) -> Style {
    if focused {
        fg(c)
    } else {
        fg(Color::DarkGray)
    }
}

/// Selection style of a tree: black on the focus colour, bold, when it has
/// the focus.
pub open spec fn tree_highlight(focused: bool, c: Color) -> Style {
    if focused {
        style(Some(Color::Black), Some(c), true, false)
    } else {
        style(Some(Color::White), Some(Color::DarkGray), false, false)
    }
}

/// The response-tree candidates among the first `n` slots.
pub open spec fn resp_candidates(
    slots: Seq<(Seq<SchemaNode>, nat)>,
    l: LayoutV,
    focused: Option<usize>,
    n: int,
) -> Seq<(int, int, SegV)>
    decreases n,
{
    if n <= 0 {
        Seq::empty()
    } else {
        let k = n - 1;
        resp_candidates(slots, l, focused, k) + opt_seg(
            l.lens[k] > 0,
            (
                l.starts[k],
                sat(l.starts[k] + l.lens[k]),
                SegV::Tree(
                    to_items(slots[k].0, slots[k].1),
                    Some(k as nat),
                    tree_border(focused == Some(k as usize), Color::Green),
                    tree_highlight(focused == Some(k as usize), Color::Green),
                ),
            ),
        )
    }
}

/// Whether the request tree is drawn.
pub open spec fn shows_req(d: DetailView, o: Operation) -> bool {
    req_rows(o, opened_of(d.schema_tree_state)) > 0 && has_schema(o)
}

/// The candidate segments, in layout order, for the window starting at
/// `scroll`: text above, request tree, text below, response trees, padding.
pub open spec fn segments_for(
    above: Seq<Seq<(Seq<char>, Style)>>,
    below: Seq<Seq<(Seq<char>, Style)>>,
    m: Seq<usize>,
    req: Option<(Seq<SchemaNode>, nat)>,
    show_req: bool,
    in_tree: bool,
    l: LayoutV,
    slots: Seq<(Seq<SchemaNode>, nat)>,
    focused: Option<usize>,
    scroll: int,
) -> Seq<(int, int, SegV)> {
    opt_seg(l.above > 0, (0, l.above as int, SegV::Text(highlight_all(above, 0, m), scroll as nat))) + opt_seg(
        show_req,
        (
            l.above as int,
            l.below_start,
            SegV::Tree(
                to_items(req.unwrap().0, req.unwrap().1),
                None,
                tree_border(in_tree, Color::Cyan),
                tree_highlight(in_tree, Color::Cyan),
            ),
        ),
    ) + opt_seg(
        below.len() > 0,
        (
            l.below_start,
            l.below_end,
            SegV::Text(
                highlight_all(below, l.below_start, m),
                (if scroll >= l.below_start {
                    scroll - l.below_start
                } else {
                    0
                }) as nat,
            ),
        ),
    ) + resp_candidates(slots, l, focused, l.lens.len() as int) + opt_seg(
        l.pad_start < l.total,
        (l.pad_start, l.total, SegV::Pad),
    )
}

/// Every candidate segment of the detail of `o`.
pub open spec fn candidates(d: DetailView, o: Operation, path: Seq<char>, webhook: bool, w: nat, scroll: int) -> Seq<
    (int, int, SegV),
> {
    segments_for(
        text_above(o, path, webhook, w),
        text_below(o, w),
        matches_after(d, o, path, webhook, w),
        req_tree(o),
        shows_req(d, o),
        d.in_tree,
        layout_of(d, o, path, webhook, w),
        slots_of(o.responses@),
        d.focused_resp_tree,
        scroll,
    )
}

/// The scroll offset after drawing in a window `view_h` rows high: clamped
/// so the window does not run past the end.
pub open spec fn clamped_scroll(d: DetailView, total: int, view_h: nat) -> int {
    let max_scroll = if total > view_h {
        total - view_h
    } else {
        0
    };
    if d.scroll > max_scroll {
        max_scroll
    } else {
        d.scroll as int
    }
}

/// The inside of the panel for a window `view_h` rows high.
#[verifier::opaque]
pub open spec fn body_after(d: DetailView, o: Operation, path: Seq<char>, webhook: bool, w: nat, view_h: nat) -> BodyV {
    let l = layout_of(d, o, path, webhook, w);
    let m = matches_after(d, o, path, webhook, w);
    if view_h == 0 {
        BodyV::Blank
    } else {
        let scroll = clamped_scroll(d, l.total, view_h);
        if !shows_req(d, o) && !any_rows(l.lens) {
            BodyV::Text(highlight_all(text_above(o, path, webhook, w) + text_below(o, w), 0, m), scroll as nat)
        } else {
            let segs = keep_visible(candidates(d, o, path, webhook, w, scroll), scroll, scroll + view_h);
            if segs.len() == 0 {
                BodyV::Blank
            } else {
                BodyV::Segments(segs)
            }
        }
    }
}

fn push_seg(segs: &mut Vec<Segment>, vs: usize, ve: usize, top: usize, bottom: usize, view: SegmentView)
    ensures
        segs_v(final(segs)@) == if seg_rows(vs as int, ve as int, top as int, bottom as int) > 0 {
            segs_v(old(segs)@).push((seg_rows(vs as int, ve as int, top as int, bottom as int) as nat, seg_v(view)))
        } else {
            segs_v(old(segs)@)
        },
{
    let a = if vs > top {
        vs
    } else {
        top
    };
    let b = if ve < bottom {
        ve
    } else {
        bottom
    };
    if b > a {
        let ghost sv = seg_v(view);
        segs.push(Segment { rows: b - a, view });
        assert(segs_v(segs@) =~= segs_v(old(segs)@).push(((b - a) as nat, sv)));
    }
}

proof fn lemma_keep_visible_push(c: Seq<(int, int, SegV)>, x: (int, int, SegV), top: int, bottom: int)
    ensures
        keep_visible(c.push(x), top, bottom) == if seg_rows(x.0, x.1, top, bottom) > 0 {
            keep_visible(c, top, bottom).push((seg_rows(x.0, x.1, top, bottom) as nat, x.2))
        } else {
            keep_visible(c, top, bottom)
        },
{
    assert(c.push(x).drop_last() =~= c);
}


// ─── Composing the panel ─────────────────────────────────────────────────────

fn resp_layout(
    states: &Vec<TreeState<usize>>,
    focused: Option<usize>,
    slots: &Vec<(&Vec<SchemaNode>, usize)>,
    base: usize,
    Ghost(dstates): Ghost<Seq<TreeState<usize>>>,
) -> (r: (Vec<usize>, Vec<usize>, usize, bool))
    requires
        states@.len() >= slots@.len(),
        forall|j: int| 0 <= j < slots@.len() ==> opened_of(#[trigger] states@[j]) == opened_at(dstates, j),
    ensures
        ({
            let lens = slot_lens(slots_v(slots@), focused, dstates);
            &&& r.0@.map_values(|x: usize| x as nat) == lens
            &&& r.1@.map_values(|x: usize| x as int) == Seq::new(lens.len(), |k: int| end_of(base as int, lens.take(k)))
            &&& r.0@.len() == lens.len()
            &&& r.1@.len() == lens.len()
            &&& r.2 == end_of(base as int, lens)
            &&& r.3 == any_rows(lens)
        }),
{
    let ghost lens_v = slot_lens(slots_v(slots@), focused, dstates);
    let ghost starts_v = Seq::new(lens_v.len(), |k: int| end_of(base as int, lens_v.take(k)));
    let n = slots.len();
    let mut lens: Vec<usize> = Vec::new();
    let mut starts: Vec<usize> = Vec::new();
    let mut cursor = base;
    let mut any = false;
    for k in 0..n
        invariant
            n == slots@.len(),
            lens_v == slot_lens(slots_v(slots@), focused, dstates),
            starts_v == Seq::new(lens_v.len(), |k: int| end_of(base as int, lens_v.take(k))),
            lens_v.len() == n,
            states@.len() >= n,
            forall|j: int| 0 <= j < n ==> opened_of(#[trigger] states@[j]) == opened_at(dstates, j),
            lens@.map_values(|x: usize| x as nat) == lens_v.take(k as int),
            starts@.map_values(|x: usize| x as int) == starts_v.take(k as int),
            cursor == end_of(base as int, lens_v.take(k as int)),
            any == any_rows(lens_v.take(k as int)),
    {
        proof {
            lemma_end_of_bounds(base as int, lens_v.take(k as int));
            assert(lens_v.take(k + 1).drop_last() =~= lens_v.take(k as int));
        }
        let is_focused = match focused {
            Some(f) => f == k,
            None => false,
        };
        let len: usize = if is_focused {
            tree_rows_exec(slots[k].0, slots[k].1, &states[k])
        } else {
            0
        };
        assert(len == lens_v[k as int]);
        let ghost sb = starts@;
        let ghost lb = lens@;
        assert(starts_v[k as int] == end_of(base as int, lens_v.take(k as int)));
        starts.push(cursor);
        lens.push(len);
        cursor = cursor.saturating_add(len);
        proof {
            assert(starts@.map_values(|x: usize| x as int) =~= sb.map_values(|x: usize| x as int).push(
                starts_v[k as int],
            ));
            assert(starts_v.take(k + 1) =~= starts_v.take(k as int).push(starts_v[k as int]));
            assert(lens@.map_values(|x: usize| x as nat) =~= lb.map_values(|x: usize| x as nat).push(lens_v[k as int]));
            assert(lens_v.take(k + 1) =~= lens_v.take(k as int).push(lens_v[k as int]));
            if any_rows(lens_v.take(k + 1)) && !any_rows(lens_v.take(k as int)) {
                let j = choose|j: int| 0 <= j < k + 1 && #[trigger] lens_v.take(k + 1)[j] > 0;
                if j < k {
                    assert(lens_v.take(k as int)[j] > 0);
                }
            }
            if any_rows(lens_v.take(k as int)) {
                let j = choose|j: int| 0 <= j < k && #[trigger] lens_v.take(k as int)[j] > 0;
                assert(lens_v.take(k + 1)[j] > 0);
            }
            if len > 0 {
                assert(lens_v.take(k + 1)[k as int] > 0);
            }
        }
        if len > 0 {
            any = true;
        }
    }
    proof {
        assert(lens_v.take(n as int) =~= lens_v);
        assert(starts_v.take(n as int) =~= starts_v);
    }
    (lens, starts, cursor, any)
}

/// The matches after a search over these lines: unchanged matches keep
/// the cursor, changed ones reset it when it no longer points at one; an
/// empty query clears both.
pub open spec fn searched_state(d: DetailView, found: Seq<usize>, e: DetailView) -> bool {
    &&& d.search.query@.len() == 0 ==> e.search_matches@ == Seq::<usize>::empty() && e.search_cursor == 0
    &&& d.search.query@.len() > 0 ==> {
        &&& e.search_matches@ == found
        &&& e.search_cursor == (if found != d.search_matches@ && d.search_cursor >= found.len() {
            0
        } else {
            d.search_cursor
        })
    }
}

impl DetailView {
    fn update_search(&mut self, above: &Vec<Line>, below: &Vec<Line>, below_start: usize)
        ensures
            searched_state(
                *old(self),
                hits(lines_v(above@), old(self).search.query@, 0) + hits(
                    lines_v(below@),
                    old(self).search.query@,
                    below_start as int,
                ),
                *final(self),
            ),
            final(self).search == old(self).search,
            final(self).scroll == old(self).scroll,
            final(self).view_height == old(self).view_height,
            final(self).in_tree == old(self).in_tree,
            final(self).focused_resp_tree == old(self).focused_resp_tree,
            final(self).tree_start == old(self).tree_start,
            final(self).tree_len == old(self).tree_len,
            final(self).resp_tree_starts == old(self).resp_tree_starts,
            final(self).resp_tree_lens == old(self).resp_tree_lens,
            final(self).resp_tree_states == old(self).resp_tree_states,
            final(self).schema_tree_state == old(self).schema_tree_state,
            final(self).schema_tree_op_key == old(self).schema_tree_op_key,
    {
        let q = chars_of(self.search.query.as_str());
        if q.len() > 0 {
            let mut m: Vec<usize> = Vec::new();
            line_hits(above, &q, 0, &mut m);
            line_hits(below, &q, below_start, &mut m);
            if !same_positions(&self.search_matches, &m) {
                self.search_matches = m;
                if self.search_cursor >= self.search_matches.len() {
                    self.search_cursor = 0;
                }
            }
        } else {
            self.search_matches = Vec::new();
            self.search_cursor = 0;
        }
    }
}

#[verifier::rlimit(100)]
#[verifier::spinoff_prover]
fn build_segments(
    above: Vec<Line>,
    below: Vec<Line>,
    m: &Vec<usize>,
    req: Option<(&Vec<SchemaNode>, usize)>,
    show_req: bool,
    in_tree: bool,
    slots: &Vec<(&Vec<SchemaNode>, usize)>,
    lens: &Vec<usize>,
    starts: &Vec<usize>,
    focused: Option<usize>,
    below_start: usize,
    below_end: usize,
    pad_start: usize,
    total: usize,
    scroll: usize,
    view_end: usize,
    Ghost(l): Ghost<LayoutV>,
) -> (segs: Vec<Segment>)
    requires
        l.above == above@.len(),
        l.below_start == below_start,
        l.below_end == below_end,
        lens@.map_values(|x: usize| x as nat) == l.lens,
        starts@.map_values(|x: usize| x as int) == l.starts,
        lens@.len() == slots@.len(),
        starts@.len() == slots@.len(),
        l.pad_start == pad_start,
        l.total == total,
        show_req ==> (req matches Some(p) && p.1 + sizes(p.0@) <= usize::MAX),
        forall|k: int|
            0 <= k < slots@.len() && #[trigger] l.lens[k] > 0 ==> slots_v(slots@)[k].1 + sizes(
                slots_v(slots@)[k].0,
            ) <= usize::MAX,
    ensures
        segs_v(segs@) == keep_visible(
            segments_for(
                lines_v(above@),
                lines_v(below@),
                m@,
                match req {
                    Some(p) => Some((p.0@, p.1 as nat)),
                    None => None,
                },
                show_req,
                in_tree,
                l,
                slots_v(slots@),
                focused,
                scroll as int,
            ),
            scroll as int,
            view_end as int,
        ),
{
    let ghost above_v = lines_v(above@);
    let ghost below_v = lines_v(below@);
    let ghost sl = slots_v(slots@);
    let above_len = above.len();
    let below_len = below.len();
    let mut segs: Vec<Segment> = Vec::new();
    let ghost mut done: Seq<(int, int, SegV)> = Seq::empty();
    assert(segs_v(segs@) =~= keep_visible(done, scroll as int, view_end as int));
    if above_len > 0 {
        let mut a = above;
        highlight_matched_lines(&mut a, 0, m);
        let ghost x = (0int, above_len as int, SegV::Text(highlight_all(above_v, 0, m@), scroll as nat));
        push_seg(&mut segs, 0, above_len, scroll, view_end, SegmentView::Text { lines: a, scroll });
        proof {
            lemma_keep_visible_push(done, x, scroll as int, view_end as int);
            done = done.push(x);
        }
    }
    if show_req {
        match req {
            Some(p) => {
                let items = schema_children_to_tree_items(p.0, p.1);
                let border = if in_tree {
                    Style::new().fg(Color::Cyan)
                } else {
                    Style::new().fg(Color::DarkGray)
                };
                let hl = if in_tree {
                    Style::new().bg(Color::Cyan).fg(Color::Black).add_modifier(crate::styles::Modifier::bold())
                } else {
                    Style::new().bg(Color::DarkGray).fg(Color::White)
                };
                let ghost x = (above_len as int, l.below_start, SegV::Tree(items_v(items@), None, border, hl));
                push_seg(
                    &mut segs,
                    above_len,
                    below_start,
                    scroll,
                    view_end,
                    SegmentView::Tree { items, slot: None, border, highlight: hl },
                );
                proof {
                    lemma_keep_visible_push(done, x, scroll as int, view_end as int);
                    done = done.push(x);
                }
            },
            None => {},
        }
    }
    if below_len > 0 {
        let mut b = below;
        highlight_matched_lines(&mut b, below_start, m);
        let bs = scroll.saturating_sub(below_start);
        let ghost x = (l.below_start, l.below_end, SegV::Text(highlight_all(below_v, below_start as int, m@), bs as nat));
        push_seg(&mut segs, below_start, below_end, scroll, view_end, SegmentView::Text { lines: b, scroll: bs });
        proof {
            lemma_keep_visible_push(done, x, scroll as int, view_end as int);
            done = done.push(x);
        }
    }
    let ghost part3 = done;
    let n = slots.len();
    for k in 0..n
        invariant
            n == slots@.len(),
            sl == slots_v(slots@),
            lens@.map_values(|x: usize| x as nat) == l.lens,
            starts@.map_values(|x: usize| x as int) == l.starts,
            lens@.len() == n,
            starts@.len() == n,
            forall|k: int|
                0 <= k < slots@.len() && #[trigger] l.lens[k] > 0 ==> slots_v(slots@)[k].1 + sizes(
                    slots_v(slots@)[k].0,
                ) <= usize::MAX,
            done == part3 + resp_candidates(sl, l, focused, k as int),
            segs_v(segs@) == keep_visible(done, scroll as int, view_end as int),
    {
        proof {
            assert(lens@.map_values(|x: usize| x as nat)[k as int] == l.lens[k as int]);
            assert(starts@.map_values(|x: usize| x as int)[k as int] == l.starts[k as int]);
        }
        if lens[k] > 0 {
            let (roots, id) = slots[k];
            proof {
                assert(sl[k as int] == (roots@, id as nat));
                assert(l.lens[k as int] > 0);
            }
            let items = schema_children_to_tree_items(roots, id);
            let is_focused = match focused {
                Some(f) => f == k,
                None => false,
            };
            let border = if is_focused {
                Style::new().fg(Color::Green)
            } else {
                Style::new().fg(Color::DarkGray)
            };
            let hl = if is_focused {
                Style::new().bg(Color::Green).fg(Color::Black).add_modifier(crate::styles::Modifier::bold())
            } else {
                Style::new().bg(Color::DarkGray).fg(Color::White)
            };
            let end = starts[k].saturating_add(lens[k]);
            let ghost x = (
                l.starts[k as int],
                sat(l.starts[k as int] + l.lens[k as int]),
                SegV::Tree(items_v(items@), Some(k as nat), border, hl),
            );
            push_seg(&mut segs, starts[k], end, scroll, view_end, SegmentView::Tree { items, slot: Some(k), border, highlight: hl });
            proof {
                lemma_keep_visible_push(done, x, scroll as int, view_end as int);
                done = done.push(x);
            }
        }
        proof {
            assert(done =~= part3 + resp_candidates(sl, l, focused, k + 1));
        }
    }
    if pad_start < total {
        let ghost x = (l.pad_start, l.total, SegV::Pad);
        push_seg(&mut segs, pad_start, total, scroll, view_end, SegmentView::Pad);
        proof {
            lemma_keep_visible_push(done, x, scroll as int, view_end as int);
            done = done.push(x);
        }
    }
    assert(done =~= segments_for(
        above_v,
        below_v,
        m@,
        match req {
            Some(p) => Some((p.0@, p.1 as nat)),
            None => None,
        },
        show_req,
        in_tree,
        l,
        sl,
        focused,
        scroll as int,
    ));
    segs
}

/// The view state after drawing leaves these alone.
pub open spec fn keeps_focus_and_search(d: DetailView, e: DetailView) -> bool {
    &&& e.in_tree == d.in_tree
    &&& e.focused_resp_tree == d.focused_resp_tree
    &&& e.search == d.search
    &&& e.schema_tree_op_key == d.schema_tree_op_key
}


/// The text and the layout numbers of one drawing.
struct Measured<'a> {
    above: Vec<Line>,
    below: Vec<Line>,
    req: Option<(&'a Vec<SchemaNode>, usize)>,
    req_len: usize,
    slots: Vec<(&'a Vec<SchemaNode>, usize)>,
    lens: Vec<usize>,
    starts: Vec<usize>,
    below_start: usize,
    below_end: usize,
    pad_start: usize,
    total: usize,
    any_resp: bool,
}

/// What the measuring step finds for the detail of `o`.
spec fn measured_ok(r: Measured, d: DetailView, o: Operation, path: Seq<char>, webhook: bool, w: nat) -> bool {
    let l = layout_of(d, o, path, webhook, w);
    &&& lines_v(r.above@) == text_above(o, path, webhook, w)
    &&& lines_v(r.below@) == text_below(o, w)
    &&& (match r.req {
        Some(p) => req_tree(o) == Some((p.0@, p.1 as nat)),
        None => req_tree(o) is None,
    })
    &&& slots_v(r.slots@) == slots_of(o.responses@)
    &&& r.req_len == l.req
    &&& l.above == r.above@.len()
    &&& l.below_start == r.below_start
    &&& l.below_end == r.below_end
    &&& r.lens@.map_values(|x: usize| x as nat) == l.lens
    &&& r.starts@.map_values(|x: usize| x as int) == l.starts
    &&& r.lens@.len() == r.slots@.len()
    &&& r.starts@.len() == r.slots@.len()
    &&& l.pad_start == r.pad_start
    &&& l.total == r.total
    &&& r.any_resp == any_rows(l.lens)
    &&& (r.req_len > 0 && r.req is Some) == shows_req(d, o)
    &&& (r.req_len > 0 ==> (r.req matches Some(p) && p.1 + sizes(p.0@) <= usize::MAX))
    &&& forall|k: int|
        0 <= k < r.slots@.len() && #[trigger] l.lens[k] > 0 ==> slots_v(r.slots@)[k].1 + sizes(
            slots_v(r.slots@)[k].0,
        ) <= usize::MAX
}

/// What drawing the detail of `o` at `path` in a `width` x `height` area
/// does: `e` is the view state after drawing from `d`, `r` the panel.
pub open spec fn composed(
    d: DetailView,
    e: DetailView,
    o: Operation,
    path: Seq<char>,
    webhook: bool,
    width: u16,
    height: u16,
    r: DetailFrame,
) -> bool {
    let w = (if width >= 2 {
        width - 2
    } else {
        0
    }) as nat;
    let view_h = (if height >= 2 {
        height - 2
    } else {
        0
    }) as nat;
    let l = layout_of(d, o, path, webhook, w);
    &&& keeps_focus_and_search(d, e)
    &&& e.tree_start == l.above
    &&& e.tree_len == l.req
    &&& e.resp_tree_starts@.map_values(|x: usize| x as int) == l.starts
    &&& e.resp_tree_lens@.map_values(|x: usize| x as nat) == l.lens
    &&& searched_state(d, matches_after(d, o, path, webhook, w), e)
    &&& r.title@ == title_text(
        o.method@,
        path,
        d.scroll,
        l.total,
        focus_mark(d),
        search_mark(d.search.query@, d.search.active, e.search_cursor, e.search_matches@.len()),
    )
    &&& body_v(r.body) == body_after(d, o, path, webhook, w, view_h)
    &&& e.view_height == (if view_h > 0 {
        view_h as usize
    } else {
        d.view_height
    })
    &&& e.scroll == (if view_h > 0 {
        clamped_scroll(d, l.total, view_h) as usize
    } else {
        d.scroll
    })
    &&& e.resp_tree_states@.len() == (if d.resp_tree_states@.len() >= l.lens.len() {
        d.resp_tree_states@.len()
    } else {
        l.lens.len()
    })
    &&& forall|k: int|
        0 <= k < d.resp_tree_states@.len() ==> #[trigger] e.resp_tree_states@[k]
            == d.resp_tree_states@[k]
    &&& forall|k: int|
        d.resp_tree_states@.len() <= k < e.resp_tree_states@.len() ==> opened_of(
            #[trigger] e.resp_tree_states@[k],
        ) == Set::<Seq<usize>>::empty()
    &&& opened_of(e.schema_tree_state) == opened_of(d.schema_tree_state)
    &&& (view_h > 0 && shows_req(d, o) && !d.in_tree) ==> {
        let desired = if e.scroll >= l.above {
            e.scroll - l.above
        } else {
            0
        };
        &&& desired <= offset_of(d.schema_tree_state) ==> offset_of(e.schema_tree_state) == desired
        &&& desired > offset_of(d.schema_tree_state) ==> offset_of(e.schema_tree_state) == (if desired
            < last_biggest_of(d.schema_tree_state) {
            desired
        } else {
            last_biggest_of(d.schema_tree_state) as int
        })
    }
    &&& !(view_h > 0 && shows_req(d, o) && !d.in_tree) ==> e.schema_tree_state == d.schema_tree_state
}

impl DetailView {
    #[verifier::rlimit(60)]
    fn measure<'a>(&mut self, op: &'a Operation, path: &str, webhook: bool, width: u16) -> (r: Measured<'a>)
        ensures
            ({
                let d = *old(self);
                let e = *final(self);
                let w = (if width >= 2 {
                    width - 2
                } else {
                    0
                }) as nat;
                let l = layout_of(d, *op, path@, webhook, w);
                &&& measured_ok(r, d, *op, path@, webhook, w)
                &&& keeps_focus_and_search(d, e)
                &&& e.tree_start == l.above
                &&& e.tree_len == l.req
                &&& e.resp_tree_starts@.map_values(|x: usize| x as int) == l.starts
                &&& e.resp_tree_lens@.map_values(|x: usize| x as nat) == l.lens
                &&& searched_state(d, matches_after(d, *op, path@, webhook, w), e)
                &&& e.scroll == d.scroll
                &&& e.view_height == d.view_height
                &&& e.schema_tree_state == d.schema_tree_state
                &&& e.resp_tree_states@.len() == (if d.resp_tree_states@.len() >= l.lens.len() {
                    d.resp_tree_states@.len()
                } else {
                    l.lens.len()
                })
                &&& forall|k: int|
                    0 <= k < d.resp_tree_states@.len() ==> #[trigger] e.resp_tree_states@[k]
                        == d.resp_tree_states@[k]
                &&& forall|k: int|
                    d.resp_tree_states@.len() <= k < e.resp_tree_states@.len() ==> opened_of(
                        #[trigger] e.resp_tree_states@[k],
                    ) == Set::<Seq<usize>>::empty()
            }),
    {
        let ghost d = *self;
        let ghost w = (if width >= 2 {
            width - 2
        } else {
            0
        }) as nat;
        let (above, below) = detail_text(op, path, webhook, width);
        let ghost l = layout_of(d, *op, path@, webhook, w);
        let req: Option<(&Vec<SchemaNode>, usize)> = match &op.request_body {
            Some(rb) => match &rb.schema_tree {
                Some(t) => {
                    let (_, ch, id) = schema_effective_roots(t);
                    Some((ch, id))
                },
                None => None,
            },
            None => None,
        };
        assert(match req {
            Some(p) => req_tree(*op) == Some((p.0@, p.1 as nat)),
            None => req_tree(*op) is None,
        });
        let req_len: usize = match req {
            Some(p) => tree_rows_exec(p.0, p.1, &self.schema_tree_state),
            None => 0,
        };
        assert(req_len == l.req) by {
            reveal(layout_of);
        }
        let slots = resp_slots(&op.responses);
        let ghost sl = slots_v(slots@);
        while self.resp_tree_states.len() < slots.len()
            invariant
                self.resp_tree_states@.len() >= d.resp_tree_states@.len(),
                self.resp_tree_states@.len() <= (if d.resp_tree_states@.len() >= slots@.len() {
                    d.resp_tree_states@.len()
                } else {
                    slots@.len()
                }),
                forall|k: int|
                    0 <= k < d.resp_tree_states@.len() ==> #[trigger] self.resp_tree_states@[k]
                        == d.resp_tree_states@[k],
                forall|k: int|
                    d.resp_tree_states@.len() <= k < self.resp_tree_states@.len() ==> opened_of(
                        #[trigger] self.resp_tree_states@[k],
                    ) == Set::<Seq<usize>>::empty(),
                self.schema_tree_state == d.schema_tree_state,
                self.in_tree == d.in_tree,
                self.focused_resp_tree == d.focused_resp_tree,
                self.search == d.search,
                self.search_matches == d.search_matches,
                self.search_cursor == d.search_cursor,
                self.scroll == d.scroll,
                self.view_height == d.view_height,
                self.schema_tree_op_key == d.schema_tree_op_key,
            decreases slots@.len() - self.resp_tree_states@.len(),
        {
            self.resp_tree_states.push(new_tree_state());
        }
        assert forall|j: int| 0 <= j < slots@.len() implies opened_of(#[trigger] self.resp_tree_states@[j])
            == opened_at(d.resp_tree_states@, j) by {}
        let above_len = above.len();
        self.tree_start = above_len;
        self.tree_len = req_len;
        let below_start = above_len.saturating_add(req_len);
        let below_end = below_start.saturating_add(below.len());
        let (lens, starts, pad_start, any_resp) = resp_layout(
            &self.resp_tree_states,
            self.focused_resp_tree,
            &slots,
            below_end,
            Ghost(d.resp_tree_states@),
        );
        let total = if self.focused_resp_tree.is_some() && any_resp {
            pad_start.saturating_add(FOOTER_PAD)
        } else {
            pad_start
        };
        assert(l.above == above_len && l.below_start == below_start && l.below_end == below_end && l.lens
            == slot_lens(sl, d.focused_resp_tree, d.resp_tree_states@) && l.starts == Seq::new(
            l.lens.len(),
            |k: int| end_of(below_end as int, l.lens.take(k)),
        ) && l.pad_start == pad_start && l.total == total) by {
            reveal(layout_of);
        }
        self.resp_tree_starts = starts.clone();
        self.resp_tree_lens = lens.clone();
        self.update_search(&above, &below, below_start);
        assert(searched_state(d, matches_after(d, *op, path@, webhook, w), *self)) by {
            reveal(matches_after);
        }
        proof {
            assert forall|k: int|
                0 <= k < slots@.len() && #[trigger] l.lens[k] > 0 implies slots_v(slots@)[k].1 + sizes(
                slots_v(slots@)[k].0,
            ) <= usize::MAX by {}
        }
        Measured {
            above,
            below,
            req,
            req_len,
            slots,
            lens,
            starts,
            below_start,
            below_end,
            pad_start,
            total,
            any_resp,
        }
    }

    /// Works out the detail panel of `op` at `path` for an area of
    /// `width` x `height` cells, and records what the key handlers need:
    /// where the trees are, the search matches, the view height and the
    /// clamped scroll offset.
    #[verifier::rlimit(60)]
    pub fn compose(&mut self, op: &Operation, path: &str, webhook: bool, width: u16, height: u16) -> (r:
        DetailFrame)
        ensures
            composed(*old(self), *final(self), *op, path@, webhook, width, height, r),
    {
        let ghost d = *self;
        let ghost w = (if width >= 2 {
            width - 2
        } else {
            0
        }) as nat;
        let ghost l = layout_of(d, *op, path@, webhook, w);
        let ms = self.measure(op, path, webhook, width);
        let mark = if self.in_tree {
            "●"
        } else if self.focused_resp_tree.is_some() {
            "◆"
        } else {
            "○"
        };
        let title = title_string(
            op.method.as_str(),
            path,
            self.scroll,
            ms.total,
            mark,
            self.search.query.as_str(),
            self.search.active,
            self.search_cursor,
            self.search_matches.len(),
        );
        let view_h = height.saturating_sub(2) as usize;
        if view_h == 0 {
            let r = DetailFrame { title, body: DetailBody::Blank };
            assert(body_v(r.body) == body_after(d, *op, path@, webhook, w, 0)) by {
                reveal(body_after);
            }
            return r;
        }
        self.view_height = view_h;
        let max_scroll = ms.total.saturating_sub(view_h);
        if self.scroll > max_scroll {
            self.scroll = max_scroll;
        }
        let scroll = self.scroll;
        let view_end = scroll + view_h;
        let any_req = ms.req_len > 0 && ms.req.is_some();
        let above_len = ms.above.len();
        if !any_req && !ms.any_resp {
            let mut combined = ms.above;
            let mut rest = ms.below;
            let ghost av = lines_v(combined@);
            let ghost bv = lines_v(rest@);
            combined.append(&mut rest);
            assert(lines_v(combined@) =~= av + bv);
            highlight_matched_lines(&mut combined, 0, &self.search_matches);
            let r = DetailFrame { title, body: DetailBody::Text { lines: combined, scroll } };
            assert(body_v(r.body) == body_after(d, *op, path@, webhook, w, view_h as nat)) by {
                reveal(body_after);
                reveal(matches_after);
            }
            return r;
        }
        let segs = build_segments(
            ms.above,
            ms.below,
            &self.search_matches,
            ms.req,
            any_req,
            self.in_tree,
            &ms.slots,
            &ms.lens,
            &ms.starts,
            self.focused_resp_tree,
            ms.below_start,
            ms.below_end,
            ms.pad_start,
            ms.total,
            scroll,
            view_end,
            Ghost(l),
        );
        if !self.in_tree && any_req {
            let desired = scroll.saturating_sub(above_len);
            let current = tree_offset(&self.schema_tree_state);
            if desired > current {
                tree_scroll_down(&mut self.schema_tree_state, desired - current);
            } else if desired < current {
                tree_scroll_up(&mut self.schema_tree_state, current - desired);
            }
        }
        let ghost segs_view = segs_v(segs@);
        assert(segs_view == keep_visible(candidates(d, *op, path@, webhook, w, scroll as int), scroll as int, view_end as int)) by {
            reveal(matches_after);
        }
        let r = if segs.len() == 0 {
            DetailFrame { title, body: DetailBody::Blank }
        } else {
            DetailFrame { title, body: DetailBody::Segments(segs) }
        };
        assert(body_v(r.body) == body_after(d, *op, path@, webhook, w, view_h as nat)) by {
            reveal(body_after);
        }
        r
    }
}


// ─── The panel of the selected operation ─────────────────────────────────────

/// What the detail panel shows.
pub enum DetailScreen {
    /// No path is selected: the panel says so.
    NoOperation,
    /// The selected path has no operation: the panel stays empty.
    Nothing,
    /// The selected operation.
    Shown(DetailFrame),
}

/// The operation the detail shows: the one selected in the filtered
/// operations list, the path's first when the selection is past its end.
pub open spec fn shown_op_index(a: ApinApp) -> int {
    if 0 <= sel_or_zero(a.ops.selected) < ops_list(a).len() {
        ops_list(a)[sel_or_zero(a.ops.selected)]
    } else {
        0
    }
}

/// Only the detail view may change.
pub open spec fn only_detail_changed(a: ApinApp, b: ApinApp) -> bool {
    &&& b.specs == a.specs
    &&& b.trees == a.trees
    &&& b.ops == a.ops
    &&& b.focus == a.focus
    &&& b.specs_selected == a.specs_selected
    &&& b.specs_done == a.specs_done
    &&& b.spinner == a.spinner
}

impl ApinApp {
    /// Works out the full-screen detail of the selected operation for an
    /// area of `width` x `height` cells.
    pub fn detail_screen(&mut self, width: u16, height: u16) -> (r: DetailScreen)
        ensures
            only_detail_changed(*old(self), *final(self)),
            ({
                let a = *old(self);
                let i = spec_index(a);
                match selected_path(a) {
                    Some(p) => if 0 <= i < a.specs@.len() && p < a.specs@[i].paths@.len() {
                        let e = a.specs@[i].paths@[p as int];
                        let k = shown_op_index(a);
                        if k < e.operations@.len() {
                            r matches DetailScreen::Shown(f) && composed(
                                a.detail,
                                final(self).detail,
                                e.operations@[k],
                                e.path@,
                                e.kind == PathKind::Webhook,
                                width,
                                height,
                                f,
                            )
                        } else {
                            r is Nothing && final(self).detail == a.detail
                        }
                    } else {
                        r is NoOperation && final(self).detail == a.detail
                    },
                    None => r is NoOperation && final(self).detail == a.detail,
                }
            }),
    {
        let i = self.selected_spec_index();
        let p = match self.tree() {
            Some(t) => match t.selected_path_index() {
                Some(p) => p,
                None => {
                    return DetailScreen::NoOperation;
                },
            },
            None => {
                return DetailScreen::NoOperation;
            },
        };
        if i >= self.specs.len() || p >= self.specs[i].paths.len() {
            return DetailScreen::NoOperation;
        }
        let n_ops = self.specs[i].paths[p].operations.len();
        assert(selected_path(*self) == Some(p));
        assert(crate::session::selected_ops(*self) == self.specs@[i as int].paths@[p as int].operations@);
        proof {
            crate::session::lemma_op_filter_bounds(crate::session::selected_ops(*self), self.ops.search.query@);
        }
        let k = match self.selected_operation_index() {
            Some(k) => k,
            None => 0,
        };
        assert(k as int == shown_op_index(*self));
        if k >= n_ops {
            return DetailScreen::Nothing;
        }
        let entry = &self.specs[i].paths[p];
        let webhook = entry.kind == PathKind::Webhook;
        let frame = self.detail.compose(&entry.operations[k], entry.path.as_str(), webhook, width, height);
        DetailScreen::Shown(frame)
    }
}

/// The hits of lines starting at virtual line `off` are strictly
/// increasing and lie among those lines.
proof fn lemma_hits_increasing(ls: Seq<Seq<(Seq<char>, Style)>>, q: Seq<char>, off: int)
    requires
        0 <= off,
        off + ls.len() <= usize::MAX + 1,
    ensures
        forall|i: int, j: int| 0 <= i < j < hits(ls, q, off).len() ==> hits(ls, q, off)[i] < hits(ls, q, off)[j],
        forall|i: int| 0 <= i < hits(ls, q, off).len() ==> off <= #[trigger] hits(ls, q, off)[i] < off + ls.len(),
    decreases ls.len(),
{
    if ls.len() > 0 {
        let h0 = hits(ls.drop_last(), q, off);
        let h = hits(ls, q, off);
        lemma_hits_increasing(ls.drop_last(), q, off);
        if contains(lower(plain(ls.last())), lower(q)) {
            let last = off + ls.len() - 1;
            assert(sat(last) == last);
            assert(h == h0.push(last as usize));
            assert forall|i: int| 0 <= i < h.len() implies off <= #[trigger] h[i] < off + ls.len() by {
                if i < h0.len() {
                    assert(h[i] == h0[i]);
                }
            }
            assert forall|i: int, j: int| 0 <= i < j < h.len() implies h[i] < h[j] by {
                assert(h[i] == h0[i]);
                if j < h0.len() {
                    assert(h[j] == h0[j]);
                }
            }
        } else {
            assert(h == h0);
        }
    }
}

/// Drawing lists the search matches in strictly increasing order of
/// their virtual lines (as long as the lines are countable in a `usize`).
pub proof fn lemma_compose_matches_increasing(
    d: DetailView,
    e: DetailView,
    o: Operation,
    path: Seq<char>,
    webhook: bool,
    width: u16,
    height: u16,
    r: DetailFrame,
)
    requires
        composed(d, e, o, path, webhook, width, height, r),
        ({
            let w = (if width >= 2 { width - 2 } else { 0 }) as nat;
            text_above(o, path, webhook, w).len() + req_rows(o, opened_of(d.schema_tree_state))
                + text_below(o, w).len() <= usize::MAX
        }),
    ensures
        forall|i: int, j: int|
            0 <= i < j < e.search_matches@.len() ==> e.search_matches@[i] < e.search_matches@[j],
{
    let w = (if width >= 2 { width - 2 } else { 0 }) as nat;
    reveal(matches_after);
    reveal(layout_of);
    let q = d.search.query@;
    if q.len() > 0 {
        let above = text_above(o, path, webhook, w);
        let below = text_below(o, w);
        let start = layout_of(d, o, path, webhook, w).below_start;
        lemma_hits_increasing(above, q, 0);
        lemma_hits_increasing(below, q, start);
        let h1 = hits(above, q, 0);
        let h2 = hits(below, q, start);
        let m = h1 + h2;
        assert(e.search_matches@ == m);
        assert forall|i: int, j: int| 0 <= i < j < m.len() implies m[i] < m[j] by {
            if j < h1.len() {
                assert(m[i] == h1[i] && m[j] == h1[j]);
            } else if i >= h1.len() {
                assert(m[i] == h2[i - h1.len()] && m[j] == h2[j - h1.len()]);
            } else {
                assert(m[i] == h1[i] && m[j] == h2[j - h1.len()]);
                assert(h1[i] < above.len());
                assert(start >= above.len());
            }
        }
    }
}

/// Drawing keeps the search cursor on a match: if it pointed at one (or
/// there were none), it still does, and when the query changes the matches
/// it is put back on one.
pub proof fn lemma_compose_keeps_cursor(
    d: DetailView,
    e: DetailView,
    o: Operation,
    path: Seq<char>,
    webhook: bool,
    width: u16,
    height: u16,
    r: DetailFrame,
)
    requires
        composed(d, e, o, path, webhook, width, height, r),
    ensures
        crate::detail::cursor_ok(d) ==> crate::detail::cursor_ok(e),
        e.search_matches@ != d.search_matches@ ==> crate::detail::cursor_ok(e),
{
}

/// After drawing with room for `h` rows, the window never starts past the
/// point where it would run beyond the last virtual line.
pub proof fn lemma_compose_clamps_scroll(
    d: DetailView,
    e: DetailView,
    o: Operation,
    path: Seq<char>,
    webhook: bool,
    width: u16,
    height: u16,
    r: DetailFrame,
)
    requires
        composed(d, e, o, path, webhook, width, height, r),
        height > 2,
    ensures
        ({
            let w = (if width >= 2 {
                width - 2
            } else {
                0
            }) as nat;
            let total = layout_of(d, o, path, webhook, w).total;
            &&& e.view_height == height - 2
            &&& e.scroll + e.view_height <= total || e.scroll == 0
            &&& e.scroll <= d.scroll
        }),
{
}

// ─── The segments fit the view ───────────────────────────────────────────────

/// Total rows of a list of segments.
pub open spec fn rows_total(s: Seq<(nat, SegV)>) -> int
    decreases s.len(),
{
    if s.len() == 0 {
        0
    } else {
        rows_total(s.drop_last()) + s.last().0
    }
}

/// Where a run of ranges starting at `from` has got to.
pub open spec fn reach(c: Seq<(int, int, SegV)>, from: int) -> int {
    if c.len() == 0 {
        from
    } else {
        c.last().1
    }
}

/// The ranges follow each other from `from` on, without overlapping.
pub open spec fn chain_ok(c: Seq<(int, int, SegV)>, from: int) -> bool
    decreases c.len(),
{
    if c.len() == 0 {
        true
    } else {
        chain_ok(c.drop_last(), from) && reach(c.drop_last(), from) <= c.last().0 && c.last().0 <= c.last().1
    }
}

/// `x` held inside `[top, bottom]`.
pub open spec fn clip(x: int, top: int, bottom: int) -> int {
    if x < top {
        top
    } else if x > bottom {
        bottom
    } else {
        x
    }
}

proof fn lemma_reach_ge(c: Seq<(int, int, SegV)>, from: int)
    requires
        chain_ok(c, from),
    ensures
        from <= reach(c, from),
    decreases c.len(),
{
    if c.len() > 0 {
        lemma_reach_ge(c.drop_last(), from);
    }
}

proof fn lemma_chain_concat(a: Seq<(int, int, SegV)>, b: Seq<(int, int, SegV)>, f: int, g: int)
    requires
        chain_ok(a, f),
        chain_ok(b, g),
        reach(a, f) <= g,
    ensures
        chain_ok(a + b, f),
        reach(a + b, f) <= reach(b, g),
    decreases b.len(),
{
    if b.len() == 0 {
        assert(a + b =~= a);
    } else {
        lemma_chain_concat(a, b.drop_last(), f, g);
        assert((a + b).drop_last() =~= a + b.drop_last());
        lemma_reach_ge(b.drop_last(), g);
    }
}

proof fn lemma_visible_rows(c: Seq<(int, int, SegV)>, from: int, top: int, bottom: int)
    requires
        chain_ok(c, from),
        top <= bottom,
    ensures
        rows_total(keep_visible(c, top, bottom)) <= clip(reach(c, from), top, bottom) - clip(from, top, bottom),
    decreases c.len(),
{
    if c.len() > 0 {
        lemma_visible_rows(c.drop_last(), from, top, bottom);
        lemma_reach_ge(c.drop_last(), from);
        let v = keep_visible(c.drop_last(), top, bottom);
        let r = seg_rows(c.last().0, c.last().1, top, bottom);
        if r > 0 {
            assert(keep_visible(c, top, bottom) == v.push((r as nat, c.last().2)));
            assert(v.push((r as nat, c.last().2)).drop_last() =~= v);
        }
    }
}

proof fn lemma_single_chain(x: (int, int, SegV), from: int)
    requires
        from <= x.0 <= x.1,
    ensures
        chain_ok(seq![x], from),
        reach(seq![x], from) == x.1,
{
    assert(seq![x].drop_last() =~= Seq::<(int, int, SegV)>::empty());
    assert(chain_ok(Seq::<(int, int, SegV)>::empty(), from));
    assert(seq![x].last() == x);
}

proof fn lemma_opt_chain(cond: bool, x: (int, int, SegV), from: int)
    requires
        from <= x.0 <= x.1,
    ensures
        chain_ok(opt_seg(cond, x), from),
        reach(opt_seg(cond, x), from) <= x.1,
{
    if cond {
        lemma_single_chain(x, from);
    }
}

proof fn lemma_end_of_step(base: int, lens: Seq<nat>, k: int)
    requires
        0 <= k < lens.len(),
    ensures
        end_of(base, lens.take(k + 1)) == sat(end_of(base, lens.take(k)) + lens[k]),
{
    assert(lens.take(k + 1).drop_last() =~= lens.take(k));
}

proof fn lemma_end_of_mono(base: int, lens: Seq<nat>, j: int, k: int)
    requires
        0 <= base <= usize::MAX,
        0 <= j <= k <= lens.len(),
    ensures
        end_of(base, lens.take(j)) <= end_of(base, lens.take(k)),
    decreases k - j,
{
    if j < k {
        lemma_end_of_mono(base, lens, j, k - 1);
        lemma_end_of_step(base, lens, k - 1);
        lemma_end_of_bounds(base, lens.take(k - 1));
    }
}

proof fn lemma_resp_chain(
    slots: Seq<(Seq<SchemaNode>, nat)>,
    l: LayoutV,
    focused: Option<usize>,
    n: int,
)
    requires
        0 <= n <= l.lens.len(),
        0 <= l.below_end <= usize::MAX,
        l.starts == Seq::new(l.lens.len(), |k: int| end_of(l.below_end, l.lens.take(k))),
    ensures
        chain_ok(resp_candidates(slots, l, focused, n), l.below_end),
        reach(resp_candidates(slots, l, focused, n), l.below_end) <= end_of(l.below_end, l.lens.take(n)),
    decreases n,
{
    if n <= 0 {
        assert(l.lens.take(0) =~= Seq::<nat>::empty());
    } else {
        let k = n - 1;
        lemma_resp_chain(slots, l, focused, k);
        lemma_end_of_step(l.below_end, l.lens, k);
        lemma_end_of_bounds(l.below_end, l.lens.take(k));
        lemma_end_of_mono(l.below_end, l.lens, 0, k);
        assert(l.lens.take(0) =~= Seq::<nat>::empty());
        let x = (
            l.starts[k],
            sat(l.starts[k] + l.lens[k]),
            SegV::Tree(
                to_items(slots[k].0, slots[k].1),
                Some(k as nat),
                tree_border(focused == Some(k as usize), Color::Green),
                tree_highlight(focused == Some(k as usize), Color::Green),
            ),
        );
        lemma_opt_chain(l.lens[k] > 0, x, l.starts[k]);
        lemma_chain_concat(
            resp_candidates(slots, l, focused, k),
            opt_seg(l.lens[k] > 0, x),
            l.below_end,
            l.starts[k],
        );
        lemma_reach_ge(opt_seg(l.lens[k] > 0, x), l.starts[k]);
    }
}

proof fn lemma_candidates_chain(d: DetailView, o: Operation, path: Seq<char>, webhook: bool, w: nat, scroll: int)
    requires
        text_above(o, path, webhook, w).len() <= usize::MAX,
    ensures
        chain_ok(candidates(d, o, path, webhook, w, scroll), 0),
{
    reveal(layout_of);
    let l = layout_of(d, o, path, webhook, w);
    let m = matches_after(d, o, path, webhook, w);
    let below = text_below(o, w);
    lemma_end_of_bounds(l.below_end, l.lens);
    let x0 = (0int, l.above as int, SegV::Text(highlight_all(text_above(o, path, webhook, w), 0, m), scroll as nat));
    let x1 = (
        l.above as int,
        l.below_start,
        SegV::Tree(
            to_items(req_tree(o).unwrap().0, req_tree(o).unwrap().1),
            None,
            tree_border(d.in_tree, Color::Cyan),
            tree_highlight(d.in_tree, Color::Cyan),
        ),
    );
    let x2 = (
        l.below_start,
        l.below_end,
        SegV::Text(
            highlight_all(below, l.below_start, m),
            (if scroll >= l.below_start {
                scroll - l.below_start
            } else {
                0
            }) as nat,
        ),
    );
    let x4 = (l.pad_start, l.total, SegV::Pad);
    let a0 = opt_seg(l.above > 0, x0);
    let a1 = opt_seg(shows_req(d, o), x1);
    let a2 = opt_seg(below.len() > 0, x2);
    let a3 = resp_candidates(slots_of(o.responses@), l, d.focused_resp_tree, l.lens.len() as int);
    let a4 = opt_seg(l.pad_start < l.total, x4);
    lemma_opt_chain(l.above > 0, x0, 0);
    lemma_opt_chain(shows_req(d, o), x1, l.above as int);
    lemma_opt_chain(below.len() > 0, x2, l.below_start);
    lemma_resp_chain(slots_of(o.responses@), l, d.focused_resp_tree, l.lens.len() as int);
    assert(l.lens.take(l.lens.len() as int) =~= l.lens);
    lemma_opt_chain(l.pad_start < l.total, x4, l.pad_start);
    lemma_chain_concat(a0, a1, 0, l.above as int);
    lemma_chain_concat(a0 + a1, a2, 0, l.below_start);
    lemma_chain_concat(a0 + a1 + a2, a3, 0, l.below_end);
    lemma_chain_concat(a0 + a1 + a2 + a3, a4, 0, l.pad_start);
    assert(candidates(d, o, path, webhook, w, scroll) == a0 + a1 + a2 + a3 + a4);
}

/// The visible segments of the detail never take more rows than the
/// window has, so they can be stacked inside it.
pub proof fn lemma_segments_fit(d: DetailView, o: Operation, path: Seq<char>, webhook: bool, w: nat, view_h: nat)
    requires
        text_above(o, path, webhook, w).len() <= usize::MAX,
    ensures
        body_after(d, o, path, webhook, w, view_h) matches BodyV::Segments(segs) ==> rows_total(segs) <= view_h,
{
    reveal(body_after);
    let l = layout_of(d, o, path, webhook, w);
    if view_h > 0 {
        let scroll = clamped_scroll(d, l.total, view_h);
        lemma_candidates_chain(d, o, path, webhook, w, scroll);
        lemma_visible_rows(candidates(d, o, path, webhook, w, scroll), 0, scroll, scroll + view_h);
    }
}

} // verus!
