//! How schema trees are shown: the header lines above a tree, the items of
//! the collapsible tree with their identifiers, and how many rows the
//! opened tree takes.
use vstd::prelude::*;

use crate::lines::{line_v, lines_v, Line, Span};
use crate::model::{kind_label, SchemaKindHint, SchemaNode};
use crate::styles::{patched, search_match_style, style, Color, Modifier, Style};
use crate::text::{truncate, truncated};

verus! {

// ─── Sizes and identifiers ───────────────────────────────────────────────────

/// Number of nodes in the subtree of `n`.
pub open spec fn subtree_size(n: SchemaNode) -> nat
    decreases n,
{
    1 + sizes(n.children@)
}

/// Number of nodes in a list of subtrees.
pub open spec fn sizes(s: Seq<SchemaNode>) -> nat
    decreases s,
{
    if s.len() == 0 {
        0
    } else {
        sizes(s.drop_last()) + subtree_size(s.last())
    }
}

/// Rows the subtree of `n` takes when it gets identifier `id` under
/// `parent`: one for `n`, plus those of its children when `n` is opened.
/// Identifiers are given in pre-order, so every node consumes
/// `subtree_size` identifiers whether shown or not.
pub open spec fn rows(n: SchemaNode, parent: Seq<usize>, id: nat, opened: Set<Seq<usize>>) -> nat
    decreases n,
{
    let me = parent.push(id as usize);
    1 + if n.children@.len() > 0 && opened.contains(me) {
        rows_seq(n.children@, me, id + 1, opened)
    } else {
        0
    }
}

pub open spec fn rows_seq(s: Seq<SchemaNode>, parent: Seq<usize>, id: nat, opened: Set<Seq<usize>>) -> nat
    decreases s,
{
    if s.len() == 0 {
        0
    } else {
        rows_seq(s.drop_last(), parent, id, opened) + rows(s.last(), parent, id + sizes(s.drop_last()), opened)
    }
}

pub proof fn lemma_rows_le(n: SchemaNode, parent: Seq<usize>, id: nat, opened: Set<Seq<usize>>)
    ensures
        rows(n, parent, id, opened) <= subtree_size(n),
    decreases n,
{
    lemma_rows_seq_le(n.children@, parent.push(id as usize), id + 1, opened);
}

pub proof fn lemma_rows_seq_le(s: Seq<SchemaNode>, parent: Seq<usize>, id: nat, opened: Set<Seq<usize>>)
    ensures
        rows_seq(s, parent, id, opened) <= sizes(s),
    decreases s,
{
    if s.len() > 0 {
        lemma_rows_seq_le(s.drop_last(), parent, id, opened);
        lemma_rows_le(s.last(), parent, id + sizes(s.drop_last()), opened);
    }
}

fn vec_contains(opened: &Vec<Vec<usize>>, p: &Vec<usize>) -> (b: bool)
    ensures
        b == opened@.map_values(|v: Vec<usize>| v@).to_set().contains(p@),
{
    let ghost ov = opened@.map_values(|v: Vec<usize>| v@);
    let n = opened.len();
    for i in 0..n
        invariant
            n == opened@.len(),
            ov == opened@.map_values(|v: Vec<usize>| v@),
            forall|j: int| 0 <= j < i ==> ov[j] != p@,
    {
        let q = &opened[i];
        let mut same = q.len() == p.len();
        if same {
            let m = q.len();
            for k in 0..m
                invariant
                    m == q@.len(),
                    m == p@.len(),
                    same == forall|t: int| 0 <= t < k ==> q@[t] == p@[t],
            {
                if q[k] != p[k] {
                    same = false;
                }
            }
            if same {
                assert(q@ =~= p@);
            }
        }
        if same {
            assert(ov[i as int] == p@);
            assert(ov.contains(p@));
            return true;
        }
        assert(ov[i as int] != p@) by {
            if q@.len() == p@.len() {
                assert(!(forall|t: int| 0 <= t < q@.len() ==> q@[t] == p@[t]));
            }
        }
    }
    assert(!ov.contains(p@));
    false
}

/// Consumes the identifiers of a subtree that is not shown.
pub fn skip_subtree(node: &SchemaNode, counter: &mut usize)
    requires
        *old(counter) + subtree_size(*node) <= usize::MAX,
    ensures
        *final(counter) == *old(counter) + subtree_size(*node),
    decreases node,
{
    *counter = *counter + 1;
    let n = node.children.len();
    for i in 0..n
        invariant
            n == node.children@.len(),
            *counter == *old(counter) + 1 + sizes(node.children@.take(i as int)),
            *old(counter) + subtree_size(*node) <= usize::MAX,
    {
        proof {
            assert(node.children@.take(i + 1).drop_last() =~= node.children@.take(i as int));
            lemma_sizes_prefix(node.children@, i + 1);
        }
        skip_subtree(&node.children[i], counter);
    }
    assert(node.children@.take(n as int) =~= node.children@);
}

pub proof fn lemma_sizes_prefix(s: Seq<SchemaNode>, i: int)
    requires
        0 <= i <= s.len(),
    ensures
        sizes(s.take(i)) <= sizes(s),
    decreases s.len() - i,
{
    if i < s.len() {
        lemma_sizes_prefix(s, i + 1);
        assert(s.take(i + 1).drop_last() =~= s.take(i));
    } else {
        assert(s.take(i) =~= s);
    }
}

/// The rows the subtree of `node` takes, given identifiers from
/// `*id_counter` on; advances the counter past the subtree.
pub fn count_node_rows(
    node: &SchemaNode,
    parent_path: &Vec<usize>,
    id_counter: &mut usize,
    opened: &Vec<Vec<usize>>,
) -> (r: usize)
    requires
        *old(id_counter) + subtree_size(*node) <= usize::MAX,
    ensures
        r == rows(*node, parent_path@, *old(id_counter) as nat, opened@.map_values(|v: Vec<usize>| v@).to_set()),
        *final(id_counter) == *old(id_counter) + subtree_size(*node),
    decreases node,
{
    let ghost ov = opened@.map_values(|v: Vec<usize>| v@).to_set();
    let my_id = *id_counter;
    *id_counter = *id_counter + 1;
    let mut my_path = parent_path.clone();
    my_path.push(my_id);
    proof {
        assert(my_path@ =~= parent_path@.push(my_id));
        lemma_rows_le(*node, parent_path@, my_id as nat, ov);
    }
    let mut count: usize = 1;
    let n = node.children.len();
    if n > 0 && vec_contains(opened, &my_path) {
        for i in 0..n
            invariant
                n == node.children@.len(),
                ov == opened@.map_values(|v: Vec<usize>| v@).to_set(),
                *id_counter == my_id + 1 + sizes(node.children@.take(i as int)),
                count == 1 + rows_seq(node.children@.take(i as int), my_path@, (my_id + 1) as nat, ov),
                my_id + subtree_size(*node) <= usize::MAX,
        {
            proof {
                assert(node.children@.take(i + 1).drop_last() =~= node.children@.take(i as int));
                lemma_sizes_prefix(node.children@, i + 1);
                lemma_rows_seq_le(node.children@.take(i + 1), my_path@, (my_id + 1) as nat, ov);
            }
            let c = count_node_rows(&node.children[i], &my_path, id_counter, opened);
            count = count + c;
        }
        assert(node.children@.take(n as int) =~= node.children@);
    } else {
        for i in 0..n
            invariant
                n == node.children@.len(),
                *id_counter == my_id + 1 + sizes(node.children@.take(i as int)),
                my_id + subtree_size(*node) <= usize::MAX,
        {
            proof {
                assert(node.children@.take(i + 1).drop_last() =~= node.children@.take(i as int));
                lemma_sizes_prefix(node.children@, i + 1);
            }
            skip_subtree(&node.children[i], id_counter);
        }
        assert(node.children@.take(n as int) =~= node.children@);
    }
    count
}

/// The size of the subtree of `node`, when it is at most `limit`.
fn size_within(node: &SchemaNode, limit: usize) -> (r: Option<usize>)
    ensures
        r == (if subtree_size(*node) <= limit {
            Some(subtree_size(*node) as usize)
        } else {
            None::<usize>
        }),
    decreases node,
{
    if limit == 0 {
        return None;
    }
    let mut total: usize = 1;
    let n = node.children.len();
    for i in 0..n
        invariant
            n == node.children@.len(),
            total == 1 + sizes(node.children@.take(i as int)),
            total <= limit,
    {
        proof {
            assert(node.children@.take(i + 1).drop_last() =~= node.children@.take(i as int));
            lemma_sizes_prefix(node.children@, i + 1);
        }
        match size_within(&node.children[i], limit - total) {
            Some(k) => {
                total = total + k;
            },
            None => {
                return None;
            },
        }
    }
    assert(node.children@.take(n as int) =~= node.children@);
    Some(total)
}

/// Whether identifiers from `id_start` suffice for every node of the
/// subtrees `children`.
pub fn ids_fit(children: &Vec<SchemaNode>, id_start: usize) -> (b: bool)
    ensures
        b == (id_start + sizes(children@) <= usize::MAX),
{
    let limit = usize::MAX - id_start;
    let mut total: usize = 0;
    let n = children.len();
    for i in 0..n
        invariant
            n == children@.len(),
            limit == usize::MAX - id_start,
            total == sizes(children@.take(i as int)),
            total <= limit,
    {
        proof {
            assert(children@.take(i + 1).drop_last() =~= children@.take(i as int));
            lemma_sizes_prefix(children@, i + 1);
        }
        match size_within(&children[i], limit - total) {
            Some(k) => {
                total = total + k;
            },
            None => {
                return false;
            },
        }
    }
    assert(children@.take(n as int) =~= children@);
    true
}

/// The rows a list of top-level subtrees takes, identifiers starting at
/// `id_start`.
pub fn count_visible_tree_rows(children: &Vec<SchemaNode>, id_start: usize, opened: &Vec<Vec<usize>>) -> (r: usize)
    requires
        id_start + sizes(children@) <= usize::MAX,
    ensures
        r == rows_seq(children@, Seq::empty(), id_start as nat, opened@.map_values(|v: Vec<usize>| v@).to_set()),
{
    let ghost ov = opened@.map_values(|v: Vec<usize>| v@).to_set();
    let mut counter = id_start;
    let mut total: usize = 0;
    let root: Vec<usize> = Vec::new();
    let n = children.len();
    for i in 0..n
        invariant
            n == children@.len(),
            ov == opened@.map_values(|v: Vec<usize>| v@).to_set(),
            root@ == Seq::<usize>::empty(),
            counter == id_start + sizes(children@.take(i as int)),
            total == rows_seq(children@.take(i as int), Seq::empty(), id_start as nat, ov),
            id_start + sizes(children@) <= usize::MAX,
    {
        proof {
            assert(children@.take(i + 1).drop_last() =~= children@.take(i as int));
            lemma_sizes_prefix(children@, i + 1);
            lemma_rows_seq_le(children@.take(i + 1), Seq::empty(), id_start as nat, ov);
        }
        let c = count_node_rows(&children[i], &root, &mut counter, opened);
        total = total + c;
    }
    assert(children@.take(n as int) =~= children@);
    total
}

// ─── Tree items ──────────────────────────────────────────────────────────────

/// An item of the collapsible schema tree.
#[derive(Debug)]
pub struct SchemaItem {
    pub id: usize,
    pub text: Line,
    pub children: Vec<SchemaItem>,
}

pub struct ItemV {
    pub id: nat,
    pub text: Seq<(Seq<char>, Style)>,
    pub children: Seq<ItemV>,
}

pub open spec fn item_v(i: SchemaItem) -> ItemV
    decreases i,
{
    ItemV { id: i.id as nat, text: line_v(i.text), children: items_v(i.children@) }
}

pub open spec fn items_v(s: Seq<SchemaItem>) -> Seq<ItemV>
    decreases s,
{
    if s.len() == 0 {
        Seq::empty()
    } else {
        items_v(s.drop_last()).push(item_v(s.last()))
    }
}

/// `name  kind  [required]  — description`.
pub open spec fn item_text(n: SchemaNode) -> Seq<(Seq<char>, Style)> {
    let name_style = if n.required {
        style(Some(Color::White), None, true, false)
    } else {
        style(Some(Color::Cyan), None, false, false)
    };
    let base = seq![(n.label@, name_style), ("  "@ + kind_label(n.kind), style(Some(Color::Blue), None, false, false))];
    let req = if n.required {
        seq![("  "@, style(None, None, false, false)), ("[required]"@, style(Some(Color::Red), None, false, false))]
    } else {
        Seq::empty()
    };
    let desc = match n.description {
        Some(d) => seq![("  — "@ + truncated(d@, 60), style(Some(Color::Gray), None, false, false))],
        None => Seq::empty(),
    };
    base + req + desc
}

/// The tree item of `n` with identifier `id`; its descendants get the
/// following identifiers in pre-order.
pub open spec fn to_item(n: SchemaNode, id: nat) -> ItemV
    decreases n,
{
    ItemV { id, text: item_text(n), children: to_items(n.children@, id + 1) }
}

pub open spec fn to_items(s: Seq<SchemaNode>, id: nat) -> Seq<ItemV>
    decreases s,
{
    if s.len() == 0 {
        Seq::empty()
    } else {
        to_items(s.drop_last(), id).push(to_item(s.last(), id + sizes(s.drop_last())))
    }
}

fn item_line(n: &SchemaNode) -> (l: Line)
    ensures
        line_v(l) == item_text(*n),
{
    let name_style = if n.required {
        Style::new().fg(Color::White).add_modifier(Modifier::bold())
    } else {
        Style::new().fg(Color::Cyan)
    };
    let mut spans: Vec<Span> = Vec::new();
    spans.push(Span { content: n.label.clone(), style: name_style });
    let mut kind = "  ".to_owned();
    kind.append(n.kind.label());
    spans.push(Span { content: kind, style: Style::new().fg(Color::Blue) });
    if n.required {
        spans.push(Span { content: "  ".to_owned(), style: Style::new() });
        spans.push(Span { content: "[required]".to_owned(), style: Style::new().fg(Color::Red) });
    }
    match &n.description {
        Some(d) => {
            let mut t = "  — ".to_owned();
            let tr = truncate(d.as_str(), 60);
            t.append(tr.as_str());
            spans.push(Span { content: t, style: Style::new().fg(Color::Gray) });
        },
        None => {},
    }
    let l = Line { spans };
    assert(line_v(l) =~= item_text(*n));
    l
}

pub proof fn lemma_items_v(s: Seq<SchemaItem>)
    ensures
        items_v(s).len() == s.len(),
        forall|i: int| 0 <= i < s.len() ==> #[trigger] items_v(s)[i] == item_v(s[i]),
    decreases s.len(),
{
    if s.len() > 0 {
        lemma_items_v(s.drop_last());
        assert forall|i: int| 0 <= i < s.len() - 1 implies s.drop_last()[i] == s[i] by {}
    }
}

/// The tree item of `node`, identifiers taken from `*counter` on in
/// pre-order; advances the counter past the subtree.
pub fn schema_node_to_tree_item(node: &SchemaNode, counter: &mut usize) -> (r: SchemaItem)
    requires
        *old(counter) + subtree_size(*node) <= usize::MAX,
    ensures
        item_v(r) == to_item(*node, *old(counter) as nat),
        *final(counter) == *old(counter) + subtree_size(*node),
    decreases node,
{
    let id = *counter;
    *counter = *counter + 1;
    let text = item_line(node);
    let mut children: Vec<SchemaItem> = Vec::new();
    let n = node.children.len();
    for i in 0..n
        invariant
            n == node.children@.len(),
            *counter == id + 1 + sizes(node.children@.take(i as int)),
            items_v(children@) == to_items(node.children@.take(i as int), (id + 1) as nat),
            id + subtree_size(*node) <= usize::MAX,
    {
        proof {
            assert(node.children@.take(i + 1).drop_last() =~= node.children@.take(i as int));
            lemma_sizes_prefix(node.children@, i + 1);
        }
        let c = schema_node_to_tree_item(&node.children[i], counter);
        let ghost before = children@;
        children.push(c);
        proof {
            assert(children@.drop_last() =~= before);
        }
    }
    assert(node.children@.take(n as int) =~= node.children@);
    SchemaItem { id, text, children }
}

/// The items of a list of top-level subtrees, identifiers from `id_start`.
pub fn schema_children_to_tree_items(children: &Vec<SchemaNode>, id_start: usize) -> (r: Vec<SchemaItem>)
    requires
        id_start + sizes(children@) <= usize::MAX,
    ensures
        items_v(r@) == to_items(children@, id_start as nat),
{
    let mut counter = id_start;
    let mut out: Vec<SchemaItem> = Vec::new();
    let n = children.len();
    for i in 0..n
        invariant
            n == children@.len(),
            counter == id_start + sizes(children@.take(i as int)),
            items_v(out@) == to_items(children@.take(i as int), id_start as nat),
            id_start + sizes(children@) <= usize::MAX,
    {
        proof {
            assert(children@.take(i + 1).drop_last() =~= children@.take(i as int));
            lemma_sizes_prefix(children@, i + 1);
        }
        let c = schema_node_to_tree_item(&children[i], &mut counter);
        let ghost before = out@;
        out.push(c);
        proof {
            assert(out@.drop_last() =~= before);
        }
    }
    assert(children@.take(n as int) =~= children@);
    out
}

// ─── Header of a schema tree ─────────────────────────────────────────────────

/// `  type  <kind>   <description>`.
pub open spec fn type_header(n: SchemaNode) -> Seq<(Seq<char>, Style)> {
    seq![("  type  "@, style(Some(Color::DarkGray), None, false, false)), (kind_label(n.kind), style(Some(Color::Magenta), None, true, false))]
        + match n.description {
        Some(d) => seq![("   "@ + truncated(d@, 80), style(Some(Color::Gray), None, false, false))],
        None => Seq::empty(),
    }
}

/// `  items <kind>   <description>`.
pub open spec fn items_header(n: SchemaNode) -> Seq<(Seq<char>, Style)> {
    seq![("  items "@, style(Some(Color::DarkGray), None, false, false)), (kind_label(n.kind), style(Some(Color::Cyan), None, false, false))]
        + match n.description {
        Some(d) => seq![("   "@ + truncated(d@, 72), style(Some(Color::Gray), None, false, false))],
        None => Seq::empty(),
    }
}

/// An array whose item schema is shown in its place.
pub open spec fn shows_items(n: SchemaNode) -> bool {
    n.kind is Array && n.children@.len() > 0
}

/// The header lines above a schema tree, the nodes listed in the tree (an
/// array shows its items' children), and the first identifier they get.
pub fn schema_effective_roots(node: &SchemaNode) -> (r: (Vec<Line>, &Vec<SchemaNode>, usize))
    ensures
        shows_items(*node) ==> lines_v(r.0@) == seq![type_header(*node), items_header(node.children@[0])]
            && *r.1 == node.children@[0].children && r.2 == 2,
        !shows_items(*node) ==> lines_v(r.0@) == seq![type_header(*node)] && *r.1 == node.children
            && r.2 == 1,
{
    let mut header: Vec<Line> = Vec::new();
    let mut root: Vec<Span> = Vec::new();
    root.push(Span { content: "  type  ".to_owned(), style: Style::new().fg(Color::DarkGray) });
    root.push(Span { content: node.kind.label().to_owned(), style: Style::new().fg(Color::Magenta).add_modifier(Modifier::bold()) });
    match &node.description {
        Some(d) => {
            let mut t = "   ".to_owned();
            let tr = truncate(d.as_str(), 80);
            t.append(tr.as_str());
            root.push(Span { content: t, style: Style::new().fg(Color::Gray) });
        },
        None => {},
    }
    let l0 = Line { spans: root };
    assert(line_v(l0) =~= type_header(*node));
    header.push(l0);
    let is_array = match node.kind {
        SchemaKindHint::Array => true,
        _ => false,
    };
    if is_array && node.children.len() > 0 {
        let items = &node.children[0];
        let mut sp: Vec<Span> = Vec::new();
        sp.push(Span { content: "  items ".to_owned(), style: Style::new().fg(Color::DarkGray) });
        sp.push(Span { content: items.kind.label().to_owned(), style: Style::new().fg(Color::Cyan) });
        match &items.description {
            Some(d) => {
                let mut t = "   ".to_owned();
                let tr = truncate(d.as_str(), 72);
                t.append(tr.as_str());
                sp.push(Span { content: t, style: Style::new().fg(Color::Gray) });
            },
            None => {},
        }
        let l1 = Line { spans: sp };
        assert(line_v(l1) =~= items_header(*items));
        header.push(l1);
        assert(lines_v(header@) =~= seq![type_header(*node), items_header(node.children@[0])]);
        return (header, &items.children, 2);
    }
    assert(lines_v(header@) =~= seq![type_header(*node)]);
    (header, &node.children, 1)
}

// ─── Search highlighting ─────────────────────────────────────────────────────

/// The text of a line without its styles.
pub open spec fn plain(spans: Seq<(Seq<char>, Style)>) -> Seq<char>
    decreases spans.len(),
{
    if spans.len() == 0 {
        Seq::empty()
    } else {
        plain(spans.drop_last()) + spans.last().0
    }
}

pub fn line_plain_text(line: &Line) -> (s: String)
    ensures
        s@ == plain(line_v(*line)),
{
    let mut out = String::new();
    let n = line.spans.len();
    for i in 0..n
        invariant
            n == line.spans@.len(),
            out@ == plain(line_v(*line).take(i as int)),
    {
        proof {
            assert(line_v(*line).take(i + 1).drop_last() =~= line_v(*line).take(i as int));
        }
        out.append(line.spans[i].content.as_str());
    }
    assert(line_v(*line).take(n as int) =~= line_v(*line));
    out
}

/// `l` with the search-match style laid over every span.
pub open spec fn highlighted(l: Seq<(Seq<char>, Style)>) -> Seq<(Seq<char>, Style)> {
    l.map_values(|s: (Seq<char>, Style)| (s.0, patched(s.1, style(Some(Color::Black), Some(Color::Yellow), false, false))))
}

/// Lays the search-match style over every span of `line`.
fn highlight_line(line: &mut Line)
    ensures
        line_v(*final(line)) == highlighted(line_v(*old(line))),
{
    let m = line.spans.len();
    let ghost before = line.spans@;
    for j in 0..m
        invariant
            m == line.spans@.len(),
            before.len() == m,
            forall|k: int|
                0 <= k < j ==> span_pair(#[trigger] line.spans@[k]) == (before[k].content@, patched(
                    before[k].style,
                    style(Some(Color::Black), Some(Color::Yellow), false, false),
                )),
            forall|k: int| j <= k < m ==> #[trigger] line.spans@[k] == before[k],
    {
        let st = line.spans[j].style.patch(search_match_style());
        line.spans[j].style = st;
    }
    assert(line_v(*line) =~= highlighted(line_v(*old(line))));
}

/// Whether `x` is among the match positions.
pub open spec fn is_match(matches: Seq<usize>, x: int) -> bool {
    exists|j: int| 0 <= j < matches.len() && matches[j] as int == x
}

/// `ls` with the search-match style laid over the lines whose position,
/// counted from `offset`, is a match.
pub open spec fn highlight_all(ls: Seq<Seq<(Seq<char>, Style)>>, offset: int, matches: Seq<usize>) -> Seq<
    Seq<(Seq<char>, Style)>,
> {
    Seq::new(
        ls.len(),
        |i: int|
            if is_match(matches, offset + i) {
                highlighted(ls[i])
            } else {
                ls[i]
            },
    )
}

/// Lays the search-match style over the lines whose position (counted
/// from `offset`) is among the sorted `matches`.
pub fn highlight_matched_lines(lines: &mut Vec<Line>, offset: usize, matches: &Vec<usize>)
    ensures
        lines_v(final(lines)@) == highlight_all(lines_v(old(lines)@), offset as int, matches@),
{
    let n = lines.len();
    let ghost orig = lines@;
    for i in 0..n
        invariant
            n == lines@.len(),
            orig.len() == n,
            forall|k: int|
                0 <= k < i ==> line_v(#[trigger] lines@[k]) == if is_match(matches@, offset + k) {
                    highlighted(line_v(orig[k]))
                } else {
                    line_v(orig[k])
                },
            forall|k: int| i <= k < n ==> #[trigger] lines@[k] == orig[k],
    {
        let hit = match offset.checked_add(i) {
            Some(x) => contains_usize(matches, x),
            None => false,
        };
        proof {
            if offset + i > usize::MAX {
                assert(!is_match(matches@, offset + i));
            }
        }
        if hit {
            highlight_line(&mut lines[i]);
        }
    }
    assert(lines_v(lines@) =~= highlight_all(lines_v(orig), offset as int, matches@));
}

pub open spec fn span_pair(s: Span) -> (Seq<char>, Style) {
    (s.content@, s.style)
}

fn contains_usize(v: &Vec<usize>, x: usize) -> (b: bool)
    ensures
        b == is_match(v@, x as int),
{
    let n = v.len();
    for i in 0..n
        invariant
            n == v@.len(),
            forall|j: int| 0 <= j < i ==> v@[j] != x,
    {
        if v[i] == x {
            assert(v@[i as int] == x);
            return true;
        }
    }
    false
}

} // verus!
