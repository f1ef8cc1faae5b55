//! The text of the full-screen operation detail: the title line, tags,
//! summary, description, the parameter table grouped by location, the
//! request-body header and the responses table.
use vstd::prelude::*;

use crate::lines::{line_v, lines_v, pad_right, raw, styled, Line, Span};
use crate::model::{Operation, Param, RequestBody, Response};
use crate::styles::{
    code_style, method_color, method_style, response_code_style, style, Color, Modifier, Style,
};
use crate::text::{chars_of, dec, lines, lines_of, push_char, push_dec, string_of};

verus! {

// ─── Building blocks ─────────────────────────────────────────────────────────

/// The style that changes nothing.
pub open spec fn unstyled() -> Style {
    style(None, None, false, false)
}

/// Foreground colour only.
pub open spec fn fg(c: Color) -> Style {
    style(Some(c), None, false, false)
}

/// Foreground colour, bold.
pub open spec fn fg_bold(c: Color) -> Style {
    style(Some(c), None, true, false)
}

/// `s` with bold added.
pub open spec fn with_bold(s: Style) -> Style {
    Style { add_modifier: Modifier { bold: true, ..s.add_modifier }, ..s }
}

/// The line without any span.
pub open spec fn blank() -> Seq<(Seq<char>, Style)> {
    Seq::empty()
}

/// `c` repeated `n` times.
pub open spec fn repeated(c: char, n: nat) -> Seq<char> {
    Seq::new(n, |i: int| c)
}

/// The horizontal rule that separates the sections.
pub open spec fn divider_v(w: nat) -> Seq<(Seq<char>, Style)> {
    seq![(repeated('─', w), fg(Color::DarkGray))]
}

fn sp(text: &str, st: Style) -> (s: Span)
    ensures
        (s.content@, s.style) == (text@, st),
{
    Span { content: text.to_owned(), style: st }
}

fn push_line(out: &mut Vec<Line>, spans: Vec<Span>)
    ensures
        lines_v(final(out)@) == lines_v(old(out)@).push(line_v(Line { spans })),
{
    let l = Line { spans };
    let ghost lv = line_v(l);
    out.push(l);
    assert(lines_v(out@) =~= lines_v(old(out)@).push(lv));
}

fn push_blank(out: &mut Vec<Line>)
    ensures
        lines_v(final(out)@) == lines_v(old(out)@).push(blank()),
{
    let spans: Vec<Span> = Vec::new();
    assert(line_v(Line { spans }) =~= blank());
    push_line(out, spans);
}

fn repeat_char(c: char, n: usize) -> (s: String)
    ensures
        s@ == repeated(c, n as nat),
{
    let mut s = String::new();
    for i in 0..n
        invariant
            s@ =~= repeated(c, i as nat),
    {
        push_char(&mut s, c);
    }
    s
}

fn push_divider(out: &mut Vec<Line>, w: usize)
    ensures
        lines_v(final(out)@) == lines_v(old(out)@).push(divider_v(w as nat)),
{
    let mut spans: Vec<Span> = Vec::new();
    spans.push(styled(repeat_char('─', w), Style::new().fg(Color::DarkGray)));
    assert(line_v(Line { spans }) =~= divider_v(w as nat));
    push_line(out, spans);
}

/// `text` padded with spaces to `w` characters.
fn pad_to(text: &str, w: usize) -> (s: String)
    ensures
        s@ == pad_right(text@, w as nat),
{
    let mut s = text.to_owned();
    let n = chars_of(text).len();
    let mut k = n;
    while k < w
        invariant
            n == text@.len(),
            n <= k <= w || (n >= w && k == n),
            s@ == text@ + crate::lines::spaces((k - n) as nat),
        decreases w - k,
    {
        push_char(&mut s, ' ');
        k += 1;
    }
    proof {
        if n >= w {
            assert(crate::lines::spaces(0) =~= Seq::<char>::empty());
            assert(s@ =~= text@);
        }
    }
    s
}

/// `left`, then `mid`, then `right`.
fn framed(left: &str, mid: &str, right: &str) -> (s: String)
    ensures
        s@ == left@ + mid@ + right@,
{
    let mut s = left.to_owned();
    s.append(mid);
    s.append(right);
    s
}

// ─── Header ──────────────────────────────────────────────────────────────────

/// ` METHOD   [WH] path  [deprecated]`.
pub open spec fn title_v(o: Operation, path: Seq<char>, webhook: bool) -> Seq<(Seq<char>, Style)> {
    let a = seq![(" "@ + o.method@ + " "@, with_bold(method_style(o.method@))), ("  "@, unstyled())];
    let b = if webhook {
        a.push(("[WH] "@, style(Some(Color::Black), Some(Color::Magenta), true, false)))
    } else {
        a
    };
    let c = b.push((path, fg_bold(Color::White)));
    if o.deprecated {
        c.push(("  "@, unstyled())).push(("[deprecated]"@, fg(Color::LightRed)))
    } else {
        c
    }
}

/// `[tag]  ` for each tag.
pub open spec fn tag_chips(tags: Seq<String>) -> Seq<(Seq<char>, Style)>
    decreases tags.len(),
{
    if tags.len() == 0 {
        Seq::empty()
    } else {
        tag_chips(tags.drop_last()).push(("["@ + tags.last()@ + "]"@, fg(Color::Cyan))).push(("  "@, unstyled()))
    }
}

/// The description's lines, under a `Description` label, unless the
/// operation has none or it repeats the summary.
pub open spec fn description_v(o: Operation) -> Seq<Seq<(Seq<char>, Style)>> {
    match o.description {
        Some(d) => if o.summary matches Some(s) && s@ == d@ {
            Seq::empty()
        } else {
            seq![blank(), seq![("  Description"@, fg(Color::DarkGray))]] + lines(d@).map_values(
                |l: Seq<char>| seq![("    "@ + l, fg(Color::Gray))],
            )
        },
        None => Seq::empty(),
    }
}

/// Title, tags, blank line, summary, operation id and description.
pub open spec fn head_v(o: Operation, path: Seq<char>, webhook: bool) -> Seq<Seq<(Seq<char>, Style)>> {
    seq![title_v(o, path, webhook)] + (if o.tags@.len() > 0 {
        seq![seq![("  "@, unstyled())] + tag_chips(o.tags@)]
    } else {
        Seq::empty()
    }) + seq![blank()] + match o.summary {
        Some(s) => seq![seq![("  Summary      "@, fg(Color::DarkGray)), (s@, fg_bold(Color::White))]],
        None => Seq::empty(),
    } + match o.operation_id {
        Some(i) => seq![seq![("  Operation ID "@, fg(Color::DarkGray)), (i@, fg(Color::Cyan))]],
        None => Seq::empty(),
    } + description_v(o)
}

fn push_title(out: &mut Vec<Line>, op: &Operation, path: &str, webhook: bool)
    ensures
        lines_v(final(out)@) == lines_v(old(out)@).push(title_v(*op, path@, webhook)),
{
    let mut spans: Vec<Span> = Vec::new();
    spans.push(styled(
        framed(" ", op.method.as_str(), " "),
        method_color(op.method.as_str()).add_modifier(Modifier::bold()),
    ));
    spans.push(raw("  "));
    if webhook {
        spans.push(sp("[WH] ", Style::new().fg(Color::Black).bg(Color::Magenta).add_modifier(Modifier::bold())));
    }
    spans.push(sp(path, Style::new().fg(Color::White).add_modifier(Modifier::bold())));
    if op.deprecated {
        spans.push(raw("  "));
        spans.push(sp("[deprecated]", Style::new().fg(Color::LightRed)));
    }
    assert(line_v(Line { spans }) =~= title_v(*op, path@, webhook));
    push_line(out, spans);
}

fn push_tags(out: &mut Vec<Line>, tags: &Vec<String>)
    requires
        tags@.len() > 0,
    ensures
        lines_v(final(out)@) == lines_v(old(out)@).push(seq![("  "@, unstyled())] + tag_chips(tags@)),
{
    let mut spans: Vec<Span> = Vec::new();
    spans.push(raw("  "));
    let n = tags.len();
    for i in 0..n
        invariant
            n == tags@.len(),
            line_v(Line { spans }) == seq![("  "@, unstyled())] + tag_chips(tags@.take(i as int)),
    {
        let ghost before = line_v(Line { spans });
        spans.push(styled(framed("[", tags[i].as_str(), "]"), Style::new().fg(Color::Cyan)));
        spans.push(raw("  "));
        proof {
            assert(tags@.take(i + 1).drop_last() =~= tags@.take(i as int));
            assert(line_v(Line { spans }) =~= before.push(
                ("["@ + tags@[i as int]@ + "]"@, fg(Color::Cyan)),
            ).push(("  "@, unstyled())));
        }
    }
    assert(tags@.take(n as int) =~= tags@);
    push_line(out, spans);
}

fn push_description(out: &mut Vec<Line>, op: &Operation)
    ensures
        lines_v(final(out)@) == lines_v(old(out)@) + description_v(*op),
{
    match &op.description {
        Some(d) => {
            let same = match &op.summary {
                Some(s) => crate::text::str_eq(s.as_str(), d.as_str()),
                None => false,
            };
            if same {
                assert(lines_v(out@) =~= lines_v(old(out)@) + description_v(*op));
                return;
            }
            push_blank(out);
            let mut label: Vec<Span> = Vec::new();
            label.push(sp("  Description", Style::new().fg(Color::DarkGray)));
            assert(line_v(Line { spans: label }) =~= seq![("  Description"@, fg(Color::DarkGray))]);
            push_line(out, label);
            let ghost start = lines_v(out@);
            let ls = lines_of(&chars_of(d.as_str()));
            let ghost lsv = lines(d@);
            assert(ls@.map_values(|l: Vec<char>| l@) == lsv);
            let n = ls.len();
            for i in 0..n
                invariant
                    n == ls@.len(),
                    ls@.map_values(|l: Vec<char>| l@) == lsv,
                    lines_v(out@) == start + lsv.take(i as int).map_values(
                        |l: Seq<char>| seq![("    "@ + l, fg(Color::Gray))],
                    ),
            {
                let mut t = "    ".to_owned();
                let piece = string_of(&ls[i]);
                t.append(piece.as_str());
                let mut spans: Vec<Span> = Vec::new();
                spans.push(styled(t, Style::new().fg(Color::Gray)));
                proof {
                    assert(lsv[i as int] == ls@[i as int]@);
                    assert(line_v(Line { spans }) =~= seq![("    "@ + lsv[i as int], fg(Color::Gray))]);
                }
                push_line(out, spans);
                assert(lsv.take(i + 1).map_values(|l: Seq<char>| seq![("    "@ + l, fg(Color::Gray))])
                    =~= lsv.take(i as int).map_values(|l: Seq<char>| seq![("    "@ + l, fg(Color::Gray))]).push(
                    seq![("    "@ + lsv[i as int], fg(Color::Gray))],
                ));
            }
            assert(lsv.take(n as int) =~= lsv);
            assert(lines_v(out@) =~= lines_v(old(out)@) + description_v(*op));
        },
        None => {
            assert(lines_v(out@) =~= lines_v(old(out)@) + description_v(*op));
        },
    }
}

fn push_head(out: &mut Vec<Line>, op: &Operation, path: &str, webhook: bool)
    ensures
        lines_v(final(out)@) == lines_v(old(out)@) + head_v(*op, path@, webhook),
{
    let ghost s0 = lines_v(out@);
    push_title(out, op, path, webhook);
    if op.tags.len() > 0 {
        push_tags(out, &op.tags);
    }
    push_blank(out);
    let ghost s1 = lines_v(out@);
    match &op.summary {
        Some(s) => {
            let mut spans: Vec<Span> = Vec::new();
            spans.push(sp("  Summary      ", Style::new().fg(Color::DarkGray)));
            spans.push(styled(s.clone(), Style::new().fg(Color::White).add_modifier(Modifier::bold())));
            assert(line_v(Line { spans }) =~= seq![("  Summary      "@, fg(Color::DarkGray)), (s@, fg_bold(Color::White))]);
            push_line(out, spans);
        },
        None => {},
    }
    let ghost s2 = lines_v(out@);
    match &op.operation_id {
        Some(i) => {
            let mut spans: Vec<Span> = Vec::new();
            spans.push(sp("  Operation ID ", Style::new().fg(Color::DarkGray)));
            spans.push(styled(i.clone(), Style::new().fg(Color::Cyan)));
            assert(line_v(Line { spans }) =~= seq![("  Operation ID "@, fg(Color::DarkGray)), (i@, fg(Color::Cyan))]);
            push_line(out, spans);
        },
        None => {},
    }
    let ghost s3 = lines_v(out@);
    push_description(out, op);
    proof {
        let tags_part: Seq<Seq<(Seq<char>, Style)>> = if op.tags@.len() > 0 {
            seq![seq![("  "@, unstyled())] + tag_chips(op.tags@)]
        } else {
            Seq::empty()
        };
        assert(s1 =~= s0 + seq![title_v(*op, path@, webhook)] + tags_part + seq![blank()]);
        assert(lines_v(out@) =~= s0 + head_v(*op, path@, webhook));
    }
}


// ─── Parameters ──────────────────────────────────────────────────────────────

/// Style of a parameter's name: struck through when deprecated, bold when
/// required.
pub open spec fn param_name_style(p: Param) -> Style {
    if p.deprecated {
        style(Some(Color::DarkGray), None, false, true)
    } else if p.required {
        fg_bold(Color::White)
    } else {
        fg(Color::Gray)
    }
}

/// The declared type of a parameter, `string` when it has none.
pub open spec fn param_type(p: Param) -> Seq<char> {
    match p.schema_type {
        Some(t) => t@,
        None => "string"@,
    }
}

/// `name  type  [required] [deprecated] description`, in fixed-width columns.
pub open spec fn param_row_v(p: Param) -> Seq<(Seq<char>, Style)> {
    let a = seq![
        ("    "@, unstyled()),
        (pad_right(p.name@, 22), param_name_style(p)),
        (pad_right(param_type(p), 10) + " "@, fg(Color::Blue)),
    ];
    let b = if p.required {
        a.push(("[required]"@, fg(Color::Red))).push((" "@, unstyled()))
    } else {
        a
    };
    let c = if p.deprecated {
        b.push(("[deprecated]"@, fg(Color::LightRed))).push((" "@, unstyled()))
    } else {
        b
    };
    match p.description {
        Some(d) => c.push((d@, fg(Color::Gray))),
        None => c,
    }
}

/// The rows of the parameters at location `loc`, in order.
pub open spec fn rows_at(ps: Seq<Param>, loc: Seq<char>) -> Seq<Seq<(Seq<char>, Style)>>
    decreases ps.len(),
{
    if ps.len() == 0 {
        Seq::empty()
    } else if ps.last().location@ == loc {
        rows_at(ps.drop_last(), loc).push(param_row_v(ps.last()))
    } else {
        rows_at(ps.drop_last(), loc)
    }
}

/// The column titles of the parameter table.
pub open spec fn param_columns_v() -> Seq<(Seq<char>, Style)> {
    seq![("    name                 type       tags   description"@, fg(Color::DarkGray))]
}

/// One location's group: its badge, the column titles and its rows; nothing
/// when no parameter is at that location.
pub open spec fn group_v(ps: Seq<Param>, loc: Seq<char>, badge: Seq<char>, c: Color) -> Seq<
    Seq<(Seq<char>, Style)>,
> {
    if rows_at(ps, loc).len() == 0 {
        Seq::empty()
    } else {
        seq![
            seq![("  "@, unstyled()), (badge, style(Some(Color::Black), Some(c), true, false))],
            param_columns_v(),
        ] + rows_at(ps, loc)
    }
}

/// The parameters section: path, query, header and cookie groups in that
/// order; nothing when the operation has no parameter.
pub open spec fn params_v(ps: Seq<Param>, w: nat) -> Seq<Seq<(Seq<char>, Style)>> {
    if ps.len() == 0 {
        Seq::empty()
    } else {
        seq![blank(), divider_v(w), seq![("  PARAMETERS"@, fg_bold(Color::Yellow))], blank()] + group_v(
            ps,
            "path"@,
            " PATH "@,
            Color::Magenta,
        ) + group_v(ps, "query"@, " QUERY "@, Color::Cyan) + group_v(ps, "header"@, " HEADER "@, Color::Blue)
            + group_v(ps, "cookie"@, " COOKIE "@, Color::Green) + seq![blank()]
    }
}

fn param_row(p: &Param) -> (l: Line)
    ensures
        line_v(l) == param_row_v(*p),
{
    let name_style = if p.deprecated {
        Style::new().fg(Color::DarkGray).add_modifier(Modifier::crossed_out())
    } else if p.required {
        Style::new().fg(Color::White).add_modifier(Modifier::bold())
    } else {
        Style::new().fg(Color::Gray)
    };
    let type_str: &str = match &p.schema_type {
        Some(t) => t.as_str(),
        None => "string",
    };
    let mut spans: Vec<Span> = Vec::new();
    spans.push(raw("    "));
    spans.push(styled(pad_to(p.name.as_str(), 22), name_style));
    let mut t = pad_to(type_str, 10);
    t.append(" ");
    spans.push(styled(t, Style::new().fg(Color::Blue)));
    if p.required {
        spans.push(sp("[required]", Style::new().fg(Color::Red)));
        spans.push(raw(" "));
    }
    if p.deprecated {
        spans.push(sp("[deprecated]", Style::new().fg(Color::LightRed)));
        spans.push(raw(" "));
    }
    match &p.description {
        Some(d) => spans.push(styled(d.clone(), Style::new().fg(Color::Gray))),
        None => {},
    }
    let l = Line { spans };
    assert(line_v(l) =~= param_row_v(*p));
    l
}

fn push_group(out: &mut Vec<Line>, ps: &Vec<Param>, loc: &str, badge: &str, c: Color)
    ensures
        lines_v(final(out)@) == lines_v(old(out)@) + group_v(ps@, loc@, badge@, c),
{
    let mut rows: Vec<Line> = Vec::new();
    let n = ps.len();
    for i in 0..n
        invariant
            n == ps@.len(),
            lines_v(rows@) == rows_at(ps@.take(i as int), loc@),
    {
        proof {
            assert(ps@.take(i + 1).drop_last() =~= ps@.take(i as int));
            assert(ps@.take(i + 1).last() == ps@[i as int]);
        }
        if crate::text::str_eq(ps[i].location.as_str(), loc) {
            let ghost before = lines_v(rows@);
            let l = param_row(&ps[i]);
            rows.push(l);
            assert(lines_v(rows@) =~= before.push(param_row_v(ps@[i as int])));
        }
    }
    assert(ps@.take(n as int) =~= ps@);
    if rows.len() == 0 {
        assert(lines_v(out@) =~= lines_v(old(out)@) + group_v(ps@, loc@, badge@, c));
        return;
    }
    let mut head: Vec<Span> = Vec::new();
    head.push(raw("  "));
    head.push(sp(badge, Style::new().fg(Color::Black).bg(c).add_modifier(Modifier::bold())));
    assert(line_v(Line { spans: head }) =~= seq![
        ("  "@, unstyled()),
        (badge@, style(Some(Color::Black), Some(c), true, false)),
    ]);
    push_line(out, head);
    let mut cols: Vec<Span> = Vec::new();
    cols.push(sp("    name                 type       tags   description", Style::new().fg(Color::DarkGray)));
    assert(line_v(Line { spans: cols }) =~= param_columns_v());
    push_line(out, cols);
    let ghost mid = lines_v(out@);
    let ghost rv = lines_v(rows@);
    out.append(&mut rows);
    proof {
        assert(lines_v(out@) =~= mid + rv);
        assert(lines_v(out@) =~= lines_v(old(out)@) + group_v(ps@, loc@, badge@, c));
    }
}

fn push_params(out: &mut Vec<Line>, ps: &Vec<Param>, w: usize)
    ensures
        lines_v(final(out)@) == lines_v(old(out)@) + params_v(ps@, w as nat),
{
    if ps.len() == 0 {
        assert(lines_v(out@) =~= lines_v(old(out)@) + params_v(ps@, w as nat));
        return;
    }
    let ghost s0 = lines_v(out@);
    push_blank(out);
    push_divider(out, w);
    let mut h: Vec<Span> = Vec::new();
    h.push(sp("  PARAMETERS", Style::new().fg(Color::Yellow).add_modifier(Modifier::bold())));
    assert(line_v(Line { spans: h }) =~= seq![("  PARAMETERS"@, fg_bold(Color::Yellow))]);
    push_line(out, h);
    push_blank(out);
    let ghost s1 = lines_v(out@);
    push_group(out, ps, "path", " PATH ", Color::Magenta);
    push_group(out, ps, "query", " QUERY ", Color::Cyan);
    push_group(out, ps, "header", " HEADER ", Color::Blue);
    push_group(out, ps, "cookie", " COOKIE ", Color::Green);
    push_blank(out);
    assert(s1 =~= s0 + seq![blank(), divider_v(w as nat), seq![("  PARAMETERS"@, fg_bold(Color::Yellow))], blank()]);
    assert(lines_v(out@) =~= lines_v(old(out)@) + params_v(ps@, w as nat));
}

// ─── Request body ────────────────────────────────────────────────────────────

/// `[f] focus/unfocus  [j/k] navigate  [h/l] collapse/expand`.
pub open spec fn tree_keys_v() -> Seq<(Seq<char>, Style)> {
    seq![
        ("  "@, fg(Color::DarkGray)),
        ("[f]"@, fg(Color::Yellow)),
        (" focus/unfocus  "@, fg(Color::DarkGray)),
        ("[j/k]"@, fg(Color::Yellow)),
        (" navigate  "@, fg(Color::DarkGray)),
        ("[h/l]"@, fg(Color::Yellow)),
        (" collapse/expand"@, fg(Color::DarkGray)),
    ]
}

/// Whether the operation has a request-body schema tree to show.
pub open spec fn has_schema(o: Operation) -> bool {
    o.request_body matches Some(rb) && rb.schema_tree is Some
}

/// The request-body section: header with `(required)`/`(optional)`, the
/// description, and either the tree's key hints or a note that there is no
/// schema.
pub open spec fn body_v(rb: RequestBody, w: nat) -> Seq<Seq<(Seq<char>, Style)>> {
    let label = if rb.required {
        (" (required)"@, fg_bold(Color::Green))
    } else {
        (" (optional)"@, fg(Color::DarkGray))
    };
    seq![divider_v(w), seq![("  REQUEST BODY"@, fg_bold(Color::Magenta)), label], blank()] + match rb.description {
        Some(d) => seq![seq![("    "@, unstyled()), (d@, fg(Color::Gray))], blank()],
        None => Seq::empty(),
    } + if rb.schema_tree is None {
        seq![seq![("    "@, unstyled()), ("(schema not available)"@, fg(Color::DarkGray))], blank()]
    } else {
        seq![tree_keys_v(), blank()]
    }
}

fn push_body(out: &mut Vec<Line>, rb: &RequestBody, w: usize)
    ensures
        lines_v(final(out)@) == lines_v(old(out)@) + body_v(*rb, w as nat),
{
    let ghost s0 = lines_v(out@);
    push_divider(out, w);
    let mut h: Vec<Span> = Vec::new();
    h.push(sp("  REQUEST BODY", Style::new().fg(Color::Magenta).add_modifier(Modifier::bold())));
    if rb.required {
        h.push(sp(" (required)", Style::new().fg(Color::Green).add_modifier(Modifier::bold())));
    } else {
        h.push(sp(" (optional)", Style::new().fg(Color::DarkGray)));
    }
    assert(line_v(Line { spans: h }) =~= body_v(*rb, w as nat)[1]);
    push_line(out, h);
    push_blank(out);
    let ghost s1 = lines_v(out@);
    match &rb.description {
        Some(d) => {
            let mut l: Vec<Span> = Vec::new();
            l.push(raw("    "));
            l.push(styled(d.clone(), Style::new().fg(Color::Gray)));
            assert(line_v(Line { spans: l }) =~= seq![("    "@, unstyled()), (d@, fg(Color::Gray))]);
            push_line(out, l);
            push_blank(out);
        },
        None => {},
    }
    let ghost s2 = lines_v(out@);
    if rb.schema_tree.is_none() {
        let mut l: Vec<Span> = Vec::new();
        l.push(raw("    "));
        l.push(sp("(schema not available)", Style::new().fg(Color::DarkGray)));
        assert(line_v(Line { spans: l }) =~= seq![("    "@, unstyled()), ("(schema not available)"@, fg(Color::DarkGray))]);
        push_line(out, l);
    } else {
        let hint = Style::new().fg(Color::DarkGray);
        let key = Style::new().fg(Color::Yellow);
        let mut l: Vec<Span> = Vec::new();
        l.push(sp("  ", hint));
        l.push(sp("[f]", key));
        l.push(sp(" focus/unfocus  ", hint));
        l.push(sp("[j/k]", key));
        l.push(sp(" navigate  ", hint));
        l.push(sp("[h/l]", key));
        l.push(sp(" collapse/expand", hint));
        assert(line_v(Line { spans: l }) =~= tree_keys_v());
        push_line(out, l);
    }
    push_blank(out);
    proof {
        assert(s1 =~= s0 + seq![divider_v(w as nat), body_v(*rb, w as nat)[1], blank()]);
        assert(lines_v(out@) =~= lines_v(old(out)@) + body_v(*rb, w as nat));
    }
}

// ─── Responses ───────────────────────────────────────────────────────────────

/// How many of the responses have a schema tree.
pub open spec fn trees_in(rs: Seq<Response>) -> nat
    decreases rs.len(),
{
    if rs.len() == 0 {
        0
    } else {
        trees_in(rs.drop_last()) + if rs.last().schema_tree is Some {
            1nat
        } else {
            0nat
        }
    }
}

/// `code  description  [n] schema`, where `n` is the response's hotkey
/// (responses with a schema tree are numbered from 1 in order).
pub open spec fn resp_row_v(r: Response, hotkey: nat) -> Seq<(Seq<char>, Style)> {
    let a = seq![
        ("    "@, unstyled()),
        (" "@ + r.code@ + " "@, with_bold(code_style(r.code@))),
        match r.description {
            Some(d) => ("  "@ + d@, fg(Color::Gray)),
            None => (""@, unstyled()),
        },
    ];
    if r.schema_tree is Some {
        a.push(("  "@, unstyled())).push(("["@ + dec(hotkey) + "]"@, fg(Color::Yellow))).push(
            (" schema"@, fg(Color::DarkGray)),
        )
    } else {
        a
    }
}

/// The rows of the responses table.
pub open spec fn resp_rows(rs: Seq<Response>) -> Seq<Seq<(Seq<char>, Style)>>
    decreases rs.len(),
{
    if rs.len() == 0 {
        Seq::empty()
    } else {
        resp_rows(rs.drop_last()).push(resp_row_v(rs.last(), trees_in(rs.drop_last()) + 1))
    }
}

/// The responses section; nothing when there is no response.
pub open spec fn responses_v(rs: Seq<Response>, w: nat) -> Seq<Seq<(Seq<char>, Style)>> {
    if rs.len() == 0 {
        Seq::empty()
    } else {
        seq![
            divider_v(w),
            seq![("  RESPONSES"@, fg_bold(Color::Green))],
            blank(),
            seq![("    code    description"@, fg(Color::DarkGray))],
        ] + resp_rows(rs) + seq![blank()]
    }
}

proof fn lemma_trees_in_le(rs: Seq<Response>)
    ensures
        trees_in(rs) <= rs.len(),
    decreases rs.len(),
{
    if rs.len() > 0 {
        lemma_trees_in_le(rs.drop_last());
    }
}

fn resp_row(r: &Response, hotkey: usize) -> (l: Line)
    ensures
        line_v(l) == resp_row_v(*r, hotkey as nat),
{
    let mut spans: Vec<Span> = Vec::new();
    spans.push(raw("    "));
    spans.push(styled(
        framed(" ", r.code.as_str(), " "),
        response_code_style(r.code.as_str()).add_modifier(Modifier::bold()),
    ));
    match &r.description {
        Some(d) => spans.push(styled(framed("  ", d.as_str(), ""), Style::new().fg(Color::Gray))),
        None => spans.push(raw("")),
    }
    if r.schema_tree.is_some() {
        spans.push(raw("  "));
        let mut k = "[".to_owned();
        push_dec(&mut k, hotkey);
        k.append("]");
        spans.push(styled(k, Style::new().fg(Color::Yellow)));
        spans.push(sp(" schema", Style::new().fg(Color::DarkGray)));
    }
    let l = Line { spans };
    proof {
        reveal_strlit("");
    }
    assert(line_v(l) =~= resp_row_v(*r, hotkey as nat));
    l
}

fn push_responses(out: &mut Vec<Line>, rs: &Vec<Response>, w: usize)
    ensures
        lines_v(final(out)@) == lines_v(old(out)@) + responses_v(rs@, w as nat),
{
    if rs.len() == 0 {
        assert(lines_v(out@) =~= lines_v(old(out)@) + responses_v(rs@, w as nat));
        return;
    }
    let ghost s0 = lines_v(out@);
    push_divider(out, w);
    let mut h: Vec<Span> = Vec::new();
    h.push(sp("  RESPONSES", Style::new().fg(Color::Green).add_modifier(Modifier::bold())));
    assert(line_v(Line { spans: h }) =~= seq![("  RESPONSES"@, fg_bold(Color::Green))]);
    push_line(out, h);
    push_blank(out);
    let mut c: Vec<Span> = Vec::new();
    c.push(sp("    code    description", Style::new().fg(Color::DarkGray)));
    assert(line_v(Line { spans: c }) =~= seq![("    code    description"@, fg(Color::DarkGray))]);
    push_line(out, c);
    let ghost s1 = lines_v(out@);
    let n = rs.len();
    let mut count: usize = 0;
    for i in 0..n
        invariant
            n == rs@.len(),
            count == trees_in(rs@.take(i as int)),
            lines_v(out@) == s1 + resp_rows(rs@.take(i as int)),
    {
        proof {
            assert(rs@.take(i + 1).drop_last() =~= rs@.take(i as int));
            assert(rs@.take(i + 1).last() == rs@[i as int]);
            lemma_trees_in_le(rs@.take(i as int));
        }
        let l = resp_row(&rs[i], count + 1);
        let ghost before = lines_v(out@);
        out.push(l);
        assert(lines_v(out@) =~= before.push(line_v(l)));
        if rs[i].schema_tree.is_some() {
            count = count + 1;
        }
    }
    assert(rs@.take(n as int) =~= rs@);
    push_blank(out);
    proof {
        assert(s1 =~= s0 + seq![
            divider_v(w as nat),
            seq![("  RESPONSES"@, fg_bold(Color::Green))],
            blank(),
            seq![("    code    description"@, fg(Color::DarkGray))],
        ]);
        assert(lines_v(out@) =~= lines_v(old(out)@) + responses_v(rs@, w as nat));
    }
}

// ─── The whole text ──────────────────────────────────────────────────────────

/// The lines above the request-body tree: header, parameters, request body,
/// and the responses too when there is no tree to put between.
pub open spec fn text_above(o: Operation, path: Seq<char>, webhook: bool, w: nat) -> Seq<
    Seq<(Seq<char>, Style)>,
> {
    head_v(o, path, webhook) + params_v(o.params@, w) + match o.request_body {
        Some(rb) => body_v(rb, w),
        None => Seq::empty(),
    } + if has_schema(o) {
        Seq::empty()
    } else {
        responses_v(o.responses@, w)
    }
}

/// The lines below the request-body tree: the responses when there is a
/// tree.
pub open spec fn text_below(o: Operation, w: nat) -> Seq<Seq<(Seq<char>, Style)>> {
    if has_schema(o) {
        responses_v(o.responses@, w)
    } else {
        Seq::empty()
    }
}

/// The text of the detail of `op` at `path`, for a panel `width` columns
/// wide (the rules span its inside), split around the request-body tree.
pub fn detail_text(op: &Operation, path: &str, webhook: bool, width: u16) -> (r: (Vec<Line>, Vec<Line>))
    ensures
        lines_v(r.0@) == text_above(*op, path@, webhook, (if width >= 2 { width - 2 } else { 0 }) as nat),
        lines_v(r.1@) == text_below(*op, (if width >= 2 { width - 2 } else { 0 }) as nat),
{
    let w: usize = width.saturating_sub(2) as usize;
    let mut above: Vec<Line> = Vec::new();
    let mut below: Vec<Line> = Vec::new();
    assert(lines_v(above@) =~= Seq::<Seq<(Seq<char>, Style)>>::empty());
    push_head(&mut above, op, path, webhook);
    push_params(&mut above, &op.params, w);
    let ghost s2 = lines_v(above@);
    match &op.request_body {
        Some(rb) => push_body(&mut above, rb, w),
        None => {},
    }
    let ghost s3 = lines_v(above@);
    assert(s3 =~= s2 + match op.request_body {
        Some(rb) => body_v(rb, w as nat),
        None => Seq::<Seq<(Seq<char>, Style)>>::empty(),
    });
    let schema = match &op.request_body {
        Some(rb) => rb.schema_tree.is_some(),
        None => false,
    };
    assert(lines_v(below@) =~= Seq::<Seq<(Seq<char>, Style)>>::empty());
    if schema {
        push_responses(&mut below, &op.responses, w);
        assert(lines_v(below@) =~= text_below(*op, w as nat));
    } else {
        push_responses(&mut above, &op.responses, w);
    }
    assert(lines_v(above@) =~= text_above(*op, path@, webhook, w as nat));
    (above, below)
}
// ─── Laws ────────────────────────────────────────────────────────────────────

/// A parameter row: a line that opens with the four-space indent span.
pub open spec fn is_param_row(l: Seq<(Seq<char>, Style)>) -> bool {
    l.len() > 0 && l[0].0 == "    "@
}

/// Picks the parameter rows.
pub open spec fn param_rows() -> spec_fn(Seq<(Seq<char>, Style)>) -> bool {
    |l: Seq<(Seq<char>, Style)>| is_param_row(l)
}

/// Picks the parameters at `loc`.
pub open spec fn at_location(loc: Seq<char>) -> spec_fn(Param) -> bool {
    |p: Param| p.location@ == loc
}

/// Picks the parameters at a location the table shows.
pub open spec fn shown() -> spec_fn(Param) -> bool {
    |p: Param| shown_location(p.location@)
}

/// The locations the parameter table shows.
pub open spec fn shown_location(loc: Seq<char>) -> bool {
    loc == "path"@ || loc == "query"@ || loc == "header"@ || loc == "cookie"@
}

proof fn lemma_contains_left<A>(a: Seq<A>, b: Seq<A>, x: A)
    requires
        a.contains(x),
    ensures
        (a + b).contains(x),
{
    let k = choose|k: int| 0 <= k < a.len() && a[k] == x;
    assert((a + b)[k] == x);
}

proof fn lemma_contains_right<A>(a: Seq<A>, b: Seq<A>, x: A)
    requires
        b.contains(x),
    ensures
        (a + b).contains(x),
{
    let k = choose|k: int| 0 <= k < b.len() && b[k] == x;
    assert((a + b)[a.len() + k] == x);
}

proof fn lemma_filter_all<A>(s: Seq<A>, pred: spec_fn(A) -> bool)
    requires
        forall|i: int| 0 <= i < s.len() ==> pred(#[trigger] s[i]),
    ensures
        s.filter(pred) == s,
    decreases s.len(),
{
    reveal(Seq::filter);
    if s.len() > 0 {
        lemma_filter_all(s.drop_last(), pred);
        assert(s.drop_last().push(s.last()) =~= s);
    }
}

proof fn lemma_filter_none<A>(s: Seq<A>, pred: spec_fn(A) -> bool)
    requires
        forall|i: int| 0 <= i < s.len() ==> !pred(#[trigger] s[i]),
    ensures
        s.filter(pred).len() == 0,
    decreases s.len(),
{
    reveal(Seq::filter);
    if s.len() > 0 {
        lemma_filter_none(s.drop_last(), pred);
    }
}

/// The rows at `loc`: one parameter row per parameter there, in order.
proof fn lemma_rows_at(ps: Seq<Param>, loc: Seq<char>)
    ensures
        rows_at(ps, loc).len() == ps.filter(at_location(loc)).len(),
        forall|k: int| 0 <= k < rows_at(ps, loc).len() ==> is_param_row(#[trigger] rows_at(ps, loc)[k]),
        forall|i: int|
            0 <= i < ps.len() && ps[i].location@ == loc ==> rows_at(ps, loc).contains(
                param_row_v(#[trigger] ps[i]),
            ),
    decreases ps.len(),
{
    reveal(Seq::filter);
    if ps.len() > 0 {
        let prev = ps.drop_last();
        lemma_rows_at(prev, loc);
        let l = param_row_v(ps.last());
        assert(is_param_row(l));
        assert forall|i: int| 0 <= i < ps.len() && ps[i].location@ == loc implies rows_at(ps, loc).contains(
            param_row_v(#[trigger] ps[i]),
        ) by {
            if i < prev.len() {
                assert(prev[i] == ps[i]);
                let k = choose|k: int| 0 <= k < rows_at(prev, loc).len() && rows_at(prev, loc)[k] == param_row_v(prev[i]);
                assert(rows_at(ps, loc)[k] == param_row_v(ps[i]));
            } else {
                assert(rows_at(ps, loc)[rows_at(ps, loc).len() - 1] == l);
            }
        }
    }
}

/// A location's group holds as many parameter rows as parameters there.
proof fn lemma_group_rows(ps: Seq<Param>, loc: Seq<char>, badge: Seq<char>, c: Color)
    ensures
        group_v(ps, loc, badge, c).filter(param_rows()).len()
            == ps.filter(at_location(loc)).len(),
        forall|i: int|
            0 <= i < ps.len() && ps[i].location@ == loc ==> group_v(ps, loc, badge, c).contains(
                param_row_v(#[trigger] ps[i]),
            ),
{
    let pred = param_rows();
    lemma_rows_at(ps, loc);
    let rows = rows_at(ps, loc);
    lemma_filter_all(rows, pred);
    if rows.len() > 0 {
        reveal_strlit("  ");
        reveal_strlit("    ");
        reveal_strlit("    name                 type       tags   description");
        let head = seq![
            seq![("  "@, unstyled()), (badge, style(Some(Color::Black), Some(c), true, false))],
            param_columns_v(),
        ];
        assert("  "@.len() == 2);
        assert("    "@.len() == 4);
        assert("    name                 type       tags   description"@.len() == 54);
        assert(head[0][0].0 != "    "@);
        assert(head[1][0].0 != "    "@);
        assert(!is_param_row(head[0]));
        assert(!is_param_row(head[1]));
        lemma_filter_none(head, pred);
        Seq::filter_distributes_over_add(head, rows, pred);
        assert forall|i: int| 0 <= i < ps.len() && ps[i].location@ == loc implies group_v(
            ps,
            loc,
            badge,
            c,
        ).contains(param_row_v(#[trigger] ps[i])) by {
            lemma_contains_right(head, rows, param_row_v(ps[i]));
        }
    } else {
        lemma_filter_none(Seq::<Seq<(Seq<char>, Style)>>::empty(), pred);
    }
}

/// Parameters split over the four shown locations.
proof fn lemma_shown_split(ps: Seq<Param>)
    ensures
        ps.filter(shown()).len() == ps.filter(at_location("path"@)).len() + ps.filter(at_location("query"@)).len() + ps.filter(at_location("header"@)).len() + ps.filter(at_location("cookie"@)).len(),
    decreases ps.len(),
{
    reveal(Seq::filter);
    reveal_strlit("path");
    reveal_strlit("query");
    reveal_strlit("header");
    reveal_strlit("cookie");
    if ps.len() > 0 {
        lemma_shown_split(ps.drop_last());
        assert("path"@.len() == 4 && "query"@.len() == 5 && "header"@.len() == 6 && "cookie"@.len() == 6);
        assert("path"@ != "query"@ && "path"@ != "header"@ && "path"@ != "cookie"@);
        assert("query"@ != "header"@ && "query"@ != "cookie"@);
        assert("header"@[0] != "cookie"@[0]);
        assert("header"@ != "cookie"@);
    }
}

/// The parameters section shows every parameter at the path, query, header
/// and cookie locations, and holds exactly one parameter row for each such
/// parameter, so none is dropped or shown twice and no other is shown.
pub proof fn lemma_params_section_rows(ps: Seq<Param>, w: nat)
    ensures
        forall|i: int|
            0 <= i < ps.len() && shown_location(ps[i].location@) ==> params_v(ps, w).contains(
                param_row_v(#[trigger] ps[i]),
            ),
        params_v(ps, w).filter(param_rows()).len() == ps.filter(shown()).len(),
{
    let pred = param_rows();
    lemma_shown_split(ps);
    if ps.len() == 0 {
        lemma_filter_none(Seq::<Seq<(Seq<char>, Style)>>::empty(), pred);
        reveal(Seq::filter);
    } else {
        reveal_strlit("    ");
        reveal_strlit("  PARAMETERS");
        let head = seq![blank(), divider_v(w), seq![("  PARAMETERS"@, fg_bold(Color::Yellow))], blank()];
        let g1 = group_v(ps, "path"@, " PATH "@, Color::Magenta);
        let g2 = group_v(ps, "query"@, " QUERY "@, Color::Cyan);
        let g3 = group_v(ps, "header"@, " HEADER "@, Color::Blue);
        let g4 = group_v(ps, "cookie"@, " COOKIE "@, Color::Green);
        let tail = seq![blank()];
        assert("    "@.len() == 4);
        assert("  PARAMETERS"@.len() == 12);
        assert(!is_param_row(head[0]));
        if w > 0 {
            assert("    "@[0] == ' ');
            assert(head[1][0].0[0] == '─');
            assert(head[1][0].0 != "    "@);
        }
        assert(head[1][0].0 != "    "@);
        assert(!is_param_row(head[1]));
        assert(head[2][0].0 != "    "@);
        assert(!is_param_row(head[2]));
        assert(!is_param_row(head[3]));
        assert(!is_param_row(tail[0]));
        lemma_filter_none(head, pred);
        lemma_filter_none(tail, pred);
        lemma_group_rows(ps, "path"@, " PATH "@, Color::Magenta);
        lemma_group_rows(ps, "query"@, " QUERY "@, Color::Cyan);
        lemma_group_rows(ps, "header"@, " HEADER "@, Color::Blue);
        lemma_group_rows(ps, "cookie"@, " COOKIE "@, Color::Green);
        Seq::filter_distributes_over_add(head, g1, pred);
        Seq::filter_distributes_over_add(head + g1, g2, pred);
        Seq::filter_distributes_over_add(head + g1 + g2, g3, pred);
        Seq::filter_distributes_over_add(head + g1 + g2 + g3, g4, pred);
        Seq::filter_distributes_over_add(head + g1 + g2 + g3 + g4, tail, pred);
        assert(params_v(ps, w) == head + g1 + g2 + g3 + g4 + tail);
        assert forall|i: int| 0 <= i < ps.len() && shown_location(ps[i].location@) implies params_v(
            ps,
            w,
        ).contains(param_row_v(#[trigger] ps[i])) by {
            let x = param_row_v(ps[i]);
            if ps[i].location@ == "path"@ {
                lemma_contains_right(head, g1, x);
                lemma_contains_left(head + g1, g2, x);
                lemma_contains_left(head + g1 + g2, g3, x);
                lemma_contains_left(head + g1 + g2 + g3, g4, x);
                lemma_contains_left(head + g1 + g2 + g3 + g4, tail, x);
            } else if ps[i].location@ == "query"@ {
                lemma_contains_right(head + g1, g2, x);
                lemma_contains_left(head + g1 + g2, g3, x);
                lemma_contains_left(head + g1 + g2 + g3, g4, x);
                lemma_contains_left(head + g1 + g2 + g3 + g4, tail, x);
            } else if ps[i].location@ == "header"@ {
                lemma_contains_right(head + g1 + g2, g3, x);
                lemma_contains_left(head + g1 + g2 + g3, g4, x);
                lemma_contains_left(head + g1 + g2 + g3 + g4, tail, x);
            } else {
                lemma_contains_right(head + g1 + g2 + g3, g4, x);
                lemma_contains_left(head + g1 + g2 + g3 + g4, tail, x);
            }
        }
    }
}

} // verus!
