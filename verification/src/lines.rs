//! Styled text: the lines of the operation summary shown beside the tree.
use vstd::prelude::*;

use crate::model::{kind_label, Operation, Param, RequestBody, Response};
use crate::styles::{
    code_style, method_color, method_style, response_code_style, style, Color, Modifier, Style,
};
use crate::text::{
    chars_of, lines, lines_of, push_char, push_dec, slice_chars, str_eq, string_of, trim,
    trim_chars, truncate, truncated,
};

verus! {

/// A piece of text in one style.
#[derive(Debug)]
pub struct Span {
    pub content: String,
    pub style: Style,
}

/// A line of styled text.
#[derive(Debug)]
pub struct Line {
    pub spans: Vec<Span>,
}

pub open spec fn span_v(s: Span) -> (Seq<char>, Style) {
    (s.content@, s.style)
}

pub open spec fn line_v(l: Line) -> Seq<(Seq<char>, Style)> {
    l.spans@.map_values(|s: Span| span_v(s))
}

pub open spec fn lines_v(ls: Seq<Line>) -> Seq<Seq<(Seq<char>, Style)>> {
    ls.map_values(|l: Line| line_v(l))
}

/// Width of the label column.
pub const KEY_W: usize = 8;

/// `n` spaces.
pub open spec fn spaces(n: nat) -> Seq<char>
    decreases n,
{
    if n == 0 {
        Seq::empty()
    } else {
        spaces((n - 1) as nat).push(' ')
    }
}

/// `s` padded with spaces to at least `w` characters (`{:<w}`).
pub open spec fn pad_right(s: Seq<char>, w: nat) -> Seq<char> {
    if s.len() >= w {
        s
    } else {
        s + spaces((w - s.len()) as nat)
    }
}

/// The label column: two spaces, then the label padded to the column width.
pub open spec fn key_span(label: Seq<char>) -> (Seq<char>, Style) {
    ("  "@ + pad_right(label, KEY_W as nat), style(Some(Color::DarkGray), None, false, false))
}

/// A span of text in the default style.
pub fn raw(text: &str) -> (s: Span)
    ensures
        span_v(s) == (text@, style(None, None, false, false)),
{
    Span { content: text.to_owned(), style: Style::new() }
}

/// A span of text in the given style.
pub fn styled(text: String, st: Style) -> (s: Span)
    ensures
        span_v(s) == (text@, st),
{
    Span { content: text, style: st }
}

/// The label column span.
pub fn key(label: &str) -> (s: Span)
    ensures
        span_v(s) == key_span(label@),
{
    let mut out = "  ".to_owned();
    let l = chars_of(label);
    let mut i: usize = 0;
    while i < l.len()
        invariant
            i <= l@.len(),
            out@ == "  "@ + l@.take(i as int),
        decreases l@.len() - i,
    {
        push_char(&mut out, l[i]);
        assert(l@.take(i + 1) =~= l@.take(i as int).push(l@[i as int]));
        i += 1;
    }
    assert(l@.take(l@.len() as int) =~= l@);
    let mut k = l.len();
    while k < KEY_W
        invariant
            l@.len() <= k <= KEY_W || (l@.len() >= KEY_W && k == l@.len()),
            out@ == "  "@ + l@ + spaces((k - l@.len()) as nat),
        decreases KEY_W - k,
    {
        push_char(&mut out, ' ');
        k += 1;
    }
    proof {
        if l@.len() >= KEY_W {
            assert(spaces(0) =~= Seq::<char>::empty());
            assert(out@ =~= "  "@ + l@);
        } else {
            assert(k == KEY_W);
        }
        assert(out@ =~= "  "@ + pad_right(label@, KEY_W as nat));
    }
    Span { content: out, style: Style::new().fg(Color::DarkGray) }
}

// ─── Header ──────────────────────────────────────────────────────────────────

/// `[METHOD]  [deprecated]  summary`, falling back to the operation id.
pub open spec fn header_spans(o: Operation) -> Seq<(Seq<char>, Style)> {
    let badge = method_style(o.method@);
    let base = seq![
        (" "@ + o.method@ + " "@, Style { add_modifier: Modifier { bold: true, ..badge.add_modifier }, ..badge }),
        ("  "@, style(None, None, false, false)),
    ];
    let with_dep = if o.deprecated {
        base.push(("[deprecated] "@, style(Some(Color::LightRed), None, true, false)))
    } else {
        base
    };
    match o.summary {
        Some(s) => with_dep.push((s@, style(Some(Color::White), None, true, false))),
        None => match o.operation_id {
            Some(i) => with_dep.push((i@, style(Some(Color::White), None, true, false))),
            None => with_dep,
        },
    }
}

pub fn header_line(op: &Operation) -> (l: Line)
    ensures
        line_v(l) == header_spans(*op),
{
    let badge_style = method_color(op.method.as_str()).add_modifier(Modifier::bold());
    let mut badge = " ".to_owned();
    badge.append(op.method.as_str());
    badge.append(" ");
    let mut spans: Vec<Span> = Vec::new();
    spans.push(styled(badge, badge_style));
    spans.push(raw("  "));
    if op.deprecated {
        spans.push(styled("[deprecated] ".to_owned(), Style::new().fg(Color::LightRed).add_modifier(Modifier::bold())));
    }
    match &op.summary {
        Some(s) => spans.push(styled(s.clone(), Style::new().fg(Color::White).add_modifier(Modifier::bold()))),
        None => match &op.operation_id {
            Some(i) => spans.push(styled(i.clone(), Style::new().fg(Color::White).add_modifier(Modifier::bold()))),
            None => {},
        },
    }
    let l = Line { spans };
    assert(line_v(l) =~= header_spans(*op));
    l
}

// ─── Description ─────────────────────────────────────────────────────────────

/// The first line of `s`, trimmed.
pub open spec fn first_line_trimmed(s: Seq<char>) -> Seq<char> {
    trim(if lines(s).len() > 0 {
        lines(s)[0]
    } else {
        Seq::empty()
    })
}

/// `  desc    <first line of the description, truncated>`, unless the
/// description is absent, repeats the summary, or its first line is blank.
pub open spec fn desc_spans(o: Operation, width: nat) -> Option<Seq<(Seq<char>, Style)>> {
    match o.description {
        None => None,
        Some(d) => {
            let first = first_line_trimmed(d@);
            let max_w = if width >= 2 + KEY_W + 4 {
                (width - (2 + KEY_W + 4)) as nat
            } else {
                0
            };
            if (o.summary matches Some(sm) && sm@ == d@) || first.len() == 0 {
                None
            } else {
                Some(seq![key_span("desc"@), (truncated(first, max_w), style(Some(Color::Gray), None, false, false))])
            }
        },
    }
}

pub fn desc_line(op: &Operation, area_width: u16) -> (r: Option<Line>)
    ensures
        match r {
            Some(l) => desc_spans(*op, area_width as nat) == Some(line_v(l)),
            None => desc_spans(*op, area_width as nat) is None,
        },
{
    let d = match &op.description {
        Some(d) => d,
        None => return None,
    };
    match &op.summary {
        Some(sm) => if str_eq(sm.as_str(), d.as_str()) {
            return None;
        },
        None => {},
    }
    let ls = lines_of(&chars_of(d.as_str()));
    proof {
        assert(ls@.map_values(|l: Vec<char>| l@).len() == ls@.len());
        if ls@.len() > 0 {
            assert(ls@.map_values(|l: Vec<char>| l@)[0] == ls@[0]@);
        }
    }
    let firstv: Vec<char> = if ls.len() > 0 {
        slice_chars(&ls[0], 0, ls[0].len())
    } else {
        Vec::new()
    };
    proof {
        if ls@.len() > 0 {
            assert(firstv@ =~= ls@[0]@);
        } else {
            assert(firstv@ =~= Seq::<char>::empty());
        }
    }
    let first = trim_chars(&firstv);
    assert(first@ =~= first_line_trimmed(d@));
    if first.len() == 0 {
        return None;
    }
    let w = area_width as usize;
    let max_w = if w >= 2 + KEY_W + 4 {
        w - (2 + KEY_W + 4)
    } else {
        0
    };
    let text = truncate(string_of(&first).as_str(), max_w);
    let mut spans: Vec<Span> = Vec::new();
    spans.push(key("desc"));
    spans.push(styled(text, Style::new().fg(Color::Gray)));
    let l = Line { spans };
    assert(line_v(l) =~= desc_spans(*op, area_width as nat)->0);
    Some(l)
}

// ─── Parameters ──────────────────────────────────────────────────────────────

/// The parameters located at `loc`, in order.
pub open spec fn at_location(ps: Seq<Param>, loc: Seq<char>) -> Seq<Param>
    decreases ps.len(),
{
    if ps.len() == 0 {
        Seq::empty()
    } else if ps.last().location@ == loc {
        at_location(ps.drop_last(), loc).push(ps.last())
    } else {
        at_location(ps.drop_last(), loc)
    }
}

/// The style of a parameter name: struck through when deprecated, bold
/// when required.
pub open spec fn param_name_style(p: Param) -> Style {
    if p.deprecated {
        style(Some(Color::DarkGray), None, false, true)
    } else if p.required {
        style(Some(Color::White), None, true, false)
    } else {
        style(Some(Color::Gray), None, false, false)
    }
}

/// The spans of the names of a parameter group, separated by two spaces,
/// a red `*` after each required (not deprecated) one.
pub open spec fn group_spans(g: Seq<Param>) -> Seq<(Seq<char>, Style)>
    decreases g.len(),
{
    if g.len() == 0 {
        Seq::empty()
    } else {
        let p = g.last();
        let sep = if g.len() > 1 {
            seq![("  "@, style(None, None, false, false))]
        } else {
            Seq::empty()
        };
        let star = if p.required && !p.deprecated {
            seq![("*"@, style(Some(Color::Red), None, false, false))]
        } else {
            Seq::empty()
        };
        group_spans(g.drop_last()) + sep + seq![(p.name@, param_name_style(p))] + star
    }
}

/// One line per non-empty group among query, header and cookie parameters.
pub open spec fn param_spans(ps: Seq<Param>) -> Seq<Seq<(Seq<char>, Style)>> {
    let locs = seq!["query"@, "header"@, "cookie"@];
    let lines0 = Seq::<Seq<(Seq<char>, Style)>>::empty();
    let l1 = if at_location(ps, locs[0]).len() > 0 {
        lines0.push(seq![key_span(locs[0])] + group_spans(at_location(ps, locs[0])))
    } else {
        lines0
    };
    let l2 = if at_location(ps, locs[1]).len() > 0 {
        l1.push(seq![key_span(locs[1])] + group_spans(at_location(ps, locs[1])))
    } else {
        l1
    };
    if at_location(ps, locs[2]).len() > 0 {
        l2.push(seq![key_span(locs[2])] + group_spans(at_location(ps, locs[2])))
    } else {
        l2
    }
}

fn group_line(ps: &Vec<Param>, loc: &str) -> (r: Option<Line>)
    ensures
        match r {
            Some(l) => at_location(ps@, loc@).len() > 0 && line_v(l) == seq![key_span(loc@)] + group_spans(
                at_location(ps@, loc@),
            ),
            None => at_location(ps@, loc@).len() == 0,
        },
{
    let mut spans: Vec<Span> = Vec::new();
    spans.push(key(loc));
    let ghost k = key_span(loc@);
    let mut count: usize = 0;
    let n = ps.len();
    for i in 0..n
        invariant
            n == ps@.len(),
            count <= i,
            count == at_location(ps@.take(i as int), loc@).len(),
            line_v(Line { spans }) == seq![k] + group_spans(at_location(ps@.take(i as int), loc@)),
            k == key_span(loc@),
    {
        proof {
            assert(ps@.take(i + 1).drop_last() =~= ps@.take(i as int));
        }
        let p = &ps[i];
        if str_eq(p.location.as_str(), loc) {
            let ghost before = spans@;
            let ghost g = at_location(ps@.take(i as int), loc@);
            if count > 0 {
                spans.push(raw("  "));
            }
            let name_style = if p.deprecated {
                Style::new().fg(Color::DarkGray).add_modifier(Modifier::crossed_out())
            } else if p.required {
                Style::new().fg(Color::White).add_modifier(Modifier::bold())
            } else {
                Style::new().fg(Color::Gray)
            };
            spans.push(styled(p.name.clone(), name_style));
            if p.required && !p.deprecated {
                spans.push(styled("*".to_owned(), Style::new().fg(Color::Red)));
            }
            proof {
                let g2 = at_location(ps@.take(i + 1), loc@);
                assert(ps@.take(i + 1).last() == *p);
                assert(g2 == g.push(*p));
                assert(g2.drop_last() =~= g);
                assert(g2.last() == *p);
                let sep = if g2.len() > 1 {
                    seq![("  "@, style(None, None, false, false))]
                } else {
                    Seq::empty()
                };
                let star = if p.required && !p.deprecated {
                    seq![("*"@, style(Some(Color::Red), None, false, false))]
                } else {
                    Seq::empty()
                };
                let piece = sep + seq![(p.name@, param_name_style(*p))] + star;
                assert(group_spans(g2) == group_spans(g) + piece);
                assert(before.map_values(|s: Span| span_v(s)) == seq![k] + group_spans(g));
                assert(spans@.map_values(|s: Span| span_v(s)) =~= before.map_values(|s: Span| span_v(s)) + piece);
                assert(line_v(Line { spans }) =~= seq![k] + group_spans(g2));
            }
            count = count + 1;
        }
    }
    assert(ps@.take(n as int) =~= ps@);
    if count == 0 {
        None
    } else {
        Some(Line { spans })
    }
}

pub fn param_lines(params: &Vec<Param>) -> (r: Vec<Line>)
    ensures
        lines_v(r@) == param_spans(params@),
{
    let mut out: Vec<Line> = Vec::new();
    match group_line(params, "query") {
        Some(l) => out.push(l),
        None => {},
    }
    match group_line(params, "header") {
        Some(l) => out.push(l),
        None => {},
    }
    match group_line(params, "cookie") {
        Some(l) => out.push(l),
        None => {},
    }
    assert(lines_v(out@) =~= param_spans(params@));
    out
}

// ─── Request body ────────────────────────────────────────────────────────────

/// The spans of the first (at most ten) field names, two spaces apart.
pub open spec fn field_spans(fs: Seq<crate::model::BodyField>, k: nat) -> Seq<(Seq<char>, Style)>
    decreases k,
{
    if k == 0 {
        Seq::empty()
    } else {
        let sep = if k > 1 {
            seq![("  "@, style(None, None, false, false))]
        } else {
            Seq::empty()
        };
        field_spans(fs, (k - 1) as nat) + sep + seq![(fs[k - 1].name@, style(Some(Color::Gray), None, false, false))]
    }
}

/// `  body    [required object]  field  field  +N`
pub open spec fn body_spans(rb: RequestBody) -> Seq<(Seq<char>, Style)> {
    let head = seq![key_span("body"@)];
    let with_badge = match rb.schema_tree {
        Some(t) => head + seq![
            (" "@ + (if rb.required { "required"@ } else { "optional"@ }) + " "@ + kind_label(t.kind) + " "@,
             style(Some(Color::Black), Some(Color::Magenta), true, false)),
            ("  "@, style(None, None, false, false)),
        ],
        None => head,
    };
    let n = rb.fields@.len();
    let take = if n < 10 { n } else { 10 };
    let more = if n > take {
        seq![("  +"@ + crate::text::dec((n - take) as nat), style(Some(Color::DarkGray), None, false, false))]
    } else {
        Seq::empty()
    };
    with_badge + field_spans(rb.fields@, take) + more
}

pub fn body_line(rb: &RequestBody) -> (r: Option<Line>)
    ensures
        r matches Some(l) && line_v(l) == body_spans(*rb),
{
    let mut spans: Vec<Span> = Vec::new();
    spans.push(key("body"));
    match &rb.schema_tree {
        Some(tree) => {
            let mut badge = " ".to_owned();
            badge.append(if rb.required {
                "required"
            } else {
                "optional"
            });
            badge.append(" ");
            badge.append(tree.kind.label());
            badge.append(" ");
            spans.push(styled(badge, Style::new().fg(Color::Black).bg(Color::Magenta).add_modifier(Modifier::bold())));
            spans.push(raw("  "));
        },
        None => {},
    }
    let ghost head = spans@.map_values(|s: Span| span_v(s));
    let n = rb.fields.len();
    let take = if n < 10 {
        n
    } else {
        10
    };
    for i in 0..take
        invariant
            take <= n == rb.fields@.len(),
            spans@.map_values(|s: Span| span_v(s)) == head + field_spans(rb.fields@, i as nat),
    {
        let ghost before = spans@;
        if i > 0 {
            spans.push(raw("  "));
        }
        spans.push(styled(rb.fields[i].name.clone(), Style::new().fg(Color::Gray)));
        proof {
            let sep = if i + 1 > 1 {
                seq![("  "@, style(None, None, false, false))]
            } else {
                Seq::<(Seq<char>, Style)>::empty()
            };
            assert(field_spans(rb.fields@, (i + 1) as nat) == field_spans(rb.fields@, i as nat) + sep + seq![
                (rb.fields@[i as int].name@, style(Some(Color::Gray), None, false, false)),
            ]);
            assert(spans@.map_values(|s: Span| span_v(s)) =~= before.map_values(|s: Span| span_v(s)) + sep + seq![
                (rb.fields@[i as int].name@, style(Some(Color::Gray), None, false, false)),
            ]);
        }
    }
    if n > take {
        let mut more = "  +".to_owned();
        push_dec(&mut more, n - take);
        let ghost before = spans@;
        spans.push(styled(more, Style::new().fg(Color::DarkGray)));
        proof {
            assert(spans@.map_values(|s: Span| span_v(s)) =~= before.map_values(|s: Span| span_v(s)).push(span_v(spans@.last())));
        }
    }
    let l = Line { spans };
    proof {
        assert(line_v(l) =~= body_spans(*rb));
    }
    Some(l)
}

// ─── Responses ───────────────────────────────────────────────────────────────

/// The spans of the first `k` of `rs` responses.
pub open spec fn resp_spans_upto(rs: Seq<Response>, k: nat) -> Seq<(Seq<char>, Style)>
    decreases k,
{
    if k == 0 {
        Seq::empty()
    } else {
        let i = k - 1;
        let r = rs[i];
        let sep = if i > 0 {
            seq![(" "@, style(None, None, false, false))]
        } else {
            Seq::empty()
        };
        let cs = code_style(r.code@);
        let badge = seq![(" "@ + r.code@ + " "@, Style { add_modifier: Modifier { bold: true, ..cs.add_modifier }, ..cs })];
        let desc = match r.description {
            Some(d) => seq![(" "@ + truncated(d@, 20), style(Some(Color::Gray), None, false, false))],
            None => Seq::empty(),
        };
        let gap = if rs.len() > 1 && i < rs.len() - 1 {
            seq![("  "@, style(Some(Color::DarkGray), None, false, false))]
        } else {
            Seq::empty()
        };
        resp_spans_upto(rs, i as nat) + sep + badge + desc + gap
    }
}

/// `  resp    [200] OK  [404] Not Found`, none without responses.
pub open spec fn resp_spans(rs: Seq<Response>) -> Option<Seq<(Seq<char>, Style)>> {
    if rs.len() == 0 {
        None
    } else {
        Some(seq![key_span("resp"@)] + resp_spans_upto(rs, rs.len()))
    }
}

#[verifier::spinoff_prover]
#[verifier::rlimit(40)]
pub fn resp_line(responses: &Vec<Response>) -> (r: Option<Line>)
    ensures
        match r {
            Some(l) => resp_spans(responses@) == Some(line_v(l)),
            None => resp_spans(responses@) is None,
        },
{
    let n = responses.len();
    if n == 0 {
        return None;
    }
    let mut spans: Vec<Span> = Vec::new();
    spans.push(key("resp"));
    let ghost head = spans@.map_values(|s: Span| span_v(s));
    for i in 0..n
        invariant
            n == responses@.len(),
            n > 0,
            spans@.map_values(|s: Span| span_v(s)) == head + resp_spans_upto(responses@, i as nat),
    {
        let ghost before = spans@;
        let resp = &responses[i];
        if i > 0 {
            spans.push(raw(" "));
        }
        let mut badge = " ".to_owned();
        badge.append(resp.code.as_str());
        badge.append(" ");
        spans.push(styled(badge, response_code_style(resp.code.as_str()).add_modifier(Modifier::bold())));
        match &resp.description {
            Some(d) => {
                let mut t = " ".to_owned();
                let tr = truncate(d.as_str(), 20);
                t.append(tr.as_str());
                spans.push(styled(t, Style::new().fg(Color::Gray)));
            },
            None => {},
        }
        if n > 1 && i < n - 1 {
            spans.push(styled("  ".to_owned(), Style::new().fg(Color::DarkGray)));
        }
        proof {
            let r = responses@[i as int];
            let sep = if i > 0 {
                seq![(" "@, style(None, None, false, false))]
            } else {
                Seq::<(Seq<char>, Style)>::empty()
            };
            let cs = code_style(r.code@);
            let badge_v = seq![(" "@ + r.code@ + " "@, Style { add_modifier: Modifier { bold: true, ..cs.add_modifier }, ..cs })];
            let desc = match r.description {
                Some(d) => seq![(" "@ + truncated(d@, 20), style(Some(Color::Gray), None, false, false))],
                None => Seq::<(Seq<char>, Style)>::empty(),
            };
            let gap = if n > 1 && i < n - 1 {
                seq![("  "@, style(Some(Color::DarkGray), None, false, false))]
            } else {
                Seq::<(Seq<char>, Style)>::empty()
            };
            assert(resp_spans_upto(responses@, (i + 1) as nat) == resp_spans_upto(responses@, i as nat) + sep + badge_v + desc + gap);
            assert(spans@.map_values(|s: Span| span_v(s)) =~= before.map_values(|s: Span| span_v(s)) + sep + badge_v + desc + gap);
        }
    }
    let l = Line { spans };
    proof {
        assert(line_v(l) =~= seq![key_span("resp"@)] + resp_spans_upto(responses@, n as nat));
    }
    Some(l)
}

// ─── Hint ────────────────────────────────────────────────────────────────────

/// Bytes a character takes in UTF-8.
pub open spec fn utf8_width(c: char) -> nat {
    if (c as int) < 0x80 {
        1
    } else if (c as int) < 0x800 {
        2
    } else if (c as int) < 0x10000 {
        3
    } else {
        4
    }
}

/// The code point of a character.
fn char_code(c: char) -> (u: u32)
    ensures
        u as int == c as int,
{
    c as u32
}

/// Length of `s` in UTF-8 bytes (`str::len`).
pub open spec fn utf8_len(s: Seq<char>) -> nat
    decreases s.len(),
{
    if s.len() == 0 {
        0
    } else {
        utf8_len(s.drop_last()) + utf8_width(s.last())
    }
}

proof fn lemma_utf8_len_mono(s: Seq<char>, i: int)
    requires
        0 <= i <= s.len(),
    ensures
        utf8_len(s.take(i)) <= utf8_len(s),
    decreases s.len() - i,
{
    if i < s.len() {
        lemma_utf8_len_mono(s, i + 1);
        assert(s.take(i + 1).drop_last() =~= s.take(i));
    } else {
        assert(s.take(i) =~= s);
    }
}

/// Whether `s` is longer than `limit` bytes in UTF-8.
pub fn longer_than_bytes(s: &str, limit: usize) -> (b: bool)
    ensures
        b == (utf8_len(s@) > limit),
{
    let cs = chars_of(s);
    let mut total: usize = 0;
    let n = cs.len();
    for i in 0..n
        invariant
            n == cs@.len(),
            cs@ == s@,
            total == utf8_len(cs@.take(i as int)),
            total <= limit,
    {
        assert(cs@.take(i + 1).drop_last() =~= cs@.take(i as int));
        let c = char_code(cs[i]);
        let w: usize = if c < 0x80 {
            1
        } else if c < 0x800 {
            2
        } else if c < 0x10000 {
            3
        } else {
            4
        };
        assert(w == utf8_width(cs@[i as int]));
        assert(utf8_len(cs@.take(i + 1)) == total + w);
        if w > limit - total {
            proof {
                lemma_utf8_len_mono(cs@, i + 1);
            }
            return true;
        }
        total = total + w;
    }
    assert(cs@.take(n as int) =~= cs@);
    false
}

/// Whether the detail view has more to show than the summary: a schema
/// tree, or a description longer than one line or 80 bytes.
pub open spec fn has_more(o: Operation) -> bool {
    let has_schema = (o.request_body matches Some(rb) && rb.schema_tree is Some) || exists|i: int|
        0 <= i < o.responses@.len() && (#[trigger] o.responses@[i]).schema_tree is Some;
    let long_desc = o.description matches Some(d) && (lines(d@).len() > 1 || utf8_len(d@) > 80);
    has_schema || long_desc
}

pub open spec fn hint_spans() -> Seq<(Seq<char>, Style)> {
    seq![
        ("Enter"@, style(Some(Color::Yellow), None, true, false)),
        (" for full detail & schemas"@, style(Some(Color::Gray), None, false, false)),
    ]
}

/// `Enter for full detail & schemas`, when there is more to see.
pub fn hint_line(op: &Operation) -> (r: Option<Line>)
    ensures
        match r {
            Some(l) => has_more(*op) && line_v(l) == hint_spans(),
            None => !has_more(*op),
        },
{
    let mut has_schema = match &op.request_body {
        Some(rb) => rb.schema_tree.is_some(),
        None => false,
    };
    let n = op.responses.len();
    for i in 0..n
        invariant
            n == op.responses@.len(),
            has_schema == ((op.request_body matches Some(rb) && rb.schema_tree is Some) || exists|k: int|
                0 <= k < i && (#[trigger] op.responses@[k]).schema_tree is Some),
    {
        if op.responses[i].schema_tree.is_some() {
            has_schema = true;
        }
    }
    let long_desc = match &op.description {
        Some(d) => {
            let ls = lines_of(&chars_of(d.as_str()));
            assert(ls@.map_values(|l: Vec<char>| l@).len() == ls@.len());
            ls.len() > 1 || longer_than_bytes(d.as_str(), 80)
        },
        None => false,
    };
    if !has_schema && !long_desc {
        return None;
    }
    let mut spans: Vec<Span> = Vec::new();
    spans.push(styled("Enter".to_owned(), Style::new().fg(Color::Yellow).add_modifier(Modifier::bold())));
    spans.push(styled(" for full detail & schemas".to_owned(), Style::new().fg(Color::Gray)));
    let l = Line { spans };
    assert(line_v(l) =~= hint_spans());
    Some(l)
}

// ─── Operation summary ───────────────────────────────────────────────────────

pub open spec fn opt_line(o: Option<Seq<(Seq<char>, Style)>>) -> Seq<Seq<(Seq<char>, Style)>> {
    match o {
        Some(l) => seq![l],
        None => Seq::empty(),
    }
}

/// The summary of an operation: header, description, parameters, request
/// body, responses, and (after a blank line) the hint when there is more.
pub open spec fn summary_spans(o: Operation, width: nat) -> Seq<Seq<(Seq<char>, Style)>> {
    seq![header_spans(o)] + opt_line(desc_spans(o, width)) + param_spans(o.params@) + match o.request_body {
        Some(rb) => seq![body_spans(rb)],
        None => Seq::empty(),
    } + opt_line(resp_spans(o.responses@)) + if has_more(o) {
        seq![Seq::empty(), hint_spans()]
    } else {
        Seq::empty()
    }
}

pub fn summary_lines(op: &Operation, area_width: u16) -> (r: Vec<Line>)
    ensures
        lines_v(r@) == summary_spans(*op, area_width as nat),
{
    let mut out: Vec<Line> = Vec::new();
    out.push(header_line(op));
    let ghost s0 = lines_v(out@);
    match desc_line(op, area_width) {
        Some(l) => out.push(l),
        None => {},
    }
    assert(lines_v(out@) =~= s0 + opt_line(desc_spans(*op, area_width as nat)));
    let ghost s1 = lines_v(out@);
    let mut ps = param_lines(&op.params);
    let ghost before = out@;
    let ghost pv = ps@;
    out.append(&mut ps);
    assert(out@ =~= before + pv);
    assert(lines_v(out@) =~= s1 + param_spans(op.params@));
    let ghost s2 = lines_v(out@);
    match &op.request_body {
        Some(rb) => match body_line(rb) {
            Some(l) => out.push(l),
            None => {},
        },
        None => {},
    }
    let ghost s3 = lines_v(out@);
    assert(s3 =~= s2 + match op.request_body {
        Some(rb) => seq![body_spans(rb)],
        None => Seq::<Seq<(Seq<char>, Style)>>::empty(),
    });
    match resp_line(&op.responses) {
        Some(l) => out.push(l),
        None => {},
    }
    assert(lines_v(out@) =~= s3 + opt_line(resp_spans(op.responses@)));
    let ghost s4 = lines_v(out@);
    match hint_line(op) {
        Some(h) => {
            let blank = Line { spans: Vec::new() };
            assert(line_v(blank) =~= Seq::<(Seq<char>, Style)>::empty());
            out.push(blank);
            out.push(h);
            assert(lines_v(out@) =~= s4 + seq![Seq::<(Seq<char>, Style)>::empty(), hint_spans()]);
        },
        None => {
            assert(lines_v(out@) =~= s4 + Seq::<Seq<(Seq<char>, Style)>>::empty());
        },
    }
    out
}

} // verus!
