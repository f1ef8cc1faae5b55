use apin::detail::DetailView;
use apin::detail_frame::{DetailBody, DetailScreen, SegmentView};
use apin::detail_page::detail_text;
use apin::lines::Line;
use apin::model::{
    Operation, Param, PathEntry, PathKind, RequestBody, Response, SchemaKindHint, SchemaNode, Spec,
};
use apin::panels::{hint_text, ColumnsView, FrameKind, SummaryView};
use apin::schema_view::highlight_matched_lines;
use apin::session::{ApinApp, Focus};
use apin::styles::{Color, Style};

fn text(l: &Line) -> String {
    l.spans.iter().map(|s| s.content.as_str()).collect()
}

fn leaf(label: &str, kind: &str, required: bool) -> SchemaNode {
    SchemaNode {
        label: label.to_string(),
        kind: SchemaKindHint::Primitive(kind.to_string()),
        description: None,
        required,
        children: vec![],
    }
}

fn object(label: &str, children: Vec<SchemaNode>) -> SchemaNode {
    SchemaNode {
        label: label.to_string(),
        kind: SchemaKindHint::Object,
        description: None,
        required: false,
        children,
    }
}

fn param(name: &str, location: &str, required: bool) -> Param {
    Param {
        name: name.to_string(),
        location: location.to_string(),
        required,
        description: Some(format!("the {}", name)),
        schema_type: None,
        deprecated: false,
    }
}

fn operation(method: &str, with_tree: bool) -> Operation {
    Operation {
        method: method.to_string(),
        summary: Some("Create a pet".to_string()),
        description: Some("Adds a pet.\nSecond line.".to_string()),
        operation_id: Some("createPet".to_string()),
        tags: vec!["pets".to_string()],
        deprecated: false,
        params: vec![param("limit", "query", false), param("petId", "path", true)],
        request_body: Some(RequestBody {
            description: None,
            required: true,
            fields: vec![],
            schema_tree: if with_tree {
                Some(object("body", vec![leaf("name", "string", true), leaf("age", "integer", false)]))
            } else {
                None
            },
        }),
        responses: vec![
            Response {
                code: "201".to_string(),
                description: Some("created".to_string()),
                schema_tree: Some(object("Pet", vec![leaf("id", "integer", true)])),
            },
            Response { code: "400".to_string(), description: None, schema_tree: None },
        ],
    }
}

fn spec_with(paths: Vec<(&str, Vec<Operation>)>) -> Spec {
    Spec {
        file_path: "/tmp/specs/petstore.yaml".to_string(),
        openapi_version: "3.1.0".to_string(),
        title: "Petstore".to_string(),
        version: "1.0".to_string(),
        description: String::new(),
        paths: paths
            .into_iter()
            .map(|(p, ops)| PathEntry { path: p.to_string(), kind: PathKind::Path, operations: ops })
            .collect(),
    }
}

#[test]
fn detail_text_lays_out_sections() {
    let op = operation("POST", false);
    let (above, below) = detail_text(&op, "/pets", false, 12);
    let t: Vec<String> = above.iter().map(text).collect();
    assert_eq!(t[0], " POST   /pets");
    assert_eq!(t[1], "  [pets]  ");
    assert_eq!(t[2], "");
    assert_eq!(t[3], "  Summary      Create a pet");
    assert_eq!(t[4], "  Operation ID createPet");
    assert_eq!(t[5], "");
    assert_eq!(t[6], "  Description");
    assert_eq!(t[7], "    Adds a pet.");
    assert_eq!(t[8], "    Second line.");
    assert_eq!(t[9], "");
    assert_eq!(t[10], "──────────");
    assert_eq!(t[11], "  PARAMETERS");
    assert_eq!(t[12], "");
    // The path group comes before the query group.
    assert_eq!(t[13], "   PATH ");
    assert_eq!(t[15], format!("    {:<22}{:<10} [required] the petId", "petId", "string"));
    assert_eq!(t[16], "   QUERY ");
    assert_eq!(t[18], format!("    {:<22}{:<10} the limit", "limit", "string"));
    // Without a schema tree the responses stay above.
    assert!(t.iter().any(|l| l == "    (schema not available)"));
    assert!(t.iter().any(|l| l == "  RESPONSES"));
    assert!(t.iter().any(|l| l == "     201   created  [1] schema"));
    assert!(t.iter().any(|l| l == "     400 "));
    assert!(below.is_empty());
}

#[test]
fn detail_text_puts_responses_below_a_request_tree() {
    let op = operation("GET", true);
    let (above, below) = detail_text(&op, "/pets", true, 40);
    let t: Vec<String> = above.iter().map(text).collect();
    assert_eq!(t[0], " GET   [WH] /pets");
    assert!(t.iter().any(|l| l == "  [f] focus/unfocus  [j/k] navigate  [h/l] collapse/expand"));
    assert!(!t.iter().any(|l| l == "  RESPONSES"));
    let b: Vec<String> = below.iter().map(text).collect();
    assert_eq!(b[1], "  RESPONSES");
    assert_eq!(b[3], "    code    description");
    assert_eq!(b[4], "     201   created  [1] schema");
    assert_eq!(above[0].spans[0].style.bg, Some(Color::Green));
    assert!(above[0].spans[0].style.add_modifier.bold);
}

#[test]
fn compose_places_request_tree_after_the_text() {
    let op = operation("POST", true);
    let mut d = DetailView::default();
    let f = d.compose(&op, "/pets", false, 60, 12);
    let (above, below) = detail_text(&op, "/pets", false, 60);
    assert_eq!(d.tree_start, above.len());
    // Nothing is opened: the tree shows its two top-level fields.
    assert_eq!(d.tree_len, 2);
    assert_eq!(d.view_height, 10);
    assert_eq!(d.resp_tree_states.len(), 1);
    assert_eq!(d.resp_tree_starts, vec![above.len() + 2 + below.len()]);
    assert_eq!(d.resp_tree_lens, vec![0]);
    let total = above.len() + 2 + below.len();
    assert_eq!(f.title, format!(" POST /pets  [line 1/{}] ○", total));
    match f.body {
        DetailBody::Segments(segs) => {
            assert_eq!(segs.len(), 1);
            assert_eq!(segs[0].rows, 10);
            match &segs[0].view {
                SegmentView::Text { scroll, .. } => assert_eq!(*scroll, 0),
                _ => panic!("expected the text above first"),
            }
        }
        _ => panic!("expected segments"),
    }
}

#[test]
fn compose_shows_the_tree_when_scrolled_to_it() {
    let op = operation("POST", true);
    let mut d = DetailView::default();
    let (above, _) = detail_text(&op, "/pets", false, 60);
    d.scroll = above.len() - 1;
    let f = d.compose(&op, "/pets", false, 60, 12);
    match f.body {
        DetailBody::Segments(segs) => {
            assert_eq!(segs[0].rows, 1);
            match &segs[1].view {
                SegmentView::Tree { items, slot, border, .. } => {
                    assert_eq!(segs[1].rows, 2);
                    assert!(slot.is_none());
                    assert_eq!(items.len(), 2);
                    assert_eq!(items[0].id, 1);
                    assert_eq!(items[1].id, 2);
                    assert_eq!(*border, Style::new().fg(Color::DarkGray));
                }
                _ => panic!("expected the request tree"),
            }
        }
        _ => panic!("expected segments"),
    }
}

#[test]
fn compose_clamps_scroll_to_the_end() {
    let op = operation("POST", false);
    let mut d = DetailView::default();
    d.scroll_bottom();
    let f = d.compose(&op, "/pets", false, 40, 10);
    let (above, _) = detail_text(&op, "/pets", false, 40);
    assert_eq!(d.scroll, above.len() - 8);
    match f.body {
        DetailBody::Text { lines, scroll } => {
            assert_eq!(lines.len(), above.len());
            assert_eq!(scroll, above.len() - 8);
        }
        _ => panic!("without trees the text is one paragraph"),
    }
}

#[test]
fn compose_finds_search_matches_ignoring_case() {
    let op = operation("POST", false);
    let mut d = DetailView::default();
    d.search.query = "PETID".to_string();
    d.search.active = true;
    let f = d.compose(&op, "/pets", false, 40, 10);
    let (above, _) = detail_text(&op, "/pets", false, 40);
    let expected: Vec<usize> = above
        .iter()
        .enumerate()
        .filter(|(_, l)| text(l).to_lowercase().contains("petid"))
        .map(|(i, _)| i)
        .collect();
    assert_eq!(d.search_matches, expected);
    assert_eq!(d.search_cursor, 0);
    assert!(f.title.ends_with(&format!("  /PETID_ [1/{}]", expected.len())));
    match f.body {
        DetailBody::Text { lines, .. } => {
            let hit = expected[0];
            assert!(lines[hit].spans.iter().all(|s| s.style.bg == Some(Color::Yellow)));
        }
        _ => panic!("expected text"),
    }
}

#[test]
fn compose_gives_zero_height_a_blank_body() {
    let op = operation("POST", false);
    let mut d = DetailView::default();
    d.view_height = 7;
    let f = d.compose(&op, "/pets", false, 40, 2);
    assert!(matches!(f.body, DetailBody::Blank));
    assert_eq!(d.view_height, 7);
}

#[test]
fn focused_response_tree_gets_rows_and_padding() {
    let op = operation("POST", true);
    let mut d = DetailView::default();
    d.compose(&op, "/pets", false, 60, 40);
    d.focus_resp_tree(0);
    let f = d.compose(&op, "/pets", false, 60, 40);
    assert_eq!(d.resp_tree_lens, vec![1]);
    let (above, below) = detail_text(&op, "/pets", false, 60);
    let end = above.len() + 2 + below.len() + 1;
    assert!(f.title.contains(&format!("/{}] ◆", end + 3)));
}

#[test]
fn highlight_marks_only_matching_positions() {
    let mut ls = vec![
        Line { spans: vec![apin::lines::Span { content: "a".into(), style: Style::new() }] },
        Line { spans: vec![apin::lines::Span { content: "b".into(), style: Style::new().fg(Color::Red) }] },
    ];
    highlight_matched_lines(&mut ls, 10, &vec![11]);
    assert_eq!(ls[0].spans[0].style, Style::new());
    assert_eq!(ls[1].spans[0].style.bg, Some(Color::Yellow));
    assert_eq!(ls[1].spans[0].style.fg, Some(Color::Black));
}

#[test]
fn hints_follow_the_focus() {
    let mut s = apin::nav::Search::default();
    assert!(hint_text(Focus::Tree, false, &s).contains("h/l: columns"));
    assert!(hint_text(Focus::Ops, false, &s).contains("Enter: expand"));
    assert!(hint_text(Focus::Detail, true, &s).contains("f: unfocus"));
    assert!(hint_text(Focus::Detail, false, &s).contains("f: focus schema"));
    s.active = true;
    assert!(hint_text(Focus::Detail, false, &s).starts_with(" type to search"));
    assert!(hint_text(Focus::Tree, false, &s).contains("h/l: columns"));
}

fn loaded_app() -> ApinApp {
    let mut app = ApinApp::new();
    app.push_spec(spec_with(vec![
        ("/pets", vec![operation("GET", false), operation("POST", true)]),
        ("/users", vec![]),
    ]));
    app
}

#[test]
fn spec_list_shows_title_version_and_file() {
    let app = loaded_app();
    let v = app.spec_list_view();
    assert_eq!(v.title, " Specs ");
    assert_eq!(text(&v.items[0]), "Petstore v1.0 [petstore.yaml]");
    assert_eq!(v.selected, Some(0));
}

#[test]
fn columns_show_tree_then_methods() {
    let mut app = loaded_app();
    app.focus = Focus::Tree;
    match app.columns_view(100) {
        ColumnsView::Columns { slots, columns } => {
            assert_eq!(slots, 2);
            let first = columns[0].as_ref().unwrap();
            assert_eq!(first.title, " Petstore v1.0 [petstore.yaml] ");
            let labels: Vec<String> = first.items.iter().map(text).collect();
            assert_eq!(labels, vec!["pets", "users"]);
            assert_eq!(first.selected, Some(0));
            assert_eq!(first.border, Style::new().fg(Color::Cyan));
            let methods = columns[1].as_ref().unwrap();
            assert_eq!(methods.title, " Methods ");
            let ms: Vec<String> = methods.items.iter().map(text).collect();
            assert_eq!(ms, vec![" GET ", " POST "]);
            assert_eq!(methods.selected, Some(0));
        }
        _ => panic!("expected columns"),
    }
    assert_eq!(app.ops.path_index, Some(0));
}

#[test]
fn narrow_area_keeps_the_active_column_in_view() {
    let mut app = loaded_app();
    app.focus = Focus::Ops;
    match app.columns_view(20) {
        ColumnsView::Columns { slots, columns } => {
            assert_eq!(slots, 1);
            assert_eq!(columns.len(), 1);
            assert_eq!(columns[0].as_ref().unwrap().title, " Methods ");
        }
        _ => panic!("expected columns"),
    }
}

#[test]
fn summary_shows_the_selected_operation() {
    let app = loaded_app();
    match app.summary_view(80) {
        SummaryView::Shown { title, lines, .. } => {
            assert_eq!(text(&title), " /pets ");
            assert!(text(&lines[0]).starts_with(" GET "));
        }
        _ => panic!("expected a summary"),
    }
    assert_eq!(app.frame_kind(), FrameKind::Panels { spec_list: false });
}

#[test]
fn detail_screen_of_the_selected_operation() {
    let mut app = loaded_app();
    match app.detail_screen(60, 20) {
        DetailScreen::Shown(f) => assert!(f.title.starts_with(" GET /pets  [line 1/")),
        _ => panic!("expected the detail"),
    }
    let mut empty = ApinApp::new();
    assert!(matches!(empty.detail_screen(60, 20), DetailScreen::NoOperation));
}
