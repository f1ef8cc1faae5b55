use apin::events::{would_overflow, Action, EventHandler, KeyCode, KeyEvent};
use apin::model::{Operation, PathEntry, PathKind, Response, SchemaKindHint, SchemaNode, Spec};
use apin::session::{ApinApp, Focus};

fn press(code: KeyCode) -> KeyEvent {
    KeyEvent { code, ctrl: false, press: true }
}

fn ch(c: char) -> KeyEvent {
    press(KeyCode::Char(c))
}

fn ctrl(c: char) -> KeyEvent {
    KeyEvent { code: KeyCode::Char(c), ctrl: true, press: true }
}

fn op(method: &str, summary: &str) -> Operation {
    Operation {
        method: method.to_string(),
        summary: Some(summary.to_string()),
        description: None,
        operation_id: None,
        tags: vec![],
        deprecated: false,
        params: vec![],
        request_body: None,
        responses: vec![],
    }
}

fn spec(title: &str, paths: Vec<(&str, Vec<Operation>)>) -> Spec {
    Spec {
        file_path: format!("/specs/{}.yaml", title),
        openapi_version: "3.0.3".to_string(),
        title: title.to_string(),
        version: "1".to_string(),
        description: String::new(),
        paths: paths
            .into_iter()
            .map(|(p, ops)| PathEntry { path: p.to_string(), kind: PathKind::Path, operations: ops })
            .collect(),
    }
}

fn loaded_app() -> ApinApp {
    let mut app = ApinApp::new();
    app.push_spec(spec(
        "pets",
        vec![
            ("/pets", vec![op("GET", "List pets"), op("POST", "Create a pet")]),
            ("/pets/{id}", vec![op("GET", "Show a pet"), op("DELETE", "Remove a pet")]),
            ("/stores", vec![op("GET", "List stores")]),
        ],
    ));
    app.push_spec(spec("users", vec![("/users", vec![op("GET", "List users")])]));
    app.finish_loading();
    app
}

fn key(h: &mut EventHandler, app: &mut ApinApp, k: KeyEvent) -> Action {
    assert!(!would_overflow(app, k));
    h.handle(app, k)
}

#[test]
fn q_quits_and_release_is_ignored() {
    let mut app = loaded_app();
    let mut h = EventHandler::new();
    let release = KeyEvent { code: KeyCode::Char('q'), ctrl: false, press: false };
    assert_eq!(key(&mut h, &mut app, release), Action::Continue);
    assert_eq!(key(&mut h, &mut app, ch('q')), Action::Quit);
}

#[test]
fn while_loading_only_quit_keys_act() {
    let mut app = ApinApp::new();
    let mut h = EventHandler::new();
    assert!(app.is_loading());
    assert_eq!(key(&mut h, &mut app, ch('j')), Action::Continue);
    assert_eq!(key(&mut h, &mut app, ch('c')), Action::Continue);
    assert_eq!(key(&mut h, &mut app, ctrl('c')), Action::Quit);
    assert_eq!(key(&mut h, &mut app, ch('q')), Action::Quit);
}

#[test]
fn spec_list_moves_clamps_and_jumps() {
    let mut app = loaded_app();
    let mut h = EventHandler::new();
    assert_eq!(app.focus, Focus::Specs);
    assert_eq!(app.selected_spec_index(), 0);
    key(&mut h, &mut app, ch('j'));
    assert_eq!(app.selected_spec_index(), 1);
    key(&mut h, &mut app, ch('k'));
    assert_eq!(app.selected_spec_index(), 0);
    key(&mut h, &mut app, ch('G'));
    assert_eq!(app.selected_spec_index(), 1);
    // At the last row, down stays there.
    key(&mut h, &mut app, press(KeyCode::Down));
    assert_eq!(app.selected_spec_index(), 1);
    // A pending `g` swallows the next key: `gq` does not quit.
    key(&mut h, &mut app, ch('g'));
    assert_eq!(key(&mut h, &mut app, ch('q')), Action::Continue);
    key(&mut h, &mut app, ch('g'));
    key(&mut h, &mut app, ch('g'));
    assert_eq!(app.selected_spec_index(), 0);
}

#[test]
fn tree_then_operations_then_detail_and_back() {
    let mut app = loaded_app();
    let mut h = EventHandler::new();
    key(&mut h, &mut app, ch('l'));
    assert_eq!(app.focus, Focus::Tree);
    let root_labels: Vec<String> =
        app.tree().unwrap().filtered_children().iter().map(|(_, l, _)| l.to_string()).collect();
    assert_eq!(root_labels, vec!["pets".to_string(), "stores".to_string()]);
    // `/pets` has both an endpoint and a child, so it opens a column.
    key(&mut h, &mut app, ch('l'));
    assert_eq!(app.tree().unwrap().active_col, 1);
    let labels: Vec<String> =
        app.tree().unwrap().filtered_children().iter().map(|(_, l, _)| l.to_string()).collect();
    assert_eq!(labels, vec![".".to_string(), "{id}".to_string()]);
    assert_eq!(app.tree().unwrap().selected_path_index(), Some(0));
    // The `.` leaf is the path itself: moving right goes to its operations.
    key(&mut h, &mut app, ch('l'));
    assert_eq!(app.focus, Focus::Ops);
    let ops: Vec<String> = app.filtered_ops().iter().map(|(_, m, _)| m.to_string()).collect();
    assert_eq!(ops, vec!["GET".to_string(), "POST".to_string()]);
    key(&mut h, &mut app, ch('j'));
    assert_eq!(app.selected_operation_index(), Some(1));
    key(&mut h, &mut app, press(KeyCode::Enter));
    assert_eq!(app.focus, Focus::Detail);
    key(&mut h, &mut app, press(KeyCode::Esc));
    assert_eq!(app.focus, Focus::Ops);
    key(&mut h, &mut app, ch('h'));
    assert_eq!(app.focus, Focus::Tree);
}

#[test]
fn tree_search_filters_and_escape_restores() {
    let mut app = loaded_app();
    let mut h = EventHandler::new();
    key(&mut h, &mut app, ch('l'));
    key(&mut h, &mut app, ch('/'));
    assert!(app.is_searching());
    // While searching, `q` is typed, not a quit.
    assert_eq!(key(&mut h, &mut app, ch('S')), Action::Continue);
    let labels: Vec<String> =
        app.tree().unwrap().filtered_children().iter().map(|(_, l, _)| l.to_string()).collect();
    assert_eq!(labels, vec!["pets".to_string(), "stores".to_string()]);
    key(&mut h, &mut app, ch('t'));
    let labels: Vec<String> =
        app.tree().unwrap().filtered_children().iter().map(|(_, l, _)| l.to_string()).collect();
    assert_eq!(labels, vec!["stores".to_string()]);
    key(&mut h, &mut app, press(KeyCode::Backspace));
    key(&mut h, &mut app, press(KeyCode::Esc));
    assert!(!app.is_searching());
    assert_eq!(app.tree().unwrap().search.query, "");
    assert_eq!(app.tree().unwrap().filtered_children().len(), 2);
}

#[test]
fn ops_search_keeps_query_on_enter() {
    let mut app = loaded_app();
    let mut h = EventHandler::new();
    key(&mut h, &mut app, ch('l'));
    key(&mut h, &mut app, ch('l'));
    key(&mut h, &mut app, ch('l'));
    assert_eq!(app.focus, Focus::Ops);
    key(&mut h, &mut app, ch('/'));
    for c in "create".chars() {
        key(&mut h, &mut app, ch(c));
    }
    key(&mut h, &mut app, press(KeyCode::Enter));
    assert!(!app.is_searching());
    let ops: Vec<String> = app.filtered_ops().iter().map(|(_, m, _)| m.to_string()).collect();
    assert_eq!(ops, vec!["POST".to_string()]);
    assert_eq!(app.selected_operation_index(), Some(1));
    // Ctrl-u in a reopened box clears the query.
    key(&mut h, &mut app, ch('/'));
    key(&mut h, &mut app, ctrl('u'));
    assert_eq!(app.filtered_ops().len(), 2);
}

#[test]
fn ctrl_d_moves_ten_rows_in_lists() {
    let mut app = ApinApp::new();
    for i in 0..15 {
        app.push_spec(spec(&format!("s{:02}", i), vec![]));
    }
    app.finish_loading();
    let mut h = EventHandler::new();
    key(&mut h, &mut app, ctrl('d'));
    assert_eq!(app.selected_spec_index(), 10);
    key(&mut h, &mut app, ctrl('d'));
    assert_eq!(app.selected_spec_index(), 14);
    key(&mut h, &mut app, ctrl('u'));
    assert_eq!(app.selected_spec_index(), 4);
}

#[test]
fn overflowing_half_page_is_reported() {
    let mut app = loaded_app();
    app.focus = Focus::Detail;
    app.detail.view_height = 10;
    app.detail.scroll = usize::MAX - 2;
    assert!(would_overflow(&app, ctrl('d')));
    assert!(!would_overflow(&app, ch('d')));
    assert!(!would_overflow(&app, ctrl('u')));
    app.detail.scroll = usize::MAX - 5;
    assert!(!would_overflow(&app, ctrl('d')));
}

#[test]
fn gg_goes_to_the_top_of_the_detail() {
    let mut app = loaded_app();
    let mut h = EventHandler::new();
    key(&mut h, &mut app, ch('l'));
    key(&mut h, &mut app, ch('l'));
    key(&mut h, &mut app, ch('l'));
    key(&mut h, &mut app, press(KeyCode::Enter));
    assert_eq!(app.focus, Focus::Detail);
    key(&mut h, &mut app, ch('j'));
    key(&mut h, &mut app, ch('j'));
    assert_eq!(app.detail.scroll, 2);
    key(&mut h, &mut app, ch('g'));
    assert!(h.pending_g);
    // `gq` neither quits nor moves.
    assert_eq!(key(&mut h, &mut app, ch('q')), Action::Continue);
    assert_eq!(app.detail.scroll, 2);
    key(&mut h, &mut app, ch('g'));
    key(&mut h, &mut app, ch('g'));
    assert_eq!(app.detail.scroll, 0);
    assert!(!h.pending_g);
}

#[test]
fn digit_opens_a_response_tree() {
    let mut get = op("GET", "Show a pet");
    get.responses = vec![Response {
        code: "200".to_string(),
        description: Some("ok".to_string()),
        schema_tree: Some(SchemaNode {
            label: "Pet".to_string(),
            kind: SchemaKindHint::Object,
            description: None,
            required: false,
            children: vec![SchemaNode {
                label: "id".to_string(),
                kind: SchemaKindHint::Primitive("integer".to_string()),
                description: None,
                required: true,
                children: vec![],
            }],
        }),
    }];
    let mut app = ApinApp::new();
    app.push_spec(spec("pets", vec![("/pets", vec![get])]));
    app.finish_loading();
    let mut h = EventHandler::new();
    key(&mut h, &mut app, ch('l'));
    key(&mut h, &mut app, press(KeyCode::Enter));
    assert_eq!(app.focus, Focus::Detail);
    let _ = app.detail_screen(80, 40);
    assert_eq!(app.detail.resp_tree_states.len(), 1);
    key(&mut h, &mut app, ch('2'));
    assert_eq!(app.detail.focused_resp_tree, None);
    key(&mut h, &mut app, ch('1'));
    assert_eq!(app.detail.focused_resp_tree, Some(0));
    // `gg` goes to the top from inside the tree as well.
    key(&mut h, &mut app, ch('g'));
    assert!(h.pending_g);
    key(&mut h, &mut app, ch('g'));
    assert!(!h.pending_g);
    assert_eq!(app.detail.scroll, 0);
    assert_eq!(app.detail.focused_resp_tree, Some(0));
    key(&mut h, &mut app, ch('f'));
    assert_eq!(app.detail.focused_resp_tree, None);
    assert_eq!(app.focus, Focus::Detail);
}
