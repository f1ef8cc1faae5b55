//! Key bindings: which action each key triggers in each mode.
use vstd::prelude::*;

use crate::detail::{
    half_page, last_rows_of, next_match, opened_after, opened_of, prev_match, row_at, selected_moved, selected_of, DetailView,
    TreeKey,
};
use crate::detail_frame::only_detail_changed;
use crate::nav::{clamp_sel, moved_by, moved_to_end, popped, searched, sel_or_zero, TreeCursor};
use crate::session::{
    app_wf, entered_from_ops, entered_from_tree, only_ops_changed, only_selection_changed, ops_list, tree_focused,
    tree_step, went_back, went_left_or_specs, went_right_or_ops, ApinApp, Focus,
};

verus! {

/// A key, as far as the bindings distinguish keys.
#[derive(Debug, Clone, Copy, PartialEq, Eq, Structural)]
pub enum KeyCode {
    Char(char),
    Enter,
    Esc,
    Backspace,
    Tab,
    Up,
    Down,
    Left,
    Right,
    Other,
}

/// A key event.
#[derive(Debug, Clone, Copy, PartialEq, Eq, Structural)]
pub struct KeyEvent {
    pub code: KeyCode,
    /// Whether Control was held.
    pub ctrl: bool,
    /// Whether this is a key press (not a release or a repeat).
    pub press: bool,
}

/// What the event loop does after a key.
#[derive(Debug, Clone, Copy, PartialEq, Eq, Structural)]
pub enum Action {
    Continue,
    Quit,
}

/// Key handler; remembers a pending `g` between keys (`gg` jumps to the top).
pub struct EventHandler {
    pub pending_g: bool,
}

/// Whether a key quits the program in the current state.
pub open spec fn quits(app: ApinApp, pending_g: bool, key: KeyEvent) -> bool {
    if !key.press {
        false
    } else if app.specs@.len() == 0 && !app.specs_done {
        key.code == KeyCode::Char('q') || (key.code == KeyCode::Char('c') && key.ctrl)
    } else if is_searching(app) {
        false
    } else if app.focus == Focus::Detail {
        !pending_g && key.code == KeyCode::Char('q')
    } else {
        !pending_g && key.code == KeyCode::Char('q')
    }
}

/// What a key does to the app: nothing on a release or while the first
/// spec is loading, otherwise what the bindings of the open search box, the
/// detail view or the other panels say.
pub open spec fn key_done(a: ApinApp, b: ApinApp, pending_g: bool, key: KeyEvent) -> bool {
    if !key.press || (a.specs@.len() == 0 && !a.specs_done) {
        b == a
    } else if is_searching(a) {
        search_key_done(a, b, key)
    } else if a.focus == Focus::Detail {
        detail_key_done(a, b, pending_g, key)
    } else {
        normal_key_done(a, b, pending_g, key)
    }
}

/// `gg` goes to the top of the detail view: whatever has the focus there
/// and whether or not a `g` was already pending, two presses of `g` with no
/// search box open leave the page scrolled to the top, and neither press
/// quits.
pub proof fn lemma_gg_goes_to_top(a: ApinApp, b: ApinApp, c: ApinApp, pending: bool, key: KeyEvent)
    requires
        key == (KeyEvent { code: KeyCode::Char('g'), ctrl: false, press: true }),
        !(a.specs@.len() == 0 && !a.specs_done),
        !is_searching(a),
        a.focus == Focus::Detail,
        key_done(a, b, pending, key),
        key_done(b, c, pending_after(a, pending, key), key),
    ensures
        c.detail.scroll == 0,
        !quits(a, pending, key),
        !quits(b, pending_after(a, pending, key), key),
{
    if pending {
        assert(b.detail.search == a.detail.search);
        assert(!is_searching(b));
    } else {
        assert(b == a);
    }
}

/// Whether a `g` is pending after the key: set by a `g` that does not
/// complete `gg`, cleared by any other key.
pub open spec fn pending_after(a: ApinApp, pending_g: bool, key: KeyEvent) -> bool {
    if !key.press || (a.specs@.len() == 0 && !a.specs_done) || is_searching(a) {
        pending_g
    } else {
        !pending_g && key.code == KeyCode::Char('g')
    }
}

pub open spec fn is_searching(a: ApinApp) -> bool {
    match a.focus {
        Focus::Tree => 0 <= crate::session::spec_index(a) < a.trees@.len()
            && a.trees@[crate::session::spec_index(a)].search.active,
        Focus::Ops => a.ops.search.active,
        Focus::Detail => a.detail.search.active,
        Focus::Specs => false,
    }
}

/// Half a page down still fits the scroll offset.
pub open spec fn fits_half_page(a: ApinApp) -> bool {
    a.detail.scroll + half_page(a.detail.view_height) <= usize::MAX
}

/// The key would scroll the detail view half a page past the largest offset
/// (where the offset arithmetic overflows).
pub open spec fn half_page_overflows(a: ApinApp, key: KeyEvent) -> bool {
    &&& key.press
    &&& !(a.specs@.len() == 0 && !a.specs_done)
    &&& !is_searching(a)
    &&& a.focus == Focus::Detail
    &&& !a.detail.in_tree
    &&& key.code == KeyCode::Char('d')
    &&& key.ctrl
    &&& !fits_half_page(a)
}

/// Whether [`EventHandler::handle`] would overflow the scroll offset on
/// this key.
pub fn would_overflow(app: &ApinApp, key: KeyEvent) -> (b: bool)
    ensures
        b == half_page_overflows(*app, key),
{
    let half = if app.detail.view_height / 2 >= 1 {
        app.detail.view_height / 2
    } else {
        1
    };
    key.press && !app.is_loading() && !app.is_searching() && app.focus == Focus::Detail
        && !app.detail.in_tree && key.code == KeyCode::Char('d') && key.ctrl && app.detail.scroll
        > usize::MAX - half
}

impl EventHandler {
    pub fn new() -> (h: Self)
        ensures
            !h.pending_g,
    {
        EventHandler { pending_g: false }
    }

    /// Handles one key event.
    pub fn handle(&mut self, app: &mut ApinApp, key: KeyEvent) -> (r: Action)
        requires
            app_wf(*old(app)),
            !half_page_overflows(*old(app), key),
        ensures
            app_wf(*final(app)),
            final(app).specs@ == old(app).specs@,
            (r == Action::Quit) == quits(*old(app), old(self).pending_g, key),
            key_done(*old(app), *final(app), old(self).pending_g, key),
            final(self).pending_g == pending_after(*old(app), old(self).pending_g, key),
    {
        if !key.press {
            return Action::Continue;
        }
        if app.is_loading() {
            return match key.code {
                KeyCode::Char('q') => Action::Quit,
                KeyCode::Char('c') => if key.ctrl {
                    Action::Quit
                } else {
                    Action::Continue
                },
                _ => Action::Continue,
            };
        }
        if app.is_searching() {
            return handle_search_key(app, key);
        }
        if app.focus == Focus::Detail {
            return handle_detail_key(app, key, &mut self.pending_g);
        }
        handle_normal_key(app, key, &mut self.pending_g)
    }
}

// ─── Search input ────────────────────────────────────────────────────────────

/// The search key clears the query (Ctrl-u).
pub open spec fn clears_query(key: KeyEvent) -> bool {
    key.code == KeyCode::Char('u') && key.ctrl
}

/// What a key does to the tree while its search box is open: Esc closes
/// and empties the query, Enter closes it keeping the query, Backspace and
/// characters edit the query (Ctrl-u empties it), the arrows move the
/// selection; other keys change nothing.
pub open spec fn tree_search_key_done(a: ApinApp, b: ApinApp, key: KeyEvent) -> bool {
    match key.code {
        KeyCode::Esc => tree_step(a, b, |x: TreeCursor, y: TreeCursor| searched(x, y, Seq::empty(), false)),
        KeyCode::Enter => tree_step(
            a,
            b,
            |x: TreeCursor, y: TreeCursor| !y.search.active && y.search.query@ == x.search.query@
                && y.root == x.root && y.levels@ == x.levels@ && y.active_col == x.active_col,
        ),
        KeyCode::Backspace => tree_step(
            a,
            b,
            |x: TreeCursor, y: TreeCursor| searched(x, y, popped(x.search.query@), x.search.active),
        ),
        KeyCode::Char(c) => if clears_query(key) {
            tree_step(a, b, |x: TreeCursor, y: TreeCursor| searched(x, y, Seq::empty(), x.search.active))
        } else {
            tree_step(a, b, |x: TreeCursor, y: TreeCursor| searched(x, y, x.search.query@.push(c), x.search.active))
        },
        KeyCode::Down => tree_step(a, b, |x: TreeCursor, y: TreeCursor| moved_by(x, y, 1)),
        KeyCode::Up => tree_step(a, b, |x: TreeCursor, y: TreeCursor| moved_by(x, y, -1)),
        _ => b == a,
    }
}

/// What a key does to the operations list while its search box is open:
/// as for the tree; editing the query drops the selection (Ctrl-u keeps it
/// inside the new list).
pub open spec fn ops_search_key_done(a: ApinApp, b: ApinApp, key: KeyEvent) -> bool {
    match key.code {
        KeyCode::Esc => only_ops_changed(a, b) && !b.ops.search.active && b.ops.search.query@.len() == 0
            && b.ops.selected is None,
        KeyCode::Enter => only_ops_changed(a, b) && !b.ops.search.active && b.ops.search.query@
            == a.ops.search.query@ && b.ops.selected == a.ops.selected,
        KeyCode::Backspace => only_ops_changed(a, b) && b.ops.search.query@ == popped(a.ops.search.query@)
            && b.ops.search.active == a.ops.search.active && b.ops.selected is None,
        KeyCode::Char(c) => if clears_query(key) {
            only_ops_changed(a, b) && b.ops.search.query@.len() == 0 && b.ops.search.active
                == a.ops.search.active && b.ops.selected == clamp_sel(a.ops.selected, ops_list(b).len() as int)
        } else {
            only_ops_changed(a, b) && b.ops.search.query@ == a.ops.search.query@.push(c)
                && b.ops.search.active == a.ops.search.active && b.ops.selected is None
        },
        KeyCode::Down => only_ops_changed(a, b) && b.ops.search == a.ops.search && b.ops.path_index
            == a.ops.path_index && b.ops.selected == ops_below(a),
        KeyCode::Up => only_ops_changed(a, b) && b.ops.search == a.ops.search && b.ops.selected
            == ops_above(a),
        _ => b == a,
    }
}

/// What a key does to the detail view while its search box is open: Esc
/// closes it and forgets query and matches; Enter closes it and jumps to
/// the first match; editing the query jumps to the first match found so
/// far (Ctrl-u empties query and matches); other keys change nothing.
pub open spec fn detail_search_key_done(a: ApinApp, b: ApinApp, key: KeyEvent) -> bool {
    let d = a.detail;
    let e = b.detail;
    let jumped = (d.search_matches@.len() > 0 ==> e.scroll == d.search_matches@[0] && e.search_cursor == 0)
        && (d.search_matches@.len() == 0 ==> e.scroll == d.scroll && e.search_cursor == d.search_cursor);
    match key.code {
        KeyCode::Esc => only_detail_changed(a, b) && !e.search.active && e.search.query@.len() == 0
            && e.search_matches@.len() == 0 && e.search_cursor == 0 && e.scroll == d.scroll,
        KeyCode::Enter => only_detail_changed(a, b) && !e.search.active && e.search.query@ == d.search.query@
            && e.search_matches@ == d.search_matches@ && e.search_cursor == d.search_cursor
            && e.scroll == (if d.search_matches@.len() > 0 {
            d.search_matches@[0]
        } else {
            d.scroll
        }),
        KeyCode::Backspace => only_detail_changed(a, b) && e.search.query@ == popped(d.search.query@)
            && e.search.active == d.search.active && e.search_matches@ == d.search_matches@ && jumped,
        KeyCode::Char(c) => if clears_query(key) {
            only_detail_changed(a, b) && e.search.query@.len() == 0 && e.search.active == d.search.active
                && e.search_matches@.len() == 0 && e.search_cursor == 0 && e.scroll == d.scroll
        } else {
            only_detail_changed(a, b) && e.search.query@ == d.search.query@.push(c) && e.search.active
                == d.search.active && e.search_matches@ == d.search_matches@ && jumped
        },
        _ => b == a,
    }
}

/// What a key does while the focused panel's search box is open.
pub open spec fn search_key_done(a: ApinApp, b: ApinApp, key: KeyEvent) -> bool {
    &&& b.focus == a.focus
    &&& match a.focus {
        Focus::Tree => tree_search_key_done(a, b, key),
        Focus::Ops => ops_search_key_done(a, b, key),
        Focus::Detail => detail_search_key_done(a, b, key),
        Focus::Specs => b == a,
    }
}

/// Keys while a search box is open: edit the query, arrows still move.
fn handle_search_key(app: &mut ApinApp, key: KeyEvent) -> (r: Action)
    requires
        app_wf(*old(app)),
    ensures
        app_wf(*final(app)),
        final(app).specs@ == old(app).specs@,
        r == Action::Continue,
        search_key_done(*old(app), *final(app), key),
{
    match key.code {
        KeyCode::Esc => match app.focus {
            Focus::Tree => app.tree_search_cancel(),
            Focus::Ops => app.ops_search_cancel(),
            Focus::Detail => app.detail.search_cancel(),
            Focus::Specs => {},
        },
        KeyCode::Enter => match app.focus {
            Focus::Tree => app.tree_search_commit(),
            Focus::Ops => app.ops_search_commit(),
            Focus::Detail => {
                app.detail.search_enter();
            },
            Focus::Specs => {},
        },
        KeyCode::Backspace => match app.focus {
            Focus::Tree => app.tree_search_pop(),
            Focus::Ops => app.ops_search_pop(),
            Focus::Detail => {
                app.detail.search_pop();
            },
            Focus::Specs => {},
        },
        KeyCode::Char(ch) => {
            if key.ctrl && ch == 'u' {
                match app.focus {
                    Focus::Tree => app.tree_search_clear(),
                    Focus::Ops => app.ops_search_clear(),
                    Focus::Detail => app.detail.search_clear(),
                    Focus::Specs => {},
                }
            } else {
                match app.focus {
                    Focus::Tree => app.tree_search_push(ch),
                    Focus::Ops => app.ops_search_push(ch),
                    Focus::Detail => {
                        app.detail.search_push(ch);
                    },
                    Focus::Specs => {},
                }
            }
        },
        KeyCode::Down => match app.focus {
            Focus::Tree => app.tree_move_down(),
            Focus::Ops => app.ops_move_down(),
            Focus::Specs | Focus::Detail => {},
        },
        KeyCode::Up => match app.focus {
            Focus::Tree => app.tree_move_up(),
            Focus::Ops => app.ops_move_up(),
            Focus::Specs | Focus::Detail => {},
        },
        _ => {},
    }
    Action::Continue
}

// ─── Detail view ─────────────────────────────────────────────────────────────

/// Only the detail view's scroll offset changed, and became `scroll`.
pub open spec fn detail_scrolled(a: ApinApp, b: ApinApp, scroll: int) -> bool {
    &&& only_detail_changed(a, b)
    &&& b.detail.scroll == scroll
    &&& b.detail == (DetailView { scroll: b.detail.scroll, ..a.detail })
}

/// A navigation key went to the focused response tree.
pub open spec fn resp_tree_keyed(a: ApinApp, b: ApinApp, k: TreeKey) -> bool {
    let d = a.detail;
    let e = b.detail;
    &&& only_detail_changed(a, b)
    &&& e.focused_resp_tree == d.focused_resp_tree
    &&& e.scroll == d.scroll
    &&& e.resp_tree_states@.len() == d.resp_tree_states@.len()
    &&& forall|j: int|
        0 <= j < d.resp_tree_states@.len() ==> opened_of(#[trigger] e.resp_tree_states@[j])
            == if d.focused_resp_tree == Some(j as usize) {
            opened_after(k, opened_of(d.resp_tree_states@[j]), selected_of(d.resp_tree_states@[j]))
        } else {
            opened_of(d.resp_tree_states@[j])
        }
    &&& k == TreeKey::Down || k == TreeKey::Up ==> forall|j: int|
        0 <= j < d.resp_tree_states@.len() ==> selected_of(#[trigger] e.resp_tree_states@[j])
            == if d.focused_resp_tree == Some(j as usize) {
            selected_moved(k == TreeKey::Down, d.resp_tree_states@[j])
        } else {
            selected_of(d.resp_tree_states@[j])
        }
}

/// Response tree `idx` took the focus (when there is one), scrolled to.
pub open spec fn resp_focused(a: ApinApp, b: ApinApp, idx: usize) -> bool {
    let d = a.detail;
    let e = b.detail;
    &&& only_detail_changed(a, b)
    &&& e.resp_tree_states@.len() == d.resp_tree_states@.len()
    &&& idx >= d.resp_tree_states@.len() ==> e.focused_resp_tree == d.focused_resp_tree && e.scroll == d.scroll
        && e.in_tree == d.in_tree
    &&& idx < d.resp_tree_states@.len() ==> {
        &&& e.focused_resp_tree == Some(idx)
        &&& !e.in_tree
        &&& e.scroll == (if idx < d.resp_tree_starts@.len() {
            d.resp_tree_starts@[idx as int]
        } else {
            d.scroll
        })
        &&& selected_of(e.resp_tree_states@[idx as int]) == row_at(last_rows_of(d.resp_tree_states@[idx as int]), 0)
    }
}

/// A navigation key went to the focused request-body tree.
pub open spec fn detail_tree_keyed(a: ApinApp, b: ApinApp, k: TreeKey) -> bool {
    let s = a.detail.schema_tree_state;
    let t = b.detail.schema_tree_state;
    &&& only_detail_changed(a, b)
    &&& b.detail.in_tree == a.detail.in_tree
    &&& b.detail.scroll == a.detail.scroll
    &&& opened_of(t) == opened_after(k, opened_of(s), selected_of(s))
    &&& k == TreeKey::Down ==> selected_of(t) == selected_moved(true, s)
    &&& k == TreeKey::Up ==> selected_of(t) == selected_moved(false, s)
}

/// What a key does in the detail view when no search box is open.  After
/// `g` the next key is taken up: a second `g` goes to the top.  With the
/// request-body tree focused, `j`/`k`/`h`/`l` (and the arrows) move in it
/// and `f` leaves it; otherwise they scroll, leave the view (`h`, Esc,
/// Backspace), scroll half a page (Ctrl-d/Ctrl-u), focus the tree (`f`),
/// open the search (`/`), step through matches (`n`/`N`) or go to the end
/// (`G`).  Other keys change nothing.
pub open spec fn detail_key_done(a: ApinApp, b: ApinApp, pending: bool, key: KeyEvent) -> bool {
    let d = a.detail;
    let e = b.detail;
    if pending {
        if key.code == KeyCode::Char('g') {
            detail_scrolled(a, b, 0)
        } else {
            b == a
        }
    } else if d.in_tree {
        match key.code {
            KeyCode::Char('f') => only_detail_changed(a, b) && !e.in_tree && e.scroll == d.scroll
                && e.focused_resp_tree == d.focused_resp_tree,
            KeyCode::Char('j') | KeyCode::Down => detail_tree_keyed(a, b, TreeKey::Down),
            KeyCode::Char('k') | KeyCode::Up => detail_tree_keyed(a, b, TreeKey::Up),
            KeyCode::Char('h') | KeyCode::Left => detail_tree_keyed(a, b, TreeKey::Left),
            KeyCode::Char('l') | KeyCode::Right => detail_tree_keyed(a, b, TreeKey::Right),
            _ => b == a,
        }
    } else if d.focused_resp_tree is Some {
        match key.code {
            KeyCode::Char('f') | KeyCode::Esc => only_detail_changed(a, b) && e.focused_resp_tree is None
                && e.scroll == d.scroll && e.in_tree == d.in_tree,
            KeyCode::Char('j') | KeyCode::Down => resp_tree_keyed(a, b, TreeKey::Down),
            KeyCode::Char('k') | KeyCode::Up => resp_tree_keyed(a, b, TreeKey::Up),
            KeyCode::Char('h') | KeyCode::Left => resp_tree_keyed(a, b, TreeKey::Left),
            KeyCode::Char('l') | KeyCode::Right => resp_tree_keyed(a, b, TreeKey::Right),
            _ => b == a,
        }
    } else {
        match key.code {
            KeyCode::Backspace | KeyCode::Esc | KeyCode::Char('h') => went_back(a, b),
            KeyCode::Char('j') | KeyCode::Down => detail_scrolled(
                a,
                b,
                if d.scroll + 1 > usize::MAX { usize::MAX as int } else { d.scroll + 1 },
            ),
            KeyCode::Char('k') | KeyCode::Up => detail_scrolled(a, b, if d.scroll >= 1 { d.scroll - 1 } else { 0 }),
            KeyCode::Char('d') => if key.ctrl {
                detail_scrolled(a, b, d.scroll + half_page(d.view_height))
            } else {
                b == a
            },
            KeyCode::Char('u') => if key.ctrl {
                detail_scrolled(
                    a,
                    b,
                    if d.scroll >= half_page(d.view_height) { d.scroll - half_page(d.view_height) } else { 0 },
                )
            } else {
                b == a
            },
            KeyCode::Char('f') => only_detail_changed(a, b) && e.in_tree == (d.in_tree || d.tree_len > 0)
                && e.scroll == d.scroll && e.focused_resp_tree == d.focused_resp_tree,
            KeyCode::Char('/') => only_detail_changed(a, b) && e.search.active && e.search.query@.len() == 0
                && e.search_matches@.len() == 0 && e.search_cursor == 0 && e.scroll == d.scroll,
            KeyCode::Char('n') => only_detail_changed(a, b) && e.search_matches@ == d.search_matches@
                && e.search == d.search && (d.search_matches@.len() == 0 ==> e == d)
                && (d.search_matches@.len() > 0 ==> e.search_cursor == next_match(
                d.search_cursor as int,
                d.search_matches@.len() as int,
            ) && e.scroll == d.search_matches@[e.search_cursor as int]),
            KeyCode::Char('N') => only_detail_changed(a, b) && e.search_matches@ == d.search_matches@
                && e.search == d.search && (d.search_matches@.len() == 0 ==> e.scroll == d.scroll
                && e.search_cursor == d.search_cursor) && (d.search_matches@.len() > 0
                ==> e.search_cursor == prev_match(d.search_cursor as int, d.search_matches@.len() as int)
                && (e.search_cursor < d.search_matches@.len() ==> e.scroll
                == d.search_matches@[e.search_cursor as int])),
            KeyCode::Char('G') => detail_scrolled(a, b, (usize::MAX / 2) as int),
            KeyCode::Char(c) => match digit_spec(c) {
                Some(i) => resp_focused(a, b, i),
                None => b == a,
            },
            _ => b == a,
        }
    }
}

fn handle_detail_key(app: &mut ApinApp, key: KeyEvent, pending_g: &mut bool) -> (r: Action)
    requires
        app_wf(*old(app)),
        !*old(pending_g) && !old(app).detail.in_tree && key.code == KeyCode::Char('d') && key.ctrl
            ==> fits_half_page(*old(app)),
    ensures
        app_wf(*final(app)),
        final(app).specs@ == old(app).specs@,
        (r == Action::Quit) == (!*old(pending_g) && key.code == KeyCode::Char('q')),
        detail_key_done(*old(app), *final(app), *old(pending_g), key),
        *final(pending_g) == (!*old(pending_g) && key.code == KeyCode::Char('g')),
{
    if *pending_g {
        *pending_g = false;
        if key.code == KeyCode::Char('g') {
            app.detail.scroll_top();
        }
        return Action::Continue;
    }
    if app.detail.in_tree() {
        match key.code {
            KeyCode::Char('f') => app.detail.unfocus_tree(),
            KeyCode::Char('q') => return Action::Quit,
            KeyCode::Char('j') | KeyCode::Down => app.detail.schema_tree_key_down(),
            KeyCode::Char('k') | KeyCode::Up => app.detail.schema_tree_key_up(),
            KeyCode::Char('h') | KeyCode::Left => app.detail.schema_tree_key_left(),
            KeyCode::Char('l') | KeyCode::Right => app.detail.schema_tree_key_right(),
            KeyCode::Char('g') => *pending_g = true,
            _ => {},
        }
    } else if app.detail.in_resp_tree() {
        match key.code {
            KeyCode::Char('f') | KeyCode::Esc => app.detail.unfocus_resp_tree(),
            KeyCode::Char('q') => return Action::Quit,
            KeyCode::Char('j') | KeyCode::Down => app.detail.resp_tree_key_down(),
            KeyCode::Char('k') | KeyCode::Up => app.detail.resp_tree_key_up(),
            KeyCode::Char('h') | KeyCode::Left => app.detail.resp_tree_key_left(),
            KeyCode::Char('l') | KeyCode::Right => app.detail.resp_tree_key_right(),
            KeyCode::Char('g') => *pending_g = true,
            _ => {},
        }
    } else {
        match key.code {
            KeyCode::Backspace | KeyCode::Esc | KeyCode::Char('h') => app.detail_back(),
            KeyCode::Char('q') => return Action::Quit,
            KeyCode::Char('j') | KeyCode::Down => app.detail.scroll_down(1),
            KeyCode::Char('k') | KeyCode::Up => app.detail.scroll_up(1),
            KeyCode::Char('d') => if key.ctrl {
                app.detail.scroll_half_down();
            },
            KeyCode::Char('u') => if key.ctrl {
                app.detail.scroll_half_up();
            },
            KeyCode::Char('f') => app.detail.focus_tree(),
            KeyCode::Char('/') => app.detail.search_open(),
            KeyCode::Char('n') => app.detail.search_next(),
            KeyCode::Char('N') => app.detail.search_prev(),
            KeyCode::Char('g') => *pending_g = true,
            KeyCode::Char('G') => app.detail.scroll_bottom(),
            KeyCode::Char(c) => match digit_index(c) {
                Some(i) => app.detail.focus_resp_tree(i),
                None => {},
            },
            _ => {},
        }
    }
    Action::Continue
}

/// Response tree `N` is opened with the digit `N` (1 to 9).
pub open spec fn digit_spec(c: char) -> Option<usize> {
    if '1' <= c <= '9' {
        Some((c as int - '1' as int) as usize)
    } else {
        None
    }
}

/// The response tree a digit key opens: `1` the first, up to `9`.
pub fn digit_index(c: char) -> (r: Option<usize>)
    ensures
        r == digit_spec(c),
{
    if '1' <= c && c <= '9' {
        Some((c as u32 - '1' as u32) as usize)
    } else {
        None
    }
}

// ─── Normal navigation ───────────────────────────────────────────────────────

/// The spec-list selection one row down: the first row from nowhere, and
/// never past the last row.
pub open spec fn specs_below(a: ApinApp) -> Option<usize> {
    if a.specs@.len() == 0 {
        a.specs_selected
    } else {
        match a.specs_selected {
            Some(i) => Some((if i + 1 < a.specs@.len() { i + 1 } else { a.specs@.len() - 1 }) as usize),
            None => Some(0usize),
        }
    }
}

/// The spec-list selection one row up, stopping at the first row.
pub open spec fn specs_above(a: ApinApp) -> Option<usize> {
    Some(
        (match a.specs_selected {
            Some(i) => if i > 0 { i - 1 } else { 0 },
            None => 0,
        }) as usize,
    )
}

/// The operations selection one row down the filtered list, never past its
/// last row (unchanged when the list is empty).
pub open spec fn ops_below(a: ApinApp) -> Option<usize> {
    if ops_list(a).len() == 0 {
        a.ops.selected
    } else if sel_or_zero(a.ops.selected) + 1 < ops_list(a).len() {
        Some((sel_or_zero(a.ops.selected) + 1) as usize)
    } else {
        Some((ops_list(a).len() - 1) as usize)
    }
}

/// The operations selection one row up, stopping at the first row.
pub open spec fn ops_above(a: ApinApp) -> Option<usize> {
    Some((if sel_or_zero(a.ops.selected) > 0 { sel_or_zero(a.ops.selected) - 1 } else { 0 }) as usize)
}

/// One row down (`down`) or up in the focused list: the spec list, the
/// column of the tree, or the operations; the detail view does not move.
pub open spec fn row_step(a: ApinApp, b: ApinApp, down: bool) -> bool {
    &&& b.focus == a.focus
    &&& match a.focus {
        Focus::Specs => only_selection_changed(a, b) && b.specs_selected == (if down {
            specs_below(a)
        } else {
            specs_above(a)
        }),
        Focus::Tree => tree_step(a, b, |x: TreeCursor, y: TreeCursor| moved_by(x, y, if down { 1 } else { -1 })),
        Focus::Ops => {
            &&& only_ops_changed(a, b)
            &&& b.ops.search == a.ops.search
            &&& b.ops.selected == (if down { ops_below(a) } else { ops_above(a) })
            &&& down ==> b.ops.path_index == a.ops.path_index
        },
        Focus::Detail => b == a,
    }
}

/// Go to the first row of the focused list (or the top of the detail).
pub open spec fn went_top(a: ApinApp, b: ApinApp) -> bool {
    match a.focus {
        Focus::Specs => only_selection_changed(a, b) && b.specs_selected == Some(0usize),
        Focus::Tree => b.focus == a.focus && tree_step(a, b, |x: TreeCursor, y: TreeCursor| moved_to_end(x, y, false)),
        Focus::Ops => only_ops_changed(a, b) && b.ops.search == a.ops.search && b.ops.selected == Some(0usize),
        Focus::Detail => detail_scrolled(a, b, 0),
    }
}

/// Go to the last row of the focused list (or past the end of the detail,
/// which drawing clamps).
pub open spec fn went_bottom(a: ApinApp, b: ApinApp) -> bool {
    match a.focus {
        Focus::Specs => only_selection_changed(a, b) && b.specs_selected == Some(
            (if a.specs@.len() > 0 { a.specs@.len() - 1 } else { 0 }) as usize,
        ),
        Focus::Tree => b.focus == a.focus && tree_step(a, b, |x: TreeCursor, y: TreeCursor| moved_to_end(x, y, true)),
        Focus::Ops => only_ops_changed(a, b) && b.ops.search == a.ops.search && b.ops.selected == (if ops_list(
            a,
        ).len() == 0 {
            a.ops.selected
        } else {
            Some((ops_list(a).len() - 1) as usize)
        }),
        Focus::Detail => detail_scrolled(a, b, (usize::MAX / 2) as int),
    }
}

/// What a key does outside the detail view's own bindings when no search
/// box is open.  After `g` the next key is taken up: a second `g` goes to
/// the top.  `j`/`k` (and the arrows) move one row, Ctrl-d/Ctrl-u ten rows
/// (half a page in the detail), `G` to the end, `/` opens the search of the
/// tree or the operations, Enter opens the detail, `l`/Right/Tab go right
/// and `h`/Left go left, Backspace leaves the detail.  Other keys change
/// nothing.
pub open spec fn normal_key_done(a: ApinApp, b: ApinApp, pending: bool, key: KeyEvent) -> bool {
    let d = a.detail;
    if pending {
        if key.code == KeyCode::Char('g') {
            went_top(a, b)
        } else {
            b == a
        }
    } else {
        match key.code {
            KeyCode::Char('/') => match a.focus {
                Focus::Tree => b.focus == a.focus && tree_step(
                    a,
                    b,
                    |x: TreeCursor, y: TreeCursor| y.search.active && y.search.query@ == x.search.query@
                        && y.root == x.root && y.levels@ == x.levels@ && y.active_col == x.active_col,
                ),
                Focus::Ops => only_ops_changed(a, b) && b.ops.search.active && b.ops.search.query@
                    == a.ops.search.query@ && b.ops.selected == a.ops.selected,
                _ => b == a,
            },
            KeyCode::Char('j') | KeyCode::Down => match a.focus {
                Focus::Detail => detail_scrolled(
                    a,
                    b,
                    if d.scroll + 1 > usize::MAX { usize::MAX as int } else { d.scroll + 1 },
                ),
                _ => row_step(a, b, true),
            },
            KeyCode::Char('k') | KeyCode::Up => match a.focus {
                Focus::Detail => detail_scrolled(a, b, if d.scroll >= 1 { d.scroll - 1 } else { 0 }),
                _ => row_step(a, b, false),
            },
            KeyCode::Char('d') => if key.ctrl {
                match a.focus {
                    Focus::Detail => detail_scrolled(a, b, d.scroll + half_page(d.view_height)),
                    _ => b.focus == a.focus && b.detail == a.detail && rows_moved(a, b, 10, true),
                }
            } else {
                b == a
            },
            KeyCode::Char('u') => if key.ctrl {
                match a.focus {
                    Focus::Detail => detail_scrolled(
                        a,
                        b,
                        if d.scroll >= half_page(d.view_height) { d.scroll - half_page(d.view_height) } else { 0 },
                    ),
                    _ => b.focus == a.focus && b.detail == a.detail && rows_moved(a, b, 10, false),
                }
            } else {
                b == a
            },
            KeyCode::Char('G') => went_bottom(a, b),
            KeyCode::Enter => match a.focus {
                Focus::Ops => entered_from_ops(a, b),
                Focus::Tree => entered_from_tree(a, b),
                _ => b == a,
            },
            KeyCode::Char('l') | KeyCode::Right | KeyCode::Tab => match a.focus {
                Focus::Specs => tree_focused(a, b),
                Focus::Tree => went_right_or_ops(a, b),
                _ => b == a,
            },
            KeyCode::Char('h') | KeyCode::Left => match a.focus {
                Focus::Tree => went_left_or_specs(a, b),
                Focus::Ops => b == (ApinApp { focus: Focus::Tree, ..a }),
                Focus::Detail => went_back(a, b),
                Focus::Specs => b == a,
            },
            KeyCode::Backspace => if a.focus == Focus::Detail {
                went_back(a, b)
            } else {
                b == a
            },
            _ => b == a,
        }
    }
}

/// Each state of `s` is one row step from the one before.
pub open spec fn steps_chain(s: Seq<ApinApp>, down: bool) -> bool {
    forall|i: int| 0 <= i < s.len() - 1 ==> row_step(#[trigger] s[i], s[i + 1], down)
}

/// `b` is `a` after `n` row steps in the same direction.
pub open spec fn rows_moved(a: ApinApp, b: ApinApp, n: nat, down: bool) -> bool {
    exists|s: Seq<ApinApp>| s.len() == n + 1 && s[0] == a && s[n as int] == b && #[trigger] steps_chain(s, down)
}

#[verifier::spinoff_prover]
#[verifier::rlimit(40)]
fn repeat_down(app: &mut ApinApp, times: usize)
    requires
        app_wf(*old(app)),
    ensures
        app_wf(*final(app)),
        final(app).specs@ == old(app).specs@,
        final(app).focus == old(app).focus,
        final(app).detail == old(app).detail,
        rows_moved(*old(app), *final(app), times as nat, true),
{
    let ghost mut chain: Seq<ApinApp> = seq![*app];
    for k in 0..times
        invariant
            app_wf(*app),
            app.specs@ == old(app).specs@,
            app.focus == old(app).focus,
            app.detail == old(app).detail,
            chain.len() == k + 1,
            chain[0] == *old(app),
            chain[k as int] == *app,
            steps_chain(chain, true),
    {
        let ghost prev = *app;
        match app.focus {
            Focus::Specs => app.specs_move_down(),
            Focus::Tree => app.tree_move_down(),
            Focus::Ops => app.ops_move_down(),
            Focus::Detail => {},
        }
        proof {
            assert(row_step(prev, *app, true));
            let c2 = chain.push(*app);
            assert forall|i: int| 0 <= i < c2.len() - 1 implies row_step(#[trigger] c2[i], c2[i + 1], true) by {
                if i < k {
                    assert(c2[i] == chain[i] && c2[i + 1] == chain[i + 1]);
                }
            }
            chain = c2;
        }
    }
    assert(rows_moved(*old(app), *app, times as nat, true)) by {
        assert(steps_chain(chain, true));
    }
}

#[verifier::spinoff_prover]
#[verifier::rlimit(40)]
fn repeat_up(app: &mut ApinApp, times: usize)
    requires
        app_wf(*old(app)),
    ensures
        app_wf(*final(app)),
        final(app).specs@ == old(app).specs@,
        final(app).focus == old(app).focus,
        final(app).detail == old(app).detail,
        rows_moved(*old(app), *final(app), times as nat, false),
{
    let ghost mut chain: Seq<ApinApp> = seq![*app];
    for k in 0..times
        invariant
            app_wf(*app),
            app.specs@ == old(app).specs@,
            app.focus == old(app).focus,
            app.detail == old(app).detail,
            chain.len() == k + 1,
            chain[0] == *old(app),
            chain[k as int] == *app,
            steps_chain(chain, false),
    {
        let ghost prev = *app;
        match app.focus {
            Focus::Specs => app.specs_move_up(),
            Focus::Tree => app.tree_move_up(),
            Focus::Ops => app.ops_move_up(),
            Focus::Detail => {},
        }
        proof {
            assert(row_step(prev, *app, false));
            let c2 = chain.push(*app);
            assert forall|i: int| 0 <= i < c2.len() - 1 implies row_step(#[trigger] c2[i], c2[i + 1], false) by {
                if i < k {
                    assert(c2[i] == chain[i] && c2[i + 1] == chain[i + 1]);
                }
            }
            chain = c2;
        }
    }
    assert(rows_moved(*old(app), *app, times as nat, false)) by {
        assert(steps_chain(chain, false));
    }
}

fn handle_normal_key(app: &mut ApinApp, key: KeyEvent, pending_g: &mut bool) -> (r: Action)
    requires
        app_wf(*old(app)),
        !*old(pending_g) && old(app).focus == Focus::Detail && key.code == KeyCode::Char('d') && key.ctrl
            ==> fits_half_page(*old(app)),
    ensures
        app_wf(*final(app)),
        final(app).specs@ == old(app).specs@,
        (r == Action::Quit) == (!*old(pending_g) && key.code == KeyCode::Char('q')),
        normal_key_done(*old(app), *final(app), *old(pending_g), key),
        *final(pending_g) == (!*old(pending_g) && key.code == KeyCode::Char('g')),
{
    if *pending_g {
        *pending_g = false;
        if key.code == KeyCode::Char('g') {
            match app.focus {
                Focus::Specs => app.specs_move_top(),
                Focus::Tree => app.tree_move_top(),
                Focus::Ops => app.ops_move_top(),
                Focus::Detail => app.detail.scroll_top(),
            }
        }
        return Action::Continue;
    }
    match key.code {
        KeyCode::Char('q') => {
            return Action::Quit;
        },
        KeyCode::Char('/') => match app.focus {
            Focus::Tree => app.tree_search_open(),
            Focus::Ops => app.ops_search_open(),
            Focus::Specs | Focus::Detail => {},
        },
        KeyCode::Char('j') | KeyCode::Down => match app.focus {
            Focus::Specs => app.specs_move_down(),
            Focus::Tree => app.tree_move_down(),
            Focus::Ops => app.ops_move_down(),
            Focus::Detail => app.detail.scroll_down(1),
        },
        KeyCode::Char('k') | KeyCode::Up => match app.focus {
            Focus::Specs => app.specs_move_up(),
            Focus::Tree => app.tree_move_up(),
            Focus::Ops => app.ops_move_up(),
            Focus::Detail => app.detail.scroll_up(1),
        },
        KeyCode::Char('d') => if key.ctrl {
            match app.focus {
                Focus::Detail => app.detail.scroll_half_down(),
                _ => repeat_down(app, 10),
            }
        },
        KeyCode::Char('u') => if key.ctrl {
            match app.focus {
                Focus::Detail => app.detail.scroll_half_up(),
                _ => repeat_up(app, 10),
            }
        },
        KeyCode::Char('g') => *pending_g = true,
        KeyCode::Char('G') => match app.focus {
            Focus::Specs => app.specs_move_bottom(),
            Focus::Tree => app.tree_move_bottom(),
            Focus::Ops => app.ops_move_bottom(),
            Focus::Detail => app.detail.scroll_bottom(),
        },
        KeyCode::Enter => match app.focus {
            Focus::Ops => {
                app.enter_detail_from_ops();
            },
            Focus::Tree => {
                app.enter_detail_from_tree();
            },
            Focus::Specs | Focus::Detail => {},
        },
        KeyCode::Char('l') | KeyCode::Right | KeyCode::Tab => match app.focus {
            Focus::Specs => app.focus_tree(),
            Focus::Tree => app.tree_move_right_or_ops(),
            Focus::Ops | Focus::Detail => {},
        },
        KeyCode::Char('h') | KeyCode::Left => match app.focus {
            Focus::Specs => {},
            Focus::Tree => app.tree_move_left_or_specs(),
            Focus::Ops => app.focus = Focus::Tree,
            Focus::Detail => app.detail_back(),
        },
        KeyCode::Backspace => {
            if app.focus == Focus::Detail {
                app.detail_back();
            }
        },
        _ => {},
    }
    Action::Continue
}

} // verus!
