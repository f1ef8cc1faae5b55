//! The colours and text attributes of every element of the interface.
use vstd::prelude::*;

use crate::text::{chars_of, str_eq};

verus! {

/// A terminal colour.
#[derive(Debug, Clone, Copy, PartialEq, Eq, Structural)]
pub enum Color {
    Reset,
    Black,
    Red,
    Green,
    Yellow,
    Blue,
    Magenta,
    Cyan,
    Gray,
    DarkGray,
    LightRed,
    White,
}

/// Text attributes added by a style.
#[derive(Debug, Clone, Copy, PartialEq, Eq, Structural)]
pub struct Modifier {
    pub bold: bool,
    pub crossed_out: bool,
}

impl Modifier {
    pub fn empty() -> (m: Modifier)
        ensures
            !m.bold && !m.crossed_out,
    {
        Modifier { bold: false, crossed_out: false }
    }

    pub fn bold() -> (m: Modifier)
        ensures
            m.bold && !m.crossed_out,
    {
        Modifier { bold: true, crossed_out: false }
    }

    pub fn crossed_out() -> (m: Modifier)
        ensures
            !m.bold && m.crossed_out,
    {
        Modifier { bold: false, crossed_out: true }
    }

    /// Whether every attribute of `other` is in `self`.
    pub fn contains(&self, other: Modifier) -> (b: bool)
        ensures
            b == ((other.bold ==> self.bold) && (other.crossed_out ==> self.crossed_out)),
    {
        (!other.bold || self.bold) && (!other.crossed_out || self.crossed_out)
    }
}

/// Foreground, background and added attributes of a piece of text.
#[derive(Debug, Clone, Copy, PartialEq, Eq, Structural)]
pub struct Style {
    pub fg: Option<Color>,
    pub bg: Option<Color>,
    pub add_modifier: Modifier,
}

/// A style with the given parts.
pub open spec fn style(fg: Option<Color>, bg: Option<Color>, bold: bool, crossed_out: bool) -> Style {
    Style { fg, bg, add_modifier: Modifier { bold, crossed_out } }
}

impl Style {
    /// The style that changes nothing.
    pub fn new() -> (s: Style)
        ensures
            s == style(None, None, false, false),
    {
        Style { fg: None, bg: None, add_modifier: Modifier::empty() }
    }

    pub fn fg(self, c: Color) -> (s: Style)
        ensures
            s == (Style { fg: Some(c), ..self }),
    {
        Style { fg: Some(c), ..self }
    }

    pub fn bg(self, c: Color) -> (s: Style)
        ensures
            s == (Style { bg: Some(c), ..self }),
    {
        Style { bg: Some(c), ..self }
    }

    pub fn add_modifier(self, m: Modifier) -> (s: Style)
        ensures
            s.fg == self.fg,
            s.bg == self.bg,
            s.add_modifier.bold == (self.add_modifier.bold || m.bold),
            s.add_modifier.crossed_out == (self.add_modifier.crossed_out || m.crossed_out),
    {
        Style {
            add_modifier: Modifier {
                bold: self.add_modifier.bold || m.bold,
                crossed_out: self.add_modifier.crossed_out || m.crossed_out,
            },
            ..self
        }
    }
}

/// `s` overlaid with `other`: colours that `other` sets win, attributes add up.
pub open spec fn patched(s: Style, other: Style) -> Style {
    Style {
        fg: if other.fg is Some { other.fg } else { s.fg },
        bg: if other.bg is Some { other.bg } else { s.bg },
        add_modifier: Modifier {
            bold: s.add_modifier.bold || other.add_modifier.bold,
            crossed_out: s.add_modifier.crossed_out || other.add_modifier.crossed_out,
        },
    }
}

impl Style {
    pub fn patch(self, other: Style) -> (s: Style)
        ensures
            s == patched(self, other),
    {
        Style {
            fg: if other.fg.is_some() {
                other.fg
            } else {
                self.fg
            },
            bg: if other.bg.is_some() {
                other.bg
            } else {
                self.bg
            },
            add_modifier: Modifier {
                bold: self.add_modifier.bold || other.add_modifier.bold,
                crossed_out: self.add_modifier.crossed_out || other.add_modifier.crossed_out,
            },
        }
    }
}

// ─── Panel chrome ────────────────────────────────────────────────────────────

pub fn border_style(active: bool) -> (s: Style)
    ensures
        s == style(Some(if active { Color::Cyan } else { Color::DarkGray }), None, false, false),
{
    if active {
        Style::new().fg(Color::Cyan)
    } else {
        Style::new().fg(Color::DarkGray)
    }
}

/// Border of a secondary (response) tree: green when focused.
pub fn secondary_border_style(active: bool) -> (s: Style)
    ensures
        s == style(Some(if active { Color::Green } else { Color::DarkGray }), None, false, false),
{
    if active {
        Style::new().fg(Color::Green)
    } else {
        Style::new().fg(Color::DarkGray)
    }
}

/// Border shown while a search is active.
pub fn search_border_style() -> (s: Style)
    ensures
        s == style(Some(Color::Yellow), None, false, false),
{
    Style::new().fg(Color::Yellow)
}

pub fn highlight_style(active: bool) -> (s: Style)
    ensures
        active ==> s == style(Some(Color::Black), Some(Color::Cyan), true, false),
        !active ==> s == style(Some(Color::White), Some(Color::DarkGray), false, false),
{
    if active {
        Style::new().bg(Color::Cyan).fg(Color::Black).add_modifier(Modifier::bold())
    } else {
        Style::new().bg(Color::DarkGray).fg(Color::White)
    }
}

/// Highlight of a secondary tree: green instead of cyan when focused.
pub fn secondary_highlight_style(active: bool) -> (s: Style)
    ensures
        active ==> s == style(Some(Color::Black), Some(Color::Green), true, false),
        !active ==> s == style(Some(Color::White), Some(Color::DarkGray), false, false),
{
    if active {
        Style::new().bg(Color::Green).fg(Color::Black).add_modifier(Modifier::bold())
    } else {
        Style::new().bg(Color::DarkGray).fg(Color::White)
    }
}

/// Lines that match the search.
pub fn search_match_style() -> (s: Style)
    ensures
        s == style(Some(Color::Black), Some(Color::Yellow), false, false),
{
    Style::new().bg(Color::Yellow).fg(Color::Black)
}

// ─── Method and status badges ───────────────────────────────────────────────

/// The badge colours of an HTTP method.
pub open spec fn method_style(m: Seq<char>) -> Style {
    if m == "GET"@ {
        style(Some(Color::Black), Some(Color::Green), false, false)
    } else if m == "POST"@ {
        style(Some(Color::Black), Some(Color::Blue), false, false)
    } else if m == "PUT"@ {
        style(Some(Color::Black), Some(Color::Yellow), false, false)
    } else if m == "PATCH"@ {
        style(Some(Color::Black), Some(Color::Cyan), false, false)
    } else if m == "DELETE"@ {
        style(Some(Color::Black), Some(Color::Red), false, false)
    } else {
        style(Some(Color::White), Some(Color::DarkGray), false, false)
    }
}

pub fn method_color(method: &str) -> (s: Style)
    ensures
        s == method_style(method@),
{
    if str_eq(method, "GET") {
        Style::new().fg(Color::Black).bg(Color::Green)
    } else if str_eq(method, "POST") {
        Style::new().fg(Color::Black).bg(Color::Blue)
    } else if str_eq(method, "PUT") {
        Style::new().fg(Color::Black).bg(Color::Yellow)
    } else if str_eq(method, "PATCH") {
        Style::new().fg(Color::Black).bg(Color::Cyan)
    } else if str_eq(method, "DELETE") {
        Style::new().fg(Color::Black).bg(Color::Red)
    } else {
        Style::new().fg(Color::White).bg(Color::DarkGray)
    }
}

/// The badge colours of a status code, by its first character.
pub open spec fn code_style(code: Seq<char>) -> Style {
    let c = if code.len() > 0 {
        code[0]
    } else {
        ' '
    };
    if code.len() > 0 && c == '2' {
        style(Some(Color::Black), Some(Color::Green), true, false)
    } else if code.len() > 0 && c == '3' {
        style(Some(Color::Black), Some(Color::Cyan), true, false)
    } else if code.len() > 0 && c == '4' {
        style(Some(Color::Black), Some(Color::Yellow), true, false)
    } else if code.len() > 0 && c == '5' {
        style(Some(Color::Black), Some(Color::Red), true, false)
    } else {
        style(Some(Color::White), Some(Color::DarkGray), true, false)
    }
}

pub fn response_code_style(code: &str) -> (s: Style)
    ensures
        s == code_style(code@),
{
    let base = Style::new().add_modifier(Modifier::bold());
    let cs = chars_of(code);
    let first: Option<char> = if cs.len() > 0 {
        Some(cs[0])
    } else {
        None
    };
    match first {
        Some('2') => base.fg(Color::Black).bg(Color::Green),
        Some('3') => base.fg(Color::Black).bg(Color::Cyan),
        Some('4') => base.fg(Color::Black).bg(Color::Yellow),
        Some('5') => base.fg(Color::Black).bg(Color::Red),
        _ => base.fg(Color::White).bg(Color::DarkGray),
    }
}

/// Badge of webhook entries and of request bodies: black on magenta, bold.
pub fn webhook_badge_style() -> (s: Style)
    ensures
        s == style(Some(Color::Black), Some(Color::Magenta), true, false),
{
    Style::new().fg(Color::Black).bg(Color::Magenta).add_modifier(Modifier::bold())
}

pub fn body_badge_style() -> (s: Style)
    ensures
        s == style(Some(Color::Black), Some(Color::Magenta), true, false),
{
    webhook_badge_style()
}

// ─── Status indicators ───────────────────────────────────────────────────────

pub fn deprecated_label_style() -> (s: Style)
    ensures
        s == style(Some(Color::LightRed), None, false, false),
{
    Style::new().fg(Color::LightRed)
}

/// A deprecated name: struck through and dimmed.
pub fn deprecated_name_style() -> (s: Style)
    ensures
        s == style(Some(Color::DarkGray), None, false, true),
{
    Style::new().fg(Color::DarkGray).add_modifier(Modifier::crossed_out())
}

pub fn required_label_style() -> (s: Style)
    ensures
        s == style(Some(Color::Red), None, false, false),
{
    Style::new().fg(Color::Red)
}

pub fn required_name_style() -> (s: Style)
    ensures
        s == style(Some(Color::White), None, true, false),
{
    Style::new().fg(Color::White).add_modifier(Modifier::bold())
}

pub fn required_annotation_style() -> (s: Style)
    ensures
        s == style(Some(Color::Green), None, true, false),
{
    Style::new().fg(Color::Green).add_modifier(Modifier::bold())
}

pub fn optional_annotation_style() -> (s: Style)
    ensures
        s == style(Some(Color::DarkGray), None, false, false),
{
    Style::new().fg(Color::DarkGray)
}

// ─── Text hierarchy ──────────────────────────────────────────────────────────

/// Titles, summaries, paths: bold white.
pub fn primary_text_style() -> (s: Style)
    ensures
        s == style(Some(Color::White), None, true, false),
{
    Style::new().fg(Color::White).add_modifier(Modifier::bold())
}

/// Descriptions and body text: gray.
pub fn secondary_text_style() -> (s: Style)
    ensures
        s == style(Some(Color::Gray), None, false, false),
{
    Style::new().fg(Color::Gray)
}

/// Labels, dividers, placeholders, hints: dark gray.
pub fn muted_text_style() -> (s: Style)
    ensures
        s == style(Some(Color::DarkGray), None, false, false),
{
    Style::new().fg(Color::DarkGray)
}

/// Operation ids, tags, optional field names: cyan.
pub fn accent_text_style() -> (s: Style)
    ensures
        s == style(Some(Color::Cyan), None, false, false),
{
    Style::new().fg(Color::Cyan)
}

/// Type names: blue.
pub fn type_label_style() -> (s: Style)
    ensures
        s == style(Some(Color::Blue), None, false, false),
{
    Style::new().fg(Color::Blue)
}

/// The kind of a schema root: bold magenta.
pub fn schema_root_kind_style() -> (s: Style)
    ensures
        s == style(Some(Color::Magenta), None, true, false),
{
    Style::new().fg(Color::Magenta).add_modifier(Modifier::bold())
}

// ─── Section headers ─────────────────────────────────────────────────────────

pub fn params_header_style() -> (s: Style)
    ensures
        s == style(Some(Color::Yellow), None, true, false),
{
    Style::new().fg(Color::Yellow).add_modifier(Modifier::bold())
}

pub fn request_body_header_style() -> (s: Style)
    ensures
        s == style(Some(Color::Magenta), None, true, false),
{
    Style::new().fg(Color::Magenta).add_modifier(Modifier::bold())
}

pub fn responses_header_style() -> (s: Style)
    ensures
        s == style(Some(Color::Green), None, true, false),
{
    Style::new().fg(Color::Green).add_modifier(Modifier::bold())
}

// ─── Key hints ───────────────────────────────────────────────────────────────

pub fn hint_key_style() -> (s: Style)
    ensures
        s == style(Some(Color::Yellow), None, false, false),
{
    Style::new().fg(Color::Yellow)
}

pub fn hint_text_style() -> (s: Style)
    ensures
        s == style(Some(Color::DarkGray), None, false, false),
{
    muted_text_style()
}

// ─── Tree columns ────────────────────────────────────────────────────────────

pub fn list_item_style() -> (s: Style)
    ensures
        s == style(Some(Color::White), None, false, false),
{
    Style::new().fg(Color::White)
}

pub fn paths_group_style() -> (s: Style)
    ensures
        s == style(Some(Color::Cyan), None, true, false),
{
    Style::new().fg(Color::Cyan).add_modifier(Modifier::bold())
}

pub fn webhooks_group_style() -> (s: Style)
    ensures
        s == style(Some(Color::Magenta), None, true, false),
{
    Style::new().fg(Color::Magenta).add_modifier(Modifier::bold())
}

pub fn nav_arrow_style() -> (s: Style)
    ensures
        s == style(Some(Color::DarkGray), None, false, false),
{
    muted_text_style()
}

// ─── Parameter locations ─────────────────────────────────────────────────────

/// The badge colour of a parameter location.
pub open spec fn location_color(l: Seq<char>) -> Color {
    if l == "path"@ {
        Color::Magenta
    } else if l == "query"@ {
        Color::Cyan
    } else if l == "header"@ {
        Color::Blue
    } else if l == "cookie"@ {
        Color::Green
    } else {
        Color::DarkGray
    }
}

pub fn param_location_color(location: &str) -> (c: Color)
    ensures
        c == location_color(location@),
{
    if str_eq(location, "path") {
        Color::Magenta
    } else if str_eq(location, "query") {
        Color::Cyan
    } else if str_eq(location, "header") {
        Color::Blue
    } else if str_eq(location, "cookie") {
        Color::Green
    } else {
        Color::DarkGray
    }
}

pub fn param_location_badge_style(location: &str) -> (s: Style)
    ensures
        s == style(Some(Color::Black), Some(location_color(location@)), true, false),
{
    Style::new().fg(Color::Black).bg(param_location_color(location)).add_modifier(Modifier::bold())
}

} // verus!
