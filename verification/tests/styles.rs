use apin::styles::{
    border_style, highlight_style, method_color, param_location_color, response_code_style,
    search_match_style, Color, Modifier, Style,
};
use apin::text::truncate;

#[test]
fn truncate_short_string_unchanged() {
    assert_eq!(truncate("hello", 10), "hello");
}

#[test]
fn truncate_exact_length_unchanged() {
    assert_eq!(truncate("hello", 5), "hello");
}

#[test]
fn truncate_long_string_gets_ellipsis() {
    let result = truncate("hello world", 8);
    assert!(result.ends_with('…'));
    assert_eq!(result.chars().count(), 8);
}

#[test]
fn truncate_max_one_returns_ellipsis_only() {
    let result = truncate("abc", 1);
    assert_eq!(result, "…");
}

#[test]
fn truncate_max_zero_returns_ellipsis() {
    let result = truncate("abc", 0);
    assert_eq!(result, "…");
}

#[test]
fn truncate_unicode_counts_chars_not_bytes() {
    assert_eq!(truncate("日本語", 3), "日本語");
    let r = truncate("日本語", 2);
    assert_eq!(r.chars().count(), 2);
    assert!(r.ends_with('…'));
}

#[test]
fn truncate_keeps_prefix() {
    assert_eq!(truncate("hello world", 8), "hello w…");
}

#[test]
fn method_color_get_is_green_bg() {
    let s = method_color("GET");
    assert_eq!(s.bg, Some(Color::Green));
    assert_eq!(s.fg, Some(Color::Black));
}

#[test]
fn method_color_post_is_blue_bg() {
    let s = method_color("POST");
    assert_eq!(s.bg, Some(Color::Blue));
}

#[test]
fn method_color_put_is_yellow_bg() {
    let s = method_color("PUT");
    assert_eq!(s.bg, Some(Color::Yellow));
}

#[test]
fn method_color_patch_is_cyan_bg() {
    let s = method_color("PATCH");
    assert_eq!(s.bg, Some(Color::Cyan));
}

#[test]
fn method_color_delete_is_red_bg() {
    let s = method_color("DELETE");
    assert_eq!(s.bg, Some(Color::Red));
}

#[test]
fn method_color_unknown_is_dark_gray_bg() {
    let s = method_color("OPTIONS");
    assert_eq!(s.bg, Some(Color::DarkGray));
    assert_eq!(s.fg, Some(Color::White));
}

#[test]
fn response_code_2xx_is_green() {
    let s = response_code_style("200");
    assert_eq!(s.bg, Some(Color::Green));
    assert!(s.add_modifier.contains(Modifier::bold()));
}

#[test]
fn response_code_3xx_is_cyan() {
    let s = response_code_style("301");
    assert_eq!(s.bg, Some(Color::Cyan));
}

#[test]
fn response_code_4xx_is_yellow() {
    let s = response_code_style("404");
    assert_eq!(s.bg, Some(Color::Yellow));
}

#[test]
fn response_code_5xx_is_red() {
    let s = response_code_style("500");
    assert_eq!(s.bg, Some(Color::Red));
}

#[test]
fn response_code_unknown_is_dark_gray() {
    let s = response_code_style("default");
    assert_eq!(s.bg, Some(Color::DarkGray));
}

#[test]
fn border_style_active_is_cyan() {
    let s = border_style(true);
    assert_eq!(s.fg, Some(Color::Cyan));
}

#[test]
fn border_style_inactive_is_dark_gray() {
    let s = border_style(false);
    assert_eq!(s.fg, Some(Color::DarkGray));
}

#[test]
fn highlight_style_active_cyan_bg_bold() {
    let s = highlight_style(true);
    assert_eq!(s.bg, Some(Color::Cyan));
    assert_eq!(s.fg, Some(Color::Black));
    assert!(s.add_modifier.contains(Modifier::bold()));
}

#[test]
fn highlight_style_inactive_dark_gray_bg() {
    let s = highlight_style(false);
    assert_eq!(s.bg, Some(Color::DarkGray));
    assert_eq!(s.fg, Some(Color::White));
}

#[test]
fn patch_overrides_only_set_parts() {
    let base = Style::new().fg(Color::Red).add_modifier(Modifier::bold());
    let p = base.patch(search_match_style());
    assert_eq!(p.fg, Some(Color::Black));
    assert_eq!(p.bg, Some(Color::Yellow));
    assert!(p.add_modifier.contains(Modifier::bold()));
    let q = base.patch(Style::new());
    assert_eq!(q, base);
}

#[test]
fn param_location_colors() {
    assert_eq!(param_location_color("path"), Color::Magenta);
    assert_eq!(param_location_color("query"), Color::Cyan);
    assert_eq!(param_location_color("header"), Color::Blue);
    assert_eq!(param_location_color("cookie"), Color::Green);
    assert_eq!(param_location_color("body"), Color::DarkGray);
}
