use znaide_tui::ansi::{apply_sgr, parse_rows, render_lines, strip, strip_line, wrap_row};
use znaide_tui::style::{Color, Line, Modifier, Style};

fn text_of(l: &Line) -> String {
    let mut s = String::new();
    for p in &l.spans {
        s.push_str(&p.content);
    }
    s
}

#[test]
fn strip_removes_sgr_sequences() {
    assert_eq!(strip("a\x1b[31mb\x1b[0mc"), "abc");
    assert_eq!(strip("\x1b[2J"), "");
    assert_eq!(strip("\x1b]0;title\x07rest"), "rest");
}

#[test]
fn strip_handles_cr_and_c0() {
    assert_eq!(strip("a\r\nb"), "a\nb");
    assert_eq!(strip("a\rb"), "ab");
    assert_eq!(strip("a\x07b\x01c\n\td"), "abc\n\td");
}

#[test]
fn strip_keeps_utf8_and_literal_backslash() {
    assert_eq!(strip("中文\\x1b[31m ok"), "中文\\x1b[31m ok");
    assert_eq!(strip("中文真实\x1b[31m色"), "中文真实色");
}

#[test]
fn strip_tolerates_unterminated_escape() {
    assert_eq!(strip("abc\x1b[31"), "abc");
    assert_eq!(strip("abc\x1b"), "abc");
}

#[test]
fn render_colors_sgr_to_style() {
    let base = Style::new();
    let lines = render_lines("\x1b[31mred\x1b[0m plain", 80, base);
    assert_eq!(lines.len(), 1);
    assert_eq!(lines[0].spans.len(), 2);
    assert_eq!(lines[0].spans[0].content, "red");
    assert_eq!(lines[0].spans[0].style.fg, Some(Color::Red));
    assert_eq!(lines[0].spans[1].content, " plain");
    assert_eq!(lines[0].spans[1].style.fg, None);
}

#[test]
fn render_extends_base_style_and_strips_controls() {
    let base = Style::of(Color::DarkGray);
    let lines = render_lines("\x1b[1m\x1b[32mbold green\x1b[0m\x1b[2J tail", 80, base);
    assert_eq!(lines.len(), 1);
    let segs = &lines[0].spans;
    assert!(segs.iter().any(|s| s.style.fg == Some(Color::Green)));
    assert!(segs.iter().any(|s| s.style.fg == Some(Color::DarkGray)));
    assert_eq!(text_of(&lines[0]), "bold green tail");
}

#[test]
fn render_wraps_by_display_width() {
    let lines = render_lines("一二三四五六七八九十", 6, Style::new());
    assert_eq!(lines.len(), 4);
    assert_eq!(lines[0].spans[0].content, "一二三");
}

#[test]
fn render_keeps_blank_lines() {
    let lines = render_lines("a\n\nb", 80, Style::new());
    assert_eq!(lines.len(), 3);
    assert!(lines[1].spans.is_empty() || lines[1].spans[0].content.is_empty());
}

#[test]
fn stripping_twice_changes_nothing_more() {
    for s in ["\x1b[31mred\x1b[0m", "a\x1b]0;t\x1b\\b", "plain\n\ttext", "\x1b\x1b[1mx\x07"] {
        let once = strip(s);
        assert_eq!(strip(&once), once);
        assert!(once.chars().all(|c| c == '\n' || c == '\t' || !c.is_control()));
    }
}

#[test]
fn colours_of_a_sequence() {
    let base = Style::new();
    assert_eq!(apply_sgr(base, base, "31").fg, Some(Color::Red));
    assert_eq!(apply_sgr(base, base, "38;5;200").fg, Some(Color::Indexed(200)));
    assert_eq!(apply_sgr(base, base, "48;2;1;2;3").bg, Some(Color::Rgb(1, 2, 3)));
    let bold = apply_sgr(base, base, "1");
    assert!(bold.on.bold);
    assert_eq!(apply_sgr(bold, base, "0"), base);
    assert_eq!(apply_sgr(bold, base, ""), base);
    assert_eq!(Style::new().add_modifier(Modifier::Bold), bold);
}

#[test]
fn rows_keep_their_texts_when_cut() {
    let rows = parse_rows("ab\x1b[31mcdef\x1b[0mgh", Style::new());
    assert_eq!(rows.len(), 1);
    let cut = wrap_row(&rows[0].spans, 3);
    let mut all = String::new();
    for l in &cut {
        let t = text_of(l);
        assert!(t.chars().count() <= 3);
        all.push_str(&t);
    }
    assert_eq!(all, "abcdefgh");
}

#[test]
fn one_line_has_no_line_feeds() {
    assert_eq!(strip_line("a\n\x1b[1mb\tc\r\n"), "ab\tc");
    let s = "x\x1b[31my\x07z\x1b]0;t\x07w";
    let left = strip(s);
    let mut rest = s.chars();
    assert!(left.chars().all(|c| rest.any(|d| d == c)));
    assert_eq!(left, "xyzw");
}
