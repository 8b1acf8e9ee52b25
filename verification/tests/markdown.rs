use znaide_tui::md::{parse, render, wrap_plain, Kind};
use znaide_tui::style::{Color, Line, Style};
use znaide_tui::text::text_width;

fn text_of(l: &Line) -> String {
    let mut s = String::new();
    for p in &l.spans {
        s.push_str(&p.content);
    }
    s
}

#[test]
fn plain_text_renders() {
    let lines = render("hello 世界", 30);
    assert_eq!(lines.len(), 1);
}

#[test]
fn heading_bold() {
    let lines = render("# 标题", 40);
    assert!(!lines.is_empty());
    assert!(lines[0].spans.iter().any(|s| s.content.contains("标题")));
}

#[test]
fn code_block_kept() {
    let md = "```\nlet x = 1;\n```\n后面文字";
    let lines = render(md, 60);
    assert!(lines.iter().any(|l| l.spans.iter().any(|s| s.content.contains("let x"))));
    assert!(lines.iter().any(|l| l.spans.iter().any(|s| s.content.contains("后面"))));
}

#[test]
fn inline_code_and_bold() {
    let lines = render("运行 `cargo build` 用 **双星**", 60);
    assert_eq!(lines.len(), 1);
    assert_eq!(text_of(&lines[0]), "运行 cargo build 用 双星");
}

#[test]
fn wraps_cjk() {
    let lines = render("这是一段非常长的中文内容用来测试换行是否正常工作的文本内容", 10);
    assert!(lines.len() >= 3);
    for l in &lines {
        let w: u16 = l.spans.iter().map(|s| text_width(&s.content)).sum();
        assert!(w <= 12, "行宽 {w} 超限");
    }
}

#[test]
fn wrap_plain_splits_embedded_newlines() {
    let segs = wrap_plain("aaa\nbbb cc", 10);
    assert_eq!(segs.len(), 2, "应含换行分段: {segs:?}");
    assert_eq!(segs[0], "aaa");
    assert_eq!(segs[1], "bbb cc");
    let segs2 = wrap_plain("abcdefghijklmnop", 5);
    assert!(segs2.len() >= 3);
    assert!(segs2.iter().all(|s| text_width(s) <= 5));
}

#[test]
fn kinds_of_lines() {
    let rows = parse("# h\n\n> q\n- i\n1. j\n---\ntext\n```\ncode\n```");
    let kinds: Vec<Kind> = rows.iter().map(|r| r.kind).collect();
    assert!(kinds.contains(&Kind::Heading(1)));
    assert!(kinds.contains(&Kind::Quote));
    assert!(kinds.contains(&Kind::List));
    assert!(kinds.contains(&Kind::Hr));
    assert!(kinds.contains(&Kind::Normal));
    assert!(kinds.contains(&Kind::Code));
    assert!(kinds.contains(&Kind::Empty));
}

#[test]
fn inline_marks_become_styles() {
    let base = Style::new();
    let spans = znaide_tui::md::inline("a `b` **c** *d* `e", base);
    let texts: Vec<&str> = spans.iter().map(|s| s.content.as_str()).collect();
    assert_eq!(texts, vec!["a ", "b", " ", "c", " ", "d", " `e"]);
    assert_eq!(spans[1].style.fg, Some(Color::Yellow));
    assert!(spans[3].style.on.bold);
    assert!(spans[5].style.on.italic);
}

#[test]
fn nothing_drawn_is_a_control_character() {
    let lines = render("\x1b[31m# t\x07\n- \x1b[2Jx\n> \x1bq\n```\n\x1b[1mc\n```", 20);
    for l in &lines {
        assert!(text_of(l).chars().all(|c| c == '\t' || !c.is_control()));
    }
}

#[test]
fn long_headings_are_cut_into_lines() {
    let lines = render("## abcdefghijklmnopqrst", 12);
    let texts: Vec<String> = lines.iter().map(|l| text_of(l)).collect();
    let mark = lines[0].spans[0].content.clone();
    assert_eq!(lines[1].spans[0].content, " ".repeat(text_width(&mark) as usize));
    assert_eq!(texts.len(), 2);
    assert_eq!(texts.concat().replace(&mark, "").replace(' ', ""), "abcdefghijklmnopqrst");
    assert!(texts.iter().all(|t| text_width(t) <= 12));
}

#[test]
fn links_show_their_text_and_address() {
    let base = Style::new();
    let spans = znaide_tui::md::inline("see [the docs](https://a.b/c) now", base);
    let texts: Vec<&str> = spans.iter().map(|s| s.content.as_str()).collect();
    assert_eq!(texts, vec!["see ", "the docs", " (https://a.b/c)", " now"]);
    assert!(spans[1].style.on.underlined);
    assert_eq!(spans[2].style.fg, Some(Color::DarkGray));
    let open = znaide_tui::md::inline("[a] (b) [c](d", base);
    assert_eq!(open.len(), 1);
    assert_eq!(open[0].content, "[a] (b) [c](d");
}

#[test]
fn lines_are_filled_as_far_as_they_go() {
    assert_eq!(wrap_plain("abcdefg", 3), vec!["abc", "def", "g"]);
    assert_eq!(wrap_plain("a中中b", 3), vec!["a中", "中b"]);
}

#[test]
fn every_line_fits() {
    let md = "# abcdefghijklmnop\n- abcdefghijklmnop\n12. abcdefghijklmnop\n> abcdefghijklmnop\n\
              abcdefghijklmnopqrstuvwx [a](bcd) **e**";
    for l in &render(md, 15) {
        assert!(text_width(&text_of(l)) <= 15, "{}", text_of(l));
    }
}
