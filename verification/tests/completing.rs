use znaide_tui::completion::{
    at_candidates, at_directory, completion_detect, prefix_ci, quote_at_path, slash_candidates,
    split_path, Completion, CompletionItem, CompletionKind, Lookup, Skill, AT_LIMIT,
};
use znaide_tui::completion_menu::{
    accept_completion, draw_completion_menu, ghost_tail, menu_key, open_completion,
    refresh_completion, MenuStep, Refresh,
};
use znaide_tui::input::{KeyCode, KeyEvent};
use znaide_tui::layout::Rect;
use znaide_tui::style::Color;

fn detect_at(input: &str, cursor: usize) -> (usize, String) {
    match completion_detect(input, cursor) {
        Some((CompletionKind::At, ws, typed)) => (ws, typed),
        other => panic!("detect_at({input:?}, cursor={cursor}) 得到 {other:?}"),
    }
}

fn detect_slash(input: &str, cursor: usize) -> (usize, String) {
    match completion_detect(input, cursor) {
        Some((CompletionKind::Slash, ws, typed)) => (ws, typed),
        other => panic!("应检测为 slash 补全,got {other:?}"),
    }
}

fn item(label: &str, insert: &str, hint: &str) -> CompletionItem {
    CompletionItem { label: label.into(), insert: insert.into(), hint: hint.into() }
}

fn one(kind: CompletionKind, typed: &str, word_start: usize, it: CompletionItem) -> Completion {
    Completion { kind, typed: typed.into(), word_start, items: vec![it], selected: 0 }
}

fn skill(name: &str, description: &str, manual: bool) -> Skill {
    Skill {
        name: name.into(),
        description: description.into(),
        source: "用户".into(),
        manual,
        entry: false,
    }
}

#[test]
fn detect_line_head_slash() {
    let (ws, typed) = detect_slash("/un", 3);
    assert_eq!(&"/un"[ws..3], "/un");
    assert_eq!(typed, "un");
    let (ws, typed) = detect_slash("  /sk", 5);
    assert_eq!(typed, "sk");
    assert_eq!(&"  /sk"[ws..5], "/sk");
}

#[test]
fn slash_not_triggered_mid_sentence() {
    assert!(completion_detect("看下 /undo 吧", 8).is_none());
}

#[test]
fn detect_at_anywhere() {
    let (ws, typed) = detect_at("读 @src/mai", 12);
    assert_eq!(typed, "src/mai");
    assert_eq!(&"读 @src/mai"[ws..12], "@src/mai");
    let (_, typed) = detect_at("读 @", 5);
    assert_eq!(typed, "");
}

#[test]
fn what_stands_behind_the_cursor_is_not_typed() {
    assert_eq!(
        detect_at("读 @src/mai 内容", 12),
        (4, "src/mai".to_string())
    );
    assert_eq!(detect_slash("/undo", 3), (0, "un".to_string()));
    assert!(completion_detect("a @b", 2).is_none());
}

#[test]
fn email_not_completed() {
    assert!(completion_detect("联系 a@b.com", 13).is_none());
}

#[test]
fn detect_quoted_at() {
    let (_, typed) = detect_at("读 @\"my file", 13);
    assert_eq!(typed, "my file");
    assert!(completion_detect("读 @\"my file\" 好", 14).is_none());
}

#[test]
fn nothing_is_detected_at_the_beginning() {
    assert!(completion_detect("/un", 0).is_none());
    assert!(completion_detect("", 0).is_none());
    let (ws, typed) = detect_slash("\n /x", 4);
    assert_eq!((ws, typed.as_str()), (2, "x"));
}

#[test]
fn quote_only_when_needed() {
    assert_eq!(quote_at_path("main.rs"), "main.rs");
    assert_eq!(quote_at_path("my file.txt"), "\"my file.txt\"");
    assert_eq!(quote_at_path("中文,标点.txt"), "\"中文,标点.txt\"");
}

#[test]
fn at_candidates_lists_dir_and_files() {
    let top = vec![
        ("src".to_string(), true),
        ("doc 目录".to_string(), true),
        ("README.md".to_string(), false),
        ("my file.txt".to_string(), false),
        (".hidden".to_string(), false),
    ];
    let items = at_candidates(&top, "");
    let labels: Vec<&str> = items.iter().map(|i| i.label.as_str()).collect();
    assert!(labels.contains(&"src/"));
    assert!(labels.contains(&"README.md"));
    assert!(!labels.contains(&".hidden"));
    let spaced = items.iter().find(|i| i.label == "my file.txt").unwrap();
    assert_eq!(spaced.insert, "\"my file.txt\"");

    let items = at_candidates(&top, "doc");
    assert_eq!(items.len(), 1);
    assert_eq!(items[0].label, "doc 目录/");
    assert_eq!(items[0].insert, "\"doc 目录/\"");

    let inner = vec![("main.rs".to_string(), false)];
    let items = at_candidates(&inner, "src/m");
    assert_eq!(items.len(), 1);
    assert_eq!(items[0].label, "src/main.rs");
    assert_eq!(items[0].insert, "src/main.rs");
}

#[test]
fn candidates_come_in_order() {
    let mut entries = Vec::new();
    for n in ["b", "中", "a", "B", "ab", "a b", "z"] {
        entries.push((n.to_string(), false));
    }
    let items = at_candidates(&entries, "");
    let labels: Vec<String> = items.iter().map(|i| i.label.clone()).collect();
    let mut want = labels.clone();
    want.sort();
    assert_eq!(labels, want);
    assert_eq!(labels.len(), 7);

    let many: Vec<(String, bool)> = (0..300).map(|i| (format!("f{i:04}"), false)).collect();
    let items = at_candidates(&many, "");
    assert_eq!(items.len(), AT_LIMIT);
    assert_eq!(items[199].label, "f0199");
}

#[test]
fn some_entries_are_no_candidates() {
    let entries = vec![("a\"b".to_string(), false), (".git".to_string(), true)];
    assert!(at_candidates(&entries, "").is_empty());
    let items = at_candidates(&entries, ".");
    assert_eq!(items.len(), 1);
    assert_eq!(items[0].label, ".git/");
    assert_eq!(items[0].hint, "目录");
}

#[test]
fn references_are_looked_up_by_their_directory() {
    assert!(matches!(at_directory("main"), Lookup::Here));
    match at_directory("~/a/b") {
        Lookup::Home(p) => assert_eq!(p, "a/"),
        other => panic!("{other:?}"),
    }
    match at_directory("/etc/ho") {
        Lookup::Path(p) => assert_eq!(p, "/etc/"),
        other => panic!("{other:?}"),
    }
    assert_eq!(split_path("src/ma"), ("src/".to_string(), "ma".to_string()));
    assert_eq!(split_path("ma"), (String::new(), "ma".to_string()));
}

#[test]
fn slash_candidates_filter_and_order() {
    let none: Vec<Skill> = Vec::new();
    let items = slash_candidates(&none, "un");
    assert!(items.iter().any(|i| i.label == "/undo"));
    let items = slash_candidates(&none, "re");
    assert!(items.iter().any(|i| i.label == "/resume" && i.hint.contains("历史会话")));
    let all = slash_candidates(&none, "");
    assert!(all.len() >= 7);
    assert!(all[0].label == "/help");
}

#[test]
fn skills_follow_the_commands() {
    let skills = vec![skill("Undoer", "撤销", true), skill("other", "别的", false)];
    let items = slash_candidates(&skills, "UN");
    let labels: Vec<&str> = items.iter().map(|i| i.label.as_str()).collect();
    assert_eq!(labels, vec!["/undo", "/Undoer"]);
    assert_eq!(items[1].hint, "技能 · 撤销 [仅手动]");
    assert!(prefix_ci("Undo", "uN"));
    assert!(!prefix_ci("un", "und"));
    assert!(prefix_ci("É", "é"));
    assert!(!prefix_ci("É", "e"));
    assert!(prefix_ci("ΟΔΟΣΑ", "οδοσ"));
}

#[test]
fn accept_replaces_word_and_moves_cursor() {
    let mut input = String::from("读 @src/mai 内容");
    let mut cursor = 12;
    let cm = one(CompletionKind::At, "src/mai", 4, item("src/main.rs", "src/main.rs", "文件"));
    accept_completion(&mut input, &mut cursor, &cm);
    assert_eq!(input, "读 @src/main.rs 内容");
    assert_eq!(cursor, 16);
}

#[test]
fn accept_at_adds_at_prefix() {
    let mut input = String::from("看 @my f");
    let mut cursor = 9;
    let cm = one(CompletionKind::At, "my f", 4, item("my file.txt", "\"my file.txt\"", "文件"));
    accept_completion(&mut input, &mut cursor, &cm);
    assert_eq!(input, "看 @\"my file.txt\" ");
    assert_eq!(cursor, 19);
}

#[test]
fn accept_slash_appends_space_for_args() {
    let mut input = String::from("/un");
    let mut cursor = 3;
    let cm = one(CompletionKind::Slash, "un", 0, item("/undo", "/undo", "undo 快照/回滚"));
    accept_completion(&mut input, &mut cursor, &cm);
    assert_eq!(input, "/undo ");
    assert_eq!(cursor, 6);
}

#[test]
fn accept_dir_keeps_traversing_no_space() {
    let mut input = String::from("读 @doc");
    let mut cursor = 8;
    let cm = one(CompletionKind::At, "doc", 4, item("doc 目录/", "\"doc 目录/\"", "目录"));
    accept_completion(&mut input, &mut cursor, &cm);
    assert_eq!(input, "读 @\"doc 目录/\"");
    assert_eq!(cursor, 18);
}

#[test]
fn accept_no_double_space_when_followed_by_space() {
    let mut input = String::from("读 @src/mai 内容");
    let mut cursor = 12;
    let cm = one(CompletionKind::At, "src/mai", 4, item("src/main.rs", "src/main.rs", "文件"));
    accept_completion(&mut input, &mut cursor, &cm);
    assert_eq!(input, "读 @src/main.rs 内容");
    assert_eq!(cursor, 16);
}

#[test]
fn ghost_tail_only_suffix() {
    let mk = |kind: CompletionKind, typed: &str, label: &str| {
        one(kind, typed, 0, item(label, label, ""))
    };
    assert_eq!(ghost_tail(&mk(CompletionKind::Slash, "he", "/help")).as_deref(), Some("lp"));
    assert_eq!(ghost_tail(&mk(CompletionKind::Slash, "help", "/help")), None);
    assert_eq!(
        ghost_tail(&mk(CompletionKind::At, "src/ma", "src/main.rs")).as_deref(),
        Some("in.rs")
    );
}

#[test]
fn list_stays_while_the_word_is_the_same() {
    let none: Option<Completion> = None;
    let (kind, ws, typed) = match refresh_completion("/un", 3, true, &none) {
        Refresh::Query { kind, word_start, typed } => (kind, word_start, typed),
        other => panic!("{other:?}"),
    };
    assert_eq!((kind, ws, typed.as_str()), (CompletionKind::Slash, 0, "un"));
    let skills: Vec<Skill> = Vec::new();
    let items = slash_candidates(&skills, &typed);
    let list = open_completion(kind, ws, typed, items);
    assert!(list.is_some());
    assert!(matches!(refresh_completion("/un", 3, true, &list), Refresh::Keep));
    assert!(matches!(refresh_completion("/und", 4, true, &list), Refresh::Query { .. }));
    assert!(matches!(refresh_completion("/un", 3, false, &list), Refresh::Close));
    assert!(matches!(refresh_completion("un", 2, true, &list), Refresh::Close));
    assert!(open_completion(CompletionKind::At, 0, "x".into(), Vec::new()).is_none());
}

#[test]
fn keys_of_the_list() {
    let mk = || Completion {
        kind: CompletionKind::Slash,
        typed: String::new(),
        word_start: 0,
        items: vec![item("/a", "/a", ""), item("/b", "/b", "")],
        selected: 0,
    };
    let down = match menu_key(Some(mk()), KeyEvent::plain(KeyCode::Down)) {
        MenuStep::Used(c) => c,
        other => panic!("{other:?}"),
    };
    assert_eq!(down.selected, 1);
    let down = match menu_key(Some(down), KeyEvent::plain(KeyCode::Down)) {
        MenuStep::Used(c) => c,
        other => panic!("{other:?}"),
    };
    assert_eq!(down.selected, 1);
    assert!(matches!(menu_key(Some(down), KeyEvent::plain(KeyCode::Tab)), MenuStep::Take(_)));
    assert!(matches!(menu_key(Some(mk()), KeyEvent::plain(KeyCode::Enter)), MenuStep::Take(_)));
    assert!(matches!(menu_key(Some(mk()), KeyEvent::plain(KeyCode::Char('x'))), MenuStep::Pass(_)));
    let shut = match menu_key(Some(mk()), KeyEvent::plain(KeyCode::Esc)) {
        MenuStep::Used(c) => c,
        other => panic!("{other:?}"),
    };
    assert!(shut.items.is_empty());
    let kept = Some(Completion { typed: "un".into(), ..shut });
    assert!(matches!(refresh_completion("/un", 3, true, &kept), Refresh::Keep));
    assert!(matches!(menu_key(None, KeyEvent::plain(KeyCode::Up)), MenuStep::Pass(None)));
}

#[test]
fn menu_shows_the_selected_candidate() {
    let items: Vec<CompletionItem> = (0..20).map(|i| item(&format!("/c{i}"), "", "hint")).collect();
    let cm = Completion {
        kind: CompletionKind::Slash,
        typed: String::new(),
        word_start: 0,
        items,
        selected: 12,
    };
    let area = Rect { x: 0, y: 20, width: 60, height: 3 };
    let m = draw_completion_menu(area, &cm).unwrap();
    assert_eq!(m.area, Rect { x: 1, y: 10, width: 58, height: 10 });
    assert_eq!(m.lines.len(), 8);
    let chosen = m.lines.iter().find(|l| l.spans[0].style.bg == Some(Color::Cyan)).unwrap();
    assert_eq!(chosen.spans[0].content, " /c12");
    assert!(chosen.spans[1].content.ends_with("hint"));
    let total: usize = chosen.spans.iter().map(|s| s.content.chars().count()).sum();
    assert_eq!(total, 55);
    let empty = Completion { items: Vec::new(), ..cm };
    assert!(draw_completion_menu(area, &empty).is_none());
}

#[test]
fn candidates_hold_nothing_that_a_terminal_obeys() {
    let cm = one(CompletionKind::At, "", 0, item("a\x1b[31mb", "x", "h\x07"));
    let m = draw_completion_menu(Rect { x: 0, y: 20, width: 60, height: 3 }, &cm).unwrap();
    assert_eq!(m.lines[0].spans[0].content, " ab");
    assert_eq!(m.lines[0].spans[1].content.trim_start(), "h");
}

#[test]
fn menu_of_very_many_candidates_is_full() {
    let items: Vec<CompletionItem> = (0..65536).map(|_| item("/c", "", "")).collect();
    let cm = Completion {
        kind: CompletionKind::Slash,
        typed: String::new(),
        word_start: 0,
        items,
        selected: 65535,
    };
    let m = draw_completion_menu(Rect { x: 0, y: 20, width: 60, height: 3 }, &cm).unwrap();
    assert_eq!(m.lines.len(), 8);
    assert_eq!(m.lines[7].spans[0].style.bg, Some(Color::Cyan));
}
