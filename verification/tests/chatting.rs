use znaide_tui::chat::{Action, App};
use znaide_tui::command::Command;
use znaide_tui::completion::{CompletionItem, CompletionKind};
use znaide_tui::completion_menu::Refresh;
use znaide_tui::input::{KeyCode, KeyEvent};
use znaide_tui::layout::{popup_area, popup_lines, Rect, CONFIRM_KEYS, PERMISSION_KEYS};
use znaide_tui::messages::MsgItem;
use znaide_tui::mode::{mode_color, mode_desc, mode_str, next_mode, Mode};
use znaide_tui::screen::header_line;
use znaide_tui::scroll::{thumb, MouseEvent, MouseKind, Scroll};
use znaide_tui::style::{Color, Line, Span};
use znaide_tui::transcript::{BusyKind, SessionEvent};

fn key(code: KeyCode) -> KeyEvent {
    KeyEvent::plain(code)
}

fn app() -> App {
    let mut a = App::start(Mode::Ask, String::new(), true, false, None);
    a.talk.items = Vec::new();
    a
}

fn type_in(a: &mut App, t: &str) {
    for c in t.chars() {
        a.on_key(key(KeyCode::Char(c)), false, false);
    }
}

fn last_notice(a: &App) -> String {
    match a.talk.items.last() {
        Some(MsgItem::Notice(t)) => t.clone(),
        other => panic!("{other:?}"),
    }
}

fn text_of(spans: &Vec<Span>) -> String {
    let mut s = String::new();
    for p in spans {
        s.push_str(&p.content);
    }
    s
}

fn texts(ls: &Vec<Line>) -> Vec<String> {
    ls.iter().map(|l| text_of(&l.spans)).collect()
}

#[test]
fn shift_tab_mode_cycles() {
    assert_eq!(next_mode(Mode::Ask), Mode::AcceptEdits);
    assert_eq!(next_mode(Mode::AcceptEdits), Mode::BypassPermissions);
    assert_eq!(next_mode(Mode::BypassPermissions), Mode::Yolo);
    assert_eq!(next_mode(Mode::Yolo), Mode::Ask);
    for m in [Mode::Ask, Mode::AcceptEdits, Mode::BypassPermissions, Mode::Yolo] {
        assert!(!mode_desc(m).is_empty());
        assert!(!mode_str(m).is_empty());
    }
    let ask_c = mode_color(Mode::Ask);
    let acc_c = mode_color(Mode::AcceptEdits);
    let bp_c = mode_color(Mode::BypassPermissions);
    let yolo_c = mode_color(Mode::Yolo);
    assert_eq!(ask_c, Color::Green);
    assert_eq!(acc_c, Color::LightBlue);
    assert_eq!(bp_c, Color::Magenta);
    assert_eq!(yolo_c, Color::Red);
    assert_ne!(ask_c, acc_c);
    assert_ne!(ask_c, bp_c);
    assert_ne!(ask_c, yolo_c);
    assert_ne!(acc_c, bp_c);
    assert_ne!(acc_c, yolo_c);
    assert_ne!(bp_c, yolo_c);
}

#[test]
fn program_starts_with_the_banner() {
    let a = App::start(Mode::Ask, "甲".into(), false, true, Some("abc"));
    assert_eq!(a.talk.items.len(), 5);
    assert!(matches!(a.talk.items[0], MsgItem::Logo));
    assert!(matches!(&a.talk.items[2], MsgItem::Notice(t) if t == "▶ 正在恢复会话 abc…"));
    assert!(!a.configured);
    assert_eq!(a.talk.persona, "甲");
}

#[test]
fn what_is_typed_is_sent() {
    let mut a = app();
    type_in(&mut a, " 你好 ");
    match a.on_key(key(KeyCode::Enter), false, false) {
        Action::Prompt(t) => assert_eq!(t, "你好"),
        other => panic!("{other:?}"),
    }
    assert!(a.talk.busy);
    assert!(a.input.is_empty());
    assert!(matches!(&a.talk.items[0], MsgItem::User(t) if t == "你好"));
    type_in(&mut a, "再来");
    assert!(matches!(a.on_key(key(KeyCode::Enter), false, false), Action::Idle));
    assert_eq!(a.input, "再来");
    assert!(matches!(a.on_key(key(KeyCode::Esc), false, false), Action::Interrupt));
    assert_eq!(last_notice(&a), "⏹ 已请求中断…");
}

#[test]
fn nothing_is_sent_without_a_model() {
    let mut a = app();
    a.configured = false;
    type_in(&mut a, "你好");
    assert!(matches!(a.on_key(key(KeyCode::Enter), false, false), Action::Idle));
    assert!(last_notice(&a).contains("不能对话"));
    type_in(&mut a, "/compact");
    assert!(matches!(a.on_key(key(KeyCode::Enter), false, false), Action::Idle));
    assert!(last_notice(&a).contains("不能压缩上下文"));
    type_in(&mut a, "/config");
    assert!(matches!(a.on_key(key(KeyCode::Enter), false, false), Action::OpenWizard));
    a.leave_wizard();
    assert!(last_notice(&a).contains("配置还没完成"));
    a.connect("p", "m", Err("盘满".into()));
    assert!(!a.configured);
    assert_eq!(last_notice(&a), "⚠ 配置已生效但没存上: 盘满");
    a.connect("p", "m", Ok(()));
    assert!(a.configured);
    assert_eq!(last_notice(&a), "✔ 配置完成并已生效: p / m。可以开始用了。");
    a.leave_wizard();
    assert!(last_notice(&a).contains("已关闭配置向导"));
}

#[test]
fn blank_text_is_not_sent() {
    let mut a = app();
    type_in(&mut a, "  ");
    assert!(matches!(a.on_key(key(KeyCode::Enter), false, false), Action::Idle));
    assert_eq!(a.input, "  ");
    assert_eq!(a.cursor, 0);
    assert!(a.talk.items.is_empty());
}

#[test]
fn commands_ask_for_what_they_need() {
    let mut a = app();
    type_in(&mut a, "/undo 2");
    match a.on_key(key(KeyCode::Enter), false, false) {
        Action::Ask(Command::UndoAt(n)) => assert_eq!(n, 2),
        other => panic!("{other:?}"),
    }
    assert!(a.input.is_empty());
    type_in(&mut a, "/quit");
    a.on_key(key(KeyCode::Enter), false, false);
    assert!(a.quit);
}

#[test]
fn clearing_takes_a_confirmation() {
    let mut a = app();
    a.talk.items.push(MsgItem::User("旧".into()));
    type_in(&mut a, "/clear");
    assert!(matches!(a.on_key(key(KeyCode::Enter), false, false), Action::Idle));
    assert!(a.confirm.is_some());
    assert_eq!(a.label(), " [等待确认]");
    assert!(matches!(a.on_key(key(KeyCode::Char('x')), false, false), Action::Idle));
    assert!(a.confirm.is_some());
    a.on_key(key(KeyCode::Esc), false, false);
    assert!(a.confirm.is_none());
    assert_eq!(last_notice(&a), "已取消清空。");
    type_in(&mut a, "/clear");
    a.on_key(key(KeyCode::Enter), false, false);
    assert!(matches!(a.on_key(key(KeyCode::Char('y')), false, false), Action::ClearContext));
    assert!(a.talk.items.is_empty());
}

#[test]
fn permissions_come_first() {
    for (c, allow, always) in [('y', true, false), ('A', true, true), ('n', false, false)] {
        let mut a = app();
        a.on_event(
            SessionEvent::PermissionRequest { title: "t".into(), body: "b".into() },
            0,
        );
        assert!(matches!(a.on_key(key(KeyCode::Char('x')), true, true), Action::Idle));
        assert!(a.talk.permission.is_some());
        match a.on_key(key(KeyCode::Char(c)), true, true) {
            Action::Permit { allow: x, always: z } => assert_eq!((x, z), (allow, always)),
            other => panic!("{other:?}"),
        }
        assert!(a.talk.permission.is_none());
    }
}

#[test]
fn keys_go_to_the_window_in_front() {
    let mut a = app();
    assert!(matches!(a.on_key(key(KeyCode::Char('x')), true, true), Action::ToWizard));
    assert!(matches!(a.on_key(key(KeyCode::Char('x')), false, true), Action::ToSessions));
    assert!(a.input.is_empty());
    let exit = KeyEvent { code: KeyCode::Char('c'), shift: false, control: true, alt: false };
    assert!(matches!(a.on_key(exit, true, true), Action::Exit));
    match a.on_key(key(KeyCode::BackTab), false, false) {
        Action::SetMode(m) => assert_eq!(m, Mode::AcceptEdits),
        other => panic!("{other:?}"),
    }
    assert!(last_notice(&a).starts_with("🔒 权限模式:编辑放行:"));
    let shift_tab = KeyEvent { code: KeyCode::Tab, shift: true, control: false, alt: false };
    assert!(matches!(a.on_key(shift_tab, false, false), Action::SetMode(Mode::BypassPermissions)));
    assert!(matches!(a.on_key(key(KeyCode::Tab), false, false), Action::Idle));
}

#[test]
fn text_is_edited_at_the_cursor() {
    let mut a = app();
    type_in(&mut a, "a中b");
    a.on_key(key(KeyCode::Left), false, false);
    a.on_key(key(KeyCode::Left), false, false);
    assert_eq!(a.cursor, 1);
    a.on_key(key(KeyCode::Delete), false, false);
    assert_eq!(a.input, "ab");
    a.on_key(key(KeyCode::Right), false, false);
    a.on_key(key(KeyCode::Backspace), false, false);
    assert_eq!((a.input.as_str(), a.cursor), ("a", 1));
    let newline = KeyEvent { code: KeyCode::Enter, shift: true, control: false, alt: false };
    a.on_key(newline, false, false);
    a.on_key(key(KeyCode::Char('\x07')), false, false);
    assert_eq!(a.input, "a\n");
    a.paste("x\r\n\x1b[<35;1;1My", false);
    assert_eq!(a.input, "a\nx\ny");
    a.paste("z", true);
    assert_eq!(a.input, "a\nx\ny");
}

#[test]
fn candidates_are_taken_and_not_sent() {
    let mut a = app();
    type_in(&mut a, "/un");
    let (kind, ws, typed) = match a.refresh(false) {
        Refresh::Query { kind, word_start, typed } => (kind, word_start, typed),
        other => panic!("{other:?}"),
    };
    assert_eq!(kind, CompletionKind::Slash);
    let items = vec![CompletionItem {
        label: "/undo".into(),
        insert: "/undo".into(),
        hint: "h".into(),
    }];
    a.open_list(kind, ws, typed, items);
    assert!(matches!(a.refresh(false), Refresh::Keep));
    assert_eq!(texts(&a.input_lines(40)), vec!["❯ /un▍do"]);
    assert!(matches!(a.on_key(key(KeyCode::Enter), false, false), Action::Idle));
    assert_eq!((a.input.as_str(), a.cursor), ("/undo ", 6));
    assert!(a.completion.is_none());
    assert!(a.talk.items.is_empty());
    a.talk.busy = true;
    assert!(matches!(a.refresh(false), Refresh::Close));
}

#[test]
fn full_context_is_told_once() {
    let mut a = app();
    a.on_event(SessionEvent::Usage { prompt: 95, completion: 1 }, 0);
    a.check_context(100);
    assert!(last_notice(&a).starts_with("⚠ 上下文已用约 95%,再聊可能丢最早的记录。可以 /compact"));
    a.check_context(100);
    assert_eq!(a.talk.items.len(), 1);
    a.on_event(SessionEvent::Usage { prompt: 10, completion: 1 }, 0);
    a.check_context(100);
    assert!(!a.warned);
    a.on_event(SessionEvent::Usage { prompt: 90, completion: 1 }, 0);
    a.check_context(0);
    a.check_context(100);
    assert_eq!(a.talk.items.len(), 2);
}

#[test]
fn status_line_tells_what_goes_on() {
    let mut a = app();
    assert_eq!(text_of(&a.status_spans("m", 0, 0)), " 询问 | m | 就绪");
    a.talk.persona = "甲".into();
    a.talk.session_id = "s1".into();
    a.scroll.back = 4;
    a.on_event(SessionEvent::TurnStarted, 0);
    a.on_event(SessionEvent::Usage { prompt: 1500, completion: 20 }, 0);
    a.on_event(SessionEvent::TextDelta("你好".into()), 0);
    let spans = a.status_spans("m", 3000, 0);
    assert_eq!(
        spans[0].content,
        " 询问 | 甲 | m | 工作中… ▁▂▄▆█▆▄▂ · in 1.5k · out ≈22 · Σ ≈1.5k"
    );
    assert_eq!(spans[1].content, " ctx █████░░░░░ 50%");
    assert_eq!(spans[2].content, " ↕ 上翻4行(End回底) · 会话 s1");
    assert_eq!(spans.len(), 3);
    a.talk.busy_kind = BusyKind::Compacting;
    assert!(text_of(&a.status_spans("m", 0, 2)).contains("压缩中… ▉"));
    assert_eq!(
        text_of(&header_line("1.2", "/w")),
        " znaide  v1.2 无所不能的终端 AI 助手 | /w"
    );
    assert_eq!(a.input_border(), Color::DarkGray);
    a.talk.busy = false;
    assert_eq!(a.input_border(), Color::Green);
}

#[test]
fn view_follows_and_stays() {
    let mut a = app();
    for i in 0..30 {
        a.notice(format!("n{i}"));
    }
    let area = Rect { x: 0, y: 1, width: 40, height: 12 };
    let lines = texts(&a.message_lines(area, 0, 0));
    assert_eq!(lines.len(), 10);
    assert_eq!(lines[8], "ℹ n29");
    a.on_key(key(KeyCode::Up), false, false);
    let up = texts(&a.message_lines(area, 0, 0));
    assert_eq!(a.scroll.back, 3);
    a.notice("more".into());
    assert_eq!(texts(&a.message_lines(area, 0, 0)), up);
    assert_eq!(a.scroll.back, 5);
    a.on_key(key(KeyCode::Home), false, false);
    assert_eq!(texts(&a.message_lines(area, 0, 0))[0], "ℹ n0");
    assert_eq!(a.scroll.back, a.scroll.range);
    a.on_key(key(KeyCode::End), false, false);
    assert_eq!(texts(&a.message_lines(area, 0, 0))[8], "ℹ more");
}

#[test]
fn mouse_scrolls_and_drags() {
    let area = Rect { x: 0, y: 1, width: 40, height: 12 };
    let mut s = Scroll::new();
    s.frame(110, 10, area);
    assert_eq!(s.range, 100);
    let ev = |kind: MouseKind, column: u16, row: u16| MouseEvent { kind, column, row };
    s.handle_mouse_scroll(ev(MouseKind::ScrollUp, 5, 5));
    assert_eq!((s.back, s.at_bottom), (3, false));
    s.handle_mouse_scroll(ev(MouseKind::ScrollDown, 5, 5));
    assert_eq!((s.back, s.at_bottom), (0, true));
    s.handle_mouse_scroll(ev(MouseKind::LeftDown, 39, 2));
    assert_eq!((s.back, s.at_bottom, s.dragging), (100, false, true));
    s.handle_mouse_scroll(ev(MouseKind::LeftDrag, 3, 11));
    assert_eq!((s.back, s.at_bottom), (0, true));
    s.handle_mouse_scroll(ev(MouseKind::Up, 3, 11));
    assert!(!s.dragging);
    s.handle_mouse_scroll(ev(MouseKind::LeftDrag, 3, 2));
    assert_eq!(s.back, 0);
    s.handle_mouse_scroll(ev(MouseKind::ScrollUp, 5, 1));
    assert_eq!(s.back, 0);
    s.jump_scroll_to(6);
    assert_eq!(s.back, 56);
}

#[test]
fn bar_stands_where_the_view_is() {
    assert_eq!(thumb(10, 10, 0), None);
    assert_eq!(thumb(10, 0, 0), None);
    assert_eq!(thumb(100, 10, 0), Some((9, 1)));
    assert_eq!(thumb(100, 10, 90), Some((0, 1)));
    assert_eq!(thumb(20, 10, 0), Some((5, 5)));
    assert_eq!(thumb(20, 10, 5), Some((2, 5)));
    assert_eq!(thumb(20, 10, 99), Some((0, 5)));
}

#[test]
fn text_grows_to_eight_rows() {
    let mut a = app();
    assert_eq!(a.input_rows(40), 1);
    a.paste("1\n2\n3", false);
    assert_eq!(a.input_rows(40), 3);
    assert_eq!(a.input_lines(40).len(), 3);
    a.paste("\n4\n5\n6\n7\n8\n9\n10", false);
    assert_eq!(a.input_rows(40), 8);
    let lines = texts(&a.input_lines(40));
    assert_eq!(lines.len(), 8);
    assert_eq!(lines[7], "  10▍");
}

#[test]
fn questions_are_asked_in_the_middle() {
    let area = Rect { x: 0, y: 0, width: 100, height: 30 };
    assert_eq!(popup_area(area), Rect { x: 5, y: 10, width: 90, height: 10 });
    let small = Rect { x: 2, y: 3, width: 40, height: 5 };
    assert_eq!(popup_area(small), Rect { x: 2, y: 3, width: 40, height: 10 });
    let lines = texts(&popup_lines("题", &"字".repeat(80), CONFIRM_KEYS));
    assert_eq!(lines[0], "  题");
    assert_eq!(lines[2].chars().count(), 79);
    assert!(lines[2].ends_with('…'));
    assert_eq!(lines[4], "  y 确认 | n / Esc 取消");
}

#[test]
fn screen_is_split_from_top_to_bottom() {
    let mut a = app();
    a.paste("1\n2", false);
    let p = a.areas(Rect { x: 0, y: 0, width: 80, height: 30 });
    assert_eq!(p.header, Rect { x: 0, y: 0, width: 80, height: 1 });
    assert_eq!(p.messages, Rect { x: 0, y: 1, width: 80, height: 24 });
    assert_eq!(p.input, Rect { x: 0, y: 25, width: 80, height: 4 });
    assert_eq!(p.status, Rect { x: 0, y: 29, width: 80, height: 1 });
    assert_eq!(p.panel(), Rect { x: 0, y: 1, width: 80, height: 28 });
    let least = a.areas(Rect { x: 3, y: 2, width: 20, height: 9 });
    assert_eq!(least.header, Rect { x: 3, y: 2, width: 20, height: 1 });
    assert_eq!(least.messages, Rect { x: 3, y: 3, width: 20, height: 3 });
    assert_eq!(least.input, Rect { x: 3, y: 6, width: 20, height: 4 });
    assert_eq!(least.status, Rect { x: 3, y: 10, width: 20, height: 1 });
    let low = a.areas(Rect { x: 0, y: 0, width: 80, height: 1 });
    assert!(low.panel().height >= 1);
}

#[test]
fn session_manager_is_left_with_a_word() {
    let mut a = app();
    a.close_sessions();
    assert_eq!(last_notice(&a), "已关闭会话管理(随时 /resume 再开)。");
    a.choose_session();
    assert_eq!(last_notice(&a), "正在恢复历史会话…");
}

#[test]
fn questions_hold_nothing_that_a_terminal_obeys() {
    let lines = texts(&popup_lines("\x1b[31mrun\x07", "rm \x1b]0;t\x07-rf\x1b[2J x", PERMISSION_KEYS));
    assert_eq!(lines[0], "  run");
    assert_eq!(lines[2], "rm -rf x");
    assert_eq!(lines[4], "  y 允许一次 | a 本会话都允许 | n 拒绝 | Esc 取消");
}

#[test]
fn program_ends_only_when_asked() {
    let mut a = app();
    let said = vec![
        SessionEvent::SessionInfo { id: "one".into() },
        SessionEvent::Usage { prompt: 10, completion: 2 },
        SessionEvent::SessionInfo { id: "two".into() },
        SessionEvent::ContextCleared,
        SessionEvent::Usage { prompt: 5, completion: 3 },
    ];
    for e in said {
        a.on_event(e, 0);
    }
    type_in(&mut a, "quit");
    a.on_key(key(KeyCode::Enter), false, false);
    assert!(!a.quit);
    a.on_event(SessionEvent::TurnFinished { text: String::new(), truncated: false }, 0);
    for code in [KeyCode::Esc, KeyCode::Tab, KeyCode::Up, KeyCode::Char('q')] {
        assert!(!matches!(a.on_key(key(code), false, false), Action::Exit));
    }
    assert!(!a.quit);
    a.on_key(key(KeyCode::Backspace), false, false);
    type_in(&mut a, " /exit ");
    a.on_key(key(KeyCode::Enter), false, false);
    assert!(a.quit);
    assert_eq!(a.talk.session_id, "two");
    assert_eq!((a.talk.stats.input, a.talk.stats.output), (15, 5));
    let end = KeyEvent { code: KeyCode::Char('c'), shift: false, control: true, alt: false };
    assert!(matches!(a.on_key(end, true, true), Action::Exit));
}

#[test]
fn status_without_a_session_is_one_piece() {
    let a = app();
    let spans = a.status_spans("m", 1000, 0);
    assert_eq!(spans.len(), 2);
    assert_eq!(spans[1].content, " ctx ░░░░░░░░░░ 0%");
}

#[test]
fn header_and_status_hold_nothing_that_a_terminal_obeys() {
    let mut a = app();
    a.talk.persona = "p\x1b[1m".into();
    a.talk.session_id = "s\x07".into();
    assert_eq!(text_of(&a.status_spans("m\x1b[2J", 0, 0)), " 询问 | p | m | 就绪 · 会话 s");
    assert_eq!(
        text_of(&header_line("1", "/w\x1b]0;t\x07")),
        " znaide  v1 无所不能的终端 AI 助手 | /w"
    );
}

#[test]
fn use_is_unlocked_by_a_connection_alone() {
    let mut a = App::start(Mode::Ask, String::new(), false, true, None);
    let connects = [Err("盘满".to_string()), Ok(())];
    for saved in connects {
        a.on_event(SessionEvent::SessionInfo { id: "s".into() }, 0);
        a.paste("问", false);
        assert!(matches!(a.on_key(key(KeyCode::Enter), false, false), Action::Idle));
        a.leave_wizard();
        a.close_sessions();
        a.on_key(key(KeyCode::BackTab), false, false);
        assert!(!a.configured);
        a.connect("p", "m", saved);
    }
    assert!(a.configured);
    a.paste("问", false);
    assert!(matches!(a.on_key(key(KeyCode::Enter), false, false), Action::Prompt(_)));
}
