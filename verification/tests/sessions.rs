use znaide_tui::dates::{civil_from_days, fmt_ago};
use znaide_tui::input::{KeyCode, KeyEvent};
use znaide_tui::session_rows::{
    memory_rows, session_rows, MemoryFile, MemoryRow, SessionFile, SessionRow,
};
use znaide_tui::layout::Rect;
use znaide_tui::sessions_draw::{list_areas, scroll_for, Page};
use znaide_tui::sessions_ui::{strip_frontmatter, Mode, SessionsUi, Tab, UiAction};

const NOW: u64 = 2_000_000_000;

fn key(code: KeyCode) -> KeyEvent {
    KeyEvent::plain(code)
}

fn sess(id: &str, is_current: bool, note: Option<&str>) -> SessionRow {
    SessionRow {
        path: format!("/s/{id}.jsonl"),
        id: id.to_string(),
        headless: id == "bbb",
        note: note.map(|s| s.to_string()),
        size_kb: 1,
        modified: NOW,
        is_current,
    }
}

fn mem(filename: &str, name: &str) -> MemoryRow {
    MemoryRow {
        filename: filename.to_string(),
        name: name.to_string(),
        desc: format!("关于{name}的记忆"),
        mtype: "project".to_string(),
        size_kb: 1,
        modified: NOW,
    }
}

fn fake_ui() -> SessionsUi {
    SessionsUi {
        tab: Tab::Sessions,
        sessions: vec![
            sess("aaa", false, None),
            sess("bbb", false, Some("改 README")),
            sess("ccc", true, None),
        ],
        mems: vec![mem("env", "机器环境"), mem("tool", "工具偏好")],
        sess_marks: vec![false; 3],
        mem_marks: vec![false; 2],
        cursor: 0,
        scroll: 0,
        mode: Mode::Browse,
        filter: String::new(),
        status: None,
    }
}

#[test]
fn fmt_ago_basics() {
    let now = 2_000_000_000u64;
    assert_eq!(fmt_ago(now, now), "刚刚");
    assert!(fmt_ago(now - 500, now).contains("8 分钟前"));
    assert!(fmt_ago(now - 7200, now).contains("2 小时前"));
    assert!(fmt_ago(now - 3 * 86_400, now).contains("3 天前"));
    let date = fmt_ago(now - 400 * 86_400, now);
    assert_eq!(date.chars().count(), 10, "超过 30 天显示日期,got {date}");
    assert!(date.contains('-'));
}

#[test]
fn days_become_dates() {
    assert_eq!(civil_from_days(0), (1970, 1, 1));
    assert_eq!(civil_from_days(19_723), (2024, 1, 1));
    assert_eq!(civil_from_days(19_782), (2024, 2, 29));
    assert_eq!(civil_from_days(-1), (1969, 12, 31));
    assert_eq!(fmt_ago(0, 4_000_000_000), "1970-01-01");
}

#[test]
fn cursor_moves_and_clamps() {
    let mut ui = fake_ui();
    ui.on_key(key(KeyCode::Down));
    assert_eq!(ui.cursor, 1);
    ui.on_key(key(KeyCode::End));
    assert_eq!(ui.cursor, 2);
    ui.on_key(key(KeyCode::Down));
    assert_eq!(ui.cursor, 2);
    ui.on_key(key(KeyCode::Home));
    assert_eq!(ui.cursor, 0);
}

#[test]
fn mark_skips_current_session() {
    let mut ui = fake_ui();
    ui.on_key(key(KeyCode::End));
    ui.on_key(key(KeyCode::Char(' ')));
    assert!(!ui.sess_marks[2], "当前会话不应被标记");
    ui.on_key(key(KeyCode::Home));
    ui.on_key(key(KeyCode::Char(' ')));
    assert!(ui.sess_marks[0], "普通会话应可标记");
}

#[test]
fn delete_current_blocked_but_others_work() {
    let mut ui = fake_ui();
    ui.on_key(key(KeyCode::End));
    ui.on_key(key(KeyCode::Char('d')));
    assert!(matches!(ui.mode, Mode::Browse));
    assert!(ui.status.as_ref().map(|(_, t)| t.contains("当前会话")).unwrap_or(false));

    ui.on_key(key(KeyCode::Home));
    ui.on_key(key(KeyCode::Char(' ')));
    ui.on_key(key(KeyCode::Down));
    ui.on_key(key(KeyCode::Char(' ')));
    ui.on_key(key(KeyCode::Char('d')));
    assert!(matches!(ui.mode, Mode::ConfirmDelete));
    assert_eq!(ui.marked_count_for_delete(), 2);
    match ui.on_key(key(KeyCode::Char('y'))) {
        UiAction::DeleteSessions(paths) => assert_eq!(paths, vec!["/s/aaa.jsonl", "/s/bbb.jsonl"]),
        other => panic!("应删除,got {other:?}"),
    }
    ui.finish_delete(&vec![true, true]);
    assert_eq!(ui.sessions.len(), 1, "两条应被删,剩当前会话");
    assert_eq!(ui.sessions[0].id, "ccc", "当前会话行应保留");
}

#[test]
fn tab_switches_between_pages() {
    let mut ui = fake_ui();
    ui.on_key(key(KeyCode::Tab));
    assert_eq!(ui.tab, Tab::Memories);
    ui.on_key(key(KeyCode::Tab));
    assert_eq!(ui.tab, Tab::Sessions);
}

#[test]
fn resume_action_on_enter() {
    let mut ui = fake_ui();
    let r = ui.on_key(key(KeyCode::Enter));
    match r {
        UiAction::Resume(p) => assert_eq!(p, "/s/aaa.jsonl"),
        other => panic!("应 Resume,got {other:?}"),
    }
}

#[test]
fn note_edit_flow() {
    let mut ui = fake_ui();
    ui.on_key(key(KeyCode::Char('n')));
    assert!(matches!(ui.mode, Mode::EditNote(_)));
    ui.on_key(key(KeyCode::Esc));
    assert!(matches!(ui.mode, Mode::Browse));
    assert!(ui.sessions[0].note.is_none());

    ui.on_key(key(KeyCode::Char('n')));
    for c in "给 README 做英文版".chars() {
        ui.on_key(key(KeyCode::Char(c)));
    }
    match ui.on_key(key(KeyCode::Enter)) {
        UiAction::WriteNote { path, text } => {
            assert_eq!(path, "/s/aaa.jsonl");
            ui.finish_note(&text, Ok(()));
        }
        other => panic!("应写备注,got {other:?}"),
    }
    assert_eq!(ui.sessions[0].note.as_deref(), Some("给 README 做英文版"));
}

#[test]
fn note_that_is_not_written_is_not_kept() {
    let mut ui = fake_ui();
    ui.finish_note("x", Err("盘满".into()));
    assert!(ui.sessions[0].note.is_none());
    assert_eq!(ui.status, Some((false, "写备注失败: 盘满".to_string())));
    ui.cursor = 1;
    ui.finish_note("  ", Ok(()));
    assert!(ui.sessions[1].note.is_none());
}

#[test]
fn memory_page_enter_opens_detail() {
    let mut ui = fake_ui();
    ui.on_key(key(KeyCode::Tab));
    match ui.on_key(key(KeyCode::Enter)) {
        UiAction::ReadMemory(name) => {
            assert_eq!(name, "env");
            ui.show_memory("---\nname: x\n---\n正文\n二");
        }
        other => panic!("应读记忆,got {other:?}"),
    }
    assert!(matches!(ui.mode, Mode::Detail { .. }));
    match ui.render(NOW, 80, 20) {
        Some(Page::Detail { text, scroll, .. }) => {
            assert_eq!(text, "正文\n二");
            assert_eq!(scroll, 0);
        }
        other => panic!("{other:?}"),
    }
    ui.on_key(key(KeyCode::Esc));
    assert!(matches!(ui.mode, Mode::Browse));
}

#[test]
fn delete_memory_page_confirmation() {
    let mut ui = fake_ui();
    ui.on_key(key(KeyCode::Tab));
    ui.on_key(key(KeyCode::Char(' ')));
    ui.on_key(key(KeyCode::Char('d')));
    assert!(matches!(ui.mode, Mode::ConfirmDelete));
    assert_eq!(ui.marked_count_for_delete(), 1);
    match ui.on_key(key(KeyCode::Char('y'))) {
        UiAction::DeleteMemories(names) => assert_eq!(names, vec!["env"]),
        other => panic!("{other:?}"),
    }
    ui.finish_delete(&vec![false]);
    assert_eq!(ui.mems.len(), 1, "行应移除");
    assert_eq!(ui.mem_marks.len(), 1);
    assert_eq!(ui.status.as_ref().map(|s| s.0), Some(false));
}

#[test]
fn filter_persists_and_cursor_tracks_visible_rows() {
    let mut ui = fake_ui();
    ui.on_key(key(KeyCode::Char('/')));
    assert!(matches!(ui.mode, Mode::Filter(_)));
    for c in "bbb".chars() {
        ui.on_key(key(KeyCode::Char(c)));
    }
    assert!(ui.filter.is_empty(), "输入态不该提前提交");
    assert_eq!(ui.visible_len(), 1, "只该命中 bbb 这一行");

    ui.on_key(key(KeyCode::Enter));
    assert!(matches!(ui.mode, Mode::Browse));
    assert_eq!(ui.filter, "bbb", "Enter 后筛选要留着");
    assert_eq!(ui.cursor, 1, "光标应落在命中行上");
    assert_eq!(ui.visible_len(), 1);

    ui.on_key(key(KeyCode::Down));
    assert_eq!(ui.cursor, 1);
    ui.on_key(key(KeyCode::Up));
    assert_eq!(ui.cursor, 1);

    ui.cursor = 2;
    ui.on_key(key(KeyCode::Down));
    assert_eq!(ui.cursor, 1, "index 2 不可见 → 就近退回 index 1");

    match ui.on_key(key(KeyCode::Enter)) {
        UiAction::Resume(p) => assert!(p.contains("bbb")),
        _ => panic!("应恢复可见行对应的会话"),
    }

    ui.on_key(key(KeyCode::Char('/')));
    assert!(matches!(ui.mode, Mode::Filter(ref b) if b == "bbb"), "应带出当前筛选词");
    ui.on_key(key(KeyCode::Esc));
    assert!(ui.filter.is_empty(), "Esc 应清除筛选");
    assert_eq!(ui.visible_len(), 3);

    ui.filter = "不存在的东西".into();
    ui.clamp_cursor();
    assert!(ui.empty());
    assert!(matches!(ui.on_key(key(KeyCode::Enter)), UiAction::Idle));
}

#[test]
fn filter_ignores_case() {
    let mut ui = fake_ui();
    ui.on_key(key(KeyCode::Char('/')));
    for c in "README".chars() {
        ui.on_key(key(KeyCode::Char(c)));
    }
    assert_eq!(ui.visible_len(), 1);
    ui.on_key(key(KeyCode::Enter));
    assert_eq!(ui.filter, "readme");
    assert_eq!(ui.cursor, 1);
}

#[test]
fn list_is_drawn() {
    let mut ui = fake_ui();
    ui.on_key(key(KeyCode::Down));
    ui.on_key(key(KeyCode::Char(' ')));
    match ui.render(NOW, 80, 20) {
        Some(Page::List { tabs, context, text, scroll, .. }) => {
            assert_eq!(tabs[0].content, " 会话 ");
            assert_eq!(tabs[4].content, "共 3 条 · 已选 1    ");
            assert_eq!(context, "");
            let rows: Vec<&str> = text.split('\n').collect();
            assert_eq!(rows[0], "[ ]  aaa · 1KB · 刚刚");
            assert_eq!(rows[1], "[×]▶「改 README」 bbb [无头] · 1KB · 刚刚");
            assert_eq!(rows[2], "[ ]  ccc [当前会话] · 1KB · 刚刚");
            assert_eq!(scroll, 0);
        }
        other => panic!("{other:?}"),
    }
    assert!(ui.render(NOW, 80, 4).is_none());
    assert!(ui.render(NOW, 23, 20).is_none());
    assert_eq!(ui.title(), " 会话管理(/resume) · 历史会话页 ");
    assert_eq!(scroll_for(0, 9, 5), 5);
    assert_eq!(scroll_for(7, 3, 5), 3);
    assert_eq!(scroll_for(2, 3, 5), 2);
    let (first, second, rest) = list_areas(Rect { x: 1, y: 2, width: 60, height: 10 });
    assert_eq!(first, Rect { x: 1, y: 2, width: 60, height: 1 });
    assert_eq!(second, Rect { x: 1, y: 3, width: 60, height: 1 });
    assert_eq!(rest, Rect { x: 1, y: 4, width: 60, height: 8 });
}

#[test]
fn rows_of_what_is_on_disk() {
    let files = vec![SessionFile {
        path: "/s/x.jsonl".into(),
        stem: Some("x".into()),
        headless: false,
        note: None,
        size: 2048,
        modified: 5,
    }];
    let rows = session_rows(&files, "x");
    assert_eq!((rows[0].id.as_str(), rows[0].size_kb, rows[0].is_current), ("x", 2, true));
    let found = vec![MemoryFile {
        filename: "f".into(),
        name: "n".into(),
        description: "d".into(),
        mtype: "t".into(),
        size: 10,
        modified: 1,
    }];
    let mems = memory_rows(&found);
    assert_eq!(mems[0].desc, "d");
    let ui = SessionsUi::open(&files, &found, "x");
    assert_eq!(ui.rows_len(), 1);
    assert_eq!(strip_frontmatter("---\na\n---\nb"), "b");
    assert_eq!(strip_frontmatter("b"), "b");
}

#[test]
fn memory_scrolls_on_at_its_end() {
    let mut ui = fake_ui();
    ui.on_key(key(KeyCode::Tab));
    ui.show_memory("1\n2\n3");
    for code in [KeyCode::End, KeyCode::Down, KeyCode::PageDown] {
        ui.on_key(key(code));
        match ui.render(NOW, 80, 20) {
            Some(Page::Detail { scroll, .. }) => assert_eq!(scroll, 2),
            other => panic!("{other:?}"),
        }
    }
    ui.on_key(key(KeyCode::Home));
    ui.on_key(key(KeyCode::PageDown));
    assert!(matches!(ui.mode, Mode::Detail { offset: 15, .. }));
}

#[test]
fn manager_draws_nothing_that_a_terminal_obeys() {
    let mut ui = fake_ui();
    ui.sessions[0] = sess("a\x1b[2Ja", false, Some("\x1b[31mred\x1b[0m"));
    ui.mems[0] = mem("env", "na\x07me");
    match ui.render(NOW, 80, 20) {
        Some(Page::List { text, .. }) => {
            assert!(text.starts_with("[ ]▶「red」 aa · 1KB"), "{text}");
        }
        other => panic!("{other:?}"),
    }
    ui.on_key(key(KeyCode::Tab));
    match ui.render(NOW, 80, 20) {
        Some(Page::List { text, .. }) => {
            assert!(text.starts_with("[ ]▶ name — 关于name的记忆(project)"), "{text}");
        }
        other => panic!("{other:?}"),
    }
    ui.show_memory("a\x1b[1mb\n\x1b]0;t\x07c");
    match ui.render(NOW, 80, 20) {
        Some(Page::Detail { title, text, .. }) => {
            assert_eq!(title, " 记忆正文: name — 关于name的记忆  ");
            assert_eq!(text, "ab\nc");
        }
        other => panic!("{other:?}"),
    }
}

#[test]
fn current_session_outlives_any_keys() {
    let mut ui = fake_ui();
    let keys = [
        KeyCode::End, KeyCode::Char(' '), KeyCode::Char('x'), KeyCode::Char('d'), KeyCode::Char('y'),
        KeyCode::Home, KeyCode::Char(' '), KeyCode::Down, KeyCode::Char(' '), KeyCode::Char('y'),
        KeyCode::Char('d'), KeyCode::Char('n'),
    ];
    for code in keys {
        assert!(matches!(ui.on_key(key(code)), UiAction::Idle));
        assert_eq!(ui.sess_marks.len(), ui.sessions.len());
        assert!(!ui.sess_marks[2]);
    }
    assert_eq!(ui.sessions.len(), 3);
    ui.on_key(key(KeyCode::Char('d')));
    match ui.on_key(key(KeyCode::Char('Y'))) {
        UiAction::DeleteSessions(paths) => assert_eq!(paths, vec!["/s/aaa.jsonl", "/s/bbb.jsonl"]),
        other => panic!("{other:?}"),
    }
    ui.finish_delete(&vec![true, true]);
    assert_eq!(ui.sessions.len(), 1);
    assert!(ui.sessions[0].is_current);
    assert_eq!(ui.sess_marks, vec![false]);
}

#[test]
fn deletion_keeps_order_marks_and_the_other_page() {
    let mut ui = fake_ui();
    ui.mem_marks[1] = true;
    ui.cursor = 1;
    ui.on_key(key(KeyCode::Char('d')));
    assert!(matches!(ui.on_key(key(KeyCode::Char('y'))), UiAction::DeleteSessions(_)));
    ui.finish_delete(&vec![true]);
    let ids: Vec<&str> = ui.sessions.iter().map(|s| s.id.as_str()).collect();
    assert_eq!(ids, vec!["aaa", "ccc"]);
    assert_eq!(ui.sess_marks, vec![false, false]);
    assert_eq!(ui.mem_marks, vec![false, true]);
    ui.on_key(key(KeyCode::Tab));
    ui.on_key(key(KeyCode::Char('d')));
    assert!(matches!(ui.on_key(key(KeyCode::Char('y'))), UiAction::DeleteMemories(_)));
    ui.finish_delete(&vec![true]);
    assert_eq!(ui.mems[0].filename, "env");
    assert_eq!(ui.mem_marks, vec![false]);
    assert_eq!(ui.sessions.len(), 2);
}
