use znaide_tui::agent::{
    compact_notice, failure_notice, history_notice, persona_notice, reconfigured_notice,
    server_notices,
};
use znaide_tui::chat::{Action, App, ConfirmAction};
use znaide_tui::command::{
    answer_deleted, answer_persona, answer_resume, answer_skill, answer_skills, answer_undo_list,
    answer_undone, handle_command, match_session, newer_version_text, parse_command,
    skill_list_text, update_text, Act, Answer, Command, Snapshot, UpdateResult, HELP_TEXT,
};
use znaide_tui::completion::Skill;
use znaide_tui::messages::MsgItem;
use znaide_tui::mode::Mode;

fn printed(a: &Answer) -> String {
    assert_eq!(a.items.len(), 1);
    match &a.items[0] {
        MsgItem::CommandOutput(t) => t.clone(),
        other => panic!("{other:?}"),
    }
}

fn noted(a: &Answer) -> String {
    match &a.items[0] {
        MsgItem::Notice(t) => t.clone(),
        other => panic!("{other:?}"),
    }
}

fn skill(name: &str, entry: bool) -> Skill {
    Skill {
        name: name.into(),
        description: "说明".into(),
        source: "用户级".into(),
        manual: true,
        entry,
    }
}

#[test]
fn slash_clear_asks_confirmation_first() {
    let mut app = App::start(Mode::Ask, String::new(), true, false, None);
    app.talk.items = vec![MsgItem::User("旧消息".into())];
    let r = app.take_answer(handle_command(parse_command("/clear")));
    assert!(matches!(r, Action::Idle));
    assert!(!app.talk.items.is_empty());
    assert!(app.confirm.is_some());
    match app.confirm.as_ref().map(|c| &c.action) {
        Some(ConfirmAction::ClearSession) => {}
        other => panic!("确认动作应为 ClearSession,got {other:?}"),
    }
}

#[test]
fn lines_become_commands() {
    assert!(matches!(parse_command("/help"), Command::Help));
    assert!(matches!(parse_command("  /skills  "), Command::Skills));
    assert!(matches!(parse_command("/undo"), Command::UndoList));
    assert!(matches!(parse_command("/undo 3"), Command::UndoAt(3)));
    assert!(matches!(parse_command("/undo x"), Command::UndoUsage));
    assert!(matches!(parse_command("/resume"), Command::OpenSessions));
    assert!(matches!(parse_command("/compact"), Command::Compact));
    assert!(matches!(parse_command("/quit"), Command::Quit));
    assert!(matches!(parse_command("/exit now"), Command::Quit));
    assert!(matches!(parse_command("/update"), Command::Update));
    assert!(matches!(parse_command("/persona"), Command::Persona(None)));
    match parse_command("/resume del 2") {
        Command::Resume { del: true, target: Some(t) } => assert_eq!(t, "2"),
        other => panic!("{other:?}"),
    }
    match parse_command("/resume abc") {
        Command::Resume { del: false, target: Some(t) } => assert_eq!(t, "abc"),
        other => panic!("{other:?}"),
    }
    match parse_command("//deploy  a   b") {
        Command::Skill { word, name, args } => {
            assert_eq!((word.as_str(), name.as_str(), args.as_str()), ("//deploy", "deploy", "a b"))
        }
        other => panic!("{other:?}"),
    }
}

#[test]
fn answers_without_a_lookup() {
    assert_eq!(printed(&handle_command(Command::Help)), HELP_TEXT);
    assert!(HELP_TEXT.starts_with("可用命令:\n  /help"));
    assert!(printed(&handle_command(Command::UndoUsage)).starts_with("用法:/undo"));
    let q = handle_command(Command::Quit);
    assert!(matches!(q.act, Act::Quit));
    assert_eq!(noted(&q), "正在退出…");
    assert!(matches!(handle_command(Command::Skills).act, Act::Ask(Command::Skills)));
    assert!(matches!(handle_command(Command::Update).act, Act::CheckUpdate));
    assert!(matches!(handle_command(Command::OpenSessions).act, Act::OpenSessions));
}

#[test]
fn list_of_skills() {
    let none: Vec<Skill> = Vec::new();
    assert_eq!(skill_list_text(&none, &Vec::new()), "");
    assert!(printed(&answer_skills(&none, &Vec::new())).starts_with("暂无已安装技能。"));
    let t = skill_list_text(&vec![skill("a", false)], &vec!["坏".to_string()]);
    assert!(t.contains("  /a — 说明(用户级) [仅手动]\n"));
    assert!(t.contains("  ⚠ 坏\n"));
    assert!(skill_list_text(&none, &vec!["坏".to_string()]).contains("(暂无可用技能)"));
}

#[test]
fn skills_are_called() {
    let found = Some((skill("a", false), "指令".to_string()));
    let a = answer_skill("/a", "x".into(), found, true);
    assert!(matches!(&a.act, Act::Task(t) if t == "指令"));
    assert_eq!(noted(&a), "▶ 技能「a」已触发: 说明(用户级)");
    let found = Some((skill("a", true), "指令".to_string()));
    let a = answer_skill("/a", "x".into(), found, true);
    assert!(matches!(&a.act, Act::RunSkill { name, args } if name == "a" && args == "x"));
    assert_eq!(a.items.len(), 2);
    let a = answer_skill("/zz", String::new(), None, true);
    assert_eq!(printed(&a), "未知命令: /zz\n输入 /help 查看内置命令\n输入 /skills 可查看已安装技能");
    let a = answer_skill("/zz", String::new(), None, false);
    assert_eq!(printed(&a), "未知命令: /zz\n输入 /help 查看内置命令");
}

#[test]
fn changes_are_listed_and_taken_back() {
    assert!(printed(&answer_undo_list(&Vec::new())).starts_with("暂无 undo 快照"));
    let snaps: Vec<Snapshot> = (0..21)
        .map(|i| Snapshot {
            action: "edit".into(),
            orig: format!("f{i}"),
            when: "1分钟前".into(),
            external: i == 0,
        })
        .collect();
    let t = printed(&answer_undo_list(&snaps));
    assert!(t.starts_with("undo 快照(最新在前,共 21):\n  1. edit — f0 (1分钟前) ·外部\n"));
    assert!(t.contains("  20. edit — f19 (1分钟前)\n"));
    assert!(!t.contains("f20"));
    assert!(t.ends_with("…(共 21 条,最新 20 条)\n"));
    assert_eq!(noted(&answer_undone(2, Ok(("f".into(), 99)))), "已回滚 #2: f ← 快照 99");
    assert_eq!(printed(&answer_undone(2, Err("坏".into()))), "回滚失败: 坏");
}

#[test]
fn sessions_are_found_by_number_or_part() {
    let paths: Vec<String> = ["/s/aaa.jsonl", "/s/bbb.jsonl"].iter().map(|s| s.to_string()).collect();
    assert_eq!(match_session(&paths, "2").as_deref(), Some("/s/bbb.jsonl"));
    assert_eq!(match_session(&paths, "0").as_deref(), Some("/s/aaa.jsonl"));
    assert_eq!(match_session(&paths, "3"), None);
    assert_eq!(match_session(&paths, "bb").as_deref(), Some("/s/bbb.jsonl"));
    assert_eq!(match_session(&paths, "zz"), None);
    assert_eq!(match_session(&vec!["/home/u/a.jsonl".to_string()], "home"), None);
    assert_eq!(match_session(&vec!["C:\\home\\a.jsonl".to_string()], "home"), None);
    let odd = vec!["/s/a\\b.jsonl".to_string()];
    assert_eq!(match_session(&odd, "a").as_deref(), Some("/s/a\\b.jsonl"));
    assert_eq!(match_session(&odd, "a\\b").as_deref(), Some("/s/a\\b.jsonl"));
    assert_eq!(match_session(&odd, "s/a"), None);
    let a = answer_resume(false, Some("aaa".into()), &paths);
    assert!(matches!(&a.act, Act::Load(p) if p == "/s/aaa.jsonl"));
    let a = answer_resume(true, Some("1".into()), &paths);
    assert!(matches!(&a.act, Act::Delete(p) if p == "/s/aaa.jsonl"));
    assert!(printed(&answer_resume(true, None, &paths)).starts_with("用法:/resume del"));
    assert!(printed(&answer_resume(true, None, &Vec::new())).starts_with("暂无历史会话"));
    assert_eq!(
        printed(&answer_resume(false, Some("zz".into()), &paths)),
        "未找到匹配「zz」的历史会话"
    );
    assert!(noted(&answer_deleted("/s/a", Ok(()))).ends_with("/s/a"));
    assert_eq!(printed(&answer_deleted("/s/a", Err("e".into()))), "删除失败: e");
}

#[test]
fn personas_are_listed_and_chosen() {
    let avail = vec!["甲".to_string(), "乙".to_string()];
    let t = printed(&answer_persona(None, &avail, ""));
    assert!(t.starts_with("人格设置(当前:无(默认助手),全局生效)\n\n可用人格:\n  /persona 甲\n"));
    assert!(printed(&answer_persona(None, &avail, "甲")).contains("(当前:「甲」,"));
    let a = answer_persona(Some("乙".into()), &avail, "");
    assert!(matches!(&a.act, Act::SetPersona(n) if n == "乙"));
    let a = answer_persona(Some("无".into()), &avail, "甲");
    assert!(matches!(&a.act, Act::SetPersona(n) if n == "无"));
    let a = answer_persona(Some("丙".into()), &avail, "");
    assert_eq!(printed(&a), "没有这个人格:「丙」。可用:甲、乙、无");
    let a = answer_persona(Some("丙".into()), &Vec::new(), "");
    assert_eq!(printed(&a), "没有这个人格:「丙」。可用:无");
}

#[test]
fn updates_are_reported() {
    assert_eq!(update_text(&UpdateResult::UpToDate, "1.0"), "已是最新版本 v1.0。");
    let r = UpdateResult::Updated { version: "2".into(), deferred: false };
    assert!(update_text(&r, "1").starts_with("✔ 已更新到 v2:"));
    let r = UpdateResult::Updated { version: "2".into(), deferred: true };
    assert!(update_text(&r, "1").starts_with("✔ 新版本 v2 已就位"));
    assert_eq!(update_text(&UpdateResult::CheckFailed("e".into()), "1"), "⚠ 检查更新失败: e");
    assert_eq!(update_text(&UpdateResult::DownloadFailed("e".into()), "1"), "⚠ 更新失败: e");
    assert_eq!(update_text(&UpdateResult::VerifyFailed("e".into()), "1"), "⚠ e");
    assert_eq!(
        newer_version_text("2", "1"),
        "发现新版本 v2(当前 v1)。输入 /update 立即更新,或忽略继续使用。"
    );
}

#[test]
fn notices_of_the_other_side() {
    let errors = vec![("a".to_string(), "x".to_string())];
    let names = vec!["b".to_string(), "c".to_string()];
    assert_eq!(server_notices(&errors, &names), vec!["⚠ MCP a: x", "🔌 MCP servers: b, c"]);
    assert!(server_notices(&Vec::new(), &Vec::new()).is_empty());
    assert_eq!(persona_notice(""), None);
    assert!(persona_notice("甲").unwrap().starts_with("人格:甲("));
    assert_eq!(reconfigured_notice("p", "m"), "✔ 配置已切换: p / m");
    assert!(history_notice(&Ok(3), "/h").starts_with("已恢复历史会话(3 条消息)"));
    assert_eq!(history_notice(&Err("e".into()), "/h"), "恢复历史失败: e");
    assert_eq!(compact_notice(&Ok(0)).as_deref(), Some("上下文还短,无需压缩。"));
    assert_eq!(compact_notice(&Ok(2)), None);
    assert_eq!(compact_notice(&Err("e".into())).as_deref(), Some("⚠ 上下文压缩失败: e"));
    assert_eq!(failure_notice("e"), "⚠ e");
}
