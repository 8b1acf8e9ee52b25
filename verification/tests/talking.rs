use znaide_tui::content::build_content_lines;
use znaide_tui::editor::length;
use znaide_tui::live::{cap_live_tail, last_n_lines, LIVE_CAP};
use znaide_tui::messages::{push_history_item, Calls, Card, ChatMessage, MsgItem, Role, ToolCall};
use znaide_tui::style::{Color, Line};
use znaide_tui::tool_args::{command_summary, plain_summary, tool_args_summary, Shape};
use znaide_tui::transcript::{
    collect_exit_stats, BusyKind, SessionEvent, TokenStats, Transcript,
};

fn talk() -> Transcript {
    Transcript::new(Vec::new(), String::new())
}

fn card(t: &Transcript, i: usize) -> &Card {
    match &t.items[i] {
        MsgItem::Tool(c) => c,
        _ => panic!("应是 Tool 卡片"),
    }
}

fn text_of(l: &Line) -> String {
    let mut s = String::new();
    for p in &l.spans {
        s.push_str(&p.content);
    }
    s
}

fn started(name: &str, args: &str, idle_ms: Option<u64>) -> SessionEvent {
    SessionEvent::ToolStarted { name: name.into(), args: args.into(), idle_ms }
}

#[test]
fn session_token_stats_accumulate() {
    let mut t = talk();
    t.handle_session_event(SessionEvent::TurnStarted, 0);
    assert!(t.busy);
    assert_eq!(t.busy_kind, BusyKind::Work);
    t.handle_session_event(SessionEvent::TextDelta("你好".into()), 0);
    assert_eq!(t.stats.round_est, 2);
    t.handle_session_event(SessionEvent::Usage { prompt: 100, completion: 40 }, 0);
    assert_eq!(t.stats.input, 100);
    assert_eq!(t.stats.output, 40);
    assert_eq!(t.stats.last_prompt, 100);
    assert_eq!(t.stats.round_est, 0);
    t.handle_session_event(
        SessionEvent::TurnFinished { text: String::new(), truncated: false },
        0,
    );
    assert!(!t.busy);
    assert_eq!(t.busy_kind, BusyKind::Work);

    t.handle_session_event(SessionEvent::TurnStarted, 0);
    t.handle_session_event(SessionEvent::TextDelta("hello world".into()), 0);
    assert_eq!(t.stats.round_est, 3);
    t.handle_session_event(
        SessionEvent::TurnFinished { text: String::new(), truncated: false },
        0,
    );
    assert_eq!(t.stats.round_est, 0);
    assert_eq!(t.stats.input, 100);
    assert_eq!(t.stats.output, 40);
}

#[test]
fn tool_card_tracks_budget_and_silent_alert() {
    let mut t = talk();
    t.handle_session_event(started("run_shell_command", "", Some(90_000)), 5_000);
    let c = card(&t, 0);
    assert_eq!(c.name, "run_shell_command");
    assert_eq!((c.ok, c.started.is_some(), c.idle_ms, c.silent), (None, true, Some(90_000), 0));

    for level in [1u8, 2, 0] {
        t.handle_session_event(
            SessionEvent::ToolSilentAlert { name: "run_shell_command".into(), level },
            5_000,
        );
        assert_eq!(card(&t, 0).silent, level);
    }

    t.handle_session_event(
        SessionEvent::ToolFinished {
            name: "run_shell_command".into(),
            ok: true,
            output: "done".into(),
        },
        12_900,
    );
    let c = card(&t, 0);
    assert_eq!(c.name, "run_shell_command");
    assert_eq!(
        (c.ok, c.started.is_some(), c.idle_ms, c.silent),
        (Some(true), true, Some(90_000), 0)
    );
    assert_eq!(c.done_secs, Some(7), "完成后应定格总用时");
    t.handle_session_event(
        SessionEvent::ToolSilentAlert { name: "run_shell_command".into(), level: 1 },
        13_000,
    );
    assert_eq!(card(&t, 0).silent, 0);
}

#[test]
fn tool_args_summary_shapes() {
    assert_eq!(tool_args_summary("run_shell_command", r#"{"command":"ls -la"}"#), "$ ls -la");
    assert_eq!(
        tool_args_summary("run_shell_command", r#"{"command":"pwd","cwd":"/tmp"}"#),
        "$ pwd  (cwd: /tmp)"
    );
    assert_eq!(
        tool_args_summary("read_file", r#"{"path":"src/main.rs"}"#),
        r#"{"path":"src/main.rs"}"#
    );
    assert_eq!(tool_args_summary("list_directory", "{}"), "");
    assert_eq!(tool_args_summary("list_directory", ""), "");
}

#[test]
fn arguments_that_hold_no_command_stay() {
    assert_eq!(tool_args_summary("run_shell_command", r#"{"command":""}"#), r#"{"command":""}"#);
    assert_eq!(tool_args_summary("run_shell_command", "not json"), "not json");
    assert_eq!(tool_args_summary("run_shell_command", r#"{"command":1}"#), r#"{"command":1}"#);
    assert_eq!(tool_args_summary("run_shell_command", "[]"), "[]");
    assert_eq!(
        tool_args_summary("run_shell_command", r#" {"command":"a\nb","cwd":""} "#),
        "$ a\nb"
    );
    assert_eq!(tool_args_summary("x", " null "), "");
    assert_eq!(tool_args_summary("x", "[]"), "[]");
    assert_eq!(tool_args_summary("x", "nul"), "nul");
}

#[test]
fn summaries_of_what_was_read() {
    let some = |s: &str| Some(s.to_string());
    assert_eq!(command_summary("raw", Some(Shape::Other), some("ls"), None), "$ ls");
    assert_eq!(command_summary("raw", Some(Shape::Other), some("ls"), some("")), "$ ls");
    assert_eq!(command_summary("raw", Some(Shape::Other), some("ls"), some("/")), "$ ls  (cwd: /)");
    assert_eq!(command_summary("raw", Some(Shape::Other), None, some("/")), "raw");
    assert_eq!(command_summary("{}", Some(Shape::Object(0)), None, None), "");
    assert_eq!(tool_args_summary("run_shell_command", "{}"), "");
    assert_eq!(tool_args_summary("run_shell_command", " null "), "");
    assert_eq!(tool_args_summary("run_shell_command", "{\"x\":1}"), "{\"x\":1}");
    assert_eq!(plain_summary("raw", None), "raw");
    assert_eq!(plain_summary("raw", Some(Shape::Null)), "");
    assert_eq!(plain_summary("raw", Some(Shape::Object(0))), "");
    assert_eq!(plain_summary("raw", Some(Shape::Object(1))), "raw");
    assert_eq!(plain_summary("raw", Some(Shape::Other)), "raw");
}

fn call(id: &str, name: &str, arguments: &str) -> ToolCall {
    ToolCall { id: id.into(), name: name.into(), arguments: arguments.into() }
}

fn message(role: Role, content: Option<&str>, calls: Vec<ToolCall>, id: Option<&str>) -> ChatMessage {
    ChatMessage {
        role,
        content: content.map(|s| s.to_string()),
        tool_calls: calls,
        tool_call_id: id.map(|s| s.to_string()),
    }
}

#[test]
fn history_tool_call_pairs_with_result() {
    let mut items = Vec::new();
    let mut calls = Calls::new();
    let asst = message(
        Role::Assistant,
        None,
        vec![call("c1", "run_shell_command", r#"{"command":"ls -la"}"#)],
        None,
    );
    push_history_item(&mut items, &asst, &mut calls);
    match &items[0] {
        MsgItem::Tool(c) => {
            assert_eq!(c.name, "run_shell_command");
            assert_eq!(c.args, r#"{"command":"ls -la"}"#);
            assert_eq!(c.ok, None);
            assert!(c.output.is_empty());
        }
        _ => panic!("声明先成待回填卡片"),
    }
    let tool = message(Role::Tool, Some("(命令退出码 0)"), Vec::new(), Some("c1"));
    push_history_item(&mut items, &tool, &mut calls);
    match &items[0] {
        MsgItem::Tool(c) => {
            assert_eq!(c.name, "run_shell_command");
            assert_eq!(c.args, r#"{"command":"ls -la"}"#);
            assert_eq!(c.ok, Some(true));
            assert_eq!(c.output, "(命令退出码 0)");
        }
        _ => panic!("应回填为一张完成卡片"),
    }
    assert_eq!(items.len(), 1);
}

#[test]
fn results_without_a_call_get_their_own_card() {
    let mut items = Vec::new();
    let mut calls = Calls::new();
    let tool = message(Role::Tool, None, Vec::new(), Some("c9"));
    push_history_item(&mut items, &tool, &mut calls);
    let asst = message(Role::Assistant, Some("说"), vec![call("c1", "edit", "{}")], None);
    push_history_item(&mut items, &asst, &mut calls);
    for _ in 0..2 {
        let t = message(Role::Tool, Some("r"), Vec::new(), Some("c1"));
        push_history_item(&mut items, &t, &mut calls);
    }
    push_history_item(&mut items, &message(Role::System, Some("s"), Vec::new(), None), &mut calls);
    push_history_item(&mut items, &message(Role::User, Some(""), Vec::new(), None), &mut calls);
    assert_eq!(items.len(), 4);
    let names: Vec<String> = items
        .iter()
        .map(|m| match m {
            MsgItem::Tool(c) => c.name.clone(),
            MsgItem::Assistant(t) => t.clone(),
            _ => String::new(),
        })
        .collect();
    assert_eq!(names, vec!["工具结果", "说", "edit", "edit"]);
}

#[test]
fn live_output_appends_then_clears_on_finish() {
    let mut t = talk();
    let delta = |d: &str| SessionEvent::ToolOutputDelta {
        name: "run_shell_command".into(),
        delta: d.into(),
    };
    t.handle_session_event(started("run_shell_command", "{}", None), 0);
    t.handle_session_event(delta("line1\n"), 0);
    t.handle_session_event(delta("line2\n"), 0);
    assert_eq!(card(&t, 0).ok, None);
    assert_eq!(card(&t, 0).live, "line1\nline2\n");
    t.handle_session_event(
        SessionEvent::ToolFinished {
            name: "run_shell_command".into(),
            ok: true,
            output: "done".into(),
        },
        0,
    );
    t.handle_session_event(delta("late\n"), 0);
    assert_eq!(card(&t, 0).ok, Some(true));
    assert!(card(&t, 0).live.is_empty(), "完成后实时区应清空回落");
}

#[test]
fn live_tail_helpers() {
    assert_eq!(last_n_lines("a\nb\nc", 2), "b\nc");
    assert_eq!(last_n_lines("a\nb\nc\n", 2), "b\nc");
    assert_eq!(last_n_lines("abc", 5), "abc");
    assert_eq!(last_n_lines("", 5), "");
    let mut s = "x".repeat(200_000);
    cap_live_tail(&mut s);
    assert!(s.len() <= 128 * 1024, "实时缓冲应封顶: {}", s.len());
    let mut s2 = "旧".repeat(100_000);
    s2.push_str("新尾巴");
    cap_live_tail(&mut s2);
    assert!(s2.ends_with("新尾巴"), "应保留最新内容");
}

#[test]
fn running_output_is_cut_to_half() {
    let mut s = "x".repeat(LIVE_CAP);
    cap_live_tail(&mut s);
    assert_eq!(length(&s), LIVE_CAP);
    s.push('y');
    cap_live_tail(&mut s);
    assert_eq!(s.len(), LIVE_CAP / 2);
    assert!(s.ends_with('y'));
}

#[test]
fn compaction_sets_busy_kind() {
    let mut t = talk();
    t.handle_session_event(SessionEvent::CompactionStarted, 0);
    assert!(t.busy);
    assert_eq!(t.busy_kind, BusyKind::Compacting);
    t.handle_session_event(
        SessionEvent::ContextCompacted { removed: 6, summary: "摘要".into(), kept: vec![] },
        0,
    );
    assert!(!t.busy);
    assert_eq!(t.busy_kind, BusyKind::Work);
    assert!(!t.items.is_empty());
}

#[test]
fn persona_changed_updates_display_state() {
    let mut t = talk();
    t.handle_session_event(SessionEvent::PersonaChanged { name: "毒舌损友".into() }, 0);
    assert_eq!(t.persona, "毒舌损友");
    t.handle_session_event(SessionEvent::PersonaChanged { name: String::new() }, 0);
    assert!(t.persona.is_empty(), "关闭人格应清空状态栏显示");
}

#[test]
fn answers_and_thoughts_go_on() {
    let mut t = talk();
    t.handle_session_event(SessionEvent::ReasoningDelta("想".into()), 0);
    t.handle_session_event(SessionEvent::ReasoningDelta("法".into()), 0);
    t.handle_session_event(SessionEvent::TextDelta("答".into()), 0);
    t.handle_session_event(SessionEvent::TextDelta("案".into()), 0);
    t.handle_session_event(
        SessionEvent::TurnFinished { text: "答案".into(), truncated: true },
        0,
    );
    assert_eq!(t.items.len(), 2);
    assert!(matches!(&t.items[0], MsgItem::Reasoning(s) if s == "想法"));
    assert!(matches!(&t.items[1], MsgItem::AssistantStream(s) if s == "答案\n[⚠ 未完成]"));
    let mut u = talk();
    u.handle_session_event(
        SessionEvent::PermissionRequest { title: "t".into(), body: "b".into() },
        0,
    );
    assert!(u.permission.is_some());
    u.handle_session_event(SessionEvent::TurnFinished { text: "x".into(), truncated: true }, 0);
    assert!(u.permission.is_none());
    assert!(matches!(&u.items[0], MsgItem::Assistant(s) if s == "[⚠ 未完成] x"));
}

#[test]
fn context_events_replace_what_is_shown() {
    let mut t = talk();
    t.handle_session_event(SessionEvent::Usage { prompt: 7, completion: 1 }, 0);
    t.handle_session_event(SessionEvent::Notice("n".into()), 0);
    t.handle_session_event(SessionEvent::SessionInfo { id: "s1".into() }, 0);
    t.handle_session_event(SessionEvent::ContextCleared, 0);
    assert_eq!(t.items.len(), 1);
    assert_eq!(t.stats.last_prompt, 0);
    assert_eq!(t.session_id, "s1");
    t.handle_session_event(
        SessionEvent::HistoryLoaded {
            count: 2,
            messages: vec![
                message(Role::User, Some("问"), Vec::new(), None),
                message(Role::Assistant, Some("答"), Vec::new(), None),
            ],
        },
        0,
    );
    assert_eq!(t.items.len(), 3);
    assert!(matches!(&t.items[0], MsgItem::Notice(s) if s.contains("2 条消息")));
    t.handle_session_event(
        SessionEvent::ContextCompacted {
            removed: 3,
            summary: "摘".into(),
            kept: vec![message(Role::User, Some("留"), Vec::new(), None)],
        },
        0,
    );
    assert_eq!(t.items.len(), 4);
    assert!(matches!(&t.items[3], MsgItem::User(s) if s == "留"));
}

#[test]
fn what_a_session_came_to() {
    let mut t = talk();
    t.items.push(MsgItem::User("a".into()));
    t.items.push(MsgItem::Assistant("b".into()));
    t.items.push(MsgItem::AssistantStream("c".into()));
    for (name, ok) in [
        ("run_shell_command", true),
        ("write_file", true),
        ("edit", true),
        ("read_file", true),
        ("edit", false),
    ] {
        t.handle_session_event(started(name, "", None), 0);
        t.handle_session_event(
            SessionEvent::ToolFinished { name: name.into(), ok, output: String::new() },
            0,
        );
    }
    let stats = TokenStats { input: 5, output: 6, last_prompt: 0, round_est: 9 };
    let r = collect_exit_stats(&t.items, "sid", &stats, 42, Some("/p".into()), 3);
    assert_eq!((r.user_msgs, r.assistant_msgs), (1, 2));
    assert_eq!((r.tool_calls, r.shell_calls, r.file_writes), (4, 1, 2));
    assert_eq!((r.tokens_in, r.tokens_out, r.uptime_secs), (5, 6, 42));
    assert_eq!((r.history.as_deref(), r.undo_snapshots), (Some("/p"), 3));
    let none = collect_exit_stats(&t.items, "", &stats, 42, Some("/p".into()), 3);
    assert_eq!((none.history, none.undo_snapshots), (None, 0));
}

#[test]
fn cards_show_time_and_budget() {
    let mut t = talk();
    t.handle_session_event(
        started("run_shell_command", r#"{"command":"sleep 9"}"#, Some(10_000)),
        1_000,
    );
    let draw = |t: &Transcript, now: u64| {
        build_content_lines(&t.items, t.busy, t.busy_kind, 80, 0, now)
    };
    let lines = draw(&t, 4_500);
    assert_eq!(text_of(&lines[0]), "  ▁ run_shell_command · 3s · 预算 10s");
    assert_eq!(lines[0].spans[0].style.fg, Some(Color::Blue));
    assert_eq!(text_of(&lines[1]), "      $ sleep 9");
    let over = draw(&t, 11_500);
    assert_eq!(
        text_of(&over[0]),
        "  ▁ run_shell_command · 10s · 预算 10s · 已超预算,宽限剩 1s"
    );
    t.handle_session_event(
        SessionEvent::ToolOutputDelta {
            name: "run_shell_command".into(),
            delta: (0..30).map(|i| format!("l{i}\n")).collect(),
        },
        2_000,
    );
    let live = draw(&t, 2_000);
    assert_eq!(text_of(&live[2]), "      ─────── 实时输出 ───────");
    assert_eq!(text_of(&live[3]), "      l20");
    assert_eq!(text_of(&live[12]), "      l29");
    assert_eq!(live.len(), 14);
    t.handle_session_event(
        SessionEvent::ToolFinished {
            name: "run_shell_command".into(),
            ok: false,
            output: "\x1b[31me\x1b[0m\n1\n2\n3\n4\n5".into(),
        },
        9_999,
    );
    let done = draw(&t, 50_000);
    assert_eq!(text_of(&done[0]), "  ✗ run_shell_command · 8s");
    assert_eq!(done[0].spans[0].style.fg, Some(Color::Red));
    assert_eq!(done.len(), 7);
    assert_eq!(done[2].spans[1].style.fg, Some(Color::Red));
    assert_eq!(text_of(&done[5]), "      3");
}

#[test]
fn message_area_of_each_item() {
    let items = vec![
        MsgItem::User("你好\n- a".into()),
        MsgItem::Assistant(String::new()),
        MsgItem::AssistantStream("ab".into()),
        MsgItem::Reasoning("x\ny".into()),
        MsgItem::Notice("n\nm".into()),
        MsgItem::CommandOutput("o".into()),
    ];
    let lines = build_content_lines(&items, true, BusyKind::Work, 40, 0, 0);
    let texts: Vec<String> = lines.iter().map(|l| text_of(l)).collect();
    assert_eq!(
        texts,
        vec![
            "❯ 你: 你好", "        - a", "", "", "", "ab▁", "", "… x", "y", "", "ℹ n", "   m", "",
            "o", "", "▁▄█▄ 思考执行中…(Esc 中断)",
        ]
    );
    let busy = build_content_lines(&Vec::new(), true, BusyKind::Compacting, 40, 2, 0);
    assert!(text_of(&busy[0]).starts_with("▉ 压缩中"));
}

#[test]
fn names_of_tools_hold_nothing_that_a_terminal_obeys() {
    let mut t = talk();
    t.handle_session_event(started("\x1b[31mls\n\x1b[2J", "", None), 0);
    let lines = build_content_lines(&t.items, false, BusyKind::Work, 80, 0, 1_000);
    assert_eq!(text_of(&lines[0]), "  ▁ ls · 1s");
}
