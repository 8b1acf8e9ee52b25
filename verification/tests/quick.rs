use znaide_tui::input::{KeyCode, KeyEvent};
use znaide_tui::quick_cfg::{
    parse_qc_alias, QcItem, QcStep, QuickCfgAction, QuickCfgPanel, SubmitKind,
};
use znaide_tui::settings::{
    parse_context_window_input, parse_max_turns_input, parse_retry_input, valid_base_url, Config,
    Endpoint, Host, ProviderDef, ProxyCheck, ProxyConfig, ProxyMode, RetryConfig, MAX_RETRIES,
};

const DEFAULT_MAX_TURNS: usize = 200;

fn host(typed: &str) -> Host {
    let proxy_check = if typed.starts_with("http://127.0.0.1:10808") {
        ProxyCheck::Normal("http://127.0.0.1:10808".into())
    } else if typed.starts_with("socks") {
        ProxyCheck::Refused("带凭据".into())
    } else {
        ProxyCheck::Malformed
    };
    Host {
        vars: vec![
            ("ZNAIDE_TEST_CFG_KEY".into(), "sk-from-env".into()),
            ("ZNAIDE_TEST_SWITCH_KEY".into(), "sk-env-switch".into()),
        ],
        env_proxy: None,
        env_proxy_shown: None,
        proxy_shown: Some("http://127.0.0.1:10808".into()),
        proxy_check,
        probe: "wizard-7".into(),
        default_turns: DEFAULT_MAX_TURNS,
    }
}

fn known() -> Vec<(String, String, String)> {
    vec![
        (
            "dashscope".into(),
            "https://dashscope.aliyuncs.com/compatible-mode/v1".into(),
            "qwen-plus".into(),
        ),
        ("deepseek".into(), "https://api.deepseek.com/v1".into(), "deepseek-chat".into()),
        ("ollama".into(), "http://127.0.0.1:11434/v1".into(), "qwen3:8b".into()),
    ]
}

fn config(name: &str, model: &str, url: &str) -> Config {
    Config {
        provider: Some(name.into()),
        api_key: None,
        max_turns: None,
        protocol: None,
        retry: RetryConfig::disabled(),
        proxy: ProxyConfig::auto(),
        resolved: Some(Endpoint {
            provider_name: name.into(),
            model: model.into(),
            base_url: url.into(),
        }),
        providers: Vec::new(),
    }
}

fn panel() -> QuickCfgPanel {
    QuickCfgPanel::new(known())
}

fn press(p: &mut QuickCfgPanel, code: KeyCode) -> QuickCfgAction {
    let h = host(&p.input_buf);
    p.on_key(KeyEvent::plain(code), &h)
}

fn panel_with_cfg() -> QuickCfgPanel {
    let mut p = panel();
    let mut providers: Vec<(String, ProviderDef)> = Vec::new();
    providers.push((
        "ollama".into(),
        ProviderDef {
            base_url: Some("http://localhost:11434/v1".into()),
            model: Some("qwen3:8b".into()),
            ..ProviderDef::empty()
        },
    ));
    let cfg = Config {
        max_turns: Some(300),
        retry: RetryConfig::enabled_with(5),
        providers,
        ..config("ollama", "qwen3:8b", "http://localhost:11434/v1")
    };
    p.apply_config(&cfg);
    p
}

/// 别名表全命中;未知别名→None(宿主落菜单+Notice)
#[test]
fn alias_table_hits() {
    assert_eq!(parse_qc_alias("retry"), Some(QcItem::Retry));
    assert_eq!(parse_qc_alias("重试"), Some(QcItem::Retry));
    assert_eq!(parse_qc_alias("window"), Some(QcItem::ContextWindow));
    assert_eq!(parse_qc_alias("CTX"), Some(QcItem::ContextWindow));
    assert_eq!(parse_qc_alias("上下文"), Some(QcItem::ContextWindow));
    assert_eq!(parse_qc_alias("turns"), Some(QcItem::MaxTurns));
    assert_eq!(parse_qc_alias("max-turns"), Some(QcItem::MaxTurns));
    assert_eq!(parse_qc_alias("MAX_TURNS"), Some(QcItem::MaxTurns));
    assert_eq!(parse_qc_alias("轮次"), Some(QcItem::MaxTurns));
    assert_eq!(parse_qc_alias("key"), Some(QcItem::ApiKey));
    assert_eq!(parse_qc_alias("API-KEY"), Some(QcItem::ApiKey));
    assert_eq!(parse_qc_alias("model"), Some(QcItem::Model));
    assert_eq!(parse_qc_alias("模型"), Some(QcItem::Model));
    assert_eq!(parse_qc_alias("url"), Some(QcItem::BaseUrl));
    assert_eq!(parse_qc_alias("base_url"), Some(QcItem::BaseUrl));
    assert_eq!(parse_qc_alias("端点"), Some(QcItem::BaseUrl));
    assert_eq!(parse_qc_alias("protocol"), Some(QcItem::Protocol));
    assert_eq!(parse_qc_alias("协议"), Some(QcItem::Protocol));
    assert_eq!(parse_qc_alias("provider"), Some(QcItem::Provider));
    assert_eq!(parse_qc_alias("服务商"), Some(QcItem::Provider));
    assert_eq!(
        parse_qc_alias("session_header"),
        Some(QcItem::SessionHeader)
    );
    assert_eq!(parse_qc_alias("会话头"), Some(QcItem::SessionHeader));
    assert_eq!(parse_qc_alias("乱七八糟"), None);
    assert_eq!(parse_qc_alias(""), None);
}

/// 代理别名命中
#[test]
fn proxy_alias_hits() {
    assert_eq!(parse_qc_alias("proxy"), Some(QcItem::Proxy));
    assert_eq!(parse_qc_alias("代理"), Some(QcItem::Proxy));
    assert_eq!(parse_qc_alias("网络代理"), Some(QcItem::Proxy));
    assert_eq!(parse_qc_alias("network_proxy"), Some(QcItem::Proxy));
    assert_eq!(parse_qc_alias("PROXY"), Some(QcItem::Proxy));
}

/// 数字三路(留空/0/非法/超限)与 confirm_typed 同语义
#[test]
fn number_parsing_matches_wizard() {
    assert_eq!(parse_context_window_input(""), Ok(None));
    assert_eq!(parse_context_window_input("  "), Ok(None));
    assert_eq!(parse_context_window_input("128000"), Ok(Some(128000)));
    assert!(parse_context_window_input("0").is_err());
    assert!(parse_context_window_input("12x").is_err());
    assert_eq!(parse_max_turns_input(""), Ok(None));
    assert_eq!(parse_max_turns_input("0"), Ok(Some(0)));
    assert_eq!(parse_max_turns_input("500"), Ok(Some(500)));
    assert!(parse_max_turns_input("abc").is_err());
    assert_eq!(parse_retry_input(""), Ok(RetryConfig::disabled()));
    assert_eq!(parse_retry_input("0"), Ok(RetryConfig::disabled()));
    assert_eq!(
        parse_retry_input("5"),
        Ok(RetryConfig::enabled_with(5))
    );
    assert_eq!(
        parse_retry_input("99"),
        Ok(RetryConfig::enabled_with(
            MAX_RETRIES
        ))
    );
    assert!(parse_retry_input("x").is_err());
    assert!(!valid_base_url("ftp://x"));
    assert!(valid_base_url("https://api.example.com/v1"));
}

/// key_from_env 守卫(不预填明文;手输后翻转)
#[test]
fn key_from_env_guard() {
    let mut providers: Vec<(String, ProviderDef)> = Vec::new();
    providers.push((
        "dashscope".into(),
        ProviderDef {
            base_url: Some("https://dashscope.aliyuncs.com/compatible-mode/v1".into()),
            model: Some("qwen-plus".into()),
            api_key_env: Some("DASHSCOPE_API_KEY".into()),
            ..ProviderDef::empty()
        },
    ));
    let cfg = Config {
        providers,
        ..config(
            "dashscope",
            "qwen-plus",
            "https://dashscope.aliyuncs.com/compatible-mode/v1",
        )
    };
    let mut p = panel();
    p.apply_config(&cfg);
    assert!(p.key_from_env);
    assert!(p.api_key.is_empty());
    assert!(p.key_display().contains("DASHSCOPE_API_KEY"));
    // 手输后翻转:保存会写明文
    p.step = QcStep::Edit(QcItem::ApiKey);
    p.typing = true;
    press(&mut p, KeyCode::Char('s'));
    press(&mut p, KeyCode::Char('k'));
    press(&mut p, KeyCode::Enter);
    assert!(!p.key_from_env);
    assert_eq!(p.api_key, "sk");
}

/// 默认收口矩阵(C1–C5+代理 验证,C6–C9 直接)
#[test]
fn default_submit_matrix() {
    for i in [
        QcItem::Provider,
        QcItem::Model,
        QcItem::Protocol,
        QcItem::ApiKey,
        QcItem::BaseUrl,
        // 代理填错 = 全网不通，必须验证（与 BaseUrl 同档）
        QcItem::Proxy,
    ] {
        assert_eq!(i.default_submit(), SubmitKind::Verified, "{:?}", i);
    }
    for i in [
        QcItem::ContextWindow,
        QcItem::MaxTurns,
        QcItem::Retry,
        QcItem::SessionHeader,
    ] {
        assert_eq!(i.default_submit(), SubmitKind::Direct, "{:?}", i);
    }
}

/// 菜单分发:回车进编辑,数字直达,Esc 退出;s/v 双收口
#[test]
fn menu_dispatch_and_submit() {
    let mut p = panel_with_cfg();
    assert_eq!(p.step, QcStep::Menu);
    // 数字直达:8→重试
    match press(&mut p, KeyCode::Char('8')) {
        QuickCfgAction::Idle => {}
        _ => panic!("数字应进编辑"),
    }
    assert_eq!(p.step, QcStep::Edit(QcItem::Retry));
    // Esc 回菜单
    match press(&mut p, KeyCode::Esc) {
        QuickCfgAction::Idle => {}
        _ => panic!("Esc 应回菜单"),
    }
    assert_eq!(p.step, QcStep::Menu);
    // 回车进游标项
    p.menu_cursor = QcItem::MaxTurns.index();
    match press(&mut p, KeyCode::Enter) {
        QuickCfgAction::Idle => {}
        _ => panic!("Enter 应进编辑"),
    }
    assert_eq!(p.step, QcStep::Edit(QcItem::MaxTurns));
    // s 直接提交
    match press(&mut p, KeyCode::Char('s')) {
        QuickCfgAction::Save(QcItem::MaxTurns) => {}
        _ => panic!("s 应直接提交"),
    }
    // v 验证后提交(进 Verifying)
    let mut p2 = panel_with_cfg();
    p2.step = QcStep::Edit(QcItem::Model);
    match press(&mut p2, KeyCode::Char('v')) {
        QuickCfgAction::Verify(_) => {}
        _ => panic!("v 应验证"),
    }
    assert!(matches!(p2.step, QcStep::Verifying { .. }));
    // Verifying 中 Esc 取消回编辑
    match press(&mut p2, KeyCode::Esc) {
        QuickCfgAction::Idle => {}
        _ => panic!("Esc 应取消"),
    }
    assert_eq!(p2.step, QcStep::Edit(QcItem::Model));
    // Menu 中 Esc 退出
    let mut p3 = panel_with_cfg();
    match press(&mut p3, KeyCode::Esc) {
        QuickCfgAction::Exit => {}
        _ => panic!("Menu Esc 应退出"),
    }
}

/// 重试档位游标即时落值;手动输入超限夹取
#[test]
fn retry_cursor_and_manual() {
    let mut p = panel_with_cfg();
    p.step = QcStep::Edit(QcItem::Retry);
    p.retry_cursor = 0;
    p.retry = RetryConfig::disabled();
    press(&mut p, KeyCode::Down);
    assert_eq!(p.retry, RetryConfig::enabled_with(3));
    // 手动输入 99→夹取 8
    p.retry_cursor = 4;
    press(&mut p, KeyCode::Enter);
    assert!(p.typing && p.typing_retry);
    for c in "99".chars() {
        press(&mut p, KeyCode::Char(c));
    }
    press(&mut p, KeyCode::Enter);
    assert_eq!(
        p.retry.max_retries,
        MAX_RETRIES
    );
}

/// 切家带出新家字段(防串家)
#[test]
fn switch_provider_isolated() {
    let mut providers: Vec<(String, ProviderDef)> = Vec::new();
    providers.push((
        "houseA".into(),
        ProviderDef {
            base_url: Some("http://a/v1".into()),
            model: Some("model-a".into()),
            api_key: Some("sk-a".into()),
            ..ProviderDef::empty()
        },
    ));
    providers.push((
        "houseB".into(),
        ProviderDef {
            base_url: Some("http://b/v1".into()),
            model: Some("model-b".into()),
            ..ProviderDef::empty()
        },
    ));
    let cfg = Config {
        providers,
        ..config("houseA", "model-a", "http://a/v1")
    };
    let mut p = panel();
    p.providers = vec![
        ("houseA".into(), "http://a/v1".into(), "model-a".into()),
        ("houseB".into(), "http://b/v1".into(), "model-b".into()),
    ];
    p.apply_config(&cfg);
    assert_eq!(p.model, "model-a");
    p.step = QcStep::Edit(QcItem::Provider);
    p.cursor = 1;
    press(&mut p, KeyCode::Enter);
    assert_eq!(p.provider, "houseB");
    assert_eq!(p.model, "model-b");
    assert!(p.api_key.is_empty());
}

/// 代理档位键（↑↓切三档即时落值；y→Auto/n→Off；Enter进手输；
/// 非法URL回填重输；空输入回Auto；数字键0直达第10项）
#[test]
fn proxy_cursor_keys_and_manual() {
    let mut p = panel_with_cfg();
    // 数字键 0 直达第 10 项
    match press(&mut p, KeyCode::Char('0')) {
        QuickCfgAction::Idle => {}
        _ => panic!("0 应直达第 10 项"),
    }
    assert_eq!(p.step, QcStep::Edit(QcItem::Proxy));
    // ↓ 切到直连即时落值
    press(&mut p, KeyCode::Down);
    assert_eq!(p.proxy_cursor, 1);
    assert_eq!(p.proxy.mode, ProxyMode::Off);
    // ↓ 切到手动（保持原 url）
    press(&mut p, KeyCode::Down);
    assert_eq!(p.proxy_cursor, 2);
    assert_eq!(p.proxy.mode, ProxyMode::Manual);
    // y 回跟随环境
    press(&mut p, KeyCode::Char('y'));
    assert_eq!(p.proxy.mode, ProxyMode::Auto);
    assert_eq!(p.proxy_cursor, 0);
    // n 到直连
    press(&mut p, KeyCode::Char('n'));
    assert_eq!(p.proxy.mode, ProxyMode::Off);
    // Enter 进手输
    press(&mut p, KeyCode::Enter);
    assert!(p.typing && p.typing_proxy);
    // 非法 URL 回填重输（仍在输入态）
    for c in "ftp://bad".chars() {
        press(&mut p, KeyCode::Char(c));
    }
    press(&mut p, KeyCode::Enter);
    assert!(p.typing && p.typing_proxy, "非法地址应回填重输");
    assert_eq!(p.input_buf, "ftp://bad");
    // Esc 退出输入态
    press(&mut p, KeyCode::Esc);
    assert!(!p.typing);
    // 合法地址进 Manual
    press(&mut p, KeyCode::Enter);
    for c in "http://127.0.0.1:10808/".chars() {
        press(&mut p, KeyCode::Char(c));
    }
    // input_buf 预填了现存 url（空），上面逐字追加后确认
    press(&mut p, KeyCode::Enter);
    assert_eq!(p.proxy.mode, ProxyMode::Manual);
    assert_eq!(p.proxy.url.as_deref(), Some("http://127.0.0.1:10808"));
    assert_eq!(p.proxy_cursor, 2);
    // 空输入回 Auto（进手输后清空预填再确认）
    press(&mut p, KeyCode::Enter);
    assert!(p.typing && p.typing_proxy);
    p.input_buf.clear();
    press(&mut p, KeyCode::Enter);
    assert_eq!(p.proxy.mode, ProxyMode::Auto);
}

fn drawn(p: &QuickCfgPanel) -> String {
    let mut out = String::new();
    for l in &p.render(&host("")) {
        for s in &l.spans {
            out.push_str(&s.content);
        }
        out.push('\n');
    }
    out
}

#[test]
fn keys_are_shown_by_their_ends() {
    let mut p = panel();
    assert_eq!(p.key_display(), "未设置(本地端点可留空)");
    p.api_key = "sk-secret-9876".into();
    assert!(p.key_display().contains("9876"));
    assert!(!p.key_display().contains("secret"));
    let mut q = panel();
    q.api_key = "other9876".into();
    for step in [QcStep::Menu, QcStep::Edit(QcItem::ApiKey), QcStep::Edit(QcItem::Model)] {
        p.step = step;
        q.step = step;
        assert_eq!(drawn(&p), drawn(&q));
    }
}

#[test]
fn every_setting_has_a_place() {
    for i in 0..10 {
        assert_eq!(QcItem::from_index(i).index(), i);
    }
}

#[test]
fn trials_end_in_the_editor_or_the_menu() {
    let mut p = panel_with_cfg();
    p.step = QcStep::Edit(QcItem::BaseUrl);
    press(&mut p, KeyCode::Char('v'));
    p.inject_verify_err(QcItem::BaseUrl, "超时".into());
    assert_eq!(p.step, QcStep::Edit(QcItem::BaseUrl));
    assert!(p.notice.contains("超时"));
    p.inject_saved(QcItem::BaseUrl, String::new());
    assert_eq!(p.step, QcStep::Menu);
    assert!(p.notice.contains(QcItem::BaseUrl.title()));
}

#[test]
fn models_that_arrive_keep_the_current_one() {
    let mut p = panel_with_cfg();
    p.step = QcStep::Edit(QcItem::Model);
    p.inject_models(Ok(vec!["a".into(), "qwen3:8b".into()]));
    assert_eq!(p.models[p.model_cursor], "qwen3:8b");
    p.inject_models(Ok(vec!["a".into(), "b".into()]));
    assert_eq!(p.models[p.model_cursor], "qwen3:8b");
}

#[test]
fn panel_opens_in_an_editor() {
    let cfg = config("ollama", "qwen3:8b", "http://localhost:11434/v1");
    let mut p = QuickCfgPanel::open_with(QcItem::Retry, known(), Some(&cfg));
    assert_eq!(p.step, QcStep::Edit(QcItem::Retry));
    assert_eq!(p.provider, "ollama");
    p.inject_verify_ok(QcItem::Model, "详情".into());
    assert_eq!(p.step, QcStep::Menu);
    assert!(p.notice.contains("详情"));
    assert!(QuickCfgPanel::open_menu(known(), None).provider.is_empty());
}

#[test]
fn failed_queries_lead_to_typing() {
    let mut p = panel_with_cfg();
    p.step = QcStep::Edit(QcItem::Model);
    p.model = "m1".into();
    p.inject_models(Err("x".into()));
    assert!(p.typing && p.input_buf == "m1" && p.models.is_empty());
    press(&mut p, KeyCode::Char('2'));
    press(&mut p, KeyCode::Enter);
    assert_eq!(p.model, "m12");
    p.step = QcStep::Menu;
    p.inject_models(Err("x".into()));
    assert_eq!(p.step, QcStep::Edit(QcItem::Model));
}

#[test]
fn aliases_are_spelled_freely() {
    for s in ["max-turns", "API-key", "Session_Header", "网络代理", "nothing", "\u{212a}ey", "ΑΣ-a", "é_b"] {
        let item = parse_qc_alias(s);
        assert_eq!(parse_qc_alias(&s.to_ascii_uppercase()), item);
        assert_eq!(parse_qc_alias(&s.replace('-', "_")), item);
        assert_eq!(parse_qc_alias(&s.replace('_', "-")), item);
        assert_eq!(parse_qc_alias(&format!(" \u{3000}{s}\t")), item);
    }
}

#[test]
fn panel_holds_nothing_that_a_terminal_obeys() {
    let mut p = panel();
    p.model = "m\x1b[31mx".into();
    assert!(drawn(&p).contains("mx"));
    assert!(!drawn(&p).contains('\x1b'));
}

#[test]
fn letters_that_become_ascii_make_aliases() {
    assert_eq!(parse_qc_alias("\u{212a}ey"), Some(QcItem::ApiKey));
    assert_eq!(parse_qc_alias("keyΣ"), None);
}
