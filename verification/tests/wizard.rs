use znaide_tui::input::{KeyCode, KeyEvent};
use znaide_tui::config_ui::{model_window, SetupWizard, Step, WizardAction};
use znaide_tui::settings::{
    proxy_text, Config, EffectiveProxy, Endpoint, Host, ProtocolKind, ProviderDef, ProxyCheck,
    ProxyConfig, ProxyMode, RetryConfig,
};

const DEFAULT_MAX_TURNS: usize = 200;

fn host(typed: &str) -> Host {
    let proxy_check = if typed.starts_with("http://127.0.0.1:10808") {
        ProxyCheck::Normal("http://127.0.0.1:10808".into())
    } else if typed.starts_with("socks") {
        ProxyCheck::Refused("带凭据".into())
    } else {
        ProxyCheck::Malformed
    };
    Host {
        vars: vec![
            ("ZNAIDE_TEST_CFG_KEY".into(), "sk-from-env".into()),
            ("ZNAIDE_TEST_SWITCH_KEY".into(), "sk-env-switch".into()),
        ],
        env_proxy: None,
        env_proxy_shown: None,
        proxy_shown: Some("http://127.0.0.1:10808".into()),
        proxy_check,
        probe: "wizard-7".into(),
        default_turns: DEFAULT_MAX_TURNS,
    }
}

fn known() -> Vec<(String, String, String)> {
    vec![
        (
            "dashscope".into(),
            "https://dashscope.aliyuncs.com/compatible-mode/v1".into(),
            "qwen-plus".into(),
        ),
        ("deepseek".into(), "https://api.deepseek.com/v1".into(), "deepseek-chat".into()),
        ("ollama".into(), "http://127.0.0.1:11434/v1".into(), "qwen3:8b".into()),
    ]
}

fn config(name: &str, model: &str, url: &str) -> Config {
    Config {
        provider: Some(name.into()),
        api_key: None,
        max_turns: None,
        protocol: None,
        retry: RetryConfig::disabled(),
        proxy: ProxyConfig::auto(),
        resolved: Some(Endpoint {
            provider_name: name.into(),
            model: model.into(),
            base_url: url.into(),
        }),
        providers: Vec::new(),
    }
}

fn wizard() -> SetupWizard {
    SetupWizard::new(known())
}

fn press(w: &mut SetupWizard, code: KeyCode) -> WizardAction {
    let h = host(&w.input_buf);
    w.on_key(KeyEvent::plain(code), &h)
}

#[test]
fn starts_at_provider() {
    let w = wizard();
    assert_eq!(w.step, Step::Provider);
    assert!(!w.providers.is_empty());
    // 默认不读盘:轮数上限为空(用默认)
    assert_eq!(w.max_turns, None);
    assert_eq!(
        w.max_turns_label(&host("")),
        format!("默认({} 轮)", DEFAULT_MAX_TURNS)
    );
}

/// 轮数上限是独立一步(第 5 步):数字直接输入、0 = 不限、留空 = 默认、乱填报错重输
#[test]
fn max_turns_step_edits_and_verifies() {
    let mut w = wizard();
    w.provider = "ollama".into();
    w.model = "qwen3:8b".into();

    // API Key 那步按 Enter → 先到上下文窗口那步,再 Enter → 轮数上限那步
    w.step = Step::ApiKey;
    match press(&mut w, KeyCode::Enter) {
        WizardAction::Idle => {}
        _ => panic!("Enter 应进入下一步"),
    }
    assert_eq!(w.step, Step::ContextWindow);
    press(&mut w, KeyCode::Enter);
    assert_eq!(w.step, Step::MaxTurns);
    assert_eq!(
        w.max_turns_label(&host("")),
        format!("默认({} 轮)", DEFAULT_MAX_TURNS)
    );

    // 直接敲数字 5 就进输入(不用先按编辑键),继续敲 00 → 500
    press(&mut w, KeyCode::Char('5'));
    assert!(w.typing && w.typing_max_turns);
    assert_eq!(w.input_buf, "5");
    for c in "00".chars() {
        press(&mut w, KeyCode::Char(c));
    }
    press(&mut w, KeyCode::Enter);
    assert!(!w.typing && !w.typing_max_turns);
    assert_eq!(w.step, Step::MaxTurns, "提交后留在本步");
    assert_eq!(w.max_turns, Some(500));
    assert_eq!(w.max_turns_label(&host("")), "500 轮");

    // 再改成 0 = 不限,t 会预填当前值
    press(&mut w, KeyCode::Char('t'));
    assert_eq!(w.input_buf, "500");
    w.input_buf.clear();
    press(&mut w, KeyCode::Char('0'));
    press(&mut w, KeyCode::Enter);
    assert_eq!(w.max_turns, Some(0));
    assert_eq!(w.max_turns_label(&host("")), "不限");

    // 留空 = 回默认
    press(&mut w, KeyCode::Char('t'));
    w.input_buf.clear();
    press(&mut w, KeyCode::Enter);
    assert_eq!(w.max_turns, None);

    // 非法输入:留在 typing 并回填原串,不写入值
    press(&mut w, KeyCode::Char('t'));
    w.input_buf.clear();
    for c in "12x".chars() {
        press(&mut w, KeyCode::Char(c));
    }
    press(&mut w, KeyCode::Enter);
    assert!(w.typing && w.typing_max_turns);
    assert_eq!(w.input_buf, "12x");
    assert_eq!(w.max_turns, None);

    // Esc 退出输入:标记要清掉,免得下次输入被当成轮数
    press(&mut w, KeyCode::Esc);
    assert!(!w.typing && !w.typing_max_turns);
    assert_eq!(w.step, Step::MaxTurns, "Esc 只退输入,不退步骤");

    // 本步按 Enter → 弱网重试(带上当前轮数上限)
    w.max_turns = Some(300);
    assert!(matches!(press(&mut w, KeyCode::Enter), WizardAction::Idle));
    assert_eq!(w.step, Step::Retry);

    // 重试档位默认关闭；选 5 次后按 s → 网络代理
    assert_eq!(w.retry_label(), "关闭");
    press(&mut w, KeyCode::Down);
    press(&mut w, KeyCode::Down);
    assert!(w.retry.enabled && w.retry.max_retries == 5);
    assert!(matches!(
        press(&mut w, KeyCode::Char('s')),
        WizardAction::Idle
    ));
    assert_eq!(w.step, Step::Proxy);
    // 代理默认跟随环境；按 s → 验证
    assert_eq!(w.proxy.mode, ProxyMode::Auto);
    match press(&mut w, KeyCode::Char('s')) {
        WizardAction::Verify(r) => assert_eq!(r.model, "qwen3:8b"),
        _ => panic!("s 应触发验证"),
    }
    assert_eq!(w.step, Step::Verifying);

    // Esc 从验证回退到代理，再 Esc 回重试，再 Esc 回轮数上限
    press(&mut w, KeyCode::Esc);
    assert_eq!(w.step, Step::Proxy);
    press(&mut w, KeyCode::Esc);
    assert_eq!(w.step, Step::Retry);
    press(&mut w, KeyCode::Esc);
    assert_eq!(w.step, Step::MaxTurns);
}

/// 重开面板:已配置的值(服务商/模型/端点/Key/轮数)要带出来,游标落在当前服务商
#[test]
fn prefill_shows_existing_config() {
    let mut w = wizard();
    assert!(!w.has_configured(), "首次运行没有可展示的配置");
    let cfg = Config {
        api_key: Some("sk-x".into()),
        max_turns: Some(500),
        ..config("deepseek", "deepseek-chat", "https://api.deepseek.com/v1")
    };
    w.apply_config(&cfg);
    assert_eq!(w.provider, "deepseek");
    assert_eq!(w.model, "deepseek-chat");
    assert_eq!(w.base_url, "https://api.deepseek.com/v1");
    assert_eq!(w.api_key, "sk-x");
    assert_eq!(w.max_turns, Some(500));
    assert!(!w.key_from_env);
    assert!(w.has_configured());
    // 游标落在当前服务商上(列表里就能看出现在用的是哪个)
    if let Some(i) = w.providers.iter().position(|(n, _, _)| n == "deepseek") {
        assert_eq!(w.cursor, i);
    }
    // 直接 Enter 选同一个服务商:已配好的 key 不能被清掉
    press(&mut w, KeyCode::Enter);
    assert_eq!(w.api_key, "sk-x", "重选同一个服务商不该清掉已配的 key");
}

/// 用 api_key_env 的配置:key 不预填成明文(否则保存会写回文件),但要标出来源
#[test]
fn prefill_keeps_env_key_out_of_panel() {
    let var: &str = "ZNAIDE_TEST_CFG_KEY";
    let mut providers: Vec<(String, ProviderDef)> = Vec::new();
    providers.push((
        "testprov".into(),
        ProviderDef {
            base_url: Some("https://t/v1".into()),
            model: Some("m1".into()),
            api_key_env: Some(var.into()),
            api_key: None,
            context_window: None,
            protocol: None,
            session_header: false,
        },
    ));
    let cfg = Config {
        providers,
        ..config("testprov", "m1", "https://t/v1")
    };
    let mut w = wizard();
    w.apply_config(&cfg);
    assert!(w.api_key.is_empty(), "环境变量里的 key 不该被预填成明文");
    assert!(w.key_from_env, "要标出 key 来自环境变量");
    assert_eq!(w.model, "m1");
    assert_eq!(w.max_turns, None);
}

/// 粘贴只填充输入缓冲、不触发任何动作:多行/含尾换行压成单行,回车才算提交
#[test]
fn paste_fills_typing_buffer_without_triggering() {
    // 端点(custom 流程):粘贴带尾换行的 URL,不该把换行带进去
    let mut w = wizard();
    w.provider = "custom".into();
    w.step = Step::Provider;
    w.typing = true;
    w.input_buf.clear();
    assert!(w.paste_text("https://api.example.com/v1\r\n"));
    assert_eq!(w.input_buf, "https://api.example.com/v1");
    // 再粘一段是追加;多行粘贴的换行被丢掉(Key 这种长串最怕带换行)
    assert!(w.paste_text("sk-abc\ndef\r\ngh"));
    assert_eq!(w.input_buf, "https://api.example.com/v1sk-abcdefgh");
    assert!(w.typing, "粘贴不该结束输入态");
    assert_eq!(w.step, Step::Provider, "粘贴不该推进步骤");
    // 仍要按回车才提交(先到会话头选择，再确认才查模型)
    match press(&mut w, KeyCode::Enter) {
        WizardAction::Idle => {}
        _ => panic!("回车先到会话头选择"),
    }
    assert_eq!(w.step, Step::SessionHeader);
    match press(&mut w, KeyCode::Enter) {
        WizardAction::FetchModels { base_url, .. } => {
            assert_eq!(base_url, "https://api.example.com/v1sk-abcdefgh")
        }
        _ => panic!("确认后才触发查询"),
    }

    // API Key 输入态同样能粘
    let mut k = wizard();
    k.step = Step::ApiKey;
    k.typing = true;
    k.input_buf.clear();
    assert!(k.paste_text("sk-proj-1234567890\n"));
    assert_eq!(k.input_buf, "sk-proj-1234567890");

    // 非输入态(选择列表 / 等待验证)不接受粘贴
    let mut l = wizard();
    assert!(!l.paste_text("x"));
    assert!(l.input_buf.is_empty());
}

/// 配好 A、再配 B 之后切回 A,面板必须带出 **A 自己**的模型与 Key
#[test]
fn switching_back_loads_that_provider_settings() {
    let mut providers: Vec<(String, ProviderDef)> = Vec::new();
    providers.push((
        "deepseek".into(),
        ProviderDef {
            base_url: Some("https://api.deepseek.com/v1".into()),
            model: Some("deepseek-flash".into()),
            api_key: Some("sk-deepseek".into()),
            context_window: Some(1_048_576),
            ..ProviderDef::empty()
        },
    ));
    providers.push((
        "dashscope".into(),
        ProviderDef {
            base_url: Some("https://dashscope.aliyuncs.com/compatible-mode/v1".into()),
            model: Some("qwen-plus".into()),
            api_key: Some("sk-aliyun".into()),
            context_window: Some(40_960),
            ..ProviderDef::empty()
        },
    ));
    // 当前生效的是阿里云(用户刚配完)
    let cfg = Config {
        providers,
        ..config(
            "dashscope",
            "qwen-plus",
            "https://dashscope.aliyuncs.com/compatible-mode/v1",
        )
    };

    let mut w = wizard();
    w.apply_config(&cfg);
    assert_eq!(w.provider, "dashscope");
    assert_eq!(w.model, "qwen-plus");
    assert_eq!(w.api_key, "sk-aliyun");
    assert_eq!(w.context_window, Some(40_960), "窗口也是这家自己的");

    // 切回 deepseek:模型与 Key 都该换成 deepseek 自己的
    let ds = w
        .providers
        .iter()
        .position(|(n, _, _)| n == "deepseek")
        .expect("列表里应有 deepseek");
    w.cursor = ds;
    press(&mut w, KeyCode::Enter);
    assert_eq!(w.provider, "deepseek");
    assert_eq!(w.model, "deepseek-flash", "不能还留着阿里云的模型");
    assert_eq!(w.api_key, "sk-deepseek", "不能还留着阿里云的 Key");
    assert_eq!(
        w.base_url, "https://api.deepseek.com/v1",
        "端点要跟着服务商走"
    );
    assert_eq!(
        w.context_window,
        Some(1_048_576),
        "窗口不能沿用上一家的 40k"
    );
    assert!(!w.key_from_env, "明文 Key 不该被标成来自环境变量");
    assert!(w.models.is_empty(), "换家后旧模型列表要清掉");

    // 再切回阿里云,同样各归各家(切之前先把步骤拨回选择服务商)
    w.step = Step::Provider;
    let al = w
        .providers
        .iter()
        .position(|(n, _, _)| n == "dashscope")
        .unwrap();
    w.cursor = al;
    press(&mut w, KeyCode::Enter);
    assert_eq!(w.model, "qwen-plus");
    assert_eq!(w.api_key, "sk-aliyun");
    assert_eq!(w.context_window, Some(40_960));
}

/// 服务商给出的模型列表里没有"当前模型"时,保留它并置顶选中(避免回车被悄悄换掉)
#[test]
fn inject_models_keeps_current_model_on_top() {
    let mut w = wizard();
    w.provider = "deepseek".into();
    w.model = "deepseek-flash".into();
    w.step = Step::Querying;
    w.inject_models(Ok(vec!["deepseek-chat".into(), "deepseek-reasoner".into()]));
    assert_eq!(w.models.first().map(|s| s.as_str()), Some("deepseek-flash"));
    assert_eq!(w.model_cursor, 0, "当前模型应被选中");
    // 回车确认后仍是当前模型,没被列表第一项覆盖
    press(&mut w, KeyCode::Enter);
    assert_eq!(w.model, "deepseek-flash");
}

/// 条目没有明文 Key 但有 api_key_env:切过去时从环境变量取
#[test]
fn switching_provider_takes_key_from_env_when_no_plaintext() {
    let var: &str = "ZNAIDE_TEST_SWITCH_KEY";
    let mut providers: Vec<(String, ProviderDef)> = Vec::new();
    providers.push((
        "dashscope".into(),
        ProviderDef {
            base_url: Some("https://dashscope.aliyuncs.com/compatible-mode/v1".into()),
            model: Some("qwen-plus".into()),
            api_key_env: Some(var.into()),
            ..ProviderDef::empty()
        },
    ));
    let cfg = Config {
        providers,
        ..config("ollama", "qwen3:8b", "http://127.0.0.1:11434/v1")
    };
    let mut w = wizard();
    w.apply_config(&cfg);
    let al = w
        .providers
        .iter()
        .position(|(n, _, _)| n == "dashscope")
        .unwrap();
    w.cursor = al;
    press(&mut w, KeyCode::Enter);
    assert_eq!(w.model, "qwen-plus");
    assert_eq!(w.api_key, "sk-env-switch");
    assert!(w.key_from_env, "应标注为来自环境变量");
}

#[test]
fn select_provider_fetches_models() {
    let mut w = wizard();
    // 找到 deepseek(内置),Enter → 先到会话头选择(默认否)
    if let Some(i) = w.providers.iter().position(|(n, _, _)| n == "deepseek") {
        w.cursor = i;
    }
    match press(&mut w, KeyCode::Enter) {
        WizardAction::Idle => {}
        _ => panic!("选完供应商应先到会话头选择，不直接查模型"),
    }
    assert_eq!(w.step, Step::SessionHeader);
    assert_eq!(w.provider, "deepseek");
    assert!(!w.session_header);
    // 默认否 → Enter 确认后才查模型，且不带探针头
    match press(&mut w, KeyCode::Enter) {
        WizardAction::FetchModels {
            base_url,
            session_header,
            ..
        } => {
            assert!(base_url.contains("deepseek"));
            assert!(session_header.is_none(), "开关关 → 查询不带头");
        }
        _ => panic!("应触发模型查询"),
    }
    assert_eq!(w.step, Step::Querying);
    assert_eq!(w.provider, "deepseek");
}

/// 会话头步骤:Provider Enter → SessionHeader;Y 开/N 关/↑↓切;Enter 确认后查模型;
/// 开时 FetchModels 带 wizard- 探针头;draft 带出开关;Esc 逐级回退
#[test]
fn session_header_step_flow() {
    let mut w = wizard();
    if let Some(i) = w.providers.iter().position(|(n, _, _)| n == "deepseek") {
        w.cursor = i;
    }
    press(&mut w, KeyCode::Enter);
    assert_eq!(w.step, Step::SessionHeader);
    // j 切到否(默认已是否)，k 切回是
    press(&mut w, KeyCode::Char('k'));
    assert!(w.session_header);
    assert_eq!(w.session_cursor, 0);
    press(&mut w, KeyCode::Char('j'));
    assert!(!w.session_header);
    // Y 直达是 → 直接查模型且带探针头
    match press(&mut w, KeyCode::Char('y')) {
        WizardAction::FetchModels { session_header, .. } => {
            let v = session_header.expect("开 → 查询带探针头");
            assert!(v.starts_with("wizard-"), "got: {v}");
        }
        _ => panic!("Y 应确认并查模型"),
    }
    assert!(w.session_header);
    assert_eq!(w.step, Step::Querying);
    // Esc 回到会话头选择
    press(&mut w, KeyCode::Esc);
    assert_eq!(w.step, Step::SessionHeader);
    // N 直达否 → 查模型不带头
    match press(&mut w, KeyCode::Char('N')) {
        WizardAction::FetchModels { session_header, .. } => {
            assert!(session_header.is_none());
        }
        _ => panic!("N 应确认并查模型"),
    }
    assert!(!w.session_header);
    // draft 带出开关
    assert!(!w.draft(&host("")).session_header_enabled);
}

/// 换家带开关:A 家开 → 切 B 家(关)不串家;draft 同步
#[test]
fn switching_provider_carries_session_header() {
    let mut providers: Vec<(String, ProviderDef)> = Vec::new();
    providers.push((
        "a".into(),
        ProviderDef {
            model: Some("ma".into()),
            session_header: true,
            ..ProviderDef::empty()
        },
    ));
    providers.push((
        "b".into(),
        ProviderDef {
            model: Some("mb".into()),
            ..ProviderDef::empty()
        },
    ));
    let mut w = wizard();
    w.provider_defs = providers;
    w.apply_provider_defaults("a", &host(""));
    assert!(w.session_header);
    assert_eq!(w.session_cursor, 0);
    assert!(w.draft(&host("")).session_header_enabled);
    w.apply_provider_defaults("b", &host(""));
    assert!(!w.session_header);
    assert_eq!(w.session_cursor, 1);
    assert!(!w.draft(&host("")).session_header_enabled);
}

/// apply_config 从条目带出开关
#[test]
fn apply_config_carries_session_header() {
    let mut providers: Vec<(String, ProviderDef)> = Vec::new();
    providers.push((
        "a".into(),
        ProviderDef {
            base_url: Some("https://a/v1".into()),
            model: Some("ma".into()),
            session_header: true,
            ..ProviderDef::empty()
        },
    ));
    let cfg = Config {
        providers,
        ..config("a", "ma", "https://a/v1")
    };
    let mut w = wizard();
    w.apply_config(&cfg);
    assert!(w.session_header);
    assert!(w.draft(&host("")).session_header_enabled);
}

#[test]
fn model_injection_then_protocol_step() {
    let mut w = wizard();
    w.provider = "ollama".into();
    w.step = Step::Querying;
    w.inject_models(Ok(vec!["qwen3:8b".into(), "llama3".into()]));
    assert_eq!(w.step, Step::ModelSelect);
    assert_eq!(w.models.len(), 2);
    // 选第二个模型
    w.model_cursor = 1;
    match press(&mut w, KeyCode::Enter) {
        WizardAction::Idle => {}
        _ => panic!(),
    }
    assert_eq!(w.model, "llama3");
    // 选完模型先到协议选择(默认 chat),不再直达 ApiKey
    assert_eq!(w.step, Step::ProtocolSelect);
    assert_eq!(w.protocol, ProtocolKind::Chat);
    assert_eq!(w.protocol_cursor, 0);
}

/// 协议步骤全流程:ModelSelect Enter → ProtocolSelect;j 切 response;
/// Enter → ApiKey;Esc 逐级回退;draft 带出协议;apply_config 预填落在已存值
#[test]
fn protocol_step_flow() {
    let mut w = wizard();
    w.provider = "ollama".into();
    w.step = Step::Querying;
    w.inject_models(Ok(vec!["qwen3:8b".into()]));
    press(&mut w, KeyCode::Enter);
    assert_eq!(w.step, Step::ProtocolSelect);

    // j 切到 response(所见即所得,移动即赋值)
    press(&mut w, KeyCode::Char('j'));
    assert_eq!(w.protocol, ProtocolKind::Response);
    assert_eq!(w.protocol_cursor, 1);
    // k 切回 chat
    press(&mut w, KeyCode::Char('k'));
    assert_eq!(w.protocol, ProtocolKind::Chat);
    press(&mut w, KeyCode::Char('j'));
    assert_eq!(w.protocol, ProtocolKind::Response);

    // Enter → ApiKey;draft 带出协议
    press(&mut w, KeyCode::Enter);
    assert_eq!(w.step, Step::ApiKey);
    assert_eq!(w.draft(&host("")).protocol, ProtocolKind::Response);

    // Esc 回 ProtocolSelect(保留 response),再 Esc 回 ModelSelect
    press(&mut w, KeyCode::Esc);
    assert_eq!(w.step, Step::ProtocolSelect);
    assert_eq!(w.protocol, ProtocolKind::Response);
    press(&mut w, KeyCode::Esc);
    assert_eq!(w.step, Step::ModelSelect);

    // apply_config 预填落在已存值上
    let mut providers: Vec<(String, ProviderDef)> = Vec::new();
    providers.push((
        "ollama".into(),
        ProviderDef {
            base_url: Some("http://127.0.0.1:11434/v1".into()),
            model: Some("qwen3:8b".into()),
            protocol: Some(ProtocolKind::Response),
            ..ProviderDef::empty()
        },
    ));
    let cfg = Config {
        providers,
        ..config("ollama", "qwen3:8b", "http://127.0.0.1:11434/v1")
    };
    let mut w2 = wizard();
    w2.apply_config(&cfg);
    assert_eq!(w2.protocol, ProtocolKind::Response);
    assert_eq!(w2.protocol_cursor, 1);
    assert_eq!(w2.draft(&host("")).protocol, ProtocolKind::Response);
}

#[test]
fn query_failure_allows_manual_model() {
    let mut w = wizard();
    w.provider = "custom".into();
    w.step = Step::Querying;
    w.inject_models(Err("网络错误".into()));
    assert_eq!(w.step, Step::ModelSelect);
    assert!(w.typing); // 进入手输
                       // 直接输入模型名
    for c in "my-model".chars() {
        press(&mut w, KeyCode::Char(c));
    }
    press(&mut w, KeyCode::Enter);
    assert_eq!(w.model, "my-model");
    assert_eq!(w.step, Step::ProtocolSelect);
}

#[test]
fn custom_provider_enters_endpoint() {
    let mut w = wizard();
    // custom 是最后一个
    w.cursor = w.providers.len() - 1;
    press(&mut w, KeyCode::Enter);
    assert!(w.typing); // 等待输入端点
                       // 非法端点被拒绝
    for c in "not-a-url".chars() {
        press(&mut w, KeyCode::Char(c));
    }
    press(&mut w, KeyCode::Enter);
    assert!(w.typing); // 仍在输入(校验失败)
    assert!(w.notice.contains("http"));
    // Backspace 清空(not-a-url 共 9 字符)
    for _ in 0..9 {
        press(&mut w, KeyCode::Backspace);
    }
    for c in "http://127.0.0.1:11434/v1".chars() {
        press(&mut w, KeyCode::Char(c));
    }
    // 端点提交后先到会话头选择(不直接查模型)
    match press(&mut w, KeyCode::Enter) {
        WizardAction::Idle => {}
        _ => panic!("custom 端点提交后应先到会话头选择"),
    }
    assert_eq!(w.step, Step::SessionHeader);
    assert_eq!(w.base_url, "http://127.0.0.1:11434/v1");
    // 确认(默认否)后才查模型
    match press(&mut w, KeyCode::Enter) {
        WizardAction::FetchModels { base_url, .. } => {
            assert_eq!(base_url, "http://127.0.0.1:11434/v1");
        }
        _ => panic!("应触发模型查询"),
    }
}

#[test]
fn api_key_edit_and_verify() {
    let mut w = wizard();
    w.provider = "deepseek".into();
    w.model = "deepseek-chat".into();
    w.step = Step::ApiKey;
    // e 编辑 key
    press(&mut w, KeyCode::Char('e'));
    assert!(w.typing);
    for c in "sk-test-123".chars() {
        press(&mut w, KeyCode::Char(c));
    }
    press(&mut w, KeyCode::Enter);
    assert_eq!(w.api_key, "sk-test-123");
    // s 验证
    match press(&mut w, KeyCode::Char('s')) {
        WizardAction::Verify(r) => {
            assert_eq!(r.model, "deepseek-chat");
            assert_eq!(r.api_key.as_deref(), Some("sk-test-123"));
        }
        _ => panic!("应触发验证"),
    }
    assert_eq!(w.step, Step::Verifying);
}

#[test]
fn verify_result_updates_notice() {
    let mut w = wizard();
    w.step = Step::Verifying;
    w.inject_verify(false, "401 Unauthorized".into());
    assert_eq!(w.step, Step::ApiKey);
    assert!(w.notice.contains("401"));
}

/// 上下文窗口是独立一步(第 4 步):填正整数 = 固定值,留空 = 自动识别(内置表/未知)
#[test]
fn context_window_step_edits_and_verifies() {
    let mut w = wizard();
    w.provider = "deepseek".into();
    w.model = "deepseek-flash".into();
    w.step = Step::ContextWindow;
    assert_eq!(w.context_window, None);
    assert!(w.context_window_label().contains("自动"));

    // 直接敲数字就进输入(不用先按编辑键),继续敲完 → 1048576
    press(&mut w, KeyCode::Char('1'));
    assert!(w.typing && w.typing_context_window);
    assert_eq!(w.input_buf, "1");
    for c in "048576".chars() {
        press(&mut w, KeyCode::Char(c));
    }
    press(&mut w, KeyCode::Enter);
    assert!(!w.typing && !w.typing_context_window);
    assert_eq!(w.step, Step::ContextWindow, "提交后留在本步");
    assert_eq!(w.context_window, Some(1_048_576));
    assert!(w.context_window_label().contains('M'));

    // t 预填当前值,改成小窗口(40k 的本地模型典型值)
    press(&mut w, KeyCode::Char('t'));
    assert_eq!(w.input_buf, "1048576");
    w.input_buf.clear();
    for c in "40960".chars() {
        press(&mut w, KeyCode::Char(c));
    }
    press(&mut w, KeyCode::Enter);
    assert_eq!(w.context_window, Some(40_960));
    assert!(w.context_window_label().contains("40k"));

    // 留空 = 回到"自动"(按模型名查内置表)
    press(&mut w, KeyCode::Char('t'));
    w.input_buf.clear();
    press(&mut w, KeyCode::Enter);
    assert_eq!(w.context_window, None);

    // 非法输入(0 / 非数字):不写入,留输入态并回填原串
    for bad in ["0", "abc"] {
        press(&mut w, KeyCode::Char('t'));
        w.input_buf.clear();
        for c in bad.chars() {
            press(&mut w, KeyCode::Char(c));
        }
        press(&mut w, KeyCode::Enter);
        assert!(w.typing && w.typing_context_window, "{bad} 应留在输入态");
        assert_eq!(w.input_buf, bad);
        assert_eq!(w.context_window, None, "{bad} 不是有效窗口,不该写入");
        press(&mut w, KeyCode::Esc);
        assert!(
            !w.typing && !w.typing_context_window,
            "Esc 要清掉窗口输入标记"
        );
    }

    // 本步 Enter → 轮数上限;draft 带上窗口(保存路径要用它)
    w.context_window = Some(131_072);
    press(&mut w, KeyCode::Enter);
    assert_eq!(w.step, Step::MaxTurns);
    assert_eq!(w.draft(&host("")).context_window, Some(131_072));

    // Esc 链:验证 → 网络代理 → 弱网重试 → 轮数上限 → 上下文窗口
    w.step = Step::Verifying;
    press(&mut w, KeyCode::Esc);
    assert_eq!(w.step, Step::Proxy);
    press(&mut w, KeyCode::Esc);
    assert_eq!(w.step, Step::Retry);
    press(&mut w, KeyCode::Esc);
    assert_eq!(w.step, Step::MaxTurns);
    press(&mut w, KeyCode::Esc);
    assert_eq!(w.step, Step::ContextWindow);
}

/// 全向导代理步骤链（Retry -Enter→ Proxy -s→ Verifying -Esc→ Proxy -Esc→ Retry；
/// 档位键/手输/回退与 quick_cfg 同口径）
#[test]
fn proxy_step_chain_edits_and_verifies() {
    let mut w = wizard();
    w.provider = "ollama".into();
    w.model = "qwen3:8b".into();
    w.step = Step::Retry;
    // Enter → 代理步
    assert!(matches!(press(&mut w, KeyCode::Enter), WizardAction::Idle));
    assert_eq!(w.step, Step::Proxy);
    // ↓ 到直连即时落值
    press(&mut w, KeyCode::Down);
    assert_eq!(w.proxy.mode, ProxyMode::Off);
    assert_eq!(w.draft(&host("")).proxy, EffectiveProxy::Direct);
    // y 回跟随环境
    press(&mut w, KeyCode::Char('y'));
    assert_eq!(w.proxy.mode, ProxyMode::Auto);
    // 手输合法地址进 Manual（draft 落定带上待存代理）
    press(&mut w, KeyCode::Char('e'));
    assert!(w.typing && w.typing_proxy);
    for c in "http://127.0.0.1:10808".chars() {
        press(&mut w, KeyCode::Char(c));
    }
    press(&mut w, KeyCode::Enter);
    assert_eq!(w.proxy.mode, ProxyMode::Manual);
    assert_eq!(
        w.draft(&host("")).proxy,
        EffectiveProxy::Via("http://127.0.0.1:10808".into())
    );
    // s → 验证（探针走待存代理）
    match press(&mut w, KeyCode::Char('s')) {
        WizardAction::Verify(r) => assert_eq!(
            r.proxy,
            EffectiveProxy::Via("http://127.0.0.1:10808".into())
        ),
        _ => panic!("s 应触发验证"),
    }
    assert_eq!(w.step, Step::Verifying);
    // Esc 回代理，再 Esc 回重试
    press(&mut w, KeyCode::Esc);
    assert_eq!(w.step, Step::Proxy);
    press(&mut w, KeyCode::Esc);
    assert_eq!(w.step, Step::Retry);
}

fn drawn(w: &SetupWizard) -> String {
    let mut out = String::new();
    for l in &w.render(&host("")) {
        for s in &l.spans {
            out.push_str(&s.content);
        }
        out.push('\n');
    }
    out
}

#[test]
fn keys_are_never_drawn() {
    let mut w = wizard();
    let mut k = wizard();
    w.api_key = "sk-secret-one".into();
    k.api_key = "another".into();
    for step in [Step::Provider, Step::ModelSelect, Step::ApiKey, Step::MaxTurns, Step::Proxy] {
        w.step = step;
        k.step = step;
        assert_eq!(drawn(&w), drawn(&k));
        assert!(!drawn(&w).contains("secret"));
    }
}

#[test]
fn refused_texts_are_given_back() {
    let mut w = wizard();
    w.step = Step::Retry;
    w.typing = true;
    w.typing_retry = true;
    w.input_buf = "x".into();
    press(&mut w, KeyCode::Enter);
    assert!(w.typing && w.typing_retry);
    assert_eq!(w.input_buf, "x");
    assert_eq!(w.retry, RetryConfig::disabled());
    w.input_buf = "99".into();
    press(&mut w, KeyCode::Enter);
    assert_eq!(w.retry.max_retries, 8);
    w.step = Step::Proxy;
    w.typing = true;
    w.typing_proxy = true;
    w.input_buf = "socks5://u:p@h".into();
    press(&mut w, KeyCode::Enter);
    assert!(w.typing && w.typing_proxy);
    assert!(w.notice.contains("带凭据"));
    assert_eq!(w.proxy.mode, ProxyMode::Auto);
}

#[test]
fn first_step_is_left_by_esc() {
    let mut w = wizard();
    assert!(matches!(press(&mut w, KeyCode::Esc), WizardAction::Exit));
}

#[test]
fn long_lists_of_models_are_shown_in_part() {
    assert_eq!(model_window(10, 3), (0, 10));
    assert_eq!(model_window(100, 0), (0, 25));
    assert_eq!(model_window(100, 99), (75, 25));
    for c in 0..100 {
        let (first, count) = model_window(100, c);
        assert!(first <= c && c < first + count);
    }
}

#[test]
fn global_settings_stay_with_another_provider() {
    let mut w = wizard();
    w.max_turns = Some(7);
    w.retry = RetryConfig::enabled_with(3);
    w.apply_provider_defaults("deepseek", &host(""));
    assert_eq!(w.max_turns, Some(7));
    assert_eq!(w.retry, RetryConfig::enabled_with(3));
}

#[test]
fn proxies_are_named() {
    let h = host("");
    assert_eq!(proxy_text(&ProxyConfig::auto(), &h), "跟随环境(当前直连)");
    let off = ProxyConfig { mode: ProxyMode::Off, url: None };
    assert_eq!(proxy_text(&off, &h), "直连(忽略环境代理)");
}

#[test]
fn wizard_holds_nothing_that_a_terminal_obeys() {
    let mut w = wizard();
    w.notice = "a\x1b[2Jb\x07c".into();
    assert!(drawn(&w).contains("abc"));
    assert!(!drawn(&w).contains('\x1b'));
}

#[test]
fn wizard_without_providers_can_be_left() {
    let mut w = SetupWizard::new(Vec::new());
    press(&mut w, KeyCode::Down);
    assert_eq!((w.step, w.cursor), (Step::Provider, 0));
    assert!(matches!(press(&mut w, KeyCode::Esc), WizardAction::Exit));
    w.step = Step::ApiKey;
    press(&mut w, KeyCode::Esc);
    assert_ne!(w.step, Step::ApiKey);
}
