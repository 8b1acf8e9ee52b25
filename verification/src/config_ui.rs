//! The setup wizard: provider, session header, model, protocol, key, context
//! window, turns, retries, proxy, trial.
//!
//! A key press moves the wizard on and says what its host has to do; the host
//! brings the outcome back through [`SetupWizard::inject_models`] and
//! [`SetupWizard::inject_verify`].
use crate::input;
use crate::input::{KeyCode, KeyEvent};
use crate::scan;
use crate::settings;
use crate::settings::{
    Config, ConfigView, DefView, EffectiveProxy, EffectiveView, Host, HostView, ProtocolKind,
    ProviderDef, ProxyCheck, ProxyConfig, ProxyMode, ProxyView, Resolved, ResolvedView,
    RetryConfig,
};
use crate::text;
use vstd::prelude::*;

verus! {

/// A step of the wizard.
#[derive(Clone, Copy, Debug, PartialEq, Eq, Structural)]
pub enum Step {
    /// Choosing a provider.
    Provider,
    /// Whether requests carry a stable session header.
    SessionHeader,
    /// The host is asking for the list of models.
    Querying,
    /// Choosing a model, or typing one in.
    ModelSelect,
    /// Choosing the protocol.
    ProtocolSelect,
    /// The API key.
    ApiKey,
    /// The context window in tokens.
    ContextWindow,
    /// The limit of turns per message.
    MaxTurns,
    /// Retries on a weak network.
    Retry,
    /// The network proxy.
    Proxy,
    /// The host is trying the connection.
    Verifying,
}

/// How many models are shown at once.
pub const MODEL_WINDOW: usize = 25;

/// What the host has to do.
#[derive(Debug)]
pub enum WizardAction {
    /// Nothing.
    Idle,
    /// Ask for the list of models.
    FetchModels {
        base_url: String,
        api_key: Option<String>,
        session_header: Option<String>,
        proxy: EffectiveProxy,
    },
    /// Try the connection.
    Verify(Resolved),
    /// Leave the wizard.
    Exit,
}

/// What an action says.
pub enum ActionView {
    Idle,
    FetchModels {
        base_url: Seq<char>,
        api_key: Option<Seq<char>>,
        session_header: Option<Seq<char>>,
        proxy: EffectiveView,
    },
    Verify(ResolvedView),
    Exit,
}

impl View for WizardAction {
    type V = ActionView;

    open spec fn view(&self) -> ActionView {
        match self {
            WizardAction::Idle => ActionView::Idle,
            WizardAction::FetchModels { base_url, api_key, session_header, proxy } => {
                ActionView::FetchModels {
                    base_url: base_url@,
                    api_key: settings::opt_text(*api_key),
                    session_header: settings::opt_text(*session_header),
                    proxy: proxy@,
                }
            },
            WizardAction::Verify(r) => ActionView::Verify(r@),
            WizardAction::Exit => ActionView::Exit,
        }
    }
}

/// The wizard.
#[derive(Debug)]
pub struct SetupWizard {
    pub step: Step,
    /// The providers to choose from: name, endpoint, default model.
    pub providers: Vec<(String, String, String)>,
    /// The place in that list.
    pub cursor: usize,
    pub provider: String,
    pub base_url: String,
    pub api_key: String,
    pub model: String,
    /// The models that the provider offers.
    pub models: Vec<String>,
    /// The place in that list.
    pub model_cursor: usize,
    /// Whether a text is being typed.
    pub typing: bool,
    pub input_buf: String,
    pub notice: String,
    pub progress: String,
    /// The limit of turns; none is the default, 0 is no limit.
    pub max_turns: Option<usize>,
    /// The context window; none is looked up by the model's name.
    pub context_window: Option<usize>,
    pub protocol: ProtocolKind,
    pub protocol_cursor: usize,
    pub session_header: bool,
    /// 0 is yes, 1 is no.
    pub session_cursor: usize,
    /// Whether the text that is being typed is the limit of turns.
    pub typing_max_turns: bool,
    /// Whether it is the context window.
    pub typing_context_window: bool,
    pub retry: RetryConfig,
    pub retry_cursor: usize,
    /// Whether it is the number of retries.
    pub typing_retry: bool,
    pub proxy: ProxyConfig,
    pub proxy_cursor: usize,
    /// Whether it is the address of the proxy.
    pub typing_proxy: bool,
    /// Whether the key comes from the environment.
    pub key_from_env: bool,
    /// What is known of each provider.
    pub provider_defs: Vec<(String, ProviderDef)>,
}

/// What the wizard holds.
pub struct WizardView {
    pub step: Step,
    pub providers: Seq<(Seq<char>, Seq<char>, Seq<char>)>,
    pub cursor: usize,
    pub provider: Seq<char>,
    pub base_url: Seq<char>,
    pub api_key: Seq<char>,
    pub model: Seq<char>,
    pub models: Seq<Seq<char>>,
    pub model_cursor: usize,
    pub typing: bool,
    pub input_buf: Seq<char>,
    pub notice: Seq<char>,
    pub progress: Seq<char>,
    pub max_turns: Option<usize>,
    pub context_window: Option<usize>,
    pub protocol: ProtocolKind,
    pub protocol_cursor: usize,
    pub session_header: bool,
    pub session_cursor: usize,
    pub typing_max_turns: bool,
    pub typing_context_window: bool,
    pub retry: RetryConfig,
    pub retry_cursor: usize,
    pub typing_retry: bool,
    pub proxy: ProxyView,
    pub proxy_cursor: usize,
    pub typing_proxy: bool,
    pub key_from_env: bool,
    pub provider_defs: Seq<(Seq<char>, DefView)>,
}

impl View for SetupWizard {
    type V = WizardView;

    open spec fn view(&self) -> WizardView {
        WizardView {
            step: self.step,
            providers: settings::choice_views(self.providers@),
            cursor: self.cursor,
            provider: self.provider@,
            base_url: self.base_url@,
            api_key: self.api_key@,
            model: self.model@,
            models: scan::texts(self.models@),
            model_cursor: self.model_cursor,
            typing: self.typing,
            input_buf: self.input_buf@,
            notice: self.notice@,
            progress: self.progress@,
            max_turns: self.max_turns,
            context_window: self.context_window,
            protocol: self.protocol,
            protocol_cursor: self.protocol_cursor,
            session_header: self.session_header,
            session_cursor: self.session_cursor,
            typing_max_turns: self.typing_max_turns,
            typing_context_window: self.typing_context_window,
            retry: self.retry,
            retry_cursor: self.retry_cursor,
            typing_retry: self.typing_retry,
            proxy: self.proxy@,
            proxy_cursor: self.proxy_cursor,
            typing_proxy: self.typing_proxy,
            key_from_env: self.key_from_env,
            provider_defs: settings::def_views(self.provider_defs@),
        }
    }
}

pub const ASK_ENDPOINT: &'static str =
    "输入自定义端点(base_url),例如 http://localhost:11434/v1 或 https://api.example.com/v1:";

pub const ASK_WINDOW: &'static str = "输入当前模型的上下文窗口 token 数(留空 = 按模型名自动识别):";

pub const ASK_TURNS: &'static str = "输入单条消息最多允许的模型往返轮数(0 = 不限,留空 = 默认):";

pub const ASK_RETRY: &'static str = "输入弱网重试次数(空/0 = 关闭，1..=8，超限按 8 算):";

pub const ASK_PROXY: &'static str = "输入代理地址(形如 http://127.0.0.1:10808，清空回车 = 跟随环境):";

pub const BAD_ENDPOINT: &'static str = "端点要以 http:// 或 https:// 开头,重新输入:";

pub const BAD_PROXY: &'static str =
    "代理地址要形如 http(s)://host:port 或 socks5(h)://host:port,请重新输入(清空回车 = 跟随环境):";

pub const AGAIN_PROXY: &'static str = ",请重新输入(清空回车 = 跟随环境):";

pub const NO_MODEL: &'static str = "模型名不能为空";

pub const KEY_SET: &'static str = "key 已更新,按 s 验证连接";

pub const WINDOW_IS_AUTO: &'static str = "上下文窗口:自动(按模型名匹配内置表)。按 s 验证并完成";

pub const TURNS_UNLIMITED: &'static str = "轮数上限:不限(只靠重复调用刹车)。按 s 验证并完成";

pub const RETRY_IS_OFF: &'static str = "弱网重试:关闭。按 s 验证并完成";

pub const PROXY_IS_AUTO: &'static str = "代理:跟随环境。按 s 验证并完成";

pub const PROXY_IS_OFF: &'static str = "代理:直连(忽略环境代理)。按 s 验证并完成";

pub const PROXY_SET: &'static str = "代理已更新。按 s 验证并完成";

pub const NO_MODELS: &'static str =
    "该服务商没返回模型列表(可能不支持 /models),直接输入模型名:";

// ---------------------------------------------------------------- transitions

/// The wizard as it starts.
pub open spec fn start_of(choices: Seq<(Seq<char>, Seq<char>, Seq<char>)>) -> WizardView {
    WizardView {
        step: Step::Provider,
        providers: choices,
        cursor: 0,
        provider: Seq::empty(),
        base_url: Seq::empty(),
        api_key: Seq::empty(),
        model: Seq::empty(),
        models: Seq::empty(),
        model_cursor: 0,
        typing: false,
        input_buf: Seq::empty(),
        notice: Seq::empty(),
        progress: Seq::empty(),
        max_turns: None,
        context_window: None,
        protocol: ProtocolKind::Chat,
        protocol_cursor: 0,
        session_header: false,
        session_cursor: 1,
        typing_max_turns: false,
        typing_context_window: false,
        retry: settings::retry_off(),
        retry_cursor: 0,
        typing_retry: false,
        proxy: settings::proxy_auto(),
        proxy_cursor: 0,
        typing_proxy: false,
        key_from_env: false,
        provider_defs: Seq::empty(),
    }
}

/// 0 for yes, 1 for no.
pub open spec fn yes_index(b: bool) -> usize {
    if b {
        0
    } else {
        1
    }
}

/// The key of a provider: the one of its entry, or else the one in the variable
/// that its entry names, or else none.
pub open spec fn key_of(d: DefView, vars: Seq<(Seq<char>, Seq<char>)>) -> Seq<char> {
    match settings::filled(d.api_key) {
        Some(k) => k,
        None => match d.api_key_env {
            Some(e) => settings::text_or_empty(settings::var_of(vars, e)),
            None => Seq::empty(),
        },
    }
}

/// The wizard with the settings of the named provider, and nothing of another's.
pub open spec fn with_defaults(w: WizardView, name: Seq<char>, h: HostView) -> WizardView {
    let d = settings::def_of(w.provider_defs, name);
    let protocol = match d.protocol {
        Some(p) => p,
        None => ProtocolKind::Chat,
    };
    WizardView {
        model: settings::text_or_empty(d.model),
        api_key: key_of(d, h.vars),
        key_from_env: settings::filled(d.api_key) is None && d.api_key_env is Some,
        model_cursor: 0,
        models: Seq::empty(),
        context_window: d.context_window,
        protocol,
        protocol_cursor: settings::protocol_index(protocol),
        session_header: d.session_header,
        session_cursor: yes_index(d.session_header),
        ..w
    }
}

/// The provider that a configuration names, or else the one that it resolves to.
pub open spec fn config_provider(c: ConfigView) -> Option<Seq<char>> {
    match settings::filled(c.provider) {
        Some(p) => Some(p),
        None => match c.resolved {
            Some(e) => Some(e.provider_name),
            None => None,
        },
    }
}

/// The retry setting of a configuration, with no more than the most retries.
pub open spec fn config_retry(r: RetryConfig) -> RetryConfig {
    RetryConfig {
        enabled: r.enabled,
        max_retries: input::least(r.max_retries, settings::MAX_RETRIES),
    }
}

/// The proxy setting of a configuration, without an address unless it is manual.
pub open spec fn config_proxy(p: ProxyView) -> ProxyView {
    if p.mode == ProxyMode::Manual {
        p
    } else {
        ProxyView { mode: p.mode, url: None }
    }
}

/// The protocol of a configuration: its own, or else the provider's, or else chat.
pub open spec fn config_protocol(c: ConfigView, d: DefView) -> ProtocolKind {
    match c.protocol {
        Some(p) => p,
        None => match d.protocol {
            Some(p) => p,
            None => ProtocolKind::Chat,
        },
    }
}

/// The key of a configuration: its own, or else that of the provider's entry. One
/// that is in the environment is left out.
pub open spec fn config_key(c: ConfigView, d: DefView) -> Seq<char> {
    match settings::filled(c.api_key) {
        Some(k) => k,
        None => settings::text_or_empty(settings::filled(d.api_key)),
    }
}

/// Whether the key of a configuration is to be found in the environment.
pub open spec fn config_key_in_env(c: ConfigView, d: DefView) -> bool {
    settings::filled(c.api_key) is None && settings::filled(d.api_key) is None && d.api_key_env is Some
}

/// The wizard at the provider, model and endpoint of a configuration.
pub open spec fn with_endpoint(w: WizardView, c: ConfigView) -> WizardView {
    let provider = match config_provider(c) {
        Some(p) => p,
        None => w.provider,
    };
    let place = settings::choice_from(w.providers, provider, 0);
    WizardView {
        provider,
        cursor: if config_provider(c) is Some && place < w.providers.len() {
            place as usize
        } else {
            w.cursor
        },
        model: match c.resolved {
            Some(e) => e.model,
            None => w.model,
        },
        base_url: match c.resolved {
            Some(e) => e.base_url,
            None => w.base_url,
        },
        ..w
    }
}

/// The wizard with what a configuration and its entry `d` of the current provider
/// say of the key, the window, the protocol and the session header.
pub open spec fn with_entry(w: WizardView, c: ConfigView, d: DefView) -> WizardView {
    WizardView {
        provider_defs: c.providers,
        api_key: config_key(c, d),
        key_from_env: config_key_in_env(c, d),
        context_window: d.context_window,
        protocol: config_protocol(c, d),
        protocol_cursor: settings::protocol_index(config_protocol(c, d)),
        session_header: d.session_header,
        session_cursor: yes_index(d.session_header),
        ..w
    }
}

/// The wizard with the limit of turns, the retries and the proxy of a
/// configuration.
pub open spec fn with_limits(w: WizardView, c: ConfigView) -> WizardView {
    WizardView {
        max_turns: c.max_turns,
        retry: config_retry(c.retry),
        retry_cursor: settings::retry_index(config_retry(c.retry)),
        proxy: config_proxy(c.proxy),
        proxy_cursor: settings::mode_index(c.proxy.mode),
        ..w
    }
}

/// The wizard with an existing configuration filled in.
pub open spec fn with_config(w: WizardView, c: ConfigView) -> WizardView {
    let x = with_endpoint(w, c);
    with_limits(with_entry(x, c, settings::def_of(c.providers, x.provider)), c)
}

/// The connection that the wizard stands at.
pub open spec fn draft_of(w: WizardView, h: HostView) -> ResolvedView {
    ResolvedView {
        provider_name: w.provider,
        model: w.model,
        base_url: w.base_url,
        api_key: settings::some_filled(w.api_key),
        context_window: w.context_window,
        protocol: w.protocol,
        session_header_enabled: w.session_header,
        retry: w.retry,
        proxy: settings::effective(w.proxy, h.env_proxy),
    }
}

/// At the choice of the session header.
pub open spec fn at_session_header(w: WizardView) -> WizardView {
    WizardView { session_cursor: yes_index(w.session_header), step: Step::SessionHeader, ..w }
}

/// At the choice of the protocol.
pub open spec fn at_protocol(w: WizardView) -> WizardView {
    WizardView {
        protocol_cursor: settings::protocol_index(w.protocol),
        step: Step::ProtocolSelect,
        ..w
    }
}

/// At the choice of retries.
pub open spec fn at_retry(w: WizardView) -> WizardView {
    WizardView { retry_cursor: settings::retry_index(w.retry), step: Step::Retry, ..w }
}

/// At the choice of the proxy.
pub open spec fn at_proxy(w: WizardView) -> WizardView {
    WizardView { proxy_cursor: settings::mode_index(w.proxy.mode), step: Step::Proxy, ..w }
}

/// The wizard waits for the list of models.
pub open spec fn queried(w: WizardView, h: HostView) -> (WizardView, ActionView) {
    (
        WizardView {
            step: Step::Querying,
            progress: "正在查询 "@ + w.base_url + " 的模型列表…"@,
            ..w
        },
        ActionView::FetchModels {
            base_url: w.base_url,
            api_key: settings::some_filled(w.api_key),
            session_header: if w.session_header {
                Some(h.probe)
            } else {
                None
            },
            proxy: settings::effective(w.proxy, h.env_proxy),
        },
    )
}

/// The wizard waits for the connection to be tried.
pub open spec fn tried(w: WizardView, h: HostView) -> (WizardView, ActionView) {
    (
        WizardView {
            step: Step::Verifying,
            progress: "正在验证 "@ + w.provider + " / "@ + w.model + " …"@,
            ..w
        },
        ActionView::Verify(draft_of(w, h)),
    )
}

/// The models that are shown: those of the provider, with the current one in front
/// where it is not among them.
pub open spec fn offered(w: WizardView, models: Seq<Seq<char>>) -> Seq<Seq<char>> {
    if w.model.len() > 0 && settings::text_from(models, w.model, 0) == models.len() {
        models.insert(0, w.model)
    } else {
        models
    }
}

/// The wizard with the list of models, or with the reason why there is none.
pub open spec fn with_models(
    w: WizardView,
    r: Result<Seq<Seq<char>>, Seq<char>>,
) -> WizardView {
    let at = WizardView { step: Step::ModelSelect, typing: false, ..w };
    match r {
        Ok(models) => if models.len() > 0 {
            let all = offered(w, models);
            let place = settings::text_from(all, w.model, 0);
            WizardView {
                models: all,
                notice: "找到 "@ + text::decimal(all.len()) + " 个模型:↑↓ 选择,m 手动输入"@,
                model_cursor: if place < all.len() {
                    place as usize
                } else {
                    w.model_cursor
                },
                ..at
            }
        } else {
            WizardView {
                models: Seq::empty(),
                notice: NO_MODELS@,
                typing: true,
                input_buf: w.model,
                ..at
            }
        },
        Err(e) => WizardView {
            models: Seq::empty(),
            notice: "模型列表查询失败: "@ + e + "\n直接输入模型名(回车继续):"@,
            typing: true,
            input_buf: w.model,
            ..at
        },
    }
}

/// The wizard with the outcome of the trial.
pub open spec fn with_verdict(w: WizardView, ok: bool, msg: Seq<char>) -> WizardView {
    WizardView {
        step: Step::ApiKey,
        notice: if ok {
            "✔ 验证通过:"@ + msg
        } else {
            "✘ 验证失败:"@ + msg + "\n改完按 s 重新验证,或 Esc 退出检查"@
        },
        ..w
    }
}

/// A text without its line ends.
pub open spec fn one_line(s: Seq<char>) -> Seq<char>
    decreases s.len(),
{
    if s.len() == 0 {
        Seq::empty()
    } else if s.last() == '\n' || s.last() == '\r' {
        one_line(s.drop_last())
    } else {
        one_line(s.drop_last()).push(s.last())
    }
}

// --- what a typed text does

/// A context window that was typed.
pub open spec fn typed_window(w: WizardView, v: Seq<char>) -> WizardView {
    match settings::window_input(v) {
        Some(None) => WizardView {
            typing_context_window: false,
            context_window: None,
            notice: WINDOW_IS_AUTO@,
            ..w
        },
        Some(Some(n)) => WizardView {
            typing_context_window: false,
            context_window: Some(n),
            notice: "上下文窗口:"@ + text::decimal(n as nat) + " tokens。按 s 验证并完成"@,
            ..w
        },
        None => WizardView {
            typing_context_window: true,
            typing: true,
            input_buf: scan::trimmed(v),
            notice: settings::BAD_WINDOW@,
            ..w
        },
    }
}

/// A limit of turns that was typed.
pub open spec fn typed_turns(w: WizardView, v: Seq<char>, h: HostView) -> WizardView {
    match settings::turns_input(v) {
        Some(None) => WizardView {
            typing_max_turns: false,
            max_turns: None,
            notice: "轮数上限:随默认("@ + text::decimal(h.default_turns as nat)
                + " 轮)。按 s 验证并完成"@,
            ..w
        },
        Some(Some(n)) => WizardView {
            typing_max_turns: false,
            max_turns: Some(n),
            notice: if n == 0 {
                TURNS_UNLIMITED@
            } else {
                "轮数上限:"@ + text::decimal(n as nat) + " 轮。按 s 验证并完成"@
            },
            ..w
        },
        None => WizardView {
            typing_max_turns: true,
            typing: true,
            input_buf: scan::trimmed(v),
            notice: settings::BAD_TURNS@,
            ..w
        },
    }
}

/// A number of retries that was typed.
pub open spec fn typed_retry(w: WizardView, v: Seq<char>) -> WizardView {
    match settings::retry_input(v) {
        Some(r) => WizardView {
            typing_retry: false,
            retry: r,
            retry_cursor: settings::retry_index(r),
            notice: if r.enabled {
                "弱网重试:开启(失败后追加 "@ + text::decimal(r.max_retries as nat)
                    + " 次)。按 s 验证并完成"@
            } else {
                RETRY_IS_OFF@
            },
            ..w
        },
        None => WizardView {
            typing_retry: true,
            typing: true,
            input_buf: scan::trimmed(v),
            notice: settings::BAD_RETRY@,
            ..w
        },
    }
}

/// A proxy address that was typed.
pub open spec fn typed_proxy(w: WizardView, v: Seq<char>, h: HostView) -> WizardView {
    let t = scan::trimmed(v);
    let again = WizardView { typing_proxy: true, typing: true, input_buf: t, ..w };
    if t.len() == 0 {
        WizardView {
            typing_proxy: false,
            proxy: settings::proxy_auto(),
            proxy_cursor: 0,
            notice: PROXY_IS_AUTO@,
            ..w
        }
    } else {
        match h.proxy_check {
            settings::CheckView::Malformed => WizardView { notice: BAD_PROXY@, ..again },
            settings::CheckView::Refused(e) => WizardView { notice: e + AGAIN_PROXY@, ..again },
            settings::CheckView::Normal(n) => WizardView {
                typing_proxy: false,
                proxy: ProxyView { mode: ProxyMode::Manual, url: Some(n) },
                proxy_cursor: 2,
                notice: PROXY_SET@,
                ..w
            },
        }
    }
}

/// An endpoint, a model or a key that was typed, as the step says.
pub open spec fn typed_rest(w: WizardView, v: Seq<char>) -> WizardView {
    if w.step == Step::Provider && w.provider == settings::CUSTOM@ {
        if settings::has_scheme(v) {
            at_session_header(WizardView { base_url: v, session_header: false, ..w })
        } else {
            WizardView { notice: BAD_ENDPOINT@, typing: true, ..w }
        }
    } else if w.step == Step::ModelSelect {
        if v.len() == 0 {
            WizardView { notice: NO_MODEL@, typing: true, ..w }
        } else {
            at_protocol(WizardView { model: v, ..w })
        }
    } else {
        WizardView { api_key: v, key_from_env: false, notice: KEY_SET@, ..w }
    }
}

/// What the text that was typed does.
pub open spec fn typed(w: WizardView, v: Seq<char>, h: HostView) -> WizardView {
    if w.typing_context_window {
        typed_window(w, v)
    } else if w.typing_max_turns {
        typed_turns(w, v, h)
    } else if w.typing_retry {
        typed_retry(w, v)
    } else if w.typing_proxy {
        typed_proxy(w, v, h)
    } else {
        typed_rest(w, v)
    }
}

/// Nothing is being typed any more, and what was typed is dropped.
pub open spec fn not_typing(w: WizardView) -> WizardView {
    WizardView {
        typing: false,
        typing_max_turns: false,
        typing_context_window: false,
        typing_retry: false,
        typing_proxy: false,
        input_buf: Seq::empty(),
        ..w
    }
}

/// What a key does while a text is being typed.
pub open spec fn typing_key(w: WizardView, k: KeyCode, h: HostView) -> WizardView {
    match k {
        KeyCode::Enter => typed(
            WizardView { input_buf: Seq::empty(), typing: false, ..w },
            scan::trimmed(w.input_buf),
            h,
        ),
        KeyCode::Esc => not_typing(w),
        KeyCode::Backspace => WizardView { input_buf: text::without_last(w.input_buf), ..w },
        KeyCode::Char(c) => WizardView { input_buf: w.input_buf.push(c), ..w },
        _ => w,
    }
}

// --- what a key does at each step

/// The named provider is the current one. Its settings are taken over, unless it
/// was the current one before.
pub open spec fn switched(w: WizardView, name: Seq<char>, h: HostView) -> WizardView {
    if name == w.provider {
        w
    } else {
        with_defaults(WizardView { provider: name, ..w }, name, h)
    }
}

/// The provider under the cursor has been chosen.
pub open spec fn provider_chosen(w: WizardView, h: HostView) -> WizardView {
    let choice = w.providers[input::least(w.cursor, (w.providers.len() - 1) as usize) as int];
    let x = switched(w, choice.0, h);
    if choice.0 == settings::CUSTOM@ {
        WizardView { typing: true, input_buf: Seq::empty(), notice: ASK_ENDPOINT@, ..x }
    } else {
        at_session_header(WizardView { base_url: choice.1, ..x })
    }
}

/// Whether a key chooses the provider under the cursor; there has to be one.
pub open spec fn chooses(w: WizardView, k: KeyCode) -> bool {
    !w.typing && w.step == Step::Provider && input::is_go(k)
}

/// What a key does on the page of the providers.
pub open spec fn provider_key(w: WizardView, k: KeyCode, h: HostView) -> (WizardView, ActionView) {
    if k == KeyCode::Esc {
        (w, ActionView::Exit)
    } else if input::is_up(k) {
        (WizardView { cursor: input::up(w.cursor), ..w }, ActionView::Idle)
    } else if input::is_down(k) {
        let last = input::last_of(w.providers.len());
        (WizardView { cursor: input::down(w.cursor, last), ..w }, ActionView::Idle)
    } else if input::is_go(k) {
        (provider_chosen(w, h), ActionView::Idle)
    } else {
        (w, ActionView::Idle)
    }
}

/// The session header is on or off.
pub open spec fn header_set(w: WizardView, cursor: usize) -> WizardView {
    WizardView { session_cursor: cursor, session_header: cursor == 0, ..w }
}

/// What a key does on the page of the session header.
pub open spec fn header_key(w: WizardView, k: KeyCode, h: HostView) -> (WizardView, ActionView) {
    if k == KeyCode::Esc {
        (WizardView { step: Step::Provider, ..w }, ActionView::Idle)
    } else if input::is_up(k) {
        (header_set(w, input::up(w.session_cursor)), ActionView::Idle)
    } else if input::is_down(k) {
        (header_set(w, input::down(w.session_cursor, 1)), ActionView::Idle)
    } else if input::is_letter(k, 'y', 'Y') {
        queried(header_set(w, 0), h)
    } else if input::is_letter(k, 'n', 'N') {
        queried(header_set(w, 1), h)
    } else if input::is_go(k) {
        queried(w, h)
    } else {
        (w, ActionView::Idle)
    }
}

/// The model under the cursor is chosen, where there is one.
pub open spec fn model_taken(w: WizardView) -> WizardView {
    let model = if w.models.len() > 0 {
        w.models[input::least(w.model_cursor, (w.models.len() - 1) as usize) as int]
    } else {
        w.model
    };
    at_protocol(WizardView { model, ..w })
}

/// What a key does on the page of the models.
pub open spec fn model_key(w: WizardView, k: KeyCode) -> WizardView {
    if input::is_up(k) {
        WizardView { model_cursor: input::up(w.model_cursor), ..w }
    } else if input::is_down(k) {
        let last = input::last_of(w.models.len());
        WizardView { model_cursor: input::down(w.model_cursor, last), ..w }
    } else if input::is_go(k) {
        model_taken(w)
    } else if input::is_letter(k, 'm', 'M') {
        WizardView { typing: true, input_buf: Seq::empty(), ..w }
    } else if k == KeyCode::Esc {
        WizardView { step: Step::Provider, ..w }
    } else {
        w
    }
}

/// The protocol at a place of the list is chosen.
pub open spec fn protocol_set(w: WizardView, cursor: usize) -> WizardView {
    WizardView { protocol_cursor: cursor, protocol: settings::protocol_at(cursor), ..w }
}

/// What a key does on the page of the protocols.
pub open spec fn protocol_key(w: WizardView, k: KeyCode) -> WizardView {
    if input::is_up(k) {
        protocol_set(w, input::up(w.protocol_cursor))
    } else if input::is_down(k) {
        protocol_set(w, input::down(w.protocol_cursor, 1))
    } else if input::is_go(k) {
        WizardView { step: Step::ApiKey, ..w }
    } else if k == KeyCode::Esc {
        WizardView { step: Step::ModelSelect, ..w }
    } else {
        w
    }
}

/// What a key does on the page of the API key.
pub open spec fn secret_key(w: WizardView, k: KeyCode, h: HostView) -> (WizardView, ActionView) {
    if k == KeyCode::Esc {
        let step = if w.models.len() == 0 {
            Step::Provider
        } else {
            Step::ProtocolSelect
        };
        (WizardView { step, ..w }, ActionView::Idle)
    } else if input::is_letter(k, 's', 'S') {
        tried(w, h)
    } else if k == KeyCode::Enter {
        (WizardView { step: Step::ContextWindow, ..w }, ActionView::Idle)
    } else if input::is_letter(k, 'e', 'E') {
        (
            WizardView { typing: true, input_buf: w.api_key, api_key: Seq::empty(), ..w },
            ActionView::Idle,
        )
    } else {
        (w, ActionView::Idle)
    }
}

/// A number, or nothing.
pub open spec fn opt_decimal(n: Option<usize>) -> Seq<char> {
    match n {
        Some(n) => text::decimal(n as nat),
        None => Seq::empty(),
    }
}

/// What a key does on the page of the context window.
pub open spec fn window_key(w: WizardView, k: KeyCode, h: HostView) -> (WizardView, ActionView) {
    let ask = WizardView { typing: true, typing_context_window: true, notice: ASK_WINDOW@, ..w };
    if input::is_digit_key(k) {
        (WizardView { input_buf: seq![k->Char_0], ..ask }, ActionView::Idle)
    } else if input::is_edit(k) {
        (WizardView { input_buf: opt_decimal(w.context_window), ..ask }, ActionView::Idle)
    } else if k == KeyCode::Enter {
        (WizardView { step: Step::MaxTurns, ..w }, ActionView::Idle)
    } else if input::is_letter(k, 's', 'S') {
        tried(w, h)
    } else if k == KeyCode::Esc {
        (WizardView { step: Step::ApiKey, ..w }, ActionView::Idle)
    } else {
        (w, ActionView::Idle)
    }
}

/// What a key does on the page of the limit of turns.
pub open spec fn turns_key(w: WizardView, k: KeyCode) -> WizardView {
    let ask = WizardView { typing: true, typing_max_turns: true, notice: ASK_TURNS@, ..w };
    if input::is_digit_key(k) {
        WizardView { input_buf: seq![k->Char_0], ..ask }
    } else if input::is_edit(k) {
        WizardView { input_buf: opt_decimal(w.max_turns), ..ask }
    } else if k == KeyCode::Enter || input::is_letter(k, 's', 'S') {
        at_retry(w)
    } else if k == KeyCode::Esc {
        WizardView { step: Step::ContextWindow, ..w }
    } else {
        w
    }
}

/// The retry setting at a place of the list is chosen; the last place keeps it.
pub open spec fn retry_set(w: WizardView, cursor: usize) -> WizardView {
    WizardView {
        retry_cursor: cursor,
        retry: match settings::retry_at(cursor) {
            Some(r) => r,
            None => w.retry,
        },
        ..w
    }
}

/// The number of retries, or nothing where there are none.
pub open spec fn retry_decimal(r: RetryConfig) -> Seq<char> {
    if r.enabled {
        text::decimal(r.max_retries as nat)
    } else {
        Seq::empty()
    }
}

/// What a key does on the page of the retries.
pub open spec fn retry_key(w: WizardView, k: KeyCode) -> WizardView {
    let ask = WizardView { typing: true, typing_retry: true, notice: ASK_RETRY@, ..w };
    if input::is_up(k) {
        retry_set(w, input::up(w.retry_cursor))
    } else if input::is_down(k) {
        retry_set(w, input::down(w.retry_cursor, 4))
    } else if input::is_digit_key(k) {
        WizardView { input_buf: seq![k->Char_0], ..ask }
    } else if input::is_edit(k) || (k == KeyCode::Enter && w.retry_cursor >= 4) {
        WizardView { input_buf: retry_decimal(w.retry), ..ask }
    } else if k == KeyCode::Enter || input::is_letter(k, 's', 'S') {
        at_proxy(w)
    } else if k == KeyCode::Esc {
        WizardView { step: Step::MaxTurns, ..w }
    } else {
        w
    }
}

/// The proxy setting at a place of the list is chosen.
pub open spec fn proxy_set(w: WizardView, cursor: usize) -> WizardView {
    WizardView { proxy_cursor: cursor, proxy: settings::proxy_at(cursor, w.proxy.url), ..w }
}

/// What a key does on the page of the proxy.
pub open spec fn proxy_key(w: WizardView, k: KeyCode, h: HostView) -> (WizardView, ActionView) {
    let ask = WizardView { typing: true, typing_proxy: true, notice: ASK_PROXY@, ..w };
    if input::is_up(k) {
        (proxy_set(w, input::up(w.proxy_cursor)), ActionView::Idle)
    } else if input::is_down(k) {
        (proxy_set(w, input::down(w.proxy_cursor, 2)), ActionView::Idle)
    } else if input::is_letter(k, 'y', 'Y') {
        (WizardView { notice: PROXY_IS_AUTO@, ..proxy_set(w, 0) }, ActionView::Idle)
    } else if input::is_letter(k, 'n', 'N') {
        (WizardView { notice: PROXY_IS_OFF@, ..proxy_set(w, 1) }, ActionView::Idle)
    } else if input::is_digit_key(k) {
        (WizardView { input_buf: seq![k->Char_0], ..ask }, ActionView::Idle)
    } else if input::is_edit(k) || k == KeyCode::Enter {
        (
            WizardView { input_buf: settings::text_or_empty(w.proxy.url), ..ask },
            ActionView::Idle,
        )
    } else if input::is_letter(k, 's', 'S') {
        tried(w, h)
    } else if k == KeyCode::Esc {
        (WizardView { step: Step::Retry, ..w }, ActionView::Idle)
    } else {
        (w, ActionView::Idle)
    }
}

/// `Esc` while the wizard waits.
pub open spec fn waiting_key(w: WizardView, k: KeyCode, back: Step) -> WizardView {
    if k == KeyCode::Esc {
        WizardView { step: back, ..w }
    } else {
        w
    }
}

/// What a key does.
pub open spec fn on_key_of(w: WizardView, k: KeyCode, h: HostView) -> (WizardView, ActionView) {
    if w.typing {
        (typing_key(w, k, h), ActionView::Idle)
    } else {
        match w.step {
            Step::Provider => provider_key(w, k, h),
            Step::SessionHeader => header_key(w, k, h),
            Step::Querying => (waiting_key(w, k, Step::SessionHeader), ActionView::Idle),
            Step::ModelSelect => (model_key(w, k), ActionView::Idle),
            Step::ProtocolSelect => (protocol_key(w, k), ActionView::Idle),
            Step::ApiKey => secret_key(w, k, h),
            Step::ContextWindow => window_key(w, k, h),
            Step::MaxTurns => (turns_key(w, k), ActionView::Idle),
            Step::Retry => (retry_key(w, k), ActionView::Idle),
            Step::Proxy => proxy_key(w, k, h),
            Step::Verifying => (waiting_key(w, k, Step::Proxy), ActionView::Idle),
        }
    }
}

/// The models that are in sight: the first of them, and how many.
pub open spec fn window_of(n: nat, cursor: usize) -> (nat, nat) {
    if n <= MODEL_WINDOW {
        (0, n)
    } else {
        let half = (MODEL_WINDOW / 2) as int;
        let first = if cursor < half {
            0
        } else if cursor - half <= n - MODEL_WINDOW {
            cursor - half
        } else {
            n - MODEL_WINDOW
        };
        (first as nat, MODEL_WINDOW as nat)
    }
}

// ------------------------------------------------------------------ the wizard

impl SetupWizard {
    /// A wizard that offers the given providers, and one that is typed in.
    pub fn new(known: Vec<(String, String, String)>) -> (r: SetupWizard)
        ensures
            r@ == start_of(settings::with_custom(settings::choice_views(known@))),
            r.providers@.len() > 0,
    {
        let providers = settings::provider_list(known);
        let r = SetupWizard {
            step: Step::Provider,
            providers,
            cursor: 0,
            provider: String::new(),
            base_url: String::new(),
            api_key: String::new(),
            model: String::new(),
            models: Vec::new(),
            model_cursor: 0,
            typing: false,
            input_buf: String::new(),
            notice: String::new(),
            progress: String::new(),
            max_turns: None,
            context_window: None,
            protocol: ProtocolKind::Chat,
            protocol_cursor: 0,
            session_header: false,
            session_cursor: 1,
            typing_max_turns: false,
            typing_context_window: false,
            retry: RetryConfig::disabled(),
            retry_cursor: 0,
            typing_retry: false,
            proxy: ProxyConfig::auto(),
            proxy_cursor: 0,
            typing_proxy: false,
            key_from_env: false,
            provider_defs: Vec::new(),
        };
        proof {
            assert(scan::texts(r.models@) =~= Seq::<Seq<char>>::empty());
            reveal(settings::def_views);
            assert(settings::def_views(r.provider_defs@) =~= Seq::<(Seq<char>, DefView)>::empty());
        }
        r
    }

    /// Takes over the settings of the named provider: its model, its key (that of
    /// its entry, or else the one in the environment), its window, protocol and
    /// session header. The proxy stays: it is no provider's.
    pub fn apply_provider_defaults(&mut self, name: &str, host: &Host)
        ensures
            final(self)@ == with_defaults(old(self)@, name@, host@),
    {
        let d = settings::find_def(&self.provider_defs, name);
        self.model = settings::or_empty(&d.model);
        self.api_key = match settings::keep_filled(&d.api_key) {
            Some(k) => k,
            None => match &d.api_key_env {
                Some(e) => settings::or_empty(&settings::find_var(&host.vars, e.as_str())),
                None => String::new(),
            },
        };
        self.key_from_env = settings::keep_filled(&d.api_key).is_none() && d.api_key_env.is_some();
        self.model_cursor = 0;
        self.models = Vec::new();
        self.context_window = d.context_window;
        self.protocol = match d.protocol {
            Some(p) => p,
            None => ProtocolKind::Chat,
        };
        self.protocol_cursor = self.protocol.index();
        self.session_header = d.session_header;
        self.session_cursor = if d.session_header {
            0
        } else {
            1
        };
        proof {
            assert(scan::texts(self.models@) =~= Seq::<Seq<char>>::empty());
        }
    }

    /// Fills in the configuration on disk, where there is one.
    pub fn prefill(&mut self, cfg: Option<&Config>)
        ensures
            final(self)@ == (match cfg {
                Some(c) => with_config(old(self)@, c@),
                None => old(self)@,
            }),
    {
        match cfg {
            Some(c) => self.apply_config(c),
            None => {},
        }
    }

    /// Fills in an existing configuration, and puts the cursor on its provider.
    pub fn apply_config(&mut self, cfg: &Config)
        ensures
            final(self)@ == with_config(old(self)@, cfg@),
    {
        self.apply_endpoint(cfg);
        let d = settings::find_def(&cfg.providers, self.provider.as_str());
        self.apply_entry(cfg, &d);
        self.apply_limits(cfg);
    }

    fn apply_endpoint(&mut self, cfg: &Config)
        ensures
            final(self)@ == with_endpoint(old(self)@, cfg@),
    {
        let provider = match settings::keep_filled(&cfg.provider) {
            Some(p) => Some(p),
            None => match &cfg.resolved {
                Some(e) => Some(e.provider_name.clone()),
                None => None,
            },
        };
        match provider {
            Some(p) => {
                match settings::find_choice(&self.providers, p.as_str()) {
                    Some(i) => {
                        self.cursor = i;
                    },
                    None => {},
                }
                self.provider = p;
            },
            None => {},
        }
        match &cfg.resolved {
            Some(e) => {
                self.model = e.model.clone();
                self.base_url = e.base_url.clone();
            },
            None => {},
        }
    }

    fn apply_entry(&mut self, cfg: &Config, d: &ProviderDef)
        ensures
            final(self)@ == with_entry(old(self)@, cfg@, d@),
    {
        let top = settings::keep_filled(&cfg.api_key);
        let entry = settings::keep_filled(&d.api_key);
        let from_env = top.is_none() && entry.is_none() && d.api_key_env.is_some();
        let api_key = match top {
            Some(k) => k,
            None => settings::or_empty(&entry),
        };
        let protocol = match cfg.protocol {
            Some(p) => p,
            None => match d.protocol {
                Some(p) => p,
                None => ProtocolKind::Chat,
            },
        };
        let session_cursor: usize = if d.session_header {
            0
        } else {
            1
        };
        self.provider_defs = settings::copy_defs(&cfg.providers);
        self.key_from_env = from_env;
        self.api_key = api_key;
        self.context_window = d.context_window;
        self.protocol = protocol;
        self.protocol_cursor = protocol.index();
        self.session_header = d.session_header;
        self.session_cursor = session_cursor;
    }

    fn apply_limits(&mut self, cfg: &Config)
        ensures
            final(self)@ == with_limits(old(self)@, cfg@),
    {
        let retry = RetryConfig {
            enabled: cfg.retry.enabled,
            max_retries: input::at_most(cfg.retry.max_retries, settings::MAX_RETRIES),
        };
        let proxy = if cfg.proxy.mode == ProxyMode::Manual {
            cfg.proxy.copy()
        } else {
            ProxyConfig { mode: cfg.proxy.mode, url: None }
        };
        self.max_turns = cfg.max_turns;
        self.retry = retry;
        self.retry_cursor = retry.index();
        self.proxy = proxy;
        self.proxy_cursor = cfg.proxy.mode.index();
    }

    /// Whether there is anything to show yet.
    pub fn has_configured(&self) -> (r: bool)
        ensures
            r == (self@.provider.len() > 0 || self@.model.len() > 0 || self@.api_key.len() > 0),
    {
        !settings::is_blank(self.provider.as_str()) || !settings::is_blank(self.model.as_str())
            || !settings::is_blank(self.api_key.as_str())
    }

    /// How the limit of turns is shown.
    pub fn max_turns_label(&self, host: &Host) -> (r: String)
        ensures
            r@ == settings::turns_shown(self@.max_turns, host@.default_turns),
    {
        settings::max_turns_text(self.max_turns, host.default_turns)
    }

    /// How the retry setting is shown.
    pub fn retry_label(&self) -> (r: String)
        ensures
            r@ == settings::retry_shown(self@.retry),
    {
        settings::retry_text(self.retry)
    }

    /// How the context window is shown.
    pub fn context_window_label(&self) -> (r: String)
        ensures
            r@ == settings::window_shown(self@.context_window),
    {
        settings::context_window_text(self.context_window)
    }

    /// The models that are in sight: the first of them, and how many. The cursor is
    /// among them.
    pub fn model_window(&self) -> (r: (usize, usize))
        ensures
            (r.0 as nat, r.1 as nat) == window_of(self@.models.len(), self@.model_cursor),
            r.0 + r.1 <= self@.models.len(),
    {
        model_window(self.models.len(), self.model_cursor)
    }

    /// The connection that the wizard stands at, not tried yet.
    pub fn draft(&self, host: &Host) -> (r: Resolved)
        ensures
            r@ == draft_of(self@, host@),
    {
        Resolved {
            provider_name: self.provider.clone(),
            model: self.model.clone(),
            base_url: self.base_url.clone(),
            api_key: settings::opt_filled(&self.api_key),
            context_window: self.context_window,
            protocol: self.protocol,
            session_header_enabled: self.session_header,
            retry: self.retry,
            proxy: self.effective_proxy_for_draft(host),
        }
    }

    /// The proxy that the connection takes.
    pub fn effective_proxy_for_draft(&self, host: &Host) -> (r: EffectiveProxy)
        ensures
            r@ == settings::effective(self@.proxy, host@.env_proxy),
    {
        settings::effective_proxy(&self.proxy, &host.env_proxy)
    }

    fn enter_proxy(&mut self)
        ensures
            final(self)@ == at_proxy(old(self)@),
    {
        self.proxy_cursor = self.proxy.mode.index();
        self.step = Step::Proxy;
    }

    fn apply_proxy_cursor(&mut self, cursor: usize)
        ensures
            final(self)@ == proxy_set(old(self)@, cursor),
    {
        self.proxy_cursor = cursor;
        self.proxy = settings::proxy_from_cursor(cursor, settings::copy_opt(&self.proxy.url));
    }

    fn enter_session_header(&mut self)
        ensures
            final(self)@ == at_session_header(old(self)@),
    {
        self.session_cursor = if self.session_header {
            0
        } else {
            1
        };
        self.step = Step::SessionHeader;
    }

    fn enter_protocol_select(&mut self)
        ensures
            final(self)@ == at_protocol(old(self)@),
    {
        self.protocol_cursor = self.protocol.index();
        self.step = Step::ProtocolSelect;
    }

    fn enter_retry(&mut self)
        ensures
            final(self)@ == at_retry(old(self)@),
    {
        self.retry_cursor = self.retry.index();
        self.step = Step::Retry;
    }

    fn apply_retry_cursor(&mut self, cursor: usize)
        ensures
            final(self)@ == retry_set(old(self)@, cursor),
    {
        self.retry_cursor = cursor;
        match settings::retry_from_cursor(cursor) {
            Some(r) => {
                self.retry = r;
            },
            None => {},
        }
    }

    /// Takes in the list of models, or the reason why there is none.
    pub fn inject_models(&mut self, result: Result<Vec<String>, String>)
        ensures
            final(self)@ == with_models(
                old(self)@,
                match result {
                    Ok(v) => Ok(scan::texts(v@)),
                    Err(e) => Err(e@),
                },
            ),
    {
        self.step = Step::ModelSelect;
        self.typing = false;
        match result {
            Ok(v) => {
                let mut models = v;
                if models.len() > 0 {
                    if !settings::is_blank(self.model.as_str()) && settings::find_text(
                        &models,
                        self.model.as_str(),
                    ).is_none() {
                        let first = self.model.clone();
                        models.insert(0, first);
                        proof {
                            assert(scan::texts(models@) =~= scan::texts(v@).insert(0, first@));
                        }
                    }
                    let n = text::dec(models.len());
                    self.models = models;
                    self.notice =
                    text::cat3("找到 ", n.as_str(), " 个模型:↑↓ 选择,m 手动输入");
                    match settings::find_text(&self.models, self.model.as_str()) {
                        Some(i) => {
                            self.model_cursor = i;
                        },
                        None => {},
                    }
                } else {
                    self.models = Vec::new();
                    self.notice = text::copy(NO_MODELS);
                    self.typing = true;
                    self.input_buf = self.model.clone();
                    proof {
                        assert(scan::texts(self.models@) =~= Seq::<Seq<char>>::empty());
                    }
                }
            },
            Err(e) => {
                self.models = Vec::new();
                self.notice =
                text::cat3("模型列表查询失败: ", e.as_str(), "\n直接输入模型名(回车继续):");
                self.typing = true;
                self.input_buf = self.model.clone();
                proof {
                    assert(scan::texts(self.models@) =~= Seq::<Seq<char>>::empty());
                }
            },
        }
    }

    /// Takes in the outcome of the trial.
    pub fn inject_verify(&mut self, ok: bool, msg: String)
        ensures
            final(self)@ == with_verdict(old(self)@, ok, msg@),
    {
        self.step = Step::ApiKey;
        if ok {
            self.notice = text::cat2("✔ 验证通过:", msg.as_str());
        } else {
            self.notice =
            text::cat3("✘ 验证失败:", msg.as_str(), "\n改完按 s 重新验证,或 Esc 退出检查");
        }
    }

    fn start_querying(&mut self, host: &Host) -> (r: WizardAction)
        ensures
            (final(self)@, r@) == queried(old(self)@, host@),
    {
        self.step = Step::Querying;
        self.progress = text::cat3("正在查询 ", self.base_url.as_str(), " 的模型列表…");
        WizardAction::FetchModels {
            base_url: self.base_url.clone(),
            api_key: settings::opt_filled(&self.api_key),
            session_header: if self.session_header {
                Some(host.probe.clone())
            } else {
                None
            },
            proxy: self.effective_proxy_for_draft(host),
        }
    }

    fn start_verifying(&mut self, host: &Host) -> (r: WizardAction)
        ensures
            (final(self)@, r@) == tried(old(self)@, host@),
    {
        self.step = Step::Verifying;
        self.progress =
        text::cat5("正在验证 ", self.provider.as_str(), " / ", self.model.as_str(), " …");
        WizardAction::Verify(self.draft(host))
    }

    /// Takes in a pasted text while a text is being typed. Line ends are dropped, and
    /// nothing is confirmed by it. Says whether it was taken.
    pub fn paste_text(&mut self, text: &str) -> (r: bool)
        ensures
            r == old(self)@.typing,
            final(self)@ == (if old(self)@.typing {
                WizardView { input_buf: old(self)@.input_buf + one_line(text@), ..old(self)@ }
            } else {
                old(self)@
            }),
    {
        if !self.typing {
            return false;
        }
        self.input_buf.append(drop_line_ends(text).as_str());
        true
    }

    /// Takes in a key press, and says what the host has to do.
    pub fn on_key(&mut self, key: KeyEvent, host: &Host) -> (r: WizardAction)
        requires
            chooses(old(self)@, key.code) ==> old(self).providers.len() > 0,
        ensures
            (final(self)@, r@) == on_key_of(old(self)@, key.code, host@),
    {
        let k = key.code;
        if self.typing {
            self.on_typing_key(k, host);
            return WizardAction::Idle;
        }
        match self.step {
            Step::Provider => self.on_provider_key(k, host),
            Step::SessionHeader => self.on_header_key(k, host),
            Step::Querying => {
                if k == KeyCode::Esc {
                    self.step = Step::SessionHeader;
                }
                WizardAction::Idle
            },
            Step::ModelSelect => {
                self.on_model_key(k);
                WizardAction::Idle
            },
            Step::ProtocolSelect => {
                self.on_protocol_key(k);
                WizardAction::Idle
            },
            Step::ApiKey => self.on_secret_key(k, host),
            Step::ContextWindow => self.on_window_key(k, host),
            Step::MaxTurns => {
                self.on_turns_key(k);
                WizardAction::Idle
            },
            Step::Retry => {
                self.on_retry_key(k);
                WizardAction::Idle
            },
            Step::Proxy => self.on_proxy_key(k, host),
            Step::Verifying => {
                if k == KeyCode::Esc {
                    self.step = Step::Proxy;
                }
                WizardAction::Idle
            },
        }
    }

    fn stop_typing(&mut self)
        ensures
            final(self)@ == not_typing(old(self)@),
    {
        self.typing = false;
        self.typing_max_turns = false;
        self.typing_context_window = false;
        self.typing_retry = false;
        self.typing_proxy = false;
        self.input_buf = String::new();
    }

    fn on_typing_key(&mut self, k: KeyCode, host: &Host)
        requires
            old(self).typing,
        ensures
            final(self)@ == typing_key(old(self)@, k, host@),
    {
        match k {
            KeyCode::Enter => {
                let v = scan::trim(self.input_buf.as_str());
                self.input_buf = String::new();
                self.typing = false;
                self.confirm_typed(v, host);
            },
            KeyCode::Esc => {
                self.stop_typing();
            },
            KeyCode::Backspace => {
                self.input_buf = text::drop_last_char(self.input_buf.as_str());
            },
            KeyCode::Char(c) => {
                self.input_buf.push(c);
            },
            _ => {},
        }
    }

    fn switch_provider(&mut self, name: &str, host: &Host)
        ensures
            final(self)@ == switched(old(self)@, name@, host@),
    {
        if !text::same(name, self.provider.as_str()) {
            self.provider = text::copy(name);
            self.apply_provider_defaults(name, host);
        }
    }

    fn take_provider(&mut self, host: &Host)
        requires
            old(self).providers.len() > 0,
        ensures
            final(self)@ == provider_chosen(old(self)@, host@),
    {
        let i: usize = input::at_most(self.cursor, self.providers.len() - 1);
        let name = self.providers[i].0.clone();
        let base = self.providers[i].1.clone();
        proof {
            reveal(settings::choice_views);
            assert(self@.providers[i as int] == (name@, base@, self.providers@[i as int].2@));
        }
        self.switch_provider(name.as_str(), host);
        if text::same(name.as_str(), settings::CUSTOM) {
            self.typing = true;
            self.input_buf = String::new();
            self.notice = text::copy(ASK_ENDPOINT);
            return;
        }
        self.base_url = base;
        self.enter_session_header();
    }

    fn on_provider_key(&mut self, k: KeyCode, host: &Host) -> (r: WizardAction)
        requires
            input::is_go(k) ==> old(self).providers.len() > 0,
        ensures
            (final(self)@, r@) == provider_key(old(self)@, k, host@),
    {
        if k == KeyCode::Esc {
            return WizardAction::Exit;
        }
        if input::key_up(k) {
            self.cursor = input::move_up(self.cursor);
            return WizardAction::Idle;
        }
        if input::key_down(k) {
            let last: usize = input::last_index(self.providers.len());
            proof {
                reveal(settings::choice_views);
            }
            self.cursor = input::move_down(self.cursor, last);
            return WizardAction::Idle;
        }
        if input::key_go(k) {
            self.take_provider(host);
        }
        WizardAction::Idle
    }

    fn set_header(&mut self, cursor: usize)
        ensures
            final(self)@ == header_set(old(self)@, cursor),
    {
        self.session_cursor = cursor;
        self.session_header = cursor == 0;
    }

    fn on_header_key(&mut self, k: KeyCode, host: &Host) -> (r: WizardAction)
        ensures
            (final(self)@, r@) == header_key(old(self)@, k, host@),
    {
        if k == KeyCode::Esc {
            self.step = Step::Provider;
            return WizardAction::Idle;
        }
        if input::key_up(k) {
            self.set_header(input::move_up(self.session_cursor));
            return WizardAction::Idle;
        }
        if input::key_down(k) {
            self.set_header(input::move_down(self.session_cursor, 1));
            return WizardAction::Idle;
        }
        if input::key_letter(k, 'y', 'Y') {
            self.set_header(0);
            return self.start_querying(host);
        }
        if input::key_letter(k, 'n', 'N') {
            self.set_header(1);
            return self.start_querying(host);
        }
        if input::key_go(k) {
            self.start_querying(host)
        } else {
            WizardAction::Idle
        }
    }

    fn take_model(&mut self)
        ensures
            final(self)@ == model_taken(old(self)@),
    {
        if self.models.len() > 0 {
            let i: usize = input::at_most(self.model_cursor, self.models.len() - 1);
            proof {
                assert(self@.models[i as int] == self.models@[i as int]@);
            }
            self.model = self.models[i].clone();
        }
        self.enter_protocol_select();
    }

    fn on_model_key(&mut self, k: KeyCode)
        ensures
            final(self)@ == model_key(old(self)@, k),
    {
        if input::key_up(k) {
            self.model_cursor = input::move_up(self.model_cursor);
            return;
        }
        if input::key_down(k) {
            let last: usize = input::last_index(self.models.len());
            self.model_cursor = input::move_down(self.model_cursor, last);
            return;
        }
        if input::key_go(k) {
            self.take_model();
            return;
        }
        if input::key_letter(k, 'm', 'M') {
            self.typing = true;
            self.input_buf = String::new();
            return;
        }
        if k == KeyCode::Esc {
            self.step = Step::Provider;
        }
    }

    fn set_protocol(&mut self, cursor: usize)
        ensures
            final(self)@ == protocol_set(old(self)@, cursor),
    {
        self.protocol_cursor = cursor;
        self.protocol = ProtocolKind::at(cursor);
    }

    fn on_protocol_key(&mut self, k: KeyCode)
        ensures
            final(self)@ == protocol_key(old(self)@, k),
    {
        if input::key_up(k) {
            self.set_protocol(input::move_up(self.protocol_cursor));
            return;
        }
        if input::key_down(k) {
            self.set_protocol(input::move_down(self.protocol_cursor, 1));
            return;
        }
        if input::key_go(k) {
            self.step = Step::ApiKey;
            return;
        }
        if k == KeyCode::Esc {
            self.step = Step::ModelSelect;
        }
    }

    fn on_secret_key(&mut self, k: KeyCode, host: &Host) -> (r: WizardAction)
        ensures
            (final(self)@, r@) == secret_key(old(self)@, k, host@),
    {
        if k == KeyCode::Esc {
            self.step = if self.models.len() == 0 {
                Step::Provider
            } else {
                Step::ProtocolSelect
            };
        } else if input::key_letter(k, 's', 'S') {
            return self.start_verifying(host);
        } else if k == KeyCode::Enter {
            self.step = Step::ContextWindow;
        } else if input::key_letter(k, 'e', 'E') {
            self.typing = true;
            self.input_buf = self.api_key.clone();
            self.api_key = String::new();
        }
        WizardAction::Idle
    }

    fn on_window_key(&mut self, k: KeyCode, host: &Host) -> (r: WizardAction)
        ensures
            (final(self)@, r@) == window_key(old(self)@, k, host@),
    {
        match input::key_digit(k) {
            Some(c) => {
                self.typing = true;
                self.typing_context_window = true;
                self.input_buf = text::of_char(c);
                self.notice = text::copy(ASK_WINDOW);
            },
            None => {
                if input::key_edit(k) {
                    self.typing = true;
                    self.typing_context_window = true;
                    self.input_buf = opt_dec(self.context_window);
                    self.notice = text::copy(ASK_WINDOW);
                } else if k == KeyCode::Enter {
                    self.step = Step::MaxTurns;
                } else if input::key_letter(k, 's', 'S') {
                    return self.start_verifying(host);
                } else if k == KeyCode::Esc {
                    self.step = Step::ApiKey;
                }
            },
        }
        WizardAction::Idle
    }

    fn on_turns_key(&mut self, k: KeyCode)
        ensures
            final(self)@ == turns_key(old(self)@, k),
    {
        match input::key_digit(k) {
            Some(c) => {
                self.typing = true;
                self.typing_max_turns = true;
                self.input_buf = text::of_char(c);
                self.notice = text::copy(ASK_TURNS);
            },
            None => {
                if input::key_edit(k) {
                    self.typing = true;
                    self.typing_max_turns = true;
                    self.input_buf = opt_dec(self.max_turns);
                    self.notice = text::copy(ASK_TURNS);
                } else if k == KeyCode::Enter || input::key_letter(k, 's', 'S') {
                    self.enter_retry();
                } else if k == KeyCode::Esc {
                    self.step = Step::ContextWindow;
                }
            },
        }
    }

    fn ask_retry(&mut self)
        ensures
            final(self)@ == (WizardView {
                typing: true,
                typing_retry: true,
                notice: ASK_RETRY@,
                input_buf: retry_decimal(old(self)@.retry),
                ..old(self)@
            }),
    {
        self.typing = true;
        self.typing_retry = true;
        self.notice = text::copy(ASK_RETRY);
        self.input_buf = if self.retry.enabled {
            text::dec(self.retry.max_retries)
        } else {
            String::new()
        };
    }

    fn on_retry_key(&mut self, k: KeyCode)
        ensures
            final(self)@ == retry_key(old(self)@, k),
    {
        if input::key_up(k) {
            self.apply_retry_cursor(input::move_up(self.retry_cursor));
            return;
        }
        if input::key_down(k) {
            self.apply_retry_cursor(input::move_down(self.retry_cursor, 4));
            return;
        }
        match input::key_digit(k) {
            Some(c) => {
                self.typing = true;
                self.typing_retry = true;
                self.input_buf = text::of_char(c);
                self.notice = text::copy(ASK_RETRY);
            },
            None => {
                if input::key_edit(k) || (k == KeyCode::Enter && self.retry_cursor >= 4) {
                    self.ask_retry();
                } else if k == KeyCode::Enter || input::key_letter(k, 's', 'S') {
                    self.enter_proxy();
                } else if k == KeyCode::Esc {
                    self.step = Step::MaxTurns;
                }
            },
        }
    }

    fn ask_proxy(&mut self, input: String)
        ensures
            final(self)@ == (WizardView {
                typing: true,
                typing_proxy: true,
                notice: ASK_PROXY@,
                input_buf: input@,
                ..old(self)@
            }),
    {
        self.typing = true;
        self.typing_proxy = true;
        self.notice = text::copy(ASK_PROXY);
        self.input_buf = input;
    }

    fn on_proxy_key(&mut self, k: KeyCode, host: &Host) -> (r: WizardAction)
        ensures
            (final(self)@, r@) == proxy_key(old(self)@, k, host@),
    {
        if input::key_up(k) {
            self.apply_proxy_cursor(input::move_up(self.proxy_cursor));
            return WizardAction::Idle;
        }
        if input::key_down(k) {
            self.apply_proxy_cursor(input::move_down(self.proxy_cursor, 2));
            return WizardAction::Idle;
        }
        if input::key_letter(k, 'y', 'Y') {
            self.apply_proxy_cursor(0);
            self.notice = text::copy(PROXY_IS_AUTO);
            return WizardAction::Idle;
        }
        if input::key_letter(k, 'n', 'N') {
            self.apply_proxy_cursor(1);
            self.notice = text::copy(PROXY_IS_OFF);
            return WizardAction::Idle;
        }
        match input::key_digit(k) {
            Some(c) => {
                self.ask_proxy(text::of_char(c));
                return WizardAction::Idle;
            },
            None => {},
        }
        if input::key_edit(k) || k == KeyCode::Enter {
            self.ask_proxy(settings::or_empty(&self.proxy.url));
            return WizardAction::Idle;
        }
        if input::key_letter(k, 's', 'S') {
            return self.start_verifying(host);
        }
        if k == KeyCode::Esc {
            self.step = Step::Retry;
        }
        WizardAction::Idle
    }

    /// Takes in a text that was typed and confirmed.
    fn confirm_typed(&mut self, v: String, host: &Host)
        ensures
            final(self)@ == typed(old(self)@, v@, host@),
    {
        if self.typing_context_window {
            self.confirm_window(v);
        } else if self.typing_max_turns {
            self.confirm_turns(v, host);
        } else if self.typing_retry {
            self.confirm_retry(v);
        } else if self.typing_proxy {
            self.confirm_proxy(v, host);
        } else if self.step == Step::Provider && text::same(
            self.provider.as_str(),
            settings::CUSTOM,
        ) {
            if settings::check_scheme(v.as_str()) {
                self.base_url = v;
                self.session_header = false;
                self.enter_session_header();
            } else {
                self.notice = text::copy(BAD_ENDPOINT);
                self.typing = true;
            }
        } else if self.step == Step::ModelSelect {
            if settings::is_blank(v.as_str()) {
                self.notice = text::copy(NO_MODEL);
                self.typing = true;
            } else {
                self.model = v;
                self.enter_protocol_select();
            }
        } else {
            self.api_key = v;
            self.key_from_env = false;
            self.notice = text::copy(KEY_SET);
        }
    }

    fn confirm_window(&mut self, v: String)
        ensures
            final(self)@ == typed_window(old(self)@, v@),
    {
        match settings::parse_context_window_input(v.as_str()) {
            Ok(None) => {
                self.typing_context_window = false;
                self.context_window = None;
                self.notice = text::copy(WINDOW_IS_AUTO);
            },
            Ok(Some(n)) => {
                self.typing_context_window = false;
                self.context_window = Some(n);
                self.notice =
                text::cat3("上下文窗口:", text::dec(n).as_str(), " tokens。按 s 验证并完成");
            },
            Err(m) => {
                self.typing_context_window = true;
                self.typing = true;
                self.input_buf = scan::trim(v.as_str());
                self.notice = text::copy(m);
            },
        }
    }

    fn confirm_turns(&mut self, v: String, host: &Host)
        ensures
            final(self)@ == typed_turns(old(self)@, v@, host@),
    {
        match settings::parse_max_turns_input(v.as_str()) {
            Ok(None) => {
                self.typing_max_turns = false;
                self.max_turns = None;
                self.notice =
                text::cat3(
                    "轮数上限:随默认(",
                    text::dec(host.default_turns).as_str(),
                    " 轮)。按 s 验证并完成",
                );
            },
            Ok(Some(n)) => {
                self.typing_max_turns = false;
                self.max_turns = Some(n);
                self.notice = if n == 0 {
                    text::copy(TURNS_UNLIMITED)
                } else {
                    text::cat3("轮数上限:", text::dec(n).as_str(), " 轮。按 s 验证并完成")
                };
            },
            Err(m) => {
                self.typing_max_turns = true;
                self.typing = true;
                self.input_buf = scan::trim(v.as_str());
                self.notice = text::copy(m);
            },
        }
    }

    fn confirm_retry(&mut self, v: String)
        ensures
            final(self)@ == typed_retry(old(self)@, v@),
    {
        match settings::parse_retry_input(v.as_str()) {
            Ok(r) => {
                self.typing_retry = false;
                self.retry = r;
                self.retry_cursor = r.index();
                self.notice = if r.enabled {
                    text::cat3(
                        "弱网重试:开启(失败后追加 ",
                        text::dec(r.max_retries).as_str(),
                        " 次)。按 s 验证并完成",
                    )
                } else {
                    text::copy(RETRY_IS_OFF)
                };
            },
            Err(m) => {
                self.typing_retry = true;
                self.typing = true;
                self.input_buf = scan::trim(v.as_str());
                self.notice = text::copy(m);
            },
        }
    }

    fn again_proxy(&mut self, input: String, notice: String)
        ensures
            final(self)@ == (WizardView {
                typing_proxy: true,
                typing: true,
                input_buf: input@,
                notice: notice@,
                ..old(self)@
            }),
    {
        self.typing_proxy = true;
        self.typing = true;
        self.input_buf = input;
        self.notice = notice;
    }

    fn confirm_proxy(&mut self, v: String, host: &Host)
        ensures
            final(self)@ == typed_proxy(old(self)@, v@, host@),
    {
        let t = scan::trim(v.as_str());
        if settings::is_blank(t.as_str()) {
            self.typing_proxy = false;
            self.proxy = ProxyConfig::auto();
            self.proxy_cursor = 0;
            self.notice = text::copy(PROXY_IS_AUTO);
            return;
        }
        match &host.proxy_check {
            ProxyCheck::Malformed => {
                self.again_proxy(t, text::copy(BAD_PROXY));
            },
            ProxyCheck::Refused(e) => {
                self.again_proxy(t, text::cat2(e.as_str(), AGAIN_PROXY));
            },
            ProxyCheck::Normal(n) => {
                self.typing_proxy = false;
                self.proxy = ProxyConfig { mode: ProxyMode::Manual, url: Some(n.clone()) };
                self.proxy_cursor = 2;
                self.notice = text::copy(PROXY_SET);
            },
        }
    }
}

/// Which of `n` models are in sight: the first of them, and how many.
pub fn model_window(n: usize, cursor: usize) -> (r: (usize, usize))
    ensures
        (r.0 as nat, r.1 as nat) == window_of(n as nat, cursor),
        r.0 + r.1 <= n,
{
    if n <= MODEL_WINDOW {
        return (0, n);
    }
    let half: usize = MODEL_WINDOW / 2;
    let last: usize = n - MODEL_WINDOW;
    let first: usize = if cursor < half {
        0
    } else if cursor - half <= last {
        cursor - half
    } else {
        last
    };
    (first, MODEL_WINDOW)
}

/// A number, or nothing.
pub fn opt_dec(n: Option<usize>) -> (r: String)
    ensures
        r@ == opt_decimal(n),
{
    match n {
        Some(n) => text::dec(n),
        None => String::new(),
    }
}

/// A text without its line ends.
pub fn drop_line_ends(s: &str) -> (r: String)
    ensures
        r@ == one_line(s@),
{
    let v = text::chars_of(s);
    let mut out = String::new();
    let mut i: usize = 0;
    proof {
        assert(s@.take(0) =~= Seq::<char>::empty());
    }
    while i < v.len()
        invariant
            v@ == s@,
            i <= v.len(),
            out@ == one_line(s@.take(i as int)),
        decreases v.len() - i,
    {
        proof {
            assert(s@.take(i + 1).drop_last() =~= s@.take(i as int));
            assert(s@.take(i + 1).last() == s@[i as int]);
        }
        if v[i] != '\n' && v[i] != '\r' {
            out.push(v[i]);
        }
        i += 1;
    }
    proof {
        assert(s@.take(i as int) =~= s@);
    }
    out
}

// ----------------------------------------------------------------------- laws

/// The settings that belong to a provider.
pub open spec fn provider_settings(w: WizardView) -> (
    (Seq<char>, Seq<char>, bool, Seq<Seq<char>>, usize),
    (Option<usize>, ProtocolKind, usize, bool, usize),
) {
    (
        (w.model, w.api_key, w.key_from_env, w.models, w.model_cursor),
        (w.context_window, w.protocol, w.protocol_cursor, w.session_header, w.session_cursor),
    )
}

/// The settings that belong to no provider.
pub open spec fn global_settings(w: WizardView) -> (Option<usize>, RetryConfig, ProxyView) {
    (w.max_turns, w.retry, w.proxy)
}

/// Changing to another provider takes over that provider's settings and nothing of
/// the one before: the outcome is the same wherever the wizard comes from.
pub proof fn law_switching_is_isolated(v: WizardView, w: WizardView, name: Seq<char>, h: HostView)
    requires
        v.provider_defs == w.provider_defs,
        v.provider != name,
        w.provider != name,
    ensures
        provider_settings(switched(v, name, h)) == provider_settings(switched(w, name, h)),
{
}

/// Changing to another provider leaves the limit of turns, the retries and the
/// proxy as they are.
pub proof fn law_switching_keeps_global_settings(w: WizardView, name: Seq<char>, h: HostView)
    ensures
        global_settings(switched(w, name, h)) == global_settings(w),
        global_settings(provider_chosen(w, h)) == global_settings(w),
{
}

/// Choosing the current provider again loses none of its settings.
pub proof fn law_choosing_again_keeps_settings(w: WizardView, h: HostView)
    requires
        w.providers.len() > 0,
        w.providers[input::least(w.cursor, (w.providers.len() - 1) as usize) as int].0
            == w.provider,
        w.session_cursor == yes_index(w.session_header),
    ensures
        provider_settings(provider_chosen(w, h)) == provider_settings(w),
{
}

/// A key that is to be found in the environment is never filled in, so that it is
/// never saved in the open.
pub proof fn law_environment_key_is_not_filled_in(w: WizardView, c: ConfigView)
    ensures
        with_config(w, c).key_from_env ==> with_config(w, c).api_key.len() == 0,
{
}

/// A list of models that arrives leaves the cursor on the current model, so that
/// confirming it changes nothing.
pub proof fn law_current_model_stays(w: WizardView, models: Seq<Seq<char>>)
    requires
        0 < models.len() < usize::MAX,
        w.model.len() > 0,
    ensures
        ({
            let x = with_models(w, Ok(models));
            &&& x.model_cursor < x.models.len()
            &&& x.models[x.model_cursor as int] == w.model
            &&& model_taken(x).model == w.model
        }),
{
    let all = offered(w, models);
    settings::lemma_text_from(models, w.model, 0);
    settings::lemma_text_from(all, w.model, 0);
    if settings::text_from(models, w.model, 0) == models.len() {
        assert(all[0] == w.model);
    }
    assert(settings::text_from(all, w.model, 0) < all.len());
}

/// How far a step is from the first.
pub open spec fn rank(s: Step) -> nat {
    match s {
        Step::Provider => 0,
        Step::SessionHeader => 1,
        Step::Querying => 2,
        Step::ModelSelect => 3,
        Step::ProtocolSelect => 4,
        Step::ApiKey => 5,
        Step::ContextWindow => 6,
        Step::MaxTurns => 7,
        Step::Retry => 8,
        Step::Proxy => 9,
        Step::Verifying => 10,
    }
}

/// `Esc` always leads back: out of a text that is being typed, or to an earlier
/// step, and from the first step out of the wizard. Nothing else is changed by
/// going back a step.
pub proof fn law_esc_leads_back(w: WizardView, h: HostView)
    ensures
        ({
            let (x, a) = on_key_of(w, KeyCode::Esc, h);
            if w.typing {
                !x.typing && x.step == w.step && a is Idle
            } else if w.step == Step::Provider {
                x == w && a is Exit
            } else {
                rank(x.step) < rank(w.step) && x == (WizardView { step: x.step, ..w })
                    && a is Idle
            }
        }),
{
}

/// A connection is tried only on `s`, only while nothing is being typed, and as the
/// wizard stands.
pub proof fn law_trial_is_of_the_draft(w: WizardView, k: KeyCode, h: HostView)
    ensures
        on_key_of(w, k, h).1 is Verify ==> {
            &&& !w.typing
            &&& input::is_letter(k, 's', 'S')
            &&& on_key_of(w, k, h).1 == ActionView::Verify(draft_of(w, h))
            &&& on_key_of(w, k, h).0.step == Step::Verifying
        },
{
}

/// A text that is refused changes no setting: it stays in the input line to be
/// corrected.
pub proof fn law_refused_text_is_given_back(w: WizardView, v: Seq<char>, h: HostView)
    ensures
        settings::window_input(v) is None ==> {
            &&& typed_window(w, v).context_window == w.context_window
            &&& typed_window(w, v).typing && typed_window(w, v).typing_context_window
            &&& typed_window(w, v).input_buf == scan::trimmed(v)
        },
        settings::turns_input(v) is None ==> {
            &&& typed_turns(w, v, h).max_turns == w.max_turns
            &&& typed_turns(w, v, h).typing && typed_turns(w, v, h).typing_max_turns
            &&& typed_turns(w, v, h).input_buf == scan::trimmed(v)
        },
        settings::retry_input(v) is None ==> {
            &&& typed_retry(w, v).retry == w.retry
            &&& typed_retry(w, v).typing && typed_retry(w, v).typing_retry
            &&& typed_retry(w, v).input_buf == scan::trimmed(v)
        },
{
}

/// The model under the cursor is in sight, whatever the length of the list.
pub proof fn law_cursor_is_in_sight(n: nat, cursor: usize)
    requires
        cursor < n,
    ensures
        ({
            let (first, count) = window_of(n, cursor);
            first <= cursor < first + count && first + count <= n && count <= MODEL_WINDOW
        }),
{
}

/// The number of retries never exceeds the most that one call may take.
pub proof fn law_retries_are_bounded(w: WizardView, v: Seq<char>, c: ConfigView)
    requires
        w.retry.max_retries <= settings::MAX_RETRIES,
    ensures
        typed_retry(w, v).retry.max_retries <= settings::MAX_RETRIES,
        with_config(w, c).retry.max_retries <= settings::MAX_RETRIES,
        forall|k: KeyCode| (#[trigger] retry_key(w, k)).retry.max_retries <= settings::MAX_RETRIES,
{
}

} // verus!
