//! The panel that changes one setting at a time: a menu, an editor for each
//! setting, and two ways to finish: save at once, or try the connection first.
use crate::config_ui;
use crate::input;
use crate::input::{KeyCode, KeyEvent};
use crate::scan;
use crate::settings;
use crate::settings::{
    Config, ConfigView, DefView, EffectiveProxy, EffectiveView, Host, HostView, ProtocolKind,
    ProviderDef, ProxyCheck, ProxyConfig, ProxyMode, ProxyView, Resolved, ResolvedView,
    RetryConfig,
};
use crate::text;
use vstd::prelude::*;

verus! {

/// A setting that can be changed on its own.
#[derive(Clone, Copy, Debug, PartialEq, Eq, Structural)]
pub enum QcItem {
    Provider,
    Model,
    Protocol,
    ApiKey,
    BaseUrl,
    ContextWindow,
    MaxTurns,
    Retry,
    SessionHeader,
    Proxy,
}

/// How many settings there are.
pub const ITEM_COUNT: usize = 10;

/// How an edit is finished.
#[derive(Clone, Copy, Debug, PartialEq, Eq, Structural)]
pub enum SubmitKind {
    Direct,
    Verified,
}

/// Where the panel stands.
#[derive(Clone, Copy, Debug, PartialEq, Eq, Structural)]
pub enum QcStep {
    Menu,
    Edit(QcItem),
    Verifying { item: QcItem },
}

/// The place of a setting in the menu.
pub open spec fn item_index(i: QcItem) -> usize {
    match i {
        QcItem::Provider => 0,
        QcItem::Model => 1,
        QcItem::Protocol => 2,
        QcItem::ApiKey => 3,
        QcItem::BaseUrl => 4,
        QcItem::ContextWindow => 5,
        QcItem::MaxTurns => 6,
        QcItem::Retry => 7,
        QcItem::SessionHeader => 8,
        QcItem::Proxy => 9,
    }
}

/// The setting at a place of the menu; behind the end it is the last one.
pub open spec fn item_at(i: int) -> QcItem {
    if i == 0 {
        QcItem::Provider
    } else if i == 1 {
        QcItem::Model
    } else if i == 2 {
        QcItem::Protocol
    } else if i == 3 {
        QcItem::ApiKey
    } else if i == 4 {
        QcItem::BaseUrl
    } else if i == 5 {
        QcItem::ContextWindow
    } else if i == 6 {
        QcItem::MaxTurns
    } else if i == 7 {
        QcItem::Retry
    } else if i == 8 {
        QcItem::SessionHeader
    } else {
        QcItem::Proxy
    }
}

/// The name of a setting.
pub open spec fn item_title(i: QcItem) -> Seq<char> {
    match i {
        QcItem::Provider => "服务商切换"@,
        QcItem::Model => "模型"@,
        QcItem::Protocol => "协议类型"@,
        QcItem::ApiKey => "API Key"@,
        QcItem::BaseUrl => "端点 base_url"@,
        QcItem::ContextWindow => "上下文窗口"@,
        QcItem::MaxTurns => "轮次上限"@,
        QcItem::Retry => "弱网重试"@,
        QcItem::SessionHeader => "会话头开关"@,
        QcItem::Proxy => "网络代理"@,
    }
}

/// Whether a setting has nothing to do with the connection.
pub open spec fn item_local(i: QcItem) -> bool {
    i == QcItem::ContextWindow || i == QcItem::MaxTurns || i == QcItem::Retry || i
        == QcItem::SessionHeader
}

/// The mark behind a setting.
pub open spec fn item_tag(i: QcItem) -> Seq<char> {
    if item_local(i) {
        "[本地]"@
    } else {
        "[建议验证]"@
    }
}

impl QcItem {
    /// The place of the setting in the menu.
    pub fn index(self) -> (r: usize)
        ensures
            r == item_index(self),
            r < ITEM_COUNT,
    {
        match self {
            QcItem::Provider => 0,
            QcItem::Model => 1,
            QcItem::Protocol => 2,
            QcItem::ApiKey => 3,
            QcItem::BaseUrl => 4,
            QcItem::ContextWindow => 5,
            QcItem::MaxTurns => 6,
            QcItem::Retry => 7,
            QcItem::SessionHeader => 8,
            QcItem::Proxy => 9,
        }
    }

    /// The setting at a place of the menu; behind the end it is the last one.
    pub fn from_index(i: usize) -> (r: QcItem)
        ensures
            r == item_at(i as int),
    {
        match i {
            0 => QcItem::Provider,
            1 => QcItem::Model,
            2 => QcItem::Protocol,
            3 => QcItem::ApiKey,
            4 => QcItem::BaseUrl,
            5 => QcItem::ContextWindow,
            6 => QcItem::MaxTurns,
            7 => QcItem::Retry,
            8 => QcItem::SessionHeader,
            _ => QcItem::Proxy,
        }
    }

    /// The name of the setting.
    pub fn title(self) -> (r: &'static str)
        ensures
            r@ == item_title(self),
    {
        match self {
            QcItem::Provider => "服务商切换",
            QcItem::Model => "模型",
            QcItem::Protocol => "协议类型",
            QcItem::ApiKey => "API Key",
            QcItem::BaseUrl => "端点 base_url",
            QcItem::ContextWindow => "上下文窗口",
            QcItem::MaxTurns => "轮次上限",
            QcItem::Retry => "弱网重试",
            QcItem::SessionHeader => "会话头开关",
            QcItem::Proxy => "网络代理",
        }
    }

    /// Whether the setting has nothing to do with the connection.
    pub fn is_local(self) -> (r: bool)
        ensures
            r == item_local(self),
    {
        self == QcItem::ContextWindow || self == QcItem::MaxTurns || self == QcItem::Retry || self
            == QcItem::SessionHeader
    }

    /// How an edit of the setting is finished by default: a local one is saved at
    /// once, any other after a trial.
    pub fn default_submit(self) -> (r: SubmitKind)
        ensures
            r == SubmitKind::Direct <==> item_local(self),
            r == SubmitKind::Verified <==> !item_local(self),
    {
        if self.is_local() {
            SubmitKind::Direct
        } else {
            SubmitKind::Verified
        }
    }

    /// The mark behind the setting.
    pub fn tag(self) -> (r: &'static str)
        ensures
            r@ == item_tag(self),
    {
        if self.is_local() {
            "[本地]"
        } else {
            "[建议验证]"
        }
    }
}

/// Every setting has a place of its own in the menu, and every place a setting.
pub proof fn law_menu_places(i: QcItem, p: int)
    ensures
        item_at(item_index(i) as int) == i,
        0 <= p < ITEM_COUNT ==> item_index(item_at(p)) == p,
{
}

// --------------------------------------------------------------------- aliases

/// A text with `-` for each `_`.
pub open spec fn dashed(s: Seq<char>) -> Seq<char> {
    s.map_values(
        |c: char|
            if c == '_' {
                '-'
            } else {
                c
            },
    )
}

fn dash(s: &str) -> (r: String)
    ensures
        r@ == dashed(s@),
{
    let v = text::chars_of(s);
    let mut out = String::new();
    let mut i: usize = 0;
    while i < v.len()
        invariant
            v@ == s@,
            i <= v.len(),
            out@ == dashed(s@).take(i as int),
        decreases v.len() - i,
    {
        let c = if v[i] == '_' {
            '-'
        } else {
            v[i]
        };
        out.push(c);
        proof {
            assert(dashed(s@).take(i + 1) =~= dashed(s@).take(i as int).push(c));
        }
        i += 1;
    }
    proof {
        assert(dashed(s@).take(i as int) =~= dashed(s@));
    }
    out
}

/// The setting that a name stands for.
pub open spec fn named_item(n: Seq<char>) -> Option<QcItem> {
    if n == "retry"@ || n == "重试"@ {
        Some(QcItem::Retry)
    } else if n == "window"@ || n == "ctx"@ || n == "上下文"@ || n == "context"@ || n
        == "context-window"@ {
        Some(QcItem::ContextWindow)
    } else if n == "turns"@ || n == "max-turns"@ || n == "轮次"@ || n == "maxturns"@ {
        Some(QcItem::MaxTurns)
    } else if n == "key"@ || n == "apikey"@ || n == "api-key"@ {
        Some(QcItem::ApiKey)
    } else if n == "model"@ || n == "模型"@ {
        Some(QcItem::Model)
    } else if n == "url"@ || n == "base-url"@ || n == "baseurl"@ || n == "端点"@ {
        Some(QcItem::BaseUrl)
    } else if n == "protocol"@ || n == "协议"@ {
        Some(QcItem::Protocol)
    } else if n == "provider"@ || n == "服务商"@ {
        Some(QcItem::Provider)
    } else if n == "session-header"@ || n == "sessionheader"@ || n == "会话头"@ {
        Some(QcItem::SessionHeader)
    } else if n == "proxy"@ || n == "代理"@ || n == "网络代理"@ || n == "network-proxy"@ {
        Some(QcItem::Proxy)
    } else {
        None
    }
}

fn is_one(n: &str, a: &str, b: &str) -> (r: bool)
    ensures
        r == (n@ == a@ || n@ == b@),
{
    text::same(n, a) || text::same(n, b)
}

/// The setting that a name in lower case, with `-` for `_`, stands for.
pub fn item_named(n: &str) -> (r: Option<QcItem>)
    ensures
        r == named_item(n@),
{
    if is_one(n, "retry", "重试") {
        return Some(QcItem::Retry);
    }
    if is_one(n, "window", "ctx") || is_one(n, "上下文", "context") || text::same(
        n,
        "context-window",
    ) {
        return Some(QcItem::ContextWindow);
    }
    if is_one(n, "turns", "max-turns") || is_one(n, "轮次", "maxturns") {
        return Some(QcItem::MaxTurns);
    }
    if is_one(n, "key", "apikey") || text::same(n, "api-key") {
        return Some(QcItem::ApiKey);
    }
    if is_one(n, "model", "模型") {
        return Some(QcItem::Model);
    }
    if is_one(n, "url", "base-url") || is_one(n, "baseurl", "端点") {
        return Some(QcItem::BaseUrl);
    }
    if is_one(n, "protocol", "协议") {
        return Some(QcItem::Protocol);
    }
    if is_one(n, "provider", "服务商") {
        return Some(QcItem::Provider);
    }
    if is_one(n, "session-header", "sessionheader") || text::same(n, "会话头") {
        return Some(QcItem::SessionHeader);
    }
    if is_one(n, "proxy", "代理") || is_one(n, "网络代理", "network-proxy") {
        return Some(QcItem::Proxy);
    }
    None
}

/// The setting that a text names, whatever its case, with `-` and `_` alike and white
/// space around it aside. No name holds a sigma.
pub open spec fn alias_of(s: Seq<char>) -> Option<QcItem> {
    let t = scan::trimmed(s);
    if t.contains('Σ') {
        None
    } else {
        named_item(dashed(text::small_text(t)))
    }
}

/// Names of settings are made of ASCII and ideographs.
proof fn lemma_names_are_simple(n: Seq<char>)
    requires
        named_item(n) is Some,
    ensures
        text::all_simple(n),
{
    reveal_strlit("retry");
    reveal_strlit("重试");
    reveal_strlit("window");
    reveal_strlit("ctx");
    reveal_strlit("上下文");
    reveal_strlit("context");
    reveal_strlit("context-window");
    reveal_strlit("turns");
    reveal_strlit("max-turns");
    reveal_strlit("轮次");
    reveal_strlit("maxturns");
    reveal_strlit("key");
    reveal_strlit("apikey");
    reveal_strlit("api-key");
    reveal_strlit("model");
    reveal_strlit("模型");
    reveal_strlit("url");
    reveal_strlit("base-url");
    reveal_strlit("baseurl");
    reveal_strlit("端点");
    reveal_strlit("protocol");
    reveal_strlit("协议");
    reveal_strlit("provider");
    reveal_strlit("服务商");
    reveal_strlit("session-header");
    reveal_strlit("sessionheader");
    reveal_strlit("会话头");
    reveal_strlit("proxy");
    reveal_strlit("代理");
    reveal_strlit("网络代理");
    reveal_strlit("network-proxy");
    assert forall|i: int| 0 <= i < n.len() implies text::is_simple(#[trigger] n[i]) by {}
}

/// The setting that a text names, whatever its case, with `-` and `_` alike and
/// white space around it aside.
pub fn parse_qc_alias(s: &str) -> (r: Option<QcItem>)
    ensures
        r == named_item(dashed(text::lowered(scan::trimmed(s@)))),
        r == alias_of(s@),
{
    let t = scan::trim(s);
    let low = text::lowercase(t.as_str());
    let n = dash(low.as_str());
    proof {
        if t@.contains('Σ') && named_item(n@) is Some {
            lemma_names_are_simple(n@);
            let i = choose|i: int| 0 <= i < low@.len() && (low@[i] == 'σ' || low@[i] == 'ς');
            assert(text::is_simple(n@[i]));
        }
    }
    item_named(n.as_str())
}

/// One letter in either case, one character, or `-` and `_`.
pub open spec fn same_letter(a: char, b: char) -> bool {
    text::ascii_lower(a) == text::ascii_lower(b) || ((a == '-' || a == '_') && (b == '-' || b
        == '_'))
}

/// Texts that differ in the case of their letters, and in `-` and `_`, alone.
pub open spec fn alike(s: Seq<char>, t: Seq<char>) -> bool {
    s.len() == t.len() && forall|i: int|
        0 <= i < s.len() ==> same_letter(#[trigger] s[i], t[i])
}

proof fn lemma_alike_small(s: Seq<char>, t: Seq<char>)
    requires
        alike(s, t),
    ensures
        dashed(text::small_text(s)) == dashed(text::small_text(t)),
    decreases s.len(),
{
    if s.len() > 0 {
        let a = s.drop_last();
        let b = t.drop_last();
        assert forall|i: int| 0 <= i < a.len() implies same_letter(#[trigger] a[i], b[i]) by {
            assert(same_letter(s[i], t[i]));
        }
        lemma_alike_small(a, b);
        assert(same_letter(s[s.len() - 1], t[t.len() - 1]));
        assert(dashed(text::small_of(s.last())) =~= dashed(text::small_of(t.last())));
        lemma_dashed_add(text::small_text(a), text::small_of(s.last()));
        lemma_dashed_add(text::small_text(b), text::small_of(t.last()));
    }
}

proof fn lemma_dashed_add(s: Seq<char>, t: Seq<char>)
    ensures
        dashed(s + t) == dashed(s) + dashed(t),
{
    assert(dashed(s + t) =~= dashed(s) + dashed(t));
}

/// Texts that differ in the case of their letters, in `-` and `_`, and in the white
/// space around them alone name the same setting, or none both.
pub proof fn law_aliases_are_spelled_freely(
    s: Seq<char>,
    t: Seq<char>,
    before: Seq<char>,
    after: Seq<char>,
)
    requires
        alike(s, t),
        forall|i: int| 0 <= i < before.len() ==> text::is_white(#[trigger] before[i]),
        forall|i: int| 0 <= i < after.len() ==> text::is_white(#[trigger] after[i]),
    ensures
        alias_of(before + t + after) == alias_of(s),
{
    let (i, j) = scan::lemma_trimmed_part(s);
    let w = before + t + after;
    let n = before.len() as int;
    assert forall|k: int| 0 <= k < n + i implies text::is_white(#[trigger] w[k]) by {
        if k < n {
            assert(w[k] == before[k]);
        } else {
            assert(same_letter(s[k - n], t[k - n]));
        }
    }
    assert forall|k: int| n + j <= k < w.len() implies text::is_white(#[trigger] w[k]) by {
        if k < n + t.len() {
            assert(same_letter(s[k - n], t[k - n]));
        } else {
            assert(w[k] == after[k - n - t.len()]);
        }
    }
    if i < j {
        assert(same_letter(s[i], t[i]) && same_letter(s[j - 1], t[j - 1]));
    }
    scan::lemma_trimmed_is(w, n + i, n + j);
    let a = scan::trimmed(s);
    let b = scan::trimmed(w);
    assert(alike(a, b)) by {
        assert forall|k: int| 0 <= k < a.len() implies same_letter(#[trigger] a[k], b[k]) by {
            assert(same_letter(s[i + k], t[i + k]));
        }
    }
    lemma_alike_small(a, b);
    if a.contains('Σ') {
        let k = choose|k: int| 0 <= k < a.len() && a[k] == 'Σ';
        assert(same_letter(a[k], b[k]));
        assert(b[k] == 'Σ');
    }
    if b.contains('Σ') {
        let k = choose|k: int| 0 <= k < b.len() && b[k] == 'Σ';
        assert(same_letter(a[k], b[k]));
        assert(a[k] == 'Σ');
    }
}

// ------------------------------------------------------------------- the panel

/// What the host has to do.
#[derive(Debug)]
pub enum QuickCfgAction {
    /// Nothing.
    Idle,
    /// Leave the panel.
    Exit,
    /// Save the setting.
    Save(QcItem),
    /// Try the connection.
    Verify(Resolved),
    /// Ask for the list of models.
    FetchModels {
        base_url: String,
        api_key: Option<String>,
        session_header: Option<String>,
        proxy: EffectiveProxy,
    },
}

/// What an action says.
pub enum QuickView {
    Idle,
    Exit,
    Save(QcItem),
    Verify(ResolvedView),
    FetchModels {
        base_url: Seq<char>,
        api_key: Option<Seq<char>>,
        session_header: Option<Seq<char>>,
        proxy: EffectiveView,
    },
}

impl View for QuickCfgAction {
    type V = QuickView;

    open spec fn view(&self) -> QuickView {
        match self {
            QuickCfgAction::Idle => QuickView::Idle,
            QuickCfgAction::Exit => QuickView::Exit,
            QuickCfgAction::Save(i) => QuickView::Save(*i),
            QuickCfgAction::Verify(r) => QuickView::Verify(r@),
            QuickCfgAction::FetchModels { base_url, api_key, session_header, proxy } => {
                QuickView::FetchModels {
                    base_url: base_url@,
                    api_key: settings::opt_text(*api_key),
                    session_header: settings::opt_text(*session_header),
                    proxy: proxy@,
                }
            },
        }
    }
}

/// The panel.
#[derive(Debug)]
pub struct QuickCfgPanel {
    pub step: QcStep,
    pub menu_cursor: usize,
    /// The providers to choose from: name, endpoint, default model.
    pub providers: Vec<(String, String, String)>,
    pub cursor: usize,
    pub provider: String,
    pub base_url: String,
    pub api_key: String,
    pub model: String,
    pub models: Vec<String>,
    pub model_cursor: usize,
    pub protocol: ProtocolKind,
    pub protocol_cursor: usize,
    pub session_header: bool,
    pub session_cursor: usize,
    pub context_window: Option<usize>,
    pub max_turns: Option<usize>,
    pub retry: RetryConfig,
    pub retry_cursor: usize,
    pub proxy: ProxyConfig,
    pub proxy_cursor: usize,
    pub typing: bool,
    pub input_buf: String,
    /// Whether the endpoint of a custom provider is being typed.
    pub typing_custom_url: bool,
    pub typing_context_window: bool,
    pub typing_max_turns: bool,
    pub typing_retry: bool,
    pub typing_proxy: bool,
    pub key_from_env: bool,
    /// The variable that the key comes from.
    pub key_env_name: Option<String>,
    pub provider_defs: Vec<(String, ProviderDef)>,
    pub notice: String,
    pub progress: String,
}

/// What the panel holds.
pub struct PanelView {
    pub step: QcStep,
    pub menu_cursor: usize,
    pub providers: Seq<(Seq<char>, Seq<char>, Seq<char>)>,
    pub cursor: usize,
    pub provider: Seq<char>,
    pub base_url: Seq<char>,
    pub api_key: Seq<char>,
    pub model: Seq<char>,
    pub models: Seq<Seq<char>>,
    pub model_cursor: usize,
    pub protocol: ProtocolKind,
    pub protocol_cursor: usize,
    pub session_header: bool,
    pub session_cursor: usize,
    pub context_window: Option<usize>,
    pub max_turns: Option<usize>,
    pub retry: RetryConfig,
    pub retry_cursor: usize,
    pub proxy: ProxyView,
    pub proxy_cursor: usize,
    pub typing: bool,
    pub input_buf: Seq<char>,
    pub typing_custom_url: bool,
    pub typing_context_window: bool,
    pub typing_max_turns: bool,
    pub typing_retry: bool,
    pub typing_proxy: bool,
    pub key_from_env: bool,
    pub key_env_name: Option<Seq<char>>,
    pub provider_defs: Seq<(Seq<char>, DefView)>,
    pub notice: Seq<char>,
    pub progress: Seq<char>,
}

impl View for QuickCfgPanel {
    type V = PanelView;

    open spec fn view(&self) -> PanelView {
        PanelView {
            step: self.step,
            menu_cursor: self.menu_cursor,
            providers: settings::choice_views(self.providers@),
            cursor: self.cursor,
            provider: self.provider@,
            base_url: self.base_url@,
            api_key: self.api_key@,
            model: self.model@,
            models: scan::texts(self.models@),
            model_cursor: self.model_cursor,
            protocol: self.protocol,
            protocol_cursor: self.protocol_cursor,
            session_header: self.session_header,
            session_cursor: self.session_cursor,
            context_window: self.context_window,
            max_turns: self.max_turns,
            retry: self.retry,
            retry_cursor: self.retry_cursor,
            proxy: self.proxy@,
            proxy_cursor: self.proxy_cursor,
            typing: self.typing,
            input_buf: self.input_buf@,
            typing_custom_url: self.typing_custom_url,
            typing_context_window: self.typing_context_window,
            typing_max_turns: self.typing_max_turns,
            typing_retry: self.typing_retry,
            typing_proxy: self.typing_proxy,
            key_from_env: self.key_from_env,
            key_env_name: settings::opt_text(self.key_env_name),
            provider_defs: settings::def_views(self.provider_defs@),
            notice: self.notice@,
            progress: self.progress@,
        }
    }
}

pub const NOW_CUSTOM: &'static str = "已切到 custom,建议按 v 验证连通。";

pub const WINDOW_SET: &'static str = "上下文窗口已更新,按 s 直接提交,或 v 验证后提交。";

pub const TURNS_SET: &'static str = "轮次上限已更新,按 s 直接提交,或 v 验证后提交。";

pub const RETRY_SET: &'static str = "弱网重试已更新,按 s 直接提交,或 v 验证后提交。";

pub const PROXY_BACK: &'static str = "代理已切回跟随环境,按 s 直接提交,或 v 验证后提交。";

pub const PROXY_NEW: &'static str = "代理已更新,`s` 直存 / `v` 验证后提交。";

pub const MODEL_SET: &'static str = "模型已更新,按 s 直接提交,或 v 验证后提交。";

pub const MODEL_TAKEN: &'static str = "模型已选中,按 s 直接提交,或 v 验证后提交。";

pub const KEY_NEW: &'static str = "key 已更新,按 s 直接提交,或 v 验证后提交。";

pub const URL_SET: &'static str = "端点已更新,建议按 v 验证后提交。";

pub const NO_LIST: &'static str = "该服务商没返回模型列表(可能不支持 /models),按 m 手动输入:";

pub const ASK_CUSTOM: &'static str = "输入自定义端点(base_url),例如 http://localhost:11434/v1:";

pub const ASK_MODEL: &'static str = "手动输入模型名(回车确认):";

pub const PROTOCOL_TAKEN: &'static str = "协议已选择,按 s 直接提交,或 v 验证后提交。";

pub const ASK_KEY: &'static str = "输入新的 API Key(回车确认,不回显旧值):";

pub const ASK_URL: &'static str = "输入新端点(回车确认,须 http(s):// 开头):";

pub const ASK_WINDOW: &'static str = "输入上下文窗口 token 数(留空 = 按模型名自动识别):";

pub const ASK_RETRY: &'static str = "输入弱网重试次数(空/0 = 关闭,1..=8,超限按 8 算):";

pub const RETRY_TAKEN: &'static str = "档位已选,按 s 直接提交,或 v 验证后提交。";

pub const HEADER_ON: &'static str = "会话头:开。按 s 直接提交,或 v 验证后提交。";

pub const HEADER_OFF: &'static str = "会话头:关。按 s 直接提交,或 v 验证后提交。";

pub const HEADER_TAKEN: &'static str = "会话头已选择,按 s 直接提交,或 v 验证后提交。";

pub const PROXY_AUTO: &'static str = "代理:跟随环境。按 s 直接提交,或 v 验证后提交。";

pub const PROXY_OFF: &'static str = "代理:直连(忽略环境代理)。按 s 直接提交,或 v 验证后提交。";

// ----------------------------------------------------------------- transitions

/// The panel as it starts.
pub open spec fn panel_start(choices: Seq<(Seq<char>, Seq<char>, Seq<char>)>) -> PanelView {
    PanelView {
        step: QcStep::Menu,
        menu_cursor: 0,
        providers: choices,
        cursor: 0,
        provider: Seq::empty(),
        base_url: Seq::empty(),
        api_key: Seq::empty(),
        model: Seq::empty(),
        models: Seq::empty(),
        model_cursor: 0,
        protocol: ProtocolKind::Chat,
        protocol_cursor: 0,
        session_header: false,
        session_cursor: 1,
        context_window: None,
        max_turns: None,
        retry: settings::retry_off(),
        retry_cursor: 0,
        proxy: settings::proxy_auto(),
        proxy_cursor: 0,
        typing: false,
        input_buf: Seq::empty(),
        typing_custom_url: false,
        typing_context_window: false,
        typing_max_turns: false,
        typing_retry: false,
        typing_proxy: false,
        key_from_env: false,
        key_env_name: None,
        provider_defs: Seq::empty(),
        notice: Seq::empty(),
        progress: Seq::empty(),
    }
}

/// The panel at the provider, model and endpoint of a configuration.
pub open spec fn with_endpoint(p: PanelView, c: ConfigView) -> PanelView {
    let provider = match config_ui::config_provider(c) {
        Some(n) => n,
        None => p.provider,
    };
    let place = settings::choice_from(p.providers, provider, 0);
    PanelView {
        provider,
        cursor: if config_ui::config_provider(c) is Some && place < p.providers.len() {
            place as usize
        } else {
            p.cursor
        },
        model: match c.resolved {
            Some(e) => e.model,
            None => p.model,
        },
        base_url: match c.resolved {
            Some(e) => e.base_url,
            None => p.base_url,
        },
        ..p
    }
}

/// The panel with what a configuration and its entry `d` of the current provider
/// say of the key, the window, the protocol and the session header.
pub open spec fn with_entry(p: PanelView, c: ConfigView, d: DefView) -> PanelView {
    PanelView {
        provider_defs: c.providers,
        api_key: config_ui::config_key(c, d),
        key_from_env: config_ui::config_key_in_env(c, d),
        key_env_name: if config_ui::config_key_in_env(c, d) {
            d.api_key_env
        } else {
            None
        },
        context_window: d.context_window,
        protocol: config_ui::config_protocol(c, d),
        protocol_cursor: settings::protocol_index(config_ui::config_protocol(c, d)),
        session_header: d.session_header,
        session_cursor: config_ui::yes_index(d.session_header),
        ..p
    }
}

/// The panel with the limit of turns, the retries and the proxy of a configuration.
pub open spec fn with_limits(p: PanelView, c: ConfigView) -> PanelView {
    PanelView {
        max_turns: c.max_turns,
        retry: config_ui::config_retry(c.retry),
        retry_cursor: settings::retry_index(config_ui::config_retry(c.retry)),
        proxy: config_ui::config_proxy(c.proxy),
        proxy_cursor: settings::mode_index(c.proxy.mode),
        ..p
    }
}

/// The panel with an existing configuration filled in.
pub open spec fn with_config(p: PanelView, c: ConfigView) -> PanelView {
    let x = with_endpoint(p, c);
    with_limits(with_entry(x, c, settings::def_of(c.providers, x.provider)), c)
}

/// The panel in the menu, with the configuration on disk where there is one.
pub open spec fn opened(
    choices: Seq<(Seq<char>, Seq<char>, Seq<char>)>,
    c: Option<ConfigView>,
) -> PanelView {
    match c {
        Some(c) => with_config(panel_start(choices), c),
        None => panel_start(choices),
    }
}

/// Nothing is being typed, and what was typed is dropped.
pub open spec fn not_typing(p: PanelView) -> PanelView {
    PanelView {
        typing: false,
        input_buf: Seq::empty(),
        typing_custom_url: false,
        typing_context_window: false,
        typing_max_turns: false,
        typing_retry: false,
        typing_proxy: false,
        ..p
    }
}

/// The panel in the editor of a setting, with the cursor on its value.
pub open spec fn editing(p: PanelView, item: QcItem) -> PanelView {
    let x = PanelView { step: QcStep::Edit(item), notice: Seq::empty(), ..not_typing(p) };
    match item {
        QcItem::Model => {
            let place = settings::text_from(p.models, p.model, 0);
            if place < p.models.len() {
                PanelView { model_cursor: place as usize, ..x }
            } else {
                x
            }
        },
        QcItem::Protocol => PanelView {
            protocol_cursor: settings::protocol_index(p.protocol),
            ..x
        },
        QcItem::SessionHeader => PanelView {
            session_cursor: config_ui::yes_index(p.session_header),
            ..x
        },
        QcItem::Retry => PanelView { retry_cursor: settings::retry_index(p.retry), ..x },
        QcItem::Proxy => PanelView { proxy_cursor: settings::mode_index(p.proxy.mode), ..x },
        _ => x,
    }
}

/// The panel with the settings of the named provider, and nothing of another's.
pub open spec fn with_defaults(p: PanelView, name: Seq<char>, h: HostView) -> PanelView {
    let d = settings::def_of(p.provider_defs, name);
    let protocol = match d.protocol {
        Some(x) => x,
        None => ProtocolKind::Chat,
    };
    let from_env = settings::filled(d.api_key) is None && d.api_key_env is Some;
    PanelView {
        model: settings::text_or_empty(d.model),
        api_key: config_ui::key_of(d, h.vars),
        key_from_env: from_env,
        key_env_name: if from_env {
            d.api_key_env
        } else {
            None
        },
        model_cursor: 0,
        models: Seq::empty(),
        context_window: d.context_window,
        protocol,
        protocol_cursor: settings::protocol_index(protocol),
        session_header: d.session_header,
        session_cursor: config_ui::yes_index(d.session_header),
        ..p
    }
}

/// The connection that the panel stands at.
pub open spec fn draft_of(p: PanelView, h: HostView) -> ResolvedView {
    ResolvedView {
        provider_name: p.provider,
        model: p.model,
        base_url: p.base_url,
        api_key: settings::some_filled(p.api_key),
        context_window: p.context_window,
        protocol: p.protocol,
        session_header_enabled: p.session_header,
        retry: p.retry,
        proxy: settings::effective(p.proxy, h.env_proxy),
    }
}

/// The last four characters of a text, or all of it.
pub open spec fn tail4(s: Seq<char>) -> Seq<char> {
    if s.len() > 4 {
        s.skip(s.len() - 4)
    } else {
        s
    }
}

/// How the key is shown: where it comes from, or its last four characters.
pub open spec fn key_shown(p: PanelView) -> Seq<char> {
    if p.key_from_env {
        match p.key_env_name {
            Some(n) => "来自环境变量 "@ + n + "(未落盘)"@,
            None => "来自环境变量(未落盘)"@,
        }
    } else if p.api_key.len() == 0 {
        "未设置(本地端点可留空)"@
    } else {
        "已设置(****"@ + tail4(p.api_key) + ")"@
    }
}

/// The text, or a note that there is none.
pub open spec fn text_or_unset(s: Seq<char>) -> Seq<char> {
    if s.len() == 0 {
        "(未设置)"@
    } else {
        s
    }
}

/// How the value of a setting is shown.
pub open spec fn value_shown(p: PanelView, item: QcItem, h: HostView) -> Seq<char> {
    match item {
        QcItem::Provider => text_or_unset(p.provider),
        QcItem::Model => text_or_unset(p.model),
        QcItem::Protocol => settings::protocol_name(p.protocol),
        QcItem::ApiKey => key_shown(p),
        QcItem::BaseUrl => text_or_unset(p.base_url),
        QcItem::ContextWindow => settings::window_shown(p.context_window),
        QcItem::MaxTurns => settings::turns_shown(p.max_turns, h.default_turns),
        QcItem::Retry => settings::retry_shown(p.retry),
        QcItem::Proxy => settings::proxy_shown(p.proxy, h),
        QcItem::SessionHeader => if p.session_header {
            "开"@
        } else {
            "关"@
        },
    }
}

/// The models that are shown: those of the provider, with the current one in front
/// where it is not among them.
pub open spec fn offered(p: PanelView, models: Seq<Seq<char>>) -> Seq<Seq<char>> {
    if p.model.len() > 0 && settings::text_from(models, p.model, 0) == models.len() {
        models.insert(0, p.model)
    } else {
        models
    }
}

/// The panel with the list of models, or with the reason why there is none: a model is
/// then typed in, beginning with the current one. Nothing is taken in during a trial.
pub open spec fn with_models(
    p: PanelView,
    r: Result<Seq<Seq<char>>, Seq<char>>,
) -> PanelView {
    let x = PanelView { typing: false, ..p };
    if p.step is Verifying {
        p
    } else {
        match r {
            Ok(models) => if models.len() > 0 {
                let all = offered(p, models);
                let place = settings::text_from(all, p.model, 0);
                PanelView {
                    models: all,
                    model_cursor: if place < all.len() {
                        place as usize
                    } else {
                        p.model_cursor
                    },
                    notice: "找到 "@ + text::decimal(all.len())
                        + " 个模型:↑↓ 选择,Enter 确认,m 手动输入"@,
                    ..x
                }
            } else {
                PanelView { models: Seq::empty(), notice: NO_LIST@, ..x }
            },
            Err(e) => PanelView {
                step: QcStep::Edit(QcItem::Model),
                models: Seq::empty(),
                typing: true,
                input_buf: p.model,
                notice: "模型列表查询失败: "@ + e + "\n直接输入模型名(回车继续):"@,
                ..not_typing(p)
            },
        }
    }
}

/// The panel once a trial went well and the setting was saved: the menu is shown.
pub open spec fn verified(p: PanelView, item: QcItem, detail: Seq<char>) -> PanelView {
    PanelView {
        step: QcStep::Menu,
        notice: "✔ 验证通过:"@ + item_title(item) + "已保存并生效。"@ + detail,
        ..p
    }
}

/// The panel once a trial failed: the editor is open again.
pub open spec fn refused(p: PanelView, item: QcItem, reason: Seq<char>) -> PanelView {
    PanelView {
        step: QcStep::Edit(item),
        notice: "✘ 验证失败:"@ + reason + "。改完按 v 重试,或 Esc 回菜单。"@,
        ..p
    }
}

/// The panel once a setting was saved without a trial: the menu is shown, and a setting
/// of the connection comes with a warning.
pub open spec fn saved(p: PanelView, item: QcItem, extra: Seq<char>) -> PanelView {
    PanelView {
        step: QcStep::Menu,
        notice: "✔ "@ + item_title(item) + (if item_local(item) {
            "已保存并生效。"@
        } else {
            "已保存并生效。⚠ 未验证连通,建议进该项按 v 跑一次验证。"@
        }) + extra,
        ..p
    }
}

/// The panel waits for the connection to be tried.
pub open spec fn tried(p: PanelView, item: QcItem, h: HostView) -> (PanelView, QuickView) {
    (
        PanelView {
            step: QcStep::Verifying { item },
            progress: "正在验证 "@ + p.provider + " / "@ + p.model + " …(Esc 取消)"@,
            ..p
        },
        QuickView::Verify(draft_of(p, h)),
    )
}

/// The list of models is asked for.
pub open spec fn models_asked(p: PanelView, h: HostView) -> QuickView {
    QuickView::FetchModels {
        base_url: p.base_url,
        api_key: settings::some_filled(p.api_key),
        session_header: if p.session_header {
            Some(h.probe)
        } else {
            None
        },
        proxy: settings::effective(p.proxy, h.env_proxy),
    }
}

// --- what a typed text does

/// What a typed endpoint of a custom provider does.
pub open spec fn typed_custom(p: PanelView, v: Seq<char>) -> PanelView {
    if settings::is_endpoint(v) {
        PanelView {
            typing_custom_url: false,
            provider: settings::CUSTOM@,
            base_url: scan::trimmed(v),
            session_header: false,
            session_cursor: 1,
            notice: NOW_CUSTOM@,
            ..p
        }
    } else {
        PanelView {
            typing_custom_url: true,
            typing: true,
            notice: config_ui::BAD_ENDPOINT@,
            ..p
        }
    }
}

/// What a typed context window does.
pub open spec fn typed_window(p: PanelView, v: Seq<char>) -> PanelView {
    match settings::window_input(v) {
        Some(n) => PanelView {
            typing_context_window: false,
            context_window: n,
            notice: WINDOW_SET@,
            ..p
        },
        None => PanelView {
            typing_context_window: true,
            typing: true,
            input_buf: scan::trimmed(v),
            notice: settings::BAD_WINDOW@,
            ..p
        },
    }
}

/// What a typed limit of turns does.
pub open spec fn typed_turns(p: PanelView, v: Seq<char>) -> PanelView {
    match settings::turns_input(v) {
        Some(n) => PanelView { typing_max_turns: false, max_turns: n, notice: TURNS_SET@, ..p },
        None => PanelView {
            typing_max_turns: true,
            typing: true,
            input_buf: scan::trimmed(v),
            notice: settings::BAD_TURNS@,
            ..p
        },
    }
}

/// What a typed number of retries does.
pub open spec fn typed_retry(p: PanelView, v: Seq<char>) -> PanelView {
    match settings::retry_input(v) {
        Some(r) => PanelView {
            typing_retry: false,
            retry: r,
            retry_cursor: settings::retry_index(r),
            notice: RETRY_SET@,
            ..p
        },
        None => PanelView {
            typing_retry: true,
            typing: true,
            input_buf: scan::trimmed(v),
            notice: settings::BAD_RETRY@,
            ..p
        },
    }
}

/// What a typed address of a proxy does.
pub open spec fn typed_proxy(p: PanelView, v: Seq<char>, h: HostView) -> PanelView {
    let t = scan::trimmed(v);
    let again = PanelView { typing_proxy: true, typing: true, input_buf: t, ..p };
    if t.len() == 0 {
        PanelView {
            typing_proxy: false,
            proxy: settings::proxy_auto(),
            proxy_cursor: 0,
            notice: PROXY_BACK@,
            ..p
        }
    } else {
        match h.proxy_check {
            settings::CheckView::Malformed => PanelView {
                notice: config_ui::BAD_PROXY@,
                ..again
            },
            settings::CheckView::Refused(e) => PanelView {
                notice: e + config_ui::AGAIN_PROXY@,
                ..again
            },
            settings::CheckView::Normal(n) => PanelView {
                typing_proxy: false,
                proxy: ProxyView { mode: ProxyMode::Manual, url: Some(n) },
                proxy_cursor: 2,
                notice: PROXY_NEW@,
                ..p
            },
        }
    }
}

/// A model, a key or an endpoint that was typed, as the setting says.
pub open spec fn typed_item(p: PanelView, item: QcItem, v: Seq<char>) -> PanelView {
    match item {
        QcItem::Model => if scan::trimmed(v).len() == 0 {
            PanelView { notice: config_ui::NO_MODEL@, typing: true, ..p }
        } else {
            PanelView { model: scan::trimmed(v), notice: MODEL_SET@, ..p }
        },
        QcItem::ApiKey => PanelView {
            api_key: v,
            key_from_env: false,
            key_env_name: None,
            notice: KEY_NEW@,
            ..p
        },
        QcItem::BaseUrl => if settings::is_endpoint(v) {
            PanelView { base_url: scan::trimmed(v), notice: URL_SET@, ..p }
        } else {
            PanelView { notice: config_ui::BAD_ENDPOINT@, typing: true, ..p }
        },
        _ => p,
    }
}

/// What the text that was typed does.
pub open spec fn typed(p: PanelView, item: QcItem, v: Seq<char>, h: HostView) -> PanelView {
    if p.typing_custom_url {
        typed_custom(p, v)
    } else if p.typing_context_window {
        typed_window(p, v)
    } else if p.typing_max_turns {
        typed_turns(p, v)
    } else if p.typing_retry {
        typed_retry(p, v)
    } else if p.typing_proxy {
        typed_proxy(p, v, h)
    } else {
        typed_item(p, item, v)
    }
}

/// The setting that is being edited.
pub open spec fn edited_item(p: PanelView) -> QcItem {
    match p.step {
        QcStep::Edit(i) => i,
        _ => QcItem::Model,
    }
}

/// What a key does while a text is being typed.
pub open spec fn typing_key(p: PanelView, k: KeyCode, h: HostView) -> PanelView {
    match k {
        KeyCode::Enter => typed(
            PanelView { input_buf: Seq::empty(), typing: false, ..p },
            edited_item(p),
            scan::trimmed(p.input_buf),
            h,
        ),
        KeyCode::Esc => not_typing(p),
        KeyCode::Backspace => PanelView { input_buf: text::without_last(p.input_buf), ..p },
        KeyCode::Char(c) => PanelView { input_buf: p.input_buf.push(c), ..p },
        _ => p,
    }
}

// --- what a key does in the menu and in the editors

/// A setting has been chosen in the menu.
pub open spec fn item_chosen(p: PanelView, item: QcItem, h: HostView) -> (PanelView, QuickView) {
    let x = editing(p, item);
    if item == QcItem::Model && p.models.len() == 0 {
        (x, models_asked(x, h))
    } else {
        (x, QuickView::Idle)
    }
}

/// The place in the menu that a digit stands for: `1` is the first, `0` the last.
pub open spec fn digit_place(c: char) -> usize {
    if c == '0' {
        9
    } else {
        ((c as u32) - ('1' as u32)) as usize
    }
}

/// What a key does in the menu.
pub open spec fn menu_key(p: PanelView, k: KeyCode, h: HostView) -> (PanelView, QuickView) {
    if k == KeyCode::Esc {
        (p, QuickView::Exit)
    } else if input::is_up(k) {
        (PanelView { menu_cursor: input::up(p.menu_cursor), ..p }, QuickView::Idle)
    } else if input::is_down(k) {
        (PanelView { menu_cursor: input::down(p.menu_cursor, 9), ..p }, QuickView::Idle)
    } else if input::is_go(k) {
        item_chosen(p, item_at(p.menu_cursor as int), h)
    } else if input::is_digit_key(k) {
        let i = digit_place(k->Char_0);
        item_chosen(PanelView { menu_cursor: i, ..p }, item_at(i as int), h)
    } else {
        (p, QuickView::Idle)
    }
}

/// The provider under the cursor has been chosen.
pub open spec fn provider_chosen(p: PanelView, h: HostView) -> PanelView {
    let name = p.providers[input::least(p.cursor, (p.providers.len() - 1) as usize) as int].0;
    if name == settings::CUSTOM@ {
        PanelView {
            typing: true,
            typing_custom_url: true,
            input_buf: Seq::empty(),
            notice: ASK_CUSTOM@,
            ..p
        }
    } else {
        PanelView {
            notice: "已切到 "@ + name + ",建议按 v 验证连通(可在菜单继续微调)。"@,
            ..with_defaults(PanelView { provider: name, ..p }, name, h)
        }
    }
}

/// What a key does in the editor of the provider.
pub open spec fn provider_key(p: PanelView, k: KeyCode, h: HostView) -> PanelView {
    if input::is_up(k) {
        PanelView { cursor: input::up(p.cursor), ..p }
    } else if input::is_down(k) {
        PanelView { cursor: input::down(p.cursor, input::last_of(p.providers.len())), ..p }
    } else if input::is_go(k) && p.providers.len() > 0 {
        provider_chosen(p, h)
    } else {
        p
    }
}

/// What a key does in the editor of the model.
pub open spec fn model_key(p: PanelView, k: KeyCode) -> PanelView {
    if input::is_up(k) {
        PanelView { model_cursor: input::up(p.model_cursor), ..p }
    } else if input::is_down(k) {
        PanelView {
            model_cursor: input::down(p.model_cursor, input::last_of(p.models.len())),
            ..p
        }
    } else if input::is_go(k) && p.models.len() > 0 {
        PanelView {
            model: p.models[input::least(p.model_cursor, (p.models.len() - 1) as usize) as int],
            notice: MODEL_TAKEN@,
            ..p
        }
    } else if input::is_letter(k, 'm', 'M') {
        PanelView { typing: true, input_buf: Seq::empty(), notice: ASK_MODEL@, ..p }
    } else {
        p
    }
}

/// The protocol at a place of the list is chosen.
pub open spec fn protocol_set(p: PanelView, cursor: usize) -> PanelView {
    PanelView { protocol_cursor: cursor, protocol: settings::protocol_at(cursor), ..p }
}

/// What a key does in the editor of the protocol.
pub open spec fn protocol_key(p: PanelView, k: KeyCode) -> PanelView {
    if input::is_up(k) {
        protocol_set(p, input::up(p.protocol_cursor))
    } else if input::is_down(k) {
        protocol_set(p, input::down(p.protocol_cursor, 1))
    } else if input::is_go(k) {
        PanelView { notice: PROTOCOL_TAKEN@, ..p }
    } else {
        p
    }
}

/// What a key does in the editor of the API key.
pub open spec fn secret_key(p: PanelView, k: KeyCode) -> PanelView {
    if input::is_letter(k, 'e', 'E') || k == KeyCode::Enter {
        PanelView { typing: true, input_buf: Seq::empty(), notice: ASK_KEY@, ..p }
    } else {
        p
    }
}

/// What a key does in the editor of the endpoint.
pub open spec fn url_key(p: PanelView, k: KeyCode) -> PanelView {
    if input::is_letter(k, 'e', 'E') || k == KeyCode::Enter {
        PanelView { typing: true, input_buf: p.base_url, notice: ASK_URL@, ..p }
    } else {
        p
    }
}

/// What a key does in the editor of the context window.
pub open spec fn window_key(p: PanelView, k: KeyCode) -> PanelView {
    let ask = PanelView { typing: true, typing_context_window: true, notice: ASK_WINDOW@, ..p };
    if input::is_digit_key(k) {
        PanelView { input_buf: seq![k->Char_0], ..ask }
    } else if input::is_edit(k) || k == KeyCode::Enter {
        PanelView { input_buf: config_ui::opt_decimal(p.context_window), ..ask }
    } else {
        p
    }
}

/// What a key does in the editor of the limit of turns.
pub open spec fn turns_key(p: PanelView, k: KeyCode) -> PanelView {
    let ask = PanelView {
        typing: true,
        typing_max_turns: true,
        notice: config_ui::ASK_TURNS@,
        ..p
    };
    if input::is_digit_key(k) {
        PanelView { input_buf: seq![k->Char_0], ..ask }
    } else if input::is_edit(k) || k == KeyCode::Enter {
        PanelView { input_buf: config_ui::opt_decimal(p.max_turns), ..ask }
    } else {
        p
    }
}

/// The retry setting at a place of the list is chosen; the last place keeps it.
pub open spec fn retry_set(p: PanelView, cursor: usize) -> PanelView {
    PanelView {
        retry_cursor: cursor,
        retry: match settings::retry_at(cursor) {
            Some(r) => r,
            None => p.retry,
        },
        ..p
    }
}

/// What a key does in the editor of the retries.
pub open spec fn retry_key(p: PanelView, k: KeyCode) -> PanelView {
    let ask = PanelView { typing: true, typing_retry: true, notice: ASK_RETRY@, ..p };
    if input::is_up(k) {
        retry_set(p, input::up(p.retry_cursor))
    } else if input::is_down(k) {
        retry_set(p, input::down(p.retry_cursor, 4))
    } else if input::is_digit_key(k) {
        PanelView { input_buf: seq![k->Char_0], ..ask }
    } else if input::is_edit(k) || (k == KeyCode::Enter && p.retry_cursor >= 4) {
        PanelView { input_buf: config_ui::retry_decimal(p.retry), ..ask }
    } else if k == KeyCode::Enter {
        PanelView { notice: RETRY_TAKEN@, ..p }
    } else {
        p
    }
}

/// The session header is on or off.
pub open spec fn header_set(p: PanelView, cursor: usize) -> PanelView {
    PanelView { session_cursor: cursor, session_header: cursor == 0, ..p }
}

/// What a key does in the editor of the session header.
pub open spec fn header_key(p: PanelView, k: KeyCode) -> PanelView {
    if input::is_up(k) {
        header_set(p, input::up(p.session_cursor))
    } else if input::is_down(k) {
        header_set(p, input::down(p.session_cursor, 1))
    } else if input::is_letter(k, 'y', 'Y') {
        PanelView { notice: HEADER_ON@, ..header_set(p, 0) }
    } else if input::is_letter(k, 'n', 'N') {
        PanelView { notice: HEADER_OFF@, ..header_set(p, 1) }
    } else if input::is_go(k) {
        PanelView { notice: HEADER_TAKEN@, ..p }
    } else {
        p
    }
}

/// The proxy setting at a place of the list is chosen.
pub open spec fn proxy_set(p: PanelView, cursor: usize) -> PanelView {
    PanelView { proxy_cursor: cursor, proxy: settings::proxy_at(cursor, p.proxy.url), ..p }
}

/// What a key does in the editor of the proxy.
pub open spec fn proxy_key(p: PanelView, k: KeyCode) -> PanelView {
    let ask = PanelView {
        typing: true,
        typing_proxy: true,
        notice: config_ui::ASK_PROXY@,
        ..p
    };
    if input::is_up(k) {
        proxy_set(p, input::up(p.proxy_cursor))
    } else if input::is_down(k) {
        proxy_set(p, input::down(p.proxy_cursor, 2))
    } else if input::is_letter(k, 'y', 'Y') {
        PanelView { notice: PROXY_AUTO@, ..proxy_set(p, 0) }
    } else if input::is_letter(k, 'n', 'N') {
        PanelView { notice: PROXY_OFF@, ..proxy_set(p, 1) }
    } else if input::is_digit_key(k) {
        PanelView { input_buf: seq![k->Char_0], ..ask }
    } else if input::is_edit(k) || k == KeyCode::Enter {
        PanelView { input_buf: settings::text_or_empty(p.proxy.url), ..ask }
    } else {
        p
    }
}

/// What a key does in the editor of a setting, the finishing keys aside.
pub open spec fn item_key(p: PanelView, item: QcItem, k: KeyCode, h: HostView) -> PanelView {
    match item {
        QcItem::Provider => provider_key(p, k, h),
        QcItem::Model => model_key(p, k),
        QcItem::Protocol => protocol_key(p, k),
        QcItem::ApiKey => secret_key(p, k),
        QcItem::BaseUrl => url_key(p, k),
        QcItem::ContextWindow => window_key(p, k),
        QcItem::MaxTurns => turns_key(p, k),
        QcItem::Retry => retry_key(p, k),
        QcItem::SessionHeader => header_key(p, k),
        QcItem::Proxy => proxy_key(p, k),
    }
}

/// What a key does in the editor of a setting.
pub open spec fn edit_key(p: PanelView, item: QcItem, k: KeyCode, h: HostView) -> (
    PanelView,
    QuickView,
) {
    if input::is_letter(k, 's', 'S') {
        (p, QuickView::Save(item))
    } else if input::is_letter(k, 'v', 'V') {
        tried(p, item, h)
    } else if k == KeyCode::Esc {
        (
            PanelView { step: QcStep::Menu, menu_cursor: item_index(item), ..p },
            QuickView::Idle,
        )
    } else {
        (item_key(p, item, k, h), QuickView::Idle)
    }
}

/// What a key does.
pub open spec fn on_key_of(p: PanelView, k: KeyCode, h: HostView) -> (PanelView, QuickView) {
    if p.typing {
        (typing_key(p, k, h), QuickView::Idle)
    } else {
        match p.step {
            QcStep::Menu => menu_key(p, k, h),
            QcStep::Edit(item) => edit_key(p, item, k, h),
            QcStep::Verifying { item } => if k == KeyCode::Esc {
                (
                    PanelView { step: QcStep::Edit(item), progress: Seq::empty(), ..p },
                    QuickView::Idle,
                )
            } else {
                (p, QuickView::Idle)
            },
        }
    }
}

// ------------------------------------------------------------------- execution

impl QuickCfgPanel {
    /// The panel in its menu, with the configuration on disk filled in.
    pub fn open_menu(known: Vec<(String, String, String)>, cfg: Option<&Config>) -> (r:
        QuickCfgPanel)
        ensures
            r@ == opened(
                settings::with_custom(settings::choice_views(known@)),
                match cfg {
                    Some(c) => Some(c@),
                    None => None,
                },
            ),
    {
        let mut p = QuickCfgPanel::new(known);
        p.prefill(cfg);
        p
    }

    /// The panel in the editor of a setting. For the model, the host then asks for
    /// the list of models ([`QuickCfgPanel::fetch_models_action`]).
    pub fn open_with(
        item: QcItem,
        known: Vec<(String, String, String)>,
        cfg: Option<&Config>,
    ) -> (r: QuickCfgPanel)
        ensures
            r@ == editing(
                opened(
                    settings::with_custom(settings::choice_views(known@)),
                    match cfg {
                        Some(c) => Some(c@),
                        None => None,
                    },
                ),
                item,
            ),
    {
        let mut p = QuickCfgPanel::open_menu(known, cfg);
        p.enter_edit(item);
        p
    }

    /// The panel as it starts, with the given providers to choose from and one that
    /// is typed in.
    pub fn new(known: Vec<(String, String, String)>) -> (r: QuickCfgPanel)
        ensures
            r@ == panel_start(settings::with_custom(settings::choice_views(known@))),
            r.providers@.len() > 0,
    {
        let providers = settings::provider_list(known);
        let r = QuickCfgPanel {
            step: QcStep::Menu,
            menu_cursor: 0,
            providers,
            cursor: 0,
            provider: String::new(),
            base_url: String::new(),
            api_key: String::new(),
            model: String::new(),
            models: Vec::new(),
            model_cursor: 0,
            protocol: ProtocolKind::Chat,
            protocol_cursor: 0,
            session_header: false,
            session_cursor: 1,
            context_window: None,
            max_turns: None,
            retry: RetryConfig::disabled(),
            retry_cursor: 0,
            proxy: ProxyConfig::auto(),
            proxy_cursor: 0,
            typing: false,
            input_buf: String::new(),
            typing_custom_url: false,
            typing_context_window: false,
            typing_max_turns: false,
            typing_retry: false,
            typing_proxy: false,
            key_from_env: false,
            key_env_name: None,
            provider_defs: Vec::new(),
            notice: String::new(),
            progress: String::new(),
        };
        proof {
            reveal(settings::def_views);
            assert(scan::texts(r.models@) =~= Seq::<Seq<char>>::empty());
            assert(settings::def_views(r.provider_defs@) =~= Seq::<(Seq<char>, DefView)>::empty());
        }
        r
    }

    /// Fills in an existing configuration, and puts the cursor on its provider.
    pub fn apply_config(&mut self, cfg: &Config)
        ensures
            final(self)@ == with_config(old(self)@, cfg@),
    {
        self.apply_endpoint(cfg);
        let d = settings::find_def(&cfg.providers, self.provider.as_str());
        self.apply_entry(cfg, &d);
        self.apply_limits(cfg);
    }

    fn apply_endpoint(&mut self, cfg: &Config)
        ensures
            final(self)@ == with_endpoint(old(self)@, cfg@),
    {
        let provider = match settings::keep_filled(&cfg.provider) {
            Some(p) => Some(p),
            None => match &cfg.resolved {
                Some(e) => Some(e.provider_name.clone()),
                None => None,
            },
        };
        match provider {
            Some(p) => {
                match settings::find_choice(&self.providers, p.as_str()) {
                    Some(i) => {
                        self.cursor = i;
                    },
                    None => {},
                }
                self.provider = p;
            },
            None => {},
        }
        match &cfg.resolved {
            Some(e) => {
                self.model = e.model.clone();
                self.base_url = e.base_url.clone();
            },
            None => {},
        }
    }

    fn apply_entry(&mut self, cfg: &Config, d: &ProviderDef)
        ensures
            final(self)@ == with_entry(old(self)@, cfg@, d@),
    {
        let top = settings::keep_filled(&cfg.api_key);
        let entry = settings::keep_filled(&d.api_key);
        let from_env = top.is_none() && entry.is_none() && d.api_key_env.is_some();
        let api_key = match top {
            Some(k) => k,
            None => settings::or_empty(&entry),
        };
        let env_name = if from_env {
            settings::copy_opt(&d.api_key_env)
        } else {
            None
        };
        let protocol = match cfg.protocol {
            Some(p) => p,
            None => match d.protocol {
                Some(p) => p,
                None => ProtocolKind::Chat,
            },
        };
        let session_cursor: usize = if d.session_header {
            0
        } else {
            1
        };
        self.provider_defs = settings::copy_defs(&cfg.providers);
        self.key_from_env = from_env;
        self.key_env_name = env_name;
        self.api_key = api_key;
        self.context_window = d.context_window;
        self.protocol = protocol;
        self.protocol_cursor = protocol.index();
        self.session_header = d.session_header;
        self.session_cursor = session_cursor;
    }

    fn apply_limits(&mut self, cfg: &Config)
        ensures
            final(self)@ == with_limits(old(self)@, cfg@),
    {
        let retry = RetryConfig {
            enabled: cfg.retry.enabled,
            max_retries: input::at_most(cfg.retry.max_retries, settings::MAX_RETRIES),
        };
        let proxy = if cfg.proxy.mode == ProxyMode::Manual {
            cfg.proxy.copy()
        } else {
            ProxyConfig { mode: cfg.proxy.mode, url: None }
        };
        self.max_turns = cfg.max_turns;
        self.retry = retry;
        self.retry_cursor = retry.index();
        self.proxy = proxy;
        self.proxy_cursor = cfg.proxy.mode.index();
    }

    /// Fills in the configuration on disk, where there is one.
    pub fn prefill(&mut self, cfg: Option<&Config>)
        ensures
            final(self)@ == (match cfg {
                Some(c) => with_config(old(self)@, c@),
                None => old(self)@,
            }),
    {
        match cfg {
            Some(c) => self.apply_config(c),
            None => {},
        }
    }

    /// Whether anything is configured yet.
    pub fn has_configured(&self) -> (r: bool)
        ensures
            r == (self@.provider.len() > 0 || self@.model.len() > 0 || self@.api_key.len() > 0),
    {
        !settings::is_blank(self.provider.as_str()) || !settings::is_blank(self.model.as_str())
            || !settings::is_blank(self.api_key.as_str())
    }

    fn stop_typing(&mut self)
        ensures
            final(self)@ == not_typing(old(self)@),
    {
        self.typing = false;
        self.input_buf = String::new();
        self.typing_custom_url = false;
        self.typing_context_window = false;
        self.typing_max_turns = false;
        self.typing_retry = false;
        self.typing_proxy = false;
    }

    fn enter_edit(&mut self, item: QcItem)
        ensures
            final(self)@ == editing(old(self)@, item),
    {
        self.stop_typing();
        self.step = QcStep::Edit(item);
        self.notice = String::new();
        match item {
            QcItem::Model => {
                match settings::find_text(&self.models, self.model.as_str()) {
                    Some(i) => {
                        self.model_cursor = i;
                    },
                    None => {},
                }
            },
            QcItem::Protocol => {
                self.protocol_cursor = self.protocol.index();
            },
            QcItem::SessionHeader => {
                self.session_cursor = if self.session_header {
                    0
                } else {
                    1
                };
            },
            QcItem::Retry => {
                self.retry_cursor = self.retry.index();
            },
            QcItem::Proxy => {
                self.proxy_cursor = self.proxy.mode.index();
            },
            _ => {},
        }
    }

    fn apply_provider_defaults(&mut self, name: &str, host: &Host)
        ensures
            final(self)@ == with_defaults(old(self)@, name@, host@),
    {
        let d = settings::find_def(&self.provider_defs, name);
        let plain = settings::keep_filled(&d.api_key);
        let from_env = plain.is_none() && d.api_key_env.is_some();
        let env_name = if from_env {
            settings::copy_opt(&d.api_key_env)
        } else {
            None
        };
        let api_key = match plain {
            Some(k) => k,
            None => match &d.api_key_env {
                Some(e) => settings::or_empty(&settings::find_var(&host.vars, e.as_str())),
                None => String::new(),
            },
        };
        let protocol = match d.protocol {
            Some(p) => p,
            None => ProtocolKind::Chat,
        };
        let session_cursor: usize = if d.session_header {
            0
        } else {
            1
        };
        self.model = settings::or_empty(&d.model);
        self.api_key = api_key;
        self.key_from_env = from_env;
        self.key_env_name = env_name;
        self.model_cursor = 0;
        self.models = Vec::new();
        self.context_window = d.context_window;
        self.protocol = protocol;
        self.protocol_cursor = protocol.index();
        self.session_header = d.session_header;
        self.session_cursor = session_cursor;
        proof {
            assert(scan::texts(self.models@) =~= Seq::<Seq<char>>::empty());
        }
    }

    /// The connection that the panel stands at, not tried yet.
    pub fn draft(&self, host: &Host) -> (r: Resolved)
        ensures
            r@ == draft_of(self@, host@),
    {
        Resolved {
            provider_name: self.provider.clone(),
            model: self.model.clone(),
            base_url: self.base_url.clone(),
            api_key: settings::opt_filled(&self.api_key),
            context_window: self.context_window,
            protocol: self.protocol,
            session_header_enabled: self.session_header,
            retry: self.retry,
            proxy: self.effective_proxy_for_draft(host),
        }
    }

    /// The proxy that the connection takes.
    pub fn effective_proxy_for_draft(&self, host: &Host) -> (r: EffectiveProxy)
        ensures
            r@ == settings::effective(self@.proxy, host@.env_proxy),
    {
        settings::effective_proxy(&self.proxy, &host.env_proxy)
    }

    /// How the key is shown: where it comes from, or its last four characters.
    pub fn key_display(&self) -> (r: String)
        ensures
            r@ == key_shown(self@),
    {
        if self.key_from_env {
            return match &self.key_env_name {
                Some(n) => text::cat3("来自环境变量 ", n.as_str(), "(未落盘)"),
                None => text::copy("来自环境变量(未落盘)"),
            };
        }
        if settings::is_blank(self.api_key.as_str()) {
            return text::copy("未设置(本地端点可留空)");
        }
        let v = text::chars_of(self.api_key.as_str());
        let from: usize = if v.len() > 4 {
            v.len() - 4
        } else {
            0
        };
        let tail = text::string_of(&v, from, v.len());
        proof {
            assert(tail@ =~= tail4(self.api_key@));
        }
        text::cat3("已设置(****", tail.as_str(), ")")
    }

    /// How the value of a setting is shown.
    pub fn current_value(&self, item: QcItem, host: &Host) -> (r: String)
        ensures
            r@ == value_shown(self@, item, host@),
    {
        match item {
            QcItem::Provider => or_unset(&self.provider),
            QcItem::Model => or_unset(&self.model),
            QcItem::Protocol => text::copy(self.protocol.as_str()),
            QcItem::ApiKey => self.key_display(),
            QcItem::BaseUrl => or_unset(&self.base_url),
            QcItem::ContextWindow => settings::context_window_text(self.context_window),
            QcItem::MaxTurns => settings::max_turns_text(self.max_turns, host.default_turns),
            QcItem::Retry => settings::retry_text(self.retry),
            QcItem::Proxy => settings::proxy_text(&self.proxy, host),
            QcItem::SessionHeader => if self.session_header {
                text::copy("开")
            } else {
                text::copy("关")
            },
        }
    }

    /// Takes in the list of models, or the reason why there is none.
    pub fn inject_models(&mut self, result: Result<Vec<String>, String>)
        ensures
            final(self)@ == with_models(
                old(self)@,
                match result {
                    Ok(v) => Ok(scan::texts(v@)),
                    Err(e) => Err(e@),
                },
            ),
    {
        match self.step {
            QcStep::Verifying { item: _ } => {
                return;
            },
            _ => {},
        }
        self.typing = false;
        match result {
            Ok(v) => {
                if v.len() > 0 {
                    self.take_models(v);
                } else {
                    self.drop_models(text::copy(NO_LIST));
                }
            },
            Err(e) => {
                self.drop_models(
                    text::cat3("模型列表查询失败: ", e.as_str(), "\n直接输入模型名(回车继续):"),
                );
                self.stop_typing();
                self.step = QcStep::Edit(QcItem::Model);
                self.typing = true;
                self.input_buf = self.model.clone();
            },
        }
    }

    fn drop_models(&mut self, notice: String)
        ensures
            final(self)@ == (PanelView {
                models: Seq::empty(),
                notice: notice@,
                ..old(self)@
            }),
    {
        self.models = Vec::new();
        self.notice = notice;
        proof {
            assert(scan::texts(self.models@) =~= Seq::<Seq<char>>::empty());
        }
    }

    fn take_models(&mut self, v: Vec<String>)
        requires
            v.len() > 0,
            !(old(self).step is Verifying),
            !old(self).typing,
        ensures
            final(self)@ == with_models(old(self)@, Ok(scan::texts(v@))),
    {
        let mut models = v;
        if !settings::is_blank(self.model.as_str()) && settings::find_text(
            &models,
            self.model.as_str(),
        ).is_none() {
            let first = self.model.clone();
            models.insert(0, first);
            proof {
                assert(scan::texts(models@) =~= scan::texts(v@).insert(0, first@));
            }
        }
        let n = text::dec(models.len());
        match settings::find_text(&models, self.model.as_str()) {
            Some(i) => {
                self.model_cursor = i;
            },
            None => {},
        }
        self.models = models;
        self.notice =
        text::cat3("找到 ", n.as_str(), " 个模型:↑↓ 选择,Enter 确认,m 手动输入");
    }

    /// The trial went well, and the setting has been saved.
    pub fn inject_verify_ok(&mut self, item: QcItem, detail: String)
        ensures
            final(self)@ == (PanelView {
                step: QcStep::Menu,
                notice: "✔ 验证通过:"@ + item_title(item) + "已保存并生效。"@ + detail@,
                ..old(self)@
            }),
            final(self)@ == verified(old(self)@, item, detail@),
    {
        self.step = QcStep::Menu;
        self.notice =
        text::cat4("✔ 验证通过:", item.title(), "已保存并生效。", detail.as_str());
    }

    /// The trial failed: nothing has been saved, and the editor stays open.
    pub fn inject_verify_err(&mut self, item: QcItem, reason: String)
        ensures
            final(self)@ == (PanelView {
                step: QcStep::Edit(item),
                notice: "✘ 验证失败:"@ + reason@ + "。改完按 v 重试,或 Esc 回菜单。"@,
                ..old(self)@
            }),
            final(self)@ == refused(old(self)@, item, reason@),
    {
        self.step = QcStep::Edit(item);
        self.notice =
        text::cat3("✘ 验证失败:", reason.as_str(), "。改完按 v 重试,或 Esc 回菜单。");
    }

    /// The setting has been saved without a trial; one that concerns the connection
    /// is shown with a warning.
    pub fn inject_saved(&mut self, item: QcItem, extra: String)
        ensures
            final(self)@ == (PanelView {
                step: QcStep::Menu,
                notice: "✔ "@ + item_title(item) + (if item_local(item) {
                    "已保存并生效。"@
                } else {
                    "已保存并生效。⚠ 未验证连通,建议进该项按 v 跑一次验证。"@
                }) + extra@,
                ..old(self)@
            }),
            final(self)@ == saved(old(self)@, item, extra@),
    {
        self.step = QcStep::Menu;
        let what = if item.is_local() {
            "已保存并生效。"
        } else {
            "已保存并生效。⚠ 未验证连通,建议进该项按 v 跑一次验证。"
        };
        self.notice = text::cat4("✔ ", item.title(), what, extra.as_str());
    }

    /// Takes in a pasted text while a text is being typed. Line ends are dropped, and
    /// nothing is confirmed by it. Says whether it was taken.
    pub fn paste_text(&mut self, text: &str) -> (r: bool)
        ensures
            r == old(self)@.typing,
            final(self)@ == (if old(self)@.typing {
                PanelView {
                    input_buf: old(self)@.input_buf + config_ui::one_line(text@),
                    ..old(self)@
                }
            } else {
                old(self)@
            }),
    {
        if !self.typing {
            return false;
        }
        self.input_buf.append(config_ui::drop_line_ends(text).as_str());
        true
    }

    fn start_verify(&mut self, item: QcItem, host: &Host) -> (r: QuickCfgAction)
        ensures
            (final(self)@, r@) == tried(old(self)@, item, host@),
    {
        self.step = QcStep::Verifying { item };
        self.progress =
        text::cat5(
            "正在验证 ",
            self.provider.as_str(),
            " / ",
            self.model.as_str(),
            " …(Esc 取消)",
        );
        QuickCfgAction::Verify(self.draft(host))
    }

    /// Asks for the list of models.
    pub fn fetch_models_action(&self, host: &Host) -> (r: QuickCfgAction)
        ensures
            r@ == models_asked(self@, host@),
    {
        QuickCfgAction::FetchModels {
            base_url: self.base_url.clone(),
            api_key: settings::opt_filled(&self.api_key),
            session_header: if self.session_header {
                Some(host.probe.clone())
            } else {
                None
            },
            proxy: self.effective_proxy_for_draft(host),
        }
    }

    /// Takes in a key press, and says what the host has to do.
    pub fn on_key(&mut self, key: KeyEvent, host: &Host) -> (r: QuickCfgAction)
        ensures
            (final(self)@, r@) == on_key_of(old(self)@, key.code, host@),
    {
        let k = key.code;
        if self.typing {
            self.on_typing_key(k, host);
            return QuickCfgAction::Idle;
        }
        match self.step {
            QcStep::Menu => self.on_menu_key(k, host),
            QcStep::Edit(item) => self.on_edit_key(item, k, host),
            QcStep::Verifying { item } => {
                if k == KeyCode::Esc {
                    self.step = QcStep::Edit(item);
                    self.progress = String::new();
                }
                QuickCfgAction::Idle
            },
        }
    }

    fn on_typing_key(&mut self, k: KeyCode, host: &Host)
        ensures
            final(self)@ == typing_key(old(self)@, k, host@),
    {
        match k {
            KeyCode::Enter => {
                let item = match self.step {
                    QcStep::Edit(i) => i,
                    _ => QcItem::Model,
                };
                let v = scan::trim(self.input_buf.as_str());
                self.input_buf = String::new();
                self.typing = false;
                self.confirm_typed(item, v, host);
            },
            KeyCode::Esc => {
                self.stop_typing();
            },
            KeyCode::Backspace => {
                self.input_buf = text::drop_last_char(self.input_buf.as_str());
            },
            KeyCode::Char(c) => {
                self.input_buf.push(c);
            },
            _ => {},
        }
    }

    fn choose_item(&mut self, item: QcItem, host: &Host) -> (r: QuickCfgAction)
        ensures
            (final(self)@, r@) == item_chosen(old(self)@, item, host@),
    {
        self.enter_edit(item);
        if item == QcItem::Model && self.models.len() == 0 {
            return self.fetch_models_action(host);
        }
        QuickCfgAction::Idle
    }

    fn on_menu_key(&mut self, k: KeyCode, host: &Host) -> (r: QuickCfgAction)
        ensures
            (final(self)@, r@) == menu_key(old(self)@, k, host@),
    {
        if k == KeyCode::Esc {
            return QuickCfgAction::Exit;
        }
        if input::key_up(k) {
            self.menu_cursor = input::move_up(self.menu_cursor);
            return QuickCfgAction::Idle;
        }
        if input::key_down(k) {
            self.menu_cursor = input::move_down(self.menu_cursor, 9);
            return QuickCfgAction::Idle;
        }
        if input::key_go(k) {
            return self.choose_item(QcItem::from_index(self.menu_cursor), host);
        }
        match input::key_digit(k) {
            Some(c) => {
                let i: usize = if c == '0' {
                    9
                } else {
                    ((c as u32) - ('1' as u32)) as usize
                };
                self.menu_cursor = i;
                return self.choose_item(QcItem::from_index(i), host);
            },
            None => {},
        }
        QuickCfgAction::Idle
    }

    fn on_edit_key(&mut self, item: QcItem, k: KeyCode, host: &Host) -> (r: QuickCfgAction)
        ensures
            (final(self)@, r@) == edit_key(old(self)@, item, k, host@),
    {
        if input::key_letter(k, 's', 'S') {
            return QuickCfgAction::Save(item);
        }
        if input::key_letter(k, 'v', 'V') {
            return self.start_verify(item, host);
        }
        if k == KeyCode::Esc {
            self.step = QcStep::Menu;
            self.menu_cursor = item.index();
            return QuickCfgAction::Idle;
        }
        self.on_item_key(item, k, host);
        QuickCfgAction::Idle
    }

    fn on_item_key(&mut self, item: QcItem, k: KeyCode, host: &Host)
        ensures
            final(self)@ == item_key(old(self)@, item, k, host@),
    {
        match item {
            QcItem::Provider => self.on_provider_key(k, host),
            QcItem::Model => self.on_model_key(k),
            QcItem::Protocol => self.on_protocol_key(k),
            QcItem::ApiKey => self.on_secret_key(k),
            QcItem::BaseUrl => self.on_url_key(k),
            QcItem::ContextWindow => self.on_window_key(k),
            QcItem::MaxTurns => self.on_turns_key(k),
            QcItem::Retry => self.on_retry_key(k),
            QcItem::SessionHeader => self.on_header_key(k),
            QcItem::Proxy => self.on_proxy_key(k),
        }
    }

    fn take_provider(&mut self, host: &Host)
        requires
            old(self).providers.len() > 0,
        ensures
            final(self)@ == provider_chosen(old(self)@, host@),
    {
        let i: usize = input::at_most(self.cursor, self.providers.len() - 1);
        let name = self.providers[i].0.clone();
        proof {
            reveal(settings::choice_views);
            assert(self@.providers[i as int].0 == name@);
        }
        if text::same(name.as_str(), settings::CUSTOM) {
            self.typing = true;
            self.typing_custom_url = true;
            self.input_buf = String::new();
            self.notice = text::copy(ASK_CUSTOM);
            return;
        }
        self.provider = name.clone();
        self.apply_provider_defaults(name.as_str(), host);
        self.notice =
        text::cat3("已切到 ", name.as_str(), ",建议按 v 验证连通(可在菜单继续微调)。");
    }

    fn on_provider_key(&mut self, k: KeyCode, host: &Host)
        ensures
            final(self)@ == provider_key(old(self)@, k, host@),
    {
        proof {
            reveal(settings::choice_views);
        }
        if input::key_up(k) {
            self.cursor = input::move_up(self.cursor);
            return;
        }
        if input::key_down(k) {
            let last: usize = input::last_index(self.providers.len());
            self.cursor = input::move_down(self.cursor, last);
            return;
        }
        if input::key_go(k) && self.providers.len() > 0 {
            self.take_provider(host);
        }
    }

    fn on_model_key(&mut self, k: KeyCode)
        ensures
            final(self)@ == model_key(old(self)@, k),
    {
        if input::key_up(k) {
            self.model_cursor = input::move_up(self.model_cursor);
            return;
        }
        if input::key_down(k) {
            let last: usize = input::last_index(self.models.len());
            self.model_cursor = input::move_down(self.model_cursor, last);
            return;
        }
        if input::key_go(k) && self.models.len() > 0 {
            let i: usize = input::at_most(self.model_cursor, self.models.len() - 1);
            proof {
                assert(self@.models[i as int] == self.models@[i as int]@);
            }
            self.model = self.models[i].clone();
            self.notice = text::copy(MODEL_TAKEN);
            return;
        }
        if input::key_letter(k, 'm', 'M') {
            self.typing = true;
            self.input_buf = String::new();
            self.notice = text::copy(ASK_MODEL);
        }
    }

    fn set_protocol(&mut self, cursor: usize)
        ensures
            final(self)@ == protocol_set(old(self)@, cursor),
    {
        self.protocol_cursor = cursor;
        self.protocol = ProtocolKind::at(cursor);
    }

    fn on_protocol_key(&mut self, k: KeyCode)
        ensures
            final(self)@ == protocol_key(old(self)@, k),
    {
        if input::key_up(k) {
            self.set_protocol(input::move_up(self.protocol_cursor));
            return;
        }
        if input::key_down(k) {
            self.set_protocol(input::move_down(self.protocol_cursor, 1));
            return;
        }
        if input::key_go(k) {
            self.notice = text::copy(PROTOCOL_TAKEN);
        }
    }

    fn on_secret_key(&mut self, k: KeyCode)
        ensures
            final(self)@ == secret_key(old(self)@, k),
    {
        if input::key_letter(k, 'e', 'E') || k == KeyCode::Enter {
            self.typing = true;
            self.input_buf = String::new();
            self.notice = text::copy(ASK_KEY);
        }
    }

    fn on_url_key(&mut self, k: KeyCode)
        ensures
            final(self)@ == url_key(old(self)@, k),
    {
        if input::key_letter(k, 'e', 'E') || k == KeyCode::Enter {
            self.typing = true;
            self.input_buf = self.base_url.clone();
            self.notice = text::copy(ASK_URL);
        }
    }

    fn ask_window(&mut self, input: String)
        ensures
            final(self)@ == (PanelView {
                typing: true,
                typing_context_window: true,
                notice: ASK_WINDOW@,
                input_buf: input@,
                ..old(self)@
            }),
    {
        self.typing = true;
        self.typing_context_window = true;
        self.notice = text::copy(ASK_WINDOW);
        self.input_buf = input;
    }

    fn on_window_key(&mut self, k: KeyCode)
        ensures
            final(self)@ == window_key(old(self)@, k),
    {
        match input::key_digit(k) {
            Some(c) => {
                self.ask_window(text::of_char(c));
                return;
            },
            None => {},
        }
        if input::key_edit(k) || k == KeyCode::Enter {
            self.ask_window(config_ui::opt_dec(self.context_window));
        }
    }

    fn ask_turns(&mut self, input: String)
        ensures
            final(self)@ == (PanelView {
                typing: true,
                typing_max_turns: true,
                notice: config_ui::ASK_TURNS@,
                input_buf: input@,
                ..old(self)@
            }),
    {
        self.typing = true;
        self.typing_max_turns = true;
        self.notice = text::copy(config_ui::ASK_TURNS);
        self.input_buf = input;
    }

    fn on_turns_key(&mut self, k: KeyCode)
        ensures
            final(self)@ == turns_key(old(self)@, k),
    {
        match input::key_digit(k) {
            Some(c) => {
                self.ask_turns(text::of_char(c));
                return;
            },
            None => {},
        }
        if input::key_edit(k) || k == KeyCode::Enter {
            self.ask_turns(config_ui::opt_dec(self.max_turns));
        }
    }

    fn set_retry(&mut self, cursor: usize)
        ensures
            final(self)@ == retry_set(old(self)@, cursor),
    {
        self.retry_cursor = cursor;
        match settings::retry_from_cursor(cursor) {
            Some(r) => {
                self.retry = r;
            },
            None => {},
        }
    }

    fn ask_retry(&mut self, input: String)
        ensures
            final(self)@ == (PanelView {
                typing: true,
                typing_retry: true,
                notice: ASK_RETRY@,
                input_buf: input@,
                ..old(self)@
            }),
    {
        self.typing = true;
        self.typing_retry = true;
        self.notice = text::copy(ASK_RETRY);
        self.input_buf = input;
    }

    fn on_retry_key(&mut self, k: KeyCode)
        ensures
            final(self)@ == retry_key(old(self)@, k),
    {
        if input::key_up(k) {
            self.set_retry(input::move_up(self.retry_cursor));
            return;
        }
        if input::key_down(k) {
            self.set_retry(input::move_down(self.retry_cursor, 4));
            return;
        }
        match input::key_digit(k) {
            Some(c) => {
                self.ask_retry(text::of_char(c));
                return;
            },
            None => {},
        }
        if input::key_edit(k) || (k == KeyCode::Enter && self.retry_cursor >= 4) {
            let n = if self.retry.enabled {
                text::dec(self.retry.max_retries)
            } else {
                String::new()
            };
            self.ask_retry(n);
            return;
        }
        if k == KeyCode::Enter {
            self.notice = text::copy(RETRY_TAKEN);
        }
    }

    fn set_header(&mut self, cursor: usize)
        ensures
            final(self)@ == header_set(old(self)@, cursor),
    {
        self.session_cursor = cursor;
        self.session_header = cursor == 0;
    }

    fn on_header_key(&mut self, k: KeyCode)
        ensures
            final(self)@ == header_key(old(self)@, k),
    {
        if input::key_up(k) {
            self.set_header(input::move_up(self.session_cursor));
            return;
        }
        if input::key_down(k) {
            self.set_header(input::move_down(self.session_cursor, 1));
            return;
        }
        if input::key_letter(k, 'y', 'Y') {
            self.set_header(0);
            self.notice = text::copy(HEADER_ON);
            return;
        }
        if input::key_letter(k, 'n', 'N') {
            self.set_header(1);
            self.notice = text::copy(HEADER_OFF);
            return;
        }
        if input::key_go(k) {
            self.notice = text::copy(HEADER_TAKEN);
        }
    }

    fn set_proxy(&mut self, cursor: usize)
        ensures
            final(self)@ == proxy_set(old(self)@, cursor),
    {
        self.proxy_cursor = cursor;
        self.proxy = settings::proxy_from_cursor(cursor, settings::copy_opt(&self.proxy.url));
    }

    fn ask_proxy(&mut self, input: String)
        ensures
            final(self)@ == (PanelView {
                typing: true,
                typing_proxy: true,
                notice: config_ui::ASK_PROXY@,
                input_buf: input@,
                ..old(self)@
            }),
    {
        self.typing = true;
        self.typing_proxy = true;
        self.notice = text::copy(config_ui::ASK_PROXY);
        self.input_buf = input;
    }

    fn on_proxy_key(&mut self, k: KeyCode)
        ensures
            final(self)@ == proxy_key(old(self)@, k),
    {
        if input::key_up(k) {
            self.set_proxy(input::move_up(self.proxy_cursor));
            return;
        }
        if input::key_down(k) {
            self.set_proxy(input::move_down(self.proxy_cursor, 2));
            return;
        }
        if input::key_letter(k, 'y', 'Y') {
            self.set_proxy(0);
            self.notice = text::copy(PROXY_AUTO);
            return;
        }
        if input::key_letter(k, 'n', 'N') {
            self.set_proxy(1);
            self.notice = text::copy(PROXY_OFF);
            return;
        }
        match input::key_digit(k) {
            Some(c) => {
                self.ask_proxy(text::of_char(c));
                return;
            },
            None => {},
        }
        if input::key_edit(k) || k == KeyCode::Enter {
            self.ask_proxy(settings::or_empty(&self.proxy.url));
        }
    }

    /// Takes in a text that was typed and confirmed.
    fn confirm_typed(&mut self, item: QcItem, v: String, host: &Host)
        ensures
            final(self)@ == typed(old(self)@, item, v@, host@),
    {
        if self.typing_custom_url {
            self.confirm_custom(v);
            return;
        }
        if self.typing_context_window {
            self.confirm_window(v);
            return;
        }
        if self.typing_max_turns {
            self.confirm_turns(v);
            return;
        }
        if self.typing_retry {
            self.confirm_retry(v);
            return;
        }
        if self.typing_proxy {
            self.confirm_proxy(v, host);
            return;
        }
        self.confirm_item(item, v);
    }

    fn confirm_custom(&mut self, v: String)
        ensures
            final(self)@ == typed_custom(old(self)@, v@),
    {
        if settings::valid_base_url(v.as_str()) {
            self.typing_custom_url = false;
            self.provider = text::copy(settings::CUSTOM);
            self.base_url = scan::trim(v.as_str());
            self.session_header = false;
            self.session_cursor = 1;
            self.notice = text::copy(NOW_CUSTOM);
            return;
        }
        self.typing_custom_url = true;
        self.typing = true;
        self.notice = text::copy(config_ui::BAD_ENDPOINT);
    }

    fn confirm_window(&mut self, v: String)
        ensures
            final(self)@ == typed_window(old(self)@, v@),
    {
        match settings::parse_context_window_input(v.as_str()) {
            Ok(n) => {
                self.typing_context_window = false;
                self.context_window = n;
                self.notice = text::copy(WINDOW_SET);
            },
            Err(m) => {
                self.typing_context_window = true;
                self.again(scan::trim(v.as_str()), text::copy(m));
            },
        }
    }

    fn again(&mut self, input: String, notice: String)
        ensures
            final(self)@ == (PanelView {
                typing: true,
                input_buf: input@,
                notice: notice@,
                ..old(self)@
            }),
    {
        self.typing = true;
        self.input_buf = input;
        self.notice = notice;
    }

    fn confirm_turns(&mut self, v: String)
        ensures
            final(self)@ == typed_turns(old(self)@, v@),
    {
        match settings::parse_max_turns_input(v.as_str()) {
            Ok(n) => {
                self.typing_max_turns = false;
                self.max_turns = n;
                self.notice = text::copy(TURNS_SET);
            },
            Err(m) => {
                self.typing_max_turns = true;
                self.again(scan::trim(v.as_str()), text::copy(m));
            },
        }
    }

    fn confirm_retry(&mut self, v: String)
        ensures
            final(self)@ == typed_retry(old(self)@, v@),
    {
        match settings::parse_retry_input(v.as_str()) {
            Ok(r) => {
                self.typing_retry = false;
                self.retry = r;
                self.retry_cursor = r.index();
                self.notice = text::copy(RETRY_SET);
            },
            Err(m) => {
                self.typing_retry = true;
                self.again(scan::trim(v.as_str()), text::copy(m));
            },
        }
    }

    fn confirm_proxy(&mut self, v: String, host: &Host)
        ensures
            final(self)@ == typed_proxy(old(self)@, v@, host@),
    {
        let t = scan::trim(v.as_str());
        if settings::is_blank(t.as_str()) {
            self.typing_proxy = false;
            self.proxy = ProxyConfig::auto();
            self.proxy_cursor = 0;
            self.notice = text::copy(PROXY_BACK);
            return;
        }
        match &host.proxy_check {
            ProxyCheck::Malformed => {
                self.typing_proxy = true;
                self.again(t, text::copy(config_ui::BAD_PROXY));
            },
            ProxyCheck::Refused(e) => {
                self.typing_proxy = true;
                self.again(t, text::cat2(e.as_str(), config_ui::AGAIN_PROXY));
            },
            ProxyCheck::Normal(n) => {
                self.typing_proxy = false;
                self.proxy = ProxyConfig { mode: ProxyMode::Manual, url: Some(n.clone()) };
                self.proxy_cursor = 2;
                self.notice = text::copy(PROXY_NEW);
            },
        }
    }

    fn confirm_item(&mut self, item: QcItem, v: String)
        ensures
            final(self)@ == typed_item(old(self)@, item, v@),
    {
        match item {
            QcItem::Model => {
                let t = scan::trim(v.as_str());
                if settings::is_blank(t.as_str()) {
                    self.notice = text::copy(config_ui::NO_MODEL);
                    self.typing = true;
                } else {
                    self.model = t;
                    self.notice = text::copy(MODEL_SET);
                }
            },
            QcItem::ApiKey => {
                self.api_key = v;
                self.key_from_env = false;
                self.key_env_name = None;
                self.notice = text::copy(KEY_NEW);
            },
            QcItem::BaseUrl => {
                if settings::valid_base_url(v.as_str()) {
                    self.base_url = scan::trim(v.as_str());
                    self.notice = text::copy(URL_SET);
                } else {
                    self.notice = text::copy(config_ui::BAD_ENDPOINT);
                    self.typing = true;
                }
            },
            _ => {},
        }
    }
}

fn or_unset(s: &String) -> (r: String)
    ensures
        r@ == text_or_unset(s@),
{
    if settings::is_blank(s.as_str()) {
        text::copy("(未设置)")
    } else {
        s.clone()
    }
}

// ------------------------------------------------------------------------ laws

/// The settings that belong to a provider.
pub open spec fn provider_settings(p: PanelView) -> (
    (Seq<char>, Seq<char>, bool, Option<Seq<char>>, Seq<Seq<char>>, usize),
    (Option<usize>, ProtocolKind, usize, bool, usize),
) {
    (
        (p.model, p.api_key, p.key_from_env, p.key_env_name, p.models, p.model_cursor),
        (p.context_window, p.protocol, p.protocol_cursor, p.session_header, p.session_cursor),
    )
}

/// Choosing a provider takes over that provider's settings and nothing of the one
/// before, and leaves the limit of turns, the retries and the proxy as they are.
pub proof fn law_switching_is_isolated(p: PanelView, q: PanelView, name: Seq<char>, h: HostView)
    requires
        p.provider_defs == q.provider_defs,
    ensures
        provider_settings(with_defaults(p, name, h)) == provider_settings(
            with_defaults(q, name, h),
        ),
        with_defaults(p, name, h).max_turns == p.max_turns,
        with_defaults(p, name, h).retry == p.retry,
        with_defaults(p, name, h).proxy == p.proxy,
{
}

/// A key that is to be found in the environment is never filled in, so that it is
/// never saved in the open; one that is typed is no longer from there.
pub proof fn law_environment_key(p: PanelView, c: ConfigView, v: Seq<char>)
    ensures
        with_config(p, c).key_from_env ==> with_config(p, c).api_key.len() == 0,
        !typed_item(p, QcItem::ApiKey, v).key_from_env,
        typed_item(p, QcItem::ApiKey, v).api_key == v,
{
}

/// A key that is set is shown by its last four characters alone: two keys that end
/// alike are shown alike.
pub proof fn law_key_is_masked(p: PanelView, key: Seq<char>)
    requires
        p.api_key.len() > 4,
        key.len() > 4,
        p.api_key.skip(p.api_key.len() - 4) == key.skip(key.len() - 4),
    ensures
        key_shown(PanelView { api_key: key, ..p }) == key_shown(p),
{
}

/// In an editor, `s` saves that setting, `v` tries the connection as it stands, and
/// neither changes a setting; `Esc` leads back to its place in the menu.
pub proof fn law_finishing_keys(p: PanelView, item: QcItem, h: HostView)
    requires
        !p.typing,
        p.step == QcStep::Edit(item),
    ensures
        on_key_of(p, KeyCode::Char('s'), h) == (p, QuickView::Save(item)),
        on_key_of(p, KeyCode::Char('v'), h).1 == QuickView::Verify(draft_of(p, h)),
        on_key_of(p, KeyCode::Char('v'), h).0.step == (QcStep::Verifying { item }),
        provider_settings(on_key_of(p, KeyCode::Char('v'), h).0) == provider_settings(p),
        on_key_of(p, KeyCode::Esc, h).0.step == QcStep::Menu,
        item_at(on_key_of(p, KeyCode::Esc, h).0.menu_cursor as int) == item,
{
}

/// `Esc` during a trial leads back to the editor that it was started from, with
/// every setting as it was.
pub proof fn law_trial_can_be_left(p: PanelView, item: QcItem, h: HostView)
    requires
        !p.typing,
        p.step == QcStep::Edit(item),
    ensures
        ({
            let back = on_key_of(tried(p, item, h).0, KeyCode::Esc, h).0;
            back == (PanelView { progress: Seq::empty(), ..p })
        }),
{
}

/// A list of models that arrives leaves the cursor on the current model.
pub proof fn law_current_model_stays(p: PanelView, models: Seq<Seq<char>>)
    requires
        0 < models.len() < usize::MAX,
        p.model.len() > 0,
        !(p.step is Verifying),
    ensures
        ({
            let x = with_models(p, Ok(models));
            &&& x.model_cursor < x.models.len()
            &&& x.models[x.model_cursor as int] == p.model
            &&& x.model == p.model
        }),
{
    let all = offered(p, models);
    settings::lemma_text_from(models, p.model, 0);
    settings::lemma_text_from(all, p.model, 0);
    if settings::text_from(models, p.model, 0) == models.len() {
        assert(all[0] == p.model);
    }
    assert(settings::text_from(all, p.model, 0) < all.len());
}

} // verus!
