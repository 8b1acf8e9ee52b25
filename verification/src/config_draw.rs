//! How the setup wizard is drawn: the lines inside its frame.
use crate::ansi;
use crate::config_ui;
use crate::config_ui::{SetupWizard, Step, WizardView, MODEL_WINDOW};
use crate::settings;
use crate::settings::{Host, HostView, ProtocolKind};
use crate::style;
use crate::style::{Color, Line, Span, SpanView, Style};
use crate::text;
use vstd::prelude::*;

verus! {

/// The title of the wizard's frame.
pub const TITLE: &'static str = " 配置向导 — 首次使用需要完成一次配置 ";

// -------------------------------------------------------------- parts of lines

/// The mark in front of an entry of a list.
pub open spec fn mark(sel: bool) -> Seq<char> {
    if sel {
        "▶ "@
    } else {
        "  "@
    }
}

/// The style of an entry of a list.
pub open spec fn entry_style(sel: bool) -> Style {
    if sel {
        style::bold(Color::White)
    } else {
        style::colored(Color::DarkGray)
    }
}

/// An entry of a list.
pub open spec fn entry(sel: bool, label: Seq<char>) -> Seq<SpanView> {
    seq![
        style::sv(mark(sel), style::colored(Color::Cyan)),
        style::sv(label, entry_style(sel)),
    ]
}

/// A label and a value.
pub open spec fn pair(label: Seq<char>, value: Seq<char>, st: Style) -> Seq<SpanView> {
    seq![style::sv(label, style::colored(Color::DarkGray)), style::sv(value, st)]
}

fn mark_text(sel: bool) -> (r: String)
    ensures
        r@ == mark(sel),
{
    if sel {
        text::copy("▶ ")
    } else {
        text::copy("  ")
    }
}

fn style_of_entry(sel: bool) -> (r: Style)
    ensures
        r == entry_style(sel),
{
    if sel {
        Style::bold_of(Color::White)
    } else {
        Style::of(Color::DarkGray)
    }
}

fn push_entry(out: &mut Vec<Line>, sel: bool, label: String)
    ensures
        style::line_views(final(out)@) == style::line_views(old(out)@).push(entry(sel, label@)),
{
    let mut spans = style::no_spans();
    style::push_span(&mut spans, mark_text(sel), Style::of(Color::Cyan));
    style::push_span(&mut spans, label, style_of_entry(sel));
    proof {
        assert(style::span_views(spans@) =~= entry(sel, label@));
    }
    style::push_line(out, spans);
}

fn push_pair(out: &mut Vec<Line>, label: &str, value: String, st: Style)
    ensures
        style::line_views(final(out)@) == style::line_views(old(out)@).push(
            pair(label@, value@, st),
        ),
{
    let mut spans = style::no_spans();
    style::push_span(&mut spans, text::copy(label), Style::of(Color::DarkGray));
    style::push_span(&mut spans, value, st);
    proof {
        assert(style::span_views(spans@) =~= pair(label@, value@, st));
    }
    style::push_line(out, spans);
}

/// A line of one colour.
fn say(out: &mut Vec<Line>, s: &str, c: Color)
    ensures
        style::line_views(final(out)@) == style::line_views(old(out)@).push(
            style::one(s@, style::colored(c)),
        ),
{
    style::push_text_line(out, text::copy(s), Style::of(c));
}

// ------------------------------------------------------------------- the head

/// The name of a step in the bar.
pub open spec fn step_name(i: int) -> Seq<char> {
    if i == 0 {
        "1 服务商"@
    } else if i == 1 {
        "2 会话头"@
    } else if i == 2 {
        "3 模型"@
    } else if i == 3 {
        "4 协议"@
    } else if i == 4 {
        "5 API Key"@
    } else if i == 5 {
        "6 上下文窗口"@
    } else if i == 6 {
        "7 轮数上限"@
    } else if i == 7 {
        "8 弱网重试"@
    } else if i == 8 {
        "9 代理"@
    } else {
        "10 验证"@
    }
}

fn step_text(i: usize) -> (r: &'static str)
    ensures
        r@ == step_name(i as int),
{
    match i {
        0 => "1 服务商",
        1 => "2 会话头",
        2 => "3 模型",
        3 => "4 协议",
        4 => "5 API Key",
        5 => "6 上下文窗口",
        6 => "7 轮数上限",
        7 => "8 弱网重试",
        8 => "9 代理",
        _ => "10 验证",
    }
}

/// The place of a step in the bar.
pub open spec fn step_place(s: Step) -> int {
    match s {
        Step::Provider => 0,
        Step::SessionHeader => 1,
        Step::Querying => 2,
        Step::ModelSelect => 2,
        Step::ProtocolSelect => 3,
        Step::ApiKey => 4,
        Step::ContextWindow => 5,
        Step::MaxTurns => 6,
        Step::Retry => 7,
        Step::Proxy => 8,
        Step::Verifying => 9,
    }
}

fn place_of(s: Step) -> (r: usize)
    ensures
        r == step_place(s),
{
    match s {
        Step::Provider => 0,
        Step::SessionHeader => 1,
        Step::Querying => 2,
        Step::ModelSelect => 2,
        Step::ProtocolSelect => 3,
        Step::ApiKey => 4,
        Step::ContextWindow => 5,
        Step::MaxTurns => 6,
        Step::Retry => 7,
        Step::Proxy => 8,
        Step::Verifying => 9,
    }
}

/// The first `n` steps of the bar: those that are done, the current one, and those
/// to come.
pub open spec fn bar(n: nat, current: int) -> Seq<SpanView>
    decreases n,
{
    if n == 0 {
        Seq::empty()
    } else {
        let i = n - 1;
        let st = if i == current {
            style::bold(Color::Cyan)
        } else if i < current {
            style::colored(Color::Green)
        } else {
            style::colored(Color::DarkGray)
        };
        let b = bar(i as nat, current).push(style::sv("["@ + step_name(i) + "]"@, st));
        if i < 9 {
            b.push(style::sv(" → "@, style::plain()))
        } else {
            b
        }
    }
}

fn draw_bar(current: usize) -> (r: Vec<Span>)
    ensures
        style::span_views(r@) == bar(10, current as int),
{
    let mut spans = style::no_spans();
    let mut i: usize = 0;
    while i < 10
        invariant
            i <= 10,
            style::span_views(spans@) == bar(i as nat, current as int),
        decreases 10 - i,
    {
        let st = if i == current {
            Style::bold_of(Color::Cyan)
        } else if i < current {
            Style::of(Color::Green)
        } else {
            Style::of(Color::DarkGray)
        };
        style::push_span(&mut spans, text::cat3("[", step_text(i), "]"), st);
        if i < 9 {
            style::push_span(&mut spans, text::copy(" → "), Style::new());
        }
        i += 1;
    }
    spans
}

/// Whether the wizard has anything to show yet.
pub open spec fn configured(w: WizardView) -> bool {
    w.provider.len() > 0 || w.model.len() > 0 || w.api_key.len() > 0
}

/// How the key is shown: never itself.
pub open spec fn key_brief(w: WizardView) -> Seq<char> {
    if w.api_key.len() > 0 {
        "••••••••"@
    } else if w.key_from_env {
        "来自环境变量"@
    } else {
        "(未设置)"@
    }
}

/// What is configured, in one line.
pub open spec fn summary(w: WizardView, h: HostView) -> Seq<SpanView> {
    seq![
        style::sv("当前配置: "@, style::colored(Color::DarkGray)),
        style::sv(w.provider + " / "@ + w.model, style::bold(Color::Green)),
        style::sv(
            "  端点 "@ + w.base_url + "  Key "@ + key_brief(w) + "  窗口 "@
                + settings::window_shown(w.context_window) + "  轮数 "@ + settings::turns_shown(
                w.max_turns,
                h.default_turns,
            ) + "  重试 "@ + settings::retry_shown(w.retry) + "  会话头 "@ + (if w.session_header {
                "开"@
            } else {
                "关"@
            }) + "  代理 "@ + settings::proxy_brief(w.proxy, h),
            style::colored(Color::DarkGray),
        ),
    ]
}

/// The lines above the page of the step.
pub open spec fn head_lines(w: WizardView, h: HostView) -> Seq<Seq<SpanView>> {
    let top = seq![bar(10, step_place(w.step)), Seq::<SpanView>::empty()];
    if configured(w) {
        top.push(summary(w, h)).push(Seq::<SpanView>::empty())
    } else {
        top
    }
}

// ------------------------------------------------------------------- the pages

/// One provider to choose.
pub open spec fn provider_line(
    p: (Seq<char>, Seq<char>, Seq<char>),
    sel: bool,
) -> Seq<SpanView> {
    let model = if p.2.len() == 0 {
        Seq::<char>::empty()
    } else {
        "(默认 "@ + p.2 + ")"@
    };
    seq![
        style::sv(mark(sel), style::colored(Color::Cyan)),
        style::sv(p.0, entry_style(sel)),
        style::sv("  "@ + p.1 + " "@ + model, style::colored(Color::DarkGray)),
    ]
}

/// The page of the providers.
pub open spec fn provider_page(w: WizardView) -> Seq<Seq<SpanView>> {
    seq![style::one("选择 AI 服务商(↑↓ 选择,Enter 确认):"@, style::colored(Color::Yellow))]
        + w.providers.map(
        |i: int, p: (Seq<char>, Seq<char>, Seq<char>)| provider_line(p, i == w.cursor),
    )
}

pub const HEADER_HELP: &'static str =
    "同一会话内所有模型请求携带同一稳定值(会话 ID)，提升服务端 KV 缓存命中率；服务端不识别时直接忽略。";

pub const HEADER_KEYS: &'static str =
    "↑↓ 选择 | Y/N 快选 | Enter 下一步(查模型) | Esc 返回改服务商";

/// The page of the session header.
pub open spec fn header_page(w: WizardView) -> Seq<Seq<SpanView>> {
    seq![
        style::one(
            "服务商: "@ + w.provider + " | 是否启用稳定会话头(x-opencode-session)?"@,
            style::colored(Color::Yellow),
        ),
        style::one(HEADER_HELP@, style::colored(Color::DarkGray)),
        entry(w.session_cursor == 0, "是(推荐，缓存命中更高)"@),
        entry(w.session_cursor >= 1, "否(默认，不发头)"@),
        style::one(HEADER_KEYS@, style::colored(Color::Cyan)),
    ]
}

/// What is shown while the models are asked for.
pub open spec fn querying_page(w: WizardView) -> Seq<Seq<SpanView>> {
    seq![
        style::one("⏳ "@ + w.progress, style::colored(Color::Blue)),
        style::one("长时间无响应可按 Esc 返回重选"@, style::colored(Color::DarkGray)),
    ]
}

/// The models in sight.
pub open spec fn model_entries(w: WizardView) -> Seq<Seq<SpanView>> {
    let (first, count) = config_ui::window_of(w.models.len(), w.model_cursor);
    Seq::new(
        count,
        |i: int| entry(first + i == w.model_cursor, w.models[first + i]),
    )
}

/// Which of the models are in sight, where there are more.
pub open spec fn model_count(w: WizardView) -> Seq<Seq<SpanView>> {
    let (first, count) = config_ui::window_of(w.models.len(), w.model_cursor);
    if w.models.len() > MODEL_WINDOW {
        seq![
            style::one(
                "…(共 "@ + text::decimal(w.models.len()) + " 个,正在显示 "@ + text::decimal(
                    first + 1,
                ) + "-"@ + text::decimal(first + count) + ";↑↓ 继续翻)"@,
                style::colored(Color::DarkGray),
            ),
        ]
    } else {
        Seq::empty()
    }
}

/// The page of the models.
pub open spec fn model_page(w: WizardView) -> Seq<Seq<SpanView>> {
    let top = seq![
        style::one(
            "服务商: "@ + w.provider + " | 端点: "@ + w.base_url,
            style::colored(Color::DarkGray),
        ),
    ];
    if w.models.len() > 0 {
        top.push(
            style::one(
                "选择模型(↑↓ + Enter),或 m 手动输入:"@,
                style::colored(Color::Yellow),
            ),
        ) + model_entries(w) + model_count(w)
    } else {
        top.push(
            style::one(
                "该服务商无自动模型列表,直接输入模型名后回车:"@,
                style::colored(Color::Yellow),
            ),
        )
    }
}

/// The provider and the model, in one line.
pub open spec fn target(w: WizardView) -> Seq<SpanView> {
    style::one(
        "服务商: "@ + w.provider + " | 模型: "@ + w.model,
        style::colored(Color::Green),
    )
}

pub const PROTOCOL_ASK: &'static str = "协议类型(↑↓ 选择,Enter 确认;默认 chat,直接回车跳过):";

pub const PROTOCOL_HELP: &'static str =
    "chat = /chat/completions(默认,兼容最广);response = /responses(部分新模型/端点需要)";

/// The page of the protocols.
pub open spec fn protocol_page(w: WizardView) -> Seq<Seq<SpanView>> {
    seq![
        target(w),
        style::one(PROTOCOL_ASK@, style::colored(Color::Yellow)),
        entry(w.protocol_cursor == 0, settings::protocol_name(ProtocolKind::Chat)),
        entry(w.protocol_cursor >= 1, settings::protocol_name(ProtocolKind::Response)),
        style::one(PROTOCOL_HELP@, style::colored(Color::DarkGray)),
        style::one("Enter 下一步(API Key)| Esc 返回改模型"@, style::colored(Color::Cyan)),
    ]
}

/// How the key is shown on its own page: never itself.
pub open spec fn key_shown(w: WizardView) -> Seq<char> {
    if w.key_from_env {
        "(来自环境变量,保存不会写成明文)"@
    } else if w.api_key.len() == 0 {
        "(未设置)"@
    } else {
        "••••••••"@
    }
}

pub const KEY_KEYS: &'static str =
    "e 输入 key(本地服务可留空)| Enter 下一步(上下文窗口)| s 直接验证并完成 | Esc 返回改协议";

/// The page of the key.
pub open spec fn key_page(w: WizardView, h: HostView) -> Seq<Seq<SpanView>> {
    seq![
        target(w),
        pair("API Key: "@, key_shown(w), style::colored(Color::White)),
        pair(
            "轮数上限: "@,
            settings::turns_shown(w.max_turns, h.default_turns),
            style::colored(Color::White),
        ),
        pair(
            "上下文窗口: "@,
            settings::window_shown(w.context_window),
            style::colored(Color::White),
        ),
        style::one(KEY_KEYS@, style::colored(Color::Cyan)),
    ]
}

pub const WINDOW_HELP: &'static str =
    "状态栏 ctx 占用条的分母(模型能吃多少 token)。内置表认不出你的模型名时会显示“窗口未知”,只报绝对量";

pub const WINDOW_HINT: &'static str =
    "本地 ollama 请与运行时 num_ctx 一致;直接输入数字修改(留空 = 自动识别)";

pub const WINDOW_KEYS: &'static str = "Enter 下一步(轮数上限)| s 直接验证并完成 | Esc 返回改 key";

/// The page of the context window.
pub open spec fn window_page(w: WizardView) -> Seq<Seq<SpanView>> {
    seq![
        target(w),
        pair("上下文窗口: "@, settings::window_shown(w.context_window), style::bold(Color::White)),
        style::one(WINDOW_HELP@, style::colored(Color::DarkGray)),
        style::one(WINDOW_HINT@, style::colored(Color::DarkGray)),
        style::one(WINDOW_KEYS@, style::colored(Color::Cyan)),
    ]
}

pub const TURNS_HELP: &'static str =
    "单条消息最多允许的模型往返轮数(一轮可含多次工具调用);用完会问你要不要再放一批";

pub const TURNS_KEYS: &'static str =
    "直接输入数字修改(0 = 不限,留空 = 默认)| Enter 或 s 下一步(弱网重试) | Esc 返回改窗口";

/// The page of the limit of turns.
pub open spec fn turns_page(w: WizardView, h: HostView) -> Seq<Seq<SpanView>> {
    seq![
        target(w),
        pair(
            "轮数上限: "@,
            settings::turns_shown(w.max_turns, h.default_turns),
            style::bold(Color::White),
        ),
        style::one(TURNS_HELP@, style::colored(Color::DarkGray)),
        style::one(TURNS_KEYS@, style::colored(Color::Cyan)),
    ]
}

pub const RETRY_HELP: &'static str =
    "单次模型调用遇空回复/网络错误时的追加次数(统一退避 800ms*2^n)；耗尽才算彻底失败";

pub const RETRY_KEYS: &'static str =
    "↑↓ 选择档位(手动档回车后输入 0..=8)| Enter 或 s 下一步(网络代理) | Esc 返回改轮数";

/// The page of the retries.
pub open spec fn retry_page(w: WizardView) -> Seq<Seq<SpanView>> {
    seq![
        target(w),
        pair("弱网重试: "@, settings::retry_shown(w.retry), style::bold(Color::White)),
        style::one(RETRY_HELP@, style::colored(Color::DarkGray)),
        entry(w.retry_cursor == 0, "关闭(默认)"@),
        entry(w.retry_cursor == 1, "开启：追加 3 次"@),
        entry(w.retry_cursor == 2, "开启：追加 5 次"@),
        entry(w.retry_cursor == 3, "开启：追加 8 次"@),
        entry(w.retry_cursor >= 4, "手动输入次数…"@),
        style::one(RETRY_KEYS@, style::colored(Color::Cyan)),
    ]
}

pub const PROXY_HELP: &'static str =
    "全局出口：模型请求 / 网页抓取 / 更新检查统一走这里。本地 ollama 等走 NO_PROXY 豁免，不受影响。";

pub const PROXY_KEYS: &'static str =
    "↑↓ 选择档位 · y 跟随环境 / n 直连 · 数字/t/e/Enter 手输地址 | s 验证并完成 | Esc 返回改重试";

/// The page of the proxy.
pub open spec fn proxy_page(w: WizardView, h: HostView) -> Seq<Seq<SpanView>> {
    seq![
        target(w),
        pair("网络代理: "@, settings::proxy_shown(w.proxy, h), style::bold(Color::White)),
        style::one(PROXY_HELP@, style::colored(Color::DarkGray)),
        entry(w.proxy_cursor == 0, "跟随环境(默认)"@),
        entry(w.proxy_cursor == 1, "直连(忽略环境代理)"@),
        entry(w.proxy_cursor >= 2, "手动指定…"@),
        style::one(PROXY_KEYS@, style::colored(Color::Cyan)),
    ]
}

/// The lines of the current step.
pub open spec fn page(w: WizardView, h: HostView) -> Seq<Seq<SpanView>> {
    match w.step {
        Step::Provider => provider_page(w),
        Step::SessionHeader => header_page(w),
        Step::Querying => querying_page(w),
        Step::ModelSelect => model_page(w),
        Step::ProtocolSelect => protocol_page(w),
        Step::ApiKey => key_page(w, h),
        Step::ContextWindow => window_page(w),
        Step::MaxTurns => turns_page(w, h),
        Step::Retry => retry_page(w),
        Step::Proxy => proxy_page(w, h),
        Step::Verifying => seq![style::one("⏳ "@ + w.progress, style::colored(Color::Blue))],
    }
}

/// The lines below the page: the input line, or else the notice.
pub open spec fn foot_lines(w: WizardView) -> Seq<Seq<SpanView>> {
    if w.typing {
        seq![
            Seq::<SpanView>::empty(),
            seq![
                style::sv("输入: "@, style::bold(Color::Green)),
                style::sv(
                    if w.input_buf.len() == 0 {
                        "…"@
                    } else {
                        w.input_buf
                    },
                    style::colored(Color::Green),
                ),
                style::sv(" _"@, style::colored(Color::Green)),
            ],
            style::one("回车确认 | Esc 取消"@, style::colored(Color::DarkGray)),
        ]
    } else if w.notice.len() > 0 {
        seq![Seq::<SpanView>::empty(), style::one(w.notice, style::colored(Color::Magenta))]
    } else {
        Seq::empty()
    }
}

/// The lines inside the wizard's frame.
pub open spec fn wizard_lines(w: WizardView, h: HostView) -> Seq<Seq<SpanView>> {
    head_lines(w, h) + page(w, h) + foot_lines(w)
}

// --------------------------------------------------------------------- drawing

impl SetupWizard {
    /// Draws the lines inside the wizard's frame, stripped of what a terminal would obey.
    pub fn render(&self, host: &Host) -> (r: Vec<Line>)
        ensures
            style::line_views(r@) == ansi::stripped_lines(wizard_lines(self@, host@)),
    {
        let mut out = self.draw_head(host);
        let page = match self.step {
            Step::Provider => self.draw_providers(),
            Step::SessionHeader => self.draw_header(),
            Step::Querying => self.draw_querying(),
            Step::ModelSelect => self.draw_models(),
            Step::ProtocolSelect => self.draw_protocols(),
            Step::ApiKey => self.draw_key(host),
            Step::ContextWindow => self.draw_window(),
            Step::MaxTurns => self.draw_turns(host),
            Step::Retry => self.draw_retry(),
            Step::Proxy => self.draw_proxy(host),
            Step::Verifying => self.draw_verifying(),
        };
        style::append_lines(&mut out, page);
        style::append_lines(&mut out, self.draw_foot());
        ansi::strip_lines(&out)
    }

    fn draw_head(&self, host: &Host) -> (r: Vec<Line>)
        ensures
            style::line_views(r@) == head_lines(self@, host@),
    {
        let mut out = style::no_lines();
        style::push_line(&mut out, draw_bar(place_of(self.step)));
        style::push_blank(&mut out);
        if self.has_configured() {
            style::push_line(&mut out, self.draw_summary(host));
            style::push_blank(&mut out);
        }
        out
    }

    fn draw_summary(&self, host: &Host) -> (r: Vec<Span>)
        ensures
            style::span_views(r@) == summary(self@, host@),
    {
        let key = if !settings::is_blank(self.api_key.as_str()) {
            "••••••••"
        } else if self.key_from_env {
            "来自环境变量"
        } else {
            "(未设置)"
        };
        let mut spans = style::no_spans();
        style::push_span(&mut spans, text::copy("当前配置: "), Style::of(Color::DarkGray));
        let what = text::cat3(self.provider.as_str(), " / ", self.model.as_str());
        style::push_span(&mut spans, what, Style::bold_of(Color::Green));
        let mut s = text::cat4("  端点 ", self.base_url.as_str(), "  Key ", key);
        s.append("  窗口 ");
        s.append(self.context_window_label().as_str());
        s.append("  轮数 ");
        s.append(self.max_turns_label(host).as_str());
        s.append("  重试 ");
        s.append(self.retry_label().as_str());
        s.append("  会话头 ");
        if self.session_header {
            s.append("开");
        } else {
            s.append("关");
        }
        s.append("  代理 ");
        s.append(settings::proxy_text_short(&self.proxy, host).as_str());
        style::push_span(&mut spans, s, Style::of(Color::DarkGray));
        spans
    }

    fn draw_providers(&self) -> (r: Vec<Line>)
        ensures
            style::line_views(r@) == provider_page(self@),
    {
        let mut out = style::no_lines();
        say(&mut out, "选择 AI 服务商(↑↓ 选择,Enter 确认):", Color::Yellow);
        let ghost top = style::line_views(out@);
        let ghost all = self@.providers.map(
            |i: int, p: (Seq<char>, Seq<char>, Seq<char>)| provider_line(p, i == self@.cursor),
        );
        proof {
            reveal(settings::choice_views);
            assert(style::line_views(out@) =~= top + all.take(0));
        }
        let mut i: usize = 0;
        while i < self.providers.len()
            invariant
                i <= self.providers.len(),
                all == self@.providers.map(
                    |i: int, p: (Seq<char>, Seq<char>, Seq<char>)|
                        provider_line(p, i == self@.cursor),
                ),
                style::line_views(out@) == top + all.take(i as int),
            decreases self.providers.len() - i,
        {
            let p = &self.providers[i];
            let sel = i == self.cursor;
            let model = if settings::is_blank(p.2.as_str()) {
                String::new()
            } else {
                text::cat3("(默认 ", p.2.as_str(), ")")
            };
            proof {
                reveal(settings::choice_views);
                assert(self@.providers[i as int] == (p.0@, p.1@, p.2@));
                assert(model@ =~= (if p.2@.len() == 0 {
                    Seq::<char>::empty()
                } else {
                    "(默认 "@ + p.2@ + ")"@
                }));
            }
            let mut spans = style::no_spans();
            style::push_span(&mut spans, mark_text(sel), Style::of(Color::Cyan));
            style::push_span(&mut spans, p.0.clone(), style_of_entry(sel));
            let rest = text::cat4("  ", p.1.as_str(), " ", model.as_str());
            style::push_span(&mut spans, rest, Style::of(Color::DarkGray));
            proof {
                assert(style::span_views(spans@) =~= provider_line((p.0@, p.1@, p.2@), sel));
            }
            style::push_line(&mut out, spans);
            proof {
                assert(all.take(i + 1) =~= all.take(i as int).push(all[i as int]));
                assert(style::line_views(out@) =~= top + all.take(i + 1));
            }
            i += 1;
        }
        proof {
            reveal(settings::choice_views);
            assert(all.take(i as int) =~= all);
        }
        out
    }

    fn draw_header(&self) -> (r: Vec<Line>)
        ensures
            style::line_views(r@) == header_page(self@),
    {
        let mut out = style::no_lines();
        let ask = text::cat3(
            "服务商: ",
            self.provider.as_str(),
            " | 是否启用稳定会话头(x-opencode-session)?",
        );
        style::push_text_line(&mut out, ask, Style::of(Color::Yellow));
        say(&mut out, HEADER_HELP, Color::DarkGray);
        push_entry(&mut out, self.session_cursor == 0, text::copy("是(推荐，缓存命中更高)"));
        push_entry(&mut out, self.session_cursor >= 1, text::copy("否(默认，不发头)"));
        say(&mut out, HEADER_KEYS, Color::Cyan);
        out
    }

    fn draw_querying(&self) -> (r: Vec<Line>)
        ensures
            style::line_views(r@) == querying_page(self@),
    {
        let mut out = style::no_lines();
        let what = text::cat2("⏳ ", self.progress.as_str());
        style::push_text_line(&mut out, what, Style::of(Color::Blue));
        say(&mut out, "长时间无响应可按 Esc 返回重选", Color::DarkGray);
        out
    }

    fn draw_verifying(&self) -> (r: Vec<Line>)
        ensures
            style::line_views(r@) == seq![
                style::one("⏳ "@ + self@.progress, style::colored(Color::Blue)),
            ],
    {
        let mut out = style::no_lines();
        let what = text::cat2("⏳ ", self.progress.as_str());
        style::push_text_line(&mut out, what, Style::of(Color::Blue));
        out
    }

    fn draw_model_entries(&self) -> (r: Vec<Line>)
        ensures
            style::line_views(r@) == model_entries(self@),
    {
        let (first, count) = self.model_window();
        let ghost all = model_entries(self@);
        let mut out = style::no_lines();
        let mut i: usize = 0;
        proof {
            assert(all.take(0) =~= Seq::<Seq<SpanView>>::empty());
        }
        while i < count
            invariant
                (first as nat, count as nat) == config_ui::window_of(
                    self@.models.len(),
                    self@.model_cursor,
                ),
                first + count <= self.models.len(),
                i <= count,
                all == model_entries(self@),
                style::line_views(out@) == all.take(i as int),
            decreases count - i,
        {
            let at: usize = first + i;
            proof {
                assert(self@.models[at as int] == self.models@[at as int]@);
                assert(all[i as int] == entry(at == self@.model_cursor, self@.models[at as int]));
                assert(all.take(i + 1) =~= all.take(i as int).push(all[i as int]));
            }
            push_entry(&mut out, at == self.model_cursor, self.models[at].clone());
            i += 1;
        }
        proof {
            assert(all.take(i as int) =~= all);
        }
        out
    }

    fn draw_model_count(&self) -> (r: Vec<Line>)
        ensures
            style::line_views(r@) == model_count(self@),
    {
        let (first, count) = self.model_window();
        let mut out = style::no_lines();
        if self.models.len() > MODEL_WINDOW {
            let mut s = text::cat2("…(共 ", text::dec(self.models.len()).as_str());
            s.append(" 个,正在显示 ");
            s.append(text::dec(first + 1).as_str());
            s.append("-");
            s.append(text::dec(first + count).as_str());
            s.append(";↑↓ 继续翻)");
            style::push_text_line(&mut out, s, Style::of(Color::DarkGray));
        }
        out
    }

    fn draw_models(&self) -> (r: Vec<Line>)
        ensures
            style::line_views(r@) == model_page(self@),
    {
        let mut out = style::no_lines();
        let what = text::cat4(
            "服务商: ",
            self.provider.as_str(),
            " | 端点: ",
            self.base_url.as_str(),
        );
        style::push_text_line(&mut out, what, Style::of(Color::DarkGray));
        if self.models.len() > 0 {
            say(&mut out, "选择模型(↑↓ + Enter),或 m 手动输入:", Color::Yellow);
            style::append_lines(&mut out, self.draw_model_entries());
            style::append_lines(&mut out, self.draw_model_count());
        } else {
            say(&mut out, "该服务商无自动模型列表,直接输入模型名后回车:", Color::Yellow);
        }
        out
    }

    fn push_target(&self, out: &mut Vec<Line>)
        ensures
            style::line_views(final(out)@) == style::line_views(old(out)@).push(target(self@)),
    {
        let what = text::cat4(
            "服务商: ",
            self.provider.as_str(),
            " | 模型: ",
            self.model.as_str(),
        );
        style::push_text_line(out, what, Style::of(Color::Green));
    }

    fn draw_protocols(&self) -> (r: Vec<Line>)
        ensures
            style::line_views(r@) == protocol_page(self@),
    {
        let mut out = style::no_lines();
        self.push_target(&mut out);
        say(&mut out, PROTOCOL_ASK, Color::Yellow);
        let chat = text::copy(ProtocolKind::Chat.as_str());
        let response = text::copy(ProtocolKind::Response.as_str());
        push_entry(&mut out, self.protocol_cursor == 0, chat);
        push_entry(&mut out, self.protocol_cursor >= 1, response);
        say(&mut out, PROTOCOL_HELP, Color::DarkGray);
        say(&mut out, "Enter 下一步(API Key)| Esc 返回改模型", Color::Cyan);
        out
    }

    fn draw_key(&self, host: &Host) -> (r: Vec<Line>)
        ensures
            style::line_views(r@) == key_page(self@, host@),
    {
        let mut out = style::no_lines();
        self.push_target(&mut out);
        let key = if self.key_from_env {
            "(来自环境变量,保存不会写成明文)"
        } else if settings::is_blank(self.api_key.as_str()) {
            "(未设置)"
        } else {
            "••••••••"
        };
        let white = Style::of(Color::White);
        push_pair(&mut out, "API Key: ", text::copy(key), white);
        push_pair(&mut out, "轮数上限: ", self.max_turns_label(host), white);
        push_pair(&mut out, "上下文窗口: ", self.context_window_label(), white);
        say(&mut out, KEY_KEYS, Color::Cyan);
        out
    }

    fn draw_window(&self) -> (r: Vec<Line>)
        ensures
            style::line_views(r@) == window_page(self@),
    {
        let mut out = style::no_lines();
        self.push_target(&mut out);
        let st = Style::bold_of(Color::White);
        push_pair(&mut out, "上下文窗口: ", self.context_window_label(), st);
        say(&mut out, WINDOW_HELP, Color::DarkGray);
        say(&mut out, WINDOW_HINT, Color::DarkGray);
        say(&mut out, WINDOW_KEYS, Color::Cyan);
        out
    }

    fn draw_turns(&self, host: &Host) -> (r: Vec<Line>)
        ensures
            style::line_views(r@) == turns_page(self@, host@),
    {
        let mut out = style::no_lines();
        self.push_target(&mut out);
        let st = Style::bold_of(Color::White);
        push_pair(&mut out, "轮数上限: ", self.max_turns_label(host), st);
        say(&mut out, TURNS_HELP, Color::DarkGray);
        say(&mut out, TURNS_KEYS, Color::Cyan);
        out
    }

    fn draw_retry(&self) -> (r: Vec<Line>)
        ensures
            style::line_views(r@) == retry_page(self@),
    {
        let mut out = style::no_lines();
        self.push_target(&mut out);
        push_pair(&mut out, "弱网重试: ", self.retry_label(), Style::bold_of(Color::White));
        say(&mut out, RETRY_HELP, Color::DarkGray);
        let c: usize = self.retry_cursor;
        push_entry(&mut out, c == 0, text::copy("关闭(默认)"));
        push_entry(&mut out, c == 1, text::copy("开启：追加 3 次"));
        push_entry(&mut out, c == 2, text::copy("开启：追加 5 次"));
        push_entry(&mut out, c == 3, text::copy("开启：追加 8 次"));
        push_entry(&mut out, c >= 4, text::copy("手动输入次数…"));
        say(&mut out, RETRY_KEYS, Color::Cyan);
        out
    }

    fn draw_proxy(&self, host: &Host) -> (r: Vec<Line>)
        ensures
            style::line_views(r@) == proxy_page(self@, host@),
    {
        let mut out = style::no_lines();
        self.push_target(&mut out);
        let st = Style::bold_of(Color::White);
        push_pair(&mut out, "网络代理: ", settings::proxy_text(&self.proxy, host), st);
        say(&mut out, PROXY_HELP, Color::DarkGray);
        let c: usize = self.proxy_cursor;
        push_entry(&mut out, c == 0, text::copy("跟随环境(默认)"));
        push_entry(&mut out, c == 1, text::copy("直连(忽略环境代理)"));
        push_entry(&mut out, c >= 2, text::copy("手动指定…"));
        say(&mut out, PROXY_KEYS, Color::Cyan);
        out
    }

    fn draw_foot(&self) -> (r: Vec<Line>)
        ensures
            style::line_views(r@) == foot_lines(self@),
    {
        let mut out = style::no_lines();
        if self.typing {
            style::push_blank(&mut out);
            let green = Style::of(Color::Green);
            let shown = if settings::is_blank(self.input_buf.as_str()) {
                text::copy("…")
            } else {
                self.input_buf.clone()
            };
            let mut spans = style::no_spans();
            style::push_span(&mut spans, text::copy("输入: "), Style::bold_of(Color::Green));
            style::push_span(&mut spans, shown, green);
            style::push_span(&mut spans, text::copy(" _"), green);
            proof {
                assert(style::span_views(spans@) =~= foot_lines(self@)[1]);
            }
            style::push_line(&mut out, spans);
            say(&mut out, "回车确认 | Esc 取消", Color::DarkGray);
        } else if !settings::is_blank(self.notice.as_str()) {
            style::push_blank(&mut out);
            say(&mut out, self.notice.as_str(), Color::Magenta);
        }
        out
    }
}

// ------------------------------------------------------------------------ laws

/// A key that is set is never shown: two wizards that differ in nothing but it are
/// drawn the same.
pub proof fn law_key_is_never_drawn(w: WizardView, h: HostView, key: Seq<char>)
    requires
        w.api_key.len() > 0,
        key.len() > 0,
    ensures
        wizard_lines(WizardView { api_key: key, ..w }, h) == wizard_lines(w, h),
{
    let v = WizardView { api_key: key, ..w };
    assert(provider_page(v) =~= provider_page(w));
    assert(model_entries(v) =~= model_entries(w));
    assert(summary(v, h) =~= summary(w, h));
}

} // verus!
