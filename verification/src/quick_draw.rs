//! How the panel for single settings is drawn: the lines inside its frame.
use crate::ansi;
use crate::config_draw;
use crate::config_ui;
use crate::quick_cfg;
use crate::quick_cfg::{PanelView, QcItem, QcStep, QuickCfgPanel, SubmitKind};
use crate::scan;
use crate::settings;
use crate::settings::{Host, HostView};
use crate::style;
use crate::style::{Color, Line, Modifier, SpanView, Style};
use crate::text;
use vstd::prelude::*;

verus! {

/// The title of the panel's frame.
pub const TITLE: &'static str = " 按需配置 — 选一项改一项(/config 走全量向导) ";

// -------------------------------------------------------------- parts of lines

/// The mark in front of an entry of a list.
pub open spec fn mark(sel: bool) -> Seq<char> {
    if sel {
        ">"@
    } else {
        " "@
    }
}

/// The style of an entry of a list.
pub open spec fn entry_style(sel: bool) -> Style {
    if sel {
        style::colored(Color::Black).with_bg(Color::Cyan)
    } else {
        style::plain()
    }
}

/// An entry of a list.
pub open spec fn entry(sel: bool, label: Seq<char>) -> Seq<SpanView> {
    style::one(mark(sel) + " "@ + label, entry_style(sel))
}

fn mark_text(sel: bool) -> (r: &'static str)
    ensures
        r@ == mark(sel),
{
    if sel {
        ">"
    } else {
        " "
    }
}

fn style_of_entry(sel: bool) -> (r: Style)
    ensures
        r == entry_style(sel),
{
    if sel {
        Style::of(Color::Black).on_bg(Color::Cyan)
    } else {
        Style::new()
    }
}

fn push_entry(out: &mut Vec<Line>, sel: bool, label: &str)
    ensures
        style::line_views(final(out)@) == style::line_views(old(out)@).push(entry(sel, label@)),
{
    style::push_text_line(out, text::cat3(mark_text(sel), " ", label), style_of_entry(sel));
}

fn say(out: &mut Vec<Line>, s: &str, st: Style)
    ensures
        style::line_views(final(out)@) == style::line_views(old(out)@).push(style::one(s@, st)),
{
    style::push_text_line(out, text::copy(s), st);
}

/// The text, or a question mark.
pub open spec fn or_question(s: Seq<char>) -> Seq<char> {
    if s.len() == 0 {
        "?"@
    } else {
        s
    }
}

fn or_mark(s: &String) -> (r: String)
    ensures
        r@ == or_question(s@),
{
    if settings::is_blank(s.as_str()) {
        text::copy("?")
    } else {
        s.clone()
    }
}

/// What is configured, in one line.
pub open spec fn summary(p: PanelView, h: HostView) -> Seq<char> {
    "当前: "@ + or_question(p.provider) + " / "@ + or_question(p.model) + " / "@ + or_question(
        p.base_url,
    ) + " · 轮数"@ + settings::turns_shown(p.max_turns, h.default_turns) + " · 重试"@
        + settings::retry_shown(p.retry) + " · 窗口"@ + settings::window_shown(p.context_window)
        + " · 代理"@ + settings::proxy_brief(p.proxy, h)
}

// -------------------------------------------------------------------- the menu

/// The key that leads to a place of the menu.
pub open spec fn place_key(i: int) -> Seq<char> {
    if i == 9 {
        "0"@
    } else {
        text::decimal((i + 1) as nat)
    }
}

/// One setting of the menu.
pub open spec fn menu_line(p: PanelView, i: int, h: HostView) -> Seq<SpanView> {
    let item = quick_cfg::item_at(i);
    let sel = i == p.menu_cursor;
    style::one(
        mark(sel) + " "@ + place_key(i) + ". "@ + quick_cfg::item_title(item) + ": "@
            + quick_cfg::value_shown(p, item, h) + " "@ + quick_cfg::item_tag(item),
        if sel {
            style::colored(Color::Black).with_bg(Color::Cyan).with_on(Modifier::Bold)
        } else {
            style::plain()
        },
    )
}

pub const MENU_KEYS: &'static str = "↑↓ 选择 · Enter 编辑 · 1-9,0 直达 · Esc 退出";

/// The menu.
pub open spec fn menu_page(p: PanelView, h: HostView) -> Seq<Seq<SpanView>> {
    Seq::new(10, |i: int| menu_line(p, i, h)).push(Seq::<SpanView>::empty()).push(
        style::one(MENU_KEYS@, style::colored(Color::DarkGray)),
    )
}

// ----------------------------------------------------------------- the editors

pub const PROVIDER_KEYS: &'static str = "Enter 选中切家(停留本屏,可继续微调) · Esc 回菜单";

/// The editor of the provider.
pub open spec fn provider_part(p: PanelView) -> Seq<Seq<SpanView>> {
    p.providers.map(
        |i: int, c: (Seq<char>, Seq<char>, Seq<char>)|
            entry(i == p.cursor, c.0 + "  "@ + c.1),
    ).push(style::one(PROVIDER_KEYS@, style::colored(Color::DarkGray)))
}

/// The models in sight.
pub open spec fn model_entries(p: PanelView) -> Seq<Seq<SpanView>> {
    let (first, count) = config_ui::window_of(p.models.len(), p.model_cursor);
    Seq::new(count, |i: int| entry(first + i == p.model_cursor, p.models[first + i]))
}

pub const NO_MODELS: &'static str = "模型列表查询中/不可用,按 m 手动输入。";

pub const MODEL_KEYS: &'static str = "↑↓ 选择 · Enter 确认 · m 手动输入";

/// The editor of the model.
pub open spec fn model_part(p: PanelView) -> Seq<Seq<SpanView>> {
    if p.models.len() == 0 {
        seq![style::one(NO_MODELS@, style::plain())]
    } else {
        model_entries(p).push(style::one(MODEL_KEYS@, style::colored(Color::DarkGray)))
    }
}

/// The editor of the protocol.
pub open spec fn protocol_part(p: PanelView) -> Seq<Seq<SpanView>> {
    seq![
        entry(p.protocol_cursor == 0, "chat"@),
        entry(p.protocol_cursor == 1, "response"@),
        style::one("↑↓ 选择 · Enter 确认"@, style::colored(Color::DarkGray)),
    ]
}

/// The editor of the API key.
pub open spec fn key_part() -> Seq<Seq<SpanView>> {
    seq![
        style::one("Key 不回显旧值,只显示来源(见当前值行)。"@, style::plain()),
        style::one("e/Enter 编辑(覆盖) · Esc 放弃"@, style::colored(Color::DarkGray)),
    ]
}

/// The editor of the endpoint.
pub open spec fn url_part() -> Seq<Seq<SpanView>> {
    seq![
        style::one("端点须 http(s):// 开头。"@, style::plain()),
        style::one("e/Enter 编辑 · Esc 放弃"@, style::colored(Color::DarkGray)),
    ]
}

pub const NUMBER_KEYS: &'static str = "直接敲数字 / t 编辑 · Enter 仅聚焦输入";

/// The editor of the context window.
pub open spec fn window_part() -> Seq<Seq<SpanView>> {
    seq![
        style::one("留空 = 自动(按模型名匹配内置表)。"@, style::plain()),
        style::one(NUMBER_KEYS@, style::colored(Color::DarkGray)),
    ]
}

/// The editor of the limit of turns.
pub open spec fn turns_part() -> Seq<Seq<SpanView>> {
    seq![
        style::one("0 = 不限,留空 = 默认。"@, style::plain()),
        style::one(NUMBER_KEYS@, style::colored(Color::DarkGray)),
    ]
}

/// The editor of the retries.
pub open spec fn retry_part(p: PanelView) -> Seq<Seq<SpanView>> {
    seq![
        entry(p.retry_cursor == 0, "关闭"@),
        entry(p.retry_cursor == 1, "3 次"@),
        entry(p.retry_cursor == 2, "5 次"@),
        entry(p.retry_cursor == 3, "8 次"@),
        entry(p.retry_cursor == 4, "手动输入"@),
        style::one(
            "↑↓ 档位 · 数字/t 手动 · Enter 手动档进输入"@,
            style::colored(Color::DarkGray),
        ),
    ]
}

/// The editor of the session header.
pub open spec fn header_part(p: PanelView) -> Seq<Seq<SpanView>> {
    seq![
        entry(p.session_cursor == 0, "是(开)"@),
        entry(p.session_cursor == 1, "否(关)"@),
        style::one("y/n 直达 · ↑↓+Enter 确认"@, style::colored(Color::DarkGray)),
    ]
}

pub const PROXY_KEYS: &'static str = "↑↓ 档位 · y 跟随环境 / n 直连 · 数字/t/e/Enter 手输地址";

/// The editor of the proxy.
pub open spec fn proxy_part(p: PanelView) -> Seq<Seq<SpanView>> {
    seq![
        style::one(config_draw::PROXY_HELP@, style::plain()),
        entry(p.proxy_cursor == 0, "跟随环境(默认)"@),
        entry(p.proxy_cursor == 1, "直连(忽略环境代理)"@),
        entry(p.proxy_cursor == 2, "手动指定…"@),
        style::one(PROXY_KEYS@, style::colored(Color::DarkGray)),
    ]
}

/// The lines of the editor of a setting.
pub open spec fn item_part(p: PanelView, item: QcItem) -> Seq<Seq<SpanView>> {
    match item {
        QcItem::Provider => provider_part(p),
        QcItem::Model => model_part(p),
        QcItem::Protocol => protocol_part(p),
        QcItem::ApiKey => key_part(),
        QcItem::BaseUrl => url_part(),
        QcItem::ContextWindow => window_part(),
        QcItem::MaxTurns => turns_part(),
        QcItem::Retry => retry_part(p),
        QcItem::SessionHeader => header_part(p),
        QcItem::Proxy => proxy_part(p),
    }
}

/// The lines above the editor: the setting and its value.
pub open spec fn item_head(p: PanelView, item: QcItem, h: HostView) -> Seq<Seq<SpanView>> {
    seq![
        style::one(
            quick_cfg::item_title(item) + " "@ + quick_cfg::item_tag(item),
            style::bold(Color::Cyan),
        ),
        style::one(
            "当前值: "@ + quick_cfg::value_shown(p, item, h),
            style::colored(Color::DarkGray),
        ),
        Seq::<SpanView>::empty(),
    ]
}

pub const FINISH_DIRECT: &'static str =
    "s 直接提交(默认) · v 验证后提交 · Esc 回菜单(编辑丢弃)";

pub const FINISH_VERIFIED: &'static str =
    "s 直接提交 · v 验证后提交(默认) · Esc 回菜单(编辑丢弃)";

/// The lines below the editor: the input line, and the keys to finish with.
pub open spec fn item_foot(p: PanelView, item: QcItem) -> Seq<Seq<SpanView>> {
    let keys = style::one(
        if quick_cfg::item_local(item) {
            FINISH_DIRECT@
        } else {
            FINISH_VERIFIED@
        },
        style::colored(Color::Yellow),
    );
    if p.typing {
        seq![
            seq![
                style::sv("输入: "@, style::colored(Color::Yellow)),
                style::sv(p.input_buf + "▊"@, style::plain().with_on(Modifier::Bold)),
            ],
            Seq::<SpanView>::empty(),
            keys,
        ]
    } else {
        seq![Seq::<SpanView>::empty(), keys]
    }
}

/// The lines of the current step.
pub open spec fn page(p: PanelView, h: HostView) -> Seq<Seq<SpanView>> {
    match p.step {
        QcStep::Menu => menu_page(p, h),
        QcStep::Edit(item) => item_head(p, item, h) + item_part(p, item) + item_foot(p, item),
        QcStep::Verifying { item } => seq![
            style::one(
                if p.progress.len() == 0 {
                    "正在验证…(Esc 取消)"@
                } else {
                    p.progress + " (Esc 取消)"@
                },
                style::colored(Color::Yellow),
            ),
        ],
    }
}

/// The lines of the notice, where there is one.
pub open spec fn notice_lines(p: PanelView) -> Seq<Seq<SpanView>> {
    if p.notice.len() == 0 {
        Seq::empty()
    } else {
        seq![Seq::<SpanView>::empty()] + scan::line_list(p.notice).map_values(
            |l: Seq<char>| style::one(l, style::colored(Color::Yellow)),
        )
    }
}

/// The lines inside the panel's frame.
pub open spec fn panel_lines(p: PanelView, h: HostView) -> Seq<Seq<SpanView>> {
    seq![
        style::one(summary(p, h), style::colored(Color::DarkGray)),
        Seq::<SpanView>::empty(),
    ] + page(p, h) + notice_lines(p)
}

// --------------------------------------------------------------------- drawing

impl QuickCfgPanel {
    /// Draws the lines inside the panel's frame, stripped of what a terminal would obey.
    pub fn render(&self, host: &Host) -> (r: Vec<Line>)
        ensures
            style::line_views(r@) == ansi::stripped_lines(panel_lines(self@, host@)),
    {
        let mut out = style::no_lines();
        say(&mut out, self.summary_text(host).as_str(), Style::of(Color::DarkGray));
        style::push_blank(&mut out);
        proof {
            assert(style::line_views(out@) =~= seq![
                style::one(summary(self@, host@), style::colored(Color::DarkGray)),
                Seq::<SpanView>::empty(),
            ]);
        }
        style::append_lines(&mut out, self.draw_page(host));
        style::append_lines(&mut out, self.draw_notice());
        ansi::strip_lines(&out)
    }

    fn summary_text(&self, host: &Host) -> (r: String)
        ensures
            r@ == summary(self@, host@),
    {
        let mut s = text::cat2("当前: ", or_mark(&self.provider).as_str());
        s.append(" / ");
        s.append(or_mark(&self.model).as_str());
        s.append(" / ");
        s.append(or_mark(&self.base_url).as_str());
        s.append(" · 轮数");
        s.append(settings::max_turns_text(self.max_turns, host.default_turns).as_str());
        s.append(" · 重试");
        s.append(settings::retry_text(self.retry).as_str());
        s.append(" · 窗口");
        s.append(settings::context_window_text(self.context_window).as_str());
        s.append(" · 代理");
        s.append(settings::proxy_text_short(&self.proxy, host).as_str());
        s
    }

    fn draw_page(&self, host: &Host) -> (r: Vec<Line>)
        ensures
            style::line_views(r@) == page(self@, host@),
    {
        match self.step {
            QcStep::Menu => self.draw_menu(host),
            QcStep::Edit(item) => {
                let mut out = self.draw_item_head(item, host);
                style::append_lines(&mut out, self.draw_item(item));
                style::append_lines(&mut out, self.draw_item_foot(item));
                out
            },
            QcStep::Verifying { item: _ } => {
                let mut out = style::no_lines();
                let msg = if settings::is_blank(self.progress.as_str()) {
                    text::copy("正在验证…(Esc 取消)")
                } else {
                    text::cat2(self.progress.as_str(), " (Esc 取消)")
                };
                style::push_text_line(&mut out, msg, Style::of(Color::Yellow));
                out
            },
        }
    }

    fn push_menu_line(&self, out: &mut Vec<Line>, i: usize, host: &Host)
        requires
            i < 10,
        ensures
            style::line_views(final(out)@) == style::line_views(old(out)@).push(
                menu_line(self@, i as int, host@),
            ),
    {
        let item = QcItem::from_index(i);
        let sel = i == self.menu_cursor;
        let key = if i == 9 {
            text::copy("0")
        } else {
            text::dec(i + 1)
        };
        let mut s = text::cat4(mark_text(sel), " ", key.as_str(), ". ");
        s.append(item.title());
        s.append(": ");
        s.append(self.current_value(item, host).as_str());
        s.append(" ");
        s.append(item.tag());
        let st = if sel {
            Style::of(Color::Black).on_bg(Color::Cyan).add_modifier(Modifier::Bold)
        } else {
            Style::new()
        };
        style::push_text_line(out, s, st);
    }

    fn draw_menu(&self, host: &Host) -> (r: Vec<Line>)
        ensures
            style::line_views(r@) == menu_page(self@, host@),
    {
        let ghost all = Seq::new(10, |i: int| menu_line(self@, i, host@));
        let mut out = style::no_lines();
        let mut i: usize = 0;
        proof {
            assert(all.take(0) =~= Seq::<Seq<SpanView>>::empty());
        }
        while i < 10
            invariant
                i <= 10,
                all == Seq::new(10, |i: int| menu_line(self@, i, host@)),
                style::line_views(out@) == all.take(i as int),
            decreases 10 - i,
        {
            proof {
                assert(all[i as int] == menu_line(self@, i as int, host@));
                assert(all.take(i + 1) =~= all.take(i as int).push(all[i as int]));
            }
            self.push_menu_line(&mut out, i, host);
            i += 1;
        }
        proof {
            assert(all.take(10) =~= all);
        }
        style::push_blank(&mut out);
        say(&mut out, MENU_KEYS, Style::of(Color::DarkGray));
        out
    }

    fn draw_item_head(&self, item: QcItem, host: &Host) -> (r: Vec<Line>)
        ensures
            style::line_views(r@) == item_head(self@, item, host@),
    {
        let mut out = style::no_lines();
        let title = text::cat3(item.title(), " ", item.tag());
        style::push_text_line(&mut out, title, Style::bold_of(Color::Cyan));
        let value = text::cat2("当前值: ", self.current_value(item, host).as_str());
        style::push_text_line(&mut out, value, Style::of(Color::DarkGray));
        style::push_blank(&mut out);
        out
    }

    fn draw_item_foot(&self, item: QcItem) -> (r: Vec<Line>)
        ensures
            style::line_views(r@) == item_foot(self@, item),
    {
        let mut out = style::no_lines();
        if self.typing {
            let mut spans = style::no_spans();
            style::push_span(&mut spans, text::copy("输入: "), Style::of(Color::Yellow));
            style::push_span(
                &mut spans,
                text::cat2(self.input_buf.as_str(), "▊"),
                Style::new().add_modifier(Modifier::Bold),
            );
            proof {
                assert(style::span_views(spans@) =~= item_foot(self@, item)[0]);
            }
            style::push_line(&mut out, spans);
        }
        style::push_blank(&mut out);
        let keys = match item.default_submit() {
            SubmitKind::Direct => FINISH_DIRECT,
            SubmitKind::Verified => FINISH_VERIFIED,
        };
        say(&mut out, keys, Style::of(Color::Yellow));
        out
    }

    fn draw_item(&self, item: QcItem) -> (r: Vec<Line>)
        ensures
            style::line_views(r@) == item_part(self@, item),
    {
        match item {
            QcItem::Provider => self.draw_providers(),
            QcItem::Model => self.draw_models(),
            QcItem::Protocol => self.draw_protocols(),
            QcItem::ApiKey => draw_two(
                "Key 不回显旧值,只显示来源(见当前值行)。",
                "e/Enter 编辑(覆盖) · Esc 放弃",
            ),
            QcItem::BaseUrl => draw_two("端点须 http(s):// 开头。", "e/Enter 编辑 · Esc 放弃"),
            QcItem::ContextWindow => draw_two("留空 = 自动(按模型名匹配内置表)。", NUMBER_KEYS),
            QcItem::MaxTurns => draw_two("0 = 不限,留空 = 默认。", NUMBER_KEYS),
            QcItem::Retry => self.draw_retry(),
            QcItem::SessionHeader => self.draw_header(),
            QcItem::Proxy => self.draw_proxy(),
        }
    }

    fn draw_providers(&self) -> (r: Vec<Line>)
        ensures
            style::line_views(r@) == provider_part(self@),
    {
        let ghost all = self@.providers.map(
            |i: int, c: (Seq<char>, Seq<char>, Seq<char>)|
                entry(i == self@.cursor, c.0 + "  "@ + c.1),
        );
        let mut out = style::no_lines();
        let mut i: usize = 0;
        proof {
            reveal(settings::choice_views);
            assert(all.take(0) =~= Seq::<Seq<SpanView>>::empty());
        }
        while i < self.providers.len()
            invariant
                i <= self.providers.len(),
                all == self@.providers.map(
                    |i: int, c: (Seq<char>, Seq<char>, Seq<char>)|
                        entry(i == self@.cursor, c.0 + "  "@ + c.1),
                ),
                style::line_views(out@) == all.take(i as int),
            decreases self.providers.len() - i,
        {
            let p = &self.providers[i];
            proof {
                reveal(settings::choice_views);
                assert(self@.providers[i as int] == (p.0@, p.1@, p.2@));
                assert(all.take(i + 1) =~= all.take(i as int).push(all[i as int]));
            }
            let label = text::cat3(p.0.as_str(), "  ", p.1.as_str());
            push_entry(&mut out, i == self.cursor, label.as_str());
            i += 1;
        }
        proof {
            reveal(settings::choice_views);
            assert(all.take(i as int) =~= all);
        }
        say(&mut out, PROVIDER_KEYS, Style::of(Color::DarkGray));
        out
    }

    fn draw_models(&self) -> (r: Vec<Line>)
        ensures
            style::line_views(r@) == model_part(self@),
    {
        let mut out = style::no_lines();
        if self.models.len() == 0 {
            say(&mut out, NO_MODELS, Style::new());
            return out;
        }
        let n: usize = self.models.len();
        let (first, count) = config_ui::model_window(n, self.model_cursor);
        let ghost all = model_entries(self@);
        let mut i: usize = 0;
        proof {
            assert(all.take(0) =~= Seq::<Seq<SpanView>>::empty());
        }
        while i < count
            invariant
                (first as nat, count as nat) == config_ui::window_of(
                    self@.models.len(),
                    self@.model_cursor,
                ),
                first + count <= self.models.len(),
                i <= count,
                all == model_entries(self@),
                style::line_views(out@) == all.take(i as int),
            decreases count - i,
        {
            let at: usize = first + i;
            proof {
                assert(self@.models[at as int] == self.models@[at as int]@);
                assert(all[i as int] == entry(at == self@.model_cursor, self@.models[at as int]));
                assert(all.take(i + 1) =~= all.take(i as int).push(all[i as int]));
            }
            push_entry(&mut out, at == self.model_cursor, self.models[at].as_str());
            i += 1;
        }
        proof {
            assert(all.take(i as int) =~= all);
        }
        say(&mut out, MODEL_KEYS, Style::of(Color::DarkGray));
        out
    }

    fn draw_protocols(&self) -> (r: Vec<Line>)
        ensures
            style::line_views(r@) == protocol_part(self@),
    {
        let mut out = style::no_lines();
        push_entry(&mut out, self.protocol_cursor == 0, "chat");
        push_entry(&mut out, self.protocol_cursor == 1, "response");
        say(&mut out, "↑↓ 选择 · Enter 确认", Style::of(Color::DarkGray));
        out
    }

    fn draw_retry(&self) -> (r: Vec<Line>)
        ensures
            style::line_views(r@) == retry_part(self@),
    {
        let mut out = style::no_lines();
        let c: usize = self.retry_cursor;
        push_entry(&mut out, c == 0, "关闭");
        push_entry(&mut out, c == 1, "3 次");
        push_entry(&mut out, c == 2, "5 次");
        push_entry(&mut out, c == 3, "8 次");
        push_entry(&mut out, c == 4, "手动输入");
        say(
            &mut out,
            "↑↓ 档位 · 数字/t 手动 · Enter 手动档进输入",
            Style::of(Color::DarkGray),
        );
        out
    }

    fn draw_header(&self) -> (r: Vec<Line>)
        ensures
            style::line_views(r@) == header_part(self@),
    {
        let mut out = style::no_lines();
        push_entry(&mut out, self.session_cursor == 0, "是(开)");
        push_entry(&mut out, self.session_cursor == 1, "否(关)");
        say(&mut out, "y/n 直达 · ↑↓+Enter 确认", Style::of(Color::DarkGray));
        out
    }

    fn draw_proxy(&self) -> (r: Vec<Line>)
        ensures
            style::line_views(r@) == proxy_part(self@),
    {
        let mut out = style::no_lines();
        let c: usize = self.proxy_cursor;
        say(&mut out, config_draw::PROXY_HELP, Style::new());
        push_entry(&mut out, c == 0, "跟随环境(默认)");
        push_entry(&mut out, c == 1, "直连(忽略环境代理)");
        push_entry(&mut out, c == 2, "手动指定…");
        say(&mut out, PROXY_KEYS, Style::of(Color::DarkGray));
        out
    }

    fn draw_notice(&self) -> (r: Vec<Line>)
        ensures
            style::line_views(r@) == notice_lines(self@),
    {
        let mut out = style::no_lines();
        if settings::is_blank(self.notice.as_str()) {
            return out;
        }
        style::push_blank(&mut out);
        let ls = scan::lines(self.notice.as_str());
        let ghost top = seq![Seq::<SpanView>::empty()];
        let ghost all = scan::line_list(self.notice@).map_values(
            |l: Seq<char>| style::one(l, style::colored(Color::Yellow)),
        );
        let mut i: usize = 0;
        proof {
            assert(style::line_views(out@) =~= top + all.take(0));
        }
        while i < ls.len()
            invariant
                scan::texts(ls@) == scan::line_list(self.notice@),
                all == scan::line_list(self.notice@).map_values(
                    |l: Seq<char>| style::one(l, style::colored(Color::Yellow)),
                ),
                i <= ls.len(),
                style::line_views(out@) == top + all.take(i as int),
            decreases ls.len() - i,
        {
            proof {
                assert(scan::texts(ls@)[i as int] == ls@[i as int]@);
                assert(all.take(i + 1) =~= all.take(i as int).push(all[i as int]));
            }
            say(&mut out, ls[i].as_str(), Style::of(Color::Yellow));
            proof {
                assert(style::line_views(out@) =~= top + all.take(i + 1));
            }
            i += 1;
        }
        proof {
            assert(all.take(i as int) =~= all);
        }
        out
    }
}

fn draw_two(help: &str, keys: &str) -> (r: Vec<Line>)
    ensures
        style::line_views(r@) == seq![
            style::one(help@, style::plain()),
            style::one(keys@, style::colored(Color::DarkGray)),
        ],
{
    let mut out = style::no_lines();
    say(&mut out, help, Style::new());
    say(&mut out, keys, Style::of(Color::DarkGray));
    out
}

// ------------------------------------------------------------------------ laws

/// Of a key that is set, no more than its last four characters are ever shown: two
/// panels whose keys end alike, and that are otherwise the same, are drawn the same.
pub proof fn law_key_is_never_drawn(p: PanelView, h: HostView, key: Seq<char>)
    requires
        p.api_key.len() > 4,
        key.len() > 4,
        p.api_key.skip(p.api_key.len() - 4) == key.skip(key.len() - 4),
    ensures
        panel_lines(PanelView { api_key: key, ..p }, h) == panel_lines(p, h),
{
    let q = PanelView { api_key: key, ..p };
    assert forall|item: QcItem| #[trigger]
        quick_cfg::value_shown(q, item, h) == quick_cfg::value_shown(p, item, h) by {}
    assert(menu_page(q, h) =~= menu_page(p, h)) by {
        assert forall|i: int| menu_line(q, i, h) == menu_line(p, i, h) by {
            assert(quick_cfg::value_shown(q, quick_cfg::item_at(i), h) == quick_cfg::value_shown(
                p,
                quick_cfg::item_at(i),
                h,
            ));
        }
    }
    assert(provider_part(q) =~= provider_part(p));
    assert(model_entries(q) =~= model_entries(p));
    match p.step {
        QcStep::Edit(item) => {
            assert(quick_cfg::value_shown(q, item, h) == quick_cfg::value_shown(p, item, h));
            assert(item_head(q, item, h) =~= item_head(p, item, h));
            assert(item_part(q, item) == item_part(p, item));
            assert(item_foot(q, item) == item_foot(p, item));
        },
        _ => {},
    }
    assert(page(q, h) == page(p, h));
}

} // verus!
