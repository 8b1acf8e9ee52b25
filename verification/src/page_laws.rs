//! What the pages of the configuration, the status and the boxes show.

use crate::ansi;
use crate::chat::AppView;
use crate::config_draw;
use crate::config_ui;
use crate::config_ui::{Step, WizardView};
use crate::editor;
use crate::layout;
use crate::layout::Rect;
use crate::meter;
use crate::mode;
use crate::quick_cfg;
use crate::quick_cfg::{PanelView, QcItem, QcStep};
use crate::quick_draw;
use crate::scan;
use crate::screen;
use crate::settings;
use crate::settings::{HostView, ProtocolKind};
use crate::style;
use crate::style::{Color, SpanView};
use crate::text;
use crate::text_laws;
use crate::transcript::{BusyKind, TokenStats};
use vstd::prelude::*;

verus! {

proof fn lemma_in(a: Seq<char>, p: Seq<char>, b: Seq<char>, s: Seq<char>)
    requires
        s == a + p + b,
    ensures
        scan::occurs(s, p),
{
    text_laws::law_parts_occur(a, p, b);
}

proof fn lemma_behind(a: Seq<char>, p: Seq<char>)
    ensures
        scan::occurs(a + p, p),
{
    let e = Seq::<char>::empty();
    text_laws::law_parts_occur(a, p, e);
    assert(a + p + e =~= a + p);
}

proof fn lemma_before(p: Seq<char>, b: Seq<char>)
    ensures
        scan::occurs(p + b, p),
{
    let e = Seq::<char>::empty();
    text_laws::law_parts_occur(e, p, b);
    assert(e + p + b =~= p + b);
}

proof fn lemma_kept(a: Seq<char>, b: Seq<char>, p: Seq<char>)
    requires
        scan::occurs(a, p),
    ensures
        scan::occurs(a + b, p),
{
    let e = Seq::<char>::empty();
    text_laws::law_parts_of_parts_occur(e, a, b, p);
    assert(e + a + b =~= a + b);
}

// ----------------------------------------------------------------- the quick panel

/// What is shown of each setting is its value.
pub proof fn law_values_are_shown(p: PanelView, h: HostView)
    ensures
        p.provider.len() > 0 ==> quick_cfg::value_shown(p, QcItem::Provider, h) == p.provider,
        p.model.len() > 0 ==> quick_cfg::value_shown(p, QcItem::Model, h) == p.model,
        p.base_url.len() > 0 ==> quick_cfg::value_shown(p, QcItem::BaseUrl, h) == p.base_url,
        quick_cfg::value_shown(p, QcItem::Protocol, h) == (match p.protocol {
            ProtocolKind::Chat => "chat"@,
            ProtocolKind::Response => "response"@,
        }),
        quick_cfg::value_shown(p, QcItem::ContextWindow, h) == settings::window_shown(
            p.context_window,
        ),
        quick_cfg::value_shown(p, QcItem::MaxTurns, h) == settings::turns_shown(
            p.max_turns,
            h.default_turns,
        ),
        quick_cfg::value_shown(p, QcItem::Retry, h) == settings::retry_shown(p.retry),
        quick_cfg::value_shown(p, QcItem::Proxy, h) == settings::proxy_shown(p.proxy, h),
        quick_cfg::value_shown(p, QcItem::SessionHeader, h) == (if p.session_header {
            "开"@
        } else {
            "关"@
        }),
{
}

/// Each line of the menu shows the name of its setting and its value, and the one at the
/// cursor is marked.
pub proof fn law_menu_is_shown(p: PanelView, h: HostView, i: int)
    requires
        0 <= i < 10,
    ensures
        ({
            let l = quick_draw::menu_page(p, h)[i];
            let item = quick_cfg::item_at(i);
            &&& l.len() == 1
            &&& scan::occurs(
                l[0].content,
                quick_cfg::item_title(item) + ": "@ + quick_cfg::value_shown(p, item, h),
            )
            &&& l[0].style.bg is Some <==> i == p.menu_cursor
        }),
{
    let item = quick_cfg::item_at(i);
    let l = quick_draw::menu_line(p, i, h);
    assert(quick_draw::menu_page(p, h)[i] == l);
    let a = quick_draw::mark(i == p.menu_cursor) + " "@ + quick_draw::place_key(i) + ". "@;
    let t = quick_cfg::item_title(item);
    let v = quick_cfg::value_shown(p, item, h);
    let b = " "@ + quick_cfg::item_tag(item);
    assert(a + t + ": "@ + v + " "@ + quick_cfg::item_tag(item) =~= a + (t + ": "@ + v) + b);
    lemma_in(a, t + ": "@ + v, b, l[0].content);
}

/// The page of an editor shows the name of its setting and its value in its first two
/// lines, and below the editor what is being typed.
pub proof fn law_editors_are_shown(p: PanelView, item: QcItem, h: HostView)
    requires
        p.step == QcStep::Edit(item),
    ensures
        ({
            let ls = quick_draw::page(p, h);
            let n = ls.len() as int;
            &&& n >= 5
            &&& scan::occurs(ls[0][0].content, quick_cfg::item_title(item))
            &&& scan::occurs(ls[1][0].content, quick_cfg::value_shown(p, item, h))
            &&& forall|i: int|
                0 <= i < quick_draw::item_part(p, item).len() ==> #[trigger] ls[3 + i]
                    == quick_draw::item_part(p, item)[i]
            &&& p.typing ==> ls[n - 3].len() == 2 && ls[n - 3][1].content == p.input_buf + "▊"@
        }),
{
    let head = quick_draw::item_head(p, item, h);
    let part = quick_draw::item_part(p, item);
    let foot = quick_draw::item_foot(p, item);
    let ls = quick_draw::page(p, h);
    assert(ls == head + part + foot);
    assert(ls[0] == head[0] && ls[1] == head[1]);
    lemma_before(quick_cfg::item_title(item), " "@ + quick_cfg::item_tag(item));
    assert(quick_cfg::item_title(item) + " "@ + quick_cfg::item_tag(item)
        =~= quick_cfg::item_title(item) + (" "@ + quick_cfg::item_tag(item)));
    lemma_behind("当前值: "@, quick_cfg::value_shown(p, item, h));
    assert forall|i: int| 0 <= i < part.len() implies #[trigger] ls[3 + i] == part[i] by {}
    if p.typing {
        assert(ls[ls.len() - 3] == foot[0]);
    }
}

/// The lists of the editors show their entries in order, and mark the one at the cursor.
pub proof fn law_lists_are_shown(p: PanelView, i: int)
    ensures
        0 <= i < p.providers.len() ==> {
            let l = quick_draw::provider_part(p)[i];
            &&& scan::occurs(l[0].content, p.providers[i].0)
            &&& scan::occurs(l[0].content, p.providers[i].1)
            &&& l[0].style.bg is Some <==> i == p.cursor
        },
        0 <= i < 2 ==> (quick_draw::protocol_part(p)[i][0].style.bg is Some <==> i
            == p.protocol_cursor),
        0 <= i < 2 ==> (quick_draw::header_part(p)[i][0].style.bg is Some <==> i
            == p.session_cursor),
        0 <= i < 5 ==> (quick_draw::retry_part(p)[i][0].style.bg is Some <==> i
            == p.retry_cursor),
        0 <= i < 3 ==> (quick_draw::proxy_part(p)[1 + i][0].style.bg is Some <==> i
            == p.proxy_cursor),
{
    if 0 <= i < p.providers.len() {
        let c = p.providers[i];
        let m = quick_draw::mark(i == p.cursor) + " "@;
        let s = m + (c.0 + "  "@ + c.1);
        assert(quick_draw::provider_part(p)[i] == quick_draw::entry(
            i == p.cursor,
            c.0 + "  "@ + c.1,
        ));
        assert(s =~= m + c.0 + ("  "@ + c.1));
        lemma_in(m, c.0, "  "@ + c.1, s);
        assert(s =~= (m + c.0 + "  "@) + c.1);
        lemma_behind(m + c.0 + "  "@, c.1);
    }
}

/// The list of models shows as many as there is room for, one after the other, and the
/// one at the cursor among them, marked.
pub proof fn law_models_are_shown(p: PanelView, w: WizardView, i: int)
    ensures
        p.model_cursor < p.models.len() ==> {
            let (first, count) = config_ui::window_of(p.models.len(), p.model_cursor);
            let ls = quick_draw::model_entries(p);
            &&& first <= p.model_cursor < first + count <= p.models.len()
            &&& ls.len() == count
            &&& 0 <= i < count ==> scan::occurs(ls[i][0].content, p.models[first + i]) && (
            ls[i][0].style.bg is Some <==> first + i == p.model_cursor)
        },
        w.model_cursor < w.models.len() ==> {
            let (first, count) = config_ui::window_of(w.models.len(), w.model_cursor);
            let ls = config_draw::model_entries(w);
            &&& first <= w.model_cursor < first + count <= w.models.len()
            &&& ls.len() == count
            &&& 0 <= i < count ==> ls[i][1].content == w.models[first + i] && (ls[i][0].content
                == "▶ "@ <==> first + i == w.model_cursor)
        },
{
    reveal_strlit("▶ ");
    reveal_strlit("  ");
    assert("▶ "@[0] == '▶' && "  "@[0] == ' ');
    if p.model_cursor < p.models.len() {
        let (first, count) = config_ui::window_of(p.models.len(), p.model_cursor);
        config_ui::law_cursor_is_in_sight(p.models.len(), p.model_cursor);
        if 0 <= i < count {
            let m = quick_draw::mark(first + i == p.model_cursor) + " "@;
            lemma_behind(m, p.models[first + i]);
        }
    }
    if w.model_cursor < w.models.len() {
        config_ui::law_cursor_is_in_sight(w.models.len(), w.model_cursor);
    }
}

// ------------------------------------------------------------------------ the wizard

proof fn lemma_bar(n: nat, k: int, i: int)
    requires
        0 <= i < n <= 10,
    ensures
        config_draw::bar(n, k).len() == (if n == 10 {
            19nat
        } else {
            2 * n
        }),
        config_draw::bar(n, k)[2 * i].content == "["@ + config_draw::step_name(i) + "]"@,
        i == k ==> config_draw::bar(n, k)[2 * i].style.fg == Some(Color::Cyan),
        i < k ==> config_draw::bar(n, k)[2 * i].style.fg == Some(Color::Green),
        i > k ==> config_draw::bar(n, k)[2 * i].style.fg == Some(Color::DarkGray),
    decreases n,
{
    lemma_bar_len((n - 1) as nat, k);
    if i < n - 1 {
        lemma_bar((n - 1) as nat, k, i);
    }
}

proof fn lemma_bar_len(n: nat, k: int)
    requires
        n < 10,
    ensures
        config_draw::bar(n, k).len() == 2 * n,
    decreases n,
{
    if n > 0 {
        lemma_bar_len((n - 1) as nat, k);
    }
}

/// The bar of the wizard shows its ten steps in their order, the current one in one
/// colour, those that are done in another and those to come in a third.
pub proof fn law_steps_are_shown(w: WizardView, h: HostView, i: int)
    requires
        0 <= i < 10,
    ensures
        ({
            let b = config_draw::wizard_lines(w, h)[0];
            let k = match w.step {
                Step::Provider => 0int,
                Step::SessionHeader => 1,
                Step::Querying => 2,
                Step::ModelSelect => 2,
                Step::ProtocolSelect => 3,
                Step::ApiKey => 4,
                Step::ContextWindow => 5,
                Step::MaxTurns => 6,
                Step::Retry => 7,
                Step::Proxy => 8,
                Step::Verifying => 9,
            };
            &&& b.len() == 19
            &&& b[2 * i].content == "["@ + config_draw::step_name(i) + "]"@
            &&& i == k ==> b[2 * i].style.fg == Some(Color::Cyan)
            &&& i < k ==> b[2 * i].style.fg == Some(Color::Green)
            &&& i > k ==> b[2 * i].style.fg == Some(Color::DarkGray)
        }),
{
    lemma_bar(10, config_draw::step_place(w.step), i);
    let ls = config_draw::wizard_lines(w, h);
    assert(ls[0] == config_draw::head_lines(w, h)[0]);
}

/// The wizard shows what is configured: the provider and the model, the endpoint, the
/// window, the turns and the retries.
pub proof fn law_configuration_is_shown(w: WizardView, h: HostView)
    requires
        w.provider.len() > 0,
    ensures
        ({
            let l = config_draw::wizard_lines(w, h)[2];
            &&& l.len() == 3
            &&& l[1].content == w.provider + " / "@ + w.model
            &&& scan::occurs(l[2].content, w.base_url)
            &&& scan::occurs(l[2].content, settings::window_shown(w.context_window))
            &&& scan::occurs(l[2].content, settings::turns_shown(w.max_turns, h.default_turns))
            &&& scan::occurs(l[2].content, settings::retry_shown(w.retry))
            &&& scan::occurs(l[2].content, settings::proxy_brief(w.proxy, h))
        }),
{
    let ls = config_draw::wizard_lines(w, h);
    assert(ls[2] == config_draw::head_lines(w, h)[2]);
    let win = settings::window_shown(w.context_window);
    let turns = settings::turns_shown(w.max_turns, h.default_turns);
    let retry = settings::retry_shown(w.retry);
    let on = if w.session_header {
        "开"@
    } else {
        "关"@
    };
    let s1 = "  端点 "@ + w.base_url;
    let s2 = s1 + "  Key "@ + config_draw::key_brief(w) + "  窗口 "@ + win;
    let s3 = s2 + "  轮数 "@ + turns;
    let s4 = s3 + "  重试 "@ + retry;
    let s5 = s4 + "  会话头 "@ + on + "  代理 "@ + settings::proxy_brief(w.proxy, h);
    assert(ls[2][2].content == s5);
    lemma_behind("  端点 "@, w.base_url);
    lemma_on(s1, "  Key "@, config_draw::key_brief(w), w.base_url);
    lemma_on(s1 + "  Key "@ + config_draw::key_brief(w), "  窗口 "@, win, w.base_url);
    lemma_behind(s1 + "  Key "@ + config_draw::key_brief(w) + "  窗口 "@, win);
    lemma_on(s2, "  轮数 "@, turns, w.base_url);
    lemma_on(s2, "  轮数 "@, turns, win);
    lemma_behind(s2 + "  轮数 "@, turns);
    lemma_on(s3, "  重试 "@, retry, w.base_url);
    lemma_on(s3, "  重试 "@, retry, win);
    lemma_on(s3, "  重试 "@, retry, turns);
    lemma_behind(s3 + "  重试 "@, retry);
    lemma_end(s4, on, settings::proxy_brief(w.proxy, h), w.base_url);
    lemma_end(s4, on, settings::proxy_brief(w.proxy, h), win);
    lemma_end(s4, on, settings::proxy_brief(w.proxy, h), turns);
    lemma_end(s4, on, settings::proxy_brief(w.proxy, h), retry);
    lemma_behind(s4 + "  会话头 "@ + on + "  代理 "@, settings::proxy_brief(w.proxy, h));
}

proof fn lemma_on(a: Seq<char>, b: Seq<char>, c: Seq<char>, p: Seq<char>)
    requires
        scan::occurs(a, p),
    ensures
        scan::occurs(a + b + c, p),
{
    lemma_kept(a, b, p);
    lemma_kept(a + b, c, p);
}

proof fn lemma_end(a: Seq<char>, b: Seq<char>, c: Seq<char>, p: Seq<char>)
    requires
        scan::occurs(a, p),
    ensures
        scan::occurs(a + "  会话头 "@ + b + "  代理 "@ + c, p),
{
    lemma_on(a, "  会话头 "@, b, p);
    lemma_on(a + "  会话头 "@ + b, "  代理 "@, c, p);
}

/// An entry is marked.
pub open spec fn marked(l: Seq<SpanView>) -> bool {
    l.len() > 0 && l[0].content == "▶ "@
}

/// The pages with a list show their entries in order and mark the one at the cursor:
/// the providers with their endpoints, the protocols, the retries, the proxies, and
/// whether there is a session header.
pub proof fn law_pages_show_their_lists(w: WizardView, h: HostView, i: int)
    ensures
        0 <= i < w.providers.len() ==> {
            let l = config_draw::provider_page(w)[1 + i];
            &&& l.len() == 3
            &&& l[1].content == w.providers[i].0
            &&& scan::occurs(l[2].content, w.providers[i].1)
            &&& marked(l) <==> i == w.cursor
        },
        w.session_cursor < 2 && 0 <= i < 2 ==> (marked(config_draw::header_page(w)[2 + i]) <==> i
            == w.session_cursor),
        w.protocol_cursor < 2 && 0 <= i < 2 ==> (marked(config_draw::protocol_page(w)[2 + i])
            <==> i == w.protocol_cursor),
        config_draw::protocol_page(w)[2][1].content == "chat"@,
        config_draw::protocol_page(w)[3][1].content == "response"@,
        w.retry_cursor < 5 && 0 <= i < 5 ==> (marked(config_draw::retry_page(w)[3 + i]) <==> i
            == w.retry_cursor),
        w.proxy_cursor < 3 && 0 <= i < 3 ==> (marked(config_draw::proxy_page(w, h)[3 + i])
            <==> i == w.proxy_cursor),
{
    reveal_strlit("▶ ");
    reveal_strlit("  ");
    assert("▶ "@[0] == '▶' && "  "@[0] == ' ');
    if 0 <= i < w.providers.len() {
        let p = w.providers[i];
        assert(config_draw::provider_page(w)[1 + i] == config_draw::provider_line(
            p,
            i == w.cursor,
        ));
        let m = if p.2.len() == 0 {
            Seq::<char>::empty()
        } else {
            "(默认 "@ + p.2 + ")"@
        };
        assert("  "@ + p.1 + " "@ + m =~= "  "@ + p.1 + (" "@ + m));
        lemma_in("  "@, p.1, " "@ + m, "  "@ + p.1 + " "@ + m);
    }
}

/// The pages of values show the value: the window, the turns, the retries and the proxy.
pub proof fn law_pages_show_their_values(w: WizardView, h: HostView)
    ensures
        config_draw::window_page(w)[1][1].content == settings::window_shown(w.context_window),
        config_draw::turns_page(w, h)[1][1].content == settings::turns_shown(
            w.max_turns,
            h.default_turns,
        ),
        config_draw::retry_page(w)[1][1].content == settings::retry_shown(w.retry),
        config_draw::proxy_page(w, h)[1][1].content == settings::proxy_shown(w.proxy, h),
        scan::occurs(config_draw::window_page(w)[0][0].content, w.model),
        scan::occurs(config_draw::window_page(w)[0][0].content, w.provider),
{
    let a = "服务商: "@;
    let b = " | 模型: "@;
    let s = a + w.provider + b + w.model;
    lemma_behind(a + w.provider + b, w.model);
    assert(s =~= a + w.provider + (b + w.model));
    lemma_in(a, w.provider, b + w.model, s);
}

/// Below its page the wizard shows what is being typed, or else its message.
pub proof fn law_typed_text_is_shown(w: WizardView, h: HostView)
    ensures
        ({
            let ls = config_draw::wizard_lines(w, h);
            let n = ls.len() as int;
            &&& w.typing && w.input_buf.len() > 0 ==> n >= 3 && ls[n - 2].len() == 3 && ls[n
                - 2][1].content == w.input_buf
            &&& !w.typing && w.notice.len() > 0 ==> n >= 2 && ls[n - 1].len() == 1 && ls[n
                - 1][0].content == w.notice
        }),
{
    let ls = config_draw::wizard_lines(w, h);
    let foot = config_draw::foot_lines(w);
    let n = ls.len() as int;
    if w.typing {
        assert(ls[n - 2] == foot[1]);
    } else if w.notice.len() > 0 {
        assert(ls[n - 1] == foot[1]);
    }
}

// ------------------------------------------------------------------------ the screen

/// The status shows the mode, the persona, the model, whether the session is at work,
/// how far the view is scrolled up, and the session.
pub proof fn law_status_is_shown(s: AppView, model: Seq<char>, window: nat, frame: nat)
    ensures
        ({
            let l = screen::status(s, model, window, frame);
            let last = l[l.len() - 1].content;
            &&& l.len() >= 1
            &&& scan::occurs(l[0].content, mode::name_of(s.mode))
            &&& scan::occurs(l[0].content, ansi::stripped(model))
            &&& s.talk.persona.len() > 0 ==> scan::occurs(
                l[0].content,
                ansi::stripped(s.talk.persona),
            )
            &&& scan::occurs(l[0].content, screen::token_info(s.talk.stats, s.talk.busy))
            &&& !s.talk.busy ==> scan::occurs(l[0].content, "就绪"@)
            &&& s.talk.busy && s.talk.busy_kind == BusyKind::Work ==> scan::occurs(
                l[0].content,
                "工作中"@,
            )
            &&& s.talk.busy && s.talk.busy_kind == BusyKind::Compacting ==> scan::occurs(
                l[0].content,
                "压缩中"@,
            )
            &&& window > 0 ==> l.len() >= 2 && scan::occurs(
                l[1].content,
                meter::badge_text(meter::percent(s.talk.stats.last_prompt as nat, window)),
            )
            &&& s.scroll.back > 0 ==> scan::occurs(last, text::decimal(s.scroll.back as nat))
            &&& s.talk.session_id.len() > 0 ==> scan::occurs(
                last,
                ansi::stripped(s.talk.session_id),
            )
        }),
{
    let e = Seq::<char>::empty();
    let name = mode::name_of(s.mode);
    let who = if s.talk.persona.len() == 0 {
        e
    } else {
        " | "@ + ansi::stripped(s.talk.persona)
    };
    let m = ansi::stripped(model);
    let st = screen::state_text(s.talk.busy, s.talk.busy_kind, frame);
    let tok = screen::token_info(s.talk.stats, s.talk.busy);
    lemma_status(name, who, m, st, tok, ansi::stripped(s.talk.persona), s.talk.persona.len() > 0);
    lemma_state(s.talk.busy, s.talk.busy_kind, frame);
    let x = " "@ + name + who + " | "@ + m + " | "@ + st + tok;
    let l = screen::status(s, model, window, frame);
    assert(l[0].content == x);
    if !s.talk.busy {
        lemma_state_in(name, who, m, st, tok, "就绪"@);
    } else if s.talk.busy_kind == BusyKind::Work {
        lemma_state_in(name, who, m, st, tok, "工作中"@);
    } else {
        lemma_state_in(name, who, m, st, tok, "压缩中"@);
    }
    if window > 0 {
        let pct = meter::percent(s.talk.stats.last_prompt as nat, window);
        lemma_behind(" "@, meter::badge_text(pct));
        assert(l[1].content == " "@ + meter::badge_text(pct));
    }
    lemma_status_end(s);
    if s.scroll.back > 0 || s.talk.session_id.len() > 0 {
        assert(l[l.len() - 1].content == screen::status_end(s));
    }
}

proof fn lemma_state(busy: bool, kind: BusyKind, frame: nat)
    ensures
        !busy ==> screen::state_text(busy, kind, frame) == "就绪"@,
        busy && kind == BusyKind::Work ==> scan::occurs(
            screen::state_text(busy, kind, frame),
            "工作中"@,
        ),
        busy && kind == BusyKind::Compacting ==> scan::occurs(
            screen::state_text(busy, kind, frame),
            "压缩中"@,
        ),
{
    reveal_strlit("工作中… ");
    reveal_strlit("工作中");
    reveal_strlit("压缩中… ");
    reveal_strlit("压缩中");
    let t = seq!['…', ' '];
    let a = meter::wave(frame, 8);
    let b = seq![meter::shrinking((frame / 2) as int)];
    assert("工作中"@ + t =~= "工作中… "@);
    assert("压缩中"@ + t =~= "压缩中… "@);
    lemma_before("工作中"@, t);
    lemma_kept("工作中"@ + t, a, "工作中"@);
    lemma_before("压缩中"@, t);
    lemma_kept("压缩中"@ + t, b, "压缩中"@);
}

proof fn lemma_state_in(
    name: Seq<char>,
    who: Seq<char>,
    m: Seq<char>,
    st: Seq<char>,
    tok: Seq<char>,
    p: Seq<char>,
)
    requires
        scan::occurs(st, p) || st == p,
    ensures
        scan::occurs(" "@ + name + who + " | "@ + m + " | "@ + st + tok, p),
{
    let e = Seq::<char>::empty();
    if st == p {
        lemma_before(p, e);
        assert(p + e =~= p);
    }
    text_laws::law_parts_of_parts_occur(" "@ + name + who + " | "@ + m + " | "@, st, tok, p);
}

proof fn lemma_status(
    name: Seq<char>,
    who: Seq<char>,
    m: Seq<char>,
    st: Seq<char>,
    tok: Seq<char>,
    persona: Seq<char>,
    has: bool,
)
    requires
        has ==> who == " | "@ + persona,
    ensures
        scan::occurs(" "@ + name + who + " | "@ + m + " | "@ + st + tok, name),
        scan::occurs(" "@ + name + who + " | "@ + m + " | "@ + st + tok, m),
        scan::occurs(" "@ + name + who + " | "@ + m + " | "@ + st + tok, tok),
        has ==> scan::occurs(" "@ + name + who + " | "@ + m + " | "@ + st + tok, persona),
{
    let a = " "@ + name;
    lemma_behind(" "@, name);
    lemma_on(a, who, " | "@, name);
    lemma_on(a + who + " | "@, m, " | "@, name);
    lemma_on(a + who + " | "@ + m + " | "@, st, tok, name);
    lemma_behind(a + who + " | "@, m);
    lemma_kept(a + who + " | "@ + m, " | "@, m);
    lemma_on(a + who + " | "@ + m + " | "@, st, tok, m);
    lemma_behind(a + who + " | "@ + m + " | "@ + st, tok);
    if has {
        lemma_behind(" | "@, persona);
        let e = Seq::<char>::empty();
        text_laws::law_parts_of_parts_occur(a, who, e, persona);
        assert(a + who + e =~= a + who);
        lemma_kept(a + who, " | "@, persona);
        lemma_on(a + who + " | "@, m, " | "@, persona);
        lemma_on(a + who + " | "@ + m + " | "@, st, tok, persona);
    }
}

proof fn lemma_status_end(s: AppView)
    ensures
        s.scroll.back > 0 ==> scan::occurs(
            screen::status_end(s),
            text::decimal(s.scroll.back as nat),
        ),
        s.talk.session_id.len() > 0 ==> scan::occurs(
            screen::status_end(s),
            ansi::stripped(s.talk.session_id),
        ),
        s.scroll.back > 0 || s.talk.session_id.len() > 0 ==> screen::status_end(s).len() > 0,
{
    let e = Seq::<char>::empty();
    let d = text::decimal(s.scroll.back as nat);
    let up = if s.scroll.back > 0 {
        " ↕ 上翻"@ + d + "行(End回底)"@
    } else {
        e
    };
    let id = ansi::stripped(s.talk.session_id);
    let end = if s.talk.session_id.len() == 0 {
        e
    } else {
        " · 会话 "@ + id
    };
    reveal_strlit(" ↕ 上翻");
    reveal_strlit(" · 会话 ");
    if s.scroll.back > 0 {
        lemma_in(" ↕ 上翻"@, d, "行(End回底)"@, up);
        lemma_kept(up, end, d);
    }
    if s.talk.session_id.len() > 0 {
        lemma_behind(" · 会话 "@, id);
        text_laws::law_parts_of_parts_occur(up, end, e, id);
        assert(up + end + e =~= up + end);
    }
}

/// The tokens are shown as what went in, what came out, and both together; while the
/// session writes, its estimate is counted to what came out, and marked.
pub proof fn law_tokens_are_shown(t: TokenStats)
    requires
        t.input + t.output > 0,
    ensures
        ({
            let i = meter::token_text(t.input as nat);
            let o = meter::token_text(t.output as nat);
            let sum = meter::token_text((t.input + t.output) as nat);
            let eo = meter::token_text((t.output + t.round_est) as nat);
            let esum = meter::token_text((t.input + t.output + t.round_est) as nat);
            &&& screen::token_info(t, false) == " · in "@ + i + " · out "@ + o + " · Σ "@ + sum
            &&& t.round_est > 0 ==> screen::token_info(t, true) == " · in "@ + i + " · out "@
                + "≈"@ + eo + " · Σ "@ + "≈"@ + esum
        }),
{
    reveal_strlit("");
    let i = meter::token_text(t.input as nat);
    assert(" · in "@ + i + " · out "@ + ""@ =~= " · in "@ + i + " · out "@);
    let o = meter::token_text(t.output as nat);
    let x = " · in "@ + i + " · out "@ + o + " · Σ "@;
    assert(x + ""@ =~= x);
}

/// The screen is parted from top to bottom: one row for the header, then the messages,
/// then the text with a border around it, and one row for the status; together they
/// cover all rows.
pub proof fn law_screen_is_parted(area: Rect, rows: nat)
    requires
        area.x + area.width <= 65535,
        area.y + area.height <= 65535,
        rows + 7 <= area.height,
    ensures
        ({
            let p = screen::screen_parts(area, rows);
            &&& p.header == (Rect { height: 1, ..area })
            &&& p.messages.y == area.y + 1
            &&& p.input.y == p.messages.y + p.messages.height
            &&& p.input.height == rows + 2
            &&& p.status.y == p.input.y + p.input.height
            &&& p.status.y + p.status.height == area.y + area.height
            &&& p.messages.x == area.x && p.input.x == area.x && p.status.x == area.x
            &&& p.messages.width == area.width && p.input.width == area.width && p.status.width
                == area.width
        }),
{
}

/// The text gets as many rows as it takes, but no more than eight.
pub proof fn law_text_gets_its_rows(s: AppView, width: u16)
    ensures
        ({
            let n = crate::input_box::row_count(s.input, screen::text_width(s, width));
            screen::rows_needed(s, width) == (if n < 8 {
                n
            } else {
                8
            })
        }),
{
}

/// What is typed is marked to wait while something is asked, and dimmed while the
/// session is at work; what a candidate adds is shown behind the cursor at the end of
/// the text alone.
pub proof fn law_text_is_marked(s: AppView)
    ensures
        s.talk.permission is Some || s.confirm is Some ==> screen::label_of(s) == " [等待确认]"@,
        s.talk.permission is None && s.confirm is None ==> screen::label_of(s) == ""@,
        screen::is_dimmed(s) <==> s.talk.busy && s.talk.permission is None,
        s.cursor != editor::byte_len(s.input) || s.completion is None ==> screen::preview_of(s)
            is None,
        s.cursor == editor::byte_len(s.input) && s.completion is Some ==> screen::preview_of(s)
            == crate::completion_menu::preview(s.completion->Some_0),
{
}

/// The header shows the version and the directory.
pub proof fn law_header_is_shown(version: Seq<char>, cwd: Seq<char>)
    ensures
        ({
            let l = screen::header(version, cwd);
            &&& l.len() == 2
            &&& scan::occurs(l[1].content, ansi::stripped(version))
            &&& scan::occurs(l[1].content, ansi::stripped(cwd))
        }),
{
    let v = ansi::stripped(version);
    let c = ansi::stripped(cwd);
    let mid = " 无所不能的终端 AI 助手 | "@;
    assert(" v"@ + v + mid + c =~= " v"@ + v + (mid + c));
    lemma_in(" v"@, v, mid + c, " v"@ + v + mid + c);
    lemma_behind(" v"@ + v + mid, c);
}

/// A box shows what it is about, its text as far as that is no longer than its room, and
/// its keys.
pub proof fn law_boxes_show_their_text(title: Seq<char>, body: Seq<char>, hint: Seq<char>)
    requires
        ansi::stripped(body).len() <= 78,
    ensures
        ({
            let ls = layout::popup_text(title, body, hint);
            &&& ls.len() == 5
            &&& scan::occurs(ls[0][0].content, ansi::stripped(title))
            &&& ls[2][0].content == ansi::stripped(body)
            &&& scan::occurs(ls[4][0].content, hint)
        }),
{
    lemma_behind("  "@, ansi::stripped(title));
    lemma_behind("  "@, hint);
}

/// The message of the panel is shown below its page, line by line.
pub proof fn law_notices_are_shown(p: PanelView, i: int)
    requires
        p.notice.len() > 0,
        0 <= i < scan::line_list(p.notice).len(),
    ensures
        quick_draw::notice_lines(p).len() == scan::line_list(p.notice).len() + 1,
        quick_draw::notice_lines(p)[1 + i].len() == 1,
        quick_draw::notice_lines(p)[1 + i][0].content == scan::line_list(p.notice)[i],
{
}

/// A window in front of the messages covers the rows from the first of the messages to
/// the one above the status.
pub proof fn law_windows_cover_the_messages(m: Rect, s: Rect)
    requires
        m.y < s.y,
    ensures
        ({
            let r = screen::panel_rect(m, s);
            r.x == m.x && r.y == m.y && r.width == m.width && r.y + r.height == s.y
        }),
{
}

} // verus!
