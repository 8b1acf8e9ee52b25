//! Nothing that the header, the status, the list of candidates, a box, the settings or
//! the session manager says holds a control character that a terminal would obey.
use crate::ansi;
use crate::chat::AppView;
use crate::clean;
use crate::completion::CompletionView;
use crate::completion_menu;
use crate::config_draw;
use crate::config_ui::WizardView;
use crate::dates;
use crate::layout;
use crate::layout::Rect;
use crate::meter;
use crate::mode;
use crate::mode::Mode;
use crate::quick_cfg::PanelView;
use crate::quick_draw;
use crate::scan;
use crate::screen;
use crate::session_rows::{MemoryRowView, SessionRowView};
use crate::sessions_draw;
use crate::sessions_draw::PageView;
use crate::sessions_ui::{ManagerView, ModeView, Tab};
use crate::settings;
use crate::settings::HostView;
use crate::style::SpanView;
use crate::text;
use crate::transcript::{BusyKind, TokenStats};
use vstd::prelude::*;

verus! {

broadcast proof fn lemma_shown_add(a: Seq<char>, b: Seq<char>)
    requires
        clean::shown(a),
        clean::shown(b),
    ensures
        #[trigger] clean::shown(a + b),
{
    assert forall|k: int| 0 <= k < (a + b).len() implies ansi::is_shown(#[trigger] (a + b)[k]) by {
        if k < a.len() {
            assert(ansi::is_shown(a[k]));
        } else {
            assert(ansi::is_shown(b[k - a.len()]));
        }
    }
}

broadcast proof fn lemma_stripped_shown(s: Seq<char>)
    ensures
        #[trigger] clean::shown(ansi::stripped(s)),
{
    ansi::law_strip_leaves_no_controls(s);
}

broadcast proof fn lemma_shortened_shown(s: Seq<char>, n: nat)
    requires
        clean::shown(s),
    ensures
        #[trigger] clean::shown(settings::shortened(s, n)),
{
    reveal_strlit("…");
    if s.len() > n {
        assert forall|k: int| 0 <= k < n implies ansi::is_shown(
            #[trigger] s.take(n as int)[k],
        ) by {
            assert(ansi::is_shown(s[k]));
        }
        lemma_shown_add(s.take(n as int), "…"@);
    }
}

broadcast proof fn lemma_decimal_shown(n: nat)
    ensures
        #[trigger] clean::shown(text::decimal(n)),
{
    clean::lemma_decimal_clean(n);
    assert forall|k: int| 0 <= k < text::decimal(n).len() implies ansi::is_shown(
        #[trigger] text::decimal(n)[k],
    ) by {
        assert(clean::is_drawn(text::decimal(n)[k]));
    }
}

broadcast proof fn lemma_padded_shown(n: nat, w: nat)
    ensures
        #[trigger] clean::shown(text::padded(n, w)),
{
    let d = text::decimal(n);
    lemma_decimal_shown(n);
    if d.len() < w {
        lemma_shown_add(text::repeated('0', (w - d.len()) as nat), d);
    }
}

broadcast group group_shown {
    lemma_shown_add,
    lemma_stripped_shown,
    lemma_shortened_shown,
    lemma_decimal_shown,
    lemma_padded_shown,
}

broadcast proof fn lemma_ago_shown(secs: u64, now: u64)
    ensures
        #[trigger] clean::shown(dates::ago(secs, now)),
{
    broadcast use group_shown;

    reveal_strlit("刚刚");
    reveal_strlit(" 分钟前");
    reveal_strlit(" 小时前");
    reveal_strlit(" 天前");
    reveal_strlit("-");
    assert(clean::shown("刚刚"@));
    assert(clean::shown(" 分钟前"@));
    assert(clean::shown(" 小时前"@));
    assert(clean::shown(" 天前"@));
    assert(clean::shown("-"@));
}

// ------------------------------------------------------------------- the settings

/// Whatever the settings hold, the wizard says nothing that a terminal would obey.
pub proof fn law_wizard_is_clean(w: WizardView, h: HostView)
    ensures
        shown_lines(ansi::stripped_lines(config_draw::wizard_lines(w, h))),
{
    lemma_stripped_lines_shown(config_draw::wizard_lines(w, h));
}

/// Whatever the settings hold, the panel for one of them says nothing that a terminal
/// would obey.
pub proof fn law_panel_is_clean(p: PanelView, h: HostView)
    ensures
        shown_lines(ansi::stripped_lines(quick_draw::panel_lines(p, h))),
{
    lemma_stripped_lines_shown(quick_draw::panel_lines(p, h));
}

/// Lines of characters that a terminal draws.
pub open spec fn shown_lines(ls: Seq<Seq<SpanView>>) -> bool {
    forall|i: int| 0 <= i < ls.len() ==> clean::shown_line(#[trigger] ls[i])
}

proof fn lemma_stripped_lines_shown(ls: Seq<Seq<SpanView>>)
    ensures
        shown_lines(ansi::stripped_lines(ls)),
{
    let t = ansi::stripped_lines(ls);
    assert forall|i: int| 0 <= i < t.len() implies clean::shown_line(#[trigger] t[i]) by {
        assert forall|k: int| 0 <= k < t[i].len() implies clean::shown(
            (#[trigger] t[i][k]).content,
        ) by {
            lemma_stripped_shown(ls[i][k].content);
        }
    }
}

// ------------------------------------------------------- the header and the status

/// Wherever the program runs, its header says nothing that a terminal would obey.
pub proof fn law_header_is_clean(version: Seq<char>, cwd: Seq<char>)
    ensures
        clean::shown_line(screen::header(version, cwd)),
{
    broadcast use group_shown;

    reveal_strlit(" znaide ");
    reveal_strlit(" v");
    reveal_strlit(" 无所不能的终端 AI 助手 | ");
    assert(clean::shown(" v"@));
    assert(clean::shown(" 无所不能的终端 AI 助手 | "@));
    assert(clean::shown(
        " v"@ + ansi::stripped(version) + " 无所不能的终端 AI 助手 | "@ + ansi::stripped(cwd),
    ));
}

proof fn lemma_tokens_shown(t: TokenStats, busy: bool)
    ensures
        clean::shown(screen::token_info(t, busy)),
{
    broadcast use {group_shown, lemma_count_shown};

    reveal_strlit("≈");
    reveal_strlit("");
    reveal_strlit(" · in ");
    reveal_strlit(" · out ");
    reveal_strlit(" · Σ ");
    assert(clean::shown("≈"@));
    assert(clean::shown(""@));
    assert(clean::shown(" · in "@));
    assert(clean::shown(" · out "@));
    assert(clean::shown(" · Σ "@));
    assert(clean::shown(Seq::<char>::empty()));
}

broadcast proof fn lemma_count_shown(n: nat)
    ensures
        #[trigger] clean::shown(meter::token_text(n)),
{
    broadcast use group_shown;

    reveal_strlit("M");
    reveal_strlit("k");
    reveal_strlit(".");
    assert(clean::shown("M"@));
    assert(clean::shown("k"@));
    assert(clean::shown("."@));
}

proof fn lemma_state_shown(busy: bool, kind: BusyKind, frame: nat)
    ensures
        clean::shown(screen::state_text(busy, kind, frame)),
{
    broadcast use group_shown;

    reveal_strlit("工作中… ");
    reveal_strlit("压缩中… ");
    reveal_strlit("就绪");
    assert(clean::shown("工作中… "@));
    assert(clean::shown("压缩中… "@));
    assert(clean::shown("就绪"@));
    assert(clean::shown(meter::wave(frame, 8)));
    assert(clean::shown(seq![meter::shrinking((frame / 2) as int)]));
}

broadcast proof fn lemma_mode_shown(m: Mode)
    ensures
        #[trigger] clean::shown(mode::name_of(m)),
{
    reveal_strlit("询问");
    reveal_strlit("编辑放行");
    reveal_strlit("全自动");
    reveal_strlit("超级");
}

proof fn lemma_badge_shown(pct: nat)
    ensures
        clean::shown(" "@ + meter::badge_text(pct)),
{
    broadcast use group_shown;

    reveal_strlit(" ");
    reveal_strlit("ctx ");
    reveal_strlit("%");
    assert(clean::shown(" "@));
    assert(clean::shown("ctx "@));
    assert(clean::shown("%"@));
    let full = text::repeated('█', meter::full_cells(pct));
    let rest = text::repeated('░', (10 - meter::full_cells(pct)) as nat);
    assert(clean::shown(full));
    assert(clean::shown(rest));
}

/// Whatever the persona, the model and the session are called, the status says nothing
/// that a terminal would obey.
pub proof fn law_status_is_clean(s: AppView, model: Seq<char>, window: nat, frame: nat)
    ensures
        clean::shown_line(screen::status(s, model, window, frame)),
{
    broadcast use {group_shown, lemma_mode_shown};

    reveal_strlit(" ");
    reveal_strlit(" | ");
    reveal_strlit(" ↕ 上翻");
    reveal_strlit("行(End回底)");
    reveal_strlit(" · 会话 ");
    assert(clean::shown(" "@));
    assert(clean::shown(" | "@));
    assert(clean::shown(" ↕ 上翻"@));
    assert(clean::shown("行(End回底)"@));
    assert(clean::shown(" · 会话 "@));
    assert(clean::shown(Seq::<char>::empty()));
    lemma_state_shown(s.talk.busy, s.talk.busy_kind, frame);
    lemma_tokens_shown(s.talk.stats, s.talk.busy);
    lemma_badge_shown(meter::percent(s.talk.stats.last_prompt as nat, window));
    assert(clean::shown(screen::status_text(s, model, frame)));
    assert(clean::shown(screen::status_end(s)));
}

// ------------------------------------------------------------------ the candidates

proof fn lemma_menu_lines_shown(c: CompletionView, from: int, to: int, avail: int)
    ensures
        shown_lines(completion_menu::menu_lines(c, from, to, avail)),
    decreases to - from,
{
    broadcast use group_shown;

    if from < to {
        lemma_menu_lines_shown(c, from, to - 1, avail);
        let it = completion_menu::drawable(c.items[to - 1]);
        reveal_strlit(" ");
        assert(clean::shown(" "@));
        assert(clean::shown(it.label) && clean::shown(it.hint));
        assert(clean::shown(" "@ + completion_menu::shown_label(it, avail)));
        let blanks = text::repeated(' ', completion_menu::gap(it, avail));
        assert(clean::shown(blanks));
        assert(clean::shown(
            blanks + settings::shortened(it.hint, completion_menu::hint_width(it.hint)),
        ));
        let line = completion_menu::menu_line(it, to - 1 == c.selected, avail);
        assert(clean::shown_line(line));
        let all = completion_menu::menu_lines(c, from, to, avail);
        let head = completion_menu::menu_lines(c, from, to - 1, avail);
        assert(all == head.push(line));
        assert forall|i: int| 0 <= i < all.len() implies clean::shown_line(#[trigger] all[i]) by {
            if i < head.len() {
                assert(all[i] == head[i]);
            }
        }
    }
}

/// Whatever the candidates are called, the list of them says nothing that a terminal
/// would obey.
pub proof fn law_menu_is_clean(c: CompletionView, area: Rect)
    ensures
        shown_lines(completion_menu::menu_text(c, area)),
{
    let n = c.items.len();
    let rows = completion_menu::menu_rows(n) as int;
    let start = completion_menu::menu_start(n as int, c.selected as int, rows);
    lemma_menu_lines_shown(
        c,
        start,
        start + rows,
        completion_menu::menu_rect(area, n).width - 4,
    );
}

// ------------------------------------------------------------------------ boxes

/// Whatever a permission or a confirmation is about, the box that asks for it says
/// nothing that a terminal would obey.
pub proof fn law_popup_is_clean(title: Seq<char>, body: Seq<char>, hint: Seq<char>)
    requires
        hint == layout::PERMISSION_KEYS@ || hint == layout::CONFIRM_KEYS@,
    ensures
        shown_lines(layout::popup_text(title, body, hint)),
{
    broadcast use group_shown;

    reveal_strlit("  ");
    reveal_strlit("y 允许一次 | a 本会话都允许 | n 拒绝 | Esc 取消");
    reveal_strlit("y 确认 | n / Esc 取消");
    assert(clean::shown("  "@));
    assert(clean::shown(hint));
    assert(clean::shown("  "@ + ansi::stripped(title)));
    assert(clean::shown(settings::shortened(ansi::stripped(body), 78)));
    assert(clean::shown("  "@ + hint));
}

// ---------------------------------------------------------------------- the manager

/// A page of characters that a terminal draws.
pub open spec fn shown_page(p: PageView) -> bool {
    match p {
        PageView::Detail { title, text, scroll } => clean::shown(title) && clean::shown(text),
        PageView::List { tabs, context, context_style, text, scroll } => clean::shown_line(tabs)
            && clean::shown(context) && clean::shown(text),
    }
}

proof fn lemma_session_line_shown(r: SessionRowView, on: bool, here: bool, now: u64)
    ensures
        clean::shown(sessions_draw::session_line(r, on, here, now)),
{
    broadcast use {group_shown, lemma_ago_shown};

    reveal_strlit("[×]");
    reveal_strlit("[ ]");
    reveal_strlit("▶");
    reveal_strlit(" ");
    reveal_strlit("「");
    reveal_strlit("」");
    reveal_strlit(" [无头]");
    reveal_strlit(" [当前会话]");
    reveal_strlit(" · ");
    reveal_strlit("KB · ");
    assert(clean::shown(sessions_draw::check_box(on)));
    assert(clean::shown(sessions_draw::pointer(here)));
    assert(clean::shown(" "@));
    assert(clean::shown("「"@));
    assert(clean::shown("」"@));
    assert(clean::shown(" [无头]"@));
    assert(clean::shown(" [当前会话]"@));
    assert(clean::shown(" · "@));
    assert(clean::shown("KB · "@));
    assert(clean::shown(Seq::<char>::empty()));
}

proof fn lemma_memory_line_shown(r: MemoryRowView, on: bool, here: bool, now: u64)
    ensures
        clean::shown(sessions_draw::memory_line(r, on, here, now)),
{
    broadcast use {group_shown, lemma_ago_shown};

    reveal_strlit("[×]");
    reveal_strlit("[ ]");
    reveal_strlit("▶");
    reveal_strlit(" ");
    reveal_strlit(" — ");
    reveal_strlit("(");
    reveal_strlit(")");
    reveal_strlit(" · ");
    reveal_strlit("KB · ");
    assert(clean::shown(sessions_draw::check_box(on)));
    assert(clean::shown(sessions_draw::pointer(here)));
    assert(clean::shown(" "@));
    assert(clean::shown(" — "@));
    assert(clean::shown("("@));
    assert(clean::shown(")"@));
    assert(clean::shown(" · "@));
    assert(clean::shown("KB · "@));
    assert(clean::shown(Seq::<char>::empty()));
}

proof fn lemma_row_lines_shown(u: ManagerView, n: nat, now: u64)
    ensures
        shown_texts(sessions_draw::row_lines(u, n, now)),
    decreases n,
{
    if n > 0 {
        lemma_row_lines_shown(u, (n - 1) as nat, now);
        match u.tab {
            Tab::Sessions => lemma_session_line_shown(
                u.sessions[n - 1],
                u.sess_marks[n - 1],
                n - 1 == u.cursor,
                now,
            ),
            Tab::Memories => lemma_memory_line_shown(
                u.mems[n - 1],
                u.mem_marks[n - 1],
                n - 1 == u.cursor,
                now,
            ),
        }
    }
}

/// Texts of characters that a terminal draws.
pub open spec fn shown_texts(v: Seq<Seq<char>>) -> bool {
    forall|i: int| 0 <= i < v.len() ==> clean::shown(#[trigger] v[i])
}

proof fn lemma_join_shown(v: Seq<Seq<char>>)
    requires
        shown_texts(v),
    ensures
        clean::shown(scan::join_lines(v)),
    decreases v.len(),
{
    if v.len() > 1 {
        let t = v.drop_last();
        assert forall|i: int| 0 <= i < t.len() implies clean::shown(#[trigger] t[i]) by {
            assert(t[i] == v[i]);
        }
        lemma_join_shown(t);
        assert(clean::shown(v[v.len() - 1]));
        lemma_shown_add(scan::join_lines(t).push('\n'), v.last());
    } else if v.len() == 1 {
        assert(clean::shown(v[0]));
    }
}

proof fn lemma_tabs_shown(u: ManagerView)
    ensures
        clean::shown_line(sessions_draw::tab_line(u)),
{
    broadcast use group_shown;

    reveal_strlit(" 会话 ");
    reveal_strlit("  ");
    reveal_strlit(" 记忆 ");
    reveal_strlit("共 ");
    reveal_strlit(" 条 · 已选 ");
    reveal_strlit("    ");
    reveal_strlit(" 条 · 筛选「");
    reveal_strlit("」命中 ");
    reveal_strlit("Enter 恢复 · n 备注 · ");
    reveal_strlit("Enter 查看正文 · ");
    reveal_strlit("空格 多选 · d 删除 · / 过滤 · ↑↓ 移动 · Tab 切换 · Esc 关闭");
    assert(clean::shown("共 "@));
    assert(clean::shown(" 条 · 已选 "@));
    assert(clean::shown("    "@));
    assert(clean::shown(" 条 · 筛选「"@));
    assert(clean::shown("」命中 "@));
    assert(clean::shown(sessions_draw::counts(u)));
}

proof fn lemma_context_shown(u: ManagerView)
    ensures
        clean::shown(sessions_draw::context_line(u).1),
{
    broadcast use group_shown;

    reveal_strlit("⚠ 删除确认:将删 ");
    reveal_strlit(" 条(y 确认 / n 或 Esc 取消)");
    reveal_strlit("✎ 备注(Enter 保存 / Esc 取消,≤");
    reveal_strlit(" 字): ");
    reveal_strlit("🔍 过滤(输入即时筛选;Enter 保留筛选,Esc 清除): /");
    assert(clean::shown("⚠ 删除确认:将删 "@));
    assert(clean::shown(" 条(y 确认 / n 或 Esc 取消)"@));
    assert(clean::shown("✎ 备注(Enter 保存 / Esc 取消,≤"@));
    assert(clean::shown(" 字): "@));
    assert(clean::shown("🔍 过滤(输入即时筛选;Enter 保留筛选,Esc 清除): /"@));
    assert(clean::shown(Seq::<char>::empty()));
}

/// Whatever the sessions, their notes and the memories hold, the manager draws nothing
/// that a terminal would obey.
pub proof fn law_manager_is_clean(u: ManagerView, now: u64, width: u16, height: u16)
    ensures
        match sessions_draw::page_of(u, now, width, height) {
            Some(p) => shown_page(p),
            None => true,
        },
{
    broadcast use group_shown;

    match u.mode {
        ModeView::Detail { title, body, offset } => {
            reveal_strlit(" 记忆正文: ");
            reveal_strlit("  ");
            reveal_strlit("(空)");
            assert(clean::shown(" 记忆正文: "@));
            assert(clean::shown("  "@));
            assert(clean::shown("(空)"@));
            let lines = sessions_draw::stripped_texts(body);
            assert forall|i: int| 0 <= i < lines.len() implies clean::shown(
                #[trigger] lines[i],
            ) by {
                lemma_stripped_shown(body[i]);
            }
            lemma_join_shown(lines);
            assert(clean::shown(
                " 记忆正文: "@ + settings::shortened(ansi::stripped(title), 60) + "  "@,
            ));
        },
        _ => {
            reveal_strlit("(暂无历史会话 — 聊几句后会自动产生)");
            reveal_strlit("(无匹配/暂无记忆)");
            lemma_row_lines_shown(u, u.rows(), now);
            lemma_join_shown(sessions_draw::list_lines(u, now));
            lemma_tabs_shown(u);
            lemma_context_shown(u);
        },
    }
}

} // verus!
