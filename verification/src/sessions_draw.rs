//! How the session manager is drawn: what stands inside its frame.
use crate::ansi;
use crate::dates;
use crate::layout;
use crate::layout::{Part, Rect};
use crate::scan;
use crate::session_rows::{MemoryRow, MemoryRowView, SessionRow, SessionRowView};
use crate::sessions_ui;
use crate::sessions_ui::{ManagerView, Mode, ModeView, SessionsUi, Tab};
use crate::settings;
use crate::style;
use crate::style::{Color, Modifier, Span, SpanView, Style};
use crate::text;
use vstd::prelude::*;

verus! {

broadcast use crate::session_rows::group_row_views;

/// What stands inside the manager's frame.
#[derive(Debug)]
pub enum Page {
    /// A memory: its title, its text, and how many lines are scrolled past.
    Detail { title: String, text: String, scroll: usize },
    /// The list: the line of pages and keys, the line of what is going on, the rows,
    /// and how many of them are scrolled past.
    List { tabs: Vec<Span>, context: String, context_style: Style, text: String, scroll: usize },
}

/// What a page holds.
pub enum PageView {
    Detail { title: Seq<char>, text: Seq<char>, scroll: int },
    List {
        tabs: Seq<SpanView>,
        context: Seq<char>,
        context_style: Style,
        text: Seq<char>,
        scroll: int,
    },
}

impl View for Page {
    type V = PageView;

    open spec fn view(&self) -> PageView {
        match self {
            Page::Detail { title, text, scroll } => PageView::Detail {
                title: title@,
                text: text@,
                scroll: *scroll as int,
            },
            Page::List { tabs, context, context_style, text, scroll } => PageView::List {
                tabs: style::span_views(tabs@),
                context: context@,
                context_style: *context_style,
                text: text@,
                scroll: *scroll as int,
            },
        }
    }
}

/// The title of the manager's frame.
pub open spec fn frame_title(u: ManagerView) -> Seq<char> {
    " 会话管理(/resume) · "@ + sessions_ui::tab_name(u.tab) + "页 "@
}

/// How many marks are set.
pub open spec fn mark_count(u: ManagerView) -> nat {
    sessions_ui::count_true(u.marks())
}

/// The chip of a page.
pub open spec fn chip(active: bool) -> Style {
    if active {
        style::colored(Color::Black).with_bg(Color::Cyan).with_on(Modifier::Bold)
    } else {
        style::colored(Color::DarkGray)
    }
}

/// How many rows there are, shown and marked.
pub open spec fn counts(u: ManagerView) -> Seq<char> {
    if u.filter.len() == 0 {
        "共 "@ + text::decimal(u.rows()) + " 条 · 已选 "@ + text::decimal(mark_count(u)) + "    "@
    } else {
        "共 "@ + text::decimal(u.rows()) + " 条 · 筛选「"@ + ansi::stripped(u.filter)
            + "」命中 "@ + text::decimal(u.visible_before(u.rows())) + " 条 · 已选 "@ + text::decimal(mark_count(u)) + "    "@
    }
}

pub const LIST_KEYS: &'static str =
    "空格 多选 · d 删除 · / 过滤 · ↑↓ 移动 · Tab 切换 · Esc 关闭";

/// The line of pages and keys.
pub open spec fn tab_line(u: ManagerView) -> Seq<SpanView> {
    seq![
        style::sv(" 会话 "@, chip(u.tab == Tab::Sessions)),
        style::sv("  "@, style::plain()),
        style::sv(" 记忆 "@, chip(u.tab == Tab::Memories)),
        style::sv("  "@, style::plain()),
        style::sv(counts(u), style::colored(Color::DarkGray)),
        style::sv(
            match u.tab {
                Tab::Sessions => "Enter 恢复 · n 备注 · "@,
                Tab::Memories => "Enter 查看正文 · "@,
            },
            style::colored(Color::Yellow),
        ),
        style::sv(LIST_KEYS@, style::colored(Color::DarkGray)),
    ]
}

/// The line of what is going on.
pub open spec fn context_line(u: ManagerView) -> (Style, Seq<char>) {
    match u.mode {
        ModeView::Browse => match u.status {
            Some((ok, t)) => if t.len() > 0 {
                (
                    style::colored(
                        if ok {
                            Color::Green
                        } else {
                            Color::Red
                        },
                    ),
                    ansi::stripped(t),
                )
            } else {
                (style::colored(Color::DarkGray), Seq::empty())
            },
            None => (style::colored(Color::DarkGray), Seq::empty()),
        },
        ModeView::ConfirmDelete => (
            style::bold(Color::Red),
            "⚠ 删除确认:将删 "@ + text::decimal(u.candidates().len())
                + " 条(y 确认 / n 或 Esc 取消)"@,
        ),
        ModeView::EditNote(buf) => (
            style::colored(Color::Cyan),
            "✎ 备注(Enter 保存 / Esc 取消,≤"@ + text::decimal(sessions_ui::NOTE_MAX_LEN as nat)
                + " 字): "@ + ansi::stripped(buf),
        ),
        ModeView::Filter(buf) => (
            style::colored(Color::Cyan),
            "🔍 过滤(输入即时筛选;Enter 保留筛选,Esc 清除): /"@ + ansi::stripped(buf),
        ),
        ModeView::Detail { title, body, offset } => (style::plain(), Seq::empty()),
    }
}

/// The box in front of a row.
pub open spec fn check_box(on: bool) -> Seq<char> {
    if on {
        "[×]"@
    } else {
        "[ ]"@
    }
}

/// The mark of the row under the cursor.
pub open spec fn pointer(here: bool) -> Seq<char> {
    if here {
        "▶"@
    } else {
        " "@
    }
}

/// The line of a session.
pub open spec fn session_line(r: SessionRowView, on: bool, here: bool, now: u64) -> Seq<char> {
    check_box(on) + pointer(here) + (match r.note {
        Some(n) => "「"@ + settings::shortened(ansi::stripped(n), 24) + "」"@,
        None => Seq::<char>::empty(),
    }) + " "@ + ansi::stripped(r.id) + (if r.headless {
        " [无头]"@
    } else {
        Seq::<char>::empty()
    }) + (if r.is_current {
        " [当前会话]"@
    } else {
        Seq::<char>::empty()
    }) + " · "@ + text::decimal(r.size_kb as nat) + "KB · "@ + dates::ago(r.modified, now)
}

/// The line of a memory.
pub open spec fn memory_line(r: MemoryRowView, on: bool, here: bool, now: u64) -> Seq<char> {
    check_box(on) + pointer(here) + " "@ + ansi::stripped(r.name) + " — "@ + settings::shortened(
        ansi::stripped(r.desc),
        36,
    ) + (if r.mtype.len() == 0 {
        Seq::<char>::empty()
    } else {
        "("@ + ansi::stripped(r.mtype) + ")"@
    }) + " · "@ + text::decimal(r.size_kb as nat) + "KB · "@ + dates::ago(r.modified, now)
}

/// The line of a row.
pub open spec fn row_line(u: ManagerView, i: int, now: u64) -> Seq<char> {
    match u.tab {
        Tab::Sessions => session_line(u.sessions[i], u.sess_marks[i], i == u.cursor, now),
        Tab::Memories => memory_line(u.mems[i], u.mem_marks[i], i == u.cursor, now),
    }
}

/// The lines of those of the first `n` rows that are shown.
pub open spec fn row_lines(u: ManagerView, n: nat, now: u64) -> Seq<Seq<char>>
    decreases n,
{
    if n == 0 {
        Seq::empty()
    } else {
        let r = row_lines(u, (n - 1) as nat, now);
        if u.visible(n - 1) {
            r.push(row_line(u, n - 1, now))
        } else {
            r
        }
    }
}

/// The lines of the list; where there are none, a line that says so.
pub open spec fn list_lines(u: ManagerView, now: u64) -> Seq<Seq<char>> {
    let r = row_lines(u, u.rows(), now);
    if r.len() > 0 {
        r
    } else if u.sessions.len() == 0 && u.tab == Tab::Sessions {
        seq!["(暂无历史会话 — 聊几句后会自动产生)"@]
    } else {
        seq!["(无匹配/暂无记忆)"@]
    }
}

/// The line that the cursor stands on; where it stands on none, the first in sight.
pub open spec fn cursor_line(u: ManagerView) -> int {
    if u.cursor < u.rows() && u.visible(u.cursor as int) {
        u.visible_before(u.cursor as nat) as int
    } else {
        u.scroll as int
    }
}

/// How many lines are scrolled past, so that the given line is in sight: no more
/// than is needed.
pub open spec fn scroll_to(scroll: int, line: int, height: int) -> int {
    if height == 0 {
        0
    } else if line < scroll {
        line
    } else if line < scroll + height {
        scroll
    } else {
        line - (height - 1)
    }
}

/// Texts, each stripped of what a terminal would obey.
pub open spec fn stripped_texts(v: Seq<Seq<char>>) -> Seq<Seq<char>> {
    Seq::new(v.len(), |i: int| ansi::stripped(v[i]))
}

/// What stands inside the manager's frame, where there is room for it: five rows of
/// 24 columns. What comes from files is stripped of what a terminal would obey.
pub open spec fn page_of(u: ManagerView, now: u64, width: u16, height: u16) -> Option<PageView> {
    if height < 5 || width < 24 {
        None
    } else {
        Some(
            match u.mode {
                ModeView::Detail { title, body, offset } => PageView::Detail {
                    title: " 记忆正文: "@ + settings::shortened(ansi::stripped(title), 60)
                        + "  "@,
                    text: if body.len() == 0 {
                        "(空)"@
                    } else {
                        scan::join_lines(stripped_texts(body))
                    },
                    scroll: if offset < body.len() {
                        offset as int
                    } else if body.len() > 0 {
                        body.len() - 1
                    } else {
                        0
                    },
                },
                _ => PageView::List {
                    tabs: tab_line(u),
                    context: context_line(u).1,
                    context_style: context_line(u).0,
                    text: scan::join_lines(list_lines(u, now)),
                    scroll: scroll_to(u.scroll as int, cursor_line(u), height - 2),
                },
            },
        )
    }
}

// --------------------------------------------------------------------- drawing

fn count_marks(v: &Vec<bool>) -> (r: usize)
    ensures
        r == sessions_ui::count_true(v@),
{
    let mut n: usize = 0;
    let mut i: usize = 0;
    proof {
        assert(v@.take(0) =~= Seq::<bool>::empty());
    }
    while i < v.len()
        invariant
            i <= v.len(),
            n <= i,
            n == sessions_ui::count_true(v@.take(i as int)),
        decreases v.len() - i,
    {
        proof {
            assert(v@.take(i + 1).drop_last() =~= v@.take(i as int));
        }
        if v[i] {
            n += 1;
        }
        i += 1;
    }
    proof {
        assert(v@.take(i as int) =~= v@);
    }
    n
}

fn chip_style(active: bool) -> (r: Style)
    ensures
        r == chip(active),
{
    if active {
        Style::of(Color::Black).on_bg(Color::Cyan).add_modifier(Modifier::Bold)
    } else {
        Style::of(Color::DarkGray)
    }
}

fn box_text(on: bool) -> (r: &'static str)
    ensures
        r@ == check_box(on),
{
    if on {
        "[×]"
    } else {
        "[ ]"
    }
}

fn pointer_text(here: bool) -> (r: &'static str)
    ensures
        r@ == pointer(here),
{
    if here {
        "▶"
    } else {
        " "
    }
}

fn strip_all(v: &Vec<String>) -> (r: Vec<String>)
    ensures
        scan::texts(r@) == stripped_texts(scan::texts(v@)),
{
    let mut r: Vec<String> = Vec::new();
    let mut i: usize = 0;
    let ghost all = stripped_texts(scan::texts(v@));
    proof {
        assert(scan::texts(r@) =~= all.take(0));
    }
    while i < v.len()
        invariant
            all == stripped_texts(scan::texts(v@)),
            i <= v.len(),
            scan::texts(r@) == all.take(i as int),
        decreases v.len() - i,
    {
        proof {
            assert(scan::texts(v@)[i as int] == v@[i as int]@);
            assert(all.take(i + 1) =~= all.take(i as int).push(all[i as int]));
        }
        scan::push_text(&mut r, ansi::strip(v[i].as_str()));
        i += 1;
    }
    proof {
        assert(all.take(i as int) =~= all);
    }
    r
}

fn session_text(row: &SessionRow, on: bool, here: bool, now: u64) -> (r: String)
    ensures
        r@ == session_line(row@, on, here, now),
{
    let mut s = text::cat2(box_text(on), pointer_text(here));
    let note = match &row.note {
        Some(n) => text::cat3("「", settings::shorten(ansi::strip(n.as_str()).as_str(), 24).as_str(), "」"),
        None => String::new(),
    };
    s.append(note.as_str());
    s.append(" ");
    s.append(ansi::strip(row.id.as_str()).as_str());
    let flag = if row.headless {
        text::copy(" [无头]")
    } else {
        String::new()
    };
    s.append(flag.as_str());
    let cur = if row.is_current {
        text::copy(" [当前会话]")
    } else {
        String::new()
    };
    s.append(cur.as_str());
    s.append(" · ");
    s.append(text::dec64(row.size_kb).as_str());
    s.append("KB · ");
    s.append(dates::fmt_ago(row.modified, now).as_str());
    s
}

fn memory_text(row: &MemoryRow, on: bool, here: bool, now: u64) -> (r: String)
    ensures
        r@ == memory_line(row@, on, here, now),
{
    let mut s = text::cat3(box_text(on), pointer_text(here), " ");
    s.append(ansi::strip(row.name.as_str()).as_str());
    s.append(" — ");
    s.append(settings::shorten(ansi::strip(row.desc.as_str()).as_str(), 36).as_str());
    let ty = if settings::is_blank(row.mtype.as_str()) {
        String::new()
    } else {
        text::cat3("(", ansi::strip(row.mtype.as_str()).as_str(), ")")
    };
    s.append(ty.as_str());
    s.append(" · ");
    s.append(text::dec64(row.size_kb).as_str());
    s.append("KB · ");
    s.append(dates::fmt_ago(row.modified, now).as_str());
    s
}

/// How many lines are scrolled past, so that the given line is in sight.
pub fn scroll_for(scroll: usize, line: usize, height: usize) -> (r: usize)
    ensures
        r == scroll_to(scroll as int, line as int, height as int),
{
    if height == 0 {
        return 0;
    }
    if line < scroll {
        return line;
    }
    if line - scroll < height {
        return scroll;
    }
    line - (height - 1)
}

/// Where the list is drawn inside the frame: a row for the pages and keys, a row for
/// what is going on, and the rest for the rows.
pub open spec fn list_parts(inner: Rect) -> (Rect, Rect, Rect) {
    (
        Rect { height: 1, ..inner },
        Rect { y: (inner.y + 1) as u16, height: 1, ..inner },
        Rect { y: (inner.y + 2) as u16, height: (inner.height - 2) as u16, ..inner },
    )
}

/// Where the list is drawn inside the frame.
pub fn list_areas(inner: Rect) -> (r: (Rect, Rect, Rect))
    requires
        inner.height >= 2,
        inner.fits(),
    ensures
        r == list_parts(inner),
{
    let mut wanted: Vec<Part> = Vec::new();
    wanted.push(Part::Length(1));
    wanted.push(Part::Length(1));
    wanted.push(Part::Min(0));
    let parts = layout::split_rows(inner, &wanted);
    proof {
        let p = wanted@;
        assert(p.drop_last() =~= p.take(2));
        assert(p.take(2).drop_last() =~= p.take(1));
        assert(p.take(1).drop_last() =~= p.take(0));
        reveal_with_fuel(layout::asked_rows, 4);
        reveal_with_fuel(layout::mins, 4);
        reveal_with_fuel(layout::shared_rows, 4);
    }
    (parts[0], parts[1], parts[2])
}

impl SessionsUi {
    /// The title of the manager's frame.
    pub fn title(&self) -> (r: String)
        ensures
            r@ == frame_title(self@),
    {
        text::cat3(" 会话管理(/resume) · ", self.tab.label(), "页 ")
    }

    /// Draws what stands inside the manager's frame, at the given time and in the
    /// given room.
    pub fn render(&self, now: u64, width: u16, height: u16) -> (r: Option<Page>)
        requires
            self@.wf(),
        ensures
            match r {
                Some(p) => page_of(self@, now, width, height) == Some(p@),
                None => page_of(self@, now, width, height) is None,
            },
    {
        if height < 5 || width < 24 {
            return None;
        }
        match &self.mode {
            Mode::Detail { title, body, offset } => {
                let t = settings::shorten(ansi::strip(title.as_str()).as_str(), 60);
                let txt = if body.len() == 0 {
                    text::copy("(空)")
                } else {
                    scan::join(&strip_all(body))
                };
                let scroll: usize = if *offset < body.len() {
                    *offset
                } else if body.len() > 0 {
                    body.len() - 1
                } else {
                    0
                };
                Some(
                    Page::Detail {
                        title: text::cat3(" 记忆正文: ", t.as_str(), "  "),
                        text: txt,
                        scroll,
                    },
                )
            },
            _ => {
                let (context_style, context) = self.draw_context();
                let lines = self.draw_rows(now);
                let line: usize = self.line_of_cursor();
                Some(
                    Page::List {
                        tabs: self.draw_tabs(),
                        context,
                        context_style,
                        text: scan::join(&lines),
                        scroll: scroll_for(self.scroll, line, (height - 2) as usize),
                    },
                )
            },
        }
    }

    fn draw_counts(&self) -> (r: String)
        ensures
            r@ == counts(self@),
    {
        let n = text::dec(self.rows_len());
        let marked = text::dec(count_marks(self.marks()));
        if settings::is_blank(self.filter.as_str()) {
            return text::cat5("共 ", n.as_str(), " 条 · 已选 ", marked.as_str(), "    ");
        }
        let hits = text::dec(self.visible_len());
        let mut s = text::cat5(
            "共 ",
            n.as_str(),
            " 条 · 筛选「",
            ansi::strip(self.filter.as_str()).as_str(),
            "」命中 ",
        );
        s.append(hits.as_str());
        s.append(" 条 · 已选 ");
        s.append(marked.as_str());
        s.append("    ");
        s
    }

    fn draw_tabs(&self) -> (r: Vec<Span>)
        ensures
            style::span_views(r@) == tab_line(self@),
    {
        let mut spans = style::no_spans();
        let on = self.tab == Tab::Sessions;
        style::push_span(&mut spans, text::copy(" 会话 "), chip_style(on));
        style::push_span(&mut spans, text::copy("  "), Style::new());
        style::push_span(&mut spans, text::copy(" 记忆 "), chip_style(!on));
        style::push_span(&mut spans, text::copy("  "), Style::new());
        style::push_span(&mut spans, self.draw_counts(), Style::of(Color::DarkGray));
        let keys = match self.tab {
            Tab::Sessions => "Enter 恢复 · n 备注 · ",
            Tab::Memories => "Enter 查看正文 · ",
        };
        style::push_span(&mut spans, text::copy(keys), Style::of(Color::Yellow));
        style::push_span(&mut spans, text::copy(LIST_KEYS), Style::of(Color::DarkGray));
        spans
    }

    fn draw_context(&self) -> (r: (Style, String))
        ensures
            (r.0, r.1@) == context_line(self@),
    {
        match &self.mode {
            Mode::Browse => match &self.status {
                Some((ok, t)) => if settings::is_blank(t.as_str()) {
                    (Style::of(Color::DarkGray), String::new())
                } else if *ok {
                    (Style::of(Color::Green), ansi::strip(t.as_str()))
                } else {
                    (Style::of(Color::Red), ansi::strip(t.as_str()))
                },
                None => (Style::of(Color::DarkGray), String::new()),
            },
            Mode::ConfirmDelete => {
                let n = text::dec(self.marked_count_for_delete());
                (
                    Style::bold_of(Color::Red),
                    text::cat3(
                        "⚠ 删除确认:将删 ",
                        n.as_str(),
                        " 条(y 确认 / n 或 Esc 取消)",
                    ),
                )
            },
            Mode::EditNote(buf) => {
                let n = text::dec(sessions_ui::NOTE_MAX_LEN);
                (
                    Style::of(Color::Cyan),
                    text::cat4(
                        "✎ 备注(Enter 保存 / Esc 取消,≤",
                        n.as_str(),
                        " 字): ",
                        ansi::strip(buf.as_str()).as_str(),
                    ),
                )
            },
            Mode::Filter(buf) => (
                Style::of(Color::Cyan),
                text::cat2(
                    "🔍 过滤(输入即时筛选;Enter 保留筛选,Esc 清除): /",
                    ansi::strip(buf.as_str()).as_str(),
                ),
            ),
            Mode::Detail { title: _, body: _, offset: _ } => (Style::new(), String::new()),
        }
    }

    fn row_text(&self, i: usize, now: u64) -> (r: String)
        requires
            self@.wf(),
            i < self@.rows(),
        ensures
            r@ == row_line(self@, i as int, now),
    {
        let here = i == self.cursor;
        match self.tab {
            Tab::Sessions => session_text(&self.sessions[i], self.sess_marks[i], here, now),
            Tab::Memories => memory_text(&self.mems[i], self.mem_marks[i], here, now),
        }
    }

    fn draw_rows(&self, now: u64) -> (r: Vec<String>)
        requires
            self@.wf(),
        ensures
            scan::texts(r@) == list_lines(self@, now),
    {
        let f = self.active_filter();
        let n: usize = self.rows_len();
        let mut r: Vec<String> = Vec::new();
        let mut i: usize = 0;
        proof {
            assert(scan::texts(r@) =~= Seq::<Seq<char>>::empty());
        }
        while i < n
            invariant
                self@.wf(),
                n == self@.rows(),
                f@ == self@.active_filter(),
                i <= n,
                scan::texts(r@) == row_lines(self@, i as nat, now),
            decreases n - i,
        {
            if self.row_visible(i, f.as_str()) {
                scan::push_text(&mut r, self.row_text(i, now));
            }
            i += 1;
        }
        proof {
            assert(scan::texts(r@).len() == r@.len());
        }
        if r.len() == 0 {
            proof {
                assert(scan::texts(r@) =~= Seq::<Seq<char>>::empty());
            }
            if self.sessions.len() == 0 && self.tab == Tab::Sessions {
                scan::push_text(
                    &mut r,
                    text::copy("(暂无历史会话 — 聊几句后会自动产生)"),
                );
            } else {
                scan::push_text(&mut r, text::copy("(无匹配/暂无记忆)"));
            }
        }
        r
    }

    fn line_of_cursor(&self) -> (r: usize)
        ensures
            r == cursor_line(self@),
    {
        let c: usize = self.cursor;
        let f = self.active_filter();
        if c < self.rows_len() && self.row_visible(c, f.as_str()) {
            self.count_visible(c, f.as_str())
        } else {
            self.scroll
        }
    }
}

// ------------------------------------------------------------------------ laws

/// The line that the list is scrolled for is in sight, whatever was in sight before.
pub proof fn law_line_is_in_sight(scroll: int, line: int, height: int)
    requires
        0 <= scroll,
        0 <= line,
        0 < height,
    ensures
        scroll_to(scroll, line, height) <= line < scroll_to(scroll, line, height) + height,
        0 <= scroll_to(scroll, line, height),
{
}

} // verus!
