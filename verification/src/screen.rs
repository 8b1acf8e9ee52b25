//! How the program is drawn: its header, the part of the messages that is in view, the
//! text that is being typed, and the status line.
use crate::ansi;
use crate::chat::{App, AppView};
use crate::completion_menu;
use crate::content;
use crate::editor;
use crate::input_box;
use crate::layout;
use crate::layout::{Part, Rect};
use crate::meter;
use crate::mode;
use crate::scroll;
use crate::style;
use crate::style::{Color, Line, Modifier, Span, SpanView, Style};
use crate::text;
use crate::transcript::{BusyKind, TokenStats};
use vstd::prelude::*;

verus! {

// ---------------------------------------------------------------------- the header

/// The header: the program, its version and where it runs, stripped of what a terminal
/// would obey.
pub open spec fn header(version: Seq<char>, cwd: Seq<char>) -> Seq<SpanView> {
    Seq::empty().push(
        style::sv(
            " znaide "@,
            style::colored(Color::Black).with_bg(Color::Cyan).with_on(Modifier::Bold),
        ),
    ).push(
        style::sv(
            " v"@ + ansi::stripped(version) + " 无所不能的终端 AI 助手 | "@ + ansi::stripped(cwd),
            style::colored(Color::DarkGray),
        ),
    )
}

/// Draws the header.
pub fn header_line(version: &str, cwd: &str) -> (r: Vec<Span>)
    ensures
        style::span_views(r@) == header(version@, cwd@),
{
    let mut spans = style::no_spans();
    style::push_span(
        &mut spans,
        text::copy(" znaide "),
        Style::of(Color::Black).on_bg(Color::Cyan).add_modifier(Modifier::Bold),
    );
    style::push_span(
        &mut spans,
        text::cat4(
            " v",
            ansi::strip(version).as_str(),
            " 无所不能的终端 AI 助手 | ",
            ansi::strip(cwd).as_str(),
        ),
        Style::of(Color::DarkGray),
    );
    spans
}

// ------------------------------------------------------------------ what is typed

/// What is said in front of the text: whether a question is open.
pub open spec fn label_of(s: AppView) -> Seq<char> {
    if s.talk.permission is Some || s.confirm is Some {
        " [等待确认]"@
    } else {
        ""@
    }
}

/// Whether the text is dimmed: what is typed while the session is busy is not sent.
pub open spec fn is_dimmed(s: AppView) -> bool {
    s.talk.busy && s.talk.permission is None
}

/// How many columns are left for the text on a screen of the given width.
pub open spec fn text_width(s: AppView, width: u16) -> nat {
    let inner = layout::less(width, 2);
    let p = input_box::first_prefix(label_of(s)).len();
    if inner >= p + 4 {
        (inner - p) as nat
    } else {
        4
    }
}

/// How many rows the text takes on a screen of the given width.
pub open spec fn rows_needed(s: AppView, width: u16) -> nat {
    let n = input_box::row_count(s.input, text_width(s, width));
    if n < input_box::MAX_INPUT_ROWS {
        n
    } else {
        input_box::MAX_INPUT_ROWS as nat
    }
}

/// The preview behind the cursor, which is shown at the end of the text only.
pub open spec fn preview_of(s: AppView) -> Option<Seq<char>> {
    if s.cursor == editor::byte_len(s.input) {
        match s.completion {
            Some(c) => completion_menu::preview(c),
            None => None,
        }
    } else {
        None
    }
}

/// The lines of the text, in the room that it needs.
pub open spec fn typed_lines(s: AppView, width: u16) -> Seq<Seq<SpanView>> {
    input_box::box_lines(
        s.input,
        s.cursor,
        label_of(s),
        rows_needed(s, width),
        layout::less(width, 2),
        preview_of(s),
    )
}

// --------------------------------------------------------------------- the status

/// The tokens of the session; what is being written is counted by estimate.
pub open spec fn token_info(t: TokenStats, busy: bool) -> Seq<char> {
    let live = busy && t.round_est > 0;
    let more = if live {
        t.round_est as nat
    } else {
        0
    };
    let mark = if live {
        "≈"@
    } else {
        ""@
    };
    let sum = t.input as nat + t.output as nat + more;
    if sum > 0 {
        " · in "@ + meter::token_text(t.input as nat) + " · out "@ + mark + meter::token_text(
            t.output as nat + more,
        ) + " · Σ "@ + mark + meter::token_text(sum)
    } else {
        Seq::empty()
    }
}

/// What the session does.
pub open spec fn state_text(busy: bool, kind: BusyKind, frame: nat) -> Seq<char> {
    if busy {
        match kind {
            BusyKind::Work => "工作中… "@ + meter::wave(frame, 8),
            BusyKind::Compacting => "压缩中… "@ + seq![meter::shrinking((frame / 2) as int)],
        }
    } else {
        "就绪"@
    }
}

/// How the status begins: the mode, the persona, the model, what the session does, and
/// its tokens. What comes from outside is stripped of what a terminal would obey.
pub open spec fn status_text(s: AppView, model: Seq<char>, frame: nat) -> Seq<char> {
    " "@ + mode::name_of(s.mode) + (if s.talk.persona.len() == 0 {
        Seq::empty()
    } else {
        " | "@ + ansi::stripped(s.talk.persona)
    }) + " | "@ + ansi::stripped(model) + " | "@ + state_text(s.talk.busy, s.talk.busy_kind, frame) + token_info(
        s.talk.stats,
        s.talk.busy,
    )
}

/// How the status ends: how far the view is scrolled up, and the session.
pub open spec fn status_end(s: AppView) -> Seq<char> {
    (if s.scroll.back > 0 {
        " ↕ 上翻"@ + text::decimal(s.scroll.back as nat) + "行(End回底)"@
    } else {
        Seq::empty()
    }) + (if s.talk.session_id.len() == 0 {
        Seq::empty()
    } else {
        " · 会话 "@ + ansi::stripped(s.talk.session_id)
    })
}

/// The status line, with the badge of the context where its size is known: behind the
/// tokens, and in front of the session.
pub open spec fn status(s: AppView, model: Seq<char>, window: nat, frame: nat) -> Seq<SpanView> {
    let line = Seq::empty().push(
        style::sv(status_text(s, model, frame), style::colored(Color::DarkGray)),
    );
    let pct = meter::percent(s.talk.stats.last_prompt as nat, window);
    let metered = if window == 0 {
        line
    } else {
        line.push(
            style::sv(" "@ + meter::badge_text(pct), style::bold(meter::badge_color(pct))),
        )
    };
    if status_end(s).len() == 0 {
        metered
    } else {
        metered.push(style::sv(status_end(s), style::colored(Color::DarkGray)))
    }
}

fn tokens_text(t: &TokenStats, busy: bool) -> (r: String)
    requires
        t.input + t.output + (if busy {
            t.round_est as int
        } else {
            0
        }) <= u64::MAX,
    ensures
        r@ == token_info(*t, busy),
{
    let live = busy && t.round_est > 0;
    let more: u64 = if live {
        t.round_est
    } else {
        0
    };
    let mark = if live {
        "≈"
    } else {
        ""
    };
    let sum: u64 = t.input + t.output + more;
    if sum == 0 {
        return String::new();
    }
    let mut r = text::cat4(" · in ", meter::fmt_tokens(t.input).as_str(), " · out ", mark);
    r.append(meter::fmt_tokens(t.output + more).as_str());
    r.append(" · Σ ");
    r.append(mark);
    r.append(meter::fmt_tokens(sum).as_str());
    r
}

fn doing_text(busy: bool, kind: BusyKind, frame: usize) -> (r: String)
    ensures
        r@ == state_text(busy, kind, frame as nat),
{
    if !busy {
        return text::copy("就绪");
    }
    match kind {
        BusyKind::Work => text::cat2("工作中… ", meter::wave_row(frame, 8).as_str()),
        BusyKind::Compacting => text::cat2(
            "压缩中… ",
            text::of_char(meter::shrink_char(frame / 2)).as_str(),
        ),
    }
}

/// The messages that are in view: their lines from the first to the one behind the
/// last.
pub open spec fn view_lines(s: AppView, area: Rect, frame: nat, now: u64) -> Seq<Seq<SpanView>> {
    let inner = layout::less(area.width, 2);
    content::content(
        s.talk.items,
        s.talk.busy,
        s.talk.busy_kind,
        if inner < 20 {
            20
        } else {
            inner as nat
        },
        frame,
        now,
    )
}

fn copy_lines(ls: &Vec<Line>, from: usize, to: usize) -> (r: Vec<Line>)
    requires
        from <= to <= ls@.len(),
    ensures
        style::line_views(r@) == style::line_views(ls@).subrange(from as int, to as int),
{
    let ghost all = style::line_views(ls@);
    let mut r = style::no_lines();
    let mut i: usize = from;
    proof {
        assert(style::line_views(r@) =~= all.subrange(from as int, from as int));
    }
    while i < to
        invariant
            all == style::line_views(ls@),
            from <= i <= to <= ls@.len(),
            style::line_views(r@) == all.subrange(from as int, i as int),
        decreases to - i,
    {
        let mut spans = style::no_spans();
        style::append_copies(&mut spans, &ls[i].spans);
        proof {
            assert(style::span_views(spans@) =~= all[i as int]);
            assert(all.subrange(from as int, i + 1) =~= all.subrange(from as int, i as int).push(
                all[i as int],
            ));
        }
        style::push_line(&mut r, spans);
        i += 1;
    }
    r
}

/// The parts of the screen, from top to bottom.
#[derive(Clone, Copy, Debug, PartialEq, Eq, Structural)]
pub struct Areas {
    pub header: Rect,
    pub messages: Rect,
    pub input: Rect,
    pub status: Rect,
}

/// The heights that the parts ask for: a row for the header, at least three for the
/// messages, those of the text with its border, and a row for the status.
pub open spec fn heights(s: AppView, width: u16) -> Seq<Part> {
    Seq::empty().push(Part::Length(1)).push(Part::Min(3)).push(
        Part::Length((rows_needed(s, width) + 2) as u16),
    ).push(Part::Length(1))
}

/// The parts of a screen with room for all of them: the header in the first row, the
/// status in the last, the text with its border above that, and the messages between.
pub open spec fn screen_parts(area: Rect, rows: nat) -> Areas {
    let text = (rows + 2) as u16;
    let rest = (area.height - rows - 4) as u16;
    Areas {
        header: Rect { height: 1, ..area },
        messages: Rect { y: (area.y + 1) as u16, height: rest, ..area },
        input: Rect { y: (area.y + 1 + rest) as u16, height: text, ..area },
        status: Rect { y: (area.y + area.height - 1) as u16, height: 1, ..area },
    }
}

proof fn lemma_split(s: AppView, area: Rect)
    ensures
        ({
            let p = heights(s, area.width);
            let n = rows_needed(s, area.width);
            let left = (area.height - n - 7) as nat;
            &&& layout::mins(p) == 1
            &&& layout::asked_rows(p) == n + 7
            &&& layout::shared_rows(p.take(0), left) == 0
            &&& layout::shared_rows(p.take(1), left) == 1
            &&& layout::shared_rows(p.take(2), left) == 4 + left
            &&& layout::shared_rows(p.take(3), left) == 6 + n + left
        }),
{
    let p = heights(s, area.width);
    let left = (area.height - rows_needed(s, area.width) - 7) as nat;
    law_text_fits_its_room(s, area.width);
    assert(p.drop_last() =~= p.take(3));
    assert(p.take(3).drop_last() =~= p.take(2));
    assert(p.take(2).drop_last() =~= p.take(1));
    assert(p.take(1).drop_last() =~= p.take(0));
    reveal_with_fuel(layout::asked_rows, 5);
    reveal_with_fuel(layout::mins, 5);
    reveal_with_fuel(layout::shared_rows, 5);
}

/// Where a panel is drawn over the messages and the text: from the top of the
/// messages to the status line, and one row high at the least.
pub open spec fn panel_rect(messages: Rect, status: Rect) -> Rect {
    let height = layout::less(status.y, messages.y);
    Rect {
        x: messages.x,
        y: messages.y,
        width: messages.width,
        height: if height < 1 {
            1
        } else {
            height
        },
    }
}

impl Areas {
    /// Where a panel is drawn.
    pub fn panel(self) -> (r: Rect)
        ensures
            r == panel_rect(self.messages, self.status),
    {
        let height = layout::minus(self.status.y, self.messages.y);
        Rect {
            x: self.messages.x,
            y: self.messages.y,
            width: self.messages.width,
            height: if height < 1 {
                1
            } else {
                height
            },
        }
    }
}

impl App {
    /// The heights that the parts of a screen of the given width ask for.
    pub fn heights(&self, width: u16) -> (r: Vec<Part>)
        ensures
            r@ == heights(self@, width),
    {
        let rows = self.input_rows(width);
        let mut r: Vec<Part> = Vec::new();
        r.push(Part::Length(1));
        r.push(Part::Min(3));
        r.push(Part::Length(rows + 2));
        r.push(Part::Length(1));
        r
    }

    /// Splits the screen into its parts, each as wide as the screen. Where the screen
    /// has room for three rows of messages, the parts follow each other from the top
    /// to the bottom, and the messages get what the others leave. How the rows are
    /// shared out where the screen is too low is not settled.
    pub fn areas(&self, area: Rect) -> (r: Areas)
        ensures
            r.header.x == area.x && r.header.width == area.width,
            r.messages.x == area.x && r.messages.width == area.width,
            r.input.x == area.x && r.input.width == area.width,
            r.status.x == area.x && r.status.width == area.width,
            area.fits() && rows_needed(self@, area.width) + 7 <= area.height ==> r == screen_parts(
                area,
                rows_needed(self@, area.width),
            ),
    {
        let wanted = self.heights(area.width);
        let parts = layout::split_rows(area, &wanted);
        proof {
            lemma_split(self@, area);
        }
        Areas { header: parts[0], messages: parts[1], input: parts[2], status: parts[3] }
    }

    /// What is said in front of the text.
    pub fn label(&self) -> (r: &'static str)
        ensures
            r@ == label_of(self@),
    {
        if self.talk.permission.is_some() || self.confirm.is_some() {
            " [等待确认]"
        } else {
            ""
        }
    }

    /// The style of the text that is being typed.
    pub fn input_style(&self) -> (r: Style)
        ensures
            r == (if is_dimmed(self@) {
                style::colored(Color::DarkGray)
            } else {
                style::plain()
            }),
    {
        if self.talk.busy && self.talk.permission.is_none() {
            Style::of(Color::DarkGray)
        } else {
            Style::new()
        }
    }

    /// The colour of the frame round the text that is being typed: that of the mode.
    pub fn input_border(&self) -> (r: Color)
        ensures
            r == (if is_dimmed(self@) {
                Color::DarkGray
            } else {
                mode::color_of(self.mode)
            }),
    {
        if self.talk.busy && self.talk.permission.is_none() {
            Color::DarkGray
        } else {
            mode::mode_color(self.mode)
        }
    }

    /// How many rows the text takes on a screen of the given width.
    pub fn input_rows(&self, width: u16) -> (r: u16)
        ensures
            r == rows_needed(self@, width),
            1 <= r <= 8,
    {
        let (first, _next) = input_box::input_prefix(self.label());
        let p: usize = text::count_chars(first.as_str());
        let inner: usize = layout::minus(width, 2) as usize;
        let w: usize = if inner >= 4 && inner - 4 >= p {
            inner - p
        } else {
            4
        };
        let n: usize = input_box::input_phys_lines(self.input.as_str(), w);
        proof {
            input_box::lemma_row_count(self.input@, w as nat);
        }
        if n < input_box::MAX_INPUT_ROWS {
            n as u16
        } else {
            input_box::MAX_INPUT_ROWS as u16
        }
    }

    /// Draws the text that is being typed, on a screen of the given width.
    pub fn input_lines(&self, width: u16) -> (r: Vec<Line>)
        ensures
            style::line_views(r@) == typed_lines(self@, width),
    {
        let tail = if self.cursor == editor::length(self.input.as_str()) {
            match &self.completion {
                Some(c) => completion_menu::ghost_tail(c),
                None => None,
            }
        } else {
            None
        };
        let rows: u16 = self.input_rows(width);
        let shown = match &tail {
            Some(t) => Some(t.as_str()),
            None => None,
        };
        input_box::render_input(
            self.input.as_str(),
            self.cursor,
            self.label(),
            rows as usize,
            layout::minus(width, 2),
            shown,
        )
    }

    /// Draws the messages that are in view in the given area, and settles the view.
    /// `frame` is the number of the frame, and `now` the time in milliseconds.
    pub fn message_lines(&mut self, area: Rect, frame: usize, now: u64) -> (r: Vec<Line>)
        ensures
            ({
                let all = view_lines(old(self)@, area, frame as nat, now);
                let h = layout::less(area.height, 2) as nat;
                let back = scroll::frame_back(old(self)@.scroll, all.len(), h);
                &&& all.len() <= usize::MAX
                &&& final(self)@ == (AppView {
                    scroll: scroll::framed(
                        old(self)@.scroll,
                        all.len() as usize,
                        h as usize,
                        area,
                    ),
                    ..old(self)@
                })
                &&& style::line_views(r@) == all.subrange(
                    scroll::frame_start(back, all.len(), h) as int,
                    scroll::frame_end(back, all.len(), h) as int,
                )
            }),
    {
        let inner: u16 = layout::minus(area.width, 2);
        let w: u16 = if inner < 20 {
            20
        } else {
            inner
        };
        let all = content::build_content_lines(
            &self.talk.items,
            self.talk.busy,
            self.talk.busy_kind,
            w,
            frame,
            now,
        );
        let h: usize = layout::minus(area.height, 2) as usize;
        let total: usize = all.len();
        proof {
            assert(style::line_views(all@).len() == all@.len());
        }
        let (from, to) = self.scroll.frame(total, h, area);
        copy_lines(&all, from, to)
    }

    /// Draws the status line; `window` is the size of the context, where it is known.
    pub fn status_spans(&self, model: &str, window: usize, frame: usize) -> (r: Vec<Span>)
        requires
            self.talk.stats.input + self.talk.stats.output + (if self.talk.busy {
                self.talk.stats.round_est as int
            } else {
                0
            }) <= u64::MAX,
        ensures
            style::span_views(r@) == status(self@, model@, window as nat, frame as nat),
    {
        let mut t = text::cat2(" ", mode::mode_str(self.mode));
        let persona = if self.talk.persona.as_str().is_empty() {
            String::new()
        } else {
            text::cat2(" | ", ansi::strip(self.talk.persona.as_str()).as_str())
        };
        t.append(persona.as_str());
        t.append(" | ");
        t.append(ansi::strip(model).as_str());
        t.append(" | ");
        t.append(doing_text(self.talk.busy, self.talk.busy_kind, frame).as_str());
        t.append(tokens_text(&self.talk.stats, self.talk.busy).as_str());
        let mut end = if self.scroll.back > 0 {
            text::cat3(" ↕ 上翻", text::dec(self.scroll.back).as_str(), "行(End回底)")
        } else {
            String::new()
        };
        let session = if self.talk.session_id.as_str().is_empty() {
            String::new()
        } else {
            text::cat2(" · 会话 ", ansi::strip(self.talk.session_id.as_str()).as_str())
        };
        end.append(session.as_str());
        let mut spans = style::no_spans();
        style::push_span(&mut spans, t, Style::of(Color::DarkGray));
        if let Some((badge, color)) = meter::ctx_usage_badge(
            self.talk.stats.last_prompt,
            window,
        ) {
            style::push_span(&mut spans, text::cat2(" ", badge.as_str()), Style::bold_of(color));
        }
        if !end.as_str().is_empty() {
            style::push_span(&mut spans, end, Style::of(Color::DarkGray));
        }
        spans
    }
}

// ------------------------------------------------------------------------ laws

/// The text that is being typed is drawn in as many rows as were counted for it, so
/// that the areas above and below it fit.
pub proof fn law_text_fits_its_room(s: AppView, width: u16)
    ensures
        typed_lines(s, width).len() == rows_needed(s, width),
        1 <= rows_needed(s, width) <= input_box::MAX_INPUT_ROWS,
{
    reveal_strlit("❯");
    reveal_strlit(" ");
    reveal_strlit(" [等待确认]");
    reveal_strlit("");
    let w = layout::less(width, 2);
    input_box::law_height_is_as_counted(
        s.input,
        s.cursor,
        label_of(s),
        rows_needed(s, width),
        w,
        preview_of(s),
    );
    assert(input_box::body_width(label_of(s), w) == text_width(s, width));
}

} // verus!
