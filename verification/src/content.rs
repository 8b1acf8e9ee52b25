//! How the message area is drawn: every item as styled lines, and below them what
//! the session is busy with.
use crate::ansi;
use crate::live;
use crate::md;
use crate::messages;
use crate::messages::{Card, CardView, MsgItem, MsgView};
use crate::meter;
use crate::scan;
use crate::settings;
use crate::style;
use crate::style::{Color, Line, Modifier, SpanView, Style};
use crate::text;
use crate::tool_args;
use crate::transcript::BusyKind;
use vstd::prelude::*;

verus! {

// -------------------------------------------------------------------- the banner

/// How many lines the banner has.
pub const LOGO_ROWS: usize = 7;

/// The lines of the banner.
pub open spec fn logo_row(i: int) -> Seq<char> {
    if i == 0 {
        "░█████████ ░███    ░██    ░███    ░██████░███████   ░██████████"@
    } else if i == 1 {
        "      ░██  ░████   ░██   ░██░██     ░██  ░██   ░██  ░██"@
    } else if i == 2 {
        "     ░██   ░██░██  ░██  ░██  ░██    ░██  ░██    ░██ ░██"@
    } else if i == 3 {
        "   ░███    ░██ ░██ ░██ ░█████████   ░██  ░██    ░██ ░█████████"@
    } else if i == 4 {
        "  ░██      ░██  ░██░██ ░██    ░██   ░██  ░██    ░██ ░██"@
    } else if i == 5 {
        " ░██       ░██   ░████ ░██    ░██   ░██  ░██   ░██  ░██"@
    } else {
        "░█████████ ░██    ░███ ░██    ░██ ░██████░███████   ░██████████"@
    }
}

/// The colours of the banner: from cyan at the top to magenta at the bottom, in sixths
/// of 255, cut off in single precision.
pub open spec fn logo_color(i: int) -> Color {
    if i == 0 {
        Color::Rgb(0, 255, 255)
    } else if i == 1 {
        Color::Rgb(42, 212, 255)
    } else if i == 2 {
        Color::Rgb(85, 169, 255)
    } else if i == 3 {
        Color::Rgb(127, 127, 255)
    } else if i == 4 {
        Color::Rgb(170, 84, 255)
    } else if i == 5 {
        Color::Rgb(212, 42, 255)
    } else {
        Color::Rgb(255, 0, 255)
    }
}

fn logo_line(i: usize) -> (r: (&'static str, Color))
    ensures
        r.0@ == logo_row(i as int),
        r.1 == logo_color(i as int),
{
    if i == 0 {
        (
            "░█████████ ░███    ░██    ░███    ░██████░███████   ░██████████",
            Color::Rgb(0, 255, 255),
        )
    } else if i == 1 {
        (
            "      ░██  ░████   ░██   ░██░██     ░██  ░██   ░██  ░██",
            Color::Rgb(42, 212, 255),
        )
    } else if i == 2 {
        (
            "     ░██   ░██░██  ░██  ░██  ░██    ░██  ░██    ░██ ░██",
            Color::Rgb(85, 169, 255),
        )
    } else if i == 3 {
        (
            "   ░███    ░██ ░██ ░██ ░█████████   ░██  ░██    ░██ ░█████████",
            Color::Rgb(127, 127, 255),
        )
    } else if i == 4 {
        (
            "  ░██      ░██  ░██░██ ░██    ░██   ░██  ░██    ░██ ░██",
            Color::Rgb(170, 84, 255),
        )
    } else if i == 5 {
        (
            " ░██       ░██   ░████ ░██    ░██   ░██  ░██   ░██  ░██",
            Color::Rgb(212, 42, 255),
        )
    } else {
        (
            "░█████████ ░██    ░███ ░██    ░██ ░██████░███████   ░██████████",
            Color::Rgb(255, 0, 255),
        )
    }
}

/// The lines of the banner.
pub fn logo_lines() -> (r: Vec<String>)
    ensures
        scan::texts(r@) == Seq::new(LOGO_ROWS as nat, |i: int| logo_row(i)),
{
    let ghost all = Seq::new(LOGO_ROWS as nat, |i: int| logo_row(i));
    let mut r: Vec<String> = Vec::new();
    let mut i: usize = 0;
    proof {
        assert(scan::texts(r@) =~= all.take(0));
    }
    while i < LOGO_ROWS
        invariant
            all == Seq::new(LOGO_ROWS as nat, |i: int| logo_row(i)),
            i <= LOGO_ROWS,
            scan::texts(r@) == all.take(i as int),
        decreases LOGO_ROWS - i,
    {
        let (t, _c) = logo_line(i);
        scan::push_text(&mut r, text::copy(t));
        proof {
            assert(all.take(i + 1) =~= all.take(i as int).push(all[i as int]));
        }
        i += 1;
    }
    proof {
        assert(all.take(i as int) =~= all);
    }
    r
}

// ---------------------------------------------------------------- pieces of lines

/// `width - n`, or nothing where that is less.
pub open spec fn less(width: nat, n: nat) -> nat {
    if width >= n {
        (width - n) as nat
    } else {
        0
    }
}

fn minus(width: u16, n: u16) -> (r: u16)
    ensures
        r == less(width as nat, n as nat),
{
    if width >= n {
        width - n
    } else {
        0
    }
}

/// Texts as lines of one style, with one prefix in front of the first and another in
/// front of the rest.
pub open spec fn text_lines(
    segs: Seq<Seq<char>>,
    first: Seq<char>,
    next: Seq<char>,
    st: Style,
) -> Seq<Seq<SpanView>>
    decreases segs.len(),
{
    if segs.len() == 0 {
        Seq::empty()
    } else {
        text_lines(segs.drop_last(), first, next, st).push(
            style::one(
                (if segs.len() == 1 {
                    first
                } else {
                    next
                }) + segs.last(),
                st,
            ),
        )
    }
}

/// Lines with a span in front of each: one in front of the first, and another in
/// front of the rest.
pub open spec fn led_lines(
    ls: Seq<Seq<SpanView>>,
    first: Seq<char>,
    next: Seq<char>,
    st: Style,
) -> Seq<Seq<SpanView>>
    decreases ls.len(),
{
    if ls.len() == 0 {
        Seq::empty()
    } else {
        led_lines(ls.drop_last(), first, next, st).push(
            style::one(
                if ls.len() == 1 {
                    first
                } else {
                    next
                },
                st,
            ) + ls.last(),
        )
    }
}

/// The first elements of a list.
pub open spec fn at_most<T>(v: Seq<T>, n: nat) -> Seq<T> {
    if v.len() > n {
        v.take(n as int)
    } else {
        v
    }
}

/// The last elements of a list.
pub open spec fn last_of<T>(v: Seq<T>, n: nat) -> Seq<T> {
    if v.len() > n {
        v.skip(v.len() - n)
    } else {
        v
    }
}

fn add_text_lines(
    out: &mut Vec<Line>,
    segs: &Vec<String>,
    n: usize,
    first: &str,
    next: &str,
    st: Style,
)
    requires
        n <= segs@.len(),
    ensures
        style::line_views(final(out)@) == style::line_views(old(out)@) + text_lines(
            scan::texts(segs@).take(n as int),
            first@,
            next@,
            st,
        ),
{
    let ghost start = style::line_views(old(out)@);
    let ghost all = scan::texts(segs@);
    let mut i: usize = 0;
    proof {
        assert(all.take(0) =~= Seq::<Seq<char>>::empty());
        assert(start + text_lines(all.take(0), first@, next@, st) =~= start);
    }
    while i < n
        invariant
            all == scan::texts(segs@),
            all.len() == segs@.len(),
            i <= n <= segs@.len(),
            style::line_views(out@) == start + text_lines(all.take(i as int), first@, next@, st),
        decreases n - i,
    {
        proof {
            assert(all.take(i + 1).drop_last() =~= all.take(i as int));
            assert(all.take(i + 1).last() == all[i as int]);
        }
        let prefix = if i == 0 {
            first
        } else {
            next
        };
        style::push_text_line(out, text::cat2(prefix, segs[i].as_str()), st);
        proof {
            assert(style::line_views(out@) =~= start + text_lines(
                all.take(i + 1),
                first@,
                next@,
                st,
            ));
        }
        i += 1;
    }
}

fn add_led_lines(
    out: &mut Vec<Line>,
    ls: &Vec<Line>,
    from: usize,
    to: usize,
    first: &str,
    next: &str,
    st: Style,
)
    requires
        from <= to <= ls@.len(),
    ensures
        style::line_views(final(out)@) == style::line_views(old(out)@) + led_lines(
            style::line_views(ls@).subrange(from as int, to as int),
            first@,
            next@,
            st,
        ),
{
    let ghost start = style::line_views(old(out)@);
    let ghost all = style::line_views(ls@);
    let mut i: usize = from;
    proof {
        assert(all.subrange(from as int, from as int) =~= Seq::<Seq<SpanView>>::empty());
        assert(start + led_lines(
            all.subrange(from as int, from as int),
            first@,
            next@,
            st,
        ) =~= start);
    }
    while i < to
        invariant
            all == style::line_views(ls@),
            all.len() == ls@.len(),
            from <= i <= to <= ls@.len(),
            style::line_views(out@) == start + led_lines(
                all.subrange(from as int, i as int),
                first@,
                next@,
                st,
            ),
        decreases to - i,
    {
        let ghost now = all.subrange(from as int, i + 1);
        proof {
            assert(now.drop_last() =~= all.subrange(from as int, i as int));
            assert(now.last() == all[i as int]);
        }
        let prefix = if i == from {
            first
        } else {
            next
        };
        let mut spans = style::no_spans();
        style::push_span(&mut spans, text::copy(prefix), st);
        style::append_copies(&mut spans, &ls[i].spans);
        proof {
            assert(style::span_views(spans@) =~= style::one(prefix@, st) + all[i as int]);
        }
        style::push_line(out, spans);
        proof {
            assert(style::line_views(out@) =~= start + led_lines(now, first@, next@, st));
        }
        i += 1;
    }
}

// ------------------------------------------------------------------------- cards

/// How long a command may go on past its budget: a fifth of it, and a minute at most.
pub open spec fn grace(ms: nat) -> nat {
    if ms / 5 < 60000 {
        ms / 5
    } else {
        60000
    }
}

/// How long it has been since a time.
pub open spec fn since(t: u64, now: u64) -> u64 {
    if now >= t {
        (now - t) as u64
    } else {
        0
    }
}

/// What stands in front of a card: a cell that pulses while it runs.
pub open spec fn card_icon(ok: Option<bool>, frame: nat) -> Seq<char> {
    match ok {
        None => seq![meter::pulse((frame / 2) as int)],
        Some(b) => if b {
            "✓"@
        } else {
            "✗"@
        },
    }
}

/// The colour of a card: one that runs warns when it has been silent for long.
pub open spec fn card_color(ok: Option<bool>, silent: u8) -> Color {
    match ok {
        None => if silent == 2 {
            Color::Red
        } else if silent == 1 {
            Color::Yellow
        } else {
            Color::Blue
        },
        Some(b) => if b {
            Color::Green
        } else {
            Color::Red
        },
    }
}

/// How long a card has run, and what it may still take.
pub open spec fn card_time(c: CardView, now: u64) -> Seq<char> {
    match c.ok {
        None => match c.started {
            Some(t) => {
                let e = since(t, now);
                " · "@ + text::decimal((e / 1000) as nat) + "s"@ + (match c.idle_ms {
                    Some(ms) => " · 预算 "@ + meter::budget_text(ms as nat) + (if e > ms {
                        " · 已超预算,宽限剩 "@ + text::decimal(
                            less(grace(ms as nat), (e - ms) as nat) / 1000,
                        ) + "s"@
                    } else {
                        Seq::<char>::empty()
                    }),
                    None => Seq::<char>::empty(),
                })
            },
            None => Seq::empty(),
        },
        Some(_) => match c.done_secs {
            Some(s) => " · "@ + text::decimal(s as nat) + "s"@,
            None => Seq::empty(),
        },
    }
}

/// The first line of a card: its name is stripped of what a terminal would obey.
pub open spec fn card_head(c: CardView, frame: nat, now: u64) -> Seq<char> {
    "  "@ + card_icon(c.ok, frame) + " "@ + ansi::unbroken(ansi::stripped(c.name)) + card_time(
        c,
        now,
    )
}

/// What a card shows of its arguments: two lines at most.
pub open spec fn args_lines(c: CardView, width: nat) -> Seq<Seq<SpanView>> {
    let summary = tool_args::summary_of(c.name, c.args);
    if summary.len() == 0 {
        Seq::empty()
    } else {
        text_lines(
            at_most(md::wrapped(summary, less(width, 8)), 2),
            "      "@,
            "        "@,
            style::colored(Color::DarkGray),
        )
    }
}

/// How many lines of running output are looked at.
pub const LIVE_LINES: usize = 40;

/// What a card shows of its output while it runs: the last rows.
pub open spec fn live_lines(c: CardView, width: nat) -> Seq<Seq<SpanView>> {
    if c.ok is None && c.live.len() > 0 {
        let dim = style::colored(Color::DarkGray);
        let all = ansi::rendered(
            live::tail_lines(c.live, LIVE_LINES as nat),
            less(width, 8),
            dim,
        );
        Seq::empty().push(style::one("      ─────── 实时输出 ───────"@, dim)) + led_lines(
            last_of(all, live::LIVE_ROWS as nat),
            "      "@,
            "      "@,
            style::plain(),
        )
    } else {
        Seq::empty()
    }
}

/// How many characters of its output a card shows.
pub const OUTPUT_CHARS: usize = 500;

/// How many rows of its output a card shows.
pub const OUTPUT_ROWS: usize = 4;

/// What a card shows of its output: the first rows.
pub open spec fn output_lines(c: CardView, width: nat) -> Seq<Seq<SpanView>> {
    if c.output.len() > 0 {
        let all = ansi::rendered(
            settings::shortened(c.output, OUTPUT_CHARS as nat),
            less(width, 8),
            style::colored(Color::DarkGray),
        );
        led_lines(at_most(all, OUTPUT_ROWS as nat), "      "@, "      "@, style::plain())
    } else {
        Seq::empty()
    }
}

/// The lines of a card.
pub open spec fn card_lines(c: CardView, width: nat, frame: nat, now: u64) -> Seq<Seq<SpanView>> {
    Seq::empty().push(
        style::one(card_head(c, frame, now), style::bold(card_color(c.ok, c.silent))),
    ) + args_lines(c, width) + live_lines(c, width) + output_lines(c, width)
}

fn grace_ms(ms: u64) -> (r: u64)
    ensures
        r == grace(ms as nat),
{
    if ms / 5 < 60000 {
        ms / 5
    } else {
        60000
    }
}

fn time_text(c: &Card, now: u64) -> (r: String)
    ensures
        r@ == card_time(c@, now),
{
    if c.ok.is_some() {
        return match c.done_secs {
            Some(s) => text::cat3(" · ", text::dec64(s).as_str(), "s"),
            None => String::new(),
        };
    }
    match c.started {
        None => String::new(),
        Some(t) => {
            let e: u64 = if now >= t {
                now - t
            } else {
                0
            };
            let mut r = text::cat3(" · ", text::dec64(e / 1000).as_str(), "s");
            let budget = match c.idle_ms {
                None => String::new(),
                Some(ms) => {
                    let mut b = text::cat2(" · 预算 ", meter::fmt_ms_budget(ms).as_str());
                    let over = if e > ms {
                        let g: u64 = grace_ms(ms);
                        let past: u64 = e - ms;
                        let left: u64 = if g >= past {
                            g - past
                        } else {
                            0
                        };
                        text::cat3(
                            " · 已超预算,宽限剩 ",
                            text::dec64(left / 1000).as_str(),
                            "s",
                        )
                    } else {
                        String::new()
                    };
                    b.append(over.as_str());
                    b
                },
            };
            r.append(budget.as_str());
            r
        },
    }
}

fn head_text(c: &Card, frame: usize, now: u64) -> (r: String)
    ensures
        r@ == card_head(c@, frame as nat, now),
{
    let icon = match c.ok {
        None => text::of_char(meter::pulse_char(frame / 2)),
        Some(b) => if b {
            text::copy("✓")
        } else {
            text::copy("✗")
        },
    };
    let mut r = text::cat4("  ", icon.as_str(), " ", ansi::strip_line(c.name.as_str()).as_str());
    r.append(time_text(c, now).as_str());
    r
}

fn head_color(ok: Option<bool>, silent: u8) -> (r: Color)
    ensures
        r == card_color(ok, silent),
{
    match ok {
        None => if silent == 2 {
            Color::Red
        } else if silent == 1 {
            Color::Yellow
        } else {
            Color::Blue
        },
        Some(b) => if b {
            Color::Green
        } else {
            Color::Red
        },
    }
}

fn add_args(out: &mut Vec<Line>, c: &Card, width: u16)
    ensures
        style::line_views(final(out)@) == style::line_views(old(out)@) + args_lines(
            c@,
            width as nat,
        ),
{
    let summary = tool_args::tool_args_summary(c.name.as_str(), c.args.as_str());
    if summary.as_str().is_empty() {
        proof {
            assert(style::line_views(old(out)@) + Seq::<Seq<SpanView>>::empty()
                =~= style::line_views(old(out)@));
        }
        return;
    }
    let segs = md::wrap_plain(summary.as_str(), minus(width, 8));
    proof {
        assert(scan::texts(segs@).len() == segs@.len());
        assert(scan::texts(segs@).take(segs@.len() as int) =~= scan::texts(segs@));
    }
    let n: usize = if segs.len() > 2 {
        2
    } else {
        segs.len()
    };
    add_text_lines(out, &segs, n, "      ", "        ", Style::of(Color::DarkGray));
}

fn add_live(out: &mut Vec<Line>, c: &Card, width: u16)
    ensures
        style::line_views(final(out)@) == style::line_views(old(out)@) + live_lines(
            c@,
            width as nat,
        ),
{
    let ghost start = style::line_views(old(out)@);
    if c.ok.is_some() || c.live.as_str().is_empty() {
        proof {
            assert(start + Seq::<Seq<SpanView>>::empty() =~= start);
        }
        return;
    }
    let dim = Style::of(Color::DarkGray);
    style::push_text_line(out, text::copy("      ─────── 实时输出 ───────"), dim);
    let tail = live::last_n_lines(c.live.as_str(), LIVE_LINES);
    let all = ansi::render_lines(tail.as_str(), minus(width, 8), dim);
    let n: usize = all.len();
    let from: usize = if n > live::LIVE_ROWS {
        n - live::LIVE_ROWS
    } else {
        0
    };
    let ghost mid = style::line_views(out@);
    add_led_lines(out, &all, from, n, "      ", "      ", Style::new());
    proof {
        let av = style::line_views(all@);
        assert(av.subrange(from as int, n as int) =~= last_of(av, live::LIVE_ROWS as nat));
        assert(style::line_views(out@) =~= start + live_lines(c@, width as nat));
    }
}

fn add_output(out: &mut Vec<Line>, c: &Card, width: u16)
    ensures
        style::line_views(final(out)@) == style::line_views(old(out)@) + output_lines(
            c@,
            width as nat,
        ),
{
    if c.output.as_str().is_empty() {
        proof {
            assert(style::line_views(old(out)@) + Seq::<Seq<SpanView>>::empty()
                =~= style::line_views(old(out)@));
        }
        return;
    }
    let shown = settings::shorten(c.output.as_str(), OUTPUT_CHARS);
    let all = ansi::render_lines(shown.as_str(), minus(width, 8), Style::of(Color::DarkGray));
    let n: usize = all.len();
    let to: usize = if n > OUTPUT_ROWS {
        OUTPUT_ROWS
    } else {
        n
    };
    proof {
        let av = style::line_views(all@);
        assert(av.len() == n);
        assert(av.subrange(0, to as int) =~= at_most(av, OUTPUT_ROWS as nat));
    }
    add_led_lines(out, &all, 0, to, "      ", "      ", Style::new());
}

fn add_card(out: &mut Vec<Line>, c: &Card, width: u16, frame: usize, now: u64)
    ensures
        style::line_views(final(out)@) == style::line_views(old(out)@) + card_lines(
            c@,
            width as nat,
            frame as nat,
            now,
        ),
{
    style::push_text_line(
        out,
        head_text(c, frame, now),
        Style::bold_of(head_color(c.ok, c.silent)),
    );
    add_args(out, c, width);
    add_live(out, c, width);
    add_output(out, c, width);
    proof {
        assert(style::line_views(out@) =~= style::line_views(old(out)@) + card_lines(
            c@,
            width as nat,
            frame as nat,
            now,
        ));
    }
}

// ------------------------------------------------------------------------- items

/// The lines of an answer: an empty one takes a line as well.
pub open spec fn answer_lines(t: Seq<char>, width: nat) -> Seq<Seq<SpanView>> {
    let ls = md::rendered(t, width);
    if ls.len() == 0 {
        Seq::empty().push(Seq::empty())
    } else {
        ls
    }
}

/// The first `n` lines of the banner.
pub open spec fn banner(n: nat) -> Seq<Seq<SpanView>>
    decreases n,
{
    if n == 0 {
        Seq::empty()
    } else {
        banner((n - 1) as nat).push(style::one(logo_row(n - 1), style::bold(logo_color(n - 1))))
    }
}

/// The lines of an item.
pub open spec fn item_lines(m: MsgView, width: nat, frame: nat, now: u64) -> Seq<Seq<SpanView>> {
    match m {
        MsgView::Logo => banner(LOGO_ROWS as nat),
        MsgView::User(t) => led_lines(
            md::rendered(t, less(width, 4)),
            "❯ 你: "@,
            "      "@,
            style::bold(Color::Cyan),
        ),
        MsgView::Assistant(t) => answer_lines(t, width),
        MsgView::AssistantStream(t) => answer_lines(
            t.push(meter::pulse((frame / 2) as int)),
            width,
        ),
        MsgView::Reasoning(t) => text_lines(
            md::wrapped(t, less(width, 2)),
            "… "@,
            ""@,
            style::colored(Color::DarkGray).with_on(Modifier::Italic),
        ),
        MsgView::Tool(c) => card_lines(c, width, frame, now),
        MsgView::Notice(t) => text_lines(
            md::wrapped(t, less(width, 2)),
            "ℹ "@,
            "   "@,
            style::colored(Color::Yellow),
        ),
        MsgView::CommandOutput(t) => text_lines(
            md::wrapped(t, less(width, 2)),
            ""@,
            ""@,
            style::colored(Color::Magenta),
        ),
    }
}

/// The lines of items, an empty one behind each item.
pub open spec fn all_lines(items: Seq<MsgView>, width: nat, frame: nat, now: u64) -> Seq<
    Seq<SpanView>,
>
    decreases items.len(),
{
    if items.len() == 0 {
        Seq::empty()
    } else {
        (all_lines(items.drop_last(), width, frame, now) + item_lines(
            items.last(),
            width,
            frame,
            now,
        )).push(Seq::empty())
    }
}

/// The line that says what the session is busy with.
pub open spec fn busy_line(kind: BusyKind, frame: nat) -> Seq<SpanView> {
    match kind {
        BusyKind::Work => style::one(
            meter::wave(frame, 4) + " "@ + "思考执行中…(Esc 中断)"@,
            style::bold(Color::Blue),
        ),
        BusyKind::Compacting => style::one(
            seq![meter::shrinking((frame / 2) as int)] + " "@
                + "压缩中(旧消息 → 摘要),不可中断,约数秒~数十秒"@,
            style::bold(Color::Cyan),
        ),
    }
}

/// The lines of the message area.
pub open spec fn content(
    items: Seq<MsgView>,
    busy: bool,
    kind: BusyKind,
    width: nat,
    frame: nat,
    now: u64,
) -> Seq<Seq<SpanView>> {
    let ls = all_lines(items, width, frame, now);
    if busy {
        ls.push(busy_line(kind, frame))
    } else {
        ls
    }
}

fn add_wrapped(out: &mut Vec<Line>, t: &str, width: u16, first: &str, next: &str, st: Style)
    ensures
        style::line_views(final(out)@) == style::line_views(old(out)@) + text_lines(
            md::wrapped(t@, less(width as nat, 2)),
            first@,
            next@,
            st,
        ),
{
    let segs = md::wrap_plain(t, minus(width, 2));
    proof {
        assert(scan::texts(segs@).len() == segs@.len());
        assert(scan::texts(segs@).take(segs@.len() as int) =~= scan::texts(segs@));
    }
    add_text_lines(out, &segs, segs.len(), first, next, st);
}

fn add_answer(out: &mut Vec<Line>, t: &str, width: u16)
    ensures
        style::line_views(final(out)@) == style::line_views(old(out)@) + answer_lines(
            t@,
            width as nat,
        ),
{
    let mut ls = md::render(t, width);
    proof {
        assert(style::line_views(ls@).len() == ls@.len());
    }
    if ls.len() == 0 {
        style::push_blank(&mut ls);
        proof {
            assert(style::line_views(ls@) =~= Seq::<Seq<SpanView>>::empty().push(Seq::empty()));
        }
    }
    style::append_lines(out, ls);
}

fn add_banner(out: &mut Vec<Line>)
    ensures
        style::line_views(final(out)@) == style::line_views(old(out)@) + banner(LOGO_ROWS as nat),
{
    let ghost start = style::line_views(old(out)@);
    let mut i: usize = 0;
    proof {
        assert(start + banner(0) =~= start);
    }
    while i < LOGO_ROWS
        invariant
            i <= LOGO_ROWS,
            style::line_views(out@) == start + banner(i as nat),
        decreases LOGO_ROWS - i,
    {
        let (t, c) = logo_line(i);
        style::push_text_line(out, text::copy(t), Style::bold_of(c));
        proof {
            assert(style::line_views(out@) =~= start + banner((i + 1) as nat));
        }
        i += 1;
    }
}

fn add_item(out: &mut Vec<Line>, m: &MsgItem, width: u16, frame: usize, now: u64)
    ensures
        style::line_views(final(out)@) == style::line_views(old(out)@) + item_lines(
            m@,
            width as nat,
            frame as nat,
            now,
        ),
{
    match m {
        MsgItem::Logo => add_banner(out),
        MsgItem::User(t) => {
            let ls = md::render(t.as_str(), minus(width, 4));
            proof {
                let lv = style::line_views(ls@);
                assert(lv.subrange(0, ls@.len() as int) =~= lv);
            }
            add_led_lines(
                out,
                &ls,
                0,
                ls.len(),
                "❯ 你: ",
                "      ",
                Style::bold_of(Color::Cyan),
            );
        },
        MsgItem::Assistant(t) => add_answer(out, t.as_str(), width),
        MsgItem::AssistantStream(t) => {
            let mut s = t.clone();
            s.push(meter::pulse_char(frame / 2));
            add_answer(out, s.as_str(), width);
        },
        MsgItem::Reasoning(t) => add_wrapped(
            out,
            t.as_str(),
            width,
            "… ",
            "",
            Style::of(Color::DarkGray).add_modifier(Modifier::Italic),
        ),
        MsgItem::Tool(c) => add_card(out, c, width, frame, now),
        MsgItem::Notice(t) => add_wrapped(
            out,
            t.as_str(),
            width,
            "ℹ ",
            "   ",
            Style::of(Color::Yellow),
        ),
        MsgItem::CommandOutput(t) => add_wrapped(
            out,
            t.as_str(),
            width,
            "",
            "",
            Style::of(Color::Magenta),
        ),
    }
}

/// Draws the message area: its items, and what the session is busy with. `frame` is
/// the number of the frame, and `now` the time in milliseconds.
pub fn build_content_lines(
    items: &Vec<MsgItem>,
    busy: bool,
    busy_kind: BusyKind,
    width: u16,
    frame: usize,
    now: u64,
) -> (out: Vec<Line>)
    ensures
        style::line_views(out@) == content(
            messages::msg_views(items@),
            busy,
            busy_kind,
            width as nat,
            frame as nat,
            now,
        ),
{
    let ghost vs = messages::msg_views(items@);
    let mut out = style::no_lines();
    let mut i: usize = 0;
    proof {
        messages::lemma_msg_views_len(items@);
        assert(vs.take(0) =~= Seq::<MsgView>::empty());
    }
    while i < items.len()
        invariant
            vs == messages::msg_views(items@),
            vs.len() == items@.len(),
            i <= items@.len(),
            style::line_views(out@) == all_lines(
                vs.take(i as int),
                width as nat,
                frame as nat,
                now,
            ),
        decreases items@.len() - i,
    {
        proof {
            messages::lemma_msg_views_index(items@, i as int);
            assert(vs.take(i + 1).drop_last() =~= vs.take(i as int));
            assert(vs.take(i + 1).last() == vs[i as int]);
        }
        add_item(&mut out, &items[i], width, frame, now);
        style::push_blank(&mut out);
        i += 1;
    }
    proof {
        assert(vs.take(i as int) =~= vs);
    }
    if busy {
        match busy_kind {
            BusyKind::Work => {
                let w = meter::wave_row(frame, 4);
                style::push_text_line(
                    &mut out,
                    text::cat3(w.as_str(), " ", "思考执行中…(Esc 中断)"),
                    Style::bold_of(Color::Blue),
                );
            },
            BusyKind::Compacting => {
                let c = text::of_char(meter::shrink_char(frame / 2));
                style::push_text_line(
                    &mut out,
                    text::cat3(
                        c.as_str(),
                        " ",
                        "压缩中(旧消息 → 摘要),不可中断,约数秒~数十秒",
                    ),
                    Style::bold_of(Color::Cyan),
                );
            },
        }
    }
    out
}

// ------------------------------------------------------------------------ laws

proof fn lemma_text_lines_len(segs: Seq<Seq<char>>, first: Seq<char>, next: Seq<char>, st: Style)
    ensures
        text_lines(segs, first, next, st).len() == segs.len(),
    decreases segs.len(),
{
    if segs.len() > 0 {
        lemma_text_lines_len(segs.drop_last(), first, next, st);
    }
}

proof fn lemma_led_lines_len(
    ls: Seq<Seq<SpanView>>,
    first: Seq<char>,
    next: Seq<char>,
    st: Style,
)
    ensures
        led_lines(ls, first, next, st).len() == ls.len(),
    decreases ls.len(),
{
    if ls.len() > 0 {
        lemma_led_lines_len(ls.drop_last(), first, next, st);
    }
}

/// A card stays short, however much was printed: two lines of its arguments, the last
/// ten rows and a title while it runs, and four rows of its output. What it printed
/// while it ran is no longer shown once it is done.
pub proof fn law_card_is_short(c: CardView, width: nat, frame: nat, now: u64)
    ensures
        args_lines(c, width).len() <= 2,
        live_lines(c, width).len() <= live::LIVE_ROWS + 1,
        c.ok is Some ==> live_lines(c, width).len() == 0,
        output_lines(c, width).len() <= OUTPUT_ROWS,
        card_lines(c, width, frame, now).len() <= 1 + 2 + (live::LIVE_ROWS + 1) + OUTPUT_ROWS,
{
    let dim = style::colored(Color::DarkGray);
    let w = less(width, 8);
    lemma_text_lines_len(
        at_most(md::wrapped(tool_args::summary_of(c.name, c.args), w), 2),
        "      "@,
        "        "@,
        dim,
    );
    let all = ansi::rendered(live::tail_lines(c.live, LIVE_LINES as nat), w, dim);
    lemma_led_lines_len(
        last_of(all, live::LIVE_ROWS as nat),
        "      "@,
        "      "@,
        style::plain(),
    );
    let out = ansi::rendered(settings::shortened(c.output, OUTPUT_CHARS as nat), w, dim);
    lemma_led_lines_len(
        at_most(out, OUTPUT_ROWS as nat),
        "      "@,
        "      "@,
        style::plain(),
    );
}

} // verus!
