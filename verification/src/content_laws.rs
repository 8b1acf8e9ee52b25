//! What is drawn of the items of a conversation, and of numbers.

use crate::ansi;
use crate::content;
use crate::live;
use crate::md;
use crate::messages::{CardView, MsgView};
use crate::meter;
use crate::scan;
use crate::style;
use crate::style::{Color, Modifier, SpanView, Style};
use crate::text;
use crate::text_laws;
use crate::tool_args;
use crate::transcript::BusyKind;
use vstd::prelude::*;

verus! {

// ------------------------------------------------------------------------- lines

/// Lines that show texts in one style, the first behind one prefix and the others
/// behind another.
pub open spec fn shown_behind(
    ls: Seq<Seq<SpanView>>,
    first: Seq<char>,
    next: Seq<char>,
    st: Style,
    segs: Seq<Seq<char>>,
) -> bool {
    &&& ls.len() == segs.len()
    &&& forall|i: int|
        0 <= i < ls.len() ==> #[trigger] ls[i] == seq![
            style::sv(
                (if i == 0 {
                    first
                } else {
                    next
                }) + segs[i],
                st,
            ),
        ]
}

/// Lines that are others with a span in front of each: one in front of the first, and
/// another in front of the rest.
pub open spec fn led_by(
    ls: Seq<Seq<SpanView>>,
    first: Seq<char>,
    next: Seq<char>,
    st: Style,
    inner: Seq<Seq<SpanView>>,
) -> bool {
    &&& ls.len() == inner.len()
    &&& forall|i: int|
        0 <= i < ls.len() ==> #[trigger] ls[i] == seq![
            style::sv(
                if i == 0 {
                    first
                } else {
                    next
                },
                st,
            ),
        ] + inner[i]
}

proof fn lemma_text_lines(segs: Seq<Seq<char>>, first: Seq<char>, next: Seq<char>, st: Style)
    ensures
        shown_behind(content::text_lines(segs, first, next, st), first, next, st, segs),
    decreases segs.len(),
{
    if segs.len() > 0 {
        let t = segs.drop_last();
        lemma_text_lines(t, first, next, st);
        let x = content::text_lines(t, first, next, st);
        let ls = content::text_lines(segs, first, next, st);
        assert forall|i: int| 0 <= i < ls.len() implies #[trigger] ls[i] == seq![
            style::sv(
                (if i == 0 {
                    first
                } else {
                    next
                }) + segs[i],
                st,
            ),
        ] by {
            if i < x.len() {
                assert(ls[i] == x[i]);
                assert(t[i] == segs[i]);
            }
        }
    }
}

proof fn lemma_led_lines(ls: Seq<Seq<SpanView>>, first: Seq<char>, next: Seq<char>, st: Style)
    ensures
        led_by(content::led_lines(ls, first, next, st), first, next, st, ls),
    decreases ls.len(),
{
    if ls.len() > 0 {
        let t = ls.drop_last();
        lemma_led_lines(t, first, next, st);
        let x = content::led_lines(t, first, next, st);
        let r = content::led_lines(ls, first, next, st);
        assert forall|i: int| 0 <= i < r.len() implies #[trigger] r[i] == seq![
            style::sv(
                if i == 0 {
                    first
                } else {
                    next
                },
                st,
            ),
        ] + ls[i] by {
            if i < x.len() {
                assert(r[i] == x[i]);
                assert(t[i] == ls[i]);
            }
        }
    }
}

// ------------------------------------------------------------------------- items

/// A notice is shown whole: its lines, less what stands in front of them, make up its
/// text without its line feeds and without what a terminal would obey. So is a thought,
/// and so is what a command printed.
pub proof fn law_texts_are_shown_whole(t: Seq<char>, width: nat, frame: nat, now: u64) -> (segs: Seq<
    Seq<char>,
>)
    ensures
        ansi::joined(segs) == ansi::joined(scan::fields(ansi::stripped(t), '\n')),
        shown_behind(
            content::item_lines(MsgView::Notice(t), width, frame, now),
            "ℹ "@,
            "   "@,
            style::colored(Color::Yellow),
            segs,
        ),
        shown_behind(
            content::item_lines(MsgView::Reasoning(t), width, frame, now),
            "… "@,
            Seq::empty(),
            style::colored(Color::DarkGray).with_on(Modifier::Italic),
            segs,
        ),
        shown_behind(
            content::item_lines(MsgView::CommandOutput(t), width, frame, now),
            Seq::empty(),
            Seq::empty(),
            style::colored(Color::Magenta),
            segs,
        ),
{
    let segs = md::wrapped(t, content::less(width, 2));
    md::law_wrap_keeps_text(t, content::less(width, 2));
    reveal_strlit("");
    assert(""@ =~= Seq::<char>::empty());
    lemma_text_lines(segs, "ℹ "@, "   "@, style::colored(Color::Yellow));
    lemma_text_lines(
        segs,
        "… "@,
        ""@,
        style::colored(Color::DarkGray).with_on(Modifier::Italic),
    );
    lemma_text_lines(segs, ""@, ""@, style::colored(Color::Magenta));
    segs
}

/// What the user said is drawn as Markdown, four columns narrower, behind a mark; what
/// the model answers is drawn as Markdown over the whole width, and while it comes in
/// with one more character behind it.
pub proof fn law_talk_is_drawn_as_markdown(t: Seq<char>, width: nat, frame: nat, now: u64)
    ensures
        led_by(
            content::item_lines(MsgView::User(t), width, frame, now),
            "❯ 你: "@,
            "      "@,
            style::bold(Color::Cyan),
            md::rendered(
                t,
                if width >= 4 {
                    (width - 4) as nat
                } else {
                    0
                },
            ),
        ),
        md::rendered(t, width).len() > 0 ==> content::item_lines(
            MsgView::Assistant(t),
            width,
            frame,
            now,
        ) == md::rendered(t, width),
        md::rendered(t, width).len() == 0 ==> content::item_lines(
            MsgView::Assistant(t),
            width,
            frame,
            now,
        ) == seq![Seq::<SpanView>::empty()],
        exists|c: char| #[trigger]
            content::item_lines(MsgView::Assistant(t.push(c)), width, frame, now)
                == content::item_lines(MsgView::AssistantStream(t), width, frame, now),
{
    lemma_led_lines(
        md::rendered(t, content::less(width, 4)),
        "❯ 你: "@,
        "      "@,
        style::bold(Color::Cyan),
    );
    let c = meter::pulse((frame / 2) as int);
    assert(content::item_lines(MsgView::Assistant(t.push(c)), width, frame, now)
        == content::item_lines(MsgView::AssistantStream(t), width, frame, now));
}

/// The first line of a card shows the name of its tool, in the colour of how it stands:
/// green where it went well, red where it did not, and blue while it runs, or yellow
/// and red where it has been silent for long.
pub proof fn law_cards_show_their_tool(c: CardView, width: nat, frame: nat, now: u64)
    requires
        forall|i: int| 0 <= i < c.name.len() ==> '!' <= #[trigger] c.name[i] <= '~',
    ensures
        ({
            let l = content::card_lines(c, width, frame, now)[0];
            &&& l.len() == 1
            &&& scan::occurs(l[0].content, c.name)
            &&& l[0].style.fg == Some(
                match c.ok {
                    Some(true) => Color::Green,
                    Some(false) => Color::Red,
                    None => if c.silent == 0 {
                        Color::Blue
                    } else if c.silent == 1 {
                        Color::Yellow
                    } else if c.silent == 2 {
                        Color::Red
                    } else {
                        Color::Blue
                    },
                },
            )
            &&& c.ok == Some(true) ==> scan::occurs(l[0].content, "✓"@)
            &&& c.ok == Some(false) ==> scan::occurs(l[0].content, "✗"@)
            &&& scan::occurs(l[0].content, content::card_time(c, now))
        }),
{
    let n = c.name;
    assert forall|i: int| 0 <= i < n.len() implies ansi::is_shown(#[trigger] n[i]) by {}
    ansi::law_strip_keeps_clean_text(n);
    lemma_unbroken(n);
    let icon = content::card_icon(c.ok, frame);
    let time = content::card_time(c, now);
    let head = content::card_head(c, frame, now);
    let e = Seq::<char>::empty();
    assert(head == "  "@ + icon + " "@ + n + time);
    text_laws::law_parts_occur("  "@ + icon + " "@, n, time);
    text_laws::law_parts_occur("  "@ + icon + " "@ + n, time, e);
    assert("  "@ + icon + " "@ + n + time + e =~= head);
    text_laws::law_parts_occur("  "@, icon, " "@ + n + time);
    assert(head =~= "  "@ + icon + (" "@ + n + time));
    assert(content::card_lines(c, width, frame, now)[0] == style::one(
        head,
        style::bold(content::card_color(c.ok, c.silent)),
    ));
}

proof fn lemma_unbroken(s: Seq<char>)
    requires
        forall|i: int| 0 <= i < s.len() ==> '!' <= #[trigger] s[i] <= '~',
    ensures
        ansi::unbroken(s) == s,
    decreases s.len(),
{
    if s.len() > 0 {
        let t = s.drop_last();
        assert forall|i: int| 0 <= i < t.len() implies '!' <= #[trigger] t[i] <= '~' by {
            assert(t[i] == s[i]);
        }
        lemma_unbroken(t);
        assert(s[s.len() - 1] != '\n');
        assert(t.push(s.last()) =~= s);
    } else {
        assert(s =~= Seq::<char>::empty());
    }
}

/// Under its first line a card shows up to two lines of what the tool was called with,
/// while it runs the last ten lines of what it prints, and the first four lines of what
/// came out.
pub proof fn law_cards_show_what_came_out(c: CardView, width: nat, frame: nat, now: u64)
    requires
        width >= 8,
        c.output.len() <= 500,
    ensures
        ({
            let w = (width - 8) as nat;
            let dim = style::colored(Color::DarkGray);
            let ls = content::card_lines(c, width, frame, now);
            let segs = md::wrapped(tool_args::summary_of(c.name, c.args), w);
            let out = ansi::rendered(c.output, w, dim);
            let args = content::args_lines(c, width);
            let run = content::live_lines(c, width);
            let rest = content::output_lines(c, width);
            &&& ls == seq![ls[0]] + args + run + rest
            &&& tool_args::summary_of(c.name, c.args).len() == 0 ==> args.len() == 0
            &&& tool_args::summary_of(c.name, c.args).len() > 0 ==> shown_behind(
                args,
                "      "@,
                "        "@,
                dim,
                if segs.len() > 2 {
                    segs.take(2)
                } else {
                    segs
                },
            )
            &&& c.output.len() == 0 ==> rest.len() == 0
            &&& c.output.len() > 0 ==> led_by(
                rest,
                "      "@,
                "      "@,
                style::plain(),
                if out.len() > 4 {
                    out.take(4)
                } else {
                    out
                },
            )
            &&& c.ok is Some || c.live.len() == 0 ==> run.len() == 0
        }),
{
    let w = (width - 8) as nat;
    let dim = style::colored(Color::DarkGray);
    let segs = md::wrapped(tool_args::summary_of(c.name, c.args), w);
    lemma_text_lines(
        if segs.len() > 2 {
            segs.take(2)
        } else {
            segs
        },
        "      "@,
        "        "@,
        dim,
    );
    let out = ansi::rendered(c.output, w, dim);
    lemma_led_lines(
        if out.len() > 4 {
            out.take(4)
        } else {
            out
        },
        "      "@,
        "      "@,
        style::plain(),
    );
    let ls = content::card_lines(c, width, frame, now);
    let head = Seq::<Seq<SpanView>>::empty().push(
        style::one(
            content::card_head(c, frame, now),
            style::bold(content::card_color(c.ok, c.silent)),
        ),
    );
    assert(ls[0] == head[0]);
    assert(seq![ls[0]] =~= head);
}

/// While a tool runs and has printed something, its card shows a title and under it the
/// last ten rows of the last forty lines that it printed.
pub proof fn law_cards_show_what_is_printed(c: CardView, width: nat)
    requires
        width >= 8,
        c.ok is None,
        c.live.len() > 0,
    ensures
        ({
            let dim = style::colored(Color::DarkGray);
            let all = ansi::rendered(live::tail_lines(c.live, 40), (width - 8) as nat, dim);
            let run = content::live_lines(c, width);
            &&& run.len() >= 1
            &&& led_by(
                run.skip(1),
                "      "@,
                "      "@,
                style::plain(),
                if all.len() > 10 {
                    all.skip(all.len() - 10)
                } else {
                    all
                },
            )
        }),
{
    let dim = style::colored(Color::DarkGray);
    let all = ansi::rendered(live::tail_lines(c.live, 40), (width - 8) as nat, dim);
    let last = if all.len() > 10 {
        all.skip(all.len() - 10)
    } else {
        all
    };
    lemma_led_lines(last, "      "@, "      "@, style::plain());
    let run = content::live_lines(c, width);
    let led = content::led_lines(last, "      "@, "      "@, style::plain());
    assert(run.skip(1) =~= led);
}

/// A card says how many whole seconds its tool took, or has run so far; of one with a
/// budget it says how long that is, and of one that is over it, how many seconds of
/// grace are left: a fifth of the budget, and a minute at most.
pub proof fn law_cards_tell_the_time(c: CardView, t: u64, ms: u64, secs: u64, now: u64)
    requires
        t <= now,
    ensures
        c.ok is Some && c.done_secs == Some(secs) ==> content::card_time(c, now) == " · "@
            + text::decimal(secs as nat) + "s"@,
        c.ok is Some && c.done_secs is None ==> content::card_time(c, now).len() == 0,
        c.ok is None && c.started is None ==> content::card_time(c, now).len() == 0,
        c.ok is None && c.started == Some(t) && c.idle_ms is None ==> content::card_time(c, now)
            == " · "@ + text::decimal(((now - t) / 1000) as nat) + "s"@,
        c.ok is None && c.started == Some(t) && c.idle_ms == Some(ms) && now - t <= ms
            ==> content::card_time(c, now) == " · "@ + text::decimal(((now - t) / 1000) as nat)
            + "s"@ + " · 预算 "@ + meter::budget_text(ms as nat),
        c.ok is None && c.started == Some(t) && c.idle_ms == Some(ms) && now - t > ms ==> {
            let most = if ms / 5 < 60000 {
                (ms / 5) as int
            } else {
                60000
            };
            let over = now - t - ms;
            let left = if over <= most {
                (most - over) / 1000
            } else {
                0
            };
            content::card_time(c, now) == " · "@ + text::decimal(((now - t) / 1000) as nat)
                + "s"@ + " · 预算 "@ + meter::budget_text(ms as nat)
                + " · 已超预算,宽限剩 "@ + text::decimal(left as nat) + "s"@
        },
{
    let e = Seq::<char>::empty();
    let a = " · "@ + text::decimal(((now - t) / 1000) as nat) + "s"@;
    let b = " · 预算 "@ + meter::budget_text(ms as nat);
    assert(a + e =~= a);
    assert(a + (b + e) =~= a + " · 预算 "@ + meter::budget_text(ms as nat));
    if now - t > ms {
        let most = if ms / 5 < 60000 {
            (ms / 5) as int
        } else {
            60000
        };
        let over = now - t - ms;
        let left = if over <= most {
            (most - over) / 1000
        } else {
            0
        };
        let x = " · 已超预算,宽限剩 "@ + text::decimal(left as nat) + "s"@;
        assert(content::less(content::grace(ms as nat), over as nat) / 1000 == left as nat);
        assert(a + (b + x) =~= a + " · 预算 "@ + meter::budget_text(ms as nat)
            + " · 已超预算,宽限剩 "@ + text::decimal(left as nat) + "s"@);
    }
}

// ---------------------------------------------------------------------- the area

/// The items are drawn in their order, each with an empty line behind it, and while the
/// session is busy one more line stands behind them all.
pub proof fn law_items_are_drawn_in_order(
    v: Seq<MsgView>,
    m: MsgView,
    kind: BusyKind,
    width: nat,
    frame: nat,
    now: u64,
)
    ensures
        content::content(v.push(m), false, kind, width, frame, now) == content::content(
            v,
            false,
            kind,
            width,
            frame,
            now,
        ) + content::item_lines(m, width, frame, now) + seq![Seq::<SpanView>::empty()],
        content::content(Seq::empty(), false, kind, width, frame, now).len() == 0,
        ({
            let busy = content::content(v, true, kind, width, frame, now);
            &&& busy.len() > 0
            &&& busy.drop_last() == content::content(v, false, kind, width, frame, now)
            &&& scan::occurs(
                style::line_text(busy.last()),
                match kind {
                    BusyKind::Work => "思考执行中…(Esc 中断)"@,
                    BusyKind::Compacting =>
                        "压缩中(旧消息 → 摘要),不可中断,约数秒~数十秒"@,
                },
            )
        }),
{
    assert(v.push(m).drop_last() =~= v);
    let a = content::all_lines(v, width, frame, now);
    let b = content::item_lines(m, width, frame, now);
    assert((a + b).push(Seq::<SpanView>::empty()) =~= a + b + seq![Seq::<SpanView>::empty()]);
    let l = content::busy_line(kind, frame);
    assert(a.push(l).drop_last() =~= a);
    let t = match kind {
        BusyKind::Work => "思考执行中…(Esc 中断)"@,
        BusyKind::Compacting =>
            "压缩中(旧消息 → 摘要),不可中断,约数秒~数十秒"@,
    };
    let e = Seq::<char>::empty();
    let head = match kind {
        BusyKind::Work => meter::wave(frame, 4) + " "@,
        BusyKind::Compacting => seq![meter::shrinking((frame / 2) as int)] + " "@,
    };
    text_laws::law_parts_occur(head, t, e);
    assert(head + t + e =~= head + t);
    assert(l.len() == 1 && l[0].content == head + t);
    assert(l.drop_last() =~= Seq::<SpanView>::empty());
    assert(style::line_text(l.drop_last()) =~= e);
    assert(style::line_text(l) =~= head + t);
}

// ----------------------------------------------------------------------- numbers

/// A character that is not ASCII counts for one token, and four ASCII characters for
/// one, the last of which may be fewer.
pub proof fn law_tokens_are_estimated(s: Seq<char>, c: char)
    ensures
        (c as u32) >= 128 ==> meter::token_estimate(s.push(c)) == meter::token_estimate(s) + 1,
        (c as u32) < 128 ==> meter::token_estimate(s) <= meter::token_estimate(s.push(c))
            <= meter::token_estimate(s) + 1,
        (c as u32) < 128 ==> meter::token_estimate(s.push(c).push(c).push(c).push(c))
            == meter::token_estimate(s) + 1,
        meter::token_estimate(Seq::empty()) == 0,
        (c as u32) < 128 ==> meter::token_estimate(seq![c]) == 1,
{
    let e = Seq::<char>::empty();
    assert(s.push(c).drop_last() =~= s);
    assert(s.push(c).push(c).drop_last() =~= s.push(c));
    assert(s.push(c).push(c).push(c).drop_last() =~= s.push(c).push(c));
    assert(s.push(c).push(c).push(c).push(c).drop_last() =~= s.push(c).push(c).push(c));
    assert(seq![c].drop_last() =~= e);
    lemma_ascii(s);
    assert(meter::ascii_count(e) == 0);
    if (c as u32) < 128 {
        let n = meter::ascii_count(s);
        let s2 = s.push(c).push(c);
        assert(meter::ascii_count(s.push(c)) == n + 1);
        assert(meter::ascii_count(s2) == n + 2);
        assert(meter::ascii_count(s2.push(c)) == n + 3);
        assert(meter::ascii_count(s2.push(c).push(c)) == n + 4);
        assert((n + 4 + 3) / 4 == (n + 3) / 4 + 1);
    }
}

proof fn lemma_ascii(s: Seq<char>)
    ensures
        meter::ascii_count(s) <= s.len(),
    decreases s.len(),
{
    if s.len() > 0 {
        lemma_ascii(s.drop_last());
    }
}

/// The share that is used is the whole number of percent below it, and a hundred where
/// all is used.
pub proof fn law_share_is_measured(used: nat, window: nat)
    requires
        window > 0,
    ensures
        ({
            let p = meter::percent(used, window);
            &&& used < window ==> p * window <= used * 100 < p * window + window
            &&& used >= window ==> p == 100
        }),
{
    let q = used * 100 / window;
    vstd::arithmetic::div_mod::lemma_fundamental_div_mod((used * 100) as int, window as int);
    vstd::arithmetic::div_mod::lemma_mod_bound((used * 100) as int, window as int);
    assert(window * q == q * window) by (nonlinear_arith);
    if used < window {
        if q > 100 {
            assert(q * window >= 101 * window) by (nonlinear_arith)
                requires
                    q > 100,
            ;
        }
    } else {
        if q < 100 {
            assert(q * window <= 99 * window) by (nonlinear_arith)
                requires
                    q < 100,
            ;
        }
    }
}

/// The badge shows the share; every ten percent fill one of its cells, and it warns
/// from seventy percent on and alerts from ninety on.
#[verifier::rlimit(40)]
pub proof fn law_share_is_shown(p: nat)
    ensures
        scan::occurs(meter::badge_text(p), text::decimal(p) + "%"@),
        10 * meter::full_cells(p) - 5 <= p < 10 * meter::full_cells(p) + 5,
        p < 70 ==> meter::badge_color(p) == Color::DarkGray,
        70 <= p < 90 ==> meter::badge_color(p) == Color::Yellow,
        p >= 90 ==> meter::badge_color(p) == Color::Red,
{
    let f = meter::full_cells(p);
    let a = text::repeated('█', f);
    let b = text::repeated('░', (10 - f) as nat);
    let e = Seq::<char>::empty();
    let d = text::decimal(p) + "%"@;
    let head = "ctx "@ + a + b + " "@;
    text_laws::law_parts_occur(head, d, e);
    assert(head + d + e =~= head + text::decimal(p) + "%"@);
}

/// A budget of whole minutes is told in minutes, and any other in whole seconds.
pub proof fn law_budgets_are_told(m: nat, s: nat, r: nat)
    requires
        r < 1000,
        s < 60 || s % 60 != 0,
    ensures
        m > 0 ==> meter::budget_text(60000 * m + r) == text::decimal(m) + "min"@,
        meter::budget_text(1000 * s + r) == text::decimal(s) + "s"@,
{
    assert((60000 * m + r) / 1000 == 60 * m);
    assert((60 * m) % 60 == 0 && (60 * m) / 60 == m);
    assert((1000 * s + r) / 1000 == s);
}

/// Numbers of tokens below a thousand are told as they are.
pub proof fn law_small_numbers_are_told(n: nat)
    requires
        n < 1000,
    ensures
        meter::token_text(n) == text::decimal(n),
{
}

proof fn lemma_nearest(a: nat, b: nat)
    requires
        b > 0,
    ensures
        2 * (meter::nearest(a, b) * b) <= 2 * a + b,
        2 * a <= 2 * (meter::nearest(a, b) * b) + b,
{
    let q = a / b;
    let r = a % b;
    vstd::arithmetic::div_mod::lemma_fundamental_div_mod(a as int, b as int);
    vstd::arithmetic::div_mod::lemma_mod_bound(a as int, b as int);
    assert(b * q == q * b) by (nonlinear_arith);
    assert((q + 1) * b == q * b + b) by (nonlinear_arith);
}

proof fn lemma_raised(n: nat, a: nat, p: nat, least: nat)
    requires
        n > 0,
        p > 0,
        a == n * p,
    ensures
        ({
            let r = meter::raised(a, p, least);
            r.0 == n * r.1 && r.0 >= least && r.1 > 0
        }),
    decreases
            (if a < least {
                least - a
            } else {
                0
            }),
{
    assert(a > 0) by (nonlinear_arith)
        requires
            a == n * p,
            n > 0,
            p > 0,
    ;
    if a < least {
        assert(2 * a == n * (2 * p)) by (nonlinear_arith)
            requires
                a == n * p,
        ;
        lemma_raised(n, 2 * a, 2 * p, least);
    }
}

proof fn lemma_rounded(n: int, d: int, p: int, q: int, t: int)
    by (nonlinear_arith)
    requires
        d > 0,
        p > 10 * d,
        2 * (q * d) <= 2 * (n * p) + d,
        2 * (n * p) <= 2 * (q * d) + d,
        2 * (t * p) <= 20 * q + p,
        20 * q <= 2 * (t * p) + p,
    ensures
        2 * (t * d) <= 20 * n + d,
        20 * n <= 2 * (t * d) + d,
{
    assert((2 * (t * d) - 20 * n) * p == d * (2 * (t * p) - 20 * q) + 10 * (2 * (q * d) - 2 * (n
        * p)));
    assert(d * (2 * (t * p) - 20 * q) <= d * p);
    assert(d * (2 * (t * p) - 20 * q) >= -(d * p));
    assert((2 * (t * d) - 20 * n) * p <= d * p + 10 * d);
    assert((2 * (t * d) - 20 * n) * p >= -(d * p) - 10 * d);
    if 2 * (t * d) - 20 * n >= d + 1 {
        assert((2 * (t * d) - 20 * n) * p >= (d + 1) * p);
        assert((d + 1) * p == d * p + p);
    }
    if 2 * (t * d) - 20 * n <= -(d + 1) {
        assert((2 * (t * d) - 20 * n) * p <= -(d + 1) * p);
        assert(-(d + 1) * p == -(d * p) - p);
    }
}

proof fn lemma_tenths(n: nat, d: nat)
    requires
        0 < n,
        d == 1000 && n < 1000000 || d == 1000000 && n < 100000000000000,
    ensures
        2 * (meter::quotient_tenths(n, d) * d) <= 20 * n + d,
        20 * n <= 2 * (meter::quotient_tenths(n, d) * d) + d,
{
    let least = (d * (meter::EXACT / 2)) as nat;
    assert(meter::gap(n, 1) == 1);
    assert(n % 1 == 0 && n / 1 == n);
    assert(meter::nearest(n, 1) == n);
    assert(meter::as_double(n) == n);
    lemma_raised(n, n, 1, least);
    let r = meter::raised(n, 1, least);
    let p = r.1;
    assert(p > 10 * d) by {
        if p <= 10 * d {
            assert(n * p <= n * (10 * d)) by (nonlinear_arith)
                requires
                    p <= 10 * d,
            ;
            assert(meter::EXACT / 2 == 0x10_0000_0000_0000);
            if d == 1000 {
                assert(n * (10 * d) == 10000 * n) by (nonlinear_arith)
                    requires
                        d == 1000,
                ;
                assert(least == 1000 * 0x10_0000_0000_0000);
            } else {
                assert(n * (10 * d) == 10000000 * n) by (nonlinear_arith)
                    requires
                        d == 1000000,
                ;
                assert(least == 1000000 * 0x10_0000_0000_0000);
            }
        }
    }
    lemma_nearest(r.0, d);
    let q = meter::nearest(r.0, d);
    lemma_nearest(10 * q, p);
    let t = meter::nearest(10 * q, p);
    lemma_rounded(n as int, d as int, p as int, q as int, t as int);
}

/// Numbers of tokens from a thousand on are told in thousands, and from a million on in
/// millions, with one decimal, rounded to the nearest.
pub proof fn law_large_numbers_are_told(n: nat) -> (t: nat)
    requires
        1000 <= n < 100000000000000,
    ensures
        n < 1000000 ==> {
            &&& meter::token_text(n) == text::decimal(t / 10) + "."@ + text::decimal(t % 10)
                + "k"@
            &&& 1000 * t - 500 <= 10 * n <= 1000 * t + 500
        },
        n >= 1000000 ==> {
            &&& meter::token_text(n) == text::decimal(t / 10) + "."@ + text::decimal(t % 10)
                + "M"@
            &&& 1000000 * t - 500000 <= 10 * n <= 1000000 * t + 500000
        },
{
    if n < 1000000 {
        lemma_tenths(n, 1000);
        meter::quotient_tenths(n, 1000)
    } else {
        lemma_tenths(n, 1000000);
        meter::quotient_tenths(n, 1000000)
    }
}

/// The cell that pulses is lowest at its first frame and highest at its fifth, and
/// rises as it falls; the one that shrinks is widest at its first frame and narrowest
/// at its eighth, and grows as it shrinks.
pub proof fn law_cells_move(i: int)
    requires
        0 <= i <= 14,
    ensures
        meter::pulse(0) == '▁' && meter::pulse(4) == '█',
        i <= 8 ==> meter::pulse(8 - i) == meter::pulse(i),
        i < 4 ==> (meter::pulse(i) as u32) < (meter::pulse(i + 1) as u32),
        meter::shrinking(0) == '█' && meter::shrinking(7) == '▏',
        meter::shrinking(14 - i) == meter::shrinking(i),
        i < 7 ==> (meter::shrinking(i) as u32) < (meter::shrinking(i + 1) as u32),
{
}

} // verus!
