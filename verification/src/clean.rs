//! Nothing that the message area draws holds a control character that a terminal
//! would obey.
use crate::ansi;
use crate::content;
use crate::live;
use crate::md;
use crate::messages::{CardView, MsgView};
use crate::meter;
use crate::scan;
use crate::settings;
use crate::style;
use crate::style::{Color, SpanView, Style};
use crate::text;
use crate::tool_args;
use crate::transcript::BusyKind;
use vstd::prelude::*;

verus! {

/// A character that a terminal draws, or a tab.
pub open spec fn is_drawn(c: char) -> bool {
    c == '\t' || !text::is_control(c)
}

/// A text of characters that a terminal draws.
pub open spec fn clean(s: Seq<char>) -> bool {
    forall|i: int| 0 <= i < s.len() ==> is_drawn(#[trigger] s[i])
}

/// A text of characters that a terminal draws, with line feeds between its lines.
pub open spec fn shown(s: Seq<char>) -> bool {
    forall|i: int| 0 <= i < s.len() ==> ansi::is_shown(#[trigger] s[i])
}

/// A line of such texts.
pub open spec fn shown_line(l: Seq<SpanView>) -> bool {
    forall|i: int| 0 <= i < l.len() ==> shown((#[trigger] l[i]).content)
}

/// Texts of characters that a terminal draws.
pub open spec fn clean_texts(v: Seq<Seq<char>>) -> bool {
    forall|i: int| 0 <= i < v.len() ==> clean(#[trigger] v[i])
}

/// A line of characters that a terminal draws.
pub open spec fn clean_line(l: Seq<SpanView>) -> bool {
    forall|i: int| 0 <= i < l.len() ==> clean((#[trigger] l[i]).content)
}

/// Lines of characters that a terminal draws.
pub open spec fn clean_lines(ls: Seq<Seq<SpanView>>) -> bool {
    forall|i: int| 0 <= i < ls.len() ==> clean_line(#[trigger] ls[i])
}

pub proof fn lemma_clean_part(s: Seq<char>, i: int, j: int)
    requires
        clean(s),
        0 <= i <= j <= s.len(),
    ensures
        clean(s.subrange(i, j)),
        clean(s.take(j)),
        clean(s.skip(i)),
{
    assert forall|k: int| 0 <= k < j - i implies is_drawn(#[trigger] s.subrange(i, j)[k]) by {
        assert(is_drawn(s[i + k]));
    }
    assert forall|k: int| 0 <= k < s.len() - i implies is_drawn(#[trigger] s.skip(i)[k]) by {
        assert(is_drawn(s[i + k]));
    }
}

proof fn lemma_clean_add(a: Seq<char>, b: Seq<char>)
    requires
        clean(a),
        clean(b),
    ensures
        clean(a + b),
{
    assert forall|k: int| 0 <= k < (a + b).len() implies is_drawn(#[trigger] (a + b)[k]) by {
        if k < a.len() {
            assert(is_drawn(a[k]));
        } else {
            assert(is_drawn(b[k - a.len()]));
        }
    }
}

proof fn lemma_clean_add_line(a: Seq<SpanView>, b: Seq<SpanView>)
    requires
        clean_line(a),
        clean_line(b),
    ensures
        clean_line(a + b),
{
    assert forall|k: int| 0 <= k < (a + b).len() implies clean((#[trigger] (a + b)[k]).content) by {
        if k < a.len() {
            assert(clean(a[k].content));
        } else {
            assert(clean(b[k - a.len()].content));
        }
    }
}

proof fn lemma_clean_add_lines(a: Seq<Seq<SpanView>>, b: Seq<Seq<SpanView>>)
    requires
        clean_lines(a),
        clean_lines(b),
    ensures
        clean_lines(a + b),
{
    assert forall|k: int| 0 <= k < (a + b).len() implies clean_line(#[trigger] (a + b)[k]) by {
        if k < a.len() {
            assert(clean_line(a[k]));
        } else {
            assert(clean_line(b[k - a.len()]));
        }
    }
}

// ---------------------------------------------------------------- cutting of texts

proof fn lemma_fields_clean(s: Seq<char>)
    requires
        forall|i: int| 0 <= i < s.len() ==> ansi::is_shown(#[trigger] s[i]),
    ensures
        clean_texts(scan::fields(s, '\n')),
    decreases s.len(),
{
    if s.len() > 0 {
        let t = s.drop_last();
        assert forall|i: int| 0 <= i < t.len() implies ansi::is_shown(#[trigger] t[i]) by {
            assert(ansi::is_shown(s[i]));
        }
        lemma_fields_clean(t);
        scan::lemma_fields_nonempty(t, '\n');
        let f = scan::fields(t, '\n');
        assert(clean(f[f.len() - 1]));
        assert(ansi::is_shown(s[s.len() - 1]));
        let g = scan::fields(s, '\n');
        assert forall|k: int| 0 <= k < g.len() implies clean(#[trigger] g[k]) by {
            if k < f.len() - 1 {
                assert(clean(f[k]));
            }
        }
    }
}

proof fn lemma_wrap_state_clean(s: Seq<char>, width: nat)
    requires
        forall|i: int| 0 <= i < s.len() ==> ansi::is_shown(#[trigger] s[i]),
    ensures
        clean_texts(md::wrap_state(s, width).done),
        clean(md::wrap_state(s, width).cur),
    decreases s.len(),
{
    if s.len() > 0 {
        let t = s.drop_last();
        assert forall|i: int| 0 <= i < t.len() implies ansi::is_shown(#[trigger] t[i]) by {
            assert(ansi::is_shown(s[i]));
        }
        lemma_wrap_state_clean(t, width);
        assert(ansi::is_shown(s[s.len() - 1]));
    }
}

proof fn lemma_wrapped_clean(s: Seq<char>, width: nat)
    ensures
        clean_texts(md::wrapped(s, width)),
{
    ansi::law_strip_leaves_no_controls(s);
    lemma_fields_clean(ansi::stripped(s));
    lemma_wrap_state_clean(ansi::stripped(s), width);
}

// ------------------------------------------------------------------------ markdown

proof fn lemma_inline_clean(
    s: Seq<char>,
    i: int,
    spans: Seq<SpanView>,
    plain: Seq<char>,
    base: Style,
)
    requires
        clean(s),
        clean_line(spans),
        clean(plain),
    ensures
        clean_line(md::inline_from(s, i, spans, plain, base)),
    decreases s.len() - i,
{
    let f = md::flushed(spans, plain, base);
    assert(clean_line(f));
    if 0 <= i < s.len() {
        assert(is_drawn(s[i]));
        match md::piece_at(s, i) {
            md::Piece::Plain => {
                lemma_inline_clean(s, i + 1, spans, plain.push(s[i]), base);
            },
            md::Piece::Code(k) => {
                if i < k < s.len() {
                    let span = style::sv(s.subrange(i + 1, k), md::code_style(base));
                    lemma_clean_part(s, i + 1, k);
                    lemma_inline_clean(s, k + 1, f.push(span), Seq::empty(), base);
                }
            },
            md::Piece::Bold(k) => {
                if i + 1 < k < s.len() - 1 {
                    let span = style::sv(s.subrange(i + 2, k), base.with_on(style::Modifier::Bold));
                    lemma_clean_part(s, i + 2, k);
                    lemma_inline_clean(s, k + 2, f.push(span), Seq::empty(), base);
                }
            },
            md::Piece::Italic(k) => {
                if i < k < s.len() {
                    let span = style::sv(
                        s.subrange(i + 1, k),
                        base.with_on(style::Modifier::Italic),
                    );
                    lemma_clean_part(s, i + 1, k);
                    lemma_inline_clean(s, k + 1, f.push(span), Seq::empty(), base);
                }
            },
            md::Piece::Link(k, m) => {
                if i < k && k + 1 < m < s.len() {
                    let t = s.subrange(k + 2, m);
                    let shown = style::sv(
                        s.subrange(i + 1, k),
                        base.with_on(style::Modifier::Underlined),
                    );
                    let address = style::sv(" ("@ + t + ")"@, md::address_style(base));
                    reveal_strlit(" (");
                    reveal_strlit(")");
                    lemma_clean_part(s, i + 1, k);
                    lemma_clean_part(s, k + 2, m);
                    lemma_clean_add(" ("@, t);
                    lemma_clean_add(" ("@ + t, ")"@);
                    lemma_inline_clean(s, m + 1, f.push(shown).push(address), Seq::empty(), base);
                }
            },
        }
    }
}

proof fn lemma_inlined_clean(s: Seq<char>, base: Style)
    requires
        clean(s),
    ensures
        clean_line(md::inlined(s, base)),
{
    lemma_inline_clean(s, 0, Seq::empty(), Seq::empty(), base);
}

proof fn lemma_marks_clean()
    ensures
        clean("■ "@),
        clean("• "@),
        clean("· "@),
        clean("│ "@),
        clean("  "@),
        clean(" "@),
        clean("      "@),
{
    reveal_strlit("■ ");
    reveal_strlit("• ");
    reveal_strlit("· ");
    reveal_strlit("│ ");
    reveal_strlit("  ");
    reveal_strlit(" ");
    reveal_strlit("      ");
}

proof fn lemma_trimmed_clean(s: Seq<char>)
    requires
        clean(s),
    ensures
        clean(scan::trimmed_start(s)),
        clean(scan::trimmed(s)),
{
    scan::lemma_skip_white(s, 0);
    lemma_clean_part(s, scan::skip_white(s, 0), s.len() as int);
    let t = scan::trimmed_start(s);
    scan::lemma_back_white(t, t.len() as int);
    lemma_clean_part(t, 0, scan::back_white(t, t.len() as int));
}

proof fn lemma_row_clean(line: Seq<char>)
    requires
        clean(line),
    ensures
        clean(md::row_of(line).text),
{
    let t = scan::trimmed(line);
    lemma_trimmed_clean(line);
    if t.len() > 0 {
        lemma_clean_part(t, 1, t.len() as int);
        lemma_trimmed_clean(t.skip(1));
    }
}

proof fn lemma_without_crs_clean(s: Seq<char>)
    requires
        clean(s),
    ensures
        clean(md::without_crs(s)),
    decreases s.len(),
{
    if s.len() > 0 {
        lemma_clean_part(s, 0, s.len() - 1);
        assert(s.drop_last() =~= s.take(s.len() - 1));
        lemma_without_crs_clean(s.drop_last());
    }
}

/// Rows whose texts a terminal draws.
pub open spec fn clean_rows(rows: Seq<md::RowView>) -> bool {
    forall|i: int| 0 <= i < rows.len() ==> clean((#[trigger] rows[i]).text)
}

proof fn lemma_parse_clean(ls: Seq<Seq<char>>)
    requires
        clean_texts(ls),
    ensures
        clean_rows(md::parse_lines(ls).rows),
    decreases ls.len(),
{
    if ls.len() > 0 {
        let t = ls.drop_last();
        assert forall|i: int| 0 <= i < t.len() implies clean(#[trigger] t[i]) by {
            assert(clean(ls[i]));
        }
        lemma_parse_clean(t);
        assert(clean(ls[ls.len() - 1]));
        lemma_without_crs_clean(ls.last());
        lemma_row_clean(md::without_crs(ls.last()));
    }
}

pub proof fn lemma_parsed_clean(s: Seq<char>)
    requires
        forall|i: int| 0 <= i < s.len() ==> ansi::is_shown(#[trigger] s[i]),
    ensures
        clean_rows(md::parsed(s)),
{
    lemma_fields_clean(s);
    scan::lemma_fields_nonempty(s, '\n');
    let f = scan::fields(s, '\n');
    let ls = scan::line_list(s);
    assert forall|i: int| 0 <= i < ls.len() implies clean(#[trigger] ls[i]) by {
        assert(clean(f[i]));
        if f[i].len() > 0 {
            lemma_clean_part(f[i], 0, f[i].len() - 1);
            assert(f[i].drop_last() =~= f[i].take(f[i].len() - 1));
        }
    }
    lemma_parse_clean(ls);
}

proof fn lemma_heading_clean(t: Seq<char>, level: u8, width: nat)
    ensures
        clean_lines(md::heading_lines(t, level, width)),
{
    lemma_marks_clean();
    let base = md::base_style(md::Kind::Heading(level));
    let mark = md::marker(level);
    let indent = text::repeated(' ', text::width(mark));
    let body = scan::trimmed_start(t.skip(md::hashes(t, 0)));
    let w = md::room(width, text::width(mark), 8);
    let segs = md::wrapped(body, w);
    lemma_wrapped_clean(body, w);
    assert(clean(indent));
    let ls = md::heading_lines(t, level, width);
    assert forall|i: int| 0 <= i < ls.len() implies clean_line(#[trigger] ls[i]) by {
        assert(clean(segs[i]));
        lemma_inlined_clean(segs[i], base);
        let head = if i == 0 {
            mark
        } else {
            indent
        };
        lemma_clean_add_line(style::one(head, base), md::inlined(segs[i], base));
    }
}

proof fn lemma_quote_clean(t: Seq<char>, width: nat)
    ensures
        clean_lines(md::quote_lines(t, width)),
{
    lemma_marks_clean();
    let base = md::base_style(md::Kind::Quote);
    let segs = md::wrapped(t, md::room(width, 2, 0));
    lemma_wrapped_clean(t, md::room(width, 2, 0));
    let ls = md::quote_lines(t, width);
    assert forall|i: int| 0 <= i < ls.len() implies clean_line(#[trigger] ls[i]) by {
        assert(clean(segs[i]));
        lemma_inlined_clean(segs[i], base);
        lemma_clean_add_line(style::one("│ "@, base), md::inlined(segs[i], base));
    }
}

pub proof fn lemma_find_white(s: Seq<char>, i: int)
    requires
        0 <= i <= s.len(),
    ensures
        i <= md::find_white(s, i) <= s.len(),
    decreases s.len() - i,
{
    if i < s.len() && !text::is_white(s[i]) {
        lemma_find_white(s, i + 1);
    }
}

proof fn lemma_item_clean(t: Seq<char>, width: nat)
    requires
        clean(t),
    ensures
        clean_lines(md::item_lines(t, width)),
{
    lemma_marks_clean();
    let base = md::base_style(md::Kind::List);
    let body = scan::trimmed_start(t);
    lemma_trimmed_clean(t);
    let end = md::find_white(body, 0);
    lemma_find_white(body, 0);
    let n = if end < 4 {
        end
    } else {
        4
    };
    lemma_clean_part(body, 0, n);
    let mark = body.take(n);
    lemma_clean_add("  "@, mark);
    lemma_clean_add("  "@ + mark, " "@);
    let rest = scan::trimmed_start(body.skip(end));
    let w = md::room(width, md::item_indent(mark), 8);
    let segs = md::wrapped(rest, w);
    lemma_wrapped_clean(rest, w);
    let ls = md::item_lines(t, width);
    assert forall|i: int| 0 <= i < ls.len() implies clean_line(#[trigger] ls[i]) by {
        assert(clean(segs[i]));
        lemma_inlined_clean(segs[i], base);
        let head = if i == 0 {
            "  "@ + mark + " "@
        } else {
            "      "@
        };
        lemma_clean_add_line(style::one(head, base), md::inlined(segs[i], base));
    }
}

proof fn lemma_draw_row_clean(out: Seq<Seq<SpanView>>, row: md::RowView, width: nat)
    requires
        clean_lines(out),
        clean(row.text),
    ensures
        clean_lines(md::draw_row(out, row, width)),
{
    let added = match row.kind {
        md::Kind::Code => {
            let w = md::room(width, 2, 0);
            lemma_wrapped_clean(row.text, w);
            let segs = md::wrapped(row.text, w);
            let ls = segs.map_values(|s: Seq<char>| style::one(s, style::colored(Color::Yellow)));
            assert forall|i: int| 0 <= i < ls.len() implies clean_line(#[trigger] ls[i]) by {
                assert(clean(segs[i]));
            }
            ls
        },
        md::Kind::Quote => {
            lemma_quote_clean(row.text, width);
            md::quote_lines(row.text, width)
        },
        md::Kind::List => {
            lemma_item_clean(row.text, width);
            md::item_lines(row.text, width)
        },
        md::Kind::Normal => {
            lemma_wrapped_clean(row.text, width);
            let segs = md::wrapped(row.text, width);
            let base = md::base_style(md::Kind::Normal);
            let ls = segs.map_values(
                |s: Seq<char>| md::inlined(s, md::base_style(md::Kind::Normal)),
            );
            assert forall|i: int| 0 <= i < ls.len() implies clean_line(#[trigger] ls[i]) by {
                assert(clean(segs[i]));
                lemma_inlined_clean(segs[i], base);
            }
            ls
        },
        md::Kind::Heading(level) => {
            lemma_heading_clean(row.text, level, width);
            md::heading_lines(row.text, level, width)
        },
        _ => Seq::empty(),
    };
    lemma_clean_add_lines(out, added);
}

proof fn lemma_draw_rows_clean(rows: Seq<md::RowView>, width: nat)
    requires
        clean_rows(rows),
    ensures
        clean_lines(md::draw_rows(rows, width)),
    decreases rows.len(),
{
    if rows.len() > 0 {
        let t = rows.drop_last();
        assert forall|i: int| 0 <= i < t.len() implies clean((#[trigger] t[i]).text) by {
            assert(clean(rows[i].text));
        }
        lemma_draw_rows_clean(t, width);
        assert(clean(rows[rows.len() - 1].text));
        lemma_draw_row_clean(md::draw_rows(t, width), rows.last(), width);
    }
}

proof fn lemma_without_blanks_clean(ls: Seq<Seq<SpanView>>)
    requires
        clean_lines(ls),
    ensures
        clean_lines(md::without_leading_blanks(ls)),
    decreases ls.len(),
{
    if ls.len() > 0 && ls[0].len() == 0 {
        let t = ls.skip(1);
        assert forall|i: int| 0 <= i < t.len() implies clean_line(#[trigger] t[i]) by {
            assert(clean_line(ls[i + 1]));
        }
        lemma_without_blanks_clean(t);
    }
}

/// Whatever text is drawn as markdown, a terminal finds nothing in it to obey.
pub proof fn law_markdown_is_clean(s: Seq<char>, width: nat)
    ensures
        clean_lines(md::rendered(s, width)),
{
    ansi::law_strip_leaves_no_controls(s);
    lemma_parsed_clean(ansi::stripped(s));
    let rows = md::parsed(ansi::stripped(s));
    lemma_draw_rows_clean(rows, width);
    lemma_without_blanks_clean(md::draw_rows(rows, width));
}

// -------------------------------------------------------------------- tool output

proof fn lemma_joined_clean(ts: Seq<Seq<char>>)
    requires
        clean_texts(ts),
    ensures
        clean(ansi::joined(ts)),
    decreases ts.len(),
{
    if ts.len() > 0 {
        let t = ts.drop_last();
        assert forall|i: int| 0 <= i < t.len() implies clean(#[trigger] t[i]) by {
            assert(clean(ts[i]));
        }
        lemma_joined_clean(t);
        assert(clean(ts[ts.len() - 1]));
        lemma_clean_add(ansi::joined(t), ts.last());
    }
}

proof fn lemma_line_text_clean(l: Seq<SpanView>)
    requires
        clean(style::line_text(l)),
    ensures
        clean_line(l),
    decreases l.len(),
{
    if l.len() > 0 {
        let a = style::line_text(l.drop_last());
        let b = l.last().content;
        lemma_clean_part(a + b, 0, a.len() as int);
        lemma_clean_part(a + b, a.len() as int, (a + b).len() as int);
        assert((a + b).take(a.len() as int) =~= a);
        assert((a + b).skip(a.len() as int) =~= b);
        lemma_line_text_clean(l.drop_last());
        assert forall|i: int| 0 <= i < l.len() implies clean((#[trigger] l[i]).content) by {
            if i < l.len() - 1 {
                assert(clean(l.drop_last()[i].content));
            }
        }
    }
}

proof fn lemma_flat_clean(ls: Seq<Seq<SpanView>>)
    requires
        clean(ansi::flat_text(ls)),
    ensures
        clean_lines(ls),
    decreases ls.len(),
{
    if ls.len() > 0 {
        let a = ansi::flat_text(ls.drop_last());
        let b = style::line_text(ls.last());
        lemma_clean_part(a + b, 0, a.len() as int);
        lemma_clean_part(a + b, a.len() as int, (a + b).len() as int);
        assert((a + b).take(a.len() as int) =~= a);
        assert((a + b).skip(a.len() as int) =~= b);
        lemma_flat_clean(ls.drop_last());
        lemma_line_text_clean(ls.last());
        assert forall|i: int| 0 <= i < ls.len() implies clean_line(#[trigger] ls[i]) by {
            if i < ls.len() - 1 {
                assert(clean_line(ls.drop_last()[i]));
            }
        }
    }
}

/// Whatever a command printed, a terminal finds nothing in it to obey once it is
/// drawn.
pub proof fn law_output_is_clean(s: Seq<char>, width: nat, base: Style)
    ensures
        clean_lines(ansi::rendered(s, width, base)),
{
    ansi::law_render_shows_stripped_text(s, width, base);
    ansi::law_strip_leaves_no_controls(s);
    lemma_fields_clean(ansi::stripped(s));
    lemma_joined_clean(scan::fields(ansi::stripped(s), '\n'));
    lemma_flat_clean(ansi::rendered(s, width, base));
}

// ----------------------------------------------------------------- the message area

proof fn lemma_text_lines_clean(
    segs: Seq<Seq<char>>,
    first: Seq<char>,
    next: Seq<char>,
    st: Style,
)
    requires
        clean_texts(segs),
        clean(first),
        clean(next),
    ensures
        clean_lines(content::text_lines(segs, first, next, st)),
    decreases segs.len(),
{
    if segs.len() > 0 {
        let t = segs.drop_last();
        assert forall|i: int| 0 <= i < t.len() implies clean(#[trigger] t[i]) by {
            assert(clean(segs[i]));
        }
        lemma_text_lines_clean(t, first, next, st);
        assert(clean(segs[segs.len() - 1]));
        lemma_clean_add(first, segs.last());
        lemma_clean_add(next, segs.last());
    }
}

proof fn lemma_led_lines_clean(
    ls: Seq<Seq<SpanView>>,
    first: Seq<char>,
    next: Seq<char>,
    st: Style,
)
    requires
        clean_lines(ls),
        clean(first),
        clean(next),
    ensures
        clean_lines(content::led_lines(ls, first, next, st)),
    decreases ls.len(),
{
    if ls.len() > 0 {
        let t = ls.drop_last();
        assert forall|i: int| 0 <= i < t.len() implies clean_line(#[trigger] t[i]) by {
            assert(clean_line(ls[i]));
        }
        lemma_led_lines_clean(t, first, next, st);
        assert(clean_line(ls[ls.len() - 1]));
        lemma_clean_add_line(style::one(first, st), ls.last());
        lemma_clean_add_line(style::one(next, st), ls.last());
    }
}

pub proof fn lemma_decimal_clean(n: nat)
    ensures
        clean(text::decimal(n)),
    decreases n,
{
    if n >= 10 {
        lemma_decimal_clean(n / 10);
    }
}

proof fn lemma_time_clean(c: CardView, now: u64)
    ensures
        clean(content::card_time(c, now)),
{
    reveal_strlit(" · ");
    reveal_strlit("s");
    reveal_strlit("min");
    reveal_strlit(" · 预算 ");
    reveal_strlit(" · 已超预算,宽限剩 ");
    assert(clean(Seq::<char>::empty()));
    if let Some(s) = c.done_secs {
        lemma_decimal_clean(s as nat);
        lemma_clean_add(" · "@, text::decimal(s as nat));
        lemma_clean_add(" · "@ + text::decimal(s as nat), "s"@);
    }
    if let Some(t) = c.started {
        let e = content::since(t, now);
        let d = text::decimal((e / 1000) as nat);
        lemma_decimal_clean((e / 1000) as nat);
        lemma_clean_add(" · "@, d);
        lemma_clean_add(" · "@ + d, "s"@);
        let head = " · "@ + d + "s"@;
        lemma_clean_add(head, Seq::<char>::empty());
        if let Some(ms) = c.idle_ms {
            let secs = (ms as nat) / 1000;
            lemma_decimal_clean(secs / 60);
            lemma_decimal_clean(secs);
            lemma_clean_add(text::decimal(secs / 60), "min"@);
            lemma_clean_add(text::decimal(secs), "s"@);
            let b = meter::budget_text(ms as nat);
            lemma_clean_add(" · 预算 "@, b);
            let left = content::less(content::grace(ms as nat), (e - ms) as nat) / 1000;
            lemma_decimal_clean(left);
            lemma_clean_add(" · 已超预算,宽限剩 "@, text::decimal(left));
            lemma_clean_add(" · 已超预算,宽限剩 "@ + text::decimal(left), "s"@);
            let over = if e > ms {
                " · 已超预算,宽限剩 "@ + text::decimal(left) + "s"@
            } else {
                Seq::<char>::empty()
            };
            lemma_clean_add(" · 预算 "@ + b, over);
            lemma_clean_add(head, " · 预算 "@ + b + over);
        }
    }
}

proof fn lemma_unbroken_clean(s: Seq<char>)
    requires
        shown(s),
    ensures
        clean(ansi::unbroken(s)),
    decreases s.len(),
{
    if s.len() > 0 {
        let t = s.drop_last();
        assert forall|i: int| 0 <= i < t.len() implies ansi::is_shown(#[trigger] t[i]) by {
            assert(t[i] == s[i]);
        }
        lemma_unbroken_clean(t);
        assert(ansi::is_shown(s[s.len() - 1]));
    }
}

proof fn lemma_card_clean(c: CardView, width: nat, frame: nat, now: u64)
    ensures
        clean_lines(content::card_lines(c, width, frame, now)),
{
    lemma_marks_clean();
    lemma_time_clean(c, now);
    reveal_strlit("✓");
    reveal_strlit("✗");
    reveal_strlit("        ");
    reveal_strlit("      ─────── 实时输出 ───────");
    let icon = content::card_icon(c.ok, frame);
    assert(clean(icon));
    lemma_clean_add("  "@, icon);
    lemma_clean_add("  "@ + icon, " "@);
    let name = ansi::unbroken(ansi::stripped(c.name));
    ansi::law_strip_leaves_no_controls(c.name);
    lemma_unbroken_clean(ansi::stripped(c.name));
    lemma_clean_add("  "@ + icon + " "@, name);
    lemma_clean_add("  "@ + icon + " "@ + name, content::card_time(c, now));
    let head = Seq::empty().push(
        style::one(
            content::card_head(c, frame, now),
            style::bold(content::card_color(c.ok, c.silent)),
        ),
    );
    assert(clean_lines(head));
    let dim = style::colored(Color::DarkGray);
    let w = content::less(width, 8);
    // the arguments
    let summary = tool_args::summary_of(c.name, c.args);
    lemma_wrapped_clean(summary, w);
    let segs = content::at_most(md::wrapped(summary, w), 2);
    assert(clean_texts(segs));
    lemma_text_lines_clean(segs, "      "@, "        "@, dim);
    lemma_clean_add_lines(head, content::args_lines(c, width));
    // the running output
    let tail = live::tail_lines(c.live, content::LIVE_LINES as nat);
    law_output_is_clean(tail, w, dim);
    let rows = content::last_of(ansi::rendered(tail, w, dim), live::LIVE_ROWS as nat);
    assert forall|i: int| 0 <= i < rows.len() implies clean_line(#[trigger] rows[i]) by {
        let all = ansi::rendered(tail, w, dim);
        assert(clean_line(all[i + (all.len() - rows.len())]));
    }
    lemma_led_lines_clean(rows, "      "@, "      "@, style::plain());
    let title = Seq::empty().push(style::one("      ─────── 实时输出 ───────"@, dim));
    assert(clean_lines(title));
    lemma_clean_add_lines(
        title,
        content::led_lines(rows, "      "@, "      "@, style::plain()),
    );
    lemma_clean_add_lines(head + content::args_lines(c, width), content::live_lines(c, width));
    // the output
    let shown = settings::shortened(c.output, content::OUTPUT_CHARS as nat);
    law_output_is_clean(shown, w, dim);
    let first = content::at_most(ansi::rendered(shown, w, dim), content::OUTPUT_ROWS as nat);
    assert forall|i: int| 0 <= i < first.len() implies clean_line(#[trigger] first[i]) by {
        assert(clean_line(ansi::rendered(shown, w, dim)[i]));
    }
    lemma_led_lines_clean(first, "      "@, "      "@, style::plain());
    lemma_clean_add_lines(
        head + content::args_lines(c, width) + content::live_lines(c, width),
        content::output_lines(c, width),
    );
}

proof fn lemma_banner_clean(n: nat)
    requires
        n <= content::LOGO_ROWS,
    ensures
        clean_lines(content::banner(n)),
    decreases n,
{
    if n > 0 {
        lemma_banner_clean((n - 1) as nat);
        reveal_strlit("░█████████ ░███    ░██    ░███    ░██████░███████   ░██████████");
        reveal_strlit("      ░██  ░████   ░██   ░██░██     ░██  ░██   ░██  ░██");
        reveal_strlit("     ░██   ░██░██  ░██  ░██  ░██    ░██  ░██    ░██ ░██");
        reveal_strlit("   ░███    ░██ ░██ ░██ ░█████████   ░██  ░██    ░██ ░█████████");
        reveal_strlit("  ░██      ░██  ░██░██ ░██    ░██   ░██  ░██    ░██ ░██");
        reveal_strlit(" ░██       ░██   ░████ ░██    ░██   ░██  ░██   ░██  ░██");
        reveal_strlit("░█████████ ░██    ░███ ░██    ░██ ░██████░███████   ░██████████");
        assert(clean(content::logo_row(n - 1)));
    }
}

proof fn lemma_item_lines_clean(m: MsgView, width: nat, frame: nat, now: u64)
    ensures
        clean_lines(content::item_lines(m, width, frame, now)),
{
    reveal_strlit("❯ 你: ");
    reveal_strlit("      ");
    reveal_strlit("… ");
    reveal_strlit("");
    reveal_strlit("ℹ ");
    reveal_strlit("   ");
    match m {
        MsgView::Logo => lemma_banner_clean(content::LOGO_ROWS as nat),
        MsgView::User(t) => {
            let w = content::less(width, 4);
            law_markdown_is_clean(t, w);
            lemma_led_lines_clean(
                md::rendered(t, w),
                "❯ 你: "@,
                "      "@,
                style::bold(Color::Cyan),
            );
        },
        MsgView::Assistant(t) => law_markdown_is_clean(t, width),
        MsgView::AssistantStream(t) => {
            law_markdown_is_clean(t.push(meter::pulse((frame / 2) as int)), width)
        },
        MsgView::Reasoning(t) => {
            let w = content::less(width, 2);
            lemma_wrapped_clean(t, w);
            lemma_text_lines_clean(
                md::wrapped(t, w),
                "… "@,
                ""@,
                style::colored(Color::DarkGray).with_on(style::Modifier::Italic),
            );
        },
        MsgView::Tool(c) => lemma_card_clean(c, width, frame, now),
        MsgView::Notice(t) => {
            let w = content::less(width, 2);
            lemma_wrapped_clean(t, w);
            lemma_text_lines_clean(
                md::wrapped(t, w),
                "ℹ "@,
                "   "@,
                style::colored(Color::Yellow),
            );
        },
        MsgView::CommandOutput(t) => {
            let w = content::less(width, 2);
            lemma_wrapped_clean(t, w);
            lemma_text_lines_clean(md::wrapped(t, w), ""@, ""@, style::colored(Color::Magenta));
        },
    }
}

proof fn lemma_busy_clean(kind: BusyKind, frame: nat)
    ensures
        clean_line(content::busy_line(kind, frame)),
{
    reveal_strlit(" ");
    reveal_strlit("思考执行中…(Esc 中断)");
    reveal_strlit("压缩中(旧消息 → 摘要),不可中断,约数秒~数十秒");
    let w = meter::wave(frame, 4);
    assert(clean(w));
    lemma_clean_add(w, " "@);
    lemma_clean_add(w + " "@, "思考执行中…(Esc 中断)"@);
    let c = seq![meter::shrinking((frame / 2) as int)];
    assert(clean(c));
    lemma_clean_add(c, " "@);
    lemma_clean_add(c + " "@, "压缩中(旧消息 → 摘要),不可中断,约数秒~数十秒"@);
}

proof fn lemma_all_lines_clean(items: Seq<MsgView>, width: nat, frame: nat, now: u64)
    ensures
        clean_lines(content::all_lines(items, width, frame, now)),
    decreases items.len(),
{
    if items.len() > 0 {
        let t = items.drop_last();
        lemma_all_lines_clean(t, width, frame, now);
        let last = items[items.len() - 1];
        lemma_item_lines_clean(last, width, frame, now);
        lemma_clean_add_lines(
            content::all_lines(t, width, frame, now),
            content::item_lines(last, width, frame, now),
        );
    }
}

/// Whatever was said, thought or printed, a terminal finds nothing to obey in what the
/// message area draws.
pub proof fn law_message_area_is_clean(
    items: Seq<MsgView>,
    busy: bool,
    kind: BusyKind,
    width: nat,
    frame: nat,
    now: u64,
)
    ensures
        clean_lines(content::content(items, busy, kind, width, frame, now)),
{
    lemma_all_lines_clean(items, width, frame, now);
    lemma_busy_clean(kind, frame);
}

} // verus!
