//! Cleaning and colouring text that may carry terminal control sequences.
//!
//! Text from a model, a command or a tool is shown only once it has passed
//! through here: [`strip`] takes every control sequence out, [`render_lines`]
//! turns the colour sequences into styles and takes out the rest.
use crate::scan;
use crate::style;
use crate::style::{Color, Line, Modifier, Span, SpanView, Style};
use crate::text;
use vstd::prelude::*;

verus! {

// ------------------------------------------------------- the control grammar

/// Where in a control sequence the next character stands.
#[derive(Clone, Copy, Debug, PartialEq, Eq, Structural)]
pub enum Scan {
    /// In no sequence.
    Text,
    /// Right behind `ESC`.
    Escape,
    /// In `ESC [ ...`, up to a final byte `@` to `~`.
    Csi,
    /// In `ESC ] ...`, up to `BEL` or `ESC \`.
    Osc,
    /// In `ESC ] ...`, right behind an `ESC`.
    OscEscape,
}

/// The final byte of a `ESC [` sequence.
pub open spec fn is_final(c: char) -> bool {
    0x40 <= (c as u32) <= 0x7e
}

/// Where the scan stands once `c` has been read.
pub open spec fn advance(at: Scan, c: char) -> Scan {
    match at {
        Scan::Text => if c == '\x1b' {
            Scan::Escape
        } else {
            Scan::Text
        },
        Scan::Escape => if c == '[' {
            Scan::Csi
        } else if c == ']' {
            Scan::Osc
        } else {
            Scan::Text
        },
        Scan::Csi => if is_final(c) {
            Scan::Text
        } else {
            Scan::Csi
        },
        Scan::Osc => if c == '\x07' {
            Scan::Text
        } else if c == '\x1b' {
            Scan::OscEscape
        } else {
            Scan::Osc
        },
        Scan::OscEscape => if c == '\x07' || c == '\\' {
            Scan::Text
        } else {
            Scan::Osc
        },
    }
}

/// Where the scan stands behind the text `s`.
pub open spec fn scan_state(s: Seq<char>) -> Scan
    decreases s.len(),
{
    if s.len() == 0 {
        Scan::Text
    } else {
        advance(scan_state(s.drop_last()), s.last())
    }
}

/// A character that may be shown: no control character but line feed and tab.
pub open spec fn is_shown(c: char) -> bool {
    c == '\n' || c == '\t' || !text::is_control(c)
}

/// The text without its control sequences and control characters: the shown
/// characters that stand in no sequence.
pub open spec fn stripped(s: Seq<char>) -> Seq<char>
    decreases s.len(),
{
    if s.len() == 0 {
        Seq::empty()
    } else {
        let rest = stripped(s.drop_last());
        if scan_state(s.drop_last()) == Scan::Text && is_shown(s.last()) {
            rest.push(s.last())
        } else {
            rest
        }
    }
}

fn next_scan(at: Scan, c: char) -> (r: Scan)
    ensures
        r == advance(at, c),
{
    let n: u32 = c as u32;
    match at {
        Scan::Text => if c == '\x1b' {
            Scan::Escape
        } else {
            Scan::Text
        },
        Scan::Escape => if c == '[' {
            Scan::Csi
        } else if c == ']' {
            Scan::Osc
        } else {
            Scan::Text
        },
        Scan::Csi => if 0x40 <= n && n <= 0x7e {
            Scan::Text
        } else {
            Scan::Csi
        },
        Scan::Osc => if c == '\x07' {
            Scan::Text
        } else if c == '\x1b' {
            Scan::OscEscape
        } else {
            Scan::Osc
        },
        Scan::OscEscape => if c == '\x07' || c == '\\' {
            Scan::Text
        } else {
            Scan::Osc
        },
    }
}

fn shown(c: char) -> (r: bool)
    ensures
        r == is_shown(c),
{
    c == '\n' || c == '\t' || !text::char_is_control(c)
}

/// Takes out every escape sequence and control character but `\n` and `\t`.
/// An unfinished sequence at the end goes too.
pub fn strip(text: &str) -> (r: String)
    ensures
        r@ == stripped(text@),
{
    let v = text::chars_of(text);
    let mut out = String::new();
    let mut at = Scan::Text;
    let mut i: usize = 0;
    proof {
        assert(text@.take(0) =~= Seq::<char>::empty());
    }
    while i < v.len()
        invariant
            v@ == text@,
            i <= v.len(),
            at == scan_state(text@.take(i as int)),
            out@ == stripped(text@.take(i as int)),
        decreases v.len() - i,
    {
        let c = v[i];
        proof {
            assert(text@.take(i + 1).drop_last() =~= text@.take(i as int));
            assert(text@.take(i + 1).last() == c);
        }
        if at == Scan::Text && shown(c) {
            out.push(c);
        }
        at = next_scan(at, c);
        i += 1;
    }
    proof {
        assert(text@.take(i as int) =~= text@);
    }
    out
}

/// What is left of any text holds no control character but `\n` and `\t`.
pub proof fn law_strip_leaves_no_controls(s: Seq<char>)
    ensures
        forall|i: int| 0 <= i < stripped(s).len() ==> is_shown(#[trigger] stripped(s)[i]),
    decreases s.len(),
{
    if s.len() > 0 {
        let t = s.drop_last();
        law_strip_leaves_no_controls(t);
        assert forall|i: int| 0 <= i < stripped(s).len() implies is_shown(
            #[trigger] stripped(s)[i],
        ) by {
            if i < stripped(t).len() {
                assert(stripped(s)[i] == stripped(t)[i]);
            }
        }
    }
}

/// A text that holds no control character but `\n` and `\t` stays as it is.
pub proof fn law_strip_keeps_clean_text(s: Seq<char>)
    requires
        forall|i: int| 0 <= i < s.len() ==> is_shown(#[trigger] s[i]),
    ensures
        stripped(s) == s,
        scan_state(s) == Scan::Text,
    decreases s.len(),
{
    if s.len() > 0 {
        let t = s.drop_last();
        assert forall|i: int| 0 <= i < t.len() implies is_shown(#[trigger] t[i]) by {
            assert(t[i] == s[i]);
        }
        law_strip_keeps_clean_text(t);
        assert(is_shown(s[s.len() - 1]));
        assert(t.push(s.last()) =~= s);
    } else {
        assert(stripped(s) =~= s);
    }
}

/// Stripping twice is stripping once.
pub proof fn law_strip_is_idempotent(s: Seq<char>)
    ensures
        stripped(stripped(s)) == stripped(s),
{
    law_strip_leaves_no_controls(s);
    law_strip_keeps_clean_text(stripped(s));
}

/// Where the characters stand in `s` that are left of it.
pub open spec fn kept(s: Seq<char>) -> Seq<int>
    decreases s.len(),
{
    if s.len() == 0 {
        Seq::empty()
    } else {
        let rest = kept(s.drop_last());
        if scan_state(s.drop_last()) == Scan::Text && is_shown(s.last()) {
            rest.push(s.len() - 1)
        } else {
            rest
        }
    }
}

/// What is left comes from the text, in order: there are places in the text, each
/// behind the one before, at which the characters of `stripped` stand.
pub proof fn law_strip_never_adds(s: Seq<char>)
    ensures
        kept(s).len() == stripped(s).len(),
        stripped(s).len() <= s.len(),
        forall|i: int|
            0 <= i < kept(s).len() ==> 0 <= #[trigger] kept(s)[i] < s.len() && s[kept(s)[i]]
                == stripped(s)[i],
        forall|i: int, j: int|
            0 <= i < j < kept(s).len() ==> #[trigger] kept(s)[i] < #[trigger] kept(s)[j],
    decreases s.len(),
{
    if s.len() > 0 {
        let t = s.drop_last();
        law_strip_never_adds(t);
        assert forall|i: int| 0 <= i < kept(s).len() implies 0 <= #[trigger] kept(s)[i] < s.len()
            && s[kept(s)[i]] == stripped(s)[i] by {
            if i < kept(t).len() {
                assert(kept(s)[i] == kept(t)[i]);
                assert(stripped(s)[i] == stripped(t)[i]);
            }
        }
        assert forall|i: int, j: int| 0 <= i < j < kept(s).len() implies #[trigger] kept(s)[i]
            < #[trigger] kept(s)[j] by {
            assert(kept(s)[i] == kept(t)[i]);
            if j < kept(t).len() {
                assert(kept(s)[j] == kept(t)[j]);
            }
        }
    }
}

// ------------------------------------------------------------------- one line

/// The characters of `s` that are no line feeds.
pub open spec fn unbroken(s: Seq<char>) -> Seq<char>
    decreases s.len(),
{
    if s.len() == 0 {
        Seq::empty()
    } else if s.last() == '\n' {
        unbroken(s.drop_last())
    } else {
        unbroken(s.drop_last()).push(s.last())
    }
}

/// Strips a text that stands on one line: its line feeds go too.
pub fn strip_line(text: &str) -> (r: String)
    ensures
        r@ == unbroken(stripped(text@)),
{
    let t = strip(text);
    let v = text::chars_of(t.as_str());
    let mut out = String::new();
    let mut i: usize = 0;
    proof {
        assert(t@.take(0) =~= Seq::<char>::empty());
    }
    while i < v.len()
        invariant
            v@ == t@,
            i <= v.len(),
            out@ == unbroken(t@.take(i as int)),
        decreases v.len() - i,
    {
        proof {
            assert(t@.take(i + 1).drop_last() =~= t@.take(i as int));
        }
        if v[i] != '\n' {
            out.push(v[i]);
        }
        i += 1;
    }
    proof {
        assert(t@.take(i as int) =~= t@);
    }
    out
}

// ---------------------------------------------------------------- drawn lines

/// A line with each of its texts stripped.
pub open spec fn stripped_line(l: Seq<SpanView>) -> Seq<SpanView> {
    Seq::new(l.len(), |i: int| style::sv(stripped(l[i].content), l[i].style))
}

/// Lines with each of their texts stripped.
pub open spec fn stripped_lines(ls: Seq<Seq<SpanView>>) -> Seq<Seq<SpanView>> {
    Seq::new(ls.len(), |i: int| stripped_line(ls[i]))
}

fn strip_spans(v: &Vec<Span>) -> (r: Vec<Span>)
    ensures
        style::span_views(r@) == stripped_line(style::span_views(v@)),
{
    let ghost all = stripped_line(style::span_views(v@));
    let mut r = style::no_spans();
    let mut i: usize = 0;
    proof {
        assert(style::span_views(r@) =~= all.take(0));
    }
    while i < v.len()
        invariant
            all == stripped_line(style::span_views(v@)),
            i <= v.len(),
            style::span_views(r@) == all.take(i as int),
        decreases v.len() - i,
    {
        proof {
            assert(style::span_views(v@)[i as int] == v@[i as int]@);
            assert(all.take(i + 1) =~= all.take(i as int).push(all[i as int]));
        }
        style::push_span(&mut r, strip(v[i].content.as_str()), v[i].style);
        i += 1;
    }
    proof {
        assert(all.take(i as int) =~= all);
    }
    r
}

/// Strips the texts of lines that are drawn.
pub fn strip_lines(ls: &Vec<Line>) -> (r: Vec<Line>)
    ensures
        style::line_views(r@) == stripped_lines(style::line_views(ls@)),
{
    let ghost all = stripped_lines(style::line_views(ls@));
    let mut r = style::no_lines();
    let mut i: usize = 0;
    proof {
        assert(style::line_views(r@) =~= all.take(0));
    }
    while i < ls.len()
        invariant
            all == stripped_lines(style::line_views(ls@)),
            i <= ls.len(),
            style::line_views(r@) == all.take(i as int),
        decreases ls.len() - i,
    {
        proof {
            assert(style::line_views(ls@)[i as int] == style::span_views(ls@[i as int].spans@));
            assert(all.take(i + 1) =~= all.take(i as int).push(all[i as int]));
        }
        style::push_line(&mut r, strip_spans(&ls[i].spans));
        i += 1;
    }
    proof {
        assert(all.take(i as int) =~= all);
    }
    r
}

// ------------------------------------------------------------ colour sequences

/// The colour with the number `n` of the eight basic ones.
pub open spec fn basic_color(n: int) -> Color {
    if n == 0 {
        Color::Black
    } else if n == 1 {
        Color::Red
    } else if n == 2 {
        Color::Green
    } else if n == 3 {
        Color::Yellow
    } else if n == 4 {
        Color::Blue
    } else if n == 5 {
        Color::Magenta
    } else if n == 6 {
        Color::Cyan
    } else {
        Color::Gray
    }
}

fn basic(n: u16) -> (c: Color)
    ensures
        c == basic_color(n as int),
{
    match n {
        0 => Color::Black,
        1 => Color::Red,
        2 => Color::Green,
        3 => Color::Yellow,
        4 => Color::Blue,
        5 => Color::Magenta,
        6 => Color::Cyan,
        _ => Color::Gray,
    }
}

/// The numbers among the fields of a parameter list; other fields are dropped.
pub open spec fn numbers(f: Seq<Seq<char>>) -> Seq<u16>
    decreases f.len(),
{
    if f.len() == 0 {
        Seq::empty()
    } else {
        match text::parse_number(f.last(), u16::MAX as nat) {
            Some(n) => numbers(f.drop_last()).push(n as u16),
            None => numbers(f.drop_last()),
        }
    }
}

/// The low byte of a parameter.
pub open spec fn low_byte(n: u16) -> u8 {
    (n % 256) as u8
}

/// The style with a foreground or a background colour set.
pub open spec fn with_color(style: Style, fg: bool, c: Option<Color>) -> Style {
    if fg {
        Style { fg: c, ..style }
    } else {
        Style { bg: c, ..style }
    }
}

/// What the parameter at `i` does to the style, and how many parameters it takes.
pub open spec fn sgr_one(style: Style, base: Style, p: Seq<u16>, i: int) -> (Style, int) {
    let n = p[i];
    if n == 0 {
        (base, 1)
    } else if n == 1 {
        (style.with_on(Modifier::Bold), 1)
    } else if n == 3 {
        (style.with_on(Modifier::Italic), 1)
    } else if n == 4 {
        (style.with_on(Modifier::Underlined), 1)
    } else if n == 7 {
        (style.with_on(Modifier::Reversed), 1)
    } else if n == 22 {
        (style.with_off(Modifier::Bold), 1)
    } else if n == 23 {
        (style.with_off(Modifier::Italic), 1)
    } else if n == 24 {
        (style.with_off(Modifier::Underlined), 1)
    } else if n == 27 {
        (style.with_off(Modifier::Reversed), 1)
    } else if 30 <= n <= 37 {
        (with_color(style, true, Some(basic_color(n - 30))), 1)
    } else if n == 39 {
        (with_color(style, true, None), 1)
    } else if 40 <= n <= 47 {
        (with_color(style, false, Some(basic_color(n - 40))), 1)
    } else if n == 49 {
        (with_color(style, false, None), 1)
    } else if 90 <= n <= 97 {
        (with_color(style, true, Some(basic_color(n - 90))), 1)
    } else if 100 <= n <= 107 {
        (with_color(style, false, Some(basic_color(n - 100))), 1)
    } else if n == 38 || n == 48 {
        if i + 2 < p.len() && p[i + 1] == 5 {
            (with_color(style, n == 38, Some(Color::Indexed(low_byte(p[i + 2])))), 3)
        } else if i + 4 < p.len() && p[i + 1] == 2 {
            let c = Color::Rgb(low_byte(p[i + 2]), low_byte(p[i + 3]), low_byte(p[i + 4]));
            (with_color(style, n == 38, Some(c)), 5)
        } else {
            (style, 2)
        }
    } else {
        (style, 1)
    }
}

/// The style once the parameters from `i` on have been applied.
pub open spec fn sgr_from(style: Style, base: Style, p: Seq<u16>, i: int) -> Style
    decreases p.len() - i,
{
    if i < 0 || i >= p.len() {
        style
    } else {
        let one = sgr_one(style, base, p, i);
        if i + one.1 >= p.len() {
            one.0
        } else {
            sgr_from(one.0, base, p, i + one.1)
        }
    }
}

/// The style behind `ESC [ raw m`: no parameter resets it to `base`.
pub open spec fn sgr(style: Style, base: Style, raw: Seq<char>) -> Style {
    let p = numbers(scan::fields(raw, ';'));
    if p.len() == 0 {
        base
    } else {
        sgr_from(style, base, p, 0)
    }
}

fn read_params(raw: &str) -> (r: Vec<u16>)
    ensures
        r@ == numbers(scan::fields(raw@, ';')),
{
    let f = scan::split(raw, ';');
    let ghost fs = scan::fields(raw@, ';');
    let mut r: Vec<u16> = Vec::new();
    let mut i: usize = 0;
    proof {
        assert(fs.take(0) =~= Seq::<Seq<char>>::empty());
    }
    while i < f.len()
        invariant
            fs == scan::texts(f@),
            i <= f.len(),
            r@ == numbers(fs.take(i as int)),
        decreases f.len() - i,
    {
        proof {
            assert(fs.take(i + 1).drop_last() =~= fs.take(i as int));
            assert(fs.take(i + 1).last() == f@[i as int]@);
        }
        match text::read_number(f[i].as_str(), 65535) {
            Some(n) => {
                r.push(n as u16);
            },
            None => {},
        }
        i += 1;
    }
    proof {
        assert(fs.take(i as int) =~= fs);
    }
    r
}

fn set_color(style: Style, fg: bool, c: Option<Color>) -> (r: Style)
    ensures
        r == with_color(style, fg, c),
{
    let mut s = style;
    if fg {
        s.fg = c;
    } else {
        s.bg = c;
    }
    s
}

fn step_sgr(style: Style, base: Style, p: &Vec<u16>, i: usize) -> (r: (Style, usize))
    requires
        i < p.len(),
    ensures
        (r.0, r.1 as int) == sgr_one(style, base, p@, i as int),
        1 <= r.1 <= 5,
{
    let n: u16 = p[i];
    let left: usize = p.len() - i;
    match n {
        0 => (base, 1),
        1 => (style.add_modifier(Modifier::Bold), 1),
        3 => (style.add_modifier(Modifier::Italic), 1),
        4 => (style.add_modifier(Modifier::Underlined), 1),
        7 => (style.add_modifier(Modifier::Reversed), 1),
        22 => (style.remove_modifier(Modifier::Bold), 1),
        23 => (style.remove_modifier(Modifier::Italic), 1),
        24 => (style.remove_modifier(Modifier::Underlined), 1),
        27 => (style.remove_modifier(Modifier::Reversed), 1),
        30..=37 => (set_color(style, true, Some(basic(n - 30))), 1),
        39 => (set_color(style, true, None), 1),
        40..=47 => (set_color(style, false, Some(basic(n - 40))), 1),
        49 => (set_color(style, false, None), 1),
        90..=97 => (set_color(style, true, Some(basic(n - 90))), 1),
        100..=107 => (set_color(style, false, Some(basic(n - 100))), 1),
        38 | 48 => {
            if left > 2 && p[i + 1] == 5 {
                let c = Color::Indexed((p[i + 2] % 256) as u8);
                (set_color(style, n == 38, Some(c)), 3)
            } else if left > 4 && p[i + 1] == 2 {
                let c = Color::Rgb(
                    (p[i + 2] % 256) as u8,
                    (p[i + 3] % 256) as u8,
                    (p[i + 4] % 256) as u8,
                );
                (set_color(style, n == 38, Some(c)), 5)
            } else {
                (style, 2)
            }
        },
        _ => (style, 1),
    }
}

/// The style behind a colour sequence with the parameters `raw`. Known are 0, 1,
/// 3, 4, 7 and their opposites, the basic and bright colours, 39 and 49, and the
/// 256-colour and true-colour forms of 38 and 48; the rest changes nothing.
pub fn apply_sgr(style: Style, base: Style, raw: &str) -> (r: Style)
    ensures
        r == sgr(style, base, raw@),
{
    let p = read_params(raw);
    if p.len() == 0 {
        return base;
    }
    let mut cur = style;
    let mut i: usize = 0;
    while i < p.len()
        invariant
            p@ == numbers(scan::fields(raw@, ';')),
            p.len() > 0,
            sgr_from(cur, base, p@, i as int) == sgr_from(style, base, p@, 0),
        decreases p.len() - i,
    {
        let (next, n) = step_sgr(cur, base, &p, i);
        cur = next;
        if n >= p.len() - i {
            return cur;
        }
        i = i + n;
    }
    cur
}

// ----------------------------------------------------------------------- rows

/// A text that is being taken apart into rows of styled segments.
#[verifier::ext_equal]
pub struct RowScan {
    pub at: Scan,
    /// The parameters of the colour sequence that is being read.
    pub params: Seq<char>,
    pub style: Style,
    pub done: Seq<Seq<SpanView>>,
    pub row: Seq<SpanView>,
    pub seg: Seq<char>,
}

/// A row with the open segment closed.
pub open spec fn closed_row(row: Seq<SpanView>, seg: Seq<char>, st: Style) -> Seq<SpanView> {
    if seg.len() == 0 {
        row
    } else {
        row.push(style::sv(seg, st))
    }
}

/// The start of a text: one row, still empty.
pub open spec fn row_start(base: Style) -> RowScan {
    RowScan {
        at: Scan::Text,
        params: Seq::empty(),
        style: base,
        done: Seq::empty(),
        row: Seq::empty(),
        seg: Seq::empty(),
    }
}

/// What one more character does.
pub open spec fn row_step(r: RowScan, base: Style, c: char) -> RowScan {
    let at = advance(r.at, c);
    if r.at == Scan::Text {
        if c == '\x1b' {
            RowScan {
                at,
                params: Seq::empty(),
                row: closed_row(r.row, r.seg, r.style),
                seg: Seq::empty(),
                ..r
            }
        } else if c == '\n' {
            RowScan {
                at,
                done: r.done.push(closed_row(r.row, r.seg, r.style)),
                row: Seq::empty(),
                seg: Seq::empty(),
                ..r
            }
        } else if is_shown(c) {
            RowScan { at, seg: r.seg.push(c), ..r }
        } else {
            RowScan { at, ..r }
        }
    } else if r.at == Scan::Csi {
        if c == 'm' {
            RowScan { at, style: sgr(r.style, base, r.params), ..r }
        } else if text::is_digit(c) || c == ';' || c == ':' {
            RowScan { at, params: r.params.push(c), ..r }
        } else {
            RowScan { at, ..r }
        }
    } else {
        RowScan { at, ..r }
    }
}

/// The state behind the text `s`.
pub open spec fn row_scan(s: Seq<char>, base: Style) -> RowScan
    decreases s.len(),
{
    if s.len() == 0 {
        row_start(base)
    } else {
        row_step(row_scan(s.drop_last(), base), base, s.last())
    }
}

/// The rows of a text: it is cut at each `\n`, and each row into segments of one
/// style. Empty rows stay.
pub open spec fn rows_of(s: Seq<char>, base: Style) -> Seq<Seq<SpanView>> {
    let r = row_scan(s, base);
    r.done.push(closed_row(r.row, r.seg, r.style))
}

fn close_row(row: &mut Vec<Span>, seg: String, st: Style)
    ensures
        style::span_views(final(row)@) == closed_row(style::span_views(old(row)@), seg@, st),
{
    if text::count_chars(seg.as_str()) > 0 {
        style::push_span(row, seg, st);
    }
}

/// Takes a text apart into rows of styled segments.
pub fn parse_rows(text: &str, base: Style) -> (r: Vec<Line>)
    ensures
        style::line_views(r@) == rows_of(text@, base),
{
    let v = text::chars_of(text);
    let mut at = Scan::Text;
    let mut params = String::new();
    let mut cur = base;
    let mut done = style::no_lines();
    let mut row = style::no_spans();
    let mut seg = String::new();
    let mut i: usize = 0;
    proof {
        assert(text@.take(0) =~= Seq::<char>::empty());
    }
    while i < v.len()
        invariant
            v@ == text@,
            i <= v.len(),
            row_scan(text@.take(i as int), base) == (RowScan {
                at,
                params: params@,
                style: cur,
                done: style::line_views(done@),
                row: style::span_views(row@),
                seg: seg@,
            }),
        decreases v.len() - i,
    {
        let c = v[i];
        proof {
            assert(text@.take(i + 1).drop_last() =~= text@.take(i as int));
            assert(text@.take(i + 1).last() == c);
        }
        match at {
            Scan::Text => {
                if c == '\x1b' {
                    close_row(&mut row, seg, cur);
                    seg = String::new();
                    params = String::new();
                } else if c == '\n' {
                    close_row(&mut row, seg, cur);
                    seg = String::new();
                    style::push_line(&mut done, row);
                    row = style::no_spans();
                } else if shown(c) {
                    seg.push(c);
                }
            },
            Scan::Csi => {
                if c == 'm' {
                    cur = apply_sgr(cur, base, params.as_str());
                } else if text::char_is_digit(c) || c == ';' || c == ':' {
                    params.push(c);
                }
            },
            _ => {},
        }
        at = next_scan(at, c);
        i += 1;
    }
    proof {
        assert(text@.take(i as int) =~= text@);
    }
    close_row(&mut row, seg, cur);
    style::push_line(&mut done, row);
    done
}

// ------------------------------------------------------------------- wrapping

/// One character and its style.
pub type Cell = (char, Style);

/// The cells of a text in one style.
pub open spec fn cells_of(s: Seq<char>, st: Style) -> Seq<Cell> {
    Seq::new(s.len(), |i: int| (s[i], st))
}

/// The cells of a row, one after the other.
pub open spec fn row_cells(row: Seq<SpanView>) -> Seq<Cell>
    decreases row.len(),
{
    if row.len() == 0 {
        Seq::empty()
    } else {
        row_cells(row.drop_last()) + cells_of(row.last().content, row.last().style)
    }
}

/// Columns that the cells take.
pub open spec fn cells_width(s: Seq<Cell>) -> nat
    decreases s.len(),
{
    if s.len() == 0 {
        0
    } else {
        cells_width(s.drop_last()) + text::char_width(s.last().0)
    }
}

/// Lines that are full, and the one that is being filled.
#[verifier::ext_equal]
pub struct CellWrap {
    pub done: Seq<Seq<Cell>>,
    pub cur: Seq<Cell>,
}

/// A cell goes to the current line, or to a new one where it does not fit.
pub open spec fn cell_step(s: CellWrap, c: Cell, width: nat) -> CellWrap {
    let w = text::char_width(c.0);
    if w > 0 && cells_width(s.cur) + w > width && s.cur.len() > 0 {
        CellWrap { done: s.done.push(s.cur), cur: seq![c] }
    } else {
        CellWrap { done: s.done, cur: s.cur.push(c) }
    }
}

/// The lines behind the given cells.
pub open spec fn cell_wrap(cs: Seq<Cell>, width: nat) -> CellWrap
    decreases cs.len(),
{
    if cs.len() == 0 {
        CellWrap { done: Seq::empty(), cur: Seq::empty() }
    } else {
        cell_step(cell_wrap(cs.drop_last(), width), cs.last(), width)
    }
}

/// The cells cut into lines of at most `width` columns.
pub open spec fn cell_lines(cs: Seq<Cell>, width: nat) -> Seq<Seq<Cell>> {
    let s = cell_wrap(cs, width);
    s.done.push(s.cur)
}

/// Neighbouring cells of one style make one span.
pub open spec fn runs(cs: Seq<Cell>) -> Seq<SpanView>
    decreases cs.len(),
{
    if cs.len() == 0 {
        Seq::empty()
    } else {
        let r = runs(cs.drop_last());
        let c = cs.last();
        if r.len() > 0 && r.last().style == c.1 {
            r.drop_last().push(style::sv(r.last().content.push(c.0), c.1))
        } else {
            r.push(style::sv(seq![c.0], c.1))
        }
    }
}

/// The lines that a row is drawn as. An empty row is one empty line; where the
/// width is two columns or less, the row stays one unstyled line.
pub open spec fn wrapped_row(row: Seq<SpanView>, width: nat) -> Seq<Seq<SpanView>> {
    if row.len() == 0 {
        seq![Seq::<SpanView>::empty()]
    } else if width <= 2 {
        seq![style::one(style::line_text(row), style::plain())]
    } else {
        cell_lines(row_cells(row), width).map_values(|l: Seq<Cell>| runs(l))
    }
}

proof fn lemma_runs_nonempty(cs: Seq<Cell>)
    ensures
        runs(cs).len() == 0 <==> cs.len() == 0,
{
}

fn push_cells(r: &mut Vec<Cell>, content: &str, st: Style)
    ensures
        final(r)@ == old(r)@ + cells_of(content@, st),
{
    let v = text::chars_of(content);
    let ghost all = cells_of(content@, st);
    let mut j: usize = 0;
    while j < v.len()
        invariant
            v@ == content@,
            j <= v.len(),
            all == cells_of(content@, st),
            r@ == old(r)@ + all.take(j as int),
        decreases v.len() - j,
    {
        r.push((v[j], st));
        proof {
            assert(all.take(j + 1) =~= all.take(j as int).push((v@[j as int], st)));
        }
        j += 1;
    }
    proof {
        assert(all.take(j as int) =~= all);
    }
}

fn flatten(row: &Vec<Span>) -> (r: Vec<Cell>)
    ensures
        r@ == row_cells(style::span_views(row@)),
{
    let ghost rv = style::span_views(row@);
    let mut r: Vec<Cell> = Vec::new();
    let mut i: usize = 0;
    proof {
        assert(rv.take(0) =~= Seq::<SpanView>::empty());
    }
    while i < row.len()
        invariant
            rv == style::span_views(row@),
            i <= row.len(),
            r@ == row_cells(rv.take(i as int)),
        decreases row.len() - i,
    {
        push_cells(&mut r, row[i].content.as_str(), row[i].style);
        proof {
            assert(rv.take(i + 1).drop_last() =~= rv.take(i as int));
            assert(rv.take(i + 1).last() == row@[i as int]@);
        }
        i += 1;
    }
    proof {
        assert(rv.take(i as int) =~= rv);
    }
    r
}

fn row_text(row: &Vec<Span>) -> (r: String)
    ensures
        r@ == style::line_text(style::span_views(row@)),
{
    let ghost rv = style::span_views(row@);
    let mut r = String::new();
    let mut i: usize = 0;
    proof {
        assert(rv.take(0) =~= Seq::<SpanView>::empty());
    }
    while i < row.len()
        invariant
            rv == style::span_views(row@),
            i <= row.len(),
            r@ == style::line_text(rv.take(i as int)),
        decreases row.len() - i,
    {
        r.append(row[i].content.as_str());
        proof {
            assert(rv.take(i + 1).drop_last() =~= rv.take(i as int));
            assert(rv.take(i + 1).last() == row@[i as int]@);
        }
        i += 1;
    }
    proof {
        assert(rv.take(i as int) =~= rv);
    }
    r
}

fn extend_runs(spans: &mut Vec<Span>, c: Cell, Ghost(cs): Ghost<Seq<Cell>>)
    requires
        style::span_views(old(spans)@) == runs(cs),
    ensures
        style::span_views(final(spans)@) == runs(cs.push(c)),
{
    proof {
        assert(cs.push(c).drop_last() =~= cs);
    }
    let n: usize = spans.len();
    if n > 0 && spans[n - 1].style == c.1 {
        let ghost before = spans@;
        let mut last = spans.pop().unwrap();
        last.content.push(c.0);
        spans.push(last);
        proof {
            assert(style::span_views(before).last() == before.last()@);
            assert(style::span_views(spans@) =~= runs(cs).drop_last().push(last@));
        }
    } else {
        let mut s = String::new();
        s.push(c.0);
        proof {
            assert(s@ =~= seq![c.0]);
            if n > 0 {
                assert(runs(cs).last() == spans@[n - 1]@);
            }
        }
        style::push_span(spans, s, c.1);
    }
}

/// Cuts a row into the lines that it is drawn as.
pub fn wrap_row(row: &Vec<Span>, width: u16) -> (r: Vec<Line>)
    ensures
        style::line_views(r@) == wrapped_row(style::span_views(row@), width as nat),
{
    let mut out = style::no_lines();
    if row.len() == 0 {
        style::push_blank(&mut out);
        return out;
    }
    if width <= 2 {
        style::push_text_line(&mut out, row_text(row), Style::new());
        return out;
    }
    let cells = flatten(row);
    let mut spans = style::no_spans();
    let ghost mut st = CellWrap { done: Seq::empty(), cur: Seq::empty() };
    let mut used: u32 = 0;
    let mut i: usize = 0;
    proof {
        assert(cells@.take(0) =~= Seq::<Cell>::empty());
        assert(st.done.map_values(|l: Seq<Cell>| runs(l)) =~= Seq::<Seq<SpanView>>::empty());
    }
    while i < cells.len()
        invariant
            2 < width,
            i <= cells.len(),
            st == cell_wrap(cells@.take(i as int), width as nat),
            used == cells_width(st.cur),
            used <= width,
            st.cur.len() == 0 ==> used == 0,
            style::span_views(spans@) == runs(st.cur),
            style::line_views(out@) == st.done.map_values(|l: Seq<Cell>| runs(l)),
        decreases cells.len() - i,
    {
        let c = cells[i];
        let w: u32 = text::wc(c.0) as u32;
        let ghost next = cell_step(st, c, width as nat);
        proof {
            assert(cells@.take(i + 1).drop_last() =~= cells@.take(i as int));
            assert(cells@.take(i + 1).last() == c);
            lemma_runs_nonempty(st.cur);
        }
        if w > 0 && used + w > width as u32 && spans.len() > 0 {
            let ghost before = out@;
            style::push_line(&mut out, spans);
            spans = style::no_spans();
            proof {
                assert(next.done.map_values(|l: Seq<Cell>| runs(l)) =~= st.done.map_values(
                    |l: Seq<Cell>| runs(l),
                ).push(runs(st.cur)));
                assert(Seq::<Cell>::empty().push(c) =~= seq![c]);
                assert(seq![c].drop_last() =~= Seq::<Cell>::empty());
                assert(cells_width(Seq::<Cell>::empty()) == 0);
            }
            extend_runs(&mut spans, c, Ghost(Seq::empty()));
            used = w;
        } else {
            proof {
                assert(st.cur.push(c).drop_last() =~= st.cur);
            }
            extend_runs(&mut spans, c, Ghost(st.cur));
            used = used + w;
        }
        proof {
            st = next;
        }
        i += 1;
    }
    proof {
        assert(cells@.take(i as int) =~= cells@);
        assert(cell_lines(cells@, width as nat).map_values(|l: Seq<Cell>| runs(l))
            =~= st.done.map_values(|l: Seq<Cell>| runs(l)).push(runs(st.cur)));
    }
    style::push_line(&mut out, spans);
    out
}

/// The lines that the rows are drawn as, one row after the other.
pub open spec fn wrapped_rows(rows: Seq<Seq<SpanView>>, width: nat) -> Seq<Seq<SpanView>>
    decreases rows.len(),
{
    if rows.len() == 0 {
        Seq::empty()
    } else {
        wrapped_rows(rows.drop_last(), width) + wrapped_row(rows.last(), width)
    }
}

/// The lines that a text is drawn as.
pub open spec fn rendered(s: Seq<char>, width: nat, base: Style) -> Seq<Seq<SpanView>> {
    wrapped_rows(rows_of(s, base), width)
}

/// Draws a text that may carry control sequences: colour sequences become styles
/// on top of `base`, everything else that is no text goes, and each row is cut at
/// `width` columns.
pub fn render_lines(text: &str, width: u16, base: Style) -> (r: Vec<Line>)
    ensures
        style::line_views(r@) == rendered(text@, width as nat, base),
{
    let rows = parse_rows(text, base);
    let ghost rv = style::line_views(rows@);
    let mut out = style::no_lines();
    let mut i: usize = 0;
    proof {
        assert(rv.take(0) =~= Seq::<Seq<SpanView>>::empty());
    }
    while i < rows.len()
        invariant
            rv == style::line_views(rows@),
            i <= rows.len(),
            style::line_views(out@) == wrapped_rows(rv.take(i as int), width as nat),
        decreases rows.len() - i,
    {
        proof {
            assert(rv.take(i + 1).drop_last() =~= rv.take(i as int));
            assert(rv.take(i + 1).last() == rows@[i as int]@);
        }
        let more = wrap_row(&rows[i].spans, width);
        style::append_lines(&mut out, more);
        i += 1;
    }
    proof {
        assert(rv.take(i as int) =~= rv);
    }
    out
}

// ----------------------------------------------------------------------- laws

/// The texts of the lines, one after the other.
pub open spec fn flat_text(ls: Seq<Seq<SpanView>>) -> Seq<char>
    decreases ls.len(),
{
    if ls.len() == 0 {
        Seq::empty()
    } else {
        flat_text(ls.drop_last()) + style::line_text(ls.last())
    }
}

/// Texts, one after the other.
pub open spec fn joined(ts: Seq<Seq<char>>) -> Seq<char>
    decreases ts.len(),
{
    if ts.len() == 0 {
        Seq::empty()
    } else {
        joined(ts.drop_last()) + ts.last()
    }
}

/// The texts of the lines.
pub open spec fn line_texts(ls: Seq<Seq<SpanView>>) -> Seq<Seq<char>> {
    ls.map_values(|l: Seq<SpanView>| style::line_text(l))
}

/// The characters of the cells.
pub open spec fn cell_chars(cs: Seq<Cell>) -> Seq<char> {
    cs.map_values(|c: Cell| c.0)
}

proof fn lemma_line_text_push(l: Seq<SpanView>, sp: SpanView)
    ensures
        style::line_text(l.push(sp)) == style::line_text(l) + sp.content,
{
    assert(l.push(sp).drop_last() =~= l);
}

proof fn lemma_closed_row_text(row: Seq<SpanView>, seg: Seq<char>, st: Style)
    ensures
        style::line_text(closed_row(row, seg, st)) == style::line_text(row) + seg,
{
    if seg.len() > 0 {
        lemma_line_text_push(row, style::sv(seg, st));
    } else {
        assert(style::line_text(row) + seg =~= style::line_text(row));
    }
}

pub proof fn lemma_row_scan(s: Seq<char>, base: Style)
    ensures
        row_scan(s, base).at == scan_state(s),
        scan::fields(stripped(s), '\n') == line_texts(row_scan(s, base).done).push(
            style::line_text(row_scan(s, base).row) + row_scan(s, base).seg,
        ),
    decreases s.len(),
{
    let r = row_scan(s, base);
    if s.len() == 0 {
        assert(line_texts(r.done).push(style::line_text(r.row) + r.seg) =~= seq![
            Seq::<char>::empty(),
        ]);
    } else {
        let t = s.drop_last();
        let c = s.last();
        let q = row_scan(t, base);
        lemma_row_scan(t, base);
        let f = line_texts(q.done).push(style::line_text(q.row) + q.seg);
        lemma_closed_row_text(q.row, q.seg, q.style);
        if scan_state(t) == Scan::Text {
            if c == '\x1b' {
                assert(style::line_text(r.row) + r.seg =~= style::line_text(q.row) + q.seg);
            } else if is_shown(c) {
                assert(stripped(s).drop_last() =~= stripped(t));
                assert(stripped(s).last() == c);
                assert(f.drop_last() =~= line_texts(q.done));
                if c == '\n' {
                    assert(line_texts(r.done) =~= line_texts(q.done).push(
                        style::line_text(q.row) + q.seg,
                    ));
                    assert(style::line_text(r.row) + r.seg =~= Seq::<char>::empty());
                } else {
                    assert(f.last().push(c) =~= style::line_text(r.row) + r.seg);
                }
            }
        }
    }
}

/// The rows of a text are the lines of the stripped text: nothing that
/// [`strip`] takes out is drawn, and nothing else is lost.
pub proof fn law_rows_hold_stripped_text(s: Seq<char>, base: Style)
    ensures
        line_texts(rows_of(s, base)) == scan::fields(stripped(s), '\n'),
{
    lemma_row_scan(s, base);
    let r = row_scan(s, base);
    lemma_closed_row_text(r.row, r.seg, r.style);
    assert(line_texts(rows_of(s, base)) =~= line_texts(r.done).push(
        style::line_text(r.row) + r.seg,
    ));
}

proof fn lemma_runs_text(cs: Seq<Cell>)
    ensures
        style::line_text(runs(cs)) == cell_chars(cs),
        text::width(cell_chars(cs)) == cells_width(cs),
    decreases cs.len(),
{
    if cs.len() == 0 {
        assert(cell_chars(cs) =~= Seq::<char>::empty());
    } else {
        let t = cs.drop_last();
        let c = cs.last();
        let r = runs(t);
        lemma_runs_text(t);
        assert(cell_chars(cs) =~= cell_chars(t).push(c.0));
        text::lemma_width_push(cell_chars(t), c.0);
        if r.len() > 0 && r.last().style == c.1 {
            let sp = style::sv(r.last().content.push(c.0), c.1);
            lemma_line_text_push(r.drop_last(), sp);
            assert(style::line_text(r) == style::line_text(r.drop_last()) + r.last().content);
            assert(style::line_text(r.drop_last()) + sp.content =~= style::line_text(r).push(c.0));
        } else {
            lemma_line_text_push(r, style::sv(seq![c.0], c.1));
            assert(style::line_text(r) + seq![c.0] =~= style::line_text(r).push(c.0));
        }
    }
}

proof fn lemma_row_cells_text(row: Seq<SpanView>)
    ensures
        cell_chars(row_cells(row)) == style::line_text(row),
    decreases row.len(),
{
    if row.len() == 0 {
        assert(cell_chars(row_cells(row)) =~= Seq::<char>::empty());
    } else {
        lemma_row_cells_text(row.drop_last());
        let a = row_cells(row.drop_last());
        let l = row.last();
        let b = cells_of(l.content, l.style);
        assert(cell_chars(a + b) =~= cell_chars(a) + cell_chars(b));
        assert(cell_chars(b) =~= l.content);
    }
}

/// The cells of the lines, one after the other.
pub open spec fn flat_cells(ls: Seq<Seq<Cell>>) -> Seq<Cell>
    decreases ls.len(),
{
    if ls.len() == 0 {
        Seq::empty()
    } else {
        flat_cells(ls.drop_last()) + ls.last()
    }
}

pub proof fn lemma_cell_wrap(cs: Seq<Cell>, width: nat)
    requires
        width >= 2,
    ensures
        flat_cells(cell_lines(cs, width)) == cs,
        forall|i: int|
            0 <= i < cell_lines(cs, width).len() ==> cells_width(
                #[trigger] cell_lines(cs, width)[i],
            ) <= width,
        cells_width(cell_wrap(cs, width).cur) <= width,
        cs.len() > 0 ==> cell_wrap(cs, width).cur.len() > 0,
    decreases cs.len(),
{
    let s = cell_wrap(cs, width);
    assert(s.done.push(s.cur).drop_last() =~= s.done);
    if cs.len() == 0 {
        assert(flat_cells(s.done) == Seq::<Cell>::empty());
        assert(flat_cells(cell_lines(cs, width)) =~= cs);
    } else {
        let t = cs.drop_last();
        let c = cs.last();
        let q = cell_wrap(t, width);
        lemma_cell_wrap(t, width);
        assert(q.done.push(q.cur).drop_last() =~= q.done);
        let w = text::char_width(c.0);
        assert forall|i: int| 0 <= i < cell_lines(cs, width).len() implies cells_width(
            #[trigger] cell_lines(cs, width)[i],
        ) <= width by {
            if i < q.done.len() {
                assert(cell_lines(t, width)[i] == cell_lines(cs, width)[i]);
            } else if i == q.done.len() && w > 0 && cells_width(q.cur) + w > width && q.cur.len()
                > 0 {
                assert(cell_lines(cs, width)[i] == q.cur);
            } else {
                assert(cell_lines(cs, width)[i] == s.cur);
                if s.cur == seq![c] {
                    assert(seq![c].drop_last() =~= Seq::<Cell>::empty());
                    assert(cells_width(Seq::<Cell>::empty()) == 0);
                } else {
                    assert(q.cur.push(c).drop_last() =~= q.cur);
                }
            }
        }
        if w > 0 && cells_width(q.cur) + w > width && q.cur.len() > 0 {
            assert(s.done == q.done.push(q.cur));
            assert(flat_cells(s.done) + s.cur =~= t.push(c));
        } else {
            assert(flat_cells(s.done) + s.cur =~= (flat_cells(q.done) + q.cur).push(c));
        }
        assert(cell_lines(cs, width)[cell_lines(cs, width).len() - 1] == s.cur);
        assert(t.push(c) =~= cs);
    }
}

proof fn lemma_flat_runs(ls: Seq<Seq<Cell>>)
    ensures
        flat_text(ls.map_values(|l: Seq<Cell>| runs(l))) == cell_chars(flat_cells(ls)),
    decreases ls.len(),
{
    let m = ls.map_values(|l: Seq<Cell>| runs(l));
    if ls.len() == 0 {
        assert(flat_text(m) =~= cell_chars(flat_cells(ls)));
    } else {
        let t = ls.drop_last();
        lemma_flat_runs(t);
        lemma_runs_text(ls.last());
        assert(m.drop_last() =~= t.map_values(|l: Seq<Cell>| runs(l)));
        assert(cell_chars(flat_cells(t) + ls.last()) =~= cell_chars(flat_cells(t)) + cell_chars(
            ls.last(),
        ));
    }
}

/// Cutting a row loses and adds nothing.
pub proof fn law_wrap_row_keeps_text(row: Seq<SpanView>, width: nat)
    ensures
        flat_text(wrapped_row(row, width)) == style::line_text(row),
        wrapped_row(row, width).len() >= 1,
{
    if row.len() == 0 || width <= 2 {
        let t = wrapped_row(row, width);
        assert(t.drop_last() =~= Seq::<Seq<SpanView>>::empty());
        assert(flat_text(Seq::<Seq<SpanView>>::empty()) == Seq::<char>::empty());
        if row.len() == 0 {
            assert(flat_text(t) =~= style::line_text(row));
        } else {
            let o = style::one(style::line_text(row), style::plain());
            assert(o.drop_last() =~= Seq::<SpanView>::empty());
            assert(style::line_text(Seq::<SpanView>::empty()) == Seq::<char>::empty());
            assert(style::line_text(o) =~= style::line_text(row));
            assert(flat_text(t) =~= style::line_text(row));
        }
    } else {
        lemma_cell_wrap(row_cells(row), width);
        lemma_flat_runs(cell_lines(row_cells(row), width));
        lemma_row_cells_text(row);
    }
}

/// No line that a row is cut into is wider than the given width, unless that is
/// two columns or less.
pub proof fn law_wrap_row_fits(row: Seq<SpanView>, width: nat, i: int)
    requires
        width > 2,
        0 <= i < wrapped_row(row, width).len(),
    ensures
        text::width(style::line_text(wrapped_row(row, width)[i])) <= width,
{
    if row.len() > 0 {
        let ls = cell_lines(row_cells(row), width);
        lemma_cell_wrap(row_cells(row), width);
        lemma_runs_text(ls[i]);
    }
}

proof fn lemma_flat_text_add(a: Seq<Seq<SpanView>>, b: Seq<Seq<SpanView>>)
    ensures
        flat_text(a + b) == flat_text(a) + flat_text(b),
    decreases b.len(),
{
    if b.len() == 0 {
        assert(a + b =~= a);
        assert(flat_text(a) + flat_text(b) =~= flat_text(a));
    } else {
        lemma_flat_text_add(a, b.drop_last());
        assert((a + b).drop_last() =~= a + b.drop_last());
        assert(flat_text(a + b) =~= flat_text(a) + flat_text(b));
    }
}

proof fn lemma_wrapped_rows_text(rows: Seq<Seq<SpanView>>, width: nat)
    ensures
        flat_text(wrapped_rows(rows, width)) == joined(line_texts(rows)),
        wrapped_rows(rows, width).len() >= rows.len(),
    decreases rows.len(),
{
    if rows.len() > 0 {
        let t = rows.drop_last();
        lemma_wrapped_rows_text(t, width);
        law_wrap_row_keeps_text(rows.last(), width);
        lemma_flat_text_add(wrapped_rows(t, width), wrapped_row(rows.last(), width));
        assert(line_texts(rows).drop_last() =~= line_texts(t));
    }
}

/// What is drawn is the stripped text without its line feeds, at every width and
/// on every base style, and every line of the text takes at least one line.
pub proof fn law_render_shows_stripped_text(s: Seq<char>, width: nat, base: Style)
    ensures
        flat_text(rendered(s, width, base)) == joined(scan::fields(stripped(s), '\n')),
        rendered(s, width, base).len() >= scan::fields(stripped(s), '\n').len(),
{
    law_rows_hold_stripped_text(s, base);
    lemma_wrapped_rows_text(rows_of(s, base), width);
}

proof fn lemma_wrapped_rows_fit(rows: Seq<Seq<SpanView>>, width: nat, i: int)
    requires
        width > 2,
        0 <= i < wrapped_rows(rows, width).len(),
    ensures
        text::width(style::line_text(wrapped_rows(rows, width)[i])) <= width,
    decreases rows.len(),
{
    if rows.len() > 0 {
        let n = wrapped_rows(rows.drop_last(), width).len();
        if i < n {
            lemma_wrapped_rows_fit(rows.drop_last(), width, i);
        } else {
            law_wrap_row_fits(rows.last(), width, i - n);
        }
    }
}

/// No drawn line is wider than the given width, unless that is two columns or
/// less.
pub proof fn law_render_fits(s: Seq<char>, width: nat, base: Style, i: int)
    requires
        width > 2,
        0 <= i < rendered(s, width, base).len(),
    ensures
        text::width(style::line_text(rendered(s, width, base)[i])) <= width,
{
    lemma_wrapped_rows_fit(rows_of(s, base), width, i);
}

} // verus!
