//! What control sequences do: which are taken out of a text, and what colour sequences
//! make of what follows them.
use crate::ansi;
use crate::ansi::{Cell, Scan};
use crate::scan;
use crate::style;
use crate::style::{Color, SpanView, Style};
use crate::text;
use crate::text_laws;
use vstd::prelude::*;

verus! {

// ---------------------------------------------------------------------- parameters

/// Whether a list of parameters holds a number.
pub open spec fn has_number(raw: Seq<char>) -> bool {
    exists|i: int|
        0 <= i < scan::fields(raw, ';').len() && text::parse_number(
            #[trigger] scan::fields(raw, ';')[i],
            65535,
        ) is Some
}

proof fn lemma_numbers_front(x: Seq<char>, f: Seq<Seq<char>>)
    ensures
        ansi::numbers(seq![x] + f) == (match text::parse_number(x, 65535) {
            Some(n) => seq![n as u16],
            None => Seq::empty(),
        }) + ansi::numbers(f),
    decreases f.len(),
{
    let all = seq![x] + f;
    if f.len() == 0 {
        assert(all.drop_last() =~= Seq::<Seq<char>>::empty());
        assert(all.last() == x);
        assert(ansi::numbers(all.drop_last()) =~= Seq::<u16>::empty());
        assert(ansi::numbers(all) =~= (match text::parse_number(x, 65535) {
            Some(n) => seq![n as u16],
            None => Seq::empty(),
        }) + ansi::numbers(f));
    } else {
        lemma_numbers_front(x, f.drop_last());
        assert(all.drop_last() =~= seq![x] + f.drop_last());
        assert(all.last() == f.last());
        assert(ansi::numbers(all) =~= (match text::parse_number(x, 65535) {
            Some(n) => seq![n as u16],
            None => Seq::empty(),
        }) + ansi::numbers(f));
    }
}

proof fn lemma_numbers_some(f: Seq<Seq<char>>, i: int)
    requires
        0 <= i < f.len(),
        text::parse_number(f[i], 65535) is Some,
    ensures
        ansi::numbers(f).len() > 0,
    decreases f.len(),
{
    if i < f.len() - 1 {
        assert(f.drop_last()[i] == f[i]);
        lemma_numbers_some(f.drop_last(), i);
    }
}

proof fn lemma_sgr_shift(style: Style, base: Style, n: u16, p: Seq<u16>, i: int)
    requires
        0 <= i <= p.len(),
    ensures
        ansi::sgr_from(style, base, seq![n] + p, i + 1) == ansi::sgr_from(style, base, p, i),
    decreases p.len() - i,
{
    let q = seq![n] + p;
    if i < p.len() {
        assert(q[i + 1] == p[i]);
        if i + 1 < p.len() {
            assert(q[i + 2] == p[i + 1]);
        }
        if i + 2 < p.len() {
            assert(q[i + 3] == p[i + 2]);
        }
        if i + 3 < p.len() {
            assert(q[i + 4] == p[i + 3]);
        }
        if i + 4 < p.len() {
            assert(q[i + 5] == p[i + 4]);
        }
        let one = ansi::sgr_one(style, base, p, i);
        assert(ansi::sgr_one(style, base, q, i + 1) == one);
        if i + one.1 < p.len() {
            lemma_sgr_shift(one.0, base, n, p, i + one.1);
        }
    }
}

/// A colour sequence with several parameters does what sequences with one each do, one
/// after the other. (The numbers 38 and 48 take the next ones with them.)
pub proof fn law_parameters_act_in_order(style: Style, base: Style, a: Seq<char>, b: Seq<char>, n: nat)
    requires
        !a.contains(';'),
        text::parse_number(a, 65535) == Some(n),
        n != 38 && n != 48,
        has_number(b),
    ensures
        ansi::sgr(style, base, a.push(';') + b) == ansi::sgr(
            ansi::sgr(style, base, a),
            base,
            b,
        ),
{
    text_laws::law_fields_are_parted(a, ';', b);
    text_laws::law_text_without_separator(a, ';');
    let f = scan::fields(b, ';');
    let p = ansi::numbers(f);
    let i = choose|i: int|
        0 <= i < f.len() && text::parse_number(#[trigger] f[i], 65535) is Some;
    lemma_numbers_some(f, i);
    lemma_numbers_front(a, f);
    lemma_numbers_front(a, Seq::empty());
    assert(seq![a] + Seq::<Seq<char>>::empty() =~= seq![a]);
    assert(ansi::numbers(Seq::<Seq<char>>::empty()) =~= Seq::<u16>::empty());
    let one = seq![n as u16];
    assert(ansi::numbers(seq![a]) =~= one);
    let q = one + p;
    assert(q[0] == n);
    let x = ansi::sgr_one(style, base, one, 0).0;
    assert(ansi::sgr_one(style, base, q, 0) == (x, 1int));
    assert(ansi::sgr_one(style, base, one, 0) == (x, 1int));
    assert(ansi::sgr(style, base, a) == x);
    lemma_sgr_shift(x, base, n as u16, p, 0);
}

/// The same of numbers that are written out.
pub proof fn law_numbers_act_in_order(style: Style, base: Style, n: nat, m: nat)
    requires
        n <= 65535 && m <= 65535,
        n != 38 && n != 48,
    ensures
        ansi::sgr(style, base, text::decimal(n).push(';') + text::decimal(m)) == ansi::sgr(
            ansi::sgr(style, base, text::decimal(n)),
            base,
            text::decimal(m),
        ),
{
    lemma_decimal_field(n);
    lemma_decimal_field(m);
    text_laws::law_numbers_are_read_back(n, 65535);
    text_laws::law_numbers_are_read_back(m, 65535);
    assert(has_number(text::decimal(m))) by {
        assert(scan::fields(text::decimal(m), ';')[0] == text::decimal(m));
    }
    law_parameters_act_in_order(style, base, text::decimal(n), text::decimal(m), n);
}

proof fn lemma_decimal_field(n: nat)
    ensures
        !text::decimal(n).contains(';'),
        scan::fields(text::decimal(n), ';') == seq![text::decimal(n)],
{
    let d = text::decimal(n);
    text_laws::lemma_decimal_digits(n);
    if d.contains(';') {
        let i = choose|i: int| 0 <= i < d.len() && d[i] == ';';
        assert(text::is_digit(d[i]));
    }
    text_laws::law_text_without_separator(d, ';');
}

/// The eight basic colours, in their order.
pub open spec fn palette() -> Seq<Color> {
    seq![
        Color::Black,
        Color::Red,
        Color::Green,
        Color::Yellow,
        Color::Blue,
        Color::Magenta,
        Color::Cyan,
        Color::Gray,
    ]
}

/// What one parameter does: 0 and none go back to the base style; 1, 3, 4 and 7 switch
/// bold, italics, underlining and reversing on, and 22, 23, 24 and 27 off; 30 to 37 and
/// 90 to 97 set the foreground, 40 to 47 and 100 to 107 the background, and 39 and 49
/// take them back. Everything else of a style stays.
pub proof fn law_what_a_parameter_does(style: Style, base: Style, n: nat)
    requires
        n <= 65535,
    ensures
        ({
            let r = ansi::sgr(style, base, text::decimal(n));
            &&& n == 0 ==> r == base
            &&& n == 1 ==> r.on.bold && !r.off.bold && r == (Style {
                on: style::Modifiers { bold: true, ..style.on },
                off: style::Modifiers { bold: false, ..style.off },
                ..style
            })
            &&& n == 3 ==> r == (Style {
                on: style::Modifiers { italic: true, ..style.on },
                off: style::Modifiers { italic: false, ..style.off },
                ..style
            })
            &&& n == 4 ==> r == (Style {
                on: style::Modifiers { underlined: true, ..style.on },
                off: style::Modifiers { underlined: false, ..style.off },
                ..style
            })
            &&& n == 7 ==> r == (Style {
                on: style::Modifiers { reversed: true, ..style.on },
                off: style::Modifiers { reversed: false, ..style.off },
                ..style
            })
            &&& n == 22 ==> r == (Style {
                on: style::Modifiers { bold: false, ..style.on },
                off: style::Modifiers { bold: true, ..style.off },
                ..style
            })
            &&& n == 23 ==> r == (Style {
                on: style::Modifiers { italic: false, ..style.on },
                off: style::Modifiers { italic: true, ..style.off },
                ..style
            })
            &&& n == 24 ==> r == (Style {
                on: style::Modifiers { underlined: false, ..style.on },
                off: style::Modifiers { underlined: true, ..style.off },
                ..style
            })
            &&& n == 27 ==> r == (Style {
                on: style::Modifiers { reversed: false, ..style.on },
                off: style::Modifiers { reversed: true, ..style.off },
                ..style
            })
            &&& 30 <= n <= 37 ==> r == (Style { fg: Some(palette()[n - 30]), ..style })
            &&& 40 <= n <= 47 ==> r == (Style { bg: Some(palette()[n - 40]), ..style })
            &&& 90 <= n <= 97 ==> r == (Style { fg: Some(palette()[n - 90]), ..style })
            &&& 100 <= n <= 107 ==> r == (Style { bg: Some(palette()[n - 100]), ..style })
            &&& n == 39 ==> r == (Style { fg: None, ..style })
            &&& n == 49 ==> r == (Style { bg: None, ..style })
            &&& n == 2 || 5 <= n <= 6 || 8 <= n <= 21 || 25 <= n <= 26 || 28 <= n <= 29 || 50 <= n
                <= 89 || n >= 108 ==> r == style
        }),
        ansi::sgr(style, base, Seq::<char>::empty()) == base,
{
    lemma_decimal_field(n);
    text_laws::law_numbers_are_read_back(n, 65535);
    lemma_numbers_front(text::decimal(n), Seq::empty());
    assert(seq![text::decimal(n)] + Seq::<Seq<char>>::empty() =~= seq![text::decimal(n)]);
    assert(ansi::numbers(Seq::<Seq<char>>::empty()) =~= Seq::<u16>::empty());
    let p = seq![n as u16];
    assert(ansi::numbers(seq![text::decimal(n)]) =~= p);
    assert(p[0] == n);
    text_laws::law_text_without_separator(Seq::empty(), ';');
    text_laws::law_only_digits_are_numbers(seq!['-'], 65535, 0);
    lemma_numbers_front(Seq::empty(), Seq::empty());
    assert(seq![Seq::<char>::empty()] + Seq::<Seq<char>>::empty() =~= seq![Seq::<char>::empty()]);
}

/// `38;5;n` and `48;5;n` set a colour by its number, `38;2;r;g;b` and `48;2;r;g;b` by
/// its parts; 38 stands for the foreground and 48 for the background.
pub proof fn law_wide_colours(style: Style, base: Style, fg: bool, r: u8, g: u8, b: u8)
    ensures
        ({
            let k = text::decimal(if fg {
                38
            } else {
                48
            });
            let five = k.push(';') + text::decimal(5).push(';') + text::decimal(r as nat);
            let two = k.push(';') + text::decimal(2).push(';') + text::decimal(r as nat).push(';')
                + text::decimal(g as nat).push(';') + text::decimal(b as nat);
            let indexed = Some(Color::Indexed(r));
            let mixed = Some(Color::Rgb(r, g, b));
            if fg {
                &&& ansi::sgr(style, base, five) == (Style { fg: indexed, ..style })
                &&& ansi::sgr(style, base, two) == (Style { fg: mixed, ..style })
            } else {
                &&& ansi::sgr(style, base, five) == (Style { bg: indexed, ..style })
                &&& ansi::sgr(style, base, two) == (Style { bg: mixed, ..style })
            }
        }),
{
    let k: nat = if fg {
        38
    } else {
        48
    };
    let d = text::decimal(r as nat);
    let e = text::decimal(g as nat).push(';') + text::decimal(b as nat);
    lemma_numbers_tail(r as nat, Seq::empty());
    lemma_numbers_tail(b as nat, Seq::empty());
    lemma_params_front(5, d);
    lemma_params_front(k, text::decimal(5).push(';') + d);
    lemma_params_front(g as nat, text::decimal(b as nat));
    lemma_params_front(r as nat, e);
    lemma_params_front(2, d.push(';') + e);
    lemma_params_front(k, text::decimal(2).push(';') + (d.push(';') + e));
    let five = text::decimal(k).push(';') + text::decimal(5).push(';') + d;
    let two = text::decimal(k).push(';') + text::decimal(2).push(';') + d.push(';')
        + text::decimal(g as nat).push(';') + text::decimal(b as nat);
    assert(five =~= text::decimal(k).push(';') + (text::decimal(5).push(';') + d));
    assert(two =~= text::decimal(k).push(';') + (text::decimal(2).push(';') + (d.push(';') + e)));
    let p5 = seq![k as u16, 5u16, r as u16];
    let p2 = seq![k as u16, 2u16, r as u16, g as u16, b as u16];
    assert(read(five) =~= p5);
    assert(read(two) =~= p2);
    lemma_wide(style, base, fg, r, g, b);
}

/// The numbers of a list of parameters.
spec fn read(raw: Seq<char>) -> Seq<u16> {
    ansi::numbers(scan::fields(raw, ';'))
}

proof fn lemma_numbers_tail(n: nat, f: Seq<Seq<char>>)
    requires
        n <= 65535,
        f.len() == 0,
    ensures
        read(text::decimal(n)) == seq![n as u16],
{
    lemma_decimal_field(n);
    text_laws::law_numbers_are_read_back(n, 65535);
    lemma_numbers_front(text::decimal(n), f);
    assert(seq![text::decimal(n)] + f =~= seq![text::decimal(n)]);
    assert(ansi::numbers(f) =~= Seq::<u16>::empty());
    assert(read(text::decimal(n)) =~= seq![n as u16]);
}

proof fn lemma_params_front(n: nat, rest: Seq<char>)
    requires
        n <= 65535,
    ensures
        read(text::decimal(n).push(';') + rest) == seq![n as u16] + read(rest),
{
    lemma_decimal_field(n);
    text_laws::law_numbers_are_read_back(n, 65535);
    text_laws::law_fields_are_parted(text::decimal(n), ';', rest);
    lemma_numbers_front(text::decimal(n), scan::fields(rest, ';'));
}

proof fn lemma_wide(style: Style, base: Style, fg: bool, r: u8, g: u8, b: u8)
    ensures
        ({
            let k: u16 = if fg {
                38
            } else {
                48
            };
            let p5 = seq![k, 5u16, r as u16];
            let p2 = seq![k, 2u16, r as u16, g as u16, b as u16];
            let indexed = Some(Color::Indexed(r));
            let mixed = Some(Color::Rgb(r, g, b));
            &&& ansi::sgr_from(style, base, p5, 0) == ansi::with_color(style, fg, indexed)
            &&& ansi::sgr_from(style, base, p2, 0) == ansi::with_color(style, fg, mixed)
        }),
{
    assert(ansi::low_byte(r as u16) == r);
    assert(ansi::low_byte(g as u16) == g);
    assert(ansi::low_byte(b as u16) == b);
}

// ------------------------------------------------------------------ what is taken out

/// A character within the parameters of a control sequence.
pub open spec fn is_param(c: char) -> bool {
    ' ' <= c <= '?'
}

proof fn lemma_params(a: Seq<char>, p: Seq<char>)
    requires
        ansi::scan_state(a) == Scan::Text,
        forall|i: int| 0 <= i < p.len() ==> is_param(#[trigger] p[i]),
    ensures
        ansi::scan_state(a + seq!['\x1b', '['] + p) == Scan::Csi,
        ansi::stripped(a + seq!['\x1b', '['] + p) == ansi::stripped(a),
    decreases p.len(),
{
    let s = a + seq!['\x1b', '['] + p;
    if p.len() == 0 {
        let t = a.push('\x1b');
        assert(s =~= t.push('['));
        assert(s.drop_last() =~= t);
        assert(t.drop_last() =~= a);
        assert(ansi::scan_state(t) == Scan::Escape);
        assert(ansi::stripped(t) == ansi::stripped(a));
    } else {
        let q = p.drop_last();
        assert forall|i: int| 0 <= i < q.len() implies is_param(#[trigger] q[i]) by {
            assert(q[i] == p[i]);
        }
        lemma_params(a, q);
        assert(s.drop_last() =~= a + seq!['\x1b', '['] + q);
        assert(is_param(p[p.len() - 1]));
        assert(s.last() == p.last());
    }
}

proof fn lemma_state_add(a: Seq<char>, b: Seq<char>)
    requires
        ansi::scan_state(a) == Scan::Text,
    ensures
        ansi::scan_state(a + b) == ansi::scan_state(b),
        ansi::stripped(a + b) == ansi::stripped(a) + ansi::stripped(b),
    decreases b.len(),
{
    if b.len() == 0 {
        assert(a + b =~= a);
        assert(ansi::stripped(a) + ansi::stripped(b) =~= ansi::stripped(a));
    } else {
        lemma_state_add(a, b.drop_last());
        assert((a + b).drop_last() =~= a + b.drop_last());
        assert((a + b).last() == b.last());
        assert(ansi::stripped(a + b) =~= ansi::stripped(a) + ansi::stripped(b));
    }
}

/// Stripping takes whole sequences out and leaves what stands around them: `ESC [` with
/// its parameters and its final letter, `ESC ]` up to the bell, `ESC` and one more
/// character, and single control characters.
pub proof fn law_whole_sequences_are_stripped(
    a: Seq<char>,
    p: Seq<char>,
    e: char,
    o: Seq<char>,
    b: Seq<char>,
)
    requires
        ansi::scan_state(a) == Scan::Text,
        forall|i: int| 0 <= i < p.len() ==> is_param(#[trigger] p[i]),
        '@' <= e <= '~',
        forall|i: int| 0 <= i < o.len() ==> (#[trigger] o[i]) != '\x07' && o[i] != '\x1b',
    ensures
        ansi::stripped(a + b) == ansi::stripped(a) + ansi::stripped(b),
        ansi::stripped(a + seq!['\x1b', '['] + p + seq![e] + b) == ansi::stripped(a)
            + ansi::stripped(b),
        ansi::stripped(a + seq!['\x1b', ']'] + o + seq!['\x07'] + b) == ansi::stripped(a)
            + ansi::stripped(b),
        e != '[' && e != ']' ==> ansi::stripped(a + seq!['\x1b', e] + b) == ansi::stripped(a)
            + ansi::stripped(b),
        ansi::stripped(a + seq!['\x07'] + b) == ansi::stripped(a) + ansi::stripped(b),
{
    lemma_state_add(a, b);
    let x = a + seq!['\x1b', '['] + p;
    lemma_params(a, p);
    assert((x + seq![e]).drop_last() =~= x);
    assert((x + seq![e]).last() == e);
    lemma_state_add(x + seq![e], b);
    lemma_osc(a, o);
    let y = a + seq!['\x1b', ']'] + o;
    assert((y + seq!['\x07']).drop_last() =~= y);
    assert((y + seq!['\x07']).last() == '\x07');
    lemma_state_add(y + seq!['\x07'], b);
    let z = a.push('\x1b');
    assert(z.drop_last() =~= a);
    assert(a + seq!['\x1b', e] =~= z.push(e));
    assert(z.push(e).drop_last() =~= z);
    assert(z.last() == '\x1b' && z.push(e).last() == e);
    assert(ansi::scan_state(z) == Scan::Escape);
    assert(ansi::stripped(z) == ansi::stripped(a));
    assert(ansi::stripped(z.push(e)) == ansi::stripped(z));
    if e != '[' && e != ']' {
        assert(ansi::scan_state(z.push(e)) == ansi::advance(Scan::Escape, e));
        lemma_state_add(a + seq!['\x1b', e], b);
    }
    let w = a + seq!['\x07'];
    assert(w.drop_last() =~= a);
    assert(w.last() == '\x07');
    lemma_state_add(w, b);
}

proof fn lemma_osc(a: Seq<char>, o: Seq<char>)
    requires
        ansi::scan_state(a) == Scan::Text,
        forall|i: int| 0 <= i < o.len() ==> (#[trigger] o[i]) != '\x07' && o[i] != '\x1b',
    ensures
        ansi::scan_state(a + seq!['\x1b', ']'] + o) == Scan::Osc,
        ansi::stripped(a + seq!['\x1b', ']'] + o) == ansi::stripped(a),
    decreases o.len(),
{
    let s = a + seq!['\x1b', ']'] + o;
    if o.len() == 0 {
        let t = a.push('\x1b');
        assert(s =~= t.push(']'));
        assert(s.drop_last() =~= t);
        assert(t.drop_last() =~= a);
        assert(ansi::scan_state(t) == Scan::Escape);
        assert(ansi::stripped(t) == ansi::stripped(a));
    } else {
        let q = o.drop_last();
        assert forall|i: int| 0 <= i < q.len() implies (#[trigger] q[i]) != '\x07' && q[i]
            != '\x1b' by {
            assert(q[i] == o[i]);
        }
        lemma_osc(a, q);
        assert(s.drop_last() =~= a + seq!['\x1b', ']'] + q);
        assert(o[o.len() - 1] != '\x07' && o[o.len() - 1] != '\x1b');
        assert(s.last() == o.last());
    }
}

/// `ESC ]` may also end with `ESC \\`; what stands around it stays.
pub proof fn law_titles_end_with_a_backslash(a: Seq<char>, o: Seq<char>, b: Seq<char>)
    requires
        ansi::scan_state(a) == Scan::Text,
        forall|i: int| 0 <= i < o.len() ==> (#[trigger] o[i]) != '\x07' && o[i] != '\x1b',
    ensures
        ansi::stripped(a + seq!['\x1b', ']'] + o + seq!['\x1b', '\\'] + b) == ansi::stripped(a)
            + ansi::stripped(b),
{
    lemma_osc(a, o);
    let y = a + seq!['\x1b', ']'] + o;
    let z = y.push('\x1b');
    let e = y + seq!['\x1b', '\\'];
    assert(z.drop_last() =~= y);
    assert(e =~= z.push('\\'));
    assert(e.drop_last() =~= z);
    assert(ansi::scan_state(z) == Scan::OscEscape);
    assert(ansi::scan_state(e) == Scan::Text);
    assert(ansi::stripped(z) == ansi::stripped(y));
    assert(ansi::stripped(e) == ansi::stripped(z));
    lemma_state_add(e, b);
}

// ------------------------------------------------------------------------- colours

/// The style that a text leaves behind it.
pub open spec fn style_behind(s: Seq<char>, base: Style) -> Style {
    ansi::row_scan(s, base).style
}

proof fn lemma_sequence(s: Seq<char>, p: Seq<char>, base: Style)
    requires
        ansi::scan_state(s) == Scan::Text,
        forall|i: int|
            0 <= i < p.len() ==> ('0' <= #[trigger] p[i] <= '9' || p[i] == ';'),
    ensures
        ({
            let q = ansi::row_scan(s, base);
            let r = ansi::row_scan(s + seq!['\x1b', '['] + p, base);
            &&& r.at == Scan::Csi
            &&& r.params == p
            &&& r.style == q.style
            &&& r.done == q.done
            &&& r.row == ansi::closed_row(q.row, q.seg, q.style)
            &&& r.seg.len() == 0
        }),
    decreases p.len(),
{
    let all = s + seq!['\x1b', '['] + p;
    ansi::lemma_row_scan(s, base);
    if p.len() == 0 {
        let t = s.push('\x1b');
        assert(all =~= t.push('['));
        assert(all.drop_last() =~= t);
        assert(t.drop_last() =~= s);
        let x = ansi::row_scan(t, base);
        assert(x.at == Scan::Escape);
        assert(ansi::row_scan(all, base).params =~= p);
    } else {
        let q = p.drop_last();
        assert forall|i: int| 0 <= i < q.len() implies ('0' <= #[trigger] q[i] <= '9' || q[i]
            == ';') by {
            assert(q[i] == p[i]);
        }
        lemma_sequence(s, q, base);
        assert(all.drop_last() =~= s + seq!['\x1b', '['] + q);
        assert('0' <= p[p.len() - 1] <= '9' || p[p.len() - 1] == ';');
        assert(all.last() == p.last());
        assert(q.push(p.last()) =~= p);
    }
}

proof fn lemma_plain_after(s: Seq<char>, y: Seq<char>, base: Style)
    requires
        ansi::scan_state(s) == Scan::Text,
        forall|i: int| 0 <= i < y.len() ==> !text::is_control(#[trigger] y[i]),
    ensures
        ({
            let q = ansi::row_scan(s, base);
            ansi::row_scan(s + y, base) == (ansi::RowScan { seg: q.seg + y, ..q })
        }),
    decreases y.len(),
{
    ansi::lemma_row_scan(s, base);
    let q = ansi::row_scan(s, base);
    if y.len() == 0 {
        assert(s + y =~= s);
        assert(q.seg + y =~= q.seg);
    } else {
        let t = y.drop_last();
        assert forall|i: int| 0 <= i < t.len() implies !text::is_control(#[trigger] t[i]) by {
            assert(t[i] == y[i]);
        }
        lemma_plain_after(s, t, base);
        assert((s + y).drop_last() =~= s + t);
        assert(!text::is_control(y[y.len() - 1]));
        assert((s + y).last() == y.last());
        assert((q.seg + t).push(y.last()) =~= q.seg + y);
    }
}

/// A colour sequence draws nothing, and what follows it, to the end of the line, is drawn
/// in the style that it leaves. What was drawn before stays as it was.
pub proof fn law_sequences_colour_what_follows(s: Seq<char>, p: Seq<char>, y: Seq<char>, base: Style)
    requires
        ansi::scan_state(s) == Scan::Text,
        forall|i: int|
            0 <= i < p.len() ==> ('0' <= #[trigger] p[i] <= '9' || p[i] == ';'),
        y.len() > 0,
        forall|i: int| 0 <= i < y.len() ==> !text::is_control(#[trigger] y[i]),
    ensures
        ({
            let all = s + seq!['\x1b', '['] + p + seq!['m'];
            let before = ansi::rows_of(s, base);
            let after = ansi::rows_of(all + y, base);
            let st = ansi::sgr(style_behind(s, base), base, p);
            &&& style_behind(all, base) == st
            &&& style_behind(all + y, base) == st
            &&& after == before.drop_last().push(before.last().push(style::sv(y, st)))
            &&& ansi::rows_of(s + seq!['\n'], base) == before.push(Seq::empty())
            &&& style_behind(s + seq!['\n'], base) == style_behind(s, base)
            &&& style_behind(Seq::empty(), base) == base
        }),
{
    let x = s + seq!['\x1b', '['] + p;
    let all = x + seq!['m'];
    lemma_sequence(s, p, base);
    assert(all.drop_last() =~= x);
    assert(all.last() == 'm');
    let q = ansi::row_scan(s, base);
    let st = ansi::sgr(q.style, base, p);
    let r = ansi::row_scan(all, base);
    assert(r.style == st);
    ansi::lemma_row_scan(all, base);
    lemma_plain_after(all, y, base);
    assert(r.seg + y =~= y);
    let before = ansi::rows_of(s, base);
    assert(before.drop_last() =~= q.done);
    let nl = s + seq!['\n'];
    ansi::lemma_row_scan(s, base);
    assert(nl.drop_last() =~= s);
    assert(nl.last() == '\n');
}

// --------------------------------------------------------------- cutting and styles

proof fn lemma_runs_cells(cs: Seq<Cell>)
    ensures
        ansi::row_cells(ansi::runs(cs)) == cs,
    decreases cs.len(),
{
    if cs.len() > 0 {
        let t = cs.drop_last();
        let c = cs.last();
        let r = ansi::runs(t);
        lemma_runs_cells(t);
        if r.len() > 0 && r.last().style == c.1 {
            let sp = style::sv(r.last().content.push(c.0), c.1);
            let n = r.drop_last().push(sp);
            assert(n.drop_last() =~= r.drop_last());
            assert(n.last() == sp);
            assert(ansi::cells_of(sp.content, c.1) =~= ansi::cells_of(
                r.last().content,
                r.last().style,
            ).push(c));
            assert(ansi::row_cells(n) =~= ansi::row_cells(r).push(c));
        } else {
            let sp = style::sv(seq![c.0], c.1);
            let n = r.push(sp);
            assert(n.drop_last() =~= r);
            assert(n.last() == sp);
            assert(ansi::cells_of(sp.content, c.1) =~= seq![c]);
            assert(ansi::row_cells(n) =~= ansi::row_cells(r).push(c));
        }
        assert(t.push(c) =~= cs);
    } else {
        assert(ansi::row_cells(ansi::runs(cs)) =~= cs);
    }
}

/// The characters of lines with their styles, one after the other.
pub open spec fn cells(ls: Seq<Seq<SpanView>>) -> Seq<Cell>
    decreases ls.len(),
{
    if ls.len() == 0 {
        Seq::empty()
    } else {
        cells(ls.drop_last()) + ansi::row_cells(ls.last())
    }
}

proof fn lemma_flat(ls: Seq<Seq<Cell>>)
    ensures
        cells(ls.map_values(|l: Seq<Cell>| ansi::runs(l))) == ansi::flat_cells(ls),
    decreases ls.len(),
{
    let m = ls.map_values(|l: Seq<Cell>| ansi::runs(l));
    if ls.len() > 0 {
        lemma_flat(ls.drop_last());
        lemma_runs_cells(ls.last());
        assert(m.drop_last() =~= ls.drop_last().map_values(|l: Seq<Cell>| ansi::runs(l)));
    } else {
        assert(cells(m) =~= ansi::flat_cells(ls));
    }
}

proof fn lemma_cells_add(a: Seq<Seq<SpanView>>, b: Seq<Seq<SpanView>>)
    ensures
        cells(a + b) == cells(a) + cells(b),
    decreases b.len(),
{
    if b.len() == 0 {
        assert(a + b =~= a);
        assert(cells(a) + cells(b) =~= cells(a));
    } else {
        lemma_cells_add(a, b.drop_last());
        assert((a + b).drop_last() =~= a + b.drop_last());
        assert(cells(a + b) =~= cells(a) + cells(b));
    }
}

/// Cutting rows to the width keeps every character and its style, in order.
pub proof fn law_cutting_keeps_styles(rows: Seq<Seq<SpanView>>, width: nat)
    requires
        width > 2,
    ensures
        cells(ansi::wrapped_rows(rows, width)) == cells(rows),
    decreases rows.len(),
{
    if rows.len() > 0 {
        let row = rows.last();
        law_cutting_keeps_styles(rows.drop_last(), width);
        let w = ansi::wrapped_row(row, width);
        if row.len() > 0 {
            ansi::lemma_cell_wrap(ansi::row_cells(row), width);
            lemma_flat(ansi::cell_lines(ansi::row_cells(row), width));
        } else {
            assert(w.drop_last() =~= Seq::<Seq<SpanView>>::empty());
            assert(cells(w.drop_last()) =~= Seq::<Cell>::empty());
            assert(cells(w) =~= ansi::row_cells(row));
        }
        lemma_cells_add(ansi::wrapped_rows(rows.drop_last(), width), w);
    }
}

/// What a command printed is drawn with the styles that its colour sequences give it,
/// whatever the width.
pub proof fn law_output_keeps_its_styles(s: Seq<char>, width: nat, base: Style)
    requires
        width > 2,
    ensures
        cells(ansi::rendered(s, width, base)) == cells(ansi::rows_of(s, base)),
{
    law_cutting_keeps_styles(ansi::rows_of(s, base), width);
}

} // verus!
