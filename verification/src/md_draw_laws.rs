//! What is drawn of a markdown text: marks within a line become styles, and every row is
//! drawn with all of its text.
use crate::ansi;
use crate::clean;
use crate::md;
use crate::md::{Kind, Piece, RowView};
use crate::md_laws;
use crate::scan;
use crate::style;
use crate::style::{Color, Modifier, SpanView, Style};
use crate::text;
use crate::text_laws;
use vstd::prelude::*;

verus! {

// ------------------------------------------------------------------------- marks

/// A text without the characters that marks within a line begin with.
pub open spec fn unmarked(s: Seq<char>) -> bool {
    forall|i: int|
        0 <= i < s.len() ==> (#[trigger] s[i]) != '`' && s[i] != '*' && s[i] != '['
}

/// The span of a text; of an empty one there is none.
pub open spec fn plain_span(s: Seq<char>, base: Style) -> Seq<SpanView> {
    if s.len() == 0 {
        Seq::empty()
    } else {
        seq![style::sv(s, base)]
    }
}

proof fn lemma_find_shift(x: Seq<char>, c: Seq<char>, ch: char, j: int)
    requires
        0 <= j <= c.len(),
    ensures
        ({
            let a = scan::find_from(x + c, ch, x.len() + j);
            let b = scan::find_from(c, ch, j);
            (b < 0 ==> a == -1) && (b >= 0 ==> a == x.len() + b)
        }),
    decreases c.len() - j,
{
    if j < c.len() {
        assert((x + c)[x.len() + j] == c[j]);
        if c[j] != ch {
            lemma_find_shift(x, c, ch, j + 1);
        }
    }
}

proof fn lemma_stars_shift(x: Seq<char>, c: Seq<char>, j: int)
    requires
        0 <= j <= c.len(),
    ensures
        ({
            let a = md::find_stars(x + c, x.len() + j);
            let b = md::find_stars(c, j);
            (b < 0 ==> a == -1) && (b >= 0 ==> a == x.len() + b)
        }),
    decreases c.len() - j,
{
    if j + 1 < c.len() {
        assert((x + c)[x.len() + j] == c[j]);
        assert((x + c)[x.len() + j + 1] == c[j + 1]);
        if !(c[j] == '*' && c[j + 1] == '*') {
            lemma_stars_shift(x, c, j + 1);
        }
    }
}

/// A piece that stands further back.
pub open spec fn moved(p: Piece, n: int) -> Piece {
    match p {
        Piece::Plain => Piece::Plain,
        Piece::Code(k) => Piece::Code(k + n),
        Piece::Bold(k) => Piece::Bold(k + n),
        Piece::Italic(k) => Piece::Italic(k + n),
        Piece::Link(k, m) => Piece::Link(k + n, m + n),
    }
}

proof fn lemma_piece_shift(x: Seq<char>, c: Seq<char>, i: int)
    requires
        0 <= i < c.len(),
    ensures
        md::piece_at(x + c, x.len() + i) == moved(md::piece_at(c, i), x.len() as int),
{
    let s = x + c;
    let n = x.len() as int;
    assert(s[n + i] == c[i]);
    lemma_find_shift(x, c, '`', i + 1);
    lemma_find_shift(x, c, '*', i + 1);
    if i + 1 < c.len() {
        assert(s[n + i + 1] == c[i + 1]);
        lemma_stars_shift(x, c, i + 2);
    }
    lemma_find_shift(x, c, ']', i + 1);
    scan::lemma_find_from(c, ']', i + 1);
    let k = scan::find_from(c, ']', i + 1);
    if k >= 0 {
        if k + 1 < c.len() {
            assert(s[n + k + 1] == c[k + 1]);
            lemma_find_shift(x, c, ')', k + 2);
            if k + 2 <= c.len() {
                scan::lemma_find_from(c, ')', k + 2);
            }
        }
    }
}

proof fn lemma_inline_shift(
    x: Seq<char>,
    c: Seq<char>,
    i: int,
    spans: Seq<SpanView>,
    plain: Seq<char>,
    base: Style,
)
    requires
        0 <= i <= c.len(),
    ensures
        md::inline_from(x + c, x.len() + i, spans, plain, base) == md::inline_from(
            c,
            i,
            spans,
            plain,
            base,
        ),
    decreases c.len() - i,
{
    let s = x + c;
    let n = x.len() as int;
    if i < c.len() {
        lemma_piece_shift(x, c, i);
        let f = md::flushed(spans, plain, base);
        assert(s[n + i] == c[i]);
        match md::piece_at(c, i) {
            Piece::Plain => lemma_inline_shift(x, c, i + 1, spans, plain.push(c[i]), base),
            Piece::Code(k) => if i < k < c.len() {
                assert(s.subrange(n + i + 1, n + k) =~= c.subrange(i + 1, k));
                let sp = style::sv(c.subrange(i + 1, k), md::code_style(base));
                lemma_inline_shift(x, c, k + 1, f.push(sp), Seq::empty(), base);
            },
            Piece::Bold(k) => if i + 1 < k < c.len() - 1 {
                assert(s.subrange(n + i + 2, n + k) =~= c.subrange(i + 2, k));
                let sp = style::sv(c.subrange(i + 2, k), base.with_on(Modifier::Bold));
                lemma_inline_shift(x, c, k + 2, f.push(sp), Seq::empty(), base);
            },
            Piece::Italic(k) => if i < k < c.len() {
                assert(s.subrange(n + i + 1, n + k) =~= c.subrange(i + 1, k));
                let sp = style::sv(c.subrange(i + 1, k), base.with_on(Modifier::Italic));
                lemma_inline_shift(x, c, k + 1, f.push(sp), Seq::empty(), base);
            },
            Piece::Link(k, m) => if i < k && k + 1 < m < c.len() {
                assert(s.subrange(n + i + 1, n + k) =~= c.subrange(i + 1, k));
                assert(s.subrange(n + k + 2, n + m) =~= c.subrange(k + 2, m));
                let sp = style::sv(c.subrange(i + 1, k), base.with_on(Modifier::Underlined));
                let at = style::sv(
                    " ("@ + c.subrange(k + 2, m) + ")"@,
                    md::address_style(base),
                );
                lemma_inline_shift(x, c, m + 1, f.push(sp).push(at), Seq::empty(), base);
            },
        }
    }
}

proof fn lemma_spans_in_front(
    s: Seq<char>,
    i: int,
    spans: Seq<SpanView>,
    plain: Seq<char>,
    base: Style,
)
    ensures
        md::inline_from(s, i, spans, plain, base) == spans + md::inline_from(
            s,
            i,
            Seq::empty(),
            plain,
            base,
        ),
    decreases s.len() - i,
{
    let none = Seq::<SpanView>::empty();
    let f = md::flushed(spans, plain, base);
    let g = md::flushed(none, plain, base);
    assert(f =~= spans + g);
    if 0 <= i < s.len() {
        match md::piece_at(s, i) {
            Piece::Plain => lemma_spans_in_front(s, i + 1, spans, plain.push(s[i]), base),
            Piece::Code(k) => if i < k < s.len() {
                let sp = style::sv(s.subrange(i + 1, k), md::code_style(base));
                lemma_spans_in_front(s, k + 1, f.push(sp), Seq::empty(), base);
                lemma_spans_in_front(s, k + 1, g.push(sp), Seq::empty(), base);
                assert(f.push(sp) =~= spans + g.push(sp));
                assert(spans + g.push(sp) + md::inline_from(s, k + 1, none, Seq::empty(), base)
                    =~= spans + (g.push(sp) + md::inline_from(
                    s,
                    k + 1,
                    none,
                    Seq::empty(),
                    base,
                )));
            },
            Piece::Bold(k) => if i + 1 < k < s.len() - 1 {
                let sp = style::sv(s.subrange(i + 2, k), base.with_on(Modifier::Bold));
                lemma_spans_in_front(s, k + 2, f.push(sp), Seq::empty(), base);
                lemma_spans_in_front(s, k + 2, g.push(sp), Seq::empty(), base);
                assert(f.push(sp) =~= spans + g.push(sp));
                assert(spans + g.push(sp) + md::inline_from(s, k + 2, none, Seq::empty(), base)
                    =~= spans + (g.push(sp) + md::inline_from(
                    s,
                    k + 2,
                    none,
                    Seq::empty(),
                    base,
                )));
            },
            Piece::Italic(k) => if i < k < s.len() {
                let sp = style::sv(s.subrange(i + 1, k), base.with_on(Modifier::Italic));
                lemma_spans_in_front(s, k + 1, f.push(sp), Seq::empty(), base);
                lemma_spans_in_front(s, k + 1, g.push(sp), Seq::empty(), base);
                assert(f.push(sp) =~= spans + g.push(sp));
                assert(spans + g.push(sp) + md::inline_from(s, k + 1, none, Seq::empty(), base)
                    =~= spans + (g.push(sp) + md::inline_from(
                    s,
                    k + 1,
                    none,
                    Seq::empty(),
                    base,
                )));
            },
            Piece::Link(k, m) => if i < k && k + 1 < m < s.len() {
                let sp = style::sv(s.subrange(i + 1, k), base.with_on(Modifier::Underlined));
                let at = style::sv(
                    " ("@ + s.subrange(k + 2, m) + ")"@,
                    md::address_style(base),
                );
                lemma_spans_in_front(s, m + 1, f.push(sp).push(at), Seq::empty(), base);
                lemma_spans_in_front(s, m + 1, g.push(sp).push(at), Seq::empty(), base);
                assert(f.push(sp).push(at) =~= spans + g.push(sp).push(at));
                assert(spans + g.push(sp).push(at) + md::inline_from(
                    s,
                    m + 1,
                    none,
                    Seq::empty(),
                    base,
                ) =~= spans + (g.push(sp).push(at) + md::inline_from(
                    s,
                    m + 1,
                    none,
                    Seq::empty(),
                    base,
                )));
            },
        }
    }
}

proof fn lemma_plain_run(a: Seq<char>, r: Seq<char>, i: int, plain: Seq<char>, base: Style)
    requires
        unmarked(a),
        0 <= i <= a.len(),
    ensures
        md::inline_from(a + r, i, Seq::empty(), plain, base) == md::inline_from(
            a + r,
            a.len() as int,
            Seq::empty(),
            plain + a.skip(i),
            base,
        ),
    decreases a.len() - i,
{
    let s = a + r;
    if i < a.len() {
        assert(s[i] == a[i]);
        lemma_plain_run(a, r, i + 1, plain.push(a[i]), base);
        assert(plain.push(a[i]) + a.skip(i + 1) =~= plain + a.skip(i));
    } else {
        assert(plain + a.skip(i) =~= plain);
    }
}

/// A text without marks is drawn as it is, in the style of its line.
pub proof fn law_plain_text_is_drawn_as_it_is(s: Seq<char>, base: Style)
    requires
        unmarked(s),
    ensures
        md::inlined(s, base) == plain_span(s, base),
{
    lemma_plain_run(s, Seq::empty(), 0, Seq::empty(), base);
    assert(s + Seq::<char>::empty() =~= s);
    assert(Seq::<char>::empty() + s.skip(0) =~= s);
    assert(md::inlined(s, base) =~= plain_span(s, base));
}

/// What follows unmarked text and a mark.
proof fn lemma_after(a: Seq<char>, m: Seq<char>, c: Seq<char>, f: Seq<SpanView>, base: Style)
    ensures
        md::inline_from(a + m + c, (a.len() + m.len()) as int, f, Seq::empty(), base) == f
            + md::inlined(c, base),
{
    let x = a + m;
    lemma_inline_shift(x, c, 0, f, Seq::empty(), base);
    lemma_spans_in_front(c, 0, f, Seq::empty(), base);
}

proof fn lemma_first(s: Seq<char>, ch: char, i: int, k: int)
    requires
        0 <= i <= k < s.len(),
        s[k] == ch,
        forall|j: int| i <= j < k ==> #[trigger] s[j] != ch,
    ensures
        scan::find_from(s, ch, i) == k,
    decreases k - i,
{
    if i < k {
        assert(s[i] != ch);
        lemma_first(s, ch, i + 1, k);
    }
}

/// Text between back-ticks is drawn in yellow, without them; what stands in front and
/// behind is drawn as if it stood alone.
pub proof fn law_code_in_a_line(a: Seq<char>, b: Seq<char>, c: Seq<char>, base: Style)
    requires
        unmarked(a),
        !b.contains('`'),
    ensures
        md::inlined(a + (seq!['`'] + b + seq!['`']) + c, base) == plain_span(a, base) + seq![
            style::sv(b, Style { fg: Some(Color::Yellow), ..base }),
        ] + md::inlined(c, base),
{
    let m = seq!['`'] + b + seq!['`'];
    let s = a + m + c;
    let n = a.len() as int;
    let k = n + b.len() + 1;
    assert(s =~= a + (m + c));
    lemma_plain_run(a, m + c, 0, Seq::empty(), base);
    assert(Seq::<char>::empty() + a.skip(0) =~= a);
    assert(s[n] == '`' && s[k] == '`');
    assert forall|j: int| n + 1 <= j < k implies #[trigger] s[j] != '`' by {
        assert(s[j] == b[j - n - 1]);
        if s[j] == '`' {
            assert(b.contains(s[j]));
        }
    }
    lemma_first(s, '`', n + 1, k);
    assert(s.subrange(n + 1, k) =~= b);
    let f = md::flushed(Seq::empty(), a, base);
    let sp = style::sv(b, md::code_style(base));
    lemma_after(a, m, c, f.push(sp), base);
    assert(f.push(sp) =~= plain_span(a, base) + seq![sp]);
}

/// Text between single stars is drawn in italics, and between double ones in bold,
/// without them.
pub proof fn law_stars_in_a_line(a: Seq<char>, b: Seq<char>, c: Seq<char>, base: Style)
    requires
        unmarked(a),
        b.len() > 0,
        !b.contains('*'),
    ensures
        md::inlined(a + (seq!['*'] + b + seq!['*']) + c, base) == plain_span(a, base) + seq![
            style::sv(b, base.with_on(Modifier::Italic)),
        ] + md::inlined(c, base),
        md::inlined(a + (seq!['*', '*'] + b + seq!['*', '*']) + c, base) == plain_span(a, base)
            + seq![style::sv(b, base.with_on(Modifier::Bold))] + md::inlined(c, base),
{
    let n = a.len() as int;
    let f = md::flushed(Seq::empty(), a, base);
    assert(Seq::<char>::empty() + a.skip(0) =~= a);
    assert forall|j: int| 0 <= j < b.len() implies #[trigger] b[j] != '*' by {
        if b[j] == '*' {
            assert(b.contains(b[j]));
        }
    }
    // italics
    let m = seq!['*'] + b + seq!['*'];
    let s = a + m + c;
    let k = n + b.len() + 1;
    assert(s =~= a + (m + c));
    lemma_plain_run(a, m + c, 0, Seq::empty(), base);
    assert(s[n] == '*' && s[k] == '*' && s[n + 1] == b[0]);
    assert forall|j: int| n + 1 <= j < k implies #[trigger] s[j] != '*' by {
        assert(s[j] == b[j - n - 1]);
    }
    lemma_first(s, '*', n + 1, k);
    assert(s.subrange(n + 1, k) =~= b);
    let sp = style::sv(b, base.with_on(Modifier::Italic));
    lemma_after(a, m, c, f.push(sp), base);
    assert(f.push(sp) =~= plain_span(a, base) + seq![sp]);
    // bold
    let m2 = seq!['*', '*'] + b + seq!['*', '*'];
    let s2 = a + m2 + c;
    let k2 = n + b.len() + 2;
    assert(s2 =~= a + (m2 + c));
    lemma_plain_run(a, m2 + c, 0, Seq::empty(), base);
    assert(s2[n] == '*' && s2[n + 1] == '*' && s2[k2] == '*' && s2[k2 + 1] == '*');
    assert forall|j: int| n + 2 <= j < k2 implies #[trigger] s2[j] != '*' by {
        assert(s2[j] == b[j - n - 2]);
    }
    lemma_first_stars(s2, n + 2, k2);
    assert(s2.subrange(n + 2, k2) =~= b);
    let sp2 = style::sv(b, base.with_on(Modifier::Bold));
    lemma_after(a, m2, c, f.push(sp2), base);
    assert(f.push(sp2) =~= plain_span(a, base) + seq![sp2]);
}

proof fn lemma_first_stars(s: Seq<char>, i: int, k: int)
    requires
        0 <= i <= k,
        k + 1 < s.len(),
        s[k] == '*' && s[k + 1] == '*',
        forall|j: int| i <= j < k ==> #[trigger] s[j] != '*',
    ensures
        md::find_stars(s, i) == k,
    decreases k - i,
{
    if i < k {
        assert(s[i] != '*');
        lemma_first_stars(s, i + 1, k);
    }
}

/// A link is drawn as its text, underlined, and its address behind it.
pub proof fn law_links_in_a_line(a: Seq<char>, t: Seq<char>, u: Seq<char>, c: Seq<char>, base: Style)
    requires
        unmarked(a),
        !t.contains(']'),
        !u.contains(')'),
    ensures
        md::inlined(a + (seq!['['] + t + seq![']', '('] + u + seq![')']) + c, base) == plain_span(
            a,
            base,
        ) + seq![
            style::sv(t, base.with_on(Modifier::Underlined)),
            style::sv(
                seq![' ', '('] + u + seq![')'],
                Style { fg: Some(Color::DarkGray), ..base },
            ),
        ] + md::inlined(c, base),
{
    let m = seq!['['] + t + seq![']', '('] + u + seq![')'];
    let s = a + m + c;
    let n = a.len() as int;
    let k = n + t.len() + 1;
    let e = k + 2 + u.len();
    assert(s =~= a + (m + c));
    lemma_plain_run(a, m + c, 0, Seq::empty(), base);
    assert(Seq::<char>::empty() + a.skip(0) =~= a);
    assert(s[n] == '[' && s[k] == ']' && s[k + 1] == '(' && s[e] == ')');
    assert forall|j: int| n + 1 <= j < k implies #[trigger] s[j] != ']' by {
        assert(s[j] == t[j - n - 1]);
        if s[j] == ']' {
            assert(t.contains(s[j]));
        }
    }
    assert forall|j: int| k + 2 <= j < e implies #[trigger] s[j] != ')' by {
        assert(s[j] == u[j - k - 2]);
        if s[j] == ')' {
            assert(u.contains(s[j]));
        }
    }
    lemma_first(s, ']', n + 1, k);
    lemma_first(s, ')', k + 2, e);
    assert(s.subrange(n + 1, k) =~= t);
    assert(s.subrange(k + 2, e) =~= u);
    reveal_strlit(" (");
    reveal_strlit(")");
    assert(" ("@ + u + ")"@ =~= seq![' ', '('] + u + seq![')']);
    let f = md::flushed(Seq::empty(), a, base);
    let sp = style::sv(t, base.with_on(Modifier::Underlined));
    let at = style::sv(seq![' ', '('] + u + seq![')'], md::address_style(base));
    lemma_after(a, m, c, f.push(sp).push(at), base);
    assert(f.push(sp).push(at) =~= plain_span(a, base) + seq![sp, at]);
}

// ------------------------------------------------------------------------- rows

/// Lines that show a text, cut into pieces: each with a mark in front, of which the
/// first line has its own, and each piece with its marks within the line.
pub open spec fn shows(
    ls: Seq<Seq<SpanView>>,
    first: Seq<SpanView>,
    next: Seq<SpanView>,
    base: Style,
    body: Seq<char>,
    segs: Seq<Seq<char>>,
) -> bool {
    &&& segs.len() == ls.len()
    &&& ansi::joined(segs) == body
    &&& forall|i: int|
        0 <= i < ls.len() ==> #[trigger] ls[i] == (if i == 0 {
            first
        } else {
            next
        }) + md::inlined(segs[i], base)
}

/// The text of a heading behind its `#`s.
pub open spec fn heading_body(t: Seq<char>) -> Seq<char> {
    scan::trimmed_start(t.skip(md::hashes(t, 0)))
}

/// The text of an item behind its mark.
pub open spec fn item_body(t: Seq<char>) -> Seq<char> {
    let b = scan::trimmed_start(t);
    scan::trimmed_start(b.skip(md::find_white(b, 0)))
}

/// A row of code: yellow, without any marks.
pub open spec fn code_shown(ls: Seq<Seq<SpanView>>, t: Seq<char>, segs: Seq<Seq<char>>) -> bool {
    &&& segs.len() == ls.len()
    &&& ansi::joined(segs) == t
    &&& forall|i: int|
        0 <= i < ls.len() ==> #[trigger] ls[i] == seq![
            style::sv(segs[i], style::colored(Color::Yellow)),
        ]
}

/// A heading: bold, behind a mark of its own, and set in below it.
pub open spec fn heading_shown(
    ls: Seq<Seq<SpanView>>,
    t: Seq<char>,
    segs: Seq<Seq<char>>,
    mark: Seq<char>,
    indent: Seq<char>,
) -> bool {
    let base = style::bold(Color::Cyan);
    &&& mark.len() == 2 && mark[1] == ' '
    &&& indent.len() == text::width(mark)
    &&& forall|i: int| 0 <= i < indent.len() ==> #[trigger] indent[i] == ' '
    &&& shows(
        ls,
        seq![style::sv(mark, base)],
        seq![style::sv(indent, base)],
        base,
        heading_body(t),
        segs,
    )
}

/// A quote: blue and in italics, behind bars.
pub open spec fn quote_shown(ls: Seq<Seq<SpanView>>, t: Seq<char>, segs: Seq<Seq<char>>) -> bool {
    let base = style::colored(Color::Blue).with_on(Modifier::Italic);
    let bar = seq![style::sv(seq!['│', ' '], base)];
    shows(ls, bar, bar, base, t, segs)
}

/// An item of a list: its text behind its mark, and set in below it.
pub open spec fn item_shown(
    ls: Seq<Seq<SpanView>>,
    t: Seq<char>,
    segs: Seq<Seq<char>>,
    mark: Seq<char>,
) -> bool {
    let base = style::colored(Color::White);
    &&& mark.is_prefix_of(scan::trimmed_start(t))
    &&& 0 < mark.len() <= 4
    &&& forall|i: int| 0 <= i < mark.len() ==> !text::is_white(#[trigger] mark[i])
    &&& mark.len() == 4 || mark.len() == scan::trimmed_start(t).len() || text::is_white(
        scan::trimmed_start(t)[mark.len() as int],
    )
    &&& shows(
        ls,
        seq![style::sv(seq![' ', ' '] + mark + seq![' '], base)],
        seq![style::sv(seq![' ', ' ', ' ', ' ', ' ', ' '], base)],
        base,
        item_body(t),
        segs,
    )
}

/// Ordinary text.
pub open spec fn text_shown(ls: Seq<Seq<SpanView>>, t: Seq<char>, segs: Seq<Seq<char>>) -> bool {
    shows(ls, Seq::empty(), Seq::empty(), style::colored(Color::White), t, segs)
}

/// Whether lines are what is drawn of a row; `later` says that something stands above.
pub open spec fn drawn_as(ls: Seq<Seq<SpanView>>, row: RowView, later: bool) -> bool {
    match row.kind {
        Kind::Empty => if later {
            ls == seq![Seq::<SpanView>::empty()]
        } else {
            ls.len() == 0
        },
        Kind::Hr => ls.len() == 1 && ls[0].len() == 1 && ls[0][0].content.len() > 0 && forall|
            i: int,
        |
            0 <= i < ls[0][0].content.len() ==> #[trigger] ls[0][0].content[i] == '─',
        Kind::Code => exists|segs: Seq<Seq<char>>| code_shown(ls, row.text, segs),
        Kind::Heading(level) => exists|segs: Seq<Seq<char>>, mark: Seq<char>, indent: Seq<char>|
            heading_shown(ls, row.text, segs, mark, indent),
        Kind::Quote => exists|segs: Seq<Seq<char>>| quote_shown(ls, row.text, segs),
        Kind::List => exists|segs: Seq<Seq<char>>, mark: Seq<char>|
            item_shown(ls, row.text, segs, mark),
        Kind::Normal => exists|segs: Seq<Seq<char>>| text_shown(ls, row.text, segs),
    }
}

/// Places at which the lines of each row begin: all lines belong to a row, in order.
pub open spec fn laid_out(ls: Seq<Seq<SpanView>>, rows: Seq<RowView>, at: Seq<int>) -> bool {
    &&& at.len() == rows.len() + 1
    &&& at[0] == 0
    &&& at[rows.len() as int] == ls.len()
    &&& forall|k: int|
        0 <= k < rows.len() ==> 0 <= (#[trigger] at[k]) <= at[k + 1] <= ls.len() && drawn_as(
            ls.subrange(at[k], at[k + 1]),
            rows[k],
            at[k] > 0,
        )
}

/// A row as they come from a text: nothing in it is a control character, and what is
/// not empty holds something.
pub open spec fn good_row(r: RowView) -> bool {
    &&& clean::clean(r.text)
    &&& r.kind == Kind::Normal ==> r.text.len() > 0
    &&& r.kind == Kind::List ==> scan::trimmed_start(r.text).len() > 0
}

proof fn lemma_wrapped_joins(t: Seq<char>, w: nat)
    requires
        clean::clean(t),
    ensures
        ansi::joined(md::wrapped(t, w)) == t,
        ansi::stripped(t) == t,
        !t.contains('\n'),
{
    assert forall|i: int| 0 <= i < t.len() implies ansi::is_shown(#[trigger] t[i]) by {
        assert(clean::is_drawn(t[i]));
    }
    ansi::law_strip_keeps_clean_text(t);
    if t.contains('\n') {
        let i = choose|i: int| 0 <= i < t.len() && t[i] == '\n';
        assert(clean::is_drawn(t[i]));
    }
    md::law_wrap_keeps_text(t, w);
    text_laws::law_text_without_separator(t, '\n');
}

proof fn lemma_row_drawn(out: Seq<Seq<SpanView>>, row: RowView, width: nat)
    requires
        good_row(row),
    ensures
        ({
            let all = md::draw_row(out, row, width);
            &&& out.len() <= all.len()
            &&& all.take(out.len() as int) == out
            &&& drawn_as(all.skip(out.len() as int), row, out.len() > 0)
        }),
{
    let all = md::draw_row(out, row, width);
    let ls = all.skip(out.len() as int);
    let none = Seq::<SpanView>::empty();
    assert(all.take(out.len() as int) =~= out);
    match row.kind {
        Kind::Empty => {
            if out.len() > 0 {
                assert(ls =~= seq![none]);
            }
        },
        Kind::Hr => {},
        Kind::Code => {
            let segs = md::wrapped(row.text, md::room(width, 2, 0));
            lemma_wrapped_joins(row.text, md::room(width, 2, 0));
            assert forall|i: int| 0 <= i < ls.len() implies #[trigger] ls[i] == seq![
                style::sv(segs[i], style::colored(Color::Yellow)),
            ] by {
                assert(ls[i] =~= seq![style::sv(segs[i], style::colored(Color::Yellow))]);
            }
            assert(code_shown(ls, row.text, segs));
        },
        Kind::Heading(level) => {
            reveal_strlit("■ ");
            reveal_strlit("• ");
            reveal_strlit("· ");
            let base = style::bold(Color::Cyan);
            let mark = md::marker(level);
            let indent = text::repeated(' ', text::width(mark));
            let body = heading_body(row.text);
            let w = md::room(width, text::width(mark), 8);
            let segs = md::wrapped(body, w);
            lemma_body_clean(row.text, md::hashes(row.text, 0));
            lemma_wrapped_joins(body, w);
            let first = seq![style::sv(mark, base)];
            let next = seq![style::sv(indent, base)];
            assert forall|i: int| 0 <= i < ls.len() implies #[trigger] ls[i] == (if i == 0 {
                first
            } else {
                next
            }) + md::inlined(segs[i], base) by {
                assert(style::one(mark, base) =~= first);
                assert(style::one(indent, base) =~= next);
                assert(ls[i] == md::heading_lines(row.text, level, width)[i]);
            }
            assert(heading_shown(ls, row.text, segs, mark, indent));
        },
        Kind::Quote => {
            reveal_strlit("│ ");
            let base = style::colored(Color::Blue).with_on(Modifier::Italic);
            let segs = md::wrapped(row.text, md::room(width, 2, 0));
            lemma_wrapped_joins(row.text, md::room(width, 2, 0));
            let first = seq![style::sv(seq!['│', ' '], base)];
            assert("│ "@ =~= seq!['│', ' ']);
            assert forall|i: int| 0 <= i < ls.len() implies #[trigger] ls[i] == (if i == 0 {
                first
            } else {
                first
            }) + md::inlined(segs[i], base) by {
                assert(style::one("│ "@, base) =~= first);
                assert(ls[i] == md::quote_lines(row.text, width)[i]);
            }
            assert(quote_shown(ls, row.text, segs));
        },
        Kind::List => {
            reveal_strlit("  ");
            reveal_strlit(" ");
            reveal_strlit("      ");
            let base = style::colored(Color::White);
            let b = scan::trimmed_start(row.text);
            lemma_trimmed_start_clean(row.text);
            clean::lemma_find_white(b, 0);
            let end = md::find_white(b, 0);
            lemma_mark(row.text);
            let mark = b.take(if end < 4 {
                end
            } else {
                4
            });
            let body = item_body(row.text);
            let w = md::room(width, md::item_indent(mark), 8);
            let segs = md::wrapped(body, w);
            lemma_body_clean(b, end);
            lemma_wrapped_joins(body, w);
            let first = seq![style::sv(seq![' ', ' '] + mark + seq![' '], base)];
            let next = seq![style::sv(seq![' ', ' ', ' ', ' ', ' ', ' '], base)];
            assert("  "@ + mark + " "@ =~= seq![' ', ' '] + mark + seq![' ']);
            assert("      "@ =~= seq![' ', ' ', ' ', ' ', ' ', ' ']);
            assert forall|i: int| 0 <= i < ls.len() implies #[trigger] ls[i] == (if i == 0 {
                first
            } else {
                next
            }) + md::inlined(segs[i], base) by {
                assert(style::one("  "@ + mark + " "@, base) =~= first);
                assert(style::one("      "@, base) =~= next);
                assert(ls[i] == md::item_lines(row.text, width)[i]);
            }
            assert(mark =~= b.take(mark.len() as int));
            lemma_word_end(b, 0);
            assert forall|i: int| 0 <= i < mark.len() implies !text::is_white(
                #[trigger] mark[i],
            ) by {
                assert(mark[i] == b[i]);
            }
            assert(item_shown(ls, row.text, segs, mark));
        },
        Kind::Normal => {
            let base = style::colored(Color::White);
            let segs = md::wrapped(row.text, width);
            lemma_wrapped_joins(row.text, width);
            assert forall|i: int| 0 <= i < ls.len() implies #[trigger] ls[i] == (if i == 0 {
                none
            } else {
                none
            }) + md::inlined(segs[i], base) by {
                assert(none + md::inlined(segs[i], base) =~= md::inlined(segs[i], base));
            }
            assert(text_shown(ls, row.text, segs));
        },
    }
}

proof fn lemma_mark(t: Seq<char>)
    requires
        scan::trimmed_start(t).len() > 0,
    ensures
        md::find_white(scan::trimmed_start(t), 0) > 0,
{
    let b = scan::trimmed_start(t);
    scan::lemma_skip_white(t, 0);
    assert(b[0] == t[scan::skip_white(t, 0)]);
    clean::lemma_find_white(b, 1);
}

proof fn lemma_word_end(b: Seq<char>, i: int)
    requires
        0 <= i <= b.len(),
    ensures
        i <= md::find_white(b, i) <= b.len(),
        forall|k: int| i <= k < md::find_white(b, i) ==> !text::is_white(#[trigger] b[k]),
        md::find_white(b, i) < b.len() ==> text::is_white(b[md::find_white(b, i)]),
    decreases b.len() - i,
{
    if i < b.len() && !text::is_white(b[i]) {
        lemma_word_end(b, i + 1);
    }
}

/// What stands behind the mark of an item, and behind the `#`s of a heading, is its
/// text.
pub proof fn law_texts_behind_marks(a: Seq<char>, m: Seq<char>, w: Seq<char>, r: Seq<char>, n: int)
    requires
        text_laws::blank(a) && text_laws::blank(w),
        w.len() > 0,
        m.len() > 0,
        forall|i: int| 0 <= i < m.len() ==> !text::is_white(#[trigger] m[i]),
        r.len() > 0,
        !text::is_white(r[0]),
        r[0] != '#',
        n >= 0,
    ensures
        item_body(a + m + w + r) == r,
        heading_body(Seq::new(n as nat, |i: int| '#') + w + r) == r,
{
    let t = a + m + w + r;
    let b = m + w + r;
    assert(!text::is_white(m[0]));
    assert(b[0] == m[0]);
    assert(t =~= a + b);
    text_laws::law_trimming_the_start(a, b);
    lemma_word_end(b, 0);
    let e = md::find_white(b, 0);
    assert(text::is_white(w[0]));
    assert(b[m.len() as int] == w[0]);
    if e < m.len() {
        assert(b[e] == m[e]);
    }
    assert(e == m.len());
    assert(b.skip(e) =~= w + r);
    text_laws::law_trimming_the_start(w, r);
    let marks = Seq::new(n as nat, |i: int| '#');
    let h = marks + w + r;
    assert(h =~= marks + (w + r));
    md_laws::lemma_hashes(n, w + r, 0);
    assert(h.skip(n) =~= w + r);
}

proof fn lemma_trimmed_start_clean(t: Seq<char>)
    requires
        clean::clean(t),
    ensures
        clean::clean(scan::trimmed_start(t)),
{
    scan::lemma_skip_white(t, 0);
    clean::lemma_clean_part(t, scan::skip_white(t, 0), t.len() as int);
}

proof fn lemma_body_clean(t: Seq<char>, i: int)
    requires
        clean::clean(t),
    ensures
        i == md::hashes(t, 0) || 0 <= i <= t.len() ==> clean::clean(scan::trimmed_start(t.skip(i))),
{
    lemma_hashes_bound(t, 0);
    if i == md::hashes(t, 0) || 0 <= i <= t.len() {
        clean::lemma_clean_part(t, i, t.len() as int);
        lemma_trimmed_start_clean(t.skip(i));
    }
}

proof fn lemma_hashes_bound(t: Seq<char>, i: int)
    requires
        0 <= i <= t.len(),
    ensures
        i <= md::hashes(t, i) <= t.len(),
    decreases t.len() - i,
{
    if i < t.len() && t[i] == '#' {
        lemma_hashes_bound(t, i + 1);
    }
}

proof fn lemma_rows_drawn(rows: Seq<RowView>, width: nat) -> (at: Seq<int>)
    requires
        forall|k: int| 0 <= k < rows.len() ==> good_row(#[trigger] rows[k]),
    ensures
        laid_out(md::draw_rows(rows, width), rows, at),
    decreases rows.len(),
{
    let ls = md::draw_rows(rows, width);
    if rows.len() == 0 {
        seq![0int]
    } else {
        let t = rows.drop_last();
        assert forall|k: int| 0 <= k < t.len() implies good_row(#[trigger] t[k]) by {
            assert(t[k] == rows[k]);
        }
        let before = lemma_rows_drawn(t, width);
        let out = md::draw_rows(t, width);
        assert(good_row(rows[rows.len() - 1]));
        lemma_row_drawn(out, rows.last(), width);
        let at = before.push(ls.len() as int);
        assert forall|k: int| 0 <= k < rows.len() implies 0 <= (#[trigger] at[k]) <= at[k + 1]
            <= ls.len() && drawn_as(ls.subrange(at[k], at[k + 1]), rows[k], at[k] > 0) by {
            assert(at[k] == before[k]);
            if k < t.len() {
                assert(at[k + 1] == before[k + 1]);
                assert(t[k] == rows[k]);
                assert(ls.take(out.len() as int) == out);
                assert(ls.subrange(at[k], at[k + 1]) =~= out.subrange(at[k], at[k + 1]));
            } else {
                assert(ls.subrange(at[k], at[k + 1]) =~= ls.skip(out.len() as int));
            }
        }
        at
    }
}

proof fn lemma_inlined_nonempty(s: Seq<char>, base: Style)
    requires
        s.len() > 0,
    ensures
        md::inlined(s, base).len() > 0,
{
    lemma_inline_from_nonempty(s, 0, Seq::empty(), base);
}

proof fn lemma_inline_from_nonempty(s: Seq<char>, i: int, plain: Seq<char>, base: Style)
    requires
        0 <= i <= s.len(),
        i < s.len() || plain.len() > 0,
    ensures
        md::inline_from(s, i, Seq::empty(), plain, base).len() > 0,
    decreases s.len() - i,
{
    if i < s.len() {
        let f = md::flushed(Seq::empty(), plain, base);
        scan::lemma_find_from(s, '`', i + 1);
        scan::lemma_find_from(s, '*', i + 1);
        scan::lemma_find_from(s, ']', i + 1);
        match md::piece_at(s, i) {
            Piece::Plain => lemma_inline_from_nonempty(s, i + 1, plain.push(s[i]), base),
            Piece::Code(k) => {
                let sp = style::sv(s.subrange(i + 1, k), md::code_style(base));
                lemma_spans_in_front(s, k + 1, f.push(sp), Seq::empty(), base);
            },
            Piece::Bold(k) => {
                lemma_stars_bound(s, i + 2);
                let sp = style::sv(s.subrange(i + 2, k), base.with_on(Modifier::Bold));
                lemma_spans_in_front(s, k + 2, f.push(sp), Seq::empty(), base);
            },
            Piece::Italic(k) => {
                let sp = style::sv(s.subrange(i + 1, k), base.with_on(Modifier::Italic));
                lemma_spans_in_front(s, k + 1, f.push(sp), Seq::empty(), base);
            },
            Piece::Link(k, m) => {
                scan::lemma_find_from(s, ')', k + 2);
                let sp = style::sv(s.subrange(i + 1, k), base.with_on(Modifier::Underlined));
                let at = style::sv(
                    " ("@ + s.subrange(k + 2, m) + ")"@,
                    md::address_style(base),
                );
                lemma_spans_in_front(s, m + 1, f.push(sp).push(at), Seq::empty(), base);
            },
        }
    }
}

proof fn lemma_stars_bound(s: Seq<char>, i: int)
    requires
        0 <= i,
    ensures
        md::find_stars(s, i) == -1 || i <= md::find_stars(s, i) < s.len() - 1,
    decreases s.len() - i,
{
    if i + 1 < s.len() && !(s[i] == '*' && s[i + 1] == '*') {
        lemma_stars_bound(s, i + 1);
    }
}

/// No row is drawn with an empty line above all others.
proof fn lemma_no_blank_first(rows: Seq<RowView>, width: nat)
    requires
        forall|k: int| 0 <= k < rows.len() ==> good_row(#[trigger] rows[k]),
    ensures
        md::draw_rows(rows, width).len() > 0 ==> md::draw_rows(rows, width)[0].len() > 0,
    decreases rows.len(),
{
    if rows.len() > 0 {
        let t = rows.drop_last();
        assert forall|k: int| 0 <= k < t.len() implies good_row(#[trigger] t[k]) by {
            assert(t[k] == rows[k]);
        }
        lemma_no_blank_first(t, width);
        let row = rows[rows.len() - 1];
        assert(good_row(row));
        let out = md::draw_rows(t, width);
        let all = md::draw_rows(rows, width);
        lemma_row_drawn(out, row, width);
        if out.len() > 0 {
            assert(all[0] == all.take(out.len() as int)[0]);
        } else if all.len() > 0 {
            match row.kind {
                Kind::Normal => {
                    let segs = md::wrapped(row.text, width);
                    lemma_wrapped_joins(row.text, width);
                    if width > 2 {
                        md::law_wrap_fits(row.text, width, 0);
                    } else {
                        text_laws::law_text_without_separator(row.text, '\n');
                    }
                    lemma_inlined_nonempty(segs[0], style::colored(Color::White));
                    assert(all[0] == md::inlined(segs[0], md::base_style(Kind::Normal)));
                },
                _ => {},
            }
        }
    }
}

proof fn lemma_rows_are_good(s: Seq<char>)
    requires
        forall|i: int| 0 <= i < s.len() ==> ansi::is_shown(#[trigger] s[i]),
    ensures
        forall|k: int| 0 <= k < md::parsed(s).len() ==> good_row(#[trigger] md::parsed(s)[k]),
{
    clean::lemma_parsed_clean(s);
    let rows = md::parsed(s);
    lemma_rows_filled(scan::line_list(s));
    assert forall|k: int| 0 <= k < rows.len() implies good_row(#[trigger] rows[k]) by {
        assert(clean::clean(rows[k].text));
        let p = md::parse_lines(scan::line_list(s));
        if k < p.rows.len() {
            assert(filled(p.rows[k]));
        }
    }
}

/// A row that is ordinary text or an item holds something.
pub open spec fn filled(r: RowView) -> bool {
    &&& r.kind == Kind::Normal ==> r.text.len() > 0
    &&& r.kind == Kind::List ==> scan::trimmed_start(r.text).len() > 0
}

proof fn lemma_rows_filled(ls: Seq<Seq<char>>)
    ensures
        forall|k: int| 0 <= k < md::parse_lines(ls).rows.len() ==> filled(
            #[trigger] md::parse_lines(ls).rows[k],
        ),
    decreases ls.len(),
{
    if ls.len() > 0 {
        lemma_rows_filled(ls.drop_last());
        let q = md::parse_lines(ls.drop_last());
        let p = md::parse_lines(ls);
        let line = md::without_crs(ls.last());
        assert(filled(md::row_of(line))) by {
            let t = scan::trimmed_start(line);
            scan::lemma_skip_white(line, 0);
            scan::lemma_back_white(t, t.len() as int);
        }
        assert forall|k: int| 0 <= k < p.rows.len() implies filled(#[trigger] p.rows[k]) by {
            if k < q.rows.len() {
                assert(p.rows[k] == q.rows[k]);
            }
        }
    }
}

/// Drawing a markdown text loses nothing of it: the lines drawn are those of its rows,
/// one row after the other, and the lines of a row show all of its text behind its
/// marks.
pub proof fn law_every_row_is_drawn(s: Seq<char>, width: nat) -> (at: Seq<int>)
    ensures
        laid_out(md::rendered(s, width), md::parsed(ansi::stripped(s)), at),
{
    let t = ansi::stripped(s);
    ansi::law_strip_leaves_no_controls(s);
    let rows = md::parsed(t);
    lemma_rows_are_good(t);
    lemma_no_blank_first(rows, width);
    lemma_rows_drawn(rows, width)
}

// -------------------------------------------------------------------- what is read

/// The texts of lines, each without the mark in front.
pub open spec fn texts_behind(ls: Seq<Seq<SpanView>>) -> Seq<Seq<char>> {
    ls.map_values(|l: Seq<SpanView>| style::line_text(l.skip(1)))
}

proof fn lemma_joined_unmarked(segs: Seq<Seq<char>>)
    requires
        unmarked(ansi::joined(segs)),
    ensures
        forall|i: int| 0 <= i < segs.len() ==> unmarked(#[trigger] segs[i]),
    decreases segs.len(),
{
    if segs.len() > 0 {
        let t = segs.drop_last();
        let all = ansi::joined(segs);
        let head = ansi::joined(t);
        assert(unmarked(head)) by {
            assert forall|i: int| 0 <= i < head.len() implies (#[trigger] head[i]) != '`'
                && head[i] != '*' && head[i] != '[' by {
                assert(all[i] == head[i]);
            }
        }
        lemma_joined_unmarked(t);
        assert forall|i: int| 0 <= i < segs.len() implies unmarked(#[trigger] segs[i]) by {
            if i < t.len() {
                assert(unmarked(t[i]));
            } else {
                let l = segs[i];
                assert forall|j: int| 0 <= j < l.len() implies (#[trigger] l[j]) != '`' && l[j]
                    != '*' && l[j] != '[' by {
                    assert(all[head.len() + j] == l[j]);
                }
            }
        }
    }
}

proof fn lemma_texts_behind(
    ls: Seq<Seq<SpanView>>,
    first: Seq<SpanView>,
    next: Seq<SpanView>,
    base: Style,
    body: Seq<char>,
    segs: Seq<Seq<char>>,
)
    requires
        shows(ls, first, next, base, body, segs),
        first.len() == 1,
        next.len() == 1,
        unmarked(body),
    ensures
        ansi::joined(texts_behind(ls)) == body,
{
    lemma_joined_unmarked(segs);
    assert forall|i: int| 0 <= i < ls.len() implies texts_behind(ls)[i] == segs[i] by {
        assert(unmarked(segs[i]));
        law_plain_text_is_drawn_as_it_is(segs[i], base);
        let f = if i == 0 {
            first
        } else {
            next
        };
        assert(ls[i] == f + md::inlined(segs[i], base));
        assert(ls[i].skip(1) =~= plain_span(segs[i], base));
        let l = ls[i].skip(1);
        if segs[i].len() > 0 {
            assert(l.drop_last() =~= Seq::<SpanView>::empty());
            assert(style::line_text(l.drop_last()) =~= Seq::<char>::empty());
            assert(style::line_text(l) =~= segs[i]);
        } else {
            assert(style::line_text(l) =~= segs[i]);
        }
    }
    assert(texts_behind(ls) =~= segs);
}

/// A quote is drawn with all of its text: somewhere among the lines of a markdown text
/// stand those of each quote in it, each with a bar in front, and what stands behind
/// the bars is what was quoted.
pub proof fn law_quotes_are_drawn(
    s: Seq<char>,
    width: nat,
    k: int,
    a: Seq<char>,
    w: Seq<char>,
    r: Seq<char>,
    b: Seq<char>,
) -> (at: (int, int))
    requires
        ({
            let ls = scan::line_list(ansi::stripped(s));
            &&& 0 <= k < ls.len()
            &&& md_laws::fences(ls, k) % 2 == 0
            &&& ls[k] == a + seq!['>'] + w + r + b
        }),
        text_laws::blank(a) && text_laws::blank(w) && text_laws::blank(b) && text_laws::tight(r),
        unmarked(r),
    ensures
        ({
            let ls = md::rendered(s, width);
            &&& 0 <= at.0 <= at.1 <= ls.len()
            &&& ansi::joined(texts_behind(ls.subrange(at.0, at.1))) == r
            &&& forall|i: int|
                at.0 <= i < at.1 ==> (#[trigger] ls[i]).len() > 0 && ls[i][0].content == seq![
                    '│',
                    ' ',
                ]
        }),
{
    let t = ansi::stripped(s);
    let at = law_every_row_is_drawn(s, width);
    md_laws::law_quotes_are_kept(t, k, a, w, r, b);
    let p = md_laws::row_place(scan::line_list(t), k);
    let ls = md::rendered(s, width);
    let part = ls.subrange(at[p], at[p + 1]);
    let row = md::parsed(t)[p];
    assert(drawn_as(part, row, at[p] > 0));
    let base = style::colored(Color::Blue).with_on(Modifier::Italic);
    let bar = seq![style::sv(seq!['│', ' '], base)];
    let segs = choose|segs: Seq<Seq<char>>| quote_shown(part, row.text, segs);
    lemma_texts_behind(part, bar, bar, base, r, segs);
    assert forall|i: int| at[p] <= i < at[p + 1] implies (#[trigger] ls[i]).len() > 0
        && ls[i][0].content == seq!['│', ' '] by {
        assert(part[i - at[p]] == ls[i]);
    }
    (at[p], at[p + 1])
}

/// Ordinary lines are drawn as they are: somewhere among the lines of a markdown text
/// stand those of each, and their texts are its text.
pub proof fn law_text_is_drawn(s: Seq<char>, width: nat, k: int, a: Seq<char>, r: Seq<char>, b: Seq<char>) -> (at: (int, int))
    requires
        ({
            let ls = scan::line_list(ansi::stripped(s));
            &&& 0 <= k < ls.len()
            &&& md_laws::fences(ls, k) % 2 == 0
            &&& ls[k] == a + r + b
        }),
        text_laws::blank(a) && text_laws::blank(b) && text_laws::tight(r),
        r.len() > 0,
        'a' <= r[0] <= 'z' || 'A' <= r[0] <= 'Z' || '\u{4e00}' <= r[0] <= '\u{9fff}',
        unmarked(a + r + b),
    ensures
        ({
            let ls = md::rendered(s, width);
            &&& 0 <= at.0 <= at.1 <= ls.len()
            &&& md_laws::ended(
                ansi::joined(ansi::line_texts(ls.subrange(at.0, at.1))),
                a + r + b,
            )
        }),
{
    let t = ansi::stripped(s);
    let at = law_every_row_is_drawn(s, width);
    let none = Seq::<char>::empty();
    assert(a + none + r + b =~= a + r + b);
    md_laws::law_items_and_text_are_kept(t, k, a, none, r, b);
    let p = md_laws::row_place(scan::line_list(t), k);
    let ls = md::rendered(s, width);
    let part = ls.subrange(at[p], at[p + 1]);
    let row = md::parsed(t)[p];
    let nothing = Seq::<SpanView>::empty();
    let base = style::colored(Color::White);
    assert(drawn_as(part, row, at[p] > 0));
    let segs = choose|segs: Seq<Seq<char>>| text_shown(part, row.text, segs);
    let raw = a + r + b;
    assert(unmarked(row.text)) by {
        assert forall|i: int| 0 <= i < row.text.len() implies (#[trigger] row.text[i]) != '`'
            && row.text[i] != '*' && row.text[i] != '[' by {
            assert(raw.take(row.text.len() as int)[i] == raw[i]);
        }
    }
    lemma_joined_unmarked(segs);
    assert forall|i: int| 0 <= i < part.len() implies ansi::line_texts(part)[i] == segs[i] by {
        assert(unmarked(segs[i]));
        law_plain_text_is_drawn_as_it_is(segs[i], base);
        assert(part[i] == nothing + md::inlined(segs[i], base));
        assert(part[i] =~= plain_span(segs[i], base));
        let l = part[i];
        if segs[i].len() > 0 {
            assert(l.drop_last() =~= nothing);
            assert(style::line_text(l.drop_last()) =~= none);
            assert(style::line_text(l) =~= segs[i]);
        } else {
            assert(style::line_text(l) =~= segs[i]);
        }
    }
    assert(ansi::line_texts(part) =~= segs);
    (at[p], at[p + 1])
}

/// The mark of a heading: one for the first level, one for the second, and one for all
/// others.
pub proof fn law_headings_are_marked(level: u8)
    requires
        level >= 1,
    ensures
        md::marker(level) == (if level == 1 {
            "■ "@
        } else if level == 2 {
            "• "@
        } else {
            "· "@
        }),
{
}

} // verus!
