//! What reading, cutting and joining texts come to, whatever the texts are.
use crate::ansi;
use crate::editor;
use crate::scan;
use crate::settings;
use crate::text;
use vstd::prelude::*;

verus! {

/// A text of white space alone.
pub open spec fn blank(s: Seq<char>) -> bool {
    forall|i: int| 0 <= i < s.len() ==> text::is_white(#[trigger] s[i])
}

/// A text that neither begins nor ends with white space.
pub open spec fn tight(s: Seq<char>) -> bool {
    s.len() > 0 ==> !text::is_white(s[0]) && !text::is_white(s[s.len() - 1])
}

// ------------------------------------------------------------------- characters

/// Blanks, tabs, line ends and the wide blank are white space; no other character of
/// ASCII and no ideograph is.
pub proof fn law_white_space(c: char)
    ensures
        c == ' ' || c == '\t' || c == '\n' || c == '\r' || c == '\u{3000}' ==> text::is_white(c),
        '!' <= c <= '~' ==> !text::is_white(c),
        '\u{4e00}' <= c <= '\u{9fff}' ==> !text::is_white(c),
{
}

/// A character of ASCII takes one column, and so do the other letters of the alphabets
/// below Hangul; an ideograph, a syllable of Hangul or of Kana, a full-width form and a
/// picture take two, and a control character none.
pub proof fn law_columns(c: char)
    ensures
        ' ' <= c <= '~' ==> text::width(seq![c]) == 1,
        '\u{a0}' <= c <= '\u{10ff}' ==> text::width(seq![c]) == 1,
        '\u{2010}' <= c <= '\u{25ff}' ==> text::width(seq![c]) == 1,
        '\u{2600}' <= c <= '\u{27bf}' ==> text::width(seq![c]) == 2,
        '\u{3040}' <= c <= '\u{30ff}' ==> text::width(seq![c]) == 2,
        '\u{ac00}' <= c <= '\u{d7a3}' ==> text::width(seq![c]) == 2,
        '\u{ff00}' <= c <= '\u{ff60}' ==> text::width(seq![c]) == 2,
        '\u{ff61}' <= c <= '\u{ffdf}' ==> text::width(seq![c]) == 1,
        '\u{1f300}' <= c <= '\u{1faff}' ==> text::width(seq![c]) == 2,
        '\u{7f}' <= c <= '\u{9f}' ==> text::width(seq![c]) == 0,
        '\u{4e00}' <= c <= '\u{9fff}' ==> text::width(seq![c]) == 2,
        c < ' ' ==> text::width(seq![c]) == 0,
{
    assert(seq![c].drop_last() =~= Seq::<char>::empty());
    assert(text::width(Seq::<char>::empty()) == 0);
    assert(seq![c].last() == c);
}

/// The columns of two texts add up.
pub proof fn law_columns_add_up(a: Seq<char>, b: Seq<char>)
    ensures
        text::width(a + b) == text::width(a) + text::width(b),
{
    text::lemma_width_add(a, b);
}

// ---------------------------------------------------------------------- numbers

pub proof fn lemma_decimal_digits(n: nat)
    ensures
        text::decimal(n).len() > 0,
        text::all_digits(text::decimal(n)),
        text::digits_value(text::decimal(n)) == n,
        n > 0 ==> text::decimal(n)[0] != '0',
    decreases n,
{
    let d = text::decimal(n);
    if n < 10 {
        assert(d.drop_last() =~= Seq::<char>::empty());
        assert(text::digits_value(d.drop_last()) == 0);
    } else {
        lemma_decimal_digits(n / 10);
        assert(d.drop_last() =~= text::decimal(n / 10));
        assert(d[0] == text::decimal(n / 10)[0]);
        assert forall|i: int| 0 <= i < d.len() implies text::is_digit(#[trigger] d[i]) by {
            if i < d.len() - 1 {
                assert(d[i] == text::decimal(n / 10)[i]);
            }
        }
    }
}

/// A number is read back as it was written, with or without a sign, up to the greatest
/// one that is taken; and it is written in digits, without zeros in front.
pub proof fn law_numbers_are_read_back(n: nat, max: nat)
    ensures
        text::parse_number(text::decimal(n), max) == (if n <= max {
            Some(n)
        } else {
            None
        }),
        n <= max ==> text::parse_number(seq!['+'] + text::decimal(n), max) == Some(n),
        forall|i: int|
            0 <= i < text::decimal(n).len() ==> '0' <= #[trigger] text::decimal(n)[i] <= '9',
        n > 0 ==> text::decimal(n)[0] != '0',
{
    let d = text::decimal(n);
    lemma_decimal_digits(n);
    assert(text::is_digit(d[0]));
    assert((seq!['+'] + d).skip(1) =~= d);
    assert forall|i: int| 0 <= i < d.len() implies '0' <= #[trigger] d[i] <= '9' by {
        assert(text::is_digit(d[i]));
    }
}

/// A text that holds anything but digits behind its sign is no number.
pub proof fn law_only_digits_are_numbers(s: Seq<char>, max: nat, i: int)
    requires
        0 <= i < s.len(),
        !('0' <= s[i] <= '9'),
        i > 0 || s[i] != '+' || s.len() == 1,
    ensures
        text::parse_number(s, max) is None,
        text::parse_number(Seq::<char>::empty(), max) is None,
{
    let d = text::number_digits(s);
    if s[0] == '+' {
        if s.len() > 1 {
            assert(d[i - 1] == s[i]);
            assert(!text::is_digit(d[i - 1]));
        }
    } else {
        assert(!text::is_digit(d[i]));
    }
}

/// A number with zeros in front has the same value, and as many digits as are asked
/// for.
pub proof fn law_padding_keeps_the_number(n: nat, w: nat)
    ensures
        text::padded(n, w).len() >= w,
        text::padded(n, w).len() == w || text::padded(n, w) == text::decimal(n),
        text::digits_value(text::padded(n, w)) == n,
{
    lemma_decimal_digits(n);
    let d = text::decimal(n);
    if d.len() < w {
        lemma_zeros((w - d.len()) as nat, d);
    }
}

proof fn lemma_zeros(k: nat, d: Seq<char>)
    ensures
        text::digits_value(text::repeated('0', k) + d) == text::digits_value(d),
    decreases d.len(),
{
    let s = text::repeated('0', k) + d;
    if d.len() == 0 {
        assert(s =~= text::repeated('0', k));
        lemma_zero(k);
        assert(text::digits_value(d) == 0);
    } else {
        lemma_zeros(k, d.drop_last());
        assert(s.drop_last() =~= text::repeated('0', k) + d.drop_last());
        assert(s.last() == d.last());
    }
}

proof fn lemma_zero(k: nat)
    ensures
        text::digits_value(text::repeated('0', k)) == 0,
    decreases k,
{
    if k > 0 {
        lemma_zero((k - 1) as nat);
        let z = text::repeated('0', k);
        assert(z.drop_last() =~= text::repeated('0', (k - 1) as nat));
        assert(z.last() == '0');
    } else {
        assert(text::repeated('0', 0).len() == 0);
    }
}

// --------------------------------------------------------------------- trimming

/// White space around a text goes, and nothing else.
pub proof fn law_trimming_takes_white_space(a: Seq<char>, t: Seq<char>, b: Seq<char>)
    requires
        blank(a),
        tight(t),
        blank(b),
    ensures
        scan::trimmed(a + t + b) == t,
{
    let s = a + t + b;
    let i = a.len() as int;
    let j = i + t.len();
    assert forall|k: int| 0 <= k < i implies text::is_white(#[trigger] s[k]) by {
        assert(s[k] == a[k]);
    }
    assert forall|k: int| j <= k < s.len() implies text::is_white(#[trigger] s[k]) by {
        assert(s[k] == b[k - j]);
    }
    scan::lemma_trimmed_is(s, i, j);
    assert(s.subrange(i, j) =~= t);
}

/// White space in front of a text goes, and nothing else.
pub proof fn law_trimming_the_start(a: Seq<char>, t: Seq<char>)
    requires
        blank(a),
        t.len() > 0 ==> !text::is_white(t[0]),
    ensures
        scan::trimmed_start(a + t) == t,
{
    let s = a + t;
    scan::lemma_skip_white(s, 0);
    let k = scan::skip_white(s, 0);
    if k < a.len() {
        assert(s[k] == a[k]);
    }
    if k > a.len() {
        assert(s[a.len() as int] == t[0]);
    }
    assert(s.skip(k) =~= t);
}

/// White space behind a text goes, and nothing else.
pub proof fn law_trimming_the_end(t: Seq<char>, b: Seq<char>)
    requires
        blank(b),
        t.len() > 0 ==> !text::is_white(t.last()),
    ensures
        scan::trimmed_end(t + b) == t,
{
    let s = t + b;
    lemma_back_white(t, b, s.len() as int);
    assert(s.take(t.len() as int) =~= t);
}

proof fn lemma_back_white(t: Seq<char>, b: Seq<char>, j: int)
    requires
        blank(b),
        t.len() > 0 ==> !text::is_white(t.last()),
        t.len() <= j <= t.len() + b.len(),
    ensures
        scan::back_white(t + b, j) == t.len(),
    decreases j,
{
    let s = t + b;
    if j > t.len() {
        assert(s[j - 1] == b[j - 1 - t.len()]);
        lemma_back_white(t, b, j - 1);
    } else if j > 0 {
        assert(s[j - 1] == t.last());
    }
}

/// Every text is what trimming leaves of it, with white space around.
pub proof fn law_trimmed_text_stands_in_white_space(s: Seq<char>) -> (r: (Seq<char>, Seq<char>))
    ensures
        s == r.0 + scan::trimmed(s) + r.1,
        blank(r.0),
        blank(r.1),
        tight(scan::trimmed(s)),
{
    let (i, j) = scan::lemma_trimmed_part(s);
    let a = s.take(i);
    let b = s.skip(j);
    let t = scan::trimmed(s);
    assert(s =~= a + t + b);
    assert forall|k: int| 0 <= k < a.len() implies text::is_white(#[trigger] a[k]) by {
        assert(a[k] == s[k]);
    }
    assert forall|k: int| 0 <= k < b.len() implies text::is_white(#[trigger] b[k]) by {
        assert(b[k] == s[j + k]);
    }
    if t.len() > 0 {
        assert(t[0] == s[i]);
        assert(t[t.len() - 1] == s[j - 1]);
    }
    (a, b)
}

// ------------------------------------------------------------------------ parts

/// A text occurs in another just where that can be written with it in the middle.
pub proof fn law_parts_occur(a: Seq<char>, p: Seq<char>, b: Seq<char>)
    ensures
        scan::occurs(a + p + b, p),
{
    let s = a + p + b;
    assert(s.subrange(a.len() as int, (a.len() + p.len()) as int) =~= p);
    assert(scan::stands_at(s, p, a.len() as int));
}

/// What occurs in a text parts it in two around it.
pub proof fn law_what_occurs_is_a_part(s: Seq<char>, p: Seq<char>) -> (r: (Seq<char>, Seq<char>))
    requires
        scan::occurs(s, p),
    ensures
        s == r.0 + p + r.1,
{
    let i = choose|i: int| scan::stands_at(s, p, i);
    let a = s.take(i);
    let b = s.skip(i + p.len());
    assert(s =~= a + p + b) by {
        assert forall|k: int| i <= k < i + p.len() implies s[k] == p[k - i] by {
            assert(s.subrange(i, i + p.len())[k - i] == s[k]);
        }
    }
    (a, b)
}

/// What occurs in a part of a text occurs in the text.
pub proof fn law_parts_of_parts_occur(a: Seq<char>, s: Seq<char>, b: Seq<char>, p: Seq<char>)
    requires
        scan::occurs(s, p),
    ensures
        scan::occurs(a + s + b, p),
{
    let (x, y) = law_what_occurs_is_a_part(s, p);
    law_parts_occur(a + x, p, y + b);
    assert(a + s + b =~= a + x + p + (y + b));
}

/// What occurs in two texts with a character between them that it does not hold occurs
/// in one of the two.
pub proof fn law_parts_stand_on_one_side(a: Seq<char>, c: char, b: Seq<char>, p: Seq<char>)
    requires
        scan::occurs(a.push(c) + b, p),
        p.len() > 0,
        !p.contains(c),
    ensures
        scan::occurs(a, p) || scan::occurs(b, p),
{
    let s = a.push(c) + b;
    let n = a.len() as int;
    let i = choose|i: int| scan::stands_at(s, p, i);
    assert forall|k: int| 0 <= k < p.len() implies p[k] == s[i + k] by {
        assert(s.subrange(i, i + p.len())[k] == s[i + k]);
    }
    if i <= n < i + p.len() {
        assert(p[n - i] == c);
    } else if i + p.len() <= n {
        assert(a.subrange(i, i + p.len()) =~= p);
        assert(scan::stands_at(a, p, i));
    } else {
        let j = i - n - 1;
        assert(b.subrange(j, j + p.len()) =~= p);
        assert(scan::stands_at(b, p, j));
    }
}

// ----------------------------------------------------------------------- fields

/// A separator parts the fields: those of two texts with one between them are those of
/// the first, and behind them those of the second. A text without one is one field.
pub proof fn law_fields_are_parted(a: Seq<char>, c: char, b: Seq<char>)
    ensures
        scan::fields(a.push(c) + b, c) == scan::fields(a, c) + scan::fields(b, c),
        !b.contains(c) ==> scan::fields(b, c) == seq![b],
    decreases b.len(),
{
    let s = a.push(c) + b;
    scan::lemma_fields_nonempty(a, c);
    scan::lemma_fields_nonempty(b, c);
    if b.len() == 0 {
        assert(s =~= a.push(c));
        assert(s.drop_last() =~= a);
        assert(scan::fields(s, c) =~= scan::fields(a, c) + scan::fields(b, c));
        assert(b =~= Seq::<char>::empty());
    } else {
        let t = b.drop_last();
        law_fields_are_parted(a, c, t);
        scan::lemma_fields_nonempty(t, c);
        assert(s.drop_last() =~= a.push(c) + t);
        assert(s.last() == b.last());
        assert(scan::fields(s, c) =~= scan::fields(a, c) + scan::fields(b, c));
        if !b.contains(c) {
            assert(b[b.len() - 1] != c) by {
                if b[b.len() - 1] == c {
                    assert(b.contains(c));
                }
            }
            assert(!t.contains(c)) by {
                if t.contains(c) {
                    let k = choose|k: int| 0 <= k < t.len() && t[k] == c;
                    assert(b[k] == c);
                }
            }
            assert(t.push(b.last()) =~= b);
            assert(scan::fields(b, c) =~= seq![b]);
        }
    }
}

/// A text without line feeds is its one field.
pub proof fn law_text_without_separator(s: Seq<char>, c: char)
    requires
        !s.contains(c),
    ensures
        scan::fields(s, c) == seq![s],
        ansi::joined(scan::fields(s, c)) == s,
{
    law_fields_are_parted(Seq::empty(), c, s);
    let f = seq![s];
    assert(f.drop_last() =~= Seq::<Seq<char>>::empty());
    assert(ansi::joined(f.drop_last()) =~= Seq::<char>::empty());
    assert(f.last() == s);
    assert(ansi::joined(f) =~= s);
}

// ------------------------------------------------------------------------ lines

/// The lines of a text: the first ends at the first line feed, which is no part of it,
/// nor is a carriage return in front; behind it come the lines of the rest. What
/// stands behind the last line feed is a line, unless it is empty.
pub proof fn law_lines_of_a_text(l: Seq<char>, rest: Seq<char>)
    requires
        !l.contains('\n'),
    ensures
        scan::line_list(l.push('\n') + rest) == seq![
            if l.len() > 0 && l.last() == '\r' {
                l.drop_last()
            } else {
                l
            },
        ] + scan::line_list(rest),
        l.len() > 0 ==> scan::line_list(l) == seq![l],
        scan::line_list(Seq::<char>::empty()).len() == 0,
{
    law_fields_are_parted(l, '\n', rest);
    law_text_without_separator(l, '\n');
    scan::lemma_fields_nonempty(rest, '\n');
    let f = scan::fields(l.push('\n') + rest, '\n');
    let g = scan::fields(rest, '\n');
    assert(f =~= seq![l] + g);
    assert(f.last() == g.last());
    assert(f.drop_last() =~= seq![l] + g.drop_last());
    assert(scan::line_list(l.push('\n') + rest) =~= seq![scan::without_cr(l)] + scan::line_list(
        rest,
    ));
    assert(seq![l].drop_last() =~= Seq::<Seq<char>>::empty());
    assert(scan::line_list(l) =~= if l.len() > 0 {
        seq![l]
    } else {
        Seq::empty()
    });
    law_text_without_separator(Seq::empty(), '\n');
    let e = seq![Seq::<char>::empty()];
    assert(e.drop_last() =~= Seq::<Seq<char>>::empty());
    assert(scan::line_list(Seq::<char>::empty()) =~= Seq::<Seq<char>>::empty());
}

/// Lines that are joined are found again.
pub proof fn law_joined_lines_are_found_again(v: Seq<Seq<char>>)
    requires
        v.len() > 0,
        forall|i: int| 0 <= i < v.len() ==> !(#[trigger] v[i]).contains('\n'),
    ensures
        scan::fields(scan::join_lines(v), '\n') == v,
    decreases v.len(),
{
    if v.len() == 1 {
        assert(!v[0].contains('\n'));
        law_text_without_separator(v[0], '\n');
        assert(seq![v[0]] =~= v);
    } else {
        let t = v.drop_last();
        assert forall|i: int| 0 <= i < t.len() implies !(#[trigger] t[i]).contains('\n') by {
            assert(t[i] == v[i]);
        }
        law_joined_lines_are_found_again(t);
        assert(!v[v.len() - 1].contains('\n'));
        law_fields_are_parted(scan::join_lines(t), '\n', v.last());
        assert(t + seq![v.last()] =~= v);
    }
}

// ------------------------------------------------------------------------ words

/// White space parts the words: those of two texts with some between them are those of
/// the first, and behind them those of the second.
pub proof fn law_words_are_parted(a: Seq<char>, c: char, b: Seq<char>)
    requires
        text::is_white(c),
    ensures
        scan::words(a.push(c) + b) == scan::words(a) + scan::words(b),
{
    lemma_words_parted(a, c, b);
    let x = scan::word_scan(b);
    let w = scan::word_scan(a.push(c) + b);
    if x.cur.len() > 0 {
        assert((scan::words(a) + x.done).push(x.cur) =~= scan::words(a) + x.done.push(x.cur));
    }
}

proof fn lemma_words_parted(a: Seq<char>, c: char, b: Seq<char>)
    requires
        text::is_white(c),
    ensures
        scan::word_scan(a.push(c) + b).done == scan::words(a) + scan::word_scan(b).done,
        scan::word_scan(a.push(c) + b).cur == scan::word_scan(b).cur,
    decreases b.len(),
{
    let s = a.push(c) + b;
    if b.len() == 0 {
        assert(s =~= a.push(c));
        assert(s.drop_last() =~= a);
        assert(scan::words(a) + Seq::<Seq<char>>::empty() =~= scan::words(a));
    } else {
        let t = b.drop_last();
        lemma_words_parted(a, c, t);
        assert(s.drop_last() =~= a.push(c) + t);
        assert(s.last() == b.last());
        let x = scan::word_scan(t);
        assert((scan::words(a) + x.done).push(x.cur) =~= scan::words(a) + x.done.push(x.cur));
    }
}

/// A text without white space is one word, and white space is none.
pub proof fn law_one_word(s: Seq<char>)
    ensures
        s.len() > 0 && (forall|i: int| 0 <= i < s.len() ==> !text::is_white(#[trigger] s[i]))
            ==> scan::words(s) == seq![s],
        blank(s) ==> scan::words(s).len() == 0,
    decreases s.len(),
{
    if forall|i: int| 0 <= i < s.len() ==> !text::is_white(#[trigger] s[i]) {
        lemma_word_grows(s);
    }
    if blank(s) {
        lemma_no_words(s);
    }
}

proof fn lemma_word_grows(s: Seq<char>)
    requires
        forall|i: int| 0 <= i < s.len() ==> !text::is_white(#[trigger] s[i]),
    ensures
        scan::word_scan(s).done.len() == 0,
        scan::word_scan(s).cur == s,
    decreases s.len(),
{
    if s.len() > 0 {
        let t = s.drop_last();
        assert forall|i: int| 0 <= i < t.len() implies !text::is_white(#[trigger] t[i]) by {
            assert(t[i] == s[i]);
        }
        lemma_word_grows(t);
        assert(!text::is_white(s[s.len() - 1]));
        assert(t.push(s.last()) =~= s);
    }
}

proof fn lemma_no_words(s: Seq<char>)
    requires
        blank(s),
    ensures
        scan::word_scan(s).done.len() == 0,
        scan::word_scan(s).cur.len() == 0,
    decreases s.len(),
{
    if s.len() > 0 {
        let t = s.drop_last();
        assert forall|i: int| 0 <= i < t.len() implies text::is_white(#[trigger] t[i]) by {
            assert(t[i] == s[i]);
        }
        lemma_no_words(t);
        assert(text::is_white(s[s.len() - 1]));
    }
}

/// A line of a first word, white space and more is that word and the words of the rest.
pub proof fn law_first_word(a: Seq<char>, w: Seq<char>, c: char, rest: Seq<char>)
    requires
        blank(a),
        w.len() > 0,
        forall|i: int| 0 <= i < w.len() ==> !text::is_white(#[trigger] w[i]),
        text::is_white(c),
    ensures
        scan::words(a + w) == seq![w],
        scan::words(a + w.push(c) + rest) == seq![w] + scan::words(rest),
{
    lemma_word_grows(w);
    lemma_no_words(a);
    if a.len() > 0 {
        let b = a.drop_last();
        assert forall|i: int| 0 <= i < b.len() implies text::is_white(#[trigger] b[i]) by {
            assert(b[i] == a[i]);
        }
        lemma_no_words(b);
        assert(text::is_white(a[a.len() - 1]));
        law_words_are_parted(b, a.last(), w);
        assert(b.push(a.last()) + w =~= a + w);
        assert(scan::words(a + w) =~= seq![w]);
    } else {
        assert(a + w =~= w);
    }
    law_words_are_parted(a + w, c, rest);
    assert((a + w).push(c) + rest =~= a + w.push(c) + rest);
}

// --------------------------------------------------------------------- shortening

/// A text that is long enough is cut behind its first characters, and an ellipsis says
/// so; a shorter one stays as it is.
pub proof fn law_shortening(a: Seq<char>, b: Seq<char>)
    ensures
        settings::shortened(a, a.len()) == a,
        b.len() > 0 ==> settings::shortened(a + b, a.len()) == a + seq!['…'],
{
    reveal_strlit("…");
    assert((a + b).take(a.len() as int) =~= a);
    assert("…"@ =~= seq!['…']);
}

// ------------------------------------------------------------------------- bytes

/// A character takes one byte where it is ASCII, and more the further its number lies
/// from that; the bytes of a text are those of its characters together.
pub proof fn law_characters_take_bytes(a: Seq<char>, c: char)
    ensures
        (c as u32) < 0x80 ==> editor::byte_len(a.push(c)) == editor::byte_len(a) + 1,
        0x80 <= (c as u32) < 0x800 ==> editor::byte_len(a.push(c)) == editor::byte_len(a) + 2,
        0x800 <= (c as u32) < 0x10000 ==> editor::byte_len(a.push(c)) == editor::byte_len(a) + 3,
        0x10000 <= (c as u32) ==> editor::byte_len(a.push(c)) == editor::byte_len(a) + 4,
        editor::byte_len(Seq::empty()) == 0,
{
    assert(a.push(c).drop_last() =~= a);
}

} // verus!
