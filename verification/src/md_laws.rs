//! What becomes of a markdown text: which rows it has, what is drawn of each, and that
//! nothing of it is lost.
use crate::md;
use crate::md::Kind;
use crate::scan;
use crate::text;
use crate::text_laws;
use vstd::prelude::*;

verus! {

// ------------------------------------------------------------------ rows of lines

/// A line without the carriage returns at its end.
pub open spec fn ended(l: Seq<char>, raw: Seq<char>) -> bool {
    &&& l.len() <= raw.len()
    &&& raw.take(l.len() as int) == l
    &&& l.len() > 0 ==> l.last() != '\r'
    &&& forall|i: int| l.len() <= i < raw.len() ==> #[trigger] raw[i] == '\r'
}

proof fn lemma_ended(raw: Seq<char>)
    ensures
        ended(md::without_crs(raw), raw),
    decreases raw.len(),
{
    if raw.len() > 0 && raw.last() == '\r' {
        let t = raw.drop_last();
        lemma_ended(t);
        let l = md::without_crs(raw);
        assert(raw.take(l.len() as int) =~= t.take(l.len() as int));
        assert forall|i: int| l.len() <= i < raw.len() implies #[trigger] raw[i] == '\r' by {
            if i < t.len() {
                assert(t[i] == raw[i]);
            }
        }
    } else {
        assert(raw.take(raw.len() as int) =~= raw);
    }
}

/// Three back-ticks stand at a place, with nothing but white space in front.
pub open spec fn fence_at(raw: Seq<char>, n: int) -> bool {
    &&& 0 <= n
    &&& n + 3 <= raw.len()
    &&& raw[n] == '`' && raw[n + 1] == '`' && raw[n + 2] == '`'
    &&& forall|i: int| 0 <= i < n ==> text::is_white(#[trigger] raw[i])
}

/// A line that opens or closes a code block.
pub open spec fn fence(raw: Seq<char>) -> bool {
    exists|n: int| fence_at(raw, n)
}

proof fn lemma_blank_tail(raw: Seq<char>, l: Seq<char>)
    requires
        ended(l, raw),
    ensures
        scan::trimmed(l) == scan::trimmed(raw),
{
    let (i, j) = scan::lemma_trimmed_part(l);
    assert forall|k: int| 0 <= k < l.len() implies raw[k] == l[k] by {
        assert(raw.take(l.len() as int)[k] == raw[k]);
    }
    assert forall|k: int| 0 <= k < i implies text::is_white(#[trigger] raw[k]) by {
        assert(text::is_white(l[k]));
    }
    assert forall|k: int| j <= k < raw.len() implies text::is_white(#[trigger] raw[k]) by {
        if k < l.len() {
            assert(text::is_white(l[k]));
        }
    }
    scan::lemma_trimmed_is(raw, i, j);
    assert(raw.subrange(i, j) =~= l.subrange(i, j));
}

proof fn lemma_ticks(t: Seq<char>)
    ensures
        "```"@.is_prefix_of(t) == (t.len() >= 3 && t[0] == '`' && t[1] == '`' && t[2] == '`'),
{
    reveal_strlit("```");
    let m = "```"@;
    if t.len() >= 3 && t[0] == '`' && t[1] == '`' && t[2] == '`' {
        assert(m =~= t.take(3));
    }
    if m.is_prefix_of(t) {
        assert(m =~= t.take(3));
        assert(t[0] == m[0] && t[1] == m[1] && t[2] == m[2]);
    }
}

proof fn lemma_fence(raw: Seq<char>)
    ensures
        fence(raw) == md::is_fence(md::without_crs(raw)),
{
    lemma_ended(raw);
    lemma_blank_tail(raw, md::without_crs(raw));
    let t = scan::trimmed(raw);
    lemma_ticks(t);
    let (i, j) = scan::lemma_trimmed_part(raw);
    assert(t == raw.subrange(i, j));
    if t.len() >= 3 && t[0] == '`' && t[1] == '`' && t[2] == '`' {
        assert(fence_at(raw, i));
    }
    if fence(raw) {
        let n = choose|n: int| fence_at(raw, n);
        assert(!text::is_white('`'));
        if i < n {
            assert(text::is_white(raw[i]));
        }
        assert(i == n);
        if j < n + 3 {
            assert(text::is_white(raw[n + 2]));
        }
    }
}

/// How many of the first `k` lines open or close a code block.
pub open spec fn fences(ls: Seq<Seq<char>>, k: int) -> nat
    decreases k,
{
    if k <= 0 {
        0
    } else {
        fences(ls, k - 1) + (if fence(ls[k - 1]) {
            1nat
        } else {
            0
        })
    }
}

proof fn lemma_rows_before(ls: Seq<Seq<char>>, k: int)
    requires
        0 <= k <= ls.len(),
    ensures
        md::parse_lines(ls.take(k)).rows.len() == k - fences(ls, k) / 2,
        md::parse_lines(ls.take(k)).code == (fences(ls, k) % 2 == 1),
    decreases k,
{
    if k > 0 {
        lemma_rows_before(ls, k - 1);
        assert(ls.take(k).drop_last() =~= ls.take(k - 1));
        assert(ls.take(k).last() == ls[k - 1]);
        lemma_fence(ls[k - 1]);
    } else {
        assert(ls.take(0).len() == 0);
    }
}

proof fn lemma_rows_stay(ls: Seq<Seq<char>>, k: int, m: int)
    requires
        0 <= k <= m <= ls.len(),
    ensures
        md::parse_lines(ls.take(k)).rows.is_prefix_of(md::parse_lines(ls.take(m)).rows),
    decreases m - k,
{
    let a = md::parse_lines(ls.take(k)).rows;
    let b = md::parse_lines(ls.take(m)).rows;
    if k < m {
        lemma_rows_stay(ls, k, m - 1);
        assert(ls.take(m).drop_last() =~= ls.take(m - 1));
        let c = md::parse_lines(ls.take(m - 1)).rows;
        assert(b.len() >= c.len());
        assert(b.take(c.len() as int) =~= c);
        assert(b.take(a.len() as int) =~= c.take(a.len() as int));
    } else {
        assert(b.take(a.len() as int) =~= a);
    }
}

/// The place of the row of a line: fences that close a block have none.
pub open spec fn row_place(ls: Seq<Seq<char>>, k: int) -> int {
    k - fences(ls, k) / 2
}

/// Every line of a text has a row, in order, but for the fences that close a code
/// block: in a block it is a row of code, with the line as it is; else it is a row of
/// its own kind. A block that is left open is closed behind the last line.
pub proof fn law_every_line_has_a_row(s: Seq<char>, k: int)
    requires
        0 <= k < scan::line_list(s).len(),
    ensures
        ({
            let ls = scan::line_list(s);
            let rows = md::parsed(s);
            let in_code = fences(ls, k) % 2 == 1;
            let at = row_place(ls, k);
            let total = ls.len() as int;
            &&& rows.len() == row_place(ls, total) + fences(ls, total) % 2
            &&& in_code && fence(ls[k]) || 0 <= at < rows.len()
            &&& in_code && !fence(ls[k]) ==> rows[at].kind == Kind::Code && ended(
                rows[at].text,
                ls[k],
            )
            &&& !in_code && fence(ls[k]) ==> rows[at].kind == Kind::Empty
            &&& !in_code && !fence(ls[k]) ==> rows[at] == md::row_of(md::without_crs(ls[k]))
        }),
{
    let ls = scan::line_list(s);
    let n = ls.len() as int;
    lemma_rows_before(ls, k);
    lemma_rows_before(ls, k + 1);
    lemma_rows_before(ls, n);
    lemma_rows_stay(ls, k + 1, n);
    lemma_fence(ls[k]);
    lemma_ended(ls[k]);
    assert(ls.take(n) =~= ls);
    assert(ls.take(k + 1).drop_last() =~= ls.take(k));
    assert(ls.take(k + 1).last() == ls[k]);
    let a = md::parse_lines(ls.take(k + 1)).rows;
    let b = md::parse_lines(ls).rows;
    let at = row_place(ls, k);
    if !(fences(ls, k) % 2 == 1 && fence(ls[k])) {
        assert(a[at] == b.take(a.len() as int)[at]);
        assert(b[at] == a[at]);
        assert(md::parsed(s)[at] == b[at]);
    }
}

// ---------------------------------------------------------------- kinds of lines

proof fn lemma_trimmed_line(a: Seq<char>, t: Seq<char>, b: Seq<char>, raw: Seq<char>)
    requires
        text_laws::blank(a),
        text_laws::tight(t),
        text_laws::blank(b),
        raw == a + t + b,
    ensures
        scan::trimmed(md::without_crs(raw)) == t,
{
    lemma_ended(raw);
    lemma_blank_tail(raw, md::without_crs(raw));
    text_laws::law_trimming_takes_white_space(a, t, b);
}

/// A line of `>` and a text, with white space around them, is a quote of that text: the
/// row holds all of it and nothing else.
pub proof fn law_quotes_are_kept(s: Seq<char>, k: int, a: Seq<char>, w: Seq<char>, r: Seq<char>, b: Seq<char>)
    requires
        0 <= k < scan::line_list(s).len(),
        fences(scan::line_list(s), k) % 2 == 0,
        text_laws::blank(a) && text_laws::blank(w) && text_laws::blank(b) && text_laws::tight(r),
        scan::line_list(s)[k] == a + seq!['>'] + w + r + b,
    ensures
        ({
            let at = row_place(scan::line_list(s), k);
            &&& 0 <= at < md::parsed(s).len()
            &&& md::parsed(s)[at].kind == Kind::Quote
            &&& md::parsed(s)[at].text == r
        }),
{
    let raw = scan::line_list(s)[k];
    law_every_line_has_a_row(s, k);
    let t = if r.len() > 0 {
        seq!['>'] + w + r
    } else {
        seq!['>']
    };
    let tail = if r.len() > 0 {
        b
    } else {
        w + b
    };
    assert(!text::is_white('>'));
    assert(raw =~= a + t + tail);
    assert(text_laws::blank(tail)) by {
        assert forall|i: int| 0 <= i < tail.len() implies text::is_white(#[trigger] tail[i]) by {
            if r.len() == 0 {
                if i < w.len() {
                    assert(tail[i] == w[i]);
                } else {
                    assert(tail[i] == b[i - w.len()]);
                }
            }
        }
    }
    assert(t.len() > 0 && t[0] == '>');
    if r.len() > 0 {
        assert(t[t.len() - 1] == r[r.len() - 1]);
    }
    lemma_trimmed_line(a, t, tail, raw);
    lemma_no_heading(t);
    if r.len() > 0 {
        assert(t.skip(1) =~= w + r);
        text_laws::law_trimming_the_start(w, r);
    } else {
        assert(t.skip(1) =~= Seq::<char>::empty() + Seq::<char>::empty());
        text_laws::law_trimming_the_start(Seq::<char>::empty(), Seq::<char>::empty());
        assert(r =~= Seq::<char>::empty());
    }
    assert(!md::is_rule(t)) by {
        if md::is_rule(t) {
            assert(t[0] == '-' || t[0] == '=' || t[0] == '_');
        }
    }
    lemma_no_fence(a, t, tail, raw);
}

proof fn lemma_no_fence(a: Seq<char>, t: Seq<char>, b: Seq<char>, raw: Seq<char>)
    requires
        text_laws::blank(a),
        t.len() > 0,
        t[0] != '`',
        !text::is_white(t[0]),
        raw == a + t + b,
    ensures
        !fence(raw),
{
    if fence(raw) {
        let n = choose|n: int| fence_at(raw, n);
        let m = a.len() as int;
        assert(raw[m] == t[0]);
        assert(!text::is_white('`'));
        if n < m {
            assert(raw[n] == a[n]);
        } else if n > m {
            assert(text::is_white(raw[m]));
        }
    }
}

proof fn lemma_no_heading(t: Seq<char>)
    requires
        t.len() > 0,
        t[0] != '#',
    ensures
        md::heading_level(t) is None,
{
    assert(md::hashes(t, 0) == 0);
}

pub proof fn lemma_hashes(n: int, rest: Seq<char>, i: int)
    requires
        0 <= i <= n,
        rest.len() > 0 ==> rest[0] != '#',
    ensures
        md::hashes(Seq::new(n as nat, |j: int| '#') + rest, i) == n,
    decreases n - i,
{
    let s = Seq::new(n as nat, |j: int| '#') + rest;
    if i < n {
        assert(s[i] == '#');
        lemma_hashes(n, rest, i + 1);
    } else {
        if rest.len() > 0 {
            assert(s[n] == rest[0]);
        }
    }
}

/// A line of one to six `#` and a text is a heading of that level.
pub proof fn law_headings_have_their_level(s: Seq<char>, k: int, a: Seq<char>, n: int, w: Seq<char>, r: Seq<char>, b: Seq<char>)
    requires
        0 <= k < scan::line_list(s).len(),
        fences(scan::line_list(s), k) % 2 == 0,
        1 <= n <= 6,
        text_laws::blank(a) && text_laws::blank(w) && text_laws::blank(b) && text_laws::tight(r),
        r.len() > 0 && r[0] != '#',
        scan::line_list(s)[k] == a + Seq::new(n as nat, |i: int| '#') + w + r + b,
    ensures
        ({
            let at = row_place(scan::line_list(s), k);
            &&& 0 <= at < md::parsed(s).len()
            &&& md::parsed(s)[at].kind == Kind::Heading(n as u8)
            &&& md::parsed(s)[at].text == Seq::new(n as nat, |i: int| '#') + w + r
        }),
{
    let raw = scan::line_list(s)[k];
    law_every_line_has_a_row(s, k);
    let marks = Seq::new(n as nat, |i: int| '#');
    let t = marks + w + r;
    assert(raw =~= a + t + b);
    assert(t[0] == '#');
    assert(t[t.len() - 1] == r[r.len() - 1]);
    lemma_trimmed_line(a, t, b, raw);
    if w.len() > 0 {
        assert(text::is_white(w[0]));
    }
    assert(t =~= marks + (w + r));
    lemma_hashes(n, w + r, 0);
    assert(t.skip(n) =~= w + r);
    text_laws::law_trimming_the_start(w, r);
    lemma_no_fence(a, t, b, raw);
}

/// A line of at least three of `-`, `=` and `_` is a rule, and white space is an empty
/// row.
pub proof fn law_rules_and_empty_lines(s: Seq<char>, k: int, a: Seq<char>, t: Seq<char>, b: Seq<char>)
    requires
        0 <= k < scan::line_list(s).len(),
        fences(scan::line_list(s), k) % 2 == 0,
        text_laws::blank(a) && text_laws::blank(b),
        forall|i: int| 0 <= i < t.len() ==> (#[trigger] t[i] == '-' || t[i] == '=' || t[i] == '_'),
        t.len() == 0 || t.len() >= 3,
        scan::line_list(s)[k] == a + t + b,
    ensures
        ({
            let at = row_place(scan::line_list(s), k);
            &&& 0 <= at < md::parsed(s).len()
            &&& md::parsed(s)[at].kind == (if t.len() == 0 {
                Kind::Empty
            } else {
                Kind::Hr
            })
        }),
{
    let raw = scan::line_list(s)[k];
    law_every_line_has_a_row(s, k);
    if t.len() > 0 {
        assert(t[0] == '-' || t[0] == '=' || t[0] == '_');
        assert(t[t.len() - 1] == '-' || t[t.len() - 1] == '=' || t[t.len() - 1] == '_');
        lemma_trimmed_line(a, t, b, raw);
        lemma_no_heading(t);
        assert(md::is_rule(t));
        lemma_no_fence(a, t, b, raw);
    } else {
        lemma_trimmed_line(a, t, b, raw);
        if fence(raw) {
            let n = choose|n: int| fence_at(raw, n);
            if n < a.len() {
                assert(raw[n] == a[n]);
            } else {
                assert(raw[n] == b[n - a.len()]);
            }
        }
    }
}

/// A line of `-`, `*` or `+`, a blank and a text is an item of a list, and so is one of
/// digits, `.` or `)`, a blank and a text; the row holds the line. A line that begins
/// with a letter is ordinary text, and the row holds the line as well.
pub proof fn law_items_and_text_are_kept(s: Seq<char>, k: int, a: Seq<char>, m: Seq<char>, r: Seq<char>, b: Seq<char>)
    requires
        0 <= k < scan::line_list(s).len(),
        fences(scan::line_list(s), k) % 2 == 0,
        text_laws::blank(a) && text_laws::blank(b) && text_laws::tight(r),
        r.len() > 0,
        scan::line_list(s)[k] == a + m + r + b,
    ensures
        ({
            let at = row_place(scan::line_list(s), k);
            let row = md::parsed(s)[at];
            let bullet = m.len() == 2 && (m[0] == '-' || m[0] == '*' || m[0] == '+') && m[1] == ' ';
            let number = m.len() > 2 && m[m.len() - 1] == ' ' && (m[m.len() - 2] == '.'
                || m[m.len() - 2] == ')') && forall|i: int|
                0 <= i < m.len() - 2 ==> '0' <= #[trigger] m[i] <= '9';
            let word = m.len() == 0 && ('a' <= r[0] <= 'z' || 'A' <= r[0] <= 'Z' || '\u{4e00}'
                <= r[0] <= '\u{9fff}');
            &&& bullet || number ==> 0 <= at < md::parsed(s).len() && row.kind == Kind::List
                && ended(row.text, scan::line_list(s)[k])
            &&& word ==> 0 <= at < md::parsed(s).len() && row.kind == Kind::Normal && ended(
                row.text,
                scan::line_list(s)[k],
            )
        }),
{
    let raw = scan::line_list(s)[k];
    law_every_line_has_a_row(s, k);
    lemma_ended(raw);
    let t = m + r;
    assert(raw =~= a + t + b);
    let bullet = m.len() == 2 && (m[0] == '-' || m[0] == '*' || m[0] == '+') && m[1] == ' ';
    let number = m.len() > 2 && m[m.len() - 1] == ' ' && (m[m.len() - 2] == '.' || m[m.len() - 2]
        == ')') && forall|i: int| 0 <= i < m.len() - 2 ==> '0' <= #[trigger] m[i] <= '9';
    let word = m.len() == 0 && ('a' <= r[0] <= 'z' || 'A' <= r[0] <= 'Z' || '\u{4e00}' <= r[0]
        <= '\u{9fff}');
    if bullet || number || word {
        if m.len() > 0 {
            assert(t[0] == m[0]);
        } else {
            assert(t[0] == r[0]);
        }
        if number {
            assert('0' <= m[0] <= '9');
        }
        assert(t[t.len() - 1] == r[r.len() - 1]);
        lemma_trimmed_line(a, t, b, raw);
        lemma_no_heading(t);
        lemma_no_fence(a, t, b, raw);
        if bullet {
            assert(t[1] == m[1]);
            assert(!md::is_rule(t)) by {
                if md::is_rule(t) {
                    assert(t[1] == '-' || t[1] == '=' || t[1] == '_');
                }
            }
        } else if number {
            assert(!md::is_rule(t)) by {
                if md::is_rule(t) {
                    assert(t[0] == '-' || t[0] == '=' || t[0] == '_');
                }
            }
            let d = m.len() - 2;
            assert forall|i: int| 0 <= i < d implies text::is_digit(#[trigger] t[i]) by {
                assert('0' <= m[i] <= '9');
            }
            assert(t[d] == m[d] && t[d + 1] == m[d + 1]);
            lemma_past_digits(t, 0, d);
        } else {
            assert(!md::is_rule(t)) by {
                if md::is_rule(t) {
                    assert(t[0] == '-' || t[0] == '=' || t[0] == '_');
                }
            }
            assert(!text::is_digit(t[0]));
            assert(md::past_digits(t, 0) == 0);
        }
    }
}

proof fn lemma_past_digits(t: Seq<char>, i: int, d: int)
    requires
        0 <= i <= d < t.len(),
        forall|j: int| 0 <= j < d ==> text::is_digit(#[trigger] t[j]),
        !text::is_digit(t[d]),
    ensures
        md::past_digits(t, i) == d,
    decreases d - i,
{
    if i < d {
        assert(text::is_digit(t[i]));
        lemma_past_digits(t, i + 1, d);
    }
}

proof fn lemma_hashes_are(s: Seq<char>, i: int)
    requires
        0 <= i <= s.len(),
    ensures
        i <= md::hashes(s, i) <= s.len(),
        forall|k: int| i <= k < md::hashes(s, i) ==> #[trigger] s[k] == '#',
        md::hashes(s, i) < s.len() ==> s[md::hashes(s, i)] != '#',
    decreases s.len() - i,
{
    if i < s.len() && s[i] == '#' {
        lemma_hashes_are(s, i + 1);
    }
}

proof fn lemma_digits_are(s: Seq<char>, i: int)
    requires
        0 <= i <= s.len(),
    ensures
        i <= md::past_digits(s, i) <= s.len(),
        forall|k: int| i <= k < md::past_digits(s, i) ==> '0' <= #[trigger] s[k] <= '9',
    decreases s.len() - i,
{
    if i < s.len() && text::is_digit(s[i]) {
        lemma_digits_are(s, i + 1);
    }
}

/// A line outside of code blocks has no other kind than its marks give it: a heading
/// begins with as many `#` as its level and no more, a quote with `>`, an item with its
/// bullet or its number, a rule is made of nothing but its marks, and every other line
/// that is not empty is ordinary text.
pub proof fn law_kinds_need_their_marks(s: Seq<char>, k: int, a: Seq<char>, t: Seq<char>, b: Seq<char>)
    requires
        0 <= k < scan::line_list(s).len(),
        fences(scan::line_list(s), k) % 2 == 0,
        text_laws::blank(a) && text_laws::blank(b) && text_laws::tight(t),
        t.len() > 0,
        t[0] != '`',
        scan::line_list(s)[k] == a + t + b,
    ensures
        ({
            let at = row_place(scan::line_list(s), k);
            let row = md::parsed(s)[at];
            &&& 0 <= at < md::parsed(s).len()
            &&& match row.kind {
                Kind::Heading(n) => 1 <= n <= 6 && n < t.len() && (forall|i: int|
                    0 <= i < n ==> #[trigger] t[i] == '#') && t[n as int] != '#',
                Kind::Quote => t[0] == '>',
                Kind::Hr => t.len() >= 3 && forall|i: int|
                    0 <= i < t.len() ==> (#[trigger] t[i] == '-' || t[i] == '=' || t[i] == '_'),
                Kind::List => {
                    ||| t.len() >= 2 && (t[0] == '-' || t[0] == '*' || t[0] == '+') && t[1] == ' '
                    ||| '0' <= t[0] <= '9' && exists|d: int|
                        0 < d && d + 1 < t.len() && (#[trigger] t[d] == '.' || t[d] == ')') && t[d
                            + 1] == ' '
                },
                Kind::Normal => ended(row.text, scan::line_list(s)[k]),
                _ => false,
            }
        }),
{
    let raw = scan::line_list(s)[k];
    law_every_line_has_a_row(s, k);
    lemma_trimmed_line(a, t, b, raw);
    lemma_no_fence(a, t, b, raw);
    lemma_ended(raw);
    lemma_hashes_are(t, 0);
    lemma_digits_are(t, 0);
    let n = md::hashes(t, 0);
    if n == t.len() {
        text_laws::law_trimming_the_start(Seq::empty(), Seq::empty());
        assert(t.skip(n) =~= Seq::<char>::empty());
        assert(Seq::<char>::empty() + Seq::<char>::empty() =~= Seq::<char>::empty());
    }
    let d = md::past_digits(t, 0);
    if d > 0 && d + 1 < t.len() {
        assert('0' <= t[0] <= '9');
        assert(t[d] == t[d]);
    }
}

} // verus!
